# sensor_sniffer

The sensor of a Bluetooth Low Energy intrusion detection system. It runs the
nRF sniffer, reads each parsed packet from the sniffer's log, and delivers
batches of packets and heartbeat messages to the backend over a websocket.

`src/` is a library verified with Verus:

- `advertising` reads the AD structures of an advertising payload (names,
  company identifier, transmit power, 16- and 128-bit service UUIDs);
- `packet` reads a log statement of the sniffer into a `BLEPacket`;
- `oui` holds the table of address prefixes and their companies;
- `config` reads the settings and finds the dongle's port;
- `sniffer`, `delivery` and `heartbeat` hold the decisions of the sensor's
  loops: the sniffer's command line, when a batch is due, which packets go in
  it, and when a failed send is retried;
- `tester` makes random packets for the simulated mode;
- `text`, `numbers` and `hex_text` hold the text handling they rest on.

`app/` is the program around it: configuration files, the sniffer process,
the system figures of the heartbeat, Avro and JSON encoding, and the
websocket.
