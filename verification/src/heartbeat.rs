//! Parts of the heartbeat message that reports the sensor's health.

use vstd::prelude::*;
use crate::numbers::{decimal_chars, decimal_text};
use crate::text::string_from_chars;

verus! {

/// The traffic of one network interface.
#[derive(Clone, Debug)]
pub struct NetworkInfo {
    /// The name of the interface.
    pub interface_name: String,
    /// Bytes received since the sensor started.
    pub total_received: u64,
    /// Bytes sent since the sensor started.
    pub total_transmitted: u64,
}

impl NetworkInfo {
    /// The traffic of the interface `interface_name`.
    pub fn new(interface_name: String, total_received: u64, total_transmitted: u64) -> (res: NetworkInfo)
        ensures
            res.interface_name@ == interface_name@,
            res.total_received == total_received,
            res.total_transmitted == total_transmitted,
    {
        NetworkInfo { interface_name, total_received, total_transmitted }
    }
}

/// The time stamp of a heartbeat message: the seconds since the Unix epoch
/// in decimal.
pub fn heartbeat_timestamp(unix_secs: u64) -> (res: String)
    ensures
        res@ == decimal_text(unix_secs as nat),
{
    string_from_chars(&decimal_chars(unix_secs))
}

} // verus!
