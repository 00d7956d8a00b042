//! Configuration of the tokio serial-port transport. The port itself, and
//! the tasks that read and write it, are driven from outside this crate; the
//! bytes they carry go through a [`crate::backends::client_core::ClientCore`].

use vstd::prelude::*;

use crate::protocol::wareshare_usb_can_a::Config;

verus! {

/// Default serial baudrate of the USB-CAN-A adapter.
pub const DEFAULT_BAUDRATE: u32 = 2_000_000;

/// Serial transport configuration (device path + baudrate + CAN settings).
#[derive(Debug, Clone)]
pub struct TokioSerialConfig {
    /// Serial device path (e.g., "/dev/ttyUSB0" or "COM4")
    pub device: String,
    /// Serial baudrate (default: 2000000)
    pub baudrate: u32,
    /// CAN-side configuration
    pub can: Config,
    /// Log every frame sent and received
    pub debug_traffic: bool,
}

impl TokioSerialConfig {
    /// Create a config for the given device with default CAN settings.
    pub fn new(device: &str) -> (r: TokioSerialConfig)
        ensures
            r.device@ == device@,
            r.baudrate == DEFAULT_BAUDRATE,
            r.can == Config::spec_default(),
            !r.debug_traffic,
    {
        TokioSerialConfig {
            device: device.to_owned(),
            baudrate: DEFAULT_BAUDRATE,
            can: Config::default(),
            debug_traffic: false,
        }
    }
}

} // verus!
