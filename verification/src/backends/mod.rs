//! Transport backends: the state that carries bytes to and from the
//! USB-CAN adapter. The byte streams themselves (serial ports, `embedded-io`
//! streams) are driven from outside this crate.

pub mod client_core;
pub mod embedded_io;
pub mod rx_buffer;
pub mod tokio_serial;
