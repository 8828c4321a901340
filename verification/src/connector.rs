//! The connection endpoints a gateway can be opened over.
//!
//! A connector names one transport: a TCP peer, or a serial line. The
//! engine is transport-agnostic; the surrounding runtime opens the named
//! endpoint and runs the read and write loops that carry line-delimited
//! frames between the transport and the engine.

use vstd::prelude::*;

verus! {

/// A TCP transport endpoint: a host name and a port.
#[derive(Debug, Clone)]
pub struct TcpConnector {
    pub hostname: String,
    pub port: u16,
}

impl TcpConnector {
    /// Names a TCP endpoint.
    pub fn new(hostname: &str, port: u16) -> (r: TcpConnector)
        ensures
            r.hostname@ == hostname@,
            r.port == port,
    {
        TcpConnector { hostname: String::from_str(hostname), port }
    }
}

/// A serial-line transport endpoint: a device name and a baud rate.
#[derive(Debug, Clone)]
pub struct SerialPortConnector {
    pub dev: String,
    pub baud: u32,
}

impl SerialPortConnector {
    /// Names a serial-line endpoint.
    pub fn new(dev: &str, baud: u32) -> (r: SerialPortConnector)
        ensures
            r.dev@ == dev@,
            r.baud == baud,
    {
        SerialPortConnector { dev: String::from_str(dev), baud }
    }
}

} // verus!
