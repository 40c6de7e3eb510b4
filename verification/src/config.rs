//! Configuration values of the transports.  All durations are in
//! milliseconds.

use vstd::prelude::*;

verus! {

/// The default time allowed for making a connection, in milliseconds.
pub const DEFAULT_CONNECT_TIMEOUT: u64 = 5000;

/// The default time allowed for one read or one write, in milliseconds.
pub const DEFAULT_IO_TIMEOUT: u64 = 1000;

/// The default size of a receive buffer, in bytes.
pub const DEFAULT_BUFFER_SIZE: usize = 8192;

/// Timeouts and buffer size of a transport.
#[derive(Debug, Clone, Copy, PartialEq, Eq, Structural)]
pub struct TransportConfig {
    /// The time allowed for making a connection, in milliseconds.
    pub connect_timeout: u64,
    /// The time allowed for one read, in milliseconds.
    pub read_timeout: u64,
    /// The time allowed for one write, in milliseconds.
    pub write_timeout: u64,
    /// The size of the receive buffer, in bytes.
    pub buffer_size: usize,
}

impl TransportConfig {
    /// Five seconds to connect, one second to read or write, and a buffer
    /// of eight kibibytes.
    pub open spec fn spec_default() -> TransportConfig {
        TransportConfig {
            connect_timeout: DEFAULT_CONNECT_TIMEOUT,
            read_timeout: DEFAULT_IO_TIMEOUT,
            write_timeout: DEFAULT_IO_TIMEOUT,
            buffer_size: DEFAULT_BUFFER_SIZE,
        }
    }
}

impl Default for TransportConfig {
    fn default() -> (r: Self)
        ensures
            r == TransportConfig::spec_default(),
    {
        TransportConfig {
            connect_timeout: DEFAULT_CONNECT_TIMEOUT,
            read_timeout: DEFAULT_IO_TIMEOUT,
            write_timeout: DEFAULT_IO_TIMEOUT,
            buffer_size: DEFAULT_BUFFER_SIZE,
        }
    }
}

/// The configuration of a TCP transport.
#[derive(Debug, Clone, Copy, PartialEq, Eq, Structural)]
pub struct TcpConfig {
    /// Timeouts and buffer size.
    pub base: TransportConfig,
    /// Whether small writes are sent at once.
    pub no_delay: bool,
    /// Whether the connection is probed while it is idle.
    pub keep_alive: bool,
}

impl TcpConfig {
    /// The default timeouts and buffer size, with immediate sending and
    /// idle probing switched on.
    pub open spec fn spec_default() -> TcpConfig {
        TcpConfig { base: TransportConfig::spec_default(), no_delay: true, keep_alive: true }
    }

    /// The time after which an idle connection is probed: the connect
    /// timeout where probing is switched on, none where it is off.
    pub open spec fn spec_keep_alive_time(self) -> Option<u64> {
        if self.keep_alive {
            Some(self.base.connect_timeout)
        } else {
            None
        }
    }

    /// The time after which an idle connection is probed, if at all.
    pub fn keep_alive_time(&self) -> (r: Option<u64>)
        ensures
            r == self.spec_keep_alive_time(),
    {
        if self.keep_alive {
            Some(self.base.connect_timeout)
        } else {
            None
        }
    }
}

impl Default for TcpConfig {
    fn default() -> (r: Self)
        ensures
            r == TcpConfig::spec_default(),
    {
        TcpConfig { base: TransportConfig::default(), no_delay: true, keep_alive: true }
    }
}

} // verus!
