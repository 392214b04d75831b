use vstd::prelude::*;
use crate::backoff::{backoff_delay, ExponentialBackoff};

verus! {

/// First reconnect delay, in milliseconds.
pub const RECONNECT_BASE_MS: u64 = 2;

/// Factor between consecutive reconnect delays.
pub const RECONNECT_FACTOR: u64 = 250;

/// Cap on every reconnect delay, in milliseconds.
pub const RECONNECT_MAX_MS: u64 = 60_000;

/// Errors of the TCP connector and service.
pub enum TcpError {
    /// The address could not be used.
    InvalidAddress { reason: String },
    /// The socket could not be created or configured.
    FailedToConfigure { reason: String },
    /// Writing a request to the connection failed.
    FailedToSend { reason: String },
    /// The transport-level connect failed.
    FailedToConnect { reason: String },
    /// The lookup succeeded but returned no address.
    NoAddresses,
    /// The lookup of the host failed.
    FailedToResolve { reason: String },
    /// The write task ended without handing the connection back.
    ServiceStreamChannelClosed,
    /// The service was asked to send while it was not connected, or was fed an
    /// event that its current state cannot take.
    ProtocolViolation,
}

/// A host name and a mandatory port.
#[derive(Clone)]
pub struct HostAndPort {
    pub host: String,
    pub port: u16,
}

/// An IP address as plain numbers.
#[derive(Clone, Copy, PartialEq, Eq, Structural, Debug)]
pub enum IpAddress {
    V4(u32),
    V6(u128),
}

/// An IP address with a port.
#[derive(Clone, Copy, PartialEq, Eq, Structural, Debug)]
pub struct SocketAddress {
    pub ip: IpAddress,
    pub port: u16,
}

impl SocketAddress {
    pub fn is_ipv4(&self) -> (r: bool)
        ensures
            r == (self.ip is V4),
    {
        match self.ip {
            IpAddress::V4(_) => true,
            IpAddress::V6(_) => false,
        }
    }
}

/// Configuration of a TCP connector.
#[derive(Clone)]
pub struct TcpConnectorConfig {
    address: HostAndPort,
    send_buffer_size: Option<u32>,
}

impl TcpConnectorConfig {
    pub closed spec fn host_view(&self) -> Seq<char> {
        self.address.host@
    }

    pub closed spec fn port_view(&self) -> u16 {
        self.address.port
    }

    pub closed spec fn send_buffer_view(&self) -> Option<u32> {
        self.send_buffer_size
    }

    /// A configuration for `host:port` without a send buffer hint.
    pub fn from_address(host: String, port: u16) -> (r: Self)
        ensures
            r.host_view() == host@,
            r.port_view() == port,
            r.send_buffer_view() is None,
    {
        TcpConnectorConfig { address: HostAndPort { host, port }, send_buffer_size: None }
    }

    /// The same configuration with the given send buffer hint, in bytes.
    pub fn with_send_buffer_size(self, size: Option<u32>) -> (r: Self)
        ensures
            r.host_view() == self.host_view(),
            r.port_view() == self.port_view(),
            r.send_buffer_view() == size,
    {
        TcpConnectorConfig { send_buffer_size: size, ..self }
    }

    /// A connector for the configured destination.
    pub fn as_connector(&self) -> (r: TcpConnector)
        ensures
            r.host_view() == self.host_view(),
            r.port_view() == self.port_view(),
            r.send_buffer_view() == self.send_buffer_view(),
    {
        TcpConnector {
            address: HostAndPort { host: self.address.host.clone(), port: self.address.port },
            send_buffer_size: self.send_buffer_size,
        }
    }
}

/// Connects to one destination. It holds no state between attempts, so one
/// connector serves any number of services.
#[derive(Clone)]
pub struct TcpConnector {
    address: HostAndPort,
    send_buffer_size: Option<u32>,
}

impl TcpConnector {
    pub closed spec fn host_view(&self) -> Seq<char> {
        self.address.host@
    }

    pub closed spec fn port_view(&self) -> u16 {
        self.address.port
    }

    pub closed spec fn send_buffer_view(&self) -> Option<u32> {
        self.send_buffer_size
    }

    /// The host to look up.
    pub fn host(&self) -> (r: &str)
        ensures
            r@ == self.host_view(),
    {
        self.address.host.as_str()
    }

    /// The port to connect to.
    pub fn port(&self) -> (r: u16)
        ensures
            r == self.port_view(),
    {
        self.address.port
    }

    /// The send buffer hint, in bytes. Failing to apply it is not fatal.
    pub fn send_buffer_size(&self) -> (r: Option<u32>)
        ensures
            r == self.send_buffer_view(),
    {
        self.send_buffer_size
    }

    /// Picks the address to connect to from the outcome of looking up the host:
    /// the first address found, with the configured port.
    pub fn select_address(&self, lookup: Result<Vec<IpAddress>, String>) -> (r: Result<
        SocketAddress,
        TcpError,
    >)
        ensures
            match lookup {
                Err(e) => r == Err::<SocketAddress, TcpError>(TcpError::FailedToResolve { reason: e }),
                Ok(ips) => if ips@.len() == 0 {
                    r == Err::<SocketAddress, TcpError>(TcpError::NoAddresses)
                } else {
                    r == Ok::<SocketAddress, TcpError>(SocketAddress { ip: ips@[0], port: self.port_view() })
                },
            },
    {
        match lookup {
            Err(e) => Err(TcpError::FailedToResolve { reason: e }),
            Ok(ips) => {
                if ips.len() == 0 {
                    Err(TcpError::NoAddresses)
                } else {
                    Ok(SocketAddress { ip: ips[0], port: self.address.port })
                }
            },
        }
    }
}

/// What to do after one connect attempt.
pub enum ConnectDecision {
    /// The connection is up; the loop ends.
    Established(SocketAddress),
    /// Report the error, wait `delay_ms` milliseconds and try again.
    RetryAfter { error: TcpError, delay_ms: u64 },
}

/// The decisions of a reconnect loop that never gives up: each failed attempt
/// is reported and followed by a capped exponential wait, and the only way out
/// is a successful attempt. A fresh loop starts from the first delay.
pub struct ReconnectLoop {
    backoff: ExponentialBackoff,
}

impl ReconnectLoop {
    pub closed spec fn wf(&self) -> bool {
        &&& self.backoff.wf()
        &&& self.backoff.base_ms() == RECONNECT_BASE_MS
        &&& self.backoff.factor_spec() == RECONNECT_FACTOR
        &&& self.backoff.max_ms() == RECONNECT_MAX_MS
    }

    /// How many attempts have failed so far.
    pub closed spec fn failures(&self) -> nat {
        self.backoff.steps()
    }

    pub fn new() -> (r: Self)
        ensures
            r.wf(),
            r.failures() == 0,
    {
        let b = ExponentialBackoff::from_millis(RECONNECT_BASE_MS).factor(RECONNECT_FACTOR).max_delay(
            RECONNECT_MAX_MS,
        );
        ReconnectLoop { backoff: b }
    }

    /// Decides what follows an attempt that ended with `attempt`.
    pub fn on_attempt(&mut self, attempt: Result<SocketAddress, TcpError>) -> (d: ConnectDecision)
        requires
            old(self).wf(),
        ensures
            final(self).wf(),
            match attempt {
                Ok(addr) => {
                    &&& d == ConnectDecision::Established(addr)
                    &&& final(self).failures() == old(self).failures()
                },
                Err(e) => {
                    &&& d == (ConnectDecision::RetryAfter {
                        error: e,
                        delay_ms: backoff_delay(
                            RECONNECT_BASE_MS as nat,
                            RECONNECT_FACTOR as nat,
                            RECONNECT_MAX_MS as nat,
                            old(self).failures(),
                        ) as u64,
                    })
                    &&& final(self).failures() == old(self).failures() + 1
                },
            },
    {
        match attempt {
            Ok(addr) => ConnectDecision::Established(addr),
            Err(error) => {
                let delay_ms = self.backoff.next();
                ConnectDecision::RetryAfter { error, delay_ms }
            },
        }
    }
}

/// Maps the outcome of one connect attempt to the outcome of a health check.
/// The connection itself is discarded.
pub fn healthcheck_outcome(attempt: Result<SocketAddress, TcpError>) -> (r: Result<(), TcpError>)
    ensures
        match attempt {
            Ok(_) => r is Ok,
            Err(e) => r == Err::<(), TcpError>(e),
        },
{
    match attempt {
        Ok(_) => Ok(()),
        Err(e) => Err(e),
    }
}

} // verus!
