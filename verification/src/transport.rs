//! Which transport the daemon serves, as its command line says.

use crate::number::{parse_u16, u16_of_text, IntErrorKind};
use crate::text::{chars_of, fields, split, string_of};
use vstd::prelude::*;

verus! {

/// Why a text is no address.
#[derive(Debug, PartialEq, Eq)]
pub enum AddressParseError {
    MissingHost,
    MissingPort,
    ParsePort(IntErrorKind),
}

/// The address that a text of the form `host:port` names. What follows a
/// second colon is ignored.
pub open spec fn address_of_text(s: Seq<char>) -> Result<(Seq<char>, u16), AddressParseError> {
    let parts = fields(s, ':');
    if parts.len() < 2 {
        Err(AddressParseError::MissingPort)
    } else {
        match u16_of_text(parts[1]) {
            Ok(port) => Ok((parts[0], port as u16)),
            Err(k) => Err(AddressParseError::ParsePort(k)),
        }
    }
}

/// Reads the address to serve HTTP on.
pub fn parse_addr_option(s: &str) -> (r: Result<(String, u16), AddressParseError>)
    ensures
        r matches Ok(addr) ==> address_of_text(s@) == Ok::<
            (Seq<char>, u16),
            AddressParseError,
        >((addr.0@, addr.1)),
        r matches Err(e) ==> address_of_text(s@) == Err::<(Seq<char>, u16), AddressParseError>(e),
{
    let chars = chars_of(s);
    let parts = split(chars.as_slice(), ':');
    if parts.len() < 2 {
        return Err(AddressParseError::MissingPort);
    }
    match parse_u16(parts[1].as_slice()) {
        Ok(port) => Ok((string_of(parts[0].as_slice()), port)),
        Err(k) => Err(AddressParseError::ParsePort(k)),
    }
}

/// The one transport that the daemon serves.
#[derive(Debug, PartialEq, Eq)]
pub enum Transport {
    /// Lines of JSON over the socket at this path.
    Socket(String),
    /// HTTP on this host and port.
    Http(String, u16),
}

/// Exactly one transport must be asked for.
#[derive(Debug, Clone, Copy, PartialEq, Eq, Structural)]
pub enum TransportError {
    /// Both a socket path and an address were given.
    Both,
    /// Neither was given.
    Neither,
}

/// Picks the transport from what the command line gave.
pub fn choose_transport(socket_path: Option<String>, serve: Option<(String, u16)>) -> (r: Result<
    Transport,
    TransportError,
>)
    ensures
        r == match (socket_path, serve) {
            (Some(path), None) => Ok(Transport::Socket(path)),
            (None, Some(addr)) => Ok(Transport::Http(addr.0, addr.1)),
            (Some(_), Some(_)) => Err(TransportError::Both),
            (None, None) => Err(TransportError::Neither),
        },
{
    match (socket_path, serve) {
        (Some(path), None) => Ok(Transport::Socket(path)),
        (None, Some(addr)) => Ok(Transport::Http(addr.0, addr.1)),
        (Some(_), Some(_)) => Err(TransportError::Both),
        (None, None) => Err(TransportError::Neither),
    }
}

/// The status that the process ends with: 1 where the daemon is to be
/// started afresh, 0 after a clean end.
pub fn exit_status(reinitialize: bool) -> (status: u8)
    ensures
        status == if reinitialize {
            1u8
        } else {
            0u8
        },
{
    if reinitialize {
        1
    } else {
        0
    }
}

/// The options of the HTTP daemon: the daemon's own, and the address to serve on.
#[derive(Debug)]
pub struct ServeDaemonOpts {
    pub delegate: crate::daemon::DaemonInit,
    pub serve: (String, u16),
}

impl ServeDaemonOpts {
    pub fn serve_addr(&self) -> (addr: (String, u16))
        ensures
            addr == self.serve,
    {
        (self.serve.0.clone(), self.serve.1)
    }
}

} // verus!
