//! SOCKS4 request parsing, reply framing and the handshake's phases.
use vstd::prelude::*;

verus! {

pub const SOCKS4_VERSION: u8 = 4u8;

pub const SOCKS4_CONNECT_COMMAND: u8 = 1u8;

pub const SOCKS4_BIND_COMMAND: u8 = 2u8;

/// Length of the fixed fields of a request; the user id after them is ignored.
pub const SOCKS4_REQUEST_LEN: usize = 8;

/// Reply code: request granted.
pub const SOCKS4_GRANTED: u8 = 0x5Au8;

/// Reply code: request rejected or failed.
pub const SOCKS4_REJECTED: u8 = 0x5Bu8;

#[derive(Clone, Copy, Debug, PartialEq, Eq, Structural)]
pub enum Socks4Phase {
    ConnectReq,
    ConnectRep,
    Proxing,
}

/// An IPv4 destination as a SOCKS4 request carries it.
#[derive(Clone, Copy, Debug, PartialEq, Eq)]
pub struct Socks4Addr {
    pub port: u16,
    pub ip: [u8; 4],
}

#[derive(Clone, Copy, Debug, PartialEq, Eq, Structural)]
pub enum Socks4Error {
    /// The request is shorter than its fixed fields.
    TooShort { len: usize },
    UnsupportedVersion { version: u8 },
    UnsupportedCommand { command: u8 },
    /// The handshake step was attempted in the wrong phase.
    WrongPhase { phase: Socks4Phase },
}

/// Why `s` is not a SOCKS4 CONNECT or BIND request, checked in the order
/// length, version, command; `None` when it is one.
pub open spec fn request_error(s: Seq<u8>) -> Option<Socks4Error> {
    if s.len() < SOCKS4_REQUEST_LEN {
        Some(Socks4Error::TooShort { len: s.len() as usize })
    } else if s[0] != SOCKS4_VERSION {
        Some(Socks4Error::UnsupportedVersion { version: s[0] })
    } else if s[1] != SOCKS4_CONNECT_COMMAND && s[1] != SOCKS4_BIND_COMMAND {
        Some(Socks4Error::UnsupportedCommand { command: s[1] })
    } else {
        None
    }
}

/// `addr` is the destination of request `s`: big-endian port in bytes 2 and 3,
/// address in bytes 4 to 7.
pub open spec fn is_dest_of(addr: Socks4Addr, s: Seq<u8>) -> bool {
    &&& s.len() >= SOCKS4_REQUEST_LEN
    &&& addr.port as int == s[2] as int * 256 + s[3] as int
    &&& addr.ip@ == s.subrange(4, 8)
}

/// The eight reply bytes with `code`, echoing the destination's fields.
pub open spec fn reply_bytes(code: u8, addr: Socks4Addr) -> Seq<u8> {
    seq![0u8, code, (addr.port / 256) as u8, (addr.port % 256) as u8] + addr.ip@
}

/// A reply to a well-formed request echoes the request's port and address
/// bytes unchanged.
pub proof fn lemma_reply_echoes_request(code: u8, addr: Socks4Addr, s: Seq<u8>)
    requires
        is_dest_of(addr, s),
    ensures
        reply_bytes(code, addr).len() == 8,
        reply_bytes(code, addr)[0] == 0u8,
        reply_bytes(code, addr)[1] == code,
        reply_bytes(code, addr).subrange(2, 8) == s.subrange(2, 8),
{
    let r = reply_bytes(code, addr);
    assert(addr.port / 256 == s[2] as int && addr.port % 256 == s[3] as int);
    assert(r.subrange(2, 8) =~= s.subrange(2, 8));
}

/// The reply with `code` to a request for `addr`.
pub fn reply(code: u8, addr: &Socks4Addr) -> (r: Vec<u8>)
    ensures
        r@ == reply_bytes(code, *addr),
{
    let r = vec![
        0u8,
        code,
        (addr.port / 256) as u8,
        (addr.port % 256) as u8,
        addr.ip[0],
        addr.ip[1],
        addr.ip[2],
        addr.ip[3],
    ];
    assert(r@ =~= reply_bytes(code, *addr));
    r
}

/// One client's handshake: its phase, the destination it asked for, and the
/// two streams once they exist.
pub struct Socks4<S> {
    pub phase: Socks4Phase,
    pub proxy_addr: Socks4Addr,
    pub proxy_stream: Option<S>,
    pub client_stream: S,
}

impl<S> Socks4<S> {
    /// Parses the client's first message as a SOCKS4 CONNECT or BIND request.
    pub fn is_connect_req(input: &[u8], client_stream: S) -> (r: Result<Self, Socks4Error>)
        ensures
            r is Ok <==> request_error(input@) is None,
            r is Err ==> r == Err::<Self, Socks4Error>(request_error(input@)->0),
            r matches Ok(s) ==> {
                &&& s.phase == Socks4Phase::ConnectReq
                &&& is_dest_of(s.proxy_addr, input@)
                &&& s.proxy_stream is None
                &&& s.client_stream == client_stream
            },
    {
        if input.len() < SOCKS4_REQUEST_LEN {
            return Err(Socks4Error::TooShort { len: input.len() });
        }
        if input[0] != SOCKS4_VERSION {
            return Err(Socks4Error::UnsupportedVersion { version: input[0] });
        }
        if input[1] != SOCKS4_CONNECT_COMMAND && input[1] != SOCKS4_BIND_COMMAND {
            return Err(Socks4Error::UnsupportedCommand { command: input[1] });
        }
        let port = (input[2] as u16) * 256 + (input[3] as u16);
        let ip: [u8; 4] = [input[4], input[5], input[6], input[7]];
        assert(ip@ =~= input@.subrange(4, 8));
        Ok(Socks4 {
            phase: Socks4Phase::ConnectReq,
            proxy_addr: Socks4Addr { port, ip },
            proxy_stream: None,
            client_stream,
        })
    }

    /// The destination to connect to, available while the request awaits its
    /// connection.
    pub fn connect_target(&self) -> (r: Result<Socks4Addr, Socks4Error>)
        ensures
            self.phase == Socks4Phase::ConnectReq ==> r == Ok::<Socks4Addr, Socks4Error>(
                self.proxy_addr,
            ),
            self.phase != Socks4Phase::ConnectReq ==> r == Err::<Socks4Addr, Socks4Error>(
                Socks4Error::WrongPhase { phase: self.phase },
            ),
    {
        match self.phase {
            Socks4Phase::ConnectReq => Ok(self.proxy_addr),
            _ => Err(Socks4Error::WrongPhase { phase: self.phase }),
        }
    }

    /// Records the open upstream connection and returns the granting reply.
    pub fn connected(&mut self, upstream: S) -> (r: Result<Vec<u8>, Socks4Error>)
        ensures
            old(self).phase == Socks4Phase::ConnectReq ==> {
                &&& r matches Ok(bytes) && bytes@ == reply_bytes(SOCKS4_GRANTED, old(self).proxy_addr)
                &&& final(self).phase == Socks4Phase::ConnectRep
                &&& final(self).proxy_stream == Some(upstream)
                &&& final(self).proxy_addr == old(self).proxy_addr
                &&& final(self).client_stream == old(self).client_stream
            },
            old(self).phase != Socks4Phase::ConnectReq ==> {
                &&& r == Err::<Vec<u8>, Socks4Error>(Socks4Error::WrongPhase { phase: old(self).phase })
                &&& *final(self) == *old(self)
            },
    {
        match self.phase {
            Socks4Phase::ConnectReq => {
                self.proxy_stream = Some(upstream);
                self.phase = Socks4Phase::ConnectRep;
                Ok(reply(SOCKS4_GRANTED, &self.proxy_addr))
            },
            _ => Err(Socks4Error::WrongPhase { phase: self.phase }),
        }
    }

    /// The rejecting reply sent when the upstream connection failed; the
    /// handshake ends there.
    pub fn refused(&self) -> (r: Result<Vec<u8>, Socks4Error>)
        ensures
            self.phase == Socks4Phase::ConnectReq ==> (r matches Ok(bytes) && bytes@ == reply_bytes(
                SOCKS4_REJECTED,
                self.proxy_addr,
            )),
            self.phase != Socks4Phase::ConnectReq ==> r == Err::<Vec<u8>, Socks4Error>(
                Socks4Error::WrongPhase { phase: self.phase },
            ),
    {
        match self.phase {
            Socks4Phase::ConnectReq => Ok(reply(SOCKS4_REJECTED, &self.proxy_addr)),
            _ => Err(Socks4Error::WrongPhase { phase: self.phase }),
        }
    }

    /// Marks the handshake done once the upstream socket is configured.
    pub fn start_proxying(&mut self) -> (r: Result<(), Socks4Error>)
        ensures
            old(self).phase == Socks4Phase::ConnectRep ==> {
                &&& r is Ok
                &&& final(self).phase == Socks4Phase::Proxing
                &&& final(self).proxy_addr == old(self).proxy_addr
                &&& final(self).proxy_stream == old(self).proxy_stream
                &&& final(self).client_stream == old(self).client_stream
            },
            old(self).phase != Socks4Phase::ConnectRep ==> {
                &&& r == Err::<(), Socks4Error>(Socks4Error::WrongPhase { phase: old(self).phase })
                &&& *final(self) == *old(self)
            },
    {
        match self.phase {
            Socks4Phase::ConnectRep => {
                self.phase = Socks4Phase::Proxing;
                Ok(())
            },
            _ => Err(Socks4Error::WrongPhase { phase: self.phase }),
        }
    }
}

} // verus!
