//! The client side of a SOCKS5 CONNECT handshake.
//!
//! The client neither reads nor writes: it hands out the bytes to send to
//! the upstream and takes the bytes that the upstream replied.

use crate::error::{Error, ErrorKind, ErrorView};
use crate::net::{IpAddr, SocketAddr};
use crate::proxy::conn::common::zeroed;
use crate::proxy::socks5::common::{
    frame_len, message_wire, spec_frame_len, spec_read_message, Socks5Address, Socks5AddressView, Socks5Greeting,
    Socks5MethodSelection, Socks5Request, Socks5Response, CMD_CONNECT, NO_AUTHENTICATION,
    REP_ADDRESS_TYPE_NOT_SUPPORTED, REP_COMMAND_NOT_SUPPORTED, REP_CONNECTION_NOT_ALLOWED,
    REP_CONNECTION_REFUSED, REP_GENERAL_SOCKS_SERVER_FAILURE, REP_HOST_UNRECHABLE,
    REP_NETWORK_UNRECHABLE, REP_SUCCEEDED, REP_TTL_EXPIRED, SOCKS5_VERSION,
};
use vstd::prelude::*;

verus! {

/// A SOCKS5 client that asks its upstream for a tunnel to `dst`.
pub struct Socks5Client {
    pub dst: SocketAddr,
    /// Scratch space for the replies of the upstream.
    pub buffer: Vec<u8>,
}

/// The address of `ip` on the wire.
pub open spec fn wire_address(ip: IpAddr) -> Socks5AddressView {
    match ip {
        IpAddr::V4(a) => Socks5AddressView::V4(a),
        IpAddr::V6(a) => Socks5AddressView::V6(a),
    }
}

/// The error that a reply code stands for; none for success. A code that
/// is not known counts as a general failure.
pub open spec fn reply_error(reply: u8) -> Option<ErrorView> {
    if reply == REP_SUCCEEDED {
        None
    } else if reply == REP_CONNECTION_NOT_ALLOWED {
        Some(ErrorView { kind: ErrorKind::ConnectionRefused, message: "Connection not allowed"@ })
    } else if reply == REP_NETWORK_UNRECHABLE {
        Some(ErrorView { kind: ErrorKind::NotConnected, message: "Network unrechable"@ })
    } else if reply == REP_HOST_UNRECHABLE {
        Some(ErrorView { kind: ErrorKind::NotConnected, message: "Host unrechable"@ })
    } else if reply == REP_CONNECTION_REFUSED {
        Some(ErrorView { kind: ErrorKind::ConnectionRefused, message: "Connection refused"@ })
    } else if reply == REP_TTL_EXPIRED {
        Some(ErrorView { kind: ErrorKind::NotConnected, message: "TTL Expired"@ })
    } else if reply == REP_COMMAND_NOT_SUPPORTED {
        Some(ErrorView { kind: ErrorKind::Unsupported, message: "Command not supported"@ })
    } else if reply == REP_ADDRESS_TYPE_NOT_SUPPORTED {
        Some(ErrorView { kind: ErrorKind::InvalidInput, message: "Address type not supported"@ })
    } else {
        Some(ErrorView { kind: ErrorKind::Interrupted, message: "General server failure"@ })
    }
}

impl Socks5Client {
    /// A client that will ask for a tunnel to `dst`.
    pub fn connect(dst: SocketAddr) -> (c: Socks5Client)
        ensures
            c.dst == dst,
            c.buffer@.len() == 4096,
    {
        Socks5Client { buffer: zeroed(4096), dst }
    }

    /// Whether the scratch buffer has room for a reply of `len` bytes: the
    /// length itself if it has, else the error `OutOfMemory`.
    pub fn room_for(&self, len: usize) -> (r: Result<usize, Error>)
        ensures
            match r {
                Ok(n) => n == len && len <= self.buffer@.len(),
                Err(e) => len > self.buffer@.len() && e.kind == ErrorKind::OutOfMemory,
            },
    {
        if len > self.buffer.len() {
            return Err(Error::new(ErrorKind::OutOfMemory, "Not enought buffer for the reply"));
        }
        Ok(len)
    }

    /// The count of bytes to read of the reply that starts with `head`:
    /// the length of the whole reply where `head` tells it, else no more
    /// than `head`, so that reading the reply reports what is wrong with
    /// it.
    pub fn reply_len(head: &[u8]) -> (len: usize)
        ensures
            len == match spec_frame_len(head@) {
                Some(n) => n as nat,
                None => head@.len(),
            },
    {
        match frame_len(head) {
            Some(n) => n,
            None => head.len(),
        }
    }

    /// The greeting to send: version 5, offering the method without
    /// authentication and no other.
    pub fn greet(&self) -> (out: Vec<u8>)
        ensures
            out@ == seq![SOCKS5_VERSION, 1u8, NO_AUTHENTICATION],
    {
        let hello = Socks5Greeting { no_auth: true, user_pass: false, version: SOCKS5_VERSION };
        let mut out: Vec<u8> = Vec::new();
        hello.write_to(&mut out);
        assert(out@ =~= seq![SOCKS5_VERSION, 1u8, NO_AUTHENTICATION]);
        out
    }

    /// Takes the reply to the greeting: the method that the upstream
    /// selected, whichever it is.
    pub fn greet_reply(&self, reply: &[u8]) -> (r: Result<Socks5MethodSelection, Error>)
        ensures
            match r {
                Ok(m) => reply@.len() >= 2 && m.version == reply@[0] && m.method == reply@[1],
                Err(e) => e.kind == ErrorKind::UnexpectedEof && reply@.len() < 2,
            },
    {
        Socks5MethodSelection::read_from(reply)
    }

    /// The request to send: a CONNECT to the destination.
    pub fn tcp_proxy(&self) -> (out: Vec<u8>)
        ensures
            out@ == message_wire(
                SOCKS5_VERSION,
                CMD_CONNECT,
                0,
                wire_address(self.dst.ip),
                self.dst.port,
            ),
    {
        let req = Socks5Request {
            version: SOCKS5_VERSION,
            cmd: CMD_CONNECT,
            rsv: 0x0,
            dst_addr: Socks5Address::from(self.dst.ip),
            dst_port: self.dst.port,
        };
        let mut out: Vec<u8> = Vec::new();
        match req.write_to(&mut out) {
            Ok(_) => {},
            Err(_) => {},
        }
        out
    }

    /// Takes the reply to the request. The tunnel stands if the reply can
    /// be read and its code says success; else the error is that of
    /// reading the reply or the one that the code stands for.
    pub fn tcp_proxy_reply(&self, reply: &[u8]) -> (r: Result<(), Error>)
        ensures
            match spec_read_message(reply@) {
                Ok(m) => match reply_error(m.1) {
                    None => r is Ok,
                    Some(e) => r is Err && r->Err_0@ == e,
                },
                Err(k) => r is Err && r->Err_0.kind == k,
            },
    {
        let (res, _) = Socks5Response::read_from(reply)?;
        Self::raise_response(&res)
    }

    /// Turns the code of a reply into the outcome of the request.
    pub fn raise_response(res: &Socks5Response) -> (r: Result<(), Error>)
        ensures
            match r {
                Ok(_) => reply_error(res.reply) is None,
                Err(e) => reply_error(res.reply) == Some(e@),
            },
    {
        let reply = res.reply;
        Err(
            if reply == REP_SUCCEEDED {
                return Ok(());
            } else if reply == REP_GENERAL_SOCKS_SERVER_FAILURE {
                Error::new(ErrorKind::Interrupted, "General server failure")
            } else if reply == REP_CONNECTION_NOT_ALLOWED {
                Error::new(ErrorKind::ConnectionRefused, "Connection not allowed")
            } else if reply == REP_NETWORK_UNRECHABLE {
                Error::new(ErrorKind::NotConnected, "Network unrechable")
            } else if reply == REP_HOST_UNRECHABLE {
                Error::new(ErrorKind::NotConnected, "Host unrechable")
            } else if reply == REP_CONNECTION_REFUSED {
                Error::new(ErrorKind::ConnectionRefused, "Connection refused")
            } else if reply == REP_TTL_EXPIRED {
                Error::new(ErrorKind::NotConnected, "TTL Expired")
            } else if reply == REP_COMMAND_NOT_SUPPORTED {
                Error::new(ErrorKind::Unsupported, "Command not supported")
            } else if reply == REP_ADDRESS_TYPE_NOT_SUPPORTED {
                Error::new(ErrorKind::InvalidInput, "Address type not supported")
            } else {
                Error::new(ErrorKind::Interrupted, "General server failure")
            },
        )
    }
}

} // verus!
