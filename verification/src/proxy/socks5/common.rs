//! The SOCKS5 wire format.
//!
//! Every message has a `read_from`, which reads it from the start of a
//! byte string and says how many bytes it took, and a `write_to`, which
//! appends its bytes to a buffer.

use crate::bytes::{
    append_be, be_bytes, be_value, lemma_be_bytes_len, 
    lemma_be_value_bound, lemma_be_value_of_bytes, lemma_pow256_values, read_be,
};
use crate::error::{Error, ErrorKind};
use crate::net::IpAddr;
use crate::text::{decimal_digits, push_decimal, string_from_utf8};
use vstd::prelude::*;
use vstd::slice::slice_subrange;
use vstd::std_specs::convert::FromSpecImpl;
use vstd::utf8::{decode_utf8, encode_utf8, valid_utf8};

verus! {

pub const SOCKS5_VERSION: u8 = 0x05;

pub const NO_AUTHENTICATION: u8 = 0x00;

pub const USERNAME_PASSWORD: u8 = 0x02;

pub const ADDR_TYPE_IPV4: u8 = 0x01;

pub const ADDR_TYPE_DOMAIN: u8 = 0x03;

pub const ADDR_TYPE_IPV6: u8 = 0x04;

pub const CMD_CONNECT: u8 = 0x01;

pub const CMD_BIND: u8 = 0x02;

pub const CMD_UDP_ASSOCIATE: u8 = 0x03;

pub const REP_SUCCEEDED: u8 = 0;

pub const REP_GENERAL_SOCKS_SERVER_FAILURE: u8 = 1;

pub const REP_CONNECTION_NOT_ALLOWED: u8 = 2;

pub const REP_NETWORK_UNRECHABLE: u8 = 3;

pub const REP_HOST_UNRECHABLE: u8 = 4;

pub const REP_CONNECTION_REFUSED: u8 = 5;

pub const REP_TTL_EXPIRED: u8 = 6;

pub const REP_COMMAND_NOT_SUPPORTED: u8 = 7;

pub const REP_ADDRESS_TYPE_NOT_SUPPORTED: u8 = 8;

/// The method-selection greeting of a client.
#[derive(Debug, Clone, Copy, PartialEq, Eq, Structural)]
pub struct Socks5Greeting {
    pub version: u8,
    /// Whether the client offers the user name and password method.
    pub user_pass: bool,
    /// Whether the client offers the method without authentication.
    pub no_auth: bool,
}

/// The method that the server selected.
#[derive(Debug, Clone, Copy, PartialEq, Eq, Structural)]
pub struct Socks5MethodSelection {
    pub version: u8,
    pub method: u8,
}

/// An address on the wire.
#[derive(Debug, Clone)]
pub enum Socks5Address {
    /// An IPv4 address, as the number that its four octets spell.
    V4(u32),
    Domain(String),
    /// An IPv6 address, as the number that its sixteen octets spell.
    V6(u128),
}

/// Mathematical content of a [`Socks5Address`].
pub enum Socks5AddressView {
    V4(u32),
    Domain(Seq<char>),
    V6(u128),
}

impl View for Socks5Address {
    type V = Socks5AddressView;

    open spec fn view(&self) -> Socks5AddressView {
        match *self {
            Socks5Address::V4(a) => Socks5AddressView::V4(a),
            Socks5Address::Domain(d) => Socks5AddressView::Domain(d@),
            Socks5Address::V6(a) => Socks5AddressView::V6(a),
        }
    }
}

/// A request of a client.
#[derive(Debug, Clone)]
pub struct Socks5Request {
    pub version: u8,
    pub cmd: u8,
    pub rsv: u8,
    pub dst_addr: Socks5Address,
    pub dst_port: u16,
}

/// The reply of a server to a request.
#[derive(Debug, Clone)]
pub struct Socks5Response {
    pub version: u8,
    pub reply: u8,
    pub rsv: u8,
    pub bnd_addr: Socks5Address,
    pub bnd_port: u16,
}

/// The error of a message that is cut short.
pub fn unexpected_eof() -> (e: Error)
    ensures
        e.kind == ErrorKind::UnexpectedEof,
        e.message@ == "failed to fill whole buffer"@,
{
    Error::new(ErrorKind::UnexpectedEof, "failed to fill whole buffer")
}

/// The error of an address type that is not known.
pub fn unsupported_address_type(addr_type: u8) -> (e: Error)
    ensures
        e.kind == ErrorKind::InvalidData,
        e.message@ == "Unsupported address type: "@ + decimal_digits(addr_type as nat),
{
    let mut e = Error::new(ErrorKind::InvalidData, "Unsupported address type: ");
    push_decimal(&mut e.message, addr_type as u16);
    e
}

/// A buffer after `data` was read into its start.
pub open spec fn filled(buffer: Seq<u8>, data: Seq<u8>) -> Seq<u8> {
    data + buffer.subrange(data.len() as int, buffer.len() as int)
}

/// Reads `data` into the start of `buffer`.
pub fn fill(buffer: &mut Vec<u8>, data: &[u8])
    requires
        data@.len() <= old(buffer)@.len(),
    ensures
        final(buffer)@ == filled(old(buffer)@, data@),
{
    let mut i: usize = 0;
    while i < data.len()
        invariant
            i <= data@.len(),
            data@.len() <= buffer@.len(),
            buffer@.len() == old(buffer)@.len(),
            forall|k: int| 0 <= k < i ==> buffer@[k] == data@[k],
            forall|k: int| i <= k < buffer@.len() ==> buffer@[k] == old(buffer)@[k],
        decreases data@.len() - i,
    {
        buffer.set(i, data[i]);
        i += 1;
    }
    assert(buffer@ =~= filled(old(buffer)@, data@));
}

/// The greeting that stands at the start of `input`, read through a
/// scratch buffer with room for `room` bytes, and the count of bytes that
/// it takes; the kind of error if there is none.
pub open spec fn spec_read_greeting(input: Seq<u8>, room: nat) -> Result<
    (Socks5Greeting, nat),
    ErrorKind,
> {
    if input.len() < 2 {
        Err(ErrorKind::UnexpectedEof)
    } else if input[1] > room {
        Err(ErrorKind::OutOfMemory)
    } else if input.len() < 2 + input[1] {
        Err(ErrorKind::UnexpectedEof)
    } else {
        let methods = input.subrange(2, 2 + input[1]);
        Ok(
            (
                Socks5Greeting {
                    version: input[0],
                    user_pass: methods.contains(USERNAME_PASSWORD),
                    no_auth: methods.contains(NO_AUTHENTICATION),
                },
                (2 + input[1]) as nat,
            ),
        )
    }
}

/// The scratch buffer after a greeting was read from `input` through it.
pub open spec fn scratch_after_greeting(input: Seq<u8>, buffer: Seq<u8>) -> Seq<u8> {
    if input.len() < 2 {
        buffer
    } else if input[1] > buffer.len() || input.len() < 2 + input[1] {
        filled(buffer, input.subrange(0, 2))
    } else {
        filled(filled(buffer, input.subrange(0, 2)), input.subrange(2, 2 + input[1]))
    }
}

impl Socks5Greeting {
    /// The methods that the greeting lists.
    pub open spec fn methods(&self) -> Seq<u8> {
        if self.user_pass && self.no_auth {
            seq![USERNAME_PASSWORD, NO_AUTHENTICATION]
        } else if self.user_pass {
            seq![USERNAME_PASSWORD]
        } else if self.no_auth {
            seq![NO_AUTHENTICATION]
        } else {
            Seq::empty()
        }
    }

    /// The bytes of the greeting: version, count of methods, methods.
    pub open spec fn wire(&self) -> Seq<u8> {
        seq![self.version, self.methods().len() as u8] + self.methods()
    }

    /// Reads a greeting from the start of `input` through the scratch
    /// buffer `buffer`: version and count of methods, then that many
    /// methods. The greeting offers a method if it lists it. Says how many
    /// bytes the greeting took.
    ///
    /// Input that holds less than the greeting is the error
    /// `UnexpectedEof`; a greeting that lists more methods than the buffer
    /// has room for is the error `OutOfMemory`. What was read stands at the
    /// start of the buffer: the methods over the first two bytes, or the
    /// first two bytes alone where the methods were not read.
    pub fn read_from(input: &[u8], buffer: &mut Vec<u8>) -> (r: Result<
        (Socks5Greeting, usize),
        Error,
    >)
        requires
            old(buffer)@.len() >= 2,
        ensures
            spec_read_greeting(input@, old(buffer)@.len()) == match r {
                Ok((g, used)) => Ok::<(Socks5Greeting, nat), ErrorKind>((g, used as nat)),
                Err(e) => Err::<(Socks5Greeting, nat), ErrorKind>(e.kind),
            },
            final(buffer)@ == scratch_after_greeting(input@, old(buffer)@),
    {
        if input.len() < 2 {
            return Err(unexpected_eof());
        }
        fill(buffer, slice_subrange(input, 0, 2));
        let version = input[0];
        let n_methods: usize = input[1] as usize;
        if n_methods > buffer.len() {
            return Err(Error::new(ErrorKind::OutOfMemory, "Not enought buffer for methods"));
        }
        if input.len() - 2 < n_methods {
            return Err(unexpected_eof());
        }
        fill(buffer, slice_subrange(input, 2, 2 + n_methods));
        let mut user_pass = false;
        let mut no_auth = false;
        let ghost methods = input@.subrange(2, 2 + n_methods);
        let mut i: usize = 0;
        while i < n_methods
            invariant
                i <= n_methods,
                n_methods < 256,
                2 + n_methods <= input@.len(),
                methods == input@.subrange(2, 2 + n_methods),
                no_auth == methods.subrange(0, i as int).contains(NO_AUTHENTICATION),
                user_pass == methods.subrange(0, i as int).contains(USERNAME_PASSWORD),
            decreases n_methods - i,
        {
            let mthd = input[2 + i];
            proof {
                let cur = methods.subrange(0, i as int);
                let next = methods.subrange(0, i as int + 1);
                assert(next =~= cur.push(mthd));
                assert forall|b: u8| next.contains(b) == (cur.contains(b) || b == mthd) by {
                    if cur.contains(b) {
                        let k = choose|k: int| 0 <= k < cur.len() && cur[k] == b;
                        assert(next[k] == b);
                    }
                    if b == mthd {
                        assert(next[i as int] == b);
                    }
                }
            }
            if mthd == NO_AUTHENTICATION {
                no_auth = true;
            } else if mthd == USERNAME_PASSWORD {
                user_pass = true;
            }
            i += 1;
        }
        assert(methods.subrange(0, n_methods as int) =~= methods);
        Ok((Socks5Greeting { version, user_pass, no_auth }, 2 + n_methods))
    }

    /// Appends the bytes of the greeting to `writer`.
    pub fn write_to(&self, writer: &mut Vec<u8>)
        ensures
            final(writer)@ == old(writer)@ + self.wire(),
    {
        writer.push(self.version);
        let n_methods: u8 = if self.user_pass && self.no_auth {
            2
        } else if self.user_pass || self.no_auth {
            1
        } else {
            0
        };
        writer.push(n_methods);
        if self.user_pass {
            writer.push(USERNAME_PASSWORD);
        }
        if self.no_auth {
            writer.push(NO_AUTHENTICATION);
        }
        assert(writer@ =~= old(writer)@ + self.wire());
    }
}

impl Socks5MethodSelection {
    /// The bytes of the selection: version, method.
    pub open spec fn wire(&self) -> Seq<u8> {
        seq![self.version, self.method]
    }

    /// Reads a method selection from the start of `input`; it takes two
    /// bytes. Input that holds less is the error `UnexpectedEof`.
    pub fn read_from(input: &[u8]) -> (r: Result<Socks5MethodSelection, Error>)
        ensures
            match r {
                Ok(m) => input@.len() >= 2 && m.version == input@[0] && m.method == input@[1],
                Err(e) => e.kind == ErrorKind::UnexpectedEof && input@.len() < 2,
            },
    {
        if input.len() < 2 {
            return Err(unexpected_eof());
        }
        Ok(Socks5MethodSelection { version: input[0], method: input[1] })
    }

    /// Appends the bytes of the selection to `writer`.
    pub fn write_to(&self, writer: &mut Vec<u8>)
        ensures
            final(writer)@ == old(writer)@ + self.wire(),
    {
        writer.push(self.version);
        writer.push(self.method);
        assert(writer@ =~= old(writer)@ + self.wire());
    }
}

impl Socks5AddressView {
    /// The type byte of the address.
    pub open spec fn addr_type(self) -> u8 {
        match self {
            Socks5AddressView::V4(_) => ADDR_TYPE_IPV4,
            Socks5AddressView::Domain(_) => ADDR_TYPE_DOMAIN,
            Socks5AddressView::V6(_) => ADDR_TYPE_IPV6,
        }
    }

    /// The bytes of the address behind its type byte: the octets of an IP
    /// address, or the length of a domain in one byte and then its bytes.
    pub open spec fn body(self) -> Seq<u8> {
        match self {
            Socks5AddressView::V4(a) => be_bytes(a as nat, 4),
            Socks5AddressView::Domain(d) => seq![encode_utf8(d).len() as u8] + encode_utf8(d),
            Socks5AddressView::V6(a) => be_bytes(a as nat, 16),
        }
    }

    /// Whether the address can be written: a domain of at most 255 bytes.
    pub open spec fn fits(self) -> bool {
        self matches Socks5AddressView::Domain(d) ==> encode_utf8(d).len() <= 255
    }

    /// The bytes of the address: type byte, then body.
    pub open spec fn wire(self) -> Seq<u8> {
        seq![self.addr_type()] + self.body()
    }
}

/// The address that stands at the start of `input` with the type
/// `addr_type`, and the count of bytes that it takes; the kind of error if
/// there is none.
pub open spec fn spec_read_address(input: Seq<u8>, addr_type: u8) -> Result<
    (Socks5AddressView, nat),
    ErrorKind,
> {
    if addr_type == ADDR_TYPE_IPV4 {
        if input.len() < 4 {
            Err(ErrorKind::UnexpectedEof)
        } else {
            Ok((Socks5AddressView::V4(be_value(input.subrange(0, 4)) as u32), 4))
        }
    } else if addr_type == ADDR_TYPE_DOMAIN {
        if input.len() < 1 || input.len() < 1 + input[0] {
            Err(ErrorKind::UnexpectedEof)
        } else if !valid_utf8(input.subrange(1, 1 + input[0])) {
            Err(ErrorKind::InvalidData)
        } else {
            Ok(
                (
                    Socks5AddressView::Domain(decode_utf8(input.subrange(1, 1 + input[0]))),
                    (1 + input[0]) as nat,
                ),
            )
        }
    } else if addr_type == ADDR_TYPE_IPV6 {
        if input.len() < 16 {
            Err(ErrorKind::UnexpectedEof)
        } else {
            Ok((Socks5AddressView::V6(be_value(input.subrange(0, 16)) as u128), 16))
        }
    } else {
        Err(ErrorKind::InvalidData)
    }
}

impl Socks5Address {
    /// Reads the body of an address of type `addr_type` from the start of
    /// `input` and says how many bytes it took. Input that holds less than
    /// the address is the error `UnexpectedEof`; a domain that is not
    /// UTF-8 and an unknown address type are the error `InvalidData`.
    pub fn read_from(input: &[u8], addr_type: u8) -> (r: Result<(Socks5Address, usize), Error>)
        ensures
            match r {
                Ok((a, used)) => spec_read_address(input@, addr_type) == Ok::<
                    (Socks5AddressView, nat),
                    ErrorKind,
                >((a@, used as nat)) && used <= input@.len(),
                Err(e) => spec_read_address(input@, addr_type) == Err::<
                    (Socks5AddressView, nat),
                    ErrorKind,
                >(e.kind),
            },
    {
        if addr_type == ADDR_TYPE_IPV4 {
            if input.len() < 4 {
                return Err(unexpected_eof());
            }
            let bits = read_be(input, 0, 4);
            proof {
                lemma_be_value_bound(input@.subrange(0, 4));
                lemma_pow256_values();
            }
            Ok((Socks5Address::V4(bits as u32), 4))
        } else if addr_type == ADDR_TYPE_DOMAIN {
            if input.len() < 1 {
                return Err(unexpected_eof());
            }
            let len: usize = input[0] as usize;
            if input.len() - 1 < len {
                return Err(unexpected_eof());
            }
            match string_from_utf8(slice_subrange(input, 1, 1 + len)) {
                Some(domain) => Ok((Socks5Address::Domain(domain), 1 + len)),
                None => Err(Error::new(ErrorKind::InvalidData, "Invalid domain")),
            }
        } else if addr_type == ADDR_TYPE_IPV6 {
            if input.len() < 16 {
                return Err(unexpected_eof());
            }
            let bits = read_be(input, 0, 16);
            Ok((Socks5Address::V6(bits), 16))
        } else {
            Err(unsupported_address_type(addr_type))
        }
    }

    /// Appends the bytes of the address to `writer`: its type byte, then
    /// the octets of an IP address or the length of a domain in one byte
    /// and its bytes. A domain of more than 255 bytes cannot be written: it
    /// is the error `InvalidInput`, and nothing is appended.
    pub fn write_to(&self, writer: &mut Vec<u8>) -> (r: Result<(), Error>)
        ensures
            match r {
                Ok(_) => self@.fits() && final(writer)@ == old(writer)@ + self@.wire(),
                Err(e) => !self@.fits() && e.kind == ErrorKind::InvalidInput && final(writer)@
                    == old(writer)@,
            },
    {
        match self {
            Socks5Address::V4(addr) => {
                writer.push(ADDR_TYPE_IPV4);
                append_be(writer, *addr as u128, 4);
                assert(writer@ =~= old(writer)@ + self@.wire());
                Ok(())
            },
            Socks5Address::Domain(domain) => {
                let domain_bytes = domain.as_str().as_bytes();
                if domain_bytes.len() > 255 {
                    return Err(Error::new(ErrorKind::InvalidInput, "Domain too long"));
                }
                writer.push(ADDR_TYPE_DOMAIN);
                writer.push(domain_bytes.len() as u8);
                writer.extend_from_slice(domain_bytes);
                assert(writer@ =~= old(writer)@ + self@.wire());
                Ok(())
            },
            Socks5Address::V6(addr) => {
                writer.push(ADDR_TYPE_IPV6);
                append_be(writer, *addr, 16);
                assert(writer@ =~= old(writer)@ + self@.wire());
                Ok(())
            },
        }
    }

    /// The type byte of the address.
    pub fn addr_type(&self) -> (t: u8)
        ensures
            t == self@.addr_type(),
    {
        match self {
            Socks5Address::V4(_) => ADDR_TYPE_IPV4,
            Socks5Address::Domain(_) => ADDR_TYPE_DOMAIN,
            Socks5Address::V6(_) => ADDR_TYPE_IPV6,
        }
    }

    /// The IP address; `0.0.0.0` for a domain.
    pub fn to_ip_addr(&self) -> (ip: IpAddr)
        ensures
            ip == match self@ {
                Socks5AddressView::V4(a) => IpAddr::V4(a),
                Socks5AddressView::Domain(_) => IpAddr::V4(0),
                Socks5AddressView::V6(a) => IpAddr::V6(a),
            },
    {
        match self {
            Socks5Address::V4(v) => IpAddr::V4(*v),
            Socks5Address::Domain(_) => IpAddr::V4(0),
            Socks5Address::V6(v) => IpAddr::V6(*v),
        }
    }
}

impl From<IpAddr> for Socks5Address {
    fn from(value: IpAddr) -> (a: Socks5Address) {
        match value {
            IpAddr::V4(ipv4_addr) => Socks5Address::V4(ipv4_addr),
            IpAddr::V6(ipv6_addr) => Socks5Address::V6(ipv6_addr),
        }
    }
}

impl FromSpecImpl<IpAddr> for Socks5Address {
    open spec fn obeys_from_spec() -> bool {
        true
    }

    open spec fn from_spec(value: IpAddr) -> Socks5Address {
        match value {
            IpAddr::V4(ipv4_addr) => Socks5Address::V4(ipv4_addr),
            IpAddr::V6(ipv6_addr) => Socks5Address::V6(ipv6_addr),
        }
    }
}

/// The bytes of a request or of a reply: version, command or reply code,
/// reserved byte, address, port.
pub open spec fn message_wire(
    version: u8,
    code: u8,
    rsv: u8,
    addr: Socks5AddressView,
    port: u16,
) -> Seq<u8> {
    seq![version, code, rsv] + addr.wire() + be_bytes(port as nat, 2)
}

/// What stands at the start of `input` as a request or a reply: version,
/// command or reply code, reserved byte, address, port and the count of
/// bytes taken; the kind of error if there is none.
pub open spec fn spec_read_message(input: Seq<u8>) -> Result<
    (u8, u8, u8, Socks5AddressView, u16, nat),
    ErrorKind,
> {
    if input.len() < 4 {
        Err(ErrorKind::UnexpectedEof)
    } else {
        match spec_read_address(input.subrange(4, input.len() as int), input[3]) {
            Err(k) => Err(k),
            Ok((addr, used)) => if input.len() < 4 + used + 2 {
                Err(ErrorKind::UnexpectedEof)
            } else {
                Ok(
                    (
                        input[0],
                        input[1],
                        input[2],
                        addr,
                        be_value(input.subrange(4 + used as int, 4 + used as int + 2)) as u16,
                        4 + used + 2,
                    ),
                )
            },
        }
    }
}

/// Reads what a request and a reply have in common.
fn read_message(input: &[u8]) -> (r: Result<(u8, u8, u8, Socks5Address, u16, usize), Error>)
    ensures
        match r {
            Ok((v, c, rsv, a, p, used)) => spec_read_message(input@) == Ok::<
                (u8, u8, u8, Socks5AddressView, u16, nat),
                ErrorKind,
            >((v, c, rsv, a@, p, used as nat)) && used <= input@.len(),
            Err(e) => spec_read_message(input@) == Err::<
                (u8, u8, u8, Socks5AddressView, u16, nat),
                ErrorKind,
            >(e.kind),
        },
{
    let len: usize = input.len();
    if len < 4 {
        return Err(unexpected_eof());
    }
    let version = input[0];
    let code = input[1];
    let rsv = input[2];
    let addr_type = input[3];
    let (addr, used) = Socks5Address::read_from(slice_subrange(input, 4, len), addr_type)?;
    if len - 4 - used < 2 {
        return Err(unexpected_eof());
    }
    let port = read_be(input, 4 + used, 2);
    proof {
        lemma_be_value_bound(input@.subrange(4 + used, 4 + used + 2));
        lemma_pow256_values();
    }
    Ok((version, code, rsv, addr, port as u16, 4 + used + 2))
}

/// The count of bytes of the request or reply that starts with `head`, if
/// `head` holds enough of it to tell: its first five bytes, of which the
/// fourth is a known address type.
pub open spec fn spec_frame_len(head: Seq<u8>) -> Option<usize> {
    if head.len() < 5 {
        None
    } else if head[3] == ADDR_TYPE_IPV4 {
        Some(10usize)
    } else if head[3] == ADDR_TYPE_IPV6 {
        Some(22usize)
    } else if head[3] == ADDR_TYPE_DOMAIN {
        Some((7 + head[4]) as usize)
    } else {
        None
    }
}

/// The count of bytes of the request or reply that starts with `head`, if
/// `head` holds enough of it to tell.
pub fn frame_len(head: &[u8]) -> (len: Option<usize>)
    ensures
        len == spec_frame_len(head@),
{
    if head.len() < 5 {
        return None;
    }
    let addr_type = head[3];
    if addr_type == ADDR_TYPE_IPV4 {
        Some(10)
    } else if addr_type == ADDR_TYPE_IPV6 {
        Some(22)
    } else if addr_type == ADDR_TYPE_DOMAIN {
        Some(7 + head[4] as usize)
    } else {
        None
    }
}

impl Socks5Request {
    /// The bytes of the request.
    pub open spec fn wire(&self) -> Seq<u8> {
        message_wire(self.version, self.cmd, self.rsv, self.dst_addr@, self.dst_port)
    }

    /// Reads a request from the start of `input`: version, command,
    /// reserved byte, address type, address, port. Says how many bytes the
    /// request took. Errors are those of [`Socks5Address::read_from`], and
    /// `UnexpectedEof` for input that holds less than the request.
    pub fn read_from(input: &[u8]) -> (r: Result<(Socks5Request, usize), Error>)
        ensures
            match r {
                Ok((q, used)) => spec_read_message(input@) == Ok::<
                    (u8, u8, u8, Socks5AddressView, u16, nat),
                    ErrorKind,
                >((q.version, q.cmd, q.rsv, q.dst_addr@, q.dst_port, used as nat)) && used
                    <= input@.len(),
                Err(e) => spec_read_message(input@) == Err::<
                    (u8, u8, u8, Socks5AddressView, u16, nat),
                    ErrorKind,
                >(e.kind),
            },
    {
        let (version, cmd, rsv, dst_addr, dst_port, used) = read_message(input)?;
        Ok((Socks5Request { version, cmd, rsv, dst_addr, dst_port }, used))
    }

    /// Appends the bytes of the request to `writer`. A request for a
    /// domain of more than 255 bytes cannot be written: it is the error
    /// `InvalidInput`, and nothing is appended.
    pub fn write_to(&self, writer: &mut Vec<u8>) -> (r: Result<(), Error>)
        ensures
            match r {
                Ok(_) => self.dst_addr@.fits() && final(writer)@ == old(writer)@ + self.wire(),
                Err(e) => !self.dst_addr@.fits() && e.kind == ErrorKind::InvalidInput && final(writer)@ == old(writer)@,
            },
    {
        let mut out: Vec<u8> = Vec::new();
        out.push(self.version);
        out.push(self.cmd);
        out.push(self.rsv);
        self.dst_addr.write_to(&mut out)?;
        append_be(&mut out, self.dst_port as u128, 2);
        assert(out@ =~= self.wire());
        writer.append(&mut out);
        Ok(())
    }
}

impl Socks5Response {
    /// The bytes of the reply.
    pub open spec fn wire(&self) -> Seq<u8> {
        message_wire(self.version, self.reply, self.rsv, self.bnd_addr@, self.bnd_port)
    }

    /// Reads a reply from the start of `input`: version, reply code,
    /// reserved byte, address type, address, port. Says how many bytes the
    /// reply took. Errors are those of [`Socks5Address::read_from`], and
    /// `UnexpectedEof` for input that holds less than the reply.
    pub fn read_from(input: &[u8]) -> (r: Result<(Socks5Response, usize), Error>)
        ensures
            match r {
                Ok((s, used)) => spec_read_message(input@) == Ok::<
                    (u8, u8, u8, Socks5AddressView, u16, nat),
                    ErrorKind,
                >((s.version, s.reply, s.rsv, s.bnd_addr@, s.bnd_port, used as nat)) && used
                    <= input@.len(),
                Err(e) => spec_read_message(input@) == Err::<
                    (u8, u8, u8, Socks5AddressView, u16, nat),
                    ErrorKind,
                >(e.kind),
            },
    {
        let (version, reply, rsv, bnd_addr, bnd_port, used) = read_message(input)?;
        Ok((Socks5Response { version, reply, rsv, bnd_addr, bnd_port }, used))
    }

    /// Appends the bytes of the reply to `writer`. A reply with a domain
    /// of more than 255 bytes cannot be written: it is the error
    /// `InvalidInput`, and nothing is appended.
    pub fn write_to(&self, writer: &mut Vec<u8>) -> (r: Result<(), Error>)
        ensures
            match r {
                Ok(_) => self.bnd_addr@.fits() && final(writer)@ == old(writer)@ + self.wire(),
                Err(e) => !self.bnd_addr@.fits() && e.kind == ErrorKind::InvalidInput && final(writer)@ == old(writer)@,
            },
    {
        let mut out: Vec<u8> = Vec::new();
        out.push(self.version);
        out.push(self.reply);
        out.push(self.rsv);
        self.bnd_addr.write_to(&mut out)?;
        append_be(&mut out, self.bnd_port as u128, 2);
        assert(out@ =~= self.wire());
        writer.append(&mut out);
        Ok(())
    }
}

/// What is written can be read: an address that fits is read back from
/// its bytes, whatever follows them, and takes exactly its own bytes.
pub proof fn lemma_address_round_trip(addr: Socks5AddressView, rest: Seq<u8>)
    requires
        addr.fits(),
    ensures
        spec_read_address(addr.body() + rest, addr.addr_type()) == Ok::<
            (Socks5AddressView, nat),
            ErrorKind,
        >((addr, addr.body().len())),
{
    let input = addr.body() + rest;
    lemma_pow256_values();
    match addr {
        Socks5AddressView::V4(a) => {
            lemma_be_bytes_len(a as nat, 4);
            lemma_be_value_of_bytes(a as nat, 4);
            assert(input.subrange(0, 4) =~= be_bytes(a as nat, 4));
        },
        Socks5AddressView::Domain(d) => {
            let bytes = encode_utf8(d);
            assert(input[0] == bytes.len() as u8);
            assert(input.subrange(1, 1 + input[0]) =~= bytes);
            vstd::utf8::encode_utf8_valid_utf8(d);
            vstd::utf8::encode_utf8_decode_utf8(d);
        },
        Socks5AddressView::V6(a) => {
            lemma_be_bytes_len(a as nat, 16);
            lemma_be_value_of_bytes(a as nat, 16);
            assert(input.subrange(0, 16) =~= be_bytes(a as nat, 16));
        },
    }
}

/// What is written can be read: a request or a reply whose address fits is
/// read back from its bytes, whatever follows them, and takes exactly its
/// own bytes.
pub proof fn lemma_message_round_trip(
    version: u8,
    code: u8,
    rsv: u8,
    addr: Socks5AddressView,
    port: u16,
    rest: Seq<u8>,
)
    requires
        addr.fits(),
    ensures
        spec_read_message(message_wire(version, code, rsv, addr, port) + rest) == Ok::<
            (u8, u8, u8, Socks5AddressView, u16, nat),
            ErrorKind,
        >((version, code, rsv, addr, port, message_wire(version, code, rsv, addr, port).len())),
{
    let wire = message_wire(version, code, rsv, addr, port);
    let input = wire + rest;
    let port_bytes = be_bytes(port as nat, 2);
    let tail = port_bytes + rest;
    lemma_pow256_values();
    lemma_be_bytes_len(port as nat, 2);
    lemma_be_value_of_bytes(port as nat, 2);
    lemma_address_round_trip(addr, tail);
    let used = addr.body().len();
    assert(input[3] == addr.addr_type());
    assert(input.subrange(4, input.len() as int) =~= addr.body() + tail);
    assert(input.subrange(4 + used as int, 4 + used as int + 2) =~= port_bytes);
}

} // verus!
