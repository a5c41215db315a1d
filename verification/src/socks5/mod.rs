//! SOCKS5 messages (RFC 1928): the request, and the reply of a server.
pub mod client;
pub mod server;

use vstd::prelude::*;
use crate::addresses::{
    address_bytes, address_encodable, address_encoded_len, address_fits, address_from, address_result_view,
    binding_from, lemma_address_from_len, lemma_binding_roundtrip, read_address, read_binding,
    Address, AddressView,
};
use crate::constants::{SOCKS_ATYP_IPV4, SOCKS_CMD_CONNECT, SOCKS_REP_SUCCEEDED, SOCKS_RSV, SOCKS_VER_5};
use crate::error::SocksError;
use crate::ip::{IpAddress, SocketAddress};
use crate::wire::push_all;

pub use server::{Socks5Guard, Socks5Handler};

verus! {

/// A SOCKS5 command.
#[derive(Clone, Copy, Debug, PartialEq, Eq, Structural)]
pub enum Socks5Command {
    Connect,
    Bind,
    UdpAssociate,
}

impl Socks5Command {
    /// The command's number on the wire.
    pub open spec fn spec_code(self) -> u8 {
        match self {
            Socks5Command::Connect => 0x01,
            Socks5Command::Bind => 0x02,
            Socks5Command::UdpAssociate => 0x03,
        }
    }

    pub fn code(&self) -> (r: u8)
        ensures
            r == self.spec_code(),
    {
        match self {
            Socks5Command::Connect => 0x01,
            Socks5Command::Bind => 0x02,
            Socks5Command::UdpAssociate => 0x03,
        }
    }

    /// The command that `b` numbers, if any.
    pub fn from_u8(b: u8) -> (r: Option<Socks5Command>)
        ensures
            match r {
                Some(c) => 1 <= b <= 3 && c.spec_code() == b,
                None => b == 0 || b > 3,
            },
    {
        if b == 1 {
            Some(Socks5Command::Connect)
        } else if b == 2 {
            Some(Socks5Command::Bind)
        } else if b == 3 {
            Some(Socks5Command::UdpAssociate)
        } else {
            None
        }
    }
}

/// A SOCKS5 request: a command and a destination.
#[derive(Clone, Debug, PartialEq, Eq)]
pub struct Socks5Request {
    pub command: Socks5Command,
    pub destination: Address,
}

/// A request on the wire: version 5, CONNECT (whatever the request's
/// command), a reserved byte, then the destination.
pub open spec fn request_bytes(destination: AddressView) -> Seq<u8> {
    seq![SOCKS_VER_5, SOCKS_CMD_CONNECT, SOCKS_RSV] + address_bytes(destination)
}

impl Socks5Request {
    pub fn new(command: u8, destination: Address) -> (r: Self)
        requires
            1 <= command <= 3,
        ensures
            r.command.spec_code() == command,
            r.destination == destination,
    {
        let command = match Socks5Command::from_u8(command) {
            Some(c) => c,
            None => Socks5Command::Connect,
        };
        Socks5Request { command, destination }
    }

    /// The request on the wire. The command written is always CONNECT.
    pub fn into_socks_bytes(self) -> (r: Vec<u8>)
        requires
            address_encodable(self.destination@),
            address_bytes(self.destination@).len() + 3 <= usize::MAX,
        ensures
            r@ == request_bytes(self.destination@),
    {
        let mut data: Vec<u8> = Vec::new();
        data.push(SOCKS_VER_5);
        data.push(SOCKS_CMD_CONNECT);
        data.push(SOCKS_RSV);
        let destination = self.destination.as_socks_bytes();
        push_all(&mut data, destination.as_slice());
        assert(data@ =~= request_bytes(self.destination@));
        data
    }
}

impl Socks5Request {
    /// The request on the wire, or `MessageTooLong` when it is too long to
    /// be built in memory.
    pub fn try_into_socks_bytes(self) -> (r: Result<Vec<u8>, SocksError>)
        ensures
            r is Ok <==> address_bytes(self.destination@).len() + 3 <= usize::MAX,
            r matches Ok(b) ==> b@ == request_bytes(self.destination@),
            r matches Err(e) ==> e == SocksError::MessageTooLong,
    {
        match address_encoded_len(&self.destination) {
            Some(n) => {
                if n <= usize::MAX - 3 {
                    Ok(self.into_socks_bytes())
                } else {
                    Err(SocksError::MessageTooLong)
                }
            },
            None => Err(SocksError::MessageTooLong),
        }
    }
}

/// A request as a server reads it from the front of `s`: three header
/// bytes whose second, the command, must be CONNECT, then the destination,
/// whose domain name must be UTF-8. Gives the destination and the number of
/// bytes taken.
pub open spec fn request_from(s: Seq<u8>) -> Result<(AddressView, nat), SocksError> {
    if s.len() < 4 {
        Err(SocksError::Incomplete((4 - s.len()) as usize))
    } else if s[1] != SOCKS_CMD_CONNECT {
        Err(SocksError::UnsupportedCommand(s[1]))
    } else {
        match binding_from(s.subrange(3, s.len() as int), None) {
            Err(e) => Err(e),
            Ok((destination, n)) => Ok((destination, 3 + n)),
        }
    }
}

/// The view of a request-decoding result.
pub open spec fn request_result_view(r: Result<(Socks5Request, usize), SocksError>) -> Result<
    (AddressView, nat),
    SocksError,
> {
    match r {
        Ok((q, n)) => Ok((q.destination@, n as nat)),
        Err(e) => Err(e),
    }
}

/// Decodes a CONNECT request from the front of `bytes`.
pub fn read_request(bytes: &[u8]) -> (r: Result<(Socks5Request, usize), SocksError>)
    ensures
        request_result_view(r) == request_from(bytes@),
        r matches Ok((q, _)) ==> q.command == Socks5Command::Connect,
{
    let len = bytes.len();
    if len < 4 {
        return Err(SocksError::Incomplete(4 - len));
    }
    let command = bytes[1];
    if command != SOCKS_CMD_CONNECT {
        return Err(SocksError::UnsupportedCommand(command));
    }
    let rest = vstd::slice::slice_subrange(bytes, 3, len);
    match read_binding(rest, None) {
        Ok((destination, n)) => Ok((Socks5Request { command: Socks5Command::Connect, destination }, 3 + n)),
        Err(e) => Err(e),
    }
}

/// A SOCKS5 reply code.
#[derive(Clone, Copy, Debug, PartialEq, Eq, Structural)]
pub enum Socks5Reply {
    Success,
    GeneralFailure,
    ConnectionNotAllowed,
    NetworkUnreachable,
    HostUnreachable,
    ConnectionRefused,
    TTLExpired,
    CommandNotSupported,
    AddressTypeNotSupported,
    ConnectionAttemptTimeOut,
}

impl Socks5Reply {
    /// The reply's number on the wire.
    pub open spec fn spec_code(self) -> u8 {
        match self {
            Socks5Reply::Success => 0x00,
            Socks5Reply::GeneralFailure => 0x01,
            Socks5Reply::ConnectionNotAllowed => 0x02,
            Socks5Reply::NetworkUnreachable => 0x03,
            Socks5Reply::HostUnreachable => 0x04,
            Socks5Reply::ConnectionRefused => 0x05,
            Socks5Reply::TTLExpired => 0x06,
            Socks5Reply::CommandNotSupported => 0x07,
            Socks5Reply::AddressTypeNotSupported => 0x08,
            Socks5Reply::ConnectionAttemptTimeOut => 0x09,
        }
    }

    pub fn code(&self) -> (r: u8)
        ensures
            r == self.spec_code(),
    {
        match self {
            Socks5Reply::Success => 0x00,
            Socks5Reply::GeneralFailure => 0x01,
            Socks5Reply::ConnectionNotAllowed => 0x02,
            Socks5Reply::NetworkUnreachable => 0x03,
            Socks5Reply::HostUnreachable => 0x04,
            Socks5Reply::ConnectionRefused => 0x05,
            Socks5Reply::TTLExpired => 0x06,
            Socks5Reply::CommandNotSupported => 0x07,
            Socks5Reply::AddressTypeNotSupported => 0x08,
            Socks5Reply::ConnectionAttemptTimeOut => 0x09,
        }
    }
}

/// A reply on the wire: version 5, the code, a reserved byte, then the
/// empty IPv4 binding 0.0.0.0:0.
pub open spec fn reply_bytes(reply: Socks5Reply) -> Seq<u8> {
    seq![
        SOCKS_VER_5,
        reply.spec_code(),
        SOCKS_RSV,
        SOCKS_ATYP_IPV4,
        0x00u8,
        0x00,
        0x00,
        0x00,
        0x00,
        0x00,
    ]
}

/// The reply with the given code.
pub fn write_reply(reply: Socks5Reply) -> (r: Vec<u8>)
    ensures
        r@ == reply_bytes(reply),
{
    let mut r: Vec<u8> = Vec::new();
    r.push(SOCKS_VER_5);
    r.push(reply.code());
    r.push(SOCKS_RSV);
    r.push(SOCKS_ATYP_IPV4);
    let mut i: usize = 0;
    while i < 6
        invariant
            i <= 6,
            r@.len() == 4 + i,
            r@[0] == SOCKS_VER_5,
            r@[1] == reply.spec_code(),
            r@[2] == SOCKS_RSV,
            r@[3] == SOCKS_ATYP_IPV4,
            forall|j: int| 4 <= j < r@.len() ==> r@[j] == 0,
        decreases 6 - i,
    {
        r.push(0x00);
        i = i + 1;
    }
    assert(r@ =~= reply_bytes(reply));
    r
}

/// Decoding a reply from the front of `s`: three header bytes whose second,
/// the code, must be success, then the binding address. Gives the binding
/// and the number of bytes taken.
pub open spec fn reply_from(s: Seq<u8>) -> Result<(AddressView, nat), SocksError> {
    if s.len() < 3 {
        Err(SocksError::Incomplete((3 - s.len()) as usize))
    } else if s[1] != SOCKS_REP_SUCCEEDED {
        Err(SocksError::OperationFailed(s[1]))
    } else {
        match address_from(s.subrange(3, s.len() as int)) {
            Err(e) => Err(e),
            Ok((binding, n)) => Ok((binding, 3 + n)),
        }
    }
}

/// Decodes a reply from the front of `bytes`: gives the binding and the
/// number of bytes taken.
pub fn read_reply(bytes: &[u8]) -> (r: Result<(Address, usize), SocksError>)
    ensures
        address_result_view(r) == reply_from(bytes@),
{
    let len = bytes.len();
    if len < 3 {
        return Err(SocksError::Incomplete(3 - len));
    }
    let reply_code = bytes[1];
    if reply_code != SOCKS_REP_SUCCEEDED {
        return Err(SocksError::OperationFailed(reply_code));
    }
    let rest = vstd::slice::slice_subrange(bytes, 3, len);
    proof { lemma_address_from_len(rest@); }
    match read_address(rest) {
        Ok((binding, n)) => Ok((binding, 3 + n)),
        Err(e) => Err(e),
    }
}

/// A reply decodes to the empty IPv4 binding when it reports success, and
/// to the failure code otherwise.
pub proof fn lemma_reply_roundtrip(reply: Socks5Reply, rest: Seq<u8>)
    ensures
        reply_from(reply_bytes(reply) + rest) == (if reply == Socks5Reply::Success {
            Ok::<(AddressView, nat), SocksError>(
                (AddressView::Ip(SocketAddress { ip: IpAddress::V4([0, 0, 0, 0]), port: 0 }), 10),
            )
        } else {
            Err(SocksError::OperationFailed(reply.spec_code()))
        }),
{
    reveal(address_from);
    let s = reply_bytes(reply) + rest;
    if reply == Socks5Reply::Success {
        let a = s.subrange(3, s.len() as int);
        assert(a[0] == SOCKS_ATYP_IPV4);
        assert([a[1], a[2], a[3], a[4]] =~= [0u8, 0, 0, 0]);
    }
}

/// A server reads back the destination of an encoded request, whatever
/// bytes follow it.
pub proof fn lemma_request_roundtrip(destination: AddressView, rest: Seq<u8>)
    requires
        address_fits(destination),
    ensures
        request_from(request_bytes(destination) + rest) == Ok::<(AddressView, nat), SocksError>(
            (destination, request_bytes(destination).len()),
        ),
{
    let s = request_bytes(destination) + rest;
    assert(s.subrange(3, s.len() as int) =~= address_bytes(destination) + rest);
    lemma_binding_roundtrip(destination, rest);
}

} // verus!
