//! The steps of a SOCKS5 client's exchange with a proxy: method
//! negotiation, username/password authentication (RFC 1929) and the reply
//! to CONNECT.
use vstd::prelude::*;
use crate::addresses::{address_result_view, binding_from, read_binding, Address, AddressView};
use crate::constants::{
    SOCKS_AUTH_NOT_REQUIRED, SOCKS_AUTH_SUCCESS, SOCKS_AUTH_USERNAME_PASSWORD, SOCKS_AUTH_VER,
    SOCKS_REP_SUCCEEDED, SOCKS_VER_5,
};
use crate::constants::SOCKS_ATYP_IPV4;
use crate::credentials::{credentials_bytes, Credentials};
use crate::ip::{IpAddress, SocketAddress};
use crate::socks5::{reply_bytes, Socks5Reply};
use crate::error::SocksError;
use crate::wire::push_all;

verus! {

/// The methods a client offers: "no authentication", and username/password
/// when it has credentials.
pub open spec fn offered_methods(has_credentials: bool) -> Seq<u8> {
    if has_credentials {
        seq![SOCKS_AUTH_NOT_REQUIRED, SOCKS_AUTH_USERNAME_PASSWORD]
    } else {
        seq![SOCKS_AUTH_NOT_REQUIRED]
    }
}

/// The method negotiation request: version 5, the number of methods, then
/// the methods.
pub open spec fn auth_methods_bytes(has_credentials: bool) -> Seq<u8> {
    seq![SOCKS_VER_5, offered_methods(has_credentials).len() as u8] + offered_methods(has_credentials)
}

/// The method negotiation request a client sends.
pub fn auth_methods_request(has_credentials: bool) -> (r: Vec<u8>)
    ensures
        r@ == auth_methods_bytes(has_credentials),
{
    let mut request: Vec<u8> = Vec::new();
    request.push(SOCKS_VER_5);
    request.push(0x01);
    request.push(SOCKS_AUTH_NOT_REQUIRED);
    if has_credentials {
        request.set(1, 0x02);
        request.push(SOCKS_AUTH_USERNAME_PASSWORD);
    }
    assert(request@ =~= auth_methods_bytes(has_credentials));
    request
}

/// What a client makes of the proxy's method selection: the version must
/// be 5; "no authentication" is taken; username/password is taken when the
/// client has credentials; anything else is refused.
pub open spec fn auth_method_check(version: u8, method: u8, has_credentials: bool) -> Result<
    u8,
    SocksError,
> {
    if version != SOCKS_VER_5 {
        Err(SocksError::VersionMismatch(version))
    } else if method == 0x00 {
        Ok(method)
    } else if method == 0x02 {
        if has_credentials {
            Ok(method)
        } else {
            Err(SocksError::CredentialsRequired)
        }
    } else if method == 0xFF {
        Err(SocksError::NoAcceptableMethods)
    } else {
        Err(SocksError::UnsupportedAuthMethod(method))
    }
}

/// Checks the proxy's method selection reply `[version, method]`.
pub fn check_auth_method(version: u8, method: u8, has_credentials: bool) -> (r: Result<u8, SocksError>)
    ensures
        r == auth_method_check(version, method, has_credentials),
{
    if version != SOCKS_VER_5 {
        return Err(SocksError::VersionMismatch(version));
    }
    if method == 0x00 {
        Ok(method)
    } else if method == 0x02 {
        if has_credentials {
            Ok(method)
        } else {
            Err(SocksError::CredentialsRequired)
        }
    } else if method == 0xFF {
        Err(SocksError::NoAcceptableMethods)
    } else {
        Err(SocksError::UnsupportedAuthMethod(method))
    }
}

/// The username/password request: the sub-negotiation version, then the
/// credentials.
pub fn auth_request(credentials: &Credentials) -> (r: Vec<u8>)
    requires
        credentials.username@.len() + credentials.password@.len() + 3 <= usize::MAX,
    ensures
        r@ == seq![SOCKS_AUTH_VER] + credentials_bytes(credentials@),
{
    let mut request: Vec<u8> = Vec::new();
    request.push(SOCKS_AUTH_VER);
    let bytes = credentials.as_socks_bytes();
    push_all(&mut request, bytes.as_slice());
    request
}

/// What a client does once the proxy's method selection has passed
/// `check_auth_method`: for username/password, the request to send next;
/// for "no authentication", nothing: it goes straight on to its CONNECT
/// request.
pub fn authentication_step(method: u8, credentials: &Option<Credentials>) -> (r: Option<Vec<u8>>)
    requires
        credentials matches Some(c) ==> c.username@.len() + c.password@.len() + 3 <= usize::MAX,
    ensures
        r is Some <==> (method == SOCKS_AUTH_USERNAME_PASSWORD && credentials is Some),
        r matches Some(b) ==> b@ == seq![SOCKS_AUTH_VER] + credentials_bytes(credentials.unwrap()@),
        auth_method_check(SOCKS_VER_5, method, credentials is Some) is Ok ==> (r is Some <==> method
            == SOCKS_AUTH_USERNAME_PASSWORD),
{
    if method == SOCKS_AUTH_USERNAME_PASSWORD {
        match credentials {
            Some(c) => Some(auth_request(c)),
            None => None,
        }
    } else {
        None
    }
}

/// What a client makes of the reply `[version, status]` to its
/// username/password request.
pub open spec fn auth_reply_check(version: u8, status: u8) -> Result<(), SocksError> {
    if version != SOCKS_AUTH_VER {
        Err(SocksError::AuthVersionMismatch(version))
    } else if status != SOCKS_AUTH_SUCCESS {
        Err(SocksError::AuthenticationFailed(status))
    } else {
        Ok(())
    }
}

/// Checks the reply to a username/password request.
pub fn check_auth_reply(version: u8, status: u8) -> (r: Result<(), SocksError>)
    ensures
        r == auth_reply_check(version, status),
{
    if version != SOCKS_AUTH_VER {
        Err(SocksError::AuthVersionMismatch(version))
    } else if status != SOCKS_AUTH_SUCCESS {
        Err(SocksError::AuthenticationFailed(status))
    } else {
        Ok(())
    }
}

/// What a client reads from the front of `s` as the reply to CONNECT: four
/// header bytes whose second, the code, must be success, then the binding
/// from the address type (the fourth byte) on. Gives the binding and the
/// number of bytes taken.
pub open spec fn connect_reply_from(s: Seq<u8>) -> Result<(AddressView, nat), SocksError> {
    if s.len() < 4 {
        Err(SocksError::Incomplete((4 - s.len()) as usize))
    } else if s[1] != SOCKS_REP_SUCCEEDED {
        Err(SocksError::OperationFailed(s[1]))
    } else {
        match binding_from(s.subrange(3, s.len() as int), None) {
            Err(e) => Err(e),
            Ok((binding, n)) => Ok((binding, 3 + n)),
        }
    }
}

/// Decodes the reply to CONNECT from the front of `bytes`.
pub fn read_connect_reply(bytes: &[u8]) -> (r: Result<(Address, usize), SocksError>)
    ensures
        address_result_view(r) == connect_reply_from(bytes@),
{
    let len = bytes.len();
    if len < 4 {
        return Err(SocksError::Incomplete(4 - len));
    }
    let rep = bytes[1];
    if rep != SOCKS_REP_SUCCEEDED {
        return Err(SocksError::OperationFailed(rep));
    }
    let rest = vstd::slice::slice_subrange(bytes, 3, len);
    match read_binding(rest, None) {
        Ok((binding, n)) => Ok((binding, 3 + n)),
        Err(e) => Err(e),
    }
}

/// A successful reply decodes, as a client reads it, to the empty IPv4
/// binding; a failed one to its code.
pub proof fn lemma_connect_reply_roundtrip(reply: Socks5Reply, rest: Seq<u8>)
    ensures
        connect_reply_from(reply_bytes(reply) + rest) == (if reply == Socks5Reply::Success {
            Ok::<(AddressView, nat), SocksError>(
                (AddressView::Ip(SocketAddress { ip: IpAddress::V4([0, 0, 0, 0]), port: 0 }), 10),
            )
        } else {
            Err(SocksError::OperationFailed(reply.spec_code()))
        }),
{
    let s = reply_bytes(reply) + rest;
    if reply == Socks5Reply::Success {
        let a = s.subrange(3, s.len() as int);
        assert(a[0] == SOCKS_ATYP_IPV4);
        assert([a[1], a[2], a[3], a[4]] =~= [0u8, 0, 0, 0]);
    }
}

} // verus!
