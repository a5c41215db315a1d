//! The decisions of a SOCKS5 server: which authentication method to
//! select, and whether the username and password a client sends match.
use vstd::prelude::*;
use crate::constants::{
    SOCKS_AUTH_FAILED, SOCKS_AUTH_NO_ACCEPTABLE_METHODS, SOCKS_AUTH_NOT_REQUIRED,
    SOCKS_AUTH_SUCCESS, SOCKS_AUTH_USERNAME_PASSWORD, SOCKS_AUTH_VER, SOCKS_VER_5,
};
use crate::credentials::{credentials_bytes, Credentials, CredentialsView};
use crate::socks5::client::{auth_method_check, offered_methods};
use crate::error::SocksError;
use crate::wire::{bytes_eq, copy_range};

verus! {

/// Guards a SOCKS5 server: the credentials clients must present, if any.
#[derive(Clone, Debug)]
pub struct Socks5Guard {
    pub credentials: Option<Credentials>,
}

/// The method a server selects from those a client offers: username and
/// password when it has credentials and the client offers it, otherwise
/// "no authentication" when offered, otherwise none is acceptable.
pub open spec fn selected_method(has_credentials: bool, methods: Seq<u8>) -> u8 {
    if has_credentials && methods.contains(SOCKS_AUTH_USERNAME_PASSWORD) {
        SOCKS_AUTH_USERNAME_PASSWORD
    } else if methods.contains(SOCKS_AUTH_NOT_REQUIRED) {
        SOCKS_AUTH_NOT_REQUIRED
    } else {
        SOCKS_AUTH_NO_ACCEPTABLE_METHODS
    }
}

/// The status a server answers a username/password request with: success
/// exactly when both match its credentials.
pub open spec fn auth_status_of(expected: CredentialsView, username: Seq<u8>, password: Seq<u8>) -> u8 {
    if username == expected.username && password == expected.password {
        SOCKS_AUTH_SUCCESS
    } else {
        SOCKS_AUTH_FAILED
    }
}

/// Whether `b` occurs in `s`.
fn contains_byte(s: &[u8], b: u8) -> (r: bool)
    ensures
        r == s@.contains(b),
{
    let mut i: usize = 0;
    while i < s.len()
        invariant
            i <= s@.len(),
            forall|j: int| 0 <= j < i ==> s@[j] != b,
        decreases s@.len() - i,
    {
        if s[i] == b {
            assert(s@[i as int] == b);
            return true;
        }
        i = i + 1;
    }
    false
}

impl Socks5Guard {
    pub fn new(credentials: Option<Credentials>) -> (r: Self)
        ensures
            r.credentials == credentials,
    {
        Socks5Guard { credentials }
    }

    /// The method selected from those a client offers.
    pub fn select_method(&self, methods: &[u8]) -> (r: u8)
        ensures
            r == selected_method(self.credentials is Some, methods@),
    {
        if self.credentials.is_some() && contains_byte(methods, SOCKS_AUTH_USERNAME_PASSWORD) {
            SOCKS_AUTH_USERNAME_PASSWORD
        } else if contains_byte(methods, SOCKS_AUTH_NOT_REQUIRED) {
            SOCKS_AUTH_NOT_REQUIRED
        } else {
            SOCKS_AUTH_NO_ACCEPTABLE_METHODS
        }
    }

    /// The status for a username and password a client sent.
    pub fn auth_status(&self, username: &[u8], password: &[u8]) -> (r: u8)
        requires
            self.credentials is Some,
        ensures
            r == auth_status_of(self.credentials.unwrap()@, username@, password@),
    {
        match &self.credentials {
            Some(c) => {
                if bytes_eq(username, c.username.as_slice()) && bytes_eq(password, c.password.as_slice()) {
                    SOCKS_AUTH_SUCCESS
                } else {
                    SOCKS_AUTH_FAILED
                }
            },
            None => SOCKS_AUTH_FAILED,
        }
    }
}

/// A client's greeting read from the front of `s`: the version, which must
/// be 5, the number of methods, then the methods. Gives the methods and the
/// number of bytes taken.
pub open spec fn greeting_from(s: Seq<u8>) -> Result<(Seq<u8>, nat), SocksError> {
    if s.len() < 2 {
        Err(SocksError::Incomplete((2 - s.len()) as usize))
    } else if s[0] != SOCKS_VER_5 {
        Err(SocksError::VersionMismatch(s[0]))
    } else if s.len() < 2 + s[1] {
        Err(SocksError::Incomplete((2 + s[1] - s.len()) as usize))
    } else {
        Ok((s.subrange(2, 2 + s[1] as int), (2 + s[1]) as nat))
    }
}

/// Decodes a client's greeting from the front of `bytes`.
pub fn read_greeting(bytes: &[u8]) -> (r: Result<(Vec<u8>, usize), SocksError>)
    ensures
        match r {
            Ok((methods, n)) => greeting_from(bytes@) == Ok::<(Seq<u8>, nat), SocksError>((methods@, n as nat)),
            Err(e) => greeting_from(bytes@) == Err::<(Seq<u8>, nat), SocksError>(e),
        },
{
    let len = bytes.len();
    if len < 2 {
        return Err(SocksError::Incomplete(2 - len));
    }
    if bytes[0] != SOCKS_VER_5 {
        return Err(SocksError::VersionMismatch(bytes[0]));
    }
    let n = bytes[1] as usize;
    if len < 2 + n {
        return Err(SocksError::Incomplete(2 + n - len));
    }
    Ok((copy_range(bytes, 2, 2 + n), 2 + n))
}

/// The server's method selection reply.
pub fn method_selection_reply(method: u8) -> (r: Vec<u8>)
    ensures
        r@ == seq![SOCKS_VER_5, method],
{
    let mut r: Vec<u8> = Vec::new();
    r.push(SOCKS_VER_5);
    r.push(method);
    assert(r@ =~= seq![SOCKS_VER_5, method]);
    r
}

/// A username/password request read from the front of `s` (RFC 1929): the
/// sub-negotiation version, which must be 1, then the username and the
/// password, each preceded by its length. Gives both and the number of
/// bytes taken.
pub open spec fn auth_request_from(s: Seq<u8>) -> Result<(Seq<u8>, Seq<u8>, nat), SocksError> {
    if s.len() < 2 {
        Err(SocksError::Incomplete((2 - s.len()) as usize))
    } else if s[0] != SOCKS_AUTH_VER {
        Err(SocksError::AuthVersionMismatch(s[0]))
    } else {
        let ulen = s[1] as int;
        if s.len() < 3 + ulen {
            Err(SocksError::Incomplete((3 + ulen - s.len()) as usize))
        } else {
            let plen = s[2 + ulen] as int;
            if s.len() < 3 + ulen + plen {
                Err(SocksError::Incomplete((3 + ulen + plen - s.len()) as usize))
            } else {
                Ok(
                    (
                        s.subrange(2, 2 + ulen),
                        s.subrange(3 + ulen, 3 + ulen + plen),
                        (3 + ulen + plen) as nat,
                    ),
                )
            }
        }
    }
}

/// Decodes a username/password request from the front of `bytes`.
pub fn read_auth_request(bytes: &[u8]) -> (r: Result<(Vec<u8>, Vec<u8>, usize), SocksError>)
    ensures
        match r {
            Ok((u, p, n)) => auth_request_from(bytes@) == Ok::<(Seq<u8>, Seq<u8>, nat), SocksError>(
                (u@, p@, n as nat),
            ),
            Err(e) => auth_request_from(bytes@) == Err::<(Seq<u8>, Seq<u8>, nat), SocksError>(e),
        },
{
    let len = bytes.len();
    if len < 2 {
        return Err(SocksError::Incomplete(2 - len));
    }
    if bytes[0] != SOCKS_AUTH_VER {
        return Err(SocksError::AuthVersionMismatch(bytes[0]));
    }
    let ulen = bytes[1] as usize;
    if len < 3 + ulen {
        return Err(SocksError::Incomplete(3 + ulen - len));
    }
    let plen = bytes[2 + ulen] as usize;
    if len < 3 + ulen + plen {
        return Err(SocksError::Incomplete(3 + ulen + plen - len));
    }
    let username = copy_range(bytes, 2, 2 + ulen);
    let password = copy_range(bytes, 3 + ulen, 3 + ulen + plen);
    Ok((username, password, 3 + ulen + plen))
}

/// The server's reply to a username/password request.
pub fn auth_reply(status: u8) -> (r: Vec<u8>)
    ensures
        r@ == seq![SOCKS_AUTH_VER, status],
{
    let mut r: Vec<u8> = Vec::new();
    r.push(SOCKS_AUTH_VER);
    r.push(status);
    assert(r@ =~= seq![SOCKS_AUTH_VER, status]);
    r
}

/// Whether, after answering a greeting with `method`, the guard goes on
/// with the username/password sub-negotiation. For any other selection the
/// exchange ends there, in success, with nothing more read or written.
pub fn sub_negotiation_needed(method: u8) -> (r: bool)
    ensures
        r == (method == SOCKS_AUTH_USERNAME_PASSWORD),
{
    method == SOCKS_AUTH_USERNAME_PASSWORD
}

/// The outcome of a username/password sub-negotiation once the guard has
/// answered with `status`: success exactly when the status is success, a
/// refusal carrying the status otherwise.
pub open spec fn auth_outcome_of(status: u8) -> Result<(), SocksError> {
    if status == SOCKS_AUTH_SUCCESS {
        Ok(())
    } else {
        Err(SocksError::AuthenticationFailed(status))
    }
}

/// The outcome of the sub-negotiation, decided after the status is sent.
pub fn auth_outcome(status: u8) -> (r: Result<(), SocksError>)
    ensures
        r == auth_outcome_of(status),
{
    if status == SOCKS_AUTH_SUCCESS {
        Ok(())
    } else {
        Err(SocksError::AuthenticationFailed(status))
    }
}

/// What a guard's whole exchange comes to, for a client that offers
/// `methods` and, if username/password is selected, then sends `username`
/// and `password`: the bytes the guard writes, in order, and its outcome.
pub open spec fn guard_exchange(
    credentials: Option<CredentialsView>,
    methods: Seq<u8>,
    username: Seq<u8>,
    password: Seq<u8>,
) -> (Seq<u8>, Result<(), SocksError>) {
    let m = selected_method(credentials is Some, methods);
    if m == SOCKS_AUTH_USERNAME_PASSWORD {
        let status = auth_status_of(credentials.unwrap(), username, password);
        (seq![SOCKS_VER_5, m, SOCKS_AUTH_VER, status], auth_outcome_of(status))
    } else {
        (seq![SOCKS_VER_5, m], Ok(()))
    }
}

/// A guard's exchange ends after its method selection, in success, exactly
/// when username/password is not selected (it is selected when the guard
/// has credentials and the client offers it); otherwise it succeeds exactly
/// when the client's username and password both match the guard's, and a
/// refusal answers with the failure status.
pub proof fn lemma_guard_outcome(
    credentials: Option<CredentialsView>,
    methods: Seq<u8>,
    username: Seq<u8>,
    password: Seq<u8>,
)
    ensures
        ({
            let m = selected_method(credentials is Some, methods);
            let (written, outcome) = guard_exchange(credentials, methods, username, password);
            &&& (m == SOCKS_AUTH_USERNAME_PASSWORD) == (credentials is Some && methods.contains(
                SOCKS_AUTH_USERNAME_PASSWORD,
            ))
            &&& m != SOCKS_AUTH_USERNAME_PASSWORD ==> written == seq![SOCKS_VER_5, m] && outcome
                == Ok::<(), SocksError>(())
            &&& m == SOCKS_AUTH_USERNAME_PASSWORD ==> {
                &&& outcome is Ok <==> (username == credentials.unwrap().username && password
                    == credentials.unwrap().password)
                &&& outcome is Err ==> written == seq![SOCKS_VER_5, m, SOCKS_AUTH_VER, SOCKS_AUTH_FAILED]
                    && outcome == Err::<(), SocksError>(SocksError::AuthenticationFailed(SOCKS_AUTH_FAILED))
                &&& outcome is Ok ==> written == seq![SOCKS_VER_5, m, SOCKS_AUTH_VER, SOCKS_AUTH_SUCCESS]
            }
        }),
{
}

/// A SOCKS5 server that carries out CONNECT requests.
#[derive(Clone, Debug)]
pub struct Socks5Handler {}

impl Socks5Handler {
    pub fn new() -> (r: Self) {
        Socks5Handler {}
    }
}

/// The username/password request a client builds reads back as the same
/// username and password, which a server holding those credentials
/// accepts, and one holding others refuses.
pub proof fn lemma_authentication_roundtrip(sent: CredentialsView, expected: CredentialsView, rest: Seq<u8>)
    requires
        sent.username.len() <= 255,
        sent.password.len() <= 255,
    ensures
        ({
            let n = (3 + sent.username.len() + sent.password.len()) as nat;
            &&& auth_request_from(seq![SOCKS_AUTH_VER] + credentials_bytes(sent) + rest) == Ok::<
                (Seq<u8>, Seq<u8>, nat),
                SocksError,
            >((sent.username, sent.password, n))
            &&& (auth_status_of(expected, sent.username, sent.password) == SOCKS_AUTH_SUCCESS
                <==> sent == expected)
        }),
{
    let s = seq![SOCKS_AUTH_VER] + credentials_bytes(sent) + rest;
    let ul = sent.username.len() as int;
    let pl = sent.password.len() as int;
    assert(s[1] == ul as u8);
    assert(s.subrange(2, 2 + ul) =~= sent.username);
    assert(s[2 + ul] == pl as u8);
    assert(s.subrange(3 + ul, 3 + ul + pl) =~= sent.password);
}

/// The method a server selects from a client's offer is one the client
/// takes: username/password only when both have credentials, "no
/// authentication" otherwise.
pub proof fn lemma_negotiation_agrees(server_has_credentials: bool, client_has_credentials: bool)
    ensures
        ({
            let m = selected_method(
                server_has_credentials,
                offered_methods(client_has_credentials),
            );
            &&& m == (if server_has_credentials && client_has_credentials {
                SOCKS_AUTH_USERNAME_PASSWORD
            } else {
                SOCKS_AUTH_NOT_REQUIRED
            })
            &&& auth_method_check(SOCKS_VER_5, m, client_has_credentials) == Ok::<u8, SocksError>(m)
        }),
{
    let offered = offered_methods(client_has_credentials);
    assert(offered[0] == SOCKS_AUTH_NOT_REQUIRED);
    assert(offered.contains(SOCKS_AUTH_NOT_REQUIRED));
    if client_has_credentials {
        assert(offered[1] == SOCKS_AUTH_USERNAME_PASSWORD);
        assert(offered.contains(SOCKS_AUTH_USERNAME_PASSWORD));
    } else {
        assert(!offered.contains(SOCKS_AUTH_USERNAME_PASSWORD)) by {
            if offered.contains(SOCKS_AUTH_USERNAME_PASSWORD) {
                let i = choose|i: int| 0 <= i < offered.len() && offered[i] == SOCKS_AUTH_USERNAME_PASSWORD;
                assert(i == 0);
            }
        }
    }
}

} // verus!
