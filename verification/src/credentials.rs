//! Username/password credentials (RFC 1929).
use vstd::prelude::*;
use crate::error::SocksError;
use crate::wire::{copy_range, push_all};

verus! {

/// A username and a password, as bytes.
#[derive(Debug, PartialEq, Eq)]
pub struct Credentials {
    pub username: Vec<u8>,
    pub password: Vec<u8>,
}

/// The mathematical value of credentials.
pub struct CredentialsView {
    pub username: Seq<u8>,
    pub password: Seq<u8>,
}

impl View for Credentials {
    type V = CredentialsView;

    open spec fn view(&self) -> CredentialsView {
        CredentialsView { username: self.username@, password: self.password@ }
    }
}

impl Clone for Credentials {
    fn clone(&self) -> (r: Self)
        ensures
            r@ == self@,
    {
        let username = copy_range(self.username.as_slice(), 0, self.username.len());
        let password = copy_range(self.password.as_slice(), 0, self.password.len());
        assert(username@ =~= self.username@);
        assert(password@ =~= self.password@);
        Credentials { username, password }
    }
}

/// Credentials on the wire: each field preceded by its length, which is
/// truncated to eight bits.
pub open spec fn credentials_bytes(c: CredentialsView) -> Seq<u8> {
    seq![(c.username.len() % 256) as u8] + c.username + seq![(c.password.len() % 256) as u8]
        + c.password
}

impl Credentials {
    pub fn new(username: Vec<u8>, password: Vec<u8>) -> (r: Self)
        ensures
            r@ == (CredentialsView { username: username@, password: password@ }),
    {
        Credentials { username, password }
    }

    /// The username and the password, each preceded by its length.
    pub fn as_socks_bytes(&self) -> (r: Vec<u8>)
        requires
            self.username@.len() + self.password@.len() + 2 <= usize::MAX,
        ensures
            r@ == credentials_bytes(self@),
    {
        let mut bytes: Vec<u8> = Vec::new();
        bytes.push((self.username.len() % 256) as u8);
        push_all(&mut bytes, self.username.as_slice());
        bytes.push((self.password.len() % 256) as u8);
        push_all(&mut bytes, self.password.as_slice());
        assert(bytes@ =~= credentials_bytes(self@));
        bytes
    }
}

/// The check a client makes of its credentials before it connects: a
/// username or a password longer than 255 bytes cannot be sent.
pub open spec fn credentials_check(c: Option<CredentialsView>) -> Result<(), SocksError> {
    match c {
        Some(c) => if c.username.len() > 255 {
            Err(SocksError::UsernameTooLong)
        } else if c.password.len() > 255 {
            Err(SocksError::PasswordTooLong)
        } else {
            Ok(())
        },
        None => Ok(()),
    }
}

/// The view of optional credentials.
pub open spec fn opt_credentials_view(c: Option<Credentials>) -> Option<CredentialsView> {
    match c {
        Some(c) => Some(c@),
        None => None,
    }
}

/// Refuses credentials whose username or password is longer than 255 bytes.
pub fn check_credentials(credentials: &Option<Credentials>) -> (r: Result<(), SocksError>)
    ensures
        r == credentials_check(opt_credentials_view(*credentials)),
{
    match credentials {
        Some(c) => {
            if c.username.len() > 255 {
                Err(SocksError::UsernameTooLong)
            } else if c.password.len() > 255 {
                Err(SocksError::PasswordTooLong)
            } else {
                Ok(())
            }
        },
        None => Ok(()),
    }
}

} // verus!
