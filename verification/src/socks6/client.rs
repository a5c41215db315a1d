//! The steps of a SOCKS6 client's exchange with a proxy: the request with
//! its options, and the checks of the authentication and operation replies.
use vstd::prelude::*;
use crate::addresses::{address_bytes, address_encodable, address_encoded_len, address_result_view, binding_from, read_binding, Address, AddressView};
use crate::constants::{SOCKS_AUTH_SUCCESS, SOCKS_REP_SUCCEEDED, SOCKS_VER_6};
use crate::error::SocksError;
use crate::socks6::options::{
    options_as_bytes, options_bytes, options_encoded_len, options_view, AuthMethod, AuthMethodAdvertisementOption,
    SocksOption, SocksOptionView,
};
use crate::socks6::request_bytes;
use crate::wire::{be_to_u16, push_all, u16_from_be, u16_to_be};

verus! {

/// The options a client sends: those it was given, then an advertisement
/// of the initial data length (truncated to sixteen bits) and no methods.
pub open spec fn connect_options_spec(options: Seq<SocksOptionView>, initial_data_len: nat) -> Seq<
    SocksOptionView,
> {
    options.push(
        SocksOptionView::AuthMethodAdvertisement {
            initial_data_length: (initial_data_len % 0x10000) as u16,
            methods: Seq::empty(),
        },
    )
}

/// The options a client sends with its request.
pub fn connect_options(options: Option<Vec<SocksOption>>, initial_data_len: usize) -> (r: Vec<
    SocksOption,
>)
    ensures
        options_view(r@) == connect_options_spec(
            match options {
                Some(v) => options_view(v@),
                None => Seq::empty(),
            },
            initial_data_len as nat,
        ),
{
    let advertisement = AuthMethodAdvertisementOption::new(
        (initial_data_len % 0x10000) as u16,
        Vec::new(),
    );
    let mut options = match options {
        Some(v) => v,
        None => Vec::new(),
    };
    let ghost before = options@;
    options.push(advertisement);
    assert(options_view(options@) =~= options_view(before).push(advertisement@));
    assert(advertisement@ == (SocksOptionView::AuthMethodAdvertisement {
        initial_data_length: (initial_data_len % 0x10000) as u16,
        methods: Seq::<AuthMethod>::empty(),
    }));
    options
}

/// The request a client sends: version 6, CONNECT, the destination, a
/// padding byte, then the options with their total length.
pub fn connect_request(destination: &Address, options: &Vec<SocksOption>) -> (r: Vec<u8>)
    requires
        address_encodable(destination@),
        address_bytes(destination@).len() + options_bytes(options_view(options@)).len() + 5
            <= usize::MAX,
    ensures
        r@ == request_bytes(destination@, options_view(options@)),
{
    let mut data: Vec<u8> = Vec::new();
    data.push(SOCKS_VER_6);
    data.push(crate::constants::SOCKS_CMD_CONNECT);
    let dst = destination.as_socks_bytes();
    push_all(&mut data, dst.as_slice());
    data.push(crate::constants::SOCKS_PADDING);
    let options_bytes = options_as_bytes(options);
    let options_length: u16 = (options_bytes.len() % 0x10000) as u16;
    push_all(&mut data, &u16_to_be(options_length));
    push_all(&mut data, options_bytes.as_slice());
    assert(data@ =~= request_bytes(destination@, options_view(options@)));
    data
}

/// The request a client sends (see `connect_request`), or `MessageTooLong`
/// when it is too long to be built in memory.
pub fn try_connect_request(destination: &Address, options: &Vec<SocksOption>) -> (r: Result<
    Vec<u8>,
    SocksError,
>)
    ensures
        r is Ok <==> (address_encodable(destination@) && address_bytes(destination@).len()
            + options_bytes(options_view(options@)).len() + 5 <= usize::MAX),
        r matches Ok(b) ==> b@ == request_bytes(destination@, options_view(options@)),
        r matches Err(e) ==> e == SocksError::MessageTooLong,
{
    let a = match address_encoded_len(destination) {
        Some(a) => a,
        None => return Err(SocksError::MessageTooLong),
    };
    let o = match options_encoded_len(options) {
        Some(o) => o,
        None => return Err(SocksError::MessageTooLong),
    };
    if a > usize::MAX - 5 || o > usize::MAX - 5 - a {
        return Err(SocksError::MessageTooLong);
    }
    Ok(connect_request(destination, options))
}

/// What a client reads from the front of `s` as the authentication reply:
/// the version, which must be 6, the status, which must be success, then a
/// two-byte options length and as many option bytes, which are skipped.
/// Gives the number of bytes taken.
pub open spec fn auth_reply_from(s: Seq<u8>) -> Result<nat, SocksError> {
    if s.len() < 1 {
        Err(SocksError::Incomplete(1))
    } else if s[0] != SOCKS_VER_6 {
        Err(SocksError::VersionMismatch(s[0]))
    } else if s.len() < 4 {
        Err(SocksError::Incomplete((4 - s.len()) as usize))
    } else if s[1] != SOCKS_AUTH_SUCCESS {
        Err(SocksError::AuthenticationFailed(s[1]))
    } else {
        let l = u16_from_be(s[2], s[3]) as nat;
        if s.len() < 4 + l {
            Err(SocksError::Incomplete((4 + l - s.len()) as usize))
        } else {
            Ok(4 + l)
        }
    }
}

/// Checks the authentication reply at the front of `bytes`.
pub fn read_auth_reply(bytes: &[u8]) -> (r: Result<usize, SocksError>)
    ensures
        match r {
            Ok(n) => auth_reply_from(bytes@) == Ok::<nat, SocksError>(n as nat),
            Err(e) => auth_reply_from(bytes@) == Err::<nat, SocksError>(e),
        },
{
    let len = bytes.len();
    if len < 1 {
        return Err(SocksError::Incomplete(1));
    }
    if bytes[0] != SOCKS_VER_6 {
        return Err(SocksError::VersionMismatch(bytes[0]));
    }
    if len < 4 {
        return Err(SocksError::Incomplete(4 - len));
    }
    if bytes[1] != SOCKS_AUTH_SUCCESS {
        return Err(SocksError::AuthenticationFailed(bytes[1]));
    }
    let l = be_to_u16(bytes[2], bytes[3]) as usize;
    if len - 4 < l {
        return Err(SocksError::Incomplete(l - (len - 4)));
    }
    Ok(4 + l)
}

/// What a client reads from the front of `s` as the operation reply: six
/// header bytes, of which the second is the code, which must be success,
/// the third and fourth the binding's port and the sixth the address type;
/// the binding's address (a domain name must be UTF-8); then a two-byte
/// options length and as many option bytes, which are skipped. Gives the
/// binding and the number of bytes taken.
pub open spec fn operation_reply_from(s: Seq<u8>) -> Result<(AddressView, nat), SocksError> {
    if s.len() < 6 {
        Err(SocksError::Incomplete((6 - s.len()) as usize))
    } else if s[1] != SOCKS_REP_SUCCEEDED {
        Err(SocksError::OperationFailed(s[1]))
    } else {
        match binding_from(s.subrange(5, s.len() as int), Some(u16_from_be(s[2], s[3]))) {
            Err(e) => Err(e),
            Ok((binding, n)) => {
                let p = 5 + n;
                if s.len() < p + 2 {
                    Err(SocksError::Incomplete((p + 2 - s.len()) as usize))
                } else {
                    let l = u16_from_be(s[p as int], s[p as int + 1]) as nat;
                    if s.len() < p + 2 + l {
                        Err(SocksError::Incomplete((p + 2 + l - s.len()) as usize))
                    } else {
                        Ok((binding, p + 2 + l))
                    }
                }
            },
        }
    }
}

/// Decodes the operation reply at the front of `bytes`: gives the binding
/// and the number of bytes taken. The client's reply layout differs from
/// the one `write_reply` builds: this decoder refuses that function's
/// success reply, taking one of its address bytes for an unknown address
/// type.
pub fn read_operation_reply(bytes: &[u8]) -> (r: Result<(Address, usize), SocksError>)
    ensures
        address_result_view(r) == operation_reply_from(bytes@),
{
    let len = bytes.len();
    if len < 6 {
        return Err(SocksError::Incomplete(6 - len));
    }
    if bytes[1] != SOCKS_REP_SUCCEEDED {
        return Err(SocksError::OperationFailed(bytes[1]));
    }
    let port = be_to_u16(bytes[2], bytes[3]);
    let rest = vstd::slice::slice_subrange(bytes, 5, len);
    let (binding, n) = match read_binding(rest, Some(port)) {
        Ok(x) => x,
        Err(e) => return Err(e),
    };
    let p = 5 + n;
    if len - p < 2 {
        return Err(SocksError::Incomplete(p + 2 - len));
    }
    let l = be_to_u16(bytes[p], bytes[p + 1]) as usize;
    if len - p - 2 < l {
        return Err(SocksError::Incomplete(l - (len - p - 2)));
    }
    Ok((binding, p + 2 + l))
}

} // verus!
