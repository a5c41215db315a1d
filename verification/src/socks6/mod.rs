//! SOCKS6 messages: the request a client sends, the authentication and
//! operation replies of a server, and the server's routing of a request.
pub mod chain;
pub mod client;
pub mod options;

use std::collections::HashMap;
use vstd::prelude::*;
use crate::addresses::{
    address_bytes, address_encodable, address_from, address_roundtrips, lemma_address_from_len,
    lemma_address_roundtrip,
    read_address, Address, AddressView, ProxyAddress, ProxyAddressView,
};
use crate::ip::{IpAddress, SocketAddress};
use crate::constants::{
    SOCKS_ATYP_IPV4, SOCKS_AUTH_SUCCESS, SOCKS_CMD_CONNECT, SOCKS_PADDING, SOCKS_REP_SUCCEEDED,
    SOCKS_VER_6,
};
use crate::error::SocksError;
use crate::socks6::options::{
    lemma_options_roundtrip, option_after_roundtrip, option_roundtrips, options_bytes, options_from, options_view, read_options, SocksOption, SocksOptionView,
};
use crate::socks6::chain::links_view;
use crate::wire::be_u16;

pub use crate::socks6::options::AuthMethod;

verus! {

broadcast use vstd::std_specs::hash::group_hash_axioms;

/// A SOCKS6 command.
#[derive(Clone, Copy, Debug, PartialEq, Eq, Structural)]
pub enum SocksCommand {
    NoOp,
    Connect,
    Bind,
    UdpAssociate,
}

impl SocksCommand {
    /// The command's number on the wire.
    pub open spec fn spec_code(self) -> u8 {
        match self {
            SocksCommand::NoOp => 0x00,
            SocksCommand::Connect => 0x01,
            SocksCommand::Bind => 0x02,
            SocksCommand::UdpAssociate => 0x03,
        }
    }

    pub fn code(&self) -> (r: u8)
        ensures
            r == self.spec_code(),
    {
        match self {
            SocksCommand::NoOp => 0x00,
            SocksCommand::Connect => 0x01,
            SocksCommand::Bind => 0x02,
            SocksCommand::UdpAssociate => 0x03,
        }
    }

    /// The command that `b` numbers, if any.
    pub fn from_u8(b: u8) -> (r: Option<SocksCommand>)
        ensures
            match r {
                Some(c) => b <= 3 && c.spec_code() == b,
                None => b > 3,
            },
    {
        if b == 0 {
            Some(SocksCommand::NoOp)
        } else if b == 1 {
            Some(SocksCommand::Connect)
        } else if b == 2 {
            Some(SocksCommand::Bind)
        } else if b == 3 {
            Some(SocksCommand::UdpAssociate)
        } else {
            None
        }
    }
}

/// A SOCKS6 operation reply code.
#[derive(Clone, Copy, Debug, PartialEq, Eq, Structural)]
pub enum SocksReply {
    Success,
    GeneralFailure,
    ConnectionNotAllowed,
    NetworkUnreachable,
    HostUnreachable,
    ConnectionRefused,
    TTLExpired,
    CommandNotSupported,
    AddressTypeNotSupported,
    ConnectionAttemptTimeOut,
}

impl SocksReply {
    /// The reply's number on the wire.
    pub open spec fn spec_code(self) -> u8 {
        match self {
            SocksReply::Success => 0x00,
            SocksReply::GeneralFailure => 0x01,
            SocksReply::ConnectionNotAllowed => 0x02,
            SocksReply::NetworkUnreachable => 0x03,
            SocksReply::HostUnreachable => 0x04,
            SocksReply::ConnectionRefused => 0x05,
            SocksReply::TTLExpired => 0x06,
            SocksReply::CommandNotSupported => 0x07,
            SocksReply::AddressTypeNotSupported => 0x08,
            SocksReply::ConnectionAttemptTimeOut => 0x09,
        }
    }

    pub fn code(&self) -> (r: u8)
        ensures
            r == self.spec_code(),
    {
        match self {
            SocksReply::Success => 0x00,
            SocksReply::GeneralFailure => 0x01,
            SocksReply::ConnectionNotAllowed => 0x02,
            SocksReply::NetworkUnreachable => 0x03,
            SocksReply::HostUnreachable => 0x04,
            SocksReply::ConnectionRefused => 0x05,
            SocksReply::TTLExpired => 0x06,
            SocksReply::CommandNotSupported => 0x07,
            SocksReply::AddressTypeNotSupported => 0x08,
            SocksReply::ConnectionAttemptTimeOut => 0x09,
        }
    }
}

/// The reply codes are the numbers 0 to 9, one per reply.
pub proof fn lemma_reply_codes_distinct(a: SocksReply, b: SocksReply)
    ensures
        a.spec_code() <= 9,
        a.spec_code() == b.spec_code() ==> a == b,
{
}

/// A SOCKS6 request as a server reads it.
#[derive(Clone, Debug)]
pub struct Socks6Request {
    pub command: SocksCommand,
    pub destination: Address,
    pub initial_data_length: u16,
    pub options: Vec<SocksOption>,
    pub metadata: HashMap<u16, String>,
}

/// The mathematical value of a request.
pub struct Socks6RequestView {
    pub command: SocksCommand,
    pub destination: AddressView,
    pub initial_data_length: u16,
    pub options: Seq<SocksOptionView>,
    pub metadata: Map<u16, Seq<char>>,
}

impl View for Socks6Request {
    type V = Socks6RequestView;

    open spec fn view(&self) -> Socks6RequestView {
        Socks6RequestView {
            command: self.command,
            destination: self.destination@,
            initial_data_length: self.initial_data_length,
            options: options_view(self.options@),
            metadata: self.metadata@.map_values(|s: String| s@),
        }
    }
}

/// The initial data length that the last advertisement among the options
/// announces, zero when there is none.
pub open spec fn initial_data_length_of(opts: Seq<SocksOptionView>) -> u16
    decreases opts.len(),
{
    if opts.len() == 0 {
        0
    } else {
        match opts.last() {
            SocksOptionView::AuthMethodAdvertisement { initial_data_length, .. } => initial_data_length,
            _ => initial_data_length_of(opts.drop_last()),
        }
    }
}

/// The key/value pairs of the metadata options; a later key replaces an
/// earlier one.
pub open spec fn metadata_of(opts: Seq<SocksOptionView>) -> Map<u16, Seq<char>>
    decreases opts.len(),
{
    if opts.len() == 0 {
        Map::empty()
    } else {
        match opts.last() {
            SocksOptionView::Metadata { key, value } => metadata_of(opts.drop_last()).insert(
                key,
                value,
            ),
            _ => metadata_of(opts.drop_last()),
        }
    }
}

/// The metadata of a list of options holds a key exactly when some metadata
/// option carries it, and under each key the value of the last metadata
/// option that carries it.
pub proof fn lemma_metadata_of(opts: Seq<SocksOptionView>)
    ensures
        forall|k: u16|
            #![trigger metadata_of(opts).dom().contains(k)]
            metadata_of(opts).dom().contains(k) <==> exists|i: int|
                0 <= i < opts.len() && (#[trigger] opts[i]) is Metadata && opts[i]->key == k,
        forall|i: int|
            0 <= i < opts.len() && (#[trigger] opts[i]) is Metadata && (forall|j: int|
                i < j < opts.len() ==> !(opts[j] is Metadata && opts[j]->key == opts[i]->key))
                ==> metadata_of(opts).dom().contains(opts[i]->key) && metadata_of(opts)[opts[i]->key]
                == opts[i]->value,
    decreases opts.len(),
{
    if opts.len() > 0 {
        let prev = opts.drop_last();
        lemma_metadata_of(prev);
        let m = metadata_of(opts);
        let pm = metadata_of(prev);
        assert forall|i: int| 0 <= i < prev.len() implies prev[i] == opts[i] by {}
        assert forall|k: u16| m.dom().contains(k) <==> exists|i: int|
            0 <= i < opts.len() && (#[trigger] opts[i]) is Metadata && opts[i]->key == k by {
            if m.dom().contains(k) {
                if opts.last() is Metadata && opts.last()->key == k {
                    assert(opts[opts.len() - 1] is Metadata && opts[opts.len() - 1]->key == k);
                } else {
                    assert(pm.dom().contains(k));
                    let i = choose|i: int| 0 <= i < prev.len() && (#[trigger] prev[i]) is Metadata && prev[i]->key == k;
                    assert(opts[i] == prev[i]);
                }
            } else {
                assert forall|i: int| 0 <= i < opts.len() implies !((#[trigger] opts[i]) is Metadata && opts[i]->key == k) by {
                    if i < prev.len() {
                        assert(opts[i] == prev[i]);
                        if prev[i] is Metadata && prev[i]->key == k {
                            assert(pm.dom().contains(k));
                        }
                    }
                }
            }
        }
        assert forall|i: int|
            0 <= i < opts.len() && (#[trigger] opts[i]) is Metadata && (forall|j: int|
                i < j < opts.len() ==> !(opts[j] is Metadata && opts[j]->key == opts[i]->key))
            implies m.dom().contains(opts[i]->key) && m[opts[i]->key] == opts[i]->value by {
            if i < opts.len() - 1 {
                assert(opts[i] == prev[i]);
                assert forall|j: int| i < j < prev.len() implies !(prev[j] is Metadata && prev[j]->key == prev[i]->key) by {
                    assert(prev[j] == opts[j]);
                }
                assert(prev[i] is Metadata);
                let last = opts[opts.len() - 1];
                assert(!(last is Metadata && last->key == opts[i]->key));
            }
        }
    }
}

/// A request on the wire: version 6, CONNECT (whatever the request's
/// command), the destination, a padding byte, the options' total length
/// (truncated to sixteen bits), then the options.
pub open spec fn request_bytes(destination: AddressView, options: Seq<SocksOptionView>) -> Seq<u8> {
    seq![SOCKS_VER_6, SOCKS_CMD_CONNECT] + address_bytes(destination) + seq![SOCKS_PADDING]
        + be_u16((options_bytes(options).len() % 0x10000) as u16) + options_bytes(options)
}

/// Decoding a request from the front of `s`: version and command, which
/// must be 6 and CONNECT, the destination, a padding byte, then the
/// options. The initial data length and the metadata are read from the
/// options. Gives the request and the number of bytes it took.
pub open spec fn request_from(s: Seq<u8>) -> Result<(Socks6RequestView, nat), SocksError> {
    if s.len() < 2 {
        Err(SocksError::Incomplete((2 - s.len()) as usize))
    } else if s[0] != SOCKS_VER_6 {
        Err(SocksError::VersionMismatch(s[0]))
    } else if s[1] != SOCKS_CMD_CONNECT {
        Err(SocksError::UnsupportedCommand(s[1]))
    } else {
        match address_from(s.subrange(2, s.len() as int)) {
            Err(e) => Err(e),
            Ok((destination, n)) => if s.len() < 3 + n {
                Err(SocksError::Incomplete((3 + n - s.len()) as usize))
            } else {
                match options_from(s.subrange(3 + n as int, s.len() as int)) {
                    Err(e) => Err(e),
                    Ok((options, m)) => Ok(
                        (
                            Socks6RequestView {
                                command: SocksCommand::Connect,
                                destination,
                                initial_data_length: initial_data_length_of(options),
                                options,
                                metadata: metadata_of(options),
                            },
                            3 + n + m,
                        ),
                    ),
                }
            },
        }
    }
}

/// The view of a request-decoding result.
pub open spec fn request_result_view(r: Result<(Socks6Request, usize), SocksError>) -> Result<
    (Socks6RequestView, nat),
    SocksError,
> {
    match r {
        Ok((q, n)) => Ok((q@, n as nat)),
        Err(e) => Err(e),
    }
}

impl Socks6Request {
    /// A request; without metadata the map is empty.
    pub fn new(
        command: u8,
        destination: Address,
        initial_data_length: u16,
        options: Vec<SocksOption>,
        metadata: Option<HashMap<u16, String>>,
    ) -> (r: Self)
        requires
            command <= 3,
        ensures
            r.command.spec_code() == command,
            r.destination == destination,
            r.initial_data_length == initial_data_length,
            r.options == options,
            metadata matches Some(m) ==> r.metadata == m,
            metadata is None ==> r.metadata@ == Map::<u16, String>::empty(),
    {
        let command = match SocksCommand::from_u8(command) {
            Some(c) => c,
            None => SocksCommand::NoOp,
        };
        let metadata = match metadata {
            Some(m) => m,
            None => HashMap::new(),
        };
        Socks6Request { command, destination, initial_data_length, options, metadata }
    }

    /// The request on the wire. The command written is always CONNECT.
    pub fn into_socks_bytes(self) -> (r: Vec<u8>)
        requires
            address_encodable(self.destination@),
            address_bytes(self.destination@).len() + options_bytes(options_view(self.options@)).len()
                + 5 <= usize::MAX,
        ensures
            r@ == request_bytes(self.destination@, options_view(self.options@)),
    {
        crate::socks6::client::connect_request(&self.destination, &self.options)
    }
}

/// Decodes a request from the front of `bytes`. Gives the request and the
/// number of bytes it took, or how many more bytes are needed.
pub fn read_request(bytes: &[u8]) -> (r: Result<(Socks6Request, usize), SocksError>)
    ensures
        request_result_view(r) == request_from(bytes@),
{
    let len = bytes.len();
    if len < 2 {
        return Err(SocksError::Incomplete(2 - len));
    }
    let version = bytes[0];
    let command = bytes[1];
    if version != SOCKS_VER_6 {
        return Err(SocksError::VersionMismatch(version));
    }
    if command != SOCKS_CMD_CONNECT {
        return Err(SocksError::UnsupportedCommand(command));
    }
    let rest = slice_from(bytes, 2);
    proof { lemma_address_from_len(rest@); }
    let (destination, n) = match read_address(rest) {
        Ok(x) => x,
        Err(e) => return Err(e),
    };
    if len - 2 < n + 1 {
        return Err(SocksError::Incomplete(n + 1 - (len - 2)));
    }
    let rest = slice_from(bytes, 3 + n);
    let (options, m) = match read_options(rest) {
        Ok(x) => x,
        Err(e) => return Err(e),
    };
    proof { crate::socks6::options::lemma_options_from_len(rest@); }
    let ghost opts = options_view(options@);
    let mut initial_data_length: u16 = 0;
    let mut metadata: HashMap<u16, String> = HashMap::new();
    let mut i: usize = 0;
    while i < options.len()
        invariant
            i <= options@.len(),
            opts == options_view(options@),
            initial_data_length == initial_data_length_of(opts.take(i as int)),
            metadata@.map_values(|s: String| s@) =~= metadata_of(opts.take(i as int)),
        decreases options@.len() - i,
    {
        assert(opts.take(i + 1).drop_last() =~= opts.take(i as int));
        assert(opts.take(i + 1).last() == options@[i as int]@);
        match &options[i] {
            SocksOption::AuthMethodAdvertisement(advertisement) => {
                initial_data_length = advertisement.initial_data_length;
            },
            SocksOption::Metadata(key_value) => {
                metadata.insert(key_value.key, key_value.value.clone());
            },
            _ => {},
        }
        i = i + 1;
    }
    assert(opts.take(i as int) =~= opts);
    assert(3 + n + m <= len);
    let request = Socks6Request {
        command: SocksCommand::Connect,
        destination,
        initial_data_length,
        options,
        metadata,
    };
    Ok((request, 3 + n + m))
}

/// The suffix of `bytes` from `from` on.
fn slice_from(bytes: &[u8], from: usize) -> (r: &[u8])
    requires
        from <= bytes@.len(),
    ensures
        r@ == bytes@.subrange(from as int, bytes@.len() as int),
{
    vstd::slice::slice_subrange(bytes, from, bytes.len())
}

/// The authentication reply of a server that lets the client in without
/// authentication: version, success, and no options.
pub open spec fn no_authentication_bytes() -> Seq<u8> {
    seq![SOCKS_VER_6, SOCKS_AUTH_SUCCESS, 0x00u8, 0x00u8]
}

/// The authentication reply that admits a client without authentication.
pub fn write_no_authentication() -> (r: Vec<u8>)
    ensures
        r@ == no_authentication_bytes(),
{
    let mut r: Vec<u8> = Vec::new();
    r.push(SOCKS_VER_6);
    r.push(SOCKS_AUTH_SUCCESS);
    r.push(0x00);
    r.push(0x00);
    assert(r@ =~= no_authentication_bytes());
    r
}

/// Decoding an authentication reply from the front of `s`: version 6,
/// status success, then the options. Gives the options and the number of
/// bytes taken.
pub open spec fn no_authentication_from(s: Seq<u8>) -> Result<(Seq<SocksOptionView>, nat), SocksError> {
    if s.len() < 1 {
        Err(SocksError::Incomplete(1))
    } else if s[0] != SOCKS_VER_6 {
        Err(SocksError::VersionMismatch(s[0]))
    } else if s.len() < 2 {
        Err(SocksError::Incomplete(1))
    } else if s[1] != SOCKS_AUTH_SUCCESS {
        Err(SocksError::AuthenticationFailed(s[1]))
    } else {
        match options_from(s.subrange(2, s.len() as int)) {
            Err(e) => Err(e),
            Ok((options, m)) => Ok((options, 2 + m)),
        }
    }
}

/// The view of an option-list result.
pub open spec fn options_list_result_view(r: Result<(Vec<SocksOption>, usize), SocksError>) -> Result<
    (Seq<SocksOptionView>, nat),
    SocksError,
> {
    match r {
        Ok((v, n)) => Ok((options_view(v@), n as nat)),
        Err(e) => Err(e),
    }
}

/// Decodes an authentication reply that admits the client, from the front
/// of `bytes`: gives its options and the number of bytes taken.
pub fn read_no_authentication(bytes: &[u8]) -> (r: Result<(Vec<SocksOption>, usize), SocksError>)
    ensures
        options_list_result_view(r) == no_authentication_from(bytes@),
{
    let len = bytes.len();
    if len < 1 {
        return Err(SocksError::Incomplete(1));
    }
    if bytes[0] != SOCKS_VER_6 {
        return Err(SocksError::VersionMismatch(bytes[0]));
    }
    if len < 2 {
        return Err(SocksError::Incomplete(1));
    }
    if bytes[1] != SOCKS_AUTH_SUCCESS {
        return Err(SocksError::AuthenticationFailed(bytes[1]));
    }
    let rest = slice_from(bytes, 2);
    proof { crate::socks6::options::lemma_options_from_len(rest@); }
    match read_options(rest) {
        Ok((options, m)) => Ok((options, 2 + m)),
        Err(e) => Err(e),
    }
}

/// An operation reply on the wire: version, code, padding, then an empty
/// IPv4 binding (0.0.0.0:0) and no options.
pub open spec fn reply_bytes(reply: SocksReply) -> Seq<u8> {
    seq![
        SOCKS_VER_6,
        reply.spec_code(),
        SOCKS_PADDING,
        SOCKS_ATYP_IPV4,
        0x00u8,
        0x00,
        0x00,
        0x00,
        0x00,
        0x00,
        0x00,
        0x00,
    ]
}

/// The operation reply with the given code.
pub fn write_reply(reply: SocksReply) -> (r: Vec<u8>)
    ensures
        r@ == reply_bytes(reply),
{
    let mut r: Vec<u8> = Vec::new();
    r.push(SOCKS_VER_6);
    r.push(reply.code());
    r.push(SOCKS_PADDING);
    r.push(SOCKS_ATYP_IPV4);
    let mut i: usize = 0;
    while i < 8
        invariant
            i <= 8,
            r@.len() == 4 + i,
            r@[0] == SOCKS_VER_6,
            r@[1] == reply.spec_code(),
            r@[2] == SOCKS_PADDING,
            r@[3] == SOCKS_ATYP_IPV4,
            forall|j: int| 4 <= j < r@.len() ==> r@[j] == 0,
        decreases 8 - i,
    {
        r.push(0x00);
        i = i + 1;
    }
    assert(r@ =~= reply_bytes(reply));
    r
}

/// Decoding an operation reply from the front of `s`: three header bytes
/// whose second, the code, must be success, then the binding address and
/// the options. Gives both and the number of bytes taken.
pub open spec fn reply_from(s: Seq<u8>) -> Result<(AddressView, Seq<SocksOptionView>, nat), SocksError> {
    if s.len() < 3 {
        Err(SocksError::Incomplete((3 - s.len()) as usize))
    } else if s[1] != SOCKS_REP_SUCCEEDED {
        Err(SocksError::OperationFailed(s[1]))
    } else {
        match address_from(s.subrange(3, s.len() as int)) {
            Err(e) => Err(e),
            Ok((binding, n)) => match options_from(s.subrange(3 + n as int, s.len() as int)) {
                Err(e) => Err(e),
                Ok((options, m)) => Ok((binding, options, 3 + n + m)),
            },
        }
    }
}

/// The view of a reply-decoding result.
pub open spec fn reply_result_view(r: Result<(Address, Vec<SocksOption>, usize), SocksError>) -> Result<
    (AddressView, Seq<SocksOptionView>, nat),
    SocksError,
> {
    match r {
        Ok((a, v, n)) => Ok((a@, options_view(v@), n as nat)),
        Err(e) => Err(e),
    }
}

/// Decodes an operation reply from the front of `bytes`: gives the binding,
/// the options and the number of bytes taken.
pub fn read_reply(bytes: &[u8]) -> (r: Result<(Address, Vec<SocksOption>, usize), SocksError>)
    ensures
        reply_result_view(r) == reply_from(bytes@),
{
    let len = bytes.len();
    if len < 3 {
        return Err(SocksError::Incomplete(3 - len));
    }
    let reply_code = bytes[1];
    if reply_code != SOCKS_REP_SUCCEEDED {
        return Err(SocksError::OperationFailed(reply_code));
    }
    let head = slice_from(bytes, 3);
    proof { lemma_address_from_len(head@); }
    let (binding, n) = match read_address(head) {
        Ok(x) => x,
        Err(e) => return Err(e),
    };
    let rest = slice_from(bytes, 3 + n);
    proof { crate::socks6::options::lemma_options_from_len(rest@); }
    let (options, m) = match read_options(rest) {
        Ok(x) => x,
        Err(e) => return Err(e),
    };
    Ok((binding, options, 3 + n + m))
}

/// An encoded request decodes to its destination and its options (up to
/// the padding of raw option data), whatever bytes follow it; its initial
/// data length and metadata are those the options carry.
pub proof fn lemma_request_roundtrip(
    destination: AddressView,
    options: Seq<SocksOptionView>,
    rest: Seq<u8>,
)
    requires
        address_roundtrips(destination),
        forall|i: int| 0 <= i < options.len() ==> option_roundtrips(#[trigger] options[i]),
        options_bytes(options).len() <= 0xFFFF,
    ensures
        ({
            let decoded = options.map_values(|o: SocksOptionView| option_after_roundtrip(o));
            request_from(request_bytes(destination, options) + rest) == Ok::<
                (Socks6RequestView, nat),
                SocksError,
            >(
                (
                    Socks6RequestView {
                        command: SocksCommand::Connect,
                        destination,
                        initial_data_length: initial_data_length_of(decoded),
                        options: decoded,
                        metadata: metadata_of(decoded),
                    },
                    request_bytes(destination, options).len(),
                ),
            )
        }),
{
    let ab = address_bytes(destination);
    let ob = options_bytes(options);
    let l = ob.len();
    let tail = seq![SOCKS_PADDING] + be_u16(l as u16) + ob + rest;
    let s = request_bytes(destination, options) + rest;
    assert(s =~= seq![SOCKS_VER_6, SOCKS_CMD_CONNECT] + ab + tail);
    assert(s.subrange(2, s.len() as int) =~= ab + tail);
    lemma_address_roundtrip(destination, tail);
    let n = ab.len() as int;
    assert(s.subrange(3 + n, s.len() as int) =~= be_u16(l as u16) + ob + rest);
    lemma_options_roundtrip(options, rest);
}

/// An operation reply decodes to the empty IPv4 binding and no options when
/// it reports success, and to the failure code otherwise.
pub proof fn lemma_reply_roundtrip(reply: SocksReply, rest: Seq<u8>)
    ensures
        reply_from(reply_bytes(reply) + rest) == (if reply == SocksReply::Success {
            Ok::<(AddressView, Seq<SocksOptionView>, nat), SocksError>(
                (
                    AddressView::Ip(SocketAddress { ip: IpAddress::V4([0, 0, 0, 0]), port: 0 }),
                    Seq::empty(),
                    12,
                ),
            )
        } else {
            Err(SocksError::OperationFailed(reply.spec_code()))
        }),
{
    reveal(address_from);
    reveal(crate::socks6::options::options_from);
    let s = reply_bytes(reply) + rest;
    if reply == SocksReply::Success {
        let a = s.subrange(3, s.len() as int);
        assert(a[0] == SOCKS_ATYP_IPV4);
        assert([a[1], a[2], a[3], a[4]] =~= [0u8, 0, 0, 0]);
        let o = s.subrange(10, s.len() as int);
        assert(o[0] == 0 && o[1] == 0);
        assert(s.subrange(3 + 7int, s.len() as int) == o);
    }
}

/// The reply that admits a client without authentication decodes to an
/// admission without options.
pub proof fn lemma_no_authentication_roundtrip(rest: Seq<u8>)
    ensures
        no_authentication_from(no_authentication_bytes() + rest) == Ok::<
            (Seq<SocksOptionView>, nat),
            SocksError,
        >((Seq::empty(), 4)),
{
    reveal(crate::socks6::options::options_from);
    let s = no_authentication_bytes() + rest;
    let o = s.subrange(2, s.len() as int);
    assert(o[0] == 0 && o[1] == 0);
}

/// Where a server connects a request: straight to the destination, or
/// through a proxy.
#[derive(Clone, Debug, PartialEq, Eq)]
pub enum Route {
    Direct,
    Proxy(ProxyAddress),
}

/// A SOCKS6 server with the static chain of proxies it forwards through.
#[derive(Clone, Debug)]
pub struct Socks6Handler {
    pub static_links: Vec<ProxyAddress>,
}

impl Socks6Handler {
    pub fn new(static_links: Vec<ProxyAddress>) -> (r: Self)
        ensures
            r.static_links == static_links,
    {
        Socks6Handler { static_links }
    }

    /// A server without a chain.
    pub fn default() -> (r: Self)
        ensures
            r.static_links@.len() == 0,
    {
        Self::new(Vec::new())
    }

    /// How a request is connected: directly when the chain is empty,
    /// through its only proxy otherwise. Chains of more than one proxy are
    /// not supported.
    pub fn route(&self) -> (r: Route)
        requires
            self.static_links@.len() <= 1,
        ensures
            self.static_links@.len() == 0 ==> r is Direct,
            self.static_links@.len() == 1 ==> (r matches Route::Proxy(p) && p@ == self.static_links@[0]@),
    {
        if self.static_links.len() == 1 {
            Route::Proxy(self.static_links[0].clone())
        } else {
            Route::Direct
        }
    }
}

impl View for Route {
    type V = Option<ProxyAddressView>;

    /// `None` for a direct connection, the proxy otherwise.
    open spec fn view(&self) -> Option<ProxyAddressView> {
        match self {
            Route::Direct => None,
            Route::Proxy(p) => Some(p@),
        }
    }
}

/// One step of a server's setup of a request.
#[derive(Clone, Debug)]
pub enum SetupAction {
    /// Send these bytes to the client.
    Reply(Vec<u8>),
    /// Connect to the request's destination by this route.
    Connect(Route),
    /// Read this many bytes of initial data from the client and forward
    /// them to the destination.
    ForwardInitialData(u16),
}

/// The mathematical value of a setup step.
pub enum SetupActionView {
    Reply(Seq<u8>),
    Connect(Option<ProxyAddressView>),
    ForwardInitialData(u16),
}

impl View for SetupAction {
    type V = SetupActionView;

    open spec fn view(&self) -> SetupActionView {
        match self {
            SetupAction::Reply(b) => SetupActionView::Reply(b@),
            SetupAction::Connect(r) => SetupActionView::Connect(r@),
            SetupAction::ForwardInitialData(n) => SetupActionView::ForwardInitialData(*n),
        }
    }
}

/// A server's setup of a request, in order: admit the client without
/// authentication, connect to the destination (directly when the chain is
/// empty, through its only proxy otherwise), forward the announced initial
/// data when there is any, then report success.
pub open spec fn setup_plan(links: Seq<ProxyAddressView>, initial_data_length: u16) -> Seq<
    SetupActionView,
> {
    let route = if links.len() == 0 {
        None
    } else {
        Some(links[0])
    };
    let head = seq![
        SetupActionView::Reply(no_authentication_bytes()),
        SetupActionView::Connect(route),
    ];
    let forward = if initial_data_length > 0 {
        seq![SetupActionView::ForwardInitialData(initial_data_length)]
    } else {
        Seq::empty()
    };
    head + forward + seq![SetupActionView::Reply(reply_bytes(SocksReply::Success))]
}

/// The views of setup steps.
pub open spec fn actions_view(v: Seq<SetupAction>) -> Seq<SetupActionView> {
    v.map_values(|a: SetupAction| a@)
}

impl Socks6Handler {
    /// The steps by which this server sets up a request it has read.
    pub fn setup_actions(&self, request: &Socks6Request) -> (r: Vec<SetupAction>)
        requires
            self.static_links@.len() <= 1,
        ensures
            actions_view(r@) == setup_plan(
                links_view(self.static_links@),
                request.initial_data_length,
            ),
    {
        let mut actions: Vec<SetupAction> = Vec::new();
        actions.push(SetupAction::Reply(write_no_authentication()));
        actions.push(SetupAction::Connect(self.route()));
        if request.initial_data_length > 0 {
            actions.push(SetupAction::ForwardInitialData(request.initial_data_length));
        }
        actions.push(SetupAction::Reply(write_reply(SocksReply::Success)));
        let ghost links = links_view(self.static_links@);
        assert(links.len() > 0 ==> links[0] == self.static_links@[0]@);
        assert(actions_view(actions@) =~= setup_plan(links, request.initial_data_length));
        actions
    }
}

/// A decoded request's metadata holds a key exactly when one of its
/// metadata options carries it, and under each key the value of the last
/// metadata option that carries it.
pub proof fn lemma_request_metadata(s: Seq<u8>)
    ensures
        request_from(s) matches Ok((q, _)) ==> {
            &&& forall|k: u16|
                #![trigger q.metadata.dom().contains(k)]
                q.metadata.dom().contains(k) <==> exists|i: int|
                    0 <= i < q.options.len() && (#[trigger] q.options[i]) is Metadata
                        && q.options[i]->key == k
            &&& forall|i: int|
                0 <= i < q.options.len() && (#[trigger] q.options[i]) is Metadata && (forall|j: int|
                    i < j < q.options.len() ==> !(q.options[j] is Metadata && q.options[j]->key
                        == q.options[i]->key)) ==> q.metadata.dom().contains(q.options[i]->key)
                    && q.metadata[q.options[i]->key] == q.options[i]->value
        },
{
    if let Ok((q, _)) = request_from(s) {
        lemma_metadata_of(q.options);
    }
}

/// A server's setup, whatever its chain, takes these steps in this order:
/// it admits the client without authentication, connects (directly when
/// the chain is empty, through its first link otherwise), forwards the
/// announced initial data exactly when its length is positive, and reports
/// success last. Only the connection step depends on the chain.
pub proof fn lemma_setup_plan(links: Seq<ProxyAddressView>, other: Seq<ProxyAddressView>, n: u16)
    ensures
        ({
            let plan = setup_plan(links, n);
            &&& plan.len() == if n > 0 { 4int } else { 3int }
            &&& plan[0] == SetupActionView::Reply(seq![SOCKS_VER_6, SOCKS_AUTH_SUCCESS, 0x00u8, 0x00u8])
            &&& plan[1] == SetupActionView::Connect(if links.len() == 0 { None } else { Some(links[0]) })
            &&& n > 0 ==> plan[2] == SetupActionView::ForwardInitialData(n)
            &&& (forall|i: int| 0 <= i < plan.len() && (#[trigger] plan[i]) is ForwardInitialData
                ==> n > 0 && plan[i] == SetupActionView::ForwardInitialData(n))
            &&& plan[plan.len() - 1] == SetupActionView::Reply(
                seq![SOCKS_VER_6, 0x00u8, SOCKS_PADDING, SOCKS_ATYP_IPV4, 0x00u8, 0x00u8, 0x00u8, 0x00u8, 0x00u8, 0x00u8, 0x00u8, 0x00u8],
            )
            &&& setup_plan(other, n).len() == plan.len()
            &&& forall|i: int| 2 <= i < plan.len() ==> #[trigger] setup_plan(other, n)[i] == plan[i]
        }),
{
    let plan = setup_plan(links, n);
    assert(reply_bytes(SocksReply::Success) =~= seq![SOCKS_VER_6, 0x00u8, SOCKS_PADDING, SOCKS_ATYP_IPV4, 0x00u8, 0x00u8, 0x00u8, 0x00u8, 0x00u8, 0x00u8, 0x00u8, 0x00u8]);
}

} // verus!
