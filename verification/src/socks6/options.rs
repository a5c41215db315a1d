//! SOCKS6 options: their values, their wire encoding (kind, length, data,
//! padding to a multiple of four bytes) and the decoding of their data.
use vstd::prelude::*;
use vstd::utf8::*;
use crate::constants::{SOCKS_OKIND_AUTH_METH_ADV, SOCKS_OKIND_AUTH_METH_SEL, SOCKS_OKIND_METADATA};
use crate::error::SocksError;
use crate::text::{string_bytes, string_from_utf8, utf8_len, utf8_of};
use crate::wire::{be_to_u16, be_u16, copy_range, push_all, push_zeros, u16_from_be, u16_to_be, zeros};

verus! {

/// An authentication method as SOCKS numbers it.
#[derive(Clone, Copy, Debug, PartialEq, Eq, Structural)]
pub enum AuthMethod {
    NoAuthentication,
    Gssapi,
    UsernamePassword,
    NoAcceptableMethods,
}

impl AuthMethod {
    /// The method's number on the wire.
    pub open spec fn spec_code(self) -> u8 {
        match self {
            AuthMethod::NoAuthentication => 0x00,
            AuthMethod::Gssapi => 0x01,
            AuthMethod::UsernamePassword => 0x02,
            AuthMethod::NoAcceptableMethods => 0xFF,
        }
    }

    /// The method that `b` numbers, if any.
    pub open spec fn spec_from_u8(b: u8) -> Option<AuthMethod> {
        if b == 0x00 {
            Some(AuthMethod::NoAuthentication)
        } else if b == 0x01 {
            Some(AuthMethod::Gssapi)
        } else if b == 0x02 {
            Some(AuthMethod::UsernamePassword)
        } else if b == 0xFF {
            Some(AuthMethod::NoAcceptableMethods)
        } else {
            None
        }
    }

    pub fn code(&self) -> (r: u8)
        ensures
            r == self.spec_code(),
    {
        match self {
            AuthMethod::NoAuthentication => 0x00,
            AuthMethod::Gssapi => 0x01,
            AuthMethod::UsernamePassword => 0x02,
            AuthMethod::NoAcceptableMethods => 0xFF,
        }
    }

    pub fn from_u8(b: u8) -> (r: Option<AuthMethod>)
        ensures
            r == Self::spec_from_u8(b),
    {
        if b == 0x00 {
            Some(AuthMethod::NoAuthentication)
        } else if b == 0x01 {
            Some(AuthMethod::Gssapi)
        } else if b == 0x02 {
            Some(AuthMethod::UsernamePassword)
        } else if b == 0xFF {
            Some(AuthMethod::NoAcceptableMethods)
        } else {
            None
        }
    }

    /// Numbering a method and reading the number back gives the method.
    pub proof fn lemma_code_roundtrip(self)
        ensures
            Self::spec_from_u8(self.spec_code()) == Some(self),
    {
    }
}

/// A SOCKS6 option, by kind.
#[derive(Clone, Debug, PartialEq, Eq)]
pub enum SocksOption {
    AuthMethodAdvertisement(AuthMethodAdvertisementOption),
    AuthMethodSelection(AuthMethodSelectionOption),
    Metadata(MetadataOption),
    Unrecognized(UnrecognizedOption),
}

/// The mathematical value of an option.
pub enum SocksOptionView {
    AuthMethodAdvertisement { initial_data_length: u16, methods: Seq<AuthMethod> },
    AuthMethodSelection { method: AuthMethod },
    Metadata { key: u16, value: Seq<char> },
    Unrecognized { kind: u16, data: Seq<u8> },
}

/// Advertises the initial data length and the authentication methods a client offers.
#[derive(Clone, Debug, PartialEq, Eq)]
pub struct AuthMethodAdvertisementOption {
    pub initial_data_length: u16,
    pub methods: Vec<AuthMethod>,
}

/// Selects the authentication method a server chose.
#[derive(Clone, Debug, PartialEq, Eq)]
pub struct AuthMethodSelectionOption {
    pub method: AuthMethod,
}

/// A key/value pair of metadata (option kind 65000).
#[derive(Clone, Debug, PartialEq, Eq)]
pub struct MetadataOption {
    pub key: u16,
    pub value: String,
}

/// An option of a kind this library does not interpret, kept as raw data.
#[derive(Clone, Debug, PartialEq, Eq)]
pub struct UnrecognizedOption {
    pub kind: u16,
    pub data: Vec<u8>,
}

impl View for SocksOption {
    type V = SocksOptionView;

    open spec fn view(&self) -> SocksOptionView {
        match self {
            SocksOption::AuthMethodAdvertisement(o) => SocksOptionView::AuthMethodAdvertisement {
                initial_data_length: o.initial_data_length,
                methods: o.methods@,
            },
            SocksOption::AuthMethodSelection(o) => SocksOptionView::AuthMethodSelection {
                method: o.method,
            },
            SocksOption::Metadata(o) => SocksOptionView::Metadata { key: o.key, value: o.value@ },
            SocksOption::Unrecognized(o) => SocksOptionView::Unrecognized {
                kind: o.kind,
                data: o.data@,
            },
        }
    }
}

/// The view of a decoding result.
pub open spec fn option_result_view(r: Result<SocksOption, SocksError>) -> Result<SocksOptionView, SocksError> {
    match r {
        Ok(o) => Ok(o@),
        Err(e) => Err(e),
    }
}

/// Number of padding bytes after an option of `data_len` data bytes:
/// between one and four, so that the option fills a multiple of four bytes.
pub open spec fn padding_len(data_len: nat) -> nat {
    (4 - ((data_len + 4) % 4)) as nat
}

/// The value of an option's length field: kind, length, data and padding
/// bytes together, truncated to sixteen bits.
pub open spec fn option_length_field(data_len: nat) -> u16 {
    ((data_len + 4 + padding_len(data_len)) % 0x10000) as u16
}

/// An option on the wire: kind, length, data, then zero padding.
pub open spec fn padded_option(kind: u16, data: Seq<u8>) -> Seq<u8> {
    be_u16(kind) + be_u16(option_length_field(data.len())) + data + zeros(padding_len(data.len()))
}

/// The data bytes of an advertisement option.
pub open spec fn advertisement_data(initial_data_length: u16, methods: Seq<AuthMethod>) -> Seq<u8> {
    be_u16(initial_data_length) + methods.map_values(|m: AuthMethod| m.spec_code())
}

/// The data bytes of a metadata option: key, value length (truncated to
/// sixteen bits), then the value's UTF-8 bytes.
pub open spec fn metadata_data(key: u16, value: Seq<char>) -> Seq<u8> {
    be_u16(key) + be_u16((utf8_of(value).len() % 0x10000) as u16) + utf8_of(value)
}

/// The kind number and data bytes of an option.
pub open spec fn option_kind_and_data(o: SocksOptionView) -> (u16, Seq<u8>) {
    match o {
        SocksOptionView::AuthMethodAdvertisement { initial_data_length, methods } => (
            SOCKS_OKIND_AUTH_METH_ADV,
            advertisement_data(initial_data_length, methods),
        ),
        SocksOptionView::AuthMethodSelection { method } => (
            SOCKS_OKIND_AUTH_METH_SEL,
            seq![method.spec_code()],
        ),
        SocksOptionView::Metadata { key, value } => (SOCKS_OKIND_METADATA, metadata_data(key, value)),
        SocksOptionView::Unrecognized { kind, data } => (kind, data),
    }
}

/// The wire bytes of an option.
#[verifier::opaque]
pub open spec fn option_bytes(o: SocksOptionView) -> Seq<u8> {
    padded_option(option_kind_and_data(o).0, option_kind_and_data(o).1)
}

/// Whether an option's encoding can be built in memory.
pub open spec fn option_encodable(o: SocksOptionView) -> bool {
    option_bytes(o).len() <= usize::MAX
}

/// The methods an advertisement's trailing bytes name: the bytes 1 and 2
/// (GSSAPI and username/password) in order; "no authentication" (implied)
/// and padding are skipped.
pub open spec fn advertised_methods(bytes: Seq<u8>) -> Seq<AuthMethod>
    decreases bytes.len(),
{
    if bytes.len() == 0 {
        Seq::empty()
    } else {
        let prev = advertised_methods(bytes.drop_last());
        let m = bytes.last();
        if 0 < m && m < 3 {
            prev.push(AuthMethod::spec_from_u8(m).unwrap())
        } else {
            prev
        }
    }
}

/// What decoding an advertisement's data gives.
pub open spec fn advertisement_from(bytes: Seq<u8>) -> Result<SocksOptionView, SocksError> {
    if bytes.len() < 2 {
        Err(SocksError::OptionTooShort)
    } else {
        Ok(
            SocksOptionView::AuthMethodAdvertisement {
                initial_data_length: u16_from_be(bytes[0], bytes[1]),
                methods: advertised_methods(bytes.subrange(2, bytes.len() as int)),
            },
        )
    }
}

/// What decoding a method selection's data gives.
pub open spec fn selection_from(bytes: Seq<u8>) -> Result<SocksOptionView, SocksError> {
    if bytes.len() != 4 {
        Err(SocksError::OptionLengthMismatch)
    } else {
        match AuthMethod::spec_from_u8(bytes[0]) {
            Some(m) => Ok(SocksOptionView::AuthMethodSelection { method: m }),
            None => Err(SocksError::InvalidAuthMethodSelection(bytes[0])),
        }
    }
}

/// The value length a metadata option's data declares.
pub open spec fn metadata_declared_len(bytes: Seq<u8>) -> nat {
    u16_from_be(bytes[2], bytes[3]) as nat
}

/// Whether a metadata option's data can be decoded without reading past
/// its end: at least four bytes, and the declared value fits.
pub open spec fn metadata_in_bounds(bytes: Seq<u8>) -> bool {
    bytes.len() >= 4 ==> metadata_declared_len(bytes) + 4 <= bytes.len()
}

/// What decoding a metadata option's data gives.
pub open spec fn metadata_from(bytes: Seq<u8>) -> Result<SocksOptionView, SocksError> {
    if bytes.len() < 4 {
        Err(SocksError::OptionTooShort)
    } else {
        let value = bytes.subrange(4, metadata_declared_len(bytes) as int + 4);
        if valid_utf8(value) {
            Ok(
                SocksOptionView::Metadata {
                    key: u16_from_be(bytes[0], bytes[1]),
                    value: decode_utf8(value),
                },
            )
        } else {
            Err(SocksError::InvalidMetadataUtf8)
        }
    }
}

/// Builds an option on the wire from its kind and data: kind, total length,
/// data, then one to four zero bytes so that the total is a multiple of four.
pub fn combine_and_pad(kind: u16, data: Vec<u8>) -> (r: Vec<u8>)
    requires
        data@.len() + 4 + padding_len(data@.len()) <= usize::MAX,
    ensures
        r@ == padded_option(kind, data@),
{
    let option_length = data.len() + 2 + 2;
    let padding = 4 - (option_length % 4);
    let total = option_length + padding;
    let total_length: u16 = (total % 0x10000) as u16;

    let mut bytes: Vec<u8> = Vec::new();
    push_all(&mut bytes, &u16_to_be(kind));
    push_all(&mut bytes, &u16_to_be(total_length));
    push_all(&mut bytes, data.as_slice());
    push_zeros(&mut bytes, padding);
    bytes
}

impl SocksOption {
    /// An option given by its kind and raw data.
    pub fn new(kind: u16, data: Vec<u8>) -> (r: SocksOption)
        ensures
            r@ == (SocksOptionView::Unrecognized { kind, data: data@ }),
    {
        UnrecognizedOption::new(kind, data)
    }

    /// The option on the wire.
    pub fn as_socks_bytes(&self) -> (r: Vec<u8>)
        requires
            option_encodable(self@),
        ensures
            r@ == option_bytes(self@),
    {
        proof { reveal(option_bytes); }
        match self {
            SocksOption::AuthMethodAdvertisement(option) => option.encode(),
            SocksOption::AuthMethodSelection(option) => option.encode(),
            SocksOption::Metadata(option) => option.encode(),
            SocksOption::Unrecognized(option) => option.encode(),
        }
    }
}

impl AuthMethodAdvertisementOption {
    pub fn new(initial_data_length: u16, methods: Vec<AuthMethod>) -> (r: SocksOption)
        ensures
            r@ == (SocksOptionView::AuthMethodAdvertisement {
                initial_data_length,
                methods: methods@,
            }),
    {
        SocksOption::AuthMethodAdvertisement(Self { initial_data_length, methods })
    }

    /// Decodes an advertisement's data: the initial data length, then the
    /// methods, of which only GSSAPI and username/password are kept.
    pub fn from_socks_bytes(bytes: Vec<u8>) -> (r: Result<SocksOption, SocksError>)
        ensures
            option_result_view(r) == advertisement_from(bytes@),
    {
        if bytes.len() < 2 {
            return Err(SocksError::OptionTooShort);
        }
        let initial_data_length = be_to_u16(bytes[0], bytes[1]);

        let mut methods: Vec<AuthMethod> = Vec::new();
        let mut i: usize = 2;
        while i < bytes.len()
            invariant
                2 <= i <= bytes@.len(),
                methods@ == advertised_methods(bytes@.subrange(2, i as int)),
            decreases bytes@.len() - i,
        {
            let m = bytes[i];
            assert(bytes@.subrange(2, i + 1).drop_last() =~= bytes@.subrange(2, i as int));
            if m > 0 && m < 3 {
                match AuthMethod::from_u8(m) {
                    Some(method) => methods.push(method),
                    None => {},
                }
            }
            i = i + 1;
        }
        assert(bytes@.subrange(2, i as int) =~= bytes@.subrange(2, bytes@.len() as int));
        Ok(Self::new(initial_data_length, methods))
    }

    /// The option on the wire.
    pub fn into_socks_bytes(self) -> (r: Vec<u8>)
        requires
            2 + self.methods@.len() + 4 + padding_len(2 + self.methods@.len()) <= usize::MAX,
        ensures
            r@ == padded_option(
                SOCKS_OKIND_AUTH_METH_ADV,
                advertisement_data(self.initial_data_length, self.methods@),
            ),
    {
        self.encode()
    }

    fn encode(&self) -> (r: Vec<u8>)
        requires
            2 + self.methods@.len() + 4 + padding_len(2 + self.methods@.len()) <= usize::MAX,
        ensures
            r@ == padded_option(
                SOCKS_OKIND_AUTH_METH_ADV,
                advertisement_data(self.initial_data_length, self.methods@),
            ),
    {
        let mut data: Vec<u8> = Vec::new();
        push_all(&mut data, &u16_to_be(self.initial_data_length));
        let ghost head = data@;
        let mut i: usize = 0;
        while i < self.methods.len()
            invariant
                i <= self.methods@.len(),
                head == be_u16(self.initial_data_length),
                data@ == head + self.methods@.subrange(0, i as int).map_values(
                    |m: AuthMethod| m.spec_code(),
                ),
            decreases self.methods@.len() - i,
        {
            data.push(self.methods[i].code());
            i = i + 1;
            assert(data@ =~= head + self.methods@.subrange(0, i as int).map_values(
                |m: AuthMethod| m.spec_code(),
            ));
        }
        assert(self.methods@.subrange(0, i as int) =~= self.methods@);
        combine_and_pad(SOCKS_OKIND_AUTH_METH_ADV, data)
    }
}

impl AuthMethodSelectionOption {
    pub fn new(method: AuthMethod) -> (r: SocksOption)
        ensures
            r@ == (SocksOptionView::AuthMethodSelection { method }),
    {
        SocksOption::AuthMethodSelection(Self { method })
    }

    /// Decodes a method selection's data: exactly four bytes, the first of
    /// which names a known method.
    pub fn from_socks_bytes(bytes: Vec<u8>) -> (r: Result<SocksOption, SocksError>)
        ensures
            option_result_view(r) == selection_from(bytes@),
    {
        if bytes.len() != 4 {
            return Err(SocksError::OptionLengthMismatch);
        }
        let method = bytes[0];
        match AuthMethod::from_u8(method) {
            Some(method) => Ok(Self::new(method)),
            None => Err(SocksError::InvalidAuthMethodSelection(method)),
        }
    }

    /// The option on the wire.
    pub fn into_socks_bytes(self) -> (r: Vec<u8>)
        ensures
            r@ == padded_option(SOCKS_OKIND_AUTH_METH_SEL, seq![self.method.spec_code()]),
    {
        self.encode()
    }

    fn encode(&self) -> (r: Vec<u8>)
        ensures
            r@ == padded_option(SOCKS_OKIND_AUTH_METH_SEL, seq![self.method.spec_code()]),
    {
        let mut data: Vec<u8> = Vec::new();
        data.push(self.method.code());
        assert(data@ =~= seq![self.method.spec_code()]);
        combine_and_pad(SOCKS_OKIND_AUTH_METH_SEL, data)
    }
}

impl MetadataOption {
    pub fn new(key: u16, value: String) -> (r: SocksOption)
        ensures
            r@ == (SocksOptionView::Metadata { key, value: value@ }),
    {
        SocksOption::Metadata(Self { key, value })
    }

    /// Decodes a metadata option's data: key, value length, then the value,
    /// which must be UTF-8.
    pub fn from_socks_bytes(bytes: Vec<u8>) -> (r: Result<SocksOption, SocksError>)
        requires
            metadata_in_bounds(bytes@),
        ensures
            option_result_view(r) == metadata_from(bytes@),
    {
        if bytes.len() < 4 {
            return Err(SocksError::OptionTooShort);
        }
        let key = be_to_u16(bytes[0], bytes[1]);
        let length = be_to_u16(bytes[2], bytes[3]);
        let value = copy_range(bytes.as_slice(), 4, (length as usize) + 4);
        match string_from_utf8(value) {
            Ok(value) => Ok(Self::new(key, value)),
            Err(_) => Err(SocksError::InvalidMetadataUtf8),
        }
    }

    /// The option on the wire.
    pub fn into_socks_bytes(self) -> (r: Vec<u8>)
        requires
            4 + utf8_of(self.value@).len() + 4 + padding_len(4 + utf8_of(self.value@).len()) <= usize::MAX,
        ensures
            r@ == padded_option(SOCKS_OKIND_METADATA, metadata_data(self.key, self.value@)),
    {
        self.encode()
    }

    fn encode(&self) -> (r: Vec<u8>)
        requires
            4 + utf8_of(self.value@).len() + 4 + padding_len(4 + utf8_of(self.value@).len()) <= usize::MAX,
        ensures
            r@ == padded_option(SOCKS_OKIND_METADATA, metadata_data(self.key, self.value@)),
    {
        let value = string_bytes(&self.value);
        let value_length: u16 = (value.len() % 0x10000) as u16;
        let mut data: Vec<u8> = Vec::new();
        push_all(&mut data, &u16_to_be(self.key));
        push_all(&mut data, &u16_to_be(value_length));
        push_all(&mut data, value.as_slice());
        combine_and_pad(SOCKS_OKIND_METADATA, data)
    }
}

impl UnrecognizedOption {
    pub fn new(kind: u16, data: Vec<u8>) -> (r: SocksOption)
        ensures
            r@ == (SocksOptionView::Unrecognized { kind, data: data@ }),
    {
        SocksOption::Unrecognized(Self { kind, data })
    }

    /// The option on the wire.
    pub fn into_socks_bytes(self) -> (r: Vec<u8>)
        requires
            self.data@.len() + 4 + padding_len(self.data@.len()) <= usize::MAX,
        ensures
            r@ == padded_option(self.kind, self.data@),
    {
        self.encode()
    }

    fn encode(&self) -> (r: Vec<u8>)
        requires
            self.data@.len() + 4 + padding_len(self.data@.len()) <= usize::MAX,
        ensures
            r@ == padded_option(self.kind, self.data@),
    {
        combine_and_pad(self.kind, copy_range(self.data.as_slice(), 0, self.data.len()))
    }
}

} // verus!

verus! {

/// What decoding the data of an option of kind `kind` gives.
pub open spec fn decode_option_spec(kind: u16, data: Seq<u8>) -> Result<SocksOptionView, SocksError> {
    if kind == SOCKS_OKIND_AUTH_METH_ADV {
        advertisement_from(data)
    } else if kind == SOCKS_OKIND_AUTH_METH_SEL {
        selection_from(data)
    } else if kind == SOCKS_OKIND_METADATA {
        if metadata_in_bounds(data) {
            metadata_from(data)
        } else {
            Err(SocksError::MalformedOption)
        }
    } else {
        Ok(SocksOptionView::Unrecognized { kind, data })
    }
}

/// Decoding the options that start at `pos` in `s`, `read` of the `total`
/// announced option bytes having been read: each option's four-byte header,
/// then its data, until the bytes read reach the total. Gives the options
/// and the position after the last one.
pub open spec fn option_list_from(s: Seq<u8>, pos: nat, read: nat, total: nat) -> Result<
    (Seq<SocksOptionView>, nat),
    SocksError,
>
    decreases 0x10000 - read,
{
    if read >= total {
        Ok((Seq::empty(), pos))
    } else if s.len() < pos + 4 {
        Err(SocksError::Incomplete((pos + 4 - s.len()) as usize))
    } else {
        let p = pos as int;
        let kind = u16_from_be(s[p], s[p + 1]);
        let length = u16_from_be(s[p + 2], s[p + 3]) as nat;
        if length < 4 {
            Err(SocksError::MalformedOption)
        } else if s.len() < pos + length {
            Err(SocksError::Incomplete((pos + length - s.len()) as usize))
        } else {
            match decode_option_spec(kind, s.subrange(p + 4, p + length)) {
                Err(e) => Err(e),
                Ok(o) => if read + length > 0xFFFF {
                    Err(SocksError::MalformedOption)
                } else {
                    match option_list_from(s, pos + length, read + length, total) {
                        Ok((rest, end)) => Ok((seq![o] + rest, end)),
                        Err(e) => Err(e),
                    }
                },
            }
        }
    }
}

/// Decoding an option block: a two-byte total length, then the options.
/// Gives the options and the number of bytes they took.
#[verifier::opaque]
pub open spec fn options_from(s: Seq<u8>) -> Result<(Seq<SocksOptionView>, nat), SocksError> {
    if s.len() < 2 {
        Err(SocksError::Incomplete((2 - s.len()) as usize))
    } else {
        option_list_from(s, 2, 0, u16_from_be(s[0], s[1]) as nat)
    }
}

/// The views of a sequence of options.
pub open spec fn options_view(v: Seq<SocksOption>) -> Seq<SocksOptionView> {
    v.map_values(|o: SocksOption| o@)
}

/// The options one after another on the wire.
pub open spec fn options_bytes(opts: Seq<SocksOptionView>) -> Seq<u8>
    decreases opts.len(),
{
    if opts.len() == 0 {
        Seq::empty()
    } else {
        options_bytes(opts.drop_last()) + option_bytes(opts.last())
    }
}

/// The view of a list-decoding result.
pub open spec fn options_result_view(r: Result<(Vec<SocksOption>, usize), SocksError>) -> Result<
    (Seq<SocksOptionView>, nat),
    SocksError,
> {
    match r {
        Ok((v, n)) => Ok((options_view(v@), n as nat)),
        Err(e) => Err(e),
    }
}

/// The encoding of the first options is no longer than that of them all.
pub proof fn lemma_options_bytes_prefix(opts: Seq<SocksOptionView>, i: int)
    requires
        0 <= i <= opts.len(),
    ensures
        options_bytes(opts.take(i)).len() <= options_bytes(opts).len(),
    decreases opts.len(),
{
    if i < opts.len() {
        assert(opts.drop_last().take(i) =~= opts.take(i));
        lemma_options_bytes_prefix(opts.drop_last(), i);
    } else {
        assert(opts.take(i) =~= opts);
    }
}

/// Decodes the data of an option of kind `kind`.
pub fn decode_option(kind: u16, data: Vec<u8>) -> (r: Result<SocksOption, SocksError>)
    ensures
        option_result_view(r) == decode_option_spec(kind, data@),
{
    if kind == SOCKS_OKIND_AUTH_METH_ADV {
        AuthMethodAdvertisementOption::from_socks_bytes(data)
    } else if kind == SOCKS_OKIND_AUTH_METH_SEL {
        AuthMethodSelectionOption::from_socks_bytes(data)
    } else if kind == SOCKS_OKIND_METADATA {
        if data.len() >= 4 && (be_to_u16(data[2], data[3]) as usize) + 4 > data.len() {
            Err(SocksError::MalformedOption)
        } else {
            MetadataOption::from_socks_bytes(data)
        }
    } else {
        Ok(UnrecognizedOption::new(kind, data))
    }
}

/// Decodes an option block from the front of `bytes`: the two-byte total
/// length, then options until that many bytes are read. Gives the options
/// and the number of bytes consumed, or how many more bytes are needed.
pub fn read_options(bytes: &[u8]) -> (r: Result<(Vec<SocksOption>, usize), SocksError>)
    ensures
        options_result_view(r) == options_from(bytes@),
{
    reveal(options_from);
    let ghost s = bytes@;
    if bytes.len() < 2 {
        return Err(SocksError::Incomplete(2 - bytes.len()));
    }
    let total = be_to_u16(bytes[0], bytes[1]) as usize;
    let mut options: Vec<SocksOption> = Vec::new();
    let mut pos: usize = 2;
    let mut read: usize = 0;
    while read < total
        invariant
            s == bytes@,
            s.len() >= 2,
            total == u16_from_be(s[0], s[1]) as nat,
            pos == read + 2,
            read <= 0xFFFF,
            pos <= s.len(),
            options_from(s) == (match option_list_from(s, pos as nat, read as nat, total as nat) {
                Ok((rest, end)) => Ok((options_view(options@) + rest, end)),
                Err(e) => Err(e),
            }),
        decreases 0x10000 - read,
    {
        if bytes.len() - pos < 4 {
            return Err(SocksError::Incomplete(pos + 4 - bytes.len()));
        }
        let kind = be_to_u16(bytes[pos], bytes[pos + 1]);
        let length = be_to_u16(bytes[pos + 2], bytes[pos + 3]) as usize;
        if length < 4 {
            return Err(SocksError::MalformedOption);
        }
        if bytes.len() - pos < length {
            return Err(SocksError::Incomplete(pos + length - bytes.len()));
        }
        let data = copy_range(bytes, pos + 4, pos + length);
        let option = match decode_option(kind, data) {
            Ok(option) => option,
            Err(e) => return Err(e),
        };
        if read + length > 0xFFFF {
            return Err(SocksError::MalformedOption);
        }
        let ghost before = options@;
        options.push(option);
        assert(options_view(options@) =~= options_view(before) + seq![option@]);
        proof {
            let v = option_list_from(s, (pos + length) as nat, (read + length) as nat, total as nat);
            match v {
                Ok((rest, end)) => {
                    assert(options_view(before) + (seq![option@] + rest) =~= options_view(options@) + rest);
                },
                Err(e) => {},
            }
        }
        pos = pos + length;
        read = read + length;
    }
    assert(options_view(options@) + Seq::<SocksOptionView>::empty() =~= options_view(options@));
    Ok((options, pos))
}

/// The length of an option on the wire with `d` data bytes, if it fits a
/// `usize`.
fn padded_len(d: usize) -> (r: Option<usize>)
    ensures
        r is Some <==> d + 4 + padding_len(d as nat) <= usize::MAX,
        r matches Some(n) ==> n == d + 4 + padding_len(d as nat),
{
    if d > usize::MAX - 4 {
        return None;
    }
    let t = d + 4;
    let pad = 4 - (t % 4);
    if t > usize::MAX - pad {
        None
    } else {
        Some(t + pad)
    }
}

/// The length of an option's wire form, if it fits a `usize`.
pub fn option_encoded_len(o: &SocksOption) -> (r: Option<usize>)
    ensures
        r is Some <==> option_encodable(o@),
        r matches Some(n) ==> n == option_bytes(o@).len(),
{
    proof { reveal(option_bytes); }
    match o {
        SocksOption::AuthMethodAdvertisement(a) => {
            if a.methods.len() > usize::MAX - 2 {
                None
            } else {
                padded_len(2 + a.methods.len())
            }
        },
        SocksOption::AuthMethodSelection(_) => padded_len(1),
        SocksOption::Metadata(m) => {
            let n = utf8_len(&m.value);
            if n > usize::MAX - 4 {
                None
            } else {
                padded_len(4 + n)
            }
        },
        SocksOption::Unrecognized(u) => padded_len(u.data.len()),
    }
}

/// The length of the options' wire form, if it fits a `usize`.
pub fn options_encoded_len(options: &Vec<SocksOption>) -> (r: Option<usize>)
    ensures
        r is Some <==> options_bytes(options_view(options@)).len() <= usize::MAX,
        r matches Some(n) ==> n == options_bytes(options_view(options@)).len(),
{
    let ghost all = options_view(options@);
    let mut total: usize = 0;
    let mut i: usize = 0;
    while i < options.len()
        invariant
            i <= options@.len(),
            all == options_view(options@),
            total == options_bytes(all.take(i as int)).len(),
        decreases options@.len() - i,
    {
        proof {
            lemma_options_bytes_prefix(all, i + 1);
            assert(all.take(i + 1).drop_last() =~= all.take(i as int));
            assert(all.take(i + 1).last() == options@[i as int]@);
        }
        let n = match option_encoded_len(&options[i]) {
            Some(n) => n,
            None => return None,
        };
        if n > usize::MAX - total {
            return None;
        }
        total = total + n;
        i = i + 1;
    }
    assert(all.take(i as int) =~= all);
    Some(total)
}

/// The options one after another on the wire.
pub fn options_as_bytes(options: &Vec<SocksOption>) -> (r: Vec<u8>)
    requires
        options_bytes(options_view(options@)).len() <= usize::MAX,
    ensures
        r@ == options_bytes(options_view(options@)),
{
    let ghost all = options_view(options@);
    let mut r: Vec<u8> = Vec::new();
    let mut i: usize = 0;
    while i < options.len()
        invariant
            i <= options@.len(),
            all == options_view(options@),
            options_bytes(all).len() <= usize::MAX,
            r@ == options_bytes(all.take(i as int)),
        decreases options@.len() - i,
    {
        proof {
            lemma_options_bytes_prefix(all, i + 1);
            assert(all.take(i + 1).drop_last() =~= all.take(i as int));
            assert(all.take(i + 1).last() == options@[i as int]@);
        }
        let bytes = options[i].as_socks_bytes();
        push_all(&mut r, bytes.as_slice());
        i = i + 1;
    }
    assert(all.take(i as int) =~= all);
    r
}

} // verus!

verus! {

/// What an option becomes once encoded and decoded again: the raw data of
/// an unrecognized option keeps the padding that followed it.
pub open spec fn option_after_roundtrip(o: SocksOptionView) -> SocksOptionView {
    match o {
        SocksOptionView::Unrecognized { kind, data } => SocksOptionView::Unrecognized {
            kind,
            data: data + zeros(padding_len(data.len())),
        },
        _ => o,
    }
}

/// Whether an option survives encoding and decoding: its encoding fits the
/// sixteen-bit length field, an advertisement names only GSSAPI or
/// username/password (the decoder drops the others), and an unrecognized
/// option does not carry the kind of a recognized one.
pub open spec fn option_roundtrips(o: SocksOptionView) -> bool {
    &&& option_bytes(o).len() <= 0xFFFF
    &&& match o {
        SocksOptionView::AuthMethodAdvertisement { methods, .. } => forall|i: int|
            0 <= i < methods.len() ==> (#[trigger] methods[i] == AuthMethod::Gssapi
                || methods[i] == AuthMethod::UsernamePassword),
        SocksOptionView::Unrecognized { kind, .. } => kind != SOCKS_OKIND_AUTH_METH_ADV && kind
            != SOCKS_OKIND_AUTH_METH_SEL && kind != SOCKS_OKIND_METADATA,
        _ => true,
    }
}

proof fn lemma_advertised_methods_zeros(x: Seq<u8>, k: nat)
    ensures
        advertised_methods(x + zeros(k)) == advertised_methods(x),
    decreases k,
{
    if k == 0 {
        assert(x + zeros(0) =~= x);
    } else {
        assert((x + zeros(k)).drop_last() =~= x + zeros((k - 1) as nat));
        lemma_advertised_methods_zeros(x, (k - 1) as nat);
    }
}

proof fn lemma_advertised_methods_codes(ms: Seq<AuthMethod>)
    requires
        forall|i: int|
            0 <= i < ms.len() ==> (#[trigger] ms[i] == AuthMethod::Gssapi || ms[i]
                == AuthMethod::UsernamePassword),
    ensures
        advertised_methods(ms.map_values(|m: AuthMethod| m.spec_code())) == ms,
    decreases ms.len(),
{
    let codes = ms.map_values(|m: AuthMethod| m.spec_code());
    if ms.len() == 0 {
        assert(codes =~= Seq::<u8>::empty());
    } else {
        let prev = ms.drop_last();
        assert(codes.drop_last() =~= prev.map_values(|m: AuthMethod| m.spec_code()));
        assert(forall|i: int| 0 <= i < prev.len() ==> prev[i] == ms[i]);
        lemma_advertised_methods_codes(prev);
        assert(ms[ms.len() - 1] == AuthMethod::Gssapi || ms[ms.len() - 1]
            == AuthMethod::UsernamePassword);
        assert(prev.push(ms.last()) =~= ms);
    }
}

/// Decoding the padded data of an encoded option gives the option back (up
/// to the padding of raw data).
pub proof fn lemma_option_roundtrip(o: SocksOptionView)
    requires
        option_roundtrips(o),
    ensures
        decode_option_spec(
            option_kind_and_data(o).0,
            option_kind_and_data(o).1 + zeros(padding_len(option_kind_and_data(o).1.len())),
        ) == Ok::<SocksOptionView, SocksError>(option_after_roundtrip(o)),
{
    let data = option_kind_and_data(o).1;
    let padded = data + zeros(padding_len(data.len()));
    reveal(option_bytes);
    match o {
        SocksOptionView::AuthMethodAdvertisement { initial_data_length, methods } => {
            let codes = methods.map_values(|m: AuthMethod| m.spec_code());
            assert(padded.len() >= 2);
            assert(padded[0] == be_u16(initial_data_length)[0]);
            assert(padded[1] == be_u16(initial_data_length)[1]);
            assert(padded.subrange(2, padded.len() as int) =~= codes + zeros(
                padding_len(data.len()),
            ));
            lemma_advertised_methods_zeros(codes, padding_len(data.len()));
            lemma_advertised_methods_codes(methods);
            assert(advertisement_from(padded) == Ok::<SocksOptionView, SocksError>(o));
        },
        SocksOptionView::AuthMethodSelection { method } => {
            method.lemma_code_roundtrip();
        },
        SocksOptionView::Metadata { key, value } => {
            let vb = utf8_of(value);
            vstd::utf8::encode_utf8_valid_utf8(value);
            vstd::utf8::encode_utf8_decode_utf8(value);
            assert(padded.subrange(4, 4 + vb.len() as int) =~= vb);
        },
        SocksOptionView::Unrecognized { kind, data } => {},
    }
}

proof fn lemma_options_bytes_cons(o: SocksOptionView, rest: Seq<SocksOptionView>)
    ensures
        options_bytes(seq![o] + rest) == option_bytes(o) + options_bytes(rest),
    decreases rest.len(),
{
    if rest.len() == 0 {
        assert(seq![o] + rest =~= seq![o]);
        assert(seq![o].drop_last() =~= Seq::<SocksOptionView>::empty());
        assert(options_bytes(Seq::<SocksOptionView>::empty()) =~= Seq::<u8>::empty());
        assert(options_bytes(seq![o]) =~= Seq::<u8>::empty() + option_bytes(o));
        assert(options_bytes(rest) =~= Seq::<u8>::empty());
        assert(option_bytes(o) + Seq::<u8>::empty() =~= option_bytes(o));
    } else {
        assert((seq![o] + rest).drop_last() =~= seq![o] + rest.drop_last());
        lemma_options_bytes_cons(o, rest.drop_last());
        assert(option_bytes(o) + options_bytes(rest.drop_last()) + option_bytes(rest.last())
            =~= option_bytes(o) + options_bytes(rest));
    }
}

#[verifier::spinoff_prover]
#[verifier::rlimit(40)]
proof fn lemma_option_list_roundtrip(
    s: Seq<u8>,
    pos: nat,
    read: nat,
    opts: Seq<SocksOptionView>,
)
    requires
        forall|i: int| 0 <= i < opts.len() ==> option_roundtrips(#[trigger] opts[i]),
        pos + options_bytes(opts).len() <= s.len(),
        s.subrange(pos as int, pos + options_bytes(opts).len() as int) == options_bytes(opts),
        read + options_bytes(opts).len() <= 0xFFFF,
    ensures
        option_list_from(s, pos, read, read + options_bytes(opts).len()) == Ok::<
            (Seq<SocksOptionView>, nat),
            SocksError,
        >((opts.map_values(|o: SocksOptionView| option_after_roundtrip(o)), pos + options_bytes(opts).len())),
    decreases opts.len(),
{
    let total = read + options_bytes(opts).len();
    if opts.len() == 0 {
        assert(opts.map_values(|o: SocksOptionView| option_after_roundtrip(o)) =~= Seq::<SocksOptionView>::empty());
    } else {
        let o = opts[0];
        let rest = opts.drop_first();
        assert(seq![o] + rest =~= opts);
        lemma_options_bytes_cons(o, rest);
        let ob = option_bytes(o);
        let kd = option_kind_and_data(o);
        let data = kd.1;
        let p = pos as int;
        reveal(option_bytes);
        assert(ob == padded_option(kd.0, data));
        assert(ob.subrange(4, ob.len() as int) =~= data + zeros(padding_len(data.len())));
        assert(s.subrange(p, p + ob.len() as int) =~= ob) by {
            assert(s.subrange(p, p + ob.len() as int) =~= s.subrange(p, pos as int + options_bytes(opts).len() as int).subrange(0, ob.len() as int));
        }
        assert(s.subrange(p + ob.len() as int, pos as int + options_bytes(opts).len() as int) =~= options_bytes(rest)) by {
            assert(s.subrange(p + ob.len() as int, pos as int + options_bytes(opts).len() as int) =~= s.subrange(p, pos as int + options_bytes(opts).len() as int).subrange(ob.len() as int, options_bytes(opts).len() as int));
        }
        assert(ob.len() == data.len() + 4 + padding_len(data.len()));
        assert(s[p] == ob[0] && s[p + 1] == ob[1] && s[p + 2] == ob[2] && s[p + 3] == ob[3]);
        assert(u16_from_be(s[p], s[p + 1]) == kd.0);
        assert(u16_from_be(s[p + 2], s[p + 3]) as nat == ob.len());
        assert(s.subrange(p + 4, p + ob.len() as int) =~= ob.subrange(4, ob.len() as int));
        lemma_option_roundtrip(o);
        assert forall|i: int| 0 <= i < rest.len() implies option_roundtrips(#[trigger] rest[i]) by {
            assert(rest[i] == opts[i + 1]);
        }
        lemma_option_list_roundtrip(s, pos + ob.len(), read + ob.len(), rest);
        assert(read + ob.len() + options_bytes(rest).len() == total);
        let f = |x: SocksOptionView| option_after_roundtrip(x);
        assert(seq![option_after_roundtrip(o)] + rest.map_values(f) =~= opts.map_values(f));
    }
}

/// A block of encoded options, preceded by its length, decodes to the same
/// options (up to the padding of raw data), whatever bytes follow it.
pub proof fn lemma_options_roundtrip(opts: Seq<SocksOptionView>, rest: Seq<u8>)
    requires
        forall|i: int| 0 <= i < opts.len() ==> option_roundtrips(#[trigger] opts[i]),
        options_bytes(opts).len() <= 0xFFFF,
    ensures
        options_from(be_u16(options_bytes(opts).len() as u16) + options_bytes(opts) + rest) == Ok::<
            (Seq<SocksOptionView>, nat),
            SocksError,
        >((opts.map_values(|o: SocksOptionView| option_after_roundtrip(o)), 2 + options_bytes(opts).len())),
{
    reveal(options_from);
    let l = options_bytes(opts).len();
    let s = be_u16(l as u16) + options_bytes(opts) + rest;
    assert(s.subrange(2, 2 + l as int) =~= options_bytes(opts));
    lemma_option_list_roundtrip(s, 2, 0, opts);
}

/// A decoded option list ends within the input, after its start.
pub proof fn lemma_option_list_end(s: Seq<u8>, pos: nat, read: nat, total: nat)
    requires
        pos <= s.len(),
    ensures
        option_list_from(s, pos, read, total) matches Ok((_, end)) ==> pos <= end <= s.len(),
    decreases 0x10000 - read,
{
    if read < total && s.len() >= pos + 4 {
        let p = pos as int;
        let length = u16_from_be(s[p + 2], s[p + 3]) as nat;
        if length >= 4 && s.len() >= pos + length && read + length <= 0xFFFF {
            lemma_option_list_end(s, pos + length, read + length, total);
        }
    }
}

/// A decoded option block takes no more bytes than the input has.
pub proof fn lemma_options_from_len(s: Seq<u8>)
    ensures
        options_from(s) matches Ok((_, n)) ==> 2 <= n <= s.len(),
{
    reveal(options_from);
    if s.len() >= 2 {
        lemma_option_list_end(s, 2, 0, u16_from_be(s[0], s[1]) as nat);
    }
}

/// Every option on the wire fills a multiple of four bytes, with one to
/// four bytes of padding, and while it fits sixteen bits its length field
/// gives its whole size.
pub proof fn lemma_option_alignment(kind: u16, data: Seq<u8>)
    ensures
        padded_option(kind, data).len() % 4 == 0,
        1 <= padding_len(data.len()) <= 4,
        padded_option(kind, data).len() == data.len() + 4 + padding_len(data.len()),
        padded_option(kind, data).len() <= 0xFFFF ==> u16_from_be(
            padded_option(kind, data)[2],
            padded_option(kind, data)[3],
        ) == padded_option(kind, data).len(),
{
}

} // verus!
