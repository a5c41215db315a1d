//! Errors of the SOCKS decoders and protocol checks.
use vstd::prelude::*;

verus! {

/// Why a SOCKS message or exchange was refused.
#[derive(Clone, Copy, Debug, PartialEq, Eq, Structural)]
pub enum SocksError {
    /// The input ends early: this many more bytes are needed to go on.
    Incomplete(usize),
    /// An option's length field is below four, its metadata value runs past
    /// its data, or the options overrun their sixteen-bit length counter.
    MalformedOption,
    /// The peer speaks another SOCKS version (the version it sent).
    VersionMismatch(u8),
    /// A request names a command other than CONNECT.
    UnsupportedCommand(u8),
    /// The proxy refused the authentication (the status it sent).
    AuthenticationFailed(u8),
    /// The proxy could not carry out the operation (the reply code it sent).
    OperationFailed(u8),
    /// The proxy demands username/password authentication, but no credentials are given.
    CredentialsRequired,
    /// The proxy accepted none of the offered authentication methods.
    NoAcceptableMethods,
    /// The proxy proposed an authentication method this client does not support.
    UnsupportedAuthMethod(u8),
    /// The peer uses another version of username/password authentication.
    AuthVersionMismatch(u8),
    /// A username is longer than 255 bytes.
    UsernameTooLong,
    /// A password is longer than 255 bytes.
    PasswordTooLong,
    /// A domain name in a reply is not UTF-8.
    InvalidUtf8,
    /// An address text does not separate host and port by ':'.
    MissingPortSeparator,
    /// An address text's port is not a number from 0 to 65535.
    InvalidPort,
    /// A proxy address is not a URL.
    InvalidUrl,
    /// A proxy address names no host.
    MissingHost,
    /// A proxy address names no port.
    MissingPort,
    /// A proxy address's scheme is neither `socks5` nor `socks6`.
    UnrecognizedScheme,
    /// An address type other than IPv4, domain name and IPv6.
    UnknownAddressType(u8),
    /// An option's data is shorter than its kind requires.
    OptionTooShort,
    /// An authentication method selection option does not hold exactly four data bytes.
    OptionLengthMismatch,
    /// An authentication method selection names an unknown method.
    InvalidAuthMethodSelection(u8),
    /// A metadata option's value is not UTF-8.
    InvalidMetadataUtf8,
    /// A message is too long to be built in memory.
    MessageTooLong,
}

} // verus!
