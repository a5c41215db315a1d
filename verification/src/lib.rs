//! SOCKS5 (RFC 1928) and SOCKS6 (draft-olteanu-intarea-socks-6-11) wire formats,
//! proxy chains and the protocol decisions of clients and servers, with
//! their contracts proved by Verus.
pub mod addresses;
pub mod constants;
pub mod credentials;
pub mod error;
pub mod ip;
pub mod text;
pub mod wire;
pub mod socks5;
pub mod socks6;

pub use addresses::{Address, ProxyAddress};
pub use credentials::Credentials;
pub use error::SocksError;
pub use socks5::{Socks5Guard, Socks5Handler};
pub use socks6::Socks6Handler;
