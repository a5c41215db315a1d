use std::collections::HashMap;
use socksx::ip::{IpAddress, SocketAddress};
use socksx::socks6::client::{connect_options, connect_request, read_auth_reply, read_operation_reply};
use socksx::socks6::options::{AuthMethod, AuthMethodAdvertisementOption, MetadataOption};
use socksx::socks6::{
    read_no_authentication, read_reply, read_request, write_no_authentication, write_reply, Route,
    Socks6Request, SocksCommand, SocksReply,
};
use socksx::{Address, ProxyAddress, Socks6Handler, SocksError};

fn ip4(a: [u8; 4], port: u16) -> Address {
    Address::Ip(SocketAddress { ip: IpAddress::V4(a), port })
}

#[test]
fn socks6_request_roundtrip() {
    let options = vec![
        MetadataOption::new(7, String::from("seven")),
        AuthMethodAdvertisementOption::new(12, vec![AuthMethod::Gssapi]),
        MetadataOption::new(7, String::from("later")),
    ];
    let destination = Address::Domainname { host: String::from("example.com"), port: 80 };
    let request = Socks6Request::new(1, destination.clone(), 0, options.clone(), None);
    let mut bytes = request.into_socks_bytes();
    let n = bytes.len();
    bytes.extend(vec![1, 2, 3]);
    let (decoded, consumed) = read_request(&bytes).unwrap();
    assert_eq!(consumed, n);
    assert_eq!(decoded.command, SocksCommand::Connect);
    assert_eq!(decoded.destination, destination);
    assert_eq!(decoded.options, options);
    assert_eq!(decoded.initial_data_length, 12);
    let mut expected = HashMap::new();
    expected.insert(7u16, String::from("later"));
    assert_eq!(decoded.metadata, expected);
}

#[test]
fn request_wire_form() {
    let request = Socks6Request::new(1, ip4([1, 2, 3, 4], 80), 0, vec![], None);
    assert_eq!(request.into_socks_bytes(), vec![6, 1, 1, 1, 2, 3, 4, 0, 80, 0, 0, 0]);
    // The command is always written as CONNECT.
    let request = Socks6Request::new(2, ip4([1, 2, 3, 4], 80), 0, vec![], None);
    assert_eq!(request.command, SocksCommand::Bind);
    assert_eq!(request.into_socks_bytes()[1], 1);
}

#[test]
fn request_refusals() {
    assert_eq!(read_request(&[6]).err(), Some(SocksError::Incomplete(1)));
    assert_eq!(read_request(&[5, 1]).err(), Some(SocksError::VersionMismatch(5)));
    assert_eq!(read_request(&[6, 2]).err(), Some(SocksError::UnsupportedCommand(2)));
    assert_eq!(read_request(&[6, 1, 1, 1, 2, 3, 4, 0, 80]).err(), Some(SocksError::Incomplete(1)));
    assert_eq!(read_request(&[6, 1, 1, 1, 2, 3, 4, 0, 80, 0]).err(), Some(SocksError::Incomplete(2)));
    assert_eq!(read_request(&[6, 1, 7]).err(), Some(SocksError::UnknownAddressType(7)));
}

#[test]
fn socks6_replies() {
    let bytes = write_reply(SocksReply::Success);
    assert_eq!(bytes, vec![6, 0, 0, 1, 0, 0, 0, 0, 0, 0, 0, 0]);
    assert_eq!(read_reply(&bytes), Ok((ip4([0, 0, 0, 0], 0), vec![], 12)));
    let refused = write_reply(SocksReply::ConnectionRefused);
    assert_eq!(refused[1], 5);
    assert_eq!(read_reply(&refused), Err(SocksError::OperationFailed(5)));
    assert_eq!(write_reply(SocksReply::ConnectionAttemptTimeOut)[1], 9);
}

#[test]
fn no_authentication() {
    let bytes = write_no_authentication();
    assert_eq!(bytes, vec![6, 0, 0, 0]);
    assert_eq!(read_no_authentication(&bytes), Ok((vec![], 4)));
    assert_eq!(read_no_authentication(&[5, 0]), Err(SocksError::VersionMismatch(5)));
    assert_eq!(read_no_authentication(&[6, 1, 0, 0]), Err(SocksError::AuthenticationFailed(1)));
}

#[test]
fn client_request() {
    let options = connect_options(None, 70000);
    assert_eq!(options, vec![AuthMethodAdvertisementOption::new(4464, vec![])]);
    let options = connect_options(Some(vec![MetadataOption::new(1, String::from("x"))]), 3);
    assert_eq!(options.len(), 2);
    let bytes = connect_request(&ip4([1, 2, 3, 4], 80), &connect_options(None, 5));
    assert_eq!(
        bytes,
        vec![6, 1, 1, 1, 2, 3, 4, 0, 80, 0, 0, 8, 0, 2, 0, 8, 0, 5, 0, 0]
    );
}

#[test]
fn client_replies() {
    assert_eq!(read_auth_reply(&[6, 0, 0, 0]), Ok(4));
    assert_eq!(read_auth_reply(&[6, 0, 0, 2, 9]), Err(SocksError::Incomplete(1)));
    assert_eq!(read_auth_reply(&[6, 0, 0, 2, 9, 9]), Ok(6));
    assert_eq!(read_auth_reply(&[6, 1, 0, 0]), Err(SocksError::AuthenticationFailed(1)));
    assert_eq!(read_auth_reply(&[5]), Err(SocksError::VersionMismatch(5)));
    assert_eq!(
        read_operation_reply(&[6, 0, 0, 80, 0, 1, 1, 2, 3, 4, 0, 0]),
        Ok((ip4([1, 2, 3, 4], 80), 12))
    );
    assert_eq!(
        read_operation_reply(&[6, 0, 1, 0, 0, 3, 1, 104, 0, 1, 7]),
        Ok((Address::Domainname { host: String::from("h"), port: 256 }, 11))
    );
    assert_eq!(read_operation_reply(&[6, 0, 1, 0, 0, 3, 1, 0xff]), Err(SocksError::InvalidUtf8));
    assert_eq!(read_operation_reply(&[6, 4, 0, 0, 0, 1]), Err(SocksError::OperationFailed(4)));
}

#[test]
fn handler_routes() {
    assert_eq!(Socks6Handler::default().route(), Route::Direct);
    let proxy = ProxyAddress::new(5, String::from("p"), 1080, None);
    assert_eq!(Socks6Handler::new(vec![proxy.clone()]).route(), Route::Proxy(proxy));
}
