use socksx::credentials::Credentials;
use socksx::ip::{IpAddress, SocketAddress};
use socksx::socks5::client::{
    auth_methods_request, auth_request, check_auth_method, check_auth_reply, read_connect_reply,
};
use socksx::socks5::server::{auth_reply, method_selection_reply, read_auth_request, read_greeting};
use socksx::socks5::{read_reply, read_request, write_reply, Socks5Command, Socks5Reply, Socks5Request};
use socksx::{Address, Socks5Guard, SocksError};

fn ip4(a: [u8; 4], port: u16) -> Address {
    Address::Ip(SocketAddress { ip: IpAddress::V4(a), port })
}

#[test]
fn socks5_request_roundtrip() {
    let request = Socks5Request::new(1, ip4([1, 2, 3, 4], 80));
    let bytes = request.clone().into_socks_bytes();
    assert_eq!(bytes, vec![5, 1, 0, 1, 1, 2, 3, 4, 0, 80]);
    assert_eq!(read_request(&bytes), Ok((request, 10)));
    let domain = Socks5Request::new(1, Address::Domainname { host: String::from("1.2.3.4"), port: 1 });
    let bytes = domain.clone().into_socks_bytes();
    assert_eq!(read_request(&bytes), Ok((domain, bytes.len())));
    assert_eq!(read_request(&[5, 2, 0, 1]), Err(SocksError::UnsupportedCommand(2)));
    assert_eq!(read_request(&[5, 1, 0]), Err(SocksError::Incomplete(1)));
    let udp = Socks5Request::new(3, ip4([0, 0, 0, 0], 0));
    assert_eq!(udp.command, Socks5Command::UdpAssociate);
}

#[test]
fn socks5_replies() {
    let bytes = write_reply(Socks5Reply::Success);
    assert_eq!(bytes, vec![5, 0, 0, 1, 0, 0, 0, 0, 0, 0]);
    assert_eq!(read_reply(&bytes), Ok((ip4([0, 0, 0, 0], 0), 10)));
    assert_eq!(read_connect_reply(&bytes), Ok((ip4([0, 0, 0, 0], 0), 10)));
    let failed = write_reply(Socks5Reply::HostUnreachable);
    assert_eq!(read_reply(&failed), Err(SocksError::OperationFailed(4)));
    assert_eq!(read_connect_reply(&failed), Err(SocksError::OperationFailed(4)));
    assert_eq!(read_connect_reply(&[5, 0, 0]), Err(SocksError::Incomplete(1)));
}

#[test]
fn client_negotiation() {
    assert_eq!(auth_methods_request(false), vec![5, 1, 0]);
    assert_eq!(auth_methods_request(true), vec![5, 2, 0, 2]);
    assert_eq!(check_auth_method(5, 0, false), Ok(0));
    assert_eq!(check_auth_method(5, 2, true), Ok(2));
    assert_eq!(check_auth_method(5, 2, false), Err(SocksError::CredentialsRequired));
    assert_eq!(check_auth_method(5, 0xFF, true), Err(SocksError::NoAcceptableMethods));
    assert_eq!(check_auth_method(5, 1, true), Err(SocksError::UnsupportedAuthMethod(1)));
    assert_eq!(check_auth_method(4, 0, true), Err(SocksError::VersionMismatch(4)));
    assert_eq!(check_auth_reply(1, 0), Ok(()));
    assert_eq!(check_auth_reply(5, 0), Err(SocksError::AuthVersionMismatch(5)));
    assert_eq!(check_auth_reply(1, 1), Err(SocksError::AuthenticationFailed(1)));
}

#[test]
fn guard_selects_methods() {
    let open = Socks5Guard::new(None);
    let closed = Socks5Guard::new(Some(Credentials::new(b"u".to_vec(), b"p".to_vec())));
    assert_eq!(open.select_method(&[0, 2]), 0);
    assert_eq!(closed.select_method(&[0, 2]), 2);
    assert_eq!(closed.select_method(&[0]), 0);
    assert_eq!(open.select_method(&[2]), 0xFF);
    assert_eq!(open.select_method(&[]), 0xFF);
    assert_eq!(method_selection_reply(2), vec![5, 2]);
}

#[test]
fn guard_reads_greeting() {
    assert_eq!(read_greeting(&[5, 2, 0, 2, 9]), Ok((vec![0, 2], 4)));
    assert_eq!(read_greeting(&[5, 2, 0]), Err(SocksError::Incomplete(1)));
    assert_eq!(read_greeting(&[4, 1, 0]), Err(SocksError::VersionMismatch(4)));
}

#[test]
fn guard_checks_credentials() {
    let credentials = Credentials::new(b"user".to_vec(), b"secret".to_vec());
    let guard = Socks5Guard::new(Some(credentials.clone()));
    let request = auth_request(&credentials);
    assert_eq!(request, vec![1, 4, 117, 115, 101, 114, 6, 115, 101, 99, 114, 101, 116]);
    let (username, password, n) = read_auth_request(&request).unwrap();
    assert_eq!(n, request.len());
    assert_eq!(guard.auth_status(&username, &password), 0);
    assert_eq!(guard.auth_status(b"user", b"wrong"), 1);
    assert_eq!(auth_reply(0), vec![1, 0]);
    assert_eq!(read_auth_request(&[2, 0, 0]), Err(SocksError::AuthVersionMismatch(2)));
    assert_eq!(read_auth_request(&[1, 4, 117]), Err(SocksError::Incomplete(4)));
}

#[test]
fn negotiation_agrees() {
    for server_has in [false, true] {
        for client_has in [false, true] {
            let credentials = if server_has { Some(Credentials::new(b"u".to_vec(), b"p".to_vec())) } else { None };
            let guard = Socks5Guard::new(credentials);
            let request = auth_methods_request(client_has);
            let (methods, _) = read_greeting(&request).unwrap();
            let method = guard.select_method(&methods);
            let expected = if server_has && client_has { 2 } else { 0 };
            assert_eq!(method, expected);
            assert_eq!(check_auth_method(5, method, client_has), Ok(method));
        }
    }
}
