use socksx::credentials::Credentials;
use socksx::ip::{IpAddress, SocketAddress};
use socksx::socks5::client::{authentication_step, check_auth_method};
use socksx::socks5::server::{auth_outcome, sub_negotiation_needed};
use socksx::socks5::Socks5Request;
use socksx::socks6::client::{connect_request, try_connect_request};
use socksx::socks6::options::{
    option_encoded_len, options_as_bytes, options_encoded_len, AuthMethod,
    AuthMethodAdvertisementOption, AuthMethodSelectionOption, MetadataOption, UnrecognizedOption,
};
use socksx::socks6::{write_no_authentication, write_reply, Route, SetupAction, Socks6Request, SocksReply};
use socksx::addresses::address_encoded_len;
use socksx::{Address, ProxyAddress, Socks5Guard, Socks6Handler, SocksError};
use std::collections::HashMap;

fn ip4(a: [u8; 4], port: u16) -> Address {
    Address::Ip(SocketAddress { ip: IpAddress::V4(a), port })
}

fn creds(u: &str, p: &str) -> Credentials {
    Credentials::new(u.as_bytes().to_vec(), p.as_bytes().to_vec())
}

#[test]
fn guard_sub_negotiation_only_for_username_password() {
    assert!(sub_negotiation_needed(0x02));
    assert!(!sub_negotiation_needed(0x00));
    assert!(!sub_negotiation_needed(0xFF));
}

#[test]
fn guard_outcome_follows_status() {
    assert_eq!(auth_outcome(0x00), Ok(()));
    assert_eq!(auth_outcome(0x01), Err(SocksError::AuthenticationFailed(0x01)));
}

#[test]
fn guard_exchange_with_and_without_credentials() {
    // Without credentials the guard selects "no authentication": no sub-negotiation.
    let open = Socks5Guard::new(None);
    let m = open.select_method(&[0x00, 0x02]);
    assert_eq!(m, 0x00);
    assert!(!sub_negotiation_needed(m));
    // With credentials: the right ones succeed, wrong ones fail.
    let guarded = Socks5Guard::new(Some(creds("user", "pass")));
    let m = guarded.select_method(&[0x00, 0x02]);
    assert!(sub_negotiation_needed(m));
    assert_eq!(auth_outcome(guarded.auth_status(b"user", b"pass")), Ok(()));
    assert_eq!(
        auth_outcome(guarded.auth_status(b"user", b"word")),
        Err(SocksError::AuthenticationFailed(0x01))
    );
}

#[test]
fn client_skips_authentication_without_username_password() {
    let method = check_auth_method(5, 0x00, false).unwrap();
    assert_eq!(authentication_step(method, &None), None);
    let c = Some(creds("ab", "c"));
    let method = check_auth_method(5, 0x00, true).unwrap();
    assert_eq!(authentication_step(method, &c), None);
    let method = check_auth_method(5, 0x02, true).unwrap();
    assert_eq!(authentication_step(method, &c), Some(vec![1, 2, b'a', b'b', 1, b'c']));
}

#[test]
fn checked_socks5_request() {
    let request = Socks5Request::new(1, ip4([1, 2, 3, 4], 80));
    assert_eq!(request.try_into_socks_bytes(), Ok(vec![5, 1, 0, 1, 1, 2, 3, 4, 0, 80]));
    let domain = Socks5Request::new(1, Address::Domainname { host: String::from("ab"), port: 1 });
    assert_eq!(domain.try_into_socks_bytes(), Ok(vec![5, 1, 0, 3, 2, b'a', b'b', 0, 1]));
}

#[test]
fn encoded_lengths() {
    assert_eq!(address_encoded_len(&ip4([1, 2, 3, 4], 80)), Some(7));
    assert_eq!(
        address_encoded_len(&Address::Domainname { host: String::from("héllo"), port: 1 }),
        Some(10)
    );
    let options = vec![
        AuthMethodAdvertisementOption::new(5, vec![AuthMethod::Gssapi]),
        AuthMethodSelectionOption::new(AuthMethod::NoAuthentication),
        MetadataOption::new(1, String::from("abcd")),
        UnrecognizedOption::new(9, vec![1, 2, 3, 4]),
    ];
    assert_eq!(option_encoded_len(&options[0]), Some(8));
    assert_eq!(option_encoded_len(&options[1]), Some(8));
    assert_eq!(option_encoded_len(&options[2]), Some(16));
    assert_eq!(option_encoded_len(&options[3]), Some(12));
    assert_eq!(options_encoded_len(&options), Some(44));
    assert_eq!(options_encoded_len(&options), Some(options_as_bytes(&options).len()));
}

#[test]
fn checked_socks6_request() {
    let options = vec![MetadataOption::new(3, String::from("x"))];
    let destination = ip4([10, 0, 0, 1], 443);
    assert_eq!(try_connect_request(&destination, &options), Ok(connect_request(&destination, &options)));
}

#[test]
fn setup_steps_in_order() {
    let request = Socks6Request::new(1, ip4([1, 2, 3, 4], 80), 5, vec![], Some(HashMap::new()));
    let direct = Socks6Handler::new(vec![]);
    let actions = direct.setup_actions(&request);
    assert_eq!(actions.len(), 4);
    assert!(matches!(&actions[0], SetupAction::Reply(b) if *b == write_no_authentication()));
    assert!(matches!(&actions[1], SetupAction::Connect(Route::Direct)));
    assert!(matches!(&actions[2], SetupAction::ForwardInitialData(5)));
    assert!(matches!(&actions[3], SetupAction::Reply(b) if *b == write_reply(SocksReply::Success)));

    let without_data = Socks6Request::new(1, ip4([1, 2, 3, 4], 80), 0, vec![], None);
    let proxy = ProxyAddress::new(5, String::from("proxy"), 1080, None);
    let chained = Socks6Handler::new(vec![proxy.clone()]);
    let actions = chained.setup_actions(&without_data);
    assert_eq!(actions.len(), 3);
    assert!(matches!(&actions[1], SetupAction::Connect(Route::Proxy(p)) if *p == proxy));
    assert!(matches!(&actions[2], SetupAction::Reply(b) if *b == write_reply(SocksReply::Success)));
}
