use socksx::ip::{parse_ip, IpAddress};

fn expect(text: &str, expected: Option<IpAddress>) {
    assert_eq!(parse_ip(text.as_bytes()), expected, "text {:?}", text);
}

#[test]
fn ip_text_follows_std_rules() {
    expect("", None);
    expect("1.2.3.4", Some(IpAddress::V4([1, 2, 3, 4])));
    expect("0.0.0.0", Some(IpAddress::V4([0, 0, 0, 0])));
    expect("255.255.255.255", Some(IpAddress::V4([255, 255, 255, 255])));
    expect("256.1.1.1", None);
    expect("01.2.3.4", None);
    expect("1.2.3", None);
    expect("1.2.3.4.5", None);
    expect("1.2.3.4 ", None);
    expect(" 1.2.3.4", None);
    expect("1..2.3", None);
    expect("1.2.3.04", None);
    expect("1000.2.3.4", None);
    expect("+1.2.3.4", None);
    expect("::", Some(IpAddress::V6([0, 0, 0, 0, 0, 0, 0, 0, 0, 0, 0, 0, 0, 0, 0, 0])));
    expect("::1", Some(IpAddress::V6([0, 0, 0, 0, 0, 0, 0, 0, 0, 0, 0, 0, 0, 0, 0, 1])));
    expect("1::", Some(IpAddress::V6([0, 1, 0, 0, 0, 0, 0, 0, 0, 0, 0, 0, 0, 0, 0, 0])));
    expect("1::2", Some(IpAddress::V6([0, 1, 0, 0, 0, 0, 0, 0, 0, 0, 0, 0, 0, 0, 0, 2])));
    expect("1:2:3:4:5:6:7:8", Some(IpAddress::V6([0, 1, 0, 2, 0, 3, 0, 4, 0, 5, 0, 6, 0, 7, 0, 8])));
    expect("1:2:3:4:5:6:7:8:9", None);
    expect("1:2:3:4:5:6:7::", Some(IpAddress::V6([0, 1, 0, 2, 0, 3, 0, 4, 0, 5, 0, 6, 0, 7, 0, 0])));
    expect("1:2:3:4:5:6:7::8", None);
    expect("::1:2:3:4:5:6:7", Some(IpAddress::V6([0, 0, 0, 1, 0, 2, 0, 3, 0, 4, 0, 5, 0, 6, 0, 7])));
    expect("::1:2:3:4:5:6:7:8", None);
    expect("1:2:3:4:5:6::7", Some(IpAddress::V6([0, 1, 0, 2, 0, 3, 0, 4, 0, 5, 0, 6, 0, 0, 0, 7])));
    expect("ffff::FFFF", Some(IpAddress::V6([255, 255, 0, 0, 0, 0, 0, 0, 0, 0, 0, 0, 0, 0, 255, 255])));
    expect("12345::", None);
    expect("::12345", None);
    expect("::1.2.3.4", Some(IpAddress::V6([0, 0, 0, 0, 0, 0, 0, 0, 0, 0, 0, 0, 1, 2, 3, 4])));
    expect("::ffff:192.168.0.1", Some(IpAddress::V6([0, 0, 0, 0, 0, 0, 0, 0, 0, 0, 255, 255, 192, 168, 0, 1])));
    expect("1:2:3:4:5:6:1.2.3.4", Some(IpAddress::V6([0, 1, 0, 2, 0, 3, 0, 4, 0, 5, 0, 6, 1, 2, 3, 4])));
    expect("1:2:3:4:5:6:7:1.2.3.4", None);
    expect("1.2.3.4::", None);
    expect("1.2.3.4:5:6:7:8:9:10", None);
    expect(":::", None);
    expect("::1::", None);
    expect("1:::2", None);
    expect(":1::", None);
    expect("::g", None);
    expect("0:0:0:0:0:0:0:0", Some(IpAddress::V6([0, 0, 0, 0, 0, 0, 0, 0, 0, 0, 0, 0, 0, 0, 0, 0])));
    expect("fe80::1%eth0", None);
    expect("[::1]", None);
    expect("localhost", None);
    expect("example.com", None);
    expect("1:2:3:4:5:6:7:8.1.2.3", None);
    expect("::0.0.0.0", Some(IpAddress::V6([0, 0, 0, 0, 0, 0, 0, 0, 0, 0, 0, 0, 0, 0, 0, 0])));
    expect("a:b:c:d:e::1.2.3.4", Some(IpAddress::V6([0, 10, 0, 11, 0, 12, 0, 13, 0, 14, 0, 0, 1, 2, 3, 4])));
    expect("a:b:c:d:e:f::1.2.3.4", None);
    expect("00000::", None);
    expect("0000::", Some(IpAddress::V6([0, 0, 0, 0, 0, 0, 0, 0, 0, 0, 0, 0, 0, 0, 0, 0])));
    expect("1:2:3:4:5:6:7:", None);
    expect(":1:2:3:4:5:6:7", None);
    expect("é::1", None);
    expect("1:2::3:4::5", None);
    expect("::1:2:3:4:5:6:1.2.3.4", None);
}

#[test]
fn ipv4_octets_and_leading_zeros() {
    assert_eq!(parse_ip(b"10.0.0.1"), Some(IpAddress::V4([10, 0, 0, 1])));
    assert_eq!(parse_ip(b"10.0.0.01"), None);
    assert_eq!(parse_ip(b"10.0.0.255"), Some(IpAddress::V4([10, 0, 0, 255])));
    assert_eq!(parse_ip(b"10.0.0.256"), None);
}
