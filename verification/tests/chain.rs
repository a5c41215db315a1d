use socksx::addresses::ProxyAddress;
use socksx::socks6::chain::SocksChain;
use socksx::socks6::options::MetadataOption;

fn link(port: u16) -> ProxyAddress {
    ProxyAddress::new(6, String::from("localhost"), port, None)
}

#[test]
pub fn abc() {
    let mut chain = SocksChain::new(
        1,
        vec![
            ProxyAddress::new(6, String::from("localhost"), 1, None),
            ProxyAddress::new(6, String::from("localhost"), 2, None),
            ProxyAddress::new(6, String::from("localhost"), 3, None),
        ],
    );

    let extra = vec![
        ProxyAddress::new(6, String::from("localhost"), 4, None),
        ProxyAddress::new(6, String::from("localhost"), 5, None),
    ];
    chain.detour(&extra);

    let order: Vec<u16> = chain.links.iter().map(|l| l.port).collect();
    assert_eq!(order, vec![1, 2, 4, 5, 3]);
}

#[test]
fn detour_at_the_root_adds_the_root_link() {
    let mut chain = SocksChain::default();
    chain.detour(&[link(7)]);
    assert_eq!(chain.index, 0);
    assert_eq!(chain.links, vec![ProxyAddress::root(), link(7)]);
}

#[test]
fn walking_a_chain() {
    let mut chain = SocksChain::new(0, vec![link(1), link(2)]);
    assert_eq!(chain.current_link().port, 1);
    assert!(chain.has_next());
    assert_eq!(chain.next_link().map(|l| l.port), Some(2));
    assert_eq!(chain.index, 1);
    assert!(!chain.has_next());
    assert_eq!(chain.next_link(), None);
    assert_eq!(chain.index, 1);
    assert_eq!(chain.current_link().port, 2);
}

#[test]
fn chain_as_metadata() {
    let chain = SocksChain::new(1, vec![link(1), link(2)]);
    assert_eq!(
        chain.as_options(),
        vec![
            MetadataOption::new(1000, String::from("socks6://localhost:1")),
            MetadataOption::new(1001, String::from("socks6://localhost:2")),
            MetadataOption::new(998, String::from("1")),
            MetadataOption::new(999, String::from("2")),
        ]
    );
}
