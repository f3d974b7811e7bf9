use lan_party_tools::network::{
    count_octets, ip_addr_should_be_displayed, network_should_be_displayed, IpAddr, Network,
    NetworkAddrs,
};

#[test]
fn common_subnet_masks_have_their_usual_widths() {
    assert_eq!(count_octets(&[255, 255, 255, 0]), 24);
    assert_eq!(count_octets(&[255, 128, 0, 0]), 9);
    assert_eq!(count_octets(&[255, 255, 255, 255]), 32);
    assert_eq!(count_octets(&[0, 0, 0, 0]), 0);
}

#[test]
fn the_count_stops_at_the_first_zero_bit() {
    assert_eq!(count_octets(&[255, 254, 255, 255]), 15);
    assert_eq!(count_octets(&[127, 255]), 0);
    assert_eq!(count_octets(&[254]), 7);
    assert_eq!(count_octets(&[128]), 1);
    // a gap ends the count even if later bits are set
    assert_eq!(count_octets(&[0b1011_1111]), 1);
}

#[test]
fn an_empty_mask_has_width_zero() {
    assert_eq!(count_octets(&[]), 0);
}

#[test]
fn a_v6_mask_counts_all_sixteen_octets() {
    let mask = [255u8; 16];
    assert_eq!(count_octets(&mask), 128);
    let mut half = [0u8; 16];
    for octet in half.iter_mut().take(4) {
        *octet = 255;
    }
    assert_eq!(count_octets(&half), 32);
}

#[test]
fn ordinary_addresses_are_displayed() {
    assert!(ip_addr_should_be_displayed(&IpAddr::V4([192, 168, 1, 1])));
    assert!(ip_addr_should_be_displayed(&IpAddr::V4([10, 0, 0, 7])));
    assert!(ip_addr_should_be_displayed(&IpAddr::V6([
        0x20, 0x01, 0x0d, 0xb8, 0, 0, 0, 0, 0, 0, 0, 0, 0, 0, 0, 1
    ])));
}

#[test]
fn loopback_and_link_local_are_hidden() {
    assert!(!ip_addr_should_be_displayed(&IpAddr::V4([127, 0, 0, 1])));
    assert!(!ip_addr_should_be_displayed(&IpAddr::V4([127, 255, 0, 9])));
    assert!(!ip_addr_should_be_displayed(&IpAddr::V4([169, 254, 3, 4])));
    // strictly link-local V6: fe80:: with the next 48 bits zero
    assert!(!ip_addr_should_be_displayed(&IpAddr::V6([
        0xfe, 0x80, 0, 0, 0, 0, 0, 0, 0, 0, 0, 0, 0, 0, 0, 1
    ])));
    // a nonzero bit inside the first 64 makes it non-strict, so it shows
    assert!(ip_addr_should_be_displayed(&IpAddr::V6([
        0xfe, 0x80, 0, 0, 0, 0, 0, 1, 0, 0, 0, 0, 0, 0, 0, 1
    ])));
}

#[test]
fn the_two_markers_are_hidden() {
    assert!(!ip_addr_should_be_displayed(&IpAddr::Empty));
    assert!(!ip_addr_should_be_displayed(&IpAddr::Unsupported));
}

#[test]
fn an_interface_shows_when_any_address_does() {
    let hidden = NetworkAddrs {
        addr: IpAddr::V4([127, 0, 0, 1]),
        netmask: IpAddr::V4([255, 0, 0, 0]),
    };
    let shown = NetworkAddrs {
        addr: IpAddr::V4([192, 168, 1, 1]),
        netmask: IpAddr::V4([255, 255, 255, 0]),
    };
    let lo = Network {
        name: String::from("lo"),
        addrs: vec![hidden],
    };
    assert!(!network_should_be_displayed(&lo));
    let eth = Network {
        name: String::from("eth0"),
        addrs: vec![
            NetworkAddrs {
                addr: IpAddr::V4([127, 0, 0, 1]),
                netmask: IpAddr::V4([255, 0, 0, 0]),
            },
            shown,
        ],
    };
    assert!(network_should_be_displayed(&eth));
    let bare = Network {
        name: String::from("bare"),
        addrs: Vec::new(),
    };
    assert!(!network_should_be_displayed(&bare));
}
