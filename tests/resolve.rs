use rust_net_sniffer::{find_target_interface, select_interface, InterfaceDescriptor, SnifferError};

fn iface(name: &str, ips: &[&str], is_loopback: bool) -> InterfaceDescriptor {
    InterfaceDescriptor {
        name: name.to_string(),
        ips: ips.iter().map(|s| s.to_string()).collect(),
        is_loopback,
    }
}

fn host() -> Vec<InterfaceDescriptor> {
    vec![
        iface("lo", &["127.0.0.1", "::1"], true),
        iface("eth0", &["10.16.26.148", "fe80::1"], false),
        iface("wlan0", &["192.168.1.5"], false),
    ]
}

#[test]
fn sole_owner_is_selected() {
    assert_eq!(select_interface(&host(), "192.168.1.5"), Ok(2));
    assert_eq!(select_interface(&host(), "10.16.26.148"), Ok(1));
}

#[test]
fn loopback_address_is_not_found() {
    assert_eq!(
        select_interface(&host(), "127.0.0.1"),
        Err(SnifferError::InterfaceNotFound("127.0.0.1".to_string()))
    );
}

#[test]
fn absent_address_is_not_found() {
    assert_eq!(
        select_interface(&host(), "10.0.0.1"),
        Err(SnifferError::InterfaceNotFound("10.0.0.1".to_string()))
    );
    assert_eq!(
        select_interface(&Vec::new(), "10.0.0.1"),
        Err(SnifferError::InterfaceNotFound("10.0.0.1".to_string()))
    );
}

#[test]
fn match_is_exact_not_prefix() {
    assert_eq!(
        select_interface(&host(), "10.16.26.14"),
        Err(SnifferError::InterfaceNotFound("10.16.26.14".to_string()))
    );
    assert_eq!(
        select_interface(&host(), "10.16.26.1480"),
        Err(SnifferError::InterfaceNotFound("10.16.26.1480".to_string()))
    );
}

#[test]
fn duplicated_address_picks_first_in_order() {
    let mut ifaces = host();
    ifaces.push(iface("eth1", &["10.16.26.148"], false));
    assert_eq!(select_interface(&ifaces, "10.16.26.148"), Ok(1));
}

#[test]
fn loopback_is_skipped_even_when_listed_first() {
    let ifaces = vec![iface("lo", &["10.1.1.1"], true), iface("eth0", &["10.1.1.1"], false)];
    assert_eq!(select_interface(&ifaces, "10.1.1.1"), Ok(1));
}

#[test]
fn find_hands_back_the_owning_adapter() {
    let d = find_target_interface(host(), "192.168.1.5").unwrap();
    assert_eq!(d.name, "wlan0");
    assert_eq!(d.ips, vec!["192.168.1.5".to_string()]);
    assert!(!d.is_loopback);
}

#[test]
fn find_reports_missing_address() {
    match find_target_interface(host(), "127.0.0.1") {
        Err(SnifferError::InterfaceNotFound(s)) => assert_eq!(s, "127.0.0.1"),
        other => panic!("unexpected {:?}", other.map(|d| d.name)),
    }
}
