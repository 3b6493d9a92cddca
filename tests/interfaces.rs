use touchpad_core::interfaces::{
    enumerate_mdns_capable_interfaces, enumerate_mdns_incapable_interfaces, get_ip_by_name,
    select_bind_ip, NetInterface,
};
use touchpad_core::registry::IpAddress;

fn iface(name: &str, loopback: bool, running: bool, multicast: bool, ips: Vec<IpAddress>) -> NetInterface {
    NetInterface {
        name: name.to_string(),
        is_up: true,
        is_loopback: loopback,
        is_running: running,
        is_multicast: multicast,
        is_broadcast: true,
        ips,
    }
}

fn system_interfaces() -> Vec<NetInterface> {
    pnet::datalink::interfaces()
        .iter()
        .map(|i| NetInterface {
            name: i.name.clone(),
            is_up: i.is_up(),
            is_loopback: i.is_loopback(),
            is_running: i.is_running(),
            is_multicast: i.is_multicast(),
            is_broadcast: i.is_broadcast(),
            ips: i
                .ips
                .iter()
                .map(|n| match n {
                    pnet::ipnetwork::IpNetwork::V4(v) => IpAddress::V4(u32::from(v.ip())),
                    pnet::ipnetwork::IpNetwork::V6(v) => IpAddress::V6(u128::from(v.ip())),
                })
                .collect(),
        })
        .collect()
}

fn sample() -> Vec<NetInterface> {
    vec![
        iface("lo", true, true, false, vec![IpAddress::V4(0x7f00_0001)]),
        iface("eth0", false, true, true, vec![IpAddress::V6(1), IpAddress::V4(0xc0a8_0106)]),
        iface("wlan0", false, false, true, vec![IpAddress::V4(0x0a00_0002)]),
        iface("docker0", false, true, true, vec![]),
    ]
}

#[test]
fn interface_test_enumerate_mdns_incapable_interfaces() {
    let list = enumerate_mdns_incapable_interfaces(&system_interfaces());
    println!("{:?}", list);
}

#[test]
fn utils_test_enumerate_mdns_incapable_interfaces() {
    let list = enumerate_mdns_incapable_interfaces(&system_interfaces());
    println!("{:?}", list);
}

#[test]
fn test_get_ip() {
    let all = system_interfaces();
    for i in &all {
        println!("interface: {} ip: {:?}", i.name, get_ip_by_name(&all, &i.name, true));
    }
}

#[test]
fn capable_and_incapable_lists() {
    let s = sample();
    assert_eq!(enumerate_mdns_capable_interfaces(&s), vec!["eth0".to_string()]);
    assert_eq!(
        enumerate_mdns_incapable_interfaces(&s),
        vec!["wlan0".to_string(), "docker0".to_string()]
    );
}

#[test]
fn bind_ip_is_first_capable_ipv4() {
    assert_eq!(select_bind_ip(&sample()), Some(IpAddress::V4(0xc0a8_0106)));
    assert_eq!(select_bind_ip(&sample()[2..]), None);
}

#[test]
fn ip_by_name_prefers_family() {
    let s = sample();
    assert_eq!(get_ip_by_name(&s, &"eth0".to_string(), true), Some(IpAddress::V4(0xc0a8_0106)));
    assert_eq!(get_ip_by_name(&s, &"eth0".to_string(), false), Some(IpAddress::V6(1)));
    assert_eq!(get_ip_by_name(&s, &"lo".to_string(), true), None);
    assert_eq!(get_ip_by_name(&s, &"missing".to_string(), true), None);
}
