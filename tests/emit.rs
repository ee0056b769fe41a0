use dhcp_server::config::{Config, DHCPConfig, Interface, StaticLease};
use dhcp_server::emit::generate_dnsmasq_conf;

fn lease(mac: &str, ip: &str) -> StaticLease {
    StaticLease { mac: mac.to_string(), ip: ip.to_string() }
}

fn iface(name: &str, bind: bool, range: &str, leases: Vec<StaticLease>) -> Interface {
    Interface {
        name: name.to_string(),
        bind_interfaces: bind,
        dhcp_range: range.to_string(),
        static_leases: leases,
    }
}

fn config(port: usize, interfaces: Vec<Interface>) -> Config {
    Config {
        dhcp_config: DHCPConfig { conf: "/tmp/out.conf".to_string(), port },
        interfaces,
    }
}

#[test]
fn single_interface_one_lease_bind_on() {
    let c = config(
        53,
        vec![iface(
            "eth0",
            true,
            "192.168.1.100,192.168.1.200,12h",
            vec![lease("aa:bb:cc:dd:ee:01", "192.168.1.10")],
        )],
    );
    assert_eq!(
        generate_dnsmasq_conf(&c),
        "port=53\ninterface=eth0\nbind-interfaces\ndhcp-range=192.168.1.100,192.168.1.200,12h\ndhcp-host=aa:bb:cc:dd:ee:01,192.168.1.10\n\n"
    );
}

#[test]
fn two_interfaces_second_without_leases_or_bind() {
    let c = config(
        53,
        vec![
            iface("eth0", true, "10.0.0.10,10.0.0.20,1h", vec![lease("aa:bb:cc:dd:ee:01", "10.0.0.11")]),
            iface("eth1", false, "10.1.0.10,10.1.0.20,1h", vec![]),
        ],
    );
    let out = generate_dnsmasq_conf(&c);
    assert!(out.ends_with("\ninterface=eth1\ndhcp-range=10.1.0.10,10.1.0.20,1h\n\n"));
    assert_eq!(
        out,
        "port=53\ninterface=eth0\nbind-interfaces\ndhcp-range=10.0.0.10,10.0.0.20,1h\ndhcp-host=aa:bb:cc:dd:ee:01,10.0.0.11\n\ninterface=eth1\ndhcp-range=10.1.0.10,10.1.0.20,1h\n\n"
    );
}

#[test]
fn empty_interfaces_port_zero() {
    let out = generate_dnsmasq_conf(&config(0, vec![]));
    assert_eq!(out, "port=0\n");
}

#[test]
fn empty_interfaces_only_port_line() {
    assert_eq!(generate_dnsmasq_conf(&config(8053, vec![])), "port=8053\n");
}

#[test]
fn port_zero_with_interface_is_written() {
    let out = generate_dnsmasq_conf(&config(0, vec![iface("eth0", false, "r", vec![])]));
    assert_eq!(out, "port=0\ninterface=eth0\ndhcp-range=r\n\n");
}

#[test]
fn large_ports_in_decimal() {
    assert_eq!(generate_dnsmasq_conf(&config(10, vec![])), "port=10\n");
    assert_eq!(generate_dnsmasq_conf(&config(9, vec![])), "port=9\n");
    assert_eq!(generate_dnsmasq_conf(&config(65535, vec![])), "port=65535\n");
    assert_eq!(
        generate_dnsmasq_conf(&config(usize::MAX, vec![])),
        format!("port={}\n", usize::MAX)
    );
}

#[test]
fn two_leases_keep_order_and_are_contiguous() {
    let c = config(
        53,
        vec![iface(
            "eth0",
            true,
            "192.168.1.100,192.168.1.200,12h",
            vec![
                lease("aa:bb:cc:dd:ee:02", "192.168.1.11"),
                lease("aa:bb:cc:dd:ee:01", "192.168.1.10"),
            ],
        )],
    );
    let out = generate_dnsmasq_conf(&c);
    assert!(out.ends_with(
        "dhcp-host=aa:bb:cc:dd:ee:02,192.168.1.11\ndhcp-host=aa:bb:cc:dd:ee:01,192.168.1.10\n\n"
    ));
}

#[test]
fn interface_without_leases_has_no_host_line() {
    let out = generate_dnsmasq_conf(&config(53, vec![iface("eth0", true, "a,b,1h", vec![])]));
    assert!(!out.contains("dhcp-host"));
    assert_eq!(out, "port=53\ninterface=eth0\nbind-interfaces\ndhcp-range=a,b,1h\n\n");
}

#[test]
fn bind_off_omits_directive() {
    let out = generate_dnsmasq_conf(&config(53, vec![iface("eth0", false, "a,b,1h", vec![])]));
    assert!(!out.contains("bind-interfaces"));
}

#[test]
fn same_declaration_same_bytes() {
    let make = || {
        config(
            67,
            vec![
                iface("eth0", true, "x", vec![lease("m1", "i1"), lease("m2", "i2")]),
                iface("br0", false, "y", vec![lease("m3", "i3")]),
            ],
        )
    };
    assert_eq!(generate_dnsmasq_conf(&make()), generate_dnsmasq_conf(&make()));
}

#[test]
fn interface_blocks_follow_declaration_order() {
    let c = config(
        53,
        vec![
            iface("wlan0", false, "r1", vec![]),
            iface("eth0", false, "r2", vec![]),
            iface("br0", false, "r3", vec![]),
        ],
    );
    let out = generate_dnsmasq_conf(&c);
    let a = out.find("interface=wlan0").unwrap();
    let b = out.find("interface=eth0").unwrap();
    let d = out.find("interface=br0").unwrap();
    assert!(a < b && b < d);
}

#[test]
fn output_has_no_carriage_return() {
    let c = config(
        53,
        vec![
            iface("eth0", true, "a", vec![lease("m", "i")]),
            iface("eth1", false, "b", vec![]),
        ],
    );
    assert!(!generate_dnsmasq_conf(&c).as_bytes().contains(&0x0D));
}

#[test]
fn values_pass_through_verbatim() {
    let c = config(53, vec![iface(" eth 0 ", false, "\"q\" = 1", vec![lease("", "ü")])]);
    assert_eq!(
        generate_dnsmasq_conf(&c),
        "port=53\ninterface= eth 0 \ndhcp-range=\"q\" = 1\ndhcp-host=,ü\n\n"
    );
}
