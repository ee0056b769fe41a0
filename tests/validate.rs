use dhcp_server::config::{validate, Config, DHCPConfig, Interface, SchemaError, StaticLease};

fn iface(name: &str, range: &str, leases: Vec<StaticLease>) -> Interface {
    Interface {
        name: name.to_string(),
        bind_interfaces: true,
        dhcp_range: range.to_string(),
        static_leases: leases,
    }
}

fn config(conf: &str, interfaces: Vec<Interface>) -> Config {
    Config { dhcp_config: DHCPConfig { conf: conf.to_string(), port: 53 }, interfaces }
}

fn lease(mac: &str, ip: &str) -> StaticLease {
    StaticLease { mac: mac.to_string(), ip: ip.to_string() }
}

#[test]
fn valid_declaration_passes() {
    let c = config("/etc/dnsmasq.conf", vec![iface("eth0", "a,b,1h", vec![lease("m", "i")])]);
    assert_eq!(validate(&c), Ok(()));
    assert_eq!(validate(&config("/x", vec![])), Ok(()));
}

#[test]
fn empty_conf_path_is_refused() {
    let c = config("", vec![iface("", "a", vec![])]);
    assert_eq!(validate(&c), Err(SchemaError::ConfPathEmpty));
}

#[test]
fn empty_interface_name_is_refused_with_position() {
    let c = config("/x", vec![iface("eth0", "a", vec![]), iface("", "b", vec![])]);
    assert_eq!(validate(&c), Err(SchemaError::InterfaceNameEmpty(1)));
}

#[test]
fn line_breaks_in_values_are_refused() {
    let c = config("/x", vec![iface("eth0\n", "a", vec![])]);
    assert_eq!(validate(&c), Err(SchemaError::LineBreak(0)));
    let c = config("/x", vec![iface("eth0", "a\r", vec![])]);
    assert_eq!(validate(&c), Err(SchemaError::LineBreak(0)));
    let c = config(
        "/x",
        vec![iface("eth0", "a", vec![]), iface("eth1", "b", vec![lease("m", "i"), lease("m\r", "i")])],
    );
    assert_eq!(validate(&c), Err(SchemaError::LineBreak(1)));
}

#[test]
fn first_problem_is_reported() {
    let c = config("/x", vec![iface("eth0", "a\n", vec![]), iface("", "b", vec![])]);
    assert_eq!(validate(&c), Err(SchemaError::LineBreak(0)));
}
