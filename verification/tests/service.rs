use connman::api::composite::{get_composite, Composite};
use connman::api::service::{
    Error, Ethernet, EthernetKind, EthernetMethod, Ipv4, Ipv4Kind, Ipv4Method, Ipv6, Ipv6Kind,
    Ipv6Method, Ipv6Privacy, Properties, PropertyKind, Provider, ProviderKind, Proxy, ProxyKind,
    ProxyMethod, State, Type,
};
use connman::api::{FromProperties, Parse, PropertyError};
use connman::value::{DynamicValue, PropertyMap};

fn text(s: &str) -> DynamicValue {
    DynamicValue::Str(s.to_string())
}

fn texts(items: &[&str]) -> DynamicValue {
    DynamicValue::Array(items.iter().map(|s| text(s)).collect())
}

fn flat(pairs: Vec<(&str, DynamicValue)>) -> DynamicValue {
    let mut out = Vec::new();
    for (key, value) in pairs {
        out.push(text(key));
        out.push(value);
    }
    DynamicValue::Array(out)
}

fn some(s: &str) -> Option<String> {
    Some(s.to_string())
}

fn required(map: &mut PropertyMap) {
    map.insert("State".to_string(), text("online"));
    map.insert("Favorite".to_string(), DynamicValue::Bool(true));
    map.insert("Immutable".to_string(), DynamicValue::Bool(false));
    map.insert("AutoConnect".to_string(), DynamicValue::Bool(true));
    map.insert("Nameservers".to_string(), texts(&["10.0.0.1"]));
    map.insert("Nameservers.Configuration".to_string(), texts(&[]));
    map.insert("Timeservers".to_string(), texts(&["pool.ntp.org"]));
    map.insert("Timeservers.Configuration".to_string(), texts(&[]));
    map.insert("Domains".to_string(), texts(&["lan"]));
    map.insert("Domains.Configuration".to_string(), texts(&[]));
}

#[test]
fn state_spellings() {
    assert_eq!(State::from_str("idle"), Some(State::Idle));
    assert_eq!(State::from_str("failure"), Some(State::Failure));
    assert_eq!(State::from_str("association"), Some(State::Association));
    assert_eq!(State::from_str("configuration"), Some(State::Configuration));
    assert_eq!(State::from_str("ready"), Some(State::Ready));
    assert_eq!(State::from_str("disconnect"), Some(State::Disconnect));
    assert_eq!(State::from_str("online"), Some(State::Online));
    assert_eq!(State::from_str("Online"), None);
    assert_eq!(State::from_str(""), None);
}

#[test]
fn error_spellings() {
    assert_eq!(Error::from_str("out-of-range"), Some(Error::OutOfRange));
    assert_eq!(Error::from_str("pin-missing"), Some(Error::PinMissing));
    assert_eq!(Error::from_str("dhcp-failed"), Some(Error::DhcpFailed));
    assert_eq!(Error::from_str("connect-failed"), Some(Error::ConnectFailed));
    assert_eq!(Error::from_str("login-failed"), Some(Error::LoginFailed));
    assert_eq!(Error::from_str("auth-failed"), Some(Error::AuthFailed));
    assert_eq!(Error::from_str("invalid-key"), Some(Error::InvalidKey));
    assert_eq!(Error::from_str("invalid_key"), None);
}

#[test]
fn type_keeps_what_it_does_not_know() {
    assert_eq!(Type::from_str("wifi"), Some(Type::Wifi));
    assert_eq!(Type::from_str("ethernet"), Some(Type::Ethernet));
    assert_eq!(Type::from_str("bluetooth"), Some(Type::Unknown("bluetooth".to_string())));
    assert_eq!(Type::from_str(""), Some(Type::Unknown(String::new())));
}

#[test]
fn method_spellings() {
    assert_eq!(Ipv4Method::from_str("dhcp"), Some(Ipv4Method::Dhcp));
    assert_eq!(Ipv4Method::from_str("manual"), Some(Ipv4Method::Manual));
    assert_eq!(Ipv4Method::from_str("auto"), Some(Ipv4Method::Auto));
    assert_eq!(Ipv4Method::from_str("off"), Some(Ipv4Method::Off));
    assert_eq!(Ipv4Method::from_str("fixed"), Some(Ipv4Method::Fixed));
    assert_eq!(Ipv4Method::from_str("6to4"), None);
    assert_eq!(Ipv6Method::from_str("auto"), Some(Ipv6Method::Auto));
    assert_eq!(Ipv6Method::from_str("manual"), Some(Ipv6Method::Manual));
    assert_eq!(Ipv6Method::from_str("6to4"), Some(Ipv6Method::SixToFour));
    assert_eq!(Ipv6Method::from_str("off"), Some(Ipv6Method::Off));
    assert_eq!(Ipv6Method::from_str("dhcp"), None);
    assert_eq!(Ipv6Privacy::from_str("disabled"), Some(Ipv6Privacy::Disabled));
    assert_eq!(Ipv6Privacy::from_str("enabled"), Some(Ipv6Privacy::Enabled));
    assert_eq!(Ipv6Privacy::from_str("prefered"), Some(Ipv6Privacy::Prefered));
    assert_eq!(Ipv6Privacy::from_str("preferred"), None);
    assert_eq!(ProxyMethod::from_str("direct"), Some(ProxyMethod::Direct));
    assert_eq!(ProxyMethod::from_str("auto"), Some(ProxyMethod::Auto));
    assert_eq!(ProxyMethod::from_str("manual"), Some(ProxyMethod::Manual));
    assert_eq!(ProxyMethod::from_str("off"), None);
    assert_eq!(EthernetMethod::from_str("auto"), Some(EthernetMethod::Auto));
    assert_eq!(EthernetMethod::from_str("manual"), Some(EthernetMethod::Manual));
    assert_eq!(EthernetMethod::from_str("dhcp"), None);
    assert_eq!(ProxyMethod::Direct.name(), "direct");
    assert_eq!(ProxyMethod::Auto.name(), "auto");
    assert_eq!(ProxyMethod::Manual.name(), "manual");
    assert_eq!(EthernetMethod::Auto.name(), "auto");
    assert_eq!(EthernetMethod::Manual.name(), "manual");
}

#[test]
fn field_names_read_back() {
    for kind in [Ipv4Kind::Method, Ipv4Kind::Address, Ipv4Kind::Netmask, Ipv4Kind::Gateway] {
        assert_eq!(Ipv4Kind::from_str(kind.name()), Some(kind));
    }
    for kind in [
        Ipv6Kind::Method,
        Ipv6Kind::Address,
        Ipv6Kind::PrefixLength,
        Ipv6Kind::Gateway,
        Ipv6Kind::Privacy,
    ] {
        assert_eq!(Ipv6Kind::from_str(kind.name()), Some(kind));
    }
    for kind in [ProxyKind::Method, ProxyKind::Url, ProxyKind::Servers, ProxyKind::Excludes] {
        assert_eq!(ProxyKind::from_str(kind.name()), Some(kind));
    }
    for kind in [ProviderKind::Host, ProviderKind::Domain, ProviderKind::Name, ProviderKind::Type] {
        assert_eq!(ProviderKind::from_str(kind.name()), Some(kind));
    }
    for kind in [
        EthernetKind::Method,
        EthernetKind::Interface,
        EthernetKind::Address,
        EthernetKind::Mtu,
    ] {
        assert_eq!(EthernetKind::from_str(kind.name()), Some(kind));
    }
    assert_eq!(EthernetKind::Mtu.name(), "MTU");
    assert_eq!(EthernetKind::from_str("Mtu"), None);
    assert_eq!(Ipv4Kind::from_str("PrefixLength"), None);
}

#[test]
fn property_names_read_back() {
    let all = [
        (PropertyKind::State, "State"),
        (PropertyKind::Error, "Error"),
        (PropertyKind::Name, "Name"),
        (PropertyKind::Type, "Type"),
        (PropertyKind::Security, "Security"),
        (PropertyKind::Strength, "Strength"),
        (PropertyKind::Favorite, "Favorite"),
        (PropertyKind::Immutable, "Immutable"),
        (PropertyKind::AutoConnect, "AutoConnect"),
        (PropertyKind::Roaming, "Roaming"),
        (PropertyKind::Nameservers, "Nameservers"),
        (PropertyKind::NameserversConfiguration, "Nameservers.Configuration"),
        (PropertyKind::Timeservers, "Timeservers"),
        (PropertyKind::TimeserversConfiguration, "Timeservers.Configuration"),
        (PropertyKind::Domains, "Domains"),
        (PropertyKind::DomainsConfiguration, "Domains.Configuration"),
        (PropertyKind::Ipv4, "IPv4"),
        (PropertyKind::Ipv4Configuration, "IPv4.Configuration"),
        (PropertyKind::Ipv6, "IPv6"),
        (PropertyKind::Ipv6Configuration, "IPv6.Configuration"),
        (PropertyKind::Proxy, "Proxy"),
        (PropertyKind::ProxyConfiguration, "Proxy.Configuration"),
        (PropertyKind::Provider, "Provider"),
        (PropertyKind::Ethernet, "Ethernet"),
        (PropertyKind::Mdns, "mDNS"),
        (PropertyKind::MdnsConfiguration, "mDNS.Configuration"),
    ];
    for (kind, name) in all {
        assert_eq!(kind.name(), name);
        assert_eq!(PropertyKind::from_str(name), Some(kind));
    }
    assert_eq!(PropertyKind::from_str("Ipv4"), None);
    assert_eq!(PropertyKind::from_str("MDNS"), None);
}

#[test]
fn ipv4_decodes_every_field() {
    let elements = flat(vec![
        ("Method", text("manual")),
        ("Address", text("192.168.1.20")),
        ("Netmask", text("255.255.255.0")),
        ("Gateway", text("192.168.1.1")),
    ])
    .elements()
    .unwrap();
    assert_eq!(
        Ipv4::from_elements(&elements),
        Ipv4 {
            method: Some(Ipv4Method::Manual),
            address: some("192.168.1.20"),
            netmask: some("255.255.255.0"),
            gateway: some("192.168.1.1"),
        }
    );
}

#[test]
fn ipv4_malformed_method_alone_is_none() {
    let elements = flat(vec![
        ("Method", text("carrier-pigeon")),
        ("Address", text("192.168.1.20")),
        ("Netmask", text("255.255.255.0")),
        ("Gateway", text("192.168.1.1")),
    ])
    .elements()
    .unwrap();
    assert_eq!(
        Ipv4::from_elements(&elements),
        Ipv4 {
            method: None,
            address: some("192.168.1.20"),
            netmask: some("255.255.255.0"),
            gateway: some("192.168.1.1"),
        }
    );
}

#[test]
fn ipv4_value_of_the_wrong_kind_is_passed_over() {
    let elements = flat(vec![
        ("Method", text("dhcp")),
        ("Address", DynamicValue::U32(7)),
        ("Gateway", text("192.168.1.1")),
    ])
    .elements()
    .unwrap();
    assert_eq!(
        Ipv4::from_elements(&elements),
        Ipv4 {
            method: Some(Ipv4Method::Dhcp),
            address: None,
            netmask: None,
            gateway: some("192.168.1.1"),
        }
    );
}

#[test]
fn unknown_field_names_are_ignored() {
    let elements = flat(vec![
        ("Speed", DynamicValue::U16(1000)),
        ("Method", text("dhcp")),
        ("method", text("manual")),
    ])
    .elements()
    .unwrap();
    assert_eq!(
        Ipv4::from_elements(&elements),
        Ipv4 { method: Some(Ipv4Method::Dhcp), address: None, netmask: None, gateway: None }
    );
}

#[test]
fn walk_ends_before_a_name_that_is_no_string() {
    let elements = vec![
        text("Method"),
        text("dhcp"),
        DynamicValue::U8(1),
        text("ignored"),
        text("Address"),
        text("10.0.0.2"),
    ];
    assert_eq!(
        Ipv4::from_elements(&elements),
        Ipv4 { method: Some(Ipv4Method::Dhcp), address: None, netmask: None, gateway: None }
    );
}

#[test]
fn a_last_name_without_a_value_is_left_out() {
    let elements = vec![text("Method"), text("dhcp"), text("Address")];
    assert_eq!(
        Ipv4::from_elements(&elements),
        Ipv4 { method: Some(Ipv4Method::Dhcp), address: None, netmask: None, gateway: None }
    );
    let nothing: Vec<DynamicValue> = vec![];
    assert_eq!(
        Ipv4::from_elements(&nothing),
        Ipv4 { method: None, address: None, netmask: None, gateway: None }
    );
}

#[test]
fn the_last_pair_that_reads_counts() {
    let elements = flat(vec![
        ("Address", text("10.0.0.1")),
        ("Address", text("10.0.0.2")),
        ("Address", DynamicValue::Bool(true)),
        ("Method", text("dhcp")),
        ("Method", text("bogus")),
    ])
    .elements()
    .unwrap();
    assert_eq!(
        Ipv4::from_elements(&elements),
        Ipv4 {
            method: Some(Ipv4Method::Dhcp),
            address: some("10.0.0.2"),
            netmask: None,
            gateway: None,
        }
    );
}

#[test]
fn ipv6_decodes_every_field() {
    let elements = flat(vec![
        ("Method", text("6to4")),
        ("Address", text("fe80::1")),
        ("PrefixLength", text("64")),
        ("Gateway", text("fe80::ff")),
        ("Privacy", text("prefered")),
    ])
    .elements()
    .unwrap();
    assert_eq!(
        Ipv6::from_elements(&elements),
        Ipv6 {
            method: Some(Ipv6Method::SixToFour),
            address: some("fe80::1"),
            prefix_length: Some(64),
            gateway: some("fe80::ff"),
            privacy: Some(Ipv6Privacy::Prefered),
        }
    );
}

#[test]
fn ipv6_malformed_prefix_length_alone_is_none() {
    for bad in [text("300"), text("sixty-four"), text(""), DynamicValue::U8(64)] {
        let elements = flat(vec![
            ("Method", text("auto")),
            ("Address", text("fe80::1")),
            ("PrefixLength", bad),
            ("Gateway", text("fe80::ff")),
            ("Privacy", text("enabled")),
        ])
        .elements()
        .unwrap();
        assert_eq!(
            Ipv6::from_elements(&elements),
            Ipv6 {
                method: Some(Ipv6Method::Auto),
                address: some("fe80::1"),
                prefix_length: None,
                gateway: some("fe80::ff"),
                privacy: Some(Ipv6Privacy::Enabled),
            }
        );
    }
}

#[test]
fn proxy_decodes_every_field() {
    let elements = flat(vec![
        ("Method", text("manual")),
        ("Url", text("http://proxy.example/wpad.dat")),
        ("Servers", texts(&["proxy.example:8080"])),
        ("Excludes", texts(&["localhost", "lan"])),
    ])
    .elements()
    .unwrap();
    assert_eq!(
        Proxy::from_elements(&elements),
        Proxy {
            method: Some(ProxyMethod::Manual),
            url: some("http://proxy.example/wpad.dat"),
            servers: Some(vec!["proxy.example:8080".to_string()]),
            excludes: Some(vec!["localhost".to_string(), "lan".to_string()]),
        }
    );
}

#[test]
fn proxy_malformed_servers_alone_is_none() {
    let elements = flat(vec![
        ("Method", text("manual")),
        ("Url", text("http://proxy.example/wpad.dat")),
        ("Servers", DynamicValue::Array(vec![text("a"), DynamicValue::U8(1)])),
        ("Excludes", texts(&[])),
    ])
    .elements()
    .unwrap();
    assert_eq!(
        Proxy::from_elements(&elements),
        Proxy {
            method: Some(ProxyMethod::Manual),
            url: some("http://proxy.example/wpad.dat"),
            servers: None,
            excludes: Some(vec![]),
        }
    );
}

#[test]
fn provider_decodes_every_field() {
    let elements = flat(vec![
        ("Host", text("vpn.example")),
        ("Domain", text("example")),
        ("Name", text("work")),
        ("Type", text("openvpn")),
    ])
    .elements()
    .unwrap();
    assert_eq!(
        Provider::from_elements(&elements),
        Provider {
            host: some("vpn.example"),
            domain: some("example"),
            name: some("work"),
            type_: some("openvpn"),
        }
    );
}

#[test]
fn provider_malformed_domain_alone_is_none() {
    let elements = flat(vec![
        ("Host", text("vpn.example")),
        ("Domain", DynamicValue::Bool(false)),
        ("Name", text("work")),
        ("Type", text("openvpn")),
    ])
    .elements()
    .unwrap();
    assert_eq!(
        Provider::from_elements(&elements),
        Provider {
            host: some("vpn.example"),
            domain: None,
            name: some("work"),
            type_: some("openvpn"),
        }
    );
}

#[test]
fn ethernet_decodes_every_field() {
    let elements = flat(vec![
        ("Method", text("auto")),
        ("Interface", text("eth0")),
        ("Address", text("00:11:22:33:44:55")),
        ("MTU", DynamicValue::U16(1500)),
    ])
    .elements()
    .unwrap();
    assert_eq!(
        Ethernet::from_elements(&elements),
        Ethernet {
            method: Some(EthernetMethod::Auto),
            interface: some("eth0"),
            address: some("00:11:22:33:44:55"),
            mtu: Some(1500),
        }
    );
}

#[test]
fn ethernet_mtu_must_fit_sixteen_bits() {
    let cases = [
        (DynamicValue::U8(200), Some(200u16)),
        (DynamicValue::U16(1500), Some(1500)),
        (DynamicValue::U32(1500), Some(1500)),
        (DynamicValue::U32(65535), Some(65535)),
        (DynamicValue::U64(9000), Some(9000)),
        (DynamicValue::U64(0), Some(0)),
        (DynamicValue::U32(65536), None),
        (DynamicValue::U32(70000), None),
        (DynamicValue::U32(65536 + 9000), None),
        (DynamicValue::U64(65536), None),
        (DynamicValue::U64(u64::MAX), None),
        (DynamicValue::Bool(true), None),
        (DynamicValue::Bool(false), None),
        (text("1500"), None),
    ];
    for (value, mtu) in cases {
        let elements = flat(vec![("MTU", value)]).elements().unwrap();
        assert_eq!(
            Ethernet::from_elements(&elements),
            Ethernet { method: None, interface: None, address: None, mtu }
        );
    }
}

#[test]
fn ethernet_mtu_too_large_alone_is_none() {
    let mut map = PropertyMap::new();
    map.insert(
        "Ethernet".to_string(),
        flat(vec![
            ("Method", text("auto")),
            ("Interface", text("eth0")),
            ("MTU", DynamicValue::U32(70000)),
        ]),
    );
    assert_eq!(
        Ethernet::from_properties(&map, "Ethernet"),
        Ok(Ethernet {
            method: Some(EthernetMethod::Auto),
            interface: some("eth0"),
            address: None,
            mtu: None,
        })
    );
}

#[test]
fn ethernet_mtu_that_does_not_fit_leaves_an_earlier_one() {
    let elements = flat(vec![("MTU", DynamicValue::U16(1500)), ("MTU", DynamicValue::U32(70000))])
        .elements()
        .unwrap();
    assert_eq!(
        Ethernet::from_elements(&elements),
        Ethernet { method: None, interface: None, address: None, mtu: Some(1500) }
    );
}

#[test]
fn ethernet_unknown_field_is_ignored() {
    let elements = flat(vec![
        ("Speed", DynamicValue::U16(1000)),
        ("Duplex", text("full")),
        ("Interface", text("eth0")),
    ])
    .elements()
    .unwrap();
    assert_eq!(
        Ethernet::from_elements(&elements),
        Ethernet { method: None, interface: some("eth0"), address: None, mtu: None }
    );
}

#[test]
fn composite_from_a_dictionary() {
    let mut map = PropertyMap::new();
    map.insert(
        "IPv4".to_string(),
        DynamicValue::Dict(vec![
            ("Method".to_string(), text("dhcp")),
            ("Address".to_string(), text("10.0.0.9")),
        ]),
    );
    assert_eq!(
        Ipv4::from_properties(&map, "IPv4"),
        Ok(Ipv4 {
            method: Some(Ipv4Method::Dhcp),
            address: some("10.0.0.9"),
            netmask: None,
            gateway: None,
        })
    );
}

#[test]
fn composite_property_must_be_a_container() {
    let mut map = PropertyMap::new();
    map.insert("IPv4".to_string(), text("dhcp"));
    assert_eq!(
        Ipv4::from_properties(&map, "IPv4"),
        Err(PropertyError::Cast("IPv4".to_string()))
    );
    assert_eq!(
        Ipv6::from_properties(&map, "IPv6"),
        Err(PropertyError::NotPresent("IPv6".to_string()))
    );
    assert_eq!(
        Proxy::from_properties(&map, "Proxy"),
        Err(PropertyError::NotPresent("Proxy".to_string()))
    );
    assert_eq!(
        Provider::from_properties(&map, "IPv4"),
        Err(PropertyError::Cast("IPv4".to_string()))
    );
    assert_eq!(
        Ethernet::from_properties(&map, "Ethernet"),
        Err(PropertyError::NotPresent("Ethernet".to_string()))
    );
}

#[test]
fn get_composite_never_fails() {
    let mut map = PropertyMap::new();
    map.insert("IPv4".to_string(), text("dhcp"));
    map.insert("Ethernet".to_string(), flat(vec![("Interface", text("eth0"))]));
    let empty = Ipv4 { method: None, address: None, netmask: None, gateway: None };
    assert_eq!(get_composite::<Ipv4>(&map, "IPv4"), empty);
    assert_eq!(get_composite::<Ipv4>(&map, "IPv4.Configuration"), empty);
    assert_eq!(
        get_composite::<Ethernet>(&map, "Ethernet"),
        Ethernet { method: None, interface: some("eth0"), address: None, mtu: None }
    );
}

#[test]
fn service_missing_state_is_not_present_whatever_else_is_there() {
    let mut map = PropertyMap::new();
    required(&mut map);
    let mut without = PropertyMap::new();
    without.insert("Favorite".to_string(), DynamicValue::Bool(true));
    without.insert("Strength".to_string(), text("not a number"));
    without.insert("Name".to_string(), text("home"));
    assert_eq!(
        Properties::try_from(without).unwrap_err(),
        PropertyError::NotPresent("State".to_string())
    );
    assert_eq!(
        Properties::try_from(PropertyMap::new()).unwrap_err(),
        PropertyError::NotPresent("State".to_string())
    );
    assert!(Properties::try_from(map).is_ok());
}

#[test]
fn service_state_of_the_wrong_kind_is_a_cast_error() {
    let mut map = PropertyMap::new();
    required(&mut map);
    map.insert("State".to_string(), DynamicValue::Bool(true));
    assert_eq!(Properties::try_from(map).unwrap_err(), PropertyError::Cast("State".to_string()));
    let mut map = PropertyMap::new();
    required(&mut map);
    map.insert("State".to_string(), text("asleep"));
    assert_eq!(Properties::try_from(map).unwrap_err(), PropertyError::Cast("State".to_string()));
}

#[test]
fn service_first_missing_required_property_is_named() {
    let names = [
        "State",
        "Favorite",
        "Immutable",
        "AutoConnect",
        "Nameservers",
        "Nameservers.Configuration",
        "Timeservers",
        "Timeservers.Configuration",
        "Domains",
        "Domains.Configuration",
    ];
    for missing in 0..names.len() {
        let mut full = PropertyMap::new();
        required(&mut full);
        let mut map = PropertyMap::new();
        for (i, name) in names.iter().enumerate() {
            if i != missing {
                map.insert(name.to_string(), full.get(name).unwrap().duplicate());
            }
        }
        // An optional property of the wrong kind is read later and so is not
        // what is reported.
        map.insert("Strength".to_string(), text("strong"));
        assert_eq!(
            Properties::try_from(map).unwrap_err(),
            PropertyError::NotPresent(names[missing].to_string())
        );
    }
}

#[test]
fn service_optional_property_of_the_wrong_kind_is_a_cast_error() {
    let mut map = PropertyMap::new();
    required(&mut map);
    map.insert("Strength".to_string(), DynamicValue::U32(50));
    assert_eq!(
        Properties::try_from(map).unwrap_err(),
        PropertyError::Cast("Strength".to_string())
    );
    let mut map = PropertyMap::new();
    required(&mut map);
    map.insert("Error".to_string(), text("gremlins"));
    map.insert("Strength".to_string(), DynamicValue::U32(50));
    assert_eq!(Properties::try_from(map).unwrap_err(), PropertyError::Cast("Error".to_string()));
}

#[test]
fn service_with_only_the_required_properties() {
    let mut map = PropertyMap::new();
    required(&mut map);
    let props = Properties::try_from(map).unwrap();
    assert_eq!(props.state, State::Online);
    assert_eq!(props.error, None);
    assert_eq!(props.name, None);
    assert_eq!(props.type_, None);
    assert_eq!(props.security, None);
    assert_eq!(props.strength, None);
    assert!(props.favorite);
    assert!(!props.immutable);
    assert!(props.autoconnect);
    assert_eq!(props.roaming, None);
    assert_eq!(props.nameservers, vec!["10.0.0.1".to_string()]);
    assert!(props.nameservers_config.is_empty());
    assert_eq!(props.timeservers, vec!["pool.ntp.org".to_string()]);
    assert!(props.timeservers_config.is_empty());
    assert_eq!(props.domains, vec!["lan".to_string()]);
    assert!(props.domains_config.is_empty());
    let no_ipv4 = Ipv4 { method: None, address: None, netmask: None, gateway: None };
    assert_eq!(props.ipv4, no_ipv4);
    assert_eq!(props.ipv4_config, no_ipv4);
    assert_eq!(props.ipv6.method, None);
    assert_eq!(props.ipv6_config.prefix_length, None);
    assert_eq!(props.proxy.servers, None);
    assert_eq!(props.proxy_config.method, None);
    assert_eq!(props.provider.host, None);
    assert_eq!(props.ethernet.mtu, None);
    assert_eq!(props.mdns, None);
    assert_eq!(props.mdns_config, None);
}

#[test]
fn service_round_trip() {
    let mut map = PropertyMap::new();
    map.insert("State".to_string(), text("failure"));
    map.insert("Error".to_string(), text("dhcp-failed"));
    map.insert("Name".to_string(), text("home"));
    map.insert("Type".to_string(), text("wifi"));
    map.insert("Security".to_string(), texts(&["psk", "wps"]));
    map.insert("Strength".to_string(), DynamicValue::U8(72));
    map.insert("Favorite".to_string(), DynamicValue::Bool(true));
    map.insert("Immutable".to_string(), DynamicValue::Bool(false));
    map.insert("AutoConnect".to_string(), DynamicValue::Bool(true));
    map.insert("Roaming".to_string(), DynamicValue::Bool(false));
    map.insert("Nameservers".to_string(), texts(&["10.0.0.1", "10.0.0.2"]));
    map.insert("Nameservers.Configuration".to_string(), texts(&["9.9.9.9"]));
    map.insert("Timeservers".to_string(), texts(&["pool.ntp.org"]));
    map.insert("Timeservers.Configuration".to_string(), texts(&["time.example"]));
    map.insert("Domains".to_string(), texts(&["lan"]));
    map.insert("Domains.Configuration".to_string(), texts(&["example"]));
    map.insert(
        "IPv4".to_string(),
        flat(vec![
            ("Method", text("dhcp")),
            ("Address", text("192.168.1.20")),
            ("Netmask", text("255.255.255.0")),
            ("Gateway", text("192.168.1.1")),
        ]),
    );
    map.insert("IPv4.Configuration".to_string(), flat(vec![("Method", text("dhcp"))]));
    map.insert(
        "IPv6".to_string(),
        flat(vec![
            ("Method", text("auto")),
            ("Address", text("fe80::1")),
            ("PrefixLength", text("64")),
            ("Gateway", text("fe80::ff")),
            ("Privacy", text("disabled")),
        ]),
    );
    map.insert("IPv6.Configuration".to_string(), flat(vec![("Method", text("off"))]));
    map.insert("Proxy".to_string(), flat(vec![("Method", text("direct"))]));
    map.insert(
        "Proxy.Configuration".to_string(),
        flat(vec![("Method", text("manual")), ("Servers", texts(&["proxy:3128"]))]),
    );
    map.insert("Provider".to_string(), flat(vec![]));
    map.insert(
        "Ethernet".to_string(),
        flat(vec![
            ("Method", text("auto")),
            ("Interface", text("wlan0")),
            ("Address", text("00:11:22:33:44:55")),
            ("MTU", DynamicValue::U16(1500)),
        ]),
    );
    map.insert("mDNS".to_string(), DynamicValue::Bool(true));
    map.insert("mDNS.Configuration".to_string(), DynamicValue::Bool(false));

    let props = Properties::try_from(map).unwrap();
    assert_eq!(props.state, State::Failure);
    assert_eq!(props.error, Some(Error::DhcpFailed));
    assert_eq!(props.name, some("home"));
    assert_eq!(props.type_, Some(Type::Wifi));
    assert_eq!(props.security, Some(vec!["psk".to_string(), "wps".to_string()]));
    assert_eq!(props.strength, Some(72));
    assert!(props.favorite);
    assert!(!props.immutable);
    assert!(props.autoconnect);
    assert_eq!(props.roaming, Some(false));
    assert_eq!(props.nameservers, vec!["10.0.0.1".to_string(), "10.0.0.2".to_string()]);
    assert_eq!(props.nameservers_config, vec!["9.9.9.9".to_string()]);
    assert_eq!(props.timeservers, vec!["pool.ntp.org".to_string()]);
    assert_eq!(props.timeservers_config, vec!["time.example".to_string()]);
    assert_eq!(props.domains, vec!["lan".to_string()]);
    assert_eq!(props.domains_config, vec!["example".to_string()]);
    assert_eq!(
        props.ipv4,
        Ipv4 {
            method: Some(Ipv4Method::Dhcp),
            address: some("192.168.1.20"),
            netmask: some("255.255.255.0"),
            gateway: some("192.168.1.1"),
        }
    );
    assert_eq!(
        props.ipv4_config,
        Ipv4 { method: Some(Ipv4Method::Dhcp), address: None, netmask: None, gateway: None }
    );
    assert_eq!(
        props.ipv6,
        Ipv6 {
            method: Some(Ipv6Method::Auto),
            address: some("fe80::1"),
            prefix_length: Some(64),
            gateway: some("fe80::ff"),
            privacy: Some(Ipv6Privacy::Disabled),
        }
    );
    assert_eq!(
        props.ipv6_config,
        Ipv6 {
            method: Some(Ipv6Method::Off),
            address: None,
            prefix_length: None,
            gateway: None,
            privacy: None,
        }
    );
    assert_eq!(
        props.proxy,
        Proxy { method: Some(ProxyMethod::Direct), url: None, servers: None, excludes: None }
    );
    assert_eq!(
        props.proxy_config,
        Proxy {
            method: Some(ProxyMethod::Manual),
            url: None,
            servers: Some(vec!["proxy:3128".to_string()]),
            excludes: None,
        }
    );
    assert_eq!(props.provider, Provider { host: None, domain: None, name: None, type_: None });
    assert_eq!(
        props.ethernet,
        Ethernet {
            method: Some(EthernetMethod::Auto),
            interface: some("wlan0"),
            address: some("00:11:22:33:44:55"),
            mtu: Some(1500),
        }
    );
    assert_eq!(props.mdns, Some(true));
    assert_eq!(props.mdns_config, Some(false));
}

#[test]
fn service_malformed_composite_never_aborts() {
    let mut map = PropertyMap::new();
    required(&mut map);
    map.insert("IPv4".to_string(), DynamicValue::U8(4));
    map.insert("Ethernet".to_string(), text("eth0"));
    map.insert("Proxy".to_string(), flat(vec![("Method", text("teleport"))]));
    let props = Properties::try_from(map).unwrap();
    assert_eq!(props.ipv4.method, None);
    assert_eq!(props.ethernet.interface, None);
    assert_eq!(props.proxy.method, None);
}

#[test]
fn assemble_twice_gives_the_same() {
    let mut map = PropertyMap::new();
    required(&mut map);
    map.insert("Name".to_string(), text("home"));
    let first = Properties::assemble(&map).unwrap();
    let second = Properties::assemble(&map).unwrap();
    assert_eq!(first.name, second.name);
    assert_eq!(first.state, second.state);
    assert_eq!(first.nameservers, second.nameservers);
    assert_eq!(first.ipv4, second.ipv4);
}

#[test]
fn a_sub_field_of_another_kind_alone_is_none() {
    let elements = flat(vec![
        ("Method", text("auto")),
        ("Interface", DynamicValue::Other),
        ("Address", text("00:11:22:33:44:55")),
        ("MTU", DynamicValue::Other),
        ("Speed", DynamicValue::Other),
    ])
    .elements()
    .unwrap();
    assert_eq!(
        Ethernet::from_elements(&elements),
        Ethernet {
            method: Some(EthernetMethod::Auto),
            interface: None,
            address: some("00:11:22:33:44:55"),
            mtu: None,
        }
    );
}

#[test]
fn a_property_that_nothing_reads_may_be_of_any_kind() {
    let mut map = PropertyMap::new();
    required(&mut map);
    map.insert("Timeout".to_string(), DynamicValue::Other);
    assert!(Properties::try_from(map).is_ok());
    let mut map = PropertyMap::new();
    required(&mut map);
    map.insert("Favorite".to_string(), DynamicValue::Other);
    assert_eq!(
        Properties::try_from(map).unwrap_err(),
        PropertyError::Cast("Favorite".to_string())
    );
}

#[test]
fn a_composite_reads_the_same_from_a_flat_array_and_from_a_dictionary() {
    let mut map = PropertyMap::new();
    map.insert(
        "IPv6".to_string(),
        flat(vec![
            ("Method", text("manual")),
            ("Address", text("fe80::1")),
            ("PrefixLength", text("64")),
        ]),
    );
    map.insert(
        "IPv6.Configuration".to_string(),
        DynamicValue::Dict(vec![
            ("Method".to_string(), text("manual")),
            ("Address".to_string(), text("fe80::1")),
            ("PrefixLength".to_string(), text("64")),
        ]),
    );
    let expected = Ipv6 {
        method: Some(Ipv6Method::Manual),
        address: some("fe80::1"),
        prefix_length: Some(64),
        gateway: None,
        privacy: None,
    };
    assert_eq!(Ipv6::from_properties(&map, "IPv6"), Ok(expected.clone()));
    assert_eq!(Ipv6::from_properties(&map, "IPv6.Configuration"), Ok(expected));
}
