use connman::api::manager::{
    get_object, get_objects, Property as ManagerProperty, Signal as ManagerSignal, SignalKind,
    State as ManagerState,
};
use connman::api::service::{
    Ipv4, Ipv4Method, Property as ServiceProperty, Signal as ServiceSignal,
    State as ServiceState,
};
use connman::api::technology::{
    Property as TechnologyProperty, Signal as TechnologySignal, Type as TechnologyType,
};
use connman::api::{Parse, PropertyError};
use connman::signal::{
    classify, get_changed_property, Classified, Message, NoMatch, Scope, Signal, SignalError,
};
use connman::value::DynamicValue;

fn text(s: &str) -> DynamicValue {
    DynamicValue::Str(s.to_string())
}

fn message(interface: &str, member: &str, args: Vec<DynamicValue>) -> Message {
    Message { interface: interface.to_string(), member: member.to_string(), args }
}

fn technology_dict() -> DynamicValue {
    DynamicValue::Dict(vec![
        ("Powered".to_string(), DynamicValue::Bool(true)),
        ("Name".to_string(), text("WiFi")),
    ])
}

#[test]
fn scope_of_an_interface() {
    assert_eq!(Scope::from_str("net.connman.Manager"), Some(Scope::Manager));
    assert_eq!(Scope::from_str("net.connman.Technology"), Some(Scope::Technology));
    assert_eq!(Scope::from_str("net.connman.Service"), Some(Scope::Service));
    assert_eq!(Scope::from_str("net.connman.Clock"), None);
    assert_eq!(Scope::from_str("org.freedesktop.DBus.Properties"), None);
    assert_eq!(Scope::Manager.name(), "net.connman.Manager");
    assert_eq!(Scope::Technology.name(), "net.connman.Technology");
    assert_eq!(Scope::Service.name(), "net.connman.Service");
}

#[test]
fn each_signal_name_is_its_own_kind() {
    let all = [
        (SignalKind::TechnologyAdded, "TechnologyAdded"),
        (SignalKind::TechnologyRemoved, "TechnologyRemoved"),
        (SignalKind::ServicesChanged, "ServicesChanged"),
        (SignalKind::PropertyChanged, "PropertyChanged"),
        (SignalKind::PeersChanged, "PeersChanged"),
    ];
    for (kind, name) in all {
        assert_eq!(kind.name(), name);
        assert_eq!(SignalKind::from_str(name), Some(kind));
    }
    assert_eq!(SignalKind::from_str("Unknown"), None);
}

#[test]
fn manager_technology_added_decodes() {
    let outcome = classify(&message(
        "net.connman.Manager",
        "TechnologyAdded",
        vec![text("/net/connman/technology/wifi"), technology_dict()],
    ));
    match outcome {
        Classified::Decoded(Signal::Manager(ManagerSignal::TechnologyAdded(path, properties))) => {
            assert_eq!(path, "/net/connman/technology/wifi");
            assert_eq!(properties.get("Powered"), Some(&DynamicValue::Bool(true)));
            assert_eq!(properties.get("Name"), Some(&text("WiFi")));
            assert_eq!(properties.get("Type"), None);
        }
        _ => panic!("the message was not decoded as this signal"),
    }
}

#[test]
fn manager_unknown_member_is_not_applicable() {
    let outcome = classify(&message("net.connman.Manager", "Unknown", vec![]));
    assert!(matches!(outcome, Classified::NotApplicable(NoMatch::Signal)));
    let outcome = classify(&message(
        "net.connman.Manager",
        "Unknown",
        vec![text("/net/connman/technology/wifi"), technology_dict()],
    ));
    assert!(matches!(outcome, Classified::NotApplicable(NoMatch::Signal)));
}

#[test]
fn unknown_interface_is_not_applicable() {
    let outcome = classify(&message(
        "net.connman.Clock",
        "PropertyChanged",
        vec![text("Time"), DynamicValue::U64(0)],
    ));
    assert!(matches!(outcome, Classified::NotApplicable(NoMatch::Scope)));
    let outcome = classify(&message("", "TechnologyAdded", vec![]));
    assert!(matches!(outcome, Classified::NotApplicable(NoMatch::Scope)));
}

#[test]
fn a_member_of_another_scope_is_not_applicable() {
    let outcome = classify(&message(
        "net.connman.Service",
        "TechnologyAdded",
        vec![text("/net/connman/technology/wifi"), technology_dict()],
    ));
    assert!(matches!(outcome, Classified::NotApplicable(NoMatch::Signal)));
    let outcome = classify(&message(
        "net.connman.Technology",
        "ServicesChanged",
        vec![DynamicValue::Array(vec![]), DynamicValue::Array(vec![])],
    ));
    assert!(matches!(outcome, Classified::NotApplicable(NoMatch::Signal)));
}

#[test]
fn manager_technology_added_with_wrong_arguments_is_malformed() {
    let cases = vec![
        vec![],
        vec![text("/net/connman/technology/wifi")],
        vec![technology_dict(), text("/net/connman/technology/wifi")],
        vec![text("/net/connman/technology/wifi"), DynamicValue::Array(vec![])],
        vec![text("/net/connman/technology/wifi"), technology_dict(), DynamicValue::Bool(true)],
    ];
    for args in cases {
        let outcome = classify(&message("net.connman.Manager", "TechnologyAdded", args));
        assert!(matches!(outcome, Classified::Malformed(SignalError::Arguments)));
    }
}

#[test]
fn manager_technology_removed() {
    let outcome = classify(&message(
        "net.connman.Manager",
        "TechnologyRemoved",
        vec![text("/net/connman/technology/wifi")],
    ));
    match outcome {
        Classified::Decoded(Signal::Manager(ManagerSignal::TechnologyRemoved(path))) => {
            assert_eq!(path, "/net/connman/technology/wifi")
        }
        _ => panic!("the message was not decoded as this signal"),
    }
    let outcome =
        classify(&message("net.connman.Manager", "TechnologyRemoved", vec![DynamicValue::U8(1)]));
    assert!(matches!(outcome, Classified::Malformed(SignalError::Arguments)));
    let outcome = classify(&message("net.connman.Manager", "TechnologyRemoved", vec![]));
    assert!(matches!(outcome, Classified::Malformed(SignalError::Arguments)));
}

#[test]
fn manager_services_changed() {
    let changed = DynamicValue::Array(vec![
        DynamicValue::Array(vec![
            text("/net/connman/service/a"),
            DynamicValue::Dict(vec![("State".to_string(), text("idle"))]),
        ]),
        DynamicValue::Array(vec![text("/net/connman/service/b"), DynamicValue::Dict(vec![])]),
    ]);
    let removed = DynamicValue::Array(vec![text("/net/connman/service/c")]);
    let outcome =
        classify(&message("net.connman.Manager", "ServicesChanged", vec![changed, removed]));
    match outcome {
        Classified::Decoded(Signal::Manager(ManagerSignal::ServicesChanged(changed, removed))) => {
            assert_eq!(changed.len(), 2);
            assert_eq!(changed[0].0, "/net/connman/service/a");
            assert_eq!(changed[0].1.get("State"), Some(&text("idle")));
            assert_eq!(changed[1].0, "/net/connman/service/b");
            assert_eq!(changed[1].1.get("State"), None);
            assert_eq!(removed, vec!["/net/connman/service/c".to_string()]);
        }
        _ => panic!("the message was not decoded as this signal"),
    }
}

#[test]
fn manager_peers_changed() {
    let outcome = classify(&message(
        "net.connman.Manager",
        "PeersChanged",
        vec![DynamicValue::Array(vec![]), DynamicValue::Array(vec![text("/net/connman/peer/p")])],
    ));
    match outcome {
        Classified::Decoded(Signal::Manager(ManagerSignal::PeersChanged(changed, removed))) => {
            assert!(changed.is_empty());
            assert_eq!(removed, vec!["/net/connman/peer/p".to_string()]);
        }
        _ => panic!("the message was not decoded as this signal"),
    }
}

#[test]
fn manager_changed_list_with_wrong_arguments_is_malformed() {
    let good = || DynamicValue::Array(vec![]);
    let cases = vec![
        vec![],
        vec![good()],
        vec![good(), good(), good()],
        vec![text("x"), good()],
        vec![good(), DynamicValue::Array(vec![DynamicValue::U8(1)])],
        vec![DynamicValue::Array(vec![text("/net/connman/service/a")]), good()],
        vec![
            DynamicValue::Array(vec![DynamicValue::Array(vec![
                text("/net/connman/service/a"),
                text("not a dictionary"),
            ])]),
            good(),
        ],
        vec![
            DynamicValue::Array(vec![DynamicValue::Array(vec![
                text("/net/connman/service/a"),
                DynamicValue::Dict(vec![]),
                DynamicValue::Dict(vec![]),
            ])]),
            good(),
        ],
    ];
    for member in ["ServicesChanged", "PeersChanged"] {
        for args in &cases {
            let args = args.iter().map(|a| a.duplicate()).collect();
            let outcome = classify(&message("net.connman.Manager", member, args));
            assert!(matches!(outcome, Classified::Malformed(SignalError::Arguments)));
        }
    }
}

#[test]
fn objects_are_read_in_order() {
    let one = DynamicValue::Array(vec![text("/a"), DynamicValue::Dict(vec![])]);
    let (path, properties) = get_object(&one).unwrap();
    assert_eq!(path, "/a");
    assert_eq!(properties.get("State"), None);
    assert!(get_object(&text("/a")).is_none());
    assert!(get_object(&DynamicValue::Array(vec![text("/a")])).is_none());
    let list = DynamicValue::Array(vec![
        DynamicValue::Array(vec![text("/a"), DynamicValue::Dict(vec![])]),
        DynamicValue::Array(vec![text("/b"), DynamicValue::Dict(vec![])]),
    ]);
    let read = get_objects(&list).unwrap();
    assert_eq!(read.len(), 2);
    assert_eq!(read[0].0, "/a");
    assert_eq!(read[1].0, "/b");
    assert!(get_objects(&DynamicValue::Dict(vec![])).is_none());
}

#[test]
fn manager_property_changed() {
    let outcome = classify(&message(
        "net.connman.Manager",
        "PropertyChanged",
        vec![text("State"), text("online")],
    ));
    assert!(matches!(
        outcome,
        Classified::Decoded(Signal::Manager(ManagerSignal::PropertyChanged(
            ManagerProperty::State(ManagerState::Online)
        )))
    ));
    let outcome = classify(&message(
        "net.connman.Manager",
        "PropertyChanged",
        vec![text("OfflineMode"), DynamicValue::Bool(true)],
    ));
    assert!(matches!(
        outcome,
        Classified::Decoded(Signal::Manager(ManagerSignal::PropertyChanged(
            ManagerProperty::OfflineMode(true)
        )))
    ));
    let outcome = classify(&message(
        "net.connman.Manager",
        "PropertyChanged",
        vec![text("SessionMode"), DynamicValue::Bool(false)],
    ));
    assert!(matches!(
        outcome,
        Classified::Decoded(Signal::Manager(ManagerSignal::PropertyChanged(
            ManagerProperty::SessionMode(false)
        )))
    ));
}

#[test]
fn property_changed_of_an_unknown_property_is_malformed() {
    for interface in ["net.connman.Manager", "net.connman.Technology", "net.connman.Service"] {
        let outcome = classify(&message(
            interface,
            "PropertyChanged",
            vec![text("Colour"), text("blue")],
        ));
        match outcome {
            Classified::Malformed(SignalError::UnknownProperty(name)) => assert_eq!(name, "Colour"),
            _ => panic!("the message was not decoded as this signal"),
        }
    }
}

#[test]
fn property_changed_with_a_value_of_the_wrong_kind_is_malformed() {
    let cases = [
        ("net.connman.Manager", "State", text("association")),
        ("net.connman.Manager", "OfflineMode", text("true")),
        ("net.connman.Technology", "Powered", DynamicValue::U8(1)),
        ("net.connman.Technology", "Name", DynamicValue::Bool(true)),
        ("net.connman.Service", "Strength", DynamicValue::U32(80)),
        ("net.connman.Service", "State", text("asleep")),
        ("net.connman.Service", "IPv4", text("dhcp")),
        ("net.connman.Service", "Nameservers", text("10.0.0.1")),
    ];
    for (interface, name, value) in cases {
        let outcome = classify(&message(interface, "PropertyChanged", vec![text(name), value]));
        match outcome {
            Classified::Malformed(SignalError::Property(error)) => {
                assert_eq!(error, PropertyError::Cast(name.to_string()))
            }
            _ => panic!("the message was not decoded as this signal"),
        }
    }
}

#[test]
fn property_changed_with_wrong_arguments_is_malformed() {
    let cases = vec![
        vec![],
        vec![text("State")],
        vec![DynamicValue::U8(1), text("online")],
        vec![text("State"), text("online"), text("more")],
    ];
    for interface in ["net.connman.Manager", "net.connman.Technology", "net.connman.Service"] {
        for args in &cases {
            let args = args.iter().map(|a| a.duplicate()).collect();
            let outcome = classify(&message(interface, "PropertyChanged", args));
            assert!(matches!(outcome, Classified::Malformed(SignalError::Arguments)));
        }
    }
    assert!(get_changed_property(&vec![text("State")]).is_none());
    let args = vec![text("State"), text("online")];
    assert_eq!(get_changed_property(&args), Some(("State", &text("online"))));
}

#[test]
fn technology_property_changed() {
    let outcome = classify(&message(
        "net.connman.Technology",
        "PropertyChanged",
        vec![text("Powered"), DynamicValue::Bool(false)],
    ));
    assert!(matches!(
        outcome,
        Classified::Decoded(Signal::Technology(TechnologySignal::PropertyChanged(
            TechnologyProperty::Powered(false)
        )))
    ));
    let outcome = classify(&message(
        "net.connman.Technology",
        "PropertyChanged",
        vec![text("Type"), text("p2p")],
    ));
    assert!(matches!(
        outcome,
        Classified::Decoded(Signal::Technology(TechnologySignal::PropertyChanged(
            TechnologyProperty::Type(TechnologyType::P2p)
        )))
    ));
    let outcome = classify(&message(
        "net.connman.Technology",
        "PropertyChanged",
        vec![text("TetheringIdentifier"), text("hotspot")],
    ));
    match outcome {
        Classified::Decoded(Signal::Technology(TechnologySignal::PropertyChanged(
            TechnologyProperty::TetheringIdentifier(name),
        ))) => assert_eq!(name, "hotspot"),
        _ => panic!("the message was not decoded as this signal"),
    }
    let outcome = TechnologySignal::decode("Scan", &vec![]);
    assert!(matches!(outcome, Classified::NotApplicable(NoMatch::Signal)));
}

#[test]
fn service_property_changed() {
    let outcome = classify(&message(
        "net.connman.Service",
        "PropertyChanged",
        vec![text("State"), text("ready")],
    ));
    assert!(matches!(
        outcome,
        Classified::Decoded(Signal::Service(ServiceSignal::PropertyChanged(
            ServiceProperty::State(ServiceState::Ready)
        )))
    ));
    let outcome = classify(&message(
        "net.connman.Service",
        "PropertyChanged",
        vec![text("Strength"), DynamicValue::U8(80)],
    ));
    assert!(matches!(
        outcome,
        Classified::Decoded(Signal::Service(ServiceSignal::PropertyChanged(
            ServiceProperty::Strength(80)
        )))
    ));
    let outcome = classify(&message(
        "net.connman.Service",
        "PropertyChanged",
        vec![
            text("IPv4"),
            DynamicValue::Dict(vec![
                ("Method".to_string(), text("dhcp")),
                ("Address".to_string(), DynamicValue::U8(1)),
            ]),
        ],
    ));
    match outcome {
        Classified::Decoded(Signal::Service(ServiceSignal::PropertyChanged(
            ServiceProperty::Ipv4(ipv4),
        ))) => assert_eq!(
            ipv4,
            Ipv4 { method: Some(Ipv4Method::Dhcp), address: None, netmask: None, gateway: None }
        ),
        _ => panic!("the message was not decoded as this signal"),
    }
    let outcome = classify(&message(
        "net.connman.Service",
        "PropertyChanged",
        vec![text("Nameservers.Configuration"), DynamicValue::Array(vec![text("9.9.9.9")])],
    ));
    match outcome {
        Classified::Decoded(Signal::Service(ServiceSignal::PropertyChanged(
            ServiceProperty::NameserversConfiguration(servers),
        ))) => assert_eq!(servers, vec!["9.9.9.9".to_string()]),
        _ => panic!("the message was not decoded as this signal"),
    }
}

#[test]
fn a_malformed_message_does_not_touch_the_next() {
    let bad = classify(&message("net.connman.Manager", "TechnologyRemoved", vec![]));
    assert!(matches!(bad, Classified::Malformed(_)));
    let good = classify(&message(
        "net.connman.Manager",
        "TechnologyRemoved",
        vec![text("/net/connman/technology/wifi")],
    ));
    assert!(matches!(good, Classified::Decoded(_)));
}

#[test]
fn signal_scope() {
    let signal = Signal::Manager(ManagerSignal::TechnologyRemoved("/x".to_string()));
    assert_eq!(signal.scope(), Scope::Manager);
    let signal =
        Signal::Technology(TechnologySignal::PropertyChanged(TechnologyProperty::Powered(true)));
    assert_eq!(signal.scope(), Scope::Technology);
    let signal =
        Signal::Service(ServiceSignal::PropertyChanged(ServiceProperty::Favorite(true)));
    assert_eq!(signal.scope(), Scope::Service);
}

#[test]
fn every_interface_and_member_has_one_outcome_whatever_the_arguments() {
    let interfaces = [
        "net.connman.Manager",
        "net.connman.Technology",
        "net.connman.Service",
        "net.connman.Clock",
        "",
    ];
    let members = [
        "TechnologyAdded",
        "TechnologyRemoved",
        "ServicesChanged",
        "PropertyChanged",
        "PeersChanged",
        "Unknown",
        "propertychanged",
        "",
    ];
    let arguments = || {
        vec![
            vec![],
            vec![text("/net/connman/technology/wifi")],
            vec![text("/net/connman/technology/wifi"), technology_dict()],
            vec![text("State"), text("online")],
            vec![DynamicValue::Array(vec![]), DynamicValue::Array(vec![])],
            vec![DynamicValue::U8(1), DynamicValue::U8(2), DynamicValue::U8(3)],
        ]
    };
    for interface in interfaces {
        for member in members {
            let scope = Scope::from_str(interface);
            let named = match scope {
                None => false,
                Some(Scope::Manager) => SignalKind::from_str(member).is_some(),
                Some(_) => member == "PropertyChanged",
            };
            for args in arguments() {
                match classify(&message(interface, member, args)) {
                    Classified::Decoded(signal) => {
                        assert!(named);
                        assert_eq!(Some(signal.scope()), scope);
                    }
                    Classified::NotApplicable(miss) => {
                        assert!(!named);
                        assert_eq!(miss == NoMatch::Scope, scope.is_none());
                    }
                    Classified::Malformed(_) => assert!(named),
                }
            }
        }
    }
}
