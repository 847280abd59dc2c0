use connman::api::technology::{Properties, PropertyKind, Type};
use connman::api::{Parse, PropertyError};
use connman::value::{DynamicValue, PropertyMap};

fn text(s: &str) -> DynamicValue {
    DynamicValue::Str(s.to_string())
}

fn wifi_snapshot() -> PropertyMap {
    let mut map = PropertyMap::new();
    map.insert("Powered".to_string(), DynamicValue::Bool(true));
    map.insert("Connected".to_string(), DynamicValue::Bool(false));
    map.insert("Name".to_string(), text("wifi"));
    map.insert("Type".to_string(), text("wifi"));
    map
}

#[test]
fn technology_snapshot_without_tethering_decodes() {
    let props = Properties::try_from(wifi_snapshot()).unwrap();
    assert!(props.powered);
    assert!(!props.connected);
    assert_eq!(props.name, "wifi");
    assert_eq!(props.type_, Type::Wifi);
    assert!(!props.tethering);
    assert_eq!(props.tethering_identifier, None);
    assert_eq!(props.tethering_passphrase, None);
}

#[test]
fn technology_round_trip() {
    let mut map = wifi_snapshot();
    map.insert("Connected".to_string(), DynamicValue::Bool(true));
    map.insert("Type".to_string(), text("p2p"));
    map.insert("Tethering".to_string(), DynamicValue::Bool(true));
    map.insert("TetheringIdentifier".to_string(), text("hotspot"));
    map.insert("TetheringPassphrase".to_string(), text("guests-welcome"));
    let props = Properties::try_from(map).unwrap();
    assert!(props.powered);
    assert!(props.connected);
    assert_eq!(props.name, "wifi");
    assert_eq!(props.type_, Type::P2p);
    assert!(props.tethering);
    assert_eq!(props.tethering_identifier, Some("hotspot".to_string()));
    assert_eq!(props.tethering_passphrase, Some("guests-welcome".to_string()));
}

#[test]
fn technology_missing_required_property_is_named() {
    for missing in ["Powered", "Connected", "Name", "Type"] {
        let full = wifi_snapshot();
        let mut map = PropertyMap::new();
        for name in ["Powered", "Connected", "Name", "Type"] {
            if name != missing {
                map.insert(name.to_string(), full.get(name).unwrap().duplicate());
            }
        }
        map.insert("Tethering".to_string(), text("yes"));
        assert_eq!(
            Properties::try_from(map).unwrap_err(),
            PropertyError::NotPresent(missing.to_string())
        );
    }
}

#[test]
fn technology_first_failure_in_order_is_reported() {
    let mut map = PropertyMap::new();
    map.insert("Powered".to_string(), DynamicValue::Bool(true));
    map.insert("Name".to_string(), DynamicValue::U8(1));
    assert_eq!(
        Properties::try_from(map).unwrap_err(),
        PropertyError::NotPresent("Connected".to_string())
    );
    let mut map = wifi_snapshot();
    map.insert("Powered".to_string(), text("true"));
    map.insert("Name".to_string(), DynamicValue::U8(1));
    assert_eq!(Properties::try_from(map).unwrap_err(), PropertyError::Cast("Powered".to_string()));
}

#[test]
fn technology_tethering_of_the_wrong_kind_is_a_cast_error() {
    let mut map = wifi_snapshot();
    map.insert("Tethering".to_string(), text("yes"));
    assert_eq!(
        Properties::try_from(map).unwrap_err(),
        PropertyError::Cast("Tethering".to_string())
    );
    let mut map = wifi_snapshot();
    map.insert("TetheringPassphrase".to_string(), DynamicValue::U32(1234));
    assert_eq!(
        Properties::try_from(map).unwrap_err(),
        PropertyError::Cast("TetheringPassphrase".to_string())
    );
}

#[test]
fn technology_type_keeps_what_it_does_not_know() {
    assert_eq!(Type::from_str("ethernet"), Some(Type::Ethernet));
    assert_eq!(Type::from_str("wifi"), Some(Type::Wifi));
    assert_eq!(Type::from_str("p2p"), Some(Type::P2p));
    assert_eq!(Type::from_str("gadget"), Some(Type::Unknown("gadget".to_string())));
    assert_eq!(Type::Ethernet.into_name(), "ethernet");
    assert_eq!(Type::Wifi.into_name(), "wifi");
    assert_eq!(Type::P2p.into_name(), "p2p");
    assert_eq!(Type::Unknown("gadget".to_string()).into_name(), "gadget");
    let mut map = wifi_snapshot();
    map.insert("Type".to_string(), text("gadget"));
    assert_eq!(Properties::try_from(map).unwrap().type_, Type::Unknown("gadget".to_string()));
}

#[test]
fn technology_property_names_read_back() {
    let all = [
        (PropertyKind::Powered, "Powered"),
        (PropertyKind::Connected, "Connected"),
        (PropertyKind::Name, "Name"),
        (PropertyKind::Type, "Type"),
        (PropertyKind::Tethering, "Tethering"),
        (PropertyKind::TetheringIdentifier, "TetheringIdentifier"),
        (PropertyKind::TetheringPassphrase, "TetheringPassphrase"),
    ];
    for (kind, name) in all {
        assert_eq!(kind.name(), name);
        assert_eq!(PropertyKind::from_str(name), Some(kind));
    }
    assert_eq!(PropertyKind::from_str("powered"), None);
    assert_eq!(PropertyKind::from_str("TetheringIdentifie"), None);
}
