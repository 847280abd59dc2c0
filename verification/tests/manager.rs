use connman::api::manager::{
    get_offline_mode, get_services, get_state, get_technologies, PropertyKind, State,
};
use connman::api::technology::Type;
use connman::api::{Parse, PropertyError};
use connman::value::{DynamicValue, PropertyMap};

fn text(s: &str) -> DynamicValue {
    DynamicValue::Str(s.to_string())
}

fn texts(items: &[&str]) -> DynamicValue {
    DynamicValue::Array(items.iter().map(|s| text(s)).collect())
}

fn technology(name: &str, kind: &str) -> PropertyMap {
    let mut map = PropertyMap::new();
    map.insert("Powered".to_string(), DynamicValue::Bool(true));
    map.insert("Connected".to_string(), DynamicValue::Bool(false));
    map.insert("Name".to_string(), text(name));
    map.insert("Type".to_string(), text(kind));
    map
}

fn service(state: &str) -> PropertyMap {
    let mut map = PropertyMap::new();
    map.insert("State".to_string(), text(state));
    map.insert("Favorite".to_string(), DynamicValue::Bool(false));
    map.insert("Immutable".to_string(), DynamicValue::Bool(false));
    map.insert("AutoConnect".to_string(), DynamicValue::Bool(false));
    for name in [
        "Nameservers",
        "Nameservers.Configuration",
        "Timeservers",
        "Timeservers.Configuration",
        "Domains",
        "Domains.Configuration",
    ] {
        map.insert(name.to_string(), texts(&[]));
    }
    map
}

#[test]
fn manager_state_spellings() {
    assert_eq!(State::from_str("offline"), Some(State::Offline));
    assert_eq!(State::from_str("idle"), Some(State::Idle));
    assert_eq!(State::from_str("ready"), Some(State::Ready));
    assert_eq!(State::from_str("online"), Some(State::Online));
    assert_eq!(State::from_str("failure"), None);
    assert_eq!(State::from_str("Offline"), None);
}

#[test]
fn manager_property_names_read_back() {
    for (kind, name) in [
        (PropertyKind::State, "State"),
        (PropertyKind::OfflineMode, "OfflineMode"),
        (PropertyKind::SessionMode, "SessionMode"),
    ] {
        assert_eq!(kind.name(), name);
        assert_eq!(PropertyKind::from_str(name), Some(kind));
    }
    assert_eq!(PropertyKind::from_str("Offline"), None);
}

#[test]
fn manager_state_from_a_snapshot() {
    let mut map = PropertyMap::new();
    assert_eq!(get_state(&map), Err(PropertyError::NotPresent("State".to_string())));
    map.insert("State".to_string(), text("ready"));
    assert_eq!(get_state(&map), Ok(State::Ready));
    map.insert("State".to_string(), text("association"));
    assert_eq!(get_state(&map), Err(PropertyError::Cast("State".to_string())));
    map.insert("State".to_string(), DynamicValue::Bool(true));
    assert_eq!(get_state(&map), Err(PropertyError::Cast("State".to_string())));
}

#[test]
fn manager_offline_mode_from_a_snapshot() {
    let mut map = PropertyMap::new();
    assert_eq!(
        get_offline_mode(&map),
        Err(PropertyError::NotPresent("OfflineMode".to_string()))
    );
    map.insert("OfflineMode".to_string(), DynamicValue::Bool(true));
    assert_eq!(get_offline_mode(&map), Ok(true));
    map.insert("OfflineMode".to_string(), text("true"));
    assert_eq!(get_offline_mode(&map), Err(PropertyError::Cast("OfflineMode".to_string())));
}

#[test]
fn technologies_that_do_not_assemble_are_left_out() {
    let mut broken = technology("broken", "wifi");
    broken.insert("Powered".to_string(), text("yes"));
    let listed = vec![
        ("/net/connman/technology/wifi".to_string(), technology("WiFi", "wifi")),
        ("/net/connman/technology/broken".to_string(), broken),
        ("/net/connman/technology/empty".to_string(), PropertyMap::new()),
        ("/net/connman/technology/ethernet".to_string(), technology("Wired", "ethernet")),
    ];
    let found = get_technologies(&listed);
    assert_eq!(found.len(), 2);
    assert_eq!(found[0].0, "/net/connman/technology/wifi");
    assert_eq!(found[0].1.name, "WiFi");
    assert_eq!(found[0].1.type_, Type::Wifi);
    assert_eq!(found[1].0, "/net/connman/technology/ethernet");
    assert_eq!(found[1].1.name, "Wired");
    assert_eq!(found[1].1.type_, Type::Ethernet);
    assert!(get_technologies(&vec![]).is_empty());
}

#[test]
fn services_that_do_not_assemble_are_left_out() {
    let listed = vec![
        ("/net/connman/service/a".to_string(), PropertyMap::new()),
        ("/net/connman/service/b".to_string(), service("idle")),
        ("/net/connman/service/c".to_string(), service("dreaming")),
        ("/net/connman/service/d".to_string(), service("online")),
    ];
    let found = get_services(&listed);
    assert_eq!(found.len(), 2);
    assert_eq!(found[0].0, "/net/connman/service/b");
    assert_eq!(found[0].1.state, connman::api::service::State::Idle);
    assert_eq!(found[1].0, "/net/connman/service/d");
    assert_eq!(found[1].1.state, connman::api::service::State::Online);
}
