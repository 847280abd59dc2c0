use connman::api::manager::State as ManagerState;
use connman::api::service::{Error as ServiceError, State as ServiceState};
use connman::api::{
    get_property, get_property_argiter, get_property_fromstr, Cast, FromProperties, Parse,
    PropertyError,
};
use connman::value::{DynamicValue, PropertyMap};

fn text(s: &str) -> DynamicValue {
    DynamicValue::Str(s.to_string())
}

fn sample() -> PropertyMap {
    let mut map = PropertyMap::new();
    map.insert("Favorite".to_string(), DynamicValue::Bool(true));
    map.insert("Strength".to_string(), DynamicValue::U8(61));
    map.insert("Wide".to_string(), DynamicValue::U32(61));
    map.insert("Name".to_string(), text("home"));
    map.insert("State".to_string(), text("ready"));
    map.insert("Error".to_string(), text("no-such-error"));
    map.insert(
        "Nameservers".to_string(),
        DynamicValue::Array(vec![text("10.0.0.1"), text("10.0.0.2")]),
    );
    map.insert(
        "Mixed".to_string(),
        DynamicValue::Array(vec![text("10.0.0.1"), DynamicValue::U8(2)]),
    );
    map.insert(
        "IPv4".to_string(),
        DynamicValue::Dict(vec![("Method".to_string(), text("dhcp"))]),
    );
    map
}

fn not_present(name: &str) -> PropertyError {
    PropertyError::NotPresent(name.to_string())
}

fn cast(name: &str) -> PropertyError {
    PropertyError::Cast(name.to_string())
}

#[test]
fn get_property_casts_by_tag() {
    let map = sample();
    assert_eq!(get_property::<bool>(&map, "Favorite"), Ok(true));
    assert_eq!(get_property::<u8>(&map, "Strength"), Ok(61));
    assert_eq!(get_property::<String>(&map, "Name"), Ok("home".to_string()));
    assert_eq!(
        get_property::<Vec<String>>(&map, "Nameservers"),
        Ok(vec!["10.0.0.1".to_string(), "10.0.0.2".to_string()])
    );
}

#[test]
fn get_property_missing_is_not_present() {
    let map = sample();
    assert_eq!(get_property::<bool>(&map, "Immutable"), Err(not_present("Immutable")));
    assert_eq!(get_property::<u8>(&map, "strength"), Err(not_present("strength")));
}

#[test]
fn get_property_does_not_widen() {
    let map = sample();
    assert_eq!(get_property::<u8>(&map, "Wide"), Err(cast("Wide")));
    assert_eq!(get_property::<bool>(&map, "Strength"), Err(cast("Strength")));
    assert_eq!(get_property::<u8>(&map, "Favorite"), Err(cast("Favorite")));
    assert_eq!(get_property::<String>(&map, "Strength"), Err(cast("Strength")));
}

#[test]
fn get_property_list_needs_every_item_to_cast() {
    let map = sample();
    assert_eq!(get_property::<Vec<String>>(&map, "Mixed"), Err(cast("Mixed")));
    assert_eq!(get_property::<Vec<String>>(&map, "Name"), Err(cast("Name")));
    assert_eq!(get_property::<Vec<String>>(&map, "IPv4"), Err(cast("IPv4")));
}

#[test]
fn cast_of_an_empty_array_is_an_empty_list() {
    assert_eq!(Vec::<String>::cast(&DynamicValue::Array(vec![])), Some(vec![]));
    assert_eq!(
        Vec::<Vec<u8>>::cast(&DynamicValue::Array(vec![DynamicValue::Array(vec![
            DynamicValue::U8(1)
        ])])),
        Some(vec![vec![1u8]])
    );
}

#[test]
fn get_property_fromstr_parses_the_text() {
    let map = sample();
    assert_eq!(get_property_fromstr::<ServiceState>(&map, "State"), Ok(ServiceState::Ready));
    assert_eq!(get_property_fromstr::<ManagerState>(&map, "State"), Ok(ManagerState::Ready));
    assert_eq!(get_property_fromstr::<String>(&map, "Name"), Ok("home".to_string()));
}

#[test]
fn get_property_fromstr_errors_name_the_property_not_the_text() {
    let map = sample();
    assert_eq!(get_property_fromstr::<ServiceError>(&map, "Error"), Err(cast("Error")));
    assert_eq!(get_property_fromstr::<ServiceState>(&map, "Strength"), Err(cast("Strength")));
    assert_eq!(get_property_fromstr::<ServiceState>(&map, "Missing"), Err(not_present("Missing")));
}

#[test]
fn get_property_argiter_walks_arrays_and_dictionaries() {
    let map = sample();
    assert_eq!(
        get_property_argiter(&map, "Nameservers"),
        Ok(vec![text("10.0.0.1"), text("10.0.0.2")])
    );
    assert_eq!(get_property_argiter(&map, "IPv4"), Ok(vec![text("Method"), text("dhcp")]));
    assert_eq!(get_property_argiter(&map, "Name"), Err(cast("Name")));
    assert_eq!(get_property_argiter(&map, "IPv6"), Err(not_present("IPv6")));
}

#[test]
fn optional_absent_is_none() {
    let map = sample();
    assert_eq!(Option::<bool>::from_properties(&map, "Roaming"), Ok(None));
    assert_eq!(Option::<String>::from_properties(&map, "Missing"), Ok(None));
    assert_eq!(Option::<Vec<String>>::from_properties(&map, "Security"), Ok(None));
}

#[test]
fn optional_present_and_valid_is_some() {
    let map = sample();
    assert_eq!(Option::<bool>::from_properties(&map, "Favorite"), Ok(Some(true)));
    assert_eq!(Option::<u8>::from_properties(&map, "Strength"), Ok(Some(61)));
    assert_eq!(Option::<String>::from_properties(&map, "Name"), Ok(Some("home".to_string())));
    assert_eq!(
        Option::<ServiceState>::from_properties(&map, "State"),
        Ok(Some(ServiceState::Ready))
    );
}

#[test]
fn optional_present_and_invalid_is_a_cast_error() {
    let map = sample();
    assert_eq!(Option::<bool>::from_properties(&map, "Strength"), Err(cast("Strength")));
    assert_eq!(Option::<u8>::from_properties(&map, "Wide"), Err(cast("Wide")));
    assert_eq!(Option::<ServiceError>::from_properties(&map, "Error"), Err(cast("Error")));
}

#[test]
fn plain_extraction_matches_the_accessors() {
    let map = sample();
    assert_eq!(bool::from_properties(&map, "Favorite"), Ok(true));
    assert_eq!(u8::from_properties(&map, "Strength"), Ok(61));
    assert_eq!(String::from_properties(&map, "Name"), Ok("home".to_string()));
    assert_eq!(String::from_properties(&map, "Strength"), Err(cast("Strength")));
    assert_eq!(bool::from_properties(&map, "Nope"), Err(not_present("Nope")));
}

#[test]
fn error_messages() {
    assert_eq!(not_present("State").message(), "Property not present: 'State'");
    assert_eq!(cast("Type").message(), "Failed to cast property: 'Type'");
    assert_eq!(not_present("State").name(), "State");
    assert_eq!(cast("IPv4.Configuration").name(), "IPv4.Configuration");
}

#[test]
fn decimal_bytes() {
    assert_eq!(u8::from_str("0"), Some(0));
    assert_eq!(u8::from_str("64"), Some(64));
    assert_eq!(u8::from_str("255"), Some(255));
    assert_eq!(u8::from_str("+7"), Some(7));
    assert_eq!(u8::from_str("007"), Some(7));
    assert_eq!(u8::from_str("0000000000000000000000000000000000000255"), Some(255));
    assert_eq!(u8::from_str("0000000000000000000000000000000000000256"), None);
    assert_eq!(u8::from_str("++1"), None);
    assert_eq!(u8::from_str("1+"), None);
    assert_eq!(u8::from_str("2550"), None);
    assert_eq!(u8::from_str("99999999999999999999"), None);
    assert_eq!(u8::from_str("256"), None);
    assert_eq!(u8::from_str(""), None);
    assert_eq!(u8::from_str("+"), None);
    assert_eq!(u8::from_str("-1"), None);
    assert_eq!(u8::from_str(" 1"), None);
    assert_eq!(u8::from_str("1 "), None);
    assert_eq!(u8::from_str("1a"), None);
    assert_eq!(u8::from_str("٣"), None);
}

#[test]
fn a_property_of_another_kind_is_there_and_does_not_cast() {
    let mut map = PropertyMap::new();
    map.insert("Strength".to_string(), DynamicValue::Other);
    assert_eq!(get_property::<u8>(&map, "Strength"), Err(cast("Strength")));
    assert_eq!(get_property::<bool>(&map, "Strength"), Err(cast("Strength")));
    assert_eq!(get_property::<String>(&map, "Strength"), Err(cast("Strength")));
    assert_eq!(get_property::<Vec<String>>(&map, "Strength"), Err(cast("Strength")));
    assert_eq!(get_property_fromstr::<String>(&map, "Strength"), Err(cast("Strength")));
    assert_eq!(get_property_argiter(&map, "Strength"), Err(cast("Strength")));
    assert_eq!(Option::<u8>::from_properties(&map, "Strength"), Err(cast("Strength")));
    assert_eq!(
        Vec::<String>::cast(&DynamicValue::Array(vec![text("a"), DynamicValue::Other])),
        None
    );
}
