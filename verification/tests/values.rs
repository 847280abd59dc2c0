use connman::text::text_eq;
use connman::value::{DynamicValue, PropertyMap};

fn text(s: &str) -> DynamicValue {
    DynamicValue::Str(s.to_string())
}

#[test]
fn text_eq_compares_characters() {
    assert!(text_eq("", ""));
    assert!(text_eq("Method", "Method"));
    assert!(!text_eq("Method", "method"));
    assert!(!text_eq("Method", "Method "));
    assert!(!text_eq("MTU", "MTV"));
    assert!(text_eq("é", "é"));
    assert!(!text_eq("é", "e"));
}

#[test]
fn as_str_only_of_a_string() {
    assert_eq!(text("wifi").as_str(), Some("wifi"));
    assert_eq!(DynamicValue::Bool(true).as_str(), None);
    assert_eq!(DynamicValue::U8(7).as_str(), None);
    assert_eq!(DynamicValue::Array(vec![text("a")]).as_str(), None);
}

#[test]
fn as_u64_of_unsigned_numbers_only() {
    assert_eq!(DynamicValue::Bool(false).as_u64(), None);
    assert_eq!(DynamicValue::Bool(true).as_u64(), None);
    assert_eq!(DynamicValue::U8(255).as_u64(), Some(255));
    assert_eq!(DynamicValue::U16(65535).as_u64(), Some(65535));
    assert_eq!(DynamicValue::U32(4_000_000_000).as_u64(), Some(4_000_000_000));
    assert_eq!(DynamicValue::U64(u64::MAX).as_u64(), Some(u64::MAX));
    assert_eq!(text("1").as_u64(), None);
    assert_eq!(DynamicValue::Array(vec![]).as_u64(), None);
}

#[test]
fn elements_of_an_array_are_its_items() {
    let array = DynamicValue::Array(vec![text("a"), DynamicValue::U8(1)]);
    assert_eq!(array.elements(), Some(vec![text("a"), DynamicValue::U8(1)]));
    assert_eq!(DynamicValue::Array(vec![]).elements(), Some(vec![]));
}

#[test]
fn elements_of_a_dictionary_alternate_keys_and_values() {
    let dict = DynamicValue::Dict(vec![
        ("Method".to_string(), text("dhcp")),
        ("MTU".to_string(), DynamicValue::U16(1500)),
    ]);
    assert_eq!(
        dict.elements(),
        Some(vec![text("Method"), text("dhcp"), text("MTU"), DynamicValue::U16(1500)])
    );
}

#[test]
fn elements_of_a_scalar_are_none() {
    assert_eq!(text("a").elements(), None);
    assert_eq!(DynamicValue::Bool(true).elements(), None);
    assert_eq!(DynamicValue::U64(3).elements(), None);
}

#[test]
fn duplicate_is_a_deep_copy() {
    let value = DynamicValue::Dict(vec![(
        "Servers".to_string(),
        DynamicValue::Array(vec![text("a"), DynamicValue::Array(vec![DynamicValue::U32(9)])]),
    )]);
    assert_eq!(value.duplicate(), value);
}

#[test]
fn property_map_lookup() {
    let mut map = PropertyMap::new();
    assert_eq!(map.get("State"), None);
    map.insert("State".to_string(), text("idle"));
    map.insert("Strength".to_string(), DynamicValue::U8(40));
    assert_eq!(map.get("State"), Some(&text("idle")));
    assert_eq!(map.get("Strength"), Some(&DynamicValue::U8(40)));
    assert_eq!(map.get("state"), None);
    assert_eq!(map.get("Stat"), None);
}

#[test]
fn property_map_last_insert_wins() {
    let mut map = PropertyMap::new();
    map.insert("State".to_string(), text("idle"));
    map.insert("Name".to_string(), text("home"));
    map.insert("State".to_string(), text("online"));
    assert_eq!(map.get("State"), Some(&text("online")));
    assert_eq!(map.get("Name"), Some(&text("home")));
}

#[test]
fn property_map_from_dict() {
    let dict = DynamicValue::Dict(vec![
        ("Powered".to_string(), DynamicValue::Bool(true)),
        ("Name".to_string(), text("wifi")),
    ]);
    let map = PropertyMap::from_dict(&dict).unwrap();
    assert_eq!(map.get("Powered"), Some(&DynamicValue::Bool(true)));
    assert_eq!(map.get("Name"), Some(&text("wifi")));
    assert_eq!(map.get("Type"), None);
    assert!(PropertyMap::from_dict(&DynamicValue::Array(vec![])).is_none());
    assert!(PropertyMap::from_dict(&text("x")).is_none());
}

#[test]
fn property_map_from_dict_last_entry_wins() {
    let dict = DynamicValue::Dict(vec![
        ("State".to_string(), text("idle")),
        ("Name".to_string(), text("home")),
        ("State".to_string(), text("ready")),
    ]);
    let map = PropertyMap::from_dict(&dict).unwrap();
    assert_eq!(map.get("State"), Some(&text("ready")));
    assert_eq!(map.get("Name"), Some(&text("home")));
}

#[test]
fn a_value_of_another_kind_reads_as_nothing() {
    let other = DynamicValue::Other;
    assert_eq!(other.as_str(), None);
    assert_eq!(other.as_u64(), None);
    assert_eq!(other.elements(), None);
    assert!(PropertyMap::from_dict(&other).is_none());
    assert_eq!(other.duplicate(), DynamicValue::Other);
    let mut map = PropertyMap::new();
    map.insert("Strength".to_string(), DynamicValue::Other);
    assert_eq!(map.get("Strength"), Some(&DynamicValue::Other));
}
