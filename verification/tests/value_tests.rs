use superconfig::array_merge::{apply_array_merging, contains_merge_patterns, merge_object_arrays, needs_array_merging};
use superconfig::filter::{filter_empty_values, filter_profile_data, is_empty_value};
use superconfig::value::ConfigValue;

fn s(x: &str) -> ConfigValue {
    ConfigValue::Str(x.to_string())
}

fn arr(items: Vec<ConfigValue>) -> ConfigValue {
    ConfigValue::Array(items)
}

fn obj(members: Vec<(&str, ConfigValue)>) -> ConfigValue {
    ConfigValue::Object(members.into_iter().map(|(k, v)| (k.to_string(), v)).collect())
}

fn strings(v: &ConfigValue) -> Vec<String> {
    match v {
        ConfigValue::Array(items) => items
            .iter()
            .map(|i| match i {
                ConfigValue::Str(x) => x.clone(),
                _ => panic!("not a string"),
            })
            .collect(),
        _ => panic!("not an array"),
    }
}

fn member<'a>(v: &'a ConfigValue, key: &str) -> Option<&'a ConfigValue> {
    match v {
        ConfigValue::Object(ms) => ms.iter().find(|(k, _)| k == key).map(|(_, v)| v),
        _ => None,
    }
}

#[test]
fn add_and_remove_merge_into_the_base_array() {
    let v = obj(vec![
        ("ignore_paths", arr(vec![s("*.tmp"), s("*.log")])),
        ("ignore_paths_add", arr(vec![s("*.cache"), s("build/*")])),
        ("ignore_paths_remove", arr(vec![s("*.tmp")])),
    ]);
    assert!(contains_merge_patterns(&v));
    let m = merge_object_arrays(v);
    assert_eq!(strings(member(&m, "ignore_paths").unwrap()), vec!["*.log", "*.cache", "build/*"]);
    assert!(member(&m, "ignore_paths_add").is_none());
    assert!(member(&m, "ignore_paths_remove").is_none());
}

#[test]
fn add_without_base_creates_the_array() {
    let v = obj(vec![("features_add", arr(vec![s("auth")]))]);
    let m = merge_object_arrays(v);
    assert_eq!(strings(member(&m, "features").unwrap()), vec!["auth"]);
}

#[test]
fn nested_objects_are_merged_too() {
    let v = obj(vec![("server", obj(vec![("hosts", arr(vec![s("a")])), ("hosts_add", arr(vec![s("b")]))]))]);
    let m = merge_object_arrays(v);
    let server = member(&m, "server").unwrap();
    assert_eq!(strings(member(server, "hosts").unwrap()), vec!["a", "b"]);
}

#[test]
fn values_without_merge_keys_are_left_alone() {
    let v = obj(vec![("name", s("x")), ("list", arr(vec![s("y")]))]);
    assert!(!contains_merge_patterns(&v));
    assert!(!needs_array_merging(&Some(v.duplicate())));
    assert!(!needs_array_merging(&None));
    let m = merge_object_arrays(v.duplicate());
    assert!(m.equals(&v));
    assert!(apply_array_merging(None).is_none());
}

#[test]
fn empty_values_are_detected() {
    assert!(is_empty_value(&s("")));
    assert!(is_empty_value(&arr(vec![])));
    assert!(is_empty_value(&obj(vec![])));
    assert!(!is_empty_value(&ConfigValue::Bool(false)));
    assert!(!is_empty_value(&ConfigValue::UInt(0)));
    assert!(is_empty_value(&ConfigValue::Null));
    assert!(!is_empty_value(&s("x")));
}

#[test]
fn empty_values_are_filtered_at_every_depth() {
    let v = obj(vec![
        ("name", s("")),
        ("debug", ConfigValue::Bool(false)),
        ("port", ConfigValue::UInt(0)),
        ("tags", arr(vec![s(""), s("a"), arr(vec![])])),
        ("db", obj(vec![("host", s("")), ("opts", obj(vec![("x", arr(vec![]))]))])),
    ]);
    let f = filter_empty_values(&v);
    let expected = obj(vec![
        ("debug", ConfigValue::Bool(false)),
        ("port", ConfigValue::UInt(0)),
        ("tags", arr(vec![s("a")])),
    ]);
    assert!(f.equals(&expected));
    let again = filter_empty_values(&f);
    assert!(again.equals(&f));
}

#[test]
fn profile_filtering_drops_empty_top_level_values() {
    let members = vec![("a".to_string(), s("")), ("b".to_string(), s("keep")), ("c".to_string(), obj(vec![("d", s(""))]))];
    let f = filter_profile_data(&members);
    assert_eq!(f.len(), 1);
    assert_eq!(f[0].0, "b");
    assert!(filter_empty_values(&s("")).equals(&s("")));
}

#[test]
fn null_values_are_filtered() {
    let v = obj(vec![
        ("a", s("")),
        ("b", ConfigValue::Bool(false)),
        ("c", ConfigValue::UInt(0)),
        ("d", arr(vec![])),
        ("e", obj(vec![("f", s(""))])),
        ("g", arr(vec![s(""), s("x")])),
        ("h", ConfigValue::Null),
    ]);
    let f = filter_empty_values(&v);
    let expected = obj(vec![
        ("b", ConfigValue::Bool(false)),
        ("c", ConfigValue::UInt(0)),
        ("g", arr(vec![s("x")])),
    ]);
    assert!(f.equals(&expected));
}

#[test]
fn top_level_keys_in_order() {
    let v = obj(vec![("b", s("1")), ("a", obj(vec![("c", s("2"))]))]);
    assert_eq!(superconfig::value::top_level_keys(&v), vec!["b".to_string(), "a".to_string()]);
    assert!(superconfig::value::top_level_keys(&s("x")).is_empty());
}
