use superconfig::format::{decimal_text, hex_text};
use superconfig::naming::convert_to_camel_case;
use superconfig::wildcard::paths::{path_equal, path_precedes, sort_unique_paths};

#[test]
fn camel_case_examples() {
    assert_eq!(convert_to_camel_case("with_file"), "withFile");
    assert_eq!(convert_to_camel_case("set_debug"), "setDebug");
    assert_eq!(convert_to_camel_case("extract_json"), "extractJson");
    assert_eq!(convert_to_camel_case("single"), "single");
    assert_eq!(convert_to_camel_case("__a__b_"), "aB");
    assert_eq!(convert_to_camel_case(""), "");
    assert_eq!(convert_to_camel_case("___"), "");
    assert_eq!(convert_to_camel_case("get_2nd_value"), "get2ndValue");
}

#[test]
fn numbers_as_text() {
    assert_eq!(decimal_text(0), "0");
    assert_eq!(decimal_text(1234567890), "1234567890");
    assert_eq!(decimal_text(u64::MAX), u64::MAX.to_string());
    assert_eq!(hex_text(0), "0");
    assert_eq!(hex_text(255), "FF");
    assert_eq!(hex_text(0xDEADBEEF), "DEADBEEF");
    assert_eq!(hex_text(u64::MAX), format!("{:X}", u64::MAX));
}

#[test]
fn paths_compare_by_components() {
    assert!(path_equal("a/b", "a//b/"));
    assert!(path_equal("a/./b", "a/b"));
    assert!(!path_equal("./a", "a"));
    assert!(path_precedes("a/b", "a-b"));
    assert!(path_precedes("/z", "a"));
    assert!(path_precedes("./x", "../x"));
    assert!(path_precedes("../x", "x"));
    assert!(!path_precedes("a", "a/"));
    let sorted = sort_unique_paths(vec!["b".to_string(), "a/".to_string(), "a".to_string(), "/r".to_string()]);
    assert_eq!(sorted, vec!["/r".to_string(), "a/".to_string(), "b".to_string()]);
}
