use superconfig::json_helper::{
    auto_detect_directions, combine_directions, parse_json_helper_args, extract_ok_type, is_arc_type, is_complex_type, is_complex_return,
    returns_result, JsonDirection, ReturnShape, TypeShape,
};

fn named(n: &str) -> TypeShape {
    TypeShape::Named(n.to_string())
}

fn by_ref(n: &str) -> TypeShape {
    TypeShape::RefNamed(n.to_string())
}

#[test]
fn simple_and_complex_types() {
    assert!(!is_complex_type(&named("u64")));
    assert!(!is_complex_type(&named("String")));
    assert!(!is_complex_type(&named("ConfigHandle")));
    assert!(is_complex_type(&named("Vec")));
    assert!(is_complex_type(&named("HashMap")));
    assert!(!is_complex_type(&by_ref("str")));
    assert!(!is_complex_type(&by_ref("ConfigHandle")));
    assert!(is_complex_type(&by_ref("String")));
    assert!(is_complex_type(&TypeShape::Unnamed));
    assert!(is_complex_type(&TypeShape::RefOther));
    assert!(is_complex_type(&TypeShape::Other));
}

#[test]
fn arc_and_result_detection() {
    assert!(is_arc_type(&named("Arc")));
    assert!(!is_arc_type(&by_ref("Arc")));
    assert!(!is_arc_type(&TypeShape::Other));
    let ret = ReturnShape::Result(Some(named("Config")));
    assert!(returns_result(&ret));
    assert!(matches!(extract_ok_type(&ret), Some(TypeShape::Named(n)) if n == "Config"));
    assert!(extract_ok_type(&ReturnShape::Result(None)).is_none());
    assert!(!returns_result(&ReturnShape::Plain(named("Result2"))));
    assert!(!returns_result(&ReturnShape::Unit));
    assert!(is_complex_return(&ReturnShape::Result(None)));
    assert!(!is_complex_return(&ReturnShape::Result(Some(named("u32")))));
}

#[test]
fn directions_follow_the_signature() {
    let simple = vec![named("u64"), by_ref("str")];
    let complex = vec![named("u64"), named("Settings")];
    assert_eq!(auto_detect_directions(&simple, &ReturnShape::Unit), vec![]);
    assert_eq!(auto_detect_directions(&simple, &ReturnShape::Result(Some(named("bool")))), vec![]);
    assert_eq!(
        auto_detect_directions(&simple, &ReturnShape::Result(Some(named("Vec")))),
        vec![JsonDirection::Outgoing]
    );
    assert_eq!(auto_detect_directions(&complex, &ReturnShape::Unit), vec![JsonDirection::Incoming]);
    assert_eq!(
        auto_detect_directions(&complex, &ReturnShape::Plain(TypeShape::Other)),
        vec![JsonDirection::Both]
    );
}

#[test]
fn in_and_out_together_mean_both() {
    assert_eq!(
        combine_directions(vec![JsonDirection::Outgoing, JsonDirection::Incoming]),
        vec![JsonDirection::Both]
    );
    assert_eq!(combine_directions(vec![JsonDirection::Incoming]), vec![JsonDirection::Incoming]);
    assert_eq!(
        combine_directions(vec![JsonDirection::Incoming, JsonDirection::Incoming]),
        vec![JsonDirection::Incoming, JsonDirection::Incoming]
    );
}

fn words(ws: &[&str]) -> Vec<String> {
    ws.iter().map(|w| w.to_string()).collect()
}

#[test]
fn attribute_words_are_read() {
    assert_eq!(parse_json_helper_args(&words(&[])), Ok((vec![JsonDirection::Auto], false)));
    assert_eq!(parse_json_helper_args(&words(&["in", "out"])), Ok((vec![JsonDirection::Both], false)));
    assert_eq!(parse_json_helper_args(&words(&["incoming"])), Ok((vec![JsonDirection::Incoming], false)));
    assert_eq!(
        parse_json_helper_args(&words(&["outgoing", "handle_mode"])),
        Ok((vec![JsonDirection::Outgoing], true))
    );
    assert_eq!(parse_json_helper_args(&words(&["bidirectional"])), Ok((vec![JsonDirection::Both], false)));
    assert_eq!(parse_json_helper_args(&words(&["handle_mode"])), Ok((vec![], true)));
    assert_eq!(
        parse_json_helper_args(&words(&["auto", "sideways"])),
        Err("Expected 'in', 'out', 'incoming', 'outgoing', 'auto', 'bidirectional', or 'handle_mode'".to_string())
    );
}
