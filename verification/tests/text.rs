use godot_codegen::util::{
    decimal_string, split_once, starts_with, str_eq, strip_prefix, to_snake_case, Tokens,
};
use godot_codegen::watch::StopWatch;

#[test]
fn str_eq_compares_contents() {
    assert!(str_eq("Node", "Node"));
    assert!(!str_eq("Node", "Node2D"));
    assert!(!str_eq("node", "Node"));
    assert!(str_eq("", ""));
}

#[test]
fn starts_with_tests_the_prefix() {
    assert!(starts_with("typedarray::int", "typedarray::"));
    assert!(starts_with("enum::Error", ""));
    assert!(!starts_with("enum", "enum::"));
    assert!(!starts_with("Enum::Error", "enum::"));
}

#[test]
fn strip_prefix_cuts_the_prefix_off() {
    assert_eq!(strip_prefix("enum::Node.Mode", "enum::"), Some("Node.Mode".to_string()));
    assert_eq!(strip_prefix("enum::", "enum::"), Some(String::new()));
    assert_eq!(strip_prefix("Node", "enum::"), None);
}

#[test]
fn split_once_splits_at_the_first_separator() {
    assert_eq!(
        split_once("Node.ProcessMode", '.'),
        Some(("Node".to_string(), "ProcessMode".to_string()))
    );
    assert_eq!(split_once("a.b.c", '.'), Some(("a".to_string(), "b.c".to_string())));
    assert_eq!(split_once(".x", '.'), Some((String::new(), "x".to_string())));
    assert_eq!(split_once("x.", '.'), Some(("x".to_string(), String::new())));
    assert_eq!(split_once("Error", '.'), None);
}

#[test]
fn decimal_string_writes_numerals() {
    assert_eq!(decimal_string(0), "0");
    assert_eq!(decimal_string(7), "7");
    assert_eq!(decimal_string(10), "10");
    assert_eq!(decimal_string(4188891560), "4188891560");
    assert_eq!(decimal_string(u64::MAX), "18446744073709551615");
}

#[test]
fn snake_case_parts_words() {
    assert_eq!(to_snake_case("Node"), "node");
    assert_eq!(to_snake_case("Node2D"), "node_2d");
    assert_eq!(to_snake_case("BaseButton"), "base_button");
    assert_eq!(to_snake_case("AnimatedSprite2D"), "animated_sprite_2d");
    assert_eq!(to_snake_case("OS"), "os");
    assert_eq!(to_snake_case("FileAccess"), "file_access");
    assert_eq!(to_snake_case("Vector3i"), "vector_3i");
    assert_eq!(to_snake_case(""), "");
}

#[test]
fn snake_case_keeps_what_is_no_capital() {
    assert_eq!(to_snake_case("already_snake"), "already_snake");
    assert_eq!(to_snake_case("@Global"), "@global");
    assert_eq!(to_snake_case("Größe"), "größe");
}

#[test]
fn tokens_are_appended_in_order() {
    let mut t = Tokens::new();
    assert_eq!(t.len(), 0);
    assert_eq!(t.text(), "");
    t.push("pub");
    t.push("fn");
    let mut u = Tokens::single("f");
    u.push("(");
    u.push(")");
    t.extend(&u);
    assert_eq!(t.len(), 5);
    assert_eq!(t.items, vec!["pub", "fn", "f", "(", ")"]);
    assert_eq!(t.text(), "pub fn f ( ) ");
    assert_eq!(u.text(), "f ( ) ");
    assert_eq!(t.duplicate(), t);
}

#[test]
fn stopwatch_keeps_the_order_of_the_phases() {
    let mut watch = StopWatch::start();
    assert_eq!(watch.stats(), "");
    watch.record("build_context", 1500);
    watch.record("generate_central_file", 0);
    watch.record("rustfmt", 23);
    assert_eq!(watch.log.len(), 3);
    assert_eq!(watch.log[0].name, "build_context");
    assert_eq!(watch.log[0].micros, 1500);
    assert_eq!(
        watch.stats(),
        "build_context: 1500 us\ngenerate_central_file: 0 us\nrustfmt: 23 us\n"
    );
}
