use db_ext_macro::parse::parse_paren_path;

#[test]
fn parse_simple_path() {
    assert_eq!(parse_paren_path("(length)"), Some(vec!["length".to_string()]));
}

#[test]
fn parse_spaced_path() {
    assert_eq!(
        parse_paren_path(" ( foo :: bar ) "),
        Some(vec!["foo".to_string(), "bar".to_string()])
    );
}

#[test]
fn parse_multi_segment() {
    assert_eq!(
        parse_paren_path("(a::b::c_3)"),
        Some(vec!["a".to_string(), "b".to_string(), "c_3".to_string()])
    );
}

#[test]
fn parse_rejects_unparenthesized() {
    assert_eq!(parse_paren_path("length"), None);
}

#[test]
fn parse_rejects_empty_parens() {
    assert_eq!(parse_paren_path("()"), None);
}

#[test]
fn parse_rejects_digit_start() {
    assert_eq!(parse_paren_path("(9abc)"), None);
}

#[test]
fn parse_rejects_trailing_text() {
    assert_eq!(parse_paren_path("(a) b"), None);
}

#[test]
fn parse_rejects_dangling_separator() {
    assert_eq!(parse_paren_path("(a::)"), None);
}

#[test]
fn path_render_parse_round_trip() {
    let path = vec!["crate_a".to_string(), "module_b".to_string(), "item_c".to_string()];
    let mut text = String::from("(");
    db_ext_macro::render::push_path(&mut text, &path);
    text.push(')');
    assert_eq!(text, "(crate_a::module_b::item_c)");
    assert_eq!(parse_paren_path(&text), Some(path));
}
