use from_to_repr::config::parse_config;
use from_to_repr::diag::DiagKind;
use from_to_repr::syntax::{ArgValue, ConfigToken};

const END: usize = 99;

fn ident(text: &str, span: usize) -> ConfigToken {
    ConfigToken::Ident { text: text.to_string(), span }
}

fn strlit(text: &str, span: usize) -> ConfigToken {
    ConfigToken::StrLit { text: text.to_string(), span }
}

fn eq(span: usize) -> ConfigToken {
    ConfigToken::Equals { span }
}

fn comma(span: usize) -> ConfigToken {
    ConfigToken::Comma { span }
}

fn sep(span: usize) -> ConfigToken {
    ConfigToken::PathSep { span }
}

fn tree(span: usize) -> ConfigToken {
    ConfigToken::OtherTree { span }
}

#[test]
fn empty_input_is_an_empty_list() {
    let pairs = parse_config(&vec![], END).unwrap();
    assert!(pairs.is_empty());
}

#[test]
fn one_pair() {
    let pairs = parse_config(&vec![ident("base_type", 1), eq(2), ident("u8", 3)], END).unwrap();
    assert_eq!(pairs.len(), 1);
    assert_eq!(pairs[0].key, vec!["base_type".to_string()]);
    assert_eq!(pairs[0].key_span, 1);
    assert_eq!(pairs[0].value, ArgValue::Ident("u8".to_string()));
    assert_eq!(pairs[0].value_span, 3);
}

#[test]
fn two_pairs_with_trailing_comma() {
    let toks = vec![
        ident("base_type", 1),
        eq(2),
        ident("u8", 3),
        comma(4),
        ident("comparison_mode", 5),
        eq(6),
        strlit("none", 7),
        comma(8),
    ];
    let pairs = parse_config(&toks, END).unwrap();
    assert_eq!(pairs.len(), 2);
    assert_eq!(pairs[1].value, ArgValue::StrLit("none".to_string()));
}

#[test]
fn path_keys_keep_their_segments() {
    let toks = vec![ident("config", 1), sep(2), ident("base", 3), eq(4), tree(5)];
    let pairs = parse_config(&toks, END).unwrap();
    assert_eq!(pairs[0].key, vec!["config".to_string(), "base".to_string()]);
    assert_eq!(pairs[0].key_span, 1);
    assert_eq!(pairs[0].value, ArgValue::Other);
}

#[test]
fn missing_equals_is_a_syntax_error() {
    let e = parse_config(&vec![ident("base_type", 1), ident("u8", 3)], END).unwrap_err();
    assert_eq!(e.kind, DiagKind::SyntaxError);
    assert_eq!(e.span, 3);
}

#[test]
fn missing_value_is_a_syntax_error() {
    let e = parse_config(&vec![ident("base_type", 1), eq(2)], END).unwrap_err();
    assert_eq!(e.kind, DiagKind::SyntaxError);
    assert_eq!(e.span, END);
}

#[test]
fn separator_in_value_position_is_a_syntax_error() {
    let e = parse_config(&vec![ident("base_type", 1), eq(2), comma(3)], END).unwrap_err();
    assert_eq!(e.kind, DiagKind::SyntaxError);
    assert_eq!(e.span, 3);
}

#[test]
fn stray_token_after_a_pair_is_a_syntax_error() {
    let toks = vec![ident("base_type", 1), eq(2), ident("u8", 3), ident("u8", 4)];
    let e = parse_config(&toks, END).unwrap_err();
    assert_eq!(e.kind, DiagKind::SyntaxError);
    assert_eq!(e.span, 4);
}

#[test]
fn dangling_path_separator_is_a_syntax_error() {
    let e = parse_config(&vec![ident("config", 1), sep(2)], END).unwrap_err();
    assert_eq!(e.kind, DiagKind::SyntaxError);
    assert_eq!(e.span, END);
}

#[test]
fn separator_without_identifier_is_a_syntax_error() {
    let e = parse_config(&vec![ident("config", 1), sep(2), eq(3), tree(4)], END).unwrap_err();
    assert_eq!(e.kind, DiagKind::SyntaxError);
    assert_eq!(e.span, 3);
}

#[test]
fn pair_must_start_with_an_identifier() {
    let e = parse_config(&vec![eq(1), ident("u8", 2)], END).unwrap_err();
    assert_eq!(e.kind, DiagKind::SyntaxError);
    assert_eq!(e.span, 1);
}

#[test]
fn lone_comma_is_a_syntax_error() {
    let e = parse_config(&vec![comma(1)], END).unwrap_err();
    assert_eq!(e.kind, DiagKind::SyntaxError);
    assert_eq!(e.span, 1);
}

#[test]
fn comma_without_a_following_pair_is_accepted_once_only() {
    let toks = vec![ident("a", 1), eq(2), tree(3), comma(4), comma(5)];
    let e = parse_config(&toks, END).unwrap_err();
    assert_eq!(e.kind, DiagKind::SyntaxError);
    assert_eq!(e.span, 5);
}
