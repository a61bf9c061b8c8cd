use from_to_repr::diag::DiagKind;
use from_to_repr::engine::from_to_other;
use from_to_repr::model::CompareMode;
use from_to_repr::semantics::ExtValue;
use from_to_repr::syntax::{Attr, AttrPayload, ConfigToken, EnumDecl, Field, Variant};

const END: usize = 99;

fn ident(text: &str, span: usize) -> ConfigToken {
    ConfigToken::Ident { text: text.to_string(), span }
}

fn strlit(text: &str, span: usize) -> ConfigToken {
    ConfigToken::StrLit { text: text.to_string(), span }
}

fn eq(span: usize) -> ConfigToken {
    ConfigToken::Equals { span }
}

fn comma(span: usize) -> ConfigToken {
    ConfigToken::Comma { span }
}

fn plain(name: &str, disc: u128, span: usize) -> Variant {
    Variant { name: name.to_string(), attrs: vec![], discriminant: Some(disc), fields: vec![], span }
}

fn catch_all(name: &str, ty: &str, span: usize) -> Variant {
    Variant {
        name: name.to_string(),
        attrs: vec![],
        discriminant: None,
        fields: vec![Field { name: None, ty: ty.to_string(), span: span + 1 }],
        span,
    }
}

fn decl(variants: Vec<Variant>) -> EnumDecl {
    EnumDecl { name: "ColorCommand".to_string(), vis: "pub".to_string(), attrs: vec![], variants, span: 7 }
}

fn base_u8() -> Vec<ConfigToken> {
    vec![ident("base_type", 1), eq(2), ident("u8", 3)]
}

fn abc_other() -> EnumDecl {
    decl(vec![plain("A", 0, 10), plain("B", 1, 11), plain("C", 2, 12), catch_all("Other", "u8", 13)])
}

#[test]
fn concrete_scenario() {
    let code = from_to_other(&base_u8(), END, &abc_other()).unwrap();
    assert_eq!(code.enum_name, "ColorCommand");
    assert_eq!(code.catch_all, "Other");
    assert_eq!(code.compare, CompareMode::NoComparison);
    assert_eq!(code.arms.len(), 3);
    assert_eq!(code.arms[1].name, "B");
    assert_eq!(code.arms[1].disc, 1);
    assert_eq!(code.decode(1), ExtValue::Plain { index: 1 });
    assert_eq!(code.decode(9), ExtValue::CatchAll { value: 9 });
    assert_eq!(code.encode(&ExtValue::CatchAll { value: 9 }), 9);
    assert_eq!(code.encode(&ExtValue::Plain { index: 1 }), 1);
}

#[test]
fn decode_is_exhaustive() {
    let code = from_to_other(&base_u8(), END, &abc_other()).unwrap();
    for v in 0..=255u128 {
        match code.decode(v) {
            ExtValue::Plain { index } => {
                assert!(v <= 2);
                assert_eq!(code.arms[index].disc, v);
            }
            ExtValue::CatchAll { value } => {
                assert!(v > 2);
                assert_eq!(value, v);
            }
        }
    }
}

#[test]
fn round_trip_plain_members() {
    let code = from_to_other(&base_u8(), END, &abc_other()).unwrap();
    for i in 0..3usize {
        let v = ExtValue::Plain { index: i };
        assert_eq!(code.decode(code.encode(&v)), v);
    }
}

#[test]
fn round_trip_catch_all_values() {
    let code = from_to_other(&base_u8(), END, &abc_other()).unwrap();
    for v in 3..=255u128 {
        assert_eq!(code.encode(&code.decode(v)), v);
    }
}

#[test]
fn tie_break_takes_earlier_member() {
    let d = decl(vec![plain("First", 5, 10), plain("Second", 5, 11), catch_all("Other", "u8", 12)]);
    let code = from_to_other(&base_u8(), END, &d).unwrap();
    assert_eq!(code.decode(5), ExtValue::Plain { index: 0 });
    // the later member is still encodable
    assert_eq!(code.encode(&ExtValue::Plain { index: 1 }), 5);
}

fn with_mode(mode: &str) -> Vec<ConfigToken> {
    vec![
        ident("base_type", 1),
        eq(2),
        ident("u8", 3),
        comma(4),
        ident("comparison_mode", 5),
        eq(6),
        strlit(mode, 7),
    ]
}

#[test]
fn value_based_mode_matches_catch_all_to_member() {
    let code = from_to_other(&with_mode("value-based"), END, &abc_other()).unwrap();
    assert_eq!(code.compare, CompareMode::ValueBased);
    assert!(code.values_equal(&ExtValue::CatchAll { value: 1 }, &ExtValue::Plain { index: 1 }));
    assert!(!code.values_equal(&ExtValue::CatchAll { value: 7 }, &ExtValue::Plain { index: 1 }));
}

#[test]
fn declared_order_mode_separates_catch_all_from_member() {
    let code = from_to_other(&with_mode("declared-order"), END, &abc_other()).unwrap();
    assert_eq!(code.compare, CompareMode::DeclaredOrder);
    assert!(!code.values_equal(&ExtValue::CatchAll { value: 1 }, &ExtValue::Plain { index: 1 }));
    assert!(code.values_equal(&ExtValue::Plain { index: 1 }, &ExtValue::Plain { index: 1 }));
    assert!(code.values_equal(&ExtValue::CatchAll { value: 7 }, &ExtValue::CatchAll { value: 7 }));
}

#[test]
fn mode_none_is_recognized() {
    let code = from_to_other(&with_mode("none"), END, &abc_other()).unwrap();
    assert_eq!(code.compare, CompareMode::NoComparison);
}

#[test]
fn stripped_declaration_loses_discriminants_only() {
    let mut d = abc_other();
    d.attrs.push(Attr { name: "doc".to_string(), payload: AttrPayload::NotList, span: 40 });
    d.variants[0].attrs.push(Attr {
        name: "cfg".to_string(),
        payload: AttrPayload::List(vec![]),
        span: 41,
    });
    let code = from_to_other(&base_u8(), END, &d).unwrap();
    let s = &code.stripped_decl;
    assert_eq!(s.name, "ColorCommand");
    assert_eq!(s.vis, "pub");
    assert_eq!(s.attrs.len(), 1);
    assert_eq!(s.attrs[0].name, "doc");
    assert_eq!(s.variants.len(), 4);
    for v in &s.variants {
        assert_eq!(v.discriminant, None);
    }
    assert_eq!(s.variants[0].name, "A");
    assert_eq!(s.variants[0].attrs.len(), 1);
    assert_eq!(s.variants[3].fields.len(), 1);
    assert_eq!(s.variants[3].fields[0].ty, "u8");
}

#[test]
fn two_catch_alls_are_rejected() {
    let d = decl(vec![plain("A", 0, 10), catch_all("Other", "u8", 11), catch_all("More", "u8", 12)]);
    let e = from_to_other(&base_u8(), END, &d).unwrap_err();
    assert_eq!(e.kind, DiagKind::MultipleCatchAlls);
    assert_eq!(e.span, 12);
}

#[test]
fn zero_catch_alls_are_rejected() {
    let d = decl(vec![plain("A", 0, 10), plain("B", 1, 11)]);
    let e = from_to_other(&base_u8(), END, &d).unwrap_err();
    assert_eq!(e.kind, DiagKind::MissingCatchAll);
    assert_eq!(e.span, 7);
}

#[test]
fn missing_base_type_is_rejected() {
    let e = from_to_other(&vec![], END, &abc_other()).unwrap_err();
    assert_eq!(e.kind, DiagKind::MissingRequiredArgument);
    assert_eq!(e.span, 7);
}

#[test]
fn bogus_comparison_mode_is_rejected() {
    let e = from_to_other(&with_mode("bogus"), END, &abc_other()).unwrap_err();
    assert_eq!(e.kind, DiagKind::InvalidArgumentValue);
    assert_eq!(e.span, 7);
}

#[test]
fn comparison_mode_must_be_a_string_literal() {
    let toks = vec![
        ident("base_type", 1),
        eq(2),
        ident("u8", 3),
        comma(4),
        ident("comparison_mode", 5),
        eq(6),
        ident("none", 7),
    ];
    let e = from_to_other(&toks, END, &abc_other()).unwrap_err();
    assert_eq!(e.kind, DiagKind::InvalidArgumentValue);
    assert_eq!(e.span, 7);
}

#[test]
fn base_type_must_be_an_identifier() {
    let toks = vec![ident("base_type", 1), eq(2), strlit("u8", 3)];
    let e = from_to_other(&toks, END, &abc_other()).unwrap_err();
    assert_eq!(e.kind, DiagKind::InvalidArgumentValue);
    assert_eq!(e.span, 3);
}

#[test]
fn base_type_must_be_an_integer_width() {
    let toks = vec![ident("base_type", 1), eq(2), ident("f32", 3)];
    let e = from_to_other(&toks, END, &abc_other()).unwrap_err();
    assert_eq!(e.kind, DiagKind::InvalidArgumentValue);
    assert_eq!(e.span, 3);
}

#[test]
fn duplicate_base_type_is_rejected() {
    let toks = vec![
        ident("base_type", 1),
        eq(2),
        ident("u8", 3),
        comma(4),
        ident("base_type", 5),
        eq(6),
        ident("u16", 7),
    ];
    let e = from_to_other(&toks, END, &abc_other()).unwrap_err();
    assert_eq!(e.kind, DiagKind::DuplicateArgument);
    assert_eq!(e.span, 5);
}

#[test]
fn duplicate_comparison_mode_is_rejected() {
    let mut toks = with_mode("none");
    toks.push(comma(8));
    toks.push(ident("comparison_mode", 9));
    toks.push(eq(10));
    toks.push(strlit("value-based", 11));
    let e = from_to_other(&toks, END, &abc_other()).unwrap_err();
    assert_eq!(e.kind, DiagKind::DuplicateArgument);
    assert_eq!(e.span, 9);
}

#[test]
fn unknown_argument_is_rejected() {
    let toks = vec![ident("base", 1), eq(2), ident("u8", 3)];
    let e = from_to_other(&toks, END, &abc_other()).unwrap_err();
    assert_eq!(e.kind, DiagKind::UnknownArgument);
    assert_eq!(e.span, 1);
}

#[test]
fn member_with_field_and_discriminant_is_rejected() {
    let mut v = plain("A", 0, 10);
    v.fields.push(Field { name: None, ty: "u8".to_string(), span: 20 });
    let d = decl(vec![v, catch_all("Other", "u8", 11)]);
    let e = from_to_other(&base_u8(), END, &d).unwrap_err();
    assert_eq!(e.kind, DiagKind::ConflictingShape);
    assert_eq!(e.span, 10);
}

#[test]
fn catch_all_with_two_fields_is_rejected() {
    let mut c = catch_all("Other", "u8", 11);
    c.fields.push(Field { name: None, ty: "u8".to_string(), span: 21 });
    let d = decl(vec![plain("A", 0, 10), c]);
    let e = from_to_other(&base_u8(), END, &d).unwrap_err();
    assert_eq!(e.kind, DiagKind::InvalidCatchAllShape);
    assert_eq!(e.span, 11);
}

#[test]
fn catch_all_with_named_field_is_rejected() {
    let mut c = catch_all("Other", "u8", 11);
    c.fields[0].name = Some("value".to_string());
    let d = decl(vec![plain("A", 0, 10), c]);
    let e = from_to_other(&base_u8(), END, &d).unwrap_err();
    assert_eq!(e.kind, DiagKind::InvalidCatchAllShape);
    assert_eq!(e.span, 12);
}

#[test]
fn catch_all_of_wrong_type_is_rejected() {
    let d = decl(vec![plain("A", 0, 10), catch_all("Other", "u16", 11)]);
    let e = from_to_other(&base_u8(), END, &d).unwrap_err();
    assert_eq!(e.kind, DiagKind::InvalidCatchAllShape);
    assert_eq!(e.span, 12);
}

#[test]
fn all_widths_are_accepted() {
    for ty in ["u8", "u16", "u32", "u64", "u128", "usize", "i8", "i16", "i32", "i64", "i128", "isize"] {
        let toks = vec![ident("base_type", 1), eq(2), ident(ty, 3)];
        let d = decl(vec![plain("A", 0, 10), catch_all("Other", ty, 11)]);
        let code = from_to_other(&toks, END, &d).unwrap();
        assert_eq!(code.base_type.name(), ty);
    }
}

#[test]
fn only_a_catch_all_still_converts() {
    let d = decl(vec![catch_all("Other", "u8", 10)]);
    let code = from_to_other(&base_u8(), END, &d).unwrap();
    assert_eq!(code.arms.len(), 0);
    assert_eq!(code.decode(4), ExtValue::CatchAll { value: 4 });
    assert_eq!(code.encode(&ExtValue::CatchAll { value: 4 }), 4);
}

#[test]
fn malformed_argument_list_is_rejected_before_extraction() {
    let toks = vec![ident("base_type", 1), ident("u8", 2)];
    let e = from_to_other(&toks, END, &abc_other()).unwrap_err();
    assert_eq!(e.kind, DiagKind::SyntaxError);
    assert_eq!(e.span, 2);
}

#[test]
fn diagnostics_carry_messages() {
    let e = from_to_other(&vec![], END, &abc_other()).unwrap_err();
    assert!(!e.kind.message().is_empty());
    assert_eq!(DiagKind::UnknownArgument.message(), "unknown argument");
}
