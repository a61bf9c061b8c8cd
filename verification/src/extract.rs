//! The model extractors: a single linear pass over the configuration
//! pairs and one over the declared members, classifying each construct
//! and stopping at the first violation with a span-located diagnostic.

use vstd::prelude::*;
use crate::diag::{Diag, DiagKind};
use crate::model::{
    str_eq, BaseType, CompareMode, ExtendedModel, PlainMember, SimpleModel,
    spec_base_type_of_name, spec_base_type_name, spec_compare_mode_of_name,
};
use crate::syntax::{
    kvp_views, Attr, AttrPayload, ArgValue, EnumDecl, KeyValuePair, KvpView, ReprItem, Variant,
};

verus! {

// ------------------------------------------------------------------
// The extended form's configuration walk.
// ------------------------------------------------------------------

/// The configuration walk from pair `i` on, having already recorded
/// `base` and `mode`: either the final recordings, or the first
/// violation's diagnostic.
pub open spec fn walk_args(
    pairs: Seq<KvpView>,
    i: int,
    base: Option<BaseType>,
    mode: Option<CompareMode>,
) -> Result<(Option<BaseType>, Option<CompareMode>), Diag>
    decreases pairs.len() - i,
{
    if i < 0 || i >= pairs.len() {
        Ok((base, mode))
    } else {
        let p = pairs[i];
        if p.key_is("base_type"@) {
            if base is Some {
                Err(Diag { kind: DiagKind::DuplicateArgument, span: p.key_span })
            } else {
                match p.value {
                    ArgValue::Ident(s) => match spec_base_type_of_name(s@) {
                        Some(bt) => walk_args(pairs, i + 1, Some(bt), mode),
                        None => Err(Diag { kind: DiagKind::InvalidArgumentValue, span: p.value_span }),
                    },
                    _ => Err(Diag { kind: DiagKind::InvalidArgumentValue, span: p.value_span }),
                }
            }
        } else if p.key_is("comparison_mode"@) {
            if mode is Some {
                Err(Diag { kind: DiagKind::DuplicateArgument, span: p.key_span })
            } else {
                match p.value {
                    ArgValue::StrLit(s) => match spec_compare_mode_of_name(s@) {
                        Some(m) => walk_args(pairs, i + 1, base, Some(m)),
                        None => Err(Diag { kind: DiagKind::InvalidArgumentValue, span: p.value_span }),
                    },
                    _ => Err(Diag { kind: DiagKind::InvalidArgumentValue, span: p.value_span }),
                }
            }
        } else {
            Err(Diag { kind: DiagKind::UnknownArgument, span: p.key_span })
        }
    }
}

/// What the configuration list as a whole selects: the base type and the
/// comparison mode (defaulting to no comparison), or the first
/// diagnostic. A missing `base_type` at the end of the walk is reported
/// at the declaration's span.
pub open spec fn spec_config(pairs: Seq<KvpView>, decl_span: usize) -> Result<
    (BaseType, CompareMode),
    Diag,
> {
    match walk_args(pairs, 0, None, None) {
        Err(d) => Err(d),
        Ok((base, mode)) => match base {
            Some(bt) => Ok(
                (
                    bt,
                    match mode {
                        Some(m) => m,
                        None => CompareMode::NoComparison,
                    },
                ),
            ),
            None => Err(Diag { kind: DiagKind::MissingRequiredArgument, span: decl_span }),
        },
    }
}

/// The index of the first pair at or after `i` whose key is the single
/// identifier `name`, if any.
pub open spec fn first_key_from(pairs: Seq<KvpView>, name: Seq<char>, i: int) -> Option<int>
    decreases pairs.len() - i,
{
    if i < 0 || i >= pairs.len() {
        None
    } else if pairs[i].key_is(name) {
        Some(i)
    } else {
        first_key_from(pairs, name, i + 1)
    }
}

proof fn lemma_walk_args_shape(
    pairs: Seq<KvpView>,
    i: int,
    base: Option<BaseType>,
    mode: Option<CompareMode>,
)
    requires
        0 <= i <= pairs.len(),
        walk_args(pairs, i, base, mode) is Ok,
    ensures
        ({
            let (b2, m2) = walk_args(pairs, i, base, mode)->Ok_0;
            &&& (forall|k: int| i <= k < pairs.len() ==> (#[trigger] pairs[k]).key_is("base_type"@)
                || pairs[k].key_is("comparison_mode"@))
            &&& (base is Some ==> b2 == base && (forall|k: int| i <= k < pairs.len()
                ==> !(#[trigger] pairs[k]).key_is("base_type"@)))
            &&& (base is None ==> match first_key_from(pairs, "base_type"@, i) {
                Some(j) => pairs[j].value matches ArgValue::Ident(s)
                    && spec_base_type_of_name(s@) == b2
                    && b2 is Some
                    && (forall|k: int| i <= k < pairs.len() && k != j
                        ==> !(#[trigger] pairs[k]).key_is("base_type"@)),
                None => b2 is None,
            })
            &&& (mode is Some ==> m2 == mode && (forall|k: int| i <= k < pairs.len()
                ==> !(#[trigger] pairs[k]).key_is("comparison_mode"@)))
            &&& (mode is None ==> match first_key_from(pairs, "comparison_mode"@, i) {
                Some(j) => pairs[j].value matches ArgValue::StrLit(s)
                    && spec_compare_mode_of_name(s@) == m2
                    && m2 is Some
                    && (forall|k: int| i <= k < pairs.len() && k != j
                        ==> !(#[trigger] pairs[k]).key_is("comparison_mode"@)),
                None => m2 is None,
            })
        }),
    decreases pairs.len() - i,
{
    broadcast use vstd::string::group_string_axioms;

    reveal_strlit("base_type");
    reveal_strlit("comparison_mode");
    // the two keys differ already in length
    assert("base_type"@.len() == 9);
    assert("base_type"@ != "comparison_mode"@);
    if i < pairs.len() {
        let p = pairs[i];
        if p.key_is("base_type"@) {
            match p.value {
                ArgValue::Ident(s) => {
                    lemma_walk_args_shape(pairs, i + 1, Some(spec_base_type_of_name(s@)->Some_0), mode);
                },
                _ => {},
            }
        } else if p.key_is("comparison_mode"@) {
            match p.value {
                ArgValue::StrLit(s) => {
                    lemma_walk_args_shape(pairs, i + 1, base, Some(spec_compare_mode_of_name(s@)->Some_0));
                },
                _ => {},
            }
        }
    }
}

/// Configuration invariant: when the configuration walk succeeds, every
/// key is one of the two recognized ones; `base_type` appears exactly
/// once, and the selected width is the one its identifier value names;
/// `comparison_mode` appears at most once, the selected mode is the one
/// its string value names, and its absence selects the default of no
/// comparison.
pub proof fn lemma_config_shape(pairs: Seq<KvpView>, decl_span: usize)
    requires
        spec_config(pairs, decl_span) is Ok,
    ensures
        ({
            let (bt, cm) = spec_config(pairs, decl_span)->Ok_0;
            &&& (forall|k: int| 0 <= k < pairs.len() ==> (#[trigger] pairs[k]).key_is("base_type"@)
                || pairs[k].key_is("comparison_mode"@))
            &&& (first_key_from(pairs, "base_type"@, 0) matches Some(j)
                && pairs[j].value matches ArgValue::Ident(s)
                && spec_base_type_of_name(s@) == Some(bt)
                && (forall|k: int| 0 <= k < pairs.len() && k != j
                    ==> !(#[trigger] pairs[k]).key_is("base_type"@)))
            &&& (match first_key_from(pairs, "comparison_mode"@, 0) {
                Some(j) => pairs[j].value matches ArgValue::StrLit(s)
                    && spec_compare_mode_of_name(s@) == Some(cm)
                    && (forall|k: int| 0 <= k < pairs.len() && k != j
                        ==> !(#[trigger] pairs[k]).key_is("comparison_mode"@)),
                None => cm == CompareMode::NoComparison,
            })
        }),
{
    lemma_walk_args_shape(pairs, 0, None, None);
}

// ------------------------------------------------------------------
// The extended form's member walk.
// ------------------------------------------------------------------

/// The member walk from member `i` on, having already collected the
/// plain members `plain` and, if one was seen, the catch-all's name:
/// either the final collection, or the first violation's diagnostic.
pub open spec fn walk_members(
    vars: Seq<Variant>,
    i: int,
    base_name: Seq<char>,
    plain: Seq<PlainMember>,
    catch: Option<String>,
) -> Result<(Seq<PlainMember>, Option<String>), Diag>
    decreases vars.len() - i,
{
    if i < 0 || i >= vars.len() {
        Ok((plain, catch))
    } else {
        let v = vars[i];
        match v.discriminant {
            Some(d) => if v.fields.len() > 0 {
                Err(Diag { kind: DiagKind::ConflictingShape, span: v.span })
            } else {
                walk_members(vars, i + 1, base_name, plain.push(PlainMember { name: v.name, disc: d }), catch)
            },
            None => if catch is Some {
                Err(Diag { kind: DiagKind::MultipleCatchAlls, span: v.span })
            } else if v.fields.len() != 1 {
                Err(Diag { kind: DiagKind::InvalidCatchAllShape, span: v.span })
            } else if v.fields[0].name is Some {
                Err(Diag { kind: DiagKind::InvalidCatchAllShape, span: v.fields[0].span })
            } else if v.fields[0].ty@ != base_name {
                Err(Diag { kind: DiagKind::InvalidCatchAllShape, span: v.fields[0].span })
            } else {
                walk_members(vars, i + 1, base_name, plain, Some(v.name))
            },
        }
    }
}

/// What the member list yields: the plain members in declaration order
/// and the catch-all's name, or the first diagnostic. A missing
/// catch-all at the end of the walk is reported at the declaration's
/// span.
pub open spec fn spec_members(vars: Seq<Variant>, base_name: Seq<char>, decl_span: usize) -> Result<
    (Seq<PlainMember>, String),
    Diag,
> {
    match walk_members(vars, 0, base_name, Seq::empty(), None) {
        Err(d) => Err(d),
        Ok((plain, catch)) => match catch {
            Some(c) => Ok((plain, c)),
            None => Err(Diag { kind: DiagKind::MissingCatchAll, span: decl_span }),
        },
    }
}

/// Extracts the extended enumeration model: walks the configuration
/// pairs once, then the member list once, and fails with the first
/// violation's diagnostic; on success the model holds exactly what the
/// two walks recorded.
pub fn extract_extended(pairs: &Vec<KeyValuePair>, decl: &EnumDecl) -> (r: Result<
    ExtendedModel,
    Diag,
>)
    ensures
        (match spec_config(kvp_views(pairs@), decl.span) {
            Err(d) => r == Err::<ExtendedModel, Diag>(d),
            Ok((bt, cm)) => match spec_members(decl.variants@, spec_base_type_name(bt), decl.span) {
                Err(d) => r == Err::<ExtendedModel, Diag>(d),
                Ok((plain, catch)) => (r matches Ok(m)
                    && m.name == decl.name
                    && m.base_type == bt
                    && m.compare_mode == cm
                    && m.plain_members@ == plain
                    && m.catch_all_name == catch),
            },
        }),
{
    let ghost views = kvp_views(pairs@);
    let mut base: Option<BaseType> = None;
    let mut mode: Option<CompareMode> = None;
    let mut i: usize = 0;
    while i < pairs.len()
        invariant
            i <= pairs.len(),
            views == kvp_views(pairs@),
            walk_args(views, 0, None, None) == walk_args(views, i as int, base, mode),
        decreases pairs.len() - i,
    {
        proof {
            assert(views[i as int] == pairs@[i as int]@);
        }
        let p = &pairs[i];
        if p.key.len() == 1 && str_eq(&p.key[0], "base_type") {
            if base.is_some() {
                return Err(Diag { kind: DiagKind::DuplicateArgument, span: p.key_span });
            }
            match &p.value {
                ArgValue::Ident(s) => match BaseType::from_name(s) {
                    Some(bt) => {
                        base = Some(bt);
                    },
                    None => {
                        return Err(Diag { kind: DiagKind::InvalidArgumentValue, span: p.value_span });
                    },
                },
                _ => {
                    return Err(Diag { kind: DiagKind::InvalidArgumentValue, span: p.value_span });
                },
            }
        } else if p.key.len() == 1 && str_eq(&p.key[0], "comparison_mode") {
            if mode.is_some() {
                return Err(Diag { kind: DiagKind::DuplicateArgument, span: p.key_span });
            }
            match &p.value {
                ArgValue::StrLit(s) => match CompareMode::from_name(s) {
                    Some(m) => {
                        mode = Some(m);
                    },
                    None => {
                        return Err(Diag { kind: DiagKind::InvalidArgumentValue, span: p.value_span });
                    },
                },
                _ => {
                    return Err(Diag { kind: DiagKind::InvalidArgumentValue, span: p.value_span });
                },
            }
        } else {
            return Err(Diag { kind: DiagKind::UnknownArgument, span: p.key_span });
        }
        i = i + 1;
    }
    let bt = match base {
        Some(bt) => bt,
        None => {
            return Err(Diag { kind: DiagKind::MissingRequiredArgument, span: decl.span });
        },
    };
    let cm = match mode {
        Some(m) => m,
        None => CompareMode::NoComparison,
    };

    let bt_name = bt.name();
    let mut plain: Vec<PlainMember> = Vec::new();
    let mut catch: Option<String> = None;
    let mut j: usize = 0;
    while j < decl.variants.len()
        invariant
            j <= decl.variants.len(),
            spec_config(kvp_views(pairs@), decl.span) == Ok::<(BaseType, CompareMode), Diag>((bt, cm)),
            walk_members(decl.variants@, 0, spec_base_type_name(bt), Seq::empty(), None)
                == walk_members(decl.variants@, j as int, spec_base_type_name(bt), plain@, catch),
            bt_name@ == spec_base_type_name(bt),
        decreases decl.variants.len() - j,
    {
        let v = &decl.variants[j];
        match &v.discriminant {
            Some(d) => {
                if v.fields.len() > 0 {
                    return Err(Diag { kind: DiagKind::ConflictingShape, span: v.span });
                }
                let ghost plain0 = plain@;
                plain.push(PlainMember { name: v.name.clone(), disc: *d });
                proof {
                    let vs = decl.variants@[j as int];
                    assert(plain@ == plain0.push(PlainMember { name: vs.name, disc: vs.discriminant->Some_0 }));
                }
            },
            None => {
                if catch.is_some() {
                    return Err(Diag { kind: DiagKind::MultipleCatchAlls, span: v.span });
                }
                if v.fields.len() != 1 {
                    return Err(Diag { kind: DiagKind::InvalidCatchAllShape, span: v.span });
                }
                let f = &v.fields[0];
                if f.name.is_some() {
                    return Err(Diag { kind: DiagKind::InvalidCatchAllShape, span: f.span });
                }
                if !str_eq(&f.ty, bt_name) {
                    return Err(Diag { kind: DiagKind::InvalidCatchAllShape, span: f.span });
                }
                catch = Some(v.name.clone());
            },
        }
        j = j + 1;
    }
    let catch_name = match catch {
        Some(c) => c,
        None => {
            return Err(Diag { kind: DiagKind::MissingCatchAll, span: decl.span });
        },
    };
    Ok(
        ExtendedModel {
            name: decl.name.clone(),
            base_type: bt,
            plain_members: plain,
            catch_all_name: catch_name,
            compare_mode: cm,
        },
    )
}

// ------------------------------------------------------------------
// What a successful extended walk means, declaratively.
// ------------------------------------------------------------------

/// The index of the first member at or after `i` without a
/// discriminant, if any.
pub open spec fn first_catch_from(vars: Seq<Variant>, i: int) -> Option<int>
    decreases vars.len() - i,
{
    if i < 0 || i >= vars.len() {
        None
    } else if vars[i].discriminant is None {
        Some(i)
    } else {
        first_catch_from(vars, i + 1)
    }
}

/// The plain member a discriminant-bearing variant contributes.
pub open spec fn member_of(v: Variant) -> PlainMember {
    PlainMember { name: v.name, disc: v.discriminant->Some_0 }
}

/// After the catch-all was seen, a succeeding walk finds only
/// discriminant-bearing, payload-free members and collects each in
/// order.
proof fn lemma_walk_members_after_catch(
    vars: Seq<Variant>,
    base_name: Seq<char>,
    i: int,
    plain: Seq<PlainMember>,
    c: String,
)
    requires
        0 <= i <= vars.len(),
        walk_members(vars, i, base_name, plain, Some(c)) is Ok,
    ensures
        ({
            let (p, c2) = walk_members(vars, i, base_name, plain, Some(c))->Ok_0;
            &&& c2 == Some(c)
            &&& p.len() == plain.len() + vars.len() - i
            &&& (forall|k: int| 0 <= k < plain.len() ==> p[k] == plain[k])
            &&& (forall|j: int| i <= j < vars.len() ==> (#[trigger] vars[j].discriminant) is Some
                && vars[j].fields.len() == 0)
            &&& (forall|j: int| i <= j < vars.len() ==> p[plain.len() + j - i] == member_of(
                #[trigger] vars[j],
            ))
        }),
    decreases vars.len() - i,
{
    if i < vars.len() {
        lemma_walk_members_after_catch(vars, base_name, i + 1, plain.push(member_of(vars[i])), c);
    }
}

/// A succeeding walk that still awaits the catch-all and ends with one
/// found it at the first discriminant-free member; all other members
/// are discriminant-bearing and payload-free, and are collected in
/// order around it.
proof fn lemma_walk_members_one_catch(
    vars: Seq<Variant>,
    base_name: Seq<char>,
    i: int,
    plain: Seq<PlainMember>,
)
    requires
        0 <= i <= vars.len(),
        walk_members(vars, i, base_name, plain, None) is Ok,
        walk_members(vars, i, base_name, plain, None)->Ok_0.1 is Some,
    ensures
        ({
            let (p, copt) = walk_members(vars, i, base_name, plain, None)->Ok_0;
            &&& (first_catch_from(vars, i) matches Some(j)
                && vars[j].name == copt->Some_0
                && vars[j].fields.len() == 1
                && vars[j].fields[0].name is None
                && vars[j].fields[0].ty@ == base_name
                && p.len() == plain.len() + vars.len() - i - 1
                && (forall|k: int| 0 <= k < plain.len() ==> p[k] == plain[k])
                && (forall|k: int| i <= k < vars.len() && k != j ==> (
                    #[trigger] vars[k].discriminant) is Some && vars[k].fields.len() == 0)
                && (forall|k: int| i <= k < j ==> p[plain.len() + k - i] == member_of(
                    #[trigger] vars[k],
                ))
                && (forall|k: int| j < k < vars.len() ==> p[plain.len() + k - i - 1] == member_of(
                    #[trigger] vars[k],
                )))
        }),
    decreases vars.len() - i,
{
    if i < vars.len() {
        match vars[i].discriminant {
            Some(_) => {
                lemma_walk_members_one_catch(vars, base_name, i + 1, plain.push(member_of(vars[i])));
            },
            None => {
                lemma_walk_members_after_catch(vars, base_name, i + 1, plain, vars[i].name);
            },
        }
    }
}

/// Catch-all uniqueness and member shape: when the extended form's
/// member walk succeeds, the catch-all is the first — and only — member
/// without a discriminant, it has exactly one unnamed field of the base
/// type, every other member carries a discriminant and no payload, and
/// the plain members are exactly those members in declaration order.
pub proof fn lemma_extended_members_shape(vars: Seq<Variant>, base_name: Seq<char>, decl_span: usize)
    requires
        spec_members(vars, base_name, decl_span) is Ok,
    ensures
        ({
            let (p, cn) = spec_members(vars, base_name, decl_span)->Ok_0;
            &&& (first_catch_from(vars, 0) matches Some(j)
                && vars[j].name == cn
                && vars[j].discriminant is None
                && vars[j].fields.len() == 1
                && vars[j].fields[0].name is None
                && vars[j].fields[0].ty@ == base_name
                && p.len() == vars.len() - 1
                && (forall|k: int| 0 <= k < vars.len() && k != j ==> (
                    #[trigger] vars[k].discriminant) is Some && vars[k].fields.len() == 0)
                && (forall|k: int| 0 <= k < j ==> p[k] == member_of(#[trigger] vars[k]))
                && (forall|k: int| j < k < vars.len() ==> p[k - 1] == member_of(#[trigger] vars[k])))
        }),
{
    lemma_walk_members_one_catch(vars, base_name, 0, Seq::empty());
    lemma_first_catch_is_none(vars, first_catch_from(vars, 0)->Some_0);
}

/// The first discriminant-free member is discriminant-free.
proof fn lemma_first_catch_is_none(vars: Seq<Variant>, j: int)
    requires
        first_catch_from(vars, 0) == Some(j),
    ensures
        0 <= j < vars.len() && vars[j].discriminant is None,
{
    lemma_first_catch_from_bounds(vars, 0);
}

proof fn lemma_first_catch_from_bounds(vars: Seq<Variant>, i: int)
    requires
        0 <= i <= vars.len(),
    ensures
        (first_catch_from(vars, i) matches Some(j) ==> i <= j < vars.len()
            && vars[j].discriminant is None),
    decreases vars.len() - i,
{
    if i < vars.len() && !(vars[i].discriminant is None) {
        lemma_first_catch_from_bounds(vars, i + 1);
    }
}

// ------------------------------------------------------------------
// The simple form.
// ------------------------------------------------------------------

/// The index of the first attribute named `repr` at or after `i`, if any.
pub open spec fn first_repr_from(attrs: Seq<Attr>, i: int) -> Option<int>
    decreases attrs.len() - i,
{
    if i < 0 || i >= attrs.len() {
        None
    } else if attrs[i].name@ == "repr"@ {
        Some(i)
    } else {
        first_repr_from(attrs, i + 1)
    }
}

/// The width scan over the representation attribute's items from item
/// `i` on, having already `found` a width or not: the single width named,
/// or the first violation's diagnostic, at the attribute's span.
pub open spec fn scan_widths(
    items: Seq<ReprItem>,
    i: int,
    found: Option<BaseType>,
    attr_span: usize,
) -> Result<BaseType, Diag>
    decreases items.len() - i,
{
    if i < 0 || i >= items.len() {
        match found {
            Some(bt) => Ok(bt),
            None => Err(Diag { kind: DiagKind::MissingAttribute, span: attr_span }),
        }
    } else {
        match items[i] {
            ReprItem::Word(s) => match spec_base_type_of_name(s@) {
                Some(bt) => if found is Some {
                    Err(Diag { kind: DiagKind::AmbiguousAttribute, span: attr_span })
                } else {
                    scan_widths(items, i + 1, Some(bt), attr_span)
                },
                None => scan_widths(items, i + 1, found, attr_span),
            },
            ReprItem::NotWord => Err(Diag { kind: DiagKind::MalformedAttribute, span: attr_span }),
        }
    }
}

/// The representation type the declaration's attributes select: the
/// single integer width named inside the first `repr` attribute, or a
/// diagnostic — at the declaration's span when no `repr` attribute
/// exists, else at that attribute's span.
pub open spec fn spec_repr_type(attrs: Seq<Attr>, decl_span: usize) -> Result<BaseType, Diag> {
    match first_repr_from(attrs, 0) {
        None => Err(Diag { kind: DiagKind::MissingAttribute, span: decl_span }),
        Some(ai) => {
            let a = attrs[ai];
            match a.payload {
                AttrPayload::List(items) => scan_widths(items@, 0, None, a.span),
                AttrPayload::NotList => Err(Diag { kind: DiagKind::MalformedAttribute, span: a.span }),
            }
        },
    }
}

/// The simple form's member walk from member `i` on: every member must
/// be payload-free and carry an explicit discriminant; the collected
/// members in declaration order, or the first violation's diagnostic.
pub open spec fn walk_simple_members(vars: Seq<Variant>, i: int, acc: Seq<PlainMember>) -> Result<
    Seq<PlainMember>,
    Diag,
>
    decreases vars.len() - i,
{
    if i < 0 || i >= vars.len() {
        Ok(acc)
    } else {
        let v = vars[i];
        if v.fields.len() > 0 {
            Err(Diag { kind: DiagKind::UnsupportedPayload, span: v.span })
        } else {
            match v.discriminant {
                Some(d) => walk_simple_members(vars, i + 1, acc.push(PlainMember { name: v.name, disc: d })),
                None => Err(Diag { kind: DiagKind::MissingDiscriminant, span: v.span }),
            }
        }
    }
}

/// What a successful simple-form member walk collects: one entry per
/// member, in declaration order, each carrying that member's name and
/// discriminant; every member is payload-free and carries an explicit
/// discriminant.
pub proof fn lemma_simple_members_shape(vars: Seq<Variant>, i: int, acc: Seq<PlainMember>)
    requires
        0 <= i <= vars.len(),
        walk_simple_members(vars, i, acc) is Ok,
    ensures
        ({
            let ms = walk_simple_members(vars, i, acc)->Ok_0;
            &&& ms.len() == acc.len() + vars.len() - i
            &&& (forall|k: int| 0 <= k < acc.len() ==> ms[k] == acc[k])
            &&& (forall|j: int| i <= j < vars.len() ==> (#[trigger] vars[j].discriminant) is Some
                && vars[j].fields.len() == 0)
            &&& (forall|j: int| i <= j < vars.len() ==> ms[acc.len() + j - i] == member_of(
                #[trigger] vars[j],
            ))
        }),
    decreases vars.len() - i,
{
    if i < vars.len() {
        lemma_simple_members_shape(vars, i + 1, acc.push(member_of(vars[i])));
    }
}

/// Extracts the simple enumeration model: resolves the representation
/// attribute, then walks the member list once, and fails with the first
/// violation's diagnostic; on success the model holds the members in
/// declaration order with their explicit discriminants.
pub fn extract_simple(decl: &EnumDecl) -> (r: Result<SimpleModel, Diag>)
    ensures
        (match spec_repr_type(decl.attrs@, decl.span) {
            Err(d) => r == Err::<SimpleModel, Diag>(d),
            Ok(bt) => match walk_simple_members(decl.variants@, 0, Seq::empty()) {
                Err(d) => r == Err::<SimpleModel, Diag>(d),
                Ok(ms) => (r matches Ok(m)
                    && m.name == decl.name
                    && m.repr_type == bt
                    && m.members@ == ms),
            },
        }),
{
    let mut ai: usize = 0;
    while ai < decl.attrs.len() && !str_eq(&decl.attrs[ai].name, "repr")
        invariant
            ai <= decl.attrs.len(),
            first_repr_from(decl.attrs@, 0) == first_repr_from(decl.attrs@, ai as int),
            ai < decl.attrs.len() ==> (decl.attrs@[ai as int].name@ == "repr"@
                ==> first_repr_from(decl.attrs@, 0) == Some(ai as int)),
        decreases decl.attrs.len() - ai,
    {
        ai = ai + 1;
    }
    if ai == decl.attrs.len() {
        return Err(Diag { kind: DiagKind::MissingAttribute, span: decl.span });
    }
    let attr = &decl.attrs[ai];
    let items = match &attr.payload {
        AttrPayload::List(items) => items,
        AttrPayload::NotList => {
            return Err(Diag { kind: DiagKind::MalformedAttribute, span: attr.span });
        },
    };
    let ghost items_seq = items@;
    let mut found: Option<BaseType> = None;
    let mut wi: usize = 0;
    while wi < items.len()
        invariant
            wi <= items.len(),
            items_seq == items@,
            spec_repr_type(decl.attrs@, decl.span) == scan_widths(items_seq, 0, None, attr.span),
            scan_widths(items_seq, 0, None, attr.span)
                == scan_widths(items_seq, wi as int, found, attr.span),
        decreases items.len() - wi,
    {
        match &items[wi] {
            ReprItem::Word(s) => match BaseType::from_name(s) {
                Some(_bt) => {
                    if found.is_some() {
                        return Err(Diag { kind: DiagKind::AmbiguousAttribute, span: attr.span });
                    }
                    found = Some(_bt);
                },
                None => {},
            },
            ReprItem::NotWord => {
                return Err(Diag { kind: DiagKind::MalformedAttribute, span: attr.span });
            },
        }
        wi = wi + 1;
    }
    let bt = match found {
        Some(bt) => bt,
        None => {
            return Err(Diag { kind: DiagKind::MissingAttribute, span: attr.span });
        },
    };

    let mut members: Vec<PlainMember> = Vec::new();
    let mut j: usize = 0;
    while j < decl.variants.len()
        invariant
            j <= decl.variants.len(),
            spec_repr_type(decl.attrs@, decl.span) == Ok::<BaseType, Diag>(bt),
            walk_simple_members(decl.variants@, 0, Seq::empty())
                == walk_simple_members(decl.variants@, j as int, members@),
        decreases decl.variants.len() - j,
    {
        let v = &decl.variants[j];
        if v.fields.len() > 0 {
            return Err(Diag { kind: DiagKind::UnsupportedPayload, span: v.span });
        }
        match &v.discriminant {
            Some(d) => {
                let ghost members0 = members@;
                members.push(PlainMember { name: v.name.clone(), disc: *d });
                proof {
                    let vs = decl.variants@[j as int];
                    assert(members@ == members0.push(PlainMember { name: vs.name, disc: vs.discriminant->Some_0 }));
                }
            },
            None => {
                return Err(Diag { kind: DiagKind::MissingDiscriminant, span: v.span });
            },
        }
        j = j + 1;
    }
    Ok(SimpleModel { name: decl.name.clone(), repr_type: bt, members })
}

} // verus!
