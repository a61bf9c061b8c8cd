//! The two directive entry points: each one runs the whole pipeline —
//! configuration parsing (extended form only), model extraction, code
//! synthesis — and either yields the synthesized fragment or stops at
//! the first violation with its diagnostic, emitting nothing.

use vstd::prelude::*;
use crate::config::{parse_config, spec_parse_config};
use crate::diag::Diag;
use crate::extract::{
    extract_extended, extract_simple, spec_config, spec_members, spec_repr_type,
    walk_simple_members,
};
use crate::model::spec_base_type_name;
use crate::syntax::{attrs_eqv, ConfigToken, EnumDecl};
use crate::synth::{
    stripped_variants, synthesize_extended, synthesize_simple, ExtendedCode, SimpleCode,
};

verus! {

/// The derive-style directive (simple form): reads the representation
/// attribute and the member list of `decl`, and synthesizes the fallible
/// decode and the infallible encode. On failure, the first violation's
/// diagnostic and no output.
pub fn derive_from_to_repr(decl: &EnumDecl) -> (r: Result<SimpleCode, Diag>)
    ensures
        (match spec_repr_type(decl.attrs@, decl.span) {
            Err(d) => r == Err::<SimpleCode, Diag>(d),
            Ok(bt) => match walk_simple_members(decl.variants@, 0, Seq::empty()) {
                Err(d) => r == Err::<SimpleCode, Diag>(d),
                Ok(ms) => (r matches Ok(c)
                    && c.enum_name == decl.name
                    && c.repr_type == bt
                    && c.arms@ == ms),
            },
        }),
{
    let model = match extract_simple(decl) {
        Ok(m) => m,
        Err(d) => {
            return Err(d);
        },
    };
    Ok(synthesize_simple(&model))
}

/// The attribute-style directive (extended form): parses the
/// configuration block's tokens, extracts the extended model from them
/// and from `decl`'s member list, and synthesizes the discriminant-
/// stripped re-declaration, the infallible conversions, and the
/// requested comparison operations. On failure, the first violation's
/// diagnostic and no output. `end_span` locates the block's closing edge
/// for reports about input that ends too early.
pub fn from_to_other(tokens: &Vec<ConfigToken>, end_span: usize, decl: &EnumDecl) -> (r: Result<
    ExtendedCode,
    Diag,
>)
    ensures
        (match spec_parse_config(tokens@, end_span) {
            Err(d) => r == Err::<ExtendedCode, Diag>(d),
            Ok(ps) => match spec_config(ps, decl.span) {
                Err(d) => r == Err::<ExtendedCode, Diag>(d),
                Ok((bt, cm)) => match spec_members(decl.variants@, spec_base_type_name(bt), decl.span) {
                    Err(d) => r == Err::<ExtendedCode, Diag>(d),
                    Ok((plain, catch)) => (r matches Ok(c)
                        && c.enum_name == decl.name
                        && c.base_type == bt
                        && c.compare == cm
                        && c.arms@ == plain
                        && c.catch_all == catch
                        && c.stripped_decl.name == decl.name
                        && c.stripped_decl.vis == decl.vis
                        && attrs_eqv(c.stripped_decl.attrs@, decl.attrs@)
                        && stripped_variants(decl.variants@, c.stripped_decl.variants@)
                        && c.stripped_decl.span == decl.span),
                },
            },
        }),
{
    let pairs = match parse_config(tokens, end_span) {
        Ok(ps) => ps,
        Err(d) => {
            return Err(d);
        },
    };
    let model = match extract_extended(&pairs, decl) {
        Ok(m) => m,
        Err(d) => {
            return Err(d);
        },
    };
    Ok(synthesize_extended(&model, decl))
}

} // verus!
