//! The code synthesizer: given a validated model, the emitted source
//! fragment as a structured value. By the time synthesis runs the model
//! is known valid, so synthesis cannot fail.
//!
//! Both conversion functions embed the same member table in declaration
//! order: decode tests each member's discriminant in turn and takes the
//! first match, encode dispatches over the members. The host's
//! source-to-text emitter renders the fragment.

use vstd::prelude::*;
use crate::model::{
    clone_plain_members, BaseType, CompareMode, ExtendedModel, PlainMember, SimpleModel,
};
use crate::semantics::{
    ext_value_wf, spec_decode, spec_encode, spec_eq_declared_order, spec_eq_value_based,
    spec_first_match, ExtValue, lemma_first_match_from_is, lemma_first_match_from_none,
};
use crate::syntax::{attrs_eqv, clone_attrs, clone_fields, EnumDecl, Variant, variant_eqv};

verus! {

/// The fragment emitted for the simple form: a fallible decode function
/// (base type to enumeration) and an infallible encode function
/// (enumeration to base type) beside the untouched declaration.
#[derive(Debug, PartialEq, Eq)]
pub struct SimpleCode {
    pub enum_name: String,
    pub repr_type: BaseType,
    /// The member table embedded in both conversion functions, in
    /// declaration order.
    pub arms: Vec<PlainMember>,
}

/// The fragment emitted for the extended form: the re-declared
/// enumeration with discriminants stripped, an infallible decode whose
/// unmatched values construct the catch-all, an infallible encode, and
/// the comparison operations the selected mode asks for.
#[derive(Debug, PartialEq, Eq)]
pub struct ExtendedCode {
    pub enum_name: String,
    pub base_type: BaseType,
    /// The original declaration re-emitted with every discriminant
    /// removed and everything else unchanged.
    pub stripped_decl: EnumDecl,
    /// The member table embedded in both conversion functions, in
    /// declaration order.
    pub arms: Vec<PlainMember>,
    /// The member that retains unmatched values.
    pub catch_all: String,
    pub compare: CompareMode,
}

/// Whether `out` is `orig` with every discriminant removed and all else
/// — names, attributes, fields, spans — unchanged.
pub open spec fn stripped_variants(orig: Seq<Variant>, out: Seq<Variant>) -> bool {
    &&& out.len() == orig.len()
    &&& forall|i: int| 0 <= i < orig.len() ==> variant_eqv(
        out[i],
        Variant { discriminant: None, ..orig[i] },
    )
}

/// Strips one member's discriminant, keeping everything else.
fn strip_variant(v: &Variant) -> (r: Variant)
    ensures
        variant_eqv(r, Variant { discriminant: None, ..*v }),
{
    Variant {
        name: v.name.clone(),
        attrs: clone_attrs(&v.attrs),
        discriminant: None,
        fields: clone_fields(&v.fields),
        span: v.span,
    }
}

/// Re-declares the enumeration with discriminants stripped: the extended
/// form stores them only in the generated conversions, not on the type
/// itself.
fn strip_decl(decl: &EnumDecl) -> (r: EnumDecl)
    ensures
        r.name == decl.name,
        r.vis == decl.vis,
        attrs_eqv(r.attrs@, decl.attrs@),
        stripped_variants(decl.variants@, r.variants@),
        r.span == decl.span,
{
    let mut variants: Vec<Variant> = Vec::new();
    let mut i: usize = 0;
    while i < decl.variants.len()
        invariant
            i <= decl.variants.len(),
            variants@.len() == i,
            forall|j: int| 0 <= j < i ==> variant_eqv(
                variants@[j],
                Variant { discriminant: None, ..decl.variants@[j] },
            ),
        decreases decl.variants.len() - i,
    {
        variants.push(strip_variant(&decl.variants[i]));
        i = i + 1;
    }
    EnumDecl {
        name: decl.name.clone(),
        vis: decl.vis.clone(),
        attrs: clone_attrs(&decl.attrs),
        variants,
        span: decl.span,
    }
}

/// Synthesizes the simple form's conversion functions: the member table
/// is the model's member list, unchanged and in order.
pub fn synthesize_simple(m: &SimpleModel) -> (c: SimpleCode)
    ensures
        c.enum_name == m.name,
        c.repr_type == m.repr_type,
        c.arms@ == m.members@,
{
    SimpleCode {
        enum_name: m.name.clone(),
        repr_type: m.repr_type,
        arms: clone_plain_members(&m.members),
    }
}

/// Synthesizes the extended form's fragment: the member table is the
/// model's plain-member list, unchanged and in order, and the
/// declaration is re-emitted with discriminants stripped.
pub fn synthesize_extended(m: &ExtendedModel, decl: &EnumDecl) -> (c: ExtendedCode)
    ensures
        c.enum_name == m.name,
        c.base_type == m.base_type,
        c.arms@ == m.plain_members@,
        c.catch_all == m.catch_all_name,
        c.compare == m.compare_mode,
        c.stripped_decl.name == decl.name,
        c.stripped_decl.vis == decl.vis,
        attrs_eqv(c.stripped_decl.attrs@, decl.attrs@),
        stripped_variants(decl.variants@, c.stripped_decl.variants@),
        c.stripped_decl.span == decl.span,
{
    ExtendedCode {
        enum_name: m.name.clone(),
        base_type: m.base_type,
        stripped_decl: strip_decl(decl),
        arms: clone_plain_members(&m.plain_members),
        catch_all: m.catch_all_name.clone(),
        compare: m.compare_mode,
    }
}

impl SimpleCode {
    /// What the generated fallible decode returns: the index in
    /// declaration order of the first member whose discriminant equals
    /// the value, or — as the explicit error payload of a recoverable
    /// failure — the unmatched value itself.
    pub fn try_decode(&self, value: u128) -> (r: Result<usize, u128>)
        ensures
            (match r {
                Ok(i) => spec_first_match(self.arms@, value) == Some(i as int),
                Err(v) => v == value && spec_first_match(self.arms@, value) is None,
            }),
    {
        let mut i: usize = 0;
        while i < self.arms.len()
            invariant
                i <= self.arms@.len(),
                forall|k: int| 0 <= k < i ==> self.arms@[k].disc != value,
            decreases self.arms@.len() - i,
        {
            if self.arms[i].disc == value {
                proof {
                    lemma_first_match_from_is(self.arms@, value, 0, i as int);
                }
                return Ok(i);
            }
            i = i + 1;
        }
        proof {
            lemma_first_match_from_none(self.arms@, value, 0);
        }
        Err(value)
    }

    /// What the generated encode returns for the member at `index`: its
    /// discriminant. Encoding cannot fail.
    pub fn encode(&self, index: usize) -> (r: u128)
        requires
            index < self.arms@.len(),
        ensures
            r == self.arms@[index as int].disc,
    {
        self.arms[index].disc
    }
}

impl ExtendedCode {
    /// What the generated infallible decode returns: the first plain
    /// member whose discriminant equals the value, or the catch-all
    /// wrapping the value. Every base-type value decodes to something.
    pub fn decode(&self, value: u128) -> (r: ExtValue)
        ensures
            r == spec_decode(self.arms@, value),
    {
        let mut i: usize = 0;
        while i < self.arms.len()
            invariant
                i <= self.arms@.len(),
                forall|k: int| 0 <= k < i ==> self.arms@[k].disc != value,
            decreases self.arms@.len() - i,
        {
            if self.arms[i].disc == value {
                proof {
                    lemma_first_match_from_is(self.arms@, value, 0, i as int);
                }
                return ExtValue::Plain { index: i };
            }
            i = i + 1;
        }
        proof {
            lemma_first_match_from_none(self.arms@, value, 0);
        }
        ExtValue::CatchAll { value }
    }

    /// What the generated encode returns: a plain member's discriminant,
    /// or the catch-all's carried payload verbatim. Encoding cannot
    /// fail.
    pub fn encode(&self, v: &ExtValue) -> (r: u128)
        requires
            ext_value_wf(self.arms@, *v),
        ensures
            r == spec_encode(self.arms@, *v),
    {
        match v {
            ExtValue::Plain { index } => self.arms[*index].disc,
            ExtValue::CatchAll { value } => *value,
        }
    }

    /// What the generated equality returns under the selected comparison
    /// mode: structural equality of the stripped enumeration under the
    /// declared-order mode, equality of the encodings under the
    /// value-based mode. (Under the no-comparison mode nothing is
    /// generated, so there is nothing to ask.)
    pub fn values_equal(&self, a: &ExtValue, b: &ExtValue) -> (r: bool)
        requires
            !(self.compare is NoComparison),
            ext_value_wf(self.arms@, *a),
            ext_value_wf(self.arms@, *b),
        ensures
            self.compare is DeclaredOrder ==> r == spec_eq_declared_order(*a, *b),
            self.compare is ValueBased ==> r == spec_eq_value_based(self.arms@, *a, *b),
    {
        match self.compare {
            CompareMode::ValueBased => {
                let x = self.encode(a);
                let y = self.encode(b);
                x == y
            },
            _ => match (a, b) {
                (ExtValue::Plain { index: i }, ExtValue::Plain { index: j }) => *i == *j,
                (ExtValue::CatchAll { value: x }, ExtValue::CatchAll { value: y }) => *x == *y,
                _ => false,
            },
        }
    }
}

} // verus!
