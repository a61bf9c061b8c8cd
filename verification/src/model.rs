//! The validated enumeration models: what extraction produces and what
//! synthesis consumes. Both are transient, request-scoped values.

use vstd::prelude::*;

verus! {

/// Equality of a string with a literal, by view.
pub fn str_eq(a: &String, b: &str) -> (r: bool)
    ensures
        r == (a@ == b@),
{
    let bs = String::from_str(b);
    a.eq(&bs)
}

/// The fixed set of integer widths accepted as a representation type.
#[derive(Clone, Copy, Debug, PartialEq, Eq)]
pub enum BaseType {
    U8,
    U16,
    U32,
    U64,
    U128,
    Usize,
    I8,
    I16,
    I32,
    I64,
    I128,
    Isize,
}

/// The width named by an identifier, if the identifier is one of the
/// fixed integer widths.
pub open spec fn spec_base_type_of_name(s: Seq<char>) -> Option<BaseType> {
    if s == "u8"@ {
        Some(BaseType::U8)
    } else if s == "u16"@ {
        Some(BaseType::U16)
    } else if s == "u32"@ {
        Some(BaseType::U32)
    } else if s == "u64"@ {
        Some(BaseType::U64)
    } else if s == "u128"@ {
        Some(BaseType::U128)
    } else if s == "usize"@ {
        Some(BaseType::Usize)
    } else if s == "i8"@ {
        Some(BaseType::I8)
    } else if s == "i16"@ {
        Some(BaseType::I16)
    } else if s == "i32"@ {
        Some(BaseType::I32)
    } else if s == "i64"@ {
        Some(BaseType::I64)
    } else if s == "i128"@ {
        Some(BaseType::I128)
    } else if s == "isize"@ {
        Some(BaseType::Isize)
    } else {
        None
    }
}

/// The canonical identifier of a width.
pub open spec fn spec_base_type_name(bt: BaseType) -> Seq<char> {
    match bt {
        BaseType::U8 => "u8"@,
        BaseType::U16 => "u16"@,
        BaseType::U32 => "u32"@,
        BaseType::U64 => "u64"@,
        BaseType::U128 => "u128"@,
        BaseType::Usize => "usize"@,
        BaseType::I8 => "i8"@,
        BaseType::I16 => "i16"@,
        BaseType::I32 => "i32"@,
        BaseType::I64 => "i64"@,
        BaseType::I128 => "i128"@,
        BaseType::Isize => "isize"@,
    }
}

impl BaseType {
    /// Recognizes an identifier as one of the fixed integer widths.
    pub fn from_name(s: &String) -> (r: Option<BaseType>)
        ensures
            r == spec_base_type_of_name(s@),
    {
        if str_eq(s, "u8") {
            Some(BaseType::U8)
        } else if str_eq(s, "u16") {
            Some(BaseType::U16)
        } else if str_eq(s, "u32") {
            Some(BaseType::U32)
        } else if str_eq(s, "u64") {
            Some(BaseType::U64)
        } else if str_eq(s, "u128") {
            Some(BaseType::U128)
        } else if str_eq(s, "usize") {
            Some(BaseType::Usize)
        } else if str_eq(s, "i8") {
            Some(BaseType::I8)
        } else if str_eq(s, "i16") {
            Some(BaseType::I16)
        } else if str_eq(s, "i32") {
            Some(BaseType::I32)
        } else if str_eq(s, "i64") {
            Some(BaseType::I64)
        } else if str_eq(s, "i128") {
            Some(BaseType::I128)
        } else if str_eq(s, "isize") {
            Some(BaseType::Isize)
        } else {
            None
        }
    }

    /// The canonical identifier of this width.
    pub fn name(&self) -> (r: &'static str)
        ensures
            r@ == spec_base_type_name(*self),
    {
        match self {
            BaseType::U8 => "u8",
            BaseType::U16 => "u16",
            BaseType::U32 => "u32",
            BaseType::U64 => "u64",
            BaseType::U128 => "u128",
            BaseType::Usize => "usize",
            BaseType::I8 => "i8",
            BaseType::I16 => "i16",
            BaseType::I32 => "i32",
            BaseType::I64 => "i64",
            BaseType::I128 => "i128",
            BaseType::Isize => "isize",
        }
    }
}

/// Which comparison operations the synthesizer is asked to produce.
#[derive(Clone, Copy, Debug, PartialEq, Eq)]
pub enum CompareMode {
    /// No comparison operations are generated (the default).
    NoComparison,
    /// The host's structural derivation on the discriminant-stripped
    /// enumeration: a catch-all instance never compares equal to a plain
    /// member.
    DeclaredOrder,
    /// Comparisons that first encode both operands to the base type:
    /// a catch-all instance compares equal to a plain member whose
    /// discriminant matches its carried value.
    ValueBased,
}

/// The mode selected by a `comparison_mode` value, if recognized.
pub open spec fn spec_compare_mode_of_name(s: Seq<char>) -> Option<CompareMode> {
    if s == "none"@ {
        Some(CompareMode::NoComparison)
    } else if s == "declared-order"@ {
        Some(CompareMode::DeclaredOrder)
    } else if s == "value-based"@ {
        Some(CompareMode::ValueBased)
    } else {
        None
    }
}

impl CompareMode {
    /// Recognizes a `comparison_mode` value string.
    pub fn from_name(s: &String) -> (r: Option<CompareMode>)
        ensures
            r == spec_compare_mode_of_name(s@),
    {
        if str_eq(s, "none") {
            Some(CompareMode::NoComparison)
        } else if str_eq(s, "declared-order") {
            Some(CompareMode::DeclaredOrder)
        } else if str_eq(s, "value-based") {
            Some(CompareMode::ValueBased)
        } else {
            None
        }
    }
}

/// A member with an explicit discriminant and no payload.
///
/// `disc` is the value of the member's discriminant expression, encoded
/// as the base type's bit pattern zero-extended to 128 bits, so that two
/// discriminants are equal in the base type exactly when the fields are
/// equal.
#[derive(Debug, PartialEq, Eq)]
pub struct PlainMember {
    pub name: String,
    pub disc: u128,
}

/// Clones a plain member; the clone equals the original.
pub fn clone_plain_member(m: &PlainMember) -> (r: PlainMember)
    ensures
        r == *m,
{
    PlainMember { name: m.name.clone(), disc: m.disc }
}

/// Clones a list of plain members; the clone's view equals the original's.
pub fn clone_plain_members(ms: &Vec<PlainMember>) -> (r: Vec<PlainMember>)
    ensures
        r@ == ms@,
{
    let mut out: Vec<PlainMember> = Vec::new();
    let mut i: usize = 0;
    while i < ms.len()
        invariant
            i <= ms.len(),
            out@ =~= ms@.subrange(0, i as int),
        decreases ms.len() - i,
    {
        out.push(clone_plain_member(&ms[i]));
        i = i + 1;
    }
    proof {
        assert(out@ =~= ms@);
    }
    out
}

/// The simple enumeration model: every member has an explicit
/// discriminant, and decode of an unmatched value is a recoverable
/// failure.
#[derive(Debug, PartialEq, Eq)]
pub struct SimpleModel {
    pub name: String,
    pub repr_type: BaseType,
    /// In declaration order; the order is semantically significant.
    pub members: Vec<PlainMember>,
}

/// The extended enumeration model: plain members plus exactly one
/// catch-all member that retains unmatched values of the base type.
#[derive(Debug, PartialEq, Eq)]
pub struct ExtendedModel {
    pub name: String,
    pub base_type: BaseType,
    /// In declaration order; the order is semantically significant.
    pub plain_members: Vec<PlainMember>,
    pub catch_all_name: String,
    pub compare_mode: CompareMode,
}

} // verus!
