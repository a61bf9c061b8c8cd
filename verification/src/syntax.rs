//! The engine's own model of the syntax it reads and re-emits: the token
//! list of a configuration block and the structural form of a type
//! declaration. The host parser hands values of these types in; spans are
//! opaque markers into the host's source map, carried only for
//! diagnostics.

use vstd::prelude::*;

verus! {

/// One token of a configuration argument list.
#[derive(Debug, PartialEq, Eq)]
pub enum ConfigToken {
    /// An identifier.
    Ident { text: String, span: usize },
    /// The `::` separator between path segments.
    PathSep { span: usize },
    /// The `=` sign of a pair.
    Equals { span: usize },
    /// The `,` separator between pairs.
    Comma { span: usize },
    /// A string literal; `text` is its content, without the quotes.
    StrLit { text: String, span: usize },
    /// Any other single token tree (a number, a group, a stray sign).
    OtherTree { span: usize },
}

impl ConfigToken {
    /// The span of this token.
    pub open spec fn spec_span(&self) -> usize {
        match *self {
            ConfigToken::Ident { span, .. } => span,
            ConfigToken::PathSep { span } => span,
            ConfigToken::Equals { span } => span,
            ConfigToken::Comma { span } => span,
            ConfigToken::StrLit { span, .. } => span,
            ConfigToken::OtherTree { span } => span,
        }
    }

    /// The span of this token.
    pub fn span(&self) -> (r: usize)
        ensures
            r == self.spec_span(),
    {
        match self {
            ConfigToken::Ident { span, .. } => *span,
            ConfigToken::PathSep { span } => *span,
            ConfigToken::Equals { span } => *span,
            ConfigToken::Comma { span } => *span,
            ConfigToken::StrLit { span, .. } => *span,
            ConfigToken::OtherTree { span } => *span,
        }
    }
}

/// The value side of a configuration pair: one token tree.
#[derive(Debug, PartialEq, Eq)]
pub enum ArgValue {
    /// A plain identifier.
    Ident(String),
    /// A string literal's content.
    StrLit(String),
    /// Any other single token tree.
    Other,
}

/// One parsed `key = value` pair. The key is an identifier path, kept as
/// its segments in order.
#[derive(Debug, PartialEq, Eq)]
pub struct KeyValuePair {
    pub key: Vec<String>,
    pub key_span: usize,
    pub value: ArgValue,
    pub value_span: usize,
}

/// The mathematical content of a pair: the same fields with the key as a
/// sequence of segments.
pub ghost struct KvpView {
    pub key: Seq<String>,
    pub key_span: usize,
    pub value: ArgValue,
    pub value_span: usize,
}

impl View for KeyValuePair {
    type V = KvpView;

    open spec fn view(&self) -> KvpView {
        KvpView {
            key: self.key@,
            key_span: self.key_span,
            value: self.value,
            value_span: self.value_span,
        }
    }
}

/// The views of a sequence of pairs.
pub open spec fn kvp_views(s: Seq<KeyValuePair>) -> Seq<KvpView> {
    s.map_values(|p: KeyValuePair| p@)
}

impl KvpView {
    /// Whether the key is the single identifier whose view is `name`.
    pub open spec fn key_is(&self, name: Seq<char>) -> bool {
        self.key.len() == 1 && self.key[0]@ == name
    }
}

/// One payload field of a member: an optional name and the declared
/// type's source text.
#[derive(Debug, PartialEq, Eq)]
pub struct Field {
    pub name: Option<String>,
    pub ty: String,
    pub span: usize,
}

/// One item inside a representation attribute's list.
#[derive(Debug, PartialEq, Eq)]
pub enum ReprItem {
    /// A plain identifier.
    Word(String),
    /// Anything that is not a plain identifier.
    NotWord,
}

/// The body of an attribute.
#[derive(Debug, PartialEq, Eq)]
pub enum AttrPayload {
    /// A parenthesized list of items.
    List(Vec<ReprItem>),
    /// A body that is not such a list.
    NotList,
}

/// One attribute of a declaration.
#[derive(Debug, PartialEq, Eq)]
pub struct Attr {
    pub name: String,
    pub payload: AttrPayload,
    pub span: usize,
}

/// One declared member of the enumeration.
#[derive(Debug, PartialEq, Eq)]
pub struct Variant {
    pub name: String,
    pub attrs: Vec<Attr>,
    /// The member's explicit discriminant expression, if any; the value
    /// is encoded as the representation type's bit pattern zero-extended
    /// to 128 bits.
    pub discriminant: Option<u128>,
    pub fields: Vec<Field>,
    pub span: usize,
}

/// The structural form of the enumeration declaration the directive is
/// attached to.
#[derive(Debug, PartialEq, Eq)]
pub struct EnumDecl {
    pub name: String,
    /// The declared visibility, as source text (empty for private).
    pub vis: String,
    pub attrs: Vec<Attr>,
    pub variants: Vec<Variant>,
    pub span: usize,
}

/// Content equality of attribute bodies. (A list's items live in a
/// vector, so the bodies are compared by the vectors' views.)
pub open spec fn payload_eqv(a: AttrPayload, b: AttrPayload) -> bool {
    match (a, b) {
        (AttrPayload::List(x), AttrPayload::List(y)) => x@ == y@,
        (AttrPayload::NotList, AttrPayload::NotList) => true,
        _ => false,
    }
}

/// Content equality of attributes.
pub open spec fn attr_eqv(a: Attr, b: Attr) -> bool {
    a.name == b.name && a.span == b.span && payload_eqv(a.payload, b.payload)
}

/// Content equality of attribute lists: same length, equal item by item.
pub open spec fn attrs_eqv(a: Seq<Attr>, b: Seq<Attr>) -> bool {
    a.len() == b.len() && forall|i: int| 0 <= i < a.len() ==> attr_eqv(a[i], b[i])
}

/// Content equality of declared members.
pub open spec fn variant_eqv(a: Variant, b: Variant) -> bool {
    &&& a.name == b.name
    &&& attrs_eqv(a.attrs@, b.attrs@)
    &&& a.discriminant == b.discriminant
    &&& a.fields@ == b.fields@
    &&& a.span == b.span
}

/// Clones a field; the clone equals the original.
pub fn clone_field(f: &Field) -> (r: Field)
    ensures
        r == *f,
{
    let name = match &f.name {
        Some(n) => Some(n.clone()),
        None => None,
    };
    Field { name, ty: f.ty.clone(), span: f.span }
}

/// Clones a representation-list item; the clone equals the original.
pub fn clone_repr_item(it: &ReprItem) -> (r: ReprItem)
    ensures
        r == *it,
{
    match it {
        ReprItem::Word(s) => ReprItem::Word(s.clone()),
        ReprItem::NotWord => ReprItem::NotWord,
    }
}

/// Clones an attribute; the clone has the same content.
pub fn clone_attr(a: &Attr) -> (r: Attr)
    ensures
        attr_eqv(r, *a),
{
    let payload = match &a.payload {
        AttrPayload::List(items) => {
            let mut out: Vec<ReprItem> = Vec::new();
            let mut i: usize = 0;
            while i < items.len()
                invariant
                    i <= items.len(),
                    out@ =~= items@.subrange(0, i as int),
                decreases items.len() - i,
            {
                out.push(clone_repr_item(&items[i]));
                i = i + 1;
            }
            proof {
                assert(out@ =~= items@);
            }
            AttrPayload::List(out)
        },
        AttrPayload::NotList => AttrPayload::NotList,
    };
    Attr { name: a.name.clone(), payload, span: a.span }
}

/// Clones a list of attributes; the clone has the same content, item by
/// item.
pub fn clone_attrs(attrs: &Vec<Attr>) -> (r: Vec<Attr>)
    ensures
        attrs_eqv(r@, attrs@),
{
    let mut out: Vec<Attr> = Vec::new();
    let mut i: usize = 0;
    while i < attrs.len()
        invariant
            i <= attrs.len(),
            out@.len() == i,
            forall|j: int| 0 <= j < i ==> attr_eqv(out@[j], attrs@[j]),
        decreases attrs.len() - i,
    {
        out.push(clone_attr(&attrs[i]));
        i = i + 1;
    }
    out
}

/// Clones a list of fields; the clone's view equals the original's.
pub fn clone_fields(fields: &Vec<Field>) -> (r: Vec<Field>)
    ensures
        r@ == fields@,
{
    let mut out: Vec<Field> = Vec::new();
    let mut i: usize = 0;
    while i < fields.len()
        invariant
            i <= fields.len(),
            out@ =~= fields@.subrange(0, i as int),
        decreases fields.len() - i,
    {
        out.push(clone_field(&fields[i]));
        i = i + 1;
    }
    proof {
        assert(out@ =~= fields@);
    }
    out
}

} // verus!
