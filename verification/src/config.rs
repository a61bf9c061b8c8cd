//! The configuration parser: turns the token list of a directive's
//! argument block into an ordered list of `key = value` pairs, where each
//! key is an identifier path and each value a single token tree, pairs
//! are separated by commas, and a trailing comma is permitted. Purely
//! syntactic; no key or value is judged here.

use vstd::prelude::*;
use crate::diag::{Diag, DiagKind};
use crate::syntax::{kvp_views, ArgValue, ConfigToken, KeyValuePair, KvpView};

verus! {

/// The path's remaining segments from token `i` on, after at least one
/// segment was read: follows `::`-and-identifier repetitions, and stops
/// in front of the first token that cannot continue the path. A `::`
/// not followed by an identifier violates the grammar.
pub open spec fn parse_path_rest(
    toks: Seq<ConfigToken>,
    i: int,
    segs: Seq<String>,
    end_span: usize,
) -> Result<(Seq<String>, int), Diag>
    decreases toks.len() - i,
{
    if i < 0 || i >= toks.len() {
        Ok((segs, i))
    } else {
        match toks[i] {
            ConfigToken::PathSep { .. } => if i + 1 >= toks.len() {
                Err(Diag { kind: DiagKind::SyntaxError, span: end_span })
            } else {
                match toks[i + 1] {
                    ConfigToken::Ident { text, .. } => parse_path_rest(toks, i + 2, segs.push(text), end_span),
                    _ => Err(Diag { kind: DiagKind::SyntaxError, span: toks[i + 1].spec_span() }),
                }
            },
            _ => Ok((segs, i)),
        }
    }
}

/// The value of a pair: the single token tree at `i`. A separator or
/// sign in value position, or a missing value, violates the grammar.
pub open spec fn parse_value(toks: Seq<ConfigToken>, i: int, end_span: usize) -> Result<
    (ArgValue, usize, int),
    Diag,
> {
    if i < 0 || i >= toks.len() {
        Err(Diag { kind: DiagKind::SyntaxError, span: end_span })
    } else {
        match toks[i] {
            ConfigToken::Ident { text, span } => Ok((ArgValue::Ident(text), span, i + 1)),
            ConfigToken::StrLit { text, span } => Ok((ArgValue::StrLit(text), span, i + 1)),
            ConfigToken::OtherTree { span } => Ok((ArgValue::Other, span, i + 1)),
            _ => Err(Diag { kind: DiagKind::SyntaxError, span: toks[i].spec_span() }),
        }
    }
}

/// One pair starting at token `i`: an identifier path, `=`, and one
/// value token; yields the pair and the index just after it.
pub open spec fn parse_pair(toks: Seq<ConfigToken>, i: int, end_span: usize) -> Result<
    (KvpView, int),
    Diag,
> {
    if i < 0 || i >= toks.len() {
        Err(Diag { kind: DiagKind::SyntaxError, span: end_span })
    } else {
        match toks[i] {
            ConfigToken::Ident { text, span } => match parse_path_rest(toks, i + 1, seq![text], end_span) {
                Err(d) => Err(d),
                Ok((segs, j)) => if j >= toks.len() {
                    Err(Diag { kind: DiagKind::SyntaxError, span: end_span })
                } else {
                    match toks[j] {
                        ConfigToken::Equals { .. } => match parse_value(toks, j + 1, end_span) {
                            Err(d) => Err(d),
                            Ok((value, value_span, k)) => Ok(
                                (KvpView { key: segs, key_span: span, value, value_span }, k),
                            ),
                        },
                        _ => Err(Diag { kind: DiagKind::SyntaxError, span: toks[j].spec_span() }),
                    }
                },
            },
            _ => Err(Diag { kind: DiagKind::SyntaxError, span: toks[i].spec_span() }),
        }
    }
}

/// The pair list from token `i` on: empty input is an empty list;
/// otherwise one pair, then either the end, or a comma and the rest
/// (so a trailing comma is permitted). Any other separator violates
/// the grammar.
pub open spec fn parse_pairs_from(toks: Seq<ConfigToken>, i: int, end_span: usize) -> Result<
    Seq<KvpView>,
    Diag,
>
    decreases toks.len() - i,
{
    if i < 0 || i >= toks.len() {
        Ok(Seq::empty())
    } else {
        match parse_pair(toks, i, end_span) {
            Err(d) => Err(d),
            Ok((kvp, j)) => if j >= toks.len() {
                Ok(seq![kvp])
            } else if j <= i {
                // a pair spans at least three tokens; this case never arises
                Err(Diag { kind: DiagKind::SyntaxError, span: end_span })
            } else {
                match toks[j] {
                    ConfigToken::Comma { .. } => match parse_pairs_from(toks, j + 1, end_span) {
                        Err(d) => Err(d),
                        Ok(rest) => Ok(seq![kvp] + rest),
                    },
                    _ => Err(Diag { kind: DiagKind::SyntaxError, span: toks[j].spec_span() }),
                }
            },
        }
    }
}

/// What the whole token list parses to.
pub open spec fn spec_parse_config(toks: Seq<ConfigToken>, end_span: usize) -> Result<
    Seq<KvpView>,
    Diag,
> {
    parse_pairs_from(toks, 0, end_span)
}

/// Whether a token is the `::` separator.
pub open spec fn spec_is_path_sep(t: ConfigToken) -> bool {
    match t {
        ConfigToken::PathSep { .. } => true,
        _ => false,
    }
}

fn is_path_sep(t: &ConfigToken) -> (b: bool)
    ensures
        b == spec_is_path_sep(*t),
{
    match t {
        ConfigToken::PathSep { .. } => true,
        _ => false,
    }
}

/// Reads one pair starting at token `i`, returning it with the index
/// just after it.
fn parse_one_pair(tokens: &Vec<ConfigToken>, i: usize, end_span: usize) -> (r: Result<
    (KeyValuePair, usize),
    Diag,
>)
    requires
        i < tokens@.len(),
    ensures
        (match parse_pair(tokens@, i as int, end_span) {
            Err(d) => r == Err::<(KeyValuePair, usize), Diag>(d),
            Ok((kv, j)) => (r matches Ok((p, jj))
                && p@ == kv
                && jj as int == j
                && i < jj <= tokens@.len()),
        }),
{
    let (first_text, key_span) = match &tokens[i] {
        ConfigToken::Ident { text, span } => (text.clone(), *span),
        t => {
            return Err(Diag { kind: DiagKind::SyntaxError, span: t.span() });
        },
    };
    let n = tokens.len();
    let mut segs: Vec<String> = Vec::new();
    segs.push(first_text);
    let ghost seg0 = segs@;
    let ghost tok_i = tokens@[i as int];
    let mut k: usize = i + 1;
    while k < n && is_path_sep(&tokens[k])
        invariant
            n == tokens@.len(),
            i < tokens@.len(),
            i + 1 <= k <= tokens@.len(),
            tok_i == tokens@[i as int],
            (tok_i matches ConfigToken::Ident { text, span } && seg0 == seq![text]
                && span == key_span),
            parse_path_rest(tokens@, i as int + 1, seg0, end_span)
                == parse_path_rest(tokens@, k as int, segs@, end_span),
        decreases tokens@.len() - k,
    {
        if k + 1 >= tokens.len() {
            return Err(Diag { kind: DiagKind::SyntaxError, span: end_span });
        }
        match &tokens[k + 1] {
            ConfigToken::Ident { text, .. } => {
                segs.push(text.clone());
                k = k + 2;
            },
            t => {
                return Err(Diag { kind: DiagKind::SyntaxError, span: t.span() });
            },
        }
    }
    proof {
        assert(parse_path_rest(tokens@, k as int, segs@, end_span) == Ok::<(Seq<String>, int), Diag>((segs@, k as int)));
    }
    if k >= tokens.len() {
        return Err(Diag { kind: DiagKind::SyntaxError, span: end_span });
    }
    match &tokens[k] {
        ConfigToken::Equals { .. } => {},
        t => {
            return Err(Diag { kind: DiagKind::SyntaxError, span: t.span() });
        },
    }
    if k + 1 >= tokens.len() {
        return Err(Diag { kind: DiagKind::SyntaxError, span: end_span });
    }
    let (value, value_span) = match &tokens[k + 1] {
        ConfigToken::Ident { text, span } => (ArgValue::Ident(text.clone()), *span),
        ConfigToken::StrLit { text, span } => (ArgValue::StrLit(text.clone()), *span),
        ConfigToken::OtherTree { span } => (ArgValue::Other, *span),
        t => {
            return Err(Diag { kind: DiagKind::SyntaxError, span: t.span() });
        },
    };
    Ok((KeyValuePair { key: segs, key_span, value, value_span }, k + 2))
}

/// Parses a directive's argument block. On success the pairs' views are
/// exactly what the grammar yields of the token list; on failure, the
/// grammar's first violation, located at the offending token or — when
/// the input ends too early — at `end_span`, the span of the block's
/// closing edge.
pub fn parse_config(tokens: &Vec<ConfigToken>, end_span: usize) -> (r: Result<
    Vec<KeyValuePair>,
    Diag,
>)
    ensures
        (match spec_parse_config(tokens@, end_span) {
            Err(d) => r == Err::<Vec<KeyValuePair>, Diag>(d),
            Ok(ps) => (r matches Ok(v) && kvp_views(v@) == ps),
        }),
{
    let mut out: Vec<KeyValuePair> = Vec::new();
    let mut i: usize = 0;
    while i < tokens.len()
        invariant
            i <= tokens@.len(),
            (match parse_pairs_from(tokens@, i as int, end_span) {
                Err(d) => spec_parse_config(tokens@, end_span) == Err::<Seq<KvpView>, Diag>(d),
                Ok(rest) => (spec_parse_config(tokens@, end_span) matches Ok(all)
                    && all == kvp_views(out@) + rest),
            }),
        decreases tokens@.len() - i,
    {
        let (pair, j) = match parse_one_pair(tokens, i, end_span) {
            Ok(pj) => pj,
            Err(d) => {
                return Err(d);
            },
        };
        let ghost out0 = out@;
        out.push(pair);
        proof {
            assert(kvp_views(out@) =~= kvp_views(out0).push(out@[out0.len() as int]@));
            assert(kvp_views(out0).push(out@[out0.len() as int]@)
                =~= kvp_views(out0) + seq![out@[out0.len() as int]@]);
        }
        if j >= tokens.len() {
            i = j;
            proof {
                assert(kvp_views(out0) + seq![out@[out0.len() as int]@] =~= kvp_views(out@));
                assert(kvp_views(out@) + Seq::<KvpView>::empty() =~= kvp_views(out@));
            }
        } else {
            match &tokens[j] {
                ConfigToken::Comma { .. } => {
                    i = j + 1;
                    proof {
                        let prev = parse_pairs_from(tokens@, i as int, end_span);
                        if prev is Ok {
                            assert(kvp_views(out0) + (seq![out@[out0.len() as int]@] + prev->Ok_0)
                                =~= kvp_views(out@) + prev->Ok_0);
                        }
                    }
                },
                t => {
                    return Err(Diag { kind: DiagKind::SyntaxError, span: t.span() });
                },
            }
        }
    }
    proof {
        assert(kvp_views(out@) + Seq::<KvpView>::empty() =~= kvp_views(out@));
    }
    Ok(out)
}

} // verus!
