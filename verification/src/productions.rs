//! The grammar as functions from a token stream and a position to what is
//! read there and the position after it (`None` where the tokens do not
//! match).
use vstd::prelude::*;

use crate::grammar::{collapse_quotes, digits_value, only_digits, strip_spaces};
use crate::lexer::{Token, TokenKind};
use crate::cst::{TagDefault, WithClause};
use crate::grammar::{builtin_type_word, char_kind_named, is_caps_char};
use crate::syntax::{
    doc_v, AssignmentKindV, AssignmentV, FieldSpecV, ImportClauseV, ModuleV, ObjectDefV,
    ObjectFieldSettingV, ObjectSetElementV, ChoiceTypeV, ComponentV, ConstraintV, EnumItemV, FieldRefV, NameV, NamedNumberV,
    NamedNumberValueV, OidComponentV, OptionalityV, StructMemberV, StructTypeV, TypeKindV, TypeV,
    ValueBoundV, ValueV,
};

verus! {

// ---------------------------------------------------------------------------
// Tokens
// ---------------------------------------------------------------------------

pub open spec fn kind_is(toks: Seq<Token>, p: int, k: TokenKind) -> bool {
    0 <= p < toks.len() && toks[p].kind == k
}

pub open spec fn any_word(toks: Seq<Token>, p: int) -> bool {
    kind_is(toks, p, TokenKind::Word)
}

/// The token at `p` is the word `kw`.
pub open spec fn word_is(toks: Seq<Token>, p: int, kw: Seq<char>) -> bool {
    any_word(toks, p) && toks[p].text@ == kw
}

/// The token at `p` as a name.
pub open spec fn tok_name(toks: Seq<Token>, p: int) -> NameV {
    NameV { text: toks[p].text@, span: toks[p].span }
}

/// `x` in front of the sequence a parse produced.
pub open spec fn cons_opt<T>(x: T, r: Option<(Seq<T>, int)>) -> Option<(Seq<T>, int)> {
    match r {
        Some((s, e)) => Some((seq![x] + s, e)),
        None => None,
    }
}

/// `acc` in front of the sequence a parse produced.
pub open spec fn prefix_opt<T>(acc: Seq<T>, r: Option<(Seq<T>, int)>) -> Option<(Seq<T>, int)> {
    match r {
        Some((s, e)) => Some((acc + s, e)),
        None => None,
    }
}

pub proof fn lemma_prefix_cons<T>(acc: Seq<T>, x: T, r: Option<(Seq<T>, int)>)
    ensures
        prefix_opt(acc, cons_opt(x, r)) == prefix_opt(acc.push(x), r),
{
    if let Some((s, e)) = r {
        assert(acc + (seq![x] + s) =~= acc.push(x) + s);
    }
}

pub proof fn lemma_prefix_prefix<T>(a: Seq<T>, b: Seq<T>, r: Option<(Seq<T>, int)>)
    ensures
        prefix_opt(a, prefix_opt(b, r)) == prefix_opt(a + b, r),
{
    if let Some((s, e)) = r {
        assert(a + (b + s) =~= (a + b) + s);
    }
}

/// `c` and `a` in front of the two sequences a parse produced.
pub open spec fn prefix2_opt<T>(c: Seq<T>, a: Seq<T>, r: Option<(Seq<T>, Seq<T>, bool, int)>) -> Option<(Seq<T>, Seq<T>, bool, int)> {
    match r {
        Some((c2, a2, x, e)) => Some((c + c2, a + a2, x, e)),
        None => None,
    }
}

pub proof fn lemma_prefix2_prefix2<T>(c: Seq<T>, a: Seq<T>, c1: Seq<T>, a1: Seq<T>, r: Option<(Seq<T>, Seq<T>, bool, int)>)
    ensures
        prefix2_opt(c, a, prefix2_opt(c1, a1, r)) == prefix2_opt(c + c1, a + a1, r),
{
    if let Some((c2, a2, x, e)) = r {
        assert(c + (c1 + c2) =~= (c + c1) + c2);
        assert(a + (a1 + a2) =~= (a + a1) + a2);
    }
}

// ---------------------------------------------------------------------------
// Numbers and object identifiers
// ---------------------------------------------------------------------------

/// The value of the number token at `p`, when it fits an `i128`.
pub open spec fn number_s(toks: Seq<Token>, p: int) -> Option<i128> {
    if kind_is(toks, p, TokenKind::Number) && only_digits(toks[p].text@) && digits_value(toks[p].text@)
        <= i128::MAX {
        Some(digits_value(toks[p].text@) as i128)
    } else {
        None
    }
}

/// `number` or `- number`.
pub open spec fn signed_number_s(toks: Seq<Token>, p: int) -> Option<(i128, int)> {
    if kind_is(toks, p, TokenKind::Minus) && kind_is(toks, p + 1, TokenKind::Number) {
        match number_s(toks, p + 1) {
            Some(v) => Some((if v == 0 { 0 } else { (-v) as i128 }, p + 2)),
            None => None,
        }
    } else if kind_is(toks, p, TokenKind::Number) {
        match number_s(toks, p) {
            Some(v) => Some((v, p + 1)),
            None => None,
        }
    } else {
        None
    }
}

/// The arcs of an object identifier from `q` through its closing `}`.
pub open spec fn oid_items_s(toks: Seq<Token>, q: int) -> Option<(Seq<OidComponentV>, int)>
    decreases toks.len() - q,
{
    if q < 0 {
        None
    } else if kind_is(toks, q, TokenKind::RBrace) {
        Some((Seq::empty(), q + 1))
    } else if q >= toks.len() {
        None
    } else if toks[q].kind == TokenKind::Number {
        match number_s(toks, q) {
            Some(v) => if v > i64::MAX {
                None
            } else {
                cons_opt(OidComponentV { name: None, value: Some(v as i64) }, oid_items_s(toks, q + 1))
            },
            None => None,
        }
    } else if toks[q].kind == TokenKind::Word {
        if kind_is(toks, q + 1, TokenKind::LParen) && kind_is(toks, q + 2, TokenKind::Number) && kind_is(
            toks,
            q + 3,
            TokenKind::RParen,
        ) {
            match number_s(toks, q + 2) {
                Some(v) => if v > i64::MAX {
                    None
                } else {
                    cons_opt(
                        OidComponentV { name: Some(tok_name(toks, q)), value: Some(v as i64) },
                        oid_items_s(toks, q + 4),
                    )
                },
                None => None,
            }
        } else {
            cons_opt(OidComponentV { name: Some(tok_name(toks, q)), value: None }, oid_items_s(toks, q + 1))
        }
    } else {
        None
    }
}

/// `{ arc ... }` starting at `p`.
pub open spec fn oid_s(toks: Seq<Token>, p: int) -> Option<(Seq<OidComponentV>, int)> {
    if kind_is(toks, p, TokenKind::LBrace) {
        oid_items_s(toks, p + 1)
    } else {
        None
    }
}

// ---------------------------------------------------------------------------
// Values
// ---------------------------------------------------------------------------

/// The characters of a `"..."` token between its quotes, doubled quotes
/// collapsed.
pub open spec fn cstring_text(t: Seq<char>) -> Seq<char> {
    if t.len() >= 2 {
        collapse_quotes(t.subrange(1, t.len() - 1))
    } else {
        Seq::empty()
    }
}

/// The digits of a `'...'B` or `'...'H` token, whitespace removed.
pub open spec fn radix_text(t: Seq<char>) -> Seq<char> {
    if t.len() >= 3 {
        strip_spaces(t.subrange(1, t.len() - 2))
    } else {
        Seq::empty()
    }
}

/// The first character of the token at `q` is a lower-case letter.
pub open spec fn lower_word(toks: Seq<Token>, q: int) -> bool {
    any_word(toks, q) && toks[q].text@.len() > 0 && 'a' <= toks[q].text@[0] && toks[q].text@[0] <= 'z'
}

/// The first character of the token at `q` is an upper-case letter.
pub open spec fn upper_word(toks: Seq<Token>, q: int) -> bool {
    any_word(toks, q) && toks[q].text@.len() > 0 && 'A' <= toks[q].text@[0] && toks[q].text@[0] <= 'Z'
}

/// A `{ ... }` value whose first item, at `q`, is `identifier value`.
pub open spec fn named_start(toks: Seq<Token>, q: int) -> bool {
    &&& lower_word(toks, q)
    &&& q + 1 < toks.len()
    &&& toks[q + 1].kind != TokenKind::Comma
    &&& toks[q + 1].kind != TokenKind::RBrace
    &&& toks[q + 1].kind != TokenKind::Colon
    &&& toks[q + 1].kind != TokenKind::LParen
    &&& toks[q + 1].kind != TokenKind::Dot
}

/// A value at `p`; `oid` when the value's type is an object identifier, so
/// that `{ ... }` is read as one.
pub open spec fn value_s(toks: Seq<Token>, p: int, oid: bool) -> Option<(ValueV, int)>
    decreases toks.len() - p, 1nat,
{
    if p < 0 || p >= toks.len() {
        None
    } else {
        let k = toks[p].kind;
        let t = toks[p].text@;
        if k == TokenKind::Number || k == TokenKind::Minus {
            if k == TokenKind::Minus && kind_is(toks, p + 1, TokenKind::Real) {
                Some((ValueV::Real(seq!['-'] + toks[p + 1].text@), p + 2))
            } else {
                match signed_number_s(toks, p) {
                    Some((v, q)) => Some((ValueV::Integer(v), q)),
                    None => None,
                }
            }
        } else if k == TokenKind::Real {
            Some((ValueV::Real(t), p + 1))
        } else if k == TokenKind::CString {
            Some((ValueV::String(cstring_text(t)), p + 1))
        } else if k == TokenKind::BString {
            Some((ValueV::BString(radix_text(t)), p + 1))
        } else if k == TokenKind::HString {
            Some((ValueV::HString(radix_text(t)), p + 1))
        } else if k == TokenKind::LBrace {
            let as_oid = match oid_s(toks, p) {
                Some((cs, q)) => Some((ValueV::Oid(cs), q)),
                None => None,
            };
            if oid {
                as_oid
            } else {
                match brace_value_s(toks, p) {
                    Some(r) => Some(r),
                    None => as_oid,
                }
            }
        } else if k == TokenKind::Word {
            if t == "TRUE"@ {
                Some((ValueV::Boolean(true), p + 1))
            } else if t == "FALSE"@ {
                Some((ValueV::Boolean(false), p + 1))
            } else if t == "NULL"@ {
                Some((ValueV::Null, p + 1))
            } else if t == "PLUS-INFINITY"@ || t == "MINUS-INFINITY"@ {
                Some((ValueV::Real(t), p + 1))
            } else if kind_is(toks, p + 1, TokenKind::Colon) {
                match value_s(toks, p + 2, false) {
                    Some((inner, q)) => Some((ValueV::Choice(tok_name(toks, p), Box::new(inner)), q)),
                    None => None,
                }
            } else if kind_is(toks, p + 1, TokenKind::Dot) && any_word(toks, p + 2) {
                Some((ValueV::Reference(tok_name(toks, p + 2)), p + 3))
            } else {
                Some((ValueV::Reference(tok_name(toks, p)), p + 1))
            }
        } else {
            None
        }
    }
}

/// `{ }`, `{ id value, ... }` or `{ value, ... }` at `p`.
pub open spec fn brace_value_s(toks: Seq<Token>, p: int) -> Option<(ValueV, int)>
    decreases toks.len() - p, 0nat,
{
    if !kind_is(toks, p, TokenKind::LBrace) {
        None
    } else if kind_is(toks, p + 1, TokenKind::RBrace) {
        Some((ValueV::SequenceOf(Seq::empty()), p + 2))
    } else if named_start(toks, p + 1) {
        match named_items_s(toks, p + 1) {
            Some((fs, q)) => Some((ValueV::Sequence(fs), q)),
            None => None,
        }
    } else {
        match plain_items_s(toks, p + 1) {
            Some((vs, q)) => Some((ValueV::SequenceOf(vs), q)),
            None => None,
        }
    }
}

/// `id value, ... }` from `q` through the closing brace.
pub open spec fn named_items_s(toks: Seq<Token>, q: int) -> Option<(Seq<(NameV, ValueV)>, int)>
    decreases toks.len() - q, 2nat,
{
    if !any_word(toks, q) {
        None
    } else {
        match value_s(toks, q + 1, false) {
            Some((v, q2)) => if q2 <= q || q2 > toks.len() {
                None
            } else if kind_is(toks, q2, TokenKind::Comma) {
                cons_opt((tok_name(toks, q), v), named_items_s(toks, q2 + 1))
            } else if kind_is(toks, q2, TokenKind::RBrace) {
                Some((seq![(tok_name(toks, q), v)], q2 + 1))
            } else {
                None
            },
            None => None,
        }
    }
}

/// `value, ... }` from `q` through the closing brace.
pub open spec fn plain_items_s(toks: Seq<Token>, q: int) -> Option<(Seq<ValueV>, int)>
    decreases toks.len() - q, 2nat,
{
    if q < 0 || q >= toks.len() {
        None
    } else {
        match value_s(toks, q, false) {
            Some((v, q2)) => if q2 <= q || q2 > toks.len() {
                None
            } else if kind_is(toks, q2, TokenKind::Comma) {
                cons_opt(v, plain_items_s(toks, q2 + 1))
            } else if kind_is(toks, q2, TokenKind::RBrace) {
                Some((seq![v], q2 + 1))
            } else {
                None
            },
            None => None,
        }
    }
}

// ---------------------------------------------------------------------------
// Brackets, names and numbers inside types
// ---------------------------------------------------------------------------

/// Scanning from `q` with `depth` brackets open: the index just past the
/// bracket that closes the outermost one.
pub open spec fn balanced_s(toks: Seq<Token>, q: int, depth: int, open: TokenKind, close: TokenKind) -> Option<int>
    decreases toks.len() - q,
{
    if q < 0 || q >= toks.len() {
        None
    } else if toks[q].kind == open {
        balanced_s(toks, q + 1, depth + 1, open, close)
    } else if toks[q].kind == close {
        if depth <= 1 {
            Some(q + 1)
        } else {
            balanced_s(toks, q + 1, depth - 1, open, close)
        }
    } else {
        balanced_s(toks, q + 1, depth, open, close)
    }
}

/// `q2` lies after `q`, within the tokens.
pub open spec fn fwd(toks: Seq<Token>, q: int, q2: int) -> bool {
    q < q2 <= toks.len()
}

pub open spec fn opt_seq<T>(x: Option<T>) -> Seq<T> {
    match x {
        Some(v) => seq![v],
        None => Seq::empty(),
    }
}

/// The named numbers `name(value), ...` from `q` through the closing `}`;
/// `...` may stand among them.
pub open spec fn named_number_items_s(toks: Seq<Token>, q: int) -> Option<(Seq<NamedNumberV>, int)>
    decreases toks.len() - q,
{
    if q < 0 || q >= toks.len() {
        None
    } else {
        let step: Option<(Option<NamedNumberV>, int)> = if kind_is(toks, q, TokenKind::Ellipsis) {
            Some((None, q + 1))
        } else if any_word(toks, q) && kind_is(toks, q + 1, TokenKind::LParen) {
            let val: Option<(NamedNumberValueV, int)> = if any_word(toks, q + 2) {
                Some((NamedNumberValueV::Reference(tok_name(toks, q + 2)), q + 3))
            } else {
                match signed_number_s(toks, q + 2) {
                    Some((v, e)) => Some((NamedNumberValueV::Literal(v), e)),
                    None => None,
                }
            };
            match val {
                Some((v, e)) => if kind_is(toks, e, TokenKind::RParen) {
                    Some((Some(NamedNumberV { name: tok_name(toks, q), value: v }), e + 1))
                } else {
                    None
                },
                None => None,
            }
        } else {
            None
        };
        match step {
            Some((item, e)) => if !fwd(toks, q, e) {
                None
            } else if kind_is(toks, e, TokenKind::Comma) {
                prefix_opt(opt_seq(item), named_number_items_s(toks, e + 1))
            } else if kind_is(toks, e, TokenKind::RBrace) {
                Some((opt_seq(item), e + 1))
            } else {
                None
            },
            None => None,
        }
    }
}

/// `{ name(value), ... }` at `p`.
pub open spec fn named_numbers_s(toks: Seq<Token>, p: int) -> Option<(Seq<NamedNumberV>, int)> {
    if kind_is(toks, p, TokenKind::LBrace) {
        named_number_items_s(toks, p + 1)
    } else {
        None
    }
}

/// One `name [(number)]` item of an enumeration at `q`, with the comment
/// before it.
pub open spec fn enum_item_s(toks: Seq<Token>, q: int) -> Option<(EnumItemV, int)> {
    if !any_word(toks, q) {
        None
    } else if kind_is(toks, q + 1, TokenKind::LParen) {
        match signed_number_s(toks, q + 2) {
            Some((v, e)) => if kind_is(toks, e, TokenKind::RParen) {
                Some((EnumItemV { doc: doc_v(toks[q].doc), name: tok_name(toks, q), value: Some(v) }, e + 1))
            } else {
                None
            },
            None => None,
        }
    } else {
        Some((EnumItemV { doc: doc_v(toks[q].doc), name: tok_name(toks, q), value: None }, q + 1))
    }
}

/// The items of an enumeration from `q` through the closing `}`: the root
/// items, the items after `...`, whether `...` was seen, and the index after.
pub open spec fn enum_items_s(toks: Seq<Token>, q: int, ext: bool) -> Option<(Seq<EnumItemV>, Seq<EnumItemV>, bool, int)>
    decreases toks.len() - q,
{
    if q < 0 || q >= toks.len() {
        None
    } else {
        let step: Option<(Option<EnumItemV>, bool, int)> = if kind_is(toks, q, TokenKind::Ellipsis) {
            if kind_is(toks, q + 1, TokenKind::Bang) {
                match signed_number_s(toks, q + 2) {
                    Some((_, e)) => Some((None, true, e)),
                    None => None,
                }
            } else {
                Some((None, true, q + 1))
            }
        } else {
            match enum_item_s(toks, q) {
                Some((it, e)) => Some((Some(it), ext, e)),
                None => None,
            }
        };
        match step {
            Some((item, ext2, e)) => {
                let root = if ext { Seq::empty() } else { opt_seq(item) };
                let added = if ext { opt_seq(item) } else { Seq::empty() };
                if !fwd(toks, q, e) {
                    None
                } else if kind_is(toks, e, TokenKind::Comma) {
                    prefix2_opt(root, added, enum_items_s(toks, e + 1, ext2))
                } else if kind_is(toks, e, TokenKind::RBrace) {
                    Some((root, added, ext2, e + 1))
                } else {
                    None
                }
            },
            None => None,
        }
    }
}

/// `{ items }` of an ENUMERATED type at `p`.
pub open spec fn enumerated_s(toks: Seq<Token>, p: int) -> Option<(TypeKindV, int)> {
    if kind_is(toks, p, TokenKind::LBrace) {
        match enum_items_s(toks, p + 1, false) {
            Some((items, added, ext, e)) => Some(
                (TypeKindV::Enumerated { items, extensible: ext, extension_items: added }, e),
            ),
            None => None,
        }
    } else {
        None
    }
}

/// `&name(.&name)*` at `q`: a name that starts with an upper-case letter
/// names a type field.
pub open spec fn field_path_s(toks: Seq<Token>, q: int) -> Option<(Seq<FieldRefV>, int)>
    decreases toks.len() - q,
{
    if !kind_is(toks, q, TokenKind::Amp) || !any_word(toks, q + 1) {
        None
    } else {
        let r = if upper_word(toks, q + 1) {
            FieldRefV::Type(tok_name(toks, q + 1))
        } else {
            FieldRefV::Value(tok_name(toks, q + 1))
        };
        if kind_is(toks, q + 2, TokenKind::Dot) && kind_is(toks, q + 3, TokenKind::Amp) {
            cons_opt(r, field_path_s(toks, q + 3))
        } else {
            Some((seq![r], q + 2))
        }
    }
}

/// Past a tag `[...]` at `p` and an `IMPLICIT` or `EXPLICIT` after it; `p`
/// itself where no tag stands.
pub open spec fn skip_tag_s(toks: Seq<Token>, p: int) -> Option<int> {
    if !kind_is(toks, p, TokenKind::LBracket) {
        Some(p)
    } else {
        match balanced_s(toks, p, 0, TokenKind::LBracket, TokenKind::RBracket) {
            Some(q) => if word_is(toks, q, "IMPLICIT"@) || word_is(toks, q, "EXPLICIT"@) {
                Some(q + 1)
            } else {
                Some(q)
            },
            None => None,
        }
    }
}

/// The component names of a `WITH COMPONENTS { ... }` from `q` to `end`: the
/// lower-case words at the outer level that follow `{` or `,`.
pub open spec fn with_names_s(toks: Seq<Token>, q: int, end: int, depth: int) -> Seq<NameV>
    decreases end - q,
{
    if q >= end || q < 1 || q >= toks.len() {
        Seq::empty()
    } else {
        let k = toks[q].kind;
        if k == TokenKind::LBrace || k == TokenKind::LParen {
            with_names_s(toks, q + 1, end, if depth < usize::MAX { depth + 1 } else { depth })
        } else if k == TokenKind::RBrace || k == TokenKind::RParen {
            with_names_s(toks, q + 1, end, if depth > 0 { depth - 1 } else { 0 })
        } else if depth == 0 && lower_word(toks, q) && (kind_is(toks, q - 1, TokenKind::LBrace)
            || kind_is(toks, q - 1, TokenKind::Comma)) {
            seq![tok_name(toks, q)] + with_names_s(toks, q + 1, end, depth)
        } else {
            with_names_s(toks, q + 1, end, depth)
        }
    }
}

/// `MIN`, `MAX` or a value at `p`.
pub open spec fn bound_s(toks: Seq<Token>, p: int) -> Option<(ValueBoundV, int)> {
    if word_is(toks, p, "MIN"@) {
        Some((ValueBoundV::Min, p + 1))
    } else if word_is(toks, p, "MAX"@) {
        Some((ValueBoundV::Max, p + 1))
    } else {
        match value_s(toks, p, false) {
            Some((v, q)) => Some((ValueBoundV::Value(v), q)),
            None => None,
        }
    }
}

pub open spec fn intersection_op(toks: Seq<Token>, q: int) -> bool {
    kind_is(toks, q, TokenKind::Caret) || word_is(toks, q, "INTERSECTION"@)
}

pub open spec fn union_op(toks: Seq<Token>, q: int) -> bool {
    kind_is(toks, q, TokenKind::Pipe) || word_is(toks, q, "UNION"@)
}

/// A root constraint followed by `, ...`.
pub open spec fn extended(c: ConstraintV) -> ConstraintV {
    match c {
        ConstraintV::ValueRange { lower, upper, .. } => ConstraintV::ValueRange { lower, upper, extensible: true },
        other => ConstraintV::Extensible(Box::new(other)),
    }
}

/// A value of a type of this kind is read as an object identifier.
pub open spec fn oid_typed(t: TypeV) -> bool {
    t.kind is ObjectIdentifier || t.kind is RelativeOid
}

// ---------------------------------------------------------------------------
// Constraints and types (mutually recursive)
// ---------------------------------------------------------------------------

/// One constraint element at `p`.
pub open spec fn element_s(toks: Seq<Token>, p: int) -> Option<(ConstraintV, int)>
    decreases toks.len() - p, 3nat,
{
    if p < 0 || p >= toks.len() {
        None
    } else if word_is(toks, p, "SIZE"@) {
        match paren_constraint_s(toks, p + 1) {
            Some((inner, q)) => Some((ConstraintV::Size(Box::new(inner)), q)),
            None => None,
        }
    } else if word_is(toks, p, "PATTERN"@) {
        if kind_is(toks, p + 1, TokenKind::CString) {
            Some((ConstraintV::Pattern(cstring_text(toks[p + 1].text@)), p + 2))
        } else {
            None
        }
    } else if word_is(toks, p, "CONTAINING"@) {
        match type_s(toks, p + 1) {
            Some((t, q)) => if word_is(toks, q, "ENCODED"@) && word_is(toks, q + 1, "BY"@) {
                match value_s(toks, q + 2, true) {
                    Some((_, q2)) => Some((ConstraintV::ContainedSubtype(Box::new(t)), q2)),
                    None => None,
                }
            } else {
                Some((ConstraintV::ContainedSubtype(Box::new(t)), q))
            },
            None => None,
        }
    } else if word_is(toks, p, "INCLUDES"@) {
        match type_s(toks, p + 1) {
            Some((t, q)) => Some((ConstraintV::ContainedSubtype(Box::new(t)), q)),
            None => None,
        }
    } else if word_is(toks, p, "WITH"@) && (word_is(toks, p + 1, "COMPONENTS"@) || word_is(
        toks,
        p + 1,
        "COMPONENT"@,
    )) {
        if !kind_is(toks, p + 2, TokenKind::LBrace) {
            None
        } else {
            match balanced_s(toks, p + 2, 0, TokenKind::LBrace, TokenKind::RBrace) {
                Some(end) => Some((ConstraintV::WithComponents(with_names_s(toks, p + 3, end, 0)), end)),
                None => None,
            }
        }
    } else if word_is(toks, p, "FROM"@) {
        if kind_is(toks, p + 1, TokenKind::LParen) {
            match balanced_s(toks, p + 1, 0, TokenKind::LParen, TokenKind::RParen) {
                Some(q) => Some((ConstraintV::Opaque, q)),
                None => None,
            }
        } else {
            None
        }
    } else if kind_is(toks, p, TokenKind::LParen) {
        paren_constraint_s(toks, p)
    } else if kind_is(toks, p, TokenKind::LBrace) {
        if any_word(toks, p + 1) && kind_is(toks, p + 2, TokenKind::RBrace) {
            Some((ConstraintV::ObjectSet(tok_name(toks, p + 1)), p + 3))
        } else {
            None
        }
    } else {
        match bound_s(toks, p) {
            Some((lower, q0)) => {
                let q1 = if kind_is(toks, q0, TokenKind::Less) { q0 + 1 } else { q0 };
                if kind_is(toks, q1, TokenKind::DotDot) {
                    let q2 = if kind_is(toks, q1 + 1, TokenKind::Less) { q1 + 2 } else { q1 + 1 };
                    match bound_s(toks, q2) {
                        Some((upper, q3)) => Some(
                            (ConstraintV::ValueRange { lower, upper, extensible: false }, q3),
                        ),
                        None => None,
                    }
                } else {
                    match lower {
                        ValueBoundV::Value(v) => Some((ConstraintV::SingleValue(v), q1)),
                        _ => None,
                    }
                }
            },
            None => None,
        }
    }
}

/// Further `^ element` items from `q`.
pub open spec fn intersection_rest_s(toks: Seq<Token>, q: int) -> Option<(Seq<ConstraintV>, int)>
    decreases toks.len() - q, 4nat,
{
    if !intersection_op(toks, q) {
        Some((Seq::empty(), q))
    } else {
        match element_s(toks, q + 1) {
            Some((e, q2)) => if !fwd(toks, q, q2) {
                None
            } else {
                cons_opt(e, intersection_rest_s(toks, q2))
            },
            None => None,
        }
    }
}

/// Elements joined by `^` or `INTERSECTION` at `p`.
pub open spec fn intersection_s(toks: Seq<Token>, p: int) -> Option<(ConstraintV, int)>
    decreases toks.len() - p, 4nat,
{
    match element_s(toks, p) {
        Some((first, q0)) => if !fwd(toks, p, q0) {
            None
        } else if !intersection_op(toks, q0) {
            Some((first, q0))
        } else {
            match intersection_rest_s(toks, q0) {
                Some((rest, q)) => Some((ConstraintV::Intersection(seq![first] + rest), q)),
                None => None,
            }
        },
        None => None,
    }
}

/// Further `| intersection` items from `q`.
pub open spec fn union_rest_s(toks: Seq<Token>, q: int) -> Option<(Seq<ConstraintV>, int)>
    decreases toks.len() - q, 5nat,
{
    if !union_op(toks, q) {
        Some((Seq::empty(), q))
    } else {
        match intersection_s(toks, q + 1) {
            Some((e, q2)) => if !fwd(toks, q, q2) {
                None
            } else {
                cons_opt(e, union_rest_s(toks, q2))
            },
            None => None,
        }
    }
}

/// Intersections joined by `|` or `UNION` at `p`.
pub open spec fn element_set_s(toks: Seq<Token>, p: int) -> Option<(ConstraintV, int)>
    decreases toks.len() - p, 5nat,
{
    match intersection_s(toks, p) {
        Some((first, q0)) => if !fwd(toks, p, q0) {
            None
        } else if !union_op(toks, q0) {
            Some((first, q0))
        } else {
            match union_rest_s(toks, q0) {
                Some((rest, q)) => Some((ConstraintV::Union(seq![first] + rest), q)),
                None => None,
            }
        },
        None => None,
    }
}

/// An element set at `p`, possibly followed by `, ...` and additions.
pub open spec fn constraint_spec_s(toks: Seq<Token>, p: int) -> Option<(ConstraintV, int)>
    decreases toks.len() - p, 6nat,
{
    if kind_is(toks, p, TokenKind::Ellipsis) {
        Some((ConstraintV::Extensible(Box::new(ConstraintV::Opaque)), p + 1))
    } else {
        match element_set_s(toks, p) {
            Some((root, q0)) => if !fwd(toks, p, q0) {
                None
            } else if kind_is(toks, q0, TokenKind::Comma) && kind_is(toks, q0 + 1, TokenKind::Ellipsis) {
                if kind_is(toks, q0 + 2, TokenKind::Comma) {
                    match element_set_s(toks, q0 + 3) {
                        Some((_, q)) => Some((extended(root), q)),
                        None => None,
                    }
                } else {
                    Some((extended(root), q0 + 2))
                }
            } else {
                Some((root, q0))
            },
            None => None,
        }
    }
}

/// `( constraint )` at `p`; what is not read as a constraint is skipped to
/// its closing `)` and kept as `Opaque`.
pub open spec fn paren_constraint_s(toks: Seq<Token>, p: int) -> Option<(ConstraintV, int)>
    decreases toks.len() - p, 2nat,
{
    if !kind_is(toks, p, TokenKind::LParen) {
        None
    } else {
        let skipped = match balanced_s(toks, p, 0, TokenKind::LParen, TokenKind::RParen) {
            Some(q) => Some((ConstraintV::Opaque, q)),
            None => None,
        };
        match constraint_spec_s(toks, p + 1) {
            Some((c, q)) => if kind_is(toks, q, TokenKind::LBrace) {
                match balanced_s(toks, q, 0, TokenKind::LBrace, TokenKind::RBrace) {
                    Some(q2) => if kind_is(toks, q2, TokenKind::RParen) {
                        Some((c, q2 + 1))
                    } else {
                        skipped
                    },
                    None => None,
                }
            } else if kind_is(toks, q, TokenKind::RParen) {
                Some((c, q + 1))
            } else {
                skipped
            },
            None => skipped,
        }
    }
}

/// The keywords of the built-in types read by [`keyword_kind_s`].
pub open spec fn type_keyword(t: Seq<char>) -> bool {
    t == "BOOLEAN"@ || t == "INTEGER"@ || t == "REAL"@ || t == "NULL"@ || t == "BIT"@ || t
        == "OCTET"@ || t == "OBJECT"@ || t == "RELATIVE-OID"@ || t == "UTCTime"@ || t
        == "GeneralizedTime"@ || t == "ENUMERATED"@
}

/// A built-in type named by the keyword at `p` (see [`type_keyword`]).
pub open spec fn keyword_kind_s(toks: Seq<Token>, p: int) -> Option<(TypeKindV, int)> {
    let q = p + 1;
    let t = toks[p].text@;
    if t == "BOOLEAN"@ {
        Some((TypeKindV::Boolean, q))
    } else if t == "INTEGER"@ {
        if kind_is(toks, q, TokenKind::LBrace) {
            match named_numbers_s(toks, q) {
                Some((nn, q2)) => Some((TypeKindV::Integer { named_numbers: nn }, q2)),
                None => None,
            }
        } else {
            Some((TypeKindV::Integer { named_numbers: Seq::empty() }, q))
        }
    } else if t == "REAL"@ {
        Some((TypeKindV::Real, q))
    } else if t == "NULL"@ {
        Some((TypeKindV::Null, q))
    } else if t == "BIT"@ {
        if !word_is(toks, q, "STRING"@) {
            None
        } else if kind_is(toks, q + 1, TokenKind::LBrace) {
            match named_numbers_s(toks, q + 1) {
                Some((nb, q2)) => Some((TypeKindV::BitString { named_bits: nb }, q2)),
                None => None,
            }
        } else {
            Some((TypeKindV::BitString { named_bits: Seq::empty() }, q + 1))
        }
    } else if t == "OCTET"@ {
        if word_is(toks, q, "STRING"@) {
            Some((TypeKindV::OctetString, q + 1))
        } else {
            None
        }
    } else if t == "OBJECT"@ {
        if word_is(toks, q, "IDENTIFIER"@) {
            Some((TypeKindV::ObjectIdentifier, q + 1))
        } else {
            None
        }
    } else if t == "RELATIVE-OID"@ {
        Some((TypeKindV::RelativeOid, q))
    } else if t == "UTCTime"@ {
        Some((TypeKindV::UtcTime, q))
    } else if t == "GeneralizedTime"@ {
        Some((TypeKindV::GeneralizedTime, q))
    } else {
        enumerated_s(toks, q)
    }
}

/// A character string type, an open type, or a reference at the word `p`.
pub open spec fn other_kind_s(toks: Seq<Token>, p: int) -> Option<(TypeKindV, int)> {
    let q = p + 1;
    let t = toks[p].text@;
    if char_kind_named(t) is Some {
        Some((TypeKindV::CharString(char_kind_named(t)->0), q))
    } else if t == "ANY"@ {
        if word_is(toks, q, "DEFINED"@) && word_is(toks, q + 1, "BY"@) && any_word(toks, q + 2) {
            Some((TypeKindV::Any, q + 3))
        } else {
            Some((TypeKindV::Any, q))
        }
    } else if t == "EXTERNAL"@ || t == "ObjectDescriptor"@ {
        Some((TypeKindV::Any, q))
    } else if t == "EMBEDDED"@ && word_is(toks, q, "PDV"@) {
        Some((TypeKindV::Any, q + 1))
    } else if t == "CHARACTER"@ && word_is(toks, q, "STRING"@) {
        Some((TypeKindV::Any, q + 1))
    } else if t == "INSTANCE"@ && word_is(toks, q, "OF"@) && any_word(toks, q + 1) {
        Some((TypeKindV::Any, q + 2))
    } else if kind_is(toks, q, TokenKind::Dot) && kind_is(toks, q + 1, TokenKind::Amp) {
        match field_path_s(toks, q + 1) {
            Some((path, q2)) => Some((TypeKindV::ClassField { class: tok_name(toks, p), path }, q2)),
            None => None,
        }
    } else if kind_is(toks, q, TokenKind::Dot) && any_word(toks, q + 1) {
        if kind_is(toks, q + 2, TokenKind::Dot) && kind_is(toks, q + 3, TokenKind::Amp) {
            match field_path_s(toks, q + 3) {
                Some((path, q2)) => Some((TypeKindV::ClassField { class: tok_name(toks, q + 1), path }, q2)),
                None => None,
            }
        } else {
            Some((TypeKindV::Reference(tok_name(toks, q + 1)), q + 2))
        }
    } else if kind_is(toks, q, TokenKind::LBrace) {
        match balanced_s(toks, q, 0, TokenKind::LBrace, TokenKind::RBrace) {
            Some(q2) => Some((TypeKindV::Reference(tok_name(toks, p)), q2)),
            None => None,
        }
    } else {
        Some((TypeKindV::Reference(tok_name(toks, p)), q))
    }
}

/// `SEQUENCE` or `SET` at `p` (`is_seq` tells which): a body, or `OF` a type
/// with the constraints written before `OF`.
pub open spec fn seq_set_kind_s(toks: Seq<Token>, p: int, is_seq: bool) -> Option<(TypeKindV, Seq<ConstraintV>, int)>
    decreases toks.len() - p, 9nat,
{
    let q = p + 1;
    let none = Seq::<ConstraintV>::empty();
    if p < 0 || p >= toks.len() {
        None
    } else if kind_is(toks, q, TokenKind::LBrace) {
        match struct_body_s(toks, q) {
            Some((s, q2)) => Some(
                (if is_seq { TypeKindV::Sequence(s) } else { TypeKindV::SetType(s) }, none, q2),
            ),
            None => None,
        }
    } else {
        let pre: Option<(Seq<ConstraintV>, int)> = if kind_is(toks, q, TokenKind::LParen) {
            match paren_constraint_s(toks, q) {
                Some((c, q2)) => Some((seq![c], q2)),
                None => None,
            }
        } else if word_is(toks, q, "SIZE"@) {
            match element_s(toks, q) {
                Some((c, q2)) => Some((seq![c], q2)),
                None => None,
            }
        } else {
            Some((none, q))
        };
        match pre {
            Some((cs, q1)) => if !fwd(toks, p, q1) || !word_is(toks, q1, "OF"@) {
                None
            } else {
                let q2 = if lower_word(toks, q1 + 1) && kind_is(toks, q1 + 2, TokenKind::Word) {
                    q1 + 2
                } else {
                    q1 + 1
                };
                match type_s(toks, q2) {
                    Some((elem, q3)) => Some(
                        (
                            if is_seq {
                                TypeKindV::SequenceOf(Box::new(elem))
                            } else {
                                TypeKindV::SetOf(Box::new(elem))
                            },
                            cs,
                            q3,
                        ),
                    ),
                    None => None,
                }
            },
            None => None,
        }
    }
}

/// The part of a type at `p` before its trailing constraints, with the
/// constraints written between `SEQUENCE` or `SET` and `OF`.
pub open spec fn type_kind_s(toks: Seq<Token>, p: int) -> Option<(TypeKindV, Seq<ConstraintV>, int)>
    decreases toks.len() - p, 10nat,
{
    if !any_word(toks, p) {
        None
    } else {
        let t = toks[p].text@;
        let none = Seq::<ConstraintV>::empty();
        if t == "CHOICE"@ {
            match choice_body_s(toks, p + 1) {
                Some((c, q2)) => Some((TypeKindV::Choice(c), none, q2)),
                None => None,
            }
        } else if t == "SEQUENCE"@ || t == "SET"@ {
            seq_set_kind_s(toks, p, t == "SEQUENCE"@)
        } else {
            let r = if type_keyword(t) { keyword_kind_s(toks, p) } else { other_kind_s(toks, p) };
            match r {
                Some((k, q)) => Some((k, none, q)),
                None => None,
            }
        }
    }
}

/// The constraints after a type, from `q`.
pub open spec fn type_constraints_s(toks: Seq<Token>, q: int) -> Option<(Seq<ConstraintV>, int)>
    decreases toks.len() - q, 11nat,
{
    let c = if kind_is(toks, q, TokenKind::LParen) {
        paren_constraint_s(toks, q)
    } else if word_is(toks, q, "SIZE"@) && kind_is(toks, q + 1, TokenKind::LParen) {
        element_s(toks, q)
    } else {
        None
    };
    if !(kind_is(toks, q, TokenKind::LParen) || (word_is(toks, q, "SIZE"@) && kind_is(
        toks,
        q + 1,
        TokenKind::LParen,
    ))) {
        Some((Seq::empty(), q))
    } else {
        match c {
            Some((c, q2)) => if !fwd(toks, q, q2) {
                None
            } else {
                cons_opt(c, type_constraints_s(toks, q2))
            },
            None => None,
        }
    }
}

/// A type at `p`: a tag, the type itself, and the constraints after it.
pub open spec fn type_s(toks: Seq<Token>, p: int) -> Option<(TypeV, int)>
    decreases toks.len() - p, 11nat,
{
    match skip_tag_s(toks, p) {
        Some(q0) => if q0 < p || q0 > toks.len() {
            None
        } else {
            match type_kind_s(toks, q0) {
                Some((kind, pre, q1)) => if !fwd(toks, p, q1) {
                    None
                } else {
                    match type_constraints_s(toks, q1) {
                        Some((cs, q)) => Some((TypeV { kind, constraints: pre + cs }, q)),
                        None => None,
                    }
                },
                None => None,
            }
        },
        None => None,
    }
}

/// `name Type [OPTIONAL | DEFAULT value]` at `p`, with the comment before it.
pub open spec fn component_s(toks: Seq<Token>, p: int) -> Option<(ComponentV, int)>
    decreases toks.len() - p, 7nat,
{
    if !any_word(toks, p) {
        None
    } else {
        match type_s(toks, p + 1) {
            Some((ty, q)) => {
                let mk = |o: OptionalityV| ComponentV { doc: doc_v(toks[p].doc), name: tok_name(toks, p), ty, optionality: o };
                if word_is(toks, q, "OPTIONAL"@) {
                    Some((mk(OptionalityV::Optional), q + 1))
                } else if word_is(toks, q, "DEFAULT"@) {
                    match value_s(toks, q + 1, oid_typed(ty)) {
                        Some((v, q2)) => Some((mk(OptionalityV::Default(v)), q2)),
                        None => None,
                    }
                } else {
                    Some((mk(OptionalityV::Required), q))
                }
            },
            None => None,
        }
    }
}

/// A member of a SEQUENCE or SET at `p`.
pub open spec fn struct_member_s(toks: Seq<Token>, p: int) -> Option<(StructMemberV, int)>
    decreases toks.len() - p, 8nat,
{
    if word_is(toks, p, "COMPONENTS"@) && word_is(toks, p + 1, "OF"@) {
        match type_s(toks, p + 2) {
            Some((ty, q)) => Some((StructMemberV::ComponentsOf { ty }, q)),
            None => None,
        }
    } else {
        match component_s(toks, p) {
            Some((c, q)) => Some((StructMemberV::Named(c), q)),
            None => None,
        }
    }
}

/// Members of an extension addition group `[[ ... ]]` from `r`, up to the
/// first that no comma follows.
pub open spec fn member_group_s(toks: Seq<Token>, r: int) -> Option<(Seq<StructMemberV>, int)>
    decreases toks.len() - r, 9nat,
{
    match struct_member_s(toks, r) {
        Some((m, r2)) => if !fwd(toks, r, r2) {
            None
        } else if kind_is(toks, r2, TokenKind::Comma) {
            cons_opt(m, member_group_s(toks, r2 + 1))
        } else {
            Some((seq![m], r2))
        },
        None => None,
    }
}

/// Where the items of an addition group `[[ n: ... ]]` at `q` begin.
pub open spec fn group_start(toks: Seq<Token>, q: int) -> int {
    if kind_is(toks, q + 2, TokenKind::Number) && kind_is(toks, q + 3, TokenKind::Colon) {
        q + 4
    } else {
        q + 2
    }
}

/// Past `...` or `... ! value` at `q`.
pub open spec fn ellipsis_end_s(toks: Seq<Token>, q: int) -> Option<int> {
    if kind_is(toks, q + 1, TokenKind::Bang) {
        match value_s(toks, q + 2, false) {
            Some((_, e)) => Some(e),
            None => None,
        }
    } else {
        Some(q + 1)
    }
}

/// One step of a SEQUENCE or SET body at `q`: `...`, an addition group `[[ ... ]]`, or
/// one member; what it adds to the root items and to the additions, the
/// new `ext` and `inx`, and the index after it.
pub open spec fn struct_step_s(toks: Seq<Token>, q: int, ext: bool, inx: bool) -> Option<(Seq<StructMemberV>, Seq<StructMemberV>, bool, bool, int)>
    decreases toks.len() - q, 9nat,
{
    if kind_is(toks, q, TokenKind::Ellipsis) {
        match ellipsis_end_s(toks, q) {
            Some(e) => Some((Seq::empty(), Seq::empty(), true, !ext, e)),
            None => None,
        }
    } else if kind_is(toks, q, TokenKind::LBracket) && kind_is(toks, q + 1, TokenKind::LBracket) {
        match member_group_s(toks, group_start(toks, q)) {
            Some((ms, r)) => if kind_is(toks, r, TokenKind::RBracket) && kind_is(
                toks,
                r + 1,
                TokenKind::RBracket,
            ) {
                Some((Seq::empty(), ms, ext, inx, r + 2))
            } else {
                None
            },
            None => None,
        }
    } else {
        match struct_member_s(toks, q) {
            Some((m, e)) => if inx {
                Some((Seq::empty(), seq![m], ext, inx, e))
            } else {
                Some((seq![m], Seq::empty(), ext, inx, e))
            },
            None => None,
        }
    }
}

/// The members of a SEQUENCE or SET body from `q` through the closing `}`:
/// the root members, the extension additions, whether `...` was seen, and the
/// index after. `ext` and `inx` tell whether `...` was seen and whether the
/// members now read are additions.
pub open spec fn struct_items_s(toks: Seq<Token>, q: int, ext: bool, inx: bool) -> Option<(Seq<StructMemberV>, Seq<StructMemberV>, bool, int)>
    decreases toks.len() - q, 10nat,
{
    if q < 0 || q >= toks.len() {
        None
    } else {
        let step = struct_step_s(toks, q, ext, inx);
        match step {
            Some((c, a, ext2, inx2, e)) => if !fwd(toks, q, e) {
                None
            } else if kind_is(toks, e, TokenKind::Comma) {
                prefix2_opt(c, a, struct_items_s(toks, e + 1, ext2, inx2))
            } else if kind_is(toks, e, TokenKind::RBrace) {
                Some((c, a, ext2, e + 1))
            } else {
                None
            },
            None => None,
        }
    }
}

/// The `{ ... }` body of a SEQUENCE or SET at `p`.
pub open spec fn struct_body_s(toks: Seq<Token>, p: int) -> Option<(StructTypeV, int)>
    decreases toks.len() - p, 9nat,
{
    if !kind_is(toks, p, TokenKind::LBrace) {
        None
    } else if kind_is(toks, p + 1, TokenKind::RBrace) {
        Some(
            (
                StructTypeV { components: Seq::empty(), extensible: false, extension_additions: Seq::empty() },
                p + 2,
            ),
        )
    } else {
        match struct_items_s(toks, p + 1, false, false) {
            Some((c, a, x, e)) => Some(
                (StructTypeV { components: c, extensible: x, extension_additions: a }, e),
            ),
            None => None,
        }
    }
}

/// Alternatives of an extension addition group `[[ ... ]]` from `r`.
pub open spec fn alternative_group_s(toks: Seq<Token>, r: int) -> Option<(Seq<ComponentV>, int)>
    decreases toks.len() - r, 9nat,
{
    match component_s(toks, r) {
        Some((c, r2)) => if !fwd(toks, r, r2) {
            None
        } else if kind_is(toks, r2, TokenKind::Comma) {
            cons_opt(c, alternative_group_s(toks, r2 + 1))
        } else {
            Some((seq![c], r2))
        },
        None => None,
    }
}

/// One step of a CHOICE body at `q`: `...`, an addition group `[[ ... ]]`, or
/// one alternative; what it adds to the root items and to the additions, the
/// new `ext` and `inx`, and the index after it.
pub open spec fn choice_step_s(toks: Seq<Token>, q: int, ext: bool, inx: bool) -> Option<(Seq<ComponentV>, Seq<ComponentV>, bool, bool, int)>
    decreases toks.len() - q, 9nat,
{
    if kind_is(toks, q, TokenKind::Ellipsis) {
        match ellipsis_end_s(toks, q) {
            Some(e) => Some((Seq::empty(), Seq::empty(), true, !ext, e)),
            None => None,
        }
    } else if kind_is(toks, q, TokenKind::LBracket) && kind_is(toks, q + 1, TokenKind::LBracket) {
        match alternative_group_s(toks, group_start(toks, q)) {
            Some((cs, r)) => if kind_is(toks, r, TokenKind::RBracket) && kind_is(
                toks,
                r + 1,
                TokenKind::RBracket,
            ) {
                Some((Seq::empty(), cs, ext, inx, r + 2))
            } else {
                None
            },
            None => None,
        }
    } else {
        match component_s(toks, q) {
            Some((c, e)) => if inx {
                Some((Seq::empty(), seq![c], ext, inx, e))
            } else {
                Some((seq![c], Seq::empty(), ext, inx, e))
            },
            None => None,
        }
    }
}

/// The alternatives of a CHOICE body from `q` through the closing `}`, as
/// [`struct_items_s`] reads members.
pub open spec fn choice_items_s(toks: Seq<Token>, q: int, ext: bool, inx: bool) -> Option<(Seq<ComponentV>, Seq<ComponentV>, bool, int)>
    decreases toks.len() - q, 10nat,
{
    if q < 0 || q >= toks.len() {
        None
    } else {
        let step = choice_step_s(toks, q, ext, inx);
        match step {
            Some((c, a, ext2, inx2, e)) => if !fwd(toks, q, e) {
                None
            } else if kind_is(toks, e, TokenKind::Comma) {
                prefix2_opt(c, a, choice_items_s(toks, e + 1, ext2, inx2))
            } else if kind_is(toks, e, TokenKind::RBrace) {
                Some((c, a, ext2, e + 1))
            } else {
                None
            },
            None => None,
        }
    }
}

/// The `{ ... }` body of a CHOICE at `p`.
pub open spec fn choice_body_s(toks: Seq<Token>, p: int) -> Option<(ChoiceTypeV, int)>
    decreases toks.len() - p, 9nat,
{
    if !kind_is(toks, p, TokenKind::LBrace) {
        None
    } else {
        match choice_items_s(toks, p + 1, false, false) {
            Some((c, a, x, e)) => Some(
                (ChoiceTypeV { alternatives: c, extensible: x, extension_alternatives: a }, e),
            ),
            None => None,
        }
    }
}

// ---------------------------------------------------------------------------
// Information object classes, objects and object sets
// ---------------------------------------------------------------------------

/// Upper-case letters, digits and hyphens, starting with a letter.
pub open spec fn caps_word(t: Seq<char>) -> bool {
    t.len() > 0 && 'A' <= t[0] && t[0] <= 'Z' && forall|k: int| 0 <= k < t.len() ==> is_caps_char(#[trigger] t[k])
}

/// `OPTIONAL`, `DEFAULT value`, or nothing, at `p`: whether the field may be
/// left out, and the index after.
pub open spec fn optional_flag_s(toks: Seq<Token>, p: int) -> Option<(bool, int)> {
    if word_is(toks, p, "OPTIONAL"@) {
        Some((true, p + 1))
    } else if word_is(toks, p, "DEFAULT"@) {
        match value_s(toks, p + 1, false) {
            Some((_, q)) => Some((true, q)),
            None => None,
        }
    } else {
        Some((false, p))
    }
}

/// One field specification of a class at its `&`, `p`.
pub open spec fn field_spec_s(toks: Seq<Token>, p: int) -> Option<(FieldSpecV, int)> {
    if !kind_is(toks, p, TokenKind::Amp) || !any_word(toks, p + 1) {
        None
    } else {
        let name = tok_name(toks, p + 1);
        let q = p + 2;
        if upper_word(toks, p + 1) {
            let q1 = if any_word(toks, q) && caps_word(toks[q].text@) && !word_is(toks, q, "OPTIONAL"@)
                && !word_is(toks, q, "DEFAULT"@) {
                q + 1
            } else {
                q
            };
            if word_is(toks, q1, "DEFAULT"@) {
                if kind_is(toks, q1 + 1, TokenKind::LBrace) {
                    match balanced_s(toks, q1 + 1, 0, TokenKind::LBrace, TokenKind::RBrace) {
                        Some(q2) => Some((FieldSpecV::TypeField { name, optional: true }, q2)),
                        None => None,
                    }
                } else {
                    match type_s(toks, q1 + 1) {
                        Some((_, q2)) => Some((FieldSpecV::TypeField { name, optional: true }, q2)),
                        None => None,
                    }
                }
            } else if word_is(toks, q1, "OPTIONAL"@) {
                Some((FieldSpecV::TypeField { name, optional: true }, q1 + 1))
            } else {
                Some((FieldSpecV::TypeField { name, optional: false }, q1))
            }
        } else if kind_is(toks, q, TokenKind::Amp) {
            match field_path_s(toks, q) {
                Some((path, q1)) => match optional_flag_s(toks, q1) {
                    Some((optional, q2)) => Some(
                        (FieldSpecV::VariableTypeValueField { name, field_path: path, optional }, q2),
                    ),
                    None => None,
                },
                None => None,
            }
        } else {
            match type_s(toks, q) {
                Some((ty, q1)) => {
                    let unique = word_is(toks, q1, "UNIQUE"@);
                    let q2 = if unique { q1 + 1 } else { q1 };
                    match optional_flag_s(toks, q2) {
                        Some((optional, q3)) => Some(
                            (FieldSpecV::ValueField { name, ty, unique, optional }, q3),
                        ),
                        None => None,
                    }
                },
                None => None,
            }
        }
    }
}

/// Field specifications from `q`, up to the first that no comma follows.
pub open spec fn class_fields_s(toks: Seq<Token>, q: int) -> Option<(Seq<FieldSpecV>, int)>
    decreases toks.len() - q,
{
    match field_spec_s(toks, q) {
        Some((f, e)) => if !fwd(toks, q, e) {
            None
        } else if kind_is(toks, e, TokenKind::Comma) {
            cons_opt(f, class_fields_s(toks, e + 1))
        } else {
            Some((seq![f], e))
        },
        None => None,
    }
}

/// `CLASS { fields } [WITH SYNTAX { ... }]` at `p`.
pub open spec fn class_s(toks: Seq<Token>, p: int) -> Option<(Seq<FieldSpecV>, int)> {
    if !word_is(toks, p, "CLASS"@) || !kind_is(toks, p + 1, TokenKind::LBrace) {
        None
    } else {
        let fields = if kind_is(toks, p + 2, TokenKind::RBrace) {
            Some((Seq::empty(), p + 2))
        } else {
            class_fields_s(toks, p + 2)
        };
        match fields {
            Some((fs, q)) => if !kind_is(toks, q, TokenKind::RBrace) {
                None
            } else if word_is(toks, q + 1, "WITH"@) && word_is(toks, q + 2, "SYNTAX"@) && kind_is(
                toks,
                q + 3,
                TokenKind::LBrace,
            ) {
                match balanced_s(toks, q + 3, 0, TokenKind::LBrace, TokenKind::RBrace) {
                    Some(q2) => Some((fs, q2)),
                    None => None,
                }
            } else {
                Some((fs, q + 1))
            },
            None => None,
        }
    }
}

/// Field settings `&name value` or `&Name Type` from `q`, up to the first
/// that no comma follows.
pub open spec fn object_settings_s(toks: Seq<Token>, q: int) -> Option<(Seq<ObjectFieldSettingV>, int)>
    decreases toks.len() - q,
{
    if !kind_is(toks, q, TokenKind::Amp) || !any_word(toks, q + 1) {
        None
    } else {
        let name = tok_name(toks, q + 1);
        let setting = if upper_word(toks, q + 1) {
            match type_s(toks, q + 2) {
                Some((ty, e)) => Some((ObjectFieldSettingV::Type { name, ty }, e)),
                None => None,
            }
        } else {
            match value_s(toks, q + 2, false) {
                Some((value, e)) => Some((ObjectFieldSettingV::Value { name, value }, e)),
                None => None,
            }
        };
        match setting {
            Some((st, e)) => if !fwd(toks, q, e) {
                None
            } else if kind_is(toks, e, TokenKind::Comma) {
                cons_opt(st, object_settings_s(toks, e + 1))
            } else {
                Some((seq![st], e))
            },
            None => None,
        }
    }
}

/// The tokens from `i` up to `stop`, as names.
pub open spec fn token_names(toks: Seq<Token>, i: int, stop: int) -> Seq<NameV> {
    Seq::new(if stop > i { (stop - i) as nat } else { 0 }, |k: int| tok_name(toks, i + k))
}

/// An object `{ ... }` at `p`: field settings in the default syntax, or the
/// tokens of a defined syntax.
pub open spec fn object_s(toks: Seq<Token>, p: int) -> Option<(ObjectDefV, int)> {
    if !kind_is(toks, p, TokenKind::LBrace) {
        None
    } else if kind_is(toks, p + 1, TokenKind::Amp) {
        match object_settings_s(toks, p + 1) {
            Some((fs, q)) => if kind_is(toks, q, TokenKind::RBrace) {
                Some((ObjectDefV { fields: fs, syntax: Seq::empty() }, q + 1))
            } else {
                None
            },
            None => None,
        }
    } else {
        match balanced_s(toks, p, 0, TokenKind::LBrace, TokenKind::RBrace) {
            Some(end) => Some(
                (ObjectDefV { fields: Seq::empty(), syntax: token_names(toks, p + 1, end - 1) }, end),
            ),
            None => None,
        }
    }
}

/// The elements of an object set from `q` through its closing `}`, whether
/// `...` was among them, and the index after.
pub open spec fn set_items_s(toks: Seq<Token>, q: int, ext: bool) -> Option<(Seq<ObjectSetElementV>, bool, int)>
    decreases toks.len() - q,
{
    if kind_is(toks, q, TokenKind::RBrace) {
        Some((Seq::empty(), ext, q + 1))
    } else if q < 0 || q >= toks.len() {
        None
    } else {
        let k = toks[q].kind;
        if k == TokenKind::Ellipsis {
            set_items_s(toks, q + 1, true)
        } else if k == TokenKind::Comma || k == TokenKind::Pipe || word_is(toks, q, "UNION"@) {
            set_items_s(toks, q + 1, ext)
        } else if k == TokenKind::LBrace {
            match object_s(toks, q) {
                Some((o, e)) => if !fwd(toks, q, e) {
                    None
                } else {
                    match set_items_s(toks, e, ext) {
                        Some((es, x, end)) => Some((seq![ObjectSetElementV::Object(o)] + es, x, end)),
                        None => None,
                    }
                },
                None => None,
            }
        } else if k == TokenKind::Word {
            let e = if kind_is(toks, q + 1, TokenKind::Dot) && any_word(toks, q + 2) { q + 3 } else { q + 1 };
            match set_items_s(toks, e, ext) {
                Some((es, x, end)) => Some(
                    (seq![ObjectSetElementV::Reference(tok_name(toks, q))] + es, x, end),
                ),
                None => None,
            }
        } else {
            None
        }
    }
}

// ---------------------------------------------------------------------------
// Assignments and modules
// ---------------------------------------------------------------------------

/// One assignment at `p`, with the comment before it.
pub open spec fn assignment_s(toks: Seq<Token>, p: int) -> Option<(AssignmentV, int)> {
    if !any_word(toks, p) {
        None
    } else {
        let name = tok_name(toks, p);
        let doc = doc_v(toks[p].doc);
        let mk = |k: AssignmentKindV| AssignmentV { name, doc, kind: k };
        let after = if kind_is(toks, p + 1, TokenKind::LBrace) {
            balanced_s(toks, p + 1, 0, TokenKind::LBrace, TokenKind::RBrace)
        } else {
            Some(p + 1)
        };
        match after {
            Some(q) => if kind_is(toks, q, TokenKind::Assign) {
                if caps_word(name.text) && word_is(toks, q + 1, "CLASS"@) {
                    match class_s(toks, q + 1) {
                        Some((fs, q2)) => Some((mk(AssignmentKindV::ObjectClass(fs)), q2)),
                        None => None,
                    }
                } else {
                    match type_s(toks, q + 1) {
                        Some((ty, q2)) => Some((mk(AssignmentKindV::Type(ty)), q2)),
                        None => None,
                    }
                }
            } else if any_word(toks, q) && caps_word(toks[q].text@) && !builtin_type_word(toks[q].text@)
                && kind_is(toks, q + 1, TokenKind::Assign) {
                let class_name = tok_name(toks, q);
                if lower_word(toks, p) {
                    match object_s(toks, q + 2) {
                        Some((object, q2)) => Some((mk(AssignmentKindV::Object { class_name, object }), q2)),
                        None => None,
                    }
                } else if kind_is(toks, q + 2, TokenKind::LBrace) {
                    match set_items_s(toks, q + 3, false) {
                        Some((elements, extensible, q2)) => Some(
                            (mk(AssignmentKindV::ObjectSet { class_name, elements, extensible }), q2),
                        ),
                        None => None,
                    }
                } else {
                    None
                }
            } else if !lower_word(toks, p) {
                None
            } else {
                match type_s(toks, q) {
                    Some((ty, q2)) => if kind_is(toks, q2, TokenKind::Assign) {
                        match value_s(toks, q2 + 1, oid_typed(ty)) {
                            Some((value, q3)) => Some((mk(AssignmentKindV::Value { ty, value }), q3)),
                            None => None,
                        }
                    } else {
                        None
                    },
                    None => None,
                }
            },
            None => None,
        }
    }
}

/// Imported symbols from `q`, up to the first that no comma follows; a `{}`
/// after a symbol is passed over.
pub open spec fn symbols_s(toks: Seq<Token>, q: int) -> Option<(Seq<NameV>, int)>
    decreases toks.len() - q,
{
    if !any_word(toks, q) {
        None
    } else {
        let e = if kind_is(toks, q + 1, TokenKind::LBrace) && kind_is(toks, q + 2, TokenKind::RBrace) {
            q + 3
        } else {
            q + 1
        };
        if kind_is(toks, e, TokenKind::Comma) {
            cons_opt(tok_name(toks, q), symbols_s(toks, e + 1))
        } else {
            Some((seq![tok_name(toks, q)], e))
        }
    }
}

/// `symbols FROM module [oid | value] [WITH SUCCESSORS | WITH DESCENDANTS]` at `q`.
pub open spec fn import_clause_s(toks: Seq<Token>, q: int) -> Option<(ImportClauseV, int)> {
    match symbols_s(toks, q) {
        Some((symbols, q1)) => if !word_is(toks, q1, "FROM"@) || !any_word(toks, q1 + 1) {
            None
        } else {
            let from_module = tok_name(toks, q1 + 1);
            let q2 = q1 + 2;
            let oid: Option<(Option<Seq<OidComponentV>>, int)> = if kind_is(toks, q2, TokenKind::LBrace) {
                match oid_s(toks, q2) {
                    Some((o, q3)) => Some((Some(o), q3)),
                    None => None,
                }
            } else if lower_word(toks, q2) && !kind_is(toks, q2 + 1, TokenKind::Comma) && !word_is(
                toks,
                q2 + 1,
                "FROM"@,
            ) && !kind_is(toks, q2 + 1, TokenKind::LBrace) {
                Some((None, q2 + 1))
            } else {
                Some((None, q2))
            };
            match oid {
                Some((from_oid, q3)) => {
                    let (with, q4) = if word_is(toks, q3, "WITH"@) && word_is(toks, q3 + 1, "SUCCESSORS"@) {
                        (Some(WithClause::Successors), q3 + 2)
                    } else if word_is(toks, q3, "WITH"@) && word_is(toks, q3 + 1, "DESCENDANTS"@) {
                        (Some(WithClause::Descendants), q3 + 2)
                    } else {
                        (None, q3)
                    };
                    Some((ImportClauseV { symbols, from_module, from_oid, with }, q4))
                },
                None => None,
            }
        },
        None => None,
    }
}

/// Import clauses from `q` through the closing `;`.
pub open spec fn imports_s(toks: Seq<Token>, q: int) -> Option<(Seq<ImportClauseV>, int)>
    decreases toks.len() - q,
{
    if kind_is(toks, q, TokenKind::Semicolon) {
        Some((Seq::empty(), q + 1))
    } else {
        match import_clause_s(toks, q) {
            Some((c, e)) => if !fwd(toks, q, e) {
                None
            } else {
                cons_opt(c, imports_s(toks, e))
            },
            None => None,
        }
    }
}

/// Past the first `;` at or after `q`.
pub open spec fn semicolon_end_s(toks: Seq<Token>, q: int) -> Option<int>
    decreases toks.len() - q,
{
    if q < 0 || q >= toks.len() {
        None
    } else if toks[q].kind == TokenKind::Semicolon {
        Some(q + 1)
    } else {
        semicolon_end_s(toks, q + 1)
    }
}

/// The assignments from `q` up to `END`.
pub open spec fn assignments_s(toks: Seq<Token>, q: int) -> Option<Seq<AssignmentV>>
    decreases toks.len() - q,
{
    if word_is(toks, q, "END"@) {
        Some(Seq::empty())
    } else if q < 0 || q >= toks.len() {
        None
    } else {
        match assignment_s(toks, q) {
            Some((a, e)) => if !fwd(toks, q, e) {
                None
            } else {
                match assignments_s(toks, e) {
                    Some(rest) => Some(seq![a] + rest),
                    None => None,
                }
            },
            None => None,
        }
    }
}

/// The header of a module, from its name to `BEGIN`: the name, the object
/// identifier, the tagging, whether extensibility is implied, and the index
/// after `BEGIN`.
pub open spec fn header_s(toks: Seq<Token>) -> Option<(NameV, Option<Seq<OidComponentV>>, TagDefault, bool, int)> {
    if !any_word(toks, 0) {
        None
    } else {
        let oid: Option<(Option<Seq<OidComponentV>>, int)> = if kind_is(toks, 1, TokenKind::LBrace) {
            match oid_s(toks, 1) {
                Some((o, q)) => Some((Some(o), q)),
                None => None,
            }
        } else {
            Some((None, 1))
        };
        match oid {
            Some((o, q0)) => if !word_is(toks, q0, "DEFINITIONS"@) {
                None
            } else {
                let q1 = q0 + 1;
                let (tags, q2) = if word_is(toks, q1, "AUTOMATIC"@) && word_is(toks, q1 + 1, "TAGS"@) {
                    (TagDefault::Automatic, q1 + 2)
                } else if word_is(toks, q1, "IMPLICIT"@) && word_is(toks, q1 + 1, "TAGS"@) {
                    (TagDefault::Implicit, q1 + 2)
                } else if word_is(toks, q1, "EXPLICIT"@) && word_is(toks, q1 + 1, "TAGS"@) {
                    (TagDefault::Explicit, q1 + 2)
                } else {
                    (TagDefault::Explicit, q1)
                };
                let implied = word_is(toks, q2, "EXTENSIBILITY"@) && word_is(toks, q2 + 1, "IMPLIED"@);
                let q3 = if implied { q2 + 2 } else { q2 };
                if kind_is(toks, q3, TokenKind::Assign) && word_is(toks, q3 + 1, "BEGIN"@) {
                    Some((tok_name(toks, 0), o, tags, implied, q3 + 2))
                } else {
                    None
                }
            },
            None => None,
        }
    }
}

/// The module read from its parts, where its assignments were read.
pub open spec fn module_with(
    name: NameV,
    oid: Option<Seq<OidComponentV>>,
    tag_default: TagDefault,
    extensibility_implied: bool,
    imports: Seq<ImportClauseV>,
    assignments: Option<Seq<AssignmentV>>,
) -> Option<ModuleV> {
    match assignments {
        Some(assignments) => Some(
            ModuleV { name, oid, tag_default, extensibility_implied, imports, assignments },
        ),
        None => None,
    }
}

/// A whole module: its header, `EXPORTS ... ;`, `IMPORTS ... ;`, and the
/// assignments up to `END`. What follows `END` is not read.
pub open spec fn module_s(toks: Seq<Token>) -> Option<ModuleV> {
    match header_s(toks) {
        Some((name, oid, tag_default, extensibility_implied, q0)) => {
            let q1 = if word_is(toks, q0, "EXPORTS"@) { semicolon_end_s(toks, q0 + 1) } else { Some(q0) };
            match q1 {
                Some(q1) => {
                    let imps = if word_is(toks, q1, "IMPORTS"@) {
                        imports_s(toks, q1 + 1)
                    } else {
                        Some((Seq::empty(), q1))
                    };
                    match imps {
                        Some((imports, q2)) => module_with(
                            name,
                            oid,
                            tag_default,
                            extensibility_implied,
                            imports,
                            assignments_s(toks, q2),
                        ),
                        None => None,
                    }
                },
                None => None,
            }
        },
        None => None,
    }
}

} // verus!
