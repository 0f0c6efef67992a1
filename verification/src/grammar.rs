//! Recursive-descent parser from tokens to the concrete syntax tree.
use vstd::prelude::*;

use crate::cst::{
    Assignment, AssignmentKind, CharStringKind, ChoiceType, ClassDef, Component, Constraint, EnumItem,
    FieldRef, FieldSpec, ImportClause, Module, NamedNumber, NamedNumberValue, ObjectDef,
    ObjectFieldSetting, ObjectSet, ObjectSetElement, OidComponent, Optionality, StructMember,
    StructType, TagDefault, Type, TypeKind, Value, ValueBound, WithClause,
};
use crate::diagnostics::{ParseError, Span, Spanned};
use crate::lexer::{Token, TokenKind};
use crate::productions::{
    alternative_group_s, assignment_s, assignments_s, balanced_s, bound_s, brace_value_s,
    choice_body_s, choice_items_s, choice_step_s, class_fields_s, class_s, component_s, cons_opt,
    constraint_spec_s, cstring_text, element_s, element_set_s, enum_item_s, enum_items_s,
    enumerated_s, extended, field_path_s, field_spec_s, group_start, header_s, import_clause_s,
    imports_s, intersection_op, intersection_rest_s, intersection_s, keyword_kind_s, kind_is,
    lemma_prefix2_prefix2, lemma_prefix_cons, lemma_prefix_prefix, member_group_s, module_s,
    module_with, named_items_s, named_number_items_s, named_numbers_s, named_start, number_s,
    object_s, object_settings_s, oid_items_s, oid_s, oid_typed, optional_flag_s, other_kind_s,
    paren_constraint_s, plain_items_s, prefix2_opt, prefix_opt, radix_text, semicolon_end_s,
    seq_set_kind_s, set_items_s, signed_number_s, skip_tag_s, struct_body_s, struct_items_s,
    struct_member_s, struct_step_s, symbols_s, tok_name, token_names, type_constraints_s,
    type_keyword, type_kind_s, type_s, union_op, union_rest_s, value_s, with_names_s, word_is,
};
use crate::syntax::{
    assignment_v, assignments_v, bound_v, choice_v, component_v, components_v, constraint_v,
    constraints_v, doc_v, enum_item_v, enum_items_v, field_ref_v, field_refs_v, field_spec_v,
    field_specs_v, fields_v, import_v, imports_v, lemma_components_v_push, lemma_constraints_v_push,
    lemma_fields_v_push, lemma_members_v_push, lemma_values_v_push, member_v, members_v, module_v,
    name_v, named_number_v, named_numbers_v, names_v, object_setting_v, object_settings_v, object_v,
    oid_component_v, oid_v, opt_oid_v, set_element_v, set_elements_v, struct_v, type_kind_v, type_v,
    value_v, values_v, AssignmentV, ComponentV, ConstraintV, EnumItemV, FieldSpecV, ImportClauseV,
    NamedNumberV, NameV, ObjectFieldSettingV, ObjectSetElementV, StructMemberV,
};
use crate::text::{chars_of, push_char, str_eq};

verus! {

/// Decimal value of a run of digits.
pub open spec fn digits_value(s: Seq<char>) -> int
    decreases s.len(),
{
    if s.len() == 0 {
        0
    } else {
        digits_value(s.drop_last()) * 10 + (s.last() as int - 48)
    }
}

pub open spec fn only_digits(s: Seq<char>) -> bool {
    forall|k: int| 0 <= k < s.len() ==> '0' <= #[trigger] s[k] && s[k] <= '9'
}

proof fn lemma_digits_value_nonneg(s: Seq<char>)
    requires
        only_digits(s),
    ensures
        digits_value(s) >= 0,
    decreases s.len(),
{
    if s.len() > 0 {
        assert(only_digits(s.drop_last()));
        lemma_digits_value_nonneg(s.drop_last());
    }
}

proof fn lemma_digits_value_mono(s: Seq<char>, k: int)
    requires
        only_digits(s),
        0 <= k <= s.len(),
    ensures
        digits_value(s.take(k)) <= digits_value(s),
    decreases s.len() - k,
{
    if k < s.len() {
        let t = s.take(k + 1);
        assert(t.drop_last() =~= s.take(k));
        assert(only_digits(t));
        lemma_digits_value_nonneg(s.take(k));
        lemma_digits_value_mono(s, k + 1);
    } else {
        assert(s.take(k) =~= s);
    }
}

/// The value of the digit string `text`, or `None` when it exceeds `i128`.
pub fn digits_to_i128(text: &str) -> (r: Option<i128>)
    requires
        only_digits(text@),
    ensures
        r matches Some(v) ==> v as int == digits_value(text@) && v >= 0,
        r is None ==> digits_value(text@) > i128::MAX,
{
    let cs = chars_of(text);
    let mut v: i128 = 0;
    let mut i: usize = 0;
    while i < cs.len()
        invariant
            i <= cs@.len(),
            cs@ == text@,
            only_digits(cs@),
            v as int == digits_value(cs@.take(i as int)),
            v >= 0,
        decreases cs@.len() - i,
    {
        let d: i128 = (cs[i] as u32 - 48) as i128;
        proof {
            assert(cs@.take(i + 1).drop_last() =~= cs@.take(i as int));
        }
        if v > (i128::MAX - d) / 10 {
            proof {
                assert(digits_value(cs@.take(i + 1)) == v * 10 + d);
                assert(v * 10 + d > i128::MAX) by (nonlinear_arith)
                    requires
                        v > (i128::MAX - d) / 10,
                        0 <= d <= 9,
                ;
                lemma_digits_value_mono(cs@, i + 1);
            }
            return None;
        }
        proof {
            assert(v * 10 + d <= i128::MAX) by (nonlinear_arith)
                requires
                    v <= (i128::MAX - d) / 10,
                    0 <= d <= 9,
                    v >= 0,
            ;
        }
        v = v * 10 + d;
        i = i + 1;
    }
    assert(cs@.take(cs@.len() as int) =~= cs@);
    Some(v)
}

// ---------------------------------------------------------------------------
// Token access
// ---------------------------------------------------------------------------

fn kind_at(toks: &Vec<Token>, p: usize, k: TokenKind) -> (r: bool)
    ensures
        r == (p < toks.len() && toks@[p as int].kind == k),
{
    p < toks.len() && toks[p].kind == k
}

/// The token at `p` is the word `kw`.
fn word_at(toks: &Vec<Token>, p: usize, kw: &str) -> (r: bool)
    ensures
        r == (p < toks.len() && toks@[p as int].kind == TokenKind::Word && toks@[p as int].text@
            == kw@),
{
    p < toks.len() && toks[p].kind == TokenKind::Word && str_eq(toks[p].text.as_str(), kw)
}

fn any_word_at(toks: &Vec<Token>, p: usize) -> (r: bool)
    ensures
        r == (p < toks.len() && toks@[p as int].kind == TokenKind::Word),
{
    p < toks.len() && toks[p].kind == TokenKind::Word
}

/// An error located at token `p`, or at the last token when `p` is past the end.
fn err_at(toks: &Vec<Token>, p: usize, message: &str) -> (e: ParseError)
    ensures
        e.message@ == message@,
{
    let span = if p < toks.len() {
        toks[p].span
    } else if toks.len() > 0 {
        toks[toks.len() - 1].span
    } else {
        Span::dummy()
    };
    ParseError::new(message, span)
}

fn copy_string(s: &String) -> (r: String)
    ensures
        r@ == s@,
{
    s.clone()
}

fn copy_doc(d: &Option<String>) -> (r: Option<String>)
    ensures
        r is Some <==> d is Some,
        r matches Some(x) ==> x@ == d->0@,
{
    match d {
        Some(s) => Some(s.clone()),
        None => None,
    }
}

/// The text of token `p` with its span.
fn spanned_at(toks: &Vec<Token>, p: usize) -> (r: Spanned<String>)
    requires
        p < toks.len(),
    ensures
        r.value@ == toks@[p as int].text@,
        r.span == toks@[p as int].span,
{
    Spanned { value: copy_string(&toks[p].text), span: toks[p].span }
}

fn expect_kind(toks: &Vec<Token>, p: usize, k: TokenKind, message: &str) -> (r: Result<usize, ParseError>)
    ensures
        r matches Ok(q) ==> q == p + 1 && p < toks.len() && toks@[p as int].kind == k,
        r is Err ==> !(p < toks.len() && toks@[p as int].kind == k),
{
    if kind_at(toks, p, k) {
        Ok(p + 1)
    } else {
        Err(err_at(toks, p, message))
    }
}

fn expect_word(toks: &Vec<Token>, p: usize, kw: &str, message: &str) -> (r: Result<usize, ParseError>)
    ensures
        r matches Ok(q) ==> q == p + 1 && p < toks.len() && toks@[p as int].kind == TokenKind::Word
            && toks@[p as int].text@ == kw@,
        r is Err ==> !(p < toks.len() && toks@[p as int].kind == TokenKind::Word && toks@[p as int].text@
            == kw@),
{
    if word_at(toks, p, kw) {
        Ok(p + 1)
    } else {
        Err(err_at(toks, p, message))
    }
}

/// A word token at `p`, with its span.
fn expect_name(toks: &Vec<Token>, p: usize, message: &str) -> (r: Result<(Spanned<String>, usize), ParseError>)
    ensures
        r matches Ok((n, q)) ==> q == p + 1 && p < toks.len() && toks@[p as int].kind
            == TokenKind::Word && n.value@ == toks@[p as int].text@ && n.span == toks@[p as int].span,
        r is Err ==> !(p < toks.len() && toks@[p as int].kind == TokenKind::Word),
{
    if any_word_at(toks, p) {
        Ok((spanned_at(toks, p), p + 1))
    } else {
        Err(err_at(toks, p, message))
    }
}

fn first_char_in(s: &String, lo: char, hi: char) -> (r: bool)
    ensures
        r == (s@.len() > 0 && lo <= s@[0] && s@[0] <= hi),
{
    let t = s.as_str();
    if t.unicode_len() == 0 {
        false
    } else {
        let c = t.get_char(0);
        lo <= c && c <= hi
    }
}

/// Starts with an upper-case ASCII letter (type and module references).
fn starts_upper(s: &String) -> (r: bool)
    ensures
        r == (s@.len() > 0 && 'A' <= s@[0] && s@[0] <= 'Z'),
{
    first_char_in(s, 'A', 'Z')
}

/// Starts with a lower-case ASCII letter (value references and identifiers).
fn starts_lower(s: &String) -> (r: bool)
    ensures
        r == (s@.len() > 0 && 'a' <= s@[0] && s@[0] <= 'z'),
{
    first_char_in(s, 'a', 'z')
}

pub open spec fn is_caps_char(c: char) -> bool {
    ('A' <= c && c <= 'Z') || ('0' <= c && c <= '9') || c == '-'
}

/// Upper-case letters, digits and hyphens only, starting with a letter: the
/// shape of an information object class reference.
fn all_caps(s: &String) -> (r: bool)
    ensures
        r == (s@.len() > 0 && 'A' <= s@[0] && s@[0] <= 'Z' && forall|k: int|
            0 <= k < s@.len() ==> is_caps_char(#[trigger] s@[k])),
{
    let cs = chars_of(s.as_str());
    if cs.len() == 0 || !('A' <= cs[0] && cs[0] <= 'Z') {
        return false;
    }
    let mut i: usize = 0;
    while i < cs.len()
        invariant
            i <= cs@.len(),
            cs@ == s@,
            forall|k: int| 0 <= k < i ==> is_caps_char(#[trigger] cs@[k]),
        decreases cs@.len() - i,
    {
        let c = cs[i];
        if !(('A' <= c && c <= 'Z') || ('0' <= c && c <= '9') || c == '-') {
            return false;
        }
        i = i + 1;
    }
    true
}

/// Keywords that begin a built-in type; none of them names a class.
pub open spec fn builtin_type_word(n: Seq<char>) -> bool {
    n == "BOOLEAN"@ || n == "INTEGER"@ || n == "REAL"@ || n == "NULL"@ || n == "BIT"@ || n
        == "OCTET"@ || n == "OBJECT"@ || n == "RELATIVE-OID"@ || n == "ENUMERATED"@ || n
        == "SEQUENCE"@ || n == "SET"@ || n == "CHOICE"@ || n == "ANY"@ || n == "EXTERNAL"@ || n
        == "EMBEDDED"@ || n == "CHARACTER"@ || n == "INSTANCE"@ || n == "CLASS"@
}

fn is_builtin_type_word(s: &String) -> (r: bool)
    ensures
        r == builtin_type_word(s@),
{
    let t = s.as_str();
    str_eq(t, "BOOLEAN") || str_eq(t, "INTEGER") || str_eq(t, "REAL") || str_eq(t, "NULL")
        || str_eq(t, "BIT") || str_eq(t, "OCTET") || str_eq(t, "OBJECT") || str_eq(
        t,
        "RELATIVE-OID",
    ) || str_eq(t, "ENUMERATED") || str_eq(t, "SEQUENCE") || str_eq(t, "SET") || str_eq(
        t,
        "CHOICE",
    ) || str_eq(t, "ANY") || str_eq(t, "EXTERNAL") || str_eq(t, "EMBEDDED") || str_eq(
        t,
        "CHARACTER",
    ) || str_eq(t, "INSTANCE") || str_eq(t, "CLASS")
}

fn is_type_keyword(s: &String) -> (r: bool)
    ensures
        r == type_keyword(s@),
{
    let t = s.as_str();
    str_eq(t, "BOOLEAN") || str_eq(t, "INTEGER") || str_eq(t, "REAL") || str_eq(t, "NULL")
        || str_eq(t, "BIT") || str_eq(t, "OCTET") || str_eq(t, "OBJECT") || str_eq(t, "RELATIVE-OID")
        || str_eq(t, "UTCTime") || str_eq(t, "GeneralizedTime") || str_eq(t, "ENUMERATED")
}

/// Index just past the bracket that closes the one at `p`
/// (`open` and `close` are its token kinds).
fn skip_balanced(toks: &Vec<Token>, p: usize, open: TokenKind, close: TokenKind) -> (r: Result<usize, ParseError>)
    requires
        p < toks.len(),
        toks@[p as int].kind == open,
    ensures
        r matches Ok(q) ==> p < q <= toks.len() && balanced_s(toks@, p as int, 0, open, close) == Some(
            q as int,
        ),
        r is Err ==> balanced_s(toks@, p as int, 0, open, close) is None,
{
    let mut depth: usize = 0;
    let mut q = p;
    while q < toks.len()
        invariant
            p <= q <= toks.len(),
            p < toks.len(),
            toks@[p as int].kind == open,
            depth <= q - p,
            q > p ==> depth > 0,
            balanced_s(toks@, p as int, 0, open, close) == balanced_s(toks@, q as int, depth as int, open, close),
        decreases toks.len() - q,
    {
        if toks[q].kind == open {
            depth = depth + 1;
        } else if toks[q].kind == close {
            if depth <= 1 {
                return Ok(q + 1);
            }
            depth = depth - 1;
        }
        q = q + 1;
    }
    Err(err_at(toks, p, "unbalanced brackets"))
}

// ---------------------------------------------------------------------------
// Literals
// ---------------------------------------------------------------------------

/// `s` with each doubled quote `""` collapsed to one `"`.
pub open spec fn collapse_quotes(s: Seq<char>) -> Seq<char>
    decreases s.len(),
{
    if s.len() == 0 {
        Seq::empty()
    } else if s.len() >= 2 && s[0] == '"' && s[1] == '"' {
        seq!['"'] + collapse_quotes(s.skip(2))
    } else {
        seq![s[0]] + collapse_quotes(s.skip(1))
    }
}

/// `s` without its whitespace.
pub open spec fn strip_spaces(s: Seq<char>) -> Seq<char>
    decreases s.len(),
{
    if s.len() == 0 {
        Seq::empty()
    } else if crate::text::is_space(s.last()) {
        strip_spaces(s.drop_last())
    } else {
        strip_spaces(s.drop_last()).push(s.last())
    }
}

/// The characters of a `"..."` token between its quotes, with each doubled
/// quote collapsed to one.
fn cstring_content(text: &String) -> (r: String)
    ensures
        r@ == cstring_text(text@),
{
    let cs = chars_of(text.as_str());
    let mut out = String::new();
    if cs.len() < 2 {
        return out;
    }
    let end = cs.len() - 1;
    let ghost whole = cs@.subrange(1, end as int);
    let mut i: usize = 1;
    assert(cs@.subrange(1, end as int) =~= whole);
    while i < end
        invariant
            1 <= i <= end,
            end == cs@.len() - 1,
            cs@ == text@,
            whole == cs@.subrange(1, end as int),
            out@ + collapse_quotes(cs@.subrange(i as int, end as int)) == collapse_quotes(whole),
        decreases end - i,
    {
        let ghost rest = cs@.subrange(i as int, end as int);
        let ghost before = out@;
        let c = cs[i];
        push_char(&mut out, c);
        if c == '"' && end - i > 1 && cs[i + 1] == '"' {
            proof {
                assert(rest.skip(2) =~= cs@.subrange(i + 2, end as int));
                assert(collapse_quotes(rest) == seq!['"'] + collapse_quotes(rest.skip(2)));
                assert(out@ + collapse_quotes(rest.skip(2)) =~= before + collapse_quotes(rest));
            }
            i = i + 2;
        } else {
            proof {
                assert(rest.skip(1) =~= cs@.subrange(i + 1, end as int));
                assert(collapse_quotes(rest) == seq![c] + collapse_quotes(rest.skip(1)));
                assert(out@ + collapse_quotes(rest.skip(1)) =~= before + collapse_quotes(rest));
            }
            i = i + 1;
        }
        proof {
            assert(out@ + collapse_quotes(cs@.subrange(i as int, end as int)) == collapse_quotes(whole));
        }
    }
    proof {
        assert(cs@.subrange(end as int, end as int) =~= Seq::<char>::empty());
        assert(out@ + Seq::<char>::empty() =~= out@);
    }
    out
}

/// The digits of a `'...'B` or `'...'H` token, whitespace removed.
fn radix_content(text: &String) -> (r: String)
    ensures
        r@ == radix_text(text@),
{
    let cs = chars_of(text.as_str());
    let mut out = String::new();
    if cs.len() < 3 {
        return out;
    }
    let end = cs.len() - 2;
    let mut i: usize = 1;
    assert(cs@.subrange(1, 1) =~= Seq::<char>::empty());
    while i < end
        invariant
            1 <= i <= end,
            end == cs@.len() - 2,
            cs@ == text@,
            out@ == strip_spaces(cs@.subrange(1, i as int)),
        decreases end - i,
    {
        proof {
            assert(cs@.subrange(1, i + 1).drop_last() =~= cs@.subrange(1, i as int));
        }
        let c = cs[i];
        if !crate::text::space(c) {
            push_char(&mut out, c);
        }
        i = i + 1;
    }
    out
}

/// The number token at `p` as an `i128`.
fn number_at(toks: &Vec<Token>, p: usize) -> (r: Result<i128, ParseError>)
    requires
        p < toks.len(),
    ensures
        r matches Ok(v) ==> v >= 0 && number_s(toks@, p as int) == Some(v),
        r is Err ==> number_s(toks@, p as int) is None,
{
    if toks[p].kind != TokenKind::Number || !all_digit_chars(&toks[p].text) {
        return Err(err_at(toks, p, "expected a number"));
    }
    match digits_to_i128(toks[p].text.as_str()) {
        Some(v) => Ok(v),
        None => Err(err_at(toks, p, "number too large")),
    }
}

fn all_digit_chars(s: &String) -> (r: bool)
    ensures
        r == only_digits(s@),
{
    let cs = chars_of(s.as_str());
    let mut i: usize = 0;
    while i < cs.len()
        invariant
            i <= cs@.len(),
            cs@ == s@,
            forall|k: int| 0 <= k < i ==> '0' <= #[trigger] cs@[k] && cs@[k] <= '9',
        decreases cs@.len() - i,
    {
        if !('0' <= cs[i] && cs[i] <= '9') {
            return false;
        }
        i = i + 1;
    }
    true
}

/// A possibly negative integer literal at `p`.
fn signed_number(toks: &Vec<Token>, p: usize) -> (r: Result<(i128, usize), ParseError>)
    ensures
        r matches Ok((v, q)) ==> p < q <= toks.len() && signed_number_s(toks@, p as int) == Some(
            (v, q as int),
        ),
        r is Err ==> signed_number_s(toks@, p as int) is None,
{
    if kind_at(toks, p, TokenKind::Minus) && kind_at(toks, p + 1, TokenKind::Number) {
        let v = number_at(toks, p + 1)?;
        if v == 0 {
            Ok((0, p + 2))
        } else {
            Ok((-v, p + 2))
        }
    } else if kind_at(toks, p, TokenKind::Number) {
        let v = number_at(toks, p)?;
        Ok((v, p + 1))
    } else {
        Err(err_at(toks, p, "expected a number"))
    }
}

/// `{ arc arc ... }` of an object identifier, starting at the `{` at `p`.
fn parse_oid(toks: &Vec<Token>, p: usize) -> (r: Result<(Vec<OidComponent>, usize), ParseError>)
    ensures
        r matches Ok((cs, q)) ==> p < q <= toks.len() && oid_s(toks@, p as int) == Some(
            (oid_v(cs@), q as int),
        ),
        r is Err ==> oid_s(toks@, p as int) is None,
{
    let mut q = expect_kind(toks, p, TokenKind::LBrace, "expected `{`")?;
    let mut comps: Vec<OidComponent> = Vec::new();
    proof {
        assert(oid_v(comps@) =~= Seq::<crate::syntax::OidComponentV>::empty());
        assert(prefix_opt(oid_v(comps@), oid_items_s(toks@, q as int)) == oid_items_s(toks@, q as int)) by {
            if let Some((s0, e)) = oid_items_s(toks@, q as int) {
                assert(oid_v(comps@) + s0 =~= s0);
            }
        }
    }
    while !kind_at(toks, q, TokenKind::RBrace)
        invariant
            p < q <= toks.len(),
            oid_s(toks@, p as int) == prefix_opt(oid_v(comps@), oid_items_s(toks@, q as int)),
        decreases toks.len() - q,
    {
        if q >= toks.len() {
            return Err(err_at(toks, q, "unterminated object identifier"));
        }
        let ghost q0 = q as int;
        let ghost before = comps@;
        if toks[q].kind == TokenKind::Number {
            let v = number_at(toks, q)?;
            if v > i64::MAX as i128 {
                return Err(err_at(toks, q, "object identifier arc too large"));
            }
            let c = OidComponent { name: None, value: Some(v as i64) };
            comps.push(c);
            q = q + 1;
            proof {
                lemma_prefix_cons(oid_v(before), oid_component_v(c), oid_items_s(toks@, q as int));
                assert(oid_v(comps@) =~= oid_v(before).push(oid_component_v(c)));
            }
        } else if toks[q].kind == TokenKind::Word {
            let name = spanned_at(toks, q);
            q = q + 1;
            if kind_at(toks, q, TokenKind::LParen) && kind_at(toks, q + 1, TokenKind::Number)
                && kind_at(toks, q + 2, TokenKind::RParen) {
                let v = number_at(toks, q + 1)?;
                if v > i64::MAX as i128 {
                    return Err(err_at(toks, q + 1, "object identifier arc too large"));
                }
                let c = OidComponent { name: Some(name), value: Some(v as i64) };
                comps.push(c);
                q = q + 3;
                proof {
                    lemma_prefix_cons(oid_v(before), oid_component_v(c), oid_items_s(toks@, q as int));
                    assert(oid_v(comps@) =~= oid_v(before).push(oid_component_v(c)));
                }
            } else {
                let c = OidComponent { name: Some(name), value: None };
                comps.push(c);
                proof {
                    lemma_prefix_cons(oid_v(before), oid_component_v(c), oid_items_s(toks@, q as int));
                    assert(oid_v(comps@) =~= oid_v(before).push(oid_component_v(c)));
                }
            }
        } else {
            return Err(err_at(toks, q, "unexpected token in object identifier"));
        }
    }
    proof {
        assert(oid_v(comps@) + Seq::<crate::syntax::OidComponentV>::empty() =~= oid_v(comps@));
    }
    Ok((comps, q + 1))
}

// ---------------------------------------------------------------------------
// Values, constraints and types (mutually recursive)
// ---------------------------------------------------------------------------

/// What the type of a value lets the parser expect of a `{ ... }` value.
#[derive(Clone, Copy)]
enum ValueHint {
    ObjectIdentifier,
    General,
}

fn hint_for(t: &Type) -> (r: ValueHint)
    ensures
        (r is ObjectIdentifier) == (t.kind is ObjectIdentifier || t.kind is RelativeOid),
{
    match &t.kind {
        TypeKind::ObjectIdentifier | TypeKind::RelativeOid => ValueHint::ObjectIdentifier,
        _ => ValueHint::General,
    }
}

/// A value starting at `p`.
fn parse_value(toks: &Vec<Token>, p: usize, hint: ValueHint) -> (r: Result<(Value, usize), ParseError>)
    ensures
        r matches Ok((v, q)) ==> p < q <= toks.len() && value_s(
            toks@,
            p as int,
            hint is ObjectIdentifier,
        ) == Some((value_v(v), q as int)),
        r is Err ==> value_s(toks@, p as int, hint is ObjectIdentifier) is None,
    decreases toks.len() - p, 1nat,
{
    if p >= toks.len() {
        return Err(err_at(toks, p, "expected a value"));
    }
    let k = toks[p].kind;
    if k == TokenKind::Number || k == TokenKind::Minus {
        if k == TokenKind::Minus && kind_at(toks, p + 1, TokenKind::Real) {
            let mut s = String::new();
            push_char(&mut s, '-');
            s.append(toks[p + 1].text.as_str());
            proof {
                assert(s@ =~= seq!['-'] + toks@[p + 1].text@);
            }
            return Ok((Value::Real(s), p + 2));
        }
        let (v, q) = signed_number(toks, p)?;
        return Ok((Value::Integer(v), q));
    }
    if k == TokenKind::Real {
        return Ok((Value::Real(copy_string(&toks[p].text)), p + 1));
    }
    if k == TokenKind::CString {
        return Ok((Value::String(cstring_content(&toks[p].text)), p + 1));
    }
    if k == TokenKind::BString {
        return Ok((Value::BString(radix_content(&toks[p].text)), p + 1));
    }
    if k == TokenKind::HString {
        return Ok((Value::HString(radix_content(&toks[p].text)), p + 1));
    }
    if k == TokenKind::LBrace {
        return match hint {
            ValueHint::ObjectIdentifier => {
                let (comps, q) = parse_oid(toks, p)?;
                Ok((Value::Oid(comps), q))
            },
            ValueHint::General => match parse_brace_value(toks, p) {
                Ok(r) => Ok(r),
                Err(e) => match parse_oid(toks, p) {
                    Ok((comps, q)) => Ok((Value::Oid(comps), q)),
                    Err(_) => Err(e),
                },
            },
        };
    }
    if k == TokenKind::Word {
        if word_at(toks, p, "TRUE") {
            return Ok((Value::Boolean(true), p + 1));
        }
        if word_at(toks, p, "FALSE") {
            return Ok((Value::Boolean(false), p + 1));
        }
        if word_at(toks, p, "NULL") {
            return Ok((Value::Null, p + 1));
        }
        if word_at(toks, p, "PLUS-INFINITY") || word_at(toks, p, "MINUS-INFINITY") {
            return Ok((Value::Real(copy_string(&toks[p].text)), p + 1));
        }
        let name = spanned_at(toks, p);
        if kind_at(toks, p + 1, TokenKind::Colon) {
            let (inner, q) = parse_value(toks, p + 2, ValueHint::General)?;
            return Ok((Value::Choice(name, Box::new(inner)), q));
        }
        if kind_at(toks, p + 1, TokenKind::Dot) && any_word_at(toks, p + 2) {
            return Ok((Value::Reference(spanned_at(toks, p + 2)), p + 3));
        }
        return Ok((Value::Reference(name), p + 1));
    }
    Err(err_at(toks, p, "expected a value"))
}

/// `{ ... }` holding either named values (`{ a 1, b 2 }`) or plain values
/// (`{ "a", "b" }`).
fn parse_brace_value(toks: &Vec<Token>, p: usize) -> (r: Result<(Value, usize), ParseError>)
    ensures
        r matches Ok((v, q)) ==> p < q <= toks.len() && brace_value_s(toks@, p as int) == Some(
            (value_v(v), q as int),
        ),
        r is Err ==> brace_value_s(toks@, p as int) is None,
    decreases toks.len() - p, 0nat,
{
    let mut q = expect_kind(toks, p, TokenKind::LBrace, "expected `{`")?;
    let mut named: Vec<(Spanned<String>, Value)> = Vec::new();
    let mut plain: Vec<Value> = Vec::new();
    if kind_at(toks, q, TokenKind::RBrace) {
        proof {
            assert(values_v(plain@) =~= Seq::<crate::syntax::ValueV>::empty());
        }
        return Ok((Value::SequenceOf(plain), q + 1));
    }
    let is_named = any_word_at(toks, q) && starts_lower(&toks[q].text) && toks.len() - q > 1
        && toks[q + 1].kind != TokenKind::Comma && toks[q + 1].kind != TokenKind::RBrace
        && toks[q + 1].kind != TokenKind::Colon && toks[q + 1].kind != TokenKind::LParen
        && toks[q + 1].kind != TokenKind::Dot;
    proof {
        assert(is_named == named_start(toks@, q as int));
        assert(fields_v(named@) =~= Seq::<(crate::syntax::NameV, crate::syntax::ValueV)>::empty());
        assert(values_v(plain@) =~= Seq::<crate::syntax::ValueV>::empty());
        if let Some((s0, e)) = named_items_s(toks@, q as int) {
            assert(fields_v(named@) + s0 =~= s0);
        }
        if let Some((s0, e)) = plain_items_s(toks@, q as int) {
            assert(values_v(plain@) + s0 =~= s0);
        }
    }
    loop
        invariant_except_break
            p < q <= toks.len(),
            is_named == named_start(toks@, p + 1),
            !kind_is(toks@, p + 1, TokenKind::RBrace),
            is_named ==> named_items_s(toks@, p + 1) == prefix_opt(
                fields_v(named@),
                named_items_s(toks@, q as int),
            ),
            !is_named ==> plain_items_s(toks@, p + 1) == prefix_opt(
                values_v(plain@),
                plain_items_s(toks@, q as int),
            ),
            toks@[p as int].kind == TokenKind::LBrace,
        ensures
            p < q < toks.len(),
            is_named == named_start(toks@, p + 1),
            !kind_is(toks@, p + 1, TokenKind::RBrace),
            toks@[p as int].kind == TokenKind::LBrace,
            is_named ==> named_items_s(toks@, p + 1) == Some((fields_v(named@), q + 1)),
            !is_named ==> plain_items_s(toks@, p + 1) == Some((values_v(plain@), q + 1)),
            toks@[q as int].kind == TokenKind::RBrace,
        decreases toks.len() - q,
    {
        let ghost q0 = q as int;
        if is_named {
            let ghost before = named@;
            let (n, q1) = expect_name(toks, q, "expected a component name")?;
            let (v, q2) = parse_value(toks, q1, ValueHint::General)?;
            named.push((n, v));
            proof {
                lemma_fields_v_push(before, (n, v));
            }
            q = q2;
            if kind_at(toks, q, TokenKind::Comma) {
                proof {
                    lemma_prefix_cons(
                        fields_v(before),
                        (name_v(n), value_v(v)),
                        named_items_s(toks@, q + 1),
                    );
                }
                q = q + 1;
            } else if kind_at(toks, q, TokenKind::RBrace) {
                proof {
                    assert(fields_v(before) + seq![(name_v(n), value_v(v))] =~= fields_v(named@));
                }
                break ;
            } else {
                return Err(err_at(toks, q, "expected `,` or `}`"));
            }
        } else {
            let ghost before = plain@;
            let (v, q2) = parse_value(toks, q, ValueHint::General)?;
            plain.push(v);
            proof {
                lemma_values_v_push(before, v);
            }
            q = q2;
            if kind_at(toks, q, TokenKind::Comma) {
                proof {
                    lemma_prefix_cons(values_v(before), value_v(v), plain_items_s(toks@, q + 1));
                }
                q = q + 1;
            } else if kind_at(toks, q, TokenKind::RBrace) {
                proof {
                    assert(values_v(before) + seq![value_v(v)] =~= values_v(plain@));
                }
                break ;
            } else {
                return Err(err_at(toks, q, "expected `,` or `}`"));
            }
        }
    }
    let q = expect_kind(toks, q, TokenKind::RBrace, "expected `}`")?;
    if is_named {
        Ok((Value::Sequence(named), q))
    } else {
        Ok((Value::SequenceOf(plain), q))
    }
}

/// A bound of a value range.
fn parse_bound(toks: &Vec<Token>, p: usize) -> (r: Result<(ValueBound, usize), ParseError>)
    ensures
        r matches Ok((b, q)) ==> p < q <= toks.len() && bound_s(toks@, p as int) == Some(
            (bound_v(b), q as int),
        ),
        r is Err ==> bound_s(toks@, p as int) is None,
{
    if word_at(toks, p, "MIN") {
        Ok((ValueBound::Min, p + 1))
    } else if word_at(toks, p, "MAX") {
        Ok((ValueBound::Max, p + 1))
    } else {
        let (v, q) = parse_value(toks, p, ValueHint::General)?;
        Ok((ValueBound::Value(v), q))
    }
}

/// One constraint element: a range, a single value, `SIZE (...)`, etc.
#[verifier::rlimit(60)]
fn parse_element(toks: &Vec<Token>, p: usize) -> (r: Result<(Constraint, usize), ParseError>)
    ensures
        r matches Ok((c, q)) ==> p < q <= toks.len() && element_s(toks@, p as int) == Some(
            (constraint_v(c), q as int),
        ),
        r is Err ==> element_s(toks@, p as int) is None,
    decreases toks.len() - p, 3nat,
{
    if p >= toks.len() {
        return Err(err_at(toks, p, "expected a constraint"));
    }
    if word_at(toks, p, "SIZE") {
        let (inner, q) = parse_paren_constraint(toks, p + 1)?;
        return Ok((Constraint::Size(Box::new(inner)), q));
    }
    if word_at(toks, p, "PATTERN") {
        if kind_at(toks, p + 1, TokenKind::CString) {
            return Ok((Constraint::Pattern(cstring_content(&toks[p + 1].text)), p + 2));
        }
        return Err(err_at(toks, p + 1, "expected a pattern string"));
    }
    if word_at(toks, p, "CONTAINING") {
        let (t, q) = parse_type(toks, p + 1)?;
        let mut q = q;
        if word_at(toks, q, "ENCODED") && word_at(toks, q + 1, "BY") {
            let (_, q2) = parse_value(toks, q + 2, ValueHint::ObjectIdentifier)?;
            q = q2;
        }
        return Ok((Constraint::ContainedSubtype(Box::new(t)), q));
    }
    if word_at(toks, p, "INCLUDES") {
        let (t, q) = parse_type(toks, p + 1)?;
        return Ok((Constraint::ContainedSubtype(Box::new(t)), q));
    }
    if word_at(toks, p, "WITH") && (word_at(toks, p + 1, "COMPONENTS") || word_at(
        toks,
        p + 1,
        "COMPONENT",
    )) {
        if !kind_at(toks, p + 2, TokenKind::LBrace) {
            return Err(err_at(toks, p + 2, "expected `{`"));
        }
        let end = skip_balanced(toks, p + 2, TokenKind::LBrace, TokenKind::RBrace)?;
        let mut names: Vec<Spanned<String>> = Vec::new();
        let mut q = p + 3;
        let mut depth: usize = 0;
        proof {
            assert(names_v(names@) + with_names_s(toks@, q as int, end as int, 0) =~= with_names_s(
                toks@,
                q as int,
                end as int,
                0,
            ));
        }
        while q < end
            invariant
                end <= toks.len(),
                q >= 1,
                p + 3 <= q,
                names_v(names@) + with_names_s(toks@, q as int, end as int, depth as int) == with_names_s(
                    toks@,
                    p + 3,
                    end as int,
                    0,
                ),
            decreases end - q,
        {
            let ghost before = names@;
            let ghost d0 = depth as int;
            let kk = toks[q].kind;
            if kk == TokenKind::LBrace || kk == TokenKind::LParen {
                depth = if depth < usize::MAX { depth + 1 } else { depth };
            } else if kk == TokenKind::RBrace || kk == TokenKind::RParen {
                depth = if depth > 0 { depth - 1 } else { 0 };
            } else if depth == 0 && kk == TokenKind::Word && starts_lower(&toks[q].text) && (kind_at(
                toks,
                q - 1,
                TokenKind::LBrace,
            ) || kind_at(toks, q - 1, TokenKind::Comma)) {
                let n = spanned_at(toks, q);
                names.push(n);
                proof {
                    assert(names_v(names@) =~= names_v(before).push(name_v(n)));
                    assert(names_v(before) + (seq![name_v(n)] + with_names_s(toks@, q + 1, end as int, d0))
                        =~= names_v(names@) + with_names_s(toks@, q + 1, end as int, d0));
                }
            }
            q = q + 1;
        }
        proof {
            assert(names_v(names@) + Seq::<NameV>::empty() =~= names_v(names@));
        }
        return Ok((Constraint::WithComponents(names), end));
    }
    if word_at(toks, p, "FROM") {
        if kind_at(toks, p + 1, TokenKind::LParen) {
            let q = skip_balanced(toks, p + 1, TokenKind::LParen, TokenKind::RParen)?;
            return Ok((Constraint::Opaque, q));
        }
        return Err(err_at(toks, p + 1, "expected `(`"));
    }
    if kind_at(toks, p, TokenKind::LParen) {
        return parse_paren_constraint(toks, p);
    }
    if kind_at(toks, p, TokenKind::LBrace) {
        if any_word_at(toks, p + 1) && kind_at(toks, p + 2, TokenKind::RBrace) {
            return Ok((Constraint::ObjectSet(spanned_at(toks, p + 1)), p + 3));
        }
        return Err(err_at(toks, p, "unsupported constraint"));
    }
    let (lower, q) = parse_bound(toks, p)?;
    let mut q = q;
    if kind_at(toks, q, TokenKind::Less) {
        q = q + 1;
    }
    if kind_at(toks, q, TokenKind::DotDot) {
        q = q + 1;
        if kind_at(toks, q, TokenKind::Less) {
            q = q + 1;
        }
        let (upper, q2) = parse_bound(toks, q)?;
        return Ok((Constraint::ValueRange { lower, upper, extensible: false }, q2));
    }
    match lower {
        ValueBound::Value(v) => Ok((Constraint::SingleValue(v), q)),
        _ => Err(err_at(toks, q, "expected `..`")),
    }
}

fn is_intersection_op(toks: &Vec<Token>, p: usize) -> (r: bool)
    ensures
        r ==> p < toks.len(),
        r == intersection_op(toks@, p as int),
{
    kind_at(toks, p, TokenKind::Caret) || word_at(toks, p, "INTERSECTION")
}

fn is_union_op(toks: &Vec<Token>, p: usize) -> (r: bool)
    ensures
        r ==> p < toks.len(),
        r == union_op(toks@, p as int),
{
    kind_at(toks, p, TokenKind::Pipe) || word_at(toks, p, "UNION")
}

/// Elements joined by `^` / `INTERSECTION`.
fn parse_intersection(toks: &Vec<Token>, p: usize) -> (r: Result<(Constraint, usize), ParseError>)
    ensures
        r matches Ok((c, q)) ==> p < q <= toks.len() && intersection_s(toks@, p as int) == Some(
            (constraint_v(c), q as int),
        ),
        r is Err ==> intersection_s(toks@, p as int) is None,
    decreases toks.len() - p, 4nat,
{
    let (first, q0) = parse_element(toks, p)?;
    if !is_intersection_op(toks, q0) {
        return Ok((first, q0));
    }
    let ghost fv = constraint_v(first);
    let mut items: Vec<Constraint> = Vec::new();
    items.push(first);
    let mut q = q0;
    proof {
        lemma_constraints_v_push(Seq::empty(), first);
        assert(constraints_v(items@) =~= seq![fv]);
    }
    while is_intersection_op(toks, q)
        invariant
            p < q0 <= q <= toks.len(),
            intersection_op(toks@, q0 as int),
            element_s(toks@, p as int) == Some((fv, q0 as int)),
            prefix_opt(seq![fv], intersection_rest_s(toks@, q0 as int)) == prefix_opt(
                constraints_v(items@),
                intersection_rest_s(toks@, q as int),
            ),
        decreases toks.len() - q,
    {
        let ghost before = items@;
        let (e, q2) = parse_element(toks, q + 1)?;
        items.push(e);
        proof {
            lemma_constraints_v_push(before, e);
            lemma_prefix_cons(constraints_v(before), constraint_v(e), intersection_rest_s(toks@, q2 as int));
        }
        q = q2;
    }
    Ok((Constraint::Intersection(items), q))
}

/// Intersections joined by `|` / `UNION`.
fn parse_element_set(toks: &Vec<Token>, p: usize) -> (r: Result<(Constraint, usize), ParseError>)
    ensures
        r matches Ok((c, q)) ==> p < q <= toks.len() && element_set_s(toks@, p as int) == Some(
            (constraint_v(c), q as int),
        ),
        r is Err ==> element_set_s(toks@, p as int) is None,
    decreases toks.len() - p, 5nat,
{
    let (first, q0) = parse_intersection(toks, p)?;
    if !is_union_op(toks, q0) {
        return Ok((first, q0));
    }
    let ghost fv = constraint_v(first);
    let mut items: Vec<Constraint> = Vec::new();
    items.push(first);
    let mut q = q0;
    proof {
        lemma_constraints_v_push(Seq::empty(), first);
        assert(constraints_v(items@) =~= seq![fv]);
    }
    while is_union_op(toks, q)
        invariant
            p < q0 <= q <= toks.len(),
            union_op(toks@, q0 as int),
            intersection_s(toks@, p as int) == Some((fv, q0 as int)),
            prefix_opt(seq![fv], union_rest_s(toks@, q0 as int)) == prefix_opt(
                constraints_v(items@),
                union_rest_s(toks@, q as int),
            ),
        decreases toks.len() - q,
    {
        let ghost before = items@;
        let (e, q2) = parse_intersection(toks, q + 1)?;
        items.push(e);
        proof {
            lemma_constraints_v_push(before, e);
            lemma_prefix_cons(constraints_v(before), constraint_v(e), union_rest_s(toks@, q2 as int));
        }
        q = q2;
    }
    Ok((Constraint::Union(items), q))
}

/// A constraint specification: an element set, possibly followed by `, ...`
/// and further additions.
#[verifier::rlimit(40)]
fn parse_constraint_spec(toks: &Vec<Token>, p: usize) -> (r: Result<(Constraint, usize), ParseError>)
    ensures
        r matches Ok((c, q)) ==> p < q <= toks.len() && constraint_spec_s(toks@, p as int) == Some(
            (constraint_v(c), q as int),
        ),
        r is Err ==> constraint_spec_s(toks@, p as int) is None,
    decreases toks.len() - p, 6nat,
{
    if kind_at(toks, p, TokenKind::Ellipsis) {
        assert(constraint_v(Constraint::Opaque) == ConstraintV::Opaque);
        return Ok((Constraint::Extensible(Box::new(Constraint::Opaque)), p + 1));
    }
    let (root, q0) = parse_element_set(toks, p)?;
    if kind_at(toks, q0, TokenKind::Comma) && kind_at(toks, q0 + 1, TokenKind::Ellipsis) {
        let mut q = q0 + 2;
        if kind_at(toks, q, TokenKind::Comma) {
            let (_, q2) = parse_element_set(toks, q + 1)?;
            q = q2;
        }
        let ghost rv = constraint_v(root);
        let c = match root {
            Constraint::ValueRange { lower, upper, .. } => {
                let c = Constraint::ValueRange { lower, upper, extensible: true };
                assert(constraint_v(c) == extended(rv));
                c
            },
            other => {
                let c = Constraint::Extensible(Box::new(other));
                assert(constraint_v(c) == extended(rv));
                c
            },
        };
        return Ok((c, q));
    }
    Ok((root, q0))
}

/// `( constraint )` starting at the `(` at `p`. A constraint this parser does
/// not model is kept as [`Constraint::Opaque`].
fn parse_paren_constraint(toks: &Vec<Token>, p: usize) -> (r: Result<(Constraint, usize), ParseError>)
    ensures
        r matches Ok((c, q)) ==> p < q <= toks.len() && paren_constraint_s(toks@, p as int) == Some(
            (constraint_v(c), q as int),
        ),
        r is Err ==> paren_constraint_s(toks@, p as int) is None,
    decreases toks.len() - p, 2nat,
{
    if !kind_at(toks, p, TokenKind::LParen) {
        return Err(err_at(toks, p, "expected `(`"));
    }
    match parse_constraint_spec(toks, p + 1) {
        Ok((c, q)) => {
            let mut q = q;
            if kind_at(toks, q, TokenKind::LBrace) {
                q = skip_balanced(toks, q, TokenKind::LBrace, TokenKind::RBrace)?;
            }
            if kind_at(toks, q, TokenKind::RParen) {
                return Ok((c, q + 1));
            }
        },
        Err(_) => {},
    }
    let q = skip_balanced(toks, p, TokenKind::LParen, TokenKind::RParen)?;
    Ok((Constraint::Opaque, q))
}

/// The character string type a keyword names.
pub open spec fn char_kind_named(n: Seq<char>) -> Option<CharStringKind> {
    if n == "UTF8String"@ {
        Some(CharStringKind::Utf8)
    } else if n == "IA5String"@ {
        Some(CharStringKind::Ia5)
    } else if n == "PrintableString"@ {
        Some(CharStringKind::Printable)
    } else if n == "NumericString"@ {
        Some(CharStringKind::Numeric)
    } else if n == "VisibleString"@ {
        Some(CharStringKind::Visible)
    } else if n == "BMPString"@ {
        Some(CharStringKind::Bmp)
    } else if n == "UniversalString"@ {
        Some(CharStringKind::Universal)
    } else if n == "GeneralString"@ {
        Some(CharStringKind::General)
    } else if n == "GraphicString"@ {
        Some(CharStringKind::Graphic)
    } else if n == "TeletexString"@ {
        Some(CharStringKind::Teletex)
    } else if n == "T61String"@ {
        Some(CharStringKind::T61)
    } else if n == "VideotexString"@ {
        Some(CharStringKind::Videotex)
    } else if n == "ISO646String"@ {
        Some(CharStringKind::Iso646)
    } else {
        None
    }
}

fn char_string_kind(s: &String) -> (r: Option<CharStringKind>)
    ensures
        r == char_kind_named(s@),
{
    let t = s.as_str();
    if str_eq(t, "UTF8String") {
        Some(CharStringKind::Utf8)
    } else if str_eq(t, "IA5String") {
        Some(CharStringKind::Ia5)
    } else if str_eq(t, "PrintableString") {
        Some(CharStringKind::Printable)
    } else if str_eq(t, "NumericString") {
        Some(CharStringKind::Numeric)
    } else if str_eq(t, "VisibleString") {
        Some(CharStringKind::Visible)
    } else if str_eq(t, "BMPString") {
        Some(CharStringKind::Bmp)
    } else if str_eq(t, "UniversalString") {
        Some(CharStringKind::Universal)
    } else if str_eq(t, "GeneralString") {
        Some(CharStringKind::General)
    } else if str_eq(t, "GraphicString") {
        Some(CharStringKind::Graphic)
    } else if str_eq(t, "TeletexString") {
        Some(CharStringKind::Teletex)
    } else if str_eq(t, "T61String") {
        Some(CharStringKind::T61)
    } else if str_eq(t, "VideotexString") {
        Some(CharStringKind::Videotex)
    } else if str_eq(t, "ISO646String") {
        Some(CharStringKind::Iso646)
    } else {
        None
    }
}

/// `{ name(number), ... }` of an INTEGER or BIT STRING type, starting at `{`.
fn parse_named_numbers(toks: &Vec<Token>, p: usize) -> (r: Result<(Vec<NamedNumber>, usize), ParseError>)
    ensures
        r matches Ok((ns, q)) ==> p < q <= toks.len() && named_numbers_s(toks@, p as int) == Some(
            (named_numbers_v(ns@), q as int),
        ),
        r is Err ==> named_numbers_s(toks@, p as int) is None,
{
    let mut q = expect_kind(toks, p, TokenKind::LBrace, "expected `{`")?;
    let mut out: Vec<NamedNumber> = Vec::new();
    proof {
        assert(named_numbers_v(out@) =~= Seq::<NamedNumberV>::empty());
        if let Some((s0, e)) = named_number_items_s(toks@, q as int) {
            assert(named_numbers_v(out@) + s0 =~= s0);
        }
    }
    loop
        invariant_except_break
            p < q <= toks.len(),
            named_numbers_s(toks@, p as int) == prefix_opt(
                named_numbers_v(out@),
                named_number_items_s(toks@, q as int),
            ),
        ensures
            p < q <= toks.len(),
            kind_is(toks@, q as int, TokenKind::RBrace) ==> named_numbers_s(toks@, p as int) == Some(
                (named_numbers_v(out@), q + 1),
            ),
            !kind_is(toks@, q as int, TokenKind::RBrace) ==> named_numbers_s(toks@, p as int) is None,
        decreases toks.len() - q,
    {
        let ghost q0 = q as int;
        let ghost before = out@;
        let ghost mut step: Seq<NamedNumberV> = Seq::empty();
        if kind_at(toks, q, TokenKind::Ellipsis) {
            q = q + 1;
        } else {
            let (name, q1) = expect_name(toks, q, "expected a named number")?;
            let q2 = expect_kind(toks, q1, TokenKind::LParen, "expected `(`")?;
            let (value, q3) = if any_word_at(toks, q2) {
                (NamedNumberValue::Reference(spanned_at(toks, q2)), q2 + 1)
            } else {
                let (v, q3) = signed_number(toks, q2)?;
                (NamedNumberValue::Literal(v), q3)
            };
            let q4 = expect_kind(toks, q3, TokenKind::RParen, "expected `)`")?;
            let nn = NamedNumber { name, value };
            out.push(nn);
            proof {
                step = seq![named_number_v(nn)];
            }
            q = q4;
        }
        proof {
            assert(named_numbers_v(out@) =~= named_numbers_v(before) + step);
        }
        if kind_at(toks, q, TokenKind::Comma) {
            proof {
                lemma_prefix_prefix(named_numbers_v(before), step, named_number_items_s(toks@, q + 1));
            }
            q = q + 1;
        } else {
            break ;
        }
    }
    let q = expect_kind(toks, q, TokenKind::RBrace, "expected `}`")?;
    Ok((out, q))
}

/// One `name [(number)]` item of an ENUMERATED type.
fn parse_enum_item(toks: &Vec<Token>, p: usize) -> (r: Result<(EnumItem, usize), ParseError>)
    ensures
        r matches Ok((it, q)) ==> p < q <= toks.len() && enum_item_s(toks@, p as int) == Some(
            (enum_item_v(it), q as int),
        ),
        r is Err ==> enum_item_s(toks@, p as int) is None,
{
    let (name, q) = expect_name(toks, p, "expected an enumeration item")?;
    let doc = copy_doc(&toks[p].doc);
    proof {
        assert(doc_v(doc) == doc_v(toks@[p as int].doc));
    }
    if kind_at(toks, q, TokenKind::LParen) {
        let (v, q2) = signed_number(toks, q + 1)?;
        let q3 = expect_kind(toks, q2, TokenKind::RParen, "expected `)`")?;
        Ok((EnumItem { doc, name, value: Some(v) }, q3))
    } else {
        Ok((EnumItem { doc, name, value: None }, q))
    }
}

/// `{ items [, ... [, items]] }` of an ENUMERATED type, starting at `{`.
fn parse_enumerated(toks: &Vec<Token>, p: usize) -> (r: Result<(TypeKind, usize), ParseError>)
    ensures
        r matches Ok((k, q)) ==> p < q <= toks.len() && enumerated_s(toks@, p as int) == Some(
            (type_kind_v(k), q as int),
        ),
        r is Err ==> enumerated_s(toks@, p as int) is None,
{
    let mut q = expect_kind(toks, p, TokenKind::LBrace, "expected `{`")?;
    let mut items: Vec<EnumItem> = Vec::new();
    let mut extension_items: Vec<EnumItem> = Vec::new();
    let mut extensible = false;
    proof {
        assert(enum_items_v(items@) =~= Seq::<EnumItemV>::empty());
        if let Some((c0, a0, x0, e0)) = enum_items_s(toks@, q as int, false) {
            assert(enum_items_v(items@) + c0 =~= c0);
            assert(enum_items_v(extension_items@) + a0 =~= a0);
        }
    }
    loop
        invariant_except_break
            p < q <= toks.len(),
            enum_items_s(toks@, p + 1, false) == prefix2_opt(
                enum_items_v(items@),
                enum_items_v(extension_items@),
                enum_items_s(toks@, q as int, extensible),
            ),
        ensures
            p < q <= toks.len(),
            kind_is(toks@, q as int, TokenKind::RBrace) ==> enum_items_s(toks@, p + 1, false) == Some(
                (enum_items_v(items@), enum_items_v(extension_items@), extensible, q + 1),
            ),
            !kind_is(toks@, q as int, TokenKind::RBrace) ==> enum_items_s(toks@, p + 1, false) is None,
        decreases toks.len() - q,
    {
        let ghost ext0 = extensible;
        let ghost before_c = items@;
        let ghost before_a = extension_items@;
        let ghost mut root: Seq<EnumItemV> = Seq::empty();
        let ghost mut added: Seq<EnumItemV> = Seq::empty();
        if kind_at(toks, q, TokenKind::Ellipsis) {
            extensible = true;
            q = q + 1;
            if kind_at(toks, q, TokenKind::Bang) {
                let (_, q2) = signed_number(toks, q + 1)?;
                q = q2;
            }
        } else {
            let (item, q2) = parse_enum_item(toks, q)?;
            if extensible {
                extension_items.push(item);
                proof {
                    added = seq![enum_item_v(item)];
                }
            } else {
                items.push(item);
                proof {
                    root = seq![enum_item_v(item)];
                }
            }
            q = q2;
        }
        proof {
            assert(enum_items_v(items@) =~= enum_items_v(before_c) + root);
            assert(enum_items_v(extension_items@) =~= enum_items_v(before_a) + added);
        }
        if kind_at(toks, q, TokenKind::Comma) {
            proof {
                lemma_prefix2_prefix2(
                    enum_items_v(before_c),
                    enum_items_v(before_a),
                    root,
                    added,
                    enum_items_s(toks@, q + 1, extensible),
                );
            }
            q = q + 1;
        } else {
            break ;
        }
    }
    let q = expect_kind(toks, q, TokenKind::RBrace, "expected `}`")?;
    Ok((TypeKind::Enumerated { items, extensible, extension_items }, q))
}

/// `&name(.&name)*`, starting at the first `&`.
fn parse_field_path(toks: &Vec<Token>, p: usize) -> (r: Result<(Vec<FieldRef>, usize), ParseError>)
    requires
        p <= toks.len(),
    ensures
        r matches Ok((path, q)) ==> p < q <= toks.len() && field_path_s(toks@, p as int) == Some(
            (field_refs_v(path@), q as int),
        ),
        r is Err ==> field_path_s(toks@, p as int) is None,
{
    let mut path: Vec<FieldRef> = Vec::new();
    let mut q = p;
    proof {
        if let Some((s0, e0)) = field_path_s(toks@, q as int) {
            assert(field_refs_v(path@) + s0 =~= s0);
        }
    }
    loop
        invariant_except_break
            p <= q <= toks.len(),
            field_path_s(toks@, p as int) == prefix_opt(field_refs_v(path@), field_path_s(toks@, q as int)),
        ensures
            p < q <= toks.len(),
            field_path_s(toks@, p as int) == Some((field_refs_v(path@), q as int)),
        decreases toks.len() - q,
    {
        let ghost before = path@;
        let q1 = expect_kind(toks, q, TokenKind::Amp, "expected `&`")?;
        let (name, q2) = expect_name(toks, q1, "expected a field name")?;
        let fr = if starts_upper(&name.value) {
            FieldRef::Type(name)
        } else {
            FieldRef::Value(name)
        };
        path.push(fr);
        proof {
            assert(field_refs_v(path@) =~= field_refs_v(before).push(field_ref_v(fr)));
        }
        q = q2;
        if kind_at(toks, q, TokenKind::Dot) && kind_at(toks, q + 1, TokenKind::Amp) {
            proof {
                lemma_prefix_cons(field_refs_v(before), field_ref_v(fr), field_path_s(toks@, q + 1));
            }
            q = q + 1;
        } else {
            proof {
                assert(field_refs_v(before) + seq![field_ref_v(fr)] =~= field_refs_v(path@));
            }
            break ;
        }
    }
    Ok((path, q))
}

/// One member of a SEQUENCE or SET body: `name Type [OPTIONAL | DEFAULT v]`
/// or `COMPONENTS OF Type`.
fn parse_struct_member(toks: &Vec<Token>, p: usize) -> (r: Result<(StructMember, usize), ParseError>)
    ensures
        r matches Ok((m, q)) ==> p < q <= toks.len() && struct_member_s(toks@, p as int) == Some(
            (member_v(m), q as int),
        ),
        r is Err ==> struct_member_s(toks@, p as int) is None,
    decreases toks.len() - p, 8nat,
{
    if word_at(toks, p, "COMPONENTS") && word_at(toks, p + 1, "OF") {
        let (ty, q) = parse_type(toks, p + 2)?;
        return Ok((StructMember::ComponentsOf { ty }, q));
    }
    let (c, q) = parse_component(toks, p)?;
    Ok((StructMember::Named(c), q))
}

/// `name Type [OPTIONAL | DEFAULT value]`.
fn parse_component(toks: &Vec<Token>, p: usize) -> (r: Result<(Component, usize), ParseError>)
    ensures
        r matches Ok((c, q)) ==> p < q <= toks.len() && component_s(toks@, p as int) == Some(
            (component_v(c), q as int),
        ),
        r is Err ==> component_s(toks@, p as int) is None,
    decreases toks.len() - p, 7nat,
{
    let (name, q) = expect_name(toks, p, "expected a component name")?;
    let doc = copy_doc(&toks[p].doc);
    proof {
        assert(doc_v(doc) == doc_v(toks@[p as int].doc));
    }
    let (ty, q) = parse_type(toks, q)?;
    if word_at(toks, q, "OPTIONAL") {
        return Ok((Component { doc, name, ty, optionality: Optionality::Optional }, q + 1));
    }
    if word_at(toks, q, "DEFAULT") {
        let hint = hint_for(&ty);
        proof {
            assert((hint is ObjectIdentifier) == oid_typed(type_v(ty)));
        }
        let (v, q2) = parse_value(toks, q + 1, hint)?;
        return Ok((Component { doc, name, ty, optionality: Optionality::Default(v) }, q2));
    }
    Ok((Component { doc, name, ty, optionality: Optionality::Required }, q))
}

/// One step of a SEQUENCE or SET body at `q` (see [`struct_step_s`]): root items are
/// appended to `root`, additions to `added`; returns the index after the step
/// and the new `ext` and `inx`.
fn parse_struct_step(
    toks: &Vec<Token>,
    q: usize,
    ext: bool,
    inx: bool,
    root: &mut Vec<StructMember>,
    added: &mut Vec<StructMember>,
) -> (res: Result<(usize, bool, bool, Ghost<(Seq<StructMemberV>, Seq<StructMemberV>)>), ParseError>)
    requires
        q < toks.len(),
    ensures
        res matches Ok((e, x, i, g)) ==> q < e <= toks.len() && struct_step_s(toks@, q as int, ext, inx)
            == Some((g@.0, g@.1, x, i, e as int)) && members_v(final(root)@) == members_v(old(root)@) + g@.0
            && members_v(final(added)@) == members_v(old(added)@) + g@.1,
        res is Err ==> struct_step_s(toks@, q as int, ext, inx) is None,
    decreases toks.len() - q, 9nat,
{
    let ghost before_c = root@;
    let ghost before_a = added@;
    if kind_at(toks, q, TokenKind::Ellipsis) {
        let mut e = q + 1;
        if kind_at(toks, e, TokenKind::Bang) {
            let (_, q2) = parse_value(toks, e + 1, ValueHint::General)?;
            e = q2;
        }
        proof {
            assert(members_v(root@) =~= members_v(before_c) + Seq::<StructMemberV>::empty());
            assert(members_v(added@) =~= members_v(before_a) + Seq::<StructMemberV>::empty());
        }
        return Ok((e, true, !ext, Ghost((Seq::empty(), Seq::empty()))));
    }
    if kind_at(toks, q, TokenKind::LBracket) && kind_at(toks, q + 1, TokenKind::LBracket) {
        let mut r = q + 2;
        if kind_at(toks, r, TokenKind::Number) && kind_at(toks, r + 1, TokenKind::Colon) {
            r = r + 2;
        }
        proof {
            assert(r as int == group_start(toks@, q as int));
        }
        let (r2, g) = parse_member_group(toks, r, added)?;
        let r3 = expect_kind(toks, r2, TokenKind::RBracket, "expected `]]`")?;
        let r4 = expect_kind(toks, r3, TokenKind::RBracket, "expected `]]`")?;
        proof {
            assert(members_v(root@) =~= members_v(before_c) + Seq::<StructMemberV>::empty());
        }
        return Ok((r4, ext, inx, Ghost((Seq::empty(), g@))));
    }
    let (m, e) = parse_struct_member(toks, q)?;
    if inx {
        added.push(m);
        proof {
            lemma_members_v_push(before_a, m);
            assert(members_v(root@) =~= members_v(before_c) + Seq::<StructMemberV>::empty());
            assert(members_v(added@) =~= members_v(before_a) + seq![member_v(m)]);
        }
        Ok((e, ext, inx, Ghost((Seq::empty(), seq![member_v(m)]))))
    } else {
        root.push(m);
        proof {
            lemma_members_v_push(before_c, m);
            assert(members_v(root@) =~= members_v(before_c) + seq![member_v(m)]);
            assert(members_v(added@) =~= members_v(before_a) + Seq::<StructMemberV>::empty());
        }
        Ok((e, ext, inx, Ghost((seq![member_v(m)], Seq::empty()))))
    }
}

/// The `{ ... }` body of a SEQUENCE or SET, starting at `{`.
fn parse_struct_body(toks: &Vec<Token>, p: usize) -> (r: Result<(StructType, usize), ParseError>)
    ensures
        r matches Ok((st, q)) ==> p < q <= toks.len() && struct_body_s(toks@, p as int) == Some(
            (struct_v(st), q as int),
        ),
        r is Err ==> struct_body_s(toks@, p as int) is None,
    decreases toks.len() - p, 9nat,
{
    let mut q = expect_kind(toks, p, TokenKind::LBrace, "expected `{`")?;
    let mut components: Vec<StructMember> = Vec::new();
    let mut extension_additions: Vec<StructMember> = Vec::new();
    let mut extensible = false;
    let mut in_extension = false;
    if kind_at(toks, q, TokenKind::RBrace) {
        proof {
            assert(members_v(components@) =~= Seq::<StructMemberV>::empty());
        }
        return Ok((StructType { components, extensible, extension_additions }, q + 1));
    }
    proof {
        assert(members_v(components@) =~= Seq::<StructMemberV>::empty());
        assert(members_v(extension_additions@) =~= Seq::<StructMemberV>::empty());
        if let Some((c0, a0, x0, e0)) = struct_items_s(toks@, q as int, false, false) {
            assert(members_v(components@) + c0 =~= c0);
            assert(members_v(extension_additions@) + a0 =~= a0);
        }
    }
    loop
        invariant_except_break
            p < q <= toks.len(),
            !kind_is(toks@, p + 1, TokenKind::RBrace),
            toks@[p as int].kind == TokenKind::LBrace,
            struct_items_s(toks@, p + 1, false, false) == prefix2_opt(
                members_v(components@),
                members_v(extension_additions@),
                struct_items_s(toks@, q as int, extensible, in_extension),
            ),
        ensures
            p < q <= toks.len(),
            !kind_is(toks@, p + 1, TokenKind::RBrace),
            toks@[p as int].kind == TokenKind::LBrace,
            kind_is(toks@, q as int, TokenKind::RBrace) ==> struct_items_s(toks@, p + 1, false, false)
                == Some(
                (members_v(components@), members_v(extension_additions@), extensible, q + 1),
            ),
            !kind_is(toks@, q as int, TokenKind::RBrace) ==> struct_items_s(toks@, p + 1, false, false) is None,
        decreases toks.len() - q,
    {
        let ghost before_c = components@;
        let ghost before_a = extension_additions@;
        if q >= toks.len() {
            return Err(err_at(toks, q, "expected a component name"));
        }
        let (e, x, i, g) = parse_struct_step(
            toks,
            q,
            extensible,
            in_extension,
            &mut components,
            &mut extension_additions,
        )?;
        let ghost root = g@.0;
        let ghost added = g@.1;
        extensible = x;
        in_extension = i;
        q = e;
        if kind_at(toks, q, TokenKind::Comma) {
            proof {
                lemma_prefix2_prefix2(
                    members_v(before_c),
                    members_v(before_a),
                    root,
                    added,
                    struct_items_s(toks@, q + 1, extensible, in_extension),
                );
            }
            q = q + 1;
        } else {
            break ;
        }
    }
    let q = expect_kind(toks, q, TokenKind::RBrace, "expected `}`")?;
    Ok((StructType { components, extensible, extension_additions }, q))
}

/// One step of a CHOICE body at `q` (see [`choice_step_s`]): root items are
/// appended to `root`, additions to `added`; returns the index after the step
/// and the new `ext` and `inx`.
fn parse_choice_step(
    toks: &Vec<Token>,
    q: usize,
    ext: bool,
    inx: bool,
    root: &mut Vec<Component>,
    added: &mut Vec<Component>,
) -> (res: Result<(usize, bool, bool, Ghost<(Seq<ComponentV>, Seq<ComponentV>)>), ParseError>)
    requires
        q < toks.len(),
    ensures
        res matches Ok((e, x, i, g)) ==> q < e <= toks.len() && choice_step_s(toks@, q as int, ext, inx)
            == Some((g@.0, g@.1, x, i, e as int)) && components_v(final(root)@) == components_v(old(root)@) + g@.0
            && components_v(final(added)@) == components_v(old(added)@) + g@.1,
        res is Err ==> choice_step_s(toks@, q as int, ext, inx) is None,
    decreases toks.len() - q, 9nat,
{
    let ghost before_c = root@;
    let ghost before_a = added@;
    if kind_at(toks, q, TokenKind::Ellipsis) {
        let mut e = q + 1;
        if kind_at(toks, e, TokenKind::Bang) {
            let (_, q2) = parse_value(toks, e + 1, ValueHint::General)?;
            e = q2;
        }
        proof {
            assert(components_v(root@) =~= components_v(before_c) + Seq::<ComponentV>::empty());
            assert(components_v(added@) =~= components_v(before_a) + Seq::<ComponentV>::empty());
        }
        return Ok((e, true, !ext, Ghost((Seq::empty(), Seq::empty()))));
    }
    if kind_at(toks, q, TokenKind::LBracket) && kind_at(toks, q + 1, TokenKind::LBracket) {
        let mut r = q + 2;
        if kind_at(toks, r, TokenKind::Number) && kind_at(toks, r + 1, TokenKind::Colon) {
            r = r + 2;
        }
        proof {
            assert(r as int == group_start(toks@, q as int));
        }
        let (r2, g) = parse_alternative_group(toks, r, added)?;
        let r3 = expect_kind(toks, r2, TokenKind::RBracket, "expected `]]`")?;
        let r4 = expect_kind(toks, r3, TokenKind::RBracket, "expected `]]`")?;
        proof {
            assert(components_v(root@) =~= components_v(before_c) + Seq::<ComponentV>::empty());
        }
        return Ok((r4, ext, inx, Ghost((Seq::empty(), g@))));
    }
    let (c, e) = parse_component(toks, q)?;
    if inx {
        added.push(c);
        proof {
            lemma_components_v_push(before_a, c);
            assert(components_v(root@) =~= components_v(before_c) + Seq::<ComponentV>::empty());
            assert(components_v(added@) =~= components_v(before_a) + seq![component_v(c)]);
        }
        Ok((e, ext, inx, Ghost((Seq::empty(), seq![component_v(c)]))))
    } else {
        root.push(c);
        proof {
            lemma_components_v_push(before_c, c);
            assert(components_v(root@) =~= components_v(before_c) + seq![component_v(c)]);
            assert(components_v(added@) =~= components_v(before_a) + Seq::<ComponentV>::empty());
        }
        Ok((e, ext, inx, Ghost((seq![component_v(c)], Seq::empty()))))
    }
}

/// The `{ ... }` body of a CHOICE, starting at `{`.
fn parse_choice_body(toks: &Vec<Token>, p: usize) -> (r: Result<(ChoiceType, usize), ParseError>)
    ensures
        r matches Ok((ct, q)) ==> p < q <= toks.len() && choice_body_s(toks@, p as int) == Some(
            (choice_v(ct), q as int),
        ),
        r is Err ==> choice_body_s(toks@, p as int) is None,
    decreases toks.len() - p, 9nat,
{
    let mut q = expect_kind(toks, p, TokenKind::LBrace, "expected `{`")?;
    let mut alternatives: Vec<Component> = Vec::new();
    let mut extension_alternatives: Vec<Component> = Vec::new();
    let mut extensible = false;
    let mut in_extension = false;
    proof {
        assert(components_v(alternatives@) =~= Seq::<ComponentV>::empty());
        assert(components_v(extension_alternatives@) =~= Seq::<ComponentV>::empty());
        if let Some((c0, a0, x0, e0)) = choice_items_s(toks@, q as int, false, false) {
            assert(components_v(alternatives@) + c0 =~= c0);
            assert(components_v(extension_alternatives@) + a0 =~= a0);
        }
    }
    loop
        invariant_except_break
            p < q <= toks.len(),
            toks@[p as int].kind == TokenKind::LBrace,
            choice_items_s(toks@, p + 1, false, false) == prefix2_opt(
                components_v(alternatives@),
                components_v(extension_alternatives@),
                choice_items_s(toks@, q as int, extensible, in_extension),
            ),
        ensures
            p < q <= toks.len(),
            toks@[p as int].kind == TokenKind::LBrace,
            kind_is(toks@, q as int, TokenKind::RBrace) ==> choice_items_s(toks@, p + 1, false, false)
                == Some(
                (components_v(alternatives@), components_v(extension_alternatives@), extensible, q + 1),
            ),
            !kind_is(toks@, q as int, TokenKind::RBrace) ==> choice_items_s(toks@, p + 1, false, false) is None,
        decreases toks.len() - q,
    {
        let ghost before_c = alternatives@;
        let ghost before_a = extension_alternatives@;
        if q >= toks.len() {
            return Err(err_at(toks, q, "expected a component name"));
        }
        let (e, x, i, g) = parse_choice_step(
            toks,
            q,
            extensible,
            in_extension,
            &mut alternatives,
            &mut extension_alternatives,
        )?;
        let ghost root = g@.0;
        let ghost added = g@.1;
        extensible = x;
        in_extension = i;
        q = e;
        if kind_at(toks, q, TokenKind::Comma) {
            proof {
                lemma_prefix2_prefix2(
                    components_v(before_c),
                    components_v(before_a),
                    root,
                    added,
                    choice_items_s(toks@, q + 1, extensible, in_extension),
                );
            }
            q = q + 1;
        } else {
            break ;
        }
    }
    let q = expect_kind(toks, q, TokenKind::RBrace, "expected `}`")?;
    Ok((ChoiceType { alternatives, extensible, extension_alternatives }, q))
}

/// The items of an extension addition group `[[ ... ]]` from `r`, appended
/// to `out`; returns the index after the last one and their views.
#[verifier::rlimit(60)]
fn parse_member_group(toks: &Vec<Token>, start: usize, out: &mut Vec<StructMember>) -> (res: Result<(usize, Ghost<Seq<StructMemberV>>), ParseError>)
    requires
        start <= toks.len(),
    ensures
        res matches Ok((e, g)) ==> start < e <= toks.len() && member_group_s(toks@, start as int) == Some((g@, e as int))
            && members_v(final(out)@) == members_v(old(out)@) + g@,
        res is Err ==> member_group_s(toks@, start as int) is None,
    decreases toks.len() - start, 10nat,
{
    let ghost initial = out@;
    let ghost mut ga: Seq<StructMemberV> = Seq::empty();
    let mut r = start;
    let ghost r0 = start as int;
    proof {
        if let Some((s0, e0)) = member_group_s(toks@, r0) {
            assert(ga + s0 =~= s0);
        }
        assert(members_v(out@) =~= members_v(initial) + ga);
    }
    loop
        invariant_except_break
            r0 <= r <= toks.len(),
            r0 == start,
            member_group_s(toks@, r0) == prefix_opt(ga, member_group_s(toks@, r as int)),
            members_v(out@) == members_v(initial) + ga,
        ensures
            r0 < r <= toks.len(),
            r0 == start,
            member_group_s(toks@, r0) == Some((ga, r as int)),
            members_v(out@) == members_v(initial) + ga,
        decreases toks.len() - r,
    {
        let ghost prev = out@;
        let (m, r2) = parse_struct_member(toks, r)?;
        out.push(m);
        proof {
            lemma_members_v_push(prev, m);
            assert(members_v(out@) =~= members_v(initial) + ga.push(member_v(m)));
        }
        r = r2;
        if kind_at(toks, r, TokenKind::Comma) {
            proof {
                lemma_prefix_cons(ga, member_v(m), member_group_s(toks@, r + 1));
                ga = ga.push(member_v(m));
            }
            r = r + 1;
        } else {
            proof {
                assert(ga + seq![member_v(m)] =~= ga.push(member_v(m)));
                ga = ga.push(member_v(m));
            }
            break ;
        }
    }
    Ok((r, Ghost(ga)))
}

/// The items of an extension addition group `[[ ... ]]` from `r`, appended
/// to `out`; returns the index after the last one and their views.
#[verifier::rlimit(60)]
fn parse_alternative_group(toks: &Vec<Token>, start: usize, out: &mut Vec<Component>) -> (res: Result<(usize, Ghost<Seq<ComponentV>>), ParseError>)
    requires
        start <= toks.len(),
    ensures
        res matches Ok((e, g)) ==> start < e <= toks.len() && alternative_group_s(toks@, start as int) == Some((g@, e as int))
            && components_v(final(out)@) == components_v(old(out)@) + g@,
        res is Err ==> alternative_group_s(toks@, start as int) is None,
    decreases toks.len() - start, 10nat,
{
    let ghost initial = out@;
    let ghost mut ga: Seq<ComponentV> = Seq::empty();
    let mut r = start;
    let ghost r0 = start as int;
    proof {
        if let Some((s0, e0)) = alternative_group_s(toks@, r0) {
            assert(ga + s0 =~= s0);
        }
        assert(components_v(out@) =~= components_v(initial) + ga);
    }
    loop
        invariant_except_break
            r0 <= r <= toks.len(),
            r0 == start,
            alternative_group_s(toks@, r0) == prefix_opt(ga, alternative_group_s(toks@, r as int)),
            components_v(out@) == components_v(initial) + ga,
        ensures
            r0 < r <= toks.len(),
            r0 == start,
            alternative_group_s(toks@, r0) == Some((ga, r as int)),
            components_v(out@) == components_v(initial) + ga,
        decreases toks.len() - r,
    {
        let ghost prev = out@;
        let (c, r2) = parse_component(toks, r)?;
        out.push(c);
        proof {
            lemma_components_v_push(prev, c);
            assert(components_v(out@) =~= components_v(initial) + ga.push(component_v(c)));
        }
        r = r2;
        if kind_at(toks, r, TokenKind::Comma) {
            proof {
                lemma_prefix_cons(ga, component_v(c), alternative_group_s(toks@, r + 1));
                ga = ga.push(component_v(c));
            }
            r = r + 1;
        } else {
            proof {
                assert(ga + seq![component_v(c)] =~= ga.push(component_v(c)));
                ga = ga.push(component_v(c));
            }
            break ;
        }
    }
    Ok((r, Ghost(ga)))
}

/// Index past a tag `[class number]` and an `IMPLICIT` / `EXPLICIT` after it.
fn skip_tag(toks: &Vec<Token>, p: usize) -> (r: Result<usize, ParseError>)
    ensures
        r matches Ok(q) ==> p <= q && (q == p || q <= toks.len()) && skip_tag_s(toks@, p as int) == Some(
            q as int,
        ),
        r is Err ==> skip_tag_s(toks@, p as int) is None,
{
    if !kind_at(toks, p, TokenKind::LBracket) {
        return Ok(p);
    }
    let mut q = skip_balanced(toks, p, TokenKind::LBracket, TokenKind::RBracket)?;
    if word_at(toks, q, "IMPLICIT") || word_at(toks, q, "EXPLICIT") {
        q = q + 1;
    }
    Ok(q)
}

/// A built-in type named by the keyword at `p` (one of [`type_keyword`]).
fn parse_keyword_kind(toks: &Vec<Token>, p: usize) -> (r: Result<(TypeKind, usize), ParseError>)
    requires
        p < toks.len(),
        type_keyword(toks@[p as int].text@),
    ensures
        r matches Ok((k, q)) ==> p < q <= toks.len() && keyword_kind_s(toks@, p as int) == Some(
            (type_kind_v(k), q as int),
        ),
        r is Err ==> keyword_kind_s(toks@, p as int) is None,
{
    let q = p + 1;
    let t = toks[p].text.as_str();
    if str_eq(t, "BOOLEAN") {
        return Ok((TypeKind::Boolean, q));
    }
    if str_eq(t, "INTEGER") {
        if kind_at(toks, q, TokenKind::LBrace) {
            let (named_numbers, q2) = parse_named_numbers(toks, q)?;
            return Ok((TypeKind::Integer { named_numbers }, q2));
        }
        let named_numbers: Vec<NamedNumber> = Vec::new();
        assert(named_numbers_v(named_numbers@) =~= Seq::<NamedNumberV>::empty());
        return Ok((TypeKind::Integer { named_numbers }, q));
    }
    if str_eq(t, "REAL") {
        return Ok((TypeKind::Real, q));
    }
    if str_eq(t, "NULL") {
        return Ok((TypeKind::Null, q));
    }
    if str_eq(t, "BIT") {
        let q = expect_word(toks, q, "STRING", "expected `STRING`")?;
        if kind_at(toks, q, TokenKind::LBrace) {
            let (named_bits, q2) = parse_named_numbers(toks, q)?;
            return Ok((TypeKind::BitString { named_bits }, q2));
        }
        let named_bits: Vec<NamedNumber> = Vec::new();
        assert(named_numbers_v(named_bits@) =~= Seq::<NamedNumberV>::empty());
        return Ok((TypeKind::BitString { named_bits }, q));
    }
    if str_eq(t, "OCTET") {
        let q = expect_word(toks, q, "STRING", "expected `STRING`")?;
        return Ok((TypeKind::OctetString, q));
    }
    if str_eq(t, "OBJECT") {
        let q = expect_word(toks, q, "IDENTIFIER", "expected `IDENTIFIER`")?;
        return Ok((TypeKind::ObjectIdentifier, q));
    }
    if str_eq(t, "RELATIVE-OID") {
        return Ok((TypeKind::RelativeOid, q));
    }
    if str_eq(t, "UTCTime") {
        return Ok((TypeKind::UtcTime, q));
    }
    if str_eq(t, "GeneralizedTime") {
        return Ok((TypeKind::GeneralizedTime, q));
    }
    parse_enumerated(toks, q)
}

/// A character string type, an open type, or a reference, at the word `p`.
fn parse_other_kind(toks: &Vec<Token>, p: usize) -> (r: Result<(TypeKind, usize), ParseError>)
    requires
        p < toks.len(),
        toks@[p as int].kind == TokenKind::Word,
    ensures
        r matches Ok((k, q)) ==> p < q <= toks.len() && other_kind_s(toks@, p as int) == Some(
            (type_kind_v(k), q as int),
        ),
        r is Err ==> other_kind_s(toks@, p as int) is None,
{
    let q = p + 1;
    match char_string_kind(&toks[p].text) {
        Some(k) => {
            return Ok((TypeKind::CharString(k), q));
        },
        None => {},
    }
    if word_at(toks, p, "ANY") {
        if word_at(toks, q, "DEFINED") && word_at(toks, q + 1, "BY") && any_word_at(toks, q + 2) {
            return Ok((TypeKind::Any, q + 3));
        }
        return Ok((TypeKind::Any, q));
    }
    if word_at(toks, p, "EXTERNAL") || word_at(toks, p, "ObjectDescriptor") {
        return Ok((TypeKind::Any, q));
    }
    if word_at(toks, p, "EMBEDDED") && word_at(toks, q, "PDV") {
        return Ok((TypeKind::Any, q + 1));
    }
    if word_at(toks, p, "CHARACTER") && word_at(toks, q, "STRING") {
        return Ok((TypeKind::Any, q + 1));
    }
    if word_at(toks, p, "INSTANCE") && word_at(toks, q, "OF") && any_word_at(toks, q + 1) {
        return Ok((TypeKind::Any, q + 2));
    }
    // A reference: `Name`, `Module.Name`, `CLASS.&field...` or `Name{...}`.
    let name = spanned_at(toks, p);
    if kind_at(toks, q, TokenKind::Dot) && kind_at(toks, q + 1, TokenKind::Amp) {
        let (path, q2) = parse_field_path(toks, q + 1)?;
        return Ok((TypeKind::ClassField { class: name, path }, q2));
    }
    if kind_at(toks, q, TokenKind::Dot) && any_word_at(toks, q + 1) {
        if kind_at(toks, q + 2, TokenKind::Dot) && kind_at(toks, q + 3, TokenKind::Amp) {
            let class = spanned_at(toks, q + 1);
            let (path, q2) = parse_field_path(toks, q + 3)?;
            return Ok((TypeKind::ClassField { class, path }, q2));
        }
        return Ok((TypeKind::Reference(spanned_at(toks, q + 1)), q + 2));
    }
    if kind_at(toks, q, TokenKind::LBrace) {
        let q2 = skip_balanced(toks, q, TokenKind::LBrace, TokenKind::RBrace)?;
        return Ok((TypeKind::Reference(name), q2));
    }
    Ok((TypeKind::Reference(name), q))
}

/// `SEQUENCE` or `SET` at `p` (`is_seq` tells which): a body, or `OF` a
/// type; constraints written before `OF` are appended to `constraints`.
#[verifier::rlimit(100)]
fn parse_seq_set_kind(toks: &Vec<Token>, p: usize, is_seq: bool, constraints: &mut Vec<Constraint>) -> (r: Result<(TypeKind, usize), ParseError>)
    requires
        p < toks.len(),
        old(constraints)@.len() == 0,
    ensures
        r matches Ok((k, q)) ==> p < q <= toks.len() && seq_set_kind_s(toks@, p as int, is_seq) == Some(
            (type_kind_v(k), constraints_v(final(constraints)@), q as int),
        ),
        r is Err ==> seq_set_kind_s(toks@, p as int, is_seq) is None,
    decreases toks.len() - p, 9nat,
{
    proof {
        assert(constraints_v(constraints@) =~= Seq::<ConstraintV>::empty());
    }
    let q = p + 1;
    if kind_at(toks, q, TokenKind::LBrace) {
        let (s, q2) = parse_struct_body(toks, q)?;
        if is_seq {
            return Ok((TypeKind::Sequence(s), q2));
        } else {
            return Ok((TypeKind::SetType(s), q2));
        }
    }
    let mut q = q;
    let ghost empty = constraints@;
    assert(empty =~= Seq::<Constraint>::empty());
    if kind_at(toks, q, TokenKind::LParen) {
        let (c, q2) = parse_paren_constraint(toks, q)?;
        constraints.push(c);
        proof {
            lemma_constraints_v_push(empty, c);
            assert(constraints_v(constraints@) =~= seq![constraint_v(c)]);
        }
        q = q2;
    } else if word_at(toks, q, "SIZE") {
        let (c, q2) = parse_element(toks, q)?;
        constraints.push(c);
        proof {
            lemma_constraints_v_push(empty, c);
            assert(constraints_v(constraints@) =~= seq![constraint_v(c)]);
        }
        q = q2;
    }
    let q = expect_word(toks, q, "OF", "expected `OF`")?;
    let mut q = q;
    if any_word_at(toks, q) && starts_lower(&toks[q].text) && q + 1 < toks.len()
        && toks[q + 1].kind == TokenKind::Word {
        q = q + 1;
    }
    let (elem, q2) = parse_type(toks, q)?;
    if is_seq {
        Ok((TypeKind::SequenceOf(Box::new(elem)), q2))
    } else {
        Ok((TypeKind::SetOf(Box::new(elem)), q2))
    }
}

/// The part of a type before its trailing constraints, starting at `p`;
/// constraints written between `SEQUENCE`/`SET` and `OF` are appended to
/// `constraints`.
fn parse_type_kind(toks: &Vec<Token>, p: usize, constraints: &mut Vec<Constraint>) -> (r: Result<(TypeKind, usize), ParseError>)
    requires
        old(constraints)@.len() == 0,
    ensures
        r matches Ok((k, q)) ==> p < q <= toks.len() && type_kind_s(toks@, p as int) == Some(
            (type_kind_v(k), constraints_v(final(constraints)@), q as int),
        ),
        r is Err ==> type_kind_s(toks@, p as int) is None,
    decreases toks.len() - p, 10nat,
{
    proof {
        assert(constraints_v(constraints@) =~= Seq::<ConstraintV>::empty());
    }
    if !any_word_at(toks, p) {
        return Err(err_at(toks, p, "expected a type"));
    }
    if word_at(toks, p, "CHOICE") {
        let (c, q2) = parse_choice_body(toks, p + 1)?;
        return Ok((TypeKind::Choice(c), q2));
    }
    let is_seq = word_at(toks, p, "SEQUENCE");
    if is_seq || word_at(toks, p, "SET") {
        return parse_seq_set_kind(toks, p, is_seq, constraints);
    }
    if is_type_keyword(&toks[p].text) {
        parse_keyword_kind(toks, p)
    } else {
        parse_other_kind(toks, p)
    }
}

/// A type starting at `p`, with any tag before it and the constraints after it.
fn parse_type(toks: &Vec<Token>, p: usize) -> (r: Result<(Type, usize), ParseError>)
    ensures
        r matches Ok((t, q)) ==> p < q <= toks.len() && type_s(toks@, p as int) == Some(
            (type_v(t), q as int),
        ),
        r is Err ==> type_s(toks@, p as int) is None,
    decreases toks.len() - p, 11nat,
{
    let q0 = skip_tag(toks, p)?;
    let mut constraints: Vec<Constraint> = Vec::new();
    let (kind, q1) = parse_type_kind(toks, q0, &mut constraints)?;
    let ghost pre = constraints_v(constraints@);
    let mut q = q1;
    proof {
        if let Some((s0, e0)) = type_constraints_s(toks@, q1 as int) {
            assert(pre + s0 =~= constraints_v(constraints@) + s0);
        }
    }
    while kind_at(toks, q, TokenKind::LParen) || (word_at(toks, q, "SIZE") && kind_at(
        toks,
        q + 1,
        TokenKind::LParen,
    ))
        invariant
            p <= q0 < q1 <= q <= toks.len(),
            type_kind_s(toks@, q0 as int) == Some((type_kind_v(kind), pre, q1 as int)),
            skip_tag_s(toks@, p as int) == Some(q0 as int),
            prefix_opt(pre, type_constraints_s(toks@, q1 as int)) == prefix_opt(
                constraints_v(constraints@),
                type_constraints_s(toks@, q as int),
            ),
        decreases toks.len() - q,
    {
        let ghost before = constraints@;
        if kind_at(toks, q, TokenKind::LParen) {
            let (c, q2) = parse_paren_constraint(toks, q)?;
            constraints.push(c);
            proof {
                lemma_constraints_v_push(before, c);
                lemma_prefix_cons(constraints_v(before), constraint_v(c), type_constraints_s(toks@, q2 as int));
            }
            q = q2;
        } else {
            let (c, q2) = parse_element(toks, q)?;
            constraints.push(c);
            proof {
                lemma_constraints_v_push(before, c);
                lemma_prefix_cons(constraints_v(before), constraint_v(c), type_constraints_s(toks@, q2 as int));
            }
            q = q2;
        }
    }
    proof {
        assert(constraints_v(constraints@) + Seq::<ConstraintV>::empty() =~= constraints_v(constraints@));
    }
    Ok((Type { kind, constraints }, q))
}

// ---------------------------------------------------------------------------
// Information object classes, objects and object sets
// ---------------------------------------------------------------------------

fn parse_optional_flag(toks: &Vec<Token>, p: usize) -> (r: Result<(bool, usize), ParseError>)
    requires
        p <= toks.len(),
    ensures
        r matches Ok((f, q)) ==> p <= q <= toks.len() && optional_flag_s(toks@, p as int) == Some(
            (f, q as int),
        ),
        r is Err ==> optional_flag_s(toks@, p as int) is None,
{
    if word_at(toks, p, "OPTIONAL") {
        return Ok((true, p + 1));
    }
    if word_at(toks, p, "DEFAULT") {
        let (_, q) = parse_value(toks, p + 1, ValueHint::General)?;
        return Ok((true, q));
    }
    Ok((false, p))
}

/// One field specification of a CLASS, starting at its `&`.
fn parse_field_spec(toks: &Vec<Token>, p: usize) -> (r: Result<(FieldSpec, usize), ParseError>)
    ensures
        r matches Ok((f, q)) ==> p < q <= toks.len() && field_spec_s(toks@, p as int) == Some(
            (field_spec_v(f), q as int),
        ),
        r is Err ==> field_spec_s(toks@, p as int) is None,
{
    let q = expect_kind(toks, p, TokenKind::Amp, "expected `&`")?;
    let (name, q) = expect_name(toks, q, "expected a field name")?;
    if starts_upper(&name.value) {
        let mut q = q;
        if any_word_at(toks, q) && all_caps(&toks[q].text) && !word_at(toks, q, "OPTIONAL")
            && !word_at(toks, q, "DEFAULT") {
            q = q + 1;
        }
        if word_at(toks, q, "DEFAULT") {
            if kind_at(toks, q + 1, TokenKind::LBrace) {
                let q2 = skip_balanced(toks, q + 1, TokenKind::LBrace, TokenKind::RBrace)?;
                return Ok((FieldSpec::TypeField { name, optional: true }, q2));
            }
            let (_, q2) = parse_type(toks, q + 1)?;
            return Ok((FieldSpec::TypeField { name, optional: true }, q2));
        }
        if word_at(toks, q, "OPTIONAL") {
            return Ok((FieldSpec::TypeField { name, optional: true }, q + 1));
        }
        return Ok((FieldSpec::TypeField { name, optional: false }, q));
    }
    if kind_at(toks, q, TokenKind::Amp) {
        let (field_path, q) = parse_field_path(toks, q)?;
        let (optional, q) = parse_optional_flag(toks, q)?;
        return Ok((FieldSpec::VariableTypeValueField { name, field_path, optional }, q));
    }
    let (ty, q) = parse_type(toks, q)?;
    let mut q = q;
    let mut unique = false;
    if word_at(toks, q, "UNIQUE") {
        unique = true;
        q = q + 1;
    }
    let (optional, q) = parse_optional_flag(toks, q)?;
    Ok((FieldSpec::ValueField { name, ty, unique, optional }, q))
}

/// `CLASS { field, ... } [WITH SYNTAX { ... }]`, starting at `CLASS`.
fn parse_class(toks: &Vec<Token>, p: usize) -> (r: Result<(ClassDef, usize), ParseError>)
    ensures
        r matches Ok((c, q)) ==> p < q <= toks.len() && class_s(toks@, p as int) == Some(
            (field_specs_v(c.fields@), q as int),
        ),
        r is Err ==> class_s(toks@, p as int) is None,
{
    let q = expect_word(toks, p, "CLASS", "expected `CLASS`")?;
    let mut q = expect_kind(toks, q, TokenKind::LBrace, "expected `{`")?;
    let mut fields: Vec<FieldSpec> = Vec::new();
    let ghost fields_end: Option<(Seq<FieldSpecV>, int)>;
    if !kind_at(toks, q, TokenKind::RBrace) {
        proof {
            if let Some((s0, e0)) = class_fields_s(toks@, q as int) {
                assert(field_specs_v(fields@) + s0 =~= s0);
            }
        }
        loop
            invariant_except_break
                p + 2 <= q <= toks.len(),
                word_is(toks@, p as int, "CLASS"@),
                kind_is(toks@, p + 1, TokenKind::LBrace),
                !kind_is(toks@, p + 2, TokenKind::RBrace),
                class_fields_s(toks@, p + 2) == prefix_opt(field_specs_v(fields@), class_fields_s(toks@, q as int)),
            ensures
                p + 2 < q <= toks.len(),
                word_is(toks@, p as int, "CLASS"@),
                kind_is(toks@, p + 1, TokenKind::LBrace),
                !kind_is(toks@, p + 2, TokenKind::RBrace),
                class_fields_s(toks@, p + 2) == Some((field_specs_v(fields@), q as int)),
            decreases toks.len() - q,
        {
            let ghost before = fields@;
            let (f, q2) = parse_field_spec(toks, q)?;
            fields.push(f);
            proof {
                assert(field_specs_v(fields@) =~= field_specs_v(before).push(field_spec_v(f)));
            }
            q = q2;
            if kind_at(toks, q, TokenKind::Comma) {
                proof {
                    lemma_prefix_cons(field_specs_v(before), field_spec_v(f), class_fields_s(toks@, q + 1));
                }
                q = q + 1;
            } else {
                proof {
                    assert(field_specs_v(before) + seq![field_spec_v(f)] =~= field_specs_v(fields@));
                }
                break ;
            }
        }
    } else {
        proof {
            assert(field_specs_v(fields@) =~= Seq::<FieldSpecV>::empty());
        }
    }
    let mut q = expect_kind(toks, q, TokenKind::RBrace, "expected `}`")?;
    if word_at(toks, q, "WITH") && word_at(toks, q + 1, "SYNTAX") && kind_at(
        toks,
        q + 2,
        TokenKind::LBrace,
    ) {
        q = skip_balanced(toks, q + 2, TokenKind::LBrace, TokenKind::RBrace)?;
    }
    Ok((ClassDef { fields }, q))
}

/// An object `{ ... }` starting at `{`: field settings `&name value` in the
/// default syntax, otherwise the words of a defined syntax.
fn parse_object(toks: &Vec<Token>, p: usize) -> (r: Result<(ObjectDef, usize), ParseError>)
    ensures
        r matches Ok((o, q)) ==> p < q <= toks.len() && object_s(toks@, p as int) == Some(
            (object_v(o), q as int),
        ),
        r is Err ==> object_s(toks@, p as int) is None,
{
    let q = expect_kind(toks, p, TokenKind::LBrace, "expected `{`")?;
    let mut fields: Vec<ObjectFieldSetting> = Vec::new();
    assert(q == p + 1);
    let mut syntax: Vec<Spanned<String>> = Vec::new();
    if kind_at(toks, q, TokenKind::Amp) {
        let mut q = q;
        proof {
            if let Some((s0, e0)) = object_settings_s(toks@, q as int) {
                assert(object_settings_v(fields@) + s0 =~= s0);
            }
        }
        loop
            invariant_except_break
                p < q <= toks.len(),
                kind_is(toks@, p as int, TokenKind::LBrace),
                kind_is(toks@, p + 1, TokenKind::Amp),
                object_settings_s(toks@, p + 1) == prefix_opt(object_settings_v(fields@), object_settings_s(toks@, q as int)),
            ensures
                p < q <= toks.len(),
                kind_is(toks@, p as int, TokenKind::LBrace),
                kind_is(toks@, p + 1, TokenKind::Amp),
                object_settings_s(toks@, p + 1) == Some((object_settings_v(fields@), q as int)),
            decreases toks.len() - q,
        {
            let ghost before = fields@;
            let q1 = expect_kind(toks, q, TokenKind::Amp, "expected `&`")?;
            let (name, q2) = expect_name(toks, q1, "expected a field name")?;
            let st = if starts_upper(&name.value) {
                let (ty, q3) = parse_type(toks, q2)?;
                q = q3;
                ObjectFieldSetting::Type { name, ty }
            } else {
                let (value, q3) = parse_value(toks, q2, ValueHint::General)?;
                q = q3;
                ObjectFieldSetting::Value { name, value }
            };
            fields.push(st);
            proof {
                assert(object_settings_v(fields@) =~= object_settings_v(before).push(object_setting_v(st)));
            }
            if kind_at(toks, q, TokenKind::Comma) {
                proof {
                    lemma_prefix_cons(object_settings_v(before), object_setting_v(st), object_settings_s(toks@, q + 1));
                }
                q = q + 1;
            } else {
                proof {
                    assert(object_settings_v(before) + seq![object_setting_v(st)] =~= object_settings_v(fields@));
                }
                break ;
            }
        }
        let q = expect_kind(toks, q, TokenKind::RBrace, "expected `}`")?;
        proof {
            assert(names_v(syntax@) =~= Seq::<NameV>::empty());
        }
        return Ok((ObjectDef { fields, syntax }, q));
    }
    let end = skip_balanced(toks, p, TokenKind::LBrace, TokenKind::RBrace)?;
    let stop = end - 1;
    let mut i = q;
    proof {
        assert(names_v(syntax@) =~= token_names(toks@, q as int, i as int));
        assert(object_settings_v(fields@) =~= Seq::<ObjectFieldSettingV>::empty());
    }
    while i < stop
        invariant
            1 <= end <= toks.len(),
            stop == end - 1,
            q <= i,
            i <= stop || i == q,
            names_v(syntax@) == token_names(toks@, q as int, i as int),
        decreases stop - i,
    {
        let ghost before = syntax@;
        let n = spanned_at(toks, i);
        syntax.push(n);
        proof {
            assert(names_v(syntax@) =~= names_v(before).push(name_v(n)));
            assert(token_names(toks@, q as int, i + 1) =~= token_names(toks@, q as int, i as int).push(
                tok_name(toks@, i as int),
            ));
        }
        i = i + 1;
    }
    proof {
        assert(token_names(toks@, q as int, i as int) =~= token_names(toks@, p + 1, end - 1));
    }
    Ok((ObjectDef { fields, syntax }, end))
}

/// An object set `{ element | ..., ... }` starting at `{`.
fn parse_object_set(toks: &Vec<Token>, p: usize) -> (r: Result<(ObjectSet, usize), ParseError>)
    ensures
        r matches Ok((set, q)) ==> p < q <= toks.len() && kind_is(toks@, p as int, TokenKind::LBrace)
            && set_items_s(toks@, p + 1, false) == Some(
            (set_elements_v(set.elements@), set.extensible, q as int),
        ),
        r is Err ==> !kind_is(toks@, p as int, TokenKind::LBrace) || set_items_s(toks@, p + 1, false) is None,
{
    let mut q = expect_kind(toks, p, TokenKind::LBrace, "expected `{`")?;
    let mut elements: Vec<ObjectSetElement> = Vec::new();
    let mut extensible = false;
    proof {
        if let Some((s0, x0, e0)) = set_items_s(toks@, q as int, false) {
            assert(set_elements_v(elements@) + s0 =~= s0);
        }
    }
    while !kind_at(toks, q, TokenKind::RBrace)
        invariant
            p < q <= toks.len(),
            toks@[p as int].kind == TokenKind::LBrace,
            set_items_s(toks@, p + 1, false) == match set_items_s(toks@, q as int, extensible) {
                Some((es, x, e)) => Some((set_elements_v(elements@) + es, x, e)),
                None => None,
            },
        decreases toks.len() - q,
    {
        if q >= toks.len() {
            return Err(err_at(toks, q, "unterminated object set"));
        }
        let ghost before = elements@;
        let k = toks[q].kind;
        if k == TokenKind::Ellipsis {
            extensible = true;
            q = q + 1;
        } else if k == TokenKind::Comma || k == TokenKind::Pipe {
            q = q + 1;
        } else if word_at(toks, q, "UNION") {
            q = q + 1;
        } else if k == TokenKind::LBrace {
            let (o, q2) = parse_object(toks, q)?;
            let el = ObjectSetElement::Object(o);
            elements.push(el);
            proof {
                assert(set_elements_v(elements@) =~= set_elements_v(before).push(set_element_v(el)));
                if let Some((es, x, e)) = set_items_s(toks@, q2 as int, extensible) {
                    assert(set_elements_v(before) + (seq![set_element_v(el)] + es) =~= set_elements_v(elements@) + es);
                }
            }
            q = q2;
        } else if k == TokenKind::Word {
            let el = ObjectSetElement::Reference(spanned_at(toks, q));
            elements.push(el);
            q = q + 1;
            if kind_at(toks, q, TokenKind::Dot) && any_word_at(toks, q + 1) {
                q = q + 2;
            }
            proof {
                assert(set_elements_v(elements@) =~= set_elements_v(before).push(set_element_v(el)));
                if let Some((es, x, e)) = set_items_s(toks@, q as int, extensible) {
                    assert(set_elements_v(before) + (seq![set_element_v(el)] + es) =~= set_elements_v(elements@) + es);
                }
            }
        } else {
            return Err(err_at(toks, q, "unexpected token in object set"));
        }
    }
    proof {
        assert(set_elements_v(elements@) + Seq::<ObjectSetElementV>::empty() =~= set_elements_v(elements@));
    }
    Ok((ObjectSet { elements, extensible }, q + 1))
}

// ---------------------------------------------------------------------------
// Modules
// ---------------------------------------------------------------------------

/// One assignment starting at `p`.
#[verifier::rlimit(80)]
fn parse_assignment(toks: &Vec<Token>, p: usize) -> (r: Result<(Assignment, usize), ParseError>)
    ensures
        r matches Ok((a, q)) ==> p < q <= toks.len() && a.name.value@ == toks@[p as int].text@
            && assignment_s(toks@, p as int) == Some((assignment_v(a), q as int)),
        r is Err ==> assignment_s(toks@, p as int) is None,
{
    let (name, q) = expect_name(toks, p, "expected an assignment")?;
    let doc = copy_doc(&toks[p].doc);
    proof {
        assert(doc_v(doc) == doc_v(toks@[p as int].doc));
    }
    let mut q = q;
    if kind_at(toks, q, TokenKind::LBrace) {
        // Parameter list of a parameterized assignment.
        q = skip_balanced(toks, q, TokenKind::LBrace, TokenKind::RBrace)?;
    }
    if kind_at(toks, q, TokenKind::Assign) {
        if all_caps(&name.value) && word_at(toks, q + 1, "CLASS") {
            let (class, q2) = parse_class(toks, q + 1)?;
            return Ok((Assignment { name, doc, kind: AssignmentKind::ObjectClass(class) }, q2));
        }
        let (ty, q2) = parse_type(toks, q + 1)?;
        return Ok((Assignment { name, doc, kind: AssignmentKind::Type(ty) }, q2));
    }
    let class_like = any_word_at(toks, q) && all_caps(&toks[q].text) && !is_builtin_type_word(
        &toks[q].text,
    ) && kind_at(toks, q + 1, TokenKind::Assign);
    if class_like {
        let class_name = spanned_at(toks, q);
        if starts_lower(&name.value) {
            let (object, q2) = parse_object(toks, q + 2)?;
            return Ok((
                Assignment { name, doc, kind: AssignmentKind::Object { class_name, object } },
                q2,
            ));
        }
        let (set, q2) = parse_object_set(toks, q + 2)?;
        return Ok((Assignment { name, doc, kind: AssignmentKind::ObjectSet { class_name, set } }, q2));
    }
    if !starts_lower(&name.value) {
        return Err(err_at(toks, q, "expected `::=`"));
    }
    let (ty, q2) = parse_type(toks, q)?;
    let q3 = expect_kind(toks, q2, TokenKind::Assign, "expected `::=`")?;
    let hint = hint_for(&ty);
    proof {
        assert((hint is ObjectIdentifier) == oid_typed(type_v(ty)));
    }
    let (value, q4) = parse_value(toks, q3, hint)?;
    Ok((Assignment { name, doc, kind: AssignmentKind::Value { ty, value } }, q4))
}

/// One import clause `symbols FROM module ...` starting at `p`.
fn parse_import_clause(toks: &Vec<Token>, p: usize) -> (r: Result<(ImportClause, usize), ParseError>)
    requires
        p <= toks.len(),
    ensures
        r matches Ok((c, q)) ==> p < q <= toks.len() && import_clause_s(toks@, p as int) == Some(
            (import_v(c), q as int),
        ),
        r is Err ==> import_clause_s(toks@, p as int) is None,
{
    let mut symbols: Vec<Spanned<String>> = Vec::new();
    let mut q = p;
    proof {
        if let Some((s0, e0)) = symbols_s(toks@, q as int) {
            assert(names_v(symbols@) + s0 =~= s0);
        }
    }
    loop
        invariant_except_break
            p <= q <= toks.len(),
            symbols_s(toks@, p as int) == prefix_opt(names_v(symbols@), symbols_s(toks@, q as int)),
        ensures
            p < q <= toks.len(),
            symbols_s(toks@, p as int) == Some((names_v(symbols@), q as int)),
        decreases toks.len() - q,
    {
        let ghost before = symbols@;
        let (sym, q1) = expect_name(toks, q, "expected an imported symbol")?;
        symbols.push(sym);
        proof {
            assert(names_v(symbols@) =~= names_v(before).push(name_v(sym)));
        }
        q = q1;
        if kind_at(toks, q, TokenKind::LBrace) && kind_at(toks, q + 1, TokenKind::RBrace) {
            q = q + 2;
        }
        if kind_at(toks, q, TokenKind::Comma) {
            proof {
                lemma_prefix_cons(names_v(before), name_v(sym), symbols_s(toks@, q + 1));
            }
            q = q + 1;
        } else {
            proof {
                assert(names_v(before) + seq![name_v(sym)] =~= names_v(symbols@));
            }
            break ;
        }
    }
    let q1 = expect_word(toks, q, "FROM", "expected `FROM`")?;
    let (from_module, q2) = expect_name(toks, q1, "expected a module name")?;
    let mut q = q2;
    let mut from_oid: Option<Vec<OidComponent>> = None;
    if kind_at(toks, q, TokenKind::LBrace) {
        let (oid, q3) = parse_oid(toks, q)?;
        from_oid = Some(oid);
        q = q3;
    } else if any_word_at(toks, q) && starts_lower(&toks[q].text) && !kind_at(
        toks,
        q + 1,
        TokenKind::Comma,
    ) && !word_at(toks, q + 1, "FROM") && !kind_at(toks, q + 1, TokenKind::LBrace) {
        // A value reference naming the module's object identifier.
        q = q + 1;
    }
    let mut with: Option<WithClause> = None;
    if word_at(toks, q, "WITH") {
        if word_at(toks, q + 1, "SUCCESSORS") {
            with = Some(WithClause::Successors);
            q = q + 2;
        } else if word_at(toks, q + 1, "DESCENDANTS") {
            with = Some(WithClause::Descendants);
            q = q + 2;
        }
    }
    Ok((ImportClause { symbols, from_module, from_oid, with }, q))
}

/// `IMPORTS ... ;` starting just after `IMPORTS`.
fn parse_imports(toks: &Vec<Token>, p: usize) -> (r: Result<(Vec<ImportClause>, usize), ParseError>)
    requires
        p <= toks.len(),
    ensures
        r matches Ok((cs, q)) ==> p < q <= toks.len() && imports_s(toks@, p as int) == Some(
            (imports_v(cs@), q as int),
        ),
        r is Err ==> imports_s(toks@, p as int) is None,
{
    let mut clauses: Vec<ImportClause> = Vec::new();
    let mut q = p;
    proof {
        if let Some((s0, e0)) = imports_s(toks@, q as int) {
            assert(imports_v(clauses@) + s0 =~= s0);
        }
    }
    while !kind_at(toks, q, TokenKind::Semicolon)
        invariant
            p <= q <= toks.len(),
            imports_s(toks@, p as int) == prefix_opt(imports_v(clauses@), imports_s(toks@, q as int)),
        decreases toks.len() - q,
    {
        let ghost before = clauses@;
        let (c, q2) = parse_import_clause(toks, q)?;
        clauses.push(c);
        proof {
            assert(imports_v(clauses@) =~= imports_v(before).push(import_v(c)));
            lemma_prefix_cons(imports_v(before), import_v(c), imports_s(toks@, q2 as int));
        }
        q = q2;
    }
    proof {
        assert(imports_v(clauses@) + Seq::<ImportClauseV>::empty() =~= imports_v(clauses@));
    }
    Ok((clauses, q + 1))
}

/// The module header from its name through `BEGIN`.
fn parse_header(toks: &Vec<Token>) -> (r: Result<(Spanned<String>, Option<Vec<OidComponent>>, TagDefault, bool, usize), ParseError>)
    ensures
        r matches Ok((name, oid, tags, implied, q)) ==> q <= toks.len() && header_s(toks@) == Some(
            (name_v(name), opt_oid_v(oid), tags, implied, q as int),
        ),
        r is Err ==> header_s(toks@) is None,
{
    let (name, q) = expect_name(toks, 0, "expected a module name")?;
    let mut q = q;
    let mut oid: Option<Vec<OidComponent>> = None;
    if kind_at(toks, q, TokenKind::LBrace) {
        let (o, q2) = parse_oid(toks, q)?;
        oid = Some(o);
        q = q2;
    }
    q = expect_word(toks, q, "DEFINITIONS", "expected `DEFINITIONS`")?;
    let mut tag_default = TagDefault::Explicit;
    if word_at(toks, q, "AUTOMATIC") && word_at(toks, q + 1, "TAGS") {
        tag_default = TagDefault::Automatic;
        q = q + 2;
    } else if word_at(toks, q, "IMPLICIT") && word_at(toks, q + 1, "TAGS") {
        tag_default = TagDefault::Implicit;
        q = q + 2;
    } else if word_at(toks, q, "EXPLICIT") && word_at(toks, q + 1, "TAGS") {
        q = q + 2;
    }
    let mut extensibility_implied = false;
    if word_at(toks, q, "EXTENSIBILITY") && word_at(toks, q + 1, "IMPLIED") {
        extensibility_implied = true;
        q = q + 2;
    }
    q = expect_kind(toks, q, TokenKind::Assign, "expected `::=`")?;
    q = expect_word(toks, q, "BEGIN", "expected `BEGIN`")?;
    Ok((name, oid, tag_default, extensibility_implied, q))
}

/// Parse one module from its tokens.
pub fn parse_module(tokens: Vec<Token>) -> (r: Result<Module, ParseError>)
    ensures
        r matches Ok(m) ==> module_s(tokens@) == Some(module_v(m)),
        r is Err ==> module_s(tokens@) is None,
{
    let toks = &tokens;
    let (name, oid, tag_default, extensibility_implied, q) = parse_header(toks)?;
    let mut q = q;
    let ghost q0 = q as int;
    if word_at(toks, q, "EXPORTS") {
        q = q + 1;
        while !kind_at(toks, q, TokenKind::Semicolon)
            invariant
                q <= toks.len(),
                toks@ == tokens@,
                header_s(toks@) == Some(
                    (name_v(name), opt_oid_v(oid), tag_default, extensibility_implied, q0),
                ),
                word_is(toks@, q0, "EXPORTS"@),
                semicolon_end_s(toks@, q0 + 1) == semicolon_end_s(toks@, q as int),
            decreases toks.len() - q,
        {
            if q >= toks.len() {
                return Err(err_at(toks, q, "expected `;` after EXPORTS"));
            }
            q = q + 1;
        }
        q = q + 1;
    }
    let ghost q1 = q as int;
    let mut imports: Vec<ImportClause> = Vec::new();
    if word_at(toks, q, "IMPORTS") {
        let (i, q2) = parse_imports(toks, q + 1)?;
        imports = i;
        q = q2;
    }
    let ghost icv = imports_v(imports@);
    proof {
        if !word_is(toks@, q1, "IMPORTS"@) {
            assert(icv =~= Seq::<ImportClauseV>::empty());
        }
    }
    let ghost q2 = q as int;
    let mut assignments: Vec<Assignment> = Vec::new();
    proof {
        if let Some(s0) = assignments_s(toks@, q2) {
            assert(assignments_v(assignments@) + s0 =~= s0);
        }
    }
    proof {
        assert(module_s(toks@) == module_with(
            name_v(name),
            opt_oid_v(oid),
            tag_default,
            extensibility_implied,
            icv,
            assignments_s(toks@, q2),
        ));
    }
    while !word_at(toks, q, "END")
        invariant
            q2 <= q <= toks.len(),
            toks@ == tokens@,
            icv == imports_v(imports@),
            module_s(toks@) == module_with(
                name_v(name),
                opt_oid_v(oid),
                tag_default,
                extensibility_implied,
                icv,
                assignments_s(toks@, q2),
            ),
            assignments_s(toks@, q2) == match assignments_s(toks@, q as int) {
                Some(rest) => Some(assignments_v(assignments@) + rest),
                None => None,
            },
        decreases toks.len() - q,
    {
        if q >= toks.len() {
            return Err(err_at(toks, q, "expected `END`"));
        }
        let ghost before = assignments@;
        let (a, q3) = parse_assignment(toks, q)?;
        assignments.push(a);
        proof {
            assert(assignments_v(assignments@) =~= assignments_v(before).push(assignment_v(a)));
            if let Some(rest) = assignments_s(toks@, q3 as int) {
                assert(assignments_v(before) + (seq![assignment_v(a)] + rest) =~= assignments_v(assignments@) + rest);
            }
        }
        q = q3;
    }
    proof {
        assert(assignments_v(assignments@) + Seq::<AssignmentV>::empty() =~= assignments_v(assignments@));
    }
    Ok(Module { name, oid, tag_default, extensibility_implied, imports, assignments })
}

} // verus!
