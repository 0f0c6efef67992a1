//! Tokenizer for ASN.1 source text.
use vstd::prelude::*;

use crate::diagnostics::{FileId, ParseError, Span};
use crate::syntax::doc_v;
use crate::text::{chars_of, is_space, slice_string, space, trim, trimmed_string};

verus! {

#[derive(Debug, Clone, Copy, PartialEq, Eq, Structural)]
pub enum TokenKind {
    /// Identifier, reference or keyword: a letter, then letters, digits and
    /// single hyphens, not ending in a hyphen.
    Word,
    /// A run of decimal digits.
    Number,
    /// `digits.digits`
    Real,
    /// `"..."`
    CString,
    /// `'...'B`
    BString,
    /// `'...'H`
    HString,
    /// `::=`
    Assign,
    LBrace,
    RBrace,
    LParen,
    RParen,
    LBracket,
    RBracket,
    Comma,
    Semicolon,
    Dot,
    /// `..`
    DotDot,
    /// `...`
    Ellipsis,
    Pipe,
    Caret,
    Colon,
    Minus,
    Amp,
    Less,
    At,
    Bang,
}

/// A token: its kind, its text as written, where it stands, and the
/// `/** ... */` comment that came right before it, trimmed.
#[derive(Debug)]
pub struct Token {
    pub kind: TokenKind,
    pub text: String,
    pub span: Span,
    pub doc: Option<String>,
}

pub open spec fn is_letter(c: char) -> bool {
    ('a' <= c && c <= 'z') || ('A' <= c && c <= 'Z')
}

pub open spec fn is_digit(c: char) -> bool {
    '0' <= c && c <= '9'
}

pub open spec fn is_alnum(c: char) -> bool {
    is_letter(c) || is_digit(c)
}

pub open spec fn all_digits(t: Seq<char>) -> bool {
    forall|k: int| 0 <= k < t.len() ==> is_digit(#[trigger] t[k])
}

/// A word: starts with a letter; every hyphen is followed by a letter or digit.
pub open spec fn word_shape(t: Seq<char>) -> bool {
    &&& t.len() > 0
    &&& is_letter(t[0])
    &&& forall|k: int| 0 <= k < t.len() ==> is_alnum(#[trigger] t[k]) || t[k] == '-'
    &&& forall|k: int| 0 <= k < t.len() && #[trigger] t[k] == '-' ==> k + 1 < t.len() && is_alnum(t[k + 1])
}

pub open spec fn number_shape(t: Seq<char>) -> bool {
    t.len() > 0 && all_digits(t)
}

pub open spec fn real_shape(t: Seq<char>) -> bool {
    exists|k: int|
        0 < k && k + 1 < t.len() && t[k] == '.' && all_digits(#[trigger] t.take(k)) && all_digits(
            t.skip(k + 1),
        )
}

pub open spec fn cstring_shape(t: Seq<char>) -> bool {
    t.len() >= 2 && t[0] == '"' && t.last() == '"'
}

/// `'...'` followed by the radix letter `suffix`.
pub open spec fn radix_string_shape(t: Seq<char>, suffix: char) -> bool {
    t.len() >= 3 && t[0] == '\'' && t[t.len() - 2] == '\'' && t.last() == suffix
}

/// The fixed text of a punctuation token.
pub open spec fn punct_text(k: TokenKind) -> Seq<char> {
    match k {
        TokenKind::Assign => seq![':', ':', '='],
        TokenKind::LBrace => seq!['{'],
        TokenKind::RBrace => seq!['}'],
        TokenKind::LParen => seq!['('],
        TokenKind::RParen => seq![')'],
        TokenKind::LBracket => seq!['['],
        TokenKind::RBracket => seq![']'],
        TokenKind::Comma => seq![','],
        TokenKind::Semicolon => seq![';'],
        TokenKind::Dot => seq!['.'],
        TokenKind::DotDot => seq!['.', '.'],
        TokenKind::Ellipsis => seq!['.', '.', '.'],
        TokenKind::Pipe => seq!['|'],
        TokenKind::Caret => seq!['^'],
        TokenKind::Colon => seq![':'],
        TokenKind::Minus => seq!['-'],
        TokenKind::Amp => seq!['&'],
        TokenKind::Less => seq!['<'],
        TokenKind::At => seq!['@'],
        TokenKind::Bang => seq!['!'],
        _ => Seq::empty(),
    }
}

/// The text of a token agrees with its kind.
#[verifier::opaque]
pub open spec fn token_shape(k: TokenKind, t: Seq<char>) -> bool {
    match k {
        TokenKind::Word => word_shape(t),
        TokenKind::Number => number_shape(t),
        TokenKind::Real => real_shape(t),
        TokenKind::CString => cstring_shape(t),
        TokenKind::BString => radix_string_shape(t, 'B'),
        TokenKind::HString => radix_string_shape(t, 'H'),
        _ => t == punct_text(k),
    }
}

/// One token read from `src` of file `file`: its text is the source text under
/// its span, and agrees with its kind.
pub open spec fn token_wf(t: Token, src: Seq<char>, file: FileId) -> bool {
    &&& t.span.file == file
    &&& t.span.start < t.span.end <= src.len()
    &&& t.text@ == src.subrange(t.span.start as int, t.span.end as int)
    &&& token_shape(t.kind, t.text@)
}

/// A token stream read from `src`: every token is well formed and the tokens
/// appear in source order without overlapping.
pub open spec fn tokens_wf(toks: Seq<Token>, src: Seq<char>, file: FileId) -> bool {
    &&& forall|i: int| 0 <= i < toks.len() ==> token_wf(#[trigger] toks[i], src, file)
    &&& forall|i: int, j: int|
        0 <= i < j < toks.len() ==> (#[trigger] toks[i]).span.end <= (#[trigger] toks[j]).span.start
}

// ---------------------------------------------------------------------------
// The token stream of a text, as a function of the text
// ---------------------------------------------------------------------------

/// A token as a mathematical value.
pub struct TokenV {
    pub kind: TokenKind,
    pub text: Seq<char>,
    pub span: Span,
    pub doc: Option<Seq<char>>,
}

pub open spec fn token_v(t: Token) -> TokenV {
    TokenV {
        kind: t.kind,
        text: t.text@,
        span: t.span,
        doc: doc_v(t.doc),
    }
}

pub open spec fn tokens_v(ts: Seq<Token>) -> Seq<TokenV> {
    ts.map_values(|t: Token| token_v(t))
}

/// From `j`, past letters, digits, and hyphens that a letter or digit follows.
pub open spec fn word_scan(cs: Seq<char>, j: int) -> int
    decreases cs.len() - j,
{
    if j < 0 || j >= cs.len() {
        j
    } else if is_alnum(cs[j]) {
        word_scan(cs, j + 1)
    } else if cs[j] == '-' && j + 1 < cs.len() && is_alnum(cs[j + 1]) {
        word_scan(cs, j + 2)
    } else {
        j
    }
}

/// From `j`, past decimal digits.
pub open spec fn digits_scan(cs: Seq<char>, j: int) -> int
    decreases cs.len() - j,
{
    if 0 <= j < cs.len() && is_digit(cs[j]) {
        digits_scan(cs, j + 1)
    } else {
        j
    }
}

/// A number at `i`: digits, then `.digits` for a real.
pub open spec fn number_scan(cs: Seq<char>, i: int) -> (TokenKind, int) {
    let j = digits_scan(cs, i);
    if j + 1 < cs.len() && cs[j] == '.' && is_digit(cs[j + 1]) {
        (TokenKind::Real, digits_scan(cs, j + 1))
    } else {
        (TokenKind::Number, j)
    }
}

/// From `j` inside a `"..."` literal: past its closing quote (`""` stands
/// for a quote inside it).
pub open spec fn cstring_scan(cs: Seq<char>, j: int) -> Option<int>
    decreases cs.len() - j,
{
    if j < 0 || j >= cs.len() {
        None
    } else if cs[j] == '"' {
        if j + 1 < cs.len() && cs[j + 1] == '"' {
            cstring_scan(cs, j + 2)
        } else {
            Some(j + 1)
        }
    } else {
        cstring_scan(cs, j + 1)
    }
}

/// The first `'` at or after `j`, or the end of the text.
pub open spec fn quote_scan(cs: Seq<char>, j: int) -> int
    decreases cs.len() - j,
{
    if 0 <= j < cs.len() && cs[j] != '\'' {
        quote_scan(cs, j + 1)
    } else {
        j
    }
}

/// A `'...'B` or `'...'H` literal at `i`.
pub open spec fn radix_scan(cs: Seq<char>, i: int) -> Option<(TokenKind, int)> {
    let j = quote_scan(cs, i + 1);
    if j + 1 < cs.len() && cs[j + 1] == 'B' {
        Some((TokenKind::BString, j + 2))
    } else if j + 1 < cs.len() && cs[j + 1] == 'H' {
        Some((TokenKind::HString, j + 2))
    } else {
        None
    }
}

/// The punctuation token that is the single character `c`.
pub open spec fn punct_kind(c: char) -> Option<TokenKind> {
    if c == '{' {
        Some(TokenKind::LBrace)
    } else if c == '}' {
        Some(TokenKind::RBrace)
    } else if c == '(' {
        Some(TokenKind::LParen)
    } else if c == ')' {
        Some(TokenKind::RParen)
    } else if c == '[' {
        Some(TokenKind::LBracket)
    } else if c == ']' {
        Some(TokenKind::RBracket)
    } else if c == ',' {
        Some(TokenKind::Comma)
    } else if c == ';' {
        Some(TokenKind::Semicolon)
    } else if c == '|' {
        Some(TokenKind::Pipe)
    } else if c == '^' {
        Some(TokenKind::Caret)
    } else if c == '-' {
        Some(TokenKind::Minus)
    } else if c == '&' {
        Some(TokenKind::Amp)
    } else if c == '<' {
        Some(TokenKind::Less)
    } else if c == '@' {
        Some(TokenKind::At)
    } else if c == '!' {
        Some(TokenKind::Bang)
    } else {
        None
    }
}

/// The token that starts at `i`, read as long as it goes: its kind and the
/// index after it; `None` where no token starts there.
pub open spec fn scan_token_s(cs: Seq<char>, i: int) -> Option<(TokenKind, int)> {
    let n = cs.len();
    let c = cs[i];
    if is_letter(c) {
        Some((TokenKind::Word, word_scan(cs, i + 1)))
    } else if is_digit(c) {
        Some(number_scan(cs, i))
    } else if c == '"' {
        match cstring_scan(cs, i + 1) {
            Some(e) => Some((TokenKind::CString, e)),
            None => None,
        }
    } else if c == '\'' {
        radix_scan(cs, i)
    } else if c == ':' {
        if i + 2 < n && cs[i + 1] == ':' && cs[i + 2] == '=' {
            Some((TokenKind::Assign, i + 3))
        } else {
            Some((TokenKind::Colon, i + 1))
        }
    } else if c == '.' {
        if i + 2 < n && cs[i + 1] == '.' && cs[i + 2] == '.' {
            Some((TokenKind::Ellipsis, i + 3))
        } else if i + 1 < n && cs[i + 1] == '.' {
            Some((TokenKind::DotDot, i + 2))
        } else {
            Some((TokenKind::Dot, i + 1))
        }
    } else {
        match punct_kind(c) {
            Some(k) => Some((k, i + 1)),
            None => None,
        }
    }
}

/// The end of a `--` comment whose text starts at `k`: the end of the line,
/// or past the next `--`.
pub open spec fn line_comment_end(cs: Seq<char>, k: int) -> int
    decreases cs.len() - k,
{
    if k < 0 || k >= cs.len() {
        cs.len() as int
    } else if cs[k] == '\n' {
        k
    } else if cs[k] == '-' && k + 1 < cs.len() && cs[k + 1] == '-' {
        k + 2
    } else {
        line_comment_end(cs, k + 1)
    }
}

/// Past the `*/` that closes a block comment, `depth` comments being open at
/// `k`; comments nest.
pub open spec fn block_comment_end(cs: Seq<char>, k: int, depth: int) -> Option<int>
    decreases cs.len() - k,
{
    if k < 0 || k >= cs.len() {
        None
    } else if cs[k] == '/' && k + 1 < cs.len() && cs[k + 1] == '*' {
        block_comment_end(cs, k + 2, depth + 1)
    } else if cs[k] == '*' && k + 1 < cs.len() && cs[k + 1] == '/' {
        if depth == 1 {
            Some(k + 2)
        } else {
            block_comment_end(cs, k + 2, depth - 1)
        }
    } else {
        block_comment_end(cs, k + 1, depth)
    }
}

/// The first `*/` at or after `k`.
pub open spec fn comment_close(cs: Seq<char>, k: int) -> Option<int>
    decreases cs.len() - k,
{
    if k < 0 || k + 1 >= cs.len() {
        None
    } else if cs[k] == '*' && cs[k + 1] == '/' {
        Some(k)
    } else {
        comment_close(cs, k + 1)
    }
}

/// `/**` that opens a documentation comment at `i` (and not `/**/`).
pub open spec fn doc_comment_at(cs: Seq<char>, i: int) -> bool {
    i + 2 < cs.len() && cs[i + 2] == '*' && !(i + 3 < cs.len() && cs[i + 3] == '/')
}

/// The tokens of `cs` from `i`, where `doc` is the documentation comment read
/// since the last token: whitespace and comments separate tokens, and a
/// `/** ... */` comment, trimmed, goes with the token after it. `None` where
/// a comment or a literal is not closed, or no token starts.
pub open spec fn lex_s(cs: Seq<char>, i: int, doc: Option<Seq<char>>, file: FileId) -> Option<Seq<TokenV>>
    decreases cs.len() - i,
{
    let n = cs.len();
    if i < 0 || i >= n {
        Some(Seq::empty())
    } else {
        let c = cs[i];
        if is_space(c) {
            lex_s(cs, i + 1, doc, file)
        } else if c == '-' && i + 1 < n && cs[i + 1] == '-' {
            let e = line_comment_end(cs, i + 2);
            if e <= i || e > n {
                None
            } else {
                lex_s(cs, e, doc, file)
            }
        } else if c == '/' && i + 1 < n && cs[i + 1] == '*' {
            if doc_comment_at(cs, i) {
                match comment_close(cs, i + 3) {
                    Some(e) => if e <= i || e + 2 > n {
                        None
                    } else {
                        lex_s(cs, e + 2, Some(trim(cs.subrange(i + 3, e))), file)
                    },
                    None => None,
                }
            } else {
                match block_comment_end(cs, i + 2, 1) {
                    Some(e) => if e <= i || e > n {
                        None
                    } else {
                        lex_s(cs, e, doc, file)
                    },
                    None => None,
                }
            }
        } else {
            match scan_token_s(cs, i) {
                Some((k, e)) => if e <= i || e > n {
                    None
                } else {
                    let t = TokenV {
                        kind: k,
                        text: cs.subrange(i, e),
                        span: Span { file, start: i as usize, end: e as usize },
                        doc,
                    };
                    match lex_s(cs, e, None, file) {
                        Some(rest) => Some(seq![t] + rest),
                        None => None,
                    }
                },
                None => None,
            }
        }
    }
}

/// The error of a token that cannot be read at `i`: its message and the
/// start and end of its span.
pub open spec fn token_error(cs: Seq<char>, i: int) -> (Seq<char>, int, int) {
    let c = cs[i];
    if c == '"' {
        ("unterminated string literal"@, i, cs.len() as int)
    } else if c == '\'' {
        ("malformed bit or hex string literal"@, i, cs.len() as int)
    } else {
        ("unexpected character"@, i, i + 1)
    }
}

/// Where the text `cs` fails to lex from `i` (see [`lex_s`]): the message of
/// the first error and the start and end of its span. It means something only
/// where `lex_s` has no result.
pub open spec fn lex_error_s(cs: Seq<char>, i: int) -> (Seq<char>, int, int)
    decreases cs.len() - i,
{
    let n = cs.len();
    if i < 0 || i >= n {
        (Seq::empty(), 0, 0)
    } else {
        let c = cs[i];
        if is_space(c) {
            lex_error_s(cs, i + 1)
        } else if c == '-' && i + 1 < n && cs[i + 1] == '-' {
            let e = line_comment_end(cs, i + 2);
            if e <= i || e > n {
                (Seq::empty(), 0, 0)
            } else {
                lex_error_s(cs, e)
            }
        } else if c == '/' && i + 1 < n && cs[i + 1] == '*' {
            let end = if doc_comment_at(cs, i) {
                match comment_close(cs, i + 3) {
                    Some(e) => Some(e + 2),
                    None => None,
                }
            } else {
                block_comment_end(cs, i + 2, 1)
            };
            match end {
                Some(e) => if e <= i || e > n {
                    (Seq::empty(), 0, 0)
                } else {
                    lex_error_s(cs, e)
                },
                None => ("unterminated comment"@, i, n as int),
            }
        } else {
            match scan_token_s(cs, i) {
                Some((_, e)) => if e <= i || e > n {
                    (Seq::empty(), 0, 0)
                } else {
                    lex_error_s(cs, e)
                },
                None => token_error(cs, i),
            }
        }
    }
}

fn letter(c: char) -> (r: bool)
    ensures
        r == is_letter(c),
{
    ('a' <= c && c <= 'z') || ('A' <= c && c <= 'Z')
}

fn digit(c: char) -> (r: bool)
    ensures
        r == is_digit(c),
{
    '0' <= c && c <= '9'
}

fn alnum(c: char) -> (r: bool)
    ensures
        r == is_alnum(c),
{
    letter(c) || digit(c)
}

fn scan_word(cs: &Vec<char>, i: usize) -> (e: usize)
    requires
        i < cs@.len(),
        is_letter(cs@[i as int]),
    ensures
        i < e <= cs@.len(),
        word_shape(cs@.subrange(i as int, e as int)),
        e == word_scan(cs@, i + 1),
{
    let n = cs.len();
    let mut j = i + 1;
    while j < n
        invariant
            i < j <= n == cs@.len(),
            is_letter(cs@[i as int]),
            forall|k: int| i <= k < j ==> is_alnum(#[trigger] cs@[k]) || cs@[k] == '-',
            forall|k: int| i <= k < j && #[trigger] cs@[k] == '-' ==> k + 1 < j && is_alnum(cs@[k + 1]),
            word_scan(cs@, i + 1) == word_scan(cs@, j as int),
        ensures
            i < j <= n == cs@.len(),
            is_letter(cs@[i as int]),
            forall|k: int| i <= k < j ==> is_alnum(#[trigger] cs@[k]) || cs@[k] == '-',
            forall|k: int| i <= k < j && #[trigger] cs@[k] == '-' ==> k + 1 < j && is_alnum(cs@[k + 1]),
            word_scan(cs@, i + 1) == word_scan(cs@, j as int),
            word_scan(cs@, j as int) == j,
        decreases n - j,
    {
        if alnum(cs[j]) {
            j = j + 1;
        } else if cs[j] == '-' && j + 1 < n && alnum(cs[j + 1]) {
            j = j + 2;
        } else {
            break;
        }
    }
    proof {
        let t = cs@.subrange(i as int, j as int);
        assert forall|k: int| 0 <= k < t.len() implies is_alnum(#[trigger] t[k]) || t[k] == '-' by {
            assert(t[k] == cs@[i + k]);
        }
        assert forall|k: int| 0 <= k < t.len() && #[trigger] t[k] == '-' implies k + 1 < t.len()
            && is_alnum(t[k + 1]) by {
            assert(t[k] == cs@[i + k]);
            assert(t[k + 1] == cs@[i + k + 1]);
        }
    }
    j
}

fn scan_digits(cs: &Vec<char>, i: usize) -> (e: usize)
    requires
        i <= cs@.len(),
    ensures
        i <= e <= cs@.len(),
        all_digits(cs@.subrange(i as int, e as int)),
        e < cs@.len() ==> !is_digit(cs@[e as int]),
        e == digits_scan(cs@, i as int),
{
    let n = cs.len();
    let mut j = i;
    while j < n && digit(cs[j])
        invariant
            i <= j <= n == cs@.len(),
            forall|k: int| i <= k < j ==> is_digit(#[trigger] cs@[k]),
            digits_scan(cs@, i as int) == digits_scan(cs@, j as int),
        decreases n - j,
    {
        j = j + 1;
    }
    proof {
        let t = cs@.subrange(i as int, j as int);
        assert forall|k: int| 0 <= k < t.len() implies is_digit(#[trigger] t[k]) by {
            assert(t[k] == cs@[i + k]);
        }
    }
    j
}

fn scan_number(cs: &Vec<char>, i: usize) -> (r: (TokenKind, usize))
    requires
        i < cs@.len(),
        is_digit(cs@[i as int]),
    ensures
        i < r.1 <= cs@.len(),
        r.0 == TokenKind::Number || r.0 == TokenKind::Real,
        token_shape(r.0, cs@.subrange(i as int, r.1 as int)),
        r.0 == number_scan(cs@, i as int).0 && r.1 == number_scan(cs@, i as int).1,
{
    reveal(token_shape);
    let n = cs.len();
    let j = scan_digits(cs, i);
    assert(j > i) by {
        if j == i {
            assert(!is_digit(cs@[i as int]));
        }
    }
    if j < n && n - j > 1 && cs[j] == '.' && digit(cs[j + 1]) {
        let e = scan_digits(cs, j + 1);
        proof {
            let t = cs@.subrange(i as int, e as int);
            let k = j - i;
            assert(t.take(k) =~= cs@.subrange(i as int, j as int));
            assert(t.skip(k + 1) =~= cs@.subrange(j + 1, e as int));
            assert(t[k] == '.');
            assert(all_digits(t.take(k)));
            assert(real_shape(t));
        }
        (TokenKind::Real, e)
    } else {
        (TokenKind::Number, j)
    }
}

fn scan_cstring(cs: &Vec<char>, i: usize) -> (r: Option<usize>)
    requires
        i < cs@.len(),
        cs@[i as int] == '"',
    ensures
        r matches Some(e) ==> i < e <= cs@.len() && cstring_shape(cs@.subrange(i as int, e as int)),
        r matches Some(e) ==> cstring_scan(cs@, i + 1) == Some(e as int),
        r is None ==> cstring_scan(cs@, i + 1) is None,
{
    let n = cs.len();
    let mut j = i + 1;
    while j < n
        invariant
            i < j <= n == cs@.len(),
            cs@[i as int] == '"',
            cstring_scan(cs@, i + 1) == cstring_scan(cs@, j as int),
        decreases n - j,
    {
        if cs[j] == '"' {
            if j + 1 < n && cs[j + 1] == '"' {
                j = j + 2;
            } else {
                return Some(j + 1);
            }
        } else {
            j = j + 1;
        }
    }
    None
}

fn scan_radix_string(cs: &Vec<char>, i: usize) -> (r: Option<(TokenKind, usize)>)
    requires
        i < cs@.len(),
        cs@[i as int] == '\'',
    ensures
        r matches Some((k, e)) ==> i < e <= cs@.len() && (k == TokenKind::BString || k
            == TokenKind::HString) && token_shape(k, cs@.subrange(i as int, e as int)),
        r matches Some((k, e)) ==> radix_scan(cs@, i as int) == Some((k, e as int)),
        r is None ==> radix_scan(cs@, i as int) is None,
{
    reveal(token_shape);
    let n = cs.len();
    let mut j = i + 1;
    while j < n && cs[j] != '\''
        invariant
            i < j <= n == cs@.len(),
            quote_scan(cs@, i + 1) == quote_scan(cs@, j as int),
        decreases n - j,
    {
        j = j + 1;
    }
    if j < n && n - j > 1 {
        if cs[j + 1] == 'B' {
            return Some((TokenKind::BString, j + 2));
        } else if cs[j + 1] == 'H' {
            return Some((TokenKind::HString, j + 2));
        }
    }
    None
}

fn single_punct(c: char) -> (r: Option<TokenKind>)
    ensures
        r matches Some(k) ==> punct_text(k) == seq![c] && k != TokenKind::Word && k
            != TokenKind::Number && k != TokenKind::Real && k != TokenKind::CString && k
            != TokenKind::BString && k != TokenKind::HString,
        r == punct_kind(c),
{
    if c == '{' {
        Some(TokenKind::LBrace)
    } else if c == '}' {
        Some(TokenKind::RBrace)
    } else if c == '(' {
        Some(TokenKind::LParen)
    } else if c == ')' {
        Some(TokenKind::RParen)
    } else if c == '[' {
        Some(TokenKind::LBracket)
    } else if c == ']' {
        Some(TokenKind::RBracket)
    } else if c == ',' {
        Some(TokenKind::Comma)
    } else if c == ';' {
        Some(TokenKind::Semicolon)
    } else if c == '|' {
        Some(TokenKind::Pipe)
    } else if c == '^' {
        Some(TokenKind::Caret)
    } else if c == '-' {
        Some(TokenKind::Minus)
    } else if c == '&' {
        Some(TokenKind::Amp)
    } else if c == '<' {
        Some(TokenKind::Less)
    } else if c == '@' {
        Some(TokenKind::At)
    } else if c == '!' {
        Some(TokenKind::Bang)
    } else {
        None
    }
}

fn error_at(message: &str, file: FileId, start: usize, end: usize) -> (e: ParseError)
    ensures
        e.message@ == message@,
        e.span == (Span { file, start, end }),
{
    ParseError::new(message, Span { file, start, end })
}

/// Read the token that starts at `i`.
fn scan_token(cs: &Vec<char>, i: usize, file: FileId) -> (r: Result<(TokenKind, usize), ParseError>)
    requires
        i < cs@.len(),
    ensures
        r matches Ok((k, e)) ==> i < e <= cs@.len() && token_shape(k, cs@.subrange(i as int, e as int))
            && scan_token_s(cs@, i as int) == Some((k, e as int)),
        r matches Err(e) ==> scan_token_s(cs@, i as int) is None && e.message@ == token_error(cs@, i as int).0
            && e.span == (Span {
                file,
                start: token_error(cs@, i as int).1 as usize,
                end: token_error(cs@, i as int).2 as usize,
            }),
{
    reveal(token_shape);
    let n = cs.len();
    let c = cs[i];
    if letter(c) {
        let e = scan_word(cs, i);
        return Ok((TokenKind::Word, e));
    }
    if digit(c) {
        return Ok(scan_number(cs, i));
    }
    if c == '"' {
        return match scan_cstring(cs, i) {
            Some(e) => Ok((TokenKind::CString, e)),
            None => Err(error_at("unterminated string literal", file, i, n)),
        };
    }
    if c == '\'' {
        return match scan_radix_string(cs, i) {
            Some(r) => Ok(r),
            None => Err(error_at("malformed bit or hex string literal", file, i, n)),
        };
    }
    if c == ':' {
        if n - i > 2 && cs[i + 1] == ':' && cs[i + 2] == '=' {
            assert(cs@.subrange(i as int, i + 3) =~= seq![':', ':', '=']);
            return Ok((TokenKind::Assign, i + 3));
        }
        assert(cs@.subrange(i as int, i + 1) =~= seq![':']);
        return Ok((TokenKind::Colon, i + 1));
    }
    if c == '.' {
        if n - i > 2 && cs[i + 1] == '.' && cs[i + 2] == '.' {
            assert(cs@.subrange(i as int, i + 3) =~= seq!['.', '.', '.']);
            return Ok((TokenKind::Ellipsis, i + 3));
        }
        if i + 1 < n && cs[i + 1] == '.' {
            assert(cs@.subrange(i as int, i + 2) =~= seq!['.', '.']);
            return Ok((TokenKind::DotDot, i + 2));
        }
        assert(cs@.subrange(i as int, i + 1) =~= seq!['.']);
        return Ok((TokenKind::Dot, i + 1));
    }
    match single_punct(c) {
        Some(k) => {
            assert(cs@.subrange(i as int, i + 1) =~= seq![c]);
            Ok((k, i + 1))
        },
        None => Err(error_at("unexpected character", file, i, i + 1)),
    }
}

/// Index just past a `--` comment whose text starts at `j`: the comment ends
/// at the end of the line or at the next `--`.
fn skip_line_comment(cs: &Vec<char>, j: usize) -> (e: usize)
    requires
        j <= cs@.len(),
    ensures
        j <= e <= cs@.len(),
        e == line_comment_end(cs@, j as int),
{
    let n = cs.len();
    let mut k = j;
    while k < n
        invariant
            j <= k <= n == cs@.len(),
            line_comment_end(cs@, j as int) == line_comment_end(cs@, k as int),
        decreases n - k,
    {
        if cs[k] == '\n' {
            return k;
        }
        if cs[k] == '-' && k + 1 < n && cs[k + 1] == '-' {
            return k + 2;
        }
        k = k + 1;
    }
    n
}

/// Index just past the `*/` that closes a block comment whose text starts at
/// `j`; block comments nest.
fn skip_block_comment(cs: &Vec<char>, j: usize) -> (r: Option<usize>)
    requires
        j <= cs@.len(),
    ensures
        r matches Some(e) ==> j < e <= cs@.len(),
        r matches Some(e) ==> block_comment_end(cs@, j as int, 1) == Some(e as int),
        r is None ==> block_comment_end(cs@, j as int, 1) is None,
{
    let n = cs.len();
    let mut k = j;
    let mut depth: usize = 1;
    while k < n
        invariant
            j <= k <= n == cs@.len(),
            1 <= depth <= k - j + 1,
            block_comment_end(cs@, j as int, 1) == block_comment_end(cs@, k as int, depth as int),
        decreases n - k,
    {
        if cs[k] == '/' && k + 1 < n && cs[k + 1] == '*' {
            depth = depth + 1;
            k = k + 2;
        } else if cs[k] == '*' && k + 1 < n && cs[k + 1] == '/' {
            if depth == 1 {
                return Some(k + 2);
            }
            depth = depth - 1;
            k = k + 2;
        } else {
            k = k + 1;
        }
    }
    None
}

/// First index `e >= j` where `*/` starts.
fn find_comment_end(cs: &Vec<char>, j: usize) -> (r: Option<usize>)
    requires
        j <= cs@.len(),
    ensures
        r matches Some(e) ==> j <= e && e + 2 <= cs@.len(),
        r matches Some(e) ==> comment_close(cs@, j as int) == Some(e as int),
        r is None ==> comment_close(cs@, j as int) is None,
{
    let n = cs.len();
    let mut k = j;
    while k < n && n - k > 1
        invariant
            j <= k <= n == cs@.len(),
            comment_close(cs@, j as int) == comment_close(cs@, k as int),
        decreases n - k,
    {
        if cs[k] == '*' && cs[k + 1] == '/' {
            return Some(k);
        }
        k = k + 1;
    }
    None
}

fn push_token(toks: &mut Vec<Token>, tok: Token, Ghost(src): Ghost<Seq<char>>, file: FileId)
    requires
        tokens_wf(old(toks)@, src, file),
        token_wf(tok, src, file),
        old(toks)@.len() > 0 ==> old(toks)@.last().span.end <= tok.span.start,
    ensures
        final(toks)@ == old(toks)@.push(tok),
        tokens_wf(final(toks)@, src, file),
{
    let ghost old_toks = toks@;
    toks.push(tok);
    proof {
        assert forall|k: int| 0 <= k < toks@.len() implies token_wf(#[trigger] toks@[k], src, file) by {
            if k < old_toks.len() {
                assert(toks@[k] == old_toks[k]);
            }
        }
        assert forall|a: int, b: int| 0 <= a < b < toks@.len() implies (#[trigger] toks@[a]).span.end
            <= (#[trigger] toks@[b]).span.start by {
            assert(toks@[a] == old_toks[a]);
            if b < old_toks.len() {
                assert(toks@[b] == old_toks[b]);
            } else {
                if a < old_toks.len() - 1 {
                    assert(old_toks[a].span.end <= old_toks[old_toks.len() - 1].span.start);
                }
            }
        }
    }
}

/// Split `source` (the text of file `file`) into tokens. Whitespace and
/// comments separate tokens; a `/** ... */` comment is attached, trimmed, to
/// the token that follows it.
pub fn tokenize(file: FileId, source: &str) -> (r: Result<Vec<Token>, ParseError>)
    ensures
        r matches Ok(toks) ==> tokens_wf(toks@, source@, file) && lex_s(source@, 0, None, file) == Some(
            tokens_v(toks@),
        ),
        r matches Err(e) ==> lex_s(source@, 0, None, file) is None && e.message@ == lex_error_s(source@, 0).0
            && e.span == (Span {
                file,
                start: lex_error_s(source@, 0).1 as usize,
                end: lex_error_s(source@, 0).2 as usize,
            }),
{
    let cs = chars_of(source);
    let n = cs.len();
    let mut toks: Vec<Token> = Vec::new();
    let mut doc: Option<String> = None;
    let mut i: usize = 0;
    proof {
        if let Some(rest) = lex_s(cs@, 0, None, file) {
            assert(tokens_v(toks@) + rest =~= rest);
        }
    }
    while i < n
        invariant
            i <= n == cs@.len(),
            cs@ == source@,
            tokens_wf(toks@, cs@, file),
            toks@.len() > 0 ==> toks@.last().span.end <= i,
            lex_s(cs@, 0, None, file) == match lex_s(cs@, i as int, doc_v(doc), file) {
                Some(rest) => Some(tokens_v(toks@) + rest),
                None => None,
            },
            lex_error_s(cs@, 0) == lex_error_s(cs@, i as int),
        decreases n - i,
    {
        let c = cs[i];
        if space(c) {
            i = i + 1;
            continue ;
        }
        if c == '-' && i + 1 < n && cs[i + 1] == '-' {
            i = skip_line_comment(&cs, i + 2);
            continue ;
        }
        if c == '/' && i + 1 < n && cs[i + 1] == '*' {
            if n - i > 2 && cs[i + 2] == '*' && !(n - i > 3 && cs[i + 3] == '/') {
                match find_comment_end(&cs, i + 3) {
                    Some(e) => {
                        doc = Some(trimmed_string(&cs, i + 3, e));
                        i = e + 2;
                    },
                    None => {
                        return Err(error_at("unterminated comment", file, i, n));
                    },
                }
            } else {
                match skip_block_comment(&cs, i + 2) {
                    Some(e) => {
                        i = e;
                    },
                    None => {
                        return Err(error_at("unterminated comment", file, i, n));
                    },
                }
            }
            continue ;
        }
        let (kind, end) = match scan_token(&cs, i, file) {
            Ok(r) => r,
            Err(e) => {
                return Err(e);
            },
        };
        let text = slice_string(&cs, i, end);
        let ghost before = toks@;
        let tok = Token { kind, text, span: Span { file, start: i, end }, doc };
        doc = None;
        push_token(&mut toks, tok, Ghost(cs@), file);
        proof {
            assert(tokens_v(toks@) =~= tokens_v(before).push(token_v(tok)));
            if let Some(rest) = lex_s(cs@, end as int, None, file) {
                assert(tokens_v(before) + (seq![token_v(tok)] + rest) =~= tokens_v(toks@) + rest);
            }
        }
        i = end;
    }
    proof {
        assert(tokens_v(toks@) + Seq::<TokenV>::empty() =~= tokens_v(toks@));
    }
    Ok(toks)
}

} // verus!
