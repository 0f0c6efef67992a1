//! Source files, spans and parse errors.
use vstd::prelude::*;

use crate::text::{append_decimal, chars_of, decimal, push_char};

verus! {

/// Identifies a file registered in a [`SourceMap`].
#[derive(Debug, Clone, Copy, PartialEq, Eq, Structural)]
pub struct FileId(pub usize);

/// A half-open range of character offsets `[start, end)` in one file.
#[derive(Debug, Clone, Copy, PartialEq, Eq, Structural)]
pub struct Span {
    pub file: FileId,
    pub start: usize,
    pub end: usize,
}

impl Span {
    /// The placeholder span used where no source position applies.
    pub fn dummy() -> (s: Span)
        ensures
            s.file.0 == 0,
            s.start == 0,
            s.end == 0,
    {
        Span { file: FileId(0), start: 0, end: 0 }
    }
}

/// A value together with the span of source text it was read from.
#[derive(Debug, Clone)]
pub struct Spanned<T> {
    pub value: T,
    pub span: Span,
}

/// A one-based line and column.
#[derive(Debug, Clone, Copy, PartialEq, Eq, Structural)]
pub struct Location {
    pub line: usize,
    pub column: usize,
}

/// A registered file: the path it was registered under and its text.
#[derive(Debug)]
pub struct SourceFile {
    pub path: String,
    pub source: String,
}

/// The files known to a parse, indexed by [`FileId`].
#[derive(Debug)]
pub struct SourceMap {
    files: Vec<SourceFile>,
}

impl View for SourceMap {
    type V = Seq<SourceFile>;

    closed spec fn view(&self) -> Seq<SourceFile> {
        self.files@
    }
}

/// Number of line breaks in `s`.
pub open spec fn newlines(s: Seq<char>) -> nat
    decreases s.len(),
{
    if s.len() == 0 {
        0
    } else {
        newlines(s.drop_last()) + if s.last() == '\n' { 1nat } else { 0nat }
    }
}

/// One-based column of the position just after `s`.
pub open spec fn column_after(s: Seq<char>) -> nat
    decreases s.len(),
{
    if s.len() == 0 {
        1
    } else if s.last() == '\n' {
        1
    } else {
        column_after(s.drop_last()) + 1
    }
}

/// The line and column of character offset `offset` in `src` (offsets past the
/// end are clamped to the end).
pub open spec fn location_of(src: Seq<char>, offset: int) -> (nat, nat) {
    let k = if offset < src.len() { offset } else { src.len() as int };
    (newlines(src.take(k)) + 1, column_after(src.take(k)))
}

impl SourceMap {
    pub fn new() -> (m: SourceMap)
        ensures
            m@.len() == 0,
    {
        SourceMap { files: Vec::new() }
    }

    /// Register `source` under `path`; returns the id of the new file.
    pub fn add(&mut self, path: &str, source: String) -> (id: FileId)
        ensures
            id.0 == old(self)@.len(),
            final(self)@.len() == old(self)@.len() + 1,
            final(self)@.take(old(self)@.len() as int) == old(self)@,
            final(self)@.last().path@ == path@,
            final(self)@.last().source@ == source@,
    {
        let id = FileId(self.files.len());
        let mut p = String::new();
        p.append(path);
        self.files.push(SourceFile { path: p, source });
        proof {
            assert(self.files@.take(old(self)@.len() as int) =~= old(self)@);
        }
        id
    }

    /// The file registered under `id`, if any.
    pub fn get(&self, id: FileId) -> (r: Option<&SourceFile>)
        ensures
            id.0 < self@.len() ==> r == Some(&self@[id.0 as int]),
            id.0 >= self@.len() ==> r is None,
    {
        if id.0 < self.files.len() {
            Some(&self.files[id.0])
        } else {
            None
        }
    }

    /// Number of registered files.
    pub fn len(&self) -> (n: usize)
        ensures
            n == self@.len(),
    {
        self.files.len()
    }
}

impl SourceFile {
    /// Line and column of character offset `offset`.
    pub fn location(&self, offset: usize) -> (loc: Location)
        requires
            self.source@.len() < usize::MAX,
        ensures
            (loc.line as nat, loc.column as nat) == location_of(self.source@, offset as int),
    {
        let cs = chars_of(self.source.as_str());
        let k = if offset < cs.len() { offset } else { cs.len() };
        let mut line: usize = 1;
        let mut column: usize = 1;
        let mut i: usize = 0;
        while i < k
            invariant
                k <= cs@.len(),
                cs@.len() < usize::MAX,
                cs@ == self.source@,
                i <= k,
                line as nat == newlines(cs@.take(i as int)) + 1,
                column as nat == column_after(cs@.take(i as int)),
                line <= i + 1,
                column <= i + 1,
            decreases k - i,
        {
            proof {
                assert(cs@.take(i + 1).drop_last() =~= cs@.take(i as int));
            }
            if cs[i] == '\n' {
                line = line + 1;
                column = 1;
            } else {
                column = column + 1;
            }
            i = i + 1;
        }
        Location { line, column }
    }
}

/// A lexing or parsing failure, with the span it concerns.
#[derive(Debug, Clone)]
pub struct ParseError {
    pub message: String,
    pub span: Span,
}

/// The rendering of an error whose span lies in a registered file:
/// `path:line:column: message`.
pub open spec fn rendered_error(path: Seq<char>, line: nat, column: nat, message: Seq<char>) -> Seq<char> {
    path + seq![':'] + decimal(line) + seq![':'] + decimal(column) + seq![':', ' '] + message
}

impl ParseError {
    pub fn new(message: &str, span: Span) -> (e: ParseError)
        ensures
            e.message@ == message@,
            e.span == span,
    {
        let mut m = String::new();
        m.append(message);
        ParseError { message: m, span }
    }

    /// Render the error with its file position; an error whose file is not
    /// registered renders as its bare message.
    pub fn render(&self, sources: &SourceMap) -> (out: String)
        ensures
            self.span.file.0 < sources@.len() && sources@[self.span.file.0 as int].source@.len()
                < usize::MAX ==> {
                let f = sources@[self.span.file.0 as int];
                let (line, column) = location_of(f.source@, self.span.start as int);
                out@ == rendered_error(f.path@, line, column, self.message@)
            },
            self.span.file.0 >= sources@.len() ==> out@ == self.message@,
    {
        match sources.get(self.span.file) {
            Some(f) if f.source.as_str().unicode_len() < usize::MAX => {
                let loc = f.location(self.span.start);
                let mut out = String::new();
                out.append(f.path.as_str());
                push_char(&mut out, ':');
                append_decimal(&mut out, loc.line as u128);
                push_char(&mut out, ':');
                append_decimal(&mut out, loc.column as u128);
                push_char(&mut out, ':');
                push_char(&mut out, ' ');
                out.append(self.message.as_str());
                proof {
                    assert(out@ =~= rendered_error(
                        f.path@,
                        loc.line as nat,
                        loc.column as nat,
                        self.message@,
                    ));
                }
                out
            },
            _ => {
                let mut out = String::new();
                out.append(self.message.as_str());
                proof {
                    assert(out@ =~= self.message@);
                }
                out
            },
        }
    }
}

} // verus!
