//! Parsing of ASN.1 modules and their lowering into a resolved intermediate
//! representation.
pub mod cst;
pub mod diagnostics;
pub mod grammar;
pub mod ir;
pub mod laws;
pub mod lexer;
pub mod lower;
pub mod productions;
pub mod query;
pub mod render;
pub mod resolve;
pub mod syntax;
pub mod text;

use vstd::prelude::*;

pub use cst::{
    Assignment, AssignmentKind, CharStringKind, ChoiceType, ClassDef, Component, Constraint,
    EnumItem, FieldRef, FieldSpec, ImportClause, Module, NamedNumber, NamedNumberValue, ObjectDef,
    ObjectFieldSetting, ObjectSet, ObjectSetElement, OidComponent, Optionality, StructMember,
    StructType, TagDefault, Type, TypeKind, Value, ValueBound, WithClause,
};
pub use diagnostics::{FileId, Location, ParseError, SourceFile, SourceMap, Span, Spanned};
pub use grammar::parse_module as parse_tokens;
pub use ir::{
    IrCharKind, IrChoice, IrClassField, IrConstraint, IrDiagnostic, IrEnumItem, IrField, IrImport,
    IrItem, IrModule, IrObjectClassDef, IrObjectDef, IrObjectFieldBinding, IrObjectFieldValue,
    IrObjectSetDef, IrOidPart, IrOptionality, IrProgram, IrStruct, IrStructMember, IrType,
    IrTypeDef, IrValueDef,
};
pub use lower::lower;
pub use query::render_type;

verus! {

/// `toks` are the tokens of the text `src` of file `file`.
pub open spec fn lexed(src: Seq<char>, file: FileId, toks: Seq<lexer::Token>) -> bool {
    lexer::lex_s(src, 0, None, file) == Some(lexer::tokens_v(toks))
}

/// `r` is what parsing the text `src` of file `file` gives: a module exactly
/// when the text lexes to tokens that the grammar reads as that module, and an
/// error exactly when the text does not lex (the error is then the first
/// lexical error, with its message and span) or its tokens are no module.
pub open spec fn parse_result(src: Seq<char>, file: FileId, r: Result<Module, ParseError>) -> bool {
    match r {
        Ok(m) => exists|toks: Seq<lexer::Token>|
            lexed(src, file, toks) && productions::module_s(toks) == Some(syntax::module_v(m)),
        Err(e) => if lexer::lex_s(src, 0, None, file) is None {
            &&& e.message@ == lexer::lex_error_s(src, 0).0
            &&& e.span == (Span {
                file,
                start: lexer::lex_error_s(src, 0).1 as usize,
                end: lexer::lex_error_s(src, 0).2 as usize,
            })
        } else {
            exists|toks: Seq<lexer::Token>| lexed(src, file, toks) && productions::module_s(toks) is None
        },
    }
}

/// Tokenize and parse the source text registered under `file` in `sources`.
pub fn parse_source(sources: &SourceMap, file: FileId) -> (r: Result<Module, ParseError>)
    ensures
        file.0 >= sources@.len() ==> (r matches Err(e) && e.message@
            == "file id not registered in source map"@ && e.span == (Span { file: FileId(0), start: 0, end: 0 })),
        r is Ok ==> file.0 < sources@.len(),
        file.0 < sources@.len() ==> parse_result(sources@[file.0 as int].source@, file, r),
{
    let source = match sources.get(file) {
        Some(s) => s,
        None => {
            return Err(ParseError::new("file id not registered in source map", Span::dummy()));
        },
    };
    let tokens = lexer::tokenize(file, source.source.as_str())?;
    let ghost toks = tokens@;
    let r = grammar::parse_module(tokens);
    proof {
        assert(lexed(sources@[file.0 as int].source@, file, toks));
    }
    r
}

/// Convenience: parse a source string that is not yet in a `SourceMap`.
///
/// Adds the file and returns both the source id and the parsed module so the
/// caller can render diagnostics with full context.
pub fn parse_text(sources: &mut SourceMap, path: &str, source: String) -> (r: Result<
    (FileId, Module),
    ParseError,
>)
    ensures
        final(sources)@.len() == old(sources)@.len() + 1,
        final(sources)@.take(old(sources)@.len() as int) == old(sources)@,
        final(sources)@.last().path@ == path@,
        final(sources)@.last().source@ == source@,
        r matches Ok((id, _)) ==> id == FileId(old(sources)@.len() as usize),
        parse_result(
            source@,
            FileId(old(sources)@.len() as usize),
            match r {
                Ok((_, m)) => Ok(m),
                Err(e) => Err(e),
            },
        ),
{
    let ghost text = source@;
    let file = sources.add(path, source);
    let module = parse_source(sources, file)?;
    proof {
        assert(sources@[file.0 as int].source@ == text);
    }
    Ok((file, module))
}

} // verus!
