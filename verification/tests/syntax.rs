use asn1_ir::lexer::{tokenize, TokenKind};
use asn1_ir::{
    parse_source, AssignmentKind, Constraint, FileId, Module, SourceMap, StructMember, TypeKind,
    Value,
};

fn parse(src: &str) -> Module {
    let mut sm = SourceMap::new();
    let f = sm.add("s.asn", src.to_string());
    match parse_source(&sm, f) {
        Ok(m) => m,
        Err(e) => panic!("{}", e.render(&sm)),
    }
}

fn parse_error(src: &str) -> String {
    let mut sm = SourceMap::new();
    let f = sm.add("s.asn", src.to_string());
    match parse_source(&sm, f) {
        Ok(_) => panic!("expected an error"),
        Err(e) => e.message,
    }
}

fn kinds(src: &str) -> Vec<TokenKind> {
    tokenize(FileId(0), src).unwrap().iter().map(|t| t.kind).collect()
}

fn value_assignment(m: &Module, i: usize) -> &Value {
    match &m.assignments[i].kind {
        AssignmentKind::Value { value, .. } => value,
        other => panic!("expected a value assignment, got {other:?}"),
    }
}

#[test]
fn punctuation_is_read_longest_first() {
    assert_eq!(
        kinds("::= : ... .. . 1.5 12 -"),
        vec![
            TokenKind::Assign,
            TokenKind::Colon,
            TokenKind::Ellipsis,
            TokenKind::DotDot,
            TokenKind::Dot,
            TokenKind::Real,
            TokenKind::Number,
            TokenKind::Minus,
        ]
    );
}

#[test]
fn words_keep_inner_hyphens_only() {
    let toks = tokenize(FileId(0), "RELATIVE-OID a-b- c--d").unwrap();
    let texts: Vec<&str> = toks.iter().map(|t| t.text.as_str()).collect();
    assert_eq!(texts, vec!["RELATIVE-OID", "a-b", "-", "c"]);
    assert_eq!(toks[1].span.start, 13);
    assert_eq!(toks[1].span.end, 16);
}

#[test]
fn comments_separate_tokens() {
    assert_eq!(
        kinds("a -- one -- b\nc /* x /* nested */ y */ d /**/ e"),
        vec![TokenKind::Word, TokenKind::Word, TokenKind::Word, TokenKind::Word, TokenKind::Word]
    );
    let toks = tokenize(FileId(0), "/**/ a /**  doc  */ b").unwrap();
    assert_eq!(toks[0].doc, None);
    assert_eq!(toks[1].doc.as_deref(), Some("doc"));
}

#[test]
fn lexical_errors() {
    assert_eq!(tokenize(FileId(0), "a $ b").unwrap_err().message, "unexpected character");
    assert_eq!(tokenize(FileId(0), "\"open").unwrap_err().message, "unterminated string literal");
    assert_eq!(tokenize(FileId(0), "/* open").unwrap_err().message, "unterminated comment");
    assert_eq!(
        tokenize(FileId(0), "'0101'X").unwrap_err().message,
        "malformed bit or hex string literal"
    );
}

#[test]
fn literal_values_are_read() {
    let m = parse(
        r#"M DEFINITIONS ::= BEGIN
            a BIT STRING ::= '0101 1'B
            b OCTET STRING ::= 'FF'H
            c UTF8String ::= "say ""hi"""
            d INTEGER ::= -7
            e REAL ::= -2.5
            f MyChoice ::= alt : 3
        END"#,
    );
    assert!(matches!(value_assignment(&m, 0), Value::BString(s) if s == "01011"));
    assert!(matches!(value_assignment(&m, 1), Value::HString(s) if s == "FF"));
    assert!(matches!(value_assignment(&m, 2), Value::String(s) if s == "say \"hi\""));
    assert!(matches!(value_assignment(&m, 3), Value::Integer(-7)));
    assert!(matches!(value_assignment(&m, 4), Value::Real(s) if s == "-2.5"));
    match value_assignment(&m, 5) {
        Value::Choice(name, inner) => {
            assert_eq!(name.value, "alt");
            assert!(matches!(inner.as_ref(), Value::Integer(3)));
        },
        other => panic!("expected a choice value, got {other:?}"),
    }
}

#[test]
fn with_components_keeps_the_named_components() {
    let m = parse(
        "M DEFINITIONS ::= BEGIN
            T ::= S (WITH COMPONENTS { ..., a PRESENT, b (SIZE (1)) ABSENT })
        END",
    );
    let AssignmentKind::Type(t) = &m.assignments[0].kind else { panic!() };
    assert_eq!(t.constraints.len(), 1);
    match &t.constraints[0] {
        Constraint::WithComponents(names) => {
            let names: Vec<&str> = names.iter().map(|n| n.value.as_str()).collect();
            assert_eq!(names, vec!["a", "b"]);
        },
        other => panic!("expected WITH COMPONENTS, got {other:?}"),
    }
}

#[test]
fn exports_and_parameters_are_passed_over() {
    let m = parse(
        "M DEFINITIONS ::= BEGIN
            EXPORTS T, U;
            Wrap {Param} ::= SEQUENCE { v Param }
            T ::= SEQUENCE { COMPONENTS OF U, ..., [[ 2: x INTEGER ]], ... , y BOOLEAN }
        END",
    );
    assert_eq!(m.assignments.len(), 2);
    assert_eq!(m.assignments[0].name.value, "Wrap");
    let AssignmentKind::Type(t) = &m.assignments[1].kind else { panic!() };
    let TypeKind::Sequence(s) = &t.kind else { panic!() };
    assert!(s.extensible);
    assert_eq!(s.components.len(), 2);
    assert!(matches!(&s.components[0], StructMember::ComponentsOf { .. }));
    assert_eq!(s.extension_additions.len(), 1);
}

#[test]
fn grammar_errors() {
    assert_eq!(parse_error("M BEGIN END"), "expected `DEFINITIONS`");
    assert_eq!(parse_error("M DEFINITIONS ::= BEGIN EXPORTS T"), "expected `;` after EXPORTS");
    assert_eq!(parse_error("M DEFINITIONS ::= BEGIN T INTEGER END"), "expected `::=`");
    assert_eq!(parse_error("M DEFINITIONS ::= BEGIN T ::= OBJECT END"), "expected `IDENTIFIER`");
}

#[test]
fn lexical_errors_have_spans() {
    let e = tokenize(FileId(2), "a $ b").unwrap_err();
    assert_eq!((e.span.file.0, e.span.start, e.span.end), (2, 2, 3));
    let e = tokenize(FileId(0), "x \"open").unwrap_err();
    assert_eq!((e.span.start, e.span.end), (2, 7));
    let e = tokenize(FileId(0), "x /* a").unwrap_err();
    assert_eq!((e.message.as_str(), e.span.start, e.span.end), ("unterminated comment", 2, 6));
}
