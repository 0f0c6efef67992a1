use asn1_ir::{
    lower, parse_source, parse_text, render_type, AssignmentKind, FileId, IrCharKind,
    IrClassField, IrConstraint, IrDiagnostic, IrItem, IrObjectFieldValue, IrOptionality,
    IrProgram, IrStructMember, IrType, Module, SourceMap, TypeKind,
};

fn parse(src: &str) -> Module {
    let mut sm = SourceMap::new();
    let f = sm.add("t.asn", src.to_string());
    match parse_source(&sm, f) {
        Ok(m) => m,
        Err(e) => panic!("{}", e.render(&sm)),
    }
}

fn first_field_type(ir: &IrProgram, module: &str, name: &str) -> IrType {
    let td = ir.find_type(module, name).unwrap();
    let IrType::Sequence(s) = &td.ty else { panic!("expected sequence") };
    let IrStructMember::Field(f) = &s.members[0] else { panic!("expected field") };
    match &f.ty {
        IrType::Reference { module, name } => {
            IrType::Reference { module: module.clone(), name: name.clone() }
        }
        _ => panic!("expected reference"),
    }
}

fn value_of(ir: &IrProgram, name: &str) -> String {
    for item in &ir.modules[0].items {
        if let IrItem::Value(v) = item {
            if v.name == name {
                return v.value.clone();
            }
        }
    }
    panic!("no value {name}");
}

fn constraints_of(ir: &IrProgram, name: &str) -> Vec<String> {
    let td = ir.find_type("M", name).unwrap();
    let cs = match &td.ty {
        IrType::Integer { constraints, .. } => constraints,
        IrType::OctetString { constraints } => constraints,
        IrType::CharString { constraints, .. } => constraints,
        IrType::SequenceOf { constraints, .. } => constraints,
        _ => panic!("unexpected type"),
    };
    cs.iter()
        .map(|c| match c {
            IrConstraint::Range { lower, upper, extensible } => {
                format!("range {:?} {:?} {}", lower, upper, extensible)
            }
            IrConstraint::Single(s) => format!("single {s}"),
            IrConstraint::Size(inner) => match inner.as_ref() {
                IrConstraint::Range { lower, upper, extensible } => {
                    format!("size range {:?} {:?} {}", lower, upper, extensible)
                }
                _ => "size other".to_string(),
            },
            IrConstraint::Composite(s) => format!("composite {s}"),
        })
        .collect()
}

#[test]
fn unregistered_file_is_an_error() {
    let sm = SourceMap::new();
    let e = parse_source(&sm, FileId(3)).unwrap_err();
    assert_eq!(e.message, "file id not registered in source map");
    assert_eq!(e.render(&sm), "file id not registered in source map");
    assert_eq!((e.span.file.0, e.span.start, e.span.end), (0, 0, 0));
}

#[test]
fn parse_text_registers_the_file() {
    let mut sm = SourceMap::new();
    let (id, m) = parse_text(&mut sm, "a.asn", "A DEFINITIONS ::= BEGIN END".to_string()).unwrap();
    assert_eq!(id, FileId(0));
    assert_eq!(m.name.value, "A");
    assert_eq!(sm.len(), 1);
    assert_eq!(sm.get(id).unwrap().path, "a.asn");
    let (id2, _) = parse_text(&mut sm, "b.asn", "B DEFINITIONS ::= BEGIN END".to_string()).unwrap();
    assert_eq!(id2, FileId(1));
}

#[test]
fn parse_errors_render_with_position() {
    let mut sm = SourceMap::new();
    let err = parse_text(&mut sm, "bad.asn", "Foo DEFINITIONS ::= BEGIN\n  X ::= INTEGER\n  /* open".to_string())
        .unwrap_err();
    assert_eq!(err.message, "unterminated comment");
    assert_eq!(err.render(&sm), "bad.asn:3:3: unterminated comment");
}

#[test]
fn number_out_of_range_is_an_error() {
    let mut sm = SourceMap::new();
    let err = parse_text(
        &mut sm,
        "big.asn",
        "Foo DEFINITIONS ::= BEGIN\n big INTEGER ::= 999999999999999999999999999999999999999999 END"
            .to_string(),
    )
    .unwrap_err();
    assert_eq!(err.message, "number too large");
    assert_eq!(err.render(&sm), "big.asn:2:18: number too large");
}

#[test]
fn missing_end_is_an_error() {
    let mut sm = SourceMap::new();
    let err = parse_text(&mut sm, "e.asn", "Foo DEFINITIONS ::= BEGIN X ::= INTEGER".to_string())
        .unwrap_err();
    assert_eq!(err.message, "expected `END`");
}

#[test]
fn location_counts_lines_and_columns() {
    let mut sm = SourceMap::new();
    let id = sm.add("x", "ab\ncd\n\nefg".to_string());
    let f = sm.get(id).unwrap();
    let l = f.location(0);
    assert_eq!((l.line, l.column), (1, 1));
    let l = f.location(4);
    assert_eq!((l.line, l.column), (2, 2));
    let l = f.location(7);
    assert_eq!((l.line, l.column), (4, 1));
    let l = f.location(100);
    assert_eq!((l.line, l.column), (4, 4));
}

#[test]
fn doc_comments_are_trimmed_and_attached_to_members() {
    let m = parse(
        "M DEFINITIONS ::= BEGIN
            /**   first
                  second   */
            T ::= SEQUENCE {
                /** the x */ x INTEGER,
                -- plain comment
                y BOOLEAN
            }
        END",
    );
    assert_eq!(m.assignments[0].doc.as_deref(), Some("first\n                  second"));
    let ir = lower(&[m]);
    let td = ir.find_type("M", "T").unwrap();
    let IrType::Sequence(s) = &td.ty else { panic!() };
    let IrStructMember::Field(x) = &s.members[0] else { panic!() };
    let IrStructMember::Field(y) = &s.members[1] else { panic!() };
    assert_eq!(x.doc.as_deref(), Some("the x"));
    assert_eq!(y.doc, None);
}

#[test]
fn render_type_names() {
    let m = parse(
        "M DEFINITIONS AUTOMATIC TAGS ::= BEGIN
            A ::= SEQUENCE OF IA5String
            B ::= SET OF BMPString
            C ::= Other
            D ::= A
            E ::= TYPE-IDENTIFIER.&Type
            F ::= BIT STRING { a(0), b(1) }
            G ::= [APPLICATION 3] IMPLICIT OCTET STRING
            H ::= UTF8String (SIZE (1..4))
        END",
    );
    let ir = lower(&[m]);
    let r = |n: &str| render_type(&ir.find_type("M", n).unwrap().ty);
    assert_eq!(r("A"), "SEQUENCE OF IA5String");
    assert_eq!(r("B"), "SET OF BmpString");
    assert_eq!(r("C"), "Other");
    assert_eq!(r("D"), "M.A");
    assert_eq!(r("E"), "OPEN(TYPE-IDENTIFIER.&Type)");
    assert_eq!(r("F"), "BIT STRING");
    assert_eq!(r("G"), "OCTET STRING");
    assert_eq!(r("H"), "Utf8String");
    let IrType::CharString { kind, .. } = &ir.find_type("M", "H").unwrap().ty else { panic!() };
    assert_eq!(*kind, IrCharKind::Utf8);
}

#[test]
fn constraints_are_lowered() {
    let m = parse(
        r#"M DEFINITIONS ::= BEGIN
            A ::= INTEGER (0..10, ...)
            B ::= INTEGER (1 | 3 | 5)
            C ::= OCTET STRING (SIZE (4))
            D ::= INTEGER (MIN..-1)
            E ::= PrintableString (FROM ("A".."Z"))
            F ::= IA5String (SIZE (1..8) ^ FROM ("a".."z"))
            G ::= SEQUENCE SIZE (0..MAX) OF INTEGER
            H ::= INTEGER (7, ...)
        END"#,
    );
    let ir = lower(&[m]);
    assert_eq!(constraints_of(&ir, "A"), vec!["range Some(0) Some(10) true"]);
    assert_eq!(constraints_of(&ir, "B"), vec!["composite 1 / 3 / 5"]);
    assert_eq!(constraints_of(&ir, "C"), vec!["size other"]);
    let td = ir.find_type("M", "C").unwrap();
    let IrType::OctetString { constraints } = &td.ty else { panic!() };
    let IrConstraint::Size(inner) = &constraints[0] else { panic!() };
    assert!(matches!(inner.as_ref(), IrConstraint::Single(s) if s == "4"));
    assert_eq!(constraints_of(&ir, "D"), vec!["range None Some(-1) false"]);
    assert_eq!(constraints_of(&ir, "E"), vec!["composite …"]);
    assert_eq!(constraints_of(&ir, "F"), vec!["composite SIZE(..) / .."]);
    assert_eq!(constraints_of(&ir, "G"), vec!["size range Some(0) None false"]);
    assert_eq!(constraints_of(&ir, "H"), vec!["composite 7, ..."]);
}

#[test]
fn values_are_rendered() {
    let m = parse(
        r#"M DEFINITIONS ::= BEGIN
            a OBJECT IDENTIFIER ::= { iso(1) 2 member-body }
            b OCTET STRING ::= '00 FF'H
            c BIT STRING ::= '1010'B
            d INTEGER ::= -42
            e UTF8String ::= "say ""hi"""
            f Pair ::= { first 1, second TRUE }
            g SEQUENCE OF INTEGER ::= { 1, 2, 3 }
            h Choice ::= alt : NULL
            i REAL ::= 1.50
            j INTEGER ::= other
            k SEQUENCE OF INTEGER ::= { }
        END"#,
    );
    let ir = lower(&[m]);
    assert_eq!(value_of(&ir, "a"), "{ iso(1) 2 member-body }");
    assert_eq!(value_of(&ir, "b"), "'00FF'H");
    assert_eq!(value_of(&ir, "c"), "'1010'B");
    assert_eq!(value_of(&ir, "d"), "-42");
    assert_eq!(value_of(&ir, "e"), "\"say \"hi\"\"");
    assert_eq!(value_of(&ir, "f"), "{ first 1, second true }");
    assert_eq!(value_of(&ir, "g"), "{ 1, 2, 3 }");
    assert_eq!(value_of(&ir, "h"), "alt : NULL");
    assert_eq!(value_of(&ir, "i"), "1.50");
    assert_eq!(value_of(&ir, "j"), "other");
    assert_eq!(value_of(&ir, "k"), "{  }");
}

#[test]
fn structures_choices_and_defaults() {
    let m = parse(
        "M DEFINITIONS AUTOMATIC TAGS ::= BEGIN
            Base ::= SEQUENCE { a INTEGER }
            S ::= SEQUENCE {
                COMPONENTS OF Base,
                b [0] BOOLEAN DEFAULT TRUE,
                ...,
                [[ c INTEGER OPTIONAL ]],
                d NULL
            }
            C ::= CHOICE { x INTEGER, ..., y BOOLEAN }
        END",
    );
    let ir = lower(&[m]);
    let IrType::Sequence(s) = &ir.find_type("M", "S").unwrap().ty else { panic!() };
    assert!(s.extensible);
    assert_eq!(s.members.len(), 4);
    assert!(matches!(&s.members[0], IrStructMember::ComponentsOf { type_ref } if type_ref == "Base"));
    let IrStructMember::Field(b) = &s.members[1] else { panic!() };
    assert!(matches!(&b.optionality, IrOptionality::Default(v) if v == "true"));
    assert!(!b.is_extension);
    let IrStructMember::Field(c) = &s.members[2] else { panic!() };
    assert!(c.is_extension && matches!(c.optionality, IrOptionality::Optional));
    let IrStructMember::Field(d) = &s.members[3] else { panic!() };
    assert!(d.is_extension);
    let IrType::Choice(ch) = &ir.find_type("M", "C").unwrap().ty else { panic!() };
    assert!(ch.extensible);
    assert_eq!(ch.alternatives.len(), 2);
    assert!(!ch.alternatives[0].is_extension);
    assert!(ch.alternatives[1].is_extension);
}

#[test]
fn classes_objects_and_sets_are_lowered() {
    let m = parse(
        "M DEFINITIONS ::= BEGIN
            ITEM ::= CLASS {
                &id INTEGER UNIQUE,
                &Type OPTIONAL,
                &val &Type
            } WITH SYNTAX { ID &id TYPE &Type }
            item1 ITEM ::= { &id 7, &Type BOOLEAN }
            Items ITEM ::= { item1 | item2, ... }
        END",
    );
    assert!(matches!(m.assignments[0].kind, AssignmentKind::ObjectClass(_)));
    let ir = lower(&[m]);
    let items = &ir.modules[0].items;
    let IrItem::ObjectClass(class) = &items[0] else { panic!() };
    assert_eq!(class.fields.len(), 3);
    assert!(matches!(&class.fields[0], IrClassField::Value { name, unique: true, optional: false, .. } if name == "id"));
    assert!(matches!(&class.fields[1], IrClassField::Type { name, optional: true } if name == "Type"));
    assert!(matches!(&class.fields[2], IrClassField::VariableType { field_path, .. } if field_path == &vec!["Type".to_string()]));
    let IrItem::Object(obj) = &items[1] else { panic!() };
    assert_eq!(obj.class_name, "ITEM");
    assert!(matches!(&obj.fields[0].binding, IrObjectFieldValue::Value(v) if v == "7"));
    assert!(matches!(&obj.fields[1].binding, IrObjectFieldValue::Type(IrType::Boolean)));
    let IrItem::ObjectSet(set) = &items[2] else { panic!() };
    assert_eq!(set.members, 2);
    assert!(set.extensible);
}

#[test]
fn diagnostics_report_unknown_modules_and_types() {
    let a = parse(
        "A DEFINITIONS ::= BEGIN
            IMPORTS X, Y FROM Missing Z FROM B;
            T ::= SEQUENCE { x X, z Z, u Unknown, l SEQUENCE OF Z }
        END",
    );
    let b = parse("B DEFINITIONS ::= BEGIN W ::= INTEGER END");
    let ir = lower(&[a, b]);
    let ds = ir.diagnostics();
    let msgs: Vec<String> = ds.iter().map(|d| d.message()).collect();
    assert_eq!(
        msgs,
        vec![
            "module `A` imports [\"X\", \"Y\"] from unknown module `Missing`".to_string(),
            "reference `Missing.X` in A.T — module `Missing` has no such type".to_string(),
            "reference `B.Z` in A.T — module `B` has no such type".to_string(),
            "unresolved type reference `Unknown` in A.T (not defined locally and not imported)"
                .to_string(),
            "reference `B.Z` in A.T — module `B` has no such type".to_string(),
        ]
    );
    assert!(matches!(&ds[0], IrDiagnostic::UnknownImportedModule { symbols, .. } if symbols.len() == 2));
    assert!(matches!(&ds[3], IrDiagnostic::UnresolvedTypeReference { referenced, .. } if referenced == "Unknown"));
}

#[test]
fn exact_oid_beats_successor_and_ambiguity_keeps_cited_name() {
    let v1 = parse("V1 {iso(1) org(3) x(7) mod(9) v(1)} DEFINITIONS ::= BEGIN T ::= INTEGER END");
    let v2 = parse("V2 {iso(1) org(3) x(7) mod(9) v(2)} DEFINITIONS ::= BEGIN T ::= INTEGER END");
    let exact = parse(
        "C DEFINITIONS ::= BEGIN
            IMPORTS T FROM Cited {iso(1) org(3) x(7) mod(9) v(2)};
            S ::= SEQUENCE { t T }
        END",
    );
    let ambiguous = parse(
        "D DEFINITIONS ::= BEGIN
            IMPORTS T FROM Cited {iso(1) org(3) x(7) mod(9) v(3)};
            S ::= SEQUENCE { t T }
        END",
    );
    let ir = lower(&[v1, v2, exact, ambiguous]);
    assert_eq!(ir.modules[2].imports[0].from_module, "V2");
    assert_eq!(ir.modules[3].imports[0].from_module, "Cited");
    let IrType::Reference { module, .. } = first_field_type(&ir, "C", "S") else { panic!() };
    assert_eq!(module.as_deref(), Some("V2"));
    let IrType::Reference { module, .. } = first_field_type(&ir, "D", "S") else { panic!() };
    assert_eq!(module.as_deref(), Some("Cited"));
}

#[test]
fn successor_with_same_name_twice_is_not_ambiguous() {
    let v = parse("Base {iso(1) org(3) x(7) mod(9) v(4)} DEFINITIONS ::= BEGIN T ::= INTEGER END");
    let w = parse("Base {iso(1) org(3) x(7) mod(9) v(5)} DEFINITIONS ::= BEGIN T ::= INTEGER END");
    let c = parse(
        "C DEFINITIONS ::= BEGIN
            IMPORTS T FROM Old {iso(1) org(3) x(7) mod(9) v(1)};
            S ::= SEQUENCE { t T }
        END",
    );
    let ir = lower(&[v, w, c]);
    assert_eq!(ir.modules[2].imports[0].from_module, "Base");
}

#[test]
fn reexport_cycle_terminates() {
    let a = parse(
        "A DEFINITIONS ::= BEGIN
            IMPORTS X FROM B;
            S ::= SEQUENCE { x X }
        END",
    );
    let b = parse(
        "B DEFINITIONS ::= BEGIN
            IMPORTS X FROM A;
            U ::= INTEGER
        END",
    );
    let ir = lower(&[a, b]);
    let IrType::Reference { module, name } = first_field_type(&ir, "A", "S") else { panic!() };
    assert_eq!(module.as_deref(), Some("B"));
    assert_eq!(name, "X");
}

#[test]
fn later_module_of_same_name_wins_for_definitions() {
    let first = parse("M DEFINITIONS ::= BEGIN A ::= INTEGER END");
    let second = parse("M DEFINITIONS ::= BEGIN B ::= BOOLEAN S ::= SEQUENCE { a A, b B } END");
    let ir = lower(&[first, second]);
    let td = ir.find_type("M", "S");
    assert!(td.is_none());
    let td = &ir.modules[1].items[1];
    let IrItem::Type(td) = td else { panic!() };
    let IrType::Sequence(s) = &td.ty else { panic!() };
    let IrStructMember::Field(a) = &s.members[0] else { panic!() };
    let IrStructMember::Field(b) = &s.members[1] else { panic!() };
    assert!(matches!(&a.ty, IrType::Reference { module: None, .. }));
    assert!(matches!(&b.ty, IrType::Reference { module: Some(m), .. } if m == "M"));
}

#[test]
fn find_type_and_all_types() {
    let a = parse("A DEFINITIONS ::= BEGIN X ::= INTEGER v INTEGER ::= 1 Y ::= BOOLEAN END");
    let b = parse("B DEFINITIONS ::= BEGIN Z ::= NULL END");
    let ir = lower(&[a, b]);
    assert!(ir.find_type("A", "X").is_some());
    assert!(ir.find_type("A", "v").is_none());
    assert!(ir.find_type("A", "Z").is_none());
    assert!(ir.find_type("C", "X").is_none());
    let all: Vec<(String, String)> =
        ir.all_types().into_iter().map(|(m, t)| (m.name.clone(), t.name.clone())).collect();
    assert_eq!(
        all,
        vec![
            ("A".to_string(), "X".to_string()),
            ("A".to_string(), "Y".to_string()),
            ("B".to_string(), "Z".to_string()),
        ]
    );
    assert!(IrProgram::default().modules.is_empty());
    assert!(IrProgram::default().all_types().is_empty());
}

#[test]
fn module_header_and_imports_are_lowered() {
    let m = parse(
        "M {iso(1) 2 x} DEFINITIONS IMPLICIT TAGS EXTENSIBILITY IMPLIED ::= BEGIN
            EXPORTS ALL;
            IMPORTS a, B FROM N n-oid;
            T ::= ENUMERATED { one(1), two }
        END",
    );
    assert_eq!(m.tag_default, asn1_ir::TagDefault::Implicit);
    assert!(m.extensibility_implied);
    assert!(m.imports[0].from_oid.is_none());
    let ir = lower(&[m]);
    let md = &ir.modules[0];
    let oid = md.oid.as_ref().unwrap();
    assert_eq!(oid.len(), 3);
    assert_eq!((oid[0].name.as_deref(), oid[0].value), (Some("iso"), Some(1)));
    assert_eq!((oid[1].name.as_deref(), oid[1].value), (None, Some(2)));
    assert_eq!((oid[2].name.as_deref(), oid[2].value), (Some("x"), None));
    assert_eq!(md.imports[0].symbols, vec!["a".to_string(), "B".to_string()]);
    assert_eq!(md.imports[0].from_module, "N");
    let IrType::Enumerated { items, extensible } = &ir.find_type("M", "T").unwrap().ty else {
        panic!()
    };
    assert!(!extensible);
    assert_eq!(items[0].value, Some(1));
    assert_eq!(items[1].value, None);
}

#[test]
fn type_kinds_of_parsed_types() {
    let m = parse(
        "M DEFINITIONS ::= BEGIN
            A ::= SET { a INTEGER }
            B ::= ANY DEFINED BY a
            C ::= GeneralizedTime
            D ::= RELATIVE-OID
        END",
    );
    let kinds: Vec<&TypeKind> = m
        .assignments
        .iter()
        .map(|a| match &a.kind {
            AssignmentKind::Type(t) => &t.kind,
            _ => panic!(),
        })
        .collect();
    assert!(matches!(kinds[0], TypeKind::SetType(_)));
    assert!(matches!(kinds[1], TypeKind::Any));
    assert!(matches!(kinds[2], TypeKind::GeneralizedTime));
    assert!(matches!(kinds[3], TypeKind::RelativeOid));
    let ir = lower(&[m]);
    assert_eq!(render_type(&ir.find_type("M", "A").unwrap().ty), "SET");
}

#[test]
fn named_range_bounds_are_not_open_bounds() {
    let m = parse(
        r#"M DEFINITIONS ::= BEGIN
            ub INTEGER ::= 9
            A ::= INTEGER (1..ub)
            B ::= INTEGER (lb..MAX, ...)
            C ::= INTEGER (MIN..MAX)
            D ::= INTEGER (1..ub, ...)
        END"#,
    );
    let ir = lower(&[m]);
    assert_eq!(constraints_of(&ir, "A"), vec!["composite 1..ub"]);
    assert_eq!(constraints_of(&ir, "B"), vec!["composite lb..MAX, ..."]);
    assert_eq!(constraints_of(&ir, "C"), vec!["range None None false"]);
    assert_eq!(constraints_of(&ir, "D"), vec!["composite 1..ub, ..."]);
}

#[test]
fn import_symbols_print_in_debug_form() {
    let d = IrDiagnostic::UnknownImportedModule {
        module: "A".to_string(),
        from_module: "Gone".to_string(),
        symbols: vec!["Plain".to_string(), "odd\"one\\x".to_string()],
    };
    assert_eq!(
        d.message(),
        "module `A` imports [\"Plain\", \"odd\\\"one\\\\x\"] from unknown module `Gone`"
    );
}

#[test]
fn lowered_programs_can_be_cloned() {
    let m = parse(
        "M DEFINITIONS ::= BEGIN
            T ::= SEQUENCE { a INTEGER (1..5), b SEQUENCE OF BOOLEAN }
        END",
    );
    let ir = lower(&[m]);
    let copy = ir.clone();
    assert_eq!(render_type(&copy.find_type("M", "T").unwrap().ty), render_type(&ir.find_type("M", "T").unwrap().ty));
    assert_eq!(format!("{:?}", copy), format!("{:?}", ir));
}

#[test]
fn collections_choices_and_structs_keep_order_and_constraints() {
    let m = parse(
        "M DEFINITIONS ::= BEGIN
            L ::= SEQUENCE (SIZE (1..4)) OF INTEGER (0..7)
            C ::= CHOICE { a INTEGER, ..., b BOOLEAN, c NULL }
            S ::= SEQUENCE { x INTEGER, ..., y BOOLEAN }
        END",
    );
    let ir = lower(&[m]);
    let l = ir.find_type("M", "L").unwrap();
    let IrType::SequenceOf { element, constraints } = &l.ty else { panic!() };
    assert_eq!(constraints.len(), 1);
    assert!(matches!(&constraints[0], IrConstraint::Size(_)));
    let IrType::Integer { constraints: inner, .. } = element.as_ref() else { panic!() };
    assert!(matches!(&inner[0], IrConstraint::Range { lower: Some(0), upper: Some(7), extensible: false }));
    let c = ir.find_type("M", "C").unwrap();
    let IrType::Choice(ch) = &c.ty else { panic!() };
    let flags: Vec<(String, bool)> =
        ch.alternatives.iter().map(|f| (f.name.clone(), f.is_extension)).collect();
    assert_eq!(
        flags,
        vec![("a".to_string(), false), ("b".to_string(), true), ("c".to_string(), true)]
    );
    assert!(ch.extensible);
    let s = ir.find_type("M", "S").unwrap();
    let IrType::Sequence(st) = &s.ty else { panic!() };
    let flags: Vec<bool> = st
        .members
        .iter()
        .map(|m| match m {
            IrStructMember::Field(f) => f.is_extension,
            _ => panic!(),
        })
        .collect();
    assert_eq!(flags, vec![false, true]);
}

#[test]
fn diagnostics_cover_values_classes_and_objects() {
    let m = parse(
        "A DEFINITIONS ::= BEGIN
            v Why ::= 1
            CLS ::= CLASS { &id Missing UNIQUE, &Type }
            obj CLS ::= { &id 1, &Type Absent }
        END",
    );
    let ir = lower(&[m]);
    let msgs: Vec<String> = ir.diagnostics().iter().map(|d| d.message()).collect();
    assert_eq!(
        msgs,
        vec![
            "unresolved type reference `Why` in A.v (not defined locally and not imported)".to_string(),
            "unresolved type reference `Missing` in A.CLS (not defined locally and not imported)"
                .to_string(),
            "unresolved type reference `Absent` in A.obj (not defined locally and not imported)"
                .to_string(),
        ]
    );
}

#[test]
fn cloned_types_and_constraints_are_equal() {
    let m = parse(
        "M DEFINITIONS ::= BEGIN
            T ::= CHOICE { a SEQUENCE { x INTEGER (0..3) OPTIONAL }, b ENUMERATED { p, q } }
        END",
    );
    let ir = lower(&[m]);
    let t = &ir.find_type("M", "T").unwrap().ty;
    assert_eq!(format!("{:?}", t.clone()), format!("{:?}", t));
}
