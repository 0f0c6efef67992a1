use asn1_ir::{
    lower, parse_source, IrOptionality, IrStructMember, IrType, Module, SourceMap,
};

fn parse(src: &str) -> Module {
    let mut sm = SourceMap::new();
    let f = sm.add("t.asn", src.to_string());
    parse_source(&sm, f).unwrap()
}

#[test]
fn lowers_simple_sequence() {
    let m = parse(
        r#"Foo DEFINITIONS AUTOMATIC TAGS ::= BEGIN
            Point ::= SEQUENCE { x INTEGER, y INTEGER OPTIONAL }
        END"#,
    );
    let ir = lower(&[m]);
    let point = ir.find_type("Foo", "Point").unwrap();
    let IrType::Sequence(s) = &point.ty else {
        panic!("expected sequence");
    };
    assert_eq!(s.members.len(), 2);
    match &s.members[1] {
        IrStructMember::Field(f) => assert!(matches!(f.optionality, IrOptionality::Optional)),
        _ => panic!("field"),
    }
}

#[test]
fn resolves_intra_module_references() {
    let m = parse(
        r#"Foo DEFINITIONS AUTOMATIC TAGS ::= BEGIN
            Id ::= INTEGER
            Wrapper ::= SEQUENCE { id Id }
        END"#,
    );
    let ir = lower(&[m]);
    let w = ir.find_type("Foo", "Wrapper").unwrap();
    let IrType::Sequence(s) = &w.ty else { panic!() };
    let IrStructMember::Field(f) = &s.members[0] else { panic!() };
    match &f.ty {
        IrType::Reference { module, name } => {
            assert_eq!(module.as_deref(), Some("Foo"));
            assert_eq!(name, "Id");
        }
        _ => panic!("expected reference"),
    }
}

#[test]
fn import_resolves_by_oid_when_module_name_differs() {
    let a = parse(
        r#"RegistryV2 {iso(1) standard(0) reg(17419) applRegistry(2) version2(2)}
        DEFINITIONS AUTOMATIC TAGS ::= BEGIN
            ItsAid ::= INTEGER
        END"#,
    );
    let b = parse(
        r#"Client DEFINITIONS AUTOMATIC TAGS ::= BEGIN
            IMPORTS ItsAid FROM Registry {iso(1) standard(0) reg(17419) applRegistry(2) version2(2)} ;
            Info ::= SEQUENCE { aid ItsAid }
        END"#,
    );
    let ir = lower(&[a, b]);
    assert!(ir.diagnostics().is_empty(), "{:?}", ir.diagnostics());
    let info = ir.find_type("Client", "Info").unwrap();
    let IrType::Sequence(s) = &info.ty else { panic!() };
    let IrStructMember::Field(f) = &s.members[0] else { panic!() };
    let IrType::Reference { module, .. } = &f.ty else { panic!() };
    assert_eq!(module.as_deref(), Some("RegistryV2"));
}

#[test]
fn import_resolves_to_successor_module_version() {
    let a = parse(
        r#"Cdd {itu-t(0) etsi(0) ts(102894) cdd(2) major-version-4(4) minor-version-3(3)}
        DEFINITIONS AUTOMATIC TAGS ::= BEGIN
            Latitude ::= INTEGER
        END"#,
    );
    let b = parse(
        r#"Client DEFINITIONS AUTOMATIC TAGS ::= BEGIN
            IMPORTS Latitude FROM ITS-Container {itu-t(0) etsi(0) ts(102894) cdd(2) version(2)} ;
            Pos ::= SEQUENCE { lat Latitude }
        END"#,
    );
    let ir = lower(&[a, b]);
    assert!(ir.diagnostics().is_empty(), "{:?}", ir.diagnostics());
    let pos = ir.find_type("Client", "Pos").unwrap();
    let IrType::Sequence(s) = &pos.ty else { panic!() };
    let IrStructMember::Field(f) = &s.members[0] else { panic!() };
    let IrType::Reference { module, .. } = &f.ty else { panic!() };
    assert_eq!(module.as_deref(), Some("Cdd"));
}

#[test]
fn unrelated_oid_is_not_treated_as_successor() {
    let a = parse(
        r#"Cdd {itu-t(0) etsi(0) ts(102894) cdd(2) major-version-4(4)}
        DEFINITIONS AUTOMATIC TAGS ::= BEGIN
            Latitude ::= INTEGER
        END"#,
    );
    let b = parse(
        r#"Client DEFINITIONS AUTOMATIC TAGS ::= BEGIN
            IMPORTS Area FROM Temp-Imports {itu-t(0) etsi(0) ts(103300) temp(255) version1(1)} ;
            Shape ::= SEQUENCE { area Area }
        END"#,
    );
    let ir = lower(&[a, b]);
    let shape = ir.find_type("Client", "Shape").unwrap();
    let IrType::Sequence(s) = &shape.ty else { panic!() };
    let IrStructMember::Field(f) = &s.members[0] else { panic!() };
    let IrType::Reference { module, .. } = &f.ty else { panic!() };
    assert_eq!(module.as_deref(), Some("Temp-Imports"));
}

#[test]
fn reference_follows_reexport_chain_to_defining_module() {
    let cdd = parse(
        r#"Cdd DEFINITIONS AUTOMATIC TAGS ::= BEGIN
            GenerationDeltaTime ::= INTEGER
        END"#,
    );
    let cam = parse(
        r#"Cam DEFINITIONS AUTOMATIC TAGS ::= BEGIN
            IMPORTS GenerationDeltaTime FROM Cdd ;
            Cam ::= SEQUENCE { t GenerationDeltaTime }
        END"#,
    );
    let imzm = parse(
        r#"Imzm DEFINITIONS AUTOMATIC TAGS ::= BEGIN
            IMPORTS GenerationDeltaTime FROM Cam ;
            Msg ::= SEQUENCE { t GenerationDeltaTime }
        END"#,
    );
    let ir = lower(&[cdd, cam, imzm]);
    assert!(ir.diagnostics().is_empty(), "{:?}", ir.diagnostics());
    let msg = ir.find_type("Imzm", "Msg").unwrap();
    let IrType::Sequence(s) = &msg.ty else { panic!() };
    let IrStructMember::Field(f) = &s.members[0] else { panic!() };
    let IrType::Reference { module, .. } = &f.ty else { panic!() };
    assert_eq!(module.as_deref(), Some("Cdd"));
}

#[test]
fn enumerated_lowered_with_extensions() {
    let m = parse(
        r#"Foo DEFINITIONS AUTOMATIC TAGS ::= BEGIN
            Color ::= ENUMERATED { red, green (1), blue, ..., yellow (99) }
        END"#,
    );
    let ir = lower(&[m]);
    let IrType::Enumerated { items, extensible } = &ir.find_type("Foo", "Color").unwrap().ty else {
        panic!();
    };
    assert!(*extensible);
    assert_eq!(items.len(), 4);
    assert!(items.iter().any(|i| i.name == "yellow" && i.is_extension));
}
