//! Lowered, resolved intermediate representation of ASN.1 modules.
use vstd::prelude::*;

verus! {

/// Root of the lowered representation: one entry per input module.
#[derive(Debug, Clone)]
pub struct IrProgram {
    pub modules: Vec<IrModule>,
}

impl Default for IrProgram {
    fn default() -> (p: IrProgram)
        ensures
            p.modules@.len() == 0,
    {
        IrProgram { modules: Vec::new() }
    }
}

#[derive(Debug, Clone)]
pub struct IrModule {
    pub name: String,
    pub oid: Option<Vec<IrOidPart>>,
    pub imports: Vec<IrImport>,
    pub items: Vec<IrItem>,
}

#[derive(Debug, Clone)]
pub struct IrOidPart {
    pub name: Option<String>,
    pub value: Option<i64>,
}

#[derive(Debug, Clone)]
pub struct IrImport {
    pub symbols: Vec<String>,
    pub from_module: String,
}

#[derive(Debug, Clone)]
pub enum IrItem {
    Type(IrTypeDef),
    Value(IrValueDef),
    ObjectClass(IrObjectClassDef),
    ObjectSet(IrObjectSetDef),
    Object(IrObjectDef),
}

#[derive(Debug, Clone)]
pub struct IrTypeDef {
    pub name: String,
    pub doc: Option<String>,
    pub ty: IrType,
}

#[derive(Debug, Clone)]
pub struct IrValueDef {
    pub name: String,
    pub doc: Option<String>,
    pub ty: IrType,
    pub value: String,
}

#[derive(Debug, Clone)]
pub struct IrObjectClassDef {
    pub name: String,
    pub doc: Option<String>,
    pub fields: Vec<IrClassField>,
}

#[derive(Debug, Clone)]
pub enum IrClassField {
    Type { name: String, optional: bool },
    Value { name: String, ty: IrType, optional: bool, unique: bool },
    VariableType { name: String, field_path: Vec<String>, optional: bool },
}

#[derive(Debug, Clone)]
pub struct IrObjectSetDef {
    pub name: String,
    pub class_name: String,
    pub extensible: bool,
    pub members: usize,
}

#[derive(Debug, Clone)]
pub struct IrObjectDef {
    pub name: String,
    pub class_name: String,
    pub fields: Vec<IrObjectFieldBinding>,
}

#[derive(Debug, Clone)]
pub struct IrObjectFieldBinding {
    pub name: String,
    pub binding: IrObjectFieldValue,
}

#[derive(Debug, Clone)]
pub enum IrObjectFieldValue {
    Type(IrType),
    Value(String),
}

#[derive(Debug)]
pub enum IrType {
    Boolean,
    Integer { named_numbers: Vec<(String, i128)>, constraints: Vec<IrConstraint> },
    Real,
    Null,
    BitString { named_bits: Vec<(String, i128)>, constraints: Vec<IrConstraint> },
    OctetString { constraints: Vec<IrConstraint> },
    ObjectIdentifier,
    RelativeOid,
    CharString { kind: IrCharKind, constraints: Vec<IrConstraint> },
    UtcTime,
    GeneralizedTime,
    Enumerated { items: Vec<IrEnumItem>, extensible: bool },
    Sequence(IrStruct),
    /// `SET { ... }`
    SetType(IrStruct),
    SequenceOf { element: Box<IrType>, constraints: Vec<IrConstraint> },
    SetOf { element: Box<IrType>, constraints: Vec<IrConstraint> },
    Choice(IrChoice),
    /// Resolved or unresolved named reference.
    Reference { module: Option<String>, name: String },
    /// `CLASS.&field`: open type, left unresolved.
    Open { description: String },
    /// Any fallback that was parsed structurally but is not modelled semantically.
    Any,
}

#[derive(Debug, Clone, Copy, PartialEq, Eq, Hash, Structural)]
pub enum IrCharKind {
    Utf8,
    Ia5,
    Printable,
    Numeric,
    Visible,
    Bmp,
    Universal,
    General,
    Graphic,
    Teletex,
    T61,
    Videotex,
    Iso646,
}

#[derive(Debug, Clone)]
pub struct IrEnumItem {
    pub doc: Option<String>,
    pub name: String,
    pub value: Option<i128>,
    pub is_extension: bool,
}

#[derive(Debug, Clone)]
pub struct IrStruct {
    pub members: Vec<IrStructMember>,
    pub extensible: bool,
}

#[derive(Debug, Clone)]
pub enum IrStructMember {
    Field(IrField),
    ComponentsOf {
        /// Name of the referenced SEQUENCE/SET type whose components are inlined.
        type_ref: String,
    },
}

#[derive(Debug, Clone)]
pub struct IrField {
    pub doc: Option<String>,
    pub name: String,
    pub ty: IrType,
    pub optionality: IrOptionality,
    pub is_extension: bool,
}

#[derive(Debug, Clone)]
pub enum IrOptionality {
    Required,
    Optional,
    Default(String),
}

#[derive(Debug, Clone)]
pub struct IrChoice {
    pub alternatives: Vec<IrField>,
    pub extensible: bool,
}

#[derive(Debug)]
pub enum IrConstraint {
    /// Inclusive `[lower, upper]`; either bound may be open (`None` means MIN/MAX).
    Range { lower: Option<i128>, upper: Option<i128>, extensible: bool },
    /// A single permitted value, rendered as a string.
    Single(String),
    /// A SIZE constraint; the inner constraint describes the size range.
    Size(Box<IrConstraint>),
    /// Nested union/intersection or anything not reducible to the above.
    Composite(String),
}

/// A resolution-time warning emitted by [`IrProgram::diagnostics`].
#[derive(Debug, Clone)]
pub enum IrDiagnostic {
    /// A type reference could not be resolved to any known module.
    UnresolvedTypeReference { module: String, item: String, referenced: String },
    /// A reference names a module, but that module does not define the symbol.
    UnknownTypeInModule { module: String, item: String, referenced_module: String, referenced: String },
    /// An `IMPORTS ... FROM <module>` clause names a module not present in the program.
    UnknownImportedModule { module: String, from_module: String, symbols: Vec<String> },
}

/// `Some` views of two optional strings agree.
pub open spec fn opt_str_eq(a: Option<String>, b: Option<String>) -> bool {
    match (a, b) {
        (Some(x), Some(y)) => x@ == y@,
        (None, None) => true,
        _ => false,
    }
}

/// The view of an optional string.
pub open spec fn opt_view(a: Option<String>) -> Option<Seq<char>> {
    match a {
        Some(x) => Some(x@),
        None => None,
    }
}

// ---------------------------------------------------------------------------
// Copies of the recursive types
// ---------------------------------------------------------------------------

/// `b` is a copy of field `a`: every field equal, the type a copy.
pub open spec fn field_copy(a: IrField, b: IrField) -> bool
    decreases a,
{
    &&& b.doc == a.doc
    &&& b.name == a.name
    &&& type_copy(a.ty, b.ty)
    &&& b.optionality == a.optionality
    &&& b.is_extension == a.is_extension
}

/// `b` is a copy of member `a`.
pub open spec fn member_copy(a: IrStructMember, b: IrStructMember) -> bool
    decreases a,
{
    match a {
        IrStructMember::Field(f) => b matches IrStructMember::Field(g) && field_copy(f, g),
        IrStructMember::ComponentsOf { type_ref } => b == IrStructMember::ComponentsOf { type_ref },
    }
}

/// `b` is a copy of type `a`: the same variant, each field equal (vectors
/// compared by their contents), nested types copies.
pub open spec fn type_copy(a: IrType, b: IrType) -> bool
    decreases a,
{
    match a {
        IrType::Integer { named_numbers, constraints } => b matches IrType::Integer {
            named_numbers: n,
            constraints: c,
        } && n@ == named_numbers@ && c@ == constraints@,
        IrType::BitString { named_bits, constraints } => b matches IrType::BitString {
            named_bits: n,
            constraints: c,
        } && n@ == named_bits@ && c@ == constraints@,
        IrType::OctetString { constraints } => b matches IrType::OctetString { constraints: c } && c@
            == constraints@,
        IrType::CharString { kind, constraints } => b matches IrType::CharString { kind: k, constraints: c }
            && k == kind && c@ == constraints@,
        IrType::Enumerated { items, extensible } => b matches IrType::Enumerated { items: i, extensible: x }
            && i@ == items@ && x == extensible,
        IrType::Sequence(s) => b matches IrType::Sequence(t) && t.extensible == s.extensible
            && t.members@.len() == s.members@.len() && forall|k: int|
            0 <= k < s.members@.len() ==> member_copy(#[trigger] s.members@[k], t.members@[k]),
        IrType::SetType(s) => b matches IrType::SetType(t) && t.extensible == s.extensible
            && t.members@.len() == s.members@.len() && forall|k: int|
            0 <= k < s.members@.len() ==> member_copy(#[trigger] s.members@[k], t.members@[k]),
        IrType::SequenceOf { element, constraints } => b matches IrType::SequenceOf {
            element: e,
            constraints: c,
        } && type_copy(*element, *e) && c@ == constraints@,
        IrType::SetOf { element, constraints } => b matches IrType::SetOf { element: e, constraints: c }
            && type_copy(*element, *e) && c@ == constraints@,
        IrType::Choice(ch) => b matches IrType::Choice(d) && d.extensible == ch.extensible
            && d.alternatives@.len() == ch.alternatives@.len() && forall|k: int|
            0 <= k < ch.alternatives@.len() ==> field_copy(#[trigger] ch.alternatives@[k], d.alternatives@[k]),
        _ => b == a,
    }
}

fn copy_string(s: &String) -> (r: String)
    ensures
        r == *s,
{
    s.clone()
}

fn copy_opt_string(s: &Option<String>) -> (r: Option<String>)
    ensures
        r == *s,
{
    match s {
        Some(x) => Some(x.clone()),
        None => None,
    }
}

fn copy_constraint(c: &IrConstraint) -> (r: IrConstraint)
    ensures
        r == *c,
    decreases c,
{
    match c {
        IrConstraint::Range { lower, upper, extensible } => IrConstraint::Range {
            lower: *lower,
            upper: *upper,
            extensible: *extensible,
        },
        IrConstraint::Single(s) => IrConstraint::Single(copy_string(s)),
        IrConstraint::Size(inner) => IrConstraint::Size(Box::new(copy_constraint(inner))),
        IrConstraint::Composite(s) => IrConstraint::Composite(copy_string(s)),
    }
}

fn copy_constraints(cs: &Vec<IrConstraint>) -> (r: Vec<IrConstraint>)
    ensures
        r@ == cs@,
{
    let mut out: Vec<IrConstraint> = Vec::new();
    let mut k: usize = 0;
    while k < cs.len()
        invariant
            k <= cs@.len(),
            out@ == cs@.take(k as int),
        decreases cs@.len() - k,
    {
        out.push(copy_constraint(&cs[k]));
        proof {
            assert(out@ =~= cs@.take(k + 1));
        }
        k = k + 1;
    }
    assert(cs@.take(cs@.len() as int) =~= cs@);
    out
}

fn copy_named(ns: &Vec<(String, i128)>) -> (r: Vec<(String, i128)>)
    ensures
        r@ == ns@,
{
    let mut out: Vec<(String, i128)> = Vec::new();
    let mut k: usize = 0;
    while k < ns.len()
        invariant
            k <= ns@.len(),
            out@ == ns@.take(k as int),
        decreases ns@.len() - k,
    {
        let (n, v) = &ns[k];
        out.push((copy_string(n), *v));
        proof {
            assert(out@ =~= ns@.take(k + 1));
        }
        k = k + 1;
    }
    assert(ns@.take(ns@.len() as int) =~= ns@);
    out
}

fn copy_enum_items(items: &Vec<IrEnumItem>) -> (r: Vec<IrEnumItem>)
    ensures
        r@ == items@,
{
    let mut out: Vec<IrEnumItem> = Vec::new();
    let mut k: usize = 0;
    while k < items.len()
        invariant
            k <= items@.len(),
            out@ == items@.take(k as int),
        decreases items@.len() - k,
    {
        let it = &items[k];
        out.push(
            IrEnumItem {
                doc: copy_opt_string(&it.doc),
                name: copy_string(&it.name),
                value: it.value,
                is_extension: it.is_extension,
            },
        );
        proof {
            assert(out@ =~= items@.take(k + 1));
        }
        k = k + 1;
    }
    assert(items@.take(items@.len() as int) =~= items@);
    out
}

fn copy_optionality(o: &IrOptionality) -> (r: IrOptionality)
    ensures
        r == *o,
{
    match o {
        IrOptionality::Required => IrOptionality::Required,
        IrOptionality::Optional => IrOptionality::Optional,
        IrOptionality::Default(s) => IrOptionality::Default(copy_string(s)),
    }
}

fn copy_type(t: &IrType) -> (r: IrType)
    ensures
        type_copy(*t, r),
    decreases t,
{
    match t {
        IrType::Boolean => IrType::Boolean,
        IrType::Integer { named_numbers, constraints } => IrType::Integer {
            named_numbers: copy_named(named_numbers),
            constraints: copy_constraints(constraints),
        },
        IrType::Real => IrType::Real,
        IrType::Null => IrType::Null,
        IrType::BitString { named_bits, constraints } => IrType::BitString {
            named_bits: copy_named(named_bits),
            constraints: copy_constraints(constraints),
        },
        IrType::OctetString { constraints } => IrType::OctetString { constraints: copy_constraints(constraints) },
        IrType::ObjectIdentifier => IrType::ObjectIdentifier,
        IrType::RelativeOid => IrType::RelativeOid,
        IrType::CharString { kind, constraints } => IrType::CharString {
            kind: *kind,
            constraints: copy_constraints(constraints),
        },
        IrType::UtcTime => IrType::UtcTime,
        IrType::GeneralizedTime => IrType::GeneralizedTime,
        IrType::Enumerated { items, extensible } => IrType::Enumerated {
            items: copy_enum_items(items),
            extensible: *extensible,
        },
        IrType::Sequence(s) => IrType::Sequence(copy_struct(s)),
        IrType::SetType(s) => IrType::SetType(copy_struct(s)),
        IrType::SequenceOf { element, constraints } => IrType::SequenceOf {
            element: Box::new(copy_type(element)),
            constraints: copy_constraints(constraints),
        },
        IrType::SetOf { element, constraints } => IrType::SetOf {
            element: Box::new(copy_type(element)),
            constraints: copy_constraints(constraints),
        },
        IrType::Choice(c) => IrType::Choice(copy_choice(c)),
        IrType::Reference { module, name } => IrType::Reference {
            module: copy_opt_string(module),
            name: copy_string(name),
        },
        IrType::Open { description } => IrType::Open { description: copy_string(description) },
        IrType::Any => IrType::Any,
    }
}

fn copy_field(f: &IrField) -> (r: IrField)
    ensures
        field_copy(*f, r),
    decreases f,
{
    IrField {
        doc: copy_opt_string(&f.doc),
        name: copy_string(&f.name),
        ty: copy_type(&f.ty),
        optionality: copy_optionality(&f.optionality),
        is_extension: f.is_extension,
    }
}

fn copy_struct(s: &IrStruct) -> (r: IrStruct)
    ensures
        r.extensible == s.extensible,
        r.members@.len() == s.members@.len(),
        forall|k: int| 0 <= k < s.members@.len() ==> member_copy(#[trigger] s.members@[k], r.members@[k]),
    decreases s,
{
    let mut members: Vec<IrStructMember> = Vec::new();
    let mut k: usize = 0;
    while k < s.members.len()
        invariant
            k <= s.members@.len(),
            members@.len() == k,
            forall|j: int| 0 <= j < k ==> member_copy(#[trigger] s.members@[j], members@[j]),
        decreases s.members@.len() - k,
    {
        proof {
            assert(decreases_to!(*s => s.members));
            assert(decreases_to!(s.members => s.members@));
            assert(decreases_to!(s.members@ => s.members@[k as int]));
        }
        let m = match &s.members[k] {
            IrStructMember::Field(f) => IrStructMember::Field(copy_field(f)),
            IrStructMember::ComponentsOf { type_ref } => IrStructMember::ComponentsOf {
                type_ref: copy_string(type_ref),
            },
        };
        members.push(m);
        k = k + 1;
    }
    IrStruct { members, extensible: s.extensible }
}

fn copy_choice(c: &IrChoice) -> (r: IrChoice)
    ensures
        r.extensible == c.extensible,
        r.alternatives@.len() == c.alternatives@.len(),
        forall|k: int|
            0 <= k < c.alternatives@.len() ==> field_copy(#[trigger] c.alternatives@[k], r.alternatives@[k]),
    decreases c,
{
    let mut alternatives: Vec<IrField> = Vec::new();
    let mut k: usize = 0;
    while k < c.alternatives.len()
        invariant
            k <= c.alternatives@.len(),
            alternatives@.len() == k,
            forall|j: int| 0 <= j < k ==> field_copy(#[trigger] c.alternatives@[j], alternatives@[j]),
        decreases c.alternatives@.len() - k,
    {
        proof {
            assert(decreases_to!(*c => c.alternatives));
            assert(decreases_to!(c.alternatives => c.alternatives@));
            assert(decreases_to!(c.alternatives@ => c.alternatives@[k as int]));
        }
        alternatives.push(copy_field(&c.alternatives[k]));
        k = k + 1;
    }
    IrChoice { alternatives, extensible: c.extensible }
}

impl Clone for IrType {
    fn clone(&self) -> (r: Self)
        ensures
            type_copy(*self, r),
    {
        copy_type(self)
    }
}

impl Clone for IrConstraint {
    fn clone(&self) -> (r: Self)
        ensures
            r == *self,
    {
        copy_constraint(self)
    }
}

} // verus!
