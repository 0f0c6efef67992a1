//! Concrete syntax tree of an ASN.1 module, as read by the parser.
use vstd::prelude::*;

use crate::diagnostics::Spanned;

verus! {

/// One `DEFINITIONS ... BEGIN ... END` module.
#[derive(Debug)]
pub struct Module {
    pub name: Spanned<String>,
    pub oid: Option<Vec<OidComponent>>,
    pub tag_default: TagDefault,
    pub extensibility_implied: bool,
    pub imports: Vec<ImportClause>,
    pub assignments: Vec<Assignment>,
}

/// The module's tagging environment; `EXPLICIT` when none is written.
#[derive(Debug, Clone, Copy, PartialEq, Eq, Structural)]
pub enum TagDefault {
    Explicit,
    Implicit,
    Automatic,
}

/// One arc of an object identifier: `name`, `42` or `name(42)`.
#[derive(Debug, Clone)]
pub struct OidComponent {
    pub name: Option<Spanned<String>>,
    pub value: Option<i64>,
}

/// `symbols FROM module [oid] [WITH SUCCESSORS | WITH DESCENDANTS]`.
#[derive(Debug, Clone)]
pub struct ImportClause {
    pub symbols: Vec<Spanned<String>>,
    pub from_module: Spanned<String>,
    pub from_oid: Option<Vec<OidComponent>>,
    pub with: Option<WithClause>,
}

#[derive(Debug, Clone, Copy, PartialEq, Eq, Structural)]
pub enum WithClause {
    Successors,
    Descendants,
}

/// A named assignment with its optional `/** ... */` documentation.
#[derive(Debug)]
pub struct Assignment {
    pub name: Spanned<String>,
    pub doc: Option<String>,
    pub kind: AssignmentKind,
}

#[derive(Debug)]
pub enum AssignmentKind {
    /// `Name ::= Type`
    Type(Type),
    /// `name Type ::= value`
    Value { ty: Type, value: Value },
    /// `NAME ::= CLASS { ... }`
    ObjectClass(ClassDef),
    /// `Name CLASS-NAME ::= { ... }`
    ObjectSet { class_name: Spanned<String>, set: ObjectSet },
    /// `name CLASS-NAME ::= { ... }`
    Object { class_name: Spanned<String>, object: ObjectDef },
}

/// The field specifications of an information object class.
#[derive(Debug)]
pub struct ClassDef {
    pub fields: Vec<FieldSpec>,
}

#[derive(Debug)]
pub enum FieldSpec {
    /// `&Name [OPTIONAL]`
    TypeField { name: Spanned<String>, optional: bool },
    /// `&name Type [UNIQUE] [OPTIONAL]`
    ValueField { name: Spanned<String>, ty: Type, unique: bool, optional: bool },
    /// `&name &Field [OPTIONAL]`
    VariableTypeValueField { name: Spanned<String>, field_path: Vec<FieldRef>, optional: bool },
}

/// `&Name` (a type field) or `&name` (a value field).
#[derive(Debug)]
pub enum FieldRef {
    Type(Spanned<String>),
    Value(Spanned<String>),
}

/// The members of an object set; `...` makes it extensible.
#[derive(Debug)]
pub struct ObjectSet {
    pub elements: Vec<ObjectSetElement>,
    pub extensible: bool,
}

#[derive(Debug)]
pub enum ObjectSetElement {
    /// A named object or object set.
    Reference(Spanned<String>),
    /// An object written inline.
    Object(ObjectDef),
}

/// An information object: its field settings in default syntax, or the words
/// of a user-defined syntax.
#[derive(Debug)]
pub struct ObjectDef {
    pub fields: Vec<ObjectFieldSetting>,
    pub syntax: Vec<Spanned<String>>,
}

#[derive(Debug)]
pub enum ObjectFieldSetting {
    Type { name: Spanned<String>, ty: Type },
    Value { name: Spanned<String>, value: Value },
}

/// A type with the constraints written after it.
#[derive(Debug)]
pub struct Type {
    pub kind: TypeKind,
    pub constraints: Vec<Constraint>,
}

#[derive(Debug)]
pub enum TypeKind {
    Boolean,
    Integer { named_numbers: Vec<NamedNumber> },
    Real,
    Null,
    BitString { named_bits: Vec<NamedNumber> },
    OctetString,
    ObjectIdentifier,
    RelativeOid,
    CharString(CharStringKind),
    UtcTime,
    GeneralizedTime,
    Enumerated { items: Vec<EnumItem>, extensible: bool, extension_items: Vec<EnumItem> },
    Sequence(StructType),
    /// `SET { ... }`
    SetType(StructType),
    SequenceOf(Box<Type>),
    SetOf(Box<Type>),
    Choice(ChoiceType),
    Reference(Spanned<String>),
    /// `CLASS.&field...`
    ClassField { class: Spanned<String>, path: Vec<FieldRef> },
    Any,
}

#[derive(Debug, Clone, Copy, PartialEq, Eq, Structural)]
pub enum CharStringKind {
    Utf8,
    Ia5,
    Printable,
    Numeric,
    Visible,
    Bmp,
    Universal,
    General,
    Graphic,
    Teletex,
    T61,
    Videotex,
    Iso646,
}

/// `name(value)` in an INTEGER or BIT STRING type.
#[derive(Debug)]
pub struct NamedNumber {
    pub name: Spanned<String>,
    pub value: NamedNumberValue,
}

#[derive(Debug)]
pub enum NamedNumberValue {
    Literal(i128),
    Reference(Spanned<String>),
}

#[derive(Debug)]
pub struct EnumItem {
    pub doc: Option<String>,
    pub name: Spanned<String>,
    pub value: Option<i128>,
}

/// The body of a SEQUENCE or SET.
#[derive(Debug)]
pub struct StructType {
    pub components: Vec<StructMember>,
    pub extensible: bool,
    pub extension_additions: Vec<StructMember>,
}

#[derive(Debug)]
pub enum StructMember {
    Named(Component),
    ComponentsOf { ty: Type },
}

#[derive(Debug)]
pub struct Component {
    pub doc: Option<String>,
    pub name: Spanned<String>,
    pub ty: Type,
    pub optionality: Optionality,
}

#[derive(Debug)]
pub enum Optionality {
    Required,
    Optional,
    Default(Value),
}

#[derive(Debug)]
pub struct ChoiceType {
    pub alternatives: Vec<Component>,
    pub extensible: bool,
    pub extension_alternatives: Vec<Component>,
}

#[derive(Debug)]
pub enum Constraint {
    Size(Box<Constraint>),
    ValueRange { lower: ValueBound, upper: ValueBound, extensible: bool },
    SingleValue(Value),
    Union(Vec<Constraint>),
    Intersection(Vec<Constraint>),
    /// `WITH COMPONENTS { ... }`; holds the component names mentioned.
    WithComponents(Vec<Spanned<String>>),
    /// `PATTERN "..."`; holds the pattern's text.
    Pattern(String),
    /// `CONTAINING Type`
    ContainedSubtype(Box<Type>),
    /// `{ObjectSet}` table constraint.
    ObjectSet(Spanned<String>),
    /// `constraint, ...`
    Extensible(Box<Constraint>),
    /// Anything else, kept only as "some constraint".
    Opaque,
}

#[derive(Debug)]
pub enum ValueBound {
    Min,
    Max,
    Value(Value),
}

#[derive(Debug)]
pub enum Value {
    Boolean(bool),
    Null,
    Integer(i128),
    /// A real literal, kept as written.
    Real(String),
    /// The characters between the quotes of a `"..."` literal (doubled quotes
    /// already collapsed).
    String(String),
    /// The digits of a `'...'B` literal.
    BString(String),
    /// The digits of a `'...'H` literal.
    HString(String),
    NamedNumber(Spanned<String>),
    Reference(Spanned<String>),
    Oid(Vec<OidComponent>),
    Sequence(Vec<(Spanned<String>, Value)>),
    SequenceOf(Vec<Value>),
    Choice(Spanned<String>, Box<Value>),
}

} // verus!
