//! The syntax tree as mathematical values: each type of [`crate::cst`] with
//! its strings as character sequences and its vectors as sequences.
use vstd::prelude::*;

use crate::cst::{
    AssignmentKind, CharStringKind, ChoiceType, Component, Constraint, EnumItem, FieldRef,
    FieldSpec, ImportClause, Module, NamedNumber, NamedNumberValue, ObjectDef, ObjectFieldSetting,
    ObjectSetElement, OidComponent, Optionality, StructMember, StructType, TagDefault, Type,
    TypeKind, Value, ValueBound, WithClause,
};
use crate::diagnostics::{Span, Spanned};

verus! {

/// A name with the span it was read from.
pub struct NameV {
    pub text: Seq<char>,
    pub span: Span,
}

pub struct ModuleV {
    pub name: NameV,
    pub oid: Option<Seq<OidComponentV>>,
    pub tag_default: TagDefault,
    pub extensibility_implied: bool,
    pub imports: Seq<ImportClauseV>,
    pub assignments: Seq<AssignmentV>,
}

pub struct OidComponentV {
    pub name: Option<NameV>,
    pub value: Option<i64>,
}

pub struct ImportClauseV {
    pub symbols: Seq<NameV>,
    pub from_module: NameV,
    pub from_oid: Option<Seq<OidComponentV>>,
    pub with: Option<WithClause>,
}

pub struct AssignmentV {
    pub name: NameV,
    pub doc: Option<Seq<char>>,
    pub kind: AssignmentKindV,
}

pub enum AssignmentKindV {
    Type(TypeV),
    Value { ty: TypeV, value: ValueV },
    ObjectClass(Seq<FieldSpecV>),
    ObjectSet { class_name: NameV, elements: Seq<ObjectSetElementV>, extensible: bool },
    Object { class_name: NameV, object: ObjectDefV },
}

pub enum FieldSpecV {
    TypeField { name: NameV, optional: bool },
    ValueField { name: NameV, ty: TypeV, unique: bool, optional: bool },
    VariableTypeValueField { name: NameV, field_path: Seq<FieldRefV>, optional: bool },
}

pub enum FieldRefV {
    Type(NameV),
    Value(NameV),
}

pub enum ObjectSetElementV {
    Reference(NameV),
    Object(ObjectDefV),
}

pub struct ObjectDefV {
    pub fields: Seq<ObjectFieldSettingV>,
    pub syntax: Seq<NameV>,
}

pub enum ObjectFieldSettingV {
    Type { name: NameV, ty: TypeV },
    Value { name: NameV, value: ValueV },
}

pub struct TypeV {
    pub kind: TypeKindV,
    pub constraints: Seq<ConstraintV>,
}

pub enum TypeKindV {
    Boolean,
    Integer { named_numbers: Seq<NamedNumberV> },
    Real,
    Null,
    BitString { named_bits: Seq<NamedNumberV> },
    OctetString,
    ObjectIdentifier,
    RelativeOid,
    CharString(CharStringKind),
    UtcTime,
    GeneralizedTime,
    Enumerated { items: Seq<EnumItemV>, extensible: bool, extension_items: Seq<EnumItemV> },
    Sequence(StructTypeV),
    SetType(StructTypeV),
    SequenceOf(Box<TypeV>),
    SetOf(Box<TypeV>),
    Choice(ChoiceTypeV),
    Reference(NameV),
    ClassField { class: NameV, path: Seq<FieldRefV> },
    Any,
}

pub struct NamedNumberV {
    pub name: NameV,
    pub value: NamedNumberValueV,
}

pub enum NamedNumberValueV {
    Literal(i128),
    Reference(NameV),
}

pub struct EnumItemV {
    pub doc: Option<Seq<char>>,
    pub name: NameV,
    pub value: Option<i128>,
}

pub struct StructTypeV {
    pub components: Seq<StructMemberV>,
    pub extensible: bool,
    pub extension_additions: Seq<StructMemberV>,
}

pub enum StructMemberV {
    Named(ComponentV),
    ComponentsOf { ty: TypeV },
}

pub struct ComponentV {
    pub doc: Option<Seq<char>>,
    pub name: NameV,
    pub ty: TypeV,
    pub optionality: OptionalityV,
}

pub enum OptionalityV {
    Required,
    Optional,
    Default(ValueV),
}

pub struct ChoiceTypeV {
    pub alternatives: Seq<ComponentV>,
    pub extensible: bool,
    pub extension_alternatives: Seq<ComponentV>,
}

pub enum ConstraintV {
    Size(Box<ConstraintV>),
    ValueRange { lower: ValueBoundV, upper: ValueBoundV, extensible: bool },
    SingleValue(ValueV),
    Union(Seq<ConstraintV>),
    Intersection(Seq<ConstraintV>),
    WithComponents(Seq<NameV>),
    Pattern(Seq<char>),
    ContainedSubtype(Box<TypeV>),
    ObjectSet(NameV),
    Extensible(Box<ConstraintV>),
    Opaque,
}

pub enum ValueBoundV {
    Min,
    Max,
    Value(ValueV),
}

pub enum ValueV {
    Boolean(bool),
    Null,
    Integer(i128),
    Real(Seq<char>),
    String(Seq<char>),
    BString(Seq<char>),
    HString(Seq<char>),
    NamedNumber(NameV),
    Reference(NameV),
    Oid(Seq<OidComponentV>),
    Sequence(Seq<(NameV, ValueV)>),
    SequenceOf(Seq<ValueV>),
    Choice(NameV, Box<ValueV>),
}

// ---------------------------------------------------------------------------
// Views of the syntax tree
// ---------------------------------------------------------------------------

pub open spec fn name_v(n: Spanned<String>) -> NameV {
    NameV { text: n.value@, span: n.span }
}

pub open spec fn names_v(ns: Seq<Spanned<String>>) -> Seq<NameV> {
    ns.map_values(|n: Spanned<String>| name_v(n))
}

pub open spec fn doc_v(d: Option<String>) -> Option<Seq<char>> {
    match d {
        Some(s) => Some(s@),
        None => None,
    }
}

pub open spec fn oid_component_v(c: OidComponent) -> OidComponentV {
    OidComponentV {
        name: match c.name {
            Some(n) => Some(name_v(n)),
            None => None,
        },
        value: c.value,
    }
}

pub open spec fn oid_v(cs: Seq<OidComponent>) -> Seq<OidComponentV> {
    cs.map_values(|c: OidComponent| oid_component_v(c))
}

pub open spec fn opt_oid_v(o: Option<Vec<OidComponent>>) -> Option<Seq<OidComponentV>> {
    match o {
        Some(v) => Some(oid_v(v@)),
        None => None,
    }
}

pub open spec fn import_v(c: ImportClause) -> ImportClauseV {
    ImportClauseV {
        symbols: names_v(c.symbols@),
        from_module: name_v(c.from_module),
        from_oid: opt_oid_v(c.from_oid),
        with: c.with,
    }
}

pub open spec fn field_ref_v(r: FieldRef) -> FieldRefV {
    match r {
        FieldRef::Type(n) => FieldRefV::Type(name_v(n)),
        FieldRef::Value(n) => FieldRefV::Value(name_v(n)),
    }
}

pub open spec fn field_refs_v(rs: Seq<FieldRef>) -> Seq<FieldRefV> {
    rs.map_values(|r: FieldRef| field_ref_v(r))
}

pub open spec fn named_number_v(n: NamedNumber) -> NamedNumberV {
    NamedNumberV {
        name: name_v(n.name),
        value: match n.value {
            NamedNumberValue::Literal(v) => NamedNumberValueV::Literal(v),
            NamedNumberValue::Reference(r) => NamedNumberValueV::Reference(name_v(r)),
        },
    }
}

pub open spec fn named_numbers_v(ns: Seq<NamedNumber>) -> Seq<NamedNumberV> {
    ns.map_values(|n: NamedNumber| named_number_v(n))
}

pub open spec fn enum_item_v(i: EnumItem) -> EnumItemV {
    EnumItemV { doc: doc_v(i.doc), name: name_v(i.name), value: i.value }
}

pub open spec fn enum_items_v(is: Seq<EnumItem>) -> Seq<EnumItemV> {
    is.map_values(|i: EnumItem| enum_item_v(i))
}

pub open spec fn value_v(v: Value) -> ValueV
    decreases v,
{
    match v {
        Value::Boolean(b) => ValueV::Boolean(b),
        Value::Null => ValueV::Null,
        Value::Integer(n) => ValueV::Integer(n),
        Value::Real(r) => ValueV::Real(r@),
        Value::String(s) => ValueV::String(s@),
        Value::BString(s) => ValueV::BString(s@),
        Value::HString(s) => ValueV::HString(s@),
        Value::NamedNumber(n) => ValueV::NamedNumber(name_v(n)),
        Value::Reference(n) => ValueV::Reference(name_v(n)),
        Value::Oid(cs) => ValueV::Oid(oid_v(cs@)),
        Value::Sequence(fields) => ValueV::Sequence(fields_v(fields@)),
        Value::SequenceOf(items) => ValueV::SequenceOf(values_v(items@)),
        Value::Choice(n, inner) => ValueV::Choice(name_v(n), Box::new(value_v(*inner))),
    }
}

pub open spec fn values_v(vs: Seq<Value>) -> Seq<ValueV>
    decreases vs,
{
    if vs.len() == 0 {
        Seq::empty()
    } else {
        values_v(vs.subrange(0, vs.len() - 1)).push(value_v(vs[vs.len() - 1]))
    }
}

pub open spec fn fields_v(fs: Seq<(Spanned<String>, Value)>) -> Seq<(NameV, ValueV)>
    decreases fs,
{
    if fs.len() == 0 {
        Seq::empty()
    } else {
        fields_v(fs.subrange(0, fs.len() - 1)).push(
            (name_v(fs[fs.len() - 1].0), value_v(fs[fs.len() - 1].1)),
        )
    }
}

pub open spec fn bound_v(b: ValueBound) -> ValueBoundV {
    match b {
        ValueBound::Min => ValueBoundV::Min,
        ValueBound::Max => ValueBoundV::Max,
        ValueBound::Value(v) => ValueBoundV::Value(value_v(v)),
    }
}

pub open spec fn type_v(t: Type) -> TypeV
    decreases t,
{
    TypeV { kind: type_kind_v(t.kind), constraints: constraints_v(t.constraints@) }
}

pub open spec fn type_kind_v(k: TypeKind) -> TypeKindV
    decreases k,
{
    match k {
        TypeKind::Boolean => TypeKindV::Boolean,
        TypeKind::Integer { named_numbers } => TypeKindV::Integer {
            named_numbers: named_numbers_v(named_numbers@),
        },
        TypeKind::Real => TypeKindV::Real,
        TypeKind::Null => TypeKindV::Null,
        TypeKind::BitString { named_bits } => TypeKindV::BitString { named_bits: named_numbers_v(named_bits@) },
        TypeKind::OctetString => TypeKindV::OctetString,
        TypeKind::ObjectIdentifier => TypeKindV::ObjectIdentifier,
        TypeKind::RelativeOid => TypeKindV::RelativeOid,
        TypeKind::CharString(c) => TypeKindV::CharString(c),
        TypeKind::UtcTime => TypeKindV::UtcTime,
        TypeKind::GeneralizedTime => TypeKindV::GeneralizedTime,
        TypeKind::Enumerated { items, extensible, extension_items } => TypeKindV::Enumerated {
            items: enum_items_v(items@),
            extensible,
            extension_items: enum_items_v(extension_items@),
        },
        TypeKind::Sequence(s) => TypeKindV::Sequence(struct_v(s)),
        TypeKind::SetType(s) => TypeKindV::SetType(struct_v(s)),
        TypeKind::SequenceOf(inner) => TypeKindV::SequenceOf(Box::new(type_v(*inner))),
        TypeKind::SetOf(inner) => TypeKindV::SetOf(Box::new(type_v(*inner))),
        TypeKind::Choice(c) => TypeKindV::Choice(choice_v(c)),
        TypeKind::Reference(n) => TypeKindV::Reference(name_v(n)),
        TypeKind::ClassField { class, path } => TypeKindV::ClassField {
            class: name_v(class),
            path: field_refs_v(path@),
        },
        TypeKind::Any => TypeKindV::Any,
    }
}

pub open spec fn struct_v(s: StructType) -> StructTypeV
    decreases s,
{
    StructTypeV {
        components: members_v(s.components@),
        extensible: s.extensible,
        extension_additions: members_v(s.extension_additions@),
    }
}

pub open spec fn members_v(ms: Seq<StructMember>) -> Seq<StructMemberV>
    decreases ms,
{
    if ms.len() == 0 {
        Seq::empty()
    } else {
        members_v(ms.subrange(0, ms.len() - 1)).push(member_v(ms[ms.len() - 1]))
    }
}

pub open spec fn member_v(m: StructMember) -> StructMemberV
    decreases m,
{
    match m {
        StructMember::Named(c) => StructMemberV::Named(component_v(c)),
        StructMember::ComponentsOf { ty } => StructMemberV::ComponentsOf { ty: type_v(ty) },
    }
}

pub open spec fn component_v(c: Component) -> ComponentV
    decreases c,
{
    ComponentV {
        doc: doc_v(c.doc),
        name: name_v(c.name),
        ty: type_v(c.ty),
        optionality: match c.optionality {
            Optionality::Required => OptionalityV::Required,
            Optionality::Optional => OptionalityV::Optional,
            Optionality::Default(v) => OptionalityV::Default(value_v(v)),
        },
    }
}

pub open spec fn components_v(cs: Seq<Component>) -> Seq<ComponentV>
    decreases cs,
{
    if cs.len() == 0 {
        Seq::empty()
    } else {
        components_v(cs.subrange(0, cs.len() - 1)).push(component_v(cs[cs.len() - 1]))
    }
}

pub open spec fn choice_v(c: ChoiceType) -> ChoiceTypeV
    decreases c,
{
    ChoiceTypeV {
        alternatives: components_v(c.alternatives@),
        extensible: c.extensible,
        extension_alternatives: components_v(c.extension_alternatives@),
    }
}

pub open spec fn constraint_v(c: Constraint) -> ConstraintV
    decreases c,
{
    match c {
        Constraint::Size(inner) => ConstraintV::Size(Box::new(constraint_v(*inner))),
        Constraint::ValueRange { lower, upper, extensible } => ConstraintV::ValueRange {
            lower: bound_v(lower),
            upper: bound_v(upper),
            extensible,
        },
        Constraint::SingleValue(v) => ConstraintV::SingleValue(value_v(v)),
        Constraint::Union(list) => ConstraintV::Union(constraints_v(list@)),
        Constraint::Intersection(list) => ConstraintV::Intersection(constraints_v(list@)),
        Constraint::WithComponents(ns) => ConstraintV::WithComponents(names_v(ns@)),
        Constraint::Pattern(p) => ConstraintV::Pattern(p@),
        Constraint::ContainedSubtype(t) => ConstraintV::ContainedSubtype(Box::new(type_v(*t))),
        Constraint::ObjectSet(n) => ConstraintV::ObjectSet(name_v(n)),
        Constraint::Extensible(inner) => ConstraintV::Extensible(Box::new(constraint_v(*inner))),
        Constraint::Opaque => ConstraintV::Opaque,
    }
}

pub open spec fn constraints_v(cs: Seq<Constraint>) -> Seq<ConstraintV>
    decreases cs,
{
    if cs.len() == 0 {
        Seq::empty()
    } else {
        constraints_v(cs.subrange(0, cs.len() - 1)).push(constraint_v(cs[cs.len() - 1]))
    }
}

pub open spec fn field_spec_v(f: FieldSpec) -> FieldSpecV {
    match f {
        FieldSpec::TypeField { name, optional } => FieldSpecV::TypeField { name: name_v(name), optional },
        FieldSpec::ValueField { name, ty, unique, optional } => FieldSpecV::ValueField {
            name: name_v(name),
            ty: type_v(ty),
            unique,
            optional,
        },
        FieldSpec::VariableTypeValueField { name, field_path, optional } => FieldSpecV::VariableTypeValueField {
            name: name_v(name),
            field_path: field_refs_v(field_path@),
            optional,
        },
    }
}

pub open spec fn object_setting_v(s: ObjectFieldSetting) -> ObjectFieldSettingV {
    match s {
        ObjectFieldSetting::Type { name, ty } => ObjectFieldSettingV::Type { name: name_v(name), ty: type_v(ty) },
        ObjectFieldSetting::Value { name, value } => ObjectFieldSettingV::Value {
            name: name_v(name),
            value: value_v(value),
        },
    }
}

pub open spec fn object_settings_v(ss: Seq<ObjectFieldSetting>) -> Seq<ObjectFieldSettingV> {
    ss.map_values(|s: ObjectFieldSetting| object_setting_v(s))
}

pub open spec fn object_v(o: ObjectDef) -> ObjectDefV {
    ObjectDefV { fields: object_settings_v(o.fields@), syntax: names_v(o.syntax@) }
}

pub open spec fn set_element_v(e: ObjectSetElement) -> ObjectSetElementV {
    match e {
        ObjectSetElement::Reference(n) => ObjectSetElementV::Reference(name_v(n)),
        ObjectSetElement::Object(o) => ObjectSetElementV::Object(object_v(o)),
    }
}

pub open spec fn set_elements_v(es: Seq<ObjectSetElement>) -> Seq<ObjectSetElementV> {
    es.map_values(|e: ObjectSetElement| set_element_v(e))
}

pub open spec fn field_specs_v(fs: Seq<FieldSpec>) -> Seq<FieldSpecV> {
    fs.map_values(|f: FieldSpec| field_spec_v(f))
}

pub open spec fn assignment_kind_v(k: AssignmentKind) -> AssignmentKindV {
    match k {
        AssignmentKind::Type(t) => AssignmentKindV::Type(type_v(t)),
        AssignmentKind::Value { ty, value } => AssignmentKindV::Value { ty: type_v(ty), value: value_v(value) },
        AssignmentKind::ObjectClass(c) => AssignmentKindV::ObjectClass(field_specs_v(c.fields@)),
        AssignmentKind::ObjectSet { class_name, set } => AssignmentKindV::ObjectSet {
            class_name: name_v(class_name),
            elements: set_elements_v(set.elements@),
            extensible: set.extensible,
        },
        AssignmentKind::Object { class_name, object } => AssignmentKindV::Object {
            class_name: name_v(class_name),
            object: object_v(object),
        },
    }
}

pub open spec fn assignment_v(a: crate::cst::Assignment) -> AssignmentV {
    AssignmentV { name: name_v(a.name), doc: doc_v(a.doc), kind: assignment_kind_v(a.kind) }
}

pub open spec fn imports_v(cs: Seq<ImportClause>) -> Seq<ImportClauseV> {
    cs.map_values(|c: ImportClause| import_v(c))
}

pub open spec fn assignments_v(as_: Seq<crate::cst::Assignment>) -> Seq<AssignmentV> {
    as_.map_values(|a: crate::cst::Assignment| assignment_v(a))
}

pub open spec fn module_v(m: Module) -> ModuleV {
    ModuleV {
        name: name_v(m.name),
        oid: opt_oid_v(m.oid),
        tag_default: m.tag_default,
        extensibility_implied: m.extensibility_implied,
        imports: imports_v(m.imports@),
        assignments: assignments_v(m.assignments@),
    }
}

// ---------------------------------------------------------------------------
// Views of sequences grown by one element
// ---------------------------------------------------------------------------

pub proof fn lemma_values_v_push(vs: Seq<Value>, v: Value)
    ensures
        values_v(vs.push(v)) == values_v(vs).push(value_v(v)),
{
    assert(vs.push(v).subrange(0, vs.len() as int) =~= vs);
}

pub proof fn lemma_fields_v_push(fs: Seq<(Spanned<String>, Value)>, f: (Spanned<String>, Value))
    ensures
        fields_v(fs.push(f)) == fields_v(fs).push((name_v(f.0), value_v(f.1))),
{
    assert(fs.push(f).subrange(0, fs.len() as int) =~= fs);
}

pub proof fn lemma_members_v_push(ms: Seq<StructMember>, m: StructMember)
    ensures
        members_v(ms.push(m)) == members_v(ms).push(member_v(m)),
{
    assert(ms.push(m).subrange(0, ms.len() as int) =~= ms);
}

pub proof fn lemma_components_v_push(cs: Seq<Component>, c: Component)
    ensures
        components_v(cs.push(c)) == components_v(cs).push(component_v(c)),
{
    assert(cs.push(c).subrange(0, cs.len() as int) =~= cs);
}

pub proof fn lemma_constraints_v_push(cs: Seq<Constraint>, c: Constraint)
    ensures
        constraints_v(cs.push(c)) == constraints_v(cs).push(constraint_v(c)),
{
    assert(cs.push(c).subrange(0, cs.len() as int) =~= cs);
}

} // verus!
