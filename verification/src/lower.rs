//! Lowering of parsed modules into the intermediate representation.
use vstd::prelude::*;

use crate::cst::{
    Assignment, AssignmentKind, CharStringKind, ChoiceType, Component, Constraint, EnumItem,
    FieldRef, FieldSpec, ImportClause, Module, NamedNumber, NamedNumberValue, ObjectFieldSetting,
    OidComponent, Optionality, StructMember, StructType, Type, TypeKind, Value, ValueBound,
};
use crate::ir::{
    opt_str_eq, opt_view, IrCharKind, IrChoice, IrClassField, IrConstraint, IrEnumItem, IrField,
    IrImport, IrItem, IrModule, IrObjectClassDef, IrObjectDef, IrObjectFieldBinding,
    IrObjectFieldValue, IrObjectSetDef, IrOidPart, IrOptionality, IrProgram, IrStruct,
    IrStructMember, IrType, IrTypeDef, IrValueDef,
};
use crate::render::{
    bound_text, constraint_list_text, ir_constraint_text, opt_bound_text, render_constraint_list, render_ir_constraint,
    render_bound, render_value, value_text,
};
use crate::resolve::{canonical_module, opt_oid, resolve, Resolver};

verus! {

// ---------------------------------------------------------------------------
// What lowering produces
// ---------------------------------------------------------------------------

pub open spec fn char_kind(k: CharStringKind) -> IrCharKind {
    match k {
        CharStringKind::Utf8 => IrCharKind::Utf8,
        CharStringKind::Ia5 => IrCharKind::Ia5,
        CharStringKind::Printable => IrCharKind::Printable,
        CharStringKind::Numeric => IrCharKind::Numeric,
        CharStringKind::Visible => IrCharKind::Visible,
        CharStringKind::Bmp => IrCharKind::Bmp,
        CharStringKind::Universal => IrCharKind::Universal,
        CharStringKind::General => IrCharKind::General,
        CharStringKind::Graphic => IrCharKind::Graphic,
        CharStringKind::Teletex => IrCharKind::Teletex,
        CharStringKind::T61 => IrCharKind::T61,
        CharStringKind::Videotex => IrCharKind::Videotex,
        CharStringKind::Iso646 => IrCharKind::Iso646,
    }
}

/// The number a range bound stands for: only integer literals have one.
pub open spec fn bound_int(b: ValueBound) -> Option<i128> {
    match b {
        ValueBound::Value(Value::Integer(n)) => Some(n),
        _ => None,
    }
}

/// A lower bound as a lowered range holds it: `MIN` is open (`Some(None)`),
/// an integer literal is its number; any other bound (`MAX`, a named or
/// non-integer value) has no place in a lowered range.
pub open spec fn lower_bound_num(b: ValueBound) -> Option<Option<i128>> {
    match b {
        ValueBound::Min => Some(None),
        _ => match bound_int(b) {
            Some(n) => Some(Some(n)),
            None => None,
        },
    }
}

/// An upper bound as a lowered range holds it: `MAX` is open (`Some(None)`),
/// an integer literal is its number; any other bound has no place there.
pub open spec fn upper_bound_num(b: ValueBound) -> Option<Option<i128>> {
    match b {
        ValueBound::Max => Some(None),
        _ => match bound_int(b) {
            Some(n) => Some(Some(n)),
            None => None,
        },
    }
}

/// The bounds of the lowered range of `lower..upper`, when both bounds have a
/// place in one.
pub open spec fn range_nums(lower: ValueBound, upper: ValueBound) -> Option<(Option<i128>, Option<i128>)> {
    match (lower_bound_num(lower), upper_bound_num(upper)) {
        (Some(l), Some(u)) => Some((l, u)),
        _ => None,
    }
}

/// A range kept as text: its bounds as written, and `, ...` when extensible.
pub open spec fn range_text(lower: ValueBound, upper: ValueBound, extensible: bool) -> Seq<char> {
    bound_text(lower) + ".."@ + bound_text(upper) + if extensible {
        ", ..."@
    } else {
        Seq::empty()
    }
}

/// `out` is the lowering of constraint `c`: a range whose bounds are `MIN`,
/// `MAX` or integer literals keeps them (an open bound is `None`), a range
/// with any other bound is kept as its text, single values and SIZE are kept,
/// and everything else becomes a `Composite` description.
pub open spec fn constraint_lowered(c: Constraint, out: IrConstraint) -> bool
    decreases c,
{
    match c {
        Constraint::Size(inner) => out matches IrConstraint::Size(o) && constraint_lowered(*inner, *o),
        Constraint::ValueRange { lower, upper, extensible } => match range_nums(lower, upper) {
            Some((l, u)) => out == IrConstraint::Range { lower: l, upper: u, extensible },
            None => out matches IrConstraint::Composite(s) && s@ == range_text(lower, upper, extensible),
        },
        Constraint::SingleValue(v) => out matches IrConstraint::Single(s) && s@ == value_text(v),
        Constraint::Union(list) => out matches IrConstraint::Composite(s) && s@ == constraint_list_text(list@),
        Constraint::Intersection(list) => out matches IrConstraint::Composite(s) && s@
            == constraint_list_text(list@),
        Constraint::WithComponents(_) => out matches IrConstraint::Composite(s) && s@ == "WITH COMPONENTS"@,
        Constraint::Pattern(p) => out matches IrConstraint::Composite(s) && s@ == "PATTERN "@ + p@,
        Constraint::ContainedSubtype(_) => out matches IrConstraint::Composite(s) && s@ == "CONTAINING"@,
        Constraint::ObjectSet(n) => out matches IrConstraint::Composite(s) && s@ == "{{"@ + n.value@ + "}}"@,
        Constraint::Extensible(inner) => match lowered_range(*inner) {
            Some((lower, upper)) => out == IrConstraint::Range { lower, upper, extensible: true },
            None => out matches IrConstraint::Composite(s) && s@ == lowered_text(*inner) + ", ..."@,
        },
        Constraint::Opaque => out matches IrConstraint::Composite(s) && s@ == "…"@,
    }
}

/// The bounds of the range that `c` lowers to, when it lowers to a range.
pub open spec fn lowered_range(c: Constraint) -> Option<(Option<i128>, Option<i128>)>
    decreases c,
{
    match c {
        Constraint::ValueRange { lower, upper, .. } => range_nums(lower, upper),
        Constraint::Extensible(inner) => lowered_range(*inner),
        _ => None,
    }
}

/// The text of what `c` lowers to (as [`ir_constraint_text`] renders it).
pub open spec fn lowered_text(c: Constraint) -> Seq<char>
    decreases c,
{
    match c {
        Constraint::Size(inner) => "SIZE("@ + lowered_text(*inner) + ")"@,
        Constraint::ValueRange { lower, upper, extensible } => match range_nums(lower, upper) {
            Some((l, u)) => opt_bound_text(l, "MIN"@) + ".."@ + opt_bound_text(u, "MAX"@),
            None => range_text(lower, upper, extensible),
        },
        Constraint::SingleValue(v) => value_text(v),
        Constraint::Union(list) => constraint_list_text(list@),
        Constraint::Intersection(list) => constraint_list_text(list@),
        Constraint::WithComponents(_) => "WITH COMPONENTS"@,
        Constraint::Pattern(p) => "PATTERN "@ + p@,
        Constraint::ContainedSubtype(_) => "CONTAINING"@,
        Constraint::ObjectSet(n) => "{{"@ + n.value@ + "}}"@,
        Constraint::Extensible(inner) => match lowered_range(*inner) {
            Some((lower, upper)) => opt_bound_text(lower, "MIN"@) + ".."@ + opt_bound_text(upper, "MAX"@),
            None => lowered_text(*inner) + ", ..."@,
        },
        Constraint::Opaque => "…"@,
    }
}

/// What a constraint lowers to is a range exactly when [`lowered_range`]
/// says so, and renders as [`lowered_text`].
pub proof fn lemma_lowered_shape(c: Constraint, l: IrConstraint)
    requires
        constraint_lowered(c, l),
    ensures
        match lowered_range(c) {
            Some((lower, upper)) => l matches IrConstraint::Range { lower: lo, upper: up, .. } && lo == lower
                && up == upper,
            None => !(l is Range),
        },
        ir_constraint_text(l) == lowered_text(c),
    decreases c,
{
    match c {
        Constraint::Size(inner) => {
            lemma_lowered_shape(*inner, *l->Size_0);
        },
        _ => {},
    }
}

pub open spec fn constraints_lowered(cs: Seq<Constraint>, out: Seq<IrConstraint>) -> bool {
    &&& out.len() == cs.len()
    &&& forall|i: int| 0 <= i < cs.len() ==> constraint_lowered(#[trigger] cs[i], out[i])
}

/// The named numbers with a literal value, in order (those given by
/// reference are dropped).
pub open spec fn literal_numbers(nns: Seq<NamedNumber>) -> Seq<(Seq<char>, i128)>
    decreases nns.len(),
{
    if nns.len() == 0 {
        Seq::empty()
    } else {
        let rest = literal_numbers(nns.drop_last());
        match nns.last().value {
            NamedNumberValue::Literal(v) => rest.push((nns.last().name.value@, v)),
            NamedNumberValue::Reference(_) => rest,
        }
    }
}

pub open spec fn named_numbers_lowered(nns: Seq<NamedNumber>, out: Seq<(String, i128)>) -> bool {
    let lits = literal_numbers(nns);
    &&& out.len() == lits.len()
    &&& forall|i: int| 0 <= i < out.len() ==> (#[trigger] out[i]).0@ == lits[i].0 && out[i].1 == lits[i].1
}

pub open spec fn enum_item_lowered(i: EnumItem, o: IrEnumItem, is_extension: bool) -> bool {
    &&& opt_str_eq(i.doc, o.doc)
    &&& o.name@ == i.name.value@
    &&& o.value == i.value
    &&& o.is_extension == is_extension
}

/// Root items first, then the extension items, each marked as such.
pub open spec fn enum_items_lowered(items: Seq<EnumItem>, ext: Seq<EnumItem>, out: Seq<IrEnumItem>) -> bool {
    &&& out.len() == items.len() + ext.len()
    &&& forall|i: int| 0 <= i < items.len() ==> enum_item_lowered(#[trigger] items[i], out[i], false)
    &&& forall|j: int|
        0 <= j < ext.len() ==> enum_item_lowered(#[trigger] ext[j], out[items.len() + j], true)
}

pub open spec fn field_ref_name(r: FieldRef) -> Seq<char> {
    match r {
        FieldRef::Type(n) => n.value@,
        FieldRef::Value(n) => n.value@,
    }
}

/// `&a.&b...` for a field path.
pub open spec fn field_path_text(path: Seq<FieldRef>) -> Seq<char>
    decreases path.len(),
{
    if path.len() == 0 {
        Seq::empty()
    } else if path.len() == 1 {
        "&"@ + field_ref_name(path[0])
    } else {
        field_path_text(path.drop_last()) + "."@ + "&"@ + field_ref_name(path.last())
    }
}

/// The name recorded for `COMPONENTS OF ty`.
pub open spec fn components_of_name(ty: Type) -> Seq<char> {
    match ty.kind {
        TypeKind::Reference(n) => n.value@,
        _ => "<inline>"@,
    }
}

pub open spec fn optionality_lowered(o: Optionality, out: IrOptionality) -> bool {
    match o {
        Optionality::Required => out is Required,
        Optionality::Optional => out is Optional,
        Optionality::Default(v) => out matches IrOptionality::Default(s) && s@ == value_text(v),
    }
}

/// `out` is the lowering of type `t` written in module `cur` (whose IMPORTS
/// are `imps`) of the program `ms`: the same shape, with constraints
/// lowered, enumeration extension items appended after the root items, and
/// references resolved with [`resolve`].
pub open spec fn type_lowered(ms: Seq<Module>, cur: Seq<char>, imps: Seq<ImportClause>, t: Type, out: IrType) -> bool
    decreases t,
{
    let cs = t.constraints@;
    match t.kind {
        TypeKind::Boolean => out is Boolean,
        TypeKind::Integer { named_numbers } => out matches IrType::Integer {
            named_numbers: nn,
            constraints: oc,
        } && named_numbers_lowered(named_numbers@, nn@) && constraints_lowered(cs, oc@),
        TypeKind::Real => out is Real,
        TypeKind::Null => out is Null,
        TypeKind::BitString { named_bits } => out matches IrType::BitString {
            named_bits: nb,
            constraints: oc,
        } && named_numbers_lowered(named_bits@, nb@) && constraints_lowered(cs, oc@),
        TypeKind::OctetString => out matches IrType::OctetString { constraints: oc }
            && constraints_lowered(cs, oc@),
        TypeKind::ObjectIdentifier => out is ObjectIdentifier,
        TypeKind::RelativeOid => out is RelativeOid,
        TypeKind::CharString(k) => out matches IrType::CharString { kind, constraints: oc } && kind
            == char_kind(k) && constraints_lowered(cs, oc@),
        TypeKind::UtcTime => out is UtcTime,
        TypeKind::GeneralizedTime => out is GeneralizedTime,
        TypeKind::Enumerated { items, extensible, extension_items } => out matches IrType::Enumerated {
            items: oi,
            extensible: oe,
        } && oe == extensible && enum_items_lowered(items@, extension_items@, oi@),
        TypeKind::Sequence(s) => out matches IrType::Sequence(os) && struct_lowered(
            ms,
            cur,
            imps,
            s,
            os,
        ),
        TypeKind::SetType(s) => out matches IrType::SetType(os) && struct_lowered(ms, cur, imps, s, os),
        TypeKind::SequenceOf(inner) => out matches IrType::SequenceOf { element, constraints: oc }
            && type_lowered(ms, cur, imps, *inner, *element) && constraints_lowered(cs, oc@),
        TypeKind::SetOf(inner) => out matches IrType::SetOf { element, constraints: oc }
            && type_lowered(ms, cur, imps, *inner, *element) && constraints_lowered(cs, oc@),
        TypeKind::Choice(c) => out matches IrType::Choice(oc) && choice_lowered(ms, cur, imps, c, oc),
        TypeKind::Reference(n) => out matches IrType::Reference { module, name } && name@ == n.value@
            && opt_view(module) == resolve(ms, cur, imps, n.value@).0,
        TypeKind::ClassField { class, path } => out matches IrType::Open { description }
            && description@ == class.value@ + "."@ + field_path_text(path@),
        TypeKind::Any => out is Any,
    }
}

/// Components first (not extensions), then extension additions.
pub open spec fn struct_lowered(ms: Seq<Module>, cur: Seq<char>, imps: Seq<ImportClause>, s: StructType, out: IrStruct) -> bool
    decreases s,
{
    let comps = s.components@;
    let adds = s.extension_additions@;
    &&& out.extensible == s.extensible
    &&& out.members@.len() == comps.len() + adds.len()
    &&& forall|i: int|
        0 <= i < comps.len() ==> member_lowered(ms, cur, imps, #[trigger] comps[i], out.members@[i], false)
    &&& forall|j: int|
        0 <= j < adds.len() ==> member_lowered(
            ms,
            cur,
            imps,
            #[trigger] adds[j],
            out.members@[comps.len() + j],
            true,
        )
}

pub open spec fn member_lowered(ms: Seq<Module>, cur: Seq<char>, imps: Seq<ImportClause>, m: StructMember, out: IrStructMember, is_extension: bool) -> bool
    decreases m,
{
    match m {
        StructMember::Named(c) => out matches IrStructMember::Field(f) && field_lowered(
            ms,
            cur,
            imps,
            c,
            f,
            is_extension,
        ),
        StructMember::ComponentsOf { ty } => out matches IrStructMember::ComponentsOf { type_ref }
            && type_ref@ == components_of_name(ty),
    }
}

pub open spec fn field_lowered(ms: Seq<Module>, cur: Seq<char>, imps: Seq<ImportClause>, c: Component, f: IrField, is_extension: bool) -> bool
    decreases c,
{
    &&& opt_str_eq(c.doc, f.doc)
    &&& f.name@ == c.name.value@
    &&& type_lowered(ms, cur, imps, c.ty, f.ty)
    &&& optionality_lowered(c.optionality, f.optionality)
    &&& f.is_extension == is_extension
}

/// Root alternatives first, then extension alternatives.
pub open spec fn choice_lowered(ms: Seq<Module>, cur: Seq<char>, imps: Seq<ImportClause>, c: ChoiceType, out: IrChoice) -> bool
    decreases c,
{
    let alts = c.alternatives@;
    let exts = c.extension_alternatives@;
    &&& out.extensible == c.extensible
    &&& out.alternatives@.len() == alts.len() + exts.len()
    &&& forall|i: int|
        0 <= i < alts.len() ==> field_lowered(ms, cur, imps, #[trigger] alts[i], out.alternatives@[i], false)
    &&& forall|j: int|
        0 <= j < exts.len() ==> field_lowered(
            ms,
            cur,
            imps,
            #[trigger] exts[j],
            out.alternatives@[alts.len() + j],
            true,
        )
}

pub open spec fn class_field_lowered(ms: Seq<Module>, cur: Seq<char>, imps: Seq<ImportClause>, f: FieldSpec, out: IrClassField) -> bool {
    match f {
        FieldSpec::TypeField { name, optional } => out matches IrClassField::Type { name: n, optional: o }
            && n@ == name.value@ && o == optional,
        FieldSpec::ValueField { name, ty, unique, optional } => out matches IrClassField::Value {
            name: n,
            ty: t,
            optional: o,
            unique: u,
        } && n@ == name.value@ && type_lowered(ms, cur, imps, ty, t) && o == optional && u == unique,
        FieldSpec::VariableTypeValueField { name, field_path, optional } => out matches IrClassField::VariableType {
            name: n,
            field_path: p,
            optional: o,
        } && n@ == name.value@ && o == optional && p@.len() == field_path@.len() && forall|k: int|
            0 <= k < p@.len() ==> (#[trigger] p@[k])@ == field_ref_name(field_path@[k]),
    }
}

pub open spec fn object_field_lowered(ms: Seq<Module>, cur: Seq<char>, imps: Seq<ImportClause>, f: ObjectFieldSetting, out: IrObjectFieldBinding) -> bool {
    match f {
        ObjectFieldSetting::Type { name, ty } => {
            &&& out.name@ == name.value@
            &&& out.binding matches IrObjectFieldValue::Type(t) && type_lowered(ms, cur, imps, ty, t)
        },
        ObjectFieldSetting::Value { name, value } => {
            &&& out.name@ == name.value@
            &&& out.binding matches IrObjectFieldValue::Value(s) && s@ == value_text(value)
        },
    }
}

/// `out` is the lowering of assignment `a` of module `cur`.
pub open spec fn item_lowered(ms: Seq<Module>, cur: Seq<char>, imps: Seq<ImportClause>, a: Assignment, out: IrItem) -> bool {
    match a.kind {
        AssignmentKind::Type(t) => out matches IrItem::Type(d) && d.name@ == a.name.value@
            && opt_str_eq(a.doc, d.doc) && type_lowered(ms, cur, imps, t, d.ty),
        AssignmentKind::Value { ty, value } => out matches IrItem::Value(d) && d.name@ == a.name.value@
            && opt_str_eq(a.doc, d.doc) && type_lowered(ms, cur, imps, ty, d.ty) && d.value@ == value_text(
            value,
        ),
        AssignmentKind::ObjectClass(class) => out matches IrItem::ObjectClass(d) && d.name@
            == a.name.value@ && opt_str_eq(a.doc, d.doc) && d.fields@.len() == class.fields@.len()
            && forall|k: int|
            0 <= k < d.fields@.len() ==> class_field_lowered(
                ms,
                cur,
                imps,
                class.fields@[k],
                #[trigger] d.fields@[k],
            ),
        AssignmentKind::ObjectSet { class_name, set } => out matches IrItem::ObjectSet(d) && d.name@
            == a.name.value@ && d.class_name@ == class_name.value@ && d.extensible == set.extensible
            && d.members == set.elements@.len(),
        AssignmentKind::Object { class_name, object } => out matches IrItem::Object(d) && d.name@
            == a.name.value@ && d.class_name@ == class_name.value@ && d.fields@.len()
            == object.fields@.len() && forall|k: int|
            0 <= k < d.fields@.len() ==> object_field_lowered(
                ms,
                cur,
                imps,
                object.fields@[k],
                #[trigger] d.fields@[k],
            ),
    }
}

pub open spec fn oid_part_lowered(c: OidComponent, p: IrOidPart) -> bool {
    &&& p.value == c.value
    &&& match (c.name, p.name) {
        (Some(n), Some(s)) => s@ == n.value@,
        (None, None) => true,
        _ => false,
    }
}

pub open spec fn oid_lowered(o: Option<Vec<OidComponent>>, out: Option<Vec<IrOidPart>>) -> bool {
    match (o, out) {
        (Some(cs), Some(ps)) => ps@.len() == cs@.len() && forall|k: int|
            0 <= k < ps@.len() ==> oid_part_lowered(cs@[k], #[trigger] ps@[k]),
        (None, None) => true,
        _ => false,
    }
}

/// An import keeps its symbols and names the module its clause designates.
pub open spec fn import_lowered(ms: Seq<Module>, imp: ImportClause, out: IrImport) -> bool {
    &&& out.symbols@.len() == imp.symbols@.len()
    &&& forall|k: int| 0 <= k < out.symbols@.len() ==> (#[trigger] out.symbols@[k])@ == imp.symbols@[k].value@
    &&& out.from_module@ == canonical_module(ms, imp.from_module.value@, opt_oid(imp.from_oid))
}

/// `out` is the lowering of module `m` of the program `ms`.
pub open spec fn module_lowered(ms: Seq<Module>, m: Module, out: IrModule) -> bool {
    &&& out.name@ == m.name.value@
    &&& oid_lowered(m.oid, out.oid)
    &&& out.imports@.len() == m.imports@.len()
    &&& forall|k: int| 0 <= k < out.imports@.len() ==> import_lowered(ms, m.imports@[k], #[trigger] out.imports@[k])
    &&& out.items@.len() == m.assignments@.len()
    &&& forall|k: int|
        0 <= k < out.items@.len() ==> item_lowered(
            ms,
            m.name.value@,
            m.imports@,
            m.assignments@[k],
            #[trigger] out.items@[k],
        )
}

/// `out` is the lowering of the program `ms`: one module per input module, in order.
pub open spec fn program_lowered(ms: Seq<Module>, out: IrProgram) -> bool {
    &&& out.modules@.len() == ms.len()
    &&& forall|k: int| 0 <= k < ms.len() ==> module_lowered(ms, ms[k], #[trigger] out.modules@[k])
}

// ---------------------------------------------------------------------------
// Lowering
// ---------------------------------------------------------------------------

/// Lower a slice of parsed modules into an [`IrProgram`].
///
/// Cross-module references are recorded; unresolvable references are
/// preserved as [`IrType::Reference`] with `module` unset so consumers can
/// decide how to render them.
pub fn lower(modules: &[Module]) -> (r: IrProgram)
    ensures
        program_lowered(modules@, r),
{
    let mut resolver = Resolver::new(modules);
    let mut ir_modules: Vec<IrModule> = Vec::new();
    let mut i: usize = 0;
    while i < modules.len()
        invariant
            i <= modules@.len(),
            resolver.wf(),
            resolver.modules_view() == modules@,
            ir_modules@.len() == i,
            forall|k: int| 0 <= k < i ==> module_lowered(modules@, modules@[k], #[trigger] ir_modules@[k]),
        decreases modules@.len() - i,
    {
        let m = lower_module(&modules[i], &mut resolver);
        ir_modules.push(m);
        i = i + 1;
    }
    IrProgram { modules: ir_modules }
}

fn lit(s: &str) -> (r: String)
    ensures
        r@ == s@,
{
    let mut r = String::new();
    r.append(s);
    r
}

fn clone_doc(d: &Option<String>) -> (r: Option<String>)
    ensures
        opt_str_eq(*d, r),
{
    match d {
        Some(s) => Some(s.clone()),
        None => None,
    }
}

fn lower_module<'a>(m: &'a Module, resolver: &mut Resolver<'a>) -> (r: IrModule)
    requires
        old(resolver).wf(),
    ensures
        final(resolver).wf(),
        final(resolver).modules_view() == old(resolver).modules_view(),
        module_lowered(old(resolver).modules_view(), *m, r),
{
    resolver.set_current(&m.name.value, m.imports.as_slice());
    let ghost ms = resolver.modules_view();
    let mut items: Vec<IrItem> = Vec::new();
    let mut i: usize = 0;
    while i < m.assignments.len()
        invariant
            resolver.wf(),
            resolver.modules_view() == ms,
            resolver.current() == Some(m.name.value@),
            resolver.current_imports() == m.imports@,
            i <= m.assignments@.len(),
            items@.len() == i,
            forall|k: int|
                0 <= k < i ==> item_lowered(
                    ms,
                    m.name.value@,
                    m.imports@,
                    m.assignments@[k],
                    #[trigger] items@[k],
                ),
        decreases m.assignments@.len() - i,
    {
        let it = lower_item(&m.assignments[i], resolver);
        items.push(it);
        i = i + 1;
    }
    let oid = match &m.oid {
        Some(comps) => {
            let mut parts: Vec<IrOidPart> = Vec::new();
            let mut k: usize = 0;
            while k < comps.len()
                invariant
                    k <= comps@.len(),
                    parts@.len() == k,
                    forall|j: int| 0 <= j < k ==> oid_part_lowered(comps@[j], #[trigger] parts@[j]),
                decreases comps@.len() - k,
            {
                let c = &comps[k];
                let name = match &c.name {
                    Some(n) => Some(n.value.clone()),
                    None => None,
                };
                parts.push(IrOidPart { name, value: c.value });
                k = k + 1;
            }
            Some(parts)
        },
        None => None,
    };
    let mut imports: Vec<IrImport> = Vec::new();
    let mut k: usize = 0;
    while k < m.imports.len()
        invariant
            resolver.wf(),
            resolver.modules_view() == ms,
            k <= m.imports@.len(),
            imports@.len() == k,
            forall|j: int| 0 <= j < k ==> import_lowered(ms, m.imports@[j], #[trigger] imports@[j]),
        decreases m.imports@.len() - k,
    {
        let imp = &m.imports[k];
        let mut symbols: Vec<String> = Vec::new();
        let mut j: usize = 0;
        while j < imp.symbols.len()
            invariant
                j <= imp.symbols@.len(),
                symbols@.len() == j,
                forall|x: int| 0 <= x < j ==> (#[trigger] symbols@[x])@ == imp.symbols@[x].value@,
            decreases imp.symbols@.len() - j,
        {
            symbols.push(imp.symbols[j].value.clone());
            j = j + 1;
        }
        let from = resolver.canonical_module(&imp.from_module.value, imp.from_oid.as_ref());
        imports.push(IrImport { symbols, from_module: from.clone() });
        k = k + 1;
    }
    IrModule { name: m.name.value.clone(), oid, imports, items }
}

fn lower_item(a: &Assignment, resolver: &Resolver) -> (r: IrItem)
    requires
        resolver.wf(),
        resolver.current() is Some,
    ensures
        item_lowered(resolver.modules_view(), resolver.current()->0, resolver.current_imports(), *a, r),
{
    match &a.kind {
        AssignmentKind::Type(t) => IrItem::Type(
            IrTypeDef { name: a.name.value.clone(), doc: clone_doc(&a.doc), ty: lower_type(t, resolver) },
        ),
        AssignmentKind::Value { ty, value } => IrItem::Value(
            IrValueDef {
                name: a.name.value.clone(),
                doc: clone_doc(&a.doc),
                ty: lower_type(ty, resolver),
                value: render_value(value),
            },
        ),
        AssignmentKind::ObjectClass(class) => {
            let mut fields: Vec<IrClassField> = Vec::new();
            let mut k: usize = 0;
            while k < class.fields.len()
                invariant
                    resolver.wf(),
                    resolver.current() is Some,
                    k <= class.fields@.len(),
                    fields@.len() == k,
                    forall|j: int|
                        0 <= j < k ==> class_field_lowered(
                            resolver.modules_view(),
                            resolver.current()->0,
                            resolver.current_imports(),
                            class.fields@[j],
                            #[trigger] fields@[j],
                        ),
                decreases class.fields@.len() - k,
            {
                fields.push(lower_class_field(&class.fields[k], resolver));
                k = k + 1;
            }
            IrItem::ObjectClass(
                IrObjectClassDef { name: a.name.value.clone(), doc: clone_doc(&a.doc), fields },
            )
        },
        AssignmentKind::ObjectSet { class_name, set } => IrItem::ObjectSet(
            IrObjectSetDef {
                name: a.name.value.clone(),
                class_name: class_name.value.clone(),
                extensible: set.extensible,
                members: set.elements.len(),
            },
        ),
        AssignmentKind::Object { class_name, object } => {
            let mut fields: Vec<IrObjectFieldBinding> = Vec::new();
            let mut k: usize = 0;
            while k < object.fields.len()
                invariant
                    resolver.wf(),
                    resolver.current() is Some,
                    k <= object.fields@.len(),
                    fields@.len() == k,
                    forall|j: int|
                        0 <= j < k ==> object_field_lowered(
                            resolver.modules_view(),
                            resolver.current()->0,
                            resolver.current_imports(),
                            object.fields@[j],
                            #[trigger] fields@[j],
                        ),
                decreases object.fields@.len() - k,
            {
                fields.push(lower_object_field(&object.fields[k], resolver));
                k = k + 1;
            }
            IrItem::Object(
                IrObjectDef { name: a.name.value.clone(), class_name: class_name.value.clone(), fields },
            )
        },
    }
}

fn field_path_names(path: &Vec<FieldRef>) -> (r: Vec<String>)
    ensures
        r@.len() == path@.len(),
        forall|k: int| 0 <= k < r@.len() ==> (#[trigger] r@[k])@ == field_ref_name(path@[k]),
{
    let mut out: Vec<String> = Vec::new();
    let mut k: usize = 0;
    while k < path.len()
        invariant
            k <= path@.len(),
            out@.len() == k,
            forall|j: int| 0 <= j < k ==> (#[trigger] out@[j])@ == field_ref_name(path@[j]),
        decreases path@.len() - k,
    {
        let n = match &path[k] {
            FieldRef::Type(n) => n.value.clone(),
            FieldRef::Value(n) => n.value.clone(),
        };
        out.push(n);
        k = k + 1;
    }
    out
}

fn lower_class_field(f: &FieldSpec, resolver: &Resolver) -> (r: IrClassField)
    requires
        resolver.wf(),
        resolver.current() is Some,
    ensures
        class_field_lowered(resolver.modules_view(), resolver.current()->0, resolver.current_imports(), *f, r),
{
    match f {
        FieldSpec::TypeField { name, optional } => IrClassField::Type {
            name: name.value.clone(),
            optional: *optional,
        },
        FieldSpec::ValueField { name, ty, unique, optional } => IrClassField::Value {
            name: name.value.clone(),
            ty: lower_type(ty, resolver),
            optional: *optional,
            unique: *unique,
        },
        FieldSpec::VariableTypeValueField { name, field_path, optional } => IrClassField::VariableType {
            name: name.value.clone(),
            field_path: field_path_names(field_path),
            optional: *optional,
        },
    }
}

fn lower_object_field(f: &ObjectFieldSetting, resolver: &Resolver) -> (r: IrObjectFieldBinding)
    requires
        resolver.wf(),
        resolver.current() is Some,
    ensures
        object_field_lowered(resolver.modules_view(), resolver.current()->0, resolver.current_imports(), *f, r),
{
    match f {
        ObjectFieldSetting::Type { name, ty } => IrObjectFieldBinding {
            name: name.value.clone(),
            binding: IrObjectFieldValue::Type(lower_type(ty, resolver)),
        },
        ObjectFieldSetting::Value { name, value } => IrObjectFieldBinding {
            name: name.value.clone(),
            binding: IrObjectFieldValue::Value(render_value(value)),
        },
    }
}

fn lower_named_numbers(nns: &Vec<NamedNumber>) -> (r: Vec<(String, i128)>)
    ensures
        named_numbers_lowered(nns@, r@),
{
    let mut out: Vec<(String, i128)> = Vec::new();
    let mut k: usize = 0;
    while k < nns.len()
        invariant
            k <= nns@.len(),
            out@.len() == literal_numbers(nns@.take(k as int)).len(),
            forall|j: int|
                0 <= j < out@.len() ==> (#[trigger] out@[j]).0@ == literal_numbers(nns@.take(k as int))[j].0
                    && out@[j].1 == literal_numbers(nns@.take(k as int))[j].1,
        decreases nns@.len() - k,
    {
        proof {
            assert(nns@.take(k + 1).drop_last() =~= nns@.take(k as int));
        }
        match &nns[k].value {
            NamedNumberValue::Literal(v) => {
                out.push((nns[k].name.value.clone(), *v));
            },
            NamedNumberValue::Reference(_) => {},
        }
        k = k + 1;
    }
    proof {
        assert(nns@.take(nns@.len() as int) =~= nns@);
    }
    out
}

fn lower_enum_item(i: &EnumItem, is_extension: bool) -> (r: IrEnumItem)
    ensures
        enum_item_lowered(*i, r, is_extension),
{
    IrEnumItem { doc: clone_doc(&i.doc), name: i.name.value.clone(), value: i.value, is_extension }
}

fn lower_enum_items(items: &Vec<EnumItem>, ext: &Vec<EnumItem>) -> (r: Vec<IrEnumItem>)
    ensures
        enum_items_lowered(items@, ext@, r@),
{
    let mut out: Vec<IrEnumItem> = Vec::new();
    let mut k: usize = 0;
    while k < items.len()
        invariant
            k <= items@.len(),
            out@.len() == k,
            forall|j: int| 0 <= j < k ==> enum_item_lowered(#[trigger] items@[j], out@[j], false),
        decreases items@.len() - k,
    {
        out.push(lower_enum_item(&items[k], false));
        k = k + 1;
    }
    let mut k: usize = 0;
    while k < ext.len()
        invariant
            k <= ext@.len(),
            out@.len() == items@.len() + k,
            forall|j: int| 0 <= j < items@.len() ==> enum_item_lowered(#[trigger] items@[j], out@[j], false),
            forall|j: int| 0 <= j < k ==> enum_item_lowered(#[trigger] ext@[j], out@[items@.len() + j], true),
        decreases ext@.len() - k,
    {
        out.push(lower_enum_item(&ext[k], true));
        k = k + 1;
    }
    out
}

fn class_field_description(class: &String, path: &Vec<FieldRef>) -> (r: String)
    ensures
        r@ == class@ + "."@ + field_path_text(path@),
{
    let mut s = String::new();
    s.append(class.as_str());
    s.append(".");
    let ghost prefix = s@;
    let mut k: usize = 0;
    while k < path.len()
        invariant
            k <= path@.len(),
            s@ == prefix + field_path_text(path@.take(k as int)),
        decreases path@.len() - k,
    {
        proof {
            assert(path@.take(k + 1).drop_last() =~= path@.take(k as int));
        }
        if k > 0 {
            s.append(".");
        }
        s.append("&");
        match &path[k] {
            FieldRef::Type(n) => s.append(n.value.as_str()),
            FieldRef::Value(n) => s.append(n.value.as_str()),
        }
        proof {
            if k == 0 {
                assert(s@ =~= prefix + field_path_text(path@.take(1)));
            } else {
                assert(s@ =~= prefix + field_path_text(path@.take(k + 1)));
            }
        }
        k = k + 1;
    }
    proof {
        assert(path@.take(path@.len() as int) =~= path@);
        assert(s@ =~= class@ + "."@ + field_path_text(path@));
    }
    s
}

fn lower_type(t: &Type, resolver: &Resolver) -> (r: IrType)
    requires
        resolver.wf(),
        resolver.current() is Some,
    ensures
        type_lowered(resolver.modules_view(), resolver.current()->0, resolver.current_imports(), *t, r),
    decreases t,
{
    let leading = lower_constraints(&t.constraints);
    match &t.kind {
        TypeKind::Boolean => IrType::Boolean,
        TypeKind::Integer { named_numbers } => IrType::Integer {
            named_numbers: lower_named_numbers(named_numbers),
            constraints: leading,
        },
        TypeKind::Real => IrType::Real,
        TypeKind::Null => IrType::Null,
        TypeKind::BitString { named_bits } => IrType::BitString {
            named_bits: lower_named_numbers(named_bits),
            constraints: leading,
        },
        TypeKind::OctetString => IrType::OctetString { constraints: leading },
        TypeKind::ObjectIdentifier => IrType::ObjectIdentifier,
        TypeKind::RelativeOid => IrType::RelativeOid,
        TypeKind::CharString(k) => IrType::CharString { kind: lower_char_kind(*k), constraints: leading },
        TypeKind::UtcTime => IrType::UtcTime,
        TypeKind::GeneralizedTime => IrType::GeneralizedTime,
        TypeKind::Enumerated { items, extensible, extension_items } => IrType::Enumerated {
            items: lower_enum_items(items, extension_items),
            extensible: *extensible,
        },
        TypeKind::Sequence(s) => IrType::Sequence(lower_struct(s, resolver)),
        TypeKind::SetType(s) => IrType::SetType(lower_struct(s, resolver)),
        TypeKind::SequenceOf(inner) => IrType::SequenceOf {
            element: Box::new(lower_type(inner, resolver)),
            constraints: leading,
        },
        TypeKind::SetOf(inner) => IrType::SetOf {
            element: Box::new(lower_type(inner, resolver)),
            constraints: leading,
        },
        TypeKind::Choice(c) => IrType::Choice(lower_choice(c, resolver)),
        TypeKind::Reference(name) => {
            let (module, local) = resolver.resolve(&name.value);
            IrType::Reference { module, name: local }
        },
        TypeKind::ClassField { class, path } => IrType::Open {
            description: class_field_description(&class.value, path),
        },
        TypeKind::Any => IrType::Any,
    }
}

fn lower_char_kind(k: CharStringKind) -> (r: IrCharKind)
    ensures
        r == char_kind(k),
{
    match k {
        CharStringKind::Utf8 => IrCharKind::Utf8,
        CharStringKind::Ia5 => IrCharKind::Ia5,
        CharStringKind::Printable => IrCharKind::Printable,
        CharStringKind::Numeric => IrCharKind::Numeric,
        CharStringKind::Visible => IrCharKind::Visible,
        CharStringKind::Bmp => IrCharKind::Bmp,
        CharStringKind::Universal => IrCharKind::Universal,
        CharStringKind::General => IrCharKind::General,
        CharStringKind::Graphic => IrCharKind::Graphic,
        CharStringKind::Teletex => IrCharKind::Teletex,
        CharStringKind::T61 => IrCharKind::T61,
        CharStringKind::Videotex => IrCharKind::Videotex,
        CharStringKind::Iso646 => IrCharKind::Iso646,
    }
}

fn lower_struct(s: &StructType, resolver: &Resolver) -> (r: IrStruct)
    requires
        resolver.wf(),
        resolver.current() is Some,
    ensures
        struct_lowered(resolver.modules_view(), resolver.current()->0, resolver.current_imports(), *s, r),
    decreases s,
{
    let ghost ms = resolver.modules_view();
    let ghost cur = resolver.current()->0;
    let ghost imps = resolver.current_imports();
    let mut members: Vec<IrStructMember> = Vec::new();
    let mut k: usize = 0;
    while k < s.components.len()
        invariant
            resolver.wf(),
            resolver.current() is Some,
            ms == resolver.modules_view(),
            cur == resolver.current()->0,
            imps == resolver.current_imports(),
            k <= s.components@.len(),
            members@.len() == k,
            forall|j: int|
                0 <= j < k ==> member_lowered(ms, cur, imps, #[trigger] s.components@[j], members@[j], false),
        decreases s.components@.len() - k,
    {
        proof {
            assert(decreases_to!(*s => s.components));
            assert(decreases_to!(s.components => s.components@));
            assert(decreases_to!(s.components@ => s.components@[k as int]));
        }
        members.push(lower_struct_member(&s.components[k], resolver, false));
        k = k + 1;
    }
    let n = s.components.len();
    let mut k: usize = 0;
    while k < s.extension_additions.len()
        invariant
            resolver.wf(),
            resolver.current() is Some,
            ms == resolver.modules_view(),
            cur == resolver.current()->0,
            imps == resolver.current_imports(),
            n == s.components@.len(),
            k <= s.extension_additions@.len(),
            members@.len() == n + k,
            forall|j: int|
                0 <= j < n ==> member_lowered(ms, cur, imps, #[trigger] s.components@[j], members@[j], false),
            forall|j: int|
                0 <= j < k ==> member_lowered(
                    ms,
                    cur,
                    imps,
                    #[trigger] s.extension_additions@[j],
                    members@[n + j],
                    true,
                ),
        decreases s.extension_additions@.len() - k,
    {
        proof {
            assert(decreases_to!(*s => s.extension_additions));
            assert(decreases_to!(s.extension_additions => s.extension_additions@));
            assert(decreases_to!(s.extension_additions@ => s.extension_additions@[k as int]));
        }
        members.push(lower_struct_member(&s.extension_additions[k], resolver, true));
        k = k + 1;
    }
    IrStruct { members, extensible: s.extensible }
}

fn lower_struct_member(m: &StructMember, resolver: &Resolver, is_extension: bool) -> (r: IrStructMember)
    requires
        resolver.wf(),
        resolver.current() is Some,
    ensures
        member_lowered(
            resolver.modules_view(),
            resolver.current()->0,
            resolver.current_imports(),
            *m,
            r,
            is_extension,
        ),
    decreases m,
{
    match m {
        StructMember::Named(c) => IrStructMember::Field(lower_field(c, resolver, is_extension)),
        StructMember::ComponentsOf { ty } => {
            let name = match &ty.kind {
                TypeKind::Reference(n) => n.value.clone(),
                _ => lit("<inline>"),
            };
            IrStructMember::ComponentsOf { type_ref: name }
        },
    }
}

fn lower_field(c: &Component, resolver: &Resolver, is_extension: bool) -> (r: IrField)
    requires
        resolver.wf(),
        resolver.current() is Some,
    ensures
        field_lowered(
            resolver.modules_view(),
            resolver.current()->0,
            resolver.current_imports(),
            *c,
            r,
            is_extension,
        ),
    decreases c,
{
    let optionality = match &c.optionality {
        Optionality::Required => IrOptionality::Required,
        Optionality::Optional => IrOptionality::Optional,
        Optionality::Default(v) => IrOptionality::Default(render_value(v)),
    };
    IrField {
        doc: clone_doc(&c.doc),
        name: c.name.value.clone(),
        ty: lower_type(&c.ty, resolver),
        optionality,
        is_extension,
    }
}

fn lower_choice(c: &ChoiceType, resolver: &Resolver) -> (r: IrChoice)
    requires
        resolver.wf(),
        resolver.current() is Some,
    ensures
        choice_lowered(resolver.modules_view(), resolver.current()->0, resolver.current_imports(), *c, r),
    decreases c,
{
    let ghost ms = resolver.modules_view();
    let ghost cur = resolver.current()->0;
    let ghost imps = resolver.current_imports();
    let mut alternatives: Vec<IrField> = Vec::new();
    let mut k: usize = 0;
    while k < c.alternatives.len()
        invariant
            resolver.wf(),
            resolver.current() is Some,
            ms == resolver.modules_view(),
            cur == resolver.current()->0,
            imps == resolver.current_imports(),
            k <= c.alternatives@.len(),
            alternatives@.len() == k,
            forall|j: int|
                0 <= j < k ==> field_lowered(ms, cur, imps, #[trigger] c.alternatives@[j], alternatives@[j], false),
        decreases c.alternatives@.len() - k,
    {
        proof {
            assert(decreases_to!(*c => c.alternatives));
            assert(decreases_to!(c.alternatives => c.alternatives@));
            assert(decreases_to!(c.alternatives@ => c.alternatives@[k as int]));
        }
        alternatives.push(lower_field(&c.alternatives[k], resolver, false));
        k = k + 1;
    }
    let n = c.alternatives.len();
    let mut k: usize = 0;
    while k < c.extension_alternatives.len()
        invariant
            resolver.wf(),
            resolver.current() is Some,
            ms == resolver.modules_view(),
            cur == resolver.current()->0,
            imps == resolver.current_imports(),
            n == c.alternatives@.len(),
            k <= c.extension_alternatives@.len(),
            alternatives@.len() == n + k,
            forall|j: int|
                0 <= j < n ==> field_lowered(ms, cur, imps, #[trigger] c.alternatives@[j], alternatives@[j], false),
            forall|j: int|
                0 <= j < k ==> field_lowered(
                    ms,
                    cur,
                    imps,
                    #[trigger] c.extension_alternatives@[j],
                    alternatives@[n + j],
                    true,
                ),
        decreases c.extension_alternatives@.len() - k,
    {
        proof {
            assert(decreases_to!(*c => c.extension_alternatives));
            assert(decreases_to!(c.extension_alternatives => c.extension_alternatives@));
            assert(decreases_to!(c.extension_alternatives@ => c.extension_alternatives@[k as int]));
        }
        alternatives.push(lower_field(&c.extension_alternatives[k], resolver, true));
        k = k + 1;
    }
    IrChoice { alternatives, extensible: c.extensible }
}

fn lower_constraints(cs: &Vec<Constraint>) -> (r: Vec<IrConstraint>)
    ensures
        constraints_lowered(cs@, r@),
{
    let mut out: Vec<IrConstraint> = Vec::new();
    let mut k: usize = 0;
    while k < cs.len()
        invariant
            k <= cs@.len(),
            out@.len() == k,
            forall|j: int| 0 <= j < k ==> constraint_lowered(#[trigger] cs@[j], out@[j]),
        decreases cs@.len() - k,
    {
        out.push(lower_constraint(&cs[k]));
        k = k + 1;
    }
    out
}

#[verifier::spinoff_prover]
fn lower_constraint(c: &Constraint) -> (r: IrConstraint)
    ensures
        constraint_lowered(*c, r),
    decreases c,
{
    match c {
        Constraint::Size(inner) => {
            let l = lower_constraint(inner);
            let r = IrConstraint::Size(Box::new(l));
            assert(constraint_lowered(*c, r));
            r
        },
        Constraint::ValueRange { lower, upper, extensible } => {
            let r = lower_range(lower, upper, *extensible);
            assert(constraint_lowered(*c, r));
            r
        },
        Constraint::SingleValue(v) => {
            let r = IrConstraint::Single(render_value(v));
            assert(constraint_lowered(*c, r));
            r
        },
        Constraint::Union(list) => {
            let r = IrConstraint::Composite(render_constraint_list(list));
            assert(constraint_lowered(*c, r));
            r
        },
        Constraint::Intersection(list) => {
            let r = IrConstraint::Composite(render_constraint_list(list));
            assert(constraint_lowered(*c, r));
            r
        },
        Constraint::WithComponents(_) => {
            let r = IrConstraint::Composite(lit("WITH COMPONENTS"));
            assert(constraint_lowered(*c, r));
            r
        },
        Constraint::Pattern(p) => {
            let mut s = lit("PATTERN ");
            s.append(p.as_str());
            let r = IrConstraint::Composite(s);
            assert(constraint_lowered(*c, r));
            r
        },
        Constraint::ContainedSubtype(_) => {
            let r = IrConstraint::Composite(lit("CONTAINING"));
            assert(constraint_lowered(*c, r));
            r
        },
        Constraint::ObjectSet(n) => {
            let mut s = lit("{{");
            s.append(n.value.as_str());
            s.append("}}");
            let r = IrConstraint::Composite(s);
            assert(constraint_lowered(*c, r));
            r
        },
        Constraint::Extensible(inner) => {
            let lowered = lower_constraint(inner);
            extend_constraint(inner, &lowered)
        },
        Constraint::Opaque => {
            let r = IrConstraint::Composite(lit("…"));
            assert(constraint_lowered(*c, r));
            r
        },
    }
}

/// The lowering of `c, ...` given the lowering `lowered` of `c`.
fn extend_constraint(c: &Constraint, lowered: &IrConstraint) -> (r: IrConstraint)
    requires
        constraint_lowered(*c, *lowered),
    ensures
        constraint_lowered(Constraint::Extensible(Box::new(*c)), r),
{
    proof {
        lemma_lowered_shape(*c, *lowered);
    }
    match lowered {
        IrConstraint::Range { lower, upper, .. } => IrConstraint::Range {
            lower: *lower,
            upper: *upper,
            extensible: true,
        },
        other => {
            let mut s = render_ir_constraint(other);
            s.append(", ...");
            IrConstraint::Composite(s)
        },
    }
}

/// The lowering of `lower..upper`: a range where both bounds have a place in
/// one, otherwise the range as written.
fn lower_range(lower: &ValueBound, upper: &ValueBound, extensible: bool) -> (r: IrConstraint)
    ensures
        match range_nums(*lower, *upper) {
            Some((l, u)) => r == IrConstraint::Range { lower: l, upper: u, extensible },
            None => r matches IrConstraint::Composite(s) && s@ == range_text(*lower, *upper, extensible),
        },
{
    let lo: Option<Option<i128>> = match lower {
        ValueBound::Min => Some(None),
        _ => match bound_to_int(lower) {
            Some(n) => Some(Some(n)),
            None => None,
        },
    };
    let hi: Option<Option<i128>> = match upper {
        ValueBound::Max => Some(None),
        _ => match bound_to_int(upper) {
            Some(n) => Some(Some(n)),
            None => None,
        },
    };
    assert(lo == lower_bound_num(*lower));
    assert(hi == upper_bound_num(*upper));
    match (lo, hi) {
        (Some(l), Some(u)) => IrConstraint::Range { lower: l, upper: u, extensible },
        _ => {
            let mut s = render_bound(lower);
            s.append("..");
            let u = render_bound(upper);
            s.append(u.as_str());
            if extensible {
                s.append(", ...");
            }
            assert(s@ =~= range_text(*lower, *upper, extensible));
            IrConstraint::Composite(s)
        },
    }
}

fn bound_to_int(b: &ValueBound) -> (r: Option<i128>)
    ensures
        r == bound_int(*b),
{
    match b {
        ValueBound::Min | ValueBound::Max => None,
        ValueBound::Value(v) => match v {
            Value::Integer(n) => Some(*n),
            _ => None,
        },
    }
}

} // verus!
