//! Queries over a lowered program: lookups, type listing, resolution
//! diagnostics and type rendering.
use vstd::prelude::*;

use crate::ir::{
    IrCharKind, IrClassField, IrDiagnostic, IrItem, IrModule, IrObjectFieldBinding, IrObjectFieldValue,
    IrProgram, IrStructMember, IrType, IrTypeDef,
};
use crate::text::{debug_quoted, debug_str, str_eq};

verus! {

// ---------------------------------------------------------------------------
// find_type / all_types
// ---------------------------------------------------------------------------

/// `i` is the first module named `name`.
pub open spec fn is_first_module(mods: Seq<IrModule>, name: Seq<char>, i: int) -> bool {
    &&& 0 <= i < mods.len()
    &&& mods[i].name@ == name
    &&& forall|k: int| 0 <= k < i ==> (#[trigger] mods[k]).name@ != name
}

/// `j` is the first type definition named `name` among `items`.
pub open spec fn is_first_type(items: Seq<IrItem>, name: Seq<char>, j: int) -> bool {
    &&& 0 <= j < items.len()
    &&& items[j] is Type
    &&& items[j]->Type_0.name@ == name
    &&& forall|k: int| 0 <= k < j ==> !((#[trigger] items[k]) is Type && items[k]->Type_0.name@ == name)
}

/// Where [`IrProgram::find_type`] finds `module.name`: the first type of that
/// name in the first module of that name.
pub open spec fn find_type_index(mods: Seq<IrModule>, module: Seq<char>, name: Seq<char>) -> Option<(int, int)> {
    if exists|i: int| is_first_module(mods, module, i) {
        let i = choose|i: int| is_first_module(mods, module, i);
        if exists|j: int| is_first_type(mods[i].items@, name, j) {
            Some((i, choose|j: int| is_first_type(mods[i].items@, name, j)))
        } else {
            None
        }
    } else {
        None
    }
}

/// Positions `(module, item)` of the type definitions among `items` of module `mi`.
pub open spec fn item_type_positions(items: Seq<IrItem>, mi: int) -> Seq<(int, int)>
    decreases items.len(),
{
    if items.len() == 0 {
        Seq::empty()
    } else {
        let rest = item_type_positions(items.drop_last(), mi);
        if items.last() is Type {
            rest.push((mi, items.len() - 1))
        } else {
            rest
        }
    }
}

/// Positions `(module, item)` of every type definition, module by module, in order.
pub open spec fn type_positions(mods: Seq<IrModule>) -> Seq<(int, int)>
    decreases mods.len(),
{
    if mods.len() == 0 {
        Seq::empty()
    } else {
        type_positions(mods.drop_last()) + item_type_positions(mods.last().items@, mods.len() - 1)
    }
}

impl IrProgram {
    /// Find a type definition by module + name.
    pub fn find_type(&self, module: &str, name: &str) -> (r: Option<&IrTypeDef>)
        ensures
            r == match find_type_index(self.modules@, module@, name@) {
                Some((i, j)) => Some(&self.modules@[i].items@[j]->Type_0),
                None => None,
            },
    {
        let mut i: usize = 0;
        while i < self.modules.len()
            invariant
                i <= self.modules@.len(),
                forall|k: int| 0 <= k < i ==> (#[trigger] self.modules@[k]).name@ != module@,
            decreases self.modules@.len() - i,
        {
            if str_eq(self.modules[i].name.as_str(), module) {
                proof {
                    assert(is_first_module(self.modules@, module@, i as int));
                    assert forall|x: int| is_first_module(self.modules@, module@, x) implies x == i by {
                        if x < i {
                            assert(self.modules@[x].name@ != module@);
                        } else if x > i {
                            assert(self.modules@[i as int].name@ != module@);
                        }
                    }
                }
                let items = &self.modules[i].items;
                let mut j: usize = 0;
                while j < items.len()
                    invariant
                        j <= items@.len(),
                        i < self.modules@.len(),
                        *items == self.modules@[i as int].items,
                        is_first_module(self.modules@, module@, i as int),
                        forall|x: int| is_first_module(self.modules@, module@, x) ==> x == i,
                        forall|k: int|
                            0 <= k < j ==> !((#[trigger] items@[k]) is Type && items@[k]->Type_0.name@ == name@),
                    decreases items@.len() - j,
                {
                    match &items[j] {
                        IrItem::Type(t) => {
                            if str_eq(t.name.as_str(), name) {
                                proof {
                                    assert(is_first_type(items@, name@, j as int));
                                    assert forall|x: int| is_first_type(items@, name@, x) implies x == j by {
                                        if x < j {
                                        } else if x > j {
                                            assert(items@[j as int] is Type);
                                        }
                                    }
                                    let ci = choose|x: int| is_first_module(self.modules@, module@, x);
                                    assert(ci == i);
                                    let cj = choose|x: int| is_first_type(self.modules@[i as int].items@, name@, x);
                                    assert(cj == j);
                                    assert(find_type_index(self.modules@, module@, name@) == Some((i as int, j as int)));
                                }
                                return Some(t);
                            }
                        },
                        _ => {},
                    }
                    j = j + 1;
                }
                proof {
                    let ci = choose|x: int| is_first_module(self.modules@, module@, x);
                    assert(ci == i);
                    assert forall|x: int| !is_first_type(items@, name@, x) by {
                        if 0 <= x < items@.len() {
                            assert(!(items@[x] is Type && items@[x]->Type_0.name@ == name@));
                        }
                    }
                }
                return None;
            }
            i = i + 1;
        }
        None
    }

    /// Every type definition across modules, each with its module, in program order.
    pub fn all_types(&self) -> (r: Vec<(&IrModule, &IrTypeDef)>)
        ensures
            r@.len() == type_positions(self.modules@).len(),
            forall|k: int|
                0 <= k < r@.len() ==> {
                    let (mi, ti) = type_positions(self.modules@)[k];
                    &&& *(#[trigger] r@[k]).0 == self.modules@[mi]
                    &&& *r@[k].1 == self.modules@[mi].items@[ti]->Type_0
                },
    {
        let mut out: Vec<(&IrModule, &IrTypeDef)> = Vec::new();
        let ghost mods = self.modules@;
        let mut i: usize = 0;
        while i < self.modules.len()
            invariant
                mods == self.modules@,
                i <= mods.len(),
                out@.len() == type_positions(mods.take(i as int)).len(),
                forall|k: int|
                    0 <= k < out@.len() ==> {
                        let (mi, ti) = type_positions(mods.take(i as int))[k];
                        &&& 0 <= mi < i
                        &&& 0 <= ti < mods[mi].items@.len()
                        &&& *(#[trigger] out@[k]).0 == mods[mi]
                        &&& *out@[k].1 == mods[mi].items@[ti]->Type_0
                    },
            decreases mods.len() - i,
        {
            let m = &self.modules[i];
            let ghost before = out@;
            let ghost base = type_positions(mods.take(i as int));
            let mut j: usize = 0;
            while j < m.items.len()
                invariant
                    mods == self.modules@,
                    i < mods.len(),
                    *m == mods[i as int],
                    j <= m.items@.len(),
                    base == type_positions(mods.take(i as int)),
                    out@.len() == base.len() + item_type_positions(m.items@.take(j as int), i as int).len(),
                    forall|k: int|
                        0 <= k < out@.len() ==> {
                            let (mi, ti) = (base + item_type_positions(m.items@.take(j as int), i as int))[k];
                            &&& 0 <= mi <= i
                            &&& 0 <= ti < mods[mi].items@.len()
                            &&& *(#[trigger] out@[k]).0 == mods[mi]
                            &&& *out@[k].1 == mods[mi].items@[ti]->Type_0
                        },
                decreases m.items@.len() - j,
            {
                proof {
                    assert(m.items@.take(j + 1).drop_last() =~= m.items@.take(j as int));
                }
                let ghost prev_out = out@;
                let ghost prev_pos = base + item_type_positions(m.items@.take(j as int), i as int);
                match &m.items[j] {
                    IrItem::Type(t) => {
                        out.push((m, t));
                        proof {
                            let np = base + item_type_positions(m.items@.take(j + 1), i as int);
                            assert(np =~= prev_pos.push((i as int, j as int)));
                            assert forall|k: int| 0 <= k < out@.len() implies {
                                let (mi, ti) = np[k];
                                &&& 0 <= mi <= i
                                &&& 0 <= ti < mods[mi].items@.len()
                                &&& *(#[trigger] out@[k]).0 == mods[mi]
                                &&& *out@[k].1 == mods[mi].items@[ti]->Type_0
                            } by {
                                if k < prev_out.len() {
                                    assert(out@[k] == prev_out[k]);
                                    assert(np[k] == prev_pos[k]);
                                }
                            }
                        }
                    },
                    _ => {
                        proof {
                            let np = base + item_type_positions(m.items@.take(j + 1), i as int);
                            assert(np =~= prev_pos);
                        }
                    },
                }
                j = j + 1;
            }
            proof {
                assert(m.items@.take(m.items@.len() as int) =~= m.items@);
                assert(mods.take(i + 1).drop_last() =~= mods.take(i as int));
                assert(type_positions(mods.take(i + 1)) =~= base + item_type_positions(m.items@, i as int));
            }
            i = i + 1;
        }
        proof {
            assert(mods.take(mods.len() as int) =~= mods);
        }
        out
    }
}

// ---------------------------------------------------------------------------
// Diagnostics
// ---------------------------------------------------------------------------

/// The content of an [`IrDiagnostic`].
pub enum DiagnosticView {
    UnresolvedTypeReference { module: Seq<char>, item: Seq<char>, referenced: Seq<char> },
    UnknownTypeInModule {
        module: Seq<char>,
        item: Seq<char>,
        referenced_module: Seq<char>,
        referenced: Seq<char>,
    },
    UnknownImportedModule { module: Seq<char>, from_module: Seq<char>, symbols: Seq<Seq<char>> },
}

impl View for IrDiagnostic {
    type V = DiagnosticView;

    open spec fn view(&self) -> DiagnosticView {
        match self {
            IrDiagnostic::UnresolvedTypeReference { module, item, referenced } => {
                DiagnosticView::UnresolvedTypeReference {
                    module: module@,
                    item: item@,
                    referenced: referenced@,
                }
            },
            IrDiagnostic::UnknownTypeInModule { module, item, referenced_module, referenced } => {
                DiagnosticView::UnknownTypeInModule {
                    module: module@,
                    item: item@,
                    referenced_module: referenced_module@,
                    referenced: referenced@,
                }
            },
            IrDiagnostic::UnknownImportedModule { module, from_module, symbols } => {
                DiagnosticView::UnknownImportedModule {
                    module: module@,
                    from_module: from_module@,
                    symbols: symbols@.map_values(|s: String| s@),
                }
            },
        }
    }
}

pub open spec fn diags_view(ds: Seq<IrDiagnostic>) -> Seq<DiagnosticView> {
    ds.map_values(|d: IrDiagnostic| d@)
}

/// Some module of the program is named `name`.
pub open spec fn module_present(mods: Seq<IrModule>, name: Seq<char>) -> bool {
    exists|k: int| 0 <= k < mods.len() && (#[trigger] mods[k]).name@ == name
}

/// Diagnostics for the references inside type `ty` of item `item` in module
/// `module`: an unresolved reference, or one whose module is absent or has
/// no such type (as [`IrProgram::find_type`] looks it up); nested types are
/// searched in order.
pub open spec fn type_diags(mods: Seq<IrModule>, module: Seq<char>, item: Seq<char>, ty: IrType) -> Seq<DiagnosticView>
    decreases ty,
{
    match ty {
        IrType::Reference { module: Some(m), name } => if !module_present(mods, m@) || find_type_index(
            mods,
            m@,
            name@,
        ) is None {
            seq![
                DiagnosticView::UnknownTypeInModule {
                    module,
                    item,
                    referenced_module: m@,
                    referenced: name@,
                },
            ]
        } else {
            Seq::empty()
        },
        IrType::Reference { module: None, name } => seq![
            DiagnosticView::UnresolvedTypeReference { module, item, referenced: name@ },
        ],
        IrType::Sequence(s) => members_diags(mods, module, item, s.members@),
        IrType::SetType(s) => members_diags(mods, module, item, s.members@),
        IrType::SequenceOf { element, .. } => type_diags(mods, module, item, *element),
        IrType::SetOf { element, .. } => type_diags(mods, module, item, *element),
        IrType::Choice(c) => fields_diags(mods, module, item, c.alternatives@),
        _ => Seq::empty(),
    }
}

pub open spec fn members_diags(mods: Seq<IrModule>, module: Seq<char>, item: Seq<char>, ms: Seq<IrStructMember>) -> Seq<DiagnosticView>
    decreases ms,
{
    if ms.len() == 0 {
        Seq::empty()
    } else {
        members_diags(mods, module, item, ms.subrange(0, ms.len() - 1)) + match ms[ms.len() - 1] {
            IrStructMember::Field(f) => type_diags(mods, module, item, f.ty),
            IrStructMember::ComponentsOf { .. } => Seq::empty(),
        }
    }
}

pub open spec fn fields_diags(mods: Seq<IrModule>, module: Seq<char>, item: Seq<char>, fs: Seq<crate::ir::IrField>) -> Seq<DiagnosticView>
    decreases fs,
{
    if fs.len() == 0 {
        Seq::empty()
    } else {
        fields_diags(mods, module, item, fs.subrange(0, fs.len() - 1)) + type_diags(
            mods,
            module,
            item,
            fs[fs.len() - 1].ty,
        )
    }
}

/// One diagnostic for each import of `m` whose module is absent, in order.
pub open spec fn import_diags(mods: Seq<IrModule>, m: IrModule, imps: Seq<crate::ir::IrImport>) -> Seq<DiagnosticView>
    decreases imps.len(),
{
    if imps.len() == 0 {
        Seq::empty()
    } else {
        let rest = import_diags(mods, m, imps.drop_last());
        let imp = imps.last();
        if !module_present(mods, imp.from_module@) {
            rest.push(
                DiagnosticView::UnknownImportedModule {
                    module: m.name@,
                    from_module: imp.from_module@,
                    symbols: imp.symbols@.map_values(|s: String| s@),
                },
            )
        } else {
            rest
        }
    }
}

/// The reference diagnostics of the value-field types of class `item`.
pub open spec fn class_fields_diags(mods: Seq<IrModule>, module: Seq<char>, item: Seq<char>, fs: Seq<IrClassField>) -> Seq<DiagnosticView>
    decreases fs.len(),
{
    if fs.len() == 0 {
        Seq::empty()
    } else {
        class_fields_diags(mods, module, item, fs.drop_last()) + match fs.last() {
            IrClassField::Value { ty, .. } => type_diags(mods, module, item, ty),
            _ => Seq::empty(),
        }
    }
}

/// The reference diagnostics of the types that object `item` binds.
pub open spec fn bindings_diags(mods: Seq<IrModule>, module: Seq<char>, item: Seq<char>, bs: Seq<IrObjectFieldBinding>) -> Seq<DiagnosticView>
    decreases bs.len(),
{
    if bs.len() == 0 {
        Seq::empty()
    } else {
        bindings_diags(mods, module, item, bs.drop_last()) + match bs.last().binding {
            IrObjectFieldValue::Type(t) => type_diags(mods, module, item, t),
            IrObjectFieldValue::Value(_) => Seq::empty(),
        }
    }
}

/// The reference diagnostics of `items` of `m`, item by item: the types of
/// type and value definitions, the value-field types of classes, and the
/// types that objects bind (object sets hold no types).
pub open spec fn item_diags(mods: Seq<IrModule>, m: IrModule, items: Seq<IrItem>) -> Seq<DiagnosticView>
    decreases items.len(),
{
    if items.len() == 0 {
        Seq::empty()
    } else {
        item_diags(mods, m, items.drop_last()) + match items.last() {
            IrItem::Type(td) => type_diags(mods, m.name@, td.name@, td.ty),
            IrItem::Value(vd) => type_diags(mods, m.name@, vd.name@, vd.ty),
            IrItem::ObjectClass(cd) => class_fields_diags(mods, m.name@, cd.name@, cd.fields@),
            IrItem::Object(od) => bindings_diags(mods, m.name@, od.name@, od.fields@),
            IrItem::ObjectSet(_) => Seq::empty(),
        }
    }
}

/// All diagnostics of the modules `ms` of program `mods`: for each module,
/// its unknown imports, then its unresolved references.
pub open spec fn program_diags(mods: Seq<IrModule>, ms: Seq<IrModule>) -> Seq<DiagnosticView>
    decreases ms.len(),
{
    if ms.len() == 0 {
        Seq::empty()
    } else {
        let m = ms.last();
        program_diags(mods, ms.drop_last()) + import_diags(mods, m, m.imports@) + item_diags(
            mods,
            m,
            m.items@,
        )
    }
}

fn module_present_exec(program: &IrProgram, name: &String) -> (r: bool)
    ensures
        r == module_present(program.modules@, name@),
{
    let mut k: usize = 0;
    while k < program.modules.len()
        invariant
            k <= program.modules@.len(),
            forall|j: int| 0 <= j < k ==> (#[trigger] program.modules@[j]).name@ != name@,
        decreases program.modules@.len() - k,
    {
        if str_eq(program.modules[k].name.as_str(), name.as_str()) {
            return true;
        }
        k = k + 1;
    }
    false
}

fn clone_strings(v: &Vec<String>) -> (r: Vec<String>)
    ensures
        r@.map_values(|s: String| s@) == v@.map_values(|s: String| s@),
{
    let mut out: Vec<String> = Vec::new();
    let mut k: usize = 0;
    while k < v.len()
        invariant
            k <= v@.len(),
            out@.len() == k,
            forall|j: int| 0 <= j < k ==> (#[trigger] out@[j])@ == v@[j]@,
        decreases v@.len() - k,
    {
        out.push(v[k].clone());
        k = k + 1;
    }
    proof {
        assert(out@.map_values(|s: String| s@) =~= v@.map_values(|s: String| s@));
    }
    out
}

proof fn lemma_diags_push(ds: Seq<IrDiagnostic>, d: IrDiagnostic)
    ensures
        diags_view(ds.push(d)) == diags_view(ds).push(d@),
{
    assert(diags_view(ds.push(d)) =~= diags_view(ds).push(d@));
}

/// Append the diagnostics for the references inside `ty` to `out`.
fn collect_unresolved_in_type(ty: &IrType, module: &String, item: &String, program: &IrProgram, out: &mut Vec<IrDiagnostic>)
    ensures
        diags_view(final(out)@) == diags_view(old(out)@) + type_diags(
            program.modules@,
            module@,
            item@,
            *ty,
        ),
    decreases ty,
{
    let ghost start = diags_view(out@);
    let ghost mods = program.modules@;
    match ty {
        IrType::Reference { module: Some(m), name } => {
            if !module_present_exec(program, m) || program.find_type(m.as_str(), name.as_str()).is_none() {
                let d = IrDiagnostic::UnknownTypeInModule {
                    module: module.clone(),
                    item: item.clone(),
                    referenced_module: m.clone(),
                    referenced: name.clone(),
                };
                proof {
                    lemma_diags_push(out@, d);
                }
                out.push(d);
            }
            proof {
                assert(diags_view(out@) =~= start + type_diags(mods, module@, item@, *ty));
            }
        },
        IrType::Reference { module: None, name } => {
            let d = IrDiagnostic::UnresolvedTypeReference {
                module: module.clone(),
                item: item.clone(),
                referenced: name.clone(),
            };
            proof {
                lemma_diags_push(out@, d);
            }
            out.push(d);
            proof {
                assert(diags_view(out@) =~= start + type_diags(mods, module@, item@, *ty));
            }
        },
        IrType::Sequence(s) | IrType::SetType(s) => {
            let mut k: usize = 0;
            while k < s.members.len()
                invariant
                    k <= s.members@.len(),
                    mods == program.modules@,
                    *ty == IrType::Sequence(*s) || *ty == IrType::SetType(*s),
                    diags_view(out@) == start + members_diags(mods, module@, item@, s.members@.take(k as int)),
                decreases s.members@.len() - k,
            {
                proof {
                    assert(s.members@.take(k + 1).subrange(0, k as int) =~= s.members@.take(k as int));
                    if *ty == IrType::Sequence(*s) {
                        assert(decreases_to!(*ty => (*ty)->Sequence_0));
                    } else {
                        assert(decreases_to!(*ty => (*ty)->SetType_0));
                    }
                    assert(decreases_to!(*s => s.members));
                    assert(decreases_to!(s.members => s.members@));
                    assert(decreases_to!(s.members@ => s.members@[k as int]));
                }
                match &s.members[k] {
                    IrStructMember::Field(f) => {
                        proof {
                            assert(decreases_to!(s.members@[k as int] => s.members@[k as int]->Field_0));
                        }
                        collect_unresolved_in_type(&f.ty, module, item, program, out);
                    },
                    _ => {},
                }
                proof {
                    let t = s.members@.take(k + 1);
                    assert(t[t.len() - 1] == s.members@[k as int]);
                }
                k = k + 1;
            }
            proof {
                assert(s.members@.take(s.members@.len() as int) =~= s.members@);
            }
        },
        IrType::SequenceOf { element, .. } | IrType::SetOf { element, .. } => {
            collect_unresolved_in_type(element, module, item, program, out);
        },
        IrType::Choice(c) => {
            let mut k: usize = 0;
            while k < c.alternatives.len()
                invariant
                    k <= c.alternatives@.len(),
                    mods == program.modules@,
                    *ty == IrType::Choice(*c),
                    diags_view(out@) == start + fields_diags(mods, module@, item@, c.alternatives@.take(k as int)),
                decreases c.alternatives@.len() - k,
            {
                proof {
                    assert(c.alternatives@.take(k + 1).subrange(0, k as int) =~= c.alternatives@.take(k as int));
                    assert(decreases_to!(*ty => (*ty)->Choice_0));
                    assert(decreases_to!(*c => c.alternatives));
                    assert(decreases_to!(c.alternatives => c.alternatives@));
                    assert(decreases_to!(c.alternatives@ => c.alternatives@[k as int]));
                }
                collect_unresolved_in_type(&c.alternatives[k].ty, module, item, program, out);
                proof {
                    let t = c.alternatives@.take(k + 1);
                    assert(t[t.len() - 1] == c.alternatives@[k as int]);
                }
                k = k + 1;
            }
            proof {
                assert(c.alternatives@.take(c.alternatives@.len() as int) =~= c.alternatives@);
            }
        },
        _ => {
            proof {
                assert(diags_view(out@) =~= start + type_diags(mods, module@, item@, *ty));
            }
        },
    }
}

/// Append the diagnostics for the references in the value-field types of
/// class `item` to `out`.
fn collect_unresolved_in_class(fields: &Vec<IrClassField>, module: &String, item: &String, program: &IrProgram, out: &mut Vec<IrDiagnostic>)
    ensures
        diags_view(final(out)@) == diags_view(old(out)@) + class_fields_diags(
            program.modules@,
            module@,
            item@,
            fields@,
        ),
{
    let ghost start = diags_view(out@);
    let ghost mods = program.modules@;
    let mut k: usize = 0;
    while k < fields.len()
        invariant
            k <= fields@.len(),
            mods == program.modules@,
            diags_view(out@) == start + class_fields_diags(mods, module@, item@, fields@.take(k as int)),
        decreases fields@.len() - k,
    {
        proof {
            assert(fields@.take(k + 1).drop_last() =~= fields@.take(k as int));
        }
        match &fields[k] {
            IrClassField::Value { ty, .. } => {
                collect_unresolved_in_type(ty, module, item, program, out);
            },
            _ => {},
        }
        proof {
            assert(diags_view(out@) =~= start + class_fields_diags(mods, module@, item@, fields@.take(k + 1)));
        }
        k = k + 1;
    }
    proof {
        assert(fields@.take(fields@.len() as int) =~= fields@);
    }
}

/// Append the diagnostics for the references in the types that object
/// `item` binds to `out`.
fn collect_unresolved_in_object(fields: &Vec<IrObjectFieldBinding>, module: &String, item: &String, program: &IrProgram, out: &mut Vec<IrDiagnostic>)
    ensures
        diags_view(final(out)@) == diags_view(old(out)@) + bindings_diags(
            program.modules@,
            module@,
            item@,
            fields@,
        ),
{
    let ghost start = diags_view(out@);
    let ghost mods = program.modules@;
    let mut k: usize = 0;
    while k < fields.len()
        invariant
            k <= fields@.len(),
            mods == program.modules@,
            diags_view(out@) == start + bindings_diags(mods, module@, item@, fields@.take(k as int)),
        decreases fields@.len() - k,
    {
        proof {
            assert(fields@.take(k + 1).drop_last() =~= fields@.take(k as int));
        }
        match &fields[k].binding {
            IrObjectFieldValue::Type(t) => {
                collect_unresolved_in_type(t, module, item, program, out);
            },
            IrObjectFieldValue::Value(_) => {},
        }
        proof {
            assert(diags_view(out@) =~= start + bindings_diags(mods, module@, item@, fields@.take(k + 1)));
        }
        k = k + 1;
    }
    proof {
        assert(fields@.take(fields@.len() as int) =~= fields@);
    }
}

impl IrProgram {
    /// Collect resolution diagnostics: unresolved type references (in type
    /// and value definitions, class value fields and object type bindings)
    /// and imports whose source module is not present in the program.
    pub fn diagnostics(&self) -> (r: Vec<IrDiagnostic>)
        ensures
            diags_view(r@) == program_diags(self.modules@, self.modules@),
    {
        let mut out: Vec<IrDiagnostic> = Vec::new();
        let ghost mods = self.modules@;
        let mut i: usize = 0;
        proof {
            assert(diags_view(out@) =~= Seq::<DiagnosticView>::empty());
        }
        while i < self.modules.len()
            invariant
                mods == self.modules@,
                i <= mods.len(),
                diags_view(out@) == program_diags(mods, mods.take(i as int)),
            decreases mods.len() - i,
        {
            let m = &self.modules[i];
            let ghost before = diags_view(out@);
            let mut k: usize = 0;
            while k < m.imports.len()
                invariant
                    mods == self.modules@,
                    i < mods.len(),
                    *m == mods[i as int],
                    k <= m.imports@.len(),
                    diags_view(out@) == before + import_diags(mods, *m, m.imports@.take(k as int)),
                decreases m.imports@.len() - k,
            {
                proof {
                    assert(m.imports@.take(k + 1).drop_last() =~= m.imports@.take(k as int));
                }
                let imp = &m.imports[k];
                if !module_present_exec(self, &imp.from_module) {
                    let d = IrDiagnostic::UnknownImportedModule {
                        module: m.name.clone(),
                        from_module: imp.from_module.clone(),
                        symbols: clone_strings(&imp.symbols),
                    };
                    proof {
                        lemma_diags_push(out@, d);
                    }
                    out.push(d);
                }
                k = k + 1;
            }
            proof {
                assert(m.imports@.take(m.imports@.len() as int) =~= m.imports@);
            }
            let ghost mid = diags_view(out@);
            let mut k: usize = 0;
            while k < m.items.len()
                invariant
                    mods == self.modules@,
                    i < mods.len(),
                    *m == mods[i as int],
                    k <= m.items@.len(),
                    diags_view(out@) == mid + item_diags(mods, *m, m.items@.take(k as int)),
                decreases m.items@.len() - k,
            {
                proof {
                    assert(m.items@.take(k + 1).drop_last() =~= m.items@.take(k as int));
                }
                match &m.items[k] {
                    IrItem::Type(td) => {
                        collect_unresolved_in_type(&td.ty, &m.name, &td.name, self, &mut out);
                    },
                    IrItem::Value(vd) => {
                        collect_unresolved_in_type(&vd.ty, &m.name, &vd.name, self, &mut out);
                    },
                    IrItem::ObjectClass(cd) => {
                        collect_unresolved_in_class(&cd.fields, &m.name, &cd.name, self, &mut out);
                    },
                    IrItem::Object(od) => {
                        collect_unresolved_in_object(&od.fields, &m.name, &od.name, self, &mut out);
                    },
                    IrItem::ObjectSet(_) => {},
                }
                k = k + 1;
            }
            proof {
                assert(m.items@.take(m.items@.len() as int) =~= m.items@);
                assert(mods.take(i + 1).drop_last() =~= mods.take(i as int));
            }
            i = i + 1;
        }
        proof {
            assert(mods.take(mods.len() as int) =~= mods);
        }
        out
    }
}

/// Strings joined by `, `.
pub open spec fn joined(ss: Seq<Seq<char>>) -> Seq<char>
    decreases ss.len(),
{
    if ss.len() == 0 {
        Seq::empty()
    } else if ss.len() == 1 {
        ss[0]
    } else {
        joined(ss.drop_last()) + ", "@ + ss.last()
    }
}

/// Each string as the `Debug` format writes it ([`debug_str`]).
pub open spec fn debug_each(ss: Seq<Seq<char>>) -> Seq<Seq<char>> {
    ss.map_values(|x: Seq<char>| debug_str(x))
}

/// The message of an import from a module that is not in the program, the
/// imported symbols already formatted (`quoted`).
pub open spec fn import_message_text(module: Seq<char>, from_module: Seq<char>, quoted: Seq<Seq<char>>) -> Seq<char> {
    "module `"@ + module + "` imports "@ + "["@ + joined(quoted) + "]"@ + " from unknown module `"@
        + from_module + "`"@
}

/// The message for module `module` importing symbols from the unknown module
/// `from_module`, given the symbols as they are to be printed.
pub fn import_message(module: &str, from_module: &str, quoted: &Vec<String>) -> (s: String)
    ensures
        s@ == import_message_text(module@, from_module@, quoted@.map_values(|x: String| x@)),
{
    let mut s = String::new();
    s.append("module `");
    s.append(module);
    s.append("` imports ");
    s.append("[");
    let ghost prefix = s@;
    let ghost views = quoted@.map_values(|x: String| x@);
    let mut k: usize = 0;
    while k < quoted.len()
        invariant
            k <= quoted@.len(),
            views == quoted@.map_values(|x: String| x@),
            s@ == prefix + joined(views.take(k as int)),
        decreases quoted@.len() - k,
    {
        proof {
            assert(views.take(k + 1).drop_last() =~= views.take(k as int));
        }
        if k > 0 {
            s.append(", ");
        }
        s.append(quoted[k].as_str());
        proof {
            if k == 0 {
                assert(s@ =~= prefix + joined(views.take(1)));
            } else {
                assert(s@ =~= prefix + joined(views.take(k + 1)));
            }
        }
        k = k + 1;
    }
    proof {
        assert(views.take(quoted@.len() as int) =~= views);
    }
    s.append("]");
    s.append(" from unknown module `");
    s.append(from_module);
    s.append("`");
    proof {
        assert(s@ =~= import_message_text(module@, from_module@, views));
    }
    s
}

/// The message of a diagnostic, as shown to users. Symbol lists are written
/// as their `Debug` format, `["A", "B"]`.
pub open spec fn diagnostic_text(d: DiagnosticView) -> Seq<char> {
    match d {
        DiagnosticView::UnresolvedTypeReference { module, item, referenced } => "unresolved type reference `"@
            + referenced + "` in "@ + module + "."@ + item + " (not defined locally and not imported)"@,
        DiagnosticView::UnknownTypeInModule { module, item, referenced_module, referenced } => "reference `"@
            + referenced_module + "."@ + referenced + "` in "@ + module + "."@ + item + " — module `"@
            + referenced_module + "` has no such type"@,
        DiagnosticView::UnknownImportedModule { module, from_module, symbols } => import_message_text(
            module,
            from_module,
            debug_each(symbols),
        ),
    }
}

impl IrDiagnostic {
    /// The message of this diagnostic.
    pub fn message(&self) -> (s: String)
        ensures
            s@ == diagnostic_text(self@),
    {
        let mut s = String::new();
        match self {
            IrDiagnostic::UnresolvedTypeReference { module, item, referenced } => {
                s.append("unresolved type reference `");
                s.append(referenced.as_str());
                s.append("` in ");
                s.append(module.as_str());
                s.append(".");
                s.append(item.as_str());
                s.append(" (not defined locally and not imported)");
            },
            IrDiagnostic::UnknownTypeInModule { module, item, referenced_module, referenced } => {
                s.append("reference `");
                s.append(referenced_module.as_str());
                s.append(".");
                s.append(referenced.as_str());
                s.append("` in ");
                s.append(module.as_str());
                s.append(".");
                s.append(item.as_str());
                s.append(" — module `");
                s.append(referenced_module.as_str());
                s.append("` has no such type");
            },
            IrDiagnostic::UnknownImportedModule { module, from_module, symbols } => {
                let ghost views = symbols@.map_values(|x: String| x@);
                let mut quoted: Vec<String> = Vec::new();
                let mut k: usize = 0;
                while k < symbols.len()
                    invariant
                        k <= symbols@.len(),
                        views == symbols@.map_values(|x: String| x@),
                        quoted@.map_values(|x: String| x@) == debug_each(views.take(k as int)),
                    decreases symbols@.len() - k,
                {
                    let q = debug_quoted(symbols[k].as_str());
                    let ghost before = quoted@;
                    quoted.push(q);
                    proof {
                        assert(quoted@.map_values(|x: String| x@) =~= before.map_values(|x: String| x@).push(q@));
                        assert(debug_each(views.take(k + 1)) =~= debug_each(views.take(k as int)).push(
                            debug_str(views[k as int]),
                        ));
                    }
                    k = k + 1;
                }
                proof {
                    assert(views.take(symbols@.len() as int) =~= views);
                }
                s = import_message(module.as_str(), from_module.as_str(), &quoted);
            },
        }
        proof {
            assert(s@ =~= diagnostic_text(self@));
        }
        s
    }
}

// ---------------------------------------------------------------------------
// Rendering
// ---------------------------------------------------------------------------

/// `kind` followed by `String`, as `{kind:?}String` would print it with
/// `Ia5` spelled `IA5`.
pub open spec fn char_kind_text(kind: IrCharKind) -> Seq<char> {
    match kind {
        IrCharKind::Utf8 => "Utf8String"@,
        IrCharKind::Ia5 => "IA5String"@,
        IrCharKind::Printable => "PrintableString"@,
        IrCharKind::Numeric => "NumericString"@,
        IrCharKind::Visible => "VisibleString"@,
        IrCharKind::Bmp => "BmpString"@,
        IrCharKind::Universal => "UniversalString"@,
        IrCharKind::General => "GeneralString"@,
        IrCharKind::Graphic => "GraphicString"@,
        IrCharKind::Teletex => "TeletexString"@,
        IrCharKind::T61 => "T61String"@,
        IrCharKind::Videotex => "VideotexString"@,
        IrCharKind::Iso646 => "Iso646String"@,
    }
}

/// A short human-readable rendering of a type.
pub open spec fn type_text(ty: IrType) -> Seq<char>
    decreases ty,
{
    match ty {
        IrType::Boolean => "BOOLEAN"@,
        IrType::Integer { .. } => "INTEGER"@,
        IrType::Real => "REAL"@,
        IrType::Null => "NULL"@,
        IrType::BitString { .. } => "BIT STRING"@,
        IrType::OctetString { .. } => "OCTET STRING"@,
        IrType::ObjectIdentifier => "OBJECT IDENTIFIER"@,
        IrType::RelativeOid => "RELATIVE-OID"@,
        IrType::CharString { kind, .. } => char_kind_text(kind),
        IrType::UtcTime => "UTCTime"@,
        IrType::GeneralizedTime => "GeneralizedTime"@,
        IrType::Enumerated { .. } => "ENUMERATED"@,
        IrType::Sequence(_) => "SEQUENCE"@,
        IrType::SetType(_) => "SET"@,
        IrType::SequenceOf { element, .. } => "SEQUENCE OF "@ + type_text(*element),
        IrType::SetOf { element, .. } => "SET OF "@ + type_text(*element),
        IrType::Choice(_) => "CHOICE"@,
        IrType::Reference { module, name } => match module {
            Some(m) => m@ + "."@ + name@,
            None => name@,
        },
        IrType::Open { description } => "OPEN("@ + description@ + ")"@,
        IrType::Any => "ANY"@,
    }
}

fn char_kind_str(kind: IrCharKind) -> (r: &'static str)
    ensures
        r@ == char_kind_text(kind),
{
    match kind {
        IrCharKind::Utf8 => "Utf8String",
        IrCharKind::Ia5 => "IA5String",
        IrCharKind::Printable => "PrintableString",
        IrCharKind::Numeric => "NumericString",
        IrCharKind::Visible => "VisibleString",
        IrCharKind::Bmp => "BmpString",
        IrCharKind::Universal => "UniversalString",
        IrCharKind::General => "GeneralString",
        IrCharKind::Graphic => "GraphicString",
        IrCharKind::Teletex => "TeletexString",
        IrCharKind::T61 => "T61String",
        IrCharKind::Videotex => "VideotexString",
        IrCharKind::Iso646 => "Iso646String",
    }
}

fn append_type(out: &mut String, ty: &IrType)
    ensures
        final(out)@ == old(out)@ + type_text(*ty),
    decreases ty,
{
    let ghost start = out@;
    match ty {
        IrType::Boolean => out.append("BOOLEAN"),
        IrType::Integer { .. } => out.append("INTEGER"),
        IrType::Real => out.append("REAL"),
        IrType::Null => out.append("NULL"),
        IrType::BitString { .. } => out.append("BIT STRING"),
        IrType::OctetString { .. } => out.append("OCTET STRING"),
        IrType::ObjectIdentifier => out.append("OBJECT IDENTIFIER"),
        IrType::RelativeOid => out.append("RELATIVE-OID"),
        IrType::CharString { kind, .. } => out.append(char_kind_str(*kind)),
        IrType::UtcTime => out.append("UTCTime"),
        IrType::GeneralizedTime => out.append("GeneralizedTime"),
        IrType::Enumerated { .. } => out.append("ENUMERATED"),
        IrType::Sequence(_) => out.append("SEQUENCE"),
        IrType::SetType(_) => out.append("SET"),
        IrType::SequenceOf { element, .. } => {
            out.append("SEQUENCE OF ");
            append_type(out, element);
        },
        IrType::SetOf { element, .. } => {
            out.append("SET OF ");
            append_type(out, element);
        },
        IrType::Choice(_) => out.append("CHOICE"),
        IrType::Reference { module, name } => {
            match module {
                Some(m) => {
                    out.append(m.as_str());
                    out.append(".");
                },
                None => {},
            }
            out.append(name.as_str());
        },
        IrType::Open { description } => {
            out.append("OPEN(");
            out.append(description.as_str());
            out.append(")");
        },
        IrType::Any => out.append("ANY"),
    }
    proof {
        assert(out@ =~= start + type_text(*ty));
    }
}

/// Pretty-render an [`IrType`] into a short human string.
pub fn render_type(ty: &IrType) -> (s: String)
    ensures
        s@ == type_text(*ty),
{
    let mut s = String::new();
    append_type(&mut s, ty);
    proof {
        assert(s@ =~= type_text(*ty));
    }
    s
}

} // verus!
