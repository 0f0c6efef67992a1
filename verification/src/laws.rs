//! Properties of resolution and lowering that span several functions.
use vstd::prelude::*;

use crate::cst::{
    CharStringKind, ChoiceType, ImportClause, Module, OidComponent, StructType, TagDefault, Type,
};
use crate::ir::{
    opt_view, IrCharKind, IrChoice, IrItem, IrModule, IrProgram, IrStruct, IrStructMember, IrType,
};
use crate::lexer::{Token, TokenKind};
use crate::lower::{
    choice_lowered, constraints_lowered, field_lowered, item_lowered, member_lowered, program_lowered,
    struct_lowered, type_lowered,
};
use crate::productions::{kind_is, module_s, oid_s, word_is};
use crate::query::{
    fields_diags, find_type_index, import_diags, is_first_module, is_first_type, item_diags,
    members_diags, program_diags, type_diags, type_text, DiagnosticView,
};
use crate::syntax::ModuleV;
use crate::resolve::{
    canonical_module, first_exact, first_import_listing, import_origin, is_known_module,
    min_shared, module_defines, module_imports_of, oid_arcs, oid_table, opt_oid, resolve,
    shared_prefix, successor_scan, trace_symbol,
};

verus! {

proof fn lemma_first_exact_found(table: Seq<(Seq<i64>, Seq<char>)>, want: Seq<i64>)
    ensures
        first_exact(table, want) matches Some(m) ==> exists|k: int|
            0 <= k < table.len() && (#[trigger] table[k]).1 == m && table[k].0 == want,
    decreases table.len(),
{
    if table.len() > 0 && table[0].0 != want {
        lemma_first_exact_found(table.drop_first(), want);
        if let Some(m) = first_exact(table, want) {
            let k = choose|k: int|
                0 <= k < table.drop_first().len() && (#[trigger] table.drop_first()[k]).1 == m
                    && table.drop_first()[k].0 == want;
            assert(table[k + 1] == table.drop_first()[k]);
        }
    }
}

proof fn lemma_successor_found(table: Seq<(Seq<i64>, Seq<char>)>, want: Seq<i64>, min: nat)
    ensures
        successor_scan(table, want, min).0 matches Some((len, m)) ==> exists|k: int|
            0 <= k < table.len() && (#[trigger] table[k]).1 == m && shared_prefix(table[k].0, want)
                == len && len >= min,
    decreases table.len(),
{
    if table.len() > 0 {
        let rest = table.drop_last();
        lemma_successor_found(rest, want, min);
        if let Some((len, m)) = successor_scan(table, want, min).0 {
            if successor_scan(table, want, min).0 == successor_scan(rest, want, min).0 {
                let k = choose|k: int|
                    0 <= k < rest.len() && (#[trigger] rest[k]).1 == m && shared_prefix(rest[k].0, want)
                        == len && len >= min;
                assert(table[k] == rest[k]);
            } else {
                assert(table[table.len() - 1].1 == m);
            }
        }
    }
}

/// An import is never redirected to a module that merely shares an
/// issuing-body prefix: the module it designates is the one named in the
/// clause, or a module whose numeric OID equals the clause's, or one that
/// shares with it all leading arcs but the trailing two version arcs (and at
/// least three): for an identifier of `n >= 5` arcs, its first `n - 2`.
pub proof fn law_successor_shares_all_but_version_arcs(
    ms: Seq<Module>,
    name: Seq<char>,
    oid: Option<Seq<OidComponent>>,
)
    ensures
        ({
            let r = canonical_module(ms, name, oid);
            r == name || (oid matches Some(o) && oid_arcs(o) matches Some(want) && exists|k: int|
                0 <= k < oid_table(ms).len() && (#[trigger] oid_table(ms)[k]).1 == r && (
                oid_table(ms)[k].0 == want || shared_prefix(oid_table(ms)[k].0, want) >= (if want.len()
                    >= 5 {
                    want.len() - 2
                } else {
                    3
                }) && shared_prefix(oid_table(ms)[k].0, want) >= 3))
        }),
{
    if let Some(o) = oid {
        if let Some(want) = oid_arcs(o) {
            assert(min_shared(want.len()) == (if want.len() >= 5 {
                want.len() - 2
            } else {
                3
            }));
            lemma_first_exact_found(oid_table(ms), want);
            lemma_successor_found(oid_table(ms), want, min_shared(want.len()));
        }
    }
}

/// A module's own definition of a name takes precedence over anything it
/// imports: a reference to a type the current module defines resolves to that
/// module.
pub proof fn law_local_definition_wins(ms: Seq<Module>, cur: Seq<char>, imps: Seq<ImportClause>, name: Seq<char>)
    requires
        module_defines(ms, cur, name),
    ensures
        resolve(ms, cur, imps, name) == (Some(cur), name),
{
}

/// A reference is left without a module exactly when the current module
/// neither defines nor imports the name; its name is always kept.
pub proof fn law_unresolved_only_when_unknown(ms: Seq<Module>, cur: Seq<char>, imps: Seq<ImportClause>, name: Seq<char>)
    ensures
        resolve(ms, cur, imps, name).1 == name,
        resolve(ms, cur, imps, name).0 is None <==> !module_defines(ms, cur, name) && import_origin(
            ms,
            imps,
            name,
        ) is None,
{
}

/// Following re-exports stops at a module that defines the name.
pub proof fn law_trace_stops_at_definer(ms: Seq<Module>, cur: Seq<char>, name: Seq<char>)
    requires
        module_defines(ms, cur, name),
    ensures
        trace_symbol(ms, cur, name, Set::empty()) == cur,
{
}

/// A module that re-exports a name without defining it hands the lookup on
/// to the module its first import of that name designates; when that module
/// defines the name, the chain ends there.
pub proof fn law_trace_follows_reexport(ms: Seq<Module>, cur: Seq<char>, name: Seq<char>, imp: ImportClause)
    requires
        is_known_module(ms, cur),
        !module_defines(ms, cur, name),
        first_import_listing(module_imports_of(ms, cur), name) == Some(imp),
        module_defines(ms, canonical_module(ms, imp.from_module.value@, opt_oid(imp.from_oid)), name),
    ensures
        trace_symbol(ms, cur, name, Set::empty()) == canonical_module(
            ms,
            imp.from_module.value@,
            opt_oid(imp.from_oid),
        ),
{
    let next = canonical_module(ms, imp.from_module.value@, opt_oid(imp.from_oid));
    let seen = Set::<Seq<char>>::empty().insert(cur);
    assert(trace_symbol(ms, cur, name, Set::empty()) == trace_symbol(ms, next, name, seen));
    if seen.contains(next) {
        assert(next == cur);
    }
}

proof fn lemma_item_kind_kept(ms: Seq<Module>, cur: Seq<char>, imps: Seq<ImportClause>, a: crate::cst::Assignment, o: IrItem)
    requires
        item_lowered(ms, cur, imps, a, o),
    ensures
        (o is Type) == (a.kind is Type),
        o is Type ==> o->Type_0.name@ == a.name.value@,
{
}

/// `j` is the first type assignment named `name` in `m`.
pub open spec fn is_first_type_assignment(m: Module, name: Seq<char>, j: int) -> bool {
    &&& 0 <= j < m.assignments@.len()
    &&& m.assignments@[j].kind is Type
    &&& m.assignments@[j].name.value@ == name
    &&& forall|k: int|
        0 <= k < j ==> !((#[trigger] m.assignments@[k]).kind is Type && m.assignments@[k].name.value@ == name)
}

/// Looking up, in the lowered program, the first type named `name` of the
/// first module named `module` finds the lowering of that very assignment.
pub proof fn law_lookup_after_lowering(ms: Seq<Module>, out: IrProgram, module: Seq<char>, name: Seq<char>, i: int, j: int)
    requires
        program_lowered(ms, out),
        0 <= i < ms.len(),
        ms[i].name.value@ == module,
        forall|k: int| 0 <= k < i ==> (#[trigger] ms[k]).name.value@ != module,
        is_first_type_assignment(ms[i], name, j),
    ensures
        find_type_index(out.modules@, module, name) == Some((i, j)),
        type_lowered(
            ms,
            ms[i].name.value@,
            ms[i].imports@,
            ms[i].assignments@[j].kind->Type_0,
            out.modules@[i].items@[j]->Type_0.ty,
        ),
{
    let mods = out.modules@;
    assert(crate::lower::module_lowered(ms, ms[i], mods[i]));
    assert forall|k: int| 0 <= k < i implies (#[trigger] mods[k]).name@ != module by {
        assert(crate::lower::module_lowered(ms, ms[k], mods[k]));
    }
    assert(is_first_module(mods, module, i));
    assert forall|x: int| is_first_module(mods, module, x) implies x == i by {
        if x < i {
        } else if x > i {
            assert(mods[i].name@ == module);
        }
    }
    let items = mods[i].items@;
    let asg = ms[i].assignments@;
    assert(item_lowered(ms, ms[i].name.value@, ms[i].imports@, asg[j], items[j]));
    lemma_item_kind_kept(ms, ms[i].name.value@, ms[i].imports@, asg[j], items[j]);
    assert forall|k: int| 0 <= k < j implies !((#[trigger] items[k]) is Type && items[k]->Type_0.name@ == name) by {
        assert(item_lowered(ms, ms[i].name.value@, ms[i].imports@, asg[k], items[k]));
        lemma_item_kind_kept(ms, ms[i].name.value@, ms[i].imports@, asg[k], items[k]);
        assert(!(asg[k].kind is Type && asg[k].name.value@ == name));
    }
    assert(is_first_type(items, name, j));
    assert forall|x: int| is_first_type(items, name, x) implies x == j by {
        if x < j {
        } else if x > j {
            assert(items[j] is Type);
        }
    }
}

/// Lowering keeps names and documentation comments: the `j`-th assignment of
/// the `i`-th module lowers to the `j`-th item of the `i`-th lowered module,
/// of the same kind, with the same name, and, for types, values and classes,
/// with the same documentation comment.
pub proof fn law_lowering_keeps_names_and_docs(ms: Seq<Module>, out: IrProgram, i: int, j: int)
    requires
        program_lowered(ms, out),
        0 <= i < ms.len(),
        0 <= j < ms[i].assignments@.len(),
    ensures
        out.modules@[i].name@ == ms[i].name.value@,
        out.modules@[i].items@.len() == ms[i].assignments@.len(),
        ({
            let a = ms[i].assignments@[j];
            let o = out.modules@[i].items@[j];
            &&& a.kind is Type ==> o is Type && o->Type_0.name@ == a.name.value@ && opt_view(o->Type_0.doc)
                == opt_view(a.doc)
            &&& a.kind is Value ==> o is Value && o->Value_0.name@ == a.name.value@ && opt_view(
                o->Value_0.doc,
            ) == opt_view(a.doc)
            &&& a.kind is ObjectClass ==> o is ObjectClass && o->ObjectClass_0.name@ == a.name.value@
                && opt_view(o->ObjectClass_0.doc) == opt_view(a.doc)
            &&& a.kind is ObjectSet ==> o is ObjectSet && o->ObjectSet_0.name@ == a.name.value@
            &&& a.kind is Object ==> o is Object && o->Object_0.name@ == a.name.value@
        }),
{
    assert(crate::lower::module_lowered(ms, ms[i], out.modules@[i]));
    assert(item_lowered(
        ms,
        ms[i].name.value@,
        ms[i].imports@,
        ms[i].assignments@[j],
        out.modules@[i].items@[j],
    ));
}

/// A `SEQUENCE OF` or `SET OF` type keeps the constraints written after it on
/// the collection, lowered one for one and in order, and lowers its element
/// type on its own.
pub proof fn law_collection_keeps_its_constraints(ms: Seq<Module>, cur: Seq<char>, imps: Seq<ImportClause>, t: Type, out: IrType)
    requires
        type_lowered(ms, cur, imps, t, out),
        t.kind is SequenceOf || t.kind is SetOf,
    ensures
        t.kind is SequenceOf ==> (out matches IrType::SequenceOf { element, constraints } && type_lowered(
            ms,
            cur,
            imps,
            *t.kind->SequenceOf_0,
            *element,
        ) && constraints_lowered(t.constraints@, constraints@) && constraints@.len() == t.constraints@.len()),
        t.kind is SetOf ==> (out matches IrType::SetOf { element, constraints } && type_lowered(
            ms,
            cur,
            imps,
            *t.kind->SetOf_0,
            *element,
        ) && constraints_lowered(t.constraints@, constraints@) && constraints@.len() == t.constraints@.len()),
{
}

/// The other constrained types keep their constraints, lowered one for one
/// and in order.
pub proof fn law_constraints_lowered_in_order(ms: Seq<Module>, cur: Seq<char>, imps: Seq<ImportClause>, t: Type, out: IrType)
    requires
        type_lowered(ms, cur, imps, t, out),
    ensures
        t.kind is Integer ==> (out matches IrType::Integer { constraints, .. } && constraints_lowered(
            t.constraints@,
            constraints@,
        )),
        t.kind is BitString ==> (out matches IrType::BitString { constraints, .. } && constraints_lowered(
            t.constraints@,
            constraints@,
        )),
        t.kind is OctetString ==> (out matches IrType::OctetString { constraints } && constraints_lowered(
            t.constraints@,
            constraints@,
        )),
        t.kind is CharString ==> (out matches IrType::CharString { constraints, .. } && constraints_lowered(
            t.constraints@,
            constraints@,
        )),
{
}

/// A SEQUENCE or SET lowers to its root members, in order and not marked as
/// extensions, followed by its extension additions, in order and marked; it
/// is extensible exactly when written so.
pub proof fn law_struct_members_in_order(ms: Seq<Module>, cur: Seq<char>, imps: Seq<ImportClause>, s: StructType, out: IrStruct)
    requires
        struct_lowered(ms, cur, imps, s, out),
    ensures
        out.extensible == s.extensible,
        out.members@.len() == s.components@.len() + s.extension_additions@.len(),
        forall|i: int|
            0 <= i < s.components@.len() ==> member_lowered(
                ms,
                cur,
                imps,
                #[trigger] s.components@[i],
                out.members@[i],
                false,
            ),
        forall|j: int|
            0 <= j < s.extension_additions@.len() ==> member_lowered(
                ms,
                cur,
                imps,
                #[trigger] s.extension_additions@[j],
                out.members@[s.components@.len() + j],
                true,
            ),
        forall|i: int|
            0 <= i < out.members@.len() ==> match (#[trigger] out.members@[i]) {
                IrStructMember::Field(f) => f.is_extension == (i >= s.components@.len()),
                _ => true,
            },
{
    assert forall|i: int| 0 <= i < out.members@.len() implies match (#[trigger] out.members@[i]) {
        IrStructMember::Field(f) => f.is_extension == (i >= s.components@.len()),
        _ => true,
    } by {
        if i < s.components@.len() {
            assert(member_lowered(ms, cur, imps, s.components@[i], out.members@[i], false));
        } else {
            let j = i - s.components@.len();
            assert(member_lowered(ms, cur, imps, s.extension_additions@[j], out.members@[i], true));
        }
    }
}

/// A CHOICE lowers to its root alternatives, in order and not marked as
/// extensions, followed by its extension alternatives, in order and marked;
/// it has as many alternatives as both lists together.
pub proof fn law_choice_alternatives_in_order(ms: Seq<Module>, cur: Seq<char>, imps: Seq<ImportClause>, c: ChoiceType, out: IrChoice)
    requires
        choice_lowered(ms, cur, imps, c, out),
    ensures
        out.extensible == c.extensible,
        out.alternatives@.len() == c.alternatives@.len() + c.extension_alternatives@.len(),
        forall|i: int|
            0 <= i < c.alternatives@.len() ==> field_lowered(
                ms,
                cur,
                imps,
                #[trigger] c.alternatives@[i],
                out.alternatives@[i],
                false,
            ),
        forall|j: int|
            0 <= j < c.extension_alternatives@.len() ==> field_lowered(
                ms,
                cur,
                imps,
                #[trigger] c.extension_alternatives@[j],
                out.alternatives@[c.alternatives@.len() + j],
                true,
            ),
        forall|i: int|
            0 <= i < out.alternatives@.len() ==> (#[trigger] out.alternatives@[i]).is_extension == (i
                >= c.alternatives@.len()),
{
    assert forall|i: int| 0 <= i < out.alternatives@.len() implies (#[trigger] out.alternatives@[i]).is_extension
        == (i >= c.alternatives@.len()) by {
        if i < c.alternatives@.len() {
            assert(field_lowered(ms, cur, imps, c.alternatives@[i], out.alternatives@[i], false));
        } else {
            let j = i - c.alternatives@.len();
            assert(field_lowered(ms, cur, imps, c.extension_alternatives@[j], out.alternatives@[i], true));
        }
    }
}

// ---------------------------------------------------------------------------
// Module headers
// ---------------------------------------------------------------------------

/// The tagging written in a module header is the one recorded:
/// `AUTOMATIC TAGS` gives `Automatic`, `IMPLICIT TAGS` gives `Implicit`, and
/// `EXPLICIT TAGS` or no tagging gives `Explicit`. `d` is where `DEFINITIONS`
/// stands: right after the name, or after the object identifier.
#[verifier::rlimit(40)]
pub proof fn law_header_tagging(toks: Seq<Token>, m: ModuleV, d: int)
    requires
        module_s(toks) == Some(m),
        d == (if kind_is(toks, 1, TokenKind::LBrace) {
            (oid_s(toks, 1)->0).1
        } else {
            1
        }),
    ensures
        word_is(toks, d, "DEFINITIONS"@),
        word_is(toks, d + 1, "AUTOMATIC"@) && word_is(toks, d + 2, "TAGS"@) ==> m.tag_default
            == TagDefault::Automatic,
        word_is(toks, d + 1, "IMPLICIT"@) && word_is(toks, d + 2, "TAGS"@) ==> m.tag_default
            == TagDefault::Implicit,
        word_is(toks, d + 1, "EXPLICIT"@) && word_is(toks, d + 2, "TAGS"@) ==> m.tag_default
            == TagDefault::Explicit,
        !(word_is(toks, d + 2, "TAGS"@) && (word_is(toks, d + 1, "AUTOMATIC"@) || word_is(
            toks,
            d + 1,
            "IMPLICIT"@,
        ) || word_is(toks, d + 1, "EXPLICIT"@))) ==> m.tag_default == TagDefault::Explicit,
{
    reveal_strlit("AUTOMATIC");
    reveal_strlit("IMPLICIT");
    reveal_strlit("EXPLICIT");
    assert("IMPLICIT"@[0] != "AUTOMATIC"@[0]);
    assert("EXPLICIT"@[0] != "AUTOMATIC"@[0]);
    assert("EXPLICIT"@[0] != "IMPLICIT"@[0]);
    assert("IMPLICIT"@ != "AUTOMATIC"@);
    assert("EXPLICIT"@ != "AUTOMATIC"@);
    assert("EXPLICIT"@ != "IMPLICIT"@);
    assert(crate::productions::header_s(toks) is Some);
}

// ---------------------------------------------------------------------------
// Character string kinds
// ---------------------------------------------------------------------------

/// The IR kind that has the same name as the parser's kind `k`.
pub open spec fn same_named_kind(k: CharStringKind, i: IrCharKind) -> bool {
    match k {
        CharStringKind::Utf8 => i is Utf8,
        CharStringKind::Ia5 => i is Ia5,
        CharStringKind::Printable => i is Printable,
        CharStringKind::Numeric => i is Numeric,
        CharStringKind::Visible => i is Visible,
        CharStringKind::Bmp => i is Bmp,
        CharStringKind::Universal => i is Universal,
        CharStringKind::General => i is General,
        CharStringKind::Graphic => i is Graphic,
        CharStringKind::Teletex => i is Teletex,
        CharStringKind::T61 => i is T61,
        CharStringKind::Videotex => i is Videotex,
        CharStringKind::Iso646 => i is Iso646,
    }
}

/// Lowering keeps the kind of a character string type: a `CharString` of
/// kind `k` lowers to the IR kind of the same name, and two different kinds
/// never lower to the same one.
pub proof fn law_char_kind_kept(ms: Seq<Module>, cur: Seq<char>, imps: Seq<ImportClause>, t: Type, out: IrType, k2: CharStringKind)
    requires
        type_lowered(ms, cur, imps, t, out),
        t.kind is CharString,
    ensures
        out matches IrType::CharString { kind, .. } && same_named_kind(t.kind->CharString_0, kind),
        crate::lower::char_kind(t.kind->CharString_0) == crate::lower::char_kind(k2) ==> k2
            == t.kind->CharString_0,
{
}

// ---------------------------------------------------------------------------
// Diagnostics
// ---------------------------------------------------------------------------

/// The name `n` stands in `t` as a reference to no module: at the top, or
/// inside a member, alternative or element type, however deep.
pub open spec fn unresolved_in(t: IrType, n: Seq<char>) -> bool
    decreases t,
{
    match t {
        IrType::Reference { module: None, name } => name@ == n,
        IrType::Sequence(s) => exists|k: int|
            0 <= k < s.members@.len() && ((#[trigger] s.members@[k]) matches IrStructMember::Field(f)
                && unresolved_in(f.ty, n)),
        IrType::SetType(s) => exists|k: int|
            0 <= k < s.members@.len() && ((#[trigger] s.members@[k]) matches IrStructMember::Field(f)
                && unresolved_in(f.ty, n)),
        IrType::SequenceOf { element, .. } => unresolved_in(*element, n),
        IrType::SetOf { element, .. } => unresolved_in(*element, n),
        IrType::Choice(c) => exists|k: int|
            0 <= k < c.alternatives@.len() && unresolved_in((#[trigger] c.alternatives@[k]).ty, n),
        _ => false,
    }
}

proof fn lemma_members_diags_contain(mods: Seq<IrModule>, module: Seq<char>, item: Seq<char>, ms: Seq<IrStructMember>, k: int, d: DiagnosticView)
    requires
        0 <= k < ms.len(),
        ms[k] matches IrStructMember::Field(f) && type_diags(mods, module, item, f.ty).contains(d),
    ensures
        members_diags(mods, module, item, ms).contains(d),
    decreases ms.len(),
{
    let init = ms.subrange(0, ms.len() - 1);
    let rest = members_diags(mods, module, item, init);
    let tail = match ms[ms.len() - 1] {
        IrStructMember::Field(f) => type_diags(mods, module, item, f.ty),
        IrStructMember::ComponentsOf { .. } => Seq::empty(),
    };
    assert(members_diags(mods, module, item, ms) == rest + tail);
    if k == ms.len() - 1 {
        let j = choose|j: int| 0 <= j < tail.len() && tail[j] == d;
        assert((rest + tail)[rest.len() + j] == d);
    } else {
        assert(init[k] == ms[k]);
        lemma_members_diags_contain(mods, module, item, init, k, d);
        let j = choose|j: int| 0 <= j < rest.len() && rest[j] == d;
        assert((rest + tail)[j] == d);
    }
}

proof fn lemma_fields_diags_contain(mods: Seq<IrModule>, module: Seq<char>, item: Seq<char>, fs: Seq<crate::ir::IrField>, k: int, d: DiagnosticView)
    requires
        0 <= k < fs.len(),
        type_diags(mods, module, item, fs[k].ty).contains(d),
    ensures
        fields_diags(mods, module, item, fs).contains(d),
    decreases fs.len(),
{
    let init = fs.subrange(0, fs.len() - 1);
    let rest = fields_diags(mods, module, item, init);
    let tail = type_diags(mods, module, item, fs[fs.len() - 1].ty);
    assert(fields_diags(mods, module, item, fs) == rest + tail);
    if k == fs.len() - 1 {
        let j = choose|j: int| 0 <= j < tail.len() && tail[j] == d;
        assert((rest + tail)[rest.len() + j] == d);
    } else {
        assert(init[k] == fs[k]);
        lemma_fields_diags_contain(mods, module, item, init, k, d);
        let j = choose|j: int| 0 <= j < rest.len() && rest[j] == d;
        assert((rest + tail)[j] == d);
    }
}

/// Every reference to no module that stands anywhere inside the type `t` of
/// item `item` of module `module` (in a member, an alternative or an element
/// type, however deep) is reported as an unresolved type reference of that
/// item.
pub proof fn law_every_unresolved_reference_is_reported(mods: Seq<IrModule>, module: Seq<char>, item: Seq<char>, t: IrType, n: Seq<char>)
    requires
        unresolved_in(t, n),
    ensures
        type_diags(mods, module, item, t).contains(
            DiagnosticView::UnresolvedTypeReference { module, item, referenced: n },
        ),
    decreases t,
{
    let d = DiagnosticView::UnresolvedTypeReference { module, item, referenced: n };
    match t {
        IrType::Reference { module: None, name } => {
            assert(type_diags(mods, module, item, t)[0] == d);
        },
        IrType::Sequence(s) => {
            let k = choose|k: int|
                0 <= k < s.members@.len() && ((#[trigger] s.members@[k]) matches IrStructMember::Field(f)
                    && unresolved_in(f.ty, n));
            let f = s.members@[k]->Field_0;
            assert(decreases_to!(t => s));
            assert(decreases_to!(s => s.members));
            assert(decreases_to!(s.members => s.members@));
            assert(decreases_to!(s.members@ => s.members@[k]));
            assert(decreases_to!(s.members@[k] => f));
            law_every_unresolved_reference_is_reported(mods, module, item, f.ty, n);
            lemma_members_diags_contain(mods, module, item, s.members@, k, d);
        },
        IrType::SetType(s) => {
            let k = choose|k: int|
                0 <= k < s.members@.len() && ((#[trigger] s.members@[k]) matches IrStructMember::Field(f)
                    && unresolved_in(f.ty, n));
            let f = s.members@[k]->Field_0;
            assert(decreases_to!(t => s));
            assert(decreases_to!(s => s.members));
            assert(decreases_to!(s.members => s.members@));
            assert(decreases_to!(s.members@ => s.members@[k]));
            assert(decreases_to!(s.members@[k] => f));
            law_every_unresolved_reference_is_reported(mods, module, item, f.ty, n);
            lemma_members_diags_contain(mods, module, item, s.members@, k, d);
        },
        IrType::SequenceOf { element, .. } => {
            law_every_unresolved_reference_is_reported(mods, module, item, *element, n);
        },
        IrType::SetOf { element, .. } => {
            law_every_unresolved_reference_is_reported(mods, module, item, *element, n);
        },
        IrType::Choice(c) => {
            let k = choose|k: int|
                0 <= k < c.alternatives@.len() && unresolved_in((#[trigger] c.alternatives@[k]).ty, n);
            assert(decreases_to!(t => c));
            assert(decreases_to!(c => c.alternatives));
            assert(decreases_to!(c.alternatives => c.alternatives@));
            assert(decreases_to!(c.alternatives@ => c.alternatives@[k]));
            law_every_unresolved_reference_is_reported(mods, module, item, c.alternatives@[k].ty, n);
            lemma_fields_diags_contain(mods, module, item, c.alternatives@, k, d);
        },
        _ => {},
    }
}

// ---------------------------------------------------------------------------
// Rendering
// ---------------------------------------------------------------------------

/// Each built-in type renders as its ASN.1 keyword (a character string type
/// as the name of its kind, a collection as `SEQUENCE OF` or `SET OF` and its
/// element), and a reference as its module and name.
pub proof fn law_builtin_types_render_as_keywords(t: IrType)
    ensures
        t is Boolean ==> type_text(t) == "BOOLEAN"@,
        t is Integer ==> type_text(t) == "INTEGER"@,
        t is Real ==> type_text(t) == "REAL"@,
        t is Null ==> type_text(t) == "NULL"@,
        t is BitString ==> type_text(t) == "BIT STRING"@,
        t is OctetString ==> type_text(t) == "OCTET STRING"@,
        t is ObjectIdentifier ==> type_text(t) == "OBJECT IDENTIFIER"@,
        t is RelativeOid ==> type_text(t) == "RELATIVE-OID"@,
        t is UtcTime ==> type_text(t) == "UTCTime"@,
        t is GeneralizedTime ==> type_text(t) == "GeneralizedTime"@,
        t is Enumerated ==> type_text(t) == "ENUMERATED"@,
        t is Sequence ==> type_text(t) == "SEQUENCE"@,
        t is SetType ==> type_text(t) == "SET"@,
        t is Choice ==> type_text(t) == "CHOICE"@,
        t is Any ==> type_text(t) == "ANY"@,
        t matches IrType::SequenceOf { element, .. } ==> type_text(t) == "SEQUENCE OF "@ + type_text(
            *element,
        ),
        t matches IrType::SetOf { element, .. } ==> type_text(t) == "SET OF "@ + type_text(*element),
        t matches IrType::Reference { module: Some(m), name } ==> type_text(t) == m@ + "."@ + name@,
        t matches IrType::Reference { module: None, name } ==> type_text(t) == name@,
        t matches IrType::Open { description } ==> type_text(t) == "OPEN("@ + description@ + ")"@,
        t matches IrType::CharString { kind: IrCharKind::Utf8, .. } ==> type_text(t) == "Utf8String"@,
        t matches IrType::CharString { kind: IrCharKind::Ia5, .. } ==> type_text(t) == "IA5String"@,
        t matches IrType::CharString { kind: IrCharKind::Printable, .. } ==> type_text(t) == "PrintableString"@,
        t matches IrType::CharString { kind: IrCharKind::Numeric, .. } ==> type_text(t) == "NumericString"@,
        t matches IrType::CharString { kind: IrCharKind::Visible, .. } ==> type_text(t) == "VisibleString"@,
        t matches IrType::CharString { kind: IrCharKind::Bmp, .. } ==> type_text(t) == "BmpString"@,
        t matches IrType::CharString { kind: IrCharKind::Universal, .. } ==> type_text(t) == "UniversalString"@,
        t matches IrType::CharString { kind: IrCharKind::General, .. } ==> type_text(t) == "GeneralString"@,
        t matches IrType::CharString { kind: IrCharKind::Graphic, .. } ==> type_text(t) == "GraphicString"@,
        t matches IrType::CharString { kind: IrCharKind::Teletex, .. } ==> type_text(t) == "TeletexString"@,
        t matches IrType::CharString { kind: IrCharKind::T61, .. } ==> type_text(t) == "T61String"@,
        t matches IrType::CharString { kind: IrCharKind::Videotex, .. } ==> type_text(t) == "VideotexString"@,
        t matches IrType::CharString { kind: IrCharKind::Iso646, .. } ==> type_text(t) == "Iso646String"@,
{
}

proof fn lemma_item_diags_contain(mods: Seq<IrModule>, m: IrModule, items: Seq<IrItem>, j: int, n: Seq<char>)
    requires
        0 <= j < items.len(),
        match items[j] {
            IrItem::Type(td) => unresolved_in(td.ty, n),
            IrItem::Value(vd) => unresolved_in(vd.ty, n),
            _ => false,
        },
    ensures
        item_diags(mods, m, items).contains(
            DiagnosticView::UnresolvedTypeReference {
                module: m.name@,
                item: match items[j] {
                    IrItem::Type(td) => td.name@,
                    IrItem::Value(vd) => vd.name@,
                    _ => Seq::empty(),
                },
                referenced: n,
            },
        ),
    decreases items.len(),
{
    let name = match items[j] {
        IrItem::Type(td) => td.name@,
        IrItem::Value(vd) => vd.name@,
        _ => Seq::empty(),
    };
    let d = DiagnosticView::UnresolvedTypeReference { module: m.name@, item: name, referenced: n };
    let init = items.drop_last();
    let rest = item_diags(mods, m, init);
    let tail = match items.last() {
        IrItem::Type(td) => type_diags(mods, m.name@, td.name@, td.ty),
        IrItem::Value(vd) => type_diags(mods, m.name@, vd.name@, vd.ty),
        IrItem::ObjectClass(cd) => crate::query::class_fields_diags(mods, m.name@, cd.name@, cd.fields@),
        IrItem::Object(od) => crate::query::bindings_diags(mods, m.name@, od.name@, od.fields@),
        IrItem::ObjectSet(_) => Seq::empty(),
    };
    assert(item_diags(mods, m, items) == rest + tail);
    if j == items.len() - 1 {
        match items[j] {
            IrItem::Type(td) => law_every_unresolved_reference_is_reported(mods, m.name@, td.name@, td.ty, n),
            IrItem::Value(vd) => law_every_unresolved_reference_is_reported(mods, m.name@, vd.name@, vd.ty, n),
            _ => {},
        }
        let i = choose|i: int| 0 <= i < tail.len() && tail[i] == d;
        assert((rest + tail)[rest.len() + i] == d);
    } else {
        assert(init[j] == items[j]);
        lemma_item_diags_contain(mods, m, init, j, n);
        let i = choose|i: int| 0 <= i < rest.len() && rest[i] == d;
        assert((rest + tail)[i] == d);
    }
}

proof fn lemma_program_diags_contain(mods: Seq<IrModule>, ms: Seq<IrModule>, i: int, d: DiagnosticView)
    requires
        0 <= i < ms.len(),
        item_diags(mods, ms[i], ms[i].items@).contains(d),
    ensures
        program_diags(mods, ms).contains(d),
    decreases ms.len(),
{
    let init = ms.drop_last();
    let m = ms.last();
    let rest = program_diags(mods, init);
    let mid = import_diags(mods, m, m.imports@);
    let tail = item_diags(mods, m, m.items@);
    assert(program_diags(mods, ms) == rest + mid + tail);
    if i == ms.len() - 1 {
        let k = choose|k: int| 0 <= k < tail.len() && tail[k] == d;
        assert((rest + mid + tail)[rest.len() + mid.len() + k] == d);
    } else {
        assert(init[i] == ms[i]);
        lemma_program_diags_contain(mods, init, i, d);
        let k = choose|k: int| 0 <= k < rest.len() && rest[k] == d;
        assert((rest + mid + tail)[k] == d);
    }
}

/// In a program, every reference to no module that stands anywhere inside
/// the type of a type or value definition is reported, with the module and
/// the definition it stands in, among the program's diagnostics.
pub proof fn law_program_reports_unresolved_references(p: IrProgram, i: int, j: int, n: Seq<char>)
    requires
        0 <= i < p.modules@.len(),
        0 <= j < p.modules@[i].items@.len(),
        match p.modules@[i].items@[j] {
            IrItem::Type(td) => unresolved_in(td.ty, n),
            IrItem::Value(vd) => unresolved_in(vd.ty, n),
            _ => false,
        },
    ensures
        program_diags(p.modules@, p.modules@).contains(
            DiagnosticView::UnresolvedTypeReference {
                module: p.modules@[i].name@,
                item: match p.modules@[i].items@[j] {
                    IrItem::Type(td) => td.name@,
                    IrItem::Value(vd) => vd.name@,
                    _ => Seq::empty(),
                },
                referenced: n,
            },
        ),
{
    let mods = p.modules@;
    lemma_item_diags_contain(mods, mods[i], mods[i].items@, j, n);
    lemma_program_diags_contain(
        mods,
        mods,
        i,
        DiagnosticView::UnresolvedTypeReference {
            module: mods[i].name@,
            item: match mods[i].items@[j] {
                IrItem::Type(td) => td.name@,
                IrItem::Value(vd) => vd.name@,
                _ => Seq::empty(),
            },
            referenced: n,
        },
    );
}

} // verus!
