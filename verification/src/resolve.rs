//! Name resolution across modules: which module a reference or an import
//! designates.
use vstd::prelude::*;

use crate::cst::{AssignmentKind, ImportClause, Module, OidComponent};
use crate::text::str_eq;

verus! {

// ---------------------------------------------------------------------------
// The model
// ---------------------------------------------------------------------------

/// Index of the last module named `name`, or -1. A later module of the same
/// name hides an earlier one.
pub open spec fn last_module_index(ms: Seq<Module>, name: Seq<char>) -> int
    decreases ms.len(),
{
    if ms.len() == 0 {
        -1
    } else if ms.last().name.value@ == name {
        ms.len() - 1
    } else {
        last_module_index(ms.drop_last(), name)
    }
}

pub open spec fn is_known_module(ms: Seq<Module>, name: Seq<char>) -> bool {
    last_module_index(ms, name) >= 0
}

/// Module `m` has a type assignment named `name`.
pub open spec fn defines_type(m: Module, name: Seq<char>) -> bool {
    exists|j: int|
        0 <= j < m.assignments@.len() && (#[trigger] m.assignments@[j]).kind is Type
            && m.assignments@[j].name.value@ == name
}

/// The module known as `module` defines the type `name`.
pub open spec fn module_defines(ms: Seq<Module>, module: Seq<char>, name: Seq<char>) -> bool {
    let i = last_module_index(ms, module);
    i >= 0 && defines_type(ms[i], name)
}

/// The IMPORTS of the module known as `module` (none when it is unknown).
pub open spec fn module_imports_of(ms: Seq<Module>, module: Seq<char>) -> Seq<ImportClause> {
    let i = last_module_index(ms, module);
    if i >= 0 {
        ms[i].imports@
    } else {
        Seq::empty()
    }
}

/// An object identifier as its numeric arcs, or `None` when it is empty or an
/// arc has no number.
pub open spec fn oid_arcs(comps: Seq<OidComponent>) -> Option<Seq<i64>> {
    if comps.len() > 0 && forall|k: int| 0 <= k < comps.len() ==> (#[trigger] comps[k]).value is Some {
        Some(Seq::new(comps.len(), |k: int| comps[k].value->0))
    } else {
        None
    }
}

pub open spec fn opt_oid(o: Option<Vec<OidComponent>>) -> Option<Seq<OidComponent>> {
    match o {
        Some(v) => Some(v@),
        None => None,
    }
}

/// The modules that carry a numeric object identifier, with their arcs, in
/// program order.
pub open spec fn oid_table(ms: Seq<Module>) -> Seq<(Seq<i64>, Seq<char>)>
    decreases ms.len(),
{
    if ms.len() == 0 {
        Seq::empty()
    } else {
        let rest = oid_table(ms.drop_last());
        match opt_oid(ms.last().oid) {
            Some(o) => match oid_arcs(o) {
                Some(arcs) => rest.push((arcs, ms.last().name.value@)),
                None => rest,
            },
            None => rest,
        }
    }
}

/// Length of the longest common prefix of `a` and `b`.
pub open spec fn shared_prefix(a: Seq<i64>, b: Seq<i64>) -> nat
    decreases a.len(),
{
    if a.len() == 0 || b.len() == 0 || a[0] != b[0] {
        0
    } else {
        1 + shared_prefix(a.drop_first(), b.drop_first())
    }
}

/// How many leading arcs a successor's OID must share with the wanted one:
/// all but the last two (the version arcs), and never fewer than three.
pub open spec fn min_shared(want_len: nat) -> nat {
    let s: int = if want_len >= 2 { want_len - 2 } else { 0 };
    if s >= 3 { s as nat } else { 3 }
}

/// The first module in `table` whose arcs are exactly `want`.
pub open spec fn first_exact(table: Seq<(Seq<i64>, Seq<char>)>, want: Seq<i64>) -> Option<Seq<char>>
    decreases table.len(),
{
    if table.len() == 0 {
        None
    } else if table[0].0 == want {
        Some(table[0].1)
    } else {
        first_exact(table.drop_first(), want)
    }
}

/// The scan for a successor module over `table`: the best candidate so far
/// (shared prefix length and module) and whether the best length is shared by
/// a different module.
pub open spec fn successor_scan(table: Seq<(Seq<i64>, Seq<char>)>, want: Seq<i64>, min: nat) -> (
    Option<(nat, Seq<char>)>,
    bool,
)
    decreases table.len(),
{
    if table.len() == 0 {
        (None, false)
    } else {
        let (best, ambiguous) = successor_scan(table.drop_last(), want, min);
        let arcs = table.last().0;
        let module = table.last().1;
        let shared = shared_prefix(arcs, want);
        if shared < min {
            (best, ambiguous)
        } else {
            match best {
                Some((len, m)) => if len > shared {
                    (best, ambiguous)
                } else if len == shared && m != module {
                    (best, true)
                } else {
                    (Some((shared, module)), false)
                },
                None => (Some((shared, module)), false),
            }
        }
    }
}

/// The module an `IMPORTS ... FROM name oid` clause designates: `name` when a
/// module of that name exists; otherwise the module whose OID is exactly
/// `oid`; otherwise the unique module that shares the most leading arcs with
/// `oid` (at least all but the version arcs); otherwise `name`.
pub open spec fn canonical_module(ms: Seq<Module>, name: Seq<char>, oid: Option<Seq<OidComponent>>) -> Seq<char> {
    if is_known_module(ms, name) {
        name
    } else {
        match oid {
            None => name,
            Some(o) => match oid_arcs(o) {
                None => name,
                Some(want) => match first_exact(oid_table(ms), want) {
                    Some(m) => m,
                    None => match successor_scan(oid_table(ms), want, min_shared(want.len())) {
                        (Some((_, m)), false) => m,
                        _ => name,
                    },
                },
            },
        }
    }
}

/// Clause `c` lists the symbol `sym`.
pub open spec fn lists_symbol(c: ImportClause, sym: Seq<char>) -> bool {
    exists|k: int| 0 <= k < c.symbols@.len() && (#[trigger] c.symbols@[k]).value@ == sym
}

/// Where `imps` import `sym` from: the designated module of the last clause
/// that lists it.
pub open spec fn import_origin(ms: Seq<Module>, imps: Seq<ImportClause>, sym: Seq<char>) -> Option<Seq<char>>
    decreases imps.len(),
{
    if imps.len() == 0 {
        None
    } else if lists_symbol(imps.last(), sym) {
        Some(canonical_module(ms, imps.last().from_module.value@, opt_oid(imps.last().from_oid)))
    } else {
        import_origin(ms, imps.drop_last(), sym)
    }
}

/// The first clause of `imps` that lists `sym`.
pub open spec fn first_import_listing(imps: Seq<ImportClause>, sym: Seq<char>) -> Option<ImportClause>
    decreases imps.len(),
{
    if imps.len() == 0 {
        None
    } else if lists_symbol(imps[0], sym) {
        Some(imps[0])
    } else {
        first_import_listing(imps.drop_first(), sym)
    }
}

/// Number of modules whose names are not in `seen`.
pub open spec fn unseen(ms: Seq<Module>, seen: Set<Seq<char>>) -> nat
    decreases ms.len(),
{
    if ms.len() == 0 {
        0
    } else {
        unseen(ms.drop_last(), seen) + if seen.contains(ms.last().name.value@) {
            0nat
        } else {
            1nat
        }
    }
}

pub proof fn lemma_unseen_insert(ms: Seq<Module>, seen: Set<Seq<char>>, cur: Seq<char>)
    ensures
        unseen(ms, seen.insert(cur)) <= unseen(ms, seen),
        !seen.contains(cur) && last_module_index(ms, cur) >= 0 ==> unseen(ms, seen.insert(cur))
            < unseen(ms, seen),
    decreases ms.len(),
{
    if ms.len() > 0 {
        lemma_unseen_insert(ms.drop_last(), seen, cur);
    }
}

/// Follow re-exports from `cur` until a module that defines `name`: the first
/// module on the chain that defines it, does not know it, or was already
/// visited, or the last one reached when a module neither defines nor
/// imports it.
pub open spec fn trace_symbol(ms: Seq<Module>, cur: Seq<char>, name: Seq<char>, seen: Set<Seq<char>>) -> Seq<char>
    decreases unseen(ms, seen),
{
    if seen.contains(cur) || !is_known_module(ms, cur) || module_defines(ms, cur, name) {
        cur
    } else {
        match first_import_listing(module_imports_of(ms, cur), name) {
            None => cur,
            Some(imp) => {
                proof {
                    lemma_unseen_insert(ms, seen, cur);
                }
                trace_symbol(
                    ms,
                    canonical_module(ms, imp.from_module.value@, opt_oid(imp.from_oid)),
                    name,
                    seen.insert(cur),
                )
            },
        }
    }
}

/// The module a reference to `name` inside module `cur` (whose IMPORTS are
/// `imps`) designates: `cur` itself when it defines `name`; the end of the
/// re-export chain when `name` is imported; `None` otherwise. The name is
/// kept as written.
pub open spec fn resolve(ms: Seq<Module>, cur: Seq<char>, imps: Seq<ImportClause>, name: Seq<char>) -> (
    Option<Seq<char>>,
    Seq<char>,
) {
    if module_defines(ms, cur, name) {
        (Some(cur), name)
    } else {
        match import_origin(ms, imps, name) {
            Some(origin) => (Some(trace_symbol(ms, origin, name, Set::empty())), name),
            None => (None, name),
        }
    }
}

// ---------------------------------------------------------------------------
// The resolver
// ---------------------------------------------------------------------------

/// Resolves names for the module being lowered against all modules of the
/// program.
pub(crate) struct Resolver<'a> {
    modules: &'a [Module],
    /// Module OIDs as arc vectors (with the index of their module), used for
    /// exact and successor matching.
    module_oids: Vec<(Vec<i64>, usize)>,
    current_module: Option<&'a String>,
    imports: &'a [ImportClause],
}

impl<'a> Resolver<'a> {
    /// The resolver works over exactly `ms`.
    pub(crate) closed spec fn modules_view(&self) -> Seq<Module> {
        self.modules@
    }

    pub(crate) closed spec fn wf(&self) -> bool {
        &&& self.module_oids@.len() == oid_table(self.modules@).len()
        &&& forall|k: int|
            0 <= k < self.module_oids@.len() ==> {
                let e = #[trigger] self.module_oids@[k];
                &&& e.0@ == oid_table(self.modules@)[k].0
                &&& e.1 < self.modules@.len()
                &&& self.modules@[e.1 as int].name.value@ == oid_table(self.modules@)[k].1
            }
    }

    /// Name of the module being lowered.
    pub(crate) closed spec fn current(&self) -> Option<Seq<char>> {
        match self.current_module {
            Some(s) => Some(s@),
            None => None,
        }
    }

    /// IMPORTS of the module being lowered.
    pub(crate) closed spec fn current_imports(&self) -> Seq<ImportClause> {
        self.imports@
    }

    pub(crate) fn new(modules: &'a [Module]) -> (r: Resolver<'a>)
        ensures
            r.wf(),
            r.modules_view() == modules@,
            r.current() is None,
            r.current_imports() == Seq::<ImportClause>::empty(),
    {
        let mut module_oids: Vec<(Vec<i64>, usize)> = Vec::new();
        let mut i: usize = 0;
        while i < modules.len()
            invariant
                i <= modules@.len(),
                module_oids@.len() == oid_table(modules@.take(i as int)).len(),
                forall|k: int|
                    0 <= k < module_oids@.len() ==> {
                        let e = #[trigger] module_oids@[k];
                        &&& e.0@ == oid_table(modules@.take(i as int))[k].0
                        &&& e.1 < i
                        &&& modules@[e.1 as int].name.value@ == oid_table(modules@.take(i as int))[k].1
                    },
            decreases modules@.len() - i,
        {
            let ghost prev = modules@.take(i as int);
            proof {
                assert(modules@.take(i + 1).drop_last() =~= prev);
            }
            match &modules[i].oid {
                Some(o) => match numeric_oid(o.as_slice()) {
                    Some(arcs) => {
                        module_oids.push((arcs, i));
                    },
                    None => {},
                },
                None => {},
            }
            i = i + 1;
        }
        proof {
            assert(modules@.take(modules@.len() as int) =~= modules@);
        }
        let empty: &'a [ImportClause] = &[];
        Resolver { modules, module_oids, current_module: None, imports: empty }
    }

    /// Index of the last module named `name`.
    fn find_module(&self, name: &String) -> (r: Option<usize>)
        ensures
            match r {
                Some(i) => i as int == last_module_index(self.modules@, name@) && i < self.modules@.len(),
                None => last_module_index(self.modules@, name@) < 0,
            },
    {
        let ghost ms = self.modules@;
        let mut i = self.modules.len();
        assert(ms.take(i as int) =~= ms);
        while i > 0
            invariant
                i <= ms.len(),
                ms == self.modules@,
                last_module_index(ms, name@) == last_module_index(ms.take(i as int), name@),
            decreases i,
        {
            proof {
                assert(ms.take(i as int).drop_last() =~= ms.take(i - 1));
            }
            if str_eq(self.modules[i - 1].name.value.as_str(), name.as_str()) {
                return Some(i - 1);
            }
            i = i - 1;
        }
        None
    }

    /// Map the name used in an `IMPORTS ... FROM` clause onto a module that is
    /// actually present in the program.
    ///
    /// Specifications in the wild sometimes cite a module under a different
    /// name than the one in its header while quoting the very same object
    /// identifier, so the OID is the more reliable key when the name misses.
    /// Failing that, a module whose OID differs only in its trailing version
    /// arcs is accepted as a successor.
    pub(crate) fn canonical_module(&self, name: &'a String, oid: Option<&'a Vec<OidComponent>>) -> (r: &'a String)
        requires
            self.wf(),
        ensures
            r@ == canonical_module(
                self.modules_view(),
                name@,
                match oid {
                    Some(o) => Some(o@),
                    None => None,
                },
            ),
    {
        if self.find_module(name).is_some() {
            return name;
        }
        let o = match oid {
            None => {
                return name;
            },
            Some(o) => o,
        };
        let want = match numeric_oid(o.as_slice()) {
            None => {
                return name;
            },
            Some(w) => w,
        };
        let ghost ms = self.modules@;
        let ghost table = oid_table(ms);
        let n = self.module_oids.len();
        let mut k: usize = 0;
        assert(table.skip(0) =~= table);
        while k < n
            invariant
                self.wf(),
                ms == self.modules@,
                table == oid_table(ms),
                n == self.module_oids@.len() == table.len(),
                k <= n,
                oid_arcs(o@) == Some(want@),
                !is_known_module(ms, name@),
                oid == Some(o),
                first_exact(table, want@) == first_exact(table.skip(k as int), want@),
            decreases n - k,
        {
            proof {
                assert(table.skip(k as int).drop_first() =~= table.skip(k + 1));
                assert(table.skip(k as int)[0] == table[k as int]);
                let _ = self.module_oids@[k as int];
            }
            if vec_i64_eq(&self.module_oids[k].0, &want) {
                let idx = self.module_oids[k].1;
                proof {
                    let e = self.module_oids@[k as int];
                    assert(e.0@ == table[k as int].0);
                    assert(table.skip(k as int)[0].0 == want@);
                    assert(first_exact(table.skip(k as int), want@) == Some(table[k as int].1));
                    assert(oid_arcs(o@) == Some(want@));
                }
                return &self.modules[idx].name.value;
            }
            k = k + 1;
        }
        proof {
            assert(table.skip(n as int) =~= Seq::<(Seq<i64>, Seq<char>)>::empty());
        }
        // Require everything but the version arcs to agree, so unrelated
        // modules that merely share an issuing-body prefix are never conflated.
        let min: usize = if want.len() >= 5 { want.len() - 2 } else { 3 };
        let mut best: Option<(usize, usize)> = None;
        let mut ambiguous = false;
        let mut k: usize = 0;
        while k < n
            invariant
                self.wf(),
                ms == self.modules@,
                table == oid_table(ms),
                n == self.module_oids@.len() == table.len(),
                k <= n,
                oid_arcs(o@) == Some(want@),
                !is_known_module(ms, name@),
                oid == Some(o),
                first_exact(table, want@) is None,
                min as nat == min_shared(want@.len()),
                ({
                    let (sb, sa) = successor_scan(table.take(k as int), want@, min as nat);
                    &&& sa == ambiguous
                    &&& match best {
                        Some((len, m)) => m < ms.len() && sb == Some((len as nat, ms[m as int].name.value@)),
                        None => sb is None,
                    }
                }),
            decreases n - k,
        {
            proof {
                assert(table.take(k + 1).drop_last() =~= table.take(k as int));
                let _ = self.module_oids@[k as int];
            }
            let arcs = &self.module_oids[k].0;
            let module = self.module_oids[k].1;
            let shared = shared_prefix_exec(arcs, &want);
            if shared >= min {
                match best {
                    Some((len, m)) => {
                        if len > shared {
                        } else if len == shared && !str_eq(
                            self.modules[m].name.value.as_str(),
                            self.modules[module].name.value.as_str(),
                        ) {
                            ambiguous = true;
                        } else {
                            best = Some((shared, module));
                            ambiguous = false;
                        }
                    },
                    None => {
                        best = Some((shared, module));
                        ambiguous = false;
                    },
                }
            }
            k = k + 1;
        }
        proof {
            assert(table.take(n as int) =~= table);
        }
        match best {
            Some((_, m)) => {
                if !ambiguous {
                    &self.modules[m].name.value
                } else {
                    name
                }
            },
            None => name,
        }
    }

    /// Make `name` (with IMPORTS `imports`) the module being lowered.
    pub(crate) fn set_current(&mut self, name: &'a String, imports: &'a [ImportClause])
        ensures
            final(self).modules_view() == old(self).modules_view(),
            final(self).wf() == old(self).wf(),
            final(self).current() == Some(name@),
            final(self).current_imports() == imports@,
    {
        self.current_module = Some(name);
        self.imports = imports;
    }

    /// Where `name` is imported from by the module being lowered: the
    /// designated module of the last clause listing it.
    fn import_origin(&self, name: &String) -> (r: Option<&'a String>)
        requires
            self.wf(),
        ensures
            match r {
                Some(s) => import_origin(self.modules@, self.imports@, name@) == Some(s@),
                None => import_origin(self.modules@, self.imports@, name@) is None,
            },
    {
        let imps = self.imports;
        let mut i = imps.len();
        assert(imps@.take(i as int) =~= imps@);
        while i > 0
            invariant
                self.wf(),
                imps@ == self.imports@,
                i <= imps@.len(),
                import_origin(self.modules@, imps@, name@) == import_origin(
                    self.modules@,
                    imps@.take(i as int),
                    name@,
                ),
            decreases i,
        {
            proof {
                assert(imps@.take(i as int).drop_last() =~= imps@.take(i - 1));
            }
            let c = &imps[i - 1];
            if lists_symbol_exec(c, name) {
                return Some(self.canonical_module(&c.from_module.value, c.from_oid.as_ref()));
            }
            i = i - 1;
        }
        None
    }

    /// Returns `(module, name)`; `module` is `None` when the reference could
    /// not be resolved to any known module.
    pub(crate) fn resolve(&self, name: &String) -> (r: (Option<String>, String))
        requires
            self.wf(),
            self.current() is Some,
        ensures
            ({
                let (m, n) = resolve(self.modules_view(), self.current()->0, self.current_imports(), name@);
                &&& r.1@ == n
                &&& match r.0 {
                    Some(s) => m == Some(s@),
                    None => m is None,
                }
            }),
    {
        let cur = self.current_module.unwrap();
        match self.find_module(cur) {
            Some(i) => {
                if defines_type_exec(&self.modules[i], name) {
                    return (Some(cur.clone()), name.clone());
                }
            },
            None => {},
        }
        match self.import_origin(name) {
            Some(origin) => {
                let t = self.trace_symbol(origin, name);
                (Some(t.clone()), name.clone())
            },
            None => (None, name.clone()),
        }
    }

    /// Follow `IMPORTS` chains until the module that actually defines `name`
    /// is found. A module that merely imports a symbol is commonly cited as
    /// its source by downstream modules, so a single hop is not always
    /// enough. Returns the last module reached when the chain dead-ends.
    pub(crate) fn trace_symbol(&self, origin: &'a String, name: &String) -> (r: &'a String)
        requires
            self.wf(),
        ensures
            r@ == trace_symbol(self.modules_view(), origin@, name@, Set::empty()),
    {
        let ghost ms = self.modules@;
        let mut current = origin;
        let mut seen: Vec<&'a String> = Vec::new();
        let ghost mut seen_set: Set<Seq<char>> = Set::empty();
        loop
            invariant
                self.wf(),
                ms == self.modules@,
                forall|s: Seq<char>| seen_set.contains(s) <==> exists|k: int|
                    0 <= k < seen@.len() && (#[trigger] seen@[k])@ == s,
                trace_symbol(ms, origin@, name@, Set::empty()) == trace_symbol(
                    ms,
                    current@,
                    name@,
                    seen_set,
                ),
            decreases unseen(ms, seen_set),
        {
            if contains_name(&seen, current) {
                return current;
            }
            let idx = match self.find_module(current) {
                Some(idx) => idx,
                None => {
                    return current;
                },
            };
            if defines_type_exec(&self.modules[idx], name) {
                return current;
            }
            let next = match first_listing(&self.modules[idx].imports, name) {
                Some(imp) => self.canonical_module(&imp.from_module.value, imp.from_oid.as_ref()),
                None => {
                    return current;
                },
            };
            proof {
                lemma_unseen_insert(ms, seen_set, current@);
            }
            let ghost old_seen = seen@;
            seen.push(current);
            proof {
                let ns = seen_set.insert(current@);
                assert forall|s: Seq<char>| ns.contains(s) <==> exists|k: int|
                    0 <= k < seen@.len() && (#[trigger] seen@[k])@ == s by {
                    if ns.contains(s) {
                        if s == current@ {
                            assert(seen@[seen@.len() - 1]@ == s);
                        } else {
                            let k = choose|k: int| 0 <= k < old_seen.len() && (#[trigger] old_seen[k])@ == s;
                            assert(seen@[k] == old_seen[k]);
                        }
                    }
                    if exists|k: int| 0 <= k < seen@.len() && (#[trigger] seen@[k])@ == s {
                        let k = choose|k: int| 0 <= k < seen@.len() && (#[trigger] seen@[k])@ == s;
                        if k < old_seen.len() {
                            assert(old_seen[k] == seen@[k]);
                        }
                    }
                }
                seen_set = ns;
            }
            current = next;
        }
    }
}

/// Render an object identifier as its numeric arcs, or `None` when it is
/// empty or any arc lacks a numeric value (`{iso standard}` style references).
pub fn numeric_oid(comps: &[OidComponent]) -> (r: Option<Vec<i64>>)
    ensures
        match r {
            Some(v) => oid_arcs(comps@) == Some(v@),
            None => oid_arcs(comps@) is None,
        },
{
    if comps.len() == 0 {
        return None;
    }
    let mut arcs: Vec<i64> = Vec::new();
    let mut i: usize = 0;
    while i < comps.len()
        invariant
            i <= comps@.len(),
            arcs@.len() == i,
            forall|k: int| 0 <= k < i ==> (#[trigger] comps@[k]).value == Some(arcs@[k]),
        decreases comps@.len() - i,
    {
        match comps[i].value {
            Some(v) => {
                arcs.push(v);
            },
            None => {
                return None;
            },
        }
        i = i + 1;
    }
    proof {
        assert(arcs@ =~= Seq::new(comps@.len(), |k: int| comps@[k].value->0));
    }
    Some(arcs)
}

fn vec_i64_eq(a: &Vec<i64>, b: &Vec<i64>) -> (r: bool)
    ensures
        r == (a@ == b@),
{
    if a.len() != b.len() {
        return false;
    }
    let mut i: usize = 0;
    while i < a.len()
        invariant
            i <= a@.len() == b@.len(),
            forall|k: int| 0 <= k < i ==> a@[k] == b@[k],
        decreases a@.len() - i,
    {
        if a[i] != b[i] {
            return false;
        }
        i = i + 1;
    }
    proof {
        assert(a@ =~= b@);
    }
    true
}

fn shared_prefix_exec(a: &Vec<i64>, b: &Vec<i64>) -> (r: usize)
    ensures
        r as nat == shared_prefix(a@, b@),
{
    let mut j: usize = 0;
    assert(a@.skip(0) =~= a@);
    assert(b@.skip(0) =~= b@);
    while j < a.len() && j < b.len() && a[j] == b[j]
        invariant
            j <= a@.len(),
            j <= b@.len(),
            shared_prefix(a@, b@) == j + shared_prefix(a@.skip(j as int), b@.skip(j as int)),
        decreases a@.len() - j,
    {
        proof {
            assert(a@.skip(j as int).drop_first() =~= a@.skip(j + 1));
            assert(b@.skip(j as int).drop_first() =~= b@.skip(j + 1));
        }
        j = j + 1;
    }
    j
}

fn defines_type_exec(m: &Module, name: &String) -> (r: bool)
    ensures
        r == defines_type(*m, name@),
{
    let mut j: usize = 0;
    while j < m.assignments.len()
        invariant
            j <= m.assignments@.len(),
            forall|k: int|
                0 <= k < j ==> !((#[trigger] m.assignments@[k]).kind is Type && m.assignments@[k].name.value@
                    == name@),
        decreases m.assignments@.len() - j,
    {
        let a = &m.assignments[j];
        let is_type = match &a.kind {
            AssignmentKind::Type(_) => true,
            _ => false,
        };
        if is_type && str_eq(a.name.value.as_str(), name.as_str()) {
            return true;
        }
        j = j + 1;
    }
    false
}

fn lists_symbol_exec(c: &ImportClause, name: &String) -> (r: bool)
    ensures
        r == lists_symbol(*c, name@),
{
    let mut k: usize = 0;
    while k < c.symbols.len()
        invariant
            k <= c.symbols@.len(),
            forall|j: int| 0 <= j < k ==> (#[trigger] c.symbols@[j]).value@ != name@,
        decreases c.symbols@.len() - k,
    {
        if str_eq(c.symbols[k].value.as_str(), name.as_str()) {
            return true;
        }
        k = k + 1;
    }
    false
}

fn first_listing<'b>(imps: &'b Vec<ImportClause>, name: &String) -> (r: Option<&'b ImportClause>)
    ensures
        match r {
            Some(c) => first_import_listing(imps@, name@) == Some(*c),
            None => first_import_listing(imps@, name@) is None,
        },
{
    let mut i: usize = 0;
    assert(imps@.skip(0) =~= imps@);
    while i < imps.len()
        invariant
            i <= imps@.len(),
            first_import_listing(imps@, name@) == first_import_listing(imps@.skip(i as int), name@),
        decreases imps@.len() - i,
    {
        proof {
            assert(imps@.skip(i as int).drop_first() =~= imps@.skip(i + 1));
            assert(imps@.skip(i as int)[0] == imps@[i as int]);
        }
        if lists_symbol_exec(&imps[i], name) {
            return Some(&imps[i]);
        }
        i = i + 1;
    }
    proof {
        assert(imps@.skip(imps@.len() as int) =~= Seq::<ImportClause>::empty());
    }
    None
}

fn contains_name(seen: &Vec<&String>, s: &String) -> (r: bool)
    ensures
        r == exists|k: int| 0 <= k < seen@.len() && (#[trigger] seen@[k])@ == s@,
{
    let mut k: usize = 0;
    while k < seen.len()
        invariant
            k <= seen@.len(),
            forall|j: int| 0 <= j < k ==> (#[trigger] seen@[j])@ != s@,
        decreases seen@.len() - k,
    {
        if str_eq(seen[k].as_str(), s.as_str()) {
            return true;
        }
        k = k + 1;
    }
    false
}

} // verus!
