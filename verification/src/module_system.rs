//! Modules of a multi-file program: what each imports and exports, the order the
//! modules are compiled in (dependencies first, circular dependencies refused),
//! and whether every import names items its module exports.

use vstd::prelude::*;
use crate::ast::ASTNode;
use crate::enhanced_error::{CompilerError, ErrorKind, Position, Span};
use crate::text::{concat, owned, same_text};

verus! {

/// An import: the module's path, the items taken from it (all when `None`), and
/// the name it is known by.
#[derive(Debug)]
pub struct ModuleImport {
    pub path: Vec<String>,
    pub items: Option<Vec<String>>,
    pub alias: Option<String>,
}

/// The texts of a list of strings.
pub open spec fn texts(v: Seq<String>) -> Seq<Seq<char>> {
    v.map_values(|s: String| s@)
}

/// An import as plain values: path, items and alias.
pub type ImportView = (Seq<Seq<char>>, Option<Seq<Seq<char>>>, Option<Seq<char>>);

/// The plain values of an import.
pub open spec fn import_view(i: ModuleImport) -> ImportView {
    (
        texts(i.path@),
        match i.items {
            Some(v) => Some(texts(v@)),
            None => None,
        },
        match i.alias {
            Some(a) => Some(a@),
            None => None,
        },
    )
}

/// Parts joined by a separator.
pub open spec fn join_text(parts: Seq<Seq<char>>, sep: Seq<char>) -> Seq<char>
    decreases parts.len(),
{
    if parts.len() == 0 {
        Seq::empty()
    } else if parts.len() == 1 {
        parts[0]
    } else {
        join_text(parts.drop_last(), sep) + sep + parts.last()
    }
}

/// The strings joined by a separator.
pub fn join(parts: &Vec<String>, sep: &str) -> (r: String)
    ensures
        r@ == join_text(texts(parts@), sep@),
{
    let mut out = String::new();
    let mut i: usize = 0;
    while i < parts.len()
        invariant
            i <= parts@.len(),
            out@ == join_text(texts(parts@.take(i as int)), sep@),
        decreases parts@.len() - i,
    {
        assert(texts(parts@.take(i as int + 1)).drop_last() =~= texts(parts@.take(i as int)));
        if i == 0 {
            out = parts[0].clone();
        } else {
            let a = concat(out.as_str(), sep);
            out = concat(a.as_str(), parts[i].as_str());
        }
        i += 1;
    }
    assert(parts@.take(parts@.len() as int) =~= parts@);
    out
}

fn copy_texts(v: &Vec<String>) -> (r: Vec<String>)
    ensures
        texts(r@) == texts(v@),
{
    let mut out: Vec<String> = Vec::new();
    let mut i: usize = 0;
    while i < v.len()
        invariant
            i <= v@.len(),
            out@.len() == i,
            texts(out@) == texts(v@.take(i as int)),
        decreases v@.len() - i,
    {
        let c = v[i].clone();
        let ghost before = out@;
        out.push(c);
        i += 1;
        assert forall|j: int| 0 <= j < i implies #[trigger] texts(out@)[j] == texts(v@.take(i as int))[j] by {
            if j < i - 1 {
                assert(out@[j] == before[j]);
                assert(texts(before)[j] == texts(v@.take(i - 1))[j]);
            } else {
                assert(out@[j] == c);
            }
        }
        assert(texts(out@) =~= texts(v@.take(i as int)));
    }
    assert(v@.take(v@.len() as int) =~= v@);
    out
}

/// The keys of a list of keyed imports.
pub open spec fn import_keys(v: Seq<(String, ModuleImport)>) -> Seq<Seq<char>> {
    v.map_values(|e: (String, ModuleImport)| e.0@)
}

/// The place of a key among the keys (any one, when there are several).
pub open spec fn key_index(keys: Seq<Seq<char>>, k: Seq<char>) -> int {
    choose|i: int| 0 <= i < keys.len() && keys[i] == k
}

/// Keyed imports as a map from key to import.
pub open spec fn import_map(v: Seq<(String, ModuleImport)>) -> Map<Seq<char>, ImportView> {
    Map::new(|k: Seq<char>| import_keys(v).contains(k), |k: Seq<char>| import_view(v[key_index(import_keys(v), k)].1))
}

/// What a module imports, exports and depends on, as plain values.
pub type SummaryView = (Map<Seq<char>, ImportView>, Set<Seq<char>>, Set<Seq<char>>);

/// The imports, exports and dependencies collected from a node on top of those
/// collected so far. An import names its module by its path joined with `::`
/// (which is also the dependency) and is keyed by its items joined with `,`, or by
/// the module name when it takes everything; a later import under a key replaces
/// an earlier one. Functions, classes, structs, traits and enums are exported by
/// name. Programs and modules are looked into; nothing else is.
pub open spec fn collect(s: SummaryView, node: ASTNode) -> SummaryView
    decreases node, 0int,
{
    match node {
        ASTNode::Program(stmts) => collect_all(s, stmts@),
        ASTNode::Module { body, .. } => collect_all(s, body@),
        ASTNode::Import { path, items } => {
            let name = join_text(texts(path@), "::"@);
            let key = match items {
                Some(it) => join_text(texts(it@), ","@),
                None => name,
            };
            let imp = (
                texts(path@),
                match items {
                    Some(it) => Some(texts(it@)),
                    None => None,
                },
                None,
            );
            (s.0.insert(key, imp), s.1, s.2.insert(name))
        },
        ASTNode::Function { name, .. } => (s.0, s.1.insert(name@), s.2),
        ASTNode::ClassDecl { name, .. } => (s.0, s.1.insert(name@), s.2),
        ASTNode::StructDecl { name, .. } => (s.0, s.1.insert(name@), s.2),
        ASTNode::TraitDecl { name, .. } => (s.0, s.1.insert(name@), s.2),
        ASTNode::EnumDecl { name, .. } => (s.0, s.1.insert(name@), s.2),
        _ => s,
    }
}

/// What a sequence of nodes adds, in order.
pub open spec fn collect_all(s: SummaryView, nodes: Seq<ASTNode>) -> SummaryView
    decreases nodes, 1int,
{
    if nodes.len() == 0 {
        s
    } else {
        collect(collect_all(s, nodes.drop_last()), nodes[nodes.len() - 1])
    }
}

/// The collections of a summary hold each name and key once.
pub open spec fn summary_wf(imports: Seq<(String, ModuleImport)>, exports: Seq<String>, deps: Seq<String>) -> bool {
    &&& import_keys(imports).no_duplicates()
    &&& texts(exports).no_duplicates()
    &&& texts(deps).no_duplicates()
}

/// The plain values of a summary's collections.
pub open spec fn summary_view(imports: Seq<(String, ModuleImport)>, exports: Seq<String>, deps: Seq<String>) -> SummaryView {
    (import_map(imports), texts(exports).to_set(), texts(deps).to_set())
}

fn find_text(v: &Vec<String>, t: &str) -> (r: Option<usize>)
    ensures
        match r {
            Some(i) => i < v@.len() && v@[i as int]@ == t@,
            None => !texts(v@).contains(t@),
        },
{
    let mut i: usize = 0;
    while i < v.len()
        invariant
            i <= v@.len(),
            forall|j: int| 0 <= j < i ==> v@[j]@ != t@,
        decreases v@.len() - i,
    {
        if same_text(v[i].as_str(), t) {
            return Some(i);
        }
        i += 1;
    }
    proof {
        if texts(v@).contains(t@) {
            let j = choose|j: int| 0 <= j < texts(v@).len() && texts(v@)[j] == t@;
            assert(v@[j]@ == t@);
        }
    }
    None
}

fn insert_text(v: &mut Vec<String>, t: String)
    requires
        texts(old(v)@).no_duplicates(),
    ensures
        texts(final(v)@).no_duplicates(),
        texts(final(v)@).to_set() == texts(old(v)@).to_set().insert(t@),
{
    match find_text(v, t.as_str()) {
        Some(i) => {
            assert(texts(v@).contains(t@)) by {
                assert(texts(v@)[i as int] == t@);
            }
            assert(texts(v@).to_set() =~= texts(v@).to_set().insert(t@));
        },
        None => {
            let ghost t0 = t@;
            v.push(t);
            assert(texts(v@) =~= texts(old(v)@).push(t0));
            let ghost n = old(v)@.len() as int;
            assert forall|x: Seq<char>| #[trigger] texts(v@).to_set().contains(x) == texts(old(v)@).to_set().insert(
                t0,
            ).contains(x) by {
                if x == t0 {
                    assert(texts(v@)[n] == x);
                }
                if texts(old(v)@).contains(x) {
                    let j = choose|j: int| 0 <= j < texts(old(v)@).len() && texts(old(v)@)[j] == x;
                    assert(texts(v@)[j] == x);
                }
                if texts(v@).contains(x) && x != t0 {
                    let j = choose|j: int| 0 <= j < texts(v@).len() && texts(v@)[j] == x;
                    assert(j != n);
                    assert(texts(old(v)@)[j] == x);
                }
            }
            assert(texts(v@).to_set() =~= texts(old(v)@).to_set().insert(t0));
        },
    }
}

fn find_key(v: &Vec<(String, ModuleImport)>, k: &str) -> (r: Option<usize>)
    ensures
        match r {
            Some(i) => i < v@.len() && v@[i as int].0@ == k@,
            None => !import_keys(v@).contains(k@),
        },
{
    let mut i: usize = 0;
    while i < v.len()
        invariant
            i <= v@.len(),
            forall|j: int| 0 <= j < i ==> v@[j].0@ != k@,
        decreases v@.len() - i,
    {
        if same_text(v[i].0.as_str(), k) {
            return Some(i);
        }
        i += 1;
    }
    proof {
        if import_keys(v@).contains(k@) {
            let j = choose|j: int| 0 <= j < import_keys(v@).len() && import_keys(v@)[j] == k@;
            assert(v@[j].0@ == k@);
        }
    }
    None
}

proof fn lemma_import_at(v: Seq<(String, ModuleImport)>, i: int)
    requires
        import_keys(v).no_duplicates(),
        0 <= i < v.len(),
    ensures
        import_map(v).contains_key(v[i].0@),
        import_map(v)[v[i].0@] == import_view(v[i].1),
{
    let k = v[i].0@;
    assert(import_keys(v)[i] == k);
    let j = key_index(import_keys(v), k);
    assert(import_keys(v)[j] == k);
}

fn insert_import(v: &mut Vec<(String, ModuleImport)>, key: String, imp: ModuleImport)
    requires
        import_keys(old(v)@).no_duplicates(),
    ensures
        import_keys(final(v)@).no_duplicates(),
        import_map(final(v)@) == import_map(old(v)@).insert(key@, import_view(imp)),
{
    let ghost k = key@;
    let ghost iv = import_view(imp);
    let ghost o = v@;
    match find_key(v, key.as_str()) {
        Some(i) => {
            v.set(i, (key, imp));
            assert(import_keys(v@) =~= import_keys(o));
            assert(import_keys(o)[i as int] == k);
            assert(import_keys(v@)[i as int] == k);
            assert forall|q: Seq<char>| #[trigger] import_map(v@).contains_key(q) == import_map(o).insert(k, iv).contains_key(
                q,
            ) by {}
            assert forall|q: Seq<char>| #[trigger]
                import_map(v@).contains_key(q) implies import_map(v@)[q] == import_map(o).insert(k, iv)[q] by {
                let j = key_index(import_keys(v@), q);
                assert(import_keys(v@)[j] == q);
                lemma_import_at(v@, j);
                if q != k {
                    assert(j != i);
                    lemma_import_at(o, j);
                } else {
                    assert(j == i);
                }
            }
            assert(import_map(v@) =~= import_map(o).insert(k, iv));
        },
        None => {
            v.push((key, imp));
            assert(import_keys(v@) =~= import_keys(o).push(k));
            let ghost n = o.len() as int;
            assert forall|q: Seq<char>| #[trigger] import_map(v@).contains_key(q) == import_map(o).insert(k, iv).contains_key(
                q,
            ) by {
                if import_keys(o).contains(q) {
                    let j = choose|j: int| 0 <= j < import_keys(o).len() && import_keys(o)[j] == q;
                    assert(import_keys(v@)[j] == q);
                }
                if q == k {
                    assert(import_keys(v@)[n] == q);
                }
                if import_keys(v@).contains(q) && q != k {
                    let j = choose|j: int| 0 <= j < import_keys(v@).len() && import_keys(v@)[j] == q;
                    assert(j != n);
                    assert(import_keys(o)[j] == q);
                }
            }
            assert forall|q: Seq<char>| #[trigger]
                import_map(v@).contains_key(q) implies import_map(v@)[q] == import_map(o).insert(k, iv)[q] by {
                let j = key_index(import_keys(v@), q);
                assert(import_keys(v@)[j] == q);
                lemma_import_at(v@, j);
                if q != k {
                    assert(j != n);
                    lemma_import_at(o, j);
                }
            }
            assert(import_map(v@) =~= import_map(o).insert(k, iv));
        },
    }
}

fn analyze_node(
    node: &ASTNode,
    imports: &mut Vec<(String, ModuleImport)>,
    exports: &mut Vec<String>,
    deps: &mut Vec<String>,
)
    requires
        summary_wf(old(imports)@, old(exports)@, old(deps)@),
    ensures
        summary_wf(final(imports)@, final(exports)@, final(deps)@),
        summary_view(final(imports)@, final(exports)@, final(deps)@) == collect(
            summary_view(old(imports)@, old(exports)@, old(deps)@),
            *node,
        ),
    decreases node, 1int,
{
    match node {
        ASTNode::Program(stmts) => {
            analyze_nodes(stmts, imports, exports, deps);
        },
        ASTNode::Module { body, .. } => {
            analyze_nodes(body, imports, exports, deps);
        },
        ASTNode::Import { path, items } => {
            let name = join(path, "::");
            let key = match items {
                Some(it) => join(it, ","),
                None => name.clone(),
            };
            let imp = ModuleImport {
                path: copy_texts(path),
                items: match items {
                    Some(it) => Some(copy_texts(it)),
                    None => None,
                },
                alias: None,
            };
            insert_import(imports, key, imp);
            insert_text(deps, name);
        },
        ASTNode::Function { name, .. } => {
            insert_text(exports, name.clone());
        },
        ASTNode::ClassDecl { name, .. } => {
            insert_text(exports, name.clone());
        },
        ASTNode::StructDecl { name, .. } => {
            insert_text(exports, name.clone());
        },
        ASTNode::TraitDecl { name, .. } => {
            insert_text(exports, name.clone());
        },
        ASTNode::EnumDecl { name, .. } => {
            insert_text(exports, name.clone());
        },
        _ => {},
    }
}

fn analyze_nodes(
    nodes: &Vec<ASTNode>,
    imports: &mut Vec<(String, ModuleImport)>,
    exports: &mut Vec<String>,
    deps: &mut Vec<String>,
)
    requires
        summary_wf(old(imports)@, old(exports)@, old(deps)@),
    ensures
        summary_wf(final(imports)@, final(exports)@, final(deps)@),
        summary_view(final(imports)@, final(exports)@, final(deps)@) == collect_all(
            summary_view(old(imports)@, old(exports)@, old(deps)@),
            nodes@,
        ),
    decreases nodes, 0int,
{
    let ghost start = summary_view(imports@, exports@, deps@);
    let mut i: usize = 0;
    while i < nodes.len()
        invariant
            i <= nodes@.len(),
            summary_wf(imports@, exports@, deps@),
            summary_view(imports@, exports@, deps@) == collect_all(start, nodes@.take(i as int)),
        decreases nodes@.len() - i,
    {
        assert(nodes@.take(i as int + 1).drop_last() =~= nodes@.take(i as int));
        analyze_node(&nodes[i], imports, exports, deps);
        i += 1;
    }
    assert(nodes@.take(nodes@.len() as int) =~= nodes@);
}

/// A module: its name, where it was read from, its syntax tree, and what it
/// exports, imports (by key) and depends on.
#[derive(Debug)]
pub struct Module {
    pub name: String,
    pub path: String,
    pub ast: ASTNode,
    pub exports: Vec<String>,
    pub imports: Vec<(String, ModuleImport)>,
    pub dependencies: Vec<String>,
}

/// The summary of a syntax tree: what it imports, exports and depends on.
pub open spec fn module_summary(ast: ASTNode) -> SummaryView {
    collect((Map::empty(), Set::empty(), Set::empty()), ast)
}

/// Collects what a syntax tree imports (by key), exports and depends on.
pub fn analyze_module(ast: &ASTNode) -> (r: (Vec<(String, ModuleImport)>, Vec<String>, Vec<String>))
    ensures
        summary_wf(r.0@, r.1@, r.2@),
        summary_view(r.0@, r.1@, r.2@) == module_summary(*ast),
{
    let mut imports: Vec<(String, ModuleImport)> = Vec::new();
    let mut exports: Vec<String> = Vec::new();
    let mut deps: Vec<String> = Vec::new();
    proof {
        assert(import_map(imports@) =~= Map::<Seq<char>, ImportView>::empty());
        assert(texts(exports@).to_set() =~= Set::<Seq<char>>::empty());
        assert(texts(deps@).to_set() =~= Set::<Seq<char>>::empty());
    }
    analyze_node(ast, &mut imports, &mut exports, &mut deps);
    (imports, exports, deps)
}

/// The names of the modules.
pub open spec fn module_names(ms: Seq<Module>) -> Seq<Seq<char>> {
    ms.map_values(|m: Module| m.name@)
}

/// A module of that name is loaded.
pub open spec fn has_module(ms: Seq<Module>, n: Seq<char>) -> bool {
    module_names(ms).contains(n)
}

/// The loaded module of that name.
pub open spec fn module_named(ms: Seq<Module>, n: Seq<char>) -> Module {
    ms[key_index(module_names(ms), n)]
}

/// The modules a loaded module depends on.
pub open spec fn deps_of(ms: Seq<Module>, n: Seq<char>) -> Seq<Seq<char>> {
    texts(module_named(ms, n).dependencies@)
}

/// What a loaded module exports.
pub open spec fn exports_of(ms: Seq<Module>, n: Seq<char>) -> Set<Seq<char>> {
    texts(module_named(ms, n).exports@).to_set()
}

/// Module `a` is loaded and depends on `b`.
pub open spec fn depends(ms: Seq<Module>, a: Seq<char>, b: Seq<char>) -> bool {
    has_module(ms, a) && deps_of(ms, a).contains(b)
}

/// A nonempty chain of modules, each depending on the next.
pub open spec fn dep_path(ms: Seq<Module>, p: Seq<Seq<char>>) -> bool {
    p.len() > 0 && forall|i: int| 0 <= i < p.len() - 1 ==> #[trigger] depends(ms, p[i], p[i + 1])
}

/// A chain of dependencies leads from `from` to `to`.
pub open spec fn reachable(ms: Seq<Module>, from: Seq<char>, to: Seq<char>) -> bool {
    exists|p: Seq<Seq<char>>| #[trigger] dep_path(ms, p) && p[0] == from && p.last() == to
}

/// A chain of one or more dependencies leads from the module back to itself.
pub open spec fn on_cycle(ms: Seq<Module>, m: Seq<char>) -> bool {
    exists|p: Seq<Seq<char>>| #[trigger] dep_path(ms, p) && p.len() >= 2 && p[0] == m && p.last() == m
}

/// Each module is loaded once, and its collections hold each entry once.
pub open spec fn modules_wf(ms: Seq<Module>) -> bool {
    &&& module_names(ms).no_duplicates()
    &&& forall|i: int|
        0 <= i < ms.len() ==> summary_wf(#[trigger] ms[i].imports@, ms[i].exports@, ms[i].dependencies@)
}

/// Every module of the order is loaded and comes after the modules it depends on.
pub open spec fn dependencies_first(ms: Seq<Module>, order: Seq<Seq<char>>) -> bool {
    &&& forall|i: int| 0 <= i < order.len() ==> has_module(ms, #[trigger] order[i])
    &&& forall|i: int, d: Seq<char>|
        0 <= i < order.len() && #[trigger] deps_of(ms, order[i]).contains(d) ==> exists|j: int|
            0 <= j < i && #[trigger] order[j] == d
}

/// The message of an import from a module that is not loaded.
pub open spec fn not_found_text(m: Seq<char>) -> Seq<char> {
    "Module '"@ + m + "' not found"@
}

/// The message of an import of an item a module does not export.
pub open spec fn not_exported_text(m: Seq<char>, item: Seq<char>) -> Seq<char> {
    "Module '"@ + m + "' does not export '"@ + item + "'"@
}

/// The message of a dependency that cannot be found.
pub open spec fn missing_text(m: Seq<char>) -> Seq<char> {
    "Module '"@ + m + "' not found in search paths"@
}

/// The message of a circular dependency.
pub open spec fn cycle_text(m: Seq<char>) -> Seq<char> {
    "Circular dependency detected involving module '"@ + m + "'"@
}

/// An import is valid: its module is loaded and exports every item it takes.
pub open spec fn import_ok(ms: Seq<Module>, imp: ImportView) -> bool {
    let target = join_text(imp.0, "::"@);
    has_module(ms, target) && match imp.1 {
        Some(items) => forall|k: int| 0 <= k < items.len() ==> exports_of(ms, target).contains(#[trigger] items[k]),
        None => true,
    }
}

/// The error an invalid import is reported with.
pub open spec fn import_error(ms: Seq<Module>, imp: ImportView, kind: ErrorKind, message: Seq<char>) -> bool {
    let target = join_text(imp.0, "::"@);
    if !has_module(ms, target) {
        kind == ErrorKind::ModuleNotFound && message == not_found_text(target)
    } else {
        imp.1 matches Some(items) && exists|k: int|
            0 <= k < items.len() && !exports_of(ms, target).contains(#[trigger] items[k]) && (forall|l: int|
                0 <= l < k ==> exports_of(ms, target).contains(items[l])) && kind == ErrorKind::ImportError
                && message == not_exported_text(target, items[k])
    }
}

/// Every import of every loaded module is valid.
pub open spec fn all_imports_ok(ms: Seq<Module>) -> bool {
    forall|i: int, j: int|
        0 <= i < ms.len() && 0 <= j < ms[i].imports@.len() ==> import_ok(ms, import_view((#[trigger] ms[i].imports@[j]).1))
}

/// The error is the one some invalid import of a loaded module is reported with.
pub open spec fn some_import_error(ms: Seq<Module>, kind: ErrorKind, message: Seq<char>) -> bool {
    exists|i: int, j: int|
        0 <= i < ms.len() && 0 <= j < ms[i].imports@.len() && import_error(
            ms,
            import_view((#[trigger] ms[i].imports@[j]).1),
            kind,
            message,
        )
}

/// A compilation order from an entry: each module once, the entry last, every
/// module after the modules it depends on, and every module reachable from the entry.
pub open spec fn valid_order(ms: Seq<Module>, entry: Seq<char>, order: Seq<Seq<char>>) -> bool {
    &&& order.no_duplicates()
    &&& order.len() > 0
    &&& order.last() == entry
    &&& dependencies_first(ms, order)
    &&& forall|i: int| 0 <= i < order.len() ==> reachable(ms, entry, #[trigger] order[i])
}

/// The error a failed resolution from the entry is reported with: a module reachable
/// from it that is not loaded, or one that lies on a circular dependency.
pub open spec fn resolution_error(ms: Seq<Module>, entry: Seq<char>, kind: ErrorKind, message: Seq<char>) -> bool {
    ||| kind == ErrorKind::ModuleNotFound && exists|m: Seq<char>|
        #[trigger] reachable(ms, entry, m) && !has_module(ms, m) && message == missing_text(m)
    ||| kind == ErrorKind::CircularDependency && exists|m: Seq<char>|
        #[trigger] reachable(ms, entry, m) && on_cycle(ms, m) && message == cycle_text(m)
}

/// Every module reachable from the entry is loaded and lies on no circular dependency.
pub open spec fn resolvable(ms: Seq<Module>, entry: Seq<char>) -> bool {
    forall|m: Seq<char>| #[trigger] reachable(ms, entry, m) ==> has_module(ms, m) && !on_cycle(ms, m)
}

/// The place of a name in an order (any one, when there are several).
pub open spec fn position(order: Seq<Seq<char>>, x: Seq<char>) -> int {
    choose|i: int| 0 <= i < order.len() && order[i] == x
}

proof fn lemma_path_descends(ms: Seq<Module>, order: Seq<Seq<char>>, p: Seq<Seq<char>>, k: int)
    requires
        dependencies_first(ms, order),
        order.no_duplicates(),
        dep_path(ms, p),
        order.contains(p[0]),
        0 <= k < p.len(),
    ensures
        order.contains(p[k]),
        k > 0 ==> position(order, p[k]) < position(order, p[0]),
    decreases k,
{
    if k > 0 {
        lemma_path_descends(ms, order, p, k - 1);
        let h = k - 1;
        assert(depends(ms, p[h], p[h + 1]));
        let i = position(order, p[k - 1]);
        assert(order[i] == p[k - 1]);
        assert(deps_of(ms, order[i]).contains(p[k]));
        let j = choose|j: int| 0 <= j < i && #[trigger] order[j] == p[k];
        let pk = position(order, p[k]);
        assert(order[pk] == p[k]);
        assert(pk == j);
    }
}

/// A compilation order holds every module reachable from its entry; each of them is
/// loaded and lies on no circular dependency.
pub proof fn lemma_order_covers_reachable(ms: Seq<Module>, entry: Seq<char>, order: Seq<Seq<char>>, m: Seq<char>)
    requires
        valid_order(ms, entry, order),
        reachable(ms, entry, m),
    ensures
        order.contains(m),
        has_module(ms, m),
        !on_cycle(ms, m),
{
    let p = choose|p: Seq<Seq<char>>| #[trigger] dep_path(ms, p) && p[0] == entry && p.last() == m;
    assert(order[order.len() - 1] == entry);
    lemma_path_descends(ms, order, p, p.len() - 1);
    let i = choose|i: int| 0 <= i < order.len() && order[i] == m;
    assert(has_module(ms, order[i]));
    if on_cycle(ms, m) {
        let c = choose|c: Seq<Seq<char>>| #[trigger] dep_path(ms, c) && c.len() >= 2 && c[0] == m && c.last() == m;
        lemma_path_descends(ms, order, c, c.len() - 1);
    }
}

fn error_at_unknown(message: String, kind: ErrorKind) -> (r: Box<CompilerError>)
    ensures
        r.message == message,
        r.kind == kind,
{
    Box::new(CompilerError::new(message, kind, Span::single(Position::unknown())))
}

fn quoted(before: &str, m: &str, after: &str) -> (r: String)
    ensures
        r@ == before@ + m@ + after@,
{
    let a = concat(before, m);
    concat(a.as_str(), after)
}

proof fn lemma_module_at(ms: Seq<Module>, i: int)
    requires
        module_names(ms).no_duplicates(),
        0 <= i < ms.len(),
    ensures
        has_module(ms, ms[i].name@),
        module_named(ms, ms[i].name@) == ms[i],
{
    let n = ms[i].name@;
    assert(module_names(ms)[i] == n);
    let j = key_index(module_names(ms), n);
    assert(module_names(ms)[j] == n);
}

proof fn lemma_stack_bound(ms: Seq<Module>, stack: Seq<Seq<char>>)
    requires
        stack.no_duplicates(),
        forall|i: int| 0 <= i < stack.len() ==> has_module(ms, #[trigger] stack[i]),
    ensures
        stack.len() <= ms.len(),
{
    stack.unique_seq_to_set();
    module_names(ms).lemma_cardinality_of_set();
    assert forall|x: Seq<char>| stack.to_set().contains(x) implies module_names(ms).to_set().contains(x) by {
        let i = choose|i: int| 0 <= i < stack.len() && stack[i] == x;
        assert(has_module(ms, stack[i]));
    }
    vstd::set_lib::lemma_len_subset(stack.to_set(), module_names(ms).to_set());
}

/// Loads modules, finds the order to compile them in, and checks their imports.
#[derive(Debug)]
pub struct ModuleResolver {
    modules: Vec<Module>,
    root_path: String,
    search_paths: Vec<String>,
}

impl ModuleResolver {
    /// The loaded modules, in the order they were loaded.
    pub closed spec fn modules(&self) -> Seq<Module> {
        self.modules@
    }

    /// The directories searched for module files.
    pub closed spec fn search_paths(&self) -> Seq<Seq<char>> {
        texts(self.search_paths@)
    }

    /// Each module is loaded once.
    pub closed spec fn wf(&self) -> bool {
        modules_wf(self.modules@)
    }

    /// A resolver with no module loaded, searching the root directory.
    pub fn new(root_path: String) -> (r: ModuleResolver)
        ensures
            r.wf(),
            r.modules().len() == 0,
            r.search_paths() == seq![root_path@],
    {
        let mut search_paths: Vec<String> = Vec::new();
        search_paths.push(root_path.clone());
        let r = ModuleResolver { modules: Vec::new(), root_path, search_paths };
        assert(r.search_paths() =~= seq![r.root_path@]);
        r
    }

    /// Adds a directory to search.
    pub fn add_search_path(&mut self, path: String)
        ensures
            final(self).modules() == old(self).modules(),
            final(self).wf() == old(self).wf(),
            final(self).search_paths() == old(self).search_paths().push(path@),
    {
        let ghost p = path@;
        self.search_paths.push(path);
        assert(texts(self.search_paths@) =~= texts(old(self).search_paths@).push(p));
    }

    fn find_module(&self, name: &str) -> (r: Option<usize>)
        ensures
            match r {
                Some(i) => i < self.modules@.len() && self.modules@[i as int].name@ == name@,
                None => !has_module(self.modules@, name@),
            },
    {
        let mut i: usize = 0;
        while i < self.modules.len()
            invariant
                i <= self.modules@.len(),
                forall|j: int| 0 <= j < i ==> self.modules@[j].name@ != name@,
            decreases self.modules@.len() - i,
        {
            if same_text(self.modules[i].name.as_str(), name) {
                return Some(i);
            }
            i += 1;
        }
        proof {
            if has_module(self.modules@, name@) {
                let j = choose|j: int| 0 <= j < module_names(self.modules@).len() && module_names(self.modules@)[j] == name@;
                assert(self.modules@[j].name@ == name@);
            }
        }
        None
    }

    /// Loads a module read from `path` with its syntax tree, collecting what it
    /// imports, exports and depends on; a module already loaded is kept as it is.
    pub fn add_module(&mut self, name: String, path: String, ast: ASTNode)
        requires
            old(self).wf(),
        ensures
            final(self).wf(),
            final(self).search_paths() == old(self).search_paths(),
            has_module(old(self).modules(), name@) ==> final(self).modules() == old(self).modules(),
            !has_module(old(self).modules(), name@) ==> ({
                let m = final(self).modules().last();
                &&& final(self).modules().drop_last() == old(self).modules()
                &&& final(self).modules().len() == old(self).modules().len() + 1
                &&& m.name@ == name@
                &&& m.path@ == path@
                &&& m.ast == ast
                &&& summary_view(m.imports@, m.exports@, m.dependencies@) == module_summary(ast)
            }),
    {
        match self.find_module(name.as_str()) {
            Some(i) => {
                assert(module_names(self.modules@)[i as int] == name@);
                return;
            },
            None => {},
        }
        let (imports, exports, dependencies) = analyze_module(&ast);
        let ghost n = name@;
        let m = Module { name, path, ast, exports, imports, dependencies };
        self.modules.push(m);
        proof {
            let ms = self.modules@;
            let o = old(self).modules@;
            assert(ms.drop_last() =~= o);
            assert(module_names(ms) =~= module_names(o).push(n));
            assert forall|i: int|
                0 <= i < ms.len() implies summary_wf(#[trigger] ms[i].imports@, ms[i].exports@, ms[i].dependencies@) by {
                if i < o.len() {
                    assert(ms[i] == o[i]);
                }
            }
        }
    }

    /// Checks that an import's module is loaded and exports every item it takes;
    /// the first failure is the error.
    pub fn validate_import(&self, _importing_module: &str, import: &ModuleImport) -> (r: Result<(), Box<CompilerError>>)
        requires
            self.wf(),
        ensures
            r is Ok <==> import_ok(self.modules(), import_view(*import)),
            r matches Err(e) ==> import_error(self.modules(), import_view(*import), e.kind, e.message@),
    {
        let target = join(&import.path, "::");
        let ghost iv = import_view(*import);
        assert(join_text(iv.0, "::"@) == target@);
        let idx = match self.find_module(target.as_str()) {
            Some(i) => i,
            None => {
                let msg = quoted("Module '", target.as_str(), "' not found");
                return Err(error_at_unknown(msg, ErrorKind::ModuleNotFound));
            },
        };
        let module = &self.modules[idx];
        proof {
            lemma_module_at(self.modules@, idx as int);
        }
        match &import.items {
            None => Ok(()),
            Some(items) => {
                let mut k: usize = 0;
                while k < items.len()
                    invariant
                        k <= items@.len(),
                        iv == import_view(*import),
                        join_text(iv.0, "::"@) == target@,
                        has_module(self.modules@, target@),
                        iv.1 == Some(texts(items@)),
                        *module == module_named(self.modules@, target@),
                        forall|l: int| 0 <= l < k ==> exports_of(self.modules@, target@).contains(#[trigger] texts(items@)[l]),
                    decreases items@.len() - k,
                {
                    match find_text(&module.exports, items[k].as_str()) {
                        Some(_) => {
                            assert(texts(module.exports@).contains(items@[k as int]@)) by {
                                let w = choose|w: int| 0 <= w < module.exports@.len() && module.exports@[w]@ == items@[k as int]@;
                                assert(texts(module.exports@)[w] == items@[k as int]@);
                            }
                            assert(texts(items@)[k as int] == items@[k as int]@);
                        },
                        None => {
                            let msg1 = quoted("Module '", target.as_str(), "' does not export '");
                            let msg = concat(msg1.as_str(), items[k].as_str());
                            let msg = concat(msg.as_str(), "'");
                            proof {
                                let its = texts(items@);
                                let tg = join_text(iv.0, "::"@);
                                assert(its[k as int] == items@[k as int]@);
                                assert(msg@ =~= not_exported_text(target@, its[k as int]));
                                assert(!exports_of(self.modules@, target@).contains(its[k as int]));
                                assert(!import_ok(self.modules@, iv)) by {
                                    if import_ok(self.modules@, iv) {
                                        match iv.1 {
                                            Some(x) => {
                                                assert(x == its);
                                                assert(exports_of(self.modules@, tg).contains(x[k as int]));
                                            },
                                            None => {},
                                        }
                                    }
                                }
                            }
                            return Err(error_at_unknown(msg, ErrorKind::ImportError));
                        },
                    }
                    k += 1;
                }
                Ok(())
            },
        }
    }

    /// Checks every import of every loaded module; the first failure is the error.
    pub fn validate_all_imports(&self) -> (r: Result<(), Box<CompilerError>>)
        requires
            self.wf(),
        ensures
            r is Ok <==> all_imports_ok(self.modules()),
            r matches Err(e) ==> some_import_error(self.modules(), e.kind, e.message@),
    {
        let mut i: usize = 0;
        while i < self.modules.len()
            invariant
                self.wf(),
                i <= self.modules@.len(),
                forall|a: int, b: int|
                    0 <= a < i && 0 <= b < self.modules@[a].imports@.len() ==> import_ok(
                        self.modules@,
                        import_view((#[trigger] self.modules@[a].imports@[b]).1),
                    ),
            decreases self.modules@.len() - i,
        {
            let module = &self.modules[i];
            let mut j: usize = 0;
            while j < module.imports.len()
                invariant
                    self.wf(),
                    i < self.modules@.len(),
                    *module == self.modules@[i as int],
                    j <= module.imports@.len(),
                    forall|a: int, b: int|
                        0 <= a < i && 0 <= b < self.modules@[a].imports@.len() ==> import_ok(
                            self.modules@,
                            import_view((#[trigger] self.modules@[a].imports@[b]).1),
                        ),
                    forall|b: int|
                        0 <= b < j ==> import_ok(self.modules@, import_view((#[trigger] self.modules@[i as int].imports@[b]).1)),
                decreases module.imports@.len() - j,
            {
                let res = self.validate_import(module.name.as_str(), &module.imports[j].1);
                match res {
                    Ok(()) => {},
                    Err(e) => {
                        assert(self.modules@[i as int].imports@[j as int] == module.imports@[j as int]);
                        return Err(e);
                    },
                }
                j += 1;
            }
            i += 1;
        }
        Ok(())
    }

    /// A loaded module that exports the symbol, if any does.
    pub fn find_symbol_module(&self, symbol: &str) -> (r: Option<&Module>)
        ensures
            match r {
                Some(m) => exists|i: int| 0 <= i < self.modules().len() && #[trigger] self.modules()[i] == *m && texts(
                    m.exports@,
                ).contains(symbol@),
                None => forall|i: int|
                    0 <= i < self.modules().len() ==> !texts((#[trigger] self.modules()[i]).exports@).contains(symbol@),
            },
    {
        let mut i: usize = 0;
        while i < self.modules.len()
            invariant
                i <= self.modules@.len(),
                forall|a: int| 0 <= a < i ==> !texts((#[trigger] self.modules@[a]).exports@).contains(symbol@),
            decreases self.modules@.len() - i,
        {
            match find_text(&self.modules[i].exports, symbol) {
                Some(w) => {
                    assert(texts(self.modules@[i as int].exports@)[w as int] == symbol@);
                    return Some(&self.modules[i]);
                },
                None => {},
            }
            i += 1;
        }
        None
    }

    /// The modules the entry depends on, directly or not, each after the modules it
    /// depends on and the entry last; a module that is not loaded, or a circular
    /// dependency, is the error.
    pub fn resolve_dependencies(&self, module_name: &str) -> (r: Result<Vec<String>, Box<CompilerError>>)
        requires
            self.wf(),
        ensures
            r is Ok <==> resolvable(self.modules(), module_name@),
            r matches Ok(order) ==> valid_order(self.modules(), module_name@, texts(order@)),
            r matches Err(e) ==> resolution_error(self.modules(), module_name@, e.kind, e.message@),
    {
        let mut resolved: Vec<String> = Vec::new();
        let mut stack: Vec<String> = Vec::new();
        proof {
            assert(texts(resolved@) =~= Seq::<Seq<char>>::empty());
            assert(texts(stack@) =~= Seq::<Seq<char>>::empty());
        }
        match self.resolve_dependencies_recursive(module_name, &mut resolved, &mut stack, Ghost(module_name@)) {
            Ok(()) => {
                proof {
                    assert(!texts(Seq::<String>::empty()).contains(module_name@));
                    assert forall|m: Seq<char>| #[trigger] reachable(self.modules@, module_name@, m) implies has_module(
                        self.modules@,
                        m,
                    ) && !on_cycle(self.modules@, m) by {
                        lemma_order_covers_reachable(self.modules@, module_name@, texts(resolved@), m);
                    }
                }
                Ok(resolved)
            },
            Err(e) => Err(e),
        }
    }

    /// The same as `resolve_dependencies`.
    pub fn get_compilation_order(&self, entry_module: &str) -> (r: Result<Vec<String>, Box<CompilerError>>)
        requires
            self.wf(),
        ensures
            r is Ok <==> resolvable(self.modules(), entry_module@),
            r matches Ok(order) ==> valid_order(self.modules(), entry_module@, texts(order@)),
            r matches Err(e) ==> resolution_error(self.modules(), entry_module@, e.kind, e.message@),
    {
        self.resolve_dependencies(entry_module)
    }

    fn resolve_dependencies_recursive(
        &self,
        module_name: &str,
        resolved: &mut Vec<String>,
        stack: &mut Vec<String>,
        Ghost(entry): Ghost<Seq<char>>,
    ) -> (r: Result<(), Box<CompilerError>>)
        requires
            self.wf(),
            dep_path(self.modules@, texts(old(stack)@).push(module_name@)),
            texts(old(stack)@).push(module_name@)[0] == entry,
            texts(old(stack)@).no_duplicates(),
            forall|i: int| 0 <= i < old(stack)@.len() ==> has_module(self.modules@, #[trigger] texts(old(stack)@)[i]),
            texts(old(resolved)@).no_duplicates(),
            dependencies_first(self.modules@, texts(old(resolved)@)),
            forall|i: int| 0 <= i < old(resolved)@.len() ==> reachable(self.modules@, entry, #[trigger] texts(old(resolved)@)[i]),
            forall|i: int, j: int|
                0 <= i < old(resolved)@.len() && 0 <= j < old(stack)@.len() ==> #[trigger] texts(old(resolved)@)[i]
                    != #[trigger] texts(old(stack)@)[j],
        ensures
            r is Ok ==> {
                &&& texts(final(stack)@) == texts(old(stack)@)
                &&& texts(final(resolved)@).no_duplicates()
                &&& dependencies_first(self.modules@, texts(final(resolved)@))
                &&& forall|i: int|
                    0 <= i < final(resolved)@.len() ==> reachable(self.modules@, entry, #[trigger] texts(final(resolved)@)[i])
                &&& forall|i: int, j: int|
                    0 <= i < final(resolved)@.len() && 0 <= j < final(stack)@.len() ==> #[trigger] texts(final(resolved)@)[i]
                        != #[trigger] texts(final(stack)@)[j]
                &&& texts(old(resolved)@).is_prefix_of(texts(final(resolved)@))
                &&& texts(final(resolved)@).contains(module_name@)
                &&& !texts(old(resolved)@).contains(module_name@) ==> texts(final(resolved)@).last() == module_name@
            },
            r matches Err(e) ==> resolution_error(self.modules@, entry, e.kind, e.message@),
        decreases self.modules@.len() - old(stack)@.len(),
    {
        let ghost path = texts(stack@).push(module_name@);
        proof {
            assert(path[0] == entry && path.last() == module_name@);
            assert(reachable(self.modules@, entry, module_name@));
        }
        match find_text(resolved, module_name) {
            Some(w) => {
                assert(texts(resolved@)[w as int] == module_name@);
                return Ok(());
            },
            None => {},
        }
        match find_text(stack, module_name) {
            Some(w) => {
                let msg = quoted("Circular dependency detected involving module '", module_name, "'");
                proof {
                    let k = w as int;
                    let cyc = path.subrange(k, path.len() as int);
                    assert(cyc[0] == module_name@);
                    assert(cyc.last() == module_name@);
                    assert forall|i: int| 0 <= i < cyc.len() - 1 implies #[trigger] depends(self.modules@, cyc[i], cyc[i + 1]) by {
                        assert(cyc[i] == path[k + i] && cyc[i + 1] == path[k + i + 1]);
                        assert(depends(self.modules@, path[k + i], path[k + i + 1]));
                    }
                    assert(dep_path(self.modules@, cyc));
                    assert(on_cycle(self.modules@, module_name@));
                }
                return Err(error_at_unknown(msg, ErrorKind::CircularDependency));
            },
            None => {},
        }
        let ghost stack0 = texts(stack@);
        stack.push(owned(module_name));
        proof {
            assert(texts(stack@) =~= path);
        }
        let idx = match self.find_module(module_name) {
            Some(i) => i,
            None => {
                let msg = quoted("Module '", module_name, "' not found in search paths");
                return Err(error_at_unknown(msg, ErrorKind::ModuleNotFound));
            },
        };
        let module = &self.modules[idx];
        proof {
            lemma_module_at(self.modules@, idx as int);
            assert(has_module(self.modules@, path.last()));
            assert forall|i: int| 0 <= i < path.len() implies has_module(self.modules@, #[trigger] path[i]) by {
                if i < stack0.len() {
                    assert(path[i] == stack0[i]);
                }
            }
            assert(path.no_duplicates()) by {
                assert forall|a: int, b: int| 0 <= a < path.len() && 0 <= b < path.len() && a != b implies path[a] != path[b] by {
                    if a < stack0.len() && b < stack0.len() {
                        assert(path[a] == stack0[a] && path[b] == stack0[b]);
                    } else if a < stack0.len() {
                        assert(path[a] == stack0[a]);
                        assert(stack0[a] != module_name@);
                    } else {
                        assert(path[b] == stack0[b]);
                        assert(stack0[b] != module_name@);
                    }
                }
            }
            lemma_stack_bound(self.modules@, path);
        }
        let deps = &module.dependencies;
        let mut j: usize = 0;
        while j < deps.len()
            invariant
                self.wf(),
                idx < self.modules@.len(),
                *module == self.modules@[idx as int],
                *deps == module.dependencies,
                module.name@ == module_name@,
                module_named(self.modules@, module_name@) == *module,
                has_module(self.modules@, module_name@),
                texts(stack@) == path,
                stack@.len() == old(stack)@.len() + 1,
                path.len() <= self.modules@.len(),
                path.no_duplicates(),
                path.last() == module_name@,
                path[0] == entry,
                dep_path(self.modules@, path),
                forall|i: int| 0 <= i < path.len() ==> has_module(self.modules@, #[trigger] path[i]),
                j <= deps@.len(),
                texts(old(resolved)@).is_prefix_of(texts(resolved@)),
                !texts(resolved@).contains(module_name@),
                texts(resolved@).no_duplicates(),
                dependencies_first(self.modules@, texts(resolved@)),
                forall|i: int| 0 <= i < resolved@.len() ==> reachable(self.modules@, entry, #[trigger] texts(resolved@)[i]),
                forall|i: int, k: int|
                    0 <= i < resolved@.len() && 0 <= k < path.len() ==> #[trigger] texts(resolved@)[i] != #[trigger] path[k],
                forall|l: int| 0 <= l < j ==> texts(resolved@).contains(#[trigger] texts(deps@)[l]),
            decreases deps@.len() - j,
        {
            let ghost before = texts(resolved@);
            proof {
                let d = texts(deps@)[j as int];
                let p2 = path.push(d);
                assert forall|i: int| 0 <= i < p2.len() - 1 implies #[trigger] depends(self.modules@, p2[i], p2[i + 1]) by {
                    if i < path.len() - 1 {
                        assert(p2[i] == path[i] && p2[i + 1] == path[i + 1]);
                        assert(depends(self.modules@, path[i], path[i + 1]));
                    } else {
                        assert(p2[i] == module_name@);
                        assert(deps_of(self.modules@, module_name@) == texts(deps@));
                        assert(deps_of(self.modules@, module_name@).contains(d));
                    }
                }
                assert(texts(stack@).push(d) == p2);
                assert(deps@[j as int]@ == d);
            }
            let res = self.resolve_dependencies_recursive(deps[j].as_str(), resolved, stack, Ghost(entry));
            match res {
                Ok(()) => {},
                Err(e) => {
                    return Err(e);
                },
            }
            proof {
                assert forall|l: int| 0 <= l < j + 1 implies texts(resolved@).contains(#[trigger] texts(deps@)[l]) by {
                    if l < j {
                        let w = choose|w: int| 0 <= w < before.len() && before[w] == texts(deps@)[l];
                        assert(texts(resolved@)[w] == before[w]);
                    }
                }
                assert(!texts(resolved@).contains(module_name@)) by {
                    if texts(resolved@).contains(module_name@) {
                        let w = choose|w: int| 0 <= w < texts(resolved@).len() && texts(resolved@)[w] == module_name@;
                        assert(path[path.len() - 1] == module_name@);
                    }
                }
                assert(texts(old(resolved)@).is_prefix_of(texts(resolved@))) by {
                    assert forall|i: int| 0 <= i < texts(old(resolved)@).len() implies texts(old(resolved)@)[i] == texts(resolved@)[i] by {
                        assert(texts(old(resolved)@)[i] == before[i]);
                    }
                }
            }
            j += 1;
        }
        let ghost pre_pop = stack@;
        stack.pop();
        proof {
            assert(stack@ =~= pre_pop.drop_last());
            assert(texts(stack@) =~= texts(pre_pop).drop_last());
        }
        let ghost before = texts(resolved@);
        resolved.push(owned(module_name));
        proof {
            let after = texts(resolved@);
            assert(after =~= before.push(module_name@));
            assert(texts(stack@) =~= stack0);
            assert(after.no_duplicates()) by {
                assert forall|a: int, b: int| 0 <= a < after.len() && 0 <= b < after.len() && a != b implies after[a] != after[b] by {
                    if a < before.len() && b < before.len() {
                        assert(after[a] == before[a] && after[b] == before[b]);
                    } else if a < before.len() {
                        assert(after[a] == before[a]);
                    } else {
                        assert(after[b] == before[b]);
                    }
                }
            }
            assert forall|i: int| 0 <= i < after.len() implies has_module(self.modules@, #[trigger] after[i]) by {
                if i < before.len() {
                    assert(after[i] == before[i]);
                }
            }
            assert forall|i: int, d: Seq<char>|
                0 <= i < after.len() && #[trigger] deps_of(self.modules@, after[i]).contains(d) implies exists|j2: int|
                0 <= j2 < i && #[trigger] after[j2] == d by {
                if i < before.len() {
                    assert(after[i] == before[i]);
                    let j2 = choose|j2: int| 0 <= j2 < i && #[trigger] before[j2] == d;
                    assert(after[j2] == d);
                } else {
                    assert(after[i] == module_name@);
                    let l = choose|l: int| 0 <= l < texts(deps@).len() && texts(deps@)[l] == d;
                    assert(before.contains(texts(deps@)[l]));
                    let w = choose|w: int| 0 <= w < before.len() && before[w] == d;
                    assert(after[w] == before[w]);
                    assert(w != i) by {
                        if w == i {
                            assert(after[w] == module_name@);
                        }
                    }
                    assert(after[w] == d);
                }
            }
            assert forall|i: int| 0 <= i < after.len() implies reachable(self.modules@, entry, #[trigger] after[i]) by {
                if i < before.len() {
                    assert(after[i] == before[i]);
                } else {
                    assert(dep_path(self.modules@, path) && path[0] == entry && path.last() == module_name@);
                }
            }
            assert forall|i: int, k: int|
                0 <= i < after.len() && 0 <= k < stack@.len() implies #[trigger] after[i] != #[trigger] texts(stack@)[k] by {
                assert(texts(stack@)[k] == path[k]);
                if i < before.len() {
                    assert(after[i] == before[i]);
                } else {
                    assert(path[path.len() - 1] == module_name@);
                }
            }
            assert forall|i: int| 0 <= i < texts(old(resolved)@).len() implies texts(old(resolved)@)[i] == after[i] by {
                assert(texts(old(resolved)@)[i] == before[i]);
            }
            assert(after[after.len() - 1] == module_name@);
        }
        Ok(())
    }
}

/// A project: its module resolver, entry module and the order its modules are
/// compiled in.
#[derive(Debug)]
pub struct CompilationContext {
    pub resolver: ModuleResolver,
    pub entry_module: String,
    pub compilation_order: Vec<String>,
}

impl CompilationContext {
    /// A project with nothing resolved yet.
    pub fn new(root_path: String, entry_module: String) -> (r: CompilationContext)
        ensures
            r.resolver.wf(),
            r.resolver.modules().len() == 0,
            r.resolver.search_paths() == seq![root_path@],
            r.entry_module == entry_module,
            r.compilation_order@.len() == 0,
    {
        CompilationContext { resolver: ModuleResolver::new(root_path), entry_module, compilation_order: Vec::new() }
    }

    /// Finds the compilation order from the entry module, then checks every import;
    /// the order is kept when it was found.
    pub fn compile_project(&mut self) -> (r: Result<(), Box<CompilerError>>)
        requires
            old(self).resolver.wf(),
        ensures
            final(self).resolver == old(self).resolver,
            final(self).entry_module == old(self).entry_module,
            r is Ok <==> resolvable(old(self).resolver.modules(), old(self).entry_module@) && all_imports_ok(
                old(self).resolver.modules(),
            ),
            r is Ok ==> valid_order(old(self).resolver.modules(), old(self).entry_module@, texts(final(self).compilation_order@))
                && all_imports_ok(old(self).resolver.modules()),
            r matches Err(e) ==> {
                ||| resolution_error(old(self).resolver.modules(), old(self).entry_module@, e.kind, e.message@)
                    && final(self).compilation_order == old(self).compilation_order
                ||| valid_order(old(self).resolver.modules(), old(self).entry_module@, texts(final(self).compilation_order@))
                    && some_import_error(old(self).resolver.modules(), e.kind, e.message@)
            },
    {
        let order = match self.resolver.get_compilation_order(self.entry_module.as_str()) {
            Ok(o) => o,
            Err(e) => {
                return Err(e);
            },
        };
        self.compilation_order = order;
        self.resolver.validate_all_imports()
    }

    /// The loaded modules.
    pub fn get_modules(&self) -> (r: &Vec<Module>)
        ensures
            r@ == self.resolver.modules(),
    {
        &self.resolver.modules
    }
}

} // verus!
