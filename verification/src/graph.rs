//! The file dependency graph: who imports whom, explored breadth-first from
//! a root file up to a depth, in either direction.
use vstd::prelude::*;
use crate::error::ToolError;
use crate::pattern::{regex_compiles, regex_group1, Pattern};
use crate::text::{chars_of, owned, push_str, str_eq, string_of, strs};

verus! {

// ─── Import maps ────────────────────────────────────────────────────────────

/// A file and the files it imports.
pub struct ImportEntry {
    pub file: String,
    pub imports: Vec<String>,
}

/// Each file has one entry.
pub open spec fn map_ok(g: Seq<ImportEntry>) -> bool {
    forall|i: int, j: int| 0 <= i < j < g.len() ==> #[trigger] g[i].file@ != #[trigger] g[j].file@
}

/// `u` imports `v`.
pub open spec fn imports(g: Seq<ImportEntry>, u: Seq<char>, v: Seq<char>) -> bool {
    exists|k: int| 0 <= k < g.len() && #[trigger] g[k].file@ == u && strs(g[k].imports@).contains(v)
}

/// Files at most `k` import steps from `root`.
pub open spec fn within(g: Seq<ImportEntry>, root: Seq<char>, k: nat) -> Set<Seq<char>>
    decreases k,
{
    if k == 0 {
        set![root]
    } else {
        let w = within(g, root, (k - 1) as nat);
        w.union(Set::new(|v: Seq<char>| exists|u: Seq<char>| #[trigger] w.contains(u) && imports(g, u, v)))
    }
}

/// Files exactly `k` steps from `root`.
pub open spec fn frontier(g: Seq<ImportEntry>, root: Seq<char>, k: nat) -> Set<Seq<char>> {
    if k == 0 {
        within(g, root, 0)
    } else {
        within(g, root, k).difference(within(g, root, (k - 1) as nat))
    }
}

/// `d` is the import distance of `p` from `root`.
pub open spec fn at_distance(g: Seq<ImportEntry>, root: Seq<char>, p: Seq<char>, d: nat) -> bool {
    within(g, root, d).contains(p) && (d == 0 || !within(g, root, (d - 1) as nat).contains(p))
}

/// The edge `u -> v` is followed by a search of depth `max`: `u` is closer
/// than `max` and imports `v`.
pub open spec fn followed(g: Seq<ImportEntry>, root: Seq<char>, max: nat, u: Seq<char>, v: Seq<char>) -> bool {
    max >= 1 && within(g, root, (max - 1) as nat).contains(u) && imports(g, u, v)
}

/// Files a step from the first `j` files of `fr`.
pub open spec fn reached(g: Seq<ImportEntry>, fr: Seq<Seq<char>>, j: int, v: Seq<char>) -> bool {
    exists|q: int| 0 <= q < j && #[trigger] imports(g, fr[q], v)
}

pub proof fn lemma_within_mono(g: Seq<ImportEntry>, root: Seq<char>, a: nat, b: nat)
    requires
        a <= b,
    ensures
        within(g, root, a).subset_of(within(g, root, b)),
    decreases b - a,
{
    if a < b {
        lemma_within_mono(g, root, a, (b - 1) as nat);
    }
}

/// One more step from the frontier is all that the next level adds.
proof fn lemma_next_level(g: Seq<ImportEntry>, root: Seq<char>, k: nat, v: Seq<char>)
    ensures
        within(g, root, k + 1).contains(v) <==> (within(g, root, k).contains(v) || exists|u: Seq<char>|
            #[trigger] frontier(g, root, k).contains(u) && imports(g, u, v)),
{
    let w = within(g, root, k);
    if within(g, root, k + 1).contains(v) && !w.contains(v) {
        let u = choose|u: Seq<char>| #[trigger] w.contains(u) && imports(g, u, v);
        if k > 0 && within(g, root, (k - 1) as nat).contains(u) {
            assert(within(g, root, k).contains(v));
        } else {
            assert(frontier(g, root, k).contains(u));
        }
    }
}

// ─── Graph results ──────────────────────────────────────────────────────────

/// Parameters of `dependency_graph`.
pub struct DependencyGraphParams {
    pub path: String,
    /// Levels to explore (default 2, at most 5).
    pub depth: Option<usize>,
    /// "imports" (default) | "imported_by" | "both"
    pub direction: Option<String>,
}

/// A file of the graph.
pub struct GraphNode {
    pub path: String,
    pub language: String,
    /// How many edges of the graph lead to this file.
    pub impact_count: usize,
    /// Import steps from the root.
    pub depth: usize,
}

/// An import: `from` imports `to`.
pub struct GraphEdge {
    pub from: String,
    pub to: String,
}

/// Result of `dependency_graph`.
pub struct DependencyGraphResult {
    pub status: String,
    pub root: String,
    pub direction: String,
    pub nodes: Vec<GraphNode>,
    pub edges: Vec<GraphEdge>,
    pub total_nodes: usize,
    pub total_edges: usize,
    pub source: String,
}

pub open spec fn has_node(nodes: Seq<GraphNode>, p: Seq<char>) -> bool {
    exists|i: int| 0 <= i < nodes.len() && #[trigger] nodes[i].path@ == p
}

pub open spec fn has_edge(edges: Seq<GraphEdge>, u: Seq<char>, v: Seq<char>) -> bool {
    exists|i: int| 0 <= i < edges.len() && #[trigger] edges[i].from@ == u && edges[i].to@ == v
}

/// The files are listed breadth first: by distance from the root.
pub open spec fn depth_sorted(nodes: Seq<GraphNode>) -> bool {
    forall|a: int, b: int| 0 <= a < b < nodes.len() ==> (#[trigger] nodes[a]).depth <= (#[trigger] nodes[b]).depth
}

pub open spec fn nodes_distinct(nodes: Seq<GraphNode>) -> bool {
    forall|i: int, j: int| 0 <= i < j < nodes.len() ==> #[trigger] nodes[i].path@ != #[trigger] nodes[j].path@
}

/// The files `max` levels around `root` with their distances, each once,
/// listed by distance from the root (breadth first), and every edge
/// followed from the files closer than `max`.
pub open spec fn search_result(
    g: Seq<ImportEntry>,
    root: Seq<char>,
    max: nat,
    nodes: Seq<GraphNode>,
    edges: Seq<GraphEdge>,
) -> bool {
    &&& nodes.len() > 0 && nodes[0].path@ == root && nodes[0].depth == 0
    &&& nodes_distinct(nodes)
    &&& depth_sorted(nodes)
    &&& forall|i: int| 0 <= i < nodes.len() ==> (#[trigger] nodes[i]).depth <= max && at_distance(g, root, nodes[i].path@, nodes[i].depth as nat)
    &&& forall|p: Seq<char>| #[trigger] within(g, root, max).contains(p) <==> has_node(nodes, p)
    &&& forall|i: int| 0 <= i < edges.len() ==> followed(g, root, max, (#[trigger] edges[i]).from@, edges[i].to@)
    &&& forall|u: Seq<char>, v: Seq<char>| #[trigger] followed(g, root, max, u, v) ==> has_edge(edges, u, v)
}

// ─── Imports of a file ──────────────────────────────────────────────────────

/// `import ... from './x'` and `require('./x')` with a relative specifier.
pub const JS_IMPORT: &'static str = r#"(?:import\s+[^'"]+\s+from\s+|require\s*\(\s*)['"](\.[^'"]+)['"]"#;

/// `mod name;` declarations, one per line.
pub const RUST_MOD: &'static str = r"(?m)^\s*(?:pub\s+)?mod\s+(\w+)\s*;";

/// A relative `from .module import` at the very start of the text.
pub const PY_FROM: &'static str = r"^from\s+\.([\w.]+)\s+import";

/// The group-1 texts of `pattern` in `content`; nothing if it does not compile.
fn captures(pattern: &str, content: &str) -> (r: Vec<String>)
    ensures
        regex_compiles(pattern@) ==> strs(r@) == regex_group1(pattern@, content@),
        !regex_compiles(pattern@) ==> r@.len() == 0,
{
    match Pattern::new(pattern) {
        Ok(re) => re.group1_all(content),
        Err(_) => Vec::new(),
    }
}

/// The relative module specifiers that JavaScript or TypeScript source imports.
pub fn js_import_specifiers(content: &str) -> (r: Vec<String>)
    ensures
        regex_compiles(JS_IMPORT@) ==> strs(r@) == regex_group1(JS_IMPORT@, content@),
        !regex_compiles(JS_IMPORT@) ==> r@.len() == 0,
{
    captures(JS_IMPORT, content)
}

/// The modules that Rust source declares with `mod name;`.
pub fn rust_module_names(content: &str) -> (r: Vec<String>)
    ensures
        regex_compiles(RUST_MOD@) ==> strs(r@) == regex_group1(RUST_MOD@, content@),
        !regex_compiles(RUST_MOD@) ==> r@.len() == 0,
{
    captures(RUST_MOD, content)
}

/// Dots turned into slashes.
pub open spec fn dots_to_slashes(s: Seq<char>) -> Seq<char> {
    s.map_values(|c: char| if c == '.' { '/' } else { c })
}

/// The workspace-relative `.py` file of a relatively imported module.
pub fn python_module_file(module: &str) -> (r: String)
    ensures
        r@ == dots_to_slashes(module@) + ".py"@,
{
    let c = chars_of(module);
    let mut v: Vec<char> = Vec::new();
    let mut i: usize = 0;
    while i < c.len()
        invariant
            i <= c.len(),
            c@ == module@,
            v@ == dots_to_slashes(module@.take(i as int)),
        decreases c.len() - i,
    {
        v.push(if c[i] == '.' { '/' } else { c[i] });
        i = i + 1;
        assert(dots_to_slashes(module@.take(i as int)) =~= dots_to_slashes(module@.take(i - 1)).push(
            if module@[i - 1] == '.' { '/' } else { module@[i - 1] },
        ));
    }
    assert(module@.take(c.len() as int) =~= module@);
    push_str(&mut v, ".py");
    string_of(&v)
}

/// The module files that Python source imports relatively.
pub fn python_module_files(content: &str) -> (r: Vec<String>)
    ensures
        regex_compiles(PY_FROM@) ==> r@.len() == regex_group1(PY_FROM@, content@).len() && forall|k: int|
            0 <= k < r@.len() ==> (#[trigger] r@[k])@ == dots_to_slashes(regex_group1(PY_FROM@, content@)[k]) + ".py"@,
        !regex_compiles(PY_FROM@) ==> r@.len() == 0,
{
    let mods = captures(PY_FROM, content);
    let mut out: Vec<String> = Vec::new();
    let mut i: usize = 0;
    while i < mods.len()
        invariant
            i <= mods.len(),
            out@.len() == i,
            forall|k: int| 0 <= k < i ==> (#[trigger] out@[k])@ == dots_to_slashes(mods@[k]@) + ".py"@,
        decreases mods.len() - i,
    {
        out.push(python_module_file(mods[i].as_str()));
        i = i + 1;
    }
    proof {
        if regex_compiles(PY_FROM@) {
            assert forall|k: int| 0 <= k < out@.len() implies (#[trigger] out@[k])@ == dots_to_slashes(regex_group1(PY_FROM@, content@)[k]) + ".py"@ by {
                assert(strs(mods@)[k] == mods@[k]@);
            }
        }
    }
    out
}

/// Extensions of the files whose imports are read.
pub open spec fn import_ext(ext: Seq<char>) -> bool {
    ext == "rs"@ || ext == "ts"@ || ext == "tsx"@ || ext == "js"@ || ext == "jsx"@ || ext == "mjs"@ || ext
        == "cjs"@ || ext == "py"@
}

/// Whether files with this extension are read for imports.
pub fn is_import_ext(ext: &str) -> (r: bool)
    ensures
        r == import_ext(ext@),
{
    str_eq(ext, "rs") || str_eq(ext, "ts") || str_eq(ext, "tsx") || str_eq(ext, "js") || str_eq(ext, "jsx")
        || str_eq(ext, "mjs") || str_eq(ext, "cjs") || str_eq(ext, "py")
}

// ─── Search ─────────────────────────────────────────────────────────────────

/// The files `u` imports.
pub fn lookup_imports(g: &Vec<ImportEntry>, u: &str) -> (r: Vec<String>)
    requires
        map_ok(g@),
    ensures
        forall|v: Seq<char>| #[trigger] strs(r@).contains(v) <==> imports(g@, u@, v),
{
    let mut k: usize = 0;
    while k < g.len()
        invariant
            k <= g.len(),
            map_ok(g@),
            forall|q: int| 0 <= q < k ==> (#[trigger] g@[q]).file@ != u@,
        decreases g.len() - k,
    {
        if str_eq(g[k].file.as_str(), u) {
            let r = crate::text::strings_clone(&g[k].imports);
            assert forall|v: Seq<char>| #[trigger] strs(r@).contains(v) <==> imports(g@, u@, v) by {
                if imports(g@, u@, v) {
                    let q = choose|q: int| 0 <= q < g@.len() && #[trigger] g@[q].file@ == u@ && strs(g@[q].imports@).contains(v);
                    if q != k {
                        if q < k {
                            assert(g@[q].file@ != g@[k as int].file@);
                        } else {
                            assert(g@[k as int].file@ != g@[q].file@);
                        }
                    }
                }
            }
            return r;
        }
        k = k + 1;
    }
    let r: Vec<String> = Vec::new();
    assert forall|v: Seq<char>| #[trigger] strs(r@).contains(v) <==> imports(g@, u@, v) by {
        if imports(g@, u@, v) {
            let q = choose|q: int| 0 <= q < g@.len() && #[trigger] g@[q].file@ == u@ && strs(g@[q].imports@).contains(v);
        }
        assert(strs(r@).len() == 0);
    }
    r
}

/// Whether a node for `p` exists.
fn find_node(nodes: &Vec<GraphNode>, p: &str) -> (r: bool)
    ensures
        r == has_node(nodes@, p@),
{
    let mut i: usize = 0;
    while i < nodes.len()
        invariant
            i <= nodes.len(),
            forall|q: int| 0 <= q < i ==> (#[trigger] nodes@[q]).path@ != p@,
        decreases nodes.len() - i,
    {
        if str_eq(nodes[i].path.as_str(), p) {
            return true;
        }
        i = i + 1;
    }
    false
}

/// Breadth-first search from `root` over `max` levels: the files found with
/// their distances, and the imports followed from files closer than `max`.
pub fn search(g: &Vec<ImportEntry>, root: &str, max: usize) -> (r: (Vec<GraphNode>, Vec<GraphEdge>))
    requires
        map_ok(g@),
        max < usize::MAX,
    ensures
        search_result(g@, root@, max as nat, r.0@, r.1@),
{
    let mut nodes: Vec<GraphNode> = Vec::new();
    nodes.push(GraphNode { path: owned(root), language: owned(""), impact_count: 0, depth: 0 });
    let mut edges: Vec<GraphEdge> = Vec::new();
    let mut fr: Vec<String> = Vec::new();
    fr.push(owned(root));
    let mut level: usize = 0;
    proof {
        assert forall|p: Seq<char>| #[trigger] within(g@, root@, 0).contains(p) <==> has_node(nodes@, p) by {
            if p == root@ {
                assert(nodes@[0].path@ == p);
            }
        }
        assert forall|p: Seq<char>| #[trigger] strs(fr@).contains(p) <==> frontier(g@, root@, 0).contains(p) by {
            if p == root@ {
                assert(strs(fr@)[0] == p);
            }
        }
    }
    while level < max
        invariant
            level <= max < usize::MAX,
            map_ok(g@),
            nodes@.len() > 0 && nodes@[0].path@ == root@ && nodes@[0].depth == 0,
                    depth_sorted(nodes@),
            nodes_distinct(nodes@),
            forall|i: int| 0 <= i < nodes@.len() ==> (#[trigger] nodes@[i]).depth <= level && at_distance(g@, root@, nodes@[i].path@, nodes@[i].depth as nat),
            forall|p: Seq<char>| #[trigger] within(g@, root@, level as nat).contains(p) <==> has_node(nodes@, p),
            forall|p: Seq<char>| #[trigger] strs(fr@).contains(p) <==> frontier(g@, root@, level as nat).contains(p),
            forall|i: int| 0 <= i < edges@.len() ==> followed(g@, root@, level as nat, (#[trigger] edges@[i]).from@, edges@[i].to@),
            forall|u: Seq<char>, v: Seq<char>| #[trigger] followed(g@, root@, level as nat, u, v) ==> has_edge(edges@, u, v),
        decreases max - level,
    {
        let ghost L = level as nat;
        let ghost fs = strs(fr@);
        let mut next: Vec<String> = Vec::new();
        let mut j: usize = 0;
        while j < fr.len()
            invariant
                level < max < usize::MAX,
                L == level as nat,
                fs == strs(fr@),
                j <= fr.len(),
                map_ok(g@),
                nodes@.len() > 0 && nodes@[0].path@ == root@ && nodes@[0].depth == 0,
                    depth_sorted(nodes@),
                nodes_distinct(nodes@),
                forall|p: Seq<char>| #[trigger] fs.contains(p) <==> frontier(g@, root@, L).contains(p),
                forall|i: int| 0 <= i < nodes@.len() ==> (#[trigger] nodes@[i]).depth <= level + 1 && at_distance(g@, root@, nodes@[i].path@, nodes@[i].depth as nat),
                forall|p: Seq<char>| #[trigger] has_node(nodes@, p) <==> (within(g@, root@, L).contains(p) || reached(g@, fs, j as int, p)),
                forall|p: Seq<char>| #[trigger] strs(next@).contains(p) <==> (reached(g@, fs, j as int, p) && !within(g@, root@, L).contains(p)),
                forall|i: int| 0 <= i < edges@.len() ==> (followed(g@, root@, L, (#[trigger] edges@[i]).from@, edges@[i].to@)
                    || (exists|q: int| 0 <= q < j && fs[q] == edges@[i].from@ && imports(g@, edges@[i].from@, edges@[i].to@))),
                forall|u: Seq<char>, v: Seq<char>| #[trigger] followed(g@, root@, L, u, v) ==> has_edge(edges@, u, v),
                forall|q: int, v: Seq<char>| 0 <= q < j && #[trigger] imports(g@, fs[q], v) ==> has_edge(edges@, fs[q], v),
            decreases fr.len() - j,
        {
            let u = &fr[j];
            let ghost uv = fs[j as int];
            assert(u@ == uv);
            assert(fs.contains(uv));
            let imps = lookup_imports(g, u.as_str());
            let ghost is = strs(imps@);
            let mut k: usize = 0;
            while k < imps.len()
                invariant
                    level < max < usize::MAX,
                    L == level as nat,
                    fs == strs(fr@),
                    j < fr.len(),
                    u@ == uv,
                    uv == fs[j as int],
                    frontier(g@, root@, L).contains(uv),
                    is == strs(imps@),
                    forall|v: Seq<char>| #[trigger] is.contains(v) <==> imports(g@, uv, v),
                    k <= imps.len(),
                    map_ok(g@),
                    nodes@.len() > 0 && nodes@[0].path@ == root@ && nodes@[0].depth == 0,
                    depth_sorted(nodes@),
                    nodes_distinct(nodes@),
                    forall|p: Seq<char>| #[trigger] fs.contains(p) <==> frontier(g@, root@, L).contains(p),
                    forall|i: int| 0 <= i < nodes@.len() ==> (#[trigger] nodes@[i]).depth <= level + 1 && at_distance(g@, root@, nodes@[i].path@, nodes@[i].depth as nat),
                    forall|p: Seq<char>| #[trigger] has_node(nodes@, p) <==> (within(g@, root@, L).contains(p) || reached(g@, fs, j as int, p) || is.take(k as int).contains(p)),
                    forall|p: Seq<char>| #[trigger] strs(next@).contains(p) <==> ((reached(g@, fs, j as int, p) || is.take(k as int).contains(p)) && !within(g@, root@, L).contains(p)),
                    forall|i: int| 0 <= i < edges@.len() ==> (followed(g@, root@, L, (#[trigger] edges@[i]).from@, edges@[i].to@)
                        || (exists|q: int| 0 <= q <= j && fs[q] == edges@[i].from@ && imports(g@, edges@[i].from@, edges@[i].to@))),
                    forall|a: Seq<char>, v: Seq<char>| #[trigger] followed(g@, root@, L, a, v) ==> has_edge(edges@, a, v),
                    forall|q: int, v: Seq<char>| 0 <= q < j && #[trigger] imports(g@, fs[q], v) ==> has_edge(edges@, fs[q], v),
                    forall|v: Seq<char>| #[trigger] is.take(k as int).contains(v) ==> has_edge(edges@, uv, v),
                decreases imps.len() - k,
            {
                let v = &imps[k];
                let ghost vv = is[k as int];
                assert(v@ == vv);
                assert(is.contains(vv));
                assert(is.take(k + 1) =~= is.take(k as int).push(vv));
                assert forall|p: Seq<char>| #[trigger] is.take(k + 1).contains(p) <==> (is.take(k as int).contains(p) || p == vv) by {
                    let t = is.take(k as int);
                    if is.take(k + 1).contains(p) && p != vv {
                        let t1 = is.take(k + 1);
                        let i = choose|i: int| 0 <= i < t1.len() && #[trigger] t1[i] == p;
                        assert(t[i] == p);
                    }
                    if t.contains(p) {
                        let i = choose|i: int| 0 <= i < t.len() && #[trigger] t[i] == p;
                        assert(is.take(k + 1)[i] == p);
                    }
                    if p == vv {
                        assert(is.take(k + 1)[k as int] == p);
                    }
                }
                let ghost eb = edges@;
                edges.push(GraphEdge { from: u.clone(), to: v.clone() });
                assert(edges@[eb.len() as int].from@ == uv && edges@[eb.len() as int].to@ == vv);
                let known = find_node(&nodes, v.as_str());
                let ghost xb0 = strs(next@);
                if known {
                    assert forall|p: Seq<char>| #[trigger] strs(next@).contains(p) <==> ((reached(g@, fs, j as int, p) || is.take(k + 1).contains(p)) && !within(g@, root@, L).contains(p)) by {
                        if p == vv {
                            assert(has_node(nodes@, vv));
                        }
                    }
                }
                if !known {
                    let ghost nb = nodes@;
                    let ghost xb = strs(next@);
                    proof {
                        lemma_next_level(g@, root@, L, vv);
                        assert(!within(g@, root@, L).contains(vv));
                        assert(within(g@, root@, L + 1).contains(vv));
                    }
                    nodes.push(GraphNode { path: v.clone(), language: owned(""), impact_count: 0, depth: level + 1 });
                    next.push(v.clone());
                    assert(strs(next@) =~= xb.push(vv));
                    assert forall|p: Seq<char>| #[trigger] strs(next@).contains(p) <==> (xb.contains(p) || p == vv) by {
                        let n2 = strs(next@);
                        if n2.contains(p) && p != vv {
                            let i = choose|i: int| 0 <= i < n2.len() && #[trigger] n2[i] == p;
                            assert(xb[i] == p);
                        }
                        if xb.contains(p) {
                            let i = choose|i: int| 0 <= i < xb.len() && #[trigger] xb[i] == p;
                            assert(n2[i] == p);
                        }
                        if p == vv {
                            assert(n2[xb.len() as int] == p);
                        }
                    }
                    assert forall|a: int, b: int| 0 <= a < b < nodes@.len() implies (#[trigger] nodes@[a]).depth <= (#[trigger] nodes@[b]).depth by {
                        if b < nb.len() {
                            assert(nodes@[a] == nb[a] && nodes@[b] == nb[b]);
                        } else {
                            assert(nodes@[a] == nb[a]);
                        }
                    }
                    assert forall|a: int, b: int| 0 <= a < b < nodes@.len() implies #[trigger] nodes@[a].path@ != #[trigger] nodes@[b].path@ by {
                        if b < nb.len() {
                            assert(nb[a].path@ != nb[b].path@);
                        } else {
                            assert(nodes@[a] == nb[a]);
                        }
                    }
                    assert forall|p: Seq<char>| #[trigger] has_node(nodes@, p) <==> (has_node(nb, p) || p == vv) by {
                        if has_node(nodes@, p) {
                            let i = choose|i: int| 0 <= i < nodes@.len() && #[trigger] nodes@[i].path@ == p;
                            if i < nb.len() {
                                assert(nb[i] == nodes@[i]);
                            }
                        }
                        if has_node(nb, p) {
                            let i = choose|i: int| 0 <= i < nb.len() && #[trigger] nb[i].path@ == p;
                            assert(nodes@[i] == nb[i]);
                        }
                        if p == vv {
                            assert(nodes@[nb.len() as int].path@ == p);
                        }
                    }
                }
                assert forall|a: Seq<char>, w: Seq<char>| #[trigger] followed(g@, root@, L, a, w) implies has_edge(edges@, a, w) by {
                    assert(has_edge(eb, a, w));
                    let i = choose|i: int| 0 <= i < eb.len() && #[trigger] eb[i].from@ == a && eb[i].to@ == w;
                    assert(edges@[i] == eb[i]);
                }
                assert forall|q: int, w: Seq<char>| 0 <= q < j && #[trigger] imports(g@, fs[q], w) implies has_edge(edges@, fs[q], w) by {
                    assert(has_edge(eb, fs[q], w));
                    let i = choose|i: int| 0 <= i < eb.len() && #[trigger] eb[i].from@ == fs[q] && eb[i].to@ == w;
                    assert(edges@[i] == eb[i]);
                }
                assert forall|w: Seq<char>| #[trigger] is.take(k + 1).contains(w) implies has_edge(edges@, uv, w) by {
                    if w != vv {
                        assert(is.take(k as int).contains(w)) by {
                            let t = is.take(k + 1);
                            let i = choose|i: int| 0 <= i < t.len() && #[trigger] t[i] == w;
                            assert(is.take(k as int)[i] == w);
                        }
                        let i = choose|i: int| 0 <= i < eb.len() && #[trigger] eb[i].from@ == uv && eb[i].to@ == w;
                        assert(edges@[i] == eb[i]);
                    }
                }
                assert forall|i: int| 0 <= i < edges@.len() implies (followed(g@, root@, L, (#[trigger] edges@[i]).from@, edges@[i].to@)
                    || (exists|q: int| 0 <= q <= j && fs[q] == edges@[i].from@ && imports(g@, edges@[i].from@, edges@[i].to@))) by {
                    if i < eb.len() {
                        assert(edges@[i] == eb[i]);
                    } else {
                        assert(fs[j as int] == edges@[i].from@);
                    }
                }
                k = k + 1;
            }
            assert(is.take(imps.len() as int) =~= is);
            proof {
                assert forall|p: Seq<char>| reached(g@, fs, j + 1, p) <==> (reached(g@, fs, j as int, p) || is.contains(p)) by {
                    if reached(g@, fs, j + 1, p) {
                        let q = choose|q: int| 0 <= q < j + 1 && #[trigger] imports(g@, fs[q], p);
                        if q == j {
                            assert(is.contains(p));
                        }
                    }
                    if is.contains(p) {
                        assert(imports(g@, fs[j as int], p));
                    }
                }
                assert forall|i: int| 0 <= i < edges@.len() implies (followed(g@, root@, L, (#[trigger] edges@[i]).from@, edges@[i].to@)
                    || (exists|q: int| 0 <= q < j + 1 && fs[q] == edges@[i].from@ && imports(g@, edges@[i].from@, edges@[i].to@))) by {
                }
                assert forall|q: int, v: Seq<char>| 0 <= q < j + 1 && #[trigger] imports(g@, fs[q], v) implies has_edge(edges@, fs[q], v) by {
                    if q == j {
                        assert(is.contains(v));
                    }
                }
            }
            j = j + 1;
        }
        proof {
            assert forall|p: Seq<char>| #[trigger] within(g@, root@, L + 1).contains(p) <==> has_node(nodes@, p) by {
                lemma_next_level(g@, root@, L, p);
                if reached(g@, fs, fr.len() as int, p) {
                    let q = choose|q: int| 0 <= q < fr.len() && #[trigger] imports(g@, fs[q], p);
                    assert(fs.contains(fs[q]));
                    assert(frontier(g@, root@, L).contains(fs[q]));
                }
                if exists|u: Seq<char>| #[trigger] frontier(g@, root@, L).contains(u) && imports(g@, u, p) {
                    let u = choose|u: Seq<char>| #[trigger] frontier(g@, root@, L).contains(u) && imports(g@, u, p);
                    assert(fs.contains(u));
                    let q = choose|q: int| 0 <= q < fs.len() && fs[q] == u;
                    assert(imports(g@, fs[q], p));
                }
            }
            assert forall|p: Seq<char>| #[trigger] strs(next@).contains(p) <==> frontier(g@, root@, L + 1).contains(p) by {
                lemma_next_level(g@, root@, L, p);
                if reached(g@, fs, fr.len() as int, p) {
                    let q = choose|q: int| 0 <= q < fr.len() && #[trigger] imports(g@, fs[q], p);
                    assert(fs.contains(fs[q]));
                }
                if exists|u: Seq<char>| #[trigger] frontier(g@, root@, L).contains(u) && imports(g@, u, p) {
                    let u = choose|u: Seq<char>| #[trigger] frontier(g@, root@, L).contains(u) && imports(g@, u, p);
                    assert(fs.contains(u));
                    let q = choose|q: int| 0 <= q < fs.len() && fs[q] == u;
                    assert(imports(g@, fs[q], p));
                }
            }
            lemma_within_mono(g@, root@, L, L + 1);
            if L > 0 {
                lemma_within_mono(g@, root@, (L - 1) as nat, L);
            }
            assert forall|i: int| 0 <= i < edges@.len() implies followed(g@, root@, L + 1, (#[trigger] edges@[i]).from@, edges@[i].to@) by {
                if !followed(g@, root@, L, edges@[i].from@, edges@[i].to@) {
                    let q = choose|q: int| 0 <= q < fr.len() && fs[q] == edges@[i].from@ && imports(g@, edges@[i].from@, edges@[i].to@);
                    assert(fs.contains(fs[q]));
                }
            }
            assert forall|a: Seq<char>, v: Seq<char>| #[trigger] followed(g@, root@, L + 1, a, v) implies has_edge(edges@, a, v) by {
                if !(L >= 1 && within(g@, root@, (L - 1) as nat).contains(a)) {
                    assert(frontier(g@, root@, L).contains(a));
                    assert(fs.contains(a));
                    let q = choose|q: int| 0 <= q < fs.len() && fs[q] == a;
                    assert(imports(g@, fs[q], v));
                } else {
                    assert(followed(g@, root@, L, a, v));
                }
            }
        }
        fr = next;
        level = level + 1;
    }
    (nodes, edges)
}

// ─── Reverse map ────────────────────────────────────────────────────────────

/// `r` holds the imports of `g` reversed: `v` lists `u` when `u` imports `v`.
pub open spec fn reverse_of(g: Seq<ImportEntry>, r: Seq<ImportEntry>) -> bool {
    &&& map_ok(r)
    &&& forall|u: Seq<char>, v: Seq<char>| #[trigger] imports(r, v, u) <==> imports(g, u, v)
}

/// Records that `key` lists `val`.
fn add_import(r: &mut Vec<ImportEntry>, key: &String, val: &String)
    requires
        map_ok(old(r)@),
    ensures
        map_ok(final(r)@),
        forall|a: Seq<char>, b: Seq<char>| #[trigger] imports(final(r)@, a, b) <==> (imports(old(r)@, a, b) || (a == key@ && b == val@)),
{
    let ghost before = r@;
    let mut k: usize = 0;
    while k < r.len()
        invariant
            k <= r.len(),
            r@ == before,
            before == old(r)@,
            map_ok(before),
            forall|q: int| 0 <= q < k ==> (#[trigger] r@[q]).file@ != key@,
        decreases r.len() - k,
    {
        if str_eq(r[k].file.as_str(), key.as_str()) {
            let mut imps = crate::text::strings_clone(&r[k].imports);
            let ghost ib = strs(imps@);
            let mut present = false;
            let mut q: usize = 0;
            while q < imps.len()
                invariant
                    q <= imps.len(),
                    present ==> strs(imps@).contains(val@),
                decreases imps.len() - q,
            {
                if str_eq(imps[q].as_str(), val.as_str()) {
                    assert(strs(imps@)[q as int] == val@);
                    present = true;
                }
                q = q + 1;
            }
            if !present {
                imps.push(val.clone());
            }
            let ghost ia = strs(imps@);
            assert forall|b: Seq<char>| #[trigger] ia.contains(b) <==> (ib.contains(b) || b == val@) by {
                if !present {
                    assert(ia =~= ib.push(val@));
                    if ia.contains(b) && b != val@ {
                        let i = choose|i: int| 0 <= i < ia.len() && #[trigger] ia[i] == b;
                        assert(ib[i] == b);
                    }
                    if ib.contains(b) {
                        let i = choose|i: int| 0 <= i < ib.len() && #[trigger] ib[i] == b;
                        assert(ia[i] == b);
                    }
                    if b == val@ {
                        assert(ia[ib.len() as int] == b);
                    }
                }
            }
            let f = r[k].file.clone();
            r.set(k, ImportEntry { file: f, imports: imps });
            assert forall|a: int, b: int| 0 <= a < b < r@.len() implies #[trigger] r@[a].file@ != #[trigger] r@[b].file@ by {
                assert(before[a].file@ != before[b].file@);
            }
            assert forall|a: Seq<char>, b: Seq<char>| #[trigger] imports(r@, a, b) <==> (imports(before, a, b) || (a == key@ && b == val@)) by {
                if imports(r@, a, b) {
                    let i = choose|i: int| 0 <= i < r@.len() && #[trigger] r@[i].file@ == a && strs(r@[i].imports@).contains(b);
                    if i != k {
                        assert(before[i] == r@[i]);
                    } else if b != val@ {
                        assert(ib.contains(b));
                        assert(before[k as int].file@ == a);
                        assert(strs(before[k as int].imports@) == ib);
                    }
                }
                if imports(before, a, b) {
                    let i = choose|i: int| 0 <= i < before.len() && #[trigger] before[i].file@ == a && strs(before[i].imports@).contains(b);
                    if i != k {
                        assert(r@[i] == before[i]);
                    } else {
                        assert(ia.contains(b));
                        assert(r@[k as int].file@ == a);
                    }
                }
                if a == key@ && b == val@ {
                    assert(ia.contains(b));
                    assert(r@[k as int].file@ == a);
                }
            }
            return;
        }
        k = k + 1;
    }
    let mut imps: Vec<String> = Vec::new();
    imps.push(val.clone());
    r.push(ImportEntry { file: key.clone(), imports: imps });
    assert(strs(r@[before.len() as int].imports@)[0] == val@);
    assert forall|a: int, b: int| 0 <= a < b < r@.len() implies #[trigger] r@[a].file@ != #[trigger] r@[b].file@ by {
        if b < before.len() {
            assert(before[a].file@ != before[b].file@);
        } else {
            assert(r@[a] == before[a]);
        }
    }
    assert forall|a: Seq<char>, b: Seq<char>| #[trigger] imports(r@, a, b) <==> (imports(before, a, b) || (a == key@ && b == val@)) by {
        if imports(r@, a, b) {
            let i = choose|i: int| 0 <= i < r@.len() && #[trigger] r@[i].file@ == a && strs(r@[i].imports@).contains(b);
            if i < before.len() {
                assert(before[i] == r@[i]);
            } else {
                let t = strs(r@[i].imports@);
                let x = choose|x: int| 0 <= x < t.len() && #[trigger] t[x] == b;
            }
        }
        if imports(before, a, b) {
            let i = choose|i: int| 0 <= i < before.len() && #[trigger] before[i].file@ == a && strs(before[i].imports@).contains(b);
            assert(r@[i] == before[i]);
        }
        if a == key@ && b == val@ {
            assert(r@[before.len() as int].file@ == a);
        }
    }
}

/// The imports of `g` reversed.
pub fn reverse_map(g: &Vec<ImportEntry>) -> (r: Vec<ImportEntry>)
    requires
        map_ok(g@),
    ensures
        reverse_of(g@, r@),
{
    let mut r: Vec<ImportEntry> = Vec::new();
    let mut i: usize = 0;
    while i < g.len()
        invariant
            i <= g.len(),
            map_ok(g@),
            map_ok(r@),
            forall|u: Seq<char>, v: Seq<char>| #[trigger] imports(r@, v, u) <==> exists|q: int|
                0 <= q < i && #[trigger] g@[q].file@ == u && strs(g@[q].imports@).contains(v),
        decreases g.len() - i,
    {
        let e = &g[i];
        let ghost is = strs(e.imports@);
        let mut k: usize = 0;
        while k < e.imports.len()
            invariant
                i < g.len(),
                k <= e.imports.len(),
                is == strs(e.imports@),
                map_ok(r@),
                forall|u: Seq<char>, v: Seq<char>| #[trigger] imports(r@, v, u) <==> ((exists|q: int|
                    0 <= q < i && #[trigger] g@[q].file@ == u && strs(g@[q].imports@).contains(v)) || (u == e.file@ && is.take(k as int).contains(v))),
            decreases e.imports.len() - k,
        {
            add_import(&mut r, &e.imports[k], &e.file);
            assert forall|v: Seq<char>| #[trigger] is.take(k + 1).contains(v) <==> (is.take(k as int).contains(v) || v == is[k as int]) by {
                let t = is.take(k as int);
                let t1 = is.take(k + 1);
                if t1.contains(v) && v != is[k as int] {
                    let x = choose|x: int| 0 <= x < t1.len() && #[trigger] t1[x] == v;
                    assert(t[x] == v);
                }
                if t.contains(v) {
                    let x = choose|x: int| 0 <= x < t.len() && #[trigger] t[x] == v;
                    assert(t1[x] == v);
                }
                if v == is[k as int] {
                    assert(t1[k as int] == v);
                }
            }
            k = k + 1;
        }
        assert(is.take(e.imports.len() as int) =~= is);
        assert forall|u: Seq<char>, v: Seq<char>| #[trigger] imports(r@, v, u) <==> exists|q: int|
            0 <= q < i + 1 && #[trigger] g@[q].file@ == u && strs(g@[q].imports@).contains(v) by {
            if u == e.file@ && is.contains(v) {
                assert(g@[i as int].file@ == u);
            }
            if exists|q: int| 0 <= q < i + 1 && #[trigger] g@[q].file@ == u && strs(g@[q].imports@).contains(v) {
                let q = choose|q: int| 0 <= q < i + 1 && #[trigger] g@[q].file@ == u && strs(g@[q].imports@).contains(v);
                if q == i {
                    assert(u == e.file@);
                }
            }
        }
        i = i + 1;
    }
    assert forall|u: Seq<char>, v: Seq<char>| #[trigger] imports(r@, v, u) <==> imports(g@, u, v) by {
        if imports(g@, u, v) {
            let q = choose|q: int| 0 <= q < g@.len() && #[trigger] g@[q].file@ == u && strs(g@[q].imports@).contains(v);
        }
    }
    r
}

// ─── The tool ───────────────────────────────────────────────────────────────

/// The nodes of `n2` whose file is not among `n1`, in order.
pub open spec fn new_nodes(n1: Seq<GraphNode>, n2: Seq<GraphNode>) -> Seq<GraphNode>
    decreases n2.len(),
{
    if n2.len() == 0 {
        seq![]
    } else {
        let p = new_nodes(n1, n2.drop_last());
        if has_node(n1, n2.last().path@) {
            p
        } else {
            p.push(n2.last())
        }
    }
}

/// The same files at the same depths, in the same order.
pub open spec fn same_files(a: Seq<GraphNode>, b: Seq<GraphNode>) -> bool {
    a.len() == b.len() && forall|i: int| 0 <= i < a.len() ==> (#[trigger] a[i]).path == b[i].path && a[i].depth == b[i].depth
}

/// Number of edges leading to `p`.
pub open spec fn edges_to(edges: Seq<GraphEdge>, p: Seq<char>) -> nat
    decreases edges.len(),
{
    if edges.len() == 0 {
        0
    } else {
        edges_to(edges.drop_last(), p) + if edges.last().to@ == p { 1nat } else { 0nat }
    }
}

/// The edges of a search over the reversed imports, turned back so that
/// each runs from the importer to the file it imports.
pub open spec fn flipped(e: Seq<GraphEdge>) -> Seq<GraphEdge> {
    e.map_values(|x: GraphEdge| GraphEdge { from: x.to, to: x.from })
}

/// Every edge runs from a file to one it imports.
pub open spec fn edges_import(g: Seq<ImportEntry>, edges: Seq<GraphEdge>) -> bool {
    forall|i: int| 0 <= i < edges.len() ==> imports(g, (#[trigger] edges[i]).from@, edges[i].to@)
}

fn flip_edges(e: Vec<GraphEdge>) -> (r: Vec<GraphEdge>)
    ensures
        r@ == flipped(e@),
{
    let ghost orig = e@;
    assert(orig.len() == e.len());
    let mut rest = e;
    let mut out: Vec<GraphEdge> = Vec::new();
    let mut i: usize = 0;
    while rest.len() > 0
        invariant
            i <= orig.len(),
            orig.len() <= usize::MAX,
            orig.len() == i + rest.len(),
            rest@ == orig.skip(i as int),
            out@ == flipped(orig.take(i as int)),
        decreases rest.len(),
    {
        let ghost r0 = rest@;
        assert(r0[0] == orig[i as int]);
        let x = rest.remove(0);
        assert(rest@ =~= orig.skip(i as int + 1));
        out.push(GraphEdge { from: x.to, to: x.from });
        assert(out@ =~= flipped(orig.take(i as int + 1)));
        i = i + 1;
    }
    assert(orig.take(i as int) =~= orig);
    out
}

/// Edges of a search follow imports of the map searched.
proof fn lemma_search_edges_import(g: Seq<ImportEntry>, root: Seq<char>, max: nat, nodes: Seq<GraphNode>, e: Seq<GraphEdge>)
    requires
        search_result(g, root, max, nodes, e),
    ensures
        edges_import(g, e),
{
    assert forall|i: int| 0 <= i < e.len() implies imports(g, (#[trigger] e[i]).from@, e[i].to@) by {
        assert(followed(g, root, max, e[i].from@, e[i].to@));
    }
}

/// Edges of a search over the reversed imports, turned back, follow imports.
proof fn lemma_flipped_edges_import(g: Seq<ImportEntry>, r: Seq<ImportEntry>, root: Seq<char>, max: nat, nodes: Seq<GraphNode>, e: Seq<GraphEdge>)
    requires
        reverse_of(g, r),
        search_result(r, root, max, nodes, e),
    ensures
        edges_import(g, flipped(e)),
{
    lemma_search_edges_import(r, root, max, nodes, e);
    assert forall|i: int| 0 <= i < flipped(e).len() implies imports(g, (#[trigger] flipped(e)[i]).from@, flipped(e)[i].to@) by {
        assert(imports(r, e[i].from@, e[i].to@));
        assert(flipped(e)[i].from == e[i].to && flipped(e)[i].to == e[i].from);
    }
}

/// The graph of a direction: the search over the imports, over the
/// imports reversed, or both searches with the second's new files and all
/// edges appended.
pub open spec fn graph_of(
    g: Seq<ImportEntry>,
    root: Seq<char>,
    max: nat,
    dir: Seq<char>,
    nodes: Seq<GraphNode>,
    edges: Seq<GraphEdge>,
) -> bool {
    if dir == "imported_by"@ {
        exists|r: Seq<ImportEntry>, e: Seq<GraphEdge>|
            reverse_of(g, r) && #[trigger] search_result(r, root, max, nodes, e) && edges == flipped(e)
    } else if dir == "both"@ {
        exists|r: Seq<ImportEntry>, n1: Seq<GraphNode>, e1: Seq<GraphEdge>, n2: Seq<GraphNode>, e2: Seq<GraphEdge>|
            reverse_of(g, r) && #[trigger] search_result(g, root, max, n1, e1) && #[trigger] search_result(r, root, max, n2, e2)
                && same_files(nodes, n1 + new_nodes(n1, n2)) && edges == e1 + flipped(e2)
    } else {
        search_result(g, root, max, nodes, edges)
    }
}

/// `depth.unwrap_or(2).min(5)`.
pub open spec fn graph_depth(d: Option<usize>) -> nat {
    let n: nat = match d {
        Some(x) => x as nat,
        None => 2,
    };
    if n < 5 { n } else { 5 }
}

/// `direction.unwrap_or("imports")`.
pub open spec fn graph_direction(d: Option<String>) -> Seq<char> {
    match d {
        Some(x) => x@,
        None => "imports"@,
    }
}

fn append_new_nodes(n1: &mut Vec<GraphNode>, n2: &Vec<GraphNode>)
    ensures
        final(n1)@ == old(n1)@ + new_nodes(old(n1)@, n2@),
{
    let ghost base = n1@;
    let base_len = n1.len();
    let mut i: usize = 0;
    while i < n2.len()
        invariant
            i <= n2.len(),
            base_len == base.len(),
            n1@ == base + new_nodes(base, n2@.take(i as int)),
        decreases n2.len() - i,
    {
        assert(n2@.take(i + 1).drop_last() =~= n2@.take(i as int));
        assert(n2@.take(i + 1).last() == n2@[i as int]);
        let mut seen = false;
        let mut k: usize = 0;
        while k < base_len
            invariant
                k <= base_len,
                i < n2.len(),
                base_len == base.len(),
                base.len() <= n1@.len(),
                n1@.take(base.len() as int) == base,
                seen == exists|q: int| 0 <= q < k && #[trigger] base[q].path@ == n2@[i as int].path@,
            decreases base_len - k,
        {
            assert(n1@[k as int] == base[k as int]);
            if str_eq(n1[k].path.as_str(), n2[i].path.as_str()) {
                seen = true;
            }
            k = k + 1;
        }
        assert(seen == has_node(base, n2@[i as int].path@));
        if !seen {
            n1.push(n2[i].clone());
        }
        i = i + 1;
    }
    assert(n2@.take(n2.len() as int) =~= n2@);
}

impl Clone for GraphNode {
    fn clone(&self) -> (r: Self)
        ensures
            r == *self,
    {
        GraphNode {
            path: self.path.clone(),
            language: self.language.clone(),
            impact_count: self.impact_count,
            depth: self.depth,
        }
    }
}

impl Clone for GraphEdge {
    fn clone(&self) -> (r: Self)
        ensures
            r == *self,
    {
        GraphEdge { from: self.from.clone(), to: self.to.clone() }
    }
}

fn count_edges_to(edges: &Vec<GraphEdge>, p: &str) -> (n: usize)
    ensures
        n == edges_to(edges@, p@),
{
    let mut n: usize = 0;
    let mut i: usize = 0;
    while i < edges.len()
        invariant
            i <= edges.len(),
            n == edges_to(edges@.take(i as int), p@),
            n <= i,
        decreases edges.len() - i,
    {
        assert(edges@.take(i + 1).drop_last() =~= edges@.take(i as int));
        if str_eq(edges[i].to.as_str(), p) {
            n = n + 1;
        }
        i = i + 1;
    }
    assert(edges@.take(edges.len() as int) =~= edges@);
    n
}

/// The position of the last `c` in `s`, or -1.
pub open spec fn last_index_of(s: Seq<char>, c: char) -> int
    decreases s.len(),
{
    if s.len() == 0 {
        -1
    } else if s.last() == c {
        s.len() - 1
    } else {
        last_index_of(s.drop_last(), c)
    }
}

/// The extension of a file path: the text after the last `.` of its file
/// name, when something stands before that `.`; else empty.
pub open spec fn path_extension(p: Seq<char>) -> Seq<char> {
    let f = p.skip(last_index_of(p, '/') + 1);
    let d = last_index_of(f, '.');
    if d > 0 {
        f.skip(d + 1)
    } else {
        seq![]
    }
}

/// The language id listed for extension `ext`: the first entry for it, or
/// empty when none is listed.
pub open spec fn language_for(table: Seq<(Seq<char>, Seq<char>)>, ext: Seq<char>) -> Seq<char>
    decreases table.len(),
{
    if table.len() == 0 {
        seq![]
    } else if table[0].0 == ext {
        table[0].1
    } else {
        language_for(table.drop_first(), ext)
    }
}

pub open spec fn pairs_view(t: Seq<(String, String)>) -> Seq<(Seq<char>, Seq<char>)> {
    t.map_values(|e: (String, String)| (e.0@, e.1@))
}

/// The position of the last `c` in `v`, if any.
fn last_index(v: &Vec<char>, c: char) -> (r: Option<usize>)
    ensures
        match r {
            Some(i) => i < v.len() && i == last_index_of(v@, c),
            None => last_index_of(v@, c) == -1,
        },
{
    let mut j: usize = v.len();
    assert(v@.take(j as int) =~= v@);
    while j > 0
        invariant
            j <= v.len(),
            last_index_of(v@, c) == last_index_of(v@.take(j as int), c),
        decreases j,
    {
        let ghost t = v@.take(j as int);
        assert(t.drop_last() =~= v@.take(j - 1));
        if v[j - 1] == c {
            return Some(j - 1);
        }
        j = j - 1;
    }
    None
}

/// The extension of the file path `p`.
pub fn extension_of(p: &str) -> (r: String)
    ensures
        r@ == path_extension(p@),
{
    let v = chars_of(p);
    let start: usize = match last_index(&v, '/') {
        Some(i) => i + 1,
        None => 0,
    };
    let mut f: Vec<char> = Vec::new();
    let mut k: usize = start;
    while k < v.len()
        invariant
            start <= k <= v.len(),
            f@ == v@.subrange(start as int, k as int),
        decreases v.len() - k,
    {
        f.push(v[k]);
        k = k + 1;
    }
    assert(f@ =~= v@.skip(start as int));
    let mut e: Vec<char> = Vec::new();
    match last_index(&f, '.') {
        Some(d) => {
            if d > 0 {
                let mut k: usize = d + 1;
                while k < f.len()
                    invariant
                        d + 1 <= k <= f.len(),
                        e@ == f@.subrange(d + 1, k as int),
                    decreases f.len() - k,
                {
                    e.push(f[k]);
                    k = k + 1;
                }
                assert(e@ =~= f@.skip(d + 1));
            } else {
                assert(e@ =~= Seq::<char>::empty());
            }
        },
        None => {
            assert(e@ =~= Seq::<char>::empty());
        },
    }
    string_of(&e)
}

/// The language id that `table` lists for extension `ext`.
pub fn lookup_language(table: &Vec<(String, String)>, ext: &str) -> (r: String)
    ensures
        r@ == language_for(pairs_view(table@), ext@),
{
    let ghost tv = pairs_view(table@);
    let mut i: usize = 0;
    assert(tv.skip(0) =~= tv);
    while i < table.len()
        invariant
            i <= table.len(),
            tv == pairs_view(table@),
            language_for(tv, ext@) == language_for(tv.skip(i as int), ext@),
        decreases table.len() - i,
    {
        let ghost rest = tv.skip(i as int);
        assert(rest.drop_first() =~= tv.skip(i + 1));
        assert(rest[0] == tv[i as int]);
        if str_eq(table[i].0.as_str(), ext) {
            return table[i].1.clone();
        }
        i = i + 1;
    }
    proof {
        reveal_strlit("");
    }
    owned("")
}

/// The dependency graph of `root` (relative to the workspace) in a map of
/// the workspace's imports: the files and imports of a breadth-first
/// search of `depth` levels in the requested direction, each file with the
/// number of edges that lead to it and the language id that `languages`
/// (pairs of extension and language id) lists for its extension.
pub fn run_dependency_graph(
    params: &DependencyGraphParams,
    root: &str,
    map: &Vec<ImportEntry>,
    languages: &Vec<(String, String)>,
) -> (r: Result<DependencyGraphResult, ToolError>)
    requires
        map_ok(map@),
    ensures
        r matches Ok(res) && {
            &&& res.status@ == "ok"@
            &&& res.root@ == root@
            &&& res.direction@ == graph_direction(params.direction)
            &&& res.source@ == "static_analysis"@
            &&& graph_of(map@, root@, graph_depth(params.depth), graph_direction(params.direction), res.nodes@, res.edges@)
            &&& edges_import(map@, res.edges@)
            &&& forall|i: int| 0 <= i < res.nodes@.len() ==> (#[trigger] res.nodes@[i]).impact_count == edges_to(res.edges@, res.nodes@[i].path@)
            &&& forall|i: int| 0 <= i < res.nodes@.len() ==> (#[trigger] res.nodes@[i]).language@ == language_for(
                pairs_view(languages@),
                path_extension(res.nodes@[i].path@),
            )
            &&& res.total_nodes == res.nodes.len()
            &&& res.total_edges == res.edges.len()
        },
{
    let max: usize = match params.depth {
        Some(d) => if d < 5 { d } else { 5 },
        None => 2,
    };
    let direction = match &params.direction {
        Some(d) => d.clone(),
        None => owned("imports"),
    };
    let ghost dir = direction@;
    let (mut nodes, mut edges) = if str_eq(direction.as_str(), "imported_by") {
        let rev = reverse_map(map);
        let (n, e) = search(&rev, root, max);
        let ghost ge = e@;
        let f = flip_edges(e);
        proof {
            lemma_flipped_edges_import(map@, rev@, root@, max as nat, n@, ge);
        }
        (n, f)
    } else if str_eq(direction.as_str(), "both") {
        let (mut n1, mut e1) = search(map, root, max);
        let rev = reverse_map(map);
        let (n2, e2) = search(&rev, root, max);
        let ghost gn1 = n1@;
        let ghost ge1 = e1@;
        let ghost ge2 = e2@;
        let mut f2 = flip_edges(e2);
        append_new_nodes(&mut n1, &n2);
        e1.append(&mut f2);
        assert(same_files(n1@, gn1 + new_nodes(gn1, n2@)));
        proof {
            lemma_search_edges_import(map@, root@, max as nat, gn1, ge1);
            lemma_flipped_edges_import(map@, rev@, root@, max as nat, n2@, ge2);
            assert forall|i: int| 0 <= i < e1@.len() implies imports(map@, (#[trigger] e1@[i]).from@, e1@[i].to@) by {
                if i < ge1.len() {
                    assert(e1@[i] == ge1[i]);
                } else {
                    assert(e1@[i] == flipped(ge2)[i - ge1.len()]);
                }
            }
        }
        (n1, e1)
    } else {
        let (n, e) = search(map, root, max);
        proof {
            lemma_search_edges_import(map@, root@, max as nat, n@, e@);
        }
        (n, e)
    };
    let ghost shape = nodes@;
    let ghost ev = edges@;
    let mut i: usize = 0;
    proof {
        reveal_strlit("");
    }
    while i < nodes.len()
        invariant
            i <= nodes.len(),
            nodes@.len() == shape.len(),
            edges@ == ev,
            forall|q: int| 0 <= q < nodes@.len() ==> (#[trigger] nodes@[q]).path == shape[q].path && nodes@[q].depth == shape[q].depth,
            forall|q: int| 0 <= q < i ==> (#[trigger] nodes@[q]).impact_count == edges_to(ev, nodes@[q].path@)
                && nodes@[q].language@ == language_for(pairs_view(languages@), path_extension(nodes@[q].path@)),
        decreases nodes.len() - i,
    {
        let c = count_edges_to(&edges, nodes[i].path.as_str());
        let old_node = nodes[i].clone();
        let ext = extension_of(old_node.path.as_str());
        let language = lookup_language(languages, ext.as_str());
        nodes.set(i, GraphNode { path: old_node.path, language, impact_count: c, depth: old_node.depth });
        i = i + 1;
    }
    proof {
        assert(same_files(nodes@, shape));
        lemma_search_result_shape(map@, root@, max as nat, dir, shape, nodes@, ev);
    }
    let total_nodes = nodes.len();
    let total_edges = edges.len();
    Ok(DependencyGraphResult {
        status: owned("ok"),
        root: owned(root),
        direction,
        nodes,
        edges,
        total_nodes,
        total_edges,
        source: owned("static_analysis"),
    })
}

/// Only the files and depths of the nodes matter to a graph.
proof fn lemma_search_result_shape(
    g: Seq<ImportEntry>,
    root: Seq<char>,
    max: nat,
    dir: Seq<char>,
    a: Seq<GraphNode>,
    b: Seq<GraphNode>,
    edges: Seq<GraphEdge>,
)
    requires
        graph_of(g, root, max, dir, a, edges),
        same_files(b, a),
    ensures
        graph_of(g, root, max, dir, b, edges),
{
    assert forall|p: Seq<char>| has_node(a, p) <==> has_node(b, p) by {
        if has_node(a, p) {
            let i = choose|i: int| 0 <= i < a.len() && #[trigger] a[i].path@ == p;
            assert(b[i].path == a[i].path);
        }
        if has_node(b, p) {
            let i = choose|i: int| 0 <= i < b.len() && #[trigger] b[i].path@ == p;
            assert(b[i].path == a[i].path);
        }
    }
    if dir == "imported_by"@ {
        let (r, e) = choose|r: Seq<ImportEntry>, e: Seq<GraphEdge>|
            reverse_of(g, r) && #[trigger] search_result(r, root, max, a, e) && edges == flipped(e);
        lemma_shape_one(r, root, max, a, b, e);
    } else if dir == "both"@ {
        let (r, n1, e1, n2, e2) = choose|r: Seq<ImportEntry>, n1: Seq<GraphNode>, e1: Seq<GraphEdge>, n2: Seq<GraphNode>, e2: Seq<GraphEdge>|
            reverse_of(g, r) && #[trigger] search_result(g, root, max, n1, e1) && #[trigger] search_result(r, root, max, n2, e2)
                && same_files(a, n1 + new_nodes(n1, n2)) && edges == e1 + flipped(e2);
        assert(same_files(b, n1 + new_nodes(n1, n2)));
    } else {
        lemma_shape_one(g, root, max, a, b, edges);
    }
}

proof fn lemma_shape_one(
    g: Seq<ImportEntry>,
    root: Seq<char>,
    max: nat,
    a: Seq<GraphNode>,
    b: Seq<GraphNode>,
    edges: Seq<GraphEdge>,
)
    requires
        search_result(g, root, max, a, edges),
        same_files(b, a),
    ensures
        search_result(g, root, max, b, edges),
{
    assert forall|p: Seq<char>| #[trigger] within(g, root, max).contains(p) <==> has_node(b, p) by {
        if has_node(a, p) {
            let i = choose|i: int| 0 <= i < a.len() && #[trigger] a[i].path@ == p;
            assert(b[i].path == a[i].path);
        }
        if has_node(b, p) {
            let i = choose|i: int| 0 <= i < b.len() && #[trigger] b[i].path@ == p;
            assert(b[i].path == a[i].path);
        }
    }
    assert forall|i: int, j: int| 0 <= i < j < b.len() implies #[trigger] b[i].path@ != #[trigger] b[j].path@ by {
        assert(a[i].path@ != a[j].path@);
    }
    assert forall|i: int, j: int| 0 <= i < j < b.len() implies (#[trigger] b[i]).depth <= (#[trigger] b[j]).depth by {
        assert(a[i].depth <= a[j].depth);
    }
    assert forall|i: int| 0 <= i < b.len() implies (#[trigger] b[i]).depth <= max && at_distance(g, root, b[i].path@, b[i].depth as nat) by {
        assert(a[i].depth <= max);
    }
}

} // verus!
