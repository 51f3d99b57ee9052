use vstd::prelude::*;

use crate::spring::types::{BeanGraph, GraphEdge, GraphNode};
use crate::text::{str_eq, strs};

verus! {

broadcast use vstd::seq_lib::group_seq_properties;

/// The ids that `id` depends on, in edge order.
pub open spec fn deps_of(edges: Seq<GraphEdge>, id: Seq<char>) -> Seq<Seq<char>>
    decreases edges.len(),
{
    if edges.len() == 0 {
        Seq::empty()
    } else if edges.last().from@ == id {
        deps_of(edges.drop_last(), id).push(edges.last().to@)
    } else {
        deps_of(edges.drop_last(), id)
    }
}

/// The ids that depend on `id`, in edge order.
pub open spec fn dependents_of(edges: Seq<GraphEdge>, id: Seq<char>) -> Seq<Seq<char>>
    decreases edges.len(),
{
    if edges.len() == 0 {
        Seq::empty()
    } else if edges.last().to@ == id {
        dependents_of(edges.drop_last(), id).push(edges.last().from@)
    } else {
        dependents_of(edges.drop_last(), id)
    }
}

pub open spec fn str_views(v: Seq<&str>) -> Seq<Seq<char>> {
    v.map_values(|s: &str| s@)
}

/// There is an edge from `a` to `b`.
pub open spec fn has_edge(g: BeanGraph, a: Seq<char>, b: Seq<char>) -> bool {
    exists|i: int| 0 <= i < g.edges@.len() && #[trigger] g.edges@[i].from@ == a && g.edges@[i].to@ == b
}

/// Consecutive ids are joined by edges.
pub open spec fn is_path(g: BeanGraph, s: Seq<Seq<char>>) -> bool {
    forall|i: int| 0 <= i < s.len() - 1 ==> has_edge(g, #[trigger] s[i], s[i + 1])
}

/// A closed walk: a non-empty path whose last id has an edge back to the
/// first.
pub open spec fn is_cycle(g: BeanGraph, c: Seq<Seq<char>>) -> bool {
    &&& c.len() > 0
    &&& is_path(g, c)
    &&& has_edge(g, c.last(), c[0])
}

pub open spec fn cycle_views(cs: Seq<Vec<String>>) -> Seq<Seq<Seq<char>>> {
    cs.map_values(|v: Vec<String>| strs(v@))
}

/// Every listed walk is a cycle of the graph.
pub open spec fn all_cycles(g: BeanGraph, cs: Seq<Vec<String>>) -> bool {
    forall|k: int| 0 <= k < cs.len() ==> is_cycle(g, #[trigger] strs(cs[k]@))
}

/// The ids that occur in the graph: node ids and edge targets.
pub open spec fn graph_universe(g: BeanGraph) -> Set<Seq<char>> {
    g.nodes@.map_values(|n: GraphNode| n.id@).to_set() + g.edges@.map_values(
        |e: GraphEdge| e.to@,
    ).to_set()
}

/// The rendered tree, line by line: the root, then each of its dependencies
/// in edge order, each followed by that dependency's own dependencies one
/// level deeper.
pub open spec fn tree_lines(g: BeanGraph, root: Seq<char>) -> Seq<Seq<char>> {
    let deps = deps_of(g.edges@, root);
    seq![root] + dep_blocks(g, deps, deps.len() as int)
}

pub open spec fn branch_prefix(last: bool) -> Seq<char> {
    if last {
        "└── "@
    } else {
        "├── "@
    }
}

pub open spec fn indent_prefix(last: bool) -> Seq<char> {
    if last {
        "    "@
    } else {
        "│   "@
    }
}

/// The line of the `i`-th dependency of the root.
pub open spec fn dep_line(deps: Seq<Seq<char>>, i: int) -> Seq<char> {
    branch_prefix(i == deps.len() - 1) + deps[i]
}

/// The lines under the `i`-th dependency: its own dependencies, indented.
pub open spec fn sub_lines(g: BeanGraph, deps: Seq<Seq<char>>, i: int) -> Seq<Seq<char>> {
    let subs = deps_of(g.edges@, deps[i]);
    let indent = indent_prefix(i == deps.len() - 1);
    Seq::new(subs.len(), |j: int| indent + branch_prefix(j == subs.len() - 1) + subs[j])
}

/// The lines of the first `n` dependencies of the root, with theirs.
pub open spec fn dep_blocks(g: BeanGraph, deps: Seq<Seq<char>>, n: int) -> Seq<Seq<char>>
    decreases n,
{
    if n <= 0 {
        Seq::empty()
    } else {
        dep_blocks(g, deps, n - 1) + seq![dep_line(deps, n - 1)] + sub_lines(g, deps, n - 1)
    }
}

/// Lines joined with `'\n'` between them.
pub open spec fn join_lines(lines: Seq<Seq<char>>) -> Seq<char>
    decreases lines.len(),
{
    if lines.len() == 0 {
        Seq::empty()
    } else if lines.len() == 1 {
        lines[0]
    } else {
        join_lines(lines.drop_last()) + seq!['\n'] + lines.last()
    }
}

proof fn lemma_join_push(lines: Seq<Seq<char>>, line: Seq<char>)
    requires
        lines.len() > 0,
    ensures
        join_lines(lines.push(line)) == join_lines(lines) + seq!['\n'] + line,
{
    assert(lines.push(line).drop_last() =~= lines);
}

fn branch_str(last: bool) -> (s: &'static str)
    ensures
        s@ == branch_prefix(last),
{
    proof {
        reveal_strlit("└── ");
        reveal_strlit("├── ");
    }
    if last {
        "└── "
    } else {
        "├── "
    }
}

fn indent_str(last: bool) -> (s: &'static str)
    ensures
        s@ == indent_prefix(last),
{
    proof {
        reveal_strlit("    ");
        reveal_strlit("│   ");
    }
    if last {
        "    "
    } else {
        "│   "
    }
}

/// Appends a line made of three parts, after a line break.
fn push_line(
    out: &mut String,
    indent: &str,
    branch: &str,
    item: &str,
    Ghost(lines): Ghost<Seq<Seq<char>>>,
)
    requires
        lines.len() > 0,
        old(out)@ == join_lines(lines),
    ensures
        final(out)@ == join_lines(lines.push(indent@ + branch@ + item@)),
{
    proof {
        reveal_strlit("\n");
        lemma_join_push(lines, indent@ + branch@ + item@);
    }
    out.append("\n");
    out.append(indent);
    out.append(branch);
    out.append(item);
    assert(out@ =~= join_lines(lines) + seq!['\n'] + (indent@ + branch@ + item@));
}

/// The index of the first occurrence of `x` in `s`.
#[verifier::opaque]
pub open spec fn first_index(s: Seq<Seq<char>>, x: Seq<char>) -> int {
    choose|k: int| 0 <= k < s.len() && s[k] == x && forall|j: int| 0 <= j < k ==> s[j] != x
}

proof fn lemma_first_index(s: Seq<Seq<char>>, x: Seq<char>, k: int)
    requires
        0 <= k < s.len(),
        s[k] == x,
        forall|j: int| 0 <= j < k ==> s[j] != x,
    ensures
        first_index(s, x) == k,
{
    reveal(first_index);
    let c = first_index(s, x);
    assert(0 <= c < s.len() && s[c] == x && forall|j: int| 0 <= j < c ==> s[j] != x);
    if c < k {
        assert(s[c] != x);
    }
    if k < c {
        assert(s[k] != x);
    }
}

/// The depth-first search from `node`, with the beans seen so far, the
/// beans on the search stack and the cycles reported so far: `node` is seen
/// and pushed, then its outgoing edges are followed in order. It gives the
/// beans seen and the cycles reported afterwards. `n` bounds the depth of
/// nested searches (it is never reached: each nested search sees a new bean).
#[verifier::opaque]
pub open spec fn search_node(
    g: BeanGraph,
    node: Seq<char>,
    visited: Seq<Seq<char>>,
    stack: Seq<Seq<char>>,
    cycles: Seq<Seq<Seq<char>>>,
    n: nat,
) -> (Seq<Seq<char>>, Seq<Seq<Seq<char>>>)
    decreases n, g.edges@.len() + 1,
{
    search_edges(g, node, 0, visited.push(node), stack.push(node), cycles, n)
}

/// Following the edges of `g` from index `j` on, for those leaving `node`:
/// an edge to an unseen bean starts a nested search; an edge to a bean on
/// the stack reports the stack from that bean on as a cycle; an edge to a
/// bean seen and finished is passed over.
#[verifier::opaque]
pub open spec fn search_edges(
    g: BeanGraph,
    node: Seq<char>,
    j: int,
    visited: Seq<Seq<char>>,
    stack: Seq<Seq<char>>,
    cycles: Seq<Seq<Seq<char>>>,
    n: nat,
) -> (Seq<Seq<char>>, Seq<Seq<Seq<char>>>)
    decreases n, g.edges@.len() - j,
{
    if j < 0 || j >= g.edges@.len() {
        (visited, cycles)
    } else {
        let e = g.edges@[j];
        if e.from@ != node {
            search_edges(g, node, j + 1, visited, stack, cycles, n)
        } else if !visited.contains(e.to@) {
            if n == 0 {
                (visited, cycles)
            } else {
                let r = search_node(g, e.to@, visited, stack, cycles, (n - 1) as nat);
                search_edges(g, node, j + 1, r.0, stack, r.1, n)
            }
        } else if stack.contains(e.to@) {
            search_edges(
                g,
                node,
                j + 1,
                visited,
                stack,
                cycles.push(stack.skip(first_index(stack, e.to@))),
                n,
            )
        } else {
            search_edges(g, node, j + 1, visited, stack, cycles, n)
        }
    }
}

proof fn lemma_node_start(
    g: BeanGraph,
    node: Seq<char>,
    visited: Seq<Seq<char>>,
    stack: Seq<Seq<char>>,
    cycles: Seq<Seq<Seq<char>>>,
    n: nat,
)
    ensures
        search_node(g, node, visited, stack, cycles, n) == search_edges(
            g,
            node,
            0,
            visited.push(node),
            stack.push(node),
            cycles,
            n,
        ),
{
    reveal(search_node);
    reveal(search_edges);
}

proof fn lemma_edges_end(
    g: BeanGraph,
    node: Seq<char>,
    j: int,
    visited: Seq<Seq<char>>,
    stack: Seq<Seq<char>>,
    cycles: Seq<Seq<Seq<char>>>,
    n: nat,
)
    requires
        j >= g.edges@.len(),
    ensures
        search_edges(g, node, j, visited, stack, cycles, n) == (visited, cycles),
{
    reveal(search_node);
    reveal(search_edges);
}

/// An edge not leaving `node`, or leading to a finished bean, is passed over.
proof fn lemma_edges_skip(
    g: BeanGraph,
    node: Seq<char>,
    j: int,
    visited: Seq<Seq<char>>,
    stack: Seq<Seq<char>>,
    cycles: Seq<Seq<Seq<char>>>,
    n: nat,
)
    requires
        0 <= j < g.edges@.len(),
        g.edges@[j].from@ != node || (visited.contains(g.edges@[j].to@) && !stack.contains(
            g.edges@[j].to@,
        )),
    ensures
        search_edges(g, node, j, visited, stack, cycles, n) == search_edges(
            g,
            node,
            j + 1,
            visited,
            stack,
            cycles,
            n,
        ),
{
    reveal(search_node);
    reveal(search_edges);
}

/// An edge to an unseen bean starts a nested search.
proof fn lemma_edges_descend(
    g: BeanGraph,
    node: Seq<char>,
    j: int,
    visited: Seq<Seq<char>>,
    stack: Seq<Seq<char>>,
    cycles: Seq<Seq<Seq<char>>>,
    n: nat,
)
    requires
        0 <= j < g.edges@.len(),
        g.edges@[j].from@ == node,
        !visited.contains(g.edges@[j].to@),
        n > 0,
    ensures
        search_edges(g, node, j, visited, stack, cycles, n) == search_edges(
            g,
            node,
            j + 1,
            search_node(g, g.edges@[j].to@, visited, stack, cycles, (n - 1) as nat).0,
            stack,
            search_node(g, g.edges@[j].to@, visited, stack, cycles, (n - 1) as nat).1,
            n,
        ),
{
    reveal(search_node);
    reveal(search_edges);
}

/// An edge back to a bean on the stack reports a cycle.
proof fn lemma_edges_cycle(
    g: BeanGraph,
    node: Seq<char>,
    j: int,
    visited: Seq<Seq<char>>,
    stack: Seq<Seq<char>>,
    cycles: Seq<Seq<Seq<char>>>,
    n: nat,
)
    requires
        0 <= j < g.edges@.len(),
        g.edges@[j].from@ == node,
        visited.contains(g.edges@[j].to@),
        stack.contains(g.edges@[j].to@),
    ensures
        search_edges(g, node, j, visited, stack, cycles, n) == search_edges(
            g,
            node,
            j + 1,
            visited,
            stack,
            cycles.push(stack.skip(first_index(stack, g.edges@[j].to@))),
            n,
        ),
{
    reveal(search_node);
    reveal(search_edges);
}

/// The searches started from the listed beans, from the `i`-th on, each
/// from a bean not seen by an earlier search; the cycles reported in the
/// end.
pub open spec fn search_from(
    g: BeanGraph,
    i: int,
    visited: Seq<Seq<char>>,
    cycles: Seq<Seq<Seq<char>>>,
) -> Seq<Seq<Seq<char>>>
    decreases g.nodes@.len() - i,
{
    if i < 0 || i >= g.nodes@.len() {
        cycles
    } else {
        let id = g.nodes@[i].id@;
        if visited.contains(id) {
            search_from(g, i + 1, visited, cycles)
        } else {
            let r = search_node(g, id, visited, Seq::empty(), cycles, graph_universe(g).len());
            search_from(g, i + 1, r.0, r.1)
        }
    }
}

/// The cycles `detect_cycles` reports, in order.
pub open spec fn spec_detect_cycles(g: BeanGraph) -> Seq<Seq<Seq<char>>> {
    search_from(g, 0, Seq::empty(), Seq::empty())
}

fn contains_str(v: &Vec<String>, s: &str) -> (r: bool)
    ensures
        r == strs(v@).contains(s@),
{
    let mut i: usize = 0;
    while i < v.len()
        invariant
            i <= v@.len(),
            forall|k: int| 0 <= k < i ==> v@[k]@ != s@,
        decreases v@.len() - i,
    {
        if str_eq(v[i].as_str(), s) {
            assert(strs(v@)[i as int] == s@);
            return true;
        }
        i = i + 1;
    }
    assert(!strs(v@).contains(s@)) by {
        if strs(v@).contains(s@) {
            let k = choose|k: int| 0 <= k < strs(v@).len() && strs(v@)[k] == s@;
            assert(v@[k]@ == s@);
        }
    }
    false
}

fn position_str(v: &Vec<String>, s: &str) -> (r: Option<usize>)
    ensures
        match r {
            Some(k) => k < v@.len() && v@[k as int]@ == s@ && k == first_index(strs(v@), s@),
            None => !strs(v@).contains(s@),
        },
{
    let mut i: usize = 0;
    while i < v.len()
        invariant
            i <= v@.len(),
            forall|k: int| 0 <= k < i ==> v@[k]@ != s@,
        decreases v@.len() - i,
    {
        if str_eq(v[i].as_str(), s) {
            proof {
                lemma_first_index(strs(v@), s@, i as int);
            }
            return Some(i);
        }
        i = i + 1;
    }
    assert(!strs(v@).contains(s@)) by {
        if strs(v@).contains(s@) {
            let k = choose|k: int| 0 <= k < strs(v@).len() && strs(v@)[k] == s@;
            assert(v@[k]@ == s@);
        }
    }
    None
}

fn copy_from(v: &Vec<String>, k: usize) -> (r: Vec<String>)
    requires
        k <= v@.len(),
    ensures
        strs(r@) == strs(v@).skip(k as int),
{
    let mut r: Vec<String> = Vec::new();
    let mut i: usize = k;
    while i < v.len()
        invariant
            k <= i <= v@.len(),
            r@.len() == i - k,
            forall|t: int| 0 <= t < r@.len() ==> #[trigger] r@[t]@ == v@[k + t]@,
        decreases v@.len() - i,
    {
        let s = v[i].clone();
        r.push(s);
        i = i + 1;
    }
    assert(strs(r@) =~= strs(v@).skip(k as int));
    r
}

proof fn lemma_visited_bound(visited: Seq<Seq<char>>, u: Set<Seq<char>>)
    requires
        u.finite(),
        visited.no_duplicates(),
        forall|i: int| 0 <= i < visited.len() ==> u.contains(#[trigger] visited[i]),
    ensures
        visited.len() <= u.len(),
{
    visited.unique_seq_to_set();
    vstd::set_lib::lemma_len_subset(visited.to_set(), u);
}

/// Every edge out of a finished bean leads to a bean finished before it.
pub open spec fn finished_closed(g: BeanGraph, fin: Seq<Seq<char>>) -> bool {
    forall|i: int, k: int|
        #![trigger fin[i], g.edges@[k]]
        0 <= i < fin.len() && 0 <= k < g.edges@.len() && g.edges@[k].from@ == fin[i] ==> exists|j: int|
            0 <= j < i && fin[j] == g.edges@[k].to@
}

/// The beans seen so far are those on the stack and those finished.
pub open spec fn seen_split(visited: Seq<Seq<char>>, stack: Seq<Seq<char>>, fin: Seq<Seq<char>>) -> bool {
    forall|x: Seq<char>| #[trigger] visited.contains(x) <==> (stack.contains(x) || fin.contains(x))
}

/// `b` starts with `a`.
pub open spec fn extends(a: Seq<Seq<char>>, b: Seq<Seq<char>>) -> bool {
    a.len() <= b.len() && forall|i: int| 0 <= i < a.len() ==> b[i] == a[i]
}

proof fn lemma_extends_contains(a: Seq<Seq<char>>, b: Seq<Seq<char>>, x: Seq<char>)
    requires
        extends(a, b),
        a.contains(x),
    ensures
        b.contains(x),
{
    let i = choose|i: int| 0 <= i < a.len() && a[i] == x;
    assert(b[i] == x);
}

/// Reports the cycle closed by edge `j`, which leads from `node` (on top of
/// the stack) back to the bean at index `k` of the stack.
fn report_cycle(
    g: &BeanGraph,
    node: &String,
    j: usize,
    k: usize,
    visited: &Vec<String>,
    stack: &Vec<String>,
    cycles: &mut Vec<Vec<String>>,
    Ghost(n): Ghost<nat>,
)
    requires
        j < g.edges@.len(),
        g.edges@[j as int].from@ == node@,
        k < stack@.len(),
        stack@[k as int]@ == g.edges@[j as int].to@,
        k == first_index(strs(stack@), g.edges@[j as int].to@),
        strs(visited@).contains(g.edges@[j as int].to@),
        stack@.len() > 0,
        stack@.last()@ == node@,
        is_path(*g, strs(stack@)),
        all_cycles(*g, old(cycles)@),
    ensures
        all_cycles(*g, final(cycles)@),
        final(cycles)@.len() == old(cycles)@.len() + 1,
        search_edges(
            *g,
            node@,
            j as int,
            strs(visited@),
            strs(stack@),
            cycle_views(old(cycles)@),
            n,
        ) == search_edges(
            *g,
            node@,
            j + 1,
            strs(visited@),
            strs(stack@),
            cycle_views(final(cycles)@),
            n,
        ),
{
    let next = &g.edges[j].to;
    assert(has_edge(*g, node@, next@)) by {
        assert(g.edges@[j as int].from@ == node@);
    }
    let cycle = copy_from(stack, k);
    proof {
        let c = strs(cycle@);
        let s = strs(stack@);
        assert(c.last() == s.last());
        assert(c[0] == next@);
        assert forall|i: int| 0 <= i < c.len() - 1 implies has_edge(
            *g,
            #[trigger] c[i],
            c[i + 1],
        ) by {
            assert(c[i] == s[k + i]);
            assert(c[i + 1] == s[k + i + 1]);
        }
    }
    let ghost prev = cycles@;
    proof {
        assert(strs(stack@)[k as int] == next@);
        lemma_edges_cycle(
            *g,
            node@,
            j as int,
            strs(visited@),
            strs(stack@),
            cycle_views(cycles@),
            n,
        );
        assert(cycle_views(prev.push(cycle)) =~= cycle_views(prev).push(strs(cycle@)));
    }
    cycles.push(cycle);
    proof {
        assert forall|m: int| 0 <= m < cycles@.len() implies is_cycle(
            *g,
            #[trigger] strs(cycles@[m]@),
        ) by {
            if m < cycles@.len() - 1 {
                assert(cycles@[m] == prev[m]);
            }
        }
    }
}

/// Follows edge `j` in the search from `node` (the bean on top of the
/// stack): a nested search, a reported cycle, or nothing.
fn follow_edge(
    g: &BeanGraph,
    node: &String,
    j: usize,
    visited: &mut Vec<String>,
    stack: &mut Vec<String>,
    cycles: &mut Vec<Vec<String>>,
    Ghost(u): Ghost<Set<Seq<char>>>,
    Ghost(f): Ghost<Seq<Seq<char>>>,
    Ghost(n): Ghost<nat>,
) -> (fin2: Ghost<Seq<Seq<char>>>)
    requires
        u == graph_universe(*g),
        u.finite(),
        j < g.edges@.len(),
        old(stack)@.len() > 0,
        old(stack)@.last()@ == node@,
        is_path(*g, strs(old(stack)@)),
        strs(old(visited)@).no_duplicates(),
        forall|i: int| 0 <= i < old(visited)@.len() ==> u.contains(#[trigger] old(visited)@[i]@),
        old(visited)@.len() <= u.len(),
        n + old(visited)@.len() >= 1 + u.len(),
        all_cycles(*g, old(cycles)@),
        seen_split(strs(old(visited)@), strs(old(stack)@), f),
        old(cycles)@.len() == 0 ==> finished_closed(*g, f),
    ensures
        final(stack)@ == old(stack)@,
        strs(final(visited)@).no_duplicates(),
        forall|i: int| 0 <= i < final(visited)@.len() ==> u.contains(#[trigger] final(visited)@[i]@),
        final(visited)@.len() >= old(visited)@.len(),
        all_cycles(*g, final(cycles)@),
        final(cycles)@.len() >= old(cycles)@.len(),
        extends(f, fin2@),
        seen_split(strs(final(visited)@), strs(final(stack)@), fin2@),
        final(cycles)@.len() == 0 ==> finished_closed(*g, fin2@),
        final(cycles)@.len() == 0 && g.edges@[j as int].from@ == node@ ==> fin2@.contains(
            g.edges@[j as int].to@,
        ),
        search_edges(
            *g,
            node@,
            j as int,
            strs(old(visited)@),
            strs(old(stack)@),
            cycle_views(old(cycles)@),
            n,
        ) == search_edges(
            *g,
            node@,
            j + 1,
            strs(final(visited)@),
            strs(final(stack)@),
            cycle_views(final(cycles)@),
            n,
        ),
    decreases u.len() - old(visited)@.len(), 1nat,
{
    let ghost mut f2 = f;
    let e = &g.edges[j];
    if str_eq(e.from.as_str(), node.as_str()) {
        let next = &e.to;
        assert(has_edge(*g, node@, next@)) by {
            assert(g.edges@[j as int].from@ == node@);
        }
        assert(u.contains(next@)) by {
            let targets = g.edges@.map_values(|e: GraphEdge| e.to@);
            assert(targets[j as int] == next@);
        }
        if !contains_str(visited, next.as_str()) {
            proof {
                let pv = strs(visited@).push(next@);
                assert(pv.no_duplicates());
                assert forall|i: int| 0 <= i < pv.len() implies u.contains(#[trigger] pv[i]) by {
                    if i < visited@.len() {
                        assert(pv[i] == visited@[i]@);
                    }
                }
                lemma_visited_bound(pv, u);
                lemma_edges_descend(
                    *g,
                    node@,
                    j as int,
                    strs(visited@),
                    strs(stack@),
                    cycle_views(cycles@),
                    n,
                );
            }
            let fin_next = dfs(g, next, visited, stack, cycles, Ghost(u), Ghost(f), Ghost((n - 1) as nat));
            proof {
                f2 = fin_next@;
                lemma_visited_bound(strs(visited@), u);
            }
        } else if let Some(k) = position_str(stack, next.as_str()) {
            report_cycle(g, node, j, k, visited, stack, cycles, Ghost(n));
        } else {
            proof {
                assert(strs(visited@).contains(next@));
                assert(!strs(stack@).contains(next@));
                lemma_edges_skip(
                    *g,
                    node@,
                    j as int,
                    strs(visited@),
                    strs(stack@),
                    cycle_views(cycles@),
                    n,
                );
            }
        }
    } else {
        proof {
            lemma_edges_skip(
                *g,
                node@,
                j as int,
                strs(visited@),
                strs(stack@),
                cycle_views(cycles@),
                n,
            );
        }
    }
    Ghost(f2)
}

/// The depth-first search from `node`: it finishes `node` and every bean
/// reachable from it that was not seen before, and reports each edge back
/// to a bean on the stack as a cycle. It returns the finish order extended
/// by the beans it finished. The beans seen and the stack are `Vec`s
/// searched in order, where a hash set would need a specification of
/// `String` hashing that Verus does not have.
fn dfs(
    g: &BeanGraph,
    node: &String,
    visited: &mut Vec<String>,
    stack: &mut Vec<String>,
    cycles: &mut Vec<Vec<String>>,
    Ghost(u): Ghost<Set<Seq<char>>>,
    Ghost(fin): Ghost<Seq<Seq<char>>>,
    Ghost(n): Ghost<nat>,
) -> (fin2: Ghost<Seq<Seq<char>>>)
    requires
        n >= u.len() - old(visited)@.len(),
        u == graph_universe(*g),
        u.finite(),
        u.contains(node@),
        !strs(old(visited)@).contains(node@),
        strs(old(visited)@).no_duplicates(),
        forall|i: int| 0 <= i < old(visited)@.len() ==> u.contains(#[trigger] old(visited)@[i]@),
        is_path(*g, strs(old(stack)@)),
        old(stack)@.len() > 0 ==> has_edge(*g, old(stack)@.last()@, node@),
        all_cycles(*g, old(cycles)@),
        seen_split(strs(old(visited)@), strs(old(stack)@), fin),
        old(cycles)@.len() == 0 ==> finished_closed(*g, fin),
    ensures
        final(stack)@ == old(stack)@,
        strs(final(visited)@).no_duplicates(),
        forall|i: int| 0 <= i < final(visited)@.len() ==> u.contains(#[trigger] final(visited)@[i]@),
        final(visited)@.len() > old(visited)@.len(),
        all_cycles(*g, final(cycles)@),
        final(cycles)@.len() >= old(cycles)@.len(),
        extends(fin, fin2@),
        fin2@.contains(node@),
        seen_split(strs(final(visited)@), strs(final(stack)@), fin2@),
        final(cycles)@.len() == 0 ==> finished_closed(*g, fin2@),
        (strs(final(visited)@), cycle_views(final(cycles)@)) == search_node(
            *g,
            node@,
            strs(old(visited)@),
            strs(old(stack)@),
            cycle_views(old(cycles)@),
            n,
        ),
    decreases u.len() - old(visited)@.len(), 0nat,
{
    let ghost target = search_node(
        *g,
        node@,
        strs(visited@),
        strs(stack@),
        cycle_views(cycles@),
        n,
    );
    proof {
        lemma_node_start(*g, node@, strs(visited@), strs(stack@), cycle_views(cycles@), n);
    }
    proof {
        lemma_visited_bound(strs(visited@), u);
    }
    let ghost old_visited = strs(visited@);
    visited.push(node.clone());
    proof {
        assert(strs(visited@) =~= strs(old(visited)@).push(node@));
        lemma_visited_bound(strs(visited@), u);
    }
    let ghost old_stack = stack@;
    stack.push(node.clone());
    assert(strs(stack@) =~= strs(old_stack).push(node@));
    let ghost mut f = fin;
    proof {
        assert forall|x: Seq<char>| #[trigger] strs(visited@).contains(x) <==> (strs(stack@).contains(x)
            || f.contains(x)) by {
            if x == node@ {
                assert(strs(visited@)[strs(visited@).len() - 1] == x);
                assert(strs(stack@)[strs(stack@).len() - 1] == x);
            } else {
                if strs(visited@).contains(x) {
                    let i = choose|i: int| 0 <= i < strs(visited@).len() && strs(visited@)[i] == x;
                    assert(old_visited[i] == x);
                }
                if strs(stack@).contains(x) {
                    let i = choose|i: int| 0 <= i < strs(stack@).len() && strs(stack@)[i] == x;
                    assert(strs(old_stack)[i] == x);
                }
                if old_visited.contains(x) {
                    let i = choose|i: int| 0 <= i < old_visited.len() && old_visited[i] == x;
                    assert(strs(visited@)[i] == x);
                }
                if strs(old_stack).contains(x) {
                    let i = choose|i: int| 0 <= i < strs(old_stack).len() && strs(old_stack)[i] == x;
                    assert(strs(stack@)[i] == x);
                }
            }
        }
    }
    let mut j: usize = 0;
    while j < g.edges.len()
        invariant
            u == graph_universe(*g),
            u.finite(),
            j <= g.edges@.len(),
            stack@ == old_stack.push(stack@.last()),
            stack@.last()@ == node@,
            is_path(*g, strs(stack@)),
            strs(visited@).no_duplicates(),
            forall|i: int| 0 <= i < visited@.len() ==> u.contains(#[trigger] visited@[i]@),
            visited@.len() > old(visited)@.len(),
            visited@.len() <= u.len(),
            all_cycles(*g, cycles@),
            cycles@.len() >= old(cycles)@.len(),
            extends(fin, f),
            seen_split(strs(visited@), strs(stack@), f),
            cycles@.len() == 0 ==> finished_closed(*g, f),
            cycles@.len() == 0 ==> forall|k: int|
                0 <= k < j && (#[trigger] g.edges@[k]).from@ == node@ ==> f.contains(g.edges@[k].to@),
            n + visited@.len() >= 1 + u.len(),
            strs(stack@) == strs(old_stack).push(node@),
            target == search_edges(
                *g,
                node@,
                j as int,
                strs(visited@),
                strs(stack@),
                cycle_views(cycles@),
                n,
            ),
        decreases g.edges@.len() - j,
    {
        let ghost f_before = f;
        let f_next = follow_edge(g, node, j, visited, stack, cycles, Ghost(u), Ghost(f), Ghost(n));
        proof {
            f = f_next@;
            lemma_visited_bound(strs(visited@), u);
            assert forall|k: int|
                0 <= k < j && (#[trigger] g.edges@[k]).from@ == node@ && f_before.contains(
                    g.edges@[k].to@,
                ) implies f.contains(g.edges@[k].to@) by {
                lemma_extends_contains(f_before, f, g.edges@[k].to@);
            }
            assert(extends(fin, f)) by {
                assert forall|i: int| 0 <= i < fin.len() implies f[i] == fin[i] by {
                    assert(f[i] == f_before[i]);
                }
            }
        }
        j = j + 1;
    }
    proof {
        lemma_edges_end(*g, node@, j as int, strs(visited@), strs(stack@), cycle_views(cycles@), n);
    }
    let ghost full_stack = stack@;
    stack.pop();
    assert(stack@ =~= old_stack);
    let ghost f_done = f.push(node@);
    proof {
        assert(f_done[f.len() as int] == node@);
        assert(extends(fin, f_done));
        assert forall|x: Seq<char>| #[trigger] strs(visited@).contains(x) <==> (strs(stack@).contains(x)
            || f_done.contains(x)) by {
            let with_node = strs(full_stack);
            assert(with_node =~= strs(old_stack).push(node@));
            if f_done.contains(x) && x != node@ {
                let i = choose|i: int| 0 <= i < f_done.len() && f_done[i] == x;
                assert(f[i] == x);
            }
            if f.contains(x) {
                let i = choose|i: int| 0 <= i < f.len() && f[i] == x;
                assert(f_done[i] == x);
            }
            if with_node.contains(x) && x != node@ {
                let i = choose|i: int| 0 <= i < with_node.len() && with_node[i] == x;
                assert(i < strs(old_stack).len());
                assert(strs(old_stack)[i] == x);
            }
            if strs(old_stack).contains(x) {
                let i = choose|i: int| 0 <= i < strs(old_stack).len() && strs(old_stack)[i] == x;
                assert(with_node[i] == x);
            }
        }
        if cycles@.len() == 0 {
            assert forall|i: int, k: int|
                #![trigger f_done[i], g.edges@[k]]
                0 <= i < f_done.len() && 0 <= k < g.edges@.len() && g.edges@[k].from@ == f_done[i]
                    implies exists|jj: int| 0 <= jj < i && f_done[jj] == g.edges@[k].to@ by {
                if i < f.len() {
                    assert(f_done[i] == f[i]);
                    let jj = choose|jj: int| 0 <= jj < i && f[jj] == g.edges@[k].to@;
                    assert(f_done[jj] == f[jj]);
                } else {
                    assert(f.contains(g.edges@[k].to@));
                    let jj = choose|jj: int| 0 <= jj < f.len() && f[jj] == g.edges@[k].to@;
                    assert(f_done[jj] == f[jj]);
                }
            }
        }
    }
    Ghost(f_done)
}

/// The bean is one of the graph's listed nodes.
pub open spec fn is_listed(g: BeanGraph, id: Seq<char>) -> bool {
    exists|k: int| 0 <= k < g.nodes@.len() && g.nodes@[k].id@ == id
}

proof fn lemma_finished_step(g: BeanGraph, f: Seq<Seq<char>>, i: int, x: Seq<char>, y: Seq<char>) -> (j: int)
    requires
        finished_closed(g, f),
        0 <= i < f.len(),
        f[i] == x,
        has_edge(g, x, y),
    ensures
        0 <= j < i,
        f[j] == y,
{
    let k = choose|k: int| 0 <= k < g.edges@.len() && #[trigger] g.edges@[k].from@ == x && g.edges@[k].to@ == y;
    assert(g.edges@[k].from@ == f[i]);
    choose|j: int| 0 <= j < i && f[j] == g.edges@[k].to@
}

/// The position in a cycle after `n` steps from its first bean.
pub open spec fn walk(n: nat, len: nat) -> int
    decreases n,
{
    if n == 0 {
        0
    } else {
        let p = walk((n - 1) as nat, len);
        if p + 1 < len {
            p + 1
        } else {
            0
        }
    }
}

proof fn lemma_walk_range(n: nat, len: nat)
    requires
        len > 0,
    ensures
        0 <= walk(n, len) < len,
    decreases n,
{
    if n > 0 {
        lemma_walk_range((n - 1) as nat, len);
    }
}

/// Walking a cycle from its first bean, finished at `i0`, each step leads
/// to a bean finished strictly earlier.
proof fn lemma_descend(g: BeanGraph, f: Seq<Seq<char>>, c: Seq<Seq<char>>, i0: int, n: nat) -> (i: int)
    requires
        finished_closed(g, f),
        is_cycle(g, c),
        0 <= i0 < f.len(),
        f[i0] == c[0],
    ensures
        0 <= i,
        i + n <= i0,
        f[i] == c[walk(n, c.len())],
    decreases n,
{
    lemma_walk_range(n, c.len());
    if n == 0 {
        i0
    } else {
        let prev = lemma_descend(g, f, c, i0, (n - 1) as nat);
        let p = walk((n - 1) as nat, c.len());
        lemma_walk_range((n - 1) as nat, c.len());
        if p + 1 < c.len() {
            assert(has_edge(g, c[p], c[p + 1]));
            lemma_finished_step(g, f, prev, c[p], c[p + 1])
        } else {
            assert(c[p] == c.last());
            lemma_finished_step(g, f, prev, c[p], c[0])
        }
    }
}

proof fn lemma_all_finished(g: BeanGraph, f: Seq<Seq<char>>, c: Seq<Seq<char>>, m: int, k: int)
    requires
        finished_closed(g, f),
        is_cycle(g, c),
        0 <= m <= k < c.len(),
        f.contains(c[m]),
    ensures
        f.contains(c[k]),
    decreases k - m,
{
    if k > m {
        lemma_all_finished(g, f, c, m, k - 1);
        let i = choose|i: int| 0 <= i < f.len() && f[i] == c[k - 1];
        assert(has_edge(g, c[k - 1], c[k]));
        let j = lemma_finished_step(g, f, i, c[k - 1], c[k]);
    }
}

/// In a finish order where every edge leads to an earlier bean, no cycle
/// passes through a finished bean.
proof fn lemma_no_finished_cycle(g: BeanGraph, f: Seq<Seq<char>>, c: Seq<Seq<char>>, m: int)
    requires
        finished_closed(g, f),
        is_cycle(g, c),
        0 <= m < c.len(),
    ensures
        !f.contains(c[m]),
{
    if f.contains(c[m]) {
        lemma_all_finished(g, f, c, m, c.len() - 1);
        let i = choose|i: int| 0 <= i < f.len() && f[i] == c.last();
        let j = lemma_finished_step(g, f, i, c.last(), c[0]);
        let i0 = lemma_descend(g, f, c, j, (j + 1) as nat);
    }
}

impl BeanGraph {
    /// Find beans that depend on the given bean, in edge order.
    pub fn find_dependents(&self, bean_id: &str) -> (r: Vec<&str>)
        ensures
            str_views(r@) == dependents_of(self.edges@, bean_id@),
    {
        let mut r: Vec<&str> = Vec::new();
        let mut i: usize = 0;
        while i < self.edges.len()
            invariant
                i <= self.edges@.len(),
                str_views(r@) == dependents_of(self.edges@.take(i as int), bean_id@),
            decreases self.edges@.len() - i,
        {
            assert(self.edges@.take(i + 1).drop_last() =~= self.edges@.take(i as int));
            if str_eq(self.edges[i].to.as_str(), bean_id) {
                r.push(self.edges[i].from.as_str());
            }
            i = i + 1;
            assert(str_views(r@) =~= dependents_of(self.edges@.take(i as int), bean_id@));
        }
        assert(self.edges@.take(i as int) =~= self.edges@);
        r
    }

    /// Find beans that the given bean depends on, in edge order.
    pub fn find_dependencies(&self, bean_id: &str) -> (r: Vec<&str>)
        ensures
            str_views(r@) == deps_of(self.edges@, bean_id@),
    {
        let mut r: Vec<&str> = Vec::new();
        let mut i: usize = 0;
        while i < self.edges.len()
            invariant
                i <= self.edges@.len(),
                str_views(r@) == deps_of(self.edges@.take(i as int), bean_id@),
            decreases self.edges@.len() - i,
        {
            assert(self.edges@.take(i + 1).drop_last() =~= self.edges@.take(i as int));
            if str_eq(self.edges[i].from.as_str(), bean_id) {
                r.push(self.edges[i].to.as_str());
            }
            i = i + 1;
            assert(str_views(r@) =~= deps_of(self.edges@.take(i as int), bean_id@));
        }
        assert(self.edges@.take(i as int) =~= self.edges@);
        r
    }

    /// Render the graph as a text tree for display: the root, its
    /// dependencies, and theirs one level deeper, one per line.
    pub fn render_tree(&self, root: &str) -> (r: String)
        ensures
            r@ == join_lines(tree_lines(*self, root@)),
    {
        let ghost g = *self;
        let mut out = String::from_str(root);
        let deps = self.find_dependencies(root);
        let ghost dv = str_views(deps@);
        let ghost mut lines: Seq<Seq<char>> = seq![root@];
        proof {
            reveal_strlit("");
        }
        let mut i: usize = 0;
        while i < deps.len()
            invariant
                g == *self,
                dv == str_views(deps@),
                dv == deps_of(self.edges@, root@),
                i <= deps@.len(),
                lines == seq![root@] + dep_blocks(g, dv, i as int),
                out@ == join_lines(lines),
                ""@ == Seq::<char>::empty(),
            decreases deps@.len() - i,
        {
            let last = i == deps.len() - 1;
            let branch = branch_str(last);
            push_line(&mut out, "", branch, deps[i], Ghost(lines));
            proof {
                assert(""@ + branch@ + deps@[i as int]@ =~= dep_line(dv, i as int));
                lines = lines.push(dep_line(dv, i as int));
            }
            let subs = self.find_dependencies(deps[i]);
            let indent = indent_str(last);
            let ghost sv = str_views(subs@);
            let ghost base = lines;
            let mut j: usize = 0;
            while j < subs.len()
                invariant
                    g == *self,
                    dv == str_views(deps@),
                    i < deps@.len(),
                    last == (i == deps@.len() - 1),
                    indent@ == indent_prefix(last),
                    sv == str_views(subs@),
                    sv == deps_of(self.edges@, dv[i as int]),
                    j <= subs@.len(),
                    base.len() > 0,
                    lines == base + sub_lines(g, dv, i as int).take(j as int),
                    out@ == join_lines(lines),
                decreases subs@.len() - j,
            {
                let sub_last = j == subs.len() - 1;
                let sub_branch = branch_str(sub_last);
                push_line(&mut out, indent, sub_branch, subs[j], Ghost(lines));
                proof {
                    let l = indent@ + sub_branch@ + subs@[j as int]@;
                    assert(l == sub_lines(g, dv, i as int)[j as int]);
                    assert(sub_lines(g, dv, i as int).take(j + 1) =~= sub_lines(g, dv, i as int).take(j as int).push(l));
                    lines = lines.push(l);
                }
                j = j + 1;
            }
            proof {
                assert(sub_lines(g, dv, i as int).take(j as int) =~= sub_lines(g, dv, i as int));
                assert(lines =~= seq![root@] + dep_blocks(g, dv, i + 1));
            }
            i = i + 1;
        }
        out
    }

    /// Detect circular dependencies with a depth-first search from each node
    /// in turn: the cycles reported are exactly those of `search_from`, in
    /// order. Each is a closed walk of the graph, so a graph without one
    /// reports none; and a cycle through a listed bean is always noticed, so
    /// such a graph reports at least one.
    pub fn detect_cycles(&self) -> (r: Vec<Vec<String>>)
        ensures
            all_cycles(*self, r@),
            (forall|c: Seq<Seq<char>>| !is_cycle(*self, c)) ==> r@.len() == 0,
            (exists|c: Seq<Seq<char>>, m: int|
                is_cycle(*self, c) && 0 <= m < c.len() && #[trigger] is_listed(*self, c[m]))
                ==> r@.len() > 0,
            cycle_views(r@) == spec_detect_cycles(*self),
    {
        let ghost u = graph_universe(*self);
        proof {
            vstd::seq_lib::seq_to_set_is_finite(self.nodes@.map_values(|n: GraphNode| n.id@));
            vstd::seq_lib::seq_to_set_is_finite(self.edges@.map_values(|e: GraphEdge| e.to@));
        }
        let mut cycles: Vec<Vec<String>> = Vec::new();
        let mut visited: Vec<String> = Vec::new();
        let mut stack: Vec<String> = Vec::new();
        let ghost mut f: Seq<Seq<char>> = Seq::empty();
        let mut i: usize = 0;
        assert(strs(visited@) =~= Seq::<Seq<char>>::empty());
        assert(cycle_views(cycles@) =~= Seq::<Seq<Seq<char>>>::empty());
        while i < self.nodes.len()
            invariant
                u == graph_universe(*self),
                u.finite(),
                i <= self.nodes@.len(),
                stack@.len() == 0,
                strs(visited@).no_duplicates(),
                forall|k: int| 0 <= k < visited@.len() ==> u.contains(#[trigger] visited@[k]@),
                all_cycles(*self, cycles@),
                seen_split(strs(visited@), strs(stack@), f),
                cycles@.len() == 0 ==> finished_closed(*self, f),
                forall|k: int| 0 <= k < i ==> f.contains(#[trigger] self.nodes@[k].id@),
                spec_detect_cycles(*self) == search_from(
                    *self,
                    i as int,
                    strs(visited@),
                    cycle_views(cycles@),
                ),
            decreases self.nodes@.len() - i,
        {
            let id = &self.nodes[i].id;
            if !contains_str(&visited, id.as_str()) {
                assert(u.contains(id@)) by {
                    let ids = self.nodes@.map_values(|n: GraphNode| n.id@);
                    assert(ids[i as int] == id@);
                }
                assert(is_path(*self, strs(stack@)));
                let ghost f_before = f;
                let fin_next = dfs(
                    self,
                    id,
                    &mut visited,
                    &mut stack,
                    &mut cycles,
                    Ghost(u),
                    Ghost(f),
                    Ghost(u.len()),
                );
                proof {
                    f = fin_next@;
                    assert forall|k: int| 0 <= k < i implies f.contains(#[trigger] self.nodes@[k].id@) by {
                        lemma_extends_contains(f_before, f, self.nodes@[k].id@);
                    }
                }
            } else {
                proof {
                    assert(strs(stack@) =~= Seq::<Seq<char>>::empty());
                    assert(f.contains(id@));
                }
            }
            i = i + 1;
        }
        proof {
            if cycles@.len() > 0 {
                assert(is_cycle(*self, strs(cycles@[0]@)));
            } else {
                if exists|c: Seq<Seq<char>>, m: int|
                    is_cycle(*self, c) && 0 <= m < c.len() && #[trigger] is_listed(*self, c[m]) {
                    let (c, m) = choose|c: Seq<Seq<char>>, m: int|
                        is_cycle(*self, c) && 0 <= m < c.len() && #[trigger] is_listed(*self, c[m]);
                    let k = choose|k: int| 0 <= k < self.nodes@.len() && self.nodes@[k].id@ == c[m];
                    assert(f.contains(self.nodes@[k].id@));
                    lemma_no_finished_cycle(*self, f, c, m);
                }
            }
        }
        cycles
    }
}

} // verus!
