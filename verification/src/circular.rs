//! Circular dependency detection with Tarjan's strongly connected components algorithm.
//!
//! The module graph is first numbered (every module named as a key or as a
//! dependency gets a node number), then Tarjan's algorithm runs over the numbers.
use vstd::prelude::*;
use crate::text::str_eq;
use crate::findings::CircularDependency;
use crate::error::Error;

verus! {

/// Module `a` imports module `b` directly: some entry of the graph has key `a`
/// and lists `b` among its dependencies.
pub open spec fn imports(g: Seq<(String, Vec<String>)>, a: Seq<char>, b: Seq<char>) -> bool {
    exists|i: int, j: int|
        #![trigger g[i].1@[j]]
        0 <= i < g.len() && 0 <= j < g[i].1@.len() && g[i].0@ == a && g[i].1@[j]@ == b
}

/// `m` is a module of the graph: the key of an entry or a listed dependency.
pub open spec fn is_module(g: Seq<(String, Vec<String>)>, m: Seq<char>) -> bool {
    (exists|i: int| 0 <= i < g.len() && #[trigger] g[i].0@ == m) || (exists|i: int, j: int|
        #![trigger g[i].1@[j]]
        0 <= i < g.len() && 0 <= j < g[i].1@.len() && g[i].1@[j]@ == m)
}

/// No two entries of the graph have the same key.
pub open spec fn keys_distinct(g: Seq<(String, Vec<String>)>) -> bool {
    forall|i: int, j: int| 0 <= i < j < g.len() ==> g[i].0@ != g[j].0@
}

/// Step `k` of the chain `p` is a direct import.
pub open spec fn chain_step(g: Seq<(String, Vec<String>)>, p: Seq<Seq<char>>, k: int) -> bool {
    imports(g, p[k], p[k + 1])
}

/// `p` is a non-empty chain of direct imports.
pub open spec fn import_chain(g: Seq<(String, Vec<String>)>, p: Seq<Seq<char>>) -> bool {
    &&& p.len() >= 1
    &&& forall|k: int| 0 <= k < p.len() - 1 ==> #[trigger] chain_step(g, p, k)
}

/// Module `b` is reached from module `a` by following zero or more imports.
pub open spec fn imports_transitively(
    g: Seq<(String, Vec<String>)>,
    a: Seq<char>,
    b: Seq<char>,
) -> bool {
    exists|p: Seq<Seq<char>>| #[trigger] import_chain(g, p) && p[0] == a && p.last() == b
}

/// What numbering a graph's modules produces: `names` lists each module once,
/// the keys first and in order, and `adj[x]` holds the numbers of the modules
/// that module `x` imports.
pub open spec fn numbering_of(
    g: Seq<(String, Vec<String>)>,
    names: Seq<String>,
    adj: Seq<Vec<usize>>,
) -> bool {
    &&& names.len() == adj.len()
    &&& g.len() <= names.len()
    &&& forall|i: int| 0 <= i < g.len() ==> #[trigger] names[i]@ == g[i].0@
    &&& forall|x: int, y: int| 0 <= x < y < names.len() ==> names[x]@ != names[y]@
    &&& forall|x: int| 0 <= x < names.len() ==> is_module(g, #[trigger] names[x]@)
    &&& forall|m: Seq<char>| is_module(g, m) ==> exists|x: int| 0 <= x < names.len() && #[trigger] names[x]@ == m
    &&& forall|x: int, j: int| 0 <= x < adj.len() && 0 <= j < adj[x]@.len() ==> (#[trigger] adj[x]@[j]) < adj.len()
    &&& forall|x: int, y: int|
        #![trigger adj[x]@.contains(y as usize)]
        0 <= x < names.len() && 0 <= y < names.len() ==> (adj[x]@.contains(y as usize) <==> imports(g, names[x]@, names[y]@))
}

/// Some position of `names` holds the name `m`.
pub open spec fn has_name(names: Seq<String>, m: Seq<char>) -> bool {
    exists|x: int| 0 <= x < names.len() && #[trigger] names[x]@ == m
}

proof fn lemma_has_name_push(names: Seq<String>, s: String, m: Seq<char>)
    requires
        has_name(names, m),
    ensures
        has_name(names.push(s), m),
{
    let x = choose|x: int| 0 <= x < names.len() && #[trigger] names[x]@ == m;
    assert(names.push(s)[x]@ == m);
}

/// The position of the name `m` in `names`, if it is there.
fn position_of(names: &Vec<String>, m: &String) -> (r: Option<usize>)
    ensures
        match r {
            Some(x) => x < names@.len() && names@[x as int]@ == m@,
            None => !has_name(names@, m@),
        },
{
    let mut x: usize = 0;
    while x < names.len()
        invariant
            x <= names@.len(),
            forall|y: int| 0 <= y < x ==> names@[y]@ != m@,
        decreases names@.len() - x,
    {
        if str_eq(names[x].as_str(), m.as_str()) {
            return Some(x);
        }
        x = x + 1;
    }
    None
}

/// Numbers the modules of a dependency graph: every key and every listed
/// dependency gets one number, the keys first and in order, and each entry's
/// dependency list becomes a list of numbers.
pub fn number_modules(graph: &Vec<(String, Vec<String>)>) -> (r: (Vec<String>, Vec<Vec<usize>>))
    requires
        keys_distinct(graph@),
    ensures
        numbering_of(graph@, r.0@, r.1@),
{
    let ghost g = graph@;
    let mut names: Vec<String> = Vec::new();
    let mut adj: Vec<Vec<usize>> = Vec::new();
    let mut i: usize = 0;
    while i < graph.len()
        invariant
            g == graph@,
            i <= g.len(),
            names@.len() == i,
            adj@.len() == i,
            forall|k: int| 0 <= k < i ==> #[trigger] names@[k]@ == g[k].0@,
            forall|k: int| 0 <= k < i ==> (#[trigger] adj@[k])@.len() == 0,
        decreases g.len() - i,
    {
        names.push(graph[i].0.clone());
        adj.push(Vec::new());
        i = i + 1;
    }
    let mut i: usize = 0;
    while i < graph.len()
        invariant
            g == graph@,
            keys_distinct(g),
            i <= g.len(),
            names@.len() == adj@.len(),
            g.len() <= names@.len(),
            forall|k: int| 0 <= k < g.len() ==> #[trigger] names@[k]@ == g[k].0@,
            forall|x: int, y: int| 0 <= x < y < names@.len() ==> names@[x]@ != names@[y]@,
            forall|x: int| 0 <= x < names@.len() ==> is_module(g, #[trigger] names@[x]@),
            forall|k: int, j: int|
                0 <= k < i && 0 <= j < g[k].1@.len() ==> has_name(names@, #[trigger] g[k].1@[j]@),
            forall|x: int, j: int|
                0 <= x < adj@.len() && 0 <= j < adj@[x]@.len() ==> (#[trigger] adj@[x]@[j]) < adj@.len(),
            forall|x: int, y: int|
                #![trigger adj@[x]@.contains(y as usize)]
                0 <= x < i && 0 <= y < names@.len() ==> (adj@[x]@.contains(y as usize) <==> exists|j: int|
                    0 <= j < g[x].1@.len() && #[trigger] g[x].1@[j]@ == names@[y]@),
            forall|x: int| i <= x < adj@.len() ==> (#[trigger] adj@[x])@.len() == 0,
        decreases g.len() - i,
    {
        let deps = &graph[i].1;
        let mut row: Vec<usize> = Vec::new();
        let mut j: usize = 0;
        while j < deps.len()
            invariant
                g == graph@,
                keys_distinct(g),
                i < g.len(),
                deps@ == g[i as int].1@,
                j <= deps@.len(),
                names@.len() == adj@.len(),
                g.len() <= names@.len(),
                forall|k: int| 0 <= k < g.len() ==> #[trigger] names@[k]@ == g[k].0@,
                forall|x: int, y: int| 0 <= x < y < names@.len() ==> names@[x]@ != names@[y]@,
                forall|x: int| 0 <= x < names@.len() ==> is_module(g, #[trigger] names@[x]@),
                forall|k: int, jj: int|
                    0 <= k < i && 0 <= jj < g[k].1@.len() ==> has_name(names@, #[trigger] g[k].1@[jj]@),
                forall|jj: int| 0 <= jj < j ==> has_name(names@, #[trigger] deps@[jj]@),
                forall|x: int, jj: int|
                    0 <= x < adj@.len() && 0 <= jj < adj@[x]@.len() ==> (#[trigger] adj@[x]@[jj]) < adj@.len(),
                forall|jj: int| 0 <= jj < row@.len() ==> (#[trigger] row@[jj]) < adj@.len(),
                forall|x: int, y: int|
                    #![trigger adj@[x]@.contains(y as usize)]
                    0 <= x < i && 0 <= y < names@.len() ==> (adj@[x]@.contains(y as usize) <==> exists|jj: int|
                        0 <= jj < g[x].1@.len() && #[trigger] g[x].1@[jj]@ == names@[y]@),
                forall|y: int|
                    #![trigger row@.contains(y as usize)]
                    0 <= y < names@.len() ==> (row@.contains(y as usize) <==> exists|jj: int|
                        0 <= jj < j && #[trigger] deps@[jj]@ == names@[y]@),
                forall|x: int| i <= x < adj@.len() ==> (#[trigger] adj@[x])@.len() == 0,
            decreases deps@.len() - j,
        {
            let d = &deps[j];
            let ghost names0 = names@;
            let ghost adj0 = adj@;
            let ghost row0 = row@;
            let id = match position_of(&names, d) {
                Some(x) => x,
                None => {
                    proof {
                        assert(is_module(g, d@)) by {
                            assert(g[i as int].1@[j as int]@ == d@);
                        }
                    }
                    names.push(d.clone());
                    adj.push(Vec::new());
                    names.len() - 1
                },
            };
            row.push(id);
            let count = names.len();
            proof {
                assert(names@.len() == count);
                assert(names@[id as int]@ == d@);
                assert forall|x: int, y: int| 0 <= x < y < names@.len() implies names@[x]@ != names@[y]@ by {
                    if y == names0.len() {
                        assert(names@[x] == names0[x]);
                    }
                }
                assert forall|x: int| 0 <= x < names@.len() implies is_module(g, #[trigger] names@[x]@) by {
                    if x < names0.len() {
                        assert(names@[x] == names0[x]);
                    }
                }
                assert forall|k: int, jj: int|
                    0 <= k < i && 0 <= jj < g[k].1@.len() implies has_name(names@, #[trigger] g[k].1@[jj]@) by {
                    if names@.len() > names0.len() {
                        lemma_has_name_push(names0, names@.last(), g[k].1@[jj]@);
                        assert(names@ == names0.push(names@.last()));
                    }
                }
                assert forall|jj: int| 0 <= jj < j + 1 implies has_name(names@, #[trigger] deps@[jj]@) by {
                    if jj < j {
                        if names@.len() > names0.len() {
                            lemma_has_name_push(names0, names@.last(), deps@[jj]@);
                            assert(names@ == names0.push(names@.last()));
                        }
                    } else {
                        assert(names@[id as int]@ == deps@[jj]@);
                    }
                }
                assert forall|x: int, jj: int|
                    0 <= x < adj@.len() && 0 <= jj < adj@[x]@.len() implies (#[trigger] adj@[x]@[jj]) < adj@.len() by {
                    if x < adj0.len() {
                        assert(adj@[x] == adj0[x]);
                    }
                }
                assert forall|x: int, y: int|
                    #![trigger adj@[x]@.contains(y as usize)]
                    0 <= x < i && 0 <= y < names@.len() implies (adj@[x]@.contains(y as usize) <==> exists|jj: int|
                        0 <= jj < g[x].1@.len() && #[trigger] g[x].1@[jj]@ == names@[y]@) by {
                    assert(adj@[x] == adj0[x]);
                    if y < names0.len() {
                        assert(names@[y] == names0[y]);
                        assert(adj0[x]@.contains(y as usize) <==> exists|jj: int|
                            0 <= jj < g[x].1@.len() && #[trigger] g[x].1@[jj]@ == names0[y]@);
                    } else {
                        if adj@[x]@.contains(y as usize) {
                            let q = choose|q: int| 0 <= q < adj@[x]@.len() && adj@[x]@[q] == y as usize;
                            assert(adj0[x]@[q] < adj0.len());
                        }
                        if exists|jj: int| 0 <= jj < g[x].1@.len() && #[trigger] g[x].1@[jj]@ == names@[y]@ {
                            let jj = choose|jj: int| 0 <= jj < g[x].1@.len() && #[trigger] g[x].1@[jj]@ == names@[y]@;
                            assert(has_name(names0, g[x].1@[jj]@));
                            let z = choose|z: int| 0 <= z < names0.len() && #[trigger] names0[z]@ == g[x].1@[jj]@;
                            assert(names@[z] == names0[z]);
                        }
                    }
                }
                assert forall|y: int|
                    #![trigger row@.contains(y as usize)]
                    0 <= y < names@.len() implies (row@.contains(y as usize) <==> exists|jj: int|
                        0 <= jj < j + 1 && #[trigger] deps@[jj]@ == names@[y]@) by {
                    if y < names0.len() {
                        assert(names@[y] == names0[y]);
                    }
                    if row@.contains(y as usize) {
                        let q = choose|q: int| 0 <= q < row@.len() && row@[q] == y as usize;
                        if q < row0.len() {
                            assert(row0[q] == y as usize);
                            assert(row0[q] < adj0.len());
                            assert(row0.contains(y as usize));
                            let jj = choose|jj: int| 0 <= jj < j && #[trigger] deps@[jj]@ == names0[y]@;
                            assert(deps@[jj]@ == names@[y]@);
                        } else {
                            assert(id == y as usize);
                            assert(deps@[j as int]@ == names@[y]@);
                        }
                    }
                    if exists|jj: int| 0 <= jj < j + 1 && #[trigger] deps@[jj]@ == names@[y]@ {
                        let jj = choose|jj: int| 0 <= jj < j + 1 && #[trigger] deps@[jj]@ == names@[y]@;
                        if jj == j {
                            if y != id as int {
                                if y < id {
                                    assert(names@[y]@ != names@[id as int]@);
                                } else {
                                    assert(names@[id as int]@ != names@[y]@);
                                }
                            }
                            assert(row@[row0.len() as int] == id);
                        } else {
                            assert(y < names0.len()) by {
                                if y >= names0.len() {
                                    assert(has_name(names0, deps@[jj]@));
                                    let z = choose|z: int| 0 <= z < names0.len() && #[trigger] names0[z]@ == deps@[jj]@;
                                    assert(names@[z] == names0[z]);
                                    assert(names@[z]@ != names@[y]@);
                                }
                            }
                            assert(row0.contains(y as usize));
                            let q = choose|q: int| 0 <= q < row0.len() && row0[q] == y as usize;
                            assert(row@[q] == y as usize);
                        }
                    }
                }
                assert forall|x: int| i <= x < adj@.len() implies (#[trigger] adj@[x])@.len() == 0 by {
                    if x < adj0.len() {
                        assert(adj@[x] == adj0[x]);
                    }
                }
            }
            j = j + 1;
        }
        let ghost adj0 = adj@;
        adj.set(i, row);
        proof {
            assert forall|x: int, jj: int|
                0 <= x < adj@.len() && 0 <= jj < adj@[x]@.len() implies (#[trigger] adj@[x]@[jj]) < adj@.len() by {
                if x != i as int {
                    assert(adj@[x] == adj0[x]);
                }
            }
            assert forall|x: int, y: int|
                #![trigger adj@[x]@.contains(y as usize)]
                0 <= x < i + 1 && 0 <= y < names@.len() implies (adj@[x]@.contains(y as usize) <==> exists|jj: int|
                    0 <= jj < g[x].1@.len() && #[trigger] g[x].1@[jj]@ == names@[y]@) by {
                if x < i {
                    assert(adj@[x] == adj0[x]);
                }
            }
            assert forall|x: int| i + 1 <= x < adj@.len() implies (#[trigger] adj@[x])@.len() == 0 by {
                assert(adj@[x] == adj0[x]);
            }
        }
        i = i + 1;
    }
    proof {
        assert forall|m: Seq<char>| is_module(g, m) implies exists|x: int|
            0 <= x < names@.len() && #[trigger] names@[x]@ == m by {
            if exists|k: int| 0 <= k < g.len() && #[trigger] g[k].0@ == m {
                let k = choose|k: int| 0 <= k < g.len() && #[trigger] g[k].0@ == m;
                assert(names@[k]@ == m);
            } else {
                let (k, jj) = choose|k: int, jj: int|
                    #![trigger g[k].1@[jj]]
                    0 <= k < g.len() && 0 <= jj < g[k].1@.len() && g[k].1@[jj]@ == m;
                assert(has_name(names@, g[k].1@[jj]@));
            }
        }
        assert forall|x: int, y: int|
            #![trigger adj@[x]@.contains(y as usize)]
            0 <= x < names@.len() && 0 <= y < names@.len() implies (adj@[x]@.contains(y as usize)
                <==> imports(g, names@[x]@, names@[y]@)) by {
            if imports(g, names@[x]@, names@[y]@) {
                let (k, jj) = choose|k: int, jj: int|
                    #![trigger g[k].1@[jj]]
                    0 <= k < g.len() && 0 <= jj < g[k].1@.len() && g[k].0@ == names@[x]@ && g[k].1@[jj]@
                        == names@[y]@;
                assert(names@[k]@ == names@[x]@);
                if k != x {
                    if k < x {
                        assert(names@[k]@ != names@[x]@);
                    } else {
                        assert(names@[x]@ != names@[k]@);
                    }
                }
                assert(adj@[x]@.contains(y as usize));
            }
            if adj@[x]@.contains(y as usize) {
                let jj = choose|jj: int| 0 <= jj < g[x].1@.len() && #[trigger] g[x].1@[jj]@ == names@[y]@;
                assert(g[x].1@[jj]@ == names@[y]@);
                assert(imports(g, names@[x]@, names@[y]@));
            }
        }
    }
    (names, adj)
}

/// Number of `false` entries in a sequence of flags.
pub open spec fn count_false(s: Seq<bool>) -> nat
    decreases s.len(),
{
    if s.len() == 0 {
        0
    } else {
        count_false(s.drop_last()) + if s.last() {
            0nat
        } else {
            1nat
        }
    }
}

proof fn lemma_count_false_set(s: Seq<bool>, i: int)
    requires
        0 <= i < s.len(),
        !s[i],
    ensures
        count_false(s.update(i, true)) + 1 == count_false(s),
    decreases s.len(),
{
    if i == s.len() - 1 {
        assert(s.update(i, true).drop_last() =~= s.drop_last());
    } else {
        assert(s.update(i, true).drop_last() =~= s.drop_last().update(i, true));
        lemma_count_false_set(s.drop_last(), i);
    }
}

proof fn lemma_count_false_all(n: nat)
    ensures
        count_false(Seq::new(n, |i: int| false)) == n,
    decreases n,
{
    if n > 0 {
        assert(Seq::new(n, |i: int| false).drop_last() =~= Seq::new((n - 1) as nat, |i: int| false));
        lemma_count_false_all((n - 1) as nat);
    }
}

/// Step `i` of `p` follows an edge of `adj`.
pub open spec fn path_step(adj: Seq<Vec<usize>>, p: Seq<usize>, i: int) -> bool {
    0 <= p[i] < adj.len() && adj[p[i] as int]@.contains(p[i + 1])
}

/// `p` is a non-empty walk along the edges of `adj`.
pub open spec fn is_path(adj: Seq<Vec<usize>>, p: Seq<usize>) -> bool {
    &&& p.len() >= 1
    &&& forall|i: int| 0 <= i < p.len() - 1 ==> #[trigger] path_step(adj, p, i)
}

/// Node `b` can be reached from node `a` by following zero or more edges.
pub open spec fn reaches(adj: Seq<Vec<usize>>, a: usize, b: usize) -> bool {
    exists|p: Seq<usize>| #[trigger] is_path(adj, p) && p[0] == a && p.last() == b
}

proof fn lemma_reaches_refl(adj: Seq<Vec<usize>>, a: usize)
    ensures
        reaches(adj, a, a),
{
    let p = seq![a];
    assert(is_path(adj, p) && p[0] == a && p.last() == a);
}

proof fn lemma_reaches_edge(adj: Seq<Vec<usize>>, a: usize, b: usize)
    requires
        a < adj.len(),
        adj[a as int]@.contains(b),
    ensures
        reaches(adj, a, b),
{
    let p = seq![a, b];
    assert(path_step(adj, p, 0));
    assert(is_path(adj, p) && p[0] == a && p.last() == b);
}

proof fn lemma_reaches_trans(adj: Seq<Vec<usize>>, a: usize, b: usize, c: usize)
    requires
        reaches(adj, a, b),
        reaches(adj, b, c),
    ensures
        reaches(adj, a, c),
{
    let p1 = choose|p: Seq<usize>| is_path(adj, p) && p[0] == a && p.last() == b;
    let p2 = choose|p: Seq<usize>| is_path(adj, p) && p[0] == b && p.last() == c;
    let q = p1 + p2.drop_first();
    assert forall|i: int| 0 <= i < q.len() - 1 implies #[trigger] path_step(adj, q, i) by {
        if i < p1.len() - 1 {
            assert(path_step(adj, p1, i));
        } else if i == p1.len() - 1 {
            assert(path_step(adj, p2, 0));
        } else {
            assert(path_step(adj, p2, i - p1.len() + 1));
        }
    }
    if p2.len() == 1 {
        assert(q.last() == p1.last());
    }
    assert(is_path(adj, q) && q[0] == a && q.last() == c);
}

/// Visit numbers: `order[k]` is the node numbered `k`, for every numbered node.
#[verifier::opaque]
spec fn numbering_ok(n: int, visited: Seq<bool>, index: Seq<usize>, order: Seq<usize>) -> bool {
    &&& forall|k: int|
        0 <= k < order.len() ==> {
            let x = #[trigger] order[k];
            &&& x < n
            &&& visited[x as int]
            &&& index[x as int] == k
        }
    &&& forall|x: int|
        0 <= x < n && #[trigger] visited[x] ==> index[x] < order.len() && order[index[x] as int] == x
}

/// The stack holds the marked nodes in increasing number; each reaches the
/// stacked node numbered by its low-link, which is between the bottom's number
/// and its own.
#[verifier::opaque]
spec fn stack_ok(
    adj: Seq<Vec<usize>>,
    stack: Seq<usize>,
    on_stack: Seq<bool>,
    visited: Seq<bool>,
    index: Seq<usize>,
    low: Seq<usize>,
    order: Seq<usize>,
    comp: Seq<int>,
) -> bool {
    let n = adj.len() as int;
    &&& forall|i: int|
        0 <= i < stack.len() ==> {
            let x = #[trigger] stack[i];
            &&& x < n
            &&& on_stack[x as int]
            &&& index[stack[0] as int] <= low[x as int] <= index[x as int]
            &&& on_stack[order[low[x as int] as int] as int]
            &&& reaches(adj, x, order[low[x as int] as int])
        }
    &&& forall|x: int|
        0 <= x < n && #[trigger] on_stack[x] ==> visited[x] && stack.contains(x as usize) && comp[x]
            < 0
    &&& forall|i: int, j: int|
        0 <= i < j < stack.len() ==> index[stack[i] as int] < index[stack[j] as int]
}

/// Each recorded component is non-empty, holds no node twice, and its members
/// reach its last member and back; every edge out of a recorded component
/// leads into a component recorded no later. `pending` holds nodes assigned to
/// the component being built.
#[verifier::opaque]
spec fn comp_ok(
    adj: Seq<Vec<usize>>,
    sccs: Seq<Vec<usize>>,
    comp: Seq<int>,
    visited: Seq<bool>,
    on_stack: Seq<bool>,
    pending: Seq<usize>,
) -> bool {
    let n = adj.len() as int;
    let nsccs = sccs.len() as int;
    &&& forall|x: int| 0 <= x < n ==> (#[trigger] visited[x] <==> (on_stack[x] || comp[x] >= 0))
    &&& forall|i: int, j: int|
        0 <= i < nsccs && 0 <= j < sccs[i]@.len() ==> {
            let x = #[trigger] sccs[i]@[j];
            &&& x < n
            &&& comp[x as int] == i
            &&& reaches(adj, x, sccs[i]@.last())
            &&& reaches(adj, sccs[i]@.last(), x)
        }
    &&& forall|x: int|
        0 <= x < n && #[trigger] comp[x] >= 0 ==> (comp[x] < nsccs && sccs[comp[x]]@.contains(
            x as usize,
        )) || (comp[x] == nsccs && pending.contains(x as usize))
    &&& forall|i: int| 0 <= i < nsccs ==> (#[trigger] sccs[i]@).len() > 0 && sccs[i]@.no_duplicates()
    &&& forall|x: int, j: int|
        #![trigger comp[x], adj[x]@[j]]
        0 <= x < n && 0 <= comp[x] < nsccs && 0 <= j < adj[x]@.len() ==> {
            let y = adj[x]@[j] as int;
            0 <= comp[y] <= comp[x]
        }
    &&& pending.no_duplicates()
    &&& forall|j: int|
        0 <= j < pending.len() ==> {
            let x = #[trigger] pending[j];
            x < n && comp[x as int] == nsccs
        }
}

/// Working state of one run of Tarjan's algorithm over numbered nodes.
struct Tarjan {
    adj: Vec<Vec<usize>>,
    visited: Vec<bool>,
    index: Vec<usize>,
    low: Vec<usize>,
    on_stack: Vec<bool>,
    stack: Vec<usize>,
    sccs: Vec<Vec<usize>>,
    counter: usize,
    /// Nodes in the order in which they were first visited.
    order: Ghost<Seq<usize>>,
    /// The component each finished node was assigned to (negative: none yet).
    comp: Ghost<Seq<int>>,
}

impl Tarjan {
    spec fn n(&self) -> int {
        self.adj@.len() as int
    }

    /// Array sizes, edge targets and the visit counter.
    spec fn shaped(&self) -> bool {
        let n = self.adj@.len() as int;
        &&& n <= usize::MAX
        &&& self.visited@.len() == n
        &&& self.index@.len() == n
        &&& self.low@.len() == n
        &&& self.on_stack@.len() == n
        &&& self.comp@.len() == n
        &&& forall|x: int, j: int|
            0 <= x < n && 0 <= j < self.adj@[x]@.len() ==> (#[trigger] self.adj@[x]@[j]) < n
        &&& self.order@.len() == self.counter
        &&& self.counter + count_false(self.visited@) == n
    }

    spec fn numbered(&self) -> bool {
        numbering_ok(self.n(), self.visited@, self.index@, self.order@)
    }

    spec fn stacked(&self) -> bool {
        stack_ok(
            self.adj@,
            self.stack@,
            self.on_stack@,
            self.visited@,
            self.index@,
            self.low@,
            self.order@,
            self.comp@,
        )
    }

    spec fn components(&self, pending: Seq<usize>) -> bool {
        comp_ok(self.adj@, self.sccs@, self.comp@, self.visited@, self.on_stack@, pending)
    }

    spec fn inv(&self, pending: Seq<usize>) -> bool {
        &&& self.shaped()
        &&& self.numbered()
        &&& self.stacked()
        &&& self.components(pending)
    }

    spec fn wf(&self) -> bool {
        self.inv(Seq::empty())
    }

    /// The edge from `x` to `y` leads into a recorded component, or to a stacked
    /// node whose number is not below the low-link of `x`.
    spec fn settled(&self, x: int, y: usize) -> bool {
        self.comp@[y as int] >= 0 || (self.on_stack@[y as int] && self.low@[x] <= self.index@[
            y as int
        ])
    }

    /// Every node reachable from a node of a recorded component lies in a
    /// component recorded no later.
    proof fn lemma_closed(&self, x: usize, y: usize)
        requires
            self.wf(),
            x < self.n(),
            self.comp@[x as int] >= 0,
            reaches(self.adj@, x, y),
        ensures
            0 <= self.comp@[y as int] <= self.comp@[x as int],
    {
        let path = choose|p: Seq<usize>| #[trigger]
            is_path(self.adj@, p) && p[0] == x && p.last() == y;
        self.lemma_closed_prefix(path, x, path.len() - 1);
    }

    proof fn lemma_closed_prefix(&self, path: Seq<usize>, x: usize, k: int)
        requires
            self.wf(),
            x < self.n(),
            self.comp@[x as int] >= 0,
            is_path(self.adj@, path),
            path[0] == x,
            0 <= k < path.len(),
        ensures
            path[k] < self.n(),
            0 <= self.comp@[path[k] as int] <= self.comp@[x as int],
        decreases k,
    {
        reveal(comp_ok);
        if k > 0 {
            self.lemma_closed_prefix(path, x, k - 1);
            assert(path_step(self.adj@, path, k - 1));
            let a = path[k - 1] as int;
            assert(self.comp@[a] < self.sccs@.len());
            let j = choose|j: int| 0 <= j < self.adj@[a]@.len() && self.adj@[a]@[j] == path[k];
            assert(self.adj@[a]@[j] < self.n());
            assert(0 <= self.comp@[self.adj@[a]@[j] as int] <= self.comp@[a]);
        }
    }

    proof fn lemma_stack_at(&self, i: int)
        requires
            self.wf(),
            0 <= i < self.stack@.len(),
        ensures
            ({
                let x = self.stack@[i];
                &&& x < self.n()
                &&& self.on_stack@[x as int]
                &&& self.visited@[x as int]
                &&& self.comp@[x as int] < 0
                &&& self.index@[x as int] < self.counter
                &&& self.order@[self.index@[x as int] as int] == x
                &&& self.index@[self.stack@[0] as int] <= self.low@[x as int] <= self.index@[x as int]
                &&& self.on_stack@[self.order@[self.low@[x as int] as int] as int]
                &&& reaches(self.adj@, x, self.order@[self.low@[x as int] as int])
            }),
    {
        reveal(stack_ok);
        reveal(numbering_ok);
        let x = self.stack@[i];
        assert(self.on_stack@[x as int]);
        assert(self.visited@[x as int]);
    }

    proof fn lemma_stack_sorted(&self, i: int, j: int)
        requires
            self.stacked(),
            0 <= i < j < self.stack@.len(),
        ensures
            self.index@[self.stack@[i] as int] < self.index@[self.stack@[j] as int],
    {
        reveal(stack_ok);
    }

    /// The position of a node marked as stacked.
    proof fn lemma_find_on_stack(&self, x: int) -> (k: int)
        requires
            self.wf(),
            0 <= x < self.n(),
            self.on_stack@[x],
        ensures
            0 <= k < self.stack@.len(),
            self.stack@[k] == x,
    {
        reveal(stack_ok);
        choose|k: int| 0 <= k < self.stack@.len() && self.stack@[k] == x
    }

    proof fn lemma_visited_at(&self, x: int)
        requires
            self.wf(),
            0 <= x < self.n(),
        ensures
            self.visited@[x] ==> self.index@[x] < self.counter && self.order@[self.index@[x] as int]
                == x,
            self.visited@[x] <==> (self.on_stack@[x] || self.comp@[x] >= 0),
            self.on_stack@[x] ==> self.comp@[x] < 0,
    {
        reveal(stack_ok);
        reveal(numbering_ok);
        reveal(comp_ok);
        assert(self.visited@[x] <==> (self.on_stack@[x] || self.comp@[x] >= 0));
    }

    proof fn lemma_order_at(&self, k: int)
        requires
            self.wf(),
            0 <= k < self.counter,
        ensures
            self.order@[k] < self.n(),
            self.visited@[self.order@[k] as int],
            self.index@[self.order@[k] as int] == k,
    {
        reveal(numbering_ok);
        let x = self.order@[k];
    }

    fn new(adj: Vec<Vec<usize>>) -> (t: Tarjan)
        requires
            forall|x: int, j: int|
                0 <= x < adj@.len() && 0 <= j < adj@[x]@.len() ==> (#[trigger] adj@[x]@[j])
                    < adj@.len(),
        ensures
            t.wf(),
            t.adj == adj,
            t.stack@.len() == 0,
            t.sccs@.len() == 0,
            t.counter == 0,
            forall|x: int| 0 <= x < adj@.len() ==> !(#[trigger] t.visited@[x]),
    {
        let n = adj.len();
        let mut visited: Vec<bool> = Vec::new();
        let mut index: Vec<usize> = Vec::new();
        let mut low: Vec<usize> = Vec::new();
        let mut on_stack: Vec<bool> = Vec::new();
        let mut i: usize = 0;
        while i < n
            invariant
                i <= n,
                visited@ =~= Seq::new(i as nat, |k: int| false),
                on_stack@ =~= Seq::new(i as nat, |k: int| false),
                index@.len() == i,
                low@.len() == i,
            decreases n - i,
        {
            visited.push(false);
            index.push(0);
            low.push(0);
            on_stack.push(false);
            i = i + 1;
        }
        proof {
            lemma_count_false_all(n as nat);
        }
        let t = Tarjan {
            adj,
            visited,
            index,
            low,
            on_stack,
            stack: Vec::new(),
            sccs: Vec::new(),
            counter: 0,
            order: Ghost(Seq::empty()),
            comp: Ghost(Seq::new(n as nat, |k: int| -1int)),
        };
        assert(t.wf()) by {
            reveal(numbering_ok);
            reveal(stack_ok);
            reveal(comp_ok);
        }
        t
    }

    /// Numbers `v`, pushes it on the stack and starts its low-link at its own number.
    fn begin_visit(&mut self, v: usize)
        requires
            old(self).wf(),
            v < old(self).n(),
            !old(self).visited@[v as int],
        ensures
            final(self).wf(),
            final(self).adj == old(self).adj,
            final(self).visited@ == old(self).visited@.update(v as int, true),
            final(self).index@ == old(self).index@.update(v as int, old(self).counter),
            final(self).low@ == old(self).low@.update(v as int, old(self).counter),
            final(self).on_stack@ == old(self).on_stack@.update(v as int, true),
            final(self).counter == old(self).counter + 1,
            final(self).stack@ == old(self).stack@.push(v),
            final(self).sccs@ == old(self).sccs@,
            final(self).comp@ == old(self).comp@,
    {
        let ghost o = *self;
        proof {
            lemma_count_false_set(self.visited@, v as int);
            o.lemma_visited_at(v as int);
        }
        let c = self.counter;
        self.visited.set(v, true);
        self.index.set(v, c);
        self.low.set(v, c);
        self.counter = c + 1;
        self.order = Ghost(self.order@.push(v));
        self.stack.push(v);
        self.on_stack.set(v, true);
        let ghost p = o.stack@.len() as int;
        assert(self.stack@[p] == v);
        assert(self.numbered()) by {
            reveal(numbering_ok);
            assert forall|k: int| 0 <= k < self.counter implies {
                let x = #[trigger] self.order@[k];
                &&& x < self.n()
                &&& self.visited@[x as int]
                &&& self.index@[x as int] == k
            } by {
                if k < c {
                    let x = o.order@[k];
                    assert(o.visited@[x as int]);
                }
            }
        }
        assert(self.stacked()) by {
            reveal(stack_ok);
            reveal(numbering_ok);
            assert forall|i: int| 0 <= i < self.stack@.len() implies {
                let x = #[trigger] self.stack@[i];
                &&& x < self.n()
                &&& self.on_stack@[x as int]
                &&& self.index@[self.stack@[0] as int] <= self.low@[x as int] <= self.index@[x as int]
                &&& self.on_stack@[self.order@[self.low@[x as int] as int] as int]
                &&& reaches(self.adj@, x, self.order@[self.low@[x as int] as int])
            } by {
                if i < p {
                    let x = o.stack@[i];
                    assert(o.stack@[i] == self.stack@[i]);
                    assert(o.on_stack@[x as int]);
                    assert(x != v);
                    assert(o.order@[o.low@[x as int] as int] != v);
                    if i != 0 {
                        assert(self.stack@[0] == o.stack@[0]);
                    }
                } else {
                    lemma_reaches_refl(self.adj@, v);
                    if p > 0 {
                        let s0 = o.stack@[0];
                        assert(o.on_stack@[s0 as int]);
                        assert(o.visited@[s0 as int]);
                        assert(self.stack@[0] == s0);
                    }
                }
            }
            assert forall|x: int|
                0 <= x < self.n() && #[trigger] self.on_stack@[x] implies self.visited@[x]
                    && self.stack@.contains(x as usize) && self.comp@[x] < 0 by {
                if x != v as int {
                    assert(o.stack@.contains(x as usize));
                    let k = choose|k: int| 0 <= k < o.stack@.len() && o.stack@[k] == x as usize;
                    assert(self.stack@[k] == x as usize);
                } else {
                    assert(self.stack@[p] == v);
                }
            }
            assert forall|i: int, j: int| 0 <= i < j < self.stack@.len() implies self.index@[self.stack@[i] as int]
                < self.index@[self.stack@[j] as int] by {
                let x = self.stack@[i];
                assert(o.stack@[i] == x);
                assert(o.on_stack@[x as int]);
                assert(o.visited@[x as int]);
                if j < p {
                    assert(o.stack@[j] == self.stack@[j]);
                    let y = o.stack@[j];
                    assert(o.on_stack@[y as int]);
                    assert(o.visited@[y as int]);
                }
            }
        }
        assert(self.components(Seq::empty())) by {
            reveal(comp_ok);
            assert forall|x: int| 0 <= x < self.n() implies (#[trigger] self.visited@[x] <==> (
                self.on_stack@[x] || self.comp@[x] >= 0)) by {
                assert(o.visited@[x] <==> (o.on_stack@[x] || o.comp@[x] >= 0));
            }
        }
    }

    /// Lowers the low-link of the stacked node `v` to `value` when that is smaller.
    fn lower_low(&mut self, v: usize, value: usize, Ghost(pos): Ghost<int>)
        requires
            old(self).wf(),
            0 <= pos < old(self).stack@.len(),
            old(self).stack@[pos] == v,
            value >= old(self).low@[v as int] || (value < old(self).counter && old(
                self,
            ).on_stack@[old(self).order@[value as int] as int] && reaches(
                old(self).adj@,
                v,
                old(self).order@[value as int],
            ) && old(self).index@[old(self).stack@[0] as int] <= value),
        ensures
            final(self).wf(),
            final(self).low@ == old(self).low@.update(
                v as int,
                if value < old(self).low@[v as int] {
                    value
                } else {
                    old(self).low@[v as int]
                },
            ),
            final(self).adj == old(self).adj,
            final(self).visited@ == old(self).visited@,
            final(self).index@ == old(self).index@,
            final(self).on_stack@ == old(self).on_stack@,
            final(self).stack@ == old(self).stack@,
            final(self).sccs@ == old(self).sccs@,
            final(self).counter == old(self).counter,
            final(self).order@ == old(self).order@,
            final(self).comp@ == old(self).comp@,
    {
        let ghost o = *self;
        proof {
            o.lemma_stack_at(pos);
        }
        if value < self.low[v] {
            self.low.set(v, value);
            assert(self.stacked()) by {
                reveal(stack_ok);
                assert forall|i: int| 0 <= i < self.stack@.len() implies {
                    let x = #[trigger] self.stack@[i];
                    &&& x < self.n()
                    &&& self.on_stack@[x as int]
                    &&& self.index@[self.stack@[0] as int] <= self.low@[x as int] <= self.index@[x as int]
                    &&& self.on_stack@[self.order@[self.low@[x as int] as int] as int]
                    &&& reaches(self.adj@, x, self.order@[self.low@[x as int] as int])
                } by {
                    assert(o.stack@[i] == self.stack@[i]);
                    if i != pos {
                        if i < pos {
                            assert(o.index@[o.stack@[i] as int] < o.index@[o.stack@[pos] as int]);
                        } else {
                            assert(o.index@[o.stack@[pos] as int] < o.index@[o.stack@[i] as int]);
                        }
                    }
                }
            }
        }
    }

    /// One pop of the component loop keeps the stack invariant.
    proof fn lemma_pop_stacked(pre: Tarjan, post: Tarjan, pend: Seq<usize>, w: usize)
        requires
            pre.inv(pend),
            pre.stack@.len() > 0,
            w == pre.stack@.last(),
            post.stack@ == pre.stack@.drop_last(),
            post.on_stack@ == pre.on_stack@.update(w as int, false),
            post.comp@ == pre.comp@.update(w as int, pre.sccs@.len() as int),
            post.adj == pre.adj,
            post.visited@ == pre.visited@,
            post.index@ == pre.index@,
            post.low@ == pre.low@,
            post.counter == pre.counter,
            post.order@ == pre.order@,
            post.sccs@ == pre.sccs@,
        ensures
            post.stacked(),
            w < pre.n(),
            pre.comp@[w as int] < 0,
    {
        let last = pre.stack@.len() - 1;
        let nsccs = pre.sccs@.len() as int;
        let scc = pend.push(w);
        assert(w == pre.stack@[last]);
        assert(w < pre.n() && pre.on_stack@[w as int] && pre.comp@[w as int] < 0) by {
            reveal(stack_ok);
        }
        assert(post.stacked()) by {
            reveal(stack_ok);
            assert forall|i: int| 0 <= i < post.stack@.len() implies {
                let x = #[trigger] post.stack@[i];
                &&& x < post.n()
                &&& post.on_stack@[x as int]
                &&& post.index@[post.stack@[0] as int] <= post.low@[x as int] <= post.index@[x as int]
                &&& post.on_stack@[post.order@[post.low@[x as int] as int] as int]
                &&& reaches(post.adj@, x, post.order@[post.low@[x as int] as int])
            } by {
                reveal(numbering_ok);
                let x = pre.stack@[i];
                assert(post.stack@[i] == x);
                assert(pre.index@[x as int] < pre.index@[pre.stack@[last] as int]);
                let y = pre.order@[pre.low@[x as int] as int];
                assert(pre.on_stack@[y as int]);
                let k = choose|k: int| 0 <= k < pre.stack@.len() && pre.stack@[k] == y;
                assert(pre.visited@[y as int]);
                assert(pre.index@[y as int] == pre.low@[x as int]);
                if k > i {
                    assert(pre.index@[pre.stack@[i] as int] < pre.index@[pre.stack@[k] as int]);
                }
                assert(k <= i);
                assert(post.stack@[k] == y);
                if k < last {
                    assert(pre.index@[pre.stack@[k] as int] < pre.index@[pre.stack@[last] as int]);
                }
                assert(y != w);
            }
            assert forall|x: int|
                0 <= x < post.n() && #[trigger] post.on_stack@[x] implies post.visited@[x]
                    && post.stack@.contains(x as usize) && post.comp@[x] < 0 by {
                assert(x != w as int);
                assert(pre.stack@.contains(x as usize));
                let k = choose|k: int| 0 <= k < pre.stack@.len() && pre.stack@[k] == x as usize;
                assert(k != last);
                assert(post.stack@[k] == x as usize);
            }
        }
    }

    /// One pop of the component loop keeps the component invariant, with the
    /// popped node added to the pending component.
    proof fn lemma_pop_components(pre: Tarjan, post: Tarjan, pend: Seq<usize>, w: usize)
        requires
            pre.inv(pend),
            pre.stack@.len() > 0,
            w == pre.stack@.last(),
            post.stack@ == pre.stack@.drop_last(),
            post.on_stack@ == pre.on_stack@.update(w as int, false),
            post.comp@ == pre.comp@.update(w as int, pre.sccs@.len() as int),
            post.adj == pre.adj,
            post.visited@ == pre.visited@,
            post.index@ == pre.index@,
            post.low@ == pre.low@,
            post.counter == pre.counter,
            post.order@ == pre.order@,
            post.sccs@ == pre.sccs@,
        ensures
            post.components(pend.push(w)),
    {
        let last = pre.stack@.len() - 1;
        let nsccs = pre.sccs@.len() as int;
        let scc = pend.push(w);
        assert(w == pre.stack@[last]);
        assert(w < pre.n() && pre.on_stack@[w as int] && pre.comp@[w as int] < 0) by {
            reveal(stack_ok);
        }
        assert(!pend.contains(w)) by {
            reveal(comp_ok);
            if pend.contains(w) {
                let j = choose|j: int| 0 <= j < pend.len() && pend[j] == w;
                assert(pre.comp@[pend[j] as int] == nsccs);
            }
        }
        assert(post.components(scc)) by {
            reveal(comp_ok);
            assert forall|i: int, j: int|
                0 <= i < nsccs && 0 <= j < post.sccs@[i]@.len() implies {
                    let x = #[trigger] post.sccs@[i]@[j];
                    &&& x < post.n()
                    &&& post.comp@[x as int] == i
                    &&& reaches(post.adj@, x, post.sccs@[i]@.last())
                    &&& reaches(post.adj@, post.sccs@[i]@.last(), x)
                } by {
                assert(pre.comp@[pre.sccs@[i]@[j] as int] == i);
            }
            assert forall|x: int|
                0 <= x < post.n() && #[trigger] post.comp@[x] >= 0 implies (post.comp@[x] < nsccs
                    && post.sccs@[post.comp@[x]]@.contains(x as usize)) || (post.comp@[x] == nsccs
                    && scc.contains(x as usize)) by {
                if x == w as int {
                    assert(scc[pend.len() as int] == w);
                } else {
                    assert(pre.comp@[x] >= 0);
                    if pre.comp@[x] == nsccs {
                        let j = choose|j: int| 0 <= j < pend.len() && pend[j] == x as usize;
                        assert(scc[j] == x as usize);
                    }
                }
            }
            assert forall|j: int| 0 <= j < scc.len() implies {
                let x = #[trigger] scc[j];
                x < post.n() && post.comp@[x as int] == nsccs
            } by {
                if j < pend.len() {
                    assert(scc[j] == pend[j]);
                }
            }
            assert forall|x: int| 0 <= x < post.n() implies (#[trigger] post.visited@[x] <==> (
                post.on_stack@[x] || post.comp@[x] >= 0)) by {
                assert(pre.visited@[x] <==> (pre.on_stack@[x] || pre.comp@[x] >= 0));
            }
            assert forall|x: int, j: int|
                #![trigger post.comp@[x], post.adj@[x]@[j]]
                0 <= x < post.n() && 0 <= post.comp@[x] < nsccs && 0 <= j < post.adj@[x]@.len()
                implies {
                    let y = post.adj@[x]@[j] as int;
                    0 <= post.comp@[y] <= post.comp@[x]
                } by {
                assert(x != w as int);
                assert(pre.comp@[x] == post.comp@[x]);
                let y = pre.adj@[x]@[j] as int;
                assert(0 <= pre.comp@[y] <= pre.comp@[x]);
                assert(y != w as int);
            }
        }
    }

    /// One pop of the component loop keeps the invariant, with the popped node
    /// added to the pending component.
    proof fn lemma_pop_step(pre: Tarjan, post: Tarjan, pend: Seq<usize>, w: usize)
        requires
            pre.inv(pend),
            pre.stack@.len() > 0,
            w == pre.stack@.last(),
            post.stack@ == pre.stack@.drop_last(),
            post.on_stack@ == pre.on_stack@.update(w as int, false),
            post.comp@ == pre.comp@.update(w as int, pre.sccs@.len() as int),
            post.adj == pre.adj,
            post.visited@ == pre.visited@,
            post.index@ == pre.index@,
            post.low@ == pre.low@,
            post.counter == pre.counter,
            post.order@ == pre.order@,
            post.sccs@ == pre.sccs@,
        ensures
            post.inv(pend.push(w)),
            w < pre.n(),
            pre.comp@[w as int] < 0,
    {
        Tarjan::lemma_pop_stacked(pre, post, pend, w);
        Tarjan::lemma_pop_components(pre, post, pend, w);
    }

    /// Pops the stack down to and including `v`, recording the popped nodes as
    /// one component.
    fn pop_component(&mut self, v: usize, Ghost(p): Ghost<int>)
        requires
            old(self).wf(),
            0 <= p < old(self).stack@.len(),
            old(self).stack@[p] == v,
            forall|i: int|
                p <= i < old(self).stack@.len() ==> reaches(
                    old(self).adj@,
                    #[trigger] old(self).stack@[i],
                    v,
                ) && reaches(old(self).adj@, v, old(self).stack@[i]),
            forall|i: int, k: int|
                p <= i < old(self).stack@.len() && 0 <= k < old(self).adj@[old(
                    self,
                ).stack@[i] as int]@.len() ==> {
                    let y = #[trigger] old(self).adj@[old(self).stack@[i] as int]@[k] as int;
                    old(self).comp@[y] >= 0 || (old(self).on_stack@[y] && old(self).index@[y]
                        >= old(self).index@[v as int])
                },
        ensures
            final(self).wf(),
            final(self).adj == old(self).adj,
            final(self).visited@ == old(self).visited@,
            final(self).index@ == old(self).index@,
            final(self).low@ == old(self).low@,
            final(self).counter == old(self).counter,
            final(self).stack@ == old(self).stack@.subrange(0, p),
            !final(self).on_stack@[v as int],
            final(self).sccs@.len() == old(self).sccs@.len() + 1,
            forall|x: int|
                0 <= x < old(self).n() && #[trigger] old(self).comp@[x] >= 0 ==> final(self).comp@[x]
                    == old(self).comp@[x],
    {
        let ghost o = *self;
        let mut scc: Vec<usize> = Vec::new();
        proof {
            o.lemma_stack_at(p);
            assert(self.inv(scc@)) by {
                assert(scc@ =~= Seq::<usize>::empty());
            }
        }
        loop
            invariant_except_break
                self.stack@.len() > p,
                self.stack@[p] == v,
            invariant
                self.inv(scc@),
                self.adj == o.adj,
                self.visited@ == o.visited@,
                self.index@ == o.index@,
                self.low@ == o.low@,
                self.counter == o.counter,
                self.order@ == o.order@,
                self.sccs@ == o.sccs@,
                v < self.n(),
                0 <= p < o.stack@.len(),
                self.stack@.len() <= o.stack@.len(),
                self.stack@ == o.stack@.subrange(0, self.stack@.len() as int),
                o.stacked(),
                o.stack@[p] == v,
                forall|i: int|
                    p <= i < o.stack@.len() ==> reaches(o.adj@, #[trigger] o.stack@[i], v) && reaches(
                        o.adj@,
                        v,
                        o.stack@[i],
                    ),
                forall|j: int|
                    0 <= j < scc@.len() ==> reaches(o.adj@, #[trigger] scc@[j], v) && reaches(
                        o.adj@,
                        v,
                        scc@[j],
                    ),
                forall|x: int|
                    0 <= x < o.n() && #[trigger] o.comp@[x] >= 0 ==> self.comp@[x] == o.comp@[x],
                forall|i: int, k: int|
                    p <= i < self.stack@.len() && 0 <= k < self.adj@[self.stack@[i] as int]@.len()
                        ==> {
                        let y = #[trigger] self.adj@[self.stack@[i] as int]@[k] as int;
                        self.comp@[y] >= 0 || (self.on_stack@[y] && self.index@[y] >= self.index@[v as int])
                    },
                forall|j: int, k: int|
                    0 <= j < scc@.len() && 0 <= k < self.adj@[scc@[j] as int]@.len() ==> {
                        let y = #[trigger] self.adj@[scc@[j] as int]@[k] as int;
                        self.comp@[y] >= 0 || (self.on_stack@[y] && self.index@[y] >= self.index@[v as int])
                    },
            ensures
                self.inv(scc@),
                self.stack@ == o.stack@.subrange(0, p),
                scc@.len() > 0,
                scc@.last() == v,
            decreases self.stack@.len(),
        {
            let ghost pre = *self;
            let ghost pend = scc@;
            let ghost last = pre.stack@.len() - 1;
            let w = self.stack.pop().unwrap();
            proof {
                assert(w == pre.stack@[last]);
                assert(self.stack@ =~= pre.stack@.drop_last());
                assert(pre.inv(pend));
                reveal(stack_ok);
                assert(w < self.n());
            }
            self.on_stack.set(w, false);
            self.comp = Ghost(self.comp@.update(w as int, self.sccs@.len() as int));
            scc.push(w);
            proof {
                Tarjan::lemma_pop_step(pre, *self, pend, w);
                assert(scc@ == pend.push(w));
                assert(w == o.stack@[last]);
                assert forall|j: int|
                    0 <= j < scc@.len() implies reaches(o.adj@, #[trigger] scc@[j], v) && reaches(
                        o.adj@,
                        v,
                        scc@[j],
                    ) by {
                    if j < pend.len() {
                        assert(scc@[j] == pend[j]);
                    }
                }
                if last > p {
                    o.lemma_stack_sorted(p, last);
                }
                assert forall|x: int|
                    0 <= x < o.n() && #[trigger] o.comp@[x] >= 0 implies self.comp@[x]
                        == o.comp@[x] by {
                    assert(pre.comp@[x] == o.comp@[x]);
                }
                assert forall|i: int, k: int|
                    p <= i < self.stack@.len() && 0 <= k < self.adj@[self.stack@[i] as int]@.len()
                        implies {
                        let y = #[trigger] self.adj@[self.stack@[i] as int]@[k] as int;
                        self.comp@[y] >= 0 || (self.on_stack@[y] && self.index@[y] >= self.index@[v as int])
                    } by {
                    assert(self.stack@[i] == pre.stack@[i]);
                    let y = pre.adj@[pre.stack@[i] as int]@[k] as int;
                    assert(pre.comp@[y] >= 0 || (pre.on_stack@[y] && pre.index@[y] >= pre.index@[v as int]));
                }
                assert forall|j: int, k: int|
                    0 <= j < scc@.len() && 0 <= k < self.adj@[scc@[j] as int]@.len() implies {
                        let y = #[trigger] self.adj@[scc@[j] as int]@[k] as int;
                        self.comp@[y] >= 0 || (self.on_stack@[y] && self.index@[y] >= self.index@[v as int])
                    } by {
                    if j < pend.len() {
                        assert(scc@[j] == pend[j]);
                        assert(pend[j] < self.n()) by {
                            reveal(comp_ok);
                        }
                        let y = pre.adj@[pend[j] as int]@[k] as int;
                        assert(y < self.n());
                        assert(pre.comp@[y] >= 0 || (pre.on_stack@[y] && pre.index@[y] >= pre.index@[v as int]));
                    } else {
                        assert(scc@[j] == pre.stack@[last]);
                        let y = pre.adj@[pre.stack@[last] as int]@[k] as int;
                        assert(y < self.n());
                        assert(pre.comp@[y] >= 0 || (pre.on_stack@[y] && pre.index@[y] >= pre.index@[v as int]));
                    }
                }
            }
            if w == v {
                break;
            }
        }
        let ghost popped = *self;
        let ghost pend = scc@;
        proof {
            assert forall|j: int, k: int|
                0 <= j < pend.len() && 0 <= k < popped.adj@[pend[j] as int]@.len() implies {
                    let y = #[trigger] popped.adj@[pend[j] as int]@[k] as int;
                    0 <= popped.comp@[y] <= popped.sccs@.len()
                } by {
                let y = popped.adj@[pend[j] as int]@[k] as int;
                assert(popped.comp@[y] >= 0 || (popped.on_stack@[y] && popped.index@[y]
                    >= popped.index@[v as int]));
                reveal(comp_ok);
                reveal(stack_ok);
                assert(pend[j] < popped.n());
                assert(y < popped.n());
                if popped.on_stack@[y] {
                    let q = choose|q: int| 0 <= q < popped.stack@.len() && popped.stack@[q] == y as usize;
                    assert(popped.stack@[q] == o.stack@[q]);
                    o.lemma_stack_sorted(q, p);
                }
            }
        }
        self.sccs.push(scc);
        assert(self.components(Seq::empty())) by {
            reveal(comp_ok);
            let nsccs = popped.sccs@.len() as int;
            assert(self.sccs@[nsccs]@ == pend);
            assert forall|i: int, j: int|
                0 <= i < self.sccs@.len() && 0 <= j < self.sccs@[i]@.len() implies {
                    let x = #[trigger] self.sccs@[i]@[j];
                    &&& x < self.n()
                    &&& self.comp@[x as int] == i
                    &&& reaches(self.adj@, x, self.sccs@[i]@.last())
                    &&& reaches(self.adj@, self.sccs@[i]@.last(), x)
                } by {
                if i < nsccs {
                    assert(self.sccs@[i] == popped.sccs@[i]);
                } else {
                    assert(pend[j] == self.sccs@[i]@[j]);
                }
            }
            assert forall|x: int|
                0 <= x < self.n() && #[trigger] self.comp@[x] >= 0 implies (self.comp@[x]
                    < self.sccs@.len() && self.sccs@[self.comp@[x]]@.contains(x as usize)) by {
                if self.comp@[x] < nsccs {
                    assert(self.sccs@[self.comp@[x]] == popped.sccs@[self.comp@[x]]);
                }
            }
            assert forall|i: int| 0 <= i < self.sccs@.len() implies (#[trigger] self.sccs@[i]@).len()
                > 0 && self.sccs@[i]@.no_duplicates() by {
                if i < nsccs {
                    assert(self.sccs@[i] == popped.sccs@[i]);
                }
            }
            assert forall|x: int, j: int|
                #![trigger self.comp@[x], self.adj@[x]@[j]]
                0 <= x < self.n() && 0 <= self.comp@[x] < self.sccs@.len() && 0 <= j
                    < self.adj@[x]@.len() implies {
                    let y = self.adj@[x]@[j] as int;
                    0 <= self.comp@[y] <= self.comp@[x]
                } by {
                if self.comp@[x] == nsccs {
                    assert(pend.contains(x as usize));
                    let jj = choose|jj: int| 0 <= jj < pend.len() && pend[jj] == x as usize;
                    assert(0 <= popped.comp@[popped.adj@[pend[jj] as int]@[j] as int] <= nsccs);
                }
            }
        }
        assert(!self.on_stack@[v as int]) by {
            reveal(comp_ok);
            reveal(stack_ok);
            assert(popped.comp@[pend[pend.len() - 1] as int] == popped.sccs@.len());
        }
    }

    /// A settled edge stays settled while the stack only grows above its old
    /// contents, recorded components keep their numbers and the low-link of
    /// the source does not rise.
    proof fn lemma_settled_keep(a: Tarjan, b: Tarjan, x: int, y: usize)
        requires
            a.wf(),
            b.wf(),
            b.adj == a.adj,
            0 <= x < a.n(),
            y < a.n(),
            a.settled(x, y),
            a.comp@[y as int] >= 0 ==> b.comp@[y as int] == a.comp@[y as int],
            b.stack@.len() >= a.stack@.len(),
            b.stack@.subrange(0, a.stack@.len() as int) == a.stack@,
            a.visited@[y as int] ==> b.index@[y as int] == a.index@[y as int],
            b.low@[x] <= a.low@[x],
        ensures
            b.settled(x, y),
    {
        if a.comp@[y as int] < 0 {
            let k = a.lemma_find_on_stack(y as int);
            assert(b.stack@[k] == y) by {
                assert(b.stack@.subrange(0, a.stack@.len() as int)[k] == a.stack@[k]);
            }
            b.lemma_stack_at(k);
            a.lemma_stack_at(k);
        }
    }

    /// When every node stacked above position `p` is finished (its low-link is
    /// below its own number) and no low-link there is below the number of the
    /// node at `p`, each node at or above `p` reaches the node at `p`.
    proof fn lemma_reach_root(&self, p: int, i: int)
        requires
            self.wf(),
            0 <= p <= i < self.stack@.len(),
            forall|k: int|
                p < k < self.stack@.len() ==> #[trigger] self.low@[self.stack@[k] as int]
                    < self.index@[self.stack@[k] as int],
            forall|k: int|
                p <= k < self.stack@.len() ==> self.index@[self.stack@[p] as int]
                    <= #[trigger] self.low@[self.stack@[k] as int],
        ensures
            reaches(self.adj@, self.stack@[i], self.stack@[p]),
        decreases i,
    {
        if i == p {
            lemma_reaches_refl(self.adj@, self.stack@[p]);
        } else {
            self.lemma_stack_at(i);
            let x = self.stack@[i];
            let lx = self.low@[x as int] as int;
            assert(self.low@[self.stack@[i] as int] < self.index@[self.stack@[i] as int]);
            self.lemma_order_at(lx);
            let y = self.order@[lx];
            let k = self.lemma_find_on_stack(y as int);
            if k > i {
                self.lemma_stack_sorted(i, k);
            }
            if k < p {
                self.lemma_stack_sorted(k, p);
            }
            assert(self.index@[self.stack@[p] as int] <= self.low@[self.stack@[i] as int]);
            assert(p <= k < i);
            self.lemma_reach_root(p, k);
            lemma_reaches_trans(self.adj@, x, y, self.stack@[p]);
        }
    }

    /// Visits `v` and everything reachable from it that was not visited yet,
    /// recording each component whose root is found. Fails with the stack
    /// depth when the stack holds more than the allowed number of modules.
    fn strongconnect(&mut self, v: usize)
        requires
            old(self).wf(),
            v < old(self).n(),
            !old(self).visited@[v as int],
        ensures
            final(self).adj == old(self).adj,
            ({
                    let o = *old(self);
                    let f = *final(self);
                    &&& f.wf()
                    &&& f.visited@[v as int]
                    &&& f.index@[v as int] == o.counter
                    &&& f.counter > o.counter
                    &&& forall|x: int|
                        0 <= x < o.n() && #[trigger] o.visited@[x] ==> f.visited@[x]
                            && f.index@[x] == o.index@[x] && f.low@[x] == o.low@[x]
                    &&& f.stack@.len() >= o.stack@.len()
                    &&& f.stack@.subrange(0, o.stack@.len() as int) == o.stack@
                    &&& f.stack@.len() > o.stack@.len() ==> f.stack@[o.stack@.len() as int] == v
                    &&& f.stack@.len() == o.stack@.len() ==> f.low@[v as int] == f.index@[v as int]
                        && !f.on_stack@[v as int]
                    &&& forall|i: int|
                        o.stack@.len() <= i < f.stack@.len() ==> {
                            let x = #[trigger] f.stack@[i];
                            &&& f.low@[x as int] < f.index@[x as int]
                            &&& reaches(f.adj@, v, x)
                            &&& f.low@[v as int] <= f.low@[x as int]
                        }
                    &&& forall|x: int|
                        0 <= x < o.n() && #[trigger] f.visited@[x] && !o.visited@[x] ==> forall|
                            j: int,
                        |
                            0 <= j < f.adj@[x]@.len() ==> #[trigger] f.visited@[f.adj@[x]@[j] as int]
                    &&& forall|x: int|
                        0 <= x < o.n() && #[trigger] o.comp@[x] >= 0 ==> f.comp@[x] == o.comp@[x]
                    &&& forall|i: int, k: int|
                        o.stack@.len() <= i < f.stack@.len() && 0 <= k < f.adj@[f.stack@[i] as int]@.len()
                            ==> f.settled(f.stack@[i] as int, #[trigger] f.adj@[f.stack@[i] as int]@[k])
            }),
        decreases count_false(old(self).visited@),
    {
        let ghost o = *self;
        let ghost p = self.stack@.len() as int;
        proof {
            lemma_count_false_set(self.visited@, v as int);
        }
        self.begin_visit(v);
        proof {
            lemma_reaches_refl(self.adj@, v);
            assert(self.stack@[p] == v);
            assert(self.stack@.subrange(0, p) =~= o.stack@);
        }
        let mut j: usize = 0;
        let deg = self.adj[v].len();
        while j < deg
            invariant
                self.wf(),
                o.wf(),
                o == *old(self),
                !o.visited@[v as int],
                self.adj == o.adj,
                deg == self.adj@[v as int]@.len(),
                v < self.n(),
                j <= deg,
                self.visited@[v as int],
                self.index@[v as int] == o.counter,
                self.counter > o.counter,
                p == o.stack@.len(),
                self.stack@.len() > p,
                self.stack@[p] == v,
                self.stack@.subrange(0, p) == o.stack@,
                forall|x: int|
                    0 <= x < o.n() && #[trigger] o.visited@[x] ==> self.visited@[x]
                        && self.index@[x] == o.index@[x] && self.low@[x] == o.low@[x],
                forall|i: int|
                    p < i < self.stack@.len() ==> #[trigger] self.low@[self.stack@[i] as int]
                        < self.index@[self.stack@[i] as int],
                forall|i: int|
                    p <= i < self.stack@.len() ==> reaches(self.adj@, v, #[trigger] self.stack@[i])
                        && self.low@[v as int] <= self.low@[self.stack@[i] as int],
                forall|k: int| 0 <= k < j ==> #[trigger] self.visited@[self.adj@[v as int]@[k] as int],
                forall|x: int|
                    0 <= x < o.n() && #[trigger] self.visited@[x] && !o.visited@[x] && x != v
                        ==> forall|k: int|
                        0 <= k < self.adj@[x]@.len() ==> #[trigger] self.visited@[self.adj@[x]@[k] as int],
                forall|x: int|
                    0 <= x < o.n() && #[trigger] o.comp@[x] >= 0 ==> self.comp@[x] == o.comp@[x],
                forall|i: int, k: int|
                    p < i < self.stack@.len() && 0 <= k < self.adj@[self.stack@[i] as int]@.len()
                        ==> self.settled(self.stack@[i] as int, #[trigger] self.adj@[self.stack@[i] as int]@[k]),
                forall|k: int| 0 <= k < j ==> self.settled(v as int, #[trigger] self.adj@[v as int]@[k]),
            decreases deg - j,
        {
            let w = self.adj[v][j];
            let ghost before = *self;
            proof {
                assert(w < self.n());
                lemma_reaches_edge(self.adj@, v, w);
            }
            if !self.visited[w] {
                self.strongconnect(w);
                let ghost mid = *self;
                let ghost q = before.stack@.len() as int;
                assert(self.stack@[p] == v) by {
                    assert(self.stack@.subrange(0, q)[p] == before.stack@[p]);
                }
                let w_low = self.low[w];
                proof {
                    self.lemma_stack_at(p);
                    self.lemma_visited_at(v as int);
                    if self.on_stack@[w as int] {
                        if self.stack@.len() == q {
                            assert(!self.on_stack@[w as int]);
                        }
                        assert(self.stack@[q] == w);
                        self.lemma_stack_at(q);
                        lemma_reaches_trans(self.adj@, v, w, self.order@[self.low@[w as int] as int]);
                    } else {
                        if self.stack@.len() > q {
                            self.lemma_stack_at(q);
                        }
                        assert(self.index@[v as int] < self.index@[w as int]);
                    }
                }
                self.lower_low(v, w_low, Ghost(p));
                proof {
                    assert forall|i: int| p < i < self.stack@.len() implies #[trigger] self.low@[self.stack@[i] as int]
                        < self.index@[self.stack@[i] as int] by {
                        mid.lemma_stack_sorted(p, i);
                        let x = self.stack@[i];
                        assert(mid.stack@[i] == x);
                        assert(x != v);
                        mid.lemma_stack_at(i);
                        assert(self.low@[x as int] == mid.low@[x as int]);
                        if i < q {
                            assert(mid.stack@.subrange(0, q)[i] == before.stack@[i]);
                            before.lemma_stack_at(i);
                            assert(before.visited@[x as int]);
                            assert(before.low@[before.stack@[i] as int] < before.index@[before.stack@[i] as int]);
                        } else {
                            assert(mid.low@[mid.stack@[i] as int] < mid.index@[mid.stack@[i] as int]);
                        }
                    }
                    assert forall|i: int| p <= i < self.stack@.len() implies reaches(self.adj@, v, #[trigger] self.stack@[i])
                        && self.low@[v as int] <= self.low@[self.stack@[i] as int] by {
                        let x = self.stack@[i];
                        assert(mid.stack@[i] == x);
                        if i > p {
                            mid.lemma_stack_sorted(p, i);
                            assert(x != v);
                            mid.lemma_stack_at(i);
                            assert(self.low@[x as int] == mid.low@[x as int]);
                        }
                        if i < q {
                            assert(mid.stack@.subrange(0, q)[i] == before.stack@[i]);
                            before.lemma_stack_at(i);
                            assert(before.visited@[x as int]);
                            assert(reaches(before.adj@, v, before.stack@[i])
                                && before.low@[v as int] <= before.low@[before.stack@[i] as int]);
                        } else {
                            assert(reaches(mid.adj@, w, mid.stack@[i]) && mid.low@[w as int] <= mid.low@[mid.stack@[i] as int]);
                            lemma_reaches_trans(self.adj@, v, w, x);
                        }
                    }
                    assert forall|k: int| 0 <= k < j + 1 implies #[trigger] self.visited@[self.adj@[v as int]@[k] as int] by {
                        if k < j {
                            assert(before.visited@[before.adj@[v as int]@[k] as int]);
                        }
                    }
                    assert forall|x: int|
                        0 <= x < o.n() && #[trigger] self.visited@[x] && !o.visited@[x] && x != v
                        implies forall|k: int|
                        0 <= k < self.adj@[x]@.len() ==> #[trigger] self.visited@[self.adj@[x]@[k] as int] by {
                        if before.visited@[x] {
                            assert forall|k: int| 0 <= k < self.adj@[x]@.len() implies #[trigger] self.visited@[self.adj@[x]@[k] as int] by {
                                assert(before.visited@[before.adj@[x]@[k] as int]);
                            }
                        }
                    }
                    assert forall|x: int|
                        0 <= x < o.n() && #[trigger] o.visited@[x] implies self.visited@[x]
                            && self.index@[x] == o.index@[x] && self.low@[x] == o.low@[x] by {
                        assert(before.visited@[x]);
                        assert(x != v as int);
                        assert(mid.low@[x] == before.low@[x]);
                    }
                    assert forall|x: int|
                        0 <= x < o.n() && #[trigger] o.comp@[x] >= 0 implies self.comp@[x] == o.comp@[x] by {
                        assert(before.comp@[x] == o.comp@[x]);
                    }
                    assert(self.stack@.subrange(0, q) == before.stack@) by {
                        assert(self.stack@ == mid.stack@);
                    }
                    assert forall|i: int, k: int|
                        p < i < self.stack@.len() && 0 <= k < self.adj@[self.stack@[i] as int]@.len()
                        implies self.settled(self.stack@[i] as int, #[trigger] self.adj@[self.stack@[i] as int]@[k]) by {
                        let x = self.stack@[i];
                        mid.lemma_stack_sorted(p, i);
                        mid.lemma_stack_at(i);
                        assert(mid.stack@[i] == x);
                        let y = self.adj@[x as int]@[k];
                        assert(y < self.n());
                        if i < q {
                            assert(mid.stack@.subrange(0, q)[i] == before.stack@[i]);
                            before.lemma_stack_at(i);
                            assert(before.settled(before.stack@[i] as int, before.adj@[before.stack@[i] as int]@[k]));
                            assert(mid.low@[x as int] == before.low@[x as int]);
                            if before.visited@[y as int] {
                                assert(mid.index@[y as int] == before.index@[y as int]);
                            }
                            if before.comp@[y as int] >= 0 {
                                assert(mid.comp@[y as int] == before.comp@[y as int]);
                            }
                            Tarjan::lemma_settled_keep(before, *self, x as int, y);
                        } else {
                            assert(mid.settled(mid.stack@[i] as int, mid.adj@[mid.stack@[i] as int]@[k]));
                        }
                    }
                    assert forall|k: int| 0 <= k < j + 1 implies self.settled(v as int, #[trigger] self.adj@[v as int]@[k]) by {
                        let y = self.adj@[v as int]@[k];
                        assert(y < self.n());
                        if k < j {
                            assert(before.settled(v as int, before.adj@[v as int]@[k]));
                            if before.visited@[y as int] {
                                assert(mid.index@[y as int] == before.index@[y as int]);
                            }
                            if before.comp@[y as int] >= 0 {
                                assert(mid.comp@[y as int] == before.comp@[y as int]);
                            }
                            Tarjan::lemma_settled_keep(before, *self, v as int, y);
                        } else {
                            self.lemma_visited_at(w as int);
                            if self.on_stack@[w as int] {
                                let qq = self.lemma_find_on_stack(w as int);
                                self.lemma_stack_at(qq);
                            }
                        }
                    }
                }
            } else if self.on_stack[w] {
                let w_index = self.index[w];
                proof {
                    let k = self.lemma_find_on_stack(w as int);
                    self.lemma_stack_at(k);
                    if k > 0 {
                        self.lemma_stack_sorted(0, k);
                    }
                }
                self.lower_low(v, w_index, Ghost(p));
                proof {
                    assert forall|i: int| p < i < self.stack@.len() implies #[trigger] self.low@[self.stack@[i] as int]
                        < self.index@[self.stack@[i] as int] by {
                        before.lemma_stack_sorted(p, i);
                        before.lemma_stack_at(i);
                        assert(before.low@[before.stack@[i] as int] < before.index@[before.stack@[i] as int]);
                    }
                    assert forall|i: int| p <= i < self.stack@.len() implies reaches(self.adj@, v, #[trigger] self.stack@[i])
                        && self.low@[v as int] <= self.low@[self.stack@[i] as int] by {
                        assert(reaches(before.adj@, v, before.stack@[i])
                            && before.low@[v as int] <= before.low@[before.stack@[i] as int]);
                        if i > p {
                            before.lemma_stack_sorted(p, i);
                            before.lemma_stack_at(i);
                        }
                    }
                    assert forall|x: int|
                        0 <= x < o.n() && #[trigger] o.visited@[x] implies self.visited@[x]
                            && self.index@[x] == o.index@[x] && self.low@[x] == o.low@[x] by {
                        assert(x != v as int);
                    }
                    assert forall|k: int| 0 <= k < j + 1 implies #[trigger] self.visited@[self.adj@[v as int]@[k] as int] by {
                        if k < j {
                            assert(before.visited@[before.adj@[v as int]@[k] as int]);
                        }
                    }
                    assert forall|i: int, k: int|
                        p < i < self.stack@.len() && 0 <= k < self.adj@[self.stack@[i] as int]@.len()
                        implies self.settled(self.stack@[i] as int, #[trigger] self.adj@[self.stack@[i] as int]@[k]) by {
                        before.lemma_stack_sorted(p, i);
                        before.lemma_stack_at(i);
                        let x = self.stack@[i];
                        assert(x != v);
                        assert(before.settled(before.stack@[i] as int, before.adj@[before.stack@[i] as int]@[k]));
                    }
                    assert forall|k: int| 0 <= k < j + 1 implies self.settled(v as int, #[trigger] self.adj@[v as int]@[k]) by {
                        if k < j {
                            assert(before.settled(v as int, before.adj@[v as int]@[k]));
                        }
                    }
                }
            } else {
                proof {
                    assert forall|k: int| 0 <= k < j + 1 implies #[trigger] self.visited@[self.adj@[v as int]@[k] as int] by {
                        if k < j {
                            assert(before.visited@[before.adj@[v as int]@[k] as int]);
                        }
                    }
                    self.lemma_visited_at(w as int);
                    assert forall|k: int| 0 <= k < j + 1 implies self.settled(v as int, #[trigger] self.adj@[v as int]@[k]) by {
                        if k < j {
                            assert(before.settled(v as int, before.adj@[v as int]@[k]));
                        }
                    }
                }
            }
            j = j + 1;
        }
        let ghost after = *self;
        if self.low[v] == self.index[v] {
            proof {
                assert forall|i: int| p <= i < self.stack@.len() implies reaches(self.adj@, #[trigger] self.stack@[i], v)
                    && reaches(self.adj@, v, self.stack@[i]) by {
                    self.lemma_reach_root(p, i);
                }
            }
            self.pop_component(v, Ghost(p));
        }
        proof {
            after.lemma_stack_at(p);
            assert forall|x: int|
                0 <= x < o.n() && #[trigger] self.visited@[x] && !o.visited@[x] implies forall|k: int|
                    0 <= k < self.adj@[x]@.len() ==> #[trigger] self.visited@[self.adj@[x]@[k] as int] by {
                if x != v as int {
                    assert(after.visited@[x]);
                }
            }
            assert forall|x: int|
                0 <= x < o.n() && #[trigger] o.visited@[x] implies self.visited@[x]
                    && self.index@[x] == o.index@[x] && self.low@[x] == o.low@[x] by {
                assert(after.visited@[x]);
            }
            if self.stack@.len() > p {
                assert(self.low@[v as int] != self.index@[v as int]);
                assert forall|i: int| p <= i < self.stack@.len() implies {
                    let x = #[trigger] self.stack@[i];
                    &&& self.low@[x as int] < self.index@[x as int]
                    &&& reaches(self.adj@, v, x)
                    &&& self.low@[v as int] <= self.low@[x as int]
                } by {
                    assert(after.stack@[i] == self.stack@[i]);
                }
            } else {
                assert(self.stack@ =~= o.stack@);
            }
        }
    }
}

/// Node `x` is a direct dependency of one of the nodes `0..roots`.
pub open spec fn root_dependency(adj: Seq<Vec<usize>>, roots: int, x: int) -> bool {
    exists|y: int| 0 <= y < roots && #[trigger] adj[y]@.contains(x as usize)
}

/// Runs Tarjan's algorithm over a numbered graph, starting from the nodes
/// `0..roots` in order. Every other node must be a direct dependency of one of
/// them. On success the components partition the nodes: `comp[x]` is the
/// component of node `x`, the members of a component reach one another, and
/// nodes that reach one another share a component.
fn components(adj: Vec<Vec<usize>>, roots: usize) -> (r: (Vec<Vec<usize>>, Ghost<Seq<int>>))
    requires
        roots <= adj@.len(),
        forall|x: int, j: int|
            0 <= x < adj@.len() && 0 <= j < adj@[x]@.len() ==> (#[trigger] adj@[x]@[j]) < adj@.len(),
        forall|x: int| roots <= x < adj@.len() ==> #[trigger] root_dependency(adj@, roots as int, x),
    ensures
        ({
            let (sccs, comp) = r;
                let n = adj@.len() as int;
                &&& comp@.len() == n
                &&& forall|x: int| 0 <= x < n ==> 0 <= #[trigger] comp@[x] < sccs@.len() && sccs@[comp@[x]]@.contains(x as usize)
                &&& forall|i: int, j: int|
                    0 <= i < sccs@.len() && 0 <= j < sccs@[i]@.len() ==> (#[trigger] sccs@[i]@[j]) < n
                        && comp@[sccs@[i]@[j] as int] == i
                &&& forall|i: int| 0 <= i < sccs@.len() ==> (#[trigger] sccs@[i]@).len() > 0 && sccs@[i]@.no_duplicates()
                &&& forall|i: int, j: int, k: int|
                    0 <= i < sccs@.len() && 0 <= j < sccs@[i]@.len() && 0 <= k < sccs@[i]@.len() ==> reaches(
                        adj@,
                        #[trigger] sccs@[i]@[j],
                        #[trigger] sccs@[i]@[k],
                    )
                &&& forall|x: usize, y: usize|
                    x < n && y < n && #[trigger] reaches(adj@, x, y) && #[trigger] reaches(adj@, y, x) ==> comp@[x as int] == comp@[y as int]
        }),
{
    let ghost g = adj@;
    let mut t = Tarjan::new(adj);
    let mut v: usize = 0;
    while v < roots
        invariant
            t.wf(),
            t.adj@ == g,
            g == adj@,
            t.stack@.len() == 0,
            roots <= g.len(),
            v <= roots,
            forall|k: int| 0 <= k < v ==> #[trigger] t.visited@[k],
            forall|x: int|
                0 <= x < g.len() && #[trigger] t.visited@[x] ==> forall|j: int|
                    0 <= j < g[x]@.len() ==> #[trigger] t.visited@[g[x]@[j] as int],
        decreases roots - v,
    {
        if !t.visited[v] {
            let ghost before = t;
            t.strongconnect(v);
            proof {
                if t.stack@.len() > 0 {
                    t.lemma_stack_at(0);
                }
                assert forall|k: int| 0 <= k < v + 1 implies #[trigger] t.visited@[k] by {
                    if k < v {
                        assert(before.visited@[k]);
                    }
                }
                assert forall|x: int|
                    0 <= x < g.len() && #[trigger] t.visited@[x] implies forall|j: int|
                        0 <= j < g[x]@.len() ==> #[trigger] t.visited@[g[x]@[j] as int] by {
                    if before.visited@[x] {
                        assert forall|j: int| 0 <= j < g[x]@.len() implies #[trigger] t.visited@[g[x]@[j] as int] by {
                            assert(before.visited@[g[x]@[j] as int]);
                        }
                    }
                }
            }
        }
        v = v + 1;
    }
    proof {
        assert forall|x: int| 0 <= x < g.len() implies #[trigger] t.visited@[x] by {
            if x >= roots {
                assert(root_dependency(g, roots as int, x));
                let y = choose|y: int| 0 <= y < roots && #[trigger] g[y]@.contains(x as usize);
                assert(t.visited@[y]);
                let j = choose|j: int| 0 <= j < g[y]@.len() && g[y]@[j] == x as usize;
                assert(t.visited@[g[y]@[j] as int]);
            }
        }
        reveal(comp_ok);
        reveal(stack_ok);
        assert forall|x: int| 0 <= x < g.len() implies 0 <= #[trigger] t.comp@[x] < t.sccs@.len() && t.sccs@[t.comp@[x]]@.contains(x as usize) by {
            assert(t.visited@[x]);
            if t.on_stack@[x] {
                assert(t.stack@.contains(x as usize));
            }
            assert(!Seq::<usize>::empty().contains(x as usize));
        }
        assert forall|i: int, j: int, k: int|
            0 <= i < t.sccs@.len() && 0 <= j < t.sccs@[i]@.len() && 0 <= k < t.sccs@[i]@.len() implies reaches(
                g,
                #[trigger] t.sccs@[i]@[j],
                #[trigger] t.sccs@[i]@[k],
            ) by {
            let a = t.sccs@[i]@[j];
            let b = t.sccs@[i]@[k];
            let l = t.sccs@[i]@.last();
            assert(reaches(g, a, l) && reaches(g, l, a));
            assert(reaches(g, b, l) && reaches(g, l, b));
            lemma_reaches_trans(g, a, l, b);
        }
        assert forall|x: usize, y: usize|
            x < g.len() && y < g.len() && #[trigger] reaches(g, x, y) && #[trigger] reaches(g, y, x) implies t.comp@[x as int] == t.comp@[y as int] by {
            assert(0 <= t.comp@[x as int]);
            assert(0 <= t.comp@[y as int]);
            t.lemma_closed(x, y);
            t.lemma_closed(y, x);
        }
    }
    let ghost comp = t.comp@;
    (t.sccs, Ghost(comp))
}

/// A walk along numbered edges names a chain of direct imports.
proof fn lemma_path_to_chain(
    g: Seq<(String, Vec<String>)>,
    names: Seq<String>,
    adj: Seq<Vec<usize>>,
    p: Seq<usize>,
)
    requires
        numbering_of(g, names, adj),
        names.len() <= usize::MAX,
        is_path(adj, p),
        p[0] < names.len(),
    ensures
        imports_transitively(g, names[p[0] as int]@, names[p.last() as int]@),
{
    let q = Seq::new(p.len(), |k: int| names[p[k] as int]@);
    assert forall|k: int| 0 <= k < p.len() implies #[trigger] p[k] < names.len() by {
        if k > 0 {
            assert(path_step(adj, p, k - 1));
            let a = p[k - 1] as int;
            let jj = choose|jj: int| 0 <= jj < adj[a]@.len() && adj[a]@[jj] == p[k];
            assert(adj[a]@[jj] < adj.len());
        }
    }
    assert forall|k: int| 0 <= k < q.len() - 1 implies #[trigger] chain_step(g, q, k) by {
        assert(path_step(adj, p, k));
        assert(p[k] < names.len() && p[k + 1] < names.len());
        assert(adj[p[k] as int]@.contains(p[k + 1]));
        assert(adj[p[k] as int]@.contains((p[k + 1] as int) as usize));
    }
    assert(import_chain(g, q) && q[0] == names[p[0] as int]@ && q.last() == names[p.last() as int]@);
}

/// A chain of direct imports between numbered modules is a walk along the
/// numbered edges.
proof fn lemma_chain_to_path(
    g: Seq<(String, Vec<String>)>,
    names: Seq<String>,
    adj: Seq<Vec<usize>>,
    q: Seq<Seq<char>>,
    x: usize,
    y: usize,
)
    requires
        numbering_of(g, names, adj),
        names.len() <= usize::MAX,
        import_chain(g, q),
        x < names.len(),
        y < names.len(),
        q[0] == names[x as int]@,
        q.last() == names[y as int]@,
    ensures
        reaches(adj, x, y),
{
    assert forall|k: int| 0 <= k < q.len() implies is_module(g, #[trigger] q[k]) by {
        if k == 0 {
            assert(is_module(g, names[x as int]@));
        } else {
            assert(chain_step(g, q, k - 1));
            let (i, jj) = choose|i: int, jj: int|
                #![trigger g[i].1@[jj]]
                0 <= i < g.len() && 0 <= jj < g[i].1@.len() && g[i].0@ == q[k - 1] && g[i].1@[jj]@ == q[k];
            assert(g[i].1@[jj]@ == q[k]);
        }
    }
    let p = Seq::new(
        q.len(),
        |k: int| (choose|z: int| 0 <= z < names.len() && #[trigger] names[z]@ == q[k]) as usize,
    );
    assert forall|k: int| 0 <= k < q.len() implies #[trigger] p[k] < names.len() && names[p[k] as int]@ == q[k] by {
        assert(is_module(g, q[k]));
        assert(exists|z: int| 0 <= z < names.len() && #[trigger] names[z]@ == q[k]);
    }
    assert forall|k: int| 0 <= k < p.len() - 1 implies #[trigger] path_step(adj, p, k) by {
        assert(chain_step(g, q, k));
        assert(p[k] < names.len() && p[k + 1] < names.len());
        assert(adj[p[k] as int]@.contains((p[k + 1] as int) as usize) <==> imports(g, names[p[k] as int]@, names[p[k + 1] as int]@));
    }
    assert(is_path(adj, p));
    assert(p[0] == x) by {
        if p[0] != x {
            if (p[0] as int) < x as int {
                assert(names[p[0] as int]@ != names[x as int]@);
            } else {
                assert(names[x as int]@ != names[p[0] as int]@);
            }
        }
    }
    let last = p.len() - 1;
    assert(p[last] == y) by {
        assert(names[p[last] as int]@ == q[last]);
        if p[last] != y {
            if (p[last] as int) < y as int {
                assert(names[p[last] as int]@ != names[y as int]@);
            } else {
                assert(names[y as int]@ != names[p[last] as int]@);
            }
        }
    }
    assert(is_path(adj, p) && p[0] == x && p.last() == y);
}

/// `cycles` reports exactly the import cycles of `g`: each lists at least two
/// modules of the graph that all reach one another, no module is listed twice
/// over all of them, and any two distinct modules that reach one another are
/// listed in the same cycle.
pub open spec fn reports_cycles(g: Seq<(String, Vec<String>)>, cycles: Seq<CircularDependency>) -> bool {
    &&& forall|k: int|
        0 <= k < cycles.len() ==> {
            let c = #[trigger] cycles[k];
            c.cycle@.len() >= 2 && !c.all_unreachable && c.total_size == 0
        }
    &&& forall|k: int, j: int|
        0 <= k < cycles.len() && 0 <= j < cycles[k].cycle@.len() ==> is_module(
            g,
            #[trigger] cycles[k].cycle@[j]@,
        )
    &&& forall|k1: int, j1: int, k2: int, j2: int|
        0 <= k1 < cycles.len() && 0 <= j1 < cycles[k1].cycle@.len() && 0 <= k2 < cycles.len() && 0
            <= j2 < cycles[k2].cycle@.len() && (k1 != k2 || j1 != j2) ==> #[trigger] cycles[k1].cycle@[j1]@
            != #[trigger] cycles[k2].cycle@[j2]@
    &&& forall|k: int, j1: int, j2: int|
        0 <= k < cycles.len() && 0 <= j1 < cycles[k].cycle@.len() && 0 <= j2 < cycles[k].cycle@.len()
            ==> imports_transitively(g, #[trigger] cycles[k].cycle@[j1]@, #[trigger] cycles[k].cycle@[j2]@)
    &&& forall|a: Seq<char>, b: Seq<char>|
        is_module(g, a) && is_module(g, b) && a != b && #[trigger] imports_transitively(g, a, b)
            && #[trigger] imports_transitively(g, b, a) ==> exists|k: int|
            0 <= k < cycles.len() && #[trigger] has_name(cycles[k].cycle@, a) && has_name(cycles[k].cycle@, b)
}

/// `s` is a group of distinct modules of `g` that all reach one another.
pub open spec fn mutual_group(g: Seq<(String, Vec<String>)>, s: Seq<Seq<char>>) -> bool {
    &&& s.no_duplicates()
    &&& forall|k: int| 0 <= k < s.len() ==> is_module(g, #[trigger] s[k])
    &&& forall|j1: int, j2: int|
        0 <= j1 < s.len() && 0 <= j2 < s.len() ==> imports_transitively(g, #[trigger] s[j1], #[trigger] s[j2])
}

/// The names of numbered modules.
pub open spec fn names_at(names: Seq<String>, xs: Seq<usize>) -> Seq<Seq<char>> {
    Seq::new(xs.len(), |j: int| names[xs[j] as int]@)
}

/// `g` has a group of more than `d` distinct modules that all reach one another.
pub open spec fn has_cycle_longer_than(g: Seq<(String, Vec<String>)>, d: int) -> bool {
    exists|s: Seq<Seq<char>>| s.len() > d && #[trigger] mutual_group(g, s)
}

/// Finds circular imports in a module dependency graph, given as entries of a
/// module and the modules it imports.
pub struct CircularDependencyDetector {
    graph: Vec<(String, Vec<String>)>,
    found: Option<Vec<CircularDependency>>,
}

/// The cycles of a report as plain values, in order: each cycle's modules,
/// whether all of them are unreachable, and their total size.
pub open spec fn cycle_views(cs: Seq<CircularDependency>) -> Seq<(Seq<String>, bool, usize)> {
    cs.map_values(|c: CircularDependency| (c.cycle@, c.all_unreachable, c.total_size))
}

/// A report of cycles that the search can give for `g`.
pub open spec fn valid_report(g: Seq<(String, Vec<String>)>, cycles: Seq<CircularDependency>) -> bool {
    &&& g.len() <= 100000
    &&& reports_cycles(g, cycles)
    &&& forall|k: int| 0 <= k < cycles.len() ==> (#[trigger] cycles[k]).cycle@.len() <= 1000
}

proof fn lemma_valid_report_views(g: Seq<(String, Vec<String>)>, a: Seq<CircularDependency>, b: Seq<CircularDependency>)
    requires
        valid_report(g, a),
        cycle_views(a) == cycle_views(b),
    ensures
        valid_report(g, b),
{
    assert(a.len() == cycle_views(a).len());
    assert(b.len() == cycle_views(b).len());
    assert forall|k: int| 0 <= k < b.len() implies (#[trigger] b[k]).cycle@ == a[k].cycle@
        && b[k].all_unreachable == a[k].all_unreachable && b[k].total_size == a[k].total_size by {
        assert(cycle_views(a)[k] == cycle_views(b)[k]);
    }
    assert forall|k: int| 0 <= k < b.len() implies {
        let c = #[trigger] b[k];
        c.cycle@.len() >= 2 && !c.all_unreachable && c.total_size == 0 && c.cycle@.len() <= 1000
    } by {
        assert(b[k].cycle@ == a[k].cycle@);
    }
    assert forall|k: int, j: int| 0 <= k < b.len() && 0 <= j < b[k].cycle@.len() implies is_module(
        g,
        #[trigger] b[k].cycle@[j]@,
    ) by {
        assert(b[k].cycle@ == a[k].cycle@);
        assert(b[k].cycle@[j] == a[k].cycle@[j]);
    }
    assert forall|k1: int, j1: int, k2: int, j2: int|
        0 <= k1 < b.len() && 0 <= j1 < b[k1].cycle@.len() && 0 <= k2 < b.len() && 0 <= j2 < b[k2].cycle@.len()
            && (k1 != k2 || j1 != j2) implies #[trigger] b[k1].cycle@[j1]@ != #[trigger] b[k2].cycle@[j2]@ by {
        assert(b[k1].cycle@ == a[k1].cycle@);
        assert(b[k2].cycle@ == a[k2].cycle@);
        assert(a[k1].cycle@[j1]@ != a[k2].cycle@[j2]@);
    }
    assert forall|k: int, j1: int, j2: int|
        0 <= k < b.len() && 0 <= j1 < b[k].cycle@.len() && 0 <= j2 < b[k].cycle@.len() implies imports_transitively(
            g,
            #[trigger] b[k].cycle@[j1]@,
            #[trigger] b[k].cycle@[j2]@,
        ) by {
        assert(b[k].cycle@ == a[k].cycle@);
        assert(imports_transitively(g, a[k].cycle@[j1]@, a[k].cycle@[j2]@));
    }
    assert forall|x: Seq<char>, y: Seq<char>|
        is_module(g, x) && is_module(g, y) && x != y && #[trigger] imports_transitively(g, x, y)
            && #[trigger] imports_transitively(g, y, x) implies exists|k: int|
            0 <= k < b.len() && #[trigger] has_name(b[k].cycle@, x) && has_name(b[k].cycle@, y) by {
        let k = choose|k: int| 0 <= k < a.len() && #[trigger] has_name(a[k].cycle@, x) && has_name(a[k].cycle@, y);
        assert(b[k].cycle@ == a[k].cycle@);
    }
}

/// A copy of a report, cycle by cycle.
fn copy_cycles(cs: &Vec<CircularDependency>) -> (r: Vec<CircularDependency>)
    ensures
        cycle_views(r@) == cycle_views(cs@),
{
    let mut r: Vec<CircularDependency> = Vec::new();
    let mut i: usize = 0;
    while i < cs.len()
        invariant
            i <= cs@.len(),
            cycle_views(r@) == cycle_views(cs@.take(i as int)),
        decreases cs@.len() - i,
    {
        let c = &cs[i];
        let mut cycle: Vec<String> = Vec::new();
        let mut j: usize = 0;
        while j < c.cycle.len()
            invariant
                j <= c.cycle@.len(),
                cycle@ == c.cycle@.take(j as int),
            decreases c.cycle@.len() - j,
        {
            cycle.push(c.cycle[j].clone());
            proof {
                assert(c.cycle@.take(j + 1) =~= c.cycle@.take(j as int).push(c.cycle@[j as int]));
            }
            j = j + 1;
        }
        proof {
            assert(c.cycle@.take(c.cycle@.len() as int) =~= c.cycle@);
        }
        let ghost before = r@;
        r.push(CircularDependency { cycle, all_unreachable: c.all_unreachable, total_size: c.total_size });
        proof {
            assert(cs@.take(i + 1) =~= cs@.take(i as int).push(cs@[i as int]));
            assert(cycle_views(r@) =~= cycle_views(before).push((cs@[i as int].cycle@, c.all_unreachable, c.total_size)));
            assert(cycle_views(cs@.take(i + 1)) =~= cycle_views(cs@.take(i as int)).push(
                (cs@[i as int].cycle@, c.all_unreachable, c.total_size),
            ));
        }
        i = i + 1;
    }
    proof {
        assert(cs@.take(cs@.len() as int) =~= cs@);
    }
    r
}

impl CircularDependencyDetector {
    #[verifier::type_invariant]
    spec fn keys_unique(self) -> bool {
        &&& keys_distinct(self.graph@)
        &&& self.found matches Some(c) ==> valid_report(self.graph@, c@)
    }

    /// The dependency graph the detector was made with.
    pub closed spec fn graph(self) -> Seq<(String, Vec<String>)> {
        self.graph@
    }

    /// The cycles an earlier search found, which later searches give again.
    pub closed spec fn found_cycles(self) -> Option<Seq<(Seq<String>, bool, usize)>> {
        match self.found {
            Some(c) => Some(cycle_views(c@)),
            None => None,
        }
    }

    /// Creates a detector over a dependency graph whose entries have distinct keys.
    pub fn new(dependencies: Vec<(String, Vec<String>)>) -> (d: Self)
        requires
            keys_distinct(dependencies@),
        ensures
            d.graph() == dependencies@,
            d.found_cycles() is None,
    {
        CircularDependencyDetector { graph: dependencies, found: None }
    }

    /// Finds every import cycle, as `search` does, the first time; later calls
    /// give the cycles of the first successful search again, in the same order.
    pub fn find_cycles(&mut self) -> (r: Result<Vec<CircularDependency>, Error>)
        ensures
            final(self).graph() == old(self).graph(),
            match r {
                Ok(cycles) => valid_report(old(self).graph(), cycles@),
                Err(Error::GraphTooLarge { module_count, max_allowed }) => old(self).graph().len() > 100000
                    && module_count == old(self).graph().len() && max_allowed == 100000,
                Err(Error::CycleTooDeep { depth, max_allowed }) => old(self).graph().len() <= 100000
                    && max_allowed == 1000 && depth > 1000 && exists|s: Seq<Seq<char>>|
                    s.len() == depth && #[trigger] mutual_group(old(self).graph(), s),
                Err(_) => false,
            },
            old(self).found_cycles() matches Some(v) ==> (r matches Ok(cycles) && cycle_views(cycles@) == v),
            match r {
                Ok(cycles) => final(self).found_cycles() == Some(cycle_views(cycles@)),
                Err(_) => final(self).found_cycles() == old(self).found_cycles(),
            },
    {
        proof {
            use_type_invariant(&*self);
        }
        match &self.found {
            Some(c) => {
                let r = copy_cycles(c);
                proof {
                    lemma_valid_report_views(self.graph@, c@, r@);
                }
                return Ok(r);
            },
            None => {},
        }
        match self.search() {
            Ok(cycles) => {
                let kept = copy_cycles(&cycles);
                proof {
                    lemma_valid_report_views(self.graph@, cycles@, kept@);
                }
                self.found = Some(kept);
                Ok(cycles)
            },
            Err(e) => Err(e),
        }
    }

    /// Searches the graph for every import cycle: the groups of two or more
    /// modules that all reach one another. Refuses graphs with more than 100000
    /// entries, and fails on a cycle of more than 1000 modules, naming its
    /// length.
    fn search(&self) -> (r: Result<Vec<CircularDependency>, Error>)
        ensures
            match r {
                Ok(cycles) => valid_report(self.graph(), cycles@),
                Err(Error::GraphTooLarge { module_count, max_allowed }) => self.graph().len() > 100000
                    && module_count == self.graph().len() && max_allowed == 100000,
                Err(Error::CycleTooDeep { depth, max_allowed }) => self.graph().len() <= 100000
                    && max_allowed == 1000 && depth > 1000 && exists|s: Seq<Seq<char>>|
                    s.len() == depth && #[trigger] mutual_group(self.graph(), s),
                Err(_) => false,
            },
    {
        proof {
            use_type_invariant(self);
        }
        let ghost g = self.graph@;
        if self.graph.len() > 100000 {
            return Err(Error::GraphTooLarge { module_count: self.graph.len(), max_allowed: 100000 });
        }
        let (names, adj) = number_modules(&self.graph);
        let ghost adjv = adj@;
        let ghost nv = names@;
        let name_count = names.len();
        proof {
            assert forall|x: int| g.len() <= x < adjv.len() implies #[trigger] root_dependency(adjv, g.len() as int, x) by {
                assert(is_module(g, nv[x]@));
                if exists|k: int| 0 <= k < g.len() && #[trigger] g[k].0@ == nv[x]@ {
                    let k = choose|k: int| 0 <= k < g.len() && #[trigger] g[k].0@ == nv[x]@;
                    assert(nv[k]@ == g[k].0@);
                    assert(nv[k]@ != nv[x]@);
                } else {
                    let (k, jj) = choose|k: int, jj: int|
                        #![trigger g[k].1@[jj]]
                        0 <= k < g.len() && 0 <= jj < g[k].1@.len() && g[k].1@[jj]@ == nv[x]@;
                    assert(nv[k]@ == g[k].0@);
                    assert(imports(g, nv[k]@, nv[x]@));
                    assert(adjv[k]@.contains(x as usize));
                }
            }
        }
        let (sccs, Ghost(comp)) = components(adj, self.graph.len());
        proof {
            assert forall|c: int| 0 <= c < sccs@.len() implies #[trigger] mutual_group(g, names_at(nv, sccs@[c]@)) by {
                let members = sccs@[c]@;
                let s = names_at(nv, members);
                assert forall|k: int| 0 <= k < s.len() implies is_module(g, #[trigger] s[k]) by {
                    assert(is_module(g, nv[members[k] as int]@));
                }
                assert(s.no_duplicates()) by {
                    assert forall|a: int, b: int| 0 <= a < s.len() && 0 <= b < s.len() && a != b implies s[a] != s[b] by {
                        let xa = members[a];
                        let xb = members[b];
                        assert(members.no_duplicates());
                        assert(xa != xb);
                        if (xa as int) < (xb as int) {
                            assert(nv[xa as int]@ != nv[xb as int]@);
                        } else {
                            assert(nv[xb as int]@ != nv[xa as int]@);
                        }
                    }
                }
                assert forall|j1: int, j2: int| 0 <= j1 < s.len() && 0 <= j2 < s.len() implies imports_transitively(
                    g,
                    #[trigger] s[j1],
                    #[trigger] s[j2],
                ) by {
                    let x1 = members[j1];
                    let x2 = members[j2];
                    assert(reaches(adjv, sccs@[c]@[j1], sccs@[c]@[j2]));
                    let p = choose|p: Seq<usize>| #[trigger] is_path(adjv, p) && p[0] == x1 && p.last() == x2;
                    lemma_path_to_chain(g, nv, adjv, p);
                }
            }
        }
        let mut cycles: Vec<CircularDependency> = Vec::new();
        let ghost mut sel: Seq<int> = Seq::empty();
        let mut i: usize = 0;
        while i < sccs.len()
            invariant
                i <= sccs@.len(),
                sel.len() == cycles@.len(),
                names@ == nv,
                forall|k: int| 0 <= k < sel.len() ==> 0 <= #[trigger] sel[k] < i && sccs@[sel[k]]@.len() >= 2,
                forall|k1: int, k2: int| 0 <= k1 < k2 < sel.len() ==> sel[k1] < sel[k2],
                forall|c: int| 0 <= c < i && (#[trigger] sccs@[c]@).len() >= 2 ==> exists|k: int| 0 <= k < sel.len() && #[trigger] sel[k] == c,
                forall|k: int| 0 <= k < cycles@.len() ==> {
                    let cd = #[trigger] cycles@[k];
                    &&& cd.cycle@.len() == sccs@[sel[k]]@.len()
                    &&& !cd.all_unreachable
                    &&& cd.total_size == 0
                    &&& forall|j: int| 0 <= j < cd.cycle@.len() ==> #[trigger] cd.cycle@[j]@ == nv[sccs@[sel[k]]@[j] as int]@
                },
                forall|c: int, j: int|
                    0 <= c < sccs@.len() && 0 <= j < sccs@[c]@.len() ==> (#[trigger] sccs@[c]@[j]) < nv.len(),
                forall|c: int| 0 <= c < i ==> (#[trigger] sccs@[c]@).len() <= 1000,
                g == self.graph@,
                g.len() <= 100000,
                forall|c: int| 0 <= c < sccs@.len() ==> #[trigger] mutual_group(g, names_at(nv, sccs@[c]@)),
            decreases sccs@.len() - i,
        {
            if sccs[i].len() > 1000 {
                let depth = sccs[i].len();
                proof {
                    let s = names_at(nv, sccs@[i as int]@);
                    assert(mutual_group(g, s));
                    assert(s.len() == depth);
                    assert(self.graph() == g);
                }
                return Err(Error::CycleTooDeep { depth, max_allowed: 1000 });
            }
            if sccs[i].len() > 1 {
                let members = &sccs[i];
                let mut cycle: Vec<String> = Vec::new();
                let mut j: usize = 0;
                while j < members.len()
                    invariant
                        members@ == sccs@[i as int]@,
                        j <= members@.len(),
                        names@ == nv,
                        cycle@.len() == j,
                        forall|jj: int| 0 <= jj < members@.len() ==> (#[trigger] members@[jj]) < nv.len(),
                        forall|jj: int| 0 <= jj < j ==> #[trigger] cycle@[jj]@ == nv[members@[jj] as int]@,
                    decreases members@.len() - j,
                {
                    cycle.push(names[members[j]].clone());
                    j = j + 1;
                }
                let ghost before = cycles@;
                cycles.push(CircularDependency { cycle, all_unreachable: false, total_size: 0 });
                proof {
                    let old_sel = sel;
                    sel = sel.push(i as int);
                    assert forall|c: int| 0 <= c < i + 1 && (#[trigger] sccs@[c]@).len() >= 2 implies exists|k: int|
                        0 <= k < sel.len() && #[trigger] sel[k] == c by {
                        if c == i {
                            assert(sel[sel.len() - 1] == c);
                        } else {
                            let k = choose|k: int| 0 <= k < old_sel.len() && #[trigger] old_sel[k] == c;
                            assert(sel[k] == c);
                        }
                    }
                    assert forall|k: int| 0 <= k < cycles@.len() implies {
                        let cd = #[trigger] cycles@[k];
                        &&& cd.cycle@.len() == sccs@[sel[k]]@.len()
                        &&& !cd.all_unreachable
                        &&& cd.total_size == 0
                        &&& forall|j: int| 0 <= j < cd.cycle@.len() ==> #[trigger] cd.cycle@[j]@ == nv[sccs@[sel[k]]@[j] as int]@
                    } by {
                        if k < before.len() {
                            assert(cycles@[k] == before[k]);
                        }
                    }
                }
            }
            i = i + 1;
        }
        proof {
            assert forall|k: int, j: int|
                0 <= k < cycles@.len() && 0 <= j < cycles@[k].cycle@.len() implies is_module(
                    g,
                    #[trigger] cycles@[k].cycle@[j]@,
                ) by {
                let x = sccs@[sel[k]]@[j];
                assert(cycles@[k].cycle@[j]@ == nv[x as int]@);
                assert(is_module(g, nv[x as int]@));
            }
            assert forall|k1: int, j1: int, k2: int, j2: int|
                0 <= k1 < cycles@.len() && 0 <= j1 < cycles@[k1].cycle@.len() && 0 <= k2 < cycles@.len()
                    && 0 <= j2 < cycles@[k2].cycle@.len() && (k1 != k2 || j1 != j2) implies #[trigger] cycles@[k1].cycle@[j1]@
                    != #[trigger] cycles@[k2].cycle@[j2]@ by {
                let x1 = sccs@[sel[k1]]@[j1];
                let x2 = sccs@[sel[k2]]@[j2];
                assert(cycles@[k1].cycle@[j1]@ == nv[x1 as int]@);
                assert(cycles@[k2].cycle@[j2]@ == nv[x2 as int]@);
                if x1 == x2 {
                    assert(comp[x1 as int] == sel[k1]);
                    assert(comp[x2 as int] == sel[k2]);
                    if k1 != k2 {
                        if k1 < k2 {
                            assert(sel[k1] < sel[k2]);
                        } else {
                            assert(sel[k2] < sel[k1]);
                        }
                    }
                    assert(sccs@[sel[k1]]@.no_duplicates());
                } else {
                    if (x1 as int) < (x2 as int) {
                        assert(nv[x1 as int]@ != nv[x2 as int]@);
                    } else {
                        assert(nv[x2 as int]@ != nv[x1 as int]@);
                    }
                }
            }
            assert(nv.len() == name_count);
            assert forall|k: int, j1: int, j2: int|
                0 <= k < cycles@.len() && 0 <= j1 < cycles@[k].cycle@.len() && 0 <= j2 < cycles@[k].cycle@.len()
                implies imports_transitively(g, #[trigger] cycles@[k].cycle@[j1]@, #[trigger] cycles@[k].cycle@[j2]@) by {
                let x1 = sccs@[sel[k]]@[j1];
                let x2 = sccs@[sel[k]]@[j2];
                assert(cycles@[k].cycle@[j1]@ == nv[x1 as int]@);
                assert(cycles@[k].cycle@[j2]@ == nv[x2 as int]@);
                assert(reaches(adjv, sccs@[sel[k]]@[j1], sccs@[sel[k]]@[j2]));
                let p = choose|p: Seq<usize>| #[trigger] is_path(adjv, p) && p[0] == x1 && p.last() == x2;
                lemma_path_to_chain(g, nv, adjv, p);
            }
            assert forall|a: Seq<char>, b: Seq<char>|
                is_module(g, a) && is_module(g, b) && a != b && #[trigger] imports_transitively(g, a, b)
                    && #[trigger] imports_transitively(g, b, a) implies exists|k: int|
                    0 <= k < cycles@.len() && #[trigger] has_name(cycles@[k].cycle@, a) && has_name(cycles@[k].cycle@, b) by {
                let x = choose|x: int| 0 <= x < nv.len() && #[trigger] nv[x]@ == a;
                let y = choose|y: int| 0 <= y < nv.len() && #[trigger] nv[y]@ == b;
                let qa = choose|p: Seq<Seq<char>>| #[trigger] import_chain(g, p) && p[0] == a && p.last() == b;
                let qb = choose|p: Seq<Seq<char>>| #[trigger] import_chain(g, p) && p[0] == b && p.last() == a;
                lemma_chain_to_path(g, nv, adjv, qa, x as usize, y as usize);
                lemma_chain_to_path(g, nv, adjv, qb, y as usize, x as usize);
                assert(comp[x] == comp[y]);
                let c = comp[x];
                assert(sccs@[c]@.contains(x as usize));
                assert(sccs@[c]@.contains(y as usize));
                let jx = choose|jx: int| 0 <= jx < sccs@[c]@.len() && sccs@[c]@[jx] == x as usize;
                let jy = choose|jy: int| 0 <= jy < sccs@[c]@.len() && sccs@[c]@[jy] == y as usize;
                assert(x != y);
                assert(jx != jy);
                assert(sccs@[c]@.len() >= 2);
                let k = choose|k: int| 0 <= k < sel.len() && #[trigger] sel[k] == c;
                assert(cycles@[k].cycle@[jx]@ == nv[x]@);
                assert(cycles@[k].cycle@[jy]@ == nv[y]@);
                assert(has_name(cycles@[k].cycle@, a));
                assert(has_name(cycles@[k].cycle@, b));
            }
            assert(reports_cycles(g, cycles@));
        }
        Ok(cycles)
    }
}

} // verus!
