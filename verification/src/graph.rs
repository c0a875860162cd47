//! The dependency graph: forward and reverse adjacency between files,
//! idempotent edge insertion, transitive-closure queries and best-effort
//! cycle detection.

use vstd::prelude::*;

use crate::strmap::StrMap;
use crate::strutil::{clone_string_vec, contains_str, lemma_str_seq_set_push, str_eq, str_seq_set};

verus! {

/// The abstract adjacency: each node's neighbour list as character
/// sequences, in insertion order.
pub open spec fn adj_view(m: Map<Seq<char>, Vec<String>>) -> Map<Seq<char>, Seq<Seq<char>>> {
    m.map_values(|v: Vec<String>| v@.map_values(|s: String| s@))
}

/// An edge `a -> b` in an adjacency view.
pub open spec fn spec_edge(m: Map<Seq<char>, Seq<Seq<char>>>, a: Seq<char>, b: Seq<char>) -> bool {
    m.contains_key(a) && m[a].contains(b)
}

/// Adjacency after idempotently inserting the edge `a -> b`.
pub open spec fn adj_insert(
    m: Map<Seq<char>, Seq<Seq<char>>>,
    a: Seq<char>,
    b: Seq<char>,
) -> Map<Seq<char>, Seq<Seq<char>>> {
    if m.contains_key(a) {
        if m[a].contains(b) {
            m
        } else {
            m.insert(a, m[a].push(b))
        }
    } else {
        m.insert(a, seq![b])
    }
}

/// Inserting an edge adds exactly that edge.
pub proof fn lemma_adj_insert_edges(
    m: Map<Seq<char>, Seq<Seq<char>>>,
    a: Seq<char>,
    b: Seq<char>,
)
    ensures
        forall|x: Seq<char>, y: Seq<char>|
            #[trigger] spec_edge(adj_insert(m, a, b), x, y) <==> (spec_edge(m, x, y) || (x == a
                && y == b)),
{
    assert forall|x: Seq<char>, y: Seq<char>|
        #[trigger] spec_edge(adj_insert(m, a, b), x, y) <==> (spec_edge(m, x, y) || (x == a && y
            == b)) by {
        let m2 = adj_insert(m, a, b);
        if m.contains_key(a) && !m[a].contains(b) {
            if x == a {
                if spec_edge(m2, x, y) {
                    let i = choose|i: int| 0 <= i < m2[a].len() && m2[a][i] == y;
                    if i < m[a].len() {
                        assert(m[a][i] == y);
                    }
                }
                if spec_edge(m, x, y) {
                    let i = choose|i: int| 0 <= i < m[a].len() && m[a][i] == y;
                    assert(m2[a][i] == y);
                }
                if y == b {
                    assert(m2[a][m[a].len() as int] == b);
                }
            }
        } else if !m.contains_key(a) {
            if x == a {
                if spec_edge(m2, x, y) {
                    let i = choose|i: int| 0 <= i < m2[a].len() && m2[a][i] == y;
                    assert(y == b);
                }
                if y == b {
                    assert(m2[a][0] == b);
                }
            }
        }
    }
}

/// Inserting an edge a second time changes nothing: graph queries after
/// a repeated insertion answer as they did after the first.
pub proof fn lemma_adj_insert_idempotent(
    m: Map<Seq<char>, Seq<Seq<char>>>,
    a: Seq<char>,
    b: Seq<char>,
)
    ensures
        adj_insert(adj_insert(m, a, b), a, b) == adj_insert(m, a, b),
{
    let m2 = adj_insert(m, a, b);
    assert(m2.contains_key(a));
    assert(m2[a].contains(b)) by {
        if m.contains_key(a) {
            if m[a].contains(b) {
                assert(m2[a] == m[a]);
            } else {
                assert(m2[a] == m[a].push(b));
                assert(m2[a][m[a].len() as int] == b);
            }
        } else {
            assert(m2[a] == seq![b]);
            assert(m2[a][0] == b);
        }
    }
}

/// Insert the edge `a -> b` into one adjacency map.
fn adj_add(m: &mut StrMap<Vec<String>>, a: String, b: String)
    requires
        old(m).wf(),
    ensures
        final(m).wf(),
        adj_view(final(m).as_map()) == adj_insert(adj_view(old(m).as_map()), a@, b@),
{
    let ghost before = adj_view(old(m).as_map());
    match m.take(a.as_str()) {
        Some(mut v) => {
            let ghost held = v@;
            if !contains_str(&v, b.as_str()) {
                proof {
                    if held.map_values(|s: String| s@).contains(b@) {
                        let i = choose|i: int|
                            #![trigger held[i]]
                            0 <= i < held.len() && held.map_values(|s: String| s@)[i] == b@;
                        assert(held[i]@ == b@);
                        assert(false);
                    }
                }
                v.push(b);
                m.insert(a, v);
                proof {
                    assert(v@.map_values(|s: String| s@) =~= held.map_values(|s: String| s@).push(
                        b@,
                    ));
                    assert(adj_view(m.as_map()) =~= adj_insert(before, a@, b@));
                }
            } else {
                proof {
                    let i = choose|i: int| 0 <= i < held.len() && held[i]@ == b@;
                    assert(held.map_values(|s: String| s@)[i] == b@);
                }
                m.insert(a, v);
                proof {
                    assert(adj_view(m.as_map()) =~= adj_insert(before, a@, b@));
                }
            }
        },
        None => {
            proof {
                assert(!adj_view(old(m).as_map()).contains_key(a@));
            }
            let mut v: Vec<String> = Vec::new();
            v.push(b);
            m.insert(a, v);
            proof {
                assert(v@.map_values(|s: String| s@) =~= seq![b@]);
                assert(adj_view(m.as_map()) =~= adj_insert(before, a@, b@));
            }
        },
    }
}

/// The views of a sequence of path strings.
pub open spec fn pview(p: Seq<String>) -> Seq<Seq<char>> {
    p.map_values(|s: String| s@)
}

/// Consecutive nodes of `p` are linked by forward edges.
pub open spec fn spec_chain(m: Map<Seq<char>, Seq<Seq<char>>>, p: Seq<Seq<char>>) -> bool {
    forall|i: int| 0 <= i < p.len() - 1 ==> spec_edge(m, #[trigger] p[i], p[i + 1])
}

/// `x` can be reached from `start` over one or more edges.
pub open spec fn spec_reachable(
    m: Map<Seq<char>, Seq<Seq<char>>>,
    start: Seq<char>,
    x: Seq<char>,
) -> bool {
    exists|p: Seq<Seq<char>>|
        #![trigger spec_chain(m, p)]
        p.len() >= 2 && p.first() == start && p.last() == x && spec_chain(m, p)
}

/// A non-empty node sequence whose consecutive nodes are linked and whose
/// last node links back to its first.
pub open spec fn spec_is_cycle(m: Map<Seq<char>, Seq<Seq<char>>>, c: Seq<Seq<char>>) -> bool {
    c.len() >= 1 && spec_chain(m, c) && spec_edge(m, c.last(), c.first())
}

/// The first position of `x` in `p`.
pub open spec fn first_index_of(p: Seq<Seq<char>>, x: Seq<char>) -> int
    decreases p.len(),
{
    if p.len() == 0 {
        0
    } else if p[0] == x {
        0
    } else {
        1 + first_index_of(p.skip(1), x)
    }
}

pub proof fn lemma_first_index_at(p: Seq<Seq<char>>, x: Seq<char>, j: int)
    requires
        0 <= j < p.len(),
        p[j] == x,
        forall|t: int| 0 <= t < j ==> p[t] != x,
    ensures
        first_index_of(p, x) == j,
    decreases j,
{
    if j > 0 {
        assert(p[0] != x);
        assert(p.skip(1)[j - 1] == p[j]);
        assert forall|t: int| 0 <= t < j - 1 implies p.skip(1)[t] != x by {
            assert(p.skip(1)[t] == p[t + 1]);
        }
        lemma_first_index_at(p.skip(1), x, j - 1);
    }
}

/// One step of the cycle search, as the analysis walks it: re-entering a
/// node of the current path emits the path from that node on; a globally
/// visited node ends the branch; any other node is marked visited and its
/// dependencies are walked in order with the node appended to the path.
/// `fuel` bounds the recursion depth; the analysis supplies more than any
/// walk can consume.
pub open spec fn spec_cycle_walk(
    m: Map<Seq<char>, Seq<Seq<char>>>,
    current: Seq<char>,
    visited: Set<Seq<char>>,
    path: Seq<Seq<char>>,
    cycles: Seq<Seq<Seq<char>>>,
    fuel: nat,
) -> (Set<Seq<char>>, Seq<Seq<Seq<char>>>)
    decreases fuel, 1nat, 0nat,
{
    if fuel == 0 {
        (visited, cycles)
    } else if path.contains(current) {
        (visited, cycles.push(path.skip(first_index_of(path, current))))
    } else if visited.contains(current) {
        (visited, cycles)
    } else {
        let v2 = visited.insert(current);
        if m.contains_key(current) {
            spec_cycle_walk_deps(m, m[current], v2, path.push(current), cycles, fuel)
        } else {
            (v2, cycles)
        }
    }
}

/// Walk a node's dependencies in order, threading the visited set and the
/// reported cycles.
pub open spec fn spec_cycle_walk_deps(
    m: Map<Seq<char>, Seq<Seq<char>>>,
    deps: Seq<Seq<char>>,
    visited: Set<Seq<char>>,
    path: Seq<Seq<char>>,
    cycles: Seq<Seq<Seq<char>>>,
    fuel: nat,
) -> (Set<Seq<char>>, Seq<Seq<Seq<char>>>)
    decreases fuel, 0nat, deps.len(),
{
    if deps.len() == 0 || fuel == 0 {
        (visited, cycles)
    } else {
        let stepped = spec_cycle_walk(m, deps[0], visited, path, cycles, (fuel - 1) as nat);
        spec_cycle_walk_deps(m, deps.skip(1), stepped.0, path, stepped.1, fuel)
    }
}

/// The whole cycle analysis: walk every adjacency key in entry order over
/// one shared visited set, starting from an empty path each time.
pub open spec fn spec_analyze_cycles(
    m: Map<Seq<char>, Seq<Seq<char>>>,
    keys: Seq<Seq<char>>,
    visited: Set<Seq<char>>,
    cycles: Seq<Seq<Seq<char>>>,
    fuel: nat,
) -> Seq<Seq<Seq<char>>>
    decreases keys.len(),
{
    if keys.len() == 0 {
        cycles
    } else {
        let stepped = spec_cycle_walk(m, keys[0], visited, Seq::empty(), cycles, fuel);
        spec_analyze_cycles(m, keys.skip(1), stepped.0, stepped.1, fuel)
    }
}

/// The views of reported cycle chains.
pub open spec fn cycles_view(cs: Seq<Vec<String>>) -> Seq<Seq<Seq<char>>> {
    cs.map_values(|c: Vec<String>| pview(c@))
}

pub proof fn lemma_reach_step(m: Map<Seq<char>, Seq<Seq<char>>>, a: Seq<char>, b: Seq<char>)
    requires
        spec_edge(m, a, b),
    ensures
        spec_reachable(m, a, b),
{
    let p = seq![a, b];
    assert(spec_chain(m, p)) by {
        assert forall|i: int| 0 <= i < p.len() - 1 implies spec_edge(m, #[trigger] p[i], p[i + 1]) by {
            assert(p[0] == a && p[1] == b);
        }
    }
    assert(p.len() >= 2 && p.first() == a && p.last() == b);
}

pub proof fn lemma_reach_extend(
    m: Map<Seq<char>, Seq<Seq<char>>>,
    s: Seq<char>,
    c: Seq<char>,
    d: Seq<char>,
)
    requires
        spec_reachable(m, s, c),
        spec_edge(m, c, d),
    ensures
        spec_reachable(m, s, d),
{
    let p = choose|p: Seq<Seq<char>>|
        #![trigger spec_chain(m, p)]
        p.len() >= 2 && p.first() == s && p.last() == c && spec_chain(m, p);
    let q = p.push(d);
    assert(spec_chain(m, q)) by {
        assert forall|i: int| 0 <= i < q.len() - 1 implies spec_edge(m, #[trigger] q[i], q[i + 1]) by {
            if i < p.len() - 1 {
                assert(q[i] == p[i] && q[i + 1] == p[i + 1]);
                assert(spec_edge(m, p[i], p[i + 1]));
            } else {
                assert(q[i] == p.last() && q[i + 1] == d);
            }
        }
    }
    assert(q.len() >= 2 && q.first() == s && q.last() == d);
}

proof fn lemma_chain_closed(
    m: Map<Seq<char>, Seq<Seq<char>>>,
    start: Seq<char>,
    s: Set<Seq<char>>,
    p: Seq<Seq<char>>,
)
    requires
        forall|y: Seq<char>, z: Seq<char>|
            (y == start || s.contains(y)) && #[trigger] spec_edge(m, y, z) ==> s.contains(z),
        p.len() >= 2,
        p.first() == start,
        spec_chain(m, p),
    ensures
        s.contains(p.last()),
    decreases p.len(),
{
    if p.len() == 2 {
        assert(spec_edge(m, p[0], p[1]));
    } else {
        let q = p.drop_last();
        assert(spec_chain(m, q)) by {
            assert forall|i: int| 0 <= i < q.len() - 1 implies spec_edge(
                m,
                #[trigger] q[i],
                q[i + 1],
            ) by {
                assert(q[i] == p[i] && q[i + 1] == p[i + 1]);
                assert(spec_edge(m, p[i], p[i + 1]));
            }
        }
        lemma_chain_closed(m, start, s, q);
        assert(q.last() == p[p.len() - 2]);
        assert(spec_edge(m, p[p.len() - 2], p[p.len() - 1]));
    }
}

pub proof fn lemma_reach_closed(
    m: Map<Seq<char>, Seq<Seq<char>>>,
    start: Seq<char>,
    s: Set<Seq<char>>,
    x: Seq<char>,
)
    requires
        forall|y: Seq<char>, z: Seq<char>|
            (y == start || s.contains(y)) && #[trigger] spec_edge(m, y, z) ==> s.contains(z),
        spec_reachable(m, start, x),
    ensures
        s.contains(x),
{
    let p = choose|p: Seq<Seq<char>>|
        #![trigger spec_chain(m, p)]
        p.len() >= 2 && p.first() == start && p.last() == x && spec_chain(m, p);
    lemma_chain_closed(m, start, s, p);
}

/// All neighbour entries of the first `n` adjacency rows.
pub open spec fn targets_upto(es: Seq<(String, Vec<String>)>, n: int) -> Set<Seq<char>>
    decreases n,
{
    if n <= 0 {
        Set::<Seq<char>>::empty()
    } else {
        targets_upto(es, n - 1).union(str_seq_set(es[n - 1].1@))
    }
}

proof fn lemma_str_seq_set_finite(v: Seq<String>)
    ensures
        str_seq_set(v).finite(),
{
    let mapped = v.map_values(|s: String| s@);
    assert(str_seq_set(v) =~= mapped.to_set()) by {
        assert forall|k: Seq<char>| str_seq_set(v).contains(k) implies mapped.to_set().contains(
            k,
        ) by {
            let i = choose|i: int| 0 <= i < v.len() && v[i]@ == k;
            assert(mapped[i] == k);
        }
        assert forall|k: Seq<char>| mapped.to_set().contains(k) implies str_seq_set(v).contains(
            k,
        ) by {
            let i = choose|i: int| 0 <= i < mapped.len() && mapped[i] == k;
            assert(v[i]@ == k);
        }
    }
    vstd::seq_lib::seq_to_set_is_finite(mapped);
}

proof fn lemma_targets_finite(es: Seq<(String, Vec<String>)>, n: int)
    ensures
        targets_upto(es, n).finite(),
    decreases n,
{
    if n <= 0 {
    } else {
        lemma_targets_finite(es, n - 1);
        lemma_str_seq_set_finite(es[n - 1].1@);
    }
}

proof fn lemma_targets_mono(es: Seq<(String, Vec<String>)>, i: int, n: int)
    requires
        0 <= i < n,
    ensures
        str_seq_set(es[i].1@).subset_of(targets_upto(es, n)),
    decreases n,
{
    if i < n - 1 {
        lemma_targets_mono(es, i, n - 1);
    }
}

proof fn lemma_targets_member(d: &StrMap<Vec<String>>, y: Seq<char>, z: Seq<char>)
    requires
        d.wf(),
        spec_edge(adj_view(d.as_map()), y, z),
    ensures
        targets_upto(d.entries(), d.entries().len() as int).contains(z),
{
    d.lemma_entries_agree();
    let es = d.entries();
    let i = choose|i: int| 0 <= i < es.len() && #[trigger] es[i].0@ == y;
    assert(d.as_map()[y] == es[i].1);
    let mv = es[i].1@.map_values(|s: String| s@);
    assert(adj_view(d.as_map())[y] == mv);
    let j = choose|j: int| 0 <= j < mv.len() && mv[j] == z;
    assert(es[i].1@[j]@ == z);
    assert(str_seq_set(es[i].1@).contains(z));
    lemma_targets_mono(es, i, es.len() as int);
}

proof fn lemma_str_seq_set_pop(v: Seq<String>)
    requires
        v.len() >= 1,
    ensures
        forall|k: Seq<char>|
            #[trigger] str_seq_set(v).contains(k) <==> (k == v.last()@ || str_seq_set(
                v.drop_last(),
            ).contains(k)),
{
    assert forall|k: Seq<char>|
        #[trigger] str_seq_set(v).contains(k) <==> (k == v.last()@ || str_seq_set(
            v.drop_last(),
        ).contains(k)) by {
        if str_seq_set(v).contains(k) {
            let i = choose|i: int| 0 <= i < v.len() && v[i]@ == k;
            if i < v.len() - 1 {
                assert(v.drop_last()[i]@ == k);
            }
        }
        if k == v.last()@ {
            assert(v[v.len() - 1]@ == k);
        }
        if str_seq_set(v.drop_last()).contains(k) {
            let i = choose|i: int| 0 <= i < v.drop_last().len() && v.drop_last()[i]@ == k;
            assert(v[i]@ == k);
        }
    }
}

/// The file-to-file dependency graph: forward edges from a file to what it
/// depends on, mirrored by reverse edges to its dependents.
pub struct ImportGraph {
    dependencies: StrMap<Vec<String>>,
    reverse_dependencies: StrMap<Vec<String>>,
}

impl ImportGraph {
    /// Forward adjacency.
    pub closed spec fn fwd(&self) -> Map<Seq<char>, Seq<Seq<char>>> {
        adj_view(self.dependencies.as_map())
    }

    /// Reverse adjacency.
    pub closed spec fn rev(&self) -> Map<Seq<char>, Seq<Seq<char>>> {
        adj_view(self.reverse_dependencies.as_map())
    }

    /// Every forward edge has its mirrored reverse edge and vice versa.
    pub closed spec fn wf(&self) -> bool {
        &&& self.dependencies.wf()
        &&& self.reverse_dependencies.wf()
        &&& forall|a: Seq<char>, b: Seq<char>|
            #[trigger] spec_edge(self.fwd(), a, b) <==> #[trigger] spec_edge(self.rev(), b, a)
    }

    /// The mirror law: a file's dependents are exactly the files that
    /// depend on it. Every forward edge has its reverse edge and vice
    /// versa, in every graph the public operations can build.
    pub proof fn lemma_mirror(&self)
        requires
            self.wf(),
        ensures
            forall|a: Seq<char>, b: Seq<char>|
                #[trigger] spec_edge(self.fwd(), a, b) <==> #[trigger] spec_edge(
                    self.rev(),
                    b,
                    a,
                ),
    {
    }

    /// An empty graph.
    pub fn new() -> (r: Self)
        ensures
            r.wf(),
            r.fwd() == Map::<Seq<char>, Seq<Seq<char>>>::empty(),
            r.rev() == Map::<Seq<char>, Seq<Seq<char>>>::empty(),
    {
        let r = ImportGraph { dependencies: StrMap::new(), reverse_dependencies: StrMap::new() };
        proof {
            assert(r.fwd() =~= Map::<Seq<char>, Seq<Seq<char>>>::empty());
            assert(r.rev() =~= Map::<Seq<char>, Seq<Seq<char>>>::empty());
        }
        r
    }

    /// Record that `source` depends on `target`; inserting an edge twice
    /// leaves the graph unchanged.
    pub fn add_dependency(&mut self, source: String, target: String)
        requires
            old(self).wf(),
        ensures
            final(self).wf(),
            final(self).fwd() == adj_insert(old(self).fwd(), source@, target@),
            final(self).rev() == adj_insert(old(self).rev(), target@, source@),
    {
        let ghost of = self.fwd();
        let ghost orv = self.rev();
        let s2 = source.clone();
        let t2 = target.clone();
        adj_add(&mut self.dependencies, source, t2);
        adj_add(&mut self.reverse_dependencies, target, s2);
        proof {
            lemma_adj_insert_edges(of, source@, target@);
            lemma_adj_insert_edges(orv, target@, source@);
            assert forall|a: Seq<char>, b: Seq<char>|
                #[trigger] spec_edge(self.fwd(), a, b) <==> #[trigger] spec_edge(
                self.rev(),
                b,
                a,
            ) by {
                assert(spec_edge(self.fwd(), a, b) <==> (spec_edge(of, a, b) || (a == source@ && b
                    == target@)));
                assert(spec_edge(self.rev(), b, a) <==> (spec_edge(orv, b, a) || (b == target@
                    && a == source@)));
            }
        }
    }

    /// The direct dependencies of a file, if it has any recorded.
    pub fn get_dependencies(&self, file: &str) -> (r: Option<Vec<String>>)
        requires
            self.wf(),
        ensures
            match r {
                Some(v) => self.fwd().contains_key(file@) && v@.map_values(|s: String| s@)
                    == self.fwd()[file@],
                None => !self.fwd().contains_key(file@),
            },
    {
        match self.dependencies.get(file) {
            Some(v) => Some(clone_string_vec(v)),
            None => None,
        }
    }

    /// The transitive closure from `file`: exactly the files reachable
    /// over one or more forward edges (so `file` itself only when a cycle
    /// leads back to it), each listed once.
    #[verifier::loop_isolation(false)]
    pub fn get_all_dependencies(&self, file: &str) -> (r: Vec<String>)
        requires
            self.wf(),
        ensures
            forall|x: Seq<char>|
                #[trigger] str_seq_set(r@).contains(x) <==> spec_reachable(self.fwd(), file@, x),
            forall|i: int, j: int| 0 <= i < j < r@.len() ==> r@[i]@ != r@[j]@,
    {
        let ghost m = self.fwd();
        let ghost es = self.dependencies.entries();
        let ghost universe = targets_upto(es, es.len() as int);
        proof {
            lemma_targets_finite(es, es.len() as int);
        }
        let mut all: Vec<String> = Vec::new();
        let mut stack: Vec<String> = Vec::new();
        stack.push(String::from_str(file));
        proof {
            assert forall|k: Seq<char>| !str_seq_set(all@).contains(k) by {
                if str_seq_set(all@).contains(k) {
                    let i = choose|i: int| 0 <= i < all@.len() && all@[i]@ == k;
                }
            }
            assert(str_seq_set(all@) =~= Set::<Seq<char>>::empty());
            assert(stack@[0]@ == file@);
        }
        while stack.len() > 0
            invariant
                str_seq_set(all@).finite(),
                forall|i: int|
                    0 <= i < all@.len() ==> spec_reachable(m, file@, #[trigger] all@[i]@),
                forall|i: int|
                    0 <= i < stack@.len() ==> (#[trigger] stack@[i]@ == file@ || str_seq_set(
                        all@,
                    ).contains(stack@[i]@)),
                forall|y: Seq<char>, z: Seq<char>|
                    (y == file@ || str_seq_set(all@).contains(y)) && !str_seq_set(
                        stack@,
                    ).contains(y) && #[trigger] spec_edge(m, y, z) ==> str_seq_set(
                        all@,
                    ).contains(z),
                forall|i: int, j: int| 0 <= i < j < all@.len() ==> all@[i]@ != all@[j]@,
                str_seq_set(all@).subset_of(universe),
                str_seq_set(all@).len() == all@.len(),
            decreases 2 * (universe.len() + 1 - all@.len()) + stack@.len(),
        {
            proof {
                vstd::set_lib::lemma_len_subset(str_seq_set(all@), universe);
            }
            let ghost stack0 = stack@;
            let cur = match stack.pop() {
                Some(c) => c,
                None => {
                    proof {
                        assert(false);
                    }
                    return all;
                },
            };
            proof {
                lemma_str_seq_set_pop(stack0);
                assert(cur == stack0[stack0.len() - 1]);
                if cur@ != file@ {
                    assert(str_seq_set(all@).contains(cur@));
                    let i = choose|i: int| 0 <= i < all@.len() && all@[i]@ == cur@;
                    assert(spec_reachable(m, file@, all@[i]@));
                }
            }
            let ghost a0 = all@;
            let ghost s0 = stack@;
            match self.get_dependencies(cur.as_str()) {
                Some(deps) => {
                    let ghost dv = deps@.map_values(|s: String| s@);
                    proof {
                        assert forall|y: Seq<char>, z: Seq<char>|
                            (y == file@ || str_seq_set(all@).contains(y)) && !str_seq_set(
                                stack@,
                            ).contains(y) && y != cur@ && #[trigger] spec_edge(m, y, z) implies
                            str_seq_set(all@).contains(z) by {
                            assert(!str_seq_set(stack0).contains(y));
                        }
                    }
                    let mut j: usize = 0;
                    while j < deps.len()
                        invariant
                            0 <= j <= deps@.len(),
                            dv == deps@.map_values(|s: String| s@),
                            m.contains_key(cur@),
                            m[cur@] == dv,
                            cur@ == file@ || spec_reachable(m, file@, cur@),
                            all@.len() - a0.len() == stack@.len() - s0.len(),
                            all@.len() >= a0.len(),
                            forall|t: int|
                                0 <= t < j ==> str_seq_set(all@).contains(#[trigger] dv[t]),
                            forall|i: int|
                                0 <= i < all@.len() ==> spec_reachable(
                                    m,
                                    file@,
                                    #[trigger] all@[i]@,
                                ),
                            forall|i: int|
                                0 <= i < stack@.len() ==> (#[trigger] stack@[i]@ == file@
                                    || str_seq_set(all@).contains(stack@[i]@)),
                            forall|y: Seq<char>, z: Seq<char>|
                                (y == file@ || str_seq_set(all@).contains(y)) && !str_seq_set(
                                    stack@,
                                ).contains(y) && y != cur@ && #[trigger] spec_edge(m, y, z)
                                    ==> str_seq_set(all@).contains(z),
                            forall|i: int, j2: int|
                                0 <= i < j2 < all@.len() ==> all@[i]@ != all@[j2]@,
                            str_seq_set(all@).finite(),
                            str_seq_set(all@).subset_of(universe),
                            str_seq_set(all@).len() == all@.len(),
                        decreases deps@.len() - j,
                    {
                        let dep = &deps[j];
                        proof {
                            assert(dv[j as int] == dep@);
                            assert(m[cur@].contains(dep@));
                        }
                        if !contains_str(&all, dep.as_str()) {
                            let ghost ap = all@;
                            let ghost sp = stack@;
                            let d1 = dep.clone();
                            let d2 = dep.clone();
                            proof {
                                lemma_str_seq_set_push(ap, d1);
                                lemma_str_seq_set_push(sp, d2);
                            }
                            all.push(d1);
                            stack.push(d2);
                            proof {
                                if cur@ == file@ {
                                    lemma_reach_step(m, file@, dep@);
                                } else {
                                    lemma_reach_extend(m, file@, cur@, dep@);
                                }
                                lemma_targets_member(&self.dependencies, cur@, dep@);
                                assert forall|y: Seq<char>, z: Seq<char>|
                                    (y == file@ || str_seq_set(all@).contains(y)) && !str_seq_set(
                                        stack@,
                                    ).contains(y) && y != cur@ && #[trigger] spec_edge(m, y, z)
                                    implies str_seq_set(all@).contains(z) by {
                                    assert(y != dep@);
                                    assert(!str_seq_set(sp).contains(y));
                                    if y != file@ {
                                        assert(str_seq_set(ap).contains(y));
                                    }
                                }
                            }
                        }
                        j += 1;
                    }
                    proof {
                        assert forall|y: Seq<char>, z: Seq<char>|
                            (y == file@ || str_seq_set(all@).contains(y)) && !str_seq_set(
                                stack@,
                            ).contains(y) && #[trigger] spec_edge(m, y, z) implies str_seq_set(
                            all@,
                        ).contains(z) by {
                            if y == cur@ {
                                let t = choose|t: int| 0 <= t < dv.len() && dv[t] == z;
                                assert(str_seq_set(all@).contains(dv[t]));
                            }
                        }
                    }
                },
                None => {
                    proof {
                        assert forall|y: Seq<char>, z: Seq<char>|
                            (y == file@ || str_seq_set(all@).contains(y)) && !str_seq_set(
                                stack@,
                            ).contains(y) && #[trigger] spec_edge(m, y, z) implies str_seq_set(
                            all@,
                        ).contains(z) by {
                            if y == cur@ {
                                assert(!m.contains_key(cur@));
                            } else {
                                assert(!str_seq_set(stack0).contains(y));
                            }
                        }
                    }
                },
            }
            proof {
                vstd::set_lib::lemma_len_subset(str_seq_set(all@), universe);
            }
        }
        proof {
            assert forall|x: Seq<char>| spec_reachable(m, file@, x) implies str_seq_set(
                all@,
            ).contains(x) by {
                assert forall|y: Seq<char>| !str_seq_set(stack@).contains(y) by {
                    if str_seq_set(stack@).contains(y) {
                        let i = choose|i: int| 0 <= i < stack@.len() && stack@[i]@ == y;
                    }
                }
                lemma_reach_closed(m, file@, str_seq_set(all@), x);
            }
            assert forall|x: Seq<char>| str_seq_set(all@).contains(x) implies spec_reachable(
                m,
                file@,
                x,
            ) by {
                let i = choose|i: int| 0 <= i < all@.len() && all@[i]@ == x;
                assert(spec_reachable(m, file@, all@[i]@));
            }
        }
        all
    }

    /// Walk depth-first from `current`, exactly as `spec_cycle_walk`
    /// renders it: each re-entry into the current path reports the path's
    /// tail from the re-entered node, a genuine cycle without repeated
    /// nodes. Subtrees behind globally visited nodes are skipped, so the
    /// enumeration is deliberately not exhaustive.
    #[verifier::loop_isolation(false)]
    fn find_cycles(
        &self,
        current: &str,
        visited: &mut Vec<String>,
        path: &mut Vec<String>,
        cycles: &mut Vec<Vec<String>>,
        fuel: usize,
    )
        requires
            self.wf(),
            spec_chain(self.fwd(), pview(old(path)@)),
            old(path)@.len() > 0 ==> spec_edge(self.fwd(), pview(old(path)@).last(), current@),
            forall|a: int, b: int|
                0 <= a < b < old(path)@.len() ==> old(path)@[a]@ != old(path)@[b]@,
        ensures
            final(path)@ == old(path)@,
            final(cycles)@.len() >= old(cycles)@.len(),
            forall|i: int|
                0 <= i < old(cycles)@.len() ==> final(cycles)@[i] == #[trigger] old(cycles)@[i],
            forall|i: int|
                old(cycles)@.len() <= i < final(cycles)@.len() ==> spec_is_cycle(
                    self.fwd(),
                    pview(#[trigger] final(cycles)@[i]@),
                ),
            forall|i: int, a: int, b: int|
                #![trigger final(cycles)@[i]@[a], final(cycles)@[i]@[b]]
                old(cycles)@.len() <= i < final(cycles)@.len() && 0 <= a < b
                    < final(cycles)@[i]@.len() ==> final(cycles)@[i]@[a]@ != final(cycles)@[i]@[b]@,
            (str_seq_set(final(visited)@), cycles_view(final(cycles)@)) == spec_cycle_walk(
                self.fwd(),
                current@,
                str_seq_set(old(visited)@),
                pview(old(path)@),
                cycles_view(old(cycles)@),
                fuel as nat,
            ),
        decreases fuel,
    {
        let ghost m = self.fwd();
        if fuel == 0 {
            return;
        }
        if contains_str(path, current) {
            proof {
                let i = choose|i: int| 0 <= i < path@.len() && path@[i]@ == current@;
                assert(pview(path@)[i] == current@);
                assert(pview(path@).contains(current@));
            }
            let mut idx: usize = 0;
            while idx < path.len() && !str_eq(path[idx].as_str(), current)
                invariant
                    0 <= idx <= path@.len(),
                    forall|t: int| 0 <= t < idx ==> path@[t]@ != current@,
                decreases path@.len() - idx,
            {
                idx += 1;
            }
            proof {
                if idx == path@.len() {
                    let i = choose|i: int| 0 <= i < path@.len() && path@[i]@ == current@;
                    assert(false);
                }
                assert forall|t: int| 0 <= t < idx implies pview(path@)[t] != current@ by {
                    assert(pview(path@)[t] == path@[t]@);
                }
                lemma_first_index_at(pview(path@), current@, idx as int);
            }
            let mut cyc: Vec<String> = Vec::new();
            let mut t = idx;
            while t < path.len()
                invariant
                    idx <= t <= path@.len(),
                    cyc@.len() == t - idx,
                    forall|u: int| 0 <= u < cyc@.len() ==> cyc@[u] == path@[idx + u],
                decreases path@.len() - t,
            {
                cyc.push(path[t].clone());
                t += 1;
            }
            proof {
                assert(pview(cyc@) =~= pview(path@).skip(idx as int));
                let c = pview(cyc@);
                assert(c.len() >= 1);
                assert(spec_chain(m, c)) by {
                    assert forall|i: int| 0 <= i < c.len() - 1 implies spec_edge(
                        m,
                        #[trigger] c[i],
                        c[i + 1],
                    ) by {
                        assert(c[i] == pview(path@)[idx + i]);
                        assert(c[i + 1] == pview(path@)[idx + i + 1]);
                        assert(spec_edge(m, pview(path@)[idx + i], pview(path@)[idx + i + 1]));
                    }
                }
                assert(c.first() == path@[idx as int]@);
                assert(c.first() == current@);
                assert(c.last() == pview(path@).last());
                assert(spec_edge(m, c.last(), c.first()));
                assert(spec_is_cycle(m, c));
            }
            let ghost before = cycles@;
            cycles.push(cyc);
            proof {
                assert(cycles_view(cycles@) =~= cycles_view(before).push(pview(path@).skip(
                    first_index_of(pview(path@), current@),
                )));
                assert forall|a: int, b: int|
                    0 <= a < b < cycles@.last()@.len() implies cycles@.last()@[a]@
                    != cycles@.last()@[b]@ by {
                    assert(cycles@.last()@[a] == path@[idx + a]);
                    assert(cycles@.last()@[b] == path@[idx + b]);
                }
            }
            return;
        }
        proof {
            if pview(path@).contains(current@) {
                let i = choose|i: int|
                    0 <= i < pview(path@).len() && pview(path@)[i] == current@;
                assert(path@[i]@ == current@);
                assert(str_seq_set(path@).contains(current@));
                assert(false);
            }
        }
        if contains_str(visited, current) {
            return;
        }
        let ghost visited0 = visited@;
        let pushed = String::from_str(current);
        proof {
            lemma_str_seq_set_push(visited0, pushed);
        }
        visited.push(pushed);
        let ghost path0 = path@;
        let ghost cycles0 = cycles@;
        path.push(String::from_str(current));
        let ghost path1 = path@;
        proof {
            assert(pview(path1) =~= pview(path0).push(current@));
            assert(spec_chain(m, pview(path@))) by {
                let pv = pview(path@);
                assert forall|i: int| 0 <= i < pv.len() - 1 implies spec_edge(
                    m,
                    #[trigger] pv[i],
                    pv[i + 1],
                ) by {
                    if i < pv.len() - 2 {
                        assert(pv[i] == pview(path0)[i]);
                        assert(pv[i + 1] == pview(path0)[i + 1]);
                    } else {
                        assert(pv[i] == pview(path0).last());
                        assert(pv[i + 1] == current@);
                    }
                }
            }
            assert forall|a: int, b: int|
                0 <= a < b < path1.len() implies path1[a]@ != path1[b]@ by {
                if b < path1.len() - 1 {
                    assert(path1[a] == path0[a]);
                    assert(path1[b] == path0[b]);
                } else {
                    assert(path1[b]@ == current@);
                    if a < path1.len() - 1 {
                        assert(path1[a] == path0[a]);
                    }
                }
            }
        }
        match self.get_dependencies(current) {
            Some(deps) => {
                let ghost dv = deps@.map_values(|s: String| s@);
                let ghost target = spec_cycle_walk(
                    m,
                    current@,
                    str_seq_set(visited0),
                    pview(path0),
                    cycles_view(cycles0),
                    fuel as nat,
                );
                proof {
                    assert(dv.skip(0) =~= dv);
                    assert(target == spec_cycle_walk_deps(
                        m,
                        dv,
                        str_seq_set(visited@),
                        pview(path1),
                        cycles_view(cycles0),
                        fuel as nat,
                    ));
                }
                let mut j: usize = 0;
                while j < deps.len()
                    invariant
                        0 <= j <= deps@.len(),
                        dv == deps@.map_values(|s: String| s@),
                        m.contains_key(current@),
                        m[current@] == dv,
                        path@ == path1,
                        cycles@.len() >= cycles0.len(),
                        forall|t: int| 0 <= t < cycles0.len() ==> cycles@[t] == #[trigger] cycles0[t],
                        forall|t: int|
                            cycles0.len() <= t < cycles@.len() ==> spec_is_cycle(
                                m,
                                pview(#[trigger] cycles@[t]@),
                            ),
                        forall|t: int, a: int, b: int|
                            #![trigger cycles@[t]@[a], cycles@[t]@[b]]
                            cycles0.len() <= t < cycles@.len() && 0 <= a < b
                                < cycles@[t]@.len() ==> cycles@[t]@[a]@ != cycles@[t]@[b]@,
                        spec_cycle_walk_deps(
                            m,
                            dv.skip(j as int),
                            str_seq_set(visited@),
                            pview(path1),
                            cycles_view(cycles@),
                            fuel as nat,
                        ) == target,
                    decreases deps@.len() - j,
                {
                    let dep = &deps[j];
                    proof {
                        assert(dv[j as int] == dep@);
                        assert(spec_edge(m, current@, dep@));
                        assert(pview(path@).last() == current@);
                        assert(dv.skip(j as int)[0] == dv[j as int]);
                        assert(dv.skip(j as int).skip(1) =~= dv.skip(j as int + 1));
                    }
                    let ghost precall = cycles@;
                    self.find_cycles(dep.as_str(), visited, path, cycles, fuel - 1);
                    proof {
                        assert forall|t: int|
                            cycles0.len() <= t < cycles@.len() implies spec_is_cycle(
                            m,
                            pview(#[trigger] cycles@[t]@),
                        ) by {
                            if t < precall.len() {
                                assert(cycles@[t] == precall[t]);
                            }
                        }
                        assert forall|t: int, a: int, b: int|
                            #![trigger cycles@[t]@[a], cycles@[t]@[b]]
                            cycles0.len() <= t < cycles@.len() && 0 <= a < b
                                < cycles@[t]@.len() implies cycles@[t]@[a]@
                            != cycles@[t]@[b]@ by {
                            if t < precall.len() {
                                assert(cycles@[t] == precall[t]);
                            }
                        }
                        assert forall|t: int| 0 <= t < cycles0.len() implies cycles@[t]
                            == #[trigger] cycles0[t] by {
                            assert(cycles@[t] == precall[t]);
                        }
                    }
                    j += 1;
                }
                proof {
                    assert(dv.skip(deps@.len() as int) =~= Seq::<Seq<char>>::empty());
                }
            },
            None => {
                proof {
                    assert(!m.contains_key(current@));
                }
            },
        }
        let _ = path.pop();
        proof {
            assert(path@ =~= path0);
        }
    }

    /// The adjacency keys, in entry order.
    pub closed spec fn fwd_key_order(&self) -> Seq<Seq<char>> {
        self.dependencies.entries().map_values(|e: (String, Vec<String>)| e.0@)
    }

    /// Report circular dependency chains, exactly as the walk of
    /// `spec_analyze_cycles` over the adjacency keys renders them: every
    /// chain is a genuine cycle without repeated nodes, and the report is
    /// pinned down to the one the entry-ordered, globally guarded walk
    /// produces.
    #[verifier::loop_isolation(false)]
    pub fn analyze_circular_dependencies(&self) -> (r: Vec<Vec<String>>)
        requires
            self.wf(),
        ensures
            forall|i: int|
                0 <= i < r@.len() ==> spec_is_cycle(self.fwd(), pview(#[trigger] r@[i]@)),
            forall|i: int, a: int, b: int|
                #![trigger r@[i]@[a], r@[i]@[b]]
                0 <= i < r@.len() && 0 <= a < b < r@[i]@.len() ==> r@[i]@[a]@ != r@[i]@[b]@,
            cycles_view(r@) == spec_analyze_cycles(
                self.fwd(),
                self.fwd_key_order(),
                Set::empty(),
                Seq::empty(),
                usize::MAX as nat,
            ),
    {
        let ghost m = self.fwd();
        let ghost keys = self.fwd_key_order();
        let ghost target = spec_analyze_cycles(
            m,
            keys,
            Set::empty(),
            Seq::empty(),
            usize::MAX as nat,
        );
        let mut cycles: Vec<Vec<String>> = Vec::new();
        let mut visited: Vec<String> = Vec::new();
        let mut path: Vec<String> = Vec::new();
        let n = self.dependencies.entry_count();
        let mut i: usize = 0;
        proof {
            assert(keys.skip(0) =~= keys);
            assert(str_seq_set(visited@) =~= Set::<Seq<char>>::empty());
            assert(cycles_view(cycles@) =~= Seq::<Seq<Seq<char>>>::empty());
        }
        while i < n
            invariant
                0 <= i <= n,
                n == self.dependencies.entries().len(),
                path@.len() == 0,
                forall|t: int|
                    0 <= t < cycles@.len() ==> spec_is_cycle(m, pview(#[trigger] cycles@[t]@)),
                forall|t: int, a: int, b: int|
                    #![trigger cycles@[t]@[a], cycles@[t]@[b]]
                    0 <= t < cycles@.len() && 0 <= a < b < cycles@[t]@.len()
                        ==> cycles@[t]@[a]@ != cycles@[t]@[b]@,
                spec_analyze_cycles(
                    m,
                    keys.skip(i as int),
                    str_seq_set(visited@),
                    cycles_view(cycles@),
                    usize::MAX as nat,
                ) == target,
            decreases n - i,
        {
            let key = self.dependencies.entry_at(i).0.clone();
            proof {
                assert(keys.skip(i as int)[0] == keys[i as int]);
                assert(keys.skip(i as int).skip(1) =~= keys.skip(i as int + 1));
                assert(keys[i as int] == key@);
                assert(pview(path@) =~= Seq::<Seq<char>>::empty());
            }
            if !contains_str(&visited, key.as_str()) {
                let ghost precall = cycles@;
                // Far more fuel than any walk over the visited-guarded
                // graph can consume.
                self.find_cycles(key.as_str(), &mut visited, &mut path, &mut cycles, usize::MAX);
                proof {
                    assert forall|t: int|
                        0 <= t < cycles@.len() implies spec_is_cycle(
                        m,
                        pview(#[trigger] cycles@[t]@),
                    ) by {
                        if t < precall.len() {
                            assert(cycles@[t] == precall[t]);
                        }
                    }
                    assert forall|t: int, a: int, b: int|
                        #![trigger cycles@[t]@[a], cycles@[t]@[b]]
                        0 <= t < cycles@.len() && 0 <= a < b < cycles@[t]@.len()
                        implies cycles@[t]@[a]@ != cycles@[t]@[b]@ by {
                        if t < precall.len() {
                            assert(cycles@[t] == precall[t]);
                        }
                    }
                }
            } else {
                proof {
                    assert(str_seq_set(visited@).contains(key@));
                    assert(!Seq::<Seq<char>>::empty().contains(key@));
                    assert(spec_cycle_walk(
                        m,
                        key@,
                        str_seq_set(visited@),
                        Seq::empty(),
                        cycles_view(cycles@),
                        usize::MAX as nat,
                    ) == (str_seq_set(visited@), cycles_view(cycles@)));
                }
            }
            i += 1;
        }
        proof {
            assert(keys.skip(keys.len() as int) =~= Seq::<Seq<char>>::empty());
        }
        cycles
    }

    /// The direct dependents of a file, if it has any recorded.
    pub fn get_dependents(&self, file: &str) -> (r: Option<Vec<String>>)
        requires
            self.wf(),
        ensures
            match r {
                Some(v) => self.rev().contains_key(file@) && v@.map_values(|s: String| s@)
                    == self.rev()[file@],
                None => !self.rev().contains_key(file@),
            },
    {
        match self.reverse_dependencies.get(file) {
            Some(v) => Some(clone_string_vec(v)),
            None => None,
        }
    }
}

} // verus!
