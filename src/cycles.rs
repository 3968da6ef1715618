//! Dependency cycles among fixtures. An edge leads from a definition to the
//! definition that one of its dependencies resolves to from the
//! definition's own position.

use vstd::prelude::*;
use crate::analyzer::defs_view;
use crate::database::{all_defs, find_file, FileView, FixtureDatabase};
use crate::model::{strings_view, DefinitionView, FixtureDefinition};
use crate::resolver::{resolve, resolve_index};

verus! {

pub open spec fn edge(all: Seq<DefinitionView>, i: int, j: int) -> bool {
    0 <= i < all.len() && dep_leads_to(all, i, all[i].dependencies.len() as int, j)
}

/// One of the first `k` dependencies of `all[i]` resolves to `all[j]`.
pub open spec fn dep_leads_to(all: Seq<DefinitionView>, i: int, k: int, j: int) -> bool {
    exists|kk: int|
        0 <= kk < k && resolve(all, #[trigger] all[i].dependencies[kk], all[i].file_path, all[i].line) == Some(j)
}

/// Which definitions can be reached from `i` along one to `n` edges.
pub open spec fn reach_set(all: Seq<DefinitionView>, i: int, n: nat) -> Seq<bool>
    decreases n,
{
    if n == 0 {
        Seq::new(all.len(), |j: int| false)
    } else {
        let prev = reach_set(all, i, (n - 1) as nat);
        Seq::new(all.len(), |j: int| edge(all, i, j) || exists|m: int| 0 <= m < all.len() && prev[m] && #[trigger] edge(all, m, j))
    }
}

/// Reaching along at most `s` edges implies reaching along at most `s + 1`.
proof fn lemma_reach_grows(all: Seq<DefinitionView>, i: int, s: nat, j: int)
    requires
        0 <= j < all.len(),
        reach_set(all, i, s)[j],
    ensures
        reach_set(all, i, s + 1)[j],
    decreases s,
{
    if s > 0 && !edge(all, i, j) {
        let prev = reach_set(all, i, (s - 1) as nat);
        let m = choose|m: int| 0 <= m < all.len() && prev[m] && #[trigger] edge(all, m, j);
        lemma_reach_grows(all, i, (s - 1) as nat, m);
        assert(reach_set(all, i, s)[m] && edge(all, m, j));
    }
}

proof fn lemma_reach_up_to(all: Seq<DefinitionView>, i: int, s: nat, t: nat, j: int)
    requires
        0 <= j < all.len(),
        s <= t,
        reach_set(all, i, s)[j],
    ensures
        reach_set(all, i, t)[j],
    decreases t - s,
{
    if s < t {
        lemma_reach_grows(all, i, s, j);
        lemma_reach_up_to(all, i, s + 1, t, j);
    }
}

/// Two definitions whose dependencies resolve to each other both lie on a
/// dependency cycle.
pub proof fn lemma_mutual_dependency_cycle(all: Seq<DefinitionView>, a: int, b: int)
    requires
        0 <= a < all.len(),
        0 <= b < all.len(),
        a != b,
        edge(all, a, b),
        edge(all, b, a),
    ensures
        on_cycle(all, a),
        on_cycle(all, b),
{
    assert(reach_set(all, a, 1)[b]);
    assert(reach_set(all, a, 2)[a]) by {
        assert(reach_set(all, a, 1)[b] && edge(all, b, a));
    }
    assert(reach_set(all, b, 1)[a]);
    assert(reach_set(all, b, 2)[b]) by {
        assert(reach_set(all, b, 1)[a] && edge(all, a, b));
    }
    lemma_reach_up_to(all, a, 2, all.len(), a);
    lemma_reach_up_to(all, b, 2, all.len(), b);
}

/// Definition `i` lies on a dependency cycle.
pub open spec fn on_cycle(all: Seq<DefinitionView>, i: int) -> bool {
    reach_set(all, i, all.len())[i]
}

/// A fixture that takes part in a dependency cycle.
#[derive(Debug)]
pub struct FixtureCycle {
    pub fixture: FixtureDefinition,
    /// A dependency cycle through the fixture, from the fixture on: each
    /// definition depends on the next, the last one on the first.
    pub cycle: Vec<FixtureDefinition>,
}

/// `ds` are the definitions that the indices `c` pick from `all`.
pub open spec fn picks(all: Seq<DefinitionView>, c: Seq<int>, ds: Seq<DefinitionView>) -> bool {
    ds.len() == c.len() && forall|t: int| 0 <= t < c.len() ==> #[trigger] ds[t] == all[c[t]]
}

/// The cycle of a diagnostic is a dependency cycle through its fixture.
pub open spec fn cycle_witness(all: Seq<DefinitionView>, c: FixtureCycle) -> bool {
    exists|idx: Seq<int>| #[trigger] is_cycle_path(all, idx) && all[idx[0]] == c.fixture@ && picks(all, idx, defs_view(c.cycle@))
}

pub open spec fn cycles_view(v: Seq<FixtureCycle>) -> Seq<DefinitionView> {
    v.map_values(|c: FixtureCycle| c.fixture@)
}

/// Definitions among `all[from..to]` that lie on a cycle, in order.
pub open spec fn cyclic_between(all: Seq<DefinitionView>, from: int, to: int) -> Seq<DefinitionView>
    decreases to - from,
{
    if to <= from {
        Seq::empty()
    } else {
        let rest = cyclic_between(all, from, to - 1);
        if on_cycle(all, to - 1) { rest.push(all[to - 1]) } else { rest }
    }
}

/// Offset of file `i`'s definitions in `all_defs(files)`.
pub open spec fn defs_offset(files: Seq<FileView>, i: int) -> int {
    all_defs(files.subrange(0, i)).len() as int
}

/// One diagnostic per definition of the file at `path` that lies on a
/// dependency cycle.
pub open spec fn cycles_in_file(files: Seq<FileView>, path: Seq<char>) -> Seq<DefinitionView> {
    match find_file(files, path) {
        Some(i) => {
            let from = defs_offset(files, i);
            cyclic_between(all_defs(files), from, from + files[i].facts.defs.len())
        },
        None => Seq::empty(),
    }
}

/// The targets of the edges of each definition.
fn successors(all: &Vec<FixtureDefinition>) -> (r: Vec<Vec<usize>>)
    ensures
        r@.len() == all@.len(),
        forall|i: int, j: usize| 0 <= i < all@.len() ==> (#[trigger] edge(defs_view(all@), i, j as int) <==> r@[i]@.contains(j)),
        forall|i: int, t: int| 0 <= i < all@.len() && 0 <= t < r@[i]@.len() ==> (#[trigger] r@[i]@[t]) < all@.len(),
{
    let ghost av = defs_view(all@);
    let n = all.len();
    let mut r: Vec<Vec<usize>> = Vec::new();
    let mut i: usize = 0;
    while i < n
        invariant
            n == all@.len(),
            av == defs_view(all@),
            i <= all@.len(),
            r@.len() == i,
            forall|a: int, j: usize| 0 <= a < i ==> (#[trigger] edge(av, a, j as int) <==> r@[a]@.contains(j)),
            forall|a: int, t: int| 0 <= a < i && 0 <= t < r@[a]@.len() ==> (#[trigger] r@[a]@[t]) < all@.len(),
        decreases all@.len() - i,
    {
        let d = &all[i];
        let mut out: Vec<usize> = Vec::new();
        let mut k: usize = 0;
        while k < d.dependencies.len()
            invariant
                av == defs_view(all@),
                n == all@.len(),
                i < all@.len(),
                d == all@[i as int],
                av[i as int].dependencies == strings_view(d.dependencies@),
                k <= d.dependencies@.len(),
                forall|j: usize| #[trigger] dep_leads_to(av, i as int, k as int, j as int) <==> out@.contains(j),
                forall|t: int| 0 <= t < out@.len() ==> #[trigger] out@[t] < all@.len(),
            decreases d.dependencies@.len() - k,
        {
            let dep = d.dependencies[k].as_str();
            let res = resolve_index(all, dep, d.file_path.as_str(), d.line);
            assert(dep@ == d.dependencies@[k as int]@);
            let ghost before = out@;
            let ghost dk = av[i as int].dependencies[k as int];
            proof {
                assert(dk == d.dependencies@[k as int]@);
            }
            match res {
                Some(m) => {
                    assert(av[i as int] == all@[i as int]@);
                    assert(d.file_path@ == av[i as int].file_path);
                    assert(d.line as nat == av[i as int].line);
                    assert(dep@ == dk);
                    let ghost x = resolve(av, dep@, d.file_path@, d.line as nat);
                    assert(x is Some);
                    assert(crate::resolver::index_in(x, all@.len() as int));
                    assert(0 <= x->Some_0 < all@.len());
                    assert(x->Some_0 == m as int);
                    assert(resolve(av, dk, av[i as int].file_path, av[i as int].line) == Some(m as int));
                    out.push(m);
                },
                None => {},
            }
            proof {
                assert forall|j: usize| #[trigger] dep_leads_to(av, i as int, k + 1, j as int) <==> out@.contains(j) by {
                    if dep_leads_to(av, i as int, k + 1, j as int) {
                        let kk = choose|kk: int| 0 <= kk < k + 1 && resolve(av, #[trigger] av[i as int].dependencies[kk], av[i as int].file_path, av[i as int].line) == Some(j as int);
                        if kk < k {
                            assert(dep_leads_to(av, i as int, k as int, j as int));
                            let t = choose|t: int| 0 <= t < before.len() && before[t] == j;
                            assert(out@[t] == j);
                        } else {
                            assert(out@[out@.len() - 1] == j);
                        }
                    }
                    if out@.contains(j) {
                        let t = choose|t: int| 0 <= t < out@.len() && out@[t] == j;
                        if t < before.len() {
                            assert(before[t] == j);
                            assert(before.contains(j));
                            assert(dep_leads_to(av, i as int, k as int, j as int));
                            let kk = choose|kk: int| 0 <= kk < k && resolve(av, #[trigger] av[i as int].dependencies[kk], av[i as int].file_path, av[i as int].line) == Some(j as int);
                            assert(0 <= kk < k + 1);
                        } else {
                            assert(res is Some);
                            assert(resolve(av, av[i as int].dependencies[k as int], av[i as int].file_path, av[i as int].line) == Some(j as int));
                        }
                    }
                }
            }
            k = k + 1;
        }
        r.push(out);
        proof {
            assert forall|a: int, j: usize| 0 <= a < i + 1 implies (#[trigger] edge(av, a, j as int) <==> r@[a]@.contains(j)) by {
                if a == i {
                    assert(r@[a]@ == out@);
                    assert(edge(av, a, j as int) == dep_leads_to(av, i as int, k as int, j as int));
                }
            }
        }
        i = i + 1;
    }
    r
}

/// Sets `v[t]` for every target `t`.
fn mark_targets(v: &mut Vec<bool>, targets: &Vec<usize>)
    requires
        forall|t: int| 0 <= t < targets@.len() ==> #[trigger] targets@[t] < old(v)@.len(),
    ensures
        final(v)@.len() == old(v)@.len(),
        forall|j: usize| j < final(v)@.len() ==> #[trigger] final(v)@[j as int] == (old(v)@[j as int] || targets@.contains(j)),
{
    let ghost start = v@;
    let mut t: usize = 0;
    while t < targets.len()
        invariant
            v@.len() == start.len(),
            t <= targets@.len(),
            forall|q: int| 0 <= q < targets@.len() ==> #[trigger] targets@[q] < start.len(),
            forall|j: usize| j < v@.len() ==> #[trigger] v@[j as int] == (start[j as int] || targets@.subrange(0, t as int).contains(j)),
        decreases targets@.len() - t,
    {
        let x = targets[t];
        let ghost mid = v@;
        v.set(x, true);
        proof {
            let pre = targets@.subrange(0, t as int);
            let post = targets@.subrange(0, t + 1);
            assert(post =~= pre.push(x));
            assert forall|j: usize| j < v@.len() implies #[trigger] v@[j as int] == (start[j as int] || post.contains(j)) by {
                if pre.contains(j) {
                    let q = choose|q: int| 0 <= q < pre.len() && pre[q] == j;
                    assert(post[q] == j);
                }
                if post.contains(j) && !pre.contains(j) {
                    let q = choose|q: int| 0 <= q < post.len() && post[q] == j;
                    if q < pre.len() {
                        assert(pre[q] == j);
                    }
                    assert(j == x);
                }
                if j == x {
                    assert(post[t as int] == j);
                }
            }
        }
        t = t + 1;
    }
    assert(targets@.subrange(0, targets@.len() as int) =~= targets@);
}

fn falses(n: usize) -> (r: Vec<bool>)
    ensures
        r@.len() == n,
        forall|j: int| 0 <= j < n ==> !(#[trigger] r@[j]),
{
    let mut r: Vec<bool> = Vec::new();
    while r.len() < n
        invariant
            r@.len() <= n,
            forall|j: int| 0 <= j < r@.len() ==> !(#[trigger] r@[j]),
        decreases n - r@.len(),
    {
        r.push(false);
    }
    r
}

/// `r[s][j]` tells whether `j` can be reached from `i` along one to `s`
/// edges, for `s` up to `all.len()`.
fn reach_layers(all: &Vec<FixtureDefinition>, succ: &Vec<Vec<usize>>, i: usize) -> (r: Vec<Vec<bool>>)
    requires
        i < all@.len(),
        succ@.len() == all@.len(),
        forall|a: int, j: usize| 0 <= a < all@.len() ==> (#[trigger] edge(defs_view(all@), a, j as int) <==> succ@[a]@.contains(j)),
        forall|a: int, t: int| 0 <= a < all@.len() && 0 <= t < succ@[a]@.len() ==> (#[trigger] succ@[a]@[t]) < all@.len(),
    ensures
        r@.len() == all@.len() + 1,
        forall|t: int| 0 <= t <= all@.len() ==> (#[trigger] r@[t])@ == reach_set(defs_view(all@), i as int, t as nat),
{
    let ghost av = defs_view(all@);
    let n = all.len();
    let first = falses(n);
    assert(first@ =~= reach_set(av, i as int, 0));
    let mut layers: Vec<Vec<bool>> = Vec::new();
    layers.push(first);
    let mut s: usize = 0;
    while s < n
        invariant
            n == all@.len(),
            av == defs_view(all@),
            av.len() == n,
            i < n,
            s <= n,
            succ@.len() == n,
            forall|a: int, j: usize| 0 <= a < n ==> (#[trigger] edge(av, a, j as int) <==> succ@[a]@.contains(j)),
            forall|a: int, t: int| 0 <= a < n && 0 <= t < succ@[a]@.len() ==> (#[trigger] succ@[a]@[t]) < n,
            layers@.len() == s + 1,
            forall|t: int| 0 <= t <= s ==> (#[trigger] layers@[t])@ == reach_set(av, i as int, t as nat),
        decreases n - s,
    {
        let cur = &layers[s];
        assert(cur@ == reach_set(av, i as int, s as nat));
        let mut next = falses(n);
        let ghost zero = next@;
        mark_targets(&mut next, &succ[i]);
        proof {
            assert forall|j: usize| j < n implies #[trigger] next@[j as int] == (edge(av, i as int, j as int) || exists|q: int|
                0 <= q < 0 && cur@[q] && #[trigger] edge(av, q, j as int)) by {
                assert(!zero[j as int]);
                assert(succ@[i as int]@.contains(j) == edge(av, i as int, j as int));
            }
        }
        let mut m: usize = 0;
        while m < n
            invariant
                n == all@.len(),
                av == defs_view(all@),
                i < n,
                m <= n,
                cur@.len() == n,
                next@.len() == n,
                succ@.len() == n,
                forall|a: int, j: usize| 0 <= a < n ==> (#[trigger] edge(av, a, j as int) <==> succ@[a]@.contains(j)),
                forall|a: int, t: int| 0 <= a < n && 0 <= t < succ@[a]@.len() ==> (#[trigger] succ@[a]@[t]) < n,
                forall|j: usize| j < n ==> #[trigger] next@[j as int] == (edge(av, i as int, j as int) || exists|q: int|
                    0 <= q < m && cur@[q] && #[trigger] edge(av, q, j as int)),
            decreases n - m,
        {
            let ghost before = next@;
            if cur[m] {
                mark_targets(&mut next, &succ[m]);
            }
            proof {
                assert forall|j: usize| j < n implies #[trigger] next@[j as int] == (edge(av, i as int, j as int) || exists|q: int|
                    0 <= q < m + 1 && cur@[q] && #[trigger] edge(av, q, j as int)) by {
                    assert(succ@[m as int]@.contains(j) == edge(av, m as int, j as int));
                    if exists|q: int| 0 <= q < m + 1 && cur@[q] && #[trigger] edge(av, q, j as int) {
                        let q = choose|q: int| 0 <= q < m + 1 && cur@[q] && #[trigger] edge(av, q, j as int);
                        if q < m {
                            assert(before[j as int]);
                        }
                    }
                    if before[j as int] && !edge(av, i as int, j as int) {
                        let q = choose|q: int| 0 <= q < m && cur@[q] && #[trigger] edge(av, q, j as int);
                        assert(0 <= q < m + 1);
                    }
                }
            }
            m = m + 1;
        }
        proof {
            let want = reach_set(av, i as int, (s + 1) as nat);
            assert(want.len() == n);
            assert forall|j: int| 0 <= j < n implies #[trigger] next@[j] == want[j] by {
                assert(next@[(j as usize) as int] == (edge(av, i as int, j) || exists|q: int|
                    0 <= q < n && cur@[q] && #[trigger] edge(av, q, (j as usize) as int)));
            }
            assert(next@ =~= want);
        }
        let ghost before = layers@;
        layers.push(next);
        proof {
            assert forall|t: int| 0 <= t <= s + 1 implies (#[trigger] layers@[t])@ == reach_set(av, i as int, t as nat) by {
                if t <= s {
                    assert(layers@[t] == before[t]);
                }
            }
        }
        s = s + 1;
    }
    layers
}

/// An ordered list of definitions (by index) forming a dependency cycle:
/// each has an edge to the next, and the last one to the first.
pub open spec fn is_cycle_path(all: Seq<DefinitionView>, c: Seq<int>) -> bool {
    &&& c.len() > 0
    &&& forall|k: int| 0 <= k < c.len() ==> 0 <= #[trigger] c[k] < all.len()
    &&& forall|k: int| 0 <= k < c.len() - 1 ==> #[trigger] edge(all, c[k], c[k + 1])
    &&& edge(all, c.last(), c[0])
}

pub open spec fn indices_view(v: Seq<usize>) -> Seq<int> {
    v.map_values(|x: usize| x as int)
}

fn vec_contains(v: &Vec<usize>, x: usize) -> (r: bool)
    ensures
        r == v@.contains(x),
{
    let mut i: usize = 0;
    while i < v.len()
        invariant
            i <= v@.len(),
            forall|j: int| 0 <= j < i ==> v@[j] != x,
        decreases v@.len() - i,
    {
        if v[i] == x {
            assert(v@[i as int] == x);
            return true;
        }
        i = i + 1;
    }
    false
}

/// A definition of `row` with an edge to `cur`.
fn find_predecessor(all: &Vec<FixtureDefinition>, succ: &Vec<Vec<usize>>, row: &Vec<bool>, cur: usize) -> (r: Option<usize>)
    requires
        succ@.len() == all@.len(),
        row@.len() == all@.len(),
        forall|a: int, j: usize| 0 <= a < all@.len() ==> (#[trigger] edge(defs_view(all@), a, j as int) <==> succ@[a]@.contains(j)),
    ensures
        match r {
            Some(m) => m < all@.len() && row@[m as int] && edge(defs_view(all@), m as int, cur as int),
            None => forall|m: int| 0 <= m < all@.len() ==> !(row@[m] && #[trigger] edge(defs_view(all@), m, cur as int)),
        },
{
    let n = all.len();
    let mut m: usize = 0;
    while m < n
        invariant
            n == all@.len(),
            succ@.len() == n,
            row@.len() == n,
            m <= n,
            forall|a: int, j: usize| 0 <= a < n ==> (#[trigger] edge(defs_view(all@), a, j as int) <==> succ@[a]@.contains(j)),
            forall|q: int| 0 <= q < m ==> !(row@[q] && #[trigger] edge(defs_view(all@), q, cur as int)),
        decreases n - m,
    {
        if row[m] && vec_contains(&succ[m], cur) {
            return Some(m);
        }
        assert(succ@[m as int]@.contains(cur) == edge(defs_view(all@), m as int, cur as int));
        m = m + 1;
    }
    None
}

/// A dependency cycle through definition `i`, starting at `i`.
fn cycle_through(all: &Vec<FixtureDefinition>, succ: &Vec<Vec<usize>>, layers: &Vec<Vec<bool>>, i: usize) -> (r: Vec<usize>)
    requires
        i < all@.len(),
        succ@.len() == all@.len(),
        forall|a: int, j: usize| 0 <= a < all@.len() ==> (#[trigger] edge(defs_view(all@), a, j as int) <==> succ@[a]@.contains(j)),
        layers@.len() == all@.len() + 1,
        forall|t: int| 0 <= t <= all@.len() ==> (#[trigger] layers@[t])@ == reach_set(defs_view(all@), i as int, t as nat),
        on_cycle(defs_view(all@), i as int),
    ensures
        is_cycle_path(defs_view(all@), indices_view(r@)),
        r@[0] == i,
{
    let ghost av = defs_view(all@);
    let n = all.len();
    let mut s: usize = n;
    let mut cur: usize = i;
    let mut chain: Vec<usize> = Vec::new();
    let mut done = vec_contains(&succ[i], cur);
    assert(layers@[n as int]@ == reach_set(av, i as int, n as nat));
    while !done
        invariant
            n == all@.len(),
            av == defs_view(all@),
            av.len() == n,
            succ@.len() == n,
            forall|a: int, j: usize| 0 <= a < n ==> (#[trigger] edge(av, a, j as int) <==> succ@[a]@.contains(j)),
            layers@.len() == n + 1,
            forall|t: int| 0 <= t <= n ==> (#[trigger] layers@[t])@ == reach_set(av, i as int, t as nat),
            1 <= s <= n,
            cur < n,
            i < n,
            layers@[s as int]@[cur as int],
            done == edge(av, i as int, cur as int),
            chain@.len() == 0 ==> cur == i,
            chain@.len() > 0 ==> cur == chain@.last() && edge(av, chain@[0] as int, i as int),
            forall|k: int| 0 <= k < chain@.len() ==> #[trigger] chain@[k] < n,
            forall|k: int| 0 <= k < chain@.len() - 1 ==> #[trigger] edge(av, chain@[k + 1] as int, chain@[k] as int),
        decreases s,
    {
        assert(succ@[i as int]@.contains(cur) == edge(av, i as int, cur as int));
        let ghost here = reach_set(av, i as int, s as nat);
        assert(layers@[s as int]@ == here);
        assert(here[cur as int]);
        let prev_row = &layers[s - 1];
        assert(prev_row@ == reach_set(av, i as int, (s - 1) as nat));
        let found = find_predecessor(all, succ, prev_row, cur);
        let m = match found {
            Some(m) => m,
            None => {
                proof {
                    assert(false);
                }
                0
            },
        };
        proof {
            if s - 1 == 0 {
                assert(!reach_set(av, i as int, 0)[m as int]);
            }
        }
        let ghost old_chain = chain@;
        chain.push(m);
        proof {
            assert forall|k: int| 0 <= k < chain@.len() - 1 implies #[trigger] edge(av, chain@[k + 1] as int, chain@[k] as int) by {
                if k + 1 < old_chain.len() {
                    assert(chain@[k + 1] == old_chain[k + 1]);
                    assert(chain@[k] == old_chain[k]);
                } else {
                    assert(chain@[k + 1] == m);
                    if old_chain.len() > 0 {
                        assert(chain@[k] == old_chain.last());
                    }
                }
            }
            if old_chain.len() == 0 {
                assert(chain@[0] == m);
            } else {
                assert(chain@[0] == old_chain[0]);
            }
        }
        cur = m;
        s = s - 1;
        done = vec_contains(&succ[i], cur);
        assert(succ@[i as int]@.contains(cur) == edge(av, i as int, cur as int));
    }
    let len = chain.len();
    let mut r: Vec<usize> = Vec::new();
    r.push(i);
    let mut k: usize = len;
    while k > 0
        invariant
            k <= len,
            len == chain@.len(),
            r@.len() == 1 + (len - k),
            r@[0] == i,
            forall|t: int| 1 <= t < r@.len() ==> #[trigger] r@[t] == chain@[len - t],
        decreases k,
    {
        r.push(chain[k - 1]);
        k = k - 1;
    }
    proof {
        let c = indices_view(r@);
        assert(c.len() == len + 1);
        assert forall|t: int| 0 <= t < c.len() implies 0 <= #[trigger] c[t] < av.len() by {
            if t > 0 {
                assert(r@[t] == chain@[len - t]);
            }
        }
        assert forall|t: int| 0 <= t < c.len() - 1 implies #[trigger] edge(av, c[t], c[t + 1]) by {
            if t == 0 {
                assert(r@[1] == chain@[len - 1]);
            } else {
                assert(r@[t] == chain@[len - t]);
                assert(r@[t + 1] == chain@[len - t - 1]);
                assert(edge(av, chain@[(len - t - 1) + 1] as int, chain@[len - t - 1] as int));
            }
        }
        if len > 0 {
            assert(r@[len as int] == chain@[0]);
        }
    }
    r
}

impl FixtureDatabase {
    /// The fixtures of a file that lie on a dependency cycle, one
    /// diagnostic each.
    pub fn get_fixture_cycles(&self, file_path: &str) -> (r: Vec<FixtureCycle>)
        ensures
            cycles_view(r@) == cycles_in_file(self.files_spec(), file_path@),
            forall|k: int| 0 <= k < r@.len() ==> cycle_witness(all_defs(self.files_spec()), #[trigger] r@[k]),
    {
        let mut r: Vec<FixtureCycle> = Vec::new();
        let idx = self.file_index(file_path);
        match idx {
            None => {
                assert(cycles_view(r@) =~= Seq::<DefinitionView>::empty());
                r
            },
            Some(fi) => {
                let all = self.all_definitions();
                let ghost av = all_defs(self.files_spec());
                let total = all.len();
                let from = self.definitions_before(fi);
                let count = self.files[fi].definitions.len();
                proof {
                    lemma_offset_fits(self.files_spec(), fi as int);
                }
                let succ = successors(&all);
                let mut k: usize = 0;
                assert(cycles_view(r@) =~= cyclic_between(av, from as int, from as int));
                while k < count
                    invariant
                        defs_view(all@) == av,
                        total == all@.len(),
                        fi < self.files@.len(),
                        from + count <= all@.len(),
                        k <= count,
                        succ@.len() == all@.len(),
                        forall|a: int, j: usize| 0 <= a < all@.len() ==> (#[trigger] edge(defs_view(all@), a, j as int) <==> succ@[a]@.contains(j)),
                        forall|a: int, t: int| 0 <= a < all@.len() && 0 <= t < succ@[a]@.len() ==> (#[trigger] succ@[a]@[t]) < all@.len(),
                        cycles_view(r@) == cyclic_between(av, from as int, from + k),
                        forall|q: int| 0 <= q < r@.len() ==> cycle_witness(av, #[trigger] r@[q]),
                    decreases count - k,
                {
                    let x = from + k;
                    let layers = reach_layers(&all, &succ, x);
                    let reach = &layers[total];
                    proof {
                        lemma_offset_fits(self.files_spec(), fi as int);
                    }
                    if reach[x] {
                        assert(on_cycle(av, x as int));
                        let idx = cycle_through(&all, &succ, &layers, x);
                        let mut cyc: Vec<FixtureDefinition> = Vec::new();
                        let mut t: usize = 0;
                        while t < idx.len()
                            invariant
                                defs_view(all@) == av,
                                is_cycle_path(av, indices_view(idx@)),
                                t <= idx@.len(),
                                cyc@.len() == t,
                                forall|q: int| 0 <= q < t ==> #[trigger] defs_view(cyc@)[q] == av[indices_view(idx@)[q]],
                            decreases idx@.len() - t,
                        {
                            assert(indices_view(idx@)[t as int] == idx@[t as int] as int);
                            assert(0 <= indices_view(idx@)[t as int] < av.len());
                            let d = all[idx[t]].duplicate();
                            let ghost before = cyc@;
                            cyc.push(d);
                            proof {
                                assert forall|q: int| 0 <= q < t + 1 implies #[trigger] defs_view(cyc@)[q] == av[indices_view(idx@)[q]] by {
                                    assert(defs_view(cyc@)[q] == cyc@[q]@);
                                    if q < t {
                                        assert(cyc@[q] == before[q]);
                                        assert(defs_view(before)[q] == before[q]@);
                                        assert(defs_view(before)[q] == av[indices_view(idx@)[q]]);
                                    } else {
                                        assert(cyc@[q] == d);
                                        assert(0 <= indices_view(idx@)[q] < av.len());
                                        assert(av[idx@[q] as int] == all@[idx@[q] as int]@);
                                    }
                                }
                            }
                            t = t + 1;
                        }
                        let c = FixtureCycle { fixture: all[x].duplicate(), cycle: cyc };
                        proof {
                            let iv = indices_view(idx@);
                            assert(iv[0] == x as int);
                            assert(picks(av, iv, defs_view(c.cycle@)));
                            assert(cycle_witness(av, c));
                        }
                        let ghost prev = cycles_view(r@);
                        let ghost prev_r = r@;
                        r.push(c);
                        assert(cycles_view(r@) =~= prev.push(c.fixture@));
                        proof {
                            assert forall|q: int| 0 <= q < r@.len() implies cycle_witness(av, #[trigger] r@[q]) by {
                                if q < prev_r.len() {
                                    assert(r@[q] == prev_r[q]);
                                }
                            }
                        }
                    }
                    k = k + 1;
                }
                proof {
                    lemma_offset_fits(self.files_spec(), fi as int);
                }
                r
            },
        }
    }

    /// Number of definitions of the files before file `fi`.
    fn definitions_before(&self, fi: usize) -> (r: usize)
        requires
            fi < self.files@.len(),
            all_defs(self.files_spec()).len() <= usize::MAX,
        ensures
            r as int == defs_offset(self.files_spec(), fi as int),
    {
        let ghost fv = self.files_spec();
        let mut total: usize = 0;
        let mut i: usize = 0;
        proof {
            lemma_offset_fits(fv, fi as int);
        }
        while i < fi
            invariant
                fv == self.files_spec(),
                fi < self.files@.len(),
                i <= fi,
                total as int == defs_offset(fv, i as int),
                defs_offset(fv, fi as int) + fv[fi as int].facts.defs.len() <= usize::MAX,
            decreases fi - i,
        {
            proof {
                assert(fv.subrange(0, i + 1).drop_last() =~= fv.subrange(0, i as int));
                assert(fv.subrange(0, i + 1).last() == fv[i as int]);
                lemma_offset_monotone(fv, i + 1, fi as int);
            }
            total = total + self.files[i].definitions.len();
            i = i + 1;
        }
        total
    }
}

proof fn lemma_offset_monotone(files: Seq<FileView>, a: int, b: int)
    requires
        0 <= a <= b <= files.len(),
    ensures
        defs_offset(files, a) <= defs_offset(files, b),
    decreases b - a,
{
    if a < b {
        lemma_offset_monotone(files, a, b - 1);
        assert(files.subrange(0, b).drop_last() =~= files.subrange(0, b - 1));
    }
}

/// The definitions of file `i` stand at `defs_offset(files, i)` onwards in
/// `all_defs(files)`.
proof fn lemma_offset_fits(files: Seq<FileView>, i: int)
    requires
        0 <= i < files.len(),
    ensures
        defs_offset(files, i) + files[i].facts.defs.len() <= all_defs(files).len(),
        forall|k: int| 0 <= k < files[i].facts.defs.len() ==> all_defs(files)[defs_offset(files, i) + k] == #[trigger] files[i].facts.defs[k],
    decreases files.len(),
{
    if i < files.len() - 1 {
        lemma_offset_fits(files.drop_last(), i);
        assert(files.drop_last().subrange(0, i) =~= files.subrange(0, i));
        assert(files.drop_last()[i] == files[i]);
    } else {
        assert(files.subrange(0, i) =~= files.drop_last());
    }
}


/// A file with two fixtures whose dependencies resolve to each other gets
/// exactly two cycle diagnostics, one at each.
pub proof fn lemma_two_fixture_cycle_count(files: Seq<FileView>, path: Seq<char>)
    requires
        find_file(files, path) is Some,
        files[find_file(files, path)->Some_0].facts.defs.len() == 2,
        edge(
            all_defs(files),
            defs_offset(files, find_file(files, path)->Some_0),
            defs_offset(files, find_file(files, path)->Some_0) + 1,
        ),
        edge(
            all_defs(files),
            defs_offset(files, find_file(files, path)->Some_0) + 1,
            defs_offset(files, find_file(files, path)->Some_0),
        ),
    ensures
        cycles_in_file(files, path).len() == 2,
{
    let i = find_file(files, path)->Some_0;
    crate::database::lemma_find_file_in(files, path);
    let all = all_defs(files);
    let from = defs_offset(files, i);
    lemma_offset_fits(files, i);
    lemma_mutual_dependency_cycle(all, from, from + 1);
    assert(cyclic_between(all, from, from).len() == 0);
    assert(cyclic_between(all, from, from + 1).len() == 1);
    assert(cyclic_between(all, from, from + 2).len() == 2);
}

} // verus!
