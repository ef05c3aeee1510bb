//! Cycle detection over a directed graph of named nodes.
//!
//! The traversal is a depth-first walk with three colors per node
//! (unvisited, in progress, done). Every edge that reaches an in-progress
//! node closes a loop, and the full loop — the ordered list of names from
//! the first occurrence of the target on the current walk path to the
//! walk's tip — is reported, so a self-reference is a one-element cycle.
//! Roots are tried in index order, which makes the report deterministic.
//!
//! The executable walk is proved equal to the functional description
//! [`graph_cycles`]. The functional walk carries a step budget that only
//! bounds recursion depth; the executable side supplies a budget larger
//! than any walk path can grow, so the budget never runs out in practice.

use vstd::prelude::*;

verus! {

/// First position of `x` in `s`, or `s.len()` when absent.
pub open spec fn first_index(s: Seq<usize>, x: usize) -> int
    decreases s.len(),
{
    if s.len() == 0 {
        0
    } else if s[0] == x {
        0
    } else {
        1 + first_index(s.subrange(1, s.len() as int), x)
    }
}

pub proof fn lemma_first_index(s: Seq<usize>, x: usize)
    ensures
        0 <= first_index(s, x) <= s.len(),
        first_index(s, x) < s.len() ==> s[first_index(s, x)] == x,
        forall|k: int| 0 <= k < first_index(s, x) ==> s[k] != x,
    decreases s.len(),
{
    if s.len() > 0 && s[0] != x {
        let tail = s.subrange(1, s.len() as int);
        lemma_first_index(tail, x);
        assert forall|k: int| 0 <= k < first_index(s, x) implies s[k] != x by {
            if k > 0 {
                assert(tail[k - 1] == s[k]);
            }
        }
    }
}

/// The name of node `i`, out-of-range indices giving the empty name.
pub open spec fn name_at(names: Seq<Seq<char>>, i: usize) -> Seq<char> {
    if i < names.len() {
        names[i as int]
    } else {
        Seq::empty()
    }
}

/// The names of the nodes along `path`.
pub open spec fn names_along(path: Seq<usize>, names: Seq<Seq<char>>) -> Seq<Seq<char>>
    decreases path.len(),
{
    if path.len() == 0 {
        Seq::empty()
    } else {
        seq![name_at(names, path[0])] + names_along(path.subrange(1, path.len() as int), names)
    }
}

pub proof fn lemma_names_along_index(path: Seq<usize>, names: Seq<Seq<char>>)
    ensures
        names_along(path, names).len() == path.len(),
        forall|k: int|
            0 <= k < path.len() ==> names_along(path, names)[k] == name_at(names, path[k]),
    decreases path.len(),
{
    if path.len() > 0 {
        lemma_names_along_index(path.subrange(1, path.len() as int), names);
    }
}

/// The loop closed by an edge from the walk's tip back to `w`: the names
/// from the first occurrence of `w` on `path` to the tip.
pub open spec fn cycle_model(path: Seq<usize>, w: usize, names: Seq<Seq<char>>) -> Seq<
    Seq<char>,
> {
    names_along(path.subrange(first_index(path, w), path.len() as int), names)
}

/// One in-progress node of the walk: color gray, then its edges, then
/// color black. Out of budget, the walk stops silently.
pub open spec fn visit_spec(
    adj: Seq<Seq<usize>>,
    names: Seq<Seq<char>>,
    v: usize,
    colors: Seq<u8>,
    path: Seq<usize>,
    fuel: nat,
) -> (Seq<u8>, Seq<Seq<Seq<char>>>)
    decreases fuel, 0nat,
{
    if fuel == 0 {
        (colors, Seq::empty())
    } else {
        let stepped = visit_edges_spec(
            adj,
            names,
            adj[v as int],
            colors.update(v as int, 1u8),
            path.push(v),
            (fuel - 1) as nat,
        );
        (stepped.0.update(v as int, 2u8), stepped.1)
    }
}

/// The edges of one node, tried in order. A gray target reports the loop
/// it closes; a white target is walked; a black target is settled.
pub open spec fn visit_edges_spec(
    adj: Seq<Seq<usize>>,
    names: Seq<Seq<char>>,
    targets: Seq<usize>,
    colors: Seq<u8>,
    path: Seq<usize>,
    fuel: nat,
) -> (Seq<u8>, Seq<Seq<Seq<char>>>)
    decreases fuel, targets.len() + 1,
{
    if targets.len() == 0 {
        (colors, Seq::empty())
    } else {
        let w = targets[0];
        let first = if colors[w as int] == 1u8 {
            (colors, seq![cycle_model(path, w, names)])
        } else if colors[w as int] == 0u8 {
            visit_spec(adj, names, w, colors, path, fuel)
        } else {
            (colors, Seq::empty())
        };
        let rest = visit_edges_spec(
            adj,
            names,
            targets.subrange(1, targets.len() as int),
            first.0,
            path,
            fuel,
        );
        (rest.0, first.1 + rest.1)
    }
}

/// The walk started at every still-white root among the first `k` nodes,
/// in index order.
pub open spec fn dfs_upto(
    adj: Seq<Seq<usize>>,
    names: Seq<Seq<char>>,
    k: int,
    fuel: nat,
) -> (Seq<u8>, Seq<Seq<Seq<char>>>)
    decreases k,
{
    if k <= 0 {
        (Seq::new(names.len(), |i: int| 0u8), Seq::empty())
    } else {
        let sofar = dfs_upto(adj, names, k - 1, fuel);
        if sofar.0[k - 1] == 0u8 {
            let stepped = visit_spec(adj, names, (k - 1) as usize, sofar.0, Seq::empty(), fuel);
            (stepped.0, sofar.1 + stepped.1)
        } else {
            sofar
        }
    }
}

/// All loops that the depth-first walk reports over the whole graph.
pub open spec fn graph_cycles(adj: Seq<Seq<usize>>, names: Seq<Seq<char>>) -> Seq<
    Seq<Seq<char>>,
> {
    dfs_upto(adj, names, names.len() as int, usize::MAX as nat).1
}

/// Pointwise description of the deep view of an adjacency list.
pub proof fn lemma_adj_deep_view(adj: &Vec<Vec<usize>>)
    ensures
        adj.deep_view().len() == adj@.len(),
        forall|i: int| 0 <= i < adj@.len() ==> adj.deep_view()[i] == adj@[i]@,
{
    assert forall|i: int| 0 <= i < adj@.len() implies adj.deep_view()[i] == adj@[i]@ by {
        assert(adj.deep_view()[i] =~= adj@[i]@);
    }
}

/// The names along the tail of `path` from the first occurrence of `w`.
fn extract_cycle(path: &Vec<usize>, w: usize, names: &Vec<String>) -> (c: Vec<String>)
    requires
        forall|k: int| 0 <= k < path@.len() ==> path@[k] < names@.len(),
    ensures
        c.deep_view() == cycle_model(path@, w, names.deep_view()),
{
    proof {
        lemma_first_index(path@, w);
    }
    let mut start: usize = 0;
    while start < path.len() && path[start] != w
        invariant
            start <= path@.len(),
            forall|k: int| 0 <= k < start as int ==> path@[k] != w,
        decreases path@.len() - start,
    {
        start = start + 1;
    }
    proof {
        assert(start as int == first_index(path@, w));
    }
    let mut c: Vec<String> = Vec::new();
    let mut j: usize = start;
    while j < path.len()
        invariant
            start <= j <= path@.len(),
            forall|k: int| 0 <= k < path@.len() ==> path@[k] < names@.len(),
            c.deep_view() =~= names_along(
                path@.subrange(start as int, j as int),
                names.deep_view(),
            ),
        decreases path@.len() - j,
    {
        let idx = path[j];
        let ghost pre_cv = c@;
        let entry = names[idx].clone();
        c.push(entry);
        j = j + 1;
        proof {
            let nd = names.deep_view();
            let sub_pre = path@.subrange(start as int, j - 1);
            let sub = path@.subrange(start as int, j as int);
            assert(sub =~= sub_pre.push(path@[j - 1]));
            lemma_names_along_index(sub_pre, nd);
            lemma_names_along_index(sub, nd);
            assert(c@ == pre_cv.push(names@[idx as int]));
            assert forall|k: int| 0 <= k < c@.len() implies c.deep_view()[k]
                == names_along(sub, nd)[k] by {
                assert(c.deep_view()[k] == c@[k]@);
                assert(names_along(sub, nd)[k] == name_at(nd, sub[k]));
                assert(nd[sub[k] as int] == names@[sub[k] as int]@);
                if k < c@.len() - 1 {
                    assert(sub[k] == sub_pre[k]);
                    assert(c@[k] == pre_cv[k]);
                    assert(pre_cv[k]@ == names_along(sub_pre, nd)[k]);
                } else {
                    assert(c@[k] == names@[idx as int]);
                    assert(sub[k] == idx);
                }
            }
            assert(c.deep_view() =~= names_along(sub, nd));
        }
    }
    proof {
        assert(path@.subrange(start as int, path@.len() as int) =~= path@.subrange(
            first_index(path@, w),
            path@.len() as int,
        ));
    }
    c
}

/// One in-progress node of the executable walk; mirrors [`visit_spec`].
#[verifier::loop_isolation(false)]
fn visit(
    adj: &Vec<Vec<usize>>,
    names: &Vec<String>,
    v: usize,
    colors: &mut Vec<u8>,
    path: &mut Vec<usize>,
    cycles: &mut Vec<Vec<String>>,
    fuel: usize,
)
    requires
        adj@.len() == names@.len(),
        old(colors)@.len() == names@.len(),
        v < names@.len(),
        forall|i: int, j: int|
            0 <= i < adj@.len() && 0 <= j < adj@[i]@.len() ==> adj@[i]@[j] < names@.len(),
        forall|k: int| 0 <= k < old(path)@.len() ==> old(path)@[k] < names@.len(),
    ensures
        final(colors)@ == visit_spec(
            adj.deep_view(),
            names.deep_view(),
            v,
            old(colors)@,
            old(path)@,
            fuel as nat,
        ).0,
        final(cycles).deep_view() == old(cycles).deep_view() + visit_spec(
            adj.deep_view(),
            names.deep_view(),
            v,
            old(colors)@,
            old(path)@,
            fuel as nat,
        ).1,
        final(path)@ == old(path)@,
        final(colors)@.len() == old(colors)@.len(),
    decreases fuel,
{
    proof {
        lemma_adj_deep_view(adj);
    }
    if fuel == 0 {
        proof {
            assert(old(cycles).deep_view() + Seq::<Seq<Seq<char>>>::empty() =~= old(
                cycles,
            ).deep_view());
        }
        return ;
    }
    let ghost a_ = adj.deep_view();
    let ghost n_ = names.deep_view();
    let ghost c1 = old(colors)@.update(v as int, 1u8);
    let ghost p1 = old(path)@.push(v);
    let ghost f1 = (fuel - 1) as nat;
    let ghost tv = a_[v as int];
    colors.set(v, 1);
    path.push(v);
    let mut i: usize = 0;
    let edge_count = adj[v].len();
    proof {
        assert(tv.subrange(0, tv.len() as int) =~= tv);
    }
    while i < edge_count
        invariant
            i <= tv.len(),
            colors@.len() == names@.len(),
            path@ == p1,
            visit_edges_spec(a_, n_, tv.subrange(i as int, tv.len() as int), colors@, p1, f1).0
                == visit_edges_spec(a_, n_, tv, c1, p1, f1).0,
            old(cycles).deep_view() + visit_edges_spec(a_, n_, tv, c1, p1, f1).1
                == cycles.deep_view() + visit_edges_spec(
                a_,
                n_,
                tv.subrange(i as int, tv.len() as int),
                colors@,
                p1,
                f1,
            ).1,
        decreases tv.len() - i,
    {
        let ghost rem = tv.subrange(i as int, tv.len() as int);
        let ghost rem2 = tv.subrange(i + 1, tv.len() as int);
        let ghost pre_cy = cycles.deep_view();
        let ghost pre_co = colors@;
        let w = adj[v][i];
        proof {
            assert(rem[0] == tv[i as int]);
            assert(rem.subrange(1, rem.len() as int) =~= rem2);
        }
        let cw = colors[w];
        if cw == 1 {
            let loop_names = extract_cycle(path, w, names);
            cycles.push(loop_names);
            proof {
                let r1 = visit_edges_spec(a_, n_, rem2, pre_co, p1, f1);
                assert(visit_edges_spec(a_, n_, rem, pre_co, p1, f1).1 == seq![
                    cycle_model(p1, w, n_),
                ] + r1.1);
                assert(pre_cy + (seq![cycle_model(p1, w, n_)] + r1.1) =~= cycles.deep_view()
                    + r1.1);
            }
        } else if cw == 0 {
            visit(adj, names, w, colors, path, cycles, fuel - 1);
            proof {
                let stepped = visit_spec(a_, n_, w, pre_co, p1, f1);
                let r1 = visit_edges_spec(a_, n_, rem2, stepped.0, p1, f1);
                assert(visit_edges_spec(a_, n_, rem, pre_co, p1, f1).1 == stepped.1 + r1.1);
                assert(pre_cy + (stepped.1 + r1.1) =~= cycles.deep_view() + r1.1);
            }
        }
        i = i + 1;
    }
    proof {
        assert(tv.subrange(tv.len() as int, tv.len() as int) =~= Seq::<usize>::empty());
    }
    path.pop();
    colors.set(v, 2);
    proof {
        assert(path@ =~= old(path)@);
    }
}

/// The full depth-first walk: every loop the graph's edges close, in
/// deterministic order. `adj` and `names` describe one graph: entry `i`
/// of `adj` lists the edge targets of the node named `names[i]`.
#[verifier::loop_isolation(false)]
pub fn find_cycles(adj: &Vec<Vec<usize>>, names: &Vec<String>) -> (cycles: Vec<Vec<String>>)
    requires
        adj@.len() == names@.len(),
        forall|i: int, j: int|
            0 <= i < adj@.len() && 0 <= j < adj@[i]@.len() ==> adj@[i]@[j] < names@.len(),
    ensures
        cycles.deep_view() == graph_cycles(adj.deep_view(), names.deep_view()),
{
    let ghost a_ = adj.deep_view();
    let ghost n_ = names.deep_view();
    let ghost fuel_n = usize::MAX as nat;
    let n = names.len();
    let mut colors: Vec<u8> = Vec::new();
    let mut k: usize = 0;
    while k < n
        invariant
            k <= n,
            colors@.len() == k as int,
            forall|t: int| 0 <= t < k as int ==> colors@[t] == 0u8,
        decreases n - k,
    {
        colors.push(0);
        k = k + 1;
    }
    let mut path: Vec<usize> = Vec::new();
    let mut cycles: Vec<Vec<String>> = Vec::new();
    proof {
        assert(colors@ =~= dfs_upto(a_, n_, 0, fuel_n).0);
        assert(cycles.deep_view() =~= dfs_upto(a_, n_, 0, fuel_n).1);
    }
    let mut v: usize = 0;
    while v < n
        invariant
            v <= n,
            colors@.len() == names@.len(),
            path@.len() == 0,
            colors@ == dfs_upto(a_, n_, v as int, fuel_n).0,
            cycles.deep_view() == dfs_upto(a_, n_, v as int, fuel_n).1,
        decreases n - v,
    {
        if colors[v] == 0 {
            proof {
                assert(path@ =~= Seq::<usize>::empty());
            }
            visit(adj, names, v, &mut colors, &mut path, &mut cycles, usize::MAX);
        }
        v = v + 1;
    }
    cycles
}

} // verus!
