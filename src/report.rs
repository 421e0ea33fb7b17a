//! The report of a finished sweep: each case paired with its result,
//! ranked by ascending total time, ties kept in plan order.

use vstd::prelude::*;
use crate::model::{ExpResult, Experiment, SettingView, State, total_time};

verus! {

/// The total times of results, in order.
pub open spec fn totals(results: Seq<ExpResult>) -> Seq<int> {
    results.map_values(|r: ExpResult| total_time(r))
}

/// How many indices in `order` have a total of at most `x`.
pub open spec fn count_le(order: Seq<int>, t: Seq<int>, x: int) -> nat
    decreases order.len(),
{
    if order.len() == 0 {
        0
    } else {
        count_le(order.drop_last(), t, x) + if t[order.last()] <= x {
            1nat
        } else {
            0nat
        }
    }
}

/// The indices `0..n` ranked by total: each index in turn goes after every
/// earlier one whose total is at most its own, so that equal totals keep
/// their order.
pub open spec fn rank(t: Seq<int>, n: nat) -> Seq<int>
    decreases n,
{
    if n == 0 {
        Seq::empty()
    } else {
        let o = rank(t, (n - 1) as nat);
        o.insert(count_le(o, t, t[n - 1]) as int, n - 1)
    }
}

/// `order` is ascending by total.
pub open spec fn ascending(order: Seq<int>, t: Seq<int>) -> bool {
    forall|a: int, b: int| 0 <= a < b < order.len() ==> t[#[trigger] order[a]] <= t[#[trigger] order[b]]
}

/// In an order ascending by total, the indices with a total of at most `x`
/// come first.
proof fn lemma_count_le_split(order: Seq<int>, t: Seq<int>, x: int)
    requires
        ascending(order, t),
    ensures
        count_le(order, t, x) <= order.len(),
        forall|k: int| 0 <= k < count_le(order, t, x) ==> t[#[trigger] order[k]] <= x,
        forall|k: int| count_le(order, t, x) <= k < order.len() ==> t[#[trigger] order[k]] > x,
    decreases order.len(),
{
    if order.len() > 0 {
        let o = order.drop_last();
        assert(ascending(o, t)) by {
            assert forall|a: int, b: int| 0 <= a < b < o.len() implies t[#[trigger] o[a]] <= t[#[trigger] o[b]] by {
                assert(o[a] == order[a] && o[b] == order[b]);
            }
        }
        lemma_count_le_split(o, t, x);
        let last = order.len() - 1;
        assert forall|k: int| 0 <= k < count_le(order, t, x) implies t[#[trigger] order[k]] <= x by {
            if k < last {
                assert(o[k] == order[k]);
                if t[order[last]] <= x {
                    assert(t[order[k]] <= t[order[last]]);
                }
            }
        }
        assert forall|k: int| count_le(order, t, x) <= k < order.len() implies t[#[trigger] order[k]] > x by {
            if k < last {
                assert(o[k] == order[k]);
            }
        }
    }
}

/// The ranking holds each index below `n` once, in ascending order of total.
pub proof fn lemma_rank(t: Seq<int>, n: nat)
    requires
        n <= t.len(),
    ensures
        rank(t, n).len() == n,
        ascending(rank(t, n), t),
        forall|k: int| 0 <= k < n ==> 0 <= #[trigger] rank(t, n)[k] < n,
        forall|a: int, b: int| 0 <= a < b < n ==> #[trigger] rank(t, n)[a] != #[trigger] rank(t, n)[b],
    decreases n,
{
    if n > 0 {
        let o = rank(t, (n - 1) as nat);
        lemma_rank(t, (n - 1) as nat);
        let x = t[n - 1];
        lemma_count_le_split(o, t, x);
        let p = count_le(o, t, x) as int;
        let r = o.insert(p, n - 1);
        assert(r == rank(t, n));
        assert forall|k: int| 0 <= k < n implies 0 <= #[trigger] r[k] < n by {
            if k > p {
                assert(r[k] == o[k - 1]);
            } else if k < p {
                assert(r[k] == o[k]);
            }
        }
        assert forall|a: int, b: int| 0 <= a < b < r.len() implies t[#[trigger] r[a]] <= t[#[trigger] r[b]] by {
            if b < p {
                assert(r[a] == o[a] && r[b] == o[b]);
            } else if b == p {
                assert(r[a] == o[a]);
            } else if a < p {
                assert(r[a] == o[a] && r[b] == o[b - 1]);
            } else if a == p {
                assert(r[b] == o[b - 1]);
            } else {
                assert(r[a] == o[a - 1] && r[b] == o[b - 1]);
            }
        }
        assert forall|a: int, b: int| 0 <= a < b < n implies #[trigger] r[a] != #[trigger] r[b] by {
            if b < p {
                assert(r[a] == o[a] && r[b] == o[b]);
            } else if b == p {
                assert(r[a] == o[a]);
            } else if a < p {
                assert(r[a] == o[a] && r[b] == o[b - 1]);
            } else if a == p {
                assert(r[b] == o[b - 1]);
            } else {
                assert(r[a] == o[a - 1] && r[b] == o[b - 1]);
            }
        }
    }
}

/// A case paired with its result.
pub type ExpAndResult = (Experiment, ExpResult);

/// The finished sweep, ranked by total time.
pub struct Report {
    pub results_by_total_time: Vec<ExpAndResult>,
}

/// The views of a report's entries.
pub open spec fn report_view(v: Seq<ExpAndResult>) -> Seq<(Seq<SettingView>, ExpResult)> {
    v.map_values(|p: ExpAndResult| (p.0@, p.1))
}

/// The report of a complete state: the entries `(cases[i], results[i])` in
/// the order of `rank` over the totals.
pub open spec fn report_of(s: State) -> Seq<(Seq<SettingView>, ExpResult)> {
    let t = totals(s.results@);
    let order = rank(t, t.len());
    Seq::new(order.len(), |k: int| (s.plan.cases@[order[k]]@, s.results@[order[k]]))
}

/// The total time of a result, exactly.
fn total(r: &ExpResult) -> (x: u128)
    ensures
        x == total_time(*r),
{
    r.build_time as u128 + r.run_time as u128
}

/// Pairs every case with its result and ranks the pairs by ascending total
/// time; pairs of equal total keep their plan order.
pub fn gen_report(state: &State) -> (r: Report)
    requires
        state.complete(),
    ensures
        report_view(r.results_by_total_time@) == report_of(*state),
        r.results_by_total_time@.len() == state.plan.cases@.len(),
        forall|a: int, b: int|
            0 <= a < b < r.results_by_total_time@.len() ==> total_time(
                #[trigger] r.results_by_total_time@[a].1,
            ) <= total_time(#[trigger] r.results_by_total_time@[b].1),
{
    let n = state.results.len();
    let ghost t = totals(state.results@);
    let mut order: Vec<usize> = Vec::new();
    let mut i: usize = 0;
    while i < n
        invariant
            n == state.results@.len(),
            t == totals(state.results@),
            i <= n,
            order@.len() == i,
            forall|k: int| 0 <= k < i ==> #[trigger] order@[k] as int == rank(t, i as nat)[k],
        decreases n - i,
    {
        proof {
            lemma_rank(t, i as nat);
        }
        let ghost o = rank(t, i as nat);
        let x = total(&state.results[i]);
        let mut p: usize = 0;
        let mut k: usize = 0;
        while k < i
            invariant
                n == state.results@.len(),
                t == totals(state.results@),
                i < n,
                k <= i,
                o == rank(t, i as nat),
                o.len() == i,
                order@.len() == i,
                forall|j: int| 0 <= j < i ==> 0 <= #[trigger] o[j] < i,
                forall|j: int| 0 <= j < i ==> #[trigger] order@[j] as int == o[j],
                x == t[i as int],
                p == count_le(o.take(k as int), t, x as int),
                p <= k,
            decreases i - k,
        {
            assert(o.take(k as int + 1).drop_last() =~= o.take(k as int));
            if total(&state.results[order[k]]) <= x {
                p = p + 1;
            }
            k += 1;
        }
        assert(o.take(i as int) =~= o);
        let ghost old_order = order@;
        order.insert(p, i);
        proof {
            assert(rank(t, (i + 1) as nat) == o.insert(p as int, i as int));
            assert forall|j: int| 0 <= j < i + 1 implies #[trigger] order@[j] as int == rank(
                t,
                (i + 1) as nat,
            )[j] by {
                if j < p {
                    assert(order@[j] == old_order[j]);
                } else if j > p {
                    assert(order@[j] == old_order[j - 1]);
                }
            }
        }
        i += 1;
    }
    proof {
        lemma_rank(t, n as nat);
    }
    let mut results: Vec<ExpAndResult> = Vec::new();
    let mut k: usize = 0;
    while k < n
        invariant
            n == state.results@.len(),
            n == state.plan.cases@.len(),
            t == totals(state.results@),
            k <= n,
            order@.len() == n,
            rank(t, n as nat).len() == n,
            forall|j: int| 0 <= j < n ==> 0 <= #[trigger] rank(t, n as nat)[j] < n,
            forall|j: int| 0 <= j < n ==> #[trigger] order@[j] as int == rank(t, n as nat)[j],
            results@.len() == k,
            forall|j: int|
                0 <= j < k ==> (#[trigger] results@[j]).0@ == state.plan.cases@[order@[j] as int]@
                    && results@[j].1 == state.results@[order@[j] as int],
        decreases n - k,
    {
        let idx = order[k];
        assert(idx < n);
        results.push((state.plan.cases[idx].clone(), state.results[idx]));
        k += 1;
    }
    assert(report_view(results@) =~= report_of(*state));
    assert forall|a: int, b: int| 0 <= a < b < results@.len() implies total_time(
        #[trigger] results@[a].1,
    ) <= total_time(#[trigger] results@[b].1) by {
        let o = rank(t, n as nat);
        assert(results@[a].1 == state.results@[o[a]]);
        assert(results@[b].1 == state.results@[o[b]]);
        assert(t[o[a]] <= t[o[b]]);
    }
    Report { results_by_total_time: results }
}

/// The HTML of a report. Rendering is left to another tool: this one
/// renders nothing.
pub fn render_html(report: &Report) -> (r: String)
    ensures
        r@.len() == 0,
{
    String::new()
}

} // verus!
