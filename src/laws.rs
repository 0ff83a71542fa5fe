//! Properties of the controller over whole streams, proved of the model.
use vstd::prelude::*;
use crate::model::{lines_of, push_bounded, run_output, run_state, step_emit, step_state};
use crate::predicate::{match_flags, matches_any};

verus! {

/// The stream positions `0, 1, ..., n - 1`.
pub open spec fn positions(n: nat) -> Seq<int> {
    Seq::new(n, |i: int| i)
}

/// The positions, in the input stream, of the lines emitted for a stream of
/// `n` lines.
pub open spec fn emitted_positions(n: nat, matched: Seq<bool>, before: nat, after: nat) -> Seq<int> {
    run_output(positions(n), matched, before, after)
}

/// Every element is smaller than every later one.
pub open spec fn strictly_increasing(s: Seq<int>) -> bool {
    forall|i: int, j: int| 0 <= i < j < s.len() ==> s[i] < s[j]
}

/// Every state reached from the start holds at most `before` lines, owes at
/// most `after` lines, and holds nothing while it owes after-context.
pub proof fn lemma_reachable_state<T>(xs: Seq<T>, matched: Seq<bool>, before: nat, after: nat)
    ensures
        run_state(xs, matched, before, after).held.len() <= before,
        run_state(xs, matched, before, after).after <= after,
        run_state(xs, matched, before, after).after > 0 ==> run_state(xs, matched, before, after).held.len() == 0,
    decreases xs.len(),
{
    if xs.len() > 0 {
        lemma_reachable_state(xs.take(xs.len() - 1), matched, before, after);
    }
}

/// Renaming every item by `f` commutes with running the controller.
pub proof fn lemma_run_map<A, B>(xs: Seq<A>, f: spec_fn(A) -> B, matched: Seq<bool>, before: nat, after: nat)
    ensures
        run_state(xs.map_values(f), matched, before, after).held
            == run_state(xs, matched, before, after).held.map_values(f),
        run_state(xs.map_values(f), matched, before, after).after == run_state(xs, matched, before, after).after,
        run_output(xs.map_values(f), matched, before, after) == run_output(xs, matched, before, after).map_values(f),
    decreases xs.len(),
{
    if xs.len() == 0 {
        assert(xs.map_values(f) =~= Seq::<B>::empty());
        assert(Seq::<A>::empty().map_values(f) =~= Seq::<B>::empty());
    } else {
        let n = (xs.len() - 1) as int;
        let ys = xs.map_values(f);
        assert(ys.take(n) =~= xs.take(n).map_values(f));
        lemma_run_map(xs.take(n), f, matched, before, after);
        let s = run_state(xs.take(n), matched, before, after);
        let h = s.held;
        assert(h.push(xs[n]).map_values(f) =~= h.map_values(f).push(f(xs[n])));
        assert(h.push(xs[n]).drop_first().map_values(f) =~= h.map_values(f).push(f(xs[n])).drop_first());
        assert(push_bounded(h, before, xs[n]).map_values(f) =~= push_bounded(h.map_values(f), before, f(xs[n])));
        assert(Seq::<A>::empty().map_values(f) =~= Seq::<B>::empty());
        assert(seq![xs[n]].map_values(f) =~= seq![f(xs[n])]);
        let e = step_emit(s, xs[n], matched[n]);
        assert(step_emit(run_state(ys.take(n), matched, before, after), ys[n], matched[n]) =~= e.map_values(f));
        let o = run_output(xs.take(n), matched, before, after);
        assert((o + e).map_values(f) =~= o.map_values(f) + e.map_values(f));
    }
}

/// Over the stream positions themselves: held and emitted positions are
/// increasing and inside the stream, and everything emitted comes before
/// everything held.
proof fn lemma_positions_ordered(n: nat, matched: Seq<bool>, before: nat, after: nat)
    ensures
        strictly_increasing(run_state(positions(n), matched, before, after).held),
        strictly_increasing(run_output(positions(n), matched, before, after)),
        forall|k: int| 0 <= k < run_state(positions(n), matched, before, after).held.len()
            ==> 0 <= #[trigger] run_state(positions(n), matched, before, after).held[k] < n,
        forall|k: int| 0 <= k < run_output(positions(n), matched, before, after).len()
            ==> 0 <= #[trigger] run_output(positions(n), matched, before, after)[k] < n,
        forall|i: int, j: int|
            0 <= i < run_output(positions(n), matched, before, after).len()
                && 0 <= j < run_state(positions(n), matched, before, after).held.len()
                ==> run_output(positions(n), matched, before, after)[i]
                    < run_state(positions(n), matched, before, after).held[j],
    decreases n,
{
    if n > 0 {
        let m = (n - 1) as nat;
        let ps = positions(n);
        assert(ps.take(m as int) =~= positions(m));
        lemma_positions_ordered(m, matched, before, after);
        lemma_reachable_state(positions(m), matched, before, after);
        let s = run_state(positions(m), matched, before, after);
        let o = run_output(positions(m), matched, before, after);
        assert(ps[m as int] == m);
        let h = s.held;
        if s.after == 0 && !matched[m as int] {
            let p = h.push(m as int);
            if h.len() >= before {
                assert forall|i: int, j: int| 0 <= i < j < p.drop_first().len() implies p.drop_first()[i]
                    < p.drop_first()[j] by {
                    assert(p.drop_first()[i] == p[i + 1]);
                    assert(p.drop_first()[j] == p[j + 1]);
                }
                assert forall|i: int, j: int|
                    0 <= i < o.len() && 0 <= j < p.drop_first().len() implies o[i] < p.drop_first()[j] by {
                    assert(p.drop_first()[j] == p[j + 1]);
                }
            }
        }
    }
}

/// No line is emitted twice and emitted lines keep their stream order: the
/// output is the stream read at strictly increasing positions inside it.
pub proof fn lemma_emitted_in_stream_order<T>(xs: Seq<T>, matched: Seq<bool>, before: nat, after: nat)
    ensures
        strictly_increasing(emitted_positions(xs.len(), matched, before, after)),
        forall|k: int| 0 <= k < emitted_positions(xs.len(), matched, before, after).len()
            ==> 0 <= #[trigger] emitted_positions(xs.len(), matched, before, after)[k] < xs.len(),
        run_output(xs, matched, before, after)
            == emitted_positions(xs.len(), matched, before, after).map_values(|i: int| xs[i]),
{
    let f = |i: int| xs[i];
    lemma_positions_ordered(xs.len(), matched, before, after);
    lemma_run_map(positions(xs.len()), f, matched, before, after);
    assert(positions(xs.len()).map_values(f) =~= xs);
}

/// With no after-context the controller is idle after every line: a match
/// ends the emitted lines and leaves nothing owed, and a line that does not
/// match emits nothing.
pub proof fn lemma_no_after_context<T>(xs: Seq<T>, matched: Seq<bool>, before: nat, x: T)
    ensures
        run_state(xs, matched, before, 0).after == 0,
        step_emit(run_state(xs, matched, before, 0), x, true).last() == x,
        step_state(run_state(xs, matched, before, 0), before, 0, x, true).after == 0,
        step_emit(run_state(xs, matched, before, 0), x, false) == Seq::<T>::empty(),
{
    lemma_reachable_state(xs, matched, before, 0);
}

/// With no look-back, nothing is ever held, and a match outside an
/// after-window is emitted alone.
pub proof fn lemma_no_before_context<T>(xs: Seq<T>, matched: Seq<bool>, after: nat, x: T)
    ensures
        run_state(xs, matched, 0, after).held.len() == 0,
        run_state(xs, matched, 0, after).after == 0 ==> step_emit(run_state(xs, matched, 0, after), x, true)
            == seq![x],
{
    lemma_reachable_state(xs, matched, 0, after);
    assert(run_state(xs, matched, 0, after).held =~= Seq::<T>::empty());
}

/// Inside an after-window a line is emitted alone whether or not it matches:
/// no look-back is flushed for it, and nothing is held.
pub proof fn lemma_overlap_no_reflush<T>(xs: Seq<T>, matched: Seq<bool>, before: nat, after: nat, x: T, m: bool)
    requires
        run_state(xs, matched, before, after).after > 0,
    ensures
        step_emit(run_state(xs, matched, before, after), x, m) == seq![x],
        step_state(run_state(xs, matched, before, after), before, after, x, m).held.len() == 0,
        step_state(run_state(xs, matched, before, after), before, after, x, m).after
            == run_state(xs, matched, before, after).after - 1,
{
    lemma_reachable_state(xs, matched, before, after);
}

/// When no line matches, nothing is emitted.
pub proof fn lemma_no_match_no_output<T>(xs: Seq<T>, matched: Seq<bool>, before: nat, after: nat)
    requires
        forall|i: int| 0 <= i < xs.len() ==> !#[trigger] matched[i],
    ensures
        run_output(xs, matched, before, after) == Seq::<T>::empty(),
        run_state(xs, matched, before, after).after == 0,
    decreases xs.len(),
{
    if xs.len() > 0 {
        let n = (xs.len() - 1) as int;
        lemma_no_match_no_output(xs.take(n), matched, before, after);
        assert(!matched[n]);
        assert(run_output(xs, matched, before, after) =~= Seq::<T>::empty());
    }
}

/// With an empty predicate set no line matches, so nothing is emitted.
pub proof fn lemma_empty_predicates_no_output(lines: Seq<Seq<char>>, before: nat, after: nat)
    ensures
        run_output(lines, match_flags(Seq::empty(), lines), before, after) == Seq::<Seq<char>>::empty(),
{
    let flags = match_flags(Seq::empty(), lines);
    assert forall|i: int| 0 <= i < lines.len() implies !#[trigger] flags[i] by {
        assert(!matches_any(Seq::empty(), lines[i]));
    }
    lemma_no_match_no_output(lines, flags, before, after);
}

/// Running the filter twice over the same lines with the same patterns and
/// counts gives identical output: any two results that meet the contract
/// of `filter_lines` hold the same strings in the same order.
pub proof fn lemma_rerun_identical(
    lines: Seq<Seq<char>>,
    patterns: Seq<Seq<char>>,
    before: nat,
    after: nat,
    first: Seq<String>,
    second: Seq<String>,
)
    requires
        lines_of(first) == run_output(lines, match_flags(patterns, lines), before, after),
        lines_of(second) == run_output(lines, match_flags(patterns, lines), before, after),
    ensures
        first.len() == second.len(),
        forall|i: int| 0 <= i < first.len() ==> #[trigger] first[i]@ == second[i]@,
{
    assert(lines_of(first).len() == first.len());
    assert(lines_of(second).len() == second.len());
    assert forall|i: int| 0 <= i < first.len() implies #[trigger] first[i]@ == second[i]@ by {
        assert(lines_of(first)[i] == first[i]@);
        assert(lines_of(second)[i] == second[i]@);
    }
}

} // verus!
