//! The mathematical model of the context-window state machine.
//!
//! The machine is generic over the item type so that the same definitions
//! describe both the emitted lines and the stream positions they came from.
use vstd::prelude::*;

verus! {

/// The abstract state of the controller: the look-back lines that are held
/// (oldest first) and how many lines of after-context are still owed.
pub struct WindowState<T> {
    pub held: Seq<T>,
    pub after: nat,
}

/// The views of a sequence of strings.
pub open spec fn lines_of(v: Seq<String>) -> Seq<Seq<char>> {
    v.map_values(|s: String| s@)
}

/// Appends `x` to a look-back buffer of capacity `cap`, dropping the oldest
/// held item when the buffer is already full.
pub open spec fn push_bounded<T>(held: Seq<T>, cap: nat, x: T) -> Seq<T> {
    if held.len() < cap {
        held.push(x)
    } else {
        held.push(x).drop_first()
    }
}

/// The state before the first line: nothing held, no after-context owed.
pub open spec fn initial_state<T>() -> WindowState<T> {
    WindowState { held: Seq::empty(), after: 0 }
}

/// What one line `x` makes the controller emit. `matched` is consulted only
/// outside an after-window.
pub open spec fn step_emit<T>(s: WindowState<T>, x: T, matched: bool) -> Seq<T> {
    if s.after > 0 {
        seq![x]
    } else if matched {
        s.held.push(x)
    } else {
        Seq::empty()
    }
}

/// The state after one line `x`, for `before` lines of look-back and
/// `after` lines of after-context.
pub open spec fn step_state<T>(
    s: WindowState<T>,
    before: nat,
    after: nat,
    x: T,
    matched: bool,
) -> WindowState<T> {
    if s.after > 0 {
        WindowState { held: s.held, after: (s.after - 1) as nat }
    } else if matched {
        WindowState { held: Seq::empty(), after: after }
    } else {
        WindowState { held: push_bounded(s.held, before, x), after: 0 }
    }
}

/// The state after the whole of `xs`, where `matched[i]` tells whether
/// `xs[i]` matches.
pub open spec fn run_state<T>(xs: Seq<T>, matched: Seq<bool>, before: nat, after: nat) -> WindowState<T>
    decreases xs.len(),
{
    if xs.len() == 0 {
        initial_state()
    } else {
        let n = (xs.len() - 1) as int;
        step_state(run_state(xs.take(n), matched, before, after), before, after, xs[n], matched[n])
    }
}

/// Everything emitted while the controller consumes `xs`.
pub open spec fn run_output<T>(xs: Seq<T>, matched: Seq<bool>, before: nat, after: nat) -> Seq<T>
    decreases xs.len(),
{
    if xs.len() == 0 {
        Seq::empty()
    } else {
        let n = (xs.len() - 1) as int;
        run_output(xs.take(n), matched, before, after)
            + step_emit(run_state(xs.take(n), matched, before, after), xs[n], matched[n])
    }
}

} // verus!
