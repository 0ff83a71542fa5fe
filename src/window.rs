//! The context-window controller: for each line, decides whether to hold
//! it, emit it with the held look-back lines, or emit it as after-context.
use vstd::prelude::*;
use crate::lookback::LookBackBuffer;
use crate::model::{initial_state, lines_of, run_output, run_state, step_emit, step_state, WindowState};
use crate::predicate::{match_flags, matches_any, PredicateSet};

verus! {

/// The controller of one pass over a stream of lines.
pub struct ContextWindow {
    buffer: LookBackBuffer,
    after_remaining: usize,
    after_lines: usize,
}

impl View for ContextWindow {
    type V = WindowState<Seq<char>>;

    closed spec fn view(&self) -> WindowState<Seq<char>> {
        WindowState { held: self.buffer@, after: self.after_remaining as nat }
    }
}

impl ContextWindow {
    /// How many lines of look-back are kept.
    pub closed spec fn before_count(&self) -> nat {
        self.buffer.capacity()
    }

    /// How many lines of after-context follow a match.
    pub closed spec fn after_count(&self) -> nat {
        self.after_lines as nat
    }

    /// The look-back buffer is within its capacity and the after-context
    /// owed never exceeds the configured count.
    pub closed spec fn wf(&self) -> bool {
        &&& self.buffer.wf()
        &&& self.after_remaining <= self.after_lines
    }

    /// A controller in its initial state: nothing held, no after-context owed.
    pub fn new(before_lines: usize, after_lines: usize) -> (r: Self)
        ensures
            r.wf(),
            r@ == initial_state::<Seq<char>>(),
            r.before_count() == before_lines as nat,
            r.after_count() == after_lines as nat,
    {
        ContextWindow { buffer: LookBackBuffer::new(before_lines), after_remaining: 0, after_lines }
    }

    /// Whether the controller still owes after-context, in which case the
    /// next line is emitted without being tested.
    pub fn in_after_window(&self) -> (r: bool)
        ensures
            r == (self@.after > 0),
    {
        self.after_remaining > 0
    }

    /// The number of look-back lines held.
    pub fn held_len(&self) -> (r: usize)
        requires
            self.wf(),
        ensures
            r as int == self@.held.len(),
            r <= self.before_count(),
    {
        self.buffer.len()
    }

    /// Consumes one line whose match result is `matched` and returns the
    /// lines to emit, in order. Inside an after-window `matched` is ignored.
    pub fn feed_classified(&mut self, line: String, matched: bool) -> (emitted: Vec<String>)
        requires
            old(self).wf(),
        ensures
            final(self).wf(),
            final(self).before_count() == old(self).before_count(),
            final(self).after_count() == old(self).after_count(),
            final(self)@ == step_state(old(self)@, old(self).before_count(), old(self).after_count(), line@, matched),
            lines_of(emitted@) == step_emit(old(self)@, line@, matched),
    {
        if self.after_remaining > 0 {
            self.after_remaining = self.after_remaining - 1;
            let emitted = vec![line];
            assert(lines_of(emitted@) =~= seq![line@]);
            emitted
        } else if matched {
            let mut emitted = self.buffer.drain_in_order();
            let ghost held = emitted@;
            emitted.push(line);
            assert(lines_of(emitted@) =~= lines_of(held).push(line@));
            self.after_remaining = self.after_lines;
            emitted
        } else {
            self.buffer.push(line);
            let emitted: Vec<String> = Vec::new();
            assert(lines_of(emitted@) =~= Seq::<Seq<char>>::empty());
            emitted
        }
    }

    /// Consumes one line and returns the lines to emit, in order. The line
    /// is tested against `predicates` only outside an after-window.
    pub fn feed(&mut self, line: String, predicates: &PredicateSet) -> (emitted: Vec<String>)
        requires
            old(self).wf(),
        ensures
            final(self).wf(),
            final(self).before_count() == old(self).before_count(),
            final(self).after_count() == old(self).after_count(),
            final(self)@ == step_state(
                old(self)@,
                old(self).before_count(),
                old(self).after_count(),
                line@,
                matches_any(predicates.patterns(), line@),
            ),
            lines_of(emitted@) == step_emit(old(self)@, line@, matches_any(predicates.patterns(), line@)),
    {
        if self.in_after_window() {
            self.feed_classified(line, false)
        } else {
            let matched = predicates.is_match_any(line.as_str());
            self.feed_classified(line, matched)
        }
    }
}

/// Runs a fresh controller over `lines`, where `matched[i]` is the match
/// result of `lines[i]`, and returns everything emitted.
pub fn filter_classified(lines: &Vec<String>, matched: &Vec<bool>, before_lines: usize, after_lines: usize) -> (r: Vec<String>)
    requires
        matched.len() == lines.len(),
    ensures
        lines_of(r@) == run_output(lines_of(lines@), matched@, before_lines as nat, after_lines as nat),
{
    let ghost xs = lines_of(lines@);
    let mut window = ContextWindow::new(before_lines, after_lines);
    let mut out: Vec<String> = Vec::new();
    let mut i: usize = 0;
    while i < lines.len()
        invariant
            i <= lines.len(),
            matched.len() == lines.len(),
            xs == lines_of(lines@),
            window.wf(),
            window.before_count() == before_lines as nat,
            window.after_count() == after_lines as nat,
            window@ == run_state(xs.take(i as int), matched@, before_lines as nat, after_lines as nat),
            lines_of(out@) == run_output(xs.take(i as int), matched@, before_lines as nat, after_lines as nat),
        decreases lines.len() - i,
    {
        let ghost prev = out@;
        let mut emitted = window.feed_classified(lines[i].clone(), matched[i]);
        let ghost em = emitted@;
        out.append(&mut emitted);
        assert(xs.take(i + 1).take(i as int) =~= xs.take(i as int));
        assert(xs.take(i + 1)[i as int] == lines[i as int]@);
        assert(lines_of(out@) =~= lines_of(prev) + lines_of(em));
        i = i + 1;
    }
    assert(xs.take(i as int) =~= xs);
    out
}

/// Runs a fresh controller over `lines`, testing lines against
/// `predicates`, and returns everything emitted.
pub fn filter_lines(lines: &Vec<String>, predicates: &PredicateSet, before_lines: usize, after_lines: usize) -> (r: Vec<String>)
    ensures
        lines_of(r@) == run_output(
            lines_of(lines@),
            match_flags(predicates.patterns(), lines_of(lines@)),
            before_lines as nat,
            after_lines as nat,
        ),
{
    let ghost xs = lines_of(lines@);
    let ghost flags = match_flags(predicates.patterns(), xs);
    let mut window = ContextWindow::new(before_lines, after_lines);
    let mut out: Vec<String> = Vec::new();
    let mut i: usize = 0;
    while i < lines.len()
        invariant
            i <= lines.len(),
            xs == lines_of(lines@),
            flags == match_flags(predicates.patterns(), xs),
            window.wf(),
            window.before_count() == before_lines as nat,
            window.after_count() == after_lines as nat,
            window@ == run_state(xs.take(i as int), flags, before_lines as nat, after_lines as nat),
            lines_of(out@) == run_output(xs.take(i as int), flags, before_lines as nat, after_lines as nat),
        decreases lines.len() - i,
    {
        let ghost prev = out@;
        let mut emitted = window.feed(lines[i].clone(), predicates);
        let ghost em = emitted@;
        out.append(&mut emitted);
        assert(xs.take(i + 1).take(i as int) =~= xs.take(i as int));
        assert(xs.take(i + 1)[i as int] == lines[i as int]@);
        assert(lines_of(out@) =~= lines_of(prev) + lines_of(em));
        i = i + 1;
    }
    assert(xs.take(i as int) =~= xs);
    out
}

} // verus!
