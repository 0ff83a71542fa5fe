//! The bounded look-back buffer, kept in a `queues::CircularBuffer`.
use vstd::prelude::*;
use queues::CircularBuffer;
use queues::IsQueue;
use crate::model::{lines_of, push_bounded};

verus! {

#[verifier::external_type_specification]
#[verifier::external_body]
#[verifier::reject_recursive_types(T)]
pub struct ExCircularBuffer<T: Clone>(CircularBuffer<T>);

/// The lines a circular buffer holds, oldest first.
pub uninterp spec fn ring_contents(b: CircularBuffer<String>) -> Seq<Seq<char>>;

/// The capacity a circular buffer was made with.
pub uninterp spec fn ring_capacity(b: CircularBuffer<String>) -> nat;

/// Whether a circular buffer was made with a fill value, which `remove`
/// puts back in place of each removed line.
pub uninterp spec fn ring_refills(b: CircularBuffer<String>) -> bool;

/// Relies on `queues::CircularBuffer::new`: an empty buffer with the given
/// capacity and no fill value.
#[verifier::external_body]
fn ring_new(capacity: usize) -> (r: CircularBuffer<String>)
    ensures
        ring_contents(r) == Seq::<Seq<char>>::empty(),
        ring_capacity(r) == capacity as nat,
        !ring_refills(r),
{
    CircularBuffer::new(capacity)
}

/// Relies on `IsQueue::add` of `queues::CircularBuffer`: the line is
/// appended, and when the buffer held at least `capacity` lines the oldest
/// is removed. It never fails.
#[verifier::external_body]
fn ring_add(b: &mut CircularBuffer<String>, line: String)
    ensures
        ring_contents(*final(b)) == push_bounded(ring_contents(*old(b)), ring_capacity(*old(b)), line@),
        ring_capacity(*final(b)) == ring_capacity(*old(b)),
        ring_refills(*final(b)) == ring_refills(*old(b)),
{
    let _ = b.add(line);
}

/// Relies on `IsQueue::remove` of `queues::CircularBuffer`: an empty buffer
/// is left as it is and gives nothing; otherwise the oldest line is removed
/// and returned (and, with a fill value, the fill value appended).
#[verifier::external_body]
fn ring_remove(b: &mut CircularBuffer<String>) -> (r: Option<String>)
    ensures
        ring_capacity(*final(b)) == ring_capacity(*old(b)),
        ring_refills(*final(b)) == ring_refills(*old(b)),
        ring_contents(*old(b)).len() == 0 ==> r is None && ring_contents(*final(b)) == ring_contents(*old(b)),
        ring_contents(*old(b)).len() > 0 ==> r is Some && r->Some_0@ == ring_contents(*old(b))[0],
        ring_contents(*old(b)).len() > 0 && !ring_refills(*old(b))
            ==> ring_contents(*final(b)) == ring_contents(*old(b)).drop_first(),
{
    b.remove().ok()
}

/// Relies on `IsQueue::size` of `queues::CircularBuffer`: the number of
/// lines held.
#[verifier::external_body]
fn ring_size(b: &CircularBuffer<String>) -> (r: usize)
    ensures
        r as int == ring_contents(*b).len(),
{
    b.size()
}

/// A first-in first-out buffer of at most `capacity()` lines: pushing onto a
/// full buffer evicts its oldest line.
pub struct LookBackBuffer {
    ring: CircularBuffer<String>,
}

impl View for LookBackBuffer {
    type V = Seq<Seq<char>>;

    closed spec fn view(&self) -> Seq<Seq<char>> {
        ring_contents(self.ring)
    }
}

impl LookBackBuffer {
    /// The most lines the buffer holds.
    pub closed spec fn capacity(&self) -> nat {
        ring_capacity(self.ring)
    }

    /// The buffer never holds more than its capacity.
    pub closed spec fn wf(&self) -> bool {
        &&& !ring_refills(self.ring)
        &&& self@.len() <= self.capacity()
    }

    /// An empty buffer that holds at most `capacity` lines.
    pub fn new(capacity: usize) -> (r: Self)
        ensures
            r.wf(),
            r@ == Seq::<Seq<char>>::empty(),
            r.capacity() == capacity as nat,
    {
        LookBackBuffer { ring: ring_new(capacity) }
    }

    /// Appends `line`, first evicting the oldest line if the buffer is full.
    /// With capacity 0 the line is discarded.
    pub fn push(&mut self, line: String)
        requires
            old(self).wf(),
        ensures
            final(self).wf(),
            final(self)@ == push_bounded(old(self)@, old(self).capacity(), line@),
            final(self)@.len() <= final(self).capacity(),
            final(self).capacity() == old(self).capacity(),
    {
        ring_add(&mut self.ring, line);
    }

    /// Removes and returns every held line, oldest first.
    pub fn drain_in_order(&mut self) -> (r: Vec<String>)
        requires
            old(self).wf(),
        ensures
            final(self).wf(),
            lines_of(r@) == old(self)@,
            final(self)@ == Seq::<Seq<char>>::empty(),
            final(self).capacity() == old(self).capacity(),
    {
        let mut out: Vec<String> = Vec::new();
        while ring_size(&self.ring) > 0
            invariant
                !ring_refills(self.ring),
                ring_capacity(self.ring) == ring_capacity(old(self).ring),
                lines_of(out@) + ring_contents(self.ring) == ring_contents(old(self).ring),
            decreases ring_contents(self.ring).len(),
        {
            let ghost before_out = out@;
            let ghost held = ring_contents(self.ring);
            let removed = ring_remove(&mut self.ring);
            match removed {
                Some(line) => {
                    out.push(line);
                    assert(lines_of(out@) =~= lines_of(before_out).push(held[0]));
                    assert(lines_of(out@) + ring_contents(self.ring) =~= lines_of(before_out) + held);
                },
                None => {},
            }
        }
        assert(ring_contents(self.ring) =~= Seq::<Seq<char>>::empty());
        assert(lines_of(out@) =~= lines_of(out@) + ring_contents(self.ring));
        out
    }

    /// Whether no line is held.
    pub fn is_empty(&self) -> (r: bool)
        ensures
            r == (self@.len() == 0),
    {
        ring_size(&self.ring) == 0
    }

    /// The number of lines held.
    pub fn len(&self) -> (r: usize)
        ensures
            r as int == self@.len(),
            self.wf() ==> r as nat <= self.capacity(),
    {
        ring_size(&self.ring)
    }
}

} // verus!
