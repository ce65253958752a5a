//! Bounded queue of serialized event lines, with drop-oldest overflow and a
//! counter of dropped lines.
use std::collections::VecDeque;
use vstd::prelude::*;

verus! {

/// Number of lines that the event queue holds before it drops the oldest.
pub const FRAME_QUEUE_CAPACITY: usize = 50;

/// A FIFO of event lines. When full, a push drops the oldest line and counts
/// the drop; once closed, pushes are ignored.
pub struct FrameQueue {
    capacity: usize,
    queue: VecDeque<String>,
    closed: bool,
    dropped_count: u64,
}

/// The lines held after `line` is pushed onto `lines` in a queue of the given
/// capacity that is not closed.
pub open spec fn pushed_lines(lines: Seq<String>, capacity: nat, line: String) -> Seq<String> {
    if lines.len() >= capacity && lines.len() > 0 {
        lines.drop_first().push(line)
    } else {
        lines.push(line)
    }
}

/// The drop counter after one more drop; it wraps as an atomic counter does.
pub open spec fn counted(d: u64) -> u64 {
    if d == u64::MAX {
        0
    } else {
        (d + 1) as u64
    }
}

/// Whether pushing onto `lines` in a queue of the given capacity drops a line.
pub open spec fn push_drops(lines: Seq<String>, capacity: nat) -> bool {
    lines.len() >= capacity && lines.len() > 0
}

/// The lines held after each of `pushes` in turn is pushed onto an open queue.
pub open spec fn pushed_all(lines: Seq<String>, capacity: nat, pushes: Seq<String>) -> Seq<
    String,
>
    decreases pushes.len(),
{
    if pushes.len() == 0 {
        lines
    } else {
        pushed_all(pushed_lines(lines, capacity, pushes[0]), capacity, pushes.drop_first())
    }
}

/// How many of `pushes` drop a line when pushed in turn onto an open queue.
pub open spec fn drops_during(lines: Seq<String>, capacity: nat, pushes: Seq<String>) -> nat
    decreases pushes.len(),
{
    if pushes.len() == 0 {
        0
    } else {
        (if push_drops(lines, capacity) {
            1nat
        } else {
            0nat
        }) + drops_during(pushed_lines(lines, capacity, pushes[0]), capacity, pushes.drop_first())
    }
}

/// Pushing any run of lines onto an open queue of positive capacity keeps it
/// within that capacity; the queue then holds the newest lines, and the lines
/// dropped are exactly those in excess of the capacity, so a counter that
/// started at zero reads the number of drops since it was last taken.
pub proof fn lemma_pushes_stay_bounded(lines: Seq<String>, capacity: nat, pushes: Seq<String>)
    requires
        capacity > 0,
        lines.len() <= capacity,
    ensures
        pushed_all(lines, capacity, pushes).len() <= capacity,
        pushed_all(lines, capacity, pushes) == (lines + pushes).subrange(
            (lines.len() + pushes.len()) - pushed_all(lines, capacity, pushes).len(),
            (lines.len() + pushes.len()) as int,
        ),
        pushed_all(lines, capacity, pushes).len() + drops_during(lines, capacity, pushes)
            == lines.len() + pushes.len(),
    decreases pushes.len(),
{
    if pushes.len() > 0 {
        let next = pushed_lines(lines, capacity, pushes[0]);
        lemma_pushes_stay_bounded(next, capacity, pushes.drop_first());
        let rest = pushed_all(next, capacity, pushes.drop_first());
        assert(rest == pushed_all(lines, capacity, pushes));
        let all = lines + pushes;
        let tail = next + pushes.drop_first();
        let k = lines.len() + pushes.len();
        if push_drops(lines, capacity) {
            assert(tail =~= all.subrange(1, k as int));
        } else {
            assert(tail =~= all);
        }
        assert(rest =~= all.subrange(k - rest.len(), k as int));
    } else {
        assert((lines + pushes) =~= lines);
        assert(lines.subrange(0, lines.len() as int) =~= lines);
    }
}

/// One push onto an open queue of positive capacity that holds at most that
/// many lines: when the queue is full the oldest line goes and the drop
/// counter (below its limit) goes up by exactly one; otherwise the line is
/// simply appended and nothing is counted. Either way the queue stays within
/// its capacity.
pub proof fn lemma_push_step(lines: Seq<String>, capacity: nat, line: String, dropped: u64)
    requires
        capacity > 0,
        lines.len() <= capacity,
        dropped < u64::MAX,
    ensures
        push_drops(lines, capacity) <==> lines.len() == capacity,
        pushed_lines(lines, capacity, line) == (if lines.len() == capacity {
            lines.drop_first()
        } else {
            lines
        }).push(line),
        pushed_lines(lines, capacity, line).len() <= capacity,
        push_drops(lines, capacity) ==> counted(dropped) == dropped + 1,
{
}

impl FrameQueue {
    /// The lines waiting, oldest first.
    pub closed spec fn lines(&self) -> Seq<String> {
        self.queue@
    }

    pub closed spec fn capacity(&self) -> nat {
        self.capacity as nat
    }

    pub closed spec fn is_closed(&self) -> bool {
        self.closed
    }

    /// Lines dropped since the count was last taken.
    pub closed spec fn dropped(&self) -> u64 {
        self.dropped_count
    }

    /// The queue never holds more lines than its capacity (a capacity of zero
    /// still lets one line through).
    pub closed spec fn wf(&self) -> bool {
        self.queue@.len() <= self.capacity || (self.capacity == 0 && self.queue@.len() <= 1)
    }

    pub fn new(capacity: usize) -> (r: FrameQueue)
        ensures
            r.wf(),
            r.lines() == Seq::<String>::empty(),
            r.capacity() == capacity,
            !r.is_closed(),
            r.dropped() == 0,
    {
        FrameQueue { capacity, queue: VecDeque::new(), closed: false, dropped_count: 0 }
    }

    /// Appends a line. A closed queue ignores it; a full one first drops its
    /// oldest line and counts the drop (the counter wraps, as an atomic
    /// counter does).
    pub fn push_line(&mut self, line: String)
        requires
            old(self).wf(),
        ensures
            final(self).wf(),
            final(self).capacity() == old(self).capacity(),
            final(self).is_closed() == old(self).is_closed(),
            old(self).is_closed() ==> final(self).lines() == old(self).lines()
                && final(self).dropped() == old(self).dropped(),
            !old(self).is_closed() ==> final(self).lines() == pushed_lines(
                old(self).lines(),
                old(self).capacity(),
                line,
            ),
            !old(self).is_closed() && push_drops(old(self).lines(), old(self).capacity())
                ==> final(self).dropped() == counted(old(self).dropped()),
            !(!old(self).is_closed() && push_drops(old(self).lines(), old(self).capacity()))
                ==> final(self).dropped() == old(self).dropped(),
            !old(self).is_closed() && push_drops(old(self).lines(), old(self).capacity())
                && old(self).dropped() < u64::MAX ==> final(self).dropped() == old(self).dropped()
                + 1,
            old(self).capacity() > 0 ==> final(self).lines().len() <= old(self).capacity(),
    {
        if self.closed {
            return;
        }
        if self.queue.len() >= self.capacity {
            let dropped = self.queue.pop_front();
            if dropped.is_some() {
                self.dropped_count = if self.dropped_count == u64::MAX {
                    0
                } else {
                    self.dropped_count + 1
                };
            }
        }
        self.queue.push_back(line);
    }

    /// Takes the oldest line, or `None` when the queue is empty.
    pub fn pop_line(&mut self) -> (r: Option<String>)
        requires
            old(self).wf(),
        ensures
            final(self).wf(),
            final(self).capacity() == old(self).capacity(),
            final(self).is_closed() == old(self).is_closed(),
            final(self).dropped() == old(self).dropped(),
            old(self).lines().len() == 0 ==> r.is_none() && final(self).lines() == old(
                self,
            ).lines(),
            old(self).lines().len() > 0 ==> r == Some(old(self).lines()[0]) && final(self).lines()
                == old(self).lines().drop_first(),
    {
        self.queue.pop_front()
    }

    /// Marks the queue closed: later pushes are ignored, waiting lines stay.
    pub fn close(&mut self)
        requires
            old(self).wf(),
        ensures
            final(self).wf(),
            final(self).is_closed(),
            final(self).lines() == old(self).lines(),
            final(self).capacity() == old(self).capacity(),
            final(self).dropped() == old(self).dropped(),
    {
        self.closed = true;
    }

    pub fn is_closed_now(&self) -> (r: bool)
        ensures
            r == self.is_closed(),
    {
        self.closed
    }

    pub fn len(&self) -> (r: usize)
        ensures
            r == self.lines().len(),
    {
        self.queue.len()
    }

    /// Takes the drop count for the next emitted frame event: `Some` with the
    /// drops since the last emission, or `None` when there were none.
    pub fn take_dropped_frame_count(&mut self) -> (r: Option<u64>)
        requires
            old(self).wf(),
        ensures
            final(self).wf(),
            old(self).dropped() == 0 ==> r.is_none(),
            old(self).dropped() > 0 ==> r == Some(old(self).dropped()),
            final(self).dropped() == 0,
            final(self).lines() == old(self).lines(),
            final(self).capacity() == old(self).capacity(),
            final(self).is_closed() == old(self).is_closed(),
    {
        let count = self.take_dropped_count();
        if count > 0 {
            Some(count)
        } else {
            None
        }
    }

    /// Returns the number of lines dropped since the last call and resets it.
    pub fn take_dropped_count(&mut self) -> (r: u64)
        requires
            old(self).wf(),
        ensures
            final(self).wf(),
            r == old(self).dropped(),
            final(self).dropped() == 0,
            final(self).lines() == old(self).lines(),
            final(self).capacity() == old(self).capacity(),
            final(self).is_closed() == old(self).is_closed(),
    {
        let r = self.dropped_count;
        self.dropped_count = 0;
        r
    }
}

} // verus!
