//! The decisions of a loopback capture session: when to stop, when to probe
//! the target process, how captured bytes become numbered frames, and the
//! single terminal outcome.
use crate::wire::copy_range;
use std::collections::VecDeque;
use vstd::prelude::*;

verus! {

/// Frames per loopback frame.
pub const FRAME_SIZE: usize = 960;

/// Channels of loopback audio.
pub const TARGET_CHANNELS: usize = 2;

/// Sample rate of loopback audio.
pub const TARGET_SAMPLE_RATE: u32 = 48000;

/// Bytes in one loopback frame: 960 stereo frames of 4-byte samples.
pub const LOOPBACK_FRAME_BYTES: usize = 7680;

/// Least time between two probes of the target process.
pub const LIVENESS_PROBE_INTERVAL_MS: u64 = 300;

/// Why a capture session ended.
#[derive(Debug, Clone, Copy, PartialEq, Eq, Structural)]
pub enum CaptureEndReason {
    CaptureStopped,
    AppExited,
    CaptureError,
    DeviceLost,
}

pub open spec fn reason_name(r: CaptureEndReason) -> Seq<char> {
    match r {
        CaptureEndReason::CaptureStopped => "capture_stopped"@,
        CaptureEndReason::AppExited => "app_exited"@,
        CaptureEndReason::CaptureError => "capture_error"@,
        CaptureEndReason::DeviceLost => "device_lost"@,
    }
}

impl CaptureEndReason {
    /// The reason as it appears in the `audio_capture.ended` event.
    pub fn as_str(self) -> (r: &'static str)
        ensures
            r@ == reason_name(self),
    {
        match self {
            CaptureEndReason::CaptureStopped => "capture_stopped",
            CaptureEndReason::AppExited => "app_exited",
            CaptureEndReason::CaptureError => "capture_error",
            CaptureEndReason::DeviceLost => "device_lost",
        }
    }
}

/// How a capture session ended, with an error message for capture errors.
pub struct CaptureOutcome {
    pub reason: CaptureEndReason,
    pub error: Option<String>,
}

impl CaptureOutcome {
    pub fn from_reason(reason: CaptureEndReason) -> (r: CaptureOutcome)
        ensures
            r.reason == reason,
            r.error.is_none(),
    {
        CaptureOutcome { reason, error: None }
    }

    pub fn capture_error(error: String) -> (r: CaptureOutcome)
        ensures
            r.reason == CaptureEndReason::CaptureError,
            r.error == Some(error),
    {
        CaptureOutcome { reason: CaptureEndReason::CaptureError, error: Some(error) }
    }
}

/// What the capture worker does next.
#[derive(Debug, Clone, Copy, PartialEq, Eq, Structural)]
pub enum LoopbackAction {
    /// Stop the platform client and end the session for this reason.
    Stop(CaptureEndReason),
    /// Ask whether the target process is still alive.
    ProbeLiveness,
    /// Read the next packets from the platform client.
    ReadPacket,
}

/// State of one loopback capture session.
pub struct LoopbackCapture {
    next_sequence: u64,
    last_liveness_check_ms: u64,
    pending: Vec<u8>,
    ended: bool,
    /// Sequence numbers handed out so far, in order.
    emitted: Ghost<Seq<u64>>,
    /// Terminal outcomes handed out so far.
    ended_events: Ghost<nat>,
}

impl LoopbackCapture {
    pub closed spec fn next_sequence(&self) -> u64 {
        self.next_sequence
    }

    pub closed spec fn last_probe_ms(&self) -> u64 {
        self.last_liveness_check_ms
    }

    /// Captured bytes not yet handed out as a frame.
    pub closed spec fn pending(&self) -> Seq<u8> {
        self.pending@
    }

    pub closed spec fn has_ended(&self) -> bool {
        self.ended
    }

    /// Sequence numbers of the frames handed out so far, in order.
    pub closed spec fn emitted(&self) -> Seq<u64> {
        self.emitted@
    }

    /// Number of terminal outcomes handed out so far.
    pub closed spec fn ended_events(&self) -> nat {
        self.ended_events@
    }

    pub closed spec fn wf(&self) -> bool {
        &&& self.emitted@.len() == self.next_sequence
        &&& forall|i: int| 0 <= i < self.emitted@.len() ==> #[trigger] self.emitted@[i] == i
        &&& self.ended_events@ == (if self.ended {
            1nat
        } else {
            0nat
        })
    }

    /// A session that started at `now_ms`.
    pub fn new(now_ms: u64) -> (r: LoopbackCapture)
        ensures
            r.wf(),
            r.next_sequence() == 0,
            r.last_probe_ms() == now_ms,
            r.pending() == Seq::<u8>::empty(),
            !r.has_ended(),
            r.emitted() == Seq::<u64>::empty(),
            r.ended_events() == 0,
    {
        LoopbackCapture {
            next_sequence: 0,
            last_liveness_check_ms: now_ms,
            pending: Vec::new(),
            ended: false,
            emitted: Ghost(Seq::empty()),
            ended_events: Ghost(0),
        }
    }

    /// Decides the next step: stop when asked to, probe the target when the
    /// last probe is at least the probe interval old, else read packets.
    pub fn next_action(&self, now_ms: u64, stop_requested: bool) -> (r: LoopbackAction)
        ensures
            stop_requested ==> r == LoopbackAction::Stop(CaptureEndReason::CaptureStopped),
            !stop_requested && now_ms >= self.last_probe_ms() + LIVENESS_PROBE_INTERVAL_MS ==> r
                == LoopbackAction::ProbeLiveness,
            !stop_requested && now_ms < self.last_probe_ms() + LIVENESS_PROBE_INTERVAL_MS ==> r
                == LoopbackAction::ReadPacket,
    {
        if stop_requested {
            LoopbackAction::Stop(CaptureEndReason::CaptureStopped)
        } else if now_ms >= self.last_liveness_check_ms && now_ms - self.last_liveness_check_ms
            >= LIVENESS_PROBE_INTERVAL_MS {
            LoopbackAction::ProbeLiveness
        } else {
            LoopbackAction::ReadPacket
        }
    }

    /// Takes the answer of a liveness probe made at `now_ms`: a dead target
    /// ends the session with `AppExited`; a live one restarts the interval.
    pub fn liveness_probed(&mut self, now_ms: u64, alive: bool) -> (r: Option<CaptureEndReason>)
        requires
            old(self).wf(),
        ensures
            final(self).wf(),
            alive ==> r.is_none() && final(self).last_probe_ms() == now_ms,
            !alive ==> r == Some(CaptureEndReason::AppExited) && final(self).last_probe_ms() == old(
                self,
            ).last_probe_ms(),
            final(self).next_sequence() == old(self).next_sequence(),
            final(self).pending() == old(self).pending(),
            final(self).has_ended() == old(self).has_ended(),
            final(self).emitted() == old(self).emitted(),
            final(self).ended_events() == old(self).ended_events(),
    {
        if alive {
            self.last_liveness_check_ms = now_ms;
            None
        } else {
            Some(CaptureEndReason::AppExited)
        }
    }

    /// Appends captured sample bytes.
    pub fn push_captured(&mut self, bytes: &[u8])
        requires
            old(self).wf(),
        ensures
            final(self).wf(),
            final(self).pending() == old(self).pending() + bytes@,
            final(self).next_sequence() == old(self).next_sequence(),
            final(self).last_probe_ms() == old(self).last_probe_ms(),
            final(self).has_ended() == old(self).has_ended(),
            final(self).emitted() == old(self).emitted(),
            final(self).ended_events() == old(self).ended_events(),
    {
        crate::wire::append_bytes(&mut self.pending, bytes);
    }

    /// Appends `sample_count` silent samples (a packet flagged silent).
    pub fn push_silence(&mut self, sample_count: usize)
        requires
            old(self).wf(),
        ensures
            final(self).wf(),
            final(self).pending() == old(self).pending() + Seq::new(
                (4 * sample_count) as nat,
                |i: int| 0u8,
            ),
            final(self).next_sequence() == old(self).next_sequence(),
            final(self).last_probe_ms() == old(self).last_probe_ms(),
            final(self).has_ended() == old(self).has_ended(),
            final(self).emitted() == old(self).emitted(),
            final(self).ended_events() == old(self).ended_events(),
    {
        let ghost start = self.pending@;
        let mut k: usize = 0;
        while k < sample_count
            invariant
                k <= sample_count,
                self.pending@ == start + Seq::new((4 * k) as nat, |i: int| 0u8),
                self.wf(),
                self.next_sequence == old(self).next_sequence,
                self.last_liveness_check_ms == old(self).last_liveness_check_ms,
                self.ended == old(self).ended,
                self.emitted == old(self).emitted,
                self.ended_events == old(self).ended_events,
                start == old(self).pending@,
            decreases sample_count - k,
        {
            self.pending.push(0);
            self.pending.push(0);
            self.pending.push(0);
            self.pending.push(0);
            k = k + 1;
            proof {
                assert(self.pending@ =~= start + Seq::new((4 * k) as nat, |i: int| 0u8));
            }
        }
    }

    /// Hands out the next whole frame of pending bytes with its sequence
    /// number. Nothing comes out once the session has ended, while less than
    /// a frame is pending, or when the sequence numbers are used up.
    pub fn next_frame(&mut self) -> (r: Option<(u64, Vec<u8>)>)
        requires
            old(self).wf(),
        ensures
            final(self).wf(),
            r.is_some() <==> !old(self).has_ended() && old(self).pending().len()
                >= LOOPBACK_FRAME_BYTES && old(self).next_sequence() < u64::MAX,
            r.is_some() ==> {
                &&& r.unwrap().0 == old(self).next_sequence()
                &&& r.unwrap().1@ == old(self).pending().subrange(0, LOOPBACK_FRAME_BYTES as int)
                &&& final(self).pending() == old(self).pending().subrange(
                    LOOPBACK_FRAME_BYTES as int,
                    old(self).pending().len() as int,
                )
                &&& final(self).next_sequence() == old(self).next_sequence() + 1
                &&& final(self).emitted() == old(self).emitted().push(r.unwrap().0)
            },
            r.is_none() ==> final(self).pending() == old(self).pending() && final(self).next_sequence()
                == old(self).next_sequence() && final(self).emitted() == old(self).emitted(),
            final(self).last_probe_ms() == old(self).last_probe_ms(),
            final(self).has_ended() == old(self).has_ended(),
            final(self).ended_events() == old(self).ended_events(),
    {
        if self.ended || self.pending.len() < LOOPBACK_FRAME_BYTES || self.next_sequence == u64::MAX {
            return None;
        }
        let len = self.pending.len();
        let frame = copy_range(self.pending.as_slice(), 0, LOOPBACK_FRAME_BYTES);
        let rest = copy_range(self.pending.as_slice(), LOOPBACK_FRAME_BYTES, len);
        self.pending = rest;
        let sequence = self.next_sequence;
        self.next_sequence = self.next_sequence + 1;
        self.emitted = Ghost(self.emitted@.push(sequence));
        Some((sequence, frame))
    }

    /// Ends the session. The first call hands back the outcome to report;
    /// every later call hands back `None`.
    pub fn finish(&mut self, outcome: CaptureOutcome) -> (r: Option<CaptureOutcome>)
        requires
            old(self).wf(),
        ensures
            final(self).wf(),
            final(self).has_ended(),
            !old(self).has_ended() ==> r == Some(outcome),
            old(self).has_ended() ==> r.is_none(),
            final(self).pending() == old(self).pending(),
            final(self).next_sequence() == old(self).next_sequence(),
            final(self).last_probe_ms() == old(self).last_probe_ms(),
            final(self).emitted() == old(self).emitted(),
    {
        if self.ended {
            None
        } else {
            self.ended = true;
            self.ended_events = Ghost(1);
            Some(outcome)
        }
    }
}

/// Splits captured samples into numbered blocks of a fixed length, as the
/// microphone capture worker hands them to the voice filter.
pub struct FrameBlocks<T> {
    block_len: usize,
    pending: VecDeque<T>,
    next_sequence: u64,
    /// Sequence numbers handed out so far, in order.
    emitted: Ghost<Seq<u64>>,
}

impl<T: Copy> FrameBlocks<T> {
    pub closed spec fn block_len(&self) -> nat {
        self.block_len as nat
    }

    pub closed spec fn pending(&self) -> Seq<T> {
        self.pending@
    }

    pub closed spec fn next_sequence(&self) -> u64 {
        self.next_sequence
    }

    pub closed spec fn emitted(&self) -> Seq<u64> {
        self.emitted@
    }

    pub closed spec fn wf(&self) -> bool {
        &&& self.block_len > 0
        &&& self.emitted@.len() == self.next_sequence
        &&& forall|i: int| 0 <= i < self.emitted@.len() ==> #[trigger] self.emitted@[i] == i
    }

    /// Blocks of `block_len` samples; `None` for a length of zero.
    pub fn new(block_len: usize) -> (r: Option<FrameBlocks<T>>)
        ensures
            r.is_some() <==> block_len > 0,
            r.is_some() ==> {
                let b = r.unwrap();
                &&& b.wf()
                &&& b.block_len() == block_len
                &&& b.pending() == Seq::<T>::empty()
                &&& b.next_sequence() == 0
            },
    {
        if block_len == 0 {
            None
        } else {
            Some(
                FrameBlocks {
                    block_len,
                    pending: VecDeque::new(),
                    next_sequence: 0,
                    emitted: Ghost(Seq::empty()),
                },
            )
        }
    }

    /// Appends captured samples.
    pub fn push(&mut self, samples: &[T])
        requires
            old(self).wf(),
        ensures
            final(self).wf(),
            final(self).pending() == old(self).pending() + samples@,
            final(self).block_len() == old(self).block_len(),
            final(self).next_sequence() == old(self).next_sequence(),
            final(self).emitted() == old(self).emitted(),
    {
        let ghost start = self.pending@;
        let mut i: usize = 0;
        while i < samples.len()
            invariant
                i <= samples@.len(),
                self.pending@ == start + samples@.subrange(0, i as int),
                start == old(self).pending@,
                self.block_len == old(self).block_len,
                self.next_sequence == old(self).next_sequence,
                self.emitted == old(self).emitted,
                self.wf(),
            decreases samples@.len() - i,
        {
            self.pending.push_back(samples[i]);
            i = i + 1;
            proof {
                assert(self.pending@ =~= start + samples@.subrange(0, i as int));
            }
        }
        proof {
            assert(samples@.subrange(0, samples@.len() as int) =~= samples@);
        }
    }

    /// Hands out the next whole block with its sequence number, while a
    /// block is pending and sequence numbers remain.
    pub fn next_block(&mut self) -> (r: Option<(u64, Vec<T>)>)
        requires
            old(self).wf(),
        ensures
            final(self).wf(),
            r.is_some() <==> old(self).pending().len() >= old(self).block_len()
                && old(self).next_sequence() < u64::MAX,
            r.is_some() ==> {
                &&& r.unwrap().0 == old(self).next_sequence()
                &&& r.unwrap().1@ == old(self).pending().subrange(0, old(self).block_len() as int)
                &&& final(self).pending() == old(self).pending().subrange(
                    old(self).block_len() as int,
                    old(self).pending().len() as int,
                )
                &&& final(self).next_sequence() == old(self).next_sequence() + 1
                &&& final(self).emitted() == old(self).emitted().push(r.unwrap().0)
            },
            r.is_none() ==> final(self).pending() == old(self).pending() && final(self).next_sequence()
                == old(self).next_sequence() && final(self).emitted() == old(self).emitted(),
            final(self).block_len() == old(self).block_len(),
    {
        if self.pending.len() < self.block_len || self.next_sequence == u64::MAX {
            return None;
        }
        let ghost start = self.pending@;
        let n = self.block_len;
        let mut block: Vec<T> = Vec::new();
        while block.len() < n
            invariant
                block@.len() <= n,
                n == self.block_len,
                n <= start.len(),
                block@ == start.subrange(0, block@.len() as int),
                self.pending@ == start.subrange(block@.len() as int, start.len() as int),
                self.next_sequence == old(self).next_sequence,
                self.emitted == old(self).emitted,
                self.block_len == old(self).block_len,
            decreases n - block@.len(),
        {
            let x = self.pending.pop_front().unwrap();
            block.push(x);
            proof {
                assert(block@ =~= start.subrange(0, block@.len() as int));
                assert(self.pending@ =~= start.subrange(block@.len() as int, start.len() as int));
            }
        }
        let sequence = self.next_sequence;
        self.next_sequence = self.next_sequence + 1;
        self.emitted = Ghost(self.emitted@.push(sequence));
        Some((sequence, block))
    }
}

/// The blocks handed out carry the sequence numbers 0, 1, 2, ... in order.
pub proof fn lemma_block_sequences_consecutive<T: Copy>(b: &FrameBlocks<T>)
    requires
        b.wf(),
    ensures
        b.emitted().len() == b.next_sequence(),
        forall|i: int| 0 <= i < b.emitted().len() ==> #[trigger] b.emitted()[i] == i,
{
}

/// Whether a stop command naming `requested` (or no session) applies to the
/// active session `active`.
pub fn stop_applies_to(active: &str, requested: Option<&str>) -> (r: bool)
    ensures
        requested.is_none() ==> r,
        requested.is_some() ==> r == (requested.unwrap()@ == active@),
{
    match requested {
        None => true,
        Some(id) => crate::keybind::text_is(id, active),
    }
}

/// The frames of a session carry the sequence numbers 0, 1, 2, ... in
/// order, with no gap and no repeat.
pub proof fn lemma_sequences_consecutive(c: &LoopbackCapture)
    requires
        c.wf(),
    ensures
        c.emitted().len() == c.next_sequence(),
        forall|i: int| 0 <= i < c.emitted().len() ==> #[trigger] c.emitted()[i] == i,
        forall|i: int, j: int|
            0 <= i < j < c.emitted().len() ==> #[trigger] c.emitted()[i] < #[trigger] c.emitted()[j],
{
}

/// A session hands out at most one terminal outcome, and none before it has
/// ended.
pub proof fn lemma_single_terminal_outcome(c: &LoopbackCapture)
    requires
        c.wf(),
    ensures
        c.ended_events() <= 1,
        c.ended_events() == 1 <==> c.has_ended(),
{
}

} // verus!
