//! The voice-filter session: format checks, the order in which the DSP
//! stages run on a block, the start-up bypass of the gain control, and the
//! ring of echo reference samples.
//!
//! Samples are of a type `T` chosen by the caller; the arithmetic on them
//! (gain, suppression, subtraction, limiting) is done by the caller.
use std::collections::VecDeque;
use vstd::prelude::*;

verus! {

/// The one sample rate the voice filter runs at.
pub const VOICE_FILTER_SAMPLE_RATE: usize = 48000;

/// Frames per buffer when no suppression model sets a hop size.
pub const PASSTHROUGH_FRAMES_PER_BUFFER: usize = 960;

/// How long the gain control holds unity gain after the session starts.
pub const AGC_STARTUP_BYPASS_MS: u32 = 1500;

/// How much echo reference audio is kept, in milliseconds.
pub const ECHO_REFERENCE_MAX_BUFFER_MS: usize = 1200;

/// How far behind the newest reference audio the echo window ends.
pub const ECHO_REFERENCE_DELAY_MS: usize = 80;

/// Version of the frame formats that pushed frames may declare.
pub const VOICE_FILTER_PROTOCOL_VERSION: u32 = 1;

/// What the gain control does with one block.
#[derive(Debug, Clone, Copy, PartialEq, Eq, Structural)]
pub enum AgcStep {
    /// Gain control is off.
    Off,
    /// Still starting up: hold unity gain and leave the samples as they are.
    Bypass,
    /// Run the gain control on the block.
    Apply,
}

/// The stages to run, in order, on one accepted block.
#[derive(Debug, Clone, Copy, PartialEq, Eq, Structural)]
pub struct FramePlan {
    pub frame_count: usize,
    pub agc: AgcStep,
    pub suppress: bool,
    pub echo: bool,
    pub limiter: bool,
}

/// Blocks that the gain control holds unity gain for after a pause.
pub const AGC_POST_PAUSE_HOLD_BLOCKS: u32 = 20;

/// What the gain control steers toward on one block.
#[derive(Debug, Clone, Copy, PartialEq, Eq, Structural)]
pub enum AgcTarget {
    /// Recover toward unity gain (a pause, or just after one).
    Unity,
    /// Track the level of the block.
    Track,
}

/// The pause logic of the gain control: a quiet block restarts the hold
/// after a pause; while the hold lasts, each block uses one of it; both steer
/// toward unity. Once it has run out the gain tracks the level again.
pub fn agc_hold_step(hold_remaining: u32, is_pause: bool) -> (r: (u32, AgcTarget))
    ensures
        is_pause ==> r == (AGC_POST_PAUSE_HOLD_BLOCKS, AgcTarget::Unity),
        !is_pause && hold_remaining > 0 ==> r == ((hold_remaining - 1) as u32, AgcTarget::Unity),
        !is_pause && hold_remaining == 0 ==> r == (0u32, AgcTarget::Track),
{
    if is_pause {
        (AGC_POST_PAUSE_HOLD_BLOCKS, AgcTarget::Unity)
    } else if hold_remaining > 0 {
        (hold_remaining - 1, AgcTarget::Unity)
    } else {
        (0, AgcTarget::Track)
    }
}

/// Checks the format a voice-filter session is asked to start with: the
/// voice-filter rate and one or two channels.
pub fn check_voice_filter_start(sample_rate: usize, channels: usize) -> (r: Result<(), String>)
    ensures
        r.is_ok() <==> sample_rate == VOICE_FILTER_SAMPLE_RATE && 1 <= channels <= 2,
{
    if sample_rate != VOICE_FILTER_SAMPLE_RATE {
        return Err(String::from_str("DeepFilterNet currently supports only 48kHz input"));
    }
    if channels == 0 || channels > 2 {
        return Err(String::from_str("Unsupported voice filter channel count"));
    }
    Ok(())
}

/// One voice-filter session.
pub struct VoiceFilterSession<T> {
    session_id: String,
    sample_rate: usize,
    channels: usize,
    hop_size: Option<usize>,
    auto_gain_control: bool,
    agc_startup_bypass_ms_remaining: u32,
    echo_cancellation: bool,
    echo_reference: VecDeque<T>,
}

/// Buffers between arbitrary block sizes and the fixed hop size of the
/// suppression model. Both sides hold whole frames, interleaved.
pub struct HopBuffers<T> {
    channels: usize,
    hop_size: usize,
    input: VecDeque<T>,
    output: VecDeque<T>,
}

impl<T: Copy> HopBuffers<T> {
    pub closed spec fn channels(&self) -> nat {
        self.channels as nat
    }

    pub closed spec fn hop_size(&self) -> nat {
        self.hop_size as nat
    }

    /// Samples waiting for the model.
    pub closed spec fn input(&self) -> Seq<T> {
        self.input@
    }

    /// Processed samples waiting to be handed out.
    pub closed spec fn output(&self) -> Seq<T> {
        self.output@
    }

    pub closed spec fn wf(&self) -> bool {
        self.channels > 0 && self.hop_size > 0
    }

    /// Empty buffers for `channels` channels and a model hop of `hop_size`
    /// frames; `None` when either is zero.
    pub fn new(channels: usize, hop_size: usize) -> (r: Option<HopBuffers<T>>)
        ensures
            r.is_some() <==> channels > 0 && hop_size > 0,
            r.is_some() ==> {
                let b = r.unwrap();
                &&& b.wf()
                &&& b.channels() == channels
                &&& b.hop_size() == hop_size
                &&& b.input() == Seq::<T>::empty()
                &&& b.output() == Seq::<T>::empty()
            },
    {
        if channels == 0 || hop_size == 0 {
            None
        } else {
            Some(HopBuffers { channels, hop_size, input: VecDeque::new(), output: VecDeque::new() })
        }
    }

    /// Queues an interleaved block for the model.
    pub fn push_block(&mut self, samples: &[T])
        requires
            old(self).wf(),
        ensures
            final(self).wf(),
            final(self).input() == old(self).input() + samples@,
            final(self).output() == old(self).output(),
            final(self).channels() == old(self).channels(),
            final(self).hop_size() == old(self).hop_size(),
    {
        let ghost start = self.input@;
        let mut i: usize = 0;
        while i < samples.len()
            invariant
                i <= samples@.len(),
                self.input@ == start + samples@.subrange(0, i as int),
                start == old(self).input@,
                self.output == old(self).output,
                self.channels == old(self).channels,
                self.hop_size == old(self).hop_size,
            decreases samples@.len() - i,
        {
            self.input.push_back(samples[i]);
            i = i + 1;
            proof {
                assert(self.input@ =~= start + samples@.subrange(0, i as int));
            }
        }
        proof {
            assert(samples@.subrange(0, samples@.len() as int) =~= samples@);
        }
    }

    /// Takes one hop of frames (hop size times channels samples, interleaved)
    /// for the model, once that much is queued.
    pub fn take_hop(&mut self) -> (r: Option<Vec<T>>)
        requires
            old(self).wf(),
        ensures
            final(self).wf(),
            ({
                let n = old(self).hop_size() * old(self).channels();
                if old(self).input().len() >= n {
                    &&& r.is_some()
                    &&& r.unwrap()@ == old(self).input().subrange(0, n as int)
                    &&& final(self).input() == old(self).input().subrange(
                        n as int,
                        old(self).input().len() as int,
                    )
                } else {
                    r.is_none() && final(self).input() == old(self).input()
                }
            }),
            final(self).output() == old(self).output(),
            final(self).channels() == old(self).channels(),
            final(self).hop_size() == old(self).hop_size(),
    {
        let len = self.input.len();
        if self.hop_size > len / self.channels {
            proof {
                assert(self.hop_size * self.channels > len) by (nonlinear_arith)
                    requires
                        self.hop_size > len / self.channels,
                        self.channels > 0,
                ;
            }
            return None;
        }
        proof {
            assert(self.hop_size * self.channels <= len) by (nonlinear_arith)
                requires
                    self.hop_size <= len / self.channels,
                    self.channels > 0,
            ;
        }
        let n = self.hop_size * self.channels;
        let ghost start = self.input@;
        let mut hop: Vec<T> = Vec::new();
        while hop.len() < n
            invariant
                hop@.len() <= n,
                n <= start.len(),
                hop@ == start.subrange(0, hop@.len() as int),
                self.input@ == start.subrange(hop@.len() as int, start.len() as int),
                self.output == old(self).output,
                self.channels == old(self).channels,
                self.hop_size == old(self).hop_size,
            decreases n - hop@.len(),
        {
            let x = self.input.pop_front().unwrap();
            hop.push(x);
            proof {
                assert(hop@ =~= start.subrange(0, hop@.len() as int));
                assert(self.input@ =~= start.subrange(hop@.len() as int, start.len() as int));
            }
        }
        Some(hop)
    }

    /// Queues processed samples (interleaved) to be handed out.
    pub fn push_processed(&mut self, samples: &[T])
        requires
            old(self).wf(),
        ensures
            final(self).wf(),
            final(self).output() == old(self).output() + samples@,
            final(self).input() == old(self).input(),
            final(self).channels() == old(self).channels(),
            final(self).hop_size() == old(self).hop_size(),
    {
        let ghost start = self.output@;
        let mut i: usize = 0;
        while i < samples.len()
            invariant
                i <= samples@.len(),
                self.output@ == start + samples@.subrange(0, i as int),
                start == old(self).output@,
                self.input == old(self).input,
                self.channels == old(self).channels,
                self.hop_size == old(self).hop_size,
            decreases samples@.len() - i,
        {
            self.output.push_back(samples[i]);
            i = i + 1;
            proof {
                assert(self.output@ =~= start + samples@.subrange(0, i as int));
            }
        }
        proof {
            assert(samples@.subrange(0, samples@.len() as int) =~= samples@);
        }
    }

    /// Overwrites the block's frames, in order, with processed frames while
    /// any are queued; frames beyond what is queued are left as they are
    /// (the model's latency while it warms up).
    pub fn drain_into(&mut self, samples: &mut Vec<T>)
        requires
            old(self).wf(),
        ensures
            final(self).wf(),
            ({
                let ch = old(self).channels();
                let k = if old(samples)@.len() / ch <= old(self).output().len() / ch {
                    old(samples)@.len() / ch
                } else {
                    old(self).output().len() / ch
                };
                &&& final(samples)@ == old(self).output().subrange(0, (k * ch) as int) + old(
                    samples,
                )@.subrange((k * ch) as int, old(samples)@.len() as int)
                &&& final(self).output() == old(self).output().subrange(
                    (k * ch) as int,
                    old(self).output().len() as int,
                )
            }),
            final(self).input() == old(self).input(),
            final(self).channels() == old(self).channels(),
            final(self).hop_size() == old(self).hop_size(),
    {
        let ch = self.channels;
        let frames = samples.len() / ch;
        let avail = self.output.len() / ch;
        let k = if frames <= avail {
            frames
        } else {
            avail
        };
        proof {
            assert(k * ch <= samples@.len()) by (nonlinear_arith)
                requires
                    k <= samples@.len() / (ch as nat),
                    ch > 0,
            ;
            assert(k * ch <= self.output@.len()) by (nonlinear_arith)
                requires
                    k <= self.output@.len() / (ch as nat),
                    ch > 0,
            ;
        }
        let n = k * ch;
        let ghost out0 = self.output@;
        let ghost s0 = samples@;
        let mut i: usize = 0;
        while i < n
            invariant
                i <= n,
                n <= s0.len(),
                n <= out0.len(),
                samples@.len() == s0.len(),
                samples@ == out0.subrange(0, i as int) + s0.subrange(i as int, s0.len() as int),
                self.output@ == out0.subrange(i as int, out0.len() as int),
                self.input == old(self).input,
                self.channels == old(self).channels,
                self.hop_size == old(self).hop_size,
            decreases n - i,
        {
            let x = self.output.pop_front().unwrap();
            samples.set(i, x);
            i = i + 1;
            proof {
                assert(samples@ =~= out0.subrange(0, i as int) + s0.subrange(i as int, s0.len() as int));
                assert(self.output@ =~= out0.subrange(i as int, out0.len() as int));
            }
        }
    }
}


/// Reference samples kept at most, for a session of `channels` channels at
/// the voice-filter rate: 1.2 s of frames (at least 960), interleaved.
pub open spec fn echo_capacity(channels: nat) -> nat {
    57600 * channels
}

/// Reference samples between the end of the echo window and the newest
/// reference sample: 80 ms of frames, interleaved.
pub open spec fn echo_delay(channels: nat) -> nat {
    3840 * channels
}

/// The reference samples that a push appends: mono and stereo pass through
/// to a session of the same layout, and mono is doubled for a stereo session.
/// (Stereo into a mono session is mixed by the caller's function.)
pub open spec fn layout_converted<T>(input: Seq<T>, input_channels: nat, channels: nat) -> Seq<T> {
    if input_channels == 1 && channels == 2 {
        Seq::new(2 * input.len(), |i: int| input[i / 2])
    } else {
        input
    }
}

/// Whether `after` is the echo ring `ring` of a session with `channels`
/// channels once an accepted push of `input` (interleaved in
/// `input_channels` channels) is appended: an empty push, or one larger than
/// the ring, leaves it as it was; otherwise the converted samples are
/// appended (stereo pairs into a mono session as `mix` makes them) and only
/// the newest `echo_capacity` samples are kept.
pub open spec fn reference_pushed<T, F: Fn(T, T) -> T>(
    ring: Seq<T>,
    after: Seq<T>,
    input: Seq<T>,
    input_channels: nat,
    channels: nat,
    mix: F,
) -> bool {
    let cap = echo_capacity(channels);
    let incoming = input.len() / input_channels * channels;
    if input.len() == 0 || incoming > cap {
        after == ring
    } else if input_channels == 2 && channels == 1 {
        exists|added: Seq<T>|
            {
                &&& added.len() == input.len() / 2
                &&& forall|k: int|
                    0 <= k < added.len() ==> call_ensures(
                        mix,
                        (input[2 * k], input[2 * k + 1]),
                        #[trigger] added[k],
                    )
                &&& after == keep_last(ring + added, cap)
            }
    } else {
        after == keep_last(ring + layout_converted(input, input_channels, channels), cap)
    }
}

/// The last `cap` items of `s` (all of `s` when it is shorter).
pub open spec fn keep_last<T>(s: Seq<T>, cap: nat) -> Seq<T> {
    if s.len() > cap {
        s.subrange(s.len() - cap, s.len() as int)
    } else {
        s
    }
}

/// Milliseconds of start-up bypass that a block of `frame_count` frames uses
/// up: its duration at the voice-filter rate, at least 1.
pub open spec fn bypass_debit(frame_count: nat) -> nat {
    let ms = frame_count * 1000 / 48000;
    if ms < 1 {
        1
    } else if ms > u32::MAX {
        u32::MAX as nat
    } else {
        ms
    }
}

/// Whether a pushed block fits the session: same session id, a protocol
/// version of 1 if one is declared, the session's rate and channel count,
/// one or two channels, and `frame_count` frames of samples.
pub open spec fn frame_fits(
    id: Seq<char>,
    rate: usize,
    chans: usize,
    session_id: Seq<char>,
    sample_rate: usize,
    channels: usize,
    frame_count: usize,
    protocol_version: Option<u32>,
    sample_len: usize,
) -> bool {
    &&& session_id == id
    &&& (protocol_version.is_none() || protocol_version == Some(VOICE_FILTER_PROTOCOL_VERSION))
    &&& sample_rate == rate
    &&& channels == chans
    &&& 1 <= channels <= 2
    &&& frame_count * channels == sample_len
}

impl<T: Copy> VoiceFilterSession<T> {
    pub closed spec fn id(&self) -> String {
        self.session_id
    }

    pub closed spec fn sample_rate(&self) -> usize {
        self.sample_rate
    }

    pub closed spec fn channels(&self) -> usize {
        self.channels
    }

    /// The hop size of the suppression model, or `None` in pass-through mode.
    pub closed spec fn hop_size(&self) -> Option<usize> {
        self.hop_size
    }

    pub closed spec fn agc_enabled(&self) -> bool {
        self.auto_gain_control
    }

    pub closed spec fn bypass_ms(&self) -> u32 {
        self.agc_startup_bypass_ms_remaining
    }

    pub closed spec fn echo_enabled(&self) -> bool {
        self.echo_cancellation
    }

    /// The echo reference samples, oldest first, interleaved in the
    /// session's layout.
    pub closed spec fn echo_reference(&self) -> Seq<T> {
        self.echo_reference@
    }

    pub closed spec fn wf(&self) -> bool {
        &&& self.sample_rate == VOICE_FILTER_SAMPLE_RATE
        &&& 1 <= self.channels <= 2
        &&& self.echo_reference@.len() <= echo_capacity(self.channels as nat)
    }

    /// Starts a session; `hop_size` is that of the suppression model, or
    /// `None` for pass-through.
    pub fn create_voice_filter_session(
        session_id: String,
        sample_rate: usize,
        channels: usize,
        hop_size: Option<usize>,
        auto_gain_control: bool,
        echo_cancellation: bool,
    ) -> (r: Result<VoiceFilterSession<T>, String>)
        ensures
            r.is_ok() <==> sample_rate == VOICE_FILTER_SAMPLE_RATE && 1 <= channels <= 2,
            r.is_ok() ==> {
                let s = r.unwrap();
                &&& s.wf()
                &&& s.id() == session_id
                &&& s.sample_rate() == sample_rate
                &&& s.channels() == channels
                &&& s.hop_size() == hop_size
                &&& s.agc_enabled() == auto_gain_control
                &&& s.bypass_ms() == AGC_STARTUP_BYPASS_MS
                &&& s.echo_enabled() == echo_cancellation
                &&& s.echo_reference() == Seq::<T>::empty()
            },
    {
        match check_voice_filter_start(sample_rate, channels) {
            Err(e) => Err(e),
            Ok(()) => Ok(
                VoiceFilterSession {
                    session_id,
                    sample_rate,
                    channels,
                    hop_size,
                    auto_gain_control,
                    agc_startup_bypass_ms_remaining: AGC_STARTUP_BYPASS_MS,
                    echo_cancellation,
                    echo_reference: VecDeque::new(),
                },
            ),
        }
    }

    pub fn session_id(&self) -> (r: &String)
        ensures
            *r == self.id(),
    {
        &self.session_id
    }

    pub fn sample_rate_value(&self) -> (r: usize)
        ensures
            r == self.sample_rate(),
    {
        self.sample_rate
    }

    pub fn channel_count(&self) -> (r: usize)
        ensures
            r == self.channels(),
    {
        self.channels
    }

    pub fn model_hop_size(&self) -> (r: Option<usize>)
        ensures
            r == self.hop_size(),
    {
        self.hop_size
    }

    /// Accepts a pushed block of `sample_len` interleaved samples and says
    /// which stages to run on it: gain control (held at unity while starting
    /// up), then suppression, then echo subtraction, then the limiter after
    /// suppression. An empty block goes through untouched.
    pub fn accept_frame(
        &mut self,
        session_id: &str,
        sample_rate: usize,
        channels: usize,
        frame_count: usize,
        protocol_version: Option<u32>,
        sample_len: usize,
    ) -> (r: Result<FramePlan, String>)
        requires
            old(self).wf(),
        ensures
            final(self).wf(),
            r.is_ok() <==> frame_fits(
                old(self).id()@,
                old(self).sample_rate(),
                old(self).channels(),
                session_id@,
                sample_rate,
                channels,
                frame_count,
                protocol_version,
                sample_len,
            ),
            r.is_ok() ==> {
                let p = r.unwrap();
                let active = sample_len > 0;
                &&& p.frame_count == frame_count
                &&& p.frame_count == sample_len / channels
                &&& p.frame_count * channels == sample_len
                &&& p.agc == (if !active || !old(self).agc_enabled() {
                    AgcStep::Off
                } else if old(self).bypass_ms() > 0 {
                    AgcStep::Bypass
                } else {
                    AgcStep::Apply
                })
                &&& p.suppress == (active && old(self).hop_size().is_some())
                &&& p.echo == (active && old(self).echo_enabled())
                &&& p.limiter == (active && old(self).hop_size().is_some())
                &&& final(self).bypass_ms() == (if p.agc == AgcStep::Bypass {
                    if old(self).bypass_ms() > bypass_debit(frame_count as nat) {
                        (old(self).bypass_ms() - bypass_debit(frame_count as nat)) as u32
                    } else {
                        0
                    }
                } else {
                    old(self).bypass_ms()
                })
            },
            r.is_err() ==> final(self).bypass_ms() == old(self).bypass_ms(),
            final(self).id() == old(self).id(),
            final(self).sample_rate() == old(self).sample_rate(),
            final(self).channels() == old(self).channels(),
            final(self).hop_size() == old(self).hop_size(),
            final(self).agc_enabled() == old(self).agc_enabled(),
            final(self).echo_enabled() == old(self).echo_enabled(),
            final(self).echo_reference() == old(self).echo_reference(),
    {
        if !crate::keybind::text_is(self.session_id.as_str(), session_id) {
            return Err(String::from_str("Voice filter session mismatch"));
        }
        match protocol_version {
            Some(v) => {
                if v != VOICE_FILTER_PROTOCOL_VERSION {
                    return Err(String::from_str("Unsupported voice filter protocol version"));
                }
            },
            None => {},
        }
        if sample_rate != self.sample_rate {
            return Err(String::from_str("Voice filter sample rate mismatch"));
        }
        if channels != self.channels {
            return Err(String::from_str("Voice filter channel count mismatch"));
        }
        if channels == 0 || channels > 2 {
            return Err(String::from_str("Unsupported voice filter frame channel count"));
        }
        match frame_count.checked_mul(channels) {
            Some(n) => {
                if n != sample_len {
                    return Err(String::from_str("Voice filter frame sample count mismatch"));
                }
            },
            None => {
                return Err(String::from_str("Voice filter frame sample count mismatch"));
            },
        }
        proof {
            assert(sample_len / channels == frame_count) by (nonlinear_arith)
                requires
                    frame_count * channels == sample_len,
                    channels > 0,
            ;
        }
        let active = sample_len > 0;
        let agc = if !active || !self.auto_gain_control {
            AgcStep::Off
        } else if self.agc_startup_bypass_ms_remaining > 0 {
            let ms: u128 = (frame_count as u128) * 1000 / 48000;
            let debit: u32 = if ms < 1 {
                1
            } else if ms > 0xffff_ffff {
                0xffff_ffff
            } else {
                ms as u32
            };
            self.agc_startup_bypass_ms_remaining = self.agc_startup_bypass_ms_remaining.saturating_sub(
                debit,
            );
            AgcStep::Bypass
        } else {
            AgcStep::Apply
        };
        let neural = self.hop_size.is_some();
        Ok(
            FramePlan {
                frame_count,
                agc,
                suppress: active && neural,
                echo: active && self.echo_cancellation,
                limiter: active && neural,
            },
        )
    }

    /// Appends pushed reference samples (mono or stereo, interleaved) in the
    /// session's layout: passed through, mono doubled for a stereo session,
    /// or each stereo pair mixed by `mix` for a mono session. A push larger
    /// than the ring is dropped; after a push the oldest samples beyond the
    /// ring's capacity are trimmed.
    pub fn push_echo_reference_samples<F: Fn(T, T) -> T>(
        &mut self,
        input: &[T],
        input_channels: usize,
        mix: F,
    ) -> (r: Result<(), String>)
        requires
            old(self).wf(),
            forall|a: T, b: T| call_requires(mix, (a, b)),
        ensures
            final(self).wf(),
            r.is_ok() <==> 1 <= input_channels <= 2 && 1 <= old(self).channels() <= 2 && input@.len()
                % (input_channels as nat) == 0,
            r.is_err() ==> final(self).echo_reference() == old(self).echo_reference(),
            r.is_ok() ==> reference_pushed(
                old(self).echo_reference(),
                final(self).echo_reference(),
                input@,
                input_channels as nat,
                old(self).channels() as nat,
                mix,
            ),
            final(self).id() == old(self).id(),
            final(self).sample_rate() == old(self).sample_rate(),
            final(self).channels() == old(self).channels(),
            final(self).hop_size() == old(self).hop_size(),
            final(self).agc_enabled() == old(self).agc_enabled(),
            final(self).bypass_ms() == old(self).bypass_ms(),
            final(self).echo_enabled() == old(self).echo_enabled(),
    {
        if input_channels == 0 || input_channels > 2 {
            return Err(String::from_str("Unsupported reference frame channel count"));
        }
        if self.channels == 0 || self.channels > 2 {
            return Err(String::from_str("Unsupported voice filter session channel count"));
        }
        let len = input.len();
        if len == 0 {
            return Ok(());
        }
        if len % input_channels != 0 {
            return Err(String::from_str("Reference frame sample count mismatch"));
        }
        let frames = len / input_channels;
        let chans = self.channels;
        let cap: usize = 57600 * chans;
        if frames > cap / chans {
            proof {
                assert(frames * chans > cap) by (nonlinear_arith)
                    requires
                        frames > cap / chans,
                        chans > 0,
                ;
            }
            return Ok(());
        }
        proof {
            assert(frames * chans <= cap) by (nonlinear_arith)
                requires
                    frames <= cap / chans,
                    chans > 0,
            ;
        }
        let ghost start = self.echo_reference@;
        let ghost mut added: Seq<T> = Seq::empty();
        let mut f: usize = 0;
        while f < frames
            invariant
                f <= frames,
                frames == len / input_channels,
                len == input@.len(),
                1 <= input_channels <= 2,
                len % input_channels == 0,
                chans == self.channels,
                1 <= chans <= 2,
                forall|a: T, b: T| call_requires(mix, (a, b)),
                self.echo_reference@ == start + added,
                !(input_channels == 2 && chans == 1) ==> added == layout_converted(
                    input@,
                    input_channels as nat,
                    chans as nat,
                ).subrange(0, (f * chans) as int),
                input_channels == 2 && chans == 1 ==> added.len() == f && forall|k: int|
                    0 <= k < added.len() ==> call_ensures(
                        mix,
                        (input@[2 * k], input@[2 * k + 1]),
                        #[trigger] added[k],
                    ),
                self.session_id == old(self).session_id,
                self.sample_rate == old(self).sample_rate,
                self.hop_size == old(self).hop_size,
                self.auto_gain_control == old(self).auto_gain_control,
                self.agc_startup_bypass_ms_remaining == old(self).agc_startup_bypass_ms_remaining,
                self.echo_cancellation == old(self).echo_cancellation,
            decreases frames - f,
        {
            proof {
                assert(f * input_channels + input_channels <= len) by (nonlinear_arith)
                    requires
                        f < frames,
                        frames == len / input_channels,
                        len % input_channels == 0,
                        input_channels > 0,
                ;
            }
            let ghost conv = layout_converted(input@, input_channels as nat, chans as nat);
            if input_channels == chans {
                let base = f * chans;
                let mut c: usize = 0;
                while c < chans
                    invariant
                        c <= chans,
                        base == f * chans,
                        base + chans <= len,
                        input_channels == chans,
                        len == input@.len(),
                        self.echo_reference@ == start + added,
                        added == conv.subrange(0, base + c),
                        conv == input@,
                        self.session_id == old(self).session_id,
                        self.sample_rate == old(self).sample_rate,
                        self.channels == chans,
                        self.hop_size == old(self).hop_size,
                        self.auto_gain_control == old(self).auto_gain_control,
                        self.agc_startup_bypass_ms_remaining
                            == old(self).agc_startup_bypass_ms_remaining,
                        self.echo_cancellation == old(self).echo_cancellation,
                    decreases chans - c,
                {
                    let x = input[base + c];
                    self.echo_reference.push_back(x);
                    proof {
                        added = added.push(x);
                        assert(added =~= conv.subrange(0, base + c + 1));
                    }
                    c = c + 1;
                }
                proof {
                    assert((f + 1) * chans == base + chans) by (nonlinear_arith)
                        requires
                            base == f * chans,
                    ;
                }
            } else if input_channels == 1 {
                let x = input[f];
                self.echo_reference.push_back(x);
                self.echo_reference.push_back(x);
                proof {
                    assert(chans == 2);
                    assert(f * chans == 2 * f) by (nonlinear_arith)
                        requires
                            chans == 2,
                    ;
                    assert((2 * f) / 2 == f);
                    assert((2 * f + 1) / 2 == f);
                    assert(f < len);
                    assert(conv[2 * f as int] == x);
                    assert(conv[2 * f + 1] == x);
                    added = added.push(x).push(x);
                    assert(added =~= conv.subrange(0, (f * chans + 2) as int));
                    assert((f + 1) * chans == f * chans + 2) by (nonlinear_arith)
                        requires
                            chans == 2,
                    ;
                }
            } else {
                let left = input[2 * f];
                let right = input[2 * f + 1];
                let y = mix(left, right);
                self.echo_reference.push_back(y);
                proof {
                    added = added.push(y);
                }
            }
            f = f + 1;
        }
        proof {
            if !(input_channels == 2 && chans == 1) {
                let conv = layout_converted(input@, input_channels as nat, chans as nat);
                assert(conv.len() == frames * chans) by (nonlinear_arith)
                    requires
                        conv.len() == (if input_channels == 1 && chans == 2 {
                            2 * len
                        } else {
                            len as int
                        }),
                        frames == len / input_channels,
                        len % input_channels == 0,
                        1 <= input_channels <= 2,
                        1 <= chans <= 2,
                        !(input_channels == 2 && chans == 1),
                ;
                assert(added =~= conv);
            }
        }
        let ghost grown = self.echo_reference@;
        while self.echo_reference.len() > cap
            invariant
                cap == echo_capacity(chans as nat),
                grown.len() >= self.echo_reference@.len(),
                self.echo_reference@ == grown.subrange(
                    grown.len() - self.echo_reference@.len(),
                    grown.len() as int,
                ),
                self.echo_reference@.len() >= cap || self.echo_reference@ == grown,
                self.session_id == old(self).session_id,
                self.sample_rate == old(self).sample_rate,
                self.channels == chans,
                self.hop_size == old(self).hop_size,
                self.auto_gain_control == old(self).auto_gain_control,
                self.agc_startup_bypass_ms_remaining == old(self).agc_startup_bypass_ms_remaining,
                self.echo_cancellation == old(self).echo_cancellation,
            decreases self.echo_reference@.len(),
        {
            let _ = self.echo_reference.pop_front();
            proof {
                assert(self.echo_reference@ =~= grown.subrange(
                    grown.len() - self.echo_reference@.len(),
                    grown.len() as int,
                ));
            }
        }
        proof {
            if grown.len() <= cap {
                assert(self.echo_reference@ =~= grown);
            }
            assert(keep_last(grown, cap as nat) =~= self.echo_reference@);
            assert(grown == start + added);
            if input_channels == 2 && chans == 1 {
                let w = added;
                assert(w.len() == input@.len() / 2);
                assert(forall|k: int|
                    0 <= k < w.len() ==> call_ensures(
                        mix,
                        (input@[2 * k], input@[2 * k + 1]),
                        #[trigger] w[k],
                    ));
                assert(self.echo_reference@ == keep_last(old(self).echo_reference() + w, cap as nat));
            }
        }
        Ok(())
    }

    /// Checks a pushed reference block (same session id, a protocol version
    /// of 1 if one is declared, the session's rate, one or two channels and
    /// `frame_count` frames of samples) and appends it to the echo ring.
    pub fn accept_reference_frame<F: Fn(T, T) -> T>(
        &mut self,
        session_id: &str,
        sample_rate: usize,
        channels: usize,
        frame_count: usize,
        protocol_version: Option<u32>,
        samples: &[T],
        mix: F,
    ) -> (r: Result<(), String>)
        requires
            old(self).wf(),
            forall|a: T, b: T| call_requires(mix, (a, b)),
        ensures
            final(self).wf(),
            r.is_ok() <==> {
                &&& session_id@ == old(self).id()@
                &&& (protocol_version.is_none() || protocol_version == Some(
                    VOICE_FILTER_PROTOCOL_VERSION,
                ))
                &&& sample_rate == old(self).sample_rate()
                &&& 1 <= channels <= 2
                &&& frame_count * channels == samples@.len()
                &&& 1 <= old(self).channels() <= 2
            },
            r.is_err() ==> final(self).echo_reference() == old(self).echo_reference(),
            r.is_ok() ==> reference_pushed(
                old(self).echo_reference(),
                final(self).echo_reference(),
                samples@,
                channels as nat,
                old(self).channels() as nat,
                mix,
            ),
            final(self).id() == old(self).id(),
            final(self).sample_rate() == old(self).sample_rate(),
            final(self).channels() == old(self).channels(),
            final(self).hop_size() == old(self).hop_size(),
            final(self).agc_enabled() == old(self).agc_enabled(),
            final(self).bypass_ms() == old(self).bypass_ms(),
            final(self).echo_enabled() == old(self).echo_enabled(),
    {
        if !crate::keybind::text_is(self.session_id.as_str(), session_id) {
            return Err(String::from_str("Voice filter session mismatch"));
        }
        match protocol_version {
            Some(v) => {
                if v != VOICE_FILTER_PROTOCOL_VERSION {
                    return Err(String::from_str("Unsupported voice filter protocol version"));
                }
            },
            None => {},
        }
        if sample_rate != self.sample_rate {
            return Err(String::from_str("Voice filter sample rate mismatch"));
        }
        if channels == 0 || channels > 2 {
            return Err(String::from_str("Unsupported voice filter reference channel count"));
        }
        let sample_len = samples.len();
        match frame_count.checked_mul(channels) {
            Some(n) => {
                if n != sample_len {
                    return Err(
                        String::from_str("Voice filter reference frame sample count mismatch"),
                    );
                }
            },
            None => {
                return Err(String::from_str("Voice filter reference frame sample count mismatch"));
            },
        }
        proof {
            assert(samples@.len() % (channels as nat) == 0) by (nonlinear_arith)
                requires
                    frame_count * channels == samples@.len(),
                    channels > 0,
            ;
        }
        self.push_echo_reference_samples(samples, channels, mix)
    }

    /// The reference samples aligned with a block of `sample_len` samples:
    /// the `sample_len` samples that end 80 ms before the newest one, or
    /// `None` while not that much reference audio is buffered.
    pub fn get_echo_reference_window(&self, sample_len: usize) -> (r: Option<Vec<T>>)
        requires
            self.wf(),
        ensures
            ({
                let ring = self.echo_reference();
                let need = echo_delay(self.channels() as nat) + sample_len;
                if sample_len == 0 || ring.len() < need {
                    r.is_none()
                } else {
                    r.is_some() && r.unwrap()@ == ring.subrange(
                        ring.len() - need,
                        ring.len() - need + sample_len,
                    )
                }
            }),
    {
        if sample_len == 0 {
            return None;
        }
        let len = self.echo_reference.len();
        let chans = self.channels;
        if chans > len / 3840 {
            proof {
                assert(3840 * chans > len) by (nonlinear_arith)
                    requires
                        chans > len / 3840,
                ;
            }
            return None;
        }
        let delay = 3840 * chans;
        if len - delay < sample_len {
            return None;
        }
        let start = len - delay - sample_len;
        let mut out: Vec<T> = Vec::new();
        let mut i: usize = start;
        while i < start + sample_len
            invariant
                start <= i <= start + sample_len,
                start + sample_len <= len,
                len == self.echo_reference@.len(),
                out@ == self.echo_reference@.subrange(start as int, i as int),
            decreases start + sample_len - i,
        {
            out.push(self.echo_reference[i]);
            proof {
                assert(out@ =~= self.echo_reference@.subrange(start as int, i + 1));
            }
            i = i + 1;
        }
        Some(out)
    }

    /// Frames per buffer that callers should push: the model's hop size, or
    /// 960 in pass-through mode.
    pub fn voice_filter_frames_per_buffer(&self) -> (r: usize)
        ensures
            self.hop_size().is_some() ==> r == self.hop_size().unwrap(),
            self.hop_size().is_none() ==> r == PASSTHROUGH_FRAMES_PER_BUFFER,
    {
        match self.hop_size {
            Some(h) => h,
            None => PASSTHROUGH_FRAMES_PER_BUFFER,
        }
    }
}

/// The echo reference ring of a session never holds more than 1.2 s of
/// audio in the session's layout.
pub proof fn lemma_echo_ring_bounded<T: Copy>(s: &VoiceFilterSession<T>)
    requires
        s.wf(),
    ensures
        s.echo_reference().len() <= echo_capacity(s.channels() as nat),
{
}

} // verus!
