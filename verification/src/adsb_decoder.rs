//! The aircraft decoder: rate, counters and upkeep.

use vstd::prelude::*;

use crate::stream;
use crate::stream::StreamEvent;
use crate::stream::StreamStep;

verus! {

/// The rate that the demodulator works at.
pub const ADSB_RATE: u32 = 2_000_000;

/// How many samples of the source make one for the demodulator, at least one.
pub open spec fn thinning(sample_rate: nat, target: nat) -> nat {
    if sample_rate / target == 0 {
        1
    } else {
        sample_rate / target
    }
}

/// Decimation factor that brings `sample_rate` down to 2 Msps.
pub fn decimation_factor(sample_rate: u32) -> (r: usize)
    ensures
        r == thinning(sample_rate as nat, 2_000_000),
        r >= 1,
{
    let n: u32 = sample_rate / ADSB_RATE;
    if n == 0 {
        1
    } else {
        n as usize
    }
}

/// Whether no frames can be expected at this rate.
pub open spec fn rate_is_low_spec(sample_rate: u32) -> bool {
    sample_rate < 2_000_000
}

/// Whether no frames can be expected at this rate.
pub fn rate_is_low(sample_rate: u32) -> (r: bool)
    ensures
        r == rate_is_low_spec(sample_rate),
{
    sample_rate < ADSB_RATE
}

/// How many entries are true.
pub open spec fn count_true(s: Seq<bool>) -> nat
    decreases s.len(),
{
    if s.len() == 0 {
        0
    } else {
        count_true(s.drop_last()) + if s.last() {
            1nat
        } else {
            0
        }
    }
}

/// A counter after `n` more; it starts again at 0 behind its largest value.
pub open spec fn counted(count: u64, n: nat) -> u64 {
    ((count + n) % 0x1_0000_0000_0000_0000) as u64
}

proof fn lemma_counted(count: u64, n: nat, m: nat)
    ensures
        counted(counted(count, n), m) == counted(count, n + m),
{
    assert(((count + n) % 0x1_0000_0000_0000_0000 + m) % 0x1_0000_0000_0000_0000 == (count + n + m)
        % 0x1_0000_0000_0000_0000) by {
        vstd::arithmetic::div_mod::lemma_add_mod_noop(
            (count + n) as int,
            m as int,
            0x1_0000_0000_0000_0000,
        );
        vstd::arithmetic::div_mod::lemma_add_mod_noop(
            ((count + n) % 0x1_0000_0000_0000_0000) as int,
            m as int,
            0x1_0000_0000_0000_0000,
        );
    }
}

/// State of the decoder.
pub struct AdsbDecoder {
    pub running: bool,
    /// Frames whose checksum was right.
    pub frame_count: u64,
    /// Preambles detected, whatever became of the frame.
    pub preamble_count: u64,
    pub sample_rate: u32,
    /// Batches decoded.
    pub prune_counter: u32,
}

impl AdsbDecoder {
    pub fn start(sample_rate: u32) -> (d: AdsbDecoder)
        ensures
            d == (AdsbDecoder {
                running: true,
                frame_count: 0,
                preamble_count: 0,
                sample_rate,
                prune_counter: 0,
            }),
    {
        AdsbDecoder {
            running: true,
            frame_count: 0,
            preamble_count: 0,
            sample_rate,
            prune_counter: 0,
        }
    }

    /// Asks the worker to end: its next step is the last.
    pub fn stop(&mut self)
        ensures
            *final(self) == stopped(*old(self)),
    {
        self.running = false;
    }

    /// The worker's next step after a read of the stream. The decoder no longer runs once the
    /// worker is told to end.
    pub fn take_event(&mut self, event: StreamEvent) -> (step: StreamStep)
        ensures
            step == stream::step_of(old(self).running, event, false),
            *final(self) == after_event(*old(self), event),
            step == StreamStep::Exit ==> !final(self).running,
    {
        let step: StreamStep = stream::next_step(self.running, event, false);
        if step == StreamStep::Exit {
            self.running = false;
        }
        step
    }

    #[verifier::allow_in_spec]
    pub fn is_running(&self) -> bool
        returns
            self.running,
    {
        self.running
    }

    #[verifier::allow_in_spec]
    pub fn frames_decoded(&self) -> u64
        returns
            self.frame_count,
    {
        self.frame_count
    }

    #[verifier::allow_in_spec]
    pub fn preambles_detected(&self) -> u64
        returns
            self.preamble_count,
    {
        self.preamble_count
    }

    /// Counts the frames of a batch, each true when it could be decoded.
    pub fn count_frames(&mut self, decoded: &Vec<bool>)
        ensures
            *final(self) == with_frames(*old(self), decoded@),
    {
        self.preamble_count = self.preamble_count.wrapping_add(decoded.len() as u64);
        let mut i: usize = 0;
        let ghost start = self.frame_count;
        while i < decoded.len()
            invariant
                i <= decoded.len(),
                start == old(self).frame_count,
                self.frame_count == counted(start, count_true(decoded@.take(i as int))),
                *self == (AdsbDecoder {
                    preamble_count: counted(old(self).preamble_count, decoded@.len()),
                    frame_count: self.frame_count,
                    ..*old(self)
                }),
            decreases decoded.len() - i,
        {
            proof {
                assert(decoded@.take(i + 1).drop_last() =~= decoded@.take(i as int));
                lemma_counted(start, count_true(decoded@.take(i as int)), 1);
            }
            if decoded[i] {
                self.frame_count = self.frame_count.wrapping_add(1);
            }
            i += 1;
        }
        assert(decoded@.take(decoded@.len() as int) =~= decoded@);
    }

    /// Counts a batch; returns whether aircraft not heard of for long are to be dropped, which is
    /// so every 4096 batches.
    pub fn batch_done(&mut self) -> (prune: bool)
        ensures
            *final(self) == with_batch(*old(self)),
            prune == (final(self).prune_counter % 4096 == 0),
            prune == prunes(*final(self)),
    {
        self.prune_counter = self.prune_counter.wrapping_add(1);
        self.prune_counter % 4096 == 0
    }
}

/// The decoder after it was asked to end.
pub open spec fn stopped(d: AdsbDecoder) -> AdsbDecoder {
    AdsbDecoder { running: false, ..d }
}

/// The decoder after a read of the stream.
pub open spec fn after_event(d: AdsbDecoder, event: StreamEvent) -> AdsbDecoder {
    if stream::step_of(d.running, event, false) == StreamStep::Exit {
        stopped(d)
    } else {
        d
    }
}

/// The decoder with the frames of a batch counted.
pub open spec fn with_frames(d: AdsbDecoder, decoded: Seq<bool>) -> AdsbDecoder {
    AdsbDecoder {
        preamble_count: counted(d.preamble_count, decoded.len()),
        frame_count: counted(d.frame_count, count_true(decoded)),
        ..d
    }
}

/// The decoder with one more batch counted.
pub open spec fn with_batch(d: AdsbDecoder) -> AdsbDecoder {
    AdsbDecoder { prune_counter: ((d.prune_counter + 1) % 0x1_0000_0000) as u32, ..d }
}

/// Aircraft not heard of for long are dropped after the batch that was counted last.
pub open spec fn prunes(d: AdsbDecoder) -> bool {
    d.prune_counter % 4096 == 0
}

/// The decoder when its worker has met these events, each with what became of the frames of its
/// batch. The worker meets none after the one that ends it.
pub open spec fn worked(d: AdsbDecoder, events: Seq<(StreamEvent, Seq<bool>)>) -> AdsbDecoder
    decreases events.len(),
{
    if events.len() == 0 {
        d
    } else {
        let (event, decoded) = events[0];
        let next = after_event(d, event);
        match stream::step_of(d.running, event, false) {
            StreamStep::Exit => next,
            StreamStep::Decode => worked(
                with_batch(with_frames(next, decoded)),
                events.drop_first(),
            ),
            _ => worked(next, events.drop_first()),
        }
    }
}

/// A stopped decoder stays as it is, whatever its stream still holds: its worker ends at the first
/// event it meets, and nothing is counted any more. Stopping it again changes nothing.
pub proof fn law_stop_ends_the_worker(
    d: AdsbDecoder,
    event: StreamEvent,
    events: Seq<(StreamEvent, Seq<bool>)>,
)
    ensures
        !stopped(d).running,
        stopped(d).sample_rate == d.sample_rate,
        stopped(stopped(d)) == stopped(d),
        stream::step_of(stopped(d).running, event, false) == StreamStep::Exit,
        worked(stopped(d), events) == stopped(d),
{
}

/// A decoder whose stream is closed no longer runs, and its worker ends there.
pub proof fn law_closed_stream_ends_the_worker(
    d: AdsbDecoder,
    decoded: Seq<bool>,
    rest: Seq<(StreamEvent, Seq<bool>)>,
)
    ensures
        stream::step_of(d.running, StreamEvent::Closed, false) == StreamStep::Exit,
        worked(d, seq![(StreamEvent::Closed, decoded)] + rest) == stopped(d),
{
    let events = seq![(StreamEvent::Closed, decoded)] + rest;
    assert(events[0] == (StreamEvent::Closed, decoded));
}

/// What is decoded was detected: the count of decoded frames grows by no more than that of
/// preambles, as long as neither has started again at 0.
pub proof fn law_frames_within_preambles(frames: u64, preambles: u64, decoded: Seq<bool>)
    requires
        frames <= preambles,
        preambles + decoded.len() <= u64::MAX,
    ensures
        counted(frames, count_true(decoded)) <= counted(preambles, decoded.len()),
{
    lemma_count_true(decoded);
    vstd::arithmetic::div_mod::lemma_small_mod(
        (frames + count_true(decoded)) as nat,
        0x1_0000_0000_0000_0000,
    );
    vstd::arithmetic::div_mod::lemma_small_mod(
        (preambles + decoded.len()) as nat,
        0x1_0000_0000_0000_0000,
    );
}

proof fn lemma_count_true(s: Seq<bool>)
    ensures
        count_true(s) <= s.len(),
    decreases s.len(),
{
    if s.len() > 0 {
        lemma_count_true(s.drop_last());
    }
}

/// Thinning by the factor brings the sample rate down to the target and leaves it less than twice
/// as high, for any rate from the target on; a lower rate is left as it is.
pub proof fn law_thinning_reaches_the_target(rate: nat, target: nat)
    requires
        target >= 1,
    ensures
        thinning(rate, target) >= 1,
        rate >= target ==> thinning(rate, target) * target <= rate,
        rate < (thinning(rate, target) + 1) * target,
        rate < target ==> thinning(rate, target) == 1,
{
    let q = rate / target;
    vstd::arithmetic::div_mod::lemma_fundamental_div_mod(rate as int, target as int);
    assert(target * q == q * target) by (nonlinear_arith);
    assert((q + 1) * target == q * target + target) by (nonlinear_arith);
    if q == 0 {
        assert((1 + 1) * target >= target) by (nonlinear_arith)
            requires
                target >= 1,
        ;
    }
    if rate < target {
        vstd::arithmetic::div_mod::lemma_basic_div(rate as int, target as int);
    }
    if rate >= target && q == 0 {
        assert(q * target == 0) by (nonlinear_arith)
            requires
                q == 0,
        ;
    }
}

/// Aircraft frames need 2 MS/s: below, the warning is on.
pub proof fn law_low_rate(rate: u32)
    ensures
        rate_is_low_spec(rate) <==> rate <= 1_999_999,
{
}

/// Each batch adds its preambles and, of them, the frames that could be decoded, and counts itself;
/// old aircraft are dropped once in every 4096 batches.
pub proof fn law_batches_are_counted(d: AdsbDecoder, decoded: Seq<bool>)
    requires
        d.preamble_count + decoded.len() <= u64::MAX,
        d.frame_count + decoded.len() <= u64::MAX,
    ensures
        ({
            let n = with_batch(with_frames(d, decoded));
            &&& n.preamble_count == d.preamble_count + decoded.len()
            &&& d.frame_count <= n.frame_count <= d.frame_count + decoded.len()
            &&& (forall|i: int| 0 <= i < decoded.len() ==> decoded[i]) ==> n.frame_count
                == d.frame_count + decoded.len()
            &&& (forall|i: int| 0 <= i < decoded.len() ==> !decoded[i]) ==> n.frame_count
                == d.frame_count
            &&& n.running == d.running && n.sample_rate == d.sample_rate
            &&& d.prune_counter < u32::MAX ==> n.prune_counter == d.prune_counter + 1
            &&& d.prune_counter == u32::MAX ==> n.prune_counter == 0
            &&& prunes(n) <==> d.prune_counter % 4096 == 4095
        }),
{
    lemma_count_true(decoded);
    lemma_count_uniform(decoded);
    let n = with_batch(with_frames(d, decoded));
    assert(n.preamble_count == d.preamble_count + decoded.len());
    assert(n.frame_count == d.frame_count + count_true(decoded));
}

proof fn lemma_count_uniform(s: Seq<bool>)
    ensures
        (forall|i: int| 0 <= i < s.len() ==> s[i]) ==> count_true(s) == s.len(),
        (forall|i: int| 0 <= i < s.len() ==> !s[i]) ==> count_true(s) == 0,
    decreases s.len(),
{
    if s.len() > 0 {
        lemma_count_uniform(s.drop_last());
    }
}

/// A counter adds what it is given and starts again at 0 behind its largest value.
pub proof fn law_counters_wrap(count: u64, n: nat)
    ensures
        count + n <= u64::MAX ==> counted(count, n) == count + n,
        u64::MAX < count + n <= 2 * u64::MAX ==> counted(count, n) == count + n - u64::MAX - 1,
{
}

} // verus!
