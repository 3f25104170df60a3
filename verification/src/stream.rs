//! Steps of the decoder threads that read the sample stream.

use vstd::prelude::*;

verus! {

/// A sample with its two components.
pub struct IqSample<T> {
    pub re: T,
    pub im: T,
}

/// What a read of the stream gives.
#[derive(Clone, Copy, PartialEq, Eq, Structural, Debug)]
pub enum StreamEvent {
    /// A batch of samples.
    Batch,
    /// No samples yet.
    Empty,
    /// So many batches were lost.
    Lagged(u64),
    /// The sender is gone.
    Closed,
}

/// What a decoder thread does next.
#[derive(Clone, Copy, PartialEq, Eq, Structural, Debug)]
pub enum StreamStep {
    /// Decodes the batch.
    Decode,
    /// Sleeps so many milliseconds.
    Sleep(u64),
    /// Forgets the state of the demodulator.
    Reset,
    /// Reads on.
    Continue,
    /// Ends.
    Exit,
}

/// The step of a decoder: one that no longer runs ends, and so does one whose stream is closed; one
/// that `resets` starts afresh after lost batches.
pub open spec fn step_of(running: bool, event: StreamEvent, resets: bool) -> StreamStep {
    if !running {
        StreamStep::Exit
    } else {
        match event {
            StreamEvent::Batch => StreamStep::Decode,
            StreamEvent::Empty => StreamStep::Sleep(1),
            StreamEvent::Lagged(_) => if resets {
                StreamStep::Reset
            } else {
                StreamStep::Continue
            },
            StreamEvent::Closed => StreamStep::Exit,
        }
    }
}

pub fn next_step(running: bool, event: StreamEvent, resets: bool) -> (r: StreamStep)
    ensures
        r == step_of(running, event, resets),
{
    if !running {
        return StreamStep::Exit;
    }
    match event {
        StreamEvent::Batch => StreamStep::Decode,
        StreamEvent::Empty => StreamStep::Sleep(1),
        StreamEvent::Lagged(_) => if resets {
            StreamStep::Reset
        } else {
            StreamStep::Continue
        },
        StreamEvent::Closed => StreamStep::Exit,
    }
}

/// How many of `len` samples are kept when only every `step`-th is.
pub open spec fn kept(len: nat, step: nat) -> nat {
    (len + step - 1) as nat / step
}

/// The pair at `k` in `r` holds the components of sample `k * step` of `batch`.
pub open spec fn is_pair<T>(r: Seq<T>, batch: Seq<IqSample<T>>, step: nat, k: int) -> bool {
    &&& 0 <= k * step < batch.len()
    &&& r[2 * k] == batch[k * step].re
    &&& r[2 * k + 1] == batch[k * step].im
}

/// `r` holds the components of every `step`-th sample of `batch`, one after the other.
pub open spec fn is_thinned<T>(r: Seq<T>, batch: Seq<IqSample<T>>, step: nat) -> bool {
    &&& r.len() == 2 * kept(batch.len(), step)
    &&& forall|k: int|
        0 <= k < kept(batch.len(), step) ==> #[trigger] is_pair(r, batch, step, k)
}

proof fn lemma_kept(len: nat, step: nat, k: nat)
    requires
        step >= 1,
    ensures
        k < kept(len, step) <==> k * step < len,
{
    let q = kept(len, step);
    vstd::arithmetic::div_mod::lemma_fundamental_div_mod(
        (len + step - 1) as int,
        step as int,
    );
    let r = ((len + step - 1) as nat % step) as int;
    assert(k < q <==> k * step < len) by (nonlinear_arith)
        requires
            len + step - 1 == step * q + r,
            0 <= r < step,
            k >= 0,
    ;
}

/// The components of every `step`-th sample, one after the other.
pub fn interleave<T: Copy>(batch: &[IqSample<T>], step: usize) -> (r: Vec<T>)
    requires
        step >= 1,
    ensures
        is_thinned(r@, batch@, step as nat),
{
    let mut r: Vec<T> = Vec::new();
    let mut i: usize = 0;
    let ghost mut n: nat = 0;
    proof {
        lemma_kept(batch@.len(), step as nat, 0);
    }
    while i < batch.len()
        invariant
            step >= 1,
            i == n * step || (i == batch.len() && n * step >= batch.len()),
            i <= batch.len(),
            r@.len() == 2 * n,
            n <= kept(batch@.len(), step as nat),
            i < batch.len() ==> n < kept(batch@.len(), step as nat),
            i == batch.len() ==> n == kept(batch@.len(), step as nat),
            forall|k: int| 0 <= k < n ==> #[trigger] is_pair(r@, batch@, step as nat, k),
        decreases batch.len() - i,
    {
        let ghost before = r@;
        r.push(batch[i].re);
        r.push(batch[i].im);
        proof {
            assert forall|k: int| 0 <= k < n + 1 implies #[trigger] is_pair(
                r@,
                batch@,
                step as nat,
                k,
            ) by {
                if k < n {
                    assert(is_pair(before, batch@, step as nat, k));
                }
            }
            assert((n + 1) * step == n * step + step) by (nonlinear_arith);
            lemma_kept(batch@.len(), step as nat, n + 1);
            lemma_kept(batch@.len(), step as nat, n);
            n = n + 1;
        }
        i = if batch.len() - i > step {
            i + step
        } else {
            batch.len()
        };
    }
    r
}

/// A worker that runs decodes a batch, waits a millisecond when there is none, ends when its stream
/// is closed, and goes on after lost batches, starting afresh if it keeps state from batch to batch;
/// one that does not run ends whatever it meets.
pub proof fn law_worker_steps(event: StreamEvent, lost: u64, resets: bool)
    ensures
        step_of(false, event, resets) == StreamStep::Exit,
        step_of(true, StreamEvent::Batch, resets) == StreamStep::Decode,
        step_of(true, StreamEvent::Empty, resets) == StreamStep::Sleep(1),
        step_of(true, StreamEvent::Closed, resets) == StreamStep::Exit,
        step_of(true, StreamEvent::Lagged(lost), true) == StreamStep::Reset,
        step_of(true, StreamEvent::Lagged(lost), false) == StreamStep::Continue,
        step_of(true, event, resets) == StreamStep::Exit ==> event == StreamEvent::Closed,
{
}

/// Thinning keeps the first sample and then every one that lies a multiple of the step behind it,
/// up to the end of the batch: as many as there are such places. A step of one keeps all samples.
pub proof fn law_thinning_keeps_every_nth<T>(r: Seq<T>, batch: Seq<IqSample<T>>, step: nat, k: int)
    requires
        step >= 1,
        is_thinned(r, batch, step),
        0 <= k,
    ensures
        k * step < batch.len() <==> 2 * k < r.len(),
        k * step < batch.len() ==> r[2 * k] == batch[k * step].re && r[2 * k + 1] == batch[k
            * step].im,
        step == 1 ==> r.len() == 2 * batch.len(),
        r.len() % 2 == 0,
{
    lemma_kept(batch.len(), step, k as nat);
    if k * step < batch.len() {
        assert(is_pair(r, batch, step, k));
    }
    if step == 1 {
        lemma_kept(batch.len(), 1, batch.len());
        if batch.len() > 0 {
            lemma_kept(batch.len(), 1, (batch.len() - 1) as nat);
        }
    }
}

} // verus!
