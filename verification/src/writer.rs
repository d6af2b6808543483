//! The batching writer: the hand-off ring it reads from, the buffer it fills,
//! and the rule that says when a batch is due.

use crate::models::CreateTestResult;
use crossbeam_queue::ArrayQueue;
use vstd::prelude::*;

verus! {

/// The bounded ring of `crossbeam_queue`, as an opaque value.
#[verifier::external_type_specification]
#[verifier::external_body]
#[verifier::reject_recursive_types(T)]
pub struct ExArrayQueue<T>(ArrayQueue<T>);

/// The items on a ring, oldest first.
pub uninterp spec fn ring_items(ring: ArrayQueue<CreateTestResult>) -> Seq<CreateTestResult>;

/// The number of items that a ring was made to hold.
pub uninterp spec fn ring_limit(ring: ArrayQueue<CreateTestResult>) -> nat;

/// Calls `ArrayQueue::new`, which allocates an empty ring of `capacity`
/// slots. It panics on zero, where `capacity + 1` has no next power of two in
/// `usize`, and where the slots, each a payload and a stamp and well under
/// 2048 bytes, would not fit in the address space; all three are left out. As
/// with any allocation, the process stops where memory runs out.
#[verifier::external_body]
fn ring_with_capacity(capacity: usize) -> (ring: ArrayQueue<CreateTestResult>)
    requires
        0 < capacity <= usize::MAX / 4096,
    ensures
        ring_items(ring) == Seq::<CreateTestResult>::empty(),
        ring_limit(ring) == capacity,
{
    ArrayQueue::new(capacity)
}

/// Calls `ArrayQueue::pop_mut`, the pop for a caller that holds the ring
/// alone: it takes the oldest item off the ring, or returns `None` where the
/// ring is empty.
#[verifier::external_body]
fn ring_pop(ring: &mut ArrayQueue<CreateTestResult>) -> (item: Option<CreateTestResult>)
    ensures
        ring_limit(*final(ring)) == ring_limit(*old(ring)),
        match item {
            Some(first) => {
                &&& ring_items(*old(ring)).len() > 0
                &&& first == ring_items(*old(ring))[0]
                &&& ring_items(*final(ring)) == ring_items(*old(ring)).drop_first()
            },
            None => {
                &&& ring_items(*old(ring)).len() == 0
                &&& ring_items(*final(ring)) == ring_items(*old(ring))
            },
        },
{
    ring.pop_mut()
}

/// Calls `ArrayQueue::push_mut`, the push for a caller that holds the ring
/// alone: it puts the item behind the others, or hands it back where the ring
/// holds as many items as it was made for.
#[verifier::external_body]
fn ring_push(ring: &mut ArrayQueue<CreateTestResult>, item: CreateTestResult) -> (r: Result<
    (),
    CreateTestResult,
>)
    ensures
        ring_limit(*final(ring)) == ring_limit(*old(ring)),
        match r {
            Ok(_) => {
                &&& ring_items(*old(ring)).len() < ring_limit(*old(ring))
                &&& ring_items(*final(ring)) == ring_items(*old(ring)).push(item)
            },
            Err(back) => {
                &&& back == item
                &&& ring_items(*old(ring)).len() >= ring_limit(*old(ring))
                &&& ring_items(*final(ring)) == ring_items(*old(ring))
            },
        },
{
    ring.push_mut(item)
}

/// Offers an item to the ring on the dispatcher's side. Where the ring is
/// full it stays as it is and the same item comes back, to be offered again
/// before any other: so the ring gets the items in the order in which the
/// channel gave them.
pub fn offer(ring: &mut ArrayQueue<CreateTestResult>, item: CreateTestResult) -> (back: Option<
    CreateTestResult,
>)
    ensures
        ring_limit(*final(ring)) == ring_limit(*old(ring)),
        match back {
            None => {
                &&& ring_items(*old(ring)).len() < ring_limit(*old(ring))
                &&& ring_items(*final(ring)) == ring_items(*old(ring)).push(item)
            },
            Some(same) => {
                &&& same == item
                &&& ring_items(*old(ring)).len() >= ring_limit(*old(ring))
                &&& ring_items(*final(ring)) == ring_items(*old(ring))
            },
        },
{
    match ring_push(ring, item) {
        Ok(_) => None,
        Err(back) => Some(back),
    }
}

/// Slots of the channel in front of the ring, for a writer with this batch
/// size.
pub open spec fn channel_capacity(batch_size: nat) -> nat {
    batch_size * 8
}

/// Slots of the hand-off ring, for a writer with this batch size.
pub open spec fn ring_capacity(batch_size: nat) -> nat {
    if batch_size * 16 >= 1024 {
        batch_size * 16
    } else {
        1024
    }
}

/// The largest batch size that a writer can be built with: sixteen such
/// batches of slots must fit in the address space many times over.
pub open spec fn max_batch_size() -> nat {
    (usize::MAX / 65536) as nat
}

/// Whether a writer can be built with this batch size: it is positive and no
/// larger than `max_batch_size`.
pub open spec fn batch_size_ok(batch_size: nat) -> bool {
    0 < batch_size <= max_batch_size()
}

/// The sizes of the two stages of the ingest queue.
#[derive(Debug, Clone, Copy, PartialEq, Eq, Structural)]
pub struct QueueSizes {
    pub channel: usize,
    pub ring: usize,
}

/// Sizes the two stages for a batch size; `None` where no writer can be built
/// with it.
pub fn queue_sizes(batch_size: usize) -> (r: Option<QueueSizes>)
    ensures
        r is Some <==> batch_size_ok(batch_size as nat),
        r matches Some(s) ==> s.channel == channel_capacity(batch_size as nat) && s.ring
            == ring_capacity(batch_size as nat),
{
    if batch_size == 0 || batch_size > usize::MAX / 65536 {
        return None;
    }
    let wide: usize = batch_size * 16;
    let ring: usize = if wide >= 1024 {
        wide
    } else {
        1024
    };
    Some(QueueSizes { channel: batch_size * 8, ring })
}

/// The empty hand-off ring for a writer with this batch size; `None` where
/// no writer can be built with it.
pub fn new_ring(batch_size: usize) -> (r: Option<ArrayQueue<CreateTestResult>>)
    ensures
        r is Some <==> batch_size_ok(batch_size as nat),
        r matches Some(ring) ==> ring_limit(ring) == ring_capacity(batch_size as nat)
            && ring_items(ring) == Seq::<CreateTestResult>::empty(),
{
    match queue_sizes(batch_size) {
        Some(sizes) => Some(ring_with_capacity(sizes.ring)),
        None => None,
    }
}

/// Milliseconds from `last` to `now` on a clock that does not run backwards;
/// zero where `now` is the earlier.
pub open spec fn elapsed_ms(now: u64, last: u64) -> nat {
    if now >= last {
        (now - last) as nat
    } else {
        0
    }
}

/// The flush rule: a batch is due when the buffer is full, or when it holds
/// anything and the interval has passed since the last flush.
pub open spec fn flush_due(len: nat, batch_size: nat, elapsed: nat, interval: nat) -> bool {
    len >= batch_size || (elapsed >= interval && len > 0)
}

/// How long until a buffer of `len` items is due, with `elapsed` of the
/// interval gone: nothing for an empty buffer, which is never due; no time
/// where it is due; else the rest of the interval.
pub open spec fn time_left(len: nat, batch_size: nat, elapsed: nat, interval: nat) -> Option<u64> {
    if len == 0 {
        None
    } else if flush_due(len, batch_size, elapsed, interval) {
        Some(0u64)
    } else {
        Some((interval - elapsed) as u64)
    }
}

/// The time trigger counts from the last flush: a buffer that holds anything
/// is due once the time that `time_left` gives has passed, whatever arrives
/// meanwhile.
pub proof fn lemma_due_when_time_is_up(
    len: nat,
    more: nat,
    batch_size: nat,
    elapsed: nat,
    interval: nat,
    waited: nat,
)
    requires
        time_left(len, batch_size, elapsed, interval) matches Some(left) && waited >= left,
        interval <= u64::MAX,
    ensures
        flush_due(len + more, batch_size, elapsed + waited, interval),
{
}

/// Where the writer stands between two steps.
#[derive(Debug, Clone, Copy, PartialEq, Eq, Structural)]
pub enum WriterPhase {
    /// At the start of an iteration.
    Running,
    /// A due batch was handed out; the closed flag has yet to be looked at.
    Flushed,
    /// The queue is closed and the ring is being emptied.
    Draining,
    /// Nothing is left to do.
    Stopped,
}

/// What the task that runs the writer has to do next.
#[derive(Debug)]
pub enum WriterAction {
    /// Upsert these items in one transaction, in this order, then step again.
    Flush(Vec<CreateTestResult>),
    /// Sleep for the idle interval, then step again.
    Sleep,
    /// Leave the loop.
    Exit,
}

/// What the writer does next, as a mathematical value.
pub enum Step {
    Flush(Seq<CreateTestResult>),
    Sleep,
    Exit,
}

impl View for WriterAction {
    type V = Step;

    open spec fn view(&self) -> Step {
        match self {
            WriterAction::Flush(batch) => Step::Flush(batch@),
            WriterAction::Sleep => Step::Sleep,
            WriterAction::Exit => Step::Exit,
        }
    }
}

impl Step {
    /// The items that leave the writer with this step, in their order.
    pub open spec fn leaving(self) -> Seq<CreateTestResult> {
        match self {
            Step::Flush(batch) => batch,
            _ => Seq::empty(),
        }
    }
}

/// The state of a writer, as mathematical values.
pub struct WriterState {
    pub buffered: Seq<CreateTestResult>,
    pub batch_size: nat,
    pub flush_interval: nat,
    pub last_flush: u64,
    pub phase: WriterPhase,
}

/// A writer, the ring it reads from, and what it does next.
pub struct Outcome {
    pub writer: WriterState,
    pub ring: Seq<CreateTestResult>,
    pub step: Step,
}

/// How many items a fill moves from the ring to the buffer: as many as the
/// buffer lacks to a full batch, or all that the ring holds.
pub open spec fn fill_count(writer: WriterState, ring: Seq<CreateTestResult>) -> int {
    let room = writer.batch_size - writer.buffered.len();
    if room <= 0 {
        0
    } else if room <= ring.len() {
        room
    } else {
        ring.len() as int
    }
}

impl WriterState {
    /// Between two steps the buffer is below the batch size, which is at
    /// least one, and empty once the writer has stopped or has just flushed.
    pub open spec fn wf(self) -> bool {
        &&& self.batch_size >= 1
        &&& self.buffered.len() < self.batch_size
        &&& (self.phase == WriterPhase::Stopped || self.phase == WriterPhase::Flushed)
            ==> self.buffered.len() == 0
    }

    /// This state with another buffer and phase.
    pub open spec fn with(self, buffered: Seq<CreateTestResult>, phase: WriterPhase) -> WriterState {
        WriterState {
            buffered,
            batch_size: self.batch_size,
            flush_interval: self.flush_interval,
            last_flush: self.last_flush,
            phase,
        }
    }

    /// This state with the last flush at `now`.
    pub open spec fn flushed_at(self, now: u64) -> WriterState {
        WriterState {
            buffered: self.buffered,
            batch_size: self.batch_size,
            flush_interval: self.flush_interval,
            last_flush: now,
            phase: self.phase,
        }
    }

    /// The buffer after a fill from `ring`.
    pub open spec fn filled(self, ring: Seq<CreateTestResult>) -> Seq<CreateTestResult> {
        self.buffered + ring.take(fill_count(self, ring))
    }

    /// One step of draining: the buffer is filled from the ring; a full
    /// buffer leaves as a batch and draining goes on; a buffer that the ring
    /// could not fill leaves as the last batch, if it holds anything, and the
    /// writer stops.
    pub open spec fn drain(self, ring: Seq<CreateTestResult>) -> Outcome {
        let batch = self.filled(ring);
        let rest = ring.skip(fill_count(self, ring));
        if batch.len() >= self.batch_size {
            Outcome {
                writer: self.with(Seq::empty(), WriterPhase::Draining),
                ring: rest,
                step: Step::Flush(batch),
            }
        } else if batch.len() > 0 {
            Outcome {
                writer: self.with(Seq::empty(), WriterPhase::Stopped),
                ring: rest,
                step: Step::Flush(batch),
            }
        } else {
            Outcome {
                writer: self.with(Seq::empty(), WriterPhase::Stopped),
                ring: rest,
                step: Step::Exit,
            }
        }
    }

    /// The end of an iteration: with the queue open the writer sleeps and
    /// runs on; with the queue closed it starts to drain.
    pub open spec fn look_at_closed(self, ring: Seq<CreateTestResult>, closed: bool) -> Outcome {
        if !closed {
            Outcome {
                writer: self.with(self.buffered, WriterPhase::Running),
                ring,
                step: Step::Sleep,
            }
        } else {
            self.drain(ring)
        }
    }

    /// One step of the writer at the time `now`, with the ring holding `ring`
    /// and the queue closed or not.
    ///
    /// While running, an iteration fills the buffer from the ring and hands it
    /// out if it is due; if none is due it looks at the closed flag. The step
    /// after a flush notes the time and looks at the closed flag. A writer
    /// that has stopped stays stopped.
    pub open spec fn step(self, ring: Seq<CreateTestResult>, now: u64, closed: bool) -> Outcome {
        match self.phase {
            WriterPhase::Running => {
                let batch = self.filled(ring);
                let rest = ring.skip(fill_count(self, ring));
                if flush_due(
                    batch.len(),
                    self.batch_size,
                    elapsed_ms(now, self.last_flush),
                    self.flush_interval,
                ) {
                    Outcome {
                        writer: self.with(Seq::empty(), WriterPhase::Flushed),
                        ring: rest,
                        step: Step::Flush(batch),
                    }
                } else {
                    self.with(batch, WriterPhase::Running).look_at_closed(rest, closed)
                }
            },
            WriterPhase::Flushed => self.flushed_at(now).look_at_closed(ring, closed),
            WriterPhase::Draining => self.drain(ring),
            WriterPhase::Stopped => Outcome { writer: self, ring, step: Step::Exit },
        }
    }
}

/// The state of the batching writer: the items popped from the ring and not
/// yet handed out, and when the last batch went.
#[derive(Debug)]
pub struct BatchWriter {
    buffer: Vec<CreateTestResult>,
    batch_size: usize,
    flush_interval_ms: u64,
    last_flush_ms: u64,
    phase: WriterPhase,
}

impl View for BatchWriter {
    type V = WriterState;

    closed spec fn view(&self) -> WriterState {
        WriterState {
            buffered: self.buffer@,
            batch_size: self.batch_size as nat,
            flush_interval: self.flush_interval_ms as nat,
            last_flush: self.last_flush_ms,
            phase: self.phase,
        }
    }
}

impl BatchWriter {
    /// A writer with an empty buffer that counts its interval from `now_ms`.
    pub fn new(batch_size: usize, flush_interval_ms: u64, now_ms: u64) -> (r: Self)
        requires
            batch_size >= 1,
        ensures
            r@.wf(),
            r@ == (WriterState {
                buffered: Seq::empty(),
                batch_size: batch_size as nat,
                flush_interval: flush_interval_ms as nat,
                last_flush: now_ms,
                phase: WriterPhase::Running,
            }),
    {
        BatchWriter {
            buffer: Vec::new(),
            batch_size,
            flush_interval_ms,
            last_flush_ms: now_ms,
            phase: WriterPhase::Running,
        }
    }

    /// The number of buffered items.
    pub fn len(&self) -> (r: usize)
        ensures
            r == self@.buffered.len(),
    {
        self.buffer.len()
    }

    /// Pops from the ring until the buffer holds a full batch or the ring is
    /// empty. What was buffered stays in front, in its order.
    fn fill(&mut self, ring: &mut ArrayQueue<CreateTestResult>)
        requires
            old(self).batch_size >= 1,
            old(self).buffer@.len() <= old(self).batch_size,
        ensures
            final(self)@ == old(self)@.with(
                old(self)@.filled(ring_items(*old(ring))),
                old(self).phase,
            ),
            ring_items(*final(ring)) == ring_items(*old(ring)).skip(
                fill_count(old(self)@, ring_items(*old(ring))),
            ),
            ring_limit(*final(ring)) == ring_limit(*old(ring)),
            final(self).buffer@.len() <= final(self).batch_size,
    {
        let ghost before = ring_items(*ring);
        let ghost start = self@;
        let ghost mut taken: int = 0;
        let mut ring_empty = false;
        proof {
            assert(before.take(0) =~= Seq::empty());
            assert(self.buffer@ + Seq::<CreateTestResult>::empty() =~= self.buffer@);
            assert(before.skip(0) =~= before);
        }
        while self.buffer.len() < self.batch_size && !ring_empty
            invariant
                self.batch_size == old(self).batch_size,
                self.flush_interval_ms == old(self).flush_interval_ms,
                self.last_flush_ms == old(self).last_flush_ms,
                self.phase == old(self).phase,
                start == old(self)@,
                before == ring_items(*old(ring)),
                0 <= taken <= before.len(),
                self.buffer@ == start.buffered + before.take(taken),
                ring_items(*ring) == before.skip(taken),
                ring_limit(*ring) == ring_limit(*old(ring)),
                self.buffer@.len() <= self.batch_size,
                ring_empty ==> taken == before.len(),
            decreases self.batch_size - self.buffer@.len() + if ring_empty { 0int } else { 1int },
        {
            match ring_pop(ring) {
                Some(item) => {
                    self.buffer.push(item);
                    proof {
                        assert(before.skip(taken)[0] == before[taken]);
                        assert(before.take(taken + 1) =~= before.take(taken).push(before[taken]));
                        assert(before.skip(taken).drop_first() =~= before.skip(taken + 1));
                        assert(self.buffer@ =~= start.buffered + before.take(taken + 1));
                        taken = taken + 1;
                    }
                },
                None => {
                    ring_empty = true;
                    proof {
                        assert(before.skip(taken).len() == 0);
                    }
                },
            }
        }
        proof {
            assert(taken == fill_count(start, before));
        }
    }

    /// Hands out the buffer as one batch and leaves it empty.
    fn take_batch(&mut self) -> (batch: Vec<CreateTestResult>)
        ensures
            batch@ == old(self).buffer@,
            final(self)@ == old(self)@.with(Seq::empty(), old(self).phase),
    {
        let mut batch: Vec<CreateTestResult> = Vec::new();
        std::mem::swap(&mut self.buffer, &mut batch);
        batch
    }

    /// Whether a batch is due at `now_ms`.
    pub fn is_due(&self, now_ms: u64) -> (r: bool)
        ensures
            r == flush_due(
                self@.buffered.len(),
                self@.batch_size,
                elapsed_ms(now_ms, self@.last_flush),
                self@.flush_interval,
            ),
    {
        let elapsed: u64 = if now_ms >= self.last_flush_ms {
            now_ms - self.last_flush_ms
        } else {
            0
        };
        self.buffer.len() >= self.batch_size || (elapsed >= self.flush_interval_ms
            && self.buffer.len() > 0)
    }

    /// One step of draining.
    fn drain(&mut self, ring: &mut ArrayQueue<CreateTestResult>) -> (action: WriterAction)
        requires
            old(self).batch_size >= 1,
            old(self).buffer@.len() <= old(self).batch_size,
        ensures
            (Outcome { writer: final(self)@, ring: ring_items(*final(ring)), step: action@ })
                == old(self)@.drain(ring_items(*old(ring))),
            ring_limit(*final(ring)) == ring_limit(*old(ring)),
    {
        self.fill(ring);
        if self.buffer.len() >= self.batch_size {
            self.phase = WriterPhase::Draining;
            let batch = self.take_batch();
            return WriterAction::Flush(batch);
        }
        self.phase = WriterPhase::Stopped;
        if self.buffer.len() > 0 {
            let batch = self.take_batch();
            return WriterAction::Flush(batch);
        }
        assert(self.buffer@ =~= Seq::empty());
        WriterAction::Exit
    }

    /// One step of the writer. `now_ms` is the clock at the call and `closed`
    /// whether the dispatcher has reported the queue closed. The caller
    /// holds the ring alone for the length of the call; no call waits.
    pub fn next_action(
        &mut self,
        ring: &mut ArrayQueue<CreateTestResult>,
        now_ms: u64,
        closed: bool,
    ) -> (action: WriterAction)
        requires
            old(self)@.wf(),
        ensures
            final(self)@.wf(),
            (Outcome { writer: final(self)@, ring: ring_items(*final(ring)), step: action@ })
                == old(self)@.step(ring_items(*old(ring)), now_ms, closed),
            ring_limit(*final(ring)) == ring_limit(*old(ring)),
    {
        proof {
            lemma_step_keeps_wf(self@, ring_items(*ring), now_ms, closed);
        }
        match self.phase {
            WriterPhase::Running => {
                self.fill(ring);
                if self.is_due(now_ms) {
                    self.phase = WriterPhase::Flushed;
                    let batch = self.take_batch();
                    return WriterAction::Flush(batch);
                }
                if !closed {
                    return WriterAction::Sleep;
                }
                self.drain(ring)
            },
            WriterPhase::Flushed => {
                self.last_flush_ms = now_ms;
                if !closed {
                    self.phase = WriterPhase::Running;
                    return WriterAction::Sleep;
                }
                self.drain(ring)
            },
            WriterPhase::Draining => self.drain(ring),
            WriterPhase::Stopped => WriterAction::Exit,
        }
    }

    /// A writer fed straight from a channel takes one item at the time
    /// `now_ms`: the item joins the buffer, and the buffer leaves as a batch
    /// if it is due by the flush rule, which counts from the last flush. The
    /// time of a batch that leaves is the new last flush.
    pub fn push_item(&mut self, item: CreateTestResult, now_ms: u64) -> (batch: Option<
        Vec<CreateTestResult>,
    >)
        requires
            old(self)@.wf(),
            old(self)@.phase == WriterPhase::Running,
        ensures
            final(self)@.wf(),
            match batch {
                Some(items) => {
                    &&& items@ == old(self)@.buffered.push(item)
                    &&& flush_due(
                        items@.len(),
                        old(self)@.batch_size,
                        elapsed_ms(now_ms, old(self)@.last_flush),
                        old(self)@.flush_interval,
                    )
                    &&& final(self)@ == old(self)@.with(
                        Seq::empty(),
                        WriterPhase::Running,
                    ).flushed_at(now_ms)
                },
                None => {
                    &&& !flush_due(
                        old(self)@.buffered.len() + 1,
                        old(self)@.batch_size,
                        elapsed_ms(now_ms, old(self)@.last_flush),
                        old(self)@.flush_interval,
                    )
                    &&& final(self)@ == old(self)@.with(
                        old(self)@.buffered.push(item),
                        WriterPhase::Running,
                    )
                },
            },
    {
        self.buffer.push(item);
        if self.is_due(now_ms) {
            let batch = self.take_batch();
            self.last_flush_ms = now_ms;
            Some(batch)
        } else {
            None
        }
    }

    /// The timer of a writer fed from a channel has fired at the time
    /// `now_ms`: what is buffered leaves as a batch if it is due by the flush
    /// rule, and stays otherwise. The time of a batch that leaves is the new
    /// last flush.
    pub fn on_timer(&mut self, now_ms: u64) -> (batch: Option<Vec<CreateTestResult>>)
        requires
            old(self)@.wf(),
        ensures
            final(self)@.wf(),
            match batch {
                Some(items) => {
                    &&& items@ == old(self)@.buffered
                    &&& flush_due(
                        items@.len(),
                        old(self)@.batch_size,
                        elapsed_ms(now_ms, old(self)@.last_flush),
                        old(self)@.flush_interval,
                    )
                    &&& final(self)@ == old(self)@.with(Seq::empty(), old(self)@.phase).flushed_at(
                        now_ms,
                    )
                },
                None => {
                    &&& !flush_due(
                        old(self)@.buffered.len(),
                        old(self)@.batch_size,
                        elapsed_ms(now_ms, old(self)@.last_flush),
                        old(self)@.flush_interval,
                    )
                    &&& final(self)@ == old(self)@
                },
            },
    {
        if self.is_due(now_ms) {
            let batch = self.take_batch();
            self.last_flush_ms = now_ms;
            Some(batch)
        } else {
            None
        }
    }

    /// How long from `now_ms` until what is buffered is due: nothing while
    /// the buffer is empty, no time where a batch is due already, else what
    /// is left of the interval since the last flush.
    pub fn time_until_due(&self, now_ms: u64) -> (r: Option<u64>)
        ensures
            r == time_left(
                self@.buffered.len(),
                self@.batch_size,
                elapsed_ms(now_ms, self@.last_flush),
                self@.flush_interval,
            ),
    {
        if self.buffer.len() == 0 {
            return None;
        }
        if self.is_due(now_ms) {
            return Some(0);
        }
        let elapsed: u64 = if now_ms >= self.last_flush_ms {
            now_ms - self.last_flush_ms
        } else {
            0
        };
        Some(self.flush_interval_ms - elapsed)
    }

    /// The channel is closed: what is buffered leaves as the last batch, and
    /// the writer stops.
    pub fn on_close(&mut self) -> (batch: Option<Vec<CreateTestResult>>)
        requires
            old(self)@.wf(),
        ensures
            final(self)@.wf(),
            final(self)@ == old(self)@.with(Seq::empty(), WriterPhase::Stopped),
            match batch {
                Some(items) => items@ == old(self)@.buffered && items@.len() > 0,
                None => old(self)@.buffered.len() == 0,
            },
    {
        self.phase = WriterPhase::Stopped;
        if self.buffer.len() > 0 {
            Some(self.take_batch())
        } else {
            assert(self.buffer@ =~= Seq::empty());
            None
        }
    }
}

/// A step leaves the writer in order: the buffer below the batch size, and
/// empty where the writer has flushed or stopped.
pub proof fn lemma_step_keeps_wf(
    writer: WriterState,
    ring: Seq<CreateTestResult>,
    now: u64,
    closed: bool,
)
    requires
        writer.wf(),
    ensures
        writer.step(ring, now, closed).writer.wf(),
        writer.step(ring, now, closed).writer.batch_size == writer.batch_size,
        writer.step(ring, now, closed).writer.flush_interval == writer.flush_interval,
{
}

/// Nothing is lost and nothing passes anything: what was buffered and what
/// was on the ring, in that order, is after a step what leaves with the
/// step, what is buffered, and what is on the ring, in that order.
pub proof fn lemma_step_keeps_items(
    writer: WriterState,
    ring: Seq<CreateTestResult>,
    now: u64,
    closed: bool,
)
    requires
        writer.wf(),
    ensures
        ({
            let next = writer.step(ring, now, closed);
            writer.buffered + ring == next.step.leaving() + next.writer.buffered + next.ring
        }),
{
    let k = fill_count(writer, ring);
    let next = writer.step(ring, now, closed);
    assert(ring =~= ring.take(k) + ring.skip(k));
    assert(writer.buffered + ring =~= writer.filled(ring) + ring.skip(k));
    assert(writer.buffered + ring =~= next.step.leaving() + next.writer.buffered + next.ring);
}

/// The writer exits only with nothing left: a step that ends a writer which
/// had not stopped before finds the buffer and the ring empty and leaves
/// them so.
pub proof fn lemma_exit_leaves_nothing(
    writer: WriterState,
    ring: Seq<CreateTestResult>,
    now: u64,
    closed: bool,
)
    requires
        writer.wf(),
        writer.step(ring, now, closed).step is Exit,
        writer.phase != WriterPhase::Stopped,
    ensures
        closed || writer.phase == WriterPhase::Draining,
        writer.buffered.len() == 0,
        ring.len() == 0,
        writer.step(ring, now, closed).ring.len() == 0,
        writer.step(ring, now, closed).writer.buffered.len() == 0,
        writer.step(ring, now, closed).writer.phase == WriterPhase::Stopped,
{
}

/// The batches that a draining writer hands out, step after step, until it
/// exits, with nothing pushed to the ring meanwhile.
pub open spec fn drained_batches(writer: WriterState, ring: Seq<CreateTestResult>) -> Seq<
    Seq<CreateTestResult>,
>
    decreases writer.buffered.len() + ring.len(),
{
    let next = writer.drain(ring);
    match next.step {
        Step::Flush(batch) => if next.writer.phase == WriterPhase::Draining && writer.batch_size
            >= 1 && writer.buffered.len() < writer.batch_size {
            seq![batch] + drained_batches(next.writer, next.ring)
        } else {
            seq![batch]
        },
        _ => Seq::empty(),
    }
}

/// Drain on shutdown: once the queue is closed, the batches that the writer
/// hands out before it exits hold, one after the other, everything that was
/// buffered and everything that was on the ring, in that order.
pub proof fn lemma_drain_hands_out_everything(writer: WriterState, ring: Seq<CreateTestResult>)
    requires
        writer.wf(),
    ensures
        drained_batches(writer, ring).flatten() == writer.buffered + ring,
    decreases writer.buffered.len() + ring.len(),
{
    let k = fill_count(writer, ring);
    let next = writer.drain(ring);
    let batch = writer.filled(ring);
    assert(ring =~= ring.take(k) + ring.skip(k));
    assert(writer.buffered + ring =~= batch + ring.skip(k));
    match next.step {
        Step::Flush(b) => {
            if next.writer.phase == WriterPhase::Draining {
                lemma_drain_hands_out_everything(next.writer, next.ring);
                let rest = drained_batches(next.writer, next.ring);
                lemma_flatten_cons(batch, rest);
                assert(next.writer.buffered + next.ring =~= next.ring);
            } else {
                assert(ring.skip(k).len() == 0);
                lemma_flatten_cons(batch, Seq::empty());
                assert(Seq::<Seq<CreateTestResult>>::empty().flatten() =~= Seq::empty());
                assert(seq![batch] + Seq::<Seq<CreateTestResult>>::empty() =~= seq![batch]);
                assert(batch + Seq::<CreateTestResult>::empty() =~= batch);
                assert(batch + ring.skip(k) =~= batch);
            }
        },
        _ => {
            assert(batch.len() == 0);
            assert(ring.skip(k).len() == 0);
            assert(Seq::<Seq<CreateTestResult>>::empty().flatten() =~= Seq::empty());
            assert(writer.buffered + ring =~= Seq::empty());
        },
    }
}

/// Flattening a list of batches puts the first batch in front.
proof fn lemma_flatten_cons(first: Seq<CreateTestResult>, rest: Seq<Seq<CreateTestResult>>)
    ensures
        (seq![first] + rest).flatten() == first + rest.flatten(),
{
    let all = seq![first] + rest;
    assert(all.first() == first);
    assert(all.drop_first() =~= rest);
    assert(all.flatten() == all.first() + all.drop_first().flatten());
}

/// The names under which writers are registered.
#[derive(Debug, Clone, Copy, Hash, PartialEq, Eq, Structural)]
pub enum WriterName {
    Main,
}

/// The kinds of message that writers take.
#[derive(Debug, Clone, Copy, Hash, PartialEq, Eq, Structural)]
pub enum MessageKind {
    TestResult,
}

/// A message on its way to a writer.
#[derive(Debug)]
pub enum WriterMessage {
    TestResult(CreateTestResult),
}

impl WriterMessage {
    /// The kind of this message.
    pub open spec fn kind(&self) -> MessageKind {
        match self {
            WriterMessage::TestResult(_) => MessageKind::TestResult,
        }
    }
}

/// What the registry knows of one writer: the kind of message it takes, and
/// whether its producer handle is still open.
#[derive(Debug, Clone, Copy, PartialEq, Eq, Structural)]
pub struct WriterEntry {
    pub accepts: MessageKind,
    pub open: bool,
}

/// Why a message was not passed on to a writer.
#[derive(Debug, Clone, Copy, PartialEq, Eq, Structural)]
pub enum EnqueueError {
    /// No writer is registered under the name.
    WriterNotFound,
    /// The writer takes another kind of message.
    TypeMismatch,
    /// The writer's producer handle is closed.
    Closed,
}

impl EnqueueError {
    /// The message of this error.
    pub open spec fn text(self) -> Seq<char> {
        match self {
            EnqueueError::WriterNotFound => "Writer not found"@,
            EnqueueError::TypeMismatch => "Failed to downcast message"@,
            EnqueueError::Closed => "Failed to enqueue message: channel closed"@,
        }
    }

    /// The message of this error, as text.
    pub fn message(&self) -> (r: String)
        ensures
            r@ == self.text(),
    {
        match self {
            EnqueueError::WriterNotFound => "Writer not found".to_owned(),
            EnqueueError::TypeMismatch => "Failed to downcast message".to_owned(),
            EnqueueError::Closed => "Failed to enqueue message: channel closed".to_owned(),
        }
    }
}

/// The registry of writers by name.
#[derive(Debug)]
pub struct WriterManager {
    main: Option<WriterEntry>,
}

impl WriterManager {
    /// The entry registered under `name`, if any.
    pub closed spec fn entry(&self, name: WriterName) -> Option<WriterEntry> {
        match name {
            WriterName::Main => self.main,
        }
    }

    /// What `enqueue` answers for a message of kind `kind` to the writer
    /// `name`: `None` where the message is passed on.
    pub open spec fn refusal(&self, name: WriterName, kind: MessageKind) -> Option<EnqueueError> {
        match self.entry(name) {
            None => Some(EnqueueError::WriterNotFound),
            Some(entry) => if entry.accepts != kind {
                Some(EnqueueError::TypeMismatch)
            } else if !entry.open {
                Some(EnqueueError::Closed)
            } else {
                None
            },
        }
    }

    /// A registry without writers.
    pub fn new() -> (r: Self)
        ensures
            forall|name: WriterName| r.entry(name) is None,
    {
        WriterManager { main: None }
    }

    /// Registers an open writer for messages of kind `accepts` under `name`,
    /// in place of the one that was registered under it, if any.
    pub fn insert(&mut self, name: WriterName, accepts: MessageKind)
        ensures
            forall|other: WriterName|
                final(self).entry(other) == if other == name {
                    Some(WriterEntry { accepts, open: true })
                } else {
                    old(self).entry(other)
                },
    {
        match name {
            WriterName::Main => {
                self.main = Some(WriterEntry { accepts, open: true });
            },
        }
    }

    /// The entry registered under `name`, if any.
    pub fn get(&self, name: WriterName) -> (r: Option<WriterEntry>)
        ensures
            r == self.entry(name),
    {
        match name {
            WriterName::Main => self.main,
        }
    }

    /// Passes `message` on to the writer `name`: gives back the payload to
    /// send on that writer's channel, or says why it is not passed on.
    pub fn enqueue(&self, name: WriterName, message: WriterMessage) -> (r: Result<
        CreateTestResult,
        EnqueueError,
    >)
        ensures
            match r {
                Ok(payload) => self.refusal(name, message.kind()) is None && message
                    == WriterMessage::TestResult(payload),
                Err(e) => self.refusal(name, message.kind()) == Some(e),
            },
    {
        match self.get(name) {
            None => Err(EnqueueError::WriterNotFound),
            Some(entry) => match message {
                WriterMessage::TestResult(payload) => {
                    if entry.accepts != MessageKind::TestResult {
                        Err(EnqueueError::TypeMismatch)
                    } else if !entry.open {
                        Err(EnqueueError::Closed)
                    } else {
                        Ok(payload)
                    }
                },
            },
        }
    }

    /// Closes the producer handle of every registered writer. Which writers
    /// are registered, and for what, stays as it was.
    pub fn shutdown_all(&mut self)
        ensures
            forall|name: WriterName|
                final(self).entry(name) == match old(self).entry(name) {
                    Some(entry) => Some(WriterEntry { accepts: entry.accepts, open: false }),
                    None => None,
                },
    {
        match self.main {
            Some(entry) => {
                self.main = Some(WriterEntry { accepts: entry.accepts, open: false });
            },
            None => {},
        }
    }
}

/// After `shutdown_all` no writer takes a message: whatever the name and the
/// kind, `enqueue` refuses.
pub proof fn lemma_shutdown_refuses_all(
    before: WriterManager,
    after: WriterManager,
    name: WriterName,
    kind: MessageKind,
)
    requires
        forall|n: WriterName|
            after.entry(n) == match before.entry(n) {
                Some(entry) => Some(WriterEntry { accepts: entry.accepts, open: false }),
                None => None,
            },
    ensures
        after.refusal(name, kind) is Some,
{
}

} // verus!
