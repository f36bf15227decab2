use vstd::prelude::*;

use crate::audio_buffer::{read_amount, AudioBuffer};
use crate::error::StreamError;
use crate::handshake::{Handshake, Mode};

verus! {

/// Where a session stands. It only ever moves forward, in this order, and
/// `Complete` is final.
#[derive(Clone, Copy, Debug, PartialEq, Eq, Structural)]
pub enum SessionState {
    /// The buffer is there; producer and consumer are still being bound.
    Starting,
    /// Samples flow from the producer through the buffer to the consumer.
    Streaming,
    /// No new input is taken; what is buffered is still handed out.
    Draining,
    /// The session is over.
    Complete,
}

/// The two sides of a session.
#[derive(Clone, Copy, Debug, PartialEq, Eq, Structural)]
pub enum Role {
    /// Puts samples in: a capture callback or a network receiver.
    Producer,
    /// Takes samples out: a playback callback or a network sender.
    Consumer,
}

/// The place of a state in the order `Starting`, `Streaming`, `Draining`,
/// `Complete`.
pub open spec fn stage(s: SessionState) -> int {
    match s {
        SessionState::Starting => 0,
        SessionState::Streaming => 1,
        SessionState::Draining => 2,
        SessionState::Complete => 3,
    }
}

/// A session as its contracts see it. Times are in microseconds.
pub struct SessionView<T> {
    pub mode: Mode,
    pub state: SessionState,
    /// The samples in the buffer, oldest first.
    pub pending: Seq<T>,
    pub capacity: nat,
    pub producer: bool,
    pub consumer: bool,
    /// What is left of the planned length of the session.
    pub remaining: nat,
    /// When the consumer was last invoked.
    pub last_tick: Option<u64>,
    /// Since when the consumer has found the buffer empty, if it has.
    pub starved_since: Option<u64>,
    /// How long the consumer waits on an empty buffer before the session ends.
    pub silence_timeout: nat,
}

/// Time from `since` to `now`; none before the first invocation, and none
/// where the clock went backwards.
pub open spec fn elapsed(since: Option<u64>, now: u64) -> nat {
    match since {
        Some(t) => if now >= t {
            (now - t) as nat
        } else {
            0
        },
        None => 0,
    }
}

/// The countdown after `passed` more time: it stops at zero.
pub open spec fn counted_down(remaining: nat, passed: nat) -> nat {
    if passed >= remaining {
        0
    } else {
        (remaining - passed) as nat
    }
}

/// A session in which `role` has just been bound. It starts streaming once
/// both sides are bound.
pub open spec fn attached<T>(s: SessionView<T>, role: Role) -> SessionView<T> {
    let producer = s.producer || role == Role::Producer;
    let consumer = s.consumer || role == Role::Consumer;
    SessionView {
        producer,
        consumer,
        state: if s.state == SessionState::Starting && producer && consumer {
            SessionState::Streaming
        } else {
            s.state
        },
        ..s
    }
}

/// A session after `role` reported that it ended. Without a producer the
/// session drains what it holds (or, before it streamed, ends); without a
/// consumer it ends.
pub open spec fn disconnected<T>(s: SessionView<T>, role: Role) -> SessionView<T> {
    SessionView {
        state: match role {
            Role::Producer => match s.state {
                SessionState::Starting => SessionState::Complete,
                SessionState::Streaming => SessionState::Draining,
                _ => s.state,
            },
            Role::Consumer => SessionState::Complete,
        },
        ..s
    }
}

/// The consumer may take samples in these states.
pub open spec fn consuming<T>(s: SessionView<T>) -> bool {
    s.state == SessionState::Streaming || s.state == SessionState::Draining
}

/// A session after the consumer, invoked at `now`, asked for `frames`
/// samples. The time since the previous invocation comes off the countdown;
/// a countdown at zero turns streaming into draining. The consumer gets what
/// is there, up to `frames`. Draining ends once the buffer is empty. A
/// consumer that asks for samples and finds the buffer empty is starved; the
/// session ends when it has been starved for as long as the silence timeout.
/// A request for no samples leaves the starvation as it was.
pub open spec fn after_consume<T>(s: SessionView<T>, frames: nat, now: u64) -> SessionView<T> {
    let remaining = counted_down(s.remaining, elapsed(s.last_tick, now));
    let state = if s.state == SessionState::Streaming && remaining == 0 {
        SessionState::Draining
    } else {
        s.state
    };
    let n = read_amount(frames as int, s.pending.len() as int);
    let pending = s.pending.skip(n);
    let starving = frames > 0 && s.pending.len() == 0;
    let starved_since = if frames == 0 {
        s.starved_since
    } else if starving {
        Some(
            match s.starved_since {
                Some(t) => t,
                None => now,
            },
        )
    } else {
        None
    };
    let state = if state == SessionState::Draining && pending.len() == 0 {
        SessionState::Complete
    } else if starving && elapsed(starved_since, now) >= s.silence_timeout {
        SessionState::Complete
    } else {
        state
    };
    SessionView { state, pending, remaining, last_tick: Some(now), starved_since, ..s }
}

/// Whether `role` is bound in `s`.
pub open spec fn bound<T>(s: SessionView<T>, role: Role) -> bool {
    match role {
        Role::Producer => s.producer,
        Role::Consumer => s.consumer,
    }
}

/// Why the producer's write of `len` samples into `s` fails, if it does.
/// Only a streaming session takes input; the block must fit into the free
/// space as a whole.
pub open spec fn produce_error<T>(s: SessionView<T>, len: nat) -> Option<StreamError> {
    if s.state != SessionState::Streaming {
        Some(StreamError::Disconnected)
    } else if len > s.capacity {
        Some(StreamError::OversizedRequest)
    } else if s.pending.len() + len > s.capacity {
        Some(StreamError::Overflow)
    } else {
        None
    }
}

/// Why the consumer's request of `frames` samples from `s` fails, if it does.
pub open spec fn consume_error<T>(s: SessionView<T>, frames: nat) -> Option<StreamError> {
    if !consuming(s) {
        Some(StreamError::Disconnected)
    } else if frames > s.capacity {
        Some(StreamError::OversizedRequest)
    } else {
        None
    }
}

/// One invocation of either consumer, at `now` and asking for `frames`
/// samples, as the session sees it: a refused request changes nothing.
pub open spec fn consumer_step<T>(s: SessionView<T>, frames: nat, now: u64) -> SessionView<T> {
    if consume_error(s, frames) is Some {
        s
    } else {
        after_consume(s, frames, now)
    }
}

/// A run of consumer invocations, each a number of samples asked for and the
/// time of the invocation, one after the other.
pub open spec fn consumer_run<T>(s: SessionView<T>, calls: Seq<(nat, u64)>) -> SessionView<T>
    decreases calls.len(),
{
    if calls.len() == 0 {
        s
    } else {
        consumer_step(consumer_run(s, calls.drop_last()), calls.last().0, calls.last().1)
    }
}

/// `samples` followed by copies of `silence` up to a length of `len`.
pub open spec fn padded<T>(samples: Seq<T>, len: nat, silence: T) -> Seq<T> {
    samples + Seq::new((len - samples.len()) as nat, |i: int| silence)
}

/// What one invocation of the consumer gets.
pub struct Fetched<T> {
    /// The samples handed out.
    pub samples: Vec<T>,
    /// How many of the requested samples the buffer could not supply.
    pub shortfall: usize,
}

impl<T> Fetched<T> {
    /// Whether the consumer asked for more than the buffer held.
    pub fn is_underrun(&self) -> (r: bool)
        ensures
            r == (self.shortfall > 0),
    {
        self.shortfall > 0
    }
}

/// One session: a producer and a consumer coupled through one sample
/// buffer, under a countdown of the session's planned length.
pub struct AudioStream<T> {
    mode: Mode,
    state: SessionState,
    buffer: AudioBuffer<T>,
    producer_attached: bool,
    consumer_attached: bool,
    remaining_us: u64,
    last_tick_us: Option<u64>,
    starved_since_us: Option<u64>,
    silence_timeout_us: u64,
}

impl<T> View for AudioStream<T> {
    type V = SessionView<T>;

    closed spec fn view(&self) -> SessionView<T> {
        SessionView {
            mode: self.mode,
            state: self.state,
            pending: self.buffer@,
            capacity: self.buffer.capacity(),
            producer: self.producer_attached,
            consumer: self.consumer_attached,
            remaining: self.remaining_us as nat,
            last_tick: self.last_tick_us,
            starved_since: self.starved_since_us,
            silence_timeout: self.silence_timeout_us as nat,
        }
    }
}

impl<T> AudioStream<T> {
    /// The buffer is well formed, and a streaming session has both sides.
    pub closed spec fn wf(&self) -> bool {
        &&& self.buffer.wf()
        &&& self.state == SessionState::Streaming ==> self.producer_attached && self.consumer_attached
    }

    /// What a well-formed session guarantees of its view.
    pub proof fn lemma_wf_facts(&self)
        requires
            self.wf(),
        ensures
            self@.pending.len() <= self@.capacity,
            self@.capacity > 0,
            self@.state == SessionState::Streaming ==> self@.producer && self@.consumer,
    {
        self.buffer.lemma_wf_facts();
    }
}

impl<T: Copy + Default> AudioStream<T> {
    /// A session announced by `handshake`, with a buffer of `capacity`
    /// samples and the given silence timeout. It starts with neither side
    /// bound and the whole announced length on the countdown. A capacity of
    /// zero is refused.
    pub fn new(handshake: Handshake, capacity: usize, silence_timeout_us: u64) -> (r: Result<AudioStream<T>, StreamError>)
        ensures
            capacity == 0 ==> r == Err::<AudioStream<T>, StreamError>(StreamError::Construction),
            capacity > 0 ==> r is Ok,
            r matches Ok(s) ==> s.wf() && s@ == (SessionView::<T> {
                mode: handshake.mode,
                state: SessionState::Starting,
                pending: Seq::empty(),
                capacity: capacity as nat,
                producer: false,
                consumer: false,
                remaining: (handshake.seconds * 1_000_000) as nat,
                last_tick: None,
                starved_since: None,
                silence_timeout: silence_timeout_us as nat,
            }),
    {
        match AudioBuffer::new(capacity) {
            Err(e) => Err(e),
            Ok(buffer) => Ok(AudioStream {
                mode: handshake.mode,
                state: SessionState::Starting,
                buffer,
                producer_attached: false,
                consumer_attached: false,
                remaining_us: handshake.seconds as u64 * 1_000_000,
                last_tick_us: None,
                starved_since_us: None,
                silence_timeout_us,
            }),
        }
    }

    /// Binds `role` to the session; the session streams once both sides are
    /// bound. Returns whether the side was free: each side is bound once.
    pub fn attach(&mut self, role: Role) -> (r: bool)
        requires
            old(self).wf(),
        ensures
            final(self).wf(),
            r == !bound(old(self)@, role),
            final(self)@ == attached(old(self)@, role),
            stage(final(self)@.state) >= stage(old(self)@.state),
    {
        let fresh = match role {
            Role::Producer => {
                let fresh = !self.producer_attached;
                self.producer_attached = true;
                fresh
            },
            Role::Consumer => {
                let fresh = !self.consumer_attached;
                self.consumer_attached = true;
                fresh
            },
        };
        if self.state == SessionState::Starting && self.producer_attached && self.consumer_attached {
            self.state = SessionState::Streaming;
        }
        fresh
    }

    /// Records that the source or the sink of `role` has ended.
    pub fn disconnect(&mut self, role: Role)
        requires
            old(self).wf(),
        ensures
            final(self).wf(),
            final(self)@ == disconnected(old(self)@, role),
            stage(final(self)@.state) >= stage(old(self)@.state),
    {
        match role {
            Role::Producer => {
                if self.state == SessionState::Starting {
                    self.state = SessionState::Complete;
                } else if self.state == SessionState::Streaming {
                    self.state = SessionState::Draining;
                }
            },
            Role::Consumer => {
                self.state = SessionState::Complete;
            },
        }
    }

    /// The producer's write of one block. The block goes in whole or not at
    /// all: on an overflow nothing is written, and the producer is to wait
    /// for the consumer and offer the block again.
    pub fn produce(&mut self, block: &[T]) -> (r: Result<(), StreamError>)
        requires
            old(self).wf(),
        ensures
            final(self).wf(),
            match produce_error(old(self)@, block@.len()) {
                Some(e) => r == Err::<(), StreamError>(e) && final(self)@ == old(self)@,
                None => r == Ok::<(), StreamError>(()) && final(self)@ == (SessionView {
                    pending: old(self)@.pending + block@,
                    ..old(self)@
                }),
            },
    {
        if self.state != SessionState::Streaming {
            return Err(StreamError::Disconnected);
        }
        self.buffer.write(block)
    }

    /// The common part of both consumers: the countdown, the read, and the
    /// state that follows.
    fn consume(&mut self, frames: usize, now_us: u64) -> (r: Result<Vec<T>, StreamError>)
        requires
            old(self).wf(),
        ensures
            final(self).wf(),
            match consume_error(old(self)@, frames as nat) {
                Some(e) => r == Err::<Vec<T>, StreamError>(e) && final(self)@ == old(self)@,
                None => r is Ok,
            },
            r matches Ok(v) ==> {
                &&& v@ == old(self)@.pending.take(read_amount(frames as int, old(self)@.pending.len() as int))
                &&& final(self)@ == after_consume(old(self)@, frames as nat, now_us)
            },
    {
        if !(self.state == SessionState::Streaming || self.state == SessionState::Draining) {
            return Err(StreamError::Disconnected);
        }
        let starving = frames > 0 && self.buffer.size_filled() == 0;
        let out = match self.buffer.read(frames) {
            Err(e) => {
                return Err(e);
            },
            Ok(v) => v,
        };
        let passed: u64 = match self.last_tick_us {
            Some(t) => if now_us >= t {
                now_us - t
            } else {
                0
            },
            None => 0,
        };
        self.remaining_us = if passed >= self.remaining_us {
            0
        } else {
            self.remaining_us - passed
        };
        self.last_tick_us = Some(now_us);
        if self.state == SessionState::Streaming && self.remaining_us == 0 {
            self.state = SessionState::Draining;
        }
        let starved_for: u64 = if starving {
            let since = match self.starved_since_us {
                Some(t) => t,
                None => now_us,
            };
            self.starved_since_us = Some(since);
            if now_us >= since {
                now_us - since
            } else {
                0
            }
        } else {
            if frames > 0 {
                self.starved_since_us = None;
            }
            0
        };
        if self.state == SessionState::Draining && self.buffer.size_filled() == 0 {
            self.state = SessionState::Complete;
        } else if starving && starved_for >= self.silence_timeout_us {
            self.state = SessionState::Complete;
        }
        Ok(out)
    }

    /// One invocation of a playback consumer at time `now_us`, which needs
    /// exactly `frames` samples: what the buffer holds, up to `frames`, and
    /// `silence` for the rest. It never waits.
    pub fn consume_for_playback(&mut self, frames: usize, silence: T, now_us: u64) -> (r: Result<
        Fetched<T>,
        StreamError,
    >)
        requires
            old(self).wf(),
        ensures
            final(self).wf(),
            final(self)@ == consumer_step(old(self)@, frames as nat, now_us),
            stage(final(self)@.state) >= stage(old(self)@.state),
            match consume_error(old(self)@, frames as nat) {
                Some(e) => r == Err::<Fetched<T>, StreamError>(e) && final(self)@ == old(self)@,
                None => r is Ok,
            },
            r matches Ok(f) ==> {
                let n = read_amount(frames as int, old(self)@.pending.len() as int);
                &&& f.samples@ == padded(old(self)@.pending.take(n), frames as nat, silence)
                &&& f.shortfall == frames - n
                &&& final(self)@ == after_consume(old(self)@, frames as nat, now_us)
            },
    {
        let mut samples = match self.consume(frames, now_us) {
            Err(e) => {
                return Err(e);
            },
            Ok(v) => v,
        };
        let got = samples.len();
        let ghost taken = samples@;
        let mut i: usize = got;
        while i < frames
            invariant
                got <= i <= frames,
                samples@ == padded(taken, i as nat, silence),
                taken.len() == got,
            decreases frames - i,
        {
            samples.push(silence);
            i += 1;
            assert(samples@ =~= padded(taken, i as nat, silence));
        }
        Ok(Fetched { samples, shortfall: frames - got })
    }

    /// One invocation of a network consumer at time `now_us`: what the
    /// buffer holds, up to `frames` samples, and no more. It never waits; a
    /// later invocation sends what arrives meanwhile.
    pub fn consume_for_network(&mut self, frames: usize, now_us: u64) -> (r: Result<Fetched<T>, StreamError>)
        requires
            old(self).wf(),
        ensures
            final(self).wf(),
            final(self)@ == consumer_step(old(self)@, frames as nat, now_us),
            stage(final(self)@.state) >= stage(old(self)@.state),
            match consume_error(old(self)@, frames as nat) {
                Some(e) => r == Err::<Fetched<T>, StreamError>(e) && final(self)@ == old(self)@,
                None => r is Ok,
            },
            r matches Ok(f) ==> {
                let n = read_amount(frames as int, old(self)@.pending.len() as int);
                &&& f.samples@ == old(self)@.pending.take(n)
                &&& f.shortfall == frames - n
                &&& final(self)@ == after_consume(old(self)@, frames as nat, now_us)
            },
    {
        let samples = match self.consume(frames, now_us) {
            Err(e) => {
                return Err(e);
            },
            Ok(v) => v,
        };
        let shortfall = frames - samples.len();
        Ok(Fetched { samples, shortfall })
    }

    /// Puts `duration_us` on the countdown, in place of what was left.
    pub fn set_duration(&mut self, duration_us: u64)
        requires
            old(self).wf(),
        ensures
            final(self).wf(),
            final(self)@ == (SessionView { remaining: duration_us as nat, ..old(self)@ }),
    {
        self.remaining_us = duration_us;
    }

    pub fn state(&self) -> (r: SessionState)
        ensures
            r == self@.state,
    {
        self.state
    }

    pub fn mode(&self) -> (r: Mode)
        ensures
            r == self@.mode,
    {
        self.mode
    }

    /// What is left of the countdown, in microseconds.
    pub fn remaining_us(&self) -> (r: u64)
        ensures
            r == self@.remaining,
    {
        self.remaining_us
    }

    /// The number of samples waiting in the buffer.
    pub fn size_filled(&self) -> (r: usize)
        requires
            self.wf(),
        ensures
            r == self@.pending.len(),
    {
        self.buffer.size_filled()
    }

    /// The number of samples the buffer can still take.
    pub fn size_free(&self) -> (r: usize)
        requires
            self.wf(),
        ensures
            r == self@.capacity - self@.pending.len(),
            r + self@.pending.len() == self@.capacity,
    {
        self.buffer.size_free()
    }
}

/// Buffered audio is never cut off by the consumer: an invocation that ends
/// the session leaves the buffer empty.
pub proof fn lemma_no_cut_off<T>(s: SessionView<T>, frames: nat, now: u64)
    ensures
        s.state != SessionState::Complete && consumer_step(s, frames, now).state == SessionState::Complete
            ==> consumer_step(s, frames, now).pending.len() == 0,
{
}

/// The countdown over a run of consumer invocations at ascending times
/// `t_0 ..= t_k`, on a streaming or draining session that no consumer has
/// invoked yet, each invocation asking for no more than the capacity:
/// the state only moves forward; unless the session has completed, the
/// countdown stands at its length at the start less `t_k - t_0` (the first
/// invocation takes nothing off); a session that still streams has time
/// left; so once `t_k - t_0` reaches that length, the session is draining or
/// complete.
pub proof fn lemma_countdown_run<T>(s: SessionView<T>, calls: Seq<(nat, u64)>)
    requires
        consuming(s),
        s.last_tick is None,
        calls.len() > 0,
        forall|i: int| 0 <= i < calls.len() ==> (#[trigger] calls[i]).0 <= s.capacity,
        forall|i: int, j: int| 0 <= i <= j < calls.len() ==> calls[i].1 <= calls[j].1,
    ensures
        stage(consumer_run(s, calls).state) >= stage(s.state),
        consumer_run(s, calls).capacity == s.capacity,
        consumer_run(s, calls).state != SessionState::Complete ==> {
            &&& consumer_run(s, calls).remaining == counted_down(s.remaining, (calls.last().1 - calls[0].1) as nat)
            &&& consumer_run(s, calls).last_tick == Some(calls.last().1)
        },
        consumer_run(s, calls).state == SessionState::Streaming ==> consumer_run(s, calls).remaining > 0,
        calls.last().1 - calls[0].1 >= s.remaining ==> consumer_run(s, calls).state == SessionState::Draining
            || consumer_run(s, calls).state == SessionState::Complete,
    decreases calls.len(),
{
    let prefix = calls.drop_last();
    let (frames, now) = calls.last();
    assert(consumer_run(s, prefix) == consumer_run(s, calls.drop_last()));
    if prefix.len() == 0 {
        assert(consumer_run(s, prefix) == s);
        assert(calls[0] == calls.last());
    } else {
        assert forall|i: int| 0 <= i < prefix.len() implies (#[trigger] prefix[i]).0 <= s.capacity by {
            assert(prefix[i] == calls[i]);
        }
        assert forall|i: int, j: int| 0 <= i <= j < prefix.len() implies prefix[i].1 <= prefix[j].1 by {
            assert(prefix[i] == calls[i] && prefix[j] == calls[j]);
        }
        lemma_countdown_run(s, prefix);
        let prev = consumer_run(s, prefix);
        assert(prefix[0] == calls[0]);
        assert(prefix.last() == calls[calls.len() - 2]);
        assert(calls[calls.len() - 2].1 <= now);
        assert(calls[0].1 <= calls[calls.len() - 2].1);
        if prev.state != SessionState::Complete {
            assert(consuming(prev));
            assert(frames <= s.capacity);
        }
    }
}

} // verus!
