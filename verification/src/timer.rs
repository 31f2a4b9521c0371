//! The timing primitives: an iterator adaptor that paces each step to a
//! fixed interval, and the tick bookkeeping of the repeating-timer
//! dispatcher that drives cine playback and periodic state pushes.
//!
//! The dispatcher's background loop (a thread waking every poll interval)
//! lives outside the library; it calls `timer_tick` each wake and delivers
//! the payloads that come back.

use crate::time::instant_now;
use vstd::std_specs::iter::IteratorSpec;
use vstd::prelude::*;

verus! {

#[verifier::external_type_specification]
#[verifier::external_body]
#[verifier::reject_recursive_types(A)]
pub struct ExRepeat<A>(core::iter::Repeat<A>);

/// Relies on `core::iter::repeat`: an endless source of `()` items.
#[verifier::external_body]
fn repeat_unit() -> core::iter::Repeat<()> {
    core::iter::repeat(())
}

/// Relies on `spin_sleep::sleep` (and `Instant::elapsed`): sleeps whatever
/// remains of `timeout_ns` measured from `since`, returning without delay
/// when the timeout has already passed.
#[verifier::external_body]
fn sleep_remainder(since: &std::time::Instant, timeout_ns: u64) {
    let timeout = core::time::Duration::from_nanos(timeout_ns);
    spin_sleep::sleep(timeout.saturating_sub(since.elapsed()));
}

/// An iterator paced to yield at most one item per `timeout_ns` interval:
/// each step first sleeps out the remainder of the interval since the
/// previous step, then takes the next inner item.
pub struct TimedIter<I> {
    pub time_since_last: std::time::Instant,
    pub timeout_ns: u64,
    pub inner: I,
}

impl<I: Iterator> TimedIter<I> {
    /// Sleep out the interval, then step the inner iterator; yields exactly
    /// the inner iterator's items, in order.
    pub fn next_item(&mut self) -> (ret: Option<I::Item>)
        ensures
            final(self).timeout_ns == old(self).timeout_ns,
            final(self).inner.obeys_prophetic_iter_laws() == old(
                self,
            ).inner.obeys_prophetic_iter_laws(),
            old(self).inner.obeys_prophetic_iter_laws() ==> (if old(
                self,
            ).inner.remaining().len() > 0 {
                final(self).inner.remaining() == old(self).inner.remaining().drop_first() && ret
                    == Some(old(self).inner.remaining()[0])
            } else {
                ret is None
            }),
    {
        sleep_remainder(&self.time_since_last, self.timeout_ns);
        self.time_since_last = instant_now();
        self.inner.next()
    }
}

/// Wraps any iterator in a `TimedIter` with the given interval.
pub trait TimedIterExt: Sized {
    type IterType;

    fn timed(self, timeout_ns: u64) -> TimedIter<Self::IterType>;
}

impl<I: Iterator> TimedIterExt for I {
    type IterType = I;

    fn timed(self, timeout_ns: u64) -> (r: TimedIter<I>)
        ensures
            r.timeout_ns == timeout_ns,
            r.inner == self,
    {
        TimedIter { time_since_last: instant_now(), inner: self, timeout_ns }
    }
}

/// An endless ticker: one `()` per `timeout_ns` interval.
pub fn timer(timeout_ns: u64) -> (r: TimedIter<core::iter::Repeat<()>>)
    ensures
        r.timeout_ns == timeout_ns,
{
    repeat_unit().timed(timeout_ns)
}

/// One registered timer entry of the dispatcher: its payload, the polls
/// left until it fires, the polls of one full interval (for re-arming), and
/// whether it repeats.
#[derive(Debug, Clone, Copy)]
pub struct TimerMessage<T> {
    pub message: T,
    pub repeat: bool,
    pub ticks: usize,
    pub interval_polls: usize,
}

/// The number of poll intervals that cover `duration_ns`: the ceiling of
/// their quotient, at least 1, saturated at `usize`.
pub open spec fn spec_duration_to_polls(duration_ns: int, poll_ns: int) -> int
    recommends
        poll_ns >= 1,
{
    let polls = (duration_ns + poll_ns - 1) / poll_ns;
    if polls < 1 {
        1
    } else if polls > usize::MAX {
        usize::MAX as int
    } else {
        polls
    }
}

/// How many dispatcher wakes cover a duration.
pub fn duration_to_polls(duration_ns: u64, poll_ns: u64) -> (r: usize)
    requires
        poll_ns >= 1,
    ensures
        r as int == spec_duration_to_polls(duration_ns as int, poll_ns as int),
        r >= 1,
{
    let wide: u128 = (duration_ns as u128 + poll_ns as u128 - 1) / (poll_ns as u128);
    proof {
        vstd::arithmetic::div_mod::lemma_div_pos_is_pos(
            duration_ns as int + poll_ns - 1,
            poll_ns as int,
        );
    }
    if wide < 1 {
        1
    } else if wide > usize::MAX as u128 {
        usize::MAX
    } else {
        wide as usize
    }
}

/// What one wake does to a timer entry: the tick count falls by one (it
/// never goes below zero); the entry fires when it reaches zero.
pub open spec fn spec_entry_next_ticks<T>(e: TimerMessage<T>) -> int {
    if e.ticks >= 1 {
        e.ticks - 1
    } else {
        0
    }
}

pub open spec fn spec_entry_fires<T>(e: TimerMessage<T>) -> bool {
    spec_entry_next_ticks(e) == 0
}

/// A fired repeating entry is re-armed to a full interval (at least one
/// poll).
pub open spec fn spec_rearm<T>(e: TimerMessage<T>) -> TimerMessage<T> {
    TimerMessage {
        ticks: if e.interval_polls >= 1 {
            e.interval_polls
        } else {
            1
        },
        ..e
    }
}

/// The entries that survive one wake, in order: unexpired entries with
/// their tick counts decremented, and fired repeating entries re-armed;
/// fired one-shot entries leave.
pub open spec fn spec_tick_survivors<T>(s: Seq<TimerMessage<T>>) -> Seq<TimerMessage<T>>
    decreases s.len(),
{
    if s.len() == 0 {
        Seq::empty()
    } else {
        let head = s[0];
        let rest = spec_tick_survivors(s.skip(1));
        if !spec_entry_fires(head) {
            seq![TimerMessage { ticks: spec_entry_next_ticks(head) as usize, ..head }] + rest
        } else if head.repeat {
            seq![spec_rearm(head)] + rest
        } else {
            rest
        }
    }
}

/// The payloads dispatched by one wake, in registration order: one per
/// entry that fired.
pub open spec fn spec_tick_dispatched<T>(s: Seq<TimerMessage<T>>) -> Seq<T>
    decreases s.len(),
{
    if s.len() == 0 {
        Seq::empty()
    } else {
        let head = s[0];
        let rest = spec_tick_dispatched(s.skip(1));
        if spec_entry_fires(head) {
            seq![head.message] + rest
        } else {
            rest
        }
    }
}

/// One wake of the dispatcher: decrement every entry, dispatch those that
/// reach zero, re-arm the repeating ones and drop the fired one-shots.
/// Returns the payloads to deliver, in registration order.
pub fn timer_tick<T: Copy>(timers: &mut Vec<TimerMessage<T>>) -> (dispatched: Vec<T>)
    ensures
        final(timers)@ == spec_tick_survivors(old(timers)@),
        dispatched@ == spec_tick_dispatched(old(timers)@),
{
    let n = timers.len();
    let mut survivors: Vec<TimerMessage<T>> = Vec::new();
    let mut dispatched: Vec<T> = Vec::new();
    let mut i: usize = 0;
    while i < n
        invariant
            i <= n,
            n == timers@.len(),
            timers@ == old(timers)@,
            survivors@ == spec_tick_survivors(timers@.take(i as int)),
            dispatched@ == spec_tick_dispatched(timers@.take(i as int)),
        decreases n - i,
    {
        let e = timers[i];
        let next_ticks: usize = if e.ticks >= 1 {
            e.ticks - 1
        } else {
            0
        };
        if next_ticks > 0 {
            survivors.push(TimerMessage { ticks: next_ticks, ..e });
        } else {
            dispatched.push(e.message);
            if e.repeat {
                let interval = if e.interval_polls >= 1 {
                    e.interval_polls
                } else {
                    1
                };
                survivors.push(TimerMessage { ticks: interval, ..e });
            }
        }
        proof {
            lemma_tick_snoc(timers@, i as int);
            assert(timers@.take(i as int + 1) == timers@.take(i as int).push(timers@[i as int]));
        }
        i = i + 1;
    }
    proof {
        assert(timers@.take(n as int) =~= timers@);
    }
    *timers = survivors;
    dispatched
}

/// Appending one entry extends the wake's survivors and dispatches by that
/// entry's own step.
proof fn lemma_tick_snoc<T>(s: Seq<TimerMessage<T>>, i: int)
    requires
        0 <= i < s.len(),
    ensures
        spec_tick_survivors(s.take(i + 1)) == spec_tick_survivors(s.take(i)) + (if !spec_entry_fires(
            s[i],
        ) {
            seq![TimerMessage { ticks: spec_entry_next_ticks(s[i]) as usize, ..s[i] }]
        } else if s[i].repeat {
            seq![spec_rearm(s[i])]
        } else {
            Seq::empty()
        }),
        spec_tick_dispatched(s.take(i + 1)) == spec_tick_dispatched(s.take(i)) + (if spec_entry_fires(
            s[i],
        ) {
            seq![s[i].message]
        } else {
            Seq::empty()
        }),
    decreases i,
{
    let a = s.take(i + 1);
    let b = s.take(i);
    if i == 0 {
        assert(b =~= Seq::<TimerMessage<T>>::empty());
        assert(a.skip(1) =~= Seq::<TimerMessage<T>>::empty());
        assert(a[0] == s[0]);
        assert(spec_tick_survivors(b) == Seq::<TimerMessage<T>>::empty());
        assert(spec_tick_dispatched(b) == Seq::<T>::empty());
        assert(spec_tick_survivors(b) + (if !spec_entry_fires(s[0]) {
            seq![TimerMessage { ticks: spec_entry_next_ticks(s[0]) as usize, ..s[0] }]
        } else if s[0].repeat {
            seq![spec_rearm(s[0])]
        } else {
            Seq::empty()
        }) =~= spec_tick_survivors(a));
        assert(spec_tick_dispatched(b) + (if spec_entry_fires(s[0]) {
            seq![s[0].message]
        } else {
            Seq::<T>::empty()
        }) =~= spec_tick_dispatched(a));
    } else {
        lemma_tick_snoc(s.skip(1), i - 1);
        assert(a.skip(1) =~= s.skip(1).take(i));
        assert(b.skip(1) =~= s.skip(1).take(i - 1));
        assert(a[0] == s[0] && b[0] == s[0]);
        assert(s.skip(1)[i - 1] == s[i]);
        assert(spec_tick_survivors(a) == (if !spec_entry_fires(s[0]) {
            seq![TimerMessage { ticks: spec_entry_next_ticks(s[0]) as usize, ..s[0] }]
        } else if s[0].repeat {
            seq![spec_rearm(s[0])]
        } else {
            Seq::empty()
        }) + spec_tick_survivors(s.skip(1).take(i)));
        assert((if !spec_entry_fires(s[0]) {
            seq![TimerMessage { ticks: spec_entry_next_ticks(s[0]) as usize, ..s[0] }]
        } else if s[0].repeat {
            seq![spec_rearm(s[0])]
        } else {
            Seq::<TimerMessage<T>>::empty()
        }) + (spec_tick_survivors(s.skip(1).take(i - 1)) + (if !spec_entry_fires(s[i]) {
            seq![TimerMessage { ticks: spec_entry_next_ticks(s[i]) as usize, ..s[i] }]
        } else if s[i].repeat {
            seq![spec_rearm(s[i])]
        } else {
            Seq::empty()
        })) =~= spec_tick_survivors(b) + (if !spec_entry_fires(s[i]) {
            seq![TimerMessage { ticks: spec_entry_next_ticks(s[i]) as usize, ..s[i] }]
        } else if s[i].repeat {
            seq![spec_rearm(s[i])]
        } else {
            Seq::empty()
        }));
        assert((if spec_entry_fires(s[0]) {
            seq![s[0].message]
        } else {
            Seq::<T>::empty()
        }) + (spec_tick_dispatched(s.skip(1).take(i - 1)) + (if spec_entry_fires(s[i]) {
            seq![s[i].message]
        } else {
            Seq::empty()
        })) =~= spec_tick_dispatched(b) + (if spec_entry_fires(s[i]) {
            seq![s[i].message]
        } else {
            Seq::empty()
        }));
    }
}

} // verus!
