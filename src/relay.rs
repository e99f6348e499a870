//! The heartbeat relay: while a reply is pending, each elapsed interval gives a
//! "still working" signal; the reply gives one "done" signal, after which the
//! relay is silent for good.
use vstd::prelude::*;

verus! {

/// What the relay's race came out with.
#[derive(PartialEq, Eq, Structural, Clone, Copy, Debug)]
pub enum RelayEvent {
    /// The interval elapsed first.
    Tick,
    /// The reply slot resolved first.
    Resolved,
}

/// What the relay emits on an event.
#[derive(PartialEq, Eq, Structural, Clone, Copy, Debug)]
pub enum Signal {
    StillWorking,
    Done,
    /// Nothing: the relay has finished.
    Silent,
}

/// The signal that an event gives, and whether the relay is done after it.
pub open spec fn relay_step(done: bool, e: RelayEvent) -> (Signal, bool) {
    if done {
        (Signal::Silent, true)
    } else {
        match e {
            RelayEvent::Tick => (Signal::StillWorking, false),
            RelayEvent::Resolved => (Signal::Done, true),
        }
    }
}

/// Whether the relay is done after the events of `es`.
pub open spec fn done_after(done: bool, es: Seq<RelayEvent>) -> bool
    decreases es.len(),
{
    if es.len() == 0 {
        done
    } else {
        relay_step(done_after(done, es.drop_last()), es.last()).1
    }
}

/// The signals emitted on the events of `es`, leaving out the silent ones.
pub open spec fn emitted(done: bool, es: Seq<RelayEvent>) -> Seq<Signal>
    decreases es.len(),
{
    if es.len() == 0 {
        Seq::empty()
    } else {
        let s = relay_step(done_after(done, es.drop_last()), es.last()).0;
        if s == Signal::Silent {
            emitted(done, es.drop_last())
        } else {
            emitted(done, es.drop_last()).push(s)
        }
    }
}

/// The relay of one pending reply.
pub struct Relay {
    done: bool,
}

impl Relay {
    pub closed spec fn is_done(&self) -> bool {
        self.done
    }

    /// A relay that waits for its reply.
    pub fn new() -> (r: Relay)
        ensures
            !r.is_done(),
    {
        Relay { done: false }
    }

    pub fn done(&self) -> (r: bool)
        ensures
            r == self.is_done(),
    {
        self.done
    }

    /// Takes one event of the race and says what to emit.
    pub fn on_event(&mut self, e: RelayEvent) -> (r: Signal)
        ensures
            (r, final(self).is_done()) == relay_step(old(self).is_done(), e),
    {
        if self.done {
            Signal::Silent
        } else {
            match e {
                RelayEvent::Tick => Signal::StillWorking,
                RelayEvent::Resolved => {
                    self.done = true;
                    Signal::Done
                },
            }
        }
    }
}

/// `n` ticks.
pub open spec fn ticks(n: nat) -> Seq<RelayEvent> {
    Seq::new(n, |i: int| RelayEvent::Tick)
}

/// `n` "still working" signals.
pub open spec fn still_working(n: nat) -> Seq<Signal> {
    Seq::new(n, |i: int| Signal::StillWorking)
}

proof fn lemma_ticks(n: nat)
    ensures
        !done_after(false, ticks(n)),
        emitted(false, ticks(n)) == still_working(n),
    decreases n,
{
    if n > 0 {
        assert(ticks(n).drop_last() =~= ticks((n - 1) as nat));
        lemma_ticks((n - 1) as nat);
        assert(still_working(n) =~= still_working((n - 1) as nat).push(Signal::StillWorking));
    }
}

proof fn lemma_silent_after_done(pre: Seq<RelayEvent>, rest: Seq<RelayEvent>)
    requires
        done_after(false, pre),
    ensures
        done_after(false, pre + rest),
        emitted(false, pre + rest) == emitted(false, pre),
    decreases rest.len(),
{
    if rest.len() == 0 {
        assert(pre + rest =~= pre);
    } else {
        assert((pre + rest).drop_last() =~= pre + rest.drop_last());
        lemma_silent_after_done(pre, rest.drop_last());
    }
}

/// A reply that resolves after `n` elapsed intervals gives exactly `n`
/// "still working" signals and then one "done" signal, and nothing follows
/// it, whatever events come after.
pub proof fn lemma_heartbeats(n: nat, rest: Seq<RelayEvent>)
    ensures
        emitted(false, ticks(n).push(RelayEvent::Resolved) + rest) == still_working(n).push(Signal::Done),
        done_after(false, ticks(n).push(RelayEvent::Resolved) + rest),
{
    let pre = ticks(n).push(RelayEvent::Resolved);
    lemma_ticks(n);
    assert(pre.drop_last() =~= ticks(n));
    lemma_silent_after_done(pre, rest);
}

} // verus!
