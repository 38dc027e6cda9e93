//! The input pump's schedule: how long to wait for a key, and when a tick is
//! due.
//!
//! The pump runs on its own thread. It polls the terminal with a timeout that
//! ends when the next tick is due, forwards a key press at once, and emits a
//! tick whenever a full tick period has passed since the last one. This
//! module holds the decisions; the polling itself is the driver's. Time is a
//! count of nanoseconds on a clock that never runs backwards.

use crate::event::{Event, TermEvent};
use vstd::prelude::*;

verus! {

/// The tick period used when none is configured, in milliseconds.
pub const DEFAULT_TICK_MILLIS: u64 = 250;

/// Nanoseconds in a millisecond.
pub const NANOS_PER_MILLI: u64 = 1_000_000;

/// The pump's state as plain values.
pub struct PumpView {
    /// The tick period.
    pub period: nat,
    /// When the last tick was emitted, or the pump was started.
    pub last_tick: nat,
}

/// What one round of the pump leaves: the next state and what was forwarded.
pub struct Round {
    pub pump: PumpView,
    pub events: Seq<Event>,
}

/// What a run of idle rounds leaves: the next state, the clock, and what was
/// forwarded.
pub struct IdleRun {
    pub pump: PumpView,
    pub now: nat,
    pub events: Seq<Event>,
}

impl PumpView {
    /// The time since the last tick; zero if the clock reads earlier.
    pub open spec fn elapsed(self, now: nat) -> nat {
        if now >= self.last_tick {
            (now - self.last_tick) as nat
        } else {
            0
        }
    }

    /// How long to wait for a key: what is left of the tick period, or zero
    /// if it is over.
    pub open spec fn poll_timeout(self, now: nat) -> nat {
        if self.period >= self.elapsed(now) {
            (self.period - self.elapsed(now)) as nat
        } else {
            0
        }
    }

    /// A full tick period has passed since the last tick.
    pub open spec fn tick_due(self, now: nat) -> bool {
        self.elapsed(now) >= self.period
    }

    /// One round: the wait ended at `now` with `report`, if the terminal had
    /// anything. A key press is forwarded first and does not reset the tick
    /// clock; then a tick is emitted if one is due, and the clock reset.
    pub open spec fn after_poll(self, now: nat, report: Option<TermEvent>) -> Round {
        let input = match report {
            Some(TermEvent::Key(key)) => seq![Event::Input(key)],
            _ => Seq::<Event>::empty(),
        };
        if self.tick_due(now) {
            Round {
                pump: PumpView { last_tick: now, ..self },
                events: input.push(Event::Tick),
            }
        } else {
            Round { pump: self, events: input }
        }
    }

    /// `n` rounds in which the terminal stays silent and each wait ends
    /// exactly when its timeout does.
    pub open spec fn idle_run(self, now: nat, n: nat) -> IdleRun
        decreases n,
    {
        if n == 0 {
            IdleRun { pump: self, now, events: Seq::empty() }
        } else {
            let woke = now + self.poll_timeout(now);
            let round = self.after_poll(woke, None);
            let rest = round.pump.idle_run(woke, (n - 1) as nat);
            IdleRun { pump: rest.pump, now: rest.now, events: round.events + rest.events }
        }
    }
}

/// `n` ticks and nothing else.
pub open spec fn ticks(n: nat) -> Seq<Event> {
    Seq::new(n, |i: int| Event::Tick)
}

/// A key press never delays or advances the tick: with or without a report
/// from the terminal, a round emits a tick under the same condition and
/// leaves the same state.
pub proof fn lemma_key_keeps_tick_clock(p: PumpView, now: nat, report: Option<TermEvent>)
    ensures
        p.after_poll(now, report).pump == p.after_poll(now, None).pump,
        p.after_poll(now, report).events.len() > 0 && p.after_poll(now, report).events.last()
            == Event::Tick <==> p.tick_due(now),
        report matches Some(TermEvent::Key(key)) ==> p.after_poll(now, report).events[0]
            == Event::Input(key),
{
}

/// On a silent terminal each round emits exactly one tick, one tick period
/// after the last: after `n` rounds that started no later than a period
/// after the last tick, `n` ticks were forwarded and nothing else, and the
/// clock stands `n` periods after that tick.
pub proof fn lemma_one_tick_per_period(p: PumpView, now: nat, n: nat)
    requires
        p.last_tick <= now <= p.last_tick + p.period,
    ensures
        p.idle_run(now, n).events == ticks(n),
        n > 0 ==> p.idle_run(now, n).now == p.last_tick + n * p.period,
        n > 0 ==> p.idle_run(now, n).pump.last_tick == p.last_tick + n * p.period,
        p.idle_run(now, n).pump.period == p.period,
    decreases n,
{
    if n == 0 {
        assert(p.idle_run(now, n).events =~= ticks(n));
    } else {
        let woke = now + p.poll_timeout(now);
        assert(woke == p.last_tick + p.period);
        let round = p.after_poll(woke, None);
        assert(round.events =~= seq![Event::Tick]);
        lemma_one_tick_per_period(round.pump, woke, (n - 1) as nat);
        let rest = round.pump.idle_run(woke, (n - 1) as nat);
        assert(round.events + rest.events =~= ticks(n));
        assert(p.last_tick + n * p.period == woke + (n - 1) * p.period) by (nonlinear_arith)
            requires
                woke == p.last_tick + p.period,
                n > 0,
        ;
    }
}

/// The pump's schedule.
pub struct Pump {
    period: u64,
    last_tick: u64,
}

impl View for Pump {
    type V = PumpView;

    closed spec fn view(&self) -> PumpView {
        PumpView { period: self.period as nat, last_tick: self.last_tick as nat }
    }
}

impl Pump {
    /// A pump started at `now` that ticks every `period` nanoseconds.
    pub fn new(period: u64, now: u64) -> (pump: Pump)
        ensures
            pump@ == (PumpView { period: period as nat, last_tick: now as nat }),
    {
        Pump { period, last_tick: now }
    }

    /// A pump started at `now` that ticks every `millis` milliseconds, or
    /// none if that period does not fit the clock.
    pub fn with_millis(millis: u64, now: u64) -> (pump: Option<Pump>)
        ensures
            match pump {
                Some(p) => p@ == (PumpView {
                    period: (millis * NANOS_PER_MILLI) as nat,
                    last_tick: now as nat,
                }),
                None => millis * NANOS_PER_MILLI > u64::MAX,
            },
    {
        match millis.checked_mul(NANOS_PER_MILLI) {
            Some(period) => Some(Pump::new(period, now)),
            None => None,
        }
    }

    /// The tick period in nanoseconds.
    pub fn period(&self) -> (period: u64)
        ensures
            period == self@.period,
    {
        self.period
    }

    /// How long to wait for a key at `now`.
    pub fn poll_timeout(&self, now: u64) -> (timeout: u64)
        ensures
            timeout == self@.poll_timeout(now as nat),
    {
        self.period.saturating_sub(now.saturating_sub(self.last_tick))
    }

    /// Whether a tick is due at `now`.
    pub fn tick_due(&self, now: u64) -> (due: bool)
        ensures
            due == self@.tick_due(now as nat),
    {
        now.saturating_sub(self.last_tick) >= self.period
    }

    /// One round: the wait ended at `now` with `report`. The result is what
    /// to forward, in order.
    pub fn after_poll(&mut self, now: u64, report: Option<TermEvent>) -> (events: Vec<Event>)
        ensures
            final(self)@ == old(self)@.after_poll(now as nat, report).pump,
            events@ == old(self)@.after_poll(now as nat, report).events,
    {
        let mut events: Vec<Event> = Vec::new();
        match report {
            Some(TermEvent::Key(key)) => {
                events.push(Event::Input(key));
            },
            _ => {},
        }
        if self.tick_due(now) {
            events.push(Event::Tick);
            self.last_tick = now;
        }
        events
    }
}

} // verus!
