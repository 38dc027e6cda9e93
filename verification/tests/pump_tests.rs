use menma::event::{Event, KeyCode, KeyEvent, Modifiers, TermEvent};
use menma::pump::{Pump, DEFAULT_TICK_MILLIS, NANOS_PER_MILLI};

fn key(c: char) -> KeyEvent {
    KeyEvent { code: KeyCode::Char(c), modifiers: Modifiers::Plain }
}

#[test]
fn default_period_is_a_quarter_second() {
    assert_eq!(DEFAULT_TICK_MILLIS, 250);
    assert_eq!(NANOS_PER_MILLI, 1_000_000);
    let pump = Pump::with_millis(DEFAULT_TICK_MILLIS, 0).unwrap();
    assert_eq!(pump.period(), 250_000_000);
}

#[test]
fn period_that_does_not_fit_is_refused() {
    assert!(Pump::with_millis(u64::MAX, 0).is_none());
    assert!(Pump::with_millis(u64::MAX / 1_000_000 + 1, 0).is_none());
    assert_eq!(
        Pump::with_millis(u64::MAX / 1_000_000, 0).unwrap().period(),
        (u64::MAX / 1_000_000) * 1_000_000
    );
}

#[test]
fn timeout_is_what_is_left_of_the_period() {
    let pump = Pump::new(250, 1000);
    assert_eq!(pump.poll_timeout(1000), 250);
    assert_eq!(pump.poll_timeout(1100), 150);
    assert_eq!(pump.poll_timeout(1249), 1);
    assert_eq!(pump.poll_timeout(1250), 0);
    assert_eq!(pump.poll_timeout(5000), 0);
}

#[test]
fn clock_that_reads_earlier_counts_as_no_time_passed() {
    let pump = Pump::new(250, 1000);
    assert_eq!(pump.poll_timeout(900), 250);
    assert_eq!(pump.tick_due(900), false);
}

#[test]
fn tick_is_due_after_a_full_period() {
    let pump = Pump::new(250, 1000);
    assert_eq!(pump.tick_due(1000), false);
    assert_eq!(pump.tick_due(1249), false);
    assert_eq!(pump.tick_due(1250), true);
    assert_eq!(pump.tick_due(9999), true);
}

#[test]
fn key_is_forwarded_at_once_and_keeps_the_tick_clock() {
    let mut pump = Pump::new(250, 0);
    let events = pump.after_poll(100, Some(TermEvent::Key(key('a'))));
    assert_eq!(events, vec![Event::Input(key('a'))]);
    assert_eq!(pump.poll_timeout(100), 150);
    let events = pump.after_poll(200, Some(TermEvent::Key(key('b'))));
    assert_eq!(events, vec![Event::Input(key('b'))]);
    assert_eq!(pump.poll_timeout(200), 50);
    let events = pump.after_poll(250, None);
    assert_eq!(events, vec![Event::Tick]);
    assert_eq!(pump.poll_timeout(250), 250);
}

#[test]
fn key_comes_before_the_tick_of_the_same_round() {
    let mut pump = Pump::new(250, 0);
    let events = pump.after_poll(260, Some(TermEvent::Key(key('a'))));
    assert_eq!(events, vec![Event::Input(key('a')), Event::Tick]);
    assert_eq!(pump.poll_timeout(260), 250);
    assert_eq!(pump.tick_due(509), false);
    assert_eq!(pump.tick_due(510), true);
}

#[test]
fn report_that_is_no_key_is_not_forwarded() {
    let mut pump = Pump::new(250, 0);
    assert_eq!(pump.after_poll(10, Some(TermEvent::Other)), vec![]);
    assert_eq!(pump.after_poll(250, Some(TermEvent::Other)), vec![Event::Tick]);
}

#[test]
fn silent_round_before_the_period_ends_forwards_nothing() {
    let mut pump = Pump::new(250, 0);
    assert_eq!(pump.after_poll(249, None), vec![]);
    assert_eq!(pump.poll_timeout(249), 1);
}

#[test]
fn idle_clock_gives_one_tick_per_period() {
    let mut pump = Pump::new(250, 40);
    let mut now: u64 = 40;
    let mut ticks = 0;
    for round in 1..=20u64 {
        now += pump.poll_timeout(now);
        let events = pump.after_poll(now, None);
        assert_eq!(events, vec![Event::Tick]);
        ticks += 1;
        assert_eq!(now, 40 + round * 250);
    }
    assert_eq!(ticks, 20);
}

#[test]
fn idle_clock_started_mid_period_gives_one_tick_per_period() {
    let mut pump = Pump::new(250, 0);
    let mut now: u64 = 130;
    let mut seen: Vec<Event> = Vec::new();
    for _ in 0..4 {
        now += pump.poll_timeout(now);
        seen.extend(pump.after_poll(now, None));
    }
    assert_eq!(seen, vec![Event::Tick; 4]);
    assert_eq!(now, 1000);
}

#[test]
fn zero_period_ticks_every_round() {
    let mut pump = Pump::new(0, 5);
    assert_eq!(pump.poll_timeout(5), 0);
    assert_eq!(pump.after_poll(5, None), vec![Event::Tick]);
    assert_eq!(pump.after_poll(5, None), vec![Event::Tick]);
}
