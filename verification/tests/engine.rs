//! Tests of the click / debounce / long-press state machine, driven by a
//! small event-loop harness that replays timed edge traces.

use button_events::Button;
use button_events::ButtonConfig;
use button_events::ButtonEvent;
use button_events::ButtonState;
use button_events::RaceWinner;
use button_events::WaitKind;

/// Replays an alternating press/release edge trace (starting with a
/// press) against the engine, racing each state's timer against the next
/// edge exactly as an event loop would, and collects the emitted events
/// until the machine is idle with no edges left.
fn run_engine(cfg: ButtonConfig, edges: &[u64]) -> Vec<ButtonEvent> {
    let mut button = Button::new(cfg);
    let mut events = Vec::new();
    let mut i: usize = 0;
    let mut steps: u32 = 0;
    loop {
        steps += 1;
        assert!(steps < 100_000, "runaway simulation");
        let deadline = button.deadline();
        let edge = edges.get(i).copied();
        let (winner, now) = match (edge, deadline) {
            (None, None) => break,
            (Some(e), None) => {
                i += 1;
                (RaceWinner::Edge, e)
            }
            (None, Some(d)) => (RaceWinner::Timer, d),
            (Some(e), Some(d)) => {
                if e <= d {
                    i += 1;
                    (RaceWinner::Edge, e)
                } else {
                    (RaceWinner::Timer, d)
                }
            }
        };
        if let Some(ev) = button.step(winner, now) {
            events.push(ev);
        }
    }
    events
}

const MS: u64 = 1_000;

#[test]
fn default_config_values() {
    let cfg = ButtonConfig::default();
    assert_eq!(cfg.debounce, 20 * MS);
    assert_eq!(cfg.multi_click_window, 250 * MS);
    assert_eq!(cfg.long_press_time, 500 * MS);
    assert_eq!(cfg.long_press_hold_interval, 100 * MS);
}

#[test]
fn single_click() {
    let cfg = ButtonConfig::default();
    // Pressed at 0, released at 100 ms, then silence.
    let events = run_engine(cfg, &[0, 100 * MS]);
    assert_eq!(events, vec![ButtonEvent::Click]);
}

#[test]
fn double_click() {
    let cfg = ButtonConfig::default();
    let events = run_engine(cfg, &[0, 100 * MS, 200 * MS, 300 * MS]);
    assert_eq!(events, vec![ButtonEvent::DoubleClick]);
}

#[test]
fn triple_click() {
    let cfg = ButtonConfig::default();
    let events = run_engine(
        cfg,
        &[0, 100 * MS, 200 * MS, 300 * MS, 400 * MS, 500 * MS],
    );
    assert_eq!(events, vec![ButtonEvent::MultipleClick { count: 3 }]);
}

#[test]
fn bounce_produces_nothing() {
    let cfg = ButtonConfig::default();
    // Five press/release pairs, every edge 2 ms after the previous one:
    // all inside the 20 ms debounce window.
    let edges: Vec<u64> = (0..10u64).map(|k| k * 2 * MS).collect();
    let events = run_engine(cfg, &edges);
    assert_eq!(events, Vec::<ButtonEvent>::new());
}

#[test]
fn bounced_press_does_not_inflate_count() {
    let cfg = ButtonConfig::default();
    // A clean press/release cycle, then a press that bounces away after
    // 5 ms: the bounce discards the pending click.
    let events = run_engine(cfg, &[0, 100 * MS, 200 * MS, 205 * MS]);
    assert_eq!(events, Vec::<ButtonEvent>::new());
}

#[test]
fn release_bounce_keeps_one_press() {
    let cfg = ButtonConfig::default();
    // Press at 0; a 5 ms release blip at 100 ms is rejected on the
    // falling edge; the real release comes at 200 ms. One click.
    let events = run_engine(cfg, &[0, 100 * MS, 105 * MS, 200 * MS]);
    assert_eq!(events, vec![ButtonEvent::Click]);
}

#[test]
fn long_press_start_hold_release() {
    let cfg = ButtonConfig::default();
    // Held from 0 to 870 ms. Confirmed at 20 ms, long press starts at
    // 520 ms, holds catch up from 120 ms in 100 ms steps: holds at
    // 120..820 (8 of them) all lie before the release at 870 ms.
    let events = run_engine(cfg, &[0, 870 * MS]);
    let mut expected = vec![ButtonEvent::LongPressStart];
    for _ in 0..8 {
        expected.push(ButtonEvent::LongPressHold);
    }
    expected.push(ButtonEvent::LongPressRelease);
    assert_eq!(events, expected);
}

#[test]
fn long_press_without_hold() {
    let mut cfg = ButtonConfig::default();
    cfg.long_press_hold_interval = 400 * MS;
    // Confirmed at 20 ms, long press at 520 ms, first hold would come at
    // 420 ms (already passed, fires at once), next at 820 ms: released
    // at 600 ms, so exactly one hold sneaks in.
    let events = run_engine(cfg, &[0, 600 * MS]);
    assert_eq!(
        events,
        vec![
            ButtonEvent::LongPressStart,
            ButtonEvent::LongPressHold,
            ButtonEvent::LongPressRelease,
        ]
    );
}

#[test]
fn long_press_leaves_no_trailing_click() {
    let cfg = ButtonConfig::default();
    // A long press, then a clean click: the long press contributes no
    // count to the later sequence.
    let events = run_engine(cfg, &[0, 600 * MS, 1_000 * MS, 1_100 * MS]);
    assert_eq!(events[0], ButtonEvent::LongPressStart);
    assert_eq!(events[events.len() - 2], ButtonEvent::LongPressRelease);
    assert_eq!(events[events.len() - 1], ButtonEvent::Click);
}

#[test]
fn wait_kind_follows_state() {
    let cfg = ButtonConfig::default();
    let mut button = Button::new(cfg);
    assert_eq!(button.wait_kind(), WaitKind::Press);
    assert_eq!(button.deadline(), None);
    assert_eq!(button.step(RaceWinner::Edge, 0), None);
    assert_eq!(button.wait_kind(), WaitKind::Release);
    assert_eq!(button.deadline(), Some(cfg.debounce));
}

#[test]
fn spurious_timer_in_idle_is_ignored() {
    let mut button = Button::new(ButtonConfig::default());
    assert_eq!(button.step(RaceWinner::Timer, 123), None);
    assert_eq!(button.deadline(), None);
    assert_eq!(button.wait_kind(), WaitKind::Press);
}

#[test]
fn reset_discards_in_flight_timing() {
    let cfg = ButtonConfig::default();
    let mut button = Button::new(cfg);
    button.step(RaceWinner::Edge, 0); // press being debounced
    button.reset();
    assert_eq!(button.deadline(), None);
    assert_eq!(button.wait_kind(), WaitKind::Press);
}

#[test]
fn set_config_applies_to_next_timer() {
    let mut cfg = ButtonConfig::default();
    let mut button = Button::new(cfg);
    cfg.debounce = 40 * MS;
    button.set_config(cfg);
    button.step(RaceWinner::Edge, 0);
    assert_eq!(button.deadline(), Some(40 * MS));
}

#[test]
fn many_clicks_count_up() {
    let cfg = ButtonConfig::default();
    // Five clean cycles, 200 ms period: one MultipleClick{5}.
    let mut edges = Vec::new();
    for k in 0..5u64 {
        edges.push(k * 200 * MS);
        edges.push(k * 200 * MS + 100 * MS);
    }
    let events = run_engine(cfg, &edges);
    assert_eq!(events, vec![ButtonEvent::MultipleClick { count: 5 }]);
}

#[test]
fn state_values_are_plain_data() {
    // ButtonState is public so that event loops can log or persist it.
    let s = ButtonState::PressDebouncing { count: 0, start_time: 7 };
    match s {
        ButtonState::PressDebouncing { count, start_time } => {
            assert_eq!(count, 0);
            assert_eq!(start_time, 7);
        }
        _ => panic!("wrong variant"),
    }
}
