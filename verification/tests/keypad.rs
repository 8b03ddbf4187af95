//! Tests of keymask decoding, deduplication, the keymask-bit adapter,
//! and the decoded-keypad-to-click pipeline.

use button_events::Button;
use button_events::ButtonConfig;
use button_events::ButtonEvent;
use button_events::RaceWinner;
use button_events::adc::AdcFilter;
use button_events::adc::RawFilter;
use button_events::adc_keypad::KeyDecoder;
use button_events::adc_keypad::KeypadButton;
use button_events::adc_keypad::MaskDedup;
use button_events::bus::BroadcastBus;

/// A resistor-ladder decoder: one voltage band per key.
struct LadderDecoder;

impl KeyDecoder for LadderDecoder {
    fn decode(&self, value: u16) -> u32 {
        if (900..=1100).contains(&value) {
            1 << 0
        } else if (1900..=2100).contains(&value) {
            1 << 1
        } else {
            0
        }
    }
}

fn run_engine(cfg: ButtonConfig, edges: &[u64]) -> Vec<ButtonEvent> {
    let mut button = Button::new(cfg);
    let mut events = Vec::new();
    let mut i: usize = 0;
    let mut steps: u32 = 0;
    loop {
        steps += 1;
        assert!(steps < 100_000, "runaway simulation");
        let deadline = button.deadline();
        let edge = edges.get(i).copied();
        let (winner, now) = match (edge, deadline) {
            (None, None) => break,
            (Some(e), None) => {
                i += 1;
                (RaceWinner::Edge, e)
            }
            (None, Some(d)) => (RaceWinner::Timer, d),
            (Some(e), Some(d)) => {
                if e <= d {
                    i += 1;
                    (RaceWinner::Edge, e)
                } else {
                    (RaceWinner::Timer, d)
                }
            }
        };
        if let Some(ev) = button.step(winner, now) {
            events.push(ev);
        }
    }
    events
}

#[test]
fn dedup_passes_only_changes() {
    let mut dedup = MaskDedup::new();
    assert_eq!(dedup.update(0), Some(0));
    assert_eq!(dedup.update(0), None);
    assert_eq!(dedup.update(2), Some(2));
    assert_eq!(dedup.update(2), None);
    assert_eq!(dedup.update(0), Some(0));
}

#[test]
fn adapter_watches_only_its_own_bit() {
    let mut b = KeypadButton::new(1);
    assert!(!b.is_pressed());
    b.observe(0b0001); // some other key
    assert!(!b.is_pressed());
    b.observe(0b0011); // ours too
    assert!(b.is_pressed());
    b.observe(0b0001);
    assert!(!b.is_pressed());
}

#[test]
fn adapter_cache_answers_before_any_message() {
    // A key already reported held keeps reading as held from the cache,
    // with no further bus traffic.
    let mut b = KeypadButton::new(0);
    b.observe(1);
    assert!(b.is_pressed());
    assert!(b.is_pressed());
}

#[test]
fn decoder_bands() {
    let d = LadderDecoder;
    assert_eq!(d.decode(1000), 1);
    assert_eq!(d.decode(2000), 2);
    assert_eq!(d.decode(50), 0);
    assert_eq!(d.decode(u16::MAX), 0);
}

#[test]
fn test_keypad_button_integration() {
    // Idle voltage for 50 ms, then 2000 (key 1's band) for 50 ms, then
    // idle again: the decode loop publishes each mask change once, the
    // key-1 adapter turns them into edges, and the engine reports one
    // click. Timing uses 50 ms holds against the default 20 ms debounce.
    const MS: u64 = 1_000;
    let decoder = LadderDecoder;
    let mut filter = RawFilter::default();
    let mut dedup = MaskDedup::new();
    let mut bus: BroadcastBus<u32> = BroadcastBus::new(4, 4, 4);
    let sub = bus.subscribe().unwrap();
    let mut adapter = KeypadButton::new(1);

    let mut edges: Vec<u64> = Vec::new();
    let mut pressed = false;
    for k in 0..200u64 {
        let t = k * MS;
        let raw: u16 = if t < 50 * MS {
            0
        } else if t < 100 * MS {
            2000
        } else {
            0
        };
        if let Some(stabilized) = filter.process(raw) {
            let mask = decoder.decode(stabilized);
            if let Some(changed) = dedup.update(mask) {
                bus.publish(changed);
            }
        }
        while let Some(mask) = bus.try_next(sub) {
            adapter.observe(mask);
            if adapter.is_pressed() != pressed {
                pressed = adapter.is_pressed();
                edges.push(t);
            }
        }
    }
    assert_eq!(edges, vec![50 * MS, 100 * MS]);

    let events = run_engine(ButtonConfig::default(), &edges);
    assert_eq!(events, vec![ButtonEvent::Click]);
}

#[test]
fn unchanged_masks_cause_no_traffic() {
    let decoder = LadderDecoder;
    let mut dedup = MaskDedup::new();
    let mut published: usize = 0;
    for value in [500u16, 501, 502, 1000, 1001, 1000, 400, 300] {
        let mask = decoder.decode(value);
        if dedup.update(mask).is_some() {
            published += 1;
        }
    }
    // 0 (first), then 1 on entering the band, then 0 on leaving it.
    assert_eq!(published, 3);
}
