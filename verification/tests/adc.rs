//! Tests of the sample filters, the threshold adapter, and the full
//! sampled-voltage-to-click pipeline.

use button_events::Button;
use button_events::ButtonConfig;
use button_events::ButtonEvent;
use button_events::RaceWinner;
use button_events::adc::AdcFilter;
use button_events::adc::MedianFilter;
use button_events::adc::RawFilter;
use button_events::adc::SimpleAdcButton;
use button_events::bus::BroadcastBus;

fn run_engine(cfg: ButtonConfig, edges: &[u64]) -> Vec<ButtonEvent> {
    let mut button = Button::new(cfg);
    let mut events = Vec::new();
    let mut i: usize = 0;
    let mut steps: u32 = 0;
    loop {
        steps += 1;
        assert!(steps < 100_000, "runaway simulation");
        let deadline = button.deadline();
        let edge = edges.get(i).copied();
        let (winner, now) = match (edge, deadline) {
            (None, None) => break,
            (Some(e), None) => {
                i += 1;
                (RaceWinner::Edge, e)
            }
            (None, Some(d)) => (RaceWinner::Timer, d),
            (Some(e), Some(d)) => {
                if e <= d {
                    i += 1;
                    (RaceWinner::Edge, e)
                } else {
                    (RaceWinner::Timer, d)
                }
            }
        };
        if let Some(ev) = button.step(winner, now) {
            events.push(ev);
        }
    }
    events
}

#[test]
fn raw_filter_passes_everything_through() {
    let mut f = RawFilter::default();
    assert_eq!(f.process(0), Some(0));
    assert_eq!(f.process(4095), Some(4095));
    assert_eq!(f.inter_sample_delay(), 0);
}

#[test]
fn median_filter_needs_a_full_window() {
    let mut f = MedianFilter::new(5);
    assert_eq!(f.process(10), None);
    assert_eq!(f.process(50), None);
    assert_eq!(f.process(30), None);
    assert_eq!(f.process(20), None);
    // Fifth sample completes the window {10, 50, 30, 20, 40}: median 30.
    assert_eq!(f.process(40), Some(30));
}

#[test]
fn median_filter_restarts_after_each_output() {
    let mut f = MedianFilter::new(3);
    assert_eq!(f.process(9), None);
    assert_eq!(f.process(1), None);
    assert_eq!(f.process(5), Some(5));
    // A new window starts immediately; earlier samples do not leak in.
    assert_eq!(f.process(100), None);
    assert_eq!(f.process(102), None);
    assert_eq!(f.process(101), Some(101));
}

#[test]
fn median_filter_even_window_takes_upper_middle() {
    let mut f = MedianFilter::new(4);
    assert_eq!(f.process(4), None);
    assert_eq!(f.process(1), None);
    assert_eq!(f.process(3), None);
    // Sorted window {1, 2, 3, 4}: index 4 / 2 = 2 holds 3.
    assert_eq!(f.process(2), Some(3));
}

#[test]
fn median_filter_single_sample_window() {
    let mut f = MedianFilter::new(1);
    assert_eq!(f.process(7), Some(7));
    assert_eq!(f.process(9), Some(9));
}

#[test]
fn median_filter_handles_duplicates() {
    let mut f = MedianFilter::new(3);
    assert_eq!(f.process(8), None);
    assert_eq!(f.process(8), None);
    assert_eq!(f.process(2), Some(8));
}

#[test]
fn median_filter_asks_for_settle_delay() {
    let f = MedianFilter::new(3);
    assert_eq!(f.inter_sample_delay(), 100);
}

#[test]
fn threshold_window_is_inclusive() {
    let b = SimpleAdcButton::new(900, 1100);
    assert!(b.is_press_value(900));
    assert!(b.is_press_value(1000));
    assert!(b.is_press_value(1100));
    assert!(!b.is_press_value(899));
    assert!(!b.is_press_value(1101));
    assert!(b.is_release_value(0));
    assert!(b.is_release_value(1101));
    assert!(!b.is_release_value(1000));
}

#[test]
fn test_adc_single_click() {
    // Voltage 0, then 1000 (inside [900, 1100]) for 100 ms, then 0 for
    // 300 ms, sampled every millisecond through a RawFilter into the
    // bus; the threshold adapter turns the published samples into edges
    // and the engine, on default timing, reports exactly one click.
    const PRESS_VOLTAGE: u16 = 1000;
    const THRESHOLD_LOW: u16 = 900;
    const THRESHOLD_HIGH: u16 = 1100;
    const MS: u64 = 1_000;

    let mut bus: BroadcastBus<u16> = BroadcastBus::new(4, 4, 4);
    let sub = bus.subscribe().unwrap();
    let mut filter = RawFilter::default();
    let adapter = SimpleAdcButton::new(THRESHOLD_LOW, THRESHOLD_HIGH);

    let mut edges: Vec<u64> = Vec::new();
    let mut pressed = false;
    for k in 0..400u64 {
        let t = k * MS;
        let raw: u16 = if t < 100 * MS { PRESS_VOLTAGE } else { 0 };
        if let Some(stabilized) = filter.process(raw) {
            bus.publish(stabilized);
        }
        while let Some(sample) = bus.try_next(sub) {
            let now_pressed = adapter.is_press_value(sample);
            if now_pressed != pressed {
                pressed = now_pressed;
                edges.push(t);
            }
        }
    }
    assert_eq!(edges, vec![0, 100 * MS]);

    let events = run_engine(ButtonConfig::default(), &edges);
    assert_eq!(events, vec![ButtonEvent::Click]);
}

#[test]
fn median_filtered_pipeline_suppresses_spikes() {
    // A noisy source around 1000 with isolated spikes to 0 and 4095:
    // the 3-sample median never lets a spike through the threshold
    // adapter, so no edge is ever generated.
    let adapter = SimpleAdcButton::new(900, 1100);
    let mut filter = MedianFilter::new(3);
    let samples: [u16; 9] = [1000, 0, 1010, 990, 4095, 1005, 1000, 995, 1002];
    let mut outputs = Vec::new();
    for s in samples {
        if let Some(v) = filter.process(s) {
            outputs.push(v);
        }
    }
    assert_eq!(outputs, vec![1000, 1005, 1000]);
    for v in outputs {
        assert!(adapter.is_press_value(v));
    }
}
