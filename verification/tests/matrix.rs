//! Tests of the matrix scanner's change detection and of the
//! matrix-cell-to-click pipeline.

use button_events::Button;
use button_events::ButtonConfig;
use button_events::ButtonEvent;
use button_events::KeyEvent;
use button_events::RaceWinner;
use button_events::bus::BroadcastBus;
use button_events::matrix::MatrixButton;
use button_events::matrix::MatrixScanner;

fn run_engine(cfg: ButtonConfig, edges: &[u64]) -> Vec<ButtonEvent> {
    let mut button = Button::new(cfg);
    let mut events = Vec::new();
    let mut i: usize = 0;
    let mut steps: u32 = 0;
    loop {
        steps += 1;
        assert!(steps < 100_000, "runaway simulation");
        let deadline = button.deadline();
        let edge = edges.get(i).copied();
        let (winner, now) = match (edge, deadline) {
            (None, None) => break,
            (Some(e), None) => {
                i += 1;
                (RaceWinner::Edge, e)
            }
            (None, Some(d)) => (RaceWinner::Timer, d),
            (Some(e), Some(d)) => {
                if e <= d {
                    i += 1;
                    (RaceWinner::Edge, e)
                } else {
                    (RaceWinner::Timer, d)
                }
            }
        };
        if let Some(ev) = button.step(winner, now) {
            events.push(ev);
        }
    }
    events
}

fn grid(cells: &[&[bool]]) -> Vec<Vec<bool>> {
    cells.iter().map(|row| row.to_vec()).collect()
}

#[test]
fn fresh_scanner_is_silent_on_idle_matrix() {
    let mut m = MatrixScanner::new(2, 2);
    let readings = grid(&[&[false, false], &[false, false]]);
    let evs = m.sweep(&readings);
    assert_eq!(evs, Vec::<KeyEvent>::new());
}

#[test]
fn one_changed_cell_one_event() {
    let mut m = MatrixScanner::new(2, 2);
    let evs = m.sweep(&grid(&[&[false, false], &[false, true]]));
    assert_eq!(
        evs,
        vec![KeyEvent { row: 1, col: 1, pressed: true }]
    );
    // Unchanged sweep: nothing.
    let evs = m.sweep(&grid(&[&[false, false], &[false, true]]));
    assert_eq!(evs, Vec::<KeyEvent>::new());
    // Release: exactly one event again.
    let evs = m.sweep(&grid(&[&[false, false], &[false, false]]));
    assert_eq!(
        evs,
        vec![KeyEvent { row: 1, col: 1, pressed: false }]
    );
}

#[test]
fn events_come_in_scan_order() {
    let mut m = MatrixScanner::new(2, 3);
    // Columns are scanned in order, rows within each column.
    let evs = m.sweep(&grid(&[&[true, false, true], &[false, true, false]]));
    assert_eq!(
        evs,
        vec![
            KeyEvent { row: 0, col: 0, pressed: true },
            KeyEvent { row: 2, col: 0, pressed: true },
            KeyEvent { row: 1, col: 1, pressed: true },
        ]
    );
}

#[test]
fn scan_column_touches_only_that_column() {
    let mut m = MatrixScanner::new(3, 2);
    let evs = m.scan_column(1, &vec![true, false]);
    assert_eq!(
        evs,
        vec![KeyEvent { row: 0, col: 1, pressed: true }]
    );
    // The other columns still read as all released.
    let evs = m.scan_column(0, &vec![false, false]);
    assert_eq!(evs, Vec::<KeyEvent>::new());
    let evs = m.scan_column(2, &vec![false, false]);
    assert_eq!(evs, Vec::<KeyEvent>::new());
}

#[test]
fn adapter_matches_only_its_cell() {
    let b = MatrixButton::new(1, 1);
    assert!(b.matches_press(KeyEvent { row: 1, col: 1, pressed: true }));
    assert!(!b.matches_press(KeyEvent { row: 1, col: 1, pressed: false }));
    assert!(!b.matches_press(KeyEvent { row: 0, col: 1, pressed: true }));
    assert!(!b.matches_press(KeyEvent { row: 1, col: 0, pressed: true }));
    assert!(b.matches_release(KeyEvent { row: 1, col: 1, pressed: false }));
    assert!(!b.matches_release(KeyEvent { row: 1, col: 1, pressed: true }));
    assert!(!b.matches_release(KeyEvent { row: 0, col: 0, pressed: false }));
}

#[test]
fn test_matrix_single_click() {
    // A 2 x 2 matrix swept every 5 ms; the cell at (row 1, col 1) is
    // held from 10 ms to 60 ms. The scanner publishes exactly one press
    // and one release event for that cell, the cell adapter turns them
    // into edges, and the engine reports one click.
    const MS: u64 = 1_000;
    let mut scanner = MatrixScanner::new(2, 2);
    let mut bus: BroadcastBus<KeyEvent> = BroadcastBus::new(4, 4, 4);
    let sub = bus.subscribe().unwrap();
    let adapter = MatrixButton::new(1, 1);

    let mut edges: Vec<u64> = Vec::new();
    let mut pressed = false;
    for sweep_idx in 0..40u64 {
        let t = sweep_idx * 5 * MS;
        let held = (10 * MS..60 * MS).contains(&t);
        let readings = grid(&[&[false, false], &[false, held]]);
        for ev in scanner.sweep(&readings) {
            bus.publish(ev);
        }
        while let Some(ev) = bus.try_next(sub) {
            if !pressed && adapter.matches_press(ev) {
                pressed = true;
                edges.push(t);
            } else if pressed && adapter.matches_release(ev) {
                pressed = false;
                edges.push(t);
            }
        }
    }
    assert_eq!(edges, vec![10 * MS, 60 * MS]);

    let events = run_engine(ButtonConfig::default(), &edges);
    assert_eq!(events, vec![ButtonEvent::Click]);
}
