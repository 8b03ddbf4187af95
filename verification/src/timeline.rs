//! Idealised replay of the state machine against a timed edge trace, and
//! the behavioural laws of the engine proved over it.
//!
//! A *trace* is the sequence of instants at which the physical signal
//! changes level, strictly increasing, alternating between pressed and
//! released and starting from released — so the edge at index 0 is a press,
//! index 1 a release, and so on. Because the engine always awaits the
//! opposite of the level that brought it into its current state, the next
//! unconsumed edge of an alternating trace is always the edge the engine is
//! waiting for.
//!
//! [`run`] replays the engine under ideal scheduling: every race resolves
//! exactly at the earlier of the next edge instant and the armed deadline,
//! and when both fall on the same tick the edge wait wins (it is polled
//! first). A timer whose deadline already passed fires at once, which is
//! how the long-press hold events catch up after the long-press threshold.

use vstd::prelude::*;

use crate::config::ButtonConfig;
use crate::engine::ButtonEvent;
use crate::engine::ButtonState;
use crate::engine::RaceWinner;
use crate::engine::deadline_of;
use crate::engine::step_of;

verus! {

/// Edge instants must be strictly increasing: two edges never share a tick.
pub open spec fn strictly_increasing(edges: Seq<u64>) -> bool {
    forall|i: int, j: int|
        0 <= i < j < edges.len() ==> #[trigger] edges[i] < #[trigger] edges[j]
}

/// Every pair of consecutive edges lies less than `bound` ticks apart.
pub open spec fn consecutive_gaps_below(edges: Seq<u64>, bound: u64) -> bool {
    forall|i: int, j: int|
        0 <= i < j < edges.len() && j == i + 1 ==> (#[trigger] edges[j]) - (#[trigger] edges[i])
            < bound
}

/// The edge branch wins the race in state `s` against an edge at tick `e`:
/// always when no timer is armed, and on a shared tick the edge wait wins
/// because it is polled first.
pub open spec fn edge_wins(s: ButtonState, cfg: ButtonConfig, e: u64) -> bool {
    match deadline_of(s, cfg) {
        None => true,
        Some(dl) => e <= dl,
    }
}

/// Prepends the event of one transition, if any, to the events of the rest
/// of a replay.
pub open spec fn prepend_event(ev: Option<ButtonEvent>, evs: Seq<ButtonEvent>) -> Seq<
    ButtonEvent,
> {
    match ev {
        Some(e) => seq![e] + evs,
        None => evs,
    }
}

/// Replays the engine from state `s` against the edges of `edges` from
/// index `i` on, for at most `fuel` transitions, under ideal scheduling.
///
/// Returns the final state, the index of the first unconsumed edge, and
/// the events emitted in order. The replay stops early only when the
/// machine is idle with no edges left — from there it would sit forever —
/// so with enough fuel the result is the machine's complete response to
/// the trace.
pub open spec fn run(
    s: ButtonState,
    cfg: ButtonConfig,
    edges: Seq<u64>,
    i: int,
    fuel: nat,
) -> (ButtonState, int, Seq<ButtonEvent>)
    decreases fuel,
{
    if fuel == 0 {
        (s, i, Seq::<ButtonEvent>::empty())
    } else if 0 <= i < edges.len() && edge_wins(s, cfg, edges[i]) {
        let (s2, ev) = step_of(s, cfg, RaceWinner::Edge, edges[i]);
        let r = run(s2, cfg, edges, i + 1, (fuel - 1) as nat);
        (r.0, r.1, prepend_event(ev, r.2))
    } else {
        match deadline_of(s, cfg) {
            None => (s, i, Seq::<ButtonEvent>::empty()),
            Some(dl) => {
                let (s2, ev) = step_of(s, cfg, RaceWinner::Timer, dl);
                let r = run(s2, cfg, edges, i, (fuel - 1) as nat);
                (r.0, r.1, prepend_event(ev, r.2))
            },
        }
    }
}

/// Unfolds one edge-winning transition of [`run`].
proof fn lemma_run_edge(s: ButtonState, cfg: ButtonConfig, edges: Seq<u64>, i: int, fuel: nat)
    requires
        fuel >= 1,
        0 <= i < edges.len(),
        edge_wins(s, cfg, edges[i]),
    ensures
        ({
            let (s2, ev) = step_of(s, cfg, RaceWinner::Edge, edges[i]);
            let r = run(s2, cfg, edges, i + 1, (fuel - 1) as nat);
            run(s, cfg, edges, i, fuel) == (r.0, r.1, prepend_event(ev, r.2))
        }),
{
}

/// Unfolds one timer-winning transition of [`run`].
proof fn lemma_run_timer(
    s: ButtonState,
    cfg: ButtonConfig,
    edges: Seq<u64>,
    i: int,
    fuel: nat,
    dl: u64,
)
    requires
        fuel >= 1,
        deadline_of(s, cfg) == Some(dl),
        !(0 <= i < edges.len() && edge_wins(s, cfg, edges[i])),
    ensures
        ({
            let (s2, ev) = step_of(s, cfg, RaceWinner::Timer, dl);
            let r = run(s2, cfg, edges, i, (fuel - 1) as nat);
            run(s, cfg, edges, i, fuel) == (r.0, r.1, prepend_event(ev, r.2))
        }),
{
}

/// A machine that is idle with no edges left never moves again.
proof fn lemma_run_stops_idle(cfg: ButtonConfig, edges: Seq<u64>, i: int, fuel: nat)
    requires
        i >= edges.len(),
    ensures
        run(ButtonState::Idle, cfg, edges, i, fuel) == (
            ButtonState::Idle,
            i,
            Seq::<ButtonEvent>::empty(),
        ),
{
}

/// Bounces alone produce nothing (helper, by induction over the pairs).
///
/// From idle at edge index `i`, with an even number of edges left and every
/// press released again in less than the debounce time, the replay emits no
/// event and — given enough fuel — consumes the whole trace and returns to
/// idle.
proof fn lemma_bounce_rec(cfg: ButtonConfig, edges: Seq<u64>, i: int, fuel: nat)
    requires
        0 <= i <= edges.len(),
        (edges.len() - i) % 2 == 0,
        strictly_increasing(edges),
        consecutive_gaps_below(edges, cfg.debounce),
    ensures
        run(ButtonState::Idle, cfg, edges, i, fuel).2 == Seq::<ButtonEvent>::empty(),
        fuel >= edges.len() - i ==> run(ButtonState::Idle, cfg, edges, i, fuel) == (
            ButtonState::Idle,
            edges.len() as int,
            Seq::<ButtonEvent>::empty(),
        ),
    decreases fuel,
{
    if i == edges.len() {
        lemma_run_stops_idle(cfg, edges, i, fuel);
    } else if fuel == 0 {
    } else {
        let p = edges[i];
        lemma_run_edge(ButtonState::Idle, cfg, edges, i, fuel);
        let s1 = ButtonState::PressDebouncing { count: 0, start_time: p };
        if fuel == 1 {
        } else {
            let r = edges[i + 1];
            assert(r - p < cfg.debounce);
            assert(r <= p.saturating_add(cfg.debounce));
            lemma_run_edge(s1, cfg, edges, i + 1, (fuel - 1) as nat);
            lemma_bounce_rec(cfg, edges, i + 2, (fuel - 2) as nat);
        }
    }
}

/// **A debounced press and release, then silence, is exactly one click.**
/// A single press at `p` held for more than `debounce` but less than
/// `long_press_time`, released at `r` and followed by no further edge,
/// makes the engine emit exactly `Click` and return to idle.
pub proof fn lemma_single_press_yields_click(cfg: ButtonConfig, p: u64, r: u64, fuel: nat)
    requires
        p < r,
        cfg.debounce < r - p,
        r - p < cfg.long_press_time,
        fuel >= 5,
    ensures
        ({
            let res = run(ButtonState::Idle, cfg, seq![p, r], 0, fuel);
            &&& res.0 == ButtonState::Idle
            &&& res.1 == 2
            &&& res.2 == seq![ButtonEvent::Click]
        }),
{
    let edges = seq![p, r];
    assert(edges[0] == p && edges[1] == r && edges.len() == 2);
    lemma_run_edge(ButtonState::Idle, cfg, edges, 0, fuel);
    let s1 = ButtonState::PressDebouncing { count: 0, start_time: p };
    let d1 = p.saturating_add(cfg.debounce);
    assert(d1 == p + cfg.debounce);
    assert(!edge_wins(s1, cfg, edges[1]));
    lemma_run_timer(s1, cfg, edges, 1, (fuel - 1) as nat, d1);
    let s2 = ButtonState::Pressed { start_time: d1, count: 1 };
    assert(step_of(s1, cfg, RaceWinner::Timer, d1) == (s2, None::<ButtonEvent>));
    assert(edge_wins(s2, cfg, edges[1]));
    lemma_run_edge(s2, cfg, edges, 1, (fuel - 2) as nat);
    let s3 = ButtonState::ReleaseDebouncing { count: 1, press_start: d1, release_start: r };
    let d2 = r.saturating_add(cfg.debounce);
    lemma_run_timer(s3, cfg, edges, 2, (fuel - 3) as nat, d2);
    let s4 = ButtonState::WaitingForMultiClick { count: 1, last_release: r };
    let d3 = r.saturating_add(cfg.multi_click_window);
    lemma_run_timer(s4, cfg, edges, 2, (fuel - 4) as nat, d3);
    lemma_run_stops_idle(cfg, edges, 2, (fuel - 5) as nat);
    assert(run(ButtonState::Idle, cfg, edges, 0, fuel).2 =~= seq![ButtonEvent::Click]);
}

/// One debounced press/release cycle, consumed from the press-debounce
/// state (helper).
///
/// With the press at `edges[i]` already seen, a release that comes after
/// the debounce window but before the long-press threshold, and a
/// following press (if any) that is no bounce, the replay reaches the
/// multi-click wait with the count increased by one and no event emitted.
proof fn lemma_press_release_cycle(
    cfg: ButtonConfig,
    edges: Seq<u64>,
    i: int,
    c: u8,
    fuel: nat,
)
    requires
        fuel >= 3,
        c < 255,
        0 <= i,
        i + 2 <= edges.len(),
        edges[i] < edges[i + 1],
        cfg.debounce < edges[i + 1] - edges[i],
        edges[i + 1] - edges[i] < cfg.long_press_time,
        i + 2 < edges.len() ==> cfg.debounce < edges[i + 2] - edges[i + 1],
    ensures
        run(
            ButtonState::PressDebouncing { count: c, start_time: edges[i] },
            cfg,
            edges,
            i + 1,
            fuel,
        ) == run(
            ButtonState::WaitingForMultiClick { count: (c + 1) as u8, last_release: edges[i + 1] },
            cfg,
            edges,
            i + 2,
            (fuel - 3) as nat,
        ),
{
    let p = edges[i];
    let r = edges[i + 1];
    let s1 = ButtonState::PressDebouncing { count: c, start_time: p };
    let d1 = p.saturating_add(cfg.debounce);
    assert(d1 == p + cfg.debounce);
    assert(!edge_wins(s1, cfg, edges[i + 1]));
    lemma_run_timer(s1, cfg, edges, i + 1, fuel, d1);
    let s2 = ButtonState::Pressed { start_time: d1, count: (c + 1) as u8 };
    assert(step_of(s1, cfg, RaceWinner::Timer, d1) == (s2, None::<ButtonEvent>));
    assert(edge_wins(s2, cfg, edges[i + 1]));
    lemma_run_edge(s2, cfg, edges, i + 1, (fuel - 1) as nat);
    let s3 = ButtonState::ReleaseDebouncing {
        count: (c + 1) as u8,
        press_start: d1,
        release_start: r,
    };
    let d2 = r.saturating_add(cfg.debounce);
    assert(!(0 <= i + 2 < edges.len() && edge_wins(s3, cfg, edges[i + 2])));
    lemma_run_timer(s3, cfg, edges, i + 2, (fuel - 2) as nat, d2);
}

/// **Two debounced cycles inside one window are exactly one double click.**
pub proof fn lemma_double_click(
    cfg: ButtonConfig,
    p1: u64,
    r1: u64,
    p2: u64,
    r2: u64,
    fuel: nat,
)
    requires
        p1 < r1 && r1 < p2 && p2 < r2,
        cfg.debounce < r1 - p1,
        r1 - p1 < cfg.long_press_time,
        cfg.debounce < p2 - r1,
        p2 - r1 < cfg.multi_click_window,
        cfg.debounce < r2 - p2,
        r2 - p2 < cfg.long_press_time,
        fuel >= 9,
    ensures
        ({
            let res = run(ButtonState::Idle, cfg, seq![p1, r1, p2, r2], 0, fuel);
            &&& res.0 == ButtonState::Idle
            &&& res.1 == 4
            &&& res.2 == seq![ButtonEvent::DoubleClick]
        }),
{
    let edges = seq![p1, r1, p2, r2];
    assert(edges[0] == p1 && edges[1] == r1 && edges[2] == p2 && edges[3] == r2
        && edges.len() == 4);
    lemma_run_edge(ButtonState::Idle, cfg, edges, 0, fuel);
    lemma_press_release_cycle(cfg, edges, 0, 0, (fuel - 1) as nat);
    let w1 = ButtonState::WaitingForMultiClick { count: 1, last_release: r1 };
    assert(edge_wins(w1, cfg, edges[2]));
    lemma_run_edge(w1, cfg, edges, 2, (fuel - 4) as nat);
    lemma_press_release_cycle(cfg, edges, 2, 1, (fuel - 5) as nat);
    let w2 = ButtonState::WaitingForMultiClick { count: 2, last_release: r2 };
    let d = r2.saturating_add(cfg.multi_click_window);
    lemma_run_timer(w2, cfg, edges, 4, (fuel - 8) as nat, d);
    assert(step_of(w2, cfg, RaceWinner::Timer, d) == (
        ButtonState::Idle,
        Some(ButtonEvent::DoubleClick),
    ));
    lemma_run_stops_idle(cfg, edges, 4, (fuel - 9) as nat);
    assert(run(ButtonState::Idle, cfg, edges, 0, fuel).2 =~= seq![ButtonEvent::DoubleClick]);
}

/// **Three debounced cycles inside one window are exactly one triple
/// click**, reported as `MultipleClick { count: 3 }`.
pub proof fn lemma_triple_click(
    cfg: ButtonConfig,
    p1: u64,
    r1: u64,
    p2: u64,
    r2: u64,
    p3: u64,
    r3: u64,
    fuel: nat,
)
    requires
        p1 < r1 && r1 < p2 && p2 < r2 && r2 < p3 && p3 < r3,
        cfg.debounce < r1 - p1,
        r1 - p1 < cfg.long_press_time,
        cfg.debounce < p2 - r1,
        p2 - r1 < cfg.multi_click_window,
        cfg.debounce < r2 - p2,
        r2 - p2 < cfg.long_press_time,
        cfg.debounce < p3 - r2,
        p3 - r2 < cfg.multi_click_window,
        cfg.debounce < r3 - p3,
        r3 - p3 < cfg.long_press_time,
        fuel >= 13,
    ensures
        ({
            let res = run(ButtonState::Idle, cfg, seq![p1, r1, p2, r2, p3, r3], 0, fuel);
            &&& res.0 == ButtonState::Idle
            &&& res.1 == 6
            &&& res.2 == seq![ButtonEvent::MultipleClick { count: 3 }]
        }),
{
    let edges = seq![p1, r1, p2, r2, p3, r3];
    assert(edges[0] == p1 && edges[1] == r1 && edges[2] == p2 && edges[3] == r2 && edges[4] == p3
        && edges[5] == r3 && edges.len() == 6);
    lemma_run_edge(ButtonState::Idle, cfg, edges, 0, fuel);
    lemma_press_release_cycle(cfg, edges, 0, 0, (fuel - 1) as nat);
    let w1 = ButtonState::WaitingForMultiClick { count: 1, last_release: r1 };
    assert(edge_wins(w1, cfg, edges[2]));
    lemma_run_edge(w1, cfg, edges, 2, (fuel - 4) as nat);
    lemma_press_release_cycle(cfg, edges, 2, 1, (fuel - 5) as nat);
    let w2 = ButtonState::WaitingForMultiClick { count: 2, last_release: r2 };
    assert(edge_wins(w2, cfg, edges[4]));
    lemma_run_edge(w2, cfg, edges, 4, (fuel - 8) as nat);
    lemma_press_release_cycle(cfg, edges, 4, 2, (fuel - 9) as nat);
    let w3 = ButtonState::WaitingForMultiClick { count: 3, last_release: r3 };
    let d = r3.saturating_add(cfg.multi_click_window);
    lemma_run_timer(w3, cfg, edges, 6, (fuel - 12) as nat, d);
    assert(step_of(w3, cfg, RaceWinner::Timer, d) == (
        ButtonState::Idle,
        Some(ButtonEvent::MultipleClick { count: 3 }),
    ));
    lemma_run_stops_idle(cfg, edges, 6, (fuel - 13) as nat);
    assert(run(ButtonState::Idle, cfg, edges, 0, fuel).2 =~= seq![
        ButtonEvent::MultipleClick { count: 3 },
    ]);
}

/// How many hold events a long press emits: the number of whole hold
/// intervals, counted from the press confirmation at `t`, that pass before
/// the release at `r`. Zero when the interval `h` is zero, since then no
/// timer step can be attributed a whole interval.
pub open spec fn hold_count(t: u64, r: u64, h: u64) -> nat
    decreases r - t,
{
    if h > 0 && r > t.saturating_add(h) {
        (1 + hold_count(t.saturating_add(h), r, h)) as nat
    } else {
        0
    }
}

/// Pins [`hold_count`] down as the count of whole intervals: it is the
/// unique `m` with `t + m * h < r <= t + (m + 1) * h`.
pub proof fn lemma_hold_count_intervals(t: u64, r: u64, h: u64)
    requires
        h > 0,
        t < r,
    ensures
        ({
            let m = hold_count(t, r, h) as int;
            t + m * h < r <= t + (m + 1) * h
        }),
    decreases r - t,
{
    if r > t.saturating_add(h) {
        let t2 = t.saturating_add(h);
        assert(t2 == t + h);
        lemma_hold_count_intervals(t2, r, h);
        let m2 = hold_count(t2, r, h) as int;
        let m = hold_count(t, r, h) as int;
        assert(m == m2 + 1);
        assert(t + m * h == t2 + m2 * h) by (nonlinear_arith)
            requires
                m == m2 + 1,
                t2 == t + h,
        ;
        assert(t + (m + 1) * h == t2 + (m2 + 1) * h) by (nonlinear_arith)
            requires
                m == m2 + 1,
                t2 == t + h,
        ;
    } else {
        assert(hold_count(t, r, h) == 0);
        assert(r <= t.saturating_add(h));
        assert(t.saturating_add(h) <= t + h);
    }
}

/// The hold phase of a long press (helper, by induction over the holds).
///
/// From the long-press state with the next hold due after `t`, and the
/// release as the only remaining edge, the replay emits one hold per whole
/// interval and then exactly one release event, and ends idle.
proof fn lemma_hold_phase(cfg: ButtonConfig, edges: Seq<u64>, i: int, t: u64, fuel: nat)
    requires
        cfg.long_press_hold_interval > 0,
        0 <= i,
        i + 1 == edges.len(),
        fuel >= hold_count(t, edges[i], cfg.long_press_hold_interval) + 1,
    ensures
        run(ButtonState::LongPress { start_time: t }, cfg, edges, i, fuel) == (
            ButtonState::Idle,
            edges.len() as int,
            Seq::new(
                hold_count(t, edges[i], cfg.long_press_hold_interval),
                |k: int| ButtonEvent::LongPressHold,
            ).push(ButtonEvent::LongPressRelease),
        ),
    decreases fuel,
{
    let h = cfg.long_press_hold_interval;
    let r = edges[i];
    let s = ButtonState::LongPress { start_time: t };
    let dl = t.saturating_add(h);
    let m = hold_count(t, r, h);
    if r <= dl {
        assert(m == 0);
        assert(edge_wins(s, cfg, edges[i]));
        lemma_run_edge(s, cfg, edges, i, fuel);
        lemma_run_stops_idle(cfg, edges, i + 1, (fuel - 1) as nat);
        assert(Seq::new(0nat, |k: int| ButtonEvent::LongPressHold).push(
            ButtonEvent::LongPressRelease,
        ) =~= seq![ButtonEvent::LongPressRelease]);
        assert(prepend_event(
            Some(ButtonEvent::LongPressRelease),
            Seq::<ButtonEvent>::empty(),
        ) =~= seq![ButtonEvent::LongPressRelease]);
    } else {
        assert(m == 1 + hold_count(dl, r, h));
        assert(!edge_wins(s, cfg, edges[i]));
        lemma_run_timer(s, cfg, edges, i, fuel, dl);
        let s2 = ButtonState::LongPress { start_time: dl };
        assert(step_of(s, cfg, RaceWinner::Timer, dl) == (s2, Some(ButtonEvent::LongPressHold)));
        lemma_hold_phase(cfg, edges, i, dl, (fuel - 1) as nat);
        let tail = Seq::new(
            hold_count(dl, r, h),
            |k: int| ButtonEvent::LongPressHold,
        ).push(ButtonEvent::LongPressRelease);
        assert(prepend_event(Some(ButtonEvent::LongPressHold), tail) =~= Seq::new(
            m,
            |k: int| ButtonEvent::LongPressHold,
        ).push(ButtonEvent::LongPressRelease));
    }
}

/// **A press held past the long-press threshold yields `LongPressStart`
/// once, then one `LongPressHold` per whole hold interval while held, then
/// exactly one `LongPressRelease` — and never a trailing click.** The hold
/// intervals are counted from the press confirmation at `p + debounce`.
pub proof fn lemma_long_press_sequence(cfg: ButtonConfig, p: u64, r: u64, fuel: nat)
    requires
        cfg.long_press_hold_interval > 0,
        p < r,
        r - p > cfg.debounce + cfg.long_press_time,
        fuel >= 4 + hold_count(
            (p + cfg.debounce) as u64,
            r,
            cfg.long_press_hold_interval,
        ),
    ensures
        ({
            let res = run(ButtonState::Idle, cfg, seq![p, r], 0, fuel);
            let m = hold_count((p + cfg.debounce) as u64, r, cfg.long_press_hold_interval);
            &&& res.0 == ButtonState::Idle
            &&& res.1 == 2
            &&& res.2 == seq![ButtonEvent::LongPressStart] + Seq::new(
                m,
                |k: int| ButtonEvent::LongPressHold,
            ).push(ButtonEvent::LongPressRelease)
        }),
{
    let edges = seq![p, r];
    assert(edges[0] == p && edges[1] == r && edges.len() == 2);
    lemma_run_edge(ButtonState::Idle, cfg, edges, 0, fuel);
    let s1 = ButtonState::PressDebouncing { count: 0, start_time: p };
    let d1 = p.saturating_add(cfg.debounce);
    assert(d1 == p + cfg.debounce);
    assert(!edge_wins(s1, cfg, edges[1]));
    lemma_run_timer(s1, cfg, edges, 1, (fuel - 1) as nat, d1);
    let s2 = ButtonState::Pressed { start_time: d1, count: 1 };
    assert(step_of(s1, cfg, RaceWinner::Timer, d1) == (s2, None::<ButtonEvent>));
    let d2 = d1.saturating_add(cfg.long_press_time);
    assert(d2 == p + cfg.debounce + cfg.long_press_time);
    assert(!edge_wins(s2, cfg, edges[1]));
    lemma_run_timer(s2, cfg, edges, 1, (fuel - 2) as nat, d2);
    let s3 = ButtonState::LongPress { start_time: d1 };
    assert(step_of(s2, cfg, RaceWinner::Timer, d2) == (s3, Some(ButtonEvent::LongPressStart)));
    lemma_hold_phase(cfg, edges, 1, d1, (fuel - 3) as nat);
    let m = hold_count(d1, r, cfg.long_press_hold_interval);
    assert(run(ButtonState::Idle, cfg, edges, 0, fuel).2 =~= seq![ButtonEvent::LongPressStart]
        + Seq::new(m, |k: int| ButtonEvent::LongPressHold).push(ButtonEvent::LongPressRelease));
}

/// **Bounces alone produce no event.** For every sequence of press/release
/// edge pairs whose consecutive edges lie less than `debounce` apart, the
/// engine, started idle, emits nothing at all, and with enough fuel the
/// replay consumes the whole trace and ends idle.
pub proof fn lemma_bounce_produces_no_events(cfg: ButtonConfig, edges: Seq<u64>, fuel: nat)
    requires
        edges.len() % 2 == 0,
        strictly_increasing(edges),
        consecutive_gaps_below(edges, cfg.debounce),
    ensures
        run(ButtonState::Idle, cfg, edges, 0, fuel).2 == Seq::<ButtonEvent>::empty(),
        fuel >= edges.len() ==> run(ButtonState::Idle, cfg, edges, 0, fuel) == (
            ButtonState::Idle,
            edges.len() as int,
            Seq::<ButtonEvent>::empty(),
        ),
{
    lemma_bounce_rec(cfg, edges, 0, fuel);
}

} // verus!
