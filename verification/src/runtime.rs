//! Evaluating a compiled program at any instant of virtual time.
use crate::compile::{lemma_program_events_in_time_order, program_spec};
use crate::config::GridSpec;
use crate::scenario::Scenario;
use crate::program::{
    apply_op, apply_op_spec, events_view, lemma_replay_scrolled, replay, DynRegion, EventView,
    OpView, Program, ProgramView, RegionKind,
};
use crate::terminal::{default_cursor, new_term, CursorState, TermView, TerminalState};
use crate::time::{sat_add, Fps, Time, frame_count_spec};
use vstd::prelude::*;

verus! {

/// How often a full grid snapshot is taken during forward replay: every 2 s. A
/// snapshot of a typical 70x15 grid is a few kilobytes, so this is cheap
/// insurance against expensive backward seeks.
pub fn snapshot_interval() -> (t: Time)
    ensures
        t.0 == 2_000_000_000,
{
    Time(2_000_000_000)
}

/// The terminal with its cursor's visibility set to `v`.
pub open spec fn with_visible(s: TermView, v: bool) -> TermView {
    TermView { cursor: CursorState { visible: v, ..s.cursor }, ..s }
}

/// Two terminals that differ at most in whether the cursor is shown.
pub open spec fn same_but_visible(a: TermView, b: TermView) -> bool {
    with_visible(a, false) == with_visible(b, false)
}

/// No operation reads or changes the cursor's visibility.
pub proof fn lemma_apply_ignores_visible(s: TermView, op: OpView, v: bool)
    ensures
        apply_op_spec(with_visible(s, v), op) == with_visible(apply_op_spec(s, op), v),
{
}

/// Replaying events never reads or changes the cursor's visibility.
pub proof fn lemma_replay_ignores_visible(s: TermView, events: Seq<EventView>, n: int, v: bool)
    ensures
        replay(with_visible(s, v), events, n) == with_visible(replay(s, events, n), v),
    decreases n,
{
    if 0 < n <= events.len() {
        lemma_replay_ignores_visible(s, events, n - 1, v);
        lemma_apply_ignores_visible(replay(s, events, n - 1), events[n - 1].op, v);
    }
}

/// The number of leading events at or before `t`: replay stops at the first event
/// that lies after `t`.
pub open spec fn leading(events: Seq<EventView>, t: u64) -> nat
    decreases events.len(),
{
    if events.len() == 0 {
        0
    } else if events[0].at > t {
        0
    } else {
        1 + leading(events.drop_first(), t)
    }
}

/// `leading` is the one count whose events all lie at or before `t` and that is
/// followed by an event after `t`, or by nothing.
pub proof fn lemma_leading_unique(events: Seq<EventView>, t: u64, n: int)
    requires
        0 <= n <= events.len(),
        forall|i: int| 0 <= i < n ==> #[trigger] events[i].at <= t,
        n == events.len() || events[n].at > t,
    ensures
        leading(events, t) == n,
    decreases n,
{
    if n > 0 {
        let rest = events.drop_first();
        assert forall|i: int| 0 <= i < n - 1 implies #[trigger] rest[i].at <= t by {
            assert(rest[i] == events[i + 1]);
        }
        if n < events.len() {
            assert(rest[n - 1] == events[n]);
        }
        lemma_leading_unique(rest, t, n - 1);
    }
}

/// The events `leading` counts all lie at or before `t`.
pub proof fn lemma_leading_bounds(events: Seq<EventView>, t: u64)
    ensures
        leading(events, t) <= events.len(),
        forall|i: int| 0 <= i < leading(events, t) ==> #[trigger] events[i].at <= t,
        leading(events, t) < events.len() ==> events[leading(events, t) as int].at > t,
    decreases events.len(),
{
    if events.len() > 0 && events[0].at <= t {
        let rest = events.drop_first();
        lemma_leading_bounds(rest, t);
        assert forall|i: int| 0 <= i < leading(events, t) implies #[trigger] events[i].at <= t by {
            if i > 0 {
                assert(events[i] == rest[i - 1]);
            }
        }
        if leading(events, t) < events.len() {
            assert(events[leading(events, t) as int] == rest[leading(rest, t) as int]);
        }
    }
}

/// For events in time order, the leading events at or before `t` are exactly the
/// events at or before `t`.
pub proof fn lemma_leading_in_time_order(events: Seq<EventView>, t: u64, i: int)
    requires
        forall|a: int, b: int|
            0 <= a <= b < events.len() ==> #[trigger] events[a].at <= #[trigger] events[b].at,
        0 <= i < events.len(),
    ensures
        i < leading(events, t) <==> events[i].at <= t,
{
    lemma_leading_bounds(events, t);
    let n = leading(events, t) as int;
    if i >= n && n < events.len() {
        assert(events[n].at <= events[i].at);
    }
}

/// Replaying a compiled program up to `t` replays exactly the events at or before
/// `t`: an event takes part in the frame at `t` if and only if its time is not
/// after `t`.
pub proof fn lemma_compiled_frame_replays_events_up_to(
    s: Scenario,
    grid: GridSpec,
    draws: Seq<u64>,
    t: u64,
    i: int,
)
    requires
        0 <= i < program_spec(s, grid, draws).events.len(),
    ensures
        i < leading(program_spec(s, grid, draws).events, t) <==> program_spec(
            s,
            grid,
            draws,
        ).events[i].at <= t,
{
    let events = program_spec(s, grid, draws).events;
    assert forall|a: int, b: int| 0 <= a <= b < events.len() implies #[trigger] events[a].at
        <= #[trigger] events[b].at by {
        lemma_program_events_in_time_order(s, grid, draws, a, b);
    }
    lemma_leading_in_time_order(events, t, i);
}

/// The terminal before any event: the program's grid, styles, initial style and
/// cursor settings.
pub open spec fn fresh_view(p: ProgramView) -> TermView {
    let base = new_term(p.grid.cols, p.grid.rows, p.overflow);
    TermView {
        styles: p.styles,
        current_style: p.initial_style,
        cursor: CursorState {
            style: p.cursor.style,
            blink: p.cursor.blink,
            visible: p.cursor.visible,
            ..base.cursor
        },
        ..base
    }
}

/// The cursor settings at `t`: the last region covering `t` decides, else `init`.
pub open spec fn region_cursor(regions: Seq<DynRegion>, t: u64, init: (bool, Option<Time>)) -> (bool, Option<Time>)
    decreases regions.len(),
{
    if regions.len() == 0 {
        init
    } else {
        let prev = region_cursor(regions.drop_last(), t, init);
        let r = regions.last();
        if r.start.0 <= t && t < r.end.0 {
            match r.kind {
                RegionKind::Cursor { visible, blink } => (visible, blink),
            }
        } else {
            prev
        }
    }
}

/// A cursor region acts only inside its span: when no region has
/// `start <= t < end`, the cursor settings at `t` are the configured ones, and a
/// region never changes the settings at a time before its start or at or after
/// its end.
pub proof fn lemma_regions_act_only_inside_their_span(
    regions: Seq<DynRegion>,
    t: u64,
    init: (bool, Option<Time>),
)
    ensures
        (forall|k: int|
            0 <= k < regions.len() ==> !(#[trigger] regions[k].start.0 <= t && t < regions[k].end.0))
            ==> region_cursor(regions, t, init) == init,
    decreases regions.len(),
{
    if regions.len() > 0 {
        let init_regions = regions.drop_last();
        if forall|k: int|
            0 <= k < regions.len() ==> !(#[trigger] regions[k].start.0 <= t && t < regions[k].end.0) {
            assert forall|k: int| 0 <= k < init_regions.len() implies !(
            #[trigger] init_regions[k].start.0 <= t && t < init_regions[k].end.0) by {
                assert(init_regions[k] == regions[k]);
            }
            assert(regions.last() == regions[regions.len() - 1]);
        }
        lemma_regions_act_only_inside_their_span(init_regions, t, init);
    }
}

/// Outside every cursor region the terminal at `t` shows the cursor as the
/// program configures it: visible as configured and, when it blinks with a
/// positive half-period, only in even half-periods.
pub proof fn lemma_cursor_outside_regions(p: ProgramView, t: u64)
    requires
        forall|k: int|
            0 <= k < p.regions.len() ==> !(#[trigger] p.regions[k].start.0 <= t && t
                < p.regions[k].end.0),
    ensures
        frame_state(p, t).cursor.visible == match p.cursor.blink {
            Some(period) => if period.0 > 0 {
                p.cursor.visible && (t / period.0) % 2 == 0
            } else {
                p.cursor.visible
            },
            None => p.cursor.visible,
        },
{
    lemma_regions_act_only_inside_their_span(p.regions, t, (p.cursor.visible, p.cursor.blink));
}

/// Whether the cursor shows at `t`: as configured or as the covering region says,
/// and while blinking with half-period `p > 0`, only in even half-periods.
pub open spec fn cursor_visible_at(p: ProgramView, t: u64) -> bool {
    let (v, b) = region_cursor(p.regions, t, (p.cursor.visible, p.cursor.blink));
    match b {
        Some(period) => if period.0 > 0 {
            v && (t / period.0) % 2 == 0
        } else {
            v
        },
        None => v,
    }
}

/// The terminal a program shows at `t`: every leading event at or before `t`
/// replayed on a fresh terminal, the cursor shown as `cursor_visible_at` says.
pub open spec fn frame_state(p: ProgramView, t: u64) -> TermView {
    with_visible(replay(fresh_view(p), p.events, leading(p.events, t) as int), cursor_visible_at(p, t))
}

/// A grid state recorded during forward replay.
struct Snapshot {
    at: Time,
    next_event: usize,
    state: TerminalState,
}

/// The snapshot holds the replay of its leading events, all at or before its time,
/// which is no later than `limit`.
spec fn snapshot_ok(p: ProgramView, s: Snapshot, limit: u64) -> bool {
    &&& s.next_event <= p.events.len()
    &&& forall|i: int| 0 <= i < s.next_event ==> #[trigger] p.events[i].at <= s.at.0
    &&& s.at.0 <= limit
    &&& s.state.wf()
    &&& same_but_visible(s.state@, replay(fresh_view(p), p.events, s.next_event as int))
}

/// Evaluates a compiled program at any point in virtual time.
///
/// `state_at` is semantically pure: the result depends only on `t`. Forward replay
/// is an internal optimization; a backward seek restarts from the nearest snapshot.
pub struct Runtime {
    program: Program,
    state: TerminalState,
    /// Index of the next event to apply.
    next_event: usize,
    /// Time the replayed state currently corresponds to.
    at: Time,
    snapshots: Vec<Snapshot>,
    next_snapshot_at: Time,
}

impl Runtime {
    /// The program being evaluated, as a value.
    pub closed spec fn program_view(&self) -> ProgramView {
        self.program@
    }

    /// How many snapshots forward replay has recorded.
    pub closed spec fn snapshots_taken(&self) -> nat {
        self.snapshots@.len()
    }

    /// The replayed state, the snapshots and the snapshot boundary agree with the
    /// program.
    pub closed spec fn wf(&self) -> bool {
        let p = self.program@;
        &&& self.state.wf()
        &&& self.next_event <= p.events.len()
        &&& forall|i: int| 0 <= i < self.next_event ==> #[trigger] p.events[i].at <= self.at.0
        &&& forall|i: int|
            0 <= i < self.next_event ==> #[trigger] p.events[i].at <= self.next_snapshot_at.0
        &&& same_but_visible(self.state@, replay(fresh_view(p), p.events, self.next_event as int))
        &&& forall|k: int|
            0 <= k < self.snapshots@.len() ==> #[trigger] snapshot_ok(
                p,
                self.snapshots@[k],
                self.next_snapshot_at.0,
            )
    }

    fn fresh_state(program: &Program) -> (s: TerminalState)
        ensures
            s.wf(),
            s@ == fresh_view(program@),
    {
        let mut state = TerminalState::new(program.grid.cols, program.grid.rows, program.overflow);
        state.styles = program.styles.duplicate();
        state.current_style = program.initial_style;
        state.cursor.style = program.cursor.style;
        state.cursor.blink = program.cursor.blink;
        state.cursor.visible = program.cursor.visible;
        state
    }

    pub fn new(program: Program) -> (r: Runtime)
        ensures
            r.wf(),
            r.program_view() == program@,
    {
        let state = Self::fresh_state(&program);
        Runtime {
            program,
            state,
            next_event: 0,
            at: Time::zero(),
            snapshots: Vec::new(),
            next_snapshot_at: snapshot_interval(),
        }
    }

    pub fn program(&self) -> (p: &Program)
        ensures
            p@ == self.program_view(),
    {
        &self.program
    }

    pub fn duration(&self) -> (d: Time)
        ensures
            d.0 == self.program_view().duration,
    {
        self.program.duration
    }

    pub fn frame_count(&self, fps: Fps) -> (n: u64)
        ensures
            n == frame_count_spec(fps, Time(self.program_view().duration)),
    {
        fps.frame_count(self.program.duration)
    }

    pub fn snapshot_count(&self) -> (n: usize)
        ensures
            n == self.snapshots_taken(),
    {
        self.snapshots.len()
    }

    /// Records a snapshot at the boundary `next_snapshot_at` from the current state,
    /// and moves the boundary one interval on. Every applied event lies at or
    /// before the boundary, so the snapshot holds only events up to its time.
    fn record_snapshot(&mut self)
        requires
            old(self).wf(),
        ensures
            final(self).wf(),
            final(self).program == old(self).program,
            final(self).state == old(self).state,
            final(self).next_event == old(self).next_event,
            final(self).at == old(self).at,
            final(self).next_snapshot_at.0 == sat_add(
                old(self).next_snapshot_at.0 as int,
                2_000_000_000,
            ),
    {
        let ghost p = self.program@;
        let ghost limit0 = self.next_snapshot_at.0;
        let snap = Snapshot {
            at: self.next_snapshot_at,
            next_event: self.next_event,
            state: self.state.duplicate(),
        };
        self.snapshots.push(snap);
        self.next_snapshot_at = self.next_snapshot_at.saturating_add(snapshot_interval());
        proof {
            assert forall|k: int| 0 <= k < self.snapshots@.len() implies #[trigger] snapshot_ok(
                p,
                self.snapshots@[k],
                self.next_snapshot_at.0,
            ) by {
                if k < self.snapshots@.len() - 1 {
                    assert(snapshot_ok(p, old(self).snapshots@[k], limit0));
                }
            }
        }
    }

    /// Restores the newest snapshot at or before `t`, or resets to a fresh state.
    fn rewind_to(&mut self, t: Time)
        requires
            old(self).wf(),
        ensures
            final(self).wf(),
            final(self).program == old(self).program,
            final(self).at.0 <= t.0,
    {
        let ghost p = self.program@;
        let mut k: usize = self.snapshots.len();
        while k > 0 && self.snapshots[k - 1].at.0 > t.0
            invariant
                k <= self.snapshots@.len(),
            decreases k,
        {
            k = k - 1;
        }
        if k > 0 {
            proof {
                assert(snapshot_ok(p, self.snapshots@[k - 1], self.next_snapshot_at.0));
            }
            let state = self.snapshots[k - 1].state.duplicate();
            self.state = state;
            self.next_event = self.snapshots[k - 1].next_event;
            self.at = self.snapshots[k - 1].at;
        } else {
            self.state = Self::fresh_state(&self.program);
            self.next_event = 0;
            self.at = Time::zero();
        }
    }

    /// Replays forward to `t`: applies each next event at or before `t`, recording a
    /// snapshot at every boundary passed on the way.
    fn advance_to(&mut self, t: Time)
        requires
            old(self).wf(),
            forall|i: int|
                0 <= i < old(self).next_event ==> #[trigger] old(self).program@.events[i].at <= t.0,
            t.0 < u64::MAX,
        ensures
            final(self).wf(),
            final(self).program == old(self).program,
            final(self).at == t,
            final(self).next_event == leading(final(self).program@.events, t.0),
    {
        let ghost p = self.program@;
        let ghost prog0 = self.program;
        let ghost fresh = fresh_view(p);
        self.at = t;
        let n = self.program.events.len();
        while self.next_event < n && self.program.events[self.next_event].at.0 <= t.0
            invariant
                self.wf(),
                self.at == t,
                self.program == prog0,
                p == prog0@,
                fresh == fresh_view(p),
                n == p.events.len(),
                t.0 < u64::MAX,
            decreases n - self.next_event,
        {
            let event_at = self.program.events[self.next_event].at;
            let ghost ne = self.next_event;
            while self.next_snapshot_at.0 < event_at.0
                invariant
                    self.wf(),
                    self.at == t,
                    self.next_event == ne,
                    self.program == prog0,
                    p == prog0@,
                    self.next_event < n == p.events.len(),
                    event_at.0 == p.events[self.next_event as int].at,
                    event_at.0 <= t.0,
                decreases u64::MAX - self.next_snapshot_at.0,
            {
                let ghost b0 = self.next_snapshot_at.0;
                self.record_snapshot();
                assert(self.next_snapshot_at.0 > b0);
            }
            let ghost i = self.next_event as int;
            let ghost s0 = self.state@;
            proof {
                lemma_replay_scrolled(fresh, p.events, i);
                assert(p.events[i].op == self.program.events@[i].op@);
            }
            apply_op(&mut self.state, &self.program.events[self.next_event].op);
            self.next_event = self.next_event + 1;
            proof {
                let r = replay(fresh, p.events, i);
                lemma_apply_ignores_visible(s0, p.events[i].op, false);
                lemma_apply_ignores_visible(r, p.events[i].op, false);
                assert(replay(fresh, p.events, i + 1) == apply_op_spec(r, p.events[i].op));
            }
        }
        while t.0 >= self.next_snapshot_at.0
            invariant
                self.wf(),
                self.at == t,
                self.program == prog0,
                p == prog0@,
                t.0 < u64::MAX,
                self.next_event == n || p.events[self.next_event as int].at > t.0,
                n == p.events.len(),
            decreases u64::MAX - self.next_snapshot_at.0,
        {
            let ghost b0 = self.next_snapshot_at.0;
            self.record_snapshot();
            assert(self.next_snapshot_at.0 > b0);
        }
        proof {
            lemma_leading_unique(p.events, t.0, self.next_event as int);
        }
    }

    /// Cursor visibility is derived from `t`, never from an event, so it cannot
    /// desync from the rest of the animation.
    fn apply_cursor(&mut self, t: Time)
        requires
            old(self).wf(),
        ensures
            final(self).wf(),
            final(self).program == old(self).program,
            final(self).state@ == with_visible(
                old(self).state@,
                cursor_visible_at(old(self).program@, t.0),
            ),
            final(self).next_event == old(self).next_event,
            final(self).at == old(self).at,
    {
        let ghost p = self.program@;
        let mut visible = self.program.cursor.visible;
        let mut blink = self.program.cursor.blink;
        let mut k: usize = 0;
        while k < self.program.regions.len()
            invariant
                k <= p.regions.len(),
                p == self.program@,
                (visible, blink) == region_cursor(
                    p.regions.take(k as int),
                    t.0,
                    (p.cursor.visible, p.cursor.blink),
                ),
            decreases p.regions.len() - k,
        {
            proof {
                assert(p.regions.take(k + 1).drop_last() =~= p.regions.take(k as int));
            }
            let region = &self.program.regions[k];
            if region.start.0 <= t.0 && t.0 < region.end.0 {
                match region.kind {
                    RegionKind::Cursor { visible: v, blink: b } => {
                        visible = v;
                        blink = b;
                    },
                }
            }
            k = k + 1;
        }
        proof {
            assert(p.regions.take(k as int) =~= p.regions);
        }
        match blink {
            Some(period) => {
                if period.0 > 0 {
                    let phase = t.0 / period.0;
                    visible = visible && phase % 2 == 0;
                }
            },
            None => {},
        }
        self.state.cursor.visible = visible;
    }

    /// The terminal at virtual time `t`. The result depends on the program and `t`
    /// alone, whatever was asked before: every leading event at or before `t`
    /// replayed on a fresh terminal, the cursor shown as the regions and blink
    /// cycle say at `t`.
    ///
    /// `t` must lie below `u64::MAX`: snapshot boundaries stop at `u64::MAX`, so
    /// forward replay to that time would record snapshots without end.
    pub fn state_at(&mut self, t: Time) -> (s: &TerminalState)
        requires
            old(self).wf(),
            t.0 < u64::MAX,
        ensures
            final(self).wf(),
            final(self).program_view() == old(self).program_view(),
            s@ == frame_state(old(self).program_view(), t.0),
    {
        if t.0 < self.at.0 {
            self.rewind_to(t);
        }
        self.advance_to(t);
        self.apply_cursor(t);
        &self.state
    }
}

} // verus!
