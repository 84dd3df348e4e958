//! The compiler: a resolved scenario becomes a program of timestamped terminal
//! operations and time-driven regions.
use crate::color::Color;
use crate::codes;
use crate::config::{prompt_spans, styled_view, GridSpec, Palette, PromptConfig};
use crate::diag::{error_view, DiagView, Diagnostic};
use crate::grid::Overflow;
use crate::program::{
    apply_op, events_view, lemma_replay_scrolled_monotone, replay, DynRegion, Event, EventView,
    Op, OpView, Program, ProgramView, RegionKind,
};
use crate::scenario::{runs_view, Action, ClearEffect, Scenario, TextRun};
use crate::style::{default_style, intern_spec, style_of, table_wf, StyleId, StyleTable, TextStyle};
use crate::terminal::{new_term, TermView, TerminalState};
use crate::text::{append_decimal, decimal, grapheme_clusters, graphemes};
use crate::random::{seeded_draws, SeededRng};
use crate::time::{sat_add, Time};
use vstd::prelude::*;

verus! {

/// One row of a `clear: terminal` wipe takes 16 ms.
pub open spec fn clear_row_step() -> u64 {
    16_000_000
}

/// The compiler's state as a value.
pub struct CompState {
    pub clock: u64,
    pub events: Seq<EventView>,
    pub regions: Seq<DynRegion>,
    pub styles: Seq<TextStyle>,
    pub active_style: StyleId,
    pub active_text_style: TextStyle,
    /// How many values of the random-draw list have been used.
    pub draws_used: nat,
}

/// What the compiler reads besides the timeline.
pub struct CompileEnv {
    pub prompt: PromptConfig,
    pub palette: Palette,
    pub cursor_blink: Option<Time>,
    pub rows: u16,
    pub initial_style: StyleId,
    pub draws: Seq<u64>,
}

/// The environment a scenario compiles in.
pub open spec fn env_of(s: Scenario, rows: u16, initial_style: StyleId, draws: Seq<u64>) -> CompileEnv {
    CompileEnv {
        prompt: s.prompt,
        palette: s.palette,
        cursor_blink: s.cursor.blink,
        rows,
        initial_style,
        draws,
    }
}

/// Records `op` at the current clock.
pub open spec fn emit_spec(st: CompState, op: OpView) -> CompState {
    CompState { events: st.events.push(EventView { at: st.clock, op }), ..st }
}

/// Moves the clock forward by `d`, saturating.
pub open spec fn advance(st: CompState, d: u64) -> CompState {
    CompState { clock: sat_add(st.clock as int, d as int), ..st }
}

/// Interns `s` into the state's style table.
pub open spec fn with_interned(st: CompState, s: TextStyle) -> (CompState, StyleId) {
    let (t, id) = intern_spec(st.styles, s);
    (CompState { styles: t, ..st }, id)
}

/// Types each grapheme of `gs` in `style`, one event each, the clock advancing by
/// `speed` after each.
pub open spec fn type_text_spec(st: CompState, gs: Seq<Seq<char>>, style: StyleId, speed: u64) -> CompState
    decreases gs.len(),
{
    if gs.len() == 0 {
        st
    } else {
        advance(
            emit_spec(
                type_text_spec(st, gs.drop_last(), style, speed),
                OpView::PutGrapheme { g: gs.last(), style },
            ),
            speed,
        )
    }
}

/// The active text style with its foreground replaced.
pub open spec fn with_fg(st: CompState, fg: Color) -> TextStyle {
    TextStyle { fg, ..st.active_text_style }
}

/// Types the runs in order; a run with its own color uses the active style with
/// that foreground, a run without one uses the active style itself.
pub open spec fn write_spans_spec(st: CompState, runs: Seq<(Seq<char>, Option<Color>)>, speed: u64) -> CompState
    decreases runs.len(),
{
    if runs.len() == 0 {
        st
    } else {
        let s1 = write_spans_spec(st, runs.drop_last(), speed);
        let run = runs.last();
        let (s2, style) = match run.1 {
            Some(c) => with_interned(s1, with_fg(s1, c)),
            None => (s1, s1.active_style),
        };
        type_text_spec(s2, grapheme_clusters(run.0), style, speed)
    }
}

/// Shows the prompt segments at once, each in its interned style.
pub open spec fn prompt_spec(st: CompState, segs: Seq<(Seq<char>, TextStyle)>) -> CompState
    decreases segs.len(),
{
    if segs.len() == 0 {
        st
    } else {
        let s1 = prompt_spec(st, segs.drop_last());
        let (s2, id) = with_interned(s1, segs.last().1);
        type_text_spec(s2, grapheme_clusters(segs.last().0), id, 0)
    }
}

/// Emits `op` `count` times, the clock advancing by `step` after each.
pub open spec fn repeat_spec(st: CompState, op: OpView, count: nat, step: u64) -> CompState
    decreases count,
{
    if count == 0 {
        st
    } else {
        advance(emit_spec(repeat_spec(st, op, (count - 1) as nat, step), op), step)
    }
}

/// Clears rows `0..n` one after another, a row step apart.
pub open spec fn clear_rows_spec(st: CompState, n: nat) -> CompState
    decreases n,
{
    if n == 0 {
        st
    } else {
        advance(
            emit_spec(clear_rows_spec(st, (n - 1) as nat), OpView::ClearRow { row: (n - 1) as u16 }),
            clear_row_step(),
        )
    }
}

/// The inclusive range a `pause_random` draws from: `min` up to `max`, or just
/// `min` when `max` lies below it.
pub open spec fn pause_range(min: Time, max: Time) -> (u64, u64) {
    (min.0, if max.0 >= min.0 { max.0 } else { min.0 })
}

/// What one action does to the compiler's state.
pub open spec fn action_spec(st: CompState, a: Action, env: CompileEnv) -> CompState {
    match a {
        Action::Write { spans, speed } => write_spans_spec(st, runs_view(spans@), speed.0),
        Action::WriteLine { spans, speed } => emit_spec(
            write_spans_spec(st, runs_view(spans@), speed.0),
            OpView::Newline,
        ),
        Action::Command { text, speed, enter_delay } => {
            let s1 = prompt_spec(st, prompt_spans(env.prompt, env.palette));
            let (s2, cs) = with_interned(s1, with_fg(s1, env.palette.command));
            let s3 = type_text_spec(s2, grapheme_clusters(text@), cs, speed.0);
            emit_spec(advance(s3, enter_delay.0), OpView::Newline)
        },
        Action::Pause { duration } => advance(st, duration.0),
        Action::PauseRandom { min, max } => {
            let (low, high) = pause_range(min, max);
            if low == high {
                advance(st, low)
            } else {
                CompState {
                    draws_used: st.draws_used + 1,
                    ..advance(st, env.draws[st.draws_used as int])
                }
            }
        },
        Action::Newline { count } => repeat_spec(st, OpView::Newline, count as nat, 0),
        Action::Clear { effect } => match effect {
            ClearEffect::Instant => emit_spec(st, OpView::Clear),
            ClearEffect::Terminal => clear_rows_spec(st, env.rows as nat),
        },
        Action::Backspace { count, speed } => repeat_spec(
            st,
            OpView::Backspace,
            count as nat,
            speed.0,
        ),
        Action::Cursor { visible, blink, duration } => {
            let end = sat_add(st.clock as int, duration.0 as int);
            let blink = match blink {
                Some(b) => Some(b),
                None => env.cursor_blink,
            };
            CompState {
                regions: st.regions.push(
                    DynRegion {
                        start: Time(st.clock),
                        end: Time(end),
                        kind: RegionKind::Cursor { visible, blink },
                    },
                ),
                clock: end,
                ..st
            }
        },
        Action::SetColor { foreground, background } => {
            let style = TextStyle {
                fg: match foreground {
                    Some(f) => f,
                    None => st.active_text_style.fg,
                },
                bg: match background {
                    Some(b) => Some(b),
                    None => st.active_text_style.bg,
                },
                ..st.active_text_style
            };
            let (s1, id) = with_interned(st, style);
            emit_spec(
                CompState { active_text_style: style, active_style: id, ..s1 },
                OpView::SetStyle(id),
            )
        },
        Action::ResetStyle => emit_spec(
            CompState {
                active_style: env.initial_style,
                active_text_style: style_of(st.styles, env.initial_style),
                ..st
            },
            OpView::SetStyle(env.initial_style),
        ),
    }
}

/// The state after running `actions` in order.
pub open spec fn run_actions(st: CompState, actions: Seq<Action>, env: CompileEnv) -> CompState
    decreases actions.len(),
{
    if actions.len() == 0 {
        st
    } else {
        action_spec(run_actions(st, actions.drop_last(), env), actions.last(), env)
    }
}

/// The range one action draws a random value from, if it draws one: a random
/// pause whose range holds one value draws nothing.
pub open spec fn action_requests(a: Action) -> Seq<(u64, u64)> {
    match a {
        Action::PauseRandom { min, max } => {
            let r = pause_range(min, max);
            if r.0 == r.1 {
                Seq::empty()
            } else {
                seq![r]
            }
        },
        _ => Seq::empty(),
    }
}

/// The ranges the random pauses of `actions` draw from, in order.
pub open spec fn random_requests(actions: Seq<Action>) -> Seq<(u64, u64)>
    decreases actions.len(),
{
    if actions.len() == 0 {
        Seq::empty()
    } else {
        random_requests(actions.drop_last()) + action_requests(actions.last())
    }
}

/// Each action uses exactly as many draws as it requests.
pub proof fn lemma_action_draws(st: CompState, a: Action, env: CompileEnv)
    ensures
        action_spec(st, a, env).draws_used == st.draws_used + action_requests(a).len(),
{
    match a {
        Action::Write { spans, speed } => lemma_write_spans_keeps(st, runs_view(spans@), speed.0),
        Action::WriteLine { spans, speed } => lemma_write_spans_keeps(st, runs_view(spans@), speed.0),
        Action::Command { text, speed, enter_delay } => {
            let s1 = prompt_spec(st, prompt_spans(env.prompt, env.palette));
            lemma_prompt_keeps(st, prompt_spans(env.prompt, env.palette));
            let (s2, cs) = with_interned(s1, with_fg(s1, env.palette.command));
            lemma_type_text_keeps(s2, grapheme_clusters(text@), cs, speed.0);
        },
        Action::Newline { count } => lemma_repeat_keeps(st, OpView::Newline, count as nat, 0),
        Action::Backspace { count, speed } => lemma_repeat_keeps(st, OpView::Backspace, count as nat, speed.0),
        Action::Clear { effect } => lemma_clear_rows_keeps(st, env.rows as nat),
        _ => {},
    }
}

pub proof fn lemma_type_text_keeps(st: CompState, gs: Seq<Seq<char>>, style: StyleId, speed: u64)
    ensures
        type_text_spec(st, gs, style, speed).draws_used == st.draws_used,
        type_text_spec(st, gs, style, speed).styles == st.styles,
        type_text_spec(st, gs, style, speed).regions == st.regions,
    decreases gs.len(),
{
    if gs.len() > 0 {
        lemma_type_text_keeps(st, gs.drop_last(), style, speed);
    }
}

pub proof fn lemma_write_spans_keeps(st: CompState, runs: Seq<(Seq<char>, Option<Color>)>, speed: u64)
    ensures
        write_spans_spec(st, runs, speed).draws_used == st.draws_used,
    decreases runs.len(),
{
    if runs.len() > 0 {
        lemma_write_spans_keeps(st, runs.drop_last(), speed);
        let s1 = write_spans_spec(st, runs.drop_last(), speed);
        let run = runs.last();
        let (s2, style) = match run.1 {
            Some(c) => with_interned(s1, with_fg(s1, c)),
            None => (s1, s1.active_style),
        };
        lemma_type_text_keeps(s2, grapheme_clusters(run.0), style, speed);
    }
}

pub proof fn lemma_prompt_keeps(st: CompState, segs: Seq<(Seq<char>, TextStyle)>)
    ensures
        prompt_spec(st, segs).draws_used == st.draws_used,
    decreases segs.len(),
{
    if segs.len() > 0 {
        lemma_prompt_keeps(st, segs.drop_last());
        let s1 = prompt_spec(st, segs.drop_last());
        let (s2, id) = with_interned(s1, segs.last().1);
        lemma_type_text_keeps(s2, grapheme_clusters(segs.last().0), id, 0);
    }
}

pub proof fn lemma_repeat_keeps(st: CompState, op: OpView, count: nat, step: u64)
    ensures
        repeat_spec(st, op, count, step).draws_used == st.draws_used,
    decreases count,
{
    if count > 0 {
        lemma_repeat_keeps(st, op, (count - 1) as nat, step);
    }
}

pub proof fn lemma_clear_rows_keeps(st: CompState, n: nat)
    ensures
        clear_rows_spec(st, n).draws_used == st.draws_used,
    decreases n,
{
    if n > 0 {
        lemma_clear_rows_keeps(st, (n - 1) as nat);
    }
}

/// A shorter prefix of a timeline requests a prefix of what a longer one does.
pub proof fn lemma_requests_prefix(a: Seq<Action>, i: int, j: int)
    requires
        0 <= i <= j <= a.len(),
    ensures
        random_requests(a.take(i)).len() <= random_requests(a.take(j)).len(),
        forall|k: int|
            0 <= k < random_requests(a.take(i)).len() ==> #[trigger] random_requests(a.take(i))[k]
                == random_requests(a.take(j))[k],
    decreases j - i,
{
    if i < j {
        lemma_requests_prefix(a, i, j - 1);
        assert(a.take(j).drop_last() =~= a.take(j - 1));
        let short = random_requests(a.take(i));
        let mid = random_requests(a.take(j - 1));
        let long = random_requests(a.take(j));
        assert(long == mid + action_requests(a.take(j).last()));
        assert forall|k: int| 0 <= k < short.len() implies #[trigger] short[k] == long[k] by {
            assert(short[k] == mid[k]);
        }
    }
}

/// Running `actions` uses exactly the draws they request.
proof fn lemma_run_draws_used(st: CompState, actions: Seq<Action>, env: CompileEnv)
    ensures
        run_actions(st, actions, env).draws_used == st.draws_used + random_requests(actions).len(),
    decreases actions.len(),
{
    if actions.len() > 0 {
        lemma_run_draws_used(st, actions.drop_last(), env);
        lemma_action_draws(run_actions(st, actions.drop_last(), env), actions.last(), env);
    }
}

/// The palette's foreground over the default style: what plain text is typed in.
pub open spec fn base_style(p: Palette) -> TextStyle {
    TextStyle { fg: p.foreground, ..default_style() }
}

/// The compiler's state before the first action.
pub open spec fn initial_state(p: Palette) -> CompState {
    let (t, id) = intern_spec(seq![default_style()], base_style(p));
    CompState {
        clock: 0,
        events: Seq::empty(),
        regions: Seq::empty(),
        styles: t,
        active_style: id,
        active_text_style: base_style(p),
        draws_used: 0,
    }
}

/// The later of `d` and every region's end.
pub open spec fn latest_end(d: u64, regions: Seq<DynRegion>) -> u64
    decreases regions.len(),
{
    if regions.len() == 0 {
        d
    } else {
        let m = latest_end(d, regions.drop_last());
        if regions.last().end.0 > m {
            regions.last().end.0
        } else {
            m
        }
    }
}

/// The program's length: the final clock or the last region's end, whichever is
/// later, plus the loop delay when the scenario loops.
pub open spec fn program_duration(s: Scenario, fin: CompState) -> u64 {
    let d = latest_end(fin.clock, fin.regions);
    if s.playback.looping {
        sat_add(d as int, s.playback.loop_delay.0 as int)
    } else {
        d
    }
}

/// The program a scenario compiles to, the random pauses taking `draws` in order.
pub open spec fn program_spec(s: Scenario, grid: GridSpec, draws: Seq<u64>) -> ProgramView {
    let init = initial_state(s.palette);
    let fin = run_actions(init, s.timeline@, env_of(s, grid.rows, init.active_style, draws));
    ProgramView {
        events: fin.events,
        regions: fin.regions,
        duration: program_duration(s, fin),
        grid,
        overflow: s.terminal.overflow,
        styles: fin.styles,
        initial_style: init.active_style,
        cursor: s.cursor,
    }
}

/// The terminal the overflow check replays on: the program's grid in scroll mode,
/// with the program's styles.
pub open spec fn overflow_start(p: ProgramView) -> TermView {
    TermView { styles: p.styles, ..new_term(p.grid.cols, p.grid.rows, Overflow::Scroll) }
}

/// Replaying every event scrolls the grid at least once: the content does not fit.
pub open spec fn overflows(p: ProgramView) -> bool {
    replay(overflow_start(p), p.events, p.events.len() as int).scrolled > 0
}

pub open spec fn overflow_hint() -> Seq<char> {
    "Set `overflow: scroll` to scroll, `clip` to drop the excess, or enlarge the terminal region."@
}

/// The error `overflow: error` reports for content that does not fit `rows` rows.
pub open spec fn overflow_diag(rows: u16) -> DiagView {
    DiagView {
        path: Some("terminal.overflow"@),
        hint: Some(overflow_hint()),
        ..error_view(
            (codes::OVERFLOW_ERROR_MODE.0@, codes::OVERFLOW_ERROR_MODE.1),
            "content overflows the "@ + decimal(rows as nat)
                + " row terminal and `overflow: error` is set"@,
        )
    }
}

/// Compiling a scenario: its program, or the overflow error when `overflow: error`
/// is set and the content would scroll.
pub open spec fn compile_spec(s: Scenario, grid: GridSpec, draws: Seq<u64>) -> Result<ProgramView, DiagView> {
    let p = program_spec(s, grid, draws);
    if s.terminal.overflow == Overflow::Error && overflows(p) {
        Err(overflow_diag(grid.rows))
    } else {
        Ok(p)
    }
}

pub open spec fn result_view(r: Result<Program, Diagnostic>) -> Result<ProgramView, DiagView> {
    match r {
        Ok(p) => Ok(p@),
        Err(d) => Err(d@),
    }
}

/// Replays the whole program in scroll mode; any scroll means the content did not
/// fit, which `overflow: error` treats as a validation failure.
pub fn check_no_overflow(program: &Program) -> (r: Result<(), Diagnostic>)
    ensures
        r is Err <==> overflows(program@),
        r matches Err(d) ==> d@ == overflow_diag(program.grid.rows),
{
    let mut state = TerminalState::new(program.grid.cols, program.grid.rows, Overflow::Scroll);
    state.styles = program.styles.duplicate();
    let ghost start = overflow_start(program@);
    let ghost evs = program@.events;
    proof {
        assert(state@ == start);
    }
    let mut i: usize = 0;
    while i < program.events.len()
        invariant
            i <= program.events@.len() == evs.len(),
            evs == program@.events,
            start == overflow_start(program@),
            state.wf(),
            state.scrolled == 0,
            state@ == replay(start, evs, i as int),
        decreases program.events@.len() - i,
    {
        proof {
            assert(evs[i as int].op == program.events@[i as int].op@);
        }
        apply_op(&mut state, &program.events[i].op);
        i = i + 1;
        assert(state@ == replay(start, evs, i as int));
        if state.scrolled > 0 {
            proof {
                lemma_replay_scrolled_monotone(start, evs, i as int, evs.len() as int);
                reveal_strlit("content overflows the ");
                reveal_strlit(" row terminal and `overflow: error` is set");
            }
            let mut message = String::from_str("content overflows the ");
            append_decimal(&mut message, program.grid.rows as u64);
            message.append(" row terminal and `overflow: error` is set");
            let d = Diagnostic::error(codes::OVERFLOW_ERROR_MODE, message.as_str()).at_path(
                "terminal.overflow",
            ).with_hint(
                "Set `overflow: scroll` to scroll, `clip` to drop the excess, or enlarge the terminal region.",
            );
            return Err(d);
        }
    }
    Ok(())
}

/// Events in time order, none later than the clock.
pub open spec fn timed(st: CompState) -> bool {
    &&& forall|i: int, j: int|
        0 <= i <= j < st.events.len() ==> #[trigger] st.events[i].at <= #[trigger] st.events[j].at
    &&& forall|i: int| 0 <= i < st.events.len() ==> #[trigger] st.events[i].at <= st.clock
}

proof fn lemma_emit_timed(st: CompState, op: OpView)
    requires
        timed(st),
    ensures
        timed(emit_spec(st, op)),
{
    let e = emit_spec(st, op).events;
    assert forall|i: int, j: int| 0 <= i <= j < e.len() implies #[trigger] e[i].at <= #[trigger] e[j].at by {
        if j == e.len() - 1 {
            assert(e[j].at == st.clock);
        }
    }
}

proof fn lemma_type_text_timed(st: CompState, gs: Seq<Seq<char>>, style: StyleId, speed: u64)
    requires
        timed(st),
    ensures
        timed(type_text_spec(st, gs, style, speed)),
        type_text_spec(st, gs, style, speed).clock >= st.clock,
    decreases gs.len(),
{
    if gs.len() > 0 {
        let s1 = type_text_spec(st, gs.drop_last(), style, speed);
        lemma_type_text_timed(st, gs.drop_last(), style, speed);
        lemma_emit_timed(s1, OpView::PutGrapheme { g: gs.last(), style });
    }
}

proof fn lemma_write_spans_timed(st: CompState, runs: Seq<(Seq<char>, Option<Color>)>, speed: u64)
    requires
        timed(st),
    ensures
        timed(write_spans_spec(st, runs, speed)),
        write_spans_spec(st, runs, speed).clock >= st.clock,
    decreases runs.len(),
{
    if runs.len() > 0 {
        lemma_write_spans_timed(st, runs.drop_last(), speed);
        let s1 = write_spans_spec(st, runs.drop_last(), speed);
        let run = runs.last();
        let (s2, style) = match run.1 {
            Some(c) => with_interned(s1, with_fg(s1, c)),
            None => (s1, s1.active_style),
        };
        lemma_type_text_timed(s2, grapheme_clusters(run.0), style, speed);
    }
}

proof fn lemma_prompt_timed(st: CompState, segs: Seq<(Seq<char>, TextStyle)>)
    requires
        timed(st),
    ensures
        timed(prompt_spec(st, segs)),
        prompt_spec(st, segs).clock >= st.clock,
    decreases segs.len(),
{
    if segs.len() > 0 {
        lemma_prompt_timed(st, segs.drop_last());
        let s1 = prompt_spec(st, segs.drop_last());
        let (s2, id) = with_interned(s1, segs.last().1);
        lemma_type_text_timed(s2, grapheme_clusters(segs.last().0), id, 0);
    }
}

proof fn lemma_repeat_timed(st: CompState, op: OpView, count: nat, step: u64)
    requires
        timed(st),
    ensures
        timed(repeat_spec(st, op, count, step)),
        repeat_spec(st, op, count, step).clock >= st.clock,
    decreases count,
{
    if count > 0 {
        lemma_repeat_timed(st, op, (count - 1) as nat, step);
        lemma_emit_timed(repeat_spec(st, op, (count - 1) as nat, step), op);
    }
}

proof fn lemma_clear_rows_timed(st: CompState, n: nat)
    requires
        timed(st),
    ensures
        timed(clear_rows_spec(st, n)),
        clear_rows_spec(st, n).clock >= st.clock,
    decreases n,
{
    if n > 0 {
        lemma_clear_rows_timed(st, (n - 1) as nat);
        lemma_emit_timed(
            clear_rows_spec(st, (n - 1) as nat),
            OpView::ClearRow { row: (n - 1) as u16 },
        );
    }
}

proof fn lemma_action_timed(st: CompState, a: Action, env: CompileEnv)
    requires
        timed(st),
    ensures
        timed(action_spec(st, a, env)),
        action_spec(st, a, env).clock >= st.clock,
{
    match a {
        Action::Write { spans, speed } => lemma_write_spans_timed(st, runs_view(spans@), speed.0),
        Action::WriteLine { spans, speed } => {
            lemma_write_spans_timed(st, runs_view(spans@), speed.0);
            lemma_emit_timed(write_spans_spec(st, runs_view(spans@), speed.0), OpView::Newline);
        },
        Action::Command { text, speed, enter_delay } => {
            let s1 = prompt_spec(st, prompt_spans(env.prompt, env.palette));
            lemma_prompt_timed(st, prompt_spans(env.prompt, env.palette));
            let (s2, cs) = with_interned(s1, with_fg(s1, env.palette.command));
            let s3 = type_text_spec(s2, grapheme_clusters(text@), cs, speed.0);
            lemma_type_text_timed(s2, grapheme_clusters(text@), cs, speed.0);
            lemma_emit_timed(advance(s3, enter_delay.0), OpView::Newline);
        },
        Action::Newline { count } => lemma_repeat_timed(st, OpView::Newline, count as nat, 0),
        Action::Backspace { count, speed } => lemma_repeat_timed(st, OpView::Backspace, count as nat, speed.0),
        Action::Clear { effect } => match effect {
            ClearEffect::Instant => lemma_emit_timed(st, OpView::Clear),
            ClearEffect::Terminal => lemma_clear_rows_timed(st, env.rows as nat),
        },
        Action::SetColor { foreground, background } => {
            let style = TextStyle {
                fg: match foreground {
                    Some(f) => f,
                    None => st.active_text_style.fg,
                },
                bg: match background {
                    Some(b) => Some(b),
                    None => st.active_text_style.bg,
                },
                ..st.active_text_style
            };
            let (s1, id) = with_interned(st, style);
            lemma_emit_timed(
                CompState { active_text_style: style, active_style: id, ..s1 },
                OpView::SetStyle(id),
            );
        },
        Action::ResetStyle => lemma_emit_timed(
            CompState {
                active_style: env.initial_style,
                active_text_style: style_of(st.styles, env.initial_style),
                ..st
            },
            OpView::SetStyle(env.initial_style),
        ),
        _ => {},
    }
}

proof fn lemma_run_actions_timed(st: CompState, actions: Seq<Action>, env: CompileEnv)
    requires
        timed(st),
    ensures
        timed(run_actions(st, actions, env)),
    decreases actions.len(),
{
    if actions.len() > 0 {
        lemma_run_actions_timed(st, actions.drop_last(), env);
        lemma_action_timed(run_actions(st, actions.drop_last(), env), actions.last(), env);
    }
}

/// A compiled program's events come in time order: each event's time is no
/// earlier than the one before it.
pub proof fn lemma_program_events_in_time_order(s: Scenario, grid: GridSpec, draws: Seq<u64>, i: int, j: int)
    requires
        0 <= i <= j < program_spec(s, grid, draws).events.len(),
    ensures
        program_spec(s, grid, draws).events[i].at <= program_spec(s, grid, draws).events[j].at,
{
    let init = initial_state(s.palette);
    lemma_run_actions_timed(init, s.timeline@, env_of(s, grid.rows, init.active_style, draws));
}

/// Every random pause lasts a value within its range. When the draws fit the
/// ranges the timeline requests (as the draws `compile` makes always do), the
/// action at `i`, a `pause_random` from `min` to `max`, moves the clock on from
/// where the earlier actions left it by some `d` with `min <= d <= max` (just
/// `min` when `max` lies below it), clamped at the largest time.
pub proof fn lemma_random_pause_in_range(s: Scenario, grid: GridSpec, draws: Seq<u64>, i: int, min: Time, max: Time)
    requires
        0 <= i < s.timeline@.len(),
        s.timeline@[i] == (Action::PauseRandom { min, max }),
        draws_fit(random_requests(s.timeline@), draws),
    ensures
        ({
            let init = initial_state(s.palette);
            let env = env_of(s, grid.rows, init.active_style, draws);
            let before = run_actions(init, s.timeline@.take(i), env).clock;
            let after = run_actions(init, s.timeline@.take(i + 1), env).clock;
            exists|d: u64|
                pause_range(min, max).0 <= d <= pause_range(min, max).1 && after == sat_add(
                    before as int,
                    d as int,
                )
        }),
{
    let tl = s.timeline@;
    let init = initial_state(s.palette);
    let env = env_of(s, grid.rows, init.active_style, draws);
    let pre = tl.take(i);
    assert(tl.take(i + 1).drop_last() =~= pre);
    assert(tl.take(i + 1).last() == tl[i]);
    let st = run_actions(init, pre, env);
    let r = pause_range(min, max);
    lemma_run_draws_used(init, pre, env);
    if r.0 == r.1 {
        assert(run_actions(init, tl.take(i + 1), env).clock == sat_add(st.clock as int, r.0 as int));
    } else {
        let k = random_requests(pre).len() as int;
        assert(random_requests(tl.take(i + 1)) == random_requests(pre) + seq![r]);
        lemma_requests_prefix(tl, i + 1, tl.len() as int);
        assert(tl.take(tl.len() as int) =~= tl);
        assert(random_requests(tl.take(i + 1))[k] == r);
        assert(random_requests(tl)[k] == r);
        let d = draws[k];
        assert(r.0 <= d <= r.1);
        assert(run_actions(init, tl.take(i + 1), env).clock == sat_add(st.clock as int, d as int));
    }
}

/// `b` comes after `a`: it keeps `a`'s events, adds events only at or after
/// `a`'s clock, and its clock has not gone back.
pub open spec fn follows(a: CompState, b: CompState) -> bool {
    &&& a.events.len() <= b.events.len()
    &&& forall|k: int| 0 <= k < a.events.len() ==> #[trigger] b.events[k] == a.events[k]
    &&& forall|k: int| a.events.len() <= k < b.events.len() ==> #[trigger] b.events[k].at >= a.clock
    &&& a.clock <= b.clock
}

proof fn lemma_follows_trans(a: CompState, b: CompState, c: CompState)
    requires
        follows(a, b),
        follows(b, c),
    ensures
        follows(a, c),
{
    assert forall|k: int| a.events.len() <= k < c.events.len() implies #[trigger] c.events[k].at
        >= a.clock by {
        if k < b.events.len() {
            assert(c.events[k] == b.events[k]);
        }
    }
}

proof fn lemma_emit_advance_follows(st: CompState, op: OpView, d: u64)
    ensures
        follows(st, emit_spec(st, op)),
        follows(st, advance(emit_spec(st, op), d)),
        follows(st, advance(st, d)),
{
}

proof fn lemma_type_text_follows(st: CompState, gs: Seq<Seq<char>>, style: StyleId, speed: u64)
    ensures
        follows(st, type_text_spec(st, gs, style, speed)),
    decreases gs.len(),
{
    if gs.len() > 0 {
        let s1 = type_text_spec(st, gs.drop_last(), style, speed);
        lemma_type_text_follows(st, gs.drop_last(), style, speed);
        lemma_emit_advance_follows(s1, OpView::PutGrapheme { g: gs.last(), style }, speed);
        lemma_follows_trans(
            st,
            s1,
            advance(emit_spec(s1, OpView::PutGrapheme { g: gs.last(), style }), speed),
        );
    }
}

proof fn lemma_write_spans_follows(st: CompState, runs: Seq<(Seq<char>, Option<Color>)>, speed: u64)
    ensures
        follows(st, write_spans_spec(st, runs, speed)),
    decreases runs.len(),
{
    if runs.len() > 0 {
        let s1 = write_spans_spec(st, runs.drop_last(), speed);
        lemma_write_spans_follows(st, runs.drop_last(), speed);
        let run = runs.last();
        let (s2, style) = match run.1 {
            Some(c) => with_interned(s1, with_fg(s1, c)),
            None => (s1, s1.active_style),
        };
        lemma_follows_trans(st, s1, s2);
        lemma_type_text_follows(s2, grapheme_clusters(run.0), style, speed);
        lemma_follows_trans(st, s2, type_text_spec(s2, grapheme_clusters(run.0), style, speed));
    }
}

proof fn lemma_prompt_follows(st: CompState, segs: Seq<(Seq<char>, TextStyle)>)
    ensures
        follows(st, prompt_spec(st, segs)),
    decreases segs.len(),
{
    if segs.len() > 0 {
        let s1 = prompt_spec(st, segs.drop_last());
        lemma_prompt_follows(st, segs.drop_last());
        let (s2, id) = with_interned(s1, segs.last().1);
        lemma_follows_trans(st, s1, s2);
        lemma_type_text_follows(s2, grapheme_clusters(segs.last().0), id, 0);
        lemma_follows_trans(st, s2, type_text_spec(s2, grapheme_clusters(segs.last().0), id, 0));
    }
}

proof fn lemma_repeat_follows(st: CompState, op: OpView, count: nat, step: u64)
    ensures
        follows(st, repeat_spec(st, op, count, step)),
    decreases count,
{
    if count > 0 {
        let s1 = repeat_spec(st, op, (count - 1) as nat, step);
        lemma_repeat_follows(st, op, (count - 1) as nat, step);
        lemma_emit_advance_follows(s1, op, step);
        lemma_follows_trans(st, s1, advance(emit_spec(s1, op), step));
    }
}

proof fn lemma_clear_rows_follows(st: CompState, n: nat)
    ensures
        follows(st, clear_rows_spec(st, n)),
    decreases n,
{
    if n > 0 {
        let s1 = clear_rows_spec(st, (n - 1) as nat);
        lemma_clear_rows_follows(st, (n - 1) as nat);
        let op = OpView::ClearRow { row: (n - 1) as u16 };
        lemma_emit_advance_follows(s1, op, clear_row_step());
        lemma_follows_trans(st, s1, advance(emit_spec(s1, op), clear_row_step()));
    }
}

/// Every action keeps the events before it and adds its own at or after the
/// clock it starts from.
proof fn lemma_action_follows(st: CompState, a: Action, env: CompileEnv)
    ensures
        follows(st, action_spec(st, a, env)),
{
    match a {
        Action::Write { spans, speed } => lemma_write_spans_follows(st, runs_view(spans@), speed.0),
        Action::WriteLine { spans, speed } => {
            let s1 = write_spans_spec(st, runs_view(spans@), speed.0);
            lemma_write_spans_follows(st, runs_view(spans@), speed.0);
            lemma_emit_advance_follows(s1, OpView::Newline, 0);
            lemma_follows_trans(st, s1, emit_spec(s1, OpView::Newline));
        },
        Action::Command { text, speed, enter_delay } => {
            let s1 = prompt_spec(st, prompt_spans(env.prompt, env.palette));
            lemma_prompt_follows(st, prompt_spans(env.prompt, env.palette));
            let (s2, cs) = with_interned(s1, with_fg(s1, env.palette.command));
            lemma_follows_trans(st, s1, s2);
            let s3 = type_text_spec(s2, grapheme_clusters(text@), cs, speed.0);
            lemma_type_text_follows(s2, grapheme_clusters(text@), cs, speed.0);
            lemma_follows_trans(st, s2, s3);
            let s4 = advance(s3, enter_delay.0);
            lemma_emit_advance_follows(s3, OpView::Newline, enter_delay.0);
            lemma_follows_trans(st, s3, s4);
            lemma_emit_advance_follows(s4, OpView::Newline, 0);
            lemma_follows_trans(st, s4, emit_spec(s4, OpView::Newline));
        },
        Action::Newline { count } => lemma_repeat_follows(st, OpView::Newline, count as nat, 0),
        Action::Backspace { count, speed } => lemma_repeat_follows(st, OpView::Backspace, count as nat, speed.0),
        Action::Clear { effect } => match effect {
            ClearEffect::Instant => lemma_emit_advance_follows(st, OpView::Clear, 0),
            ClearEffect::Terminal => lemma_clear_rows_follows(st, env.rows as nat),
        },
        Action::SetColor { foreground, background } => {
            let style = TextStyle {
                fg: match foreground {
                    Some(f) => f,
                    None => st.active_text_style.fg,
                },
                bg: match background {
                    Some(b) => Some(b),
                    None => st.active_text_style.bg,
                },
                ..st.active_text_style
            };
            let (s1, id) = with_interned(st, style);
            let s2 = CompState { active_text_style: style, active_style: id, ..s1 };
            lemma_emit_advance_follows(s2, OpView::SetStyle(id), 0);
            lemma_follows_trans(st, s2, emit_spec(s2, OpView::SetStyle(id)));
        },
        Action::ResetStyle => {
            let s1 = CompState {
                active_style: env.initial_style,
                active_text_style: style_of(st.styles, env.initial_style),
                ..st
            };
            lemma_emit_advance_follows(s1, OpView::SetStyle(env.initial_style), 0);
        },
        _ => {},
    }
}

/// Running the whole timeline keeps what its first `j` actions produced and adds
/// events only at or after the clock they left.
proof fn lemma_run_follows(st: CompState, actions: Seq<Action>, env: CompileEnv, j: int)
    requires
        0 <= j <= actions.len(),
    ensures
        follows(run_actions(st, actions.take(j), env), run_actions(st, actions, env)),
    decreases actions.len(),
{
    if j == actions.len() {
        assert(actions.take(j) =~= actions);
    } else {
        let init = actions.drop_last();
        assert(init.take(j) =~= actions.take(j));
        lemma_run_follows(st, init, env, j);
        lemma_action_follows(run_actions(st, init, env), actions.last(), env);
        lemma_follows_trans(
            run_actions(st, actions.take(j), env),
            run_actions(st, init, env),
            run_actions(st, actions, env),
        );
    }
}

/// A cursor action holds the timeline for its duration: it records a cursor
/// region from the clock it starts at to that clock plus its duration (clamped
/// at the largest time), moves the clock to the region's end, and every event
/// the later actions produce lies at or after that end.
pub proof fn lemma_cursor_holds_the_timeline(
    s: Scenario,
    grid: GridSpec,
    draws: Seq<u64>,
    i: int,
    visible: bool,
    blink: Option<Time>,
    duration: Time,
)
    requires
        0 <= i < s.timeline@.len(),
        s.timeline@[i] == (Action::Cursor { visible, blink, duration }),
    ensures
        ({
            let init = initial_state(s.palette);
            let env = env_of(s, grid.rows, init.active_style, draws);
            let before = run_actions(init, s.timeline@.take(i), env);
            let after = run_actions(init, s.timeline@.take(i + 1), env);
            let end = sat_add(before.clock as int, duration.0 as int);
            let events = program_spec(s, grid, draws).events;
            &&& after.clock == end
            &&& after.regions.last().start.0 == before.clock
            &&& after.regions.last().end.0 == end
            &&& forall|k: int| after.events.len() <= k < events.len() ==> #[trigger] events[k].at >= end
        }),
{
    let tl = s.timeline@;
    let init = initial_state(s.palette);
    let env = env_of(s, grid.rows, init.active_style, draws);
    assert(tl.take(i + 1).drop_last() =~= tl.take(i));
    assert(tl.take(i + 1).last() == tl[i]);
    lemma_run_follows(init, tl, env, i + 1);
}

/// The compiler's working state.
struct Compiler {
    clock: Time,
    events: Vec<Event>,
    regions: Vec<DynRegion>,
    styles: StyleTable,
    active_style: StyleId,
    active_text_style: TextStyle,
    draws_used: usize,
}

impl Compiler {
    spec fn st(&self) -> CompState {
        CompState {
            clock: self.clock.0,
            events: events_view(self.events@),
            regions: self.regions@,
            styles: self.styles@,
            active_style: self.active_style,
            active_text_style: self.active_text_style,
            draws_used: self.draws_used as nat,
        }
    }

    spec fn wf(&self) -> bool {
        table_wf(self.styles@)
    }

    fn emit(&mut self, op: Op)
        ensures
            final(self).st() == emit_spec(old(self).st(), op@),
            final(self).styles == old(self).styles,
    {
        let ghost e0 = self.events@;
        let at = self.clock;
        self.events.push(Event { at, op });
        proof {
            assert(events_view(self.events@) =~= events_view(e0).push(
                EventView { at: at.0, op: op@ },
            ));
        }
    }

    fn advance(&mut self, d: Time)
        ensures
            final(self).st() == advance(old(self).st(), d.0),
            final(self).styles == old(self).styles,
    {
        self.clock = self.clock.saturating_add(d);
    }

    fn intern(&mut self, style: TextStyle) -> (id: StyleId)
        requires
            old(self).wf(),
        ensures
            final(self).wf(),
            (final(self).st(), id) == with_interned(old(self).st(), style),
    {
        self.styles.intern(style)
    }

    /// Types `text` one grapheme at a time, advancing the clock by `speed` each time.
    fn type_text(&mut self, text: &str, style: StyleId, speed: Time)
        ensures
            final(self).st() == type_text_spec(old(self).st(), grapheme_clusters(text@), style, speed.0),
            final(self).styles == old(self).styles,
    {
        let gs = graphemes(text);
        let ghost gv = grapheme_clusters(text@);
        let ghost st0 = self.st();
        let ghost styles0 = self.styles;
        let mut i: usize = 0;
        while i < gs.len()
            invariant
                i <= gs@.len() == gv.len(),
                forall|k: int| 0 <= k < gs@.len() ==> #[trigger] gs@[k]@ == gv[k],
                self.st() == type_text_spec(st0, gv.take(i as int), style, speed.0),
                self.styles == styles0,
            decreases gs@.len() - i,
        {
            let g = gs[i].clone();
            proof {
                assert(gv.take(i + 1).drop_last() =~= gv.take(i as int));
                assert(gv.take(i + 1).last() == gv[i as int]);
            }
            self.emit(Op::PutGrapheme { g, style });
            self.advance(speed);
            i = i + 1;
        }
        proof {
            assert(gv.take(i as int) =~= gv);
        }
    }

    fn write_spans(&mut self, spans: &Vec<TextRun>, speed: Time)
        requires
            old(self).wf(),
        ensures
            final(self).wf(),
            final(self).st() == write_spans_spec(old(self).st(), runs_view(spans@), speed.0),
    {
        let ghost rv = runs_view(spans@);
        let ghost st0 = self.st();
        let mut i: usize = 0;
        while i < spans.len()
            invariant
                i <= spans@.len() == rv.len(),
                rv == runs_view(spans@),
                self.wf(),
                self.st() == write_spans_spec(st0, rv.take(i as int), speed.0),
            decreases spans@.len() - i,
        {
            let run = &spans[i];
            proof {
                assert(rv.take(i + 1).drop_last() =~= rv.take(i as int));
                assert(rv.take(i + 1).last() == rv[i as int]);
            }
            let style = match run.color {
                Some(color) => {
                    let st = TextStyle { fg: color, ..self.active_text_style };
                    self.intern(st)
                },
                None => self.active_style,
            };
            self.type_text(run.text.as_str(), style, speed);
            i = i + 1;
        }
        proof {
            assert(rv.take(i as int) =~= rv);
        }
    }

    /// Shows the prompt at once: every segment in its own interned style.
    fn show_prompt(&mut self, prompt: &PromptConfig, palette: &Palette)
        requires
            old(self).wf(),
        ensures
            final(self).wf(),
            final(self).st() == prompt_spec(old(self).st(), prompt_spans(*prompt, *palette)),
    {
        let segs = prompt.spans(palette);
        let ghost sv = styled_view(segs@);
        let ghost st0 = self.st();
        let mut i: usize = 0;
        while i < segs.len()
            invariant
                i <= segs@.len() == sv.len(),
                sv == styled_view(segs@),
                sv == prompt_spans(*prompt, *palette),
                self.wf(),
                self.st() == prompt_spec(st0, sv.take(i as int)),
            decreases segs@.len() - i,
        {
            proof {
                assert(sv.take(i + 1).drop_last() =~= sv.take(i as int));
                assert(sv.take(i + 1).last() == sv[i as int]);
            }
            let id = self.intern(segs[i].1);
            self.type_text(segs[i].0.as_str(), id, Time::zero());
            i = i + 1;
        }
        proof {
            assert(sv.take(i as int) =~= sv);
        }
    }

    fn repeat(&mut self, op: &Op, count: u32, step: Time)
        ensures
            final(self).st() == repeat_spec(old(self).st(), op@, count as nat, step.0),
            final(self).styles == old(self).styles,
    {
        let ghost st0 = self.st();
        let ghost styles0 = self.styles;
        let mut i: u32 = 0;
        while i < count
            invariant
                i <= count,
                self.st() == repeat_spec(st0, op@, i as nat, step.0),
                self.styles == styles0,
            decreases count - i,
        {
            self.emit(op.duplicate());
            self.advance(step);
            i = i + 1;
        }
    }

    fn clear_rows(&mut self, rows: u16)
        ensures
            final(self).st() == clear_rows_spec(old(self).st(), rows as nat),
            final(self).styles == old(self).styles,
    {
        let ghost st0 = self.st();
        let ghost styles0 = self.styles;
        let mut row: u16 = 0;
        while row < rows
            invariant
                row <= rows,
                self.st() == clear_rows_spec(st0, row as nat),
                self.styles == styles0,
            decreases rows - row,
        {
            self.emit(Op::ClearRow { row });
            self.advance(Time::from_nanos(16_000_000));
            row = row + 1;
        }
    }

    fn action(&mut self, action: &Action, scenario: &Scenario, rows: u16, initial_style: StyleId, draws: &[u64])
        requires
            old(self).wf(),
            old(self).st().draws_used + action_requests(*action).len() <= draws@.len(),
        ensures
            final(self).wf(),
            final(self).st() == action_spec(
                old(self).st(),
                *action,
                env_of(*scenario, rows, initial_style, draws@),
            ),
    {
        match action {
            Action::Write { spans, speed } => self.write_spans(spans, *speed),
            Action::WriteLine { spans, speed } => {
                self.write_spans(spans, *speed);
                self.emit(Op::Newline);
            },
            Action::Command { text, speed, enter_delay } => {
                // The prompt appears at once; only the command is typed.
                self.show_prompt(&scenario.prompt, &scenario.palette);
                let st = TextStyle { fg: scenario.palette.command, ..self.active_text_style };
                let command_style = self.intern(st);
                self.type_text(text.as_str(), command_style, *speed);
                self.advance(*enter_delay);
                self.emit(Op::Newline);
            },
            Action::Pause { duration } => self.advance(*duration),
            Action::PauseRandom { min, max } => {
                let low = min.as_nanos();
                let high = if max.as_nanos() >= low {
                    max.as_nanos()
                } else {
                    low
                };
                if low == high {
                    self.advance(Time::from_nanos(low));
                } else {
                    let drawn = draws[self.draws_used];
                    self.advance(Time::from_nanos(drawn));
                    self.draws_used = self.draws_used + 1;
                }
            },
            Action::Newline { count } => self.repeat(&Op::Newline, *count, Time::zero()),
            Action::Clear { effect } => match effect {
                ClearEffect::Instant => self.emit(Op::Clear),
                ClearEffect::Terminal => self.clear_rows(rows),
            },
            Action::Backspace { count, speed } => self.repeat(&Op::Backspace, *count, *speed),
            Action::Cursor { visible, blink, duration } => {
                let blink = match blink {
                    Some(b) => Some(*b),
                    None => scenario.cursor.blink,
                };
                let end = self.clock.saturating_add(*duration);
                self.regions.push(
                    DynRegion {
                        start: self.clock,
                        end,
                        kind: RegionKind::Cursor { visible: *visible, blink },
                    },
                );
                self.clock = end;
            },
            Action::SetColor { foreground, background } => {
                let mut style = self.active_text_style;
                match foreground {
                    Some(fg) => {
                        style.fg = *fg;
                    },
                    None => {},
                }
                match background {
                    Some(bg) => {
                        style.bg = Some(*bg);
                    },
                    None => {},
                }
                self.active_text_style = style;
                let id = self.intern(style);
                self.active_style = id;
                self.emit(Op::SetStyle(id));
            },
            Action::ResetStyle => {
                self.active_style = initial_style;
                self.active_text_style = self.styles.get(initial_style);
                self.emit(Op::SetStyle(initial_style));
            },
        }
    }
}

/// Each of the first `requests.len()` draws lies in the inclusive range it was
/// drawn for.
pub open spec fn draws_fit(requests: Seq<(u64, u64)>, draws: Seq<u64>) -> bool {
    &&& requests.len() <= draws.len()
    &&& forall|k: int|
        0 <= k < requests.len() ==> requests[k].0 <= #[trigger] draws[k] <= requests[k].1
}

/// Compiles `scenario` for `grid`, the random pauses taking their values from
/// `draws` in order: one for each range `random_requests` lists, each within its
/// range.
pub fn compile_with_draws(scenario: &Scenario, grid: GridSpec, draws: &[u64]) -> (r: Result<Program, Diagnostic>)
    requires
        draws_fit(random_requests(scenario.timeline@), draws@),
    ensures
        result_view(r) == compile_spec(*scenario, grid, draws@),
{
    let mut styles = StyleTable::new();
    let base = TextStyle { fg: scenario.palette.foreground, ..TextStyle::default() };
    let initial_style = styles.intern(base);
    let mut ctx = Compiler {
        clock: Time::zero(),
        events: Vec::new(),
        regions: Vec::new(),
        styles,
        active_style: initial_style,
        active_text_style: base,
        draws_used: 0,
    };
    let ghost init = initial_state(scenario.palette);
    let ghost env = env_of(*scenario, grid.rows, initial_style, draws@);
    let ghost tl = scenario.timeline@;
    proof {
        assert(ctx.st().events =~= init.events);
        assert(ctx.st() == init);
        assert(tl.take(0) =~= Seq::<Action>::empty());
    }
    let mut i: usize = 0;
    while i < scenario.timeline.len()
        invariant
            i <= tl.len(),
            tl == scenario.timeline@,
            env == env_of(*scenario, grid.rows, initial_style, draws@),
            random_requests(tl).len() <= draws@.len(),
            ctx.wf(),
            ctx.st() == run_actions(init, tl.take(i as int), env),
            ctx.st().draws_used == random_requests(tl.take(i as int)).len(),
        decreases tl.len() - i,
    {
        proof {
            assert(tl.take(i + 1).drop_last() =~= tl.take(i as int));
            assert(tl.take(i + 1).last() == tl[i as int]);
            lemma_action_draws(ctx.st(), tl[i as int], env);
            lemma_requests_prefix(tl, i + 1, tl.len() as int);
            assert(tl.take(tl.len() as int) =~= tl);
        }
        ctx.action(&scenario.timeline[i], scenario, grid.rows, initial_style, draws);
        i = i + 1;
    }
    proof {
        assert(tl.take(i as int) =~= tl);
    }
    let ghost fin = ctx.st();
    let mut duration = ctx.clock;
    let mut k: usize = 0;
    while k < ctx.regions.len()
        invariant
            k <= ctx.regions@.len(),
            duration.0 == latest_end(fin.clock, ctx.regions@.take(k as int)),
            fin.regions == ctx.regions@,
            fin.clock == ctx.clock.0,
        decreases ctx.regions@.len() - k,
    {
        proof {
            assert(ctx.regions@.take(k + 1).drop_last() =~= ctx.regions@.take(k as int));
        }
        if ctx.regions[k].end.0 > duration.0 {
            duration = ctx.regions[k].end;
        }
        k = k + 1;
    }
    proof {
        assert(ctx.regions@.take(k as int) =~= ctx.regions@);
    }
    if scenario.playback.looping {
        duration = duration.saturating_add(scenario.playback.loop_delay);
    }
    let program = Program {
        events: ctx.events,
        regions: ctx.regions,
        duration,
        grid,
        overflow: scenario.terminal.overflow,
        styles: ctx.styles,
        initial_style,
        cursor: scenario.cursor,
    };
    proof {
        assert(program@ == program_spec(*scenario, grid, draws@));
    }
    if scenario.terminal.overflow == Overflow::Error {
        match check_no_overflow(&program) {
            Ok(()) => {},
            Err(d) => {
                return Err(d);
            },
        }
    }
    Ok(program)
}

/// The values a generator seeded by `seed` draws for the random pauses of
/// `actions`, in order.
pub open spec fn scenario_draws(seed: u64, actions: Seq<Action>) -> Seq<u64> {
    seeded_draws(seed, random_requests(actions))
}

/// Compiles a scenario for a grid. The random pauses draw from a ChaCha8
/// generator seeded by the scenario's seed, so the same scenario always compiles
/// to the same program.
pub fn compile(scenario: &Scenario, grid: GridSpec) -> (r: Result<Program, Diagnostic>)
    ensures
        result_view(r) == compile_spec(
            *scenario,
            grid,
            scenario_draws(scenario.seed, scenario.timeline@),
        ),
        draws_fit(
            random_requests(scenario.timeline@),
            scenario_draws(scenario.seed, scenario.timeline@),
        ),
{
    let mut rng = SeededRng::seeded(scenario.seed);
    let mut draws: Vec<u64> = Vec::new();
    let ghost tl = scenario.timeline@;
    proof {
        assert(tl.take(0) =~= Seq::<Action>::empty());
    }
    let mut i: usize = 0;
    while i < scenario.timeline.len()
        invariant
            i <= tl.len(),
            tl == scenario.timeline@,
            rng.seed() == scenario.seed,
            rng.history() == random_requests(tl.take(i as int)),
            draws@ == seeded_draws(scenario.seed, rng.history()),
            draws_fit(rng.history(), draws@),
        decreases tl.len() - i,
    {
        proof {
            assert(tl.take(i + 1).drop_last() =~= tl.take(i as int));
            assert(tl.take(i + 1).last() == tl[i as int]);
        }
        match &scenario.timeline[i] {
            Action::PauseRandom { min, max } => {
                let low = min.as_nanos();
                let high = if max.as_nanos() >= low {
                    max.as_nanos()
                } else {
                    low
                };
                if low != high {
                    let ghost h0 = rng.history();
                    let v = rng.draw(low, high);
                    draws.push(v);
                    proof {
                        let h1 = h0.push((low, high));
                        assert forall|k: int| 0 <= k < h0.len() implies #[trigger] h1.take(k + 1)
                            == h0.take(k + 1) by {
                            assert(h1.take(k + 1) =~= h0.take(k + 1));
                        }
                        assert(h1.take(h1.len() as int) =~= h1);
                        assert(draws@ =~= seeded_draws(scenario.seed, h1));
                        assert(random_requests(tl.take(i + 1)) =~= h1);
                    }
                } else {
                    proof {
                        assert(random_requests(tl.take(i + 1)) =~= rng.history());
                    }
                }
            },
            _ => {
                proof {
                    assert(random_requests(tl.take(i + 1)) =~= rng.history());
                }
            },
        }
        i = i + 1;
    }
    proof {
        assert(tl.take(i as int) =~= tl);
    }
    compile_with_draws(scenario, grid, draws.as_slice())
}

} // verus!
