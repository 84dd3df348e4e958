use termotion::codes;
use termotion::color::Color;
use termotion::compile::{compile, compile_with_draws};
use termotion::config::{
    CanvasConfig, CursorConfig, FontConfig, GridSpec, Palette, PlaybackConfig, PromptConfig,
    TerminalConfig,
};
use termotion::grid::Overflow;
use termotion::program::{listing_line, Op, Program};
use termotion::runtime::Runtime;
use termotion::scenario::{Action, ClearEffect, Metadata, Scenario, TextRun};
use termotion::terminal::TerminalState;
use termotion::time::{Fps, Time};

fn grid() -> GridSpec {
    GridSpec { cols: 40, rows: 10 }
}

fn scenario(timeline: Vec<Action>) -> Scenario {
    Scenario {
        metadata: Metadata::default(),
        canvas: CanvasConfig::default(),
        terminal: TerminalConfig::default(),
        font: FontConfig::default(),
        prompt: PromptConfig::default(),
        cursor: CursorConfig::default(),
        palette: Palette::default(),
        playback: PlaybackConfig::default(),
        seed: 0,
        timeline,
    }
}

fn run(text: &str) -> Vec<TextRun> {
    vec![TextRun { text: text.to_string(), color: None }]
}

fn listing(program: &Program) -> String {
    program
        .events
        .iter()
        .map(|event| format!("{:>6} {}", event.at.as_millis(), event.op.describe()))
        .collect::<Vec<_>>()
        .join("\n")
}

#[test]
fn typing_emits_one_event_per_grapheme_at_the_configured_speed() {
    let program = compile(
        &scenario(vec![Action::Write { spans: run("zom"), speed: Time::from_millis(45) }]),
        grid(),
    )
    .unwrap();
    assert_eq!(listing(&program), "     0 type \"z\"\n    45 type \"o\"\n    90 type \"m\"");
    assert_eq!(program.duration, Time::from_millis(135));
}

#[test]
fn zero_speed_types_the_whole_string_instantly() {
    let program =
        compile(&scenario(vec![Action::Write { spans: run("abc"), speed: Time::zero() }]), grid())
            .unwrap();
    assert!(program.events.iter().all(|e| e.at == Time::zero()));
    assert_eq!(program.duration, Time::zero());
}

#[test]
fn grapheme_clusters_are_never_split() {
    let program = compile(
        &scenario(vec![Action::Write { spans: run("e\u{0301}!"), speed: Time::from_millis(10) }]),
        grid(),
    )
    .unwrap();
    assert_eq!(program.events.len(), 2);
}

#[test]
fn write_line_appends_a_newline_without_advancing_the_clock() {
    let program = compile(
        &scenario(vec![Action::WriteLine { spans: run("ab"), speed: Time::from_millis(10) }]),
        grid(),
    )
    .unwrap();
    assert_eq!(listing(&program), "     0 type \"a\"\n    10 type \"b\"\n    20 newline");
    assert_eq!(program.duration, Time::from_millis(20));
}

#[test]
fn pause_advances_the_clock_and_emits_nothing() {
    let program = compile(
        &scenario(vec![
            Action::Write { spans: run("a"), speed: Time::from_millis(10) },
            Action::Pause { duration: Time::from_millis(500) },
            Action::Write { spans: run("b"), speed: Time::from_millis(10) },
        ]),
        grid(),
    )
    .unwrap();
    assert_eq!(listing(&program), "     0 type \"a\"\n   510 type \"b\"");
}

#[test]
fn command_renders_the_prompt_instantly_then_types_then_presses_enter() {
    let mut scenario = scenario(vec![Action::Command {
        text: "./brb".to_string(),
        speed: Time::from_millis(45),
        enter_delay: Time::from_millis(250),
    }]);
    scenario.prompt.user = "zc".into();
    scenario.prompt.host = "tw".into();
    scenario.prompt.path = "~".into();
    scenario.prompt.symbol = "$".into();
    let program = compile(&scenario, grid()).unwrap();
    let at_zero = program.events.iter().filter(|e| e.at == Time::zero()).count();
    assert_eq!(at_zero, 10);
    let last = program.events.last().unwrap();
    assert_eq!(last.op.describe(), "newline");
    assert_eq!(last.at, Time::from_millis(475));
    assert_eq!(program.duration, Time::from_millis(475));
}

#[test]
fn newline_count_emits_that_many_newlines_instantly() {
    let program = compile(&scenario(vec![Action::Newline { count: 3 }]), grid()).unwrap();
    assert_eq!(program.events.len(), 3);
    assert!(program.events.iter().all(|e| e.at == Time::zero()));
}

#[test]
fn backspace_repeats_at_the_configured_speed() {
    let program = compile(
        &scenario(vec![Action::Backspace { count: 3, speed: Time::from_millis(40) }]),
        grid(),
    )
    .unwrap();
    assert_eq!(listing(&program), "     0 backspace\n    40 backspace\n    80 backspace");
    assert_eq!(program.duration, Time::from_millis(120));
}

#[test]
fn instant_clear_is_one_event() {
    let program =
        compile(&scenario(vec![Action::Clear { effect: ClearEffect::Instant }]), grid()).unwrap();
    assert_eq!(program.events.len(), 1);
    assert_eq!(program.events[0].op.describe(), "clear");
}

#[test]
fn terminal_clear_wipes_one_row_at_a_time() {
    let program =
        compile(&scenario(vec![Action::Clear { effect: ClearEffect::Terminal }]), grid()).unwrap();
    assert_eq!(program.events.len(), 10);
    assert_eq!(program.events[1].at, Time::from_millis(16));
    assert_eq!(program.events[1].op.describe(), "clear row 1");
    assert_eq!(program.duration, Time::from_millis(160));
}

fn put_styles(program: &Program) -> Vec<termotion::style::StyleId> {
    program
        .events
        .iter()
        .filter_map(|e| match &e.op {
            Op::PutGrapheme { style, .. } => Some(*style),
            _ => None,
        })
        .collect()
}

#[test]
fn set_color_and_reset_style_change_the_active_style() {
    let program = compile(
        &scenario(vec![
            Action::SetColor { foreground: Some(Color::rgb(255, 0, 0)), background: None },
            Action::Write { spans: run("x"), speed: Time::zero() },
            Action::ResetStyle,
            Action::Write { spans: run("y"), speed: Time::zero() },
        ]),
        grid(),
    )
    .unwrap();
    let styles = put_styles(&program);
    assert_ne!(styles[0], styles[1]);
    assert_eq!(program.styles.get(styles[0]).fg, Color::rgb(255, 0, 0));
}

#[test]
fn spans_carry_their_own_colors_without_disturbing_the_active_style() {
    let program = compile(
        &scenario(vec![Action::Write {
            spans: vec![
                TextRun { text: "a".into(), color: Some(Color::rgb(1, 2, 3)) },
                TextRun { text: "b".into(), color: None },
            ],
            speed: Time::zero(),
        }]),
        grid(),
    )
    .unwrap();
    let styles = put_styles(&program);
    assert_eq!(program.styles.get(styles[0]).fg, Color::rgb(1, 2, 3));
    assert_eq!(styles[1], program.initial_style);
}

fn random_pause() -> Vec<Action> {
    vec![Action::PauseRandom { min: Time::from_millis(300), max: Time::from_millis(600) }]
}

#[test]
fn pause_random_is_reproducible_for_a_given_seed() {
    let mut a = scenario(random_pause());
    a.seed = 12345;
    let mut b = scenario(random_pause());
    b.seed = 12345;
    let first = compile(&a, grid()).unwrap().duration;
    let second = compile(&b, grid()).unwrap().duration;
    assert_eq!(first, second);
    assert!(first >= Time::from_millis(300) && first <= Time::from_millis(600));
}

#[test]
fn different_seeds_produce_different_random_pauses() {
    let mut a = scenario(random_pause());
    a.seed = 1;
    let mut b = scenario(random_pause());
    b.seed = 2;
    assert_ne!(compile(&a, grid()).unwrap().duration, compile(&b, grid()).unwrap().duration);
}

#[test]
fn a_random_pause_lasts_exactly_the_drawn_milliseconds() {
    let program = compile_with_draws(&scenario(random_pause()), grid(), &[420_000_000]).unwrap();
    assert_eq!(program.duration, Time::from_millis(420));
}

#[test]
fn loop_delay_extends_the_duration_only_when_looping() {
    let mut looping = scenario(vec![Action::Pause { duration: Time::from_millis(100) }]);
    looping.playback.looping = true;
    looping.playback.loop_delay = Time::from_millis(1_000);
    assert_eq!(compile(&looping, grid()).unwrap().duration, Time::from_millis(1_100));
    let mut once = looping.clone();
    once.playback.looping = false;
    assert_eq!(compile(&once, grid()).unwrap().duration, Time::from_millis(100));
}

#[test]
fn overflow_error_mode_rejects_a_scenario_that_would_scroll() {
    let mut scenario = scenario(vec![Action::Newline { count: 20 }]);
    scenario.terminal.overflow = Overflow::Error;
    let err = compile(&scenario, GridSpec { cols: 40, rows: 3 }).unwrap_err();
    assert_eq!(err.code, codes::OVERFLOW_ERROR_MODE);
}

#[test]
fn overflow_scroll_mode_accepts_the_same_scenario() {
    let mut scenario = scenario(vec![Action::Newline { count: 20 }]);
    scenario.terminal.overflow = Overflow::Scroll;
    assert!(compile(&scenario, GridSpec { cols: 40, rows: 3 }).is_ok());
}

fn runtime(timeline: Vec<Action>) -> Runtime {
    let program = compile(&scenario(timeline), GridSpec { cols: 40, rows: 8 }).unwrap();
    Runtime::new(program)
}

fn typed(text: &str, speed_ms: u64) -> Vec<Action> {
    vec![Action::Write { spans: run(text), speed: Time::from_millis(speed_ms) }]
}

fn row_text(state: &TerminalState, row: u16) -> String {
    state
        .grid
        .row(row)
        .map(|r| r.cells.iter().map(|c| c.g.as_str()).collect::<String>())
        .unwrap_or_default()
        .trim_end()
        .to_string()
}

#[test]
fn reveals_characters_progressively() {
    let mut rt = runtime(typed("hello", 100));
    assert_eq!(row_text(rt.state_at(Time::from_millis(0)), 0), "h");
    assert_eq!(row_text(rt.state_at(Time::from_millis(250)), 0), "hel");
    assert_eq!(row_text(rt.state_at(Time::from_millis(1_000)), 0), "hello");
}

#[test]
fn state_before_the_first_event_is_empty() {
    let mut rt = runtime(vec![
        Action::Pause { duration: Time::from_millis(500) },
        Action::Write { spans: run("x"), speed: Time::zero() },
    ]);
    assert_eq!(row_text(rt.state_at(Time::from_millis(499)), 0), "");
    assert_eq!(row_text(rt.state_at(Time::from_millis(500)), 0), "x");
}

#[test]
fn backward_seek_matches_a_fresh_forward_replay() {
    let actions = typed("abcdefghij", 100);
    let mut seeking = runtime(actions.clone());
    seeking.state_at(Time::from_millis(1_000));
    for ms in [900, 700, 350, 120, 0] {
        let seeking_text = row_text(seeking.state_at(Time::from_millis(ms)), 0);
        let mut fresh = runtime(actions.clone());
        let fresh_text = row_text(fresh.state_at(Time::from_millis(ms)), 0);
        assert_eq!(seeking_text, fresh_text, "mismatch at {ms}ms");
    }
}

#[test]
fn repeated_queries_at_the_same_time_are_stable() {
    let mut rt = runtime(typed("abc", 100));
    let first = row_text(rt.state_at(Time::from_millis(150)), 0);
    let second = row_text(rt.state_at(Time::from_millis(150)), 0);
    assert_eq!(first, second);
}

#[test]
fn snapshots_are_taken_across_a_long_scenario() {
    let mut rt = runtime(vec![
        Action::Pause { duration: Time::from_millis(10_000) },
        Action::Write { spans: run("end"), speed: Time::zero() },
    ]);
    rt.state_at(Time::from_millis(10_000));
    assert!(rt.snapshot_count() >= 4, "expected snapshots every 2s");
}

#[test]
fn seeking_past_a_clear_does_not_resurrect_cleared_text() {
    let mut rt = runtime(vec![
        Action::Write { spans: run("before"), speed: Time::zero() },
        Action::Pause { duration: Time::from_millis(500) },
        Action::Clear { effect: ClearEffect::Instant },
    ]);
    rt.state_at(Time::from_millis(1_000));
    assert_eq!(row_text(rt.state_at(Time::from_millis(100)), 0), "before");
    assert_eq!(row_text(rt.state_at(Time::from_millis(600)), 0), "");
}

#[test]
fn cursor_blinks_as_a_function_of_time() {
    let mut rt = runtime(vec![Action::Cursor {
        visible: true,
        blink: Some(Time::from_millis(500)),
        duration: Time::from_millis(4_000),
    }]);
    assert!(rt.state_at(Time::from_millis(0)).cursor.visible);
    assert!(!rt.state_at(Time::from_millis(500)).cursor.visible);
    assert!(rt.state_at(Time::from_millis(1_000)).cursor.visible);
    assert!(!rt.state_at(Time::from_millis(1_999)).cursor.visible);
}

#[test]
fn a_zero_blink_period_means_a_steady_cursor() {
    let mut rt = runtime(vec![Action::Cursor {
        visible: true,
        blink: None,
        duration: Time::from_millis(1_000),
    }]);
    let mut scenario_no_blink = scenario(vec![]);
    scenario_no_blink.cursor.blink = None;
    let program = compile(&scenario_no_blink, GridSpec { cols: 10, rows: 4 }).unwrap();
    let mut steady = Runtime::new(program);
    assert!(steady.state_at(Time::from_millis(0)).cursor.visible);
    assert!(steady.state_at(Time::from_millis(750)).cursor.visible);
    let _ = rt.state_at(Time::zero());
}

#[test]
fn a_cursor_action_can_hide_the_cursor_for_its_span() {
    let mut rt = runtime(vec![Action::Cursor {
        visible: false,
        blink: None,
        duration: Time::from_millis(1_000),
    }]);
    assert!(!rt.state_at(Time::from_millis(500)).cursor.visible);
}

#[test]
fn the_cursor_follows_typed_text() {
    let mut rt = runtime(typed("abc", 100));
    let state = rt.state_at(Time::from_millis(1_000));
    assert_eq!((state.cursor.row, state.cursor.col), (0, 3));
}

#[test]
fn frame_count_covers_the_full_duration() {
    let rt = runtime(typed("abcde", 200));
    assert_eq!(rt.duration(), Time::from_millis(1_000));
    assert_eq!(rt.frame_count(Fps::from_integer(30)), 30);
}

#[test]
fn backward_seek_after_a_multi_boundary_forward_jump_matches_fresh_replay() {
    let w = |t: &str| Action::Write { spans: run(t), speed: Time::from_millis(0) };
    let p = |ms: u64| Action::Pause { duration: Time::from_millis(ms) };
    let actions = vec![
        w("AAA"),
        p(1_900),
        w("BBB"),
        p(200),
        w("CCC"),
        p(1_800),
        w("DDD"),
        p(200),
        w("EEE"),
        p(2_500),
    ];
    let mut seeking = runtime(actions.clone());
    assert!(seeking.duration() > Time::from_millis(6_000), "scenario must run past 6s");
    let dur = seeking.duration();
    seeking.state_at(dur);
    assert!(seeking.snapshot_count() >= 3, "expected snapshots at 2s, 4s, 6s");
    for ms in [1_950u64, 3_950, 5_950] {
        seeking.state_at(dur);
        let mut fresh = runtime(actions.clone());
        let expected = fresh.state_at(Time::from_millis(ms)).clone();
        let actual = seeking.state_at(Time::from_millis(ms)).clone();
        assert_eq!(actual, expected, "mismatch at {ms}ms");
    }
}

fn brb() -> Scenario {
    let mut s = scenario(vec![
        Action::Command {
            text: "./brb".into(),
            speed: Time::from_millis(45),
            enter_delay: Time::from_millis(250),
        },
        Action::Pause { duration: Time::from_millis(500) },
        Action::WriteLine { spans: run("Session suspended."), speed: Time::from_millis(35) },
        Action::PauseRandom { min: Time::from_millis(300), max: Time::from_millis(600) },
        Action::Cursor {
            visible: true,
            blink: Some(Time::from_millis(500)),
            duration: Time::from_millis(3_000),
        },
    ]);
    s.seed = 42;
    s
}

fn dump(order: &[u64]) -> Vec<String> {
    let program = compile(&brb(), GridSpec { cols: 70, rows: 15 }).unwrap();
    let mut runtime = Runtime::new(program);
    let mut results = vec![String::new(); order.len()];
    for (slot, frame) in order.iter().enumerate() {
        let t = Fps::from_integer(30).frame_time(*frame);
        let state = runtime.state_at(t);
        let text: String = state
            .grid
            .iter_rows()
            .map(|row| row.cells.iter().map(|c| c.g.as_str()).collect::<String>())
            .collect::<Vec<_>>()
            .join("\n");
        results[slot] = format!("{}|{}", text, state.cursor.visible);
    }
    results
}

#[test]
fn frame_state_is_independent_of_access_order() {
    let frames: Vec<u64> = (0..90).collect();
    let sequential = dump(&frames);
    let mut shuffled = frames.clone();
    shuffled.reverse();
    let reversed = dump(&shuffled);
    for (i, frame) in shuffled.iter().enumerate() {
        let expected = &sequential[*frame as usize];
        assert_eq!(&reversed[i], expected, "frame {frame} differs by access order");
    }
}

#[test]
fn two_compiles_of_the_same_scenario_are_identical() {
    let a = compile(&brb(), GridSpec { cols: 70, rows: 15 }).unwrap();
    let b = compile(&brb(), GridSpec { cols: 70, rows: 15 }).unwrap();
    assert_eq!(a.events, b.events);
    assert_eq!(a.duration, b.duration);
}

#[test]
fn the_listing_prints_timestamped_events() {
    let program = compile(
        &scenario(vec![Action::Write { spans: run("zom"), speed: Time::from_millis(45) }]),
        grid(),
    )
    .unwrap();
    let lines: Vec<String> = program.events.iter().map(listing_line).collect();
    assert_eq!(lines, vec!["0ms      type \"z\"", "45ms     type \"o\"", "90ms     type \"m\""]);
}
