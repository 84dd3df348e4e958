//! The compiled form of a scenario: timestamped terminal operations plus
//! time-driven regions, and the one function that applies an operation.
use crate::config::{CursorConfig, GridSpec};
use crate::grid::{reset_row, GridView, Overflow};
use crate::style::{StyleId, StyleTable, TextStyle};
use crate::terminal::{
    backspace_spec, clear_spec, newline_spec, put_grapheme_spec, with_lines, TermView,
    TerminalState,
};
use crate::text::{append_decimal, decimal};
use crate::time::Time;
use vstd::prelude::*;

verus! {

/// A state mutation applied at an instant. Replaying every op with `at <= t`
/// reconstructs the grid exactly.
#[derive(Debug, Clone, PartialEq, Eq)]
pub enum Op {
    PutGrapheme { g: String, style: StyleId },
    Newline,
    Backspace,
    Clear,
    ClearRow { row: u16 },
    SetStyle(StyleId),
}

/// An operation as a value.
pub enum OpView {
    PutGrapheme { g: Seq<char>, style: StyleId },
    Newline,
    Backspace,
    Clear,
    ClearRow { row: u16 },
    SetStyle(StyleId),
}

impl View for Op {
    type V = OpView;

    open spec fn view(&self) -> OpView {
        match self {
            Op::PutGrapheme { g, style } => OpView::PutGrapheme { g: g@, style: *style },
            Op::Newline => OpView::Newline,
            Op::Backspace => OpView::Backspace,
            Op::Clear => OpView::Clear,
            Op::ClearRow { row } => OpView::ClearRow { row: *row },
            Op::SetStyle(id) => OpView::SetStyle(*id),
        }
    }
}

/// How `Debug` renders a string: quoted, with `"`, `\` and control characters
/// escaped.
pub uninterp spec fn debug_str(s: Seq<char>) -> Seq<char>;

/// `format!("{:?}", s)` on a `&str` (std's `Debug for str`). Claimed: the text is a
/// function of `s` alone, named `debug_str`; nothing further is stated of it.
#[verifier::external_body]
fn debug_quoted(s: &str) -> (r: String)
    ensures
        r@ == debug_str(s@),
{
    format!("{:?}", s)
}

/// One-line rendering used by `inspect` and by compiler listings.
pub open spec fn describe_spec(op: OpView) -> Seq<char> {
    match op {
        OpView::PutGrapheme { g, .. } => "type "@ + debug_str(g),
        OpView::Newline => "newline"@,
        OpView::Backspace => "backspace"@,
        OpView::Clear => "clear"@,
        OpView::ClearRow { row } => "clear row "@ + decimal(row as nat),
        OpView::SetStyle(id) => "style #"@ + decimal(id.0 as nat),
    }
}

impl Op {
    /// One-line rendering used by `inspect` and by compiler listings.
    pub fn describe(&self) -> (s: String)
        ensures
            s@ == describe_spec(self@),
    {
        proof {
            reveal_strlit("type ");
            reveal_strlit("newline");
            reveal_strlit("backspace");
            reveal_strlit("clear");
            reveal_strlit("clear row ");
            reveal_strlit("style #");
        }
        match self {
            Op::PutGrapheme { g, .. } => {
                let mut s = String::from_str("type ");
                let q = debug_quoted(g.as_str());
                s.append(q.as_str());
                s
            },
            Op::Newline => String::from_str("newline"),
            Op::Backspace => String::from_str("backspace"),
            Op::Clear => String::from_str("clear"),
            Op::ClearRow { row } => {
                let mut s = String::from_str("clear row ");
                append_decimal(&mut s, *row as u64);
                s
            },
            Op::SetStyle(id) => {
                let mut s = String::from_str("style #");
                append_decimal(&mut s, id.0 as u64);
                s
            },
        }
    }

    /// A copy with the same contents.
    pub fn duplicate(&self) -> (o: Op)
        ensures
            o@ == self@,
    {
        match self {
            Op::PutGrapheme { g, style } => Op::PutGrapheme { g: g.clone(), style: *style },
            Op::Newline => Op::Newline,
            Op::Backspace => Op::Backspace,
            Op::Clear => Op::Clear,
            Op::ClearRow { row } => Op::ClearRow { row: *row },
            Op::SetStyle(id) => Op::SetStyle(*id),
        }
    }
}

#[derive(Debug, Clone, PartialEq, Eq)]
pub struct Event {
    pub at: Time,
    pub op: Op,
}

pub struct EventView {
    pub at: u64,
    pub op: OpView,
}

impl View for Event {
    type V = EventView;

    open spec fn view(&self) -> EventView {
        EventView { at: self.at.0, op: self.op@ }
    }
}

/// Width of the timestamp column of a timeline listing.
pub const TIMESTAMP_COLUMN_WIDTH: usize = 8;

/// `s` followed by spaces up to `width` characters (nothing added when it is
/// already that long).
pub open spec fn padded_right(s: Seq<char>, width: nat) -> Seq<char> {
    if s.len() < width {
        s + Seq::new((width - s.len()) as nat, |i: int| ' ')
    } else {
        s
    }
}

/// One line of a timeline listing: the event's time in whole milliseconds
/// (`120ms`) left-aligned in the timestamp column, a space, then the operation.
pub open spec fn listing_line_spec(e: EventView) -> Seq<char> {
    padded_right(decimal((e.at / 1_000_000) as nat) + "ms"@, TIMESTAMP_COLUMN_WIDTH as nat) + " "@
        + describe_spec(e.op)
}

/// Renders one event as a line of the timeline listing that `inspect` prints.
pub fn listing_line(event: &Event) -> (s: String)
    ensures
        s@ == listing_line_spec(event@),
{
    proof {
        reveal_strlit("ms");
        reveal_strlit(" ");
    }
    let mut s = String::new();
    append_decimal(&mut s, event.at.as_millis());
    s.append("ms");
    let ghost stamp = s@;
    proof {
        assert(stamp =~= decimal((event@.at / 1_000_000) as nat) + "ms"@);
    }
    let n = crate::text::str_chars(s.as_str()).len();
    let mut k: usize = n;
    while k < TIMESTAMP_COLUMN_WIDTH
        invariant
            n <= k,
            k <= TIMESTAMP_COLUMN_WIDTH || k == n,
            n == stamp.len(),
            s@ =~= stamp + Seq::new((k - n) as nat, |i: int| ' '),
        decreases TIMESTAMP_COLUMN_WIDTH - k,
    {
        proof {
            reveal_strlit(" ");
        }
        s.append(" ");
        k = k + 1;
        proof {
            assert(s@ =~= stamp + Seq::new((k - n) as nat, |i: int| ' '));
        }
    }
    proof {
        assert(s@ =~= padded_right(stamp, TIMESTAMP_COLUMN_WIDTH as nat));
    }
    s.append(" ");
    let d = event.op.describe();
    s.append(d.as_str());
    s
}

pub open spec fn events_view(es: Seq<Event>) -> Seq<EventView> {
    Seq::new(es.len(), |i: int| es[i]@)
}

/// Content that is a pure function of time rather than a state mutation.
#[derive(Debug, Clone, Copy, PartialEq, Eq, Structural)]
pub struct DynRegion {
    pub start: Time,
    pub end: Time,
    pub kind: RegionKind,
}

#[derive(Debug, Clone, Copy, PartialEq, Eq, Structural)]
pub enum RegionKind {
    Cursor { visible: bool, blink: Option<Time> },
}

#[derive(Debug, Clone, PartialEq, Eq)]
pub struct Program {
    pub events: Vec<Event>,
    pub regions: Vec<DynRegion>,
    pub duration: Time,
    pub grid: GridSpec,
    pub overflow: Overflow,
    pub styles: StyleTable,
    pub initial_style: StyleId,
    pub cursor: CursorConfig,
}

/// A program as a value.
pub struct ProgramView {
    pub events: Seq<EventView>,
    pub regions: Seq<DynRegion>,
    pub duration: u64,
    pub grid: GridSpec,
    pub overflow: Overflow,
    pub styles: Seq<TextStyle>,
    pub initial_style: StyleId,
    pub cursor: CursorConfig,
}

impl View for Program {
    type V = ProgramView;

    open spec fn view(&self) -> ProgramView {
        ProgramView {
            events: events_view(self.events@),
            regions: self.regions@,
            duration: self.duration.0,
            grid: self.grid,
            overflow: self.overflow,
            styles: self.styles@,
            initial_style: self.initial_style,
            cursor: self.cursor,
        }
    }
}

/// What applying `op` does to the terminal.
pub open spec fn apply_op_spec(s: TermView, op: OpView) -> TermView {
    match op {
        OpView::PutGrapheme { g, style } => put_grapheme_spec(
            TermView { current_style: style, ..s },
            g,
        ),
        OpView::Newline => newline_spec(s),
        OpView::Backspace => backspace_spec(s),
        OpView::Clear => clear_spec(s),
        OpView::ClearRow { row } => if (row as int) < s.grid.lines.len() {
            with_lines(s, s.grid.lines.update(row as int, reset_row(s.grid.lines[row as int])))
        } else {
            s
        },
        OpView::SetStyle(style) => TermView { current_style: style, ..s },
    }
}

/// The terminal after applying the first `n` events in order.
pub open spec fn replay(s: TermView, events: Seq<EventView>, n: int) -> TermView
    decreases n,
{
    if n <= 0 || n > events.len() {
        s
    } else {
        apply_op_spec(replay(s, events, n - 1), events[n - 1].op)
    }
}

/// Each operation scrolls at most once and never unscrolls.
pub proof fn lemma_apply_scrolled(s: TermView, op: OpView)
    ensures
        s.scrolled <= apply_op_spec(s, op).scrolled <= s.scrolled + 1,
{
}

/// After `n` operations the scroll count has grown by at most `n`, never shrunk.
pub proof fn lemma_replay_scrolled(s: TermView, events: Seq<EventView>, n: int)
    requires
        0 <= n <= events.len(),
    ensures
        s.scrolled <= replay(s, events, n).scrolled <= s.scrolled + n,
    decreases n,
{
    if n > 0 {
        lemma_replay_scrolled(s, events, n - 1);
        lemma_apply_scrolled(replay(s, events, n - 1), events[n - 1].op);
    }
}

/// Scroll counts never go down as more events are replayed.
pub proof fn lemma_replay_scrolled_monotone(s: TermView, events: Seq<EventView>, m: int, n: int)
    requires
        0 <= m <= n <= events.len(),
    ensures
        replay(s, events, m).scrolled <= replay(s, events, n).scrolled,
    decreases n - m,
{
    if m < n {
        lemma_replay_scrolled_monotone(s, events, m, n - 1);
        lemma_apply_scrolled(replay(s, events, n - 1), events[n - 1].op);
    }
}

/// Applies one op to a terminal state. Shared by the compiler's overflow check and
/// by the runtime, so the two can never diverge.
pub fn apply_op(state: &mut TerminalState, op: &Op)
    requires
        old(state).wf(),
        old(state).scrolled < u64::MAX,
    ensures
        final(state).wf(),
        final(state)@ == apply_op_spec(old(state)@, op@),
{
    match op {
        Op::PutGrapheme { g, style } => {
            state.set_style(*style);
            state.put_grapheme(g.as_str());
        },
        Op::Newline => state.newline(),
        Op::Backspace => state.backspace(),
        Op::Clear => state.clear(),
        Op::ClearRow { row } => {
            let ghost s0 = state@;
            match state.grid.row_mut(*row) {
                Some(target) => {
                    target.reset();
                },
                None => {},
            }
            proof {
                assert(state@.grid.lines =~= apply_op_spec(s0, op@).grid.lines);
            }
        },
        Op::SetStyle(style) => state.set_style(*style),
    }
}

} // verus!
