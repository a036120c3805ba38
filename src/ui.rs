//! What the dictation popup shows: the look of each state, the preview
//! line, the countdown to the end of the turn and the level bar. Drawing is
//! left to the caller.

use vstd::prelude::*;
use crate::config::DONE_TIMEOUT_MS;
use crate::session::{elapsed, State};
use crate::text::chars_of;

verus! {

/// Width of the level bar at full deflection, in pixels.
pub const LEVEL_BAR_WIDTH: u32 = 280;

/// Level that fills the bar: 0.15 of full scale.
pub const LEVEL_FULL: u32 = 150_000;

/// Longest preview shown whole, in characters.
pub const PREVIEW_MAX: usize = 100;

/// Style of the status dot.
#[derive(Clone, Copy, Debug, PartialEq, Eq, Structural)]
pub enum Dot {
    Loading,
    Recording,
    Done,
}

/// How the popup looks in one state.
pub struct StateView {
    pub dot: Dot,
    pub glyph: &'static str,
    pub status: &'static str,
    pub level_visible: bool,
    pub stop_visible: bool,
    pub hint_visible: bool,
    /// The result or error text, for the final states.
    pub info: Option<String>,
    /// Whether the info line is styled as an error.
    pub info_is_error: bool,
}

/// How the popup looks in `state`; `text` is the result or error message.
pub fn state_view(state: State, note_mode: bool, text: Option<&str>) -> (r: StateView)
    ensures
        r.dot == (match state {
            State::Loading | State::Transcribing => Dot::Loading,
            State::Listening => Dot::Recording,
            State::Result | State::Error => Dot::Done,
        }),
        r.level_visible == (state == State::Listening),
        r.stop_visible == (state == State::Listening || state == State::Transcribing),
        r.hint_visible == (state == State::Listening),
        r.info_is_error == (state == State::Error),
        r.status@ == match state {
            State::Loading => "Loading model..."@,
            State::Listening => if note_mode {
                "Private note..."@
            } else {
                "Listening..."@
            },
            State::Transcribing => "Transcribing..."@,
            State::Result => "Done"@,
            State::Error => "Error"@,
        },
        r.glyph@ == match state {
            State::Result => "\u{2713}"@,
            State::Error => "\u{2717}"@,
            _ => "\u{25cf}"@,
        },
        state == State::Result ==> (r.info matches Some(i) && i@ == match text {
            Some(t) => t@,
            None => Seq::empty(),
        }),
        state == State::Error ==> (r.info matches Some(i) && i@ == match text {
            Some(t) => t@,
            None => "Unknown error"@,
        }),
        (state == State::Loading || state == State::Listening || state == State::Transcribing)
            ==> r.info is None,
{
    match state {
        State::Loading => StateView {
            dot: Dot::Loading,
            glyph: "\u{25cf}",
            status: "Loading model...",
            level_visible: false,
            stop_visible: false,
            hint_visible: false,
            info: None,
            info_is_error: false,
        },
        State::Listening => StateView {
            dot: Dot::Recording,
            glyph: "\u{25cf}",
            status: if note_mode {
                "Private note..."
            } else {
                "Listening..."
            },
            level_visible: true,
            stop_visible: true,
            hint_visible: true,
            info: None,
            info_is_error: false,
        },
        State::Transcribing => StateView {
            dot: Dot::Loading,
            glyph: "\u{25cf}",
            status: "Transcribing...",
            level_visible: false,
            stop_visible: true,
            hint_visible: false,
            info: None,
            info_is_error: false,
        },
        State::Result => StateView {
            dot: Dot::Done,
            glyph: "\u{2713}",
            status: "Done",
            level_visible: false,
            stop_visible: false,
            hint_visible: false,
            info: Some(
                match text {
                    Some(t) => String::from_str(t),
                    None => String::new(),
                },
            ),
            info_is_error: false,
        },
        State::Error => StateView {
            dot: Dot::Done,
            glyph: "\u{2717}",
            status: "Error",
            level_visible: false,
            stop_visible: false,
            hint_visible: false,
            info: Some(
                match text {
                    Some(t) => String::from_str(t),
                    None => String::from_str("Unknown error"),
                },
            ),
            info_is_error: true,
        },
    }
}

/// The preview line: short text whole, long text as an ellipsis followed by
/// its last `PREVIEW_MAX - 1` characters.
pub open spec fn preview_of(t: Seq<char>) -> Seq<char> {
    if t.len() > PREVIEW_MAX {
        seq!['\u{2026}'] + t.subrange(t.len() - (PREVIEW_MAX - 1), t.len() as int)
    } else {
        t
    }
}

pub fn preview_line(text: &str) -> (r: Vec<char>)
    ensures
        r@ == preview_of(text@),
{
    let c = chars_of(text);
    let n = c.len();
    if n <= PREVIEW_MAX {
        return c;
    }
    let mut r: Vec<char> = Vec::new();
    r.push('\u{2026}');
    let mut i = n - (PREVIEW_MAX - 1);
    while i < n
        invariant
            n == c@.len(),
            n > PREVIEW_MAX,
            n - (PREVIEW_MAX - 1) <= i <= n,
            r@ == seq!['\u{2026}'] + c@.subrange(n - (PREVIEW_MAX - 1), i as int),
        decreases n - i,
    {
        r.push(c[i]);
        i += 1;
        assert(r@ =~= seq!['\u{2026}'] + c@.subrange(n - (PREVIEW_MAX - 1), i as int));
    }
    r
}

/// Whole seconds left, rounded up, before silence since the last speech at
/// `last_speech` ends the turn at `now`; zero once it has.
pub open spec fn countdown_of(last_speech: u64, now: u64) -> int {
    let left = DONE_TIMEOUT_MS - elapsed(last_speech, now);
    if left <= 0 {
        0
    } else {
        (left + 999) / 1000
    }
}

pub fn countdown_secs(last_speech: u64, now: u64) -> (r: u64)
    ensures
        r == countdown_of(last_speech, now),
{
    let quiet = if now >= last_speech {
        now - last_speech
    } else {
        0
    };
    if quiet >= DONE_TIMEOUT_MS {
        0
    } else {
        (DONE_TIMEOUT_MS - quiet + 999) / 1000
    }
}

/// Width of the level bar for a level reading: proportional up to
/// [`LEVEL_FULL`], at least two pixels.
pub open spec fn bar_width_of(level: u32) -> int {
    let l = if level > LEVEL_FULL {
        LEVEL_FULL as int
    } else {
        level as int
    };
    let w = l * LEVEL_BAR_WIDTH / LEVEL_FULL as int;
    if w < 2 {
        2
    } else {
        w
    }
}

pub fn level_bar_width(level: u32) -> (r: u32)
    ensures
        r == bar_width_of(level),
{
    let l: u64 = if level > LEVEL_FULL {
        LEVEL_FULL as u64
    } else {
        level as u64
    };
    let w = l * 280 / 150_000;
    assert(w <= 280) by (nonlinear_arith)
        requires
            l <= 150_000,
            w == l * 280 / 150_000,
    ;
    if w < 2 {
        2
    } else {
        w as u32
    }
}

} // verus!
