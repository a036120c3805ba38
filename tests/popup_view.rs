use kiri::session::State;
use kiri::ui::{countdown_secs, level_bar_width, preview_line, state_view, Dot};

#[test]
fn listening_view_depends_on_note_mode() {
    let v = state_view(State::Listening, true, None);
    assert_eq!(v.status, "Private note...");
    assert_eq!(v.dot, Dot::Recording);
    assert!(v.level_visible && v.stop_visible && v.hint_visible);
    assert_eq!(state_view(State::Listening, false, None).status, "Listening...");
}

#[test]
fn final_views_carry_text() {
    let r = state_view(State::Result, false, Some("hello"));
    assert_eq!(r.info, Some("hello".to_string()));
    assert!(!r.info_is_error);
    assert_eq!(r.glyph, "\u{2713}");
    let e = state_view(State::Error, false, None);
    assert_eq!(e.info, Some("Unknown error".to_string()));
    assert!(e.info_is_error);
    assert_eq!(e.dot, Dot::Done);
    assert_eq!(state_view(State::Loading, false, Some("x")).info, None);
    assert_eq!(r.status, "Done");
    assert_eq!(e.status, "Error");
    assert_eq!(e.glyph, "\u{2717}");
    assert_eq!(state_view(State::Loading, false, None).status, "Loading model...");
    assert_eq!(state_view(State::Transcribing, true, None).status, "Transcribing...");
    assert_eq!(state_view(State::Transcribing, true, None).glyph, "\u{25cf}");
}

#[test]
fn long_preview_keeps_the_tail() {
    let text: String = (0..150).map(|i| if i < 50 { 'a' } else { 'b' }).collect();
    let p = preview_line(&text);
    assert_eq!(p.len(), 100);
    assert_eq!(p[0], '\u{2026}');
    assert!(p[1..].iter().all(|&c| c == 'b'));
    let short = "é".repeat(100);
    assert_eq!(preview_line(&short), short.chars().collect::<Vec<char>>());
}

#[test]
fn countdown_rounds_up() {
    assert_eq!(countdown_secs(1_000, 1_000), 5);
    assert_eq!(countdown_secs(1_000, 1_001), 5);
    assert_eq!(countdown_secs(1_000, 2_000), 4);
    assert_eq!(countdown_secs(1_000, 5_999), 1);
    assert_eq!(countdown_secs(1_000, 6_000), 0);
}

#[test]
fn level_bar_scales_and_clamps() {
    assert_eq!(level_bar_width(0), 2);
    assert_eq!(level_bar_width(75_000), 140);
    assert_eq!(level_bar_width(150_000), 280);
    assert_eq!(level_bar_width(1_000_000), 280);
}
