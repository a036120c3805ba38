use kiri::session::{Decoder, ModelLoad, Session, State, Step, MAX_SESSION_SAMPLES};

const LOUD: u32 = 40_000;
const QUIET: u32 = 1_000;
const PER_TICK: usize = 4_800;

#[test]
fn dwell_then_segment_silence_finalizes_once() {
    let mut s = Session::start(true, false, 0);
    let mut buffered = 0usize;
    let mut transcribing = 0;
    let mut finals = 0;
    let mut t = 0u64;
    while t <= 1500 {
        buffered += PER_TICK;
        let level = if t <= 500 { LOUD } else { QUIET };
        let before = s.state;
        let step = s.tick(t, level, buffered);
        if s.state == State::Transcribing && before != State::Transcribing {
            transcribing += 1;
        }
        match step {
            Step::Finalize => {
                if s.finish_segment(Some(" set a timer "), t).is_some() {
                    finals += 1;
                }
                buffered = 0;
            }
            Step::Wait => {}
            other => panic!("unexpected step {:?} at {}", other, t),
        }
        t += 100;
    }
    assert_eq!(transcribing, 1);
    assert_eq!(finals, 1);
    assert_eq!(s.state, State::Listening);
    assert_eq!(s.transcript, "set a timer");
    assert_eq!(s.result_text(), "set a timer");
}

#[test]
fn quiet_tail_after_a_segment_is_not_cut_again() {
    let mut s = Session::start(true, false, 0);
    let mut buffered = 0usize;
    let mut transcribing = 0;
    let mut finals = 0;
    let mut delivered = Vec::new();
    let mut t = 0u64;
    let end = loop {
        buffered += PER_TICK;
        let level = if t <= 500 { LOUD } else { QUIET };
        let before = s.state;
        let step = s.tick(t, level, buffered);
        if s.state == State::Transcribing && before != State::Transcribing {
            transcribing += 1;
        }
        match step {
            Step::Finalize | Step::FinalizeAndEnd => {
                finals += 1;
                if let Some(text) = s.finish_segment(Some("set a timer"), t) {
                    delivered.push(text);
                }
                buffered = 0;
            }
            Step::End => break t,
            Step::Wait | Step::Partial => {}
        }
        t += 100;
        assert!(t <= 10_000, "session did not end");
    };
    assert_eq!(end, 5_500);
    assert_eq!(transcribing, 1);
    assert_eq!(finals, 1);
    assert_eq!(delivered, vec!["set a timer".to_string()]);
    assert_eq!(s.result_text(), "set a timer");
}

#[test]
fn new_speech_after_a_segment_opens_another() {
    let mut s = Session::start(true, false, 0);
    s.tick(0, LOUD, 4_800);
    s.tick(500, LOUD, 28_800);
    assert_eq!(s.tick(1_500, QUIET, 76_800), Step::Finalize);
    s.finish_segment(Some("one"), 1_500);
    assert_eq!(s.tick(2_000, QUIET, 24_000), Step::Wait);
    s.tick(2_100, LOUD, 28_800);
    s.tick(2_600, LOUD, 52_800);
    assert_eq!(s.tick(3_600, QUIET, 100_800), Step::Finalize);
    s.finish_segment(Some("two"), 3_600);
    assert_eq!(s.transcript, "one two");
}

#[test]
fn short_noise_burst_is_not_speech() {
    let mut s = Session::start(true, false, 0);
    assert_eq!(s.tick(0, LOUD, 4_800), Step::Wait);
    assert_eq!(s.tick(100, LOUD, 9_600), Step::Wait);
    assert_eq!(s.tick(200, QUIET, 14_400), Step::Wait);
    assert_eq!(s.onset, None);
    assert_eq!(s.last_speech, None);
    assert_eq!(s.tick(9_000, QUIET, 100_000), Step::Wait);
}

#[test]
fn long_silence_after_speech_ends_session() {
    let mut s = Session::start(true, false, 0);
    s.tick(0, LOUD, 0);
    s.tick(500, LOUD, 0);
    assert_eq!(s.last_speech, Some(500));
    assert_eq!(s.tick(5_400, QUIET, 0), Step::Wait);
    assert_eq!(s.tick(5_500, QUIET, 0), Step::End);
}

#[test]
fn partial_preview_while_speaking() {
    let mut s = Session::start(true, false, 0);
    let mut buffered = 0usize;
    let mut t = 0u64;
    let mut first_partial = None;
    while t <= 2_000 {
        buffered += PER_TICK;
        if s.tick(t, LOUD, buffered) == Step::Partial && first_partial.is_none() {
            first_partial = Some(t);
            assert_eq!(s.finish_partial(Some("set a"), t), Some("set a".to_string()));
        }
        t += 100;
    }
    assert_eq!(first_partial, Some(1_500));
    assert_eq!(s.last_transcribe, 1_500);
    assert_eq!(s.transcript, "");
}

#[test]
fn preview_shows_transcript_then_new_text() {
    let mut s = Session::start(true, false, 0);
    s.finish_segment(Some("first part."), 10);
    assert_eq!(s.finish_partial(Some(" second "), 20), Some("first part. second".to_string()));
    assert_eq!(s.finish_partial(Some("Thank you."), 30), None);
    assert_eq!(s.finish_partial(None, 40), None);
    assert_eq!(s.last_transcribe, 40);
}

#[test]
fn max_duration_finalizes_and_ends() {
    let mut s = Session::start(true, false, 0);
    assert_eq!(s.tick(100, QUIET, MAX_SESSION_SAMPLES), Step::FinalizeAndEnd);
    assert_eq!(s.state, State::Transcribing);
    assert_eq!(s.tick(200, QUIET, MAX_SESSION_SAMPLES - 1), Step::Wait);
}

#[test]
fn hallucinated_or_failed_segments_are_dropped() {
    let mut s = Session::start(true, true, 0);
    assert_eq!(s.finish_segment(Some("Thank You."), 1), None);
    assert_eq!(s.finish_segment(Some("   "), 2), None);
    assert_eq!(s.finish_segment(None, 3), None);
    assert_eq!(s.transcript, "");
    assert_eq!(s.result_text(), "No speech detected");
    assert!(!s.delivers());
}

#[test]
fn segments_accumulate_with_single_spaces() {
    let mut s = Session::start(true, false, 0);
    assert_eq!(s.finish_segment(Some(" Hello. "), 1), Some("Hello.".to_string()));
    assert_eq!(s.finish_segment(Some("World"), 2), Some("World".to_string()));
    assert_eq!(s.transcript, "Hello. World");
    assert!(s.delivers());
    assert_eq!(s.state, State::Listening);
    assert!(!s.new_speech);
}

#[test]
fn startup_without_fast_model_waits_for_accurate() {
    let mut s = Session::start(false, false, 0);
    assert_eq!(s.state, State::Loading);
    assert_eq!(s.partial_decoder(), Decoder::AccurateGreedy);
    s.main_loaded(true);
    assert_eq!(s.state, State::Listening);
    assert_eq!(s.main, ModelLoad::Ready);
    assert_eq!(s.final_decoder(), Decoder::AccurateBeam);
    let mut f = Session::start(false, false, 0);
    f.main_loaded(false);
    assert_eq!(f.state, State::Error);
}

#[test]
fn fast_model_falls_back_while_accurate_loads() {
    let mut s = Session::start(true, false, 0);
    assert_eq!(s.state, State::Listening);
    assert!(s.waits_for_main());
    assert_eq!(s.final_decoder(), Decoder::FastGreedy);
    assert_eq!(s.partial_decoder(), Decoder::FastGreedy);
    s.main_loaded(false);
    assert_eq!(s.state, State::Listening);
    assert!(!s.waits_for_main());
    assert_eq!(s.final_decoder(), Decoder::FastGreedy);
}
