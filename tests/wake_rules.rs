use kiri::speech::{recording_expired, SilenceDetector};
use kiri::wake::{select_templates, template_name, TrainingRun, WakeError, WakeGate};

fn tone(n: usize, amp: i32) -> Vec<i32> {
    (0..n).map(|i| if i % 2 == 0 { amp } else { -amp }).collect()
}

#[test]
fn detections_within_cooldown_fire_once() {
    let mut g = WakeGate::new();
    let mut actions = 0;
    if g.fire(10_000) {
        actions += 1;
    }
    if g.fire(12_000) {
        actions += 1;
    }
    assert_eq!(actions, 1);
    assert!(g.in_cooldown(14_999));
    assert!(!g.in_cooldown(15_000));
    assert!(g.fire(15_000));
    assert_eq!(g.last_activation, Some(15_000));
}

#[test]
fn fresh_gate_fires() {
    let mut g = WakeGate::new();
    assert!(!g.in_cooldown(0));
    assert!(g.fire(0));
}

#[test]
fn template_names_come_from_rpw_files() {
    assert_eq!(template_name("hey-kiri.rpw"), Some("hey-kiri".to_string()));
    assert_eq!(template_name("a.b.rpw"), Some("a.b".to_string()));
    assert_eq!(template_name(".rpw"), None);
    assert_eq!(template_name("sample.wav"), None);
    assert_eq!(template_name("rpw"), None);
}

#[test]
fn select_templates_in_listing_order() {
    let files = vec![
        "samples".to_string(),
        "private.rpw".to_string(),
        "notes.txt".to_string(),
        "hey-kiri.rpw".to_string(),
    ];
    assert_eq!(
        select_templates(&files),
        Ok(vec!["private".to_string(), "hey-kiri".to_string()])
    );
    let none = vec!["samples".to_string()];
    assert_eq!(select_templates(&none), Err(WakeError::NoTemplates));
    assert_eq!(select_templates(&vec![]), Err(WakeError::NoTemplates));
}

#[test]
fn training_with_two_samples_fails() {
    let mut run = TrainingRun::new();
    let speech = tone(12_000, 40_000);
    assert!(run.take_sample(&speech).is_some());
    assert!(run.take_sample(&speech).is_some());
    assert_eq!(run.template_file("hey-kiri"), Err(WakeError::TooFewSamples(2)));
}

#[test]
fn training_with_three_samples_names_template() {
    let mut run = TrainingRun::new();
    let speech = tone(12_000, 40_000);
    for _ in 0..3 {
        assert!(run.take_sample(&speech).is_some());
    }
    assert_eq!(run.accepted, 3);
    assert_eq!(run.template_file("hey-kiri"), Ok("hey-kiri.rpw".to_string()));
}

#[test]
fn training_drops_short_recordings() {
    let mut run = TrainingRun::new();
    assert_eq!(run.take_sample(&tone(11_999, 40_000)), None);
    let mut padded = vec![0; 20_000];
    padded.extend(tone(960, 40_000));
    padded.extend(vec![0; 20_000]);
    assert_eq!(run.take_sample(&padded), None);
    assert_eq!(run.accepted, 0);
    let mut long = vec![0; 20_000];
    long.extend(tone(9_600, 40_000));
    long.extend(vec![0; 20_000]);
    let (lo, hi) = run.take_sample(&long).unwrap();
    // 960-sample windows: the first loud one starts at 20 160, the last ends
    // at 29 760; 2 400 samples of padding on each side.
    assert_eq!((lo, hi), (20_160 - 2_400, 29_760 + 2_400));
    assert_eq!(run.accepted, 1);
}

#[test]
fn recording_stops_after_silence_following_speech() {
    let mut d = SilenceDetector::new(1_000);
    assert!(!d.observe(true, 0));
    assert!(!d.observe(true, 400));
    assert!(!d.confirmed);
    assert!(!d.observe(true, 500));
    assert!(d.confirmed);
    assert!(!d.observe(false, 600));
    assert!(!d.observe(true, 1_000));
    assert!(!d.observe(false, 1_100));
    assert!(!d.observe(false, 2_099));
    assert!(d.observe(false, 2_100));
    assert!(d.observe(true, 2_200));
    d.reset();
    assert!(!d.stopped);
    assert_eq!(d.silence_ms, 1_000);
}

#[test]
fn silence_before_speech_never_stops() {
    let mut d = SilenceDetector::new(100);
    assert!(!d.observe(false, 0));
    assert!(!d.observe(true, 100));
    assert!(!d.observe(false, 200));
    assert!(!d.observe(false, 10_000));
    d.stop();
    assert!(d.stopped);
}

#[test]
fn frames_are_judged_by_rms() {
    let mut d = SilenceDetector::new(0);
    assert!(!d.observe_frame(&tone(480, 20_000), 0));
    assert!(!d.observe_frame(&tone(480, 20_000), 600));
    assert!(d.confirmed);
    assert!(d.observe_frame(&tone(480, 10_000), 700));
}

#[test]
fn recordings_expire_after_two_minutes() {
    assert!(!recording_expired(1_000, 120_999));
    assert!(recording_expired(1_000, 121_000));
    assert!(!recording_expired(5_000, 0));
}
