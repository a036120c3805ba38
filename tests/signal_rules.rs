use kiri::decode::decode_input;
use kiri::signal::{
    find_loud_span, is_loud_frame, normalize_audio, peak_of, prepare_for_decode, trim_silence,
    trim_silence_with, trim_training_audio, PEAK_TARGET,
};

fn tone(n: usize, amp: i32) -> Vec<i32> {
    (0..n).map(|i| if i % 2 == 0 { amp } else { -amp }).collect()
}

#[test]
fn normalize_raises_quiet_peak_to_target() {
    let mut a = vec![0, 100_000, -50_000, 25_000];
    normalize_audio(&mut a);
    assert_eq!(a, vec![0, 950_000, -475_000, 237_500]);
    assert_eq!(peak_of(&a), PEAK_TARGET as i64);
}

#[test]
fn normalize_rounds_toward_zero() {
    let mut a = vec![3, -3, 7_000];
    normalize_audio(&mut a);
    assert_eq!(a, vec![407, -407, 950_000]);
}

#[test]
fn normalize_leaves_loud_and_silent_audio() {
    let mut loud = vec![0, 950_000, -20];
    normalize_audio(&mut loud);
    assert_eq!(loud, vec![0, 950_000, -20]);
    let mut hot = vec![1_000_000, -3];
    normalize_audio(&mut hot);
    assert_eq!(hot, vec![1_000_000, -3]);
    let mut silent = vec![1_000, -999, 0];
    normalize_audio(&mut silent);
    assert_eq!(silent, vec![1_000, -999, 0]);
    let mut empty: Vec<i32> = vec![];
    normalize_audio(&mut empty);
    assert!(empty.is_empty());
}

#[test]
fn normalize_never_exceeds_target_when_below() {
    let mut a = vec![i32::MIN / 4000, 400_000, -399_999, 17];
    normalize_audio(&mut a);
    assert!(a.iter().all(|&s| (s as i64).abs() <= PEAK_TARGET as i64));
}

#[test]
fn loudness_compares_rms_with_threshold() {
    assert!(is_loud_frame(&tone(10, 15_001), 15_000));
    assert!(!is_loud_frame(&tone(10, 15_000), 15_000));
    assert!(!is_loud_frame(&vec![], 0));
    assert!(is_loud_frame(&vec![i32::MIN, i32::MAX], 1_000_000));
}

#[test]
fn trim_keeps_first_to_last_loud_window() {
    let mut a = vec![0; 320];
    a.extend(tone(320, 20_000));
    a.extend(vec![0; 640]);
    a.extend(tone(100, 20_000));
    a.extend(vec![0; 700]);
    let t = trim_silence(&a);
    assert_eq!(t.len(), 320 + 640 + 320);
    assert_eq!(t[0], 20_000);
    assert_eq!(find_loud_span(&a, 320, 10_000), Some((1, 4)));
}

#[test]
fn trim_of_quiet_audio_is_empty() {
    let a = vec![5_000; 1000];
    assert!(trim_silence(&a).is_empty());
    assert_eq!(find_loud_span(&a, 320, 10_000), None);
}

#[test]
fn trim_keeps_audio_shorter_than_a_window() {
    let a = vec![0; 319];
    assert_eq!(trim_silence(&a), a);
}

#[test]
fn trim_keeps_a_short_loud_tail() {
    let mut a = vec![0; 640];
    a.extend(tone(50, 30_000));
    assert_eq!(trim_silence(&a), tone(50, 30_000));
}

#[test]
fn trimming_twice_changes_nothing() {
    let mut a = vec![0; 500];
    a.extend(tone(700, 50_000));
    a.extend(vec![3; 333]);
    a.extend(tone(90, 50_000));
    a.extend(vec![0; 1234]);
    let once = trim_silence(&a);
    let twice = trim_silence(&once);
    assert_eq!(once, twice);
    let once_w = trim_silence_with(&a, 7, 10_000);
    assert_eq!(trim_silence_with(&once_w, 7, 10_000), once_w);
}

#[test]
fn training_trim_pads_speech() {
    let mut a = vec![0; 960 * 5];
    a.extend(tone(960, 40_000));
    a.extend(vec![0; 960 * 5]);
    let t = trim_training_audio(&a);
    assert_eq!(t.len(), 2400 + 960 + 2400);
    assert_eq!(t[2400], 40_000);
}

#[test]
fn training_trim_keeps_quiet_or_short_audio_whole() {
    let quiet = vec![100; 5000];
    assert_eq!(trim_training_audio(&quiet), quiet);
    let short = vec![0; 900];
    assert_eq!(trim_training_audio(&short), short);
}

#[test]
fn training_trim_clips_padding_at_edges() {
    let mut a = tone(960, 40_000);
    a.extend(vec![0; 960 * 2]);
    let t = trim_training_audio(&a);
    assert_eq!(t.len(), 960 + 960 * 2);
}

#[test]
fn decoder_input_is_normalized_then_trimmed() {
    let mut a = vec![0; 320];
    a.extend(tone(320, 100_000));
    let p = prepare_for_decode(&a);
    assert_eq!(p, tone(320, 950_000));
    assert_eq!(decode_input(&a), Some(tone(320, 950_000)));
    assert_eq!(decode_input(&vec![0; 2000]), None);
    assert_eq!(decode_input(&vec![0]), None);
    assert_eq!(decode_input(&vec![]), None);
    assert_eq!(decode_input(&vec![500_000; 10]), Some(vec![950_000; 10]));
}
