//! One dictation turn: the decisions taken on every poll tick of a live
//! capture (when to preview, when to cut a segment, when to stop), which
//! model decodes, and how decoded segments accumulate into the transcript.
//!
//! The caller owns the clock, the audio buffer and the models; it reports
//! what it observed and performs what the returned [`Step`] asks for.

use vstd::prelude::*;
use crate::config::{DONE_TIMEOUT_MS, SILENCE_THRESHOLD, SPEECH_MIN_MS};
use crate::text::{hallucinated, is_hallucination_lowered, lower_of, lowercase, trim_of, trim_str};

verus! {

/// Minimum time between two preview decodes, in milliseconds.
pub const STREAM_INTERVAL_MS: u64 = 1500;

/// Silence after speech that closes a segment, in milliseconds.
pub const SEGMENT_SILENCE_MS: u64 = 1000;

/// Shortest buffer worth decoding: half a second of capture.
pub const MIN_SEGMENT_SAMPLES: usize = 24000;

/// Buffer needed before a preview is decoded: one second of capture.
pub const PARTIAL_MIN_SAMPLES: usize = 48000;

/// Longest session: two minutes of capture.
pub const MAX_SESSION_SAMPLES: usize = 5_760_000;

/// How long finalization waits for the accurate model, in milliseconds.
pub const FINAL_WAIT_MS: u64 = 3000;

/// Interval between two ticks, in milliseconds.
pub const TICK_MS: u64 = 100;

/// What the user is shown of a dictation turn.
#[derive(Clone, Copy, Debug, PartialEq, Eq, Structural)]
pub enum State {
    Loading,
    Listening,
    Transcribing,
    Result,
    Error,
}

/// Progress of the accurate model, which loads in the background.
#[derive(Clone, Copy, Debug, PartialEq, Eq, Structural)]
pub enum ModelLoad {
    Loading,
    Ready,
    Failed,
}

/// A loaded model together with the way it decodes.
#[derive(Clone, Copy, Debug, PartialEq, Eq, Structural)]
pub enum Decoder {
    /// The fast model, greedy.
    FastGreedy,
    /// The accurate model, greedy: previews when no fast model exists.
    AccurateGreedy,
    /// The accurate model with beam search: final output.
    AccurateBeam,
}

/// What the caller does after a tick.
#[derive(Clone, Copy, Debug, PartialEq, Eq, Structural)]
pub enum Step {
    /// Nothing to do until the next tick.
    Wait,
    /// Decode the uncommitted buffer quickly and show it as a preview.
    Partial,
    /// Decode and commit the buffer as a segment, clear it, keep listening.
    Finalize,
    /// The session reached its longest duration: decode and commit the
    /// buffer, then end.
    FinalizeAndEnd,
    /// End the session.
    End,
}

/// Milliseconds from `since` to `now`; none when the clock reads earlier.
pub open spec fn elapsed(since: u64, now: u64) -> int {
    if now >= since {
        now - since
    } else {
        0
    }
}

fn elapsed_ms(since: u64, now: u64) -> (r: u64)
    ensures
        r == elapsed(since, now),
{
    if now >= since {
        now - since
    } else {
        0
    }
}

/// A level reading that counts as speech.
pub open spec fn is_loud(level: u32) -> bool {
    level > SILENCE_THRESHOLD
}

/// Whether the silence since `last` speech has lasted `limit`; never before
/// any speech.
pub open spec fn silence_reaches(last: Option<u64>, now: u64, limit: u64) -> bool {
    match last {
        Some(t) => elapsed(t, now) >= limit,
        None => false,
    }
}

/// `t` added to the transcript `acc`, separated by one space.
pub open spec fn appended(acc: Seq<char>, t: Seq<char>) -> Seq<char> {
    if acc.len() == 0 {
        t
    } else {
        acc + seq![' '] + t
    }
}

/// Decoded text that is kept: trimmed, not empty and not a hallucination.
pub open spec fn keeps(decoded: Seq<char>) -> bool {
    trim_of(decoded).len() > 0 && !hallucinated(lower_of(trim_of(decoded)))
}

/// The state of one dictation turn.
pub struct Session {
    /// When the level last rose above threshold, while it stays there.
    pub onset: Option<u64>,
    /// The last tick at which speech was confirmed; none before any.
    pub last_speech: Option<u64>,
    /// Speech was confirmed since the last committed segment.
    pub new_speech: bool,
    /// When the last decode of the session finished.
    pub last_transcribe: u64,
    /// The committed segments, separated by single spaces.
    pub transcript: String,
    /// Whether a fast model serves previews.
    pub has_fast: bool,
    /// Progress of the accurate model.
    pub main: ModelLoad,
    /// Segments are kept as a private note rather than delivered.
    pub note_mode: bool,
    /// What the user is shown.
    pub state: State,
}

impl Session {
    /// Onset after a reading: kept while loud, cleared by any quiet reading.
    pub open spec fn onset_at(self, now: u64, level: u32) -> Option<u64> {
        if is_loud(level) {
            match self.onset {
                Some(t) => Some(t),
                None => Some(now),
            }
        } else {
            None
        }
    }

    /// The reading confirms speech: loud, and loud since at least the
    /// minimum dwell.
    pub open spec fn confirms(self, now: u64, level: u32) -> bool {
        is_loud(level) && elapsed(self.onset_at(now, level).unwrap(), now) >= SPEECH_MIN_MS
    }

    pub open spec fn last_speech_at(self, now: u64, level: u32) -> Option<u64> {
        if self.confirms(now, level) {
            Some(now)
        } else {
            self.last_speech
        }
    }

    /// The decision of one tick. A segment is cut only after speech that was
    /// confirmed since the last one.
    pub open spec fn decide(self, now: u64, level: u32, buffered: usize) -> Step {
        let last = self.last_speech_at(now, level);
        let fresh = self.new_speech || self.confirms(now, level);
        if silence_reaches(last, now, DONE_TIMEOUT_MS) {
            Step::End
        } else if buffered >= MAX_SESSION_SAMPLES {
            Step::FinalizeAndEnd
        } else if fresh && silence_reaches(last, now, SEGMENT_SILENCE_MS) && buffered
            >= MIN_SEGMENT_SAMPLES {
            Step::Finalize
        } else if fresh && buffered >= PARTIAL_MIN_SAMPLES && elapsed(self.last_transcribe, now)
            >= STREAM_INTERVAL_MS {
            Step::Partial
        } else {
            Step::Wait
        }
    }

    /// Starts a turn at `now`. With a fast model the user is listened to at
    /// once; without one the turn waits for the accurate model.
    pub fn start(has_fast: bool, note_mode: bool, now: u64) -> (r: Session)
        ensures
            r.onset is None,
            r.last_speech is None,
            !r.new_speech,
            r.last_transcribe == now,
            r.transcript@.len() == 0,
            r.has_fast == has_fast,
            r.main == ModelLoad::Loading,
            r.note_mode == note_mode,
            r.state == (if has_fast { State::Listening } else { State::Loading }),
    {
        Session {
            onset: None,
            last_speech: None,
            new_speech: false,
            last_transcribe: now,
            transcript: String::new(),
            has_fast,
            main: ModelLoad::Loading,
            note_mode,
            state: if has_fast {
                State::Listening
            } else {
                State::Loading
            },
        }
    }

    /// Records the outcome of loading the accurate model. Without a fast
    /// model its failure is fatal and its success starts the listening.
    pub fn main_loaded(&mut self, ok: bool)
        ensures
            final(self).main == (if ok { ModelLoad::Ready } else { ModelLoad::Failed }),
            final(self).state == (if old(self).state == State::Loading {
                if ok {
                    State::Listening
                } else {
                    State::Error
                }
            } else {
                old(self).state
            }),
            final(self).onset == old(self).onset,
            final(self).last_speech == old(self).last_speech,
            final(self).new_speech == old(self).new_speech,
            final(self).last_transcribe == old(self).last_transcribe,
            final(self).transcript@ == old(self).transcript@,
            final(self).has_fast == old(self).has_fast,
            final(self).note_mode == old(self).note_mode,
    {
        self.main = if ok {
            ModelLoad::Ready
        } else {
            ModelLoad::Failed
        };
        if self.state == State::Loading {
            self.state = if ok {
                State::Listening
            } else {
                State::Error
            };
        }
    }

    /// Finalization should wait, up to [`FINAL_WAIT_MS`], for the accurate
    /// model.
    pub fn waits_for_main(&self) -> (r: bool)
        ensures
            r == (self.main == ModelLoad::Loading),
    {
        self.main == ModelLoad::Loading
    }

    /// The decoder for a committed segment: the accurate model when it is
    /// ready, else the fast one.
    pub fn final_decoder(&self) -> (r: Decoder)
        ensures
            r == (if self.main == ModelLoad::Ready {
                Decoder::AccurateBeam
            } else {
                Decoder::FastGreedy
            }),
    {
        if self.main == ModelLoad::Ready {
            Decoder::AccurateBeam
        } else {
            Decoder::FastGreedy
        }
    }

    /// The decoder for previews: the fast model, or the accurate one
    /// decoding greedily when there is no fast model.
    pub fn partial_decoder(&self) -> (r: Decoder)
        ensures
            r == (if self.has_fast {
                Decoder::FastGreedy
            } else {
                Decoder::AccurateGreedy
            }),
    {
        if self.has_fast {
            Decoder::FastGreedy
        } else {
            Decoder::AccurateGreedy
        }
    }

    /// One poll tick at `now`, with the current `level` and the number of
    /// `buffered` samples: tracks onset, dwell and silence and decides what
    /// the caller does next.
    pub fn tick(&mut self, now: u64, level: u32, buffered: usize) -> (r: Step)
        ensures
            r == old(self).decide(now, level, buffered),
            final(self).onset == old(self).onset_at(now, level),
            final(self).last_speech == old(self).last_speech_at(now, level),
            final(self).new_speech == (old(self).new_speech || old(self).confirms(now, level)),
            final(self).state == (if r == Step::Finalize || r == Step::FinalizeAndEnd {
                State::Transcribing
            } else {
                old(self).state
            }),
            final(self).last_transcribe == old(self).last_transcribe,
            final(self).transcript@ == old(self).transcript@,
            final(self).has_fast == old(self).has_fast,
            final(self).main == old(self).main,
            final(self).note_mode == old(self).note_mode,
    {
        if level > SILENCE_THRESHOLD {
            let onset = match self.onset {
                Some(t) => t,
                None => now,
            };
            self.onset = Some(onset);
            if elapsed_ms(onset, now) >= SPEECH_MIN_MS {
                self.last_speech = Some(now);
                self.new_speech = true;
            }
        } else {
            self.onset = None;
        }
        let (done, segment_over) = match self.last_speech {
            Some(t) => {
                let quiet = elapsed_ms(t, now);
                (quiet >= DONE_TIMEOUT_MS, quiet >= SEGMENT_SILENCE_MS)
            },
            None => (false, false),
        };
        let step = if done {
            Step::End
        } else if buffered >= MAX_SESSION_SAMPLES {
            Step::FinalizeAndEnd
        } else if self.new_speech && segment_over && buffered >= MIN_SEGMENT_SAMPLES {
            Step::Finalize
        } else if self.new_speech && buffered >= PARTIAL_MIN_SAMPLES && elapsed_ms(
            self.last_transcribe,
            now,
        ) >= STREAM_INTERVAL_MS {
            Step::Partial
        } else {
            Step::Wait
        };
        if step == Step::Finalize || step == Step::FinalizeAndEnd {
            self.state = State::Transcribing;
        }
        step
    }

    /// Commits the decode of a finished segment at `now` (`None` when the
    /// decode failed): kept text joins the transcript and is returned for
    /// delivery. Either way the turn goes back to listening for new speech.
    pub fn finish_segment(&mut self, decoded: Option<&str>, now: u64) -> (r: Option<String>)
        ensures
            match decoded {
                Some(d) => keeps(d@),
                None => false,
            } ==> r is Some && r->0@ == trim_of(decoded->0@) && final(self).transcript@
                == appended(old(self).transcript@, trim_of(decoded->0@)),
            !match decoded {
                Some(d) => keeps(d@),
                None => false,
            } ==> r is None && final(self).transcript@ == old(self).transcript@,
            final(self).onset is None,
            !final(self).new_speech,
            final(self).last_transcribe == now,
            final(self).state == State::Listening,
            final(self).last_speech == old(self).last_speech,
            final(self).has_fast == old(self).has_fast,
            final(self).main == old(self).main,
            final(self).note_mode == old(self).note_mode,
    {
        let kept = match decoded {
            Some(d) => kept_text(d),
            None => None,
        };
        match &kept {
            Some(t) => {
                append_segment(&mut self.transcript, t.as_str());
            },
            None => {},
        }
        self.onset = None;
        self.new_speech = false;
        self.last_transcribe = now;
        self.state = State::Listening;
        kept
    }

    /// Takes the decode of a preview at `now` and returns what to show: the
    /// transcript so far followed by the kept preview text.
    pub fn finish_partial(&mut self, decoded: Option<&str>, now: u64) -> (r: Option<String>)
        ensures
            match decoded {
                Some(d) => keeps(d@),
                None => false,
            } ==> r is Some && r->0@ == appended(old(self).transcript@, trim_of(decoded->0@)),
            !match decoded {
                Some(d) => keeps(d@),
                None => false,
            } ==> r is None,
            final(self).last_transcribe == now,
            final(self).transcript@ == old(self).transcript@,
            final(self).onset == old(self).onset,
            final(self).last_speech == old(self).last_speech,
            final(self).new_speech == old(self).new_speech,
            final(self).state == old(self).state,
            final(self).has_fast == old(self).has_fast,
            final(self).main == old(self).main,
            final(self).note_mode == old(self).note_mode,
    {
        self.last_transcribe = now;
        let kept = match decoded {
            Some(d) => kept_text(d),
            None => None,
        };
        match kept {
            Some(t) => {
                let mut shown = self.transcript.clone();
                append_segment(&mut shown, t.as_str());
                Some(shown)
            },
            None => None,
        }
    }

    /// Kept segments are handed on for delivery, except in note mode.
    pub fn delivers(&self) -> (r: bool)
        ensures
            r == !self.note_mode,
    {
        !self.note_mode
    }

    /// The text that ends the turn: the transcript, or a notice that no
    /// speech was heard.
    pub fn result_text(&self) -> (r: String)
        ensures
            self.transcript@.len() > 0 ==> r@ == self.transcript@,
            self.transcript@.len() == 0 ==> r@ == "No speech detected"@,
    {
        if self.transcript.as_str().unicode_len() == 0 {
            String::from_str("No speech detected")
        } else {
            self.transcript.clone()
        }
    }
}

/// Once a segment is committed, quiet ticks never cut another one: a new
/// segment needs newly confirmed speech.
pub proof fn no_cut_without_new_speech(s: Session, now: u64, level: u32, buffered: usize)
    requires
        !s.new_speech,
        !is_loud(level),
    ensures
        s.decide(now, level, buffered) != Step::Finalize,
{
}

/// The trimmed text of a decode, when it is kept.
fn kept_text(decoded: &str) -> (r: Option<String>)
    ensures
        keeps(decoded@) ==> r is Some && r->0@ == trim_of(decoded@),
        !keeps(decoded@) ==> r is None,
{
    let t = trim_str(decoded);
    if t.unicode_len() == 0 {
        return None;
    }
    let lowered = lowercase(t);
    if is_hallucination_lowered(lowered.as_str()) {
        None
    } else {
        Some(String::from_str(t))
    }
}

fn append_segment(acc: &mut String, t: &str)
    ensures
        final(acc)@ == appended(old(acc)@, t@),
{
    if acc.as_str().unicode_len() > 0 {
        proof {
            reveal_strlit(" ");
        }
        acc.append(" ");
    }
    acc.append(t);
}

} // verus!
