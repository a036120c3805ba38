//! The speech and silence state machine of a blocking recording: speech is
//! confirmed once the level stays above threshold for the minimum dwell;
//! after that, silence is timed from the first quiet frame, reset by any
//! loud one, and the recording stops once the silence lasts long enough.

use vstd::prelude::*;
use crate::config::{MAX_DURATION_MS, SILENCE_THRESHOLD, SPEECH_MIN_MS};
use crate::session::elapsed;
use crate::signal::{exceeds, is_loud_frame};

verus! {

/// State of the recording's voice-activity detection, advanced once per
/// delivered frame.
#[derive(Clone, Copy, Debug, PartialEq, Eq, Structural)]
pub struct SilenceDetector {
    /// Silence after confirmed speech that stops the recording.
    pub silence_ms: u64,
    /// Start of the current loud run, before speech is confirmed.
    pub onset: Option<u64>,
    /// Speech was confirmed.
    pub confirmed: bool,
    /// Start of the current silence run after speech.
    pub silence_start: Option<u64>,
    /// The stop signal; once set it stays set until a reset.
    pub stopped: bool,
}

impl SilenceDetector {
    /// The detector after a frame at `now` that is `loud` or not.
    pub open spec fn next(self, loud: bool, now: u64) -> SilenceDetector {
        if self.stopped {
            self
        } else if loud {
            let onset = if self.confirmed {
                None
            } else {
                match self.onset {
                    Some(t) => Some(t),
                    None => Some(now),
                }
            };
            let confirmed = self.confirmed || elapsed(onset.unwrap(), now) >= SPEECH_MIN_MS;
            SilenceDetector {
                silence_ms: self.silence_ms,
                onset: if confirmed {
                    None
                } else {
                    onset
                },
                confirmed,
                silence_start: None,
                stopped: false,
            }
        } else if self.confirmed {
            let start = match self.silence_start {
                Some(t) => t,
                None => now,
            };
            SilenceDetector {
                silence_ms: self.silence_ms,
                onset: None,
                confirmed: true,
                silence_start: Some(start),
                stopped: elapsed(start, now) >= self.silence_ms,
            }
        } else {
            SilenceDetector {
                silence_ms: self.silence_ms,
                onset: None,
                confirmed: false,
                silence_start: None,
                stopped: false,
            }
        }
    }

    /// A detector that has heard nothing, stopping after `silence_ms` of
    /// silence that follows speech.
    pub fn new(silence_ms: u64) -> (r: SilenceDetector)
        ensures
            r == (SilenceDetector {
                silence_ms,
                onset: None,
                confirmed: false,
                silence_start: None,
                stopped: false,
            }),
    {
        SilenceDetector {
            silence_ms,
            onset: None,
            confirmed: false,
            silence_start: None,
            stopped: false,
        }
    }

    /// Clears all tracking and the stop signal, keeping the silence limit.
    pub fn reset(&mut self)
        ensures
            *final(self) == SilenceDetector::new_spec(old(self).silence_ms),
    {
        *self = SilenceDetector::new(self.silence_ms);
    }

    pub open spec fn new_spec(silence_ms: u64) -> SilenceDetector {
        SilenceDetector {
            silence_ms,
            onset: None,
            confirmed: false,
            silence_start: None,
            stopped: false,
        }
    }

    /// Sets the stop signal from outside: a cancellation or a timeout.
    pub fn stop(&mut self)
        ensures
            final(self).stopped,
            final(self).silence_ms == old(self).silence_ms,
            final(self).onset == old(self).onset,
            final(self).confirmed == old(self).confirmed,
            final(self).silence_start == old(self).silence_start,
    {
        self.stopped = true;
    }

    /// Advances by one frame at `now`; returns the stop signal.
    pub fn observe(&mut self, loud: bool, now: u64) -> (r: bool)
        ensures
            *final(self) == old(self).next(loud, now),
            r == final(self).stopped,
    {
        if self.stopped {
            return true;
        }
        if loud {
            self.silence_start = None;
            if !self.confirmed {
                let onset = match self.onset {
                    Some(t) => t,
                    None => now,
                };
                let held = if now >= onset {
                    now - onset
                } else {
                    0
                };
                if held >= SPEECH_MIN_MS {
                    self.confirmed = true;
                    self.onset = None;
                } else {
                    self.onset = Some(onset);
                }
            } else {
                self.onset = None;
            }
        } else if self.confirmed {
            let start = match self.silence_start {
                Some(t) => t,
                None => now,
            };
            self.onset = None;
            self.silence_start = Some(start);
            let quiet = if now >= start {
                now - start
            } else {
                0
            };
            self.stopped = quiet >= self.silence_ms;
        } else {
            self.onset = None;
            self.silence_start = None;
        }
        self.stopped
    }

    /// Advances by one delivered frame of samples at `now`: the frame is
    /// loud when its RMS exceeds the speech threshold.
    pub fn observe_frame(&mut self, frame: &Vec<i32>, now: u64) -> (r: bool)
        ensures
            *final(self) == old(self).next(exceeds(frame@, SILENCE_THRESHOLD as int), now),
            r == final(self).stopped,
    {
        let loud = is_loud_frame(frame, SILENCE_THRESHOLD);
        self.observe(loud, now)
    }
}

/// A blocking recording started at `start` has reached its longest allowed
/// duration at `now`.
pub fn recording_expired(start: u64, now: u64) -> (r: bool)
    ensures
        r == (elapsed(start, now) >= MAX_DURATION_MS),
{
    now >= start && now - start >= MAX_DURATION_MS
}

} // verus!
