//! Wake-word bookkeeping: the cooldown that keeps one utterance from
//! triggering twice, the choice of template files to load, and the
//! acceptance rules of a training run.

use vstd::prelude::*;
use crate::session::elapsed;
use crate::signal::{padded_trim, training_bounds, TRAIN_PADDING, TRAIN_THRESHOLD, TRAIN_WINDOW};

verus! {

/// Quiet time after a detection, in milliseconds, during which captured
/// audio is discarded and nothing fires.
pub const COOLDOWN_MS: u64 = 5000;

/// Accepted recordings needed to build a template.
pub const MIN_TRAINING_SAMPLES: usize = 3;

/// Shortest usable recording, before and after trimming: a quarter second
/// of capture.
pub const MIN_SAMPLE_LEN: usize = 12000;

/// Extension of a template file.
pub open spec fn template_ext() -> Seq<char> {
    ".rpw"@
}

/// Tracks the last detection that fired.
#[derive(Clone, Copy, Debug, PartialEq, Eq, Structural)]
pub struct WakeGate {
    pub last_activation: Option<u64>,
}

impl WakeGate {
    /// Within the cooldown of the last detection.
    pub open spec fn cooling(self, now: u64) -> bool {
        match self.last_activation {
            Some(t) => elapsed(t, now) < COOLDOWN_MS,
            None => false,
        }
    }

    /// The next state of the cooldown, for a detection at `now`.
    pub open spec fn after(self, now: u64) -> WakeGate {
        if self.cooling(now) {
            self
        } else {
            WakeGate { last_activation: Some(now) }
        }
    }

    /// A gate that has never fired.
    pub fn new() -> (r: WakeGate)
        ensures
            r.last_activation is None,
    {
        WakeGate { last_activation: None }
    }

    /// Whether audio captured at `now` is to be discarded.
    pub fn in_cooldown(&self, now: u64) -> (r: bool)
        ensures
            r == self.cooling(now),
    {
        match self.last_activation {
            Some(t) => now >= t && now - t < COOLDOWN_MS || now < t,
            None => false,
        }
    }

    /// A detection at `now`: returns whether the caller's action runs, which
    /// starts a new cooldown.
    pub fn fire(&mut self, now: u64) -> (r: bool)
        ensures
            r == !old(self).cooling(now),
            *final(self) == old(self).after(now),
    {
        if self.in_cooldown(now) {
            false
        } else {
            self.last_activation = Some(now);
            true
        }
    }
}

/// Two detections less than the cooldown apart, on a gate that is not
/// cooling down, run the action exactly once: the first fires, the second
/// does not.
pub proof fn cooldown_fires_once(g: WakeGate, t1: u64, t2: u64)
    requires
        !g.cooling(t1),
        t1 <= t2,
        t2 - t1 < COOLDOWN_MS,
    ensures
        !g.cooling(t1) && g.after(t1).cooling(t2),
{
}

/// A file name that names a template: a non-empty stem and the template
/// extension.
pub open spec fn is_template_file(f: Seq<char>) -> bool {
    f.len() > template_ext().len() && f.subrange(f.len() - template_ext().len(), f.len() as int)
        == template_ext()
}

pub open spec fn stem(f: Seq<char>) -> Seq<char> {
    f.subrange(0, f.len() - template_ext().len())
}

/// The wake-word names given by the template files among `files`, in order.
pub open spec fn template_names(files: Seq<String>) -> Seq<Seq<char>>
    decreases files.len(),
{
    if files.len() == 0 {
        Seq::empty()
    } else {
        let rest = template_names(files.drop_last());
        if is_template_file(files.last()@) {
            rest.push(stem(files.last()@))
        } else {
            rest
        }
    }
}

/// The wake-word name a file name gives, if it names a template.
pub fn template_name(file: &str) -> (r: Option<String>)
    ensures
        is_template_file(file@) ==> r is Some && r->0@ == stem(file@),
        !is_template_file(file@) ==> r is None,
{
    proof {
        reveal_strlit(".rpw");
    }
    let n = file.unicode_len();
    if n <= 4 {
        return None;
    }
    if file.get_char(n - 4) == '.' && file.get_char(n - 3) == 'r' && file.get_char(n - 2) == 'p'
        && file.get_char(n - 1) == 'w' {
        assert(file@.subrange(n - 4, n as int) =~= template_ext());
        Some(String::from_str(file.substring_char(0, n - 4)))
    } else {
        assert(file@.subrange(n - 4, n as int)[0] == file@[n - 4]);
        assert(file@.subrange(n - 4, n as int)[1] == file@[n - 3]);
        assert(file@.subrange(n - 4, n as int)[2] == file@[n - 2]);
        assert(file@.subrange(n - 4, n as int)[3] == file@[n - 1]);
        None
    }
}

/// Why wake-word detection or training cannot go on.
#[derive(Clone, Copy, Debug, PartialEq, Eq, Structural)]
pub enum WakeError {
    /// No template file was found.
    NoTemplates,
    /// A training run ended with fewer than [`MIN_TRAINING_SAMPLES`] usable
    /// recordings; it holds how many there were.
    TooFewSamples(usize),
}

/// The wake-word names to load from a directory listing: one per template
/// file, in listing order; an error when there is none.
pub fn select_templates(files: &Vec<String>) -> (r: Result<Vec<String>, WakeError>)
    ensures
        template_names(files@).len() == 0 ==> r == Err::<Vec<String>, WakeError>(
            WakeError::NoTemplates,
        ),
        template_names(files@).len() > 0 ==> r is Ok && r->Ok_0@.len() == template_names(
            files@,
        ).len() && forall|i: int|
            0 <= i < r->Ok_0@.len() ==> #[trigger] r->Ok_0@[i]@ == template_names(files@)[i],
{
    let mut names: Vec<String> = Vec::new();
    let mut i: usize = 0;
    while i < files.len()
        invariant
            i <= files@.len(),
            names@.len() == template_names(files@.subrange(0, i as int)).len(),
            forall|k: int|
                0 <= k < names@.len() ==> #[trigger] names@[k]@ == template_names(
                    files@.subrange(0, i as int),
                )[k],
        decreases files@.len() - i,
    {
        let ghost t = files@.subrange(0, i + 1);
        assert(t.drop_last() =~= files@.subrange(0, i as int));
        assert(t.last() == files@[i as int]);
        match template_name(files[i].as_str()) {
            Some(n) => {
                names.push(n);
            },
            None => {},
        }
        i += 1;
    }
    assert(files@.subrange(0, files@.len() as int) =~= files@);
    if names.len() == 0 {
        Err(WakeError::NoTemplates)
    } else {
        Ok(names)
    }
}

/// A recording of a training run is usable: long enough before and after
/// trimming.
pub open spec fn usable(audio: Seq<i32>) -> bool {
    audio.len() >= MIN_SAMPLE_LEN && padded_trim(
        audio,
        TRAIN_WINDOW as int,
        TRAIN_THRESHOLD as int,
        TRAIN_PADDING as int,
    ).len() >= MIN_SAMPLE_LEN
}

/// Progress of one training run.
#[derive(Clone, Copy, Debug, PartialEq, Eq, Structural)]
pub struct TrainingRun {
    /// Recordings accepted so far.
    pub accepted: usize,
}

impl TrainingRun {
    pub fn new() -> (r: TrainingRun)
        ensures
            r.accepted == 0,
    {
        TrainingRun { accepted: 0 }
    }

    /// Judges one recording: a usable one is counted and the span of it to
    /// keep, trimmed, is returned; another is dropped.
    pub fn take_sample(&mut self, audio: &Vec<i32>) -> (r: Option<(usize, usize)>)
        requires
            old(self).accepted < usize::MAX,
        ensures
            usable(audio@) ==> (r matches Some((lo, hi)) && lo <= hi <= audio@.len()
                && audio@.subrange(lo as int, hi as int) == padded_trim(
                audio@,
                TRAIN_WINDOW as int,
                TRAIN_THRESHOLD as int,
                TRAIN_PADDING as int,
            )) && final(self).accepted == old(self).accepted + 1,
            !usable(audio@) ==> r is None && final(self).accepted == old(self).accepted,
    {
        if audio.len() < MIN_SAMPLE_LEN {
            return None;
        }
        let (lo, hi) = training_bounds(audio);
        if hi - lo < MIN_SAMPLE_LEN {
            return None;
        }
        self.accepted = self.accepted + 1;
        Some((lo, hi))
    }

    /// The file name of the template to build for the wake word `name`:
    /// only once enough recordings were accepted.
    pub fn template_file(&self, name: &str) -> (r: Result<String, WakeError>)
        ensures
            self.accepted < MIN_TRAINING_SAMPLES ==> r == Err::<String, WakeError>(
                WakeError::TooFewSamples(self.accepted),
            ),
            self.accepted >= MIN_TRAINING_SAMPLES ==> r is Ok && r->Ok_0@ == name@
                + template_ext(),
    {
        if self.accepted < MIN_TRAINING_SAMPLES {
            Err(WakeError::TooFewSamples(self.accepted))
        } else {
            let mut f = String::from_str(name);
            f.append(".rpw");
            Ok(f)
        }
    }
}

} // verus!
