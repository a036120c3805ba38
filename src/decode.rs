//! The engine-independent part of decoding: what audio reaches the model,
//! how the model's segments become one text, and the prompt that biases
//! wake-phrase decoding.

use vstd::prelude::*;
use crate::signal::{
    any_loud, copy_range, find_loud_span, normalize_audio, normalized, trim_silence, trimmed,
    TRIM_THRESHOLD, TRIM_WINDOW,
};
use crate::text::{trim_of, trim_str};

verus! {

/// The audio handed to the model for a request: normalized and trimmed, or
/// none when no window of the normalized audio is loud enough, in which case
/// the decoded text is empty and the model is not run.
pub fn decode_input(audio: &Vec<i32>) -> (r: Option<Vec<i32>>)
    ensures
        ({
            let n = normalized(audio@);
            &&& !any_loud(n, TRIM_WINDOW as int, TRIM_THRESHOLD as int) ==> r is None
            &&& any_loud(n, TRIM_WINDOW as int, TRIM_THRESHOLD as int) ==> r is Some && r->0@
                == trimmed(n, TRIM_WINDOW as int, TRIM_THRESHOLD as int)
        }),
{
    let mut processed = copy_range(audio, 0, audio.len());
    assert(processed@ =~= audio@);
    normalize_audio(&mut processed);
    match find_loud_span(&processed, TRIM_WINDOW, TRIM_THRESHOLD) {
        None => None,
        Some(_) => Some(trim_silence(&processed)),
    }
}

/// Each segment trimmed and followed by one space.
pub open spec fn spaced(segments: Seq<String>) -> Seq<char>
    decreases segments.len(),
{
    if segments.len() == 0 {
        Seq::empty()
    } else {
        spaced(segments.drop_last()) + trim_of(segments.last()@) + seq![' ']
    }
}

/// The text of a decode: its segments, each trimmed, joined by spaces, and
/// the whole trimmed.
pub fn join_segments(segments: &Vec<String>) -> (r: String)
    ensures
        r@ == trim_of(spaced(segments@)),
{
    let mut text = String::new();
    let mut i: usize = 0;
    while i < segments.len()
        invariant
            i <= segments@.len(),
            text@ == spaced(segments@.subrange(0, i as int)),
        decreases segments@.len() - i,
    {
        let ghost t = segments@.subrange(0, i + 1);
        assert(t.drop_last() =~= segments@.subrange(0, i as int));
        proof {
            reveal_strlit(" ");
        }
        text.append(trim_str(segments[i].as_str()));
        text.append(" ");
        i += 1;
    }
    assert(segments@.subrange(0, segments@.len() as int) =~= segments@);
    String::from_str(trim_str(text.as_str()))
}

/// The phrases, separated by a comma and a space.
pub open spec fn listed(phrases: Seq<String>) -> Seq<char>
    decreases phrases.len(),
{
    if phrases.len() == 0 {
        Seq::empty()
    } else if phrases.len() == 1 {
        phrases[0]@
    } else {
        listed(phrases.drop_last()) + ", "@ + phrases.last()@
    }
}

/// The prompt that biases decoding toward the wake phrases.
pub fn wake_prompt(phrases: &Vec<String>) -> (r: String)
    ensures
        r@ == listed(phrases@),
{
    let mut text = String::new();
    let mut i: usize = 0;
    while i < phrases.len()
        invariant
            i <= phrases@.len(),
            text@ == listed(phrases@.subrange(0, i as int)),
        decreases phrases@.len() - i,
    {
        let ghost t = phrases@.subrange(0, i + 1);
        assert(t.drop_last() =~= phrases@.subrange(0, i as int));
        if i > 0 {
            text.append(", ");
        } else {
            assert(text@.len() == 0);
        }
        text.append(phrases[i].as_str());
        i += 1;
    }
    assert(phrases@.subrange(0, phrases@.len() as int) =~= phrases@);
    text
}

} // verus!
