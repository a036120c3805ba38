//! Text-side rules: the filter that drops decoder hallucinations, and
//! helpers over character sequences shared by the other modules.

use vstd::prelude::*;

verus! {

/// A character with the Unicode `White_Space` property.
pub open spec fn is_white_space(c: char) -> bool {
    let u = c as u32;
    (0x09 <= u <= 0x0d) || u == 0x20 || u == 0x85 || u == 0xa0 || u == 0x1680 || (0x2000 <= u
        <= 0x200a) || u == 0x2028 || u == 0x2029 || u == 0x202f || u == 0x205f || u == 0x3000
}

/// Decides [`is_white_space`].
pub fn white_space(c: char) -> (r: bool)
    ensures
        r == is_white_space(c),
{
    let u = c as u32;
    (0x09 <= u && u <= 0x0d) || u == 0x20 || u == 0x85 || u == 0xa0 || u == 0x1680 || (0x2000
        <= u && u <= 0x200a) || u == 0x2028 || u == 0x2029 || u == 0x202f || u == 0x205f || u
        == 0x3000
}

/// Punctuation: the ASCII marks, the Latin-1 marks, the General Punctuation
/// block outside its spaces and format characters, and the CJK marks.
pub open spec fn is_punctuation(c: char) -> bool {
    let u = c as u32;
    ||| (0x21 <= u <= 0x2f) || (0x3a <= u <= 0x40) || (0x5b <= u <= 0x60) || (0x7b <= u <= 0x7e)
    ||| u == 0xa1 || u == 0xa7 || u == 0xab || u == 0xb6 || u == 0xb7 || u == 0xbb || u == 0xbf
    ||| (0x2010 <= u <= 0x2027) || (0x2030 <= u <= 0x205e)
    ||| (0x3001 <= u <= 0x3003) || (0x3008 <= u <= 0x3011) || (0x3014 <= u <= 0x301f)
}

/// Decides [`is_punctuation`].
pub fn punctuation(c: char) -> (r: bool)
    ensures
        r == is_punctuation(c),
{
    let u = c as u32;
    (0x21 <= u && u <= 0x2f) || (0x3a <= u && u <= 0x40) || (0x5b <= u && u <= 0x60) || (0x7b
        <= u && u <= 0x7e) || u == 0xa1 || u == 0xa7 || u == 0xab || u == 0xb6 || u == 0xb7 || u
        == 0xbb || u == 0xbf || (0x2010 <= u && u <= 0x2027) || (0x2030 <= u && u <= 0x205e) || (
    0x3001 <= u && u <= 0x3003) || (0x3008 <= u && u <= 0x3011) || (0x3014 <= u && u <= 0x301f)
}

/// `s` without its leading white space.
pub open spec fn trim_start_of(s: Seq<char>) -> Seq<char>
    decreases s.len(),
{
    if s.len() > 0 && is_white_space(s[0]) {
        trim_start_of(s.drop_first())
    } else {
        s
    }
}

/// `s` without its trailing white space.
pub open spec fn trim_end_of(s: Seq<char>) -> Seq<char>
    decreases s.len(),
{
    if s.len() > 0 && is_white_space(s.last()) {
        trim_end_of(s.drop_last())
    } else {
        s
    }
}

/// `s` without leading and trailing white space, as `str::trim` leaves it.
pub open spec fn trim_of(s: Seq<char>) -> Seq<char> {
    trim_end_of(trim_start_of(s))
}

/// What `str::to_lowercase` makes of a string.
pub uninterp spec fn lower_of(s: Seq<char>) -> Seq<char>;

/// Relies on `str::trim`: leading and trailing characters with the Unicode
/// `White_Space` property removed.
#[verifier::external_body]
pub(crate) fn trim_str(s: &str) -> (r: &str)
    ensures
        r@ == trim_of(s@),
{
    s.trim()
}

/// Relies on `str::to_lowercase`: the result depends on the characters
/// alone.
#[verifier::external_body]
pub(crate) fn lowercase(s: &str) -> (r: String)
    ensures
        r@ == lower_of(s@),
{
    s.to_lowercase()
}

/// The characters of `s`, one element each.
pub fn chars_of(s: &str) -> (r: Vec<char>)
    ensures
        r@ == s@,
{
    let n = s.unicode_len();
    let mut r: Vec<char> = Vec::new();
    let mut i: usize = 0;
    while i < n
        invariant
            n == s@.len(),
            i <= n,
            r@ == s@.subrange(0, i as int),
        decreases n - i,
    {
        r.push(s.get_char(i));
        i += 1;
        assert(r@ =~= s@.subrange(0, i as int));
    }
    assert(r@ =~= s@);
    r
}

/// Whether the characters `t` spell out the literal `lit`.
pub fn spells(t: &Vec<char>, lit: &str) -> (r: bool)
    ensures
        r == (t@ == lit@),
{
    let n = lit.unicode_len();
    if n != t.len() {
        return false;
    }
    let mut i: usize = 0;
    while i < n
        invariant
            n == lit@.len(),
            n == t@.len(),
            i <= n,
            forall|k: int| 0 <= k < i ==> t@[k] == lit@[k],
        decreases n - i,
    {
        if t[i] != lit.get_char(i) {
            return false;
        }
        i += 1;
    }
    assert(t@ =~= lit@);
    true
}

/// Punctuation or white space: characters that carry no words.
pub open spec fn is_filler(c: char) -> bool {
    is_punctuation(c) || is_white_space(c)
}

fn filler(c: char) -> (r: bool)
    ensures
        r == is_filler(c),
{
    punctuation(c) || white_space(c)
}

/// The fixed phrases that the decoder is known to produce from silence or
/// noise, in lower case.
pub open spec fn denylisted(t: Seq<char>) -> bool {
    t == "you"@ || t == "thank you."@ || t == "thanks for watching!"@
        || t == "thank you for watching!"@ || t == "subscribe"@ || t == "like and subscribe"@
        || t == "(silence)"@ || t == "[silence]"@ || t == "[blank_audio]"@ || t == "..."@
        || t == "the end."@ || t == "bye."@
}

/// A trimmed, lower-cased transcript that should be thrown away: a known
/// phrase, under two characters, nothing but punctuation and whitespace, or
/// wholly inside square brackets.
pub open spec fn hallucinated(t: Seq<char>) -> bool {
    ||| denylisted(t)
    ||| t.len() < 2
    ||| (forall|i: int| 0 <= i < t.len() ==> is_filler(#[trigger] t[i]))
    ||| (t[0] == '[' && t.last() == ']')
}

/// Decides [`hallucinated`] for text that is already trimmed and in lower
/// case.
pub fn is_hallucination_lowered(t: &str) -> (r: bool)
    ensures
        r == hallucinated(t@),
{
    let c = chars_of(t);
    if spells(&c, "you") || spells(&c, "thank you.") || spells(&c, "thanks for watching!")
        || spells(&c, "thank you for watching!") || spells(&c, "subscribe") || spells(
        &c,
        "like and subscribe",
    ) || spells(&c, "(silence)") || spells(&c, "[silence]") || spells(&c, "[blank_audio]")
        || spells(&c, "...") || spells(&c, "the end.") || spells(&c, "bye.") {
        return true;
    }
    let n = c.len();
    if n < 2 {
        return true;
    }
    if c[0] == '[' && c[n - 1] == ']' {
        return true;
    }
    let mut i: usize = 0;
    while i < n
        invariant
            n == c@.len(),
            c@ == t@,
            n >= 2,
            !denylisted(c@),
            !(c@[0] == '[' && c@.last() == ']'),
            i <= n,
            forall|k: int| 0 <= k < i ==> is_filler(#[trigger] c@[k]),
        decreases n - i,
    {
        if !filler(c[i]) {
            assert(!is_filler(c@[i as int]));
            return false;
        }
        i += 1;
    }
    true
}

/// Whether decoded text is a hallucination: compared after trimming and
/// lower-casing, so the check ignores case.
pub fn is_hallucination(text: &str) -> (r: bool)
    ensures
        r == hallucinated(lower_of(trim_of(text@))),
{
    let t = lowercase(trim_str(text));
    is_hallucination_lowered(t.as_str())
}

} // verus!
