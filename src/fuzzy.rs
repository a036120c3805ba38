//! Lexical wake-phrase matching on decoded text: both sides are lower-cased,
//! stripped of punctuation and reduced to single-space-separated words; a
//! phrase matches when it occurs in the text, or when some run of as many
//! words as the phrase has lies within a normalized edit distance of 0.35.

use vstd::prelude::*;
use crate::text::{chars_of, is_punctuation, is_white_space, lower_of, lowercase, punctuation, white_space};

verus! {

/// Tolerance of the normalized edit distance, in hundredths.
pub const FUZZY_TOLERANCE_PCT: u64 = 35;

/// RMS below which an analysis window is not worth decoding.
pub const WAKE_RMS_GATE: u32 = 10_000;

/// Length of one analysis window: two seconds of capture.
pub const WAKE_WINDOW_SAMPLES: usize = 96_000;

/// Normalization scanned from position `i`, with `out` produced so far and
/// `gap` telling whether a space is owed before the next word.
pub open spec fn squash_from(s: Seq<char>, i: int, out: Seq<char>, gap: bool) -> Seq<char>
    decreases s.len() - i,
{
    if i < 0 || i >= s.len() {
        out
    } else if is_punctuation(s[i]) {
        squash_from(s, i + 1, out, gap)
    } else if is_white_space(s[i]) {
        squash_from(s, i + 1, out, out.len() > 0)
    } else {
        let o = if gap {
            out.push(' ')
        } else {
            out
        };
        squash_from(s, i + 1, o.push(s[i]), false)
    }
}

/// `s` without punctuation, its words separated by single spaces.
pub open spec fn squashed(s: Seq<char>) -> Seq<char> {
    squash_from(s, 0, Seq::empty(), false)
}

/// Levenshtein distance: fewest insertions, deletions and substitutions.
pub open spec fn lev(a: Seq<char>, b: Seq<char>) -> nat
    decreases a.len() + b.len(),
{
    if a.len() == 0 {
        b.len()
    } else if b.len() == 0 {
        a.len()
    } else {
        let x = lev(a.drop_last(), b) + 1;
        let y = lev(a, b.drop_last()) + 1;
        let z = lev(a.drop_last(), b.drop_last()) + (if a.last() == b.last() {
            0nat
        } else {
            1nat
        });
        if x <= y && x <= z {
            x
        } else if y <= z {
            y
        } else {
            z
        }
    }
}

pub open spec fn max(a: int, b: int) -> int {
    if a < b {
        b
    } else {
        a
    }
}

/// `w` is within the tolerance of `p`: edit distance over the longer length.
pub open spec fn close(p: Seq<char>, w: Seq<char>) -> bool {
    lev(p, w) * 100 <= FUZZY_TOLERANCE_PCT * max(p.len() as int, w.len() as int)
}

pub open spec fn occurs_at(d: Seq<char>, p: Seq<char>, i: int) -> bool {
    0 <= i && i + p.len() <= d.len() && d.subrange(i, i + p.len()) == p
}

pub open spec fn occurs(d: Seq<char>, p: Seq<char>) -> bool {
    exists|i: int| #[trigger] occurs_at(d, p, i)
}

pub open spec fn spaces(s: Seq<char>) -> nat
    decreases s.len(),
{
    if s.len() == 0 {
        0
    } else {
        spaces(s.drop_last()) + (if s.last() == ' ' {
            1nat
        } else {
            0nat
        })
    }
}

/// A word of `d` starts at `a`.
pub open spec fn word_start(d: Seq<char>, a: int) -> bool {
    0 <= a < d.len() && (a == 0 || d[a - 1] == ' ')
}

/// End of the run of words that starts at `a` and spans `k` spaces: the
/// next space after those, or the end of `d`; `-1` when fewer than `k`
/// spaces follow, so that the run would hold fewer words.
pub open spec fn words_end(d: Seq<char>, a: int, k: int) -> int
    decreases d.len() - a,
{
    if a < 0 || a >= d.len() {
        if k <= 0 {
            d.len() as int
        } else {
            -1
        }
    } else if d[a] == ' ' {
        if k <= 0 {
            a
        } else {
            words_end(d, a + 1, k - 1)
        }
    } else {
        words_end(d, a + 1, k)
    }
}

/// A normalized phrase matches normalized text.
pub open spec fn phrase_matches(p: Seq<char>, d: Seq<char>) -> bool {
    &&& p.len() > 0
    &&& {
        ||| occurs(d, p)
        ||| exists|a: int|
            #[trigger] word_start(d, a) && words_end(d, a, spaces(p) as int) >= 0 && close(
                p,
                d.subrange(a, words_end(d, a, spaces(p) as int)),
            )
    }
}

/// Normalizes lower-cased text: see [`squashed`].
pub fn squash(s: &Vec<char>) -> (r: Vec<char>)
    ensures
        r@ == squashed(s@),
{
    let mut out: Vec<char> = Vec::new();
    let mut gap = false;
    let mut i: usize = 0;
    while i < s.len()
        invariant
            i <= s@.len(),
            squash_from(s@, i as int, out@, gap) == squashed(s@),
        decreases s@.len() - i,
    {
        let c = s[i];
        if punctuation(c) {
        } else if white_space(c) {
            gap = out.len() > 0;
        } else {
            if gap {
                out.push(' ');
            }
            out.push(c);
            gap = false;
        }
        i += 1;
    }
    out
}

proof fn lemma_lev_bound(a: Seq<char>, b: Seq<char>)
    ensures
        lev(a, b) <= max(a.len() as int, b.len() as int),
    decreases a.len() + b.len(),
{
    if a.len() > 0 && b.len() > 0 {
        lemma_lev_bound(a.drop_last(), b.drop_last());
    }
}

/// Edit distance of two character sequences, by dynamic programming over
/// prefixes.
pub fn edit_distance(a: &Vec<char>, b: &Vec<char>) -> (r: usize)
    ensures
        r == lev(a@, b@),
{
    let n = a.len();
    let m = b.len();
    let mut prev: Vec<usize> = Vec::new();
    assert(a@.take(0).len() == 0);
    assert(b@.take(0).len() == 0);
    prev.push(0);
    let mut j: usize = 0;
    while j < m
        invariant
            j <= m,
            m == b@.len(),
            prev@.len() == j + 1,
            forall|k: int| 0 <= k <= j ==> prev@[k] == lev(a@.take(0), b@.take(k)),
        decreases m - j,
    {
        assert(a@.take(0).len() == 0);
        assert(b@.take(j + 1).len() == j + 1);
        prev.push(j + 1);
        j += 1;
    }
    let mut i: usize = 0;
    while i < n
        invariant
            i <= n,
            n == a@.len(),
            m == b@.len(),
            prev@.len() == m + 1,
            forall|k: int| 0 <= k <= m ==> prev@[k] == lev(a@.take(i as int), b@.take(k)),
        decreases n - i,
    {
        let ghost ai = a@.take(i as int);
        let ghost ai1 = a@.take(i + 1);
        assert(ai1.drop_last() =~= ai);
        assert(ai1.last() == a@[i as int]);
        let mut cur: Vec<usize> = Vec::new();
        assert(b@.take(0).len() == 0);
        cur.push(i + 1);
        let mut j: usize = 0;
        while j < m
            invariant
                i < n,
                n == a@.len(),
                m == b@.len(),
                j <= m,
                prev@.len() == m + 1,
                ai == a@.take(i as int),
                ai1 == a@.take(i + 1),
                ai1.drop_last() == ai,
                ai1.last() == a@[i as int],
                forall|k: int| 0 <= k <= m ==> prev@[k] == lev(ai, b@.take(k)),
                cur@.len() == j + 1,
                forall|k: int| 0 <= k <= j ==> cur@[k] == lev(ai1, b@.take(k)),
            decreases m - j,
        {
            let ghost bj1 = b@.take(j + 1);
            assert(bj1.drop_last() =~= b@.take(j as int));
            assert(bj1.last() == b@[j as int]);
            proof {
                lemma_lev_bound(ai1, bj1);
            }
            let x = prev[j + 1] as u128 + 1;
            let y = cur[j] as u128 + 1;
            let z = prev[j] as u128 + if a[i] == b[j] {
                0
            } else {
                1
            };
            let v = if x <= y && x <= z {
                x
            } else if y <= z {
                y
            } else {
                z
            };
            assert(v == lev(ai1, bj1));
            cur.push(v as usize);
            j += 1;
        }
        prev = cur;
        i += 1;
    }
    assert(a@.take(n as int) =~= a@);
    assert(b@.take(m as int) =~= b@);
    prev[m]
}

fn occurs_at_exec(d: &Vec<char>, p: &Vec<char>, i: usize) -> (r: bool)
    requires
        i + p@.len() <= d@.len(),
    ensures
        r == occurs_at(d@, p@, i as int),
{
    let dn = d.len();
    let mut k: usize = 0;
    while k < p.len()
        invariant
            dn == d@.len(),
            i + p@.len() <= d@.len(),
            k <= p@.len(),
            forall|t: int| 0 <= t < k ==> d@[i + t] == p@[t],
        decreases p@.len() - k,
    {
        assert(i + k < d@.len());
        if d[i + k] != p[k] {
            assert(d@.subrange(i as int, i + p@.len())[k as int] != p@[k as int]);
            return false;
        }
        k += 1;
    }
    assert(d@.subrange(i as int, i + p@.len()) =~= p@);
    true
}

/// Whether `p` occurs in `d`.
pub fn occurs_in(d: &Vec<char>, p: &Vec<char>) -> (r: bool)
    ensures
        r == occurs(d@, p@),
{
    if p.len() == 0 {
        assert(d@.subrange(0, 0) =~= p@);
        assert(occurs_at(d@, p@, 0));
        return true;
    }
    if p.len() > d.len() {
        return false;
    }
    let dn = d.len();
    let last = dn - p.len();
    let mut i: usize = 0;
    while i <= last
        invariant
            dn == d@.len(),
            last == d@.len() - p@.len(),
            0 < p@.len() <= d@.len(),
            i <= last + 1,
            forall|t: int| 0 <= t < i ==> !#[trigger] occurs_at(d@, p@, t),
        decreases last + 1 - i,
    {
        if occurs_at_exec(d, p, i) {
            return true;
        }
        i += 1;
    }
    false
}

fn count_spaces(s: &Vec<char>) -> (r: usize)
    ensures
        r == spaces(s@),
{
    let mut c: usize = 0;
    let mut i: usize = 0;
    while i < s.len()
        invariant
            i <= s@.len(),
            c == spaces(s@.take(i as int)),
            c <= i,
        decreases s@.len() - i,
    {
        let ghost t = s@.take(i + 1);
        assert(t.drop_last() =~= s@.take(i as int));
        if s[i] == ' ' {
            c += 1;
        }
        i += 1;
    }
    assert(s@.take(s@.len() as int) =~= s@);
    c
}

fn words_end_exec(d: &Vec<char>, a: usize, k: usize) -> (r: Option<usize>)
    requires
        a < d@.len(),
    ensures
        r is None <==> words_end(d@, a as int, k as int) < 0,
        r matches Some(e) ==> e == words_end(d@, a as int, k as int) && a <= e <= d@.len(),
{
    let mut i = a;
    let mut left = k;
    while i < d.len()
        invariant
            a <= i <= d@.len(),
            words_end(d@, i as int, left as int) == words_end(d@, a as int, k as int),
        decreases d@.len() - i,
    {
        if d[i] == ' ' {
            if left == 0 {
                return Some(i);
            }
            left -= 1;
        }
        i += 1;
    }
    if left == 0 {
        Some(i)
    } else {
        None
    }
}

/// Whether `w` is within the tolerance of `p`.
pub fn is_close(p: &Vec<char>, w: &Vec<char>) -> (r: bool)
    ensures
        r == close(p@, w@),
{
    let d = edit_distance(p, w) as u128;
    let longest = if p.len() < w.len() {
        w.len()
    } else {
        p.len()
    } as u128;
    d * 100 <= 35 * longest
}

fn copy_chars(s: &Vec<char>, lo: usize, hi: usize) -> (r: Vec<char>)
    requires
        lo <= hi <= s@.len(),
    ensures
        r@ == s@.subrange(lo as int, hi as int),
{
    let mut r: Vec<char> = Vec::new();
    let mut i = lo;
    while i < hi
        invariant
            lo <= i <= hi <= s@.len(),
            r@ == s@.subrange(lo as int, i as int),
        decreases hi - i,
    {
        r.push(s[i]);
        i += 1;
        assert(r@ =~= s@.subrange(lo as int, i as int));
    }
    r
}

/// Matching of a phrase against decoded text, both already normalized.
pub fn matches_normalized(p: &Vec<char>, d: &Vec<char>) -> (r: bool)
    ensures
        r == phrase_matches(p@, d@),
{
    if p.len() == 0 {
        return false;
    }
    if occurs_in(d, p) {
        return true;
    }
    let words = count_spaces(p);
    let mut a: usize = 0;
    while a < d.len()
        invariant
            a <= d@.len(),
            p@.len() > 0,
            words == spaces(p@),
            forall|t: int|
                0 <= t < a && #[trigger] word_start(d@, t) && words_end(d@, t, spaces(p@) as int)
                    >= 0 ==> !close(p@, d@.subrange(t, words_end(d@, t, spaces(p@) as int))),
        decreases d@.len() - a,
    {
        if a == 0 || d[a - 1] == ' ' {
            match words_end_exec(d, a, words) {
                Some(e) => {
                    let w = copy_chars(d, a, e);
                    if is_close(p, &w) {
                        assert(word_start(d@, a as int));
                        return true;
                    }
                },
                None => {},
            }
        }
        a += 1;
    }
    false
}

/// Whether a wake phrase matches decoded text, both lower-cased by the
/// caller.
pub fn fuzzy_match_lowered(phrase: &str, decoded: &str) -> (r: bool)
    ensures
        r == phrase_matches(squashed(phrase@), squashed(decoded@)),
{
    let p = squash(&chars_of(phrase));
    let d = squash(&chars_of(decoded));
    matches_normalized(&p, &d)
}

/// Whether a wake phrase matches decoded text, regardless of case.
pub fn fuzzy_match(phrase: &str, decoded: &str) -> (r: bool)
    ensures
        r == phrase_matches(squashed(lower_of(phrase@)), squashed(lower_of(decoded@))),
{
    let p = lowercase(phrase);
    let d = lowercase(decoded);
    fuzzy_match_lowered(p.as_str(), d.as_str())
}

/// The first of the configured phrases that matches decoded text.
pub fn match_phrases(phrases: &Vec<String>, decoded: &str) -> (r: Option<usize>)
    ensures
        r matches Some(i) ==> i < phrases@.len() && phrase_matches(
            squashed(lower_of(phrases@[i as int]@)),
            squashed(lower_of(decoded@)),
        ) && forall|j: int|
            0 <= j < i ==> !phrase_matches(
                squashed(lower_of(#[trigger] phrases@[j]@)),
                squashed(lower_of(decoded@)),
            ),
        r is None ==> forall|j: int|
            0 <= j < phrases@.len() ==> !phrase_matches(
                squashed(lower_of(#[trigger] phrases@[j]@)),
                squashed(lower_of(decoded@)),
            ),
{
    let mut i: usize = 0;
    while i < phrases.len()
        invariant
            i <= phrases@.len(),
            forall|j: int|
                0 <= j < i ==> !phrase_matches(
                    squashed(lower_of(#[trigger] phrases@[j]@)),
                    squashed(lower_of(decoded@)),
                ),
        decreases phrases@.len() - i,
    {
        if fuzzy_match(phrases[i].as_str(), decoded) {
            return Some(i);
        }
        i += 1;
    }
    None
}

} // verus!
