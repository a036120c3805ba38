//! Conditioning of captured audio before it is decoded or kept as a
//! training sample: frame loudness, peak normalization and trimming of
//! leading and trailing silence.
//!
//! Samples are `i32` values in millionths of full scale.

use vstd::prelude::*;

verus! {

/// Peak that normalization raises quiet audio to: 0.95 of full scale.
pub const PEAK_TARGET: i32 = 950_000;

/// Peak at or below which audio counts as silent and is left alone.
pub const PEAK_FLOOR: i32 = 1_000;

/// Window of the decoder-side trimming: 20 ms at the model rate.
pub const TRIM_WINDOW: usize = 320;

/// RMS a window must exceed to be kept by the decoder-side trimming.
pub const TRIM_THRESHOLD: u32 = 10_000;

/// Window of the training-side trimming: 20 ms at the capture rate.
pub const TRAIN_WINDOW: usize = 960;

/// Audio kept on each side of the speech of a training sample: 50 ms at the
/// capture rate.
pub const TRAIN_PADDING: usize = 2400;

/// RMS a window must exceed to count as speech in a training sample.
pub const TRAIN_THRESHOLD: u32 = 20_000;

/// Sum of the squared samples.
pub open spec fn energy(s: Seq<i32>) -> int
    decreases s.len(),
{
    if s.len() == 0 {
        0
    } else {
        energy(s.drop_last()) + s.last() * s.last()
    }
}

/// The RMS of a non-empty run of samples exceeds `thr`, stated without the
/// root: the mean square exceeds `thr` squared.
pub open spec fn exceeds(s: Seq<i32>, thr: int) -> bool {
    s.len() > 0 && energy(s) > thr * thr * s.len()
}

pub open spec fn min(a: int, b: int) -> int {
    if a < b {
        a
    } else {
        b
    }
}

/// The `k`-th window of width `w`; the last one may be shorter.
pub open spec fn window(s: Seq<i32>, w: int, k: int) -> Seq<i32> {
    s.subrange(k * w, min(k * w + w, s.len() as int))
}

pub open spec fn has_window(s: Seq<i32>, w: int, k: int) -> bool {
    0 <= k && k * w < s.len()
}

pub open spec fn loud_window(s: Seq<i32>, w: int, thr: int, k: int) -> bool {
    has_window(s, w, k) && exceeds(window(s, w, k), thr)
}

/// Windows `f` and `l` are the first and the last loud window.
pub open spec fn loud_span(s: Seq<i32>, w: int, thr: int, f: int, l: int) -> bool {
    &&& loud_window(s, w, thr, f)
    &&& loud_window(s, w, thr, l)
    &&& forall|k: int| #[trigger] loud_window(s, w, thr, k) ==> f <= k <= l
}

pub open spec fn any_loud(s: Seq<i32>, w: int, thr: int) -> bool {
    exists|k: int| #[trigger] loud_window(s, w, thr, k)
}

/// Where the span ending with window `l` ends.
pub open spec fn span_end(s: Seq<i32>, w: int, l: int) -> int {
    min(l * w + w, s.len() as int)
}

/// From the first to the end of the last window whose RMS exceeds `thr`.
/// Audio shorter than one window is kept whole; audio with no such window
/// leaves nothing.
pub open spec fn trimmed(s: Seq<i32>, w: int, thr: int) -> Seq<i32> {
    if s.len() < w {
        s
    } else if any_loud(s, w, thr) {
        let (f, l) = choose|f: int, l: int| loud_span(s, w, thr, f, l);
        s.subrange(f * w, span_end(s, w, l))
    } else {
        Seq::empty()
    }
}

/// Trimming of a training sample: the loud span widened by `pad` on each
/// side within the audio. Audio shorter than a window, or with no loud
/// window, is kept whole.
pub open spec fn padded_trim(s: Seq<i32>, w: int, thr: int, pad: int) -> Seq<i32> {
    if s.len() < w || !any_loud(s, w, thr) {
        s
    } else {
        let (f, l) = choose|f: int, l: int| loud_span(s, w, thr, f, l);
        let start = if f * w >= pad {
            f * w - pad
        } else {
            0
        };
        s.subrange(start, min(span_end(s, w, l) + pad, s.len() as int))
    }
}

pub open spec fn abs(x: int) -> int {
    if x < 0 {
        -x
    } else {
        x
    }
}

/// Largest magnitude of any sample.
pub open spec fn peak(s: Seq<i32>) -> int
    decreases s.len(),
{
    if s.len() == 0 {
        0
    } else {
        let a = abs(s.last() as int);
        let q = peak(s.drop_last());
        if a > q {
            a
        } else {
            q
        }
    }
}

/// `x` scaled by `PEAK_TARGET / p`, rounded toward zero.
pub open spec fn scaled(x: i32, p: int) -> int {
    if x >= 0 {
        x * PEAK_TARGET / p
    } else {
        -((-x) * PEAK_TARGET / p)
    }
}

/// Audio whose peak lies strictly between the floor and the target is
/// scaled so that its peak reaches the target; other audio is unchanged.
pub open spec fn normalized(s: Seq<i32>) -> Seq<i32> {
    let p = peak(s);
    if PEAK_FLOOR < p < PEAK_TARGET {
        Seq::new(s.len(), |i: int| scaled(s[i], p) as i32)
    } else {
        s
    }
}

proof fn lemma_peak_bounds(s: Seq<i32>)
    ensures
        forall|i: int| 0 <= i < s.len() ==> abs(#[trigger] s[i] as int) <= peak(s),
        0 <= peak(s),
        s.len() > 0 ==> exists|i: int| 0 <= i < s.len() && abs(#[trigger] s[i] as int) == peak(s),
    decreases s.len(),
{
    if s.len() > 0 {
        let t = s.drop_last();
        lemma_peak_bounds(t);
        assert forall|i: int| 0 <= i < s.len() implies abs(#[trigger] s[i] as int) <= peak(s) by {
            if i < s.len() - 1 {
                assert(s[i] == t[i]);
            }
        }
        if abs(s.last() as int) <= peak(t) && t.len() > 0 {
            let j = choose|j: int| 0 <= j < t.len() && abs(#[trigger] t[j] as int) == peak(t);
            assert(s[j] == t[j]);
        } else {
            assert(s[s.len() - 1] == s.last());
        }
    }
}

proof fn lemma_scaled_bound(x: i32, p: int)
    requires
        abs(x as int) <= p,
        0 < p,
    ensures
        abs(scaled(x, p)) <= PEAK_TARGET,
{
    let m = abs(x as int);
    assert(m * PEAK_TARGET <= p * PEAK_TARGET) by (nonlinear_arith)
        requires
            m <= p,
            0 <= m,
    ;
    assert(m * PEAK_TARGET / p <= PEAK_TARGET) by (nonlinear_arith)
        requires
            m * PEAK_TARGET <= p * PEAK_TARGET,
            0 < p,
            0 <= m,
    ;
    assert(m * PEAK_TARGET / p >= 0) by (nonlinear_arith)
        requires
            0 < p,
            0 <= m,
    ;
}

/// Normalization never leaves a sample above the target peak unless the
/// audio already peaked above it, and it leaves audio untouched whose peak
/// is at or above the target or at or below the silence floor.
pub proof fn normalization_bounded(s: Seq<i32>)
    ensures
        normalized(s).len() == s.len(),
        peak(s) <= PEAK_TARGET ==> forall|i: int|
            0 <= i < s.len() ==> abs(#[trigger] normalized(s)[i] as int) <= PEAK_TARGET,
        (peak(s) >= PEAK_TARGET || peak(s) <= PEAK_FLOOR) ==> normalized(s) == s,
{
    lemma_peak_bounds(s);
    let p = peak(s);
    if PEAK_FLOOR < p < PEAK_TARGET {
        assert forall|i: int| 0 <= i < s.len() implies abs(
            #[trigger] normalized(s)[i] as int,
        ) <= PEAK_TARGET by {
            lemma_scaled_bound(s[i], p);
        }
    }
}

proof fn lemma_mul_le(a: int, b: int, w: int)
    requires
        a <= b,
        0 <= w,
    ensures
        a * w <= b * w,
{
    assert(a * w <= b * w) by (nonlinear_arith)
        requires
            a <= b,
            0 <= w,
    ;
}

proof fn lemma_mul_succ(k: int, w: int)
    ensures
        (k + 1) * w == k * w + w,
{
    assert((k + 1) * w == k * w + w) by (nonlinear_arith);
}

proof fn lemma_span_unique(s: Seq<i32>, w: int, thr: int, f: int, l: int, g: int, m: int)
    requires
        loud_span(s, w, thr, f, l),
        loud_span(s, w, thr, g, m),
    ensures
        f == g && l == m,
{
    assert(loud_window(s, w, thr, g));
    assert(loud_window(s, w, thr, f));
    assert(loud_window(s, w, thr, l));
    assert(loud_window(s, w, thr, m));
}

proof fn lemma_mul_add(a: int, b: int, w: int)
    ensures
        (a + b) * w == a * w + b * w,
{
    assert((a + b) * w == a * w + b * w) by (nonlinear_arith);
}

proof fn lemma_first_loud(s: Seq<i32>, w: int, thr: int, k: int)
    requires
        loud_window(s, w, thr, k),
    ensures
        exists|f: int|
            loud_window(s, w, thr, f) && f <= k && forall|j: int|
                #[trigger] loud_window(s, w, thr, j) ==> f <= j,
    decreases k,
{
    if exists|j: int| #[trigger] loud_window(s, w, thr, j) && j < k {
        let j = choose|j: int| #[trigger] loud_window(s, w, thr, j) && j < k;
        lemma_first_loud(s, w, thr, j);
    }
}

proof fn lemma_last_loud(s: Seq<i32>, w: int, thr: int, k: int)
    requires
        w > 0,
        loud_window(s, w, thr, k),
    ensures
        exists|l: int|
            loud_window(s, w, thr, l) && k <= l && forall|j: int|
                #[trigger] loud_window(s, w, thr, j) ==> j <= l,
    decreases s.len() - k,
{
    lemma_mul_le(0, k, w);
    assert(k * 1 <= k * w) by (nonlinear_arith)
        requires
            w >= 1,
            k >= 0,
    ;
    if exists|j: int| #[trigger] loud_window(s, w, thr, j) && j > k {
        let j = choose|j: int| #[trigger] loud_window(s, w, thr, j) && j > k;
        assert(j * 1 <= j * w) by (nonlinear_arith)
            requires
                w >= 1,
                j >= 0,
        ;
        lemma_last_loud(s, w, thr, j);
    }
}

proof fn lemma_span_exists(s: Seq<i32>, w: int, thr: int)
    requires
        w > 0,
        any_loud(s, w, thr),
    ensures
        exists|f: int, l: int| loud_span(s, w, thr, f, l),
{
    let k = choose|k: int| #[trigger] loud_window(s, w, thr, k);
    lemma_first_loud(s, w, thr, k);
    lemma_last_loud(s, w, thr, k);
    let f = choose|f: int|
        loud_window(s, w, thr, f) && f <= k && forall|j: int|
            #[trigger] loud_window(s, w, thr, j) ==> f <= j;
    let l = choose|l: int|
        loud_window(s, w, thr, l) && k <= l && forall|j: int|
            #[trigger] loud_window(s, w, thr, j) ==> j <= l;
    assert(loud_span(s, w, thr, f, l));
}

/// The windows of a trimmed span are the windows of the span itself.
proof fn lemma_span_windows(s: Seq<i32>, w: int, thr: int, f: int, l: int, j: int)
    requires
        w > 0,
        loud_span(s, w, thr, f, l),
    ensures
        ({
            let r = s.subrange(f * w, span_end(s, w, l));
            &&& 0 <= j <= l - f ==> has_window(r, w, j) && window(r, w, j) == window(s, w, f + j)
            &&& j > l - f ==> !has_window(r, w, j)
        }),
{
    let e = span_end(s, w, l);
    let r = s.subrange(f * w, e);
    lemma_mul_le(f, l, w);
    lemma_mul_le(0, f, w);
    lemma_mul_add(f, j, w);
    lemma_mul_add(l - f, f, w);
    lemma_mul_succ(l - f, w);
    assert(r.len() == e - f * w);
    if 0 <= j <= l - f {
        lemma_mul_le(f + j, l, w);
        lemma_mul_le(0, j, w);
        assert(window(r, w, j) =~= window(s, w, f + j));
    }
    if j > l - f {
        lemma_mul_le(l - f + 1, j, w);
    }
}

/// Trimming is idempotent: trimming audio that was already trimmed leaves
/// it unchanged.
pub proof fn trimming_idempotent(s: Seq<i32>, w: int, thr: int)
    requires
        w > 0,
    ensures
        trimmed(trimmed(s, w, thr), w, thr) == trimmed(s, w, thr),
{
    if s.len() >= w && any_loud(s, w, thr) {
        lemma_span_exists(s, w, thr);
        let (f, l) = choose|f: int, l: int| loud_span(s, w, thr, f, l);
        let r = s.subrange(f * w, span_end(s, w, l));
        assert(trimmed(s, w, thr) == r);
        if r.len() >= w {
            lemma_span_windows(s, w, thr, f, l, 0);
            lemma_span_windows(s, w, thr, f, l, l - f);
            assert(loud_window(r, w, thr, 0));
            assert forall|k: int| #[trigger] loud_window(r, w, thr, k) implies 0 <= k <= l - f by {
                lemma_span_windows(s, w, thr, f, l, k);
            }
            assert(loud_span(r, w, thr, 0, l - f));
            assert(any_loud(r, w, thr));
            let (g, m) = choose|g: int, m: int| loud_span(r, w, thr, g, m);
            lemma_span_unique(r, w, thr, 0, l - f, g, m);
            lemma_mul_add(l - f, f, w);
            lemma_mul_succ(l - f, w);
            lemma_mul_le(0, f, w);
            assert(span_end(r, w, l - f) == r.len());
            assert(r.subrange(0, r.len() as int) =~= r);
        }
    }
}

/// Copy of `s[lo..hi]`.
pub fn copy_range(s: &Vec<i32>, lo: usize, hi: usize) -> (r: Vec<i32>)
    requires
        lo <= hi <= s@.len(),
    ensures
        r@ == s@.subrange(lo as int, hi as int),
{
    let mut r: Vec<i32> = Vec::new();
    let mut i = lo;
    while i < hi
        invariant
            lo <= i <= hi <= s@.len(),
            r@ == s@.subrange(lo as int, i as int),
        decreases hi - i,
    {
        r.push(s[i]);
        i += 1;
        assert(r@ =~= s@.subrange(lo as int, i as int));
    }
    r
}

/// Energy of `s[lo..hi]`.
fn range_energy(s: &Vec<i32>, lo: usize, hi: usize) -> (r: u128)
    requires
        lo <= hi <= s@.len(),
    ensures
        r == energy(s@.subrange(lo as int, hi as int)),
{
    let mut acc: u128 = 0;
    let mut i = lo;
    while i < hi
        invariant
            lo <= i <= hi <= s@.len(),
            acc == energy(s@.subrange(lo as int, i as int)),
            acc <= (i - lo) * 0x4000_0000_0000_0000,
        decreases hi - i,
    {
        let v = s[i] as i128;
        assert(v * v <= 0x4000_0000_0000_0000) by (nonlinear_arith)
            requires
                -0x8000_0000 <= v < 0x8000_0000,
        ;
        assert(v * v >= 0) by (nonlinear_arith);
        assert((i - lo) * 0x4000_0000_0000_0000 <= 0xffff_ffff_ffff_ffff * 0x4000_0000_0000_0000)
            by (nonlinear_arith)
            requires
                i - lo <= 0xffff_ffff_ffff_ffff,
        ;
        acc = acc + (v * v) as u128;
        i += 1;
        let ghost t = s@.subrange(lo as int, i as int);
        assert(t.drop_last() =~= s@.subrange(lo as int, i - 1));
        assert(t.last() == s@[i - 1]);
    }
    acc
}

/// Whether the RMS of `s[lo..hi]` exceeds `thr`.
fn range_exceeds(s: &Vec<i32>, lo: usize, hi: usize, thr: u32) -> (r: bool)
    requires
        lo < hi <= s@.len(),
    ensures
        r == exceeds(s@.subrange(lo as int, hi as int), thr as int),
{
    let e = range_energy(s, lo, hi);
    let t = thr as u128;
    let n = (hi - lo) as u128;
    assert(t * t <= 0xffff_fffe_0000_0001) by (nonlinear_arith)
        requires
            t <= 0xffff_ffff,
    ;
    assert(t * t * n <= 0xffff_fffe_0000_0001 * 0xffff_ffff_ffff_ffff) by (nonlinear_arith)
        requires
            t * t <= 0xffff_fffe_0000_0001,
            n <= 0xffff_ffff_ffff_ffff,
    ;
    e > t * t * n
}

/// Whether the RMS of a frame exceeds `thr`; an empty frame is never loud.
pub fn is_loud_frame(frame: &Vec<i32>, thr: u32) -> (r: bool)
    ensures
        r == exceeds(frame@, thr as int),
{
    if frame.len() == 0 {
        return false;
    }
    let r = range_exceeds(frame, 0, frame.len(), thr);
    assert(frame@.subrange(0, frame@.len() as int) =~= frame@);
    r
}

/// The first and the last window of width `w` whose RMS exceeds `thr`.
pub fn find_loud_span(s: &Vec<i32>, w: usize, thr: u32) -> (r: Option<(usize, usize)>)
    requires
        w > 0,
    ensures
        r is None <==> !any_loud(s@, w as int, thr as int),
        r matches Some((f, l)) ==> loud_span(s@, w as int, thr as int, f as int, l as int),
{
    let n = s.len();
    let ghost sw = w as int;
    let ghost st = thr as int;
    let mut k: usize = 0;
    let mut pos: usize = 0;
    let mut more = n > 0;
    let mut first: Option<usize> = None;
    let mut last: usize = 0;
    while more
        invariant
            w > 0,
            sw == w as int,
            st == thr as int,
            n == s@.len(),
            more ==> pos == k * w && k <= pos < n,
            !more ==> forall|j: int| j >= k ==> !#[trigger] has_window(s@, sw, j),
            first is None ==> forall|j: int| 0 <= j < k ==> !#[trigger] loud_window(s@, sw, st, j),
            first matches Some(f) ==> {
                &&& f <= last < k
                &&& loud_window(s@, sw, st, f as int)
                &&& loud_window(s@, sw, st, last as int)
                &&& forall|j: int|
                    0 <= j < k && #[trigger] loud_window(s@, sw, st, j) ==> f <= j <= last
            },
        decreases n - pos + (if more { 1int } else { 0 }),
    {
        let end = if n - pos <= w {
            n
        } else {
            pos + w
        };
        assert(window(s@, sw, k as int) == s@.subrange(pos as int, end as int));
        if range_exceeds(s, pos, end, thr) {
            assert(loud_window(s@, sw, st, k as int));
            if first.is_none() {
                first = Some(k);
            }
            last = k;
        } else {
            assert(!loud_window(s@, sw, st, k as int));
        }
        proof {
            lemma_mul_succ(k as int, sw);
        }
        if end == n {
            more = false;
            assert forall|j: int| j >= k + 1 implies !#[trigger] has_window(s@, sw, j) by {
                lemma_mul_le(k + 1, j, sw);
            }
        } else {
            pos = end;
        }
        k += 1;
    }
    assert forall|j: int| #[trigger] loud_window(s@, sw, st, j) implies j < k by {
        if j >= k {
            assert(!has_window(s@, sw, j));
        }
    }
    match first {
        Some(f) => Some((f, last)),
        None => None,
    }
}

/// Where the span of windows `f` to `l` starts and ends.
fn span_bounds(s: &Vec<i32>, w: usize, thr: u32, f: usize, l: usize) -> (r: (usize, usize))
    requires
        w > 0,
        loud_span(s@, w as int, thr as int, f as int, l as int),
    ensures
        r.0 == f * w,
        r.1 == span_end(s@, w as int, l as int),
        r.0 <= r.1 <= s@.len(),
{
    let n = s.len();
    proof {
        lemma_mul_le(f as int, l as int, w as int);
    }
    let start = f * w;
    let lw = l * w;
    let end = if n - lw <= w {
        n
    } else {
        lw + w
    };
    (start, end)
}

/// Trims leading and trailing silence in windows of `w` samples: see
/// [`trimmed`].
pub fn trim_silence_with(audio: &Vec<i32>, w: usize, thr: u32) -> (r: Vec<i32>)
    requires
        w > 0,
    ensures
        r@ == trimmed(audio@, w as int, thr as int),
{
    let n = audio.len();
    if n < w {
        return copy_range(audio, 0, n);
    }
    match find_loud_span(audio, w, thr) {
        None => Vec::new(),
        Some((f, l)) => {
            let (start, end) = span_bounds(audio, w, thr, f, l);
            proof {
                let (g, m) = choose|g: int, m: int| loud_span(audio@, w as int, thr as int, g, m);
                lemma_span_unique(audio@, w as int, thr as int, f as int, l as int, g, m);
            }
            copy_range(audio, start, end)
        },
    }
}

/// Trims the silence around decoder input: 20 ms windows at the model rate.
pub fn trim_silence(audio: &Vec<i32>) -> (r: Vec<i32>)
    ensures
        r@ == trimmed(audio@, TRIM_WINDOW as int, TRIM_THRESHOLD as int),
{
    trim_silence_with(audio, TRIM_WINDOW, TRIM_THRESHOLD)
}

/// Trims the silence around a training sample, keeping [`TRAIN_PADDING`] on
/// each side of the speech.
pub fn trim_training_audio(audio: &Vec<i32>) -> (r: Vec<i32>)
    ensures
        r@ == padded_trim(
            audio@,
            TRAIN_WINDOW as int,
            TRAIN_THRESHOLD as int,
            TRAIN_PADDING as int,
        ),
{
    let (lo, hi) = training_bounds(audio);
    copy_range(audio, lo, hi)
}

/// Where the trimmed training sample lies within the recording.
pub fn training_bounds(audio: &Vec<i32>) -> (r: (usize, usize))
    ensures
        r.0 <= r.1 <= audio@.len(),
        audio@.subrange(r.0 as int, r.1 as int) == padded_trim(
            audio@,
            TRAIN_WINDOW as int,
            TRAIN_THRESHOLD as int,
            TRAIN_PADDING as int,
        ),
{
    let n = audio.len();
    if n < TRAIN_WINDOW {
        assert(audio@.subrange(0, n as int) =~= audio@);
        return (0, n);
    }
    match find_loud_span(audio, TRAIN_WINDOW, TRAIN_THRESHOLD) {
        None => {
            assert(audio@.subrange(0, n as int) =~= audio@);
            (0, n)
        },
        Some((f, l)) => {
            let (start, end) = span_bounds(audio, TRAIN_WINDOW, TRAIN_THRESHOLD, f, l);
            proof {
                let (g, m) = choose|g: int, m: int|
                    loud_span(audio@, TRAIN_WINDOW as int, TRAIN_THRESHOLD as int, g, m);
                lemma_span_unique(
                    audio@,
                    TRAIN_WINDOW as int,
                    TRAIN_THRESHOLD as int,
                    f as int,
                    l as int,
                    g,
                    m,
                );
            }
            let lo = if start >= TRAIN_PADDING {
                start - TRAIN_PADDING
            } else {
                0
            };
            let hi = if n - end <= TRAIN_PADDING {
                n
            } else {
                end + TRAIN_PADDING
            };
            (lo, hi)
        },
    }
}

fn magnitude(x: i32) -> (r: i64)
    ensures
        r == abs(x as int),
{
    if x < 0 {
        -(x as i64)
    } else {
        x as i64
    }
}

/// Largest magnitude of any sample.
pub fn peak_of(audio: &Vec<i32>) -> (r: i64)
    ensures
        r == peak(audio@),
{
    let mut acc: i64 = 0;
    let mut i: usize = 0;
    while i < audio.len()
        invariant
            i <= audio@.len(),
            acc == peak(audio@.subrange(0, i as int)),
            0 <= acc <= 0x8000_0000,
        decreases audio@.len() - i,
    {
        let a = magnitude(audio[i]);
        let ghost t = audio@.subrange(0, i + 1);
        assert(t.drop_last() =~= audio@.subrange(0, i as int));
        if a > acc {
            acc = a;
        }
        i += 1;
    }
    assert(audio@.subrange(0, audio@.len() as int) =~= audio@);
    acc
}

fn scale(x: i32, p: i64) -> (r: i32)
    requires
        abs(x as int) <= p,
        0 < p,
    ensures
        r == scaled(x, p as int),
{
    proof {
        lemma_scaled_bound(x, p as int);
    }
    let m = magnitude(x);
    assert(m * 950_000 <= 0x8000_0000 * 950_000) by (nonlinear_arith)
        requires
            0 <= m <= 0x8000_0000,
    ;
    let q = m * 950_000 / p;
    if x >= 0 {
        q as i32
    } else {
        (-q) as i32
    }
}

/// Peak-normalizes audio in place: see [`normalized`].
pub fn normalize_audio(audio: &mut Vec<i32>)
    ensures
        final(audio)@ == normalized(old(audio)@),
{
    let p = peak_of(audio);
    if p <= 1_000 || p >= 950_000 {
        return;
    }
    let ghost orig = audio@;
    proof {
        lemma_peak_bounds(orig);
    }
    let mut i: usize = 0;
    while i < audio.len()
        invariant
            audio@.len() == orig.len(),
            p == peak(orig),
            PEAK_FLOOR < p < PEAK_TARGET,
            i <= orig.len(),
            forall|j: int| 0 <= j < orig.len() ==> abs(#[trigger] orig[j] as int) <= peak(orig),
            forall|j: int| 0 <= j < i ==> audio@[j] == scaled(orig[j], p as int) as i32,
            forall|j: int| i <= j < orig.len() ==> audio@[j] == orig[j],
        decreases orig.len() - i,
    {
        assert(audio@[i as int] == orig[i as int]);
        assert(abs(orig[i as int] as int) <= p);
        let v = scale(audio[i], p);
        audio.set(i, v);
        i += 1;
    }
    assert(audio@ =~= normalized(orig));
}

/// Decoder input as the decoder is given it: normalized, then trimmed.
/// Empty when nothing in it is loud enough to decode.
pub fn prepare_for_decode(audio: &Vec<i32>) -> (r: Vec<i32>)
    ensures
        r@ == trimmed(normalized(audio@), TRIM_WINDOW as int, TRIM_THRESHOLD as int),
{
    let mut processed = copy_range(audio, 0, audio.len());
    assert(processed@ =~= audio@);
    normalize_audio(&mut processed);
    trim_silence(&processed)
}

} // verus!
