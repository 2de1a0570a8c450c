//! Silence trimming around detected speech. The detector rates each full
//! chunk of 512 samples (32 ms at 16 kHz); the recording is cut down to the
//! chunks from the first to the last one rated as speech, with a margin of
//! padding chunks on each side.
use vstd::prelude::*;
use vstd::slice::{slice_subrange, slice_to_vec};

verus! {

/// Samples per detector chunk (32 ms at 16 kHz).
pub const CHUNK_SIZE: usize = 512;

/// Sample rate the detector is built for.
pub const SAMPLE_RATE: i64 = 16_000;

/// Chunks of context kept on each side of the speech (about 128 ms).
pub const DEFAULT_PAD_CHUNKS: usize = 4;

/// Whether any chunk was rated as speech.
pub open spec fn has_speech(speech: Seq<bool>) -> bool {
    exists|i: int| 0 <= i < speech.len() && speech[i]
}

/// The first chunk rated as speech.
pub open spec fn first_speech(speech: Seq<bool>) -> int {
    choose|i: int| 0 <= i < speech.len() && speech[i] && forall|j: int| 0 <= j < i ==> !speech[j]
}

/// The last chunk rated as speech.
pub open spec fn last_speech(speech: Seq<bool>) -> int {
    choose|i: int| 0 <= i < speech.len() && speech[i] && forall|j: int| i < j < speech.len() ==> !speech[j]
}

/// The sample range kept for a recording of `len` samples: from `pad_chunks`
/// chunks before the first speech chunk (but not before the start) to
/// `pad_chunks` chunks after the last one (but not past the end); `None`
/// when no chunk is speech.
pub open spec fn spec_speech_span(speech: Seq<bool>, pad_chunks: int, len: int) -> Option<(int, int)> {
    if has_speech(speech) {
        let f = first_speech(speech);
        let l = last_speech(speech);
        let start = if f >= pad_chunks { (f - pad_chunks) * 512 } else { 0 };
        let end = if (l + 1 + pad_chunks) * 512 <= len { (l + 1 + pad_chunks) * 512 } else { len };
        Some((start, end))
    } else {
        None
    }
}

/// Computes `spec_speech_span` for one rating per full chunk of a
/// recording of `len` samples.
pub fn speech_span(speech: &Vec<bool>, pad_chunks: usize, len: usize) -> (r: Option<(usize, usize)>)
    requires
        speech.len() <= len / CHUNK_SIZE,
    ensures
        match r {
            Some((s, e)) => spec_speech_span(speech@, pad_chunks as int, len as int) == Some(
                (s as int, e as int),
            ) && s < e <= len,
            None => spec_speech_span(speech@, pad_chunks as int, len as int) is None,
        },
{
    let n = speech.len();
    let mut f: usize = 0;
    while f < n && !speech[f]
        invariant
            f <= n,
            n == speech.len(),
            forall|j: int| 0 <= j < f ==> !speech@[j],
        decreases n - f,
    {
        f = f + 1;
    }
    if f == n {
        assert(!has_speech(speech@));
        return None;
    }
    let mut l: usize = n - 1;
    while !speech[l]
        invariant
            f <= l < n,
            n == speech.len(),
            speech@[f as int],
            forall|j: int| l < j < n ==> !speech@[j],
        decreases l,
    {
        l = l - 1;
    }
    assert(has_speech(speech@));
    let ghost fs = first_speech(speech@);
    let ghost ls = last_speech(speech@);
    assert(fs == f) by {
        if fs < f {
        } else if fs > f {
            assert(!speech@[f as int]);
        }
    }
    assert(ls == l) by {
        if ls > l {
        } else if ls < l {
            assert(!speech@[l as int]);
        }
    }
    assert(n * 512 <= len) by (nonlinear_arith)
        requires n <= len / 512;
    let start: usize = if f >= pad_chunks { (f - pad_chunks) * CHUNK_SIZE } else { 0 };
    let base: usize = (l + 1) * CHUNK_SIZE;
    let room: usize = len - base;
    let end: usize = if pad_chunks <= room / CHUNK_SIZE {
        assert(pad_chunks * 512 <= room) by (nonlinear_arith)
            requires pad_chunks <= room / 512;
        base + pad_chunks * CHUNK_SIZE
    } else {
        assert(pad_chunks * 512 > room) by (nonlinear_arith)
            requires pad_chunks > room / 512;
        len
    };
    Some((start, end))
}

/// The recording cut to its speech: unchanged when shorter than one chunk,
/// empty when no chunk is speech, else the samples in `spec_speech_span`.
pub open spec fn spec_trim_to_speech<T>(samples: Seq<T>, speech: Seq<bool>, pad_chunks: int) -> Seq<T> {
    if samples.len() < 512 {
        samples
    } else {
        match spec_speech_span(speech, pad_chunks, samples.len() as int) {
            Some((s, e)) => samples.subrange(s, e),
            None => Seq::empty(),
        }
    }
}

/// Cuts a recording down to its speech (see `spec_trim_to_speech`), given
/// the detector's rating of each full chunk, in order.
pub fn trim_to_speech<T: Copy>(samples: Vec<T>, speech: &Vec<bool>, pad_chunks: usize) -> (out: Vec<T>)
    requires
        speech.len() <= samples.len() / CHUNK_SIZE,
    ensures
        out@ == spec_trim_to_speech(samples@, speech@, pad_chunks as int),
{
    if samples.len() < CHUNK_SIZE {
        return samples;
    }
    match speech_span(speech, pad_chunks, samples.len()) {
        Some((start, end)) => slice_to_vec(slice_subrange(samples.as_slice(), start, end)),
        None => Vec::new(),
    }
}

proof fn lemma_first_speech_from(speech: Seq<bool>, k: int)
    requires
        0 <= k <= speech.len(),
        exists|i: int| k <= i < speech.len() && speech[i],
        forall|j: int| 0 <= j < k ==> !speech[j],
    ensures
        exists|i: int| 0 <= i < speech.len() && speech[i] && forall|j: int| 0 <= j < i ==> !speech[j],
    decreases speech.len() - k,
{
    if speech[k] {
        assert(0 <= k < speech.len() && speech[k] && forall|j: int| 0 <= j < k ==> !speech[j]);
    } else {
        lemma_first_speech_from(speech, k + 1);
    }
}

proof fn lemma_last_speech_from(speech: Seq<bool>, k: int)
    requires
        -1 <= k < speech.len(),
        exists|i: int| 0 <= i <= k && speech[i],
        forall|j: int| k < j < speech.len() ==> !speech[j],
    ensures
        exists|i: int| 0 <= i < speech.len() && speech[i] && forall|j: int| i < j < speech.len() ==> !speech[j],
    decreases k + 1,
{
    if speech[k] {
        assert(0 <= k < speech.len() && speech[k] && forall|j: int| k < j < speech.len() ==> !speech[j]);
    } else {
        lemma_last_speech_from(speech, k - 1);
    }
}

/// The first and last speech chunks bound every speech chunk.
pub proof fn lemma_speech_bounds(speech: Seq<bool>)
    requires
        has_speech(speech),
    ensures
        0 <= first_speech(speech) <= last_speech(speech) < speech.len(),
        speech[first_speech(speech)],
        speech[last_speech(speech)],
        forall|i: int| 0 <= i < speech.len() && speech[i] ==> first_speech(speech) <= i <= last_speech(speech),
{
    lemma_first_speech_from(speech, 0);
    lemma_last_speech_from(speech, speech.len() - 1);
}

/// Trimming never cuts speech: every chunk rated as speech lies wholly
/// inside the kept range, which reaches no further than `pad_chunks` chunks
/// beyond the first and the last speech chunk.
pub proof fn lemma_span_keeps_all_speech(speech: Seq<bool>, pad_chunks: int, len: int)
    requires
        pad_chunks >= 0,
        speech.len() * 512 <= len,
        has_speech(speech),
    ensures
        ({
            let (s, e) = spec_speech_span(speech, pad_chunks, len)->Some_0;
            &&& 0 <= s < e <= len
            &&& forall|i: int| 0 <= i < speech.len() && speech[i] ==> s <= i * 512 && (i + 1) * 512 <= e
            &&& s >= (first_speech(speech) - pad_chunks) * 512
            &&& e <= (last_speech(speech) + 1 + pad_chunks) * 512
        }),
{
    lemma_speech_bounds(speech);
    let f = first_speech(speech);
    let l = last_speech(speech);
    let n = speech.len() as int;
    assert((l + 1) * 512 <= len) by (nonlinear_arith)
        requires l + 1 <= n, n * 512 <= len;
    assert((l + 1) * 512 <= (l + 1 + pad_chunks) * 512) by (nonlinear_arith)
        requires pad_chunks >= 0;
    assert(f * 512 < (l + 1) * 512) by (nonlinear_arith)
        requires f <= l;
    assert((f - pad_chunks) * 512 <= f * 512) by (nonlinear_arith)
        requires pad_chunks >= 0;
    assert forall|i: int| 0 <= i < n && speech[i] implies f * 512 <= i * 512 && (i + 1) * 512 <= (l
        + 1) * 512 by {
        assert(f * 512 <= i * 512) by (nonlinear_arith)
            requires f <= i;
        assert((i + 1) * 512 <= (l + 1) * 512) by (nonlinear_arith)
            requires i <= l;
    }
}

/// Trimming is monotone: with fewer chunks rated as speech (as a higher
/// threshold rates them) and no more padding, the kept range is empty or
/// lies within the range kept before.
pub proof fn lemma_span_monotone(
    wide: Seq<bool>,
    narrow: Seq<bool>,
    pad_narrow: int,
    pad_wide: int,
    len: int,
)
    requires
        wide.len() == narrow.len(),
        forall|i: int| 0 <= i < narrow.len() && #[trigger] narrow[i] ==> wide[i],
        0 <= pad_narrow <= pad_wide,
        wide.len() * 512 <= len,
    ensures
        match spec_speech_span(narrow, pad_narrow, len) {
            None => true,
            Some((a2, b2)) => spec_speech_span(wide, pad_wide, len) matches Some((a1, b1)) && a1 <= a2
                && b2 <= b1,
        },
{
    if has_speech(narrow) {
        lemma_speech_bounds(narrow);
        let f2 = first_speech(narrow);
        let l2 = last_speech(narrow);
        assert(wide[f2]);
        assert(has_speech(wide));
        lemma_speech_bounds(wide);
        let f1 = first_speech(wide);
        let l1 = last_speech(wide);
        assert(f1 <= f2 && l2 <= l1);
        let a1 = if f1 >= pad_wide { (f1 - pad_wide) * 512 } else { 0 };
        let a2 = if f2 >= pad_narrow { (f2 - pad_narrow) * 512 } else { 0 };
        if f1 >= pad_wide {
            assert((f1 - pad_wide) * 512 <= (f2 - pad_narrow) * 512) by (nonlinear_arith)
                requires f1 - pad_wide <= f2 - pad_narrow;
        }
        assert(a1 <= a2);
        assert((l2 + 1 + pad_narrow) * 512 <= (l1 + 1 + pad_wide) * 512) by (nonlinear_arith)
            requires l2 + 1 + pad_narrow <= l1 + 1 + pad_wide;
    }
}

} // verus!