//! What happens around a speech-to-text run: the decoding strategy that the
//! beam width selects, whether a model is loaded, and how the decoded
//! segments become the text that is typed.
use vstd::prelude::*;
use crate::text::{
    lemma_strip_both_ends,
    Strip, strip_both, ascii_lower, chars_of, strip_bounds, to_ascii_lower, range_equals,
    is_white_space,
};

verus! {

/// The decoding strategy handed to the speech model.
#[derive(Clone, Copy, Debug, PartialEq, Eq)]
pub enum Sampling {
    /// Beam search over `beam_size` hypotheses (with no patience limit).
    BeamSearch { beam_size: i32 },
    /// Greedy decoding keeping the best of `best_of` candidates.
    Greedy { best_of: i32 },
}

/// The strategy for a configured beam width: beam search from a width of 2
/// up, greedy decoding with a single candidate below that.
pub open spec fn spec_sampling_for(beam_size: u32) -> Sampling {
    if beam_size >= 2 {
        Sampling::BeamSearch { beam_size: beam_size as i32 }
    } else {
        Sampling::Greedy { best_of: 1 }
    }
}

/// Chooses the decoding strategy for a configured beam width.
pub fn sampling_for(beam_size: u32) -> (s: Sampling)
    ensures
        s == spec_sampling_for(beam_size),
        2 <= beam_size <= i32::MAX ==> (s matches Sampling::BeamSearch { beam_size: w } && w as int == beam_size as int),
        beam_size < 2 ==> s == (Sampling::Greedy { best_of: 1 }),
{
    if beam_size >= 2 {
        Sampling::BeamSearch { beam_size: beam_size as i32 }
    } else {
        Sampling::Greedy { best_of: 1 }
    }
}

/// Beam search keeps exactly the configured number of hypotheses for every
/// width from 2 up to the largest the model accepts; below 2 decoding is
/// greedy with a single candidate.
pub proof fn lemma_beam_width_kept(beam_size: u32)
    ensures
        2 <= beam_size <= i32::MAX ==> (spec_sampling_for(beam_size) matches Sampling::BeamSearch {
            beam_size: w,
        } && w as int == beam_size as int),
        beam_size < 2 ==> spec_sampling_for(beam_size) == (Sampling::Greedy { best_of: 1 }),
{
}

/// Errors of a transcription request.
#[derive(Clone, Copy, Debug, PartialEq, Eq)]
pub enum TranscribeError {
    /// No model has been loaded yet.
    ModelNotLoaded,
}

/// The slot that holds the loaded speech model, if any.
pub struct ModelSlot<C> {
    ctx: Option<C>,
}

impl<C> ModelSlot<C> {
    /// What the slot holds.
    pub closed spec fn loaded(&self) -> Option<C> {
        self.ctx
    }

    /// An empty slot: no model loaded.
    pub fn new() -> (s: Self)
        ensures
            s.loaded() is None,
    {
        ModelSlot { ctx: None }
    }

    /// Puts a freshly loaded model into the slot, replacing any earlier one.
    pub fn install(&mut self, ctx: C)
        ensures
            final(self).loaded() == Some(ctx),
    {
        self.ctx = Some(ctx);
    }

    /// The loaded model, or `ModelNotLoaded` while the slot is empty.
    pub fn context(&self) -> (r: Result<&C, TranscribeError>)
        ensures
            match self.loaded() {
                Some(c) => r == Ok::<&C, TranscribeError>(&c),
                None => r == Err::<&C, TranscribeError>(TranscribeError::ModelNotLoaded),
            },
    {
        match &self.ctx {
            Some(c) => Ok(c),
            None => Err(TranscribeError::ModelNotLoaded),
        }
    }
}

/// Whether a model is loaded and transcription can run.
pub fn is_ready<C>(slot: &ModelSlot<C>) -> (b: bool)
    ensures
        b == slot.loaded() is Some,
{
    slot.ctx.is_some()
}

/// The words that the model emits in place of speech.
pub open spec fn is_filler_word(w: Seq<char>) -> bool {
    ||| w == "blank_audio"@
    ||| w == "silence"@
    ||| w == "music"@
    ||| w == "inaudible"@
    ||| w == "no speech"@
}

/// Whether `t` is wrapped in the pair `open` ... `close`.
pub open spec fn wrapped_in(t: Seq<char>, open: char, close: char) -> bool {
    t.len() > 0 && t[0] == open && t.last() == close
}

/// The core of a text: white space trimmed, then full stops and spaces.
pub open spec fn core_of(s: Seq<char>) -> Seq<char> {
    strip_both(Strip::DotOrSpace, strip_both(Strip::WhiteSpace, s))
}

/// A decoded text carries no words: its core is empty, is a bracketed,
/// parenthesised or starred annotation, or is (ignoring ASCII case) one of
/// the model's filler words.
pub open spec fn nonverbal(s: Seq<char>) -> bool {
    let t = core_of(s);
    ||| t.len() == 0
    ||| wrapped_in(t, '[', ']')
    ||| wrapped_in(t, '(', ')')
    ||| wrapped_in(t, '*', '*')
    ||| is_filler_word(t.map_values(|c: char| ascii_lower(c)))
}

/// A text is non-verbal only for one of these reasons, listed in full: its
/// core is empty, wrapped in `[ ]`, `( )` or `* *`, or (ignoring ASCII case)
/// exactly one of the five filler words `blank_audio`, `silence`, `music`,
/// `inaudible`, `no speech`.
pub open spec fn nonverbal_by_list(s: Seq<char>) -> bool {
    let t = strip_both(Strip::DotOrSpace, strip_both(Strip::WhiteSpace, s));
    let w = t.map_values(|c: char| ascii_lower(c));
    ||| t.len() == 0
    ||| (t.len() > 0 && t[0] == '[' && t.last() == ']')
    ||| (t.len() > 0 && t[0] == '(' && t.last() == ')')
    ||| (t.len() > 0 && t[0] == '*' && t.last() == '*')
    ||| w == "blank_audio"@
    ||| w == "silence"@
    ||| w == "music"@
    ||| w == "inaudible"@
    ||| w == "no speech"@
}

/// Whether a text is non-verbal is decided by exactly the listed reasons:
/// any other text (a real sentence such as "Thank you.") is kept.
pub proof fn lemma_nonverbal_exactly_listed(s: Seq<char>)
    ensures
        nonverbal(s) <==> nonverbal_by_list(s),
{
}

/// `v[from..to]` as a vector of its own.
fn sub_chars(v: &Vec<char>, from: usize, to: usize) -> (out: Vec<char>)
    requires
        from <= to <= v.len(),
    ensures
        out@ == v@.subrange(from as int, to as int),
{
    let mut out: Vec<char> = Vec::new();
    let mut i = from;
    while i < to
        invariant
            from <= i <= to <= v.len(),
            out@ == v@.subrange(from as int, i as int),
        decreases to - i,
    {
        out.push(v[i]);
        assert(v@.subrange(from as int, i + 1) == v@.subrange(from as int, i as int).push(v@[i as int]));
        i = i + 1;
    }
    out
}

/// Whether a decoded text carries no words (see `nonverbal`).
pub fn is_nonverbal(s: &str) -> (b: bool)
    ensures
        b == nonverbal(s@),
        b ==> nonverbal_by_list(s@),
{
    let all = chars_of(s);
    let (a, z) = strip_bounds(Strip::WhiteSpace, &all);
    let trimmed = sub_chars(&all, a, z);
    let (c, d) = strip_bounds(Strip::DotOrSpace, &trimmed);
    let t = sub_chars(&trimmed, c, d);
    let ghost tg = core_of(s@);
    assert(t@ == tg);
    let n = t.len();
    if n == 0 {
        return true;
    }
    let first = t[0];
    let last = t[n - 1];
    if (first == '[' && last == ']') || (first == '(' && last == ')') || (first == '*' && last == '*') {
        return true;
    }
    let mut lower: Vec<char> = Vec::new();
    let mut i: usize = 0;
    while i < n
        invariant
            n == t.len(),
            i <= n,
            lower@ == t@.take(i as int).map_values(|c: char| ascii_lower(c)),
        decreases n - i,
    {
        let l = to_ascii_lower(t[i]);
        lower.push(l);
        assert(t@.take(i + 1) == t@.take(i as int).push(t@[i as int]));
        i = i + 1;
    }
    assert(t@.take(n as int) == t@);
    let m = lower.len();
    assert(lower@.subrange(0, m as int) == lower@);
    assert(lower@ == tg.map_values(|c: char| ascii_lower(c)));
    range_equals(&lower, 0, m, "blank_audio") || range_equals(&lower, 0, m, "silence")
        || range_equals(&lower, 0, m, "music") || range_equals(&lower, 0, m, "inaudible")
        || range_equals(&lower, 0, m, "no speech")
}

/// The texts of the decoded segments, one after another.
pub open spec fn joined(segments: Seq<String>) -> Seq<char>
    decreases segments.len(),
{
    if segments.len() == 0 {
        Seq::empty()
    } else {
        joined(segments.drop_last()) + segments.last()@
    }
}

/// The texts of the decoded segments that carry words, one after another:
/// every segment whose own text is `nonverbal` is left out.
pub open spec fn joined_speech(segments: Seq<String>) -> Seq<char>
    decreases segments.len(),
{
    if segments.len() == 0 {
        Seq::empty()
    } else if nonverbal(segments.last()@) {
        joined_speech(segments.drop_last())
    } else {
        joined_speech(segments.drop_last()) + segments.last()@
    }
}

/// The text that a transcription yields for its decoded segments: the
/// segments that carry words, concatenated, with white space trimmed.
pub open spec fn transcript_of(segments: Seq<String>) -> Seq<char> {
    strip_both(Strip::WhiteSpace, joined_speech(segments))
}

/// Turns the decoded segments into the text to type (see `transcript_of`).
pub fn assemble_transcript(segments: &Vec<String>) -> (out: String)
    ensures
        out@ == transcript_of(segments@),
{
    let mut all = String::new();
    let mut i: usize = 0;
    while i < segments.len()
        invariant
            i <= segments.len(),
            all@ == joined_speech(segments@.take(i as int)),
        decreases segments.len() - i,
    {
        if !is_nonverbal(segments[i].as_str()) {
            all.append(segments[i].as_str());
        }
        assert(segments@.take(i + 1).drop_last() == segments@.take(i as int));
        i = i + 1;
    }
    assert(segments@.take(segments.len() as int) == segments@);
    let chars = chars_of(all.as_str());
    let (a, z) = strip_bounds(Strip::WhiteSpace, &chars);
    String::from_str(all.as_str().substring_char(a, z))
}

/// The typed text never starts or ends with white space.
pub proof fn lemma_transcript_is_trimmed(segments: Seq<String>)
    ensures
        transcript_of(segments).len() == 0 || {
            &&& !is_white_space(transcript_of(segments)[0])
            &&& !is_white_space(transcript_of(segments).last())
        },
{
    lemma_strip_both_ends(Strip::WhiteSpace, joined_speech(segments));
}

/// Non-verbal segments are filtered out one by one: when every segment is
/// non-verbal nothing is typed, when none is the whole concatenation is
/// typed (trimmed), and adding a non-verbal segment anywhere after the
/// others changes nothing.
pub proof fn lemma_nonverbal_segments_filtered(segments: Seq<String>, extra: String)
    ensures
        (forall|i: int| 0 <= i < segments.len() ==> nonverbal(#[trigger] segments[i]@)) ==> joined_speech(
            segments,
        ).len() == 0,
        (forall|i: int| 0 <= i < segments.len() ==> !nonverbal(#[trigger] segments[i]@)) ==> joined_speech(
            segments,
        ) == joined(segments),
        nonverbal(extra@) ==> transcript_of(segments.push(extra)) == transcript_of(segments),
    decreases segments.len(),
{
    assert(segments.push(extra).drop_last() == segments);
    if segments.len() > 0 {
        lemma_nonverbal_segments_filtered(segments.drop_last(), extra);
        assert forall|i: int| 0 <= i < segments.drop_last().len() implies segments.drop_last()[i]
            == segments[i] by {}
    }
}

} // verus!
