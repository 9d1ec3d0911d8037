use vstd::prelude::*;

use crate::keys::{charset_entries, charset_of, is_punct_char, is_punctuation, lemma_charset_shape};

verus! {

/// The class with the highest score among the first `n` classes of the frame
/// whose scores start at `base`, and that score. A class wins only with a
/// score strictly above every earlier one and above 0; with no such class
/// the answer is class 0 with score 0. Offsets past the end of `scores` are
/// skipped.
pub open spec fn best_class(scores: Seq<u32>, base: int, n: int) -> (int, u32)
    decreases n,
{
    if n <= 0 {
        (0, 0u32)
    } else {
        let prev = best_class(scores, base, n - 1);
        let off: int = base + n - 1;
        if 0 <= off < scores.len() && scores[off] > prev.1 {
            (n - 1, scores[off])
        } else {
            prev
        }
    }
}

/// Greedy CTC decoder over the recognizer's output.
///
/// Scores are carried as order keys: each `u32` stands for a confidence and
/// two keys compare as the confidences they stand for, with key 0 for every
/// confidence that is not above zero. `min_score` is the threshold for
/// ordinary characters, `punct_min_score` the one for punctuation, and
/// `punct_relaxed_score` the lower bar at which punctuation is still kept.
pub struct CtcDecoder {
    /// Key table: index 0 is the blank class.
    pub keys: Vec<char>,
    pub min_score: u32,
    pub punct_min_score: u32,
    pub punct_relaxed_score: u32,
}

/// The text carried by decoded characters, in order.
pub open spec fn text_of(chars: Seq<(char, u32)>) -> Seq<char> {
    chars.map_values(|p: (char, u32)| p.0)
}

/// `String::push`: appends one character to the string.
#[verifier::external_body]
fn string_push(s: &mut String, c: char)
    ensures
        final(s)@ == old(s)@.push(c),
{
    s.push(c)
}

/// Collects the characters of a decoding into a string.
pub fn chars_to_string(chars: &Vec<(char, u32)>) -> (s: String)
    ensures
        s@ == text_of(chars@),
        s@.len() == chars@.len(),
        forall|i: int| 0 <= i < chars@.len() ==> #[trigger] s@[i] == chars@[i].0,
{
    let mut s = String::new();
    let mut i: usize = 0;
    while i < chars.len()
        invariant
            i <= chars.len(),
            s@ == text_of(chars@.take(i as int)),
            s@.len() == i,
            forall|k: int| 0 <= k < i ==> #[trigger] s@[k] == chars@[k].0,
        decreases chars.len() - i,
    {
        proof {
            assert(chars@.take(i + 1) =~= chars@.take(i as int).push(chars@[i as int]));
        }
        string_push(&mut s, chars[i].0);
        i += 1;
    }
    proof {
        assert(chars@.take(chars.len() as int) =~= chars@);
    }
    s
}

impl CtcDecoder {
    /// The threshold that a confidence for `ch` must exceed to count as a
    /// confident reading.
    pub open spec fn threshold(&self, ch: char) -> u32 {
        if is_punct_char(ch) {
            self.punct_min_score
        } else {
            self.min_score
        }
    }

    /// One frame of decoding: given the last confidently read character, the
    /// frame's best class and its score, what the frame emits and the new last
    /// character.
    pub open spec fn frame_step(&self, last: Option<char>, idx: int, score: u32) -> (
        Option<(char, u32)>,
        Option<char>,
    ) {
        if 0 < idx < self.keys@.len() {
            let ch = self.keys@[idx];
            if score > self.threshold(ch) {
                if last != Some(ch) || is_punct_char(ch) {
                    (Some((ch, score)), Some(ch))
                } else {
                    (None, Some(ch))
                }
            } else if is_punct_char(ch) && score > self.punct_relaxed_score {
                (Some((ch, score)), last)
            } else {
                (None, None)
            }
        } else {
            (None, None)
        }
    }

    /// Decoding of the first `n` frames (each `vocab` scores wide): the
    /// characters emitted so far and the last confidently read character.
    pub open spec fn decode_frames(&self, scores: Seq<u32>, vocab: int, n: int) -> (
        Seq<(char, u32)>,
        Option<char>,
    )
        decreases n,
    {
        if n <= 0 {
            (Seq::empty(), None)
        } else {
            let prev = self.decode_frames(scores, vocab, n - 1);
            let best = best_class(scores, (n - 1) * vocab, vocab);
            let step = self.frame_step(prev.1, best.0, best.1);
            (
                match step.0 {
                    Some(e) => prev.0.push(e),
                    None => prev.0,
                },
                step.1,
            )
        }
    }

    /// The characters that decoding `seq_len` frames of `vocab` scores emits.
    pub open spec fn decoded(&self, scores: Seq<u32>, seq_len: int, vocab: int) -> Seq<(char, u32)> {
        self.decode_frames(scores, vocab, seq_len).0
    }

    /// Best class of the frame whose scores start at `base`.
    fn frame_best(scores: &[u32], base: usize, vocab_size: usize) -> (r: (usize, u32))
        requires
            base + vocab_size <= usize::MAX,
        ensures
            r.0 == best_class(scores@, base as int, vocab_size as int).0,
            r.1 == best_class(scores@, base as int, vocab_size as int).1,
    {
        let mut max_idx: usize = 0;
        let mut max_score: u32 = 0;
        let mut j: usize = 0;
        while j < vocab_size
            invariant
                j <= vocab_size,
                base + vocab_size <= usize::MAX,
                max_idx == best_class(scores@, base as int, j as int).0,
                max_score == best_class(scores@, base as int, j as int).1,
            decreases vocab_size - j,
        {
            let offset: usize = base + j;
            if offset < scores.len() && scores[offset] > max_score {
                max_score = scores[offset];
                max_idx = j;
            }
            j += 1;
        }
        (max_idx, max_score)
    }

    /// Decodes `sequence_length` frames of `vocab_size` scores each (frame `i`
    /// starts at `i * vocab_size`): each frame's best class is looked up in the
    /// key table and kept when its score clears the character's threshold; a
    /// repeat of the last confident character is merged unless it is
    /// punctuation; punctuation below its threshold but above the relaxed one
    /// is kept without becoming the last character; anything else (blank,
    /// unknown class, low score) ends the current run.
    pub fn decode(&self, scores: &[u32], sequence_length: usize, vocab_size: usize) -> (r: Vec<
        (char, u32),
    >)
        requires
            sequence_length * vocab_size <= usize::MAX,
        ensures
            r@ == self.decoded(scores@, sequence_length as int, vocab_size as int),
    {
        let mut results: Vec<(char, u32)> = Vec::new();
        let mut last_char: Option<char> = None;
        let mut i: usize = 0;
        while i < sequence_length
            invariant
                i <= sequence_length,
                sequence_length * vocab_size <= usize::MAX,
                results@ == self.decode_frames(scores@, vocab_size as int, i as int).0,
                last_char == self.decode_frames(scores@, vocab_size as int, i as int).1,
            decreases sequence_length - i,
        {
            assert(i * vocab_size + vocab_size <= sequence_length * vocab_size) by (nonlinear_arith)
                requires
                    i < sequence_length,
            ;
            let base: usize = i * vocab_size;
            let (max_idx, max_score) = Self::frame_best(scores, base, vocab_size);
            if max_idx > 0 && max_idx < self.keys.len() {
                let ch = self.keys[max_idx];
                let punct = is_punctuation(ch);
                let threshold: u32 = if punct {
                    self.punct_min_score
                } else {
                    self.min_score
                };
                if max_score > threshold {
                    if last_char != Some(ch) || punct {
                        results.push((ch, max_score));
                    }
                    last_char = Some(ch);
                } else {
                    if punct && max_score > self.punct_relaxed_score {
                        results.push((ch, max_score));
                    } else {
                        last_char = None;
                    }
                }
            } else {
                last_char = None;
            }
            i += 1;
        }
        results
    }
}

/// Laws of decoding.
impl CtcDecoder {
    /// A character read with enough confidence to be emitted: a non-blank
    /// entry of the key table with a score above zero that clears its
    /// threshold, or, for punctuation, at least the relaxed one.
    pub open spec fn acceptable(&self, e: (char, u32)) -> bool {
        &&& exists|idx: int| 0 < idx < self.keys@.len() && self.keys@[idx] == e.0
        &&& e.1 > 0
        &&& (e.1 > self.threshold(e.0) || (is_punct_char(e.0) && e.1 > self.punct_relaxed_score))
    }

    /// Each frame emits at most one character, and every emitted character is
    /// an acceptable reading of a non-blank key.
    pub proof fn lemma_decoded_sound(&self, scores: Seq<u32>, vocab: int, n: int)
        requires
            0 <= n,
        ensures
            self.decoded(scores, n, vocab).len() <= n,
            forall|k: int|
                0 <= k < self.decoded(scores, n, vocab).len() ==> self.acceptable(
                    #[trigger] self.decoded(scores, n, vocab)[k],
                ),
        decreases n,
    {
        if n > 0 {
            self.lemma_decoded_sound(scores, vocab, n - 1);
            let best = best_class(scores, (n - 1) * vocab, vocab);
            lemma_best_class_score(scores, (n - 1) * vocab, vocab);
            let prev = self.decode_frames(scores, vocab, n - 1);
            let step = self.frame_step(prev.1, best.0, best.1);
            if let Some(e) = step.0 {
                assert(self.keys@[best.0] == e.0);
                assert(self.acceptable(e));
            }
        }
    }

    /// Decoding is incremental: decoding more frames only appends to what
    /// decoding fewer frames emitted, at most one character per frame.
    pub proof fn lemma_decoded_prefix(&self, scores: Seq<u32>, vocab: int, m: int, n: int)
        requires
            0 <= m <= n,
        ensures
            self.decoded(scores, m, vocab).len() <= self.decoded(scores, n, vocab).len(),
            self.decoded(scores, n, vocab).len() <= self.decoded(scores, m, vocab).len() + (n - m),
            self.decoded(scores, n, vocab).take(self.decoded(scores, m, vocab).len() as int)
                == self.decoded(scores, m, vocab),
        decreases n - m,
    {
        if m < n {
            self.lemma_decoded_prefix(scores, vocab, m, n - 1);
            let short = self.decoded(scores, m, vocab);
            let mid = self.decoded(scores, n - 1, vocab);
            let long = self.decoded(scores, n, vocab);
            assert(long.take(mid.len() as int) =~= mid);
            assert(long.take(short.len() as int) =~= mid.take(short.len() as int));
        } else {
            assert(self.decoded(scores, n, vocab).take(self.decoded(scores, n, vocab).len() as int)
                =~= self.decoded(scores, n, vocab));
        }
    }

    /// A confidently read punctuation character ends the current run: when a
    /// frame confidently reads punctuation and the next frame confidently reads
    /// an ordinary character, both are emitted, even if that character repeats
    /// the one read before the punctuation.
    pub proof fn lemma_punctuation_ends_run(
        &self,
        scores: Seq<u32>,
        vocab: int,
        n: int,
        p_idx: int,
        p_score: u32,
        c_idx: int,
        c_score: u32,
    )
        requires
            n >= 2,
            0 < p_idx < self.keys@.len(),
            is_punct_char(self.keys@[p_idx]),
            p_score > self.punct_min_score,
            best_class(scores, (n - 2) * vocab, vocab) == (p_idx, p_score),
            0 < c_idx < self.keys@.len(),
            !is_punct_char(self.keys@[c_idx]),
            c_score > self.min_score,
            best_class(scores, (n - 1) * vocab, vocab) == (c_idx, c_score),
        ensures
            self.decoded(scores, n, vocab) == self.decoded(scores, n - 2, vocab) + seq![
                (self.keys@[p_idx], p_score),
                (self.keys@[c_idx], c_score),
            ],
    {
        assert(self.decode_frames(scores, vocab, n - 1).1 == Some(self.keys@[p_idx]));
        assert(self.decoded(scores, n, vocab) =~= self.decoded(scores, n - 2, vocab) + seq![
            (self.keys@[p_idx], p_score),
            (self.keys@[c_idx], c_score),
        ]);
    }

    /// Three confident frames reading an ordinary character, a punctuation
    /// character and the same ordinary character again are decoded as all
    /// three characters.
    pub proof fn lemma_repeat_around_punctuation(
        &self,
        scores: Seq<u32>,
        vocab: int,
        c_idx: int,
        p_idx: int,
        s0: u32,
        s1: u32,
        s2: u32,
    )
        requires
            0 < c_idx < self.keys@.len(),
            0 < p_idx < self.keys@.len(),
            !is_punct_char(self.keys@[c_idx]),
            is_punct_char(self.keys@[p_idx]),
            s0 > self.min_score,
            s1 > self.punct_min_score,
            s2 > self.min_score,
            best_class(scores, 0 * vocab, vocab) == (c_idx, s0),
            best_class(scores, 1 * vocab, vocab) == (p_idx, s1),
            best_class(scores, 2 * vocab, vocab) == (c_idx, s2),
        ensures
            self.decoded(scores, 3, vocab) == seq![
                (self.keys@[c_idx], s0),
                (self.keys@[p_idx], s1),
                (self.keys@[c_idx], s2),
            ],
    {
        assert(self.decoded(scores, 0, vocab) == Seq::<(char, u32)>::empty());
        assert(self.decoded(scores, 1, vocab) =~= seq![(self.keys@[c_idx], s0)]);
        self.lemma_punctuation_ends_run(scores, vocab, 3, p_idx, s1, c_idx, s2);
        assert(self.decoded(scores, 3, vocab) =~= seq![
            (self.keys@[c_idx], s0),
            (self.keys@[p_idx], s1),
            (self.keys@[c_idx], s2),
        ]);
    }

    /// Repeats are merged: frames that all read the same ordinary (non
    /// punctuation) character with a confident score emit it once.
    pub proof fn lemma_repeats_merged(
        &self,
        scores: Seq<u32>,
        vocab: int,
        n: int,
        idx: int,
        score: u32,
    )
        requires
            1 <= n,
            0 < idx < self.keys@.len(),
            !is_punct_char(self.keys@[idx]),
            score > self.min_score,
            forall|k: int| 0 <= k < n ==> #[trigger] best_class(scores, k * vocab, vocab) == (idx, score),
        ensures
            self.decoded(scores, n, vocab) == seq![(self.keys@[idx], score)],
            self.decode_frames(scores, vocab, n).1 == Some(self.keys@[idx]),
        decreases n,
    {
        let b = best_class(scores, (n - 1) * vocab, vocab);
        assert(b == (idx, score));
        if n > 1 {
            self.lemma_repeats_merged(scores, vocab, n - 1, idx, score);
        } else {
            assert(self.decode_frames(scores, vocab, 0).0 == Seq::<(char, u32)>::empty());
            assert(Seq::<(char, u32)>::empty().push((self.keys@[idx], score)) =~= seq![
                (self.keys@[idx], score),
            ]);
        }
    }

    /// Punctuation is never merged: frames that all read the same punctuation
    /// character with a confident score emit it once per frame.
    pub proof fn lemma_punctuation_kept(
        &self,
        scores: Seq<u32>,
        vocab: int,
        n: int,
        idx: int,
        score: u32,
    )
        requires
            0 <= n,
            0 < idx < self.keys@.len(),
            is_punct_char(self.keys@[idx]),
            score > self.punct_min_score,
            forall|k: int| 0 <= k < n ==> #[trigger] best_class(scores, k * vocab, vocab) == (idx, score),
        ensures
            self.decoded(scores, n, vocab) == Seq::new(n as nat, |k: int| (self.keys@[idx], score)),
        decreases n,
    {
        if n > 0 {
            let b = best_class(scores, (n - 1) * vocab, vocab);
            assert(b == (idx, score));
            self.lemma_punctuation_kept(scores, vocab, n - 1, idx, score);
            assert(self.decoded(scores, n, vocab) =~= Seq::new(
                n as nat,
                |k: int| (self.keys@[idx], score),
            ));
        } else {
            assert(self.decoded(scores, n, vocab) =~= Seq::new(
                n as nat,
                |k: int| (self.keys@[idx], score),
            ));
        }
    }
}

/// The text of a decoding has exactly one character per decoded pair, in
/// order.
pub proof fn lemma_text_one_char_per_reading(chars: Seq<(char, u32)>)
    ensures
        text_of(chars).len() == chars.len(),
        forall|i: int| 0 <= i < chars.len() ==> #[trigger] text_of(chars)[i] == chars[i].0,
{
}

/// With a key table built from a character-set file, every character that
/// decoding emits is a character of the file, or the space that closes the
/// table; the blank is never emitted.
pub proof fn lemma_decoded_from_charset(
    d: CtcDecoder,
    content: Seq<char>,
    scores: Seq<u32>,
    vocab: int,
    n: int,
)
    requires
        d.keys@ == charset_of(content),
        0 <= n,
    ensures
        forall|k: int|
            0 <= k < d.decoded(scores, n, vocab).len() ==> {
                let c = (#[trigger] d.decoded(scores, n, vocab)[k]).0;
                c == ' ' || charset_entries(content).contains(c)
            },
{
    d.lemma_decoded_sound(scores, vocab, n);
    lemma_charset_shape(content);
    assert forall|k: int| 0 <= k < d.decoded(scores, n, vocab).len() implies {
        let c = (#[trigger] d.decoded(scores, n, vocab)[k]).0;
        c == ' ' || charset_entries(content).contains(c)
    } by {
        let c = d.decoded(scores, n, vocab)[k].0;
        assert(d.acceptable(d.decoded(scores, n, vocab)[k]));
        let idx = choose|idx: int| 0 < idx < d.keys@.len() && d.keys@[idx] == c;
        if idx < d.keys@.len() - 1 {
            assert(charset_of(content)[idx] == charset_entries(content)[idx - 1]);
        }
    }
}

/// The best class of a frame is one of its `n` classes, and a winning class
/// other than 0 has a positive score.
pub proof fn lemma_best_class_score(scores: Seq<u32>, base: int, n: int)
    ensures
        0 <= best_class(scores, base, n).0,
        n > 0 ==> best_class(scores, base, n).0 < n,
        best_class(scores, base, n).0 != 0 ==> best_class(scores, base, n).1 > 0,
    decreases n,
{
    if n > 0 {
        lemma_best_class_score(scores, base, n - 1);
    }
}

} // verus!
