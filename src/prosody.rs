//! Sentence classification and sentence splitting for intonation.
use vstd::prelude::*;
use crate::text::{
    copy_range,
    chars_of, has_at, is_alpha, is_space, is_upper, lower_of, lowercase, matches_at, alphabetic,
    string_of, trim_bounds, trimmed, uppercase, white_space,
};

verus! {

/// Sentence type for prosody determination.
#[derive(Debug, Clone, Copy, PartialEq, Eq, Structural)]
pub enum SentenceType {
    /// Declarative statement (falling intonation).
    Statement,
    /// Yes/no question (rising intonation).
    Question,
    /// Wh-question (falling-rising intonation).
    WhQuestion,
    /// Exclamation (emphasized).
    Exclamation,
    /// Command/imperative; never detected, only chosen.
    Command,
}

/// Pitch contour patterns for intonation.
#[derive(Debug, Clone, Copy, PartialEq, Eq, Structural)]
pub enum PitchContour {
    /// Flat contour (no change).
    Flat,
    /// Rising contour (questions).
    Rising,
    /// Falling contour (statements).
    Falling,
    /// Falling-rising contour (wh-questions, continuation).
    FallingRising,
    /// Emphasized contour (exclamations).
    Emphasized,
}

/// Stress pattern for words.
#[derive(Debug, Clone, Copy, PartialEq, Eq, Structural)]
pub enum StressLevel {
    /// Unstressed syllable.
    Unstressed,
    /// Primary stress.
    Primary,
    /// Secondary stress.
    Secondary,
}

impl Default for SentenceType {
    /// A statement.
    fn default() -> (r: SentenceType)
        ensures
            r == SentenceType::Statement,
    {
        SentenceType::Statement
    }
}

impl Default for PitchContour {
    /// A flat contour.
    fn default() -> (r: PitchContour)
        ensures
            r == PitchContour::Flat,
    {
        PitchContour::Flat
    }
}

impl Default for StressLevel {
    /// Primary stress.
    fn default() -> (r: StressLevel)
        ensures
            r == StressLevel::Primary,
    {
        StressLevel::Primary
    }
}

/// Whether the word `w` stands at `at` in `v`: no letter follows it.
pub open spec fn word_at(v: Seq<char>, at: int, w: Seq<char>) -> bool {
    has_at(v, at, w) && (at + w.len() >= v.len() || !alphabetic(v[at + w.len()]))
}

/// Whether the word at `v[at..]` is a question word of English or Spanish
/// (`por qué` counting as one).
pub open spec fn starts_with_wh(v: Seq<char>, at: int) -> bool {
    word_at(v, at, "what"@) || word_at(v, at, "who"@) || word_at(v, at, "where"@) || word_at(
        v,
        at,
        "when"@,
    ) || word_at(v, at, "why"@) || word_at(v, at, "how"@) || word_at(v, at, "which"@) || word_at(
        v,
        at,
        "whose"@,
    ) || word_at(v, at, "qué"@) || word_at(v, at, "quién"@) || word_at(v, at, "dónde"@) || word_at(
        v,
        at,
        "cuándo"@,
    ) || word_at(v, at, "por qué"@) || word_at(v, at, "cómo"@) || word_at(v, at, "cuál"@)
}

/// The first index at or after `from` that holds a letter, or `len`.
pub open spec fn skip_non_alpha(v: Seq<char>, from: int) -> int
    decreases v.len() - from,
{
    if from < 0 {
        0
    } else if from >= v.len() {
        v.len() as int
    } else if !alphabetic(v[from]) {
        skip_non_alpha(v, from + 1)
    } else {
        from
    }
}

/// The sentence type of a text.
pub open spec fn sentence_type_of(text: Seq<char>) -> SentenceType {
    let t = trimmed(text);
    if t.len() > 0 && (t.last() == '?' || t[0] == '¿') {
        let l = lower_of(t);
        if starts_with_wh(l, skip_non_alpha(l, 0)) {
            SentenceType::WhQuestion
        } else {
            SentenceType::Question
        }
    } else if t.len() > 0 && (t.last() == '!' || t[0] == '¡') {
        SentenceType::Exclamation
    } else {
        SentenceType::Statement
    }
}

/// The contour that a sentence type takes.
pub open spec fn contour_of(t: SentenceType) -> PitchContour {
    match t {
        SentenceType::Statement => PitchContour::Falling,
        SentenceType::Question => PitchContour::Rising,
        SentenceType::WhQuestion => PitchContour::FallingRising,
        SentenceType::Exclamation => PitchContour::Emphasized,
        SentenceType::Command => PitchContour::Flat,
    }
}

fn has_word_at(v: &Vec<char>, at: usize, w: &str) -> (r: bool)
    ensures
        r == word_at(v@, at as int, w@),
{
    let p = chars_of(w);
    if !matches_at(v, at, &p) {
        return false;
    }
    assert(at + p.len() <= v.len());
    let end = at + p.len();
    end >= v.len() || !is_alpha(v[end])
}

impl SentenceType {
    /// Detects the sentence type: a question ends in `?` or starts with `¿`,
    /// and is a wh-question when its first word (after leading non-letters,
    /// lowercased) is a question word, the whole word and not a prefix of it; an exclamation ends in `!` or starts
    /// with `¡`; anything else is a statement.
    pub fn detect(text: &str) -> (r: SentenceType)
        ensures
            r == sentence_type_of(text@),
    {
        let cs = chars_of(text);
        let (b, e) = trim_bounds(&cs);
        let t = string_of(&cs, b, e);
        let n = e - b;
        if n > 0 && (cs[e - 1] == '?' || cs[b] == '¿') {
            let low = lowercase(t.as_str());
            let l = chars_of(low.as_str());
            let mut k: usize = 0;
            while k < l.len() && !is_alpha(l[k])
                invariant
                    k <= l.len(),
                    skip_non_alpha(l@, k as int) == skip_non_alpha(l@, 0),
                decreases l.len() - k,
            {
                k += 1;
            }
            if has_word_at(&l, k, "what") || has_word_at(&l, k, "who") || has_word_at(&l, k, "where")
                || has_word_at(&l, k, "when") || has_word_at(&l, k, "why") || has_word_at(&l, k, "how")
                || has_word_at(&l, k, "which") || has_word_at(&l, k, "whose") || has_word_at(
                &l,
                k,
                "qué",
            ) || has_word_at(&l, k, "quién") || has_word_at(&l, k, "dónde") || has_word_at(
                &l,
                k,
                "cuándo",
            ) || has_word_at(&l, k, "por qué") || has_word_at(&l, k, "cómo") || has_word_at(
                &l,
                k,
                "cuál",
            ) {
                SentenceType::WhQuestion
            } else {
                SentenceType::Question
            }
        } else if n > 0 && (cs[e - 1] == '!' || cs[b] == '¡') {
            SentenceType::Exclamation
        } else {
            SentenceType::Statement
        }
    }

    /// Get the pitch contour pattern for this sentence type.
    pub fn pitch_contour(&self) -> (r: PitchContour)
        ensures
            r == contour_of(*self),
    {
        match self {
            SentenceType::Statement => PitchContour::Falling,
            SentenceType::Question => PitchContour::Rising,
            SentenceType::WhQuestion => PitchContour::FallingRising,
            SentenceType::Exclamation => PitchContour::Emphasized,
            SentenceType::Command => PitchContour::Flat,
        }
    }
}

/// Whether a character may end a sentence.
pub open spec fn is_terminator(c: char) -> bool {
    c == '.' || c == '!' || c == '?' || c == '¿' || c == '¡'
}

/// Whether the terminator at `i` ends a sentence: any but `.`, and a `.`
/// only before white space, an uppercase letter or the end of the text.
pub open spec fn ends_sentence(v: Seq<char>, i: int) -> bool {
    is_terminator(v[i]) && (v[i] != '.' || i + 1 >= v.len() || white_space(v[i + 1]) || uppercase(
        v[i + 1],
    ))
}

/// The sentences found in `v[..i]` and where the current one starts.
pub open spec fn split_scan(v: Seq<char>, i: int) -> (int, Seq<Seq<char>>)
    decreases i,
{
    if i <= 0 {
        (0, Seq::empty())
    } else {
        let (start, found) = split_scan(v, i - 1);
        if ends_sentence(v, i - 1) {
            let t = trimmed(v.subrange(start, i));
            (i, if t.len() > 0 {
                found.push(t)
            } else {
                found
            })
        } else {
            (start, found)
        }
    }
}

/// The trimmed, non-empty sentences of a text, in order.
pub open spec fn sentences_of(v: Seq<char>) -> Seq<Seq<char>> {
    let (start, found) = split_scan(v, v.len() as int);
    let last = trimmed(v.subrange(start, v.len() as int));
    let all = if start < v.len() && last.len() > 0 {
        found.push(last)
    } else {
        found
    };
    if all.len() == 0 && trimmed(v).len() > 0 {
        seq![trimmed(v)]
    } else {
        all
    }
}

/// Phrase analyzer for prosody.
pub struct PhraseAnalyzer;

proof fn lemma_split_start(v: Seq<char>, i: int)
    requires
        0 <= i <= v.len(),
    ensures
        0 <= split_scan(v, i).0 <= i,
    decreases i,
{
    if i > 0 {
        lemma_split_start(v, i - 1);
    }
}

impl PhraseAnalyzer {
    /// Splits text into trimmed, non-empty sentences at `.`, `!`, `?`, `¿`
    /// and `¡`; a `.` ends a sentence only before white space, an uppercase
    /// letter or the end of the text.
    pub fn split_sentences(text: &str) -> (r: Vec<String>)
        ensures
            r@.len() == sentences_of(text@).len(),
            forall|k: int| 0 <= k < r@.len() ==> #[trigger] r@[k]@ == sentences_of(text@)[k],
    {
        let cs = chars_of(text);
        let mut out: Vec<String> = Vec::new();
        let mut start: usize = 0;
        let mut i: usize = 0;
        while i < cs.len()
            invariant
                i <= cs.len(),
                cs@ == text@,
                (start as int, Seq::new(out@.len(), |k: int| out@[k]@)) == split_scan(cs@, i as int),
            decreases cs.len() - i,
        {
            proof {
                lemma_split_start(cs@, i as int);
            }
            let c = cs[i];
            if c == '.' || c == '!' || c == '?' || c == '¿' || c == '¡' {
                let is_end = c != '.' || i + 1 >= cs.len() || is_space(cs[i + 1]) || is_upper(
                    cs[i + 1],
                );
                if is_end {
                    let piece = copy_range(&cs, start, i + 1);
                    let (b, e) = trim_bounds(&piece);
                    if b < e {
                        let ghost before = out@;
                        out.push(string_of(&piece, b, e));
                        proof {
                            assert(Seq::new(out@.len(), |k: int| out@[k]@) =~= Seq::new(
                                before.len(),
                                |k: int| before[k]@,
                            ).push(trimmed(cs@.subrange(start as int, i + 1))));
                        }
                    }
                    start = i + 1;
                }
            }
            i += 1;
        }
        proof {
            lemma_split_start(cs@, cs.len() as int);
        }
        if start < cs.len() {
            let piece = copy_range(&cs, start, cs.len());
            let (b, e) = trim_bounds(&piece);
            if b < e {
                let ghost before = out@;
                out.push(string_of(&piece, b, e));
                proof {
                    assert(Seq::new(out@.len(), |k: int| out@[k]@) =~= Seq::new(
                        before.len(),
                        |k: int| before[k]@,
                    ).push(trimmed(cs@.subrange(start as int, cs.len() as int))));
                }
            }
        }
        if out.len() == 0 {
            let (b, e) = trim_bounds(&cs);
            if b < e {
                out.push(string_of(&cs, b, e));
                proof {
                    assert(Seq::new(out@.len(), |k: int| out@[k]@) =~= seq![trimmed(cs@)]);
                }
            }
        }
        proof {
            let s = sentences_of(text@);
            assert(Seq::new(out@.len(), |k: int| out@[k]@) =~= s);
            assert forall|k: int| 0 <= k < out@.len() implies #[trigger] out@[k]@ == s[k] by {
                assert(Seq::new(out@.len(), |k: int| out@[k]@)[k] == out@[k]@);
            }
        }
        out
    }
}


} // verus!
