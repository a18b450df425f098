//! A reader for a subset of SSML: a hand-written tokenizer and tree
//! builder, plain-text extraction, and the flattening of the tree into
//! segments that carry the prosody of their enclosing elements.
use vstd::prelude::*;
use crate::error::SynthesizerError;
use crate::prosody::PitchContour;
use crate::text::{
    alphanumeric, copy_range, skip_space_from,
    chars_of, extend_chars, has_at, is_alnum, is_space, lower_of, lowercase, matches_at,
    push_char, push_seq, same_chars, str_eq, string_of, trim_bounds, trimmed, white_space,
};

verus! {

/// Break strength levels.
#[derive(Debug, Clone, Copy, PartialEq, Eq, Structural)]
pub enum BreakStrength {
    /// No break (the keyword `none`).
    NoPause,
    /// Very short break (100 ms).
    XWeak,
    /// Short break (200 ms).
    Weak,
    /// Medium break (400 ms).
    Medium,
    /// Long break (600 ms).
    Strong,
    /// Very long break (1000 ms).
    XStrong,
}

/// The pause length of a strength, in milliseconds.
pub open spec fn strength_ms(s: BreakStrength) -> u32 {
    match s {
        BreakStrength::NoPause => 0,
        BreakStrength::XWeak => 100,
        BreakStrength::Weak => 200,
        BreakStrength::Medium => 400,
        BreakStrength::Strong => 600,
        BreakStrength::XStrong => 1000,
    }
}

/// The strength a lowercase keyword names; anything else is medium.
pub open spec fn strength_of(s: Seq<char>) -> BreakStrength {
    if s == "none"@ {
        BreakStrength::NoPause
    } else if s == "x-weak"@ {
        BreakStrength::XWeak
    } else if s == "weak"@ {
        BreakStrength::Weak
    } else if s == "strong"@ {
        BreakStrength::Strong
    } else if s == "x-strong"@ {
        BreakStrength::XStrong
    } else {
        BreakStrength::Medium
    }
}

impl BreakStrength {
    /// Convert strength to milliseconds.
    pub fn to_ms(self) -> (r: u32)
        ensures
            r == strength_ms(self),
    {
        match self {
            BreakStrength::NoPause => 0,
            BreakStrength::XWeak => 100,
            BreakStrength::Weak => 200,
            BreakStrength::Medium => 400,
            BreakStrength::Strong => 600,
            BreakStrength::XStrong => 1000,
        }
    }

    /// Parse from a keyword, whatever its case; unknown keywords are medium.
    pub fn parse(s: &str) -> (r: BreakStrength)
        ensures
            r == strength_of(lower_of(s@)),
    {
        let low = lowercase(s);
        let l = low.as_str();
        if str_eq(l, "none") {
            BreakStrength::NoPause
        } else if str_eq(l, "x-weak") {
            BreakStrength::XWeak
        } else if str_eq(l, "weak") {
            BreakStrength::Weak
        } else if str_eq(l, "strong") {
            BreakStrength::Strong
        } else if str_eq(l, "x-strong") {
            BreakStrength::XStrong
        } else {
            BreakStrength::Medium
        }
    }
}

/// Emphasis level.
#[derive(Debug, Clone, Copy, PartialEq, Eq, Structural)]
pub enum EmphasisLevel {
    /// Reduced emphasis.
    Reduced,
    /// No change (the keyword `none`).
    Unchanged,
    /// Moderate emphasis.
    Moderate,
    /// Strong emphasis.
    Strong,
}

/// The level a lowercase keyword names; anything else is moderate.
pub open spec fn level_of(s: Seq<char>) -> EmphasisLevel {
    if s == "reduced"@ {
        EmphasisLevel::Reduced
    } else if s == "none"@ {
        EmphasisLevel::Unchanged
    } else if s == "strong"@ {
        EmphasisLevel::Strong
    } else {
        EmphasisLevel::Moderate
    }
}

impl EmphasisLevel {
    /// Parse from a keyword, whatever its case; unknown keywords are moderate.
    pub fn parse(s: &str) -> (r: EmphasisLevel)
        ensures
            r == level_of(lower_of(s@)),
    {
        let low = lowercase(s);
        let l = low.as_str();
        if str_eq(l, "reduced") {
            EmphasisLevel::Reduced
        } else if str_eq(l, "none") {
            EmphasisLevel::Unchanged
        } else if str_eq(l, "strong") {
            EmphasisLevel::Strong
        } else {
            EmphasisLevel::Moderate
        }
    }
}

/// Break/pause specification.
#[derive(Debug, Clone, Copy, PartialEq, Eq, Structural)]
pub struct BreakSpec {
    /// Break duration in milliseconds; 0 when not given.
    pub time_ms: u32,
    /// Break strength, used when no time is given.
    pub strength: BreakStrength,
}

impl Default for BreakSpec {
    /// No time and medium strength.
    fn default() -> (r: BreakSpec)
        ensures
            r == (BreakSpec { time_ms: 0, strength: BreakStrength::Medium }),
    {
        BreakSpec { time_ms: 0, strength: BreakStrength::Medium }
    }
}

impl Default for BreakStrength {
    /// Medium strength.
    fn default() -> (r: BreakStrength)
        ensures
            r == BreakStrength::Medium,
    {
        BreakStrength::Medium
    }
}

impl Default for EmphasisLevel {
    /// Moderate emphasis.
    fn default() -> (r: EmphasisLevel)
        ensures
            r == EmphasisLevel::Moderate,
    {
        EmphasisLevel::Moderate
    }
}

impl Default for SsmlDocument {
    /// An empty document.
    fn default() -> (r: SsmlDocument)
        ensures
            r.elements@.len() == 0,
    {
        SsmlDocument::new()
    }
}

impl BreakSpec {
    /// The pause this break asks for: its time if given, else its strength's.
    pub open spec fn spec_duration_ms(self) -> u32 {
        if self.time_ms > 0 {
            self.time_ms
        } else {
            strength_ms(self.strength)
        }
    }
}

/// The prosody attributes of a `prosody` element, as written.
#[derive(Debug, PartialEq, Eq)]
pub struct ProsodySpec {
    /// The `rate` attribute.
    pub rate: Option<String>,
    /// The `pitch` attribute.
    pub pitch: Option<String>,
    /// The `volume` attribute.
    pub volume: Option<String>,
    /// The contour read from the `contour` attribute.
    pub contour: PitchContour,
}

/// One step of prosody that an enclosing element imposes.
#[derive(Debug, PartialEq, Eq)]
pub enum ProsodyStep {
    /// A `prosody` element.
    Prosody(ProsodySpec),
    /// An `emphasis` element.
    Emphasis(EmphasisLevel),
}

/// An SSML element with its content and attributes.
#[derive(Debug)]
pub enum SsmlElement {
    /// Plain text content.
    Text(String),
    /// A break/pause element.
    Break(BreakSpec),
    /// Prosody modification element.
    Prosody {
        /// Child elements.
        children: Vec<SsmlElement>,
        /// Prosody settings.
        config: ProsodySpec,
    },
    /// Emphasis element.
    Emphasis {
        /// Child elements.
        children: Vec<SsmlElement>,
        /// Emphasis level.
        level: EmphasisLevel,
    },
    /// Say-as element for interpretation.
    SayAs {
        /// The text to interpret.
        text: String,
        /// Interpretation type.
        interpret_as: String,
    },
    /// Sub element for pronunciation substitution.
    Sub {
        /// The alias to speak.
        alias: String,
    },
    /// Voice element to change voice characteristics.
    Voice {
        /// Child elements.
        children: Vec<SsmlElement>,
        /// Voice name/language.
        name: Option<String>,
    },
    /// Paragraph element.
    Paragraph(Vec<SsmlElement>),
    /// Sentence element.
    Sentence(Vec<SsmlElement>),
}

/// A segment of text with the prosody steps of its enclosing elements,
/// outermost first.
#[derive(Debug)]
pub struct SynthesisSegment {
    /// The text content, or a break sentinel `__break_<ms>__`.
    pub text: String,
    /// Prosody steps, outermost first; none for a break.
    pub prosody: Vec<ProsodyStep>,
}

/// A parsed SSML document.
#[derive(Debug)]
pub struct SsmlDocument {
    /// Root elements.
    pub elements: Vec<SsmlElement>,
}

/// The decimal digits of `n`.
pub open spec fn decimal(n: nat) -> Seq<char>
    decreases n,
{
    if n < 10 {
        seq![(('0' as u32) + n) as char]
    } else {
        decimal(n / 10).push((('0' as u32) + (n % 10)) as char)
    }
}

/// Appends the decimal digits of `n`.
pub fn push_decimal(s: &mut String, n: u32)
    ensures
        final(s)@ == old(s)@ + decimal(n as nat),
    decreases n,
{
    if n >= 10 {
        push_decimal(s, n / 10);
    }
    let d = (n % 10) as u8;
    let c = ((48u8 + d) as char);
    assert(c == (('0' as u32) + (n as nat % 10)) as char);
    push_char(s, c);
    assert(final(s)@ =~= old(s)@ + decimal(n as nat));
}

/// The text of the segment that stands for a pause of `ms` milliseconds.
pub open spec fn break_sentinel(ms: nat) -> Seq<char> {
    seq!['_', '_', 'b', 'r', 'e', 'a', 'k', '_'] + decimal(ms) + seq!['_', '_']
}

/// The sentinel text `__break_<ms>__` for a pause.
pub fn break_text(ms: u32) -> (r: String)
    ensures
        r@ == break_sentinel(ms as nat),
{
    let mut s = String::new();
    let head: Vec<char> = vec!['_', '_', 'b', 'r', 'e', 'a', 'k', '_'];
    push_seq(&mut s, &head);
    push_decimal(&mut s, ms);
    push_char(&mut s, '_');
    push_char(&mut s, '_');
    assert(s@ =~= break_sentinel(ms as nat));
    s
}

/// Whether `c` is a decimal digit.
pub open spec fn is_digit(c: char) -> bool {
    '0' <= c <= '9'
}

/// The value of a string of decimal digits.
pub open spec fn digits_value(s: Seq<char>) -> nat
    decreases s.len(),
{
    if s.len() == 0 {
        0
    } else {
        digits_value(s.drop_last()) * 10 + (s.last() as nat - '0' as nat) as nat
    }
}

/// Whether every character is a decimal digit.
pub open spec fn all_digits(s: Seq<char>) -> bool {
    forall|i: int| 0 <= i < s.len() ==> is_digit(#[trigger] s[i])
}

/// An unsigned integer as `u32`'s parser reads it: an optional `+` and at
/// least one digit, within `u32`'s range.
pub open spec fn u32_of(s: Seq<char>) -> Option<u32> {
    let b = if s.len() > 0 && s[0] == '+' {
        s.drop_first()
    } else {
        s
    };
    if b.len() > 0 && all_digits(b) && digits_value(b) <= u32::MAX {
        Some(digits_value(b) as u32)
    } else {
        None
    }
}

/// Reads the digits `v[from..to]`, stopping at `limit`.
fn digits_upto(v: &Vec<char>, from: usize, to: usize, limit: u64) -> (r: Option<u64>)
    requires
        from <= to <= v.len(),
        limit <= u32::MAX,
    ensures
        all_digits(v@.subrange(from as int, to as int)) && digits_value(
            v@.subrange(from as int, to as int),
        ) <= limit ==> r == Some(digits_value(v@.subrange(from as int, to as int)) as u64),
        !(all_digits(v@.subrange(from as int, to as int)) && digits_value(
            v@.subrange(from as int, to as int),
        ) <= limit) ==> r is None,
{
    let mut acc: u64 = 0;
    let mut i: usize = from;
    while i < to
        invariant
            from <= i <= to <= v.len(),
            limit <= u32::MAX,
            all_digits(v@.subrange(from as int, i as int)),
            acc == digits_value(v@.subrange(from as int, i as int)),
            acc <= limit,
        decreases to - i,
    {
        let c = v[i];
        let ghost pre = v@.subrange(from as int, i as int);
        let ghost cur = v@.subrange(from as int, i + 1);
        proof {
            assert(cur.drop_last() =~= pre);
        }
        if !('0' <= c && c <= '9') {
            proof {
                lemma_digits_prefix(v@.subrange(from as int, to as int), i - from);
                assert(v@.subrange(from as int, to as int)[i - from] == c);
            }
            return None;
        }
        let d = (c as u32 - '0' as u32) as u64;
        acc = acc * 10 + d;
        if acc > limit {
            proof {
                let whole = v@.subrange(from as int, to as int);
                if all_digits(whole) {
                    lemma_digits_grow(whole, i + 1 - from);
                    assert(whole.subrange(0, i + 1 - from) =~= cur);
                }
            }
            return None;
        }
        i += 1;
    }
    Some(acc)
}

proof fn lemma_digits_prefix(s: Seq<char>, k: int)
    requires
        0 <= k < s.len(),
        !is_digit(s[k]),
    ensures
        !all_digits(s),
{
}

proof fn lemma_digits_grow(s: Seq<char>, k: int)
    requires
        0 <= k <= s.len(),
        all_digits(s),
    ensures
        digits_value(s) >= digits_value(s.subrange(0, k)),
    decreases s.len() - k,
{
    if k < s.len() {
        lemma_digits_grow(s, k + 1);
        let p = s.subrange(0, k + 1);
        assert(p.drop_last() =~= s.subrange(0, k));
        assert(is_digit(p.last()));
        let a = digits_value(s.subrange(0, k));
        let d = (p.last() as nat - '0' as nat) as nat;
        assert(digits_value(p) == a * 10 + d);
        assert(a * 10 + d >= a) by (nonlinear_arith)
            requires
                d >= 0,
                a >= 0,
        ;
    } else {
        assert(s.subrange(0, k) =~= s);
    }
}

/// Reads an unsigned integer as `u32`'s parser does.
pub fn parse_u32(v: &Vec<char>, from: usize, to: usize) -> (r: Option<u32>)
    requires
        from <= to <= v.len(),
    ensures
        r == u32_of(v@.subrange(from as int, to as int)),
{
    let ghost s = v@.subrange(from as int, to as int);
    let mut b = from;
    if from < to && v[from] == '+' {
        b = from + 1;
        assert(s.drop_first() =~= v@.subrange(b as int, to as int));
    } else {
        assert(s =~= v@.subrange(b as int, to as int));
    }
    if b >= to {
        return None;
    }
    match digits_upto(v, b, to, u32::MAX as u64) {
        Some(x) => Some(x as u32),
        None => None,
    }
}

/// The value of the digit at `k` of `fp`, or 0 past its end.
pub open spec fn digit_or_zero(fp: Seq<char>, k: int) -> nat {
    if k < fp.len() {
        (fp[k] as nat - '0' as nat) as nat
    } else {
        0
    }
}

/// Whole milliseconds in the fraction digits `fp` of a second.
pub open spec fn frac_ms(fp: Seq<char>) -> nat {
    digit_or_zero(fp, 0) * 100 + digit_or_zero(fp, 1) * 10 + digit_or_zero(fp, 2)
}

/// The index of the first `.` in `b` at or after `from`, or its length.
pub open spec fn first_dot(b: Seq<char>, from: int) -> int
    decreases b.len() - from,
{
    if from < 0 || from >= b.len() {
        b.len() as int
    } else if b[from] == '.' {
        from
    } else {
        first_dot(b, from + 1)
    }
}

/// Milliseconds in an unsigned decimal number of seconds `D`, `D.F` or `.F`.
pub open spec fn unsigned_seconds_ms(b: Seq<char>) -> Option<nat> {
    let d = first_dot(b, 0);
    let ip = b.subrange(0, d);
    let fp = if d < b.len() {
        b.subrange(d + 1, b.len() as int)
    } else {
        Seq::empty()
    };
    if (ip.len() > 0 || fp.len() > 0) && all_digits(ip) && all_digits(fp) {
        Some(digits_value(ip) * 1000 + frac_ms(fp))
    } else {
        None
    }
}

/// Milliseconds in a number of seconds written `D`, `D.F` or `.F` in decimal
/// digits, with an optional `+` in front; fractions of a millisecond are
/// dropped.
pub open spec fn seconds_ms(s: Seq<char>) -> Option<nat> {
    if s.len() > 0 && s[0] == '+' {
        unsigned_seconds_ms(s.drop_first())
    } else {
        unsigned_seconds_ms(s)
    }
}

/// `n` saturated at `u32::MAX`.
pub open spec fn saturate(n: nat) -> u32 {
    if n > u32::MAX {
        u32::MAX
    } else {
        n as u32
    }
}

/// Whether `v` ends with `p`.
pub open spec fn ends_with(v: Seq<char>, p: Seq<char>) -> bool {
    v.len() >= p.len() && v.subrange(v.len() - p.len(), v.len() as int) == p
}

/// The milliseconds of a duration: `<n>ms`, `<x>s` or a bare number of
/// milliseconds, in any case and with white space around; 0 when unreadable.
pub open spec fn duration_ms(s: Seq<char>) -> u32 {
    let l = lower_of(trimmed(s));
    if ends_with(l, seq!['m', 's']) {
        match u32_of(trimmed(l.subrange(0, l.len() - 2))) {
            Some(v) => v,
            None => 0,
        }
    } else if ends_with(l, seq!['s']) {
        match seconds_ms(trimmed(l.drop_last())) {
            Some(v) => saturate(v),
            None => 0,
        }
    } else {
        match u32_of(l) {
            Some(v) => v,
            None => 0,
        }
    }
}

/// Whether every character of `v[from..to]` is a digit.
fn digits_only(v: &Vec<char>, from: usize, to: usize) -> (r: bool)
    requires
        from <= to <= v.len(),
    ensures
        r == all_digits(v@.subrange(from as int, to as int)),
{
    let mut i = from;
    while i < to
        invariant
            from <= i <= to <= v.len(),
            all_digits(v@.subrange(from as int, i as int)),
        decreases to - i,
    {
        if !('0' <= v[i] && v[i] <= '9') {
            assert(v@.subrange(from as int, to as int)[i - from] == v@[i as int]);
            return false;
        }
        i += 1;
        assert forall|k: int| 0 <= k < i - from implies is_digit(#[trigger] v@.subrange(from as int, i as int)[k]) by {
            assert(v@.subrange(from as int, i as int)[k] == v@[from + k]);
            if k < i - 1 - from {
                assert(v@.subrange(from as int, i - 1)[k] == v@[from + k]);
            }
        }
    }
    true
}

/// Whole milliseconds in the fraction digits `v[fs..to]`.
fn frac_value(v: &Vec<char>, fs: usize, to: usize) -> (r: u64)
    requires
        fs <= to <= v.len(),
        all_digits(v@.subrange(fs as int, to as int)),
    ensures
        r == frac_ms(v@.subrange(fs as int, to as int)),
        r <= 999,
{
    let ghost fp = v@.subrange(fs as int, to as int);
    let mut f: u64 = 0;
    let mut j: usize = 0;
    while j < 3
        invariant
            j <= 3,
            fs <= to <= v.len(),
            fp == v@.subrange(fs as int, to as int),
            all_digits(fp),
            f == (if j == 0 {
                0
            } else if j == 1 {
                digit_or_zero(fp, 0)
            } else if j == 2 {
                digit_or_zero(fp, 0) * 10 + digit_or_zero(fp, 1)
            } else {
                frac_ms(fp)
            }),
            f < (if j == 0 { 1u64 } else if j == 1 { 10u64 } else if j == 2 { 100u64 } else { 1000u64 }),
        decreases 3 - j,
    {
        let d: u64 = if j < to - fs {
            assert(is_digit(fp[j as int]));
            assert(fp[j as int] == v@[fs + j]);
            (v[fs + j] as u32 - '0' as u32) as u64
        } else {
            0
        };
        assert(d <= 9);
        f = f * 10 + d;
        j += 1;
    }
    f
}

/// Reads unsigned seconds, all of `bv`, in milliseconds saturated at
/// `u32::MAX`.
fn parse_unsigned_seconds(bv: &Vec<char>) -> (r: Option<u32>)
    ensures
        r == (match unsigned_seconds_ms(bv@) {
            Some(x) => Some(saturate(x)),
            None => None,
        }),
{
    let n = bv.len();
    let mut dot: usize = 0;
    while dot < n && bv[dot] != '.'
        invariant
            dot <= n == bv.len(),
            first_dot(bv@, dot as int) == first_dot(bv@, 0),
        decreases n - dot,
    {
        dot += 1;
    }
    let fs = if dot < n {
        dot + 1
    } else {
        n
    };
    proof {
        if dot >= n {
            assert(bv@.subrange(n as int, n as int) =~= Seq::<char>::empty());
        }
    }
    if dot == 0 && fs >= n {
        return None;
    }
    if !digits_only(bv, 0, dot) || !digits_only(bv, fs, n) {
        return None;
    }
    let f = frac_value(bv, fs, n);
    let ip = digits_upto(bv, 0, dot, 4294967);
    match ip {
        Some(x) => {
            let total: u64 = x * 1000 + f;
            if total > u32::MAX as u64 {
                Some(u32::MAX)
            } else {
                Some(total as u32)
            }
        },
        None => {
            proof {
                let ipv = digits_value(bv@.subrange(0, dot as int));
                assert(ipv > 4294967);
                let fv = frac_ms(bv@.subrange(fs as int, n as int));
                assert(ipv * 1000 + fv > u32::MAX) by (nonlinear_arith)
                    requires
                        ipv > 4294967,
                        fv >= 0,
                ;
            }
            Some(u32::MAX)
        },
    }
}

/// Reads seconds as `seconds_ms` describes them, in milliseconds saturated
/// at `u32::MAX`.
fn parse_seconds(v: &Vec<char>, from: usize, to: usize) -> (r: Option<u32>)
    requires
        from <= to <= v.len(),
    ensures
        r == (match seconds_ms(v@.subrange(from as int, to as int)) {
            Some(x) => Some(saturate(x)),
            None => None,
        }),
{
    let ghost s = v@.subrange(from as int, to as int);
    if from < to && v[from] == '+' {
        let bv = copy_range(v, from + 1, to);
        assert(s.drop_first() =~= bv@);
        parse_unsigned_seconds(&bv)
    } else {
        let bv = copy_range(v, from, to);
        parse_unsigned_seconds(&bv)
    }
}


/// Parse a duration (`500ms`, `1.5s`, `250`) to milliseconds; 0 when
/// unreadable.
pub fn parse_duration(s: &str) -> (r: u32)
    ensures
        r == duration_ms(s@),
{
    let cs = chars_of(s);
    let (b, e) = trim_bounds(&cs);
    let t = string_of(&cs, b, e);
    let low = lowercase(t.as_str());
    let l = chars_of(low.as_str());
    let n = l.len();
    if n >= 2 && l[n - 2] == 'm' && l[n - 1] == 's' {
        proof {
            assert(l@.subrange(n - 2, n as int) =~= seq!['m', 's']);
        }
        let head = copy_range(&l, 0, n - 2);
        let (hb, he) = trim_bounds(&head);
        match parse_u32(&head, hb, he) {
            Some(v) => v,
            None => 0,
        }
    } else if n >= 1 && l[n - 1] == 's' {
        proof {
            assert(l@.subrange(n - 1, n as int) =~= seq!['s']);
            if n >= 2 {
                assert(!(l@.subrange(n - 2, n as int) == seq!['m', 's'])) by {
                    if l@.subrange(n - 2, n as int) == seq!['m', 's'] {
                        assert(l@.subrange(n - 2, n as int)[0] == l@[n - 2]);
                    }
                }
            }
            assert(l@.drop_last() =~= l@.subrange(0, n - 1));
        }
        let head = copy_range(&l, 0, n - 1);
        let (hb, he) = trim_bounds(&head);
        match parse_seconds(&head, hb, he) {
            Some(v) => v,
            None => 0,
        }
    } else {
        proof {
            if n >= 2 {
                assert(!(l@.subrange(n - 2, n as int) == seq!['m', 's'])) by {
                    if l@.subrange(n - 2, n as int) == seq!['m', 's'] {
                        assert(l@.subrange(n - 2, n as int)[0] == l@[n - 2]);
                        assert(l@.subrange(n - 2, n as int)[1] == l@[n - 1]);
                    }
                }
            }
            if n >= 1 {
                assert(!(l@.subrange(n - 1, n as int) == seq!['s'])) by {
                    if l@.subrange(n - 1, n as int) == seq!['s'] {
                        assert(l@.subrange(n - 1, n as int)[0] == l@[n - 1]);
                    }
                }
            }
            assert(l@.subrange(0, n as int) =~= l@);
        }
        match parse_u32(&l, 0, n) {
            Some(v) => v,
            None => 0,
        }
    }
}

/// `s` with every occurrence of `p`, taken left to right, replaced by `r`.
pub open spec fn replaced(s: Seq<char>, p: Seq<char>, r: Seq<char>) -> Seq<char>
    decreases s.len(),
{
    if s.len() == 0 || p.len() == 0 {
        s
    } else if has_at(s, 0, p) {
        r + replaced(s.subrange(p.len() as int, s.len() as int), p, r)
    } else {
        seq![s[0]] + replaced(s.drop_first(), p, r)
    }
}

/// Replaces every occurrence of `p` in `v`, left to right, by `r`.
fn replace_all(v: &Vec<char>, p: &Vec<char>, r: &Vec<char>) -> (out: Vec<char>)
    ensures
        out@ == replaced(v@, p@, r@),
{
    let mut out: Vec<char> = Vec::new();
    if p.len() == 0 {
        extend_chars(&mut out, v);
        assert(out@ =~= v@);
        return out;
    }
    let n = v.len();
    let mut i: usize = 0;
    proof {
        assert(v@.subrange(0, n as int) =~= v@);
    }
    while i < n
        invariant
            i <= n == v.len(),
            p.len() > 0,
            out@ + replaced(v@.subrange(i as int, n as int), p@, r@) == replaced(v@, p@, r@),
        decreases n - i,
    {
        let ghost rest = v@.subrange(i as int, n as int);
        if matches_at(v, i, p) {
            proof {
                assert(rest.subrange(0, p@.len() as int) =~= v@.subrange(i as int, i + p@.len()));
                assert(rest.subrange(p@.len() as int, rest.len() as int) =~= v@.subrange(i + p@.len(), n as int));
                assert(out@ + r@ + replaced(v@.subrange(i + p@.len(), n as int), p@, r@) =~= out@ + (r@ + replaced(rest.subrange(p@.len() as int, rest.len() as int), p@, r@)));
            }
            extend_chars(&mut out, r);
            i += p.len();
        } else {
            proof {
                if has_at(rest, 0, p@) {
                    assert(rest.subrange(0, p@.len() as int) =~= v@.subrange(i as int, i + p@.len()));
                }
                assert(rest.drop_first() =~= v@.subrange(i + 1, n as int));
                assert(out@.push(v@[i as int]) + replaced(v@.subrange(i + 1, n as int), p@, r@) =~= out@ + (seq![rest[0]] + replaced(rest.drop_first(), p@, r@)));
            }
            out.push(v[i]);
            i += 1;
        }
    }
    proof {
        assert(v@.subrange(n as int, n as int).len() == 0);
        assert(out@ + Seq::<char>::empty() =~= out@);
    }
    out
}

/// The characters of `s` with the five XML entities decoded, `&amp;`
/// first.
pub open spec fn decoded(s: Seq<char>) -> Seq<char> {
    replaced(
        replaced(
            replaced(replaced(replaced(s, "&amp;"@, "&"@), "&lt;"@, "<"@), "&gt;"@, ">"@),
            "&quot;"@,
            "\""@,
        ),
        "&apos;"@,
        "'"@,
    )
}

/// Decode XML entities: `&amp;`, `&lt;`, `&gt;`, `&quot;`, `&apos;`, each
/// in turn over the whole text.
pub fn decode_entities(v: &Vec<char>) -> (r: Vec<char>)
    ensures
        r@ == decoded(v@),
{
    let a = replace_all(v, &chars_of("&amp;"), &chars_of("&"));
    let b = replace_all(&a, &chars_of("&lt;"), &chars_of("<"));
    let c = replace_all(&b, &chars_of("&gt;"), &chars_of(">"));
    let d = replace_all(&c, &chars_of("&quot;"), &chars_of("\""));
    replace_all(&d, &chars_of("&apos;"), &chars_of("'"))
}

/// Whether `p` occurs in `v`.
pub open spec fn contains_seq(v: Seq<char>, p: Seq<char>) -> bool {
    exists|k: int| has_at(v, k, p)
}

fn contains_str(v: &Vec<char>, p: &str) -> (r: bool)
    ensures
        r == contains_seq(v@, p@),
{
    let pv = chars_of(p);
    let mut k: usize = 0;
    while k < v.len()
        invariant
            k <= v.len(),
            pv@ == p@,
            forall|j: int| 0 <= j < k ==> !has_at(v@, j, p@),
        decreases v.len() - k,
    {
        if matches_at(v, k, &pv) {
            return true;
        }
        k += 1;
    }
    if matches_at(v, v.len(), &pv) {
        return true;
    }
    assert forall|j: int| !has_at(v@, j, p@) by {
        if j > v.len() {
            assert(!(j + p@.len() <= v@.len()));
        }
    }
    false
}

/// The contour an SSML `contour` attribute asks for, read from the sign of
/// the change at the final point `100%`.
pub open spec fn contour_of_attr(s: Seq<char>) -> PitchContour {
    let l = lower_of(trimmed(s));
    let shaped = contains_seq(l, "+"@) || ends_with(l, seq![')']);
    if shaped && (contains_seq(l, "100%,+"@) || contains_seq(l, "100%, +"@)) {
        PitchContour::Rising
    } else if shaped && (contains_seq(l, "100%,-"@) || contains_seq(l, "100%, -"@)) {
        PitchContour::Falling
    } else {
        PitchContour::Flat
    }
}

/// Parse an SSML `contour` attribute.
pub fn parse_contour(s: &str) -> (r: PitchContour)
    ensures
        r == contour_of_attr(s@),
{
    let cs = chars_of(s);
    let (b, e) = trim_bounds(&cs);
    let t = string_of(&cs, b, e);
    let low = lowercase(t.as_str());
    let l = chars_of(low.as_str());
    let n = l.len();
    let closes = n > 0 && l[n - 1] == ')';
    proof {
        if n > 0 {
            assert(ends_with(l@, seq![')']) == (l@[n - 1] == ')')) by {
                assert(l@.subrange(n - 1, n as int)[0] == l@[n - 1]);
                if l@[n - 1] == ')' {
                    assert(l@.subrange(n - 1, n as int) =~= seq![')']);
                }
            }
        }
    }
    let shaped = contains_str(&l, "+") || closes;
    if shaped && (contains_str(&l, "100%,+") || contains_str(&l, "100%, +")) {
        PitchContour::Rising
    } else if shaped && (contains_str(&l, "100%,-") || contains_str(&l, "100%, -")) {
        PitchContour::Falling
    } else {
        PitchContour::Flat
    }
}

/// Whether `v` holds exactly the characters of `w`.
fn is_word(v: &Vec<char>, w: &str) -> (r: bool)
    ensures
        r == (v@ == w@),
{
    let wv = chars_of(w);
    same_chars(v, &wv)
}

/// A `String` holding the characters of `v`.
fn to_string(v: &Vec<char>) -> (r: String)
    ensures
        r@ == v@,
{
    let r = string_of(v, 0, v.len());
    assert(v@.subrange(0, v@.len() as int) =~= v@);
    r
}

/// The lowercase form of the characters of `v`.
fn lower_chars(v: &Vec<char>) -> (r: Vec<char>)
    ensures
        r@ == lower_of(v@),
{
    let s = to_string(v);
    let l = lowercase(s.as_str());
    chars_of(l.as_str())
}

/// The value of the first attribute named `name`.
pub open spec fn attr_value(attrs: Seq<(Vec<char>, Vec<char>)>, name: Seq<char>) -> Option<Seq<char>>
    decreases attrs.len(),
{
    if attrs.len() == 0 {
        None
    } else if attrs[0].0@ == name {
        Some(attrs[0].1@)
    } else {
        attr_value(attrs.drop_first(), name)
    }
}

/// The value of the first attribute named `name`.
fn attr<'a>(attrs: &'a Vec<(Vec<char>, Vec<char>)>, name: &str) -> (r: Option<&'a Vec<char>>)
    ensures
        match r {
            Some(v) => attr_value(attrs@, name@) == Some(v@),
            None => attr_value(attrs@, name@) is None,
        },
{
    let nv = chars_of(name);
    let mut i: usize = 0;
    proof {
        assert(attrs@.subrange(0, attrs@.len() as int) =~= attrs@);
    }
    while i < attrs.len()
        invariant
            i <= attrs.len(),
            nv@ == name@,
            attr_value(attrs@, name@) == attr_value(attrs@.subrange(i as int, attrs@.len() as int), name@),
        decreases attrs.len() - i,
    {
        proof {
            assert(attrs@.subrange(i as int, attrs@.len() as int).drop_first() =~= attrs@.subrange(i + 1, attrs@.len() as int));
        }
        if same_chars(&attrs[i].0, &nv) {
            return Some(&attrs[i].1);
        }
        i += 1;
    }
    None
}

/// A synthesis error with the given message.
fn syntax_error(msg: &str) -> (r: SynthesizerError)
    ensures
        r matches SynthesizerError::SynthesisError(m) && m@ == msg@,
{
    SynthesizerError::SynthesisError(String::from_str(msg))
}

/// Whether a character may stand in a tag or attribute name.
pub open spec fn is_name_char(c: char) -> bool {
    alphanumeric(c) || c == '-' || c == '_' || c == ':'
}

/// Where the name starting at `p` ends.
pub open spec fn name_end(v: Seq<char>, p: int) -> int
    decreases v.len() - p,
{
    if p < 0 || p >= v.len() {
        if p < 0 { 0 } else { v.len() as int }
    } else if is_name_char(v[p]) {
        name_end(v, p + 1)
    } else {
        p
    }
}

/// The first position at or after `p` where `pat` occurs, or the end.
pub open spec fn until_end(v: Seq<char>, p: int, pat: Seq<char>) -> int
    decreases v.len() - p,
{
    if p < 0 || p >= v.len() {
        if p < 0 { 0 } else { v.len() as int }
    } else if has_at(v, p, pat) {
        p
    } else {
        until_end(v, p + 1, pat)
    }
}

/// The first position at or after `p` holding `c`, or the end.
pub open spec fn find_char(v: Seq<char>, p: int, c: char) -> int
    decreases v.len() - p,
{
    if p < 0 || p >= v.len() {
        if p < 0 { 0 } else { v.len() as int }
    } else if v[p] == c {
        p
    } else {
        find_char(v, p + 1, c)
    }
}

/// Where a quoted attribute value starting at `p` ends, or `None` when it
/// is not quoted or not closed.
pub open spec fn value_end(v: Seq<char>, p: int) -> Option<int> {
    if 0 <= p < v.len() && (v[p] == '"' || v[p] == '\'') {
        let c = find_char(v, p + 1, v[p]);
        if c < v.len() {
            Some(c + 1)
        } else {
            None
        }
    } else {
        None
    }
}

/// The attributes read from `p` on, set one by one into `acc` (names
/// lowercased, values decoded), and where they end; `None` on a malformed
/// value.
pub open spec fn attrs_from(v: Seq<char>, p: int, acc: Seq<(Seq<char>, Seq<char>)>) -> Option<
    (Seq<(Seq<char>, Seq<char>)>, int),
>
    decreases v.len() - p,
{
    let q = skip_space_from(v, p);
    if p < 0 || q >= v.len() || v[q] == '>' || v[q] == '/' {
        Some((acc, q))
    } else {
        let n = name_end(v, q);
        if n <= q {
            Some((acc, q))
        } else {
            let r = skip_space_from(v, n);
            if r < v.len() && v[r] == '=' {
                let s = skip_space_from(v, r + 1);
                match value_end(v, s) {
                    None => None,
                    Some(e) => if p < e <= v.len() {
                        attrs_from(
                            v,
                            e,
                            set_pair(acc, lower_of(v.subrange(q, n)), decoded(v.subrange(s + 1, e - 1))),
                        )
                    } else {
                        None
                    },
                }
            } else if p < r <= v.len() {
                attrs_from(v, r, acc)
            } else {
                None
            }
        }
    }
}

/// Where text starting at `p` ends: at the next `<` or the end.
pub open spec fn text_end(v: Seq<char>, p: int) -> int {
    find_char(v, p, '<')
}

/// Where a closing tag for `tag` at or after `p` ends; a closing tag of
/// another name is read up to its name.
pub open spec fn closing_end(v: Seq<char>, p: int, tag: Seq<char>) -> int {
    let q = skip_space_from(v, p);
    if has_at(v, q, "</"@) {
        let n0 = if q + 2 <= v.len() { q + 2 } else { v.len() as int };
        let n = name_end(v, n0);
        if lower_of(v.subrange(n0, n)) == lower_of(tag) {
            let w = skip_space_from(v, n);
            if w < v.len() && v[w] == '>' {
                w + 1
            } else {
                w
            }
        } else {
            n
        }
    } else {
        q
    }
}

/// `p` moved on by `k`, stopping at the end.
pub open spec fn moved(v: Seq<char>, p: int, k: int) -> int {
    if p + k <= v.len() {
        p + k
    } else {
        v.len() as int
    }
}

/// The element starting with `<` at `p` and where it ends, or `None` when
/// it is malformed.
pub open spec fn elem_at(v: Seq<char>, p: int) -> Option<(Node, int)>
    decreases v.len() - p, 0int,
{
    if p < 0 || p >= v.len() {
        None
    } else {
        let q = skip_space_from(v, p + 1);
        let n = name_end(v, q);
        if n <= q {
            None
        } else {
            match attrs_from(v, n, Seq::empty()) {
                None => None,
                Some((ps, a)) => {
                    let b = skip_space_from(v, a);
                    let sc = b < v.len() && v[b] == '/';
                    let c = if sc {
                        b + 1
                    } else {
                        b
                    };
                    let tag = lower_of(v.subrange(q, n));
                    if !(0 <= c < v.len() && v[c] == '>') {
                        None
                    } else if sc {
                        Some((elem_node(tag, ps, Seq::empty()), c + 1))
                    } else if c + 1 > p {
                        match nodes_from(v, c + 1, Seq::empty()) {
                            None => None,
                            Some((kids, e)) => Some(
                                (elem_node(tag, ps, kids), closing_end(v, e, v.subrange(q, n))),
                            ),
                        }
                    } else {
                        None
                    }
                },
            }
        }
    }
}

/// The sibling nodes read from `p` on, after `acc`, up to a closing tag or
/// the end of the input, and where they end; `None` when one of them is
/// malformed.
pub open spec fn nodes_from(v: Seq<char>, p: int, acc: Seq<Node>) -> Option<(Seq<Node>, int)>
    decreases v.len() - p, 1int,
{
    if p < 0 {
        None
    } else if p >= v.len() {
        Some((acc, p))
    } else {
        let q = skip_space_from(v, p);
        if q >= v.len() {
            Some((acc, q))
        } else if q < p {
            None
        } else if v[q] == '<' {
            if has_at(v, q, "<?"@) {
                let r = moved(v, until_end(v, q, "?>"@), 2);
                if p < r <= v.len() {
                    nodes_from(v, r, acc)
                } else {
                    None
                }
            } else if has_at(v, q, "<!--"@) {
                let r = moved(v, until_end(v, q, "-->"@), 3);
                if p < r <= v.len() {
                    nodes_from(v, r, acc)
                } else {
                    None
                }
            } else if has_at(v, q, "</"@) {
                Some((acc, q))
            } else {
                match elem_at(v, q) {
                    None => None,
                    Some((nd, e)) => if p < e <= v.len() {
                        nodes_from(v, e, acc.push(nd))
                    } else {
                        None
                    },
                }
            }
        } else {
            let t = text_end(v, q);
            let txt = decoded(trimmed(v.subrange(q, t)));
            if p < t <= v.len() {
                nodes_from(
                    v,
                    t,
                    if txt.len() > 0 {
                        acc.push(Node::Text(txt))
                    } else {
                        acc
                    },
                )
            } else {
                None
            }
        }
    }
}

proof fn lemma_find_char_bounds(v: Seq<char>, p: int, c: char)
    requires
        0 <= p <= v.len(),
    ensures
        p <= find_char(v, p, c) <= v.len(),
        find_char(v, p, c) < v.len() ==> v[find_char(v, p, c)] == c,
    decreases v.len() - p,
{
    if p < v.len() && v[p] != c {
        lemma_find_char_bounds(v, p + 1, c);
    }
}

proof fn lemma_name_end_bounds(v: Seq<char>, p: int)
    requires
        0 <= p <= v.len(),
    ensures
        p <= name_end(v, p) <= v.len(),
    decreases v.len() - p,
{
    if p < v.len() && is_name_char(v[p]) {
        lemma_name_end_bounds(v, p + 1);
    }
}

proof fn lemma_until_end_bounds(v: Seq<char>, p: int, pat: Seq<char>)
    requires
        0 <= p <= v.len(),
    ensures
        p <= until_end(v, p, pat) <= v.len(),
    decreases v.len() - p,
{
    if p < v.len() && !has_at(v, p, pat) {
        lemma_until_end_bounds(v, p + 1, pat);
    }
}

proof fn lemma_skip_bounds_at(v: Seq<char>, p: int)
    requires
        0 <= p <= v.len(),
    ensures
        p <= skip_space_from(v, p) <= v.len(),
    decreases v.len() - p,
{
    if p < v.len() && white_space(v[p]) {
        lemma_skip_bounds_at(v, p + 1);
    }
}

/// The tokenizer and tree builder over the characters of the input.
struct SimpleXmlParser {
    input: Vec<char>,
    pos: usize,
}

impl SimpleXmlParser {
    spec fn ok(self) -> bool {
        self.pos <= self.input.len()
    }

    spec fn moved_on(self, before: SimpleXmlParser) -> bool {
        &&& self.ok()
        &&& self.input@ == before.input@
        &&& self.pos >= before.pos
    }

    fn new(input: Vec<char>) -> (r: SimpleXmlParser)
        ensures
            r.input@ == input@,
            r.pos == 0,
    {
        SimpleXmlParser { input, pos: 0 }
    }

    fn peek(&self) -> (r: Option<char>)
        ensures
            r == (if self.pos < self.input.len() {
                Some(self.input@[self.pos as int])
            } else {
                None
            }),
    {
        if self.pos < self.input.len() {
            Some(self.input[self.pos])
        } else {
            None
        }
    }

    fn peek_str(&self, s: &str) -> (r: bool)
        ensures
            r == has_at(self.input@, self.pos as int, s@),
    {
        let p = chars_of(s);
        matches_at(&self.input, self.pos, &p)
    }

    /// Moves on by `k` characters, stopping at the end of the input.
    fn advance(&mut self, k: usize)
        requires
            old(self).ok(),
        ensures
            final(self).moved_on(*old(self)),
            final(self).pos == moved(old(self).input@, old(self).pos as int, k as int),
    {
        if k <= self.input.len() - self.pos {
            self.pos = self.pos + k;
        } else {
            self.pos = self.input.len();
        }
    }

    fn skip_whitespace(&mut self)
        requires
            old(self).ok(),
        ensures
            final(self).moved_on(*old(self)),
            final(self).pos == skip_space_from(old(self).input@, old(self).pos as int),
    {
        while self.pos < self.input.len() && is_space(self.input[self.pos])
            invariant
                self.moved_on(*old(self)),
                skip_space_from(self.input@, self.pos as int) == skip_space_from(
                    old(self).input@,
                    old(self).pos as int,
                ),
            decreases self.input.len() - self.pos,
        {
            self.pos += 1;
        }
    }

    /// Moves to the next occurrence of `pattern`, or to the end.
    fn skip_until(&mut self, pattern: &str)
        requires
            old(self).ok(),
        ensures
            final(self).moved_on(*old(self)),
            final(self).pos == until_end(old(self).input@, old(self).pos as int, pattern@),
    {
        let p = chars_of(pattern);
        while self.pos < self.input.len() && !matches_at(&self.input, self.pos, &p)
            invariant
                self.moved_on(*old(self)),
                p@ == pattern@,
                until_end(self.input@, self.pos as int, pattern@) == until_end(
                    old(self).input@,
                    old(self).pos as int,
                    pattern@,
                ),
            decreases self.input.len() - self.pos,
        {
            self.pos += 1;
        }
    }

    /// Reads a name: letters, digits, `-`, `_` and `:`.
    fn parse_name(&mut self) -> (r: Vec<char>)
        requires
            old(self).ok(),
        ensures
            final(self).moved_on(*old(self)),
            final(self).pos == name_end(old(self).input@, old(self).pos as int),
            r@ == old(self).input@.subrange(old(self).pos as int, final(self).pos as int),
    {
        let start = self.pos;
        while self.pos < self.input.len() && (is_alnum(self.input[self.pos]) || self.input[self.pos]
            == '-' || self.input[self.pos] == '_' || self.input[self.pos] == ':')
            invariant
                self.moved_on(*old(self)),
                start == old(self).pos,
                name_end(self.input@, self.pos as int) == name_end(
                    old(self).input@,
                    old(self).pos as int,
                ),
            decreases self.input.len() - self.pos,
        {
            self.pos += 1;
        }
        copy_range(&self.input, start, self.pos)
    }

    fn parse_attribute_value(&mut self) -> (r: Result<Vec<char>, SynthesizerError>)
        requires
            old(self).ok(),
        ensures
            final(self).moved_on(*old(self)),
            r is Ok <==> value_end(old(self).input@, old(self).pos as int) is Some,
            r is Ok ==> final(self).pos == value_end(old(self).input@, old(self).pos as int)->0,
            r matches Ok(x) ==> x@ == decoded(
                old(self).input@.subrange(old(self).pos + 1, final(self).pos - 1),
            ),
            r matches Err(e) ==> e is SynthesisError,
    {
        let quote = self.peek();
        if quote != Some('"') && quote != Some('\'') {
            return Err(syntax_error("Invalid SSML: expected quoted attribute value"));
        }
        let ghost qc = self.input@[self.pos as int];
        self.pos += 1;
        let start = self.pos;
        while self.pos < self.input.len()
            invariant
                self.moved_on(*old(self)),
                start == old(self).pos + 1,
                self.pos >= start,
                quote == Some(qc),
                qc == '"' || qc == '\'',
                old(self).pos < old(self).input@.len(),
                qc == old(self).input@[old(self).pos as int],
                find_char(self.input@, self.pos as int, qc) == find_char(
                    self.input@,
                    start as int,
                    qc,
                ),
            decreases self.input.len() - self.pos,
        {
            if self.peek() == quote {
                let raw = copy_range(&self.input, start, self.pos);
                self.pos += 1;
                return Ok(decode_entities(&raw));
            }
            self.pos += 1;
        }
        Err(syntax_error("Invalid SSML: unclosed attribute value"))
    }

    /// Reads `name="value"` pairs up to `>` or `/`; names are lowercased
    /// and a later value replaces an earlier one of the same name.
    fn parse_attributes(&mut self) -> (r: Result<Vec<(Vec<char>, Vec<char>)>, SynthesizerError>)
        requires
            old(self).ok(),
        ensures
            final(self).moved_on(*old(self)),
            match r {
                Ok(a) => attrs_from(old(self).input@, old(self).pos as int, Seq::empty()) == Some(
                    (attr_pairs(a@), final(self).pos as int),
                ),
                Err(e) => attrs_from(old(self).input@, old(self).pos as int, Seq::empty()) is None
                    && e is SynthesisError,
            },
    {
        let mut attrs: Vec<(Vec<char>, Vec<char>)> = Vec::new();
        proof {
            assert(attr_pairs(attrs@) =~= Seq::<(Seq<char>, Seq<char>)>::empty());
        }
        loop
            invariant_except_break
                attrs_from(self.input@, self.pos as int, attr_pairs(attrs@)) == attrs_from(
                    old(self).input@,
                    old(self).pos as int,
                    Seq::empty(),
                ),
            invariant
                self.moved_on(*old(self)),
            ensures
                self.moved_on(*old(self)),
                attrs_from(old(self).input@, old(self).pos as int, Seq::empty()) == Some(
                    (attr_pairs(attrs@), self.pos as int),
                ),
            decreases self.input.len() - self.pos,
        {
            let ghost p = self.pos as int;
            let ghost v = self.input@;
            self.skip_whitespace();
            proof {
                lemma_skip_bounds_at(v, p);
            }
            if self.pos >= self.input.len() {
                break;
            }
            let c = self.peek();
            if c == Some('>') || c == Some('/') {
                break;
            }
            let ghost q = self.pos as int;
            let name = self.parse_name();
            proof {
                lemma_name_end_bounds(v, q);
            }
            if name.len() == 0 {
                break;
            }
            let ghost n = self.pos as int;
            self.skip_whitespace();
            proof {
                lemma_skip_bounds_at(v, n);
            }
            if self.peek() == Some('=') {
                let ghost r = self.pos as int;
                self.pos += 1;
                self.skip_whitespace();
                proof {
                    lemma_skip_bounds_at(v, r + 1);
                }
                let ghost sp = self.pos as int;
                let value = match self.parse_attribute_value() {
                    Ok(v) => v,
                    Err(e) => return Err(e),
                };
                proof {
                    if sp < v.len() {
                        lemma_find_char_bounds(v, sp + 1, v[sp]);
                    }
                }
                let key = lower_chars(&name);
                set_attr(&mut attrs, key, value);
            }
        }
        Ok(attrs)
    }

    /// Reads text up to the next `<`, trimmed and with entities decoded.
    fn parse_text(&mut self) -> (r: Vec<char>)
        requires
            old(self).ok(),
        ensures
            final(self).moved_on(*old(self)),
            final(self).pos == text_end(old(self).input@, old(self).pos as int),
            r@ == decoded(trimmed(old(self).input@.subrange(old(self).pos as int, final(self).pos as int))),
    {
        let start = self.pos;
        while self.pos < self.input.len() && self.input[self.pos] != '<'
            invariant
                self.moved_on(*old(self)),
                start == old(self).pos,
                find_char(self.input@, self.pos as int, '<') == find_char(
                    old(self).input@,
                    old(self).pos as int,
                    '<',
                ),
            decreases self.input.len() - self.pos,
        {
            self.pos += 1;
        }
        let raw = copy_range(&self.input, start, self.pos);
        let (b, e) = trim_bounds(&raw);
        let t = copy_range(&raw, b, e);
        decode_entities(&t)
    }

    /// Skips `</name>` when it closes the element `tag_name`.
    fn skip_closing_tag(&mut self, tag_name: &Vec<char>)
        requires
            old(self).ok(),
        ensures
            final(self).moved_on(*old(self)),
            final(self).pos == closing_end(old(self).input@, old(self).pos as int, tag_name@),
    {
        let ghost v = self.input@;
        self.skip_whitespace();
        proof {
            lemma_skip_bounds_at(v, old(self).pos as int);
        }
        if self.peek_str("</") {
            self.advance(2);
            let ghost n0 = self.pos as int;
            let name = self.parse_name();
            let a = lower_chars(&name);
            let b = lower_chars(tag_name);
            if same_chars(&a, &b) {
                self.skip_whitespace();
                if self.peek() == Some('>') {
                    self.pos += 1;
                }
            }
        }
    }

    /// Reads sibling nodes until a closing tag or the end of the input.
    fn parse(&mut self) -> (r: Result<Vec<SsmlElement>, SynthesizerError>)
        requires
            old(self).ok(),
        ensures
            final(self).moved_on(*old(self)),
            match r {
                Ok(es) => nodes_from(old(self).input@, old(self).pos as int, Seq::empty()) == Some(
                    (nodes_of(es@), final(self).pos as int),
                ),
                Err(e) => nodes_from(old(self).input@, old(self).pos as int, Seq::empty()) is None
                    && e is SynthesisError,
            },
        decreases old(self).input@.len() - old(self).pos, 1int,
    {
        let mut elements: Vec<SsmlElement> = Vec::new();
        proof {
            assert(nodes_of(elements@) =~= Seq::<Node>::empty());
        }
        loop
            invariant_except_break
                nodes_from(self.input@, self.pos as int, nodes_of(elements@)) == nodes_from(
                    old(self).input@,
                    old(self).pos as int,
                    Seq::empty(),
                ),
            invariant
                self.moved_on(*old(self)),
            ensures
                self.moved_on(*old(self)),
                nodes_from(old(self).input@, old(self).pos as int, Seq::empty()) == Some(
                    (nodes_of(elements@), self.pos as int),
                ),
            decreases self.input.len() - self.pos,
        {
            if self.pos >= self.input.len() {
                break;
            }
            let ghost here = self.pos as int;
            let ghost v = self.input@;
            let ghost acc0 = nodes_of(elements@);
            self.skip_whitespace();
            proof {
                lemma_skip_bounds_at(v, here);
            }
            if self.pos >= self.input.len() {
                break;
            }
            if self.peek() == Some('<') {
                if self.peek_str("<?") {
                    let ghost q = self.pos as int;
                    self.skip_until("?>");
                    proof {
                        lemma_until_end_bounds(v, q, "?>"@);
                    }
                    self.advance(2);
                } else if self.peek_str("<!--") {
                    let ghost q = self.pos as int;
                    self.skip_until("-->");
                    proof {
                        lemma_until_end_bounds(v, q, "-->"@);
                    }
                    self.advance(3);
                } else if self.peek_str("</") {
                    break;
                } else {
                    let ghost before = elements@;
                    match self.parse_element() {
                        Ok(Some(el)) => {
                            elements.push(el);
                            proof {
                                assert(elements@.subrange(0, elements@.len() - 1) =~= before);
                            }
                        },
                        Ok(None) => {},
                        Err(e) => return Err(e),
                    }
                }
            } else {
                let ghost q = self.pos as int;
                let text = self.parse_text();
                proof {
                    lemma_find_char_bounds(v, q, '<');
                }
                if text.len() > 0 {
                    let ghost before = elements@;
                    let s = to_string(&text);
                    let ghost sv = s@;
                    elements.push(SsmlElement::Text(s));
                    proof {
                        assert(elements@.subrange(0, elements@.len() - 1) =~= before);
                        assert(elements@[elements@.len() - 1] == SsmlElement::Text(s));
                        assert(node_of(elements@[elements@.len() - 1]) == Node::Text(sv));
                        assert(nodes_of(elements@) == acc0.push(Node::Text(sv)));
                    }
                }
                proof {
                    assert(q < self.pos);
                    assert(nodes_from(v, self.pos as int, nodes_of(elements@)) == nodes_from(v, here, acc0));
                }
            }
        }
        Ok(elements)
    }

    /// Reads one element starting at `<`.
    fn parse_element(&mut self) -> (r: Result<Option<SsmlElement>, SynthesizerError>)
        requires
            old(self).ok(),
            old(self).pos < old(self).input.len(),
        ensures
            final(self).moved_on(*old(self)),
            r is Ok ==> final(self).pos > old(self).pos,
            match r {
                Ok(Some(el)) => elem_at(old(self).input@, old(self).pos as int) == Some(
                    (node_of(el), final(self).pos as int),
                ),
                Ok(None) => false,
                Err(e) => elem_at(old(self).input@, old(self).pos as int) is None
                    && e is SynthesisError,
            },
        decreases old(self).input@.len() - old(self).pos, 0int,
    {
        let ghost v = self.input@;
        let ghost p = self.pos as int;
        self.pos += 1;
        self.skip_whitespace();
        proof {
            lemma_skip_bounds_at(v, p + 1);
        }
        let ghost q = self.pos as int;
        let tag_name = self.parse_name();
        if tag_name.len() == 0 {
            return Err(syntax_error("Invalid SSML: empty tag name"));
        }
        let ghost n = self.pos as int;
        let attributes = match self.parse_attributes() {
            Ok(a) => a,
            Err(e) => return Err(e),
        };
        let ghost a = self.pos as int;
        self.skip_whitespace();
        proof {
            lemma_skip_bounds_at(v, a);
        }
        let self_closing = self.peek() == Some('/');
        if self_closing {
            self.pos += 1;
        }
        if self.peek() != Some('>') {
            let mut msg = String::from_str("Invalid SSML: expected '>' after tag '");
            push_seq(&mut msg, &tag_name);
            push_char(&mut msg, '\'');
            return Err(SynthesizerError::SynthesisError(msg));
        }
        self.pos += 1;
        let children = if self_closing {
            Vec::new()
        } else {
            let children = match self.parse() {
                Ok(c) => c,
                Err(e) => return Err(e),
            };
            self.skip_closing_tag(&tag_name);
            children
        };
        let tag = lower_chars(&tag_name);
        proof {
            if self_closing {
                assert(children@.len() == 0);
                assert(nodes_of(children@) =~= Seq::<Node>::empty());
            }
        }
        let el = create_element(&tag, &attributes, children);
        proof {
            lemma_element_node(tag@, attributes@, children@, el);
        }
        Ok(Some(el))
    }
}

proof fn lemma_set_pair_at(ps: Seq<(Seq<char>, Seq<char>)>, i: int, name: Seq<char>, value: Seq<char>)
    requires
        0 <= i <= ps.len(),
        forall|k: int| 0 <= k < i ==> #[trigger] ps[k].0 != name,
        i < ps.len() ==> ps[i].0 == name,
    ensures
        set_pair(ps, name, value) == if i < ps.len() {
            ps.update(i, (name, value))
        } else {
            ps.push((name, value))
        },
    decreases ps.len(),
{
    if ps.len() > 0 && i > 0 {
        let t = ps.drop_first();
        assert forall|k: int| 0 <= k < i - 1 implies #[trigger] t[k].0 != name by {
            assert(t[k] == ps[k + 1]);
        }
        lemma_set_pair_at(t, i - 1, name, value);
        if i < ps.len() {
            assert(seq![ps[0]] + t.update(i - 1, (name, value)) =~= ps.update(i, (name, value)));
        } else {
            assert(seq![ps[0]] + t.push((name, value)) =~= ps.push((name, value)));
        }
    } else if ps.len() == 0 {
        assert(seq![(name, value)] =~= ps.push((name, value)));
    }
}

/// Sets attribute `key` to `value`, replacing an earlier value.
fn set_attr(attrs: &mut Vec<(Vec<char>, Vec<char>)>, key: Vec<char>, value: Vec<char>)
    ensures
        attr_pairs(final(attrs)@) == set_pair(attr_pairs(old(attrs)@), key@, value@),
{
    let mut i: usize = 0;
    while i < attrs.len()
        invariant
            i <= attrs.len(),
            attrs@ == old(attrs)@,
            forall|k: int| 0 <= k < i ==> #[trigger] attrs@[k].0@ != key@,
        decreases attrs.len() - i,
    {
        if same_chars(&attrs[i].0, &key) {
            let ghost k = key@;
            let ghost val = value@;
            proof {
                lemma_set_pair_at(attr_pairs(attrs@), i as int, k, val);
            }
            attrs.set(i, (key, value));
            proof {
                assert(attr_pairs(attrs@) =~= attr_pairs(old(attrs)@).update(i as int, (k, val)));
            }
            return;
        }
        i += 1;
    }
    let ghost k = key@;
    let ghost val = value@;
    proof {
        lemma_set_pair_at(attr_pairs(attrs@), attrs@.len() as int, k, val);
    }
    attrs.push((key, value));
    proof {
        assert(attr_pairs(attrs@) =~= attr_pairs(old(attrs)@).push((k, val)));
    }
}

/// The text of the `Text` elements, laid end to end.
pub open spec fn texts_of(es: Seq<SsmlElement>) -> Seq<char>
    decreases es.len(),
{
    if es.len() == 0 {
        Seq::empty()
    } else {
        texts_of(es.drop_last()) + match es.last() {
            SsmlElement::Text(t) => t@,
            _ => Seq::empty(),
        }
    }
}

/// The text of the `Text` children, laid end to end.
fn extract_text(elements: &Vec<SsmlElement>) -> (r: String)
    ensures
        r@ == texts_of(elements@),
{
    let mut result = String::new();
    let mut i: usize = 0;
    while i < elements.len()
        invariant
            i <= elements.len(),
            result@ == texts_of(elements@.subrange(0, i as int)),
        decreases elements.len() - i,
    {
        proof {
            assert(elements@.subrange(0, i + 1).drop_last() =~= elements@.subrange(0, i as int));
        }
        if let SsmlElement::Text(t) = &elements[i] {
            let tc = chars_of(t.as_str());
            push_seq(&mut result, &tc);
        } else {
            assert(result@ =~= result@ + Seq::<char>::empty());
        }
        i += 1;
    }
    assert(elements@.subrange(0, elements@.len() as int) =~= elements@);
    result
}

/// A copy of an optional attribute value as a `String`.
fn attr_string(attrs: &Vec<(Vec<char>, Vec<char>)>, name: &str) -> (r: Option<String>)
    ensures
        match r {
            Some(v) => attr_value(attrs@, name@) == Some(v@),
            None => attr_value(attrs@, name@) is None,
        },
{
    match attr(attrs, name) {
        Some(v) => Some(to_string(v)),
        None => None,
    }
}

/// The view of an optional string.
pub open spec fn opt_view(o: Option<String>) -> Option<Seq<char>> {
    match o {
        Some(s) => Some(s@),
        None => None,
    }
}

/// The element a transparent container makes of its children.
pub open spec fn transparent(children: Seq<SsmlElement>, r: SsmlElement) -> bool {
    if children.len() == 0 {
        r matches SsmlElement::Text(t) && t@.len() == 0
    } else if children.len() == 1 {
        r == children[0]
    } else {
        r matches SsmlElement::Paragraph(c) && c@ == children
    }
}

/// What a tag, lowercased, makes of its attributes and children.
pub open spec fn element_of(
    tag: Seq<char>,
    attrs: Seq<(Vec<char>, Vec<char>)>,
    children: Seq<SsmlElement>,
    r: SsmlElement,
) -> bool {
    if tag == "break"@ {
        r == SsmlElement::Break(
            BreakSpec {
                time_ms: match attr_value(attrs, "time"@) {
                    Some(t) => duration_ms(t),
                    None => 0,
                },
                strength: match attr_value(attrs, "strength"@) {
                    Some(s) => strength_of(lower_of(s)),
                    None => BreakStrength::Medium,
                },
            },
        )
    } else if tag == "prosody"@ {
        match r {
            SsmlElement::Prosody { children: c, config } => {
                &&& c@ == children
                &&& opt_view(config.rate) == attr_value(attrs, "rate"@)
                &&& opt_view(config.pitch) == attr_value(attrs, "pitch"@)
                &&& opt_view(config.volume) == attr_value(attrs, "volume"@)
                &&& config.contour == match attr_value(attrs, "contour"@) {
                    Some(c) => contour_of_attr(c),
                    None => PitchContour::Flat,
                }
            },
            _ => false,
        }
    } else if tag == "emphasis"@ {
        match r {
            SsmlElement::Emphasis { children: c, level } => c@ == children && level == match attr_value(attrs, "level"@) {
                Some(l) => level_of(lower_of(l)),
                None => EmphasisLevel::Moderate,
            },
            _ => false,
        }
    } else if tag == "say-as"@ {
        match r {
            SsmlElement::SayAs { text, interpret_as } => text@ == texts_of(children) && interpret_as@
                == match attr_value(attrs, "interpret-as"@) {
                Some(v) => v,
                None => Seq::empty(),
            },
            _ => false,
        }
    } else if tag == "sub"@ {
        match r {
            SsmlElement::Sub { alias } => alias@ == match attr_value(attrs, "alias"@) {
                Some(v) => v,
                None => Seq::empty(),
            },
            _ => false,
        }
    } else if tag == "voice"@ {
        match r {
            SsmlElement::Voice { children: c, name } => c@ == children && opt_view(name) == attr_value(attrs, "name"@),
            _ => false,
        }
    } else if tag == "p"@ || tag == "paragraph"@ {
        r matches SsmlElement::Paragraph(c) && c@ == children
    } else if tag == "s"@ || tag == "sentence"@ {
        r matches SsmlElement::Sentence(c) && c@ == children
    } else {
        transparent(children, r)
    }
}

/// The element that a tag, lowercased, makes of its attributes and children;
/// unknown tags are transparent.
fn create_element(
    tag: &Vec<char>,
    attributes: &Vec<(Vec<char>, Vec<char>)>,
    children: Vec<SsmlElement>,
) -> (r: SsmlElement)
    ensures
        element_of(tag@, attributes@, children@, r),
{
    if is_word(tag, "break") {
        let mut spec = BreakSpec::default();
        if let Some(time) = attr(attributes, "time") {
            spec.time_ms = parse_duration(to_string(time).as_str());
        }
        if let Some(strength) = attr(attributes, "strength") {
            spec.strength = BreakStrength::parse(to_string(strength).as_str());
        }
        SsmlElement::Break(spec)
    } else if is_word(tag, "prosody") {
        let contour = match attr(attributes, "contour") {
            Some(c) => parse_contour(to_string(c).as_str()),
            None => PitchContour::Flat,
        };
        let config = ProsodySpec {
            rate: attr_string(attributes, "rate"),
            pitch: attr_string(attributes, "pitch"),
            volume: attr_string(attributes, "volume"),
            contour,
        };
        SsmlElement::Prosody { children, config }
    } else if is_word(tag, "emphasis") {
        let level = match attr(attributes, "level") {
            Some(l) => EmphasisLevel::parse(to_string(l).as_str()),
            None => EmphasisLevel::Moderate,
        };
        SsmlElement::Emphasis { children, level }
    } else if is_word(tag, "say-as") {
        let interpret_as = match attr_string(attributes, "interpret-as") {
            Some(s) => s,
            None => String::new(),
        };
        let text = extract_text(&children);
        SsmlElement::SayAs { text, interpret_as }
    } else if is_word(tag, "sub") {
        let alias = match attr_string(attributes, "alias") {
            Some(s) => s,
            None => String::new(),
        };
        SsmlElement::Sub { alias }
    } else if is_word(tag, "voice") {
        let name = attr_string(attributes, "name");
        SsmlElement::Voice { children, name }
    } else if is_word(tag, "p") || is_word(tag, "paragraph") {
        SsmlElement::Paragraph(children)
    } else if is_word(tag, "s") || is_word(tag, "sentence") {
        SsmlElement::Sentence(children)
    } else {
        let mut children = children;
        if children.len() == 0 {
            SsmlElement::Text(String::new())
        } else if children.len() == 1 {
            let ghost whole = children@;
            match children.pop() {
                Some(only) => {
                    assert(only == whole[0]);
                    only
                },
                None => SsmlElement::Text(String::new()),
            }
        } else {
            SsmlElement::Paragraph(children)
        }
    }
}

/// SSML parser.
pub struct SsmlParser;

impl SsmlParser {
    /// Parses an SSML string into a document. Input that, trimmed, does not
    /// start with `<` is plain text and becomes a single text element;
    /// markup is read as `nodes_from` describes, and malformed markup (an
    /// empty tag name, a missing `>`, an unquoted or unclosed attribute
    /// value) is a synthesis error.
    pub fn parse(input: &str) -> (r: Result<SsmlDocument, SynthesizerError>)
        ensures
            !has_at(trimmed(input@), 0, seq!['<']) ==> match r {
                Ok(d) => d.elements@.len() == 1 && match d.elements@[0] {
                    SsmlElement::Text(t) => t@ == input@,
                    _ => false,
                },
                Err(_) => false,
            },
            has_at(trimmed(input@), 0, seq!['<']) ==> match r {
                Ok(d) => nodes_from(trimmed(input@), 0, Seq::empty()) matches Some((ns, _))
                    && ns == nodes_of(d.elements@),
                Err(_) => nodes_from(trimmed(input@), 0, Seq::empty()) is None,
            },
            r matches Err(e) ==> e is SynthesisError,
    {
        let cs = chars_of(input);
        let (b, e) = trim_bounds(&cs);
        if !(b < e && cs[b] == '<') {
            proof {
                let t = trimmed(input@);
                if has_at(t, 0, seq!['<']) {
                    assert(t.subrange(0, 1)[0] == t[0]);
                    assert(t[0] == cs@[b as int]);
                }
            }
            let mut elements: Vec<SsmlElement> = Vec::new();
            elements.push(SsmlElement::Text(String::from_str(input)));
            return Ok(SsmlDocument { elements });
        }
        proof {
            let t = trimmed(input@);
            assert(t[0] == cs@[b as int]);
            assert(t.subrange(0, 1) =~= seq!['<']);
        }
        let trimmed_input = copy_range(&cs, b, e);
        let mut parser = SimpleXmlParser::new(trimmed_input);
        match parser.parse() {
            Ok(elements) => Ok(SsmlDocument { elements }),
            Err(err) => Err(err),
        }
    }

    /// Whether the input, trimmed, begins with `<speak` or `<?xml`.
    pub fn is_ssml(input: &str) -> (r: bool)
        ensures
            r == (has_at(trimmed(input@), 0, "<speak"@) || has_at(trimmed(input@), 0, "<?xml"@)),
    {
        let cs = chars_of(input);
        let (b, e) = trim_bounds(&cs);
        let t = copy_range(&cs, b, e);
        let a = chars_of("<speak");
        let x = chars_of("<?xml");
        matches_at(&t, 0, &a) || matches_at(&t, 0, &x)
    }
}

/// A copy of an optional string.
fn copy_opt(o: &Option<String>) -> (r: Option<String>)
    ensures
        r == *o,
{
    match o {
        Some(s) => Some(s.clone()),
        None => None,
    }
}

/// A copy of a prosody step.
fn copy_step(s: &ProsodyStep) -> (r: ProsodyStep)
    ensures
        r == *s,
{
    match s {
        ProsodyStep::Prosody(p) => ProsodyStep::Prosody(
            ProsodySpec {
                rate: copy_opt(&p.rate),
                pitch: copy_opt(&p.pitch),
                volume: copy_opt(&p.volume),
                contour: p.contour,
            },
        ),
        ProsodyStep::Emphasis(l) => ProsodyStep::Emphasis(*l),
    }
}

/// A copy of a chain of prosody steps.
fn copy_steps(v: &Vec<ProsodyStep>) -> (r: Vec<ProsodyStep>)
    ensures
        r@ == v@,
{
    let mut r: Vec<ProsodyStep> = Vec::new();
    let mut i: usize = 0;
    while i < v.len()
        invariant
            i <= v.len(),
            r@ == v@.subrange(0, i as int),
        decreases v.len() - i,
    {
        r.push(copy_step(&v[i]));
        i += 1;
        assert(r@ =~= v@.subrange(0, i as int));
    }
    assert(r@ =~= v@);
    r
}

/// A copy of a prosody specification.
fn copy_spec(p: &ProsodySpec) -> (r: ProsodySpec)
    ensures
        r == *p,
{
    ProsodySpec {
        rate: copy_opt(&p.rate),
        pitch: copy_opt(&p.pitch),
        volume: copy_opt(&p.volume),
        contour: p.contour,
    }
}

/// Whether a string holds only white space.
fn is_blank(s: &String) -> (r: bool)
    ensures
        r == (trimmed(s@).len() == 0),
{
    let cs = chars_of(s.as_str());
    let (b, e) = trim_bounds(&cs);
    b >= e
}

impl SsmlDocument {
    /// Creates a new empty SSML document.
    pub fn new() -> (r: SsmlDocument)
        ensures
            r.elements@.len() == 0,
    {
        SsmlDocument { elements: Vec::new() }
    }

    /// Extracts plain text from the document: texts joined by a space
    /// where neither side has one, a space per 200 ms of each break (at
    /// least one), and a space after each paragraph and sentence.
    pub fn to_plain_text(&self) -> (r: String)
        ensures
            r@ == plain_from(self.elements@, Seq::empty()),
    {
        let mut result = String::new();
        extract_text_from_elements(&self.elements, &mut result);
        result
    }

    /// The segments to synthesize, in document order: each non-blank text,
    /// say-as text and sub alias with the prosody steps of the elements
    /// around it, and for each break a sentinel `__break_<ms>__` with none.
    pub fn to_synthesis_segments(&self) -> (r: Vec<SynthesisSegment>)
        ensures
            seg_views(r@) == segments_of(self.elements@, Seq::empty()),
    {
        let mut segments: Vec<SynthesisSegment> = Vec::new();
        let base: Vec<ProsodyStep> = Vec::new();
        collect_segments(&self.elements, &base, &mut segments);
        assert(seg_views(segments@) =~= Seq::<(Seq<char>, Seq<ProsodyStep>)>::empty() + segments_of(self.elements@, Seq::empty()));
        segments
    }
}

/// How many spaces stand for a break in plain text: one per 200 ms of
/// the longer of its time and its strength, at least one.
pub open spec fn break_spaces(b: BreakSpec) -> nat {
    let longer = if b.time_ms > strength_ms(b.strength) {
        b.time_ms
    } else {
        strength_ms(b.strength)
    };
    if longer / 200 > 1 {
        (longer / 200) as nat
    } else {
        1
    }
}

/// `acc` followed by the plain text of `es`.
pub open spec fn plain_from(es: Seq<SsmlElement>, acc: Seq<char>) -> Seq<char>
    decreases es,
{
    if es.len() == 0 {
        acc
    } else {
        let a = plain_from(es.subrange(0, es.len() - 1), acc);
        match es[es.len() - 1] {
            SsmlElement::Text(t) => if a.len() > 0 && a.last() != ' ' && !(t@.len() > 0 && t@[0]
                == ' ') {
                a.push(' ') + t@
            } else {
                a + t@
            },
            SsmlElement::Break(b) => a + Seq::new(break_spaces(b), |k: int| ' '),
            SsmlElement::Prosody { children, .. } => plain_from(children@, a),
            SsmlElement::Emphasis { children, .. } => plain_from(children@, a),
            SsmlElement::SayAs { text, .. } => a + text@,
            SsmlElement::Sub { alias } => a + alias@,
            SsmlElement::Voice { children, .. } => plain_from(children@, a),
            SsmlElement::Paragraph(children) => plain_from(children@, a).push(' '),
            SsmlElement::Sentence(children) => plain_from(children@, a).push(' '),
        }
    }
}

/// Appends the plain text of `elements` to `result`.
fn extract_text_from_elements(elements: &Vec<SsmlElement>, result: &mut String)
    ensures
        final(result)@ == plain_from(elements@, old(result)@),
    decreases elements@,
{
    let mut i: usize = 0;
    proof {
        assert(elements@.subrange(0, 0).len() == 0);
    }
    while i < elements.len()
        invariant
            i <= elements.len(),
            result@ == plain_from(elements@.subrange(0, i as int), old(result)@),
        decreases elements.len() - i,
    {
        let ghost pre = elements@.subrange(0, i as int);
        let ghost cur = elements@.subrange(0, i + 1);
        let ghost a = result@;
        proof {
            assert(cur.subrange(0, cur.len() - 1) =~= pre);
            assert(cur[cur.len() - 1] == elements@[i as int]);
        }
        match &elements[i] {
            SsmlElement::Text(text) => {
                let tc = chars_of(text.as_str());
                let rc = chars_of(result.as_str());
                let rn = rc.len();
                if rn > 0 && rc[rn - 1] != ' ' && !(tc.len() > 0 && tc[0] == ' ') {
                    push_char(result, ' ');
                }
                push_seq(result, &tc);
            },
            SsmlElement::Break(spec) => {
                let st = spec.strength.to_ms();
                let longer = if spec.time_ms > st {
                    spec.time_ms
                } else {
                    st
                };
                let count = if longer / 200 > 1 {
                    longer / 200
                } else {
                    1
                };
                let mut k: u32 = 0;
                while k < count
                    invariant
                        k <= count,
                        result@ == a + Seq::new(k as nat, |j: int| ' '),
                    decreases count - k,
                {
                    push_char(result, ' ');
                    k += 1;
                    assert(result@ =~= a + Seq::new(k as nat, |j: int| ' '));
                }
                assert(count == break_spaces(*spec));
            },
            SsmlElement::Prosody { children, .. } => {
                proof {
                    assert(decreases_to!(elements@ => elements@[i as int]));
                }
                extract_text_from_elements(children, result);
            },
            SsmlElement::Emphasis { children, .. } => {
                proof {
                    assert(decreases_to!(elements@ => elements@[i as int]));
                }
                extract_text_from_elements(children, result);
            },
            SsmlElement::SayAs { text, .. } => {
                let tc = chars_of(text.as_str());
                push_seq(result, &tc);
            },
            SsmlElement::Sub { alias } => {
                let tc = chars_of(alias.as_str());
                push_seq(result, &tc);
            },
            SsmlElement::Voice { children, .. } => {
                proof {
                    assert(decreases_to!(elements@ => elements@[i as int]));
                }
                extract_text_from_elements(children, result);
            },
            SsmlElement::Paragraph(children) => {
                proof {
                    assert(decreases_to!(elements@ => elements@[i as int]));
                }
                extract_text_from_elements(children, result);
                push_char(result, ' ');
            },
            SsmlElement::Sentence(children) => {
                proof {
                    assert(decreases_to!(elements@ => elements@[i as int]));
                }
                extract_text_from_elements(children, result);
                push_char(result, ' ');
            },
        }
        proof {
            assert(result@ =~= plain_from(cur, old(result)@));
        }
        i += 1;
    }
    proof {
        assert(elements@.subrange(0, elements@.len() as int) =~= elements@);
    }
}

/// The texts and prosody steps of segments.
pub open spec fn seg_views(s: Seq<SynthesisSegment>) -> Seq<(Seq<char>, Seq<ProsodyStep>)> {
    Seq::new(s.len(), |i: int| (s[i].text@, s[i].prosody@))
}

/// Appends to `segments` the segments of `elements` under the prosody
/// steps `parent`.
fn collect_segments(
    elements: &Vec<SsmlElement>,
    parent: &Vec<ProsodyStep>,
    segments: &mut Vec<SynthesisSegment>,
)
    ensures
        seg_views(final(segments)@) == seg_views(old(segments)@) + segments_of(elements@, parent@),
    decreases elements@,
{
    let mut i: usize = 0;
    proof {
        assert(elements@.subrange(0, 0).len() == 0);
        assert(seg_views(segments@) =~= seg_views(old(segments)@) + segments_of(elements@.subrange(0, 0), parent@));
    }
    while i < elements.len()
        invariant
            i <= elements.len(),
            seg_views(segments@) == seg_views(old(segments)@) + segments_of(
                elements@.subrange(0, i as int),
                parent@,
            ),
        decreases elements.len() - i,
    {
        let ghost pre = elements@.subrange(0, i as int);
        let ghost cur = elements@.subrange(0, i + 1);
        let ghost before = seg_views(segments@);
        proof {
            assert(cur.subrange(0, cur.len() - 1) =~= pre);
            assert(cur[cur.len() - 1] == elements@[i as int]);
        }
        match &elements[i] {
            SsmlElement::Text(text) => {
                if !is_blank(text) {
                    let seg = SynthesisSegment { text: text.clone(), prosody: copy_steps(parent) };
                    segments.push(seg);
                    proof {
                        assert(seg_views(segments@) =~= before + seq![(text@, parent@)]);
                    }
                } else {
                    assert(before =~= before + Seq::<(Seq<char>, Seq<ProsodyStep>)>::empty());
                }
            },
            SsmlElement::Break(spec) => {
                let duration = if spec.time_ms > 0 {
                    spec.time_ms
                } else {
                    spec.strength.to_ms()
                };
                let seg = SynthesisSegment { text: break_text(duration), prosody: Vec::new() };
                segments.push(seg);
                proof {
                    assert(seg_views(segments@) =~= before + seq![(break_sentinel(spec.spec_duration_ms() as nat), Seq::<ProsodyStep>::empty())]);
                }
            },
            SsmlElement::Prosody { children, config } => {
                let mut steps = copy_steps(parent);
                steps.push(ProsodyStep::Prosody(copy_spec(config)));
                proof {
                    assert(decreases_to!(elements@ => elements@[i as int]));
                }
                collect_segments(children, &steps, segments);
            },
            SsmlElement::Emphasis { children, level } => {
                let mut steps = copy_steps(parent);
                steps.push(ProsodyStep::Emphasis(*level));
                proof {
                    assert(decreases_to!(elements@ => elements@[i as int]));
                }
                collect_segments(children, &steps, segments);
            },
            SsmlElement::SayAs { text, .. } => {
                segments.push(SynthesisSegment { text: text.clone(), prosody: copy_steps(parent) });
                proof {
                    assert(seg_views(segments@) =~= before + seq![(text@, parent@)]);
                }
            },
            SsmlElement::Sub { alias } => {
                segments.push(SynthesisSegment { text: alias.clone(), prosody: copy_steps(parent) });
                proof {
                    assert(seg_views(segments@) =~= before + seq![(alias@, parent@)]);
                }
            },
            SsmlElement::Voice { children, .. } => {
                proof {
                    assert(decreases_to!(elements@ => elements@[i as int]));
                }
                collect_segments(children, parent, segments);
            },
            SsmlElement::Paragraph(children) => {
                proof {
                    assert(decreases_to!(elements@ => elements@[i as int]));
                }
                collect_segments(children, parent, segments);
            },
            SsmlElement::Sentence(children) => {
                proof {
                    assert(decreases_to!(elements@ => elements@[i as int]));
                }
                collect_segments(children, parent, segments);
            },
        }
        proof {
            assert(seg_views(segments@) =~= seg_views(old(segments)@) + segments_of(cur, parent@));
        }
        i += 1;
    }
    proof {
        assert(elements@.subrange(0, elements@.len() as int) =~= elements@);
    }
}

/// Text without `<` is never taken for markup: trimmed, it does not start
/// with `<`, so the parser passes it through whole as one text element, and
/// the plain text of a document holding that element alone is the text
/// itself.
pub proof fn lemma_plain_text_round_trip(p: Seq<char>, t: String)
    requires
        forall|i: int| 0 <= i < p.len() ==> p[i] != '<',
        t@ == p,
    ensures
        !has_at(trimmed(p), 0, seq!['<']),
        plain_from(seq![SsmlElement::Text(t)], Seq::empty()) == p,
{
    crate::text::lemma_trimmed_is_slice(p);
    let tr = trimmed(p);
    if has_at(tr, 0, seq!['<']) {
        assert(tr.subrange(0, 1)[0] == tr[0]);
        let b = crate::text::trim_start(p);
        assert(tr[0] == p.subrange(b, b + tr.len())[0]);
    }
    let es = seq![SsmlElement::Text(t)];
    assert(es.subrange(0, 0).len() == 0);
    assert(plain_from(es.subrange(0, 0), Seq::empty()) == Seq::<char>::empty());
    assert(es[es.len() - 1] == SsmlElement::Text(t));
    assert(Seq::<char>::empty() + p =~= p);
}

/// The segments of `es` under the prosody steps `parent`, as text and steps,
/// in document order.
pub open spec fn segments_of(es: Seq<SsmlElement>, parent: Seq<ProsodyStep>) -> Seq<
    (Seq<char>, Seq<ProsodyStep>),
>
    decreases es,
{
    if es.len() == 0 {
        Seq::empty()
    } else {
        let init = segments_of(es.subrange(0, es.len() - 1), parent);
        let own: Seq<(Seq<char>, Seq<ProsodyStep>)> = match es[es.len() - 1] {
            SsmlElement::Text(t) => if trimmed(t@).len() > 0 {
                seq![(t@, parent)]
            } else {
                Seq::empty()
            },
            SsmlElement::Break(b) => seq![(break_sentinel(b.spec_duration_ms() as nat), Seq::empty())],
            SsmlElement::Prosody { children, config } => segments_of(
                children@,
                parent.push(ProsodyStep::Prosody(config)),
            ),
            SsmlElement::Emphasis { children, level } => segments_of(
                children@,
                parent.push(ProsodyStep::Emphasis(level)),
            ),
            SsmlElement::SayAs { text, .. } => seq![(text@, parent)],
            SsmlElement::Sub { alias } => seq![(alias@, parent)],
            SsmlElement::Voice { children, .. } => segments_of(children@, parent),
            SsmlElement::Paragraph(children) => segments_of(children@, parent),
            SsmlElement::Sentence(children) => segments_of(children@, parent),
        };
        init + own
    }
}

/// The pause length a segment text stands for, if it is a break sentinel
/// `__break_<ms>__`.
pub open spec fn sentinel_ms(t: Seq<char>) -> Option<u32> {
    let head = seq!['_', '_', 'b', 'r', 'e', 'a', 'k', '_'];
    if t.len() >= 10 && t.subrange(0, 8) == head && t.subrange(t.len() - 2, t.len() as int)
        == seq!['_', '_'] {
        u32_of(t.subrange(8, t.len() - 2))
    } else {
        None
    }
}

/// Reads a break sentinel `__break_<ms>__`; `None` for any other text.
pub fn break_duration(text: &str) -> (r: Option<u32>)
    ensures
        r == sentinel_ms(text@),
{
    let t = chars_of(text);
    let n = t.len();
    let head: Vec<char> = vec!['_', '_', 'b', 'r', 'e', 'a', 'k', '_'];
    let tail: Vec<char> = vec!['_', '_'];
    proof {
        assert(head@ =~= seq!['_', '_', 'b', 'r', 'e', 'a', 'k', '_']);
        assert(tail@ =~= seq!['_', '_']);
    }
    if n >= 10 && matches_at(&t, 0, &head) && matches_at(&t, n - 2, &tail) {
        parse_u32(&t, 8, n - 2)
    } else {
        None
    }
}

/// The number of samples in a pause of `ms` milliseconds at 22050 Hz,
/// rounded to the nearest sample.
pub fn silence_samples(ms: u32) -> (r: u64)
    ensures
        r == (ms as nat * 22050 + 500) / 1000,
{
    ((ms as u64) * 22050 + 500) / 1000
}

/// The content of an element, as values.
pub enum Node {
    /// Plain text.
    Text(Seq<char>),
    /// A pause.
    Break(BreakSpec),
    /// A `prosody` element: its children and attributes.
    Prosody {
        /// The children.
        children: Seq<Node>,
        /// The `rate` attribute.
        rate: Option<Seq<char>>,
        /// The `pitch` attribute.
        pitch: Option<Seq<char>>,
        /// The `volume` attribute.
        volume: Option<Seq<char>>,
        /// The contour read from the `contour` attribute.
        contour: PitchContour,
    },
    /// An `emphasis` element.
    Emphasis {
        /// The children.
        children: Seq<Node>,
        /// The level.
        level: EmphasisLevel,
    },
    /// A `say-as` element.
    SayAs {
        /// The text.
        text: Seq<char>,
        /// The interpretation.
        interpret_as: Seq<char>,
    },
    /// A `sub` element.
    Sub {
        /// The alias.
        alias: Seq<char>,
    },
    /// A `voice` element.
    Voice {
        /// The children.
        children: Seq<Node>,
        /// The name.
        name: Option<Seq<char>>,
    },
    /// A paragraph.
    Paragraph(Seq<Node>),
    /// A sentence.
    Sentence(Seq<Node>),
}

/// The value of one element.
pub open spec fn node_of(e: SsmlElement) -> Node
    decreases e,
{
    match e {
        SsmlElement::Text(t) => Node::Text(t@),
        SsmlElement::Break(b) => Node::Break(b),
        SsmlElement::Prosody { children, config } => Node::Prosody {
            children: nodes_of(children@),
            rate: opt_view(config.rate),
            pitch: opt_view(config.pitch),
            volume: opt_view(config.volume),
            contour: config.contour,
        },
        SsmlElement::Emphasis { children, level } => Node::Emphasis {
            children: nodes_of(children@),
            level,
        },
        SsmlElement::SayAs { text, interpret_as } => Node::SayAs {
            text: text@,
            interpret_as: interpret_as@,
        },
        SsmlElement::Sub { alias } => Node::Sub { alias: alias@ },
        SsmlElement::Voice { children, name } => Node::Voice {
            children: nodes_of(children@),
            name: opt_view(name),
        },
        SsmlElement::Paragraph(children) => Node::Paragraph(nodes_of(children@)),
        SsmlElement::Sentence(children) => Node::Sentence(nodes_of(children@)),
    }
}

/// The values of elements, in order.
pub open spec fn nodes_of(es: Seq<SsmlElement>) -> Seq<Node>
    decreases es,
{
    if es.len() == 0 {
        Seq::empty()
    } else {
        nodes_of(es.subrange(0, es.len() - 1)).push(node_of(es[es.len() - 1]))
    }
}

proof fn lemma_nodes_of_index(es: Seq<SsmlElement>)
    ensures
        nodes_of(es).len() == es.len(),
        forall|i: int| 0 <= i < es.len() ==> #[trigger] nodes_of(es)[i] == node_of(es[i]),
    decreases es.len(),
{
    if es.len() > 0 {
        let init = es.subrange(0, es.len() - 1);
        lemma_nodes_of_index(init);
        assert forall|i: int| 0 <= i < es.len() implies #[trigger] nodes_of(es)[i] == node_of(es[i]) by {
            if i < es.len() - 1 {
                assert(init[i] == es[i]);
            }
        }
    }
}

/// Attribute names and values.
pub open spec fn attr_pairs(a: Seq<(Vec<char>, Vec<char>)>) -> Seq<(Seq<char>, Seq<char>)> {
    Seq::new(a.len(), |i: int| (a[i].0@, a[i].1@))
}

/// The value of the first pair named `name`.
pub open spec fn pair_value(ps: Seq<(Seq<char>, Seq<char>)>, name: Seq<char>) -> Option<Seq<char>>
    decreases ps.len(),
{
    if ps.len() == 0 {
        None
    } else if ps[0].0 == name {
        Some(ps[0].1)
    } else {
        pair_value(ps.drop_first(), name)
    }
}

proof fn lemma_pair_value(a: Seq<(Vec<char>, Vec<char>)>, name: Seq<char>)
    ensures
        pair_value(attr_pairs(a), name) == attr_value(a, name),
    decreases a.len(),
{
    if a.len() > 0 {
        lemma_pair_value(a.drop_first(), name);
        assert(attr_pairs(a).drop_first() =~= attr_pairs(a.drop_first()));
    }
}

/// `ps` with `name` set to `value`: the first pair of that name replaced,
/// or a new pair at the end.
pub open spec fn set_pair(ps: Seq<(Seq<char>, Seq<char>)>, name: Seq<char>, value: Seq<char>) -> Seq<
    (Seq<char>, Seq<char>),
>
    decreases ps.len(),
{
    if ps.len() == 0 {
        seq![(name, value)]
    } else if ps[0].0 == name {
        ps.update(0, (name, value))
    } else {
        seq![ps[0]] + set_pair(ps.drop_first(), name, value)
    }
}

/// The text of the text nodes, laid end to end.
pub open spec fn node_texts(ns: Seq<Node>) -> Seq<char>
    decreases ns.len(),
{
    if ns.len() == 0 {
        Seq::empty()
    } else {
        node_texts(ns.drop_last()) + match ns.last() {
            Node::Text(t) => t,
            _ => Seq::empty(),
        }
    }
}

/// What a tag, lowercased, makes of its attributes and children; unknown
/// tags, `speak` among them, are transparent.
pub open spec fn elem_node(tag: Seq<char>, ps: Seq<(Seq<char>, Seq<char>)>, children: Seq<Node>) -> Node {
    if tag == "break"@ {
        Node::Break(
            BreakSpec {
                time_ms: match pair_value(ps, "time"@) {
                    Some(t) => duration_ms(t),
                    None => 0,
                },
                strength: match pair_value(ps, "strength"@) {
                    Some(s) => strength_of(lower_of(s)),
                    None => BreakStrength::Medium,
                },
            },
        )
    } else if tag == "prosody"@ {
        Node::Prosody {
            children,
            rate: pair_value(ps, "rate"@),
            pitch: pair_value(ps, "pitch"@),
            volume: pair_value(ps, "volume"@),
            contour: match pair_value(ps, "contour"@) {
                Some(c) => contour_of_attr(c),
                None => PitchContour::Flat,
            },
        }
    } else if tag == "emphasis"@ {
        Node::Emphasis {
            children,
            level: match pair_value(ps, "level"@) {
                Some(l) => level_of(lower_of(l)),
                None => EmphasisLevel::Moderate,
            },
        }
    } else if tag == "say-as"@ {
        Node::SayAs {
            text: node_texts(children),
            interpret_as: match pair_value(ps, "interpret-as"@) {
                Some(v) => v,
                None => Seq::empty(),
            },
        }
    } else if tag == "sub"@ {
        Node::Sub {
            alias: match pair_value(ps, "alias"@) {
                Some(v) => v,
                None => Seq::empty(),
            },
        }
    } else if tag == "voice"@ {
        Node::Voice { children, name: pair_value(ps, "name"@) }
    } else if tag == "p"@ || tag == "paragraph"@ {
        Node::Paragraph(children)
    } else if tag == "s"@ || tag == "sentence"@ {
        Node::Sentence(children)
    } else if children.len() == 0 {
        Node::Text(Seq::empty())
    } else if children.len() == 1 {
        children[0]
    } else {
        Node::Paragraph(children)
    }
}

proof fn lemma_texts(es: Seq<SsmlElement>)
    ensures
        node_texts(nodes_of(es)) == texts_of(es),
    decreases es.len(),
{
    if es.len() > 0 {
        let init = es.subrange(0, es.len() - 1);
        lemma_texts(init);
        assert(es.drop_last() =~= init);
        assert(nodes_of(es).drop_last() =~= nodes_of(init));
        assert(nodes_of(es).last() == node_of(es.last()));
    }
}

proof fn lemma_element_node(
    tag: Seq<char>,
    attrs: Seq<(Vec<char>, Vec<char>)>,
    children: Seq<SsmlElement>,
    r: SsmlElement,
)
    requires
        element_of(tag, attrs, children, r),
    ensures
        node_of(r) == elem_node(tag, attr_pairs(attrs), nodes_of(children)),
{
    lemma_pair_value(attrs, "time"@);
    lemma_pair_value(attrs, "strength"@);
    lemma_pair_value(attrs, "rate"@);
    lemma_pair_value(attrs, "pitch"@);
    lemma_pair_value(attrs, "volume"@);
    lemma_pair_value(attrs, "contour"@);
    lemma_pair_value(attrs, "level"@);
    lemma_pair_value(attrs, "interpret-as"@);
    lemma_pair_value(attrs, "alias"@);
    lemma_pair_value(attrs, "name"@);
    lemma_texts(children);
    lemma_nodes_of_index(children);
    if children.len() == 0 {
        assert(nodes_of(children) =~= Seq::<Node>::empty());
        if let SsmlElement::Text(t) = r {
            assert(t@ =~= Seq::<char>::empty());
        }
    }
}

} // verus!
