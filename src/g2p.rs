//! Grapheme-to-phoneme conversion for English and Spanish: a rewrite
//! system of priority-ordered rules, bucketed by first letter, with an
//! exception lexicon.
use vstd::prelude::*;
use crate::error::SynthesizerError;
use crate::phoneme::{
    PhonemeInventory, Phoneme, english_phonemes, first_phoneme, spanish_phonemes,
};
use crate::text::{
    alphabetic, chars_of, extend_chars, has_at, is_alpha, is_space, join, join_with, lower_of,
    lemma_words_append, lowercase, matches_at, push_char, push_seq, same_chars, seqs_of,
    split_words, string_of, white_space, words,
};
use crate::voice::{Language, language_of_code};

verus! {

/// Where a rule may apply, seen from the letter before its pattern.
#[derive(Debug, Clone, Copy, PartialEq, Eq, Structural)]
pub enum LeftContext {
    /// Anywhere (no condition).
    Any,
    /// Only at the start of the word (`^`).
    WordStart,
}

/// Where a rule may apply, seen from what follows its pattern.
#[derive(Debug, Clone, Copy, PartialEq, Eq, Structural)]
pub enum RightContext {
    /// Anything may follow (no condition).
    Any,
    /// The pattern ends the word (`$`).
    WordEnd,
    /// The next letter is `e` or `i` (`[ei]`).
    BeforeEOrI,
    /// The word ends in exactly one more letter, an `e` (`e$`).
    FinalE,
}

/// A grapheme-to-phoneme rewrite rule.
#[derive(Debug)]
pub struct G2PRule {
    /// Letters the rule consumes.
    pub pattern: Vec<char>,
    /// Condition on what precedes the pattern.
    pub left_context: LeftContext,
    /// Condition on what follows the pattern.
    pub right_context: RightContext,
    /// Space-separated phoneme symbols the rule emits.
    pub phonemes: Vec<char>,
    /// Priority (higher is tried first).
    pub priority: i32,
}

/// The rules whose patterns begin with one letter, in the order they are tried.
#[derive(Debug)]
pub struct RuleBucket {
    /// The letter.
    pub first: char,
    /// The rules, by priority and then pattern length, both descending.
    pub rules: Vec<G2PRule>,
}

/// A rule as values.
pub struct RuleEntry {
    /// Letters the rule consumes.
    pub pattern: Seq<char>,
    /// Condition on what precedes the pattern.
    pub left: LeftContext,
    /// Condition on what follows the pattern.
    pub right: RightContext,
    /// Space-separated phoneme symbols the rule emits.
    pub phonemes: Seq<char>,
    /// Priority (higher is tried first).
    pub priority: i32,
}

/// A bucket of rules as values.
pub struct BucketEntry {
    /// The letter.
    pub first: char,
    /// The rules, in the order they are tried.
    pub rules: Seq<RuleEntry>,
}

/// A row of a rule table: pattern, contexts, phonemes, priority.
pub type RuleRow = (&'static str, LeftContext, RightContext, &'static str, i32);

/// The value of a rule.
pub open spec fn rule_entry(r: G2PRule) -> RuleEntry {
    RuleEntry {
        pattern: r.pattern@,
        left: r.left_context,
        right: r.right_context,
        phonemes: r.phonemes@,
        priority: r.priority,
    }
}

/// The values of rules.
pub open spec fn rule_entries(rs: Seq<G2PRule>) -> Seq<RuleEntry> {
    Seq::new(rs.len(), |i: int| rule_entry(rs[i]))
}

/// The values of buckets.
pub open spec fn bucket_entries(bs: Seq<RuleBucket>) -> Seq<BucketEntry> {
    Seq::new(bs.len(), |i: int| BucketEntry { first: bs[i].first, rules: rule_entries(bs[i].rules@) })
}

/// The values of lexicon entries.
pub open spec fn lexicon_entries(ex: Seq<(Vec<char>, Vec<char>)>) -> Seq<(Seq<char>, Seq<char>)> {
    Seq::new(ex.len(), |i: int| (ex[i].0@, ex[i].1@))
}

/// The rule a table row stands for.
pub open spec fn row_entry(row: RuleRow) -> RuleEntry {
    RuleEntry { pattern: row.0@, left: row.1, right: row.2, phonemes: row.3@, priority: row.4 }
}

/// The letter under which a pattern is filed.
pub open spec fn bucket_key(p: Seq<char>) -> char {
    if p.len() > 0 {
        p[0]
    } else {
        '?'
    }
}

/// Whether `a` may be tried before `b`: higher priority, or equal priority
/// and a pattern at least as long.
pub open spec fn ranks_before(a: RuleEntry, b: RuleEntry) -> bool {
    a.priority > b.priority || (a.priority == b.priority && a.pattern.len() >= b.pattern.len())
}

/// Rules in the order they are tried.
pub open spec fn bucket_sorted(rs: Seq<RuleEntry>) -> bool {
    forall|i: int, j: int| 0 <= i < j < rs.len() ==> ranks_before(#[trigger] rs[i], #[trigger] rs[j])
}

/// Buckets are filed by distinct letters, each holds only rules whose
/// patterns begin with its letter, and each is in trial order.
pub open spec fn table_wf(t: Seq<BucketEntry>) -> bool {
    &&& forall|b: int| 0 <= b < t.len() ==> bucket_sorted(#[trigger] t[b].rules)
    &&& forall|b: int, i: int|
        0 <= b < t.len() && 0 <= i < t[b].rules.len() ==> bucket_key(#[trigger] t[b].rules[i].pattern)
            == t[b].first
    &&& forall|b: int, c: int| 0 <= b < c < t.len() ==> #[trigger] t[b].first != #[trigger] t[c].first
}

/// `rs` with `r` placed after every rule that ranks at least as high.
pub open spec fn insert_ranked(rs: Seq<RuleEntry>, r: RuleEntry) -> Seq<RuleEntry>
    decreases rs.len(),
{
    if rs.len() == 0 {
        seq![r]
    } else if ranks_before(rs[0], r) {
        seq![rs[0]] + insert_ranked(rs.drop_first(), r)
    } else {
        seq![r] + rs
    }
}

/// The table with rule `r` added to the bucket of its first letter, a new
/// bucket at the end when there is none.
pub open spec fn add_to_table(t: Seq<BucketEntry>, r: RuleEntry) -> Seq<BucketEntry>
    decreases t.len(),
{
    if t.len() == 0 {
        seq![BucketEntry { first: bucket_key(r.pattern), rules: seq![r] }]
    } else if t[0].first == bucket_key(r.pattern) {
        t.update(0, BucketEntry { first: t[0].first, rules: insert_ranked(t[0].rules, r) })
    } else {
        seq![t[0]] + add_to_table(t.drop_first(), r)
    }
}

/// The table that adding the rows in order builds.
pub open spec fn table_of_rows(rows: Seq<RuleRow>) -> Seq<BucketEntry>
    decreases rows.len(),
{
    if rows.len() == 0 {
        Seq::empty()
    } else {
        add_to_table(table_of_rows(rows.drop_last()), row_entry(rows.last()))
    }
}

/// The lexicon a list of word and phoneme rows makes.
pub open spec fn lexicon_of_rows(rows: Seq<(&'static str, &'static str)>) -> Seq<(Seq<char>, Seq<char>)> {
    Seq::new(rows.len(), |i: int| (rows[i].0@, rows[i].1@))
}

/// The English rules, in the order they are added.
pub open spec fn english_rule_rows() -> Seq<RuleRow> {
    seq![
        // Basic vowel rules
        ("a", LeftContext::Any, RightContext::FinalE, "e", 10),  // 'ate' -> /eɪt/
        ("a", LeftContext::Any, RightContext::Any, "&", 1),  // default 'a' -> /æ/
        ("e", LeftContext::Any, RightContext::FinalE, "i", 10),  // 'ee' at end
        ("e", LeftContext::Any, RightContext::WordEnd, "", 5),  // silent 'e' at end
        ("e", LeftContext::Any, RightContext::Any, "E", 1),  // default 'e' -> /ɛ/
        ("i", LeftContext::Any, RightContext::FinalE, "aI", 10),  // 'ite' -> /aɪt/
        ("i", LeftContext::Any, RightContext::Any, "I", 1),  // default 'i' -> /ɪ/
        ("o", LeftContext::Any, RightContext::FinalE, "o", 10),  // 'ose' -> /oʊz/
        ("o", LeftContext::Any, RightContext::Any, "A", 1),  // default 'o' -> /ɑ/
        ("u", LeftContext::Any, RightContext::FinalE, "u", 10),  // 'ute' -> /uːt/
        ("u", LeftContext::Any, RightContext::Any, "@", 1),  // default 'u' -> /ʌ/
        // Consonant combinations
        ("ch", LeftContext::Any, RightContext::Any, "tS", 20),
        ("sh", LeftContext::Any, RightContext::Any, "S", 20),
        ("th", LeftContext::Any, RightContext::Any, "T", 15),  // voiceless th
        ("ng", LeftContext::Any, RightContext::Any, "N", 20),
        ("ph", LeftContext::Any, RightContext::Any, "f", 20),
        ("wh", LeftContext::Any, RightContext::Any, "w", 15),
        ("ck", LeftContext::Any, RightContext::Any, "k", 20),
        ("ght", LeftContext::Any, RightContext::Any, "t", 25),
        ("gh", LeftContext::Any, RightContext::Any, "", 20),  // silent gh
        // Single consonants
        ("b", LeftContext::Any, RightContext::Any, "b", 1),
        ("c", LeftContext::Any, RightContext::BeforeEOrI, "s", 10),  // soft c
        ("c", LeftContext::Any, RightContext::Any, "k", 1),  // hard c
        ("d", LeftContext::Any, RightContext::Any, "d", 1),
        ("f", LeftContext::Any, RightContext::Any, "f", 1),
        ("g", LeftContext::Any, RightContext::BeforeEOrI, "dZ", 8),  // soft g (sometimes)
        ("g", LeftContext::Any, RightContext::Any, "g", 1),  // hard g
        ("h", LeftContext::Any, RightContext::Any, "h", 1),
        ("j", LeftContext::Any, RightContext::Any, "dZ", 1),
        ("k", LeftContext::Any, RightContext::Any, "k", 1),
        ("l", LeftContext::Any, RightContext::Any, "l", 1),
        ("m", LeftContext::Any, RightContext::Any, "m", 1),
        ("n", LeftContext::Any, RightContext::Any, "n", 1),
        ("p", LeftContext::Any, RightContext::Any, "p", 1),
        ("qu", LeftContext::Any, RightContext::Any, "k w", 15),
        ("r", LeftContext::Any, RightContext::Any, "r", 1),
        ("s", LeftContext::Any, RightContext::Any, "s", 1),
        ("t", LeftContext::Any, RightContext::Any, "t", 1),
        ("v", LeftContext::Any, RightContext::Any, "v", 1),
        ("w", LeftContext::Any, RightContext::Any, "w", 1),
        ("x", LeftContext::Any, RightContext::Any, "k s", 1),
        ("y", LeftContext::WordStart, RightContext::Any, "j", 10),  // 'y' at start -> /j/
        ("y", LeftContext::Any, RightContext::Any, "i", 1),  // 'y' elsewhere -> /ɪ/
        ("z", LeftContext::Any, RightContext::Any, "z", 1),
        // Vowel combinations
        ("ea", LeftContext::Any, RightContext::Any, "i", 15),
        ("ee", LeftContext::Any, RightContext::Any, "i", 15),
        ("oo", LeftContext::Any, RightContext::Any, "u", 15),
        ("ou", LeftContext::Any, RightContext::Any, "aU", 15),
        ("ow", LeftContext::Any, RightContext::Any, "aU", 10),
        ("oi", LeftContext::Any, RightContext::Any, "OI", 15),
        ("oy", LeftContext::Any, RightContext::Any, "OI", 15),
        ("ai", LeftContext::Any, RightContext::Any, "e", 15),
        ("ay", LeftContext::Any, RightContext::Any, "e", 15),
        ("au", LeftContext::Any, RightContext::Any, "O", 15),
        ("aw", LeftContext::Any, RightContext::Any, "O", 15),
    ]
}

/// The English exception lexicon.
pub open spec fn english_lexicon_rows() -> Seq<(&'static str, &'static str)> {
    seq![
        // Common exceptions
        ("the", "D @"),
        ("a", "@"),
        ("is", "I z"),
        ("are", "A r"),
        ("was", "w A z"),
        ("were", "w 3 r"),
        ("have", "h & v"),
        ("has", "h & z"),
        ("had", "h & d"),
        ("do", "d u"),
        ("does", "d @ z"),
        ("did", "d I d"),
        ("to", "t u"),
        ("of", "@ v"),
        ("for", "f O r"),
        ("with", "w I T"),
        ("you", "j u"),
        ("this", "D I s"),
        ("that", "D & t"),
        ("one", "w @ n"),
        ("two", "t u"),
        ("hello", "h E l o"),
        ("world", "w 3 r l d"),
    ]
}

/// The Spanish rules, in the order they are added.
pub open spec fn spanish_rule_rows() -> Seq<RuleRow> {
    seq![
        // Spanish vowels (very regular)
        ("a", LeftContext::Any, RightContext::Any, "a", 1),
        ("e", LeftContext::Any, RightContext::Any, "e", 1),
        ("i", LeftContext::Any, RightContext::Any, "i", 1),
        ("o", LeftContext::Any, RightContext::Any, "o", 1),
        ("u", LeftContext::Any, RightContext::Any, "u", 1),
        // Accented vowels (same sounds)
        ("á", LeftContext::Any, RightContext::Any, "a", 1),
        ("é", LeftContext::Any, RightContext::Any, "e", 1),
        ("í", LeftContext::Any, RightContext::Any, "i", 1),
        ("ó", LeftContext::Any, RightContext::Any, "o", 1),
        ("ú", LeftContext::Any, RightContext::Any, "u", 1),
        ("ü", LeftContext::Any, RightContext::Any, "u", 1),
        // Consonant combinations
        ("ch", LeftContext::Any, RightContext::Any, "tS", 20),
        ("ll", LeftContext::Any, RightContext::Any, "L", 20),
        ("rr", LeftContext::Any, RightContext::Any, "rr", 20),
        ("ñ", LeftContext::Any, RightContext::Any, "J", 20),
        ("qu", LeftContext::Any, RightContext::BeforeEOrI, "k", 20),
        ("gu", LeftContext::Any, RightContext::BeforeEOrI, "g", 20),
        // C rules
        ("c", LeftContext::Any, RightContext::BeforeEOrI, "T", 10),  // ceceo/seseo (using ceceo)
        ("c", LeftContext::Any, RightContext::Any, "k", 1),
        // G rules
        ("g", LeftContext::Any, RightContext::BeforeEOrI, "x", 10),  // soft g
        ("g", LeftContext::Any, RightContext::Any, "g", 1),  // hard g
        // Single consonants
        ("b", LeftContext::Any, RightContext::Any, "b", 1),
        ("d", LeftContext::Any, RightContext::Any, "d", 1),
        ("f", LeftContext::Any, RightContext::Any, "f", 1),
        ("h", LeftContext::Any, RightContext::Any, "", 1),  // silent h
        ("j", LeftContext::Any, RightContext::Any, "x", 1),
        ("k", LeftContext::Any, RightContext::Any, "k", 1),
        ("l", LeftContext::Any, RightContext::Any, "l", 1),
        ("m", LeftContext::Any, RightContext::Any, "m", 1),
        ("n", LeftContext::Any, RightContext::Any, "n", 1),
        ("p", LeftContext::Any, RightContext::Any, "p", 1),
        ("r", LeftContext::WordStart, RightContext::Any, "rr", 5),  // initial r is trilled
        ("r", LeftContext::Any, RightContext::Any, "r", 1),
        ("s", LeftContext::Any, RightContext::Any, "s", 1),
        ("t", LeftContext::Any, RightContext::Any, "t", 1),
        ("v", LeftContext::Any, RightContext::Any, "b", 1),  // v = b in Spanish
        ("w", LeftContext::Any, RightContext::Any, "w", 1),
        ("x", LeftContext::Any, RightContext::Any, "k s", 1),
        ("y", LeftContext::Any, RightContext::WordEnd, "i", 10),  // 'y' at end -> /i/
        ("y", LeftContext::Any, RightContext::Any, "j", 1),  // 'y' elsewhere
        ("z", LeftContext::Any, RightContext::Any, "T", 1),  // ceceo
    ]
}

/// Whether the left context holds at position `pos`.
pub open spec fn left_ok(c: LeftContext, pos: int) -> bool {
    match c {
        LeftContext::Any => true,
        LeftContext::WordStart => pos == 0,
    }
}

/// Whether the right context holds when the pattern ends before `after`.
pub open spec fn right_ok(c: RightContext, w: Seq<char>, after: int) -> bool {
    match c {
        RightContext::Any => true,
        RightContext::WordEnd => after == w.len(),
        RightContext::BeforeEOrI => after < w.len() && (w[after] == 'e' || w[after] == 'i'),
        RightContext::FinalE => after + 1 == w.len() && w[after] == 'e',
    }
}

/// Whether rule `r` applies at position `pos` of word `w`.
pub open spec fn applies(r: RuleEntry, w: Seq<char>, pos: int) -> bool {
    &&& r.pattern.len() > 0
    &&& has_at(w, pos, r.pattern)
    &&& left_ok(r.left, pos)
    &&& right_ok(r.right, w, pos + r.pattern.len())
}

/// The first of `rs` that applies at `pos`.
pub open spec fn first_applying(rs: Seq<RuleEntry>, w: Seq<char>, pos: int) -> Option<RuleEntry>
    decreases rs.len(),
{
    if rs.len() == 0 {
        None
    } else if applies(rs[0], w, pos) {
        Some(rs[0])
    } else {
        first_applying(rs.drop_first(), w, pos)
    }
}

/// The rules filed under letter `c`.
pub open spec fn bucket_for(t: Seq<BucketEntry>, c: char) -> Seq<RuleEntry>
    decreases t.len(),
{
    if t.len() == 0 {
        Seq::empty()
    } else if t[0].first == c {
        t[0].rules
    } else {
        bucket_for(t.drop_first(), c)
    }
}

/// The phonemes that the lexicon holds for word `w`.
pub open spec fn lookup(lex: Seq<(Seq<char>, Seq<char>)>, w: Seq<char>) -> Option<Seq<char>>
    decreases lex.len(),
{
    if lex.len() == 0 {
        None
    } else if lex[0].0 == w {
        Some(lex[0].1)
    } else {
        lookup(lex.drop_first(), w)
    }
}

/// Whether the front end keeps a character of the lowercased text.
pub open spec fn keep_char(c: char) -> bool {
    alphabetic(c) || white_space(c) || c == '\'' || c == '-'
}

/// The characters of `v` that the front end keeps.
pub open spec fn normalized(v: Seq<char>) -> Seq<char>
    decreases v.len(),
{
    if v.len() == 0 {
        Seq::empty()
    } else if keep_char(v.last()) {
        normalized(v.drop_last()).push(v.last())
    } else {
        normalized(v.drop_last())
    }
}

/// The separator between the phonemes of a word.
pub open spec fn phoneme_sep() -> Seq<char> {
    seq![' ']
}

/// The separator between words: a pause symbol between spaces.
pub open spec fn word_sep() -> Seq<char> {
    seq![' ', '_', ' ']
}

/// The rule that fires at position `pos` of word `w`, if any.
pub open spec fn rule_at(t: Seq<BucketEntry>, w: Seq<char>, pos: int) -> Option<RuleEntry> {
    first_applying(bucket_for(t, w[pos]), w, pos)
}

/// The non-empty phoneme strings that the rules emit for `w[pos..]`.
pub open spec fn walk(t: Seq<BucketEntry>, w: Seq<char>, pos: int) -> Seq<Seq<char>>
    decreases w.len() - pos,
{
    if pos < 0 || pos >= w.len() {
        Seq::empty()
    } else {
        match rule_at(t, w, pos) {
            Some(r) => {
                let step = if r.pattern.len() > 0 {
                    r.pattern.len() as int
                } else {
                    1
                };
                let next = if pos + step <= w.len() {
                    pos + step
                } else {
                    w.len() as int
                };
                let rest = walk(t, w, next);
                if r.phonemes.len() > 0 {
                    seq![r.phonemes] + rest
                } else {
                    rest
                }
            },
            None => walk(t, w, pos + 1),
        }
    }
}

/// The phonemes of one word: the lexicon's entry, else what the rules emit.
pub open spec fn word_phonemes(t: Seq<BucketEntry>, lex: Seq<(Seq<char>, Seq<char>)>, w: Seq<char>) -> Seq<char> {
    match lookup(lex, w) {
        Some(p) => p,
        None => join(walk(t, w, 0), phoneme_sep()),
    }
}

/// The non-empty phoneme strings of the words, in order.
pub open spec fn spoken(t: Seq<BucketEntry>, lex: Seq<(Seq<char>, Seq<char>)>, ws: Seq<Seq<char>>) -> Seq<Seq<char>>
    decreases ws.len(),
{
    if ws.len() == 0 {
        Seq::empty()
    } else {
        let init = spoken(t, lex, ws.drop_last());
        let p = word_phonemes(t, lex, ws.last());
        if p.len() > 0 {
            init.push(p)
        } else {
            init
        }
    }
}

/// The words of a text as the front end reads them.
pub open spec fn text_words(text: Seq<char>) -> Seq<Seq<char>> {
    words(normalized(lower_of(text)))
}

/// The phoneme string of a text under the given tables.
pub open spec fn phonemes_under(t: Seq<BucketEntry>, lex: Seq<(Seq<char>, Seq<char>)>, text: Seq<char>) -> Seq<char> {
    join(spoken(t, lex, text_words(text)), word_sep())
}

/// The phoneme inventory of a language.
pub open spec fn phonemes_of_language(l: Language) -> Seq<Phoneme> {
    match l {
        Language::English => english_phonemes(),
        Language::Spanish => spanish_phonemes(),
    }
}

/// The rule table of a language.
pub open spec fn rules_of_language(l: Language) -> Seq<BucketEntry> {
    match l {
        Language::English => table_of_rows(english_rule_rows()),
        Language::Spanish => table_of_rows(spanish_rule_rows()),
    }
}

/// The exception lexicon of a language (Spanish has none).
pub open spec fn lexicon_of_language(l: Language) -> Seq<(Seq<char>, Seq<char>)> {
    match l {
        Language::English => lexicon_of_rows(english_lexicon_rows()),
        Language::Spanish => Seq::empty(),
    }
}

/// The ASCII phoneme string of a text in a language.
pub open spec fn ascii_phonemes(l: Language, text: Seq<char>) -> Seq<char> {
    phonemes_under(rules_of_language(l), lexicon_of_language(l), text)
}

/// The IPA rendering of a text in a language.
pub open spec fn ipa_phonemes(l: Language, text: Seq<char>) -> Seq<char> {
    ipa_of(phonemes_of_language(l), words(ascii_phonemes(l, text)))
}

/// Grapheme-to-phoneme converter.
pub struct G2PConverter {
    language: &'static str,
    inventory: PhonemeInventory,
    rules: Vec<RuleBucket>,
    exceptions: Vec<(Vec<char>, Vec<char>)>,
}

impl G2PConverter {
    /// The rule buckets.
    pub closed spec fn buckets(self) -> Seq<RuleBucket> {
        self.rules@
    }

    /// The exception lexicon: words and their phonemes.
    pub closed spec fn lexicon(self) -> Seq<(Vec<char>, Vec<char>)> {
        self.exceptions@
    }

    /// The phoneme inventory of the language.
    pub closed spec fn spec_inventory(self) -> PhonemeInventory {
        self.inventory
    }

    /// The language code.
    pub closed spec fn spec_language(self) -> Seq<char> {
        self.language@
    }

    /// The rule table as values.
    pub open spec fn rules_table(self) -> Seq<BucketEntry> {
        bucket_entries(self.buckets())
    }

    /// The exception lexicon as values.
    pub open spec fn lexicon_table(self) -> Seq<(Seq<char>, Seq<char>)> {
        lexicon_entries(self.lexicon())
    }

    /// The rule table is well formed.
    pub open spec fn wf(self) -> bool {
        table_wf(self.rules_table())
    }

    /// The phoneme string of a text.
    pub open spec fn phonemes_of(self, text: Seq<char>) -> Seq<char> {
        phonemes_under(self.rules_table(), self.lexicon_table(), text)
    }

    /// Whether this is the converter of language `l`, with its code,
    /// inventory, rules and lexicon.
    pub open spec fn is_language(self, l: Language) -> bool {
        &&& self.spec_language() == l.spec_code()
        &&& self.spec_inventory().lang() == l.spec_code()
        &&& self.spec_inventory().entries() == phonemes_of_language(l)
        &&& self.rules_table() == rules_of_language(l)
        &&& self.lexicon_table() == lexicon_of_language(l)
    }

    fn empty(language: &'static str, inventory: PhonemeInventory) -> (r: G2PConverter)
        ensures
            r.spec_language() == language@,
            r.spec_inventory() == inventory,
            r.rules_table().len() == 0,
            r.lexicon_table().len() == 0,
    {
        let r = G2PConverter { language, inventory, rules: Vec::new(), exceptions: Vec::new() };
        assert(r.rules_table() =~= Seq::<BucketEntry>::empty());
        r
    }

    /// Creates the converter for English.
    pub fn english() -> (r: G2PConverter)
        ensures
            r.is_language(Language::English),
            r.wf(),
    {
        let mut converter = G2PConverter::empty("en", PhonemeInventory::english());
        let rows: Vec<RuleRow> = vec![
            // Basic vowel rules
            ("a", LeftContext::Any, RightContext::FinalE, "e", 10),  // 'ate' -> /eɪt/
            ("a", LeftContext::Any, RightContext::Any, "&", 1),  // default 'a' -> /æ/
            ("e", LeftContext::Any, RightContext::FinalE, "i", 10),  // 'ee' at end
            ("e", LeftContext::Any, RightContext::WordEnd, "", 5),  // silent 'e' at end
            ("e", LeftContext::Any, RightContext::Any, "E", 1),  // default 'e' -> /ɛ/
            ("i", LeftContext::Any, RightContext::FinalE, "aI", 10),  // 'ite' -> /aɪt/
            ("i", LeftContext::Any, RightContext::Any, "I", 1),  // default 'i' -> /ɪ/
            ("o", LeftContext::Any, RightContext::FinalE, "o", 10),  // 'ose' -> /oʊz/
            ("o", LeftContext::Any, RightContext::Any, "A", 1),  // default 'o' -> /ɑ/
            ("u", LeftContext::Any, RightContext::FinalE, "u", 10),  // 'ute' -> /uːt/
            ("u", LeftContext::Any, RightContext::Any, "@", 1),  // default 'u' -> /ʌ/
            // Consonant combinations
            ("ch", LeftContext::Any, RightContext::Any, "tS", 20),
            ("sh", LeftContext::Any, RightContext::Any, "S", 20),
            ("th", LeftContext::Any, RightContext::Any, "T", 15),  // voiceless th
            ("ng", LeftContext::Any, RightContext::Any, "N", 20),
            ("ph", LeftContext::Any, RightContext::Any, "f", 20),
            ("wh", LeftContext::Any, RightContext::Any, "w", 15),
            ("ck", LeftContext::Any, RightContext::Any, "k", 20),
            ("ght", LeftContext::Any, RightContext::Any, "t", 25),
            ("gh", LeftContext::Any, RightContext::Any, "", 20),  // silent gh
            // Single consonants
            ("b", LeftContext::Any, RightContext::Any, "b", 1),
            ("c", LeftContext::Any, RightContext::BeforeEOrI, "s", 10),  // soft c
            ("c", LeftContext::Any, RightContext::Any, "k", 1),  // hard c
            ("d", LeftContext::Any, RightContext::Any, "d", 1),
            ("f", LeftContext::Any, RightContext::Any, "f", 1),
            ("g", LeftContext::Any, RightContext::BeforeEOrI, "dZ", 8),  // soft g (sometimes)
            ("g", LeftContext::Any, RightContext::Any, "g", 1),  // hard g
            ("h", LeftContext::Any, RightContext::Any, "h", 1),
            ("j", LeftContext::Any, RightContext::Any, "dZ", 1),
            ("k", LeftContext::Any, RightContext::Any, "k", 1),
            ("l", LeftContext::Any, RightContext::Any, "l", 1),
            ("m", LeftContext::Any, RightContext::Any, "m", 1),
            ("n", LeftContext::Any, RightContext::Any, "n", 1),
            ("p", LeftContext::Any, RightContext::Any, "p", 1),
            ("qu", LeftContext::Any, RightContext::Any, "k w", 15),
            ("r", LeftContext::Any, RightContext::Any, "r", 1),
            ("s", LeftContext::Any, RightContext::Any, "s", 1),
            ("t", LeftContext::Any, RightContext::Any, "t", 1),
            ("v", LeftContext::Any, RightContext::Any, "v", 1),
            ("w", LeftContext::Any, RightContext::Any, "w", 1),
            ("x", LeftContext::Any, RightContext::Any, "k s", 1),
            ("y", LeftContext::WordStart, RightContext::Any, "j", 10),  // 'y' at start -> /j/
            ("y", LeftContext::Any, RightContext::Any, "i", 1),  // 'y' elsewhere -> /ɪ/
            ("z", LeftContext::Any, RightContext::Any, "z", 1),
            // Vowel combinations
            ("ea", LeftContext::Any, RightContext::Any, "i", 15),
            ("ee", LeftContext::Any, RightContext::Any, "i", 15),
            ("oo", LeftContext::Any, RightContext::Any, "u", 15),
            ("ou", LeftContext::Any, RightContext::Any, "aU", 15),
            ("ow", LeftContext::Any, RightContext::Any, "aU", 10),
            ("oi", LeftContext::Any, RightContext::Any, "OI", 15),
            ("oy", LeftContext::Any, RightContext::Any, "OI", 15),
            ("ai", LeftContext::Any, RightContext::Any, "e", 15),
            ("ay", LeftContext::Any, RightContext::Any, "e", 15),
            ("au", LeftContext::Any, RightContext::Any, "O", 15),
            ("aw", LeftContext::Any, RightContext::Any, "O", 15),
        ];
        assert(rows@ =~= english_rule_rows());
        converter.load_rules(&rows);
        let words: Vec<(&'static str, &'static str)> = vec![
            // Common exceptions
            ("the", "D @"),
            ("a", "@"),
            ("is", "I z"),
            ("are", "A r"),
            ("was", "w A z"),
            ("were", "w 3 r"),
            ("have", "h & v"),
            ("has", "h & z"),
            ("had", "h & d"),
            ("do", "d u"),
            ("does", "d @ z"),
            ("did", "d I d"),
            ("to", "t u"),
            ("of", "@ v"),
            ("for", "f O r"),
            ("with", "w I T"),
            ("you", "j u"),
            ("this", "D I s"),
            ("that", "D & t"),
            ("one", "w @ n"),
            ("two", "t u"),
            ("hello", "h E l o"),
            ("world", "w 3 r l d"),
        ];
        assert(words@ =~= english_lexicon_rows());
        converter.load_lexicon(&words);
        proof {
            lemma_rows_wf(english_rule_rows());
        }
        converter
    }

    /// Creates the converter for Spanish.
    pub fn spanish() -> (r: G2PConverter)
        ensures
            r.is_language(Language::Spanish),
            r.wf(),
    {
        let mut converter = G2PConverter::empty("es", PhonemeInventory::spanish());
        let rows: Vec<RuleRow> = vec![
            // Spanish vowels (very regular)
            ("a", LeftContext::Any, RightContext::Any, "a", 1),
            ("e", LeftContext::Any, RightContext::Any, "e", 1),
            ("i", LeftContext::Any, RightContext::Any, "i", 1),
            ("o", LeftContext::Any, RightContext::Any, "o", 1),
            ("u", LeftContext::Any, RightContext::Any, "u", 1),
            // Accented vowels (same sounds)
            ("á", LeftContext::Any, RightContext::Any, "a", 1),
            ("é", LeftContext::Any, RightContext::Any, "e", 1),
            ("í", LeftContext::Any, RightContext::Any, "i", 1),
            ("ó", LeftContext::Any, RightContext::Any, "o", 1),
            ("ú", LeftContext::Any, RightContext::Any, "u", 1),
            ("ü", LeftContext::Any, RightContext::Any, "u", 1),
            // Consonant combinations
            ("ch", LeftContext::Any, RightContext::Any, "tS", 20),
            ("ll", LeftContext::Any, RightContext::Any, "L", 20),
            ("rr", LeftContext::Any, RightContext::Any, "rr", 20),
            ("ñ", LeftContext::Any, RightContext::Any, "J", 20),
            ("qu", LeftContext::Any, RightContext::BeforeEOrI, "k", 20),
            ("gu", LeftContext::Any, RightContext::BeforeEOrI, "g", 20),
            // C rules
            ("c", LeftContext::Any, RightContext::BeforeEOrI, "T", 10),  // ceceo/seseo (using ceceo)
            ("c", LeftContext::Any, RightContext::Any, "k", 1),
            // G rules
            ("g", LeftContext::Any, RightContext::BeforeEOrI, "x", 10),  // soft g
            ("g", LeftContext::Any, RightContext::Any, "g", 1),  // hard g
            // Single consonants
            ("b", LeftContext::Any, RightContext::Any, "b", 1),
            ("d", LeftContext::Any, RightContext::Any, "d", 1),
            ("f", LeftContext::Any, RightContext::Any, "f", 1),
            ("h", LeftContext::Any, RightContext::Any, "", 1),  // silent h
            ("j", LeftContext::Any, RightContext::Any, "x", 1),
            ("k", LeftContext::Any, RightContext::Any, "k", 1),
            ("l", LeftContext::Any, RightContext::Any, "l", 1),
            ("m", LeftContext::Any, RightContext::Any, "m", 1),
            ("n", LeftContext::Any, RightContext::Any, "n", 1),
            ("p", LeftContext::Any, RightContext::Any, "p", 1),
            ("r", LeftContext::WordStart, RightContext::Any, "rr", 5),  // initial r is trilled
            ("r", LeftContext::Any, RightContext::Any, "r", 1),
            ("s", LeftContext::Any, RightContext::Any, "s", 1),
            ("t", LeftContext::Any, RightContext::Any, "t", 1),
            ("v", LeftContext::Any, RightContext::Any, "b", 1),  // v = b in Spanish
            ("w", LeftContext::Any, RightContext::Any, "w", 1),
            ("x", LeftContext::Any, RightContext::Any, "k s", 1),
            ("y", LeftContext::Any, RightContext::WordEnd, "i", 10),  // 'y' at end -> /i/
            ("y", LeftContext::Any, RightContext::Any, "j", 1),  // 'y' elsewhere
            ("z", LeftContext::Any, RightContext::Any, "T", 1),  // ceceo
        ];
        assert(rows@ =~= spanish_rule_rows());
        converter.load_rules(&rows);
        proof {
            lemma_rows_wf(spanish_rule_rows());
            assert(converter.lexicon_table() =~= Seq::<(Seq<char>, Seq<char>)>::empty());
        }
        converter
    }

    /// Adds the rules of the rows, in order, to an empty table.
    fn load_rules(&mut self, rows: &Vec<RuleRow>)
        requires
            old(self).rules_table().len() == 0,
        ensures
            final(self).rules_table() == table_of_rows(rows@),
            final(self).lexicon() == old(self).lexicon(),
            final(self).spec_language() == old(self).spec_language(),
            final(self).spec_inventory() == old(self).spec_inventory(),
    {
        let mut i: usize = 0;
        proof {
            assert(rows@.subrange(0, 0) =~= Seq::<RuleRow>::empty());
        }
        while i < rows.len()
            invariant
                i <= rows.len(),
                self.rules_table() == table_of_rows(rows@.subrange(0, i as int)),
                self.lexicon() == old(self).lexicon(),
                self.spec_language() == old(self).spec_language(),
                self.spec_inventory() == old(self).spec_inventory(),
            decreases rows.len() - i,
        {
            let row = rows[i];
            proof {
                assert(rows@.subrange(0, i + 1).drop_last() =~= rows@.subrange(0, i as int));
            }
            self.add_rule(row.0, row.1, row.2, row.3, row.4);
            i += 1;
        }
        assert(rows@.subrange(0, rows.len() as int) =~= rows@);
    }

    /// Adds the rows to an empty lexicon, in order.
    fn load_lexicon(&mut self, rows: &Vec<(&'static str, &'static str)>)
        requires
            old(self).lexicon().len() == 0,
        ensures
            final(self).lexicon_table() == lexicon_of_rows(rows@),
            final(self).buckets() == old(self).buckets(),
            final(self).spec_language() == old(self).spec_language(),
            final(self).spec_inventory() == old(self).spec_inventory(),
    {
        let mut i: usize = 0;
        while i < rows.len()
            invariant
                i <= rows.len(),
                self.lexicon_table() == lexicon_of_rows(rows@.subrange(0, i as int)),
                self.buckets() == old(self).buckets(),
                self.spec_language() == old(self).spec_language(),
                self.spec_inventory() == old(self).spec_inventory(),
            decreases rows.len() - i,
        {
            let row = rows[i];
            let ghost before = self.lexicon_table();
            let a = chars_of(row.0);
            let b = chars_of(row.1);
            self.exceptions.push((a, b));
            proof {
                assert(rows@[i as int] == row);
                assert(self.lexicon_table() =~= before.push((row.0@, row.1@)));
                assert(lexicon_of_rows(rows@.subrange(0, i + 1)) =~= lexicon_of_rows(rows@.subrange(0, i as int)).push((row.0@, row.1@)));
            }
            i += 1;
        }
        assert(rows@.subrange(0, rows.len() as int) =~= rows@);
    }

    /// Adds a rule to the bucket of its first letter, after every rule that
    /// ranks at least as high.
    fn add_rule(
        &mut self,
        pattern: &str,
        left_context: LeftContext,
        right_context: RightContext,
        phonemes: &str,
        priority: i32,
    )
        ensures
            final(self).rules_table() == add_to_table(
                old(self).rules_table(),
                RuleEntry {
                    pattern: pattern@,
                    left: left_context,
                    right: right_context,
                    phonemes: phonemes@,
                    priority,
                },
            ),
            final(self).lexicon() == old(self).lexicon(),
            final(self).spec_language() == old(self).spec_language(),
            final(self).spec_inventory() == old(self).spec_inventory(),
    {
        let rule = G2PRule {
            pattern: chars_of(pattern),
            left_context,
            right_context,
            phonemes: chars_of(phonemes),
            priority,
        };
        let ghost re = rule_entry(rule);
        let ghost t0 = old(self).rules_table();
        let key = if rule.pattern.len() > 0 {
            rule.pattern[0]
        } else {
            '?'
        };
        assert(key == bucket_key(re.pattern));
        let mut b: usize = 0;
        while b < self.rules.len() && self.rules[b].first != key
            invariant
                b <= self.rules.len(),
                self.rules@ == old(self).rules@,
                self.inventory == old(self).inventory,
                self.language == old(self).language,
                self.exceptions == old(self).exceptions,
                forall|k: int| 0 <= k < b ==> #[trigger] self.rules@[k].first != key,
            decreases self.rules.len() - b,
        {
            b += 1;
        }
        proof {
            assert forall|k: int| 0 <= k < b implies #[trigger] t0[k].first != key by {
                assert(t0[k].first == self.rules@[k].first);
            }
            lemma_add_to_table_at(t0, re, b as int);
        }
        let found = b < self.rules.len();
        if !found {
            push_empty_bucket(&mut self.rules, key);
        }
        let ghost mid = self.rules@;
        proof {
            assert(mid[b as int].first == key);
            if found {
                assert(mid == old(self).rules@);
                assert(mid[b as int].rules@.len() == t0[b as int].rules.len());
            }
        }
        let mut bucket = self.rules.remove(b);
        let ghost olds = bucket.rules@;
        let mut k: usize = 0;
        while k < bucket.rules.len() && rule_ranks_before(&bucket.rules[k], &rule)
            invariant
                k <= bucket.rules.len(),
                bucket.rules@ == olds,
                re == rule_entry(rule),
                forall|j: int| 0 <= j < k ==> ranks_before(rule_entry(#[trigger] olds[j]), re),
            decreases bucket.rules.len() - k,
        {
            k += 1;
        }
        proof {
            lemma_insert_ranked_at(rule_entries(olds), re, k as int);
        }
        let ghost newr = rule;
        bucket.rules.insert(k, rule);
        proof {
            assert(rule_entries(bucket.rules@) =~= rule_entries(olds).insert(k as int, re));
        }
        self.rules.insert(b, bucket);
        proof {
            assert(self.rules@ =~= mid.update(b as int, bucket));
            let nb = BucketEntry { first: key, rules: insert_ranked(rule_entries(olds), re) };
            if found {
                assert(rule_entries(olds) == t0[b as int].rules);
                assert(self.rules_table() =~= t0.update(b as int, nb));
            } else {
                assert(olds.len() == 0);
                assert(rule_entries(olds) =~= Seq::<RuleEntry>::empty());
                assert(insert_ranked(rule_entries(olds), re) =~= seq![re]);
                assert(self.rules_table() =~= t0.push(nb));
            }
        }
    }

    /// The rule that fires at position `pos` of `w`.
    fn apply_rules(&self, w: &Vec<char>, pos: usize) -> (r: Option<&G2PRule>)
        requires
            pos < w.len(),
        ensures
            match r {
                Some(x) => rule_at(self.rules_table(), w@, pos as int) == Some(rule_entry(*x)),
                None => rule_at(self.rules_table(), w@, pos as int).is_none(),
            },
    {
        let c = w[pos];
        let ghost t = self.rules_table();
        let mut b: usize = 0;
        proof {
            assert(t.subrange(0, t.len() as int) =~= t);
        }
        while b < self.rules.len()
            invariant
                b <= self.rules.len(),
                t == self.rules_table(),
                c == w@[pos as int],
                bucket_for(t, c) == bucket_for(t.subrange(b as int, t.len() as int), c),
            decreases self.rules.len() - b,
        {
            proof {
                assert(t.subrange(b as int, t.len() as int).drop_first() =~= t.subrange(b + 1, t.len() as int));
                assert(t.subrange(b as int, t.len() as int)[0] == t[b as int]);
            }
            if self.rules[b].first == c {
                let rules = &self.rules[b].rules;
                let ghost es = rule_entries(rules@);
                proof {
                    assert(t[b as int].rules == es);
                    assert(es.subrange(0, es.len() as int) =~= es);
                }
                let mut k: usize = 0;
                while k < rules.len()
                    invariant
                        k <= rules.len(),
                        c == w@[pos as int],
                        es == rule_entries(rules@),
                        bucket_for(t, c) == es,
                        t == self.rules_table(),
                        first_applying(es, w@, pos as int) == first_applying(
                            es.subrange(k as int, es.len() as int),
                            w@,
                            pos as int,
                        ),
                    decreases rules.len() - k,
                {
                    proof {
                        assert(es.subrange(k as int, es.len() as int).drop_first() =~= es.subrange(k + 1, es.len() as int));
                        assert(es.subrange(k as int, es.len() as int)[0] == rule_entry(rules@[k as int]));
                    }
                    if rule_applies(&rules[k], w, pos) {
                        return Some(&rules[k]);
                    }
                    k += 1;
                }
                return None;
            }
            b += 1;
        }
        None
    }

    /// Convert a single word to phonemes.
    fn convert_word(&self, w: &Vec<char>) -> (r: Vec<char>)
        ensures
            r@ == word_phonemes(self.rules_table(), self.lexicon_table(), w@),
    {
        let ghost lex = self.lexicon_table();
        let ghost t = self.rules_table();
        let mut e: usize = 0;
        proof {
            assert(lex.subrange(0, lex.len() as int) =~= lex);
        }
        while e < self.exceptions.len()
            invariant
                e <= self.exceptions.len(),
                lex == self.lexicon_table(),
                lookup(lex, w@) == lookup(lex.subrange(e as int, lex.len() as int), w@),
            decreases self.exceptions.len() - e,
        {
            proof {
                assert(lex.subrange(e as int, lex.len() as int).drop_first() =~= lex.subrange(e + 1, lex.len() as int));
                assert(lex.subrange(e as int, lex.len() as int)[0] == lex[e as int]);
            }
            if same_chars(&self.exceptions[e].0, w) {
                let mut r: Vec<char> = Vec::new();
                extend_chars(&mut r, &self.exceptions[e].1);
                assert(r@ =~= lex[e as int].1);
                return r;
            }
            e += 1;
        }
        let mut parts: Vec<Vec<char>> = Vec::new();
        let mut i: usize = 0;
        proof {
            assert(seqs_of(parts@) + walk(t, w@, 0) =~= walk(t, w@, 0));
        }
        while i < w.len()
            invariant
                i <= w.len(),
                t == self.rules_table(),
                seqs_of(parts@) + walk(t, w@, i as int) == walk(t, w@, 0),
            decreases w.len() - i,
        {
            let ghost before = seqs_of(parts@);
            match self.apply_rules(w, i) {
                Some(r) => {
                    proof {
                        lemma_first_applying_applies(bucket_for(t, w@[i as int]), w@, i as int);
                    }
                    if r.phonemes.len() > 0 {
                        let mut p: Vec<char> = Vec::new();
                        extend_chars(&mut p, &r.phonemes);
                        parts.push(p);
                        proof {
                            assert(seqs_of(parts@) =~= before.push(r.phonemes@));
                            assert(before.push(r.phonemes@) + walk(t, w@, i + r.pattern@.len())
                                =~= before + (seq![r.phonemes@] + walk(t, w@, i + r.pattern@.len())));
                        }
                    }
                    i += r.pattern.len();
                },
                None => {
                    i += 1;
                },
            }
        }
        proof {
            assert(seqs_of(parts@) =~= walk(t, w@, 0));
        }
        let sep: Vec<char> = vec![' '];
        proof {
            assert(sep@ =~= phoneme_sep());
        }
        join_with(&parts, &sep)
    }

    /// Convert text to its phoneme string: the phonemes of each word, the
    /// words separated by ` _ `.
    pub fn convert(&self, text: &str) -> (r: Result<String, SynthesizerError>)
        ensures
            match r {
                Ok(s) => s@ == self.phonemes_of(text@),
                Err(_) => false,
            },
    {
        let ghost t = self.rules_table();
        let ghost lex = self.lexicon_table();
        let norm = normalize(text);
        let ws = split_words(&norm, 0, norm.len());
        proof {
            assert(norm@.subrange(0, norm@.len() as int) =~= norm@);
        }
        let mut parts: Vec<Vec<char>> = Vec::new();
        let mut j: usize = 0;
        while j < ws.len()
            invariant
                j <= ws.len(),
                t == self.rules_table(),
                lex == self.lexicon_table(),
                seqs_of(parts@) == spoken(t, lex, seqs_of(ws@).subrange(0, j as int)),
            decreases ws.len() - j,
        {
            let ghost pre = seqs_of(ws@).subrange(0, j as int);
            let ghost cur = seqs_of(ws@).subrange(0, j + 1);
            proof {
                assert(cur.drop_last() =~= pre);
                assert(cur.last() == ws@[j as int]@);
            }
            let p = self.convert_word(&ws[j]);
            if p.len() > 0 {
                parts.push(p);
                proof {
                    assert(seqs_of(parts@) =~= spoken(t, lex, pre).push(p@));
                }
            }
            j += 1;
        }
        proof {
            assert(seqs_of(ws@).subrange(0, ws.len() as int) =~= seqs_of(ws@));
        }
        let sep: Vec<char> = vec![' ', '_', ' '];
        proof {
            assert(sep@ =~= word_sep());
        }
        let out = join_with(&parts, &sep);
        Ok(string_of(&out, 0, out.len()))
    }

    /// Get the phoneme inventory.
    pub fn inventory(&self) -> (r: &PhonemeInventory)
        ensures
            *r == self.spec_inventory(),
    {
        &self.inventory
    }

    /// Get the language code.
    pub fn language(&self) -> (r: &str)
        ensures
            r@ == self.spec_language(),
    {
        self.language
    }
}

proof fn lemma_insert_ranked_at(rs: Seq<RuleEntry>, r: RuleEntry, k: int)
    requires
        0 <= k <= rs.len(),
        forall|j: int| 0 <= j < k ==> ranks_before(#[trigger] rs[j], r),
        k < rs.len() ==> !ranks_before(rs[k], r),
    ensures
        insert_ranked(rs, r) == rs.insert(k, r),
    decreases rs.len(),
{
    if rs.len() == 0 {
        assert(rs.insert(0, r) =~= seq![r]);
    } else if k == 0 {
        assert(rs.insert(0, r) =~= seq![r] + rs);
    } else {
        let t = rs.drop_first();
        assert forall|j: int| 0 <= j < k - 1 implies ranks_before(#[trigger] t[j], r) by {
            assert(t[j] == rs[j + 1]);
        }
        if k < rs.len() {
            assert(t[k - 1] == rs[k]);
        }
        lemma_insert_ranked_at(t, r, k - 1);
        assert(seq![rs[0]] + t.insert(k - 1, r) =~= rs.insert(k, r));
    }
}

proof fn lemma_add_to_table_at(t: Seq<BucketEntry>, r: RuleEntry, b: int)
    requires
        0 <= b <= t.len(),
        forall|k: int| 0 <= k < b ==> #[trigger] t[k].first != bucket_key(r.pattern),
        b < t.len() ==> t[b].first == bucket_key(r.pattern),
    ensures
        add_to_table(t, r) == if b < t.len() {
            t.update(b, BucketEntry { first: bucket_key(r.pattern), rules: insert_ranked(t[b].rules, r) })
        } else {
            t.push(BucketEntry { first: bucket_key(r.pattern), rules: seq![r] })
        },
    decreases t.len(),
{
    if t.len() == 0 {
        assert(t.push(BucketEntry { first: bucket_key(r.pattern), rules: seq![r] }) =~= seq![BucketEntry { first: bucket_key(r.pattern), rules: seq![r] }]);
    } else if b > 0 {
        let d = t.drop_first();
        assert forall|k: int| 0 <= k < b - 1 implies #[trigger] d[k].first != bucket_key(r.pattern) by {
            assert(d[k] == t[k + 1]);
        }
        if b < t.len() {
            assert(d[b - 1] == t[b]);
        }
        lemma_add_to_table_at(d, r, b - 1);
        if b < t.len() {
            assert(seq![t[0]] + d.update(b - 1, BucketEntry { first: bucket_key(r.pattern), rules: insert_ranked(d[b - 1].rules, r) })
                =~= t.update(b, BucketEntry { first: bucket_key(r.pattern), rules: insert_ranked(t[b].rules, r) }));
        } else {
            assert(seq![t[0]] + d.push(BucketEntry { first: bucket_key(r.pattern), rules: seq![r] })
                =~= t.push(BucketEntry { first: bucket_key(r.pattern), rules: seq![r] }));
        }
    }
}

proof fn lemma_first_index(t: Seq<BucketEntry>, key: char) -> (b: int)
    ensures
        0 <= b <= t.len(),
        forall|k: int| 0 <= k < b ==> #[trigger] t[k].first != key,
        b < t.len() ==> t[b].first == key,
    decreases t.len(),
{
    if t.len() == 0 {
        0
    } else if t[0].first == key {
        0
    } else {
        let b = lemma_first_index(t.drop_first(), key);
        assert forall|k: int| 0 <= k < b + 1 implies #[trigger] t[k].first != key by {
            if k > 0 {
                assert(t[k] == t.drop_first()[k - 1]);
            }
        }
        if b < t.len() - 1 {
            assert(t[b + 1] == t.drop_first()[b]);
        }
        b + 1
    }
}

proof fn lemma_add_keeps_wf(t: Seq<BucketEntry>, r: RuleEntry)
    requires
        table_wf(t),
    ensures
        table_wf(add_to_table(t, r)),
{
    let key = bucket_key(r.pattern);
    let b = lemma_first_index(t, key);
    lemma_add_to_table_at(t, r, b);
    let n = add_to_table(t, r);
    if b < t.len() {
        let olds = t[b].rules;
        let k = lemma_rank_index(olds, r);
        lemma_insert_ranked_at(olds, r, k);
        let nr = olds.insert(k, r);
        assert(bucket_sorted(olds));
        assert forall|i: int, j: int| 0 <= i < j < nr.len() implies ranks_before(#[trigger] nr[i], #[trigger] nr[j]) by {
            if j < k {
                assert(nr[i] == olds[i] && nr[j] == olds[j]);
            } else if j == k {
                assert(nr[i] == olds[i]);
            } else if i < k {
                assert(nr[i] == olds[i] && nr[j] == olds[j - 1]);
            } else if i == k {
                assert(nr[j] == olds[j - 1]);
                assert(!ranks_before(olds[k], r));
                if j - 1 > k {
                    assert(ranks_before(olds[k], olds[j - 1]));
                }
            } else {
                assert(nr[i] == olds[i - 1] && nr[j] == olds[j - 1]);
            }
        }
        assert forall|x: int| 0 <= x < n.len() implies bucket_sorted(#[trigger] n[x].rules) by {
            if x != b {
                assert(n[x] == t[x]);
            }
        }
        assert forall|x: int, i: int| 0 <= x < n.len() && 0 <= i < n[x].rules.len() implies bucket_key(#[trigger] n[x].rules[i].pattern) == n[x].first by {
            if x != b {
                assert(n[x] == t[x]);
            } else if i < k {
                assert(nr[i] == olds[i]);
            } else if i > k {
                assert(nr[i] == olds[i - 1]);
            }
        }
        assert forall|x: int, y: int| 0 <= x < y < n.len() implies #[trigger] n[x].first != #[trigger] n[y].first by {
            assert(n[x].first == t[x].first);
            assert(n[y].first == t[y].first);
        }
    } else {
        assert forall|x: int| 0 <= x < n.len() implies bucket_sorted(#[trigger] n[x].rules) by {
            if x < t.len() {
                assert(n[x] == t[x]);
            }
        }
        assert forall|x: int, i: int| 0 <= x < n.len() && 0 <= i < n[x].rules.len() implies bucket_key(#[trigger] n[x].rules[i].pattern) == n[x].first by {
            if x < t.len() {
                assert(n[x] == t[x]);
            }
        }
        assert forall|x: int, y: int| 0 <= x < y < n.len() implies #[trigger] n[x].first != #[trigger] n[y].first by {
            assert(n[x] == t[x]);
            if y < t.len() {
                assert(n[y] == t[y]);
            }
        }
    }
}

proof fn lemma_rank_index(rs: Seq<RuleEntry>, r: RuleEntry) -> (k: int)
    ensures
        0 <= k <= rs.len(),
        forall|j: int| 0 <= j < k ==> ranks_before(#[trigger] rs[j], r),
        k < rs.len() ==> !ranks_before(rs[k], r),
    decreases rs.len(),
{
    if rs.len() == 0 || !ranks_before(rs[0], r) {
        0
    } else {
        let k = lemma_rank_index(rs.drop_first(), r);
        assert forall|j: int| 0 <= j < k + 1 implies ranks_before(#[trigger] rs[j], r) by {
            if j > 0 {
                assert(rs[j] == rs.drop_first()[j - 1]);
            }
        }
        if k < rs.len() - 1 {
            assert(rs[k + 1] == rs.drop_first()[k]);
        }
        k + 1
    }
}

/// Every table that adding rules builds is well formed.
proof fn lemma_rows_wf(rows: Seq<RuleRow>)
    ensures
        table_wf(table_of_rows(rows)),
    decreases rows.len(),
{
    if rows.len() > 0 {
        lemma_rows_wf(rows.drop_last());
        lemma_add_keeps_wf(table_of_rows(rows.drop_last()), row_entry(rows.last()));
    }
}

proof fn lemma_first_applying_applies(rs: Seq<RuleEntry>, w: Seq<char>, pos: int)
    ensures
        first_applying(rs, w, pos) matches Some(r) ==> applies(r, w, pos),
    decreases rs.len(),
{
    if rs.len() > 0 && !applies(rs[0], w, pos) {
        lemma_first_applying_applies(rs.drop_first(), w, pos);
    }
}

/// Opens an empty bucket for letter `key` at the end of `v`.
fn push_empty_bucket(v: &mut Vec<RuleBucket>, key: char)
    ensures
        final(v)@.len() == old(v)@.len() + 1,
        forall|i: int| 0 <= i < old(v)@.len() ==> #[trigger] final(v)@[i] == old(v)@[i],
        final(v)@[old(v)@.len() as int].first == key,
        final(v)@[old(v)@.len() as int].rules@.len() == 0,
{
    v.push(RuleBucket { first: key, rules: Vec::new() });
}

/// Whether `a` may be tried before `b`.
fn rule_ranks_before(a: &G2PRule, b: &G2PRule) -> (r: bool)
    ensures
        r == ranks_before(rule_entry(*a), rule_entry(*b)),
{
    a.priority > b.priority || (a.priority == b.priority && a.pattern.len() >= b.pattern.len())
}

/// Whether rule `r` applies at position `pos` of `w`.
fn rule_applies(r: &G2PRule, w: &Vec<char>, pos: usize) -> (b: bool)
    ensures
        b == applies(rule_entry(*r), w@, pos as int),
{
    if r.pattern.len() == 0 || !matches_at(w, pos, &r.pattern) {
        return false;
    }
    let left = match r.left_context {
        LeftContext::Any => true,
        LeftContext::WordStart => pos == 0,
    };
    if !left {
        return false;
    }
    assert(pos + r.pattern.len() <= w.len());
    let after = pos + r.pattern.len();
    match r.right_context {
        RightContext::Any => true,
        RightContext::WordEnd => after == w.len(),
        RightContext::BeforeEOrI => after < w.len() && (w[after] == 'e' || w[after] == 'i'),
        RightContext::FinalE => after < w.len() && after + 1 == w.len() && w[after] == 'e',
    }
}

/// Lowercases the text and keeps letters, white space, apostrophes and hyphens.
fn normalize(text: &str) -> (r: Vec<char>)
    ensures
        r@ == normalized(lower_of(text@)),
{
    let low = lowercase(text);
    let cs = chars_of(low.as_str());
    let mut out: Vec<char> = Vec::new();
    let mut i: usize = 0;
    while i < cs.len()
        invariant
            i <= cs.len(),
            cs@ == lower_of(text@),
            out@ == normalized(cs@.subrange(0, i as int)),
        decreases cs.len() - i,
    {
        let c = cs[i];
        proof {
            assert(cs@.subrange(0, i + 1).drop_last() =~= cs@.subrange(0, i as int));
        }
        if is_alpha(c) || is_space(c) || c == '\'' || c == '-' {
            out.push(c);
        }
        i += 1;
    }
    assert(cs@.subrange(0, cs.len() as int) =~= cs@);
    out
}

/// What one phoneme symbol reads as in IPA: the pause `_` as a space, a
/// symbol of the inventory as its IPA form, any other symbol as itself.
pub open spec fn ipa_piece(ps: Seq<Phoneme>, t: Seq<char>) -> Seq<char> {
    if t == seq!['_'] {
        seq![' ']
    } else {
        match first_phoneme(ps, t) {
            Some(p) => p.ipa@,
            None => t,
        }
    }
}

/// The IPA forms of the symbols, laid end to end.
pub open spec fn ipa_of(ps: Seq<Phoneme>, toks: Seq<Seq<char>>) -> Seq<char>
    decreases toks.len(),
{
    if toks.len() == 0 {
        Seq::empty()
    } else {
        ipa_of(ps, toks.drop_last()) + ipa_piece(ps, toks.last())
    }
}

/// Renders a space-separated phoneme string in IPA, through the inventory.
pub fn phonemes_to_ipa(inv: &PhonemeInventory, phonemes: &str) -> (r: String)
    ensures
        r@ == ipa_of(inv.entries(), words(phonemes@)),
{
    let cs = chars_of(phonemes);
    let toks = split_words(&cs, 0, cs.len());
    proof {
        assert(cs@.subrange(0, cs@.len() as int) =~= cs@);
    }
    let mut out = String::new();
    let mut i: usize = 0;
    while i < toks.len()
        invariant
            i <= toks.len(),
            out@ == ipa_of(inv.entries(), seqs_of(toks@).subrange(0, i as int)),
        decreases toks.len() - i,
    {
        let ghost pre = seqs_of(toks@).subrange(0, i as int);
        let ghost cur = seqs_of(toks@).subrange(0, i + 1);
        proof {
            assert(cur.drop_last() =~= pre);
        }
        let t = &toks[i];
        let us: Vec<char> = vec!['_'];
        if same_chars(t, &us) {
            push_char(&mut out, ' ');
            proof {
                assert(t@ == seq!['_']);
            }
        } else {
            let ts = string_of(t, 0, t.len());
            proof {
                assert(t@.subrange(0, t@.len() as int) =~= t@);
            }
            match inv.get(ts.as_str()) {
                Some(p) => {
                    let ipa = chars_of(p.ipa);
                    push_seq(&mut out, &ipa);
                },
                None => {
                    push_seq(&mut out, t);
                },
            }
        }
        proof {
            assert(us@ =~= seq!['_']);
            assert(out@ =~= ipa_of(inv.entries(), pre) + ipa_piece(inv.entries(), t@));
        }
        i += 1;
    }
    proof {
        assert(seqs_of(toks@).subrange(0, toks.len() as int) =~= seqs_of(toks@));
    }
    out
}

/// Converts text to IPA in the language a code names (as
/// `Language::from_code` reads it); any other code is an unsupported
/// language.
pub fn text_to_ipa(text: &str, language: &str) -> (r: Result<String, SynthesizerError>)
    ensures
        match language_of_code(lower_of(language@)) {
            Some(l) => r matches Ok(s) && s@ == ipa_phonemes(l, text@),
            None => r matches Err(e) && e matches SynthesizerError::UnsupportedLanguage(m)
                && m@ == language@,
        },
{
    let converter = match Language::from_code(language) {
        Some(Language::English) => G2PConverter::english(),
        Some(Language::Spanish) => G2PConverter::spanish(),
        None => return Err(SynthesizerError::UnsupportedLanguage(String::from_str(language))),
    };
    let phonemes = match converter.convert(text) {
        Ok(p) => p,
        Err(e) => return Err(e),
    };
    let r = phonemes_to_ipa(converter.inventory(), phonemes.as_str());
    Ok(r)
}

/// In every bucket of every well-formed table, the first rule has the
/// highest priority of the bucket, and among the rules of that priority the
/// longest pattern.
pub proof fn lemma_bucket_head_ranks_first(t: Seq<BucketEntry>, b: int, i: int)
    requires
        table_wf(t),
        0 <= b < t.len(),
        0 <= i < t[b].rules.len(),
    ensures
        t[b].rules[0].priority >= t[b].rules[i].priority,
        t[b].rules[0].priority == t[b].rules[i].priority ==> t[b].rules[0].pattern.len()
            >= t[b].rules[i].pattern.len(),
{
    let rs = t[b].rules;
    assert(bucket_sorted(rs));
    if i > 0 {
        assert(ranks_before(rs[0], rs[i]));
    }
}

/// The rule table of every language is well formed, so that each of its
/// buckets heads with its highest-ranked rule.
pub proof fn lemma_language_tables_wf(l: Language)
    ensures
        table_wf(rules_of_language(l)),
{
    lemma_rows_wf(english_rule_rows());
    lemma_rows_wf(spanish_rule_rows());
}

/// Whether a token is the pause `_` or a symbol of `ps`.
pub open spec fn symbol_ok(ps: Seq<Phoneme>, tok: Seq<char>) -> bool {
    tok == seq!['_'] || first_phoneme(ps, tok) is Some
}

/// Whether every token is the pause or a symbol of `ps`.
pub open spec fn all_known(ps: Seq<Phoneme>, toks: Seq<Seq<char>>) -> bool {
    forall|i: int| 0 <= i < toks.len() ==> symbol_ok(ps, #[trigger] toks[i])
}

/// Whether every symbol that the rules and the lexicon emit is the pause or
/// a symbol of `ps`.
pub open spec fn tables_known(t: Seq<BucketEntry>, lex: Seq<(Seq<char>, Seq<char>)>, ps: Seq<Phoneme>) -> bool {
    &&& forall|b: int, i: int|
        0 <= b < t.len() && 0 <= i < t[b].rules.len() ==> all_known(ps, words(#[trigger] t[b].rules[i].phonemes))
    &&& forall|j: int| 0 <= j < lex.len() ==> all_known(ps, words(#[trigger] lex[j].1))
}

/// Whether `p` is what some rule of the table emits.
pub open spec fn rule_output(t: Seq<BucketEntry>, p: Seq<char>) -> bool {
    exists|b: int, i: int|
        0 <= b < t.len() && 0 <= i < t[b].rules.len() && #[trigger] t[b].rules[i].phonemes == p
}

proof fn lemma_known_concat(ps: Seq<Phoneme>, x: Seq<Seq<char>>, y: Seq<Seq<char>>)
    requires
        all_known(ps, x),
        all_known(ps, y),
    ensures
        all_known(ps, x + y),
{
    assert forall|i: int| 0 <= i < (x + y).len() implies symbol_ok(ps, #[trigger] (x + y)[i]) by {
        if i < x.len() {
            assert((x + y)[i] == x[i]);
        } else {
            assert((x + y)[i] == y[i - x.len()]);
        }
    }
}

proof fn lemma_join_known(ps: Seq<Phoneme>, parts: Seq<Seq<char>>, sep: Seq<char>)
    requires
        sep == phoneme_sep() || sep == word_sep(),
        forall|i: int| 0 <= i < parts.len() ==> all_known(ps, words(#[trigger] parts[i])),
    ensures
        all_known(ps, words(join(parts, sep))),
    decreases parts.len(),
{
    if parts.len() == 0 {
        assert(words(Seq::<char>::empty()).len() == 0);
    } else if parts.len() == 1 {
        assert(all_known(ps, words(parts[0])));
    } else {
        let init = parts.drop_last();
        assert forall|i: int| 0 <= i < init.len() implies all_known(ps, words(#[trigger] init[i])) by {
            assert(init[i] == parts[i]);
        }
        lemma_join_known(ps, init, sep);
        let j = join(init, sep);
        let l = parts.last();
        assert(all_known(ps, words(l)));
        let sp = seq![' '];
        assert(white_space(' '));
        assert(words(sp) =~= Seq::<Seq<char>>::empty()) by {
            assert(sp.drop_last() =~= Seq::<char>::empty());
            assert(sp.last() == ' ');
            assert(words(Seq::<char>::empty()) == Seq::<Seq<char>>::empty());
        }
        lemma_words_append(j, sp);
        assert(words(j + sp) =~= words(j));
        if sep == phoneme_sep() {
            assert(j + sep + l =~= (j + sp) + l);
            assert((j + sp).last() == ' ');
            lemma_words_append(j + sp, l);
            lemma_known_concat(ps, words(j), words(l));
        } else {
            let us = seq!['_'];
            assert(j + sep + l =~= (j + sp) + (us + (sp + l)));
            lemma_words_append(sp, l);
            assert(words(sp + l) =~= words(l));
            assert((sp + l)[0] == ' ');
            lemma_words_append(us, sp + l);
            assert(words(us) =~= seq![us]) by {
                assert(us.drop_last() =~= Seq::<char>::empty());
                assert(us.last() == '_');
                assert(!white_space('_'));
                assert(words(Seq::<char>::empty()) == Seq::<Seq<char>>::empty());
                assert(Seq::<Seq<char>>::empty().push(seq!['_']) =~= seq![us]);
            }
            assert(all_known(ps, seq![us]));
            lemma_known_concat(ps, seq![us], words(l));
            assert((j + sp).last() == ' ');
            lemma_words_append(j + sp, us + (sp + l));
            lemma_known_concat(ps, words(j), words(us) + words(sp + l));
        }
    }
}

proof fn lemma_lookup_in(lex: Seq<(Seq<char>, Seq<char>)>, w: Seq<char>)
    ensures
        lookup(lex, w) matches Some(p) ==> exists|i: int| 0 <= i < lex.len() && #[trigger] lex[i].1 == p,
    decreases lex.len(),
{
    if lex.len() > 0 && lex[0].0 != w {
        lemma_lookup_in(lex.drop_first(), w);
        if let Some(p) = lookup(lex, w) {
            let i = choose|i: int| 0 <= i < lex.drop_first().len() && #[trigger] lex.drop_first()[i].1 == p;
            assert(lex[i + 1].1 == p);
        }
    } else if lex.len() > 0 {
        assert(lex[0].1 == lex[0].1);
    }
}

proof fn lemma_first_applying_in(rs: Seq<RuleEntry>, w: Seq<char>, pos: int)
    ensures
        first_applying(rs, w, pos) matches Some(r) ==> exists|i: int| 0 <= i < rs.len() && #[trigger] rs[i] == r,
    decreases rs.len(),
{
    if rs.len() > 0 && !applies(rs[0], w, pos) {
        lemma_first_applying_in(rs.drop_first(), w, pos);
        if let Some(r) = first_applying(rs, w, pos) {
            let i = choose|i: int| 0 <= i < rs.drop_first().len() && #[trigger] rs.drop_first()[i] == r;
            assert(rs[i + 1] == r);
        }
    } else if rs.len() > 0 {
        assert(rs[0] == rs[0]);
    }
}

proof fn lemma_bucket_for_in(t: Seq<BucketEntry>, c: char)
    ensures
        bucket_for(t, c).len() == 0 || exists|b: int| 0 <= b < t.len() && #[trigger] t[b].rules == bucket_for(t, c),
    decreases t.len(),
{
    if t.len() > 0 && t[0].first != c {
        lemma_bucket_for_in(t.drop_first(), c);
        if bucket_for(t, c).len() > 0 {
            let b = choose|b: int| 0 <= b < t.drop_first().len() && #[trigger] t.drop_first()[b].rules == bucket_for(t.drop_first(), c);
            assert(t[b + 1].rules == bucket_for(t, c));
        }
    } else if t.len() > 0 {
        assert(t[0].rules == bucket_for(t, c));
    }
}

proof fn lemma_walk_rules(t: Seq<BucketEntry>, w: Seq<char>, pos: int)
    ensures
        forall|i: int| 0 <= i < walk(t, w, pos).len() ==> rule_output(t, #[trigger] walk(t, w, pos)[i]),
    decreases w.len() - pos,
{
    if 0 <= pos < w.len() {
        match rule_at(t, w, pos) {
            Some(r) => {
                let rs = bucket_for(t, w[pos]);
                lemma_first_applying_in(rs, w, pos);
                let k = choose|k: int| 0 <= k < rs.len() && #[trigger] rs[k] == r;
                lemma_bucket_for_in(t, w[pos]);
                let b = choose|b: int| 0 <= b < t.len() && #[trigger] t[b].rules == rs;
                assert(t[b].rules[k].phonemes == r.phonemes);
                assert(rule_output(t, r.phonemes));
                let step = if r.pattern.len() > 0 { r.pattern.len() as int } else { 1 };
                let next = if pos + step <= w.len() { pos + step } else { w.len() as int };
                lemma_walk_rules(t, w, next);
                let rest = walk(t, w, next);
                if r.phonemes.len() > 0 {
                    assert forall|i: int| 0 <= i < walk(t, w, pos).len() implies rule_output(t, #[trigger] walk(t, w, pos)[i]) by {
                        assert(walk(t, w, pos) == seq![r.phonemes] + rest);
                        if i > 0 {
                            assert(walk(t, w, pos)[i] == rest[i - 1]);
                        }
                    }
                } else {
                    assert(walk(t, w, pos) == rest);
                }
            },
            None => {
                lemma_walk_rules(t, w, pos + 1);
                assert(walk(t, w, pos) == walk(t, w, pos + 1));
            },
        }
    }
}

proof fn lemma_word_known(t: Seq<BucketEntry>, lex: Seq<(Seq<char>, Seq<char>)>, ps: Seq<Phoneme>, w: Seq<char>)
    requires
        tables_known(t, lex, ps),
    ensures
        all_known(ps, words(word_phonemes(t, lex, w))),
{
    match lookup(lex, w) {
        Some(p) => {
            lemma_lookup_in(lex, w);
            let i = choose|i: int| 0 <= i < lex.len() && #[trigger] lex[i].1 == p;
            assert(all_known(ps, words(lex[i].1)));
        },
        None => {
            lemma_walk_rules(t, w, 0);
            let parts = walk(t, w, 0);
            assert forall|i: int| 0 <= i < parts.len() implies all_known(ps, words(#[trigger] parts[i])) by {
                assert(rule_output(t, parts[i]));
                let (b, k) = choose|b: int, k: int| 0 <= b < t.len() && 0 <= k < t[b].rules.len() && #[trigger] t[b].rules[k].phonemes == parts[i];
                assert(all_known(ps, words(t[b].rules[k].phonemes)));
            }
            lemma_join_known(ps, parts, phoneme_sep());
        },
    }
}

proof fn lemma_spoken_known(t: Seq<BucketEntry>, lex: Seq<(Seq<char>, Seq<char>)>, ps: Seq<Phoneme>, ws: Seq<Seq<char>>)
    requires
        tables_known(t, lex, ps),
    ensures
        forall|k: int| 0 <= k < spoken(t, lex, ws).len() ==> all_known(ps, words(#[trigger] spoken(t, lex, ws)[k])),
    decreases ws.len(),
{
    if ws.len() > 0 {
        lemma_spoken_known(t, lex, ps, ws.drop_last());
        lemma_word_known(t, lex, ps, ws.last());
        let init = spoken(t, lex, ws.drop_last());
        assert forall|k: int| 0 <= k < spoken(t, lex, ws).len() implies all_known(ps, words(#[trigger] spoken(t, lex, ws)[k])) by {
            if k < init.len() {
                assert(spoken(t, lex, ws)[k] == init[k]);
            }
        }
    }
}

/// When every symbol that the rules and the lexicon emit is in the
/// inventory, every token of every text's phoneme string is the pause `_`
/// or a symbol of the inventory.
pub proof fn lemma_output_symbols_known(
    t: Seq<BucketEntry>,
    lex: Seq<(Seq<char>, Seq<char>)>,
    ps: Seq<Phoneme>,
    text: Seq<char>,
)
    requires
        tables_known(t, lex, ps),
    ensures
        all_known(ps, words(phonemes_under(t, lex, text))),
{
    lemma_spoken_known(t, lex, ps, text_words(text));
    lemma_join_known(ps, spoken(t, lex, text_words(text)), word_sep());
}

proof fn lemma_first_phoneme_found(ps: Seq<Phoneme>, k: int, s: Seq<char>)
    requires
        0 <= k < ps.len(),
        ps[k].symbol@ == s,
    ensures
        first_phoneme(ps, s) is Some,
    decreases k,
{
    if k > 0 && ps[0].symbol@ != s {
        assert(ps.drop_first()[k - 1] == ps[k]);
        lemma_first_phoneme_found(ps.drop_first(), k - 1, s);
    }
}



proof fn lemma_words_push(v: Seq<char>, c: char)
    ensures
        words(v.push(c)) == if white_space(c) {
            words(v)
        } else if v.len() > 0 && !white_space(v.last()) {
            words(v).update(words(v).len() - 1, words(v).last().push(c))
        } else {
            words(v).push(seq![c])
        },
{
    assert(v.push(c).drop_last() =~= v);
    if v.len() > 0 {
        assert(v.push(c)[v.push(c).len() - 2] == v.last());
    }
}

proof fn lemma_known_en_0()
    ensures
        all_known(english_phonemes(), words("e"@)),
{
    reveal_strlit("e");
    let v0 = Seq::<char>::empty();
    assert(words(v0) =~= Seq::<Seq<char>>::empty());
    let v1 = v0.push('e');
    lemma_words_push(v0, 'e');
    assert(words(v1) =~~= seq![seq!['e']]);
    assert(v1 =~= "e"@);
    assert(words(v1) =~~= seq![seq!['e']]);
    reveal_strlit("e");
    assert("e"@ =~= seq!['e']);
    lemma_first_phoneme_found(english_phonemes(), 2, seq!['e']);
}

proof fn lemma_known_en_1()
    ensures
        all_known(english_phonemes(), words("&"@)),
{
    reveal_strlit("&");
    let v0 = Seq::<char>::empty();
    assert(words(v0) =~= Seq::<Seq<char>>::empty());
    let v1 = v0.push('&');
    lemma_words_push(v0, '&');
    assert(words(v1) =~~= seq![seq!['&']]);
    assert(v1 =~= "&"@);
    assert(words(v1) =~~= seq![seq!['&']]);
    reveal_strlit("&");
    assert("&"@ =~= seq!['&']);
    lemma_first_phoneme_found(english_phonemes(), 4, seq!['&']);
}

proof fn lemma_known_en_2()
    ensures
        all_known(english_phonemes(), words("i"@)),
{
    reveal_strlit("i");
    let v0 = Seq::<char>::empty();
    assert(words(v0) =~= Seq::<Seq<char>>::empty());
    let v1 = v0.push('i');
    lemma_words_push(v0, 'i');
    assert(words(v1) =~~= seq![seq!['i']]);
    assert(v1 =~= "i"@);
    assert(words(v1) =~~= seq![seq!['i']]);
    reveal_strlit("i");
    assert("i"@ =~= seq!['i']);
    lemma_first_phoneme_found(english_phonemes(), 0, seq!['i']);
}

proof fn lemma_known_en_3()
    ensures
        all_known(english_phonemes(), words(""@)),
{
    reveal_strlit("");
    let v0 = Seq::<char>::empty();
    assert(words(v0) =~= Seq::<Seq<char>>::empty());
    assert(v0 =~= ""@);
    assert(words(v0) =~= Seq::<Seq<char>>::empty());
}

proof fn lemma_known_en_4()
    ensures
        all_known(english_phonemes(), words("E"@)),
{
    reveal_strlit("E");
    let v0 = Seq::<char>::empty();
    assert(words(v0) =~= Seq::<Seq<char>>::empty());
    let v1 = v0.push('E');
    lemma_words_push(v0, 'E');
    assert(words(v1) =~~= seq![seq!['E']]);
    assert(v1 =~= "E"@);
    assert(words(v1) =~~= seq![seq!['E']]);
    reveal_strlit("E");
    assert("E"@ =~= seq!['E']);
    lemma_first_phoneme_found(english_phonemes(), 3, seq!['E']);
}

proof fn lemma_known_en_5()
    ensures
        all_known(english_phonemes(), words("aI"@)),
{
    reveal_strlit("aI");
    let v0 = Seq::<char>::empty();
    assert(words(v0) =~= Seq::<Seq<char>>::empty());
    let v1 = v0.push('a');
    lemma_words_push(v0, 'a');
    assert(words(v1) =~~= seq![seq!['a']]);
    let v2 = v1.push('I');
    lemma_words_push(v1, 'I');
    assert(words(v2) =~~= seq![seq!['a', 'I']]);
    assert(v2 =~= "aI"@);
    assert(words(v2) =~~= seq![seq!['a', 'I']]);
    reveal_strlit("aI");
    assert("aI"@ =~= seq!['a', 'I']);
    lemma_first_phoneme_found(english_phonemes(), 12, seq!['a', 'I']);
}

proof fn lemma_known_en_6()
    ensures
        all_known(english_phonemes(), words("I"@)),
{
    reveal_strlit("I");
    let v0 = Seq::<char>::empty();
    assert(words(v0) =~= Seq::<Seq<char>>::empty());
    let v1 = v0.push('I');
    lemma_words_push(v0, 'I');
    assert(words(v1) =~~= seq![seq!['I']]);
    assert(v1 =~= "I"@);
    assert(words(v1) =~~= seq![seq!['I']]);
    reveal_strlit("I");
    assert("I"@ =~= seq!['I']);
    lemma_first_phoneme_found(english_phonemes(), 1, seq!['I']);
}

proof fn lemma_known_en_7()
    ensures
        all_known(english_phonemes(), words("o"@)),
{
    reveal_strlit("o");
    let v0 = Seq::<char>::empty();
    assert(words(v0) =~= Seq::<Seq<char>>::empty());
    let v1 = v0.push('o');
    lemma_words_push(v0, 'o');
    assert(words(v1) =~~= seq![seq!['o']]);
    assert(v1 =~= "o"@);
    assert(words(v1) =~~= seq![seq!['o']]);
    reveal_strlit("o");
    assert("o"@ =~= seq!['o']);
    lemma_first_phoneme_found(english_phonemes(), 7, seq!['o']);
}

proof fn lemma_known_en_8()
    ensures
        all_known(english_phonemes(), words("A"@)),
{
    reveal_strlit("A");
    let v0 = Seq::<char>::empty();
    assert(words(v0) =~= Seq::<Seq<char>>::empty());
    let v1 = v0.push('A');
    lemma_words_push(v0, 'A');
    assert(words(v1) =~~= seq![seq!['A']]);
    assert(v1 =~= "A"@);
    assert(words(v1) =~~= seq![seq!['A']]);
    reveal_strlit("A");
    assert("A"@ =~= seq!['A']);
    lemma_first_phoneme_found(english_phonemes(), 5, seq!['A']);
}

proof fn lemma_known_en_9()
    ensures
        all_known(english_phonemes(), words("u"@)),
{
    reveal_strlit("u");
    let v0 = Seq::<char>::empty();
    assert(words(v0) =~= Seq::<Seq<char>>::empty());
    let v1 = v0.push('u');
    lemma_words_push(v0, 'u');
    assert(words(v1) =~~= seq![seq!['u']]);
    assert(v1 =~= "u"@);
    assert(words(v1) =~~= seq![seq!['u']]);
    reveal_strlit("u");
    assert("u"@ =~= seq!['u']);
    lemma_first_phoneme_found(english_phonemes(), 9, seq!['u']);
}

proof fn lemma_known_en_10()
    ensures
        all_known(english_phonemes(), words("@"@)),
{
    reveal_strlit("@");
    let v0 = Seq::<char>::empty();
    assert(words(v0) =~= Seq::<Seq<char>>::empty());
    let v1 = v0.push('@');
    lemma_words_push(v0, '@');
    assert(words(v1) =~~= seq![seq!['@']]);
    assert(v1 =~= "@"@);
    assert(words(v1) =~~= seq![seq!['@']]);
    reveal_strlit("@");
    assert("@"@ =~= seq!['@']);
    lemma_first_phoneme_found(english_phonemes(), 10, seq!['@']);
}

proof fn lemma_known_en_11()
    ensures
        all_known(english_phonemes(), words("tS"@)),
{
    reveal_strlit("tS");
    let v0 = Seq::<char>::empty();
    assert(words(v0) =~= Seq::<Seq<char>>::empty());
    let v1 = v0.push('t');
    lemma_words_push(v0, 't');
    assert(words(v1) =~~= seq![seq!['t']]);
    let v2 = v1.push('S');
    lemma_words_push(v1, 'S');
    assert(words(v2) =~~= seq![seq!['t', 'S']]);
    assert(v2 =~= "tS"@);
    assert(words(v2) =~~= seq![seq!['t', 'S']]);
    reveal_strlit("tS");
    assert("tS"@ =~= seq!['t', 'S']);
    lemma_first_phoneme_found(english_phonemes(), 30, seq!['t', 'S']);
}

proof fn lemma_known_en_12()
    ensures
        all_known(english_phonemes(), words("S"@)),
{
    reveal_strlit("S");
    let v0 = Seq::<char>::empty();
    assert(words(v0) =~= Seq::<Seq<char>>::empty());
    let v1 = v0.push('S');
    lemma_words_push(v0, 'S');
    assert(words(v1) =~~= seq![seq!['S']]);
    assert(v1 =~= "S"@);
    assert(words(v1) =~~= seq![seq!['S']]);
    reveal_strlit("S");
    assert("S"@ =~= seq!['S']);
    lemma_first_phoneme_found(english_phonemes(), 27, seq!['S']);
}

proof fn lemma_known_en_13()
    ensures
        all_known(english_phonemes(), words("T"@)),
{
    reveal_strlit("T");
    let v0 = Seq::<char>::empty();
    assert(words(v0) =~= Seq::<Seq<char>>::empty());
    let v1 = v0.push('T');
    lemma_words_push(v0, 'T');
    assert(words(v1) =~~= seq![seq!['T']]);
    assert(v1 =~= "T"@);
    assert(words(v1) =~~= seq![seq!['T']]);
    reveal_strlit("T");
    assert("T"@ =~= seq!['T']);
    lemma_first_phoneme_found(english_phonemes(), 23, seq!['T']);
}

proof fn lemma_known_en_14()
    ensures
        all_known(english_phonemes(), words("N"@)),
{
    reveal_strlit("N");
    let v0 = Seq::<char>::empty();
    assert(words(v0) =~= Seq::<Seq<char>>::empty());
    let v1 = v0.push('N');
    lemma_words_push(v0, 'N');
    assert(words(v1) =~~= seq![seq!['N']]);
    assert(v1 =~= "N"@);
    assert(words(v1) =~~= seq![seq!['N']]);
    reveal_strlit("N");
    assert("N"@ =~= seq!['N']);
    lemma_first_phoneme_found(english_phonemes(), 34, seq!['N']);
}

proof fn lemma_known_en_15()
    ensures
        all_known(english_phonemes(), words("f"@)),
{
    reveal_strlit("f");
    let v0 = Seq::<char>::empty();
    assert(words(v0) =~= Seq::<Seq<char>>::empty());
    let v1 = v0.push('f');
    lemma_words_push(v0, 'f');
    assert(words(v1) =~~= seq![seq!['f']]);
    assert(v1 =~= "f"@);
    assert(words(v1) =~~= seq![seq!['f']]);
    reveal_strlit("f");
    assert("f"@ =~= seq!['f']);
    lemma_first_phoneme_found(english_phonemes(), 21, seq!['f']);
}

proof fn lemma_known_en_16()
    ensures
        all_known(english_phonemes(), words("w"@)),
{
    reveal_strlit("w");
    let v0 = Seq::<char>::empty();
    assert(words(v0) =~= Seq::<Seq<char>>::empty());
    let v1 = v0.push('w');
    lemma_words_push(v0, 'w');
    assert(words(v1) =~~= seq![seq!['w']]);
    assert(v1 =~= "w"@);
    assert(words(v1) =~~= seq![seq!['w']]);
    reveal_strlit("w");
    assert("w"@ =~= seq!['w']);
    lemma_first_phoneme_found(english_phonemes(), 37, seq!['w']);
}

proof fn lemma_known_en_17()
    ensures
        all_known(english_phonemes(), words("k"@)),
{
    reveal_strlit("k");
    let v0 = Seq::<char>::empty();
    assert(words(v0) =~= Seq::<Seq<char>>::empty());
    let v1 = v0.push('k');
    lemma_words_push(v0, 'k');
    assert(words(v1) =~~= seq![seq!['k']]);
    assert(v1 =~= "k"@);
    assert(words(v1) =~~= seq![seq!['k']]);
    reveal_strlit("k");
    assert("k"@ =~= seq!['k']);
    lemma_first_phoneme_found(english_phonemes(), 19, seq!['k']);
}

proof fn lemma_known_en_18()
    ensures
        all_known(english_phonemes(), words("t"@)),
{
    reveal_strlit("t");
    let v0 = Seq::<char>::empty();
    assert(words(v0) =~= Seq::<Seq<char>>::empty());
    let v1 = v0.push('t');
    lemma_words_push(v0, 't');
    assert(words(v1) =~~= seq![seq!['t']]);
    assert(v1 =~= "t"@);
    assert(words(v1) =~~= seq![seq!['t']]);
    reveal_strlit("t");
    assert("t"@ =~= seq!['t']);
    lemma_first_phoneme_found(english_phonemes(), 17, seq!['t']);
}

proof fn lemma_known_en_19()
    ensures
        all_known(english_phonemes(), words("b"@)),
{
    reveal_strlit("b");
    let v0 = Seq::<char>::empty();
    assert(words(v0) =~= Seq::<Seq<char>>::empty());
    let v1 = v0.push('b');
    lemma_words_push(v0, 'b');
    assert(words(v1) =~~= seq![seq!['b']]);
    assert(v1 =~= "b"@);
    assert(words(v1) =~~= seq![seq!['b']]);
    reveal_strlit("b");
    assert("b"@ =~= seq!['b']);
    lemma_first_phoneme_found(english_phonemes(), 16, seq!['b']);
}

proof fn lemma_known_en_20()
    ensures
        all_known(english_phonemes(), words("s"@)),
{
    reveal_strlit("s");
    let v0 = Seq::<char>::empty();
    assert(words(v0) =~= Seq::<Seq<char>>::empty());
    let v1 = v0.push('s');
    lemma_words_push(v0, 's');
    assert(words(v1) =~~= seq![seq!['s']]);
    assert(v1 =~= "s"@);
    assert(words(v1) =~~= seq![seq!['s']]);
    reveal_strlit("s");
    assert("s"@ =~= seq!['s']);
    lemma_first_phoneme_found(english_phonemes(), 25, seq!['s']);
}

proof fn lemma_known_en_21()
    ensures
        all_known(english_phonemes(), words("d"@)),
{
    reveal_strlit("d");
    let v0 = Seq::<char>::empty();
    assert(words(v0) =~= Seq::<Seq<char>>::empty());
    let v1 = v0.push('d');
    lemma_words_push(v0, 'd');
    assert(words(v1) =~~= seq![seq!['d']]);
    assert(v1 =~= "d"@);
    assert(words(v1) =~~= seq![seq!['d']]);
    reveal_strlit("d");
    assert("d"@ =~= seq!['d']);
    lemma_first_phoneme_found(english_phonemes(), 18, seq!['d']);
}

proof fn lemma_known_en_22()
    ensures
        all_known(english_phonemes(), words("dZ"@)),
{
    reveal_strlit("dZ");
    let v0 = Seq::<char>::empty();
    assert(words(v0) =~= Seq::<Seq<char>>::empty());
    let v1 = v0.push('d');
    lemma_words_push(v0, 'd');
    assert(words(v1) =~~= seq![seq!['d']]);
    let v2 = v1.push('Z');
    lemma_words_push(v1, 'Z');
    assert(words(v2) =~~= seq![seq!['d', 'Z']]);
    assert(v2 =~= "dZ"@);
    assert(words(v2) =~~= seq![seq!['d', 'Z']]);
    reveal_strlit("dZ");
    assert("dZ"@ =~= seq!['d', 'Z']);
    lemma_first_phoneme_found(english_phonemes(), 31, seq!['d', 'Z']);
}

proof fn lemma_known_en_23()
    ensures
        all_known(english_phonemes(), words("g"@)),
{
    reveal_strlit("g");
    let v0 = Seq::<char>::empty();
    assert(words(v0) =~= Seq::<Seq<char>>::empty());
    let v1 = v0.push('g');
    lemma_words_push(v0, 'g');
    assert(words(v1) =~~= seq![seq!['g']]);
    assert(v1 =~= "g"@);
    assert(words(v1) =~~= seq![seq!['g']]);
    reveal_strlit("g");
    assert("g"@ =~= seq!['g']);
    lemma_first_phoneme_found(english_phonemes(), 20, seq!['g']);
}

proof fn lemma_known_en_24()
    ensures
        all_known(english_phonemes(), words("h"@)),
{
    reveal_strlit("h");
    let v0 = Seq::<char>::empty();
    assert(words(v0) =~= Seq::<Seq<char>>::empty());
    let v1 = v0.push('h');
    lemma_words_push(v0, 'h');
    assert(words(v1) =~~= seq![seq!['h']]);
    assert(v1 =~= "h"@);
    assert(words(v1) =~~= seq![seq!['h']]);
    reveal_strlit("h");
    assert("h"@ =~= seq!['h']);
    lemma_first_phoneme_found(english_phonemes(), 29, seq!['h']);
}

proof fn lemma_known_en_25()
    ensures
        all_known(english_phonemes(), words("l"@)),
{
    reveal_strlit("l");
    let v0 = Seq::<char>::empty();
    assert(words(v0) =~= Seq::<Seq<char>>::empty());
    let v1 = v0.push('l');
    lemma_words_push(v0, 'l');
    assert(words(v1) =~~= seq![seq!['l']]);
    assert(v1 =~= "l"@);
    assert(words(v1) =~~= seq![seq!['l']]);
    reveal_strlit("l");
    assert("l"@ =~= seq!['l']);
    lemma_first_phoneme_found(english_phonemes(), 35, seq!['l']);
}

proof fn lemma_known_en_26()
    ensures
        all_known(english_phonemes(), words("m"@)),
{
    reveal_strlit("m");
    let v0 = Seq::<char>::empty();
    assert(words(v0) =~= Seq::<Seq<char>>::empty());
    let v1 = v0.push('m');
    lemma_words_push(v0, 'm');
    assert(words(v1) =~~= seq![seq!['m']]);
    assert(v1 =~= "m"@);
    assert(words(v1) =~~= seq![seq!['m']]);
    reveal_strlit("m");
    assert("m"@ =~= seq!['m']);
    lemma_first_phoneme_found(english_phonemes(), 32, seq!['m']);
}

proof fn lemma_known_en_27()
    ensures
        all_known(english_phonemes(), words("n"@)),
{
    reveal_strlit("n");
    let v0 = Seq::<char>::empty();
    assert(words(v0) =~= Seq::<Seq<char>>::empty());
    let v1 = v0.push('n');
    lemma_words_push(v0, 'n');
    assert(words(v1) =~~= seq![seq!['n']]);
    assert(v1 =~= "n"@);
    assert(words(v1) =~~= seq![seq!['n']]);
    reveal_strlit("n");
    assert("n"@ =~= seq!['n']);
    lemma_first_phoneme_found(english_phonemes(), 33, seq!['n']);
}

proof fn lemma_known_en_28()
    ensures
        all_known(english_phonemes(), words("p"@)),
{
    reveal_strlit("p");
    let v0 = Seq::<char>::empty();
    assert(words(v0) =~= Seq::<Seq<char>>::empty());
    let v1 = v0.push('p');
    lemma_words_push(v0, 'p');
    assert(words(v1) =~~= seq![seq!['p']]);
    assert(v1 =~= "p"@);
    assert(words(v1) =~~= seq![seq!['p']]);
    reveal_strlit("p");
    assert("p"@ =~= seq!['p']);
    lemma_first_phoneme_found(english_phonemes(), 15, seq!['p']);
}

proof fn lemma_known_en_29()
    ensures
        all_known(english_phonemes(), words("k w"@)),
{
    reveal_strlit("k w");
    let v0 = Seq::<char>::empty();
    assert(words(v0) =~= Seq::<Seq<char>>::empty());
    let v1 = v0.push('k');
    lemma_words_push(v0, 'k');
    assert(words(v1) =~~= seq![seq!['k']]);
    let v2 = v1.push(' ');
    lemma_words_push(v1, ' ');
    assert(words(v2) =~~= seq![seq!['k']]);
    let v3 = v2.push('w');
    lemma_words_push(v2, 'w');
    assert(words(v3) =~~= seq![seq!['k'], seq!['w']]);
    assert(v3 =~= "k w"@);
    assert(words(v3) =~~= seq![seq!['k'], seq!['w']]);
    reveal_strlit("k");
    assert("k"@ =~= seq!['k']);
    lemma_first_phoneme_found(english_phonemes(), 19, seq!['k']);
    reveal_strlit("w");
    assert("w"@ =~= seq!['w']);
    lemma_first_phoneme_found(english_phonemes(), 37, seq!['w']);
}

proof fn lemma_known_en_30()
    ensures
        all_known(english_phonemes(), words("r"@)),
{
    reveal_strlit("r");
    let v0 = Seq::<char>::empty();
    assert(words(v0) =~= Seq::<Seq<char>>::empty());
    let v1 = v0.push('r');
    lemma_words_push(v0, 'r');
    assert(words(v1) =~~= seq![seq!['r']]);
    assert(v1 =~= "r"@);
    assert(words(v1) =~~= seq![seq!['r']]);
    reveal_strlit("r");
    assert("r"@ =~= seq!['r']);
    lemma_first_phoneme_found(english_phonemes(), 36, seq!['r']);
}

proof fn lemma_known_en_31()
    ensures
        all_known(english_phonemes(), words("v"@)),
{
    reveal_strlit("v");
    let v0 = Seq::<char>::empty();
    assert(words(v0) =~= Seq::<Seq<char>>::empty());
    let v1 = v0.push('v');
    lemma_words_push(v0, 'v');
    assert(words(v1) =~~= seq![seq!['v']]);
    assert(v1 =~= "v"@);
    assert(words(v1) =~~= seq![seq!['v']]);
    reveal_strlit("v");
    assert("v"@ =~= seq!['v']);
    lemma_first_phoneme_found(english_phonemes(), 22, seq!['v']);
}

proof fn lemma_known_en_32()
    ensures
        all_known(english_phonemes(), words("k s"@)),
{
    reveal_strlit("k s");
    let v0 = Seq::<char>::empty();
    assert(words(v0) =~= Seq::<Seq<char>>::empty());
    let v1 = v0.push('k');
    lemma_words_push(v0, 'k');
    assert(words(v1) =~~= seq![seq!['k']]);
    let v2 = v1.push(' ');
    lemma_words_push(v1, ' ');
    assert(words(v2) =~~= seq![seq!['k']]);
    let v3 = v2.push('s');
    lemma_words_push(v2, 's');
    assert(words(v3) =~~= seq![seq!['k'], seq!['s']]);
    assert(v3 =~= "k s"@);
    assert(words(v3) =~~= seq![seq!['k'], seq!['s']]);
    reveal_strlit("k");
    assert("k"@ =~= seq!['k']);
    lemma_first_phoneme_found(english_phonemes(), 19, seq!['k']);
    reveal_strlit("s");
    assert("s"@ =~= seq!['s']);
    lemma_first_phoneme_found(english_phonemes(), 25, seq!['s']);
}

proof fn lemma_known_en_33()
    ensures
        all_known(english_phonemes(), words("j"@)),
{
    reveal_strlit("j");
    let v0 = Seq::<char>::empty();
    assert(words(v0) =~= Seq::<Seq<char>>::empty());
    let v1 = v0.push('j');
    lemma_words_push(v0, 'j');
    assert(words(v1) =~~= seq![seq!['j']]);
    assert(v1 =~= "j"@);
    assert(words(v1) =~~= seq![seq!['j']]);
    reveal_strlit("j");
    assert("j"@ =~= seq!['j']);
    lemma_first_phoneme_found(english_phonemes(), 38, seq!['j']);
}

proof fn lemma_known_en_34()
    ensures
        all_known(english_phonemes(), words("z"@)),
{
    reveal_strlit("z");
    let v0 = Seq::<char>::empty();
    assert(words(v0) =~= Seq::<Seq<char>>::empty());
    let v1 = v0.push('z');
    lemma_words_push(v0, 'z');
    assert(words(v1) =~~= seq![seq!['z']]);
    assert(v1 =~= "z"@);
    assert(words(v1) =~~= seq![seq!['z']]);
    reveal_strlit("z");
    assert("z"@ =~= seq!['z']);
    lemma_first_phoneme_found(english_phonemes(), 26, seq!['z']);
}

proof fn lemma_known_en_35()
    ensures
        all_known(english_phonemes(), words("aU"@)),
{
    reveal_strlit("aU");
    let v0 = Seq::<char>::empty();
    assert(words(v0) =~= Seq::<Seq<char>>::empty());
    let v1 = v0.push('a');
    lemma_words_push(v0, 'a');
    assert(words(v1) =~~= seq![seq!['a']]);
    let v2 = v1.push('U');
    lemma_words_push(v1, 'U');
    assert(words(v2) =~~= seq![seq!['a', 'U']]);
    assert(v2 =~= "aU"@);
    assert(words(v2) =~~= seq![seq!['a', 'U']]);
    reveal_strlit("aU");
    assert("aU"@ =~= seq!['a', 'U']);
    lemma_first_phoneme_found(english_phonemes(), 13, seq!['a', 'U']);
}

proof fn lemma_known_en_36()
    ensures
        all_known(english_phonemes(), words("OI"@)),
{
    reveal_strlit("OI");
    let v0 = Seq::<char>::empty();
    assert(words(v0) =~= Seq::<Seq<char>>::empty());
    let v1 = v0.push('O');
    lemma_words_push(v0, 'O');
    assert(words(v1) =~~= seq![seq!['O']]);
    let v2 = v1.push('I');
    lemma_words_push(v1, 'I');
    assert(words(v2) =~~= seq![seq!['O', 'I']]);
    assert(v2 =~= "OI"@);
    assert(words(v2) =~~= seq![seq!['O', 'I']]);
    reveal_strlit("OI");
    assert("OI"@ =~= seq!['O', 'I']);
    lemma_first_phoneme_found(english_phonemes(), 14, seq!['O', 'I']);
}

proof fn lemma_known_en_37()
    ensures
        all_known(english_phonemes(), words("O"@)),
{
    reveal_strlit("O");
    let v0 = Seq::<char>::empty();
    assert(words(v0) =~= Seq::<Seq<char>>::empty());
    let v1 = v0.push('O');
    lemma_words_push(v0, 'O');
    assert(words(v1) =~~= seq![seq!['O']]);
    assert(v1 =~= "O"@);
    assert(words(v1) =~~= seq![seq!['O']]);
    reveal_strlit("O");
    assert("O"@ =~= seq!['O']);
    lemma_first_phoneme_found(english_phonemes(), 6, seq!['O']);
}

proof fn lemma_english_rows_known()
    ensures
        forall|j: int| 0 <= j < english_rule_rows().len() ==> all_known(english_phonemes(), words(#[trigger] english_rule_rows()[j].3@)),
{
    assert forall|j: int| 0 <= j < english_rule_rows().len() implies all_known(english_phonemes(), words(#[trigger] english_rule_rows()[j].3@)) by {
        if j == 0 {
            lemma_known_en_0();
        }
        if j == 1 {
            lemma_known_en_1();
        }
        if j == 2 {
            lemma_known_en_2();
        }
        if j == 3 {
            lemma_known_en_3();
        }
        if j == 4 {
            lemma_known_en_4();
        }
        if j == 5 {
            lemma_known_en_5();
        }
        if j == 6 {
            lemma_known_en_6();
        }
        if j == 7 {
            lemma_known_en_7();
        }
        if j == 8 {
            lemma_known_en_8();
        }
        if j == 9 {
            lemma_known_en_9();
        }
        if j == 10 {
            lemma_known_en_10();
        }
        if j == 11 {
            lemma_known_en_11();
        }
        if j == 12 {
            lemma_known_en_12();
        }
        if j == 13 {
            lemma_known_en_13();
        }
        if j == 14 {
            lemma_known_en_14();
        }
        if j == 15 {
            lemma_known_en_15();
        }
        if j == 16 {
            lemma_known_en_16();
        }
        if j == 17 {
            lemma_known_en_17();
        }
        if j == 18 {
            lemma_known_en_18();
        }
        if j == 19 {
            lemma_known_en_3();
        }
        if j == 20 {
            lemma_known_en_19();
        }
        if j == 21 {
            lemma_known_en_20();
        }
        if j == 22 {
            lemma_known_en_17();
        }
        if j == 23 {
            lemma_known_en_21();
        }
        if j == 24 {
            lemma_known_en_15();
        }
        if j == 25 {
            lemma_known_en_22();
        }
        if j == 26 {
            lemma_known_en_23();
        }
        if j == 27 {
            lemma_known_en_24();
        }
        if j == 28 {
            lemma_known_en_22();
        }
        if j == 29 {
            lemma_known_en_17();
        }
        if j == 30 {
            lemma_known_en_25();
        }
        if j == 31 {
            lemma_known_en_26();
        }
        if j == 32 {
            lemma_known_en_27();
        }
        if j == 33 {
            lemma_known_en_28();
        }
        if j == 34 {
            lemma_known_en_29();
        }
        if j == 35 {
            lemma_known_en_30();
        }
        if j == 36 {
            lemma_known_en_20();
        }
        if j == 37 {
            lemma_known_en_18();
        }
        if j == 38 {
            lemma_known_en_31();
        }
        if j == 39 {
            lemma_known_en_16();
        }
        if j == 40 {
            lemma_known_en_32();
        }
        if j == 41 {
            lemma_known_en_33();
        }
        if j == 42 {
            lemma_known_en_2();
        }
        if j == 43 {
            lemma_known_en_34();
        }
        if j == 44 {
            lemma_known_en_2();
        }
        if j == 45 {
            lemma_known_en_2();
        }
        if j == 46 {
            lemma_known_en_9();
        }
        if j == 47 {
            lemma_known_en_35();
        }
        if j == 48 {
            lemma_known_en_35();
        }
        if j == 49 {
            lemma_known_en_36();
        }
        if j == 50 {
            lemma_known_en_36();
        }
        if j == 51 {
            lemma_known_en_0();
        }
        if j == 52 {
            lemma_known_en_0();
        }
        if j == 53 {
            lemma_known_en_37();
        }
        if j == 54 {
            lemma_known_en_37();
        }
    }
}

proof fn lemma_known_es_38()
    ensures
        all_known(spanish_phonemes(), words("a"@)),
{
    reveal_strlit("a");
    let v0 = Seq::<char>::empty();
    assert(words(v0) =~= Seq::<Seq<char>>::empty());
    let v1 = v0.push('a');
    lemma_words_push(v0, 'a');
    assert(words(v1) =~~= seq![seq!['a']]);
    assert(v1 =~= "a"@);
    assert(words(v1) =~~= seq![seq!['a']]);
    reveal_strlit("a");
    assert("a"@ =~= seq!['a']);
    lemma_first_phoneme_found(spanish_phonemes(), 0, seq!['a']);
}

proof fn lemma_known_es_39()
    ensures
        all_known(spanish_phonemes(), words("e"@)),
{
    reveal_strlit("e");
    let v0 = Seq::<char>::empty();
    assert(words(v0) =~= Seq::<Seq<char>>::empty());
    let v1 = v0.push('e');
    lemma_words_push(v0, 'e');
    assert(words(v1) =~~= seq![seq!['e']]);
    assert(v1 =~= "e"@);
    assert(words(v1) =~~= seq![seq!['e']]);
    reveal_strlit("e");
    assert("e"@ =~= seq!['e']);
    lemma_first_phoneme_found(spanish_phonemes(), 1, seq!['e']);
}

proof fn lemma_known_es_40()
    ensures
        all_known(spanish_phonemes(), words("i"@)),
{
    reveal_strlit("i");
    let v0 = Seq::<char>::empty();
    assert(words(v0) =~= Seq::<Seq<char>>::empty());
    let v1 = v0.push('i');
    lemma_words_push(v0, 'i');
    assert(words(v1) =~~= seq![seq!['i']]);
    assert(v1 =~= "i"@);
    assert(words(v1) =~~= seq![seq!['i']]);
    reveal_strlit("i");
    assert("i"@ =~= seq!['i']);
    lemma_first_phoneme_found(spanish_phonemes(), 2, seq!['i']);
}

proof fn lemma_known_es_41()
    ensures
        all_known(spanish_phonemes(), words("o"@)),
{
    reveal_strlit("o");
    let v0 = Seq::<char>::empty();
    assert(words(v0) =~= Seq::<Seq<char>>::empty());
    let v1 = v0.push('o');
    lemma_words_push(v0, 'o');
    assert(words(v1) =~~= seq![seq!['o']]);
    assert(v1 =~= "o"@);
    assert(words(v1) =~~= seq![seq!['o']]);
    reveal_strlit("o");
    assert("o"@ =~= seq!['o']);
    lemma_first_phoneme_found(spanish_phonemes(), 3, seq!['o']);
}

proof fn lemma_known_es_42()
    ensures
        all_known(spanish_phonemes(), words("u"@)),
{
    reveal_strlit("u");
    let v0 = Seq::<char>::empty();
    assert(words(v0) =~= Seq::<Seq<char>>::empty());
    let v1 = v0.push('u');
    lemma_words_push(v0, 'u');
    assert(words(v1) =~~= seq![seq!['u']]);
    assert(v1 =~= "u"@);
    assert(words(v1) =~~= seq![seq!['u']]);
    reveal_strlit("u");
    assert("u"@ =~= seq!['u']);
    lemma_first_phoneme_found(spanish_phonemes(), 4, seq!['u']);
}

proof fn lemma_known_es_43()
    ensures
        all_known(spanish_phonemes(), words("tS"@)),
{
    reveal_strlit("tS");
    let v0 = Seq::<char>::empty();
    assert(words(v0) =~= Seq::<Seq<char>>::empty());
    let v1 = v0.push('t');
    lemma_words_push(v0, 't');
    assert(words(v1) =~~= seq![seq!['t']]);
    let v2 = v1.push('S');
    lemma_words_push(v1, 'S');
    assert(words(v2) =~~= seq![seq!['t', 'S']]);
    assert(v2 =~= "tS"@);
    assert(words(v2) =~~= seq![seq!['t', 'S']]);
    reveal_strlit("tS");
    assert("tS"@ =~= seq!['t', 'S']);
    lemma_first_phoneme_found(spanish_phonemes(), 15, seq!['t', 'S']);
}

proof fn lemma_known_es_44()
    ensures
        all_known(spanish_phonemes(), words("L"@)),
{
    reveal_strlit("L");
    let v0 = Seq::<char>::empty();
    assert(words(v0) =~= Seq::<Seq<char>>::empty());
    let v1 = v0.push('L');
    lemma_words_push(v0, 'L');
    assert(words(v1) =~~= seq![seq!['L']]);
    assert(v1 =~= "L"@);
    assert(words(v1) =~~= seq![seq!['L']]);
    reveal_strlit("L");
    assert("L"@ =~= seq!['L']);
    lemma_first_phoneme_found(spanish_phonemes(), 20, seq!['L']);
}

proof fn lemma_known_es_45()
    ensures
        all_known(spanish_phonemes(), words("rr"@)),
{
    reveal_strlit("rr");
    let v0 = Seq::<char>::empty();
    assert(words(v0) =~= Seq::<Seq<char>>::empty());
    let v1 = v0.push('r');
    lemma_words_push(v0, 'r');
    assert(words(v1) =~~= seq![seq!['r']]);
    let v2 = v1.push('r');
    lemma_words_push(v1, 'r');
    assert(words(v2) =~~= seq![seq!['r', 'r']]);
    assert(v2 =~= "rr"@);
    assert(words(v2) =~~= seq![seq!['r', 'r']]);
    reveal_strlit("rr");
    assert("rr"@ =~= seq!['r', 'r']);
    lemma_first_phoneme_found(spanish_phonemes(), 22, seq!['r', 'r']);
}

proof fn lemma_known_es_46()
    ensures
        all_known(spanish_phonemes(), words("J"@)),
{
    reveal_strlit("J");
    let v0 = Seq::<char>::empty();
    assert(words(v0) =~= Seq::<Seq<char>>::empty());
    let v1 = v0.push('J');
    lemma_words_push(v0, 'J');
    assert(words(v1) =~~= seq![seq!['J']]);
    assert(v1 =~= "J"@);
    assert(words(v1) =~~= seq![seq!['J']]);
    reveal_strlit("J");
    assert("J"@ =~= seq!['J']);
    lemma_first_phoneme_found(spanish_phonemes(), 18, seq!['J']);
}

proof fn lemma_known_es_47()
    ensures
        all_known(spanish_phonemes(), words("k"@)),
{
    reveal_strlit("k");
    let v0 = Seq::<char>::empty();
    assert(words(v0) =~= Seq::<Seq<char>>::empty());
    let v1 = v0.push('k');
    lemma_words_push(v0, 'k');
    assert(words(v1) =~~= seq![seq!['k']]);
    assert(v1 =~= "k"@);
    assert(words(v1) =~~= seq![seq!['k']]);
    reveal_strlit("k");
    assert("k"@ =~= seq!['k']);
    lemma_first_phoneme_found(spanish_phonemes(), 9, seq!['k']);
}

proof fn lemma_known_es_48()
    ensures
        all_known(spanish_phonemes(), words("g"@)),
{
    reveal_strlit("g");
    let v0 = Seq::<char>::empty();
    assert(words(v0) =~= Seq::<Seq<char>>::empty());
    let v1 = v0.push('g');
    lemma_words_push(v0, 'g');
    assert(words(v1) =~~= seq![seq!['g']]);
    assert(v1 =~= "g"@);
    assert(words(v1) =~~= seq![seq!['g']]);
    reveal_strlit("g");
    assert("g"@ =~= seq!['g']);
    lemma_first_phoneme_found(spanish_phonemes(), 10, seq!['g']);
}

proof fn lemma_known_es_49()
    ensures
        all_known(spanish_phonemes(), words("T"@)),
{
    reveal_strlit("T");
    let v0 = Seq::<char>::empty();
    assert(words(v0) =~= Seq::<Seq<char>>::empty());
    let v1 = v0.push('T');
    lemma_words_push(v0, 'T');
    assert(words(v1) =~~= seq![seq!['T']]);
    assert(v1 =~= "T"@);
    assert(words(v1) =~~= seq![seq!['T']]);
    reveal_strlit("T");
    assert("T"@ =~= seq!['T']);
    lemma_first_phoneme_found(spanish_phonemes(), 14, seq!['T']);
}

proof fn lemma_known_es_50()
    ensures
        all_known(spanish_phonemes(), words("x"@)),
{
    reveal_strlit("x");
    let v0 = Seq::<char>::empty();
    assert(words(v0) =~= Seq::<Seq<char>>::empty());
    let v1 = v0.push('x');
    lemma_words_push(v0, 'x');
    assert(words(v1) =~~= seq![seq!['x']]);
    assert(v1 =~= "x"@);
    assert(words(v1) =~~= seq![seq!['x']]);
    reveal_strlit("x");
    assert("x"@ =~= seq!['x']);
    lemma_first_phoneme_found(spanish_phonemes(), 13, seq!['x']);
}

proof fn lemma_known_es_51()
    ensures
        all_known(spanish_phonemes(), words("b"@)),
{
    reveal_strlit("b");
    let v0 = Seq::<char>::empty();
    assert(words(v0) =~= Seq::<Seq<char>>::empty());
    let v1 = v0.push('b');
    lemma_words_push(v0, 'b');
    assert(words(v1) =~~= seq![seq!['b']]);
    assert(v1 =~= "b"@);
    assert(words(v1) =~~= seq![seq!['b']]);
    reveal_strlit("b");
    assert("b"@ =~= seq!['b']);
    lemma_first_phoneme_found(spanish_phonemes(), 6, seq!['b']);
}

proof fn lemma_known_es_52()
    ensures
        all_known(spanish_phonemes(), words("d"@)),
{
    reveal_strlit("d");
    let v0 = Seq::<char>::empty();
    assert(words(v0) =~= Seq::<Seq<char>>::empty());
    let v1 = v0.push('d');
    lemma_words_push(v0, 'd');
    assert(words(v1) =~~= seq![seq!['d']]);
    assert(v1 =~= "d"@);
    assert(words(v1) =~~= seq![seq!['d']]);
    reveal_strlit("d");
    assert("d"@ =~= seq!['d']);
    lemma_first_phoneme_found(spanish_phonemes(), 8, seq!['d']);
}

proof fn lemma_known_es_53()
    ensures
        all_known(spanish_phonemes(), words("f"@)),
{
    reveal_strlit("f");
    let v0 = Seq::<char>::empty();
    assert(words(v0) =~= Seq::<Seq<char>>::empty());
    let v1 = v0.push('f');
    lemma_words_push(v0, 'f');
    assert(words(v1) =~~= seq![seq!['f']]);
    assert(v1 =~= "f"@);
    assert(words(v1) =~~= seq![seq!['f']]);
    reveal_strlit("f");
    assert("f"@ =~= seq!['f']);
    lemma_first_phoneme_found(spanish_phonemes(), 11, seq!['f']);
}

proof fn lemma_known_es_54()
    ensures
        all_known(spanish_phonemes(), words(""@)),
{
    reveal_strlit("");
    let v0 = Seq::<char>::empty();
    assert(words(v0) =~= Seq::<Seq<char>>::empty());
    assert(v0 =~= ""@);
    assert(words(v0) =~= Seq::<Seq<char>>::empty());
}

proof fn lemma_known_es_55()
    ensures
        all_known(spanish_phonemes(), words("l"@)),
{
    reveal_strlit("l");
    let v0 = Seq::<char>::empty();
    assert(words(v0) =~= Seq::<Seq<char>>::empty());
    let v1 = v0.push('l');
    lemma_words_push(v0, 'l');
    assert(words(v1) =~~= seq![seq!['l']]);
    assert(v1 =~= "l"@);
    assert(words(v1) =~~= seq![seq!['l']]);
    reveal_strlit("l");
    assert("l"@ =~= seq!['l']);
    lemma_first_phoneme_found(spanish_phonemes(), 19, seq!['l']);
}

proof fn lemma_known_es_56()
    ensures
        all_known(spanish_phonemes(), words("m"@)),
{
    reveal_strlit("m");
    let v0 = Seq::<char>::empty();
    assert(words(v0) =~= Seq::<Seq<char>>::empty());
    let v1 = v0.push('m');
    lemma_words_push(v0, 'm');
    assert(words(v1) =~~= seq![seq!['m']]);
    assert(v1 =~= "m"@);
    assert(words(v1) =~~= seq![seq!['m']]);
    reveal_strlit("m");
    assert("m"@ =~= seq!['m']);
    lemma_first_phoneme_found(spanish_phonemes(), 16, seq!['m']);
}

proof fn lemma_known_es_57()
    ensures
        all_known(spanish_phonemes(), words("n"@)),
{
    reveal_strlit("n");
    let v0 = Seq::<char>::empty();
    assert(words(v0) =~= Seq::<Seq<char>>::empty());
    let v1 = v0.push('n');
    lemma_words_push(v0, 'n');
    assert(words(v1) =~~= seq![seq!['n']]);
    assert(v1 =~= "n"@);
    assert(words(v1) =~~= seq![seq!['n']]);
    reveal_strlit("n");
    assert("n"@ =~= seq!['n']);
    lemma_first_phoneme_found(spanish_phonemes(), 17, seq!['n']);
}

proof fn lemma_known_es_58()
    ensures
        all_known(spanish_phonemes(), words("p"@)),
{
    reveal_strlit("p");
    let v0 = Seq::<char>::empty();
    assert(words(v0) =~= Seq::<Seq<char>>::empty());
    let v1 = v0.push('p');
    lemma_words_push(v0, 'p');
    assert(words(v1) =~~= seq![seq!['p']]);
    assert(v1 =~= "p"@);
    assert(words(v1) =~~= seq![seq!['p']]);
    reveal_strlit("p");
    assert("p"@ =~= seq!['p']);
    lemma_first_phoneme_found(spanish_phonemes(), 5, seq!['p']);
}

proof fn lemma_known_es_59()
    ensures
        all_known(spanish_phonemes(), words("r"@)),
{
    reveal_strlit("r");
    let v0 = Seq::<char>::empty();
    assert(words(v0) =~= Seq::<Seq<char>>::empty());
    let v1 = v0.push('r');
    lemma_words_push(v0, 'r');
    assert(words(v1) =~~= seq![seq!['r']]);
    assert(v1 =~= "r"@);
    assert(words(v1) =~~= seq![seq!['r']]);
    reveal_strlit("r");
    assert("r"@ =~= seq!['r']);
    lemma_first_phoneme_found(spanish_phonemes(), 21, seq!['r']);
}

proof fn lemma_known_es_60()
    ensures
        all_known(spanish_phonemes(), words("s"@)),
{
    reveal_strlit("s");
    let v0 = Seq::<char>::empty();
    assert(words(v0) =~= Seq::<Seq<char>>::empty());
    let v1 = v0.push('s');
    lemma_words_push(v0, 's');
    assert(words(v1) =~~= seq![seq!['s']]);
    assert(v1 =~= "s"@);
    assert(words(v1) =~~= seq![seq!['s']]);
    reveal_strlit("s");
    assert("s"@ =~= seq!['s']);
    lemma_first_phoneme_found(spanish_phonemes(), 12, seq!['s']);
}

proof fn lemma_known_es_61()
    ensures
        all_known(spanish_phonemes(), words("t"@)),
{
    reveal_strlit("t");
    let v0 = Seq::<char>::empty();
    assert(words(v0) =~= Seq::<Seq<char>>::empty());
    let v1 = v0.push('t');
    lemma_words_push(v0, 't');
    assert(words(v1) =~~= seq![seq!['t']]);
    assert(v1 =~= "t"@);
    assert(words(v1) =~~= seq![seq!['t']]);
    reveal_strlit("t");
    assert("t"@ =~= seq!['t']);
    lemma_first_phoneme_found(spanish_phonemes(), 7, seq!['t']);
}

proof fn lemma_known_es_62()
    ensures
        all_known(spanish_phonemes(), words("w"@)),
{
    reveal_strlit("w");
    let v0 = Seq::<char>::empty();
    assert(words(v0) =~= Seq::<Seq<char>>::empty());
    let v1 = v0.push('w');
    lemma_words_push(v0, 'w');
    assert(words(v1) =~~= seq![seq!['w']]);
    assert(v1 =~= "w"@);
    assert(words(v1) =~~= seq![seq!['w']]);
    reveal_strlit("w");
    assert("w"@ =~= seq!['w']);
    lemma_first_phoneme_found(spanish_phonemes(), 24, seq!['w']);
}

proof fn lemma_known_es_63()
    ensures
        all_known(spanish_phonemes(), words("k s"@)),
{
    reveal_strlit("k s");
    let v0 = Seq::<char>::empty();
    assert(words(v0) =~= Seq::<Seq<char>>::empty());
    let v1 = v0.push('k');
    lemma_words_push(v0, 'k');
    assert(words(v1) =~~= seq![seq!['k']]);
    let v2 = v1.push(' ');
    lemma_words_push(v1, ' ');
    assert(words(v2) =~~= seq![seq!['k']]);
    let v3 = v2.push('s');
    lemma_words_push(v2, 's');
    assert(words(v3) =~~= seq![seq!['k'], seq!['s']]);
    assert(v3 =~= "k s"@);
    assert(words(v3) =~~= seq![seq!['k'], seq!['s']]);
    reveal_strlit("k");
    assert("k"@ =~= seq!['k']);
    lemma_first_phoneme_found(spanish_phonemes(), 9, seq!['k']);
    reveal_strlit("s");
    assert("s"@ =~= seq!['s']);
    lemma_first_phoneme_found(spanish_phonemes(), 12, seq!['s']);
}

proof fn lemma_known_es_64()
    ensures
        all_known(spanish_phonemes(), words("j"@)),
{
    reveal_strlit("j");
    let v0 = Seq::<char>::empty();
    assert(words(v0) =~= Seq::<Seq<char>>::empty());
    let v1 = v0.push('j');
    lemma_words_push(v0, 'j');
    assert(words(v1) =~~= seq![seq!['j']]);
    assert(v1 =~= "j"@);
    assert(words(v1) =~~= seq![seq!['j']]);
    reveal_strlit("j");
    assert("j"@ =~= seq!['j']);
    lemma_first_phoneme_found(spanish_phonemes(), 23, seq!['j']);
}

proof fn lemma_spanish_rows_known()
    ensures
        forall|j: int| 0 <= j < spanish_rule_rows().len() ==> all_known(spanish_phonemes(), words(#[trigger] spanish_rule_rows()[j].3@)),
{
    assert forall|j: int| 0 <= j < spanish_rule_rows().len() implies all_known(spanish_phonemes(), words(#[trigger] spanish_rule_rows()[j].3@)) by {
        if j == 0 {
            lemma_known_es_38();
        }
        if j == 1 {
            lemma_known_es_39();
        }
        if j == 2 {
            lemma_known_es_40();
        }
        if j == 3 {
            lemma_known_es_41();
        }
        if j == 4 {
            lemma_known_es_42();
        }
        if j == 5 {
            lemma_known_es_38();
        }
        if j == 6 {
            lemma_known_es_39();
        }
        if j == 7 {
            lemma_known_es_40();
        }
        if j == 8 {
            lemma_known_es_41();
        }
        if j == 9 {
            lemma_known_es_42();
        }
        if j == 10 {
            lemma_known_es_42();
        }
        if j == 11 {
            lemma_known_es_43();
        }
        if j == 12 {
            lemma_known_es_44();
        }
        if j == 13 {
            lemma_known_es_45();
        }
        if j == 14 {
            lemma_known_es_46();
        }
        if j == 15 {
            lemma_known_es_47();
        }
        if j == 16 {
            lemma_known_es_48();
        }
        if j == 17 {
            lemma_known_es_49();
        }
        if j == 18 {
            lemma_known_es_47();
        }
        if j == 19 {
            lemma_known_es_50();
        }
        if j == 20 {
            lemma_known_es_48();
        }
        if j == 21 {
            lemma_known_es_51();
        }
        if j == 22 {
            lemma_known_es_52();
        }
        if j == 23 {
            lemma_known_es_53();
        }
        if j == 24 {
            lemma_known_es_54();
        }
        if j == 25 {
            lemma_known_es_50();
        }
        if j == 26 {
            lemma_known_es_47();
        }
        if j == 27 {
            lemma_known_es_55();
        }
        if j == 28 {
            lemma_known_es_56();
        }
        if j == 29 {
            lemma_known_es_57();
        }
        if j == 30 {
            lemma_known_es_58();
        }
        if j == 31 {
            lemma_known_es_45();
        }
        if j == 32 {
            lemma_known_es_59();
        }
        if j == 33 {
            lemma_known_es_60();
        }
        if j == 34 {
            lemma_known_es_61();
        }
        if j == 35 {
            lemma_known_es_51();
        }
        if j == 36 {
            lemma_known_es_62();
        }
        if j == 37 {
            lemma_known_es_63();
        }
        if j == 38 {
            lemma_known_es_40();
        }
        if j == 39 {
            lemma_known_es_64();
        }
        if j == 40 {
            lemma_known_es_49();
        }
    }
}

proof fn lemma_known_en_65()
    ensures
        all_known(english_phonemes(), words("D @"@)),
{
    reveal_strlit("D @");
    let v0 = Seq::<char>::empty();
    assert(words(v0) =~= Seq::<Seq<char>>::empty());
    let v1 = v0.push('D');
    lemma_words_push(v0, 'D');
    assert(words(v1) =~~= seq![seq!['D']]);
    let v2 = v1.push(' ');
    lemma_words_push(v1, ' ');
    assert(words(v2) =~~= seq![seq!['D']]);
    let v3 = v2.push('@');
    lemma_words_push(v2, '@');
    assert(words(v3) =~~= seq![seq!['D'], seq!['@']]);
    assert(v3 =~= "D @"@);
    assert(words(v3) =~~= seq![seq!['D'], seq!['@']]);
    reveal_strlit("D");
    assert("D"@ =~= seq!['D']);
    lemma_first_phoneme_found(english_phonemes(), 24, seq!['D']);
    reveal_strlit("@");
    assert("@"@ =~= seq!['@']);
    lemma_first_phoneme_found(english_phonemes(), 10, seq!['@']);
}

proof fn lemma_known_en_66()
    ensures
        all_known(english_phonemes(), words("I z"@)),
{
    reveal_strlit("I z");
    let v0 = Seq::<char>::empty();
    assert(words(v0) =~= Seq::<Seq<char>>::empty());
    let v1 = v0.push('I');
    lemma_words_push(v0, 'I');
    assert(words(v1) =~~= seq![seq!['I']]);
    let v2 = v1.push(' ');
    lemma_words_push(v1, ' ');
    assert(words(v2) =~~= seq![seq!['I']]);
    let v3 = v2.push('z');
    lemma_words_push(v2, 'z');
    assert(words(v3) =~~= seq![seq!['I'], seq!['z']]);
    assert(v3 =~= "I z"@);
    assert(words(v3) =~~= seq![seq!['I'], seq!['z']]);
    reveal_strlit("I");
    assert("I"@ =~= seq!['I']);
    lemma_first_phoneme_found(english_phonemes(), 1, seq!['I']);
    reveal_strlit("z");
    assert("z"@ =~= seq!['z']);
    lemma_first_phoneme_found(english_phonemes(), 26, seq!['z']);
}

proof fn lemma_known_en_67()
    ensures
        all_known(english_phonemes(), words("A r"@)),
{
    reveal_strlit("A r");
    let v0 = Seq::<char>::empty();
    assert(words(v0) =~= Seq::<Seq<char>>::empty());
    let v1 = v0.push('A');
    lemma_words_push(v0, 'A');
    assert(words(v1) =~~= seq![seq!['A']]);
    let v2 = v1.push(' ');
    lemma_words_push(v1, ' ');
    assert(words(v2) =~~= seq![seq!['A']]);
    let v3 = v2.push('r');
    lemma_words_push(v2, 'r');
    assert(words(v3) =~~= seq![seq!['A'], seq!['r']]);
    assert(v3 =~= "A r"@);
    assert(words(v3) =~~= seq![seq!['A'], seq!['r']]);
    reveal_strlit("A");
    assert("A"@ =~= seq!['A']);
    lemma_first_phoneme_found(english_phonemes(), 5, seq!['A']);
    reveal_strlit("r");
    assert("r"@ =~= seq!['r']);
    lemma_first_phoneme_found(english_phonemes(), 36, seq!['r']);
}

proof fn lemma_known_en_68()
    ensures
        all_known(english_phonemes(), words("w A z"@)),
{
    reveal_strlit("w A z");
    let v0 = Seq::<char>::empty();
    assert(words(v0) =~= Seq::<Seq<char>>::empty());
    let v1 = v0.push('w');
    lemma_words_push(v0, 'w');
    assert(words(v1) =~~= seq![seq!['w']]);
    let v2 = v1.push(' ');
    lemma_words_push(v1, ' ');
    assert(words(v2) =~~= seq![seq!['w']]);
    let v3 = v2.push('A');
    lemma_words_push(v2, 'A');
    assert(words(v3) =~~= seq![seq!['w'], seq!['A']]);
    let v4 = v3.push(' ');
    lemma_words_push(v3, ' ');
    assert(words(v4) =~~= seq![seq!['w'], seq!['A']]);
    let v5 = v4.push('z');
    lemma_words_push(v4, 'z');
    assert(words(v5) =~~= seq![seq!['w'], seq!['A'], seq!['z']]);
    assert(v5 =~= "w A z"@);
    assert(words(v5) =~~= seq![seq!['w'], seq!['A'], seq!['z']]);
    reveal_strlit("w");
    assert("w"@ =~= seq!['w']);
    lemma_first_phoneme_found(english_phonemes(), 37, seq!['w']);
    reveal_strlit("A");
    assert("A"@ =~= seq!['A']);
    lemma_first_phoneme_found(english_phonemes(), 5, seq!['A']);
    reveal_strlit("z");
    assert("z"@ =~= seq!['z']);
    lemma_first_phoneme_found(english_phonemes(), 26, seq!['z']);
}

proof fn lemma_known_en_69()
    ensures
        all_known(english_phonemes(), words("w 3 r"@)),
{
    reveal_strlit("w 3 r");
    let v0 = Seq::<char>::empty();
    assert(words(v0) =~= Seq::<Seq<char>>::empty());
    let v1 = v0.push('w');
    lemma_words_push(v0, 'w');
    assert(words(v1) =~~= seq![seq!['w']]);
    let v2 = v1.push(' ');
    lemma_words_push(v1, ' ');
    assert(words(v2) =~~= seq![seq!['w']]);
    let v3 = v2.push('3');
    lemma_words_push(v2, '3');
    assert(words(v3) =~~= seq![seq!['w'], seq!['3']]);
    let v4 = v3.push(' ');
    lemma_words_push(v3, ' ');
    assert(words(v4) =~~= seq![seq!['w'], seq!['3']]);
    let v5 = v4.push('r');
    lemma_words_push(v4, 'r');
    assert(words(v5) =~~= seq![seq!['w'], seq!['3'], seq!['r']]);
    assert(v5 =~= "w 3 r"@);
    assert(words(v5) =~~= seq![seq!['w'], seq!['3'], seq!['r']]);
    reveal_strlit("w");
    assert("w"@ =~= seq!['w']);
    lemma_first_phoneme_found(english_phonemes(), 37, seq!['w']);
    reveal_strlit("3");
    assert("3"@ =~= seq!['3']);
    lemma_first_phoneme_found(english_phonemes(), 11, seq!['3']);
    reveal_strlit("r");
    assert("r"@ =~= seq!['r']);
    lemma_first_phoneme_found(english_phonemes(), 36, seq!['r']);
}

proof fn lemma_known_en_70()
    ensures
        all_known(english_phonemes(), words("h & v"@)),
{
    reveal_strlit("h & v");
    let v0 = Seq::<char>::empty();
    assert(words(v0) =~= Seq::<Seq<char>>::empty());
    let v1 = v0.push('h');
    lemma_words_push(v0, 'h');
    assert(words(v1) =~~= seq![seq!['h']]);
    let v2 = v1.push(' ');
    lemma_words_push(v1, ' ');
    assert(words(v2) =~~= seq![seq!['h']]);
    let v3 = v2.push('&');
    lemma_words_push(v2, '&');
    assert(words(v3) =~~= seq![seq!['h'], seq!['&']]);
    let v4 = v3.push(' ');
    lemma_words_push(v3, ' ');
    assert(words(v4) =~~= seq![seq!['h'], seq!['&']]);
    let v5 = v4.push('v');
    lemma_words_push(v4, 'v');
    assert(words(v5) =~~= seq![seq!['h'], seq!['&'], seq!['v']]);
    assert(v5 =~= "h & v"@);
    assert(words(v5) =~~= seq![seq!['h'], seq!['&'], seq!['v']]);
    reveal_strlit("h");
    assert("h"@ =~= seq!['h']);
    lemma_first_phoneme_found(english_phonemes(), 29, seq!['h']);
    reveal_strlit("&");
    assert("&"@ =~= seq!['&']);
    lemma_first_phoneme_found(english_phonemes(), 4, seq!['&']);
    reveal_strlit("v");
    assert("v"@ =~= seq!['v']);
    lemma_first_phoneme_found(english_phonemes(), 22, seq!['v']);
}

proof fn lemma_known_en_71()
    ensures
        all_known(english_phonemes(), words("h & z"@)),
{
    reveal_strlit("h & z");
    let v0 = Seq::<char>::empty();
    assert(words(v0) =~= Seq::<Seq<char>>::empty());
    let v1 = v0.push('h');
    lemma_words_push(v0, 'h');
    assert(words(v1) =~~= seq![seq!['h']]);
    let v2 = v1.push(' ');
    lemma_words_push(v1, ' ');
    assert(words(v2) =~~= seq![seq!['h']]);
    let v3 = v2.push('&');
    lemma_words_push(v2, '&');
    assert(words(v3) =~~= seq![seq!['h'], seq!['&']]);
    let v4 = v3.push(' ');
    lemma_words_push(v3, ' ');
    assert(words(v4) =~~= seq![seq!['h'], seq!['&']]);
    let v5 = v4.push('z');
    lemma_words_push(v4, 'z');
    assert(words(v5) =~~= seq![seq!['h'], seq!['&'], seq!['z']]);
    assert(v5 =~= "h & z"@);
    assert(words(v5) =~~= seq![seq!['h'], seq!['&'], seq!['z']]);
    reveal_strlit("h");
    assert("h"@ =~= seq!['h']);
    lemma_first_phoneme_found(english_phonemes(), 29, seq!['h']);
    reveal_strlit("&");
    assert("&"@ =~= seq!['&']);
    lemma_first_phoneme_found(english_phonemes(), 4, seq!['&']);
    reveal_strlit("z");
    assert("z"@ =~= seq!['z']);
    lemma_first_phoneme_found(english_phonemes(), 26, seq!['z']);
}

proof fn lemma_known_en_72()
    ensures
        all_known(english_phonemes(), words("h & d"@)),
{
    reveal_strlit("h & d");
    let v0 = Seq::<char>::empty();
    assert(words(v0) =~= Seq::<Seq<char>>::empty());
    let v1 = v0.push('h');
    lemma_words_push(v0, 'h');
    assert(words(v1) =~~= seq![seq!['h']]);
    let v2 = v1.push(' ');
    lemma_words_push(v1, ' ');
    assert(words(v2) =~~= seq![seq!['h']]);
    let v3 = v2.push('&');
    lemma_words_push(v2, '&');
    assert(words(v3) =~~= seq![seq!['h'], seq!['&']]);
    let v4 = v3.push(' ');
    lemma_words_push(v3, ' ');
    assert(words(v4) =~~= seq![seq!['h'], seq!['&']]);
    let v5 = v4.push('d');
    lemma_words_push(v4, 'd');
    assert(words(v5) =~~= seq![seq!['h'], seq!['&'], seq!['d']]);
    assert(v5 =~= "h & d"@);
    assert(words(v5) =~~= seq![seq!['h'], seq!['&'], seq!['d']]);
    reveal_strlit("h");
    assert("h"@ =~= seq!['h']);
    lemma_first_phoneme_found(english_phonemes(), 29, seq!['h']);
    reveal_strlit("&");
    assert("&"@ =~= seq!['&']);
    lemma_first_phoneme_found(english_phonemes(), 4, seq!['&']);
    reveal_strlit("d");
    assert("d"@ =~= seq!['d']);
    lemma_first_phoneme_found(english_phonemes(), 18, seq!['d']);
}

proof fn lemma_known_en_73()
    ensures
        all_known(english_phonemes(), words("d u"@)),
{
    reveal_strlit("d u");
    let v0 = Seq::<char>::empty();
    assert(words(v0) =~= Seq::<Seq<char>>::empty());
    let v1 = v0.push('d');
    lemma_words_push(v0, 'd');
    assert(words(v1) =~~= seq![seq!['d']]);
    let v2 = v1.push(' ');
    lemma_words_push(v1, ' ');
    assert(words(v2) =~~= seq![seq!['d']]);
    let v3 = v2.push('u');
    lemma_words_push(v2, 'u');
    assert(words(v3) =~~= seq![seq!['d'], seq!['u']]);
    assert(v3 =~= "d u"@);
    assert(words(v3) =~~= seq![seq!['d'], seq!['u']]);
    reveal_strlit("d");
    assert("d"@ =~= seq!['d']);
    lemma_first_phoneme_found(english_phonemes(), 18, seq!['d']);
    reveal_strlit("u");
    assert("u"@ =~= seq!['u']);
    lemma_first_phoneme_found(english_phonemes(), 9, seq!['u']);
}

proof fn lemma_known_en_74()
    ensures
        all_known(english_phonemes(), words("d @ z"@)),
{
    reveal_strlit("d @ z");
    let v0 = Seq::<char>::empty();
    assert(words(v0) =~= Seq::<Seq<char>>::empty());
    let v1 = v0.push('d');
    lemma_words_push(v0, 'd');
    assert(words(v1) =~~= seq![seq!['d']]);
    let v2 = v1.push(' ');
    lemma_words_push(v1, ' ');
    assert(words(v2) =~~= seq![seq!['d']]);
    let v3 = v2.push('@');
    lemma_words_push(v2, '@');
    assert(words(v3) =~~= seq![seq!['d'], seq!['@']]);
    let v4 = v3.push(' ');
    lemma_words_push(v3, ' ');
    assert(words(v4) =~~= seq![seq!['d'], seq!['@']]);
    let v5 = v4.push('z');
    lemma_words_push(v4, 'z');
    assert(words(v5) =~~= seq![seq!['d'], seq!['@'], seq!['z']]);
    assert(v5 =~= "d @ z"@);
    assert(words(v5) =~~= seq![seq!['d'], seq!['@'], seq!['z']]);
    reveal_strlit("d");
    assert("d"@ =~= seq!['d']);
    lemma_first_phoneme_found(english_phonemes(), 18, seq!['d']);
    reveal_strlit("@");
    assert("@"@ =~= seq!['@']);
    lemma_first_phoneme_found(english_phonemes(), 10, seq!['@']);
    reveal_strlit("z");
    assert("z"@ =~= seq!['z']);
    lemma_first_phoneme_found(english_phonemes(), 26, seq!['z']);
}

proof fn lemma_known_en_75()
    ensures
        all_known(english_phonemes(), words("d I d"@)),
{
    reveal_strlit("d I d");
    let v0 = Seq::<char>::empty();
    assert(words(v0) =~= Seq::<Seq<char>>::empty());
    let v1 = v0.push('d');
    lemma_words_push(v0, 'd');
    assert(words(v1) =~~= seq![seq!['d']]);
    let v2 = v1.push(' ');
    lemma_words_push(v1, ' ');
    assert(words(v2) =~~= seq![seq!['d']]);
    let v3 = v2.push('I');
    lemma_words_push(v2, 'I');
    assert(words(v3) =~~= seq![seq!['d'], seq!['I']]);
    let v4 = v3.push(' ');
    lemma_words_push(v3, ' ');
    assert(words(v4) =~~= seq![seq!['d'], seq!['I']]);
    let v5 = v4.push('d');
    lemma_words_push(v4, 'd');
    assert(words(v5) =~~= seq![seq!['d'], seq!['I'], seq!['d']]);
    assert(v5 =~= "d I d"@);
    assert(words(v5) =~~= seq![seq!['d'], seq!['I'], seq!['d']]);
    reveal_strlit("d");
    assert("d"@ =~= seq!['d']);
    lemma_first_phoneme_found(english_phonemes(), 18, seq!['d']);
    reveal_strlit("I");
    assert("I"@ =~= seq!['I']);
    lemma_first_phoneme_found(english_phonemes(), 1, seq!['I']);
    reveal_strlit("d");
    assert("d"@ =~= seq!['d']);
    lemma_first_phoneme_found(english_phonemes(), 18, seq!['d']);
}

proof fn lemma_known_en_76()
    ensures
        all_known(english_phonemes(), words("t u"@)),
{
    reveal_strlit("t u");
    let v0 = Seq::<char>::empty();
    assert(words(v0) =~= Seq::<Seq<char>>::empty());
    let v1 = v0.push('t');
    lemma_words_push(v0, 't');
    assert(words(v1) =~~= seq![seq!['t']]);
    let v2 = v1.push(' ');
    lemma_words_push(v1, ' ');
    assert(words(v2) =~~= seq![seq!['t']]);
    let v3 = v2.push('u');
    lemma_words_push(v2, 'u');
    assert(words(v3) =~~= seq![seq!['t'], seq!['u']]);
    assert(v3 =~= "t u"@);
    assert(words(v3) =~~= seq![seq!['t'], seq!['u']]);
    reveal_strlit("t");
    assert("t"@ =~= seq!['t']);
    lemma_first_phoneme_found(english_phonemes(), 17, seq!['t']);
    reveal_strlit("u");
    assert("u"@ =~= seq!['u']);
    lemma_first_phoneme_found(english_phonemes(), 9, seq!['u']);
}

proof fn lemma_known_en_77()
    ensures
        all_known(english_phonemes(), words("@ v"@)),
{
    reveal_strlit("@ v");
    let v0 = Seq::<char>::empty();
    assert(words(v0) =~= Seq::<Seq<char>>::empty());
    let v1 = v0.push('@');
    lemma_words_push(v0, '@');
    assert(words(v1) =~~= seq![seq!['@']]);
    let v2 = v1.push(' ');
    lemma_words_push(v1, ' ');
    assert(words(v2) =~~= seq![seq!['@']]);
    let v3 = v2.push('v');
    lemma_words_push(v2, 'v');
    assert(words(v3) =~~= seq![seq!['@'], seq!['v']]);
    assert(v3 =~= "@ v"@);
    assert(words(v3) =~~= seq![seq!['@'], seq!['v']]);
    reveal_strlit("@");
    assert("@"@ =~= seq!['@']);
    lemma_first_phoneme_found(english_phonemes(), 10, seq!['@']);
    reveal_strlit("v");
    assert("v"@ =~= seq!['v']);
    lemma_first_phoneme_found(english_phonemes(), 22, seq!['v']);
}

proof fn lemma_known_en_78()
    ensures
        all_known(english_phonemes(), words("f O r"@)),
{
    reveal_strlit("f O r");
    let v0 = Seq::<char>::empty();
    assert(words(v0) =~= Seq::<Seq<char>>::empty());
    let v1 = v0.push('f');
    lemma_words_push(v0, 'f');
    assert(words(v1) =~~= seq![seq!['f']]);
    let v2 = v1.push(' ');
    lemma_words_push(v1, ' ');
    assert(words(v2) =~~= seq![seq!['f']]);
    let v3 = v2.push('O');
    lemma_words_push(v2, 'O');
    assert(words(v3) =~~= seq![seq!['f'], seq!['O']]);
    let v4 = v3.push(' ');
    lemma_words_push(v3, ' ');
    assert(words(v4) =~~= seq![seq!['f'], seq!['O']]);
    let v5 = v4.push('r');
    lemma_words_push(v4, 'r');
    assert(words(v5) =~~= seq![seq!['f'], seq!['O'], seq!['r']]);
    assert(v5 =~= "f O r"@);
    assert(words(v5) =~~= seq![seq!['f'], seq!['O'], seq!['r']]);
    reveal_strlit("f");
    assert("f"@ =~= seq!['f']);
    lemma_first_phoneme_found(english_phonemes(), 21, seq!['f']);
    reveal_strlit("O");
    assert("O"@ =~= seq!['O']);
    lemma_first_phoneme_found(english_phonemes(), 6, seq!['O']);
    reveal_strlit("r");
    assert("r"@ =~= seq!['r']);
    lemma_first_phoneme_found(english_phonemes(), 36, seq!['r']);
}

proof fn lemma_known_en_79()
    ensures
        all_known(english_phonemes(), words("w I T"@)),
{
    reveal_strlit("w I T");
    let v0 = Seq::<char>::empty();
    assert(words(v0) =~= Seq::<Seq<char>>::empty());
    let v1 = v0.push('w');
    lemma_words_push(v0, 'w');
    assert(words(v1) =~~= seq![seq!['w']]);
    let v2 = v1.push(' ');
    lemma_words_push(v1, ' ');
    assert(words(v2) =~~= seq![seq!['w']]);
    let v3 = v2.push('I');
    lemma_words_push(v2, 'I');
    assert(words(v3) =~~= seq![seq!['w'], seq!['I']]);
    let v4 = v3.push(' ');
    lemma_words_push(v3, ' ');
    assert(words(v4) =~~= seq![seq!['w'], seq!['I']]);
    let v5 = v4.push('T');
    lemma_words_push(v4, 'T');
    assert(words(v5) =~~= seq![seq!['w'], seq!['I'], seq!['T']]);
    assert(v5 =~= "w I T"@);
    assert(words(v5) =~~= seq![seq!['w'], seq!['I'], seq!['T']]);
    reveal_strlit("w");
    assert("w"@ =~= seq!['w']);
    lemma_first_phoneme_found(english_phonemes(), 37, seq!['w']);
    reveal_strlit("I");
    assert("I"@ =~= seq!['I']);
    lemma_first_phoneme_found(english_phonemes(), 1, seq!['I']);
    reveal_strlit("T");
    assert("T"@ =~= seq!['T']);
    lemma_first_phoneme_found(english_phonemes(), 23, seq!['T']);
}

proof fn lemma_known_en_80()
    ensures
        all_known(english_phonemes(), words("j u"@)),
{
    reveal_strlit("j u");
    let v0 = Seq::<char>::empty();
    assert(words(v0) =~= Seq::<Seq<char>>::empty());
    let v1 = v0.push('j');
    lemma_words_push(v0, 'j');
    assert(words(v1) =~~= seq![seq!['j']]);
    let v2 = v1.push(' ');
    lemma_words_push(v1, ' ');
    assert(words(v2) =~~= seq![seq!['j']]);
    let v3 = v2.push('u');
    lemma_words_push(v2, 'u');
    assert(words(v3) =~~= seq![seq!['j'], seq!['u']]);
    assert(v3 =~= "j u"@);
    assert(words(v3) =~~= seq![seq!['j'], seq!['u']]);
    reveal_strlit("j");
    assert("j"@ =~= seq!['j']);
    lemma_first_phoneme_found(english_phonemes(), 38, seq!['j']);
    reveal_strlit("u");
    assert("u"@ =~= seq!['u']);
    lemma_first_phoneme_found(english_phonemes(), 9, seq!['u']);
}

proof fn lemma_known_en_81()
    ensures
        all_known(english_phonemes(), words("D I s"@)),
{
    reveal_strlit("D I s");
    let v0 = Seq::<char>::empty();
    assert(words(v0) =~= Seq::<Seq<char>>::empty());
    let v1 = v0.push('D');
    lemma_words_push(v0, 'D');
    assert(words(v1) =~~= seq![seq!['D']]);
    let v2 = v1.push(' ');
    lemma_words_push(v1, ' ');
    assert(words(v2) =~~= seq![seq!['D']]);
    let v3 = v2.push('I');
    lemma_words_push(v2, 'I');
    assert(words(v3) =~~= seq![seq!['D'], seq!['I']]);
    let v4 = v3.push(' ');
    lemma_words_push(v3, ' ');
    assert(words(v4) =~~= seq![seq!['D'], seq!['I']]);
    let v5 = v4.push('s');
    lemma_words_push(v4, 's');
    assert(words(v5) =~~= seq![seq!['D'], seq!['I'], seq!['s']]);
    assert(v5 =~= "D I s"@);
    assert(words(v5) =~~= seq![seq!['D'], seq!['I'], seq!['s']]);
    reveal_strlit("D");
    assert("D"@ =~= seq!['D']);
    lemma_first_phoneme_found(english_phonemes(), 24, seq!['D']);
    reveal_strlit("I");
    assert("I"@ =~= seq!['I']);
    lemma_first_phoneme_found(english_phonemes(), 1, seq!['I']);
    reveal_strlit("s");
    assert("s"@ =~= seq!['s']);
    lemma_first_phoneme_found(english_phonemes(), 25, seq!['s']);
}

proof fn lemma_known_en_82()
    ensures
        all_known(english_phonemes(), words("D & t"@)),
{
    reveal_strlit("D & t");
    let v0 = Seq::<char>::empty();
    assert(words(v0) =~= Seq::<Seq<char>>::empty());
    let v1 = v0.push('D');
    lemma_words_push(v0, 'D');
    assert(words(v1) =~~= seq![seq!['D']]);
    let v2 = v1.push(' ');
    lemma_words_push(v1, ' ');
    assert(words(v2) =~~= seq![seq!['D']]);
    let v3 = v2.push('&');
    lemma_words_push(v2, '&');
    assert(words(v3) =~~= seq![seq!['D'], seq!['&']]);
    let v4 = v3.push(' ');
    lemma_words_push(v3, ' ');
    assert(words(v4) =~~= seq![seq!['D'], seq!['&']]);
    let v5 = v4.push('t');
    lemma_words_push(v4, 't');
    assert(words(v5) =~~= seq![seq!['D'], seq!['&'], seq!['t']]);
    assert(v5 =~= "D & t"@);
    assert(words(v5) =~~= seq![seq!['D'], seq!['&'], seq!['t']]);
    reveal_strlit("D");
    assert("D"@ =~= seq!['D']);
    lemma_first_phoneme_found(english_phonemes(), 24, seq!['D']);
    reveal_strlit("&");
    assert("&"@ =~= seq!['&']);
    lemma_first_phoneme_found(english_phonemes(), 4, seq!['&']);
    reveal_strlit("t");
    assert("t"@ =~= seq!['t']);
    lemma_first_phoneme_found(english_phonemes(), 17, seq!['t']);
}

proof fn lemma_known_en_83()
    ensures
        all_known(english_phonemes(), words("w @ n"@)),
{
    reveal_strlit("w @ n");
    let v0 = Seq::<char>::empty();
    assert(words(v0) =~= Seq::<Seq<char>>::empty());
    let v1 = v0.push('w');
    lemma_words_push(v0, 'w');
    assert(words(v1) =~~= seq![seq!['w']]);
    let v2 = v1.push(' ');
    lemma_words_push(v1, ' ');
    assert(words(v2) =~~= seq![seq!['w']]);
    let v3 = v2.push('@');
    lemma_words_push(v2, '@');
    assert(words(v3) =~~= seq![seq!['w'], seq!['@']]);
    let v4 = v3.push(' ');
    lemma_words_push(v3, ' ');
    assert(words(v4) =~~= seq![seq!['w'], seq!['@']]);
    let v5 = v4.push('n');
    lemma_words_push(v4, 'n');
    assert(words(v5) =~~= seq![seq!['w'], seq!['@'], seq!['n']]);
    assert(v5 =~= "w @ n"@);
    assert(words(v5) =~~= seq![seq!['w'], seq!['@'], seq!['n']]);
    reveal_strlit("w");
    assert("w"@ =~= seq!['w']);
    lemma_first_phoneme_found(english_phonemes(), 37, seq!['w']);
    reveal_strlit("@");
    assert("@"@ =~= seq!['@']);
    lemma_first_phoneme_found(english_phonemes(), 10, seq!['@']);
    reveal_strlit("n");
    assert("n"@ =~= seq!['n']);
    lemma_first_phoneme_found(english_phonemes(), 33, seq!['n']);
}

proof fn lemma_known_en_84()
    ensures
        all_known(english_phonemes(), words("h E l o"@)),
{
    reveal_strlit("h E l o");
    let v0 = Seq::<char>::empty();
    assert(words(v0) =~= Seq::<Seq<char>>::empty());
    let v1 = v0.push('h');
    lemma_words_push(v0, 'h');
    assert(words(v1) =~~= seq![seq!['h']]);
    let v2 = v1.push(' ');
    lemma_words_push(v1, ' ');
    assert(words(v2) =~~= seq![seq!['h']]);
    let v3 = v2.push('E');
    lemma_words_push(v2, 'E');
    assert(words(v3) =~~= seq![seq!['h'], seq!['E']]);
    let v4 = v3.push(' ');
    lemma_words_push(v3, ' ');
    assert(words(v4) =~~= seq![seq!['h'], seq!['E']]);
    let v5 = v4.push('l');
    lemma_words_push(v4, 'l');
    assert(words(v5) =~~= seq![seq!['h'], seq!['E'], seq!['l']]);
    let v6 = v5.push(' ');
    lemma_words_push(v5, ' ');
    assert(words(v6) =~~= seq![seq!['h'], seq!['E'], seq!['l']]);
    let v7 = v6.push('o');
    lemma_words_push(v6, 'o');
    assert(words(v7) =~~= seq![seq!['h'], seq!['E'], seq!['l'], seq!['o']]);
    assert(v7 =~= "h E l o"@);
    assert(words(v7) =~~= seq![seq!['h'], seq!['E'], seq!['l'], seq!['o']]);
    reveal_strlit("h");
    assert("h"@ =~= seq!['h']);
    lemma_first_phoneme_found(english_phonemes(), 29, seq!['h']);
    reveal_strlit("E");
    assert("E"@ =~= seq!['E']);
    lemma_first_phoneme_found(english_phonemes(), 3, seq!['E']);
    reveal_strlit("l");
    assert("l"@ =~= seq!['l']);
    lemma_first_phoneme_found(english_phonemes(), 35, seq!['l']);
    reveal_strlit("o");
    assert("o"@ =~= seq!['o']);
    lemma_first_phoneme_found(english_phonemes(), 7, seq!['o']);
}

proof fn lemma_known_en_85()
    ensures
        all_known(english_phonemes(), words("w 3 r l d"@)),
{
    reveal_strlit("w 3 r l d");
    let v0 = Seq::<char>::empty();
    assert(words(v0) =~= Seq::<Seq<char>>::empty());
    let v1 = v0.push('w');
    lemma_words_push(v0, 'w');
    assert(words(v1) =~~= seq![seq!['w']]);
    let v2 = v1.push(' ');
    lemma_words_push(v1, ' ');
    assert(words(v2) =~~= seq![seq!['w']]);
    let v3 = v2.push('3');
    lemma_words_push(v2, '3');
    assert(words(v3) =~~= seq![seq!['w'], seq!['3']]);
    let v4 = v3.push(' ');
    lemma_words_push(v3, ' ');
    assert(words(v4) =~~= seq![seq!['w'], seq!['3']]);
    let v5 = v4.push('r');
    lemma_words_push(v4, 'r');
    assert(words(v5) =~~= seq![seq!['w'], seq!['3'], seq!['r']]);
    let v6 = v5.push(' ');
    lemma_words_push(v5, ' ');
    assert(words(v6) =~~= seq![seq!['w'], seq!['3'], seq!['r']]);
    let v7 = v6.push('l');
    lemma_words_push(v6, 'l');
    assert(words(v7) =~~= seq![seq!['w'], seq!['3'], seq!['r'], seq!['l']]);
    let v8 = v7.push(' ');
    lemma_words_push(v7, ' ');
    assert(words(v8) =~~= seq![seq!['w'], seq!['3'], seq!['r'], seq!['l']]);
    let v9 = v8.push('d');
    lemma_words_push(v8, 'd');
    assert(words(v9) =~~= seq![seq!['w'], seq!['3'], seq!['r'], seq!['l'], seq!['d']]);
    assert(v9 =~= "w 3 r l d"@);
    assert(words(v9) =~~= seq![seq!['w'], seq!['3'], seq!['r'], seq!['l'], seq!['d']]);
    reveal_strlit("w");
    assert("w"@ =~= seq!['w']);
    lemma_first_phoneme_found(english_phonemes(), 37, seq!['w']);
    reveal_strlit("3");
    assert("3"@ =~= seq!['3']);
    lemma_first_phoneme_found(english_phonemes(), 11, seq!['3']);
    reveal_strlit("r");
    assert("r"@ =~= seq!['r']);
    lemma_first_phoneme_found(english_phonemes(), 36, seq!['r']);
    reveal_strlit("l");
    assert("l"@ =~= seq!['l']);
    lemma_first_phoneme_found(english_phonemes(), 35, seq!['l']);
    reveal_strlit("d");
    assert("d"@ =~= seq!['d']);
    lemma_first_phoneme_found(english_phonemes(), 18, seq!['d']);
}

proof fn lemma_english_lexicon_known()
    ensures
        forall|j: int| 0 <= j < english_lexicon_rows().len() ==> all_known(english_phonemes(), words(#[trigger] english_lexicon_rows()[j].1@)),
{
    assert forall|j: int| 0 <= j < english_lexicon_rows().len() implies all_known(english_phonemes(), words(#[trigger] english_lexicon_rows()[j].1@)) by {
        if j == 0 {
            lemma_known_en_65();
        }
        if j == 1 {
            lemma_known_en_10();
        }
        if j == 2 {
            lemma_known_en_66();
        }
        if j == 3 {
            lemma_known_en_67();
        }
        if j == 4 {
            lemma_known_en_68();
        }
        if j == 5 {
            lemma_known_en_69();
        }
        if j == 6 {
            lemma_known_en_70();
        }
        if j == 7 {
            lemma_known_en_71();
        }
        if j == 8 {
            lemma_known_en_72();
        }
        if j == 9 {
            lemma_known_en_73();
        }
        if j == 10 {
            lemma_known_en_74();
        }
        if j == 11 {
            lemma_known_en_75();
        }
        if j == 12 {
            lemma_known_en_76();
        }
        if j == 13 {
            lemma_known_en_77();
        }
        if j == 14 {
            lemma_known_en_78();
        }
        if j == 15 {
            lemma_known_en_79();
        }
        if j == 16 {
            lemma_known_en_80();
        }
        if j == 17 {
            lemma_known_en_81();
        }
        if j == 18 {
            lemma_known_en_82();
        }
        if j == 19 {
            lemma_known_en_83();
        }
        if j == 20 {
            lemma_known_en_76();
        }
        if j == 21 {
            lemma_known_en_84();
        }
        if j == 22 {
            lemma_known_en_85();
        }
    }
}


proof fn lemma_table_known(rows: Seq<RuleRow>, ps: Seq<Phoneme>)
    requires
        forall|j: int| 0 <= j < rows.len() ==> all_known(ps, words(#[trigger] rows[j].3@)),
    ensures
        forall|b: int, i: int|
            0 <= b < table_of_rows(rows).len() && 0 <= i < table_of_rows(rows)[b].rules.len()
                ==> all_known(ps, words(#[trigger] table_of_rows(rows)[b].rules[i].phonemes)),
    decreases rows.len(),
{
    if rows.len() > 0 {
        let init = rows.drop_last();
        assert forall|j: int| 0 <= j < init.len() implies all_known(ps, words(#[trigger] init[j].3@)) by {
            assert(init[j] == rows[j]);
        }
        lemma_table_known(init, ps);
        let t0 = table_of_rows(init);
        let r = row_entry(rows.last());
        assert(all_known(ps, words(rows[rows.len() - 1].3@)));
        assert(r.phonemes == rows.last().3@);
        let key = bucket_key(r.pattern);
        let b0 = lemma_first_index(t0, key);
        lemma_add_to_table_at(t0, r, b0);
        let t = table_of_rows(rows);
        if b0 < t0.len() {
            let olds = t0[b0].rules;
            let k = lemma_rank_index(olds, r);
            lemma_insert_ranked_at(olds, r, k);
            let nr = olds.insert(k, r);
            assert forall|b: int, i: int| 0 <= b < t.len() && 0 <= i < t[b].rules.len()
                implies all_known(ps, words(#[trigger] t[b].rules[i].phonemes)) by {
                if b != b0 {
                    assert(t[b] == t0[b]);
                } else {
                    assert(t[b].rules == nr);
                    if i < k {
                        assert(nr[i] == olds[i]);
                    } else if i > k {
                        assert(nr[i] == olds[i - 1]);
                    }
                }
            }
        } else {
            assert forall|b: int, i: int| 0 <= b < t.len() && 0 <= i < t[b].rules.len()
                implies all_known(ps, words(#[trigger] t[b].rules[i].phonemes)) by {
                if b < t0.len() {
                    assert(t[b] == t0[b]);
                } else {
                    assert(t[b].rules == seq![r]);
                }
            }
        }
    }
}

/// The rules and lexicon of each language emit only the pause `_` and
/// symbols of that language's inventory.
pub proof fn lemma_language_tables_known(l: Language)
    ensures
        tables_known(rules_of_language(l), lexicon_of_language(l), phonemes_of_language(l)),
{
    match l {
        Language::English => {
            lemma_english_rows_known();
            lemma_table_known(english_rule_rows(), english_phonemes());
            lemma_english_lexicon_known();
            let lex = lexicon_of_rows(english_lexicon_rows());
            assert forall|j: int| 0 <= j < lex.len() implies all_known(english_phonemes(), words(#[trigger] lex[j].1)) by {
                assert(lex[j].1 == english_lexicon_rows()[j].1@);
            }
        },
        Language::Spanish => {
            lemma_spanish_rows_known();
            lemma_table_known(spanish_rule_rows(), spanish_phonemes());
        },
    }
}

/// For every text and language, every token of the ASCII phoneme string is
/// the pause `_` or a symbol of that language's inventory.
pub proof fn lemma_phonemes_in_inventory(l: Language, text: Seq<char>)
    ensures
        all_known(phonemes_of_language(l), words(ascii_phonemes(l, text))),
{
    lemma_language_tables_known(l);
    lemma_output_symbols_known(rules_of_language(l), lexicon_of_language(l), phonemes_of_language(l), text);
}

} // verus!
