//! Character-level helpers shared by the text front ends.
use vstd::prelude::*;

verus! {

/// Whether a character has the Unicode `White_Space` property: tab to
/// carriage return, space, next line, no-break space, ogham space mark, the
/// spaces from en quad to hair space, line and paragraph separators, narrow
/// no-break space, medium mathematical space and ideographic space.
pub open spec fn white_space(c: char) -> bool {
    ('\t' <= c && c <= '\r') || c == ' ' || c == '\u{85}' || c == '\u{a0}' || c == '\u{1680}' || (
    '\u{2000}' <= c && c <= '\u{200a}') || c == '\u{2028}' || c == '\u{2029}' || c == '\u{202f}'
        || c == '\u{205f}' || c == '\u{3000}'
}

/// What `char::is_alphabetic` answers for a character (Unicode `Alphabetic`).
pub uninterp spec fn alphabetic(c: char) -> bool;

/// What `char::is_alphanumeric` answers for a character.
pub uninterp spec fn alphanumeric(c: char) -> bool;

/// What `char::is_uppercase` answers for a character (Unicode `Uppercase`).
pub uninterp spec fn uppercase(c: char) -> bool;

/// What `str::to_lowercase` returns for a string.
pub uninterp spec fn lower_of(s: Seq<char>) -> Seq<char>;

/// Whether a character is white space, as `char::is_whitespace` answers.
pub fn is_space(c: char) -> (r: bool)
    ensures
        r == white_space(c),
{
    ('\t' <= c && c <= '\r') || c == ' ' || c == '\u{85}' || c == '\u{a0}' || c == '\u{1680}' || (
    '\u{2000}' <= c && c <= '\u{200a}') || c == '\u{2028}' || c == '\u{2029}' || c == '\u{202f}'
        || c == '\u{205f}' || c == '\u{3000}'
}

/// Relies on `char::is_alphabetic`: whether the character has the Unicode
/// `Alphabetic` property.
#[verifier::external_body]
pub fn is_alpha(c: char) -> (r: bool)
    ensures
        r == alphabetic(c),
{
    c.is_alphabetic()
}

/// Relies on `char::is_alphanumeric`: whether the character is `Alphabetic`
/// or `Numeric`.
#[verifier::external_body]
pub fn is_alnum(c: char) -> (r: bool)
    ensures
        r == alphanumeric(c),
{
    c.is_alphanumeric()
}

/// Relies on `char::is_uppercase`: whether the character has the Unicode
/// `Uppercase` property.
#[verifier::external_body]
pub fn is_upper(c: char) -> (r: bool)
    ensures
        r == uppercase(c),
{
    c.is_uppercase()
}

/// Relies on `str::to_lowercase`: the lowercase mapping of every character,
/// which depends on the characters alone.
#[verifier::external_body]
pub fn lowercase(s: &str) -> (r: String)
    ensures
        r@ == lower_of(s@),
{
    s.to_lowercase()
}

/// Relies on `String::push`: appends one character.
#[verifier::external_body]
pub fn push_char(s: &mut String, c: char)
    ensures
        final(s)@ == old(s)@.push(c),
{
    s.push(c)
}

/// The characters of a string slice, in order.
pub fn chars_of(s: &str) -> (r: Vec<char>)
    ensures
        r@ == s@,
{
    let n = s.unicode_len();
    let mut v: Vec<char> = Vec::new();
    let mut i: usize = 0;
    while i < n
        invariant
            n == s@.len(),
            i <= n,
            v@ == s@.subrange(0, i as int),
        decreases n - i,
    {
        v.push(s.get_char(i));
        i += 1;
        assert(v@ =~= s@.subrange(0, i as int));
    }
    assert(v@ =~= s@);
    v
}

/// A copy of `v[from..to]`.
pub fn copy_range(v: &Vec<char>, from: usize, to: usize) -> (r: Vec<char>)
    requires
        from <= to <= v.len(),
    ensures
        r@ == v@.subrange(from as int, to as int),
{
    let mut r: Vec<char> = Vec::new();
    let mut i: usize = from;
    while i < to
        invariant
            from <= i <= to <= v.len(),
            r@ == v@.subrange(from as int, i as int),
        decreases to - i,
    {
        r.push(v[i]);
        i += 1;
        assert(r@ =~= v@.subrange(from as int, i as int));
    }
    r
}

/// A string holding the characters of `v[from..to]`.
pub fn string_of(v: &Vec<char>, from: usize, to: usize) -> (r: String)
    requires
        from <= to <= v.len(),
    ensures
        r@ == v@.subrange(from as int, to as int),
{
    let mut s = String::new();
    let mut i: usize = from;
    while i < to
        invariant
            from <= i <= to <= v.len(),
            s@ == v@.subrange(from as int, i as int),
        decreases to - i,
    {
        push_char(&mut s, v[i]);
        i += 1;
        assert(s@ =~= v@.subrange(from as int, i as int));
    }
    s
}

/// Appends the characters of `t` to `s`.
pub fn push_seq(s: &mut String, t: &Vec<char>)
    ensures
        final(s)@ == old(s)@ + t@,
{
    let mut i: usize = 0;
    while i < t.len()
        invariant
            i <= t.len(),
            s@ == old(s)@ + t@.subrange(0, i as int),
        decreases t.len() - i,
    {
        push_char(s, t[i]);
        i += 1;
        assert(s@ =~= old(s)@ + t@.subrange(0, i as int));
    }
    assert(t@.subrange(0, t.len() as int) =~= t@);
}

/// Whether two string slices hold the same characters.
pub fn str_eq(a: &str, b: &str) -> (r: bool)
    ensures
        r == (a@ == b@),
{
    let n = a.unicode_len();
    let m = b.unicode_len();
    if n != m {
        return false;
    }
    let mut i: usize = 0;
    while i < n
        invariant
            n == a@.len(),
            m == b@.len(),
            n == m,
            i <= n,
            a@.subrange(0, i as int) == b@.subrange(0, i as int),
        decreases n - i,
    {
        if a.get_char(i) != b.get_char(i) {
            assert(a@[i as int] != b@[i as int]);
            return false;
        }
        assert(a@.subrange(0, i + 1) =~= a@.subrange(0, i as int).push(a@[i as int]));
        assert(b@.subrange(0, i + 1) =~= b@.subrange(0, i as int).push(b@[i as int]));
        i += 1;
    }
    assert(a@ =~= a@.subrange(0, n as int));
    assert(b@ =~= b@.subrange(0, n as int));
    true
}

/// Whether `v[at..]` begins with the characters of `p`.
pub open spec fn has_at(v: Seq<char>, at: int, p: Seq<char>) -> bool {
    0 <= at && at + p.len() <= v.len() && v.subrange(at, at + p.len()) == p
}

/// Whether `v[at..]` begins with the characters of `p`.
pub fn matches_at(v: &Vec<char>, at: usize, p: &Vec<char>) -> (r: bool)
    ensures
        r == has_at(v@, at as int, p@),
{
    if at > v.len() || p.len() > v.len() - at {
        return false;
    }
    let mut i: usize = 0;
    while i < p.len()
        invariant
            at + p.len() <= v.len(),
            i <= p.len(),
            v@.subrange(at as int, at + i) == p@.subrange(0, i as int),
        decreases p.len() - i,
    {
        if v[at + i] != p[i] {
            assert(v@.subrange(at as int, at + p.len())[i as int] != p@[i as int]);
            return false;
        }
        assert(v@.subrange(at as int, at + i + 1) =~= v@.subrange(at as int, at + i).push(v@[at + i]));
        assert(p@.subrange(0, i + 1) =~= p@.subrange(0, i as int).push(p@[i as int]));
        i += 1;
    }
    assert(p@.subrange(0, p.len() as int) =~= p@);
    true
}

/// The first index at or after `from` that is not white space, or `len`.
pub open spec fn skip_space_from(v: Seq<char>, from: int) -> int
    decreases v.len() - from,
{
    if from < 0 || from >= v.len() {
        if from < 0 { 0 } else { v.len() as int }
    } else if white_space(v[from]) {
        skip_space_from(v, from + 1)
    } else {
        from
    }
}

/// The number of characters left after dropping white space at the end.
pub open spec fn trim_end_len(v: Seq<char>, to: int) -> int
    decreases to,
{
    if to <= 0 {
        0
    } else if white_space(v[to - 1]) {
        trim_end_len(v, to - 1)
    } else {
        to
    }
}

/// `v` without leading and trailing white space, as `str::trim` gives it.
pub open spec fn trimmed(v: Seq<char>) -> Seq<char> {
    let e = trim_end_len(v, v.len() as int);
    let b = skip_space_from(v, 0);
    if b >= e { Seq::empty() } else { v.subrange(b, e) }
}

proof fn lemma_skip_bounds(v: Seq<char>, from: int)
    requires
        0 <= from <= v.len(),
    ensures
        from <= skip_space_from(v, from) <= v.len(),
        forall|k: int| from <= k < skip_space_from(v, from) ==> white_space(#[trigger] v[k]),
        skip_space_from(v, from) < v.len() ==> !white_space(v[skip_space_from(v, from)]),
    decreases v.len() - from,
{
    if from < v.len() && white_space(v[from]) {
        lemma_skip_bounds(v, from + 1);
    }
}

proof fn lemma_trim_end_bounds(v: Seq<char>, to: int)
    requires
        0 <= to <= v.len(),
    ensures
        0 <= trim_end_len(v, to) <= to,
        forall|k: int| trim_end_len(v, to) <= k < to ==> white_space(#[trigger] v[k]),
        trim_end_len(v, to) > 0 ==> !white_space(v[trim_end_len(v, to) - 1]),
    decreases to,
{
    if to > 0 && white_space(v[to - 1]) {
        lemma_trim_end_bounds(v, to - 1);
    }
}

/// Where what `trimmed` keeps begins in `v`.
pub open spec fn trim_start(v: Seq<char>) -> int {
    if skip_space_from(v, 0) >= trim_end_len(v, v.len() as int) {
        0
    } else {
        skip_space_from(v, 0)
    }
}

/// What `trimmed` keeps is a slice of `v`.
pub proof fn lemma_trimmed_is_slice(v: Seq<char>)
    ensures
        0 <= trim_start(v),
        trim_start(v) + trimmed(v).len() <= v.len(),
        v.subrange(trim_start(v), trim_start(v) + trimmed(v).len()) == trimmed(v),
{
    lemma_skip_bounds(v, 0);
    lemma_trim_end_bounds(v, v.len() as int);
    assert(v.subrange(trim_start(v), trim_start(v) + trimmed(v).len()) =~= trimmed(v));
}

/// The bounds `(b, e)` of `v` without surrounding white space.
pub fn trim_bounds(v: &Vec<char>) -> (r: (usize, usize))
    ensures
        r.0 <= r.1 <= v.len(),
        v@.subrange(r.0 as int, r.1 as int) == trimmed(v@),
{
    let mut b: usize = 0;
    while b < v.len() && is_space(v[b])
        invariant
            b <= v.len(),
            skip_space_from(v@, b as int) == skip_space_from(v@, 0),
        decreases v.len() - b,
    {
        b += 1;
    }
    let mut e: usize = v.len();
    while e > 0 && is_space(v[e - 1])
        invariant
            e <= v.len(),
            trim_end_len(v@, e as int) == trim_end_len(v@, v.len() as int),
        decreases e,
    {
        e -= 1;
    }
    proof {
        lemma_skip_bounds(v@, 0);
        lemma_trim_end_bounds(v@, v.len() as int);
    }
    if b >= e {
        (0, 0)
    } else {
        (b, e)
    }
}

/// The views of a sequence of character vectors.
pub open spec fn seqs_of(r: Seq<Vec<char>>) -> Seq<Seq<char>> {
    Seq::new(r.len(), |i: int| r[i]@)
}

/// The white-space separated words of `v`, as `str::split_whitespace`
/// gives them.
pub open spec fn words(v: Seq<char>) -> Seq<Seq<char>>
    decreases v.len(),
{
    if v.len() == 0 {
        Seq::empty()
    } else {
        let init = words(v.drop_last());
        let c = v.last();
        if white_space(c) {
            init
        } else if v.len() >= 2 && !white_space(v[v.len() - 2]) {
            init.update(init.len() - 1, init.last().push(c))
        } else {
            init.push(seq![c])
        }
    }
}

/// The parts laid end to end with `sep` between each two.
pub open spec fn join(parts: Seq<Seq<char>>, sep: Seq<char>) -> Seq<char>
    decreases parts.len(),
{
    if parts.len() == 0 {
        Seq::empty()
    } else if parts.len() == 1 {
        parts[0]
    } else {
        join(parts.drop_last(), sep) + sep + parts.last()
    }
}

proof fn lemma_words_nonempty(v: Seq<char>)
    requires
        v.len() > 0,
        !white_space(v.last()),
    ensures
        words(v).len() > 0,
    decreases v.len(),
{
    let init = words(v.drop_last());
    if v.len() >= 2 && !white_space(v[v.len() - 2]) {
        lemma_words_nonempty(v.drop_last());
    }
}

/// Splitting into words splits at white space: where `a` ends or `b`
/// begins with white space, the words of `a + b` are those of `a` followed
/// by those of `b`.
pub proof fn lemma_words_append(a: Seq<char>, b: Seq<char>)
    requires
        a.len() == 0 || b.len() == 0 || white_space(a.last()) || white_space(b[0]),
    ensures
        words(a + b) == words(a) + words(b),
    decreases b.len(),
{
    if b.len() == 0 {
        assert(a + b =~= a);
        assert(words(a) + words(b) =~= words(a));
    } else {
        let bp = b.drop_last();
        let c = b.last();
        assert((a + b).drop_last() =~= a + bp);
        assert((a + b).last() == c);
        lemma_words_append(a, bp);
        let v = a + b;
        if white_space(c) {
        } else if bp.len() > 0 {
            assert(v[v.len() - 2] == bp.last());
            assert(b[b.len() - 2] == bp.last());
            if !white_space(bp.last()) {
                lemma_words_nonempty(bp);
                assert(words(a) + words(b) =~= (words(a) + words(bp)).update(
                    words(a).len() + words(bp).len() - 1,
                    words(bp).last().push(c),
                ));
            } else {
                assert(words(a) + words(b) =~= (words(a) + words(bp)).push(seq![c]));
            }
        } else {
            assert(a + bp =~= a);
            if a.len() > 0 {
                assert(v[v.len() - 2] == a.last());
            }
            assert(words(b) =~= seq![seq![c]]);
            assert(words(a) + words(b) =~= words(a).push(seq![c]));
        }
    }
}

/// Splits `v[from..to]` into its white-space separated words.
pub fn split_words(v: &Vec<char>, from: usize, to: usize) -> (r: Vec<Vec<char>>)
    requires
        from <= to <= v.len(),
    ensures
        seqs_of(r@) == words(v@.subrange(from as int, to as int)),
{
    let mut ws: Vec<Vec<char>> = Vec::new();
    let mut i: usize = from;
    proof {
        assert(v@.subrange(from as int, from as int).len() == 0);
        assert(seqs_of(ws@) =~= words(v@.subrange(from as int, from as int)));
    }
    while i < to
        invariant
            from <= i <= to <= v.len(),
            seqs_of(ws@) == words(v@.subrange(from as int, i as int)),
        decreases to - i,
    {
        let c = v[i];
        let ghost pre = v@.subrange(from as int, i as int);
        let ghost cur = v@.subrange(from as int, i + 1);
        proof {
            assert(cur.drop_last() =~= pre);
            assert(cur.last() == c);
        }
        if is_space(c) {
        } else if i > from && !is_space(v[i - 1]) {
            proof {
                assert(pre.last() == v@[i - 1]);
                lemma_words_nonempty(pre);
                assert(cur[cur.len() - 2] == v@[i - 1]);
            }
            let mut w = ws.pop().unwrap();
            w.push(c);
            ws.push(w);
            proof {
                assert(seqs_of(ws@) =~= words(pre).update(words(pre).len() - 1, words(pre).last().push(c)));
            }
        } else {
            let mut w: Vec<char> = Vec::new();
            w.push(c);
            ws.push(w);
            proof {
                if cur.len() >= 2 {
                    assert(cur[cur.len() - 2] == v@[i - 1]);
                }
                assert(w@ =~= seq![c]);
                assert(seqs_of(ws@) =~= words(pre).push(seq![c]));
            }
        }
        i += 1;
    }
    ws
}

/// Appends the characters of `t` to `s`.
pub fn extend_chars(s: &mut Vec<char>, t: &Vec<char>)
    ensures
        final(s)@ == old(s)@ + t@,
{
    let mut i: usize = 0;
    while i < t.len()
        invariant
            i <= t.len(),
            s@ == old(s)@ + t@.subrange(0, i as int),
        decreases t.len() - i,
    {
        s.push(t[i]);
        i += 1;
        assert(s@ =~= old(s)@ + t@.subrange(0, i as int));
    }
    assert(t@.subrange(0, t.len() as int) =~= t@);
}

/// The parts laid end to end with `sep` between each two.
pub fn join_with(parts: &Vec<Vec<char>>, sep: &Vec<char>) -> (r: Vec<char>)
    ensures
        r@ == join(seqs_of(parts@), sep@),
{
    let mut out: Vec<char> = Vec::new();
    let mut i: usize = 0;
    while i < parts.len()
        invariant
            i <= parts.len(),
            out@ == join(seqs_of(parts@).subrange(0, i as int), sep@),
        decreases parts.len() - i,
    {
        let ghost pre = seqs_of(parts@).subrange(0, i as int);
        let ghost cur = seqs_of(parts@).subrange(0, i + 1);
        proof {
            assert(cur.drop_last() =~= pre);
        }
        if i > 0 {
            extend_chars(&mut out, sep);
        }
        extend_chars(&mut out, &parts[i]);
        proof {
            if i == 0 {
                assert(out@ =~= cur[0]);
            } else {
                assert(out@ =~= join(pre, sep@) + sep@ + cur.last());
            }
        }
        i += 1;
    }
    assert(seqs_of(parts@).subrange(0, parts.len() as int) =~= seqs_of(parts@));
    out
}

/// Whether two character vectors are equal.
pub fn same_chars(a: &Vec<char>, b: &Vec<char>) -> (r: bool)
    ensures
        r == (a@ == b@),
{
    if a.len() != b.len() {
        return false;
    }
    let r = matches_at(a, 0, b);
    assert(a@.subrange(0, b.len() as int) =~= a@);
    r
}

} // verus!
