//! Character classes and small string utilities shared by the text logic.
use vstd::prelude::*;

verus! {

/// ASCII decimal digit.
pub open spec fn spec_is_digit(c: char) -> bool {
    '0' <= c && c <= '9'
}

/// ASCII letter.
pub open spec fn spec_is_alpha(c: char) -> bool {
    ('a' <= c && c <= 'z') || ('A' <= c && c <= 'Z')
}

/// ASCII letter or digit.
pub open spec fn spec_is_alnum(c: char) -> bool {
    spec_is_alpha(c) || spec_is_digit(c)
}

/// ASCII lower-casing: upper-case letters map to lower case, everything else is kept.
pub open spec fn spec_lower(c: char) -> char {
    if 'A' <= c && c <= 'Z' {
        ((c as u32) + 32) as char
    } else {
        c
    }
}

pub fn is_ascii_digit(c: char) -> (r: bool)
    ensures r == spec_is_digit(c),
{
    '0' <= c && c <= '9'
}

pub fn to_ascii_lower(c: char) -> (r: char)
    ensures r == spec_lower(c),
{
    if 'A' <= c && c <= 'Z' {
        let b: u8 = (c as u32 + 32) as u8;
        b as char
    } else {
        c
    }
}

/// Collects the characters of a string slice.
pub fn char_vec(s: &str) -> (v: Vec<char>)
    ensures v@ == s@,
{
    broadcast use vstd::string::group_string_axioms;
    let mut v: Vec<char> = Vec::new();
    for c in it: s.chars()
        invariant
            it.seq() == s@,
            v@ == it.seq().take(it.index() as int),
    {
        v.push(c);
    }
    v
}


/// Unicode `White_Space` property, the set that `char::is_whitespace` accepts.
pub open spec fn spec_is_whitespace(c: char) -> bool {
    ('\u{9}' <= c && c <= '\u{d}') || c == ' ' || c == '\u{85}' || c == '\u{a0}'
        || c == '\u{1680}' || ('\u{2000}' <= c && c <= '\u{200a}') || c == '\u{2028}'
        || c == '\u{2029}' || c == '\u{202f}' || c == '\u{205f}' || c == '\u{3000}'
}

pub fn is_whitespace(c: char) -> (r: bool)
    ensures r == spec_is_whitespace(c),
{
    ('\u{9}' <= c && c <= '\u{d}') || c == ' ' || c == '\u{85}' || c == '\u{a0}'
        || c == '\u{1680}' || ('\u{2000}' <= c && c <= '\u{200a}') || c == '\u{2028}'
        || c == '\u{2029}' || c == '\u{202f}' || c == '\u{205f}' || c == '\u{3000}'
}

pub fn is_ascii_alpha(c: char) -> (r: bool)
    ensures r == spec_is_alpha(c),
{
    ('a' <= c && c <= 'z') || ('A' <= c && c <= 'Z')
}

pub fn is_ascii_alnum(c: char) -> (r: bool)
    ensures r == spec_is_alnum(c),
{
    is_ascii_alpha(c) || is_ascii_digit(c)
}

/// ASCII lower-casing of a whole sequence.
pub open spec fn spec_lower_seq(s: Seq<char>) -> Seq<char> {
    s.map_values(|c: char| spec_lower(c))
}

/// Leading whitespace removed.
pub open spec fn spec_trim_start(s: Seq<char>) -> Seq<char>
    decreases s.len(),
{
    if s.len() > 0 && spec_is_whitespace(s[0]) {
        spec_trim_start(s.drop_first())
    } else {
        s
    }
}

/// Trailing whitespace removed.
pub open spec fn spec_trim_end(s: Seq<char>) -> Seq<char>
    decreases s.len(),
{
    if s.len() > 0 && spec_is_whitespace(s.last()) {
        spec_trim_end(s.drop_last())
    } else {
        s
    }
}

/// Leading and trailing whitespace removed, as `str::trim` does.
pub open spec fn spec_trim(s: Seq<char>) -> Seq<char> {
    spec_trim_end(spec_trim_start(s))
}

/// `String::push`: appends one character to a string. Claimed: the characters
/// afterwards are those before, then `c`.
#[verifier::external_body]
pub(crate) fn push_char(s: &mut String, c: char)
    ensures
        final(s)@ == old(s)@.push(c),
{
    s.push(c);
}

/// Builds a string from a run of characters.
pub fn string_from_chars(v: &[char], start: usize, end: usize) -> (s: String)
    requires
        start <= end <= v@.len(),
    ensures
        s@ == v@.subrange(start as int, end as int),
{
    let mut s = String::new();
    let mut i = start;
    while i < end
        invariant
            start <= i <= end <= v@.len(),
            s@ == v@.subrange(start as int, i as int),
        decreases end - i,
    {
        push_char(&mut s, v[i]);
        i += 1;
        assert(s@ =~= v@.subrange(start as int, i as int));
    }
    s
}

/// Index of the first character that is not whitespace (or the end).
pub fn trim_start_index(v: &[char], end: usize) -> (a: usize)
    requires
        end <= v@.len(),
    ensures
        a <= end,
        v@.subrange(a as int, end as int) == spec_trim_start(v@.subrange(0, end as int)),
{
    let mut a: usize = 0;
    while a < end && is_whitespace(v[a])
        invariant
            a <= end <= v@.len(),
            spec_trim_start(v@.subrange(0, end as int)) == spec_trim_start(v@.subrange(a as int, end as int)),
        decreases end - a,
    {
        assert(v@.subrange(a as int, end as int).drop_first() =~= v@.subrange(a + 1, end as int));
        a += 1;
    }
    a
}

/// One past the last character of `v[start..end]` that is not whitespace (or `start`).
pub fn trim_end_index(v: &[char], start: usize, end: usize) -> (b: usize)
    requires
        start <= end <= v@.len(),
    ensures
        start <= b <= end,
        v@.subrange(start as int, b as int) == spec_trim_end(v@.subrange(start as int, end as int)),
{
    let mut b: usize = end;
    while b > start && is_whitespace(v[b - 1])
        invariant
            start <= b <= end <= v@.len(),
            spec_trim_end(v@.subrange(start as int, end as int)) == spec_trim_end(v@.subrange(start as int, b as int)),
        decreases b,
    {
        assert(v@.subrange(start as int, b as int).drop_last() =~= v@.subrange(start as int, b - 1));
        b -= 1;
    }
    b
}

/// `str::trim` on a run of characters, as a string.
pub fn trimmed_string(v: &[char], end: usize) -> (s: String)
    requires
        end <= v@.len(),
    ensures
        s@ == spec_trim(v@.subrange(0, end as int)),
{
    let a = trim_start_index(v, end);
    let b = trim_end_index(v, a, end);
    string_from_chars(v, a, b)
}


/// The characters of `s` that are not whitespace, in order.
pub open spec fn spec_visible(s: Seq<char>) -> Seq<char>
    decreases s.len(),
{
    if s.len() == 0 {
        seq![]
    } else if spec_is_whitespace(s.last()) {
        spec_visible(s.drop_last())
    } else {
        spec_visible(s.drop_last()).push(s.last())
    }
}

pub proof fn lemma_visible_add(a: Seq<char>, b: Seq<char>)
    ensures
        spec_visible(a + b) == spec_visible(a) + spec_visible(b),
    decreases b.len(),
{
    if b.len() == 0 {
        assert(a + b =~= a);
        assert(spec_visible(a) + spec_visible(b) =~= spec_visible(a));
    } else {
        assert((a + b).drop_last() =~= a + b.drop_last());
        lemma_visible_add(a, b.drop_last());
        if !spec_is_whitespace(b.last()) {
            assert(spec_visible(a) + spec_visible(b.drop_last()).push(b.last())
                =~= (spec_visible(a) + spec_visible(b.drop_last())).push(b.last()));
        }
    }
}

pub proof fn lemma_visible_trim_start(x: Seq<char>)
    ensures
        spec_visible(spec_trim_start(x)) == spec_visible(x),
    decreases x.len(),
{
    if x.len() > 0 && spec_is_whitespace(x[0]) {
        lemma_visible_trim_start(x.drop_first());
        assert(x =~= seq![x[0]] + x.drop_first());
        lemma_visible_add(seq![x[0]], x.drop_first());
        assert(seq![x[0]].drop_last() =~= Seq::<char>::empty());
        assert(seq![x[0]].last() == x[0]);
        assert(spec_visible(Seq::<char>::empty()) =~= Seq::<char>::empty());
        assert(spec_visible(seq![x[0]]) =~= Seq::<char>::empty());
        assert(Seq::<char>::empty() + spec_visible(x.drop_first()) =~= spec_visible(x.drop_first()));
    }
}

pub proof fn lemma_visible_trim_end(x: Seq<char>)
    ensures
        spec_visible(spec_trim_end(x)) == spec_visible(x),
    decreases x.len(),
{
    if x.len() > 0 && spec_is_whitespace(x.last()) {
        lemma_visible_trim_end(x.drop_last());
    }
}

pub proof fn lemma_visible_trim(x: Seq<char>)
    ensures
        spec_visible(spec_trim(x)) == spec_visible(x),
{
    lemma_visible_trim_start(x);
    lemma_visible_trim_end(spec_trim_start(x));
}

proof fn lemma_trim_start_no_lead(x: Seq<char>)
    ensures
        spec_trim_start(x).len() > 0 ==> !spec_is_whitespace(spec_trim_start(x)[0]),
    decreases x.len(),
{
    if x.len() > 0 && spec_is_whitespace(x[0]) {
        lemma_trim_start_no_lead(x.drop_first());
    }
}

proof fn lemma_trim_end_no_trail(x: Seq<char>)
    ensures
        spec_trim_end(x).len() > 0 ==> !spec_is_whitespace(spec_trim_end(x).last()),
    decreases x.len(),
{
    if x.len() > 0 && spec_is_whitespace(x.last()) {
        lemma_trim_end_no_trail(x.drop_last());
    }
}

proof fn lemma_trim_end_keeps_first(y: Seq<char>)
    requires
        y.len() > 0,
        !spec_is_whitespace(y[0]),
    ensures
        spec_trim_end(y).len() > 0,
        spec_trim_end(y)[0] == y[0],
    decreases y.len(),
{
    if spec_is_whitespace(y.last()) {
        lemma_trim_end_keeps_first(y.drop_last());
    }
}

/// Trimming twice is trimming once.
pub proof fn lemma_trim_idempotent(x: Seq<char>)
    ensures
        spec_trim(spec_trim(x)) == spec_trim(x),
{
    let y = spec_trim_start(x);
    let z = spec_trim_end(y);
    lemma_trim_start_no_lead(x);
    lemma_trim_end_no_trail(y);
    if z.len() > 0 {
        lemma_trim_end_keeps_first(y);
    }
    assert(spec_trim_start(z) == z);
    assert(spec_trim_end(z) == z);
}


proof fn lemma_trim_start_suffix(x: Seq<char>)
    ensures
        spec_trim_start(x).len() <= x.len(),
        spec_trim_start(x) == x.subrange(x.len() - spec_trim_start(x).len(), x.len() as int),
    decreases x.len(),
{
    if x.len() > 0 && spec_is_whitespace(x[0]) {
        lemma_trim_start_suffix(x.drop_first());
        let t = spec_trim_start(x.drop_first());
        assert(x.drop_first().subrange(x.drop_first().len() - t.len(), x.drop_first().len() as int)
            =~= x.subrange(x.len() - t.len(), x.len() as int));
    } else {
        assert(x.subrange(0, x.len() as int) =~= x);
    }
}

proof fn lemma_trim_end_prefix(y: Seq<char>)
    ensures
        spec_trim_end(y).len() <= y.len(),
        spec_trim_end(y) == y.subrange(0, spec_trim_end(y).len() as int),
        y.len() > 0 && spec_is_whitespace(y.last()) ==> spec_trim_end(y).len() < y.len(),
    decreases y.len(),
{
    if y.len() > 0 && spec_is_whitespace(y.last()) {
        lemma_trim_end_prefix(y.drop_last());
        let t = spec_trim_end(y.drop_last());
        assert(y.drop_last().subrange(0, t.len() as int) =~= y.subrange(0, t.len() as int));
    } else {
        assert(y.subrange(0, y.len() as int) =~= y);
    }
}

/// `spec_trim(x)` is the stretch `x[a..b]`, which stops short of a whitespace last character.
pub proof fn lemma_trim_is_stretch(x: Seq<char>) -> (ab: (int, int))
    ensures
        0 <= ab.0 <= ab.1 <= x.len(),
        spec_trim(x) == x.subrange(ab.0, ab.1),
        x.len() > 0 && spec_is_whitespace(x.last()) && ab.0 < ab.1 ==> ab.1 < x.len(),
{
    lemma_trim_start_suffix(x);
    let y = spec_trim_start(x);
    let a = x.len() - y.len();
    lemma_trim_end_prefix(y);
    let m = spec_trim_end(y).len();
    assert(y.subrange(0, m as int) =~= x.subrange(a, a + m));
    if x.len() > 0 && spec_is_whitespace(x.last()) && y.len() > 0 {
        assert(y.last() == x.last());
    }
    (a, a + m)
}

} // verus!
