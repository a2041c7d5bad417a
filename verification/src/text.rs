//! Sentence splitting of request text, and the token masking rule for Chinese text.
use vstd::prelude::*;
use crate::chars::{
    char_vec, is_ascii_alnum, is_ascii_alpha, is_ascii_digit, is_whitespace, spec_is_alnum,
    spec_is_alpha, spec_is_digit, spec_is_whitespace, spec_lower_seq, spec_trim_end,
    string_from_chars, to_ascii_lower, trim_end_index, spec_trim, trimmed_string,
    spec_visible, lemma_visible_add, lemma_visible_trim, lemma_trim_idempotent,
    lemma_trim_is_stretch, push_char,
};

verus! {

/// The run of ASCII letters and digits at the very end of `s` (possibly empty).
pub open spec fn spec_alnum_run(s: Seq<char>) -> Seq<char>
    decreases s.len(),
{
    if s.len() > 0 && spec_is_alnum(s.last()) {
        spec_alnum_run(s.drop_last()).push(s.last())
    } else {
        seq![]
    }
}

/// The last maximal run of ASCII letters and digits in `s`, skipping anything after it.
pub open spec fn spec_last_word(s: Seq<char>) -> Seq<char>
    decreases s.len(),
{
    if s.len() == 0 {
        seq![]
    } else if spec_is_alnum(s.last()) {
        spec_alnum_run(s)
    } else {
        spec_last_word(s.drop_last())
    }
}

/// Lower-case words after which a period does not end a sentence.
pub open spec fn spec_is_abbreviation(w: Seq<char>) -> bool {
    ||| w == "mr"@ ||| w == "mrs"@ ||| w == "ms"@ ||| w == "dr"@ ||| w == "prof"@
    ||| w == "sr"@ ||| w == "jr"@ ||| w == "st"@ ||| w == "vs"@ ||| w == "etc"@
    ||| w == "inc"@ ||| w == "ltd"@ ||| w == "co"@ ||| w == "corp"@ ||| w == "fig"@
    ||| w == "al"@ ||| w == "gen"@ ||| w == "rep"@ ||| w == "sen"@ ||| w == "gov"@
    ||| w == "lt"@ ||| w == "col"@ ||| w == "sgt"@ ||| w == "adm"@ ||| w == "capt"@
    ||| w == "cmdr"@ ||| w == "mt"@ ||| w == "ft"@
}

/// `s` without one trailing `'.'`, if it has one.
pub open spec fn spec_strip_dot(s: Seq<char>) -> Seq<char> {
    if s.len() > 0 && s.last() == '.' { s.drop_last() } else { s }
}

/// Whether a period that was just appended to `current` ends a sentence, given the
/// characters around it.
pub open spec fn spec_should_split_period(current: Seq<char>, prev: Option<char>, next: Option<char>) -> bool {
    if next matches Some(n) && !spec_is_whitespace(n) {
        false
    } else if (prev matches Some(p) && spec_is_digit(p)) && (next matches Some(n) && spec_is_digit(n)) {
        false
    } else {
        let w = spec_last_word(spec_strip_dot(spec_trim_end(current)));
        if w.len() == 0 {
            true
        } else if spec_is_abbreviation(spec_lower_seq(w)) {
            false
        } else if w.len() == 1 && spec_is_alpha(w[0]) && (next matches Some(c) && spec_is_alpha(c)) {
            false
        } else {
            true
        }
    }
}

/// Range `[start, end)` of `spec_last_word(v[..len])` inside `v`.
fn last_word_range(v: &[char], len: usize) -> (r: (usize, usize))
    requires
        len <= v@.len(),
    ensures
        r.0 <= r.1 <= len,
        v@.subrange(r.0 as int, r.1 as int) == spec_last_word(v@.subrange(0, len as int)),
{
    let mut j: usize = len;
    while j > 0 && !is_ascii_alnum(v[j - 1])
        invariant
            j <= len <= v@.len(),
            spec_last_word(v@.subrange(0, len as int)) == spec_last_word(v@.subrange(0, j as int)),
        decreases j,
    {
        assert(v@.subrange(0, j as int).drop_last() =~= v@.subrange(0, j - 1));
        j -= 1;
    }
    let mut i: usize = j;
    while i > 0 && is_ascii_alnum(v[i - 1])
        invariant
            i <= j <= len <= v@.len(),
            spec_alnum_run(v@.subrange(0, j as int))
                == spec_alnum_run(v@.subrange(0, i as int)) + v@.subrange(i as int, j as int),
        decreases i,
    {
        assert(v@.subrange(0, i as int).drop_last() =~= v@.subrange(0, i - 1));
        assert(v@.subrange(i - 1, j as int) =~= seq![v@[i - 1]] + v@.subrange(i as int, j as int));
        assert(spec_alnum_run(v@.subrange(0, i - 1)) + v@.subrange(i - 1, j as int)
            =~= spec_alnum_run(v@.subrange(0, i - 1)).push(v@[i - 1]) + v@.subrange(i as int, j as int));
        i -= 1;
    }
    assert(spec_alnum_run(v@.subrange(0, i as int)) =~= seq![]);
    assert(v@.subrange(i as int, j as int) =~= seq![] + v@.subrange(i as int, j as int));
    (i, j)
}

/// Whether `v[start..end]` spells the string `lit`.
pub(crate) fn chars_eq(v: &[char], start: usize, end: usize, lit: &str) -> (r: bool)
    requires
        start <= end <= v@.len(),
    ensures
        r == (v@.subrange(start as int, end as int) == lit@),
{
    let n = lit.unicode_len();
    if end - start != n {
        return false;
    }
    let mut k: usize = 0;
    while k < n
        invariant
            n == lit@.len(),
            end - start == n,
            start <= end <= v@.len(),
            k <= n,
            forall|t: int| 0 <= t < k ==> v@[start + t] == lit@[t],
        decreases n - k,
    {
        if v[start + k] != lit.get_char(k) {
            assert(v@.subrange(start as int, end as int)[k as int] != lit@[k as int]);
            return false;
        }
        k += 1;
    }
    assert(v@.subrange(start as int, end as int) =~= lit@);
    true
}

fn is_abbreviation_chars(w: &[char]) -> (r: bool)
    ensures
        r == spec_is_abbreviation(w@),
{
    let n = w.len();
    assert(w@.subrange(0, n as int) =~= w@);
    chars_eq(w, 0, n, "mr") || chars_eq(w, 0, n, "mrs") || chars_eq(w, 0, n, "ms")
        || chars_eq(w, 0, n, "dr") || chars_eq(w, 0, n, "prof") || chars_eq(w, 0, n, "sr")
        || chars_eq(w, 0, n, "jr") || chars_eq(w, 0, n, "st") || chars_eq(w, 0, n, "vs")
        || chars_eq(w, 0, n, "etc") || chars_eq(w, 0, n, "inc") || chars_eq(w, 0, n, "ltd")
        || chars_eq(w, 0, n, "co") || chars_eq(w, 0, n, "corp") || chars_eq(w, 0, n, "fig")
        || chars_eq(w, 0, n, "al") || chars_eq(w, 0, n, "gen") || chars_eq(w, 0, n, "rep")
        || chars_eq(w, 0, n, "sen") || chars_eq(w, 0, n, "gov") || chars_eq(w, 0, n, "lt")
        || chars_eq(w, 0, n, "col") || chars_eq(w, 0, n, "sgt") || chars_eq(w, 0, n, "adm")
        || chars_eq(w, 0, n, "capt") || chars_eq(w, 0, n, "cmdr") || chars_eq(w, 0, n, "mt")
        || chars_eq(w, 0, n, "ft")
}

/// Whether the (already lower-cased) word is one of the known abbreviations
/// ("mr", "dr", "etc", ...), after which a period does not end a sentence.
pub fn is_abbreviation(word: &str) -> (r: bool)
    ensures
        r == spec_is_abbreviation(word@),
{
    let w = char_vec(word);
    assert(w@.subrange(0, w@.len() as int) =~= w@);
    is_abbreviation_chars(w.as_slice())
}

/// Lower-cased copy of `v[start..end]`.
fn lowered(v: &[char], start: usize, end: usize) -> (r: Vec<char>)
    requires
        start <= end <= v@.len(),
    ensures
        r@ == spec_lower_seq(v@.subrange(start as int, end as int)),
{
    let mut r: Vec<char> = Vec::new();
    let mut i = start;
    while i < end
        invariant
            start <= i <= end <= v@.len(),
            r@ == spec_lower_seq(v@.subrange(start as int, i as int)),
        decreases end - i,
    {
        r.push(to_ascii_lower(v[i]));
        i += 1;
        assert(r@ =~= spec_lower_seq(v@.subrange(start as int, i as int)));
    }
    r
}

/// The last run of ASCII letters and digits in `text`, e.g. "Dr" for "see Dr. ".
pub fn extract_last_word(text: &str) -> (r: String)
    ensures
        r@ == spec_last_word(text@),
{
    let v = char_vec(text);
    let n = v.len();
    assert(v@.subrange(0, n as int) =~= v@);
    let (a, b) = last_word_range(v.as_slice(), n);
    string_from_chars(v.as_slice(), a, b)
}

fn should_split_period_chars(current: &[char], len: usize, prev: Option<char>, next: Option<char>) -> (r: bool)
    requires
        len <= current@.len(),
    ensures
        r == spec_should_split_period(current@.subrange(0, len as int), prev, next),
{
    if let Some(n) = next {
        if !is_whitespace(n) {
            return false;
        }
    }
    if let (Some(p), Some(n)) = (prev, next) {
        if is_ascii_digit(p) && is_ascii_digit(n) {
            return false;
        }
    }
    let ghost cur = current@.subrange(0, len as int);
    let e = trim_end_index(current, 0, len);
    let base_end = if e > 0 && current[e - 1] == '.' { e - 1 } else { e };
    assert(current@.subrange(0, base_end as int) =~= spec_strip_dot(spec_trim_end(cur)));
    let (a, b) = last_word_range(current, base_end);
    if a == b {
        return true;
    }
    let low = lowered(current, a, b);
    if is_abbreviation_chars(low.as_slice()) {
        return false;
    }
    if b - a == 1 && is_ascii_alpha(current[a]) {
        if let Some(c) = next {
            if is_ascii_alpha(c) {
                return false;
            }
        }
    }
    true
}

/// Whether a period just appended to `current` ends a sentence: not when it is followed
/// by a non-space character, not between digits, not after a known abbreviation or a
/// single letter followed by a letter.
pub fn should_split_period(current: &str, prev: Option<char>, next: Option<char>) -> (r: bool)
    ensures
        r == spec_should_split_period(current@, prev, next),
{
    let v = char_vec(current);
    let n = v.len();
    assert(v@.subrange(0, n as int) =~= v@);
    should_split_period_chars(v.as_slice(), n, prev, next)
}


/// The character before position `i` of `s`, if any.
pub open spec fn spec_prev(s: Seq<char>, i: int) -> Option<char> {
    if i > 0 { Some(s[i - 1]) } else { None }
}

/// The character after position `i` of `s`, if any.
pub open spec fn spec_next(s: Seq<char>, i: int) -> Option<char> {
    if i + 1 < s.len() { Some(s[i + 1]) } else { None }
}

/// Whether the text is cut after position `i`, where `cur` is the pending piece that
/// ends with `s[i]`: after '!', '?' and newlines always; after a period when it is not
/// part of an ellipsis and `spec_should_split_period` accepts it.
pub open spec fn spec_cuts_after(s: Seq<char>, i: int, cur: Seq<char>) -> bool {
    let ch = s[i];
    let prev = spec_prev(s, i);
    let next = spec_next(s, i);
    let is_ellipsis = ch == '.' && (prev == Some('.') || next == Some('.'));
    ||| ch == '!'
    ||| ch == '?'
    ||| ch == '\n'
    ||| (ch == '.' && !is_ellipsis && spec_should_split_period(cur, prev, next))
}

/// `out` with the trimmed piece appended when it is not blank.
pub open spec fn spec_add_piece(out: Seq<Seq<char>>, piece: Seq<char>) -> Seq<Seq<char>> {
    if spec_trim(piece).len() > 0 { out.push(spec_trim(piece)) } else { out }
}

/// Sentences emitted and the pending piece after reading the first `n` characters of `s`.
pub open spec fn spec_split_scan(s: Seq<char>, n: nat) -> (Seq<Seq<char>>, Seq<char>)
    decreases n,
{
    if n == 0 {
        (seq![], seq![])
    } else {
        let (out, cur) = spec_split_scan(s, (n - 1) as nat);
        let cur2 = cur.push(s[n - 1]);
        if spec_cuts_after(s, n - 1, cur2) {
            (spec_add_piece(out, cur2), seq![])
        } else {
            (out, cur2)
        }
    }
}

/// The sentences of `s`: every cut piece, and the rest, trimmed, blanks dropped.
pub open spec fn spec_split_sentences(s: Seq<char>) -> Seq<Seq<char>> {
    let (out, cur) = spec_split_scan(s, s.len());
    spec_add_piece(out, cur)
}

/// Views of a vector of strings.
pub open spec fn strings_view(v: Seq<String>) -> Seq<Seq<char>> {
    v.map_values(|x: String| x@)
}

fn add_piece(out: &mut Vec<String>, cur: &Vec<char>)
    ensures
        strings_view(final(out)@) == spec_add_piece(strings_view(old(out)@), cur@),
{
    let n = cur.len();
    assert(cur@.subrange(0, n as int) =~= cur@);
    let piece = trimmed_string(cur.as_slice(), n);
    if !piece.as_str().is_empty() {
        out.push(piece);
        assert(strings_view(out@) =~= spec_add_piece(strings_view(old(out)@), cur@));
    }
}

/// Splits request text into sentences for chunked synthesis: after '!', '?', newlines,
/// and sentence-ending periods (not ellipses, decimals, abbreviations or initials);
/// pieces are trimmed and blank pieces dropped.
pub fn split_sentences(text: &str) -> (r: Vec<String>)
    ensures
        strings_view(r@) == spec_split_sentences(text@),
{
    let v = char_vec(text);
    let n = v.len();
    let mut out: Vec<String> = Vec::new();
    let mut cur: Vec<char> = Vec::new();
    let mut i: usize = 0;
    while i < n
        invariant
            n == v@.len(),
            v@ == text@,
            i <= n,
            (strings_view(out@), cur@) == spec_split_scan(v@, i as nat),
        decreases n - i,
    {
        let ch = v[i];
        cur.push(ch);
        let prev: Option<char> = if i > 0 { Some(v[i - 1]) } else { None };
        let next: Option<char> = if i + 1 < n { Some(v[i + 1]) } else { None };
        let prev_dot = match prev { Some(p) => p == '.', None => false };
        let next_dot = match next { Some(q) => q == '.', None => false };
        let is_ellipsis = ch == '.' && (prev_dot || next_dot);
        assert(is_ellipsis == (ch == '.' && (spec_prev(v@, i as int) == Some('.') || spec_next(v@, i as int) == Some('.'))));
        let cut = ch == '!' || ch == '?' || ch == '\n' || (ch == '.' && !is_ellipsis
            && should_split_period_chars(cur.as_slice(), cur.len(), prev, next));
        proof {
            assert(cur@.subrange(0, cur@.len() as int) =~= cur@);
        }
        if cut {
            add_piece(&mut out, &cur);
            cur = Vec::new();
        }
        i += 1;
        proof {
            assert(cur@ =~= spec_split_scan(v@, i as nat).1);
        }
    }
    add_piece(&mut out, &cur);
    out
}


/// The pieces written one after another.
pub open spec fn spec_join(pieces: Seq<Seq<char>>) -> Seq<char>
    decreases pieces.len(),
{
    if pieces.len() == 0 {
        seq![]
    } else {
        spec_join(pieces.drop_last()) + pieces.last()
    }
}

proof fn lemma_add_piece_visible(out: Seq<Seq<char>>, piece: Seq<char>)
    ensures
        spec_visible(spec_join(spec_add_piece(out, piece)))
            == spec_visible(spec_join(out)) + spec_visible(piece),
{
    lemma_visible_trim(piece);
    if spec_trim(piece).len() > 0 {
        let out2 = out.push(spec_trim(piece));
        assert(out2.drop_last() =~= out);
        lemma_visible_add(spec_join(out), spec_trim(piece));
    } else {
        assert(spec_trim(piece) =~= Seq::<char>::empty());
        assert(spec_visible(spec_trim(piece)) =~= Seq::<char>::empty());
        assert(spec_visible(spec_join(out)) + spec_visible(piece) =~= spec_visible(spec_join(out)));
    }
}

proof fn lemma_scan_visible(s: Seq<char>, n: nat)
    requires
        n <= s.len(),
    ensures
        spec_visible(spec_join(spec_split_scan(s, n).0)) + spec_visible(spec_split_scan(s, n).1)
            == spec_visible(s.subrange(0, n as int)),
    decreases n,
{
    if n == 0 {
        assert(spec_join(Seq::<Seq<char>>::empty()) =~= Seq::<char>::empty());
        assert(s.subrange(0, 0) =~= Seq::<char>::empty());
        assert(Seq::<char>::empty() + Seq::<char>::empty() =~= Seq::<char>::empty());
    } else {
        lemma_scan_visible(s, (n - 1) as nat);
        let (out, cur) = spec_split_scan(s, (n - 1) as nat);
        let c = s[n - 1];
        let cur2 = cur.push(c);
        assert(cur2 =~= cur + seq![c]);
        lemma_visible_add(cur, seq![c]);
        assert(s.subrange(0, n as int) =~= s.subrange(0, n - 1) + seq![c]);
        lemma_visible_add(s.subrange(0, n - 1), seq![c]);
        assert(seq![c].drop_last() =~= Seq::<char>::empty());
        if spec_cuts_after(s, n - 1, cur2) {
            lemma_add_piece_visible(out, cur2);
            assert(spec_visible(Seq::<char>::empty()) =~= Seq::<char>::empty());
            assert(spec_visible(spec_join(spec_add_piece(out, cur2))) + spec_visible(Seq::<char>::empty())
                =~= spec_visible(spec_join(spec_add_piece(out, cur2))));
        }
        assert(spec_visible(spec_join(out)) + (spec_visible(cur) + spec_visible(seq![c]))
            =~= (spec_visible(spec_join(out)) + spec_visible(cur)) + spec_visible(seq![c]));
    }
}

/// Splitting into sentences loses nothing but whitespace: the sentences written one
/// after another hold every non-whitespace character of the text, in order.
pub proof fn lemma_split_keeps_visible_text(text: Seq<char>)
    ensures
        spec_visible(spec_join(spec_split_sentences(text))) == spec_visible(text),
{
    lemma_scan_visible(text, text.len());
    let (out, cur) = spec_split_scan(text, text.len());
    lemma_add_piece_visible(out, cur);
    assert(text.subrange(0, text.len() as int) =~= text);
}

/// Every piece is non-empty and has no leading or trailing whitespace.
pub open spec fn spec_all_trimmed(pieces: Seq<Seq<char>>) -> bool {
    forall|k: int| 0 <= k < pieces.len() ==> (#[trigger] pieces[k]).len() > 0 && spec_trim(pieces[k]) == pieces[k]
}

proof fn lemma_add_piece_trimmed(out: Seq<Seq<char>>, piece: Seq<char>)
    requires
        spec_all_trimmed(out),
    ensures
        spec_all_trimmed(spec_add_piece(out, piece)),
{
    lemma_trim_idempotent(piece);
    let r = spec_add_piece(out, piece);
    assert forall|k: int| 0 <= k < r.len() implies (#[trigger] r[k]).len() > 0 && spec_trim(r[k]) == r[k] by {
        if k < out.len() {
            assert(r[k] == out[k]);
        }
    }
}

proof fn lemma_scan_trimmed(s: Seq<char>, n: nat)
    requires
        n <= s.len(),
    ensures
        spec_all_trimmed(spec_split_scan(s, n).0),
    decreases n,
{
    if n > 0 {
        lemma_scan_trimmed(s, (n - 1) as nat);
        let (out, cur) = spec_split_scan(s, (n - 1) as nat);
        let cur2 = cur.push(s[n - 1]);
        if spec_cuts_after(s, n - 1, cur2) {
            lemma_add_piece_trimmed(out, cur2);
        }
    }
}

/// Every sentence is non-empty and has no leading or trailing whitespace.
pub proof fn lemma_split_pieces_trimmed(text: Seq<char>)
    ensures
        spec_all_trimmed(spec_split_sentences(text)),
{
    lemma_scan_trimmed(text, text.len());
    let (out, cur) = spec_split_scan(text, text.len());
    lemma_add_piece_trimmed(out, cur);
}

/// Not one of the characters after which a cut is always made.
pub open spec fn spec_not_break(c: char) -> bool {
    c != '!' && c != '?' && c != '\n'
}

/// '!' and '?' appear at most as the last character, and there is no newline.
pub open spec fn spec_breaks_only_at_end(p: Seq<char>) -> bool {
    &&& forall|j: int| 0 <= j < p.len() - 1 ==> spec_not_break(#[trigger] p[j])
    &&& (p.len() > 0 ==> p.last() != '\n')
}

/// Every piece has breaks at most at its end.
pub open spec fn spec_all_break_at_end(pieces: Seq<Seq<char>>) -> bool {
    forall|k: int| 0 <= k < pieces.len() ==> spec_breaks_only_at_end(#[trigger] pieces[k])
}

proof fn lemma_add_piece_breaks(out: Seq<Seq<char>>, piece: Seq<char>)
    requires
        spec_all_break_at_end(out),
        forall|j: int| 0 <= j < piece.len() - 1 ==> spec_not_break(#[trigger] piece[j]),
        piece.len() > 0 && piece.last() == '\n' ==> spec_is_whitespace(piece.last()),
    ensures
        spec_all_break_at_end(spec_add_piece(out, piece)),
{
    let (a, b) = lemma_trim_is_stretch(piece);
    let t = spec_trim(piece);
    if t.len() > 0 {
        assert forall|j: int| 0 <= j < t.len() - 1 implies spec_not_break(#[trigger] t[j]) by {
            assert(t[j] == piece[a + j]);
        }
        if t.last() == '\n' {
            assert(t.last() == piece[b - 1]);
            if b == piece.len() {
                assert(spec_is_whitespace(piece.last()));
            } else {
                assert(spec_not_break(piece[b - 1]));
            }
        }
        let r = spec_add_piece(out, piece);
        assert forall|k: int| 0 <= k < r.len() implies spec_breaks_only_at_end(#[trigger] r[k]) by {
            if k < out.len() {
                assert(r[k] == out[k]);
            }
        }
    }
}

proof fn lemma_scan_breaks(s: Seq<char>, n: nat)
    requires
        n <= s.len(),
    ensures
        spec_all_break_at_end(spec_split_scan(s, n).0),
        forall|j: int| 0 <= j < spec_split_scan(s, n).1.len() ==> spec_not_break(#[trigger] spec_split_scan(s, n).1[j]),
    decreases n,
{
    if n > 0 {
        lemma_scan_breaks(s, (n - 1) as nat);
        let (out, cur) = spec_split_scan(s, (n - 1) as nat);
        let cur2 = cur.push(s[n - 1]);
        assert forall|j: int| 0 <= j < cur2.len() - 1 implies spec_not_break(#[trigger] cur2[j]) by {
            assert(cur2[j] == cur[j]);
        }
        if spec_cuts_after(s, n - 1, cur2) {
            lemma_add_piece_breaks(out, cur2);
        } else {
            assert forall|j: int| 0 <= j < cur2.len() implies spec_not_break(#[trigger] cur2[j]) by {
                if j < cur.len() {
                    assert(cur2[j] == cur[j]);
                }
            }
        }
    }
}

/// A sentence never holds a newline, and '!' or '?' only as its last character: the
/// text is always cut right after them.
pub proof fn lemma_split_breaks_at_end(text: Seq<char>)
    ensures
        spec_all_break_at_end(spec_split_sentences(text)),
{
    lemma_scan_breaks(text, text.len());
    let (out, cur) = spec_split_scan(text, text.len());
    lemma_add_piece_breaks(out, cur);
}

/// A CJK unified ideograph (U+4E00 to U+9FFF).
pub open spec fn spec_is_chinese_char(c: char) -> bool {
    '\u{4E00}' <= c && c <= '\u{9FFF}'
}

/// A token of at least two characters, all CJK ideographs.
pub open spec fn spec_is_multichar_chinese(t: Seq<char>) -> bool {
    t.len() >= 2 && forall|j: int| 0 <= j < t.len() ==> spec_is_chinese_char(#[trigger] t[j])
}

pub fn is_chinese_char(ch: char) -> (r: bool)
    ensures
        r == spec_is_chinese_char(ch),
{
    '\u{4E00}' <= ch && ch <= '\u{9FFF}'
}

fn is_multichar_chinese_chars(v: &[char]) -> (r: bool)
    ensures
        r == spec_is_multichar_chinese(v@),
{
    let n = v.len();
    let mut j: usize = 0;
    while j < n
        invariant
            n == v@.len(),
            j <= n,
            forall|t: int| 0 <= t < j ==> spec_is_chinese_char(#[trigger] v@[t]),
        decreases n - j,
    {
        if !is_chinese_char(v[j]) {
            return false;
        }
        j += 1;
    }
    n >= 2
}

/// Whether a token is two or more CJK ideographs (such tokens are spelled out per character).
pub fn is_multichar_chinese(token: &str) -> (r: bool)
    ensures
        r == spec_is_multichar_chinese(token@),
{
    let v = char_vec(token);
    is_multichar_chinese_chars(v.as_slice())
}


/// Every word of the abbreviation list is one: after "Mr.", "Mrs.", "Ms.", "Dr.",
/// "Prof.", ... a period does not end a sentence.
pub proof fn lemma_listed_abbreviations()
    ensures
        spec_is_abbreviation("mr"@), spec_is_abbreviation("mrs"@), spec_is_abbreviation("ms"@),
        spec_is_abbreviation("dr"@), spec_is_abbreviation("prof"@), spec_is_abbreviation("sr"@),
        spec_is_abbreviation("jr"@), spec_is_abbreviation("st"@), spec_is_abbreviation("vs"@),
        spec_is_abbreviation("etc"@), spec_is_abbreviation("inc"@), spec_is_abbreviation("ltd"@),
        spec_is_abbreviation("co"@), spec_is_abbreviation("corp"@), spec_is_abbreviation("fig"@),
        spec_is_abbreviation("al"@), spec_is_abbreviation("gen"@), spec_is_abbreviation("rep"@),
        spec_is_abbreviation("sen"@), spec_is_abbreviation("gov"@), spec_is_abbreviation("lt"@),
        spec_is_abbreviation("col"@), spec_is_abbreviation("sgt"@), spec_is_abbreviation("adm"@),
        spec_is_abbreviation("capt"@), spec_is_abbreviation("cmdr"@), spec_is_abbreviation("mt"@),
        spec_is_abbreviation("ft"@),
{
}

/// The letters and digits at the end of a text that ends with the word `w`, after
/// something that is not a letter or digit (or nothing), are `w`.
proof fn lemma_alnum_run_of_word(s: Seq<char>, w: Seq<char>)
    requires
        forall|j: int| 0 <= j < w.len() ==> spec_is_alnum(#[trigger] w[j]),
        s.len() == 0 || !spec_is_alnum(s.last()),
    ensures
        spec_alnum_run(s + w) == w,
    decreases w.len(),
{
    if w.len() == 0 {
        assert(s + w =~= s);
    } else {
        let d = w.drop_last();
        assert forall|j: int| 0 <= j < d.len() implies spec_is_alnum(#[trigger] d[j]) by {
            assert(d[j] == w[j]);
        }
        lemma_alnum_run_of_word(s, d);
        assert((s + w).drop_last() =~= s + d);
        assert((s + w).last() == w.last());
        assert(spec_is_alnum(w[w.len() - 1]));
        assert(d.push(w.last()) =~= w);
    }
}

/// A period right after an abbreviation ("Mrs.", "Dr.", in any letter case) that is
/// followed by a space or the end of the text never ends a sentence.
pub proof fn lemma_period_after_abbreviation(s: Seq<char>, w: Seq<char>, prev: Option<char>, next: Option<char>)
    requires
        w.len() > 0,
        forall|j: int| 0 <= j < w.len() ==> spec_is_alnum(#[trigger] w[j]),
        s.len() == 0 || !spec_is_alnum(s.last()),
        spec_is_abbreviation(spec_lower_seq(w)),
        next is None || spec_is_whitespace(next->0),
    ensures
        !spec_should_split_period(s + w + "."@, prev, next),
{
    reveal_strlit(".");
    let cur = s + w + "."@;
    assert(cur.last() == '.');
    assert(!spec_is_whitespace('.'));
    assert(spec_trim_end(cur) == cur);
    assert(cur.drop_last() =~= s + w);
    assert(spec_strip_dot(spec_trim_end(cur)) == s + w);
    lemma_alnum_run_of_word(s, w);
    assert((s + w).last() == w[w.len() - 1]);
    assert(spec_last_word(s + w) == w);
}

/// The word-start marker of sentencepiece tokens.
pub open spec fn spec_marker() -> char {
    '\u{2581}'
}

/// `t` with every word-start marker removed.
pub open spec fn spec_clean_token(t: Seq<char>) -> Seq<char>
    decreases t.len(),
{
    if t.len() == 0 {
        seq![]
    } else if t.last() == spec_marker() {
        spec_clean_token(t.drop_last())
    } else {
        spec_clean_token(t.drop_last()).push(t.last())
    }
}

/// Removes the word-start marker '\u{2581}' from a token.
pub fn clean_token(token: &str) -> (r: String)
    ensures
        r@ == spec_clean_token(token@),
{
    let v = char_vec(token);
    let mut r = String::new();
    let mut j: usize = 0;
    while j < v.len()
        invariant
            v@ == token@,
            j <= v@.len(),
            r@ == spec_clean_token(v@.subrange(0, j as int)),
        decreases v@.len() - j,
    {
        assert(v@.subrange(0, j + 1).drop_last() =~= v@.subrange(0, j as int));
        if v[j] != '\u{2581}' {
            push_char(&mut r, v[j]);
        }
        j += 1;
    }
    assert(v@.subrange(0, v@.len() as int) =~= v@);
    r
}

/// The ids found for the characters of a token, up to the first one the vocabulary lacks.
pub open spec fn spec_found_prefix(look: Seq<Option<u32>>) -> Seq<u32>
    decreases look.len(),
{
    if look.len() == 0 {
        seq![]
    } else if look[0] is Some {
        seq![look[0]->0] + spec_found_prefix(look.drop_first())
    } else {
        seq![]
    }
}

/// Whether the vocabulary has every character of the token.
pub open spec fn spec_all_found(look: Seq<Option<u32>>) -> bool {
    forall|j: int| 0 <= j < look.len() ==> (#[trigger] look[j]) is Some
}

/// The ids that one token contributes: a multi-character Chinese token is replaced by
/// the ids of its characters; where a character is missing from the vocabulary, the
/// ids found before it are kept and the token's own id follows them.
pub open spec fn spec_token_ids(clean: Seq<char>, id: u32, look: Seq<Option<u32>>) -> Seq<u32> {
    if spec_is_multichar_chinese(clean) {
        if spec_all_found(look) {
            spec_found_prefix(look)
        } else {
            spec_found_prefix(look).push(id)
        }
    } else {
        seq![id]
    }
}

/// The masked id sequence for the first `n` tokens.
pub open spec fn spec_masked_ids(
    tokens: Seq<Seq<char>>,
    ids: Seq<u32>,
    looks: Seq<Seq<Option<u32>>>,
    n: nat,
) -> Seq<u32>
    decreases n,
{
    if n == 0 {
        seq![]
    } else {
        spec_masked_ids(tokens, ids, looks, (n - 1) as nat)
            + spec_token_ids(spec_clean_token(tokens[n - 1]), ids[n - 1], looks[n - 1])
    }
}

proof fn lemma_found_prefix_append(p: Seq<Option<u32>>, q: Seq<Option<u32>>)
    requires
        spec_all_found(p),
    ensures
        spec_found_prefix(p + q) == spec_found_prefix(p) + spec_found_prefix(q),
    decreases p.len(),
{
    if p.len() == 0 {
        assert(p + q =~= q);
        assert(Seq::<u32>::empty() + spec_found_prefix(q) =~= spec_found_prefix(q));
    } else {
        assert((p + q).drop_first() =~= p.drop_first() + q);
        assert((p + q)[0] == p[0]);
        assert(p[0] is Some);
        assert(spec_all_found(p.drop_first())) by {
            assert forall|j: int| 0 <= j < p.drop_first().len() implies (#[trigger] p.drop_first()[j]) is Some by {
                assert(p.drop_first()[j] == p[j + 1]);
            }
        }
        lemma_found_prefix_append(p.drop_first(), q);
        assert(seq![p[0]->0] + (spec_found_prefix(p.drop_first()) + spec_found_prefix(q))
            =~= (seq![p[0]->0] + spec_found_prefix(p.drop_first())) + spec_found_prefix(q));
    }
}

proof fn lemma_found_prefix_all(p: Seq<Option<u32>>)
    requires
        spec_all_found(p),
    ensures
        spec_found_prefix(p) == p.map_values(|o: Option<u32>| o->0),
    decreases p.len(),
{
    if p.len() > 0 {
        assert(spec_all_found(p.drop_first())) by {
            assert forall|j: int| 0 <= j < p.drop_first().len() implies (#[trigger] p.drop_first()[j]) is Some by {
                assert(p.drop_first()[j] == p[j + 1]);
            }
        }
        assert(p[0] is Some);
        lemma_found_prefix_all(p.drop_first());
        assert(seq![p[0]->0] + p.drop_first().map_values(|o: Option<u32>| o->0)
            =~= p.map_values(|o: Option<u32>| o->0));
    } else {
        assert(p.map_values(|o: Option<u32>| o->0) =~= Seq::<u32>::empty());
    }
}

fn token_ids(clean: &[char], id: u32, look: &Vec<Option<u32>>, out: &mut Vec<u32>)
    requires
        look@.len() == clean@.len(),
    ensures
        final(out)@ == old(out)@ + spec_token_ids(clean@, id, look@),
{
    if is_multichar_chinese_chars(clean) {
        let mut j: usize = 0;
        let ghost start = out@;
        while j < look.len()
            invariant
                j <= look@.len(),
                out@ == start + look@.subrange(0, j as int).map_values(|o: Option<u32>| o->0),
                forall|t: int| 0 <= t < j ==> (#[trigger] look@[t]) is Some,
                start == old(out)@,
                spec_is_multichar_chinese(clean@),
            decreases look@.len() - j,
        {
            match look[j] {
                Some(c) => {
                    out.push(c);
                    proof {
                        assert(out@ =~= start + look@.subrange(0, j + 1).map_values(|o: Option<u32>| o->0));
                    }
                }
                None => {
                    proof {
                        let p = look@.subrange(0, j as int);
                        let q = look@.subrange(j as int, look@.len() as int);
                        assert(look@ =~= p + q);
                        assert(spec_all_found(p)) by {
                            assert forall|t: int| 0 <= t < p.len() implies (#[trigger] p[t]) is Some by {
                                assert(p[t] == look@[t]);
                            }
                        }
                        lemma_found_prefix_append(p, q);
                        lemma_found_prefix_all(p);
                        assert(q[0] is None);
                        assert(spec_found_prefix(q) =~= Seq::<u32>::empty());
                        assert(!spec_all_found(look@)) by {
                            assert(look@[j as int] is None);
                        }
                        assert(spec_found_prefix(look@) =~= spec_found_prefix(p));
                    }
                    out.push(id);
                    assert(out@ =~= old(out)@ + spec_token_ids(clean@, id, look@));
                    return;
                }
            }
            j += 1;
        }
        proof {
            assert(look@.subrange(0, look@.len() as int) =~= look@);
            assert(spec_all_found(look@));
            lemma_found_prefix_all(look@);
        }
        assert(out@ =~= old(out)@ + spec_token_ids(clean@, id, look@));
    } else {
        out.push(id);
        assert(out@ =~= old(out)@ + spec_token_ids(clean@, id, look@));
    }
}

/// Token ids with every multi-character Chinese token spelled out character by character.
/// `tokens`/`ids` are the tokenizer's output; `char_ids[k][j]` is the vocabulary id of the
/// `j`-th character of token `k` once its word-start markers are removed.
pub fn mask_token_ids(tokens: &Vec<String>, ids: &Vec<u32>, char_ids: &Vec<Vec<Option<u32>>>) -> (r: Vec<u32>)
    requires
        char_ids@.len() >= tokens@.len(),
        forall|k: int| 0 <= k < tokens@.len() ==>
            (#[trigger] char_ids@[k])@.len() == spec_clean_token(tokens@[k]@).len(),
    ensures
        r@ == spec_masked_ids(
            strings_view(tokens@),
            ids@,
            char_ids@.map_values(|l: Vec<Option<u32>>| l@),
            if tokens@.len() <= ids@.len() { tokens@.len() } else { ids@.len() },
        ),
{
    let n = if tokens.len() <= ids.len() { tokens.len() } else { ids.len() };
    let ghost looks = char_ids@.map_values(|l: Vec<Option<u32>>| l@);
    let mut out: Vec<u32> = Vec::new();
    let mut k: usize = 0;
    while k < n
        invariant
            n <= tokens@.len(),
            n <= ids@.len(),
            n <= char_ids@.len(),
            k <= n,
            looks == char_ids@.map_values(|l: Vec<Option<u32>>| l@),
            forall|t: int| 0 <= t < tokens@.len() ==>
                (#[trigger] char_ids@[t])@.len() == spec_clean_token(tokens@[t]@).len(),
            out@ == spec_masked_ids(strings_view(tokens@), ids@, looks, k as nat),
        decreases n - k,
    {
        let clean = clean_token(tokens[k].as_str());
        let cv = char_vec(clean.as_str());
        token_ids(cv.as_slice(), ids[k], &char_ids[k], &mut out);
        k += 1;
    }
    out
}


/// A token of two or more CJK ideographs (once its word-start markers are removed),
/// all of which the vocabulary has, adds the ids of its characters, one per
/// character, in place of its own id; any other token adds its own id alone.
pub proof fn lemma_masked_token_contribution(
    tokens: Seq<Seq<char>>,
    ids: Seq<u32>,
    looks: Seq<Seq<Option<u32>>>,
    n: nat,
)
    requires
        n < tokens.len(),
        n < ids.len(),
        n < looks.len(),
        looks[n as int].len() == spec_clean_token(tokens[n as int]).len(),
    ensures
        ({
            let clean = spec_clean_token(tokens[n as int]);
            let before = spec_masked_ids(tokens, ids, looks, n);
            let after = spec_masked_ids(tokens, ids, looks, n + 1);
            &&& (clean.len() >= 2
                && (forall|j: int| 0 <= j < clean.len() ==> '\u{4E00}' <= #[trigger] clean[j] && clean[j] <= '\u{9FFF}')
                && (forall|j: int| 0 <= j < looks[n as int].len() ==> (#[trigger] looks[n as int][j]) is Some))
                ==> after == before + looks[n as int].map_values(|o: Option<u32>| o->0)
                    && after.len() == before.len() + clean.len()
            &&& (clean.len() < 2 || (exists|j: int| 0 <= j < clean.len() && !('\u{4E00}' <= #[trigger] clean[j] && clean[j] <= '\u{9FFF}')))
                ==> after == before.push(ids[n as int])
        }),
{
    let clean = spec_clean_token(tokens[n as int]);
    let look = looks[n as int];
    assert(spec_masked_ids(tokens, ids, looks, n + 1)
        == spec_masked_ids(tokens, ids, looks, n) + spec_token_ids(clean, ids[n as int], look));
    if clean.len() >= 2
        && (forall|j: int| 0 <= j < clean.len() ==> '\u{4E00}' <= #[trigger] clean[j] && clean[j] <= '\u{9FFF}')
        && (forall|j: int| 0 <= j < look.len() ==> (#[trigger] look[j]) is Some) {
        assert(spec_is_multichar_chinese(clean));
        assert(spec_all_found(look));
        lemma_found_prefix_all(look);
    }
    if clean.len() < 2 || (exists|j: int| 0 <= j < clean.len() && !('\u{4E00}' <= #[trigger] clean[j] && clean[j] <= '\u{9FFF}')) {
        assert(!spec_is_multichar_chinese(clean));
        assert(seq![ids[n as int]] =~= seq![ids[n as int]]);
        assert(spec_masked_ids(tokens, ids, looks, n) + seq![ids[n as int]]
            =~= spec_masked_ids(tokens, ids, looks, n).push(ids[n as int]));
    }
}

} // verus!
