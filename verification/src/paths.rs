//! '/'-separated path names: final component, stem, joining.
use vstd::prelude::*;
use crate::chars::{char_vec, push_char, string_from_chars};

verus! {

/// `s` without trailing '/'.
pub open spec fn spec_strip_slashes(s: Seq<char>) -> Seq<char>
    decreases s.len(),
{
    if s.len() > 0 && s.last() == '/' { spec_strip_slashes(s.drop_last()) } else { s }
}

/// The characters after the last '/' of `s` (all of `s` if it has none).
pub open spec fn spec_last_segment(s: Seq<char>) -> Seq<char>
    decreases s.len(),
{
    if s.len() == 0 || s.last() == '/' {
        seq![]
    } else {
        spec_last_segment(s.drop_last()).push(s.last())
    }
}

pub proof fn lemma_strip_slashes_len(s: Seq<char>)
    ensures
        spec_strip_slashes(s).len() <= s.len(),
        spec_strip_slashes(s) == s.subrange(0, spec_strip_slashes(s).len() as int),
        spec_strip_slashes(s).len() > 0 ==> spec_strip_slashes(s).last() != '/',
    decreases s.len(),
{
    if s.len() > 0 && s.last() == '/' {
        lemma_strip_slashes_len(s.drop_last());
        assert(s.drop_last().subrange(0, spec_strip_slashes(s).len() as int)
            =~= s.subrange(0, spec_strip_slashes(s).len() as int));
    } else {
        assert(s.subrange(0, s.len() as int) =~= s);
    }
}

pub proof fn lemma_last_segment_len(s: Seq<char>)
    ensures
        spec_last_segment(s).len() <= s.len(),
        spec_last_segment(s) == s.subrange(s.len() - spec_last_segment(s).len(), s.len() as int),
        forall|j: int| 0 <= j < spec_last_segment(s).len() ==> #[trigger] spec_last_segment(s)[j] != '/',
        spec_last_segment(s).len() < s.len() ==> s[s.len() - spec_last_segment(s).len() - 1] == '/',
    decreases s.len(),
{
    if !(s.len() == 0 || s.last() == '/') {
        lemma_last_segment_len(s.drop_last());
        let t = spec_last_segment(s.drop_last());
        assert(s.drop_last().subrange(s.drop_last().len() - t.len(), s.drop_last().len() as int).push(s.last())
            =~= s.subrange(s.len() - t.len() - 1, s.len() as int));
        assert forall|j: int| 0 <= j < spec_last_segment(s).len() implies #[trigger] spec_last_segment(s)[j] != '/' by {
            if j < t.len() {
                assert(spec_last_segment(s)[j] == t[j]);
            }
        }
    } else {
        assert(s.subrange(s.len() as int, s.len() as int) =~= Seq::<char>::empty());
    }
}

/// The final component of a '/'-separated path, as `Path::file_name` gives it on Unix:
/// trailing '/' and "." components are skipped; `None` for ".." or when there is no
/// component at all.
pub open spec fn spec_file_name(s: Seq<char>) -> Option<Seq<char>>
    decreases s.len(),
{
    let t = spec_strip_slashes(s);
    let c = spec_last_segment(t);
    if c.len() == 0 {
        None
    } else if c == seq!['.'] {
        proof {
            lemma_strip_slashes_len(s);
        }
        spec_file_name(t.subrange(0, t.len() - 1))
    } else if c == seq!['.', '.'] {
        None
    } else {
        Some(c)
    }
}

/// Range of the final component of `v[..end]`, if it has one.
fn file_name_range(v: &[char]) -> (r: Option<(usize, usize)>)
    ensures
        r is None <==> spec_file_name(v@) is None,
        r matches Some((a, b)) ==> a <= b <= v@.len() && spec_file_name(v@) == Some(v@.subrange(a as int, b as int)),
{
    let mut end: usize = v.len();
    assert(v@.subrange(0, end as int) =~= v@);
    loop
        invariant
            end <= v@.len(),
            spec_file_name(v@) == spec_file_name(v@.subrange(0, end as int)),
        decreases end,
    {
        let ghost s = v@.subrange(0, end as int);
        let mut e = end;
        while e > 0 && v[e - 1] == '/'
            invariant
                e <= end <= v@.len(),
                spec_strip_slashes(s) == spec_strip_slashes(v@.subrange(0, e as int)),
            decreases e,
        {
            assert(v@.subrange(0, e as int).drop_last() =~= v@.subrange(0, e - 1));
            e -= 1;
        }
        let ghost t = v@.subrange(0, e as int);
        assert(spec_strip_slashes(s) == t);
        let mut a = e;
        while a > 0 && v[a - 1] != '/'
            invariant
                a <= e <= v@.len(),
                t == v@.subrange(0, e as int),
                spec_last_segment(t) == spec_last_segment(v@.subrange(0, a as int)) + v@.subrange(a as int, e as int),
            decreases a,
        {
            assert(v@.subrange(0, a as int).drop_last() =~= v@.subrange(0, a - 1));
            assert(v@.subrange(a - 1, e as int) =~= seq![v@[a - 1]] + v@.subrange(a as int, e as int));
            assert(spec_last_segment(v@.subrange(0, a - 1)).push(v@[a - 1]) + v@.subrange(a as int, e as int)
                =~= spec_last_segment(v@.subrange(0, a - 1)) + v@.subrange(a - 1, e as int));
            a -= 1;
        }
        assert(spec_last_segment(v@.subrange(0, a as int)) =~= Seq::<char>::empty());
        let ghost c = v@.subrange(a as int, e as int);
        assert(spec_last_segment(t) =~= c);
        if a == e {
            return None;
        }
        if e - a == 1 && v[a] == '.' {
            assert(c =~= seq!['.']);
            assert(t.subrange(0, t.len() - 1) =~= v@.subrange(0, e - 1));
            end = e - 1;
            continue;
        }
        if e - a == 2 && v[a] == '.' && v[a + 1] == '.' {
            assert(c =~= seq!['.', '.']);
            return None;
        }
        assert(c != seq!['.']) by {
            if c.len() == 1 {
                assert(c[0] == v@[a as int]);
            }
        }
        assert(c != seq!['.', '.']) by {
            if c.len() == 2 {
                assert(c[0] == v@[a as int]);
                assert(c[1] == v@[a + 1]);
            }
        }
        return Some((a, e));
    }
}

/// The final component of a '/'-separated path (see `spec_file_name`).
pub fn file_name(path: &str) -> (r: Option<String>)
    ensures
        r is None <==> spec_file_name(path@) is None,
        r matches Some(n) ==> spec_file_name(path@) == Some(n@),
{
    let v = char_vec(path);
    match file_name_range(v.as_slice()) {
        Some((a, b)) => Some(string_from_chars(v.as_slice(), a, b)),
        None => None,
    }
}

/// Index of the last '.' of `s`, or -1.
pub open spec fn spec_last_dot(s: Seq<char>) -> int
    decreases s.len(),
{
    if s.len() == 0 {
        -1
    } else if s.last() == '.' {
        s.len() - 1
    } else {
        spec_last_dot(s.drop_last())
    }
}

/// The stem of a file name, as `Path::file_stem` gives it: the name up to its last '.',
/// or the whole name when that '.' is the first character or there is none.
pub open spec fn spec_stem_of(name: Seq<char>) -> Seq<char> {
    if spec_last_dot(name) <= 0 { name } else { name.subrange(0, spec_last_dot(name)) }
}

/// The stem of the final component of `s`.
pub open spec fn spec_file_stem(s: Seq<char>) -> Option<Seq<char>> {
    match spec_file_name(s) {
        Some(n) => Some(spec_stem_of(n)),
        None => None,
    }
}

/// The file name of an uploaded file without its extension, e.g. "alice" for "dir/alice.wav".
pub fn stem_from_filename(name: &str) -> (r: Option<String>)
    ensures
        r is None <==> spec_file_stem(name@) is None,
        r matches Some(t) ==> spec_file_stem(name@) == Some(t@),
{
    match file_name(name) {
        None => None,
        Some(n) => {
            let v = char_vec(n.as_str());
            let mut k: usize = v.len();
            assert(v@.subrange(0, k as int) =~= v@);
            while k > 0 && v[k - 1] != '.'
                invariant
                    k <= v@.len(),
                    spec_last_dot(v@) == spec_last_dot(v@.subrange(0, k as int)),
                decreases k,
            {
                assert(v@.subrange(0, k as int).drop_last() =~= v@.subrange(0, k - 1));
                k -= 1;
            }
            if k <= 1 {
                assert(spec_last_dot(v@) <= 0) by {
                    if k == 1 {
                        assert(v@.subrange(0, 1).last() == '.');
                    }
                }
                Some(n)
            } else {
                assert(spec_last_dot(v@) == k - 1) by {
                    assert(v@.subrange(0, k as int).last() == '.');
                }
                Some(string_from_chars(v.as_slice(), 0, k - 1))
            }
        }
    }
}

/// `base` and `rel` joined as `Path::join` does: `rel` when it is absolute, otherwise
/// `rel` appended to `base` with a '/' between them unless `base` is empty or already
/// ends with '/'.
pub open spec fn spec_join_path(base: Seq<char>, rel: Seq<char>) -> Seq<char> {
    if rel.len() > 0 && rel[0] == '/' {
        rel
    } else if base.len() == 0 || base.last() == '/' {
        base + rel
    } else {
        base + seq!['/'] + rel
    }
}

/// Joins two '/'-separated paths (see `spec_join`).
pub fn join_path(base: &str, rel: &str) -> (r: String)
    ensures
        r@ == spec_join_path(base@, rel@),
{
    let rel_is_abs = rel.unicode_len() > 0 && rel.get_char(0) == '/';
    if rel_is_abs {
        return String::from_str(rel);
    }
    let n = base.unicode_len();
    let mut s = String::from_str(base);
    if !(n == 0 || base.get_char(n - 1) == '/') {
        push_char(&mut s, '/');
    }
    s.append(rel);
    s
}

/// A path from the registry resolved against the server's base directory: kept when
/// absolute, otherwise joined to the base directory.
pub fn resolve_path(base_dir: &str, path: &str) -> (r: String)
    ensures
        r@ == spec_join_path(base_dir@, path@),
{
    join_path(base_dir, path)
}

} // verus!
