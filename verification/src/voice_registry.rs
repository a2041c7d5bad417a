//! The registry of cloned voices: lookup, random choice, and voice id generation.
use vstd::prelude::*;
use rand::Rng;
use crate::chars::{char_vec, is_ascii_alnum, push_char, spec_is_alnum, spec_lower, to_ascii_lower};

verus! {

/// One registered voice: a reference recording with its transcript.
#[derive(Debug)]
pub struct VoiceEntry {
    pub voice_id: String,
    pub label: String,
    pub wav_path: String,
    pub transcript: String,
    pub sample_rate: u32,
    pub created_at: String,
}

impl Clone for VoiceEntry {
    fn clone(&self) -> (r: Self)
        ensures
            r == *self,
    {
        VoiceEntry {
            voice_id: self.voice_id.clone(),
            label: self.label.clone(),
            wav_path: self.wav_path.clone(),
            transcript: self.transcript.clone(),
            sample_rate: self.sample_rate,
            created_at: self.created_at.clone(),
        }
    }
}

/// All registered voices, in registration order; the first is the default voice.
#[derive(Debug)]
pub struct VoiceRegistry {
    pub voices: Vec<VoiceEntry>,
}

impl Default for VoiceRegistry {
    fn default() -> (r: Self)
        ensures
            r.voices@.len() == 0,
    {
        VoiceRegistry { voices: Vec::new() }
    }
}

/// Whether some voice of `voices` has the id `id`.
pub open spec fn spec_has_id(voices: Seq<VoiceEntry>, id: Seq<char>) -> bool {
    exists|i: int| 0 <= i < voices.len() && (#[trigger] voices[i]).voice_id@ == id
}

/// `voices[i]` is the first voice with the id `id`.
pub open spec fn spec_first_with_id(voices: Seq<VoiceEntry>, id: Seq<char>, i: int) -> bool {
    &&& 0 <= i < voices.len()
    &&& voices[i].voice_id@ == id
    &&& forall|j: int| 0 <= j < i ==> (#[trigger] voices[j]).voice_id@ != id
}

/// `rand::rng().random_range(0..n)`: a uniformly chosen index. Claimed: it is below
/// `n` (the range must not be empty, so `n` is positive).
#[verifier::external_body]
fn random_index_below(n: usize) -> (r: usize)
    requires
        n > 0,
    ensures
        r < n,
{
    rand::rng().random_range(0..n)
}

/// `rand::rng().sample(rand::distr::Alphanumeric)`: a random byte. Claimed: an
/// ASCII letter or digit, the characters that distribution draws from.
#[verifier::external_body]
fn random_alphanumeric() -> (b: u8)
    ensures
        (65 <= b <= 90) || (97 <= b <= 122) || (48 <= b <= 57),
{
    rand::rng().sample(rand::distr::Alphanumeric)
}

impl VoiceRegistry {
    fn position_of(&self, voice_id: &str) -> (r: Option<usize>)
        ensures
            r is None <==> !spec_has_id(self.voices@, voice_id@),
            r matches Some(i) ==> spec_first_with_id(self.voices@, voice_id@, i as int),
    {
        let target = voice_id.to_owned();
        let mut i: usize = 0;
        while i < self.voices.len()
            invariant
                target@ == voice_id@,
                i <= self.voices@.len(),
                forall|j: int| 0 <= j < i ==> (#[trigger] self.voices@[j]).voice_id@ != voice_id@,
            decreases self.voices@.len() - i,
        {
            if self.voices[i].voice_id == target {
                return Some(i);
            }
            i += 1;
        }
        None
    }

    /// Whether a voice with this id is registered.
    pub fn contains_id(&self, voice_id: &str) -> (r: bool)
        ensures
            r == spec_has_id(self.voices@, voice_id@),
    {
        self.position_of(voice_id).is_some()
    }

    /// The default voice: the first registered one.
    pub fn default_voice(&self) -> (r: Option<VoiceEntry>)
        ensures
            self.voices@.len() == 0 ==> r is None,
            self.voices@.len() > 0 ==> r == Some(self.voices@[0]),
    {
        if self.voices.len() == 0 {
            None
        } else {
            Some(self.voices[0].clone())
        }
    }

    /// The first voice registered under this id.
    pub fn get_voice(&self, voice_id: &str) -> (r: Option<VoiceEntry>)
        ensures
            r is None <==> !spec_has_id(self.voices@, voice_id@),
            r matches Some(v) ==> exists|i: int| spec_first_with_id(self.voices@, voice_id@, i) && v == self.voices@[i],
    {
        match self.position_of(voice_id) {
            Some(i) => Some(self.voices[i].clone()),
            None => None,
        }
    }

    /// A uniformly chosen registered voice, or `None` when there is none.
    pub fn random_voice(&self) -> (r: Option<VoiceEntry>)
        ensures
            r is None <==> self.voices@.len() == 0,
            r matches Some(v) ==> exists|i: int| 0 <= i < self.voices@.len() && v == self.voices@[i],
    {
        if self.voices.len() == 0 {
            None
        } else {
            let i = random_index_below(self.voices.len());
            Some(self.voices[i].clone())
        }
    }

    /// Registers a voice after all others.
    pub fn add_voice(&mut self, entry: VoiceEntry)
        ensures
            final(self).voices@ == old(self).voices@.push(entry),
    {
        self.voices.push(entry);
    }

    /// Registers an uploaded voice after all others, stamped with the current UTC
    /// time, and returns its entry.
    pub fn register_voice(&mut self, voice_id: String, label: String, wav_path: String, transcript: String, sample_rate: u32) -> (entry: VoiceEntry)
        ensures
            entry.voice_id == voice_id,
            entry.label == label,
            entry.wav_path == wav_path,
            entry.transcript == transcript,
            entry.sample_rate == sample_rate,
            final(self).voices@ == old(self).voices@.push(entry),
    {
        let created_at = utc_now_rfc3339();
        let entry = VoiceEntry { voice_id, label, wav_path, transcript, sample_rate, created_at };
        self.add_voice(entry.clone());
        entry
    }
}

/// Lower-cased letters and digits of `s`, with every other run of characters collapsed
/// into one '-', before the ends are stripped.
pub open spec fn spec_slug_raw(s: Seq<char>) -> Seq<char>
    decreases s.len(),
{
    if s.len() == 0 {
        seq![]
    } else {
        let r = spec_slug_raw(s.drop_last());
        let c = s.last();
        if spec_is_alnum(c) {
            r.push(spec_lower(c))
        } else if r.len() > 0 && r.last() == '-' {
            r
        } else {
            r.push('-')
        }
    }
}

/// `s` without leading '-'.
pub open spec fn spec_strip_lead_dash(s: Seq<char>) -> Seq<char>
    decreases s.len(),
{
    if s.len() > 0 && s[0] == '-' { spec_strip_lead_dash(s.drop_first()) } else { s }
}

/// `s` without trailing '-'.
pub open spec fn spec_strip_trail_dash(s: Seq<char>) -> Seq<char>
    decreases s.len(),
{
    if s.len() > 0 && s.last() == '-' { spec_strip_trail_dash(s.drop_last()) } else { s }
}

/// The slug of a label: lower-case letters and digits joined by single dashes,
/// or "voice" when the label has no letter or digit.
pub open spec fn spec_slugify(label: Seq<char>) -> Seq<char> {
    let t = spec_strip_trail_dash(spec_strip_lead_dash(spec_slug_raw(label)));
    if t.len() == 0 { "voice"@ } else { t }
}

/// Turns a label into a voice id: ASCII letters and digits lower-cased, every other run
/// of characters replaced by one '-', dashes at the ends removed; "voice" if nothing is left.
pub fn slugify(label: &str) -> (r: String)
    ensures
        r@ == spec_slugify(label@),
{
    let v = char_vec(label);
    let mut out: Vec<char> = Vec::new();
    let mut last_dash = false;
    let mut i: usize = 0;
    while i < v.len()
        invariant
            v@ == label@,
            i <= v@.len(),
            out@ == spec_slug_raw(v@.subrange(0, i as int)),
            last_dash == (out@.len() > 0 && out@.last() == '-'),
        decreases v@.len() - i,
    {
        assert(v@.subrange(0, i + 1).drop_last() =~= v@.subrange(0, i as int));
        let ch = v[i];
        if is_ascii_alnum(ch) {
            out.push(to_ascii_lower(ch));
            last_dash = false;
        } else if !last_dash {
            out.push('-');
            last_dash = true;
        }
        i += 1;
    }
    assert(v@.subrange(0, v@.len() as int) =~= v@);
    let ghost raw = out@;
    assert(out@.subrange(0, out@.len() as int) =~= raw);
    let mut a: usize = 0;
    while a < out.len() && out[a] == '-'
        invariant
            a <= out@.len(),
            spec_strip_lead_dash(raw) == spec_strip_lead_dash(out@.subrange(a as int, out@.len() as int)),
            out@ == raw,
        decreases out@.len() - a,
    {
        assert(out@.subrange(a as int, out@.len() as int).drop_first() =~= out@.subrange(a + 1, out@.len() as int));
        a += 1;
    }
    let ghost lead = out@.subrange(a as int, out@.len() as int);
    let mut b: usize = out.len();
    while b > a && out[b - 1] == '-'
        invariant
            a <= b <= out@.len(),
            out@ == raw,
            lead == out@.subrange(a as int, out@.len() as int),
            spec_strip_trail_dash(lead) == spec_strip_trail_dash(out@.subrange(a as int, b as int)),
        decreases b,
    {
        assert(out@.subrange(a as int, b as int).drop_last() =~= out@.subrange(a as int, b - 1));
        b -= 1;
    }
    assert(spec_strip_lead_dash(raw) == lead) by {
        if lead.len() > 0 {
            assert(lead[0] == out@[a as int]);
        }
    }
    if a == b {
        assert(spec_strip_trail_dash(lead).len() == 0);
        return String::from_str("voice");
    }
    let mut s = String::new();
    let mut k = a;
    while k < b
        invariant
            a <= k <= b <= out@.len(),
            s@ == out@.subrange(a as int, k as int),
        decreases b - k,
    {
        push_char(&mut s, out[k]);
        k += 1;
        assert(s@ =~= out@.subrange(a as int, k as int));
    }
    s
}


/// A character allowed in a slug.
pub open spec fn spec_slug_char(c: char) -> bool {
    ('a' <= c && c <= 'z') || ('0' <= c && c <= '9') || c == '-'
}

/// Only slug characters, and no two dashes in a row.
pub open spec fn spec_slug_body(s: Seq<char>) -> bool {
    &&& forall|j: int| 0 <= j < s.len() ==> spec_slug_char(#[trigger] s[j])
    &&& forall|j: int| 0 <= j < s.len() - 1 ==> !(#[trigger] s[j] == '-' && s[j + 1] == '-')
}

/// A well-formed voice id: non-empty slug characters, single dashes, none at either end.
pub open spec fn spec_is_slug(s: Seq<char>) -> bool {
    &&& s.len() > 0
    &&& spec_slug_body(s)
    &&& s[0] != '-'
    &&& s.last() != '-'
}

proof fn lemma_slug_raw_body(s: Seq<char>)
    ensures
        spec_slug_body(spec_slug_raw(s)),
    decreases s.len(),
{
    if s.len() > 0 {
        lemma_slug_raw_body(s.drop_last());
        let r = spec_slug_raw(s.drop_last());
        let t = spec_slug_raw(s);
        if spec_is_alnum(s.last()) || !(r.len() > 0 && r.last() == '-') {
            assert(t.drop_last() == r);
            assert forall|j: int| 0 <= j < t.len() implies spec_slug_char(#[trigger] t[j]) by {
                if j < r.len() {
                    assert(t[j] == r[j]);
                }
            }
            assert forall|j: int| 0 <= j < t.len() - 1 implies !(#[trigger] t[j] == '-' && t[j + 1] == '-') by {
                assert(t[j] == r[j]);
                if j + 1 < r.len() {
                    assert(t[j + 1] == r[j + 1]);
                }
            }
        }
    }
}

proof fn lemma_strip_lead_body(s: Seq<char>)
    requires
        spec_slug_body(s),
    ensures
        spec_slug_body(spec_strip_lead_dash(s)),
        spec_strip_lead_dash(s).len() > 0 ==> spec_strip_lead_dash(s)[0] != '-',
        spec_strip_lead_dash(s).len() <= s.len(),
    decreases s.len(),
{
    if s.len() > 0 && s[0] == '-' {
        let d = s.drop_first();
        assert forall|j: int| 0 <= j < d.len() implies spec_slug_char(#[trigger] d[j]) by {
            assert(d[j] == s[j + 1]);
        }
        assert forall|j: int| 0 <= j < d.len() - 1 implies !(#[trigger] d[j] == '-' && d[j + 1] == '-') by {
            assert(d[j] == s[j + 1]);
            assert(d[j + 1] == s[j + 2]);
        }
        lemma_strip_lead_body(d);
    }
}

proof fn lemma_strip_trail_body(s: Seq<char>)
    requires
        spec_slug_body(s),
        s.len() > 0 ==> s[0] != '-',
    ensures
        spec_slug_body(spec_strip_trail_dash(s)),
        spec_strip_trail_dash(s).len() > 0 ==> spec_strip_trail_dash(s)[0] != '-',
        spec_strip_trail_dash(s).len() > 0 ==> spec_strip_trail_dash(s).last() != '-',
    decreases s.len(),
{
    if s.len() > 0 && s.last() == '-' {
        let d = s.drop_last();
        assert forall|j: int| 0 <= j < d.len() implies spec_slug_char(#[trigger] d[j]) by {
            assert(d[j] == s[j]);
        }
        assert forall|j: int| 0 <= j < d.len() - 1 implies !(#[trigger] d[j] == '-' && d[j + 1] == '-') by {
            assert(d[j] == s[j]);
            assert(d[j + 1] == s[j + 1]);
        }
        if d.len() > 0 {
            assert(d[0] == s[0]);
        }
        lemma_strip_trail_body(d);
    }
}

/// Every slug is a well-formed voice id.
pub proof fn lemma_slugify_is_slug(label: Seq<char>)
    ensures
        spec_is_slug(spec_slugify(label)),
{
    lemma_slug_raw_body(label);
    let r = spec_slug_raw(label);
    lemma_strip_lead_body(r);
    let l = spec_strip_lead_dash(r);
    lemma_strip_trail_body(l);
    let t = spec_strip_trail_dash(l);
    if t.len() == 0 {
        reveal_strlit("voice");
        let v = "voice"@;
        assert(v.len() == 5);
        assert forall|j: int| 0 <= j < v.len() implies spec_slug_char(#[trigger] v[j]) by {}
    }
}

proof fn lemma_slug_raw_fixed(s: Seq<char>, n: int)
    requires
        spec_is_slug(s),
        0 <= n <= s.len(),
    ensures
        spec_slug_raw(s.subrange(0, n)) == s.subrange(0, n),
    decreases n,
{
    if n > 0 {
        lemma_slug_raw_fixed(s, n - 1);
        let p = s.subrange(0, n);
        assert(p.drop_last() =~= s.subrange(0, n - 1));
        let c = s[n - 1];
        assert(spec_slug_char(c));
        if c == '-' {
            assert(n - 1 > 0);
            assert(!(s[n - 2] == '-' && s[n - 1] == '-'));
            assert(s.subrange(0, n - 1).last() == s[n - 2]);
        }
        assert(s.subrange(0, n - 1).push(c) =~= p);
    }
}

/// Slugifying a slug gives it back: a voice id is its own slug.
pub proof fn lemma_slugify_idempotent(label: Seq<char>)
    ensures
        spec_slugify(spec_slugify(label)) == spec_slugify(label),
{
    lemma_slugify_is_slug(label);
    let s = spec_slugify(label);
    lemma_slug_raw_fixed(s, s.len() as int);
    assert(s.subrange(0, s.len() as int) =~= s);
    assert(spec_strip_lead_dash(s) == s);
    assert(spec_strip_trail_dash(s) == s);
}


/// How many random suffixes are drawn before the suffixes are tried in order.
pub const RANDOM_SUFFIX_ATTEMPTS: usize = 64;

/// How many suffixes there are: six characters, each one of 36.
pub const SUFFIX_COUNT: u64 = 2176782336;

/// A lower-case ASCII letter or a digit.
pub open spec fn spec_lower_alnum(c: char) -> bool {
    ('a' <= c && c <= 'z') || ('0' <= c && c <= '9')
}

/// A suffix put after "<slug>-" when the slug is taken: six lower-case letters and
/// digits.
pub open spec fn spec_id_suffix(suffix: Seq<char>) -> bool {
    suffix.len() == 6 && forall|j: int| 0 <= j < suffix.len() ==> spec_lower_alnum(#[trigger] suffix[j])
}

/// The character of digit `d` (below 36): 'a' to 'z', then '0' to '9'.
pub open spec fn spec_digit_char(d: int) -> char {
    if d < 26 { ((97 + d) as u8) as char } else { ((22 + d) as u8) as char }
}

/// The digit a lower-case letter or digit stands for (see `spec_digit_char`).
pub open spec fn spec_char_digit(c: char) -> int {
    if 'a' <= c && c <= 'z' { c as int - 97 } else { c as int - 22 }
}

/// The `len` characters that write `k` in base 36, most significant first.
pub open spec fn spec_code(k: nat, len: nat) -> Seq<char>
    decreases len,
{
    if len == 0 {
        Seq::empty()
    } else {
        spec_code(k / 36, (len - 1) as nat).push(spec_digit_char((k % 36) as int))
    }
}

/// The number that the characters of `s` write in base 36.
pub open spec fn spec_code_value(s: Seq<char>) -> int
    decreases s.len(),
{
    if s.len() == 0 {
        0
    } else {
        spec_code_value(s.drop_last()) * 36 + spec_char_digit(s.last())
    }
}

/// 36 to the power `n`.
pub open spec fn spec_pow36(n: nat) -> nat
    decreases n,
{
    if n == 0 { 1 } else { 36 * spec_pow36((n - 1) as nat) }
}

proof fn lemma_digit_roundtrip(d: int)
    requires
        0 <= d < 36,
    ensures
        spec_lower_alnum(spec_digit_char(d)),
        spec_char_digit(spec_digit_char(d)) == d,
{
}

proof fn lemma_char_roundtrip(c: char)
    requires
        spec_lower_alnum(c),
    ensures
        0 <= spec_char_digit(c) < 36,
        spec_digit_char(spec_char_digit(c)) == c,
{
}

/// Every code is a run of `len` lower-case letters and digits.
proof fn lemma_code_chars(k: nat, len: nat)
    ensures
        spec_code(k, len).len() == len,
        forall|j: int| 0 <= j < len ==> spec_lower_alnum(#[trigger] spec_code(k, len)[j]),
    decreases len,
{
    if len > 0 {
        lemma_code_chars(k / 36, (len - 1) as nat);
        lemma_digit_roundtrip((k % 36) as int);
        let p = spec_code(k / 36, (len - 1) as nat);
        assert forall|j: int| 0 <= j < len implies spec_lower_alnum(#[trigger] spec_code(k, len)[j]) by {
            if j < len - 1 {
                assert(spec_code(k, len)[j] == p[j]);
            }
        }
    }
}

/// Every run of lower-case letters and digits is the code of its value, and that
/// value is below 36 to the power of its length.
proof fn lemma_code_of_value(s: Seq<char>)
    requires
        forall|j: int| 0 <= j < s.len() ==> spec_lower_alnum(#[trigger] s[j]),
    ensures
        0 <= spec_code_value(s) < spec_pow36(s.len()),
        spec_code(spec_code_value(s) as nat, s.len()) == s,
    decreases s.len(),
{
    if s.len() > 0 {
        let p = s.drop_last();
        assert forall|j: int| 0 <= j < p.len() implies spec_lower_alnum(#[trigger] p[j]) by {
            assert(p[j] == s[j]);
        }
        lemma_code_of_value(p);
        let c = s.last();
        assert(spec_lower_alnum(c)) by {
            assert(c == s[s.len() - 1]);
        }
        lemma_char_roundtrip(c);
        let a = spec_code_value(p);
        let b = spec_char_digit(c);
        let m = spec_pow36(p.len());
        let v = a * 36 + b;
        assert(v / 36 == a && v % 36 == b) by (nonlinear_arith)
            requires 0 <= a, 0 <= b < 36, v == a * 36 + b;
        assert(0 <= v < 36 * m) by (nonlinear_arith)
            requires 0 <= a < m, 0 <= b < 36, v == a * 36 + b;
        assert(spec_code_value(s) == v);
        assert(spec_pow36(s.len()) == 36 * m);
        assert(spec_code(v as nat, s.len()) =~= spec_code(a as nat, p.len()).push(spec_digit_char(b)));
        assert(s =~= p.push(c));
    }
}

proof fn lemma_suffix_count()
    ensures
        spec_pow36(6) == SUFFIX_COUNT,
{
    reveal_with_fuel(spec_pow36, 7);
}

/// The character of digit `d`.
fn digit_char(d: u64) -> (c: char)
    requires
        d < 36,
    ensures
        c == spec_digit_char(d as int),
{
    if d < 26 {
        ((97 + d) as u8) as char
    } else {
        ((22 + d) as u8) as char
    }
}

/// The code of `k` in `len` characters (see `spec_code`).
fn code_string(k: u64, len: usize) -> (s: String)
    ensures
        s@ == spec_code(k as nat, len as nat),
    decreases len,
{
    if len == 0 {
        String::new()
    } else {
        let mut s = code_string(k / 36, len - 1);
        push_char(&mut s, digit_char(k % 36));
        s
    }
}

/// A slug, a '-' and a suffix of lower-case letters and digits is a slug.
proof fn lemma_slug_with_suffix(base: Seq<char>, suffix: Seq<char>)
    requires
        spec_is_slug(base),
        spec_id_suffix(suffix),
    ensures
        spec_is_slug(base + seq!['-'] + suffix),
{
    let r = base + seq!['-'] + suffix;
    let n = base.len();
    assert forall|j: int| 0 <= j < r.len() implies spec_slug_char(#[trigger] r[j]) by {
        if j < n {
            assert(r[j] == base[j]);
        } else if j > n {
            assert(r[j] == suffix[j - n - 1]);
        }
    }
    assert forall|j: int| 0 <= j < r.len() - 1 implies !(#[trigger] r[j] == '-' && r[j + 1] == '-') by {
        if j < n - 1 {
            assert(r[j] == base[j] && r[j + 1] == base[j + 1]);
        } else if j == n - 1 {
            assert(r[j] == base.last());
        } else if j == n {
            assert(r[j + 1] == suffix[0]);
        } else {
            assert(r[j] == suffix[j - n - 1]);
        }
    }
    assert(r[0] == base[0]);
    assert(r.last() == suffix.last());
}

/// Six random lower-case letters and digits.
fn random_suffix() -> (r: String)
    ensures
        r@.len() == 6,
        spec_id_suffix(r@),
{
    let mut s = String::new();
    let mut k: usize = 0;
    while k < 6
        invariant
            k <= 6,
            s@.len() == k,
            forall|j: int| 0 <= j < k ==> spec_lower_alnum(#[trigger] s@[j]),
        decreases 6 - k,
    {
        let b = random_alphanumeric();
        let c = to_ascii_lower(b as char);
        push_char(&mut s, c);
        k += 1;
    }
    s
}

/// A voice id for a new voice labelled `label`: the label's slug when it is free,
/// otherwise the slug, a '-' and a suffix of six lower-case letters and digits that
/// makes it free. Suffixes are drawn at random; after many collisions they are tried
/// in order. A taken slug whose every suffix is taken too is left out: no id of this
/// form is free then.
pub fn generate_voice_id(label: &str, registry: &VoiceRegistry) -> (r: String)
    requires
        spec_has_id(registry.voices@, spec_slugify(label@)) ==> exists|suffix: Seq<char>|
            spec_id_suffix(suffix) && !spec_has_id(registry.voices@, spec_slugify(label@) + seq!['-'] + suffix),
    ensures
        !spec_has_id(registry.voices@, r@),
        !spec_has_id(registry.voices@, spec_slugify(label@)) ==> r@ == spec_slugify(label@),
        spec_has_id(registry.voices@, spec_slugify(label@)) ==> exists|suffix: Seq<char>|
            r@ == spec_slugify(label@) + seq!['-'] + suffix && spec_id_suffix(suffix),
        spec_is_slug(r@),
{
    proof {
        lemma_slugify_is_slug(label@);
    }
    let base = slugify(label);
    if !registry.contains_id(base.as_str()) {
        return base;
    }
    let mut attempt: usize = 0;
    while attempt < RANDOM_SUFFIX_ATTEMPTS
        invariant
            base@ == spec_slugify(label@),
            spec_has_id(registry.voices@, base@),
            spec_is_slug(base@),
        decreases RANDOM_SUFFIX_ATTEMPTS - attempt,
    {
        let mut cand = base.clone();
        push_char(&mut cand, '-');
        let suffix = random_suffix();
        cand.append(suffix.as_str());
        assert(cand@ =~= base@ + seq!['-'] + suffix@);
        if !registry.contains_id(cand.as_str()) {
            proof {
                lemma_slug_with_suffix(base@, suffix@);
            }
            return cand;
        }
        attempt += 1;
    }
    let mut k: u64 = 0;
    while k < SUFFIX_COUNT
        invariant
            base@ == spec_slugify(label@),
            spec_has_id(registry.voices@, base@),
            spec_is_slug(base@),
            forall|j: nat| j < k ==> spec_has_id(registry.voices@, base@ + seq!['-'] + #[trigger] spec_code(j, 6)),
        decreases SUFFIX_COUNT - k,
    {
        let suffix = code_string(k, 6);
        let mut cand = base.clone();
        push_char(&mut cand, '-');
        cand.append(suffix.as_str());
        assert(cand@ =~= base@ + seq!['-'] + suffix@);
        if !registry.contains_id(cand.as_str()) {
            proof {
                lemma_code_chars(k as nat, 6);
                lemma_slug_with_suffix(base@, suffix@);
            }
            return cand;
        }
        k += 1;
    }
    proof {
        let s = choose|suffix: Seq<char>|
            spec_id_suffix(suffix) && !spec_has_id(registry.voices@, base@ + seq!['-'] + suffix);
        lemma_code_of_value(s);
        lemma_suffix_count();
        let j = spec_code_value(s) as nat;
        assert(spec_code(j, 6) == s);
        assert(spec_has_id(registry.voices@, base@ + seq!['-'] + spec_code(j, 6)));
    }
    base
}


/// `chrono::Utc::now().to_rfc3339()`: the current UTC time as RFC 3339 text. It
/// depends on the clock, so nothing is stated of it.
#[verifier::external_body]
fn utc_now_rfc3339() -> String {
    chrono::Utc::now().to_rfc3339()
}

/// After a voice is registered under an id that no other voice has, a lookup of
/// that id finds it; lookups of every other id find what they found before.
pub proof fn lemma_lookup_after_add(voices: Seq<VoiceEntry>, entry: VoiceEntry, id: Seq<char>, i: int)
    requires
        !spec_has_id(voices, entry.voice_id@),
    ensures
        spec_first_with_id(voices.push(entry), entry.voice_id@, voices.len() as int),
        id != entry.voice_id@ ==> (spec_first_with_id(voices.push(entry), id, i) <==> spec_first_with_id(voices, id, i)),
        spec_has_id(voices.push(entry), id) <==> (spec_has_id(voices, id) || id == entry.voice_id@),
{
    let w = voices.push(entry);
    assert(w[voices.len() as int] == entry);
    assert forall|j: int| 0 <= j < voices.len() implies (#[trigger] w[j]).voice_id@ != entry.voice_id@ by {
        assert(w[j] == voices[j]);
    }
    if spec_has_id(w, id) {
        let k = choose|k: int| 0 <= k < w.len() && (#[trigger] w[k]).voice_id@ == id;
        if k < voices.len() {
            assert(voices[k] == w[k]);
        }
    }
    if spec_has_id(voices, id) {
        let k = choose|k: int| 0 <= k < voices.len() && (#[trigger] voices[k]).voice_id@ == id;
        assert(w[k] == voices[k]);
    }
    if id != entry.voice_id@ {
        if spec_first_with_id(w, id, i) {
            assert(i < voices.len());
            assert(voices[i] == w[i]);
            assert forall|j: int| 0 <= j < i implies (#[trigger] voices[j]).voice_id@ != id by {
                assert(w[j] == voices[j]);
            }
        }
        if spec_first_with_id(voices, id, i) {
            assert(w[i] == voices[i]);
            assert forall|j: int| 0 <= j < i implies (#[trigger] w[j]).voice_id@ != id by {
                assert(w[j] == voices[j]);
            }
        }
    }
}

} // verus!
