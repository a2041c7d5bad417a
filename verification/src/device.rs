//! Choice of the compute device, of the weight precision, and of the model directory.
use vstd::prelude::*;
use crate::chars::{char_vec, spec_is_digit, spec_lower_seq, spec_trim, to_ascii_lower, trim_end_index, trim_start_index};
use crate::paths::{file_name, join_path, spec_file_name, spec_join_path};
use crate::text::chars_eq;

verus! {

/// The device a model runs on.
#[derive(Debug, Clone, Copy, PartialEq, Eq, Structural)]
pub enum DeviceChoice {
    Cpu,
    /// A CUDA (or ROCm/HIP) device by index.
    Cuda(usize),
}

/// The digits part of `s`: without one leading '+'.
pub open spec fn spec_unsigned_digits(s: Seq<char>) -> Seq<char> {
    if s.len() > 0 && s[0] == '+' { s.drop_first() } else { s }
}

/// Only decimal digits.
pub open spec fn spec_all_digits(d: Seq<char>) -> bool {
    forall|j: int| 0 <= j < d.len() ==> spec_is_digit(#[trigger] d[j])
}

/// The value of a string of decimal digits.
pub open spec fn spec_digits_value(d: Seq<char>) -> int
    decreases d.len(),
{
    if d.len() == 0 {
        0
    } else {
        spec_digits_value(d.drop_last()) * 10 + (d.last() as int - '0' as int)
    }
}

/// `s` parsed as `usize::from_str` does: an optional '+', then one or more decimal
/// digits whose value fits in a `usize`.
pub open spec fn spec_parse_usize(s: Seq<char>) -> Option<usize> {
    let d = spec_unsigned_digits(s);
    if d.len() > 0 && spec_all_digits(d) && spec_digits_value(d) <= usize::MAX {
        Some(spec_digits_value(d) as usize)
    } else {
        None
    }
}

proof fn lemma_digits_value_nonneg(d: Seq<char>)
    requires
        forall|j: int| 0 <= j < d.len() ==> spec_is_digit(#[trigger] d[j]),
    ensures
        spec_digits_value(d) >= 0,
    decreases d.len(),
{
    if d.len() > 0 {
        assert forall|j: int| 0 <= j < d.drop_last().len() implies spec_is_digit(#[trigger] d.drop_last()[j]) by {
            assert(d.drop_last()[j] == d[j]);
        }
        lemma_digits_value_nonneg(d.drop_last());
        assert(spec_is_digit(d[d.len() - 1]));
    }
}

proof fn lemma_digits_value_mono(d: Seq<char>, k: int)
    requires
        0 <= k <= d.len(),
        forall|j: int| 0 <= j < d.len() ==> spec_is_digit(#[trigger] d[j]),
    ensures
        spec_digits_value(d.subrange(0, k)) <= spec_digits_value(d),
    decreases d.len() - k,
{
    if k < d.len() {
        lemma_digits_value_mono(d, k + 1);
        let p = d.subrange(0, k + 1);
        assert(p.drop_last() =~= d.subrange(0, k));
        assert(forall|j: int| 0 <= j < k ==> spec_is_digit(#[trigger] d.subrange(0, k)[j])) by {
            assert forall|j: int| 0 <= j < k implies spec_is_digit(#[trigger] d.subrange(0, k)[j]) by {
                assert(d.subrange(0, k)[j] == d[j]);
            }
        }
        lemma_digits_value_nonneg(d.subrange(0, k));
        assert(spec_is_digit(d[k]));
    } else {
        assert(d.subrange(0, k) =~= d);
    }
}

/// Parses a device index (see `spec_parse_usize`) from `s[start..]`.
pub fn parse_usize(s: &[char], start: usize) -> (r: Option<usize>)
    requires
        start <= s@.len(),
    ensures
        r == spec_parse_usize(s@.subrange(start as int, s@.len() as int)),
{
    let ghost full = s@.subrange(start as int, s@.len() as int);
    let mut i = start;
    if i < s.len() && s[i] == '+' {
        i += 1;
    }
    let ghost d = s@.subrange(i as int, s@.len() as int);
    assert(d =~= spec_unsigned_digits(full));
    if i == s.len() {
        return None;
    }
    let mut k = i;
    while k < s.len()
        invariant
            i <= k <= s@.len(),
            d == s@.subrange(i as int, s@.len() as int),
            d == spec_unsigned_digits(full),
            full == s@.subrange(start as int, s@.len() as int),
            forall|t: int| 0 <= t < k - i ==> spec_is_digit(#[trigger] d[t]),
        decreases s@.len() - k,
    {
        if !('0' <= s[k] && s[k] <= '9') {
            assert(!spec_is_digit(d[k - i]));
            assert(!spec_all_digits(d));
            return None;
        }
        k += 1;
    }
    assert(spec_all_digits(d));
    let mut v: usize = 0;
    let mut j = i;
    while j < s.len()
        invariant
            i <= j <= s@.len(),
            d == s@.subrange(i as int, s@.len() as int),
            d == spec_unsigned_digits(full),
            full == s@.subrange(start as int, s@.len() as int),
            spec_all_digits(d),
            v == spec_digits_value(d.subrange(0, j - i)),
        decreases s@.len() - j,
    {
        let c = s[j];
        assert(c == d[j - i]);
        let digit = (c as u32 - '0' as u32) as usize;
        assert(d.subrange(0, j + 1 - i).drop_last() =~= d.subrange(0, j - i));
        if v > (usize::MAX - digit) / 10 {
            proof {
                lemma_digits_value_mono(d, j + 1 - i);
                assert(v * 10 + digit > usize::MAX) by (nonlinear_arith)
                    requires v > (usize::MAX - digit) / 10, digit <= 9;
            }
            return None;
        }
        assert(v * 10 + digit <= usize::MAX) by (nonlinear_arith)
            requires v <= (usize::MAX - digit) / 10, digit <= 9;
        v = v * 10 + digit;
        j += 1;
    }
    assert(d.subrange(0, d.len() as int) =~= d);
    Some(v)
}

/// The device override as the server and the converter read it: "cpu", "cuda",
/// "cuda:<index>", ignoring surrounding whitespace and ASCII case; anything else is the CPU.
pub open spec fn spec_parse_device(device: Seq<char>) -> DeviceChoice {
    let n = spec_lower_seq(spec_trim(device));
    if n == "cpu"@ {
        DeviceChoice::Cpu
    } else if n == "cuda"@ {
        DeviceChoice::Cuda(0)
    } else if n.len() >= 5 && n.subrange(0, 5) == "cuda:"@ && spec_parse_usize(n.subrange(5, n.len() as int)) is Some {
        DeviceChoice::Cuda(spec_parse_usize(n.subrange(5, n.len() as int))->0)
    } else {
        DeviceChoice::Cpu
    }
}

/// The device override as the command-line synthesiser reads it: like
/// `spec_parse_device`, and "rocm", "hip", "rocm:<index>", "hip:<index>" name CUDA devices too.
pub open spec fn spec_parse_cli_device(device: Seq<char>) -> DeviceChoice {
    let n = spec_lower_seq(spec_trim(device));
    if n == "cpu"@ {
        DeviceChoice::Cpu
    } else if n == "cuda"@ || n == "rocm"@ || n == "hip"@ {
        DeviceChoice::Cuda(0)
    } else if n.len() >= 5 && n.subrange(0, 5) == "cuda:"@ && spec_parse_usize(n.subrange(5, n.len() as int)) is Some {
        DeviceChoice::Cuda(spec_parse_usize(n.subrange(5, n.len() as int))->0)
    } else if n.len() >= 5 && n.subrange(0, 5) == "rocm:"@ && spec_parse_usize(n.subrange(5, n.len() as int)) is Some {
        DeviceChoice::Cuda(spec_parse_usize(n.subrange(5, n.len() as int))->0)
    } else if n.len() >= 4 && n.subrange(0, 4) == "hip:"@ && spec_parse_usize(n.subrange(4, n.len() as int)) is Some {
        DeviceChoice::Cuda(spec_parse_usize(n.subrange(4, n.len() as int))->0)
    } else {
        DeviceChoice::Cpu
    }
}

/// The trimmed, lower-cased characters of `device`.
fn normalized(device: &str) -> (r: Vec<char>)
    ensures
        r@ == spec_lower_seq(spec_trim(device@)),
{
    let v = char_vec(device);
    let n = v.len();
    assert(v@.subrange(0, n as int) =~= v@);
    let a = trim_start_index(v.as_slice(), n);
    let b = trim_end_index(v.as_slice(), a, n);
    let mut r: Vec<char> = Vec::new();
    let mut i = a;
    while i < b
        invariant
            a <= i <= b <= v@.len(),
            r@ == spec_lower_seq(v@.subrange(a as int, i as int)),
        decreases b - i,
    {
        r.push(to_ascii_lower(v[i]));
        i += 1;
        assert(r@ =~= spec_lower_seq(v@.subrange(a as int, i as int)));
    }
    r
}

/// Index parsed after a prefix of `n`, when `n` starts with `prefix` and the rest parses.
fn indexed(n: &[char], prefix: &str) -> (r: Option<usize>)
    ensures
        r == (if n@.len() >= prefix@.len() && n@.subrange(0, prefix@.len() as int) == prefix@ {
            spec_parse_usize(n@.subrange(prefix@.len() as int, n@.len() as int))
        } else {
            None
        }),
{
    let k = prefix.unicode_len();
    if n.len() < k {
        return None;
    }
    if !chars_eq(n, 0, k, prefix) {
        return None;
    }
    parse_usize(n, k)
}

/// Reads a `--device` override as the server and the converter do (see `spec_parse_device`).
pub fn parse_device_override(device: &str) -> (r: DeviceChoice)
    ensures
        r == spec_parse_device(device@),
{
    let n = normalized(device);
    let len = n.len();
    assert(n@.subrange(0, len as int) =~= n@);
    proof {
        reveal_strlit("cuda:");
    }
    if chars_eq(n.as_slice(), 0, len, "cpu") {
        return DeviceChoice::Cpu;
    }
    if chars_eq(n.as_slice(), 0, len, "cuda") {
        return DeviceChoice::Cuda(0);
    }
    match indexed(n.as_slice(), "cuda:") {
        Some(i) => DeviceChoice::Cuda(i),
        None => DeviceChoice::Cpu,
    }
}

/// Reads a `--device` override as the command-line synthesiser does
/// (see `spec_parse_cli_device`).
pub fn parse_cli_device_override(device: &str) -> (r: DeviceChoice)
    ensures
        r == spec_parse_cli_device(device@),
{
    let n = normalized(device);
    let len = n.len();
    assert(n@.subrange(0, len as int) =~= n@);
    proof {
        reveal_strlit("cuda:");
        reveal_strlit("rocm:");
        reveal_strlit("hip:");
    }
    if chars_eq(n.as_slice(), 0, len, "cpu") {
        return DeviceChoice::Cpu;
    }
    if chars_eq(n.as_slice(), 0, len, "cuda") || chars_eq(n.as_slice(), 0, len, "rocm")
        || chars_eq(n.as_slice(), 0, len, "hip") {
        return DeviceChoice::Cuda(0);
    }
    if let Some(i) = indexed(n.as_slice(), "cuda:") {
        return DeviceChoice::Cuda(i);
    }
    if let Some(i) = indexed(n.as_slice(), "rocm:") {
        return DeviceChoice::Cuda(i);
    }
    if let Some(i) = indexed(n.as_slice(), "hip:") {
        return DeviceChoice::Cuda(i);
    }
    DeviceChoice::Cpu
}

/// The device used: the override when one is given, else the first CUDA device when
/// CUDA is available with at least one device, else the CPU.
pub fn select_device(override_device: Option<&str>, cuda_available: bool, cuda_count: usize) -> (r: DeviceChoice)
    ensures
        override_device matches Some(d) ==> r == spec_parse_device(d@),
        override_device is None ==> r == if cuda_available && cuda_count > 0 {
            DeviceChoice::Cuda(0)
        } else {
            DeviceChoice::Cpu
        },
{
    match override_device {
        Some(d) => parse_device_override(d),
        None => if cuda_available && cuda_count > 0 { DeviceChoice::Cuda(0) } else { DeviceChoice::Cpu },
    }
}

/// The device the command-line synthesiser uses: as `select_device`, with the
/// override read by `parse_cli_device_override`.
pub fn select_cli_device(override_device: Option<&str>, cuda_available: bool, cuda_count: usize) -> (r: DeviceChoice)
    ensures
        override_device matches Some(d) ==> r == spec_parse_cli_device(d@),
        override_device is None ==> r == if cuda_available && cuda_count > 0 {
            DeviceChoice::Cuda(0)
        } else {
            DeviceChoice::Cpu
        },
{
    match override_device {
        Some(d) => parse_cli_device_override(d),
        None => if cuda_available && cuda_count > 0 { DeviceChoice::Cuda(0) } else { DeviceChoice::Cpu },
    }
}

/// Precision of the TTS weights.
#[derive(Debug, Clone, Copy, PartialEq, Eq, Structural)]
pub enum TtsDtype {
    Bf16,
    F16,
}

/// The directory name of a precision's weights.
pub open spec fn spec_dtype_name(d: TtsDtype) -> Seq<char> {
    match d {
        TtsDtype::Bf16 => "bf16"@,
        TtsDtype::F16 => "f16"@,
    }
}

impl TtsDtype {
    /// "bf16" or "f16".
    pub fn as_str(self) -> (r: &'static str)
        ensures
            r@ == spec_dtype_name(self),
    {
        match self {
            TtsDtype::Bf16 => "bf16",
            TtsDtype::F16 => "f16",
        }
    }
}

/// The directory holding the weights of a precision: the model path itself when its
/// final component already names the precision, else that component joined to it.
pub open spec fn spec_model_dir(model_path: Seq<char>, dtype: TtsDtype) -> Seq<char> {
    if spec_file_name(model_path) == Some(spec_dtype_name(dtype)) {
        model_path
    } else {
        spec_join_path(model_path, spec_dtype_name(dtype))
    }
}

/// Resolves the weight directory (see `spec_model_dir`), e.g. "burn-models" gives
/// "burn-models/bf16" and "burn-models/bf16" stays as it is.
pub fn resolve_model_path(model_path: &str, tts_dtype: TtsDtype) -> (r: String)
    ensures
        r@ == spec_model_dir(model_path@, tts_dtype),
{
    let name = tts_dtype.as_str();
    match file_name(model_path) {
        Some(n) => {
            let nv = char_vec(n.as_str());
            let k = nv.len();
            assert(nv@.subrange(0, k as int) =~= nv@);
            if chars_eq(nv.as_slice(), 0, k, name) {
                return String::from_str(model_path);
            }
        }
        None => {}
    }
    join_path(model_path, name)
}

} // verus!
