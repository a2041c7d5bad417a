//! Weight conversion: the compatibility edits made to a VoxCPM2 `config.json`, and the
//! renaming of its norm weights to the field paths of the Burn modules.
use vstd::prelude::*;
use crate::chars::push_char;
use crate::text::{chars_eq, strings_view};
use crate::chars::char_vec;

verus! {

/// The character of a decimal digit.
pub open spec fn spec_digit_char(d: int) -> char {
    (('0' as int) + d) as char
}

/// `n` in decimal, without leading zeros.
pub open spec fn spec_decimal(n: nat) -> Seq<char>
    decreases n,
{
    if n < 10 {
        seq![spec_digit_char(n as int)]
    } else {
        spec_decimal(n / 10).push(spec_digit_char((n % 10) as int))
    }
}

/// The number that a run of decimal digits writes.
pub open spec fn spec_decimal_value(s: Seq<char>) -> int
    decreases s.len(),
{
    if s.len() == 0 {
        0
    } else {
        10 * spec_decimal_value(s.drop_last()) + (s.last() as int - '0' as int)
    }
}

/// `n` is written in decimal: one or more digits, the first not a zero unless `n`
/// is, that read back as `n`. So different numbers are written differently.
pub proof fn lemma_decimal_reads_back(n: nat)
    ensures
        spec_decimal(n).len() > 0,
        forall|j: int| 0 <= j < spec_decimal(n).len() ==> '0' <= #[trigger] spec_decimal(n)[j] && spec_decimal(n)[j] <= '9',
        spec_decimal_value(spec_decimal(n)) == n,
        n >= 10 ==> spec_decimal(n)[0] != '0',
    decreases n,
{
    if n >= 10 {
        lemma_decimal_reads_back(n / 10);
        let p = spec_decimal(n / 10);
        let s = spec_decimal(n);
        assert(s == p.push(spec_digit_char((n % 10) as int)));
        assert(s.drop_last() =~= p);
        assert forall|j: int| 0 <= j < s.len() implies '0' <= #[trigger] s[j] && s[j] <= '9' by {
            if j < p.len() {
                assert(s[j] == p[j]);
            }
        }
        assert(s[0] == p[0]);
        if n / 10 < 10 {
            assert(p[0] == spec_digit_char((n / 10) as int));
        }
        let d = (n % 10) as int;
        assert(spec_digit_char(d) as int == 48 + d);
        assert(spec_decimal_value(s) == 10 * spec_decimal_value(p) + d);
        assert(10 * (n / 10) + n % 10 == n);
    } else {
        let s = spec_decimal(n);
        assert(spec_digit_char(n as int) as int == 48 + n);
        assert(s.drop_last() =~= Seq::<char>::empty());
        assert(spec_decimal_value(s) == 10 * spec_decimal_value(s.drop_last()) + (s.last() as int - 48));
    }
}

/// Different numbers are written differently.
pub proof fn lemma_decimal_injective(m: nat, n: nat)
    requires
        spec_decimal(m) == spec_decimal(n),
    ensures
        m == n,
{
    lemma_decimal_reads_back(m);
    lemma_decimal_reads_back(n);
}

/// Appends `n` in decimal.
pub fn push_decimal(s: &mut String, n: usize)
    ensures
        final(s)@ == old(s)@ + spec_decimal(n as nat),
    decreases n,
{
    if n >= 10 {
        push_decimal(s, n / 10);
    }
    let d: u8 = (n % 10) as u8;
    let c = (d + 48) as char;
    assert(c == spec_digit_char((n % 10) as int));
    push_char(s, c);
    assert(final(s)@ =~= old(s)@ + spec_decimal(n as nat));
}

/// A norm weight's key in the checkpoint and its field path in the Burn module.
pub open spec fn spec_norm_remap(stem: Seq<char>) -> (Seq<char>, Seq<char>) {
    (stem + ".weight"@, stem + ".inner.gamma"@)
}

/// The key stem of one of the two norms of layer `i` under `prefix`.
pub open spec fn spec_layer_norm_stem(prefix: Seq<char>, i: nat, norm: Seq<char>) -> Seq<char> {
    prefix + spec_decimal(i) + norm
}

/// The remappings of the input and post-attention norms of the first `n` layers under `prefix`.
pub open spec fn spec_layer_remaps(prefix: Seq<char>, n: nat) -> Seq<(Seq<char>, Seq<char>)>
    decreases n,
{
    if n == 0 {
        seq![]
    } else {
        spec_layer_remaps(prefix, (n - 1) as nat)
            .push(spec_norm_remap(spec_layer_norm_stem(prefix, (n - 1) as nat, ".input_layernorm"@)))
            .push(spec_norm_remap(spec_layer_norm_stem(prefix, (n - 1) as nat, ".post_attention_layernorm"@)))
    }
}

/// All norm remappings of a VoxCPM2 checkpoint with the given layer counts.
pub open spec fn spec_key_remappings(base_lm: nat, residual_lm: nat, encoder: nat, decoder: nat) -> Seq<(Seq<char>, Seq<char>)> {
    seq![
        spec_norm_remap("base_lm.norm"@),
        spec_norm_remap("residual_lm.norm"@),
        spec_norm_remap("feat_encoder.encoder.norm"@),
        spec_norm_remap("feat_decoder.estimator.decoder.norm"@),
    ]
        + spec_layer_remaps("base_lm.layers."@, base_lm)
        + spec_layer_remaps("residual_lm.layers."@, residual_lm)
        + spec_layer_remaps("feat_encoder.encoder.layers."@, encoder)
        + spec_layer_remaps("feat_decoder.estimator.decoder.layers."@, decoder)
}

/// Views of string pairs.
pub open spec fn pairs_view(v: Seq<(String, String)>) -> Seq<(Seq<char>, Seq<char>)> {
    v.map_values(|p: (String, String)| (p.0@, p.1@))
}

fn push_remap(out: &mut Vec<(String, String)>, stem: String)
    ensures
        pairs_view(final(out)@) == pairs_view(old(out)@).push(spec_norm_remap(stem@)),
{
    let mut from = stem.clone();
    from.append(".weight");
    let mut to = stem;
    to.append(".inner.gamma");
    out.push((from, to));
    assert(pairs_view(out@) =~= pairs_view(old(out)@).push(spec_norm_remap(stem@)));
}

fn layer_stem(prefix: &str, i: usize, norm: &str) -> (r: String)
    ensures
        r@ == spec_layer_norm_stem(prefix@, i as nat, norm@),
{
    let mut s = String::from_str(prefix);
    push_decimal(&mut s, i);
    s.append(norm);
    s
}

fn push_layer_remaps(out: &mut Vec<(String, String)>, prefix: &str, n: usize)
    ensures
        pairs_view(final(out)@) == pairs_view(old(out)@) + spec_layer_remaps(prefix@, n as nat),
{
    let ghost start = pairs_view(out@);
    let mut i: usize = 0;
    assert(start =~= start + spec_layer_remaps(prefix@, 0));
    while i < n
        invariant
            i <= n,
            start == pairs_view(old(out)@),
            pairs_view(out@) == start + spec_layer_remaps(prefix@, i as nat),
        decreases n - i,
    {
        push_remap(out, layer_stem(prefix, i, ".input_layernorm"));
        push_remap(out, layer_stem(prefix, i, ".post_attention_layernorm"));
        i += 1;
        assert(pairs_view(out@) =~= start + spec_layer_remaps(prefix@, i as nat));
    }
}

/// The key remappings that load VoxCPM2 norm weights (`<stem>.weight`) into the Burn
/// modules (`<stem>.inner.gamma`): the four final norms, then the input and
/// post-attention norms of every layer of the base LM, the residual LM, the feature
/// encoder and the feature decoder.
pub fn build_key_remappings(
    base_lm_layers: usize,
    residual_lm_layers: usize,
    encoder_layers: usize,
    decoder_layers: usize,
) -> (r: Vec<(String, String)>)
    ensures
        pairs_view(r@) == spec_key_remappings(
            base_lm_layers as nat,
            residual_lm_layers as nat,
            encoder_layers as nat,
            decoder_layers as nat,
        ),
{
    let mut out: Vec<(String, String)> = Vec::new();
    push_remap(&mut out, String::from_str("base_lm.norm"));
    push_remap(&mut out, String::from_str("residual_lm.norm"));
    push_remap(&mut out, String::from_str("feat_encoder.encoder.norm"));
    push_remap(&mut out, String::from_str("feat_decoder.estimator.decoder.norm"));
    push_layer_remaps(&mut out, "base_lm.layers.", base_lm_layers);
    push_layer_remaps(&mut out, "residual_lm.layers.", residual_lm_layers);
    push_layer_remaps(&mut out, "feat_encoder.encoder.layers.", encoder_layers);
    push_layer_remaps(&mut out, "feat_decoder.estimator.decoder.layers.", decoder_layers);
    assert(pairs_view(out@) =~= spec_key_remappings(
        base_lm_layers as nat,
        residual_lm_layers as nat,
        encoder_layers as nat,
        decoder_layers as nat,
    ));
    out
}

proof fn lemma_layer_remaps_shape(prefix: Seq<char>, n: nat)
    ensures
        spec_layer_remaps(prefix, n).len() == 2 * n,
        forall|k: int| 0 <= k < spec_layer_remaps(prefix, n).len() ==> exists|stem: Seq<char>|
            #[trigger] spec_layer_remaps(prefix, n)[k] == spec_norm_remap(stem),
    decreases n,
{
    if n > 0 {
        lemma_layer_remaps_shape(prefix, (n - 1) as nat);
        let p = spec_layer_remaps(prefix, (n - 1) as nat);
        let q = spec_layer_remaps(prefix, n);
        assert forall|k: int| 0 <= k < q.len() implies exists|stem: Seq<char>| #[trigger] q[k] == spec_norm_remap(stem) by {
            if k < p.len() {
                assert(q[k] == p[k]);
            } else if k == p.len() {
                assert(q[k] == spec_norm_remap(spec_layer_norm_stem(prefix, (n - 1) as nat, ".input_layernorm"@)));
            } else {
                assert(q[k] == spec_norm_remap(spec_layer_norm_stem(prefix, (n - 1) as nat, ".post_attention_layernorm"@)));
            }
        }
    }
}

/// The remappings of layer `j` sit at `2 * j` (input norm) and `2 * j + 1`
/// (post-attention norm).
proof fn lemma_layer_remaps_at(prefix: Seq<char>, n: nat, j: nat)
    requires
        j < n,
    ensures
        spec_layer_remaps(prefix, n).len() == 2 * n,
        spec_layer_remaps(prefix, n)[2 * j as int] == spec_norm_remap(spec_layer_norm_stem(prefix, j, ".input_layernorm"@)),
        spec_layer_remaps(prefix, n)[2 * j as int + 1] == spec_norm_remap(spec_layer_norm_stem(prefix, j, ".post_attention_layernorm"@)),
    decreases n,
{
    lemma_layer_remaps_shape(prefix, n);
    lemma_layer_remaps_shape(prefix, (n - 1) as nat);
    let p = spec_layer_remaps(prefix, (n - 1) as nat);
    let q = spec_layer_remaps(prefix, n);
    if j < n - 1 {
        lemma_layer_remaps_at(prefix, (n - 1) as nat, j);
        assert(q[2 * j as int] == p[2 * j as int]);
        assert(q[2 * j as int + 1] == p[2 * j as int + 1]);
    }
}

/// Every remapping under `prefix` renames a key that starts with `prefix`.
proof fn lemma_layer_remaps_prefixed(prefix: Seq<char>, n: nat, k: int)
    requires
        0 <= k < spec_layer_remaps(prefix, n).len(),
    ensures
        spec_layer_remaps(prefix, n)[k].0.len() >= prefix.len(),
        spec_layer_remaps(prefix, n)[k].0.subrange(0, prefix.len() as int) == prefix,
{
    lemma_layer_remaps_shape(prefix, n);
    let j = (k / 2) as nat;
    lemma_layer_remaps_at(prefix, n, j);
    let norm = if k % 2 == 0 { ".input_layernorm"@ } else { ".post_attention_layernorm"@ };
    assert(k == 2 * j || k == 2 * j + 1);
    let key = spec_layer_remaps(prefix, n)[k].0;
    assert(key == prefix + spec_decimal(j) + norm + ".weight"@);
    assert(key.subrange(0, prefix.len() as int) =~= prefix);
}

/// A key made of a prefix, a run of digits and a rest that starts with '.' splits
/// back into those parts.
proof fn lemma_split_digits(p: Seq<char>, d1: Seq<char>, t1: Seq<char>, d2: Seq<char>, t2: Seq<char>)
    requires
        forall|j: int| 0 <= j < d1.len() ==> '0' <= #[trigger] d1[j] && d1[j] <= '9',
        forall|j: int| 0 <= j < d2.len() ==> '0' <= #[trigger] d2[j] && d2[j] <= '9',
        t1.len() > 0 && t1[0] == '.',
        t2.len() > 0 && t2[0] == '.',
        p + d1 + t1 == p + d2 + t2,
    ensures
        d1 == d2,
        t1 == t2,
{
    let x = p + d1 + t1;
    let y = p + d2 + t2;
    if d1.len() < d2.len() {
        assert(x[p.len() as int + d1.len() as int] == t1[0]);
        assert(y[p.len() as int + d1.len() as int] == d2[d1.len() as int]);
    } else if d2.len() < d1.len() {
        assert(x[p.len() as int + d2.len() as int] == d1[d2.len() as int]);
        assert(y[p.len() as int + d2.len() as int] == t2[0]);
    } else {
        assert(d1 =~= x.subrange(p.len() as int, p.len() as int + d1.len() as int));
        assert(d2 =~= y.subrange(p.len() as int, p.len() as int + d2.len() as int));
        assert(t1 =~= x.subrange(p.len() as int + d1.len() as int, x.len() as int));
        assert(t2 =~= y.subrange(p.len() as int + d2.len() as int, y.len() as int));
    }
}

/// Layer `i`'s norm `norm` is remapped under `prefix` exactly when `i` is one of its
/// first `n` layers.
proof fn lemma_layer_remaps_member(prefix: Seq<char>, n: nat, norm: Seq<char>, i: nat)
    requires
        norm == ".input_layernorm"@ || norm == ".post_attention_layernorm"@,
    ensures
        spec_layer_remaps(prefix, n).contains(spec_norm_remap(prefix + spec_decimal(i) + norm)) <==> i < n,
{
    reveal_strlit(".input_layernorm");
    reveal_strlit(".post_attention_layernorm");
    reveal_strlit(".weight");
    let q = spec_layer_remaps(prefix, n);
    let target = spec_norm_remap(prefix + spec_decimal(i) + norm);
    lemma_layer_remaps_shape(prefix, n);
    if i < n {
        lemma_layer_remaps_at(prefix, n, i);
        if norm == ".input_layernorm"@ {
            assert(q[2 * i as int] == target);
        } else {
            assert(q[2 * i as int + 1] == target);
        }
    }
    if q.contains(target) {
        let k = choose|k: int| 0 <= k < q.len() && q[k] == target;
        let j = (k / 2) as nat;
        lemma_layer_remaps_at(prefix, n, j);
        let nk = if k % 2 == 0 { ".input_layernorm"@ } else { ".post_attention_layernorm"@ };
        assert(k == 2 * j || k == 2 * j + 1);
        assert(q[k] == spec_norm_remap(prefix + spec_decimal(j) + nk));
        let a = prefix + spec_decimal(j) + nk + ".weight"@;
        let b = prefix + spec_decimal(i) + norm + ".weight"@;
        assert(a == b);
        assert(a =~= prefix + spec_decimal(j) + (nk + ".weight"@));
        assert(b =~= prefix + spec_decimal(i) + (norm + ".weight"@));
        lemma_decimal_reads_back(j);
        lemma_decimal_reads_back(i);
        assert((nk + ".weight"@)[0] == '.');
        assert((norm + ".weight"@)[0] == '.');
        lemma_split_digits(prefix, spec_decimal(j), nk + ".weight"@, spec_decimal(i), norm + ".weight"@);
        lemma_decimal_injective(j, i);
    }
}

/// A sequence of two parts holds what one of its parts holds.
proof fn lemma_contains_concat<A>(a: Seq<A>, b: Seq<A>, e: A)
    ensures
        (a + b).contains(e) <==> a.contains(e) || b.contains(e),
{
    if (a + b).contains(e) {
        let k = choose|k: int| 0 <= k < (a + b).len() && (a + b)[k] == e;
        if k < a.len() {
            assert(a[k] == e);
        } else {
            assert(b[k - a.len()] == e);
        }
    }
    if a.contains(e) {
        let k = choose|k: int| 0 <= k < a.len() && a[k] == e;
        assert((a + b)[k] == e);
    }
    if b.contains(e) {
        let k = choose|k: int| 0 <= k < b.len() && b[k] == e;
        assert((a + b)[k + a.len()] == e);
    }
}

/// No remapping under `q` renames a key that differs from `q` at an index within it.
proof fn lemma_not_under_prefix(q: Seq<char>, m: nat, x: Seq<char>, y: Seq<char>, t: int)
    requires
        0 <= t < q.len(),
        t < x.len(),
        x[t] != q[t],
    ensures
        !spec_layer_remaps(q, m).contains((x, y)),
{
    if spec_layer_remaps(q, m).contains((x, y)) {
        let k = choose|k: int| 0 <= k < spec_layer_remaps(q, m).len() && spec_layer_remaps(q, m)[k] == (x, y);
        lemma_layer_remaps_prefixed(q, m, k);
        assert(x.subrange(0, q.len() as int)[t] == x[t]);
    }
}

/// The four final-norm remappings.
pub open spec fn spec_final_norm_remaps() -> Seq<(Seq<char>, Seq<char>)> {
    seq![
        spec_norm_remap("base_lm.norm"@),
        spec_norm_remap("residual_lm.norm"@),
        spec_norm_remap("feat_encoder.encoder.norm"@),
        spec_norm_remap("feat_decoder.estimator.decoder.norm"@),
    ]
}

/// A key that differs from each final norm's key at a given index is not a final norm.
proof fn lemma_not_final_norm(x: Seq<char>, y: Seq<char>, t0: int, t1: int, t2: int, t3: int)
    requires
        0 <= t0 < x.len() && t0 < "base_lm.norm"@.len() && x[t0] != "base_lm.norm"@[t0],
        0 <= t1 < x.len() && t1 < "residual_lm.norm"@.len() && x[t1] != "residual_lm.norm"@[t1],
        0 <= t2 < x.len() && t2 < "feat_encoder.encoder.norm"@.len() && x[t2] != "feat_encoder.encoder.norm"@[t2],
        0 <= t3 < x.len() && t3 < "feat_decoder.estimator.decoder.norm"@.len()
            && x[t3] != "feat_decoder.estimator.decoder.norm"@[t3],
    ensures
        !spec_final_norm_remaps().contains((x, y)),
{
    let top = spec_final_norm_remaps();
    if top.contains((x, y)) {
        let k = choose|k: int| 0 <= k < top.len() && top[k] == (x, y);
        if k == 0 {
            assert(top[0].0 == "base_lm.norm"@ + ".weight"@);
            assert(("base_lm.norm"@ + ".weight"@)[t0] == "base_lm.norm"@[t0]);
        } else if k == 1 {
            assert(top[1].0 == "residual_lm.norm"@ + ".weight"@);
            assert(("residual_lm.norm"@ + ".weight"@)[t1] == "residual_lm.norm"@[t1]);
        } else if k == 2 {
            assert(top[2].0 == "feat_encoder.encoder.norm"@ + ".weight"@);
            assert(("feat_encoder.encoder.norm"@ + ".weight"@)[t2] == "feat_encoder.encoder.norm"@[t2]);
        } else {
            assert(top[3].0 == "feat_decoder.estimator.decoder.norm"@ + ".weight"@);
            assert(("feat_decoder.estimator.decoder.norm"@ + ".weight"@)[t3] == "feat_decoder.estimator.decoder.norm"@[t3]);
        }
    }
}

/// The remapping of norm `norm` of layer `i` of the group under `p`, spelled out.
proof fn lemma_layer_pair(p: Seq<char>, i: nat, norm: Seq<char>, key: Seq<char>, field: Seq<char>)
    requires
        (norm == ".input_layernorm"@ && key == ".input_layernorm.weight"@ && field == ".input_layernorm.inner.gamma"@)
        || (norm == ".post_attention_layernorm"@ && key == ".post_attention_layernorm.weight"@
            && field == ".post_attention_layernorm.inner.gamma"@),
    ensures
        spec_norm_remap(p + spec_decimal(i) + norm) == (p + spec_decimal(i) + key, p + spec_decimal(i) + field),
{
    reveal_strlit(".input_layernorm");
    reveal_strlit(".post_attention_layernorm");
    reveal_strlit(".weight");
    reveal_strlit(".inner.gamma");
    reveal_strlit(".input_layernorm.weight");
    reveal_strlit(".input_layernorm.inner.gamma");
    reveal_strlit(".post_attention_layernorm.weight");
    reveal_strlit(".post_attention_layernorm.inner.gamma");
    assert(norm + ".weight"@ =~= key);
    assert(norm + ".inner.gamma"@ =~= field);
    assert(p + spec_decimal(i) + norm + ".weight"@ =~= p + spec_decimal(i) + key);
    assert(p + spec_decimal(i) + norm + ".inner.gamma"@ =~= p + spec_decimal(i) + field);
}

proof fn lemma_reveal_remap_literals()
    ensures
        "base_lm.layers."@ =~= seq!['b', 'a', 's', 'e', '_', 'l', 'm', '.', 'l', 'a', 'y', 'e', 'r', 's', '.'],
        "residual_lm.layers."@.len() == 19 && "residual_lm.layers."@[0] == 'r' && "residual_lm.layers."@[12] == 'l',
        "feat_encoder.encoder.layers."@.len() == 28 && "feat_encoder.encoder.layers."@[0] == 'f'
            && "feat_encoder.encoder.layers."@[5] == 'e' && "feat_encoder.encoder.layers."@[21] == 'l',
        "feat_decoder.estimator.decoder.layers."@.len() == 38 && "feat_decoder.estimator.decoder.layers."@[0] == 'f'
            && "feat_decoder.estimator.decoder.layers."@[5] == 'd' && "feat_decoder.estimator.decoder.layers."@[31] == 'l',
        "base_lm.norm"@.len() == 12 && "base_lm.norm"@[0] == 'b' && "base_lm.norm"@[8] == 'n',
        "residual_lm.norm"@.len() == 16 && "residual_lm.norm"@[0] == 'r' && "residual_lm.norm"@[12] == 'n',
        "feat_encoder.encoder.norm"@.len() == 25 && "feat_encoder.encoder.norm"@[0] == 'f'
            && "feat_encoder.encoder.norm"@[5] == 'e' && "feat_encoder.encoder.norm"@[21] == 'n',
        "feat_decoder.estimator.decoder.norm"@.len() == 35 && "feat_decoder.estimator.decoder.norm"@[0] == 'f'
            && "feat_decoder.estimator.decoder.norm"@[5] == 'd' && "feat_decoder.estimator.decoder.norm"@[31] == 'n',
{
    reveal_strlit("base_lm.layers.");
    reveal_strlit("residual_lm.layers.");
    reveal_strlit("feat_encoder.encoder.layers.");
    reveal_strlit("feat_decoder.estimator.decoder.layers.");
    reveal_strlit("base_lm.norm");
    reveal_strlit("residual_lm.norm");
    reveal_strlit("feat_encoder.encoder.norm");
    reveal_strlit("feat_decoder.estimator.decoder.norm");
}

/// Each layer group is remapped for exactly its own layers: the input and
/// post-attention norms of layer `i` of the base LM, the residual LM, the feature
/// encoder and the feature decoder are renamed (`<stem>.weight` to
/// `<stem>.inner.gamma`) exactly when `i` is below that group's own layer count.
pub proof fn lemma_key_remappings_layers(base_lm: nat, residual_lm: nat, encoder: nat, decoder: nat, i: nat)
    ensures
        ({
            let r = spec_key_remappings(base_lm, residual_lm, encoder, decoder);
            let d = spec_decimal(i);
            &&& r.contains(("base_lm.layers."@ + d + ".input_layernorm.weight"@,
                "base_lm.layers."@ + d + ".input_layernorm.inner.gamma"@)) <==> i < base_lm
            &&& r.contains(("base_lm.layers."@ + d + ".post_attention_layernorm.weight"@,
                "base_lm.layers."@ + d + ".post_attention_layernorm.inner.gamma"@)) <==> i < base_lm
            &&& r.contains(("residual_lm.layers."@ + d + ".input_layernorm.weight"@,
                "residual_lm.layers."@ + d + ".input_layernorm.inner.gamma"@)) <==> i < residual_lm
            &&& r.contains(("residual_lm.layers."@ + d + ".post_attention_layernorm.weight"@,
                "residual_lm.layers."@ + d + ".post_attention_layernorm.inner.gamma"@)) <==> i < residual_lm
            &&& r.contains(("feat_encoder.encoder.layers."@ + d + ".input_layernorm.weight"@,
                "feat_encoder.encoder.layers."@ + d + ".input_layernorm.inner.gamma"@)) <==> i < encoder
            &&& r.contains(("feat_encoder.encoder.layers."@ + d + ".post_attention_layernorm.weight"@,
                "feat_encoder.encoder.layers."@ + d + ".post_attention_layernorm.inner.gamma"@)) <==> i < encoder
            &&& r.contains(("feat_decoder.estimator.decoder.layers."@ + d + ".input_layernorm.weight"@,
                "feat_decoder.estimator.decoder.layers."@ + d + ".input_layernorm.inner.gamma"@)) <==> i < decoder
            &&& r.contains(("feat_decoder.estimator.decoder.layers."@ + d + ".post_attention_layernorm.weight"@,
                "feat_decoder.estimator.decoder.layers."@ + d + ".post_attention_layernorm.inner.gamma"@)) <==> i < decoder
        }),
{
    let pb = "base_lm.layers."@;
    let pr = "residual_lm.layers."@;
    let pe = "feat_encoder.encoder.layers."@;
    let pd = "feat_decoder.estimator.decoder.layers."@;
    let inp = ".input_layernorm"@;
    let post = ".post_attention_layernorm"@;
    lemma_key_remappings_group(base_lm, residual_lm, encoder, decoder, 0, i, inp, ".input_layernorm.weight"@, ".input_layernorm.inner.gamma"@);
    lemma_key_remappings_group(base_lm, residual_lm, encoder, decoder, 0, i, post, ".post_attention_layernorm.weight"@, ".post_attention_layernorm.inner.gamma"@);
    lemma_key_remappings_group(base_lm, residual_lm, encoder, decoder, 1, i, inp, ".input_layernorm.weight"@, ".input_layernorm.inner.gamma"@);
    lemma_key_remappings_group(base_lm, residual_lm, encoder, decoder, 1, i, post, ".post_attention_layernorm.weight"@, ".post_attention_layernorm.inner.gamma"@);
    lemma_key_remappings_group(base_lm, residual_lm, encoder, decoder, 2, i, inp, ".input_layernorm.weight"@, ".input_layernorm.inner.gamma"@);
    lemma_key_remappings_group(base_lm, residual_lm, encoder, decoder, 2, i, post, ".post_attention_layernorm.weight"@, ".post_attention_layernorm.inner.gamma"@);
    lemma_key_remappings_group(base_lm, residual_lm, encoder, decoder, 3, i, inp, ".input_layernorm.weight"@, ".input_layernorm.inner.gamma"@);
    lemma_key_remappings_group(base_lm, residual_lm, encoder, decoder, 3, i, post, ".post_attention_layernorm.weight"@, ".post_attention_layernorm.inner.gamma"@);
}

/// The prefix of layer group `g` (base LM, residual LM, feature encoder, feature
/// decoder).
pub open spec fn spec_group_prefix(g: int) -> Seq<char> {
    if g == 0 {
        "base_lm.layers."@
    } else if g == 1 {
        "residual_lm.layers."@
    } else if g == 2 {
        "feat_encoder.encoder.layers."@
    } else {
        "feat_decoder.estimator.decoder.layers."@
    }
}

proof fn lemma_key_remappings_group(
    base_lm: nat,
    residual_lm: nat,
    encoder: nat,
    decoder: nat,
    g: int,
    i: nat,
    norm: Seq<char>,
    key: Seq<char>,
    field: Seq<char>,
)
    requires
        0 <= g < 4,
        (norm == ".input_layernorm"@ && key == ".input_layernorm.weight"@ && field == ".input_layernorm.inner.gamma"@)
        || (norm == ".post_attention_layernorm"@ && key == ".post_attention_layernorm.weight"@
            && field == ".post_attention_layernorm.inner.gamma"@),
    ensures
        spec_key_remappings(base_lm, residual_lm, encoder, decoder).contains(
            (spec_group_prefix(g) + spec_decimal(i) + key, spec_group_prefix(g) + spec_decimal(i) + field))
            <==> i < (if g == 0 { base_lm } else if g == 1 { residual_lm } else if g == 2 { encoder } else { decoder }),
{
    let p = spec_group_prefix(g);
    let x = p + spec_decimal(i) + key;
    let y = p + spec_decimal(i) + field;
    lemma_layer_pair(p, i, norm, key, field);
    lemma_reveal_remap_literals();
    let top = spec_final_norm_remaps();
    let a = spec_layer_remaps("base_lm.layers."@, base_lm);
    let b = spec_layer_remaps("residual_lm.layers."@, residual_lm);
    let c = spec_layer_remaps("feat_encoder.encoder.layers."@, encoder);
    let d = spec_layer_remaps("feat_decoder.estimator.decoder.layers."@, decoder);
    let r = spec_key_remappings(base_lm, residual_lm, encoder, decoder);
    assert(r == top + a + b + c + d);
    lemma_contains_concat(top + a + b + c, d, (x, y));
    lemma_contains_concat(top + a + b, c, (x, y));
    lemma_contains_concat(top + a, b, (x, y));
    lemma_contains_concat(top, a, (x, y));
    assert forall|t: int| 0 <= t < p.len() implies #[trigger] x[t] == p[t] by {}
    if g == 0 {
        lemma_layer_remaps_member(p, base_lm, norm, i);
        lemma_not_final_norm(x, y, 8, 0, 0, 0);
        lemma_not_under_prefix("residual_lm.layers."@, residual_lm, x, y, 0);
        lemma_not_under_prefix("feat_encoder.encoder.layers."@, encoder, x, y, 0);
        lemma_not_under_prefix("feat_decoder.estimator.decoder.layers."@, decoder, x, y, 0);
    } else if g == 1 {
        lemma_layer_remaps_member(p, residual_lm, norm, i);
        lemma_not_final_norm(x, y, 0, 12, 0, 0);
        lemma_not_under_prefix("base_lm.layers."@, base_lm, x, y, 0);
        lemma_not_under_prefix("feat_encoder.encoder.layers."@, encoder, x, y, 0);
        lemma_not_under_prefix("feat_decoder.estimator.decoder.layers."@, decoder, x, y, 0);
    } else if g == 2 {
        lemma_layer_remaps_member(p, encoder, norm, i);
        lemma_not_final_norm(x, y, 0, 0, 21, 5);
        lemma_not_under_prefix("base_lm.layers."@, base_lm, x, y, 0);
        lemma_not_under_prefix("residual_lm.layers."@, residual_lm, x, y, 0);
        lemma_not_under_prefix("feat_decoder.estimator.decoder.layers."@, decoder, x, y, 5);
    } else {
        lemma_layer_remaps_member(p, decoder, norm, i);
        lemma_not_final_norm(x, y, 0, 0, 5, 31);
        lemma_not_under_prefix("base_lm.layers."@, base_lm, x, y, 0);
        lemma_not_under_prefix("residual_lm.layers."@, residual_lm, x, y, 0);
        lemma_not_under_prefix("feat_encoder.encoder.layers."@, encoder, x, y, 5);
    }
}

/// There are two remappings per layer besides the four final norms, and each renames
/// a `<stem>.weight` key to `<stem>.inner.gamma`.
pub proof fn lemma_key_remappings_shape(base_lm: nat, residual_lm: nat, encoder: nat, decoder: nat)
    ensures
        spec_key_remappings(base_lm, residual_lm, encoder, decoder).len()
            == 4 + 2 * (base_lm + residual_lm + encoder + decoder),
        forall|k: int| 0 <= k < spec_key_remappings(base_lm, residual_lm, encoder, decoder).len() ==>
            exists|stem: Seq<char>| #[trigger] spec_key_remappings(base_lm, residual_lm, encoder, decoder)[k]
                == spec_norm_remap(stem),
{
    let a = spec_layer_remaps("base_lm.layers."@, base_lm);
    let b = spec_layer_remaps("residual_lm.layers."@, residual_lm);
    let c = spec_layer_remaps("feat_encoder.encoder.layers."@, encoder);
    let d = spec_layer_remaps("feat_decoder.estimator.decoder.layers."@, decoder);
    lemma_layer_remaps_shape("base_lm.layers."@, base_lm);
    lemma_layer_remaps_shape("residual_lm.layers."@, residual_lm);
    lemma_layer_remaps_shape("feat_encoder.encoder.layers."@, encoder);
    lemma_layer_remaps_shape("feat_decoder.estimator.decoder.layers."@, decoder);
    let top = seq![
        spec_norm_remap("base_lm.norm"@),
        spec_norm_remap("residual_lm.norm"@),
        spec_norm_remap("feat_encoder.encoder.norm"@),
        spec_norm_remap("feat_decoder.estimator.decoder.norm"@),
    ];
    let all = spec_key_remappings(base_lm, residual_lm, encoder, decoder);
    assert(all == top + a + b + c + d);
    assert forall|k: int| 0 <= k < all.len() implies exists|stem: Seq<char>| #[trigger] all[k] == spec_norm_remap(stem) by {
        if k < 4 {
            assert(all[k] == top[k]);
            if k == 0 { assert(top[k] == spec_norm_remap("base_lm.norm"@)); }
            if k == 1 { assert(top[k] == spec_norm_remap("residual_lm.norm"@)); }
            if k == 2 { assert(top[k] == spec_norm_remap("feat_encoder.encoder.norm"@)); }
            if k == 3 { assert(top[k] == spec_norm_remap("feat_decoder.estimator.decoder.norm"@)); }
        } else if k < 4 + a.len() {
            assert(all[k] == a[k - 4]);
        } else if k < 4 + a.len() + b.len() {
            assert(all[k] == b[k - 4 - a.len()]);
        } else if k < 4 + a.len() + b.len() + c.len() {
            assert(all[k] == c[k - 4 - a.len() - b.len()]);
        } else {
            assert(all[k] == d[k - 4 - a.len() - b.len() - c.len()]);
        }
    }
}

// ---------------------------------------------------------------------------
// Compatibility edits of config.json
// ---------------------------------------------------------------------------

/// The objects of `config.json` that the compatibility edits touch.
#[derive(Clone, Copy, Debug, PartialEq, Eq, Structural)]
pub enum ConfigSection {
    /// The top-level object.
    Root,
    /// `lm_config`.
    Lm,
    /// `dit_config`.
    Dit,
    /// `dit_config.cfm_config`.
    Cfm,
    /// `audio_vae_config`.
    AudioVae,
}

/// A JSON value that an edit inserts.
#[derive(Clone, Copy, Debug, PartialEq, Eq, Structural)]
pub enum ConfigValue {
    Null,
    Bool(bool),
    Integer(u64),
    /// The floating-point number 1.0.
    FloatOne,
}

/// One edit of an object of `config.json`.
#[derive(Clone, Debug)]
pub enum ConfigEdit {
    /// Set `key` to `value`.
    Insert { section: ConfigSection, key: String, value: ConfigValue },
    /// Remove `key` if present.
    Remove { section: ConfigSection, key: String },
    /// Remove `from` and store its value under `to`.
    Move { section: ConfigSection, from: String, to: String },
}

/// The contents of a `ConfigEdit`.
pub ghost enum ConfigEditView {
    Insert { section: ConfigSection, key: Seq<char>, value: ConfigValue },
    Remove { section: ConfigSection, key: Seq<char> },
    Move { section: ConfigSection, from: Seq<char>, to: Seq<char> },
}

impl View for ConfigEdit {
    type V = ConfigEditView;

    open spec fn view(&self) -> ConfigEditView {
        match self {
            ConfigEdit::Insert { section, key, value } => ConfigEditView::Insert { section: *section, key: key@, value: *value },
            ConfigEdit::Remove { section, key } => ConfigEditView::Remove { section: *section, key: key@ },
            ConfigEdit::Move { section, from, to } => ConfigEditView::Move { section: *section, from: from@, to: to@ },
        }
    }
}

/// Views of edits.
pub open spec fn edits_view(v: Seq<ConfigEdit>) -> Seq<ConfigEditView> {
    v.map_values(|e: ConfigEdit| e@)
}

/// What the edits read of `config.json`: the keys of the top-level object, and the
/// keys of each other section where it is an object (`None` where it is missing or
/// is not an object; `cfm_keys` only counts inside an object `dit_config`).
#[derive(Clone, Debug)]
pub struct ConfigShape {
    pub root_keys: Vec<String>,
    pub lm_keys: Option<Vec<String>>,
    pub dit_keys: Option<Vec<String>>,
    pub cfm_keys: Option<Vec<String>>,
    pub audio_vae_keys: Option<Vec<String>>,
}

/// The keys of an object, if it is one.
pub open spec fn opt_keys_view(keys: Option<Vec<String>>) -> Option<Seq<Seq<char>>> {
    match keys {
        Some(k) => Some(strings_view(k@)),
        None => None,
    }
}

/// `set key = value` unless the object has `key`.
pub open spec fn spec_insert_if_absent(keys: Seq<Seq<char>>, section: ConfigSection, key: Seq<char>, value: ConfigValue) -> Seq<ConfigEditView> {
    if keys.contains(key) {
        Seq::empty()
    } else {
        seq![ConfigEditView::Insert { section, key, value }]
    }
}

/// `lm_config` gets `no_rope: false`, `kv_channels: null`, `rope_theta: 10000`,
/// `dim_model_base: 256` and `scale_depth: 1.0` where it lacks them.
pub open spec fn spec_lm_edits(lm_keys: Option<Seq<Seq<char>>>) -> Seq<ConfigEditView> {
    match lm_keys {
        None => Seq::empty(),
        Some(k) => spec_insert_if_absent(k, ConfigSection::Lm, "no_rope"@, ConfigValue::Bool(false))
            + spec_insert_if_absent(k, ConfigSection::Lm, "kv_channels"@, ConfigValue::Null)
            + spec_insert_if_absent(k, ConfigSection::Lm, "rope_theta"@, ConfigValue::Integer(10000))
            + spec_insert_if_absent(k, ConfigSection::Lm, "dim_model_base"@, ConfigValue::Integer(256))
            + spec_insert_if_absent(k, ConfigSection::Lm, "scale_depth"@, ConfigValue::FloatOne),
    }
}

/// The top level gets `ref_audio_start_token: 103` and `ref_audio_end_token: 104`
/// where it lacks them.
pub open spec fn spec_root_edits(root_keys: Seq<Seq<char>>) -> Seq<ConfigEditView> {
    spec_insert_if_absent(root_keys, ConfigSection::Root, "ref_audio_start_token"@, ConfigValue::Integer(103))
        + spec_insert_if_absent(root_keys, ConfigSection::Root, "ref_audio_end_token"@, ConfigValue::Integer(104))
}

/// `dit_config` has `mean_mode` renamed to `dit_mean_mode`, or gets
/// `dit_mean_mode: false` where it has neither; its `cfm_config` loses
/// `inference_cfg_rate`.
pub open spec fn spec_dit_edits(dit_keys: Option<Seq<Seq<char>>>, cfm_keys: Option<Seq<Seq<char>>>) -> Seq<ConfigEditView> {
    match dit_keys {
        None => Seq::empty(),
        Some(k) => (if k.contains("mean_mode"@) {
            seq![ConfigEditView::Move { section: ConfigSection::Dit, from: "mean_mode"@, to: "dit_mean_mode"@ }]
        } else {
            spec_insert_if_absent(k, ConfigSection::Dit, "dit_mean_mode"@, ConfigValue::Bool(false))
        }) + (if cfm_keys is Some {
            seq![ConfigEditView::Remove { section: ConfigSection::Cfm, key: "inference_cfg_rate"@ }]
        } else {
            Seq::empty()
        }),
    }
}

/// `audio_vae_config` gets `depthwise: true` and `use_noise_block: false` where it
/// lacks them, and loses the fields that only the second-generation VAE reads.
pub open spec fn spec_audio_vae_edits(keys: Option<Seq<Seq<char>>>) -> Seq<ConfigEditView> {
    match keys {
        None => Seq::empty(),
        Some(k) => spec_insert_if_absent(k, ConfigSection::AudioVae, "depthwise"@, ConfigValue::Bool(true))
            + spec_insert_if_absent(k, ConfigSection::AudioVae, "use_noise_block"@, ConfigValue::Bool(false))
            + seq![
                ConfigEditView::Remove { section: ConfigSection::AudioVae, key: "sr_bin_boundaries"@ },
                ConfigEditView::Remove { section: ConfigSection::AudioVae, key: "out_sample_rate"@ },
                ConfigEditView::Remove { section: ConfigSection::AudioVae, key: "cond_type"@ },
                ConfigEditView::Remove { section: ConfigSection::AudioVae, key: "cond_dim"@ },
                ConfigEditView::Remove { section: ConfigSection::AudioVae, key: "cond_out_layer"@ },
            ],
    }
}

/// All the edits, in the order they are made.
pub open spec fn spec_config_edits(
    root_keys: Seq<Seq<char>>,
    lm_keys: Option<Seq<Seq<char>>>,
    dit_keys: Option<Seq<Seq<char>>>,
    cfm_keys: Option<Seq<Seq<char>>>,
    audio_vae_keys: Option<Seq<Seq<char>>>,
) -> Seq<ConfigEditView> {
    spec_lm_edits(lm_keys) + spec_root_edits(root_keys) + spec_dit_edits(dit_keys, cfm_keys) + spec_audio_vae_edits(audio_vae_keys)
}

fn has_key(keys: &Vec<String>, key: &String) -> (r: bool)
    ensures
        r == strings_view(keys@).contains(key@),
{
    let mut i: usize = 0;
    while i < keys.len()
        invariant
            i <= keys@.len(),
            forall|j: int| 0 <= j < i ==> keys@[j]@ != key@,
        decreases keys@.len() - i,
    {
        if keys[i] == *key {
            assert(strings_view(keys@)[i as int] == key@);
            return true;
        }
        i += 1;
    }
    assert forall|j: int| 0 <= j < strings_view(keys@).len() implies strings_view(keys@)[j] != key@ by {
        assert(strings_view(keys@)[j] == keys@[j]@);
    }
    false
}

fn push_insert_if_absent(edits: &mut Vec<ConfigEdit>, keys: &Vec<String>, section: ConfigSection, key: &str, value: ConfigValue)
    ensures
        edits_view(final(edits)@) == edits_view(old(edits)@) + spec_insert_if_absent(strings_view(keys@), section, key@, value),
{
    let k = String::from_str(key);
    if !has_key(keys, &k) {
        edits.push(ConfigEdit::Insert { section, key: k, value });
    }
    assert(edits_view(edits@) =~= edits_view(old(edits)@) + spec_insert_if_absent(strings_view(keys@), section, key@, value));
}

fn push_remove(edits: &mut Vec<ConfigEdit>, section: ConfigSection, key: &str)
    ensures
        edits_view(final(edits)@) == edits_view(old(edits)@).push(ConfigEditView::Remove { section, key: key@ }),
{
    edits.push(ConfigEdit::Remove { section, key: String::from_str(key) });
    assert(edits_view(edits@) =~= edits_view(old(edits)@).push(ConfigEditView::Remove { section, key: key@ }));
}

fn push_lm_edits(edits: &mut Vec<ConfigEdit>, lm_keys: &Option<Vec<String>>)
    ensures
        edits_view(final(edits)@) == edits_view(old(edits)@) + spec_lm_edits(opt_keys_view(*lm_keys)),
{
    if let Some(k) = lm_keys {
        push_insert_if_absent(edits, k, ConfigSection::Lm, "no_rope", ConfigValue::Bool(false));
        push_insert_if_absent(edits, k, ConfigSection::Lm, "kv_channels", ConfigValue::Null);
        push_insert_if_absent(edits, k, ConfigSection::Lm, "rope_theta", ConfigValue::Integer(10000));
        push_insert_if_absent(edits, k, ConfigSection::Lm, "dim_model_base", ConfigValue::Integer(256));
        push_insert_if_absent(edits, k, ConfigSection::Lm, "scale_depth", ConfigValue::FloatOne);
    }
    assert(edits_view(edits@) =~= edits_view(old(edits)@) + spec_lm_edits(opt_keys_view(*lm_keys)));
}

fn push_root_edits(edits: &mut Vec<ConfigEdit>, root_keys: &Vec<String>)
    ensures
        edits_view(final(edits)@) == edits_view(old(edits)@) + spec_root_edits(strings_view(root_keys@)),
{
    push_insert_if_absent(edits, root_keys, ConfigSection::Root, "ref_audio_start_token", ConfigValue::Integer(103));
    push_insert_if_absent(edits, root_keys, ConfigSection::Root, "ref_audio_end_token", ConfigValue::Integer(104));
    assert(edits_view(edits@) =~= edits_view(old(edits)@) + spec_root_edits(strings_view(root_keys@)));
}

fn push_dit_edits(edits: &mut Vec<ConfigEdit>, dit_keys: &Option<Vec<String>>, cfm_keys: &Option<Vec<String>>)
    ensures
        edits_view(final(edits)@) == edits_view(old(edits)@) + spec_dit_edits(opt_keys_view(*dit_keys), opt_keys_view(*cfm_keys)),
{
    if let Some(k) = dit_keys {
        let mean_mode = String::from_str("mean_mode");
        if has_key(k, &mean_mode) {
            edits.push(ConfigEdit::Move { section: ConfigSection::Dit, from: mean_mode, to: String::from_str("dit_mean_mode") });
        } else {
            push_insert_if_absent(edits, k, ConfigSection::Dit, "dit_mean_mode", ConfigValue::Bool(false));
        }
        if cfm_keys.is_some() {
            push_remove(edits, ConfigSection::Cfm, "inference_cfg_rate");
        }
    }
    assert(edits_view(edits@) =~= edits_view(old(edits)@) + spec_dit_edits(opt_keys_view(*dit_keys), opt_keys_view(*cfm_keys)));
}

fn push_audio_vae_edits(edits: &mut Vec<ConfigEdit>, keys: &Option<Vec<String>>)
    ensures
        edits_view(final(edits)@) == edits_view(old(edits)@) + spec_audio_vae_edits(opt_keys_view(*keys)),
{
    if let Some(k) = keys {
        push_insert_if_absent(edits, k, ConfigSection::AudioVae, "depthwise", ConfigValue::Bool(true));
        push_insert_if_absent(edits, k, ConfigSection::AudioVae, "use_noise_block", ConfigValue::Bool(false));
        push_remove(edits, ConfigSection::AudioVae, "sr_bin_boundaries");
        push_remove(edits, ConfigSection::AudioVae, "out_sample_rate");
        push_remove(edits, ConfigSection::AudioVae, "cond_type");
        push_remove(edits, ConfigSection::AudioVae, "cond_dim");
        push_remove(edits, ConfigSection::AudioVae, "cond_out_layer");
    }
    assert(edits_view(edits@) =~= edits_view(old(edits)@) + spec_audio_vae_edits(opt_keys_view(*keys)));
}

/// The edits that make a VoxCPM2 `config.json` loadable by the first-generation
/// model types, in the order they are to be applied: missing `lm_config` fields,
/// the reference-audio tokens, the `dit_config` mean mode and `cfm_config` rate, and
/// the `audio_vae_config` fields.
pub fn config_compat_edits(shape: &ConfigShape) -> (r: Vec<ConfigEdit>)
    ensures
        edits_view(r@) == spec_config_edits(
            strings_view(shape.root_keys@),
            opt_keys_view(shape.lm_keys),
            opt_keys_view(shape.dit_keys),
            opt_keys_view(shape.cfm_keys),
            opt_keys_view(shape.audio_vae_keys),
        ),
{
    let mut edits: Vec<ConfigEdit> = Vec::new();
    assert(edits_view(edits@) =~= Seq::<ConfigEditView>::empty());
    push_lm_edits(&mut edits, &shape.lm_keys);
    push_root_edits(&mut edits, &shape.root_keys);
    push_dit_edits(&mut edits, &shape.dit_keys, &shape.cfm_keys);
    push_audio_vae_edits(&mut edits, &shape.audio_vae_keys);
    assert(edits_view(edits@) =~= spec_config_edits(
        strings_view(shape.root_keys@),
        opt_keys_view(shape.lm_keys),
        opt_keys_view(shape.dit_keys),
        opt_keys_view(shape.cfm_keys),
        opt_keys_view(shape.audio_vae_keys),
    ));
    edits
}
// ---------------------------------------------------------------------------
// What the edits leave
// ---------------------------------------------------------------------------

/// The keys of `section` after one edit: an insert adds its key, a removal takes
/// its key out, a move renames its key when present; edits of other sections
/// change nothing.
pub open spec fn spec_keys_after_edit(keys: Set<Seq<char>>, section: ConfigSection, e: ConfigEditView) -> Set<Seq<char>> {
    match e {
        ConfigEditView::Insert { section: s, key, value: _ } => if s == section { keys.insert(key) } else { keys },
        ConfigEditView::Remove { section: s, key } => if s == section { keys.remove(key) } else { keys },
        ConfigEditView::Move { section: s, from, to } => if s == section && keys.contains(from) {
            keys.remove(from).insert(to)
        } else if s == section {
            keys
        } else {
            keys
        },
    }
}

/// The keys of `section` after a run of edits, applied in order.
pub open spec fn spec_keys_after(keys: Set<Seq<char>>, section: ConfigSection, edits: Seq<ConfigEditView>) -> Set<Seq<char>>
    decreases edits.len(),
{
    if edits.len() == 0 {
        keys
    } else {
        spec_keys_after_edit(spec_keys_after(keys, section, edits.drop_last()), section, edits.last())
    }
}

/// The keys of an optional section after the edits.
pub open spec fn spec_opt_keys_after(keys: Option<Seq<Seq<char>>>, section: ConfigSection, edits: Seq<ConfigEditView>) -> Option<Set<Seq<char>>> {
    match keys {
        Some(k) => Some(spec_keys_after(k.to_set(), section, edits)),
        None => None,
    }
}

/// Applying two runs of edits is applying the first, then the second.
proof fn lemma_keys_after_append(keys: Set<Seq<char>>, section: ConfigSection, a: Seq<ConfigEditView>, b: Seq<ConfigEditView>)
    ensures
        spec_keys_after(keys, section, a + b) == spec_keys_after(spec_keys_after(keys, section, a), section, b),
    decreases b.len(),
{
    if b.len() == 0 {
        assert(a + b =~= a);
    } else {
        lemma_keys_after_append(keys, section, a, b.drop_last());
        assert((a + b).drop_last() =~= a + b.drop_last());
        assert((a + b).last() == b.last());
    }
}

/// Edits that all touch other sections leave a section as it is.
proof fn lemma_keys_after_other(keys: Set<Seq<char>>, section: ConfigSection, edits: Seq<ConfigEditView>)
    requires
        forall|i: int| 0 <= i < edits.len() ==> #[trigger] spec_edit_section(edits[i]) != section,
    ensures
        spec_keys_after(keys, section, edits) == keys,
    decreases edits.len(),
{
    if edits.len() > 0 {
        assert forall|i: int| 0 <= i < edits.drop_last().len() implies #[trigger] spec_edit_section(edits.drop_last()[i]) != section by {
            assert(edits.drop_last()[i] == edits[i]);
        }
        lemma_keys_after_other(keys, section, edits.drop_last());
        assert(spec_edit_section(edits[edits.len() - 1]) != section);
    }
}

/// The section an edit touches.
pub open spec fn spec_edit_section(e: ConfigEditView) -> ConfigSection {
    match e {
        ConfigEditView::Insert { section, .. } => section,
        ConfigEditView::Remove { section, .. } => section,
        ConfigEditView::Move { section, .. } => section,
    }
}

/// Every edit of `edits` touches `section`.
pub open spec fn spec_all_in(edits: Seq<ConfigEditView>, section: ConfigSection) -> bool {
    forall|i: int| 0 <= i < edits.len() ==> #[trigger] spec_edit_section(edits[i]) == section
}

/// No edit of `edits` touches `section`.
pub open spec fn spec_none_in(edits: Seq<ConfigEditView>, section: ConfigSection) -> bool {
    forall|i: int| 0 <= i < edits.len() ==> #[trigger] spec_edit_section(edits[i]) != section
}

proof fn lemma_all_in_append(a: Seq<ConfigEditView>, b: Seq<ConfigEditView>, section: ConfigSection)
    requires
        spec_all_in(a, section),
        spec_all_in(b, section),
    ensures
        spec_all_in(a + b, section),
{
    assert forall|i: int| 0 <= i < (a + b).len() implies #[trigger] spec_edit_section((a + b)[i]) == section by {
        if i < a.len() {
            assert((a + b)[i] == a[i]);
        } else {
            assert((a + b)[i] == b[i - a.len()]);
        }
    }
}

proof fn lemma_none_in_append(a: Seq<ConfigEditView>, b: Seq<ConfigEditView>, section: ConfigSection)
    requires
        spec_none_in(a, section),
        spec_none_in(b, section),
    ensures
        spec_none_in(a + b, section),
{
    assert forall|i: int| 0 <= i < (a + b).len() implies #[trigger] spec_edit_section((a + b)[i]) != section by {
        if i < a.len() {
            assert((a + b)[i] == a[i]);
        } else {
            assert((a + b)[i] == b[i - a.len()]);
        }
    }
}

proof fn lemma_all_in_other(edits: Seq<ConfigEditView>, section: ConfigSection, other: ConfigSection)
    requires
        spec_all_in(edits, section),
        other != section,
    ensures
        spec_none_in(edits, other),
{
    assert forall|i: int| 0 <= i < edits.len() implies #[trigger] spec_edit_section(edits[i]) != other by {
        assert(spec_edit_section(edits[i]) == section);
    }
}

/// After `set key` unless present, the key is there, whatever else was added.
proof fn lemma_insert_if_absent_after(k: Set<Seq<char>>, kseq: Seq<Seq<char>>, section: ConfigSection, key: Seq<char>, value: ConfigValue)
    requires
        kseq.to_set().subset_of(k),
    ensures
        spec_keys_after(k, section, spec_insert_if_absent(kseq, section, key, value)) == k.insert(key),
        spec_all_in(spec_insert_if_absent(kseq, section, key, value), section),
{
    let e = spec_insert_if_absent(kseq, section, key, value);
    if kseq.contains(key) {
        assert(kseq.to_set().contains(key));
        assert(k.insert(key) =~= k);
        assert(e.len() == 0);
        assert(spec_keys_after(k, section, e) == k);
    } else {
        assert(e.drop_last() =~= Seq::<ConfigEditView>::empty());
        assert(spec_keys_after(k, section, e.drop_last()) == k);
        assert(e.last() == ConfigEditView::Insert { section, key, value });
        assert(spec_keys_after(k, section, e) == spec_keys_after_edit(k, section, e.last()));
    }
}

/// One more `set key` unless present, after edits that kept the starting keys.
proof fn lemma_inserts_after(
    k: Set<Seq<char>>,
    kseq: Seq<Seq<char>>,
    section: ConfigSection,
    done: Seq<ConfigEditView>,
    key: Seq<char>,
    value: ConfigValue,
)
    requires
        kseq.to_set().subset_of(spec_keys_after(k, section, done)),
        spec_all_in(done, section),
    ensures
        spec_keys_after(k, section, done + spec_insert_if_absent(kseq, section, key, value))
            == spec_keys_after(k, section, done).insert(key),
        spec_all_in(done + spec_insert_if_absent(kseq, section, key, value), section),
        kseq.to_set().subset_of(spec_keys_after(k, section, done + spec_insert_if_absent(kseq, section, key, value))),
{
    lemma_keys_after_append(k, section, done, spec_insert_if_absent(kseq, section, key, value));
    lemma_insert_if_absent_after(spec_keys_after(k, section, done), kseq, section, key, value);
    lemma_all_in_append(done, spec_insert_if_absent(kseq, section, key, value), section);
}

/// After the edits, `lm_config` has all five fields it may have lacked.
proof fn lemma_lm_after(kl: Seq<Seq<char>>)
    ensures
        spec_all_in(spec_lm_edits(Some(kl)), ConfigSection::Lm),
        ({
            let after = spec_keys_after(kl.to_set(), ConfigSection::Lm, spec_lm_edits(Some(kl)));
            &&& after.contains("no_rope"@)
            &&& after.contains("kv_channels"@)
            &&& after.contains("rope_theta"@)
            &&& after.contains("dim_model_base"@)
            &&& after.contains("scale_depth"@)
        }),
{
    let k0 = kl.to_set();
    let s = ConfigSection::Lm;
    let e0 = Seq::<ConfigEditView>::empty();
    let a1 = spec_insert_if_absent(kl, s, "no_rope"@, ConfigValue::Bool(false));
    let a2 = spec_insert_if_absent(kl, s, "kv_channels"@, ConfigValue::Null);
    let a3 = spec_insert_if_absent(kl, s, "rope_theta"@, ConfigValue::Integer(10000));
    let a4 = spec_insert_if_absent(kl, s, "dim_model_base"@, ConfigValue::Integer(256));
    let a5 = spec_insert_if_absent(kl, s, "scale_depth"@, ConfigValue::FloatOne);
    assert(spec_keys_after(k0, s, e0) == k0);
    lemma_inserts_after(k0, kl, s, e0, "no_rope"@, ConfigValue::Bool(false));
    assert(e0 + a1 =~= a1);
    lemma_inserts_after(k0, kl, s, a1, "kv_channels"@, ConfigValue::Null);
    lemma_inserts_after(k0, kl, s, a1 + a2, "rope_theta"@, ConfigValue::Integer(10000));
    lemma_inserts_after(k0, kl, s, a1 + a2 + a3, "dim_model_base"@, ConfigValue::Integer(256));
    lemma_inserts_after(k0, kl, s, a1 + a2 + a3 + a4, "scale_depth"@, ConfigValue::FloatOne);
}

/// After the edits, the top level has both reference-audio tokens.
proof fn lemma_root_after(rk: Seq<Seq<char>>)
    ensures
        spec_all_in(spec_root_edits(rk), ConfigSection::Root),
        spec_keys_after(rk.to_set(), ConfigSection::Root, spec_root_edits(rk)).contains("ref_audio_start_token"@),
        spec_keys_after(rk.to_set(), ConfigSection::Root, spec_root_edits(rk)).contains("ref_audio_end_token"@),
{
    let k0 = rk.to_set();
    let s = ConfigSection::Root;
    let e0 = Seq::<ConfigEditView>::empty();
    let a1 = spec_insert_if_absent(rk, s, "ref_audio_start_token"@, ConfigValue::Integer(103));
    assert(spec_keys_after(k0, s, e0) == k0);
    lemma_inserts_after(k0, rk, s, e0, "ref_audio_start_token"@, ConfigValue::Integer(103));
    assert(e0 + a1 =~= a1);
    lemma_inserts_after(k0, rk, s, a1, "ref_audio_end_token"@, ConfigValue::Integer(104));
}

/// One edit that removes a key of `section`.
proof fn lemma_remove_after(k: Set<Seq<char>>, section: ConfigSection, done: Seq<ConfigEditView>, key: Seq<char>)
    ensures
        spec_keys_after(k, section, done.push(ConfigEditView::Remove { section, key }))
            == spec_keys_after(k, section, done).remove(key),
{
    assert(done.push(ConfigEditView::Remove { section, key }).drop_last() =~= done);
}

/// After the edits, `dit_config` has `dit_mean_mode` and no `mean_mode`.
proof fn lemma_dit_after(kd: Seq<Seq<char>>, cfm: Option<Seq<Seq<char>>>)
    ensures
        spec_none_in(spec_dit_edits(Some(kd), cfm), ConfigSection::Root),
        spec_none_in(spec_dit_edits(Some(kd), cfm), ConfigSection::Lm),
        spec_none_in(spec_dit_edits(Some(kd), cfm), ConfigSection::AudioVae),
        spec_keys_after(kd.to_set(), ConfigSection::Dit, spec_dit_edits(Some(kd), cfm)).contains("dit_mean_mode"@),
        !spec_keys_after(kd.to_set(), ConfigSection::Dit, spec_dit_edits(Some(kd), cfm)).contains("mean_mode"@),
{
    reveal_strlit("mean_mode");
    reveal_strlit("dit_mean_mode");
    assert("mean_mode"@.len() != "dit_mean_mode"@.len());
    let k0 = kd.to_set();
    let s = ConfigSection::Dit;
    let e0 = Seq::<ConfigEditView>::empty();
    let first = if kd.contains("mean_mode"@) {
        seq![ConfigEditView::Move { section: s, from: "mean_mode"@, to: "dit_mean_mode"@ }]
    } else {
        spec_insert_if_absent(kd, s, "dit_mean_mode"@, ConfigValue::Bool(false))
    };
    let second = if cfm is Some {
        seq![ConfigEditView::Remove { section: ConfigSection::Cfm, key: "inference_cfg_rate"@ }]
    } else {
        Seq::<ConfigEditView>::empty()
    };
    assert(spec_dit_edits(Some(kd), cfm) == first + second);
    if kd.contains("mean_mode"@) {
        assert(first.drop_last() =~= e0);
        assert(spec_keys_after(k0, s, first.drop_last()) == k0);
        assert(kd.to_set().contains("mean_mode"@));
        assert(spec_keys_after(k0, s, first) == k0.remove("mean_mode"@).insert("dit_mean_mode"@));
        assert(spec_all_in(first, s));
    } else {
        lemma_insert_if_absent_after(k0, kd, s, "dit_mean_mode"@, ConfigValue::Bool(false));
        assert(!kd.to_set().contains("mean_mode"@));
    }
    assert(spec_all_in(second, ConfigSection::Cfm));
    lemma_all_in_other(second, ConfigSection::Cfm, s);
    lemma_keys_after_append(k0, s, first, second);
    lemma_keys_after_other(spec_keys_after(k0, s, first), s, second);
    lemma_all_in_other(first, s, ConfigSection::Root);
    lemma_all_in_other(first, s, ConfigSection::Lm);
    lemma_all_in_other(first, s, ConfigSection::AudioVae);
    lemma_all_in_other(second, ConfigSection::Cfm, ConfigSection::Root);
    lemma_all_in_other(second, ConfigSection::Cfm, ConfigSection::Lm);
    lemma_all_in_other(second, ConfigSection::Cfm, ConfigSection::AudioVae);
    lemma_none_in_append(first, second, ConfigSection::Root);
    lemma_none_in_append(first, second, ConfigSection::Lm);
    lemma_none_in_append(first, second, ConfigSection::AudioVae);
}

/// After the edits, `audio_vae_config` has `depthwise` and `use_noise_block`, and
/// none of the fields that only the second-generation VAE reads.
proof fn lemma_audio_vae_after(ka: Seq<Seq<char>>)
    ensures
        spec_all_in(spec_audio_vae_edits(Some(ka)), ConfigSection::AudioVae),
        ({
            let after = spec_keys_after(ka.to_set(), ConfigSection::AudioVae, spec_audio_vae_edits(Some(ka)));
            &&& after.contains("depthwise"@)
            &&& after.contains("use_noise_block"@)
            &&& !after.contains("sr_bin_boundaries"@)
            &&& !after.contains("out_sample_rate"@)
            &&& !after.contains("cond_type"@)
            &&& !after.contains("cond_dim"@)
            &&& !after.contains("cond_out_layer"@)
        }),
{
    reveal_strlit("depthwise");
    reveal_strlit("use_noise_block");
    reveal_strlit("sr_bin_boundaries");
    reveal_strlit("out_sample_rate");
    reveal_strlit("cond_type");
    reveal_strlit("cond_dim");
    reveal_strlit("cond_out_layer");
    let k0 = ka.to_set();
    let s = ConfigSection::AudioVae;
    let e0 = Seq::<ConfigEditView>::empty();
    let a1 = spec_insert_if_absent(ka, s, "depthwise"@, ConfigValue::Bool(true));
    let a2 = spec_insert_if_absent(ka, s, "use_noise_block"@, ConfigValue::Bool(false));
    assert(spec_keys_after(k0, s, e0) == k0);
    lemma_inserts_after(k0, ka, s, e0, "depthwise"@, ConfigValue::Bool(true));
    assert(e0 + a1 =~= a1);
    lemma_inserts_after(k0, ka, s, a1, "use_noise_block"@, ConfigValue::Bool(false));
    let ins = a1 + a2;
    let r1 = ConfigEditView::Remove { section: s, key: "sr_bin_boundaries"@ };
    let r2 = ConfigEditView::Remove { section: s, key: "out_sample_rate"@ };
    let r3 = ConfigEditView::Remove { section: s, key: "cond_type"@ };
    let r4 = ConfigEditView::Remove { section: s, key: "cond_dim"@ };
    let r5 = ConfigEditView::Remove { section: s, key: "cond_out_layer"@ };
    let all = ins.push(r1).push(r2).push(r3).push(r4).push(r5);
    assert(spec_audio_vae_edits(Some(ka)) =~= all);
    lemma_remove_after(k0, s, ins, "sr_bin_boundaries"@);
    lemma_remove_after(k0, s, ins.push(r1), "out_sample_rate"@);
    lemma_remove_after(k0, s, ins.push(r1).push(r2), "cond_type"@);
    lemma_remove_after(k0, s, ins.push(r1).push(r2).push(r3), "cond_dim"@);
    lemma_remove_after(k0, s, ins.push(r1).push(r2).push(r3).push(r4), "cond_out_layer"@);
    assert("depthwise"@[0] != "cond_type"@[0]);
    assert("use_noise_block"@[0] != "out_sample_rate"@[0]);
    assert forall|i: int| 0 <= i < all.len() implies #[trigger] spec_edit_section(all[i]) == s by {
        if i < ins.len() {
            assert(all[i] == ins[i]);
        }
    }
}

/// After the edits, `cfm_config` has no `inference_cfg_rate`.
proof fn lemma_cfm_after(
    root: Seq<Seq<char>>,
    lm: Option<Seq<Seq<char>>>,
    kd: Seq<Seq<char>>,
    kc: Seq<Seq<char>>,
    av: Option<Seq<Seq<char>>>,
)
    ensures
        !spec_keys_after(kc.to_set(), ConfigSection::Cfm, spec_config_edits(root, lm, Some(kd), Some(kc), av))
            .contains("inference_cfg_rate"@),
{
    let s = ConfigSection::Cfm;
    let k0 = kc.to_set();
    let lm_e = spec_lm_edits(lm);
    let root_e = spec_root_edits(root);
    let dit_e = spec_dit_edits(Some(kd), Some(kc));
    let av_e = spec_audio_vae_edits(av);
    match lm {
        Some(kl) => {
            lemma_lm_after(kl);
            lemma_all_in_other(lm_e, ConfigSection::Lm, s);
        },
        None => {},
    }
    lemma_root_after(root);
    lemma_all_in_other(root_e, ConfigSection::Root, s);
    match av {
        Some(ka) => {
            lemma_audio_vae_after(ka);
            lemma_all_in_other(av_e, ConfigSection::AudioVae, s);
        },
        None => {},
    }
    let first = if kd.contains("mean_mode"@) {
        seq![ConfigEditView::Move { section: ConfigSection::Dit, from: "mean_mode"@, to: "dit_mean_mode"@ }]
    } else {
        spec_insert_if_absent(kd, ConfigSection::Dit, "dit_mean_mode"@, ConfigValue::Bool(false))
    };
    let rm = ConfigEditView::Remove { section: s, key: "inference_cfg_rate"@ };
    assert(dit_e == first + seq![rm]);
    assert(spec_all_in(first, ConfigSection::Dit));
    lemma_all_in_other(first, ConfigSection::Dit, s);
    lemma_keys_after_other(k0, s, lm_e);
    lemma_keys_after_append(k0, s, lm_e, root_e);
    lemma_keys_after_other(k0, s, root_e);
    lemma_keys_after_append(k0, s, lm_e + root_e, first);
    lemma_keys_after_other(k0, s, first);
    assert(first + seq![rm] =~= first.push(rm));
    lemma_remove_after(k0, s, (lm_e + root_e) + first, "inference_cfg_rate"@);
    assert(((lm_e + root_e) + first).push(rm) =~= (lm_e + root_e) + dit_e);
    lemma_keys_after_append(k0, s, (lm_e + root_e) + dit_e, av_e);
    lemma_keys_after_other(spec_keys_after(k0, s, (lm_e + root_e) + dit_e), s, av_e);
}

/// The keys of a section after all the edits are those after its own edits (the
/// `which`-th run); the other runs touch other sections.
proof fn lemma_section_after(
    k: Set<Seq<char>>,
    section: ConfigSection,
    lm_e: Seq<ConfigEditView>,
    root_e: Seq<ConfigEditView>,
    dit_e: Seq<ConfigEditView>,
    av_e: Seq<ConfigEditView>,
    which: int,
)
    requires
        0 <= which < 4,
        which != 0 ==> spec_none_in(lm_e, section),
        which != 1 ==> spec_none_in(root_e, section),
        which != 2 ==> spec_none_in(dit_e, section),
        which != 3 ==> spec_none_in(av_e, section),
    ensures
        spec_keys_after(k, section, ((lm_e + root_e) + dit_e) + av_e) == spec_keys_after(
            k,
            section,
            if which == 0 { lm_e } else if which == 1 { root_e } else if which == 2 { dit_e } else { av_e },
        ),
{
    lemma_keys_after_append(k, section, (lm_e + root_e) + dit_e, av_e);
    lemma_keys_after_append(k, section, lm_e + root_e, dit_e);
    lemma_keys_after_append(k, section, lm_e, root_e);
    let a1 = spec_keys_after(k, section, lm_e);
    let a2 = spec_keys_after(a1, section, root_e);
    let a3 = spec_keys_after(a2, section, dit_e);
    if which != 0 {
        lemma_keys_after_other(k, section, lm_e);
    }
    if which != 1 {
        lemma_keys_after_other(a1, section, root_e);
    }
    if which != 2 {
        lemma_keys_after_other(a2, section, dit_e);
    }
    if which != 3 {
        lemma_keys_after_other(a3, section, av_e);
    }
}

/// What a settled configuration holds: the keys that the model types need.
pub open spec fn spec_settled(
    root: Set<Seq<char>>,
    lm: Option<Set<Seq<char>>>,
    dit: Option<Set<Seq<char>>>,
    cfm: Option<Set<Seq<char>>>,
    av: Option<Set<Seq<char>>>,
) -> bool {
    &&& root.contains("ref_audio_start_token"@) && root.contains("ref_audio_end_token"@)
    &&& lm matches Some(k) ==> {
        &&& k.contains("no_rope"@) && k.contains("kv_channels"@) && k.contains("rope_theta"@)
        &&& k.contains("dim_model_base"@) && k.contains("scale_depth"@)
    }
    &&& dit matches Some(k) ==> k.contains("dit_mean_mode"@) && !k.contains("mean_mode"@)
    &&& (dit is Some && cfm is Some) ==> !cfm->0.contains("inference_cfg_rate"@)
    &&& av matches Some(k) ==> {
        &&& k.contains("depthwise"@) && k.contains("use_noise_block"@)
        &&& !k.contains("sr_bin_boundaries"@) && !k.contains("out_sample_rate"@) && !k.contains("cond_type"@)
        &&& !k.contains("cond_dim"@) && !k.contains("cond_out_layer"@)
    }
}

/// The compatibility edits settle a configuration: after them it has every field
/// that the first-generation model types need, and none of the second-generation
/// fields they refuse.
pub proof fn lemma_config_edits_settle(
    root: Seq<Seq<char>>,
    lm: Option<Seq<Seq<char>>>,
    dit: Option<Seq<Seq<char>>>,
    cfm: Option<Seq<Seq<char>>>,
    av: Option<Seq<Seq<char>>>,
)
    ensures
        ({
            let e = spec_config_edits(root, lm, dit, cfm, av);
            spec_settled(
                spec_keys_after(root.to_set(), ConfigSection::Root, e),
                spec_opt_keys_after(lm, ConfigSection::Lm, e),
                spec_opt_keys_after(dit, ConfigSection::Dit, e),
                spec_opt_keys_after(cfm, ConfigSection::Cfm, e),
                spec_opt_keys_after(av, ConfigSection::AudioVae, e),
            )
        }),
{
    let lm_e = spec_lm_edits(lm);
    let root_e = spec_root_edits(root);
    let dit_e = spec_dit_edits(dit, cfm);
    let av_e = spec_audio_vae_edits(av);
    lemma_root_after(root);
    lemma_all_in_other(root_e, ConfigSection::Root, ConfigSection::Lm);
    lemma_all_in_other(root_e, ConfigSection::Root, ConfigSection::Dit);
    lemma_all_in_other(root_e, ConfigSection::Root, ConfigSection::AudioVae);
    match lm {
        Some(kl) => {
            lemma_lm_after(kl);
            lemma_all_in_other(lm_e, ConfigSection::Lm, ConfigSection::Root);
            lemma_all_in_other(lm_e, ConfigSection::Lm, ConfigSection::Dit);
            lemma_all_in_other(lm_e, ConfigSection::Lm, ConfigSection::AudioVae);
        },
        None => {},
    }
    match av {
        Some(ka) => {
            lemma_audio_vae_after(ka);
            lemma_all_in_other(av_e, ConfigSection::AudioVae, ConfigSection::Root);
            lemma_all_in_other(av_e, ConfigSection::AudioVae, ConfigSection::Lm);
            lemma_all_in_other(av_e, ConfigSection::AudioVae, ConfigSection::Dit);
        },
        None => {},
    }
    match dit {
        Some(kd) => {
            lemma_dit_after(kd, cfm);
            let first = if kd.contains("mean_mode"@) {
                seq![ConfigEditView::Move { section: ConfigSection::Dit, from: "mean_mode"@, to: "dit_mean_mode"@ }]
            } else {
                spec_insert_if_absent(kd, ConfigSection::Dit, "dit_mean_mode"@, ConfigValue::Bool(false))
            };
            assert(spec_all_in(first, ConfigSection::Dit));
            lemma_section_after(kd.to_set(), ConfigSection::Dit, lm_e, root_e, dit_e, av_e, 2);
            match cfm {
                Some(kc) => lemma_cfm_after(root, lm, kd, kc, av),
                None => {},
            }
        },
        None => {},
    }
    let e = ((lm_e + root_e) + dit_e) + av_e;
    assert(spec_none_in(dit_e, ConfigSection::Root) && spec_none_in(dit_e, ConfigSection::Lm)
        && spec_none_in(dit_e, ConfigSection::AudioVae)) by {
        if dit is None {
            assert(dit_e.len() == 0);
        }
    }
    assert(lm is None ==> lm_e.len() == 0);
    assert(av is None ==> av_e.len() == 0);
    if lm is None || av is None {
        assert(spec_none_in(Seq::<ConfigEditView>::empty(), ConfigSection::Root));
    }
    lemma_section_after(root.to_set(), ConfigSection::Root, lm_e, root_e, dit_e, av_e, 1);
    match lm {
        Some(kl) => lemma_section_after(kl.to_set(), ConfigSection::Lm, lm_e, root_e, dit_e, av_e, 0),
        None => {},
    }
    match av {
        Some(ka) => lemma_section_after(ka.to_set(), ConfigSection::AudioVae, lm_e, root_e, dit_e, av_e, 3),
        None => {},
    }
}

/// The key set of an optional section.
pub open spec fn spec_opt_key_set(keys: Option<Seq<Seq<char>>>) -> Option<Set<Seq<char>>> {
    match keys {
        Some(k) => Some(k.to_set()),
        None => None,
    }
}

/// Only removals.
pub open spec fn spec_only_removals(edits: Seq<ConfigEditView>) -> bool {
    forall|i: int| 0 <= i < edits.len() ==> (#[trigger] edits[i]) is Remove
}

proof fn lemma_only_removals_append(a: Seq<ConfigEditView>, b: Seq<ConfigEditView>)
    requires
        spec_only_removals(a),
        spec_only_removals(b),
    ensures
        spec_only_removals(a + b),
{
    assert forall|i: int| 0 <= i < (a + b).len() implies (#[trigger] (a + b)[i]) is Remove by {
        if i < a.len() {
            assert((a + b)[i] == a[i]);
        } else {
            assert((a + b)[i] == b[i - a.len()]);
        }
    }
}

/// On a configuration that is already settled the edits only repeat removals:
/// running them a second time inserts and renames nothing.
pub proof fn lemma_settled_needs_no_inserts(
    root: Seq<Seq<char>>,
    lm: Option<Seq<Seq<char>>>,
    dit: Option<Seq<Seq<char>>>,
    cfm: Option<Seq<Seq<char>>>,
    av: Option<Seq<Seq<char>>>,
)
    requires
        spec_settled(root.to_set(), spec_opt_key_set(lm), spec_opt_key_set(dit), spec_opt_key_set(cfm), spec_opt_key_set(av)),
    ensures
        spec_only_removals(spec_config_edits(root, lm, dit, cfm, av)),
{
    broadcast use vstd::seq_lib::group_seq_properties;
    let lm_e = spec_lm_edits(lm);
    let root_e = spec_root_edits(root);
    let dit_e = spec_dit_edits(dit, cfm);
    let av_e = spec_audio_vae_edits(av);
    assert(root.to_set().contains("ref_audio_start_token"@));
    assert(root.contains("ref_audio_start_token"@));
    assert(root.contains("ref_audio_end_token"@));
    assert(root_e =~= Seq::<ConfigEditView>::empty());
    match lm {
        Some(kl) => {
            assert(kl.contains("no_rope"@) && kl.contains("kv_channels"@) && kl.contains("rope_theta"@));
            assert(kl.contains("dim_model_base"@) && kl.contains("scale_depth"@));
            assert(lm_e =~= Seq::<ConfigEditView>::empty());
        },
        None => {},
    }
    match dit {
        Some(kd) => {
            assert(!kd.contains("mean_mode"@));
            assert(kd.contains("dit_mean_mode"@));
            assert(spec_only_removals(dit_e));
        },
        None => {},
    }
    match av {
        Some(ka) => {
            assert(ka.contains("depthwise"@) && ka.contains("use_noise_block"@));
            assert(spec_only_removals(av_e));
        },
        None => {},
    }
    lemma_only_removals_append(lm_e, root_e);
    lemma_only_removals_append(lm_e + root_e, dit_e);
    lemma_only_removals_append((lm_e + root_e) + dit_e, av_e);
}


// ---------------------------------------------------------------------------
// Applying the edits to the parsed config.json
// ---------------------------------------------------------------------------

/// `serde_json::Value`, a parsed JSON document, carried through unopened.
#[verifier::external_type_specification]
#[verifier::external_body]
pub struct ExJsonValue(serde_json::Value);

/// `serde_json::Error`, the error of the JSON parser, carried through unopened.
#[verifier::external_type_specification]
#[verifier::external_body]
pub struct ExJsonError(serde_json::Error);

/// What `serde_json::from_str::<serde_json::Value>` makes of a text: the document,
/// or `None` where the text is not JSON.
pub uninterp spec fn json_from_str(raw: Seq<char>) -> Option<serde_json::Value>;

/// The keys of a JSON value that is an object, in the order its map holds them;
/// `None` for a value of any other kind.
pub uninterp spec fn json_object_keys(v: serde_json::Value) -> Option<Seq<Seq<char>>>;

/// The value stored under `key` in a JSON value that is an object and has that key;
/// `None` otherwise.
pub uninterp spec fn json_get(v: serde_json::Value, key: Seq<char>) -> Option<serde_json::Value>;

/// The JSON scalar that a `ConfigValue` stands for.
pub uninterp spec fn json_of_config_value(c: ConfigValue) -> serde_json::Value;

/// `serde_json::from_str::<serde_json::Value>(raw)`. Claimed: the result is a
/// function of the text; it succeeds exactly where that function gives a document.
#[verifier::external_body]
fn json_parse(raw: &str) -> (r: Result<serde_json::Value, serde_json::Error>)
    ensures
        r is Ok <==> json_from_str(raw@) is Some,
        r matches Ok(v) ==> json_from_str(raw@) == Some(v),
{
    serde_json::from_str::<serde_json::Value>(raw)
}

/// `Value::as_object` and the keys of the map it gives. Claimed: the keys of an
/// object, `None` for any other value.
#[verifier::external_body]
fn json_keys_of(v: &serde_json::Value) -> (r: Option<Vec<String>>)
    ensures
        opt_keys_view(r) == json_object_keys(*v),
{
    match v.as_object() {
        Some(o) => Some(o.keys().cloned().collect()),
        None => None,
    }
}

/// `Value::get` with a string key. Claimed: the value under `key`, which is present
/// exactly when the value is an object that has the key.
#[verifier::external_body]
fn json_get_ref<'a>(v: &'a serde_json::Value, key: &str) -> (r: Option<&'a serde_json::Value>)
    ensures
        r is None <==> json_get(*v, key@) is None,
        r matches Some(c) ==> json_get(*v, key@) == Some(*c),
        json_object_keys(*v) is None ==> r is None,
        json_object_keys(*v) matches Some(ks) ==> (r is Some <==> ks.contains(key@)),
{
    v.get(key)
}

/// `Value::as_object_mut` and `Map::insert` on an object. Claimed: `key` then holds
/// `value`, the key set gains `key`, and every other key keeps its value.
#[verifier::external_body]
fn json_insert(v: &mut serde_json::Value, key: String, value: serde_json::Value)
    requires
        json_object_keys(*old(v)) is Some,
    ensures
        json_object_keys(*final(v)) is Some,
        json_object_keys(*final(v))->0.to_set() == json_object_keys(*old(v))->0.to_set().insert(key@),
        json_get(*final(v), key@) == Some(value),
        forall|k: Seq<char>| k != key@ ==> #[trigger] json_get(*final(v), k) == json_get(*old(v), k),
{
    if let Some(o) = v.as_object_mut() {
        o.insert(key, value);
    }
}

/// `Value::as_object_mut` and `Map::remove` on an object. Claimed: it gives the
/// value that `key` held, if any; the key set loses `key`, and every other key keeps
/// its value.
#[verifier::external_body]
fn json_remove(v: &mut serde_json::Value, key: &str) -> (r: Option<serde_json::Value>)
    requires
        json_object_keys(*old(v)) is Some,
    ensures
        r == json_get(*old(v), key@),
        r is Some <==> json_object_keys(*old(v))->0.contains(key@),
        json_object_keys(*final(v)) is Some,
        json_object_keys(*final(v))->0.to_set() == json_object_keys(*old(v))->0.to_set().remove(key@),
        json_get(*final(v), key@) is None,
        forall|k: Seq<char>| k != key@ ==> #[trigger] json_get(*final(v), k) == json_get(*old(v), k),
{
    match v.as_object_mut() {
        Some(o) => o.remove(key),
        None => None,
    }
}

/// `Value::Null`, `Value::Bool`, `Value::from` of an integer, and the number 1.0
/// read by `serde_json::from_str`. Claimed: the scalar that `c` stands for, which is
/// not an object.
#[verifier::external_body]
fn json_scalar(c: ConfigValue) -> (r: serde_json::Value)
    ensures
        r == json_of_config_value(c),
        json_object_keys(r) is None,
{
    match c {
        ConfigValue::Null => serde_json::Value::Null,
        ConfigValue::Bool(b) => serde_json::Value::Bool(b),
        ConfigValue::Integer(n) => serde_json::Value::from(n),
        ConfigValue::FloatOne => serde_json::from_str::<serde_json::Value>("1.0").unwrap_or(serde_json::Value::Null),
    }
}

/// The key under which the top-level object holds a section (`Cfm` sits under
/// `dit_config`).
pub open spec fn spec_section_key(s: ConfigSection) -> Seq<char> {
    match s {
        ConfigSection::Root => Seq::empty(),
        ConfigSection::Lm => "lm_config"@,
        ConfigSection::Dit => "dit_config"@,
        ConfigSection::Cfm => "cfm_config"@,
        ConfigSection::AudioVae => "audio_vae_config"@,
    }
}

/// The JSON value of a section of a config document, if present.
pub open spec fn spec_section_value(v: serde_json::Value, s: ConfigSection) -> Option<serde_json::Value> {
    match s {
        ConfigSection::Root => Some(v),
        ConfigSection::Cfm => match json_get(v, "dit_config"@) {
            Some(d) => json_get(d, "cfm_config"@),
            None => None,
        },
        _ => json_get(v, spec_section_key(s)),
    }
}

/// The keys of a section of a config document, where it is an object.
pub open spec fn spec_section_keys(v: serde_json::Value, s: ConfigSection) -> Option<Seq<Seq<char>>> {
    match spec_section_value(v, s) {
        Some(x) => json_object_keys(x),
        None => None,
    }
}

/// The compatibility edits of a parsed config document (`cfm_config` only counts
/// inside an object `dit_config`).
pub open spec fn spec_json_edits(p: serde_json::Value) -> Seq<ConfigEditView> {
    spec_config_edits(
        json_object_keys(p)->0,
        spec_section_keys(p, ConfigSection::Lm),
        spec_section_keys(p, ConfigSection::Dit),
        if spec_section_keys(p, ConfigSection::Dit) is Some { spec_section_keys(p, ConfigSection::Cfm) } else { None },
        spec_section_keys(p, ConfigSection::AudioVae),
    )
}

/// Why `config.json` could not be prepared.
#[derive(Debug)]
pub enum ConfigError {
    /// The text is not JSON.
    Parse(serde_json::Error),
    /// The document is not a JSON object.
    NotAnObject,
}

/// The key set of an optional section after one edit.
pub open spec fn spec_opt_set_after_edit(keys: Option<Set<Seq<char>>>, s: ConfigSection, e: ConfigEditView) -> Option<Set<Seq<char>>> {
    match keys {
        Some(k) => Some(spec_keys_after_edit(k, s, e)),
        None => None,
    }
}

/// Whether an edit names `key`.
pub open spec fn spec_edit_names(e: ConfigEditView, key: Seq<char>) -> bool {
    match e {
        ConfigEditView::Insert { key: k, .. } => k == key,
        ConfigEditView::Remove { key: k, .. } => k == key,
        ConfigEditView::Move { from, to, .. } => from == key || to == key,
    }
}

/// An edit can be made on the document: its section is an object there, and it
/// names no key under which another section sits.
pub open spec fn spec_edit_fits(e: ConfigEditView, v: serde_json::Value) -> bool {
    &&& spec_section_keys(v, spec_edit_section(e)) is Some
    &&& spec_edit_section(e) == ConfigSection::Cfm ==> spec_section_keys(v, ConfigSection::Dit) is Some
    &&& spec_edit_section(e) == ConfigSection::Root ==> {
        &&& !spec_edit_names(e, "lm_config"@)
        &&& !spec_edit_names(e, "dit_config"@)
        &&& !spec_edit_names(e, "audio_vae_config"@)
    }
    &&& spec_edit_section(e) == ConfigSection::Dit ==> !spec_edit_names(e, "cfm_config"@)
}

/// The value under `k` of an object after one edit of it: an insert stores the
/// edit's value, a removal takes the key out, a move takes `from` out and stores its
/// value under `to` (when `from` was there); every other key keeps its value.
pub open spec fn spec_get_after_edit(x: serde_json::Value, e: ConfigEditView, k: Seq<char>) -> Option<serde_json::Value> {
    match e {
        ConfigEditView::Insert { key, value, .. } => if k == key { Some(json_of_config_value(value)) } else { json_get(x, k) },
        ConfigEditView::Remove { key, .. } => if k == key { None } else { json_get(x, k) },
        ConfigEditView::Move { from, to, .. } => if k == to && json_get(x, from) is Some {
            json_get(x, from)
        } else if k == from {
            None
        } else {
            json_get(x, k)
        },
    }
}

/// The value under `k` of section `s`, whose object was `x0`, after a run of edits
/// (those of other sections leave it alone).
pub open spec fn spec_section_get_after(x0: serde_json::Value, s: ConfigSection, edits: Seq<ConfigEditView>, k: Seq<char>) -> Option<serde_json::Value>
    decreases edits.len(),
{
    if edits.len() == 0 {
        json_get(x0, k)
    } else {
        let e = edits.last();
        let prev = edits.drop_last();
        if spec_edit_section(e) != s {
            spec_section_get_after(x0, s, prev, k)
        } else {
            match e {
                ConfigEditView::Insert { key, value, .. } => if k == key {
                    Some(json_of_config_value(value))
                } else {
                    spec_section_get_after(x0, s, prev, k)
                },
                ConfigEditView::Remove { key, .. } => if k == key { None } else { spec_section_get_after(x0, s, prev, k) },
                ConfigEditView::Move { from, to, .. } => if k == to && spec_section_get_after(x0, s, prev, from) is Some {
                    spec_section_get_after(x0, s, prev, from)
                } else if k == from {
                    None
                } else {
                    spec_section_get_after(x0, s, prev, k)
                },
            }
        }
    }
}

/// The value under `k` of section `s` (object `x`) after one edit, which touches
/// `s` or another section.
pub open spec fn spec_get_after_edit_in(x: serde_json::Value, s: ConfigSection, e: ConfigEditView, k: Seq<char>) -> Option<serde_json::Value> {
    if spec_edit_section(e) == s { spec_get_after_edit(x, e, k) } else { json_get(x, k) }
}

/// Whether `k` is the key under which section `s` holds another section.
pub open spec fn spec_nested_key(s: ConfigSection, k: Seq<char>) -> bool {
    match s {
        ConfigSection::Root => k == "lm_config"@ || k == "dit_config"@ || k == "audio_vae_config"@,
        ConfigSection::Dit => k == "cfm_config"@,
        _ => false,
    }
}

/// The section held under the nested key `k` of section `s`.
pub open spec fn spec_nested_section(s: ConfigSection, k: Seq<char>) -> ConfigSection {
    if s == ConfigSection::Dit {
        ConfigSection::Cfm
    } else if k == "lm_config"@ {
        ConfigSection::Lm
    } else if k == "dit_config"@ {
        ConfigSection::Dit
    } else {
        ConfigSection::AudioVae
    }
}

/// One edit made on an object: its key set changes as the edit says, and every key
/// that the edit does not name keeps its value.
fn apply_to_object(x: &mut serde_json::Value, e: &ConfigEdit)
    requires
        json_object_keys(*old(x)) is Some,
    ensures
        json_object_keys(*final(x)) is Some,
        json_object_keys(*final(x))->0.to_set()
            == spec_keys_after_edit(json_object_keys(*old(x))->0.to_set(), spec_edit_section(e@), e@),
        forall|k: Seq<char>| !spec_edit_names(e@, k) ==> #[trigger] json_get(*final(x), k) == json_get(*old(x), k),
        forall|k: Seq<char>| #[trigger] json_get(*final(x), k) == spec_get_after_edit(*old(x), e@, k),
{
    match e {
        ConfigEdit::Insert { section: _, key, value } => {
            json_insert(x, key.clone(), json_scalar(*value));
        },
        ConfigEdit::Remove { section: _, key } => {
            let _ = json_remove(x, key.as_str());
            assert(json_object_keys(*x)->0.to_set() =~= json_object_keys(*old(x))->0.to_set().remove(key@));
        },
        ConfigEdit::Move { section: _, from, to } => {
            let moved = json_remove(x, from.as_str());
            match moved {
                Some(val) => {
                    json_insert(x, to.clone(), val);
                },
                None => {
                    assert(json_object_keys(*x)->0.to_set() =~= json_object_keys(*old(x))->0.to_set());
                },
            }
        },
    }
}

/// The section an edit touches.
fn edit_section(e: &ConfigEdit) -> (s: ConfigSection)
    ensures
        s == spec_edit_section(e@),
{
    match e {
        ConfigEdit::Insert { section, .. } => *section,
        ConfigEdit::Remove { section, .. } => *section,
        ConfigEdit::Move { section, .. } => *section,
    }
}

/// The key of a section that sits in the top-level object.
fn section_key(s: ConfigSection) -> (r: &'static str)
    requires
        s == ConfigSection::Lm || s == ConfigSection::Dit || s == ConfigSection::AudioVae,
    ensures
        r@ == spec_section_key(s),
{
    match s {
        ConfigSection::Lm => "lm_config",
        ConfigSection::Dit => "dit_config",
        _ => "audio_vae_config",
    }
}

proof fn lemma_section_keys_distinct()
    ensures
        "lm_config"@ != "dit_config"@,
        "lm_config"@ != "audio_vae_config"@,
        "dit_config"@ != "audio_vae_config"@,
{
    reveal_strlit("lm_config");
    reveal_strlit("dit_config");
    reveal_strlit("audio_vae_config");
    assert("lm_config"@.len() == 9);
    assert("dit_config"@.len() == 10);
    assert("audio_vae_config"@.len() == 16);
}

/// One edit made on a config document, in the section it names: that section's keys
/// change as the edit says, and no other section changes.
fn apply_edit(config: &mut serde_json::Value, e: &ConfigEdit)
    requires
        json_object_keys(*old(config)) is Some,
        spec_edit_fits(e@, *old(config)),
    ensures
        json_object_keys(*final(config)) is Some,
        forall|s: ConfigSection| #[trigger] spec_opt_key_set(spec_section_keys(*final(config), s))
            == spec_opt_set_after_edit(spec_opt_key_set(spec_section_keys(*old(config), s)), s, e@),
        forall|s: ConfigSection, k: Seq<char>|
            spec_section_keys(*old(config), s) is Some && !spec_nested_key(s, k) ==>
            #[trigger] json_get(spec_section_value(*final(config), s)->0, k) == spec_get_after_edit_in(
                spec_section_value(*old(config), s)->0, s, e@, k),
        forall|s: ConfigSection, k: Seq<char>|
            spec_section_keys(*old(config), s) is Some && spec_nested_key(s, k)
                && spec_section_keys(*old(config), spec_nested_section(s, k)) is None ==>
            #[trigger] json_get(spec_section_value(*final(config), s)->0, k) == json_get(spec_section_value(*old(config), s)->0, k),
{
    proof {
        lemma_section_keys_distinct();
    }
    let ghost c0 = *config;
    let section = edit_section(e);
    match section {
        ConfigSection::Root => {
            apply_to_object(config, e);
            assert forall|s: ConfigSection| #[trigger] spec_opt_key_set(spec_section_keys(*config, s))
                == spec_opt_set_after_edit(spec_opt_key_set(spec_section_keys(c0, s)), s, e@) by {
                assert(json_get(*config, "lm_config"@) == json_get(c0, "lm_config"@));
                assert(json_get(*config, "dit_config"@) == json_get(c0, "dit_config"@));
                assert(json_get(*config, "audio_vae_config"@) == json_get(c0, "audio_vae_config"@));
            }
        },
        ConfigSection::Cfm => {
            let d = json_remove(config, "dit_config");
            match d {
                Some(d) => {
                    let mut d = d;
                    let ghost d0 = d;
                    let c = json_remove(&mut d, "cfm_config");
                    match c {
                        Some(c) => {
                            let mut c = c;
                            apply_to_object(&mut c, e);
                            json_insert(&mut d, String::from_str("cfm_config"), c);
                        },
                        None => {},
                    }
                    assert(json_object_keys(d)->0.to_set() =~= json_object_keys(d0)->0.to_set());
                    json_insert(config, String::from_str("dit_config"), d);
                    assert(json_object_keys(*config)->0.to_set() =~= json_object_keys(c0)->0.to_set());
                    assert forall|s: ConfigSection| #[trigger] spec_opt_key_set(spec_section_keys(*config, s))
                        == spec_opt_set_after_edit(spec_opt_key_set(spec_section_keys(c0, s)), s, e@) by {
                        assert(json_get(*config, "lm_config"@) == json_get(c0, "lm_config"@));
                        assert(json_get(*config, "audio_vae_config"@) == json_get(c0, "audio_vae_config"@));
                    }
                },
                None => {},
            }
        },
        _ => {
            let name = section_key(section);
            let c = json_remove(config, name);
            match c {
                Some(c) => {
                    let mut c = c;
                    let ghost cc = c;
                    apply_to_object(&mut c, e);
                    json_insert(config, String::from_str(name), c);
                    assert(json_object_keys(*config)->0.to_set() =~= json_object_keys(c0)->0.to_set());
                    assert forall|s: ConfigSection| #[trigger] spec_opt_key_set(spec_section_keys(*config, s))
                        == spec_opt_set_after_edit(spec_opt_key_set(spec_section_keys(c0, s)), s, e@) by {
                        if s != section && s != ConfigSection::Root {
                            if s == ConfigSection::Cfm {
                                if section != ConfigSection::Dit {
                                    assert(json_get(*config, "dit_config"@) == json_get(c0, "dit_config"@));
                                } else {
                                    assert(json_get(c, "cfm_config"@) == json_get(cc, "cfm_config"@));
                                }
                            } else {
                                assert(json_get(*config, spec_section_key(s)) == json_get(c0, spec_section_key(s)));
                            }
                        }
                    }
                },
                None => {},
            }
        },
    }
}


/// An edit fits a configuration whose sections have the given keys: its section is
/// present, and it names no key under which another section sits.
pub open spec fn spec_edit_fits_shape(
    e: ConfigEditView,
    lm: Option<Seq<Seq<char>>>,
    dit: Option<Seq<Seq<char>>>,
    cfm: Option<Seq<Seq<char>>>,
    av: Option<Seq<Seq<char>>>,
) -> bool {
    match spec_edit_section(e) {
        ConfigSection::Root => !spec_edit_names(e, "lm_config"@) && !spec_edit_names(e, "dit_config"@)
            && !spec_edit_names(e, "audio_vae_config"@),
        ConfigSection::Lm => lm is Some,
        ConfigSection::Dit => dit is Some && !spec_edit_names(e, "cfm_config"@),
        ConfigSection::Cfm => dit is Some && cfm is Some,
        ConfigSection::AudioVae => av is Some,
    }
}

pub open spec fn spec_all_fit(
    edits: Seq<ConfigEditView>,
    lm: Option<Seq<Seq<char>>>,
    dit: Option<Seq<Seq<char>>>,
    cfm: Option<Seq<Seq<char>>>,
    av: Option<Seq<Seq<char>>>,
) -> bool {
    forall|i: int| 0 <= i < edits.len() ==> #[trigger] spec_edit_fits_shape(edits[i], lm, dit, cfm, av)
}

proof fn lemma_all_fit_append(
    a: Seq<ConfigEditView>,
    b: Seq<ConfigEditView>,
    lm: Option<Seq<Seq<char>>>,
    dit: Option<Seq<Seq<char>>>,
    cfm: Option<Seq<Seq<char>>>,
    av: Option<Seq<Seq<char>>>,
)
    requires
        spec_all_fit(a, lm, dit, cfm, av),
        spec_all_fit(b, lm, dit, cfm, av),
    ensures
        spec_all_fit(a + b, lm, dit, cfm, av),
{
    assert forall|i: int| 0 <= i < (a + b).len() implies #[trigger] spec_edit_fits_shape((a + b)[i], lm, dit, cfm, av) by {
        if i < a.len() {
            assert((a + b)[i] == a[i]);
        } else {
            assert((a + b)[i] == b[i - a.len()]);
        }
    }
}

/// Every compatibility edit fits the configuration it is made for.
proof fn lemma_edits_fit(
    root: Seq<Seq<char>>,
    lm: Option<Seq<Seq<char>>>,
    dit: Option<Seq<Seq<char>>>,
    cfm: Option<Seq<Seq<char>>>,
    av: Option<Seq<Seq<char>>>,
)
    requires
        dit is None ==> cfm is None,
    ensures
        spec_all_fit(spec_config_edits(root, lm, dit, cfm, av), lm, dit, cfm, av),
{
    reveal_strlit("lm_config");
    reveal_strlit("dit_config");
    reveal_strlit("cfm_config");
    reveal_strlit("audio_vae_config");
    reveal_strlit("ref_audio_start_token");
    reveal_strlit("ref_audio_end_token");
    reveal_strlit("mean_mode");
    reveal_strlit("dit_mean_mode");
    reveal_strlit("inference_cfg_rate");
    let lm_e = spec_lm_edits(lm);
    let root_e = spec_root_edits(root);
    let dit_e = spec_dit_edits(dit, cfm);
    let av_e = spec_audio_vae_edits(av);
    assert(spec_all_fit(lm_e, lm, dit, cfm, av)) by {
        match lm {
            Some(kl) => {
                lemma_lm_after(kl);
                assert forall|i: int| 0 <= i < lm_e.len() implies #[trigger] spec_edit_fits_shape(lm_e[i], lm, dit, cfm, av) by {
                    assert(spec_edit_section(lm_e[i]) == ConfigSection::Lm);
                }
            },
            None => {},
        }
    }
    assert(spec_all_fit(root_e, lm, dit, cfm, av)) by {
        let a = spec_insert_if_absent(root, ConfigSection::Root, "ref_audio_start_token"@, ConfigValue::Integer(103));
        let b = spec_insert_if_absent(root, ConfigSection::Root, "ref_audio_end_token"@, ConfigValue::Integer(104));
        assert("ref_audio_start_token"@.len() == 21 && "ref_audio_end_token"@.len() == 19);
        assert("lm_config"@.len() == 9 && "dit_config"@.len() == 10 && "audio_vae_config"@.len() == 16);
        assert(spec_all_fit(a, lm, dit, cfm, av));
        assert(spec_all_fit(b, lm, dit, cfm, av));
        lemma_all_fit_append(a, b, lm, dit, cfm, av);
    }
    assert(spec_all_fit(dit_e, lm, dit, cfm, av)) by {
        match dit {
            Some(k) => {
                assert("mean_mode"@.len() == 9 && "dit_mean_mode"@.len() == 13 && "cfm_config"@.len() == 10);
                let first = if k.contains("mean_mode"@) {
                    seq![ConfigEditView::Move { section: ConfigSection::Dit, from: "mean_mode"@, to: "dit_mean_mode"@ }]
                } else {
                    spec_insert_if_absent(k, ConfigSection::Dit, "dit_mean_mode"@, ConfigValue::Bool(false))
                };
                let second = if cfm is Some {
                    seq![ConfigEditView::Remove { section: ConfigSection::Cfm, key: "inference_cfg_rate"@ }]
                } else {
                    Seq::<ConfigEditView>::empty()
                };
                assert(spec_all_fit(first, lm, dit, cfm, av));
                assert(spec_all_fit(second, lm, dit, cfm, av));
                lemma_all_fit_append(first, second, lm, dit, cfm, av);
                assert(dit_e == first + second);
            },
            None => {},
        }
    }
    assert(spec_all_fit(av_e, lm, dit, cfm, av)) by {
        match av {
            Some(ka) => {
                lemma_audio_vae_after(ka);
                assert forall|i: int| 0 <= i < av_e.len() implies #[trigger] spec_edit_fits_shape(av_e[i], lm, dit, cfm, av) by {
                    assert(spec_edit_section(av_e[i]) == ConfigSection::AudioVae);
                }
            },
            None => {},
        }
    }
    lemma_all_fit_append(lm_e, root_e, lm, dit, cfm, av);
    lemma_all_fit_append(lm_e + root_e, dit_e, lm, dit, cfm, av);
    lemma_all_fit_append(lm_e + root_e + dit_e, av_e, lm, dit, cfm, av);
}



/// The keys of the section stored under `key` in `v`, where it is an object.
fn child_keys(v: &serde_json::Value, key: &str) -> (r: Option<Vec<String>>)
    ensures
        opt_keys_view(r) == match json_get(*v, key@) {
            Some(c) => json_object_keys(c),
            None => None,
        },
{
    match json_get_ref(v, key) {
        Some(c) => json_keys_of(c),
        None => None,
    }
}

/// Makes a VoxCPM2 `config.json` loadable by the first-generation model types: parses
/// the text, then makes the compatibility edits (`config_compat_edits`) on the
/// document, in order. It fails where the text is not JSON, or is JSON but not an
/// object. Otherwise every section ends with the keys that the edits leave it; each
/// of its keys holds what the edits give it (an inserted default, a moved value, or
/// the value it had); and a section that is missing or not an object stays as it was.
pub fn preprocess_config(raw: &str) -> (r: Result<serde_json::Value, ConfigError>)
    ensures
        r matches Err(ConfigError::Parse(_)) <==> json_from_str(raw@) is None,
        r matches Err(ConfigError::NotAnObject) <==> (json_from_str(raw@) matches Some(p) && json_object_keys(p) is None),
        r matches Ok(v) ==> (json_from_str(raw@) matches Some(p) && {
            &&& json_object_keys(v) is Some
            &&& forall|s: ConfigSection| #[trigger] spec_opt_key_set(spec_section_keys(v, s))
                == spec_opt_keys_after(spec_section_keys(p, s), s, spec_json_edits(p))
            &&& forall|s: ConfigSection, k: Seq<char>|
                spec_section_keys(p, s) is Some && !spec_nested_key(s, k) ==>
                #[trigger] json_get(spec_section_value(v, s)->0, k)
                    == spec_section_get_after(spec_section_value(p, s)->0, s, spec_json_edits(p), k)
            &&& forall|s: ConfigSection, k: Seq<char>|
                spec_section_keys(p, s) is Some && spec_nested_key(s, k)
                    && spec_section_keys(p, spec_nested_section(s, k)) is None ==>
                #[trigger] json_get(spec_section_value(v, s)->0, k) == json_get(spec_section_value(p, s)->0, k)
        }),
{
    let mut config = match json_parse(raw) {
        Ok(v) => v,
        Err(e) => return Err(ConfigError::Parse(e)),
    };
    let ghost p = config;
    let root_keys = match json_keys_of(&config) {
        Some(k) => k,
        None => return Err(ConfigError::NotAnObject),
    };
    let lm_keys = child_keys(&config, "lm_config");
    let dit_keys = child_keys(&config, "dit_config");
    let audio_vae_keys = child_keys(&config, "audio_vae_config");
    let cfm_keys = if dit_keys.is_some() {
        match json_get_ref(&config, "dit_config") {
            Some(d) => child_keys(d, "cfm_config"),
            None => None,
        }
    } else {
        None
    };
    let shape = ConfigShape { root_keys, lm_keys, dit_keys, cfm_keys, audio_vae_keys };
    let ghost root = json_object_keys(p)->0;
    let ghost lm = spec_section_keys(p, ConfigSection::Lm);
    let ghost dit = spec_section_keys(p, ConfigSection::Dit);
    let ghost cfm = if dit is Some { spec_section_keys(p, ConfigSection::Cfm) } else { None };
    let ghost av = spec_section_keys(p, ConfigSection::AudioVae);
    assert(opt_keys_view(shape.cfm_keys) == cfm);
    let edits = config_compat_edits(&shape);
    proof {
        lemma_edits_fit(root, lm, dit, cfm, av);
        assert(edits_view(edits@).take(0) =~= Seq::<ConfigEditView>::empty());
        assert forall|s: ConfigSection| #[trigger] spec_opt_key_set(spec_section_keys(config, s))
            == spec_opt_keys_after(spec_section_keys(p, s), s, edits_view(edits@).take(0)) by {
            if spec_section_keys(p, s) is Some {
                assert(spec_keys_after(spec_section_keys(p, s)->0.to_set(), s, edits_view(edits@).take(0))
                    == spec_section_keys(p, s)->0.to_set());
            }
        }
    }
    let mut i: usize = 0;
    while i < edits.len()
        invariant
            i <= edits@.len(),
            json_object_keys(config) is Some,
            edits_view(edits@) == spec_config_edits(root, lm, dit, cfm, av),
            spec_json_edits(p) == spec_config_edits(root, lm, dit, cfm, av),
            spec_all_fit(edits_view(edits@), lm, dit, cfm, av),
            lm == spec_section_keys(p, ConfigSection::Lm),
            dit == spec_section_keys(p, ConfigSection::Dit),
            av == spec_section_keys(p, ConfigSection::AudioVae),
            cfm is Some ==> cfm == spec_section_keys(p, ConfigSection::Cfm),
            dit is None ==> cfm is None,
            forall|s: ConfigSection| #[trigger] spec_opt_key_set(spec_section_keys(config, s))
                == spec_opt_keys_after(spec_section_keys(p, s), s, edits_view(edits@).take(i as int)),
            forall|s: ConfigSection, k: Seq<char>|
                spec_section_keys(p, s) is Some && !spec_nested_key(s, k) ==>
                #[trigger] json_get(spec_section_value(config, s)->0, k)
                    == spec_section_get_after(spec_section_value(p, s)->0, s, edits_view(edits@).take(i as int), k),
            forall|s: ConfigSection, k: Seq<char>|
                spec_section_keys(p, s) is Some && spec_nested_key(s, k)
                    && spec_section_keys(p, spec_nested_section(s, k)) is None ==>
                #[trigger] json_get(spec_section_value(config, s)->0, k) == json_get(spec_section_value(p, s)->0, k),
        decreases edits@.len() - i,
    {
        let ghost before = config;
        let ghost e = edits_view(edits@)[i as int];
        assert(edits@[i as int]@ == e);
        proof {
            assert(spec_edit_fits_shape(e, lm, dit, cfm, av));
            let sec = spec_edit_section(e);
            assert(spec_opt_key_set(spec_section_keys(config, sec))
                == spec_opt_keys_after(spec_section_keys(p, sec), sec, edits_view(edits@).take(i as int)));
            assert(spec_opt_key_set(spec_section_keys(config, ConfigSection::Dit))
                == spec_opt_keys_after(spec_section_keys(p, ConfigSection::Dit), ConfigSection::Dit, edits_view(edits@).take(i as int)));
            assert(spec_section_keys(config, ConfigSection::Root) == json_object_keys(config));
        }
        apply_edit(&mut config, &edits[i]);
        proof {
            let t = edits_view(edits@).take(i as int + 1);
            assert(t.drop_last() =~= edits_view(edits@).take(i as int));
            assert(t.last() == e);
            assert forall|s: ConfigSection| #[trigger] spec_opt_key_set(spec_section_keys(config, s))
                == spec_opt_keys_after(spec_section_keys(p, s), s, t) by {
                assert(spec_opt_key_set(spec_section_keys(before, s))
                    == spec_opt_keys_after(spec_section_keys(p, s), s, edits_view(edits@).take(i as int)));
            }
            assert forall|s: ConfigSection, k: Seq<char>|
                spec_section_keys(p, s) is Some && !spec_nested_key(s, k) implies
                #[trigger] json_get(spec_section_value(config, s)->0, k)
                    == spec_section_get_after(spec_section_value(p, s)->0, s, t, k) by {
                let x0 = spec_section_value(p, s)->0;
                let prev = edits_view(edits@).take(i as int);
                assert(spec_opt_key_set(spec_section_keys(before, s))
                    == spec_opt_keys_after(spec_section_keys(p, s), s, prev));
                assert(spec_section_keys(before, s) is Some);
                assert(json_get(spec_section_value(before, s)->0, k) == spec_section_get_after(x0, s, prev, k));
                if spec_edit_section(e) == s {
                    match e {
                        ConfigEditView::Move { from, to, .. } => {
                            assert(!spec_nested_key(s, from));
                            assert(json_get(spec_section_value(before, s)->0, from) == spec_section_get_after(x0, s, prev, from));
                        },
                        _ => {},
                    }
                }
            }
            assert forall|s: ConfigSection, k: Seq<char>|
                spec_section_keys(p, s) is Some && spec_nested_key(s, k)
                    && spec_section_keys(p, spec_nested_section(s, k)) is None implies
                #[trigger] json_get(spec_section_value(config, s)->0, k) == json_get(spec_section_value(p, s)->0, k) by {
                let c = spec_nested_section(s, k);
                assert(spec_opt_key_set(spec_section_keys(before, s))
                    == spec_opt_keys_after(spec_section_keys(p, s), s, edits_view(edits@).take(i as int)));
                assert(spec_opt_key_set(spec_section_keys(before, c))
                    == spec_opt_keys_after(spec_section_keys(p, c), c, edits_view(edits@).take(i as int)));
                assert(json_get(spec_section_value(before, s)->0, k) == json_get(spec_section_value(p, s)->0, k));
            }
        }
        i += 1;
    }
    proof {
        assert(edits_view(edits@).take(edits@.len() as int) =~= edits_view(edits@));
    }
    Ok(config)
}


/// The keys of a section among the keys that the edits are made for.
pub open spec fn spec_shape_keys(
    s: ConfigSection,
    root: Seq<Seq<char>>,
    lm: Option<Seq<Seq<char>>>,
    dit: Option<Seq<Seq<char>>>,
    cfm: Option<Seq<Seq<char>>>,
    av: Option<Seq<Seq<char>>>,
) -> Option<Seq<Seq<char>>> {
    match s {
        ConfigSection::Root => Some(root),
        ConfigSection::Lm => lm,
        ConfigSection::Dit => dit,
        ConfigSection::Cfm => cfm,
        ConfigSection::AudioVae => av,
    }
}

/// Every edit of `edits` satisfies `f`.
pub open spec fn spec_all_edits(edits: Seq<ConfigEditView>, f: spec_fn(ConfigEditView) -> bool) -> bool {
    forall|i: int| 0 <= i < edits.len() ==> f(#[trigger] edits[i])
}

proof fn lemma_all_edits_append(a: Seq<ConfigEditView>, b: Seq<ConfigEditView>, f: spec_fn(ConfigEditView) -> bool)
    requires
        spec_all_edits(a, f),
        spec_all_edits(b, f),
    ensures
        spec_all_edits(a + b, f),
{
    assert forall|i: int| 0 <= i < (a + b).len() implies f(#[trigger] (a + b)[i]) by {
        if i < a.len() {
            assert((a + b)[i] == a[i]);
        } else {
            assert((a + b)[i] == b[i - a.len()]);
        }
    }
}

proof fn lemma_all_edits_insert_if_absent(
    keys: Seq<Seq<char>>,
    section: ConfigSection,
    key: Seq<char>,
    value: ConfigValue,
    f: spec_fn(ConfigEditView) -> bool,
)
    requires
        !keys.contains(key) ==> f(ConfigEditView::Insert { section, key, value }),
    ensures
        spec_all_edits(spec_insert_if_absent(keys, section, key, value), f),
{
}

/// The edit is an insert of a key that its section did not have.
pub open spec fn spec_fresh_insert(
    root: Seq<Seq<char>>,
    lm: Option<Seq<Seq<char>>>,
    dit: Option<Seq<Seq<char>>>,
    cfm: Option<Seq<Seq<char>>>,
    av: Option<Seq<Seq<char>>>,
) -> spec_fn(ConfigEditView) -> bool {
    |e: ConfigEditView| e matches ConfigEditView::Insert { section, key, .. } ==>
        (spec_shape_keys(section, root, lm, dit, cfm, av) matches Some(ks) && !ks.contains(key))
}

/// The compatibility edits insert only keys that their sections lack.
proof fn lemma_inserts_fresh(
    root: Seq<Seq<char>>,
    lm: Option<Seq<Seq<char>>>,
    dit: Option<Seq<Seq<char>>>,
    cfm: Option<Seq<Seq<char>>>,
    av: Option<Seq<Seq<char>>>,
)
    ensures
        spec_all_edits(spec_config_edits(root, lm, dit, cfm, av), spec_fresh_insert(root, lm, dit, cfm, av)),
{
    let f = spec_fresh_insert(root, lm, dit, cfm, av);
    let lm_e = spec_lm_edits(lm);
    let root_e = spec_root_edits(root);
    let dit_e = spec_dit_edits(dit, cfm);
    let av_e = spec_audio_vae_edits(av);
    match lm {
        Some(k) => {
            let a = spec_insert_if_absent(k, ConfigSection::Lm, "no_rope"@, ConfigValue::Bool(false));
            let b = spec_insert_if_absent(k, ConfigSection::Lm, "kv_channels"@, ConfigValue::Null);
            let c = spec_insert_if_absent(k, ConfigSection::Lm, "rope_theta"@, ConfigValue::Integer(10000));
            let d = spec_insert_if_absent(k, ConfigSection::Lm, "dim_model_base"@, ConfigValue::Integer(256));
            let g = spec_insert_if_absent(k, ConfigSection::Lm, "scale_depth"@, ConfigValue::FloatOne);
            lemma_all_edits_insert_if_absent(k, ConfigSection::Lm, "no_rope"@, ConfigValue::Bool(false), f);
            lemma_all_edits_insert_if_absent(k, ConfigSection::Lm, "kv_channels"@, ConfigValue::Null, f);
            lemma_all_edits_insert_if_absent(k, ConfigSection::Lm, "rope_theta"@, ConfigValue::Integer(10000), f);
            lemma_all_edits_insert_if_absent(k, ConfigSection::Lm, "dim_model_base"@, ConfigValue::Integer(256), f);
            lemma_all_edits_insert_if_absent(k, ConfigSection::Lm, "scale_depth"@, ConfigValue::FloatOne, f);
            lemma_all_edits_append(a, b, f);
            lemma_all_edits_append(a + b, c, f);
            lemma_all_edits_append(a + b + c, d, f);
            lemma_all_edits_append(a + b + c + d, g, f);
        },
        None => {},
    }
    lemma_all_edits_insert_if_absent(root, ConfigSection::Root, "ref_audio_start_token"@, ConfigValue::Integer(103), f);
    lemma_all_edits_insert_if_absent(root, ConfigSection::Root, "ref_audio_end_token"@, ConfigValue::Integer(104), f);
    lemma_all_edits_append(
        spec_insert_if_absent(root, ConfigSection::Root, "ref_audio_start_token"@, ConfigValue::Integer(103)),
        spec_insert_if_absent(root, ConfigSection::Root, "ref_audio_end_token"@, ConfigValue::Integer(104)),
        f,
    );
    match dit {
        Some(k) => {
            let first = if k.contains("mean_mode"@) {
                seq![ConfigEditView::Move { section: ConfigSection::Dit, from: "mean_mode"@, to: "dit_mean_mode"@ }]
            } else {
                spec_insert_if_absent(k, ConfigSection::Dit, "dit_mean_mode"@, ConfigValue::Bool(false))
            };
            let second = if cfm is Some {
                seq![ConfigEditView::Remove { section: ConfigSection::Cfm, key: "inference_cfg_rate"@ }]
            } else {
                Seq::<ConfigEditView>::empty()
            };
            lemma_all_edits_insert_if_absent(k, ConfigSection::Dit, "dit_mean_mode"@, ConfigValue::Bool(false), f);
            assert(spec_all_edits(first, f));
            assert(spec_all_edits(second, f));
            lemma_all_edits_append(first, second, f);
            assert(dit_e == first + second);
        },
        None => {},
    }
    match av {
        Some(k) => {
            let a = spec_insert_if_absent(k, ConfigSection::AudioVae, "depthwise"@, ConfigValue::Bool(true));
            let b = spec_insert_if_absent(k, ConfigSection::AudioVae, "use_noise_block"@, ConfigValue::Bool(false));
            let c = seq![
                ConfigEditView::Remove { section: ConfigSection::AudioVae, key: "sr_bin_boundaries"@ },
                ConfigEditView::Remove { section: ConfigSection::AudioVae, key: "out_sample_rate"@ },
                ConfigEditView::Remove { section: ConfigSection::AudioVae, key: "cond_type"@ },
                ConfigEditView::Remove { section: ConfigSection::AudioVae, key: "cond_dim"@ },
                ConfigEditView::Remove { section: ConfigSection::AudioVae, key: "cond_out_layer"@ },
            ];
            lemma_all_edits_insert_if_absent(k, ConfigSection::AudioVae, "depthwise"@, ConfigValue::Bool(true), f);
            lemma_all_edits_insert_if_absent(k, ConfigSection::AudioVae, "use_noise_block"@, ConfigValue::Bool(false), f);
            assert(spec_all_edits(c, f));
            lemma_all_edits_append(a, b, f);
            lemma_all_edits_append(a + b, c, f);
        },
        None => {},
    }
    lemma_all_edits_append(lm_e, root_e, f);
    lemma_all_edits_append(lm_e + root_e, dit_e, f);
    lemma_all_edits_append(lm_e + root_e + dit_e, av_e, f);
}

/// The edits of section `s` that name `k` change its value; with none, it stays.
proof fn lemma_get_after_unnamed(x0: serde_json::Value, s: ConfigSection, edits: Seq<ConfigEditView>, k: Seq<char>)
    requires
        forall|i: int| 0 <= i < edits.len() && spec_edit_section(#[trigger] edits[i]) == s ==> !spec_edit_names(edits[i], k),
    ensures
        spec_section_get_after(x0, s, edits, k) == json_get(x0, k),
    decreases edits.len(),
{
    if edits.len() > 0 {
        let d = edits.drop_last();
        assert forall|i: int| 0 <= i < d.len() && spec_edit_section(#[trigger] d[i]) == s implies !spec_edit_names(d[i], k) by {
            assert(d[i] == edits[i]);
        }
        lemma_get_after_unnamed(x0, s, d, k);
        assert(edits.last() == edits[edits.len() - 1]);
    }
}

/// Whether an edit removes `k`, moves it away, or moves another key onto it.
pub open spec fn spec_edit_displaces(e: ConfigEditView, k: Seq<char>) -> bool {
    match e {
        ConfigEditView::Insert { .. } => false,
        ConfigEditView::Remove { key, .. } => key == k,
        ConfigEditView::Move { from, to, .. } => from == k || to == k,
    }
}

/// Defaults only fill gaps: a key that a section of the document already has keeps
/// its value through the compatibility edits, unless one of them removes it, moves
/// it away, or moves another key onto it.
pub proof fn lemma_present_values_kept(p: serde_json::Value, s: ConfigSection, k: Seq<char>)
    requires
        json_object_keys(p) is Some,
        spec_section_keys(p, s) matches Some(ks) && ks.contains(k),
        forall|i: int| 0 <= i < spec_json_edits(p).len() && spec_edit_section(#[trigger] spec_json_edits(p)[i]) == s
            ==> !spec_edit_displaces(spec_json_edits(p)[i], k),
    ensures
        spec_section_get_after(spec_section_value(p, s)->0, s, spec_json_edits(p), k) == json_get(spec_section_value(p, s)->0, k),
{
    let root = json_object_keys(p)->0;
    let lm = spec_section_keys(p, ConfigSection::Lm);
    let dit = spec_section_keys(p, ConfigSection::Dit);
    let cfm = if dit is Some { spec_section_keys(p, ConfigSection::Cfm) } else { None };
    let av = spec_section_keys(p, ConfigSection::AudioVae);
    let edits = spec_json_edits(p);
    lemma_inserts_fresh(root, lm, dit, cfm, av);
    lemma_edits_fit(root, lm, dit, cfm, av);
    assert forall|i: int| 0 <= i < edits.len() && spec_edit_section(#[trigger] edits[i]) == s implies !spec_edit_names(edits[i], k) by {
        let e = edits[i];
        assert(spec_fresh_insert(root, lm, dit, cfm, av)(e));
        assert(spec_edit_fits_shape(e, lm, dit, cfm, av));
        assert(!spec_edit_displaces(e, k));
        if s == ConfigSection::Cfm {
            assert(dit is Some);
        }
    }
    lemma_get_after_unnamed(spec_section_value(p, s)->0, s, edits, k);
}


/// The edit removes only a key that its section does not have.
pub open spec fn spec_absent_removal(
    root: Seq<Seq<char>>,
    lm: Option<Seq<Seq<char>>>,
    dit: Option<Seq<Seq<char>>>,
    cfm: Option<Seq<Seq<char>>>,
    av: Option<Seq<Seq<char>>>,
) -> spec_fn(ConfigEditView) -> bool {
    |e: ConfigEditView| e matches ConfigEditView::Remove { section, key } ==>
        (spec_shape_keys(section, root, lm, dit, cfm, av) is Some
            ==> !spec_shape_keys(section, root, lm, dit, cfm, av)->0.contains(key))
}

/// On a settled configuration the edits remove only keys that are not there.
proof fn lemma_settled_removals_absent(
    root: Seq<Seq<char>>,
    lm: Option<Seq<Seq<char>>>,
    dit: Option<Seq<Seq<char>>>,
    cfm: Option<Seq<Seq<char>>>,
    av: Option<Seq<Seq<char>>>,
)
    requires
        spec_settled(root.to_set(), spec_opt_key_set(lm), spec_opt_key_set(dit), spec_opt_key_set(cfm), spec_opt_key_set(av)),
    ensures
        spec_all_edits(spec_config_edits(root, lm, dit, cfm, av), spec_absent_removal(root, lm, dit, cfm, av)),
{
    broadcast use vstd::seq_lib::group_seq_properties;
    let f = spec_absent_removal(root, lm, dit, cfm, av);
    let lm_e = spec_lm_edits(lm);
    let root_e = spec_root_edits(root);
    let dit_e = spec_dit_edits(dit, cfm);
    let av_e = spec_audio_vae_edits(av);
    match lm {
        Some(k) => {
            let a = spec_insert_if_absent(k, ConfigSection::Lm, "no_rope"@, ConfigValue::Bool(false));
            let b = spec_insert_if_absent(k, ConfigSection::Lm, "kv_channels"@, ConfigValue::Null);
            let c = spec_insert_if_absent(k, ConfigSection::Lm, "rope_theta"@, ConfigValue::Integer(10000));
            let d = spec_insert_if_absent(k, ConfigSection::Lm, "dim_model_base"@, ConfigValue::Integer(256));
            let g = spec_insert_if_absent(k, ConfigSection::Lm, "scale_depth"@, ConfigValue::FloatOne);
            lemma_all_edits_insert_if_absent(k, ConfigSection::Lm, "no_rope"@, ConfigValue::Bool(false), f);
            lemma_all_edits_insert_if_absent(k, ConfigSection::Lm, "kv_channels"@, ConfigValue::Null, f);
            lemma_all_edits_insert_if_absent(k, ConfigSection::Lm, "rope_theta"@, ConfigValue::Integer(10000), f);
            lemma_all_edits_insert_if_absent(k, ConfigSection::Lm, "dim_model_base"@, ConfigValue::Integer(256), f);
            lemma_all_edits_insert_if_absent(k, ConfigSection::Lm, "scale_depth"@, ConfigValue::FloatOne, f);
            lemma_all_edits_append(a, b, f);
            lemma_all_edits_append(a + b, c, f);
            lemma_all_edits_append(a + b + c, d, f);
            lemma_all_edits_append(a + b + c + d, g, f);
        },
        None => {},
    }
    lemma_all_edits_insert_if_absent(root, ConfigSection::Root, "ref_audio_start_token"@, ConfigValue::Integer(103), f);
    lemma_all_edits_insert_if_absent(root, ConfigSection::Root, "ref_audio_end_token"@, ConfigValue::Integer(104), f);
    lemma_all_edits_append(
        spec_insert_if_absent(root, ConfigSection::Root, "ref_audio_start_token"@, ConfigValue::Integer(103)),
        spec_insert_if_absent(root, ConfigSection::Root, "ref_audio_end_token"@, ConfigValue::Integer(104)),
        f,
    );
    match dit {
        Some(k) => {
            let first = if k.contains("mean_mode"@) {
                seq![ConfigEditView::Move { section: ConfigSection::Dit, from: "mean_mode"@, to: "dit_mean_mode"@ }]
            } else {
                spec_insert_if_absent(k, ConfigSection::Dit, "dit_mean_mode"@, ConfigValue::Bool(false))
            };
            let second = if cfm is Some {
                seq![ConfigEditView::Remove { section: ConfigSection::Cfm, key: "inference_cfg_rate"@ }]
            } else {
                Seq::<ConfigEditView>::empty()
            };
            lemma_all_edits_insert_if_absent(k, ConfigSection::Dit, "dit_mean_mode"@, ConfigValue::Bool(false), f);
            assert(spec_all_edits(first, f));
            if cfm is Some {
                assert(!cfm->0.to_set().contains("inference_cfg_rate"@));
            }
            assert(spec_all_edits(second, f));
            lemma_all_edits_append(first, second, f);
            assert(dit_e == first + second);
        },
        None => {},
    }
    match av {
        Some(k) => {
            let a = spec_insert_if_absent(k, ConfigSection::AudioVae, "depthwise"@, ConfigValue::Bool(true));
            let b = spec_insert_if_absent(k, ConfigSection::AudioVae, "use_noise_block"@, ConfigValue::Bool(false));
            let c = seq![
                ConfigEditView::Remove { section: ConfigSection::AudioVae, key: "sr_bin_boundaries"@ },
                ConfigEditView::Remove { section: ConfigSection::AudioVae, key: "out_sample_rate"@ },
                ConfigEditView::Remove { section: ConfigSection::AudioVae, key: "cond_type"@ },
                ConfigEditView::Remove { section: ConfigSection::AudioVae, key: "cond_dim"@ },
                ConfigEditView::Remove { section: ConfigSection::AudioVae, key: "cond_out_layer"@ },
            ];
            lemma_all_edits_insert_if_absent(k, ConfigSection::AudioVae, "depthwise"@, ConfigValue::Bool(true), f);
            lemma_all_edits_insert_if_absent(k, ConfigSection::AudioVae, "use_noise_block"@, ConfigValue::Bool(false), f);
            let ks = k.to_set();
            assert(!ks.contains("sr_bin_boundaries"@) && !ks.contains("out_sample_rate"@) && !ks.contains("cond_type"@));
            assert(!ks.contains("cond_dim"@) && !ks.contains("cond_out_layer"@));
            assert(spec_all_edits(c, f));
            lemma_all_edits_append(a, b, f);
            lemma_all_edits_append(a + b, c, f);
        },
        None => {},
    }
    lemma_all_edits_append(lm_e, root_e, f);
    lemma_all_edits_append(lm_e + root_e, dit_e, f);
    lemma_all_edits_append(lm_e + root_e + dit_e, av_e, f);
}

/// Removals of keys that a section lacks leave its key set as it is.
proof fn lemma_keys_after_absent_removals(keys: Set<Seq<char>>, s: ConfigSection, edits: Seq<ConfigEditView>)
    requires
        forall|i: int| 0 <= i < edits.len() ==> (#[trigger] edits[i]) is Remove,
        forall|i: int| 0 <= i < edits.len() && spec_edit_section(#[trigger] edits[i]) == s
            ==> !keys.contains(edits[i]->Remove_key),
    ensures
        spec_keys_after(keys, s, edits) == keys,
    decreases edits.len(),
{
    if edits.len() > 0 {
        let d = edits.drop_last();
        assert forall|i: int| 0 <= i < d.len() implies (#[trigger] d[i]) is Remove by {
            assert(d[i] == edits[i]);
        }
        assert forall|i: int| 0 <= i < d.len() && spec_edit_section(#[trigger] d[i]) == s implies !keys.contains(d[i]->Remove_key) by {
            assert(d[i] == edits[i]);
        }
        lemma_keys_after_absent_removals(keys, s, d);
        let e = edits[edits.len() - 1];
        assert(e is Remove);
        if spec_edit_section(e) == s {
            assert(keys.remove(e->Remove_key) =~= keys);
        }
    }
}

/// A document whose sections are settled (`spec_settled`).
pub open spec fn spec_document_settled(p: serde_json::Value) -> bool {
    spec_settled(
        json_object_keys(p)->0.to_set(),
        spec_opt_key_set(spec_section_keys(p, ConfigSection::Lm)),
        spec_opt_key_set(spec_section_keys(p, ConfigSection::Dit)),
        spec_opt_key_set(
            if spec_section_keys(p, ConfigSection::Dit) is Some { spec_section_keys(p, ConfigSection::Cfm) } else { None },
        ),
        spec_opt_key_set(spec_section_keys(p, ConfigSection::AudioVae)),
    )
}

/// The compatibility edits change nothing in a settled document: every section keeps
/// its key set, and every key it has keeps its value. So preprocessing what
/// preprocessing gave (see `lemma_preprocessed_is_settled`) leaves it as it is.
pub proof fn lemma_settled_document_unchanged(p: serde_json::Value)
    requires
        json_object_keys(p) is Some,
        spec_document_settled(p),
    ensures
        forall|s: ConfigSection| spec_section_keys(p, s) is Some ==>
            #[trigger] spec_opt_keys_after(spec_section_keys(p, s), s, spec_json_edits(p)) == spec_opt_key_set(spec_section_keys(p, s)),
        forall|s: ConfigSection, k: Seq<char>| spec_section_keys(p, s) is Some && spec_section_keys(p, s)->0.contains(k) ==>
            #[trigger] spec_section_get_after(spec_section_value(p, s)->0, s, spec_json_edits(p), k)
                == json_get(spec_section_value(p, s)->0, k),
{
    let root = json_object_keys(p)->0;
    let lm = spec_section_keys(p, ConfigSection::Lm);
    let dit = spec_section_keys(p, ConfigSection::Dit);
    let cfm = if dit is Some { spec_section_keys(p, ConfigSection::Cfm) } else { None };
    let av = spec_section_keys(p, ConfigSection::AudioVae);
    let edits = spec_json_edits(p);
    lemma_settled_needs_no_inserts(root, lm, dit, cfm, av);
    lemma_settled_removals_absent(root, lm, dit, cfm, av);
    lemma_edits_fit(root, lm, dit, cfm, av);
    let f = spec_absent_removal(root, lm, dit, cfm, av);
    assert forall|s: ConfigSection| spec_section_keys(p, s) is Some implies
        #[trigger] spec_opt_keys_after(spec_section_keys(p, s), s, edits) == spec_opt_key_set(spec_section_keys(p, s)) by {
        let ks = spec_section_keys(p, s)->0;
        assert forall|i: int| 0 <= i < edits.len() && spec_edit_section(#[trigger] edits[i]) == s
            implies !ks.to_set().contains(edits[i]->Remove_key) by {
            assert(edits[i] is Remove);
            assert(f(edits[i]));
            assert(spec_edit_fits_shape(edits[i], lm, dit, cfm, av));
        }
        lemma_keys_after_absent_removals(ks.to_set(), s, edits);
    }
    assert forall|s: ConfigSection, k: Seq<char>| spec_section_keys(p, s) is Some && spec_section_keys(p, s)->0.contains(k) implies
        #[trigger] spec_section_get_after(spec_section_value(p, s)->0, s, edits, k)
            == json_get(spec_section_value(p, s)->0, k) by {
        let ks = spec_section_keys(p, s)->0;
        assert forall|i: int| 0 <= i < edits.len() && spec_edit_section(#[trigger] edits[i]) == s
            implies !spec_edit_names(edits[i], k) by {
            assert(edits[i] is Remove);
            assert(f(edits[i]));
            assert(spec_edit_fits_shape(edits[i], lm, dit, cfm, av));
        }
        lemma_get_after_unnamed(spec_section_value(p, s)->0, s, edits, k);
    }
}


/// What preprocessing gives is settled: a document whose sections hold the key sets
/// that the compatibility edits leave has every field the first-generation model
/// types need and none they refuse.
pub proof fn lemma_preprocessed_is_settled(p: serde_json::Value, v: serde_json::Value)
    requires
        json_object_keys(p) is Some,
        json_object_keys(v) is Some,
        forall|s: ConfigSection| #[trigger] spec_opt_key_set(spec_section_keys(v, s))
            == spec_opt_keys_after(spec_section_keys(p, s), s, spec_json_edits(p)),
    ensures
        spec_document_settled(v),
{
    let root = json_object_keys(p)->0;
    let lm = spec_section_keys(p, ConfigSection::Lm);
    let dit = spec_section_keys(p, ConfigSection::Dit);
    let cfm = if dit is Some { spec_section_keys(p, ConfigSection::Cfm) } else { None };
    let av = spec_section_keys(p, ConfigSection::AudioVae);
    lemma_config_edits_settle(root, lm, dit, cfm, av);
    assert(spec_opt_key_set(spec_section_keys(v, ConfigSection::Root))
        == spec_opt_keys_after(spec_section_keys(p, ConfigSection::Root), ConfigSection::Root, spec_json_edits(p)));
    assert(spec_opt_key_set(spec_section_keys(v, ConfigSection::Lm))
        == spec_opt_keys_after(lm, ConfigSection::Lm, spec_json_edits(p)));
    assert(spec_opt_key_set(spec_section_keys(v, ConfigSection::Dit))
        == spec_opt_keys_after(dit, ConfigSection::Dit, spec_json_edits(p)));
    assert(spec_opt_key_set(spec_section_keys(v, ConfigSection::Cfm))
        == spec_opt_keys_after(spec_section_keys(p, ConfigSection::Cfm), ConfigSection::Cfm, spec_json_edits(p)));
    assert(spec_opt_key_set(spec_section_keys(v, ConfigSection::AudioVae))
        == spec_opt_keys_after(av, ConfigSection::AudioVae, spec_json_edits(p)));
}


/// The number a JSON value holds, where it is a non-negative integer that fits a
/// `u64`.
pub uninterp spec fn json_as_u64(v: serde_json::Value) -> Option<u64>;

/// `Value::as_u64`. Claimed: the named number of the value.
#[verifier::external_body]
fn json_u64_of(v: &serde_json::Value) -> (r: Option<u64>)
    ensures
        r == json_as_u64(*v),
{
    v.as_u64()
}

/// The value under `outer`, then `inner`, of a document.
pub open spec fn spec_get_nested(v: serde_json::Value, outer: Seq<char>, inner: Seq<char>) -> Option<serde_json::Value> {
    match json_get(v, outer) {
        Some(x) => json_get(x, inner),
        None => None,
    }
}

/// A layer count read from a config value: its integer (cast to `usize`), or
/// `default` where it is missing or is not such an integer.
pub open spec fn spec_count_of(v: Option<serde_json::Value>, default: u64) -> usize {
    match v {
        Some(x) => match json_as_u64(x) {
            Some(n) => n as usize,
            None => default as usize,
        },
        None => default as usize,
    }
}

fn count_of(v: Option<&serde_json::Value>, default: u64) -> (r: usize)
    ensures
        r == spec_count_of(
            match v {
                Some(x) => Some(*x),
                None => None,
            },
            default,
        ),
{
    match v {
        Some(x) => match json_u64_of(x) {
            Some(n) => n as usize,
            None => default as usize,
        },
        None => default as usize,
    }
}

/// The layer counts of the four transformer stacks whose norms are renamed, read
/// from a preprocessed `config.json`: `lm_config.num_hidden_layers` (28 when
/// missing), `residual_lm_num_layers` (8), `encoder_config.num_layers` (12) and
/// `dit_config.num_layers` (12).
pub fn norm_layer_counts(config: &serde_json::Value) -> (r: (usize, usize, usize, usize))
    ensures
        r.0 == spec_count_of(spec_get_nested(*config, "lm_config"@, "num_hidden_layers"@), 28),
        r.1 == spec_count_of(json_get(*config, "residual_lm_num_layers"@), 8),
        r.2 == spec_count_of(spec_get_nested(*config, "encoder_config"@, "num_layers"@), 12),
        r.3 == spec_count_of(spec_get_nested(*config, "dit_config"@, "num_layers"@), 12),
{
    let base = match json_get_ref(config, "lm_config") {
        Some(c) => count_of(json_get_ref(c, "num_hidden_layers"), 28),
        None => count_of(None, 28),
    };
    let residual = count_of(json_get_ref(config, "residual_lm_num_layers"), 8);
    let encoder = match json_get_ref(config, "encoder_config") {
        Some(c) => count_of(json_get_ref(c, "num_layers"), 12),
        None => count_of(None, 12),
    };
    let decoder = match json_get_ref(config, "dit_config") {
        Some(c) => count_of(json_get_ref(c, "num_layers"), 12),
        None => count_of(None, 12),
    };
    (base, residual, encoder, decoder)
}

} // verus!
