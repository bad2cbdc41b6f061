//! Variable-length (LEB128 style) and ZigZag encodings of integers, and the
//! delta encoding of a batch of 64-bit integers.
use vstd::prelude::*;
use vstd::arithmetic::power2::{pow2, lemma2_to64, lemma_pow2_adds};
use crate::db::errors::DbError;

verus! {

// ---------------------------------------------------------------------------
// Specifications
// ---------------------------------------------------------------------------

/// The 7-bit payload carried by one byte of a variable-length encoding.
pub open spec fn payload(b: u8) -> nat {
    (b % 128) as nat
}

/// The number a sequence of variable-length bytes stands for: the payload of
/// byte `i` is worth `128^i` (little-endian groups of seven bits).
pub open spec fn vle_value(s: Seq<u8>) -> nat
    decreases s.len(),
{
    if s.len() == 0 {
        0
    } else {
        payload(s[0]) + 128 * vle_value(s.drop_first())
    }
}

/// The variable-length encoding of `v`: seven bits per byte, least
/// significant group first, the high bit set on every byte but the last.
pub open spec fn vle_bytes(v: nat) -> Seq<u8>
    decreases v,
{
    if v < 128 {
        seq![v as u8]
    } else {
        seq![((v % 128) + 128) as u8] + vle_bytes(v / 128)
    }
}

/// ZigZag mapping of a signed value to an unsigned one: `0, -1, 1, -2, ...`
/// become `0, 1, 2, 3, ...`.
pub open spec fn zigzag(v: int) -> nat {
    if v >= 0 {
        (2 * v) as nat
    } else {
        (-2 * v - 1) as nat
    }
}

/// Inverse of [`zigzag`].
pub open spec fn unzigzag(n: nat) -> int {
    if n % 2 == 0 {
        (n / 2) as int
    } else {
        -((n / 2) as int) - 1
    }
}

/// The smallest element of a non-empty sequence.
pub open spec fn seq_min(s: Seq<i64>) -> i64
    decreases s.len(),
{
    if s.len() <= 1 {
        s[0]
    } else {
        let m = seq_min(s.drop_last());
        if s.last() < m { s.last() } else { m }
    }
}

/// `s` without the first occurrence of `x` (unchanged if `x` does not occur).
pub open spec fn remove_first(s: Seq<i64>, x: i64) -> Seq<i64>
    decreases s.len(),
{
    if s.len() == 0 {
        s
    } else if s[0] == x {
        s.drop_first()
    } else {
        seq![s[0]] + remove_first(s.drop_first(), x)
    }
}

/// What [`delta_encode`] produces from a non-empty batch: the minimum, then
/// every value, in order, as its distance from the minimum (one more entry
/// than the batch has values).
pub open spec fn delta_encoding(batch: Seq<i64>) -> Seq<i64> {
    let m = seq_min(batch);
    seq![m] + batch.map_values(|e: i64| (e - m) as i64)
}

/// What [`delta_encode_min_once`] produces from a non-empty batch: the
/// minimum, then every other value (the first occurrence of the minimum
/// left out) as its distance from the minimum.
pub open spec fn delta_encoding_min_once(batch: Seq<i64>) -> Seq<i64> {
    let m = seq_min(batch);
    seq![m] + remove_first(batch, m).map_values(|e: i64| (e - m) as i64)
}

// ---------------------------------------------------------------------------
// Lemmas
// ---------------------------------------------------------------------------

proof fn lemma_vle_value_take(s: Seq<u8>, i: int)
    requires
        0 <= i < s.len(),
    ensures
        vle_value(s.take(i + 1)) == vle_value(s.take(i)) + payload(s[i]) * pow2((7 * i) as nat),
    decreases i,
{
    lemma2_to64();
    if i == 0 {
        assert(s.take(1).drop_first() =~= Seq::<u8>::empty());
        assert(s.take(0) =~= Seq::<u8>::empty());
        assert(s.take(1)[0] == s[0]);
        assert(vle_value(Seq::<u8>::empty()) == 0);
        assert(vle_value(s.take(1)) == payload(s[0]) + 128 * vle_value(s.take(1).drop_first()));
    } else {
        let t = s.drop_first();
        lemma_vle_value_take(t, i - 1);
        assert(s.take(i + 1).drop_first() =~= t.take(i));
        assert(s.take(i).drop_first() =~= t.take(i - 1));
        assert(t[i - 1] == s[i]);
        lemma_pow2_adds(7, (7 * (i - 1)) as nat);
        let a = vle_value(t.take(i - 1));
        let b = payload(s[i]);
        let p = pow2((7 * (i - 1)) as nat);
        assert(pow2((7 * i) as nat) == 128 * p);
        assert(vle_value(t.take(i)) == a + b * p);
        assert(128 * (a + b * p) == 128 * a + b * (128 * p)) by (nonlinear_arith);
        assert(vle_value(s.take(i + 1)) == payload(s[0]) + 128 * vle_value(t.take(i)));
        assert(vle_value(s.take(i)) == payload(s[0]) + 128 * a);
    }
}

proof fn lemma_pow2_63()
    ensures
        pow2(63) == 0x8000_0000_0000_0000,
        pow2(64) == 2 * pow2(63),
{
    lemma2_to64();
    lemma_pow2_adds(63, 1);
}

proof fn lemma_vle_value_bound(s: Seq<u8>)
    ensures
        vle_value(s) < pow2((7 * s.len()) as nat),
    decreases s.len(),
{
    lemma2_to64();
    if s.len() > 0 {
        let t = s.drop_first();
        lemma_vle_value_bound(t);
        lemma_pow2_adds(7, (7 * t.len()) as nat);
        let p = pow2((7 * t.len()) as nat);
        assert(payload(s[0]) + 128 * vle_value(t) < 128 * p) by (nonlinear_arith)
            requires
                payload(s[0]) < 128,
                vle_value(t) < p,
        ;
    }
}

/// Decoding the encoding of a number gives the number back, and the encoding
/// of a 64-bit value takes at most ten bytes.
pub proof fn lemma_vle_roundtrip(v: nat)
    ensures
        vle_value(vle_bytes(v)) == v,
        vle_bytes(v).len() >= 1,
        v < pow2(64) ==> vle_bytes(v).len() <= 10,
        vle_bytes(v).last() < 128,
        forall|i: int| 0 <= i < vle_bytes(v).len() - 1 ==> vle_bytes(v)[i] >= 128,
    decreases v,
{
    lemma2_to64();
    let b = vle_bytes(v);
    if v >= 128 {
        lemma_vle_roundtrip(v / 128);
        assert(b.drop_first() =~= vle_bytes(v / 128));
        assert(b[0] == ((v % 128) + 128) as u8);
        assert(payload(b[0]) == v % 128);
        assert(vle_value(b) == v % 128 + 128 * (v / 128));
        assert forall|i: int| 0 <= i < b.len() - 1 implies b[i] >= 128 by {
            if i > 0 {
                assert(b[i] == vle_bytes(v / 128)[i - 1]);
            }
        }
    } else {
        assert(b.drop_first() =~= Seq::<u8>::empty());
        assert(vle_value(Seq::<u8>::empty()) == 0);
        assert(b[0] == v as u8);
        assert(vle_value(b) == payload(b[0]) + 128 * vle_value(b.drop_first()));
    }
    if v < pow2(64) {
        vstd::arithmetic::power2::lemma_pow2_strictly_increases(64, 70);
        lemma_vle_len_bound(v, 10);
    }
}

proof fn lemma_vle_len_bound(v: nat, k: nat)
    requires
        v < pow2((7 * k) as nat),
        k >= 1,
    ensures
        vle_bytes(v).len() <= k,
    decreases v,
{
    lemma2_to64();
    if v >= 128 {
        if k == 1 {
            assert(false);
        } else {
            lemma_pow2_adds(7, (7 * (k - 1)) as nat);
            assert(v / 128 < pow2((7 * (k - 1)) as nat)) by (nonlinear_arith)
                requires
                    v < 128 * pow2((7 * (k - 1)) as nat),
            ;
            lemma_vle_len_bound(v / 128, (k - 1) as nat);
        }
    }
}

/// `vle_decode_u` of the bytes `vle_encode_u` appends gives the value back.
pub proof fn lemma_vle_u64_roundtrip(v: u64)
    ensures
        vle_bytes(v as nat).len() <= 10,
        vle_value(vle_bytes(v as nat)) % pow2(64) == v,
{
    lemma2_to64();
    lemma_vle_roundtrip(v as nat);
    vstd::arithmetic::div_mod::lemma_small_mod(v as nat, pow2(64));
}

/// `vle_decode_i` of the bytes `vle_encode_i` appends gives the value back.
pub proof fn lemma_vle_i64_roundtrip(v: i64)
    ensures
        vle_bytes(zigzag(v as int)).len() <= 10,
        unzigzag(vle_value(vle_bytes(zigzag(v as int))) % pow2(64)) == v,
{
    lemma2_to64();
    let z = zigzag(v as int);
    assert(z < pow2(64));
    lemma_vle_roundtrip(z);
    vstd::arithmetic::div_mod::lemma_small_mod(z, pow2(64));
}

/// Every integer comes back from its ZigZag image.
pub proof fn lemma_zigzag_roundtrip(v: int)
    ensures
        unzigzag(zigzag(v)) == v,
{
}

/// A delta encoding holds one entry more than the batch: the minimum, then
/// for each value its non-negative distance from the minimum.
pub proof fn lemma_delta_encoding_facts(batch: Seq<i64>)
    requires
        batch.len() >= 1,
        forall|i: int, j: int|
            0 <= i < batch.len() && 0 <= j < batch.len() ==> batch[i] - batch[j] <= i64::MAX,
    ensures
        delta_encoding(batch).len() == batch.len() + 1,
        delta_encoding(batch)[0] == seq_min(batch),
        forall|i: int| 0 <= i < batch.len() ==> seq_min(batch) <= #[trigger] batch[i] && batch[i] - seq_min(batch) <= i64::MAX,
        forall|i: int| 1 <= i < delta_encoding(batch).len() ==> delta_encoding(batch)[i] >= 0,
        delta_encoding(batch).drop_first() == batch.map_values(|e: i64| (e - seq_min(batch)) as i64),
{
    lemma_seq_min_is_min(batch);
    let m = seq_min(batch);
    let d = delta_encoding(batch);
    let j = choose|j: int| 0 <= j < batch.len() && batch[j] == m;
    assert forall|i: int| 0 <= i < batch.len() implies m <= #[trigger] batch[i] && batch[i] - m <= i64::MAX by {
        assert(batch[i] - batch[j] <= i64::MAX);
    }
    assert forall|i: int| 1 <= i < d.len() implies d[i] >= 0 by {
        assert(d[i] == (batch[i - 1] - m) as i64);
    }
    assert(d.drop_first() =~= batch.map_values(|e: i64| (e - m) as i64));
}

/// A delta encoding with the minimum once has the batch's length, starts
/// with the minimum, and all later entries are non-negative distances.
pub proof fn lemma_delta_encoding_min_once_facts(batch: Seq<i64>)
    requires
        batch.len() >= 1,
        forall|i: int, j: int|
            0 <= i < batch.len() && 0 <= j < batch.len() ==> batch[i] - batch[j] <= i64::MAX,
    ensures
        delta_encoding_min_once(batch).len() == batch.len(),
        delta_encoding_min_once(batch)[0] == seq_min(batch),
        forall|i: int| 1 <= i < delta_encoding_min_once(batch).len() ==> delta_encoding_min_once(batch)[i] >= 0,
{
    lemma_seq_min_is_min(batch);
    let m = seq_min(batch);
    lemma_remove_first_facts(batch, m);
    let r = remove_first(batch, m);
    let d = delta_encoding_min_once(batch);
    assert forall|i: int| 1 <= i < d.len() implies d[i] >= 0 by {
        let e = r[i - 1];
        assert(batch.contains(e));
        let k = choose|k: int| 0 <= k < batch.len() && batch[k] == e;
        assert(m <= batch[k]);
        let j = choose|j: int| 0 <= j < batch.len() && batch[j] == m;
        assert(batch[k] - batch[j] <= i64::MAX);
    }
}

pub proof fn lemma_remove_first_facts(s: Seq<i64>, x: i64)
    requires
        s.contains(x),
    ensures
        remove_first(s, x).len() == s.len() - 1,
        forall|i: int| 0 <= i < remove_first(s, x).len() ==> s.contains(#[trigger] remove_first(s, x)[i]),
    decreases s.len(),
{
    if s[0] != x {
        let t = s.drop_first();
        let k = choose|k: int| 0 <= k < s.len() && s[k] == x;
        assert(t[k - 1] == x);
        lemma_remove_first_facts(t, x);
        let r = remove_first(s, x);
        assert forall|i: int| 0 <= i < r.len() implies s.contains(#[trigger] r[i]) by {
            if i == 0 {
                assert(s[0] == r[0]);
            } else {
                assert(r[i] == remove_first(t, x)[i - 1]);
                assert(t.contains(r[i]));
                let kk = choose|kk: int| 0 <= kk < t.len() && t[kk] == r[i];
                assert(s[kk + 1] == r[i]);
            }
        }
    } else {
        let r = remove_first(s, x);
        assert forall|i: int| 0 <= i < r.len() implies s.contains(#[trigger] r[i]) by {
            assert(s[i + 1] == r[i]);
        }
    }
}

// ---------------------------------------------------------------------------
// Executable functions
// ---------------------------------------------------------------------------

/// Appends the variable-length encoding of `val` to `buf`.
pub fn vle_encode_u(buf: &mut Vec<u8>, val: u64)
    ensures
        final(buf)@ == old(buf)@ + vle_bytes(val as nat),
{
    let mut v = val;
    loop
        invariant
            buf@ + vle_bytes(v as nat) == old(buf)@ + vle_bytes(val as nat),
        decreases v,
    {
        let byte: u8 = (v & 0x7f) as u8;
        assert(v & 0x7f == v % 128) by (bit_vector);
        assert(v >> 7 == v / 128) by (bit_vector);
        v = v >> 7;
        if v == 0 {
            proof {
                assert(vle_bytes(byte as nat) =~= seq![byte]);
            }
            buf.push(byte);
            return;
        } else {
            assert(byte | 0x80 == byte + 128) by (bit_vector)
                requires
                    byte < 128,
            ;
            let ghost before = buf@;
            buf.push(byte | 0x80);
            proof {
                let w = (v * 128 + byte) as nat;
                assert(w >= 128);
                assert(w % 128 == byte as nat);
                assert(w / 128 == v as nat);
                assert(vle_bytes(w) =~= seq![(byte + 128) as u8] + vle_bytes(v as nat));
                assert(before + vle_bytes(w) =~= buf@ + vle_bytes(v as nat));
            }
        }
    }
}

/// Decodes the variable-length bytes in `buf` (all of them, as one value).
/// Groups beyond the 64th bit are cut off, as a `u64` shift cuts them.
pub fn vle_decode_u(buf: &Vec<u8>) -> (r: u64)
    requires
        buf.len() <= 10,
    ensures
        r as nat == vle_value(buf@) % pow2(64),
{
    let mut out: u64 = 0;
    let mut shift: u64 = 0;
    let mut i: usize = 0;
    proof {
        lemma2_to64();
        lemma_pow2_63();
        assert(buf@.take(0) =~= Seq::<u8>::empty());
    }
    while i < buf.len()
        invariant
            i <= buf.len() <= 10,
            shift == 7 * i,
            out as nat == vle_value(buf@.take(i as int)) % pow2(64),
            i <= 9 ==> vle_value(buf@.take(i as int)) < pow2(shift as nat),
            pow2(63) == 0x8000_0000_0000_0000,
            pow2(64) == 2 * pow2(63),
            pow2(7) == 128,
        decreases buf.len() - i,
    {
        let byte = buf[i];
        let p: u64 = (byte & 0x7f) as u64;
        assert(byte & 0x7f == byte % 128) by (bit_vector);
        proof {
            lemma_vle_value_take(buf@, i as int);
        }
        let ghost prev = vle_value(buf@.take(i as int));
        if shift <= 56 {
            proof {
                vstd::arithmetic::power2::lemma_pow2_strictly_increases(shift as nat, 64);
                vstd::bits::lemma_u64_shl_is_mul(1, shift);
                lemma_pow2_adds(shift as nat, 7);
                vstd::arithmetic::power2::lemma_pow2_strictly_increases((shift + 7) as nat, 64);
                vstd::arithmetic::div_mod::lemma_small_mod(prev, pow2(64));
            }
            assert(out < (1u64 << shift) ==> (out | (p << shift)) == out + (p << shift)) by (bit_vector)
                requires
                    p < 128,
                    shift <= 56,
            ;
            assert((p << shift) == p * (1u64 << shift)) by (bit_vector)
                requires
                    p < 128,
                    shift <= 56,
            ;
            proof {
                assert(out as nat == prev);
                assert(p * pow2(shift as nat) + prev < pow2(shift as nat) * 128) by (nonlinear_arith)
                    requires
                        p < 128,
                        prev < pow2(shift as nat),
                ;
                let next = prev + p * pow2(shift as nat);
                vstd::arithmetic::div_mod::lemma_small_mod(next as nat, pow2(64));
            }
            out = out | (p << shift);
        } else {
            // the tenth byte: only its lowest bit still fits into a u64
            assert(shift == 63);
            assert(out < 0x8000_0000_0000_0000u64 ==> (out | (p << 63)) == out + (p % 2) * 0x8000_0000_0000_0000u64)
                by (bit_vector)
                requires
                    p < 128,
            ;
            proof {
                vstd::arithmetic::div_mod::lemma_small_mod(prev, pow2(64));
                assert(out as nat == prev);
                let q = (p / 2) as int;
                let r = (p % 2) as int;
                let m = pow2(64) as int;
                let h = pow2(63) as int;
                assert(p * h == m * q + r * h) by (nonlinear_arith)
                    requires
                        m == 2 * h,
                        p == 2 * q + r,
                ;
                vstd::arithmetic::div_mod::lemma_mod_multiples_vanish(q, prev + r * h, m);
                vstd::arithmetic::div_mod::lemma_small_mod((prev + r * h) as nat, m as nat);
            }
            out = out | (p << 63u64);
        }
        shift = shift + 7;
        i = i + 1;
    }
    proof {
        assert(buf@.take(buf.len() as int) =~= buf@);
    }
    out
}

/// Appends the ZigZag and variable-length encoding of a signed value.
pub fn vle_encode_i(buf: &mut Vec<u8>, val: i64)
    ensures
        final(buf)@ == old(buf)@ + vle_bytes(zigzag(val as int)),
{
    let zz: u64 = if val >= 0 {
        (val as u64) * 2
    } else {
        let neg: i128 = -(val as i128);
        (neg * 2 - 1) as u64
    };
    vle_encode_u(buf, zz);
}

/// Decodes the bytes of a ZigZag and variable-length encoded signed value.
pub fn vle_decode_i(buf: &Vec<u8>) -> (r: i64)
    requires
        buf.len() <= 10,
    ensures
        r as int == unzigzag(vle_value(buf@) % pow2(64)),
{
    let val = vle_decode_u(buf);
    if val % 2 == 0 {
        (val / 2) as i64
    } else {
        -((val / 2) as i64) - 1
    }
}

/// Delta encoding of a batch with the minimum once: the minimum first, then
/// every other value as its (non-negative) distance from the minimum; the
/// first occurrence of the minimum is not repeated. An empty batch has no
/// minimum and is refused.
pub fn delta_encode_min_once(batch: &[i64]) -> (r: Result<Vec<i64>, DbError>)
    requires
        forall|i: int, j: int|
            0 <= i < batch@.len() && 0 <= j < batch@.len() ==> batch@[i] - batch@[j] <= i64::MAX,
    ensures
        batch@.len() == 0 <==> r is Err,
        r is Err ==> r->Err_0 is Other,
        r matches Ok(v) ==> v@ == delta_encoding_min_once(batch@),
{
    if batch.len() == 0 {
        return Err(DbError::Other(
            "delta_encode: cannot find minimum value in empty batch".to_string(),
        ));
    }
    let mut min_val = batch[0];
    let mut k: usize = 1;
    proof {
        assert(batch@.take(1).drop_last() =~= Seq::<i64>::empty());
    }
    while k < batch.len()
        invariant
            1 <= k <= batch.len(),
            min_val == seq_min(batch@.take(k as int)),
        decreases batch.len() - k,
    {
        proof {
            assert(batch@.take(k + 1).drop_last() =~= batch@.take(k as int));
        }
        if batch[k] < min_val {
            min_val = batch[k];
        }
        k = k + 1;
    }
    proof {
        assert(batch@.take(batch.len() as int) =~= batch@);
        lemma_seq_min_is_min(batch@);
    }
    let ghost m = min_val;
    let mut out: Vec<i64> = Vec::new();
    out.push(min_val);
    let mut first_encountered = true;
    let mut idx: usize = 0;
    while idx < batch.len()
        invariant
            idx <= batch.len(),
            m == min_val,
            forall|i: int| 0 <= i < batch@.len() ==> min_val <= #[trigger] batch@[i],
            forall|i: int, j: int|
                0 <= i < batch@.len() && 0 <= j < batch@.len() ==> batch@[i] - batch@[j] <= i64::MAX,
            exists|i: int| 0 <= i < batch@.len() && batch@[i] == min_val,
            first_encountered <==> !batch@.take(idx as int).contains(min_val),
            out@ == seq![m] + remove_first(batch@.take(idx as int), m).map_values(|e: i64| (e - m) as i64),
        decreases batch.len() - idx,
    {
        let elem = batch[idx];
        proof {
            lemma_remove_first_push(batch@.take(idx as int), elem, m);
            assert(batch@.take(idx + 1) =~= batch@.take(idx as int).push(elem));
        }
        proof {
            let tk = batch@.take(idx as int);
            assert(batch@.take(idx + 1).contains(min_val) <==> (tk.contains(min_val) || elem == min_val)) by {
                let tk1 = batch@.take(idx + 1);
                if tk1.contains(min_val) {
                    let k = choose|k: int| 0 <= k < tk1.len() && tk1[k] == min_val;
                    if k < idx {
                        assert(tk[k] == min_val);
                    }
                }
                if tk.contains(min_val) {
                    let k = choose|k: int| 0 <= k < tk.len() && tk[k] == min_val;
                    assert(tk1[k] == min_val);
                }
                if elem == min_val {
                    assert(tk1[idx as int] == min_val);
                }
            }
        }
        if first_encountered && min_val == elem {
            first_encountered = false;
        } else {
            let ghost j = choose|i: int| 0 <= i < batch@.len() && batch@[i] == min_val;
            assert(elem - min_val <= i64::MAX);
            out.push(elem - min_val);
            proof {
                let old_r = remove_first(batch@.take(idx as int), m);
                assert(seq![m] + (old_r.push(elem)).map_values(|e: i64| (e - m) as i64)
                    =~= (seq![m] + old_r.map_values(|e: i64| (e - m) as i64)).push((elem - m) as i64));
            }
        }
        idx = idx + 1;
    }
    proof {
        assert(batch@.take(batch.len() as int) =~= batch@);
    }
    Ok(out)
}

/// The smallest value of a non-empty batch.
fn batch_min(batch: &[i64]) -> (r: i64)
    requires
        batch@.len() > 0,
    ensures
        r == seq_min(batch@),
{
    let mut min_val = batch[0];
    let mut k: usize = 1;
    proof {
        assert(batch@.take(1).drop_last() =~= Seq::<i64>::empty());
    }
    while k < batch.len()
        invariant
            1 <= k <= batch.len(),
            min_val == seq_min(batch@.take(k as int)),
        decreases batch.len() - k,
    {
        proof {
            assert(batch@.take(k + 1).drop_last() =~= batch@.take(k as int));
        }
        if batch[k] < min_val {
            min_val = batch[k];
        }
        k = k + 1;
    }
    proof {
        assert(batch@.take(batch.len() as int) =~= batch@);
    }
    min_val
}

/// Delta encoding of a batch: the minimum first, then every value, in
/// order, as its (non-negative) distance from the minimum. An empty batch
/// has no minimum and is refused.
pub fn delta_encode(batch: &[i64]) -> (r: Result<Vec<i64>, DbError>)
    requires
        forall|i: int, j: int|
            0 <= i < batch@.len() && 0 <= j < batch@.len() ==> batch@[i] - batch@[j] <= i64::MAX,
    ensures
        batch@.len() == 0 <==> r is Err,
        r is Err ==> r->Err_0 is Other,
        r matches Ok(v) ==> v@ == delta_encoding(batch@),
{
    if batch.len() == 0 {
        return Err(DbError::Other(
            "delta_encode: cannot find minimum value in empty batch".to_string(),
        ));
    }
    let min_val = batch_min(batch);
    proof {
        lemma_delta_encoding_facts(batch@);
    }
    let ghost m = min_val;
    let mut out: Vec<i64> = Vec::new();
    out.push(min_val);
    let mut idx: usize = 0;
    while idx < batch.len()
        invariant
            idx <= batch.len(),
            m == min_val,
            m == seq_min(batch@),
            forall|i: int| 0 <= i < batch@.len() ==> m <= #[trigger] batch@[i] && batch@[i] - m <= i64::MAX,
            out@ == seq![m] + batch@.take(idx as int).map_values(|e: i64| (e - m) as i64),
        decreases batch.len() - idx,
    {
        let elem = batch[idx];
        let d = elem - min_val;
        let ghost before = out@;
        out.push(d);
        proof {
            assert(batch@.take(idx + 1) =~= batch@.take(idx as int).push(elem));
            assert(out@ =~= seq![m] + batch@.take(idx + 1).map_values(|e: i64| (e - m) as i64));
        }
        idx = idx + 1;
    }
    proof {
        assert(batch@.take(batch.len() as int) =~= batch@);
    }
    Ok(out)
}

pub proof fn lemma_seq_min_is_min(s: Seq<i64>)
    requires
        s.len() >= 1,
    ensures
        forall|i: int| 0 <= i < s.len() ==> seq_min(s) <= #[trigger] s[i],
        exists|i: int| 0 <= i < s.len() && s[i] == seq_min(s),
    decreases s.len(),
{
    if s.len() > 1 {
        lemma_seq_min_is_min(s.drop_last());
        let i0 = choose|i: int| 0 <= i < s.drop_last().len() && s.drop_last()[i] == seq_min(s.drop_last());
        assert(s[i0] == s.drop_last()[i0]);
        assert forall|i: int| 0 <= i < s.len() implies seq_min(s) <= #[trigger] s[i] by {
            if i < s.len() - 1 {
                assert(s[i] == s.drop_last()[i]);
            }
        }
        if s.last() < seq_min(s.drop_last()) {
            assert(s[s.len() - 1] == seq_min(s));
        } else {
            assert(s[i0] == seq_min(s));
        }
    } else {
        assert(s[0] == seq_min(s));
    }
}

proof fn lemma_remove_first_push(s: Seq<i64>, e: i64, x: i64)
    ensures
        s.contains(x) ==> remove_first(s.push(e), x) == remove_first(s, x).push(e),
        !s.contains(x) ==> remove_first(s, x) == s,
        !s.contains(x) && e == x ==> remove_first(s.push(e), x) == s,
        !s.contains(x) && e != x ==> remove_first(s.push(e), x) == s.push(e),
    decreases s.len(),
{
    if s.len() == 0 {
        assert(s.push(e).drop_first() =~= Seq::<i64>::empty());
        assert(!s.contains(x));
        if e != x {
            assert(seq![e] + remove_first(Seq::<i64>::empty(), x) =~= s.push(e));
        }
    } else {
        let t = s.drop_first();
        lemma_remove_first_push(t, e, x);
        assert(s.push(e).drop_first() =~= t.push(e));
        if s[0] == x {
            assert(s.contains(x));
        } else {
            assert(s.contains(x) <==> t.contains(x)) by {
                if s.contains(x) {
                    let k = choose|k: int| 0 <= k < s.len() && s[k] == x;
                    assert(t[k - 1] == x);
                }
                if t.contains(x) {
                    let k = choose|k: int| 0 <= k < t.len() && t[k] == x;
                    assert(s[k + 1] == x);
                }
            }
            if s.contains(x) {
                assert(seq![s[0]] + remove_first(t, x).push(e) =~= (seq![s[0]] + remove_first(t, x)).push(e));
            } else {
                assert(seq![s[0]] + t =~= s);
                if e == x {
                } else {
                    assert(seq![s[0]] + t.push(e) =~= s.push(e));
                }
            }
        }
    }
}

} // verus!
