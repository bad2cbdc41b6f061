//! What the integer column decoder gives back for a saved batch.
use vstd::prelude::*;
use vstd::arithmetic::power2::{pow2, lemma2_to64};
use crate::db::storage::bytes_be::{lemma_be_roundtrip, u16_be_bytes};
use crate::db::storage::col_data::{int_batch_bytes, vle_concat};
use crate::db::storage::col_read::{
    int_decode_run, int_decode_start, int_decode_step, lemma_int_decode_run_concat, IntDecodeView, ReadStage,
};
use crate::db::storage::encoders::{
    delta_encoding, lemma_delta_encoding_facts, lemma_vle_i64_roundtrip, lemma_vle_roundtrip, seq_min, vle_bytes,
    vle_value, zigzag,
};

verus! {

/// Feeding the first `k` variable-length bytes of `x` (not yet the last) to
/// a decoder in its data stage with no pending bytes only collects them.
proof fn lemma_int_read_vle_prefix(s: IntDecodeView, x: nat, k: int)
    requires
        s.stage == ReadStage::DataStage,
        s.bytes.len() == 0,
        0 <= k < vle_bytes(x).len(),
    ensures
        int_decode_run(s, vle_bytes(x).take(k)) == Some(IntDecodeView { bytes: vle_bytes(x).take(k), ..s }),
    decreases k,
{
    lemma_vle_roundtrip(x);
    let vb = vle_bytes(x);
    if k == 0 {
        assert(vb.take(0) =~= s.bytes);
    } else {
        lemma_int_read_vle_prefix(s, x, k - 1);
        assert(vb.take(k).drop_last() =~= vb.take(k - 1));
        assert(vb.take(k).last() == vb[k - 1]);
        assert(vb.take(k - 1).push(vb[k - 1]) =~= vb.take(k));
    }
}

/// Feeding all the variable-length bytes of `x` (below `2^64`) to a decoder
/// in its data stage with no pending bytes is one step on the last byte,
/// with the others pending; the value they stand for is `x`.
proof fn lemma_int_read_vle(s: IntDecodeView, x: nat)
    requires
        s.stage == ReadStage::DataStage,
        s.bytes.len() == 0,
        x < pow2(64),
    ensures
        vle_bytes(x).len() <= 10,
        vle_bytes(x).last() < 128,
        vle_value(vle_bytes(x)) == x,
        int_decode_run(s, vle_bytes(x)) == int_decode_step(
            IntDecodeView { bytes: vle_bytes(x).drop_last(), ..s },
            vle_bytes(x).last(),
        ),
        vle_bytes(x).drop_last().push(vle_bytes(x).last()) == vle_bytes(x),
{
    lemma_vle_roundtrip(x);
    let vb = vle_bytes(x);
    let n = vb.len() as int;
    lemma_int_read_vle_prefix(s, x, n - 1);
    assert(vb.take(n - 1) =~= vb.drop_last());
    assert(vb.drop_last().push(vb.last()) =~= vb);
}

/// The minimum of a batch, in ZigZag form, is read as the base of the
/// batch's distances: no row comes out of it.
proof fn lemma_int_read_min(s: IntDecodeView, m: i64)
    requires
        s.stage == ReadStage::DataStage,
        s.bytes.len() == 0,
        s.first_value,
    ensures
        int_decode_run(s, vle_bytes(zigzag(m as int))) == Some(
            IntDecodeView { min_val: m, first_value: false, bytes: Seq::empty(), ..s },
        ),
{
    lemma2_to64();
    lemma_vle_i64_roundtrip(m);
    let z = zigzag(m as int);
    lemma_int_read_vle(s, z);
    assert(vle_value(vle_bytes(z)) % pow2(64) == z) by {
        vstd::arithmetic::div_mod::lemma_small_mod(z, pow2(64));
    }
}

/// A distance from the minimum is read as one more row of the batch, the
/// minimum added back.
proof fn lemma_int_read_delta(s: IntDecodeView, e: i64)
    requires
        s.stage == ReadStage::DataStage,
        s.bytes.len() == 0,
        !s.first_value,
        s.min_val <= e,
        e - s.min_val <= i64::MAX,
        s.n_rows_in_batch + 1 != s.curr_batch_size,
    ensures
        int_decode_run(s, vle_bytes(((e - s.min_val) as i64) as nat)) == Some(
            IntDecodeView {
                values: s.values.push(e),
                n_rows_in_batch: s.n_rows_in_batch + 1,
                bytes: Seq::empty(),
                ..s
            },
        ),
{
    lemma2_to64();
    let d: i64 = (e - s.min_val) as i64;
    let x = d as nat;
    lemma_int_read_vle(s, x);
    assert(vle_value(vle_bytes(x)) % pow2(64) == x) by {
        vstd::arithmetic::div_mod::lemma_small_mod(x, pow2(64));
    }
}

/// Distances from the minimum, one after another, are read as rows of the
/// batch while the batch's row count is not reached.
proof fn lemma_int_read_deltas(s: IntDecodeView, es: Seq<i64>)
    requires
        s.stage == ReadStage::DataStage,
        s.bytes.len() == 0,
        !s.first_value,
        forall|i: int| 0 <= i < es.len() ==> s.min_val <= #[trigger] es[i] && es[i] - s.min_val <= i64::MAX,
        s.n_rows_in_batch + es.len() < s.curr_batch_size,
    ensures
        int_decode_run(s, vle_concat(es.map_values(|e: i64| (e - s.min_val) as i64))) == Some(
            IntDecodeView { values: s.values + es, n_rows_in_batch: s.n_rows_in_batch + es.len(), ..s },
        ),
    decreases es.len(),
{
    let m = s.min_val;
    let d = es.map_values(|e: i64| (e - m) as i64);
    if es.len() == 0 {
        assert(d =~= Seq::<i64>::empty());
        assert(s.values + es =~= s.values);
        assert(vle_concat(d) =~= Seq::<u8>::empty());
    } else {
        let init = es.drop_last();
        assert forall|i: int| 0 <= i < init.len() implies m <= #[trigger] init[i] && init[i] - m <= i64::MAX by {
            assert(init[i] == es[i]);
        }
        lemma_int_read_deltas(s, init);
        let t = IntDecodeView { values: s.values + init, n_rows_in_batch: s.n_rows_in_batch + init.len(), ..s };
        assert(d.drop_last() =~= init.map_values(|e: i64| (e - m) as i64));
        lemma_int_decode_run_concat(s, vle_concat(d.drop_last()), vle_bytes(d.last() as nat));
        assert(es.last() == es[es.len() - 1]);
        lemma_int_read_delta(t, es.last());
        assert(d.last() == (es.last() - m) as i64);
        assert((s.values + init).push(es.last()) =~= s.values + es);
        assert(s.bytes =~= Seq::<u8>::empty());
    }
}

/// The last distance of a batch is read as its last row, and the reader is
/// then ready for the next batch.
proof fn lemma_int_read_last_delta(s: IntDecodeView, e: i64)
    requires
        s.stage == ReadStage::DataStage,
        s.bytes.len() == 0,
        !s.first_value,
        s.min_val <= e,
        e - s.min_val <= i64::MAX,
        s.n_rows_in_batch + 1 == s.curr_batch_size,
    ensures
        int_decode_run(s, vle_bytes(((e - s.min_val) as i64) as nat)) == Some(
            IntDecodeView {
                values: s.values.push(e),
                n_rows_in_batch: 0,
                stage: ReadStage::SizeStage,
                first_value: true,
                bytes: Seq::empty(),
                ..s
            },
        ),
{
    lemma2_to64();
    let d: i64 = (e - s.min_val) as i64;
    let x = d as nat;
    lemma_int_read_vle(s, x);
    assert(vle_value(vle_bytes(x)) % pow2(64) == x) by {
        vstd::arithmetic::div_mod::lemma_small_mod(x, pow2(64));
    }
}

/// The reader is between batches: it expects a row count, with nothing
/// pending.
pub open spec fn between_int_batches(s: IntDecodeView) -> bool {
    &&& s.stage == ReadStage::SizeStage
    &&& s.bytes.len() == 0
    &&& s.first_value
    &&& s.n_rows_in_batch == 0
}

/// A batch that can be saved: one to `u16::MAX` values, whose distances all
/// fit in an `i64`.
pub open spec fn savable_int_batch(vals: Seq<i64>) -> bool {
    &&& 1 <= vals.len() <= u16::MAX
    &&& forall|i: int, j: int| 0 <= i < vals.len() && 0 <= j < vals.len() ==> vals[i] - vals[j] <= i64::MAX
}

/// A saved integer batch reads back unchanged: a reader between batches,
/// fed the bytes of the batch, gives its values, in order, and is between
/// batches again.
pub proof fn law_int_batch_reads_back(s: IntDecodeView, vals: Seq<i64>)
    requires
        between_int_batches(s),
        savable_int_batch(vals),
    ensures
        int_decode_run(s, int_batch_bytes(vals)) matches Some(t) && t.values == s.values + vals && between_int_batches(t),
{
    let n = vals.len();
    let m = seq_min(vals);
    lemma_delta_encoding_facts(vals);
    let d = delta_encoding(vals);
    let sz = u16_be_bytes(n as u16);
    let head = vle_bytes(zigzag(d[0] as int));
    let tail = vle_concat(d.drop_first());
    assert(int_batch_bytes(vals) =~= sz + (head + tail));
    lemma_int_decode_run_concat(s, sz, head + tail);
    lemma_be_roundtrip(Seq::empty(), 0, n as u16, Seq::empty());
    assert(Seq::<u8>::empty() + sz + Seq::<u8>::empty() =~= sz);
    let s1 = IntDecodeView { curr_batch_size: n as u16, stage: ReadStage::DataStage, bytes: Seq::empty(), ..s };
    assert(int_decode_run(s, sz) == Some(s1)) by {
        assert(sz.drop_last() =~= seq![sz[0]]);
        assert(seq![sz[0]].drop_last() =~= Seq::<u8>::empty());
        assert(s.bytes =~= Seq::<u8>::empty());
        assert(Seq::<u8>::empty().push(sz[0]) =~= seq![sz[0]]);
        assert(seq![sz[0]].push(sz[1]) =~= sz);
        reveal_with_fuel(int_decode_run, 3);
    }
    lemma_int_decode_run_concat(s1, head, tail);
    lemma_int_read_min(s1, m);
    let s2 = IntDecodeView { min_val: m, first_value: false, bytes: Seq::empty(), ..s1 };
    let init = vals.drop_last();
    let dd = d.drop_first();
    assert(dd.drop_last() =~= init.map_values(|e: i64| (e - m) as i64));
    assert(dd.last() == (vals.last() - m) as i64);
    assert forall|i: int| 0 <= i < init.len() implies m <= #[trigger] init[i] && init[i] - m <= i64::MAX by {
        assert(init[i] == vals[i]);
    }
    assert(vals.last() == vals[n - 1]);
    lemma_int_decode_run_concat(s2, vle_concat(dd.drop_last()), vle_bytes(dd.last() as nat));
    lemma_int_read_deltas(s2, init);
    let s3 = IntDecodeView { values: s2.values + init, n_rows_in_batch: init.len(), ..s2 };
    lemma_int_read_last_delta(s3, vals.last());
    assert((s.values + init).push(vals.last()) =~= s.values + vals);
}

/// A saved integer batch read by a new reader gives the batch back, and
/// the reader is ready for the next batch.
pub proof fn law_saved_int_batch_reads_back(vals: Seq<i64>)
    requires
        savable_int_batch(vals),
    ensures
        int_decode_run(int_decode_start(), int_batch_bytes(vals)) matches Some(t) && t.values == vals
            && between_int_batches(t),
{
    law_int_batch_reads_back(int_decode_start(), vals);
    assert(Seq::<i64>::empty() + vals =~= vals);
}

/// The bytes of integer batches saved one after another.
pub open spec fn int_batches_bytes(bs: Seq<Seq<i64>>) -> Seq<u8>
    decreases bs.len(),
{
    if bs.len() == 0 {
        Seq::empty()
    } else {
        int_batches_bytes(bs.drop_last()) + int_batch_bytes(bs.last())
    }
}

/// The values of integer batches, one batch after another.
pub open spec fn int_batches_values(bs: Seq<Seq<i64>>) -> Seq<i64>
    decreases bs.len(),
{
    if bs.len() == 0 {
        Seq::empty()
    } else {
        int_batches_values(bs.drop_last()) + bs.last()
    }
}

/// A saved integer column reads back unchanged: a reader between batches,
/// fed the bytes of batches saved one after another, gives all their
/// values, in order, and is between batches again.
pub proof fn law_int_column_reads_back(s: IntDecodeView, bs: Seq<Seq<i64>>)
    requires
        between_int_batches(s),
        forall|i: int| 0 <= i < bs.len() ==> savable_int_batch(#[trigger] bs[i]),
    ensures
        int_decode_run(s, int_batches_bytes(bs)) matches Some(t) && t.values == s.values + int_batches_values(bs)
            && between_int_batches(t),
    decreases bs.len(),
{
    if bs.len() == 0 {
        assert(s.values + Seq::<i64>::empty() =~= s.values);
    } else {
        let init = bs.drop_last();
        assert forall|i: int| 0 <= i < init.len() implies savable_int_batch(#[trigger] init[i]) by {
            assert(init[i] == bs[i]);
        }
        law_int_column_reads_back(s, init);
        let t = int_decode_run(s, int_batches_bytes(init))->0;
        assert(savable_int_batch(bs[bs.len() - 1]));
        law_int_batch_reads_back(t, bs.last());
        lemma_int_decode_run_concat(s, int_batches_bytes(init), int_batch_bytes(bs.last()));
        assert(t.values + bs.last() =~= s.values + int_batches_values(bs));
    }
}

/// The reader starts between batches.
pub proof fn lemma_int_decode_start_between_batches()
    ensures
        between_int_batches(int_decode_start()),
{
}

} // verus!
