//! What a metadata file of the first format gives back when it is read.
use vstd::prelude::*;
use vstd::utf8::{encode_utf8, is_ascii_chars};
use crate::db::storage::col_header::lemma_read_name;
use crate::db::storage::string_handlers::{read_str_run, ReadStrStop};
use crate::db::storage::text::byte_len;
use crate::file_format_prep::constants::MAX_COL_NAME_LEN;
use crate::db::storage::bytes_be::{lemma_be_roundtrip, u16_be_bytes, u32_be_bytes};
use crate::file_format_prep::constants::MAGIC_WORD;
use crate::file_format_prep::metadata_structs::{
    all_paths_bytes, empty_paths, feed_spec, has_key, metadata_file_bytes, metadata_ok, nul_terminated, paths_of,
    paths_run, reader_ok, reader_result_ok, reader_start, str_stage_run, u8_refused, u8_stage_run, zip_paths,
    DbMetadata, FeedEnd, ReadStages, ReaderView, StageStop, ffp_path_shape, feed_check, feed_init, feed_u8,
    feed_names, feed_paths,
};

verus! {

/// A text that a metadata file holds and gives back: ASCII, without a null
/// character, of at most [`MAX_COL_NAME_LEN`] bytes.
pub open spec fn storable_text(s: Seq<char>) -> bool {
    &&& is_ascii_chars(s)
    &&& forall|i: int| 0 <= i < s.len() ==> s[i] as u32 != 0
    &&& byte_len(s) <= MAX_COL_NAME_LEN
}

/// The null-terminated texts of two lists one after the other.
pub proof fn lemma_nul_terminated_concat(a: Seq<Seq<char>>, b: Seq<Seq<char>>)
    ensures
        nul_terminated(a + b) == nul_terminated(a) + nul_terminated(b),
    decreases b.len(),
{
    if b.len() == 0 {
        assert(a + b =~= a);
        assert(nul_terminated(a) + nul_terminated(b) =~= nul_terminated(a));
    } else {
        lemma_nul_terminated_concat(a, b.drop_last());
        assert((a + b).drop_last() =~= a + b.drop_last());
        assert((a + b).last() == b.last());
        assert(nul_terminated(a + b) =~= nul_terminated(a) + nul_terminated(b));
    }
}

/// One stored text, followed by its null byte, reads back whole.
proof fn lemma_read_text(pre: Seq<u8>, s: Seq<char>, post: Seq<u8>)
    requires
        storable_text(s),
    ensures
        ({
            let buf = pre + encode_utf8(s) + seq![0u8] + post;
            read_str_run(pre.len() as int, buf.len() as int, buf, Seq::empty(), Some(MAX_COL_NAME_LEN as nat)) == (
                ReadStrStop::Terminated,
                (pre.len() + s.len() + 1) as int,
                s,
            )
        }),
{
    let buf = pre + encode_utf8(s) + seq![0u8] + post;
    let p = pre.len() as int;
    vstd::utf8::is_ascii_chars_encode_utf8(s);
    assert forall|i: int| 0 <= i < s.len() implies buf[p + i] == s[i] as u8 by {
        assert(buf[p + i] == encode_utf8(s)[i]);
    }
    assert(buf[p + s.len()] == 0);
    assert(Seq::<char>::empty() + s =~= s);
    assert(is_ascii_chars(Seq::<char>::empty()));
    lemma_read_name(buf, p, buf.len() as int, Seq::empty(), s, MAX_COL_NAME_LEN as nat);
}

/// The empty texts a text part is read into.
pub open spec fn empty_texts(n: nat) -> Seq<Seq<char>> {
    Seq::new(n, |i: int| Seq::<char>::empty())
}

/// Stored texts read back whole, one after another, from any point on.
pub proof fn lemma_str_stage_reads(pre: Seq<u8>, texts: Seq<Seq<char>>, post: Seq<u8>, p: int)
    requires
        0 <= p <= texts.len(),
        forall|k: int| 0 <= k < texts.len() ==> storable_text(#[trigger] texts[k]),
    ensures
        ({
            let buf = pre + nul_terminated(texts) + post;
            str_stage_run(
                (pre.len() + nul_terminated(texts.take(p)).len()) as int,
                buf.len() as int,
                buf,
                p,
                texts.len() as int,
                texts.take(p) + empty_texts((texts.len() - p) as nat),
            ) == (StageStop::Finished, (pre.len() + nul_terminated(texts).len()) as int, texts.len() as int, texts)
        }),
    decreases texts.len() - p,
{
    let buf = pre + nul_terminated(texts) + post;
    let n = texts.len() as int;
    if p == n {
        assert(texts.take(p) =~= texts);
        assert(texts.take(p) + empty_texts(0) =~= texts);
    } else {
        let res = texts.take(p) + empty_texts((n - p) as nat);
        let q = (pre.len() + nul_terminated(texts.take(p)).len()) as int;
        let t = texts[p];
        // the bytes from q on: the text, its null byte, the rest
        lemma_nul_terminated_concat(texts.take(p + 1), texts.skip(p + 1));
        assert(texts.take(p + 1) + texts.skip(p + 1) =~= texts);
        assert(texts.take(p + 1).drop_last() =~= texts.take(p));
        assert(nul_terminated(texts.take(p + 1)) == nul_terminated(texts.take(p)) + encode_utf8(t) + seq![0u8]);
        let post2 = nul_terminated(texts.skip(p + 1)) + post;
        let pre2 = pre + nul_terminated(texts.take(p));
        assert(buf =~= pre2 + encode_utf8(t) + seq![0u8] + post2);
        lemma_read_text(pre2, t, post2);
        assert(res[p] == Seq::<char>::empty());
        let res2 = res.update(p, t);
        assert(res2 =~= texts.take(p + 1) + empty_texts((n - p - 1) as nat));
        vstd::utf8::is_ascii_chars_encode_utf8(t);
        assert(q + t.len() + 1 == pre.len() + nul_terminated(texts.take(p + 1)).len());
        lemma_str_stage_reads(pre, texts, post, p + 1);
    }
}

/// The bytes of a byte part read back whole, from any point on.
pub proof fn lemma_u8_stage_reads(pre: Seq<u8>, s: Seq<u8>, post: Seq<u8>, p: int, stage: ReadStages)
    requires
        0 <= p <= s.len(),
        forall|k: int| 0 <= k < s.len() ==> !u8_refused(stage, #[trigger] s[k]),
    ensures
        ({
            let buf = pre + s + post;
            u8_stage_run(pre.len() + p, buf.len() as int, buf, p, s.len() as int, s.take(p), stage) == (
                StageStop::Finished,
                (pre.len() + s.len()) as int,
                s.len() as int,
                s,
            )
        }),
    decreases s.len() - p,
{
    let buf = pre + s + post;
    if p == s.len() {
        assert(s.take(p) =~= s);
    } else {
        assert(buf[pre.len() + p] == s[p]);
        assert(s.take(p).push(s[p]) =~= s.take(p + 1));
        lemma_u8_stage_reads(pre, s, post, p + 1, stage);
    }
}


/// The paths bytes of two lists of names one after the other.
pub proof fn lemma_all_paths_bytes_concat(
    a: Seq<Seq<char>>,
    b: Seq<Seq<char>>,
    paths: Seq<(Seq<char>, Seq<Seq<char>>)>,
)
    ensures
        all_paths_bytes(a + b, paths) == all_paths_bytes(a, paths) + all_paths_bytes(b, paths),
    decreases b.len(),
{
    if b.len() == 0 {
        assert(a + b =~= a);
        assert(all_paths_bytes(a, paths) + all_paths_bytes(b, paths) =~= all_paths_bytes(a, paths));
    } else {
        lemma_all_paths_bytes_concat(a, b.drop_last(), paths);
        assert((a + b).drop_last() =~= a + b.drop_last());
        assert((a + b).last() == b.last());
        assert(all_paths_bytes(a + b, paths) =~= all_paths_bytes(a, paths) + all_paths_bytes(b, paths));
    }
}

/// The paths read so far: those of the columns before `c`, then empty
/// lists as long as each later column's files count.
pub open spec fn paths_read_up_to(
    names: Seq<Seq<char>>,
    paths: Seq<(Seq<char>, Seq<Seq<char>>)>,
    fc: Seq<u8>,
    c: int,
) -> Seq<Seq<Seq<char>>> {
    Seq::new(
        names.len(),
        |k: int|
            if k < c {
                paths_of(paths, names[k])
            } else {
                empty_texts(fc[k] as nat)
            },
    )
}

/// The paths of the columns, each list as long as the column's files
/// count, read back whole column after column.
pub proof fn lemma_paths_run_reads(
    pre: Seq<u8>,
    names: Seq<Seq<char>>,
    paths: Seq<(Seq<char>, Seq<Seq<char>>)>,
    fc: Seq<u8>,
    post: Seq<u8>,
    c: int,
)
    requires
        0 <= c < names.len(),
        fc.len() == names.len(),
        forall|k: int| 0 <= k < names.len() ==> fc[k] as int == (#[trigger] paths_of(paths, names[k])).len(),
        forall|k: int, x: int|
            0 <= k < names.len() && 0 <= x < paths_of(paths, names[k]).len() ==> storable_text(
                #[trigger] paths_of(paths, names[k])[x],
            ),
    ensures
        ({
            let buf = pre + all_paths_bytes(names, paths) + post;
            paths_run(
                (pre.len() + all_paths_bytes(names.take(c), paths).len()) as int,
                buf.len() as int,
                buf,
                c,
                names.len() as int,
                fc,
                0,
                paths_read_up_to(names, paths, fc, c),
            ) == (
                StageStop::Finished,
                (pre.len() + all_paths_bytes(names, paths).len()) as int,
                names.len() as int,
                0int,
                paths_read_up_to(names, paths, fc, names.len() as int),
            )
        }),
    decreases names.len() - c,
{
    let n = names.len() as int;
    let buf = pre + all_paths_bytes(names, paths) + post;
    let pc = paths_of(paths, names[c]);
    lemma_all_paths_bytes_concat(names.take(c + 1), names.skip(c + 1), paths);
    assert(names.take(c + 1) + names.skip(c + 1) =~= names);
    assert(names.take(c + 1).drop_last() =~= names.take(c));
    assert(all_paths_bytes(names.take(c + 1), paths) == all_paths_bytes(names.take(c), paths) + nul_terminated(pc));
    let pre2 = pre + all_paths_bytes(names.take(c), paths);
    let post2 = all_paths_bytes(names.skip(c + 1), paths) + post;
    assert(buf =~= pre2 + nul_terminated(pc) + post2);
    let st = paths_read_up_to(names, paths, fc, c);
    assert(pc.take(0) + empty_texts(pc.len()) =~= st[c]);
    assert(nul_terminated(pc.take(0)) =~= Seq::<u8>::empty()) by {
        assert(pc.take(0) =~= Seq::<Seq<char>>::empty());
    }
    assert forall|x: int| 0 <= x < pc.len() implies storable_text(#[trigger] pc[x]) by {
        assert(storable_text(paths_of(paths, names[c])[x]));
    }
    lemma_str_stage_reads(pre2, pc, post2, 0);
    let st2 = st.update(c, pc);
    assert(st2 =~= paths_read_up_to(names, paths, fc, c + 1));
    if c + 1 < n {
        lemma_paths_run_reads(pre, names, paths, fc, post, c + 1);
    } else {
        assert(names.skip(c + 1) =~= Seq::<Seq<char>>::empty());
        assert(all_paths_bytes(names.skip(c + 1), paths) =~= Seq::<u8>::empty());
        assert(names.take(c + 1) =~= names);
    }
}

/// Law: metadata saved as [`metadata_file_bytes`] and read back (the whole
/// file in one chunk, then the end of the file) is accepted and gives the
/// same columns: the same number, files counts, types and names, each
/// column with its own paths, in the order of the names. It holds of
/// metadata that [`metadata_ok`] accepts, whose names and paths can be
/// stored ([`storable_text`]) and whose files counts are the numbers of
/// paths.
#[verifier::spinoff_prover]
#[verifier::rlimit(50)]
pub proof fn law_metadata_file_reads_back(m: DbMetadata)
    requires
        m.wf(),
        m@.magic_word == MAGIC_WORD,
        metadata_ok(m@.col_count as nat, m@.col_files_count, m@.col_types, m@.col_names, m@.col_files_paths),
        forall|i: int| 0 <= i < m@.col_count ==> storable_text(#[trigger] m@.col_names[i]),
        forall|i: int, x: int|
            0 <= i < m@.col_count && 0 <= x < paths_of(m@.col_files_paths, m@.col_names[i]).len() ==> storable_text(
                #[trigger] paths_of(m@.col_files_paths, m@.col_names[i])[x],
            ),
        forall|i: int|
            0 <= i < m@.col_count ==> m@.col_files_count[i] as int == (#[trigger] paths_of(
                m@.col_files_paths,
                m@.col_names[i],
            )).len(),
    ensures
        ({
            let v = m@;
            let b = metadata_file_bytes(v);
            let (k1, r1) = feed_spec(reader_start(), b.len() as int, b);
            let (k2, r2) = feed_spec(r1, 0, Seq::empty());
            let done = if v.col_count == 0 {
                r1
            } else {
                r2
            };
            &&& v.col_count == 0 ==> k1 is Complete
            &&& v.col_count > 0 ==> k1 is NeedMore && reader_ok(r1) && k2 is Complete
            &&& reader_result_ok(done)
            &&& done.col_count == v.col_count
            &&& done.files_count == v.col_files_count
            &&& done.types == v.col_types
            &&& done.names == v.col_names
            &&& zip_paths(done.names, done.paths) == Seq::new(
                v.col_count as nat,
                |i: int| (v.col_names[i], paths_of(v.col_files_paths, v.col_names[i])),
            )
        }),
{
    let v = m@;
    let n = v.col_count as int;
    let fc = v.col_files_count;
    let ty = v.col_types;
    let names = v.col_names;
    let paths = v.col_files_paths;
    let b = metadata_file_bytes(v);
    let h = u32_be_bytes(v.magic_word) + u16_be_bytes(v.col_count);
    let nt = nul_terminated(names);
    let ap = all_paths_bytes(names, paths);
    assert(b =~= h + fc + ty + nt + ap);
    lemma_be_roundtrip(Seq::empty(), v.magic_word, 0, u16_be_bytes(v.col_count) + fc + ty + nt + ap);
    assert(b =~= Seq::<u8>::empty() + u32_be_bytes(v.magic_word) + (u16_be_bytes(v.col_count) + fc + ty + nt + ap));
    lemma_be_roundtrip(u32_be_bytes(v.magic_word), 0, v.col_count, fc + ty + nt + ap);
    assert(b =~= u32_be_bytes(v.magic_word) + u16_be_bytes(v.col_count) + (fc + ty + nt + ap));
    assert(h.len() == 6);
    let end = b.len() as int;
    let st = reader_start();
    if n == 0 {
        assert(fc.len() == 0 && ty.len() == 0 && names.len() == 0 && paths.len() == 0);
        assert(names =~= Seq::<Seq<char>>::empty());
        assert(nt =~= Seq::<u8>::empty());
        assert(ap =~= Seq::<u8>::empty());
        assert(b.len() == 6);
        let (k1, r1) = feed_spec(st, end, b);
        assert(k1 is Complete);
        assert(r1.names =~= names);
        assert(r1.files_count =~= fc);
        assert(r1.types =~= ty);
        assert(zip_paths(r1.names, r1.paths) =~= Seq::new(
            0,
            |i: int| (v.col_names[i], paths_of(v.col_files_paths, v.col_names[i])),
        ));
        assert(metadata_ok(0, r1.files_count, r1.types, r1.names, zip_paths(r1.names, r1.paths)));
    } else {
        assert(b.len() > 6);
        let names0 = Seq::<Seq<char>>::empty() + Seq::new(v.col_count as nat, |i: int| Seq::<char>::empty());
        let p0 = feed_check(st, end);
        assert(p0 == (None::<FeedEnd>, st, 0int));
        let v1 = ReaderView {
            magic_word: MAGIC_WORD,
            col_count: v.col_count,
            stage: ReadStages::FilesCountStage,
            names: names0,
            ..st
        };
        let p1 = feed_init(p0, end, b);
        assert(p1 == (None::<FeedEnd>, v1, 6int));
        // files counts
        let v2 = ReaderView { files_count: fc, stage: ReadStages::ColTypesStage, progress: 0, ..v1 };
        let p2 = feed_u8(p1, end, b, ReadStages::FilesCountStage);
        assert(p2 == (None::<FeedEnd>, v2, 6 + n)) by {
            assert forall|k: int| 0 <= k < fc.len() implies !u8_refused(ReadStages::FilesCountStage, #[trigger] fc[k]) by {}
            lemma_u8_stage_reads(h, fc, ty + nt + ap, 0, ReadStages::FilesCountStage);
            assert(fc.take(0) =~= Seq::<u8>::empty());
            assert(b =~= h + fc + (ty + nt + ap));
        }
        // types
        let v3 = ReaderView { types: ty, stage: ReadStages::ColNameStage, progress: 0, ..v2 };
        let p3 = feed_u8(p2, end, b, ReadStages::ColTypesStage);
        assert(p3 == (None::<FeedEnd>, v3, 6 + 2 * n)) by {
            assert forall|k: int| 0 <= k < ty.len() implies !u8_refused(ReadStages::ColTypesStage, #[trigger] ty[k]) by {}
            lemma_u8_stage_reads(h + fc, ty, nt + ap, 0, ReadStages::ColTypesStage);
            assert(ty.take(0) =~= Seq::<u8>::empty());
            assert(b =~= (h + fc) + ty + (nt + ap));
        }
        // names
        let i4 = 6 + 2 * n + nt.len();
        let v4 = ReaderView {
            names,
            stage: ReadStages::FilePathStage,
            progress: 0,
            paths: Seq::<Seq<Seq<char>>>::empty() + empty_paths(fc, names0.len()),
            col: 0,
            ..v3
        };
        let p4 = feed_names(p3, end, b);
        assert(p4 == (None::<FeedEnd>, v4, i4)) by {
            assert forall|k: int| 0 <= k < names.len() implies storable_text(#[trigger] names[k]) by {}
            lemma_str_stage_reads(h + fc + ty, names, ap, 0);
            assert(names.take(0) + empty_texts(names.len()) =~= names0);
            assert(nul_terminated(names.take(0)) =~= Seq::<u8>::empty()) by {
                assert(names.take(0) =~= Seq::<Seq<char>>::empty());
            }
            assert(b =~= (h + fc + ty) + nt + ap);
        }
        // paths
        let read_all = paths_read_up_to(names, paths, fc, n);
        let v5 = ReaderView { stage: ReadStages::EndedReading, col: n, progress: 0, paths: read_all, ..v4 };
        let p5 = feed_paths(p4, end, b);
        assert(p5 == (Some(FeedEnd::NeedMore), v5, end)) by {
            let pre4 = h + fc + ty + nt;
            assert forall|k: int| 0 <= k < names.len() implies fc[k] as int == (#[trigger] paths_of(paths, names[k])).len() by {}
            assert forall|k: int, x: int|
                0 <= k < names.len() && 0 <= x < paths_of(paths, names[k]).len() implies storable_text(
                    #[trigger] paths_of(paths, names[k])[x],
                ) by {}
            lemma_paths_run_reads(pre4, names, paths, fc, Seq::empty(), 0);
            assert(b =~= pre4 + ap + Seq::<u8>::empty());
            assert(all_paths_bytes(names.take(0), paths) =~= Seq::<u8>::empty()) by {
                assert(names.take(0) =~= Seq::<Seq<char>>::empty());
            }
            assert(paths_read_up_to(names, paths, fc, 0) =~= v4.paths);
        }
        assert(feed_spec(st, end, b) == (FeedEnd::NeedMore, v5));
        assert(feed_spec(v5, 0, Seq::empty()) == (FeedEnd::Complete, v5));
        let z = zip_paths(names, read_all);
        assert(z =~= Seq::new(
            v.col_count as nat,
            |i: int| (v.col_names[i], paths_of(v.col_files_paths, v.col_names[i])),
        ));
        // the metadata read is accepted
        assert forall|i: int| 0 <= i < n implies has_key(z, #[trigger] names[i]) by {
            assert(z[i].0 == names[i]);
        }
        assert forall|j: int| 0 <= j < n implies (#[trigger] z[j]).1.len() > 0 by {
            assert(fc[j] > 0);
        }
        assert forall|j: int, x: int| 0 <= j < n && 0 <= x < z[j].1.len() implies ffp_path_shape(#[trigger] z[j].1[x]) by {
            assert(has_key(paths, names[j]));
            let kk = choose|kk: int| 0 <= kk < paths.len() && #[trigger] paths[kk].0 == names[j];
            assert(z[j].1 == paths[kk].1);
            assert(ffp_path_shape(paths[kk].1[x]));
        }
        assert(metadata_ok(n as nat, fc, ty, names, z));
    }
}
} // verus!
