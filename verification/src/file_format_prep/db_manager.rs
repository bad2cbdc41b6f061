//! Filling a database of the first format from a CSV: what is decided
//! before any file is written.
use vstd::prelude::*;
use crate::db::storage::text::{parse_i64, parse_i64_spec};
use crate::file_format_prep::constants::{BATCH_SIZE, MAGIC_WORD};
use crate::file_format_prep::metadata_structs::{first_file_paths, metadata_ok, DbMetadata, FfpMetadataView};
use crate::schemas::query::string_seq_view;

verus! {

/// The values of a CSV column read as `i64` (see [`parse_i64_spec`]);
/// `None` where one of them is not an `i64`.
pub open spec fn parsed_ints(col: Seq<Seq<char>>) -> Option<Seq<i64>>
    decreases col.len(),
{
    if col.len() == 0 {
        Some(Seq::empty())
    } else {
        match (parsed_ints(col.drop_last()), parse_i64_spec(col.last())) {
            (Some(v), Some(x)) => Some(v.push(x)),
            _ => None,
        }
    }
}

/// The values `v` in batches of [`BATCH_SIZE`], in order; the last batch
/// holds what is left.
pub open spec fn batches_of(v: Seq<i64>) -> Seq<Seq<i64>> {
    Seq::new(
        ((v.len() + 9) / 10) as nat,
        |j: int| v.subrange(10 * j, if 10 * j + 10 <= v.len() { 10 * j + 10 } else { v.len() as int }),
    )
}

/// The integer columns among the first CSV columns `cols` (type byte 0),
/// each with its name and its values in batches; `None` where a value of
/// such a column is not an `i64`. Other columns are left out.
pub open spec fn int_columns_plan(types: Seq<u8>, names: Seq<Seq<char>>, cols: Seq<Seq<Seq<char>>>) -> Option<
    Seq<(Seq<char>, Seq<Seq<i64>>)>,
>
    decreases cols.len(),
{
    if cols.len() == 0 {
        Some(Seq::empty())
    } else {
        match int_columns_plan(types, names, cols.drop_last()) {
            None => None,
            Some(p) => {
                let i = cols.len() - 1;
                if types[i] == 0 {
                    match parsed_ints(cols.last()) {
                        None => None,
                        Some(v) => Some(p.push((names[i], batches_of(v)))),
                    }
                } else {
                    Some(p)
                }
            },
        }
    }
}

/// The views of integer columns with their batches.
pub open spec fn plan_view(p: Seq<(String, Vec<Vec<i64>>)>) -> Seq<(Seq<char>, Seq<Seq<i64>>)> {
    p.map_values(|e: (String, Vec<Vec<i64>>)| (e.0@, e.1@.map_values(|b: Vec<i64>| b@)))
}

/// Parses the values of a CSV column as `i64`.
pub fn parse_int_column(col: &Vec<String>) -> (r: Result<Vec<i64>, String>)
    ensures
        r is Ok <==> parsed_ints(string_seq_view(col@)) is Some,
        r matches Ok(v) ==> Some(v@) == parsed_ints(string_seq_view(col@)),
{
    let ghost cv = string_seq_view(col@);
    let mut out: Vec<i64> = Vec::new();
    let mut i: usize = 0;
    proof {
        assert(cv.take(0) =~= Seq::<Seq<char>>::empty());
    }
    while i < col.len()
        invariant
            cv == string_seq_view(col@),
            i <= col@.len(),
            parsed_ints(cv.take(i as int)) == Some(out@),
        decreases col@.len() - i,
    {
        proof {
            assert(cv.take(i + 1).drop_last() =~= cv.take(i as int));
            assert(cv.take(i + 1).last() == col@[i as int]@);
        }
        match parse_i64(col[i].as_str()) {
            Some(x) => {
                out.push(x);
            },
            None => {
                proof {
                    lemma_parsed_ints_stays_none(cv.take(i + 1), cv);
                    assert(cv.take(col@.len() as int) =~= cv);
                }
                return Err("Failed to parse a value as i64".to_owned());
            },
        }
        i = i + 1;
    }
    proof {
        assert(cv.take(col@.len() as int) =~= cv);
    }
    Ok(out)
}

/// A column that fails to parse in its first values fails whole.
proof fn lemma_parsed_ints_stays_none(a: Seq<Seq<char>>, b: Seq<Seq<char>>)
    requires
        parsed_ints(a) is None,
        a.len() <= b.len(),
        a =~= b.take(a.len() as int),
    ensures
        parsed_ints(b) is None,
    decreases b.len(),
{
    if b.len() > a.len() {
        assert(b.drop_last().take(a.len() as int) =~= a);
        lemma_parsed_ints_stays_none(a, b.drop_last());
    } else {
        assert(a =~= b);
    }
}

/// The values `v` in batches of [`BATCH_SIZE`] (see [`batches_of`]).
pub fn chunk_into_batches(v: &Vec<i64>) -> (r: Vec<Vec<i64>>)
    ensures
        r@.map_values(|b: Vec<i64>| b@) == batches_of(v@),
{
    let mut out: Vec<Vec<i64>> = Vec::new();
    let n = v.len();
    let nb: usize = n / 10 + if n % 10 != 0 { 1 } else { 0 };
    assert(nb == (v@.len() + 9) / 10);
    while out.len() < nb
        invariant
            n == v@.len(),
            nb == (v@.len() + 9) / 10,
            BATCH_SIZE == 10,
            out@.len() <= nb,
            forall|j: int| 0 <= j < out@.len() ==> #[trigger] out@[j]@ == batches_of(v@)[j],
        decreases nb - out@.len(),
    {
        let ghost j = out@.len() as int;
        let start: usize = 10 * out.len();
        let end: usize = if n - start >= BATCH_SIZE { start + BATCH_SIZE } else { n };
        let mut b: Vec<i64> = Vec::new();
        let mut k: usize = start;
        while k < end
            invariant
                start <= k <= end,
                end <= v@.len(),
                b@ == v@.subrange(start as int, k as int),
            decreases end - k,
        {
            b.push(v[k]);
            proof {
                assert(v@.subrange(start as int, k + 1) =~= v@.subrange(start as int, k as int).push(v@[k as int]));
            }
            k = k + 1;
        }
        out.push(b);
        proof {
            assert(out@[j]@ == batches_of(v@)[j]);
        }
    }
    proof {
        assert(out@.map_values(|b: Vec<i64>| b@) =~= batches_of(v@));
    }
    out
}

/// What filling a database from a CSV decides before writing: a delimiter
/// other than `,` or a tab is refused; then the metadata of the columns
/// (see [`DbMetadata::new`]); then, for each integer column, its values
/// parsed and put in batches (see [`int_columns_plan`]). A refused
/// metadata or a value that is not an `i64` is an error.
pub fn plan_init_from_csv(types: Vec<u8>, names: Vec<String>, cols: &Vec<Vec<String>>, delim: u8) -> (r: Result<
    (DbMetadata, Vec<(String, Vec<Vec<i64>>)>),
    String,
>)
    requires
        cols@.len() <= names@.len(),
        cols@.len() <= types@.len(),
    ensures
        delim != 44 && delim != 9 ==> (r matches Err(m) && m@ == "We support either csv or tsv"@),
        ({
            let tv = types@;
            let nv = string_seq_view(names@);
            let meta_ok = tv.len() == nv.len() && nv.len() <= u16::MAX && metadata_ok(
                nv.len(),
                Seq::new(nv.len(), |i: int| 1u8),
                tv,
                nv,
                first_file_paths(nv),
            );
            let plan = int_columns_plan(tv, nv, cols@.map_values(|c: Vec<String>| string_seq_view(c@)));
            (delim == 44 || delim == 9) ==> {
                &&& r is Ok <==> meta_ok && plan is Some
                &&& r matches Ok((m, p)) ==> m.wf() && m@ == (FfpMetadataView {
                    magic_word: MAGIC_WORD,
                    col_count: nv.len() as u16,
                    col_files_count: Seq::new(nv.len(), |i: int| 1u8),
                    col_types: tv,
                    col_names: nv,
                    col_files_paths: first_file_paths(nv),
                }) && Some(plan_view(p@)) == plan
            }
        }),
{
    if delim != 44u8 && delim != 9u8 {
        return Err("We support either csv or tsv".to_owned());
    }
    let ghost tv = types@;
    let ghost nv = string_seq_view(names@);
    let ghost cv = cols@.map_values(|c: Vec<String>| string_seq_view(c@));
    let mut out: Vec<(String, Vec<Vec<i64>>)> = Vec::new();
    let mut idx: usize = 0;
    proof {
        assert(cv.take(0) =~= Seq::<Seq<Seq<char>>>::empty());
        assert(plan_view(out@) =~= Seq::<(Seq<char>, Seq<Seq<i64>>)>::empty());
    }
    while idx < cols.len()
        invariant
            delim == 44 || delim == 9,
            cols@.len() <= names@.len(),
            cols@.len() <= types@.len(),
            tv == types@,
            nv == string_seq_view(names@),
            cv == cols@.map_values(|c: Vec<String>| string_seq_view(c@)),
            idx <= cols@.len(),
            int_columns_plan(tv, nv, cv.take(idx as int)) == Some(plan_view(out@)),
        decreases cols@.len() - idx,
    {
        proof {
            assert(cv.take(idx + 1).drop_last() =~= cv.take(idx as int));
            assert(cv.take(idx + 1).last() == string_seq_view(cols@[idx as int]@));
        }
        if types[idx] == 0 {
            match parse_int_column(&cols[idx]) {
                Ok(v) => {
                    let batches = chunk_into_batches(&v);
                    let ghost before = out@;
                    out.push((names[idx].clone(), batches));
                    proof {
                        assert(nv[idx as int] == names@[idx as int]@);
                        assert(plan_view(out@) =~= plan_view(before).push((nv[idx as int], batches_of(v@))));
                    }
                },
                Err(_) => {
                    proof {
                        lemma_plan_stays_none(tv, nv, cv.take(idx + 1), cv);
                        assert(cv.take(cols@.len() as int) =~= cv);
                    }
                    return Err("Failed to parse a value as i64".to_owned());
                },
            }
        }
        idx = idx + 1;
    }
    proof {
        assert(cv.take(cols@.len() as int) =~= cv);
    }
    let metadata = match DbMetadata::new(types, names) {
        Ok(m) => m,
        Err(_) => {
            return Err("init_from_csv - metadata::new - the columns are refused".to_owned());
        },
    };
    Ok((metadata, out))
}

/// A plan that fails for the first columns fails for all.
proof fn lemma_plan_stays_none(types: Seq<u8>, names: Seq<Seq<char>>, a: Seq<Seq<Seq<char>>>, b: Seq<Seq<Seq<char>>>)
    requires
        int_columns_plan(types, names, a) is None,
        a.len() <= b.len(),
        a =~= b.take(a.len() as int),
    ensures
        int_columns_plan(types, names, b) is None,
    decreases b.len(),
{
    if b.len() > a.len() {
        assert(b.drop_last().take(a.len() as int) =~= a);
        lemma_plan_stays_none(types, names, a, b.drop_last());
    } else {
        assert(a =~= b);
    }
}

} // verus!
