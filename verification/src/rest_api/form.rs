//! The form style of query parameters: values and keys separated by commas.
use vstd::prelude::*;
use crate::external::std_text::string_push;
use crate::db::storage::text::{parse_i64, parse_i64_spec};
use crate::schemas::query::string_seq_view;
use vstd::std_specs::iter::IteratorSpec;

verus! {

/// The pieces of `s` between commas, in order (one piece for text without
/// a comma, the empty one for empty text).
pub open spec fn split_on_comma(s: Seq<char>) -> Seq<Seq<char>>
    decreases s.len(),
{
    if s.len() == 0 {
        seq![Seq::<char>::empty()]
    } else {
        let p = split_on_comma(s.drop_last());
        if s.last() == ',' {
            p.push(Seq::<char>::empty())
        } else {
            p.update(p.len() - 1, p.last().push(s.last()))
        }
    }
}

proof fn lemma_split_nonempty(s: Seq<char>)
    ensures
        split_on_comma(s).len() >= 1,
    decreases s.len(),
{
    if s.len() > 0 {
        lemma_split_nonempty(s.drop_last());
    }
}

/// The pieces of `s` between commas (`str::split(',')`).
pub fn split_commas(s: &str) -> (r: Vec<String>)
    ensures
        string_seq_view(r@) == split_on_comma(s@),
{
    broadcast use vstd::string::axiom_spec_iter, vstd::string::next_postcondition;

    let mut chars = s.chars();
    let mut toks: Vec<String> = Vec::new();
    let mut cur = String::new();
    let ghost mut k: int = 0;
    proof {
        assert(s@.skip(0) =~= s@);
        assert(s@.take(0) =~= Seq::<char>::empty());
        assert(string_seq_view(toks@).push(cur@) =~= seq![Seq::<char>::empty()]);
    }
    loop
        invariant
            chars.remaining() == s@.skip(k),
            chars.obeys_prophetic_iter_laws(),
            0 <= k <= s@.len(),
            string_seq_view(toks@).push(cur@) == split_on_comma(s@.take(k)),
        ensures
            k == s@.len(),
            string_seq_view(toks@).push(cur@) == split_on_comma(s@.take(k)),
        decreases s@.len() - k,
    {
        let ghost before = string_seq_view(toks@).push(cur@);
        match chars.next() {
            None => {
                proof {
                    assert(s@.skip(k).len() == 0);
                }
                break;
            },
            Some(c) => {
                proof {
                    assert(c == s@[k]);
                    assert(s@.take(k + 1).drop_last() =~= s@.take(k));
                    assert(s@.take(k + 1).last() == c);
                    lemma_split_nonempty(s@.take(k));
                }
                if c == ',' {
                    toks.push(cur);
                    cur = String::new();
                    proof {
                        assert(string_seq_view(toks@).push(cur@) =~= before.push(Seq::<char>::empty()));
                    }
                } else {
                    string_push(&mut cur, c);
                    proof {
                        assert(string_seq_view(toks@).push(cur@) =~= before.update(before.len() - 1, before.last().push(c)));
                    }
                }
                proof {
                    assert(s@.skip(k).drop_first() =~= s@.skip(k + 1));
                    k = k + 1;
                }
            },
        }
    }
    toks.push(cur);
    proof {
        assert(s@.take(k) =~= s@);
    }
    toks
}


/// Keys and values of form text: the pieces in pairs, where their number is
/// even.
pub open spec fn form_pairs_of(toks: Seq<Seq<char>>) -> Seq<(Seq<char>, Seq<char>)> {
    Seq::new(toks.len() / 2, |i: int| (toks[2 * i], toks[2 * i + 1]))
}

/// The pairs of form text, or `None` where a key lacks its value.
#[verifier::opaque]
pub open spec fn form_pairs(s: Seq<char>) -> Option<Seq<(Seq<char>, Seq<char>)>> {
    let toks = split_on_comma(s);
    if toks.len() % 2 == 0 {
        Some(form_pairs_of(toks))
    } else {
        None
    }
}

/// Every key is one of `allowed`.
#[verifier::opaque]
pub open spec fn keys_within(p: Seq<(Seq<char>, Seq<char>)>, allowed: Seq<Seq<char>>) -> bool {
    forall|i: int| 0 <= i < p.len() ==> allowed.contains(#[trigger] p[i].0)
}

/// The value of the first pair with `key`, if any.
pub open spec fn first_with_key(p: Seq<(Seq<char>, Seq<char>)>, key: Seq<char>) -> Option<Seq<char>>
    decreases p.len(),
{
    if p.len() == 0 {
        None
    } else if p[0].0 == key {
        Some(p[0].1)
    } else {
        first_with_key(p.drop_first(), key)
    }
}

/// The kinds of values form text holds.
#[derive(Clone, Copy)]
pub enum FormValue {
    /// Any text.
    Text,
    /// `true` or `false`.
    Flag,
    /// A 32-bit integer.
    Int32,
    /// `INT64` or `VARCHAR`.
    ColumnType,
    /// A query status.
    Status,
}

/// `bool::from_str`: `true` or `false`.
pub open spec fn flag_of(v: Seq<char>) -> Option<bool> {
    if v == "true"@ {
        Some(true)
    } else if v == "false"@ {
        Some(false)
    } else {
        None
    }
}

/// `i32::from_str`: an integer in range.
#[verifier::opaque]
pub open spec fn int32_of(v: Seq<char>) -> Option<i32> {
    match parse_i64_spec(v) {
        Some(x) => if i32::MIN <= x <= i32::MAX {
            Some(x as i32)
        } else {
            None
        },
        None => None,
    }
}

/// The status names.
pub open spec fn status_names() -> Seq<Seq<char>> {
    seq!["CREATED"@, "PLANNING"@, "RUNNING"@, "COMPLETED"@, "FAILED"@]
}

/// Whether text is a value of the kind.
pub open spec fn form_value_ok(k: FormValue, v: Seq<char>) -> bool {
    match k {
        FormValue::Text => true,
        FormValue::Flag => flag_of(v) is Some,
        FormValue::Int32 => int32_of(v) is Some,
        FormValue::ColumnType => v == "INT64"@ || v == "VARCHAR"@,
        FormValue::Status => status_names().contains(v),
    }
}

/// Every value under `key` is of the kind.
#[verifier::opaque]
pub open spec fn values_ok(p: Seq<(Seq<char>, Seq<char>)>, key: Seq<char>, k: FormValue) -> bool {
    forall|i: int| 0 <= i < p.len() && #[trigger] p[i].0 == key ==> form_value_ok(k, p[i].1)
}

/// Splits form text into its pieces; `None` where a key lacks its value.
pub fn form_tokens(s: &str) -> (r: Option<Vec<String>>)
    ensures
        r is Some <==> form_pairs(s@) is Some,
        r matches Some(t) ==> string_seq_view(t@) == split_on_comma(s@) && t@.len() % 2 == 0 && form_pairs(s@) == Some(
            form_pairs_of(string_seq_view(t@)),
        ),
{
    reveal(form_pairs);
    let t = split_commas(s);
    if t.len() % 2 != 0 {
        return None;
    }
    Some(t)
}

/// `bool::from_str`.
pub fn parse_flag(v: &str) -> (r: Option<bool>)
    ensures
        r == flag_of(v@),
{
    let t = "true".to_owned();
    let f = "false".to_owned();
    let vs = v.to_owned();
    if vs == t {
        Some(true)
    } else if vs == f {
        Some(false)
    } else {
        None
    }
}

/// `i32::from_str`.
pub fn parse_int32(v: &str) -> (r: Option<i32>)
    ensures
        r == int32_of(v@),
{
    reveal(int32_of);
    match parse_i64(v) {
        Some(x) => if -2147483648i64 <= x && x <= 2147483647i64 {
            Some(x as i32)
        } else {
            None
        },
        None => None,
    }
}

pub(crate) fn text_is(v: &String, lit: &str) -> (r: bool)
    ensures
        r <==> v@ == lit@,
{
    let l = lit.to_owned();
    *v == l
}

/// Whether text is a value of the kind.
pub fn value_ok(k: FormValue, v: &String) -> (r: bool)
    ensures
        r == form_value_ok(k, v@),
{
    match k {
        FormValue::Text => true,
        FormValue::Flag => parse_flag(v.as_str()).is_some(),
        FormValue::Int32 => parse_int32(v.as_str()).is_some(),
        FormValue::ColumnType => text_is(v, "INT64") || text_is(v, "VARCHAR"),
        FormValue::Status => {
            let r = text_is(v, "CREATED") || text_is(v, "PLANNING") || text_is(v, "RUNNING") || text_is(
                v,
                "COMPLETED",
            ) || text_is(v, "FAILED");
            proof {
                let sn = status_names();
                if r {
                    if v@ == "CREATED"@ { assert(sn[0] == v@); }
                    if v@ == "PLANNING"@ { assert(sn[1] == v@); }
                    if v@ == "RUNNING"@ { assert(sn[2] == v@); }
                    if v@ == "COMPLETED"@ { assert(sn[3] == v@); }
                    if v@ == "FAILED"@ { assert(sn[4] == v@); }
                } else {
                    assert forall|i: int| 0 <= i < sn.len() implies sn[i] != v@ by {}
                }
            }
            r
        },
    }
}

/// Whether every key of the pieces is one of `allowed`.
pub fn keys_allowed(toks: &Vec<String>, allowed: &Vec<&str>) -> (r: bool)
    requires
        toks@.len() % 2 == 0,
    ensures
        r == keys_within(
            form_pairs_of(string_seq_view(toks@)),
            allowed@.map_values(|a: &str| a@),
        ),
{
    reveal(keys_within);
    let ghost p = form_pairs_of(string_seq_view(toks@));
    let ghost al = allowed@.map_values(|a: &str| a@);
    let mut i: usize = 0;
    while i < toks.len() / 2
        invariant
            toks@.len() % 2 == 0,
            p == form_pairs_of(string_seq_view(toks@)),
            al == allowed@.map_values(|a: &str| a@),
            i <= toks@.len() / 2,
            forall|j: int| 0 <= j < i ==> al.contains(#[trigger] p[j].0),
        decreases toks@.len() / 2 - i,
    {
        proof {
            reveal(keys_within);
        }
        let key = &toks[2 * i];
        assert(p[i as int].0 == key@);
        let mut found = false;
        let mut a: usize = 0;
        while a < allowed.len()
            invariant
                al == allowed@.map_values(|a: &str| a@),
                a <= allowed@.len(),
                found ==> al.contains(key@),
                !found ==> forall|b: int| 0 <= b < a ==> al[b] != key@,
            decreases allowed@.len() - a,
        {
            if text_is(key, allowed[a]) {
                assert(al[a as int] == key@);
                found = true;
            }
            a = a + 1;
        }
        if !found {
            return false;
        }
        i = i + 1;
    }
    true
}

/// Whether every value under `key` is of the kind.
pub fn values_of_key_ok(toks: &Vec<String>, key: &str, k: FormValue) -> (r: bool)
    requires
        toks@.len() % 2 == 0,
    ensures
        r == values_ok(form_pairs_of(string_seq_view(toks@)), key@, k),
{
    reveal(values_ok);
    let ghost p = form_pairs_of(string_seq_view(toks@));
    let mut i: usize = 0;
    while i < toks.len() / 2
        invariant
            toks@.len() % 2 == 0,
            p == form_pairs_of(string_seq_view(toks@)),
            i <= toks@.len() / 2,
            forall|j: int| 0 <= j < i && #[trigger] p[j].0 == key@ ==> form_value_ok(k, p[j].1),
        decreases toks@.len() / 2 - i,
    {
        proof {
            reveal(values_ok);
        }
        assert(p[i as int] == (toks@[2 * i as int]@, toks@[2 * i + 1]@));
        if text_is(&toks[2 * i], key) && !value_ok(k, &toks[2 * i + 1]) {
            assert(p[i as int].0 == key@ && !form_value_ok(k, p[i as int].1));
            return false;
        }
        i = i + 1;
    }
    true
}

/// The value of the first pair with `key`, if any.
pub fn first_value(toks: &Vec<String>, key: &str) -> (r: Option<String>)
    requires
        toks@.len() % 2 == 0,
    ensures
        r is Some <==> first_with_key(form_pairs_of(string_seq_view(toks@)), key@) is Some,
        r matches Some(v) ==> v@ == first_with_key(form_pairs_of(string_seq_view(toks@)), key@)->0,
{
    let ghost p = form_pairs_of(string_seq_view(toks@));
    let mut i: usize = 0;
    proof {
        assert(p.skip(0) =~= p);
    }
    while i < toks.len() / 2
        invariant
            toks@.len() % 2 == 0,
            p == form_pairs_of(string_seq_view(toks@)),
            i <= toks@.len() / 2,
            first_with_key(p.skip(i as int), key@) == first_with_key(p, key@),
        decreases toks@.len() / 2 - i,
    {
        assert(p[i as int] == (toks@[2 * i as int]@, toks@[2 * i + 1]@));
        assert(p.skip(i as int)[0] == p[i as int]);
        assert(p.skip(i as int).drop_first() =~= p.skip(i + 1));
        if text_is(&toks[2 * i], key) {
            return Some(toks[2 * i + 1].clone());
        }
        i = i + 1;
    }
    assert(p.skip(i as int).len() == 0);
    None
}

/// The first value under a key is of the kind where every value under it is.
pub proof fn lemma_first_value_ok(p: Seq<(Seq<char>, Seq<char>)>, key: Seq<char>, k: FormValue)
    requires
        values_ok(p, key, k),
        first_with_key(p, key) is Some,
    ensures
        form_value_ok(k, first_with_key(p, key)->0),
    decreases p.len(),
{
    reveal(values_ok);
    if p[0].0 == key {
        assert(form_value_ok(k, p[0].1));
    } else {
        assert forall|i: int| 0 <= i < p.drop_first().len() && #[trigger] p.drop_first()[i].0 == key implies form_value_ok(
            k,
            p.drop_first()[i].1,
        ) by {
            assert(p.drop_first()[i] == p[i + 1]);
        }
        lemma_first_value_ok(p.drop_first(), key, k);
    }
}
} // verus!
