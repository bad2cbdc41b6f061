//! Small text helpers shared by the storage modules.
use vstd::prelude::*;
use vstd::utf8::{encode_utf8, encode_scalar, is_ascii_chars};
use crate::external::std_text::string_push;

verus! {

/// Number of bytes of the UTF-8 encoding of `s` (what `str::len` returns).
pub open spec fn byte_len(s: Seq<char>) -> nat {
    encode_utf8(s).len()
}

/// Number of bytes of `s` (`str::len`, read through the byte slice so that
/// the count is exact).
pub fn str_byte_len(s: &str) -> (r: usize)
    ensures
        r as nat == byte_len(s@),
{
    s.as_bytes().len()
}

/// UTF-8 encoding distributes over concatenation.
pub proof fn lemma_encode_utf8_concat(a: Seq<char>, b: Seq<char>)
    ensures
        encode_utf8(a + b) == encode_utf8(a) + encode_utf8(b),
    decreases a.len(),
{
    if a.len() > 0 {
        lemma_encode_utf8_concat(a.drop_first(), b);
        assert((a + b).drop_first() =~= a.drop_first() + b);
        assert((a + b)[0] == a[0]);
        assert(encode_scalar(a[0] as u32) + (encode_utf8(a.drop_first()) + encode_utf8(b))
            =~= (encode_scalar(a[0] as u32) + encode_utf8(a.drop_first())) + encode_utf8(b));
    } else {
        assert(a + b =~= b);
        assert(encode_utf8(a) =~= Seq::<u8>::empty());
    }
}

/// Appending an ASCII character adds one byte.
pub proof fn lemma_byte_len_push_ascii(s: Seq<char>, c: char)
    requires
        (c as u32) < 128,
    ensures
        byte_len(s.push(c)) == byte_len(s) + 1,
{
    lemma_encode_utf8_concat(s, seq![c]);
    assert(s.push(c) =~= s + seq![c]);
    assert(seq![c].drop_first() =~= Seq::<char>::empty());
    assert(encode_utf8(seq![c]) == encode_scalar(c as u32) + encode_utf8(Seq::<char>::empty()));
}

/// The character of a decimal digit.
pub open spec fn digit_char(d: nat) -> char {
    ((d % 10) + 48) as char
}

/// The decimal notation of `n`, without sign or leading zeros.
pub open spec fn decimal_text(n: nat) -> Seq<char>
    decreases n,
{
    if n < 10 {
        seq![digit_char(n)]
    } else {
        decimal_text(n / 10).push(digit_char(n % 10))
    }
}

/// Appends the decimal notation of `n` to `out`.
pub fn push_decimal(out: &mut String, n: usize)
    ensures
        final(out)@ == old(out)@ + decimal_text(n as nat),
    decreases n,
{
    if n >= 10 {
        push_decimal(out, n / 10);
    }
    let d: u8 = (n % 10) as u8;
    let c: char = (d + 48) as char;
    assert(c == digit_char(n as nat));
    let ghost before = out@;
    string_push(out, c);
    proof {
        if n >= 10 {
            assert(decimal_text(n as nat) == decimal_text((n / 10) as nat).push(digit_char((n % 10) as nat)));
            assert(digit_char((n % 10) as nat) == digit_char(n as nat));
            assert(old(out)@ + decimal_text(n as nat) =~= before.push(c));
        } else {
            assert(old(out)@ + decimal_text(n as nat) =~= before.push(c));
        }
    }
}

} // verus!

verus! {

/// The value of a sequence of decimal digits.
pub open spec fn digits_value(s: Seq<char>) -> int
    decreases s.len(),
{
    if s.len() == 0 {
        0
    } else {
        digits_value(s.drop_last()) * 10 + (s.last() as int - '0' as int)
    }
}

/// Every character is an ASCII decimal digit.
pub open spec fn all_digits(s: Seq<char>) -> bool {
    forall|i: int| 0 <= i < s.len() ==> '0' <= #[trigger] s[i] <= '9'
}

/// What parsing text as an `i64` gives (the rule of `i64::from_str`): an
/// optional `+` or `-`, then at least one ASCII digit and nothing else, the
/// value in the range of `i64`.
pub open spec fn parse_i64_spec(s: Seq<char>) -> Option<i64> {
    let neg = s.len() > 0 && s[0] == '-';
    let body = if s.len() > 0 && (s[0] == '-' || s[0] == '+') { s.drop_first() } else { s };
    if body.len() == 0 || !all_digits(body) {
        None
    } else {
        let v = if neg { -digits_value(body) } else { digits_value(body) };
        if i64::MIN <= v <= i64::MAX {
            Some(v as i64)
        } else {
            None
        }
    }
}

proof fn lemma_digits_value_prefix(s: Seq<char>, k: int)
    requires
        0 <= k <= s.len(),
        all_digits(s),
    ensures
        digits_value(s.take(k)) <= digits_value(s),
        0 <= digits_value(s.take(k)),
    decreases s.len() - k,
{
    if k < s.len() {
        lemma_digits_value_prefix(s, k + 1);
        assert(s.take(k + 1).drop_last() =~= s.take(k));
        assert('0' <= s[k] <= '9');
    } else {
        assert(s.take(k) =~= s);
        lemma_digits_value_nonneg(s);
    }
}

proof fn lemma_digits_value_nonneg(s: Seq<char>)
    requires
        all_digits(s),
    ensures
        0 <= digits_value(s),
    decreases s.len(),
{
    if s.len() > 0 {
        assert(all_digits(s.drop_last()));
        lemma_digits_value_nonneg(s.drop_last());
        assert('0' <= s[s.len() - 1] <= '9');
    }
}

proof fn lemma_decimal_text_digits(n: nat)
    ensures
        decimal_text(n).len() > 0,
        all_digits(decimal_text(n)),
        digits_value(decimal_text(n)) == n,
    decreases n,
{
    if n < 10 {
        assert(decimal_text(n) =~= seq![digit_char(n)]);
        assert(digit_char(n) as int == n + 48);
        assert(seq![digit_char(n)].drop_last() =~= Seq::<char>::empty());
        assert(digits_value(seq![digit_char(n)]) == digits_value(Seq::<char>::empty()) * 10 + (digit_char(n) as int - '0' as int));
    } else {
        lemma_decimal_text_digits(n / 10);
        let t = decimal_text(n / 10);
        assert(decimal_text(n) == t.push(digit_char(n % 10)));
        assert(t.push(digit_char(n % 10)).drop_last() =~= t);
        assert(digit_char(n % 10) as int == n % 10 + 48);
        assert((n / 10) * 10 + n % 10 == n) by (nonlinear_arith);
        assert(digits_value(decimal_text(n)) == digits_value(t) * 10 + (digit_char(n % 10) as int - '0' as int));
        assert forall|i: int| 0 <= i < decimal_text(n).len() implies '0' <= #[trigger] decimal_text(n)[i] <= '9' by {
            if i < t.len() {
                assert(decimal_text(n)[i] == t[i]);
            }
        }
    }
}

/// Parsing reads back what a number's decimal text says: the decimal
/// notation of `n` parses as `n` where `n` fits in an `i64` (and not
/// otherwise), with a leading `+` too, and with a leading `-` as `-n`
/// where that fits.
pub proof fn law_parse_i64_reads_decimal_text(n: nat)
    ensures
        n <= i64::MAX ==> parse_i64_spec(decimal_text(n)) == Some(n as i64),
        n > i64::MAX ==> parse_i64_spec(decimal_text(n)) is None,
        n <= i64::MAX ==> parse_i64_spec(seq!['+'] + decimal_text(n)) == Some(n as i64),
        n <= i64::MAX + 1 ==> parse_i64_spec(seq!['-'] + decimal_text(n)) == Some((-n) as i64),
{
    lemma_decimal_text_digits(n);
    let t = decimal_text(n);
    assert(t[0] != '-' && t[0] != '+') by {
        assert('0' <= t[0] <= '9');
    }
    assert((seq!['+'] + t).drop_first() =~= t);
    assert((seq!['-'] + t).drop_first() =~= t);
}

/// Parses text as an `i64` (see [`parse_i64_spec`]).
pub fn parse_i64(s: &str) -> (r: Option<i64>)
    ensures
        r == parse_i64_spec(s@),
{
    let ghost sv = s@;
    if !s.is_ascii() {
        proof {
            let i = choose|i: int| 0 <= i < sv.len() && !('\0' <= #[trigger] sv[i] <= '\u{7f}');
            let body = if sv.len() > 0 && (sv[0] == '-' || sv[0] == '+') { sv.drop_first() } else { sv };
            if sv.len() > 0 && (sv[0] == '-' || sv[0] == '+') {
                assert(i != 0);
                assert(body[i - 1] == sv[i]);
            } else {
                assert(body[i] == sv[i]);
            }
        }
        return None;
    }
    let bytes = s.as_bytes();
    proof {
        vstd::string::is_ascii_spec_bytes(s);
        assert(bytes@ =~= Seq::new(sv.len(), |i| sv[i] as u8));
    }
    let n = bytes.len();
    if n == 0 {
        return None;
    }
    let neg = bytes[0] == 45u8;
    let start: usize = if bytes[0] == 45u8 || bytes[0] == 43u8 { 1 } else { 0 };
    let ghost body = if sv.len() > 0 && (sv[0] == '-' || sv[0] == '+') { sv.drop_first() } else { sv };
    proof {
        assert('\0' <= sv[0] <= '\u{7f}');
        assert((sv[0] as u8) as int == sv[0] as int);
        assert(bytes@[0] == sv[0] as u8);
        assert(body =~= sv.skip(start as int));
    }
    if start >= n {
        return None;
    }
    let mut acc: u64 = 0;
    let mut i: usize = start;
    while i < n
        invariant
            start <= i <= n,
            n == sv.len(),
            bytes@ == Seq::new(sv.len(), |j| sv[j] as u8),
            body == sv.skip(start as int),
            body == (if sv.len() > 0 && (sv[0] == '-' || sv[0] == '+') { sv.drop_first() } else { sv }),
            neg == (sv.len() > 0 && sv[0] == '-'),
            sv == s@,
            is_ascii_chars(sv),
            all_digits(body.take(i - start)),
            acc as int == digits_value(body.take(i - start)),
            acc <= 9223372036854775808u64,
        decreases n - i,
    {
        let b = bytes[i];
        let ghost c = sv[i as int];
        proof {
            assert(b == c as u8);
            assert(body[i - start] == c);
        }
        if b < 48u8 || b > 57u8 {
            proof {
                assert((c as u8) as int == c as int);
                assert(!('0' <= c <= '9'));
                assert(!all_digits(body));
            }
            return None;
        }
        let d: u64 = (b - 48u8) as u64;
        proof {
            assert((c as u8) as int == c as int);
            assert('0' <= c <= '9' && d as int == c as int - '0' as int);
            assert(body.take(i + 1 - start).drop_last() =~= body.take(i - start));
            assert(body.take(i + 1 - start).last() == c);
        }
        if acc > 922337203685477580u64 || (acc == 922337203685477580u64 && d > 8) {
            proof {
                assert(digits_value(body.take(i + 1 - start)) > 9223372036854775808);
                let ghost rest_ok = all_digits(body);
                if rest_ok {
                    lemma_digits_value_prefix(body, i + 1 - start);
                }
            }
            return None;
        }
        acc = acc * 10 + d;
        i = i + 1;
    }
    assert(body.take(n - start) =~= body);
    if neg {
        if acc == 9223372036854775808u64 {
            Some(-9223372036854775807i64 - 1)
        } else {
            Some(-(acc as i64))
        }
    } else {
        if acc > 9223372036854775807u64 {
            None
        } else {
            Some(acc as i64)
        }
    }
}

} // verus!
