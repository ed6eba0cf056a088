//! Character-level helpers shared by the payload decoders: turning a string
//! into its characters, and parsing decimal integers the way `str::parse`
//! does (used for the millisecond expiry timestamps that both stores encode
//! as decimal strings).

use vstd::prelude::*;
use vstd::string::StrSliceExecFns;

verus! {

/// A decimal digit `'0'..='9'`.
pub open spec fn is_dec_digit(c: char) -> bool {
    48 <= c as u32 <= 57
}

/// The numeric value of a decimal digit.
pub open spec fn digit_val(c: char) -> int {
    c as u32 - 48
}

/// Every character of `s` is a decimal digit.
pub open spec fn all_dec_digits(s: Seq<char>) -> bool {
    forall|i: int| 0 <= i < s.len() ==> is_dec_digit(#[trigger] s[i])
}

/// The value of a sequence of decimal digits, most significant first.
pub open spec fn seq_digits_val(s: Seq<char>) -> int
    decreases s.len(),
{
    if s.len() == 0 {
        0
    } else {
        seq_digits_val(s.drop_last()) * 10 + digit_val(s.last())
    }
}

/// What `str::parse::<i64>` returns on `s`: an optional sign followed by at
/// least one digit, with the value required to fit in `i64`.
pub open spec fn parse_decimal_i64(s: Seq<char>) -> Option<int> {
    let neg = s.len() > 0 && s[0] == '-';
    let signed = s.len() > 0 && (s[0] == '-' || s[0] == '+');
    let ds = if signed {
        s.drop_first()
    } else {
        s
    };
    if ds.len() == 0 || !all_dec_digits(ds) {
        None
    } else {
        let v = if neg {
            -seq_digits_val(ds)
        } else {
            seq_digits_val(ds)
        };
        if i64::MIN <= v <= i64::MAX {
            Some(v)
        } else {
            None
        }
    }
}

/// The mathematical value of an executable parse result.
pub open spec fn opt_i64_val(o: Option<i64>) -> Option<int> {
    match o {
        Some(v) => Some(v as int),
        None => None,
    }
}

/// A digit sequence has a nonnegative value.
pub proof fn lemma_seq_digits_nonneg(s: Seq<char>)
    requires
        all_dec_digits(s),
    ensures
        seq_digits_val(s) >= 0,
    decreases s.len(),
{
    if s.len() > 0 {
        assert(all_dec_digits(s.drop_last()));
        lemma_seq_digits_nonneg(s.drop_last());
    }
}

/// Extending a digit sequence can only increase its value.
pub proof fn lemma_seq_digits_prefix_le(s: Seq<char>, i: int)
    requires
        all_dec_digits(s),
        0 <= i <= s.len(),
    ensures
        seq_digits_val(s.take(i)) <= seq_digits_val(s),
    decreases s.len(),
{
    if i == s.len() {
        assert(s.take(i) =~= s);
    } else {
        let d = s.drop_last();
        assert(d =~= s.take(s.len() - 1));
        assert(all_dec_digits(d));
        assert(s.take(i) =~= d.take(i));
        lemma_seq_digits_prefix_le(d, i);
        lemma_seq_digits_nonneg(d);
    }
}

/// The content of an optional string.
pub open spec fn view_opt_str(o: Option<String>) -> Option<Seq<char>> {
    match o {
        Some(s) => Some(s@),
        None => None,
    }
}

/// Compares two characters. The standard `==` on `char` carries no
/// specification, so the comparison goes through the scalar values.
pub fn char_eq(c: char, d: char) -> (r: bool)
    ensures
        r == (c == d),
{
    proof {
        vstd::utf8::char_u32_cast(c, c as u32);
        vstd::utf8::char_u32_cast(d, d as u32);
    }
    (c as u32) == (d as u32)
}

/// Compares the characters of `v` with those of `s`.
pub fn chars_eq_str(v: &Vec<char>, s: &str) -> (r: bool)
    ensures
        r == (v@ == s@),
{
    let n = v.len();
    let ll = s.unicode_len();
    if n != ll {
        proof {
            assert(v@.len() != s@.len());
        }
        return false;
    }
    let mut k: usize = 0;
    while k < n
        invariant
            0 <= k <= n,
            n == v@.len(),
            n == s@.len(),
            forall|m: int| 0 <= m < k ==> v@[m] == s@[m],
        decreases n - k,
    {
        if !char_eq(v[k], s.get_char(k)) {
            return false;
        }
        k = k + 1;
    }
    proof {
        assert(v@ =~= s@);
    }
    true
}

/// Compares the characters of two strings.
pub fn str_eq(a: &str, b: &str) -> (r: bool)
    ensures
        r == (a@ == b@),
{
    let na = a.unicode_len();
    let nb = b.unicode_len();
    if na != nb {
        proof {
            assert(a@.len() != b@.len());
        }
        return false;
    }
    let mut k: usize = 0;
    while k < na
        invariant
            0 <= k <= na,
            na == a@.len(),
            na == b@.len(),
            forall|m: int| 0 <= m < k ==> a@[m] == b@[m],
        decreases na - k,
    {
        if !char_eq(a.get_char(k), b.get_char(k)) {
            return false;
        }
        k = k + 1;
    }
    proof {
        assert(a@ =~= b@);
    }
    true
}

/// Appends the characters of `lit` to `out`.
pub fn push_str_chars(out: &mut Vec<char>, lit: &str)
    ensures
        final(out)@ == old(out)@ + lit@,
{
    let ll = lit.unicode_len();
    let mut k: usize = 0;
    while k < ll
        invariant
            0 <= k <= ll,
            ll == lit@.len(),
            out@ == old(out)@ + lit@.take(k as int),
        decreases ll - k,
    {
        out.push(lit.get_char(k));
        proof {
            assert(lit@.take(k as int + 1) =~= lit@.take(k as int).push(lit@[k as int]));
            assert(old(out)@ + lit@.take(k as int + 1) =~= (old(out)@ + lit@.take(
                k as int,
            )).push(lit@[k as int]));
        }
        k = k + 1;
    }
    proof {
        assert(lit@.take(ll as int) =~= lit@);
    }
}

/// The characters of `s`, in order.
pub fn str_chars(s: &str) -> (r: Vec<char>)
    ensures
        r@ == s@,
{
    let n = s.unicode_len();
    let mut v: Vec<char> = Vec::new();
    let mut i: usize = 0;
    while i < n
        invariant
            i <= n,
            n == s@.len(),
            v@ == s@.take(i as int),
        decreases n - i,
    {
        let c = s.get_char(i);
        v.push(c);
        assert(s@.take(i as int + 1) =~= s@.take(i as int).push(s@[i as int]));
        i = i + 1;
    }
    assert(s@.take(n as int) =~= s@);
    v
}

/// Relies on `String`'s `FromIterator<char>` impl: collecting characters
/// yields the string made of exactly those characters, in order.
#[verifier::external_body]
pub fn chars_to_string(v: &Vec<char>) -> (r: String)
    ensures
        r@ == v@,
{
    v.iter().collect()
}

/// Relies on `char::from_u32`: it returns `Some` exactly when `u` is a
/// Unicode scalar value (not a surrogate, at most 0x10FFFF), and the
/// resulting character has scalar value `u`.
#[verifier::external_body]
pub fn char_from_u32(u: u32) -> (r: Option<char>)
    ensures
        r matches Some(c) ==> c as u32 == u,
        r is Some <==> (u < 0xD800 || (0xE000 <= u && u <= 0x10FFFF)),
{
    char::from_u32(u)
}

/// Parses `v` as a decimal `i64`, exactly as `str::parse::<i64>` would.
pub fn decimal_i64_chars(v: &Vec<char>) -> (r: Option<i64>)
    ensures
        opt_i64_val(r) == parse_decimal_i64(v@),
{
    let n = v.len();
    let signed: bool = n > 0 && (char_eq(v[0], '-') || char_eq(v[0], '+'));
    let neg: bool = n > 0 && char_eq(v[0], '-');
    let start: usize = if signed {
        1
    } else {
        0
    };
    let ghost ds = if signed {
        v@.drop_first()
    } else {
        v@
    };
    assert(ds =~= v@.subrange(start as int, n as int));
    if start == n {
        return None;
    }
    // Largest magnitude that still fits: 2^63 for a negative value,
    // 2^63 - 1 for a positive one.
    let limit: u64 = if neg {
        9223372036854775808u64
    } else {
        9223372036854775807u64
    };
    let mut mag: u64 = 0;
    let mut i: usize = start;
    while i < n
        invariant
            start <= i <= n,
            n == v@.len(),
            signed == (v@.len() > 0 && (v@[0] == '-' || v@[0] == '+')),
            neg == (v@.len() > 0 && v@[0] == '-'),
            start == if signed { 1int } else { 0int },
            ds =~= v@.subrange(start as int, n as int),
            ds == (if signed { v@.drop_first() } else { v@ }),
            all_dec_digits(v@.subrange(start as int, i as int)),
            mag as int == seq_digits_val(v@.subrange(start as int, i as int)),
            mag <= limit,
            limit == if neg { 9223372036854775808u64 } else { 9223372036854775807u64 },
        decreases n - i,
    {
        let c = v[i];
        let cu = c as u32;
        if cu < 48 || cu > 57 {
            // Not all digits, so the parse fails.
            proof {
                assert(!is_dec_digit(ds[i - start]));
                assert(!all_dec_digits(ds));
            }
            return None;
        }
        let d: u64 = (cu - 48) as u64;
        let ghost pre = v@.subrange(start as int, i as int);
        let ghost ext = v@.subrange(start as int, i as int + 1);
        assert(ext.drop_last() =~= pre);
        assert(ext.last() == v@[i as int]);
        let next: u64 = match mag.checked_mul(10) {
            Some(m) => match m.checked_add(d) {
                Some(nx) => nx,
                None => {
                    proof {
                        overflow_means_none(v@, ds, start as int, i as int, n as int, neg, limit as int);
                    }
                    return None;
                },
            },
            None => {
                proof {
                    overflow_means_none(v@, ds, start as int, i as int, n as int, neg, limit as int);
                }
                return None;
            },
        };
        if next > limit {
            proof {
                overflow_means_none(v@, ds, start as int, i as int, n as int, neg, limit as int);
            }
            return None;
        }
        mag = next;
        i = i + 1;
    }
    assert(v@.subrange(start as int, n as int) =~= ds);
    if neg {
        if mag == 9223372036854775808u64 {
            Some(i64::MIN)
        } else {
            Some(0i64 - (mag as i64))
        }
    } else {
        Some(mag as i64)
    }
}

/// The signed value of the digit span `s[from..to]`.
pub open spec fn span_val(s: Seq<char>, from: int, to: int, neg: bool) -> int {
    if neg {
        -seq_digits_val(s.subrange(from, to))
    } else {
        seq_digits_val(s.subrange(from, to))
    }
}

/// Computes the signed value of a span of digits, reporting `None` exactly
/// when that value does not fit in an `i64`.
pub fn span_signed_i64(v: &Vec<char>, from: usize, to: usize, neg: bool) -> (r: Option<i64>)
    requires
        from <= to <= v@.len(),
        all_dec_digits(v@.subrange(from as int, to as int)),
    ensures
        match r {
            Some(x) => i64::MIN <= span_val(v@, from as int, to as int, neg) <= i64::MAX && x
                as int == span_val(v@, from as int, to as int, neg),
            None => !(i64::MIN <= span_val(v@, from as int, to as int, neg) <= i64::MAX),
        },
{
    let ghost ds = v@.subrange(from as int, to as int);
    let limit: u64 = if neg {
        9223372036854775808u64
    } else {
        9223372036854775807u64
    };
    let mut mag: u64 = 0;
    let mut i: usize = from;
    while i < to
        invariant
            from <= i <= to <= v@.len(),
            ds == v@.subrange(from as int, to as int),
            all_dec_digits(ds),
            mag as int == seq_digits_val(v@.subrange(from as int, i as int)),
            mag <= limit,
            limit == if neg { 9223372036854775808u64 } else { 9223372036854775807u64 },
        decreases to - i,
    {
        let c = v[i];
        let cu = c as u32;
        proof {
            assert(ds[i - from] == v@[i as int]);
            assert(is_dec_digit(v@[i as int]));
        }
        let d: u64 = (cu - 48) as u64;
        let ghost pre = v@.subrange(from as int, i as int);
        let ghost ext = v@.subrange(from as int, i as int + 1);
        proof {
            assert(ext.drop_last() =~= pre);
            assert(ext.last() == v@[i as int]);
        }
        let next: u64 = match mag.checked_mul(10) {
            Some(m) => match m.checked_add(d) {
                Some(nx) => nx,
                None => {
                    proof {
                        span_overflow(v@, from as int, i as int, to as int, neg, limit as int);
                    }
                    return None;
                },
            },
            None => {
                proof {
                    span_overflow(v@, from as int, i as int, to as int, neg, limit as int);
                }
                return None;
            },
        };
        if next > limit {
            proof {
                span_overflow(v@, from as int, i as int, to as int, neg, limit as int);
            }
            return None;
        }
        mag = next;
        i = i + 1;
    }
    if neg {
        if mag == 9223372036854775808u64 {
            Some(i64::MIN)
        } else {
            Some(0i64 - (mag as i64))
        }
    } else {
        Some(mag as i64)
    }
}

/// If the digits read so far already exceed the magnitude limit, the whole
/// span's value is out of range.
proof fn span_overflow(s: Seq<char>, from: int, i: int, to: int, neg: bool, limit: int)
    requires
        0 <= from <= i < to <= s.len(),
        all_dec_digits(s.subrange(from, to)),
        seq_digits_val(s.subrange(from, i)) * 10 + digit_val(s[i]) > limit,
        limit == if neg { 0x8000000000000000int } else { 0x7fffffffffffffffint },
    ensures
        !(i64::MIN <= span_val(s, from, to, neg) <= i64::MAX),
{
    let ds = s.subrange(from, to);
    let ext = s.subrange(from, i + 1);
    assert(ext.drop_last() =~= s.subrange(from, i));
    assert(ext.last() == s[i]);
    assert(seq_digits_val(ext) > limit);
    assert(ext =~= ds.take(i + 1 - from));
    lemma_seq_digits_prefix_le(ds, i + 1 - from);
    assert(seq_digits_val(ds) > limit);
}

/// If the value of the digits read so far already exceeds the magnitude
/// limit, the whole string parses to a value out of range.
proof fn overflow_means_none(s: Seq<char>, ds: Seq<char>, start: int, i: int, n: int, neg: bool, limit: int)
    requires
        0 <= start <= i < n,
        n == s.len(),
        ds =~= s.subrange(start, n),
        all_dec_digits(s.subrange(start, i)),
        is_dec_digit(s[i]),
        seq_digits_val(s.subrange(start, i)) * 10 + digit_val(s[i]) > limit,
        limit == if neg { 0x8000000000000000int } else { 0x7fffffffffffffffint },
    ensures
        all_dec_digits(ds) ==> (if neg {
            !(i64::MIN <= -seq_digits_val(ds) <= i64::MAX)
        } else {
            !(i64::MIN <= seq_digits_val(ds) <= i64::MAX)
        }),
{
    if all_dec_digits(ds) {
        let ext = s.subrange(start, i + 1);
        assert(ext.drop_last() =~= s.subrange(start, i));
        assert(ext.last() == s[i]);
        assert(seq_digits_val(ext) > limit);
        assert(ext =~= ds.take(i + 1 - start));
        lemma_seq_digits_prefix_le(ds, i + 1 - start);
        assert(seq_digits_val(ds) > limit);
    }
}

} // verus!
