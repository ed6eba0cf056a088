//! A verified parser and encoder for the JSON subset that the receipt
//! formats of both storefronts use: objects with string keys whose values
//! are strings (with escapes), integers, booleans, `null`, and nested
//! objects or arrays.
//!
//! Every parsing function has a specification-level mirror over `Seq<char>`;
//! the executable functions are proved to return exactly what the mirror
//! describes.

use vstd::prelude::*;

use crate::text::char_eq;
use crate::text::char_from_u32;
use crate::text::is_dec_digit;

verus! {

// ---------------------------------------------------------------------------
// Whitespace
// ---------------------------------------------------------------------------

/// JSON insignificant whitespace.
pub open spec fn is_ws(c: char) -> bool {
    c == ' ' || c == '\n' || c == '\r' || c == '\t'
}

/// The first position at or after `i` holding a non-whitespace character
/// (or the end of input).
pub open spec fn spec_skip_ws(s: Seq<char>, i: int) -> int
    decreases s.len() - i,
{
    if 0 <= i < s.len() && is_ws(s[i]) {
        spec_skip_ws(s, i + 1)
    } else {
        i
    }
}

/// Skipping whitespace stays within the input.
pub proof fn lemma_skip_ws_bounds(s: Seq<char>, i: int)
    requires
        0 <= i <= s.len(),
    ensures
        i <= spec_skip_ws(s, i) <= s.len(),
    decreases s.len() - i,
{
    if i < s.len() && is_ws(s[i]) {
        lemma_skip_ws_bounds(s, i + 1);
    }
}

/// Whether `c` is JSON whitespace.
pub fn ws_char(c: char) -> (r: bool)
    ensures
        r == is_ws(c),
{
    char_eq(c, ' ') || char_eq(c, '\n') || char_eq(c, '\r') || char_eq(c, '\t')
}

/// Advances past insignificant whitespace.
pub fn skip_ws(v: &Vec<char>, i: usize) -> (r: usize)
    requires
        i <= v@.len(),
    ensures
        r == spec_skip_ws(v@, i as int),
        i <= r <= v@.len(),
{
    let n = v.len();
    let mut j = i;
    while j < n && ws_char(v[j])
        invariant
            i <= j <= n,
            n == v@.len(),
            spec_skip_ws(v@, i as int) == spec_skip_ws(v@, j as int),
        decreases n - j,
    {
        j = j + 1;
    }
    j
}

// ---------------------------------------------------------------------------
// Hex digits (for \u escapes)
// ---------------------------------------------------------------------------

/// The value of a hexadecimal digit, if `c` is one.
pub open spec fn hex_digit_val(c: char) -> Option<int> {
    let u = c as u32;
    if 48 <= u <= 57 {
        Some((u - 48) as int)
    } else if 97 <= u <= 102 {
        Some((u - 97 + 10) as int)
    } else if 65 <= u <= 70 {
        Some((u - 65 + 10) as int)
    } else {
        None
    }
}

/// The value of the four hexadecimal digits at `s[i..i+4]`.
pub open spec fn spec_hex4(s: Seq<char>, i: int) -> Option<u32> {
    if 0 <= i && i + 4 <= s.len() {
        match (hex_digit_val(s[i]), hex_digit_val(s[i + 1]), hex_digit_val(s[i + 2]), hex_digit_val(
            s[i + 3],
        )) {
            (Some(a), Some(b), Some(c), Some(d)) => Some(
                (a * 4096 + b * 256 + c * 16 + d) as u32,
            ),
            _ => None,
        }
    } else {
        None
    }
}

/// The value of one hexadecimal digit.
pub fn hex_digit(c: char) -> (r: Option<u32>)
    ensures
        match r {
            Some(x) => hex_digit_val(c) == Some(x as int),
            None => hex_digit_val(c) is None,
        },
{
    let u = c as u32;
    if 48 <= u && u <= 57 {
        Some(u - 48)
    } else if 97 <= u && u <= 102 {
        Some(u - 97 + 10)
    } else if 65 <= u && u <= 70 {
        Some(u - 65 + 10)
    } else {
        None
    }
}

/// The value of the four hexadecimal digits at `v[i..i+4]`.
pub fn hex4(v: &Vec<char>, i: usize) -> (r: Option<u32>)
    requires
        i + 4 <= v@.len(),
    ensures
        r == spec_hex4(v@, i as int),
{
    let n = v.len();
    match (hex_digit(v[i]), hex_digit(v[i + 1]), hex_digit(v[i + 2]), hex_digit(v[i + 3])) {
        (Some(a), Some(b), Some(c), Some(d)) => Some(a * 4096 + b * 256 + c * 16 + d),
        _ => None,
    }
}

// ---------------------------------------------------------------------------
// String bodies
// ---------------------------------------------------------------------------

/// The character denoted by a single-character escape `\c`.
pub open spec fn unescape_char(c: char) -> Option<char> {
    if c == '"' {
        Some('"')
    } else if c == '\\' {
        Some('\\')
    } else if c == '/' {
        Some('/')
    } else if c == 'b' {
        Some('\u{0008}')
    } else if c == 'f' {
        Some('\u{000C}')
    } else if c == 'n' {
        Some('\n')
    } else if c == 'r' {
        Some('\r')
    } else if c == 't' {
        Some('\t')
    } else {
        None
    }
}

/// The character denoted by a single-character escape `\c`.
pub fn unescape_simple(c: char) -> (r: Option<char>)
    ensures
        r == unescape_char(c),
{
    if char_eq(c, '"') {
        Some('"')
    } else if char_eq(c, '\\') {
        Some('\\')
    } else if char_eq(c, '/') {
        Some('/')
    } else if char_eq(c, 'b') {
        Some('\u{0008}')
    } else if char_eq(c, 'f') {
        Some('\u{000C}')
    } else if char_eq(c, 'n') {
        Some('\n')
    } else if char_eq(c, 'r') {
        Some('\r')
    } else if char_eq(c, 't') {
        Some('\t')
    } else {
        None
    }
}

/// Parses the body of a JSON string: `i` points just past the opening
/// quote; on success yields the decoded content and the position just past
/// the closing quote.
pub open spec fn spec_string_body(s: Seq<char>, i: int) -> Option<(Seq<char>, int)>
    decreases s.len() - i,
{
    if !(0 <= i < s.len()) {
        None
    } else {
        let c = s[i];
        if c == '"' {
            Some((Seq::empty(), i + 1))
        } else if c == '\\' {
            if i + 2 <= s.len() {
                let e = s[i + 1];
                if e == 'u' {
                    if i + 6 <= s.len() {
                        match spec_hex4(s, i + 2) {
                            Some(u) => {
                                if 0xD800 <= u < 0xDC00 {
                                    // High surrogate: a low surrogate escape must follow.
                                    if i + 12 <= s.len() && s[i + 6] == '\\' && s[i + 7] == 'u' {
                                        match spec_hex4(s, i + 8) {
                                            Some(u2) => {
                                                if 0xDC00 <= u2 < 0xE000 {
                                                    let cp = 0x10000 + (u - 0xD800) * 0x400 + (u2
                                                        - 0xDC00);
                                                    match spec_string_body(s, i + 12) {
                                                        Some(q) => Some(
                                                            (seq![((cp as u32) as char)] + q.0, q.1),
                                                        ),
                                                        None => None,
                                                    }
                                                } else {
                                                    None
                                                }
                                            },
                                            None => None,
                                        }
                                    } else {
                                        None
                                    }
                                } else if 0xDC00 <= u < 0xE000 {
                                    // A lone low surrogate is invalid.
                                    None
                                } else {
                                    match spec_string_body(s, i + 6) {
                                        Some(q) => Some((seq![(u as char)] + q.0, q.1)),
                                        None => None,
                                    }
                                }
                            },
                            None => None,
                        }
                    } else {
                        None
                    }
                } else {
                    match unescape_char(e) {
                        Some(d) => match spec_string_body(s, i + 2) {
                            Some(q) => Some((seq![d] + q.0, q.1)),
                            None => None,
                        },
                        None => None,
                    }
                }
            } else {
                None
            }
        } else if (c as u32) < 0x20 {
            // Unescaped control characters are invalid in JSON strings.
            None
        } else {
            match spec_string_body(s, i + 1) {
                Some(q) => Some((seq![c] + q.0, q.1)),
                None => None,
            }
        }
    }
}

/// Prepends `acc` to the content of a string-body parse result.
pub open spec fn body_step(acc: Seq<char>, r: Option<(Seq<char>, int)>) -> Option<
    (Seq<char>, int),
> {
    match r {
        Some(q) => Some((acc + q.0, q.1)),
        None => None,
    }
}

/// Parses the body of a JSON string starting just past the opening quote.
pub fn parse_string_body(v: &Vec<char>, start: usize) -> (r: Option<(Vec<char>, usize)>)
    requires
        start <= v@.len(),
    ensures
        match r {
            Some(cj) => spec_string_body(v@, start as int) == Some((cj.0@, cj.1 as int)) && start
                < cj.1 <= v@.len(),
            None => spec_string_body(v@, start as int) is None,
        },
{
    let n = v.len();
    let mut i = start;
    let mut acc: Vec<char> = Vec::new();
    proof {
        assert(acc@ =~= Seq::<char>::empty());
    }
    loop
        invariant
            start <= i <= n,
            n == v@.len(),
            spec_string_body(v@, start as int) == body_step(
                acc@,
                spec_string_body(v@, i as int),
            ),
        decreases n - i,
    {
        if i >= n {
            return None;
        }
        let c = v[i];
        let cu = c as u32;
        if cu == 34 {
            // Closing quote.
            proof {
                vstd::utf8::char_u32_cast(c, cu);
                assert(c == '"');
                assert(acc@ + Seq::<char>::empty() =~= acc@);
            }
            return Some((acc, i + 1));
        } else if cu == 92 {
            // Escape sequence.
            proof {
                vstd::utf8::char_u32_cast(c, cu);
                assert(c == '\\');
            }
            if n - i < 2 {
                return None;
            }
            let e = v[i + 1];
            let eu = e as u32;
            if eu == 117 {
                proof {
                    vstd::utf8::char_u32_cast(e, eu);
                    assert(e == 'u');
                }
                if n - i < 6 {
                    return None;
                }
                let u = match hex4(v, i + 2) {
                    Some(u) => u,
                    None => {
                        return None;
                    },
                };
                if 0xD800 <= u && u < 0xDC00 {
                    if n - i < 12 {
                        return None;
                    }
                    if !(char_eq(v[i + 6], '\\') && char_eq(v[i + 7], 'u')) {
                        return None;
                    }
                    let u2 = match hex4(v, i + 8) {
                        Some(u2) => u2,
                        None => {
                            return None;
                        },
                    };
                    if !(0xDC00 <= u2 && u2 < 0xE000) {
                        return None;
                    }
                    let cp: u32 = 0x10000 + (u - 0xD800) * 0x400 + (u2 - 0xDC00);
                    let ch = match char_from_u32(cp) {
                        Some(ch) => ch,
                        None => {
                            proof {
                                assert(false);
                            }
                            return None;
                        },
                    };
                    proof {
                        vstd::utf8::char_u32_cast(ch, cp);
                        let ghost rnext = spec_string_body(v@, i as int + 12);
                        assert(spec_string_body(v@, i as int) == body_step(seq![ch], rnext));
                        if rnext is Some {
                            assert(acc@.push(ch) + (rnext->0).0 =~= acc@ + (seq![ch] + (rnext->0).0));
                        }
                    }
                    acc.push(ch);
                    i = i + 12;
                } else if 0xDC00 <= u && u < 0xE000 {
                    return None;
                } else {
                    let ch = match char_from_u32(u) {
                        Some(ch) => ch,
                        None => {
                            proof {
                                assert(false);
                            }
                            return None;
                        },
                    };
                    proof {
                        vstd::utf8::char_u32_cast(ch, u);
                        let ghost rnext = spec_string_body(v@, i as int + 6);
                        assert(spec_string_body(v@, i as int) == body_step(seq![ch], rnext));
                        if rnext is Some {
                            assert(acc@.push(ch) + (rnext->0).0 =~= acc@ + (seq![ch] + (rnext->0).0));
                        }
                    }
                    acc.push(ch);
                    i = i + 6;
                }
            } else {
                let d = match unescape_simple(e) {
                    Some(d) => d,
                    None => {
                        return None;
                    },
                };
                proof {
                    let ghost rnext = spec_string_body(v@, i as int + 2);
                    assert(spec_string_body(v@, i as int) == body_step(seq![d], rnext));
                    if rnext is Some {
                        assert(acc@.push(d) + (rnext->0).0 =~= acc@ + (seq![d] + (rnext->0).0));
                    }
                }
                acc.push(d);
                i = i + 2;
            }
        } else if cu < 0x20 {
            return None;
        } else {
            proof {
                let ghost rnext = spec_string_body(v@, i as int + 1);
                assert(spec_string_body(v@, i as int) == body_step(seq![c], rnext));
                if rnext is Some {
                    assert(acc@.push(c) + (rnext->0).0 =~= acc@ + (seq![c] + (rnext->0).0));
                }
            }
            acc.push(c);
            i = i + 1;
        }
    }
}

// ---------------------------------------------------------------------------
// Literals
// ---------------------------------------------------------------------------

/// The characters `lit` occur verbatim at position `i`.
pub open spec fn spec_match_at(s: Seq<char>, i: int, lit: Seq<char>) -> bool {
    0 <= i && i + lit.len() <= s.len() && s.subrange(i, i + lit.len()) == lit
}

/// Whether `lit` occurs verbatim at position `i`.
pub fn match_at(v: &Vec<char>, i: usize, lit: &str) -> (r: bool)
    requires
        i <= v@.len(),
    ensures
        r == spec_match_at(v@, i as int, lit@),
{
    let n = v.len();
    let ll = lit.unicode_len();
    if n - i < ll {
        return false;
    }
    let mut k: usize = 0;
    while k < ll
        invariant
            0 <= k <= ll,
            i + ll <= n,
            n == v@.len(),
            ll == lit@.len(),
            forall|m: int| 0 <= m < k ==> v@[i + m] == lit@[m],
        decreases ll - k,
    {
        if !char_eq(v[i + k], lit.get_char(k)) {
            proof {
                assert(v@.subrange(i as int, i as int + ll as int)[k as int] == v@[i as int
                    + k as int]);
            }
            return false;
        }
        k = k + 1;
    }
    proof {
        assert(v@.subrange(i as int, i as int + ll as int) =~= lit@);
    }
    true
}

// ---------------------------------------------------------------------------
// Numbers
// ---------------------------------------------------------------------------

/// The first position at or after `i` holding a non-digit character.
pub open spec fn spec_skip_digits(s: Seq<char>, i: int) -> int
    decreases s.len() - i,
{
    if 0 <= i < s.len() && is_dec_digit(s[i]) {
        spec_skip_digits(s, i + 1)
    } else {
        i
    }
}

/// Digit skipping stays within the input and covers only digits.
pub proof fn lemma_skip_digits_all(s: Seq<char>, i: int)
    requires
        0 <= i <= s.len(),
    ensures
        i <= spec_skip_digits(s, i) <= s.len(),
        forall|m: int| i <= m < spec_skip_digits(s, i) ==> is_dec_digit(#[trigger] s[m]),
        crate::text::all_dec_digits(s.subrange(i, spec_skip_digits(s, i))),
    decreases s.len() - i,
{
    let r = spec_skip_digits(s, i);
    if i < s.len() && is_dec_digit(s[i]) {
        lemma_skip_digits_all(s, i + 1);
    }
    assert forall|m: int| 0 <= m < s.subrange(i, r).len() implies is_dec_digit(
        #[trigger] s.subrange(i, r)[m],
    ) by {
        assert(s.subrange(i, r)[m] == s[i + m]);
    }
}

/// Advances past decimal digits.
pub fn skip_digits(v: &Vec<char>, i: usize) -> (r: usize)
    requires
        i <= v@.len(),
    ensures
        r == spec_skip_digits(v@, i as int),
        i <= r <= v@.len(),
{
    let n = v.len();
    let mut j = i;
    loop
        invariant
            i <= j <= n,
            n == v@.len(),
            spec_skip_digits(v@, i as int) == spec_skip_digits(v@, j as int),
        decreases n - j,
    {
        if j >= n {
            return j;
        }
        let cu = v[j] as u32;
        if cu < 48 || cu > 57 {
            return j;
        }
        j = j + 1;
    }
}

/// Parses a JSON integer at `i`: an optional minus sign and digits without
/// a leading zero, not followed by a fraction or exponent, whose value fits
/// in `i64`. This is exactly the set of number tokens that deserialize into
/// a signed 64-bit field.
pub open spec fn spec_parse_int(s: Seq<char>, i: int) -> Option<(int, int)> {
    if !(0 <= i <= s.len()) {
        None
    } else {
        let neg = i < s.len() && s[i] == '-';
        let i1 = if neg {
            i + 1
        } else {
            i
        };
        if i1 < s.len() && is_dec_digit(s[i1]) {
            let i2 = if s[i1] == '0' {
                i1 + 1
            } else {
                spec_skip_digits(s, i1)
            };
            if i2 < s.len() && (s[i2] == '.' || s[i2] == 'e' || s[i2] == 'E') {
                None
            } else {
                let vv = crate::text::span_val(s, i1, i2, neg);
                if i64::MIN <= vv <= i64::MAX {
                    Some((vv, i2))
                } else {
                    None
                }
            }
        } else {
            None
        }
    }
}

/// Parses a JSON integer token at `i`.
pub fn parse_int(v: &Vec<char>, i: usize) -> (r: Option<(i64, usize)>)
    requires
        i <= v@.len(),
    ensures
        match r {
            Some(p) => spec_parse_int(v@, i as int) == Some((p.0 as int, p.1 as int)) && i < p.1
                <= v@.len(),
            None => spec_parse_int(v@, i as int) is None,
        },
{
    let n = v.len();
    let neg = i < n && char_eq(v[i], '-');
    let i1: usize = if neg {
        i + 1
    } else {
        i
    };
    if i1 >= n {
        return None;
    }
    let c1 = v[i1];
    let c1u = c1 as u32;
    if c1u < 48 || c1u > 57 {
        return None;
    }
    let i2: usize;
    if char_eq(c1, '0') {
        i2 = i1 + 1;
        proof {
            assert(v@.subrange(i1 as int, i1 as int + 1) =~= seq![v@[i1 as int]]);
            assert(v@.subrange(i1 as int, i2 as int)[0] == v@[i1 as int]);
            assert(crate::text::all_dec_digits(v@.subrange(i1 as int, i2 as int)));
        }
    } else {
        i2 = skip_digits(v, i1);
        proof {
            lemma_skip_digits_all(v@, i1 as int);
            assert(spec_skip_digits(v@, i1 as int) == spec_skip_digits(v@, i1 as int + 1));
            lemma_skip_digits_all(v@, i1 as int + 1);
            assert(i1 < i2);
            assert(crate::text::all_dec_digits(v@.subrange(i1 as int, i2 as int)));
        }
    }
    if i2 < n && (char_eq(v[i2], '.') || char_eq(v[i2], 'e') || char_eq(v[i2], 'E')) {
        return None;
    }
    match crate::text::span_signed_i64(v, i1, i2, neg) {
        Some(x) => Some((x, i2)),
        None => None,
    }
}

/// Skips a JSON number token at `i`, without interpreting its value:
/// an optional minus sign, an integer part, and optional fraction and
/// exponent parts.
pub open spec fn spec_skip_number(s: Seq<char>, i: int) -> Option<int> {
    if !(0 <= i <= s.len()) {
        None
    } else {
        let i1 = if i < s.len() && s[i] == '-' {
            i + 1
        } else {
            i
        };
        if i1 < s.len() && is_dec_digit(s[i1]) {
            let i2 = if s[i1] == '0' {
                i1 + 1
            } else {
                spec_skip_digits(s, i1)
            };
            let has_frac = i2 < s.len() && s[i2] == '.' && i2 + 1 < s.len() && is_dec_digit(
                s[i2 + 1],
            );
            let i3 = if has_frac {
                spec_skip_digits(s, i2 + 1)
            } else {
                i2
            };
            let has_exp = i3 < s.len() && (s[i3] == 'e' || s[i3] == 'E');
            let i4 = if has_exp {
                let ie = if i3 + 1 < s.len() && (s[i3 + 1] == '+' || s[i3 + 1] == '-') {
                    i3 + 2
                } else {
                    i3 + 1
                };
                if ie < s.len() && is_dec_digit(s[ie]) {
                    spec_skip_digits(s, ie)
                } else {
                    i3
                }
            } else {
                i3
            };
            Some(i4)
        } else {
            None
        }
    }
}

/// Skips a JSON number token at `i`.
pub fn skip_number(v: &Vec<char>, i: usize) -> (r: Option<usize>)
    requires
        i <= v@.len(),
    ensures
        match r {
            Some(j) => spec_skip_number(v@, i as int) == Some(j as int) && i < j <= v@.len(),
            None => spec_skip_number(v@, i as int) is None,
        },
{
    let n = v.len();
    let i1: usize = if i < n && char_eq(v[i], '-') {
        i + 1
    } else {
        i
    };
    if i1 >= n {
        return None;
    }
    let c1 = v[i1];
    let c1u = c1 as u32;
    if c1u < 48 || c1u > 57 {
        return None;
    }
    proof {
        vstd::utf8::char_u32_cast(c1, c1u);
        lemma_skip_digits_all(v@, i1 as int + 1);
    }
    let i2: usize = if c1u == 48 {
        i1 + 1
    } else {
        skip_digits(v, i1)
    };
    let has_frac: bool = if i2 < n && char_eq(v[i2], '.') && n - i2 > 1 {
        let du = v[i2 + 1] as u32;
        48 <= du && du <= 57
    } else {
        false
    };
    let i3: usize = if has_frac {
        skip_digits(v, i2 + 1)
    } else {
        i2
    };
    let has_exp: bool = i3 < n && (char_eq(v[i3], 'e') || char_eq(v[i3], 'E'));
    let i4: usize = if has_exp {
        let ie: usize = if n - i3 > 1 && (char_eq(v[i3 + 1], '+') || char_eq(v[i3 + 1], '-')) {
            i3 + 2
        } else {
            i3 + 1
        };
        let exp_ok: bool = if ie < n {
            let du = v[ie] as u32;
            48 <= du && du <= 57
        } else {
            false
        };
        if exp_ok {
            skip_digits(v, ie)
        } else {
            i3
        }
    } else {
        i3
    };
    Some(i4)
}

// ---------------------------------------------------------------------------
// Skipping whole values
// ---------------------------------------------------------------------------

/// Skips a complete JSON value starting at `i` (whitespace already
/// consumed), yielding the position just past it.
pub open spec fn spec_skip_value(s: Seq<char>, i: int) -> Option<int>
    decreases s.len() - i, 0int,
{
    if !(0 <= i < s.len()) {
        None
    } else {
        let c = s[i];
        if c == '"' {
            match spec_string_body(s, i + 1) {
                Some(q) => Some(q.1),
                None => None,
            }
        } else if c == '{' {
            let j = spec_skip_ws(s, i + 1);
            if !(i + 1 <= j <= s.len()) {
                None
            } else if j < s.len() && s[j] == '}' {
                Some(j + 1)
            } else {
                spec_skip_members_rest(s, i + 1)
            }
        } else if c == '[' {
            let j = spec_skip_ws(s, i + 1);
            if !(i + 1 <= j <= s.len()) {
                None
            } else if j < s.len() && s[j] == ']' {
                Some(j + 1)
            } else {
                spec_skip_array_rest(s, i + 1)
            }
        } else if c == 't' {
            if spec_match_at(s, i, "true"@) {
                Some(i + 4)
            } else {
                None
            }
        } else if c == 'f' {
            if spec_match_at(s, i, "false"@) {
                Some(i + 5)
            } else {
                None
            }
        } else if c == 'n' {
            if spec_match_at(s, i, "null"@) {
                Some(i + 4)
            } else {
                None
            }
        } else if c == '-' || is_dec_digit(c) {
            spec_skip_number(s, i)
        } else {
            None
        }
    }
}

/// Skips the elements of an array: `i` is just past the `[` or a `,`.
pub open spec fn spec_skip_array_rest(s: Seq<char>, i: int) -> Option<int>
    decreases s.len() - i, 1int,
{
    if !(0 <= i <= s.len()) {
        None
    } else {
        let j = spec_skip_ws(s, i);
        if !(i <= j <= s.len()) {
            None
        } else {
            match spec_skip_value(s, j) {
                Some(k) => if !(j < k <= s.len()) {
                    None
                } else {
                    let w = spec_skip_ws(s, k);
                    if !(k <= w <= s.len()) {
                        None
                    } else if w < s.len() && s[w] == ']' {
                        Some(w + 1)
                    } else if w < s.len() && s[w] == ',' {
                        spec_skip_array_rest(s, w + 1)
                    } else {
                        None
                    }
                },
                None => None,
            }
        }
    }
}

/// Skips the members of an object: `i` is just past the `{` or a `,`.
pub open spec fn spec_skip_members_rest(s: Seq<char>, i: int) -> Option<int>
    decreases s.len() - i, 1int,
{
    if !(0 <= i <= s.len()) {
        None
    } else {
        let j = spec_skip_ws(s, i);
        if !(i <= j <= s.len()) {
            None
        } else if j < s.len() && s[j] == '"' {
            match spec_string_body(s, j + 1) {
                Some(q) => {
                    let k = q.1;
                    if !(j + 1 < k <= s.len()) {
                        None
                    } else {
                        let m = spec_skip_ws(s, k);
                        if !(k <= m <= s.len()) {
                            None
                        } else if m < s.len() && s[m] == ':' {
                            let p = spec_skip_ws(s, m + 1);
                            if !(m + 1 <= p <= s.len()) {
                                None
                            } else {
                                match spec_skip_value(s, p) {
                                    Some(q2) => if !(p < q2 <= s.len()) {
                                        None
                                    } else {
                                        let w = spec_skip_ws(s, q2);
                                        if !(q2 <= w <= s.len()) {
                                            None
                                        } else if w < s.len() && s[w] == '}' {
                                            Some(w + 1)
                                        } else if w < s.len() && s[w] == ',' {
                                            spec_skip_members_rest(s, w + 1)
                                        } else {
                                            None
                                        }
                                    },
                                    None => None,
                                }
                            }
                        } else {
                            None
                        }
                    }
                },
                None => None,
            }
        } else {
            None
        }
    }
}

/// Skips a complete JSON value starting at `i`.
pub fn skip_value(v: &Vec<char>, i: usize) -> (r: Option<usize>)
    requires
        i <= v@.len(),
    ensures
        match r {
            Some(j) => spec_skip_value(v@, i as int) == Some(j as int) && i < j <= v@.len(),
            None => spec_skip_value(v@, i as int) is None,
        },
    decreases v@.len() - i, 0int,
{
    let n = v.len();
    if i >= n {
        return None;
    }
    let c = v[i];
    let cu = c as u32;
    proof {
        vstd::utf8::char_u32_cast(c, cu);
    }
    if cu == 34 {
        match parse_string_body(v, i + 1) {
            Some(cj) => Some(cj.1),
            None => None,
        }
    } else if cu == 123 {
        let j = skip_ws(v, i + 1);
        if j < n && char_eq(v[j], '}') {
            Some(j + 1)
        } else {
            skip_members_rest(v, i + 1)
        }
    } else if cu == 91 {
        let j = skip_ws(v, i + 1);
        if j < n && char_eq(v[j], ']') {
            Some(j + 1)
        } else {
            skip_array_rest(v, i + 1)
        }
    } else if cu == 116 {
        proof {
            reveal_strlit("true");
        }
        if match_at(v, i, "true") {
            Some(i + 4)
        } else {
            None
        }
    } else if cu == 102 {
        proof {
            reveal_strlit("false");
        }
        if match_at(v, i, "false") {
            Some(i + 5)
        } else {
            None
        }
    } else if cu == 110 {
        proof {
            reveal_strlit("null");
        }
        if match_at(v, i, "null") {
            Some(i + 4)
        } else {
            None
        }
    } else if cu == 45 || (48 <= cu && cu <= 57) {
        skip_number(v, i)
    } else {
        None
    }
}

/// Skips the elements of an array: `i` is just past the `[` or a `,`.
pub fn skip_array_rest(v: &Vec<char>, i: usize) -> (r: Option<usize>)
    requires
        i <= v@.len(),
    ensures
        match r {
            Some(j) => spec_skip_array_rest(v@, i as int) == Some(j as int) && i < j <= v@.len(),
            None => spec_skip_array_rest(v@, i as int) is None,
        },
    decreases v@.len() - i, 1int,
{
    let n = v.len();
    let j = skip_ws(v, i);
    match skip_value(v, j) {
        Some(k) => {
            let w = skip_ws(v, k);
            if w < n && char_eq(v[w], ']') {
                Some(w + 1)
            } else if w < n && char_eq(v[w], ',') {
                skip_array_rest(v, w + 1)
            } else {
                None
            }
        },
        None => None,
    }
}

/// Skips the members of an object: `i` is just past the `{` or a `,`.
pub fn skip_members_rest(v: &Vec<char>, i: usize) -> (r: Option<usize>)
    requires
        i <= v@.len(),
    ensures
        match r {
            Some(j) => spec_skip_members_rest(v@, i as int) == Some(j as int) && i < j
                <= v@.len(),
            None => spec_skip_members_rest(v@, i as int) is None,
        },
    decreases v@.len() - i, 1int,
{
    let n = v.len();
    let j = skip_ws(v, i);
    if j < n && char_eq(v[j], '"') {
        match parse_string_body(v, j + 1) {
            Some(cj) => {
                let k = cj.1;
                let m = skip_ws(v, k);
                if m < n && char_eq(v[m], ':') {
                    let p = skip_ws(v, m + 1);
                    match skip_value(v, p) {
                        Some(q2) => {
                            let w = skip_ws(v, q2);
                            if w < n && char_eq(v[w], '}') {
                                Some(w + 1)
                            } else if w < n && char_eq(v[w], ',') {
                                skip_members_rest(v, w + 1)
                            } else {
                                None
                            }
                        },
                        None => None,
                    }
                } else {
                    None
                }
            },
            None => None,
        }
    } else {
        None
    }
}

// ---------------------------------------------------------------------------
// Objects as flat member lists
// ---------------------------------------------------------------------------

/// A primitive member value of a parsed object.
pub enum Prim {
    /// A JSON string, decoded.
    Str(Vec<char>),
    /// A JSON integer that fits in `i64`.
    Int(i64),
    /// `true` or `false`.
    Bool(bool),
    /// `null`.
    Null,
    /// A structurally valid value that carries no primitive: a nested
    /// object or array, or a number with a fraction, an exponent, or a
    /// value outside `i64`.
    Skipped,
}

/// The specification-level form of a primitive member value.
pub enum PrimV {
    /// A JSON string, decoded.
    Str(Seq<char>),
    /// A JSON integer that fits in `i64`.
    Int(int),
    /// `true` or `false`.
    Bool(bool),
    /// `null`.
    Null,
    /// A structurally valid value that carries no primitive.
    Skipped,
}

/// The specification-level form of `p`.
pub open spec fn prim_view(p: Prim) -> PrimV {
    match p {
        Prim::Str(v) => PrimV::Str(v@),
        Prim::Int(x) => PrimV::Int(x as int),
        Prim::Bool(b) => PrimV::Bool(b),
        Prim::Null => PrimV::Null,
        Prim::Skipped => PrimV::Skipped,
    }
}

/// The specification-level form of a member list.
pub open spec fn members_view(l: Seq<(Vec<char>, Prim)>) -> Seq<(Seq<char>, PrimV)> {
    l.map(|k: int, kv: (Vec<char>, Prim)| (kv.0@, prim_view(kv.1)))
}

/// Appending one member commutes with taking views.
pub proof fn lemma_members_view_push(l: Seq<(Vec<char>, Prim)>, kv: (Vec<char>, Prim))
    ensures
        members_view(l.push(kv)) =~= members_view(l) + seq![(kv.0@, prim_view(kv.1))],
{
}

/// Parses one primitive member value at `i` (whitespace already consumed).
pub open spec fn spec_prim_value(s: Seq<char>, i: int) -> Option<(PrimV, int)> {
    if !(0 <= i < s.len()) {
        None
    } else {
        let c = s[i];
        if c == '"' {
            match spec_string_body(s, i + 1) {
                Some(q) => Some((PrimV::Str(q.0), q.1)),
                None => None,
            }
        } else if c == 't' {
            if spec_match_at(s, i, "true"@) {
                Some((PrimV::Bool(true), i + 4))
            } else {
                None
            }
        } else if c == 'f' {
            if spec_match_at(s, i, "false"@) {
                Some((PrimV::Bool(false), i + 5))
            } else {
                None
            }
        } else if c == 'n' {
            if spec_match_at(s, i, "null"@) {
                Some((PrimV::Null, i + 4))
            } else {
                None
            }
        } else if c == '-' || is_dec_digit(c) {
            match spec_parse_int(s, i) {
                Some(p) => Some((PrimV::Int(p.0), p.1)),
                None => match spec_skip_number(s, i) {
                    Some(j) => Some((PrimV::Skipped, j)),
                    None => None,
                },
            }
        } else if c == '{' || c == '[' {
            match spec_skip_value(s, i) {
                Some(j) => Some((PrimV::Skipped, j)),
                None => None,
            }
        } else {
            None
        }
    }
}

/// Parses one primitive member value at `i`.
pub fn prim_value(v: &Vec<char>, i: usize) -> (r: Option<(Prim, usize)>)
    requires
        i <= v@.len(),
    ensures
        match r {
            Some(p) => spec_prim_value(v@, i as int) == Some((prim_view(p.0), p.1 as int)) && i
                < p.1 <= v@.len(),
            None => spec_prim_value(v@, i as int) is None,
        },
{
    let n = v.len();
    if i >= n {
        return None;
    }
    let c = v[i];
    let cu = c as u32;
    proof {
        vstd::utf8::char_u32_cast(c, cu);
    }
    if cu == 34 {
        match parse_string_body(v, i + 1) {
            Some(cj) => Some((Prim::Str(cj.0), cj.1)),
            None => None,
        }
    } else if cu == 116 {
        proof {
            reveal_strlit("true");
        }
        if match_at(v, i, "true") {
            Some((Prim::Bool(true), i + 4))
        } else {
            None
        }
    } else if cu == 102 {
        proof {
            reveal_strlit("false");
        }
        if match_at(v, i, "false") {
            Some((Prim::Bool(false), i + 5))
        } else {
            None
        }
    } else if cu == 110 {
        proof {
            reveal_strlit("null");
        }
        if match_at(v, i, "null") {
            Some((Prim::Null, i + 4))
        } else {
            None
        }
    } else if cu == 45 || (48 <= cu && cu <= 57) {
        match parse_int(v, i) {
            Some(p) => Some((Prim::Int(p.0), p.1)),
            None => match skip_number(v, i) {
                Some(j) => Some((Prim::Skipped, j)),
                None => None,
            },
        }
    } else if cu == 123 || cu == 91 {
        match skip_value(v, i) {
            Some(j) => Some((Prim::Skipped, j)),
            None => None,
        }
    } else {
        None
    }
}

/// Parses the members of an object whose values are primitives (nested
/// values are skipped): `i` is just past the `{` or a `,`. Yields the
/// members in order and the position just past the closing brace.
#[verifier::opaque]
pub open spec fn spec_members(s: Seq<char>, i: int) -> Option<(Seq<(Seq<char>, PrimV)>, int)>
    decreases s.len() - i,
{
    if !(0 <= i <= s.len()) {
        None
    } else {
        let j = spec_skip_ws(s, i);
        if !(i <= j <= s.len()) {
            None
        } else if j < s.len() && s[j] == '"' {
            match spec_string_body(s, j + 1) {
                Some(q) => {
                    let key = q.0;
                    let k = q.1;
                    if !(j + 1 < k <= s.len()) {
                        None
                    } else {
                        let m = spec_skip_ws(s, k);
                        if !(k <= m <= s.len()) {
                            None
                        } else if m < s.len() && s[m] == ':' {
                            let p = spec_skip_ws(s, m + 1);
                            if !(m + 1 <= p <= s.len()) {
                                None
                            } else {
                                match spec_prim_value(s, p) {
                                    Some(pv) => {
                                        if !(p < pv.1 <= s.len()) {
                                            None
                                        } else {
                                            let w = spec_skip_ws(s, pv.1);
                                            if !(pv.1 <= w <= s.len()) {
                                                None
                                            } else if w < s.len() && s[w] == '}' {
                                                Some((seq![(key, pv.0)], w + 1))
                                            } else if w < s.len() && s[w] == ',' {
                                                match spec_members(s, w + 1) {
                                                    Some(r2) => Some(
                                                        (seq![(key, pv.0)] + r2.0, r2.1),
                                                    ),
                                                    None => None,
                                                }
                                            } else {
                                                None
                                            }
                                        }
                                    },
                                    None => None,
                                }
                            }
                        } else {
                            None
                        }
                    }
                },
                None => None,
            }
        } else {
            None
        }
    }
}

/// Prepends `acc` to the members of a member-list parse result.
pub open spec fn members_step(
    acc: Seq<(Seq<char>, PrimV)>,
    r: Option<(Seq<(Seq<char>, PrimV)>, int)>,
) -> Option<(Seq<(Seq<char>, PrimV)>, int)> {
    match r {
        Some(p) => Some((acc + p.0, p.1)),
        None => None,
    }
}

/// Parses the members of a flat object: `start` is just past the `{`.
pub fn parse_members(v: &Vec<char>, start: usize) -> (r: Option<(Vec<(Vec<char>, Prim)>, usize)>)
    requires
        start <= v@.len(),
    ensures
        match r {
            Some(p) => spec_members(v@, start as int) == Some((members_view(p.0@), p.1 as int))
                && start < p.1 <= v@.len(),
            None => spec_members(v@, start as int) is None,
        },
{
    let n = v.len();
    let mut i = start;
    let mut acc: Vec<(Vec<char>, Prim)> = Vec::new();
    proof {
        reveal(spec_members);
        assert(members_view(acc@) =~= Seq::<(Seq<char>, PrimV)>::empty());
    }
    loop
        invariant
            start <= i <= n,
            n == v@.len(),
            spec_members(v@, start as int) == members_step(
                members_view(acc@),
                spec_members(v@, i as int),
            ),
        decreases n - i,
    {
        proof {
            reveal(spec_members);
        }
        let j = skip_ws(v, i);
        if !(j < n && char_eq(v[j], '"')) {
            return None;
        }
        let (key, k) = match parse_string_body(v, j + 1) {
            Some(cj) => cj,
            None => {
                return None;
            },
        };
        let m = skip_ws(v, k);
        if !(m < n && char_eq(v[m], ':')) {
            return None;
        }
        let p = skip_ws(v, m + 1);
        let (pv, q) = match prim_value(v, p) {
            Some(x) => x,
            None => {
                return None;
            },
        };
        let w = skip_ws(v, q);
        let ghost kv_v = (key@, prim_view(pv));
        if w < n && char_eq(v[w], '}') {
            proof {
                assert(spec_members(v@, i as int) == Some((seq![kv_v], w as int + 1)));
                lemma_members_view_push(acc@, (key, pv));
                assert(members_view(acc@) + seq![kv_v] =~= members_view(acc@.push((key, pv))));
            }
            acc.push((key, pv));
            return Some((acc, w + 1));
        } else if w < n && char_eq(v[w], ',') {
            proof {
                let ghost rnext = spec_members(v@, w as int + 1);
                assert(spec_members(v@, i as int) == members_step(seq![kv_v], rnext));
                lemma_members_view_push(acc@, (key, pv));
                if rnext is Some {
                    assert(members_view(acc@.push((key, pv))) + (rnext->0).0 =~= members_view(
                        acc@,
                    ) + (seq![kv_v] + (rnext->0).0));
                }
            }
            acc.push((key, pv));
            i = w + 1;
        } else {
            return None;
        }
    }
}

/// Parses a flat object at `i`: a `{`, members, and the closing `}`.
pub open spec fn spec_object_at(s: Seq<char>, i: int) -> Option<(Seq<(Seq<char>, PrimV)>, int)> {
    if 0 <= i < s.len() && s[i] == '{' {
        let j = spec_skip_ws(s, i + 1);
        if !(i + 1 <= j <= s.len()) {
            None
        } else if j < s.len() && s[j] == '}' {
            Some((Seq::empty(), j + 1))
        } else {
            spec_members(s, i + 1)
        }
    } else {
        None
    }
}

/// Parses a flat object at `i`.
pub fn object_at(v: &Vec<char>, i: usize) -> (r: Option<(Vec<(Vec<char>, Prim)>, usize)>)
    requires
        i <= v@.len(),
    ensures
        match r {
            Some(p) => spec_object_at(v@, i as int) == Some((members_view(p.0@), p.1 as int)) && i
                < p.1 <= v@.len(),
            None => spec_object_at(v@, i as int) is None,
        },
{
    let n = v.len();
    if !(i < n && char_eq(v[i], '{')) {
        return None;
    }
    let j = skip_ws(v, i + 1);
    if j < n && char_eq(v[j], '}') {
        let acc: Vec<(Vec<char>, Prim)> = Vec::new();
        proof {
            assert(members_view(acc@) =~= Seq::<(Seq<char>, PrimV)>::empty());
        }
        Some((acc, j + 1))
    } else {
        parse_members(v, i + 1)
    }
}

/// Parses a whole input as one flat object, requiring only whitespace
/// around it.
pub open spec fn spec_parse_object(s: Seq<char>) -> Option<Seq<(Seq<char>, PrimV)>> {
    let i = spec_skip_ws(s, 0);
    if !(0 <= i <= s.len()) {
        None
    } else {
        match spec_object_at(s, i) {
            Some(r) => if 0 <= r.1 <= s.len() && spec_skip_ws(s, r.1) == s.len() {
                Some(r.0)
            } else {
                None
            },
            None => None,
        }
    }
}

/// Parses a whole input as one flat object.
pub fn parse_object(v: &Vec<char>) -> (r: Option<Vec<(Vec<char>, Prim)>>)
    ensures
        match r {
            Some(l) => spec_parse_object(v@) == Some(members_view(l@)),
            None => spec_parse_object(v@) is None,
        },
{
    let n = v.len();
    let i = skip_ws(v, 0);
    match object_at(v, i) {
        Some((l, k)) => {
            let w = skip_ws(v, k);
            if w == n {
                Some(l)
            } else {
                None
            }
        },
        None => None,
    }
}

// ---------------------------------------------------------------------------
// Member lookup
// ---------------------------------------------------------------------------

/// The value of the last member named `key`, if any. When a key is
/// repeated, the later occurrence overwrites the earlier, just as repeated
/// members overwrite the accumulated field of a typed response parser.
pub open spec fn spec_find_key(l: Seq<(Seq<char>, PrimV)>, key: Seq<char>) -> Option<PrimV>
    decreases l.len(),
{
    if l.len() == 0 {
        None
    } else if l.last().0 == key {
        Some(l.last().1)
    } else {
        spec_find_key(l.drop_last(), key)
    }
}

/// Finds the last member named `key`, yielding its index.
pub fn find_key_idx(l: &Vec<(Vec<char>, Prim)>, key: &str) -> (r: Option<usize>)
    ensures
        match r {
            Some(idx) => idx < l@.len() && l@[idx as int].0@ == key@ && spec_find_key(
                members_view(l@),
                key@,
            ) == Some(prim_view(l@[idx as int].1)),
            None => spec_find_key(members_view(l@), key@) is None,
        },
{
    let n = l.len();
    let mut i: usize = n;
    proof {
        assert(members_view(l@).take(n as int) =~= members_view(l@));
    }
    while i > 0
        invariant
            0 <= i <= n,
            n == l@.len(),
            spec_find_key(members_view(l@), key@) == spec_find_key(
                members_view(l@).take(i as int),
                key@,
            ),
        decreases i,
    {
        proof {
            assert(members_view(l@).take(i as int).last() == (l@[i as int - 1].0@, prim_view(
                l@[i as int - 1].1,
            )));
            assert(members_view(l@).take(i as int).drop_last() =~= members_view(l@).take(
                i as int - 1,
            ));
        }
        if crate::text::chars_eq_str(&l[i - 1].0, key) {
            return Some(i - 1);
        }
        i = i - 1;
    }
    proof {
        assert(members_view(l@).take(0) =~= Seq::<(Seq<char>, PrimV)>::empty());
    }
    None
}

// ---------------------------------------------------------------------------
// Typed field access
// ---------------------------------------------------------------------------
// Each helper mirrors how a derived deserializer fills one field of a
// struct: a required field must be present with the right primitive kind;
// an optional field may be absent or `null`.

/// A required string field.
pub open spec fn spec_req_str(l: Seq<(Seq<char>, PrimV)>, key: Seq<char>) -> Option<Seq<char>> {
    match spec_find_key(l, key) {
        Some(PrimV::Str(s)) => Some(s),
        _ => None,
    }
}

/// An optional string field; the outer `None` means a type error.
pub open spec fn spec_opt_str(l: Seq<(Seq<char>, PrimV)>, key: Seq<char>) -> Option<
    Option<Seq<char>>,
> {
    match spec_find_key(l, key) {
        None => Some(None),
        Some(PrimV::Null) => Some(None),
        Some(PrimV::Str(s)) => Some(Some(s)),
        _ => None,
    }
}

/// A required boolean field.
pub open spec fn spec_req_bool(l: Seq<(Seq<char>, PrimV)>, key: Seq<char>) -> Option<bool> {
    match spec_find_key(l, key) {
        Some(PrimV::Bool(b)) => Some(b),
        _ => None,
    }
}

/// An optional boolean field; the outer `None` means a type error.
pub open spec fn spec_opt_bool(l: Seq<(Seq<char>, PrimV)>, key: Seq<char>) -> Option<
    Option<bool>,
> {
    match spec_find_key(l, key) {
        None => Some(None),
        Some(PrimV::Null) => Some(None),
        Some(PrimV::Bool(b)) => Some(Some(b)),
        _ => None,
    }
}

/// A required signed 64-bit integer field.
pub open spec fn spec_req_i64(l: Seq<(Seq<char>, PrimV)>, key: Seq<char>) -> Option<int> {
    match spec_find_key(l, key) {
        Some(PrimV::Int(x)) => Some(x),
        _ => None,
    }
}

/// An optional signed 64-bit integer field; the outer `None` means a type
/// error.
pub open spec fn spec_opt_i64(l: Seq<(Seq<char>, PrimV)>, key: Seq<char>) -> Option<Option<int>> {
    match spec_find_key(l, key) {
        None => Some(None),
        Some(PrimV::Null) => Some(None),
        Some(PrimV::Int(x)) => Some(Some(x)),
        _ => None,
    }
}

/// A required signed 32-bit integer field.
pub open spec fn spec_req_i32(l: Seq<(Seq<char>, PrimV)>, key: Seq<char>) -> Option<int> {
    match spec_find_key(l, key) {
        Some(PrimV::Int(x)) => if i32::MIN <= x <= i32::MAX {
            Some(x)
        } else {
            None
        },
        _ => None,
    }
}

/// An optional unsigned 32-bit integer field; the outer `None` means a
/// type error.
pub open spec fn spec_opt_u32(l: Seq<(Seq<char>, PrimV)>, key: Seq<char>) -> Option<Option<int>> {
    match spec_find_key(l, key) {
        None => Some(None),
        Some(PrimV::Null) => Some(None),
        Some(PrimV::Int(x)) => if 0 <= x <= u32::MAX {
            Some(Some(x))
        } else {
            None
        },
        _ => None,
    }
}

/// Reads a required string field.
pub fn req_str(l: &Vec<(Vec<char>, Prim)>, key: &str) -> (r: Option<String>)
    ensures
        match r {
            Some(s) => spec_req_str(members_view(l@), key@) == Some(s@),
            None => spec_req_str(members_view(l@), key@) is None,
        },
{
    match find_key_idx(l, key) {
        Some(idx) => match &l[idx].1 {
            Prim::Str(vc) => Some(crate::text::chars_to_string(vc)),
            _ => None,
        },
        None => None,
    }
}

/// Reads an optional string field; `None` means a type error.
pub fn opt_str(l: &Vec<(Vec<char>, Prim)>, key: &str) -> (r: Option<Option<String>>)
    ensures
        match r {
            Some(o) => spec_opt_str(members_view(l@), key@) == Some(
                match o {
                    Some(s) => Some(s@),
                    None => None,
                },
            ),
            None => spec_opt_str(members_view(l@), key@) is None,
        },
{
    match find_key_idx(l, key) {
        Some(idx) => match &l[idx].1 {
            Prim::Str(vc) => Some(Some(crate::text::chars_to_string(vc))),
            Prim::Null => Some(None),
            _ => None,
        },
        None => Some(None),
    }
}

/// Reads a required boolean field.
pub fn req_bool(l: &Vec<(Vec<char>, Prim)>, key: &str) -> (r: Option<bool>)
    ensures
        match r {
            Some(b) => spec_req_bool(members_view(l@), key@) == Some(b),
            None => spec_req_bool(members_view(l@), key@) is None,
        },
{
    match find_key_idx(l, key) {
        Some(idx) => match &l[idx].1 {
            Prim::Bool(b) => Some(*b),
            _ => None,
        },
        None => None,
    }
}

/// Reads an optional boolean field; `None` means a type error.
pub fn opt_bool(l: &Vec<(Vec<char>, Prim)>, key: &str) -> (r: Option<Option<bool>>)
    ensures
        match r {
            Some(o) => spec_opt_bool(members_view(l@), key@) == Some(o),
            None => spec_opt_bool(members_view(l@), key@) is None,
        },
{
    match find_key_idx(l, key) {
        Some(idx) => match &l[idx].1 {
            Prim::Bool(b) => Some(Some(*b)),
            Prim::Null => Some(None),
            _ => None,
        },
        None => Some(None),
    }
}

/// Reads a required signed 64-bit integer field.
pub fn req_i64(l: &Vec<(Vec<char>, Prim)>, key: &str) -> (r: Option<i64>)
    ensures
        match r {
            Some(x) => spec_req_i64(members_view(l@), key@) == Some(x as int),
            None => spec_req_i64(members_view(l@), key@) is None,
        },
{
    match find_key_idx(l, key) {
        Some(idx) => match &l[idx].1 {
            Prim::Int(x) => Some(*x),
            _ => None,
        },
        None => None,
    }
}

/// Reads an optional signed 64-bit integer field; `None` means a type
/// error.
pub fn opt_i64(l: &Vec<(Vec<char>, Prim)>, key: &str) -> (r: Option<Option<i64>>)
    ensures
        match r {
            Some(o) => spec_opt_i64(members_view(l@), key@) == Some(
                match o {
                    Some(x) => Some(x as int),
                    None => None,
                },
            ),
            None => spec_opt_i64(members_view(l@), key@) is None,
        },
{
    match find_key_idx(l, key) {
        Some(idx) => match &l[idx].1 {
            Prim::Int(x) => Some(Some(*x)),
            Prim::Null => Some(None),
            _ => None,
        },
        None => Some(None),
    }
}

/// Reads a required signed 32-bit integer field.
pub fn req_i32(l: &Vec<(Vec<char>, Prim)>, key: &str) -> (r: Option<i32>)
    ensures
        match r {
            Some(x) => spec_req_i32(members_view(l@), key@) == Some(x as int),
            None => spec_req_i32(members_view(l@), key@) is None,
        },
{
    match find_key_idx(l, key) {
        Some(idx) => match &l[idx].1 {
            Prim::Int(x) => if i32::MIN as i64 <= *x && *x <= i32::MAX as i64 {
                Some(*x as i32)
            } else {
                None
            },
            _ => None,
        },
        None => None,
    }
}

/// Reads an optional unsigned 32-bit integer field; `None` means a type
/// error.
pub fn opt_u32(l: &Vec<(Vec<char>, Prim)>, key: &str) -> (r: Option<Option<u32>>)
    ensures
        match r {
            Some(o) => spec_opt_u32(members_view(l@), key@) == Some(
                match o {
                    Some(x) => Some(x as int),
                    None => None,
                },
            ),
            None => spec_opt_u32(members_view(l@), key@) is None,
        },
{
    match find_key_idx(l, key) {
        Some(idx) => match &l[idx].1 {
            Prim::Int(x) => if 0 <= *x && *x <= u32::MAX as i64 {
                Some(Some(*x as u32))
            } else {
                None
            },
            Prim::Null => Some(None),
            _ => None,
        },
        None => Some(None),
    }
}

// ---------------------------------------------------------------------------
// Encoding
// ---------------------------------------------------------------------------

/// The character standing for the hexadecimal digit `d`.
pub open spec fn hex_char(d: int) -> char {
    if d < 10 {
        ((48 + d) as u8) as char
    } else {
        ((87 + d) as u8) as char
    }
}

/// How one character is written inside a JSON string: quotes, backslashes
/// and control characters are escaped, everything else stands as itself.
pub open spec fn esc_char(c: char) -> Seq<char> {
    if c == '"' {
        seq!['\\', '"']
    } else if c == '\\' {
        seq!['\\', '\\']
    } else if c == '\u{0008}' {
        seq!['\\', 'b']
    } else if c == '\u{000C}' {
        seq!['\\', 'f']
    } else if c == '\n' {
        seq!['\\', 'n']
    } else if c == '\r' {
        seq!['\\', 'r']
    } else if c == '\t' {
        seq!['\\', 't']
    } else if (c as u32) < 0x20 {
        seq!['\\', 'u', '0', '0', hex_char(((c as u32) as int) / 16), hex_char(((c as u32) as int) % 16)]
    } else {
        seq![c]
    }
}

/// The escaped form of a whole string.
pub open spec fn spec_escape(s: Seq<char>) -> Seq<char>
    decreases s.len(),
{
    if s.len() == 0 {
        Seq::empty()
    } else {
        esc_char(s[0]) + spec_escape(s.drop_first())
    }
}

/// The quoted, escaped form of a string: what the encoder writes for it.
pub open spec fn spec_quote(s: Seq<char>) -> Seq<char> {
    seq!['"'] + spec_escape(s) + seq!['"']
}

/// Escaping distributes over appending one character.
pub proof fn lemma_escape_push(s: Seq<char>, c: char)
    ensures
        spec_escape(s.push(c)) == spec_escape(s) + esc_char(c),
    decreases s.len(),
{
    if s.len() == 0 {
        assert(s.push(c).drop_first() =~= Seq::<char>::empty());
        assert(s.push(c)[0] == c);
        assert(spec_escape(Seq::<char>::empty()) =~= Seq::<char>::empty());
        assert(spec_escape(s.push(c)) =~= esc_char(c));
        assert(spec_escape(s) + esc_char(c) =~= esc_char(c));
    } else {
        assert(s.push(c).drop_first() =~= s.drop_first().push(c));
        lemma_escape_push(s.drop_first(), c);
        assert(s.push(c)[0] == s[0]);
        assert(spec_escape(s.push(c)) =~= spec_escape(s) + esc_char(c));
    }
}

/// Appends the escaped form of `c` to `out`.
pub fn push_escaped(out: &mut Vec<char>, c: char)
    ensures
        final(out)@ == old(out)@ + esc_char(c),
{
    let cu = c as u32;
    proof {
        vstd::utf8::char_u32_cast(c, cu);
    }
    if cu == 34 {
        out.push('\\');
        out.push('"');
        proof {
            assert(out@ =~= old(out)@ + esc_char(c));
        }
    } else if cu == 92 {
        out.push('\\');
        out.push('\\');
        proof {
            assert(out@ =~= old(out)@ + esc_char(c));
        }
    } else if cu == 8 {
        out.push('\\');
        out.push('b');
        proof {
            assert(out@ =~= old(out)@ + esc_char(c));
        }
    } else if cu == 12 {
        out.push('\\');
        out.push('f');
        proof {
            assert(out@ =~= old(out)@ + esc_char(c));
        }
    } else if cu == 10 {
        out.push('\\');
        out.push('n');
        proof {
            assert(out@ =~= old(out)@ + esc_char(c));
        }
    } else if cu == 13 {
        out.push('\\');
        out.push('r');
        proof {
            assert(out@ =~= old(out)@ + esc_char(c));
        }
    } else if cu == 9 {
        out.push('\\');
        out.push('t');
        proof {
            assert(out@ =~= old(out)@ + esc_char(c));
        }
    } else if cu < 0x20 {
        out.push('\\');
        out.push('u');
        out.push('0');
        out.push('0');
        let hi = cu / 16;
        let lo = cu % 16;
        let hc: char = if hi < 10 {
            ((48 + hi) as u8) as char
        } else {
            ((87 + hi) as u8) as char
        };
        let lc: char = if lo < 10 {
            ((48 + lo) as u8) as char
        } else {
            ((87 + lo) as u8) as char
        };
        out.push(hc);
        out.push(lc);
        proof {
            assert(out@ =~= old(out)@ + esc_char(c));
        }
    } else {
        out.push(c);
        proof {
            assert(out@ =~= old(out)@ + esc_char(c));
        }
    }
}

/// Appends the quoted, escaped form of `s` to `out`.
pub fn push_quoted(out: &mut Vec<char>, s: &str)
    ensures
        final(out)@ == old(out)@ + spec_quote(s@),
{
    out.push('"');
    let ll = s.unicode_len();
    let mut k: usize = 0;
    while k < ll
        invariant
            0 <= k <= ll,
            ll == s@.len(),
            out@ == old(out)@ + seq!['"'] + spec_escape(s@.take(k as int)),
        decreases ll - k,
    {
        let c = s.get_char(k);
        push_escaped(out, c);
        proof {
            assert(s@.take(k as int + 1) =~= s@.take(k as int).push(s@[k as int]));
            lemma_escape_push(s@.take(k as int), s@[k as int]);
            assert(old(out)@ + seq!['"'] + spec_escape(s@.take(k as int + 1)) =~= (old(out)@
                + seq!['"'] + spec_escape(s@.take(k as int))) + esc_char(s@[k as int]));
        }
        k = k + 1;
    }
    out.push('"');
    proof {
        assert(s@.take(ll as int) =~= s@);
        assert(old(out)@ + spec_quote(s@) =~= (old(out)@ + seq!['"'] + spec_escape(s@)).push('"'));
    }
}

// ---------------------------------------------------------------------------
// The encoder inverts under the parser
// ---------------------------------------------------------------------------

/// The value of a hexadecimal digit character the encoder writes is the
/// digit itself.
pub proof fn lemma_hex_char_val(d: int)
    requires
        0 <= d < 16,
    ensures
        hex_digit_val(hex_char(d)) == Some(d),
{
}

/// Reading an escaped string: wherever the text holds the escaped form of
/// `c` followed by a closing quote, the string-body parser returns exactly
/// `c` and stops just past that quote.
#[verifier::rlimit(100)]
pub proof fn lemma_string_body_inverts_escape(s: Seq<char>, i: int, c: Seq<char>)
    requires
        0 <= i,
        i + spec_escape(c).len() + 1 <= s.len(),
        s.subrange(i, i + spec_escape(c).len() + 1) == spec_escape(c) + seq!['"'],
    ensures
        spec_string_body(s, i) == Some((c, i + spec_escape(c).len() + 1)),
    decreases c.len(),
{
    let e = spec_escape(c);
    let l = e.len() + 1;
    assert(forall|m: int| i <= m < i + l ==> #[trigger] s[m] == (e + seq!['"'])[m - i]) by {
        assert(forall|m: int|
            i <= m < i + l ==> s.subrange(i, i + l)[m - i] == #[trigger] s[m]);
    }
    if c.len() == 0 {
        assert(e =~= Seq::<char>::empty());
        assert(s[i] == '"');
        assert(c =~= Seq::<char>::empty());
    } else {
        let c0 = c[0];
        let rest = c.drop_first();
        let e0 = esc_char(c0);
        let erest = spec_escape(rest);
        assert(e == e0 + erest);
        let k = e0.len();
        assert(forall|m: int| i <= m < i + k ==> #[trigger] s[m] == e0[m - i]);
        assert(s.subrange(i + k, i + l) =~= erest + seq!['"']) by {
            assert(forall|m: int|
                0 <= m < l - k ==> s.subrange(i + k, i + l)[m] == #[trigger] s[i + k + m]);
        }
        lemma_string_body_inverts_escape(s, i + k, rest);
        assert(seq![c0] + rest =~= c);
        if c0 == '"' || c0 == '\\' || c0 == '\u{0008}' || c0 == '\u{000C}' || c0 == '\n' || c0
            == '\r' || c0 == '\t' {
            // A two-character escape: backslash and a name.
            assert(k == 2);
            assert(s[i] == '\\');
            assert(s[i + 1] == e0[1]);
            assert(unescape_char(e0[1]) == Some(c0));
            assert(e0[1] != 'u');
            assert(spec_string_body(s, i) == Some((seq![c0] + rest, i + l)));
        } else if (c0 as u32) < 0x20 {
            // A six-character \u escape.
            let cu = c0 as u32;
            assert(k == 6);
            assert(s[i] == '\\' && s[i + 1] == 'u' && s[i + 2] == '0' && s[i + 3] == '0');
            assert(s[i + 4] == hex_char((cu as int) / 16) && s[i + 5] == hex_char(
                (cu as int) % 16,
            ));
            lemma_hex_char_val((cu as int) / 16);
            lemma_hex_char_val((cu as int) % 16);
            assert(hex_digit_val(s[i + 2]) == Some(0int));
            assert(spec_hex4(s, i + 2) == Some(
                ((0 * 4096 + 0 * 256 + ((cu as int) / 16) * 16 + (cu as int) % 16) as u32),
            ));
            assert(((cu as int) / 16) * 16 + (cu as int) % 16 == cu as int);
            assert(spec_hex4(s, i + 2) == Some(cu));
            vstd::utf8::char_u32_cast(c0, cu);
            assert((cu as char) == c0);
            assert(spec_string_body(s, i) == Some((seq![c0] + rest, i + l)));
        } else {
            // The character stands as itself.
            assert(k == 1);
            assert(s[i] == c0);
            assert(spec_string_body(s, i) == Some((seq![c0] + rest, i + l)));
        }
    }
}

/// Reading a quoted string: wherever the text holds the quoted form of
/// `c`, the primitive-value parser returns exactly the string `c`.
pub proof fn lemma_prim_value_inverts_quote(s: Seq<char>, p: int, c: Seq<char>)
    requires
        0 <= p,
        p + spec_quote(c).len() <= s.len(),
        s.subrange(p, p + spec_quote(c).len()) == spec_quote(c),
    ensures
        spec_prim_value(s, p) == Some((PrimV::Str(c), p + spec_quote(c).len())),
{
    let q = spec_quote(c);
    let l = q.len();
    assert(forall|m: int| p <= m < p + l ==> #[trigger] s[m] == q[m - p]) by {
        assert(forall|m: int|
            p <= m < p + l ==> s.subrange(p, p + l)[m - p] == #[trigger] s[m]);
    }
    assert(s[p] == '"');
    assert(s.subrange(p + 1, p + l) =~= spec_escape(c) + seq!['"']) by {
        assert(forall|m: int|
            0 <= m < l - 1 ==> s.subrange(p + 1, p + l)[m] == #[trigger] s[p + 1 + m]);
    }
    lemma_string_body_inverts_escape(s, p + 1, c);
}

/// Whether the library's encoders can write `p`: they emit strings,
/// booleans and `null`.
pub open spec fn encodable_prim(p: PrimV) -> bool {
    p is Str || p is Bool || p is Null
}

/// The text the encoders write for a primitive value.
pub open spec fn spec_prim_text(p: PrimV) -> Seq<char> {
    match p {
        PrimV::Str(c) => spec_quote(c),
        PrimV::Bool(b) => if b {
            "true"@
        } else {
            "false"@
        },
        PrimV::Null => "null"@,
        _ => Seq::empty(),
    }
}

/// Reading an encoded primitive: wherever the text holds the written form
/// of `pv`, the primitive-value parser returns exactly `pv`.
pub proof fn lemma_prim_value_inverts(s: Seq<char>, p: int, pv: PrimV)
    requires
        encodable_prim(pv),
        0 <= p,
        p + spec_prim_text(pv).len() <= s.len(),
        s.subrange(p, p + spec_prim_text(pv).len()) == spec_prim_text(pv),
    ensures
        spec_prim_value(s, p) == Some((pv, p + spec_prim_text(pv).len())),
{
    let t = spec_prim_text(pv);
    let l = t.len();
    match pv {
        PrimV::Str(c) => {
            lemma_prim_value_inverts_quote(s, p, c);
        },
        PrimV::Bool(b) => {
            if b {
                reveal_strlit("true");
            } else {
                reveal_strlit("false");
            }
            assert(forall|m: int| p <= m < p + l ==> #[trigger] s[m] == t[m - p]) by {
                assert(forall|m: int|
                    p <= m < p + l ==> s.subrange(p, p + l)[m - p] == #[trigger] s[m]);
            }
            assert(s.subrange(p, p + l) =~= t);
        },
        PrimV::Null => {
            reveal_strlit("null");
            assert(forall|m: int| p <= m < p + l ==> #[trigger] s[m] == t[m - p]) by {
                assert(forall|m: int|
                    p <= m < p + l ==> s.subrange(p, p + l)[m - p] == #[trigger] s[m]);
            }
            assert(s.subrange(p, p + l) =~= t);
        },
        _ => {},
    }
}

/// The text the encoders write for one object member.
pub open spec fn spec_member_text(key: Seq<char>, pv: PrimV) -> Seq<char> {
    spec_quote(key) + seq![':'] + spec_prim_text(pv)
}

/// Reading one encoded member: wherever the text holds a member followed
/// by a comma or a closing brace, the member parser reads exactly that
/// member and continues accordingly.
#[verifier::rlimit(100)]
pub proof fn lemma_members_invert_one(s: Seq<char>, i: int, key: Seq<char>, pv: PrimV)
    requires
        encodable_prim(pv),
        0 <= i,
        i + spec_member_text(key, pv).len() + 1 <= s.len(),
        s.subrange(i, i + spec_member_text(key, pv).len()) == spec_member_text(key, pv),
        s[i + spec_member_text(key, pv).len()] == ',' || s[i + spec_member_text(key, pv).len()]
            == '}',
    ensures
        ({
            let w = i + spec_member_text(key, pv).len();
            if s[w] == '}' {
                spec_members(s, i) == Some((seq![(key, pv)], w + 1))
            } else {
                spec_members(s, i) == members_step(seq![(key, pv)], spec_members(s, w + 1))
            }
        }),
{
    reveal(spec_members);
    let lk = spec_quote(key).len();
    let lv = spec_prim_text(pv).len();
    let lm = lk + 1 + lv;
    let t = spec_member_text(key, pv);
    let w = i + lm;
    assert(forall|m: int| i <= m < i + lm ==> #[trigger] s[m] == t[m - i]) by {
        assert(forall|m: int|
            i <= m < i + lm ==> s.subrange(i, i + lm)[m - i] == #[trigger] s[m]);
    }
    // The key.
    assert(s.subrange(i, i + lk) =~= spec_quote(key)) by {
        assert(forall|m: int|
            0 <= m < lk ==> s.subrange(i, i + lk)[m] == #[trigger] s[i + m]);
    }
    assert(s[i] == '"');
    assert(spec_skip_ws(s, i) == i);
    assert(s.subrange(i + 1, i + lk) =~= spec_escape(key) + seq!['"']) by {
        assert(forall|m: int|
            0 <= m < lk - 1 ==> s.subrange(i + 1, i + lk)[m] == #[trigger] s[i + 1 + m]);
    }
    lemma_string_body_inverts_escape(s, i + 1, key);
    // The colon.
    assert(s[i + lk] == ':');
    assert(spec_skip_ws(s, i + lk) == i + lk);
    // The value.
    let p = i + lk + 1;
    assert(lv >= 1) by {
        match pv {
            PrimV::Bool(b) => if b {
                reveal_strlit("true");
            } else {
                reveal_strlit("false");
            },
            PrimV::Null => reveal_strlit("null"),
            _ => {},
        }
    }
    assert(s[p] == spec_prim_text(pv)[0]);
    assert(!is_ws(s[p])) by {
        match pv {
            PrimV::Bool(b) => if b {
                reveal_strlit("true");
            } else {
                reveal_strlit("false");
            },
            PrimV::Null => reveal_strlit("null"),
            _ => {},
        }
    }
    assert(spec_skip_ws(s, p) == p);
    assert(s.subrange(p, p + lv) =~= spec_prim_text(pv)) by {
        assert(forall|m: int|
            0 <= m < lv ==> s.subrange(p, p + lv)[m] == #[trigger] s[p + m]);
    }
    lemma_prim_value_inverts(s, p, pv);
    // The separator.
    assert(spec_skip_ws(s, w) == w);
    assert(spec_skip_ws(s, w + 1) >= 0) by {
        lemma_skip_ws_bounds(s, w + 1);
    }
}

/// Reading a two-member encoded object: the object parser returns exactly
/// its members.
#[verifier::rlimit(100)]
pub proof fn lemma_parse_object_two(
    s: Seq<char>,
    k1: Seq<char>,
    v1: PrimV,
    k2: Seq<char>,
    v2: PrimV,
)
    requires
        encodable_prim(v1),
        encodable_prim(v2),
        s == seq!['{'] + spec_member_text(k1, v1) + seq![','] + spec_member_text(k2, v2)
            + seq!['}'],
    ensures
        spec_parse_object(s) == Some(seq![(k1, v1), (k2, v2)]),
{
    let m1 = spec_member_text(k1, v1);
    let m2 = spec_member_text(k2, v2);
    let p1: int = 1;
    let p2: int = p1 + m1.len() + 1;
    let end: int = p2 + m2.len() + 1;
    assert(end == s.len());
    assert(s.subrange(p1, p1 + m1.len()) =~= m1);
    assert(s[p1 + m1.len()] == ',');
    assert(s.subrange(p2, p2 + m2.len()) =~= m2);
    assert(s[p2 + m2.len()] == '}');
    lemma_members_invert_one(s, p2, k2, v2);
    lemma_members_invert_one(s, p1, k1, v1);
    assert(spec_members(s, p2) == Some((seq![(k2, v2)], end)));
    assert(spec_members(s, p1) == Some((seq![(k1, v1)] + seq![(k2, v2)], end)));
    let l = seq![(k1, v1), (k2, v2)];
    assert(seq![(k1, v1)] + seq![(k2, v2)] =~= l);
    assert(s[0] == '{');
    assert(spec_skip_ws(s, 0) == 0);
    assert(s[1] == m1[0]);
    assert(s[1] == '"');
    assert(spec_skip_ws(s, 1) == 1);
    assert(spec_object_at(s, 0) == Some((l, end)));
    assert(spec_skip_ws(s, end) == end);
}

/// Reading a three-member encoded object: the object parser returns
/// exactly its members.
#[verifier::rlimit(100)]
pub proof fn lemma_parse_object_three(
    s: Seq<char>,
    k1: Seq<char>,
    v1: PrimV,
    k2: Seq<char>,
    v2: PrimV,
    k3: Seq<char>,
    v3: PrimV,
)
    requires
        encodable_prim(v1),
        encodable_prim(v2),
        encodable_prim(v3),
        s == seq!['{'] + spec_member_text(k1, v1) + seq![','] + spec_member_text(k2, v2)
            + seq![','] + spec_member_text(k3, v3) + seq!['}'],
    ensures
        spec_parse_object(s) == Some(seq![(k1, v1), (k2, v2), (k3, v3)]),
{
    let m1 = spec_member_text(k1, v1);
    let m2 = spec_member_text(k2, v2);
    let m3 = spec_member_text(k3, v3);
    let p1: int = 1;
    let p2: int = p1 + m1.len() + 1;
    let p3: int = p2 + m2.len() + 1;
    let end: int = p3 + m3.len() + 1;
    assert(end == s.len());
    assert(s.subrange(p1, p1 + m1.len()) =~= m1);
    assert(s[p1 + m1.len()] == ',');
    assert(s.subrange(p2, p2 + m2.len()) =~= m2);
    assert(s[p2 + m2.len()] == ',');
    assert(s.subrange(p3, p3 + m3.len()) =~= m3);
    assert(s[p3 + m3.len()] == '}');
    lemma_members_invert_one(s, p3, k3, v3);
    lemma_members_invert_one(s, p2, k2, v2);
    lemma_members_invert_one(s, p1, k1, v1);
    assert(spec_members(s, p3) == Some((seq![(k3, v3)], end)));
    assert(spec_members(s, p2) == Some((seq![(k2, v2)] + seq![(k3, v3)], end)));
    assert(spec_members(s, p1) == Some(
        (seq![(k1, v1)] + (seq![(k2, v2)] + seq![(k3, v3)]), end),
    ));
    let l = seq![(k1, v1), (k2, v2), (k3, v3)];
    assert(seq![(k1, v1)] + (seq![(k2, v2)] + seq![(k3, v3)]) =~= l);
    assert(s[0] == '{');
    assert(spec_skip_ws(s, 0) == 0);
    assert(s[1] == m1[0]);
    assert(s[1] == '"');
    assert(spec_skip_ws(s, 1) == 1);
    assert(spec_object_at(s, 0) == Some((l, end)));
    assert(spec_skip_ws(s, end) == end);
}

} // verus!
