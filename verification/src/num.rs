//! Decimal rendering and parsing of the numeric metadata fields.
//!
//! Comment-based tag formats store every value as text, so track numbers,
//! disc numbers and years travel through the decimal strings defined here.

use vstd::prelude::*;

verus! {

/// The character that renders a single decimal digit.
pub open spec fn digit_char(d: int) -> char {
    if d == 0 {
        '0'
    } else if d == 1 {
        '1'
    } else if d == 2 {
        '2'
    } else if d == 3 {
        '3'
    } else if d == 4 {
        '4'
    } else if d == 5 {
        '5'
    } else if d == 6 {
        '6'
    } else if d == 7 {
        '7'
    } else if d == 8 {
        '8'
    } else {
        '9'
    }
}

/// A decimal digit character.
pub open spec fn is_digit(c: char) -> bool {
    '0' as int <= c as int <= '9' as int
}

/// The numeric value of a single digit character.
pub open spec fn digit_val(c: char) -> int {
    c as int - '0' as int
}

/// Every character of `s` is a decimal digit.
pub open spec fn all_digits(s: Seq<char>) -> bool {
    forall|i: int| 0 <= i < s.len() ==> is_digit(#[trigger] s[i])
}

/// The numeric value of a digit string, most significant digit first.
pub open spec fn dec_value(s: Seq<char>) -> int
    decreases s.len(),
{
    if s.len() == 0 {
        0
    } else {
        dec_value(s.drop_last()) * 10 + digit_val(s.last())
    }
}

/// The canonical decimal rendering of `n`: no sign, no leading zeros
/// (a single zero renders as "0").
pub open spec fn dec_digits(n: nat) -> Seq<char>
    decreases n,
{
    if n < 10 {
        seq![digit_char(n as int)]
    } else {
        dec_digits(n / 10).push(digit_char((n % 10) as int))
    }
}

pub proof fn lemma_dec_digits_wf(n: nat)
    ensures
        dec_digits(n).len() >= 1,
        all_digits(dec_digits(n)),
        dec_value(dec_digits(n)) == n,
    decreases n,
{
    if n < 10 {
        let s = seq![digit_char(n as int)];
        assert(s.drop_last() =~= Seq::<char>::empty());
        assert(s.last() == digit_char(n as int));
        assert(digit_val(digit_char(n as int)) == n);
        assert(dec_value(s) == dec_value(Seq::<char>::empty()) * 10 + n);
    } else {
        lemma_dec_digits_wf(n / 10);
        let prefix = dec_digits(n / 10);
        let whole = prefix.push(digit_char((n % 10) as int));
        assert(whole.drop_last() =~= prefix);
        assert(dec_value(whole) == dec_value(prefix) * 10 + (n % 10));
    }
}

/// 10 to the power `k`.
pub open spec fn pow10(k: nat) -> int
    decreases k,
{
    if k == 0 {
        1
    } else {
        10 * pow10((k - 1) as nat)
    }
}

pub proof fn lemma_dec_digits_len(n: nat, k: nat)
    requires
        k >= 1,
        n < pow10(k),
    ensures
        dec_digits(n).len() <= k,
    decreases n,
{
    if n >= 10 {
        assert(pow10(k) == 10 * pow10((k - 1) as nat));
        lemma_dec_digits_len(n / 10, (k - 1) as nat);
    }
}

/// Digit strings only grow in value when digits are appended on the right.
pub proof fn lemma_dec_value_bounds(s: Seq<char>)
    requires
        all_digits(s),
    ensures
        0 <= dec_value(s),
        forall|j: int|
            0 <= j <= s.len() ==> dec_value(#[trigger] s.subrange(0, j)) <= dec_value(s),
    decreases s.len(),
{
    if s.len() == 0 {
        assert forall|j: int| 0 <= j <= s.len() implies dec_value(
            #[trigger] s.subrange(0, j),
        ) <= dec_value(s) by {
            assert(s.subrange(0, j) =~= s);
        }
    } else {
        let head = s.drop_last();
        assert(all_digits(head));
        lemma_dec_value_bounds(head);
        assert(dec_value(s) >= dec_value(head) * 10 + 0);
        assert forall|j: int| 0 <= j <= s.len() implies dec_value(
            #[trigger] s.subrange(0, j),
        ) <= dec_value(s) by {
            if j == s.len() {
                assert(s.subrange(0, j) =~= s);
            } else {
                assert(s.subrange(0, j) =~= head.subrange(0, j));
            }
        }
    }
}

/// The single-character string for one decimal digit.
fn digit_str(d: usize) -> (r: &'static str)
    requires
        d < 10,
    ensures
        r@ =~= seq![digit_char(d as int)],
{
    proof {
        reveal_strlit("0");
        reveal_strlit("1");
        reveal_strlit("2");
        reveal_strlit("3");
        reveal_strlit("4");
        reveal_strlit("5");
        reveal_strlit("6");
        reveal_strlit("7");
        reveal_strlit("8");
        reveal_strlit("9");
    }
    if d == 0 {
        "0"
    } else if d == 1 {
        "1"
    } else if d == 2 {
        "2"
    } else if d == 3 {
        "3"
    } else if d == 4 {
        "4"
    } else if d == 5 {
        "5"
    } else if d == 6 {
        "6"
    } else if d == 7 {
        "7"
    } else if d == 8 {
        "8"
    } else {
        "9"
    }
}

/// The value a decimal string denotes as an unsigned 16-bit number, where
/// an optional leading `+` is allowed and anything malformed or out of
/// range denotes nothing.
pub open spec fn parse_u16_spec(s: Seq<char>) -> Option<u16> {
    let body = if s.len() > 0 && s[0] == '+' {
        s.drop_first()
    } else {
        s
    };
    if body.len() > 0 && all_digits(body) && dec_value(body) <= 65535 {
        Some(dec_value(body) as u16)
    } else {
        None
    }
}

/// The value a decimal string denotes as a signed 32-bit number, where an
/// optional leading `+` or `-` is allowed and anything malformed or out of
/// range denotes nothing.
pub open spec fn parse_i32_spec(s: Seq<char>) -> Option<i32> {
    if s.len() == 0 {
        None
    } else {
        let negative = s[0] == '-';
        let body = if s[0] == '-' || s[0] == '+' {
            s.drop_first()
        } else {
            s
        };
        if body.len() > 0 && all_digits(body) {
            let v = if negative {
                -dec_value(body)
            } else {
                dec_value(body)
            };
            if -2147483648 <= v <= 2147483647 {
                Some(v as i32)
            } else {
                None
            }
        } else {
            None
        }
    }
}

/// Truncation of an integer to its low 16 bits, as storing it in an
/// unsigned 16-bit field does.
pub open spec fn u16_trunc(v: int) -> u16 {
    (v % 65536) as u16
}

/// Scans `s` from `start` as an unsigned decimal number no greater than
/// `limit`; returns its value, or `None` on a non-digit, an empty range
/// or overflow.
fn scan_digits(s: &str, start: usize, limit: u32) -> (r: Option<u32>)
    requires
        start <= s@.len(),
        limit <= 0x80000000u32,
    ensures
        ({
            let body = s@.subrange(start as int, s@.len() as int);
            match r {
                Some(v) => body.len() > 0 && all_digits(body) && v == dec_value(body) && v <= limit,
                None => !(body.len() > 0 && all_digits(body) && dec_value(body) <= limit),
            }
        }),
{
    let ghost body = s@.subrange(start as int, s@.len() as int);
    let len = s.unicode_len();
    if start == len {
        return None;
    }
    let mut acc: u32 = 0;
    let mut i: usize = start;
    while i < len
        invariant
            start <= i <= len,
            len == s@.len(),
            start < len,
            limit <= 0x80000000u32,
            body == s@.subrange(start as int, len as int),
            all_digits(s@.subrange(start as int, i as int)),
            acc == dec_value(s@.subrange(start as int, i as int)),
            acc <= limit,
        decreases len - i,
    {
        let c = s.get_char(i);
        let u = c as u32;
        if u < 48 || u > 57 {
            proof {
                assert(!is_digit(s@[i as int]));
                assert(body[i - start] == s@[i as int]);
            }
            return None;
        }
        let d: u32 = u - 48;
        proof {
            assert(is_digit(s@[i as int]));
            assert(s@.subrange(start as int, i + 1) =~= s@.subrange(start as int, i as int).push(
                s@[i as int],
            ));
            assert(s@.subrange(start as int, i + 1).drop_last() =~= s@.subrange(
                start as int,
                i as int,
            ));
            assert(dec_value(s@.subrange(start as int, i + 1)) == acc * 10 + d);
        }
        if acc > limit / 10 || (acc == limit / 10 && d > limit % 10) {
            proof {
                assert(acc * 10 + d > limit);
                if all_digits(body) {
                    lemma_dec_value_bounds(body);
                    assert(body.subrange(0, i + 1 - start) =~= s@.subrange(start as int, i + 1));
                    assert(dec_value(body) >= acc * 10 + d);
                }
            }
            return None;
        }
        acc = acc * 10 + d;
        i += 1;
    }
    proof {
        assert(s@.subrange(start as int, i as int) =~= body);
    }
    Some(acc)
}

/// Parses a decimal string as an unsigned 16-bit number.
pub fn parse_u16(s: &str) -> (r: Option<u16>)
    ensures
        r == parse_u16_spec(s@),
{
    let len = s.unicode_len();
    if len == 0 {
        return None;
    }
    let first = s.get_char(0);
    let start: usize = if first == '+' {
        1
    } else {
        0
    };
    proof {
        if start == 1 {
            assert(s@.subrange(1, s@.len() as int) =~= s@.drop_first());
        } else {
            assert(s@.subrange(0, s@.len() as int) =~= s@);
        }
    }
    match scan_digits(s, start, 65535) {
        Some(v) => Some(v as u16),
        None => None,
    }
}

/// Parses a decimal string as a signed 32-bit number.
pub fn parse_i32(s: &str) -> (r: Option<i32>)
    ensures
        r == parse_i32_spec(s@),
{
    let len = s.unicode_len();
    if len == 0 {
        return None;
    }
    let first = s.get_char(0);
    let negative = first == '-';
    let start: usize = if first == '-' || first == '+' {
        1
    } else {
        0
    };
    proof {
        if start == 1 {
            assert(s@.subrange(1, s@.len() as int) =~= s@.drop_first());
        } else {
            assert(s@.subrange(0, s@.len() as int) =~= s@);
        }
    }
    let limit: u32 = if negative {
        0x80000000
    } else {
        0x7fffffff
    };
    match scan_digits(s, start, limit) {
        Some(v) => {
            if negative {
                if v == 0x80000000 {
                    Some(i32::MIN)
                } else {
                    Some(-(v as i32))
                }
            } else {
                Some(v as i32)
            }
        },
        None => None,
    }
}

/// Truncates a signed 32-bit number to its low 16 bits, as storing it in
/// an unsigned 16-bit field does.
pub fn trunc_u16(v: i32) -> (r: u16)
    ensures
        r == u16_trunc(v as int),
{
    if v >= 0 {
        let m: u32 = (v as u32) % 65536;
        m as u16
    } else {
        let mag: u32 = (-(v as i64)) as u32;
        let m: u32 = mag % 65536;
        proof {
            let q = mag as int / 65536;
            assert(mag as int == q * 65536 + m) by (nonlinear_arith)
                requires
                    m == mag as int % 65536,
                    q == mag as int / 65536,
            ;
            if m == 0 {
                assert((-(mag as int)) % 65536 == 0) by (nonlinear_arith)
                    requires
                        mag as int == q * 65536,
                ;
            } else {
                assert((-(mag as int)) % 65536 == 65536 - m) by (nonlinear_arith)
                    requires
                        mag as int == q * 65536 + m,
                        0 < m < 65536,
                ;
            }
        }
        if m == 0 {
            0
        } else {
            (65536 - m) as u16
        }
    }
}

/// The canonical decimal rendering of a 16-bit number parses back to the
/// same number.
pub proof fn lemma_parse_u16_of_digits(n: u16)
    ensures
        parse_u16_spec(dec_digits(n as nat)) == Some(n),
{
    lemma_dec_digits_wf(n as nat);
    let s = dec_digits(n as nat);
    assert(is_digit(s[0]));
    assert(s[0] != '+');
}

/// The canonical decimal rendering of a 16-bit number parses back to it
/// as a signed 32-bit number too.
pub proof fn lemma_parse_i32_of_digits(n: u16)
    ensures
        parse_i32_spec(dec_digits(n as nat)) == Some(n as i32),
{
    lemma_dec_digits_wf(n as nat);
    let s = dec_digits(n as nat);
    assert(is_digit(s[0]));
    assert(s[0] != '+' && s[0] != '-');
}

/// Renders `v` as its canonical decimal string.
pub fn u16_to_string(v: u16) -> (r: String)
    ensures
        r@ == dec_digits(v as nat),
    decreases v,
{
    let d = (v % 10) as usize;
    let ds = digit_str(d);
    if v < 10 {
        ds.to_owned()
    } else {
        let mut s = u16_to_string(v / 10);
        s.append(ds);
        proof {
            assert(dec_digits((v / 10) as nat) + seq![digit_char(d as int)] =~= dec_digits(
                (v / 10) as nat,
            ).push(digit_char(d as int)));
        }
        s
    }
}

} // verus!
