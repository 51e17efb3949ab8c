//! Verified numeric text: fixed-width hexadecimal encoding and decoding of
//! IEEE-754 bit patterns, and decimal parsing of 64-bit integers.

use vstd::prelude::*;
use vstd::string::*;

verus! {

broadcast use vstd::seq::group_seq_axioms;

pub open spec fn pow16(k: int) -> int
    decreases k,
{
    if k <= 0 {
        1
    } else {
        16 * pow16(k - 1)
    }
}

/// Lowercase hexadecimal digit for a value below sixteen.
pub open spec fn hex_digit(n: int) -> char {
    if n == 0 {
        '0'
    } else if n == 1 {
        '1'
    } else if n == 2 {
        '2'
    } else if n == 3 {
        '3'
    } else if n == 4 {
        '4'
    } else if n == 5 {
        '5'
    } else if n == 6 {
        '6'
    } else if n == 7 {
        '7'
    } else if n == 8 {
        '8'
    } else if n == 9 {
        '9'
    } else if n == 10 {
        'a'
    } else if n == 11 {
        'b'
    } else if n == 12 {
        'c'
    } else if n == 13 {
        'd'
    } else if n == 14 {
        'e'
    } else {
        'f'
    }
}

/// Value of a hexadecimal digit; uppercase and lowercase are both accepted.
pub open spec fn hex_val(c: char) -> Option<int> {
    if '0' <= c && c <= '9' {
        Some((c as int) - ('0' as int))
    } else if 'a' <= c && c <= 'f' {
        Some((c as int) - ('a' as int) + 10)
    } else if 'A' <= c && c <= 'F' {
        Some((c as int) - ('A' as int) + 10)
    } else {
        None
    }
}

/// `nd` lowercase hexadecimal digits of `b`, most significant first.
pub open spec fn hex_seq(b: int, nd: int) -> Seq<char>
    decreases nd,
{
    if nd <= 0 {
        Seq::empty()
    } else {
        hex_seq(b / 16, nd - 1).push(hex_digit(b % 16))
    }
}

/// Value of a sequence of hexadecimal digits, most significant first.
pub open spec fn hex_seq_val(s: Seq<char>) -> int
    decreases s.len(),
{
    if s.len() == 0 {
        0
    } else {
        hex_seq_val(s.drop_last()) * 16 + (match hex_val(s.last()) {
            Some(v) => v,
            None => 0,
        })
    }
}

pub open spec fn all_hex(s: Seq<char>) -> bool {
    forall|i: int| 0 <= i < s.len() ==> hex_val(s[i]) is Some
}

/// Reading exactly `nd` hexadecimal digits: the parse of the fixed-width hex
/// forms. Any other length, or any non-hexadecimal character, is rejected.
pub open spec fn hex_parse_spec(s: Seq<char>, nd: int) -> Option<int> {
    if s.len() == nd && all_hex(s) {
        Some(hex_seq_val(s))
    } else {
        None
    }
}

pub proof fn lemma_pow16_le(i: int, j: int)
    requires
        0 <= i <= j,
    ensures
        0 < pow16(i) <= pow16(j),
    decreases j,
{
    if i < j {
        lemma_pow16_le(i, j - 1);
    } else if j > 0 {
        lemma_pow16_le(i - 1, j - 1);
    }
}

pub proof fn lemma_pow16_16()
    ensures
        pow16(8) == 0x100000000,
        pow16(16) == 0x10000000000000000,
{
    assert(pow16(0) == 1);
    assert(pow16(1) == 16);
    assert(pow16(2) == 0x100);
    assert(pow16(3) == 0x1000);
    assert(pow16(4) == 0x10000);
    assert(pow16(5) == 0x100000);
    assert(pow16(6) == 0x1000000);
    assert(pow16(7) == 0x10000000);
    assert(pow16(8) == 0x100000000);
    assert(pow16(9) == 0x1000000000);
    assert(pow16(10) == 0x10000000000);
    assert(pow16(11) == 0x100000000000);
    assert(pow16(12) == 0x1000000000000);
    assert(pow16(13) == 0x10000000000000);
    assert(pow16(14) == 0x100000000000000);
    assert(pow16(15) == 0x1000000000000000);
    assert(pow16(16) == 0x10000000000000000);
}

pub proof fn lemma_hex_seq_len(b: int, nd: int)
    ensures
        hex_seq(b, nd).len() == if nd <= 0 { 0int } else { nd },
        all_hex(hex_seq(b, nd)),
    decreases nd,
{
    if nd > 0 {
        lemma_hex_seq_len(b / 16, nd - 1);
        let s = hex_seq(b, nd);
        let t = hex_seq(b / 16, nd - 1);
        assert(0 <= b % 16 < 16);
        assert forall|i: int| 0 <= i < s.len() implies hex_val(s[i]) is Some by {
            if i < s.len() - 1 {
                assert(s[i] == t[i]);
            }
        }
    }
}

/// Each produced digit reads back as its value.
pub proof fn lemma_hex_digit_val(n: int)
    requires
        0 <= n < 16,
    ensures
        hex_val(hex_digit(n)) == Some(n),
{
}

/// Encoding then parsing a bit pattern gives it back.
pub proof fn lemma_hex_round_trip(b: int, nd: int)
    requires
        0 <= nd,
        0 <= b < pow16(nd),
    ensures
        hex_seq(b, nd).len() == nd,
        all_hex(hex_seq(b, nd)),
        hex_seq_val(hex_seq(b, nd)) == b,
        hex_parse_spec(hex_seq(b, nd), nd) == Some(b),
    decreases nd,
{
    if nd == 0 {
    } else {
        lemma_hex_round_trip(b / 16, nd - 1);
        let s = hex_seq(b, nd);
        let t = hex_seq(b / 16, nd - 1);
        assert(s == t.push(hex_digit(b % 16)));
        assert(s.drop_last() =~= t);
        lemma_hex_digit_val(b % 16);
        assert forall|i: int| 0 <= i < s.len() implies hex_val(s[i]) is Some by {
            if i < s.len() - 1 {
                assert(s[i] == t[i]);
            }
        }
        assert(hex_seq_val(s) == hex_seq_val(t) * 16 + b % 16);
    }
}

fn hex_digit_push(out: &mut String, n: u64)
    requires
        n < 16,
    ensures
        final(out)@ == old(out)@ + seq![hex_digit(n as int)],
{
    if n == 0 {
        out.append("0");
        proof {
            reveal_strlit("0");
            assert(out@ =~= old(out)@ + seq![hex_digit(n as int)]);
        }
    } else if n == 1 {
        out.append("1");
        proof {
            reveal_strlit("1");
            assert(out@ =~= old(out)@ + seq![hex_digit(n as int)]);
        }
    } else if n == 2 {
        out.append("2");
        proof {
            reveal_strlit("2");
            assert(out@ =~= old(out)@ + seq![hex_digit(n as int)]);
        }
    } else if n == 3 {
        out.append("3");
        proof {
            reveal_strlit("3");
            assert(out@ =~= old(out)@ + seq![hex_digit(n as int)]);
        }
    } else if n == 4 {
        out.append("4");
        proof {
            reveal_strlit("4");
            assert(out@ =~= old(out)@ + seq![hex_digit(n as int)]);
        }
    } else if n == 5 {
        out.append("5");
        proof {
            reveal_strlit("5");
            assert(out@ =~= old(out)@ + seq![hex_digit(n as int)]);
        }
    } else if n == 6 {
        out.append("6");
        proof {
            reveal_strlit("6");
            assert(out@ =~= old(out)@ + seq![hex_digit(n as int)]);
        }
    } else if n == 7 {
        out.append("7");
        proof {
            reveal_strlit("7");
            assert(out@ =~= old(out)@ + seq![hex_digit(n as int)]);
        }
    } else if n == 8 {
        out.append("8");
        proof {
            reveal_strlit("8");
            assert(out@ =~= old(out)@ + seq![hex_digit(n as int)]);
        }
    } else if n == 9 {
        out.append("9");
        proof {
            reveal_strlit("9");
            assert(out@ =~= old(out)@ + seq![hex_digit(n as int)]);
        }
    } else if n == 10 {
        out.append("a");
        proof {
            reveal_strlit("a");
            assert(out@ =~= old(out)@ + seq![hex_digit(n as int)]);
        }
    } else if n == 11 {
        out.append("b");
        proof {
            reveal_strlit("b");
            assert(out@ =~= old(out)@ + seq![hex_digit(n as int)]);
        }
    } else if n == 12 {
        out.append("c");
        proof {
            reveal_strlit("c");
            assert(out@ =~= old(out)@ + seq![hex_digit(n as int)]);
        }
    } else if n == 13 {
        out.append("d");
        proof {
            reveal_strlit("d");
            assert(out@ =~= old(out)@ + seq![hex_digit(n as int)]);
        }
    } else if n == 14 {
        out.append("e");
        proof {
            reveal_strlit("e");
            assert(out@ =~= old(out)@ + seq![hex_digit(n as int)]);
        }
    } else {
        out.append("f");
        proof {
            reveal_strlit("f");
            assert(out@ =~= old(out)@ + seq![hex_digit(n as int)]);
        }
    }
}

/// Append the `nd`-digit hexadecimal form of `b`.
pub fn hex_append(out: &mut String, b: u64, nd: usize)
    requires
        nd <= 16,
    ensures
        final(out)@ == old(out)@ + hex_seq(b as int, nd as int),
    decreases nd,
{
    if nd > 0 {
        hex_append(out, b / 16, nd - 1);
        hex_digit_push(out, b % 16);
        assert(out@ =~= old(out)@ + hex_seq(b as int, nd as int));
    } else {
        assert(out@ =~= old(out)@ + hex_seq(b as int, 0));
    }
}

fn hex_val_char(c: char) -> (r: Option<u64>)
    ensures
        match r {
            Some(v) => hex_val(c) == Some(v as int) && v < 16,
            None => hex_val(c) is None,
        },
{
    if '0' <= c && c <= '9' {
        Some((c as u64) - ('0' as u64))
    } else if 'a' <= c && c <= 'f' {
        Some((c as u64) - ('a' as u64) + 10)
    } else if 'A' <= c && c <= 'F' {
        Some((c as u64) - ('A' as u64) + 10)
    } else {
        None
    }
}

/// Parse exactly `nd` hexadecimal digits into a value.
#[verifier::loop_isolation(false)]
pub fn hex_parse(s: &str, nd: usize) -> (r: Option<u64>)
    requires
        nd == 8 || nd == 16,
    ensures
        match r {
            Some(v) => hex_parse_spec(s@, nd as int) == Some(v as int),
            None => hex_parse_spec(s@, nd as int) is None,
        },
{
    let n = s.unicode_len();
    if n != nd {
        return None;
    }
    let mut acc: u64 = 0;
    let mut i: usize = 0;
    proof {
        lemma_pow16_16();
    }
    while i < nd
        invariant
            0 <= i <= nd,
            forall|j: int| 0 <= j < i ==> hex_val(s@[j]) is Some,
            acc as int == hex_seq_val(s@.subrange(0, i as int)),
            (acc as int) < pow16(i as int),
        decreases nd - i,
    {
        let c = s.get_char(i);
        match hex_val_char(c) {
            None => {
                return None;
            },
            Some(d) => {
                proof {
                    lemma_pow16_le(i as int + 1, nd as int);
                    assert(s@.subrange(0, i as int + 1).drop_last() =~= s@.subrange(0, i as int));
                }
                acc = acc * 16 + d;
                i = i + 1;
            },
        }
    }
    proof {
        assert(s@.subrange(0, nd as int) =~= s@);
    }
    Some(acc)
}

pub open spec fn is_digit(c: char) -> bool {
    '0' <= c && c <= '9'
}

pub open spec fn all_digits(s: Seq<char>) -> bool {
    forall|i: int| 0 <= i < s.len() ==> is_digit(s[i])
}

/// Value of a sequence of decimal digits, most significant first.
pub open spec fn dec_val(s: Seq<char>) -> int
    decreases s.len(),
{
    if s.len() == 0 {
        0
    } else {
        dec_val(s.drop_last()) * 10 + ((s.last() as int) - ('0' as int))
    }
}

/// Reading an unsigned 64-bit integer, as `str::parse` does: an optional
/// leading `+`, then one or more decimal digits, with the value in range.
pub open spec fn parse_u64_spec(s: Seq<char>) -> Option<u64> {
    let body = if s.len() > 0 && s[0] == '+' {
        s.drop_first()
    } else {
        s
    };
    if body.len() > 0 && all_digits(body) && dec_val(body) <= u64::MAX {
        Some(dec_val(body) as u64)
    } else {
        None
    }
}

/// Reading a signed 64-bit integer, as `str::parse` does: an optional sign,
/// then one or more decimal digits, with the value in range.
pub open spec fn parse_i64_spec(s: Seq<char>) -> Option<i64> {
    let neg = s.len() > 0 && s[0] == '-';
    let body = if s.len() > 0 && (s[0] == '-' || s[0] == '+') {
        s.drop_first()
    } else {
        s
    };
    if body.len() > 0 && all_digits(body) && (if neg {
        dec_val(body) <= 0x8000000000000000
    } else {
        dec_val(body) <= i64::MAX
    }) {
        Some((if neg {
            -dec_val(body)
        } else {
            dec_val(body)
        }) as i64)
    } else {
        None
    }
}

pub proof fn lemma_dec_val_nonneg(s: Seq<char>)
    requires
        all_digits(s),
    ensures
        dec_val(s) >= 0,
    decreases s.len(),
{
    if s.len() > 0 {
        assert(all_digits(s.drop_last())) by {
            assert(forall|i: int|
                0 <= i < s.len() - 1 ==> s.drop_last()[i] == s[i] && is_digit(s[i]));
        }
        lemma_dec_val_nonneg(s.drop_last());
    }
}

/// A longer digit string never has a smaller value.
pub proof fn lemma_dec_val_monotone(s: Seq<char>, i: int)
    requires
        all_digits(s),
        0 <= i <= s.len(),
    ensures
        dec_val(s) >= dec_val(s.subrange(0, i)),
    decreases s.len() - i,
{
    if i == s.len() {
        assert(s.subrange(0, i) =~= s);
    } else {
        lemma_dec_val_monotone(s, i + 1);
        let t = s.subrange(0, i + 1);
        assert(t.drop_last() =~= s.subrange(0, i));
        assert(all_digits(s.subrange(0, i))) by {
            assert(forall|j: int|
                0 <= j < i ==> s.subrange(0, i)[j] == s[j] && is_digit(s[j]));
        }
        lemma_dec_val_nonneg(s.subrange(0, i));
        assert(dec_val(t) == dec_val(s.subrange(0, i)) * 10 + ((s[i] as int) - ('0' as int)));
    }
}

/// Parse the decimal digits of `s` beginning at `from`, exactly as the digit
/// body of `str::parse` for unsigned integers, refusing values above `limit`.
#[verifier::loop_isolation(false)]
fn parse_digits(s: &str, from: usize, limit: u64) -> (r: Option<u64>)
    requires
        from <= s@.len(),
        limit >= 9,
    ensures
        ({
            let body = s@.subrange(from as int, s@.len() as int);
            match r {
                Some(v) => body.len() > 0 && all_digits(body) && dec_val(body) == v as int && v
                    <= limit,
                None => !(body.len() > 0 && all_digits(body) && dec_val(body) <= limit),
            }
        }),
{
    let n = s.unicode_len();
    if from == n {
        return None;
    }
    let ghost body = s@.subrange(from as int, s@.len() as int);
    let mut acc: u64 = 0;
    let mut i: usize = from;
    while i < n
        invariant
            from <= i <= n,
            forall|j: int| 0 <= j < i - from ==> is_digit(body[j]),
            acc as int == dec_val(body.subrange(0, i - from)),
            acc <= limit,
        decreases n - i,
    {
        let c = s.get_char(i);
        if !('0' <= c && c <= '9') {
            proof {
                assert(body[i - from] == s@[i as int]);
                assert(!is_digit(body[i - from]));
            }
            return None;
        }
        let d = (c as u64) - ('0' as u64);
        proof {
            assert(body[i - from] == s@[i as int]);
            assert(body.subrange(0, i - from + 1).drop_last() =~= body.subrange(0, i - from));
        }
        if acc > (limit - d) / 10 {
            proof {
                let pre = body.subrange(0, i - from + 1);
                assert(dec_val(pre) == acc as int * 10 + d);
                assert(acc as int * 10 + d > limit) by {
                    assert(acc as int >= (limit - d) as int / 10 + 1);
                    assert((((limit - d) as int / 10) + 1) * 10 > (limit - d) as int) by {
                        assert((limit - d) as int / 10 * 10 + (limit - d) as int % 10 == (limit
                            - d) as int);
                    }
                }
                if all_digits(body) {
                    lemma_dec_val_monotone(body, i - from + 1);
                }
            }
            return None;
        }
        acc = acc * 10 + d;
        i = i + 1;
    }
    proof {
        assert(body.subrange(0, n - from) =~= body);
    }
    Some(acc)
}

/// Read an unsigned 64-bit integer as `str::parse` would.
pub fn parse_u64(s: &str) -> (r: Option<u64>)
    ensures
        r == parse_u64_spec(s@),
{
    let n = s.unicode_len();
    let from: usize = if n > 0 && s.get_char(0) == '+' {
        1
    } else {
        0
    };
    proof {
        if from == 1 {
            assert(s@.subrange(1, s@.len() as int) =~= s@.drop_first());
        } else {
            assert(s@.subrange(0, s@.len() as int) =~= s@);
        }
    }
    parse_digits(s, from, u64::MAX)
}

/// Read a signed 64-bit integer as `str::parse` would.
pub fn parse_i64(s: &str) -> (r: Option<i64>)
    ensures
        r == parse_i64_spec(s@),
{
    let n = s.unicode_len();
    let neg = n > 0 && s.get_char(0) == '-';
    let from: usize = if n > 0 && (s.get_char(0) == '-' || s.get_char(0) == '+') {
        1
    } else {
        0
    };
    proof {
        if from == 1 {
            assert(s@.subrange(1, s@.len() as int) =~= s@.drop_first());
        } else {
            assert(s@.subrange(0, s@.len() as int) =~= s@);
        }
    }
    let limit: u64 = if neg {
        0x8000000000000000
    } else {
        0x7fffffffffffffff
    };
    match parse_digits(s, from, limit) {
        None => None,
        Some(v) => {
            if neg {
                if v == 0x8000000000000000 {
                    Some(i64::MIN)
                } else {
                    Some(-(v as i64))
                }
            } else {
                Some(v as i64)
            }
        },
    }
}

} // verus!
