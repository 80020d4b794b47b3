//! Decimal rendering and parsing of integers, used for the public id codec
//! (ids travel through the hash codec as decimal digit strings) and for
//! client-facing messages.

use vstd::prelude::*;
use vstd::string::*;

verus! {

/// The character for a single decimal digit value.
pub open spec fn digit_char(d: int) -> char {
    if d == 0 {
        '0'
    } else if d == 1 {
        '1'
    } else if d == 2 {
        '2'
    } else if d == 3 {
        '3'
    } else if d == 4 {
        '4'
    } else if d == 5 {
        '5'
    } else if d == 6 {
        '6'
    } else if d == 7 {
        '7'
    } else if d == 8 {
        '8'
    } else {
        '9'
    }
}

pub open spec fn is_dec_digit(c: char) -> bool {
    '0' <= c && c <= '9'
}

/// The numeric value of a decimal digit character.
pub open spec fn digit_val(c: char) -> int {
    c as int - 48
}

/// The canonical decimal representation of a non-negative integer:
/// no sign, no leading zeroes (except for zero itself).
pub open spec fn dec_rep(n: int) -> Seq<char>
    decreases n,
{
    if n <= 0 {
        seq!['0']
    } else if n < 10 {
        seq![digit_char(n)]
    } else {
        dec_rep(n / 10).push(digit_char(n % 10))
    }
}

/// The decimal representation of a possibly negative integer.
pub open spec fn dec_rep_signed(n: int) -> Seq<char> {
    if n < 0 {
        seq!['-'] + dec_rep(-n)
    } else {
        dec_rep(n)
    }
}

pub open spec fn all_dec_digits(s: Seq<char>) -> bool {
    forall|i: int| 0 <= i < s.len() ==> is_dec_digit(#[trigger] s[i])
}

/// The value of a string of decimal digits (most significant first).
pub open spec fn dec_val(s: Seq<char>) -> int
    decreases s.len(),
{
    if s.len() == 0 {
        0
    } else {
        dec_val(s.drop_last()) * 10 + digit_val(s.last())
    }
}

/// What parsing a decimal digit string as an `i32` yields: the value when
/// the string is non-empty, all digits, and in range; nothing otherwise.
pub open spec fn parse_dec_i32(s: Seq<char>) -> Option<i32> {
    if s.len() > 0 && all_dec_digits(s) && dec_val(s) <= i32::MAX {
        Some(dec_val(s) as i32)
    } else {
        None
    }
}

/// As `parse_dec_i32`, against the `i64` range.
pub open spec fn parse_dec_i64(s: Seq<char>) -> Option<i64> {
    if s.len() > 0 && all_dec_digits(s) && dec_val(s) <= i64::MAX {
        Some(dec_val(s) as i64)
    } else {
        None
    }
}

/// What parsing an optionally signed decimal string as an `i32` yields:
/// an optional leading `-` or `+`, then digits, the value in range.
pub open spec fn parse_signed_i32(s: Seq<char>) -> Option<i32> {
    if s.len() >= 2 && s[0] == '-' {
        match parse_dec_i64(s.skip(1)) {
            Some(v) => if v <= 2147483648 {
                Some((-v) as i32)
            } else {
                None
            },
            None => None,
        }
    } else if s.len() >= 2 && s[0] == '+' {
        parse_dec_i32(s.skip(1))
    } else {
        parse_dec_i32(s)
    }
}

/// What parsing an optionally signed decimal string as an `i64` yields.
/// (The one value whose magnitude has no `i64` form, the minimum itself,
/// is rejected.)
pub open spec fn parse_signed_i64(s: Seq<char>) -> Option<i64> {
    if s.len() >= 2 && s[0] == '-' {
        match parse_dec_i64(s.skip(1)) {
            Some(v) => Some((-v) as i64),
            None => None,
        }
    } else if s.len() >= 2 && s[0] == '+' {
        parse_dec_i64(s.skip(1))
    } else {
        parse_dec_i64(s)
    }
}

proof fn lemma_dec_val_snoc(s: Seq<char>, c: char)
    ensures
        dec_val(s.push(c)) == dec_val(s) * 10 + digit_val(c),
{
    assert(s.push(c).drop_last() =~= s);
    assert(s.push(c).last() == c);
}

proof fn lemma_dec_val_nonneg(s: Seq<char>)
    requires
        all_dec_digits(s),
    ensures
        dec_val(s) >= 0,
    decreases s.len(),
{
    if s.len() > 0 {
        assert(all_dec_digits(s.drop_last()));
        lemma_dec_val_nonneg(s.drop_last());
        assert(is_dec_digit(s.last()));
    }
}

/// A digit string is worth at least any of its prefixes.
proof fn lemma_dec_val_prefix(s: Seq<char>, i: int)
    requires
        0 <= i <= s.len(),
        all_dec_digits(s),
    ensures
        dec_val(s) >= dec_val(s.take(i)),
    decreases s.len() - i,
{
    if i < s.len() {
        assert(all_dec_digits(s.take(i)));
        lemma_dec_val_nonneg(s.take(i));
        assert(s.take(i + 1).drop_last() =~= s.take(i));
        assert(s.take(i + 1).last() == s[i]);
        assert(is_dec_digit(s[i]));
        assert(dec_val(s.take(i + 1)) == dec_val(s.take(i)) * 10 + digit_val(s[i]));
        lemma_dec_val_prefix(s, i + 1);
    } else {
        assert(s.take(i) =~= s);
    }
}

/// The canonical representation consists of digits, is non-empty, has no
/// leading zero (unless it is "0"), and evaluates back to its number.
pub proof fn lemma_dec_rep_val(n: int)
    requires
        n >= 0,
    ensures
        all_dec_digits(dec_rep(n)),
        dec_rep(n).len() >= 1,
        dec_val(dec_rep(n)) == n,
        dec_rep(n).len() > 1 ==> dec_rep(n)[0] != '0',
        n > 0 ==> dec_rep(n)[0] != '0',
    decreases n,
{
    if n < 10 {
        let s = dec_rep(n);
        assert(s =~= seq![digit_char(n)]);
        assert(s.drop_last() =~= Seq::<char>::empty());
        assert(dec_val(s) == dec_val(s.drop_last()) * 10 + digit_val(s.last()));
    } else {
        lemma_dec_rep_val(n / 10);
        let s = dec_rep(n / 10);
        let c = digit_char(n % 10);
        lemma_dec_val_snoc(s, c);
        assert(0 <= n % 10 < 10);
        assert(digit_val(c) == n % 10);
        assert(dec_val(s) * 10 + digit_val(c) == (n / 10) * 10 + n % 10);
        assert((n / 10) * 10 + n % 10 == n) by (nonlinear_arith);
        assert(forall|i: int| 0 <= i < s.push(c).len() ==> is_dec_digit(#[trigger] s.push(c)[i]));
        assert(n / 10 > 0);
        assert(dec_rep(n)[0] == s[0]);
    }
}

/// Parsing the canonical decimal representation of `n` recovers `n`.
///
/// This is the verified half of the published-id round trip: the codec
/// turns an id into its decimal digits before hashing, and turns the
/// digits a decode returns back into an id by this parse.
pub proof fn lemma_decimal_round_trip(n: int)
    requires
        0 <= n <= i32::MAX,
    ensures
        parse_dec_i32(dec_rep(n)) == Some(n as i32),
{
    lemma_dec_rep_val(n);
}

/// A successful parse is never negative: the grammar has no sign.
pub proof fn lemma_parse_nonneg(s: Seq<char>)
    ensures
        parse_dec_i32(s) matches Some(v) ==> v >= 0,
{
    if s.len() > 0 && all_dec_digits(s) && dec_val(s) <= i32::MAX {
        lemma_dec_val_nonneg(s);
    }
}

/// Renders a digit as a one-character string slice.
fn digit_str(d: u64) -> (s: &'static str)
    requires
        d < 10,
    ensures
        s@ =~= seq![digit_char(d as int)],
{
    proof {
        reveal_strlit("0");
        reveal_strlit("1");
        reveal_strlit("2");
        reveal_strlit("3");
        reveal_strlit("4");
        reveal_strlit("5");
        reveal_strlit("6");
        reveal_strlit("7");
        reveal_strlit("8");
        reveal_strlit("9");
    }
    match d {
        0 => "0",
        1 => "1",
        2 => "2",
        3 => "3",
        4 => "4",
        5 => "5",
        6 => "6",
        7 => "7",
        8 => "8",
        _ => "9",
    }
}

/// The digit characters of `ds` in reverse order (`ds` holds digits least
/// significant first, as a conversion loop produces them).
spec fn rev_digit_chars(ds: Seq<u64>) -> Seq<char> {
    Seq::new(ds.len(), |i: int| digit_char(ds[ds.len() - 1 - i] as int))
}

pub fn u64_to_string(n: u64) -> (s: String)
    ensures
        s@ == dec_rep(n as int),
{
    if n == 0 {
        proof {
            reveal_strlit("0");
        }
        let zero = "0".to_owned();
        proof {
            assert(zero@ =~= dec_rep(0));
        }
        return zero;
    }
    let mut digs: Vec<u64> = Vec::new();
    let mut m: u64 = n;
    while m > 0
        invariant
            n > 0,
            dec_rep(n as int) =~= (if m > 0 {
                dec_rep(m as int)
            } else {
                Seq::<char>::empty()
            }) + rev_digit_chars(digs@),
            forall|j: int| 0 <= j < digs@.len() ==> #[trigger] digs@[j] < 10,
        decreases m,
    {
        let d = m % 10;
        let ghost old_digs = digs@;
        let ghost old_m = m as int;
        digs.push(d);
        m = m / 10;
        proof {
            assert(rev_digit_chars(old_digs.push(d)) =~= seq![digit_char(d as int)]
                + rev_digit_chars(old_digs));
            // dec_rep(old_m) splits into its leading part and its last digit
            if old_m >= 10 {
                assert(dec_rep(old_m) == dec_rep(old_m / 10).push(digit_char(old_m % 10)));
                assert(dec_rep(old_m / 10).push(digit_char(old_m % 10)) =~= dec_rep(old_m / 10)
                    + seq![digit_char(old_m % 10)]);
                assert(m > 0);
            } else {
                assert(m == 0);
                assert(dec_rep(old_m) =~= seq![digit_char(old_m % 10)]);
            }
            assert(dec_rep(n as int) =~= (if m > 0 {
                dec_rep(m as int)
            } else {
                Seq::<char>::empty()
            }) + rev_digit_chars(digs@));
        }
    }
    proof {
        assert(dec_rep(n as int) =~= rev_digit_chars(digs@));
    }
    let mut out = String::new();
    let count = digs.len();
    let mut done: usize = 0;
    while done < count
        invariant
            count == digs@.len(),
            0 <= done <= count,
            forall|j: int| 0 <= j < digs@.len() ==> #[trigger] digs@[j] < 10,
            out@ =~= rev_digit_chars(digs@).take(done as int),
        decreases count - done,
    {
        let idx = count - 1 - done;
        let piece = digit_str(digs[idx]);
        out.append(piece);
        done += 1;
        proof {
            assert(rev_digit_chars(digs@).take(done as int) =~= rev_digit_chars(digs@).take(
                done as int - 1,
            ).push(digit_char(digs@[count - (done as int)] as int)));
        }
    }
    proof {
        assert(out@ =~= rev_digit_chars(digs@));
    }
    out
}

pub fn u32_to_string(n: u32) -> (s: String)
    ensures
        s@ == dec_rep(n as int),
{
    u64_to_string(n as u64)
}

/// Renders an `i32` in decimal, sign included.
pub fn i32_to_string(n: i32) -> (s: String)
    ensures
        s@ == dec_rep_signed(n as int),
{
    if n >= 0 {
        u64_to_string(n as u64)
    } else {
        let mag: u64 = (-(n as i64)) as u64;
        let digits = u64_to_string(mag);
        let mut out = "-".to_owned();
        proof {
            reveal_strlit("-");
        }
        out.append(digits.as_str());
        proof {
            assert(out@ =~= seq!['-'] + dec_rep(-(n as int)));
        }
        out
    }
}

/// Parses a string of decimal digits as an `i32`; any other shape of
/// input (empty, a stray character, a value past `i32::MAX`) is rejected.
pub fn parse_i32_digits(s: &str) -> (r: Option<i32>)
    ensures
        r == parse_dec_i32(s@),
{
    let n = s.unicode_len();
    if n == 0 {
        return None;
    }
    let mut i: usize = 0;
    let mut acc: u64 = 0;
    while i < n
        invariant
            n == s@.len(),
            0 <= i <= n,
            all_dec_digits(s@.take(i as int)),
            acc == dec_val(s@.take(i as int)),
            acc <= i32::MAX,
        decreases n - i,
    {
        let c = s.get_char(i);
        if c < '0' || c > '9' {
            proof {
                assert(!is_dec_digit(s@[i as int]));
                assert(!all_dec_digits(s@));
            }
            return None;
        }
        let d: u32 = (c as u32) - 48;
        proof {
            assert(is_dec_digit(s@[i as int]));
            assert(d == digit_val(s@[i as int]));
            assert(s@.take(i as int + 1).drop_last() =~= s@.take(i as int));
            assert(s@.take(i as int + 1).last() == s@[i as int]);
            lemma_dec_val_snoc(s@.take(i as int), s@[i as int]);
        }
        acc = acc * 10 + (d as u64);
        i += 1;
        if acc > (i32::MAX as u64) {
            proof {
                if all_dec_digits(s@) {
                    lemma_dec_val_prefix(s@, i as int);
                    assert(dec_val(s@) > i32::MAX);
                }
            }
            return None;
        }
    }
    proof {
        assert(s@.take(n as int) =~= s@);
    }
    Some(acc as i32)
}

/// Parses a string of decimal digits as an `i64`; any other shape of
/// input (empty, a stray character, a value past `i64::MAX`) is rejected.
pub fn parse_i64_digits(s: &str) -> (r: Option<i64>)
    ensures
        r == parse_dec_i64(s@),
{
    let n = s.unicode_len();
    if n == 0 {
        return None;
    }
    let mut i: usize = 0;
    let mut acc: u128 = 0;
    while i < n
        invariant
            n == s@.len(),
            0 <= i <= n,
            all_dec_digits(s@.take(i as int)),
            acc == dec_val(s@.take(i as int)),
            acc <= i64::MAX,
        decreases n - i,
    {
        let c = s.get_char(i);
        if c < '0' || c > '9' {
            proof {
                assert(!is_dec_digit(s@[i as int]));
                assert(!all_dec_digits(s@));
            }
            return None;
        }
        let d: u32 = (c as u32) - 48;
        proof {
            assert(is_dec_digit(s@[i as int]));
            assert(d == digit_val(s@[i as int]));
            assert(s@.take(i as int + 1).drop_last() =~= s@.take(i as int));
            assert(s@.take(i as int + 1).last() == s@[i as int]);
            lemma_dec_val_snoc(s@.take(i as int), s@[i as int]);
        }
        acc = acc * 10 + (d as u128);
        i += 1;
        if acc > (i64::MAX as u128) {
            proof {
                if all_dec_digits(s@) {
                    lemma_dec_val_prefix(s@, i as int);
                    assert(dec_val(s@) > i64::MAX);
                }
            }
            return None;
        }
    }
    proof {
        assert(s@.take(n as int) =~= s@);
    }
    Some(acc as i64)
}

/// Parses an optionally signed decimal `i32`, as the request parameters
/// arrive.
pub fn parse_i32_signed(s: &str) -> (r: Option<i32>)
    ensures
        r == parse_signed_i32(s@),
{
    let n = s.unicode_len();
    if n >= 2 {
        let c0 = s.get_char(0);
        if c0 == '-' {
            let tail = s.substring_char(1, n);
            proof {
                assert(tail@ =~= s@.skip(1));
            }
            return match parse_i64_digits(tail) {
                Some(v) => {
                    proof {
                        lemma_dec_val_nonneg(s@.skip(1));
                    }
                    if v <= 2147483648i64 {
                        Some((-v) as i32)
                    } else {
                        None
                    }
                },
                None => None,
            };
        }
        if c0 == '+' {
            let tail = s.substring_char(1, n);
            proof {
                assert(tail@ =~= s@.skip(1));
            }
            return parse_i32_digits(tail);
        }
    }
    parse_i32_digits(s)
}

/// Parses an optionally signed decimal `i64`, as the request parameters
/// arrive.
pub fn parse_i64_signed(s: &str) -> (r: Option<i64>)
    ensures
        r == parse_signed_i64(s@),
{
    let n = s.unicode_len();
    if n >= 2 {
        let c0 = s.get_char(0);
        if c0 == '-' {
            let tail = s.substring_char(1, n);
            proof {
                assert(tail@ =~= s@.skip(1));
            }
            return match parse_i64_digits(tail) {
                Some(v) => {
                    proof {
                        lemma_dec_val_nonneg(s@.skip(1));
                    }
                    Some(-v)
                },
                None => None,
            };
        }
        if c0 == '+' {
            let tail = s.substring_char(1, n);
            proof {
                assert(tail@ =~= s@.skip(1));
            }
            return parse_i64_digits(tail);
        }
    }
    parse_i64_digits(s)
}

} // verus!
