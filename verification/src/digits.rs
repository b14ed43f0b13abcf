//! Decimal digit strings: the specification of their numeric value, a
//! verified parser used by every numeric command-line field, and a verified
//! formatter used by the reports.

use vstd::prelude::*;

verus! {

/// Is `c` one of the ten ASCII decimal digits?
pub open spec fn is_dec_digit(c: char) -> bool {
    48 <= c as u32 && c as u32 <= 57
}

/// The numeric value of a single decimal digit character.
pub open spec fn dec_digit_value(c: char) -> int {
    c as u32 - 48
}

/// Does `s` consist of decimal digits only?
pub open spec fn all_dec_digits(s: Seq<char>) -> bool {
    forall|i: int| 0 <= i < s.len() ==> is_dec_digit(#[trigger] s[i])
}

/// The numeric value of a digit string, most significant digit first.
pub open spec fn dec_value(s: Seq<char>) -> int
    decreases s.len(),
{
    if s.len() == 0 {
        0
    } else {
        dec_value(s.drop_last()) * 10 + dec_digit_value(s.last())
    }
}

/// The digit character for a value in `0 ..= 9`.
pub open spec fn dec_char(d: int) -> char {
    if d == 0 {
        '0'
    } else if d == 1 {
        '1'
    } else if d == 2 {
        '2'
    } else if d == 3 {
        '3'
    } else if d == 4 {
        '4'
    } else if d == 5 {
        '5'
    } else if d == 6 {
        '6'
    } else if d == 7 {
        '7'
    } else if d == 8 {
        '8'
    } else {
        '9'
    }
}

/// The canonical decimal rendering of `n`: no sign, and no leading zeros
/// except for zero itself.
pub open spec fn dec_str(n: int) -> Seq<char>
    decreases n,
{
    if n < 10 {
        seq![dec_char(n)]
    } else {
        dec_str(n / 10) + seq![dec_char(n % 10)]
    }
}

/// A digit string is worth no less than any of its prefixes, and no digit
/// string is worth less than zero.
pub proof fn lemma_dec_value_prefix_le(s: Seq<char>, n: int)
    requires
        all_dec_digits(s),
        0 <= n <= s.len(),
    ensures
        dec_value(s.subrange(0, n)) <= dec_value(s),
        dec_value(s) >= 0,
    decreases s.len(),
{
    if s.len() == 0 {
        assert(s.subrange(0, n) =~= s);
    } else {
        let shorter = s.drop_last();
        lemma_dec_value_prefix_le(shorter, if n < s.len() {
            n
        } else {
            n - 1
        });
        assert(is_dec_digit(s.last()));
        if n < s.len() {
            assert(s.subrange(0, n) =~= shorter.subrange(0, n));
        } else {
            assert(s.subrange(0, n) =~= s);
        }
    }
}

/// The digit-string interpretation of `s`, after an optional leading `+`:
/// `Some` exactly when what remains is one or more decimal digits whose
/// value fits in 64 bits.  This is how the standard library reads a `u64`
/// from a string.
pub open spec fn parse_u64_spec(s: Seq<char>) -> Option<u64> {
    let digits = plus_stripped(s);
    if digits.len() > 0 && all_dec_digits(digits) && dec_value(digits) <= u64::MAX {
        Some(dec_value(digits) as u64)
    } else {
        None
    }
}

/// `s` without its leading `+`, if it has one.
pub open spec fn plus_stripped(s: Seq<char>) -> Seq<char> {
    if s.len() > 0 && s[0] == '+' {
        s.drop_first()
    } else {
        s
    }
}

/// Parse the characters of `s` between `from` and `end` as a `u64`.
pub fn parse_u64_range(s: &str, from: usize, end: usize) -> (r: Option<u64>)
    requires
        from <= end <= s@.len(),
    ensures
        r == parse_u64_spec(s@.subrange(from as int, end as int)),
{
    let ghost whole = s@.subrange(from as int, end as int);
    let mut i: usize = from;
    if end > from && s.get_char(from) == '+' {
        i = from + 1;
    }
    let ghost digits = plus_stripped(whole);
    proof {
        assert(digits =~= s@.subrange(i as int, end as int));
    }
    if i == end {
        return None;
    }
    let mut acc: u64 = 0;
    let ghost start = i as int;
    while i < end
        invariant
            0 <= start <= i as int <= end <= s@.len(),
            start < end,
            digits == plus_stripped(s@.subrange(from as int, end as int)),
            digits =~= s@.subrange(start, end as int),
            all_dec_digits(s@.subrange(start, i as int)),
            acc == dec_value(s@.subrange(start, i as int)),
        decreases end - i,
    {
        let c = s.get_char(i);
        let cv: u32 = c as u32;
        let ghost seen = s@.subrange(start, i as int);
        if cv < 48 || cv > 57 {
            proof {
                assert(digits == s@.subrange(start, end as int));
                assert(s@.subrange(start, end as int)[i as int - start] == s@[i as int]);
                assert(c == s@[i as int]);
                assert(!is_dec_digit(digits[i as int - start]));
            }
            return None;
        }
        let d: u64 = (cv - 48) as u64;
        proof {
            assert(s@.subrange(start, i as int + 1) =~= seen.push(c));
            assert(s@.subrange(start, i as int + 1).drop_last() =~= seen);
            assert(dec_value(s@.subrange(start, i as int + 1)) == acc * 10 + d);
        }
        if acc > (u64::MAX - d) / 10 {
            // The digits read so far already exceed 64 bits, and appending
            // digits never lowers the value.
            proof {
                assert(acc * 10 + d > u64::MAX);
                if all_dec_digits(digits) {
                    lemma_dec_value_prefix_le(digits, i as int + 1 - start);
                    assert(digits.subrange(0, i as int + 1 - start) =~= s@.subrange(
                        start,
                        i as int + 1,
                    ));
                }
            }
            return None;
        }
        acc = acc * 10 + d;
        i = i + 1;
    }
    proof {
        assert(s@.subrange(start, end as int) =~= digits);
    }
    Some(acc)
}

/// The digit character for a value in `0 ..= 9`, as a one-character string.
fn dec_char_str(d: u64) -> (r: &'static str)
    requires
        d < 10,
    ensures
        r@ =~= seq![dec_char(d as int)],
{
    proof {
        reveal_strlit("0");
        reveal_strlit("1");
        reveal_strlit("2");
        reveal_strlit("3");
        reveal_strlit("4");
        reveal_strlit("5");
        reveal_strlit("6");
        reveal_strlit("7");
        reveal_strlit("8");
        reveal_strlit("9");
    }
    if d == 0 {
        "0"
    } else if d == 1 {
        "1"
    } else if d == 2 {
        "2"
    } else if d == 3 {
        "3"
    } else if d == 4 {
        "4"
    } else if d == 5 {
        "5"
    } else if d == 6 {
        "6"
    } else if d == 7 {
        "7"
    } else if d == 8 {
        "8"
    } else {
        "9"
    }
}

/// The characters of a digit stack: least significant digit first in the
/// stack, most significant digit first in the rendering.
pub open spec fn digit_chars(ds: Seq<u64>) -> Seq<char>
    decreases ds.len(),
{
    if ds.len() == 0 {
        Seq::empty()
    } else {
        seq![dec_char(ds.last() as int)] + digit_chars(ds.drop_last())
    }
}

/// Append the decimal rendering of `n` to `out`.
pub fn append_dec_u128(out: &mut String, n: u128)
    ensures
        final(out)@ == old(out)@ + dec_str(n as int),
{
    let mut digits: Vec<u64> = Vec::new();
    let mut m: u128 = n;
    proof {
        assert(dec_str(n as int) =~= dec_str(n as int) + digit_chars(Seq::empty()));
    }
    while m >= 10
        invariant
            dec_str(n as int) =~= dec_str(m as int) + digit_chars(digits@),
            forall|k: int| 0 <= k < digits@.len() ==> #[trigger] digits@[k] < 10,
        decreases m,
    {
        let d: u64 = (m % 10) as u64;
        let ghost before = digits@;
        digits.push(d);
        proof {
            assert(digits@.drop_last() =~= before);
            assert(digit_chars(digits@) =~= seq![dec_char(d as int)] + digit_chars(before));
        }
        m = m / 10;
    }
    out.append(dec_char_str((m % 10) as u64));
    let ghost head = old(out)@ + seq![dec_char(m as int)];
    let mut j: usize = digits.len();
    proof {
        assert(digits@.subrange(0, j as int) =~= digits@);
    }
    while j > 0
        invariant
            j <= digits@.len(),
            forall|k: int| 0 <= k < digits@.len() ==> #[trigger] digits@[k] < 10,
            out@ + digit_chars(digits@.subrange(0, j as int)) =~= head + digit_chars(digits@),
        decreases j,
    {
        let ghost prev = digits@.subrange(0, j as int);
        j = j - 1;
        let d: u64 = digits[j];
        proof {
            assert(prev.last() == d);
            assert(prev.drop_last() =~= digits@.subrange(0, j as int));
            assert(digit_chars(prev) =~= seq![dec_char(d as int)] + digit_chars(
                digits@.subrange(0, j as int),
            ));
        }
        out.append(dec_char_str(d));
    }
    proof {
        assert(digit_chars(digits@.subrange(0, 0)) =~= Seq::<char>::empty());
        assert(out@ =~= head + digit_chars(digits@));
        assert(out@ =~= old(out)@ + dec_str(n as int));
    }
}

/// A digit string of at most three digits is worth at most 999.
pub proof fn lemma_dec_value_digits3(s: Seq<char>)
    requires
        all_dec_digits(s),
        s.len() <= 3,
    ensures
        0 <= dec_value(s),
        s.len() <= 1 ==> dec_value(s) <= 9,
        s.len() <= 2 ==> dec_value(s) <= 99,
        dec_value(s) <= 999,
    decreases s.len(),
{
    if s.len() == 0 {
    } else {
        lemma_dec_value_digits3(s.drop_last());
        assert(is_dec_digit(s.last()));
    }
}

/// How many decimal digits stand at `from` before something else does.
pub open spec fn digit_run(s: Seq<char>, from: int) -> nat
    decreases s.len() - from,
{
    if from < 0 || from >= s.len() {
        0
    } else if !is_dec_digit(s[from]) {
        0
    } else {
        1 + digit_run(s, from + 1)
    }
}

/// Count the decimal digits standing at `from`.
pub fn scan_dec_digits(s: &str, from: usize) -> (l: usize)
    requires
        from <= s@.len(),
    ensures
        l == digit_run(s@, from as int),
        from + l <= s@.len(),
        all_dec_digits(s@.subrange(from as int, from as int + l)),
{
    let n = s.unicode_len();
    let mut i: usize = from;
    loop
        invariant
            from <= i <= n == s@.len(),
            digit_run(s@, from as int) == (i - from) + digit_run(s@, i as int),
            all_dec_digits(s@.subrange(from as int, i as int)),
        ensures
            from <= i <= s@.len(),
            digit_run(s@, from as int) == i - from,
            all_dec_digits(s@.subrange(from as int, i as int)),
        decreases s@.len() - i,
    {
        if i >= n {
            proof {
                assert(digit_run(s@, i as int) == 0);
            }
            break ;
        }
        let c = s.get_char(i);
        let cv: u32 = c as u32;
        if cv < 48 || cv > 57 {
            proof {
                assert(!is_dec_digit(s@[i as int]));
                assert(digit_run(s@, i as int) == 0);
            }
            break ;
        }
        proof {
            assert(is_dec_digit(s@[i as int]));
            assert(digit_run(s@, i as int) == 1 + digit_run(s@, i as int + 1));
            assert(s@.subrange(from as int, i as int + 1) =~= s@.subrange(
                from as int,
                i as int,
            ).push(c));
        }
        i = i + 1;
    }
    i - from
}

/// How many characters stand at `from` before `stop` or the end does.
pub open spec fn run_until(s: Seq<char>, from: int, stop: char) -> nat
    decreases s.len() - from,
{
    if from < 0 || from >= s.len() {
        0
    } else if s[from] == stop {
        0
    } else {
        1 + run_until(s, from + 1, stop)
    }
}

/// Count the characters standing at `from` before `stop` or the end.
pub fn scan_until(s: &str, from: usize, stop: char) -> (l: usize)
    requires
        from <= s@.len(),
    ensures
        l == run_until(s@, from as int, stop),
        from + l <= s@.len(),
{
    let n = s.unicode_len();
    let mut i: usize = from;
    loop
        invariant
            from <= i <= n == s@.len(),
            run_until(s@, from as int, stop) == (i - from) + run_until(s@, i as int, stop),
        ensures
            from <= i <= s@.len(),
            run_until(s@, from as int, stop) == i - from,
        decreases s@.len() - i,
    {
        if i >= n {
            proof {
                assert(run_until(s@, i as int, stop) == 0);
            }
            break ;
        }
        let c = s.get_char(i);
        if c == stop {
            proof {
                assert(run_until(s@, i as int, stop) == 0);
            }
            break ;
        }
        proof {
            assert(run_until(s@, i as int, stop) == 1 + run_until(s@, i as int + 1, stop));
        }
        i = i + 1;
    }
    i - from
}

/// Is `c` a hexadecimal digit, of either case?
pub open spec fn is_hex_digit(c: char) -> bool {
    (48 <= c as u32 && c as u32 <= 57) || (97 <= c as u32 && c as u32 <= 102) || (65 <= c as u32
        && c as u32 <= 70)
}

/// The numeric value of a single hexadecimal digit character.
pub open spec fn hex_digit_value(c: char) -> int {
    if 48 <= c as u32 && c as u32 <= 57 {
        c as u32 - 48
    } else if 97 <= c as u32 && c as u32 <= 102 {
        c as u32 - 87
    } else {
        c as u32 - 55
    }
}

/// Does `s` consist of hexadecimal digits only?
pub open spec fn all_hex_digits(s: Seq<char>) -> bool {
    forall|i: int| 0 <= i < s.len() ==> is_hex_digit(#[trigger] s[i])
}

/// The numeric value of a hexadecimal digit string, most significant digit
/// first.
pub open spec fn hex_value(s: Seq<char>) -> int
    decreases s.len(),
{
    if s.len() == 0 {
        0
    } else {
        hex_value(s.drop_last()) * 16 + hex_digit_value(s.last())
    }
}

/// A hexadecimal digit string is worth no less than any of its prefixes.
pub proof fn lemma_hex_value_prefix_le(s: Seq<char>, n: int)
    requires
        all_hex_digits(s),
        0 <= n <= s.len(),
    ensures
        hex_value(s.subrange(0, n)) <= hex_value(s),
        hex_value(s) >= 0,
    decreases s.len(),
{
    if s.len() == 0 {
        assert(s.subrange(0, n) =~= s);
    } else {
        let shorter = s.drop_last();
        lemma_hex_value_prefix_le(shorter, if n < s.len() {
            n
        } else {
            n - 1
        });
        assert(is_hex_digit(s.last()));
        if n < s.len() {
            assert(s.subrange(0, n) =~= shorter.subrange(0, n));
        } else {
            assert(s.subrange(0, n) =~= s);
        }
    }
}

/// The hexadecimal interpretation of `s`, after an optional leading `+`:
/// `Some` exactly when what remains is one or more hexadecimal digits whose
/// value fits in 8 bits.  This is how the standard library reads a `u8`
/// from a base-16 string.
pub open spec fn parse_u8_radix16_spec(s: Seq<char>) -> Option<u8> {
    let digits = plus_stripped(s);
    if digits.len() > 0 && all_hex_digits(digits) && hex_value(digits) <= 255 {
        Some(hex_value(digits) as u8)
    } else {
        None
    }
}

/// Parse the characters of `s` between `from` and `end` as a base-16 `u8`.
pub fn parse_u8_hex_range(s: &str, from: usize, end: usize) -> (r: Option<u8>)
    requires
        from <= end <= s@.len(),
    ensures
        r == parse_u8_radix16_spec(s@.subrange(from as int, end as int)),
{
    let ghost whole = s@.subrange(from as int, end as int);
    let mut i: usize = from;
    if end > from && s.get_char(from) == '+' {
        i = from + 1;
    }
    let ghost digits = plus_stripped(whole);
    proof {
        assert(digits =~= s@.subrange(i as int, end as int));
    }
    if i == end {
        return None;
    }
    let mut acc: u32 = 0;
    let ghost start = i as int;
    while i < end
        invariant
            0 <= start <= i as int <= end <= s@.len(),
            start < end,
            digits == plus_stripped(s@.subrange(from as int, end as int)),
            digits =~= s@.subrange(start, end as int),
            all_hex_digits(s@.subrange(start, i as int)),
            acc == hex_value(s@.subrange(start, i as int)),
            acc <= 255,
        decreases end - i,
    {
        let c = s.get_char(i);
        let cv: u32 = c as u32;
        let ghost seen = s@.subrange(start, i as int);
        let d: u32 = if 48 <= cv && cv <= 57 {
            cv - 48
        } else if 97 <= cv && cv <= 102 {
            cv - 87
        } else if 65 <= cv && cv <= 70 {
            cv - 55
        } else {
            proof {
                assert(digits == s@.subrange(start, end as int));
                assert(s@.subrange(start, end as int)[i as int - start] == s@[i as int]);
                assert(!is_hex_digit(digits[i as int - start]));
            }
            return None;
        };
        proof {
            assert(is_hex_digit(c));
            assert(d == hex_digit_value(c));
            assert(s@.subrange(start, i as int + 1) =~= seen.push(c));
            assert(s@.subrange(start, i as int + 1).drop_last() =~= seen);
            assert(hex_value(s@.subrange(start, i as int + 1)) == acc * 16 + d);
        }
        if acc * 16 + d > 255 {
            // The digits read so far already exceed 8 bits, and appending
            // digits never lowers the value.
            proof {
                if all_hex_digits(digits) {
                    lemma_hex_value_prefix_le(digits, i as int + 1 - start);
                    assert(digits.subrange(0, i as int + 1 - start) =~= s@.subrange(
                        start,
                        i as int + 1,
                    ));
                }
            }
            return None;
        }
        acc = acc * 16 + d;
        i = i + 1;
    }
    proof {
        assert(s@.subrange(start, end as int) =~= digits);
    }
    Some(acc as u8)
}

/// The lower-case hexadecimal digit character for a value in `0 ..= 15`.
pub open spec fn lhex_char(d: int) -> char {
    if d < 10 {
        dec_char(d)
    } else if d == 10 {
        'a'
    } else if d == 11 {
        'b'
    } else if d == 12 {
        'c'
    } else if d == 13 {
        'd'
    } else if d == 14 {
        'e'
    } else {
        'f'
    }
}

/// The upper-case hexadecimal digit character for a value in `0 ..= 15`.
pub open spec fn uhex_char(d: int) -> char {
    if d < 10 {
        dec_char(d)
    } else if d == 10 {
        'A'
    } else if d == 11 {
        'B'
    } else if d == 12 {
        'C'
    } else if d == 13 {
        'D'
    } else if d == 14 {
        'E'
    } else {
        'F'
    }
}

/// The two lower-case hexadecimal digits of a byte, zero-padded.
pub open spec fn hex_pair_lower(b: u8) -> Seq<char> {
    seq![lhex_char(b as int / 16), lhex_char(b as int % 16)]
}

/// The two upper-case hexadecimal digits of a byte, zero-padded.
pub open spec fn hex_pair_upper(b: u8) -> Seq<char> {
    seq![uhex_char(b as int / 16), uhex_char(b as int % 16)]
}

/// The lower-case hexadecimal digit for a value in `0 ..= 15`, as a
/// one-character string.
fn lhex_str(d: u8) -> (r: &'static str)
    requires
        d < 16,
    ensures
        r@ =~= seq![lhex_char(d as int)],
{
    proof {
        reveal_strlit("a");
        reveal_strlit("b");
        reveal_strlit("c");
        reveal_strlit("d");
        reveal_strlit("e");
        reveal_strlit("f");
    }
    if d < 10 {
        dec_char_str(d as u64)
    } else if d == 10 {
        "a"
    } else if d == 11 {
        "b"
    } else if d == 12 {
        "c"
    } else if d == 13 {
        "d"
    } else if d == 14 {
        "e"
    } else {
        "f"
    }
}

/// The upper-case hexadecimal digit for a value in `0 ..= 15`, as a
/// one-character string.
fn uhex_str(d: u8) -> (r: &'static str)
    requires
        d < 16,
    ensures
        r@ =~= seq![uhex_char(d as int)],
{
    proof {
        reveal_strlit("A");
        reveal_strlit("B");
        reveal_strlit("C");
        reveal_strlit("D");
        reveal_strlit("E");
        reveal_strlit("F");
    }
    if d < 10 {
        dec_char_str(d as u64)
    } else if d == 10 {
        "A"
    } else if d == 11 {
        "B"
    } else if d == 12 {
        "C"
    } else if d == 13 {
        "D"
    } else if d == 14 {
        "E"
    } else {
        "F"
    }
}

/// Append the two lower-case hexadecimal digits of `b` to `out`.
pub fn append_hex_pair_lower(out: &mut String, b: u8)
    ensures
        final(out)@ == old(out)@ + hex_pair_lower(b),
{
    out.append(lhex_str(b / 16));
    out.append(lhex_str(b % 16));
    proof {
        assert(out@ =~= old(out)@ + hex_pair_lower(b));
    }
}

/// Append the two upper-case hexadecimal digits of `b` to `out`.
pub fn append_hex_pair_upper(out: &mut String, b: u8)
    ensures
        final(out)@ == old(out)@ + hex_pair_upper(b),
{
    out.append(uhex_str(b / 16));
    out.append(uhex_str(b % 16));
    proof {
        assert(out@ =~= old(out)@ + hex_pair_upper(b));
    }
}

} // verus!
