//! Reading and writing unsigned numbers as text.

use crate::text::char_vec;
use vstd::prelude::*;
use vstd::string::StringExecFns;

verus! {

// ── Reading ──────────────────────────────────────────────────────────────────

/// The value of a digit: 0 to 9 for the decimal digits, 10 to 35 for the
/// letters of either case. Any other character has the value 36, which is a
/// digit in no base.
pub open spec fn digit_value(c: char) -> int {
    if '0' <= c <= '9' {
        c as int - '0' as int
    } else if 'a' <= c <= 'z' {
        c as int - 'a' as int + 10
    } else if 'A' <= c <= 'Z' {
        c as int - 'A' as int + 10
    } else {
        36
    }
}

/// Whether `s` consists of one or more digits in the given base.
pub open spec fn is_numeral(s: Seq<char>, base: int) -> bool {
    &&& s.len() > 0
    &&& forall|i: int| 0 <= i < s.len() ==> digit_value(#[trigger] s[i]) < base
}

/// The number that a sequence of digits denotes.
pub open spec fn numeral_value(s: Seq<char>, base: int) -> int
    decreases s.len(),
{
    if s.len() == 0 {
        0
    } else {
        numeral_value(s.drop_last(), base) * base + digit_value(s.last())
    }
}

/// `s` without one leading plus sign.
pub open spec fn without_plus(s: Seq<char>) -> Seq<char> {
    if s.len() > 0 && s[0] == '+' {
        s.skip(1)
    } else {
        s
    }
}

/// The number that `s` denotes, if it is an optional plus sign followed by
/// one or more digits, and the number is at most `max`.
pub open spec fn unsigned_value(s: Seq<char>, base: int, max: int) -> Option<int> {
    let t = without_plus(s);
    if is_numeral(t, base) && numeral_value(t, base) <= max {
        Some(numeral_value(t, base))
    } else {
        None
    }
}

/// Dropping digits from the end does not make a numeral larger.
pub proof fn lemma_numeral_prefix(s: Seq<char>, base: int, i: int)
    requires
        base >= 2,
        0 <= i <= s.len(),
        forall|j: int| 0 <= j < s.len() ==> 0 <= digit_value(#[trigger] s[j]) < base,
    ensures
        0 <= numeral_value(s.subrange(0, i), base) <= numeral_value(s, base),
    decreases s.len(),
{
    if i == s.len() {
        assert(s.subrange(0, i) =~= s);
        if s.len() > 0 {
            assert(s.drop_last().subrange(0, i - 1) =~= s.drop_last());
            lemma_numeral_prefix(s.drop_last(), base, i - 1);
            assert(numeral_value(s.drop_last(), base) * base >= 0) by (nonlinear_arith)
                requires
                    numeral_value(s.drop_last(), base) >= 0,
                    base >= 2,
            ;
            assert(0 <= digit_value(s[s.len() - 1]));
        }
    } else {
        assert(s.drop_last().subrange(0, i) =~= s.subrange(0, i));
        lemma_numeral_prefix(s.drop_last(), base, i);
        assert(numeral_value(s.drop_last(), base) * base >= numeral_value(s.drop_last(), base))
            by (nonlinear_arith)
            requires
                numeral_value(s.drop_last(), base) >= 0,
                base >= 2,
        ;
        assert(0 <= digit_value(s[s.len() - 1]));
    }
}

/// The value of a digit.
fn digit_of(c: char) -> (r: u32)
    ensures
        r == digit_value(c),
        r <= 36,
{
    if c >= '0' && c <= '9' {
        c as u32 - '0' as u32
    } else if c >= 'a' && c <= 'z' {
        c as u32 - 'a' as u32 + 10
    } else if c >= 'A' && c <= 'Z' {
        c as u32 - 'A' as u32 + 10
    } else {
        36
    }
}

/// Reads an unsigned number of at most `max` in the given base.
pub fn parse_unsigned(s: &str, base: u32, max: u64) -> (r: Option<u64>)
    requires
        2 <= base <= 36,
    ensures
        r is Some <==> unsigned_value(s@, base as int, max as int) is Some,
        r matches Some(n) ==> Some(n as int) == unsigned_value(s@, base as int, max as int),
{
    let v = char_vec(s);
    let start: usize = if v.len() > 0 && v[0] == '+' {
        1
    } else {
        0
    };
    let ghost t = without_plus(s@);
    assert(t =~= s@.subrange(start as int, s@.len() as int));
    if start == v.len() {
        return None;
    }
    let mut acc: u64 = 0;
    let mut i: usize = start;
    while i < v.len()
        invariant
            2 <= base <= 36,
            v@ == s@,
            start <= i <= v@.len(),
            start <= 1,
            start < v@.len(),
            t == without_plus(s@),
            t == s@.subrange(start as int, s@.len() as int),
            acc <= max,
            acc == numeral_value(t.subrange(0, i - start), base as int),
            forall|j: int| 0 <= j < i - start ==> digit_value(#[trigger] t[j]) < base,
        decreases v@.len() - i,
    {
        let d = digit_of(v[i]);
        assert(t[i - start] == v@[i as int]);
        if d >= base {
            assert(!is_numeral(t, base as int));
            return None;
        }
        assert(acc * base <= u64::MAX * 36) by (nonlinear_arith)
            requires
                acc <= u64::MAX,
                base <= 36,
        ;
        let next: u128 = (acc as u128) * (base as u128) + d as u128;
        assert(t.subrange(0, i + 1 - start).drop_last() =~= t.subrange(0, i - start));
        assert(next == numeral_value(t.subrange(0, i + 1 - start), base as int));
        if next > max as u128 {
            proof {
                if is_numeral(t, base as int) {
                    lemma_numeral_prefix(t, base as int, i + 1 - start);
                }
            }
            return None;
        }
        acc = next as u64;
        i = i + 1;
    }
    assert(t.subrange(0, t.len() as int) =~= t);
    Some(acc)
}

// ── Writing ──────────────────────────────────────────────────────────────────

/// The character for a digit; digits above nine are upper-case letters.
pub open spec fn digit_char(d: int) -> char {
    if d < 10 {
        ('0' as int + d) as char
    } else {
        ('A' as int + d - 10) as char
    }
}

/// The numeral of `n`, without leading zeros.
pub open spec fn numeral(n: int, base: int) -> Seq<char>
    decreases n,
{
    if n < base || base < 2 {
        seq![digit_char(n)]
    } else {
        proof {
            assert(0 <= n / base < n) by (nonlinear_arith)
                requires
                    2 <= base,
                    base <= n,
            ;
        }
        numeral(n / base, base).push(digit_char(n % base))
    }
}

/// The decimal numeral of `n`.
pub open spec fn decimal(n: int) -> Seq<char> {
    numeral(n, 10)
}

/// `s` with zeros in front until it has at least `width` characters.
pub open spec fn zero_padded(s: Seq<char>, width: int) -> Seq<char>
    decreases width - s.len(),
{
    if s.len() >= width {
        s
    } else {
        zero_padded(seq!['0'] + s, width)
    }
}

/// A written number reads back as itself.
pub proof fn lemma_numeral_reads_back(n: int, base: int)
    requires
        0 <= n,
        2 <= base <= 36,
    ensures
        is_numeral(numeral(n, base), base),
        numeral_value(numeral(n, base), base) == n,
        numeral(n, base)[0] != '+',
    decreases n,
{
    reveal_with_fuel(numeral_value, 2);
    let s = numeral(n, base);
    if n < base {
        assert(s.drop_last() =~= Seq::<char>::empty());
        assert(digit_value(s[0]) == n);
    } else {
        assert(0 <= n / base < n) by (nonlinear_arith)
            requires
                2 <= base,
                base <= n,
        ;
        lemma_numeral_reads_back(n / base, base);
        let p = numeral(n / base, base);
        assert(s.drop_last() =~= p);
        assert(0 <= n % base < base) by (nonlinear_arith)
            requires
                2 <= base,
        ;
        assert(digit_value(s.last()) == n % base);
        assert((n / base) * base + n % base == n) by (nonlinear_arith)
            requires
                2 <= base,
        ;
        assert forall|i: int| 0 <= i < s.len() implies digit_value(#[trigger] s[i]) < base by {
            if i < p.len() {
                assert(s[i] == p[i]);
            }
        }
        assert(s[0] == p[0]);
    }
}

/// A number written in a base reads back as itself, if it is at most `max`.
pub proof fn lemma_unsigned_reads_back(n: int, base: int, max: int)
    requires
        0 <= n <= max,
        2 <= base <= 36,
    ensures
        unsigned_value(numeral(n, base), base, max) == Some(n),
{
    lemma_numeral_reads_back(n, base);
}

/// The character for a digit below sixteen.
fn char_of_digit(d: u64) -> (r: char)
    requires
        d < 16,
    ensures
        r == digit_char(d as int),
{
    if d < 10 {
        (48 + d as u8) as char
    } else {
        (55 + d as u8) as char
    }
}

/// Writes `n` in a base up to sixteen, without leading zeros.
pub fn numeral_string(n: u64, base: u64) -> (r: String)
    requires
        2 <= base <= 16,
    ensures
        r@ == numeral(n as int, base as int),
    decreases n,
{
    if n < base {
        let mut s = String::new();
        s.push(char_of_digit(n));
        assert(s@ =~= seq![digit_char(n as int)]);
        s
    } else {
        assert(n / base < n) by (nonlinear_arith)
            requires
                2 <= base,
                base <= n,
        ;
        assert(n % base < base) by (nonlinear_arith)
            requires
                2 <= base,
        ;
        let mut s = numeral_string(n / base, base);
        s.push(char_of_digit(n % base));
        s
    }
}

/// Writes `n` in decimal.
pub fn decimal_string(n: u64) -> (r: String)
    ensures
        r@ == decimal(n as int),
{
    numeral_string(n, 10)
}

/// Writes `n` in a base up to sixteen with at least `width` digits.
pub fn padded_numeral(n: u64, base: u64, width: usize) -> (r: String)
    requires
        2 <= base <= 16,
    ensures
        r@ == zero_padded(numeral(n as int, base as int), width as int),
{
    let mut v = char_vec(numeral_string(n, base).as_str());
    let ghost full = zero_padded(numeral(n as int, base as int), width as int);
    while v.len() < width
        invariant
            full == zero_padded(v@, width as int),
        decreases width - v@.len(),
    {
        let ghost before = v@;
        v.insert(0, '0');
        assert(v@ =~= seq!['0'] + before);
    }
    crate::text::string_of(&v)
}

/// Writes `n` in decimal with at least `width` digits.
pub fn padded_decimal(n: u64, width: usize) -> (r: String)
    ensures
        r@ == zero_padded(decimal(n as int), width as int),
{
    padded_numeral(n, 10, width)
}

/// The decimal numeral of `n`, with a minus sign if it is negative.
pub open spec fn signed_decimal(n: int) -> Seq<char> {
    if n < 0 {
        seq!['-'] + decimal(-n)
    } else {
        decimal(n)
    }
}

/// Writes `n` in decimal.
pub fn signed_decimal_string(n: i64) -> (r: String)
    ensures
        r@ == signed_decimal(n as int),
{
    if n < 0 {
        let mut s = String::new();
        s.push('-');
        let digits = decimal_string((-(n as i128)) as u64);
        let r = s.concat(digits.as_str());
        assert(r@ =~= signed_decimal(n as int));
        r
    } else {
        decimal_string(n as u64)
    }
}

/// A negative number is written as a minus sign and the number without it.
pub proof fn lemma_signed_numbers(n: int)
    requires
        n > 0,
    ensures
        signed_decimal(-n) == seq!['-'] + numeral(n, 10),
        signed_decimal(n) == numeral(n, 10),
        signed_decimal(0) == seq!['0'],
{
}

/// What is no number: nothing, a sign alone, and a text with a character that is
/// no digit in the base. One plus sign before a number does not matter.
pub proof fn lemma_what_is_a_number(
    a: Seq<char>,
    c: char,
    b: Seq<char>,
    n: int,
    base: int,
    max: int,
)
    requires
        2 <= base <= 36,
        0 <= n <= max,
        c != '+',
        !('0' <= c <= '9') && !('a' <= c <= 'z') && !('A' <= c <= 'Z'),
    ensures
        unsigned_value(Seq::empty(), base, max) is None,
        unsigned_value(seq!['+'], base, max) is None,
        unsigned_value(a + seq![c] + b, base, max) is None,
        unsigned_value(seq!['+'] + numeral(n, base), base, max) == Some(n),
        unsigned_value(seq!['+'] + (seq!['+'] + numeral(n, base)), base, max) is None,
        unsigned_value(numeral(max + 1, base), base, max) is None,
{
    let s = a + seq![c] + b;
    let t = without_plus(s);
    assert(s[a.len() as int] == c);
    if s[0] == '+' {
        assert(t[a.len() - 1] == c);
    } else {
        assert(t[a.len() as int] == c);
    }
    assert(!is_numeral(t, base));
    assert(seq!['+'].skip(1) =~= Seq::<char>::empty());
    lemma_numeral_reads_back(n, base);
    assert((seq!['+'] + numeral(n, base)).skip(1) =~= numeral(n, base));
    let twice = seq!['+'] + (seq!['+'] + numeral(n, base));
    assert(twice.skip(1) =~= seq!['+'] + numeral(n, base));
    assert(digit_value(twice.skip(1)[0]) == 36);
    lemma_numeral_reads_back(max + 1, base);
}

} // verus!
