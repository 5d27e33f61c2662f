//! Text: comparison, decoding and formatting.

use vstd::prelude::*;
use vstd::utf8::decode_utf8;
use vstd::utf8::valid_utf8;

verus! {

/// The characters of a string, in order.
pub(crate) fn chars_of(s: &str) -> (r: Vec<char>)
    ensures
        r@ == s@,
{
    let mut r: Vec<char> = Vec::new();
    for c in it: s.chars()
        invariant
            r@ == s@.take(it.index() as int),
            it.seq() == s@,
    {
        r.push(c);
        assert(r@ =~= s@.take(it.index() + 1));
    }
    assert(s@.take(s@.len() as int) =~= s@);
    r
}

/// Whether two strings hold the same characters.
pub(crate) fn str_eq(a: &str, b: &str) -> (r: bool)
    ensures
        r == (a@ == b@),
{
    let x: Vec<char> = chars_of(a);
    let y: Vec<char> = chars_of(b);
    if x.len() != y.len() {
        return false;
    }
    let mut i: usize = 0;
    while i < x.len()
        invariant
            i <= x@.len(),
            x@ == a@,
            y@ == b@,
            x@.len() == y@.len(),
            forall|j: int| 0 <= j < i ==> x@[j] == y@[j],
        decreases x@.len() - i,
    {
        if x[i] != y[i] {
            return false;
        }
        i += 1;
    }
    assert(a@ =~= b@);
    true
}

/// `core::str::from_utf8`: claims that it succeeds exactly on valid UTF-8, and
/// that the text is then the one the bytes encode.
#[verifier::external_body]
pub(crate) fn from_utf8(bytes: &[u8]) -> (text: Option<&str>)
    ensures
        text is Some <==> valid_utf8(bytes@),
        text matches Some(t) ==> t@ == decode_utf8(bytes@),
{
    core::str::from_utf8(bytes).ok()
}

/// The hexadecimal digit of a value below 16.
pub open spec fn hex_digit(n: int) -> char {
    if n < 10 {
        (n + ('0' as int)) as char
    } else {
        (n - 10 + ('a' as int)) as char
    }
}

/// A byte in hexadecimal, without leading zeros.
pub open spec fn hex(n: u8) -> Seq<char> {
    if n < 16 {
        seq![hex_digit(n as int)]
    } else {
        seq![hex_digit(n as int / 16), hex_digit(n as int % 16)]
    }
}

/// A 16-bit number in hexadecimal, four digits long.
pub open spec fn hex4(n: u16) -> Seq<char> {
    seq![
        hex_digit(n as int / 0x1000),
        hex_digit(n as int / 0x100 % 16),
        hex_digit(n as int / 0x10 % 16),
        hex_digit(n as int % 16),
    ]
}

/// A byte in decimal, without leading zeros.
pub open spec fn decimal(n: u8) -> Seq<char> {
    if n < 10 {
        seq![hex_digit(n as int)]
    } else if n < 100 {
        seq![hex_digit(n as int / 10), hex_digit(n as int % 10)]
    } else {
        seq![
            hex_digit(n as int / 100),
            hex_digit(n as int / 10 % 10),
            hex_digit(n as int % 10),
        ]
    }
}

/// Append the digit of a value below 16.
fn push_digit(s: &mut String, n: u16)
    requires
        n < 16,
    ensures
        final(s)@ == old(s)@.push(hex_digit(n as int)),
{
    let digit: &str = match n {
        0 => "0",
        1 => "1",
        2 => "2",
        3 => "3",
        4 => "4",
        5 => "5",
        6 => "6",
        7 => "7",
        8 => "8",
        9 => "9",
        10 => "a",
        11 => "b",
        12 => "c",
        13 => "d",
        14 => "e",
        _ => "f",
    };
    proof {
        reveal_strlit("0");
        reveal_strlit("1");
        reveal_strlit("2");
        reveal_strlit("3");
        reveal_strlit("4");
        reveal_strlit("5");
        reveal_strlit("6");
        reveal_strlit("7");
        reveal_strlit("8");
        reveal_strlit("9");
        reveal_strlit("a");
        reveal_strlit("b");
        reveal_strlit("c");
        reveal_strlit("d");
        reveal_strlit("e");
        reveal_strlit("f");
    }
    assert(digit@ =~= seq![hex_digit(n as int)]);
    s.append(digit);
    assert(s@ =~= old(s)@.push(hex_digit(n as int)));
}

/// Append a byte in hexadecimal, without leading zeros.
pub(crate) fn push_hex(s: &mut String, n: u8)
    ensures
        final(s)@ == old(s)@ + hex(n),
{
    if n >= 16 {
        push_digit(s, n as u16 / 16);
    }
    push_digit(s, n as u16 % 16);
    assert(s@ =~= old(s)@ + hex(n));
}

/// Append a 16-bit number in hexadecimal, four digits long.
pub(crate) fn push_hex4(s: &mut String, n: u16)
    ensures
        final(s)@ == old(s)@ + hex4(n),
{
    push_digit(s, n / 0x1000);
    push_digit(s, n / 0x100 % 16);
    push_digit(s, n / 0x10 % 16);
    push_digit(s, n % 16);
    assert(s@ =~= old(s)@ + hex4(n));
}

/// Append a byte in decimal, without leading zeros.
pub(crate) fn push_decimal(s: &mut String, n: u8)
    ensures
        final(s)@ == old(s)@ + decimal(n),
{
    if n >= 100 {
        push_digit(s, n as u16 / 100);
    }
    if n >= 10 {
        push_digit(s, n as u16 / 10 % 10);
    }
    push_digit(s, n as u16 % 10);
    assert(s@ =~= old(s)@ + decimal(n));
}

/// Whether one text ends with another.
pub open spec fn ends_with(s: Seq<char>, suffix: Seq<char>) -> bool {
    suffix.len() <= s.len() && s.skip(s.len() - suffix.len()) == suffix
}

/// Whether one text ends with another.
pub(crate) fn has_suffix(s: &str, suffix: &str) -> (r: bool)
    ensures
        r == ends_with(s@, suffix@),
{
    let x: Vec<char> = chars_of(s);
    let y: Vec<char> = chars_of(suffix);
    if y.len() > x.len() {
        return false;
    }
    let len: usize = x.len();
    let gap: usize = len - y.len();
    let mut i: usize = 0;
    while i < y.len()
        invariant
            i <= y@.len(),
            x@ == s@,
            y@ == suffix@,
            len == x@.len(),
            gap == len - y@.len(),
            forall|j: int| 0 <= j < i ==> x@[gap + j] == y@[j],
        decreases y@.len() - i,
    {
        if x[gap + i] != y[i] {
            assert(s@.skip(gap as int)[i as int] != suffix@[i as int]);
            return false;
        }
        i += 1;
    }
    assert(s@.skip(gap as int) =~= suffix@);
    true
}

/// The value of a hexadecimal digit, by its code point.
pub open spec fn digit_value(c: char) -> int {
    if '0' <= c <= '9' {
        c as int - 0x30
    } else {
        c as int - 0x61 + 10
    }
}

proof fn lemma_digit_reads_back(n: int)
    requires
        0 <= n < 16,
    ensures
        digit_value(hex_digit(n)) == n,
        '0' <= hex_digit(n) <= '9' || 'a' <= hex_digit(n) <= 'f',
        n < 10 ==> '0' <= hex_digit(n) <= '9',
        n > 0 ==> hex_digit(n) != '0',
{
}

/// A number in decimal is written with decimal digits, the most significant
/// first and not 0 unless it is the only one, and reads back as the number.
pub proof fn law_decimal_reads_back(n: u8)
    ensures
        forall|i: int| 0 <= i < decimal(n).len() ==> '0' <= #[trigger] decimal(n)[i] <= '9',
        decimal(n).len() > 1 ==> decimal(n)[0] != '0',
        decimal(n).len() == 1 ==> digit_value(decimal(n)[0]) == n,
        decimal(n).len() == 2 ==> digit_value(decimal(n)[0]) * 10 + digit_value(decimal(n)[1])
            == n,
        decimal(n).len() == 3 ==> digit_value(decimal(n)[0]) * 100 + digit_value(decimal(n)[1])
            * 10 + digit_value(decimal(n)[2]) == n,
        1 <= decimal(n).len() <= 3,
{
    let d = n as int;
    lemma_digit_reads_back(d % 10);
    lemma_digit_reads_back(d / 10 % 10);
    lemma_digit_reads_back(d / 100);
    if d < 100 {
        lemma_digit_reads_back(d / 10);
    }
    assert(d / 10 == 10 * (d / 100) + d / 10 % 10);
}

/// A byte in hexadecimal is written with lower-case digits, without a leading 0,
/// and reads back as the byte.
pub proof fn law_hex_reads_back(n: u8)
    ensures
        forall|i: int|
            0 <= i < hex(n).len() ==> '0' <= #[trigger] hex(n)[i] <= '9' || 'a' <= hex(n)[i]
                <= 'f',
        hex(n).len() > 1 ==> hex(n)[0] != '0',
        hex(n).len() == 1 ==> digit_value(hex(n)[0]) == n,
        hex(n).len() == 2 ==> digit_value(hex(n)[0]) * 16 + digit_value(hex(n)[1]) == n,
        1 <= hex(n).len() <= 2,
{
    lemma_digit_reads_back(n as int / 16);
    lemma_digit_reads_back(n as int % 16);
}

/// A 16-bit number in hexadecimal is always four lower-case digits long, and
/// reads back as the number.
pub proof fn law_hex4_reads_back(n: u16)
    ensures
        hex4(n).len() == 4,
        forall|i: int|
            0 <= i < 4 ==> '0' <= #[trigger] hex4(n)[i] <= '9' || 'a' <= hex4(n)[i] <= 'f',
        digit_value(hex4(n)[0]) * 0x1000 + digit_value(hex4(n)[1]) * 0x100 + digit_value(
            hex4(n)[2],
        ) * 0x10 + digit_value(hex4(n)[3]) == n,
{
    let d = n as int;
    let a = d / 0x10;
    let b = d / 0x100;
    let c = d / 0x1000;
    assert(d == 16 * a + d % 16);
    assert(a == 16 * b + a % 16);
    assert(b == 16 * c + b % 16);
    lemma_digit_reads_back(d % 16);
    lemma_digit_reads_back(a % 16);
    lemma_digit_reads_back(b % 16);
    lemma_digit_reads_back(c);
}

/// A text ends with another exactly where it is something followed by it.
pub proof fn law_a_suffix_stands_at_the_end(s: Seq<char>, before: Seq<char>, suffix: Seq<char>)
    ensures
        ends_with(before + suffix, suffix),
        ends_with(s, suffix) ==> exists|front: Seq<char>| s == #[trigger] (front + suffix),
{
    assert((before + suffix).skip(before.len() as int) =~= suffix);
    if ends_with(s, suffix) {
        let front = s.take(s.len() - suffix.len());
        assert(s =~= front + suffix);
    }
}

} // verus!
