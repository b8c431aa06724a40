//! Numbers as text: decimal numbers read and written, hexadecimal numbers
//! written at a fixed width.

use vstd::prelude::*;
use vstd::string::StringExecFns;

verus! {

/// What a decimal digit is worth.
pub open spec fn digit_value(c: char) -> nat {
    if '0' <= c <= '9' {
        (c as u32 - '0' as u32) as nat
    } else {
        0
    }
}

/// The number that `digits` writes in base ten.
pub open spec fn decimal_value(digits: Seq<char>) -> nat
    decreases digits.len(),
{
    if digits.len() == 0 {
        0
    } else {
        decimal_value(digits.drop_last()) * 10 + digit_value(digits.last())
    }
}

/// `digits` is one decimal digit or more, and nothing else.
pub open spec fn is_decimal(digits: Seq<char>) -> bool {
    &&& digits.len() > 0
    &&& forall|i: int| 0 <= i < digits.len() ==> '0' <= #[trigger] digits[i] <= '9'
}

/// `text` without the plus sign that it may start with.
pub open spec fn unsigned_part(text: Seq<char>) -> Seq<char> {
    if text.len() > 0 && text[0] == '+' {
        text.skip(1)
    } else {
        text
    }
}

/// The number that `text` writes: an optional plus sign, then decimal digits
/// only, worth at most `max`. Any other text writes no number.
pub open spec fn read_number(text: Seq<char>, max: nat) -> Option<nat> {
    let digits = unsigned_part(text);
    if is_decimal(digits) && decimal_value(digits) <= max {
        Some(decimal_value(digits))
    } else {
        None
    }
}

proof fn lemma_prefix_value(digits: Seq<char>, n: int)
    requires
        0 <= n <= digits.len(),
    ensures
        decimal_value(digits.take(n)) <= decimal_value(digits),
    decreases digits.len(),
{
    if n == digits.len() {
        assert(digits.take(n) == digits);
    } else {
        lemma_prefix_value(digits.drop_last(), n);
        assert(digits.drop_last().take(n) == digits.take(n));
    }
}

/// Reads a decimal number of at most `max`.
pub fn parse_number(text: &Vec<char>, max: u64) -> (number: Option<u64>)
    ensures
        match number {
            Some(n) => read_number(text@, max as nat) == Some(n as nat),
            None => read_number(text@, max as nat) is None,
        },
{
    let start: usize = if text.len() > 0 && text[0] == '+' {
        1
    } else {
        0
    };
    let ghost digits = unsigned_part(text@);
    assert(digits == text@.skip(start as int));
    if start == text.len() {
        return None;
    }
    let mut value: u64 = 0;
    let mut i: usize = start;
    assert(digits.take(0).len() == 0);
    while i < text.len()
        invariant
            start <= i <= text@.len(),
            digits == text@.skip(start as int),
            digits == unsigned_part(text@),
            value == decimal_value(digits.take(i - start)),
            value <= max,
            forall|j: int| 0 <= j < i - start ==> '0' <= #[trigger] digits[j] <= '9',
        decreases text@.len() - i,
    {
        let c = text[i];
        let ghost k = i - start;
        assert(digits[k] == c);
        if c < '0' || c > '9' {
            return None;
        }
        let digit: u64 = c as u64 - 48;
        proof {
            assert(digits.take(k + 1).drop_last() == digits.take(k));
            assert(digits.take(k + 1).last() == c);
            lemma_prefix_value(digits, k + 1);
        }
        if value > (u64::MAX - digit) / 10 || value * 10 + digit > max {
            return None;
        }
        value = value * 10 + digit;
        i += 1;
    }
    assert(digits.take(i - start) == digits);
    Some(value)
}

/// The digit worth `d`, in bases up to sixteen.
pub open spec fn digit(d: nat) -> char {
    if d < 10 {
        ('0' as u32 + d) as char
    } else {
        ('a' as u32 + (d - 10)) as char
    }
}

fn digit_text(d: u8) -> (text: &'static str)
    requires
        d < 16,
    ensures
        text@ == seq![digit(d as nat)],
{
    proof {
        reveal_strlit("0");
        reveal_strlit("1");
        reveal_strlit("2");
        reveal_strlit("3");
        reveal_strlit("4");
        reveal_strlit("5");
        reveal_strlit("6");
        reveal_strlit("7");
        reveal_strlit("8");
        reveal_strlit("9");
        reveal_strlit("a");
        reveal_strlit("b");
        reveal_strlit("c");
        reveal_strlit("d");
        reveal_strlit("e");
        reveal_strlit("f");
    }
    match d {
        0 => "0",
        1 => "1",
        2 => "2",
        3 => "3",
        4 => "4",
        5 => "5",
        6 => "6",
        7 => "7",
        8 => "8",
        9 => "9",
        10 => "a",
        11 => "b",
        12 => "c",
        13 => "d",
        14 => "e",
        _ => "f",
    }
}

/// `n` in base ten, without leading zeros.
pub open spec fn decimal(n: nat) -> Seq<char>
    decreases n,
{
    if n < 10 {
        seq![digit(n)]
    } else {
        decimal(n / 10).push(digit(n % 10))
    }
}

/// Writes `n` in base ten.
pub fn decimal_text(n: u64) -> (text: String)
    ensures
        text@ == decimal(n as nat),
    decreases n,
{
    let mut text = if n < 10 {
        String::new()
    } else {
        decimal_text(n / 10)
    };
    text.append(digit_text((n % 10) as u8));
    text
}

/// The last `width` digits of `n` in base sixteen, with leading zeros.
pub open spec fn hex(n: nat, width: nat) -> Seq<char>
    decreases width,
{
    if width == 0 {
        Seq::empty()
    } else {
        hex(n / 16, (width - 1) as nat).push(digit(n % 16))
    }
}

/// Writes the last `width` digits of `n` in base sixteen.
pub fn hex_text(n: u64, width: u8) -> (text: String)
    ensures
        text@ == hex(n as nat, width as nat),
    decreases width,
{
    if width == 0 {
        String::new()
    } else {
        let mut text = hex_text(n / 16, width - 1);
        text.append(digit_text((n % 16) as u8));
        text
    }
}

/// What is written in base ten reads back as the same number, for every reader
/// whose limit the number keeps.
pub proof fn decimal_reads_back(n: nat, max: nat)
    requires
        n <= max,
    ensures
        read_number(decimal(n), max) == Some(n),
{
    lemma_decimal(n);
}

/// No two numbers are written alike in base ten.
pub proof fn decimal_is_injective(m: nat, n: nat)
    requires
        decimal(m) == decimal(n),
    ensures
        m == n,
{
    lemma_decimal(m);
    lemma_decimal(n);
}

pub(crate) proof fn lemma_decimal(n: nat)
    ensures
        is_decimal(decimal(n)),
        decimal_value(decimal(n)) == n,
    decreases n,
{
    if n < 10 {
        assert(decimal_value(decimal(n).drop_last()) == 0);
        assert(decimal(n).last() == digit(n));
    } else {
        lemma_decimal(n / 10);
        assert(decimal(n).drop_last() == decimal(n / 10));
        assert(decimal(n).last() == digit(n % 10));
    }
}

/// `c` is a digit of base sixteen, written small.
pub open spec fn is_hex_digit(c: char) -> bool {
    '0' <= c <= '9' || 'a' <= c <= 'f'
}

/// A number at a fixed width in base sixteen is that many digits.
pub proof fn hex_is_digits(n: nat, width: nat)
    ensures
        hex(n, width).len() == width,
        forall|i: int| 0 <= i < width ==> is_hex_digit(#[trigger] hex(n, width)[i]),
    decreases width,
{
    if width > 0 {
        hex_is_digits(n / 16, (width - 1) as nat);
    }
}

/// No two 64-bit numbers are written alike in sixteen digits of base sixteen.
pub proof fn hex_is_injective(m: u64, n: u64)
    requires
        hex(m as nat, 16) == hex(n as nat, 16),
    ensures
        m == n,
{
    assert(sixteen_to(16) == 0x1_0000_0000_0000_0000) by {
        reveal_with_fuel(sixteen_to, 17);
    }
    lemma_hex_injective(m as nat, n as nat, 16);
}

spec fn sixteen_to(width: nat) -> nat
    decreases width,
{
    if width == 0 {
        1
    } else {
        16 * sixteen_to((width - 1) as nat)
    }
}

proof fn lemma_hex_injective(m: nat, n: nat, width: nat)
    requires
        hex(m, width) == hex(n, width),
        m < sixteen_to(width),
        n < sixteen_to(width),
    ensures
        m == n,
    decreases width,
{
    if width > 0 {
        let w = (width - 1) as nat;
        assert(hex(m, width) == hex(m / 16, w).push(digit(m % 16)));
        assert(hex(n, width) == hex(n / 16, w).push(digit(n % 16)));
        hex_is_digits(m / 16, w);
        hex_is_digits(n / 16, w);
        assert(hex(m / 16, w).push(digit(m % 16)).drop_last() == hex(m / 16, w));
        assert(hex(n / 16, w).push(digit(n % 16)).drop_last() == hex(n / 16, w));
        assert(hex(m / 16, w).push(digit(m % 16)).last() == digit(m % 16));
        assert(hex(n / 16, w).push(digit(n % 16)).last() == digit(n % 16));
        lemma_hex_injective(m / 16, n / 16, w);
    }
}

/// What a text is read as. A plus sign in front and zeros in front make no difference. A
/// number above the limit is not read, and nothing that is read is above it.
pub proof fn numbers_are_read_by_their_digits(digits: Seq<char>, max: nat, n: nat)
    requires
        is_decimal(digits),
    ensures
        read_number(seq!['+'] + digits, max) == read_number(digits, max),
        read_number(seq!['0'] + digits, max) == read_number(digits, max),
        n > max ==> read_number(decimal(n), max) is None,
        read_number(digits, max) matches Some(value) ==> value <= max,
{
    assert((seq!['+'] + digits).skip(1) =~= digits);
    assert(digits[0] != '+');
    assert((seq!['+'] + digits)[0] == '+');
    assert((seq!['0'] + digits)[0] == '0');
    lemma_leading_zero(digits);
    let longer = seq!['0'] + digits;
    assert forall|i: int| 0 <= i < longer.len() implies '0' <= #[trigger] longer[i] <= '9' by {
        if i > 0 {
            assert(longer[i] == digits[i - 1]);
        }
    }
    lemma_decimal(n);
    assert('0' <= decimal(n)[0] <= '9');
}

proof fn lemma_leading_zero(digits: Seq<char>)
    ensures
        decimal_value(seq!['0'] + digits) == decimal_value(digits),
    decreases digits.len(),
{
    let longer = seq!['0'] + digits;
    if digits.len() == 0 {
        assert(longer.drop_last() =~= Seq::empty());
        assert(longer.last() == '0');
        assert(decimal_value(longer.drop_last()) == 0);
    } else {
        assert(longer.drop_last() =~= seq!['0'] + digits.drop_last());
        assert(longer.last() == digits.last());
        lemma_leading_zero(digits.drop_last());
    }
}

/// A text with anything but digits in it is not read as a number, but for a plus sign in
/// front. Nor is an empty text, or a plus sign alone.
pub proof fn other_texts_are_no_numbers(text: Seq<char>, at: int, max: nat)
    ensures
        0 <= at < text.len() && !('0' <= text[at] <= '9') && !(at == 0 && text[0] == '+')
            ==> read_number(text, max) is None,
        read_number(Seq::empty(), max) is None,
        read_number(seq!['+'], max) is None,
{
    if 0 <= at < text.len() && !('0' <= text[at] <= '9') && !(at == 0 && text[0] == '+') {
        let digits = unsigned_part(text);
        if text[0] == '+' {
            assert(digits[at - 1] == text[at]);
        } else {
            assert(digits[at] == text[at]);
        }
    }
    assert(seq!['+'].skip(1) =~= Seq::empty());
}

/// A digit behind a number that is read makes it ten times as large, plus the digit.
pub proof fn digits_are_read_by_their_place(digits: Seq<char>, c: char)
    requires
        is_decimal(digits),
        '0' <= c <= '9',
    ensures
        ({
            let value = c as int - '0' as int;
            let max = decimal_value(digits) * 10 + value;
            &&& read_number(seq![c], 9) == Some(value as nat)
            &&& read_number(digits, max as nat) matches Some(n) && read_number(
                digits.push(c),
                max as nat,
            ) == Some((n * 10 + value) as nat)
        }),
{
    let longer = digits.push(c);
    assert(longer.drop_last() =~= digits);
    assert forall|i: int| 0 <= i < longer.len() implies '0' <= #[trigger] longer[i] <= '9' by {
        if i < digits.len() {
            assert(longer[i] == digits[i]);
        }
    }
    assert(digits[0] != '+');
    assert(longer[0] == digits[0]);
    assert(seq![c].drop_last() =~= Seq::empty());
    assert(decimal_value(seq![c].drop_last()) == 0);
    assert(seq![c].last() == c);
}

/// A number is written by its digits, the last of which is what is left over by ten, and
/// without a zero in front. The digits follow each other as characters do, from `0` to
/// `9` and from `a` to `f`.
pub proof fn numbers_are_written_by_their_digits(tens: nat, ones: nat)
    requires
        ones < 10,
    ensures
        tens > 0 ==> decimal(tens * 10 + ones) == decimal(tens).push(digit(ones)),
        decimal(ones) == seq![digit(ones)],
        tens > 0 ==> decimal(tens)[0] != '0',
        digit(ones) as int == '0' as int + ones,
        ones < 6 ==> digit(ones + 10) as int == 'a' as int + ones,
{
    if tens > 0 {
        lemma_no_zero_in_front(tens);
    }
}

proof fn lemma_no_zero_in_front(n: nat)
    requires
        n > 0,
    ensures
        decimal(n).len() > 0,
        decimal(n)[0] != '0',
    decreases n,
{
    if n >= 10 {
        lemma_no_zero_in_front(n / 10);
    }
}

/// What a digit of base sixteen is worth.
pub open spec fn hex_digit_value(c: char) -> int {
    if c <= '9' {
        c as int - '0' as int
    } else {
        c as int - 'a' as int + 10
    }
}

/// What digits of base sixteen are worth together.
pub open spec fn hex_value(digits: Seq<char>) -> int
    decreases digits.len(),
{
    if digits.len() == 0 {
        0
    } else {
        hex_value(digits.drop_last()) * 16 + hex_digit_value(digits.last())
    }
}

/// Sixteen digits of base sixteen are worth the 64-bit number that they write.
pub proof fn hex_reads_back(n: u64)
    ensures
        hex_value(hex(n as nat, 16)) == n,
{
    assert(sixteen_to(16) == 0x1_0000_0000_0000_0000) by {
        reveal_with_fuel(sixteen_to, 17);
    }
    lemma_hex_value(n as nat, 16);
}

proof fn lemma_hex_value(n: nat, width: nat)
    requires
        n < sixteen_to(width),
    ensures
        hex_value(hex(n, width)) == n,
    decreases width,
{
    if width > 0 {
        let w = (width - 1) as nat;
        lemma_hex_value(n / 16, w);
        let digits = hex(n, width);
        assert(digits == hex(n / 16, w).push(digit(n % 16)));
        assert(digits.drop_last() =~= hex(n / 16, w));
        assert(digits.last() == digit(n % 16));
    }
}

/// At any width, a number is written in base sixteen by its digits, the last of which is
/// what is left over by sixteen. At no width nothing is written.
pub proof fn hex_is_written_by_its_digits(sixteens: nat, ones: nat, width: nat)
    requires
        ones < 16,
    ensures
        hex(sixteens * 16 + ones, width + 1) == hex(sixteens, width).push(digit(ones)),
        hex(ones, 0).len() == 0,
{
}

} // verus!
