//! Numbers as text: the fixed-width hexadecimal and the decimal forms that
//! messages and the settings window show, and the reading of a decimal back.

use vstd::prelude::*;
use vstd::string::*;

verus! {

/// The digit of value `d`, letters in upper case.
pub open spec fn digit_char(d: nat) -> char {
    if d < 10 {
        ('0' as nat + d) as char
    } else {
        ('A' as nat + (d - 10)) as char
    }
}

/// `value` in base 16, padded on the left with zeros to `width` digits. Digits
/// above the lowest `width` are left out.
pub open spec fn hex_text(value: nat, width: nat) -> Seq<char>
    decreases width,
{
    if width == 0 {
        Seq::empty()
    } else {
        hex_text(value / 16, (width - 1) as nat).push(digit_char(value % 16))
    }
}

/// `value` in base 10 without leading zeros.
pub open spec fn decimal_text(value: nat) -> Seq<char>
    decreases value,
{
    if value < 10 {
        seq![digit_char(value)]
    } else {
        decimal_text(value / 10).push(digit_char(value % 10))
    }
}

/// Whether `c` is one of the ten decimal digits.
pub open spec fn is_decimal_digit(c: char) -> bool {
    '0' <= c && c <= '9'
}

/// The number that a row of decimal digits stands for.
pub open spec fn decimal_value(s: Seq<char>) -> nat
    decreases s.len(),
{
    if s.len() == 0 {
        0
    } else {
        decimal_value(s.drop_last()) * 10 + (s.last() as nat - '0' as nat) as nat
    }
}

fn digit_str(d: u64) -> (s: &'static str)
    requires
        d < 16,
    ensures
        s@ == seq![digit_char(d as nat)],
{
    proof {
        reveal_strlit("0");
        reveal_strlit("1");
        reveal_strlit("2");
        reveal_strlit("3");
        reveal_strlit("4");
        reveal_strlit("5");
        reveal_strlit("6");
        reveal_strlit("7");
        reveal_strlit("8");
        reveal_strlit("9");
        reveal_strlit("A");
        reveal_strlit("B");
        reveal_strlit("C");
        reveal_strlit("D");
        reveal_strlit("E");
        reveal_strlit("F");
    }
    match d {
        0 => "0",
        1 => "1",
        2 => "2",
        3 => "3",
        4 => "4",
        5 => "5",
        6 => "6",
        7 => "7",
        8 => "8",
        9 => "9",
        10 => "A",
        11 => "B",
        12 => "C",
        13 => "D",
        14 => "E",
        _ => "F",
    }
}

/// Appends `value` in base 16, upper case, in exactly `width` digits.
pub fn append_hex(out: &mut String, value: u64, width: usize)
    ensures
        final(out)@ == old(out)@ + hex_text(value as nat, width as nat),
    decreases width,
{
    if width > 0 {
        append_hex(out, value / 16, width - 1);
        out.append(digit_str(value % 16));
    }
}

/// Appends `value` in base 10.
pub fn append_decimal(out: &mut String, value: u64)
    ensures
        final(out)@ == old(out)@ + decimal_text(value as nat),
    decreases value,
{
    if value >= 10 {
        append_decimal(out, value / 10);
    }
    out.append(digit_str(value % 10));
}

/// `value` in base 10.
pub fn decimal(value: u64) -> (text: String)
    ensures
        text@ == decimal_text(value as nat),
{
    let mut out = String::new();
    append_decimal(&mut out, value);
    out
}

/// What follows an optional leading plus sign.
pub open spec fn without_plus(s: Seq<char>) -> Seq<char> {
    if s.len() > 0 && s[0] == '+' {
        s.skip(1)
    } else {
        s
    }
}

/// The sixteen-bit number that `s` writes: an optional plus sign, then one or
/// more decimal digits and nothing else.
pub open spec fn parsed_u16(s: Seq<char>) -> Option<u16> {
    let digits = without_plus(s);
    if digits.len() > 0 && (forall|i: int|
        0 <= i < digits.len() ==> is_decimal_digit(#[trigger] digits[i])) && decimal_value(digits)
        <= u16::MAX {
        Some(decimal_value(digits) as u16)
    } else {
        None
    }
}

proof fn lemma_prefix_value(s: Seq<char>, n: int)
    requires
        0 <= n <= s.len(),
    ensures
        decimal_value(s.take(n)) <= decimal_value(s),
    decreases s.len() - n,
{
    if n == s.len() {
        assert(s.take(n) == s);
    } else {
        lemma_prefix_value(s, n + 1);
        assert(s.take(n + 1).drop_last() == s.take(n));
    }
}

/// Reads a sixteen-bit number, `None` where `text` writes none.
pub fn parse_u16(text: &str) -> (value: Option<u16>)
    ensures
        value == parsed_u16(text@),
{
    let len = text.unicode_len();
    let start: usize = if len > 0 && text.get_char(0) == '+' {
        1
    } else {
        0
    };
    let ghost digits = without_plus(text@);
    assert(digits.len() == len - start);
    assert(forall|i: int| 0 <= i < digits.len() ==> digits[i] == text@[start + i]);
    if start == len {
        return None;
    }
    let mut value: u32 = 0;
    let mut at: usize = start;
    while at < len
        invariant
            start <= at <= len,
            start < len,
            len == text@.len(),
            digits == without_plus(text@),
            digits.len() == len - start,
            forall|i: int| 0 <= i < digits.len() ==> digits[i] == text@[start + i],
            forall|i: int| 0 <= i < at - start ==> is_decimal_digit(#[trigger] digits[i]),
            value == decimal_value(digits.take(at - start)),
            value <= u16::MAX,
        decreases len - at,
    {
        let c = text.get_char(at);
        assert(digits[at - start] == c);
        if c < '0' || '9' < c {
            return None;
        }
        assert(digits.take(at - start + 1).drop_last() == digits.take(at - start));
        value = value * 10 + (c as u32 - '0' as u32);
        if value > u16::MAX as u32 {
            proof {
                lemma_prefix_value(digits, at - start + 1);
            }
            return None;
        }
        at += 1;
    }
    assert(digits.take(len - start) == digits);
    Some(value as u16)
}

proof fn lemma_decimal_text(value: nat)
    ensures
        decimal_text(value).len() > 0,
        forall|i: int|
            0 <= i < decimal_text(value).len() ==> is_decimal_digit(
                #[trigger] decimal_text(value)[i],
            ),
        decimal_value(decimal_text(value)) == value,
    decreases value,
{
    let text = decimal_text(value);
    if value < 10 {
        assert(text.drop_last() == Seq::<char>::empty());
        assert(decimal_value(text.drop_last()) == 0);
    } else {
        lemma_decimal_text(value / 10);
        assert(text.drop_last() == decimal_text(value / 10));
    }
}

/// A number written in base 10 reads back as itself.
pub proof fn decimal_reads_back(value: u16)
    ensures
        parsed_u16(decimal_text(value as nat)) == Some(value),
{
    lemma_decimal_text(value as nat);
    assert(is_decimal_digit(decimal_text(value as nat)[0]));
}

/// Whether `c` is one of the sixteen digits `0` to `9` and `A` to `F`.
pub open spec fn is_hex_digit(c: char) -> bool {
    '0' <= c <= '9' || 'A' <= c <= 'F'
}

/// The number that a row of upper-case hexadecimal digits stands for.
pub open spec fn hex_value(s: Seq<char>) -> nat
    decreases s.len(),
{
    if s.len() == 0 {
        0
    } else if s.last() <= '9' {
        hex_value(s.drop_last()) * 16 + (s.last() as nat - 48) as nat
    } else {
        hex_value(s.drop_last()) * 16 + (s.last() as nat - 55) as nat
    }
}

/// How many numbers `width` hexadecimal digits tell apart.
pub open spec fn hex_range(width: nat) -> nat
    decreases width,
{
    if width == 0 {
        1
    } else {
        16 * hex_range((width - 1) as nat)
    }
}

proof fn lemma_hex_range(width: nat)
    ensures
        hex_range(width) > 0,
    decreases width,
{
    if width > 0 {
        lemma_hex_range((width - 1) as nat);
    }
}

/// A number written in `width` hexadecimal digits is that many digits, letters in
/// upper case, that read back as the number, or as what is left of it where it is too
/// large.
pub proof fn hex_reads_back(value: nat, width: nat)
    ensures
        hex_text(value, width).len() == width,
        forall|i: int| 0 <= i < width ==> is_hex_digit(#[trigger] hex_text(value, width)[i]),
        hex_value(hex_text(value, width)) == value % hex_range(width),
        value < hex_range(width) ==> hex_value(hex_text(value, width)) == value,
    decreases width,
{
    lemma_hex_range(width);
    if width > 0 {
        let shorter = (width - 1) as nat;
        hex_reads_back(value / 16, shorter);
        lemma_hex_range(shorter);
        let text = hex_text(value, width);
        assert(text.drop_last() =~= hex_text(value / 16, shorter));
        vstd::arithmetic::div_mod::lemma_mod_breakdown(
            value as int,
            16,
            hex_range(shorter) as int,
        );
    }
    if value < hex_range(width) {
        vstd::arithmetic::div_mod::lemma_small_mod(value, hex_range(width));
    }
}

/// A number in base 10 is one or more decimal digits without a leading zero, but for
/// zero itself, and stands for the number.
pub proof fn decimals_are_plain(value: nat)
    ensures
        decimal_text(value).len() > 0,
        forall|i: int|
            0 <= i < decimal_text(value).len() ==> '0' <= #[trigger] decimal_text(value)[i] <= '9',
        decimal_text(value)[0] == '0' ==> value == 0 && decimal_text(value).len() == 1,
        decimal_value(decimal_text(value)) == value,
    decreases value,
{
    lemma_decimal_text(value);
    if value >= 10 {
        decimals_are_plain(value / 10);
        assert(decimal_text(value)[0] == decimal_text(value / 10)[0]);
    }
    assert forall|i: int| 0 <= i < decimal_text(value).len() implies '0' <= #[trigger] decimal_text(
        value,
    )[i] <= '9' by {
        assert(is_decimal_digit(decimal_text(value)[i]));
    }
}

/// One digit more multiplies by ten and adds.
pub proof fn digits_count_in_tens(s: Seq<char>, c: char)
    requires
        '0' <= c <= '9',
    ensures
        decimal_value(Seq::<char>::empty()) == 0,
        decimal_value(s.push(c)) == decimal_value(s) * 10 + (c as nat - 48),
{
    assert(s.push(c).drop_last() =~= s);
}

/// Nothing, and a plus sign alone, write no number; one digit writes its own.
pub proof fn short_numbers(c: char)
    ensures
        parsed_u16(Seq::<char>::empty()) is None,
        parsed_u16(seq!['+']) is None,
        '0' <= c <= '9' ==> parsed_u16(seq![c]) == Some((c as nat - 48) as u16),
{
    assert(seq!['+'].skip(1) =~= Seq::<char>::empty());
    assert(seq![c].drop_last() =~= Seq::<char>::empty());
    if '0' <= c <= '9' {
        assert(is_decimal_digit(without_plus(seq![c])[0]));
    }
}

/// A plus sign in front changes nothing, but a second one is one too many.
pub proof fn one_plus_sign_is_ignored(s: Seq<char>)
    requires
        s.len() > 0,
    ensures
        s[0] != '+' ==> parsed_u16(seq!['+'] + s) == parsed_u16(s),
        s[0] == '+' ==> parsed_u16(seq!['+'] + s) is None,
{
    assert((seq!['+'] + s).skip(1) =~= s);
    if s[0] == '+' {
        assert(!is_decimal_digit(without_plus(seq!['+'] + s)[0]));
    }
}

/// Whatever is no decimal digit, but for the plus sign in front, writes no number.
pub proof fn only_digits_write_numbers(s: Seq<char>, i: int)
    requires
        0 <= i < s.len(),
        !('0' <= s[i] <= '9'),
        i > 0 || s[i] != '+',
    ensures
        parsed_u16(s) is None,
{
    let digits = without_plus(s);
    if s[0] == '+' {
        assert(!is_decimal_digit(digits[i - 1]));
    } else {
        assert(!is_decimal_digit(digits[i]));
    }
}

/// A digit behind a number makes it ten times as large and adds to it, as far as
/// sixteen bits go; behind what writes no number it writes none.
pub proof fn numbers_grow_by_digits(s: Seq<char>, c: char)
    requires
        s.len() > 0,
        '0' <= c <= '9',
        s != seq!['+'],
    ensures
        parsed_u16(s) matches Some(v) ==> {
            let grown = v * 10 + (c as nat - 48);
            parsed_u16(s.push(c)) == (if grown <= 65535 {
                Some(grown as u16)
            } else {
                None
            })
        },
        parsed_u16(s) is None ==> parsed_u16(s.push(c)) is None,
{
    let digits = without_plus(s);
    let grown = without_plus(s.push(c));
    assert(grown =~= digits.push(c));
    digits_count_in_tens(digits, c);
    if digits.len() == 0 {
        assert(s =~= seq!['+']);
    }
    let plain = forall|i: int| 0 <= i < digits.len() ==> is_decimal_digit(#[trigger] digits[i]);
    if plain {
        assert forall|i: int| 0 <= i < grown.len() implies is_decimal_digit(#[trigger] grown[i]) by {
            if i < digits.len() {
                assert(is_decimal_digit(digits[i]));
            }
        }
    } else {
        let i = choose|i: int| 0 <= i < digits.len() && !is_decimal_digit(#[trigger] digits[i]);
        assert(!is_decimal_digit(grown[i]));
    }
}

} // verus!
