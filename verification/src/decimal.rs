//! Numbers as text: unsigned integers, and fixed-point numbers written as
//! decimals. Text is a sequence of bytes, and only ASCII has a meaning here.
//!
//! A fixed-point number is written with an optional sign, digits, and
//! optionally a point and more digits; at least one digit must be there. It
//! is read in millionths: of the digits after the point the first six count.
//! It is written with all six.

use vstd::prelude::*;

verus! {

/// The byte is a decimal digit.
pub open spec fn is_digit(byte: u8) -> bool {
    0x30 <= byte <= 0x39
}

/// Every byte is a decimal digit.
pub open spec fn all_digits(text: Seq<u8>) -> bool {
    forall|i: int| 0 <= i < text.len() ==> is_digit(#[trigger] text[i])
}

/// The number that the digits spell; 0 for no digits.
pub open spec fn digits_value(text: Seq<u8>) -> int
    decreases text.len(),
{
    if text.len() == 0 {
        0
    } else {
        digits_value(text.drop_last()) * 10 + (text.last() - 0x30)
    }
}

/// The text without a plus sign in front, if it has one.
pub open spec fn unsigned_digits(text: Seq<u8>) -> Seq<u8> {
    if text.len() > 0 && text[0] == 0x2b {
        text.subrange(1, text.len() as int)
    } else {
        text
    }
}

/// The unsigned integer that the text spells: digits, with or without a
/// plus sign in front, and a value that `u64` holds.
pub open spec fn unsigned_value(text: Seq<u8>) -> Option<u64> {
    let digits = unsigned_digits(text);
    if digits.len() > 0 && all_digits(digits) && digits_value(digits) <= u64::MAX {
        Some(digits_value(digits) as u64)
    } else {
        None
    }
}

/// The value of digits is no less than the value of the digits they start
/// with, and never negative.
pub proof fn lemma_digits_value_grows(text: Seq<u8>, upto: int)
    requires
        all_digits(text),
        0 <= upto <= text.len(),
    ensures
        0 <= digits_value(text.subrange(0, upto)) <= digits_value(text),
    decreases text.len() - upto,
{
    if upto == text.len() {
        assert(text.subrange(0, upto) =~= text);
        lemma_digits_value_not_negative(text);
    } else {
        lemma_digits_value_grows(text, upto + 1);
        let longer = text.subrange(0, upto + 1);
        assert(longer.drop_last() =~= text.subrange(0, upto));
        assert(is_digit(text[upto]));
        lemma_digits_value_not_negative(text.subrange(0, upto));
    }
}

/// The value of digits is never negative.
pub proof fn lemma_digits_value_not_negative(text: Seq<u8>)
    requires
        all_digits(text),
    ensures
        0 <= digits_value(text),
    decreases text.len(),
{
    if text.len() > 0 {
        assert(is_digit(text[text.len() - 1]));
        lemma_digits_value_not_negative(text.drop_last());
    }
}

/// Reads the digits `text[from..to]` into a number, as long as `u64` holds
/// it. Returns `None` at a byte that is no digit or when the number grows
/// too large.
fn read_digits(text: &[u8], from: usize, to: usize) -> (value: Option<u64>)
    requires
        from <= to <= text@.len(),
    ensures
        value == if all_digits(text@.subrange(from as int, to as int)) && digits_value(
            text@.subrange(from as int, to as int),
        ) <= u64::MAX {
            Some(digits_value(text@.subrange(from as int, to as int)) as u64)
        } else {
            None
        },
{
    let ghost digits = text@.subrange(from as int, to as int);
    let mut value: u64 = 0;
    let mut i: usize = from;
    while i < to
        invariant
            from <= i <= to <= text@.len(),
            digits == text@.subrange(from as int, to as int),
            all_digits(digits.subrange(0, i - from)),
            value == digits_value(digits.subrange(0, i - from)),
        decreases to - i,
    {
        let byte = text[i];
        if byte < 0x30 || byte > 0x39 {
            assert(!is_digit(digits[i - from]));
            return None;
        }
        let digit = (byte - 0x30) as u64;
        proof {
            let longer = digits.subrange(0, i - from + 1);
            assert(longer.drop_last() =~= digits.subrange(0, i - from));
            assert(longer.last() == byte);
            assert forall|k: int| 0 <= k < longer.len() implies is_digit(#[trigger] longer[k]) by {
                if k < i - from {
                    assert(digits.subrange(0, i - from)[k] == longer[k]);
                }
            }
        }
        if value > (u64::MAX - digit) / 10 {
            proof {
                if all_digits(digits) {
                    lemma_digits_value_grows(digits, i - from + 1);
                }
            }
            return None;
        }
        value = value * 10 + digit;
        i += 1;
    }
    assert(digits.subrange(0, i - from) =~= digits);
    Some(value)
}

/// Reads an unsigned integer: digits, with or without a plus sign in
/// front. Returns `None` for anything else, and for a number that `u64`
/// does not hold.
pub fn parse_unsigned(text: &[u8]) -> (value: Option<u64>)
    ensures
        value == unsigned_value(text@),
{
    let from: usize = if text.len() > 0 && text[0] == 0x2b {
        1
    } else {
        0
    };
    if from == text.len() {
        return None;
    }
    assert(unsigned_digits(text@) =~= text@.subrange(from as int, text@.len() as int));
    proof {
        if all_digits(unsigned_digits(text@)) {
            lemma_digits_value_not_negative(unsigned_digits(text@));
        }
    }
    read_digits(text, from, text.len())
}

/// Where `byte` stands first in `text` from `from` on; the length of the
/// text if it stands nowhere.
pub open spec fn first_index_of(text: Seq<u8>, byte: u8, from: int) -> int
    decreases text.len() - from,
{
    if from >= text.len() {
        text.len() as int
    } else if text[from] == byte {
        from
    } else {
        first_index_of(text, byte, from + 1)
    }
}

/// A byte stands first at or after the place the search starts from, and
/// within the text or at its end.
pub proof fn lemma_first_index_bounds(text: Seq<u8>, byte: u8, from: int)
    requires
        0 <= from <= text.len(),
    ensures
        from <= first_index_of(text, byte, from) <= text.len(),
        first_index_of(text, byte, from) < text.len() ==> text[first_index_of(text, byte, from)]
            == byte,
        forall|i: int| from <= i < first_index_of(text, byte, from) ==> text[i] != byte,
    decreases text.len() - from,
{
    if from < text.len() && text[from] != byte {
        lemma_first_index_bounds(text, byte, from + 1);
    }
}

/// Finds where `byte` stands first in `text[from..to]`; `to` if it stands
/// nowhere there.
pub fn find_byte(text: &[u8], byte: u8, from: usize, to: usize) -> (index: usize)
    requires
        from <= to <= text@.len(),
    ensures
        from <= index <= to,
        index == first_index_of(text@.subrange(0, to as int), byte, from as int),
        forall|i: int| from <= i < index ==> text@[i] != byte,
        index < to ==> text@[index as int] == byte,
{
    let ghost within = text@.subrange(0, to as int);
    let mut index: usize = from;
    while index < to && text[index] != byte
        invariant
            from <= index <= to <= text@.len(),
            within == text@.subrange(0, to as int),
            first_index_of(within, byte, from as int) == first_index_of(
                within,
                byte,
                index as int,
            ),
            forall|i: int| from <= i < index ==> text@[i] != byte,
        decreases to - index,
    {
        assert(within[index as int] == text@[index as int]);
        index += 1;
    }
    proof {
        if index < to {
            assert(within[index as int] == text@[index as int]);
        }
    }
    index
}

/// Ten to the power of `k`.
pub open spec fn ten_to(k: nat) -> int
    decreases k,
{
    if k == 0 {
        1
    } else {
        10 * ten_to((k - 1) as nat)
    }
}

/// The first six digits of a fraction, with zeros where it has fewer.
pub open spec fn six_digits(fraction: Seq<u8>) -> Seq<u8> {
    Seq::new(
        6,
        |i: int|
            if i < fraction.len() {
                fraction[i]
            } else {
                0x30u8
            },
    )
}

/// The text without a sign in front, if it has one.
pub open spec fn unsigned_part(text: Seq<u8>) -> Seq<u8> {
    if text.len() > 0 && (text[0] == 0x2b || text[0] == 0x2d) {
        text.subrange(1, text.len() as int)
    } else {
        text
    }
}

/// The digits before the point of a decimal without sign.
pub open spec fn whole_digits(body: Seq<u8>) -> Seq<u8> {
    body.subrange(0, first_index_of(body, 0x2e, 0))
}

/// The digits after the point of a decimal without sign; none if it has no
/// point.
pub open spec fn fraction_digits(body: Seq<u8>) -> Seq<u8> {
    let point = first_index_of(body, 0x2e, 0);
    if point < body.len() {
        body.subrange(point + 1, body.len() as int)
    } else {
        Seq::empty()
    }
}

/// The text is a decimal without sign: digits, at most one point among
/// them, and at least one digit.
pub open spec fn is_decimal(body: Seq<u8>) -> bool {
    &&& all_digits(whole_digits(body))
    &&& all_digits(fraction_digits(body))
    &&& whole_digits(body).len() + fraction_digits(body).len() > 0
}

/// The millionths that a decimal without sign stands for; what follows the
/// sixth digit after the point does not count.
pub open spec fn decimal_micros(body: Seq<u8>) -> int {
    digits_value(whole_digits(body)) * 1_000_000 + digits_value(six_digits(fraction_digits(body)))
}

/// The fixed-point number that the text spells: a decimal with or without
/// a sign, whose millionths `i64` holds.
pub open spec fn fixed_value(text: Seq<u8>) -> Option<i64> {
    let body = unsigned_part(text);
    let micros = if text.len() > 0 && text[0] == 0x2d {
        -decimal_micros(body)
    } else {
        decimal_micros(body)
    };
    if is_decimal(body) && i64::MIN <= micros <= i64::MAX {
        Some(micros as i64)
    } else {
        None
    }
}

/// Checks that `text[from..to]` holds digits only.
fn digits_only(text: &[u8], from: usize, to: usize) -> (all: bool)
    requires
        from <= to <= text@.len(),
    ensures
        all == all_digits(text@.subrange(from as int, to as int)),
{
    let ghost digits = text@.subrange(from as int, to as int);
    let mut i: usize = from;
    while i < to
        invariant
            from <= i <= to <= text@.len(),
            digits == text@.subrange(from as int, to as int),
            forall|k: int| 0 <= k < i - from ==> is_digit(#[trigger] digits[k]),
        decreases to - i,
    {
        if text[i] < 0x30 || text[i] > 0x39 {
            assert(!is_digit(digits[i - from]));
            return false;
        }
        i += 1;
    }
    true
}

/// Reads the first six digits of the fraction `text[from..]`, which holds
/// digits only, as millionths.
fn read_fraction(text: &[u8], from: usize) -> (micros: u64)
    requires
        from <= text@.len(),
        all_digits(text@.subrange(from as int, text@.len() as int)),
    ensures
        micros == digits_value(six_digits(text@.subrange(from as int, text@.len() as int))),
        micros < 1_000_000,
{
    let ghost fraction = text@.subrange(from as int, text@.len() as int);
    let ghost six = six_digits(fraction);
    let mut micros: u64 = 0;
    let mut k: usize = 0;
    while k < 6
        invariant
            k <= 6,
            from <= text@.len(),
            fraction == text@.subrange(from as int, text@.len() as int),
            all_digits(fraction),
            six == six_digits(fraction),
            micros == digits_value(six.subrange(0, k as int)),
            micros < ten_to(k as nat),
        decreases 6 - k,
    {
        let digit: u64 = if k < text.len() - from {
            assert(is_digit(fraction[k as int]));
            (text[from + k] - 0x30) as u64
        } else {
            0
        };
        proof {
            let longer = six.subrange(0, k + 1);
            assert(longer.drop_last() =~= six.subrange(0, k as int));
            assert(longer.last() - 0x30 == digit);
            assert(ten_to(k as nat) <= 100_000 && ten_to((k + 1) as nat) == 10 * ten_to(k as nat))
                by {
                reveal_with_fuel(ten_to, 7);
            }
        }
        micros = micros * 10 + digit;
        k += 1;
    }
    assert(ten_to(6) == 1_000_000) by {
        reveal_with_fuel(ten_to, 7);
    }
    assert(six.subrange(0, 6) =~= six);
    micros
}

/// Reads a fixed-point number: a decimal with or without a sign. Returns
/// `None` for anything else, and for a number whose millionths `i64` does
/// not hold.
pub fn parse_fixed(text: &[u8]) -> (value: Option<i64>)
    ensures
        value == fixed_value(text@),
{
    let negative = text.len() > 0 && text[0] == 0x2d;
    let from: usize = if text.len() > 0 && (text[0] == 0x2b || text[0] == 0x2d) {
        1
    } else {
        0
    };
    let ghost body = unsigned_part(text@);
    assert(body =~= text@.subrange(from as int, text@.len() as int));
    let point = find_byte(text, 0x2e, from, text.len());
    proof {
        assert(text@.subrange(0, text@.len() as int) =~= text@);
        lemma_first_index_shifted(text@, 0x2e, from as int, from as int);
        assert(whole_digits(body) =~= text@.subrange(from as int, point as int));
    }
    let after: usize = if point < text.len() {
        point + 1
    } else {
        point
    };
    assert(fraction_digits(body) =~= text@.subrange(after as int, text@.len() as int));
    if !digits_only(text, after, text.len()) {
        return None;
    }
    if point - from + (text.len() - after) == 0 {
        return None;
    }
    let whole = match read_digits(text, from, point) {
        Some(whole) => whole,
        None => {
            proof {
                if all_digits(whole_digits(body)) {
                    lemma_digits_value_not_negative(six_digits(fraction_digits(body)));
                }
            }
            return None;
        },
    };
    let fraction = read_fraction(text, after);
    proof {
        lemma_digits_value_not_negative(text@.subrange(from as int, point as int));
    }
    assert(whole * 1_000_000 + fraction <= 0xffff_ffff_ffff_ffff * 1_000_000 + 1_000_000)
        by (nonlinear_arith)
        requires
            0 <= whole <= 0xffff_ffff_ffff_ffff,
            0 <= fraction < 1_000_000,
    ;
    let micros: u128 = (whole as u128) * 1_000_000 + fraction as u128;
    assert(micros == decimal_micros(body));
    if negative {
        if micros > 0x8000_0000_0000_0000 {
            None
        } else if micros == 0x8000_0000_0000_0000 {
            Some(i64::MIN)
        } else {
            Some(-(micros as i64))
        }
    } else if micros > 0x7fff_ffff_ffff_ffff {
        None
    } else {
        Some(micros as i64)
    }
}

/// The first place of a byte in what is left of a text after its first
/// `cut` bytes is its first place in the whole text from `cut` on, counted
/// anew.
pub proof fn lemma_first_index_shifted(text: Seq<u8>, byte: u8, cut: int, from: int)
    requires
        0 <= cut <= from <= text.len(),
    ensures
        first_index_of(text.subrange(cut, text.len() as int), byte, from - cut) == first_index_of(
            text,
            byte,
            from,
        ) - cut,
    decreases text.len() - from,
{
    let rest = text.subrange(cut, text.len() as int);
    if from < text.len() {
        assert(rest[from - cut] == text[from]);
        if text[from] != byte {
            lemma_first_index_shifted(text, byte, cut, from + 1);
        }
    }
}

/// The digits that spell a number, without zeros in front.
pub open spec fn digits_of(n: nat) -> Seq<u8>
    decreases n,
{
    if n < 10 {
        seq![(0x30 + n) as u8]
    } else {
        digits_of(n / 10).push((0x30 + n % 10) as u8)
    }
}

/// The last `width` digits of a number, with zeros in front where it has
/// fewer.
pub open spec fn padded_digits(n: nat, width: nat) -> Seq<u8>
    decreases width,
{
    if width == 0 {
        Seq::empty()
    } else {
        padded_digits(n / 10, (width - 1) as nat).push((0x30 + n % 10) as u8)
    }
}

/// The size of a fixed-point number, whatever its sign.
pub open spec fn magnitude(value: i64) -> nat {
    if value < 0 {
        (-value) as nat
    } else {
        value as nat
    }
}

/// A fixed-point number as text: a minus sign if it is negative, the whole
/// part, a point, and six digits of millionths.
pub open spec fn fixed_text(value: i64) -> Seq<u8> {
    let sign = if value < 0 {
        seq![0x2du8]
    } else {
        Seq::<u8>::empty()
    };
    sign + digits_of(magnitude(value) / 1_000_000).push(0x2e) + padded_digits(
        magnitude(value) % 1_000_000,
        6,
    )
}

/// Appends the digits of a number to a text.
pub fn push_digits(out: &mut Vec<u8>, n: u64)
    ensures
        final(out)@ == old(out)@ + digits_of(n as nat),
    decreases n,
{
    if n >= 10 {
        push_digits(out, n / 10);
    }
    out.push(0x30 + (n % 10) as u8);
    assert(out@ =~= old(out)@ + digits_of(n as nat));
}

/// Appends the last `width` digits of a number to a text, with zeros in
/// front where it has fewer.
pub fn push_padded(out: &mut Vec<u8>, n: u64, width: u8)
    ensures
        final(out)@ == old(out)@ + padded_digits(n as nat, width as nat),
    decreases width,
{
    if width > 0 {
        push_padded(out, n / 10, width - 1);
        out.push(0x30 + (n % 10) as u8);
    }
    assert(out@ =~= old(out)@ + padded_digits(n as nat, width as nat));
}

/// Writes an unsigned integer as text.
pub fn render_unsigned(n: u64) -> (text: Vec<u8>)
    ensures
        text@ == digits_of(n as nat),
{
    let mut text: Vec<u8> = Vec::new();
    push_digits(&mut text, n);
    text
}

/// Appends a fixed-point number to a text.
pub fn push_fixed(out: &mut Vec<u8>, value: i64)
    ensures
        final(out)@ == old(out)@ + fixed_text(value),
{
    let size: u64 = if value < 0 {
        out.push(0x2d);
        if value == i64::MIN {
            0x8000_0000_0000_0000
        } else {
            (-value) as u64
        }
    } else {
        value as u64
    };
    push_digits(out, size / 1_000_000);
    out.push(0x2e);
    push_padded(out, size % 1_000_000, 6);
    assert(out@ =~= old(out)@ + fixed_text(value));
}

/// Writes a fixed-point number as text.
pub fn render_fixed(value: i64) -> (text: Vec<u8>)
    ensures
        text@ == fixed_text(value),
{
    let mut text: Vec<u8> = Vec::new();
    push_fixed(&mut text, value);
    text
}

/// The digits of a number are digits, at least one of them, and spell the
/// number.
pub proof fn lemma_digits_of(n: nat)
    ensures
        digits_of(n).len() > 0,
        all_digits(digits_of(n)),
        digits_value(digits_of(n)) == n,
    decreases n,
{
    if n < 10 {
        let text = digits_of(n);
        assert(text.drop_last() =~= Seq::<u8>::empty());
        assert(digits_value(text.drop_last()) == 0);
    } else {
        lemma_digits_of(n / 10);
        let text = digits_of(n);
        assert(text.drop_last() =~= digits_of(n / 10));
        assert forall|i: int| 0 <= i < text.len() implies is_digit(#[trigger] text[i]) by {
            if i < text.len() - 1 {
                assert(text[i] == digits_of(n / 10)[i]);
            }
        }
    }
}

/// The last `width` digits of a number are `width` digits, and spell what
/// is left of the number after division by ten to the power of `width`.
pub proof fn lemma_padded_digits(n: nat, width: nat)
    ensures
        padded_digits(n, width).len() == width,
        all_digits(padded_digits(n, width)),
        digits_value(padded_digits(n, width)) == n % (ten_to(width) as nat),
        ten_to(width) > 0,
    decreases width,
{
    if width > 0 {
        lemma_padded_digits(n / 10, (width - 1) as nat);
        let text = padded_digits(n, width);
        assert(text.drop_last() =~= padded_digits(n / 10, (width - 1) as nat));
        assert forall|i: int| 0 <= i < text.len() implies is_digit(#[trigger] text[i]) by {
            if i < text.len() - 1 {
                assert(text[i] == padded_digits(n / 10, (width - 1) as nat)[i]);
            }
        }
        let lower = ten_to((width - 1) as nat);
        let tens = (n / 10) as int;
        let kept = tens % lower * 10 + n % 10;
        vstd::arithmetic::div_mod::lemma_fundamental_div_mod(tens, lower);
        vstd::arithmetic::div_mod::lemma_mod_pos_bound(tens, lower);
        assert(n == (tens / lower) * (10 * lower) + kept) by (nonlinear_arith)
            requires
                lower > 0,
                n == tens * 10 + n % 10,
                tens == lower * (tens / lower) + tens % lower,
                kept == tens % lower * 10 + n % 10,
        ;
        assert(0 <= kept < 10 * lower) by (nonlinear_arith)
            requires
                lower > 0,
                0 <= tens % lower < lower,
                0 <= n % 10 < 10,
                kept == tens % lower * 10 + n % 10,
        ;
        vstd::arithmetic::div_mod::lemma_fundamental_div_mod_converse(
            n as int,
            10 * lower,
            tens / lower,
            kept,
        );
    } else {
        assert(n % 1 == 0);
    }
}

/// A byte that stands at `at` and nowhere between `from` and `at` stands
/// first at `at`.
pub proof fn lemma_first_index_found(text: Seq<u8>, byte: u8, from: int, at: int)
    requires
        0 <= from <= at < text.len(),
        text[at] == byte,
        forall|i: int| from <= i < at ==> text[i] != byte,
    ensures
        first_index_of(text, byte, from) == at,
    decreases at - from,
{
    if from < at {
        lemma_first_index_found(text, byte, from + 1, at);
    }
}

/// What is written is read back: the digits of a number spell that number.
pub proof fn lemma_unsigned_round_trip(n: u64)
    ensures
        unsigned_value(digits_of(n as nat)) == Some(n),
{
    lemma_digits_of(n as nat);
    let text = digits_of(n as nat);
    assert(is_digit(text[0]));
    assert(unsigned_digits(text) == text);
}

/// What is written is read back: the text of a fixed-point number spells
/// that number.
pub proof fn lemma_fixed_round_trip(value: i64)
    ensures
        fixed_value(fixed_text(value)) == Some(value),
{
    let size = magnitude(value);
    let whole = digits_of(size / 1_000_000);
    let fraction = padded_digits(size % 1_000_000, 6);
    let body = whole.push(0x2e) + fraction;
    let text = fixed_text(value);
    lemma_digits_of(size / 1_000_000);
    lemma_padded_digits(size % 1_000_000, 6);
    assert(ten_to(6) == 1_000_000) by {
        reveal_with_fuel(ten_to, 7);
    }
    if value < 0 {
        assert(text[0] == 0x2d);
        assert(unsigned_part(text) =~= body);
    } else {
        assert(text =~= body);
        assert(text[0] == whole[0]);
        assert(is_digit(whole[0]));
        assert(unsigned_part(text) =~= body);
    }
    let point = whole.len() as int;
    assert(body[point] == 0x2e);
    assert forall|i: int| 0 <= i < point implies body[i] != 0x2e by {
        assert(body[i] == whole[i]);
        assert(is_digit(whole[i]));
    }
    lemma_first_index_found(body, 0x2e, 0, point);
    assert(whole_digits(body) =~= whole);
    assert(fraction_digits(body) =~= fraction);
    assert(six_digits(fraction) =~= fraction);
    assert(digits_value(whole) == size / 1_000_000);
    assert(digits_value(fraction) == (size % 1_000_000) % (ten_to(6) as nat));
    assert((size % 1_000_000) % 1_000_000 == size % 1_000_000);
    assert((size / 1_000_000) * 1_000_000 + size % 1_000_000 == size);
    assert(decimal_micros(body) == size);
}

/// The byte is ASCII white space: a blank, a tab, a line feed, a vertical
/// tab, a form feed or a carriage return.
pub open spec fn is_space(byte: u8) -> bool {
    byte == 0x20 || (0x09 <= byte <= 0x0d)
}

/// The text without the white space at its ends.
pub open spec fn trimmed(text: Seq<u8>) -> Seq<u8>
    decreases text.len(),
{
    if text.len() > 0 && is_space(text[0]) {
        trimmed(text.drop_first())
    } else if text.len() > 0 && is_space(text.last()) {
        trimmed(text.drop_last())
    } else {
        text
    }
}

/// Finds what is left of `text[from..to]` without the white space at its
/// ends: the range `start..end` of the text.
pub fn trim(text: &[u8], from: usize, to: usize) -> (range: (usize, usize))
    requires
        from <= to <= text@.len(),
    ensures
        from <= range.0 <= range.1 <= to,
        text@.subrange(range.0 as int, range.1 as int) == trimmed(
            text@.subrange(from as int, to as int),
        ),
{
    let mut start: usize = from;
    while start < to && (text[start] == 0x20 || (0x09 <= text[start] && text[start] <= 0x0d))
        invariant
            from <= start <= to <= text@.len(),
            trimmed(text@.subrange(from as int, to as int)) == trimmed(
                text@.subrange(start as int, to as int),
            ),
        decreases to - start,
    {
        assert(text@.subrange(start as int, to as int).drop_first() =~= text@.subrange(
            start + 1,
            to as int,
        ));
        start += 1;
    }
    let mut end: usize = to;
    while end > start && (text[end - 1] == 0x20 || (0x09 <= text[end - 1] && text[end - 1]
        <= 0x0d))
        invariant
            from <= start <= end <= to <= text@.len(),
            start < to ==> !is_space(text@[start as int]),
            trimmed(text@.subrange(from as int, to as int)) == trimmed(
                text@.subrange(start as int, end as int),
            ),
        decreases end - start,
    {
        assert(text@.subrange(start as int, end as int).drop_last() =~= text@.subrange(
            start as int,
            end - 1,
        ));
        end -= 1;
    }
    (start, end)
}

/// Checks whether `text[from..to]` is the text `expected`.
pub fn is_text(text: &[u8], from: usize, to: usize, expected: &[u8]) -> (same: bool)
    requires
        from <= to <= text@.len(),
    ensures
        same == (text@.subrange(from as int, to as int) == expected@),
{
    if to - from != expected.len() {
        return false;
    }
    let ghost part = text@.subrange(from as int, to as int);
    let mut i: usize = 0;
    while i < expected.len()
        invariant
            i <= expected@.len(),
            from <= to <= text@.len(),
            to - from == expected@.len(),
            part == text@.subrange(from as int, to as int),
            forall|k: int| 0 <= k < i ==> part[k] == expected@[k],
        decreases expected@.len() - i,
    {
        if text[from + i] != expected[i] {
            assert(part[i as int] != expected@[i as int]);
            return false;
        }
        i += 1;
    }
    assert(part =~= expected@);
    true
}

} // verus!
