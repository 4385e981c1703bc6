//! Text building: positional numerals, zero padding, decimal signs, and the
//! removal of surrounding white space.

use vstd::prelude::*;

verus! {

/// The sixteen digits of hexadecimal notation, in order of value.
#[verifier::opaque]
pub open spec fn digit_char(d: int) -> char {
    seq!['0', '1', '2', '3', '4', '5', '6', '7', '8', '9', 'a', 'b', 'c', 'd', 'e', 'f'][d]
}

/// The numeral of `n` in `base`: no leading zero, and `0` for zero.
pub open spec fn numeral(n: nat, base: nat) -> Seq<char>
    decreases n,
{
    if base < 2 || n < base {
        seq![digit_char(n as int)]
    } else {
        proof {
            assert(n / base < n) by (nonlinear_arith)
                requires
                    n >= base,
                    base >= 2,
            ;
        }
        numeral(n / base, base).push(digit_char((n % base) as int))
    }
}

/// `count` zeros.
pub open spec fn zeros(count: nat) -> Seq<char> {
    Seq::new(count, |_i: int| '0')
}

/// The decimal numeral of `n`, filled up with zeros on the left to `width`
/// characters; longer numerals stay as they are.
pub open spec fn padded(n: nat, width: nat) -> Seq<char> {
    let plain = numeral(n, 10);
    if plain.len() < width {
        zeros((width - plain.len()) as nat) + plain
    } else {
        plain
    }
}

/// The decimal numeral of an integer, filled up with zeros to `width`
/// characters; a minus sign stands in front and counts towards the width.
pub open spec fn padded_signed(n: int, width: nat) -> Seq<char> {
    if n < 0 {
        seq!['-'] + padded((-n) as nat, if width > 0 { (width - 1) as nat } else { 0 })
    } else {
        padded(n as nat, width)
    }
}

/// The decimal numeral of an integer, with a minus sign where it is negative.
pub open spec fn decimal(n: int) -> Seq<char> {
    padded_signed(n, 0)
}

/// Appends the decimal numeral of `n`, with a minus sign where it is negative,
/// to `out`.
pub fn push_decimal(out: &mut String, n: i64)
    ensures
        final(out)@ == old(out)@ + decimal(n as int),
{
    let ghost before = out@;
    if n < 0 {
        proof {
            reveal_strlit("-");
        }
        out.append("-");
        push_padded(out, (-(n as i128)) as u64, 0);
    } else {
        push_padded(out, n as u64, 0);
    }
    assert(out@ =~= before + decimal(n as int));
}

/// The contents of some texts.
pub open spec fn texts(list: Seq<String>) -> Seq<Seq<char>> {
    list.map_values(|text: String| text@)
}

/// White space as Unicode has it: the characters with the property
/// `White_Space`.
pub open spec fn white_space(c: char) -> bool {
    let code = c as int;
    ||| 0x09 <= code <= 0x0d
    ||| code == 0x20
    ||| code == 0x85
    ||| code == 0xa0
    ||| code == 0x1680
    ||| 0x2000 <= code <= 0x200a
    ||| code == 0x2028
    ||| code == 0x2029
    ||| code == 0x202f
    ||| code == 0x205f
    ||| code == 0x3000
}

/// The text without the white space at its two ends.
pub open spec fn trimmed(text: Seq<char>) -> Seq<char>
    decreases text.len(),
{
    if text.len() > 0 && white_space(text.first()) {
        trimmed(text.drop_first())
    } else if text.len() > 0 && white_space(text.last()) {
        trimmed(text.drop_last())
    } else {
        text
    }
}

/// Whether there is nothing but white space in the text.
pub open spec fn blank(text: Seq<char>) -> bool {
    forall|i: int| 0 <= i < text.len() ==> white_space(#[trigger] text[i])
}

/// `str::trim`: the text without leading and trailing white space, where white
/// space is what has the Unicode property `White_Space`.
pub assume_specification[ str::trim ](s: &str) -> (rest: &str)
    ensures
        rest@ == trimmed(s@),
;

/// Nothing is left of a text exactly if it is blank; what is left neither
/// starts nor ends with white space, and trimming it again changes nothing.
pub proof fn law_trimmed(text: Seq<char>)
    ensures
        trimmed(text).len() == 0 <==> blank(text),
        trimmed(text).len() > 0 ==> !white_space(trimmed(text).first()) && !white_space(
            trimmed(text).last(),
        ),
        trimmed(trimmed(text)) == trimmed(text),
    decreases text.len(),
{
    if text.len() > 0 && white_space(text.first()) {
        law_trimmed(text.drop_first());
        assert forall|i: int| 0 <= i < text.len() && blank(text.drop_first()) implies white_space(
            #[trigger] text[i],
        ) by {
            if i > 0 {
                assert(text.drop_first()[i - 1] == text[i]);
            }
        }
        if blank(text) {
            assert forall|i: int| 0 <= i < text.drop_first().len() implies white_space(
                #[trigger] text.drop_first()[i],
            ) by {
                assert(text[i + 1] == text.drop_first()[i]);
            }
        }
    } else if text.len() > 0 && white_space(text.last()) {
        law_trimmed(text.drop_last());
        assert(!white_space(text[0]));
        assert(text.drop_last().len() > 0);
        assert(text.drop_last()[0] == text[0]);
    } else if text.len() > 0 {
        assert(!white_space(text[0]));
    }
}

fn digit_text(d: u64) -> (text: &'static str)
    requires
        d < 16,
    ensures
        text@ == seq![digit_char(d as int)],
{
    proof {
        reveal(digit_char);
        reveal_strlit("0");
        reveal_strlit("1");
        reveal_strlit("2");
        reveal_strlit("3");
        reveal_strlit("4");
        reveal_strlit("5");
        reveal_strlit("6");
        reveal_strlit("7");
        reveal_strlit("8");
        reveal_strlit("9");
        reveal_strlit("a");
        reveal_strlit("b");
        reveal_strlit("c");
        reveal_strlit("d");
        reveal_strlit("e");
        reveal_strlit("f");
    }
    if d == 0 {
        "0"
    } else if d == 1 {
        "1"
    } else if d == 2 {
        "2"
    } else if d == 3 {
        "3"
    } else if d == 4 {
        "4"
    } else if d == 5 {
        "5"
    } else if d == 6 {
        "6"
    } else if d == 7 {
        "7"
    } else if d == 8 {
        "8"
    } else if d == 9 {
        "9"
    } else if d == 10 {
        "a"
    } else if d == 11 {
        "b"
    } else if d == 12 {
        "c"
    } else if d == 13 {
        "d"
    } else if d == 14 {
        "e"
    } else {
        "f"
    }
}

/// Appends the numeral of `n` in `base` to `out`.
pub fn push_numeral(out: &mut String, n: u64, base: u64)
    requires
        2 <= base <= 16,
    ensures
        final(out)@ == old(out)@ + numeral(n as nat, base as nat),
    decreases n,
{
    if n >= base {
        assert(n / base < n) by (nonlinear_arith)
            requires
                n >= base,
                base >= 2,
        ;
        push_numeral(out, n / base, base);
    }
    let d: u64 = n % base;
    assert(n < base ==> n % base == n) by (nonlinear_arith)
        requires
            base >= 2,
    ;
    assert(n % base < base) by (nonlinear_arith)
        requires
            base >= 2,
    ;
    out.append(digit_text(d));
    assert(final(out)@ =~= old(out)@ + numeral(n as nat, base as nat));
}

/// Appends the decimal numeral of `n`, zero-padded to `width`, to `out`.
pub fn push_padded(out: &mut String, n: u64, width: usize)
    ensures
        final(out)@ == old(out)@ + padded(n as nat, width as nat),
{
    let mut plain = String::new();
    push_numeral(&mut plain, n, 10);
    assert(plain@ =~= numeral(n as nat, 10));
    let length: usize = plain.as_str().unicode_len();
    let missing: usize = if length < width {
        width - length
    } else {
        0
    };
    let ghost before = out@;
    proof {
        reveal_strlit("0");
    }
    let mut done: usize = 0;
    while done < missing
        invariant
            done <= missing,
            out@ == before + zeros(done as nat),
            "0"@ == seq!['0'],
        decreases missing - done,
    {
        out.append("0");
        done = done + 1;
        assert(out@ =~= before + zeros(done as nat));
    }
    out.append(plain.as_str());
    assert(out@ =~= before + padded(n as nat, width as nat));
}

/// Appends the decimal numeral of `n` with its sign, zero-padded to `width`,
/// to `out`.
pub fn push_padded_signed(out: &mut String, n: i32, width: usize)
    ensures
        final(out)@ == old(out)@ + padded_signed(n as int, width as nat),
{
    if n < 0 {
        proof {
            reveal_strlit("-");
        }
        let ghost before = out@;
        out.append("-");
        let magnitude: u64 = (-(n as i64)) as u64;
        push_padded(out, magnitude, if width > 0 { width - 1 } else { 0 });
        assert(out@ =~= before + padded_signed(n as int, width as nat));
    } else {
        push_padded(out, n as u64, width);
    }
}

/// A numeral has at least one character.
pub proof fn lemma_numeral_nonempty(n: nat, base: nat)
    ensures
        numeral(n, base).len() >= 1,
{
}

/// Every character of a numeral is a digit below its base.
pub proof fn lemma_numeral_digits(n: nat, base: nat, i: int)
    requires
        2 <= base <= 16,
        0 <= i < numeral(n, base).len(),
    ensures
        exists|d: int| 0 <= d < base && numeral(n, base)[i] == #[trigger] digit_char(d),
    decreases n,
{
    if n < base {
        assert(numeral(n, base)[i] == digit_char(n as int));
    } else {
        assert(n / base < n) by (nonlinear_arith)
            requires
                n >= base,
                base >= 2,
        ;
        assert(0 <= n % base < base) by (nonlinear_arith)
            requires
                base >= 2,
        ;
        if i < numeral(n / base, base).len() {
            lemma_numeral_digits(n / base, base, i);
        } else {
            assert(numeral(n, base)[i] == digit_char((n % base) as int));
        }
    }
}

/// Different digit values have different characters.
pub proof fn lemma_digit_char_injective(x: int, y: int)
    requires
        0 <= x < 16,
        0 <= y < 16,
        digit_char(x) == digit_char(y),
    ensures
        x == y,
{
    reveal(digit_char);
}

/// Decimal digits stand in the order of their values, and no digit is a
/// separator.
pub proof fn lemma_digit_char_order(x: int, y: int)
    requires
        0 <= x < 16,
        0 <= y < 16,
    ensures
        digit_char(0) == '0',
        x < y < 10 ==> (digit_char(x) as int) < (digit_char(y) as int),
        digit_char(x) != '_',
        digit_char(x) != ':',
{
    reveal(digit_char);
}

/// Two numbers with the same numeral in the same base are the same.
pub proof fn lemma_numeral_injective(a: nat, b: nat, base: nat)
    requires
        2 <= base <= 16,
        numeral(a, base) == numeral(b, base),
    ensures
        a == b,
    decreases a,
{
    lemma_numeral_nonempty(a / base, base);
    lemma_numeral_nonempty(b / base, base);
    let na = numeral(a, base);
    let nb = numeral(b, base);
    assert(na.last() == nb.last());
    if a < base {
        assert(na.len() == 1);
        assert(b < base);
        assert(na[0] == digit_char(a as int) && nb[0] == digit_char(b as int));
        lemma_digit_char_injective(a as int, b as int);
    } else {
        assert(na.len() >= 2);
        assert(b >= base);
        assert(na.drop_last() =~= numeral(a / base, base));
        assert(nb.drop_last() =~= numeral(b / base, base));
        assert(a / base < a) by (nonlinear_arith)
            requires
                a >= base,
                base >= 2,
        ;
        lemma_numeral_injective(a / base, b / base, base);
        let x = (a % base) as int;
        let y = (b % base) as int;
        assert(0 <= a % base < base && 0 <= b % base < base) by (nonlinear_arith)
            requires
                base >= 2,
        ;
        assert(na.last() == digit_char(x));
        assert(nb.last() == digit_char(y));
        lemma_digit_char_injective(x, y);
        assert(a == base * (a / base) + a % base) by (nonlinear_arith)
            requires
                base >= 2,
        ;
        assert(b == base * (b / base) + b % base) by (nonlinear_arith)
            requires
                base >= 2,
        ;
    }
}

/// The value of a digit character.
pub open spec fn digit_value(c: char) -> int {
    if '0' <= c && c <= '9' {
        c as int - '0' as int
    } else {
        c as int - 'a' as int + 10
    }
}

/// The number that digits stand for in a base.
pub open spec fn value_of(digits: Seq<char>, base: nat) -> int
    decreases digits.len(),
{
    if digits.len() == 0 {
        0
    } else {
        value_of(digits.drop_last(), base) * base + digit_value(digits.last())
    }
}

/// Whether a character is one of the first `base` digits.
pub open spec fn is_digit(c: char, base: nat) -> bool {
    (('0' <= c && c <= '9') || ('a' <= c && c <= 'f')) && digit_value(c) < base
}

/// A digit stands for its value, and is one of `0` to `9` and `a` to `f`.
pub proof fn law_digit_char(d: int)
    requires
        0 <= d < 16,
    ensures
        digit_value(digit_char(d)) == d,
        is_digit(digit_char(d), 16),
{
    reveal(digit_char);
}

/// A numeral consists of digits of its base, stands for its number, and has no
/// leading zero unless it is a single digit.
pub proof fn law_numeral_value(n: nat, base: nat)
    requires
        2 <= base <= 16,
    ensures
        value_of(numeral(n, base), base) == n,
        numeral(n, base).len() >= 1,
        forall|i: int|
            0 <= i < numeral(n, base).len() ==> is_digit(#[trigger] numeral(n, base)[i], base),
        numeral(n, base).len() > 1 ==> numeral(n, base)[0] != '0',
        numeral(n, base)[0] == '0' ==> n == 0,
    decreases n,
{
    let digits = numeral(n, base);
    if n < base {
        law_digit_char(n as int);
        assert(digits.drop_last() =~= Seq::empty());
        assert(value_of(digits.drop_last(), base) == 0);
        assert(digits.last() == digit_char(n as int));
        assert(0 * base == 0) by (nonlinear_arith);
    } else {
        let head = n / base;
        let low = (n % base) as int;
        assert(head < n && head >= 1) by (nonlinear_arith)
            requires
                n >= base,
                base >= 2,
                head == n / base,
        ;
        assert(n == head * base + low && 0 <= low < base) by (nonlinear_arith)
            requires
                base >= 2,
                head == n / base,
                low == n % base,
        ;
        law_numeral_value(head, base);
        law_digit_char(low);
        assert(digits == numeral(head, base).push(digit_char(low)));
        assert(digits.drop_last() =~= numeral(head, base));
        assert(digits.last() == digit_char(low));
        assert(digits[0] == numeral(head, base)[0]);
        assert forall|i: int| 0 <= i < digits.len() implies is_digit(#[trigger] digits[i], base) by {
            if i < digits.len() - 1 {
                assert(digits[i] == numeral(head, base)[i]);
            }
        }
    }
}

proof fn lemma_leading_zeros(count: nat, digits: Seq<char>)
    ensures
        value_of(zeros(count) + digits, 10) == value_of(digits, 10),
    decreases digits.len() + count,
{
    let all = zeros(count) + digits;
    if digits.len() > 0 {
        assert(all.drop_last() =~= zeros(count) + digits.drop_last());
        assert(all.last() == digits.last());
        lemma_leading_zeros(count, digits.drop_last());
    } else if count > 0 {
        let fewer = zeros((count - 1) as nat) + digits;
        assert(all.drop_last() =~= fewer);
        assert(all.last() == '0');
        lemma_leading_zeros((count - 1) as nat, digits);
    } else {
        assert(all =~= digits);
    }
}

/// A padded numeral consists of decimal digits, stands for its number, and is as
/// long as asked for, or longer exactly where the plain numeral is.
pub proof fn law_padded_value(n: nat, width: nat)
    ensures
        value_of(padded(n, width), 10) == n,
        forall|i: int| 0 <= i < padded(n, width).len() ==> is_digit(#[trigger] padded(n, width)[i], 10),
        padded(n, width).len() == (if numeral(n, 10).len() < width {
            width
        } else {
            numeral(n, 10).len()
        }),
{
    law_numeral_value(n, 10);
    let plain = numeral(n, 10);
    let all = padded(n, width);
    if plain.len() < width {
        let count = (width - plain.len()) as nat;
        lemma_leading_zeros(count, plain);
        assert forall|i: int| 0 <= i < all.len() implies is_digit(#[trigger] all[i], 10) by {
            if i >= count {
                assert(all[i] == plain[i - count]);
            } else {
                assert(all[i] == '0');
            }
        }
    }
}

/// A negative number is written as a minus sign and its size; the sign counts
/// towards the width. Any other number has no sign.
pub proof fn law_signed_value(n: int, width: nat)
    ensures
        padded_signed(n, width).len() >= width,
        padded_signed(n, width).len() >= 1,
        n >= 0 ==> value_of(padded_signed(n, width), 10) == n && padded_signed(n, width)[0] != '-',
        n < 0 ==> padded_signed(n, width)[0] == '-' && value_of(padded_signed(n, width).skip(1), 10)
            == -n,
        n >= 0 ==> padded_signed(n, width) == padded(n as nat, width),
{
    if n < 0 {
        let inner = if width > 0 {
            (width - 1) as nat
        } else {
            0
        };
        law_padded_value((-n) as nat, inner);
        law_numeral_value((-n) as nat, 10);
        assert(padded_signed(n, width).skip(1) =~= padded((-n) as nat, inner));
    } else {
        law_padded_value(n as nat, width);
        law_numeral_value(n as nat, 10);
        assert(is_digit(padded(n as nat, width)[0], 10));
    }
}

/// A decimal stands for its number, with a minus sign in front of negative ones,
/// and has no leading zeros.
pub proof fn law_decimal_value(n: int)
    ensures
        n >= 0 ==> decimal(n) == numeral(n as nat, 10),
        n < 0 ==> decimal(n) == seq!['-'] + numeral((-n) as nat, 10),
        n >= 0 ==> value_of(decimal(n), 10) == n,
        n < 0 ==> decimal(n)[0] == '-' && value_of(decimal(n).skip(1), 10) == -n,
{
    law_signed_value(n, 0);
}

/// Whether all but the part from `start` to `end` is white space.
#[verifier::opaque]
spec fn white_around(text: Seq<char>, start: int, end: int) -> bool {
    &&& forall|i: int| 0 <= i < start ==> white_space(#[trigger] text[i])
    &&& forall|i: int| end <= i < text.len() ==> white_space(#[trigger] text[i])
}

proof fn lemma_white_in_front(text: Seq<char>, start: int, end: int)
    requires
        text.len() > 0,
        white_space(text.first()),
        0 <= start <= end <= text.len() - 1,
        white_around(text.drop_first(), start, end),
    ensures
        white_around(text, start + 1, end + 1),
        text.subrange(start + 1, end + 1) == text.drop_first().subrange(start, end),
{
    reveal(white_around);
    let rest = text.drop_first();
    assert forall|i: int| 0 <= i < start + 1 implies white_space(#[trigger] text[i]) by {
        if i > 0 {
            assert(rest[i - 1] == text[i]);
        }
    }
    assert forall|i: int| end + 1 <= i < text.len() implies white_space(#[trigger] text[i]) by {
        assert(rest[i - 1] == text[i]);
    }
    assert(text.subrange(start + 1, end + 1) =~= rest.subrange(start, end));
}

proof fn lemma_white_behind(text: Seq<char>, start: int, end: int)
    requires
        text.len() > 0,
        white_space(text.last()),
        0 <= start <= end <= text.len() - 1,
        white_around(text.drop_last(), start, end),
    ensures
        white_around(text, start, end),
        text.subrange(start, end) == text.drop_last().subrange(start, end),
{
    reveal(white_around);
    let rest = text.drop_last();
    assert forall|i: int| 0 <= i < start implies white_space(#[trigger] text[i]) by {
        assert(rest[i] == text[i]);
    }
    assert forall|i: int| end <= i < text.len() implies white_space(#[trigger] text[i]) by {
        if i < rest.len() {
            assert(rest[i] == text[i]);
        }
    }
    assert(text.subrange(start, end) =~= rest.subrange(start, end));
}

proof fn lemma_trimmed_ends(text: Seq<char>) -> (ends: (int, int))
    ensures
        0 <= ends.0 <= ends.1 <= text.len(),
        trimmed(text) == text.subrange(ends.0, ends.1),
        white_around(text, ends.0, ends.1),
    decreases text.len(),
{
    if text.len() > 0 && white_space(text.first()) {
        let (start, end) = lemma_trimmed_ends(text.drop_first());
        lemma_white_in_front(text, start, end);
        (start + 1, end + 1)
    } else if text.len() > 0 && white_space(text.last()) {
        let (start, end) = lemma_trimmed_ends(text.drop_last());
        lemma_white_behind(text, start, end);
        (start, end)
    } else {
        reveal(white_around);
        assert(text.subrange(0, text.len() as int) =~= text);
        (0, text.len() as int)
    }
}

/// What is left of a text is a part of it, and all that was taken away in front
/// of it and behind it is white space.
pub proof fn law_trimmed_is_the_middle(text: Seq<char>)
    ensures
        exists|start: int, end: int|
            {
                &&& 0 <= start <= end <= text.len()
                &&& trimmed(text) == #[trigger] text.subrange(start, end)
                &&& forall|i: int| 0 <= i < start ==> white_space(#[trigger] text[i])
                &&& forall|i: int| end <= i < text.len() ==> white_space(#[trigger] text[i])
            },
{
    let (start, end) = lemma_trimmed_ends(text);
    reveal(white_around);
    assert(trimmed(text) == text.subrange(start, end));
}

} // verus!
