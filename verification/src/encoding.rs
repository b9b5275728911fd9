//! Lowercase hexadecimal text: the form in which every byte of generated code
//! is written.

use vstd::prelude::*;

verus! {

/// The lowercase hexadecimal digit that stands for `d`, for `0 <= d < 16`.
pub open spec fn hex_char(d: int) -> char {
    if d == 0 {
        '0'
    } else if d == 1 {
        '1'
    } else if d == 2 {
        '2'
    } else if d == 3 {
        '3'
    } else if d == 4 {
        '4'
    } else if d == 5 {
        '5'
    } else if d == 6 {
        '6'
    } else if d == 7 {
        '7'
    } else if d == 8 {
        '8'
    } else if d == 9 {
        '9'
    } else if d == 10 {
        'a'
    } else if d == 11 {
        'b'
    } else if d == 12 {
        'c'
    } else if d == 13 {
        'd'
    } else if d == 14 {
        'e'
    } else {
        'f'
    }
}

/// The two digits of one byte, high nibble first.
pub open spec fn hex_of_byte(b: u8) -> Seq<char> {
    seq![hex_char(b as int / 16), hex_char(b as int % 16)]
}

/// The hexadecimal text of a byte string: two digits for each byte, in order.
pub open spec fn hex_string(bytes: Seq<u8>) -> Seq<char>
    decreases bytes.len(),
{
    if bytes.len() == 0 {
        Seq::empty()
    } else {
        hex_string(bytes.drop_last()) + hex_of_byte(bytes.last())
    }
}

/// The digits of `n` in the given base, most significant first, without
/// leading zeros; zero is the single digit `0`. The base is at least two and
/// at most sixteen.
pub open spec fn digits_in_base(n: nat, base: nat) -> Seq<char>
    decreases n,
{
    if n < base || base < 2 {
        seq![hex_char(n as int)]
    } else {
        proof {
            assert(n / base < n) by (nonlinear_arith)
                requires
                    base >= 2,
                    n >= base,
            ;
        }
        digits_in_base(n / base, base).push(hex_char(n as int % base as int))
    }
}

/// The digits of `n` in base ten, without leading zeros.
pub open spec fn decimal_digits(n: nat) -> Seq<char> {
    digits_in_base(n, 10)
}

/// `count` copies of the digit `0`.
pub open spec fn zero_digits(count: int) -> Seq<char> {
    Seq::new(
        if count < 0 {
            0
        } else {
            count as nat
        },
        |i: int| '0',
    )
}

/// The digits of `n` in the given base, filled up on the left with `0` to at
/// least `width` digits. A number that needs more digits keeps them all.
pub open spec fn padded_in_base(n: nat, base: nat, width: nat) -> Seq<char> {
    zero_digits(width - digits_in_base(n, base).len()) + digits_in_base(n, base)
}

/// The digits of `n` in base sixteen, filled up on the left with `0` to at
/// least `width` digits.
pub open spec fn hex_padded(n: nat, width: nat) -> Seq<char> {
    padded_in_base(n, 16, width)
}

/// The text of a single byte is its two digits.
pub proof fn lemma_hex_string_single(b: u8)
    ensures
        hex_string(seq![b]) == hex_of_byte(b),
{
    let s = seq![b];
    assert(s.drop_last() =~= Seq::<u8>::empty());
    assert(hex_string(s.drop_last()) =~= Seq::<char>::empty());
    assert(hex_string(s) =~= hex_of_byte(b));
}

/// The text of one hexadecimal digit.
fn hex_digit_text(d: u8) -> (s: &'static str)
    requires
        d < 16,
    ensures
        s@ == seq![hex_char(d as int)],
{
    proof {
        reveal_strlit("0");
        reveal_strlit("1");
        reveal_strlit("2");
        reveal_strlit("3");
        reveal_strlit("4");
        reveal_strlit("5");
        reveal_strlit("6");
        reveal_strlit("7");
        reveal_strlit("8");
        reveal_strlit("9");
        reveal_strlit("a");
        reveal_strlit("b");
        reveal_strlit("c");
        reveal_strlit("d");
        reveal_strlit("e");
        reveal_strlit("f");
    }
    let s = if d == 0 {
        "0"
    } else if d == 1 {
        "1"
    } else if d == 2 {
        "2"
    } else if d == 3 {
        "3"
    } else if d == 4 {
        "4"
    } else if d == 5 {
        "5"
    } else if d == 6 {
        "6"
    } else if d == 7 {
        "7"
    } else if d == 8 {
        "8"
    } else if d == 9 {
        "9"
    } else if d == 10 {
        "a"
    } else if d == 11 {
        "b"
    } else if d == 12 {
        "c"
    } else if d == 13 {
        "d"
    } else if d == 14 {
        "e"
    } else {
        "f"
    };
    assert(s@ =~= seq![hex_char(d as int)]);
    s
}

/// Writes `n` in the given base with at least `width` digits: short numbers
/// are filled up with zeros on the left, long ones are written in full.
pub fn format_in_base(n: u128, base: u8, width: usize) -> (s: String)
    requires
        2 <= base <= 16,
    ensures
        s@ == padded_in_base(n as nat, base as nat, width as nat),
{
    // The digits after the leading one, least significant first.
    let mut low: Vec<u8> = Vec::new();
    let mut rest: u128 = n;
    let ghost mut tail: Seq<char> = Seq::empty();
    while rest >= base as u128
        invariant
            2 <= base <= 16,
            digits_in_base(n as nat, base as nat) == digits_in_base(rest as nat, base as nat)
                + tail,
            tail.len() == low.len(),
            forall|i: int|
                0 <= i < low.len() ==> low[i] < 16 && tail[low.len() - 1 - i] == hex_char(
                    low[i] as int,
                ),
        decreases rest,
    {
        let d: u8 = (rest % base as u128) as u8;
        proof {
            let c = hex_char(d as int);
            let shorter = digits_in_base((rest / base as u128) as nat, base as nat);
            assert(digits_in_base(rest as nat, base as nat) == shorter.push(c));
            assert(shorter.push(c) + tail =~= shorter + (seq![c] + tail));
            tail = seq![c] + tail;
        }
        low.push(d);
        rest = rest / base as u128;
    }
    assert(digits_in_base(rest as nat, base as nat) == seq![hex_char(rest as int)]);
    let digits: usize = low.len();

    let mut out = String::new();
    // One leading digit and `digits` further ones are to come.
    let fill: usize = if width > digits && width - digits > 1 {
        width - digits - 1
    } else {
        0
    };
    let mut pad: usize = 0;
    while pad < fill
        invariant
            pad <= fill,
            out@ == zero_digits(pad as int),
        decreases fill - pad,
    {
        proof {
            reveal_strlit("0");
        }
        out.append("0");
        pad = pad + 1;
        assert(out@ =~= zero_digits(pad as int));
    }
    out.append(hex_digit_text(rest as u8));
    let ghost head: Seq<char> = out@;
    let mut k: usize = digits;
    while k > 0
        invariant
            k <= digits,
            digits == low.len(),
            tail.len() == low.len(),
            forall|i: int|
                0 <= i < low.len() ==> low[i] < 16 && tail[low.len() - 1 - i] == hex_char(
                    low[i] as int,
                ),
            out@ == head + tail.subrange(0, digits - k),
        decreases k,
    {
        k = k - 1;
        out.append(hex_digit_text(low[k]));
        assert(out@ =~= head + tail.subrange(0, digits - k));
    }
    assert(tail.subrange(0, digits as int) =~= tail);
    assert(out@ =~= padded_in_base(n as nat, base as nat, width as nat));
    out
}

/// Writes `n` in base sixteen with at least `width` digits, as the format
/// `{:0width$x}` does.
pub fn format_hex(n: u128, width: usize) -> (s: String)
    ensures
        s@ == hex_padded(n as nat, width as nat),
{
    format_in_base(n, 16, width)
}

/// Writes `n` in base ten.
pub fn format_decimal(n: usize) -> (s: String)
    ensures
        s@ == decimal_digits(n as nat),
{
    let s = format_in_base(n as u128, 10, 0);
    assert(zero_digits(0 - decimal_digits(n as nat).len()) =~= Seq::<char>::empty());
    assert(s@ =~= decimal_digits(n as nat));
    s
}

/// The hexadecimal text of a byte string, two digits for each byte.
pub fn format_bytes(bytes: &[u8]) -> (s: String)
    ensures
        s@ == hex_string(bytes@),
{
    let mut out = String::new();
    let mut i: usize = 0;
    assert(bytes@.take(0) =~= Seq::<u8>::empty());
    while i < bytes.len()
        invariant
            i <= bytes.len(),
            out@ == hex_string(bytes@.take(i as int)),
        decreases bytes.len() - i,
    {
        let text = format_byte(bytes[i]);
        out.append(text.as_str());
        proof {
            let prefix = bytes@.take(i as int + 1);
            assert(prefix.drop_last() =~= bytes@.take(i as int));
            assert(prefix.last() == bytes[i as int]);
        }
        i = i + 1;
    }
    assert(bytes@.take(i as int) =~= bytes@);
    out
}

/// The two hexadecimal digits of one byte.
pub fn format_byte(b: u8) -> (s: String)
    ensures
        s@ == hex_of_byte(b),
{
    let mut out = String::new();
    out.append(hex_digit_text(b / 16));
    out.append(hex_digit_text(b % 16));
    assert(out@ =~= hex_of_byte(b));
    out
}

/// `hex::encode`, the hexadecimal text of a byte string. The outside function
/// writes each byte as two digits, high nibble first, with the letters `a` to
/// `f` in lower case, and nothing between the bytes.
#[verifier::external_body]
pub(crate) fn hex_encode(data: &[u8]) -> (s: String)
    ensures
        s@ == hex_string(data@),
{
    ::hex::encode(data)
}

} // verus!
