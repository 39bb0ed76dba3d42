//! Numbers as text: decimal, signed, hexadecimal, and padding to a width.

use vstd::prelude::*;

verus! {

/// The sign for a digit below sixteen, lower case.
pub open spec fn digit(d: int) -> char {
    "0123456789abcdef"@[d]
}

/// The sign for a digit below sixteen, upper case.
pub open spec fn upper_digit(d: int) -> char {
    "0123456789ABCDEF"@[d]
}

/// A number in decimal, without leading zeros.
pub open spec fn decimal(n: nat) -> Seq<char>
    decreases n,
{
    if n < 10 {
        seq![digit(n as int)]
    } else {
        decimal(n / 10).push(digit((n % 10) as int))
    }
}

/// A number in decimal, with a minus sign if it is negative.
pub open spec fn integer(n: int) -> Seq<char> {
    if n < 0 {
        "-"@ + decimal((-n) as nat)
    } else {
        decimal(n as nat)
    }
}

/// A number in decimal that always has a sign.
pub open spec fn signed(n: int) -> Seq<char> {
    if n < 0 {
        "-"@ + decimal((-n) as nat)
    } else {
        "+"@ + decimal(n as nat)
    }
}

/// A byte as two hexadecimal digits, lower case.
pub open spec fn hex_byte(b: u8) -> Seq<char> {
    seq![digit(b as int / 16), digit(b as int % 16)]
}

/// `n` spaces.
pub open spec fn spaces(n: nat) -> Seq<char> {
    Seq::new(n, |i: int| ' ')
}

/// The text at the left of a column of a width; a longer text keeps its length.
pub open spec fn left_aligned(s: Seq<char>, width: nat) -> Seq<char> {
    if s.len() < width {
        s + spaces((width - s.len()) as nat)
    } else {
        s
    }
}

/// The text at the right of a column of a width; a longer text keeps its length.
pub open spec fn right_aligned(s: Seq<char>, width: nat) -> Seq<char> {
    if s.len() < width {
        spaces((width - s.len()) as nat) + s
    } else {
        s
    }
}

/// `n` zeros.
pub open spec fn zeros(n: nat) -> Seq<char> {
    Seq::new(n, |i: int| '0')
}

/// A number in decimal, with zeros in front up to a width.
pub open spec fn zero_filled(n: nat, width: nat) -> Seq<char> {
    if decimal(n).len() < width {
        zeros((width - decimal(n).len()) as nat) + decimal(n)
    } else {
        decimal(n)
    }
}

/// A number that always has a sign, with zeros between the sign and the number up
/// to a width.
pub open spec fn signed_zero_filled(n: int, width: nat) -> Seq<char> {
    let digits = if width > 0 {
        (width - 1) as nat
    } else {
        0nat
    };
    if n < 0 {
        "-"@ + zero_filled((-n) as nat, digits)
    } else {
        "+"@ + zero_filled(n as nat, digits)
    }
}

/// The lowest `k` hexadecimal digits of a number, upper case.
pub open spec fn upper_hex(n: nat, k: nat) -> Seq<char>
    decreases k,
{
    if k == 0 {
        Seq::empty()
    } else {
        upper_hex(n / 16, (k - 1) as nat).push(upper_digit((n % 16) as int))
    }
}

/// The lowest `k` hexadecimal digits of a number, lower case.
pub open spec fn lower_hex(n: nat, k: nat) -> Seq<char>
    decreases k,
{
    if k == 0 {
        Seq::empty()
    } else {
        lower_hex(n / 16, (k - 1) as nat).push(digit((n % 16) as int))
    }
}

fn digit_text(d: u8) -> (s: &'static str)
    requires
        d < 16,
    ensures
        s@ == seq![digit(d as int)],
{
    proof {
        reveal_strlit("0123456789abcdef");
        reveal_strlit("0");
        reveal_strlit("1");
        reveal_strlit("2");
        reveal_strlit("3");
        reveal_strlit("4");
        reveal_strlit("5");
        reveal_strlit("6");
        reveal_strlit("7");
        reveal_strlit("8");
        reveal_strlit("9");
        reveal_strlit("a");
        reveal_strlit("b");
        reveal_strlit("c");
        reveal_strlit("d");
        reveal_strlit("e");
        reveal_strlit("f");
    }
    let s: &'static str = match d {
        0 => "0",
        1 => "1",
        2 => "2",
        3 => "3",
        4 => "4",
        5 => "5",
        6 => "6",
        7 => "7",
        8 => "8",
        9 => "9",
        10 => "a",
        11 => "b",
        12 => "c",
        13 => "d",
        14 => "e",
        _ => "f",
    };
    assert(s@ =~= seq![digit(d as int)]);
    s
}

fn upper_digit_text(d: u8) -> (s: &'static str)
    requires
        d < 16,
    ensures
        s@ == seq![upper_digit(d as int)],
{
    proof {
        reveal_strlit("0123456789abcdef");
        reveal_strlit("0123456789ABCDEF");
        reveal_strlit("A");
        reveal_strlit("B");
        reveal_strlit("C");
        reveal_strlit("D");
        reveal_strlit("E");
        reveal_strlit("F");
    }
    let s: &'static str = match d {
        10 => "A",
        11 => "B",
        12 => "C",
        13 => "D",
        14 => "E",
        15 => "F",
        _ => digit_text(d),
    };
    assert(s@ =~= seq![upper_digit(d as int)]);
    s
}

/// Appends a number in decimal.
pub fn push_decimal(out: &mut String, n: u64)
    ensures
        final(out)@ == old(out)@ + decimal(n as nat),
    decreases n,
{
    if n >= 10 {
        push_decimal(out, n / 10);
    }
    out.append(digit_text((n % 10) as u8));
    assert(out@ =~= old(out)@ + decimal(n as nat));
}

/// Appends a number in decimal, with a minus sign if it is negative.
pub fn push_integer(out: &mut String, n: i32)
    ensures
        final(out)@ == old(out)@ + integer(n as int),
{
    if n < 0 {
        out.append("-");
        push_decimal(out, (-(n as i64)) as u64);
        assert(out@ =~= old(out)@ + integer(n as int));
    } else {
        push_decimal(out, n as u64);
    }
}

/// Appends a number in decimal that always has a sign.
pub fn push_signed(out: &mut String, n: i32)
    ensures
        final(out)@ == old(out)@ + signed(n as int),
{
    if n < 0 {
        out.append("-");
        push_decimal(out, (-(n as i64)) as u64);
    } else {
        out.append("+");
        push_decimal(out, n as u64);
    }
    assert(out@ =~= old(out)@ + signed(n as int));
}

/// Appends a byte as two lower case hexadecimal digits.
pub fn push_hex_byte(out: &mut String, b: u8)
    ensures
        final(out)@ == old(out)@ + hex_byte(b),
{
    out.append(digit_text(b / 16));
    out.append(digit_text(b % 16));
    assert(out@ =~= old(out)@ + hex_byte(b));
}

/// Appends spaces.
pub fn push_spaces(out: &mut String, n: usize)
    ensures
        final(out)@ == old(out)@ + spaces(n as nat),
{
    let ghost start = out@;
    let mut i: usize = 0;
    while i < n
        invariant
            i <= n,
            out@ == start + spaces(i as nat),
        decreases n - i,
    {
        out.append(" ");
        proof {
            reveal_strlit(" ");
        }
        i = i + 1;
        assert(out@ =~= start + spaces(i as nat));
    }
}

/// A text at the left of a column.
pub fn align_left(s: &str, width: usize) -> (out: String)
    ensures
        out@ == left_aligned(s@, width as nat),
{
    let mut out = String::new();
    out.append(s);
    let len: usize = s.unicode_len();
    if len < width {
        push_spaces(&mut out, width - len);
    }
    assert(out@ =~= left_aligned(s@, width as nat));
    out
}

/// A text at the right of a column.
pub fn align_right(s: &str, width: usize) -> (out: String)
    ensures
        out@ == right_aligned(s@, width as nat),
{
    let mut out = String::new();
    let len: usize = s.unicode_len();
    if len < width {
        push_spaces(&mut out, width - len);
    }
    out.append(s);
    assert(out@ =~= right_aligned(s@, width as nat));
    out
}

/// A number in decimal.
pub fn decimal_text(n: u64) -> (out: String)
    ensures
        out@ == decimal(n as nat),
{
    let mut out = String::new();
    push_decimal(&mut out, n);
    assert(out@ =~= decimal(n as nat));
    out
}

/// A number in decimal that always has a sign.
pub fn signed_text(n: i32) -> (out: String)
    ensures
        out@ == signed(n as int),
{
    let mut out = String::new();
    push_signed(&mut out, n);
    assert(out@ =~= signed(n as int));
    out
}

/// A number in decimal, with zeros in front up to a width.
pub fn zero_filled_text(n: u64, width: usize) -> (out: String)
    ensures
        out@ == zero_filled(n as nat, width as nat),
{
    let digits = decimal_text(n);
    let len: usize = digits.as_str().unicode_len();
    let mut out = String::new();
    let mut i: usize = len;
    while i < width
        invariant
            digits@ == decimal(n as nat),
            digits@.len() == len,
            len <= i,
            i <= width || i == len,
            out@ == zeros((i - len) as nat),
        decreases width - i,
    {
        out.append("0");
        proof {
            reveal_strlit("0");
        }
        i = i + 1;
        assert(out@ =~= zeros((i - len) as nat));
    }
    out.append(digits.as_str());
    assert(out@ =~= zero_filled(n as nat, width as nat));
    out
}

/// A number that always has a sign, with zeros between the sign and the number up
/// to a width.
pub fn signed_zero_filled_text(n: i32, width: usize) -> (out: String)
    ensures
        out@ == signed_zero_filled(n as int, width as nat),
{
    let digits: usize = if width > 0 {
        width - 1
    } else {
        0
    };
    let mut out = String::new();
    if n < 0 {
        out.append("-");
        let rest = zero_filled_text((-(n as i64)) as u64, digits);
        out.append(rest.as_str());
    } else {
        out.append("+");
        let rest = zero_filled_text(n as u64, digits);
        out.append(rest.as_str());
    }
    assert(out@ =~= signed_zero_filled(n as int, width as nat));
    out
}

/// Appends the lowest `k` hexadecimal digits of a number, upper case.
pub fn push_upper_hex(out: &mut String, n: u32, k: u8)
    ensures
        final(out)@ == old(out)@ + upper_hex(n as nat, k as nat),
    decreases k,
{
    if k > 0 {
        push_upper_hex(out, n / 16, k - 1);
        out.append(upper_digit_text((n % 16) as u8));
    }
    assert(out@ =~= old(out)@ + upper_hex(n as nat, k as nat));
}

/// Appends the lowest `k` hexadecimal digits of a number, lower case.
pub fn push_lower_hex(out: &mut String, n: u32, k: u8)
    ensures
        final(out)@ == old(out)@ + lower_hex(n as nat, k as nat),
    decreases k,
{
    if k > 0 {
        push_lower_hex(out, n / 16, k - 1);
        out.append(digit_text((n % 16) as u8));
    }
    assert(out@ =~= old(out)@ + lower_hex(n as nat, k as nat));
}

/// `core::str::from_utf8`: the text that the bytes encode, nothing if they are not
/// valid UTF-8.
#[verifier::external_body]
fn utf8_text(bytes: &[u8]) -> (s: Option<&str>)
    ensures
        s is Some <==> vstd::utf8::valid_utf8(bytes@),
        s is Some ==> s->0@ == vstd::utf8::decode_utf8(bytes@),
{
    core::str::from_utf8(bytes).ok()
}

/// The text that bytes encode, question marks if they are not valid UTF-8.
pub open spec fn readable(bytes: Seq<u8>) -> Seq<char> {
    if vstd::utf8::valid_utf8(bytes) {
        vstd::utf8::decode_utf8(bytes)
    } else {
        "???"@
    }
}

/// The text that bytes encode, question marks if they are not valid UTF-8.
pub fn readable_text(bytes: &[u8]) -> (s: &str)
    ensures
        s@ == readable(bytes@),
{
    match utf8_text(bytes) {
        Some(s) => s,
        None => "???",
    }
}

/// The text that bytes encode, if they are valid UTF-8.
pub fn valid_text(bytes: &[u8]) -> (s: Option<&str>)
    ensures
        s is Some <==> vstd::utf8::valid_utf8(bytes@),
        s is Some ==> s->0@ == vstd::utf8::decode_utf8(bytes@),
{
    utf8_text(bytes)
}

/// Two texts are the same.
pub fn same_text(a: &str, b: &str) -> (same: bool)
    ensures
        same == (a@ == b@),
{
    a.to_string() == b.to_string()
}

/// A larger number never has a shorter text.
pub proof fn lemma_decimal_grows(a: nat, b: nat)
    requires
        a <= b,
    ensures
        decimal(a).len() <= decimal(b).len(),
        decimal(a).len() >= 1,
    decreases b,
{
    if b >= 10 {
        if a >= 10 {
            lemma_decimal_grows(a / 10, b / 10);
        } else {
            lemma_decimal_grows(1, b / 10);
        }
    }
}

/// A 32-bit number has at most ten digits.
pub proof fn lemma_u32_has_ten_digits(n: nat)
    requires
        n <= u32::MAX,
    ensures
        decimal(n).len() <= 10,
{
    lemma_decimal_grows(n, 4294967295);
    reveal_with_fuel(decimal, 11);
    assert(decimal(4294967295).len() == 10);
}

// ---- Laws ----

/// The number that a sign stands for: `0` to `9`, then the letters in either case.
pub open spec fn sign_value(c: char) -> int {
    if '0' <= c <= '9' {
        c as int - '0' as int
    } else if 'a' <= c <= 'f' {
        c as int - 'a' as int + 10
    } else {
        c as int - 'A' as int + 10
    }
}

/// The number that a text of signs stands for, read from left to right.
pub open spec fn number_of(s: Seq<char>, base: int) -> int
    decreases s.len(),
{
    if s.len() == 0 {
        0
    } else {
        number_of(s.drop_last(), base) * base + sign_value(s.last())
    }
}

/// The sixteen signs stand for the numbers from zero to fifteen, in both cases, and the
/// first ten are the decimal ones.
pub proof fn lemma_signs_stand_for_their_numbers(d: int)
    requires
        0 <= d < 16,
    ensures
        sign_value(digit(d)) == d,
        sign_value(upper_digit(d)) == d,
        d < 10 ==> '0' <= digit(d) <= '9' && upper_digit(d) == digit(d),
        d >= 10 ==> 'a' <= digit(d) <= 'f' && 'A' <= upper_digit(d) <= 'F',
{
    reveal_strlit("0123456789abcdef");
    reveal_strlit("0123456789ABCDEF");
}

/// A number written in decimal reads back as that number. It is made of decimal signs and
/// does not start with a zero, unless it is zero.
pub proof fn lemma_decimal_reads_back(n: nat)
    ensures
        number_of(decimal(n), 10) == n,
        forall|i: int| 0 <= i < decimal(n).len() ==> '0' <= #[trigger] decimal(n)[i] <= '9',
        decimal(n).len() >= 1,
        n > 0 ==> decimal(n)[0] != '0',
    decreases n,
{
    if n < 10 {
        lemma_signs_stand_for_their_numbers(n as int);
        assert(decimal(n).drop_last() =~= Seq::<char>::empty());
        assert(number_of(decimal(n).drop_last(), 10) == 0);
    } else {
        lemma_decimal_reads_back(n / 10);
        lemma_signs_stand_for_their_numbers((n % 10) as int);
        assert(decimal(n).drop_last() =~= decimal(n / 10));
    }
}

/// Zeros in front change no number: a number filled up to a width reads back as itself,
/// and is as wide as asked for or as its digits need.
pub proof fn lemma_zero_filled_reads_back(n: nat, width: nat)
    ensures
        number_of(zero_filled(n, width), 10) == n,
        zero_filled(n, width).len() == (if decimal(n).len() < width {
            width
        } else {
            decimal(n).len()
        }),
{
    lemma_decimal_reads_back(n);
    if decimal(n).len() < width {
        lemma_zeros_in_front(decimal(n), (width - decimal(n).len()) as nat);
    }
}

proof fn lemma_zeros_in_front(s: Seq<char>, k: nat)
    ensures
        number_of(zeros(k) + s, 10) == number_of(s, 10),
    decreases s.len() + k,
{
    let t = zeros(k) + s;
    if s.len() > 0 {
        assert(t.drop_last() =~= zeros(k) + s.drop_last());
        lemma_zeros_in_front(s.drop_last(), k);
    } else if k > 0 {
        assert(t.drop_last() =~= zeros((k - 1) as nat) + s);
        lemma_zeros_in_front(s, (k - 1) as nat);
    } else {
        assert(t =~= s);
    }
}

/// A signed number starts with its sign and goes on with its size; without a forced sign
/// only negative numbers have one.
pub proof fn lemma_signs_come_first(n: int)
    ensures
        signed(n)[0] == (if n < 0 {
            '-'
        } else {
            '+'
        }),
        number_of(signed(n).skip(1), 10) == (if n < 0 {
            -n
        } else {
            n
        }),
        n < 0 ==> integer(n)[0] == '-' && number_of(integer(n).skip(1), 10) == -n,
        n >= 0 ==> number_of(integer(n), 10) == n && '0' <= integer(n)[0] <= '9',
{
    reveal_strlit("-");
    reveal_strlit("+");
    let size = if n < 0 {
        -n
    } else {
        n
    } as nat;
    lemma_decimal_reads_back(size);
    assert(signed(n).skip(1) =~= decimal(size));
    if n < 0 {
        assert(integer(n).skip(1) =~= decimal(size));
    }
}

/// A signed number filled with zeros starts with its sign; the rest reads back as its
/// size, whatever the width.
pub proof fn lemma_signed_zero_filled_reads_back(n: int, width: nat)
    ensures
        signed_zero_filled(n, width)[0] == (if n < 0 {
            '-'
        } else {
            '+'
        }),
        number_of(signed_zero_filled(n, width).skip(1), 10) == (if n < 0 {
            -n
        } else {
            n
        }),
        signed_zero_filled(n, width).len() >= width,
{
    reveal_strlit("-");
    reveal_strlit("+");
    let size = if n < 0 {
        -n
    } else {
        n
    } as nat;
    let digits = if width > 0 {
        (width - 1) as nat
    } else {
        0nat
    };
    lemma_zero_filled_reads_back(size, digits);
    assert(signed_zero_filled(n, width).skip(1) =~= zero_filled(size, digits));
}

/// Hexadecimal digits read back as the lowest part of the number, as many digits as were
/// asked for; the case makes no difference to the number.
pub proof fn lemma_hex_reads_back(n: nat, k: nat)
    ensures
        upper_hex(n, k).len() == k,
        lower_hex(n, k).len() == k,
        number_of(upper_hex(n, k), 16) == number_of(lower_hex(n, k), 16),
        number_of(upper_hex(n, k), 16) == n % (vstd::arithmetic::power::pow(16, k) as nat),
    decreases k,
{
    vstd::arithmetic::power::lemma_pow_positive(16, k);
    if k == 0 {
        vstd::arithmetic::power::lemma_pow0(16);
        assert(n % 1 == 0);
    } else {
        let m = (k - 1) as nat;
        lemma_hex_reads_back(n / 16, m);
        lemma_signs_stand_for_their_numbers((n % 16) as int);
        assert(upper_hex(n, k).drop_last() =~= upper_hex(n / 16, m));
        assert(lower_hex(n, k).drop_last() =~= lower_hex(n / 16, m));
        let p = vstd::arithmetic::power::pow(16, m);
        vstd::arithmetic::power::lemma_pow_positive(16, m);
        assert(vstd::arithmetic::power::pow(16, k) == 16 * p) by {
            reveal(vstd::arithmetic::power::pow);
        }
        vstd::arithmetic::div_mod::lemma_mod_breakdown(n as int, 16, p);
    }
}

/// A byte is two hexadecimal digits that read back as the byte.
pub proof fn lemma_byte_reads_back(b: u8)
    ensures
        hex_byte(b).len() == 2,
        sign_value(hex_byte(b)[0]) * 16 + sign_value(hex_byte(b)[1]) == b,
{
    lemma_signs_stand_for_their_numbers(b as int / 16);
    lemma_signs_stand_for_their_numbers(b as int % 16);
}

/// A text in a column keeps all of its characters: they stand at the start or at the end,
/// the rest of the column is spaces, and a text too long for the column stays whole.
pub proof fn lemma_columns_keep_the_text(s: Seq<char>, width: nat)
    ensures
        left_aligned(s, width).len() == (if s.len() < width {
            width
        } else {
            s.len()
        }),
        right_aligned(s, width).len() == left_aligned(s, width).len(),
        forall|i: int| 0 <= i < s.len() ==> #[trigger] left_aligned(s, width)[i] == s[i],
        forall|i: int| s.len() <= i < width ==> #[trigger] left_aligned(s, width)[i] == ' ',
        forall|i: int| 0 <= i < width - s.len() ==> #[trigger] right_aligned(s, width)[i] == ' ',
        right_aligned(s, width).skip(right_aligned(s, width).len() - s.len()) == s,
{
    let r = right_aligned(s, width);
    assert(r.skip(r.len() - s.len()) =~= s);
}

/// Bytes that are valid read as the text that they encode, and others as three question
/// marks.
pub proof fn lemma_bytes_read_as_their_text(bytes: Seq<u8>)
    ensures
        vstd::utf8::valid_utf8(bytes) ==> readable(bytes) == vstd::utf8::decode_utf8(bytes),
        !vstd::utf8::valid_utf8(bytes) ==> readable(bytes) == seq!['?', '?', '?'],
{
    reveal_strlit("???");
    if !vstd::utf8::valid_utf8(bytes) {
        assert(readable(bytes) =~= seq!['?', '?', '?']);
    }
}

} // verus!
