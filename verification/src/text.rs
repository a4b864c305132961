//! Text of numbers: decimal digits, three-decimal labels of values in
//! thousandths, padding and repetition.

use vstd::prelude::*;
use vstd::string::*;

verus! {

/// `String::push` of the standard library: the character is appended to the
/// string and nothing else of it changes.
pub assume_specification[ String::push ](s: &mut String, ch: char)
    ensures
        final(s)@ == old(s)@.push(ch),
;

/// The character of the decimal digit `d`.
pub open spec fn digit_char(d: int) -> char {
    if d == 0 {
        '0'
    } else if d == 1 {
        '1'
    } else if d == 2 {
        '2'
    } else if d == 3 {
        '3'
    } else if d == 4 {
        '4'
    } else if d == 5 {
        '5'
    } else if d == 6 {
        '6'
    } else if d == 7 {
        '7'
    } else if d == 8 {
        '8'
    } else {
        '9'
    }
}

/// The decimal digits of `n`, most significant first, without leading zeros.
pub open spec fn digits(n: nat) -> Seq<char>
    decreases n,
{
    if n < 10 {
        seq![digit_char(n as int)]
    } else {
        digits(n / 10).push(digit_char((n % 10) as int))
    }
}

/// `n` copies of `c`.
pub open spec fn repeated(c: char, n: nat) -> Seq<char> {
    Seq::new(n, |i: int| c)
}

/// `text` right-justified in `width` columns: blanks in front make up what is
/// missing, and a longer text stays as it is.
pub open spec fn pad_left(text: Seq<char>, width: int) -> Seq<char> {
    if text.len() >= width {
        text
    } else {
        repeated(' ', (width - text.len()) as nat) + text
    }
}

/// The absolute value of `v`.
pub open spec fn magnitude(v: int) -> nat {
    if v < 0 {
        (-v) as nat
    } else {
        v as nat
    }
}

/// The value `v` thousandths written with three decimals: a minus sign if it
/// is negative, the whole part, a point, and the three digits of the rest.
pub open spec fn decimal(v: int) -> Seq<char> {
    let m = magnitude(v);
    let sign = if v < 0 {
        seq!['-']
    } else {
        Seq::<char>::empty()
    };
    sign + digits(m / 1000) + seq![
        '.',
        digit_char((m / 100 % 10) as int),
        digit_char((m / 10 % 10) as int),
        digit_char((m % 10) as int),
    ]
}

/// Ten to the power `k`.
pub open spec fn pow10(k: nat) -> nat
    decreases k,
{
    if k == 0 {
        1
    } else {
        10 * pow10((k - 1) as nat)
    }
}

/// A number below `10^k` has at most `k` digits.
pub proof fn digits_len_bound(n: nat, k: nat)
    requires
        k >= 1,
        n < pow10(k),
    ensures
        1 <= digits(n).len() <= k,
    decreases n,
{
    if n >= 10 {
        if k == 1 {
            reveal_with_fuel(pow10, 2);
        } else {
            digits_len_bound(n / 10, (k - 1) as nat);
        }
    }
}

/// No `u64` has more than 20 digits.
pub proof fn u64_below_pow10_20(n: u64)
    ensures
        n < pow10(20),
        1 <= digits(n as nat).len() <= 20,
{
    reveal_with_fuel(pow10, 21);
    assert(pow10(20) == 100_000_000_000_000_000_000);
    digits_len_bound(n as nat, 20);
}

fn digit(d: u64) -> (c: char)
    requires
        d < 10,
    ensures
        c == digit_char(d as int),
{
    if d == 0 {
        '0'
    } else if d == 1 {
        '1'
    } else if d == 2 {
        '2'
    } else if d == 3 {
        '3'
    } else if d == 4 {
        '4'
    } else if d == 5 {
        '5'
    } else if d == 6 {
        '6'
    } else if d == 7 {
        '7'
    } else if d == 8 {
        '8'
    } else {
        '9'
    }
}

/// Appends the decimal digits of `n` to `out`.
pub fn push_digits(out: &mut String, n: u64)
    ensures
        final(out)@ == old(out)@ + digits(n as nat),
    decreases n,
{
    if n >= 10 {
        push_digits(out, n / 10);
    }
    out.push(digit(n % 10));
    assert(out@ =~= old(out)@ + digits(n as nat));
}

/// The number of decimal digits of `n`.
pub fn digits_len(n: u64) -> (r: usize)
    ensures
        r == digits(n as nat).len(),
        1 <= r <= 20,
    decreases n,
{
    proof {
        u64_below_pow10_20(n);
    }
    if n < 10 {
        1
    } else {
        1 + digits_len(n / 10)
    }
}

/// Appends `n` copies of `c` to `out`.
pub fn push_repeated(out: &mut String, c: char, n: usize)
    ensures
        final(out)@ == old(out)@ + repeated(c, n as nat),
{
    let mut i: usize = 0;
    assert(out@ =~= old(out)@ + repeated(c, 0));
    while i < n
        invariant
            i <= n,
            out@ == old(out)@ + repeated(c, i as nat),
        decreases n - i,
    {
        out.push(c);
        i = i + 1;
        assert(out@ =~= old(out)@ + repeated(c, i as nat));
    }
}

fn magnitude_of(v: i64) -> (m: u64)
    ensures
        m == magnitude(v as int),
{
    if v < 0 {
        (-(v as i128)) as u64
    } else {
        v as u64
    }
}

/// The length of the three-decimal text of `v`.
pub fn decimal_len(v: i64) -> (r: usize)
    ensures
        r == decimal(v as int).len(),
        5 <= r <= 25,
{
    let m: u64 = magnitude_of(v);
    let whole: usize = digits_len(m / 1000);
    if v < 0 {
        whole + 5
    } else {
        whole + 4
    }
}

/// The three-decimal text of `v`, right-justified in `width` columns.
pub fn format_decimal(v: i64, width: usize) -> (r: String)
    ensures
        r@ == pad_left(decimal(v as int), width as int),
{
    let len: usize = decimal_len(v);
    let m: u64 = magnitude_of(v);
    let mut out = String::new();
    if len < width {
        push_repeated(&mut out, ' ', width - len);
    }
    let ghost blanks = out@;
    if v < 0 {
        out.push('-');
    }
    push_digits(&mut out, m / 1000);
    out.push('.');
    out.push(digit(m / 100 % 10));
    out.push(digit(m / 10 % 10));
    out.push(digit(m % 10));
    assert(out@ =~= blanks + decimal(v as int));
    assert(out@ =~= pad_left(decimal(v as int), width as int));
    out
}

/// The decimal text of `n`, right-justified in `width` columns.
pub fn format_count(n: usize, width: usize) -> (r: String)
    ensures
        r@ == pad_left(digits(n as nat), width as int),
{
    let len: usize = digits_len(n as u64);
    let mut out = String::new();
    if len < width {
        push_repeated(&mut out, ' ', width - len);
    }
    let ghost blanks = out@;
    push_digits(&mut out, n as u64);
    assert(out@ =~= pad_left(digits(n as nat), width as int));
    out
}

} // verus!
