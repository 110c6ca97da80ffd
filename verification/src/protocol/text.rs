//! Writing numbers as text.

use vstd::prelude::*;
use vstd::string::StringExecFns;

verus! {

/// `String::push` of std appends the given character to the end of the
/// string.
pub assume_specification[ String::push ](s: &mut String, ch: char)
    ensures
        final(s)@ == old(s)@.push(ch),
;

/// The character for the digit `d` of a number in a base of at most sixteen.
pub open spec fn digit(d: nat) -> char {
    if d == 0 {
        '0'
    } else if d == 1 {
        '1'
    } else if d == 2 {
        '2'
    } else if d == 3 {
        '3'
    } else if d == 4 {
        '4'
    } else if d == 5 {
        '5'
    } else if d == 6 {
        '6'
    } else if d == 7 {
        '7'
    } else if d == 8 {
        '8'
    } else if d == 9 {
        '9'
    } else if d == 10 {
        'a'
    } else if d == 11 {
        'b'
    } else if d == 12 {
        'c'
    } else if d == 13 {
        'd'
    } else if d == 14 {
        'e'
    } else {
        'f'
    }
}

/// The digits of `n` in the base `base`, most significant first and without
/// leading zeros; zero is one digit.
pub open spec fn digits(n: nat, base: nat) -> Seq<char>
    decreases n,
    via digits_decreases
{
    if base < 2 || n < base {
        seq![digit(n)]
    } else {
        digits(n / base, base).push(digit(n % base))
    }
}

#[via_fn]
proof fn digits_decreases(n: nat, base: nat) {
    if !(base < 2 || n < base) {
        assert(n / base < n) by (nonlinear_arith)
            requires
                base >= 2,
                n >= base,
        ;
    }
}

/// The digits of `n` in the base `base`, with zeros in front where they are
/// fewer than `width`.
pub open spec fn radix(n: nat, base: nat, width: nat) -> Seq<char> {
    let d = digits(n, base);
    if d.len() < width {
        Seq::new((width - d.len()) as nat, |i: int| '0') + d
    } else {
        d
    }
}

/// An 8-bit number in decimal.
pub open spec fn dec8(n: u8) -> Seq<char> {
    digits(n as nat, 10)
}

/// A 16-bit number in decimal.
pub open spec fn dec16(n: u16) -> Seq<char> {
    digits(n as nat, 10)
}

/// An 8-bit number in hexadecimal, of at least `width` digits.
pub open spec fn hex8(n: u8, width: nat) -> Seq<char> {
    radix(n as nat, 16, width)
}

/// A 16-bit number in hexadecimal, of at least `width` digits.
pub open spec fn hex16(n: u16, width: nat) -> Seq<char> {
    radix(n as nat, 16, width)
}

/// A 16-bit number in binary, of at least `width` digits.
pub open spec fn bin16(n: u16, width: nat) -> Seq<char> {
    radix(n as nat, 2, width)
}

fn digit_of(d: u16) -> (c: char)
    requires
        d < 16,
    ensures
        c == digit(d as nat),
{
    if d == 0 {
        '0'
    } else if d == 1 {
        '1'
    } else if d == 2 {
        '2'
    } else if d == 3 {
        '3'
    } else if d == 4 {
        '4'
    } else if d == 5 {
        '5'
    } else if d == 6 {
        '6'
    } else if d == 7 {
        '7'
    } else if d == 8 {
        '8'
    } else if d == 9 {
        '9'
    } else if d == 10 {
        'a'
    } else if d == 11 {
        'b'
    } else if d == 12 {
        'c'
    } else if d == 13 {
        'd'
    } else if d == 14 {
        'e'
    } else {
        'f'
    }
}

fn count_digits(n: u16, base: u16) -> (count: usize)
    requires
        2 <= base <= 16,
    ensures
        count == digits(n as nat, base as nat).len(),
        1 <= count <= n + 1,
    decreases n,
{
    if n < base {
        1
    } else {
        assert(n / base < n) by (nonlinear_arith)
            requires
                base >= 2,
                n >= base,
        ;
        let rest: usize = count_digits(n / base, base);
        rest + 1
    }
}

fn push_digits(s: &mut String, n: u16, base: u16)
    requires
        2 <= base <= 16,
    ensures
        final(s)@ == old(s)@ + digits(n as nat, base as nat),
    decreases n,
{
    if n >= base {
        assert(n / base < n) by (nonlinear_arith)
            requires
                base >= 2,
                n >= base,
        ;
        push_digits(s, n / base, base);
    }
    assert(n % base < base && (n < base ==> n % base == n)) by (nonlinear_arith)
        requires
            base >= 2,
    ;
    s.push(digit_of(n % base));
    assert(s@ =~= old(s)@ + digits(n as nat, base as nat));
}

/// Appends `n` in the base `base` to `s`, with zeros in front where its
/// digits are fewer than `width`.
pub fn push_radix(s: &mut String, n: u16, base: u16, width: usize)
    requires
        2 <= base <= 16,
    ensures
        final(s)@ == old(s)@ + radix(n as nat, base as nat, width as nat),
{
    let count: usize = count_digits(n, base);
    let ghost zeros: Seq<char> = Seq::empty();
    let mut i: usize = count;
    while i < width
        invariant
            count <= i,
            i == count || i <= width,
            zeros.len() == i - count,
            forall|j: int| 0 <= j < zeros.len() ==> zeros[j] == '0',
            s@ == old(s)@ + zeros,
        decreases width - i,
    {
        s.push('0');
        proof {
            zeros = zeros.push('0');
        }
        i = i + 1;
        assert(s@ =~= old(s)@ + zeros);
    }
    push_digits(s, n, base);
    proof {
        let d = digits(n as nat, base as nat);
        if d.len() < width {
            assert(zeros =~= Seq::new((width - d.len()) as nat, |i: int| '0'));
        } else {
            assert(zeros =~= Seq::<char>::empty());
        }
        assert(s@ =~= old(s)@ + radix(n as nat, base as nat, width as nat));
    }
}

/// Appends an 8-bit number in decimal to `s`.
pub fn push_dec8(s: &mut String, n: u8)
    ensures
        final(s)@ == old(s)@ + dec8(n),
{
    push_radix(s, n as u16, 10, 0);
}

/// Appends a 16-bit number in decimal to `s`.
pub fn push_dec16(s: &mut String, n: u16)
    ensures
        final(s)@ == old(s)@ + dec16(n),
{
    push_radix(s, n, 10, 0);
}

/// Appends an 8-bit number in hexadecimal to `s`, in at least `width` digits.
pub fn push_hex8(s: &mut String, n: u8, width: usize)
    ensures
        final(s)@ == old(s)@ + hex8(n, width as nat),
{
    push_radix(s, n as u16, 16, width);
}

/// Appends a 16-bit number in hexadecimal to `s`, in at least `width` digits.
pub fn push_hex16(s: &mut String, n: u16, width: usize)
    ensures
        final(s)@ == old(s)@ + hex16(n, width as nat),
{
    push_radix(s, n, 16, width);
}

/// Appends a 16-bit number in binary to `s`, in at least `width` digits.
pub fn push_bin16(s: &mut String, n: u16, width: usize)
    ensures
        final(s)@ == old(s)@ + bin16(n, width as nat),
{
    push_radix(s, n, 2, width);
}

/// Appends the text `t` to `s`.
pub fn push_text(s: &mut String, t: &str)
    ensures
        final(s)@ == old(s)@ + t@,
{
    s.append(t);
}

} // verus!
