//! Numbers as text.

use vstd::prelude::*;

verus! {

/// `String::push` appends one character to the end of the string.
pub assume_specification[ String::push ](s: &mut String, ch: char)
    ensures
        final(s)@ == old(s)@.push(ch),
;

/// The character of a decimal digit.
pub open spec fn digit(d: nat) -> char {
    (48 + d) as u8 as char
}

/// `count` zeros, none where `count` is negative.
pub open spec fn zeros(count: int) -> Seq<char> {
    Seq::new(
        if count > 0 {
            count as nat
        } else {
            0
        },
        |i: int| '0',
    )
}

/// `n` in decimal, with zeros in front where it has fewer than `width` digits.
pub open spec fn padded(n: nat, width: int) -> Seq<char>
    decreases n,
{
    if n < 10 {
        zeros(width - 1).push(digit(n))
    } else {
        padded(n / 10, width - 1).push(digit(n % 10))
    }
}

/// `n` in decimal.
pub open spec fn decimal(n: nat) -> Seq<char> {
    padded(n, 0)
}

/// `n` in decimal, with an underscore between groups of three digits,
/// counted from the right.
pub open spec fn grouped(n: nat) -> Seq<char>
    decreases n,
{
    if n < 1000 {
        decimal(n)
    } else {
        grouped(n / 1000) + seq!['_'] + padded(n % 1000, 3)
    }
}

fn digit_char(d: usize) -> (c: char)
    requires
        d < 10,
    ensures
        c == digit(d as nat),
{
    (48 + d as u8) as char
}

/// Appends `n` in decimal to `out`, with zeros in front up to `width` digits.
pub fn push_padded(out: &mut String, n: usize, width: usize)
    ensures
        final(out)@ == old(out)@ + padded(n as nat, width as int),
    decreases n,
{
    if n < 10 {
        let mut i: usize = 1;
        while i < width
            invariant
                1 <= i,
                i <= width || i == 1,
                out@ == old(out)@ + zeros(i - 1),
            decreases width - i,
        {
            out.push('0');
            i = i + 1;
        }
        out.push(digit_char(n));
    } else {
        push_padded(out, n / 10, if width > 0 {
            width - 1
        } else {
            0
        });
        proof {
            if width == 0 {
                lemma_padded_narrow(n as nat / 10, -1);
            }
        }
        out.push(digit_char(n % 10));
    }
}

/// A width below one pads nothing.
pub proof fn lemma_padded_narrow(n: nat, width: int)
    requires
        width <= 1,
    ensures
        padded(n, width) == padded(n, 0),
    decreases n,
{
    if n < 10 {
    } else {
        lemma_padded_narrow(n / 10, width - 1);
        lemma_padded_narrow(n / 10, -1);
    }
}

fn push_grouped(out: &mut String, n: usize)
    ensures
        final(out)@ == old(out)@ + grouped(n as nat),
    decreases n,
{
    if n < 1000 {
        push_padded(out, n, 0);
    } else {
        push_grouped(out, n / 1000);
        out.push('_');
        push_padded(out, n % 1000, 3);
    }
}

/// Writes `n` with an underscore between groups of three digits, as in
/// `1_234_567`.
pub fn format_number(n: usize) -> (text: String)
    ensures
        text@ == grouped(n as nat),
{
    let mut out = String::new();
    push_grouped(&mut out, n);
    out
}

} // verus!
