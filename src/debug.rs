//! Text formatting for the kernel debug console.
//!
//! Each function appends the bytes it would print to `out`; the caller
//! forwards them to the console port.
use vstd::prelude::*;

verus! {

/// The upper-case hexadecimal digit for `n` (`n < 16`).
pub open spec fn hex_digit(n: nat) -> u8 {
    if n <= 9 {
        (48 + n) as u8
    } else {
        (55 + n) as u8
    }
}

/// Two hexadecimal digits of a byte, high nibble first.
pub open spec fn hex_byte(b: u8) -> Seq<u8> {
    seq![hex_digit((b / 16) as nat), hex_digit((b % 16) as nat)]
}

/// A number as a run of two-digit hexadecimal bytes, most significant first.
pub open spec fn hex_number(n: nat) -> Seq<u8>
    decreases n,
{
    if n >= 256 {
        hex_number(n / 256) + hex_byte((n % 256) as u8)
    } else {
        hex_byte(n as u8)
    }
}

/// A number in decimal, most significant digit first.
pub open spec fn decimal(n: nat) -> Seq<u8>
    decreases n,
{
    if n >= 10 {
        decimal(n / 10) + seq![(48 + n % 10) as u8]
    } else {
        seq![(48 + n) as u8]
    }
}

/// A signed number in decimal, with a leading `-` when negative.
pub open spec fn signed_decimal(n: int) -> Seq<u8> {
    if n >= 0 {
        decimal(n as nat)
    } else {
        seq![45u8] + decimal((-n) as nat)
    }
}

/// The byte printed for a character: its code point truncated to eight bits.
pub open spec fn char_byte(c: char) -> u8 {
    (c as u32) as u8
}

/// The bytes printed for a text, one per character.
pub open spec fn text_bytes(s: Seq<char>) -> Seq<u8> {
    s.map_values(|c: char| char_byte(c))
}

fn digit(n: u8) -> (r: u8)
    requires
        n < 16,
    ensures
        r == hex_digit(n as nat),
{
    if n <= 9 {
        n + 48
    } else {
        n - 10 + 65
    }
}

/// Prints one raw byte.
pub fn db(out: &mut Vec<u8>, byte: u8)
    ensures
        final(out)@ == old(out)@.push(byte),
{
    out.push(byte);
}

/// Prints a byte as two hexadecimal digits.
pub fn dbh(out: &mut Vec<u8>, byte: u8)
    ensures
        final(out)@ == old(out)@ + hex_byte(byte),
{
    let ghost start = out@;
    db(out, digit(byte / 16));
    db(out, digit(byte % 16));
    proof {
        assert(out@ =~= start + hex_byte(byte));
    }
}

/// Prints a number in hexadecimal, two digits per byte.
pub fn dh(out: &mut Vec<u8>, num: usize)
    ensures
        final(out)@ == old(out)@ + hex_number(num as nat),
    decreases num,
{
    if num >= 256 {
        dh(out, num / 256);
    }
    dbh(out, (num % 256) as u8);
    proof {
        assert(old(out)@ + hex_number(num as nat) =~= final(out)@) by {
            if num >= 256 {
                assert((num % 256) as u8 == (num as nat % 256) as u8);
            }
        }
    }
}

/// Prints a number in decimal.
pub fn dd(out: &mut Vec<u8>, num: usize)
    ensures
        final(out)@ == old(out)@ + decimal(num as nat),
    decreases num,
{
    let ghost start = out@;
    if num >= 10 {
        dd(out, num / 10);
    }
    db(out, 48 + (num % 10) as u8);
    proof {
        assert(start + decimal(num as nat) =~= out@);
    }
}

/// Prints a signed number in decimal.
pub fn ds(out: &mut Vec<u8>, num: isize)
    ensures
        final(out)@ == old(out)@ + signed_decimal(num as int),
{
    if num >= 0 {
        dd(out, num as usize);
    } else {
        let ghost start = out@;
        dc(out, '-');
        let magnitude: usize = if num == isize::MIN {
            (isize::MAX as usize) + 1
        } else {
            (-num) as usize
        };
        dd(out, magnitude);
        proof {
            assert(start + signed_decimal(num as int) =~= out@);
        }
    }
}

/// Prints one character as a byte.
pub fn dc(out: &mut Vec<u8>, character: char)
    ensures
        final(out)@ == old(out)@.push(char_byte(character)),
{
    db(out, character as u32 as u8);
}

/// Prints a line break.
pub fn dl(out: &mut Vec<u8>)
    ensures
        final(out)@ == old(out)@.push(10u8),
{
    dc(out, '\n');
}

/// Prints a text, one byte per character.
pub fn d(out: &mut Vec<u8>, text: &str)
    ensures
        final(out)@ == old(out)@ + text_bytes(text@),
{
    let ghost start = out@;
    let n = text.unicode_len();
    let mut i: usize = 0;
    while i < n
        invariant
            n == text@.len(),
            i <= n,
            out@ == start + text_bytes(text@.subrange(0, i as int)),
        decreases n - i,
    {
        let c = text.get_char(i);
        dc(out, c);
        proof {
            assert(text@.subrange(0, i + 1) =~= text@.subrange(0, i as int).push(c));
            assert(text_bytes(text@.subrange(0, i + 1)) =~= text_bytes(text@.subrange(0, i as int)).push(char_byte(c)));
        }
        i += 1;
    }
    proof {
        assert(text@.subrange(0, n as int) =~= text@);
    }
}

} // verus!
