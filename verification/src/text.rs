//! Rendering of numbers as text, for the messages carried by errors and
//! for the names of unnamed feature bits.

use vstd::prelude::*;
use vstd::string::StringExecFns;

verus! {

/// The character that stands for the digit `d` in bases up to sixteen.
pub open spec fn digit_char(d: nat) -> char {
    if d == 0 {
        '0'
    } else if d == 1 {
        '1'
    } else if d == 2 {
        '2'
    } else if d == 3 {
        '3'
    } else if d == 4 {
        '4'
    } else if d == 5 {
        '5'
    } else if d == 6 {
        '6'
    } else if d == 7 {
        '7'
    } else if d == 8 {
        '8'
    } else if d == 9 {
        '9'
    } else if d == 10 {
        'a'
    } else if d == 11 {
        'b'
    } else if d == 12 {
        'c'
    } else if d == 13 {
        'd'
    } else if d == 14 {
        'e'
    } else {
        'f'
    }
}

/// `n` in decimal, most significant digit first, without leading zeros
/// (a single `0` for zero).
pub open spec fn spec_decimal(n: nat) -> Seq<char>
    decreases n,
{
    if n < 10 {
        seq![digit_char(n)]
    } else {
        spec_decimal(n / 10).push(digit_char(n % 10))
    }
}

/// `n` in lower-case hexadecimal, most significant digit first, without
/// leading zeros (a single `0` for zero).
pub open spec fn spec_hex_digits(n: nat) -> Seq<char>
    decreases n,
{
    if n < 16 {
        seq![digit_char(n)]
    } else {
        spec_hex_digits(n / 16).push(digit_char(n % 16))
    }
}

/// `n` in lower-case hexadecimal behind the prefix `0x`.
pub open spec fn spec_hex(n: nat) -> Seq<char> {
    seq!['0', 'x'] + spec_hex_digits(n)
}

fn digit_str(d: u64) -> (s: &'static str)
    requires
        d < 16,
    ensures
        s@ == seq![digit_char(d as nat)],
{
    proof {
        reveal_strlit("0");
        reveal_strlit("1");
        reveal_strlit("2");
        reveal_strlit("3");
        reveal_strlit("4");
        reveal_strlit("5");
        reveal_strlit("6");
        reveal_strlit("7");
        reveal_strlit("8");
        reveal_strlit("9");
        reveal_strlit("a");
        reveal_strlit("b");
        reveal_strlit("c");
        reveal_strlit("d");
        reveal_strlit("e");
        reveal_strlit("f");
    }
    let s = if d == 0 {
        "0"
    } else if d == 1 {
        "1"
    } else if d == 2 {
        "2"
    } else if d == 3 {
        "3"
    } else if d == 4 {
        "4"
    } else if d == 5 {
        "5"
    } else if d == 6 {
        "6"
    } else if d == 7 {
        "7"
    } else if d == 8 {
        "8"
    } else if d == 9 {
        "9"
    } else if d == 10 {
        "a"
    } else if d == 11 {
        "b"
    } else if d == 12 {
        "c"
    } else if d == 13 {
        "d"
    } else if d == 14 {
        "e"
    } else {
        "f"
    };
    assert(s@ =~= seq![digit_char(d as nat)]);
    s
}

/// Appends `n` in decimal to `s`.
pub fn push_decimal(s: &mut String, n: u64)
    ensures
        final(s)@ == old(s)@ + spec_decimal(n as nat),
    decreases n,
{
    if n >= 10 {
        push_decimal(s, n / 10);
    }
    s.append(digit_str(n % 10));
    assert(s@ =~= old(s)@ + spec_decimal(n as nat));
}

fn push_hex_digits(s: &mut String, n: u64)
    ensures
        final(s)@ == old(s)@ + spec_hex_digits(n as nat),
    decreases n,
{
    if n >= 16 {
        push_hex_digits(s, n / 16);
    }
    s.append(digit_str(n % 16));
    assert(s@ =~= old(s)@ + spec_hex_digits(n as nat));
}

/// Appends `n` in hexadecimal, with its `0x` prefix, to `s`.
pub fn push_hex(s: &mut String, n: u64)
    ensures
        final(s)@ == old(s)@ + spec_hex(n as nat),
{
    proof {
        reveal_strlit("0x");
    }
    s.append("0x");
    assert(s@ =~= old(s)@ + seq!['0', 'x']);
    push_hex_digits(s, n);
    assert(s@ =~= old(s)@ + spec_hex(n as nat));
}

/// The characters that the bytes `bytes` stand for, one for one.
pub open spec fn spec_ascii(bytes: Seq<u8>) -> Seq<char> {
    Seq::new(bytes.len(), |i: int| bytes[i] as char)
}

/// Whether every byte of `bytes` is an ASCII character.
pub open spec fn spec_is_ascii(bytes: Seq<u8>) -> bool {
    forall|i: int| 0 <= i < bytes.len() ==> bytes[i] < 0x80
}

/// `String::from_utf8`: of bytes that are all ASCII it makes the string
/// with one character for each byte, in order. Nothing is claimed of other
/// input.
#[verifier::external_body]
pub(crate) fn ascii_string(bytes: Vec<u8>) -> (r: Option<String>)
    ensures
        spec_is_ascii(bytes@) ==> r is Some,
        spec_is_ascii(bytes@) ==> r.unwrap()@ == spec_ascii(bytes@),
{
    String::from_utf8(bytes).ok()
}

/// `n` in decimal.
pub fn decimal(n: u64) -> (s: String)
    ensures
        s@ == spec_decimal(n as nat),
{
    let mut s = String::new();
    push_decimal(&mut s, n);
    assert(s@ =~= spec_decimal(n as nat));
    s
}

/// `n` in hexadecimal with its `0x` prefix.
pub fn hex(n: u64) -> (s: String)
    ensures
        s@ == spec_hex(n as nat),
{
    let mut s = String::new();
    push_hex(&mut s, n);
    assert(s@ =~= spec_hex(n as nat));
    s
}

} // verus!
