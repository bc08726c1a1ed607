//! Verified text building: decimal rendering of machine integers and
//! fixed-width padding, as the disassembler and the trace channel need
//! them.

use vstd::prelude::*;
use vstd::string::StrSliceExecFns;
use vstd::string::StringExecFns;

verus! {

/// The character for one decimal digit.
pub open spec fn spec_digit_char(d: int) -> char
    recommends
        0 <= d < 10,
{
    if d == 0 {
        '0'
    } else if d == 1 {
        '1'
    } else if d == 2 {
        '2'
    } else if d == 3 {
        '3'
    } else if d == 4 {
        '4'
    } else if d == 5 {
        '5'
    } else if d == 6 {
        '6'
    } else if d == 7 {
        '7'
    } else if d == 8 {
        '8'
    } else {
        '9'
    }
}

/// The decimal rendering of a non-negative integer, without sign or
/// padding.
pub open spec fn spec_dec(n: int) -> Seq<char>
    recommends
        n >= 0,
    decreases n,
{
    if n < 10 {
        seq![spec_digit_char(n)]
    } else {
        spec_dec(n / 10).push(spec_digit_char(n % 10))
    }
}

/// `n` copies of one character.
pub open spec fn spec_repeat(c: char, n: int) -> Seq<char>
    decreases n,
{
    if n <= 0 {
        Seq::empty()
    } else {
        spec_repeat(c, n - 1).push(c)
    }
}

/// `s` padded on the left with spaces to `width` characters; `s` itself
/// if it is already that wide.
pub open spec fn spec_pad_left(s: Seq<char>, width: int) -> Seq<char> {
    spec_repeat(' ', width - s.len()) + s
}

/// `s` padded on the left with zeroes to `width` characters.
pub open spec fn spec_zero_pad(s: Seq<char>, width: int) -> Seq<char> {
    spec_repeat('0', width - s.len()) + s
}

/// `s` padded on the right with spaces to `width` characters.
pub open spec fn spec_pad_right(s: Seq<char>, width: int) -> Seq<char> {
    s + spec_repeat(' ', width - s.len())
}

/// One decimal digit as a borrowed string.
fn digit_str(d: usize) -> (s: &'static str)
    requires
        d < 10,
    ensures
        s@ =~= seq![spec_digit_char(d as int)],
{
    proof {
        reveal_strlit("0");
        reveal_strlit("1");
        reveal_strlit("2");
        reveal_strlit("3");
        reveal_strlit("4");
        reveal_strlit("5");
        reveal_strlit("6");
        reveal_strlit("7");
        reveal_strlit("8");
        reveal_strlit("9");
    }
    match d {
        0 => "0",
        1 => "1",
        2 => "2",
        3 => "3",
        4 => "4",
        5 => "5",
        6 => "6",
        7 => "7",
        8 => "8",
        _ => "9",
    }
}

/// Render a machine integer in decimal.
pub fn decimal(n: usize) -> (s: String)
    ensures
        s@ == spec_dec(n as int),
    decreases n,
{
    if n < 10 {
        digit_str(n).to_owned()
    } else {
        let mut s = decimal(n / 10);
        s.append(digit_str(n % 10));
        assert(s@ =~= spec_dec(n as int));
        s
    }
}

/// Pad `s` on the left with copies of `filler` to `width` characters.
fn padded(s: String, width: usize, filler: &str, left: bool) -> (r: String)
    requires
        filler@.len() == 1,
    ensures
        left ==> r@ == spec_repeat(filler@[0], width - s@.len()) + s@,
        !left ==> r@ == s@ + spec_repeat(filler@[0], width - s@.len()),
{
    let n = s.as_str().unicode_len();
    let mut pad = String::new();
    let mut i: usize = n;
    while i < width
        invariant
            n <= i,
            i <= width || i == n,
            filler@.len() == 1,
            pad@ =~= spec_repeat(filler@[0], i - n),
        decreases width - i,
    {
        pad.append(filler);
        i = i + 1;
        assert(pad@ =~= spec_repeat(filler@[0], i - n));
    }
    assert(pad@ =~= spec_repeat(filler@[0], width - s@.len()));
    if left {
        pad.append(s.as_str());
        pad
    } else {
        let mut r = s;
        r.append(pad.as_str());
        r
    }
}

/// `s` padded on the left with spaces to `width` characters.
pub fn pad_left(s: String, width: usize) -> (r: String)
    ensures
        r@ == spec_pad_left(s@, width as int),
{
    proof {
        reveal_strlit(" ");
    }
    padded(s, width, " ", true)
}

/// `s` padded on the left with zeroes to `width` characters.
pub fn zero_pad(s: String, width: usize) -> (r: String)
    ensures
        r@ == spec_zero_pad(s@, width as int),
{
    proof {
        reveal_strlit("0");
    }
    padded(s, width, "0", true)
}

/// `s` padded on the right with spaces to `width` characters.
pub fn pad_right(s: String, width: usize) -> (r: String)
    ensures
        r@ == spec_pad_right(s@, width as int),
{
    proof {
        reveal_strlit(" ");
    }
    padded(s, width, " ", false)
}

} // verus!
