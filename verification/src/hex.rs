//! Numbers written in lower-case hexadecimal.
use vstd::prelude::*;
use vstd::string::StringExecFns;

verus! {

/// The lower-case hexadecimal digit of `d`.
pub open spec fn hex_char(d: nat) -> char {
    if d < 10 {
        (('0' as nat) + d) as char
    } else {
        (('a' as nat) + d - 10) as char
    }
}

/// The lower-case hexadecimal digits of `n`, most significant first,
/// padded with zeros to at least `width` digits.
pub open spec fn hex_digits(n: nat, width: nat) -> Seq<char>
    decreases n + width,
{
    if n < 16 && width <= 1 {
        seq![hex_char(n)]
    } else {
        hex_digits(n / 16, if width > 0 { (width - 1) as nat } else { 0 }).push(hex_char(n % 16))
    }
}

fn hex_digit_str(d: u32) -> (r: &'static str)
    requires
        d < 16,
    ensures
        r@ == seq![hex_char(d as nat)],
{
    proof {
        reveal_strlit("0");
        reveal_strlit("1");
        reveal_strlit("2");
        reveal_strlit("3");
        reveal_strlit("4");
        reveal_strlit("5");
        reveal_strlit("6");
        reveal_strlit("7");
        reveal_strlit("8");
        reveal_strlit("9");
        reveal_strlit("a");
        reveal_strlit("b");
        reveal_strlit("c");
        reveal_strlit("d");
        reveal_strlit("e");
        reveal_strlit("f");
    }
    if d == 0 {
        "0"
    } else if d == 1 {
        "1"
    } else if d == 2 {
        "2"
    } else if d == 3 {
        "3"
    } else if d == 4 {
        "4"
    } else if d == 5 {
        "5"
    } else if d == 6 {
        "6"
    } else if d == 7 {
        "7"
    } else if d == 8 {
        "8"
    } else if d == 9 {
        "9"
    } else if d == 10 {
        "a"
    } else if d == 11 {
        "b"
    } else if d == 12 {
        "c"
    } else if d == 13 {
        "d"
    } else if d == 14 {
        "e"
    } else {
        "f"
    }
}

/// `n` in lower-case hexadecimal, padded with zeros to at least `width`
/// digits.
pub fn hex_string(n: u32, width: u32) -> (r: String)
    ensures
        r@ == hex_digits(n as nat, width as nat),
    decreases n + width,
{
    if n < 16 && width <= 1 {
        String::from_str(hex_digit_str(n))
    } else {
        let mut s = hex_string(n / 16, if width > 0 { width - 1 } else { 0 });
        s.append(hex_digit_str(n % 16));
        s
    }
}

} // verus!
