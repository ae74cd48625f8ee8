//! The text of a pane's header: decimal numbers and the line that names a
//! pane by its place and its rectangle.

use vstd::prelude::*;
use vstd::string::StringExecFns;

verus! {

/// The character of one decimal digit.
pub open spec fn digit_char(d: int) -> char {
    if d == 0 {
        '0'
    } else if d == 1 {
        '1'
    } else if d == 2 {
        '2'
    } else if d == 3 {
        '3'
    } else if d == 4 {
        '4'
    } else if d == 5 {
        '5'
    } else if d == 6 {
        '6'
    } else if d == 7 {
        '7'
    } else if d == 8 {
        '8'
    } else {
        '9'
    }
}

/// A natural number in decimal, without leading zeros.
pub open spec fn decimal_nat(n: nat) -> Seq<char>
    decreases n,
{
    if n < 10 {
        seq![digit_char(n as int)]
    } else {
        decimal_nat(n / 10) + seq![digit_char((n % 10) as int)]
    }
}

/// An integer in decimal, with a minus sign in front of a negative one.
pub open spec fn decimal(n: int) -> Seq<char> {
    if n < 0 {
        seq!['-'] + decimal_nat((-n) as nat)
    } else {
        decimal_nat(n as nat)
    }
}

/// The header of the pane that is child `index` of its container: the word
/// `Window` under the root and `Container` under any other container, the
/// index, the pane's origin and its size.
#[verifier::opaque]
pub open spec fn header_text(root: bool, index: int, x: int, y: int, width: int, height: int) -> Seq<char> {
    (if root {
        "Window "@
    } else {
        "Container "@
    }) + decimal(index) + " ("@ + decimal(x) + ", "@ + decimal(y) + ") ("@ + decimal(width) + ", "@
        + decimal(height) + ")"@
}

fn digit_str(d: u64) -> (s: &'static str)
    requires
        d < 10,
    ensures
        s@ == seq![digit_char(d as int)],
{
    proof {
        reveal_strlit("0");
        reveal_strlit("1");
        reveal_strlit("2");
        reveal_strlit("3");
        reveal_strlit("4");
        reveal_strlit("5");
        reveal_strlit("6");
        reveal_strlit("7");
        reveal_strlit("8");
        reveal_strlit("9");
    }
    let s: &'static str = if d == 0 {
        "0"
    } else if d == 1 {
        "1"
    } else if d == 2 {
        "2"
    } else if d == 3 {
        "3"
    } else if d == 4 {
        "4"
    } else if d == 5 {
        "5"
    } else if d == 6 {
        "6"
    } else if d == 7 {
        "7"
    } else if d == 8 {
        "8"
    } else {
        "9"
    };
    assert(s@ =~= seq![digit_char(d as int)]);
    s
}

/// Appends a natural number in decimal to `out`.
pub fn push_decimal(out: &mut String, n: u64)
    ensures
        final(out)@ == old(out)@ + decimal_nat(n as nat),
    decreases n,
{
    if n >= 10 {
        push_decimal(out, n / 10);
    }
    out.append(digit_str(n % 10));
    assert(out@ =~= old(out)@ + decimal_nat(n as nat));
}

/// Appends an integer in decimal to `out`.
pub fn push_int(out: &mut String, n: i32)
    ensures
        final(out)@ == old(out)@ + decimal(n as int),
{
    if n < 0 {
        proof {
            reveal_strlit("-");
        }
        out.append("-");
        let m: u64 = (-(n as i64)) as u64;
        push_decimal(out, m);
        assert(out@ =~= old(out)@ + decimal(n as int));
    } else {
        push_decimal(out, n as u64);
    }
}

/// Writes the header of the pane that is child `index` of its container.
pub fn make_header(root: bool, index: usize, x: i32, y: i32, width: i32, height: i32) -> (s: String)
    ensures
        s@ == header_text(root, index as int, x as int, y as int, width as int, height as int),
{
    proof {
        reveal(header_text);
    }
    let mut s: String = if root {
        String::from_str("Window ")
    } else {
        String::from_str("Container ")
    };
    push_decimal(&mut s, index as u64);
    s.append(" (");
    push_int(&mut s, x);
    s.append(", ");
    push_int(&mut s, y);
    s.append(") (");
    push_int(&mut s, width);
    s.append(", ");
    push_int(&mut s, height);
    s.append(")");
    s
}

} // verus!
