//! Numbers as text: the hexadecimal and decimal renderings that mnemonics and
//! the listing are built from.

use vstd::prelude::*;

verus! {

/// The character for a digit `0 <= d < 16`; `upper` selects `A`-`F` over `a`-`f`.
pub open spec fn digit_char(d: int, upper: bool) -> char {
    if d < 10 {
        (48 + d) as char
    } else if upper {
        (55 + d) as char
    } else {
        (87 + d) as char
    }
}

/// `n` in base 16 without a prefix, filled with leading zeros up to `width` digits.
pub open spec fn hex(n: nat, width: nat, upper: bool) -> Seq<char>
    decreases n + width,
{
    if n < 16 && width <= 1 {
        seq![digit_char(n as int, upper)]
    } else {
        hex(n / 16, if width > 0 { (width - 1) as nat } else { 0 }, upper).push(
            digit_char((n % 16) as int, upper),
        )
    }
}

/// `n` in base 10, without leading zeros.
pub open spec fn decimal(n: nat) -> Seq<char>
    decreases n,
{
    if n < 10 {
        seq![digit_char(n as int, false)]
    } else {
        decimal(n / 10).push(digit_char((n % 10) as int, false))
    }
}

/// `count` spaces.
pub open spec fn spaces(count: nat) -> Seq<char> {
    Seq::new(count, |i: int| ' ')
}

/// The one-character string for a digit.
pub fn digit_str(d: u8, upper: bool) -> (s: &'static str)
    requires
        d < 16,
    ensures
        s@ == seq![digit_char(d as int, upper)],
{
    proof {
        reveal_strlit("0");
        reveal_strlit("1");
        reveal_strlit("2");
        reveal_strlit("3");
        reveal_strlit("4");
        reveal_strlit("5");
        reveal_strlit("6");
        reveal_strlit("7");
        reveal_strlit("8");
        reveal_strlit("9");
        reveal_strlit("A");
        reveal_strlit("B");
        reveal_strlit("C");
        reveal_strlit("D");
        reveal_strlit("E");
        reveal_strlit("F");
        reveal_strlit("a");
        reveal_strlit("b");
        reveal_strlit("c");
        reveal_strlit("d");
        reveal_strlit("e");
        reveal_strlit("f");
    }
    let s = match d {
        0 => "0",
        1 => "1",
        2 => "2",
        3 => "3",
        4 => "4",
        5 => "5",
        6 => "6",
        7 => "7",
        8 => "8",
        9 => "9",
        10 => if upper { "A" } else { "a" },
        11 => if upper { "B" } else { "b" },
        12 => if upper { "C" } else { "c" },
        13 => if upper { "D" } else { "d" },
        14 => if upper { "E" } else { "e" },
        _ => if upper { "F" } else { "f" },
    };
    assert(s@ =~= seq![digit_char(d as int, upper)]);
    s
}

/// Appends `n` in base 16, with at least `width` digits.
pub fn push_hex(out: &mut String, n: usize, width: usize, upper: bool)
    ensures
        final(out)@ == old(out)@ + hex(n as nat, width as nat, upper),
    decreases n + width,
{
    if n < 16 && width <= 1 {
        out.append(digit_str(n as u8, upper));
    } else {
        let rest: usize = if width > 0 { width - 1 } else { 0 };
        push_hex(out, n / 16, rest, upper);
        out.append(digit_str((n % 16) as u8, upper));
        assert(final(out)@ =~= old(out)@ + hex(n as nat, width as nat, upper));
    }
}

/// Appends `n` in base 10.
pub fn push_decimal(out: &mut String, n: usize)
    ensures
        final(out)@ == old(out)@ + decimal(n as nat),
    decreases n,
{
    if n < 10 {
        out.append(digit_str(n as u8, false));
    } else {
        push_decimal(out, n / 10);
        out.append(digit_str((n % 10) as u8, false));
        assert(final(out)@ =~= old(out)@ + decimal(n as nat));
    }
}

/// Appends `count` spaces.
pub fn push_spaces(out: &mut String, count: usize)
    ensures
        final(out)@ == old(out)@ + spaces(count as nat),
{
    let mut i: usize = 0;
    assert(out@ =~= old(out)@ + spaces(0));
    while i < count
        invariant
            i <= count,
            out@ == old(out)@ + spaces(i as nat),
        decreases count - i,
    {
        proof {
            reveal_strlit(" ");
        }
        out.append(" ");
        i += 1;
        assert(out@ =~= old(out)@ + spaces(i as nat));
    }
}

} // verus!
