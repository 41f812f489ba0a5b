//! Text that messages are made of.

use vstd::prelude::*;

verus! {

/// The decimal digit with the value `d`.
pub open spec fn digit_char(d: nat) -> char {
    (('0' as nat + d) as u32) as char
}

/// A number in decimal notation, without leading zeros.
pub open spec fn decimal_chars(n: nat) -> Seq<char>
    decreases n,
{
    if n < 10 {
        seq![digit_char(n)]
    } else {
        decimal_chars(n / 10).push(digit_char(n % 10))
    }
}

/// The items one after the other, with `sep` between neighbours.
pub open spec fn joined(items: Seq<Seq<char>>, sep: Seq<char>) -> Seq<char>
    decreases items.len(),
{
    if items.len() == 0 {
        Seq::empty()
    } else if items.len() == 1 {
        items[0]
    } else {
        joined(items.drop_last(), sep) + sep + items.last()
    }
}

/// The texts of a list of strings.
pub open spec fn texts(items: Seq<String>) -> Seq<Seq<char>> {
    items.map_values(|s: String| s@)
}

/// The text of the decimal digit `d`.
fn digit(d: u64) -> (text: &'static str)
    requires
        d < 10,
    ensures
        text@ == seq![digit_char(d as nat)],
{
    proof {
        reveal_strlit("0");
        reveal_strlit("1");
        reveal_strlit("2");
        reveal_strlit("3");
        reveal_strlit("4");
        reveal_strlit("5");
        reveal_strlit("6");
        reveal_strlit("7");
        reveal_strlit("8");
        reveal_strlit("9");
    }
    let text: &'static str = match d {
        0 => "0",
        1 => "1",
        2 => "2",
        3 => "3",
        4 => "4",
        5 => "5",
        6 => "6",
        7 => "7",
        8 => "8",
        _ => "9",
    };
    assert(text@ =~= seq![digit_char(d as nat)]);
    text
}

/// Writes a number in decimal notation.
pub fn decimal(n: u64) -> (text: String)
    ensures
        text@ == decimal_chars(n as nat),
    decreases n,
{
    if n < 10 {
        digit(n).to_owned()
    } else {
        let mut text: String = decimal(n / 10);
        text.append(digit(n % 10));
        proof {
            assert(decimal_chars((n / 10) as nat) + seq![digit_char((n % 10) as nat)]
                =~= decimal_chars(n as nat));
        }
        text
    }
}

/// Joins strings, as `itertools::join` does over their references: the strings
/// in order, with `sep` between neighbours, and nothing for no strings.
#[verifier::external_body]
pub(crate) fn join(items: &[String], sep: &str) -> (text: String)
    ensures
        text@ == joined(texts(items@), sep@),
{
    itertools::join(items, sep)
}

} // verus!
