//! The text of what a run prints: an amount in decimal, then a separator
//! between blanks, or the end of the line.

use vstd::prelude::*;
use crate::instruction::Output;

verus! {

/// The character of the decimal digit `d`.
pub open spec fn digit(d: int) -> char
    recommends
        0 <= d < 10,
{
    ('0' as int + d) as char
}

/// The decimal digits of `n`, most significant first, with no leading zero.
pub open spec fn decimal(n: nat) -> Seq<char>
    decreases n,
{
    if n < 10 {
        seq![digit(n as int)]
    } else {
        decimal(n / 10).push(digit((n % 10) as int))
    }
}

/// `n` in decimal, with a minus sign in front where it is negative.
pub open spec fn numeral(n: int) -> Seq<char> {
    if n < 0 {
        seq!['-'] + decimal((-n) as nat)
    } else {
        decimal(n as nat)
    }
}

/// The text of one piece of output.
pub open spec fn text(piece: Output) -> Seq<char> {
    match piece {
        Output::Print(amount, separator) => numeral(amount as int) + seq![' ', separator, ' '],
        Output::Println(amount) => numeral(amount as int).push('\n'),
    }
}

/// The text of a run's whole output.
pub open spec fn transcript(output: Seq<Output>) -> Seq<char>
    decreases output.len(),
{
    if output.len() == 0 {
        Seq::empty()
    } else {
        transcript(output.drop_last()) + text(output.last())
    }
}

/// `String::push`: the text afterwards is the text before with `c` at its end.
#[verifier::external_body]
fn push_char(text: &mut String, c: char)
    ensures
        final(text)@ == old(text)@.push(c),
{
    text.push(c);
}

/// The character of a decimal digit.
fn digit_char(d: u8) -> (c: char)
    requires
        d < 10,
    ensures
        c == digit(d as int),
{
    (48u8 + d) as char
}

/// Appends the decimal digits of `n`.
fn write_decimal(text: &mut String, n: usize)
    ensures
        final(text)@ == old(text)@ + decimal(n as nat),
    decreases n,
{
    if n >= 10 {
        write_decimal(text, n / 10);
    }
    push_char(text, digit_char((n % 10) as u8));
}

/// Appends `n` in decimal.
pub fn write_numeral(text: &mut String, n: isize)
    ensures
        final(text)@ == old(text)@ + numeral(n as int),
{
    if n < 0 {
        push_char(text, '-');
        let magnitude: usize = (-(n + 1)) as usize + 1;
        write_decimal(text, magnitude);
    } else {
        write_decimal(text, n as usize);
    }
}

/// Appends the text of one piece of output.
pub fn write_piece(text: &mut String, piece: &Output)
    ensures
        final(text)@ == old(text)@ + self::text(*piece),
{
    match *piece {
        Output::Print(amount, separator) => {
            write_numeral(text, amount);
            push_char(text, ' ');
            push_char(text, separator);
            push_char(text, ' ');
        },
        Output::Println(amount) => {
            write_numeral(text, amount);
            push_char(text, '\n');
        },
    }
}

/// The text of a run's whole output, as it appears when printed.
pub fn render(output: &Vec<Output>) -> (r: String)
    ensures
        r@ == transcript(output@),
{
    let mut text = String::new();
    let mut i: usize = 0;
    while i < output.len()
        invariant
            i <= output.len(),
            text@ == transcript(output@.take(i as int)),
        decreases output.len() - i,
    {
        proof {
            assert(output@.take(i + 1).drop_last() =~= output@.take(i as int));
        }
        write_piece(&mut text, &output[i]);
        i += 1;
    }
    proof {
        assert(output@.take(i as int) =~= output@);
    }
    text
}

} // verus!
