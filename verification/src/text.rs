//! Text of numbers and lists.

use vstd::prelude::*;
use vstd::string::{StrSliceExecFns, StringExecFns};

verus! {

/// A number in decimal digits, without leading zeros.
pub open spec fn decimal(n: nat) -> Seq<char>
    decreases n,
{
    let digit = "0123456789"@[(n % 10) as int];
    if n < 10 {
        seq![digit]
    } else {
        decimal(n / 10).push(digit)
    }
}

/// Writes a number in decimal digits.
pub fn decimal_text(n: u64) -> (res: String)
    ensures
        res@ == decimal(n as nat),
    decreases n,
{
    proof {
        reveal_strlit("0123456789");
    }
    let mut res = if n < 10 {
        String::new()
    } else {
        decimal_text(n / 10)
    };
    let d: usize = (n % 10) as usize;
    assert("0123456789"@.len() == 10);
    res.append("0123456789".substring_ascii(d, d + 1));
    assert(res@ =~= decimal(n as nat));
    res
}

/// A text between quotation marks, with its quotation marks, backslashes and unprintable
/// characters escaped.
pub uninterp spec fn quoted(text: Seq<char>) -> Seq<char>;

/// Prints a text with `{:?}`: std's `Debug` for strings, which quotes it and escapes characters.
/// Which characters are escaped, and how, is left to std.
#[verifier::external_body]
pub(crate) fn quoted_text(text: &String) -> (res: String)
    ensures
        res@ == quoted(text@),
{
    format!("{:?}", text)
}

/// The texts with a separator between each two.
pub open spec fn joined(texts: Seq<Seq<char>>, separator: Seq<char>) -> Seq<char>
    decreases texts.len(),
{
    if texts.len() == 0 {
        seq![]
    } else if texts.len() == 1 {
        texts[0]
    } else {
        joined(texts.drop_last(), separator) + separator + texts.last()
    }
}

// --- Laws ---

/// The number that some decimal digits stand for.
pub open spec fn number_of(digits: Seq<char>) -> int
    decreases digits.len(),
{
    if digits.len() == 0 {
        0
    } else {
        10 * number_of(digits.drop_last()) + (digits.last() as int - '0' as int)
    }
}

/// The digits of a number stand for it, each is a decimal digit, and none is a leading zero.
pub proof fn law_digits_stand_for_their_number(n: nat)
    ensures
        number_of(decimal(n)) == n,
        decimal(n).len() > 0,
        forall|i: int| 0 <= i < decimal(n).len() ==> '0' <= #[trigger] decimal(n)[i] <= '9',
        n > 0 ==> decimal(n)[0] != '0',
    decreases n,
{
    reveal_strlit("0123456789");
    let digit = "0123456789"@[(n % 10) as int];
    assert(digit as int == '0' as int + n % 10);
    if n < 10 {
        assert(decimal(n).drop_last() =~= Seq::empty());
        reveal_with_fuel(number_of, 2);
    } else {
        law_digits_stand_for_their_number(n / 10);
        assert(decimal(n).drop_last() =~= decimal(n / 10));
    }
}

/// A list of one text is that text, and a text is added to a list behind a separator.
pub proof fn law_texts_are_joined_one_by_one(
    texts: Seq<Seq<char>>,
    separator: Seq<char>,
    text: Seq<char>,
)
    ensures
        joined(seq![], separator) == Seq::<char>::empty(),
        joined(seq![text], separator) == text,
        texts.len() > 0 ==> joined(texts.push(text), separator) == joined(texts, separator)
            + separator + text,
{
    assert(texts.push(text).drop_last() =~= texts);
}

} // verus!
