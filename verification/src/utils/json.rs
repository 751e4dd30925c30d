//! JSON text of the values that enter a canonical hash.

use crate::utils::base16::digit_char;
use vstd::prelude::*;

verus! {

/// The JSON string literal that `serde_json` writes for a text: the text
/// between double quotes, with quotes, backslashes and control characters escaped.
pub uninterp spec fn json_string(text: Seq<char>) -> Seq<char>;

/// The decimal digits of a number, without leading zeros.
pub open spec fn decimal_text(n: nat) -> Seq<char>
    decreases n,
{
    if n < 10 {
        seq![digit_char(n as int)]
    } else {
        decimal_text(n / 10).push(digit_char((n % 10) as int))
    }
}

/// A JSON array of the given element texts, without white space.
pub open spec fn array_text(items: Seq<Seq<char>>) -> Seq<char> {
    "["@ + comma_separated(items) + "]"@
}

/// The element texts with a comma between neighbours.
pub open spec fn comma_separated(items: Seq<Seq<char>>) -> Seq<char>
    decreases items.len(),
{
    if items.len() == 0 {
        Seq::empty()
    } else if items.len() == 1 {
        items[0]
    } else {
        comma_separated(items.drop_last()) + ","@ + items.last()
    }
}

/// The first `count` characters of a text, or the whole text if it is shorter.
pub open spec fn leading_chars(text: Seq<char>, count: nat) -> Seq<char> {
    if text.len() <= count {
        text
    } else {
        text.subrange(0, count as int)
    }
}

/// The first `count` characters of a text, or the whole text if it is shorter.
pub fn leading(text: &str, count: usize) -> (head: String)
    ensures
        head@ == leading_chars(text@, count as nat),
{
    if text.unicode_len() <= count {
        text.to_owned()
    } else {
        text.substring_char(0, count).to_owned()
    }
}

/// Calls `serde_json::to_string` on a string slice. Writing a string cannot
/// fail, so the call always returns.
#[verifier::external_body]
pub(crate) fn write_string(text: &str) -> (json: String)
    ensures
        json@ == json_string(text@),
{
    serde_json::to_string(text).unwrap()
}

/// Calls `serde_json::to_string` on an unsigned integer, which is written in
/// decimal digits. Writing a number cannot fail, so the call always returns.
#[verifier::external_body]
pub(crate) fn write_number(n: u64) -> (json: String)
    ensures
        json@ == decimal_text(n as nat),
{
    serde_json::to_string(&n).unwrap()
}

/// Writes a JSON array from the texts of its elements.
pub(crate) fn write_array(items: &Vec<String>) -> (json: String)
    ensures
        json@ == array_text(items@.map_values(|s: String| s@)),
{
    let ghost texts = items@.map_values(|s: String| s@);
    let mut json = String::from_str("[");
    let mut i: usize = 0;
    while i < items.len()
        invariant
            i <= items.len(),
            texts == items@.map_values(|s: String| s@),
            json@ == "["@ + comma_separated(texts.take(i as int)),
        decreases items.len() - i,
    {
        proof {
            assert(texts.take(i + 1).drop_last() =~= texts.take(i as int));
            assert(texts.take(i + 1).last() == items@[i as int]@);
        }
        if i > 0 {
            json.append(",");
        }
        json.append(items[i].as_str());
        i += 1;
        assert(json@ =~= "["@ + comma_separated(texts.take(i as int)));
    }
    assert(texts.take(items.len() as int) =~= texts);
    json.append("]");
    json
}

} // verus!
