//! The identity of a node in the cluster.

use crate::messages::text_view;
use regex::Regex;
use vstd::prelude::*;

verus! {

/// The pattern that finds the number in the text that configures a node.
pub const DIGITS: &'static str = r"\d+";

/// What `regex` finds first when it searches `text` for `pattern`: the text
/// of the leftmost match, or nothing where there is no match or the pattern
/// is not valid.
pub uninterp spec fn regex_find(pattern: Seq<char>, text: Seq<char>) -> Option<Seq<char>>;

/// Compiles `pattern` with `Regex::new` and searches `text` with
/// `Regex::find`. The contract gives the result a name and claims nothing
/// of it but that it depends on the two texts alone.
#[verifier::external_body]
fn find_first(pattern: &str, text: &str) -> (r: Option<String>)
    ensures
        text_view(r) == regex_find(pattern@, text@),
{
    match Regex::new(pattern) {
        Ok(re) => re.find(text).map(|m| m.as_str().to_string()),
        Err(_) => None,
    }
}

/// Whether `c` is one of the digits 0 to 9.
pub open spec fn is_digit(c: char) -> bool {
    '0' <= c <= '9'
}

/// Whether `text` is a decimal numeral: one digit or more, and nothing
/// else.
pub open spec fn is_numeral(text: Seq<char>) -> bool {
    text.len() > 0 && forall|i: int| 0 <= i < text.len() ==> is_digit(#[trigger] text[i])
}

/// The number that the digits `text` spell in base ten.
pub open spec fn decimal(text: Seq<char>) -> nat
    decreases text.len(),
{
    if text.len() == 0 {
        0
    } else {
        decimal(text.drop_last()) * 10 + ((text.last() as u32 - '0' as u32) as nat)
    }
}

/// The id of a node whose configuration holds the numeral `found`: one more
/// than the number, so that no node has the id 0. There is no id where
/// there is no numeral or the id does not fit into 64 bits.
pub open spec fn node_id_of(found: Option<Seq<char>>) -> Option<u64> {
    match found {
        Some(text) => if is_numeral(text) && decimal(text) + 1 <= u64::MAX {
            Some((decimal(text) + 1) as u64)
        } else {
            None
        },
        None => None,
    }
}

/// A numeral is at least as large as each of its beginnings.
proof fn lemma_decimal_grows(text: Seq<char>, n: int)
    requires
        0 <= n <= text.len(),
        forall|i: int| 0 <= i < text.len() ==> is_digit(#[trigger] text[i]),
    ensures
        decimal(text.take(n)) <= decimal(text),
    decreases text.len() - n,
{
    if n == text.len() {
        assert(text.take(n) =~= text);
    } else {
        assert(text.take(n + 1).drop_last() =~= text.take(n));
        assert(is_digit(text[n]));
        lemma_decimal_grows(text, n + 1);
    }
}

/// The id of a node whose configuration holds the numeral `found`.
pub fn node_id_from(found: Option<String>) -> (r: Option<u64>)
    ensures
        r == node_id_of(text_view(found)),
{
    let text = match found {
        Some(t) => t,
        None => {
            return None;
        },
    };
    assert(text_view(found) == Some(text@));
    let mut value: u64 = 0;
    let mut any = false;
    for c in it: text.as_str().chars()
        invariant
            it.seq() == text@,
            text_view(found) == Some(text@),
            any == (it.index() > 0),
            forall|i: int| 0 <= i < it.index() ==> is_digit(#[trigger] text@[i]),
            value == decimal(text@.take(it.index() as int)),
    {
        let ghost n = it.index() as int;
        proof {
            assert(text@.take(n + 1).drop_last() =~= text@.take(n));
            assert(text@.take(n + 1).last() == c);
        }
        if c < '0' || c > '9' {
            assert(0 <= n < text@.len() && text@[n] == c);
            assert(!is_digit(text@[n]));
            assert(!is_numeral(text@));
            return None;
        }
        let digit: u64 = (c as u32 - '0' as u32) as u64;
        if value > (u64::MAX - digit) / 10 {
            proof {
                assert(decimal(text@.take(n + 1)) > u64::MAX);
                // The rest of the text cannot make the number smaller, if
                // it is a numeral at all.
                if is_numeral(text@) {
                    lemma_decimal_grows(text@, n + 1);
                }
            }
            return None;
        }
        value = value * 10 + digit;
        any = true;
    }
    proof {
        assert(text@.take(text@.len() as int) =~= text@);
    }
    if !any {
        return None;
    }
    if value == u64::MAX {
        return None;
    }
    Some(value + 1)
}

/// The id of the node from the text that configures it: the first number
/// that the text holds, plus one.
pub fn node_id(text: &str) -> (r: Option<u64>)
    ensures
        r == node_id_of(regex_find(DIGITS@, text@)),
{
    node_id_from(find_first(DIGITS, text))
}

} // verus!
