//! Text: comparing, joining and splitting.

use vstd::prelude::*;
use vstd::string::*;
use vstd::utf8::*;

verus! {

/// Whether two pieces of text hold the same characters.
pub fn same_text(a: &str, b: &str) -> (same: bool)
    ensures
        same == (a@ == b@),
{
    let x = a.as_bytes();
    let y = b.as_bytes();
    proof {
        encode_utf8_decode_utf8(a@);
        encode_utf8_decode_utf8(b@);
    }
    if x.len() != y.len() {
        return false;
    }
    let mut i: usize = 0;
    while i < x.len()
        invariant
            i <= x@.len(),
            x@.len() == y@.len(),
            x@ == encode_utf8(a@),
            y@ == encode_utf8(b@),
            forall|j: int| 0 <= j < i ==> x@[j] == y@[j],
        decreases x@.len() - i,
    {
        if x[i] != y[i] {
            return false;
        }
        i += 1;
    }
    assert(x@ =~= y@);
    true
}

/// `left`, `separator` and `right`, one after the other.
pub fn join_three(left: &str, separator: &str, right: &str) -> (joined: String)
    ensures
        joined@ == left@ + separator@ + right@,
{
    let mut joined = left.to_owned();
    joined.append(separator);
    joined.append(right);
    joined
}

/// `chars` is `before`, then `separator`, then `after`, and `after` holds no
/// further `separator`.
pub open spec fn splits_at_last(
    chars: Seq<char>,
    separator: char,
    before: Seq<char>,
    after: Seq<char>,
) -> bool {
    &&& chars == before.push(separator) + after
    &&& !after.contains(separator)
}

/// Parts `text` at the last occurrence of `separator`.
pub fn split_last(text: &str, separator: char) -> (parts: Option<(String, String)>)
    ensures
        parts is Some <==> text@.contains(separator),
        parts matches Some((before, after)) ==> splits_at_last(
            text@,
            separator,
            before@,
            after@,
        ),
{
    let len: usize = text.unicode_len();
    let mut at: Option<usize> = None;
    let mut i: usize = 0;
    for c in it: text.chars()
        invariant
            len == text@.len(),
            it.seq() == text@,
            i == it.index(),
            match at {
                Some(k) => k < i && text@[k as int] == separator && forall|j: int|
                    k < j < i ==> text@[j] != separator,
                None => forall|j: int| 0 <= j < i ==> text@[j] != separator,
            },
    {
        if c == separator {
            at = Some(i);
        }
        i += 1;
    }
    match at {
        Some(k) => {
            let before = text.substring_char(0, k).to_owned();
            let after = text.substring_char(k + 1, len).to_owned();
            assert(text@ =~= before@.push(separator) + after@);
            Some((before, after))
        },
        None => None,
    }
}

} // verus!
