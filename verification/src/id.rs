//! Notification ids.
//!
//! Ids are minted by the page, which is not trusted, and end up in a native
//! notification identifier and in a script that a window evaluates, so they
//! are kept short and opaque.

use crate::text::join_three;
use vstd::prelude::*;
use vstd::string::*;
use vstd::utf8::*;

verus! {

/// The longest id, in bytes.
pub const MAX_NOTIFICATION_ID_LEN: usize = 64;

/// A letter, a digit, `-` or `_` of ASCII.
pub open spec fn is_id_char(c: char) -> bool {
    ||| '0' <= c <= '9'
    ||| 'A' <= c <= 'Z'
    ||| 'a' <= c <= 'z'
    ||| c == '-'
    ||| c == '_'
}

/// A well-formed id: 1 to `MAX_NOTIFICATION_ID_LEN` characters, each one an id
/// character.
pub open spec fn valid_id(id: Seq<char>) -> bool {
    &&& 1 <= id.len() <= MAX_NOTIFICATION_ID_LEN
    &&& forall|i: int| 0 <= i < id.len() ==> is_id_char(#[trigger] id[i])
}

/// Whether the UTF-8 encoding of `id` is empty or too long.
pub open spec fn bad_length(id: Seq<char>) -> bool {
    encode_utf8(id).len() == 0 || encode_utf8(id).len() > MAX_NOTIFICATION_ID_LEN
}

/// What an id that is not well-formed is answered: its length is complained of
/// before its characters.
pub open spec fn id_refusal(id: Seq<char>) -> Seq<char> {
    if bad_length(id) {
        "Notification id must be 1-64 characters"@
    } else {
        "Notification id must be alphanumeric, '-' or '_'"@
    }
}

/// The byte that stands for an id character in UTF-8.
spec fn is_id_byte(b: u8) -> bool {
    ||| 0x30 <= b <= 0x39
    ||| 0x41 <= b <= 0x5a
    ||| 0x61 <= b <= 0x7a
    ||| b == 0x2d
    ||| b == 0x5f
}

/// A text whose encoding holds id bytes only holds id characters only.
proof fn lemma_id_bytes_are_id_chars(chars: Seq<char>)
    requires
        forall|i: int|
            0 <= i < encode_utf8(chars).len() ==> is_id_byte(#[trigger] encode_utf8(chars)[i]),
    ensures
        forall|i: int| 0 <= i < chars.len() ==> is_id_char(#[trigger] chars[i]),
    decreases chars.len(),
{
    if chars.len() > 0 {
        let bytes = encode_utf8(chars);
        let rest = chars.drop_first();
        let s = chars[0] as u32;
        let head = encode_scalar(s);
        assert(bytes == head + encode_utf8(rest));
        assert(bytes[0] == head[0]);
        assert(is_id_byte(bytes[0]));
        assert(has_width_1_encoding(s)) by {
            char_is_scalar(chars[0]);
            assert(has_width_2_encoding(s) ==> leading_byte_width_2(s) >= 0x80) by (bit_vector);
            assert(has_width_3_encoding(s) ==> leading_byte_width_3(s) >= 0x80) by (bit_vector);
            assert(has_width_4_encoding(s) ==> leading_byte_width_4(s) >= 0x80) by (bit_vector);
        }
        assert(leading_byte_width_1(s) == s) by (bit_vector)
            requires
                has_width_1_encoding(s),
        ;
        assert forall|i: int| 0 <= i < encode_utf8(rest).len() implies is_id_byte(
            #[trigger] encode_utf8(rest)[i],
        ) by {
            assert(bytes[i + head.len()] == encode_utf8(rest)[i]);
        }
        lemma_id_bytes_are_id_chars(rest);
        assert(head[0] == s);
        char_u32_cast(chars[0], s);
        assert forall|i: int| 0 <= i < chars.len() implies is_id_char(#[trigger] chars[i]) by {
            if i > 0 {
                assert(chars[i] == rest[i - 1]);
            }
        }
    }
}

/// A text of id characters is ASCII: it has one byte for each character.
proof fn lemma_id_chars_are_id_bytes(chars: Seq<char>)
    requires
        forall|i: int| 0 <= i < chars.len() ==> is_id_char(#[trigger] chars[i]),
    ensures
        encode_utf8(chars).len() == chars.len(),
        forall|i: int|
            0 <= i < encode_utf8(chars).len() ==> is_id_byte(#[trigger] encode_utf8(chars)[i]),
{
    assert(is_ascii_chars(chars));
    is_ascii_chars_encode_utf8(chars);
    assert forall|i: int| 0 <= i < encode_utf8(chars).len() implies is_id_byte(
        #[trigger] encode_utf8(chars)[i],
    ) by {
        assert(is_id_char(chars[i]));
    }
}

/// Whether `b` stands for an id character.
fn allows_byte(b: u8) -> (allowed: bool)
    ensures
        allowed == is_id_byte(b),
{
    (0x30 <= b && b <= 0x39) || (0x41 <= b && b <= 0x5a) || (0x61 <= b && b <= 0x7a) || b == 0x2d
        || b == 0x5f
}

/// Accepts a well-formed id and says what is wrong with any other.
pub fn validate_id(id: &str) -> (result: Result<(), String>)
    ensures
        result is Ok <==> valid_id(id@),
        result matches Err(message) ==> message@ == id_refusal(id@),
{
    let bytes = id.as_bytes();
    proof {
        if valid_id(id@) {
            lemma_id_chars_are_id_bytes(id@);
        }
    }
    if bytes.len() == 0 || bytes.len() > MAX_NOTIFICATION_ID_LEN {
        return Err("Notification id must be 1-64 characters".to_owned());
    }
    let mut i: usize = 0;
    while i < bytes.len()
        invariant
            i <= bytes@.len(),
            bytes@ == encode_utf8(id@),
            !bad_length(id@),
            valid_id(id@) ==> forall|j: int|
                0 <= j < bytes@.len() ==> is_id_byte(#[trigger] bytes@[j]),
            forall|j: int| 0 <= j < i ==> is_id_byte(#[trigger] bytes@[j]),
        decreases bytes@.len() - i,
    {
        if !allows_byte(bytes[i]) {
            return Err("Notification id must be alphanumeric, '-' or '_'".to_owned());
        }
        i += 1;
    }
    proof {
        lemma_id_bytes_are_id_chars(id@);
        lemma_id_chars_are_id_bytes(id@);
    }
    Ok(())
}

/// The script that hands a click on notification `id` to the page.
pub fn click_script(id: &str) -> (script: String)
    ensures
        script@ == "window.__pakeNotificationClick && window.__pakeNotificationClick('"@ + id@
            + "')"@,
{
    join_three("window.__pakeNotificationClick && window.__pakeNotificationClick('", id, "')")
}

} // verus!
