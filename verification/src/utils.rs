//! Shortening text for display.

use vstd::prelude::*;
use vstd::string::{StringExecFns, StringSliceAdditionalSpecFns};
use vstd::utf8::{decode_utf8, encode_utf8, is_ascii_chars, is_char_boundary};

verus! {

/// `text` as `truncate` shortens it to `max_length` bytes: itself where it is
/// short enough, else its first `max_length - 3` bytes and three dots.
pub open spec fn truncated(text: Seq<char>, max_length: int) -> Seq<char> {
    let bytes = encode_utf8(text);
    if bytes.len() <= max_length {
        text
    } else {
        decode_utf8(bytes.subrange(0, max_length - 3)) + "..."@
    }
}

/// Returns "string is wa..." from "string is way too long.": `s` cut to
/// `max_length` bytes, the last three of them dots, where it is longer.
///
/// The cut must not split a character: where `s` is longer than
/// `max_length`, the byte at `max_length - 3` starts one.
pub fn truncate(s: &str, max_length: usize) -> (short: String)
    requires
        max_length > 3,
        s.spec_bytes().len() > max_length ==> is_char_boundary(
            s.spec_bytes(),
            max_length - 3,
        ),
    ensures
        short@ == truncated(s@, max_length as int),
{
    if s.as_bytes().len() > max_length {
        let (head, _) = s.split_at(max_length - 3);
        let mut short = String::from_str(head);
        short.append("...");
        proof {
            vstd::utf8::encode_utf8_decode_utf8(head@);
        }
        short
    } else {
        s.to_owned()
    }
}

/// Text of ASCII characters is cut by characters: what is longer than
/// `max_length` keeps its first `max_length - 3` characters, followed by
/// three dots, and so is exactly `max_length` long.
pub proof fn lemma_truncated_ascii(text: Seq<char>, max_length: int)
    requires
        is_ascii_chars(text),
        max_length > 3,
    ensures
        text.len() <= max_length ==> truncated(text, max_length) == text,
        text.len() > max_length ==> truncated(text, max_length) == text.take(max_length - 3)
            + "..."@,
        text.len() > max_length ==> truncated(text, max_length).len() == max_length,
{
    vstd::utf8::is_ascii_chars_encode_utf8(text);
    if text.len() > max_length {
        let head = text.take(max_length - 3);
        assert(is_ascii_chars(head));
        vstd::utf8::is_ascii_chars_encode_utf8(head);
        assert(encode_utf8(head) =~= encode_utf8(text).subrange(0, max_length - 3));
        vstd::utf8::encode_utf8_decode_utf8(head);
        reveal_strlit("...");
    }
}

} // verus!
