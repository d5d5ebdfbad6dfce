//! Decoding of the bytes that a command wrote into text.

use crate::text::{strip_cr, Text};
use crate::views::view_of;
use vstd::utf8::{decode_utf8, valid_utf8};
use vstd::prelude::*;

verus! {

/// `core::str::Utf8Error`, which is only handed on.
#[verifier::external_type_specification]
#[verifier::external_body]
pub struct ExUtf8Error(core::str::Utf8Error);

/// `core::str::from_utf8` succeeds exactly on well-formed UTF-8, and then
/// yields the characters that the bytes encode.
pub assume_specification[ core::str::from_utf8 ](v: &[u8]) -> (r: Result<
    &str,
    core::str::Utf8Error,
>)
    ensures
        r is Ok <==> valid_utf8(v@),
        r matches Ok(s) ==> s@ == decode_utf8(v@),
;

/// The text that `String::from_utf8_lossy` makes of `bytes`: their
/// characters, with each ill-formed stretch replaced by U+FFFD.
pub uninterp spec fn utf8_lossy(bytes: Seq<u8>) -> Seq<char>;

/// `String::from_utf8_lossy`, as an owned string. The result is named; of
/// well-formed UTF-8 it is the decoded text.
#[verifier::external_body]
fn from_utf8_lossy(bytes: &[u8]) -> (r: String)
    ensures
        r@ == utf8_lossy(bytes@),
        valid_utf8(bytes@) ==> r@ == decode_utf8(bytes@),
{
    String::from_utf8_lossy(bytes).into_owned()
}

/// The text of a command's output, read leniently: the decoded text where
/// the bytes are well-formed UTF-8, and otherwise the text with replacement
/// characters.
pub open spec fn lossy_text(bytes: Seq<u8>) -> Seq<char> {
    if valid_utf8(bytes) {
        decode_utf8(bytes)
    } else {
        utf8_lossy(bytes)
    }
}

/// Decodes a command's output leniently.
pub fn decode_lossy(bytes: &[u8]) -> (r: String)
    ensures
        r@ == lossy_text(bytes@),
{
    from_utf8_lossy(bytes)
}

/// The integer that `serde_json` reads under `key` in the JSON value that
/// `text` writes: `None` if the text is not JSON, if the value is not an
/// object with that key, or if what stands under the key is not an integer
/// that fits 64 bits with a sign.
pub uninterp spec fn json_integer(text: Seq<char>, key: Seq<char>) -> Option<i64>;

/// The integers that `serde_json` reads under `key` in the elements of the
/// JSON array that `text` writes, one entry for each element, in order:
/// `None` if the text is not a JSON array, and a `None` entry for an element
/// that has no such integer.
pub uninterp spec fn json_integers(text: Seq<char>, key: Seq<char>) -> Option<Seq<Option<i64>>>;

/// `serde_json::from_str` to a `Value`, then the value's entry `key` read
/// with `Value::as_i64`. The result is only named.
#[verifier::external_body]
pub(crate) fn read_integer(text: &str, key: &str) -> (r: Option<i64>)
    ensures
        r == json_integer(text@, key@),
{
    match serde_json::from_str::<serde_json::Value>(text) {
        Ok(value) => value[key].as_i64(),
        Err(_) => None,
    }
}

/// `serde_json::from_str` to a vector of `Value`s, then each element's entry
/// `key` read with `Value::as_i64`. The result is only named.
#[verifier::external_body]
pub(crate) fn read_integers(text: &str, key: &str) -> (r: Option<Vec<Option<i64>>>)
    ensures
        view_of(r) == json_integers(text@, key@),
{
    match serde_json::from_str::<Vec<serde_json::Value>>(text) {
        Ok(items) => Some(items.iter().map(|item| item[key].as_i64()).collect()),
        Err(_) => None,
    }
}

/// A line as it was read up to and with its line feed, without its line
/// ending: without the line feed at its end, if it has one, and then without
/// a carriage return before that line feed.
pub open spec fn without_line_ending(line: Seq<char>) -> Seq<char> {
    if line.len() > 0 && line.last() == '\n' {
        strip_cr(line.drop_last())
    } else {
        line
    }
}

/// The text of a line read as bytes: none unless the bytes are well-formed
/// UTF-8.
pub open spec fn line_text(bytes: Seq<u8>) -> Option<Seq<char>> {
    if valid_utf8(bytes) {
        Some(without_line_ending(decode_utf8(bytes)))
    } else {
        None
    }
}

/// Decodes a line that was read as bytes, up to and with its line feed if
/// it has one, and takes its line ending away.
pub fn line_of(bytes: &[u8]) -> (r: Option<String>)
    ensures
        view_of(r) == line_text(bytes@),
{
    let text = match core::str::from_utf8(bytes) {
        Ok(text) => Text::new(text),
        Err(_) => { return None; },
    };
    let len = text.len();
    let feed: usize = if len > 0 && text.char_at(len - 1) == '\n' {
        len - 1
    } else {
        len
    };
    let end: usize = if feed < len && feed > 0 && text.char_at(feed - 1) == '\r' {
        feed - 1
    } else {
        feed
    };
    proof {
        let line = text@;
        if feed < len {
            let body = line.drop_last();
            assert(body =~= line.subrange(0, feed as int));
            if feed > 0 {
                assert(body.last() == line[feed - 1]);
            }
            assert(strip_cr(body) =~= line.subrange(0, end as int));
        } else {
            assert(line.subrange(0, end as int) =~= line);
        }
    }
    Some(text.substring(0, end))
}

} // verus!
