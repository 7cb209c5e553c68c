//! The message extractor: the plain-text body of a raw multipart payload.
//!
//! This is a heuristic and no MIME parser. The payload is decoded as text, cut at every
//! boundary marker `--`, and the first part that declares a plain-text content type and holds
//! a blank line yields all that follows its first blank line. A payload without such a part is
//! returned whole.

use crate::text::{
    chars_of, contains, copy_range, find, find_from, lemma_find_from, lemma_split_pieces_lack,
    occurs_at, split, split_on, string_of, views,
};
use vstd::prelude::*;
use vstd::utf8::{decode_utf8, valid_utf8};

verus! {

/// The text that `String::from_utf8_lossy` makes of `bytes`: the decoded characters, with
/// U+FFFD in place of each sequence that is not valid UTF-8.
pub uninterp spec fn utf8_lossy(bytes: Seq<u8>) -> Seq<char>;

/// Decodes `bytes` with `String::from_utf8_lossy`, which never fails. The result is a
/// function of the bytes alone and is known here by its name, [`utf8_lossy`]. Of bytes
/// that are valid UTF-8 the result is the text that they encode, with nothing replaced.
#[verifier::external_body]
pub(crate) fn decode_lossy(bytes: &[u8]) -> (text: String)
    ensures
        text@ == utf8_lossy(bytes@),
        valid_utf8(bytes@) ==> text@ == decode_utf8(bytes@),
{
    String::from_utf8_lossy(bytes).into_owned()
}

/// The marker at which a payload is cut into parts.
pub open spec fn boundary() -> Seq<char> {
    "--"@
}

/// The header text by which a part declares a plain-text content type.
pub open spec fn plain_marker() -> Seq<char> {
    "Content-Type: text/plain"@
}

/// The blank line that ends the headers of a part.
pub open spec fn blank_line() -> Seq<char> {
    "\r\n\r\n"@
}

/// The body of `part`, if it declares a plain-text content type and holds a blank line:
/// everything that follows its first blank line, later blank lines included.
pub open spec fn part_body(part: Seq<char>) -> Option<Seq<char>> {
    if contains(part, plain_marker()) {
        match find_from(part, blank_line(), 0) {
            Some(at) => Some(part.subrange(at + blank_line().len(), part.len() as int)),
            None => None,
        }
    } else {
        None
    }
}

/// The body of the first of `parts` that has one.
pub open spec fn first_body(parts: Seq<Seq<char>>) -> Option<Seq<char>>
    decreases parts.len(),
{
    if parts.len() == 0 {
        None
    } else if part_body(parts.first()) is Some {
        part_body(parts.first())
    } else {
        first_body(parts.drop_first())
    }
}

/// The plain-text body of the decoded payload `text`, or `text` itself where no part offers
/// one.
pub open spec fn plain_text(text: Seq<char>) -> Seq<char> {
    match first_body(split_on(text, boundary())) {
        Some(body) => body,
        None => text,
    }
}

/// Parts of which none declares a plain-text content type offer no body.
proof fn lemma_no_marker_no_body(parts: Seq<Seq<char>>)
    requires
        forall|i: int| 0 <= i < parts.len() ==> !contains(#[trigger] parts[i], plain_marker()),
    ensures
        first_body(parts) is None,
    decreases parts.len(),
{
    if parts.len() > 0 {
        assert(!contains(parts[0], plain_marker()));
        assert forall|i: int| 0 <= i < parts.drop_first().len() implies !contains(
            #[trigger] parts.drop_first()[i],
            plain_marker(),
        ) by {
            assert(parts.drop_first()[i] == parts[i + 1]);
        }
        lemma_no_marker_no_body(parts.drop_first());
    }
}

/// A payload whose text nowhere declares a plain-text content type is returned whole and
/// unchanged.
pub proof fn lemma_fallback_without_marker(text: Seq<char>)
    requires
        !contains(text, plain_marker()),
    ensures
        plain_text(text) == text,
{
    lemma_split_pieces_lack(text, boundary(), plain_marker());
    lemma_no_marker_no_body(split_on(text, boundary()));
}

/// The body of `part`, if it has one.
fn body_of_part(part: &[char]) -> (r: Option<Vec<char>>)
    ensures
        match r {
            Some(body) => part_body(part@) == Some(body@),
            None => part_body(part@) is None,
        },
{
    let marker = chars_of("Content-Type: text/plain");
    if find(part, marker.as_slice(), 0).is_none() {
        return None;
    }
    let blank = chars_of("\r\n\r\n");
    match find(part, blank.as_slice(), 0) {
        Some(at) => {
            assert(at + blank@.len() <= part@.len()) by {
                lemma_find_from(part@, blank@, 0);
                assert(occurs_at(part@, blank@, at as int));
            }
            let end: usize = part.len();
            Some(copy_range(part, at + blank.len(), end))
        },
        None => None,
    }
}

/// The plain-text body of the decoded payload `text`. A payload that nowhere declares a
/// plain-text content type comes back whole.
pub fn extract_plain_text_from(text: &str) -> (body: String)
    ensures
        body@ == plain_text(text@),
        !contains(text@, plain_marker()) ==> body@ == text@,
{
    proof {
        if !contains(text@, plain_marker()) {
            lemma_fallback_without_marker(text@);
        }
    }
    let chars = chars_of(text);
    let sep = chars_of("--");
    let parts = split(chars.as_slice(), sep.as_slice());
    let ghost all = views(parts@);
    let mut i: usize = 0;
    assert(all.subrange(0, all.len() as int) =~= all);
    while i < parts.len()
        invariant
            i <= parts.len(),
            all == views(parts@),
            all == split_on(text@, boundary()),
            first_body(all) == first_body(all.subrange(i as int, all.len() as int)),
            !contains(text@, plain_marker()) ==> plain_text(text@) == text@,
        decreases parts.len() - i,
    {
        let ghost rest = all.subrange(i as int, all.len() as int);
        assert(rest.first() == parts@[i as int]@);
        assert(rest.drop_first() =~= all.subrange(i + 1, all.len() as int));
        match body_of_part(parts[i].as_slice()) {
            Some(body) => {
                return string_of(body.as_slice());
            },
            None => {},
        }
        i += 1;
    }
    text.to_owned()
}

/// The plain-text body of the raw payload `body`, decoded lossily as UTF-8. A payload whose
/// text nowhere declares a plain-text content type comes back whole, as decoded.
pub fn extract_plain_text(body: &[u8]) -> (text: String)
    ensures
        text@ == plain_text(utf8_lossy(body@)),
        valid_utf8(body@) ==> text@ == plain_text(decode_utf8(body@)),
        !contains(utf8_lossy(body@), plain_marker()) ==> text@ == utf8_lossy(body@),
{
    let decoded = decode_lossy(body);
    extract_plain_text_from(decoded.as_str())
}

} // verus!
