//! The parsing engine: delimiter scanning, frontmatter isolation, structured
//! decoding, and excerpt slicing.
//!
//! A document carries frontmatter only when it begins with the opening marker
//! `<delimiter>` followed by a line feed. The closing marker is the leftmost
//! later occurrence of that same sequence; the bytes strictly between the two
//! markers are the payload handed to the decoder, and everything after the
//! closing marker is the content. All offsets are byte offsets, so slicing is
//! exact for multi-byte text as well.

use vstd::prelude::*;
use vstd::slice::slice_subrange;
use vstd::slice::slice_to_vec;

use crate::search::find_first;
use crate::search::first_match_from;
use crate::search::lemma_first_match_from_props;
use crate::search::matches_at;
use crate::yaml::decode_yaml;
use crate::yaml::empty_mapping;
use crate::yaml::yaml_decoded;
use crate::yaml::yaml_is_empty_mapping;
use crate::yaml::yaml_repr;
use crate::yaml::DecodeError;

verus! {

/// The marker line that opens and closes a frontmatter block: the delimiter
/// followed by a line feed.
pub open spec fn marker(delimiter: Seq<u8>) -> Seq<u8> {
    delimiter.push(10u8)
}

/// True when the document begins with the opening marker.
pub open spec fn has_open_marker(doc: Seq<u8>, delimiter: Seq<u8>) -> bool {
    matches_at(doc, marker(delimiter), 0)
}

/// Position of the closing marker: the leftmost occurrence of the marker
/// after the opening line, or -1 when the block is never closed.
pub open spec fn close_pos(doc: Seq<u8>, delimiter: Seq<u8>) -> int {
    first_match_from(doc, marker(delimiter), delimiter.len() as int + 1)
}

/// True when the document carries a frontmatter block: it opens with the
/// marker and the block is closed.
pub open spec fn has_frontmatter(doc: Seq<u8>, delimiter: Seq<u8>) -> bool {
    has_open_marker(doc, delimiter) && close_pos(doc, delimiter) >= 0
}

/// The frontmatter payload: the bytes strictly between the opening marker's
/// line feed and the closing marker.
pub open spec fn payload_of(doc: Seq<u8>, delimiter: Seq<u8>) -> Seq<u8>
    recommends
        has_frontmatter(doc, delimiter),
{
    doc.subrange(delimiter.len() as int + 1, close_pos(doc, delimiter))
}

/// The content: everything after the closing marker and its line feed; the
/// whole document when there is no frontmatter block, an unmatched opening
/// marker included.
pub open spec fn content_of(doc: Seq<u8>, delimiter: Seq<u8>) -> Seq<u8> {
    if has_frontmatter(doc, delimiter) {
        doc.subrange(close_pos(doc, delimiter) + delimiter.len() + 1, doc.len() as int)
    } else {
        doc
    }
}

/// The excerpt of a content: what precedes the leftmost occurrence of the
/// separator, and empty when the separator never occurs.
pub open spec fn excerpt_of(content: Seq<u8>, separator: Seq<u8>) -> Seq<u8> {
    let m = first_match_from(content, separator, 0);
    if m >= 0 {
        content.subrange(0, m)
    } else {
        Seq::empty()
    }
}

/// True of a byte that YAML counts as blank: space, tab, line feed, carriage
/// return.
pub open spec fn is_blank_byte(b: u8) -> bool {
    b == 32 || b == 9 || b == 10 || b == 13
}

/// True of a payload that holds no data: empty or made of blank bytes only.
pub open spec fn blank_payload(s: Seq<u8>) -> bool {
    forall|i: int| 0 <= i < s.len() ==> is_blank_byte(s[i])
}

/// True when `payload` holds no data and so decodes to the empty mapping.
fn is_blank(payload: &[u8]) -> (r: bool)
    ensures
        r == blank_payload(payload@),
{
    let mut i: usize = 0;
    while i < payload.len()
        invariant
            i <= payload@.len(),
            forall|j: int| 0 <= j < i ==> is_blank_byte(payload@[j]),
        decreases payload@.len() - i,
    {
        let b = payload[i];
        if !(b == 32 || b == 9 || b == 10 || b == 13) {
            assert(!is_blank_byte(payload@[i as int]));
            return false;
        }
        i += 1;
    }
    true
}

/// True when the document begins with `delimiter` followed by a line feed.
fn begins_with_marker(doc: &[u8], delimiter: &[u8]) -> (r: bool)
    ensures
        r == has_open_marker(doc@, delimiter@),
{
    if delimiter.len() >= doc.len() {
        assert(marker(delimiter@).len() > doc@.len());
        return false;
    }
    let mut i: usize = 0;
    while i < delimiter.len()
        invariant
            i <= delimiter@.len(),
            delimiter@.len() < doc@.len(),
            forall|j: int| 0 <= j < i ==> doc@[j] == delimiter@[j],
        decreases delimiter@.len() - i,
    {
        if doc[i] != delimiter[i] {
            assert(doc@.subrange(0, marker(delimiter@).len() as int)[i as int] != marker(
                delimiter@,
            )[i as int]);
            return false;
        }
        i += 1;
    }
    if doc[delimiter.len()] != 10u8 {
        assert(doc@.subrange(0, marker(delimiter@).len() as int)[delimiter@.len() as int]
            != marker(delimiter@)[delimiter@.len() as int]);
        return false;
    }
    assert(doc@.subrange(0, marker(delimiter@).len() as int) =~= marker(delimiter@));
    true
}

/// Isolates the frontmatter payload of a document: `Some` exactly when the
/// document opens with the marker line and the block is closed.
pub fn extract_frontmatter<'a>(markdown_input: &'a [u8], delimiter: &[u8]) -> (r: Option<&'a [u8]>)
    ensures
        r is Some <==> has_frontmatter(markdown_input@, delimiter@),
        r matches Some(p) ==> p@ == payload_of(markdown_input@, delimiter@),
{
    if !begins_with_marker(markdown_input, delimiter) {
        return None;
    }
    let doc_len = markdown_input.len();
    assert(marker(delimiter@).len() <= doc_len);
    let mut close: Vec<u8> = slice_to_vec(delimiter);
    close.push(10u8);
    assert(close@ == marker(delimiter@));
    let start = delimiter.len() + 1;
    match find_first(markdown_input, close.as_slice(), start) {
        None => None,
        Some(m) => Some(slice_subrange(markdown_input, start, m)),
    }
}

/// Splits a document into decoded frontmatter and content.
///
/// Without a frontmatter block the whole document comes back as content with
/// the empty mapping as data; a blank payload also decodes to the empty
/// mapping; and a payload that the decoder rejects is the one terminal error.
pub fn parse_frontmatter<'a>(markdown_input: &'a [u8], delimiters: &[u8]) -> (r: Result<
    (serde_yaml::Value, &'a [u8]),
    DecodeError,
>)
    ensures
        !has_frontmatter(markdown_input@, delimiters@) ==> (r matches Ok(p)
            && yaml_is_empty_mapping(p.0) && p.1@ == markdown_input@),
        has_frontmatter(markdown_input@, delimiters@) && blank_payload(
            payload_of(markdown_input@, delimiters@),
        ) ==> (r matches Ok(p) && yaml_is_empty_mapping(p.0) && p.1@ == content_of(
            markdown_input@,
            delimiters@,
        )),
        has_frontmatter(markdown_input@, delimiters@) && !blank_payload(
            payload_of(markdown_input@, delimiters@),
        ) && yaml_decoded(payload_of(markdown_input@, delimiters@)) is Some ==> (r matches Ok(p)
            && Some(yaml_repr(p.0)) == yaml_decoded(payload_of(markdown_input@, delimiters@))
            && p.1@ == content_of(markdown_input@, delimiters@)),
        r is Err <==> has_frontmatter(markdown_input@, delimiters@) && !blank_payload(
            payload_of(markdown_input@, delimiters@),
        ) && yaml_decoded(payload_of(markdown_input@, delimiters@)) is None,
{
    match extract_frontmatter(markdown_input, delimiters) {
        None => Ok((empty_mapping(), markdown_input)),
        Some(payload) => {
            let doc_len = markdown_input.len();
            proof {
                lemma_first_match_from_props(
                    markdown_input@,
                    marker(delimiters@),
                    delimiters@.len() as int + 1,
                );
                assert(matches_at(
                    markdown_input@,
                    marker(delimiters@),
                    close_pos(markdown_input@, delimiters@),
                ));
                assert(close_pos(markdown_input@, delimiters@) + delimiters@.len() + 1
                    <= doc_len);
            }
            let content_from = delimiters.len() + 1 + payload.len() + delimiters.len() + 1;
            assert(content_from == close_pos(markdown_input@, delimiters@) + delimiters@.len()
                + 1);
            let content = slice_subrange(markdown_input, content_from, markdown_input.len());
            if is_blank(payload) {
                Ok((empty_mapping(), content))
            } else {
                match decode_yaml(payload) {
                    Ok(data) => Ok((data, content)),
                    Err(_) => Err(DecodeError),
                }
            }
        },
    }
}

/// Cuts the excerpt out of a content: the bytes before the leftmost
/// occurrence of the separator, and the empty slice when it never occurs.
pub fn parse_excerpt<'a>(markdown_input: &'a [u8], separator: &[u8]) -> (r: &'a [u8])
    ensures
        r@ == excerpt_of(markdown_input@, separator@),
{
    match find_first(markdown_input, separator, 0) {
        None => slice_subrange(markdown_input, 0, 0),
        Some(m) => slice_subrange(markdown_input, 0, m),
    }
}

} // verus!
