//! Laws of the parsing engine, stated over its mathematical model and proved
//! once for all documents.

use vstd::prelude::*;

use crate::parse::close_pos;
use crate::parse::content_of;
use crate::parse::excerpt_of;
use crate::parse::has_frontmatter;
use crate::parse::has_open_marker;
use crate::parse::marker;
use crate::parse::payload_of;
use crate::search::first_match_from;
use crate::search::lemma_first_match_from_props;
use crate::search::lemma_first_match_is;
use crate::search::lemma_matches_at_prefix;
use crate::search::lemma_matches_at_shift;
use crate::search::matches_at;

verus! {

/// A document that does not begin with the opening marker has no frontmatter
/// and is returned whole as content, with nothing stripped.
pub proof fn lemma_no_marker_keeps_document(doc: Seq<u8>, delimiter: Seq<u8>)
    requires
        !has_open_marker(doc, delimiter),
    ensures
        !has_frontmatter(doc, delimiter),
        content_of(doc, delimiter) == doc,
{
}

/// A document whose opening marker is never closed has no frontmatter and is
/// returned whole as content, the unmatched opening marker included.
pub proof fn lemma_unterminated_keeps_document(doc: Seq<u8>, delimiter: Seq<u8>)
    requires
        close_pos(doc, delimiter) == -1,
    ensures
        !has_frontmatter(doc, delimiter),
        content_of(doc, delimiter) == doc,
{
}

/// A well-formed document — opening marker, payload, closing marker, rest —
/// parses to exactly that payload and that rest, provided the marker does not
/// occur inside the payload.
pub proof fn lemma_well_formed_parse(delimiter: Seq<u8>, payload: Seq<u8>, rest: Seq<u8>)
    requires
        forall|i: int|
            0 <= i < payload.len() ==> !matches_at(
                payload + marker(delimiter),
                marker(delimiter),
                i,
            ),
    ensures
        ({
            let doc = marker(delimiter) + payload + marker(delimiter) + rest;
            &&& has_frontmatter(doc, delimiter)
            &&& payload_of(doc, delimiter) == payload
            &&& content_of(doc, delimiter) == rest
        }),
{
    let m = marker(delimiter);
    let doc = m + payload + m + rest;
    let start = m.len() as int;
    let k = start + payload.len();

    assert(doc.subrange(0, start) =~= m);
    assert(matches_at(doc, m, 0));

    assert(doc.subrange(k, k + m.len()) =~= m);
    assert(matches_at(doc, m, k));

    let tail = (payload + m) + rest;
    assert(doc =~= m + tail);
    assert forall|j: int| start <= j < k implies !matches_at(doc, m, j) by {
        let i = j - start;
        lemma_matches_at_shift(m, tail, m, i);
        lemma_matches_at_prefix(payload + m, rest, m, i);
    }

    lemma_first_match_is(doc, m, start, k);
    assert(close_pos(doc, delimiter) == k);
    assert(payload_of(doc, delimiter) =~= payload);
    assert(content_of(doc, delimiter) =~= rest);
}

/// Embedding a payload between fresh marker lines and parsing again recovers
/// exactly that payload, with empty content: the textual half of the
/// round-trip, with the decoding of the recovered payload left to the
/// decoder's own determinism.
pub proof fn lemma_embed_round_trip(delimiter: Seq<u8>, payload: Seq<u8>)
    requires
        forall|i: int|
            0 <= i < payload.len() ==> !matches_at(
                payload + marker(delimiter),
                marker(delimiter),
                i,
            ),
    ensures
        ({
            let doc = marker(delimiter) + payload + marker(delimiter);
            &&& has_frontmatter(doc, delimiter)
            &&& payload_of(doc, delimiter) == payload
            &&& content_of(doc, delimiter) == Seq::<u8>::empty()
        }),
{
    lemma_well_formed_parse(delimiter, payload, Seq::<u8>::empty());
    let with_rest = marker(delimiter) + payload + marker(delimiter) + Seq::<u8>::empty();
    let doc = marker(delimiter) + payload + marker(delimiter);
    assert(with_rest =~= doc);
}

/// With a separator that occurs nowhere in the content, the excerpt is empty,
/// and extracting again from that empty excerpt yields the same empty
/// excerpt: absence of a separator is stable under repetition.
pub proof fn lemma_excerpt_absent_idempotent(content: Seq<u8>, separator: Seq<u8>)
    requires
        forall|i: int| !matches_at(content, separator, i),
    ensures
        excerpt_of(content, separator) == Seq::<u8>::empty(),
        excerpt_of(excerpt_of(content, separator), separator) == excerpt_of(content, separator),
{
    lemma_first_match_from_props(content, separator, 0);
    if first_match_from(content, separator, 0) >= 0 {
        assert(matches_at(content, separator, first_match_from(content, separator, 0)));
    }
    assert(excerpt_of(content, separator) == Seq::<u8>::empty());

    assert(content.subrange(0, 0) =~= Seq::<u8>::empty());
    assert(separator.len() > 0) by {
        if separator.len() == 0 {
            assert(separator =~= Seq::<u8>::empty());
            assert(content.subrange(0, 0) =~= separator);
            assert(matches_at(content, separator, 0));
        }
    }
    assert(first_match_from(Seq::<u8>::empty(), separator, 0) == -1);
}

} // verus!
