//! Frontmatter extraction for text documents: a structured metadata block at
//! the start of a document is separated from the remaining content, and a
//! leading excerpt can be cut out of that content with a configurable
//! separator.
//!
//! The engine is a pure function of the document bytes and the options: it
//! resolves the options, isolates the frontmatter block between marker lines,
//! decodes it as YAML, and slices the excerpt. A document without frontmatter
//! comes back whole with an empty mapping; only a malformed payload is an
//! error.

pub mod laws;
pub mod opts;
pub mod parse;
pub mod search;
pub mod yaml;

pub use opts::resolved_delimiters;
pub use opts::resolved_excerpt;
pub use opts::resolved_separator;
pub use opts::Opt;
pub use parse::extract_frontmatter;
pub use parse::parse_excerpt;
pub use parse::parse_frontmatter;
pub use yaml::DecodeError;

use vstd::prelude::*;

use crate::parse::blank_payload;
use crate::parse::content_of;
use crate::parse::excerpt_of;
use crate::parse::has_frontmatter;
use crate::parse::payload_of;
use crate::yaml::yaml_decoded;
use crate::yaml::yaml_is_empty_mapping;
use crate::yaml::yaml_repr;

verus! {

/// The result of a parse: the content after the frontmatter block, the
/// decoded data, and the excerpt cut out of the content.
pub struct Output<'a> {
    pub content: &'a [u8],
    pub data: serde_yaml::Value,
    pub excerpt: &'a [u8],
}

/// Parses a document under the given options: resolves the options, splits
/// off and decodes the frontmatter, and extracts the excerpt when one is
/// wanted. The one error is a frontmatter payload that the decoder rejects.
pub fn matter<'a>(markdown_input: &'a [u8], opt: Opt) -> (r: Result<Output<'a>, DecodeError>)
    ensures
        ({
            let d = resolved_delimiters(opt);
            let sep = resolved_separator(opt);
            let doc = markdown_input@;
            &&& (r is Err <==> has_frontmatter(doc, d) && !blank_payload(payload_of(doc, d))
                && yaml_decoded(payload_of(doc, d)) is None)
            &&& (r matches Ok(out) ==> {
                &&& out.content@ == content_of(doc, d)
                &&& out.excerpt@ == (if resolved_excerpt(opt) {
                    excerpt_of(content_of(doc, d), sep)
                } else {
                    Seq::<u8>::empty()
                })
                &&& (!has_frontmatter(doc, d) || blank_payload(payload_of(doc, d))
                    ==> yaml_is_empty_mapping(out.data))
                &&& (has_frontmatter(doc, d) && !blank_payload(payload_of(doc, d)) ==> Some(
                    yaml_repr(out.data),
                ) == yaml_decoded(payload_of(doc, d)))
            })
        }),
{
    let (delimiters, excerpt, excerpt_separator) = opt.extract_options();
    match parse_frontmatter(markdown_input, delimiters.as_slice()) {
        Err(e) => Err(e),
        Ok((data, content)) => {
            let excerpt_bytes: &[u8] = if excerpt {
                parse_excerpt(content, excerpt_separator.as_slice())
            } else {
                vstd::slice::slice_subrange(content, 0, 0)
            };
            assert(!resolved_excerpt(opt) ==> excerpt_bytes@ =~= Seq::<u8>::empty());
            Ok(Output { content, data, excerpt: excerpt_bytes })
        },
    }
}

} // verus!
