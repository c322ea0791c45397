//! Options resolver: a partially specified configuration is normalized into a
//! fully resolved triple `(delimiters, excerpt, excerpt_separator)`.
//!
//! Every field is optional. A missing delimiter or separator falls back to
//! `---`, a missing excerpt flag to `false`; and a separator other than the
//! default forces the excerpt flag to `true`, overriding an explicit `false`.

use vstd::prelude::*;

use crate::search::bytes_eq;

verus! {

/// The default marker `---`, used both as delimiter and as excerpt separator.
pub open spec fn default_marker() -> Seq<u8> {
    seq![45u8, 45u8, 45u8]
}

/// A partially specified configuration; `None` fields take their default.
pub struct Opt {
    pub delimiters: Option<Vec<u8>>,
    pub excerpt: Option<bool>,
    pub excerpt_separator: Option<Vec<u8>>,
}

/// The delimiter that a configuration resolves to.
pub open spec fn resolved_delimiters(o: Opt) -> Seq<u8> {
    match o.delimiters {
        Some(d) => d@,
        None => default_marker(),
    }
}

/// The excerpt separator that a configuration resolves to.
pub open spec fn resolved_separator(o: Opt) -> Seq<u8> {
    match o.excerpt_separator {
        Some(s) => s@,
        None => default_marker(),
    }
}

/// The excerpt flag that a configuration resolves to: a separator other than
/// the default means that an excerpt is wanted, whatever the flag said.
pub open spec fn resolved_excerpt(o: Opt) -> bool {
    if resolved_separator(o) != default_marker() {
        true
    } else {
        match o.excerpt {
            Some(b) => b,
            None => false,
        }
    }
}

/// Builds the default marker `---` as an owned byte vector.
fn default_marker_vec() -> (r: Vec<u8>)
    ensures
        r@ == default_marker(),
{
    let mut v: Vec<u8> = Vec::new();
    v.push(45u8);
    v.push(45u8);
    v.push(45u8);
    proof {
        assert(v@ =~= default_marker());
    }
    v
}

impl Opt {
    /// A configuration with every field set to its default.
    pub fn new() -> (r: Opt)
        ensures
            r.delimiters matches Some(d) && d@ == default_marker(),
            r.excerpt == Some(false),
            r.excerpt_separator matches Some(s) && s@ == default_marker(),
    {
        Opt {
            delimiters: Some(default_marker_vec()),
            excerpt: Some(false),
            excerpt_separator: Some(default_marker_vec()),
        }
    }

    /// Resolves the configuration: missing fields take their defaults, and a
    /// non-default separator forces the excerpt flag on.
    pub fn extract_options(self) -> (r: (Vec<u8>, bool, Vec<u8>))
        ensures
            r.0@ == resolved_delimiters(self),
            r.1 == resolved_excerpt(self),
            r.2@ == resolved_separator(self),
            resolved_separator(self) != default_marker() ==> r.1,
    {
        let delimiters = match self.delimiters {
            None => default_marker_vec(),
            Some(data) => data,
        };
        let mut excerpt = match self.excerpt {
            None => false,
            Some(data) => data,
        };
        let excerpt_separator = match self.excerpt_separator {
            None => default_marker_vec(),
            Some(data) => data,
        };
        let default = default_marker_vec();
        if !bytes_eq(excerpt_separator.as_slice(), default.as_slice()) {
            excerpt = true;
        }
        (delimiters, excerpt, excerpt_separator)
    }
}

impl Default for Opt {
    /// Same configuration as `Opt::new`.
    fn default() -> (r: Opt)
        ensures
            r.delimiters matches Some(d) && d@ == default_marker(),
            r.excerpt == Some(false),
            r.excerpt_separator matches Some(s) && s@ == default_marker(),
    {
        Opt::new()
    }
}

} // verus!
