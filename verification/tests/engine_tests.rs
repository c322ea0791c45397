use matter::extract_frontmatter;
use matter::matter;
use matter::parse_excerpt;
use matter::parse_frontmatter;
use matter::DecodeError;
use matter::Opt;

fn default_options() -> Opt {
    Opt { delimiters: None, excerpt: None, excerpt_separator: None }
}

#[test]
fn matter_with_frontmatter_default_options() {
    let out = matter(b"---\ntitle: Home\n---\nOther stuff", Opt::new()).unwrap();
    assert_eq!(serde_yaml::to_string(&out.data).unwrap(), "---\ntitle: Home\n");
    assert_eq!(out.content, b"Other stuff");
    assert_eq!(out.excerpt, b"");
}

#[test]
fn matter_with_custom_delimiter() {
    let opt = Opt {
        delimiters: Some(b"~~~".to_vec()),
        excerpt: None,
        excerpt_separator: None,
    };
    let out = matter(b"~~~\ntitle: Home\n~~~\nOther stuff", opt).unwrap();
    assert_eq!(serde_yaml::to_string(&out.data).unwrap(), "---\ntitle: Home\n");
    assert_eq!(out.content, b"Other stuff");
    assert_eq!(out.excerpt, b"");
}

#[test]
fn matter_with_excerpt() {
    let opt = Opt {
        delimiters: None,
        excerpt: Some(true),
        excerpt_separator: None,
    };
    let out = matter(b"---\nfoo: bar\n---\nThis is an excerpt.\n---\nThis is content", opt)
        .unwrap();
    assert_eq!(serde_yaml::to_string(&out.data).unwrap(), "---\nfoo: bar\n");
    assert_eq!(out.excerpt, "This is an excerpt.\n".as_bytes());
}

#[test]
fn matter_excerpt_wanted_but_no_separator() {
    let opt = Opt {
        delimiters: None,
        excerpt: Some(true),
        excerpt_separator: None,
    };
    let doc = b"This is just content, no excerpt.";
    let out = matter(doc, opt).unwrap();
    assert_eq!(out.excerpt, b"");
    assert_eq!(out.content, doc.as_slice());
}

#[test]
fn matter_no_leading_delimiter() {
    let doc = b"Plain text.\n---\nMore text.";
    let out = matter(doc, default_options()).unwrap();
    assert_eq!(serde_yaml::to_string(&out.data).unwrap(), "---\n{}\n");
    assert_eq!(out.content, doc.as_slice());
}

#[test]
fn matter_malformed_payload_is_decode_error() {
    let r = matter(b"---\na: [1,\n---\nrest", Opt::new());
    assert!(r.is_err());
}

#[test]
fn parse_frontmatter_malformed_payload() {
    let r = parse_frontmatter(b"---\na: [1,\n---\nrest", b"---");
    assert_eq!(r.unwrap_err(), DecodeError);
}

#[test]
fn separator_other_than_default_forces_excerpt() {
    let opt = Opt {
        delimiters: None,
        excerpt: Some(false),
        excerpt_separator: Some(b"<!-- end -->".to_vec()),
    };
    let (delimiters, excerpt, separator) = opt.extract_options();
    assert_eq!(delimiters, b"---".to_vec());
    assert!(excerpt);
    assert_eq!(separator, b"<!-- end -->".to_vec());
}

#[test]
fn missing_options_resolve_to_defaults() {
    let e = default_options().extract_options();
    assert_eq!(e, (b"---".to_vec(), false, b"---".to_vec()));
}

#[test]
fn round_trip_preserves_data() {
    let (data, _) = parse_frontmatter(b"---\ntitle: Home\nkind: page\n---\nbody", b"---")
        .unwrap();
    let encoded = serde_yaml::to_string(&data).unwrap();
    let embedded = format!("{}---\nother body", encoded);
    let (again, content) = parse_frontmatter(embedded.as_bytes(), b"---").unwrap();
    assert_eq!(again, data);
    assert_eq!(content, b"other body");
}

#[test]
fn unterminated_block_passes_through() {
    let doc = b"---\ntitle: Home\n";
    let (fm, content) = parse_frontmatter(doc, b"---").unwrap();
    assert_eq!(serde_yaml::to_string(&fm).unwrap(), "---\n{}\n");
    assert_eq!(content, doc.as_slice());
}

#[test]
fn empty_payload_is_empty_mapping() {
    let (fm, content) = parse_frontmatter(b"---\n---\nrest", b"---").unwrap();
    assert_eq!(serde_yaml::to_string(&fm).unwrap(), "---\n{}\n");
    assert_eq!(content, b"rest");
}

#[test]
fn blank_payload_is_empty_mapping() {
    let (fm, content) = parse_frontmatter(b"---\n \t\r\n\n---\nrest", b"---").unwrap();
    assert_eq!(serde_yaml::to_string(&fm).unwrap(), "---\n{}\n");
    assert_eq!(content, b"rest");
}

#[test]
fn multi_byte_text_slices_at_byte_offsets() {
    let doc = "---\ntitle: caf\u{e9} \u{2615}\n---\nna\u{ef}ve content";
    let (fm, content) = parse_frontmatter(doc.as_bytes(), b"---").unwrap();
    assert_eq!(
        serde_yaml::to_string(&fm).unwrap(),
        "---\ntitle: caf\u{e9} \u{2615}\n"
    );
    assert_eq!(content, "na\u{ef}ve content".as_bytes());
}

#[test]
fn extract_frontmatter_yields_payload() {
    let payload = extract_frontmatter(b"---\ntitle: Home\n---\nOther stuff", b"---");
    assert_eq!(payload, Some("title: Home\n".as_bytes()));
}

#[test]
fn extract_frontmatter_none_without_close() {
    assert_eq!(extract_frontmatter(b"---\ntitle: Home", b"---"), None);
    assert_eq!(extract_frontmatter(b"no marker at all", b"---"), None);
}

#[test]
fn only_first_close_marker_counts() {
    let (fm, content) = parse_frontmatter(b"---\na: 1\n---\nmiddle\n---\nend", b"---")
        .unwrap();
    assert_eq!(serde_yaml::to_string(&fm).unwrap(), "---\na: 1\n");
    assert_eq!(content, b"middle\n---\nend");
}

#[test]
fn excerpt_bounded_by_first_separator() {
    let excerpt = parse_excerpt(b"first\n---\nsecond\n---\nthird", b"---");
    assert_eq!(excerpt, b"first\n");
}

#[test]
fn excerpt_with_empty_separator_is_empty() {
    assert_eq!(parse_excerpt(b"abc", b""), b"");
}

#[test]
fn excerpt_absent_separator_is_repeatable() {
    let first = parse_excerpt(b"no separator here", b"---");
    assert_eq!(first, b"");
    let second = parse_excerpt(first, b"---");
    assert_eq!(second, first);
}

#[test]
fn empty_document_is_all_content() {
    let (fm, content) = parse_frontmatter(b"", b"---").unwrap();
    assert_eq!(serde_yaml::to_string(&fm).unwrap(), "---\n{}\n");
    assert_eq!(content, b"");
}

#[test]
fn bare_opening_marker_passes_through() {
    let doc = b"---\n";
    let (fm, content) = parse_frontmatter(doc, b"---").unwrap();
    assert_eq!(serde_yaml::to_string(&fm).unwrap(), "---\n{}\n");
    assert_eq!(content, doc.as_slice());
}
