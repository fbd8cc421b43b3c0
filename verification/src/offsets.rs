use vstd::prelude::*;
use std::collections::BTreeMap;
use vstd::string::StrSliceExecFns;
use vstd::utf8::encode_utf8_decode_utf8;
use crate::bytes::bytes_equal;
use crate::error::UkaError;
use crate::metadata::opt_string_view;

verus! {

/// Externally supplied metadata for a kernel, kept as data.
#[derive(Debug, Clone)]
pub struct OffsetDocument {
    pub schema_version: u32,
    pub kernel: KernelIdentity,
    pub source: String,
    pub values: BTreeMap<String, String>,
}

/// The kernel that an offset document was made for.
#[derive(Debug, Clone)]
pub struct KernelIdentity {
    pub release: Option<String>,
    pub build_id: Option<String>,
}

/// A Unicode `White_Space` character, as `char::is_whitespace` tests.
pub open spec fn is_unicode_whitespace(c: char) -> bool {
    ('\u{9}' <= c <= '\u{d}') || c == ' ' || c == '\u{85}' || c == '\u{a0}' || c == '\u{1680}'
        || ('\u{2000}' <= c <= '\u{200a}') || c == '\u{2028}' || c == '\u{2029}' || c
        == '\u{202f}' || c == '\u{205f}' || c == '\u{3000}'
}

/// `s` holds nothing but white space, so it is empty once trimmed.
pub open spec fn is_blank(s: Seq<char>) -> bool {
    forall|i: int| 0 <= i < s.len() ==> is_unicode_whitespace(#[trigger] s[i])
}

/// Why the document is refused: a schema version other than 1, or a source
/// that is blank.
pub open spec fn offset_document_error(schema_version: u32, source: Seq<char>) -> Option<UkaError> {
    if schema_version != 1 {
        Some(UkaError::UnsupportedVersion)
    } else if is_blank(source) {
        Some(UkaError::EmptySource)
    } else {
        None
    }
}

fn is_whitespace_char(c: char) -> (r: bool)
    ensures
        r == is_unicode_whitespace(c),
{
    ('\u{9}' <= c && c <= '\u{d}') || c == ' ' || c == '\u{85}' || c == '\u{a0}' || c
        == '\u{1680}' || ('\u{2000}' <= c && c <= '\u{200a}') || c == '\u{2028}' || c
        == '\u{2029}' || c == '\u{202f}' || c == '\u{205f}' || c == '\u{3000}'
}

fn is_blank_str(s: &str) -> (r: bool)
    ensures
        r == is_blank(s@),
{
    let n = s.unicode_len();
    let mut i: usize = 0;
    while i < n
        invariant
            n == s@.len(),
            i <= n,
            forall|j: int| 0 <= j < i ==> is_unicode_whitespace(#[trigger] s@[j]),
        decreases n - i,
    {
        let c = s.get_char(i);
        if !is_whitespace_char(c) {
            assert(!is_unicode_whitespace(s@[i as int]));
            return false;
        }
        i += 1;
    }
    true
}

/// Accepts an offset document of schema version 1 that names a source.
pub fn validate_offset_document(doc: OffsetDocument) -> (r: Result<OffsetDocument, UkaError>)
    ensures
        match r {
            Ok(d) => offset_document_error(doc.schema_version, doc.source@) is None && d == doc,
            Err(e) => offset_document_error(doc.schema_version, doc.source@) == Some(e),
        },
{
    if doc.schema_version != 1 {
        return Err(UkaError::UnsupportedVersion);
    }
    if is_blank_str(doc.source.as_str()) {
        return Err(UkaError::EmptySource);
    }
    Ok(doc)
}

/// The view of an optional string slice.
pub open spec fn opt_str_view(o: Option<&str>) -> Option<Seq<char>> {
    match o {
        Some(s) => Some(s@),
        None => None,
    }
}

/// An expected identity field matches when the document leaves it open or it
/// equals the kernel's.
pub open spec fn field_matches(expected: Option<Seq<char>>, actual: Option<Seq<char>>) -> bool {
    expected is None || expected == actual
}

/// The document matches a kernel with this release and build ID.
pub open spec fn spec_matches_kernel(
    doc_release: Option<Seq<char>>,
    doc_build_id: Option<Seq<char>>,
    release: Option<Seq<char>>,
    build_id: Option<Seq<char>>,
) -> bool {
    field_matches(doc_release, release) && field_matches(doc_build_id, build_id)
}

fn str_equal(a: &str, b: &str) -> (r: bool)
    ensures
        r == (a@ == b@),
{
    let eq = bytes_equal(a.as_bytes(), b.as_bytes());
    proof {
        encode_utf8_decode_utf8(a@);
        encode_utf8_decode_utf8(b@);
    }
    eq
}

fn field_ok(expected: &Option<String>, actual: Option<&str>) -> (r: bool)
    ensures
        r == field_matches(opt_string_view(*expected), opt_str_view(actual)),
{
    match expected {
        None => true,
        Some(v) => match actual {
            None => false,
            Some(a) => str_equal(v.as_str(), a),
        },
    }
}

/// Whether the document was made for a kernel with this release and build ID.
pub fn matches_kernel(doc: &OffsetDocument, release: Option<&str>, build_id: Option<&str>) -> (r:
    bool)
    ensures
        r == spec_matches_kernel(
            opt_string_view(doc.kernel.release),
            opt_string_view(doc.kernel.build_id),
            opt_str_view(release),
            opt_str_view(build_id),
        ),
{
    let release_ok = field_ok(&doc.kernel.release, release);
    let build_ok = field_ok(&doc.kernel.build_id, build_id);
    release_ok && build_ok
}

/// A document that names neither release nor build ID matches every kernel.
pub proof fn lemma_open_identity_matches_any(
    release: Option<Seq<char>>,
    build_id: Option<Seq<char>>,
)
    ensures
        spec_matches_kernel(None, None, release, build_id),
{
}

/// A document matches the kernel it names, and a kernel whose release or
/// build ID differs from a named one does not match.
pub proof fn lemma_identity_match_is_exact(
    doc_release: Option<Seq<char>>,
    doc_build_id: Option<Seq<char>>,
    release: Option<Seq<char>>,
    build_id: Option<Seq<char>>,
)
    ensures
        spec_matches_kernel(doc_release, doc_build_id, doc_release, doc_build_id),
        doc_release is Some && doc_release != release ==> !spec_matches_kernel(
            doc_release,
            doc_build_id,
            release,
            build_id,
        ),
        doc_build_id is Some && doc_build_id != build_id ==> !spec_matches_kernel(
            doc_release,
            doc_build_id,
            release,
            build_id,
        ),
{
}

} // verus!
