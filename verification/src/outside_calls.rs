use vstd::prelude::*;
use vstd::utf8::{decode_utf8, valid_utf8};

verus! {

/// The error of `std::str::from_utf8`, carried through opaque.
#[verifier::external_type_specification]
#[verifier::external_body]
pub struct ExUtf8Error(std::str::Utf8Error);

/// Calls `std::str::from_utf8`. As its documentation states, it succeeds exactly
/// when the bytes are valid UTF-8, and the string slice it returns holds the
/// characters those bytes encode.
#[verifier::external_body]
pub(crate) fn str_from_utf8(bytes: &[u8]) -> (r: Result<&str, std::str::Utf8Error>)
    ensures
        r is Ok <==> valid_utf8(bytes@),
        r matches Ok(s) ==> s@ == decode_utf8(bytes@),
{
    std::str::from_utf8(bytes)
}

} // verus!

verus! {

/// The error of `std::io` reads, carried through opaque.
#[verifier::external_type_specification]
#[verifier::external_body]
pub struct ExIoError(std::io::Error);

/// The bytes that `flate2::read::GzDecoder` yields when it reads the gzip data
/// `data` to the end, or `None` when it reports an error. They depend on `data`
/// alone.
pub uninterp spec fn gzip_decoded(data: Seq<u8>) -> Option<Seq<u8>>;

/// Decodes the gzip member at the start of `data` with `flate2::read::GzDecoder`,
/// reading it to the end. The contract claims only that the result is the named
/// function of the input; what the decoder computes is not stated here.
#[verifier::external_body]
pub(crate) fn gzip_decode(data: &[u8]) -> (r: Result<Vec<u8>, std::io::Error>)
    ensures
        match r {
            Ok(out) => gzip_decoded(data@) == Some(out@),
            Err(_) => gzip_decoded(data@) is None,
        },
{
    let mut out = Vec::new();
    std::io::Read::read_to_end(&mut flate2::read::GzDecoder::new(data), &mut out)?;
    Ok(out)
}

/// The error of the `zip` crate, carried through opaque.
#[verifier::external_type_specification]
#[verifier::external_body]
pub struct ExZipError(zip::result::ZipError);

/// The names (as UTF-8 bytes) of the entries of the ZIP archive `data`, one per
/// distinct name, in the order of `zip::ZipArchive`'s index (a name that the
/// central directory repeats is listed once, where it first appears), as the
/// archive lists them when every entry can be opened with `by_index`; `None`
/// when the archive or an entry cannot be read. They depend on `data` alone.
pub uninterp spec fn zip_entry_names(data: Seq<u8>) -> Option<Seq<Seq<u8>>>;

/// Opens the ZIP archive `data` with `zip::ZipArchive::new` and lists its entry
/// names through `by_index`. The contract claims only that the result is the
/// named function of the input.
#[verifier::external_body]
pub(crate) fn read_zip_entry_names(data: &[u8]) -> (r: Result<Vec<Vec<u8>>, zip::result::ZipError>)
    ensures
        match r {
            Ok(names) => zip_entry_names(data@) == Some(names.deep_view()),
            Err(_) => zip_entry_names(data@) is None,
        },
{
    let mut archive = zip::ZipArchive::new(std::io::Cursor::new(data))?;
    let mut names = Vec::new();
    for index in 0..archive.len() {
        names.push(archive.by_index(index)?.name().as_bytes().to_vec());
    }
    Ok(names)
}

/// The content of the entry called `name` in the ZIP archive `data`, as
/// `zip::ZipArchive::by_name` reads it to the end; `None` when the archive
/// cannot be read, holds no such entry, or the entry cannot be decoded. It
/// depends on `data` and `name` alone.
pub uninterp spec fn zip_entry_content(data: Seq<u8>, name: Seq<char>) -> Option<Seq<u8>>;

/// Reads the entry called `name` out of the ZIP archive `data`. The contract
/// claims only that the result is the named function of the inputs.
#[verifier::external_body]
pub(crate) fn read_zip_entry(data: &[u8], name: &str) -> (r: Result<Vec<u8>, zip::result::ZipError>)
    ensures
        match r {
            Ok(content) => zip_entry_content(data@, name@) == Some(content@),
            Err(_) => zip_entry_content(data@, name@) is None,
        },
{
    let mut archive = zip::ZipArchive::new(std::io::Cursor::new(data))?;
    let mut content = Vec::new();
    std::io::Read::read_to_end(&mut archive.by_name(name)?, &mut content)?;
    Ok(content)
}

} // verus!
