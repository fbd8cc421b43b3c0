use vstd::prelude::*;
use crate::android_images::{detect_image_kind, detected_kind, DetectedImageKind};
use crate::boot::{boot_header_version, boot_kind_of_version, boot_page_size, parse_boot_image};
use crate::error::UkaError;
use crate::init_boot::{init_header_version, parse_init_boot_image, INIT_BOOT_PAGE_SIZE};
use crate::kallsyms::{scan_candidates, spec_scan_candidates};
use crate::kernel::{
    decompress_kernel, extract_kernel, spec_decompress, spec_extract_kernel, ExtractedKernelView,
};
use crate::metadata::{
    detect_metadata, opt_string_view, spec_architecture, spec_detect_build_id,
    spec_detect_release,
};
use crate::model::{
    AnalysisReport, CompressionKind, ImageKind, ImageSummary, KernelSummary, SymbolSummary,
    ValidationSummary,
};
use crate::outside_calls::{read_zip_entry, zip_entry_content};
use crate::vendor_boot::{parse_vendor_boot_image, vb_header_version, vb_page_size, vendor_boot_error};

verus! {

/// The name under which a compression is reported; uncompressed payloads have
/// none.
pub open spec fn compression_label(kind: CompressionKind) -> Option<Seq<char>> {
    match kind {
        CompressionKind::Uncompressed => None,
        CompressionKind::Gzip => Some("gzip"@),
        CompressionKind::Xz => Some("xz"@),
        CompressionKind::Lz4 => Some("lz4"@),
        CompressionKind::Lzop => Some("lzop"@),
        CompressionKind::Zstd => Some("zstd"@),
        CompressionKind::Brotli => Some("brotli"@),
        CompressionKind::Unknown => Some("unknown"@),
    }
}

fn compression_name(kind: &CompressionKind) -> (r: Option<String>)
    ensures
        opt_string_view(r) == compression_label(*kind),
{
    match kind {
        CompressionKind::Uncompressed => None,
        CompressionKind::Gzip => Some("gzip".to_owned()),
        CompressionKind::Xz => Some("xz".to_owned()),
        CompressionKind::Lz4 => Some("lz4".to_owned()),
        CompressionKind::Lzop => Some("lzop".to_owned()),
        CompressionKind::Zstd => Some("zstd".to_owned()),
        CompressionKind::Brotli => Some("brotli".to_owned()),
        CompressionKind::Unknown => Some("unknown".to_owned()),
    }
}

/// Whether the detected kind of `s` calls for taking out a kernel payload:
/// boot images and inputs that are no Android image do; vendor_boot and
/// init_boot images do not.
pub open spec fn wants_payload(s: Seq<u8>) -> bool {
    !(detected_kind(s) matches Ok(k) && (k == DetectedImageKind::VendorBoot || k
        == DetectedImageKind::InitBoot))
}

/// The payload of `s` and the bytes analyzed for it, when one is taken out.
pub open spec fn report_payload(s: Seq<u8>) -> Result<Option<(ExtractedKernelView, Seq<u8>)>, UkaError> {
    if !wants_payload(s) {
        Ok(None)
    } else {
        match spec_extract_kernel(s) {
            Err(e) => Err(e),
            Ok(k) => match spec_decompress(k.data, k.compression) {
                Err(e) => Err(e),
                Ok(d) => Ok(Some((k, d))),
            },
        }
    }
}

/// Why no report is made for `s`: the payload cannot be taken out or
/// decompressed, or a vendor_boot image does not parse.
pub open spec fn report_error(s: Seq<u8>) -> Option<UkaError> {
    match report_payload(s) {
        Err(e) => Some(e),
        Ok(_) => if detected_kind(s) == Ok::<DetectedImageKind, UkaError>(
            DetectedImageKind::VendorBoot,
        ) {
            vendor_boot_error(s)
        } else {
            None
        },
    }
}

/// The image summary of `s`: the parsed kind, header version and page size of
/// an Android image, or `RawKernel` for anything else.
pub open spec fn is_image_summary_of(s: Seq<u8>, image: ImageSummary) -> bool {
    match detected_kind(s) {
        Ok(DetectedImageKind::Boot) => image.kind == Some(
            boot_kind_of_version(boot_header_version(s)),
        ) && image.header_version == Some(boot_header_version(s)) && image.page_size == Some(
            boot_page_size(s),
        ),
        Ok(DetectedImageKind::VendorBoot) => image.kind == Some(ImageKind::VendorBoot)
            && image.header_version == Some(vb_header_version(s)) && image.page_size == Some(
            vb_page_size(s),
        ),
        Ok(DetectedImageKind::InitBoot) => image.kind == Some(ImageKind::InitBoot)
            && image.header_version == Some(init_header_version(s)) && image.page_size == Some(
            INIT_BOOT_PAGE_SIZE as u32,
        ),
        Err(_) => image.kind == Some(ImageKind::RawKernel) && image.header_version is None
            && image.page_size is None,
    }
}

/// The symbol and validation summaries for the analyzed bytes `d`: the first
/// kallsyms candidate found, if any.
pub open spec fn is_symbol_summary_of(
    d: Seq<u8>,
    symbols: SymbolSummary,
    validation: ValidationSummary,
) -> bool {
    let cs = spec_scan_candidates(d);
    if cs.len() > 0 {
        &&& opt_string_view(symbols.source) == Some("embedded-kallsyms"@)
        &&& symbols.count == Some(cs[0].num_syms)
        &&& symbols.confidence_percent == cs[0].confidence_percent
        &&& validation == ValidationSummary {
            address_range_valid: true,
            symbol_names_valid: false,
            tables_consistent: true,
        }
    } else {
        &&& symbols.source is None
        &&& symbols.count is None
        &&& symbols.confidence_percent == 0
        &&& validation == ValidationSummary {
            address_range_valid: false,
            symbol_names_valid: false,
            tables_consistent: false,
        }
    }
}

/// The kernel summary for the analyzed bytes `d` of a payload found in
/// `compression`: the release, build ID and architecture that `d` shows, and
/// the name of the compression.
pub open spec fn is_kernel_summary_of(d: Seq<u8>, compression: CompressionKind, ks: KernelSummary) -> bool {
    &&& opt_string_view(ks.release) == spec_detect_release(d)
    &&& opt_string_view(ks.build_id) == spec_detect_build_id(d)
    &&& opt_string_view(ks.architecture) == spec_architecture(d)
    &&& opt_string_view(ks.compression) == compression_label(compression)
}

/// `rep` is the report for `s`: its image summary, and, where a payload was
/// taken out, the release, build ID, architecture and compression of the
/// payload and its first kallsyms candidate; else no kernel facts and no
/// symbols.
pub open spec fn is_report_of(s: Seq<u8>, rep: AnalysisReport) -> bool {
    &&& is_image_summary_of(s, rep.image)
    &&& match report_payload(s) {
        Ok(Some((k, d))) => {
            &&& is_kernel_summary_of(d, k.compression, rep.kernel)
            &&& is_symbol_summary_of(d, rep.symbols, rep.validation)
        },
        _ => {
            &&& rep.kernel.release is None
            &&& rep.kernel.build_id is None
            &&& rep.kernel.architecture is None
            &&& rep.kernel.compression is None
            &&& rep.symbols.source is None
            &&& rep.symbols.count is None
            &&& rep.symbols.confidence_percent == 0
            &&& rep.validation == ValidationSummary {
                address_range_valid: false,
                symbol_names_valid: false,
                tables_consistent: false,
            }
        },
    }
}

/// Summarizes the analyzed bytes of a kernel payload that was found in
/// `compression`: its kernel facts, its first kallsyms candidate and what that
/// candidate validates.
pub fn summarize_kernel(data: &[u8], compression: &CompressionKind) -> (r: (
    KernelSummary,
    SymbolSummary,
    ValidationSummary,
))
    ensures
        is_kernel_summary_of(data@, *compression, r.0),
        is_symbol_summary_of(data@, r.1, r.2),
{
    let metadata = detect_metadata(data);
    let (symbols, validation) = summarize_symbols(data);
    (
        KernelSummary {
            release: metadata.release,
            build_id: metadata.build_id,
            architecture: metadata.architecture,
            compression: compression_name(compression),
        },
        symbols,
        validation,
    )
}

fn summarize_symbols(d: &[u8]) -> (r: (SymbolSummary, ValidationSummary))
    ensures
        is_symbol_summary_of(d@, r.0, r.1),
{
    let candidates = scan_candidates(d);
    if candidates.len() > 0 {
        let candidate = &candidates[0];
        (
            SymbolSummary {
                source: Some("embedded-kallsyms".to_owned()),
                count: Some(candidate.num_syms),
                confidence_percent: candidate.confidence_percent,
            },
            ValidationSummary {
                address_range_valid: true,
                symbol_names_valid: false,
                tables_consistent: true,
            },
        )
    } else {
        (
            SymbolSummary { source: None, count: None, confidence_percent: 0 },
            ValidationSummary {
                address_range_valid: false,
                symbol_names_valid: false,
                tables_consistent: false,
            },
        )
    }
}

/// Produces a read-only analysis summary for an Android image or raw kernel.
pub fn analyze_image(data: &[u8]) -> (r: Result<AnalysisReport, UkaError>)
    ensures
        match r {
            Ok(rep) => report_error(data@) is None && is_report_of(data@, rep),
            Err(e) => report_error(data@) == Some(e),
        },
{
    let detected = detect_image_kind(data);
    let wants = match detected {
        Ok(DetectedImageKind::VendorBoot) | Ok(DetectedImageKind::InitBoot) => false,
        _ => true,
    };
    let kernel = if wants {
        let extracted = extract_kernel(data)?;
        let analysis_data = decompress_kernel(extracted.data.as_slice(), &extracted.compression)?;
        summarize_kernel(analysis_data.as_slice(), &extracted.compression)
    } else {
        (
            KernelSummary { release: None, build_id: None, architecture: None, compression: None },
            SymbolSummary { source: None, count: None, confidence_percent: 0 },
            ValidationSummary {
                address_range_valid: false,
                symbol_names_valid: false,
                tables_consistent: false,
            },
        )
    };
    let image = match detected {
        Ok(DetectedImageKind::Boot) => {
            let parsed = parse_boot_image(data)?;
            ImageSummary {
                kind: Some(parsed.kind),
                header_version: parsed.header_version,
                page_size: parsed.page_size,
            }
        },
        Ok(DetectedImageKind::VendorBoot) => {
            let parsed = parse_vendor_boot_image(data)?;
            ImageSummary {
                kind: Some(parsed.kind),
                header_version: Some(parsed.header_version),
                page_size: Some(parsed.page_size),
            }
        },
        Ok(DetectedImageKind::InitBoot) => {
            let parsed = parse_init_boot_image(data)?;
            ImageSummary {
                kind: Some(parsed.kind),
                header_version: Some(parsed.header_version),
                page_size: Some(parsed.page_size),
            }
        },
        Err(_) => ImageSummary { kind: Some(ImageKind::RawKernel), header_version: None, page_size: None },
    };
    let (kernel, symbols, validation) = kernel;
    Ok(AnalysisReport { image, kernel, symbols, validation })
}

/// Why no report is made for the entry `name` of the ZIP archive `s`.
pub open spec fn ota_entry_report_error(s: Seq<u8>, name: Seq<char>) -> Option<UkaError> {
    match zip_entry_content(s, name) {
        None => Some(UkaError::Archive),
        Some(content) => report_error(content),
    }
}

/// Analyzes an image stored as a named entry in an OTA ZIP package.
pub fn analyze_ota_entry(data: &[u8], entry_name: &str) -> (r: Result<AnalysisReport, UkaError>)
    ensures
        match r {
            Ok(rep) => ota_entry_report_error(data@, entry_name@) is None && (zip_entry_content(
                data@,
                entry_name@,
            ) matches Some(content) && is_report_of(content, rep)),
            Err(e) => ota_entry_report_error(data@, entry_name@) == Some(e),
        },
{
    let image = match read_zip_entry(data, entry_name) {
        Ok(content) => content,
        Err(_) => return Err(UkaError::Archive),
    };
    analyze_image(image.as_slice())
}

/// A vendor_boot or init_boot image carries no kernel payload: its report
/// names no kernel facts, no compression and no symbols.
pub proof fn lemma_ramdisk_images_report_no_kernel(s: Seq<u8>, rep: AnalysisReport)
    requires
        detected_kind(s) == Ok::<DetectedImageKind, UkaError>(DetectedImageKind::VendorBoot)
            || detected_kind(s) == Ok::<DetectedImageKind, UkaError>(DetectedImageKind::InitBoot),
        is_report_of(s, rep),
    ensures
        rep.kernel.release is None,
        rep.kernel.build_id is None,
        rep.kernel.architecture is None,
        rep.kernel.compression is None,
        rep.symbols.count is None,
        !rep.validation.address_range_valid,
{
}

/// Input that is no Android image is reported as a raw kernel without header
/// version or page size.
pub proof fn lemma_unrecognized_input_is_raw_kernel(s: Seq<u8>, rep: AnalysisReport)
    requires
        detected_kind(s) is Err,
        is_report_of(s, rep),
    ensures
        rep.image.kind == Some(ImageKind::RawKernel),
        rep.image.header_version is None,
        rep.image.page_size is None,
{
}

/// Reports are reproducible: two reports made for the same input agree on
/// every field, strings by their characters.
pub proof fn lemma_reports_are_reproducible(s: Seq<u8>, a: AnalysisReport, b: AnalysisReport)
    requires
        is_report_of(s, a),
        is_report_of(s, b),
    ensures
        a.image == b.image,
        opt_string_view(a.kernel.release) == opt_string_view(b.kernel.release),
        opt_string_view(a.kernel.build_id) == opt_string_view(b.kernel.build_id),
        opt_string_view(a.kernel.architecture) == opt_string_view(b.kernel.architecture),
        opt_string_view(a.kernel.compression) == opt_string_view(b.kernel.compression),
        opt_string_view(a.symbols.source) == opt_string_view(b.symbols.source),
        a.symbols.count == b.symbols.count,
        a.symbols.confidence_percent == b.symbols.confidence_percent,
        a.validation == b.validation,
{
}

} // verus!
