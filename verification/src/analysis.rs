use vstd::prelude::*;
use crate::btf::{parse_btf_header, spec_parse_btf_header, BtfHeader};
use crate::bytes::starts_with;
use crate::containers::{container_kind, detect_container_kind, ContainerKind};
use crate::dtb::{parse_dtb_header, spec_parse_dtb_header, DtbHeader};
use crate::elf::{parse_elf_header, spec_parse_elf_header, ElfHeader};
use crate::error::UkaError;
use crate::magic::{
    btf_magic, dtb_magic, elf_magic, has_btf_magic, has_dtb_magic, has_elf_magic,
    has_sparse_magic, payload_magic, sparse_magic, xbl_config_magic, zip_end_magic,
    zip_local_magic, zip_spanned_magic,
};
use crate::model::AnalysisReport;
use crate::ota_zip::{inspect_ota_zip, spec_inspect_ota_zip, OtaZipSummary};
use crate::payload::{parse_payload_header, spec_parse_payload_header, PayloadHeader};
use crate::report::{analyze_image, is_report_of, report_error};
use crate::sparse::{parse_sparse_header, spec_parse_sparse_header, SparseHeader};
use crate::text::{find_from, find_pattern};
use crate::xbl_config::{inspect_xbl_config, printable_string_count, XblConfigSummary};

verus! {

/// The result of analyzing an input of any recognized kind.
#[derive(Debug, Clone)]
pub enum AnalysisResult {
    Image(AnalysisReport),
    OtaZip(OtaZipSummary),
    Payload(PayloadHeader),
    Elf(ElfHeader),
    Dtb(DtbHeader),
    Btf(BtfHeader),
    Sparse(SparseHeader),
    XblConfig(XblConfigSummary),
}

/// Which analysis an input is handed to.
pub enum InputRoute {
    OtaZip,
    Payload,
    Elf,
    Dtb,
    Btf,
    Sparse,
    XblConfig,
    Empty,
    Image,
}

/// The analysis that `s` is handed to, by the first test that it passes:
/// container magic, ELF, DTB, BTF and sparse magic, an `xbl_config` marker
/// anywhere; an empty input is refused, and anything else is analyzed as an
/// Android image or a raw kernel.
pub open spec fn input_route(s: Seq<u8>) -> InputRoute {
    if container_kind(s) == Ok::<ContainerKind, UkaError>(ContainerKind::OtaZip) {
        InputRoute::OtaZip
    } else if container_kind(s) == Ok::<ContainerKind, UkaError>(ContainerKind::PayloadBin) {
        InputRoute::Payload
    } else if starts_with(s, elf_magic()) {
        InputRoute::Elf
    } else if starts_with(s, dtb_magic()) {
        InputRoute::Dtb
    } else if starts_with(s, btf_magic()) {
        InputRoute::Btf
    } else if starts_with(s, sparse_magic()) {
        InputRoute::Sparse
    } else if find_from(s, xbl_config_magic(), 0) is Some {
        InputRoute::XblConfig
    } else if s.len() == 0 {
        InputRoute::Empty
    } else {
        InputRoute::Image
    }
}

/// What [`analyze_input`] returns for `s`: the result of the analysis that
/// [`input_route`] picks, wrapped in the matching variant.
pub open spec fn analyze_input_result(s: Seq<u8>, r: Result<AnalysisResult, UkaError>) -> bool {
    match input_route(s) {
        InputRoute::OtaZip => match spec_inspect_ota_zip(s) {
            Ok(h) => r == Ok::<AnalysisResult, UkaError>(AnalysisResult::OtaZip(h)),
            Err(e) => r == Err::<AnalysisResult, UkaError>(e),
        },
        InputRoute::Payload => match spec_parse_payload_header(s) {
            Ok(h) => r == Ok::<AnalysisResult, UkaError>(AnalysisResult::Payload(h)),
            Err(e) => r == Err::<AnalysisResult, UkaError>(e),
        },
        InputRoute::Elf => match spec_parse_elf_header(s) {
            Ok(h) => r == Ok::<AnalysisResult, UkaError>(AnalysisResult::Elf(h)),
            Err(e) => r == Err::<AnalysisResult, UkaError>(e),
        },
        InputRoute::Dtb => match spec_parse_dtb_header(s) {
            Ok(h) => r == Ok::<AnalysisResult, UkaError>(AnalysisResult::Dtb(h)),
            Err(e) => r == Err::<AnalysisResult, UkaError>(e),
        },
        InputRoute::Btf => match spec_parse_btf_header(s) {
            Ok(h) => r == Ok::<AnalysisResult, UkaError>(AnalysisResult::Btf(h)),
            Err(e) => r == Err::<AnalysisResult, UkaError>(e),
        },
        InputRoute::Sparse => match spec_parse_sparse_header(s) {
            Ok(h) => r == Ok::<AnalysisResult, UkaError>(AnalysisResult::Sparse(h)),
            Err(e) => r == Err::<AnalysisResult, UkaError>(e),
        },
        InputRoute::XblConfig => r == Ok::<AnalysisResult, UkaError>(
            AnalysisResult::XblConfig(
                XblConfigSummary {
                    size: s.len() as usize,
                    printable_strings: printable_string_count(s) as usize,
                    has_null_padding: s.contains(0u8),
                },
            ),
        ),
        InputRoute::Empty => r == Err::<AnalysisResult, UkaError>(UkaError::EmptyInput),
        InputRoute::Image => match r {
            Ok(AnalysisResult::Image(rep)) => report_error(s) is None && is_report_of(s, rep),
            Ok(_) => false,
            Err(e) => report_error(s) == Some(e),
        },
    }
}

/// The result for an input routed to a container or header parse; `None` for
/// the other routes.
fn analyze_container_or_header(data: &[u8]) -> (r: Option<Result<AnalysisResult, UkaError>>)
    ensures
        match r {
            Some(x) => analyze_input_result(data@, x),
            None => !(input_route(data@) is OtaZip || input_route(data@) is Payload || input_route(
                data@,
            ) is Elf || input_route(data@) is Dtb || input_route(data@) is Btf || input_route(
                data@,
            ) is Sparse),
        },
{
    match detect_container_kind(data) {
        Ok(ContainerKind::OtaZip) => {
            return Some(
                match inspect_ota_zip(data) {
                    Ok(summary) => Ok(AnalysisResult::OtaZip(summary)),
                    Err(e) => Err(e),
                },
            );
        },
        Ok(ContainerKind::PayloadBin) => {
            return Some(
                match parse_payload_header(data) {
                    Ok(header) => Ok(AnalysisResult::Payload(header)),
                    Err(e) => Err(e),
                },
            );
        },
        Err(_) => {},
    }
    if has_elf_magic(data, 0) {
        return Some(
            match parse_elf_header(data) {
                Ok(header) => Ok(AnalysisResult::Elf(header)),
                Err(e) => Err(e),
            },
        );
    }
    if has_dtb_magic(data, 0) {
        return Some(
            match parse_dtb_header(data) {
                Ok(header) => Ok(AnalysisResult::Dtb(header)),
                Err(e) => Err(e),
            },
        );
    }
    if has_btf_magic(data, 0) {
        return Some(
            match parse_btf_header(data) {
                Ok(header) => Ok(AnalysisResult::Btf(header)),
                Err(e) => Err(e),
            },
        );
    }
    if has_sparse_magic(data, 0) {
        return Some(
            match parse_sparse_header(data) {
                Ok(header) => Ok(AnalysisResult::Sparse(header)),
                Err(e) => Err(e),
            },
        );
    }
    None
}

/// Recognizes the kind of an input and analyzes it read-only.
pub fn analyze_input(data: &[u8]) -> (r: Result<AnalysisResult, UkaError>)
    ensures
        analyze_input_result(data@, r),
{
    match analyze_container_or_header(data) {
        Some(result) => return result,
        None => {},
    }
    let marker: [u8; 10] = [0x78, 0x62, 0x6c, 0x5f, 0x63, 0x6f, 0x6e, 0x66, 0x69, 0x67];
    assert(marker@ =~= xbl_config_magic());
    if find_pattern(data, &marker).is_some() {
        assert(data@.len() > 0);
        return match inspect_xbl_config(data) {
            Ok(summary) => Ok(AnalysisResult::XblConfig(summary)),
            Err(e) => Err(e),
        };
    }
    if data.len() == 0 {
        return Err(UkaError::EmptyInput);
    }
    match analyze_image(data) {
        Ok(report) => Ok(AnalysisResult::Image(report)),
        Err(e) => Err(e),
    }
}

/// Input with none of the container, ELF, DTB, BTF or sparse magics at its
/// start and no `xbl_config` marker is analyzed as an Android image or raw
/// kernel: when it is empty it is refused as such, and otherwise the result is
/// exactly the report that [`analyze_image`] makes of it, or its error.
pub proof fn lemma_unrecognized_input_is_analyzed_as_image(
    s: Seq<u8>,
    r: Result<AnalysisResult, UkaError>,
)
    requires
        analyze_input_result(s, r),
        !starts_with(s, payload_magic()),
        !starts_with(s, zip_local_magic()),
        !starts_with(s, zip_end_magic()),
        !starts_with(s, zip_spanned_magic()),
        !starts_with(s, elf_magic()),
        !starts_with(s, dtb_magic()),
        !starts_with(s, btf_magic()),
        !starts_with(s, sparse_magic()),
        find_from(s, xbl_config_magic(), 0) is None,
    ensures
        s.len() == 0 ==> r == Err::<AnalysisResult, UkaError>(UkaError::EmptyInput),
        s.len() > 0 ==> (r is Ok <==> report_error(s) is None),
        s.len() > 0 ==> (r matches Ok(x) ==> x matches AnalysisResult::Image(rep) && is_report_of(
            s,
            rep,
        )),
        s.len() > 0 ==> (r matches Err(e) ==> report_error(s) == Some(e)),
{
}

} // verus!
