use vstd::prelude::*;
use vstd::slice::slice_to_vec;
use crate::boot::{
    boot_error, boot_kernel_addr, boot_kernel_size, boot_page_size, is_boot_image_of,
    parse_boot_image,
};
use crate::bytes::starts_with;
use crate::error::UkaError;
use crate::init_boot::{init_boot_error, init_ramdisk_size, parse_init_boot_image};
use crate::magic::{
    android_magic, gzip_magic, has_android_magic, has_gzip_magic, has_lz4_frame_magic,
    has_lz4_legacy_magic, has_lzop_magic, has_vendor_boot_magic, has_xz_magic, has_zstd_magic,
    lz4_frame_magic, lz4_legacy_magic, lzop_magic, vendor_boot_magic, xz_magic, zstd_magic,
};
use crate::model::{CompressionKind, ExtractedKernel, ImageKind, KernelImage};
use crate::outside_calls::{gzip_decode, gzip_decoded};
use crate::vendor_boot::{parse_vendor_boot_image, vendor_boot_error};

verus! {

/// The compression that the leading magic of `s` names.
pub open spec fn spec_compression(s: Seq<u8>) -> CompressionKind {
    if starts_with(s, gzip_magic()) {
        CompressionKind::Gzip
    } else if starts_with(s, xz_magic()) {
        CompressionKind::Xz
    } else if starts_with(s, lz4_legacy_magic()) || starts_with(s, lz4_frame_magic()) {
        CompressionKind::Lz4
    } else if starts_with(s, lzop_magic()) {
        CompressionKind::Lzop
    } else if starts_with(s, zstd_magic()) {
        CompressionKind::Zstd
    } else {
        CompressionKind::Uncompressed
    }
}

/// Names the compression of a kernel payload by its leading magic.
pub fn detect_compression(data: &[u8]) -> (c: CompressionKind)
    ensures
        c == spec_compression(data@),
{
    if has_gzip_magic(data, 0) {
        CompressionKind::Gzip
    } else if has_xz_magic(data, 0) {
        CompressionKind::Xz
    } else if has_lz4_legacy_magic(data, 0) || has_lz4_frame_magic(data, 0) {
        CompressionKind::Lz4
    } else if has_lzop_magic(data, 0) {
        CompressionKind::Lzop
    } else if has_zstd_magic(data, 0) {
        CompressionKind::Zstd
    } else {
        CompressionKind::Uncompressed
    }
}

/// A kernel payload as plain values.
pub struct ExtractedKernelView {
    pub source: ImageKind,
    pub data: Seq<u8>,
    pub source_offset: Option<u64>,
    pub compression: CompressionKind,
}

impl View for ExtractedKernel {
    type V = ExtractedKernelView;

    open spec fn view(&self) -> ExtractedKernelView {
        ExtractedKernelView {
            source: self.source,
            data: self.data@,
            source_offset: self.source_offset,
            compression: self.compression,
        }
    }
}

/// The kernel payload of `s`, or why there is none: a boot image yields its
/// kernel; an `ANDROID!` image that is no boot image must be an init_boot image
/// without a ramdisk, which yields an empty payload; a vendor_boot image never
/// yields one; any other input of at least 8 bytes is a raw kernel.
pub open spec fn spec_extract_kernel(s: Seq<u8>) -> Result<ExtractedKernelView, UkaError> {
    if s.len() < 8 {
        Err(UkaError::TooSmall)
    } else if s.subrange(0, 8) == android_magic() {
        if boot_error(s) is None {
            let page = boot_page_size(s);
            let data = s.subrange(page as int, page + boot_kernel_size(s));
            Ok(
                ExtractedKernelView {
                    source: crate::boot::boot_kind_of_version(crate::boot::boot_header_version(s)),
                    data,
                    source_offset: Some(boot_kernel_addr(s) as u64),
                    compression: spec_compression(data),
                },
            )
        } else if init_boot_error(s) is Some {
            Err(init_boot_error(s).unwrap())
        } else if init_ramdisk_size(s) != 0 {
            Err(UkaError::NoKernelPayload)
        } else {
            Ok(
                ExtractedKernelView {
                    source: ImageKind::InitBoot,
                    data: Seq::empty(),
                    source_offset: None,
                    compression: CompressionKind::Uncompressed,
                },
            )
        }
    } else if s.subrange(0, 8) == vendor_boot_magic() {
        if vendor_boot_error(s) is Some {
            Err(vendor_boot_error(s).unwrap())
        } else {
            Err(UkaError::NoKernelPayload)
        }
    } else {
        Ok(
            ExtractedKernelView {
                source: ImageKind::RawKernel,
                data: s,
                source_offset: Some(0),
                compression: spec_compression(s),
            },
        )
    }
}

/// Takes the kernel payload out of a boot image, or the whole input as a raw
/// kernel.
pub fn extract_kernel(data: &[u8]) -> (r: Result<ExtractedKernel, UkaError>)
    ensures
        match r {
            Ok(k) => spec_extract_kernel(data@) == Ok::<ExtractedKernelView, UkaError>(k@),
            Err(e) => spec_extract_kernel(data@) == Err::<ExtractedKernelView, UkaError>(e),
        },
{
    if data.len() < 8 {
        return Err(UkaError::TooSmall);
    }
    if has_android_magic(data, 0) {
        match parse_boot_image(data) {
            Ok(image) => {
                let compression = detect_compression(image.kernel.as_slice());
                return Ok(
                    ExtractedKernel {
                        source: image.kind,
                        data: image.kernel,
                        source_offset: image.kernel_offset,
                        compression,
                    },
                );
            },
            Err(_) => {},
        }
        let init = parse_init_boot_image(data)?;
        if init.ramdisk.len() != 0 {
            return Err(UkaError::NoKernelPayload);
        }
        let empty: Vec<u8> = Vec::new();
        assert(empty@ =~= Seq::<u8>::empty());
        return Ok(
            ExtractedKernel {
                source: ImageKind::InitBoot,
                data: empty,
                source_offset: None,
                compression: CompressionKind::Uncompressed,
            },
        );
    }
    if has_vendor_boot_magic(data, 0) {
        let _image = parse_vendor_boot_image(data)?;
        return Err(UkaError::NoKernelPayload);
    }
    Ok(
        ExtractedKernel {
            source: ImageKind::RawKernel,
            data: slice_to_vec(data),
            source_offset: Some(0),
            compression: detect_compression(data),
        },
    )
}

/// The bytes to analyze for a payload of `data` in `compression`: gzip
/// payloads are decoded; payloads in a compression without a decoder here are
/// analyzed as stored.
pub open spec fn spec_decompress(data: Seq<u8>, compression: CompressionKind) -> Result<
    Seq<u8>,
    UkaError,
> {
    if compression == CompressionKind::Gzip {
        match gzip_decoded(data) {
            Some(out) => Ok(out),
            None => Err(UkaError::Decompression),
        }
    } else {
        Ok(data)
    }
}

/// Decompresses a kernel payload where a decoder is available.
pub fn decompress_kernel(data: &[u8], compression: &CompressionKind) -> (r: Result<
    Vec<u8>,
    UkaError,
>)
    ensures
        match r {
            Ok(out) => spec_decompress(data@, *compression) == Ok::<Seq<u8>, UkaError>(out@),
            Err(e) => spec_decompress(data@, *compression) == Err::<Seq<u8>, UkaError>(e),
        },
{
    match compression {
        CompressionKind::Gzip => match gzip_decode(data) {
            Ok(out) => Ok(out),
            Err(_) => Err(UkaError::Decompression),
        },
        _ => Ok(slice_to_vec(data)),
    }
}

/// The kernel taken out of a boot image is the one that parsing the image
/// yields: the same bytes, from the same offset, under the same kind.
pub proof fn lemma_extracted_kernel_is_parsed_kernel(s: Seq<u8>, img: KernelImage)
    requires
        boot_error(s) is None,
        is_boot_image_of(s, img),
    ensures
        spec_extract_kernel(s) matches Ok(k) && k.data == img.kernel@ && k.source == img.kind
            && k.source_offset == img.kernel_offset && k.compression == spec_compression(
            img.kernel@,
        ),
{
}

} // verus!
