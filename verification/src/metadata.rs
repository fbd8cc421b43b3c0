use vstd::prelude::*;
use vstd::slice::{slice_subrange, slice_to_vec};
use vstd::utf8::valid_utf8;
use crate::bytes::{fits, holds_at, le_u16, le_u32, le_u64, read_u16_le, read_u32_le, read_u64_le};
use crate::magic::{
    clang_banner_magic, elf_magic, gcc_banner_magic, gnu_magic, has_elf_magic, has_gnu_magic,
    linux_banner_magic,
};
use crate::outside_calls::str_from_utf8;
use crate::text::{
    all_ascii, ascii_chars, find_from, find_pattern, lemma_find_from_bounds, find_word_end, is_word_end, string_from_ascii,
    word_end_from,
};

verus! {

/// Facts about a kernel image read from its embedded strings and headers.
#[derive(Debug, Clone)]
pub struct KernelMetadata {
    pub release: Option<String>,
    pub build_id: Option<String>,
    pub compiler: Option<String>,
    pub architecture: Option<String>,
    pub compression: Option<String>,
    pub btf_present: bool,
}

/// The view of an optional string.
pub open spec fn opt_string_view(o: Option<String>) -> Option<Seq<char>> {
    match o {
        Some(s) => Some(s@),
        None => None,
    }
}

/// The architecture that the first bytes of `s` name: AArch64 and 32-bit ARM
/// little-endian ELF files by their machine field, any other ELF as `elf`, and
/// the magic `d0 0b b0 0d` as an ARM64 image or container.
pub open spec fn spec_architecture(s: Seq<u8>) -> Option<Seq<char>> {
    if s.len() >= 20 && s.subrange(0, 4) == elf_magic() {
        if s[4] == 2 && s[5] == 1 && s[18] == 0xb7 && s[19] == 0 {
            Some("aarch64"@)
        } else if s[4] == 1 && s[5] == 1 && s[18] == 0x28 && s[19] == 0 {
            Some("arm"@)
        } else {
            Some("elf"@)
        }
    } else if s.len() >= 4 && s[0] == 0xd0 && s[1] == 0x0b && s[2] == 0xb0 && s[3] == 0x0d {
        Some("arm64-image-or-container"@)
    } else {
        None
    }
}

/// Names the architecture of a kernel image from its leading bytes.
pub fn detect_architecture(kernel: &[u8]) -> (r: Option<&'static str>)
    ensures
        match r {
            Some(a) => spec_architecture(kernel@) == Some(a@),
            None => spec_architecture(kernel@) is None,
        },
{
    if kernel.len() >= 20 && has_elf_magic(kernel, 0) {
        let class = kernel[4];
        let data = kernel[5];
        if class == 2 && data == 1 && kernel[18] == 0xb7 && kernel[19] == 0 {
            return Some("aarch64");
        }
        if class == 1 && data == 1 && kernel[18] == 0x28 && kernel[19] == 0 {
            return Some("arm");
        }
        return Some("elf");
    }
    if kernel.len() >= 4 && kernel[0] == 0xd0 && kernel[1] == 0x0b && kernel[2] == 0xb0
        && kernel[3] == 0x0d {
        return Some("arm64-image-or-container");
    }
    None
}

/// An ASCII decimal digit.
pub open spec fn is_digit(b: u8) -> bool {
    0x30 <= b <= 0x39
}

/// A byte that may stand in a kernel release: ASCII letters and digits and
/// `.`, `-`, `+`, `_`, `~`.
pub open spec fn is_release_byte(b: u8) -> bool {
    is_digit(b) || (0x41 <= b <= 0x5a) || (0x61 <= b <= 0x7a) || b == 0x2e || b == 0x2d || b
        == 0x2b || b == 0x5f || b == 0x7e
}

/// The position of the first `-` in `r` at or after `i`, or the length of `r`.
pub open spec fn dash_from(r: Seq<u8>, i: int) -> int
    decreases r.len() - i,
{
    if i < 0 || i >= r.len() {
        r.len() as int
    } else if r[i] == 0x2d {
        i
    } else {
        dash_from(r, i + 1)
    }
}

/// The part of a release before its first `-`.
pub open spec fn version_core(r: Seq<u8>) -> Seq<u8> {
    r.subrange(0, dash_from(r, 0))
}

/// A version core of at least two non-empty, dot-separated groups of digits.
pub open spec fn valid_version_core(c: Seq<u8>) -> bool {
    &&& c.len() > 0
    &&& c[0] != 0x2e
    &&& c[c.len() - 1] != 0x2e
    &&& exists|i: int| 0 <= i < c.len() && #[trigger] c[i] == 0x2e
    &&& forall|i: int| 0 <= i < c.len() ==> is_digit(#[trigger] c[i]) || c[i] == 0x2e
    &&& forall|i: int| 0 <= i < c.len() - 1 ==> !(#[trigger] c[i] == 0x2e && c[i + 1] == 0x2e)
}

/// Where the release word after the first `Linux version ` banner lies: it
/// runs up to the next space, NUL or newline, or to the end of the input.
pub open spec fn release_span(s: Seq<u8>) -> Option<(int, int)> {
    match find_from(s, linux_banner_magic(), 0) {
        None => None,
        Some(p) => {
            let start = p + linux_banner_magic().len();
            match word_end_from(s, start) {
                None => Some((start, s.len() as int)),
                Some(end) => Some((start, end)),
            }
        },
    }
}

/// The kernel release of `s`: the word after the first `Linux version `
/// banner, when it is non-empty, holds only release bytes and begins with a
/// valid version core.
pub open spec fn spec_detect_release(s: Seq<u8>) -> Option<Seq<char>> {
    match release_span(s) {
        None => None,
        Some((start, end)) => {
            let r = s.subrange(start, end);
            if end > start && valid_version_core(version_core(r)) && (forall|i: int|
                0 <= i < r.len() ==> is_release_byte(#[trigger] r[i])) {
                Some(ascii_chars(r))
            } else {
                None
            }
        },
    }
}

fn is_valid_version_core(c: &[u8]) -> (b: bool)
    ensures
        b == valid_version_core(c@),
{
    if c.len() == 0 {
        return false;
    }
    let mut has_dot = false;
    let mut i: usize = 0;
    while i < c.len()
        invariant
            c@.len() > 0,
            i <= c@.len(),
            has_dot == exists|j: int| 0 <= j < i && #[trigger] c@[j] == 0x2e,
            forall|j: int| 0 <= j < i ==> is_digit(#[trigger] c@[j]) || c@[j] == 0x2e,
            forall|j: int| 0 <= j < i - 1 ==> !(#[trigger] c@[j] == 0x2e && c@[j + 1] == 0x2e),
        decreases c@.len() - i,
    {
        let b = c[i];
        if b == 0x2e {
            if i > 0 && c[i - 1] == 0x2e {
                assert(c@[i - 1] == 0x2e && c@[i as int] == 0x2e);
                return false;
            }
            has_dot = true;
        } else if !(0x30 <= b && b <= 0x39) {
            assert(!(is_digit(c@[i as int]) || c@[i as int] == 0x2e));
            return false;
        }
        i += 1;
    }
    has_dot && c[0] != 0x2e && c[c.len() - 1] != 0x2e
}

fn first_dash(r: &[u8]) -> (k: usize)
    ensures
        k == dash_from(r@, 0),
{
    let mut i: usize = 0;
    while i < r.len()
        invariant
            i <= r@.len(),
            dash_from(r@, i as int) == dash_from(r@, 0),
        decreases r@.len() - i,
    {
        if r[i] == 0x2d {
            return i;
        }
        i += 1;
    }
    i
}

proof fn lemma_dash_bounded(r: Seq<u8>, i: int)
    requires
        0 <= i <= r.len(),
    ensures
        i <= dash_from(r, i) <= r.len(),
    decreases r.len() - i,
{
    if i < r.len() && r[i] != 0x2d {
        lemma_dash_bounded(r, i + 1);
    }
}

fn all_release_bytes(r: &[u8]) -> (b: bool)
    ensures
        b == forall|i: int| 0 <= i < r@.len() ==> is_release_byte(#[trigger] r@[i]),
{
    let mut i: usize = 0;
    while i < r.len()
        invariant
            i <= r@.len(),
            forall|j: int| 0 <= j < i ==> is_release_byte(#[trigger] r@[j]),
        decreases r@.len() - i,
    {
        let b = r[i];
        if !((0x30 <= b && b <= 0x39) || (0x41 <= b && b <= 0x5a) || (0x61 <= b && b <= 0x7a)
            || b == 0x2e || b == 0x2d || b == 0x2b || b == 0x5f || b == 0x7e) {
            assert(!is_release_byte(r@[i as int]));
            return false;
        }
        i += 1;
    }
    true
}

/// Extracts the Linux release from an embedded version banner.
pub fn detect_release(kernel: &[u8]) -> (r: Option<String>)
    ensures
        opt_string_view(r) == spec_detect_release(kernel@),
{
    let prefix: [u8; 14] = [
        0x4c, 0x69, 0x6e, 0x75, 0x78, 0x20, 0x76, 0x65, 0x72, 0x73, 0x69, 0x6f, 0x6e, 0x20,
    ];
    assert(prefix@ =~= linux_banner_magic());
    let position = match find_pattern(kernel, &prefix) {
        Some(p) => p,
        None => return None,
    };
    assert(holds_at(kernel@, position as int, linux_banner_magic()));
    assert(kernel@.len() == kernel.len());
    let start = position + 14;
    let end = match find_word_end(kernel, start) {
        Some(e) => e,
        None => kernel.len(),
    };
    proof {
        lemma_word_end_after(kernel@, start as int);
    }
    if end == start {
        return None;
    }
    let release = slice_subrange(kernel, start, end);
    let core_end = first_dash(release);
    proof {
        lemma_dash_bounded(release@, 0);
    }
    let core = slice_subrange(release, 0, core_end);
    if !is_valid_version_core(core) {
        return None;
    }
    if !all_release_bytes(release) {
        return None;
    }
    assert(all_ascii(release@));
    Some(string_from_ascii(release))
}

proof fn lemma_word_end_after(s: Seq<u8>, from: int)
    ensures
        word_end_from(s, from) matches Some(e) ==> from <= e < s.len() && is_word_end(s[e]),
    decreases s.len() - from,
{
    if 0 <= from < s.len() && !is_word_end(s[from]) {
        lemma_word_end_after(s, from + 1);
    }
}

/// An ASCII graphic byte.
pub open spec fn is_graphic(b: u8) -> bool {
    0x21 <= b <= 0x7e
}

/// Every byte of `c` is ASCII graphic.
pub open spec fn all_graphic(c: Seq<u8>) -> bool {
    forall|i: int| 0 <= i < c.len() ==> is_graphic(#[trigger] c[i])
}

/// What the word after the first `pat` banner says of the compiler: `None` when
/// there is no banner or the word is empty or not all graphic ASCII (the next
/// banner is tried), `Some(None)` when it is not valid UTF-8 (the search stops),
/// and `Some(Some(word))` when it is the compiler version. The word runs up to
/// the next space, NUL or newline, or to the end.
pub open spec fn compiler_probe(s: Seq<u8>, pat: Seq<u8>) -> Option<Option<Seq<u8>>> {
    match find_from(s, pat, 0) {
        None => None,
        Some(p) => {
            let start = p + pat.len();
            let end = match word_end_from(s, start) {
                Some(e) => e,
                None => s.len() as int,
            };
            let c = s.subrange(start, end);
            if end == start {
                None
            } else if !valid_utf8(c) {
                Some(None)
            } else if all_graphic(c) {
                Some(Some(c))
            } else {
                None
            }
        },
    }
}

/// The compiler version after `gcc version `, else after `clang version `.
pub open spec fn spec_detect_compiler(s: Seq<u8>) -> Option<Seq<char>> {
    match compiler_probe(s, gcc_banner_magic()) {
        Some(Some(c)) => Some(ascii_chars(c)),
        Some(None) => None,
        None => match compiler_probe(s, clang_banner_magic()) {
            Some(Some(c)) => Some(ascii_chars(c)),
            _ => None,
        },
    }
}

fn probe_compiler(kernel: &[u8], prefix: &[u8]) -> (r: Option<Option<String>>)
    ensures
        match r {
            None => compiler_probe(kernel@, prefix@) is None,
            Some(None) => compiler_probe(kernel@, prefix@) == Some(None::<Seq<u8>>),
            Some(Some(c)) => compiler_probe(kernel@, prefix@) matches Some(Some(w)) && c@
                == ascii_chars(w),
        },
{
    let position = match find_pattern(kernel, prefix) {
        Some(p) => p,
        None => return None,
    };
    assert(holds_at(kernel@, position as int, prefix@));
    assert(kernel@.len() == kernel.len());
    let start = position + prefix.len();
    proof {
        lemma_word_end_after(kernel@, start as int);
    }
    let end = match find_word_end(kernel, start) {
        Some(e) => e,
        None => kernel.len(),
    };
    if end == start {
        return None;
    }
    let word = slice_subrange(kernel, start, end);
    assert(word@ == kernel@.subrange(start as int, end as int));
    if str_from_utf8(word).is_err() {
        return Some(None);
    }
    assert(valid_utf8(word@));
    let ghost expected = compiler_probe(kernel@, prefix@);
    proof {
        let spec_end = match word_end_from(kernel@, start as int) {
            Some(e) => e,
            None => kernel@.len() as int,
        };
        assert(spec_end == end);
    }
    let mut i: usize = 0;
    while i < word.len()
        invariant
            expected == compiler_probe(kernel@, prefix@),
            expected == (if all_graphic(word@) {
                Some(Some(word@))
            } else {
                None
            }),
            i <= word@.len(),
            forall|j: int| 0 <= j < i ==> is_graphic(#[trigger] word@[j]),
        decreases word@.len() - i,
    {
        if !(0x21 <= word[i] && word[i] <= 0x7e) {
            assert(!is_graphic(word@[i as int]));
            return None;
        }
        i += 1;
    }
    assert(all_ascii(word@));
    Some(Some(string_from_ascii(word)))
}

/// Extracts a compiler identifier from a Linux kernel's embedded build strings.
pub fn detect_compiler(kernel: &[u8]) -> (r: Option<String>)
    ensures
        opt_string_view(r) == spec_detect_compiler(kernel@),
{
    let gcc: [u8; 12] = [0x67, 0x63, 0x63, 0x20, 0x76, 0x65, 0x72, 0x73, 0x69, 0x6f, 0x6e, 0x20];
    assert(gcc@ =~= gcc_banner_magic());
    match probe_compiler(kernel, &gcc) {
        Some(Some(c)) => return Some(c),
        Some(None) => return None,
        None => {},
    }
    let clang: [u8; 14] = [
        0x63, 0x6c, 0x61, 0x6e, 0x67, 0x20, 0x76, 0x65, 0x72, 0x73, 0x69, 0x6f, 0x6e, 0x20,
    ];
    assert(clang@ =~= clang_banner_magic());
    match probe_compiler(kernel, &clang) {
        Some(Some(c)) => Some(c),
        _ => None,
    }
}

/// `v` rounded up to a multiple of 4.
pub open spec fn align4(v: int) -> int {
    (v + 3) - (v + 3) % 4
}

/// The NT_GNU_BUILD_ID descriptor found by walking the notes from `cursor` to
/// `end`: `None` when the notes run out, `Some(None)` when a note does not fit
/// (the search stops), `Some(Some(desc))` at the first note of type 3 owned by
/// `GNU` with a non-empty descriptor.
pub open spec fn note_scan(s: Seq<u8>, cursor: int, end: int) -> Option<Option<Seq<u8>>>
    decreases end - cursor,
{
    if cursor + 12 > usize::MAX {
        Some(None)
    } else if cursor + 12 > end {
        None
    } else {
        let namesz = le_u32(s, cursor);
        let descsz = le_u32(s, cursor + 4);
        let note_type = le_u32(s, cursor + 8);
        let name = cursor + 12;
        if namesz + 3 > usize::MAX || descsz + 3 > usize::MAX {
            Some(None)
        } else if name + align4(namesz as int) > usize::MAX {
            Some(None)
        } else if name + align4(namesz as int) + align4(descsz as int) > usize::MAX {
            Some(None)
        } else if name + align4(namesz as int) + align4(descsz as int) > end {
            Some(None)
        } else if note_type == 3 && namesz >= 3 && holds_at(s, name, gnu_magic()) && descsz > 0 {
            let desc = name + align4(namesz as int);
            if fits(s, desc, descsz as int) {
                Some(Some(s.subrange(desc, desc + descsz)))
            } else {
                Some(None)
            }
        } else {
            note_scan(s, name + align4(namesz as int) + align4(descsz as int), end)
        }
    }
}

/// The size of one program header of an ELF class.
pub open spec fn phdr_size(class: u8) -> int {
    if class == 1 {
        32
    } else {
        56
    }
}

/// The build ID found by walking the program headers from `index` on: each
/// PT_NOTE segment inside the image has its notes walked; a header or segment
/// that does not fit stops the search.
#[verifier::opaque]
pub open spec fn phdr_scan(
    s: Seq<u8>,
    class: u8,
    phoff: u64,
    phentsize: u64,
    phnum: u64,
    index: int,
) -> Option<Seq<u8>>
    decreases phnum - index,
{
    if index < 0 || index >= phnum {
        None
    } else if index * phentsize > u64::MAX || phoff + index * phentsize > u64::MAX {
        None
    } else if phoff + index * phentsize + phdr_size(class) > u64::MAX {
        None
    } else if phoff + index * phentsize + phdr_size(class) > s.len() {
        None
    } else {
        let entry = phoff + index * phentsize;
        if le_u32(s, entry) != 4 {
            phdr_scan(s, class, phoff, phentsize, phnum, index + 1)
        } else {
            let note_offset = if class == 1 {
                le_u32(s, entry + 4) as int
            } else {
                le_u64(s, entry + 8) as int
            };
            let note_size = if class == 1 {
                le_u32(s, entry + 16) as int
            } else {
                le_u64(s, entry + 32) as int
            };
            if note_offset + note_size > u64::MAX || note_offset + note_size > s.len() {
                None
            } else {
                match note_scan(s, note_offset, note_offset + note_size) {
                    Some(found) => found,
                    None => phdr_scan(s, class, phoff, phentsize, phnum, index + 1),
                }
            }
        }
    }
}

/// The GNU build ID descriptor of a little-endian ELF image: the program
/// header table must be readable and its entries at least as large as the
/// class's program header.
pub open spec fn build_id_bytes(s: Seq<u8>) -> Option<Seq<u8>> {
    if s.len() < 20 || s.subrange(0, 4) != elf_magic() || s[5] != 1 {
        None
    } else if s[4] == 1 {
        if !fits(s, 28, 4) || !fits(s, 42, 2) || !fits(s, 44, 2) || le_u16(s, 42) < 32 {
            None
        } else {
            phdr_scan(s, 1, le_u32(s, 28) as u64, le_u16(s, 42) as u64, le_u16(s, 44) as u64, 0)
        }
    } else if s[4] == 2 {
        if !fits(s, 32, 8) || !fits(s, 54, 2) || !fits(s, 56, 2) || le_u16(s, 54) < 56 {
            None
        } else {
            phdr_scan(s, 2, le_u64(s, 32), le_u16(s, 54) as u64, le_u16(s, 56) as u64, 0)
        }
    } else {
        None
    }
}

/// The lowercase hexadecimal digit for `n` (0 to 15).
pub open spec fn hex_digit(n: int) -> u8 {
    if n < 10 {
        (0x30 + n) as u8
    } else {
        (0x61 + n - 10) as u8
    }
}

/// The lowercase hexadecimal text of `d`, two digits per byte.
pub open spec fn hex_bytes(d: Seq<u8>) -> Seq<u8> {
    Seq::new(
        (2 * d.len()) as nat,
        |i: int|
            hex_digit(
                if i % 2 == 0 {
                    (d[i / 2] / 16) as int
                } else {
                    (d[i / 2] % 16) as int
                },
            ),
    )
}

/// The GNU build ID of `s` in lowercase hexadecimal.
pub open spec fn spec_detect_build_id(s: Seq<u8>) -> Option<Seq<char>> {
    match build_id_bytes(s) {
        Some(d) => Some(ascii_chars(hex_bytes(d))),
        None => None,
    }
}

fn hex_digit_of(n: u8) -> (r: u8)
    requires
        n < 16,
    ensures
        r == hex_digit(n as int),
        r < 0x80,
{
    if n < 10 {
        0x30 + n
    } else {
        0x61 + n - 10
    }
}

fn to_hex(d: &[u8]) -> (r: String)
    ensures
        r@ == ascii_chars(hex_bytes(d@)),
{
    let mut out: Vec<u8> = Vec::new();
    let mut i: usize = 0;
    while i < d.len()
        invariant
            i <= d@.len(),
            out@.len() == 2 * i,
            forall|j: int| 0 <= j < 2 * i ==> #[trigger] out@[j] == hex_bytes(d@)[j],
        decreases d@.len() - i,
    {
        let b = d[i];
        out.push(hex_digit_of(b / 16));
        out.push(hex_digit_of(b % 16));
        i += 1;
    }
    assert(out@ =~= hex_bytes(d@));
    assert(all_ascii(out@)) by {
        assert forall|j: int| 0 <= j < out@.len() implies #[trigger] out@[j] < 0x80 by {
            let n: int = if j % 2 == 0 {
                (d@[j / 2] / 16) as int
            } else {
                (d@[j / 2] % 16) as int
            };
            assert(0 <= n < 16);
        }
    }
    string_from_ascii(out.as_slice())
}

fn align4_checked(value: usize) -> (r: Option<usize>)
    ensures
        match r {
            Some(v) => value + 3 <= usize::MAX && v == align4(value as int),
            None => value + 3 > usize::MAX,
        },
{
    match value.checked_add(3) {
        Some(t) => Some(t - t % 4),
        None => None,
    }
}

proof fn lemma_align4(v: int)
    requires
        v >= 0,
    ensures
        v <= align4(v) <= v + 3,
{
}

fn scan_notes(kernel: &[u8], start: usize, end: usize) -> (r: Option<Option<Vec<u8>>>)
    requires
        start <= end <= kernel@.len(),
    ensures
        match r {
            None => note_scan(kernel@, start as int, end as int) is None,
            Some(None) => note_scan(kernel@, start as int, end as int) == Some(None::<Seq<u8>>),
            Some(Some(d)) => note_scan(kernel@, start as int, end as int) == Some(Some(d@)),
        },
{
    let mut cursor = start;
    loop
        invariant
            cursor <= end <= kernel@.len(),
            note_scan(kernel@, cursor as int, end as int) == note_scan(
                kernel@,
                start as int,
                end as int,
            ),
        decreases end - cursor,
    {
        let header_end = match cursor.checked_add(12) {
            Some(v) => v,
            None => return Some(None),
        };
        if header_end > end {
            return None;
        }
        let namesz = read_u32_le(kernel, cursor).unwrap() as usize;
        let descsz = read_u32_le(kernel, cursor + 4).unwrap() as usize;
        let note_type = read_u32_le(kernel, cursor + 8).unwrap();
        let name = header_end;
        let name_padded = match align4_checked(namesz) {
            Some(v) => v,
            None => return Some(None),
        };
        let desc_padded = match align4_checked(descsz) {
            Some(v) => v,
            None => return Some(None),
        };
        proof {
            lemma_align4(namesz as int);
            lemma_align4(descsz as int);
        }
        let desc_start = match name.checked_add(name_padded) {
            Some(v) => v,
            None => return Some(None),
        };
        let desc_end = match desc_start.checked_add(desc_padded) {
            Some(v) => v,
            None => return Some(None),
        };
        if desc_end > end {
            return Some(None);
        }
        if note_type == 3 && namesz >= 3 && has_gnu_magic(kernel, name) && descsz > 0 {
            if desc_start <= kernel.len() && kernel.len() - desc_start >= descsz {
                return Some(Some(slice_to_vec(slice_subrange(kernel, desc_start, desc_start + descsz))));
            } else {
                return Some(None);
            }
        }
        cursor = desc_end;
    }
}

/// What the program header at `index` yields: `None` to go on with the next
/// header, `Some(found)` to stop with `found`.
fn scan_program_header(
    kernel: &[u8],
    class: u8,
    phoff: u64,
    phentsize: u64,
    phnum: u64,
    index: u64,
) -> (r: Option<Option<Vec<u8>>>)
    requires
        class == 1 || class == 2,
        index < phnum,
    ensures
        match r {
            None => phdr_scan(kernel@, class, phoff, phentsize, phnum, index as int) == phdr_scan(
                kernel@,
                class,
                phoff,
                phentsize,
                phnum,
                index + 1,
            ),
            Some(None) => phdr_scan(kernel@, class, phoff, phentsize, phnum, index as int) is None,
            Some(Some(d)) => phdr_scan(kernel@, class, phoff, phentsize, phnum, index as int)
                == Some(d@),
        },
{
    reveal_with_fuel(phdr_scan, 2);
    let header_size: u64 = if class == 1 { 32 } else { 56 };
    let step = match index.checked_mul(phentsize) {
        Some(v) => v,
        None => return Some(None),
    };
    let entry = match phoff.checked_add(step) {
        Some(v) => v,
        None => return Some(None),
    };
    let entry_end = match entry.checked_add(header_size) {
        Some(v) => v,
        None => return Some(None),
    };
    if entry_end > kernel.len() as u64 {
        return Some(None);
    }
    let entry = entry as usize;
    assert(entry == phoff + index * phentsize);
    if read_u32_le(kernel, entry).unwrap() != 4 {
        return None;
    }
    let (note_offset, note_size) = if class == 1 {
        (
            read_u32_le(kernel, entry + 4).unwrap() as u64,
            read_u32_le(kernel, entry + 16).unwrap() as u64,
        )
    } else {
        (read_u64_le(kernel, entry + 8).unwrap(), read_u64_le(kernel, entry + 32).unwrap())
    };
    let note_end = match note_offset.checked_add(note_size) {
        Some(v) => v,
        None => return Some(None),
    };
    if note_end > kernel.len() as u64 {
        return Some(None);
    }
    assert(note_offset == (if class == 1 {
        le_u32(kernel@, entry + 4) as int
    } else {
        le_u64(kernel@, entry + 8) as int
    }));
    assert(note_size == (if class == 1 {
        le_u32(kernel@, entry + 16) as int
    } else {
        le_u64(kernel@, entry + 32) as int
    }));
    match scan_notes(kernel, note_offset as usize, note_end as usize) {
        Some(found) => Some(found),
        None => {
            assert(note_scan(kernel@, note_offset as int, note_end as int) is None);
            assert(!(phoff + index * phentsize + phdr_size(class) > kernel@.len()));
            assert(le_u32(kernel@, phoff + index * phentsize) == 4);
            assert(phdr_scan(kernel@, class, phoff, phentsize, phnum, index as int) == phdr_scan(
                kernel@,
                class,
                phoff,
                phentsize,
                phnum,
                index + 1,
            ));
            None
        },
    }
}

/// Extracts a GNU build ID from PT_NOTE segments in a little-endian ELF image.
pub fn detect_build_id(kernel: &[u8]) -> (r: Option<String>)
    ensures
        opt_string_view(r) == spec_detect_build_id(kernel@),
{
    if kernel.len() < 20 || !has_elf_magic(kernel, 0) || kernel[5] != 1 {
        return None;
    }
    let class = kernel[4];
    if class != 1 && class != 2 {
        return None;
    }
    let phoff = if class == 1 {
        match read_u32_le(kernel, 28) {
            Some(v) => v as u64,
            None => return None,
        }
    } else {
        match read_u64_le(kernel, 32) {
            Some(v) => v,
            None => return None,
        }
    };
    let phentsize = match read_u16_le(kernel, if class == 1 { 42 } else { 54 }) {
        Some(v) => v as u64,
        None => return None,
    };
    let phnum = match read_u16_le(kernel, if class == 1 { 44 } else { 56 }) {
        Some(v) => v as u64,
        None => return None,
    };
    let header_size: u64 = if class == 1 { 32 } else { 56 };
    if phentsize < header_size {
        return None;
    }
    let ghost target = build_id_bytes(kernel@);
    assert(target == phdr_scan(kernel@, class, phoff, phentsize, phnum, 0));
    let mut index: u64 = 0;
    while index < phnum
        invariant
            target == build_id_bytes(kernel@),
            class == 1 || class == 2,
            index <= phnum,
            phdr_scan(kernel@, class, phoff, phentsize, phnum, index as int) == target,
        decreases phnum - index,
    {
        match scan_program_header(kernel, class, phoff, phentsize, phnum, index) {
            Some(Some(desc)) => return Some(to_hex(desc.as_slice())),
            Some(None) => return None,
            None => {},
        }
        index += 1;
    }
    proof {
        reveal(phdr_scan);
    }
    None
}

/// Gathers the release, build ID, compiler and architecture of a kernel.
pub fn detect_metadata(kernel: &[u8]) -> (m: KernelMetadata)
    ensures
        opt_string_view(m.release) == spec_detect_release(kernel@),
        opt_string_view(m.build_id) == spec_detect_build_id(kernel@),
        opt_string_view(m.compiler) == spec_detect_compiler(kernel@),
        opt_string_view(m.architecture) == spec_architecture(kernel@),
        m.compression is None,
        !m.btf_present,
{
    let architecture = match detect_architecture(kernel) {
        Some(a) => Some(a.to_owned()),
        None => None,
    };
    KernelMetadata {
        release: detect_release(kernel),
        build_id: detect_build_id(kernel),
        compiler: detect_compiler(kernel),
        architecture,
        compression: None,
        btf_present: false,
    }
}

/// A detected build ID is lowercase hexadecimal text, two digits per byte.
pub proof fn lemma_build_id_is_lowercase_hex(s: Seq<u8>)
    requires
        spec_detect_build_id(s) is Some,
    ensures
        ({
            let h = spec_detect_build_id(s).unwrap();
            &&& h.len() % 2 == 0
            &&& forall|i: int|
                0 <= i < h.len() ==> ('0' <= #[trigger] h[i] <= '9') || ('a' <= h[i] <= 'f')
        }),
{
    let d = build_id_bytes(s).unwrap();
    let x = hex_bytes(d);
    let h = spec_detect_build_id(s).unwrap();
    assert forall|i: int| 0 <= i < h.len() implies ('0' <= #[trigger] h[i] <= '9') || ('a' <= h[i]
        <= 'f') by {
        let n: int = if i % 2 == 0 {
            (d[i / 2] / 16) as int
        } else {
            (d[i / 2] % 16) as int
        };
        assert(0 <= n < 16);
        assert(x[i] == hex_digit(n));
        assert(h[i] == x[i] as char);
    }
}

/// A detected release starts with a digit and holds only release characters,
/// so it never runs into the rest of the banner.
pub proof fn lemma_release_is_a_version_word(s: Seq<u8>)
    requires
        spec_detect_release(s) is Some,
    ensures
        ({
            let r = spec_detect_release(s).unwrap();
            &&& r.len() > 0
            &&& '0' <= r[0] <= '9'
            &&& forall|i: int| 0 <= i < r.len() ==> #[trigger] r[i] != ' ' && r[i] != '\0' && r[i] != '\n'
        }),
{
    let (start, end) = release_span(s).unwrap();
    let w = s.subrange(start, end);
    let r = spec_detect_release(s).unwrap();
    lemma_dash_bounded(w, 0);
    assert(version_core(w)[0] == w[0]);
    assert(is_release_byte(w[0]));
    assert(r[0] == w[0] as char);
    assert forall|i: int| 0 <= i < r.len() implies #[trigger] r[i] != ' ' && r[i] != '\0' && r[i]
        != '\n' by {
        assert(is_release_byte(w[i]));
        assert(r[i] == w[i] as char);
    }
}

/// A detected compiler version is a non-empty word of printable ASCII
/// characters other than space.
pub proof fn lemma_compiler_is_graphic_word(s: Seq<u8>)
    requires
        spec_detect_compiler(s) is Some,
    ensures
        ({
            let c = spec_detect_compiler(s).unwrap();
            &&& c.len() > 0
            &&& forall|i: int| 0 <= i < c.len() ==> '!' <= #[trigger] c[i] <= '~'
        }),
{
    let w = match compiler_probe(s, gcc_banner_magic()) {
        Some(Some(w)) => w,
        _ => compiler_probe(s, clang_banner_magic()).unwrap().unwrap(),
    };
    let c = spec_detect_compiler(s).unwrap();
    assert(w.len() > 0) by {
        lemma_find_from_bounds(s, gcc_banner_magic(), 0);
        lemma_find_from_bounds(s, clang_banner_magic(), 0);
        if let Some(p) = find_from(s, gcc_banner_magic(), 0) {
            lemma_word_end_after(s, p + gcc_banner_magic().len());
        }
        if let Some(p) = find_from(s, clang_banner_magic(), 0) {
            lemma_word_end_after(s, p + clang_banner_magic().len());
        }
    }
    assert(c == ascii_chars(w));
    assert forall|i: int| 0 <= i < c.len() implies '!' <= #[trigger] c[i] <= '~' by {
        assert(is_graphic(w[i]));
        assert(c[i] == w[i] as char);
    }
}

/// Program headers that are not PT_NOTE are passed over: the walk from `j`
/// finds what the walk from `k` finds when every header in between fits and is
/// of another type.
proof fn lemma_phdr_scan_skips_other_types(
    s: Seq<u8>,
    class: u8,
    phoff: u64,
    phentsize: u64,
    phnum: u64,
    j: int,
    k: int,
)
    requires
        0 <= j <= k < phnum,
        s.len() <= usize::MAX,
        phoff + k * phentsize + phdr_size(class) <= s.len(),
        forall|i: int| j <= i < k ==> le_u32(s, #[trigger] (phoff + i * phentsize)) != 4,
    ensures
        phdr_scan(s, class, phoff, phentsize, phnum, j) == phdr_scan(
            s,
            class,
            phoff,
            phentsize,
            phnum,
            k,
        ),
    decreases k - j,
{
    if j < k {
        assert(j * phentsize <= k * phentsize) by (nonlinear_arith)
            requires
                j <= k,
                phentsize >= 0,
        ;
        assert(0 <= j * phentsize) by (nonlinear_arith)
            requires
                0 <= j,
                phentsize >= 0,
        ;
        assert(le_u32(s, phoff + j * phentsize) != 4);
        reveal_with_fuel(phdr_scan, 1);
        lemma_phdr_scan_skips_other_types(s, class, phoff, phentsize, phnum, j + 1, k);
    }
}

/// A GNU build ID that heads the notes of a PT_NOTE segment ends the walk at
/// that segment.
proof fn lemma_phdr_scan_finds_leading_note(
    s: Seq<u8>,
    class: u8,
    phoff: u64,
    phentsize: u64,
    phnum: u64,
    k: int,
    o: int,
    z: int,
)
    requires
        class == 1 || class == 2,
        0 <= k < phnum,
        s.len() <= usize::MAX,
        phoff + k * phentsize + phdr_size(class) <= s.len(),
        le_u32(s, phoff + k * phentsize) == 4,
        o == (if class == 1 {
            le_u32(s, phoff + k * phentsize + 4) as int
        } else {
            le_u64(s, phoff + k * phentsize + 8) as int
        }),
        z == (if class == 1 {
            le_u32(s, phoff + k * phentsize + 16) as int
        } else {
            le_u64(s, phoff + k * phentsize + 32) as int
        }),
        o + z <= s.len(),
        o + 12 + align4(le_u32(s, o) as int) + align4(le_u32(s, o + 4) as int) <= o + z,
        le_u32(s, o + 8) == 3,
        le_u32(s, o) >= 3,
        holds_at(s, o + 12, gnu_magic()),
        le_u32(s, o + 4) > 0,
    ensures
        phdr_scan(s, class, phoff, phentsize, phnum, k) == Some(
            s.subrange(
                o + 12 + align4(le_u32(s, o) as int),
                o + 12 + align4(le_u32(s, o) as int) + le_u32(s, o + 4),
            ),
        ),
{
    assert(0 <= k * phentsize) by (nonlinear_arith)
        requires
            0 <= k,
            phentsize >= 0,
    ;
    reveal_with_fuel(phdr_scan, 1);
    assert(note_scan(s, o, o + z) == Some(
        Some(
            s.subrange(
                o + 12 + align4(le_u32(s, o) as int),
                o + 12 + align4(le_u32(s, o) as int) + le_u32(s, o + 4),
            ),
        ),
    ));
}

/// Only PT_NOTE segments are searched for the build ID, in program-header
/// order: in a little-endian ELF64 image whose program headers before index
/// `k` are all of types other than PT_NOTE (4), and whose header `k` is a
/// PT_NOTE segment inside the image that starts with a GNU build-ID note
/// (type 3, owner `GNU`, a non-empty descriptor), the build ID is that
/// descriptor in lowercase hexadecimal, whatever the other segments hold.
pub proof fn lemma_elf64_build_id_is_first_note_descriptor(s: Seq<u8>, k: int)
    requires
        64 <= s.len() <= usize::MAX,
        s.subrange(0, 4) == elf_magic(),
        s[4] == 2,
        s[5] == 1,
        le_u16(s, 54) >= 56,
        0 <= k < le_u16(s, 56),
        le_u64(s, 32) + k * le_u16(s, 54) + 56 <= s.len(),
        forall|i: int|
            0 <= i < k ==> le_u32(s, #[trigger] (le_u64(s, 32) + i * le_u16(s, 54))) != 4,
        ({
            let entry = le_u64(s, 32) + k * le_u16(s, 54);
            let o = le_u64(s, entry + 8) as int;
            let z = le_u64(s, entry + 32) as int;
            &&& le_u32(s, entry) == 4
            &&& o + z <= s.len()
            &&& o + 12 + align4(le_u32(s, o) as int) + align4(le_u32(s, o + 4) as int) <= o + z
            &&& le_u32(s, o + 8) == 3
            &&& le_u32(s, o) >= 3
            &&& holds_at(s, o + 12, gnu_magic())
            &&& le_u32(s, o + 4) > 0
        }),
    ensures
        ({
            let entry = le_u64(s, 32) + k * le_u16(s, 54);
            let o = le_u64(s, entry + 8) as int;
            let desc = o + 12 + align4(le_u32(s, o) as int);
            spec_detect_build_id(s) == Some(
                ascii_chars(hex_bytes(s.subrange(desc, desc + le_u32(s, o + 4)))),
            )
        }),
{
    let phoff = le_u64(s, 32);
    let pe = le_u16(s, 54) as u64;
    let pn = le_u16(s, 56) as u64;
    let entry = phoff + k * pe;
    lemma_phdr_scan_skips_other_types(s, 2, phoff, pe, pn, 0, k);
    lemma_phdr_scan_finds_leading_note(
        s,
        2,
        phoff,
        pe,
        pn,
        k,
        le_u64(s, entry + 8) as int,
        le_u64(s, entry + 32) as int,
    );
}

/// The same for a little-endian ELF32 image, whose program headers are 32
/// bytes with 32-bit segment offsets and sizes.
pub proof fn lemma_elf32_build_id_is_first_note_descriptor(s: Seq<u8>, k: int)
    requires
        52 <= s.len() <= usize::MAX,
        s.subrange(0, 4) == elf_magic(),
        s[4] == 1,
        s[5] == 1,
        le_u16(s, 42) >= 32,
        0 <= k < le_u16(s, 44),
        le_u32(s, 28) + k * le_u16(s, 42) + 32 <= s.len(),
        forall|i: int|
            0 <= i < k ==> le_u32(s, #[trigger] (le_u32(s, 28) + i * le_u16(s, 42))) != 4,
        ({
            let entry = le_u32(s, 28) + k * le_u16(s, 42);
            let o = le_u32(s, entry + 4) as int;
            let z = le_u32(s, entry + 16) as int;
            &&& le_u32(s, entry) == 4
            &&& o + z <= s.len()
            &&& o + 12 + align4(le_u32(s, o) as int) + align4(le_u32(s, o + 4) as int) <= o + z
            &&& le_u32(s, o + 8) == 3
            &&& le_u32(s, o) >= 3
            &&& holds_at(s, o + 12, gnu_magic())
            &&& le_u32(s, o + 4) > 0
        }),
    ensures
        ({
            let entry = le_u32(s, 28) + k * le_u16(s, 42);
            let o = le_u32(s, entry + 4) as int;
            let desc = o + 12 + align4(le_u32(s, o) as int);
            spec_detect_build_id(s) == Some(
                ascii_chars(hex_bytes(s.subrange(desc, desc + le_u32(s, o + 4)))),
            )
        }),
{
    let phoff = le_u32(s, 28) as u64;
    let pe = le_u16(s, 42) as u64;
    let pn = le_u16(s, 44) as u64;
    let entry = phoff + k * pe;
    lemma_phdr_scan_skips_other_types(s, 1, phoff, pe, pn, 0, k);
    lemma_phdr_scan_finds_leading_note(
        s,
        1,
        phoff,
        pe,
        pn,
        k,
        le_u32(s, entry + 4) as int,
        le_u32(s, entry + 16) as int,
    );
}

} // verus!
