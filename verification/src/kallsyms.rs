use vstd::prelude::*;
use std::ops::Range;
use crate::bytes::{fits, le_u16, le_u32, le_u64, read_u16_le, read_u32_le, read_u64_le};

verus! {

/// How the kallsyms address table stores addresses.
#[derive(Debug, Clone, Copy, PartialEq, Eq, Structural)]
pub enum AddressMode {
    /// 8-byte absolute addresses.
    Absolute,
    /// 4-byte relative offsets.
    Relative,
}

/// The byte ranges of a plausible embedded kallsyms layout, with the heuristic
/// confidence in percent (0 to 100).
#[derive(Debug)]
pub struct KallsymsCandidate {
    pub address_table: Range<usize>,
    pub names_table: Range<usize>,
    pub markers_table: Option<Range<usize>>,
    pub token_table: Range<usize>,
    pub token_index: Range<usize>,
    pub num_syms: usize,
    pub address_mode: AddressMode,
    pub confidence_percent: u32,
}

/// The size of the kallsyms token index: 256 little-endian `u16` offsets.
pub const TOKEN_INDEX_BYTES: usize = 512;

/// The largest symbol count that the scanner accepts.
pub const MAX_SYMBOLS: usize = 1_000_000;

/// How far before the token table the scanner looks for the symbol count.
pub const SEARCH_WINDOW: usize = 33554432;

/// The scanner stops looking once it holds this many candidates.
pub const MAX_CANDIDATES: usize = 32;

/// The confidence, in percent, that the scanner gives each candidate.
pub const SCAN_CONFIDENCE_PERCENT: u32 = 75;

/// The width of one address-table entry.
pub open spec fn width_of(mode: AddressMode) -> int {
    match mode {
        AddressMode::Absolute => 8,
        AddressMode::Relative => 4,
    }
}

/// A non-empty range that ends inside `len` bytes.
pub open spec fn valid_range(r: Range<usize>, len: int) -> bool {
    r.start < r.end && r.end <= len
}

/// Two ranges share no byte.
pub open spec fn disjoint(a: Range<usize>, b: Range<usize>) -> bool {
    a.end <= b.start || b.end <= a.start
}

/// The address, names, token and token-index tables, and the markers table
/// when there is one, pairwise share no byte.
pub open spec fn tables_disjoint(c: KallsymsCandidate) -> bool {
    &&& disjoint(c.address_table, c.names_table)
    &&& disjoint(c.address_table, c.token_table)
    &&& disjoint(c.address_table, c.token_index)
    &&& disjoint(c.names_table, c.token_table)
    &&& disjoint(c.names_table, c.token_index)
    &&& disjoint(c.token_table, c.token_index)
    &&& (c.markers_table matches Some(m) ==> {
        &&& disjoint(m, c.address_table)
        &&& disjoint(m, c.names_table)
        &&& disjoint(m, c.token_table)
        &&& disjoint(m, c.token_index)
    })
}

/// The checks that a candidate layout must pass against a kernel of `len` bytes:
/// all tables non-empty, inside the kernel and pairwise disjoint, a symbol
/// count between 1 and [`MAX_SYMBOLS`], a confidence of at most 100 percent,
/// an address table of exactly one entry per symbol in the width of its mode,
/// names after the addresses and the token index after the token table. The
/// contents of the tables are not read here.
pub open spec fn spec_validate_candidate(c: KallsymsCandidate, len: int) -> bool {
    &&& valid_range(c.address_table, len)
    &&& valid_range(c.names_table, len)
    &&& valid_range(c.token_table, len)
    &&& valid_range(c.token_index, len)
    &&& c.num_syms != 0
    &&& c.num_syms <= MAX_SYMBOLS
    &&& c.confidence_percent <= 100
    &&& (c.markers_table matches Some(m) ==> valid_range(m, len))
    &&& c.num_syms * width_of(c.address_mode) <= usize::MAX
    &&& c.address_table.end - c.address_table.start == c.num_syms * width_of(c.address_mode)
    &&& c.names_table.start >= c.address_table.end
    &&& c.token_index.start >= c.token_table.end
    &&& tables_disjoint(c)
}

fn ranges_disjoint(a: &Range<usize>, b: &Range<usize>) -> (r: bool)
    ensures
        r == disjoint(*a, *b),
{
    a.end <= b.start || b.end <= a.start
}

fn tables_are_disjoint(c: &KallsymsCandidate) -> (r: bool)
    ensures
        r == tables_disjoint(*c),
{
    if !ranges_disjoint(&c.address_table, &c.names_table) || !ranges_disjoint(
        &c.address_table,
        &c.token_table,
    ) || !ranges_disjoint(&c.address_table, &c.token_index) || !ranges_disjoint(
        &c.names_table,
        &c.token_table,
    ) || !ranges_disjoint(&c.names_table, &c.token_index) || !ranges_disjoint(
        &c.token_table,
        &c.token_index,
    ) {
        return false;
    }
    match &c.markers_table {
        Some(m) => ranges_disjoint(m, &c.address_table) && ranges_disjoint(m, &c.names_table)
            && ranges_disjoint(m, &c.token_table) && ranges_disjoint(m, &c.token_index),
        None => true,
    }
}

fn range_is_valid(r: &Range<usize>, len: usize) -> (b: bool)
    ensures
        b == valid_range(*r, len as int),
{
    r.start < r.end && r.end <= len
}

/// Checks a candidate layout against a kernel of `kernel_len` bytes.
pub fn validate_candidate(candidate: &KallsymsCandidate, kernel_len: usize) -> (b: bool)
    ensures
        b == spec_validate_candidate(*candidate, kernel_len as int),
{
    if !range_is_valid(&candidate.address_table, kernel_len) || !range_is_valid(
        &candidate.names_table,
        kernel_len,
    ) || !range_is_valid(&candidate.token_table, kernel_len) || !range_is_valid(
        &candidate.token_index,
        kernel_len,
    ) || candidate.num_syms == 0 || candidate.num_syms > MAX_SYMBOLS
        || candidate.confidence_percent > 100 {
        return false;
    }
    match &candidate.markers_table {
        Some(markers) => {
            if !range_is_valid(markers, kernel_len) {
                return false;
            }
        },
        None => {},
    }
    let address_width: usize = match candidate.address_mode {
        AddressMode::Absolute => 8,
        AddressMode::Relative => 4,
    };
    let expected_address_bytes = match candidate.num_syms.checked_mul(address_width) {
        Some(bytes) => bytes,
        None => return false,
    };
    candidate.address_table.end - candidate.address_table.start == expected_address_bytes
        && candidate.names_table.start >= candidate.address_table.end
        && candidate.token_index.start >= candidate.token_table.end && tables_are_disjoint(
        candidate,
    )
}

/// The `i`-th entry of a token index at `off`.
pub open spec fn token_entry(s: Seq<u8>, off: int, i: int) -> u16 {
    le_u16(s, off + 2 * i)
}

/// How many of the first `k` token-index entries differ from the one before.
pub open spec fn token_changes(s: Seq<u8>, off: int, k: int) -> nat
    decreases k,
{
    if k <= 1 {
        0
    } else {
        token_changes(s, off, k - 1) + if token_entry(s, off, k - 1) != token_entry(
            s,
            off,
            k - 2,
        ) {
            1nat
        } else {
            0nat
        }
    }
}

/// The length of the token table that a token index at `off` describes: the
/// index must lie inside `s`, never decrease, change at least 8 times and end
/// above zero; its last entry is the length.
pub open spec fn token_table_len(s: Seq<u8>, off: int) -> Option<usize> {
    if !fits(s, off, TOKEN_INDEX_BYTES as int) {
        None
    } else if exists|i: int| 1 <= i < 256 && #[trigger] token_entry(s, off, i) < token_entry(s, off, i - 1) {
        None
    } else if token_entry(s, off, 255) == 0 || token_changes(s, off, 256) < 8 {
        None
    } else {
        Some(token_entry(s, off, 255) as usize)
    }
}

fn looks_like_token_index(data: &[u8], offset: usize) -> (r: Option<usize>)
    requires
        offset + TOKEN_INDEX_BYTES <= data.len(),
    ensures
        r == token_table_len(data@, offset as int),
{
    let mut previous: u16 = 0;
    let mut distinct: usize = 0;
    let mut index: usize = 0;
    while index < 256
        invariant
            offset + TOKEN_INDEX_BYTES <= data.len(),
            index <= 256,
            distinct == token_changes(data@, offset as int, index as int),
            distinct <= index,
            index > 0 ==> previous == token_entry(data@, offset as int, index - 1),
            forall|j: int|
                1 <= j < index ==> token_entry(data@, offset as int, j - 1) <= #[trigger] token_entry(
                    data@,
                    offset as int,
                    j,
                ),
        decreases 256 - index,
    {
        let value = read_u16_le(data, offset + index * 2).unwrap();
        if index > 0 && value < previous {
            assert(token_entry(data@, offset as int, index as int) < token_entry(
                data@,
                offset as int,
                index - 1,
            ));
            return None;
        }
        if index > 0 && value != previous {
            distinct += 1;
        }
        previous = value;
        index += 1;
    }
    if previous == 0 || distinct < 8 {
        return None;
    }
    Some(previous as usize)
}

/// The `i`-th address of a table at `start` with entries of `width` bytes.
pub open spec fn address_at(s: Seq<u8>, start: int, i: int, width: int) -> u64 {
    if width == 4 {
        le_u32(s, start + 4 * i) as u64
    } else {
        le_u64(s, start + 8 * i)
    }
}

/// A table of `count` addresses of `width` (4 or 8) bytes at `start` holds at
/// least two entries, lies inside `s` and never decreases.
pub open spec fn monotonic(s: Seq<u8>, start: int, count: int, width: int) -> bool {
    &&& count >= 2
    &&& width == 4 || width == 8
    &&& start + count * width <= s.len()
    &&& forall|i: int| 1 <= i < count ==> address_at(s, start, i - 1, width) <= #[trigger] address_at(s, start, i, width)
}

fn read_address(data: &[u8], offset: usize, width: usize) -> (r: Option<u64>)
    requires
        width == 4 || width == 8,
    ensures
        r == if fits(data@, offset as int, width as int) {
            Some(if width == 4 { le_u32(data@, offset as int) as u64 } else { le_u64(data@, offset as int) })
        } else {
            None::<u64>
        },
{
    if width == 4 {
        match read_u32_le(data, offset) {
            Some(value) => Some(value as u64),
            None => None,
        }
    } else {
        read_u64_le(data, offset)
    }
}

fn monotonic_addresses(data: &[u8], start: usize, count: usize, width: usize) -> (b: bool)
    ensures
        b == monotonic(data@, start as int, count as int, width as int),
{
    if count < 2 {
        return false;
    }
    if width != 4 && width != 8 {
        return false;
    }
    let total = match count.checked_mul(width) {
        Some(total) => total,
        None => {
            assert(data@.len() == data.len());
            assert(start + count * width > data@.len());
            return false;
        },
    };
    let end = match start.checked_add(total) {
        Some(end) => end,
        None => {
            assert(data@.len() == data.len());
            return false;
        },
    };
    if end > data.len() {
        return false;
    }
    assert(width <= total) by (nonlinear_arith)
        requires
            total == count * width,
            count >= 2,
            width > 0,
    ;
    assert(fits(data@, start as int, width as int));
    let mut previous = read_address(data, start, width).unwrap();
    assert(address_at(data@, start as int, 0, width as int) == previous);
    let mut index: usize = 1;
    let mut offset: usize = start + width;
    while index < count
        invariant
            width == 4 || width == 8,
            2 <= count,
            1 <= index <= count,
            end == start + count * width,
            end <= data.len(),
            width == 4 ==> offset == start + 4 * index && end == start + 4 * count,
            width == 8 ==> offset == start + 8 * index && end == start + 8 * count,
            previous == address_at(data@, start as int, index - 1, width as int),
            forall|i: int|
                1 <= i < index ==> address_at(data@, start as int, i - 1, width as int)
                    <= #[trigger] address_at(data@, start as int, i, width as int),
        decreases count - index,
    {
        let current = read_address(data, offset, width).unwrap();
        assert(current == address_at(data@, start as int, index as int, width as int));
        if current < previous {
            assert(!(address_at(data@, start as int, index - 1, width as int) <= address_at(
                data@,
                start as int,
                index as int,
                width as int,
            )));
            return false;
        }
        previous = current;
        index += 1;
        offset += width;
    }
    true
}

/// `x` rounded down to a multiple of 4.
pub open spec fn align_down4(x: int) -> int {
    x - x % 4
}

/// `a - b`, or zero when `b` exceeds `a`.
pub open spec fn sat_sub(a: int, b: int) -> int {
    if a >= b {
        a - b
    } else {
        0
    }
}

/// The candidate for a token index at `tio`, a token table at `tts`, a symbol
/// count `num_syms` stored at `nso` and addresses in `mode`.
pub open spec fn candidate_at(
    tio: int,
    tts: int,
    nso: int,
    num_syms: int,
    mode: AddressMode,
) -> KallsymsCandidate {
    KallsymsCandidate {
        address_table: Range {
            start: (nso - num_syms * width_of(mode)) as usize,
            end: nso as usize,
        },
        names_table: Range { start: (nso + 4) as usize, end: tts as usize },
        markers_table: None,
        token_table: Range { start: tts as usize, end: tio as usize },
        token_index: Range { start: tio as usize, end: (tio + TOKEN_INDEX_BYTES) as usize },
        num_syms: num_syms as usize,
        address_mode: mode,
        confidence_percent: SCAN_CONFIDENCE_PERCENT,
    }
}

/// The candidate, if any, for one address mode: the address table must end at
/// the symbol count, start inside the search window, hold non-decreasing
/// addresses, leave room for names before the token table, and pass
/// [`spec_validate_candidate`].
pub open spec fn mode_hit(
    s: Seq<u8>,
    tio: int,
    tts: int,
    ss: int,
    nso: int,
    num_syms: int,
    mode: AddressMode,
) -> Option<KallsymsCandidate> {
    let bytes = num_syms * width_of(mode);
    let c = candidate_at(tio, tts, nso, num_syms, mode);
    if bytes > usize::MAX || nso < bytes {
        None
    } else if nso - bytes < ss || nso > tts {
        None
    } else if !monotonic(s, nso - bytes, num_syms, width_of(mode)) {
        None
    } else if nso + 4 >= tts {
        None
    } else if !spec_validate_candidate(c, s.len() as int) {
        None
    } else {
        Some(c)
    }
}

/// The sequence holding the candidate, if there is one.
pub open spec fn hit_seq(o: Option<KallsymsCandidate>) -> Seq<KallsymsCandidate> {
    match o {
        Some(c) => seq![c],
        None => Seq::empty(),
    }
}

/// The symbol count read at `nso`, if it can be read and is plausible.
pub open spec fn plausible_count(s: Seq<u8>, nso: int) -> Option<int> {
    if fits(s, nso, 4) && 2 <= le_u32(s, nso) <= MAX_SYMBOLS {
        Some(le_u32(s, nso) as int)
    } else {
        None
    }
}

/// The candidates found with the symbol count at `nso`: absolute addresses
/// first, then relative ones.
pub open spec fn step_hits(s: Seq<u8>, tio: int, tts: int, ss: int, nso: int) -> Seq<
    KallsymsCandidate,
> {
    match plausible_count(s, nso) {
        None => Seq::empty(),
        Some(n) => hit_seq(mode_hit(s, tio, tts, ss, nso, n, AddressMode::Absolute)) + hit_seq(
            mode_hit(s, tio, tts, ss, nso, n, AddressMode::Relative),
        ),
    }
}

/// The candidates after `acc` when the symbol count is searched downward, in
/// steps of 4 bytes, from `nso` to the window start `ss`, stopping once 32
/// candidates are held.
pub open spec fn inner_scan(
    s: Seq<u8>,
    tio: int,
    tts: int,
    ss: int,
    nso: int,
    acc: Seq<KallsymsCandidate>,
) -> Seq<KallsymsCandidate>
    decreases nso,
{
    if nso < ss || acc.len() >= MAX_CANDIDATES {
        acc
    } else if nso < 4 {
        acc + step_hits(s, tio, tts, ss, nso)
    } else {
        inner_scan(s, tio, tts, ss, nso - 4, acc + step_hits(s, tio, tts, ss, nso))
    }
}

/// The candidates after `acc` for a token index at `tio`: the token table ends
/// at `tio` and must start after the first byte; the 4-byte aligned symbol
/// count is searched from just before it down to the start of the search
/// window.
#[verifier::opaque]
pub open spec fn token_index_hits(s: Seq<u8>, tio: int, acc: Seq<KallsymsCandidate>) -> Seq<
    KallsymsCandidate,
> {
    match token_table_len(s, tio) {
        None => acc,
        Some(len) => {
            let tts = tio - len;
            if tts <= 0 {
                acc
            } else {
                inner_scan(
                    s,
                    tio,
                    tts,
                    sat_sub(tts, SEARCH_WINDOW as int),
                    align_down4(sat_sub(tts, 4)),
                    acc,
                )
            }
        },
    }
}

/// The candidates after `acc` when token indexes are tried at `tio` and every
/// second byte after it, stopping once 32 candidates are held.
pub open spec fn outer_scan(s: Seq<u8>, tio: int, acc: Seq<KallsymsCandidate>) -> Seq<
    KallsymsCandidate,
>
    decreases s.len() - tio,
{
    if tio < 0 || tio + TOKEN_INDEX_BYTES > s.len() || acc.len() >= MAX_CANDIDATES {
        acc
    } else {
        outer_scan(s, tio + 2, token_index_hits(s, tio, acc))
    }
}

/// Every candidate that the scanner reports in `s`.
pub open spec fn spec_scan_candidates(s: Seq<u8>) -> Seq<KallsymsCandidate> {
    outer_scan(s, 0, Seq::empty())
}

fn mode_candidate(
    data: &[u8],
    tio: usize,
    tts: usize,
    ss: usize,
    nso: usize,
    num_syms: usize,
    mode: AddressMode,
) -> (r: Option<KallsymsCandidate>)
    requires
        tio + TOKEN_INDEX_BYTES <= data.len(),
        0 < tts < tio,
        ss <= tts,
        nso < data.len(),
        2 <= num_syms <= MAX_SYMBOLS,
    ensures
        r == mode_hit(data@, tio as int, tts as int, ss as int, nso as int, num_syms as int, mode),
{
    let width: usize = match mode {
        AddressMode::Absolute => 8,
        AddressMode::Relative => 4,
    };
    let address_bytes = match num_syms.checked_mul(width) {
        Some(bytes) => bytes,
        None => return None,
    };
    if nso < address_bytes {
        return None;
    }
    let address_start = nso - address_bytes;
    if address_start < ss || nso > tts {
        return None;
    }
    if !monotonic_addresses(data, address_start, num_syms, width) {
        return None;
    }
    let names_start = nso + 4;
    if names_start >= tts {
        return None;
    }
    let candidate = KallsymsCandidate {
        address_table: address_start..nso,
        names_table: names_start..tts,
        markers_table: None,
        token_table: tts..tio,
        token_index: tio..tio + TOKEN_INDEX_BYTES,
        num_syms,
        address_mode: mode,
        confidence_percent: SCAN_CONFIDENCE_PERCENT,
    };
    assert(candidate == candidate_at(tio as int, tts as int, nso as int, num_syms as int, mode));
    if validate_candidate(&candidate, data.len()) {
        Some(candidate)
    } else {
        None
    }
}

fn push_hit(candidates: &mut Vec<KallsymsCandidate>, hit: Option<KallsymsCandidate>)
    ensures
        final(candidates)@ == old(candidates)@ + hit_seq(hit),
{
    match hit {
        Some(c) => {
            candidates.push(c);
        },
        None => {
            assert(old(candidates)@ + hit_seq(hit) =~= old(candidates)@);
        },
    }
}

/// Adds the candidates whose symbol count is stored at `nso`.
fn scan_count_slot(
    kernel: &[u8],
    tio: usize,
    tts: usize,
    search_start: usize,
    nso: usize,
    candidates: &mut Vec<KallsymsCandidate>,
)
    requires
        tio + TOKEN_INDEX_BYTES <= kernel@.len(),
        0 < tts < tio,
        search_start <= tts,
        nso <= tts,
    ensures
        final(candidates)@ == old(candidates)@ + step_hits(
            kernel@,
            tio as int,
            tts as int,
            search_start as int,
            nso as int,
        ),
{
    let ghost s = kernel@;
    let ghost before = candidates@;
    match read_u32_le(kernel, nso) {
        Some(value) => {
            let num_syms = value as usize;
            if 2 <= num_syms && num_syms <= MAX_SYMBOLS {
                let hit = mode_candidate(
                    kernel,
                    tio,
                    tts,
                    search_start,
                    nso,
                    num_syms,
                    AddressMode::Absolute,
                );
                push_hit(candidates, hit);
                let hit = mode_candidate(
                    kernel,
                    tio,
                    tts,
                    search_start,
                    nso,
                    num_syms,
                    AddressMode::Relative,
                );
                push_hit(candidates, hit);
            } else {
                assert(before + step_hits(s, tio as int, tts as int, search_start as int, nso as int) =~= before);
            }
        },
        None => {
            assert(before + step_hits(s, tio as int, tts as int, search_start as int, nso as int) =~= before);
        },
    }
    assert(candidates@ =~= before + step_hits(
        s,
        tio as int,
        tts as int,
        search_start as int,
        nso as int,
    ));
}

/// Adds the candidates for a token index at `tio`.
fn scan_token_index(kernel: &[u8], tio: usize, candidates: &mut Vec<KallsymsCandidate>)
    requires
        tio + TOKEN_INDEX_BYTES <= kernel@.len(),
    ensures
        final(candidates)@ == token_index_hits(kernel@, tio as int, old(candidates)@),
{
    let ghost s = kernel@;
    let ghost acc0 = candidates@;
    let token_table_length = match looks_like_token_index(kernel, tio) {
        None => {
            assert(token_index_hits(s, tio as int, acc0) == acc0) by {
                reveal(token_index_hits);
            }
            return ;
        },
        Some(len) => len,
    };
    if tio < token_table_length || tio - token_table_length == 0 {
        assert(token_index_hits(s, tio as int, acc0) == acc0) by {
            reveal(token_index_hits);
        }
        return ;
    }
    let tts = tio - token_table_length;
    let search_start = if tts >= SEARCH_WINDOW {
        tts - SEARCH_WINDOW
    } else {
        0
    };
    let last_slot = if tts >= 4 {
        tts - 4
    } else {
        0
    };
    let mut nso = last_slot - last_slot % 4;
    assert(nso == align_down4(last_slot as int));
    assert(search_start == sat_sub(tts as int, SEARCH_WINDOW as int));
    assert(last_slot == sat_sub(tts as int, 4));
    assert(token_index_hits(s, tio as int, acc0) == inner_scan(
        s,
        tio as int,
        tts as int,
        search_start as int,
        nso as int,
        acc0,
    )) by {
        reveal(token_index_hits);
    }
    loop
        invariant
            s == kernel@,
            tio + TOKEN_INDEX_BYTES <= s.len(),
            0 < tts < tio,
            search_start <= tts,
            nso <= tts,
            inner_scan(s, tio as int, tts as int, search_start as int, nso as int, candidates@)
                == token_index_hits(s, tio as int, acc0),
        ensures
            candidates@ == token_index_hits(s, tio as int, acc0),
        decreases nso,
    {
        if nso < search_start || candidates.len() >= MAX_CANDIDATES {
            break;
        }
        scan_count_slot(kernel, tio, tts, search_start, nso, candidates);
        if nso < 4 {
            break;
        }
        nso -= 4;
    }
}

/// Scans for structurally plausible embedded kallsyms tables.
///
/// This is deliberately conservative: it only reports candidates whose
/// token-index table and address table have mutually consistent bounds.
pub fn scan_candidates(kernel: &[u8]) -> (r: Vec<KallsymsCandidate>)
    ensures
        r@ == spec_scan_candidates(kernel@),
{
    let ghost s = kernel@;
    let mut candidates: Vec<KallsymsCandidate> = Vec::new();
    if kernel.len() < TOKEN_INDEX_BYTES {
        return candidates;
    }
    let mut token_index_offset: usize = 0;
    while token_index_offset <= kernel.len() - TOKEN_INDEX_BYTES && candidates.len()
        < MAX_CANDIDATES
        invariant
            s == kernel@,
            kernel@.len() >= TOKEN_INDEX_BYTES,
            token_index_offset <= kernel@.len(),
            outer_scan(s, token_index_offset as int, candidates@) == outer_scan(
                s,
                0,
                Seq::empty(),
            ),
        decreases kernel@.len() - token_index_offset,
    {
        scan_token_index(kernel, token_index_offset, &mut candidates);
        token_index_offset += 2;
    }
    candidates
}

/// Every candidate in `cs` passes [`spec_validate_candidate`] for `len` bytes.
pub open spec fn all_valid(cs: Seq<KallsymsCandidate>, len: int) -> bool {
    forall|i: int| 0 <= i < cs.len() ==> spec_validate_candidate(#[trigger] cs[i], len)
}

proof fn lemma_hit_seq_valid(o: Option<KallsymsCandidate>, len: int)
    requires
        o matches Some(c) ==> spec_validate_candidate(c, len),
    ensures
        all_valid(hit_seq(o), len),
{
}

proof fn lemma_append_valid(a: Seq<KallsymsCandidate>, b: Seq<KallsymsCandidate>, len: int)
    requires
        all_valid(a, len),
        all_valid(b, len),
    ensures
        all_valid(a + b, len),
{
    assert forall|i: int| 0 <= i < (a + b).len() implies spec_validate_candidate(
        #[trigger] (a + b)[i],
        len,
    ) by {
        if i < a.len() {
            assert((a + b)[i] == a[i]);
        } else {
            assert((a + b)[i] == b[i - a.len()]);
        }
    }
}

proof fn lemma_step_valid(s: Seq<u8>, tio: int, tts: int, ss: int, nso: int)
    ensures
        all_valid(step_hits(s, tio, tts, ss, nso), s.len() as int),
{
    match plausible_count(s, nso) {
        None => {},
        Some(n) => {
            let len = s.len() as int;
            lemma_hit_seq_valid(mode_hit(s, tio, tts, ss, nso, n, AddressMode::Absolute), len);
            lemma_hit_seq_valid(mode_hit(s, tio, tts, ss, nso, n, AddressMode::Relative), len);
            lemma_append_valid(
                hit_seq(mode_hit(s, tio, tts, ss, nso, n, AddressMode::Absolute)),
                hit_seq(mode_hit(s, tio, tts, ss, nso, n, AddressMode::Relative)),
                len,
            );
        },
    }
}

proof fn lemma_inner_valid(
    s: Seq<u8>,
    tio: int,
    tts: int,
    ss: int,
    nso: int,
    acc: Seq<KallsymsCandidate>,
)
    requires
        all_valid(acc, s.len() as int),
    ensures
        all_valid(inner_scan(s, tio, tts, ss, nso, acc), s.len() as int),
    decreases nso,
{
    if nso < ss || acc.len() >= MAX_CANDIDATES {
    } else {
        lemma_step_valid(s, tio, tts, ss, nso);
        lemma_append_valid(acc, step_hits(s, tio, tts, ss, nso), s.len() as int);
        if nso >= 4 {
            lemma_inner_valid(s, tio, tts, ss, nso - 4, acc + step_hits(s, tio, tts, ss, nso));
        }
    }
}

proof fn lemma_outer_valid(s: Seq<u8>, tio: int, acc: Seq<KallsymsCandidate>)
    requires
        all_valid(acc, s.len() as int),
    ensures
        all_valid(outer_scan(s, tio, acc), s.len() as int),
    decreases s.len() - tio,
{
    if tio < 0 || tio + TOKEN_INDEX_BYTES > s.len() || acc.len() >= MAX_CANDIDATES {
    } else {
        reveal(token_index_hits);
        match token_table_len(s, tio) {
            None => {},
            Some(len) => {
                let tts = tio - len;
                if tts > 0 {
                    lemma_inner_valid(
                        s,
                        tio,
                        tts,
                        sat_sub(tts, SEARCH_WINDOW as int),
                        align_down4(sat_sub(tts, 4)),
                        acc,
                    );
                }
            },
        }
        lemma_outer_valid(s, tio + 2, token_index_hits(s, tio, acc));
    }
}

/// Every candidate that the scanner reports passes [`validate_candidate`] for
/// the kernel it was found in.
pub proof fn lemma_scanned_candidates_validate(s: Seq<u8>)
    ensures
        all_valid(spec_scan_candidates(s), s.len() as int),
{
    lemma_outer_valid(s, 0, Seq::empty());
}

/// The layout that every scanned candidate has in `s`: it validates, holds
/// between 2 and [`MAX_SYMBOLS`] symbols whose addresses never decrease, and its
/// tables follow one another: addresses, the 4-byte symbol count, names, token
/// table, then the 512-byte token index; there is no markers table and the
/// confidence is [`SCAN_CONFIDENCE_PERCENT`].
pub open spec fn scanned_layout(c: KallsymsCandidate, s: Seq<u8>) -> bool {
    &&& spec_validate_candidate(c, s.len() as int)
    &&& 2 <= c.num_syms <= MAX_SYMBOLS
    &&& c.names_table.start == c.address_table.end + 4
    &&& c.names_table.end == c.token_table.start
    &&& c.token_table.end == c.token_index.start
    &&& c.token_index.end == c.token_index.start + TOKEN_INDEX_BYTES
    &&& c.markers_table is None
    &&& c.confidence_percent == SCAN_CONFIDENCE_PERCENT
    &&& monotonic(
        s,
        c.address_table.start as int,
        c.num_syms as int,
        width_of(c.address_mode),
    )
}

/// Every candidate in `cs` has the scanned layout in `s`.
pub open spec fn all_laid_out(cs: Seq<KallsymsCandidate>, s: Seq<u8>) -> bool {
    forall|i: int| 0 <= i < cs.len() ==> scanned_layout(#[trigger] cs[i], s)
}

proof fn lemma_mode_hit_layout(
    s: Seq<u8>,
    tio: int,
    tts: int,
    ss: int,
    nso: int,
    n: int,
    mode: AddressMode,
)
    requires
        0 <= ss <= tts < tio,
        tio + TOKEN_INDEX_BYTES <= s.len() <= usize::MAX,
        2 <= n <= MAX_SYMBOLS,
    ensures
        all_laid_out(hit_seq(mode_hit(s, tio, tts, ss, nso, n, mode)), s),
{
    if let Some(c) = mode_hit(s, tio, tts, ss, nso, n, mode) {
        assert(scanned_layout(c, s));
        assert(hit_seq(mode_hit(s, tio, tts, ss, nso, n, mode))[0] == c);
    }
}

proof fn lemma_append_laid_out(a: Seq<KallsymsCandidate>, b: Seq<KallsymsCandidate>, s: Seq<u8>)
    requires
        all_laid_out(a, s),
        all_laid_out(b, s),
    ensures
        all_laid_out(a + b, s),
{
    assert forall|i: int| 0 <= i < (a + b).len() implies scanned_layout(#[trigger] (a + b)[i], s) by {
        if i < a.len() {
            assert((a + b)[i] == a[i]);
        } else {
            assert((a + b)[i] == b[i - a.len()]);
        }
    }
}

proof fn lemma_step_laid_out(s: Seq<u8>, tio: int, tts: int, ss: int, nso: int)
    requires
        0 <= ss <= tts < tio,
        tio + TOKEN_INDEX_BYTES <= s.len() <= usize::MAX,
    ensures
        all_laid_out(step_hits(s, tio, tts, ss, nso), s),
        step_hits(s, tio, tts, ss, nso).len() <= 2,
{
    match plausible_count(s, nso) {
        None => {},
        Some(n) => {
            lemma_mode_hit_layout(s, tio, tts, ss, nso, n, AddressMode::Absolute);
            lemma_mode_hit_layout(s, tio, tts, ss, nso, n, AddressMode::Relative);
            lemma_append_laid_out(
                hit_seq(mode_hit(s, tio, tts, ss, nso, n, AddressMode::Absolute)),
                hit_seq(mode_hit(s, tio, tts, ss, nso, n, AddressMode::Relative)),
                s,
            );
        },
    }
}

proof fn lemma_inner_laid_out(
    s: Seq<u8>,
    tio: int,
    tts: int,
    ss: int,
    nso: int,
    acc: Seq<KallsymsCandidate>,
)
    requires
        0 <= ss <= tts < tio,
        tio + TOKEN_INDEX_BYTES <= s.len() <= usize::MAX,
        all_laid_out(acc, s),
        acc.len() <= MAX_CANDIDATES + 1,
    ensures
        all_laid_out(inner_scan(s, tio, tts, ss, nso, acc), s),
        inner_scan(s, tio, tts, ss, nso, acc).len() <= MAX_CANDIDATES + 1,
    decreases nso,
{
    if nso < ss || acc.len() >= MAX_CANDIDATES {
    } else {
        lemma_step_laid_out(s, tio, tts, ss, nso);
        lemma_append_laid_out(acc, step_hits(s, tio, tts, ss, nso), s);
        if nso >= 4 {
            lemma_inner_laid_out(s, tio, tts, ss, nso - 4, acc + step_hits(s, tio, tts, ss, nso));
        }
    }
}

proof fn lemma_outer_laid_out(s: Seq<u8>, tio: int, acc: Seq<KallsymsCandidate>)
    requires
        s.len() <= usize::MAX,
        all_laid_out(acc, s),
        acc.len() <= MAX_CANDIDATES + 1,
    ensures
        all_laid_out(outer_scan(s, tio, acc), s),
        outer_scan(s, tio, acc).len() <= MAX_CANDIDATES + 1,
    decreases s.len() - tio,
{
    if tio < 0 || tio + TOKEN_INDEX_BYTES > s.len() || acc.len() >= MAX_CANDIDATES {
    } else {
        reveal(token_index_hits);
        match token_table_len(s, tio) {
            None => {},
            Some(len) => {
                let tts = tio - len;
                if tts > 0 {
                    lemma_inner_laid_out(
                        s,
                        tio,
                        tts,
                        sat_sub(tts, SEARCH_WINDOW as int),
                        align_down4(sat_sub(tts, 4)),
                        acc,
                    );
                }
            },
        }
        lemma_outer_laid_out(s, tio + 2, token_index_hits(s, tio, acc));
    }
}

/// The scanner reports at most 33 candidates (it stops looking once it holds
/// 32, and one symbol count can yield a candidate for each address width), and
/// every one has the scanned layout: a valid candidate of 2 to 1,000,000
/// symbols with non-decreasing addresses, whose address table, symbol count,
/// names, token table and 512-byte token index follow one another.
pub proof fn lemma_scanned_candidates_layout(s: Seq<u8>)
    requires
        s.len() <= usize::MAX,
    ensures
        spec_scan_candidates(s).len() <= MAX_CANDIDATES + 1,
        all_laid_out(spec_scan_candidates(s), s),
{
    lemma_outer_laid_out(s, 0, Seq::empty());
}

proof fn lemma_inner_extends(
    s: Seq<u8>,
    tio: int,
    tts: int,
    ss: int,
    nso: int,
    acc: Seq<KallsymsCandidate>,
)
    ensures
        acc.len() <= inner_scan(s, tio, tts, ss, nso, acc).len(),
        inner_scan(s, tio, tts, ss, nso, acc).subrange(0, acc.len() as int) == acc,
    decreases nso,
{
    if nso < ss || acc.len() >= MAX_CANDIDATES {
        assert(acc.subrange(0, acc.len() as int) =~= acc);
    } else {
        let next = acc + step_hits(s, tio, tts, ss, nso);
        if nso < 4 {
            assert(next.subrange(0, acc.len() as int) =~= acc);
        } else {
            lemma_inner_extends(s, tio, tts, ss, nso - 4, next);
            let r = inner_scan(s, tio, tts, ss, nso - 4, next);
            assert(r.subrange(0, acc.len() as int) =~= r.subrange(0, next.len() as int).subrange(
                0,
                acc.len() as int,
            ));
            assert(next.subrange(0, acc.len() as int) =~= acc);
        }
    }
}

proof fn lemma_outer_extends(s: Seq<u8>, tio: int, acc: Seq<KallsymsCandidate>)
    ensures
        acc.len() <= outer_scan(s, tio, acc).len(),
        outer_scan(s, tio, acc).subrange(0, acc.len() as int) == acc,
    decreases s.len() - tio,
{
    if tio < 0 || tio + TOKEN_INDEX_BYTES > s.len() || acc.len() >= MAX_CANDIDATES {
        assert(acc.subrange(0, acc.len() as int) =~= acc);
    } else {
        reveal(token_index_hits);
        let next = token_index_hits(s, tio, acc);
        match token_table_len(s, tio) {
            None => {},
            Some(len) => {
                let tts = tio - len;
                if tts > 0 {
                    lemma_inner_extends(
                        s,
                        tio,
                        tts,
                        sat_sub(tts, SEARCH_WINDOW as int),
                        align_down4(sat_sub(tts, 4)),
                        acc,
                    );
                }
            },
        }
        if next.len() < acc.len() || next.subrange(0, acc.len() as int) != acc {
            assert(next =~= acc);
            assert(acc.subrange(0, acc.len() as int) =~= acc);
        }
        lemma_outer_extends(s, tio + 2, next);
        let r = outer_scan(s, tio + 2, next);
        assert(r.subrange(0, acc.len() as int) =~= r.subrange(0, next.len() as int).subrange(
            0,
            acc.len() as int,
        ));
    }
}

/// What a sequence holds at some place also appears at that place in every
/// sequence that starts with it.
proof fn lemma_prefix_keeps(a: Seq<KallsymsCandidate>, r: Seq<KallsymsCandidate>, m: int)
    requires
        a.len() <= r.len(),
        r.subrange(0, a.len() as int) == a,
        0 <= m < a.len(),
    ensures
        r[m] == a[m],
{
    assert(r.subrange(0, a.len() as int)[m] == r[m]);
}

proof fn lemma_inner_reaches(
    s: Seq<u8>,
    tio: int,
    tts: int,
    ss: int,
    cur: int,
    acc: Seq<KallsymsCandidate>,
    nso: int,
    x: KallsymsCandidate,
)
    requires
        inner_scan(s, tio, tts, ss, cur, acc).len() < MAX_CANDIDATES,
        ss <= nso <= cur,
        (cur - nso) % 4 == 0,
        step_hits(s, tio, tts, ss, nso).contains(x),
    ensures
        inner_scan(s, tio, tts, ss, cur, acc).contains(x),
    decreases cur,
{
    lemma_inner_extends(s, tio, tts, ss, cur, acc);
    let next = acc + step_hits(s, tio, tts, ss, cur);
    let r = inner_scan(s, tio, tts, ss, cur, acc);
    if cur == nso {
        let m = choose|m: int| 0 <= m < step_hits(s, tio, tts, ss, nso).len() && step_hits(
            s,
            tio,
            tts,
            ss,
            nso,
        )[m] == x;
        assert(next[acc.len() + m] == x);
        if cur < 4 {
            assert(r == next);
        } else {
            lemma_inner_extends(s, tio, tts, ss, cur - 4, next);
            lemma_prefix_keeps(next, r, acc.len() + m);
        }
        assert(r[acc.len() + m] == x);
    } else {
        lemma_inner_reaches(s, tio, tts, ss, cur - 4, next, nso, x);
    }
}

proof fn lemma_token_index_reaches(
    s: Seq<u8>,
    tio: int,
    tts: int,
    acc: Seq<KallsymsCandidate>,
    nso: int,
    x: KallsymsCandidate,
)
    requires
        token_index_hits(s, tio, acc).len() < MAX_CANDIDATES,
        0 < tts < tio <= usize::MAX,
        token_table_len(s, tio) == Some((tio - tts) as usize),
        sat_sub(tts, SEARCH_WINDOW as int) <= nso <= align_down4(sat_sub(tts, 4)),
        (align_down4(sat_sub(tts, 4)) - nso) % 4 == 0,
        step_hits(s, tio, tts, sat_sub(tts, SEARCH_WINDOW as int), nso).contains(x),
    ensures
        token_index_hits(s, tio, acc).contains(x),
{
    let ss = sat_sub(tts, SEARCH_WINDOW as int);
    let start = align_down4(sat_sub(tts, 4));
    assert(token_index_hits(s, tio, acc) == inner_scan(s, tio, tts, ss, start, acc)) by {
        reveal(token_index_hits);
    }
    lemma_inner_reaches(s, tio, tts, ss, start, acc, nso, x);
}

proof fn lemma_outer_step(s: Seq<u8>, t: int, acc: Seq<KallsymsCandidate>)
    requires
        0 <= t,
        t + TOKEN_INDEX_BYTES <= s.len(),
        acc.len() < MAX_CANDIDATES,
    ensures
        outer_scan(s, t, acc) == outer_scan(s, t + 2, token_index_hits(s, t, acc)),
{
}

/// `x` is among the candidates found for a token index at `tio` whose token
/// table starts at `tts`, with the symbol count at `nso`.
#[verifier::opaque]
spec fn hit_at(s: Seq<u8>, tio: int, tts: int, nso: int, x: KallsymsCandidate) -> bool {
    &&& 0 < tts < tio <= usize::MAX
    &&& token_table_len(s, tio) == Some((tio - tts) as usize)
    &&& sat_sub(tts, SEARCH_WINDOW as int) <= nso <= align_down4(sat_sub(tts, 4))
    &&& (align_down4(sat_sub(tts, 4)) - nso) % 4 == 0
    &&& step_hits(s, tio, tts, sat_sub(tts, SEARCH_WINDOW as int), nso).contains(x)
}

proof fn lemma_outer_reaches(
    s: Seq<u8>,
    t: int,
    acc: Seq<KallsymsCandidate>,
    tio: int,
    tts: int,
    nso: int,
    x: KallsymsCandidate,
)
    requires
        outer_scan(s, t, acc).len() < MAX_CANDIDATES,
        0 <= t <= tio,
        (tio - t) % 2 == 0,
        tio + TOKEN_INDEX_BYTES <= s.len(),
        hit_at(s, tio, tts, nso, x),
    ensures
        outer_scan(s, t, acc).contains(x),
    decreases tio - t,
{
    lemma_outer_extends(s, t, acc);
    let next = token_index_hits(s, t, acc);
    lemma_outer_extends(s, t + 2, next);
    let r = outer_scan(s, t, acc);
    lemma_outer_step(s, t, acc);
    if t == tio {
        reveal(hit_at);
        lemma_token_index_reaches(s, tio, tts, acc, nso, x);
        let m = choose|m: int| 0 <= m < next.len() && next[m] == x;
        lemma_prefix_keeps(next, r, m);
    } else {
        lemma_outer_reaches(s, t + 2, next, tio, tts, nso, x);
    }
}

/// A back-to-back layout is a hit of the step at its symbol count.
#[verifier::rlimit(60)]
#[verifier::spinoff_prover]
proof fn lemma_layout_is_a_hit(s: Seq<u8>, tio: int, tts: int, nso: int, mode: AddressMode)
    requires
        s.len() <= usize::MAX,
        0 < tts < tio,
        tio + TOKEN_INDEX_BYTES <= s.len(),
        token_table_len(s, tio) == Some((tio - tts) as usize),
        nso % 4 == 0,
        0 <= nso,
        nso + 4 < tts,
        2 <= le_u32(s, nso) <= MAX_SYMBOLS,
        nso >= le_u32(s, nso) * width_of(mode),
        nso - le_u32(s, nso) * width_of(mode) >= sat_sub(tts, SEARCH_WINDOW as int),
        monotonic(s, nso - le_u32(s, nso) * width_of(mode), le_u32(s, nso) as int, width_of(mode)),
    ensures
        hit_at(s, tio, tts, nso, candidate_at(tio, tts, nso, le_u32(s, nso) as int, mode)),
{
    let n = le_u32(s, nso) as int;
    let w = width_of(mode);
    let ss = sat_sub(tts, SEARCH_WINDOW as int);
    let c = candidate_at(tio, tts, nso, n, mode);
    assert(n * w <= 8 * MAX_SYMBOLS) by (nonlinear_arith)
        requires
            n <= MAX_SYMBOLS,
            w == 4 || w == 8,
            n >= 0,
    ;
    assert(n * w > 0) by (nonlinear_arith)
        requires
            n >= 2,
            w == 4 || w == 8,
    ;
    assert(spec_validate_candidate(c, s.len() as int));
    assert(plausible_count(s, nso) == Some(n));
    assert(mode_hit(s, tio, tts, ss, nso, n, mode) == Some(c));
    let abs = hit_seq(mode_hit(s, tio, tts, ss, nso, n, AddressMode::Absolute));
    let rel = hit_seq(mode_hit(s, tio, tts, ss, nso, n, AddressMode::Relative));
    assert(step_hits(s, tio, tts, ss, nso) == abs + rel);
    match mode {
        AddressMode::Absolute => {
            assert((abs + rel)[0] == c);
        },
        AddressMode::Relative => {
            assert((abs + rel)[abs.len() as int] == c);
        },
    }
    assert(step_hits(s, tio, tts, ss, nso).contains(c));
    assert(hit_at(s, tio, tts, nso, c)) by {
        reveal(hit_at);
    }
}

/// The scan misses no back-to-back layout while it is below its cap: when it
/// reports fewer than 32 candidates, and at an even offset `tio` a token index
/// describes a token table that starts at `tts`, and below it, on a 4-byte
/// boundary inside the search window, a stored symbol count `n` of 2 to
/// 1,000,000 follows a non-decreasing table of `n` addresses and precedes at
/// least one byte of names, then a candidate with exactly these tables, count
/// and address mode is among those reported.
pub proof fn lemma_scan_finds_back_to_back_layout(
    s: Seq<u8>,
    tio: int,
    tts: int,
    nso: int,
    mode: AddressMode,
)
    requires
        s.len() <= usize::MAX,
        spec_scan_candidates(s).len() < MAX_CANDIDATES,
        tio % 2 == 0,
        0 < tts < tio,
        tio + TOKEN_INDEX_BYTES <= s.len(),
        token_table_len(s, tio) == Some((tio - tts) as usize),
        nso % 4 == 0,
        0 <= nso,
        nso + 4 < tts,
        2 <= le_u32(s, nso) <= MAX_SYMBOLS,
        nso >= le_u32(s, nso) * width_of(mode),
        nso - le_u32(s, nso) * width_of(mode) >= sat_sub(tts, SEARCH_WINDOW as int),
        monotonic(s, nso - le_u32(s, nso) * width_of(mode), le_u32(s, nso) as int, width_of(mode)),
    ensures
        exists|i: int|
            0 <= i < spec_scan_candidates(s).len() && {
                let c = #[trigger] spec_scan_candidates(s)[i];
                let n = le_u32(s, nso) as int;
                &&& c.num_syms == n
                &&& c.address_mode == mode
                &&& c.address_table.start == nso - n * width_of(mode)
                &&& c.address_table.end == nso
                &&& c.names_table.start == nso + 4
                &&& c.names_table.end == tts
                &&& c.token_table.start == tts
                &&& c.token_table.end == tio
                &&& c.token_index.start == tio
                &&& c.token_index.end == tio + TOKEN_INDEX_BYTES
            },
{
    let n = le_u32(s, nso) as int;
    let c = candidate_at(tio, tts, nso, n, mode);
    lemma_layout_is_a_hit(s, tio, tts, nso, mode);
    lemma_outer_reaches(s, 0, Seq::empty(), tio, tts, nso, c);
    let cs = spec_scan_candidates(s);
    let i = choose|i: int| 0 <= i < cs.len() && cs[i] == c;
    assert(cs[i] == c);
}

} // verus!
