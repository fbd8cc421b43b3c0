use vstd::prelude::*;

verus! {

/// Little-endian `u16` stored at `off`.
pub open spec fn le_u16(s: Seq<u8>, off: int) -> u16 {
    (s[off] as int + s[off + 1] as int * 0x100) as u16
}

/// Little-endian `u32` stored at `off`.
pub open spec fn le_u32(s: Seq<u8>, off: int) -> u32 {
    (s[off] as int + s[off + 1] as int * 0x100 + s[off + 2] as int * 0x1_0000
        + s[off + 3] as int * 0x100_0000) as u32
}

/// Little-endian `u64` stored at `off`.
pub open spec fn le_u64(s: Seq<u8>, off: int) -> u64 {
    (le_u32(s, off) as int + le_u32(s, off + 4) as int * 0x1_0000_0000) as u64
}

/// Big-endian `u32` stored at `off`.
pub open spec fn be_u32(s: Seq<u8>, off: int) -> u32 {
    (s[off + 3] as int + s[off + 2] as int * 0x100 + s[off + 1] as int * 0x1_0000
        + s[off] as int * 0x100_0000) as u32
}

/// Big-endian `u64` stored at `off`.
pub open spec fn be_u64(s: Seq<u8>, off: int) -> u64 {
    (be_u32(s, off + 4) as int + be_u32(s, off) as int * 0x1_0000_0000) as u64
}

/// Whether `width` bytes starting at `off` lie inside `s`.
pub open spec fn fits(s: Seq<u8>, off: int, width: int) -> bool {
    0 <= off && off + width <= s.len()
}

/// Whether `s` holds `pat` starting at `off`.
pub open spec fn holds_at(s: Seq<u8>, off: int, pat: Seq<u8>) -> bool {
    fits(s, off, pat.len() as int) && s.subrange(off, off + pat.len()) == pat
}

/// Whether `s` begins with `pat`.
pub open spec fn starts_with(s: Seq<u8>, pat: Seq<u8>) -> bool {
    holds_at(s, 0, pat)
}

/// `x` is a power of two.
pub open spec fn is_pow2(x: nat) -> bool
    decreases x,
{
    if x == 0 {
        false
    } else if x == 1 {
        true
    } else {
        x % 2 == 0 && is_pow2(x / 2)
    }
}

pub fn read_u16_le(data: &[u8], off: usize) -> (r: Option<u16>)
    ensures
        r == if fits(data@, off as int, 2) { Some(le_u16(data@, off as int)) } else { None::<u16> },
{
    if off <= data.len() && data.len() - off >= 2 {
        Some(data[off] as u16 + data[off + 1] as u16 * 0x100)
    } else {
        None
    }
}

pub fn read_u32_le(data: &[u8], off: usize) -> (r: Option<u32>)
    ensures
        r == if fits(data@, off as int, 4) { Some(le_u32(data@, off as int)) } else { None::<u32> },
{
    if off <= data.len() && data.len() - off >= 4 {
        Some(data[off] as u32 + data[off + 1] as u32 * 0x100 + data[off + 2] as u32 * 0x1_0000
            + data[off + 3] as u32 * 0x100_0000)
    } else {
        None
    }
}

pub fn read_u64_le(data: &[u8], off: usize) -> (r: Option<u64>)
    ensures
        r == if fits(data@, off as int, 8) { Some(le_u64(data@, off as int)) } else { None::<u64> },
{
    if off <= data.len() && data.len() - off >= 8 {
        let lo = data[off] as u64 + data[off + 1] as u64 * 0x100 + data[off + 2] as u64 * 0x1_0000
            + data[off + 3] as u64 * 0x100_0000;
        let hi = data[off + 4] as u64 + data[off + 5] as u64 * 0x100 + data[off + 6] as u64
            * 0x1_0000 + data[off + 7] as u64 * 0x100_0000;
        Some(lo + hi * 0x1_0000_0000)
    } else {
        None
    }
}

pub fn read_u32_be(data: &[u8], off: usize) -> (r: Option<u32>)
    ensures
        r == if fits(data@, off as int, 4) { Some(be_u32(data@, off as int)) } else { None::<u32> },
{
    if off <= data.len() && data.len() - off >= 4 {
        Some(data[off + 3] as u32 + data[off + 2] as u32 * 0x100 + data[off + 1] as u32 * 0x1_0000
            + data[off] as u32 * 0x100_0000)
    } else {
        None
    }
}

pub fn read_u64_be(data: &[u8], off: usize) -> (r: Option<u64>)
    ensures
        r == if fits(data@, off as int, 8) { Some(be_u64(data@, off as int)) } else { None::<u64> },
{
    if off <= data.len() && data.len() - off >= 8 {
        let lo = data[off + 7] as u64 + data[off + 6] as u64 * 0x100 + data[off + 5] as u64
            * 0x1_0000 + data[off + 4] as u64 * 0x100_0000;
        let hi = data[off + 3] as u64 + data[off + 2] as u64 * 0x100 + data[off + 1] as u64
            * 0x1_0000 + data[off] as u64 * 0x100_0000;
        Some(lo + hi * 0x1_0000_0000)
    } else {
        None
    }
}

/// Whether `data` holds `pat` at `off`.
pub fn holds_pattern(data: &[u8], off: usize, pat: &[u8]) -> (r: bool)
    ensures
        r == holds_at(data@, off as int, pat@),
{
    if off > data.len() || data.len() - off < pat.len() {
        return false;
    }
    let mut i: usize = 0;
    while i < pat.len()
        invariant
            off + pat@.len() <= data.len(),
            i <= pat@.len(),
            forall|j: int| 0 <= j < i ==> data@[off + j] == pat@[j],
        decreases pat@.len() - i,
    {
        if data[off + i] != pat[i] {
            assert(data@.subrange(off as int, off + pat@.len())[i as int] != pat@[i as int]);
            return false;
        }
        i += 1;
    }
    assert(data@.subrange(off as int, off + pat@.len()) =~= pat@);
    true
}

/// Whether `a` and `b` hold the same bytes.
pub fn bytes_equal(a: &[u8], b: &[u8]) -> (r: bool)
    ensures
        r == (a@ == b@),
{
    if a.len() != b.len() {
        return false;
    }
    let mut i: usize = 0;
    while i < a.len()
        invariant
            a@.len() == b@.len(),
            i <= a@.len(),
            forall|j: int| 0 <= j < i ==> a@[j] == b@[j],
        decreases a@.len() - i,
    {
        if a[i] != b[i] {
            return false;
        }
        i += 1;
    }
    assert(a@ =~= b@);
    true
}

/// Whether `x` is a power of two.
pub fn is_power_of_two(x: u64) -> (r: bool)
    ensures
        r == is_pow2(x as nat),
{
    if x == 0 {
        return false;
    }
    let mut v = x;
    while v > 1 && v % 2 == 0
        invariant
            v > 0,
            is_pow2(v as nat) == is_pow2(x as nat),
        decreases v,
    {
        v = v / 2;
    }
    v == 1
}

} // verus!
