use vstd::prelude::*;
use crate::error::UkaError;

verus! {

/// What a read-only look at XBL config data finds.
#[derive(Debug, Clone, Copy, PartialEq, Eq, Structural)]
pub struct XblConfigSummary {
    pub size: usize,
    pub printable_strings: usize,
    pub has_null_padding: bool,
}

/// A byte that may stand in a printable string: ASCII graphic or space.
pub open spec fn is_printable(b: u8) -> bool {
    0x20 <= b <= 0x7e
}

/// The number of NUL bytes among the first `k` bytes of `s` that end a
/// printable run (follow a printable byte).
pub open spec fn nul_terminated_runs(s: Seq<u8>, k: int) -> nat
    decreases k,
{
    if k <= 1 {
        0
    } else {
        nul_terminated_runs(s, k - 1) + if s[k - 1] == 0 && is_printable(s[k - 2]) {
            1nat
        } else {
            0nat
        }
    }
}

/// The number of printable strings in `s`: printable runs that end in a NUL
/// byte, plus one when `s` ends inside a printable run.
pub open spec fn printable_string_count(s: Seq<u8>) -> nat {
    nul_terminated_runs(s, s.len() as int) + if s.len() > 0 && is_printable(s[s.len() - 1]) {
        1nat
    } else {
        0nat
    }
}

/// Read-only inspection of Qualcomm XBL config data.
///
/// The blob is treated as opaque firmware metadata: only its size, its
/// printable strings and whether it holds NUL padding are reported.
pub fn inspect_xbl_config(data: &[u8]) -> (r: Result<XblConfigSummary, UkaError>)
    ensures
        match r {
            Ok(summary) => {
                &&& data@.len() > 0
                &&& summary.size == data@.len()
                &&& summary.printable_strings == printable_string_count(data@)
                &&& summary.has_null_padding == data@.contains(0u8)
            },
            Err(e) => data@.len() == 0 && e == UkaError::EmptyInput,
        },
{
    if data.len() == 0 {
        return Err(UkaError::EmptyInput);
    }
    let mut printable_strings: usize = 0;
    let mut in_string = false;
    let mut has_null_padding = false;
    let mut i: usize = 0;
    while i < data.len()
        invariant
            i <= data@.len(),
            printable_strings == nul_terminated_runs(data@, i as int),
            i > 0 ==> printable_strings < i,
            i == 0 ==> printable_strings == 0,
            in_string == (i > 0 && is_printable(data@[i - 1])),
            has_null_padding == (exists|j: int| 0 <= j < i && data@[j] == 0),
        decreases data@.len() - i,
    {
        let byte = data[i];
        if byte == 0 {
            if in_string {
                printable_strings += 1;
                in_string = false;
            }
            has_null_padding = true;
        } else if 0x21 <= byte && byte <= 0x7e || byte == 0x20 {
            in_string = true;
        } else {
            in_string = false;
        }
        i += 1;
    }
    if in_string {
        printable_strings += 1;
    }
    assert(has_null_padding == data@.contains(0u8));
    Ok(XblConfigSummary { size: data.len(), printable_strings, has_null_padding })
}

/// Every printable string ends at a distinct byte, so there are never more
/// strings than bytes.
pub proof fn lemma_printable_strings_bounded(s: Seq<u8>)
    ensures
        printable_string_count(s) <= s.len(),
{
    lemma_runs_bounded(s, s.len() as int);
}

proof fn lemma_runs_bounded(s: Seq<u8>, k: int)
    requires
        k <= s.len(),
    ensures
        k <= 1 ==> nul_terminated_runs(s, k) == 0,
        k > 1 ==> nul_terminated_runs(s, k) <= k - 1,
    decreases k,
{
    if k > 1 {
        lemma_runs_bounded(s, k - 1);
    }
}

} // verus!
