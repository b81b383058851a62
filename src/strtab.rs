//! String tables: sections of null-terminated strings.

use vstd::prelude::*;
use vstd::slice::slice_subrange;

use crate::addr::Addr;
use crate::section::SectionHeader;

verus! {

/// The index of the first zero byte of `s` at or after `k`, or the length
/// of `s` where there is none.
pub open spec fn nul_index(s: Seq<u8>, k: int) -> int
    decreases s.len() - k,
{
    if k < 0 || k >= s.len() || s[k] == 0 {
        if k < 0 { 0 } else { k }
    } else {
        nul_index(s, k + 1)
    }
}

/// The bytes of `s` before its first zero byte.
pub open spec fn until_nul(s: Seq<u8>) -> Seq<u8> {
    s.subrange(0, nul_index(s, 0))
}

/// Where `n` bytes without a zero are followed by a zero, the string ends there.
pub proof fn lemma_nul_index_at(s: Seq<u8>, k: int, n: int)
    requires
        0 <= k <= n < s.len(),
        s[n] == 0,
        forall|j: int| k <= j < n ==> s[j] != 0,
    ensures
        nul_index(s, k) == n,
    decreases n - k,
{
    if k < n {
        lemma_nul_index_at(s, k + 1, n);
    }
}

/// Returns the bytes of `s` before its first zero byte.
pub fn split_at_nul(s: &[u8]) -> (r: &[u8])
    ensures
        r@ == until_nul(s@),
{
    let mut k: usize = 0;
    while k < s.len() && s[k] != 0
        invariant
            k <= s@.len(),
            nul_index(s@, 0) == nul_index(s@, k as int),
        decreases s@.len() - k,
    {
        k = k + 1;
    }
    slice_subrange(s, 0, k)
}

/// The string at `offset` of the string table `sh` of `file`, if the offset
/// is inside the table and the file holds the table whole.
pub open spec fn string_at(sh: SectionHeader, file: Seq<u8>, offset: Addr) -> Option<Seq<u8>> {
    match sh.spec_data_at(file, offset) {
        Some(d) => Some(until_nul(d)),
        None => None,
    }
}

/// A string without zero bytes, stored with a terminating zero at `offset`
/// of a string table, is read back unchanged from that offset.
pub proof fn lemma_strtab_round_trip(sh: SectionHeader, file: Seq<u8>, offset: Addr, s: Seq<u8>)
    requires
        sh.off.0 + sh.size.0 <= file.len(),
        offset.0 + s.len() < sh.size.0,
        forall|j: int| 0 <= j < s.len() ==> s[j] != 0,
        file.subrange(sh.off.0 + offset.0, sh.off.0 + offset.0 + s.len() + 1) == s.push(0),
    ensures
        string_at(sh, file, offset) == Some(s),
{
    let d = file.subrange(sh.off.0 + offset.0, sh.off.0 + sh.size.0);
    assert forall|j: int| 0 <= j <= s.len() implies d[j] == s.push(0)[j] by {
        assert(d[j] == file[sh.off.0 + offset.0 + j]);
        assert(s.push(0)[j] == file.subrange(sh.off.0 + offset.0, sh.off.0 + offset.0 + s.len() + 1)[j]);
    }
    lemma_nul_index_at(d, 0, s.len() as int);
    assert(until_nul(d) =~= s);
}

/// A section whose contents are read as a table of strings, with the file
/// that holds it.
#[derive(Clone, Copy, Debug)]
pub struct StrTab<'a>(pub &'a SectionHeader, pub &'a [u8]);

impl<'a> StrTab<'a> {
    /// The string at `offset` of the table, if the offset is inside it.
    pub open spec fn spec_at(self, offset: Addr) -> Option<Seq<u8>> {
        string_at(*self.0, self.1@, offset)
    }

    /// Reads the string at the given offset: its bytes up to the first zero.
    pub fn at(&self, offset: Addr) -> (r: Option<&'a [u8]>)
        ensures
            r matches Some(s) ==> Some(s@) == self.spec_at(offset),
            r is None ==> self.spec_at(offset) is None,
    {
        match self.0.data_at(self.1, offset) {
            Some(d) => Some(split_at_nul(d)),
            None => None,
        }
    }
}

} // verus!
