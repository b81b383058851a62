//! Dynamic sections: tables of (tag, value) entries ended by a null entry.

use vstd::prelude::*;
use vstd::slice::{slice_subrange, slice_to_vec};

use crate::addr::Addr;
use crate::parse::{read_u64, u64_at, Error, ErrorKind, Field};
use crate::section::SectionHeader;
use crate::strtab::StrTab;

verus! {

/// The size in bytes of a dynamic entry.
pub const DYNAMIC_ENTRY_SIZE: usize = 16;

/// The tag of a dynamic entry.
#[derive(Clone, Copy, Debug, PartialEq, Eq, Structural)]
pub enum DynamicTag {
    Null,
    Needed,
    PltRelSz,
    PltGot,
    Hash,
    StrTab,
    SymTab,
    Rela,
    RelaSz,
    RelaEnt,
    StrSz,
    SymEnt,
    Init,
    Fini,
    SoName,
    RPath,
    Symbolic,
    Rel,
    RelSz,
    RelEnt,
    PltRel,
    Debug,
    TextRel,
    JmpRel,
    BindNow,
    InitArray,
    FiniArray,
    InitArraySz,
    FiniArraySz,
    Runpath,
    Flags,
    GnuHash,
    VerSym,
    RelaCount,
    Flags1,
    VerDef,
    VerDefNum,
    VerNeed,
    VerNeedNum,
}

impl DynamicTag {
    /// The tag that `v` encodes, if any.
    pub open spec fn spec_from_raw(v: u64) -> Option<DynamicTag> {
        if v == 0 {
            Some(DynamicTag::Null)
        } else if v == 1 {
            Some(DynamicTag::Needed)
        } else if v == 2 {
            Some(DynamicTag::PltRelSz)
        } else if v == 3 {
            Some(DynamicTag::PltGot)
        } else if v == 4 {
            Some(DynamicTag::Hash)
        } else if v == 5 {
            Some(DynamicTag::StrTab)
        } else if v == 6 {
            Some(DynamicTag::SymTab)
        } else if v == 7 {
            Some(DynamicTag::Rela)
        } else if v == 8 {
            Some(DynamicTag::RelaSz)
        } else if v == 9 {
            Some(DynamicTag::RelaEnt)
        } else if v == 10 {
            Some(DynamicTag::StrSz)
        } else if v == 11 {
            Some(DynamicTag::SymEnt)
        } else if v == 12 {
            Some(DynamicTag::Init)
        } else if v == 13 {
            Some(DynamicTag::Fini)
        } else if v == 14 {
            Some(DynamicTag::SoName)
        } else if v == 15 {
            Some(DynamicTag::RPath)
        } else if v == 16 {
            Some(DynamicTag::Symbolic)
        } else if v == 17 {
            Some(DynamicTag::Rel)
        } else if v == 18 {
            Some(DynamicTag::RelSz)
        } else if v == 19 {
            Some(DynamicTag::RelEnt)
        } else if v == 20 {
            Some(DynamicTag::PltRel)
        } else if v == 21 {
            Some(DynamicTag::Debug)
        } else if v == 22 {
            Some(DynamicTag::TextRel)
        } else if v == 23 {
            Some(DynamicTag::JmpRel)
        } else if v == 24 {
            Some(DynamicTag::BindNow)
        } else if v == 25 {
            Some(DynamicTag::InitArray)
        } else if v == 26 {
            Some(DynamicTag::FiniArray)
        } else if v == 27 {
            Some(DynamicTag::InitArraySz)
        } else if v == 28 {
            Some(DynamicTag::FiniArraySz)
        } else if v == 29 {
            Some(DynamicTag::Runpath)
        } else if v == 30 {
            Some(DynamicTag::Flags)
        } else if v == 0x6fff_fef5 {
            Some(DynamicTag::GnuHash)
        } else if v == 0x6fff_fff0 {
            Some(DynamicTag::VerSym)
        } else if v == 0x6fff_fff9 {
            Some(DynamicTag::RelaCount)
        } else if v == 0x6fff_fffb {
            Some(DynamicTag::Flags1)
        } else if v == 0x6fff_fffc {
            Some(DynamicTag::VerDef)
        } else if v == 0x6fff_fffd {
            Some(DynamicTag::VerDefNum)
        } else if v == 0x6fff_fffe {
            Some(DynamicTag::VerNeed)
        } else if v == 0x6fff_ffff {
            Some(DynamicTag::VerNeedNum)
        } else {
            None
        }
    }

    /// Decodes a dynamic tag.
    pub fn from_raw(v: u64) -> (r: Option<DynamicTag>)
        ensures
            r == Self::spec_from_raw(v),
    {
        if v == 0 {
            Some(DynamicTag::Null)
        } else if v == 1 {
            Some(DynamicTag::Needed)
        } else if v == 2 {
            Some(DynamicTag::PltRelSz)
        } else if v == 3 {
            Some(DynamicTag::PltGot)
        } else if v == 4 {
            Some(DynamicTag::Hash)
        } else if v == 5 {
            Some(DynamicTag::StrTab)
        } else if v == 6 {
            Some(DynamicTag::SymTab)
        } else if v == 7 {
            Some(DynamicTag::Rela)
        } else if v == 8 {
            Some(DynamicTag::RelaSz)
        } else if v == 9 {
            Some(DynamicTag::RelaEnt)
        } else if v == 10 {
            Some(DynamicTag::StrSz)
        } else if v == 11 {
            Some(DynamicTag::SymEnt)
        } else if v == 12 {
            Some(DynamicTag::Init)
        } else if v == 13 {
            Some(DynamicTag::Fini)
        } else if v == 14 {
            Some(DynamicTag::SoName)
        } else if v == 15 {
            Some(DynamicTag::RPath)
        } else if v == 16 {
            Some(DynamicTag::Symbolic)
        } else if v == 17 {
            Some(DynamicTag::Rel)
        } else if v == 18 {
            Some(DynamicTag::RelSz)
        } else if v == 19 {
            Some(DynamicTag::RelEnt)
        } else if v == 20 {
            Some(DynamicTag::PltRel)
        } else if v == 21 {
            Some(DynamicTag::Debug)
        } else if v == 22 {
            Some(DynamicTag::TextRel)
        } else if v == 23 {
            Some(DynamicTag::JmpRel)
        } else if v == 24 {
            Some(DynamicTag::BindNow)
        } else if v == 25 {
            Some(DynamicTag::InitArray)
        } else if v == 26 {
            Some(DynamicTag::FiniArray)
        } else if v == 27 {
            Some(DynamicTag::InitArraySz)
        } else if v == 28 {
            Some(DynamicTag::FiniArraySz)
        } else if v == 29 {
            Some(DynamicTag::Runpath)
        } else if v == 30 {
            Some(DynamicTag::Flags)
        } else if v == 0x6fff_fef5 {
            Some(DynamicTag::GnuHash)
        } else if v == 0x6fff_fff0 {
            Some(DynamicTag::VerSym)
        } else if v == 0x6fff_fff9 {
            Some(DynamicTag::RelaCount)
        } else if v == 0x6fff_fffb {
            Some(DynamicTag::Flags1)
        } else if v == 0x6fff_fffc {
            Some(DynamicTag::VerDef)
        } else if v == 0x6fff_fffd {
            Some(DynamicTag::VerDefNum)
        } else if v == 0x6fff_fffe {
            Some(DynamicTag::VerNeed)
        } else if v == 0x6fff_ffff {
            Some(DynamicTag::VerNeedNum)
        } else {
            None
        }
    }

    /// Whether the value of an entry with this tag is an offset into the
    /// string table.
    pub open spec fn spec_names_string(self) -> bool {
        ||| self == DynamicTag::Needed
        ||| self == DynamicTag::SoName
        ||| self == DynamicTag::RPath
        ||| self == DynamicTag::Runpath
    }

    /// Returns whether the value of an entry with this tag is an offset into
    /// the string table.
    pub fn names_string(self) -> (r: bool)
        ensures
            r == self.spec_names_string(),
    {
        match self {
            DynamicTag::Needed | DynamicTag::SoName | DynamicTag::RPath | DynamicTag::Runpath => true,
            _ => false,
        }
    }
}

/// The value of a dynamic entry: an address, or a string of the string table.
#[derive(Clone, Debug)]
pub enum AddrOrString {
    Address(Addr),
    String(Vec<u8>),
}

impl AddrOrString {
    /// The string that the value holds.
    pub fn unwrap_string(&self) -> (r: &Vec<u8>)
        requires
            self is String,
        ensures
            r@ == self->String_0@,
    {
        match self {
            AddrOrString::String(s) => s,
            AddrOrString::Address(_) => {
                proof {
                    assert(false);
                }
                unreached()
            },
        }
    }
}

/// A dynamic entry.
#[derive(Clone, Debug)]
pub struct DynamicEntry {
    pub addr: AddrOrString,
    pub tag: DynamicTag,
}

impl DynamicEntry {
    /// Whether `e` is the entry with tag `tag` and raw value `value`, read
    /// with the string table `strtab`.
    pub open spec fn spec_is(e: DynamicEntry, tag: DynamicTag, value: u64, strtab: StrTab) -> bool {
        &&& e.tag == tag
        &&& if tag.spec_names_string() && strtab.spec_at(Addr(value)) is Some {
            e.addr matches AddrOrString::String(s) && s@ == strtab.spec_at(Addr(value))->Some_0
        } else {
            e.addr == AddrOrString::Address(Addr(value))
        }
    }

    /// Parses the entry at the start of `i`, resolving string values through
    /// `strtab`.
    pub fn parse(i: &[u8], strtab: &StrTab) -> (r: Result<DynamicEntry, Error>)
        ensures
            r is Ok <==> i@.len() >= DYNAMIC_ENTRY_SIZE
                && DynamicTag::spec_from_raw(u64_at(i@, 0)) is Some,
            r matches Ok(e) ==> Self::spec_is(
                e,
                DynamicTag::spec_from_raw(u64_at(i@, 0))->Some_0,
                u64_at(i@, 8),
                *strtab,
            ),
            r matches Err(e) ==> e == (if i@.len() < DYNAMIC_ENTRY_SIZE {
                Error { offset: 0, kind: ErrorKind::Truncated(Field::DynamicTag) }
            } else {
                Error { offset: 0, kind: ErrorKind::Invalid(Field::DynamicTag, u64_at(i@, 0)) }
            }),
    {
        let (raw_tag, value) = match (read_u64(i, 0, Field::DynamicTag), read_u64(i, 8, Field::DynamicTag)) {
            (Ok(t), Ok(v)) => (t, v),
            _ => { return Err(Error { offset: 0, kind: ErrorKind::Truncated(Field::DynamicTag) }); },
        };
        let tag = match DynamicTag::from_raw(raw_tag) {
            Some(t) => t,
            None => { return Err(Error { offset: 0, kind: ErrorKind::Invalid(Field::DynamicTag, raw_tag) }); },
        };
        let addr = if tag.names_string() {
            match strtab.at(Addr(value)) {
                Some(s) => AddrOrString::String(slice_to_vec(s)),
                None => AddrOrString::Address(Addr(value)),
            }
        } else {
            AddrOrString::Address(Addr(value))
        };
        Ok(DynamicEntry { addr, tag })
    }
}

/// The tag of entry `k` of the dynamic entries `d`, if it is whole and known.
pub open spec fn tag_at(d: Seq<u8>, k: int) -> Option<DynamicTag> {
    if k * 16 + 16 <= d.len() {
        DynamicTag::spec_from_raw(u64_at(d, k * 16))
    } else {
        None
    }
}

/// The index of the first entry from entry `k` on that has tag `typ`, where
/// it comes before the null entry and every entry before it parses.
pub open spec fn find_tag(d: Seq<u8>, typ: DynamicTag, k: nat) -> Option<nat>
    decreases d.len() - k * 16,
{
    if k * 16 + 16 > d.len() {
        None
    } else {
        match tag_at(d, k as int) {
            None => None,
            Some(DynamicTag::Null) => None,
            Some(t) => if t == typ {
                Some(k)
            } else {
                find_tag(d, typ, k + 1)
            },
        }
    }
}

/// A dynamic section, with the string table its entries refer to.
#[derive(Clone, Copy, Debug)]
pub struct DynamicSection<'a>(pub &'a SectionHeader, pub StrTab<'a>);

impl<'a> DynamicSection<'a> {
    /// Returns the first entry with tag `typ` before the null entry that
    /// ends the section.
    pub fn entry_with_tag(&self, typ: DynamicTag) -> (r: Option<DynamicEntry>)
        ensures
            r is Some <==> (self.0.spec_data(self.1.1@) matches Some(d) && find_tag(d, typ, 0) is Some),
            r matches Some(e) ==> {
                let d = self.0.spec_data(self.1.1@)->Some_0;
                let k = find_tag(d, typ, 0)->Some_0 as int;
                DynamicEntry::spec_is(e, typ, u64_at(d, k * 16 + 8), self.1)
            },
    {
        let d = match self.0.data(self.1.1) {
            Some(d) => d,
            None => { return None; },
        };
        let mut k: usize = 0;
        while k < d.len() / 16
            invariant
                k <= d@.len() / 16,
                find_tag(d@, typ, 0) == find_tag(d@, typ, k as nat),
                self.0.spec_data(self.1.1@) == Some(d@),
            decreases d@.len() / 16 - k,
        {
            assert(k * 16 + 16 <= d@.len()) by (nonlinear_arith)
                requires
                    k < d@.len() / 16,
            ;
            let rec = slice_subrange(d, k * 16, d.len());
            assert(rec@.subrange(0, 8) == d@.subrange(k * 16, k * 16 + 8));
            assert(rec@.subrange(8, 16) == d@.subrange(k * 16 + 8, k * 16 + 16));
            assert(u64_at(rec@, 0) == u64_at(d@, k * 16));
            assert(tag_at(d@, k as int) == DynamicTag::spec_from_raw(u64_at(rec@, 0)));
            match DynamicEntry::parse(rec, &self.1) {
                Ok(e) => {
                    if e.tag == DynamicTag::Null {
                        assert(tag_at(d@, k as int) == Some(DynamicTag::Null));
                        assert(find_tag(d@, typ, k as nat) is None);
                        return None;
                    }
                    if e.tag == typ {
                        return Some(e);
                    }
                },
                Err(_) => { return None; },
            }
            k = k + 1;
        }
        None
    }
}

} // verus!
