//! Section headers: the directory of an ELF file's sections.

use vstd::prelude::*;
use vstd::slice::slice_subrange;

use crate::addr::Addr;
use crate::parse::{read_addr, read_u32, read_u64, u32_at, u64_at, Error, ErrorKind, Field};

verus! {

/// The size in bytes of a section header record.
pub const SECTION_HEADER_SIZE: usize = 64;

/// The type of a section.
#[derive(Clone, Copy, Debug, PartialEq, Eq, Structural)]
pub enum SectionType {
    Null,
    ProgBits,
    SymTab,
    StrTab,
    Rela,
    Hash,
    Dynamic,
    Note,
    NoBits,
    Rel,
    DynSym,
    Unknown4,
    Unknown5,
    Unknown1,
    Unknown2,
    Unknown3,
}

impl SectionType {
    /// The section type that `v` encodes, if any.
    pub open spec fn spec_from_raw(v: u32) -> Option<SectionType> {
        if v == 0 {
            Some(SectionType::Null)
        } else if v == 1 {
            Some(SectionType::ProgBits)
        } else if v == 2 {
            Some(SectionType::SymTab)
        } else if v == 3 {
            Some(SectionType::StrTab)
        } else if v == 4 {
            Some(SectionType::Rela)
        } else if v == 5 {
            Some(SectionType::Hash)
        } else if v == 6 {
            Some(SectionType::Dynamic)
        } else if v == 7 {
            Some(SectionType::Note)
        } else if v == 8 {
            Some(SectionType::NoBits)
        } else if v == 9 {
            Some(SectionType::Rel)
        } else if v == 11 {
            Some(SectionType::DynSym)
        } else if v == 14 {
            Some(SectionType::Unknown4)
        } else if v == 15 {
            Some(SectionType::Unknown5)
        } else if v == 0x6fff_fff6 {
            Some(SectionType::Unknown1)
        } else if v == 0x6fff_fffe {
            Some(SectionType::Unknown2)
        } else if v == 0x6fff_ffff {
            Some(SectionType::Unknown3)
        } else {
            None
        }
    }

    /// Decodes a section type.
    pub fn from_raw(v: u32) -> (r: Option<SectionType>)
        ensures
            r == Self::spec_from_raw(v),
    {
        if v == 0 {
            Some(SectionType::Null)
        } else if v == 1 {
            Some(SectionType::ProgBits)
        } else if v == 2 {
            Some(SectionType::SymTab)
        } else if v == 3 {
            Some(SectionType::StrTab)
        } else if v == 4 {
            Some(SectionType::Rela)
        } else if v == 5 {
            Some(SectionType::Hash)
        } else if v == 6 {
            Some(SectionType::Dynamic)
        } else if v == 7 {
            Some(SectionType::Note)
        } else if v == 8 {
            Some(SectionType::NoBits)
        } else if v == 9 {
            Some(SectionType::Rel)
        } else if v == 11 {
            Some(SectionType::DynSym)
        } else if v == 14 {
            Some(SectionType::Unknown4)
        } else if v == 15 {
            Some(SectionType::Unknown5)
        } else if v == 0x6fff_fff6 {
            Some(SectionType::Unknown1)
        } else if v == 0x6fff_fffe {
            Some(SectionType::Unknown2)
        } else if v == 0x6fff_ffff {
            Some(SectionType::Unknown3)
        } else {
            None
        }
    }
}

/// A section header.
///
/// The section's bytes are not held here: they are read from the file
/// that the header came from, which the accessors take as an argument.
#[derive(Clone, Copy, Debug, PartialEq, Eq, Structural)]
pub struct SectionHeader {
    pub name: Addr,
    pub typ: SectionType,
    pub flags: u64,
    pub addr: Addr,
    pub off: Addr,
    pub size: Addr,
    pub link: u32,
    pub info: u32,
    pub addralign: Addr,
    pub entsize: Addr,
}

impl SectionHeader {
    /// Whether `i` is a section header record that parses.
    pub open spec fn spec_parses(i: Seq<u8>) -> bool {
        &&& i.len() >= SECTION_HEADER_SIZE
        &&& SectionType::spec_from_raw(u32_at(i, 4)) is Some
    }

    /// The section header that the record `i` encodes.
    pub open spec fn spec_parse(i: Seq<u8>) -> SectionHeader {
        SectionHeader {
            name: Addr(u32_at(i, 0) as u64),
            typ: SectionType::spec_from_raw(u32_at(i, 4))->Some_0,
            flags: u64_at(i, 8),
            addr: Addr(u64_at(i, 16)),
            off: Addr(u64_at(i, 24)),
            size: Addr(u64_at(i, 32)),
            link: u32_at(i, 40),
            info: u32_at(i, 44),
            addralign: Addr(u64_at(i, 48)),
            entsize: Addr(u64_at(i, 56)),
        }
    }

    /// The error that the record `i`, found at `base` of its file, gives.
    pub open spec fn spec_error(i: Seq<u8>, base: int) -> Error {
        if i.len() < SECTION_HEADER_SIZE {
            Error { offset: base as usize, kind: ErrorKind::Truncated(Field::SectionHeaders) }
        } else {
            Error {
                offset: (base + 4) as usize,
                kind: ErrorKind::Invalid(Field::SectionType, u32_at(i, 4) as u64),
            }
        }
    }

    /// Parses the section header record `i`, which stands at `base` of its file.
    pub fn parse(i: &[u8], base: usize) -> (r: Result<SectionHeader, Error>)
        requires
            base + i@.len() <= usize::MAX,
        ensures
            r is Ok <==> Self::spec_parses(i@),
            r is Ok ==> r->Ok_0 == Self::spec_parse(i@),
            r is Err ==> r->Err_0 == Self::spec_error(i@, base as int),
    {
        if i.len() < SECTION_HEADER_SIZE {
            return Err(Error { offset: base, kind: ErrorKind::Truncated(Field::SectionHeaders) });
        }
        let name = read_u32(i, 0, Field::SectionHeaders);
        let raw_typ = read_u32(i, 4, Field::SectionType);
        let (name, raw_typ) = match (name, raw_typ) {
            (Ok(n), Ok(t)) => (n, t),
            _ => { return Err(Error { offset: base, kind: ErrorKind::Truncated(Field::SectionHeaders) }); },
        };
        let typ = match SectionType::from_raw(raw_typ) {
            Some(t) => t,
            None => {
                return Err(
                    Error { offset: base + 4, kind: ErrorKind::Invalid(Field::SectionType, raw_typ as u64) },
                );
            },
        };
        let flags = read_u64(i, 8, Field::SectionHeaders);
        let addr = read_addr(i, 16, Field::SectionHeaders);
        let off = read_addr(i, 24, Field::SectionHeaders);
        let size = read_addr(i, 32, Field::SectionHeaders);
        let link = read_u32(i, 40, Field::SectionHeaders);
        let info = read_u32(i, 44, Field::SectionHeaders);
        let addralign = read_addr(i, 48, Field::SectionHeaders);
        let entsize = read_addr(i, 56, Field::SectionHeaders);
        match (flags, addr, off, size, link, info, addralign, entsize) {
            (Ok(flags), Ok(addr), Ok(off), Ok(size), Ok(link), Ok(info), Ok(addralign), Ok(entsize)) => {
                Ok(SectionHeader { name: Addr(name as u64), typ, flags, addr, off, size, link, info, addralign, entsize })
            },
            _ => Err(Error { offset: base, kind: ErrorKind::Truncated(Field::SectionHeaders) }),
        }
    }

    /// The bytes of the section in `file`, if the file holds them whole.
    pub open spec fn spec_data(self, file: Seq<u8>) -> Option<Seq<u8>> {
        if self.off.0 + self.size.0 <= file.len() {
            Some(file.subrange(self.off.0 as int, self.off.0 + self.size.0))
        } else {
            None
        }
    }

    /// The bytes of the section from `offset` on, where `offset` is within
    /// the section and the file holds the section whole.
    pub open spec fn spec_data_at(self, file: Seq<u8>, offset: Addr) -> Option<Seq<u8>> {
        if offset.0 < self.size.0 && self.off.0 + self.size.0 <= file.len() {
            Some(file.subrange(self.off.0 + offset.0, self.off.0 + self.size.0))
        } else {
            None
        }
    }

    /// The bytes that `data_at` gives end where the section ends, inside the
    /// file; there are none at or past the section's size.
    pub proof fn lemma_data_at_within_section(self, file: Seq<u8>, offset: Addr)
        ensures
            offset.0 >= self.size.0 ==> self.spec_data_at(file, offset) is None,
            self.spec_data_at(file, offset) matches Some(d) ==> {
                &&& self.off.0 + offset.0 + d.len() == self.off.0 + self.size.0
                &&& self.off.0 + self.size.0 <= file.len()
                &&& d == file.subrange(self.off.0 + offset.0, self.off.0 + self.size.0)
            },
    {
    }

    /// Returns the bytes of the section from `offset` to its end.
    pub fn data_at<'a>(&self, file: &'a [u8], offset: Addr) -> (r: Option<&'a [u8]>)
        ensures
            r matches Some(d) ==> Some(d@) == self.spec_data_at(file@, offset),
            r is None ==> self.spec_data_at(file@, offset) is None,
    {
        if offset.0 >= self.size.0 {
            return None;
        }
        let len = file.len() as u64;
        if self.off.0 > len || self.size.0 > len - self.off.0 {
            return None;
        }
        Some(slice_subrange(file, (self.off.0 + offset.0) as usize, (self.off.0 + self.size.0) as usize))
    }

    /// Returns the bytes of the section.
    pub fn data<'a>(&self, file: &'a [u8]) -> (r: Option<&'a [u8]>)
        ensures
            r matches Some(d) ==> Some(d@) == self.spec_data(file@),
            r is None ==> self.spec_data(file@) is None,
    {
        let len = file.len() as u64;
        if self.off.0 > len || self.size.0 > len - self.off.0 {
            return None;
        }
        Some(slice_subrange(file, self.off.0 as usize, (self.off.0 + self.size.0) as usize))
    }
}

/// The index of a section, as a symbol names it.
#[derive(Clone, Copy, Debug, PartialEq, Eq, Structural)]
pub struct SectionIndex(pub u16);

impl SectionIndex {
    /// Whether the symbol is undefined.
    pub fn is_undef(&self) -> (r: bool)
        ensures
            r == (self.0 == 0),
    {
        self.0 == 0
    }

    /// Whether the index is in the reserved range.
    pub fn is_special(&self) -> (r: bool)
        ensures
            r == (self.0 >= 0xff00),
    {
        self.0 >= 0xff00
    }

    /// The index of an actual section, if this is one.
    pub fn get(&self) -> (r: Option<usize>)
        ensures
            r == (if self.0 == 0 || self.0 >= 0xff00 {
                None::<usize>
            } else {
                Some(self.0 as usize)
            }),
    {
        if self.is_undef() || self.is_special() {
            None
        } else {
            Some(self.0 as usize)
        }
    }
}

} // verus!
