//! Program headers: the directory of an ELF file's segments.

use std::ops::Range;

use vstd::prelude::*;
use vstd::slice::{slice_subrange, slice_to_vec};

use crate::addr::Addr;
use crate::dynamic::DynamicEntry;
use crate::parse::{read_addr, read_u32, u32_at, u64_at, Error, ErrorKind, Field};

verus! {

/// The size in bytes of a program header record.
pub const PROGRAM_HEADER_SIZE: usize = 56;

/// A permission of a segment.
#[derive(Clone, Copy, Debug, PartialEq, Eq, Structural)]
pub enum SegmentFlag {
    Execute,
    Write,
    Read,
}

impl SegmentFlag {
    /// The bit that stands for the flag.
    pub open spec fn spec_bit(self) -> u32 {
        match self {
            SegmentFlag::Execute => 1,
            SegmentFlag::Write => 2,
            SegmentFlag::Read => 4,
        }
    }

    /// Returns the bit that stands for the flag.
    pub fn bit(self) -> (r: u32)
        ensures
            r == self.spec_bit(),
    {
        match self {
            SegmentFlag::Execute => 1,
            SegmentFlag::Write => 2,
            SegmentFlag::Read => 4,
        }
    }
}

/// A set of segment permissions.
#[derive(Clone, Copy, Debug, PartialEq, Eq, Structural)]
pub struct SegmentFlags {
    pub bits: u32,
}

impl SegmentFlags {
    /// Only the bits of known flags are set.
    pub open spec fn wf(self) -> bool {
        self.bits < 8
    }

    /// The set with the given bits, where each of them is a known flag.
    pub fn from_bits(bits: u32) -> (r: Option<SegmentFlags>)
        ensures
            r == (if bits < 8 {
                Some(SegmentFlags { bits })
            } else {
                None::<SegmentFlags>
            }),
    {
        if bits < 8 {
            Some(SegmentFlags { bits })
        } else {
            None
        }
    }

    /// Whether `flag` is in the set.
    pub fn contains(&self, flag: SegmentFlag) -> (r: bool)
        ensures
            r == (self.bits & flag.spec_bit() != 0),
    {
        self.bits & flag.bit() != 0
    }
}

/// The type of a segment.
#[derive(Clone, Copy, Debug, PartialEq, Eq, Structural)]
pub enum SegmentType {
    Null,
    Load,
    Dynamic,
    Interp,
    Note,
    ShLib,
    PHdr,
    TLS,
    LoOS,
    HiOS,
    LoProc,
    HiProc,
    GnuEhFrame,
    GnuStack,
    GnuRelRo,
    GnuProperty,
}

impl SegmentType {
    /// The segment type that `v` encodes, if any.
    pub open spec fn spec_from_raw(v: u32) -> Option<SegmentType> {
        if v == 0 {
            Some(SegmentType::Null)
        } else if v == 1 {
            Some(SegmentType::Load)
        } else if v == 2 {
            Some(SegmentType::Dynamic)
        } else if v == 3 {
            Some(SegmentType::Interp)
        } else if v == 4 {
            Some(SegmentType::Note)
        } else if v == 5 {
            Some(SegmentType::ShLib)
        } else if v == 6 {
            Some(SegmentType::PHdr)
        } else if v == 7 {
            Some(SegmentType::TLS)
        } else if v == 0x6000_0000 {
            Some(SegmentType::LoOS)
        } else if v == 0x6FFF_FFFF {
            Some(SegmentType::HiOS)
        } else if v == 0x7000_0000 {
            Some(SegmentType::LoProc)
        } else if v == 0x7FFF_FFFF {
            Some(SegmentType::HiProc)
        } else if v == 0x6474_E550 {
            Some(SegmentType::GnuEhFrame)
        } else if v == 0x6474_E551 {
            Some(SegmentType::GnuStack)
        } else if v == 0x6474_E552 {
            Some(SegmentType::GnuRelRo)
        } else if v == 0x6474_E553 {
            Some(SegmentType::GnuProperty)
        } else {
            None
        }
    }

    /// Decodes a segment type.
    pub fn from_raw(v: u32) -> (r: Option<SegmentType>)
        ensures
            r == Self::spec_from_raw(v),
    {
        if v == 0 {
            Some(SegmentType::Null)
        } else if v == 1 {
            Some(SegmentType::Load)
        } else if v == 2 {
            Some(SegmentType::Dynamic)
        } else if v == 3 {
            Some(SegmentType::Interp)
        } else if v == 4 {
            Some(SegmentType::Note)
        } else if v == 5 {
            Some(SegmentType::ShLib)
        } else if v == 6 {
            Some(SegmentType::PHdr)
        } else if v == 7 {
            Some(SegmentType::TLS)
        } else if v == 0x6000_0000 {
            Some(SegmentType::LoOS)
        } else if v == 0x6FFF_FFFF {
            Some(SegmentType::HiOS)
        } else if v == 0x7000_0000 {
            Some(SegmentType::LoProc)
        } else if v == 0x7FFF_FFFF {
            Some(SegmentType::HiProc)
        } else if v == 0x6474_E550 {
            Some(SegmentType::GnuEhFrame)
        } else if v == 0x6474_E551 {
            Some(SegmentType::GnuStack)
        } else if v == 0x6474_E552 {
            Some(SegmentType::GnuRelRo)
        } else if v == 0x6474_E553 {
            Some(SegmentType::GnuProperty)
        } else {
            None
        }
    }
}

/// The contents of a segment.
#[derive(Clone, Debug)]
pub enum SegmentContents {
    /// The segment holds an array of dynamic entries.
    Dynamic(Vec<DynamicEntry>),
    /// The segment holds something that is not interpreted.
    Unknown,
}

/// A program header, with a copy of its segment's bytes in the file.
#[derive(Clone, Debug)]
pub struct ProgramHeader {
    pub typ: SegmentType,
    pub flags: SegmentFlags,
    pub offset: Addr,
    pub vaddr: Addr,
    pub paddr: Addr,
    pub filesz: Addr,
    pub memsz: Addr,
    pub align: Addr,
    pub data: Vec<u8>,
    pub contents: SegmentContents,
}

/// The fields of a program header, apart from its bytes.
pub struct ProgramHeaderFields {
    pub typ: SegmentType,
    pub flags: SegmentFlags,
    pub offset: Addr,
    pub vaddr: Addr,
    pub paddr: Addr,
    pub filesz: Addr,
    pub memsz: Addr,
    pub align: Addr,
}

impl ProgramHeader {
    /// The segment's ranges fit in 64 bits, its memory image is at least as
    /// large as its file image, and `data` holds the file image.
    pub open spec fn wf(&self) -> bool {
        &&& self.flags.wf()
        &&& self.offset.0 + self.filesz.0 <= u64::MAX
        &&& self.vaddr.0 + self.memsz.0 <= u64::MAX
        &&& self.filesz.0 <= self.memsz.0
        &&& self.data@.len() == self.filesz.0
    }

    /// The fields of the header, apart from its bytes.
    pub open spec fn fields(&self) -> ProgramHeaderFields {
        ProgramHeaderFields {
            typ: self.typ,
            flags: self.flags,
            offset: self.offset,
            vaddr: self.vaddr,
            paddr: self.paddr,
            filesz: self.filesz,
            memsz: self.memsz,
            align: self.align,
        }
    }

    /// The fields that the record `i` encodes.
    pub open spec fn spec_fields(i: Seq<u8>) -> ProgramHeaderFields {
        ProgramHeaderFields {
            typ: SegmentType::spec_from_raw(u32_at(i, 0))->Some_0,
            flags: SegmentFlags { bits: u32_at(i, 4) },
            offset: Addr(u64_at(i, 8)),
            vaddr: Addr(u64_at(i, 16)),
            paddr: Addr(u64_at(i, 24)),
            filesz: Addr(u64_at(i, 32)),
            memsz: Addr(u64_at(i, 40)),
            align: Addr(u64_at(i, 48)),
        }
    }

    /// Whether the record `i` parses as a header of `file`.
    pub open spec fn spec_parses(file: Seq<u8>, i: Seq<u8>) -> bool {
        &&& i.len() >= PROGRAM_HEADER_SIZE
        &&& SegmentType::spec_from_raw(u32_at(i, 0)) is Some
        &&& u32_at(i, 4) < 8
        &&& u64_at(i, 8) + u64_at(i, 32) <= file.len()
        &&& u64_at(i, 32) <= u64_at(i, 40)
        &&& u64_at(i, 16) + u64_at(i, 40) <= u64::MAX
    }

    /// The error that the record `i`, found at `base` of `file`, gives.
    pub open spec fn spec_error(file: Seq<u8>, i: Seq<u8>, base: int) -> Error {
        if i.len() < PROGRAM_HEADER_SIZE {
            Error { offset: base as usize, kind: ErrorKind::Truncated(Field::ProgramHeaders) }
        } else if SegmentType::spec_from_raw(u32_at(i, 0)) is None {
            Error {
                offset: base as usize,
                kind: ErrorKind::Invalid(Field::SegmentType, u32_at(i, 0) as u64),
            }
        } else if u32_at(i, 4) >= 8 {
            Error {
                offset: (base + 4) as usize,
                kind: ErrorKind::Invalid(Field::SegmentFlags, u32_at(i, 4) as u64),
            }
        } else if u64_at(i, 8) + u64_at(i, 32) > file.len() {
            Error { offset: (base + 8) as usize, kind: ErrorKind::Truncated(Field::SegmentData) }
        } else {
            Error {
                offset: (base + 40) as usize,
                kind: ErrorKind::Invalid(Field::SegmentSize, u64_at(i, 40)),
            }
        }
    }

    /// Parses the program header record `i`, found at `base` of `full_input`.
    pub fn parse(full_input: &[u8], i: &[u8], base: usize) -> (r: Result<ProgramHeader, Error>)
        requires
            base + i@.len() <= usize::MAX,
        ensures
            r is Ok <==> Self::spec_parses(full_input@, i@),
            r matches Ok(ph) ==> {
                &&& ph.wf()
                &&& ph.fields() == Self::spec_fields(i@)
                &&& ph.data@ == full_input@.subrange(
                    ph.offset.0 as int,
                    ph.offset.0 + ph.filesz.0,
                )
                &&& ph.contents is Unknown
            },
            r matches Err(e) ==> e == Self::spec_error(full_input@, i@, base as int),
    {
        if i.len() < PROGRAM_HEADER_SIZE {
            return Err(Error { offset: base, kind: ErrorKind::Truncated(Field::ProgramHeaders) });
        }
        let (raw_typ, raw_flags) = match (read_u32(i, 0, Field::SegmentType), read_u32(i, 4, Field::SegmentFlags)) {
            (Ok(t), Ok(f)) => (t, f),
            _ => { return Err(Error { offset: base, kind: ErrorKind::Truncated(Field::ProgramHeaders) }); },
        };
        let typ = match SegmentType::from_raw(raw_typ) {
            Some(t) => t,
            None => {
                return Err(Error { offset: base, kind: ErrorKind::Invalid(Field::SegmentType, raw_typ as u64) });
            },
        };
        let flags = match SegmentFlags::from_bits(raw_flags) {
            Some(f) => f,
            None => {
                return Err(Error { offset: base + 4, kind: ErrorKind::Invalid(Field::SegmentFlags, raw_flags as u64) });
            },
        };
        let fields = (
            read_addr(i, 8, Field::ProgramHeaders),
            read_addr(i, 16, Field::ProgramHeaders),
            read_addr(i, 24, Field::ProgramHeaders),
            read_addr(i, 32, Field::ProgramHeaders),
            read_addr(i, 40, Field::ProgramHeaders),
            read_addr(i, 48, Field::ProgramHeaders),
        );
        let (offset, vaddr, paddr, filesz, memsz, align) = match fields {
            (Ok(a), Ok(b), Ok(c), Ok(d), Ok(e), Ok(f)) => (a, b, c, d, e, f),
            _ => { return Err(Error { offset: base, kind: ErrorKind::Truncated(Field::ProgramHeaders) }); },
        };
        let len = full_input.len() as u64;
        if offset.0 > len || filesz.0 > len - offset.0 {
            return Err(Error { offset: base + 8, kind: ErrorKind::Truncated(Field::SegmentData) });
        }
        if filesz.0 > memsz.0 || vaddr.0 > u64::MAX - memsz.0 {
            return Err(Error { offset: base + 40, kind: ErrorKind::Invalid(Field::SegmentSize, memsz.0) });
        }
        let data = slice_to_vec(slice_subrange(full_input, offset.0 as usize, (offset.0 + filesz.0) as usize));
        Ok(ProgramHeader {
            typ,
            flags,
            offset,
            vaddr,
            paddr,
            filesz,
            memsz,
            align,
            data,
            contents: SegmentContents::Unknown,
        })
    }

    /// The range where the segment's bytes lie in the file.
    pub fn file_range(&self) -> (r: Range<Addr>)
        requires
            self.wf(),
        ensures
            r.start == self.offset,
            r.end.0 == self.offset.0 + self.filesz.0,
    {
        self.offset..Addr(self.offset.0 + self.filesz.0)
    }

    /// The range where the segment lies in memory, relative to the load base.
    pub fn mem_range(&self) -> (r: Range<Addr>)
        requires
            self.wf(),
        ensures
            r.start == self.vaddr,
            r.end.0 == self.vaddr.0 + self.memsz.0,
    {
        self.vaddr..Addr(self.vaddr.0 + self.memsz.0)
    }
}

} // verus!
