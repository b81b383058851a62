//! ELF64 files: the file header, and the tables of segments and sections.

use vstd::prelude::*;
use vstd::slice::{slice_subrange, slice_to_vec};

use crate::addr::Addr;
use crate::dynamic::DynamicSection;
use crate::parse::{read_addr, read_u16, read_u32, u16_at, u32_at, u64_at, Error, ErrorKind, Field};
use crate::rela::RelaTable;
use crate::section::{SectionHeader, SectionType};
use crate::segment::{ProgramHeader, ProgramHeaderFields, SegmentType};
use crate::strtab::StrTab;
use crate::sym::SymTab;

verus! {

/// The size in bytes of the file header.
pub const ELF_HEADER_SIZE: usize = 64;

/// The type of an ELF file.
#[derive(Clone, Copy, Debug, PartialEq, Eq, Structural)]
pub enum ElfType {
    NoType,
    Rel,
    Exec,
    Dyn,
    Core,
}

impl ElfType {
    /// The file type that `v` encodes, if any.
    pub open spec fn spec_from_raw(v: u16) -> Option<ElfType> {
        if v == 0 {
            Some(ElfType::NoType)
        } else if v == 1 {
            Some(ElfType::Rel)
        } else if v == 2 {
            Some(ElfType::Exec)
        } else if v == 3 {
            Some(ElfType::Dyn)
        } else if v == 4 {
            Some(ElfType::Core)
        } else {
            None
        }
    }

    /// Decodes a file type.
    pub fn from_raw(v: u16) -> (r: Option<ElfType>)
        ensures
            r == Self::spec_from_raw(v),
    {
        if v == 0 {
            Some(ElfType::NoType)
        } else if v == 1 {
            Some(ElfType::Rel)
        } else if v == 2 {
            Some(ElfType::Exec)
        } else if v == 3 {
            Some(ElfType::Dyn)
        } else if v == 4 {
            Some(ElfType::Core)
        } else {
            None
        }
    }
}

/// The machine an ELF file targets.
#[derive(Clone, Copy, Debug, PartialEq, Eq, Structural)]
pub enum Machine {
    X86,
    X86_64,
}

impl Machine {
    /// The machine that `v` encodes, if any.
    pub open spec fn spec_from_raw(v: u16) -> Option<Machine> {
        if v == 0x03 {
            Some(Machine::X86)
        } else if v == 0x3E {
            Some(Machine::X86_64)
        } else {
            None
        }
    }

    /// Decodes a machine.
    pub fn from_raw(v: u16) -> (r: Option<Machine>)
        ensures
            r == Self::spec_from_raw(v),
    {
        if v == 0x03 {
            Some(Machine::X86)
        } else if v == 0x3E {
            Some(Machine::X86_64)
        } else {
            None
        }
    }
}

/// The file header.
#[derive(Clone, Copy, Debug, PartialEq, Eq, Structural)]
pub struct ElfHeader {
    pub typ: ElfType,
    pub machine: Machine,
    pub entry_point: Addr,
    pub ph_offset: Addr,
    pub sh_offset: Addr,
    pub flags: u32,
    pub hdr_size: u16,
    pub ph_entsize: usize,
    pub ph_count: usize,
    pub sh_entsize: usize,
    pub sh_count: usize,
    pub sh_strtab: usize,
}

/// The bytes that open every ELF file.
pub open spec fn magic_ok(s: Seq<u8>) -> bool {
    s.len() >= 4 && s[0] == 0x7f && s[1] == 0x45 && s[2] == 0x4c && s[3] == 0x46
}

/// The file is of the 64-bit class.
pub open spec fn class_ok(s: Seq<u8>) -> bool {
    s.len() >= 5 && s[4] == 2
}

/// The file is little-endian.
pub open spec fn endianness_ok(s: Seq<u8>) -> bool {
    s.len() >= 6 && s[5] == 1
}

/// The identification's version is 1.
pub open spec fn version_ok(s: Seq<u8>) -> bool {
    s.len() >= 7 && s[6] == 1
}

/// The OS ABI is System V or Linux.
pub open spec fn os_abi_ok(s: Seq<u8>) -> bool {
    s.len() >= 8 && (s[7] == 0 || s[7] == 3)
}

/// The fixed part of the file header is whole and holds accepted values.
pub open spec fn header_ok(s: Seq<u8>) -> bool {
    &&& magic_ok(s)
    &&& class_ok(s)
    &&& endianness_ok(s)
    &&& version_ok(s)
    &&& os_abi_ok(s)
    &&& s.len() >= ELF_HEADER_SIZE
    &&& ElfType::spec_from_raw(u16_at(s, 16)) is Some
    &&& Machine::spec_from_raw(u16_at(s, 18)) is Some
    &&& u32_at(s, 20) == 1
}

/// The error for the first field of the fixed part of the header that is
/// missing or does not hold an accepted value.
pub open spec fn header_error(s: Seq<u8>) -> Error {
    if s.len() < 4 {
        Error { offset: 0, kind: ErrorKind::Truncated(Field::Magic) }
    } else if !magic_ok(s) {
        Error { offset: 0, kind: ErrorKind::Invalid(Field::Magic, u32_at(s, 0) as u64) }
    } else if s.len() < 5 {
        Error { offset: 4, kind: ErrorKind::Truncated(Field::Class) }
    } else if !class_ok(s) {
        Error { offset: 4, kind: ErrorKind::Invalid(Field::Class, s[4] as u64) }
    } else if s.len() < 6 {
        Error { offset: 5, kind: ErrorKind::Truncated(Field::Endianness) }
    } else if !endianness_ok(s) {
        Error { offset: 5, kind: ErrorKind::Invalid(Field::Endianness, s[5] as u64) }
    } else if s.len() < 7 {
        Error { offset: 6, kind: ErrorKind::Truncated(Field::Version) }
    } else if !version_ok(s) {
        Error { offset: 6, kind: ErrorKind::Invalid(Field::Version, s[6] as u64) }
    } else if s.len() < 8 {
        Error { offset: 7, kind: ErrorKind::Truncated(Field::OsAbi) }
    } else if !os_abi_ok(s) {
        Error { offset: 7, kind: ErrorKind::Invalid(Field::OsAbi, s[7] as u64) }
    } else if s.len() < 16 {
        Error { offset: 8, kind: ErrorKind::Truncated(Field::Padding) }
    } else if s.len() < 18 {
        Error { offset: 16, kind: ErrorKind::Truncated(Field::ElfType) }
    } else if ElfType::spec_from_raw(u16_at(s, 16)) is None {
        Error { offset: 16, kind: ErrorKind::Invalid(Field::ElfType, u16_at(s, 16) as u64) }
    } else if s.len() < 20 {
        Error { offset: 18, kind: ErrorKind::Truncated(Field::Machine) }
    } else if Machine::spec_from_raw(u16_at(s, 18)) is None {
        Error { offset: 18, kind: ErrorKind::Invalid(Field::Machine, u16_at(s, 18) as u64) }
    } else if s.len() < 24 {
        Error { offset: 20, kind: ErrorKind::Truncated(Field::VersionBis) }
    } else if u32_at(s, 20) != 1 {
        Error { offset: 20, kind: ErrorKind::Invalid(Field::VersionBis, u32_at(s, 20) as u64) }
    } else {
        Error { offset: 24, kind: ErrorKind::Truncated(Field::Header) }
    }
}

/// A file whose identification bytes are wrong fails to parse with an error
/// about the first wrong field: the magic number, the class, the
/// endianness, the version or the OS ABI, in that order; after them come
/// the file type, the machine and the second version field.
pub proof fn lemma_header_error_field(s: Seq<u8>)
    ensures
        !magic_ok(s) ==> !header_ok(s) && header_error(s).field() == Field::Magic,
        magic_ok(s) && !class_ok(s) ==> !header_ok(s) && header_error(s).field() == Field::Class,
        magic_ok(s) && class_ok(s) && !endianness_ok(s) ==> !header_ok(s) && header_error(s).field()
            == Field::Endianness,
        magic_ok(s) && class_ok(s) && endianness_ok(s) && !version_ok(s) ==> !header_ok(s) && header_error(s).field()
            == Field::Version,
        magic_ok(s) && class_ok(s) && endianness_ok(s) && version_ok(s) && !os_abi_ok(s) ==> !header_ok(s)
            && header_error(s).field() == Field::OsAbi,
        magic_ok(s) && class_ok(s) && endianness_ok(s) && version_ok(s) && os_abi_ok(s) && s.len() >= 24
            && ElfType::spec_from_raw(u16_at(s, 16)) is Some && Machine::spec_from_raw(u16_at(s, 18)) is Some
            && u32_at(s, 20) != 1 ==> !header_ok(s) && header_error(s) == (Error {
            offset: 20,
            kind: ErrorKind::Invalid(Field::VersionBis, u32_at(s, 20) as u64),
        }),
{
}

/// The header that a file whose fixed header part is accepted holds.
pub open spec fn spec_header(s: Seq<u8>) -> ElfHeader {
    ElfHeader {
        typ: ElfType::spec_from_raw(u16_at(s, 16))->Some_0,
        machine: Machine::spec_from_raw(u16_at(s, 18))->Some_0,
        entry_point: Addr(u64_at(s, 24)),
        ph_offset: Addr(u64_at(s, 32)),
        sh_offset: Addr(u64_at(s, 40)),
        flags: u32_at(s, 48),
        hdr_size: u16_at(s, 52),
        ph_entsize: u16_at(s, 54) as usize,
        ph_count: u16_at(s, 56) as usize,
        sh_entsize: u16_at(s, 58) as usize,
        sh_count: u16_at(s, 60) as usize,
        sh_strtab: u16_at(s, 62) as usize,
    }
}

/// Record `k` of a table that starts at `off` of `s` and is cut into
/// records of `ent` bytes, the last one possibly shorter; `None` where it
/// would start at or past the end of `s`.
pub open spec fn spec_chunk(s: Seq<u8>, off: int, ent: int, k: int) -> Option<Seq<u8>> {
    if ent > 0 && off + k * ent < s.len() {
        let start = off + k * ent;
        let end = if start + ent <= s.len() { start + ent } else { s.len() as int };
        Some(s.subrange(start, end))
    } else {
        None
    }
}

/// Whether every one of the `h.ph_count` program header records of `s` is there and parses.
pub open spec fn program_headers_ok(s: Seq<u8>, h: ElfHeader) -> bool {
    forall|k: int|
        0 <= k < h.ph_count ==> (#[trigger] spec_chunk(s, h.ph_offset.0 as int, h.ph_entsize as int, k) matches Some(c)
            && ProgramHeader::spec_parses(s, c))
}

/// Whether every one of the `h.sh_count` section header records of `s` is there and parses.
pub open spec fn section_headers_ok(s: Seq<u8>, h: ElfHeader) -> bool {
    forall|k: int|
        0 <= k < h.sh_count ==> (#[trigger] spec_chunk(s, h.sh_offset.0 as int, h.sh_entsize as int, k) matches Some(c)
            && SectionHeader::spec_parses(c))
}

/// Whether `s` is an ELF file that parses.
pub open spec fn spec_valid(s: Seq<u8>) -> bool {
    &&& header_ok(s)
    &&& program_headers_ok(s, spec_header(s))
    &&& section_headers_ok(s, spec_header(s))
}

/// The fields of program header record `k` of `s`.
pub open spec fn program_header_fields(s: Seq<u8>, k: int) -> ProgramHeaderFields {
    let h = spec_header(s);
    ProgramHeader::spec_fields(spec_chunk(s, h.ph_offset.0 as int, h.ph_entsize as int, k)->Some_0)
}

/// Whether no program header of `s` is of a `Load` segment.
pub open spec fn no_load_segments(s: Seq<u8>) -> bool {
    forall|k: int| 0 <= k < spec_header(s).ph_count ==> #[trigger] program_header_fields(s, k).typ != SegmentType::Load
}

/// Whether `ph` is what program header record `k` of `s` gives.
pub open spec fn program_header_is(s: Seq<u8>, h: ElfHeader, k: int, ph: ProgramHeader) -> bool {
    let c = spec_chunk(s, h.ph_offset.0 as int, h.ph_entsize as int, k)->Some_0;
    &&& ph.wf()
    &&& ph.fields() == ProgramHeader::spec_fields(c)
    &&& ph.data@ == s.subrange(ph.offset.0 as int, ph.offset.0 + ph.filesz.0)
    &&& ph.contents is Unknown
}

/// Whether `sh` is what section header record `k` of `s` gives.
pub open spec fn section_header_is(s: Seq<u8>, h: ElfHeader, k: int, sh: SectionHeader) -> bool {
    sh == SectionHeader::spec_parse(spec_chunk(s, h.sh_offset.0 as int, h.sh_entsize as int, k)->Some_0)
}

/// The error of the first of program header records `k` to `h.ph_count - 1`
/// of `s` that is missing or does not parse.
pub open spec fn program_headers_error(s: Seq<u8>, h: ElfHeader, k: int) -> Option<Error>
    decreases h.ph_count - k,
{
    if k < 0 || k >= h.ph_count {
        None
    } else {
        match spec_chunk(s, h.ph_offset.0 as int, h.ph_entsize as int, k) {
            None => Some(Error { offset: 32, kind: ErrorKind::Truncated(Field::ProgramHeaders) }),
            Some(c) => if ProgramHeader::spec_parses(s, c) {
                program_headers_error(s, h, k + 1)
            } else {
                Some(ProgramHeader::spec_error(s, c, h.ph_offset.0 + k * h.ph_entsize))
            },
        }
    }
}

/// The error of the first of section header records `k` to `h.sh_count - 1`
/// of `s` that is missing or does not parse.
pub open spec fn section_headers_error(s: Seq<u8>, h: ElfHeader, k: int) -> Option<Error>
    decreases h.sh_count - k,
{
    if k < 0 || k >= h.sh_count {
        None
    } else {
        match spec_chunk(s, h.sh_offset.0 as int, h.sh_entsize as int, k) {
            None => Some(Error { offset: 40, kind: ErrorKind::Truncated(Field::SectionHeaders) }),
            Some(c) => if SectionHeader::spec_parses(c) {
                section_headers_error(s, h, k + 1)
            } else {
                Some(SectionHeader::spec_error(c, h.sh_offset.0 + k * h.sh_entsize))
            },
        }
    }
}

/// The error that parsing `s` gives, where it does not parse.
pub open spec fn parse_error(s: Seq<u8>) -> Error {
    if !header_ok(s) {
        header_error(s)
    } else {
        match program_headers_error(s, spec_header(s), 0) {
            Some(e) => e,
            None => section_headers_error(s, spec_header(s), 0)->Some_0,
        }
    }
}

/// The bounds in `len` bytes of record `k` of a table at `off` with records of `ent` bytes.
fn chunk_bounds(len: usize, off: u64, ent: usize, k: usize) -> (r: Option<(usize, usize)>)
    requires
        k <= 0xffff,
        ent <= 0xffff,
    ensures
        r is Some <==> ent > 0 && off + k * ent < len,
        r matches Some((a, b)) ==> {
            &&& a == off + k * ent
            &&& b == (if a + ent <= len { a + ent } else { len as int })
        },
{
    if ent == 0 || off >= len as u64 {
        return None;
    }
    assert(k * ent <= 0xffff * 0xffff) by (nonlinear_arith)
        requires
            k <= 0xffff,
            ent <= 0xffff,
    ;
    let skip = k * ent;
    let room = len - off as usize;
    if skip >= room {
        return None;
    }
    let start = off as usize + skip;
    let end = if ent <= len - start { start + ent } else { len };
    Some((start, end))
}

/// Parses the `h.ph_count` program headers of `s` that `h` locates.
fn parse_program_headers(s: &[u8], h: &ElfHeader) -> (r: Result<Vec<ProgramHeader>, Error>)
    requires
        h.ph_count <= 0xffff,
        h.ph_entsize <= 0xffff,
    ensures
        r is Ok <==> program_headers_ok(s@, *h),
        r matches Err(e) ==> program_headers_error(s@, *h, 0) == Some(e),
        r is Ok ==> program_headers_error(s@, *h, 0) is None,
        r matches Ok(v) ==> {
            &&& v@.len() == h.ph_count
            &&& forall|k: int| 0 <= k < v@.len() ==> #[trigger] program_header_is(s@, *h, k, v@[k])
        },
{
    let mut out: Vec<ProgramHeader> = Vec::new();
    let mut k: usize = 0;
    while k < h.ph_count
        invariant
            h.ph_count <= 0xffff,
            h.ph_entsize <= 0xffff,
            k <= h.ph_count,
            out@.len() == k,
            forall|j: int| 0 <= j < k ==> (#[trigger] spec_chunk(s@, h.ph_offset.0 as int, h.ph_entsize as int, j) matches Some(c)
                && ProgramHeader::spec_parses(s@, c)),
            forall|j: int| 0 <= j < k ==> #[trigger] program_header_is(s@, *h, j, out@[j]),
            program_headers_error(s@, *h, 0) == program_headers_error(s@, *h, k as int),
        decreases h.ph_count - k,
    {
        let (a, b) = match chunk_bounds(s.len(), h.ph_offset.0, h.ph_entsize, k) {
            Some(bounds) => bounds,
            None => {
                assert(spec_chunk(s@, h.ph_offset.0 as int, h.ph_entsize as int, k as int) is None);
                return Err(Error { offset: 32, kind: ErrorKind::Truncated(Field::ProgramHeaders) });
            },
        };
        let c = slice_subrange(s, a, b);
        assert(spec_chunk(s@, h.ph_offset.0 as int, h.ph_entsize as int, k as int) == Some(c@));
        match ProgramHeader::parse(s, c, a) {
            Ok(ph) => { out.push(ph); },
            Err(e) => { return Err(e); },
        }
        k = k + 1;
    }
    Ok(out)
}

/// Parses the `h.sh_count` section headers of `s` that `h` locates.
fn parse_section_headers(s: &[u8], h: &ElfHeader) -> (r: Result<Vec<SectionHeader>, Error>)
    requires
        h.sh_count <= 0xffff,
        h.sh_entsize <= 0xffff,
    ensures
        r is Ok <==> section_headers_ok(s@, *h),
        r matches Err(e) ==> section_headers_error(s@, *h, 0) == Some(e),
        r is Ok ==> section_headers_error(s@, *h, 0) is None,
        r matches Ok(v) ==> {
            &&& v@.len() == h.sh_count
            &&& forall|k: int| 0 <= k < v@.len() ==> #[trigger] section_header_is(s@, *h, k, v@[k])
        },
{
    let mut out: Vec<SectionHeader> = Vec::new();
    let mut k: usize = 0;
    while k < h.sh_count
        invariant
            h.sh_count <= 0xffff,
            h.sh_entsize <= 0xffff,
            k <= h.sh_count,
            out@.len() == k,
            forall|j: int| 0 <= j < k ==> (#[trigger] spec_chunk(s@, h.sh_offset.0 as int, h.sh_entsize as int, j) matches Some(c)
                && SectionHeader::spec_parses(c)),
            forall|j: int| 0 <= j < k ==> #[trigger] section_header_is(s@, *h, j, out@[j]),
            section_headers_error(s@, *h, 0) == section_headers_error(s@, *h, k as int),
        decreases h.sh_count - k,
    {
        let (a, b) = match chunk_bounds(s.len(), h.sh_offset.0, h.sh_entsize, k) {
            Some(bounds) => bounds,
            None => {
                assert(spec_chunk(s@, h.sh_offset.0 as int, h.sh_entsize as int, k as int) is None);
                return Err(Error { offset: 40, kind: ErrorKind::Truncated(Field::SectionHeaders) });
            },
        };
        let c = slice_subrange(s, a, b);
        assert(spec_chunk(s@, h.sh_offset.0 as int, h.sh_entsize as int, k as int) == Some(c@));
        match SectionHeader::parse(c, a) {
            Ok(sh) => { out.push(sh); },
            Err(e) => { return Err(e); },
        }
        k = k + 1;
    }
    Ok(out)
}

impl ElfHeader {
    /// Parses the fixed part of the file header.
    fn parse_fixed(i: &[u8]) -> (r: Result<ElfHeader, Error>)
        ensures
            r is Ok <==> header_ok(i@),
            r matches Ok(h) ==> h == spec_header(i@),
            r matches Err(e) ==> e == header_error(i@),
    {
        if i.len() < 4 {
            return Err(Error { offset: 0, kind: ErrorKind::Truncated(Field::Magic) });
        }
        if !(i[0] == 0x7f && i[1] == 0x45 && i[2] == 0x4c && i[3] == 0x46) {
            let v = match read_u32(i, 0, Field::Magic) {
                Ok(v) => v,
                Err(e) => { return Err(e); },
            };
            return Err(Error { offset: 0, kind: ErrorKind::Invalid(Field::Magic, v as u64) });
        }
        if i.len() < 5 {
            return Err(Error { offset: 4, kind: ErrorKind::Truncated(Field::Class) });
        }
        if i[4] != 2 {
            return Err(Error { offset: 4, kind: ErrorKind::Invalid(Field::Class, i[4] as u64) });
        }
        if i.len() < 6 {
            return Err(Error { offset: 5, kind: ErrorKind::Truncated(Field::Endianness) });
        }
        if i[5] != 1 {
            return Err(Error { offset: 5, kind: ErrorKind::Invalid(Field::Endianness, i[5] as u64) });
        }
        if i.len() < 7 {
            return Err(Error { offset: 6, kind: ErrorKind::Truncated(Field::Version) });
        }
        if i[6] != 1 {
            return Err(Error { offset: 6, kind: ErrorKind::Invalid(Field::Version, i[6] as u64) });
        }
        if i.len() < 8 {
            return Err(Error { offset: 7, kind: ErrorKind::Truncated(Field::OsAbi) });
        }
        if i[7] != 0 && i[7] != 3 {
            return Err(Error { offset: 7, kind: ErrorKind::Invalid(Field::OsAbi, i[7] as u64) });
        }
        if i.len() < 16 {
            return Err(Error { offset: 8, kind: ErrorKind::Truncated(Field::Padding) });
        }
        let raw_typ = match read_u16(i, 16, Field::ElfType) {
            Ok(v) => v,
            Err(e) => { return Err(e); },
        };
        let typ = match ElfType::from_raw(raw_typ) {
            Some(t) => t,
            None => { return Err(Error { offset: 16, kind: ErrorKind::Invalid(Field::ElfType, raw_typ as u64) }); },
        };
        let raw_machine = match read_u16(i, 18, Field::Machine) {
            Ok(v) => v,
            Err(e) => { return Err(e); },
        };
        let machine = match Machine::from_raw(raw_machine) {
            Some(m) => m,
            None => { return Err(Error { offset: 18, kind: ErrorKind::Invalid(Field::Machine, raw_machine as u64) }); },
        };
        let version = match read_u32(i, 20, Field::VersionBis) {
            Ok(v) => v,
            Err(e) => { return Err(e); },
        };
        if version != 1 {
            return Err(Error { offset: 20, kind: ErrorKind::Invalid(Field::VersionBis, version as u64) });
        }
        if i.len() < ELF_HEADER_SIZE {
            return Err(Error { offset: 24, kind: ErrorKind::Truncated(Field::Header) });
        }
        let addrs = (read_addr(i, 24, Field::Header), read_addr(i, 32, Field::Header), read_addr(i, 40, Field::Header));
        let (entry_point, ph_offset, sh_offset) = match addrs {
            (Ok(a), Ok(b), Ok(c)) => (a, b, c),
            _ => { return Err(Error { offset: 24, kind: ErrorKind::Truncated(Field::Header) }); },
        };
        let rest = (
            read_u32(i, 48, Field::Header),
            read_u16(i, 52, Field::Header),
            read_u16(i, 54, Field::Header),
            read_u16(i, 56, Field::Header),
            read_u16(i, 58, Field::Header),
            read_u16(i, 60, Field::Header),
            read_u16(i, 62, Field::Header),
        );
        match rest {
            (Ok(flags), Ok(hdr_size), Ok(pe), Ok(pc), Ok(se), Ok(sc), Ok(st)) => Ok(ElfHeader {
                typ,
                machine,
                entry_point,
                ph_offset,
                sh_offset,
                flags,
                hdr_size,
                ph_entsize: pe as usize,
                ph_count: pc as usize,
                sh_entsize: se as usize,
                sh_count: sc as usize,
                sh_strtab: st as usize,
            }),
            _ => Err(Error { offset: 24, kind: ErrorKind::Truncated(Field::Header) }),
        }
    }

    /// Parses the file header of `i`, then its `ph_count` program headers
    /// and `sh_count` section headers.
    pub fn parse(i: &[u8]) -> (r: Result<(ElfHeader, Vec<ProgramHeader>, Vec<SectionHeader>), Error>)
        ensures
            r is Ok <==> spec_valid(i@),
            r matches Ok((h, phs, shs)) ==> {
                &&& h == spec_header(i@)
                &&& phs@.len() == h.ph_count
                &&& shs@.len() == h.sh_count
                &&& forall|k: int| 0 <= k < phs@.len() ==> #[trigger] program_header_is(i@, h, k, phs@[k])
                &&& forall|k: int| 0 <= k < shs@.len() ==> #[trigger] section_header_is(i@, h, k, shs@[k])
            },
            r matches Err(e) ==> e == parse_error(i@),
            !header_ok(i@) ==> r == Err::<(ElfHeader, Vec<ProgramHeader>, Vec<SectionHeader>), Error>(header_error(i@)),
    {
        let h = ElfHeader::parse_fixed(i)?;
        let phs = parse_program_headers(i, &h)?;
        let shs = parse_section_headers(i, &h)?;
        Ok((h, phs, shs))
    }
}

/// The index of the first section header of type `typ` from index `k` on.
pub open spec fn first_of_type(shs: Seq<SectionHeader>, typ: SectionType, k: int) -> Option<int>
    decreases shs.len() - k,
{
    if k < 0 || k >= shs.len() {
        None
    } else if shs[k].typ == typ {
        Some(k)
    } else {
        first_of_type(shs, typ, k + 1)
    }
}

/// A parsed ELF file, which owns its bytes.
#[derive(Clone, Debug)]
pub struct ParsedElf {
    pub elf_header: ElfHeader,
    pub program_headers: Vec<ProgramHeader>,
    pub section_headers: Vec<SectionHeader>,
    pub full_content: Vec<u8>,
}

impl ParsedElf {
    /// Whether the headers are those that the bytes of the file give.
    pub open spec fn wf(&self) -> bool {
        let s = self.full_content@;
        &&& spec_valid(s)
        &&& self.elf_header == spec_header(s)
        &&& self.program_headers@.len() == self.elf_header.ph_count
        &&& self.section_headers@.len() == self.elf_header.sh_count
        &&& forall|k: int| 0 <= k < self.program_headers@.len()
            ==> #[trigger] program_header_is(s, self.elf_header, k, self.program_headers@[k])
        &&& forall|k: int| 0 <= k < self.section_headers@.len()
            ==> #[trigger] section_header_is(s, self.elf_header, k, self.section_headers@[k])
    }

    /// Parses an ELF file from its bytes, which it copies.
    pub fn parse(input: &[u8]) -> (r: Result<ParsedElf, Error>)
        ensures
            r is Ok <==> spec_valid(input@),
            r matches Ok(f) ==> f.wf() && f.full_content@ == input@,
            r matches Err(e) ==> e == parse_error(input@),
            !header_ok(input@) ==> (r matches Err(e) && e == header_error(input@)),
    {
        let (elf_header, program_headers, section_headers) = ElfHeader::parse(input)?;
        Ok(ParsedElf { elf_header, program_headers, section_headers, full_content: slice_to_vec(input) })
    }

    /// Parses an ELF file, or gives `None` where it does not parse.
    pub fn parse_or_print_error(i: &[u8]) -> (r: Option<ParsedElf>)
        ensures
            r is Some <==> spec_valid(i@),
            r matches Some(f) ==> f.wf() && f.full_content@ == i@,
    {
        match ParsedElf::parse(i) {
            Ok(f) => Some(f),
            Err(_) => None,
        }
    }

    /// Returns the index of the first section of type `typ`.
    pub fn section_with_type(&self, typ: SectionType) -> (r: Option<usize>)
        ensures
            r is Some <==> first_of_type(self.section_headers@, typ, 0) is Some,
            r matches Some(k) ==> first_of_type(self.section_headers@, typ, 0) == Some(k as int),
            r matches Some(k) ==> k < self.section_headers@.len()
                && self.section_headers@[k as int].typ == typ
                && forall|j: int| 0 <= j < k ==> self.section_headers@[j].typ != typ,
            r is None ==> forall|j: int| 0 <= j < self.section_headers@.len() ==> self.section_headers@[j].typ != typ,
    {
        let mut k: usize = 0;
        while k < self.section_headers.len()
            invariant
                k <= self.section_headers@.len(),
                forall|j: int| 0 <= j < k ==> self.section_headers@[j].typ != typ,
                first_of_type(self.section_headers@, typ, 0) == first_of_type(self.section_headers@, typ, k as int),
            decreases self.section_headers@.len() - k,
        {
            if self.section_headers[k].typ == typ {
                return Some(k);
            }
            k = k + 1;
        }
        None
    }

    /// Section `index` read as a string table, where it is one.
    pub fn strtab(&self, index: usize) -> (r: Option<StrTab<'_>>)
        ensures
            r is Some <==> index < self.section_headers@.len()
                && self.section_headers@[index as int].typ == SectionType::StrTab,
            r matches Some(t) ==> *t.0 == self.section_headers@[index as int] && t.1@ == self.full_content@,
    {
        if index < self.section_headers.len() && self.section_headers[index].typ == SectionType::StrTab {
            Some(StrTab(&self.section_headers[index], self.full_content.as_slice()))
        } else {
            None
        }
    }

    /// Whether section `index` is a symbol table whose `link` names a string table.
    pub open spec fn spec_has_symtab(&self, index: int) -> bool {
        let shs = self.section_headers@;
        &&& 0 <= index < shs.len()
        &&& (shs[index].typ == SectionType::SymTab || shs[index].typ == SectionType::DynSym)
        &&& shs[index].link < shs.len()
        &&& shs[shs[index].link as int].typ == SectionType::StrTab
    }

    /// Section `index` read as a symbol table, where it is one and its
    /// `link` names a string table.
    pub fn symtab(&self, index: usize) -> (r: Option<SymTab<'_>>)
        ensures
            r is Some <==> self.spec_has_symtab(index as int),
            r matches Some(t) ==> {
                &&& *t.0 == self.section_headers@[index as int]
                &&& *t.1.0 == self.section_headers@[self.section_headers@[index as int].link as int]
                &&& t.1.1@ == self.full_content@
            },
    {
        if index >= self.section_headers.len() {
            return None;
        }
        let sh = &self.section_headers[index];
        if sh.typ == SectionType::SymTab || sh.typ == SectionType::DynSym {
            match self.strtab(sh.link as usize) {
                Some(strtab) => Some(SymTab(sh, strtab)),
                None => None,
            }
        } else {
            None
        }
    }

    /// Whether section `index` is a relocation table whose `link` names a symbol table.
    pub open spec fn spec_has_rela(&self, index: int) -> bool {
        let shs = self.section_headers@;
        &&& 0 <= index < shs.len()
        &&& shs[index].typ == SectionType::Rela
        &&& self.spec_has_symtab(shs[index].link as int)
    }

    /// Section `index` read as a relocation table, where it is one and its
    /// `link` names a symbol table.
    pub fn rela(&self, index: usize) -> (r: Option<RelaTable<'_>>)
        ensures
            r is Some <==> self.spec_has_rela(index as int),
            r matches Some(t) ==> {
                let link = self.section_headers@[index as int].link as int;
                &&& *t.0 == self.section_headers@[index as int]
                &&& *t.1.0 == self.section_headers@[link]
                &&& *t.1.1.0 == self.section_headers@[self.section_headers@[link].link as int]
                &&& t.1.1.1@ == self.full_content@
            },
    {
        if index >= self.section_headers.len() {
            return None;
        }
        let sh = &self.section_headers[index];
        if sh.typ == SectionType::Rela {
            match self.symtab(sh.link as usize) {
                Some(symtab) => Some(RelaTable(sh, symtab)),
                None => None,
            }
        } else {
            None
        }
    }

    /// The first dynamic section, where there is one and its `link` names a
    /// string table.
    pub fn dynamic_section(&self) -> (r: Option<DynamicSection<'_>>)
        ensures
            r is Some <==> (first_of_type(self.section_headers@, SectionType::Dynamic, 0) matches Some(k)
                && self.section_headers@[k].link < self.section_headers@.len()
                && self.section_headers@[self.section_headers@[k].link as int].typ == SectionType::StrTab),
            r matches Some(d) ==> {
                let k = first_of_type(self.section_headers@, SectionType::Dynamic, 0)->Some_0;
                &&& *d.0 == self.section_headers@[k]
                &&& *d.1.0 == self.section_headers@[self.section_headers@[k].link as int]
                &&& d.1.1@ == self.full_content@
            },
    {
        match self.section_with_type(SectionType::Dynamic) {
            Some(k) => {
                let sh = &self.section_headers[k];
                match self.strtab(sh.link as usize) {
                    Some(strtab) => Some(DynamicSection(sh, strtab)),
                    None => None,
                }
            },
            None => None,
        }
    }
}

} // verus!
