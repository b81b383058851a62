//! Reading fixed-width little-endian fields, and the errors of parsing.

use vstd::bytes::{
    spec_u16_from_le_bytes, spec_u32_from_le_bytes, spec_u64_from_le_bytes, u16_from_le_bytes,
    u32_from_le_bytes, u64_from_le_bytes,
};
use vstd::prelude::*;
use vstd::slice::slice_subrange;

use crate::addr::Addr;

verus! {

/// The field of an ELF file that a parse error is about.
#[derive(Clone, Copy, Debug, PartialEq, Eq, Structural)]
pub enum Field {
    Magic,
    Class,
    Endianness,
    Version,
    OsAbi,
    Padding,
    ElfType,
    Machine,
    VersionBis,
    Header,
    ProgramHeaders,
    SectionHeaders,
    SectionType,
    SegmentType,
    SegmentFlags,
    SegmentData,
    SegmentSize,
    DynamicTag,
    RelocationType,
    SymBind,
    SymType,
    SymbolIndex,
    SymbolName,
    SectionData,
}

/// What went wrong at the offset of an [`Error`].
#[derive(Clone, Copy, Debug, PartialEq, Eq, Structural)]
pub enum ErrorKind {
    /// The input ends before the field does.
    Truncated(Field),
    /// The field holds a value that is not accepted there.
    Invalid(Field, u64),
}

/// A parse error: where it happened, and what was wrong there.
#[derive(Clone, Copy, Debug, PartialEq, Eq, Structural)]
pub struct Error {
    pub offset: usize,
    pub kind: ErrorKind,
}

impl Error {
    /// The field that the error is about.
    pub open spec fn field(self) -> Field {
        match self.kind {
            ErrorKind::Truncated(f) => f,
            ErrorKind::Invalid(f, _) => f,
        }
    }
}

/// The `u16` stored little-endian at `at` in `s`.
pub open spec fn u16_at(s: Seq<u8>, at: int) -> u16 {
    spec_u16_from_le_bytes(s.subrange(at, at + 2))
}

/// The `u32` stored little-endian at `at` in `s`.
pub open spec fn u32_at(s: Seq<u8>, at: int) -> u32 {
    spec_u32_from_le_bytes(s.subrange(at, at + 4))
}

/// The `u64` stored little-endian at `at` in `s`.
pub open spec fn u64_at(s: Seq<u8>, at: int) -> u64 {
    spec_u64_from_le_bytes(s.subrange(at, at + 8))
}

/// The error for `field`, found at `at`, where the input ends before it does.
pub open spec fn truncated(at: int, field: Field) -> Error {
    Error { offset: at as usize, kind: ErrorKind::Truncated(field) }
}

/// Reads the byte at `at`.
pub fn read_u8(i: &[u8], at: usize, field: Field) -> (r: Result<u8, Error>)
    ensures
        at < i@.len() ==> r == Ok::<u8, Error>(i@[at as int]),
        at >= i@.len() ==> r == Err::<u8, Error>(truncated(at as int, field)),
{
    if at < i.len() {
        Ok(i[at])
    } else {
        Err(Error { offset: at, kind: ErrorKind::Truncated(field) })
    }
}

/// Reads the little-endian `u16` at `at`.
pub fn read_u16(i: &[u8], at: usize, field: Field) -> (r: Result<u16, Error>)
    ensures
        at + 2 <= i@.len() ==> r == Ok::<u16, Error>(u16_at(i@, at as int)),
        at + 2 > i@.len() ==> r == Err::<u16, Error>(truncated(at as int, field)),
{
    if at <= i.len() && i.len() - at >= 2 {
        Ok(u16_from_le_bytes(slice_subrange(i, at, at + 2)))
    } else {
        Err(Error { offset: at, kind: ErrorKind::Truncated(field) })
    }
}

/// Reads the little-endian `u32` at `at`.
pub fn read_u32(i: &[u8], at: usize, field: Field) -> (r: Result<u32, Error>)
    ensures
        at + 4 <= i@.len() ==> r == Ok::<u32, Error>(u32_at(i@, at as int)),
        at + 4 > i@.len() ==> r == Err::<u32, Error>(truncated(at as int, field)),
{
    if at <= i.len() && i.len() - at >= 4 {
        Ok(u32_from_le_bytes(slice_subrange(i, at, at + 4)))
    } else {
        Err(Error { offset: at, kind: ErrorKind::Truncated(field) })
    }
}

/// Reads the little-endian `u64` at `at`.
pub fn read_u64(i: &[u8], at: usize, field: Field) -> (r: Result<u64, Error>)
    ensures
        at + 8 <= i@.len() ==> r == Ok::<u64, Error>(u64_at(i@, at as int)),
        at + 8 > i@.len() ==> r == Err::<u64, Error>(truncated(at as int, field)),
{
    if at <= i.len() && i.len() - at >= 8 {
        Ok(u64_from_le_bytes(slice_subrange(i, at, at + 8)))
    } else {
        Err(Error { offset: at, kind: ErrorKind::Truncated(field) })
    }
}

/// Reads the little-endian 64-bit address at `at`.
pub fn read_addr(i: &[u8], at: usize, field: Field) -> (r: Result<Addr, Error>)
    ensures
        at + 8 <= i@.len() ==> r == Ok::<Addr, Error>(Addr(u64_at(i@, at as int))),
        at + 8 > i@.len() ==> r == Err::<Addr, Error>(truncated(at as int, field)),
{
    match read_u64(i, at, field) {
        Ok(v) => Ok(Addr(v)),
        Err(e) => Err(e),
    }
}

} // verus!
