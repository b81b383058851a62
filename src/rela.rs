//! Relocation tables.

use vstd::prelude::*;
use vstd::slice::slice_subrange;

use crate::addr::Addr;
use crate::parse::{read_addr, read_u32, u32_at, u64_at, Error, ErrorKind, Field};
use crate::section::SectionHeader;
use crate::sym::{sym_tail, Sym, SymTab};

verus! {

/// The size in bytes of a relocation record with an addend.
pub const RELA_SIZE: usize = 24;

/// The size in bytes of a relocation record without an addend.
pub const REL_SIZE: usize = 16;

/// The type of a relocation.
#[derive(Clone, Copy, Debug, PartialEq, Eq, Structural)]
pub enum RelocationType {
    _64,
    Copy,
    GlobDat,
    JumpSlot,
    Relative,
    IRelative,
}

impl RelocationType {
    /// The relocation type that `v` encodes, if any.
    pub open spec fn spec_from_raw(v: u32) -> Option<RelocationType> {
        if v == 1 {
            Some(RelocationType::_64)
        } else if v == 5 {
            Some(RelocationType::Copy)
        } else if v == 6 {
            Some(RelocationType::GlobDat)
        } else if v == 7 {
            Some(RelocationType::JumpSlot)
        } else if v == 8 {
            Some(RelocationType::Relative)
        } else if v == 37 {
            Some(RelocationType::IRelative)
        } else {
            None
        }
    }

    /// Decodes a relocation type.
    pub fn from_raw(v: u32) -> (r: Option<RelocationType>)
        ensures
            r == Self::spec_from_raw(v),
    {
        if v == 1 {
            Some(RelocationType::_64)
        } else if v == 5 {
            Some(RelocationType::Copy)
        } else if v == 6 {
            Some(RelocationType::GlobDat)
        } else if v == 7 {
            Some(RelocationType::JumpSlot)
        } else if v == 8 {
            Some(RelocationType::Relative)
        } else if v == 37 {
            Some(RelocationType::IRelative)
        } else {
            None
        }
    }
}

/// Whether symbol `index` of the symbol table `symsh` of `file`, whose names
/// are in the string table `strsh`, exists and parses.
pub open spec fn sym_resolves(symsh: SectionHeader, strsh: SectionHeader, file: Seq<u8>, index: u32) -> bool {
    sym_tail(symsh, file, index as int) matches Some(t) && Sym::spec_parses(strsh, file, t)
}

/// Whether `s` is symbol `index` of the symbol table `symsh` of `file`.
pub open spec fn sym_is(s: Sym, symsh: SectionHeader, strsh: SectionHeader, file: Seq<u8>, index: u32) -> bool {
    Sym::spec_is(s, strsh, file, sym_tail(symsh, file, index as int)->Some_0)
}

/// Resolves the symbol that a relocation names, failing where there is no such symbol.
fn resolve_sym(symtab: &SymTab, index: u32) -> (r: Result<Sym, Error>)
    ensures
        r is Ok <==> sym_resolves(*symtab.0, *symtab.1.0, symtab.1.1@, index),
        r matches Ok(s) ==> sym_is(s, *symtab.0, *symtab.1.0, symtab.1.1@, index),
        r matches Err(e) ==> e == (Error {
            offset: 12,
            kind: ErrorKind::Invalid(Field::SymbolIndex, index as u64),
        }),
{
    match symtab.sym_index(index as usize) {
        Some(s) => Ok(s),
        None => Err(Error { offset: 12, kind: ErrorKind::Invalid(Field::SymbolIndex, index as u64) }),
    }
}

/// A relocation with an addend.
#[derive(Clone, Debug)]
pub struct Rela {
    pub offset: Addr,
    pub typ: RelocationType,
    pub sym: Sym,
    pub addend: Addr,
}

impl Rela {
    /// Whether the record `i` parses, its symbols read from the symbol table
    /// `symsh` of `file` and their names from the string table `strsh`.
    pub open spec fn spec_parses(symsh: SectionHeader, strsh: SectionHeader, file: Seq<u8>, i: Seq<u8>) -> bool {
        &&& i.len() >= RELA_SIZE
        &&& RelocationType::spec_from_raw(u32_at(i, 8)) is Some
        &&& sym_resolves(symsh, strsh, file, u32_at(i, 12))
    }

    /// Whether `r` is the relocation that the record `i` encodes.
    pub open spec fn spec_is(r: Rela, symsh: SectionHeader, strsh: SectionHeader, file: Seq<u8>, i: Seq<u8>) -> bool {
        &&& r.offset == Addr(u64_at(i, 0))
        &&& Some(r.typ) == RelocationType::spec_from_raw(u32_at(i, 8))
        &&& sym_is(r.sym, symsh, strsh, file, u32_at(i, 12))
        &&& r.addend == Addr(u64_at(i, 16))
    }

    /// The error that the record `i` gives, where it does not parse.
    pub open spec fn spec_error(i: Seq<u8>) -> Error {
        if i.len() < RELA_SIZE {
            Error { offset: 0, kind: ErrorKind::Truncated(Field::RelocationType) }
        } else if RelocationType::spec_from_raw(u32_at(i, 8)) is None {
            Error { offset: 8, kind: ErrorKind::Invalid(Field::RelocationType, u32_at(i, 8) as u64) }
        } else {
            Error { offset: 12, kind: ErrorKind::Invalid(Field::SymbolIndex, u32_at(i, 12) as u64) }
        }
    }

    /// Parses the relocation record at the start of `i`.
    pub fn parse(i: &[u8], symtab: &SymTab) -> (r: Result<Rela, Error>)
        ensures
            r is Ok <==> Self::spec_parses(*symtab.0, *symtab.1.0, symtab.1.1@, i@),
            r matches Ok(rel) ==> Self::spec_is(rel, *symtab.0, *symtab.1.0, symtab.1.1@, i@),
            r matches Err(e) ==> e == Self::spec_error(i@),
    {
        if i.len() < RELA_SIZE {
            return Err(Error { offset: 0, kind: ErrorKind::Truncated(Field::RelocationType) });
        }
        let fields = (
            read_addr(i, 0, Field::RelocationType),
            read_u32(i, 8, Field::RelocationType),
            read_u32(i, 12, Field::RelocationType),
            read_addr(i, 16, Field::RelocationType),
        );
        let (offset, raw_typ, sym, addend) = match fields {
            (Ok(a), Ok(b), Ok(c), Ok(d)) => (a, b, c, d),
            _ => { return Err(Error { offset: 0, kind: ErrorKind::Truncated(Field::RelocationType) }); },
        };
        let typ = match RelocationType::from_raw(raw_typ) {
            Some(t) => t,
            None => { return Err(Error { offset: 8, kind: ErrorKind::Invalid(Field::RelocationType, raw_typ as u64) }); },
        };
        let sym = resolve_sym(symtab, sym)?;
        Ok(Rela { offset, typ, sym, addend })
    }
}

/// A relocation without an addend.
#[derive(Clone, Debug)]
pub struct Rel {
    pub offset: Addr,
    pub typ: RelocationType,
    pub sym: Sym,
}

impl Rel {
    /// Parses the relocation record at the start of `i`.
    pub fn parse(i: &[u8], symtab: &SymTab) -> (r: Result<Rel, Error>)
        ensures
            r is Ok <==> {
                &&& i@.len() >= REL_SIZE
                &&& RelocationType::spec_from_raw(u32_at(i@, 8)) is Some
                &&& sym_resolves(*symtab.0, *symtab.1.0, symtab.1.1@, u32_at(i@, 12))
            },
            r matches Ok(rel) ==> {
                &&& rel.offset == Addr(u64_at(i@, 0))
                &&& Some(rel.typ) == RelocationType::spec_from_raw(u32_at(i@, 8))
                &&& sym_is(rel.sym, *symtab.0, *symtab.1.0, symtab.1.1@, u32_at(i@, 12))
            },
            r matches Err(e) ==> e == (if i@.len() < REL_SIZE {
                Error { offset: 0, kind: ErrorKind::Truncated(Field::RelocationType) }
            } else if RelocationType::spec_from_raw(u32_at(i@, 8)) is None {
                Error { offset: 8, kind: ErrorKind::Invalid(Field::RelocationType, u32_at(i@, 8) as u64) }
            } else {
                Error { offset: 12, kind: ErrorKind::Invalid(Field::SymbolIndex, u32_at(i@, 12) as u64) }
            }),
    {
        if i.len() < REL_SIZE {
            return Err(Error { offset: 0, kind: ErrorKind::Truncated(Field::RelocationType) });
        }
        let fields = (
            read_addr(i, 0, Field::RelocationType),
            read_u32(i, 8, Field::RelocationType),
            read_u32(i, 12, Field::RelocationType),
        );
        let (offset, raw_typ, sym) = match fields {
            (Ok(a), Ok(b), Ok(c)) => (a, b, c),
            _ => { return Err(Error { offset: 0, kind: ErrorKind::Truncated(Field::RelocationType) }); },
        };
        let typ = match RelocationType::from_raw(raw_typ) {
            Some(t) => t,
            None => { return Err(Error { offset: 8, kind: ErrorKind::Invalid(Field::RelocationType, raw_typ as u64) }); },
        };
        let sym = resolve_sym(symtab, sym)?;
        Ok(Rel { offset, typ, sym })
    }
}

/// The bytes of record `k` of the relocation table `sh` of `file`.
pub open spec fn rela_record(sh: SectionHeader, file: Seq<u8>, k: int) -> Seq<u8> {
    sh.spec_data(file)->Some_0.subrange(k * 24, k * 24 + 24)
}

/// The number of whole records in the relocation table `sh` of `file`.
pub open spec fn rela_count(sh: SectionHeader, file: Seq<u8>) -> int {
    match sh.spec_data(file) {
        Some(d) => d.len() as int / 24,
        None => 0,
    }
}

/// A section of relocations with addends, with the symbol table they refer to.
#[derive(Clone, Copy, Debug)]
pub struct RelaTable<'a>(pub &'a SectionHeader, pub SymTab<'a>);

impl<'a> RelaTable<'a> {
    /// The bytes of the table.
    pub open spec fn spec_data(self) -> Option<Seq<u8>> {
        self.0.spec_data(self.1.1.1@)
    }

    /// The number of whole records in the table.
    pub open spec fn spec_len(self) -> int {
        rela_count(*self.0, self.1.1.1@)
    }

    /// The bytes of record `k`.
    pub open spec fn spec_record(self, k: int) -> Seq<u8> {
        rela_record(*self.0, self.1.1.1@, k)
    }

    /// The bytes from the start of record `index` to the end of the table,
    /// if that record starts inside the table.
    pub open spec fn spec_tail(self, index: int) -> Option<Seq<u8>> {
        if index * 24 <= u64::MAX {
            self.0.spec_data_at(self.1.1.1@, Addr((index * 24) as u64))
        } else {
            None
        }
    }

    /// Whether `r` is what parsing the record `i` gives.
    pub open spec fn spec_result(self, r: Result<Rela, Error>, i: Seq<u8>) -> bool {
        match r {
            Ok(rel) => Rela::spec_parses(*self.1.0, *self.1.1.0, self.1.1.1@, i) && Rela::spec_is(rel, *self.1.0, *self.1.1.0, self.1.1.1@, i),
            Err(e) => !Rela::spec_parses(*self.1.0, *self.1.1.0, self.1.1.1@, i) && e == Rela::spec_error(i),
        }
    }

    /// Returns relocation `index` of the table: `None` where the record does
    /// not start inside the table or does not parse.
    pub fn rela_index(&self, index: usize) -> (r: Option<Rela>)
        ensures
            r is Some <==> (self.spec_tail(index as int) matches Some(t) && Rela::spec_parses(*self.1.0, *self.1.1.0, self.1.1.1@, t)),
            r matches Some(rel) ==> Rela::spec_is(rel, *self.1.0, *self.1.1.0, self.1.1.1@, self.spec_tail(index as int)->Some_0),
    {
        if index as u64 > u64::MAX / 24 {
            return None;
        }
        let data = match self.0.data_at(self.1.1.1, Addr(24 * index as u64)) {
            Some(d) => d,
            None => { return None; },
        };
        match Rela::parse(data, &self.1) {
            Ok(rel) => Some(rel),
            Err(_) => None,
        }
    }

    /// Parses every record of the table, each on its own: a record that does
    /// not parse gives its error and leaves the others as they are.
    pub fn iter(&self) -> (r: Vec<Result<Rela, Error>>)
        ensures
            r@.len() == self.spec_len(),
            forall|k: int| 0 <= k < r@.len() ==> #[trigger] self.spec_result(r@[k], self.spec_record(k)),
    {
        let d = match self.0.data(self.1.1.1) {
            Some(d) => d,
            None => { return Vec::new(); },
        };
        let n = d.len() / RELA_SIZE;
        let mut out: Vec<Result<Rela, Error>> = Vec::new();
        let mut k: usize = 0;
        while k < n
            invariant
                n == d@.len() / 24,
                d@.len() <= usize::MAX,
                k <= n,
                self.spec_data() == Some(d@),
                out@.len() == k,
                forall|j: int| 0 <= j < k ==> #[trigger] self.spec_result(out@[j], self.spec_record(j)),
            decreases n - k,
        {
            assert(k * 24 + 24 <= d@.len()) by (nonlinear_arith)
                requires
                    k < n,
                    n == d@.len() / 24,
            ;
            let rec = slice_subrange(d, k * 24, k * 24 + 24);
            assert(rec@ == self.spec_record(k as int));
            out.push(Rela::parse(rec, &self.1));
            k = k + 1;
        }
        out
    }
}

} // verus!
