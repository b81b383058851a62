//! Symbol tables.

use vstd::prelude::*;
use vstd::slice::{slice_subrange, slice_to_vec};

use crate::addr::Addr;
use crate::parse::{read_addr, read_u16, read_u32, read_u64, read_u8, u16_at, u32_at, u64_at, Error, ErrorKind, Field};
use crate::section::{SectionHeader, SectionIndex};
use crate::strtab::{string_at, StrTab};

verus! {

/// The size in bytes of a symbol record.
pub const SYM_SIZE: usize = 24;

/// The bind of a symbol.
#[derive(Clone, Copy, Debug, PartialEq, Eq, Structural)]
pub enum SymBind {
    Local,
    Global,
    Weak,
}

impl SymBind {
    /// The bind that `v` encodes, if any.
    pub open spec fn spec_from_raw(v: u8) -> Option<SymBind> {
        if v == 0 {
            Some(SymBind::Local)
        } else if v == 1 {
            Some(SymBind::Global)
        } else if v == 2 {
            Some(SymBind::Weak)
        } else {
            None
        }
    }

    /// Decodes a symbol bind.
    pub fn from_raw(v: u8) -> (r: Option<SymBind>)
        ensures
            r == Self::spec_from_raw(v),
    {
        if v == 0 {
            Some(SymBind::Local)
        } else if v == 1 {
            Some(SymBind::Global)
        } else if v == 2 {
            Some(SymBind::Weak)
        } else {
            None
        }
    }
}

/// The type of a symbol.
#[derive(Clone, Copy, Debug, PartialEq, Eq, Structural)]
pub enum SymType {
    NoType,
    Object,
    Func,
    Section,
    File,
    Unknown1,
}

impl SymType {
    /// The symbol type that `v` encodes, if any.
    pub open spec fn spec_from_raw(v: u8) -> Option<SymType> {
        if v == 0 {
            Some(SymType::NoType)
        } else if v == 1 {
            Some(SymType::Object)
        } else if v == 2 {
            Some(SymType::Func)
        } else if v == 3 {
            Some(SymType::Section)
        } else if v == 4 {
            Some(SymType::File)
        } else if v == 10 {
            Some(SymType::Unknown1)
        } else {
            None
        }
    }

    /// Decodes a symbol type.
    pub fn from_raw(v: u8) -> (r: Option<SymType>)
        ensures
            r == Self::spec_from_raw(v),
    {
        if v == 0 {
            Some(SymType::NoType)
        } else if v == 1 {
            Some(SymType::Object)
        } else if v == 2 {
            Some(SymType::Func)
        } else if v == 3 {
            Some(SymType::Section)
        } else if v == 4 {
            Some(SymType::File)
        } else if v == 10 {
            Some(SymType::Unknown1)
        } else {
            None
        }
    }
}

/// A symbol, with its name read from the string table.
#[derive(Clone, Debug)]
pub struct Sym {
    pub name: Vec<u8>,
    pub bind: SymBind,
    pub typ: SymType,
    pub shndx: SectionIndex,
    pub value: Addr,
    pub size: u64,
}

impl Sym {
    /// Whether the record `i` parses as a symbol whose name is in the
    /// string table `strsh` of `file`.
    pub open spec fn spec_parses(strsh: SectionHeader, file: Seq<u8>, i: Seq<u8>) -> bool {
        &&& i.len() >= SYM_SIZE
        &&& SymBind::spec_from_raw(i[4] >> 4u8) is Some
        &&& SymType::spec_from_raw(i[4] & 0xfu8) is Some
        &&& string_at(strsh, file, Addr(u32_at(i, 0) as u64)) is Some
    }

    /// Whether `s` is the symbol that the record `i` encodes.
    pub open spec fn spec_is(s: Sym, strsh: SectionHeader, file: Seq<u8>, i: Seq<u8>) -> bool {
        &&& Some(s.name@) == string_at(strsh, file, Addr(u32_at(i, 0) as u64))
        &&& Some(s.bind) == SymBind::spec_from_raw(i[4] >> 4u8)
        &&& Some(s.typ) == SymType::spec_from_raw(i[4] & 0xfu8)
        &&& s.shndx == SectionIndex(u16_at(i, 6))
        &&& s.value == Addr(u64_at(i, 8))
        &&& s.size == u64_at(i, 16)
    }

    /// The error that the record `i` gives, where it does not parse.
    pub open spec fn spec_error(i: Seq<u8>) -> Error {
        if i.len() < SYM_SIZE {
            Error { offset: 0, kind: ErrorKind::Truncated(Field::SymbolIndex) }
        } else if SymBind::spec_from_raw(i[4] >> 4u8) is None {
            Error { offset: 4, kind: ErrorKind::Invalid(Field::SymBind, (i[4] >> 4u8) as u64) }
        } else if SymType::spec_from_raw(i[4] & 0xfu8) is None {
            Error { offset: 4, kind: ErrorKind::Invalid(Field::SymType, (i[4] & 0xfu8) as u64) }
        } else {
            Error { offset: 0, kind: ErrorKind::Invalid(Field::SymbolName, u32_at(i, 0) as u64) }
        }
    }

    /// Parses the symbol record at the start of `i`, reading its name from `strtab`.
    pub fn parse(strtab: &StrTab, i: &[u8]) -> (r: Result<Sym, Error>)
        ensures
            r is Ok <==> Self::spec_parses(*strtab.0, strtab.1@, i@),
            r matches Ok(s) ==> Self::spec_is(s, *strtab.0, strtab.1@, i@),
            r matches Err(e) ==> e == Self::spec_error(i@),
    {
        if i.len() < SYM_SIZE {
            return Err(Error { offset: 0, kind: ErrorKind::Truncated(Field::SymbolIndex) });
        }
        let fields = (
            read_u32(i, 0, Field::SymbolIndex),
            read_u8(i, 4, Field::SymbolIndex),
            read_u16(i, 6, Field::SymbolIndex),
            read_addr(i, 8, Field::SymbolIndex),
            read_u64(i, 16, Field::SymbolIndex),
        );
        let (name, info, shndx, value, size) = match fields {
            (Ok(a), Ok(b), Ok(c), Ok(d), Ok(e)) => (a, b, c, d, e),
            _ => { return Err(Error { offset: 0, kind: ErrorKind::Truncated(Field::SymbolIndex) }); },
        };
        let bind = match SymBind::from_raw(info >> 4u8) {
            Some(b) => b,
            None => { return Err(Error { offset: 4, kind: ErrorKind::Invalid(Field::SymBind, (info >> 4u8) as u64) }); },
        };
        let typ = match SymType::from_raw(info & 0xfu8) {
            Some(t) => t,
            None => { return Err(Error { offset: 4, kind: ErrorKind::Invalid(Field::SymType, (info & 0xfu8) as u64) }); },
        };
        let name = match strtab.at(Addr(name as u64)) {
            Some(n) => slice_to_vec(n),
            None => { return Err(Error { offset: 0, kind: ErrorKind::Invalid(Field::SymbolName, name as u64) }); },
        };
        Ok(Sym { name, bind, typ, shndx: SectionIndex(shndx), value, size })
    }
}

/// The bytes of record `k` of the symbol table `sh` of `file`.
pub open spec fn sym_record(sh: SectionHeader, file: Seq<u8>, k: int) -> Seq<u8> {
    sh.spec_data(file)->Some_0.subrange(k * 24, k * 24 + 24)
}

/// The number of whole records in the symbol table `sh` of `file`.
pub open spec fn sym_count(sh: SectionHeader, file: Seq<u8>) -> int {
    match sh.spec_data(file) {
        Some(d) => d.len() as int / 24,
        None => 0,
    }
}

/// The bytes of the symbol table `sh` of `file` from the start of record
/// `index` on, if that record starts inside the table.
pub open spec fn sym_tail(sh: SectionHeader, file: Seq<u8>, index: int) -> Option<Seq<u8>> {
    if index * 24 <= u64::MAX {
        sh.spec_data_at(file, Addr((index * 24) as u64))
    } else {
        None
    }
}

/// A section whose contents are read as symbols, with the string table
/// that holds their names.
#[derive(Clone, Copy, Debug)]
pub struct SymTab<'a>(pub &'a SectionHeader, pub StrTab<'a>);

impl<'a> SymTab<'a> {
    /// The bytes of the table.
    pub open spec fn spec_data(self) -> Option<Seq<u8>> {
        self.0.spec_data(self.1.1@)
    }

    /// The number of whole records in the table.
    pub open spec fn spec_len(self) -> int {
        sym_count(*self.0, self.1.1@)
    }

    /// The bytes of record `k`.
    pub open spec fn spec_record(self, k: int) -> Seq<u8> {
        sym_record(*self.0, self.1.1@, k)
    }

    /// The bytes from the start of record `index` to the end of the table,
    /// if that record starts inside the table.
    pub open spec fn spec_tail(self, index: int) -> Option<Seq<u8>> {
        sym_tail(*self.0, self.1.1@, index)
    }

    /// Returns symbol `index` of the table: `None` where the record does not
    /// start inside the table or does not parse.
    pub fn sym_index(&self, index: usize) -> (r: Option<Sym>)
        ensures
            r is Some <==> (self.spec_tail(index as int) matches Some(t) && Sym::spec_parses(*self.1.0, self.1.1@, t)),
            r matches Some(s) ==> Sym::spec_is(s, *self.1.0, self.1.1@, self.spec_tail(index as int)->Some_0),
    {
        if index as u64 > u64::MAX / 24 {
            return None;
        }
        let data = match self.0.data_at(self.1.1, Addr(24 * index as u64)) {
            Some(d) => d,
            None => { return None; },
        };
        match Sym::parse(&self.1, data) {
            Ok(s) => Some(s),
            Err(_) => None,
        }
    }

    /// Returns every symbol of the table, or `None` where the table is not
    /// in the file or one of its records does not parse.
    pub fn syms(&self) -> (r: Option<Vec<Sym>>)
        ensures
            r is Some <==> (self.spec_data() is Some && forall|k: int|
                0 <= k < self.spec_len() ==> #[trigger] Sym::spec_parses(*self.1.0, self.1.1@, self.spec_record(k))),
            r matches Some(v) ==> {
                &&& v@.len() == self.spec_len()
                &&& forall|k: int| 0 <= k < v@.len() ==> #[trigger] Sym::spec_is(v@[k], *self.1.0, self.1.1@, self.spec_record(k))
            },
    {
        let d = match self.0.data(self.1.1) {
            Some(d) => d,
            None => { return None; },
        };
        let n = d.len() / SYM_SIZE;
        let mut out: Vec<Sym> = Vec::new();
        let mut k: usize = 0;
        while k < n
            invariant
                n == d@.len() / 24,
                d@.len() <= usize::MAX,
                k <= n,
                self.spec_data() == Some(d@),
                out@.len() == k,
                forall|j: int| 0 <= j < k ==> #[trigger] Sym::spec_parses(*self.1.0, self.1.1@, self.spec_record(j)),
                forall|j: int| 0 <= j < k ==> #[trigger] Sym::spec_is(out@[j], *self.1.0, self.1.1@, self.spec_record(j)),
            decreases n - k,
        {
            assert(k * 24 + 24 <= d@.len()) by (nonlinear_arith)
                requires
                    k < n,
                    n == d@.len() / 24,
            ;
            let rec = slice_subrange(d, k * 24, k * 24 + 24);
            assert(rec@ == self.spec_record(k as int));
            match Sym::parse(&self.1, rec) {
                Ok(s) => { out.push(s); },
                Err(_) => { return None; },
            }
            k = k + 1;
        }
        Some(out)
    }
}

} // verus!
