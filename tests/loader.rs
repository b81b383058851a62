use std::collections::BTreeMap;

use delf::addr::Addr;
use delf::dynamic::{AddrOrString, DynamicEntry, DynamicTag};
use delf::elf::{ElfType, Machine, ParsedElf};
use delf::memory::{FrameAllocator, KernelState, Pager, PhysAddr, VirtAddr};
use delf::parse::{Error, ErrorKind, Field};
use delf::process::{
    convex_hull, plan_segment, relocation_patch, round_up_to_page, LoadError, Patch, Process,
    RelocationError, Segment, SegmentPlan, LOAD_BASE,
};
use delf::rela::{Rel, Rela, RelocationType};
use delf::section::{SectionIndex, SectionType};
use delf::segment::{SegmentFlag, SegmentFlags, SegmentType};
use delf::sym::{Sym, SymBind, SymType};
use delf::testing::{test_panic_handler, test_runner, Testable, EXIT_FAILURE, EXIT_SUCCESS};

const PAGE: u64 = 4096;

fn put_u16(v: &mut Vec<u8>, x: u16) {
    v.extend_from_slice(&x.to_le_bytes());
}
fn put_u32(v: &mut Vec<u8>, x: u32) {
    v.extend_from_slice(&x.to_le_bytes());
}
fn put_u64(v: &mut Vec<u8>, x: u64) {
    v.extend_from_slice(&x.to_le_bytes());
}

fn elf_header(ph_off: u64, ph_count: u16, sh_off: u64, sh_count: u16) -> Vec<u8> {
    let mut v = vec![0x7f, 0x45, 0x4c, 0x46, 2, 1, 1, 0, 0, 0, 0, 0, 0, 0, 0, 0];
    put_u16(&mut v, 3); // shared object
    put_u16(&mut v, 0x3e);
    put_u32(&mut v, 1);
    put_u64(&mut v, 0x1000); // entry point
    put_u64(&mut v, ph_off);
    put_u64(&mut v, sh_off);
    put_u32(&mut v, 0);
    put_u16(&mut v, 64);
    put_u16(&mut v, 56);
    put_u16(&mut v, ph_count);
    put_u16(&mut v, 64);
    put_u16(&mut v, sh_count);
    put_u16(&mut v, 0);
    assert_eq!(v.len(), 64);
    v
}

fn program_header(typ: u32, flags: u32, offset: u64, vaddr: u64, filesz: u64, memsz: u64) -> Vec<u8> {
    let mut v = Vec::new();
    put_u32(&mut v, typ);
    put_u32(&mut v, flags);
    put_u64(&mut v, offset);
    put_u64(&mut v, vaddr);
    put_u64(&mut v, vaddr);
    put_u64(&mut v, filesz);
    put_u64(&mut v, memsz);
    put_u64(&mut v, PAGE);
    v
}

fn section_header(typ: u32, off: u64, size: u64, link: u32, entsize: u64) -> Vec<u8> {
    let mut v = Vec::new();
    put_u32(&mut v, 0);
    put_u32(&mut v, typ);
    put_u64(&mut v, 0);
    put_u64(&mut v, 0);
    put_u64(&mut v, off);
    put_u64(&mut v, size);
    put_u32(&mut v, link);
    put_u32(&mut v, 0);
    put_u64(&mut v, 1);
    put_u64(&mut v, entsize);
    v
}

fn place(file: &mut Vec<u8>, at: usize, bytes: &[u8]) {
    if file.len() < at + bytes.len() {
        file.resize(at + bytes.len(), 0);
    }
    file[at..at + bytes.len()].copy_from_slice(bytes);
}

/// A symbol table: the names, the string table and the records.
fn symbols(syms: &[(&str, u64, u64)]) -> (Vec<u8>, Vec<u8>) {
    let mut strtab = vec![0u8];
    let mut table = vec![0u8; 24];
    for (name, value, size) in syms {
        let off = strtab.len() as u32;
        strtab.extend_from_slice(name.as_bytes());
        strtab.push(0);
        put_u32(&mut table, off);
        table.push(0x11);
        table.push(0);
        put_u16(&mut table, 1);
        put_u64(&mut table, *value);
        put_u64(&mut table, *size);
    }
    (strtab, table)
}

fn rela_record(offset: u64, typ: u32, sym: u32, addend: u64) -> Vec<u8> {
    let mut v = Vec::new();
    put_u64(&mut v, offset);
    put_u32(&mut v, typ);
    put_u32(&mut v, sym);
    put_u64(&mut v, addend);
    v
}

/// An object with one `Load` segment of 0x200 bytes at virtual address 0,
/// a symbol table with `syms`, and relocations `relas`. Where `dynsyms` is
/// given, the relocations refer to a second symbol table of that type,
/// which lookups do not read.
fn object(syms: &[(&str, u64, u64)], dynsyms: Option<&[(&str, u64, u64)]>, relas: &[Vec<u8>]) -> Vec<u8> {
    let mut file = elf_header(64, 1, 0, 0);
    place(&mut file, 64, &program_header(1, 6, 0, 0, 0x200, 0x200));
    for k in 0..0x100usize {
        place(&mut file, 0x100 + k, &[0x5a]);
    }
    let (strtab, symtab) = symbols(syms);
    let mut at = 0x200usize;
    let mut shs = vec![section_header(0, 0, 0, 0, 0)];
    place(&mut file, at, &strtab);
    shs.push(section_header(3, at as u64, strtab.len() as u64, 0, 0));
    at += strtab.len();
    place(&mut file, at, &symtab);
    shs.push(section_header(2, at as u64, symtab.len() as u64, 1, 24));
    at += symtab.len();
    let mut rela_link = 2;
    if let Some(d) = dynsyms {
        let (dstr, dtab) = symbols(d);
        place(&mut file, at, &dstr);
        shs.push(section_header(3, at as u64, dstr.len() as u64, 0, 0));
        at += dstr.len();
        place(&mut file, at, &dtab);
        shs.push(section_header(11, at as u64, dtab.len() as u64, 3, 24));
        at += dtab.len();
        rela_link = 4;
    }
    let relbytes: Vec<u8> = relas.concat();
    place(&mut file, at, &relbytes);
    shs.push(section_header(4, at as u64, relbytes.len() as u64, rela_link, 24));
    at += relbytes.len();
    let sh_off = at as u64;
    let count = shs.len() as u16;
    for sh in shs {
        place(&mut file, at, &sh);
        at += 64;
    }
    place(&mut file, 40, &sh_off.to_le_bytes());
    place(&mut file, 60, &count.to_le_bytes());
    file
}

/// Frames handed out in order, up to a limit.
struct Frames {
    next: u64,
    left: usize,
}

impl FrameAllocator for Frames {
    fn next(&mut self) -> Option<PhysAddr> {
        if self.left == 0 {
            return None;
        }
        self.left -= 1;
        self.next += PAGE;
        Some(PhysAddr(self.next))
    }
}

fn frames() -> Frames {
    Frames { next: 0x10_0000, left: 1000 }
}

/// Pages in a map; a fresh frame is full of 0xcc.
struct Memory {
    pages: BTreeMap<u64, (u64, Vec<u8>)>,
    refuse_map: bool,
}

impl Memory {
    fn new() -> Memory {
        Memory { pages: BTreeMap::new(), refuse_map: false }
    }

    fn byte(&self, addr: u64) -> Option<u8> {
        self.pages.get(&(addr - addr % PAGE)).map(|(_, p)| p[(addr % PAGE) as usize])
    }

    fn frame(&self, page: u64) -> u64 {
        self.pages[&page].0
    }

    fn bytes(&self, addr: u64, len: usize) -> Vec<u8> {
        (0..len as u64).map(|k| self.byte(addr + k).unwrap()).collect()
    }
}

impl Pager for Memory {
    fn translate(&self, addr: VirtAddr) -> Option<PhysAddr> {
        self.pages.get(&(addr.0 - addr.0 % PAGE)).map(|(f, _)| PhysAddr(f + addr.0 % PAGE))
    }

    fn map(&mut self, addr: VirtAddr, to: PhysAddr) -> Option<()> {
        let page = addr.0 - addr.0 % PAGE;
        if self.refuse_map || self.pages.contains_key(&page) {
            return None;
        }
        self.pages.insert(page, (to.0, vec![0xcc; PAGE as usize]));
        Some(())
    }

    fn write_bytes(&mut self, addr: VirtAddr, bytes: &[u8]) -> Option<()> {
        for k in 0..bytes.len() as u64 {
            self.byte(addr.0 + k)?;
        }
        for (k, b) in bytes.iter().enumerate() {
            let a = addr.0 + k as u64;
            let page = self.pages.get_mut(&(a - a % PAGE))?;
            page.1[(a % PAGE) as usize] = *b;
        }
        Some(())
    }

    fn read_bytes(&self, addr: VirtAddr, len: usize) -> Option<Vec<u8>> {
        (0..len as u64).map(|k| self.byte(addr.0 + k)).collect()
    }
}

/// An executable with two `Load` segments; the second has 0x38 bytes of BSS.
fn two_segments() -> Vec<u8> {
    let mut file = elf_header(64, 2, 0, 0);
    place(&mut file, 64, &program_header(1, 5, 0x100, 0x100, 16, 16));
    place(&mut file, 120, &program_header(1, 6, 0x200, 0x2200, 8, 0x40));
    place(&mut file, 0x100, &[0xaa; 16]);
    place(&mut file, 0x200, &[0xbb; 8]);
    file
}

#[test]
fn parse_reproduces_header_counts() {
    let file = object(&[("x", 0x40, 8)], None, &[rela_record(0x10, 8, 0, 0x10)]);
    let elf = ParsedElf::parse(&file).unwrap();
    assert_eq!(elf.elf_header.ph_count, 1);
    assert_eq!(elf.elf_header.sh_count, 4);
    assert_eq!(elf.program_headers.len(), 1);
    assert_eq!(elf.section_headers.len(), 4);
    assert_eq!(elf.elf_header.typ, ElfType::Dyn);
    assert_eq!(elf.elf_header.machine, Machine::X86_64);
    assert_eq!(elf.elf_header.entry_point, Addr(0x1000));
    assert_eq!(elf.section_headers[2].typ, SectionType::SymTab);
    assert_eq!(elf.program_headers[0].typ, SegmentType::Load);
    assert_eq!(elf.program_headers[0].data.len(), 0x200);
    assert_eq!(elf.full_content, file);
}

#[test]
fn parse_fails_on_each_identification_field() {
    let good = elf_header(64, 0, 0, 0);
    let cases: [(usize, u8, Field); 6] = [
        (0, 0x7e, Field::Magic),
        (4, 1, Field::Class),
        (5, 2, Field::Endianness),
        (6, 2, Field::Version),
        (7, 9, Field::OsAbi),
        (20, 2, Field::VersionBis),
    ];
    for (at, value, field) in cases {
        let mut bad = good.clone();
        bad[at] = value;
        let e = ParsedElf::parse(&bad).unwrap_err();
        assert_eq!(e.offset, at);
        match e.kind {
            ErrorKind::Invalid(f, _) => assert_eq!(f, field),
            ErrorKind::Truncated(_) => panic!("expected an invalid field"),
        }
    }
    assert!(ParsedElf::parse(&good).is_ok());
}

#[test]
fn parse_reports_values_and_truncation() {
    let mut bad = elf_header(64, 0, 0, 0);
    bad[4] = 1;
    assert_eq!(
        ParsedElf::parse(&bad).unwrap_err(),
        Error { offset: 4, kind: ErrorKind::Invalid(Field::Class, 1) }
    );
    let mut linux = elf_header(64, 0, 0, 0);
    linux[7] = 3;
    assert!(ParsedElf::parse(&linux).is_ok());
    assert_eq!(
        ParsedElf::parse(&[0x7f, 0x45]).unwrap_err(),
        Error { offset: 0, kind: ErrorKind::Truncated(Field::Magic) }
    );
    let good = elf_header(64, 0, 0, 0);
    assert_eq!(
        ParsedElf::parse(&good[..40]).unwrap_err(),
        Error { offset: 24, kind: ErrorKind::Truncated(Field::Header) }
    );
    assert_eq!(
        ParsedElf::parse(&good[..12]).unwrap_err(),
        Error { offset: 8, kind: ErrorKind::Truncated(Field::Padding) }
    );
    assert_eq!(
        ParsedElf::parse(&good[..19]).unwrap_err(),
        Error { offset: 18, kind: ErrorKind::Truncated(Field::Machine) }
    );
    let mut machine = good.clone();
    machine[18] = 0x28;
    assert_eq!(
        ParsedElf::parse(&machine).unwrap_err(),
        Error { offset: 18, kind: ErrorKind::Invalid(Field::Machine, 0x28) }
    );
    // one program header announced, none in the file
    let missing = elf_header(64, 1, 0, 0);
    assert_eq!(
        ParsedElf::parse(&missing).unwrap_err(),
        Error { offset: 32, kind: ErrorKind::Truncated(Field::ProgramHeaders) }
    );
    assert!(ParsedElf::parse_or_print_error(&missing).is_none());
}

#[test]
fn unknown_section_type_is_reported() {
    let mut file = object(&[], None, &[]);
    let sh_off = u64::from_le_bytes(file[40..48].try_into().unwrap()) as usize;
    let second = sh_off + 64;
    file[second + 4..second + 8].copy_from_slice(&0x1234u32.to_le_bytes());
    assert_eq!(
        ParsedElf::parse(&file).unwrap_err(),
        Error { offset: second + 4, kind: ErrorKind::Invalid(Field::SectionType, 0x1234) }
    );
}

#[test]
fn strtab_round_trips_and_stops_at_its_size() {
    let file = object(&[("alpha", 1, 1), ("beta", 2, 2)], None, &[]);
    let elf = ParsedElf::parse(&file).unwrap();
    let strtab = elf.strtab(1).unwrap();
    assert_eq!(strtab.at(Addr(1)).unwrap(), b"alpha");
    assert_eq!(strtab.at(Addr(7)).unwrap(), b"beta");
    assert_eq!(strtab.at(Addr(3)).unwrap(), b"pha");
    assert_eq!(strtab.at(Addr(0)).unwrap(), b"");
    let size = elf.section_headers[1].size;
    assert_eq!(size, Addr(12));
    assert!(strtab.at(size).is_none());
    assert!(strtab.at(Addr(100)).is_none());
    assert!(elf.strtab(2).is_none());
    assert!(elf.strtab(99).is_none());
}

#[test]
fn data_at_stays_inside_the_section() {
    let file = object(&[("alpha", 1, 1)], None, &[]);
    let elf = ParsedElf::parse(&file).unwrap();
    let sh = &elf.section_headers[1];
    let off = sh.off.0 as usize;
    let size = sh.size.0 as usize;
    assert_eq!(sh.data_at(&file, Addr(0)).unwrap(), &file[off..off + size]);
    assert_eq!(sh.data_at(&file, Addr(2)).unwrap(), &file[off + 2..off + size]);
    assert_eq!(sh.data_at(&file, Addr(size as u64 - 1)).unwrap().len(), 1);
    assert!(sh.data_at(&file, sh.size).is_none());
    assert!(sh.data_at(&file, Addr(u64::MAX)).is_none());
    assert_eq!(sh.data(&file).unwrap(), &file[off..off + size]);
    // a section that reaches past the end of the file gives nothing
    assert!(sh.data_at(&file[..off + 2], Addr(0)).is_none());
    assert!(sh.data(&file[..off + 2]).is_none());
}

#[test]
fn convex_hull_takes_min_start_and_max_end() {
    assert_eq!(convex_hull(Addr(0x10)..Addr(0x20), Addr(0x18)..Addr(0x40)), Addr(0x10)..Addr(0x40));
    assert_eq!(convex_hull(Addr(0x50)..Addr(0x60), Addr(0x10)..Addr(0x20)), Addr(0x10)..Addr(0x60));
    let a = Addr(5)..Addr(9);
    let b = Addr(1)..Addr(3);
    let c = Addr(7)..Addr(20);
    assert_eq!(convex_hull(a.clone(), b.clone()), convex_hull(b.clone(), a.clone()));
    assert_eq!(
        convex_hull(convex_hull(a.clone(), b.clone()), c.clone()),
        convex_hull(a, convex_hull(b, c))
    );
}

#[test]
fn bss_reads_as_zero_after_loading() {
    let file = two_segments();
    let mut process = Process::new();
    let mut memory = Memory::new();
    let mut alloc = frames();
    let index = process.load_object(&file, &mut memory, &mut alloc).unwrap();
    assert_eq!(index, 0);
    let obj = &process.objects[0];
    assert_eq!(obj.base, Addr(LOAD_BASE));
    assert_eq!(obj.mem_range, Addr(0x100)..Addr(0x2240));
    assert_eq!(
        obj.segments,
        vec![
            Segment { padding: Addr(0x100), flags: SegmentFlags { bits: 5 } },
            Segment { padding: Addr(0x200), flags: SegmentFlags { bits: 6 } },
        ]
    );
    let base = LOAD_BASE;
    assert_eq!(memory.bytes(base + 0x100, 16), vec![0xaa; 16]);
    assert_eq!(memory.bytes(base + 0x2200, 8), vec![0xbb; 8]);
    assert_eq!(memory.bytes(base + 0x2208, 0x38), vec![0; 0x38]);
    // the padding before a segment is copied from the file too
    assert_eq!(memory.bytes(base + 0x2000, 0x200), file[0..0x200].to_vec());
    assert_eq!(memory.byte(base + 0x2240), Some(0xcc));
    assert!(memory.translate(VirtAddr(base + 0x2208)).is_some());
    assert!(memory.translate(VirtAddr(base + 0x1000)).is_none());
    assert_eq!(process.next_base, Addr(LOAD_BASE + 0x3000));
}

#[test]
fn each_object_gets_a_base_of_its_own() {
    let file = two_segments();
    let mut process = Process::new();
    let mut memory = Memory::new();
    let mut alloc = frames();
    assert_eq!(process.load_object(&file, &mut memory, &mut alloc).unwrap(), 0);
    assert_eq!(process.load_object(&file, &mut memory, &mut alloc).unwrap(), 1);
    assert_eq!(process.objects[1].base, Addr(LOAD_BASE + 0x3000));
    assert_eq!(memory.bytes(LOAD_BASE + 0x3000 + 0x2208, 0x38), vec![0; 0x38]);
}

#[test]
fn segment_plan_pads_back_to_the_page() {
    let file = two_segments();
    let elf = ParsedElf::parse(&file).unwrap();
    let plan = plan_segment(&elf.program_headers[1], Addr(0x10_0000), file.len()).unwrap();
    assert_eq!(
        plan,
        SegmentPlan {
            page_start: Addr(0x10_2000),
            padding: Addr(0x200),
            pages: 1,
            file_start: 0,
            file_len: 0x208,
            zero_start: Addr(0x10_2208),
            zero_len: 0x38,
        }
    );
    assert_eq!(round_up_to_page(0x2240), Some(0x3000));
    assert_eq!(round_up_to_page(0x3000), Some(0x3000));
    assert_eq!(round_up_to_page(u64::MAX), None);
}

#[test]
fn load_errors() {
    let mut process = Process::new();
    let mut memory = Memory::new();
    let mut alloc = frames();
    let mut bad = two_segments();
    bad[0] = 0;
    assert!(matches!(
        process.load_object(&bad, &mut memory, &mut alloc),
        Err(LoadError::ParseError(Error { offset: 0, kind: ErrorKind::Invalid(Field::Magic, _) }))
    ));
    let mut notes = elf_header(64, 1, 0, 0);
    place(&mut notes, 64, &program_header(4, 4, 0, 0, 0, 0));
    assert!(matches!(process.load_object(&notes, &mut memory, &mut alloc), Err(LoadError::NoLoadSegments)));
    let mut misplaced = elf_header(64, 1, 0, 0);
    place(&mut misplaced, 64, &program_header(1, 4, 0x8, 0x1010, 8, 8));
    assert!(matches!(process.load_object(&misplaced, &mut memory, &mut alloc), Err(LoadError::BadSegment(0))));
    let mut none_left = Frames { next: 0, left: 0 };
    assert!(matches!(
        process.load_object(&two_segments(), &mut memory, &mut none_left),
        Err(LoadError::OutOfFrames)
    ));
    let mut refusing = Memory::new();
    refusing.refuse_map = true;
    assert!(matches!(
        process.load_object(&two_segments(), &mut refusing, &mut alloc),
        Err(LoadError::MapFailed(_))
    ));
    assert!(process.objects.is_empty());
}

#[test]
fn later_object_wins_symbol_lookup() {
    let a = object(&[("x", 0x40, 8), ("only_a", 0x48, 8)], None, &[]);
    let b = object(&[("y", 0x20, 8), ("x", 0x80, 4)], None, &[]);
    let mut process = Process::new();
    let mut memory = Memory::new();
    let mut alloc = frames();
    process.load_object(&a, &mut memory, &mut alloc).unwrap();
    process.load_object(&b, &mut memory, &mut alloc).unwrap();
    let (obj, sym) = process.lookup_symbol("x").unwrap();
    assert_eq!(obj.base, process.objects[1].base);
    assert_eq!(sym.value, Addr(0x80));
    assert_eq!(sym.size, 4);
    assert_eq!(sym.name, b"x".to_vec());
    assert_eq!(sym.bind, SymBind::Global);
    assert_eq!(sym.typ, SymType::Object);
    let (obj, sym) = process.lookup_symbol("only_a").unwrap();
    assert_eq!(obj.base, process.objects[0].base);
    assert_eq!(sym.value, Addr(0x48));
    assert!(process.lookup_symbol("nowhere").is_none());
}

#[test]
fn relative_relocation_writes_base_plus_addend() {
    let patch = relocation_patch(
        RelocationType::Relative,
        Addr(0x10),
        Addr(0x10),
        Addr(0x1000),
        Addr(0)..Addr(0x200),
        Addr(0),
        0,
        Addr(0x9000),
    )
    .unwrap();
    assert_eq!(patch, Patch::Write { at: Addr(0x1010), value: 0x1010 });
    let file = object(&[("x", 0x40, 8)], None, &[rela_record(0x10, 8, 0, 0x10)]);
    let mut process = Process::new();
    let mut memory = Memory::new();
    let mut alloc = frames();
    process.load_object(&file, &mut memory, &mut alloc).unwrap();
    process.apply_relocations(&mut memory).unwrap();
    let expected = (LOAD_BASE + 0x10).to_le_bytes().to_vec();
    assert_eq!(memory.bytes(LOAD_BASE + 0x10, 8), expected);
}

#[test]
fn absolute_and_copy_relocations() {
    let relas = [rela_record(0x20, 1, 1, 4), rela_record(0x30, 5, 2, 0)];
    let file = object(&[("x", 0x100, 8), ("blob", 0x108, 6)], None, &relas);
    let mut process = Process::new();
    let mut memory = Memory::new();
    let mut alloc = frames();
    process.load_object(&file, &mut memory, &mut alloc).unwrap();
    process.apply_relocations(&mut memory).unwrap();
    assert_eq!(memory.bytes(LOAD_BASE + 0x20, 8), (0x100 + LOAD_BASE + 4).to_le_bytes().to_vec());
    assert_eq!(memory.bytes(LOAD_BASE + 0x30, 6), vec![0x5a; 6]);
}

#[test]
fn relocation_patch_errors() {
    let range = Addr(0)..Addr(0x200);
    for typ in [RelocationType::GlobDat, RelocationType::JumpSlot, RelocationType::IRelative] {
        assert!(matches!(
            relocation_patch(typ, Addr(0), Addr(0), Addr(0x1000), range.clone(), Addr(0), 0, Addr(0)),
            Err(RelocationError::UnimplementedRelocation(t)) if t == typ
        ));
    }
    assert!(matches!(
        relocation_patch(RelocationType::_64, Addr(0x1fc), Addr(0), Addr(0x1000), range.clone(), Addr(0), 0, Addr(0)),
        Err(RelocationError::OutOfRange(Addr(0x1fc)))
    ));
    assert_eq!(
        relocation_patch(RelocationType::_64, Addr(0x1f8), Addr(2), Addr(0x1000), range.clone(), Addr(0x30), 0, Addr(0x5000))
            .unwrap(),
        Patch::Write { at: Addr(0x11f8), value: 0x5032 }
    );
    assert_eq!(
        relocation_patch(RelocationType::Copy, Addr(0x8), Addr(0), Addr(0x1000), range, Addr(0x30), 16, Addr(0x5000))
            .unwrap(),
        Patch::Copy { to: Addr(0x1008), from: Addr(0x5030), len: 16 }
    );
}

#[test]
fn unknown_relocation_type_fails_only_its_record() {
    let relas = [rela_record(0x10, 8, 0, 1), rela_record(0x18, 99, 0, 2), rela_record(0x20, 8, 0, 3)];
    let file = object(&[("x", 0x40, 8)], None, &relas);
    let elf = ParsedElf::parse(&file).unwrap();
    let index = elf.section_with_type(SectionType::Rela).unwrap();
    let table = elf.rela(index).unwrap();
    let records = table.iter();
    assert_eq!(records.len(), 3);
    assert_eq!(records[0].as_ref().unwrap().addend, Addr(1));
    assert_eq!(
        records[1].as_ref().unwrap_err(),
        &Error { offset: 8, kind: ErrorKind::Invalid(Field::RelocationType, 99) }
    );
    assert_eq!(records[2].as_ref().unwrap().offset, Addr(0x20));
    assert_eq!(table.rela_index(2).unwrap().addend, Addr(3));
    assert!(table.rela_index(1).is_none());
    assert!(table.rela_index(3).is_none());
    // applying the table fails before anything is written
    let mut process = Process::new();
    let mut memory = Memory::new();
    let mut alloc = frames();
    process.load_object(&file, &mut memory, &mut alloc).unwrap();
    assert!(matches!(process.apply_relocations(&mut memory), Err(RelocationError::ParseError(_))));
    assert_eq!(memory.bytes(LOAD_BASE + 0x10, 8), file[0x10..0x18].to_vec());
}

#[test]
fn relocation_naming_a_missing_symbol_is_a_parse_error() {
    let relas = [rela_record(0x10, 8, 7, 1)];
    let file = object(&[("x", 0x40, 8)], None, &relas);
    let elf = ParsedElf::parse(&file).unwrap();
    let table = elf.rela(3).unwrap();
    assert_eq!(
        table.iter()[0].as_ref().unwrap_err(),
        &Error { offset: 12, kind: ErrorKind::Invalid(Field::SymbolIndex, 7) }
    );
}

#[test]
fn undefined_symbol_stops_relocation() {
    let relas = [rela_record(0x10, 8, 0, 5), rela_record(0x20, 1, 1, 0), rela_record(0x30, 8, 0, 7)];
    let file = object(&[("x", 0x40, 8)], Some(&[("missing", 0, 8)]), &relas);
    let mut process = Process::new();
    let mut memory = Memory::new();
    let mut alloc = frames();
    process.load_object(&file, &mut memory, &mut alloc).unwrap();
    match process.apply_relocations(&mut memory) {
        Err(RelocationError::UndefinedSymbol(name)) => assert_eq!(name, b"missing".to_vec()),
        _ => panic!("expected an undefined symbol"),
    }
    // the write before the failure stays; none after it happens
    assert_eq!(memory.bytes(LOAD_BASE + 0x10, 8), (LOAD_BASE + 5).to_le_bytes().to_vec());
    assert_eq!(memory.bytes(LOAD_BASE + 0x30, 8), file[0x30..0x38].to_vec());
}

#[test]
fn unimplemented_and_out_of_range_relocations_fail() {
    let file = object(&[("x", 0x40, 8)], None, &[rela_record(0x10, 6, 1, 0)]);
    let mut process = Process::new();
    let mut memory = Memory::new();
    let mut alloc = frames();
    process.load_object(&file, &mut memory, &mut alloc).unwrap();
    assert!(matches!(
        process.apply_relocations(&mut memory),
        Err(RelocationError::UnimplementedRelocation(RelocationType::GlobDat))
    ));
    let far = object(&[("x", 0x40, 8)], None, &[rela_record(0x1000, 8, 0, 0)]);
    let mut process = Process::new();
    let mut memory = Memory::new();
    process.load_object(&far, &mut memory, &mut alloc).unwrap();
    assert!(matches!(
        process.apply_relocations(&mut memory),
        Err(RelocationError::OutOfRange(Addr(0x1000)))
    ));
}

#[test]
fn symtab_and_symbols() {
    let file = object(&[("alpha", 0x11, 1), ("beta", 0x22, 2)], None, &[]);
    let elf = ParsedElf::parse(&file).unwrap();
    assert_eq!(elf.section_with_type(SectionType::SymTab), Some(2));
    assert_eq!(elf.section_with_type(SectionType::Dynamic), None);
    assert!(elf.symtab(1).is_none());
    let symtab = elf.symtab(2).unwrap();
    let syms = symtab.syms().unwrap();
    assert_eq!(syms.len(), 3);
    assert_eq!(syms[0].name, Vec::<u8>::new());
    assert_eq!(syms[1].name, b"alpha".to_vec());
    assert_eq!(syms[2].value, Addr(0x22));
    assert_eq!(syms[2].shndx.get(), Some(1));
    let beta = symtab.sym_index(2).unwrap();
    assert_eq!(beta.name, b"beta".to_vec());
    assert_eq!(beta.size, 2);
    assert!(symtab.sym_index(3).is_none());
    assert!(symtab.sym_index(usize::MAX).is_none());
    assert!(elf.rela(2).is_none());
}

#[test]
fn section_index_kinds() {
    assert!(SectionIndex(0).is_undef());
    assert!(!SectionIndex(1).is_undef());
    assert!(SectionIndex(0xff00).is_special());
    assert!(SectionIndex(0xfff1).is_special());
    assert!(!SectionIndex(0xfeff).is_special());
    assert_eq!(SectionIndex(0).get(), None);
    assert_eq!(SectionIndex(0xfff1).get(), None);
    assert_eq!(SectionIndex(7).get(), Some(7));
}

#[test]
fn segment_flags() {
    let flags = SegmentFlags::from_bits(5).unwrap();
    assert!(flags.contains(SegmentFlag::Read));
    assert!(flags.contains(SegmentFlag::Execute));
    assert!(!flags.contains(SegmentFlag::Write));
    assert!(SegmentFlags::from_bits(8).is_none());
    let mut file = elf_header(64, 1, 0, 0);
    place(&mut file, 64, &program_header(1, 0x10, 0, 0, 0, 0));
    assert_eq!(
        ParsedElf::parse(&file).unwrap_err(),
        Error { offset: 68, kind: ErrorKind::Invalid(Field::SegmentFlags, 0x10) }
    );
    let mut big = elf_header(64, 1, 0, 0);
    place(&mut big, 64, &program_header(1, 4, 0, 0, 0x10, 8));
    assert_eq!(
        ParsedElf::parse(&big).unwrap_err(),
        Error { offset: 104, kind: ErrorKind::Invalid(Field::SegmentSize, 8) }
    );
    let mut past = elf_header(64, 1, 0, 0);
    place(&mut past, 64, &program_header(1, 4, 0x100, 0, 0x10, 0x10));
    assert_eq!(
        ParsedElf::parse(&past).unwrap_err(),
        Error { offset: 72, kind: ErrorKind::Truncated(Field::SegmentData) }
    );
    let ph = &ParsedElf::parse(&two_segments()).unwrap().program_headers[1];
    assert_eq!(ph.file_range(), Addr(0x200)..Addr(0x208));
    assert_eq!(ph.mem_range(), Addr(0x2200)..Addr(0x2240));
}

/// A file with a dynamic section: NEEDED "libc.so", a HASH entry, then NULL.
fn with_dynamic() -> Vec<u8> {
    let mut file = elf_header(64, 0, 0, 0);
    let strtab = b"\0libc.so\0";
    place(&mut file, 0x100, strtab);
    let mut dynamic = Vec::new();
    for (tag, value) in [(1u64, 1u64), (4, 0x1234), (0, 0), (14, 1)] {
        put_u64(&mut dynamic, tag);
        put_u64(&mut dynamic, value);
    }
    place(&mut file, 0x120, &dynamic);
    let shs = [
        section_header(0, 0, 0, 0, 0),
        section_header(3, 0x100, strtab.len() as u64, 0, 0),
        section_header(6, 0x120, dynamic.len() as u64, 1, 16),
    ];
    let mut at = 0x200;
    for sh in shs.iter() {
        place(&mut file, at, sh);
        at += 64;
    }
    place(&mut file, 40, &0x200u64.to_le_bytes());
    place(&mut file, 60, &3u16.to_le_bytes());
    file
}

#[test]
fn dynamic_entries() {
    let file = with_dynamic();
    let elf = ParsedElf::parse(&file).unwrap();
    let dynamic = elf.dynamic_section().unwrap();
    let needed = dynamic.entry_with_tag(DynamicTag::Needed).unwrap();
    assert_eq!(needed.tag, DynamicTag::Needed);
    assert_eq!(needed.addr.unwrap_string(), &b"libc.so".to_vec());
    let hash = dynamic.entry_with_tag(DynamicTag::Hash).unwrap();
    assert!(matches!(hash.addr, AddrOrString::Address(Addr(0x1234))));
    // entries after the null entry are not read
    assert!(dynamic.entry_with_tag(DynamicTag::SoName).is_none());
    assert!(dynamic.entry_with_tag(DynamicTag::Null).is_none());
    assert!(ParsedElf::parse(&object(&[], None, &[])).unwrap().dynamic_section().is_none());
}

struct Counter<'a>(&'a std::cell::Cell<u32>);

impl Testable for Counter<'_> {
    fn run(&self) {
        self.0.set(self.0.get() + 1);
    }
}

#[test]
fn runner_runs_every_test() {
    let count = std::cell::Cell::new(0);
    let tests = [Counter(&count), Counter(&count), Counter(&count)];
    assert_eq!(test_runner(&tests), EXIT_SUCCESS);
    assert_eq!(count.get(), 3);
    assert_eq!(test_panic_handler(), EXIT_FAILURE);
}

#[test]
fn addresses_and_kernel_state() {
    assert_eq!(Addr(5).checked_add(Addr(7)), Some(Addr(12)));
    assert_eq!(Addr(u64::MAX).checked_add(Addr(1)), None);
    assert_eq!(Addr(7).checked_sub(Addr(5)), Some(Addr(2)));
    assert_eq!(Addr(5).checked_sub(Addr(7)), None);
    assert_eq!(Addr(0x1234).page_start(), Addr(0x1000));
    let mut state = KernelState { pager: Memory::new(), frame_alloc: Frames { next: 0, left: 1 } };
    assert_eq!(state.allocate_frame(), Some(PhysAddr(PAGE)));
    assert_eq!(state.allocate_frame(), None);
}

#[test]
fn no_address_space_left() {
    let mut process = Process::new();
    process.next_base = Addr(0xffff_ffff_ffff_f000);
    let mut memory = Memory::new();
    let mut alloc = frames();
    assert!(matches!(
        process.load_object(&two_segments(), &mut memory, &mut alloc),
        Err(LoadError::AddressSpaceExhausted)
    ));
    assert!(process.objects.is_empty());
}

#[test]
fn copy_from_unmapped_memory_fails() {
    let file = object(&[("far", 0x9000, 8)], None, &[rela_record(0x30, 5, 1, 0)]);
    let mut process = Process::new();
    let mut memory = Memory::new();
    let mut alloc = frames();
    process.load_object(&file, &mut memory, &mut alloc).unwrap();
    assert!(matches!(
        process.apply_relocations(&mut memory),
        Err(RelocationError::MemoryAccess(Addr(a))) if a == LOAD_BASE + 0x9000
    ));
}

#[test]
fn record_parsers() {
    let file = object(&[("x", 0x40, 8)], None, &[]);
    let elf = ParsedElf::parse(&file).unwrap();
    let symtab = elf.symtab(2).unwrap();
    let rec = rela_record(0x18, 1, 1, 0x7);
    let rela = Rela::parse(&rec, &symtab).unwrap();
    assert_eq!(rela.offset, Addr(0x18));
    assert_eq!(rela.typ, RelocationType::_64);
    assert_eq!(rela.sym.name, b"x".to_vec());
    assert_eq!(rela.addend, Addr(7));
    let rel = Rel::parse(&rec[..16], &symtab).unwrap();
    assert_eq!(rel.offset, Addr(0x18));
    assert_eq!(rel.sym.value, Addr(0x40));
    assert_eq!(
        Rela::parse(&rec[..20], &symtab).unwrap_err(),
        Error { offset: 0, kind: ErrorKind::Truncated(Field::RelocationType) }
    );
    let strtab = elf.strtab(1).unwrap();
    let mut sym = Vec::new();
    put_u32(&mut sym, 1);
    sym.push(0x32);
    sym.push(0);
    put_u16(&mut sym, 0xfff1);
    put_u64(&mut sym, 0x99);
    put_u64(&mut sym, 3);
    assert_eq!(
        Sym::parse(&strtab, &sym).unwrap_err(),
        Error { offset: 4, kind: ErrorKind::Invalid(Field::SymBind, 3) }
    );
    sym[4] = 0x2a;
    let weak = Sym::parse(&strtab, &sym).unwrap();
    assert_eq!(weak.bind, SymBind::Weak);
    assert_eq!(weak.typ, SymType::Unknown1);
    assert!(weak.shndx.is_special());
    sym[0] = 0x40;
    assert_eq!(
        Sym::parse(&strtab, &sym).unwrap_err(),
        Error { offset: 0, kind: ErrorKind::Invalid(Field::SymbolName, 0x40) }
    );
    let mut entry = Vec::new();
    put_u64(&mut entry, 1);
    put_u64(&mut entry, 1);
    let needed = DynamicEntry::parse(&entry, &strtab).unwrap();
    assert!(matches!(needed.addr, AddrOrString::String(ref s) if s == b"x"));
    put_u64(&mut entry, 0);
    entry[0] = 0x55;
    assert_eq!(
        DynamicEntry::parse(&entry, &strtab).unwrap_err(),
        Error { offset: 0, kind: ErrorKind::Invalid(Field::DynamicTag, 0x55) }
    );
}

#[test]
fn header_fields_fail_in_file_order() {
    let short = [0x7f, 0x45, 0x4c, 0x46, 2, 1, 1, 0, 0, 0, 0, 0, 0, 0, 0, 0, 2, 0, 0x3e, 0, 2, 0, 0, 0];
    assert_eq!(
        ParsedElf::parse(&short).unwrap_err(),
        Error { offset: 20, kind: ErrorKind::Invalid(Field::VersionBis, 2) }
    );
    let mut bad_type = short;
    bad_type[16] = 9;
    assert_eq!(
        ParsedElf::parse(&bad_type).unwrap_err(),
        Error { offset: 16, kind: ErrorKind::Invalid(Field::ElfType, 9) }
    );
    let mut bad_machine = short;
    bad_machine[18] = 0x28;
    assert_eq!(
        ParsedElf::parse(&bad_machine).unwrap_err(),
        Error { offset: 18, kind: ErrorKind::Invalid(Field::Machine, 0x28) }
    );
}

#[test]
fn each_page_gets_a_fresh_frame() {
    let mut file = elf_header(64, 1, 0, 0);
    place(&mut file, 64, &program_header(1, 6, 0x100, 0x100, 0x10, 0x2000));
    place(&mut file, 0x100, &[0x77; 0x10]);
    let mut process = Process::new();
    let mut memory = Memory::new();
    let mut alloc = frames();
    process.load_object(&file, &mut memory, &mut alloc).unwrap();
    let pages = [LOAD_BASE, LOAD_BASE + PAGE, LOAD_BASE + 2 * PAGE];
    let frames_used: Vec<u64> = pages.iter().map(|p| memory.frame(*p)).collect();
    assert_eq!(memory.pages.len(), 3);
    assert!(frames_used[0] != frames_used[1] && frames_used[1] != frames_used[2] && frames_used[0] != frames_used[2]);
    assert_eq!(memory.bytes(LOAD_BASE + 0x100, 0x10), vec![0x77; 0x10]);
    assert_eq!(memory.bytes(LOAD_BASE + 0x110, 0x1ff0), vec![0; 0x1ff0]);
}

#[test]
fn segments_without_memory_map_nothing() {
    let mut file = elf_header(64, 1, 0, 0);
    place(&mut file, 64, &program_header(1, 4, 0, 0x1000, 0, 0));
    let mut process = Process::new();
    let mut memory = Memory::new();
    let mut alloc = frames();
    assert_eq!(process.load_object(&file, &mut memory, &mut alloc).unwrap(), 0);
    assert!(memory.pages.is_empty());
    assert_eq!(alloc.left, 1000);
    assert!(process.objects[0].segments.is_empty());
}
