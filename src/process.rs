//! Loading of ELF objects into memory, and resolution of their symbols
//! and relocations.

use std::ops::Range;

use vstd::bytes::{spec_u64_to_le_bytes, u64_to_le_bytes};
use vstd::prelude::*;
use vstd::slice::{slice_subrange, slice_to_vec};
use vstd::string::StringSliceAdditionalSpecFns;

use crate::addr::{Addr, PAGE_SIZE};
use crate::elf::{first_of_type, spec_header, no_load_segments, program_header_fields, program_header_is, spec_valid, ParsedElf};
use crate::errors::{ReadRelaError, ReadSymsError};
use crate::memory::{page_of, read_from, write_into, FrameAllocator, Pager, VirtAddr};
use crate::parse::{u32_at, u64_at, Error};
use crate::rela::{rela_count, rela_record, Rela, RelocationType};
use crate::section::{SectionHeader, SectionType};
use crate::segment::{ProgramHeader, ProgramHeaderFields, SegmentFlags, SegmentType};
use crate::strtab::string_at;
use crate::sym::{sym_count, sym_record, sym_tail, Sym};

verus! {

/// The virtual address at which the first loaded object is placed.
pub const LOAD_BASE: u64 = 0xDEAD_BEEF_0000;

/// The smaller of two integers.
pub open spec fn min_u64(a: u64, b: u64) -> u64 {
    if a <= b { a } else { b }
}

/// The larger of two integers.
pub open spec fn max_u64(a: u64, b: u64) -> u64 {
    if a >= b { a } else { b }
}

/// The smallest range that holds both `a` and `b`.
pub open spec fn spec_hull(a: Range<Addr>, b: Range<Addr>) -> Range<Addr> {
    Range {
        start: Addr(min_u64(a.start.0, b.start.0)),
        end: Addr(max_u64(a.end.0, b.end.0)),
    }
}

/// Returns a range that contains both `a` and `b`.
pub fn convex_hull(a: Range<Addr>, b: Range<Addr>) -> (r: Range<Addr>)
    ensures
        r == spec_hull(a, b),
{
    let start = if a.start.0 <= b.start.0 { a.start } else { b.start };
    let end = if a.end.0 >= b.end.0 { a.end } else { b.end };
    start..end
}

/// The hull does not depend on the order of its arguments.
pub proof fn lemma_hull_commutative(a: Range<Addr>, b: Range<Addr>)
    ensures
        spec_hull(a, b) == spec_hull(b, a),
{
}

/// The hull of three ranges does not depend on how they are grouped.
pub proof fn lemma_hull_associative(a: Range<Addr>, b: Range<Addr>, c: Range<Addr>)
    ensures
        spec_hull(spec_hull(a, b), c) == spec_hull(a, spec_hull(b, c)),
{
}

/// The fields of each of `phs`.
pub open spec fn fields_of(phs: Seq<ProgramHeader>) -> Seq<ProgramHeaderFields> {
    Seq::new(phs.len(), |k: int| phs[k].fields())
}

/// The fields of each program header of the file `s`.
pub open spec fn input_fields(s: Seq<u8>) -> Seq<ProgramHeaderFields> {
    Seq::new(spec_header(s).ph_count as nat, |k: int| program_header_fields(s, k))
}

/// The range a segment occupies in memory, relative to the load base.
pub open spec fn spec_mem_range(ph: ProgramHeaderFields) -> Range<Addr> {
    Range { start: ph.vaddr, end: Addr((ph.vaddr.0 + ph.memsz.0) as u64) }
}

/// The hull of the memory ranges of the `Load` segments among the first `n`
/// program headers.
pub open spec fn load_hull(phs: Seq<ProgramHeaderFields>, n: int) -> Option<Range<Addr>>
    decreases n,
{
    if n <= 0 {
        None
    } else {
        let prev = load_hull(phs, n - 1);
        if phs[n - 1].typ == SegmentType::Load {
            match prev {
                Some(h) => Some(spec_hull(h, spec_mem_range(phs[n - 1]))),
                None => Some(spec_mem_range(phs[n - 1])),
            }
        } else {
            prev
        }
    }
}

/// Returns the hull of the memory ranges of the `Load` segments of `phs`.
pub fn load_segments_hull(phs: &Vec<ProgramHeader>) -> (r: Option<Range<Addr>>)
    requires
        forall|k: int| 0 <= k < phs@.len() ==> #[trigger] phs@[k].wf(),
    ensures
        r == load_hull(fields_of(phs@), phs@.len() as int),
        r is None <==> forall|k: int| 0 <= k < phs@.len() ==> #[trigger] phs@[k].typ != SegmentType::Load,
{
    let mut acc: Option<Range<Addr>> = None;
    let mut k: usize = 0;
    while k < phs.len()
        invariant
            k <= phs@.len(),
            forall|j: int| 0 <= j < phs@.len() ==> #[trigger] phs@[j].wf(),
            acc == load_hull(fields_of(phs@), k as int),
            acc is None <==> forall|j: int| 0 <= j < k ==> #[trigger] phs@[j].typ != SegmentType::Load,
        decreases phs@.len() - k,
    {
        let ph = &phs[k];
        if ph.typ == SegmentType::Load {
            let range = ph.mem_range();
            acc = match acc {
                None => Some(range),
                Some(h) => Some(convex_hull(h, range)),
            };
        }
        k = k + 1;
    }
    acc
}

/// The multiple of the page size at or above `x`, if it fits in 64 bits.
pub open spec fn page_round_up(x: u64) -> Option<u64> {
    let r = if x % PAGE_SIZE == 0 { x as int } else { x - x % PAGE_SIZE + PAGE_SIZE };
    if r <= u64::MAX { Some(r as u64) } else { None }
}

/// Returns the multiple of the page size at or above `x`.
pub fn round_up_to_page(x: u64) -> (r: Option<u64>)
    ensures
        r == page_round_up(x),
{
    let rem = x % PAGE_SIZE;
    if rem == 0 {
        Some(x)
    } else if x - rem > u64::MAX - PAGE_SIZE {
        None
    } else {
        Some(x - rem + PAGE_SIZE)
    }
}

/// What loading one segment at a base does: the pages it maps and the
/// bytes it writes there.
#[derive(Clone, Copy, Debug, PartialEq, Eq, Structural)]
pub struct SegmentPlan {
    /// The first mapped page.
    pub page_start: Addr,
    /// The bytes between the start of that page and the segment.
    pub padding: Addr,
    /// The number of pages mapped.
    pub pages: u64,
    /// Where in the file the copied bytes start: `padding` bytes before the segment's own.
    pub file_start: u64,
    /// How many bytes of the file are copied to `page_start`.
    pub file_len: u64,
    /// Where the part of the segment that is not in the file starts.
    pub zero_start: Addr,
    /// How many bytes there are zeroed.
    pub zero_len: u64,
}

/// The plan for loading segment `ph` of a file of `file_len` bytes at `base`,
/// where every address it touches fits in 64 bits, the padded file range
/// is in the file and the zeroed part fits in memory.
pub open spec fn spec_plan(ph: ProgramHeaderFields, base: Addr, file_len: int) -> Option<SegmentPlan> {
    let padding = ph.vaddr.0 % PAGE_SIZE;
    let page_start = base.0 + ph.vaddr.0 - padding;
    let span = padding + ph.memsz.0;
    let pages = if span % PAGE_SIZE as int == 0 { span / PAGE_SIZE as int } else { span / PAGE_SIZE as int + 1 };
    if base.0 + ph.vaddr.0 + ph.memsz.0 + PAGE_SIZE <= u64::MAX
        && padding <= ph.offset.0
        && ph.offset.0 + ph.filesz.0 <= file_len
        && ph.filesz.0 <= ph.memsz.0
        && ph.memsz.0 - ph.filesz.0 <= usize::MAX {
        Some(SegmentPlan {
            page_start: Addr(page_start as u64),
            padding: Addr(padding as u64),
            pages: pages as u64,
            file_start: (ph.offset.0 - padding) as u64,
            file_len: (ph.filesz.0 + padding) as u64,
            zero_start: Addr((base.0 + ph.vaddr.0 + ph.filesz.0) as u64),
            zero_len: (ph.memsz.0 - ph.filesz.0) as u64,
        })
    } else {
        None
    }
}

/// Whether `p` maps whole pages from an aligned start that cover what it writes.
pub open spec fn plan_fits(p: SegmentPlan) -> bool {
    &&& p.page_start.0 % PAGE_SIZE == 0
    &&& p.page_start.0 + p.pages * PAGE_SIZE <= u64::MAX
    &&& p.zero_start.0 == p.page_start.0 + p.file_len
    &&& p.file_len + p.zero_len <= p.pages * PAGE_SIZE
    &&& p.zero_len <= usize::MAX
}

/// Plans the loading of segment `ph` of a file of `file_len` bytes at `base`:
/// the segment's start is rounded down to its page, and the copied file
/// range is extended backward by the same padding.
pub fn plan_segment(ph: &ProgramHeader, base: Addr, file_len: usize) -> (r: Option<SegmentPlan>)
    requires
        ph.wf(),
    ensures
        r == spec_plan(ph.fields(), base, file_len as int),
        r matches Some(p) ==> p.file_start + p.file_len <= file_len,
        r matches Some(p) ==> (base.0 % PAGE_SIZE == 0 ==> plan_fits(p)),
{
    let padding = ph.vaddr.0 % PAGE_SIZE;
    if base.0 > u64::MAX - ph.vaddr.0 || base.0 + ph.vaddr.0 > u64::MAX - ph.memsz.0
        || base.0 + ph.vaddr.0 + ph.memsz.0 > u64::MAX - PAGE_SIZE {
        return None;
    }
    if padding > ph.offset.0 || ph.offset.0 > file_len as u64 || ph.filesz.0 > file_len as u64 - ph.offset.0 {
        return None;
    }
    if ph.memsz.0 - ph.filesz.0 > usize::MAX as u64 {
        return None;
    }
    let span = padding + ph.memsz.0;
    let pages = if span % PAGE_SIZE == 0 { span / PAGE_SIZE } else { span / PAGE_SIZE + 1 };
    let page_start = base.0 + ph.vaddr.0 - padding;
    proof {
        assert(pages * 4096 >= span && pages * 4096 < span + 4096) by (nonlinear_arith)
            requires
                span % 4096 == 0 ==> pages == span / 4096,
                span % 4096 != 0 ==> pages == span / 4096 + 1,
        ;
        if base.0 % 4096 == 0 {
            assert(page_start % 4096 == 0) by (nonlinear_arith)
                requires
                    base.0 % 4096 == 0,
                    padding == ph.vaddr.0 % 4096,
                    page_start == base.0 + ph.vaddr.0 - padding,
            ;
        }
    }
    Some(SegmentPlan {
        page_start: Addr(page_start),
        padding: Addr(padding),
        pages,
        file_start: ph.offset.0 - padding,
        file_len: ph.filesz.0 + padding,
        zero_start: Addr(base.0 + ph.vaddr.0 + ph.filesz.0),
        zero_len: ph.memsz.0 - ph.filesz.0,
    })
}

/// What loading writes for the plan `p`, by address: the file bytes from
/// `p.file_start` on at the page start, then zeros.
pub open spec fn seg_bytes(p: SegmentPlan, content: Seq<u8>) -> Map<int, u8> {
    Map::new(
        |a: int| p.page_start.0 <= a < p.page_start.0 + p.file_len + p.zero_len,
        |a: int| if a < p.page_start.0 + p.file_len { content[p.file_start + (a - p.page_start.0)] } else { 0u8 },
    )
}

/// Whether `a` is in one of the pages that `p` maps.
pub open spec fn in_span(p: SegmentPlan, a: int) -> bool {
    p.page_start.0 <= a < p.page_start.0 + p.pages * PAGE_SIZE
}

/// Whether `a` is the start of one of the pages that `p` maps.
pub open spec fn in_pages(p: SegmentPlan, a: int) -> bool {
    p.page_start.0 <= a < p.page_start.0 + p.pages * PAGE_SIZE && a % PAGE_SIZE as int == 0
}

/// Whether loading takes memory for the segment with fields `f`.
pub open spec fn loads(f: ProgramHeaderFields) -> bool {
    f.typ == SegmentType::Load && f.memsz.0 > 0
}

/// Whether an object whose memory ends at `hull.end` does not fit at `base`.
pub open spec fn exhausts(base: Addr, hull: Range<Addr>) -> bool {
    base.0 + hull.end.0 > u64::MAX || page_round_up((base.0 + hull.end.0) as u64) is None
}

/// The first segment from `k` on that loading takes memory for and cannot plan.
pub open spec fn first_bad(fs: Seq<ProgramHeaderFields>, base: Addr, len: int, k: int) -> Option<int>
    decreases fs.len() - k,
{
    if k < 0 || k >= fs.len() {
        None
    } else if loads(fs[k]) && spec_plan(fs[k], base, len) is None {
        Some(k)
    } else {
        first_bad(fs, base, len, k + 1)
    }
}

/// The plan for segment `k` of `fs` in a file with bytes `content` placed at `base`.
pub open spec fn plan_of(fs: Seq<ProgramHeaderFields>, k: int, base: Addr, content: Seq<u8>) -> SegmentPlan {
    spec_plan(fs[k], base, content.len() as int)->Some_0
}

/// What loading segment `k` of `fs` writes, by address.
pub open spec fn seg_write(fs: Seq<ProgramHeaderFields>, k: int, base: Addr, content: Seq<u8>) -> Map<int, u8> {
    seg_bytes(plan_of(fs, k, base, content), content)
}

/// Whether a segment after `j` and before `k` that loading takes memory for
/// writes at `a`.
pub open spec fn later_covers(fs: Seq<ProgramHeaderFields>, base: Addr, content: Seq<u8>, j: int, k: int, a: int) -> bool
    decreases k - j,
{
    if k <= j + 1 {
        false
    } else {
        later_covers(fs, base, content, j, k - 1, a) || (loads(fs[k - 1]) && seg_write(fs, k - 1, base, content).contains_key(a))
    }
}

/// Returns `n` zero bytes.
fn zero_bytes(n: usize) -> (r: Vec<u8>)
    ensures
        r@ == Seq::new(n as nat, |k: int| 0u8),
{
    let mut v: Vec<u8> = Vec::new();
    while v.len() < n
        invariant
            v@.len() <= n,
            forall|k: int| 0 <= k < v@.len() ==> v@[k] == 0u8,
        decreases n - v@.len(),
    {
        v.push(0u8);
    }
    assert(v@ =~= Seq::new(n as nat, |k: int| 0u8));
    v
}

/// A segment of a loaded object.
#[derive(Clone, Copy, Debug, PartialEq, Eq, Structural)]
pub struct Segment {
    /// The bytes between the start of the segment's first page and the segment.
    pub padding: Addr,
    pub flags: SegmentFlags,
}

/// The segments that loading records for the first `n` program headers:
/// one for each `Load` segment that takes memory.
pub open spec fn expected_segments(phs: Seq<ProgramHeader>, n: int) -> Seq<Segment>
    decreases n,
{
    if n <= 0 {
        Seq::empty()
    } else {
        let prev = expected_segments(phs, n - 1);
        let ph = phs[n - 1];
        if ph.typ == SegmentType::Load && ph.memsz.0 > 0 {
            prev.push(Segment { padding: Addr(ph.vaddr.0 % PAGE_SIZE), flags: ph.flags })
        } else {
            prev
        }
    }
}

/// An ELF object loaded in memory.
#[derive(Debug)]
pub struct Object {
    /// The address that the object's virtual addresses are relative to.
    pub base: Addr,
    /// The hull of the memory ranges of its `Load` segments, relative to `base`.
    pub mem_range: Range<Addr>,
    pub file: ParsedElf,
    pub segments: Vec<Segment>,
}

impl Object {
    /// The end of the memory the object occupies.
    pub open spec fn spec_end(&self) -> int {
        self.base.0 + self.mem_range.end.0
    }

    /// The file parsed, the range is the hull of its `Load` segments, the
    /// segments are those of its `Load` segments, and its memory fits in 64 bits.
    pub open spec fn wf(&self) -> bool {
        let phs = self.file.program_headers@;
        &&& self.file.wf()
        &&& load_hull(fields_of(phs), phs.len() as int) == Some(self.mem_range)
        &&& self.segments@ == expected_segments(phs, phs.len() as int)
        &&& self.spec_end() <= u64::MAX
    }
}

/// The index of the section that lookups read the symbols of `o` from: its
/// first symbol table, where that one's `link` names a string table.
pub open spec fn symtab_of(o: Object) -> Option<int> {
    match first_of_type(o.file.section_headers@, SectionType::SymTab, 0) {
        Some(k) => if o.file.spec_has_symtab(k) { Some(k) } else { None },
        None => None,
    }
}

/// Whether every record of the symbol table of `o` parses.
pub open spec fn syms_parse(o: Object) -> bool {
    symtab_of(o) matches Some(k) && {
        let shs = o.file.section_headers@;
        let f = o.file.full_content@;
        &&& shs[k].spec_data(f) is Some
        &&& forall|j: int| 0 <= j < sym_count(shs[k], f)
            ==> #[trigger] Sym::spec_parses(shs[shs[k].link as int], f, sym_record(shs[k], f, j))
    }
}

/// The name of symbol `j` of the symbol table of `o`.
pub open spec fn sym_name_at(o: Object, j: int) -> Option<Seq<u8>> {
    let shs = o.file.section_headers@;
    let f = o.file.full_content@;
    let k = symtab_of(o)->Some_0;
    string_at(shs[shs[k].link as int], f, Addr(u32_at(sym_record(shs[k], f, j), 0) as u64))
}

/// Whether a lookup finds a symbol called `name` in `o`.
pub open spec fn defines(o: Object, name: Seq<u8>) -> bool {
    &&& syms_parse(o)
    &&& exists|j: int| 0 <= j < sym_count(o.file.section_headers@[symtab_of(o)->Some_0], o.file.full_content@)
        && #[trigger] sym_name_at(o, j) == Some(name)
}

/// Where two loaded objects define the same name, a lookup never picks the
/// one loaded first: the object it picks is one that defines the name with
/// no later object that does, so it is the later one or loaded after it.
pub proof fn lemma_later_load_wins(objs: Seq<Object>, name: Seq<u8>, a: int, b: int, picked: int)
    requires
        0 <= a < b < objs.len(),
        defines(objs[a], name),
        defines(objs[b], name),
        0 <= picked < objs.len(),
        defines(objs[picked], name),
        forall|j: int| picked < j < objs.len() ==> !defines(#[trigger] objs[j], name),
    ensures
        picked != a,
        picked >= b,
{
}

/// Whether `s` is the first symbol called `name` in the symbol table of `o`.
pub open spec fn first_symbol_named(o: Object, name: Seq<u8>, s: Sym) -> bool {
    let shs = o.file.section_headers@;
    let f = o.file.full_content@;
    let k = symtab_of(o)->Some_0;
    exists|j: int| {
        &&& 0 <= j < sym_count(shs[k], f)
        &&& #[trigger] sym_name_at(o, j) == Some(name)
        &&& forall|i: int| 0 <= i < j ==> sym_name_at(o, i) != Some(name)
        &&& Sym::spec_is(s, shs[shs[k].link as int], f, sym_record(shs[k], f, j))
    }
}

/// The index of the section that the relocations of `o` are read from: its
/// first relocation table, where that one's `link` names a symbol table.
pub open spec fn rela_of(o: Object) -> Option<int> {
    match first_of_type(o.file.section_headers@, SectionType::Rela, 0) {
        Some(k) => if o.file.spec_has_rela(k) { Some(k) } else { None },
        None => None,
    }
}

/// The relocation table of `o`, its symbol table, and their string table.
pub open spec fn rela_headers(o: Object) -> (SectionHeader, SectionHeader, SectionHeader) {
    let shs = o.file.section_headers@;
    let k = rela_of(o)->Some_0;
    let symsh = shs[shs[k].link as int];
    (shs[k], symsh, shs[symsh.link as int])
}

/// The number of relocation records of `o`.
pub open spec fn rela_records(o: Object) -> int {
    if rela_of(o) is Some {
        rela_count(rela_headers(o).0, o.file.full_content@)
    } else {
        0
    }
}

/// Whether relocation record `j` of `o` parses.
pub open spec fn rela_ok(o: Object, j: int) -> bool {
    let (sh, symsh, strsh) = rela_headers(o);
    let f = o.file.full_content@;
    Rela::spec_parses(symsh, strsh, f, rela_record(sh, f, j))
}

/// Whether `r` is relocation record `j` of `o`.
pub open spec fn rela_is(o: Object, j: int, r: Rela) -> bool {
    let (sh, symsh, strsh) = rela_headers(o);
    let f = o.file.full_content@;
    Rela::spec_is(r, symsh, strsh, f, rela_record(sh, f, j))
}

/// The name of the symbol that relocation record `j` of `o` refers to.
pub open spec fn rela_sym_name(o: Object, j: int) -> Option<Seq<u8>> {
    let (sh, symsh, strsh) = rela_headers(o);
    let f = o.file.full_content@;
    let sym = sym_tail(symsh, f, u32_at(rela_record(sh, f, j), 12) as int)->Some_0;
    string_at(strsh, f, Addr(u32_at(sym, 0) as u64))
}

/// Whether every relocation record of every object parses.
pub open spec fn all_relas_parse(objs: Seq<Object>) -> bool {
    forall|i: int, j: int| 0 <= i < objs.len() && 0 <= j < rela_records(objs[i]) ==> #[trigger] rela_ok(objs[i], j)
}

/// The last of the first `n` objects that defines `name`.
pub open spec fn last_definer(objs: Seq<Object>, name: Seq<u8>, n: int) -> Option<int>
    decreases n,
{
    if n <= 0 {
        None
    } else if defines(objs[n - 1], name) {
        Some(n - 1)
    } else {
        last_definer(objs, name, n - 1)
    }
}

/// The index of the first symbol called `name` in the symbol table of `o`.
pub open spec fn first_sym_index(o: Object, name: Seq<u8>) -> int {
    let shs = o.file.section_headers@;
    let k = symtab_of(o)->Some_0;
    choose|j: int| {
        &&& 0 <= j < sym_count(shs[k], o.file.full_content@)
        &&& #[trigger] sym_name_at(o, j) == Some(name)
        &&& forall|i: int| 0 <= i < j ==> sym_name_at(o, i) != Some(name)
    }
}

/// The record of the first symbol called `name` in the symbol table of `o`.
pub open spec fn first_sym_record(o: Object, name: Seq<u8>) -> Seq<u8> {
    let shs = o.file.section_headers@;
    let k = symtab_of(o)->Some_0;
    sym_record(shs[k], o.file.full_content@, first_sym_index(o, name))
}

/// The value of the first symbol called `name` in `o`.
pub open spec fn def_value(o: Object, name: Seq<u8>) -> Addr {
    Addr(u64_at(first_sym_record(o, name), 8))
}

/// The size of the first symbol called `name` in `o`.
pub open spec fn def_size(o: Object, name: Seq<u8>) -> u64 {
    u64_at(first_sym_record(o, name), 16)
}

/// The first symbol called `name` has the value and size of its record.
pub proof fn lemma_first_symbol_value(o: Object, name: Seq<u8>, s: Sym)
    requires
        first_symbol_named(o, name, s),
    ensures
        s.value == def_value(o, name),
        s.size == def_size(o, name),
{
    let shs = o.file.section_headers@;
    let k = symtab_of(o)->Some_0;
    let f = o.file.full_content@;
    let j = choose|j: int| {
        &&& 0 <= j < sym_count(shs[k], f)
        &&& #[trigger] sym_name_at(o, j) == Some(name)
        &&& forall|i: int| 0 <= i < j ==> sym_name_at(o, i) != Some(name)
        &&& Sym::spec_is(s, shs[shs[k].link as int], f, sym_record(shs[k], f, j))
    };
    let c = first_sym_index(o, name);
    assert(0 <= c < sym_count(shs[k], f) && sym_name_at(o, c) == Some(name)
        && forall|i: int| 0 <= i < c ==> sym_name_at(o, i) != Some(name));
    if j < c {
        assert(sym_name_at(o, j) != Some(name));
    } else if c < j {
        assert(sym_name_at(o, c) != Some(name));
    }
}

/// `mem` after the patch `p` is applied to it.
pub open spec fn patched(mem: Map<int, u8>, p: Patch) -> Map<int, u8> {
    match p {
        Patch::Write { at, value } => write_into(mem, at.0 as int, spec_u64_to_le_bytes(value)),
        Patch::Copy { to, from, len } => write_into(mem, to.0 as int, read_from(mem, from.0 as int, len as int)),
    }
}

/// `mem` after the patches `ps` are applied to it in order.
pub open spec fn mem_after(mem: Map<int, u8>, ps: Seq<Patch>) -> Map<int, u8>
    decreases ps.len(),
{
    if ps.len() == 0 {
        mem
    } else {
        patched(mem_after(mem, ps.drop_last()), ps.last())
    }
}

/// The records of object `i`'s relocation table, as (object, record) pairs.
pub open spec fn records_of(objs: Seq<Object>, i: int) -> Seq<(int, int)> {
    Seq::new(rela_records(objs[i]) as nat, |j: int| (i, j))
}

/// The relocation records of objects `i` and after, in the order they are
/// applied: the last loaded object first, each table in order.
pub open spec fn relocs_from(objs: Seq<Object>, i: int) -> Seq<(int, int)>
    decreases objs.len() - i,
{
    if i < 0 || i >= objs.len() {
        Seq::empty()
    } else {
        relocs_from(objs, i + 1) + records_of(objs, i)
    }
}

/// Every relocation record of every object, in the order they are applied.
pub open spec fn reloc_order(objs: Seq<Object>) -> Seq<(int, int)> {
    relocs_from(objs, 0)
}

/// The bytes of record `r.1` of object `r.0`.
pub open spec fn reloc_record(objs: Seq<Object>, r: (int, int)) -> Seq<u8> {
    rela_record(rela_headers(objs[r.0]).0, objs[r.0].file.full_content@, r.1)
}

/// The name of the symbol that record `r` refers to.
pub open spec fn reloc_name(objs: Seq<Object>, r: (int, int)) -> Seq<u8> {
    rela_sym_name(objs[r.0], r.1)->Some_0
}

/// The object whose definition of its symbol record `r` is resolved to.
pub open spec fn reloc_def(objs: Seq<Object>, r: (int, int)) -> Option<int> {
    last_definer(objs, reloc_name(objs, r), objs.len() as int)
}

/// What record `r` does, where its symbol is defined.
pub open spec fn reloc_patch(objs: Seq<Object>, r: (int, int)) -> Result<Patch, RelocationError> {
    let rec = reloc_record(objs, r);
    let o = objs[r.0];
    let d = objs[reloc_def(objs, r)->Some_0];
    let name = reloc_name(objs, r);
    spec_patch(
        RelocationType::spec_from_raw(u32_at(rec, 8))->Some_0,
        Addr(u64_at(rec, 0)),
        Addr(u64_at(rec, 16)),
        o.base,
        o.mem_range,
        def_value(d, name),
        def_size(d, name),
        d.base,
    )
}

/// Whether applying record `r` fails whatever the pager does.
pub open spec fn reloc_fails(objs: Seq<Object>, r: (int, int)) -> bool {
    reloc_def(objs, r) is None || reloc_patch(objs, r) is Err
}

/// Whether `e` is the error that record `r` fails with.
pub open spec fn reloc_error(objs: Seq<Object>, r: (int, int), e: RelocationError) -> bool {
    match e {
        RelocationError::UndefinedSymbol(n) => reloc_def(objs, r) is None && n@ == reloc_name(objs, r),
        _ => reloc_def(objs, r) is Some && reloc_patch(objs, r) == Err::<Patch, RelocationError>(e),
    }
}

/// The index of the first of records `m` and after of `order` that fails.
pub open spec fn first_failure(objs: Seq<Object>, order: Seq<(int, int)>, m: int) -> Option<int>
    decreases order.len() - m,
{
    if m < 0 || m >= order.len() {
        None
    } else if reloc_fails(objs, order[m]) {
        Some(m)
    } else {
        first_failure(objs, order, m + 1)
    }
}

/// The patches of the first `m` records of `order`.
pub open spec fn patches_upto(objs: Seq<Object>, order: Seq<(int, int)>, m: int) -> Seq<Patch> {
    Seq::new(m as nat, |x: int| reloc_patch(objs, order[x])->Ok_0)
}

/// Whether `e` holds record `at`, parsed, with the index of its object.
pub open spec fn record_held(objs: Seq<Object>, e: (usize, Rela), at: (int, int)) -> bool {
    &&& e.0 as int == at.0
    &&& 0 <= at.0 < objs.len()
    &&& 0 <= at.1 < rela_records(objs[at.0])
    &&& rela_is(objs[at.0], at.1, e.1)
}

/// Whether `v` holds the parsed records that `order` names, with their objects.
pub open spec fn holds_records(objs: Seq<Object>, v: Seq<(usize, Rela)>, order: Seq<(int, int)>) -> bool {
    &&& v.len() == order.len()
    &&& forall|m: int| 0 <= m < v.len() ==> #[trigger] record_held(objs, v[m], order[m])
}

/// Returns a copy of a symbol.
fn copy_sym(s: &Sym) -> (r: Sym)
    ensures
        r.name@ == s.name@,
        r.bind == s.bind,
        r.typ == s.typ,
        r.shndx == s.shndx,
        r.value == s.value,
        r.size == s.size,
{
    Sym { name: slice_to_vec(s.name.as_slice()), bind: s.bind, typ: s.typ, shndx: s.shndx, value: s.value, size: s.size }
}

/// Returns a copy of a relocation.
fn copy_rela(r: &Rela) -> (c: Rela)
    ensures
        c.offset == r.offset,
        c.typ == r.typ,
        c.addend == r.addend,
        c.sym.name@ == r.sym.name@,
        c.sym.bind == r.sym.bind,
        c.sym.typ == r.sym.typ,
        c.sym.shndx == r.sym.shndx,
        c.sym.value == r.sym.value,
        c.sym.size == r.sym.size,
{
    Rela { offset: r.offset, typ: r.typ, sym: copy_sym(&r.sym), addend: r.addend }
}

/// Returns whether two byte strings are equal.
pub fn bytes_eq(a: &[u8], b: &[u8]) -> (r: bool)
    ensures
        r == (a@ == b@),
{
    if a.len() != b.len() {
        return false;
    }
    let mut k: usize = 0;
    while k < a.len()
        invariant
            k <= a@.len(),
            a@.len() == b@.len(),
            forall|j: int| 0 <= j < k ==> a@[j] == b@[j],
        decreases a@.len() - k,
    {
        if a[k] != b[k] {
            return false;
        }
        k = k + 1;
    }
    assert(a@ =~= b@);
    true
}

impl Object {
    /// Returns the first symbol called `name` in the object's symbol table.
    pub fn find_symbol(&self, name: &[u8]) -> (r: Option<Sym>)
        requires
            self.wf(),
        ensures
            r is Some <==> defines(*self, name@),
            r matches Some(s) ==> s.name@ == name@ && first_symbol_named(*self, name@, s),
    {
        let k = match self.file.section_with_type(SectionType::SymTab) {
            Some(k) => k,
            None => { return None; },
        };
        let symtab = match self.file.symtab(k) {
            Some(t) => t,
            None => { return None; },
        };
        let mut syms = match symtab.syms() {
            Some(v) => v,
            None => { return None; },
        };
        let ghost shs = self.file.section_headers@;
        let ghost f = self.file.full_content@;
        assert(symtab_of(*self) == Some(k as int));
        proof {
            assert forall|i: int| 0 <= i < sym_count(shs[k as int], f) implies
                #[trigger] Sym::spec_parses(shs[shs[k as int].link as int], f, sym_record(shs[k as int], f, i)) by {
                assert(Sym::spec_parses(*symtab.1.0, symtab.1.1@, symtab.spec_record(i)));
            }
            assert forall|i: int| 0 <= i < syms@.len() implies
                #[trigger] Sym::spec_is(syms@[i], shs[shs[k as int].link as int], f, sym_record(shs[k as int], f, i)) by {
                assert(Sym::spec_is(syms@[i], *symtab.1.0, symtab.1.1@, symtab.spec_record(i)));
            }
        }
        let mut j: usize = 0;
        while j < syms.len()
            invariant
                j <= syms@.len(),
                syms@.len() == sym_count(shs[k as int], f),
                syms_parse(*self),
                symtab_of(*self) == Some(k as int),
                shs == self.file.section_headers@,
                f == self.file.full_content@,
                forall|i: int| 0 <= i < syms@.len() ==> #[trigger] Sym::spec_is(syms@[i], shs[shs[k as int].link as int], f, sym_record(shs[k as int], f, i)),
                forall|i: int| 0 <= i < j ==> #[trigger] sym_name_at(*self, i) != Some(name@),
            decreases syms@.len() - j,
        {
            assert(Sym::spec_is(syms@[j as int], shs[shs[k as int].link as int], f, sym_record(shs[k as int], f, j as int)));
            assert(sym_name_at(*self, j as int) == Some(syms@[j as int].name@));
            if bytes_eq(syms[j].name.as_slice(), name) {
                let found = syms.remove(j);
                assert(first_symbol_named(*self, name@, found) && sym_name_at(*self, j as int) == Some(name@));
                return Some(found);
            }
            j = j + 1;
        }
        None
    }
}

/// An error while loading an object.
#[derive(Clone, Debug)]
pub enum LoadError {
    /// The file did not parse.
    ParseError(Error),
    /// The file has no `Load` segment.
    NoLoadSegments,
    /// The symbols of the file could not be read.
    ReadSymsError(ReadSymsError),
    /// The relocations of the file could not be read.
    ReadRelaError(ReadRelaError),
    /// No virtual address range is left for the object.
    AddressSpaceExhausted,
    /// The program header at this index cannot be loaded: its file range,
    /// extended back to its page, is not in the file.
    BadSegment(usize),
    /// The frame allocator has no frame left.
    OutOfFrames,
    /// The pager refused to map, or to write, at this address.
    MapFailed(Addr),
}

/// An error while applying relocations.
#[derive(Clone, Debug)]
pub enum RelocationError {
    /// The loader does not implement relocations of this type.
    UnimplementedRelocation(RelocationType),
    /// No symbol has this index.
    UnknownSymbolNumber(u32),
    /// No loaded object defines a symbol of this name.
    UndefinedSymbol(Vec<u8>),
    /// A relocation record did not parse.
    ParseError(Error),
    /// The relocation's target, at this offset of its object, is not all
    /// inside the object's memory.
    OutOfRange(Addr),
    /// The pager refused to read or write at this address.
    MemoryAccess(Addr),
}

/// What applying one relocation does to memory.
#[derive(Clone, Copy, Debug, PartialEq, Eq, Structural)]
pub enum Patch {
    /// Writes `value` as 8 little-endian bytes at `at`.
    Write { at: Addr, value: u64 },
    /// Copies `len` bytes from `from` to `to`.
    Copy { to: Addr, from: Addr, len: u64 },
}

/// The number of bytes that a relocation of type `typ` against `sym` writes,
/// for the types this loader implements.
pub open spec fn patch_width(typ: RelocationType, sym_size: u64) -> Option<u64> {
    match typ {
        RelocationType::_64 => Some(8),
        RelocationType::Relative => Some(8),
        RelocationType::Copy => Some(sym_size),
        _ => None,
    }
}

/// What a relocation of type `typ` at `offset` with `addend`, in an object
/// placed at `base` whose memory is `range`, does, where its symbol has
/// `sym_value` and `sym_size` and is defined by an object placed at `def_base`.
///
/// The target must lie inside the object's memory. The value written is
/// computed modulo 2^64, as the format defines it: an addend may stand for
/// a negative number.
pub open spec fn spec_patch(
    typ: RelocationType,
    offset: Addr,
    addend: Addr,
    base: Addr,
    range: Range<Addr>,
    sym_value: Addr,
    sym_size: u64,
    def_base: Addr,
) -> Result<Patch, RelocationError> {
    match patch_width(typ, sym_size) {
        None => Err(RelocationError::UnimplementedRelocation(typ)),
        Some(width) => if range.start.0 <= offset.0 && offset.0 + width <= range.end.0 && base.0 + offset.0
            <= u64::MAX {
            let at = Addr((base.0 + offset.0) as u64);
            match typ {
                RelocationType::_64 => Ok(Patch::Write {
                    at,
                    value: sym_value.0.wrapping_add(def_base.0).wrapping_add(addend.0),
                }),
                RelocationType::Relative => Ok(Patch::Write { at, value: base.0.wrapping_add(addend.0) }),
                _ => Ok(Patch::Copy { to: at, from: Addr(sym_value.0.wrapping_add(def_base.0)), len: sym_size }),
            }
        } else {
            Err(RelocationError::OutOfRange(offset))
        },
    }
}

/// A `Relative` relocation whose target lies in its object writes the
/// object's base plus the addend, whatever its symbol: at base 0x1000 with
/// addend 0x10, it writes 0x1010 as 8 little-endian bytes.
pub proof fn lemma_relative_patch(
    offset: Addr,
    range: Range<Addr>,
    sym_value: Addr,
    sym_size: u64,
    def_base: Addr,
    mem: Map<int, u8>,
)
    requires
        range.start.0 <= offset.0,
        offset.0 + 8 <= range.end.0,
        0x1000 + range.end.0 <= u64::MAX,
    ensures
        spec_patch(RelocationType::Relative, offset, Addr(0x10), Addr(0x1000), range, sym_value, sym_size, def_base)
            == Ok::<Patch, RelocationError>(Patch::Write { at: Addr((0x1000 + offset.0) as u64), value: 0x1010 }),
        patched(mem, Patch::Write { at: Addr((0x1000 + offset.0) as u64), value: 0x1010 }) == write_into(
            mem,
            0x1000 + offset.0,
            spec_u64_to_le_bytes(0x1010),
        ),
{
    assert(0x1000u64.wrapping_add(0x10u64) == 0x1010u64);
}

/// Returns what applying a relocation does: see [`spec_patch`].
pub fn relocation_patch(
    typ: RelocationType,
    offset: Addr,
    addend: Addr,
    base: Addr,
    range: Range<Addr>,
    sym_value: Addr,
    sym_size: u64,
    def_base: Addr,
) -> (r: Result<Patch, RelocationError>)
    ensures
        r == spec_patch(typ, offset, addend, base, range, sym_value, sym_size, def_base),
{
    let width: u64 = match typ {
        RelocationType::_64 | RelocationType::Relative => 8,
        RelocationType::Copy => sym_size,
        _ => { return Err(RelocationError::UnimplementedRelocation(typ)); },
    };
    if offset.0 < range.start.0 || offset.0 > range.end.0 || width > range.end.0 - offset.0
        || base.0 > u64::MAX - offset.0 {
        return Err(RelocationError::OutOfRange(offset));
    }
    let at = Addr(base.0 + offset.0);
    match typ {
        RelocationType::_64 => Ok(Patch::Write { at, value: sym_value.0.wrapping_add(def_base.0).wrapping_add(addend.0) }),
        RelocationType::Relative => Ok(Patch::Write { at, value: base.0.wrapping_add(addend.0) }),
        _ => Ok(Patch::Copy { to: at, from: Addr(sym_value.0.wrapping_add(def_base.0)), len: sym_size }),
    }
}

/// Carries out `patch` through the pager.
fn apply_patch<P: Pager>(patch: Patch, pager: &mut P) -> (r: Result<(), RelocationError>)
    ensures
        r matches Err(e) ==> e is MemoryAccess,
        r is Ok ==> final(pager).memory() == patched(old(pager).memory(), patch),
        r is Err ==> final(pager).memory() == old(pager).memory(),
{
    match patch {
        Patch::Write { at, value } => {
            let bytes = u64_to_le_bytes(value);
            match pager.write_bytes(VirtAddr(at.0), bytes.as_slice()) {
                Some(()) => Ok(()),
                None => Err(RelocationError::MemoryAccess(at)),
            }
        },
        Patch::Copy { to, from, len } => {
            if len > usize::MAX as u64 {
                return Err(RelocationError::MemoryAccess(from));
            }
            let bytes = match pager.read_bytes(VirtAddr(from.0), len as usize) {
                Some(b) => b,
                None => { return Err(RelocationError::MemoryAccess(from)); },
            };
            if bytes.len() as u64 != len {
                return Err(RelocationError::MemoryAccess(from));
            }
            match pager.write_bytes(VirtAddr(to.0), bytes.as_slice()) {
                Some(()) => Ok(()),
                None => Err(RelocationError::MemoryAccess(to)),
            }
        },
    }
}

/// A running process: the objects loaded into it, in load order.
#[derive(Debug)]
pub struct Process {
    pub objects: Vec<Object>,
    /// Where the next object will be placed.
    pub next_base: Addr,
}

impl Process {
    /// Every object is well formed, and the memory of each lies below the
    /// base of every later one and below `next_base`.
    pub open spec fn wf(&self) -> bool {
        let objs = self.objects@;
        &&& forall|i: int| 0 <= i < objs.len() ==> #[trigger] objs[i].wf()
        &&& forall|i: int, j: int| 0 <= i < j < objs.len() ==> #[trigger] objs[i].spec_end() <= #[trigger] objs[j].base.0
        &&& forall|i: int| 0 <= i < objs.len() ==> #[trigger] objs[i].spec_end() <= self.next_base.0
        &&& self.next_base.0 % PAGE_SIZE == 0
    }

    /// Creates a process with no object.
    pub fn new() -> (r: Process)
        ensures
            r.wf(),
            r.objects@.len() == 0,
            r.next_base.0 == LOAD_BASE,
    {
        Process { objects: Vec::new(), next_base: Addr(LOAD_BASE) }
    }

    /// Returns the index of the last loaded object that defines a symbol
    /// called `name`, with that symbol.
    pub fn lookup_symbol_bytes(&self, name: &[u8]) -> (r: Option<(usize, Sym)>)
        requires
            self.wf(),
        ensures
            r is None <==> forall|i: int| 0 <= i < self.objects@.len() ==> !defines(#[trigger] self.objects@[i], name@),
            r matches Some((i, s)) ==> {
                &&& i < self.objects@.len()
                &&& defines(self.objects@[i as int], name@)
                &&& forall|j: int| i < j < self.objects@.len() ==> !defines(#[trigger] self.objects@[j], name@)
                &&& s.name@ == name@
                &&& first_symbol_named(self.objects@[i as int], name@, s)
                &&& last_definer(self.objects@, name@, self.objects@.len() as int) == Some(i as int)
                &&& s.value == def_value(self.objects@[i as int], name@)
                &&& s.size == def_size(self.objects@[i as int], name@)
            },
            r is None <==> last_definer(self.objects@, name@, self.objects@.len() as int) is None,
    {
        let mut i: usize = self.objects.len();
        while i > 0
            invariant
                i <= self.objects@.len(),
                self.wf(),
                forall|j: int| i <= j < self.objects@.len() ==> !defines(#[trigger] self.objects@[j], name@),
                last_definer(self.objects@, name@, self.objects@.len() as int) == last_definer(self.objects@, name@, i as int),
            decreases i,
        {
            i = i - 1;
            assert(self.objects@[i as int].wf());
            match self.objects[i].find_symbol(name) {
                Some(s) => {
                    proof {
                        lemma_first_symbol_value(self.objects@[i as int], name@, s);
                    }
                    return Some((i, s));
                },
                None => {},
            }
        }
        None
    }

    /// Looks a symbol up in the loaded objects, the last loaded first, and
    /// returns the object that defines it with the symbol.
    pub fn lookup_symbol(&self, name: &str) -> (r: Option<(&Object, Sym)>)
        requires
            self.wf(),
        ensures
            r is None <==> forall|i: int| 0 <= i < self.objects@.len() ==> !defines(#[trigger] self.objects@[i], name.spec_bytes()),
            r matches Some((o, s)) ==> exists|i: int| {
                &&& 0 <= i < self.objects@.len()
                &&& *o == self.objects@[i]
                &&& defines(self.objects@[i], name.spec_bytes())
                &&& forall|j: int| i < j < self.objects@.len() ==> !defines(#[trigger] self.objects@[j], name.spec_bytes())
                &&& s.name@ == name.spec_bytes()
                &&& first_symbol_named(self.objects@[i], name.spec_bytes(), s)
            },
    {
        match self.lookup_symbol_bytes(name.as_bytes()) {
            Some((i, s)) => Some((&self.objects[i], s)),
            None => None,
        }
    }

    /// Parses the relocations of every object, the last loaded first: for
    /// each, the index of its object and the relocation.
    fn collect_relocations(&self) -> (r: Result<Vec<(usize, Rela)>, RelocationError>)
        requires
            self.wf(),
        ensures
            r is Ok <==> all_relas_parse(self.objects@),
            r matches Ok(v) ==> holds_records(self.objects@, v@, reloc_order(self.objects@)),
            r matches Err(e) ==> e is ParseError,
    {
        let ghost objs = self.objects@;
        let mut out: Vec<(usize, Rela)> = Vec::new();
        let mut i: usize = self.objects.len();
        while i > 0
            invariant
                i <= objs.len(),
                objs == self.objects@,
                forall|i2: int, j: int| i <= i2 < objs.len() && 0 <= j < rela_records(objs[i2]) ==> #[trigger] rela_ok(objs[i2], j),
                holds_records(objs, out@, relocs_from(objs, i as int)),
            decreases i,
        {
            i = i - 1;
            let file = &self.objects[i].file;
            let ghost o = objs[i as int];
            let ghost prefix = relocs_from(objs, i + 1);
            let ghost start = out@;
            assert(relocs_from(objs, i as int) == prefix + records_of(objs, i as int));
            let mut found = false;
            if let Some(index) = file.section_with_type(SectionType::Rela) {
                if let Some(table) = file.rela(index) {
                    found = true;
                    assert(rela_of(o) == Some(index as int));
                    let records = table.iter();
                    assert(records@.len() == rela_records(o));
                    let mut k: usize = 0;
                    while k < records.len()
                        invariant
                            i < objs.len(),
                            objs == self.objects@,
                            o == objs[i as int],
                            rela_of(o) == Some(index as int),
                            k <= records@.len(),
                            records@.len() == rela_records(o),
                            forall|j: int| 0 <= j < records@.len() ==> #[trigger] table.spec_result(records@[j], table.spec_record(j)),
                            *table.0 == rela_headers(o).0,
                            *table.1.0 == rela_headers(o).1,
                            *table.1.1.0 == rela_headers(o).2,
                            table.1.1.1@ == o.file.full_content@,
                            forall|j: int| 0 <= j < k ==> #[trigger] rela_ok(o, j),
                            forall|i2: int, j: int| i < i2 < objs.len() && 0 <= j < rela_records(objs[i2]) ==> #[trigger] rela_ok(objs[i2], j),
                            prefix == relocs_from(objs, i + 1),
                            holds_records(objs, out@, prefix + records_of(objs, i as int).take(k as int)),
                        decreases records@.len() - k,
                    {
                        assert(table.spec_result(records@[k as int], table.spec_record(k as int)));
                        match &records[k] {
                            Ok(rel) => {
                                let c = copy_rela(rel);
                                assert(rela_is(o, k as int, c));
                                let ghost before = out@;
                                out.push((i, c));
                                proof {
                                    let ord = prefix + records_of(objs, i as int).take(k + 1);
                                    let ord0 = prefix + records_of(objs, i as int).take(k as int);
                                    assert(ord =~= ord0.push((i as int, k as int)));
                                    assert forall|m: int| 0 <= m < out@.len() implies #[trigger] record_held(objs, out@[m], ord[m]) by {
                                        if m < before.len() {
                                            assert(out@[m] == before[m]);
                                            assert(ord[m] == ord0[m]);
                                            assert(record_held(objs, before[m], ord0[m]));
                                        } else {
                                            assert(ord[m] == (i as int, k as int));
                                            assert(out@[m] == (i, c));
                                        }
                                    }
                                    assert(ord.len() == out@.len());
                                    assert(holds_records(objs, out@, ord));
                                }
                            },
                            Err(e) => {
                                assert(!rela_ok(o, k as int));
                                return Err(RelocationError::ParseError(*e));
                            },
                        }
                        k = k + 1;
                    }
                    assert(records_of(objs, i as int).take(k as int) =~= records_of(objs, i as int));
                } else {
                    assert(rela_of(o) is None);
                }
            } else {
                assert(rela_of(o) is None);
            }
            if !found {
                assert(records_of(objs, i as int) =~= Seq::<(int, int)>::empty());
                assert(prefix + records_of(objs, i as int) =~= prefix);
            }
        }
        Ok(out)
    }

    /// Applies one relocation: resolves its symbol among all loaded objects,
    /// then patches memory with what the relocation's type computes.
    fn apply_relocation<P: Pager>(
        &self,
        index: usize,
        rel: &Rela,
        Ghost(at): Ghost<(int, int)>,
        pager: &mut P,
    ) -> (r: Result<(), RelocationError>)
        requires
            self.wf(),
            at.0 == index,
            index < self.objects@.len(),
            0 <= at.1 < rela_records(self.objects@[at.0]),
            rela_is(self.objects@[at.0], at.1, *rel),
        ensures
            reloc_def(self.objects@, at) is None ==> (r matches Err(e) && reloc_error(self.objects@, at, e))
                && *final(pager) == *old(pager),
            reloc_def(self.objects@, at) is Some && reloc_patch(self.objects@, at) is Err ==> (r matches Err(e)
                && reloc_error(self.objects@, at, e)) && *final(pager) == *old(pager),
            !reloc_fails(self.objects@, at) ==> {
                &&& r is Ok ==> final(pager).memory() == patched(old(pager).memory(), reloc_patch(self.objects@, at)->Ok_0)
                &&& r matches Err(e) ==> e is MemoryAccess && final(pager).memory() == old(pager).memory()
            },
    {
        let ghost objs = self.objects@;
        proof {
            assert(Some(rel.sym.name@) == rela_sym_name(objs[at.0], at.1));
        }
        let (def, found) = match self.lookup_symbol_bytes(rel.sym.name.as_slice()) {
            Some(x) => x,
            None => { return Err(RelocationError::UndefinedSymbol(slice_to_vec(rel.sym.name.as_slice()))); },
        };
        let obj = &self.objects[index];
        assert(obj.wf());
        let patch = match relocation_patch(
            rel.typ,
            rel.offset,
            rel.addend,
            obj.base,
            obj.mem_range.start..obj.mem_range.end,
            found.value,
            found.size,
            self.objects[def].base,
        ) {
            Ok(p) => p,
            Err(e) => { return Err(e); },
        };
        apply_patch(patch, pager)
    }

    /// Applies the relocations of every loaded object, the last loaded first,
    /// each table in order.
    ///
    /// Every record is parsed before anything is written: a record that does
    /// not parse fails the call with nothing written. Then each record is
    /// applied in turn; the first that fails stops the call, and what the
    /// ones before it wrote stays written.
    #[verifier::rlimit(50)]
    pub fn apply_relocations<P: Pager>(&self, pager: &mut P) -> (r: Result<(), RelocationError>)
        requires
            self.wf(),
        ensures
            r matches Err(RelocationError::ParseError(_)) <==> !all_relas_parse(self.objects@),
            !all_relas_parse(self.objects@) ==> *final(pager) == *old(pager),
            all_relas_parse(self.objects@) && reloc_order(self.objects@).len() == 0 ==> r is Ok
                && *final(pager) == *old(pager),
            all_relas_parse(self.objects@) ==> match first_failure(self.objects@, reloc_order(self.objects@), 0) {
                None => {
                    &&& r is Ok ==> final(pager).memory() == mem_after(
                        old(pager).memory(),
                        patches_upto(self.objects@, reloc_order(self.objects@), reloc_order(self.objects@).len() as int),
                    )
                    &&& r matches Err(e) ==> e is MemoryAccess
                },
                Some(m) => r matches Err(e) && (e is MemoryAccess || {
                    &&& reloc_error(self.objects@, reloc_order(self.objects@)[m], e)
                    &&& final(pager).memory() == mem_after(
                        old(pager).memory(),
                        patches_upto(self.objects@, reloc_order(self.objects@), m),
                    )
                }),
            },
    {
        let ghost objs = self.objects@;
        let ghost order = reloc_order(objs);
        let rels = match self.collect_relocations() {
            Ok(v) => v,
            Err(e) => { return Err(e); },
        };
        let mut k: usize = 0;
        while k < rels.len()
            invariant
                self.wf(),
                objs == self.objects@,
                order == reloc_order(objs),
                all_relas_parse(objs),
                holds_records(objs, rels@, order),
                k <= rels@.len(),
                forall|x: int| 0 <= x < k ==> !reloc_fails(objs, #[trigger] order[x]),
                first_failure(objs, order, 0) == first_failure(objs, order, k as int),
                pager.memory() == mem_after(old(pager).memory(), patches_upto(objs, order, k as int)),
                k == 0 ==> *pager == *old(pager),
            decreases rels@.len() - k,
        {
            let (index, rel) = &rels[k];
            let ghost at = order[k as int];
            assert(record_held(objs, rels@[k as int], order[k as int]));
            match self.apply_relocation(*index, rel, Ghost(at), pager) {
                Ok(()) => {
                    proof {
                        assert(!reloc_fails(objs, at));
                        assert(patches_upto(objs, order, k + 1).drop_last() =~= patches_upto(objs, order, k as int));
                    }
                },
                Err(e) => {
                    proof {
                        if reloc_fails(objs, at) {
                            assert(first_failure(objs, order, k as int) == Some(k as int));
                        }
                    }
                    return Err(e);
                },
            }
            k = k + 1;
        }
        Ok(())
    }

    /// Maps the pages of one segment, each to a frame of its own, then copies
    /// its file bytes to the first page and zeroes the rest, following `plan`.
    pub fn load_segment<P: Pager, F: FrameAllocator>(
        plan: &SegmentPlan,
        content: &[u8],
        pager: &mut P,
        frames: &mut F,
    ) -> (r: Result<(), LoadError>)
        requires
            plan_fits(*plan),
            plan.file_start + plan.file_len <= content@.len(),
        ensures
            r matches Err(e) ==> (e is OutOfFrames || e is MapFailed),
            old(frames).handed_out().subset_of(final(frames).handed_out()),
            forall|a: int|
                #[trigger] old(pager).memory().contains_key(a) && !seg_bytes(*plan, content@).contains_key(a)
                    ==> final(pager).memory().contains_key(a) && final(pager).memory()[a] == old(pager).memory()[a],
            forall|a: int|
                !in_pages(*plan, a) && #[trigger] old(pager).frames().contains_key(a) ==> final(pager).frames().contains_key(a)
                    && final(pager).frames()[a] == old(pager).frames()[a],
            r is Ok ==> forall|a: int| #[trigger] seg_bytes(*plan, content@).contains_key(a)
                ==> final(pager).memory().contains_key(a) && final(pager).memory()[a] == seg_bytes(*plan, content@)[a],
            r is Ok ==> forall|a: int| #[trigger] in_span(*plan, a) ==> final(pager).memory().contains_key(a),
            r is Ok ==> forall|a: int| #[trigger] in_pages(*plan, a) ==> final(pager).frames().contains_key(a)
                && !old(frames).handed_out().contains(final(pager).frames()[a])
                && final(frames).handed_out().contains(final(pager).frames()[a]),
            r is Ok ==> forall|a: int, b: int| #[trigger] in_pages(*plan, a) && #[trigger] in_pages(*plan, b) && a != b
                ==> final(pager).frames()[a] != final(pager).frames()[b],
    {
        let mut addr: u64 = plan.page_start.0;
        let mut p: u64 = 0;
        while p < plan.pages
            invariant
                plan_fits(*plan),
                p <= plan.pages,
                addr == plan.page_start.0 + p * PAGE_SIZE,
                addr % PAGE_SIZE == 0,
                old(frames).handed_out().subset_of(frames.handed_out()),
                forall|a: int| #[trigger] old(pager).memory().contains_key(a) ==> pager.memory().contains_key(a)
                    && pager.memory()[a] == old(pager).memory()[a],
                forall|a: int| plan.page_start.0 <= a < addr ==> #[trigger] pager.memory().contains_key(a),
                forall|a: int| !in_pages(*plan, a) && #[trigger] old(pager).frames().contains_key(a)
                    ==> pager.frames().contains_key(a) && pager.frames()[a] == old(pager).frames()[a],
                forall|a: int| #[trigger] in_pages(*plan, a) && a < addr ==> pager.frames().contains_key(a)
                    && !old(frames).handed_out().contains(pager.frames()[a])
                    && frames.handed_out().contains(pager.frames()[a]),
                forall|a: int, b: int| #[trigger] in_pages(*plan, a) && #[trigger] in_pages(*plan, b) && a < addr && b < addr && a != b
                    ==> pager.frames()[a] != pager.frames()[b],
            decreases plan.pages - p,
        {
            let frame = match frames.next() {
                Some(f) => f,
                None => { return Err(LoadError::OutOfFrames); },
            };
            let ghost before = pager.memory();
            if pager.map(VirtAddr(addr), frame).is_none() {
                return Err(LoadError::MapFailed(Addr(addr)));
            }
            assert(page_of(addr as int) == addr as int);
            assert(in_pages(*plan, addr as int));
            assert forall|a: int| plan.page_start.0 <= a < addr + PAGE_SIZE implies #[trigger] pager.memory().contains_key(a) by {
                if a >= addr {
                    assert(page_of(addr as int) <= a < page_of(addr as int) + 4096);
                } else {
                    assert(before.contains_key(a));
                }
            }
            p = p + 1;
            addr = addr + PAGE_SIZE;
        }
        let _n = content.len();
        let end = plan.file_start + plan.file_len;
        let bytes = slice_subrange(content, plan.file_start as usize, end as usize);
        let ghost mem0 = pager.memory();
        if pager.write_bytes(VirtAddr(plan.page_start.0), bytes).is_none() {
            return Err(LoadError::MapFailed(plan.page_start));
        }
        let ghost mem1 = pager.memory();
        assert(mem1 == write_into(mem0, plan.page_start.0 as int, bytes@));
        if plan.zero_len > 0 {
            let zeros = zero_bytes(plan.zero_len as usize);
            if pager.write_bytes(VirtAddr(plan.zero_start.0), zeros.as_slice()).is_none() {
                return Err(LoadError::MapFailed(plan.zero_start));
            }
            assert(pager.memory() == write_into(mem1, plan.zero_start.0 as int, zeros@));
        }
        proof {
            let m = pager.memory();
            let sb = seg_bytes(*plan, content@);
            assert forall|a: int| #[trigger] sb.contains_key(a) implies m.contains_key(a) && m[a] == sb[a] by {
                if a < plan.page_start.0 + plan.file_len {
                    assert(mem1.contains_key(a) && mem1[a] == bytes@[a - plan.page_start.0]);
                } else {
                    assert(plan.zero_len > 0);
                }
            }
            assert forall|a: int| #[trigger] old(pager).memory().contains_key(a) && !sb.contains_key(a)
                implies m.contains_key(a) && m[a] == old(pager).memory()[a] by {
                assert(mem0.contains_key(a) && mem0[a] == old(pager).memory()[a]);
            }
        }
        Ok(())
    }

    /// Loads every `Load` segment of `file` that takes memory at `base`, in
    /// order, and returns the record of each.
    #[verifier::rlimit(50)]
    fn load_segments<P: Pager, F: FrameAllocator>(
        file: &ParsedElf,
        base: Addr,
        pager: &mut P,
        frames: &mut F,
    ) -> (r: Result<Vec<Segment>, LoadError>)
        requires
            base.0 % PAGE_SIZE == 0,
            forall|j: int| 0 <= j < file.program_headers@.len() ==> #[trigger] file.program_headers@[j].wf(),
        ensures
            ({
                let fs = fields_of(file.program_headers@);
                let content = file.full_content@;
                &&& r matches Err(e) ==> (e is OutOfFrames || e is MapFailed
                    || (e matches LoadError::BadSegment(k) && first_bad(fs, base, content.len() as int, 0) == Some(k as int)))
                &&& first_bad(fs, base, content.len() as int, 0) matches Some(k) ==> (r matches Err(e)
                    && (e is OutOfFrames || e is MapFailed || (e matches LoadError::BadSegment(j) && j == k)))
                &&& (forall|k: int| 0 <= k < fs.len() ==> !loads(#[trigger] fs[k])) ==> r is Ok
                &&& (forall|k: int| 0 <= k < fs.len() ==> !loads(#[trigger] fs[k])) ==> *final(pager) == *old(pager)
                &&& r matches Ok(segments) ==> {
                    &&& segments@ == expected_segments(file.program_headers@, file.program_headers@.len() as int)
                    &&& forall|k: int| 0 <= k < fs.len() && loads(#[trigger] fs[k]) ==> spec_plan(fs[k], base, content.len() as int) is Some
                    &&& forall|k: int, a: int| 0 <= k < fs.len() && loads(fs[k])
                        && #[trigger] seg_write(fs, k, base, content).contains_key(a)
                        && !later_covers(fs, base, content, k, fs.len() as int, a)
                        ==> final(pager).memory().contains_key(a) && final(pager).memory()[a] == seg_write(fs, k, base, content)[a]
                    &&& forall|k: int, a: int| 0 <= k < fs.len() && loads(fs[k])
                        && #[trigger] in_pages(plan_of(fs, k, base, content), a)
                        ==> final(pager).frames().contains_key(a)
                        && !old(frames).handed_out().contains(final(pager).frames()[a])
                        && final(frames).handed_out().contains(final(pager).frames()[a])
                    &&& forall|k: int, a: int| 0 <= k < fs.len() && loads(fs[k])
                        && #[trigger] in_span(plan_of(fs, k, base, content), a) ==> final(pager).memory().contains_key(a)
                    &&& forall|k: int, a: int, k2: int, b: int| 0 <= k < fs.len() && 0 <= k2 < fs.len() && loads(fs[k])
                        && loads(fs[k2]) && #[trigger] in_pages(plan_of(fs, k, base, content), a)
                        && #[trigger] in_pages(plan_of(fs, k2, base, content), b) && a != b
                        ==> final(pager).frames()[a] != final(pager).frames()[b]
                }
            }),
    {
        let ghost fs = fields_of(file.program_headers@);
        let ghost input = file.full_content@;
        let len = file.full_content.len();
        let mut segments: Vec<Segment> = Vec::new();
        let mut k: usize = 0;
        while k < file.program_headers.len()
            invariant
                k <= file.program_headers@.len(),
                fs.len() == file.program_headers@.len(),
                fields_of(file.program_headers@) == fs,
                forall|j: int| 0 <= j < file.program_headers@.len() ==> #[trigger] file.program_headers@[j].wf(),
                segments@ == expected_segments(file.program_headers@, k as int),
                forall|j: int| 0 <= j < k && loads(#[trigger] fs[j]) ==> spec_plan(fs[j], base, input.len() as int) is Some,
                first_bad(fs, base, input.len() as int, 0) == first_bad(fs, base, input.len() as int, k as int),
                len == input.len(),
                base.0 % PAGE_SIZE == 0,
                input == file.full_content@,
                (forall|i: int| 0 <= i < fs.len() ==> !loads(#[trigger] fs[i])) ==> *pager == *old(pager),
                old(frames).handed_out().subset_of(frames.handed_out()),
                forall|j: int, a: int| 0 <= j < k && loads(fs[j])
                    && #[trigger] seg_write(fs, j, base, input).contains_key(a)
                    && !later_covers(fs, base, input, j, k as int, a)
                    ==> pager.memory().contains_key(a) && pager.memory()[a] == seg_write(fs, j, base, input)[a],
                forall|j: int, a: int| 0 <= j < k && loads(fs[j]) && #[trigger] in_pages(plan_of(fs, j, base, input), a)
                    ==> pager.frames().contains_key(a)
                    && !old(frames).handed_out().contains(pager.frames()[a])
                    && frames.handed_out().contains(pager.frames()[a]),
                forall|j: int, a: int| 0 <= j < k && loads(fs[j]) && #[trigger] in_span(plan_of(fs, j, base, input), a)
                    ==> pager.memory().contains_key(a),
                forall|j: int, a: int, j2: int, b: int| 0 <= j < k && 0 <= j2 < k && loads(fs[j]) && loads(fs[j2])
                    && #[trigger] in_pages(plan_of(fs, j, base, input), a)
                    && #[trigger] in_pages(plan_of(fs, j2, base, input), b) && a != b
                    ==> pager.frames()[a] != pager.frames()[b],
            decreases file.program_headers@.len() - k,
        {
            let ph = &file.program_headers[k];
            assert(ph.fields() == fs[k as int]);
            if ph.typ == SegmentType::Load && ph.memsz.0 > 0 {
                let plan = match plan_segment(ph, base, len) {
                    Some(p) => p,
                    None => {
                        assert(first_bad(fs, base, input.len() as int, k as int) == Some(k as int));
                        return Err(LoadError::BadSegment(k));
                    },
                };
                let ghost mem_before = pager.memory();
                let ghost frames_before = pager.frames();
                let ghost handed_before = frames.handed_out();
                match Self::load_segment(&plan, file.full_content.as_slice(), pager, frames) {
                    Ok(()) => {},
                    Err(e) => { return Err(e); },
                }
                segments.push(Segment { padding: plan.padding, flags: ph.flags });
                proof {
                    assert(plan == plan_of(fs, k as int, base, input));
                    assert forall|j: int, a: int| 0 <= j < k + 1 && loads(fs[j])
                        && #[trigger] seg_write(fs, j, base, input).contains_key(a)
                        && !later_covers(fs, base, input, j, k + 1, a)
                        implies pager.memory().contains_key(a) && pager.memory()[a] == seg_write(fs, j, base, input)[a] by {
                        if j < k {
                            assert(!seg_bytes(plan, input).contains_key(a));
                        }
                    }
                    assert forall|j: int, a: int| 0 <= j < k + 1 && loads(fs[j]) && #[trigger] in_pages(plan_of(fs, j, base, input), a)
                        implies pager.frames().contains_key(a)
                        && !old(frames).handed_out().contains(pager.frames()[a])
                        && frames.handed_out().contains(pager.frames()[a]) by {
                        if j < k && !in_pages(plan, a) {
                            assert(frames_before.contains_key(a));
                        }
                    }
                    assert forall|j: int, a: int, j2: int, b: int| 0 <= j < k + 1 && 0 <= j2 < k + 1 && loads(fs[j])
                        && loads(fs[j2]) && #[trigger] in_pages(plan_of(fs, j, base, input), a)
                        && #[trigger] in_pages(plan_of(fs, j2, base, input), b) && a != b
                        implies pager.frames()[a] != pager.frames()[b] by {
                        let na = in_pages(plan, a);
                        let nb = in_pages(plan, b);
                        if na && nb {
                        } else if na {
                            assert(j2 < k);
                            assert(frames_before.contains_key(b));
                            assert(handed_before.contains(frames_before[b]));
                        } else if nb {
                            assert(j < k);
                            assert(frames_before.contains_key(a));
                            assert(handed_before.contains(frames_before[a]));
                        } else {
                            assert(j < k && j2 < k);
                            assert(frames_before.contains_key(a) && frames_before.contains_key(b));
                        }
                    }
                }
            } else {
                proof {
                    assert forall|j: int, a: int| 0 <= j < k + 1 && loads(fs[j])
                        && #[trigger] seg_write(fs, j, base, input).contains_key(a)
                        && !later_covers(fs, base, input, j, k + 1, a)
                        implies pager.memory().contains_key(a) && pager.memory()[a] == seg_write(fs, j, base, input)[a] by {
                        if j < k {
                            assert(!later_covers(fs, base, input, j, k as int, a));
                        }
                    }
                }
            }
            k = k + 1;
        }
        Ok(segments)
    }

    /// Loads an object, without its dependencies: parses `input`, maps its
    /// `Load` segments at a base of its own, copies their bytes and zeroes
    /// the part of each that is not in the file. Returns the object's index.
    ///
    /// Where a capability fails part way, the pages mapped so far stay mapped.
    pub fn load_object<P: Pager, F: FrameAllocator>(
        &mut self,
        input: &[u8],
        pager: &mut P,
        frames: &mut F,
    ) -> (r: Result<usize, LoadError>)
        requires
            old(self).wf(),
        ensures
            final(self).wf(),
            r matches Err(LoadError::ParseError(_)) <==> !spec_valid(input@),
            r matches Err(LoadError::NoLoadSegments) <==> spec_valid(input@) && no_load_segments(input@),
            r matches Err(LoadError::AddressSpaceExhausted) <==> spec_valid(input@) && !no_load_segments(input@)
                && exhausts(old(self).next_base, load_hull(input_fields(input@), input_fields(input@).len() as int)->Some_0),
            (r matches Err(LoadError::ParseError(_)) || r matches Err(LoadError::NoLoadSegments)
                || r matches Err(LoadError::AddressSpaceExhausted)) ==> *final(pager) == *old(pager)
                && *final(frames) == *old(frames),
            r matches Err(LoadError::BadSegment(k)) ==> spec_valid(input@) && first_bad(
                input_fields(input@), old(self).next_base, input@.len() as int, 0) == Some(k as int),
            spec_valid(input@) && !no_load_segments(input@)
                && !exhausts(old(self).next_base, load_hull(input_fields(input@), input_fields(input@).len() as int)->Some_0)
                ==> match first_bad(input_fields(input@), old(self).next_base, input@.len() as int, 0) {
                    Some(k) => r matches Err(e) && (e is OutOfFrames || e is MapFailed
                        || (e matches LoadError::BadSegment(j) && j == k)),
                    None => (forall|k: int| 0 <= k < input_fields(input@).len() ==> !loads(#[trigger] input_fields(input@)[k]))
                        ==> r is Ok,
                },
            r is Err ==> final(self).objects@ == old(self).objects@,
            r matches Ok(i) ==> {
                let o = final(self).objects@[i as int];
                let phs = o.file.program_headers@;
                let fs = input_fields(input@);
                &&& i == old(self).objects@.len()
                &&& final(self).objects@ == old(self).objects@.push(o)
                &&& o.file.full_content@ == input@
                &&& o.base == old(self).next_base
                &&& fields_of(phs) == fs
                &&& load_hull(fs, fs.len() as int) == Some(o.mem_range)
                &&& o.segments@ == expected_segments(phs, phs.len() as int)
                &&& forall|k: int| 0 <= k < fs.len() && loads(#[trigger] fs[k]) ==> spec_plan(fs[k], o.base, input@.len() as int) is Some
                &&& forall|k: int, a: int| 0 <= k < fs.len() && loads(fs[k])
                    && #[trigger] seg_write(fs, k, o.base, input@).contains_key(a)
                    && !later_covers(fs, o.base, input@, k, fs.len() as int, a)
                    ==> final(pager).memory().contains_key(a) && final(pager).memory()[a] == seg_write(fs, k, o.base, input@)[a]
                &&& forall|k: int, a: int| 0 <= k < fs.len() && loads(fs[k])
                    && #[trigger] in_pages(plan_of(fs, k, o.base, input@), a)
                    ==> final(pager).frames().contains_key(a)
                    && !old(frames).handed_out().contains(final(pager).frames()[a])
                    && final(frames).handed_out().contains(final(pager).frames()[a])
                &&& forall|k: int, a: int| 0 <= k < fs.len() && loads(fs[k])
                    && #[trigger] in_span(plan_of(fs, k, o.base, input@), a) ==> final(pager).memory().contains_key(a)
                &&& forall|k: int, a: int, k2: int, b: int| 0 <= k < fs.len() && 0 <= k2 < fs.len() && loads(fs[k])
                    && loads(fs[k2]) && #[trigger] in_pages(plan_of(fs, k, o.base, input@), a)
                    && #[trigger] in_pages(plan_of(fs, k2, o.base, input@), b) && a != b
                    ==> final(pager).frames()[a] != final(pager).frames()[b]
            },
    {
        let file = match ParsedElf::parse(input) {
            Ok(f) => f,
            Err(e) => { return Err(LoadError::ParseError(e)); },
        };
        let ghost fs = input_fields(input@);
        proof {
            assert forall|k: int| 0 <= k < file.program_headers@.len() implies #[trigger] file.program_headers@[k].wf() by {
                assert(program_header_is(file.full_content@, file.elf_header, k, file.program_headers@[k]));
            }
            assert forall|k: int| 0 <= k < file.program_headers@.len() implies
                #[trigger] fields_of(file.program_headers@)[k] == fs[k] by {
                assert(program_header_is(file.full_content@, file.elf_header, k, file.program_headers@[k]));
            }
            assert(fields_of(file.program_headers@) =~= fs);
        }
        let mem_range = match load_segments_hull(&file.program_headers) {
            Some(h) => h,
            None => {
                proof {
                    assert forall|k: int| 0 <= k < file.elf_header.ph_count implies
                        #[trigger] program_header_fields(input@, k).typ != SegmentType::Load by {
                        assert(program_header_is(file.full_content@, file.elf_header, k, file.program_headers@[k]));
                        assert(file.program_headers@[k].typ != SegmentType::Load);
                    }
                }
                return Err(LoadError::NoLoadSegments);
            },
        };
        proof {
            let k = choose|k: int| 0 <= k < file.program_headers@.len() && #[trigger] file.program_headers@[k].typ == SegmentType::Load;
            assert(program_header_is(file.full_content@, file.elf_header, k, file.program_headers@[k]));
            assert(program_header_fields(input@, k).typ == SegmentType::Load);
            assert(!no_load_segments(input@));
        }
        let base = self.next_base;
        assert(mem_range == load_hull(fs, fs.len() as int)->Some_0);
        if base.0 > u64::MAX - mem_range.end.0 {
            return Err(LoadError::AddressSpaceExhausted);
        }
        let next_base = match round_up_to_page(base.0 + mem_range.end.0) {
            Some(n) => n,
            None => { return Err(LoadError::AddressSpaceExhausted); },
        };
        proof {
            assert(mem_range == load_hull(fs, fs.len() as int)->Some_0);
        }
        let segments = match Self::load_segments(&file, base, pager, frames) {
            Ok(v) => v,
            Err(e) => { return Err(e); },
        };
        let index = self.objects.len();
        self.objects.push(Object { base, mem_range, file, segments });
        self.next_base = Addr(next_base);
        Ok(index)
    }
}

} // verus!
