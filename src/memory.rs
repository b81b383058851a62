//! The capabilities that the loader takes from the surrounding kernel:
//! allocation of physical frames, and mapping of virtual pages to them.

use vstd::prelude::*;

verus! {

/// A virtual address: it must be translated to reach memory.
#[derive(Clone, Copy, Debug, PartialEq, Eq, Structural)]
pub struct VirtAddr(pub u64);

/// A physical address.
#[derive(Clone, Copy, Debug, PartialEq, Eq, Structural)]
pub struct PhysAddr(pub u64);

/// `mem` with `bytes` written from `addr` on.
pub open spec fn write_into(mem: Map<int, u8>, addr: int, bytes: Seq<u8>) -> Map<int, u8> {
    mem.union_prefer_right(Map::new(|a: int| addr <= a < addr + bytes.len(), |a: int| bytes[a - addr]))
}

/// The `len` bytes of `mem` from `addr` on.
pub open spec fn read_from(mem: Map<int, u8>, addr: int, len: int) -> Seq<u8> {
    Seq::new(len as nat, |k: int| mem[addr + k])
}

/// Whether every one of the `len` addresses from `addr` on is mapped in `mem`.
pub open spec fn all_mapped(mem: Map<int, u8>, addr: int, len: int) -> bool {
    forall|a: int| addr <= a < addr + len ==> #[trigger] mem.contains_key(a)
}

/// The start of the page that holds `a`.
pub open spec fn page_of(a: int) -> int {
    a - a % 4096
}

/// An allocator of physical frames.
pub trait FrameAllocator {
    /// The frames handed out so far. An implementation gives its own; the
    /// default holds nothing that a caller could use.
    closed spec fn handed_out(&self) -> Set<u64> {
        Set::empty()
    }

    /// Allocates a frame and returns its address, or `None` when none is
    /// left. A frame is never handed out twice.
    fn next(&mut self) -> (r: Option<PhysAddr>)
        ensures
            r matches Some(f) ==> !old(self).handed_out().contains(f.0)
                && final(self).handed_out() == old(self).handed_out().insert(f.0),
            r is None ==> final(self).handed_out() == old(self).handed_out(),
    ;
}

/// Virtual memory: mapping of pages to frames, translation of addresses,
/// and access to the bytes of pages that were mapped.
///
/// An implementation maps only frames that it was given by a frame
/// allocator, and gives access only to pages that it mapped.
pub trait Pager {
    /// The bytes of mapped memory, by virtual address. An implementation
    /// gives its own; the default holds nothing that a caller could use.
    closed spec fn memory(&self) -> Map<int, u8> {
        Map::empty()
    }

    /// The frame that each mapped page is mapped to, by page start. An
    /// implementation gives its own, as for `memory`.
    closed spec fn frames(&self) -> Map<int, u64> {
        Map::empty()
    }

    /// Translates a virtual address, or gives `None` where it is not mapped.
    fn translate(&self, addr: VirtAddr) -> Option<PhysAddr>;

    /// Maps the page that holds `addr` to the frame that holds `to`. Bytes
    /// already mapped keep their values: a page that is mapped already is
    /// not mapped again.
    fn map(&mut self, addr: VirtAddr, to: PhysAddr) -> (r: Option<()>)
        ensures
            forall|a: int| #[trigger] old(self).memory().contains_key(a) ==> final(self).memory().contains_key(a)
                && final(self).memory()[a] == old(self).memory()[a],
            r is Some ==> forall|a: int| page_of(addr.0 as int) <= a < page_of(addr.0 as int) + 4096
                ==> #[trigger] final(self).memory().contains_key(a),
            r is Some ==> final(self).frames() == old(self).frames().insert(page_of(addr.0 as int), to.0),
            r is None ==> final(self).frames() == old(self).frames(),
    ;

    /// Writes `bytes` at `addr`, where every address they cover is mapped;
    /// otherwise writes nothing and gives `None`.
    fn write_bytes(&mut self, addr: VirtAddr, bytes: &[u8]) -> (r: Option<()>)
        ensures
            r is Some ==> all_mapped(old(self).memory(), addr.0 as int, bytes@.len() as int),
            r is Some ==> final(self).memory() == write_into(old(self).memory(), addr.0 as int, bytes@),
            r is None ==> final(self).memory() == old(self).memory(),
            final(self).frames() == old(self).frames(),
    ;

    /// Reads `len` bytes at `addr`, where every address they cover is mapped.
    fn read_bytes(&self, addr: VirtAddr, len: usize) -> (r: Option<Vec<u8>>)
        ensures
            r matches Some(v) ==> all_mapped(self.memory(), addr.0 as int, len as int)
                && v@ == read_from(self.memory(), addr.0 as int, len as int),
    ;
}

/// The kernel's capabilities, handed to the loader by reference.
pub struct KernelState<P: Pager, F: FrameAllocator> {
    pub pager: P,
    pub frame_alloc: F,
}

impl<P: Pager, F: FrameAllocator> KernelState<P, F> {
    /// Allocates a frame, or gives `None` when all frames have been used.
    pub fn allocate_frame(&mut self) -> (r: Option<PhysAddr>)
        ensures
            r matches Some(f) ==> !old(self).frame_alloc.handed_out().contains(f.0)
                && final(self).frame_alloc.handed_out() == old(self).frame_alloc.handed_out().insert(f.0),
            r is None ==> final(self).frame_alloc.handed_out() == old(self).frame_alloc.handed_out(),
    {
        self.frame_alloc.next()
    }
}

} // verus!
