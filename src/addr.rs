//! Addresses, offsets and sizes found in ELF files.

use vstd::prelude::*;

verus! {


/// A 64-bit address, file offset or size.
#[derive(Clone, Copy, Debug, PartialEq, Eq, Structural, PartialOrd, Ord)]
pub struct Addr(pub u64);

/// The size of a page (and of a frame).
pub const PAGE_SIZE: u64 = 4096;

impl Addr {
    /// The sum of two addresses, or `None` where it does not fit in 64 bits.
    pub fn checked_add(self, other: Addr) -> (r: Option<Addr>)
        ensures
            r == (if self.0 + other.0 <= u64::MAX {
                Some(Addr((self.0 + other.0) as u64))
            } else {
                None::<Addr>
            }),
    {
        match self.0.checked_add(other.0) {
            Some(v) => Some(Addr(v)),
            None => None,
        }
    }

    /// The difference of two addresses, or `None` where `other` is the larger.
    pub fn checked_sub(self, other: Addr) -> (r: Option<Addr>)
        ensures
            r == (if other.0 <= self.0 {
                Some(Addr((self.0 - other.0) as u64))
            } else {
                None::<Addr>
            }),
    {
        if other.0 <= self.0 {
            Some(Addr(self.0 - other.0))
        } else {
            None
        }
    }

    /// The address rounded down to the start of its page.
    pub fn page_start(self) -> (r: Addr)
        ensures
            r.0 == self.0 - self.0 % PAGE_SIZE,
    {
        Addr(self.0 - self.0 % PAGE_SIZE)
    }
}

} // verus!
