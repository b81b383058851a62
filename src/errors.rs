//! Errors of reading symbols, relocations, strings and dynamic entries.

use vstd::prelude::*;

use crate::dynamic::DynamicTag;

verus! {

/// An error while looking up a dynamic entry.
#[derive(Clone, Copy, Debug, PartialEq, Eq, Structural)]
pub enum GetDynamicEntryError {
    /// No dynamic entry has the tag.
    NotFound(DynamicTag),
}

/// An error while reading relocations.
#[derive(Clone, Debug)]
pub enum ReadRelaError {
    /// The dynamic entry that locates them was not found.
    DynamicEntryNotFound(GetDynamicEntryError),
    /// The file has no dynamic section.
    DynamicSectionNotFound,
    /// The file has no section of relocations with addends.
    RelaSegmentNotFound,
    /// The file has no section of relocations without addends.
    RelSegmentNotFound,
    /// A record did not parse.
    ParsingError(String),
}

/// An error while reading strings of the file.
#[derive(Clone, Copy, Debug, PartialEq, Eq, Structural)]
pub enum GetStringError {
    /// The dynamic entry that locates the string table was not found.
    StrTabNotFound,
    /// The string table section was not found.
    StrTabSegmentNotFound,
    /// No string is at the offset.
    StringNotFound,
}

/// An error while reading symbols.
#[derive(Clone, Debug)]
pub enum ReadSymsError {
    /// The dynamic entry that locates them was not found.
    DynamicEntryNotFound(GetDynamicEntryError),
    /// The file has no symbol table section.
    SymTabSectionNotFound,
    /// The symbol table segment was not found.
    SymTabSegmentNotFound,
    /// A record did not parse.
    ParsingError(String),
}

} // verus!
