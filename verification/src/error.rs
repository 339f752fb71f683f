//! Why a text was not decoded, and where.

use vstd::prelude::*;

verus! {

/// The kinds of failure.
#[derive(Clone, Copy, Debug, PartialEq, Eq, Structural)]
pub enum ErrorKind {
    /// A line does not have the shape that its section asks for.
    StructuralMismatch,
    /// A mod header names an affix type that is none of the four.
    UnknownAffixType,
    /// A tier, an item level, a value or a bound of a roll range is no number that fits.
    MalformedNumber,
    /// The text ends on a mod header, with no effect line behind it.
    TruncatedModBlock,
    /// The text ends before a section that has to be there.
    EmptyOrMissingSection,
}

/// The sections of an item text, in their order.
#[derive(Clone, Copy, Debug, PartialEq, Eq, Structural)]
pub enum ItemParseSections {
    ItemClass,
    ItemRarity,
    ItemName,
    ItemStats,
    ItemMods,
}

/// A failure to decode an item text: what went wrong, in which section, and at which
/// line, counted from zero over the lines of the trimmed text.
#[derive(Clone, Copy, Debug, PartialEq, Eq, Structural)]
pub struct ParseError {
    pub kind: ErrorKind,
    pub section: ItemParseSections,
    pub line: usize,
}

} // verus!
