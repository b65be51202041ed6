//! The generation-time error taxonomy. Every failure of a generation run
//! is fatal for that run: the same inputs always fail the same way.

use vstd::prelude::*;

verus! {

/// A fatal failure of one generation run.
#[derive(Debug, Clone, Copy, PartialEq, Eq, Structural)]
pub enum GenerationError {
    /// The country dataset is not a JSON array of records with the four
    /// expected string fields.
    DatasetJson,
    /// A data line of the language table has fewer than seven
    /// tab-separated columns; carries the index of the line among the
    /// data lines, counting from zero.
    ShortLine { line: usize },
    /// The generation directive breaks the grammar; carries the
    /// character position of the offending token.
    Syntax { at: usize },
    /// A word of the directive names no key of the dataset's registry;
    /// carries the character position of the word.
    UnrecognizedKey { at: usize },
    /// An enumeration was requested over a key that has no corresponding
    /// standard designation.
    NoStandardDesignation,
    /// A key whose values cannot form symbolic identifiers was used
    /// where a variant name is needed.
    KeyNotIdentifier,
    /// A key whose values cannot stand alone was used as the single side
    /// of a request.
    KeyCannotStandAlone,
    /// A value under a numeric key is not an unsigned 16-bit decimal
    /// numeral.
    BadNumeric,
    /// A record offers no value for a key requested as a literal right
    /// side of a total construct.
    MissingRightValue,
    /// The request names neither an enumeration nor a match subject, so
    /// there is nothing to generate.
    NotEnoughInformation,
}

} // verus!
