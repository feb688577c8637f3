//! What can go wrong, as values.

use vstd::prelude::*;

use crate::entry::GooseberryEntryType;

verus! {

/// Why a header element could not be read.
#[derive(Copy, Debug, Clone, PartialEq, Eq, Structural)]
pub enum Malformation {
    /// A header line without `": "` between a key and a value.
    NoSeparator,
    /// The value is no unsigned number that fits 64 bits.
    NotANumber,
    /// The value is no date and time in the stored form.
    NotADateTime,
    /// The value is neither `true` nor `false`.
    NotABool,
}

/// What can go wrong.
#[derive(Debug, Clone)]
#[allow(inconsistent_fields)]
pub enum Sorry {
    /// The header names a kind of entry that there is not.
    UnknownEntryType { entry_type: String },
    /// No entry of this kind has this identifier.
    MissingEntryID { entry_type: GooseberryEntryType, entry_id: u64 },
    /// The text does not begin with a header between two marks.
    MissingHeader,
    /// The header lacks an element that the kind of entry needs.
    MissingHeaderElement { element: String },
    /// The header has the element, or the line, but it cannot be read.
    MalformedHeaderElement { element: String, cause: Malformation },
    /// An entry of one kind where another kind was expected.
    WrongEntryType { expected: GooseberryEntryType, got: GooseberryEntryType },
    /// Something that should not happen.
    OutOfCheeseError { message: String },
}

/// An error with its texts as sequences of characters.
#[allow(inconsistent_fields)]
pub enum SorryView {
    UnknownEntryType { entry_type: Seq<char> },
    MissingEntryID { entry_type: GooseberryEntryType, entry_id: u64 },
    MissingHeader,
    MissingHeaderElement { element: Seq<char> },
    MalformedHeaderElement { element: Seq<char>, cause: Malformation },
    WrongEntryType { expected: GooseberryEntryType, got: GooseberryEntryType },
    OutOfCheeseError { message: Seq<char> },
}

impl View for Sorry {
    type V = SorryView;

    open spec fn view(&self) -> SorryView {
        match *self {
            Sorry::UnknownEntryType { entry_type } => SorryView::UnknownEntryType {
                entry_type: entry_type@,
            },
            Sorry::MissingEntryID { entry_type, entry_id } => SorryView::MissingEntryID {
                entry_type,
                entry_id,
            },
            Sorry::MissingHeader => SorryView::MissingHeader,
            Sorry::MissingHeaderElement { element } => SorryView::MissingHeaderElement {
                element: element@,
            },
            Sorry::MalformedHeaderElement { element, cause } => SorryView::MalformedHeaderElement {
                element: element@,
                cause,
            },
            Sorry::WrongEntryType { expected, got } => SorryView::WrongEntryType { expected, got },
            Sorry::OutOfCheeseError { message } => SorryView::OutOfCheeseError {
                message: message@,
            },
        }
    }
}

} // verus!
