//! A keeper of small notes (tasks, journal lines, research notes, events):
//! the text form in which a note is stored, the catalog of the notes of one
//! kind, the form in which a note is written, and the keys that drive it all.

pub mod catalog;
pub mod display;
pub mod entry;
pub mod errors;
pub mod gooseberry_app;
pub mod record;
pub mod text;
pub mod timestamp;
pub mod utility;
