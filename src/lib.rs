//! Ownership-safe glue around a native cheminformatics engine: a borrow-scoped
//! cursor over a molecule's atoms, and a splitter that turns a multi-record
//! chemical file into one parse attempt per record.
pub mod atom;
pub mod verbose_file_parsers;
