use vstd::prelude::*;

verus! {

/// What can go wrong while gathering or comparing CPU counters. Paths are
/// those of the file concerned; messages are those of the failed operation.
#[derive(Debug)]
pub enum CgStatsError {
    /// A file or directory could not be read or written.
    FileError { path: String, message: String },
    /// A line of a statistics file is not one key and one value.
    ParseError { path: String },
    /// A value in a statistics file is not an unsigned number.
    ParseIntError { path: String },
    /// A statistics file holds no line for the field.
    MissingField { path: String, field: String },
    /// The snapshot could not be encoded.
    TomlSerialization { message: String },
    /// The snapshot in the state file is not older than the current one.
    TimeSpan { path: String },
    /// Another input or output error.
    IO { message: String },
}

} // verus!
