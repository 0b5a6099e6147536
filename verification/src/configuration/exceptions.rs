//! What can go wrong with the configuration.

use vstd::prelude::*;

verus! {

/// The file could not be opened or read.
#[derive(Debug)]
pub struct FileError {
    pub filename: String,
}

/// The file's content is not a properties document.
#[derive(Debug)]
pub struct PropertiesFormatError {
    pub filename: String,
    /// The line at which the reader gave up, counted from 1, where it is known.
    pub line_number: Option<usize>,
}

/// A property was asked for that the configuration does not hold.
#[derive(Debug)]
pub struct MissingConfigPropertyError {
    pub property: String,
}

/// A property was asked for under the empty key.
#[derive(Debug)]
pub struct InvalidConfigPropertyKeyError {
    pub key: String,
}

/// Why a lookup gave no value.
#[derive(Debug)]
pub enum ConfigPropertiesError {
    InvalidConfigPropertyKeyError(InvalidConfigPropertyKeyError),
    MissingConfigPropertyError(MissingConfigPropertyError),
}

} // verus!
