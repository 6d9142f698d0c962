use vstd::prelude::*;

verus! {

/// Top-level error of the TIFF reader.
#[derive(Debug, PartialEq)]
pub enum TIFFErrorState {
    HeaderError(HeaderErrorState),
    IFDEntryError(IFDEntryErrorState),
    GeoKeyDirectoryError(GeoKeyDirectoryErrorState),
    UnexpectedFormat(String),
    ProjectionError(String),
    UnsupportedCrs(u16),
    NotEnoughGeoData,
}

/// Errors of the GeoKey directory.
#[derive(Debug, PartialEq)]
pub enum GeoKeyDirectoryErrorState {
    ProjectionError(String),
    UnexpectedFormat(String),
}

/// Errors of the eight-byte file header.
#[derive(Debug, PartialEq)]
pub enum HeaderErrorState {
    UnexpectedByteOrder([u8; 2]),
    UnexpectedMagicNumber([u8; 2]),
    InvalidLength(usize),
}

/// Errors of a single image file directory entry.
#[derive(Debug, PartialEq)]
pub enum IFDEntryErrorState {
    UnexpectedEntryType(u16),
    MissingAssociatedValue(u16),
    InvalidLength(usize),
}

} // verus!
