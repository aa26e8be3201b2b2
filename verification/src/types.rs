//! Core value types of the encoder: error-correction levels, errors,
//! quiet-zone policy and the rendered result.

use vstd::prelude::*;

verus! {

/// The four standard error-correction levels, in increasing order of
/// redundancy.
#[derive(Clone, Copy, Debug, PartialEq, Eq, Structural)]
pub enum EcLevel {
    L,
    M,
    Q,
    H,
}

impl EcLevel {
    /// Index of the level used by the standard's tables: L=0, M=1, Q=2, H=3.
    pub open spec fn spec_index(self) -> int {
        match self {
            EcLevel::L => 0,
            EcLevel::M => 1,
            EcLevel::Q => 2,
            EcLevel::H => 3,
        }
    }

    /// Executable counterpart of `spec_index`.
    pub fn index(self) -> (r: usize)
        ensures
            r as int == self.spec_index(),
    {
        match self {
            EcLevel::L => 0,
            EcLevel::M => 1,
            EcLevel::Q => 2,
            EcLevel::H => 3,
        }
    }
}

/// Input errors and internal invariant violations surfaced to the caller.
#[derive(Clone, Copy, Debug, PartialEq, Eq, Structural)]
pub enum QrError {
    /// The payload does not fit in any version up to 40 at the requested
    /// error-correction level.
    DataTooLong,
    /// The requested minimum version is outside 1..=40.
    UnsupportedVersion,
    /// A standard-table inconsistency was detected; never expected at run
    /// time for the shipped tables.
    EncodingError,
}

/// How a frontend draws the data modules; the encoder accepts and ignores
/// it, since module shape is a presentation choice.
#[derive(Clone, Copy, Debug, PartialEq, Eq, Structural)]
pub enum ModuleStyle {
    Squares,
    Circles,
}

/// How a frontend draws the three locator (finder) patterns; accepted and
/// ignored by the encoder.
#[derive(Clone, Copy, Debug, PartialEq, Eq, Structural)]
pub enum LocatorStyle {
    Square,
    Rounded,
}

/// Which image a frontend overlays on the symbol's center; accepted and
/// ignored by the encoder.
#[derive(Clone, Copy, Debug, PartialEq, Eq, Structural)]
pub enum CenterImage {
    NoCenterImage,
    Dino,
}

/// Whether the rendered pixel buffer carries the four-module quiet zone
/// itself or leaves adding it to the client.
#[derive(Clone, Copy, Debug, PartialEq, Eq, Structural)]
pub enum QuietZone {
    Included,
    WillBeAddedByClient,
}

/// A rendered symbol: one byte per module, least-significant bit set for a
/// dark module.
pub struct QrCodeResult {
    /// Pixel data, row-major, `size * size` bytes.
    pub data: Vec<u8>,
    /// Width and height of `data` in modules, including any quiet zone.
    pub size: usize,
    /// Symbol size without the quiet zone.
    pub original_size: usize,
}

} // verus!
