//! Visual configuration handed through to the renderer, and the
//! configuration errors the core can surface.

use vstd::prelude::*;

verus! {

/// An RGBA color, 8 bits per channel, as handed to the renderer.
#[derive(Clone, Copy, PartialEq, Eq, Structural, Debug)]
pub struct LineStyle {
    pub red: u8,
    pub green: u8,
    pub blue: u8,
    pub alpha: u8,
}

/// The complete set of styles a grid needs, one per line category.
/// Constructing this struct is what guarantees that no required style
/// entry is missing: there is no optional field to forget.
#[derive(Clone, Copy, PartialEq, Eq, Structural, Debug)]
pub struct GridStyles {
    pub minor: LineStyle,
    pub x_axis: LineStyle,
    pub y_axis: LineStyle,
}

/// A caller mistake caught while validating configuration. These are
/// unrecoverable at the point of rendering; nothing in the core is a
/// transient, retryable condition.
#[derive(Clone, Copy, PartialEq, Eq, Structural, Debug)]
pub enum ConfigError {
    /// The grid line spacing was not a positive, representable fraction.
    InvalidSpacing,
    /// A dataset was registered under a key that is already taken.
    DuplicateKey,
    /// A plot was requested for a dataset key that was never loaded.
    MissingDataset,
}

} // verus!
