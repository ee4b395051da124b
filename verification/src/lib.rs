//! Core of an interactive 2D data-plotting viewport: a pannable canvas
//! that derives a coordinate grid from the current view and maps
//! time-series data points into world coordinates.
//!
//! All coordinate arithmetic is carried out on exact rational numbers,
//! so every conversion between pixel, world and data units is stated
//! and proved exactly. The rendering engine around this core only
//! supplies pointer input and viewport dimensions and draws the
//! primitives computed here.

pub mod camera;
pub mod config;
pub mod date;
pub mod grid;
pub mod mapper;
pub mod pan;
pub mod rat;
pub mod timeseries;
