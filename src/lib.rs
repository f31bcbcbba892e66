//! Spreadsheet records to heatmap markup.
//!
//! `assembler` rebuilds records that span one or two rows of a sheet, with
//! an exact model of the row-pairing state machine; `render` lays out a grid
//! of coloured cells as SVG markup, with a canvas sized to the grid. Numeric
//! cell values travel as binary64 bit patterns (`cell`), so that they pass
//! through unchanged.
use vstd::prelude::*;

pub mod cell;
pub mod assembler;
pub mod render;

verus! {

} // verus!
