//! Pseudo seven-segment digital display.
//!
//! Renders short digit strings (and a dash placeholder) as five-row text
//! blocks of box-drawing glyphs, one to four slots wide, and renders signed,
//! optionally fractional numbers into a fixed four-slot readout with a point
//! mark and a sign bar spliced into the glyphs.
pub mod compose;
pub mod fixed;
pub mod glyphs;
pub mod lazy;
pub mod lines;
pub mod signed;

pub use crate::fixed::sevseg_four;
pub use crate::fixed::sevseg_one;
pub use crate::fixed::sevseg_three;
pub use crate::fixed::sevseg_two;
pub use crate::lazy::SevSegFragments;
pub use crate::lazy::sevseg_four_iter;
pub use crate::signed::sevseg_four_dp;
pub use crate::signed::sevseg_four_dp_text;
