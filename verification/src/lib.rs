//! Synthetic test slides: a white canvas with a few random coloured
//! rectangles and a caption naming a frame number.

pub mod color;
pub mod random;
pub mod rect;
pub mod canvas;
pub mod coverage;
pub mod text;
pub mod caption;
pub mod font;
pub mod slide;
