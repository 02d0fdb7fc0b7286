//! Unclamped conversion between color types, bulk conversion of color
//! buffers, and the layout analysis that decides whether a color type can be
//! treated as a fixed-size array of channels.
pub mod cast;
pub mod convert;
pub mod derive;
