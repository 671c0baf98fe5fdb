//! A verified bridge from a styled document tree to an ordered list of paint
//! commands: cascaded style values are resolved to concrete pixel geometry and
//! paint attributes, and a laid-out node tree is walked in document order,
//! emitting drawing primitives (rounded rectangles, shaped text runs, bitmap
//! images) for a presentation layer to consume.

pub mod strutil;
pub mod style;
pub mod geom;
pub mod image;
pub mod text;
pub mod tree;
pub mod paint;
pub mod printer;
