//! Renders source code into the description of a vector image.
//!
//! A render goes through three steps. The highlighter ([`highlight`]) turns the text into one
//! styled line for each source line; the layout engine ([`layout`]) measures the lines with
//! the metrics of the font ([`metrics`]) and sizes the canvas; the assembler ([`document`])
//! builds the document, which [`markup`] writes down. [`render`] runs the three in order.
//!
//! Lengths are integers throughout: hundredths of a pixel for metrics, widths and offsets,
//! hundredths of an em for baselines, and whole pixels, rounded up, for the canvas.
//!
//! Beside the render stand the readers of what a caller configures it with: colours
//! ([`color`]), canvas dimensions ([`dimensions`]), font names ([`font_name`]) and the text
//! itself ([`source`]).

pub mod color;
pub mod dimensions;
pub mod document;
pub mod error;
pub mod escape;
pub mod font_name;
pub mod highlight;
pub mod layout;
pub mod markup;
pub mod metrics;
pub mod render;
pub mod source;
pub mod style;
pub mod text;
