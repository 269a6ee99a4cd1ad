//! Render a stream of structural document events as styled text for a
//! fixed-width terminal.
//!
//! The renderer is a single-pass, stateful transducer: it consumes events
//! (paragraphs, headers, lists, emphasis, links, code, rules) in order,
//! tracks nested formatting context, numbers and indents nested lists, and
//! defers link targets to a reference list printed near the text that used
//! them. Parsing document syntax and writing to a device are left to the
//! caller; the renderer returns the full output text or a structured error.

pub mod event;
pub mod style;
pub mod text;
pub mod model;
pub mod render;
pub mod laws;
