//! A declarative print-template engine. A template is a canvas of positioned
//! elements: texts, tables, lines, rectangles, ellipses, QR codes, and
//! placeholders for barcodes and images. Rendering a template with a data
//! document replaces the `{{path}}` tokens by values of the document, places
//! every element below the element that it is linked to, and records the
//! drawing calls in a [`draw::DrawList`].
//!
//! Lengths are whole numbers of millipoints, a thousandth of a point, so that
//! every layout rule is exact integer arithmetic; sums are held at the ends
//! of the range of `i64`.
//!
//! The library does not measure text. A rendering takes the measured height
//! of each paragraph, in the order in which the paragraphs are drawn. Which
//! paragraphs are drawn does not depend on those heights, so a host renders
//! once without heights, measures the paragraphs that [`draw::DrawList::runs`]
//! gives, and renders again with what it measured.

pub mod units;
pub mod text;
pub mod color;
pub mod value;
pub mod interpolate;
pub mod deep_print_schema;
pub mod validate;
pub mod draw;
pub mod style;
pub mod graph;
pub mod layout;
pub mod columns;
pub mod table;
pub mod qr;
pub mod elements;
pub mod renderer;
pub mod runs;
pub mod engine;
