//! The template model: a canvas of positioned elements.
//!
//! Every length is a whole number of millipoints.

use vstd::prelude::*;
use std::collections::HashMap;

verus! {

/// A print template.
#[derive(Clone, Debug, PartialEq)]
pub struct DeepPrintTemplate {
    pub meta: Meta,
    /// A description of the data that the template expects; not interpreted.
    pub data_schema: String,
    /// Named payloads that elements may refer to; not interpreted.
    pub assets: Option<HashMap<String, String>>,
    pub canvas: Canvas,
}

/// The name of a template and the version of its format.
#[derive(Clone, Debug, PartialEq)]
pub struct Meta {
    /// Always "6.1".
    pub version: String,
    pub name: String,
}

/// The page: its size, its default styles and its elements in their order.
#[derive(Clone, Debug, PartialEq)]
pub struct Canvas {
    pub width: i64,
    /// With `orientation` 3 this is only a minimum.
    pub height: i64,
    /// 1 portrait (the default), 2 landscape, 3 adaptive height.
    pub orientation: Option<u8>,
    /// Defaults that an element may override.
    pub styles: Option<GlobalStyles>,
    pub elements: Vec<Element>,
}

/// The styles of texts that do not give their own.
#[derive(Clone, Debug, PartialEq)]
pub struct GlobalStyles {
    pub font_family: Option<String>,
    pub font_size: Option<i64>,
    pub font_color: Option<String>,
}

/// A positioned item. With `linked_to` set, `y` is the gap below the bottom
/// of the element of that id; without it, `y` is measured from the top of the
/// canvas.
#[derive(Clone, Debug, PartialEq)]
pub struct Element {
    pub id: String,
    pub x: i64,
    pub y: i64,
    pub w: i64,
    pub h: i64,
    pub linked_to: Option<String>,
    pub data: ElementData,
}

/// What an element is, with the attributes of its kind.
#[derive(Clone, Debug, PartialEq)]
pub enum ElementData {
    Text(TextProps),
    Table(TableProps),
    Image(ImageProps),
    Barcode(BarcodeProps),
    Qrcode(QrcodeProps),
    Line(LineProps),
    Rect(RectProps),
    Ellipse(EllipseProps),
}

/// A paragraph of text.
#[derive(Clone, Debug, PartialEq)]
pub struct TextProps {
    /// May hold `{{path}}` tokens.
    pub content: String,
    pub font_family: Option<String>,
    pub font_size: Option<i64>,
    pub font_weight: Option<FontWeight>,
    pub font_color: Option<String>,
    /// A factor in thousandths; 1200 by default.
    pub line_height: Option<i64>,
    /// "left", "center" or "right".
    pub text_align: Option<String>,
    /// "top", "middle" or "bottom".
    pub vertical_align: Option<String>,
    /// "underline" or "none".
    pub text_decoration: Option<String>,
    /// 1 to reduce the font size of a text that does not fit.
    pub auto_shrink: Option<u8>,
    /// 0 to keep the text on one line.
    pub line_break: Option<u8>,
    /// Whether the height follows the content; true by default.
    pub auto_height: Option<bool>,
}

/// A table with one row for each item of an array of the data.
#[derive(Clone, Debug, PartialEq)]
pub struct TableProps {
    /// The expression of the rows, such as `{{order.items}}`.
    pub data: String,
    pub columns: Vec<TableColumn>,
    /// 1 (the default) to draw the header row.
    pub show_head: Option<u8>,
    /// 5 points by default.
    pub cell_padding: Option<i64>,
    /// 2.83 points, one millimetre, by default.
    pub border_width: Option<i64>,
    pub border_color: Option<String>,
    pub auto_height: Option<bool>,
}

/// A column of a table.
#[derive(Clone, Debug, PartialEq)]
pub struct TableColumn {
    pub title: String,
    /// The path of the cell's text within a row.
    pub field: String,
    /// A fixed width or a percentage; without it the column shares what is left.
    pub width: Option<TableColumnWidth>,
    pub text_align: Option<String>,
}

/// An image; a placeholder is drawn in its place.
#[derive(Clone, Debug, PartialEq)]
pub struct ImageProps {
    pub src: String,
    /// "contain", "cover" or "fill".
    pub object_fit: Option<String>,
}

/// A barcode; a placeholder with a caption is drawn in its place.
#[derive(Clone, Debug, PartialEq)]
pub struct BarcodeProps {
    pub value: String,
    pub format: String,
    pub display_value: Option<u8>,
}

/// A QR code.
#[derive(Clone, Debug, PartialEq)]
pub struct QrcodeProps {
    pub value: String,
    /// "L", "M" (the default), "Q" or "H".
    pub correction_level: Option<String>,
    /// The side of the symbol; the smaller side of the element by default.
    pub size: Option<i64>,
}

/// A straight line from the top left corner of the box to its far corner.
#[derive(Clone, Debug, PartialEq)]
pub struct LineProps {
    pub stroke_width: Option<i64>,
    pub stroke_color: Option<String>,
    pub dash_array: Option<Vec<i64>>,
}

/// A rectangle, filled, outlined or both.
#[derive(Clone, Debug, PartialEq)]
pub struct RectProps {
    pub stroke_width: Option<i64>,
    pub stroke_color: Option<String>,
    pub fill_color: Option<String>,
    pub border_radius: Option<i64>,
    pub dash_array: Option<Vec<i64>>,
}

/// The outline of an ellipse.
#[derive(Clone, Debug, PartialEq)]
pub struct EllipseProps {
    pub stroke_width: Option<i64>,
    pub stroke_color: Option<String>,
    pub fill_color: Option<String>,
    pub dash_array: Option<Vec<i64>>,
}

/// A font weight, by name ("bold", "normal") or by number (100 to 900).
#[derive(Clone, Debug, PartialEq)]
pub enum FontWeight {
    String(String),
    Number(u16),
}

/// A column width: a fixed length, or a percentage such as "20%" of what the
/// fixed columns leave.
#[derive(Clone, Debug, PartialEq)]
pub enum TableColumnWidth {
    Fixed(i64),
    Percentage(String),
}

} // verus!
