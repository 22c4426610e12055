//! The rules that a template has to meet before it is rendered.

use vstd::prelude::*;
use crate::deep_print_schema::{
    DeepPrintTemplate, Element, ElementData, FontWeight, TableColumn, TableColumnWidth, TextProps,
};
use crate::draw::{opt_text, TextAlign};
use crate::layout::{find_id, index_of_id};
use crate::qr::CorrectionLevel;
use crate::text::{chars_of, decimal, decimal_text, same_text};

verus! {

/// The attribute that breaks a rule.
#[derive(Clone, Copy, Debug, PartialEq, Eq, Structural)]
pub enum SchemaField {
    Orientation,
    Id,
    Width,
    Height,
    FontWeight,
    TextAlign,
    VerticalAlign,
    TextDecoration,
    AutoShrink,
    LineBreak,
    ShowHead,
    ColumnWidth,
    CorrectionLevel,
    ObjectFit,
}

/// The rule that is broken.
#[derive(Clone, Copy, Debug, PartialEq, Eq, Structural)]
pub enum SchemaReason {
    /// Another element before this one has the same id.
    DuplicateId,
    /// A width or a height is less than zero.
    Negative,
    /// The value is none of those that the attribute can have.
    BadValue,
}

/// A broken rule, with its place: the position of the element, none for an
/// attribute of the canvas itself, and the position of the column for an
/// attribute of a table column.
#[derive(Clone, Copy, Debug, PartialEq, Eq, Structural)]
pub struct SchemaError {
    pub element: Option<usize>,
    pub column: Option<usize>,
    pub field: SchemaField,
    pub reason: SchemaReason,
}

/// The name of an attribute in a template.
pub open spec fn field_name(field: SchemaField) -> Seq<char> {
    match field {
        SchemaField::Orientation => "orientation"@,
        SchemaField::Id => "id"@,
        SchemaField::Width => "w"@,
        SchemaField::Height => "h"@,
        SchemaField::FontWeight => "fontWeight"@,
        SchemaField::TextAlign => "textAlign"@,
        SchemaField::VerticalAlign => "verticalAlign"@,
        SchemaField::TextDecoration => "textDecoration"@,
        SchemaField::AutoShrink => "autoShrink"@,
        SchemaField::LineBreak => "lineBreak"@,
        SchemaField::ShowHead => "showHead"@,
        SchemaField::ColumnWidth => "width"@,
        SchemaField::CorrectionLevel => "correctionLevel"@,
        SchemaField::ObjectFit => "objectFit"@,
    }
}

/// The path of the attribute that an error is about, as in
/// `canvas.elements[2].columns[0].width`.
pub open spec fn path_spec(e: SchemaError) -> Seq<char> {
    let element = match e.element {
        Some(i) => "canvas.elements["@ + decimal_text(i as nat) + "]."@,
        None => "canvas."@,
    };
    let column = match e.column {
        Some(c) => "columns["@ + decimal_text(c as nat) + "]."@,
        None => Seq::empty(),
    };
    element + column + field_name(e.field)
}

impl SchemaField {
    /// The name of the attribute in a template.
    pub fn name(&self) -> (r: &'static str)
        ensures
            r@ == field_name(*self),
    {
        match self {
            SchemaField::Orientation => "orientation",
            SchemaField::Id => "id",
            SchemaField::Width => "w",
            SchemaField::Height => "h",
            SchemaField::FontWeight => "fontWeight",
            SchemaField::TextAlign => "textAlign",
            SchemaField::VerticalAlign => "verticalAlign",
            SchemaField::TextDecoration => "textDecoration",
            SchemaField::AutoShrink => "autoShrink",
            SchemaField::LineBreak => "lineBreak",
            SchemaField::ShowHead => "showHead",
            SchemaField::ColumnWidth => "width",
            SchemaField::CorrectionLevel => "correctionLevel",
            SchemaField::ObjectFit => "objectFit",
        }
    }
}

impl SchemaError {
    /// The path of the attribute that the error is about.
    pub fn path(&self) -> (r: String)
        ensures
            r@ == path_spec(*self),
    {
        let mut out = match self.element {
            Some(i) => {
                let mut s = String::from_str("canvas.elements[");
                s.append(decimal(i).as_str());
                s.append("].");
                s
            },
            None => String::from_str("canvas."),
        };
        match self.column {
            Some(c) => {
                out.append("columns[");
                out.append(decimal(c).as_str());
                out.append("].");
                assert(out@ =~= (match self.element {
                    Some(i) => "canvas.elements["@ + decimal_text(i as nat) + "]."@,
                    None => "canvas."@,
                }) + ("columns["@ + decimal_text(c as nat) + "]."@));
            },
            None => {
                assert(out@ + Seq::<char>::empty() =~= out@);
            },
        }
        out.append(self.field.name());
        out
    }
}

/// Whether an attribute that is given is one of three words.
pub open spec fn is_one_of(
    value: Option<Seq<char>>,
    a: Seq<char>,
    b: Seq<char>,
    c: Seq<char>,
) -> bool {
    match value {
        Some(s) => s == a || s == b || s == c,
        None => true,
    }
}

/// Whether a text decoration that is given is "underline" or "none".
pub open spec fn decoration_ok(value: Option<Seq<char>>) -> bool {
    match value {
        Some(s) => s == "underline"@ || s == "none"@,
        None => true,
    }
}

/// Whether a correction level that is given is "L", "M", "Q" or "H".
pub open spec fn level_ok(value: Option<Seq<char>>) -> bool {
    match value {
        Some(s) => s == "L"@ || s == "M"@ || s == "Q"@ || s == "H"@,
        None => true,
    }
}

/// Whether a flag that is given is 0 or 1.
pub open spec fn is_flag(value: Option<u8>) -> bool {
    match value {
        Some(v) => v <= 1,
        None => true,
    }
}

/// Whether a font weight that is given is "bold", "normal" or a number from
/// 100 to 900.
pub open spec fn weight_ok(weight: Option<FontWeight>) -> bool {
    match weight {
        Some(FontWeight::String(s)) => s@ == "bold"@ || s@ == "normal"@,
        Some(FontWeight::Number(n)) => 100 <= n <= 900,
        None => true,
    }
}

/// The first attribute of a text that has a value it cannot have.
pub open spec fn text_fault(props: TextProps) -> Option<SchemaField> {
    if !weight_ok(props.font_weight) {
        Some(SchemaField::FontWeight)
    } else if !is_one_of(opt_text(props.text_align), "left"@, "center"@, "right"@) {
        Some(SchemaField::TextAlign)
    } else if !is_one_of(opt_text(props.vertical_align), "top"@, "middle"@, "bottom"@) {
        Some(SchemaField::VerticalAlign)
    } else if !decoration_ok(opt_text(props.text_decoration)) {
        Some(SchemaField::TextDecoration)
    } else if !is_flag(props.auto_shrink) {
        Some(SchemaField::AutoShrink)
    } else if !is_flag(props.line_break) {
        Some(SchemaField::LineBreak)
    } else {
        None
    }
}

/// Whether a column width that is given is a fixed length or a text that
/// ends in a percent sign.
pub open spec fn width_ok(width: Option<TableColumnWidth>) -> bool {
    match width {
        Some(TableColumnWidth::Percentage(p)) => p@.len() > 0 && p@.last() == '%',
        _ => true,
    }
}

/// The first attribute of a column that has a value it cannot have.
pub open spec fn column_fault(col: TableColumn) -> Option<SchemaField> {
    if !width_ok(col.width) {
        Some(SchemaField::ColumnWidth)
    } else if !is_one_of(opt_text(col.text_align), "left"@, "center"@, "right"@) {
        Some(SchemaField::TextAlign)
    } else {
        None
    }
}

/// The first column from `from` on with an attribute that has a value it
/// cannot have, and that attribute.
pub open spec fn columns_fault(cols: Seq<TableColumn>, from: int) -> Option<(usize, SchemaField)>
    decreases cols.len() - from,
{
    if from < 0 || from >= cols.len() {
        None
    } else {
        match column_fault(cols[from]) {
            Some(field) => Some((from as usize, field)),
            None => columns_fault(cols, from + 1),
        }
    }
}

/// The first attribute of an element's own kind that has a value it cannot
/// have, with the position of the column for an attribute of a column.
pub open spec fn body_fault(data: ElementData) -> Option<(Option<usize>, SchemaField)> {
    match data {
        ElementData::Text(props) => match text_fault(props) {
            Some(field) => Some((None, field)),
            None => None,
        },
        ElementData::Table(props) => if !is_flag(props.show_head) {
            Some((None, SchemaField::ShowHead))
        } else {
            match columns_fault(props.columns@, 0) {
                Some((c, field)) => Some((Some(c), field)),
                None => None,
            }
        },
        ElementData::Qrcode(props) => if level_ok(opt_text(props.correction_level)) {
            None
        } else {
            Some((None, SchemaField::CorrectionLevel))
        },
        ElementData::Image(props) => if is_one_of(
            opt_text(props.object_fit),
            "contain"@,
            "cover"@,
            "fill"@,
        ) {
            None
        } else {
            Some((None, SchemaField::ObjectFit))
        },
        _ => None,
    }
}

/// Whether an element before element `i` has the id of element `i`.
pub open spec fn id_repeated(elems: Seq<Element>, i: int) -> bool {
    index_of_id(elems, elems[i].id@, 0) != Some(i as usize)
}

/// The first rule that element `i` breaks: its id is that of an earlier
/// element, its width or height is less than zero, or an attribute has a
/// value that it cannot have.
pub open spec fn element_fault(elems: Seq<Element>, i: int) -> Option<SchemaError> {
    let at = Some(i as usize);
    if id_repeated(elems, i) {
        Some(
            SchemaError {
                element: at,
                column: None,
                field: SchemaField::Id,
                reason: SchemaReason::DuplicateId,
            },
        )
    } else if elems[i].w < 0 {
        Some(
            SchemaError {
                element: at,
                column: None,
                field: SchemaField::Width,
                reason: SchemaReason::Negative,
            },
        )
    } else if elems[i].h < 0 {
        Some(
            SchemaError {
                element: at,
                column: None,
                field: SchemaField::Height,
                reason: SchemaReason::Negative,
            },
        )
    } else {
        match body_fault(elems[i].data) {
            Some((column, field)) => Some(
                SchemaError { element: at, column, field, reason: SchemaReason::BadValue },
            ),
            None => None,
        }
    }
}

/// The first rule that an element from `from` on breaks.
pub open spec fn elements_fault(elems: Seq<Element>, from: int) -> Option<SchemaError>
    decreases elems.len() - from,
{
    if from < 0 || from >= elems.len() {
        None
    } else {
        match element_fault(elems, from) {
            Some(e) => Some(e),
            None => elements_fault(elems, from + 1),
        }
    }
}

/// Whether an orientation that is given is 1, 2 or 3.
pub open spec fn orientation_ok(orientation: Option<u8>) -> bool {
    match orientation {
        Some(v) => 1 <= v <= 3,
        None => true,
    }
}

/// The first rule that a template breaks: the orientation of its canvas
/// comes first, then its elements in their order.
pub open spec fn template_fault(template: DeepPrintTemplate) -> Option<SchemaError> {
    if !orientation_ok(template.canvas.orientation) {
        Some(
            SchemaError {
                element: None,
                column: None,
                field: SchemaField::Orientation,
                reason: SchemaReason::BadValue,
            },
        )
    } else {
        elements_fault(template.canvas.elements@, 0)
    }
}

fn one_of(value: &Option<String>, a: &str, b: &str, c: &str) -> (r: bool)
    ensures
        r == is_one_of(opt_text(*value), a@, b@, c@),
{
    match value {
        Some(s) => same_text(s.as_str(), a) || same_text(s.as_str(), b) || same_text(
            s.as_str(),
            c,
        ),
        None => true,
    }
}

fn decoration(value: &Option<String>) -> (r: bool)
    ensures
        r == decoration_ok(opt_text(*value)),
{
    match value {
        Some(s) => same_text(s.as_str(), "underline") || same_text(s.as_str(), "none"),
        None => true,
    }
}

fn level(value: &Option<String>) -> (r: bool)
    ensures
        r == level_ok(opt_text(*value)),
{
    match value {
        Some(s) => same_text(s.as_str(), "L") || same_text(s.as_str(), "M") || same_text(
            s.as_str(),
            "Q",
        ) || same_text(s.as_str(), "H"),
        None => true,
    }
}

fn flag(value: &Option<u8>) -> (r: bool)
    ensures
        r == is_flag(*value),
{
    match value {
        Some(v) => *v <= 1,
        None => true,
    }
}

fn check_text(props: &TextProps) -> (r: Option<SchemaField>)
    ensures
        r == text_fault(*props),
{
    let weight = match &props.font_weight {
        Some(FontWeight::String(s)) => same_text(s.as_str(), "bold") || same_text(
            s.as_str(),
            "normal",
        ),
        Some(FontWeight::Number(n)) => 100 <= *n && *n <= 900,
        None => true,
    };
    if !weight {
        Some(SchemaField::FontWeight)
    } else if !one_of(&props.text_align, "left", "center", "right") {
        Some(SchemaField::TextAlign)
    } else if !one_of(&props.vertical_align, "top", "middle", "bottom") {
        Some(SchemaField::VerticalAlign)
    } else if !decoration(&props.text_decoration) {
        Some(SchemaField::TextDecoration)
    } else if !flag(&props.auto_shrink) {
        Some(SchemaField::AutoShrink)
    } else if !flag(&props.line_break) {
        Some(SchemaField::LineBreak)
    } else {
        None
    }
}

fn check_column(col: &TableColumn) -> (r: Option<SchemaField>)
    ensures
        r == column_fault(*col),
{
    let width = match &col.width {
        Some(TableColumnWidth::Percentage(p)) => {
            let cs = chars_of(p.as_str());
            cs.len() > 0 && cs[cs.len() - 1] == '%'
        },
        _ => true,
    };
    if !width {
        Some(SchemaField::ColumnWidth)
    } else if !one_of(&col.text_align, "left", "center", "right") {
        Some(SchemaField::TextAlign)
    } else {
        None
    }
}

fn check_columns(columns: &Vec<TableColumn>) -> (r: Option<(usize, SchemaField)>)
    ensures
        r == columns_fault(columns@, 0),
{
    let mut c: usize = 0;
    while c < columns.len()
        invariant
            c <= columns.len(),
            columns_fault(columns@, 0) == columns_fault(columns@, c as int),
        decreases columns.len() - c,
    {
        match check_column(&columns[c]) {
            Some(field) => {
                return Some((c, field));
            },
            None => {},
        }
        c += 1;
    }
    None
}

fn check_body(data: &ElementData) -> (r: Option<(Option<usize>, SchemaField)>)
    ensures
        r == body_fault(*data),
{
    match data {
        ElementData::Text(props) => match check_text(props) {
            Some(field) => Some((None, field)),
            None => None,
        },
        ElementData::Table(props) => if !flag(&props.show_head) {
            Some((None, SchemaField::ShowHead))
        } else {
            match check_columns(&props.columns) {
                Some((c, field)) => Some((Some(c), field)),
                None => None,
            }
        },
        ElementData::Qrcode(props) => if level(&props.correction_level) {
            None
        } else {
            Some((None, SchemaField::CorrectionLevel))
        },
        ElementData::Image(props) => if one_of(&props.object_fit, "contain", "cover", "fill") {
            None
        } else {
            Some((None, SchemaField::ObjectFit))
        },
        _ => None,
    }
}

fn check_element(elements: &Vec<Element>, i: usize) -> (r: Option<SchemaError>)
    requires
        i < elements.len(),
    ensures
        r == element_fault(elements@, i as int),
{
    let at = Some(i);
    let first = find_id(elements, elements[i].id.as_str());
    let repeated = match first {
        Some(j) => j != i,
        None => true,
    };
    if repeated {
        Some(
            SchemaError {
                element: at,
                column: None,
                field: SchemaField::Id,
                reason: SchemaReason::DuplicateId,
            },
        )
    } else if elements[i].w < 0 {
        Some(
            SchemaError {
                element: at,
                column: None,
                field: SchemaField::Width,
                reason: SchemaReason::Negative,
            },
        )
    } else if elements[i].h < 0 {
        Some(
            SchemaError {
                element: at,
                column: None,
                field: SchemaField::Height,
                reason: SchemaReason::Negative,
            },
        )
    } else {
        match check_body(&elements[i].data) {
            Some((column, field)) => Some(
                SchemaError { element: at, column, field, reason: SchemaReason::BadValue },
            ),
            None => None,
        }
    }
}

impl DeepPrintTemplate {
    /// Whether the template meets every rule.
    pub open spec fn wf(&self) -> bool {
        template_fault(*self) is None
    }

    /// Checks the rules: the orientation is 1, 2 or 3; no two elements have
    /// the same id; no width or height is less than zero; every attribute
    /// with a fixed set of values has one of them. The error is the first
    /// rule that is broken.
    pub fn validate(&self) -> (r: Result<(), SchemaError>)
        ensures
            match r {
                Ok(_) => self.wf(),
                Err(e) => template_fault(*self) == Some(e),
            },
    {
        let orientation = match self.canvas.orientation {
            Some(v) => 1 <= v && v <= 3,
            None => true,
        };
        if !orientation {
            return Err(
                SchemaError {
                    element: None,
                    column: None,
                    field: SchemaField::Orientation,
                    reason: SchemaReason::BadValue,
                },
            );
        }
        let mut i: usize = 0;
        while i < self.canvas.elements.len()
            invariant
                i <= self.canvas.elements.len(),
                orientation_ok(self.canvas.orientation),
                elements_fault(self.canvas.elements@, 0) == elements_fault(
                    self.canvas.elements@,
                    i as int,
                ),
            decreases self.canvas.elements.len() - i,
        {
            match check_element(&self.canvas.elements, i) {
                Some(e) => {
                    return Err(e);
                },
                None => {},
            }
            i += 1;
        }
        Ok(())
    }
}

/// A template in which two elements have the same id breaks a rule, so
/// that `validate` gives an error for it.
pub proof fn lemma_duplicate_ids_are_rejected(template: DeepPrintTemplate, i: int, j: int)
    requires
        0 <= i < j < template.canvas.elements@.len(),
        template.canvas.elements@.len() <= usize::MAX,
        template.canvas.elements@[i].id@ == template.canvas.elements@[j].id@,
    ensures
        !template.wf(),
{
    let elems = template.canvas.elements@;
    if template.wf() {
        lemma_no_fault_from(elems, 0, j);
        lemma_first_index_at_most(elems, elems[j].id@, 0, i);
    }
}

/// Where no element from `from` on breaks a rule, element `j` breaks none.
proof fn lemma_no_fault_from(elems: Seq<Element>, from: int, j: int)
    requires
        0 <= from <= j < elems.len(),
        elements_fault(elems, from) is None,
    ensures
        element_fault(elems, j) is None,
    decreases j - from,
{
    if from < j {
        lemma_no_fault_from(elems, from + 1, j);
    }
}

/// The first element with a given id stands no later than any element with it.
proof fn lemma_first_index_at_most(elems: Seq<Element>, id: Seq<char>, from: int, i: int)
    requires
        0 <= from <= i < elems.len(),
        elems.len() <= usize::MAX,
        elems[i].id@ == id,
    ensures
        match index_of_id(elems, id, from) {
            Some(k) => from <= k <= i,
            None => false,
        },
    decreases i - from,
{
    if elems[from].id@ != id {
        lemma_first_index_at_most(elems, id, from + 1, i);
    }
}

} // verus!
