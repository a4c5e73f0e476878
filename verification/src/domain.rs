//! The document model that requests are written in.
use vstd::prelude::*;
use crate::json::Json;
use crate::text::{copy_opt_string, copy_opt_strings, copy_string};

verus! {

pub enum OutputFormat {
    Pdf,
    Html,
    Docx,
}

pub struct SecurityConfig {
    /// Password required to open the document.
    pub user_password: Option<String>,
    /// Password required to change permissions.
    pub owner_password: Option<String>,
    pub allow_printing: bool,
    pub allow_copying: bool,
    pub allow_modification: bool,
    pub allow_annotation: bool,
}

pub struct DocumentRequest {
    pub template_id: String,
    pub data: Json,
    pub content: Vec<Node>,
    pub page: Option<PageSettings>,
    pub format: OutputFormat,
    pub security: Option<SecurityConfig>,
}

#[allow(inconsistent_fields)]
pub enum Node {
    Paragraph { content: Vec<InlineContent>, alignment: Option<String> },
    Heading { level: u8, content: Vec<InlineContent>, alignment: Option<String> },
    BulletList { items: Vec<Vec<InlineContent>> },
    Table {
        headers: Option<Vec<String>>,
        rows: Option<Vec<Vec<TableCellContent>>>,
        loop_data: Option<String>,
        row_template: Option<Vec<TableCellContent>>,
        footer: Option<Vec<TableCellContent>>,
        style: Option<TableStyle>,
    },
    PageBreak,
    Spacer { height: String },
    Image {
        src: String,
        width: Option<String>,
        height: Option<String>,
        alignment: Option<String>,
    },
    Shape {
        kind: String,
        width: String,
        height: String,
        fill: Option<String>,
        rotate: Option<String>,
    },
    Placed {
        anchor: Option<String>,
        dx: Option<String>,
        dy: Option<String>,
        content: Box<Node>,
    },
    Columns {
        items: Vec<Vec<Node>>,
        column_widths: Option<Vec<String>>,
        gutter: Option<String>,
    },
    /// The older QR variant: `data` is plain text, already resolved.
    QrCode { data: String, width: Option<String>, alignment: Option<String> },
    /// A QR code whose payload is inline content, variables included.
    Qr {
        content: Vec<InlineContent>,
        size: Option<String>,
        fill: Option<String>,
        background: Option<String>,
        error_correction: Option<String>,
        alignment: Option<String>,
    },
}

pub enum InlineContent {
    Text(TextNode),
    Variable(VariableNode),
    PageNumber(PageNumberNode),
}

pub struct PageNumberNode {
    pub page_number: bool,
    pub format: Option<String>,
}

pub struct TextNode {
    pub node_type: Option<String>,
    pub text: String,
    pub bold: Option<bool>,
    pub italic: Option<bool>,
    pub font_family: Option<String>,
    pub size: Option<String>,
    pub color: Option<String>,
    pub underline: Option<bool>,
    pub strike: Option<bool>,
    pub link: Option<String>,
}

pub struct VariableNode {
    pub node_type: Option<String>,
    pub key: String,
}

pub struct PageSettings {
    pub header: Option<PageHeaderFooter>,
    pub footer: Option<PageHeaderFooter>,
    pub background: Option<Vec<Node>>,
    pub watermark: Option<WatermarkSettings>,
    pub default_font: Option<String>,
}

/// A watermark. Its opacity and angle are given as what the renderers
/// print of them: the opacity as an alpha byte and as decimal text, the
/// angle in degrees as decimal text.
pub struct WatermarkSettings {
    pub text: String,
    /// Opacity, clamped to `[0, 1]`, scaled to `0..=255`.
    pub alpha: u8,
    /// Opacity, clamped to `[0, 1]`, as decimal text (default `0.2`).
    pub opacity: String,
    /// Rotation in degrees as decimal text (default `-45`).
    pub angle: String,
    pub position: Option<String>,
    pub font_size: Option<String>,
    pub color: Option<String>,
}

pub struct PageHeaderFooter {
    pub content: Vec<InlineContent>,
    pub alignment: Option<String>,
    pub first_page_only: Option<bool>,
    pub skip_first_page: Option<bool>,
    pub first_page_content: Option<Vec<InlineContent>>,
}

pub struct TableStyle {
    pub width: Option<String>,
    pub columns: Option<Vec<String>>,
    pub inset: Option<String>,
    pub stroke: Option<String>,
    pub header_bg: Option<String>,
    pub column_align: Option<Vec<String>>,
    pub repeat_header: Option<bool>,
    /// Alternating row backgrounds for loop-generated rows.
    pub striped_rows: Option<Vec<String>>,
}

pub enum TableCellContent {
    Variable {
        key: String,
        bold: Option<bool>,
        colspan: Option<u32>,
        rowspan: Option<u32>,
        fill: Option<String>,
    },
    Text {
        text: String,
        bold: Option<bool>,
        colspan: Option<u32>,
        rowspan: Option<u32>,
        fill: Option<String>,
    },
    /// An Excel-like calculation such as `=qty * price` or `=sum(total)`.
    Formula {
        formula: String,
        format: Option<String>,
        locale: Option<String>,
        decimal_places: Option<usize>,
        bold: Option<bool>,
        colspan: Option<u32>,
        rowspan: Option<u32>,
        fill: Option<String>,
    },
}

pub open spec fn same_strings(a: Option<Vec<String>>, b: Option<Vec<String>>) -> bool {
    match (a, b) {
        (Some(x), Some(y)) => x@ == y@,
        (None, None) => true,
        _ => false,
    }
}

impl TextNode {
    pub fn duplicate(&self) -> (r: TextNode)
        ensures
            r == *self,
    {
        TextNode {
            node_type: copy_opt_string(&self.node_type),
            text: copy_string(&self.text),
            bold: self.bold,
            italic: self.italic,
            font_family: copy_opt_string(&self.font_family),
            size: copy_opt_string(&self.size),
            color: copy_opt_string(&self.color),
            underline: self.underline,
            strike: self.strike,
            link: copy_opt_string(&self.link),
        }
    }
}

impl InlineContent {
    pub fn duplicate(&self) -> (r: InlineContent)
        ensures
            r == *self,
    {
        match self {
            InlineContent::Text(t) => InlineContent::Text(t.duplicate()),
            InlineContent::Variable(v) => InlineContent::Variable(
                VariableNode { node_type: copy_opt_string(&v.node_type), key: copy_string(&v.key) },
            ),
            InlineContent::PageNumber(p) => InlineContent::PageNumber(
                PageNumberNode { page_number: p.page_number, format: copy_opt_string(&p.format) },
            ),
        }
    }
}

pub fn duplicate_inlines(v: &[InlineContent]) -> (r: Vec<InlineContent>)
    ensures
        r@ == v@,
{
    let mut r: Vec<InlineContent> = Vec::new();
    for i in 0..v.len()
        invariant
            r@ == v@.take(i as int),
    {
        r.push(v[i].duplicate());
        assert(v@.take(i + 1) =~= v@.take(i as int).push(v@[i as int]));
    }
    assert(v@.take(v@.len() as int) =~= v@);
    r
}

impl TableCellContent {
    pub fn duplicate(&self) -> (r: TableCellContent)
        ensures
            r == *self,
    {
        match self {
            TableCellContent::Variable { key, bold, colspan, rowspan, fill } => {
                TableCellContent::Variable {
                    key: copy_string(key),
                    bold: *bold,
                    colspan: *colspan,
                    rowspan: *rowspan,
                    fill: copy_opt_string(fill),
                }
            },
            TableCellContent::Text { text, bold, colspan, rowspan, fill } => {
                TableCellContent::Text {
                    text: copy_string(text),
                    bold: *bold,
                    colspan: *colspan,
                    rowspan: *rowspan,
                    fill: copy_opt_string(fill),
                }
            },
            TableCellContent::Formula {
                formula,
                format,
                locale,
                decimal_places,
                bold,
                colspan,
                rowspan,
                fill,
            } => TableCellContent::Formula {
                formula: copy_string(formula),
                format: copy_opt_string(format),
                locale: copy_opt_string(locale),
                decimal_places: *decimal_places,
                bold: *bold,
                colspan: *colspan,
                rowspan: *rowspan,
                fill: copy_opt_string(fill),
            },
        }
    }
}

pub fn duplicate_cells(v: &[TableCellContent]) -> (r: Vec<TableCellContent>)
    ensures
        r@ == v@,
{
    let mut r: Vec<TableCellContent> = Vec::new();
    for i in 0..v.len()
        invariant
            r@ == v@.take(i as int),
    {
        r.push(v[i].duplicate());
        assert(v@.take(i + 1) =~= v@.take(i as int).push(v@[i as int]));
    }
    assert(v@.take(v@.len() as int) =~= v@);
    r
}

/// A table style as plain values.
pub ghost struct StyleV {
    pub width: Option<Seq<char>>,
    pub columns: Option<Seq<Seq<char>>>,
    pub inset: Option<Seq<char>>,
    pub stroke: Option<Seq<char>>,
    pub header_bg: Option<Seq<char>>,
    pub column_align: Option<Seq<Seq<char>>>,
    pub repeat_header: Option<bool>,
    pub striped_rows: Option<Seq<Seq<char>>>,
}

pub open spec fn opt_text(o: Option<String>) -> Option<Seq<char>> {
    match o {
        Some(s) => Some(s@),
        None => None,
    }
}

pub open spec fn opt_texts(o: Option<Vec<String>>) -> Option<Seq<Seq<char>>> {
    match o {
        Some(v) => Some(crate::text::strings_view(v@)),
        None => None,
    }
}

pub open spec fn style_view(s: TableStyle) -> StyleV {
    StyleV {
        width: opt_text(s.width),
        columns: opt_texts(s.columns),
        inset: opt_text(s.inset),
        stroke: opt_text(s.stroke),
        header_bg: opt_text(s.header_bg),
        column_align: opt_texts(s.column_align),
        repeat_header: s.repeat_header,
        striped_rows: opt_texts(s.striped_rows),
    }
}

pub open spec fn opt_style_view(s: Option<TableStyle>) -> Option<StyleV> {
    match s {
        Some(x) => Some(style_view(x)),
        None => None,
    }
}

pub fn duplicate_style(s: &Option<TableStyle>) -> (r: Option<TableStyle>)
    ensures
        opt_style_view(r) == opt_style_view(*s),
{
    match s {
        Some(x) => Some(x.duplicate()),
        None => None,
    }
}

impl TableStyle {
    /// A copy with the same field values; the string lists are equal
    /// element by element.
    pub fn duplicate(&self) -> (r: TableStyle)
        ensures
            r.width == self.width,
            same_strings(r.columns, self.columns),
            r.inset == self.inset,
            r.stroke == self.stroke,
            r.header_bg == self.header_bg,
            same_strings(r.column_align, self.column_align),
            r.repeat_header == self.repeat_header,
            same_strings(r.striped_rows, self.striped_rows),
            style_view(r) == style_view(*self),
    {
        TableStyle {
            width: copy_opt_string(&self.width),
            columns: copy_opt_strings(&self.columns),
            inset: copy_opt_string(&self.inset),
            stroke: copy_opt_string(&self.stroke),
            header_bg: copy_opt_string(&self.header_bg),
            column_align: copy_opt_strings(&self.column_align),
            repeat_header: self.repeat_header,
            striped_rows: copy_opt_strings(&self.striped_rows),
        }
    }
}

} // verus!
