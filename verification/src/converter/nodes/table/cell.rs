//! Table cells as Typst markup.
use vstd::prelude::*;
use crate::converter::context::{
    color_expr, color_spec, escape_typst, resolve_variable_to_typst, typst_escape, variable_code,
};
use crate::domain::{opt_style_view, StyleV, TableCellContent, TableStyle};
use crate::json::{entries_get, entries_lookup, json_text, to_json_string, Json};
use crate::text::{
    chars_of, decimal, fill_value, fill_value_spec, push_decimal, push_str, str_eq, string_from,
};

verus! {

broadcast use vstd::string::group_string_axioms;

/// What evaluating a formula cell gave: the raw result text, and, when
/// that text is a number, the number formatted for the cell's locale and
/// decimal places.
pub struct FormulaOutcome {
    pub raw: String,
    pub number: Option<String>,
}

pub open spec fn column_align(style: Option<StyleV>, idx: int) -> Option<Seq<char>> {
    match style {
        Some(s) => match s.column_align {
            Some(a) => if 0 <= idx < a.len() {
                Some(a[idx])
            } else {
                None
            },
            None => None,
        },
        None => None,
    }
}

/// A cell's content aligned as its column asks: `right` or `center`.
pub open spec fn align_cell(content: Seq<char>, style: Option<StyleV>, idx: int) -> Seq<char> {
    if column_align(style, idx) == Some("right"@) {
        "#align(right)["@ + content + "]"@
    } else if column_align(style, idx) == Some("center"@) {
        "#align(center)["@ + content + "]"@
    } else {
        content
    }
}

pub open spec fn bold_if(bold: Option<bool>, text: Seq<char>) -> Seq<char> {
    if bold == Some(true) {
        "*"@ + text + "*"@
    } else {
        text
    }
}

pub open spec fn cell_bold(cell: TableCellContent) -> Option<bool> {
    match cell {
        TableCellContent::Variable { bold, .. } => bold,
        TableCellContent::Text { bold, .. } => bold,
        TableCellContent::Formula { bold, .. } => bold,
    }
}

fn align_exec(content: &str, style: &Option<TableStyle>, idx: usize) -> (r: String)
    ensures
        r@ == align_cell(content@, opt_style_view(*style), idx as int),
{
    proof {
        reveal_strlit("right");
        reveal_strlit("center");
    }
    let a: Option<&String> = match style {
        Some(s) => match &s.column_align {
            Some(v) => if idx < v.len() {
                Some(&v[idx])
            } else {
                None
            },
            None => None,
        },
        None => None,
    };
    let (right, center) = match a {
        Some(x) => (str_eq(x.as_str(), "right"), str_eq(x.as_str(), "center")),
        None => (false, false),
    };
    if right {
        let mut out = string_from("#align(right)[");
        push_str(&mut out, content);
        push_str(&mut out, "]");
        out
    } else if center {
        let mut out = string_from("#align(center)[");
        push_str(&mut out, content);
        push_str(&mut out, "]");
        out
    } else {
        string_from(content)
    }
}

pub fn wrap_cell_align(content: &str, style: &Option<TableStyle>, idx: usize) -> (r: String)
    ensures
        r@ == align_cell(content@, opt_style_view(*style), idx as int),
{
    align_exec(content, style, idx)
}

fn bold_exec(bold: Option<bool>, text: String) -> (r: String)
    ensures
        r@ == bold_if(bold, text@),
{
    if bold == Some(true) {
        let mut out = string_from("*");
        push_str(&mut out, text.as_str());
        push_str(&mut out, "*");
        out
    } else {
        text
    }
}

pub open spec fn is_index_key(key: Seq<char>) -> bool {
    key == "__index"@ || key == "__index_0"@
}

/// A static-row cell: a variable is read when the document is compiled
/// (the row-index keys show `0`), text and formulas are shown as escaped
/// text.
pub open spec fn static_cell(cell: TableCellContent, style: Option<StyleV>, idx: int) -> Seq<char> {
    let value = match cell {
        TableCellContent::Variable { key, .. } => if is_index_key(key@) {
            "0"@
        } else {
            variable_code(key@)
        },
        TableCellContent::Text { text, .. } => typst_escape(text@),
        TableCellContent::Formula { formula, .. } => typst_escape(formula@),
    };
    bold_if(cell_bold(cell), align_cell(value, style, idx))
}

fn is_index(key: &str) -> (r: bool)
    ensures
        r == is_index_key(key@),
{
    str_eq(key, "__index") || str_eq(key, "__index_0")
}

pub fn render_static_cell(cell: &TableCellContent, style: &Option<TableStyle>, col_idx: usize) -> (r:
    String)
    ensures
        r@ == static_cell(*cell, opt_style_view(*style), col_idx as int),
{
    let (value, bold) = match cell {
        TableCellContent::Variable { key, bold, .. } => {
            let v = if is_index(key.as_str()) {
                proof {
                    reveal_strlit("0");
                }
                string_from("0")
            } else {
                resolve_variable_to_typst(key.as_str())
            };
            (v, *bold)
        },
        TableCellContent::Text { text, bold, .. } => (escape_typst(text.as_str()), *bold),
        TableCellContent::Formula { formula, bold, .. } => (escape_typst(formula.as_str()), *bold),
    };
    let wrapped = align_exec(value.as_str(), style, col_idx);
    bold_exec(bold, wrapped)
}

/// The value a row holds under `key` (the key itself, not a path).
pub open spec fn row_get(row: Json, key: Seq<char>) -> Option<Json> {
    match row {
        Json::Object(entries) => entries_get(entries@, key),
        _ => None,
    }
}

/// A row value as cell text: text as it is, numbers and booleans as they
/// print, anything else as its JSON text.
pub open spec fn row_value_text(v: Json) -> Seq<char> {
    match v {
        Json::Str(s) => s@,
        Json::Number(n) => n@,
        Json::Bool(b) => if b {
            "true"@
        } else {
            "false"@
        },
        _ => json_text(v),
    }
}

/// The text a formula cell shows: the formatted number when the result
/// was a number, else the raw result, put in place of each `{value}` or
/// `{value:spec}` placeholder in the cell's format when it has one.
pub open spec fn formula_text(format: Option<String>, outcome: FormulaOutcome) -> Seq<char> {
    let value = match outcome.number {
        Some(n) => n@,
        None => outcome.raw@,
    };
    match format {
        Some(f) => fill_value_spec(f@, value),
        None => value,
    }
}

/// [`formula_text`] of the outcome; a formula cell with no outcome shows
/// an empty result.
pub open spec fn formula_opt_text(format: Option<String>, outcome: Option<FormulaOutcome>) -> Seq<
    char,
> {
    match outcome {
        Some(o) => formula_text(format, o),
        None => match format {
            Some(f) => fill_value_spec(f@, Seq::empty()),
            None => Seq::empty(),
        },
    }
}

/// A cell of a loop row: the row-index keys give the 1-based or 0-based
/// index, other keys the row's value (or `[MISSING: key]`); every value is
/// escaped.
pub open spec fn loop_cell(
    cell: TableCellContent,
    style: Option<StyleV>,
    idx: int,
    row: Json,
    row_index: nat,
    outcome: Option<FormulaOutcome>,
) -> Seq<char> {
    let value = match cell {
        TableCellContent::Variable { key, .. } => if key@ == "__index"@ {
            decimal(row_index + 1)
        } else if key@ == "__index_0"@ {
            decimal(row_index)
        } else {
            match row_get(row, key@) {
                Some(v) => row_value_text(v),
                None => "[MISSING: "@ + key@ + "]"@,
            }
        },
        TableCellContent::Text { text, .. } => text@,
        TableCellContent::Formula { format, .. } => formula_opt_text(format, outcome),
    };
    bold_if(cell_bold(cell), align_cell(typst_escape(value), style, idx))
}

fn row_lookup<'a>(row: &'a Json, key: &str) -> (r: Option<&'a Json>)
    ensures
        match r {
            Some(v) => row_get(*row, key@) == Some(*v),
            None => row_get(*row, key@) is None,
        },
{
    match row {
        Json::Object(entries) => {
            let k = chars_of(key);
            entries_lookup(entries, k.as_slice())
        },
        _ => None,
    }
}

fn formula_exec(format: &Option<String>, outcome: &FormulaOutcome) -> (r: String)
    ensures
        r@ == formula_text(*format, *outcome),
{
    let value = match &outcome.number {
        Some(n) => n.clone(),
        None => outcome.raw.clone(),
    };
    match format {
        Some(f) => fill_value(f.as_str(), value.as_str()),
        None => value,
    }
}

fn formula_opt_exec(format: &Option<String>, outcome: &Option<FormulaOutcome>) -> (r: String)
    ensures
        r@ == formula_opt_text(*format, *outcome),
{
    match outcome {
        Some(o) => formula_exec(format, o),
        None => {
            let empty = FormulaOutcome { raw: String::new(), number: None };
            let r = formula_exec(format, &empty);
            assert(r@ == formula_opt_text(*format, *outcome));
            r
        },
    }
}

pub fn render_loop_cell(
    cell: &TableCellContent,
    style: &Option<TableStyle>,
    col_idx: usize,
    current_row: &Json,
    row_index: usize,
    outcome: &Option<FormulaOutcome>,
) -> (r: String)
    requires
        row_index < usize::MAX,
    ensures
        r@ == loop_cell(
            *cell,
            opt_style_view(*style),
            col_idx as int,
            *current_row,
            row_index as nat,
            *outcome,
        ),
{
    proof {
        reveal_strlit("__index");
        reveal_strlit("__index_0");
    }
    let (value, bold) = match cell {
        TableCellContent::Variable { key, bold, .. } => {
            let v = if str_eq(key.as_str(), "__index") {
                crate::text::decimal_string(row_index + 1)
            } else if str_eq(key.as_str(), "__index_0") {
                crate::text::decimal_string(row_index)
            } else {
                match row_lookup(current_row, key.as_str()) {
                    Some(x) => match x {
                        Json::Str(s) => s.clone(),
                        Json::Number(n) => n.clone(),
                        Json::Bool(b) => string_from(crate::converter::context::bool_text(*b)),
                        _ => to_json_string(x),
                    },
                    None => {
                        let mut m = string_from("[MISSING: ");
                        push_str(&mut m, key.as_str());
                        push_str(&mut m, "]");
                        m
                    },
                }
            };
            (v, *bold)
        },
        TableCellContent::Text { text, bold, .. } => (text.clone(), *bold),
        TableCellContent::Formula { format, bold, .. } => {
            (formula_opt_exec(format, outcome), *bold)
        },
    };
    let escaped = escape_typst(value.as_str());
    let wrapped = align_exec(escaped.as_str(), style, col_idx);
    bold_exec(bold, wrapped)
}

/// A footer cell: variables are read when the document is compiled, text
/// is escaped, formulas show their result.
pub open spec fn footer_cell(
    cell: TableCellContent,
    style: Option<StyleV>,
    idx: int,
    outcome: Option<FormulaOutcome>,
) -> Seq<char> {
    let value = match cell {
        TableCellContent::Variable { key, .. } => variable_code(key@),
        TableCellContent::Text { text, .. } => typst_escape(text@),
        TableCellContent::Formula { format, .. } => typst_escape(formula_opt_text(format, outcome)),
    };
    bold_if(cell_bold(cell), align_cell(value, style, idx))
}

pub fn render_footer_cell(
    cell: &TableCellContent,
    style: &Option<TableStyle>,
    col_idx: usize,
    outcome: &Option<FormulaOutcome>,
) -> (r: String)
    ensures
        r@ == footer_cell(*cell, opt_style_view(*style), col_idx as int, *outcome),
{
    let (value, bold) = match cell {
        TableCellContent::Variable { key, bold, .. } => (
            resolve_variable_to_typst(key.as_str()),
            *bold,
        ),
        TableCellContent::Text { text, bold, .. } => (escape_typst(text.as_str()), *bold),
        TableCellContent::Formula { format, bold, .. } => {
            let t = formula_opt_exec(format, outcome);
            (escape_typst(t.as_str()), *bold)
        },
    };
    let wrapped = align_exec(value.as_str(), style, col_idx);
    bold_exec(bold, wrapped)
}

pub open spec fn cell_fill(cell: TableCellContent) -> Option<String> {
    match cell {
        TableCellContent::Variable { fill, .. } => fill,
        TableCellContent::Text { fill, .. } => fill,
        TableCellContent::Formula { fill, .. } => fill,
    }
}

pub open spec fn cell_spans(cell: TableCellContent) -> (Option<u32>, Option<u32>) {
    match cell {
        TableCellContent::Variable { colspan, rowspan, .. } => (colspan, rowspan),
        TableCellContent::Text { colspan, rowspan, .. } => (colspan, rowspan),
        TableCellContent::Formula { colspan, rowspan, .. } => (colspan, rowspan),
    }
}

/// A cell's own background, as a colour expression.
pub fn resolve_cell_fill(cell: &TableCellContent) -> (r: Option<String>)
    ensures
        match r {
            Some(s) => cell_fill(*cell) matches Some(f) && s@ == color_spec(f@),
            None => cell_fill(*cell) is None,
        },
{
    let fill = match cell {
        TableCellContent::Variable { fill, .. } => fill,
        TableCellContent::Text { fill, .. } => fill,
        TableCellContent::Formula { fill, .. } => fill,
    };
    match fill {
        Some(f) => Some(color_expr(f.as_str())),
        None => None,
    }
}

pub open spec fn span_arg(name: Seq<char>, v: Option<u32>) -> Seq<Seq<char>> {
    match v {
        Some(n) => if n > 1 {
            seq![name + ": "@ + decimal(n as nat)]
        } else {
            Seq::empty()
        },
        None => Seq::empty(),
    }
}

/// A cell's arguments: `colspan` and `rowspan` above 1, and its fill (its
/// own, else the override).
pub open spec fn cell_args(cell: TableCellContent, fill_override: Option<Seq<char>>) -> Seq<Seq<char>> {
    let (c, r) = cell_spans(cell);
    let fill = match cell_fill(cell) {
        Some(f) => Some(color_spec(f@)),
        None => fill_override,
    };
    span_arg("colspan"@, c) + span_arg("rowspan"@, r) + match fill {
        Some(f) => seq!["fill: "@ + f],
        None => Seq::empty(),
    }
}

/// A cell with no arguments is `[value]`; otherwise one
/// `table.cell(args)[value]` carries them all.
pub open spec fn span_cell(cell: TableCellContent, value: Seq<char>, fill_override: Option<Seq<char>>) -> Seq<
    char,
> {
    let args = cell_args(cell, fill_override);
    if args.len() == 0 {
        "["@ + value + "]"@
    } else {
        "table.cell("@ + crate::converter::nodes::text::join_comma(args) + ")["@ + value + "]"@
    }
}

pub fn wrap_cell_span(cell: &TableCellContent, value: &str, fill_override: Option<&str>) -> (r:
    String)
    ensures
        r@ == span_cell(
            *cell,
            value@,
            match fill_override {
                Some(f) => Some(f@),
                None => None,
            },
        ),
{
    let (colspan, rowspan) = match cell {
        TableCellContent::Variable { colspan, rowspan, .. } => (*colspan, *rowspan),
        TableCellContent::Text { colspan, rowspan, .. } => (*colspan, *rowspan),
        TableCellContent::Formula { colspan, rowspan, .. } => (*colspan, *rowspan),
    };
    let fill = match resolve_cell_fill(cell) {
        Some(f) => Some(f),
        None => match fill_override {
            Some(s) => Some(string_from(s)),
            None => None,
        },
    };
    let ghost ov = match fill_override {
        Some(f) => Some(f@),
        None => None::<Seq<char>>,
    };
    proof {
        reveal_strlit("colspan");
        reveal_strlit("rowspan");
        reveal_strlit("colspan: ");
        reveal_strlit("rowspan: ");
        reveal_strlit(": ");
    }
    let mut args: Vec<String> = Vec::new();
    assert(colspan == cell_spans(*cell).0);
    assert(crate::text::strings_view(args@) =~= Seq::<Seq<char>>::empty());
    match colspan {
        Some(c) => if c > 1 {
            let mut a = string_from("colspan: ");
            push_decimal(&mut a, c as usize);
            assert(a@ =~= "colspan"@ + ": "@ + decimal(c as nat));
            args.push(a);
            assert(crate::text::strings_view(args@) =~= seq!["colspan"@ + ": "@ + decimal(c as nat)]);
        } else {
            assert(crate::text::strings_view(args@) =~= Seq::<Seq<char>>::empty());
        },
        None => {},
    }
    assert(crate::text::strings_view(args@) =~= span_arg("colspan"@, cell_spans(*cell).0));
    let ghost a1 = args@;
    assert(rowspan == cell_spans(*cell).1);
    match rowspan {
        Some(r) => if r > 1 {
            let mut a = string_from("rowspan: ");
            push_decimal(&mut a, r as usize);
            assert(a@ =~= "rowspan"@ + ": "@ + decimal(r as nat));
            args.push(a);
            assert(crate::text::strings_view(args@) =~= crate::text::strings_view(a1) + seq![
                "rowspan"@ + ": "@ + decimal(r as nat),
            ]);
        } else {
            assert(crate::text::strings_view(args@) =~= crate::text::strings_view(a1));
        },
        None => {
            assert(crate::text::strings_view(args@) =~= crate::text::strings_view(a1));
        },
    }
    assert(crate::text::strings_view(args@) =~= crate::text::strings_view(a1) + span_arg(
        "rowspan"@,
        cell_spans(*cell).1,
    ));
    let ghost a2 = args@;
    let ghost fillv = match cell_fill(*cell) {
        Some(f) => Some(color_spec(f@)),
        None => ov,
    };
    assert(match fill {
        Some(f) => fillv == Some(f@),
        None => fillv is None,
    });
    match &fill {
        Some(f) => {
            let mut a = string_from("fill: ");
            push_str(&mut a, f.as_str());
            args.push(a);
            assert(crate::text::strings_view(args@) =~= crate::text::strings_view(a2) + seq![
                "fill: "@ + f@,
            ]);
        },
        None => {
            assert(crate::text::strings_view(args@) =~= crate::text::strings_view(a2));
        },
    }
    assert(crate::text::strings_view(args@) =~= crate::text::strings_view(a2) + match fillv {
        Some(f) => seq!["fill: "@ + f],
        None => Seq::<Seq<char>>::empty(),
    });
    assert(crate::text::strings_view(args@) =~= cell_args(*cell, ov));
    if args.len() == 0 {
        let mut out = string_from("[");
        push_str(&mut out, value);
        push_str(&mut out, "]");
        out
    } else {
        let joined = crate::converter::nodes::text::join_strings(&args);
        let mut out = string_from("table.cell(");
        push_str(&mut out, joined.as_str());
        push_str(&mut out, ")[");
        push_str(&mut out, value);
        push_str(&mut out, "]");
        out
    }
}

} // verus!
