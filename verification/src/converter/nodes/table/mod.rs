//! Tables. The static part of a table (columns, headers, static rows) is
//! built into the layout; loop rows and footers depend on the document's
//! data, so the layout holds a placeholder token for each and records a
//! request that is resolved for every document.
pub mod cell;
pub mod formula;

use vstd::prelude::*;
use crate::converter::context::{
    color_expr, color_spec, escape_typst, safe_token, safe_typst_token, typst_escape,
};
use crate::converter::nodes::text::{join_comma, join_strings};
use crate::domain::{
    duplicate_cells, duplicate_style, opt_style_view, opt_text, StyleV, TableCellContent, TableStyle,
};
use crate::json::{value_at, value_at_path, Json};
use crate::text::{copy_opt_string, decimal, push_decimal, push_str, str_eq, string_from};
use self::cell::{
    align_cell, footer_cell, loop_cell, render_footer_cell, render_loop_cell, render_static_cell,
    span_cell, static_cell, wrap_cell_span, FormulaOutcome,
};

verus! {

broadcast use vstd::string::group_string_axioms;

/// A table fragment that depends on the document's data.
#[allow(inconsistent_fields)]
pub enum TableRequest {
    Rows {
        token: String,
        loop_data: String,
        row_template: Vec<TableCellContent>,
        style: Option<TableStyle>,
    },
    Footer {
        token: String,
        footer: Vec<TableCellContent>,
        loop_data: Option<String>,
        style: Option<TableStyle>,
    },
}

#[allow(inconsistent_fields)]
pub ghost enum TableRequestV {
    Rows {
        token: Seq<char>,
        loop_data: Seq<char>,
        row_template: Seq<TableCellContent>,
        style: Option<StyleV>,
    },
    Footer {
        token: Seq<char>,
        footer: Seq<TableCellContent>,
        loop_data: Option<Seq<char>>,
        style: Option<StyleV>,
    },
}

pub open spec fn table_request_view(r: TableRequest) -> TableRequestV {
    match r {
        TableRequest::Rows { token, loop_data, row_template, style } => TableRequestV::Rows {
            token: token@,
            loop_data: loop_data@,
            row_template: row_template@,
            style: opt_style_view(style),
        },
        TableRequest::Footer { token, footer, loop_data, style } => TableRequestV::Footer {
            token: token@,
            footer: footer@,
            loop_data: opt_text(loop_data),
            style: opt_style_view(style),
        },
    }
}

pub open spec fn table_requests_view(rs: Seq<TableRequest>) -> Seq<TableRequestV> {
    Seq::new(rs.len(), |i: int| table_request_view(rs[i]))
}

// ---------------------------------------------------------------
// The static structure
// ---------------------------------------------------------------

pub open spec fn column_count(
    headers: Option<Vec<String>>,
    rows: Option<Vec<Vec<TableCellContent>>>,
    row_template: Option<Vec<TableCellContent>>,
) -> nat {
    match headers {
        Some(h) => h@.len(),
        None => match row_template {
            Some(t) => t@.len(),
            None => match rows {
                Some(r) => if r@.len() > 0 {
                    r@[0]@.len()
                } else {
                    1
                },
                None => 1,
            },
        },
    }
}

pub open spec fn repeat_text(t: Seq<char>, n: nat) -> Seq<Seq<char>> {
    Seq::new(n, |i: int| t)
}

pub open spec fn column_defs(style: Option<StyleV>, count: nat) -> Seq<char> {
    match style {
        Some(s) => match s.columns {
            Some(cols) => join_comma(Seq::new(cols.len(), |i: int| safe_token(cols[i], "1fr"@))),
            None => join_comma(repeat_text("1fr"@, count)),
        },
        None => join_comma(repeat_text("1fr"@, count)),
    }
}

pub open spec fn style_field(style: Option<StyleV>, f: spec_fn(StyleV) -> Option<Seq<char>>) -> Option<
    Seq<char>,
> {
    match style {
        Some(s) => f(s),
        None => None,
    }
}

pub open spec fn or_text(o: Option<Seq<char>>, d: Seq<char>) -> Seq<char> {
    match o {
        Some(s) => s,
        None => d,
    }
}

pub open spec fn stripes_of(style: Option<StyleV>) -> Option<Seq<Seq<char>>> {
    match style {
        Some(s) => s.striped_rows,
        None => None,
    }
}

pub open spec fn header_bg_of(style: Option<StyleV>) -> Option<Seq<char>> {
    match style {
        Some(s) => s.header_bg,
        None => None,
    }
}

pub open spec fn repeat_of(style: Option<StyleV>) -> bool {
    match style {
        Some(s) => s.repeat_header == Some(true),
        None => false,
    }
}

/// The `fill` function that stripes rows, when stripe colours are given.
pub open spec fn fill_line(style: Option<StyleV>, has_header: bool) -> Seq<char> {
    match stripes_of(style) {
        Some(stripes) => if stripes.len() > 0 {
            let colors = Seq::new(stripes.len(), |i: int| color_spec(stripes[i]));
            let header = match header_bg_of(style) {
                Some(bg) => color_spec(bg),
                None => colors[0],
            };
            "  fill: (col, row) => if "@ + (if has_header {
                "true"@
            } else {
                "false"@
            }) + " and row == 0 { "@ + header + " } else { let stripes = ("@ + join_comma(colors)
                + ",); stripes.at(calc.rem(row - "@ + (if has_header {
                "1"@
            } else {
                "0"@
            }) + ", stripes.len())) },\n"@
        } else {
            Seq::empty()
        },
        None => Seq::empty(),
    }
}

pub open spec fn header_cell(h: Seq<char>, style: Option<StyleV>, idx: int) -> Seq<char> {
    let aligned = align_cell(typst_escape(h), style, idx);
    if stripes_of(style) is Some {
        "    [*"@ + aligned + "*],\n"@
    } else {
        match header_bg_of(style) {
            Some(bg) => "    [#table.cell(fill: "@ + color_spec(bg) + ")[*"@ + aligned + "*]],\n"@,
            None => "    [*"@ + aligned + "*],\n"@,
        }
    }
}

pub open spec fn header_cells(hs: Seq<String>, style: Option<StyleV>, n: int) -> Seq<char>
    decreases n,
{
    if n <= 0 || n > hs.len() {
        Seq::empty()
    } else {
        header_cells(hs, style, n - 1) + header_cell(hs[n - 1]@, style, n - 1)
    }
}

pub open spec fn header_block(headers: Option<Vec<String>>, style: Option<StyleV>) -> Seq<char> {
    match headers {
        Some(h) => {
            let cells = header_cells(h@, style, h@.len() as int);
            if repeat_of(style) {
                "  table.header(\n"@ + cells + "  ),\n"@
            } else {
                cells
            }
        },
        None => Seq::empty(),
    }
}

pub open spec fn static_row(row: Seq<TableCellContent>, style: Option<StyleV>, n: int) -> Seq<char>
    decreases n,
{
    if n <= 0 || n > row.len() {
        Seq::empty()
    } else {
        static_row(row, style, n - 1) + "  "@ + span_cell(
            row[n - 1],
            static_cell(row[n - 1], style, n - 1),
            None,
        ) + ",\n"@
    }
}

pub open spec fn static_rows(rows: Seq<Vec<TableCellContent>>, style: Option<StyleV>, n: int) -> Seq<
    char,
>
    decreases n,
{
    if n <= 0 || n > rows.len() {
        Seq::empty()
    } else {
        static_rows(rows, style, n - 1) + static_row(rows[n - 1]@, style, rows[n - 1]@.len() as int)
    }
}

pub open spec fn rows_token(n: nat) -> Seq<char> {
    "@@TABLE_ROWS_"@ + decimal(n) + "@@"@
}

pub open spec fn footer_token(n: nat) -> Seq<char> {
    "@@TABLE_FOOTER_"@ + decimal(n) + "@@"@
}

pub open spec fn has_loop(loop_data: Option<String>, row_template: Option<Vec<TableCellContent>>) -> bool {
    loop_data is Some && row_template is Some
}

/// The requests a table records after `n` earlier ones: its loop rows when
/// it has a loop path and a row template, then its footer.
pub open spec fn table_new_requests(
    n: nat,
    loop_data: Option<String>,
    row_template: Option<Vec<TableCellContent>>,
    footer: Option<Vec<TableCellContent>>,
    style: Option<StyleV>,
) -> Seq<TableRequestV> {
    let rows = if has_loop(loop_data, row_template) {
        seq![
            TableRequestV::Rows {
                token: rows_token(n),
                loop_data: loop_data->0@,
                row_template: row_template->0@,
                style,
            },
        ]
    } else {
        Seq::empty()
    };
    let m = n + rows.len();
    let foot = match footer {
        Some(f) => seq![
            TableRequestV::Footer {
                token: footer_token(m),
                footer: f@,
                loop_data: opt_text(loop_data),
                style,
            },
        ],
        None => Seq::empty(),
    };
    rows + foot
}

pub open spec fn table_head(style: Option<StyleV>, count: nat) -> Seq<char> {
    let inset = safe_token(or_text(style_field(style, |s: StyleV| s.inset), "8pt"@), "8pt"@);
    let stroke_raw = or_text(style_field(style, |s: StyleV| s.stroke), "0.5pt"@);
    let stroke = if stroke_raw == "none"@ {
        "none"@
    } else {
        safe_token(stroke_raw, "0.5pt"@)
    };
    "#table(\n"@ + "  columns: ("@ + column_defs(style, count) + "),\n"@ + "  inset: "@ + inset
        + ",\n"@ + "  stroke: "@ + stroke + ",\n"@
}

/// The placeholder lines of a table's requests, `n` requests having been
/// recorded before it.
pub open spec fn token_lines(
    n: nat,
    loop_data: Option<String>,
    row_template: Option<Vec<TableCellContent>>,
    footer: Option<Vec<TableCellContent>>,
) -> Seq<char> {
    let loop_line = if has_loop(loop_data, row_template) {
        "  "@ + rows_token(n) + "\n"@
    } else {
        Seq::empty()
    };
    let m = if has_loop(loop_data, row_template) {
        n + 1
    } else {
        n
    };
    let footer_line = if footer is Some {
        "  "@ + footer_token(m) + "\n"@
    } else {
        Seq::empty()
    };
    loop_line + footer_line
}

pub open spec fn style_width(style: Option<StyleV>) -> Option<Seq<char>> {
    match style {
        Some(s) => s.width,
        None => None,
    }
}

/// The table's markup; `n` requests were recorded before it.
pub open spec fn table_markup(
    headers: Option<Vec<String>>,
    rows: Option<Vec<Vec<TableCellContent>>>,
    loop_data: Option<String>,
    row_template: Option<Vec<TableCellContent>>,
    footer: Option<Vec<TableCellContent>>,
    style: Option<StyleV>,
    n: nat,
) -> Seq<char> {
    let body = table_head(style, column_count(headers, rows, row_template)) + fill_line(
        style,
        headers is Some,
    ) + header_block(headers, style) + match rows {
        Some(r) => static_rows(r@, style, r@.len() as int),
        None => Seq::empty(),
    } + token_lines(n, loop_data, row_template, footer) + ")\n"@;
    match style_width(style) {
        Some(w) => "#block(width: "@ + safe_token(w, "100%"@) + ")[\n"@ + body + "\n]"@,
        None => body,
    }
}

} // verus!

verus! {

/// A table with headers whose style sets neither columns nor a width
/// starts with one `1fr` column per header: `#table(\n  columns: (1fr,
/// 1fr, ...),\n`.
#[verifier::rlimit(50)]
pub proof fn law_one_column_per_header(
    headers: Vec<String>,
    rows: Option<Vec<Vec<TableCellContent>>>,
    loop_data: Option<String>,
    row_template: Option<Vec<TableCellContent>>,
    footer: Option<Vec<TableCellContent>>,
    style: Option<StyleV>,
    n: nat,
)
    requires
        style_width(style) is None,
        style matches Some(s) ==> s.columns is None,
    ensures
        ({
            let head = "#table(\n"@ + "  columns: ("@ + join_comma(
                Seq::new(headers@.len(), |i: int| "1fr"@),
            ) + "),\n"@;
            let m = table_markup(Some(headers), rows, loop_data, row_template, footer, style, n);
            head.len() <= m.len() && m.take(head.len() as int) == head
        }),
{
    let head = "#table(\n"@ + "  columns: ("@ + join_comma(Seq::new(headers@.len(), |i: int| "1fr"@))
        + "),\n"@;
    assert(repeat_text("1fr"@, headers@.len()) =~= Seq::new(headers@.len(), |i: int| "1fr"@));
    assert(column_defs(style, headers@.len()) == join_comma(Seq::new(headers@.len(), |i: int| "1fr"@)));
    let m = table_markup(Some(headers), rows, loop_data, row_template, footer, style, n);
    let th = table_head(style, headers@.len());
    let inset = safe_token(or_text(style_field(style, |s: StyleV| s.inset), "8pt"@), "8pt"@);
    let stroke_raw = or_text(style_field(style, |s: StyleV| s.stroke), "0.5pt"@);
    let stroke = if stroke_raw == "none"@ {
        "none"@
    } else {
        safe_token(stroke_raw, "0.5pt"@)
    };
    let tail = "  inset: "@ + inset + ",\n"@ + "  stroke: "@ + stroke + ",\n"@;
    assert(th =~= head + tail);
    let rest = m.skip(th.len() as int);
    assert(m =~= th + rest);
    assert(m.take(head.len() as int) =~= head);
}

fn push_column_defs(out: &mut String, style: &Option<TableStyle>, count: usize)
    ensures
        final(out)@ == old(out)@ + column_defs(opt_style_view(*style), count as nat),
{
    let ghost sv = opt_style_view(*style);
    let mut parts: Vec<String> = Vec::new();
    let cols: Option<&Vec<String>> = match style {
        Some(s) => match &s.columns {
            Some(c) => Some(c),
            None => None,
        },
        None => None,
    };
    match cols {
        Some(c) => {
            let ghost cv = crate::text::strings_view(c@);
            for i in 0..c.len()
                invariant
                    cv == crate::text::strings_view(c@),
                    crate::text::strings_view(parts@) == Seq::new(
                        i as nat,
                        |k: int| safe_token(cv[k], "1fr"@),
                    ),
            {
                let x = safe_typst_token(c[i].as_str(), "1fr");
                let ghost before = parts@;
                let ghost gx = x;
                parts.push(x);
                proof {
                    crate::text::lemma_strings_view_push(before, gx);
                }
                assert(crate::text::strings_view(parts@) =~= Seq::new(
                    (i + 1) as nat,
                    |k: int| safe_token(cv[k], "1fr"@),
                ));
            }
        },
        None => {
            for i in 0..count
                invariant
                    crate::text::strings_view(parts@) == repeat_text("1fr"@, i as nat),
            {
                let x = string_from("1fr");
                let ghost before = parts@;
                let ghost gx = x;
                parts.push(x);
                proof {
                    crate::text::lemma_strings_view_push(before, gx);
                }
                assert(crate::text::strings_view(parts@) =~= repeat_text("1fr"@, (i + 1) as nat));
            }
        },
    }
    let joined = join_strings(&parts);
    push_str(out, joined.as_str());
}

fn push_fill_line(out: &mut String, style: &Option<TableStyle>, has_header: bool)
    ensures
        final(out)@ == old(out)@ + fill_line(opt_style_view(*style), has_header),
{
    let ghost sv = opt_style_view(*style);
    let stripes: Option<&Vec<String>> = match style {
        Some(s) => match &s.striped_rows {
            Some(c) => Some(c),
            None => None,
        },
        None => None,
    };
    match stripes {
        Some(st) => {
            if st.len() > 0 {
                let ghost sc = crate::text::strings_view(st@);
                let mut colors: Vec<String> = Vec::new();
                for i in 0..st.len()
                    invariant
                        sc == crate::text::strings_view(st@),
                        crate::text::strings_view(colors@) == Seq::new(
                            i as nat,
                            |k: int| color_spec(sc[k]),
                        ),
                {
                    let x = color_expr(st[i].as_str());
                    let ghost before = colors@;
                    let ghost gx = x;
                    colors.push(x);
                    proof {
                        crate::text::lemma_strings_view_push(before, gx);
                    }
                    assert(crate::text::strings_view(colors@) =~= Seq::new(
                        (i + 1) as nat,
                        |k: int| color_spec(sc[k]),
                    ));
                }
                let header = match style {
                    Some(s) => match &s.header_bg {
                        Some(bg) => color_expr(bg.as_str()),
                        None => colors[0].clone(),
                    },
                    None => colors[0].clone(),
                };
                assert(crate::text::strings_view(colors@)[0] == colors@[0]@);
                let joined = join_strings(&colors);
                push_str(out, "  fill: (col, row) => if ");
                push_str(out, crate::converter::context::bool_text(has_header));
                push_str(out, " and row == 0 { ");
                push_str(out, header.as_str());
                push_str(out, " } else { let stripes = (");
                push_str(out, joined.as_str());
                push_str(out, ",); stripes.at(calc.rem(row - ");
                push_str(out, if has_header { "1" } else { "0" });
                push_str(out, ", stripes.len())) },\n");
                let ghost colv = Seq::new(sc.len(), |k: int| color_spec(sc[k]));
                assert(crate::text::strings_view(colors@) =~= colv);
            }
        },
        None => {},
    }
}

fn push_header_cell(out: &mut String, h: &str, style: &Option<TableStyle>, idx: usize)
    ensures
        final(out)@ == old(out)@ + header_cell(h@, opt_style_view(*style), idx as int),
{
    let esc = escape_typst(h);
    let aligned = cell::wrap_cell_align(esc.as_str(), style, idx);
    let striped = match style {
        Some(s) => match &s.striped_rows {
            Some(_) => true,
            None => false,
        },
        None => false,
    };
    let bg: Option<&String> = match style {
        Some(s) => match &s.header_bg {
            Some(b) => Some(b),
            None => None,
        },
        None => None,
    };
    if striped {
        push_str(out, "    [*");
        push_str(out, aligned.as_str());
        push_str(out, "*],\n");
    } else {
        match bg {
            Some(b) => {
                push_str(out, "    [#table.cell(fill: ");
                push_str(out, color_expr(b.as_str()).as_str());
                push_str(out, ")[*");
                push_str(out, aligned.as_str());
                push_str(out, "*]],\n");
            },
            None => {
                push_str(out, "    [*");
                push_str(out, aligned.as_str());
                push_str(out, "*],\n");
            },
        }
    }
}

fn push_headers(out: &mut String, headers: &Option<Vec<String>>, style: &Option<TableStyle>)
    ensures
        final(out)@ == old(out)@ + header_block(*headers, opt_style_view(*style)),
{
    let repeat = match style {
        Some(s) => s.repeat_header == Some(true),
        None => false,
    };
    match headers {
        Some(h) => {
            let ghost start = out@;
            if repeat {
                push_str(out, "  table.header(\n");
            }
            let ghost mid = out@;
            for i in 0..h.len()
                invariant
                    out@ == mid + header_cells(h@, opt_style_view(*style), i as int),
            {
                push_header_cell(out, h[i].as_str(), style, i);
            }
            if repeat {
                push_str(out, "  ),\n");
            }
            assert(out@ =~= start + header_block(*headers, opt_style_view(*style)));
        },
        None => {},
    }
}

fn push_static_rows(out: &mut String, rows: &Option<Vec<Vec<TableCellContent>>>, style: &Option<TableStyle>)
    ensures
        final(out)@ == old(out)@ + match *rows {
            Some(r) => static_rows(r@, opt_style_view(*style), r@.len() as int),
            None => Seq::empty(),
        },
{
    let ghost sv = opt_style_view(*style);
    match rows {
        Some(rs) => {
            let ghost start = out@;
            for i in 0..rs.len()
                invariant
                    out@ == start + static_rows(rs@, sv, i as int),
                    sv == opt_style_view(*style),
            {
                let row = &rs[i];
                let ghost before = out@;
                for j in 0..row.len()
                    invariant
                        out@ == before + static_row(row@, sv, j as int),
                        sv == opt_style_view(*style),
                {
                    let v = render_static_cell(&row[j], style, j);
                    let w = wrap_cell_span(&row[j], v.as_str(), None);
                    push_str(out, "  ");
                    push_str(out, w.as_str());
                    push_str(out, ",\n");
                    assert(out@ =~= before + static_row(row@, sv, j + 1));
                }
                assert(out@ =~= start + static_rows(rs@, sv, i + 1));
            }
        },
        None => {
            assert(out@ =~= old(out)@ + Seq::<char>::empty());
        },
    }
}

} // verus!

verus! {

fn make_token(prefix: &str, n: usize) -> (r: String)
    ensures
        r@ == prefix@ + decimal(n as nat) + "@@"@,
{
    let mut t = string_from(prefix);
    push_decimal(&mut t, n);
    push_str(&mut t, "@@");
    t
}

fn push_table_head(code: &mut String, style: &Option<TableStyle>, count: usize)
    ensures
        final(code)@ == old(code)@ + table_head(opt_style_view(*style), count as nat),
{
    let ghost start = code@;
    push_str(code, "#table(\n");
    push_str(code, "  columns: (");
    push_column_defs(code, style, count);
    push_str(code, "),\n");
    let inset_raw: &str = match style {
        Some(s) => match &s.inset {
            Some(i) => i.as_str(),
            None => "8pt",
        },
        None => "8pt",
    };
    let inset = safe_typst_token(inset_raw, "8pt");
    push_str(code, "  inset: ");
    push_str(code, inset.as_str());
    push_str(code, ",\n");
    let stroke_raw: &str = match style {
        Some(s) => match &s.stroke {
            Some(i) => i.as_str(),
            None => "0.5pt",
        },
        None => "0.5pt",
    };
    proof {
        reveal_strlit("none");
    }
    let stroke = if str_eq(stroke_raw, "none") {
        string_from("none")
    } else {
        safe_typst_token(stroke_raw, "0.5pt")
    };
    push_str(code, "  stroke: ");
    push_str(code, stroke.as_str());
    push_str(code, ",\n");
    assert(code@ =~= start + table_head(opt_style_view(*style), count as nat));
}

fn record_requests(
    code: &mut String,
    loop_data: &Option<String>,
    row_template: &Option<Vec<TableCellContent>>,
    footer: &Option<Vec<TableCellContent>>,
    style: &Option<TableStyle>,
    table_requests: &mut Vec<TableRequest>,
)
    ensures
        final(code)@ == old(code)@ + token_lines(
            old(table_requests)@.len(),
            *loop_data,
            *row_template,
            *footer,
        ),
        table_requests_view(final(table_requests)@) == table_requests_view(old(table_requests)@)
            + table_new_requests(
            old(table_requests)@.len(),
            *loop_data,
            *row_template,
            *footer,
            opt_style_view(*style),
        ),
{
    let ghost sv = opt_style_view(*style);
    let ghost n0 = table_requests@.len();
    let ghost old_reqs = table_requests@;
    let ghost start = code@;
    match (loop_data, row_template) {
        (Some(path), Some(template)) => {
            let token = make_token("@@TABLE_ROWS_", table_requests.len());
            let ghost prev = table_requests@;
            table_requests.push(
                TableRequest::Rows {
                    token: token.clone(),
                    loop_data: path.clone(),
                    row_template: duplicate_cells(template.as_slice()),
                    style: duplicate_style(style),
                },
            );
            assert(table_requests_view(table_requests@) =~= table_requests_view(prev).push(
                TableRequestV::Rows {
                    token: rows_token(n0),
                    loop_data: path@,
                    row_template: template@,
                    style: sv,
                },
            ));
            push_str(code, "  ");
            push_str(code, token.as_str());
            push_str(code, "\n");
        },
        _ => {},
    }
    match footer {
        Some(f) => {
            let token = make_token("@@TABLE_FOOTER_", table_requests.len());
            let ghost prev = table_requests@;
            table_requests.push(
                TableRequest::Footer {
                    token: token.clone(),
                    footer: duplicate_cells(f.as_slice()),
                    loop_data: copy_opt_string(loop_data),
                    style: duplicate_style(style),
                },
            );
            assert(table_requests_view(table_requests@) =~= table_requests_view(prev).push(
                TableRequestV::Footer {
                    token: footer_token(prev.len()),
                    footer: f@,
                    loop_data: opt_text(*loop_data),
                    style: sv,
                },
            ));
            push_str(code, "  ");
            push_str(code, token.as_str());
            push_str(code, "\n");
        },
        None => {},
    }
    assert(table_requests_view(table_requests@) =~= table_requests_view(old_reqs)
        + table_new_requests(n0, *loop_data, *row_template, *footer, sv));
    assert(code@ =~= start + token_lines(n0, *loop_data, *row_template, *footer));
}

/// The static structure of a `#table(...)`. Nothing here reads the
/// document's data: loop rows and the footer become placeholder tokens,
/// and requests for them are recorded.
pub fn format_table(
    headers: &Option<Vec<String>>,
    rows: &Option<Vec<Vec<TableCellContent>>>,
    loop_data: &Option<String>,
    row_template: &Option<Vec<TableCellContent>>,
    footer: &Option<Vec<TableCellContent>>,
    style: &Option<TableStyle>,
    table_requests: &mut Vec<TableRequest>,
) -> (r: Result<String, String>)
    ensures
        r matches Ok(s) && s@ == table_markup(
            *headers,
            *rows,
            *loop_data,
            *row_template,
            *footer,
            opt_style_view(*style),
            old(table_requests)@.len(),
        ),
        table_requests_view(final(table_requests)@) == table_requests_view(old(table_requests)@)
            + table_new_requests(
            old(table_requests)@.len(),
            *loop_data,
            *row_template,
            *footer,
            opt_style_view(*style),
        ),
{
    let ghost sv = opt_style_view(*style);
    let ghost n0 = table_requests@.len();
    let count: usize = match headers {
        Some(h) => h.len(),
        None => match row_template {
            Some(t) => t.len(),
            None => match rows {
                Some(r) => if r.len() > 0 {
                    r[0].len()
                } else {
                    1
                },
                None => 1,
            },
        },
    };
    let mut code = String::new();
    push_table_head(&mut code, style, count);
    let has_header = match headers {
        Some(_) => true,
        None => false,
    };
    push_fill_line(&mut code, style, has_header);
    push_headers(&mut code, headers, style);
    push_static_rows(&mut code, rows, style);
    record_requests(&mut code, loop_data, row_template, footer, style, table_requests);
    push_str(&mut code, ")\n");
    let width: Option<&String> = match style {
        Some(s) => match &s.width {
            Some(w) => Some(w),
            None => None,
        },
        None => None,
    };
    match width {
        Some(w) => {
            let mut wrapped = string_from("#block(width: ");
            push_str(&mut wrapped, safe_typst_token(w.as_str(), "100%").as_str());
            push_str(&mut wrapped, ")[\n");
            push_str(&mut wrapped, code.as_str());
            push_str(&mut wrapped, "\n]");
            code = wrapped;
        },
        None => {},
    }
    assert(code@ =~= table_markup(*headers, *rows, *loop_data, *row_template, *footer, sv, n0));
    Ok(code)
}

} // verus!

verus! {

// ---------------------------------------------------------------
// Resolving the requests for one document
// ---------------------------------------------------------------

/// The rows at a path of the data: the array there, or none.
pub open spec fn rows_at(data: Json, path: Seq<char>) -> Seq<Json> {
    match value_at(data, path) {
        Some(Json::Array(a)) => a@,
        _ => Seq::empty(),
    }
}

pub open spec fn request_rows_spec(r: TableRequestV, data: Json) -> Seq<Json> {
    match r {
        TableRequestV::Rows { loop_data, .. } => rows_at(data, loop_data),
        TableRequestV::Footer { loop_data, .. } => match loop_data {
            Some(p) => rows_at(data, p),
            None => Seq::empty(),
        },
    }
}

/// The rows at a path of the data, if an array is there.
pub fn get_all_rows<'a>(data: &'a Json, path: &str) -> (r: Option<&'a Vec<Json>>)
    ensures
        match r {
            Some(v) => value_at(*data, path@) == Some(Json::Array(*v)),
            None => !(value_at(*data, path@) matches Some(Json::Array(_))),
        },
{
    match value_at_path(data, path) {
        Some(v) => match v {
            Json::Array(a) => Some(a),
            _ => None,
        },
        None => None,
    }
}

/// The rows a request's formulas are evaluated over.
pub fn request_rows<'a>(req: &TableRequest, data: &'a Json) -> (r: &'a [Json])
    ensures
        r@ == request_rows_spec(table_request_view(*req), *data),
{
    let path: Option<&String> = match req {
        TableRequest::Rows { loop_data, .. } => Some(loop_data),
        TableRequest::Footer { loop_data, .. } => match loop_data {
            Some(p) => Some(p),
            None => None,
        },
    };
    match path {
        Some(p) => match get_all_rows(data, p.as_str()) {
            Some(v) => v.as_slice(),
            None => &[],
        },
        None => &[],
    }
}

pub open spec fn outcome_at(
    outs: Seq<Vec<Vec<Option<FormulaOutcome>>>>,
    k: int,
    i: int,
    j: int,
) -> Option<FormulaOutcome> {
    if 0 <= k < outs.len() && 0 <= i < outs[k]@.len() && 0 <= j < outs[k]@[i]@.len() {
        outs[k]@[i]@[j]
    } else {
        None
    }
}

/// The first `m` cells of loop row `i`.
pub open spec fn row_cells(
    row: Json,
    i: nat,
    tmpl: Seq<TableCellContent>,
    style: Option<StyleV>,
    outs: Seq<Vec<Vec<Option<FormulaOutcome>>>>,
    k: int,
    m: int,
) -> Seq<char>
    decreases m,
{
    if m <= 0 || m > tmpl.len() {
        Seq::empty()
    } else {
        row_cells(row, i, tmpl, style, outs, k, m - 1) + "          "@ + span_cell(
            tmpl[m - 1],
            loop_cell(tmpl[m - 1], style, m - 1, row, i, outcome_at(outs, k, i as int, m - 1)),
            None,
        ) + ",\n"@
    }
}

/// The first `n` loop rows.
pub open spec fn rows_text(
    rows: Seq<Json>,
    tmpl: Seq<TableCellContent>,
    style: Option<StyleV>,
    outs: Seq<Vec<Vec<Option<FormulaOutcome>>>>,
    k: int,
    n: int,
) -> Seq<char>
    decreases n,
{
    if n <= 0 || n > rows.len() {
        Seq::empty()
    } else {
        rows_text(rows, tmpl, style, outs, k, n - 1) + row_cells(
            rows[n - 1],
            (n - 1) as nat,
            tmpl,
            style,
            outs,
            k,
            tmpl.len() as int,
        )
    }
}

/// The first `m` footer cells; striped tables give footer cells a white
/// background unless a cell has its own.
pub open spec fn footer_text(
    cells: Seq<TableCellContent>,
    style: Option<StyleV>,
    outs: Seq<Vec<Vec<Option<FormulaOutcome>>>>,
    k: int,
    m: int,
) -> Seq<char>
    decreases m,
{
    if m <= 0 || m > cells.len() {
        Seq::empty()
    } else {
        let over = if stripes_of(style) is Some {
            Some("white"@)
        } else {
            None
        };
        footer_text(cells, style, outs, k, m - 1) + "  "@ + span_cell(
            cells[m - 1],
            footer_cell(cells[m - 1], style, m - 1, outcome_at(outs, k, 0, m - 1)),
            over,
        ) + ",\n"@
    }
}

pub open spec fn request_text(
    r: TableRequestV,
    data: Json,
    outs: Seq<Vec<Vec<Option<FormulaOutcome>>>>,
    k: int,
) -> Seq<char> {
    match r {
        TableRequestV::Rows { row_template, style, .. } => {
            let rows = request_rows_spec(r, data);
            rows_text(rows, row_template, style, outs, k, rows.len() as int)
        },
        TableRequestV::Footer { footer, style, .. } => footer_text(
            footer,
            style,
            outs,
            k,
            footer.len() as int,
        ),
    }
}

pub open spec fn request_token(r: TableRequestV) -> Seq<char> {
    match r {
        TableRequestV::Rows { token, .. } => token,
        TableRequestV::Footer { token, .. } => token,
    }
}

/// Every request's token and markup, the markup made from the document's
/// data and from `outs[k][i][j]`, the outcome of the formula in cell `j`
/// of row `i` of request `k` (a footer is row 0).
pub open spec fn deferred_spec(
    reqs: Seq<TableRequestV>,
    data: Json,
    outs: Seq<Vec<Vec<Option<FormulaOutcome>>>>,
) -> Seq<(Seq<char>, Seq<char>)> {
    Seq::new(reqs.len(), |k: int| (request_token(reqs[k]), request_text(reqs[k], data, outs, k)))
}

pub open spec fn pairs_view(v: Seq<(String, String)>) -> Seq<(Seq<char>, Seq<char>)> {
    Seq::new(v.len(), |i: int| (v[i].0@, v[i].1@))
}

fn outcome_of<'a>(
    outs: &'a Vec<Vec<Vec<Option<FormulaOutcome>>>>,
    k: usize,
    i: usize,
    j: usize,
    none: &'a Option<FormulaOutcome>,
) -> (r: &'a Option<FormulaOutcome>)
    requires
        *none is None,
    ensures
        *r == outcome_at(outs@, k as int, i as int, j as int),
{
    if k < outs.len() && i < outs[k].len() && j < outs[k][i].len() {
        &outs[k][i][j]
    } else {
        none
    }
}

fn render_rows(
    rows: &[Json],
    tmpl: &Vec<TableCellContent>,
    style: &Option<TableStyle>,
    outs: &Vec<Vec<Vec<Option<FormulaOutcome>>>>,
    k: usize,
) -> (r: String)
    ensures
        r@ == rows_text(rows@, tmpl@, opt_style_view(*style), outs@, k as int, rows@.len() as int),
{
    let none: Option<FormulaOutcome> = None;
    let ghost sv = opt_style_view(*style);
    let mut out = String::new();
    for i in 0..rows.len()
        invariant
            none is None,
            sv == opt_style_view(*style),
            out@ == rows_text(rows@, tmpl@, sv, outs@, k as int, i as int),
    {
        let ghost before = out@;
        for j in 0..tmpl.len()
            invariant
                none is None,
                i < rows@.len(),
                sv == opt_style_view(*style),
                out@ == before + row_cells(rows@[i as int], i as nat, tmpl@, sv, outs@, k as int, j as int),
        {
            let o = outcome_of(outs, k, i, j, &none);
            let v = render_loop_cell(&tmpl[j], style, j, &rows[i], i, o);
            let w = wrap_cell_span(&tmpl[j], v.as_str(), None);
            push_str(&mut out, "          ");
            push_str(&mut out, w.as_str());
            push_str(&mut out, ",\n");
            assert(out@ =~= before + row_cells(rows@[i as int], i as nat, tmpl@, sv, outs@, k as int, j + 1));
        }
        assert(out@ =~= rows_text(rows@, tmpl@, sv, outs@, k as int, i + 1));
    }
    out
}

fn render_footer(
    cells: &Vec<TableCellContent>,
    style: &Option<TableStyle>,
    outs: &Vec<Vec<Vec<Option<FormulaOutcome>>>>,
    k: usize,
) -> (r: String)
    ensures
        r@ == footer_text(cells@, opt_style_view(*style), outs@, k as int, cells@.len() as int),
{
    let none: Option<FormulaOutcome> = None;
    let ghost sv = opt_style_view(*style);
    let striped = match style {
        Some(s) => match &s.striped_rows {
            Some(_) => true,
            None => false,
        },
        None => false,
    };
    let mut out = String::new();
    proof {
        reveal_strlit("white");
    }
    for j in 0..cells.len()
        invariant
            none is None,
            sv == opt_style_view(*style),
            striped == stripes_of(sv) is Some,
            out@ == footer_text(cells@, sv, outs@, k as int, j as int),
    {
        let o = outcome_of(outs, k, 0, j, &none);
        let v = render_footer_cell(&cells[j], style, j, o);
        let over: Option<&str> = if striped {
            Some("white")
        } else {
            None
        };
        let w = wrap_cell_span(&cells[j], v.as_str(), over);
        push_str(&mut out, "  ");
        push_str(&mut out, w.as_str());
        push_str(&mut out, ",\n");
        proof {
            reveal_strlit("white");
        }
        assert(out@ =~= footer_text(cells@, sv, outs@, k as int, j + 1));
    }
    out
}

/// Renders every deferred table fragment from the document's own data,
/// returning each token with the markup that replaces it.
pub fn resolve_deferred(
    requests: &[TableRequest],
    data: &Json,
    outcomes: &Vec<Vec<Vec<Option<FormulaOutcome>>>>,
) -> (r: Vec<(String, String)>)
    ensures
        pairs_view(r@) == deferred_spec(table_requests_view(requests@), *data, outcomes@),
{
    let ghost rv = table_requests_view(requests@);
    let mut out: Vec<(String, String)> = Vec::new();
    for k in 0..requests.len()
        invariant
            rv == table_requests_view(requests@),
            pairs_view(out@) == deferred_spec(rv, *data, outcomes@).take(k as int),
    {
        let req = &requests[k];
        let rows = request_rows(req, data);
        let (token, text) = match req {
            TableRequest::Rows { token, row_template, style, .. } => (
                token.clone(),
                render_rows(rows, row_template, style, outcomes, k),
            ),
            TableRequest::Footer { token, footer, style, .. } => (
                token.clone(),
                render_footer(footer, style, outcomes, k),
            ),
        };
        assert(rv[k as int] == table_request_view(*req));
        assert(token@ == request_token(rv[k as int]));
        assert(text@ == request_text(rv[k as int], *data, outcomes@, k as int));
        let ghost before = out@;
        let ghost tv = token@;
        let ghost xv = text@;
        out.push((token, text));
        assert(pairs_view(out@) =~= pairs_view(before).push((tv, xv)));
        assert(pairs_view(out@) =~= deferred_spec(rv, *data, outcomes@).take(k + 1));
    }
    assert(deferred_spec(rv, *data, outcomes@).take(requests@.len() as int) =~= deferred_spec(
        rv,
        *data,
        outcomes@,
    ));
    out
}

/// What the application evaluates for a formula cell: the formula, the
/// row it is evaluated in (none for a footer), and how its number is
/// formatted.
pub struct FormulaJob {
    pub formula: String,
    pub row: Option<usize>,
    pub locale: Option<String>,
    pub decimal_places: Option<usize>,
}

pub open spec fn cell_job(cell: TableCellContent, row: Option<usize>) -> Option<
    (Seq<char>, Option<usize>, Option<String>, Option<usize>),
> {
    match cell {
        TableCellContent::Formula { formula, locale, decimal_places, .. } => Some(
            (formula@, row, locale, decimal_places),
        ),
        _ => None,
    }
}

pub open spec fn job_view(j: Option<FormulaJob>) -> Option<
    (Seq<char>, Option<usize>, Option<String>, Option<usize>),
> {
    match j {
        Some(x) => Some((x.formula@, x.row, x.locale, x.decimal_places)),
        None => None,
    }
}

fn cell_job_exec(cell: &TableCellContent, row: Option<usize>) -> (r: Option<FormulaJob>)
    ensures
        job_view(r) == cell_job(*cell, row),
{
    match cell {
        TableCellContent::Formula { formula, locale, decimal_places, .. } => Some(
            FormulaJob {
                formula: formula.clone(),
                row,
                locale: copy_opt_string(locale),
                decimal_places: *decimal_places,
            },
        ),
        _ => None,
    }
}

fn jobs_for_cells(cells: &Vec<TableCellContent>, row: Option<usize>) -> (r: Vec<Option<FormulaJob>>)
    ensures
        r@.len() == cells@.len(),
        forall|j: int| 0 <= j < cells@.len() ==> #[trigger] job_view(r@[j]) == cell_job(cells@[j], row),
{
    let mut out: Vec<Option<FormulaJob>> = Vec::new();
    for j in 0..cells.len()
        invariant
            out@.len() == j,
            forall|x: int| 0 <= x < j ==> #[trigger] job_view(out@[x]) == cell_job(cells@[x], row),
    {
        out.push(cell_job_exec(&cells[j], row));
    }
    out
}

/// The formula cells of every request, laid out as the outcomes that
/// [`resolve_deferred`] takes: `[request][row][cell]`, a footer being one
/// row without a current row.
pub fn formula_jobs(requests: &[TableRequest], data: &Json) -> (r: Vec<Vec<Vec<Option<FormulaJob>>>>)
    ensures
        r@.len() == requests@.len(),
        forall|k: int|
            0 <= k < requests@.len() ==> {
                let rv = table_request_view(#[trigger] requests@[k]);
                &&& rv is Rows ==> r@[k]@.len() == request_rows_spec(rv, *data).len()
                &&& rv is Footer ==> r@[k]@.len() == 1
                &&& forall|i: int, j: int|
                    0 <= i < r@[k]@.len() && 0 <= j < r@[k]@[i]@.len() ==> job_view(
                        #[trigger] r@[k]@[i]@[j],
                    ) == match rv {
                        TableRequestV::Rows { row_template, .. } => cell_job(
                            row_template[j],
                            Some(i as usize),
                        ),
                        TableRequestV::Footer { footer, .. } => cell_job(footer[j], None),
                    }
                &&& forall|i: int|
                    0 <= i < r@[k]@.len() ==> #[trigger] r@[k]@[i]@.len() == match rv {
                        TableRequestV::Rows { row_template, .. } => row_template.len(),
                        TableRequestV::Footer { footer, .. } => footer.len(),
                    }
            },
{
    let mut out: Vec<Vec<Vec<Option<FormulaJob>>>> = Vec::new();
    for k in 0..requests.len()
        invariant
            out@.len() == k,
            forall|x: int|
                0 <= x < k ==> {
                    let rv = table_request_view(#[trigger] requests@[x]);
                    &&& rv is Rows ==> out@[x]@.len() == request_rows_spec(rv, *data).len()
                    &&& rv is Footer ==> out@[x]@.len() == 1
                    &&& forall|i: int, j: int|
                        0 <= i < out@[x]@.len() && 0 <= j < out@[x]@[i]@.len() ==> job_view(
                            #[trigger] out@[x]@[i]@[j],
                        ) == match rv {
                            TableRequestV::Rows { row_template, .. } => cell_job(
                                row_template[j],
                                Some(i as usize),
                            ),
                            TableRequestV::Footer { footer, .. } => cell_job(footer[j], None),
                        }
                    &&& forall|i: int|
                        0 <= i < out@[x]@.len() ==> #[trigger] out@[x]@[i]@.len() == match rv {
                            TableRequestV::Rows { row_template, .. } => row_template.len(),
                            TableRequestV::Footer { footer, .. } => footer.len(),
                        }
                },
    {
        let req = &requests[k];
        let mut per: Vec<Vec<Option<FormulaJob>>> = Vec::new();
        match req {
            TableRequest::Rows { row_template, .. } => {
                let rows = request_rows(req, data);
                for i in 0..rows.len()
                    invariant
                        per@.len() == i,
                        forall|y: int, j: int|
                            0 <= y < i && 0 <= j < per@[y]@.len() ==> job_view(
                                #[trigger] per@[y]@[j],
                            ) == cell_job(row_template@[j], Some(y as usize)),
                        forall|y: int| 0 <= y < i ==> #[trigger] per@[y]@.len() == row_template@.len(),
                {
                    per.push(jobs_for_cells(row_template, Some(i)));
                }
            },
            TableRequest::Footer { footer, .. } => {
                per.push(jobs_for_cells(footer, None));
            },
        }
        out.push(per);
    }
    out
}

} // verus!
