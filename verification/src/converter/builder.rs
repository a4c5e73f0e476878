//! The document content as a Typst layout. The layout is built once per
//! content and page settings and reused for every document with them, so
//! nothing in it that depends on a document's data is resolved here: QR
//! codes and data-dependent table parts are recorded as requests.
use vstd::prelude::*;
use crate::converter::context::{
    build_header_footer_block, color_alpha_spec, color_expr_with_alpha, escape_typst,
    header_footer_spec, opt_is, safe_token, safe_typst_token, typst_escape,
};
use crate::converter::nodes::layout::{grid_head, grid_header, placed_markup, placed_text};
use crate::converter::nodes::media::{image_spec, render_image, render_shape, shape_spec};
use crate::converter::nodes::qr::{
    assets_view, qr_asset_path, qr_markup, qr_requests_view, render_qr_placeholder, QrRequest,
};
use crate::converter::nodes::table::{
    format_table, table_markup, table_new_requests, table_requests_view, TableRequest,
    TableRequestV,
};
use crate::converter::nodes::text::{
    bullet_list_spec, heading_spec, paragraph_spec, render_bullet_list, render_heading,
    render_paragraph,
};
use crate::domain::{opt_style_view, InlineContent, Node, PageSettings, TextNode, WatermarkSettings};
use crate::json::Json;
use crate::text::{opt_str_is, push_str, string_from};

verus! {

broadcast use vstd::string::group_string_axioms;

/// The deepest nesting of placed content and columns.
pub const MAX_NODE_DEPTH: usize = 32;

/// What building has produced so far, as plain values: the assets, the
/// QR requests and the table requests.
pub ghost struct BuildState {
    pub assets: Seq<(Seq<char>, Seq<u8>)>,
    pub qrs: Seq<(Seq<char>, Seq<InlineContent>, Option<String>, Option<String>, Option<String>)>,
    pub tables: Seq<TableRequestV>,
}

pub open spec fn state_of(
    assets: Seq<(String, Vec<u8>)>,
    qrs: Seq<QrRequest>,
    tables: Seq<TableRequest>,
) -> BuildState {
    BuildState {
        assets: assets_view(assets),
        qrs: qr_requests_view(qrs),
        tables: table_requests_view(tables),
    }
}

pub open spec fn with_assets(st: BuildState, added: Seq<(Seq<char>, Seq<u8>)>) -> BuildState {
    BuildState { assets: st.assets + added, ..st }
}

pub open spec fn text_node_of(text: String) -> TextNode {
    TextNode {
        node_type: None,
        text,
        bold: None,
        italic: None,
        font_family: None,
        size: None,
        color: None,
        underline: None,
        strike: None,
        link: None,
    }
}



/// A node's markup and what building it adds, from state `st` at nesting
/// `depth`, or the first error.
pub open spec fn node_spec(
    node: Node,
    data: Json,
    fetched: Seq<(String, Result<Vec<u8>, String>)>,
    st: BuildState,
    depth: nat,
) -> Result<(Seq<char>, BuildState), Seq<char>>
    decreases node, 0int,
{
    if depth > MAX_NODE_DEPTH {
        Err("Max nesting depth exceeded"@)
    } else {
        match node {
            Node::Paragraph { content, alignment } => Ok(
                (paragraph_spec(content@, alignment), st),
            ),
            Node::Heading { level, content, alignment } => Ok(
                (heading_spec(level, content@, alignment), st),
            ),
            Node::BulletList { items } => Ok((bullet_list_spec(items@), st)),
            Node::Table { headers, rows, loop_data, row_template, footer, style } => {
                let sv = opt_style_view(style);
                let n = st.tables.len();
                Ok(
                    (
                        table_markup(headers, rows, loop_data, row_template, footer, sv, n)
                            + "\n\n"@,
                        BuildState {
                            tables: st.tables + table_new_requests(
                                n,
                                loop_data,
                                row_template,
                                footer,
                                sv,
                            ),
                            ..st
                        },
                    ),
                )
            },
            Node::PageBreak => Ok(("#pagebreak()\n\n"@, st)),
            Node::Spacer { height } => Ok(
                ("#v("@ + safe_token(height@, "1em"@) + ")\n\n"@, st),
            ),
            Node::Image { src, width, height, alignment } => match image_spec(
                src@,
                width,
                height,
                alignment,
                fetched,
                st.assets.len(),
            ) {
                Err(e) => Err(e),
                Ok((m, added)) => Ok((m, with_assets(st, added))),
            },
            Node::Shape { kind, width, height, fill, rotate } => match shape_spec(
                kind@,
                None,
                width@,
                height@,
                fill,
                None,
                None,
                rotate,
                st.assets.len(),
            ) {
                Err(e) => Err(e),
                Ok((m, added)) => Ok((m, with_assets(st, added))),
            },
            Node::Placed { anchor, dx, dy, content } => match node_spec(
                *content,
                data,
                fetched,
                st,
                depth + 1,
            ) {
                Err(e) => Err(e),
                Ok((inner, st2)) => Ok((placed_text(anchor, dx, dy, inner), st2)),
            },
            Node::Columns { items, column_widths, gutter } => match columns_spec(
                items@,
                items@.len() as int,
                data,
                fetched,
                st,
                depth + 1,
            ) {
                Err(e) => Err(e),
                Ok((cells, st2)) => Ok(
                    (
                        grid_head(column_widths, items@.len(), gutter) + cells + ")\n\n"@,
                        st2,
                    ),
                ),
            },
            Node::QrCode { data: payload, width, alignment } => {
                let path = qr_asset_path(st.qrs.len());
                Ok(
                    (
                        qr_markup(path, width, alignment),
                        BuildState {
                            qrs: st.qrs.push(
                                (
                                    path,
                                    seq![InlineContent::Text(text_node_of(payload))],
                                    None,
                                    None,
                                    None,
                                ),
                            ),
                            ..st
                        },
                    ),
                )
            },
            Node::Qr { content, size, fill, background, error_correction, alignment } => {
                let path = qr_asset_path(st.qrs.len());
                Ok(
                    (
                        qr_markup(path, size, alignment),
                        BuildState {
                            qrs: st.qrs.push((path, content@, fill, background, error_correction)),
                            ..st
                        },
                    ),
                )
            },
        }
    }
}

/// The first `k` columns, each as `[...]` holding its nodes.
pub open spec fn columns_spec(
    items: Seq<Vec<Node>>,
    k: int,
    data: Json,
    fetched: Seq<(String, Result<Vec<u8>, String>)>,
    st: BuildState,
    depth: nat,
) -> Result<(Seq<char>, BuildState), Seq<char>>
    decreases items, k,
{
    if k <= 0 || k > items.len() {
        Ok((Seq::empty(), st))
    } else {
        match columns_spec(items, k - 1, data, fetched, st, depth) {
            Err(e) => Err(e),
            Ok((prev, st1)) => match nodes_spec(
                items[k - 1]@,
                items[k - 1]@.len() as int,
                data,
                fetched,
                st1,
                depth,
            ) {
                Err(e) => Err(e),
                Ok((cell, st2)) => Ok((prev + "  ["@ + cell + "],\n"@, st2)),
            },
        }
    }
}

/// The first `m` nodes, one after the other.
pub open spec fn nodes_spec(
    nodes: Seq<Node>,
    m: int,
    data: Json,
    fetched: Seq<(String, Result<Vec<u8>, String>)>,
    st: BuildState,
    depth: nat,
) -> Result<(Seq<char>, BuildState), Seq<char>>
    decreases nodes, m,
{
    if m <= 0 || m > nodes.len() {
        Ok((Seq::empty(), st))
    } else {
        match nodes_spec(nodes, m - 1, data, fetched, st, depth) {
            Err(e) => Err(e),
            Ok((prev, st1)) => match node_spec(nodes[m - 1], data, fetched, st1, depth) {
                Err(e) => Err(e),
                Ok((t, st2)) => Ok((prev + t, st2)),
            },
        }
    }
}

} // verus!

verus! {

pub open spec fn built_matches(
    spec_r: Result<(Seq<char>, BuildState), Seq<char>>,
    r: Result<String, String>,
    st: BuildState,
) -> bool {
    match r {
        Ok(s) => spec_r == Ok::<(Seq<char>, BuildState), Seq<char>>((s@, st)),
        Err(e) => spec_r == Err::<(Seq<char>, BuildState), Seq<char>>(e@),
    }
}

/// Renders one node; see [`node_spec`].
pub fn render_node(
    node: &Node,
    data: &Json,
    fetched: &Vec<(String, Result<Vec<u8>, String>)>,
    assets: &mut Vec<(String, Vec<u8>)>,
    qr_requests: &mut Vec<QrRequest>,
    table_requests: &mut Vec<TableRequest>,
    depth: usize,
) -> (r: Result<String, String>)
    ensures
        built_matches(
            node_spec(
                *node,
                *data,
                fetched@,
                state_of(old(assets)@, old(qr_requests)@, old(table_requests)@),
                depth as nat,
            ),
            r,
            state_of(final(assets)@, final(qr_requests)@, final(table_requests)@),
        ),
        depth > MAX_NODE_DEPTH ==> r is Err && final(assets)@ == old(assets)@
            && final(qr_requests)@ == old(qr_requests)@
            && final(table_requests)@ == old(table_requests)@,
    decreases node, 0int,
{
    let ghost st = state_of(assets@, qr_requests@, table_requests@);
    if depth > MAX_NODE_DEPTH {
        return Err(string_from("Max nesting depth exceeded"));
    }
    match node {
        Node::Paragraph { content, alignment } => Ok(
            render_paragraph(content.as_slice(), alignment, data),
        ),
        Node::Heading { level, content, alignment } => Ok(
            render_heading(*level, content.as_slice(), alignment, data),
        ),
        Node::BulletList { items } => Ok(render_bullet_list(items.as_slice(), data)),
        Node::Table { headers, rows, loop_data, row_template, footer, style } => {
            let t = format_table(headers, rows, loop_data, row_template, footer, style, table_requests);
            match t {
                Ok(s) => {
                    let mut out = s;
                    push_str(&mut out, "\n\n");
                    Ok(out)
                },
                Err(e) => Err(e),
            }
        },
        Node::PageBreak => Ok(string_from("#pagebreak()\n\n")),
        Node::Spacer { height } => {
            let mut out = string_from("#v(");
            push_str(&mut out, safe_typst_token(height.as_str(), "1em").as_str());
            push_str(&mut out, ")\n\n");
            Ok(out)
        },
        Node::Image { src, width, height, alignment } => {
            let r = render_image(src.as_str(), width, height, alignment, fetched, assets);
            r
        },
        Node::Shape { kind, width, height, fill, rotate } => {
            let r = render_shape(
                kind.as_str(),
                &None,
                width.as_str(),
                height.as_str(),
                fill,
                &None,
                &None,
                rotate,
                assets,
            );
            r
        },
        Node::Placed { anchor, dx, dy, content } => render_placed(
            anchor,
            dx,
            dy,
            content,
            data,
            fetched,
            assets,
            qr_requests,
            table_requests,
            depth + 1,
        ),
        Node::Columns { items, column_widths, gutter } => render_columns(
            items,
            column_widths,
            gutter,
            data,
            fetched,
            assets,
            qr_requests,
            table_requests,
            depth + 1,
        ),
        Node::QrCode { data: payload, width, alignment } => {
            let item = InlineContent::Text(
                TextNode {
                    node_type: None,
                    text: payload.clone(),
                    bold: None,
                    italic: None,
                    font_family: None,
                    size: None,
                    color: None,
                    underline: None,
                    strike: None,
                    link: None,
                },
            );
            let items = vec![item];
            assert(items@ =~= seq![InlineContent::Text(text_node_of(*payload))]);
            Ok(
                render_qr_placeholder(
                    items.as_slice(),
                    width,
                    &None,
                    &None,
                    &None,
                    alignment,
                    qr_requests,
                ),
            )
        },
        Node::Qr { content, size, fill, background, error_correction, alignment } => Ok(
            render_qr_placeholder(
                content.as_slice(),
                size,
                fill,
                background,
                error_correction,
                alignment,
                qr_requests,
            ),
        ),
    }
}

/// Renders content placed on the page at nesting `depth`.
pub fn render_placed(
    anchor: &Option<String>,
    dx: &Option<String>,
    dy: &Option<String>,
    content: &Box<Node>,
    data: &Json,
    fetched: &Vec<(String, Result<Vec<u8>, String>)>,
    assets: &mut Vec<(String, Vec<u8>)>,
    qr_requests: &mut Vec<QrRequest>,
    table_requests: &mut Vec<TableRequest>,
    depth: usize,
) -> (r: Result<String, String>)
    ensures
        built_matches(
            match node_spec(
                **content,
                *data,
                fetched@,
                state_of(old(assets)@, old(qr_requests)@, old(table_requests)@),
                depth as nat,
            ) {
                Err(e) => Err(e),
                Ok((inner, st2)) => Ok((placed_text(*anchor, *dx, *dy, inner), st2)),
            },
            r,
            state_of(final(assets)@, final(qr_requests)@, final(table_requests)@),
        ),
    decreases **content, 1int,
{
    let inner = render_node(content, data, fetched, assets, qr_requests, table_requests, depth)?;
    Ok(placed_markup(anchor, dx, dy, inner.as_str()))
}

/// Renders columns of nodes as a grid at nesting `depth`.
pub fn render_columns(
    items: &Vec<Vec<Node>>,
    column_widths: &Option<Vec<String>>,
    gutter: &Option<String>,
    data: &Json,
    fetched: &Vec<(String, Result<Vec<u8>, String>)>,
    assets: &mut Vec<(String, Vec<u8>)>,
    qr_requests: &mut Vec<QrRequest>,
    table_requests: &mut Vec<TableRequest>,
    depth: usize,
) -> (r: Result<String, String>)
    ensures
        built_matches(
            match columns_spec(
                items@,
                items@.len() as int,
                *data,
                fetched@,
                state_of(old(assets)@, old(qr_requests)@, old(table_requests)@),
                depth as nat,
            ) {
                Err(e) => Err(e),
                Ok((cells, st2)) => Ok(
                    (grid_head(*column_widths, items@.len(), *gutter) + cells + ")\n\n"@, st2),
                ),
            },
            r,
            state_of(final(assets)@, final(qr_requests)@, final(table_requests)@),
        ),
    decreases items, 1int,
{
    let head = grid_header(column_widths, items.len(), gutter);
    let cells = render_column_cells(items, data, fetched, assets, qr_requests, table_requests, depth)?;
    let mut out = head;
    push_str(&mut out, cells.as_str());
    push_str(&mut out, ")\n\n");
    Ok(out)
}

fn render_column_cells(
    items: &Vec<Vec<Node>>,
    data: &Json,
    fetched: &Vec<(String, Result<Vec<u8>, String>)>,
    assets: &mut Vec<(String, Vec<u8>)>,
    qr_requests: &mut Vec<QrRequest>,
    table_requests: &mut Vec<TableRequest>,
    depth: usize,
) -> (r: Result<String, String>)
    ensures
        built_matches(
            columns_spec(
                items@,
                items@.len() as int,
                *data,
                fetched@,
                state_of(old(assets)@, old(qr_requests)@, old(table_requests)@),
                depth as nat,
            ),
            r,
            state_of(final(assets)@, final(qr_requests)@, final(table_requests)@),
        ),
    decreases items, 0int,
{
    let ghost st0 = state_of(assets@, qr_requests@, table_requests@);
    let mut cells = String::new();
    for i in 0..items.len()
        invariant
            st0 == state_of(old(assets)@, old(qr_requests)@, old(table_requests)@),
            columns_spec(items@, i as int, *data, fetched@, st0, depth as nat) == Ok::<
                (Seq<char>, BuildState),
                Seq<char>,
            >((cells@, state_of(assets@, qr_requests@, table_requests@))),
    {
        proof {
            vstd::std_specs::vec::axiom_vec_index_decreases(*items, i as int);
        }
        let t = render_node_list(&items[i], data, fetched, assets, qr_requests, table_requests, depth);
        match t {
            Ok(s) => {
                push_str(&mut cells, "  [");
                push_str(&mut cells, s.as_str());
                push_str(&mut cells, "],\n");
            },
            Err(e) => {
                proof {
                    lemma_columns_err_inner(items@, i as int, *data, fetched@, st0, depth as nat);
                }
                return Err(e);
            },
        }
    }
    Ok(cells)
}

fn render_node_list(
    nodes: &Vec<Node>,
    data: &Json,
    fetched: &Vec<(String, Result<Vec<u8>, String>)>,
    assets: &mut Vec<(String, Vec<u8>)>,
    qr_requests: &mut Vec<QrRequest>,
    table_requests: &mut Vec<TableRequest>,
    depth: usize,
) -> (r: Result<String, String>)
    ensures
        built_matches(
            nodes_spec(
                nodes@,
                nodes@.len() as int,
                *data,
                fetched@,
                state_of(old(assets)@, old(qr_requests)@, old(table_requests)@),
                depth as nat,
            ),
            r,
            state_of(final(assets)@, final(qr_requests)@, final(table_requests)@),
        ),
    decreases nodes, 0int,
{
    let ghost st0 = state_of(assets@, qr_requests@, table_requests@);
    let mut out = String::new();
    for j in 0..nodes.len()
        invariant
            st0 == state_of(old(assets)@, old(qr_requests)@, old(table_requests)@),
            nodes_spec(nodes@, j as int, *data, fetched@, st0, depth as nat) == Ok::<
                (Seq<char>, BuildState),
                Seq<char>,
            >((out@, state_of(assets@, qr_requests@, table_requests@))),
    {
        proof {
            vstd::std_specs::vec::axiom_vec_index_decreases(*nodes, j as int);
        }
        let t = render_node(&nodes[j], data, fetched, assets, qr_requests, table_requests, depth);
        match t {
            Ok(s) => {
                push_str(&mut out, s.as_str());
            },
            Err(e) => {
                proof {
                    lemma_nodes_err(nodes@, j as int, *data, fetched@, st0, depth as nat);
                }
                return Err(e);
            },
        }
    }
    Ok(out)
}

proof fn lemma_nodes_err(
    nodes: Seq<Node>,
    j: int,
    data: Json,
    fetched: Seq<(String, Result<Vec<u8>, String>)>,
    st: BuildState,
    depth: nat,
)
    requires
        0 <= j < nodes.len(),
        nodes_spec(nodes, j + 1, data, fetched, st, depth) is Err,
    ensures
        nodes_spec(nodes, nodes.len() as int, data, fetched, st, depth) == nodes_spec(
            nodes,
            j + 1,
            data,
            fetched,
            st,
            depth,
        ),
    decreases nodes.len() - j,
{
    if j + 1 < nodes.len() {
        lemma_nodes_err(nodes, j + 1, data, fetched, st, depth);
    }
}

proof fn lemma_columns_err_inner(
    items: Seq<Vec<Node>>,
    i: int,
    data: Json,
    fetched: Seq<(String, Result<Vec<u8>, String>)>,
    st: BuildState,
    depth: nat,
)
    requires
        0 <= i < items.len(),
        columns_spec(items, i + 1, data, fetched, st, depth) is Err,
    ensures
        columns_spec(items, items.len() as int, data, fetched, st, depth) == columns_spec(
            items,
            i + 1,
            data,
            fetched,
            st,
            depth,
        ),
    decreases items.len() - i,
{
    if i + 1 < items.len() {
        lemma_columns_err_inner(items, i + 1, data, fetched, st, depth);
    }
}

} // verus!

verus! {

/// The definitions every layout starts with: `item`, `num` and
/// `safe-get`, which reads a dotted path out of the data.
pub open spec fn typst_prelude() -> Seq<char> {
    r#"
#let item = (:) // Empty dictionary for non-loop contexts

// NEW: Helper function to safely convert none to 0 for math operations
#let num(val) = if val == none { 0 } else { val }

#let safe-get(obj, path) = {
  let parts = path.split(".")
  let current = obj
  for part in parts {
    // 1. Handle Dictionaries (e.g., data.customer_name)
    if type(current) == dictionary {
      if part in current.keys() {
        current = current.at(part)
      } else {
        return none
      }
    }
    // 2. Handle Arrays (e.g., data.collaterals.0.type)
    else if type(current) == array {
      // Check if the path part is a valid integer string (e.g., "0", "1")
      if part.match(regex("^\\d+$")) != none {
        let idx = int(part)
        if idx >= 0 and idx < current.len() {
          current = current.at(idx)
        } else {
          return none
        }
      } else {
        return none
      }
    }
    // 3. If it's neither a dict nor an array, the path is invalid
    else {
      return none
    }
  }
  current
}
"#@
}

pub open spec fn watermark_align(position: Option<String>) -> Seq<char> {
    if opt_is(position, "top-left"@) {
        "top + left"@
    } else if opt_is(position, "top-right"@) {
        "top + right"@
    } else if opt_is(position, "bottom-left"@) {
        "bottom + left"@
    } else if opt_is(position, "bottom-right"@) {
        "bottom + right"@
    } else if opt_is(position, "top-center"@) {
        "top + center"@
    } else if opt_is(position, "bottom-center"@) {
        "bottom + center"@
    } else {
        "center + horizon"@
    }
}

/// A watermark: its text escaped, rotated by its angle, in its colour
/// made transparent by its opacity, placed by its position (the centre by
/// default).
pub open spec fn watermark_text(wm: WatermarkSettings) -> Seq<char> {
    let size = safe_token(
        match wm.font_size {
            Some(s) => s@,
            None => "50pt"@,
        },
        "50pt"@,
    );
    let color = match wm.color {
        Some(c) => c@,
        None => "gray"@,
    };
    "\n            #place(\n              "@ + watermark_align(wm.position)
        + ",\n              text(\n                fill: "@ + color_alpha_spec(color, wm.alpha)
        + ",\n                size: "@ + size
        + ",\n                weight: \"bold\"\n              )[\n                #rotate("@ + wm.angle@
        + "deg)["@ + typst_escape(wm.text@) + "]\n              ]\n            )\n            "@
}

fn watermark_markup(wm: &WatermarkSettings) -> (r: String)
    ensures
        r@ == watermark_text(*wm),
{
    proof {
        reveal_strlit("top-left");
        reveal_strlit("top-right");
        reveal_strlit("bottom-left");
        reveal_strlit("bottom-right");
        reveal_strlit("top-center");
        reveal_strlit("bottom-center");
    }
    let size = match &wm.font_size {
        Some(s) => safe_typst_token(s.as_str(), "50pt"),
        None => safe_typst_token("50pt", "50pt"),
    };
    let color: &str = match &wm.color {
        Some(c) => c.as_str(),
        None => "gray",
    };
    let p = &wm.position;
    let align = if opt_str_is(p, "top-left") {
        "top + left"
    } else if opt_str_is(p, "top-right") {
        "top + right"
    } else if opt_str_is(p, "bottom-left") {
        "bottom + left"
    } else if opt_str_is(p, "bottom-right") {
        "bottom + right"
    } else if opt_str_is(p, "top-center") {
        "top + center"
    } else if opt_str_is(p, "bottom-center") {
        "bottom + center"
    } else {
        "center + horizon"
    };
    let fill = color_expr_with_alpha(color, wm.alpha);
    let text = escape_typst(wm.text.as_str());
    let mut out = string_from("\n            #place(\n              ");
    push_str(&mut out, align);
    push_str(&mut out, ",\n              text(\n                fill: ");
    push_str(&mut out, fill.as_str());
    push_str(&mut out, ",\n                size: ");
    push_str(&mut out, size.as_str());
    push_str(&mut out, ",\n                weight: \"bold\"\n              )[\n                #rotate(");
    push_str(&mut out, wm.angle.as_str());
    push_str(&mut out, "deg)[");
    push_str(&mut out, text.as_str());
    push_str(&mut out, "]\n              ]\n            )\n            ");
    out
}

pub open spec fn page_part<T>(page: Option<PageSettings>, f: spec_fn(PageSettings) -> Option<T>) -> Option<T> {
    match page {
        Some(p) => f(p),
        None => None,
    }
}

pub open spec fn margins_text(has_header: bool, has_footer: bool) -> Seq<char> {
    "#set page(width: 210mm, height: 297mm, margin: (top: "@ + (if has_header {
        "3cm"@
    } else {
        "2cm"@
    }) + ", bottom: "@ + (if has_footer {
        "3cm"@
    } else {
        "2cm"@
    }) + ", x: 2cm)"@
}

pub open spec fn page_head(
    header: Option<crate::domain::PageHeaderFooter>,
    footer: Option<crate::domain::PageHeaderFooter>,
    data: Json,
) -> Seq<char> {
    margins_text(header is Some, footer is Some) + match header {
        Some(h) => ",\n  header: "@ + header_footer_spec(h, data),
        None => Seq::empty(),
    } + match footer {
        Some(f) => ",\n  footer: "@ + header_footer_spec(f, data),
        None => Seq::empty(),
    }
}

/// The `#set page(...)` preamble: A4 with wider margins where there is a
/// header or footer, the header and footer blocks, and a background of
/// the background nodes and the watermark; then the default font.
pub open spec fn preamble_spec(
    page: Option<PageSettings>,
    data: Json,
    fetched: Seq<(String, Result<Vec<u8>, String>)>,
    st: BuildState,
) -> Result<(Seq<char>, BuildState), Seq<char>> {
    let header = page_part(page, |p: PageSettings| p.header);
    let footer = page_part(page, |p: PageSettings| p.footer);
    let background = page_part(page, |p: PageSettings| p.background);
    let watermark = page_part(page, |p: PageSettings| p.watermark);
    let head = page_head(header, footer, data);
    let bg = match background {
        Some(nodes) => nodes_spec(nodes@, nodes@.len() as int, data, fetched, st, 0),
        None => Ok((Seq::empty(), st)),
    };
    match bg {
        Err(e) => Err(e),
        Ok((bg_nodes, st2)) => {
            let bg_all = bg_nodes + match watermark {
                Some(wm) => watermark_text(wm),
                None => Seq::empty(),
            };
            let bg_part = if bg_all.len() > 0 {
                ",\n  background: [\n"@ + bg_all + "\n]"@
            } else {
                Seq::empty()
            };
            Ok(
                (
                    head + bg_part + "\n)\n#set text(font: \"Times New Roman\", size: 12pt)\n\n"@,
                    st2,
                ),
            )
        },
    }
}

fn build_page_preamble(
    page: &Option<PageSettings>,
    data: &Json,
    fetched: &Vec<(String, Result<Vec<u8>, String>)>,
    assets: &mut Vec<(String, Vec<u8>)>,
    qr_requests: &mut Vec<QrRequest>,
    table_requests: &mut Vec<TableRequest>,
) -> (r: Result<String, String>)
    ensures
        built_matches(
            preamble_spec(
                *page,
                *data,
                fetched@,
                state_of(old(assets)@, old(qr_requests)@, old(table_requests)@),
            ),
            r,
            state_of(final(assets)@, final(qr_requests)@, final(table_requests)@),
        ),
{
    let (header, footer, background, watermark) = match page {
        Some(p) => (&p.header, &p.footer, &p.background, &p.watermark),
        None => (&None, &None, &None, &None),
    };
    let has_header = match header {
        Some(_) => true,
        None => false,
    };
    let has_footer = match footer {
        Some(_) => true,
        None => false,
    };
    let mut out = string_from("#set page(width: 210mm, height: 297mm, margin: (top: ");
    push_str(&mut out, if has_header { "3cm" } else { "2cm" });
    push_str(&mut out, ", bottom: ");
    push_str(&mut out, if has_footer { "3cm" } else { "2cm" });
    push_str(&mut out, ", x: 2cm)");
    match header {
        Some(h) => {
            push_str(&mut out, ",\n  header: ");
            push_str(&mut out, build_header_footer_block(h, data).as_str());
        },
        None => {},
    }
    match footer {
        Some(f) => {
            push_str(&mut out, ",\n  footer: ");
            push_str(&mut out, build_header_footer_block(f, data).as_str());
        },
        None => {},
    }
    let ghost head = page_head(*header, *footer, *data);
    assert(out@ =~= head);
    assert(*header == page_part(*page, |p: PageSettings| p.header));
    assert(*footer == page_part(*page, |p: PageSettings| p.footer));
    assert(*background == page_part(*page, |p: PageSettings| p.background));
    assert(*watermark == page_part(*page, |p: PageSettings| p.watermark));
    let mut bg = match background {
        Some(nodes) => render_node_list(nodes, data, fetched, assets, qr_requests, table_requests, 0)?,
        None => String::new(),
    };
    let ghost bg_nodes = bg@;
    let ghost st2 = state_of(assets@, qr_requests@, table_requests@);
    assert(match *background {
        Some(nodes) => nodes_spec(nodes@, nodes@.len() as int, *data, fetched@, state_of(old(assets)@, old(qr_requests)@, old(table_requests)@), 0),
        None => Ok((Seq::empty(), state_of(old(assets)@, old(qr_requests)@, old(table_requests)@))),
    } == Ok::<(Seq<char>, BuildState), Seq<char>>((bg_nodes, st2)));
    match watermark {
        Some(wm) => {
            push_str(&mut bg, watermark_markup(wm).as_str());
        },
        None => {},
    }
    assert(bg@ == bg_nodes + match *watermark {
        Some(wm) => watermark_text(wm),
        None => Seq::empty(),
    });
    if bg.as_str().unicode_len() > 0 {
        push_str(&mut out, ",\n  background: [\n");
        push_str(&mut out, bg.as_str());
        push_str(&mut out, "\n]");
    }
    push_str(&mut out, "\n)\n#set text(font: \"Times New Roman\", size: 12pt)\n\n");
    let ghost bg_part = if bg@.len() > 0 {
        ",\n  background: [\n"@ + bg@ + "\n]"@
    } else {
        Seq::empty()
    };
    assert(out@ =~= head + bg_part + "\n)\n#set text(font: \"Times New Roman\", size: 12pt)\n\n"@);
    assert(preamble_spec(*page, *data, fetched@, state_of(old(assets)@, old(qr_requests)@, old(table_requests)@))
        == Ok::<(Seq<char>, BuildState), Seq<char>>((out@, st2)));
    Ok(out)
}

pub open spec fn empty_state() -> BuildState {
    BuildState { assets: Seq::empty(), qrs: Seq::empty(), tables: Seq::empty() }
}

/// The layout of a document's content and page settings: the prelude, the
/// page preamble, then every node; with the assets, QR requests and table
/// requests it recorded.
pub open spec fn layout_spec(
    content: Seq<Node>,
    data: Json,
    page: Option<PageSettings>,
    fetched: Seq<(String, Result<Vec<u8>, String>)>,
) -> Result<(Seq<char>, BuildState), Seq<char>> {
    match preamble_spec(page, data, fetched, empty_state()) {
        Err(e) => Err(e),
        Ok((pre, st1)) => match nodes_spec(content, content.len() as int, data, fetched, st1, 0) {
            Err(e) => Err(e),
            Ok((body, st2)) => Ok((typst_prelude() + pre + body, st2)),
        },
    }
}

/// What [`json_to_typst`] builds: the layout markup, its assets, and the
/// QR and table requests to resolve for every document.
pub struct Layout {
    pub markup: String,
    /// The files the markup reads, in the order they were made. A list
    /// serves where a map by name would: every name is made from the
    /// number of assets before it (`__asset_<n>.<format>`,
    /// `__shape_<n>.svg`), so no two are alike, and the markup names each
    /// file it reads.
    pub assets: Vec<(String, Vec<u8>)>,
    pub qr_requests: Vec<QrRequest>,
    pub table_requests: Vec<TableRequest>,
}

pub fn json_to_typst(
    content: &Vec<Node>,
    data: &Json,
    page: &Option<PageSettings>,
    fetched: &Vec<(String, Result<Vec<u8>, String>)>,
) -> (r: Result<Layout, String>)
    ensures
        match r {
            Ok(l) => layout_spec(content@, *data, *page, fetched@) == Ok::<
                (Seq<char>, BuildState),
                Seq<char>,
            >((l.markup@, state_of(l.assets@, l.qr_requests@, l.table_requests@))),
            Err(e) => layout_spec(content@, *data, *page, fetched@) == Err::<
                (Seq<char>, BuildState),
                Seq<char>,
            >(e@),
        },
{
    let mut assets: Vec<(String, Vec<u8>)> = Vec::new();
    let mut qr_requests: Vec<QrRequest> = Vec::new();
    let mut table_requests: Vec<TableRequest> = Vec::new();
    assert(state_of(assets@, qr_requests@, table_requests@) == empty_state()) by {
        assert(assets_view(assets@) =~= Seq::<(Seq<char>, Seq<u8>)>::empty());
        assert(qr_requests_view(qr_requests@) =~= empty_state().qrs);
        assert(table_requests_view(table_requests@) =~= Seq::<TableRequestV>::empty());
    }
    let mut code = string_from(r#"
#let item = (:) // Empty dictionary for non-loop contexts

// NEW: Helper function to safely convert none to 0 for math operations
#let num(val) = if val == none { 0 } else { val }

#let safe-get(obj, path) = {
  let parts = path.split(".")
  let current = obj
  for part in parts {
    // 1. Handle Dictionaries (e.g., data.customer_name)
    if type(current) == dictionary {
      if part in current.keys() {
        current = current.at(part)
      } else {
        return none
      }
    }
    // 2. Handle Arrays (e.g., data.collaterals.0.type)
    else if type(current) == array {
      // Check if the path part is a valid integer string (e.g., "0", "1")
      if part.match(regex("^\\d+$")) != none {
        let idx = int(part)
        if idx >= 0 and idx < current.len() {
          current = current.at(idx)
        } else {
          return none
        }
      } else {
        return none
      }
    }
    // 3. If it's neither a dict nor an array, the path is invalid
    else {
      return none
    }
  }
  current
}
"#);
    let pre = build_page_preamble(page, data, fetched, &mut assets, &mut qr_requests, &mut table_requests)?;
    push_str(&mut code, pre.as_str());
    let body = render_node_list(content, data, fetched, &mut assets, &mut qr_requests, &mut table_requests, 0)?;
    push_str(&mut code, body.as_str());
    Ok(Layout { markup: code, assets, qr_requests, table_requests })
}

} // verus!

verus! {

proof fn lemma_node_ignores_data(
    node: Node,
    d1: Json,
    d2: Json,
    fetched: Seq<(String, Result<Vec<u8>, String>)>,
    st: BuildState,
    depth: nat,
)
    ensures
        node_spec(node, d1, fetched, st, depth) == node_spec(node, d2, fetched, st, depth),
    decreases node, 0int,
{
    if depth <= MAX_NODE_DEPTH {
        match node {
            Node::Placed { content, .. } => {
                lemma_node_ignores_data(*content, d1, d2, fetched, st, depth + 1);
            },
            Node::Columns { items, .. } => {
                lemma_columns_ignore_data(items@, items@.len() as int, d1, d2, fetched, st, depth + 1);
            },
            _ => {},
        }
    }
}

proof fn lemma_columns_ignore_data(
    items: Seq<Vec<Node>>,
    k: int,
    d1: Json,
    d2: Json,
    fetched: Seq<(String, Result<Vec<u8>, String>)>,
    st: BuildState,
    depth: nat,
)
    ensures
        columns_spec(items, k, d1, fetched, st, depth) == columns_spec(items, k, d2, fetched, st, depth),
    decreases items, k,
{
    if 0 < k <= items.len() {
        lemma_columns_ignore_data(items, k - 1, d1, d2, fetched, st, depth);
        match columns_spec(items, k - 1, d1, fetched, st, depth) {
            Ok((_, st1)) => {
                lemma_nodes_ignore_data(
                    items[k - 1]@,
                    items[k - 1]@.len() as int,
                    d1,
                    d2,
                    fetched,
                    st1,
                    depth,
                );
            },
            Err(_) => {},
        }
    }
}

proof fn lemma_nodes_ignore_data(
    nodes: Seq<Node>,
    m: int,
    d1: Json,
    d2: Json,
    fetched: Seq<(String, Result<Vec<u8>, String>)>,
    st: BuildState,
    depth: nat,
)
    ensures
        nodes_spec(nodes, m, d1, fetched, st, depth) == nodes_spec(nodes, m, d2, fetched, st, depth),
    decreases nodes, m,
{
    if 0 < m <= nodes.len() {
        lemma_nodes_ignore_data(nodes, m - 1, d1, d2, fetched, st, depth);
        match nodes_spec(nodes, m - 1, d1, fetched, st, depth) {
            Ok((_, st1)) => {
                lemma_node_ignores_data(nodes[m - 1], d1, d2, fetched, st1, depth);
            },
            Err(_) => {},
        }
    }
}

proof fn lemma_header_inline_ignores_data(items: Seq<InlineContent>, d1: Json, d2: Json)
    ensures
        crate::converter::context::inline_seq(items, d1, true)
            == crate::converter::context::inline_seq(items, d2, true),
    decreases items.len(),
{
    if items.len() > 0 {
        lemma_header_inline_ignores_data(items.drop_last(), d1, d2);
    }
}

proof fn lemma_header_footer_ignores_data(hf: Option<crate::domain::PageHeaderFooter>, d1: Json, d2: Json)
    ensures
        hf matches Some(h) ==> crate::converter::context::header_footer_spec(h, d1)
            == crate::converter::context::header_footer_spec(h, d2),
{
    if let Some(h) = hf {
        lemma_header_inline_ignores_data(h.content@, d1, d2);
        if let Some(f) = h.first_page_content {
            lemma_header_inline_ignores_data(f@, d1, d2);
        }
    }
}

/// A layout is the same for any data: variables (in the body, the header
/// and the footer), QR codes and data-driven table parts are all left for
/// each document, which is what lets one layout be cached and shared.
pub proof fn law_layout_ignores_data(
    content: Seq<Node>,
    page: Option<PageSettings>,
    d1: Json,
    d2: Json,
    fetched: Seq<(String, Result<Vec<u8>, String>)>,
)
    ensures
        layout_spec(content, d1, page, fetched) == layout_spec(content, d2, page, fetched),
{
    lemma_header_footer_ignores_data(page_part(page, |p: PageSettings| p.header), d1, d2);
    lemma_header_footer_ignores_data(page_part(page, |p: PageSettings| p.footer), d1, d2);
    let background = page_part(page, |p: PageSettings| p.background);
    match background {
        Some(nodes) => {
            lemma_nodes_ignore_data(nodes@, nodes@.len() as int, d1, d2, fetched, empty_state(), 0);
        },
        None => {},
    }
    assert(preamble_spec(page, d1, fetched, empty_state()) == preamble_spec(
        page,
        d2,
        fetched,
        empty_state(),
    ));
    match preamble_spec(page, d1, fetched, empty_state()) {
        Ok((_, st1)) => {
            lemma_nodes_ignore_data(content, content.len() as int, d1, d2, fetched, st1, 0);
        },
        Err(_) => {},
    }
}

} // verus!
