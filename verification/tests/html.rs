use studio_core::domain::{
    DocumentRequest, OutputFormat, InlineContent, Node, PageHeaderFooter, PageSettings, TableCellContent, TableStyle, TextNode,
    VariableNode, WatermarkSettings,
};
use studio_core::engines::html::converter::{
    html_escape, json_to_html, qr_block, sanitize_filename, FormulaValue,
};
use studio_core::engines::html::HtmlEngine;
use studio_core::json::{to_json_string, Json};

const STYLE_NONE: &str = "<style>\n  .doc-header, .doc-footer { width: 100%; box-sizing: border-box; padding: 4px 12px; }\n  @media print {\n    body { margin-top: 0; margin-bottom: 0; }\n    .doc-header { position: fixed; top: 0; left: 0; right: 0; }\n    .doc-footer { position: fixed; bottom: 0; left: 0; right: 0; }\n  }\n</style>\n";
const OPEN: &str = "<div style=\"position:relative;\">\n";
const CLOSE: &str = "</div>\n";

fn text(t: &str) -> TextNode {
    TextNode {
        node_type: None,
        text: t.to_string(),
        bold: None,
        italic: None,
        font_family: None,
        size: None,
        color: None,
        underline: None,
        strike: None,
        link: None,
    }
}

fn run(t: &str) -> InlineContent {
    InlineContent::Text(text(t))
}

fn var(k: &str) -> InlineContent {
    InlineContent::Variable(VariableNode { node_type: None, key: k.to_string() })
}

fn para(items: Vec<InlineContent>, alignment: Option<&str>) -> Node {
    Node::Paragraph { content: items, alignment: alignment.map(|a| a.to_string()) }
}

fn obj(entries: Vec<(&str, Json)>) -> Json {
    Json::Object(entries.into_iter().map(|(k, v)| (k.to_string(), v)).collect())
}

fn s(v: &str) -> Json {
    Json::Str(v.to_string())
}

fn body(content: Vec<Node>, data: &Json, vals: &[FormulaValue]) -> String {
    let out = json_to_html(&content, data, &None, vals).unwrap();
    assert!(out.starts_with(STYLE_NONE));
    assert!(out.ends_with(CLOSE));
    out[STYLE_NONE.len() + OPEN.len()..out.len() - CLOSE.len()].to_string()
}

#[test]
fn html_escape_replaces_all_five() {
    assert_eq!(
        html_escape("<a href=\"x\">Tom & 'Jerry'</a>"),
        "&lt;a href=&quot;x&quot;&gt;Tom &amp; &#x27;Jerry&#x27;&lt;/a&gt;"
    );
    assert_eq!(html_escape("plain"), "plain");
}

#[test]
fn html_escape_leaves_no_markup_characters() {
    let out = html_escape("<script>alert('x')</script>\"");
    assert!(!out.contains('<') && !out.contains('>') && !out.contains('"') && !out.contains('\''));
}

#[test]
fn sanitize_filename_cases() {
    assert_eq!(sanitize_filename(""), "document");
    assert_eq!(sanitize_filename("Invoice 2024/01.pdf"), "Invoice_2024_01_pdf");
    assert_eq!(sanitize_filename("é-a_b"), "_-a_b");
    let long = "a".repeat(150);
    assert_eq!(sanitize_filename(&long), "a".repeat(100));
}

#[test]
fn sanitize_filename_is_idempotent() {
    for id in ["", "x y", "../../etc/passwd", "ok-name_1"] {
        let once = sanitize_filename(id);
        assert_eq!(sanitize_filename(&once), once);
    }
}

#[test]
fn whole_document_paragraph() {
    let out = json_to_html(&[para(vec![run("Hi <b>")], Some("center"))], &obj(vec![]), &None, &[])
        .unwrap();
    assert_eq!(
        out,
        format!("{STYLE_NONE}{OPEN}<p style=\"text-align:center\">Hi &lt;b&gt;</p>\n{CLOSE}")
    );
}

#[test]
fn variables_are_escaped_and_missing_ones_marked() {
    let data = obj(vec![("name", s("Ann & Bo")), ("n", Json::Number("12".to_string()))]);
    let out = body(vec![para(vec![var("name"), run(" "), var("n"), run(" "), var("x<y")], None)], &data, &[]);
    assert_eq!(out, "<p>Ann &amp; Bo 12 [MISSING: x&lt;y]</p>\n");
}

#[test]
fn heading_level_is_clamped() {
    let data = obj(vec![]);
    let h = |level: u8| Node::Heading { level, content: vec![run("T")], alignment: None };
    assert_eq!(body(vec![h(9)], &data, &[]), "<h6>T</h6>\n");
    assert_eq!(body(vec![h(0)], &data, &[]), "<h1>T</h1>\n");
    assert_eq!(body(vec![h(3)], &data, &[]), "<h3>T</h3>\n");
}

#[test]
fn styled_text_run() {
    let mut t = text("a\nb");
    t.bold = Some(true);
    t.italic = Some(true);
    t.size = Some("12px".to_string());
    t.color = Some("red;x".to_string());
    t.link = Some("https://x.org/?a=1&b".to_string());
    let out = body(vec![para(vec![InlineContent::Text(t)], None)], &obj(vec![]), &[]);
    assert_eq!(
        out,
        "<p><a href=\"https://x.org/?a=1&amp;b\"><span style=\"font-size:12px;color:black;\"><em><strong>a<br/>b</strong></em></span></a></p>\n"
    );
    let mut bad = text("x");
    bad.link = Some("javascript:alert(1)".to_string());
    let out = body(vec![para(vec![InlineContent::Text(bad)], None)], &obj(vec![]), &[]);
    assert_eq!(out, "<p><a href=\"#\">x</a></p>\n");
}

#[test]
fn bullet_list_and_page_break() {
    let out = body(
        vec![Node::BulletList { items: vec![vec![run("one")], vec![run("two")]] }, Node::PageBreak],
        &obj(vec![]),
        &[],
    );
    assert_eq!(
        out,
        "<ul>\n  <li>one</li>\n  <li>two</li>\n</ul>\n<div style=\"page-break-after: always;\"></div>\n"
    );
}

#[test]
fn spacer_height_is_checked() {
    let data = obj(vec![]);
    assert_eq!(
        body(vec![Node::Spacer { height: "2cm".to_string() }], &data, &[]),
        "<div style=\"height:2cm\"></div>\n"
    );
    assert_eq!(
        body(vec![Node::Spacer { height: "1px;color:red".to_string() }], &data, &[]),
        "<div style=\"height:1em\"></div>\n"
    );
}

fn table_style() -> TableStyle {
    TableStyle {
        width: None,
        columns: None,
        inset: None,
        stroke: None,
        header_bg: Some("navy".to_string()),
        column_align: Some(vec!["left".to_string(), "right".to_string()]),
        repeat_header: None,
        striped_rows: Some(vec!["#eee".to_string()]),
    }
}

fn var_cell(k: &str) -> TableCellContent {
    TableCellContent::Variable { key: k.to_string(), bold: None, colspan: None, rowspan: None, fill: None }
}

#[test]
fn table_with_loop_rows_stripes_and_footer_formula() {
    let data = obj(vec![(
        "items",
        Json::Array(vec![obj(vec![("name", s("Pen"))]), obj(vec![("name", s("Ink"))])]),
    )]);
    let table = Node::Table {
        headers: Some(vec!["Item".to_string(), "Qty".to_string()]),
        rows: None,
        loop_data: Some("items".to_string()),
        row_template: Some(vec![var_cell("__index"), var_cell("name")]),
        footer: Some(vec![
            TableCellContent::Text {
                text: "Total".to_string(),
                bold: Some(true),
                colspan: None,
                rowspan: None,
                fill: None,
            },
            TableCellContent::Formula {
                formula: "=SUM(qty)".to_string(),
                format: Some("{value} pcs".to_string()),
                locale: None,
                decimal_places: None,
                bold: None,
                colspan: None,
                rowspan: None,
                fill: None,
            },
        ]),
        style: Some(table_style()),
    };
    let vals = vec![FormulaValue {
        formula: "=SUM(qty)".to_string(),
        scope: to_json_string(&data),
        value: "7".to_string(),
    }];
    let b = "border:0.5pt solid #444; padding:8px;";
    let lines = [
        "<table style=\"width:100%; border-collapse: collapse;\">".to_string(),
        "  <thead>".to_string(),
        "    <tr>".to_string(),
        format!("      <th style=\"{b} text-align:left; background-color:navy;\">Item</th>"),
        format!("      <th style=\"{b} text-align:right; background-color:navy;\">Qty</th>"),
        "    </tr>".to_string(),
        "  </thead>".to_string(),
        "  <tbody>".to_string(),
        "    <tr>".to_string(),
        format!("      <td style=\"{b} text-align:left; background-color:#eee;\">1</td>"),
        format!("      <td style=\"{b} text-align:right; background-color:#eee;\">Pen</td>"),
        "    </tr>".to_string(),
        "    <tr>".to_string(),
        format!("      <td style=\"{b} text-align:left; background-color:#eee;\">2</td>"),
        format!("      <td style=\"{b} text-align:right; background-color:#eee;\">Ink</td>"),
        "    </tr>".to_string(),
        "  </tbody>".to_string(),
        "  <tfoot>".to_string(),
        "    <tr>".to_string(),
        format!("      <td style=\"{b} text-align:left; background-color:white;\"><strong>Total</strong></td>"),
        format!("      <td style=\"{b} text-align:right; background-color:white;\">7 pcs</td>"),
        "    </tr>".to_string(),
        "  </tfoot>".to_string(),
        "</table>".to_string(),
    ];
    let expected = lines.join("\n") + "\n";
    assert_eq!(body(vec![table], &data, &vals), expected);
}

#[test]
fn static_rows_spans_and_missing_formula_value() {
    let data = obj(vec![]);
    let table = Node::Table {
        headers: None,
        rows: Some(vec![vec![
            TableCellContent::Text {
                text: "a<b".to_string(),
                bold: None,
                colspan: Some(2),
                rowspan: Some(1),
                fill: None,
            },
            var_cell("__index"),
            TableCellContent::Formula {
                formula: "=1+1".to_string(),
                format: Some("{value}%".to_string()),
                locale: None,
                decimal_places: None,
                bold: None,
                colspan: None,
                rowspan: None,
                fill: None,
            },
        ]]),
        loop_data: None,
        row_template: None,
        footer: None,
        style: Some(TableStyle {
            width: Some("50%".to_string()),
            columns: None,
            inset: Some("4px".to_string()),
            stroke: Some("none".to_string()),
            header_bg: None,
            column_align: None,
            repeat_header: None,
            striped_rows: None,
        }),
    };
    let out = body(vec![table], &data, &[]);
    assert_eq!(
        out,
        "<table style=\"width:50%; border-collapse: collapse;\">\n  <tbody>\n    <tr>\n      <td colspan=\"2\" style=\"border:none; padding:4px; text-align:left;\">a&lt;b</td>\n      <td style=\"border:none; padding:4px; text-align:left;\"></td>\n      <td style=\"border:none; padding:4px; text-align:left;\">%</td>\n    </tr>\n  </tbody>\n</table>\n"
    );
}

#[test]
fn images_only_from_allowed_sources() {
    let data = obj(vec![]);
    let img = |src: &str| Node::Image {
        src: src.to_string(),
        width: Some("2cm".to_string()),
        height: None,
        alignment: Some("center".to_string()),
    };
    assert_eq!(
        body(vec![img("javascript:alert(1)")], &data, &[]),
        "<!-- image omitted: unsupported src scheme -->\n"
    );
    assert_eq!(
        body(vec![img("https://cdn.example/a.png?x=1&y=2")], &data, &[]),
        "<div style=\"text-align:center;\"><img src=\"https://cdn.example/a.png?x=1&amp;y=2\" style=\"width:2cm;\" alt=\"\" /></div>\n"
    );
}

#[test]
fn shapes() {
    let data = obj(vec![]);
    let shape = |kind: &str| Node::Shape {
        kind: kind.to_string(),
        width: "2cm".to_string(),
        height: "1cm".to_string(),
        fill: Some("red".to_string()),
        rotate: Some("45deg".to_string()),
    };
    assert_eq!(
        body(vec![shape("circle")], &data, &[]),
        "<div style=\"width:2cm; height:1cm; background:red; border-radius:50%; transform: rotate(45deg);\"></div>\n"
    );
    assert_eq!(
        body(vec![shape("triangle")], &data, &[]),
        "<div style=\"width:0; height:0; border-left:2cm solid transparent; border-bottom:1cm solid red; transform: rotate(45deg);\"></div>\n"
    );
    assert_eq!(
        body(vec![shape("Circle")], &data, &[]),
        "<div style=\"width:2cm; height:1cm; background:red; transform: rotate(45deg);\"></div>\n"
    );
}

#[test]
fn placed_and_columns() {
    let data = obj(vec![]);
    let placed = Node::Placed {
        anchor: Some("bottom-right".to_string()),
        dx: Some("1cm".to_string()),
        dy: None,
        content: Box::new(para(vec![run("P")], None)),
    };
    assert_eq!(
        body(vec![placed], &data, &[]),
        "<div style=\"position:absolute; bottom:0; right:0; margin-left:1cm; \"><p>P</p>\n</div>\n"
    );
    let cols = Node::Columns {
        items: vec![vec![para(vec![run("A")], None)], vec![para(vec![run("B")], None)]],
        column_widths: None,
        gutter: None,
    };
    assert_eq!(
        body(vec![cols], &data, &[]),
        "<div style=\"display:grid; grid-template-columns:1fr 1fr; gap:1em;\">\n  <div>\n<p>A</p>\n  </div>\n  <div>\n<p>B</p>\n  </div>\n</div>\n"
    );
    let widths = Node::Columns {
        items: vec![vec![], vec![]],
        column_widths: Some(vec!["2fr".to_string(), "x;y".to_string()]),
        gutter: Some("5mm".to_string()),
    };
    assert!(body(vec![widths], &data, &[])
        .starts_with("<div style=\"display:grid; grid-template-columns:2fr 1fr; gap:5mm;\">\n"));
}

#[test]
fn qr_codes_inline_svg() {
    let data = obj(vec![("ref", s("INV-1"))]);
    let qr = |content: Vec<InlineContent>| Node::Qr {
        content,
        size: None,
        fill: None,
        background: None,
        error_correction: None,
        alignment: Some("right".to_string()),
    };
    assert_eq!(
        body(vec![qr(vec![])], &data, &[]),
        "<!-- QR code error: QR code content resolved to an empty string -->\n"
    );
    let out = body(vec![qr(vec![run("ref:"), var("ref")])], &data, &[]);
    assert!(out.starts_with("<div style=\"text-align:right;\"><div style=\"width:3cm; display:inline-block;\">"));
    assert_eq!(out.matches("<svg style=\"width:100%;height:auto;display:block;\"").count(), 1);
    assert!(out.ends_with("</svg></div></div>\n"));
    let legacy = Node::QrCode { data: "abc".to_string(), width: Some("2cm".to_string()), alignment: None };
    let out = body(vec![legacy], &data, &[]);
    assert!(out.starts_with("<div><div style=\"width:2cm; display:inline-block;\">"));
    assert!(out.contains("<svg style=\"width:100%;height:auto;display:block;\""));
}

#[test]
fn qr_block_replaces_only_the_first_svg_tag() {
    assert_eq!(
        qr_block(Ok("<?xml?><svg a><svg b></svg></svg>".to_string()), &None, &None),
        "<div><div style=\"width:3cm; display:inline-block;\"><?xml?><svg style=\"width:100%;height:auto;display:block;\" a><svg b></svg></svg></div></div>\n"
    );
    assert_eq!(
        qr_block(Err("bad <x>".to_string()), &None, &None),
        "<!-- QR code error: bad &lt;x&gt; -->\n"
    );
}

#[test]
fn page_furniture() {
    let data = obj(vec![("who", s("Ann"))]);
    let page = PageSettings {
        header: Some(PageHeaderFooter {
            content: vec![run("H")],
            alignment: None,
            first_page_only: None,
            skip_first_page: Some(true),
            first_page_content: None,
        }),
        footer: Some(PageHeaderFooter {
            content: vec![run("F")],
            alignment: Some("right".to_string()),
            first_page_only: None,
            skip_first_page: None,
            first_page_content: Some(vec![run("First "), var("who")]),
        }),
        background: Some(vec![Node::PageBreak]),
        watermark: Some(WatermarkSettings {
            text: "DRAFT".to_string(),
            alpha: 51,
            opacity: "0.2".to_string(),
            angle: "-45".to_string(),
            position: None,
            font_size: None,
            color: Some("red".to_string()),
        }),
        default_font: None,
    };
    let out = json_to_html(&[para(vec![run("Body")], None)], &data, &Some(page), &[]).unwrap();
    let style = STYLE_NONE.replace("margin-top: 0; margin-bottom: 0;", "margin-top: 3cm; margin-bottom: 3cm;");
    assert_eq!(
        out,
        format!(
            "{style}{OPEN}<div style=\"page-break-after: always;\"></div>\n<div style=\"position:absolute; top:50%; left:50%; transform:translate(-50%, -50%) rotate(-45deg); font-size:50pt; color:red; opacity:0.2; font-weight:bold; white-space:nowrap; pointer-events:none; z-index:0;\">DRAFT</div>\n<p>Body</p>\n<div class=\"doc-footer\" style=\"text-align:right;\">First Ann</div>\n{CLOSE}"
        )
    );
}

#[test]
fn html_escape_reads_back() {
    let original = "a&b <c> \"d\" 'e' &amp;";
    let escaped = html_escape(original);
    let back = escaped
        .replace("&lt;", "<")
        .replace("&gt;", ">")
        .replace("&quot;", "\"")
        .replace("&#x27;", "'")
        .replace("&amp;", "&");
    assert_eq!(back, original);
}

#[test]
fn html_engine_sanitises_the_title_and_file_name() {
    let request = DocumentRequest {
        template_id: "</title><script>x".to_string(),
        data: obj(vec![]),
        content: vec![],
        page: None,
        format: OutputFormat::Html,
        security: None,
    };
    let out = HtmlEngine.render(&request).ok().unwrap();
    assert_eq!(out.suggested_filename, "__title__script_x.html");
    let html = String::from_utf8(out.bytes).unwrap();
    assert!(html.contains("<title>__title__script_x</title>"));
}
