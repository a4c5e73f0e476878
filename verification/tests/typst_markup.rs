use studio_core::converter::context::{
    color_expr, color_expr_with_alpha, escape_typst, escape_typst_string_literal,
    render_page_number_format, resolve_variable, resolve_variable_to_typst,
    resolve_variable_with_context, safe_typst_token, wrap_alignment, wrap_alignment_raw,
};
use studio_core::converter::nodes::text::{render_bullet_list, render_heading, render_paragraph};
use studio_core::converter::builder::{json_to_typst, render_node};
use studio_core::converter::nodes::media::render_image;
use studio_core::converter::nodes::table::cell::{render_footer_cell, FormulaOutcome};
use studio_core::text::fill_value;
use studio_core::domain::{
    DocumentRequest, InlineContent, Node, OutputFormat, PageHeaderFooter, PageSettings,
    TableCellContent, TextNode, VariableNode,
};
use studio_core::engines::typst::TypstEngine;
use studio_core::engines::typst::{finish_pdf, hex_digest, layout_hash};
use studio_core::json::{to_json_string, Json};

fn text(t: &str) -> InlineContent {
    InlineContent::Text(TextNode {
        node_type: None,
        text: t.to_string(),
        bold: None,
        italic: None,
        font_family: None,
        size: None,
        color: None,
        underline: None,
        strike: None,
        link: None,
    })
}

fn obj(entries: Vec<(&str, Json)>) -> Json {
    Json::Object(entries.into_iter().map(|(k, v)| (k.to_string(), v)).collect())
}

#[test]
fn escape_typst_specials() {
    assert_eq!(escape_typst("a*b_c#d"), "a\\*b\\_c\\#d");
    assert_eq!(escape_typst("$5 <x> [y] `z` ~ ^ ' \" \\ @"), "\\$5 \\<x\\> \\[y\\] \\`z\\` \\~ \\^ \\' \\\" \\\\ \\@");
    assert_eq!(escape_typst("plain text"), "plain text");
}

#[test]
fn string_literal_escaping() {
    assert_eq!(escape_typst_string_literal("a\"b\\c"), "a\\\"b\\\\c");
}

#[test]
fn safe_tokens() {
    assert_eq!(safe_typst_token("12pt", "1em"), "12pt");
    assert_eq!(safe_typst_token("+1.5%", "1em"), "+1.5%");
    assert_eq!(safe_typst_token("1em); #evil(", "1em"), "1em");
    assert_eq!(safe_typst_token("", "auto"), "auto");
    assert_eq!(safe_typst_token(&"1".repeat(33), "auto"), "auto");
}

#[test]
fn colours() {
    assert_eq!(color_expr("#ff0000"), "rgb(\"#ff0000\")");
    assert_eq!(color_expr("red"), "red");
    assert_eq!(color_expr("blue, stroke: 9pt"), "black");
    assert_eq!(color_expr("red) #panic("), "black");
    assert_eq!(color_expr(""), "black");
}

#[test]
fn colour_with_alpha() {
    let out = color_expr_with_alpha("#ff0000", 51);
    assert!(out.contains("33"), "{out}");
}

#[test]
fn alignment_wrappers() {
    assert_eq!(wrap_alignment("x", &Some("right".to_string())), "#align(right)[\nx\n]");
    assert_eq!(wrap_alignment("x", &Some("left".to_string())), "x");
    assert_eq!(wrap_alignment_raw("x", &Some("center".to_string())), "#align(center)[x]");
    assert_eq!(wrap_alignment_raw("x", &Some("justify".to_string())), "x");
}

#[test]
fn page_number_formats() {
    assert_eq!(
        render_page_number_format("Page {current} of {total}"),
        "Page #counter(page).display() of #context counter(page).final().first()"
    );
    assert_eq!(render_page_number_format("#{total}"), "\\##context counter(page).final().first()");
    assert_eq!(render_page_number_format("none"), "none");
}

#[test]
fn variables_resolved_now_or_at_compile_time() {
    let data = obj(vec![
        ("name", Json::Str("A*B".to_string())),
        ("items", Json::Array(vec![obj(vec![("qty", Json::Number("3".to_string()))])])),
        ("ok", Json::Bool(true)),
    ]);
    assert_eq!(resolve_variable("name", &data), "A\\*B");
    assert_eq!(resolve_variable("items.0.qty", &data), "3");
    assert_eq!(resolve_variable("ok", &data), "true");
    assert_eq!(resolve_variable("items", &data), "[INVALID TYPE]");
    assert_eq!(resolve_variable("nope", &data), "[MISSING: nope]");
    let local = obj(vec![("name", Json::Str("local".to_string()))]);
    assert_eq!(resolve_variable_with_context("name", &local, &data), "local");
    assert_eq!(resolve_variable_with_context("ok", &local, &data), "true");
    assert_eq!(resolve_variable_to_typst("a.b"), "#safe-get(data, \"a.b\")");
}

#[test]
fn paragraphs_headings_lists() {
    let data = obj(vec![]);
    assert_eq!(render_paragraph(&[text("Hi *")], &None, &data), "Hi \\*\n\n");
    assert_eq!(render_paragraph(&[], &None, &data), "");
    assert_eq!(
        render_heading(2, &[text("T")], &Some("center".to_string()), &data),
        "#align(center)[\n== T\n]\n\n"
    );
    let var = InlineContent::Variable(VariableNode { node_type: None, key: "k".to_string() });
    assert_eq!(
        render_bullet_list(&[vec![text("a")], vec![var]], &data),
        "#list(\n  indent: 1cm,\n  [a],\n  [#safe-get(data, \"k\")],\n)\n\n"
    );
}

#[test]
fn compact_json_text() {
    let v = obj(vec![
        ("a", Json::Array(vec![Json::Null, Json::Bool(false), Json::Number("1.5".to_string())])),
        ("s", Json::Str("q\"\n".to_string())),
    ]);
    assert_eq!(to_json_string(&v), "{\"a\":[null,false,1.5],\"s\":\"q\\\"\\n\"}");
}

#[test]
fn layout_hash_is_sha256_hex() {
    let h = layout_hash("");
    assert_eq!(h, "e3b0c44298fc1c149afbf4c8996fb92427ae41e4649b934ca495991b7852b855");
    let h2 = layout_hash("abc");
    assert_eq!(h2, "ba7816bf8f01cfea414140de5dae2223b00361a396177a9cb410ff61f20015ad");
    assert_eq!(layout_hash("abc"), h2);
}

fn content() -> Vec<Node> {
    vec![
        Node::Paragraph {
            content: vec![
                text("Dear "),
                InlineContent::Variable(VariableNode { node_type: None, key: "name".to_string() }),
            ],
            alignment: None,
        },
        Node::Table {
            headers: Some(vec!["Item".to_string()]),
            rows: None,
            loop_data: Some("items".to_string()),
            row_template: Some(vec![TableCellContent::Variable {
                key: "label".to_string(),
                bold: None,
                colspan: None,
                rowspan: None,
                fill: None,
            }]),
            footer: None,
            style: None,
        },
    ]
}

fn items_data(name: &str, labels: &[&str]) -> Json {
    obj(vec![
        ("name", Json::Str(name.to_string())),
        (
            "items",
            Json::Array(labels.iter().map(|l| obj(vec![("label", Json::Str(l.to_string()))])).collect()),
        ),
    ])
}

#[test]
fn layout_does_not_depend_on_the_data() {
    let a = json_to_typst(&content(), &items_data("Ann", &["x"]), &None, &vec![]).ok().unwrap();
    let b = json_to_typst(&content(), &items_data("Bob", &["y", "z"]), &None, &vec![]).ok().unwrap();
    assert_eq!(a.markup, b.markup);
    assert!(a.markup.contains("Dear #safe-get(data, \"name\")"));
    assert!(a.markup.contains("@@TABLE_ROWS_0"));
    assert_eq!(a.table_requests.len(), 1);
}

#[test]
fn prepared_document_fills_the_table_and_carries_the_data() {
    let data = items_data("Ann", &["pen", "ink"]);
    let layout = json_to_typst(&content(), &data, &None, &vec![]).ok().unwrap();
    let request = DocumentRequest {
        template_id: "t".to_string(),
        data,
        content: content(),
        page: None,
        format: OutputFormat::Pdf,
        security: None,
    };
    let prepared = TypstEngine.prepare(&layout, &request, &vec![]).ok().unwrap();
    assert!(prepared.markup.starts_with("#let data = json(\"data.json\")\n"));
    assert!(!prepared.markup.contains("@@TABLE_ROWS_0"));
    assert!(prepared.markup.contains("pen") && prepared.markup.contains("ink"));
    let (name, bytes) = prepared.assets.last().unwrap();
    assert_eq!(name, "data.json");
    assert_eq!(
        String::from_utf8(bytes.clone()).unwrap(),
        "{\"items\":[{\"label\":\"pen\"},{\"label\":\"ink\"}],\"name\":\"Ann\"}"
    );
}

#[test]
fn digests_print_as_lowercase_hex() {
    assert_eq!(hex_digest(&[0x00, 0x0f, 0xa0, 0xff]), "000fa0ff");
    assert_eq!(hex_digest(&[]), "");
}

#[test]
fn header_variables_keep_the_layout_independent_of_the_data() {
    let page = || {
        Some(PageSettings {
            header: Some(PageHeaderFooter {
                content: vec![
                    text("ACME Bank "),
                    InlineContent::Variable(VariableNode { node_type: None, key: "name".to_string() }),
                ],
                alignment: Some("right".to_string()),
                first_page_only: None,
                skip_first_page: None,
                first_page_content: None,
            }),
            footer: None,
            background: None,
            watermark: None,
            default_font: None,
        })
    };
    let a = json_to_typst(&content(), &items_data("Ann", &[]), &page(), &vec![]).ok().unwrap();
    let b = json_to_typst(&content(), &items_data("Bob", &["q"]), &page(), &vec![]).ok().unwrap();
    assert_eq!(a.markup, b.markup);
    assert!(a.markup.contains("ACME Bank #safe-get(data, \"name\")"));
    assert!(!a.markup.contains("Ann"));
}

#[test]
fn image_lengths_are_checked() {
    let mut assets = Vec::new();
    let out = render_image(
        "data:image/png;base64,iVBORw0KGgo=",
        &Some("1cm) #panic(".to_string()),
        &Some("2cm".to_string()),
        &None,
        &vec![],
        &mut assets,
    )
    .unwrap();
    assert_eq!(out, "#image(\"__asset_0.png\", format: \"png\", width: auto, height: 2cm)\n\n");
    assert_eq!(assets.len(), 1);
}

#[test]
fn footer_format_placeholders() {
    let cell = TableCellContent::Formula {
        formula: "=SUM(total)".to_string(),
        format: Some("NPR {value:,.2f}".to_string()),
        locale: None,
        decimal_places: None,
        bold: None,
        colspan: None,
        rowspan: None,
        fill: None,
    };
    let outcome = Some(FormulaOutcome { raw: "3500".to_string(), number: Some("3,500.00".to_string()) });
    assert_eq!(render_footer_cell(&cell, &None, 0, &outcome), "NPR 3,500.00");
    assert_eq!(fill_value("{value} / {value:x} / {value", "7"), "7 / 7 / {value");
    assert_eq!(fill_value("no placeholder", "7"), "no placeholder");
}

#[test]
fn too_deep_nesting_changes_nothing() {
    let mut assets = vec![("a".to_string(), vec![1u8])];
    let mut qrs = Vec::new();
    let mut tables = Vec::new();
    let r = render_node(&Node::PageBreak, &obj(vec![]), &vec![], &mut assets, &mut qrs, &mut tables, 33);
    assert_eq!(r.err().unwrap(), "Max nesting depth exceeded");
    assert_eq!(assets.len(), 1);
    assert!(qrs.is_empty() && tables.is_empty());
    let r = render_node(&Node::PageBreak, &obj(vec![]), &vec![], &mut assets, &mut qrs, &mut tables, 32);
    assert_eq!(r.ok().unwrap(), "#pagebreak()\n\n");
}

#[test]
fn finished_pdf_without_security_keeps_the_bytes() {
    let request = DocumentRequest {
        template_id: "Loan offer/2024".to_string(),
        data: obj(vec![]),
        content: vec![],
        page: None,
        format: OutputFormat::Pdf,
        security: None,
    };
    let out = finish_pdf(vec![1, 2, 3], &request).ok().unwrap();
    assert_eq!(out.bytes, vec![1, 2, 3]);
    assert_eq!(out.mime_type, "application/pdf");
    assert_eq!(out.suggested_filename, "Loan_offer_2024.pdf");
}
