//! The HTML engine: paragraphs, headings, lists, page breaks and spacers
//! as HTML; other nodes are marked as unsupported.
pub mod converter;

use vstd::prelude::*;
use crate::domain::{DocumentRequest, InlineContent, Node};
use crate::engines::html::converter::{sanitize_filename, sanitized};
use crate::engines::RenderOutput;
use crate::json::{entries_get, entries_lookup, split_dots, Json};
use crate::text::{chars_of, decimal, flat_map, lemma_flat_map_take, push_char, push_decimal, push_str, string_from};

verus! {

broadcast use vstd::string::group_string_axioms;

pub struct HtmlEngine;

pub open spec fn html_char(c: char) -> Seq<char> {
    if c == '&' {
        "&amp;"@
    } else if c == '<' {
        "&lt;"@
    } else if c == '>' {
        "&gt;"@
    } else if c == '"' {
        "&quot;"@
    } else {
        seq![c]
    }
}

pub open spec fn html_char_fn() -> spec_fn(char) -> Seq<char> {
    |c: char| html_char(c)
}

/// Text for HTML content: `&`, `<`, `>` and `"` escaped.
pub open spec fn html_text(s: Seq<char>) -> Seq<char> {
    flat_map(s, html_char_fn())
}

fn push_html_text(out: &mut String, s: &str)
    ensures
        final(out)@ == old(out)@ + html_text(s@),
{
    let cs = chars_of(s);
    let ghost start = out@;
    for i in 0..cs.len()
        invariant
            cs@ == s@,
            out@ == start + flat_map(cs@.take(i as int), html_char_fn()),
    {
        proof {
            lemma_flat_map_take(cs@, i as int, html_char_fn());
            reveal_strlit("&amp;");
            reveal_strlit("&lt;");
            reveal_strlit("&gt;");
            reveal_strlit("&quot;");
        }
        let c = cs[i];
        if c == '&' {
            push_str(out, "&amp;");
        } else if c == '<' {
            push_str(out, "&lt;");
        } else if c == '>' {
            push_str(out, "&gt;");
        } else if c == '"' {
            push_str(out, "&quot;");
        } else {
            push_char(out, c);
        }
        assert(out@ =~= start + flat_map(cs@.take(i + 1), html_char_fn()));
    }
    assert(cs@.take(cs@.len() as int) =~= cs@);
}

/// A variable's value through objects only: text, numbers and booleans.
pub open spec fn object_walk(v: Json, parts: Seq<Seq<char>>) -> Option<Json>
    decreases parts.len(),
{
    if parts.len() == 0 {
        Some(v)
    } else {
        match v {
            Json::Object(entries) => match entries_get(entries@, parts[0]) {
                Some(next) => object_walk(next, parts.drop_first()),
                None => None,
            },
            _ => None,
        }
    }
}

pub open spec fn var_text(key: Seq<char>, data: Json) -> Option<Seq<char>> {
    match object_walk(data, split_dots(key)) {
        Some(Json::Str(s)) => Some(s@),
        Some(Json::Number(n)) => Some(n@),
        Some(Json::Bool(b)) => Some(
            if b {
                "true"@
            } else {
                "false"@
            },
        ),
        _ => None,
    }
}

fn resolve_var(key: &str, data: &Json) -> (r: Option<String>)
    ensures
        match r {
            Some(s) => var_text(key@, *data) == Some(s@),
            None => var_text(key@, *data) is None,
        },
{
    let parts = crate::json::split_dots_exec(key);
    let mut current: &Json = data;
    assert(split_dots(key@).skip(0) =~= split_dots(key@));
    for i in 0..parts.len()
        invariant
            crate::text::strings_view(parts@) == split_dots(key@),
            object_walk(*data, split_dots(key@)) == object_walk(
                *current,
                split_dots(key@).skip(i as int),
            ),
    {
        assert(split_dots(key@).skip(i as int).drop_first() =~= split_dots(key@).skip(i + 1));
        assert(split_dots(key@).skip(i as int)[0] == parts@[i as int]@);
        match current {
            Json::Object(entries) => {
                let k = chars_of(parts[i].as_str());
                match entries_lookup(entries, k.as_slice()) {
                    Some(next) => {
                        current = next;
                    },
                    None => return None,
                }
            },
            _ => return None,
        }
    }
    assert(split_dots(key@).skip(parts@.len() as int) =~= Seq::<Seq<char>>::empty());
    match current {
        Json::Str(s) => Some(s.clone()),
        Json::Number(n) => Some(n.clone()),
        Json::Bool(b) => Some(string_from(crate::converter::context::bool_text(*b))),
        _ => None,
    }
}

pub open spec fn html_inline_item(item: InlineContent, data: Json) -> Seq<char> {
    match item {
        InlineContent::Text(t) => {
            let a = html_text(t.text@);
            let b = if t.bold == Some(true) {
                "<strong>"@ + a + "</strong>"@
            } else {
                a
            };
            if t.italic == Some(true) {
                "<em>"@ + b + "</em>"@
            } else {
                b
            }
        },
        InlineContent::Variable(v) => match var_text(v.key@, data) {
            Some(s) => html_text(s),
            None => Seq::empty(),
        },
        InlineContent::PageNumber(_) => "{{page}}"@,
    }
}

pub open spec fn html_inline(items: Seq<InlineContent>, data: Json) -> Seq<char>
    decreases items.len(),
{
    if items.len() == 0 {
        Seq::empty()
    } else {
        html_inline(items.drop_last(), data) + html_inline_item(items.last(), data)
    }
}

fn render_inline(items: &[InlineContent], data: &Json) -> (r: String)
    ensures
        r@ == html_inline(items@, *data),
{
    let mut out = String::new();
    for i in 0..items.len()
        invariant
            out@ == html_inline(items@.take(i as int), *data),
    {
        let ghost before = out@;
        match &items[i] {
            InlineContent::Text(t) => {
                let mut text = String::new();
                push_html_text(&mut text, t.text.as_str());
                if t.bold == Some(true) {
                    let mut w = string_from("<strong>");
                    push_str(&mut w, text.as_str());
                    push_str(&mut w, "</strong>");
                    text = w;
                }
                if t.italic == Some(true) {
                    let mut w = string_from("<em>");
                    push_str(&mut w, text.as_str());
                    push_str(&mut w, "</em>");
                    text = w;
                }
                push_str(&mut out, text.as_str());
            },
            InlineContent::Variable(v) => {
                match resolve_var(v.key.as_str(), data) {
                    Some(val) => push_html_text(&mut out, val.as_str()),
                    None => {},
                }
            },
            InlineContent::PageNumber(_) => push_str(&mut out, "{{page}}"),
        }
        assert(items@.take(i + 1).drop_last() =~= items@.take(i as int));
        assert(out@ =~= html_inline(items@.take(i + 1), *data));
    }
    assert(items@.take(items@.len() as int) =~= items@);
    out
}

pub open spec fn align_attr(alignment: Option<String>) -> Seq<char> {
    match alignment {
        Some(a) => " style=\"text-align:"@ + a@ + "\""@,
        None => Seq::empty(),
    }
}

pub open spec fn list_html(items: Seq<Vec<InlineContent>>, data: Json) -> Seq<char>
    decreases items.len(),
{
    if items.len() == 0 {
        Seq::empty()
    } else {
        list_html(items.drop_last(), data) + "  <li>"@ + html_inline(items.last()@, data)
            + "</li>\n"@
    }
}

/// A node as HTML.
pub open spec fn html_node(node: Node, data: Json) -> Seq<char> {
    match node {
        Node::Paragraph { content, alignment } => "<p"@ + align_attr(alignment) + ">"@ + html_inline(
            content@,
            data,
        ) + "</p>\n"@,
        Node::Heading { level, content, alignment } => "<h"@ + decimal(level as nat) + align_attr(
            alignment,
        ) + ">"@ + html_inline(content@, data) + "</h"@ + decimal(level as nat) + ">\n"@,
        Node::BulletList { items } => "<ul>\n"@ + list_html(items@, data) + "</ul>\n"@,
        Node::PageBreak => "<hr />\n"@,
        Node::Spacer { height } => "<div style=\"height:"@ + height@ + "\"></div>\n"@,
        _ => "<!-- Unsupported node type -->\n"@,
    }
}

fn push_align_attr(out: &mut String, alignment: &Option<String>)
    ensures
        final(out)@ == old(out)@ + align_attr(*alignment),
{
    match alignment {
        Some(a) => {
            push_str(out, " style=\"text-align:");
            push_str(out, a.as_str());
            push_str(out, "\"");
        },
        None => {},
    }
}

fn render_node(node: &Node, data: &Json) -> (r: String)
    ensures
        r@ == html_node(*node, *data),
{
    let mut out = String::new();
    match node {
        Node::Paragraph { content, alignment } => {
            push_str(&mut out, "<p");
            push_align_attr(&mut out, alignment);
            push_str(&mut out, ">");
            push_str(&mut out, render_inline(content.as_slice(), data).as_str());
            push_str(&mut out, "</p>\n");
        },
        Node::Heading { level, content, alignment } => {
            push_str(&mut out, "<h");
            push_decimal(&mut out, *level as usize);
            push_align_attr(&mut out, alignment);
            push_str(&mut out, ">");
            push_str(&mut out, render_inline(content.as_slice(), data).as_str());
            push_str(&mut out, "</h");
            push_decimal(&mut out, *level as usize);
            push_str(&mut out, ">\n");
        },
        Node::BulletList { items } => {
            push_str(&mut out, "<ul>\n");
            let ghost start = out@;
            for i in 0..items.len()
                invariant
                    out@ == start + list_html(items@.take(i as int), *data),
            {
                push_str(&mut out, "  <li>");
                push_str(&mut out, render_inline(items[i].as_slice(), data).as_str());
                push_str(&mut out, "</li>\n");
                assert(items@.take(i + 1).drop_last() =~= items@.take(i as int));
                assert(out@ =~= start + list_html(items@.take(i + 1), *data));
            }
            assert(items@.take(items@.len() as int) =~= items@);
            push_str(&mut out, "</ul>\n");
        },
        Node::PageBreak => push_str(&mut out, "<hr />\n"),
        Node::Spacer { height } => {
            push_str(&mut out, "<div style=\"height:");
            push_str(&mut out, height.as_str());
            push_str(&mut out, "\"></div>\n");
        },
        _ => push_str(&mut out, "<!-- Unsupported node type -->\n"),
    }
    assert(out@ =~= html_node(*node, *data));
    out
}

pub open spec fn html_body(nodes: Seq<Node>, data: Json) -> Seq<char>
    decreases nodes.len(),
{
    if nodes.len() == 0 {
        Seq::empty()
    } else {
        html_body(nodes.drop_last(), data) + html_node(nodes.last(), data)
    }
}

fn render_nodes(nodes: &[Node], data: &Json) -> (r: Result<String, String>)
    ensures
        r matches Ok(s) && s@ == html_body(nodes@, *data),
{
    let mut out = String::new();
    for i in 0..nodes.len()
        invariant
            out@ == html_body(nodes@.take(i as int), *data),
    {
        push_str(&mut out, render_node(&nodes[i], data).as_str());
        assert(nodes@.take(i + 1).drop_last() =~= nodes@.take(i as int));
    }
    assert(nodes@.take(nodes@.len() as int) =~= nodes@);
    Ok(out)
}

/// The whole page: a minimal HTML document titled with the (sanitised)
/// template id.
pub open spec fn html_page(template_id: Seq<char>, body: Seq<char>) -> Seq<char> {
    "<!DOCTYPE html><html><head><meta charset='UTF-8'><title>"@ + template_id
        + "</title></head><body>"@ + body + "</body></html>"@
}

impl HtmlEngine {
    pub fn render(&self, request: &DocumentRequest) -> (r: Result<RenderOutput, String>)
        ensures
            r matches Ok(o) && o.bytes@ == vstd::utf8::encode_utf8(
                html_page(sanitized(request.template_id@), html_body(request.content@, request.data)),
            ) && o.mime_type@ == "text/html"@ && o.suggested_filename@ == sanitized(
                request.template_id@,
            ) + ".html"@,
    {
        let body = render_nodes(request.content.as_slice(), &request.data)?;
        let mut page = string_from(
            "<!DOCTYPE html><html><head><meta charset='UTF-8'><title>",
        );
        let id = sanitize_filename(request.template_id.as_str());
        push_str(&mut page, id.as_str());
        push_str(&mut page, "</title></head><body>");
        push_str(&mut page, body.as_str());
        push_str(&mut page, "</body></html>");
        let mut name = id;
        push_str(&mut name, ".html");
        Ok(
            RenderOutput {
                bytes: page.as_str().as_bytes_vec(),
                mime_type: string_from("text/html"),
                suggested_filename: name,
            },
        )
    }
}

} // verus!
