//! Paragraphs, headings and lists.
use vstd::prelude::*;
use crate::converter::calculations::str_lit_body;
use crate::converter::context::{
    align_block_spec, color_expr, color_spec, escape_typst_string_literal, push_escaped,
    resolve_variable_to_typst, safe_token, safe_typst_token, typst_escape, variable_code,
    wrap_alignment,
};
use crate::domain::{InlineContent, TextNode};
use crate::json::Json;
use crate::text::{chars_of, flat_map, newline_to, push_str, string_from};

verus! {

broadcast use vstd::string::group_string_axioms;

pub open spec fn wrap_if(on: Option<bool>, open: Seq<char>, text: Seq<char>, close: Seq<char>) -> Seq<
    char,
> {
    if on == Some(true) {
        open + text + close
    } else {
        text
    }
}

/// The `#text(...)` arguments of a run: font, size and colour, those that
/// are given, joined with `, `.
pub open spec fn text_args(t: TextNode) -> Seq<char> {
    join_comma(text_arg_parts(t))
}

pub open spec fn text_arg_parts(t: TextNode) -> Seq<Seq<char>> {
    let font = match t.font_family {
        Some(f) => seq!["font: \""@ + str_lit_body(f@) + "\""@],
        None => Seq::empty(),
    };
    let size = match t.size {
        Some(s) => seq!["size: "@ + safe_token(s@, "12pt"@)],
        None => Seq::empty(),
    };
    let fill = match t.color {
        Some(c) => seq!["fill: "@ + color_spec(c@)],
        None => Seq::empty(),
    };
    font + size + fill
}

pub open spec fn join_comma(parts: Seq<Seq<char>>) -> Seq<char>
    decreases parts.len(),
{
    if parts.len() == 0 {
        Seq::empty()
    } else if parts.len() == 1 {
        parts[0]
    } else {
        join_comma(parts.drop_last()) + ", "@ + parts.last()
    }
}

/// One styled run of text: escaped, line breaks as paragraph breaks, then
/// bold, italic, underline, strike, the `#text` wrapper and the link, in
/// that order.
pub open spec fn text_run(t: TextNode) -> Seq<char> {
    let base = flat_map(typst_escape(t.text@), newline_to("\n\n"@));
    let c1 = wrap_if(t.bold, "*"@, base, "*"@);
    let c2 = wrap_if(t.italic, "_"@, c1, "_"@);
    let c3 = wrap_if(t.underline, "#underline["@, c2, "]"@);
    let c4 = wrap_if(t.strike, "#strike["@, c3, "]"@);
    let args = text_args(t);
    let c5 = if t.font_family is Some || t.size is Some || t.color is Some {
        "#text("@ + args + ")["@ + c4 + "]"@
    } else {
        c4
    };
    match t.link {
        Some(url) => "#link(\""@ + str_lit_body(url@) + "\")["@ + c5 + "]"@,
        None => c5,
    }
}

/// A run with no font, size, colour or link: bold wraps the text in
/// Typst's strong markup `*...*`, italic wraps that in the emphasis markup
/// `_..._`, then underline in `#underline[...]` and strike-through in
/// `#strike[...]`.
pub proof fn law_bold_and_italic_markers(t: TextNode)
    requires
        t.font_family is None,
        t.size is None,
        t.color is None,
        t.link is None,
    ensures
        text_run(TextNode { bold: Some(true), italic: None, underline: None, strike: None, ..t })
            == "*"@ + text_run(TextNode { bold: None, italic: None, underline: None, strike: None, ..t })
            + "*"@,
        text_run(TextNode { italic: Some(true), underline: None, strike: None, ..t }) == "_"@
            + text_run(TextNode { italic: None, underline: None, strike: None, ..t }) + "_"@,
        text_run(TextNode { bold: None, italic: None, underline: None, strike: None, ..t }) == flat_map(
            typst_escape(t.text@),
            newline_to("\n\n"@),
        ),
        text_run(TextNode { underline: Some(true), strike: None, ..t }) == "#underline["@ + text_run(
            TextNode { underline: None, strike: None, ..t },
        ) + "]"@,
        text_run(TextNode { strike: Some(true), ..t }) == "#strike["@ + text_run(
            TextNode { strike: None, ..t },
        ) + "]"@,
        text_run(TextNode { underline: Some(true), strike: Some(true), ..t }) == "#strike["@
            + "#underline["@ + text_run(TextNode { underline: None, strike: None, ..t }) + "]"@
            + "]"@,
{
}

fn wrap_text(on: Option<bool>, open: &str, text: String, close: &str) -> (r: String)
    ensures
        r@ == wrap_if(on, open@, text@, close@),
{
    if on == Some(true) {
        let mut out = string_from(open);
        push_str(&mut out, text.as_str());
        push_str(&mut out, close);
        out
    } else {
        text
    }
}

pub fn join_strings(parts: &Vec<String>) -> (r: String)
    ensures
        r@ == join_comma(crate::text::strings_view(parts@)),
{
    let ghost pv = crate::text::strings_view(parts@);
    let mut out = String::new();
    for i in 0..parts.len()
        invariant
            pv == crate::text::strings_view(parts@),
            out@ == join_comma(pv.take(i as int)),
    {
        if i > 0 {
            push_str(&mut out, ", ");
        }
        push_str(&mut out, parts[i].as_str());
        assert(pv.take(i + 1).drop_last() =~= pv.take(i as int));
        assert(out@ =~= join_comma(pv.take(i + 1)));
    }
    assert(pv.take(pv.len() as int) =~= pv);
    out
}

pub fn render_text_run(t: &TextNode) -> (r: String)
    ensures
        r@ == text_run(*t),
{
    let cs = chars_of(t.text.as_str());
    let mut e = String::new();
    push_escaped(&mut e, cs.as_slice());
    assert(e@ =~= typst_escape(t.text@));
    let ec = chars_of(e.as_str());
    let dbl = crate::text::replace_newlines(ec.as_slice(), "\n\n");
    let mut content = crate::text::string_from_chars(dbl.as_slice());
    content = wrap_text(t.bold, "*", content, "*");
    content = wrap_text(t.italic, "_", content, "_");
    content = wrap_text(t.underline, "#underline[", content, "]");
    content = wrap_text(t.strike, "#strike[", content, "]");
    let mut args: Vec<String> = Vec::new();
    let ghost c4 = content@;
    match &t.font_family {
        Some(f) => {
            let mut a = string_from("font: \"");
            push_str(&mut a, escape_typst_string_literal(f.as_str()).as_str());
            push_str(&mut a, "\"");
            args.push(a);
        },
        None => {},
    }
    match &t.size {
        Some(s) => {
            let mut a = string_from("size: ");
            push_str(&mut a, safe_typst_token(s.as_str(), "12pt").as_str());
            args.push(a);
        },
        None => {},
    }
    match &t.color {
        Some(c) => {
            let mut a = string_from("fill: ");
            push_str(&mut a, color_expr(c.as_str()).as_str());
            args.push(a);
        },
        None => {},
    }
    assert(crate::text::strings_view(args@) =~= text_arg_parts(*t));
    if args.len() > 0 {
        let joined = join_strings(&args);
        let mut w = string_from("#text(");
        push_str(&mut w, joined.as_str());
        push_str(&mut w, ")[");
        push_str(&mut w, content.as_str());
        push_str(&mut w, "]");
        content = w;
    }
    match &t.link {
        Some(url) => {
            let mut w = string_from("#link(\"");
            push_str(&mut w, escape_typst_string_literal(url.as_str()).as_str());
            push_str(&mut w, "\")[");
            push_str(&mut w, content.as_str());
            push_str(&mut w, "]");
            content = w;
        },
        None => {},
    }
    content
}

/// An inline item as body markup; variables are read from the data when
/// the document is compiled.
pub open spec fn inline_item(item: InlineContent) -> Seq<char> {
    match item {
        InlineContent::Text(t) => text_run(t),
        InlineContent::Variable(v) => variable_code(v.key@),
        InlineContent::PageNumber(_) => "#counter(page).display()"@,
    }
}

pub open spec fn inline_body(items: Seq<InlineContent>) -> Seq<char>
    decreases items.len(),
{
    if items.len() == 0 {
        Seq::empty()
    } else {
        inline_body(items.drop_last()) + inline_item(items.last())
    }
}

pub fn render_inline(items: &[InlineContent]) -> (r: String)
    ensures
        r@ == inline_body(items@),
{
    let mut out = String::new();
    for i in 0..items.len()
        invariant
            out@ == inline_body(items@.take(i as int)),
    {
        match &items[i] {
            InlineContent::Text(t) => {
                let s = render_text_run(t);
                push_str(&mut out, s.as_str());
            },
            InlineContent::Variable(v) => {
                let s = resolve_variable_to_typst(v.key.as_str());
                push_str(&mut out, s.as_str());
            },
            InlineContent::PageNumber(_) => push_str(&mut out, "#counter(page).display()"),
        }
        assert(items@.take(i + 1).drop_last() =~= items@.take(i as int));
    }
    assert(items@.take(items@.len() as int) =~= items@);
    out
}

pub open spec fn paragraph_spec(content: Seq<InlineContent>, alignment: Option<String>) -> Seq<char> {
    let text = inline_body(content);
    if text.len() == 0 {
        Seq::empty()
    } else {
        align_block_spec(text, alignment) + "\n\n"@
    }
}

/// A paragraph; an empty one renders as nothing.
pub fn render_paragraph(content: &[InlineContent], alignment: &Option<String>, _data: &Json) -> (r:
    String)
    ensures
        r@ == paragraph_spec(content@, *alignment),
{
    let text = render_inline(content);
    if text.as_str().unicode_len() == 0 {
        String::new()
    } else {
        let mut out = wrap_alignment(text.as_str(), alignment);
        push_str(&mut out, "\n\n");
        out
    }
}

pub open spec fn heading_spec(level: u8, content: Seq<InlineContent>, alignment: Option<String>) -> Seq<
    char,
> {
    align_block_spec(
        Seq::new(level as nat, |i: int| '=') + " "@ + inline_body(content),
        alignment,
    ) + "\n\n"@
}

/// A heading: as many `=` as its level, a space, then its text.
pub fn render_heading(level: u8, content: &[InlineContent], alignment: &Option<String>, _data: &Json) -> (r:
    String)
    ensures
        r@ == heading_spec(level, content@, *alignment),
{
    let mut head = String::new();
    let mut i: u8 = 0;
    while i < level
        invariant
            i <= level,
            head@ == Seq::new(i as nat, |k: int| '='),
        decreases level - i,
    {
        crate::text::push_char(&mut head, '=');
        assert(head@ =~= Seq::new((i + 1) as nat, |k: int| '='));
        i = i + 1;
    }
    push_str(&mut head, " ");
    let text = render_inline(content);
    push_str(&mut head, text.as_str());
    let mut out = wrap_alignment(head.as_str(), alignment);
    push_str(&mut out, "\n\n");
    out
}

pub open spec fn list_items(items: Seq<Vec<InlineContent>>) -> Seq<char>
    decreases items.len(),
{
    if items.len() == 0 {
        Seq::empty()
    } else {
        list_items(items.drop_last()) + "  ["@ + inline_body(items.last()@) + "],\n"@
    }
}

pub open spec fn bullet_list_spec(items: Seq<Vec<InlineContent>>) -> Seq<char> {
    "#list(\n  indent: 1cm,\n"@ + list_items(items) + ")\n\n"@
}

pub fn render_bullet_list(items: &[Vec<InlineContent>], _data: &Json) -> (r: String)
    ensures
        r@ == bullet_list_spec(items@),
{
    let mut out = string_from("#list(\n  indent: 1cm,\n");
    let ghost start = out@;
    for i in 0..items.len()
        invariant
            out@ == start + list_items(items@.take(i as int)),
    {
        push_str(&mut out, "  [");
        let s = render_inline(items[i].as_slice());
        push_str(&mut out, s.as_str());
        push_str(&mut out, "],\n");
        assert(items@.take(i + 1).drop_last() =~= items@.take(i as int));
        assert(out@ =~= start + list_items(items@.take(i + 1)));
    }
    assert(items@.take(items@.len() as int) =~= items@);
    push_str(&mut out, ")\n\n");
    out
}

} // verus!
