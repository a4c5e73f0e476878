//! The full HTML rendering of a document: every node kind, the
//! letterhead, the watermark, and a header/footer that repeats on printed
//! pages. Every client value that reaches markup is escaped or held to an
//! allow-list first.
use vstd::prelude::*;
use crate::converter::context::opt_is;
use crate::converter::nodes::layout::join_with;
use crate::converter::nodes::qr::{generate_qr_svg_text, plain_text, qr_svg_text_spec, resolve_plain};
use crate::converter::nodes::table::cell::{cell_bold, cell_spans, column_align};
use crate::engines::typst::{replace_first, replace_first_text};
use crate::converter::builder::text_node_of;
use crate::domain::{
    Node, PageSettings, opt_style_view, opt_text, InlineContent, PageHeaderFooter, StyleV, TableCellContent, TableStyle,
    TextNode, WatermarkSettings,
};
use crate::json::{json_text, to_json_string, value_at, Json};
use crate::text::{
    ascii_alnum, chars_of, flat_map, has_prefix, is_ascii_alnum, lemma_flat_map_take, newline_to,
    fill_value, fill_value_spec, opt_str_is, push_char, push_decimal, push_str, replace_newlines,
    starts_with, str_eq, string_from, string_from_chars, decimal,
};

verus! {

broadcast use vstd::string::group_string_axioms;

// ---------------------------------------------------------------
// Escaping and allow-lists
// ---------------------------------------------------------------

pub open spec fn escape_char(c: char) -> Seq<char> {
    if c == '&' {
        "&amp;"@
    } else if c == '<' {
        "&lt;"@
    } else if c == '>' {
        "&gt;"@
    } else if c == '"' {
        "&quot;"@
    } else if c == '\'' {
        "&#x27;"@
    } else {
        seq![c]
    }
}

pub open spec fn escape_char_fn() -> spec_fn(char) -> Seq<char> {
    |c: char| escape_char(c)
}

/// Text with `&`, `<`, `>`, `"` and `'` replaced by entities.
pub open spec fn html_escape_spec(s: Seq<char>) -> Seq<char> {
    flat_map(s, escape_char_fn())
}

fn push_escaped(out: &mut String, s: &str)
    ensures
        final(out)@ == old(out)@ + html_escape_spec(s@),
{
    let cs = chars_of(s);
    let ghost start = out@;
    for i in 0..cs.len()
        invariant
            cs@ == s@,
            out@ == start + flat_map(cs@.take(i as int), escape_char_fn()),
    {
        proof {
            lemma_flat_map_take(cs@, i as int, escape_char_fn());
        }
        let c = cs[i];
        if c == '&' {
            push_str(out, "&amp;");
        } else if c == '<' {
            push_str(out, "&lt;");
        } else if c == '>' {
            push_str(out, "&gt;");
        } else if c == '"' {
            push_str(out, "&quot;");
        } else if c == '\'' {
            push_str(out, "&#x27;");
        } else {
            push_char(out, c);
        }
        assert(out@ =~= start + flat_map(cs@.take(i + 1), escape_char_fn()));
    }
    assert(cs@.take(cs@.len() as int) =~= cs@);
}

/// Escapes text for element content or a double-quoted attribute value.
pub fn html_escape(s: &str) -> (r: String)
    ensures
        r@ == html_escape_spec(s@),
{
    let mut out = String::new();
    push_escaped(&mut out, s);
    assert(Seq::<char>::empty() + html_escape_spec(s@) =~= html_escape_spec(s@));
    out
}

/// The characters that could open or close markup or an attribute value.
pub open spec fn is_markup_char(c: char) -> bool {
    c == '<' || c == '>' || c == '"' || c == '\''
}

proof fn lemma_escape_char_clean(c: char)
    ensures
        forall|i: int| 0 <= i < escape_char(c).len() ==> !is_markup_char(#[trigger] escape_char(c)[i]),
{
    reveal_strlit("&amp;");
    reveal_strlit("&lt;");
    reveal_strlit("&gt;");
    reveal_strlit("&quot;");
    reveal_strlit("&#x27;");
}

/// Escaped text holds no `<`, `>`, `"` or `'`, whatever it was made from:
/// it can neither open a tag nor leave an attribute value.
pub proof fn law_html_escape_no_markup(s: Seq<char>)
    ensures
        forall|i: int|
            0 <= i < html_escape_spec(s).len() ==> !is_markup_char(#[trigger] html_escape_spec(s)[i]),
    decreases s.len(),
{
    if s.len() > 0 {
        law_html_escape_no_markup(s.drop_last());
        lemma_escape_char_clean(s.last());
        let a = html_escape_spec(s.drop_last());
        let b = escape_char(s.last());
        assert(html_escape_spec(s) == a + b);
        assert forall|i: int| 0 <= i < (a + b).len() implies !is_markup_char(#[trigger] (a + b)[i]) by {
            if i < a.len() {
                assert((a + b)[i] == a[i]);
            } else {
                assert((a + b)[i] == b[i - a.len()]);
            }
        }
    }
}

pub open spec fn starts_with_entity(s: Seq<char>, e: Seq<char>) -> bool {
    e.len() <= s.len() && s.take(e.len() as int) == e
}

/// Reading escaped text back: each of the five entities stands for its
/// character.
pub open spec fn html_unescape(s: Seq<char>) -> Seq<char>
    decreases s.len(),
{
    if s.len() == 0 {
        s
    } else if starts_with_entity(s, seq!['&', 'a', 'm', 'p', ';']) {
        seq!['&'] + html_unescape(s.skip(5))
    } else if starts_with_entity(s, seq!['&', 'l', 't', ';']) {
        seq!['<'] + html_unescape(s.skip(4))
    } else if starts_with_entity(s, seq!['&', 'g', 't', ';']) {
        seq!['>'] + html_unescape(s.skip(4))
    } else if starts_with_entity(s, seq!['&', 'q', 'u', 'o', 't', ';']) {
        seq!['"'] + html_unescape(s.skip(6))
    } else if starts_with_entity(s, seq!['&', '#', 'x', '2', '7', ';']) {
        seq!['\''] + html_unescape(s.skip(6))
    } else {
        seq![s[0]] + html_unescape(s.skip(1))
    }
}

/// Escaping loses nothing: reading the escaped text back gives the text.
pub proof fn law_html_escape_roundtrip(s: Seq<char>)
    ensures
        html_unescape(html_escape_spec(s)) == s,
    decreases s.len(),
{
    if s.len() > 0 {
        reveal_strlit("&amp;");
        reveal_strlit("&lt;");
        reveal_strlit("&gt;");
        reveal_strlit("&quot;");
        reveal_strlit("&#x27;");
        let rest = s.skip(1);
        assert(s =~= seq![s[0]] + rest);
        crate::text::lemma_flat_map_append(seq![s[0]], rest, escape_char_fn());
        assert(seq![s[0]].drop_last() =~= Seq::<char>::empty());
        assert(flat_map(Seq::<char>::empty(), escape_char_fn()) == Seq::<char>::empty());
        assert(flat_map(seq![s[0]], escape_char_fn()) =~= escape_char(s[0]));
        let e = html_escape_spec(s);
        let c = escape_char(s[0]);
        assert(e == c + html_escape_spec(rest));
        law_html_escape_roundtrip(rest);
        assert(e.take(c.len() as int) =~= c);
        assert(e.skip(c.len() as int) =~= html_escape_spec(rest));
        if s[0] == '&' {
            assert(c =~= seq!['&', 'a', 'm', 'p', ';']);
        } else if s[0] == '<' {
            assert(c =~= seq!['&', 'l', 't', ';']);
            assert(e[1] != 'a');
        } else if s[0] == '>' {
            assert(c =~= seq!['&', 'g', 't', ';']);
            assert(e[1] != 'a' && e[1] != 'l');
        } else if s[0] == '"' {
            assert(c =~= seq!['&', 'q', 'u', 'o', 't', ';']);
            assert(e[1] != 'a' && e[1] != 'l' && e[1] != 'g');
        } else if s[0] == '\'' {
            assert(c =~= seq!['&', '#', 'x', '2', '7', ';']);
            assert(e[1] != 'a' && e[1] != 'l' && e[1] != 'g' && e[1] != 'q');
        } else {
            assert(c =~= seq![s[0]]);
            assert(e[0] == s[0] && s[0] != '&');
        }
        assert(html_unescape(e) =~= s);
    }
}

pub open spec fn is_css_char(c: char) -> bool {
    is_ascii_alnum(c) || c == '.' || c == '-' || c == '%' || c == ' '
}

/// A CSS length or keyword that cannot leave a `style="..."` value: one to
/// 32 letters, digits, `.`, `-`, `%` or spaces.
pub open spec fn is_css_token(v: Seq<char>) -> bool {
    0 < v.len() <= 32 && forall|i: int| 0 <= i < v.len() ==> is_css_char(#[trigger] v[i])
}

pub open spec fn css_token(value: Seq<char>, fallback: Seq<char>) -> Seq<char> {
    if is_css_token(value) {
        value
    } else {
        fallback
    }
}

/// The value when it is a safe CSS token, else `fallback`.
fn safe_css_token(value: &str, fallback: &str) -> (r: String)
    ensures
        r@ == css_token(value@, fallback@),
{
    let cs = chars_of(value);
    if cs.len() == 0 || cs.len() > 32 {
        return string_from(fallback);
    }
    for i in 0..cs.len()
        invariant
            cs@ == value@,
            forall|j: int| 0 <= j < i ==> is_css_char(#[trigger] cs@[j]),
    {
        let c = cs[i];
        if !(ascii_alnum(c) || c == '.' || c == '-' || c == '%' || c == ' ') {
            return string_from(fallback);
        }
    }
    string_from(value)
}

/// What a CSS token check gives is a safe token whenever the fallback is
/// one.
pub proof fn law_css_token_is_safe(value: Seq<char>, fallback: Seq<char>)
    requires
        is_css_token(fallback),
    ensures
        is_css_token(css_token(value, fallback)),
{
}

pub open spec fn is_color_char(c: char) -> bool {
    is_ascii_alnum(c) || c == '#'
}

/// A CSS colour name or hex code: one to 32 letters, digits or `#`.
pub open spec fn is_css_color(v: Seq<char>) -> bool {
    0 < v.len() <= 32 && forall|i: int| 0 <= i < v.len() ==> is_color_char(#[trigger] v[i])
}

pub open spec fn css_color(value: Seq<char>, fallback: Seq<char>) -> Seq<char> {
    if is_css_color(value) {
        value
    } else {
        fallback
    }
}

fn safe_css_color(value: &str, fallback: &str) -> (r: String)
    ensures
        r@ == css_color(value@, fallback@),
{
    let cs = chars_of(value);
    if cs.len() == 0 || cs.len() > 32 {
        return string_from(fallback);
    }
    for i in 0..cs.len()
        invariant
            cs@ == value@,
            forall|j: int| 0 <= j < i ==> is_color_char(#[trigger] cs@[j]),
    {
        let c = cs[i];
        if !(ascii_alnum(c) || c == '#') {
            return string_from(fallback);
        }
    }
    string_from(value)
}

/// What a CSS colour check gives is a safe colour whenever the fallback
/// is one.
pub proof fn law_css_color_is_safe(value: Seq<char>, fallback: Seq<char>)
    requires
        is_css_color(fallback),
    ensures
        is_css_color(css_color(value, fallback)),
{
}

/// An image source kept only for `data:image/...`, `https://` and
/// `http://`, escaped for an attribute.
pub open spec fn image_src_spec(src: Seq<char>) -> Option<Seq<char>> {
    if has_prefix(src, "data:image/"@) || has_prefix(src, "https://"@) || has_prefix(
        src,
        "http://"@,
    ) {
        Some(html_escape_spec(src))
    } else {
        None
    }
}

fn safe_image_src(src: &str) -> (r: Option<String>)
    ensures
        match r {
            Some(s) => image_src_spec(src@) == Some(s@),
            None => image_src_spec(src@) is None,
        },
{
    if starts_with(src, "data:image/") || starts_with(src, "https://") || starts_with(
        src,
        "http://",
    ) {
        Some(html_escape(src))
    } else {
        None
    }
}

pub open spec fn is_name_char(c: char) -> bool {
    is_ascii_alnum(c) || c == '-' || c == '_'
}

pub open spec fn name_char(c: char) -> char {
    if is_name_char(c) {
        c
    } else {
        '_'
    }
}

/// At most the first 100 characters of `id`, each outside `[A-Za-z0-9_-]`
/// replaced by `_`; `document` when `id` is empty.
pub open spec fn sanitized(id: Seq<char>) -> Seq<char> {
    if id.len() == 0 {
        "document"@
    } else if id.len() <= 100 {
        id.map_values(|c: char| name_char(c))
    } else {
        id.take(100).map_values(|c: char| name_char(c))
    }
}

/// A file name or title made from a client-given identifier.
pub fn sanitize_filename(id: &str) -> (r: String)
    ensures
        r@ == sanitized(id@),
{
    let cs = chars_of(id);
    if cs.len() == 0 {
        return string_from("document");
    }
    let n: usize = if cs.len() <= 100 {
        cs.len()
    } else {
        100
    };
    let mut out = String::new();
    for i in 0..n
        invariant
            cs@ == id@,
            n <= cs@.len(),
            n == if id@.len() <= 100 {
                id@.len()
            } else {
                100
            },
            out@ == id@.take(i as int).map_values(|c: char| name_char(c)),
    {
        let c = cs[i];
        if ascii_alnum(c) || c == '-' || c == '_' {
            push_char(&mut out, c);
        } else {
            push_char(&mut out, '_');
        }
        assert(out@ =~= id@.take(i + 1).map_values(|c: char| name_char(c)));
    }
    assert(id@.len() <= 100 ==> id@.take(n as int) =~= id@);
    out
}

/// A sanitised name is never empty, holds at most 100 characters, and
/// only letters, digits, `-` and `_`.
pub proof fn law_sanitize_filename_safe(id: Seq<char>)
    ensures
        0 < sanitized(id).len() <= 100,
        forall|i: int| 0 <= i < sanitized(id).len() ==> is_name_char(#[trigger] sanitized(id)[i]),
{
    reveal_strlit("document");
}

/// Sanitising a sanitised name changes nothing.
pub proof fn law_sanitize_filename_idempotent(id: Seq<char>)
    ensures
        sanitized(sanitized(id)) == sanitized(id),
{
    law_sanitize_filename_safe(id);
    let s = sanitized(id);
    assert(s.map_values(|c: char| name_char(c)) =~= s);
}

// ---------------------------------------------------------------
// Values
// ---------------------------------------------------------------

/// How a data value is shown: text escaped, numbers as their JSON text,
/// booleans as `true`/`false`, anything else as nothing.
pub open spec fn html_value(v: Json) -> Seq<char> {
    match v {
        Json::Str(s) => html_escape_spec(s@),
        Json::Number(n) => n@,
        Json::Bool(b) => if b {
            "true"@
        } else {
            "false"@
        },
        _ => Seq::empty(),
    }
}

fn format_value_html(val: &Json) -> (r: String)
    ensures
        r@ == html_value(*val),
{
    match val {
        Json::Str(s) => html_escape(s.as_str()),
        Json::Number(n) => n.clone(),
        Json::Bool(b) => string_from(crate::converter::context::bool_text(*b)),
        _ => String::new(),
    }
}

/// A variable looked up in the local (loop item) value first, then in the
/// document data; a marker naming the key when neither has it.
pub open spec fn resolve_key_spec(key: Seq<char>, local: Json, global: Json) -> Seq<char> {
    match value_at(local, key) {
        Some(v) => html_value(v),
        None => match value_at(global, key) {
            Some(v) => html_value(v),
            None => "[MISSING: "@ + html_escape_spec(key) + "]"@,
        },
    }
}

fn resolve_key(key: &str, local: &Json, global: &Json) -> (r: String)
    ensures
        r@ == resolve_key_spec(key@, *local, *global),
{
    if let Some(v) = crate::json::value_at_path(local, key) {
        return format_value_html(v);
    }
    if let Some(v) = crate::json::value_at_path(global, key) {
        return format_value_html(v);
    }
    let mut out = string_from("[MISSING: ");
    push_escaped(&mut out, key);
    push_str(&mut out, "]");
    out
}

// ---------------------------------------------------------------
// Inline content
// ---------------------------------------------------------------

pub open spec fn wrap_if(on: Option<bool>, open: Seq<char>, text: Seq<char>, close: Seq<char>) -> Seq<
    char,
> {
    if on == Some(true) {
        open + text + close
    } else {
        text
    }
}

pub open spec fn opt_part(o: Option<String>, name: Seq<char>, f: spec_fn(Seq<char>) -> Seq<char>) -> Seq<
    char,
> {
    match o {
        Some(v) => name + f(v@) + ";"@,
        None => Seq::empty(),
    }
}

pub open spec fn link_target(url: Seq<char>) -> Seq<char> {
    if has_prefix(url, "https://"@) || has_prefix(url, "http://"@) {
        html_escape_spec(url)
    } else {
        "#"@
    }
}

/// A text run: escaped, newlines as `<br/>`, then wrapped for bold,
/// italic, underline and strike-through, a `span` with its size, colour
/// and font when it has any, and a link when it has one (an `http(s)` URL,
/// else `#`).
pub open spec fn text_html(t: TextNode) -> Seq<char> {
    let base = flat_map(html_escape_spec(t.text@), newline_to("<br/>"@));
    let b = wrap_if(t.bold, "<strong>"@, base, "</strong>"@);
    let i = wrap_if(t.italic, "<em>"@, b, "</em>"@);
    let u = wrap_if(t.underline, "<u>"@, i, "</u>"@);
    let s = wrap_if(t.strike, "<s>"@, u, "</s>"@);
    let style = opt_part(t.size, "font-size:"@, |v: Seq<char>| css_token(v, "1em"@)) + opt_part(
        t.color,
        "color:"@,
        |v: Seq<char>| css_color(v, "black"@),
    ) + opt_part(t.font_family, "font-family:"@, |v: Seq<char>| html_escape_spec(v));
    let styled = if t.size is None && t.color is None && t.font_family is None {
        s
    } else {
        "<span style=\""@ + style + "\">"@ + s + "</span>"@
    };
    match t.link {
        Some(url) => "<a href=\""@ + link_target(url@) + "\">"@ + styled + "</a>"@,
        None => styled,
    }
}

pub open spec fn inline_item_html(item: InlineContent, local: Json, global: Json) -> Seq<char> {
    match item {
        InlineContent::Text(t) => text_html(t),
        InlineContent::Variable(v) => resolve_key_spec(v.key@, local, global),
        InlineContent::PageNumber(_) => "{{page}}"@,
    }
}

/// Inline items one after the other.
pub open spec fn inline_html(items: Seq<InlineContent>, local: Json, global: Json) -> Seq<char>
    decreases items.len(),
{
    if items.len() == 0 {
        Seq::empty()
    } else {
        inline_html(items.drop_last(), local, global) + inline_item_html(items.last(), local, global)
    }
}

/// A run with no size, colour, font or link: bold adds `<strong>`,
/// italic `<em>`, underline `<u>` and strike-through `<s>`, each its own
/// pair of tags around the text, nested in that order; without any of
/// them the run is its escaped text with `<br/>` for line breaks.
pub proof fn law_text_style_tags(t: TextNode)
    requires
        t.font_family is None,
        t.size is None,
        t.color is None,
        t.link is None,
    ensures
        text_html(TextNode { bold: Some(true), italic: None, underline: None, strike: None, ..t })
            == "<strong>"@ + text_html(
            TextNode { bold: None, italic: None, underline: None, strike: None, ..t },
        ) + "</strong>"@,
        text_html(TextNode { italic: Some(true), underline: None, strike: None, ..t }) == "<em>"@
            + text_html(TextNode { italic: None, underline: None, strike: None, ..t }) + "</em>"@,
        text_html(TextNode { underline: Some(true), strike: None, ..t }) == "<u>"@ + text_html(
            TextNode { underline: None, strike: None, ..t },
        ) + "</u>"@,
        text_html(TextNode { strike: Some(true), ..t }) == "<s>"@ + text_html(
            TextNode { strike: None, ..t },
        ) + "</s>"@,
        text_html(TextNode { bold: None, italic: None, underline: None, strike: None, ..t })
            == flat_map(html_escape_spec(t.text@), newline_to("<br/>"@)),
{
}

fn wrap(open: &str, text: String, close: &str) -> (r: String)
    ensures
        r@ == open@ + text@ + close@,
{
    let mut out = string_from(open);
    push_str(&mut out, text.as_str());
    push_str(&mut out, close);
    out
}

fn wrap_when(on: Option<bool>, open: &str, text: String, close: &str) -> (r: String)
    ensures
        r@ == wrap_if(on, open@, text@, close@),
{
    if on == Some(true) {
        wrap(open, text, close)
    } else {
        text
    }
}

fn text_run_html(t: &TextNode) -> (r: String)
    ensures
        r@ == text_html(*t),
{
    let esc = html_escape(t.text.as_str());
    let cs = chars_of(esc.as_str());
    let lines = replace_newlines(cs.as_slice(), "<br/>");
    let mut text = string_from_chars(lines.as_slice());
    text = wrap_when(t.bold, "<strong>", text, "</strong>");
    text = wrap_when(t.italic, "<em>", text, "</em>");
    text = wrap_when(t.underline, "<u>", text, "</u>");
    text = wrap_when(t.strike, "<s>", text, "</s>");
    let mut style = String::new();
    if let Some(sz) = &t.size {
        push_str(&mut style, "font-size:");
        push_str(&mut style, safe_css_token(sz.as_str(), "1em").as_str());
        push_str(&mut style, ";");
    }
    if let Some(c) = &t.color {
        push_str(&mut style, "color:");
        push_str(&mut style, safe_css_color(c.as_str(), "black").as_str());
        push_str(&mut style, ";");
    }
    if let Some(f) = &t.font_family {
        push_str(&mut style, "font-family:");
        push_escaped(&mut style, f.as_str());
        push_str(&mut style, ";");
    }
    assert(style@ =~= opt_part(t.size, "font-size:"@, |v: Seq<char>| css_token(v, "1em"@)) + opt_part(
        t.color,
        "color:"@,
        |v: Seq<char>| css_color(v, "black"@),
    ) + opt_part(t.font_family, "font-family:"@, |v: Seq<char>| html_escape_spec(v)));
    if t.size.is_some() || t.color.is_some() || t.font_family.is_some() {
        let mut span = string_from("<span style=\"");
        push_str(&mut span, style.as_str());
        push_str(&mut span, "\">");
        push_str(&mut span, text.as_str());
        push_str(&mut span, "</span>");
        text = span;
    }
    if let Some(url) = &t.link {
        let target = if starts_with(url.as_str(), "https://") || starts_with(url.as_str(), "http://") {
            html_escape(url.as_str())
        } else {
            string_from("#")
        };
        let mut a = string_from("<a href=\"");
        push_str(&mut a, target.as_str());
        push_str(&mut a, "\">");
        push_str(&mut a, text.as_str());
        push_str(&mut a, "</a>");
        text = a;
    }
    text
}

fn render_inline(items: &[InlineContent], local: &Json, global: &Json) -> (r: String)
    ensures
        r@ == inline_html(items@, *local, *global),
{
    let mut out = String::new();
    for i in 0..items.len()
        invariant
            out@ == inline_html(items@.take(i as int), *local, *global),
    {
        assert(items@.take(i + 1).drop_last() =~= items@.take(i as int));
        match &items[i] {
            InlineContent::Text(t) => push_str(&mut out, text_run_html(t).as_str()),
            InlineContent::Variable(v) => push_str(
                &mut out,
                resolve_key(v.key.as_str(), local, global).as_str(),
            ),
            InlineContent::PageNumber(_) => push_str(&mut out, "{{page}}"),
        }
    }
    assert(items@.take(items@.len() as int) =~= items@);
    out
}

/// The `style` attribute that aligns a paragraph or heading.
pub open spec fn align_style_spec(alignment: Option<String>) -> Seq<char> {
    if opt_is(alignment, "right"@) {
        " style=\"text-align:right\""@
    } else if opt_is(alignment, "center"@) {
        " style=\"text-align:center\""@
    } else if opt_is(alignment, "justify"@) {
        " style=\"text-align:justify\""@
    } else {
        Seq::empty()
    }
}

fn align_style(alignment: &Option<String>) -> (r: String)
    ensures
        r@ == align_style_spec(*alignment),
{
    if opt_str_is(alignment, "right") {
        string_from(" style=\"text-align:right\"")
    } else if opt_str_is(alignment, "center") {
        string_from(" style=\"text-align:center\"")
    } else if opt_str_is(alignment, "justify") {
        string_from(" style=\"text-align:justify\"")
    } else {
        String::new()
    }
}

// ---------------------------------------------------------------
// Page furniture
// ---------------------------------------------------------------

/// The style sheet that gives room to a header and footer and fixes them
/// to every printed page.
pub open spec fn print_style_spec(has_header: bool, has_footer: bool) -> Seq<char> {
    let top = if has_header {
        "3cm"@
    } else {
        "0"@
    };
    let bottom = if has_footer {
        "3cm"@
    } else {
        "0"@
    };
    "<style>\n  .doc-header, .doc-footer { width: 100%; box-sizing: border-box; padding: 4px 12px; }\n  @media print {\n    body { margin-top: "@
        + top + "; margin-bottom: "@ + bottom
        + "; }\n    .doc-header { position: fixed; top: 0; left: 0; right: 0; }\n    .doc-footer { position: fixed; bottom: 0; left: 0; right: 0; }\n  }\n</style>\n"@
}

fn print_style_block(has_header: bool, has_footer: bool) -> (r: String)
    ensures
        r@ == print_style_spec(has_header, has_footer),
{
    let mut out = string_from(
        "<style>\n  .doc-header, .doc-footer { width: 100%; box-sizing: border-box; padding: 4px 12px; }\n  @media print {\n    body { margin-top: ",
    );
    push_str(
        &mut out,
        if has_header {
            "3cm"
        } else {
            "0"
        },
    );
    push_str(&mut out, "; margin-bottom: ");
    push_str(
        &mut out,
        if has_footer {
            "3cm"
        } else {
            "0"
        },
    );
    push_str(
        &mut out,
        "; }\n    .doc-header { position: fixed; top: 0; left: 0; right: 0; }\n    .doc-footer { position: fixed; bottom: 0; left: 0; right: 0; }\n  }\n</style>\n",
    );
    out
}

pub open spec fn hf_align_html(alignment: Option<String>) -> Seq<char> {
    if opt_is(alignment, "left"@) {
        "left"@
    } else if opt_is(alignment, "right"@) {
        "right"@
    } else {
        "center"@
    }
}

/// A header or footer block: nothing when it skips the first page (the
/// only page an HTML view has); else the first-page content when given,
/// the content otherwise.
pub open spec fn header_footer_html(hf: PageHeaderFooter, data: Json, class: Seq<char>) -> Seq<char> {
    if hf.skip_first_page == Some(true) {
        Seq::empty()
    } else {
        let items = match hf.first_page_content {
            Some(v) => v@,
            None => hf.content@,
        };
        "<div class=\""@ + class + "\" style=\"text-align:"@ + hf_align_html(hf.alignment) + ";\">"@
            + inline_html(items, data, data) + "</div>\n"@
    }
}

fn render_header_footer(hf: &PageHeaderFooter, data: &Json, css_class: &str) -> (r: String)
    ensures
        r@ == header_footer_html(*hf, *data, css_class@),
{
    if hf.skip_first_page == Some(true) {
        return String::new();
    }
    let text = match &hf.first_page_content {
        Some(v) => render_inline(v.as_slice(), data, data),
        None => render_inline(hf.content.as_slice(), data, data),
    };
    let align = if opt_str_is(&hf.alignment, "left") {
        "left"
    } else if opt_str_is(&hf.alignment, "right") {
        "right"
    } else {
        "center"
    };
    let mut out = string_from("<div class=\"");
    push_str(&mut out, css_class);
    push_str(&mut out, "\" style=\"text-align:");
    push_str(&mut out, align);
    push_str(&mut out, ";\">");
    push_str(&mut out, text.as_str());
    push_str(&mut out, "</div>\n");
    out
}

pub open spec fn opt_or(o: Option<String>, d: Seq<char>) -> Seq<char> {
    match o {
        Some(s) => s@,
        None => d,
    }
}

/// Where the watermark stands and how it is turned.
pub open spec fn watermark_place(position: Option<String>, angle: Seq<char>) -> (Seq<char>, Seq<char>) {
    let turn = "rotate("@ + angle + "deg)"@;
    if opt_is(position, "top-left"@) {
        ("top:5%; left:5%;"@, turn)
    } else if opt_is(position, "top-right"@) {
        ("top:5%; right:5%;"@, turn)
    } else if opt_is(position, "bottom-left"@) {
        ("bottom:5%; left:5%;"@, turn)
    } else if opt_is(position, "bottom-right"@) {
        ("bottom:5%; right:5%;"@, turn)
    } else {
        ("top:50%; left:50%;"@, "translate(-50%, -50%) "@ + turn)
    }
}

pub open spec fn watermark_html(wm: WatermarkSettings) -> Seq<char> {
    let (pos, transform) = watermark_place(wm.position, wm.angle@);
    "<div style=\"position:absolute; "@ + pos + " transform:"@ + transform + "; font-size:"@
        + css_token(opt_or(wm.font_size, "50pt"@), "50pt"@) + "; color:"@ + css_color(
        opt_or(wm.color, "gray"@),
        "gray"@,
    ) + "; opacity:"@ + wm.opacity@
        + "; font-weight:bold; white-space:nowrap; pointer-events:none; z-index:0;\">"@
        + html_escape_spec(wm.text@) + "</div>\n"@
}

fn opt_str<'a>(o: &'a Option<String>, d: &'a str) -> (r: &'a str)
    ensures
        r@ == opt_or(*o, d@),
{
    match o {
        Some(s) => s.as_str(),
        None => d,
    }
}

fn render_watermark(wm: &WatermarkSettings) -> (r: String)
    ensures
        r@ == watermark_html(*wm),
{
    let size = safe_css_token(opt_str(&wm.font_size, "50pt"), "50pt");
    let color = safe_css_color(opt_str(&wm.color, "gray"), "gray");
    let mut turn = string_from("rotate(");
    push_str(&mut turn, wm.angle.as_str());
    push_str(&mut turn, "deg)");
    let pos = if opt_str_is(&wm.position, "top-left") {
        "top:5%; left:5%;"
    } else if opt_str_is(&wm.position, "top-right") {
        "top:5%; right:5%;"
    } else if opt_str_is(&wm.position, "bottom-left") {
        "bottom:5%; left:5%;"
    } else if opt_str_is(&wm.position, "bottom-right") {
        "bottom:5%; right:5%;"
    } else {
        let mut t = string_from("translate(-50%, -50%) ");
        push_str(&mut t, turn.as_str());
        turn = t;
        "top:50%; left:50%;"
    };
    let mut out = string_from("<div style=\"position:absolute; ");
    push_str(&mut out, pos);
    push_str(&mut out, " transform:");
    push_str(&mut out, turn.as_str());
    push_str(&mut out, "; font-size:");
    push_str(&mut out, size.as_str());
    push_str(&mut out, "; color:");
    push_str(&mut out, color.as_str());
    push_str(&mut out, "; opacity:");
    push_str(&mut out, wm.opacity.as_str());
    push_str(&mut out, "; font-weight:bold; white-space:nowrap; pointer-events:none; z-index:0;\">");
    push_escaped(&mut out, wm.text.as_str());
    push_str(&mut out, "</div>\n");
    out
}

// ---------------------------------------------------------------
// Tables
// ---------------------------------------------------------------

/// At most this many loop rows are shown.
pub const MAX_TABLE_LOOP_ROWS: usize = 5000;

/// A formula's result as the caller evaluated it: the formula's text, the
/// compact JSON text of the value it was evaluated against (the loop item,
/// or the document data outside loop rows), and the result.
pub struct FormulaValue {
    pub formula: String,
    pub scope: String,
    pub value: String,
}

/// The result given for `formula` against `scope`: the first entry for
/// both, or nothing.
pub open spec fn formula_value_of(vals: Seq<FormulaValue>, formula: Seq<char>, scope: Seq<char>) -> Seq<
    char,
>
    decreases vals.len(),
{
    if vals.len() == 0 {
        Seq::empty()
    } else if vals[0].formula@ == formula && vals[0].scope@ == scope {
        vals[0].value@
    } else {
        formula_value_of(vals.drop_first(), formula, scope)
    }
}

fn lookup_formula_value(vals: &[FormulaValue], formula: &str, scope: &str) -> (r: String)
    ensures
        r@ == formula_value_of(vals@, formula@, scope@),
{
    let mut i: usize = 0;
    assert(vals@.skip(0) =~= vals@);
    while i < vals.len()
        invariant
            i <= vals@.len(),
            formula_value_of(vals@, formula@, scope@) == formula_value_of(
                vals@.skip(i as int),
                formula@,
                scope@,
            ),
        decreases vals@.len() - i,
    {
        assert(vals@.skip(i as int).drop_first() =~= vals@.skip(i + 1));
        if str_eq(vals[i].formula.as_str(), formula) && str_eq(vals[i].scope.as_str(), scope) {
            return vals[i].value.clone();
        }
        i = i + 1;
    }
    String::new()
}

pub open spec fn cell_align_html(style: Option<StyleV>, idx: int) -> Seq<char> {
    if column_align(style, idx) == Some("right"@) {
        "right"@
    } else if column_align(style, idx) == Some("center"@) {
        "center"@
    } else {
        "left"@
    }
}

fn cell_align(style: &Option<TableStyle>, idx: usize) -> (r: &'static str)
    ensures
        r@ == cell_align_html(opt_style_view(*style), idx as int),
{
    let a: Option<&String> = match style {
        Some(s) => match &s.column_align {
            Some(v) => if idx < v.len() {
                Some(&v[idx])
            } else {
                None
            },
            None => None,
        },
        None => None,
    };
    match a {
        Some(x) => if str_eq(x.as_str(), "right") {
            "right"
        } else if str_eq(x.as_str(), "center") {
            "center"
        } else {
            "left"
        },
        None => "left",
    }
}

pub open spec fn index_text(index: Option<usize>, offset: nat) -> Seq<char> {
    match index {
        Some(i) => decimal((i + offset) as nat),
        None => Seq::empty(),
    }
}

/// A cell's content: a row number for `__index` (from 1) and `__index_0`
/// (from 0) in loop rows, else a variable's value; escaped text; a
/// formula's result, put into its format's `{value}` or `{value:spec}` placeholders when it has one.
pub open spec fn cell_value_html(
    cell: TableCellContent,
    local: Json,
    global: Json,
    index: Option<usize>,
    vals: Seq<FormulaValue>,
) -> Seq<char> {
    match cell {
        TableCellContent::Variable { key, .. } => if key@ == "__index"@ {
            index_text(index, 1)
        } else if key@ == "__index_0"@ {
            index_text(index, 0)
        } else {
            resolve_key_spec(key@, local, global)
        },
        TableCellContent::Text { text, .. } => html_escape_spec(text@),
        TableCellContent::Formula { formula, format, .. } => {
            let raw = formula_value_of(vals, formula@, json_text(local));
            html_escape_spec(
                match format {
                    Some(f) => fill_value_spec(f@, raw),
                    None => raw,
                },
            )
        },
    }
}

pub open spec fn span_attr(name: Seq<char>, v: Option<u32>) -> Seq<char> {
    match v {
        Some(n) => if n > 1 {
            " "@ + name + "=\""@ + decimal(n as nat) + "\""@
        } else {
            Seq::empty()
        },
        None => Seq::empty(),
    }
}

/// One `<td>`: its spans above 1, border, padding, alignment and the
/// background it is given, around its (bold when asked) content.
#[verifier::opaque]
pub open spec fn cell_html(
    cell: TableCellContent,
    style: Option<StyleV>,
    idx: int,
    border: Seq<char>,
    inset: Seq<char>,
    local: Json,
    global: Json,
    index: Option<usize>,
    fill: Option<Seq<char>>,
    vals: Seq<FormulaValue>,
) -> Seq<char> {
    let value = wrap_if(
        cell_bold(cell),
        "<strong>"@,
        cell_value_html(cell, local, global, index, vals),
        "</strong>"@,
    );
    let (colspan, rowspan) = cell_spans(cell);
    let bg = match fill {
        Some(c) => " background-color:"@ + css_color(c, "white"@) + ";"@,
        None => Seq::empty(),
    };
    "      <td"@ + span_attr("colspan"@, colspan) + span_attr("rowspan"@, rowspan)
        + " style=\"border:"@ + border + "; padding:"@ + inset + "; text-align:"@ + cell_align_html(
        style,
        idx,
    ) + ";"@ + bg + "\">"@ + value + "</td>\n"@
}

fn cell_value(
    cell: &TableCellContent,
    local: &Json,
    global: &Json,
    index: Option<usize>,
    vals: &[FormulaValue],
) -> (r: String)
    requires
        index matches Some(i) ==> i < MAX_TABLE_LOOP_ROWS,
    ensures
        r@ == cell_value_html(*cell, *local, *global, index, vals@),
{
    match cell {
        TableCellContent::Variable { key, .. } => {
            if str_eq(key.as_str(), "__index") {
                match index {
                    Some(i) => crate::text::decimal_string(i + 1),
                    None => String::new(),
                }
            } else if str_eq(key.as_str(), "__index_0") {
                match index {
                    Some(i) => crate::text::decimal_string(i),
                    None => String::new(),
                }
            } else {
                resolve_key(key.as_str(), local, global)
            }
        },
        TableCellContent::Text { text, .. } => html_escape(text.as_str()),
        TableCellContent::Formula { formula, format, .. } => {
            let scope = to_json_string(local);
            let raw = lookup_formula_value(vals, formula.as_str(), scope.as_str());
            match format {
                Some(f) => html_escape(fill_value(f.as_str(), raw.as_str()).as_str()),
                None => html_escape(raw.as_str()),
            }
        },
    }
}

fn push_span_attr(out: &mut String, name: &str, v: Option<u32>)
    ensures
        final(out)@ == old(out)@ + span_attr(name@, v),
{
    match v {
        Some(n) => if n > 1 {
            push_str(out, " ");
            push_str(out, name);
            push_str(out, "=\"");
            push_decimal(out, n as usize);
            push_str(out, "\"");
        },
        None => {},
    }
}

/// One table cell as a `<td>`; see [`cell_html`].
fn render_table_cell(
    cell: &TableCellContent,
    style: &Option<TableStyle>,
    idx: usize,
    border_css: &str,
    inset: &str,
    local: &Json,
    global: &Json,
    index: Option<usize>,
    fill_override: &Option<String>,
    vals: &[FormulaValue],
) -> (r: String)
    requires
        index matches Some(i) ==> i < MAX_TABLE_LOOP_ROWS,
    ensures
        r@ == cell_html(
            *cell,
            opt_style_view(*style),
            idx as int,
            border_css@,
            inset@,
            *local,
            *global,
            index,
            opt_text(*fill_override),
            vals@,
        ),
{
    let (bold, colspan, rowspan) = match cell {
        TableCellContent::Variable { bold, colspan, rowspan, .. } => (*bold, *colspan, *rowspan),
        TableCellContent::Text { bold, colspan, rowspan, .. } => (*bold, *colspan, *rowspan),
        TableCellContent::Formula { bold, colspan, rowspan, .. } => (*bold, *colspan, *rowspan),
    };
    proof {
        reveal(cell_html);
    }
    let value = wrap_when(bold, "<strong>", cell_value(cell, local, global, index, vals), "</strong>");
    let mut out = string_from("      <td");
    push_span_attr(&mut out, "colspan", colspan);
    push_span_attr(&mut out, "rowspan", rowspan);
    push_str(&mut out, " style=\"border:");
    push_str(&mut out, border_css);
    push_str(&mut out, "; padding:");
    push_str(&mut out, inset);
    push_str(&mut out, "; text-align:");
    push_str(&mut out, cell_align(style, idx));
    push_str(&mut out, ";");
    match fill_override {
        Some(c) => {
            push_str(&mut out, " background-color:");
            push_str(&mut out, safe_css_color(c.as_str(), "white").as_str());
            push_str(&mut out, ";");
        },
        None => {},
    }
    push_str(&mut out, "\">");
    push_str(&mut out, value.as_str());
    push_str(&mut out, "</td>\n");
    out
}

pub open spec fn style_opt(style: Option<StyleV>, f: spec_fn(StyleV) -> Option<Seq<char>>) -> Option<
    Seq<char>,
> {
    match style {
        Some(s) => f(s),
        None => None,
    }
}

pub open spec fn table_width_html(style: Option<StyleV>) -> Seq<char> {
    match style_opt(style, |s: StyleV| s.width) {
        Some(w) => css_token(w, "100%"@),
        None => "100%"@,
    }
}

/// The cell border: none for the stroke `none`, else the stroke (by
/// default `0.5pt`) as a solid grey line.
pub open spec fn table_border_html(style: Option<StyleV>) -> Seq<char> {
    let stroke = match style_opt(style, |s: StyleV| s.stroke) {
        Some(x) => x,
        None => "0.5pt"@,
    };
    if stroke == "none"@ {
        "none"@
    } else {
        css_token(stroke, "1px"@) + " solid #444"@
    }
}

pub open spec fn table_inset_html(style: Option<StyleV>) -> Seq<char> {
    match style_opt(style, |s: StyleV| s.inset) {
        Some(i) => css_token(i, "8px"@),
        None => "8px"@,
    }
}

pub open spec fn stripes(style: Option<StyleV>) -> Option<Seq<Seq<char>>> {
    match style {
        Some(s) => s.striped_rows,
        None => None,
    }
}

/// The background of loop row `row`: the striped colours in turn.
pub open spec fn stripe_of(style: Option<StyleV>, row: int) -> Option<Seq<char>> {
    match stripes(style) {
        Some(cs) => if cs.len() == 0 {
            None
        } else {
            Some(cs[row % (cs.len() as int)])
        },
        None => None,
    }
}

/// The footer's background: white when the body is striped.
pub open spec fn footer_fill(style: Option<StyleV>) -> Option<Seq<char>> {
    if stripes(style) is Some {
        Some("white"@)
    } else {
        None
    }
}

#[verifier::opaque]
pub open spec fn header_cell_html(
    h: Seq<char>,
    style: Option<StyleV>,
    idx: int,
    border: Seq<char>,
    inset: Seq<char>,
) -> Seq<char> {
    let bg = match style_opt(style, |s: StyleV| s.header_bg) {
        Some(c) => "background-color:"@ + css_color(c, "#f3f4f6"@) + ";"@,
        None => Seq::empty(),
    };
    "      <th style=\"border:"@ + border + "; padding:"@ + inset + "; text-align:"@ + cell_align_html(
        style,
        idx,
    ) + "; "@ + bg + "\">"@ + html_escape_spec(h) + "</th>\n"@
}

/// The first `n` header cells.
pub open spec fn header_cells_html(
    hs: Seq<String>,
    style: Option<StyleV>,
    border: Seq<char>,
    inset: Seq<char>,
    n: int,
) -> Seq<char>
    decreases n,
{
    if n <= 0 {
        Seq::empty()
    } else {
        header_cells_html(hs, style, border, inset, n - 1) + header_cell_html(
            hs[n - 1]@,
            style,
            n - 1,
            border,
            inset,
        )
    }
}

/// The first `n` cells of a row.
pub open spec fn row_cells_html(
    cells: Seq<TableCellContent>,
    style: Option<StyleV>,
    border: Seq<char>,
    inset: Seq<char>,
    local: Json,
    global: Json,
    index: Option<usize>,
    fill: Option<Seq<char>>,
    vals: Seq<FormulaValue>,
    n: int,
) -> Seq<char>
    decreases n,
{
    if n <= 0 {
        Seq::empty()
    } else {
        row_cells_html(cells, style, border, inset, local, global, index, fill, vals, n - 1)
            + cell_html(cells[n - 1], style, n - 1, border, inset, local, global, index, fill, vals)
    }
}

pub open spec fn tr(cells: Seq<char>) -> Seq<char> {
    "    <tr>\n"@ + cells + "    </tr>\n"@
}

/// The first `n` static rows, read against the enclosing values.
pub open spec fn static_rows_html(
    rows: Seq<Vec<TableCellContent>>,
    style: Option<StyleV>,
    border: Seq<char>,
    inset: Seq<char>,
    local: Json,
    global: Json,
    vals: Seq<FormulaValue>,
    n: int,
) -> Seq<char>
    decreases n,
{
    if n <= 0 {
        Seq::empty()
    } else {
        static_rows_html(rows, style, border, inset, local, global, vals, n - 1) + tr(
            row_cells_html(
                rows[n - 1]@,
                style,
                border,
                inset,
                local,
                global,
                None,
                None,
                vals,
                rows[n - 1]@.len() as int,
            ),
        )
    }
}

/// The first `n` loop rows: the template read against each item, with its
/// row number and stripe.
pub open spec fn loop_rows_html(
    items: Seq<Json>,
    template: Seq<TableCellContent>,
    style: Option<StyleV>,
    border: Seq<char>,
    inset: Seq<char>,
    global: Json,
    vals: Seq<FormulaValue>,
    n: int,
) -> Seq<char>
    decreases n,
{
    if n <= 0 {
        Seq::empty()
    } else {
        loop_rows_html(items, template, style, border, inset, global, vals, n - 1) + tr(
            row_cells_html(
                template,
                style,
                border,
                inset,
                items[n - 1],
                global,
                Some((n - 1) as usize),
                stripe_of(style, n - 1),
                vals,
                template.len() as int,
            ),
        )
    }
}

/// The items a loop table shows: the first `MAX_TABLE_LOOP_ROWS` of the
/// array at `loop_data`, when both it and a row template are given.
pub open spec fn loop_items(
    loop_data: Option<String>,
    row_template: Option<Vec<TableCellContent>>,
    global: Json,
) -> Seq<Json> {
    match (loop_data, row_template) {
        (Some(p), Some(_)) => match value_at(global, p@) {
            Some(Json::Array(a)) => if a@.len() <= MAX_TABLE_LOOP_ROWS {
                a@
            } else {
                a@.take(MAX_TABLE_LOOP_ROWS as int)
            },
            _ => Seq::empty(),
        },
        _ => Seq::empty(),
    }
}

pub open spec fn thead_html(
    headers: Option<Vec<String>>,
    style: Option<StyleV>,
    border: Seq<char>,
    inset: Seq<char>,
) -> Seq<char> {
    match headers {
        Some(h) => "  <thead>\n    <tr>\n"@ + header_cells_html(h@, style, border, inset, h@.len() as int)
            + "    </tr>\n  </thead>\n"@,
        None => Seq::empty(),
    }
}

/// The body rows: the static rows, then the loop rows.
pub open spec fn body_rows_html(
    rows: Option<Vec<Vec<TableCellContent>>>,
    loop_data: Option<String>,
    row_template: Option<Vec<TableCellContent>>,
    style: Option<StyleV>,
    border: Seq<char>,
    inset: Seq<char>,
    local: Json,
    global: Json,
    vals: Seq<FormulaValue>,
) -> Seq<char> {
    let statics = match rows {
        Some(r) => static_rows_html(r@, style, border, inset, local, global, vals, r@.len() as int),
        None => Seq::empty(),
    };
    let items = loop_items(loop_data, row_template, global);
    let looped = match row_template {
        Some(t) => loop_rows_html(items, t@, style, border, inset, global, vals, items.len() as int),
        None => Seq::empty(),
    };
    statics + looped
}

pub open spec fn tfoot_html(
    footer: Option<Vec<TableCellContent>>,
    style: Option<StyleV>,
    border: Seq<char>,
    inset: Seq<char>,
    local: Json,
    global: Json,
    vals: Seq<FormulaValue>,
) -> Seq<char> {
    match footer {
        Some(f) => "  <tfoot>\n    <tr>\n"@ + row_cells_html(
            f@,
            style,
            border,
            inset,
            local,
            global,
            None,
            footer_fill(style),
            vals,
            f@.len() as int,
        ) + "    </tr>\n  </tfoot>\n"@,
        None => Seq::empty(),
    }
}

/// A table: width and collapsed borders; a header row; static rows, then
/// loop rows; a footer row.
pub open spec fn table_html(
    headers: Option<Vec<String>>,
    rows: Option<Vec<Vec<TableCellContent>>>,
    loop_data: Option<String>,
    row_template: Option<Vec<TableCellContent>>,
    footer: Option<Vec<TableCellContent>>,
    style: Option<StyleV>,
    local: Json,
    global: Json,
    vals: Seq<FormulaValue>,
) -> Seq<char> {
    let border = table_border_html(style);
    let inset = table_inset_html(style);
    "<table style=\"width:"@ + table_width_html(style) + "; border-collapse: collapse;\">\n"@
        + thead_html(headers, style, border, inset) + "  <tbody>\n"@ + body_rows_html(
        rows,
        loop_data,
        row_template,
        style,
        border,
        inset,
        local,
        global,
        vals,
    ) + "  </tbody>\n"@ + tfoot_html(footer, style, border, inset, local, global, vals)
        + "</table>\n"@
}

fn push_row_cells(
    out: &mut String,
    cells: &Vec<TableCellContent>,
    style: &Option<TableStyle>,
    border_css: &str,
    inset: &str,
    local: &Json,
    global: &Json,
    index: Option<usize>,
    fill: &Option<String>,
    vals: &[FormulaValue],
)
    requires
        index matches Some(i) ==> i < MAX_TABLE_LOOP_ROWS,
    ensures
        final(out)@ == old(out)@ + row_cells_html(
            cells@,
            opt_style_view(*style),
            border_css@,
            inset@,
            *local,
            *global,
            index,
            opt_text(*fill),
            vals@,
            cells@.len() as int,
        ),
{
    let ghost start = out@;
    for i in 0..cells.len()
        invariant
            index matches Some(i) ==> i < MAX_TABLE_LOOP_ROWS,
            out@ == start + row_cells_html(
                cells@,
                opt_style_view(*style),
                border_css@,
                inset@,
                *local,
                *global,
                index,
                opt_text(*fill),
                vals@,
                i as int,
            ),
    {
        let c = render_table_cell(&cells[i], style, i, border_css, inset, local, global, index, fill, vals);
        push_str(out, c.as_str());
    }
}

fn header_cell(
    h: &str,
    style: &Option<TableStyle>,
    idx: usize,
    border_css: &str,
    inset: &str,
) -> (r: String)
    ensures
        r@ == header_cell_html(h@, opt_style_view(*style), idx as int, border_css@, inset@),
{
    proof {
        reveal(header_cell_html);
    }
    let mut out = string_from("      <th style=\"border:");
    push_str(&mut out, border_css);
    push_str(&mut out, "; padding:");
    push_str(&mut out, inset);
    push_str(&mut out, "; text-align:");
    push_str(&mut out, cell_align(style, idx));
    push_str(&mut out, "; ");
    match style {
        Some(s) => match &s.header_bg {
            Some(c) => {
                push_str(&mut out, "background-color:");
                push_str(&mut out, safe_css_color(c.as_str(), "#f3f4f6").as_str());
                push_str(&mut out, ";");
            },
            None => {},
        },
        None => {},
    }
    push_str(&mut out, "\">");
    push_escaped(&mut out, h);
    push_str(&mut out, "</th>\n");
    out
}

fn push_header_cells(
    out: &mut String,
    hs: &Vec<String>,
    style: &Option<TableStyle>,
    border_css: &str,
    inset: &str,
)
    ensures
        final(out)@ == old(out)@ + header_cells_html(
            hs@,
            opt_style_view(*style),
            border_css@,
            inset@,
            hs@.len() as int,
        ),
{
    let ghost start = out@;
    for i in 0..hs.len()
        invariant
            out@ == start + header_cells_html(
                hs@,
                opt_style_view(*style),
                border_css@,
                inset@,
                i as int,
            ),
    {
        let c = header_cell(hs[i].as_str(), style, i, border_css, inset);
        push_str(out, c.as_str());
    }
}

fn push_static_rows(
    out: &mut String,
    rows: &Vec<Vec<TableCellContent>>,
    style: &Option<TableStyle>,
    border_css: &str,
    inset: &str,
    local: &Json,
    global: &Json,
    vals: &[FormulaValue],
)
    ensures
        final(out)@ == old(out)@ + static_rows_html(
            rows@,
            opt_style_view(*style),
            border_css@,
            inset@,
            *local,
            *global,
            vals@,
            rows@.len() as int,
        ),
{
    let ghost start = out@;
    for i in 0..rows.len()
        invariant
            out@ == start + static_rows_html(
                rows@,
                opt_style_view(*style),
                border_css@,
                inset@,
                *local,
                *global,
                vals@,
                i as int,
            ),
    {
        push_str(out, "    <tr>\n");
        push_row_cells(out, &rows[i], style, border_css, inset, local, global, None, &None, vals);
        push_str(out, "    </tr>\n");
        assert(out@ =~= start + static_rows_html(
            rows@,
            opt_style_view(*style),
            border_css@,
            inset@,
            *local,
            *global,
            vals@,
            i + 1,
        ));
    }
}

fn stripe_exec(style: &Option<TableStyle>, row: usize) -> (r: Option<String>)
    ensures
        opt_text(r) == stripe_of(opt_style_view(*style), row as int),
{
    match style {
        Some(s) => match &s.striped_rows {
            Some(cs) => if cs.len() == 0 {
                None
            } else {
                Some(cs[row % cs.len()].clone())
            },
            None => None,
        },
        None => None,
    }
}

fn push_loop_rows(
    out: &mut String,
    items: &[Json],
    template: &Vec<TableCellContent>,
    style: &Option<TableStyle>,
    border_css: &str,
    inset: &str,
    global: &Json,
    vals: &[FormulaValue],
)
    requires
        items@.len() <= MAX_TABLE_LOOP_ROWS,
    ensures
        final(out)@ == old(out)@ + loop_rows_html(
            items@,
            template@,
            opt_style_view(*style),
            border_css@,
            inset@,
            *global,
            vals@,
            items@.len() as int,
        ),
{
    let ghost start = out@;
    for i in 0..items.len()
        invariant
            items@.len() <= MAX_TABLE_LOOP_ROWS,
            out@ == start + loop_rows_html(
                items@,
                template@,
                opt_style_view(*style),
                border_css@,
                inset@,
                *global,
                vals@,
                i as int,
            ),
    {
        let fill = stripe_exec(style, i);
        push_str(out, "    <tr>\n");
        push_row_cells(out, template, style, border_css, inset, &items[i], global, Some(i), &fill, vals);
        push_str(out, "    </tr>\n");
        assert(out@ =~= start + loop_rows_html(
            items@,
            template@,
            opt_style_view(*style),
            border_css@,
            inset@,
            *global,
            vals@,
            i + 1,
        ));
    }
}

fn table_items<'a>(
    loop_data: &Option<String>,
    row_template: &Option<Vec<TableCellContent>>,
    global: &'a Json,
) -> (r: &'a [Json])
    ensures
        r@ == loop_items(*loop_data, *row_template, *global),
        r@.len() <= MAX_TABLE_LOOP_ROWS,
{
    match (loop_data, row_template) {
        (Some(p), Some(_)) => match crate::json::value_at_path(global, p.as_str()) {
            Some(Json::Array(a)) => {
                if a.len() <= MAX_TABLE_LOOP_ROWS {
                    a.as_slice()
                } else {
                    let s = vstd::slice::slice_subrange(a.as_slice(), 0, MAX_TABLE_LOOP_ROWS);
                    assert(s@ =~= a@.take(MAX_TABLE_LOOP_ROWS as int));
                    s
                }
            },
            _ => &[],
        },
        _ => &[],
    }
}

fn table_border(style: &Option<TableStyle>) -> (r: String)
    ensures
        r@ == table_border_html(opt_style_view(*style)),
{
    let stroke: &Option<String> = match style {
        Some(s) => &s.stroke,
        None => &None,
    };
    let stroke_text = opt_str(stroke, "0.5pt");
    if str_eq(stroke_text, "none") {
        string_from("none")
    } else {
        let mut b = safe_css_token(stroke_text, "1px");
        push_str(&mut b, " solid #444");
        b
    }
}

fn table_inset(style: &Option<TableStyle>) -> (r: String)
    ensures
        r@ == table_inset_html(opt_style_view(*style)),
{
    match style {
        Some(s) => match &s.inset {
            Some(i) => safe_css_token(i.as_str(), "8px"),
            None => string_from("8px"),
        },
        None => string_from("8px"),
    }
}

fn table_width(style: &Option<TableStyle>) -> (r: String)
    ensures
        r@ == table_width_html(opt_style_view(*style)),
{
    match style {
        Some(s) => match &s.width {
            Some(w) => safe_css_token(w.as_str(), "100%"),
            None => string_from("100%"),
        },
        None => string_from("100%"),
    }
}

fn push_thead(out: &mut String, headers: &Option<Vec<String>>, style: &Option<TableStyle>, border_css: &str, inset: &str)
    ensures
        final(out)@ == old(out)@ + thead_html(*headers, opt_style_view(*style), border_css@, inset@),
{
    if let Some(hdrs) = headers {
        push_str(out, "  <thead>\n    <tr>\n");
        push_header_cells(out, hdrs, style, border_css, inset);
        push_str(out, "    </tr>\n  </thead>\n");
    }
}

fn push_body_rows(
    out: &mut String,
    rows: &Option<Vec<Vec<TableCellContent>>>,
    loop_data: &Option<String>,
    row_template: &Option<Vec<TableCellContent>>,
    style: &Option<TableStyle>,
    border_css: &str,
    inset: &str,
    local: &Json,
    global: &Json,
    vals: &[FormulaValue],
)
    ensures
        final(out)@ == old(out)@ + body_rows_html(
            *rows,
            *loop_data,
            *row_template,
            opt_style_view(*style),
            border_css@,
            inset@,
            *local,
            *global,
            vals@,
        ),
{
    let ghost start = out@;
    if let Some(static_rows) = rows {
        push_static_rows(out, static_rows, style, border_css, inset, local, global, vals);
    }
    let ghost mid = out@;
    let items = table_items(loop_data, row_template, global);
    if let Some(template) = row_template {
        push_loop_rows(out, items, template, style, border_css, inset, global, vals);
    }
    assert(out@ =~= start + body_rows_html(
        *rows,
        *loop_data,
        *row_template,
        opt_style_view(*style),
        border_css@,
        inset@,
        *local,
        *global,
        vals@,
    ));
}

fn push_tfoot(
    out: &mut String,
    footer: &Option<Vec<TableCellContent>>,
    style: &Option<TableStyle>,
    border_css: &str,
    inset: &str,
    local: &Json,
    global: &Json,
    vals: &[FormulaValue],
)
    ensures
        final(out)@ == old(out)@ + tfoot_html(
            *footer,
            opt_style_view(*style),
            border_css@,
            inset@,
            *local,
            *global,
            vals@,
        ),
{
    if let Some(ftr) = footer {
        let striped = match style {
            Some(s) => s.striped_rows.is_some(),
            None => false,
        };
        let fill: Option<String> = if striped {
            Some(string_from("white"))
        } else {
            None
        };
        push_str(out, "  <tfoot>\n    <tr>\n");
        push_row_cells(out, ftr, style, border_css, inset, local, global, None, &fill, vals);
        push_str(out, "    </tr>\n  </tfoot>\n");
    }
}

/// A table as HTML; see [`table_html`].
fn render_table(
    headers: &Option<Vec<String>>,
    rows: &Option<Vec<Vec<TableCellContent>>>,
    loop_data: &Option<String>,
    row_template: &Option<Vec<TableCellContent>>,
    footer: &Option<Vec<TableCellContent>>,
    style: &Option<TableStyle>,
    local: &Json,
    global: &Json,
    vals: &[FormulaValue],
) -> (r: String)
    ensures
        r@ == table_html(
            *headers,
            *rows,
            *loop_data,
            *row_template,
            *footer,
            opt_style_view(*style),
            *local,
            *global,
            vals@,
        ),
{
    let border_css = table_border(style);
    let inset = table_inset(style);
    let mut html = string_from("<table style=\"width:");
    push_str(&mut html, table_width(style).as_str());
    push_str(&mut html, "; border-collapse: collapse;\">\n");
    push_thead(&mut html, headers, style, border_css.as_str(), inset.as_str());
    push_str(&mut html, "  <tbody>\n");
    push_body_rows(&mut html, rows, loop_data, row_template, style, border_css.as_str(), inset.as_str(), local, global, vals);
    push_str(&mut html, "  </tbody>\n");
    push_tfoot(&mut html, footer, style, border_css.as_str(), inset.as_str(), local, global, vals);
    push_str(&mut html, "</table>\n");
    html
}

// ---------------------------------------------------------------
// Images, shapes and QR codes
// ---------------------------------------------------------------

/// The `style` of a block that aligns what it holds.
pub open spec fn wrapper_style(alignment: Option<String>) -> Seq<char> {
    if opt_is(alignment, "right"@) {
        " style=\"text-align:right;\""@
    } else if opt_is(alignment, "center"@) {
        " style=\"text-align:center;\""@
    } else {
        Seq::empty()
    }
}

fn wrapper(alignment: &Option<String>) -> (r: &'static str)
    ensures
        r@ == wrapper_style(*alignment),
{
    proof {
        reveal_strlit("");
    }
    if opt_str_is(alignment, "right") {
        " style=\"text-align:right;\""
    } else if opt_str_is(alignment, "center") {
        " style=\"text-align:center;\""
    } else {
        ""
    }
}

/// An image, or a comment where its source is not an allowed one.
pub open spec fn image_html(
    src: Seq<char>,
    width: Option<String>,
    height: Option<String>,
    alignment: Option<String>,
) -> Seq<char> {
    match image_src_spec(src) {
        None => "<!-- image omitted: unsupported src scheme -->\n"@,
        Some(s) => "<div"@ + wrapper_style(alignment) + "><img src=\""@ + s + "\" style=\""@ + opt_part(
            width,
            "width:"@,
            |v: Seq<char>| css_token(v, "auto"@),
        ) + opt_part(height, "height:"@, |v: Seq<char>| css_token(v, "auto"@))
            + "\" alt=\"\" /></div>\n"@,
    }
}

fn render_image(
    src: &str,
    width: &Option<String>,
    height: &Option<String>,
    alignment: &Option<String>,
) -> (r: String)
    ensures
        r@ == image_html(src@, *width, *height, *alignment),
{
    let safe_src = match safe_image_src(src) {
        Some(s) => s,
        None => return string_from("<!-- image omitted: unsupported src scheme -->\n"),
    };
    let mut style = String::new();
    if let Some(w) = width {
        push_str(&mut style, "width:");
        push_str(&mut style, safe_css_token(w.as_str(), "auto").as_str());
        push_str(&mut style, ";");
    }
    if let Some(h) = height {
        push_str(&mut style, "height:");
        push_str(&mut style, safe_css_token(h.as_str(), "auto").as_str());
        push_str(&mut style, ";");
    }
    let mut out = string_from("<div");
    push_str(&mut out, wrapper(alignment));
    push_str(&mut out, "><img src=\"");
    push_str(&mut out, safe_src.as_str());
    push_str(&mut out, "\" style=\"");
    push_str(&mut out, style.as_str());
    push_str(&mut out, "\" alt=\"\" /></div>\n");
    out
}

/// A circle, a triangle, or (for any other kind) a rectangle, drawn with
/// CSS in the given size and colour.
pub open spec fn shape_html(
    kind: Seq<char>,
    width: Seq<char>,
    height: Seq<char>,
    fill: Option<String>,
    rotate: Option<String>,
) -> Seq<char> {
    let w = css_token(width, "1cm"@);
    let h = css_token(height, "1cm"@);
    let color = css_color(opt_or(fill, "black"@), "black"@);
    let rot = opt_part(rotate, "transform: rotate("@, |v: Seq<char>| css_token(v, "0deg"@) + ")"@);
    if kind == "circle"@ {
        "<div style=\"width:"@ + w + "; height:"@ + h + "; background:"@ + color
            + "; border-radius:50%; "@ + rot + "\"></div>\n"@
    } else if kind == "triangle"@ {
        "<div style=\"width:0; height:0; border-left:"@ + w + " solid transparent; border-bottom:"@ + h
            + " solid "@ + color + "; "@ + rot + "\"></div>\n"@
    } else {
        "<div style=\"width:"@ + w + "; height:"@ + h + "; background:"@ + color + "; "@ + rot
            + "\"></div>\n"@
    }
}

fn render_shape(
    kind: &str,
    width: &str,
    height: &str,
    fill: &Option<String>,
    rotate: &Option<String>,
) -> (r: String)
    ensures
        r@ == shape_html(kind@, width@, height@, *fill, *rotate),
{
    let w = safe_css_token(width, "1cm");
    let h = safe_css_token(height, "1cm");
    let color = safe_css_color(opt_str(fill, "black"), "black");
    let mut rot = String::new();
    if let Some(r) = rotate {
        push_str(&mut rot, "transform: rotate(");
        push_str(&mut rot, safe_css_token(r.as_str(), "0deg").as_str());
        push_str(&mut rot, ")");
        push_str(&mut rot, ";");
    }
    let mut out;
    if str_eq(kind, "circle") {
        out = string_from("<div style=\"width:");
        push_str(&mut out, w.as_str());
        push_str(&mut out, "; height:");
        push_str(&mut out, h.as_str());
        push_str(&mut out, "; background:");
        push_str(&mut out, color.as_str());
        push_str(&mut out, "; border-radius:50%; ");
    } else if str_eq(kind, "triangle") {
        out = string_from("<div style=\"width:0; height:0; border-left:");
        push_str(&mut out, w.as_str());
        push_str(&mut out, " solid transparent; border-bottom:");
        push_str(&mut out, h.as_str());
        push_str(&mut out, " solid ");
        push_str(&mut out, color.as_str());
        push_str(&mut out, "; ");
    } else {
        out = string_from("<div style=\"width:");
        push_str(&mut out, w.as_str());
        push_str(&mut out, "; height:");
        push_str(&mut out, h.as_str());
        push_str(&mut out, "; background:");
        push_str(&mut out, color.as_str());
        push_str(&mut out, "; ");
    }
    push_str(&mut out, rot.as_str());
    push_str(&mut out, "\"></div>\n");
    out
}

/// A QR code block from the encoder's SVG, or a comment with the reason
/// there is none.
pub open spec fn qr_block_html(
    svg: Result<Seq<char>, Seq<char>>,
    size: Option<String>,
    alignment: Option<String>,
) -> Seq<char> {
    match svg {
        Err(e) => "<!-- QR code error: "@ + html_escape_spec(e) + " -->\n"@,
        Ok(s) => "<div"@ + wrapper_style(alignment) + "><div style=\"width:"@ + css_token(
            opt_or(size, "3cm"@),
            "3cm"@,
        ) + "; display:inline-block;\">"@ + replace_first(
            s,
            "<svg"@,
            "<svg style=\"width:100%;height:auto;display:block;\""@,
        ) + "</div></div>\n"@,
    }
}

/// The HTML around a QR code's SVG (or around the reason it has none).
pub fn qr_block(svg: Result<String, String>, size: &Option<String>, alignment: &Option<String>) -> (r:
    String)
    ensures
        r@ == qr_block_html(
            match svg {
                Ok(s) => Ok(s@),
                Err(e) => Err(e@),
            },
            *size,
            *alignment,
        ),
{
    match svg {
        Err(e) => {
            let mut out = string_from("<!-- QR code error: ");
            push_escaped(&mut out, e.as_str());
            push_str(&mut out, " -->\n");
            out
        },
        Ok(s) => {
            let styled = replace_first_text(
                s.as_str(),
                "<svg",
                "<svg style=\"width:100%;height:auto;display:block;\"",
            );
            let mut out = string_from("<div");
            push_str(&mut out, wrapper(alignment));
            push_str(&mut out, "><div style=\"width:");
            push_str(&mut out, safe_css_token(opt_str(size, "3cm"), "3cm").as_str());
            push_str(&mut out, "; display:inline-block;\">");
            push_str(&mut out, styled.as_str());
            push_str(&mut out, "</div></div>\n");
            out
        },
    }
}

/// A QR code for the plain text of `content`, read against the document
/// data, drawn inline as SVG.
pub open spec fn qr_html(
    content: Seq<InlineContent>,
    data: Json,
    size: Option<String>,
    fill: Option<String>,
    background: Option<String>,
    error_correction: Option<String>,
    alignment: Option<String>,
) -> Seq<char> {
    qr_block_html(
        qr_svg_text_spec(plain_text(content, data), fill, background, error_correction),
        size,
        alignment,
    )
}

fn render_qr(
    content: &[InlineContent],
    size: &Option<String>,
    fill: &Option<String>,
    background: &Option<String>,
    error_correction: &Option<String>,
    alignment: &Option<String>,
    data: &Json,
) -> (r: String)
    ensures
        r@ == qr_html(content@, *data, *size, *fill, *background, *error_correction, *alignment),
{
    let text = resolve_plain(content, data);
    let svg = generate_qr_svg_text(text.as_str(), fill, background, error_correction);
    qr_block(svg, size, alignment)
}

// ---------------------------------------------------------------
// Placement and columns
// ---------------------------------------------------------------

/// The vertical and horizontal CSS that anchors placed content.
pub open spec fn anchor_css(anchor: Option<String>) -> (Seq<char>, Seq<char>) {
    if opt_is(anchor, "top-right"@) {
        ("top:0;"@, "right:0;"@)
    } else if opt_is(anchor, "top-center"@) {
        ("top:0;"@, "left:50%; transform:translateX(-50%);"@)
    } else if opt_is(anchor, "bottom-left"@) {
        ("bottom:0;"@, "left:0;"@)
    } else if opt_is(anchor, "bottom-right"@) {
        ("bottom:0;"@, "right:0;"@)
    } else if opt_is(anchor, "bottom-center"@) {
        ("bottom:0;"@, "left:50%; transform:translateX(-50%);"@)
    } else if opt_is(anchor, "center"@) {
        ("top:50%;"@, "left:50%; transform:translate(-50%,-50%);"@)
    } else {
        ("top:0;"@, "left:0;"@)
    }
}

/// Rendered content positioned absolutely at its anchor, moved by `dx`
/// and `dy`.
pub open spec fn placed_html(
    anchor: Option<String>,
    dx: Option<String>,
    dy: Option<String>,
    inner: Seq<char>,
) -> Seq<char> {
    let (vert, horiz) = anchor_css(anchor);
    "<div style=\"position:absolute; "@ + vert + " "@ + horiz + " "@ + opt_part(
        dx,
        "margin-left:"@,
        |v: Seq<char>| css_token(v, "0"@),
    ) + " "@ + opt_part(dy, "margin-top:"@, |v: Seq<char>| css_token(v, "0"@)) + "\">"@ + inner
        + "</div>\n"@
}

fn placed_wrap(anchor: &Option<String>, dx: &Option<String>, dy: &Option<String>, inner: &str) -> (r:
    String)
    ensures
        r@ == placed_html(*anchor, *dx, *dy, inner@),
{
    let (vert, horiz) = if opt_str_is(anchor, "top-right") {
        ("top:0;", "right:0;")
    } else if opt_str_is(anchor, "top-center") {
        ("top:0;", "left:50%; transform:translateX(-50%);")
    } else if opt_str_is(anchor, "bottom-left") {
        ("bottom:0;", "left:0;")
    } else if opt_str_is(anchor, "bottom-right") {
        ("bottom:0;", "right:0;")
    } else if opt_str_is(anchor, "bottom-center") {
        ("bottom:0;", "left:50%; transform:translateX(-50%);")
    } else if opt_str_is(anchor, "center") {
        ("top:50%;", "left:50%; transform:translate(-50%,-50%);")
    } else {
        ("top:0;", "left:0;")
    };
    let mut out = string_from("<div style=\"position:absolute; ");
    push_str(&mut out, vert);
    push_str(&mut out, " ");
    push_str(&mut out, horiz);
    push_str(&mut out, " ");
    if let Some(v) = dx {
        push_str(&mut out, "margin-left:");
        push_str(&mut out, safe_css_token(v.as_str(), "0").as_str());
        push_str(&mut out, ";");
    }
    push_str(&mut out, " ");
    if let Some(v) = dy {
        push_str(&mut out, "margin-top:");
        push_str(&mut out, safe_css_token(v.as_str(), "0").as_str());
        push_str(&mut out, ";");
    }
    push_str(&mut out, "\">");
    push_str(&mut out, inner);
    push_str(&mut out, "</div>\n");
    out
}

/// The grid's column template: each given width as a safe token (else
/// `1fr`), or `1fr` per column; separated by spaces.
pub open spec fn grid_columns(column_widths: Option<Vec<String>>, count: nat) -> Seq<char> {
    match column_widths {
        Some(ws) => join_with(
            Seq::new(ws@.len(), |i: int| css_token(ws@[i]@, "1fr"@)),
            " "@,
        ),
        None => join_with(Seq::new(count, |i: int| "1fr"@), " "@),
    }
}

pub open spec fn grid_open(column_widths: Option<Vec<String>>, count: nat, gutter: Option<String>) -> Seq<
    char,
> {
    "<div style=\"display:grid; grid-template-columns:"@ + grid_columns(column_widths, count)
        + "; gap:"@ + css_token(opt_or(gutter, "1em"@), "1em"@) + ";\">\n"@
}

fn grid_head(column_widths: &Option<Vec<String>>, count: usize, gutter: &Option<String>) -> (r: String)
    ensures
        r@ == grid_open(*column_widths, count as nat, *gutter),
{
    let mut cols = String::new();
    match column_widths {
        Some(ws) => {
            let ghost parts = Seq::new(ws@.len(), |i: int| css_token(ws@[i]@, "1fr"@));
            for i in 0..ws.len()
                invariant
                    parts == Seq::new(ws@.len(), |i: int| css_token(ws@[i]@, "1fr"@)),
                    cols@ == join_with(parts.take(i as int), " "@),
            {
                if i > 0 {
                    push_str(&mut cols, " ");
                }
                push_str(&mut cols, safe_css_token(ws[i].as_str(), "1fr").as_str());
                assert(parts.take(i + 1).drop_last() =~= parts.take(i as int));
                assert(i == 0 ==> cols@ =~= join_with(parts.take(i + 1), " "@));
            }
            assert(parts.take(ws@.len() as int) =~= parts);
        },
        None => {
            let ghost parts = Seq::new(count as nat, |i: int| "1fr"@);
            for i in 0..count
                invariant
                    parts == Seq::new(count as nat, |i: int| "1fr"@),
                    cols@ == join_with(parts.take(i as int), " "@),
            {
                if i > 0 {
                    push_str(&mut cols, " ");
                }
                push_str(&mut cols, "1fr");
                assert(parts.take(i + 1).drop_last() =~= parts.take(i as int));
                assert(i == 0 ==> cols@ =~= join_with(parts.take(i + 1), " "@));
            }
            assert(parts.take(count as int) =~= parts);
        },
    }
    let gap = match gutter {
        Some(g) => safe_css_token(g.as_str(), "1em"),
        None => string_from("1em"),
    };
    let mut out = string_from("<div style=\"display:grid; grid-template-columns:");
    push_str(&mut out, cols.as_str());
    push_str(&mut out, "; gap:");
    push_str(&mut out, gap.as_str());
    push_str(&mut out, ";\">\n");
    out
}

// ---------------------------------------------------------------
// Nodes
// ---------------------------------------------------------------

/// The first `n` list items.
pub open spec fn bullet_items_html(
    items: Seq<Vec<InlineContent>>,
    local: Json,
    global: Json,
    n: int,
) -> Seq<char>
    decreases n,
{
    if n <= 0 {
        Seq::empty()
    } else {
        bullet_items_html(items, local, global, n - 1) + "  <li>"@ + inline_html(
            items[n - 1]@,
            local,
            global,
        ) + "</li>\n"@
    }
}

/// A heading level held to `1..=6`.
pub open spec fn heading_level(level: u8) -> u8 {
    if level < 1 {
        1
    } else if level > 6 {
        6
    } else {
        level
    }
}

/// A node as HTML, its variables read in `local` then `global`, its
/// formulas' results taken from `vals`.
pub open spec fn html_node(node: Node, local: Json, global: Json, vals: Seq<FormulaValue>) -> Seq<char>
    decreases node, 0int,
{
    match node {
        Node::Paragraph { content, alignment } => "<p"@ + align_style_spec(alignment) + ">"@
            + inline_html(content@, local, global) + "</p>\n"@,
        Node::Heading { level, content, alignment } => {
            let l = decimal(heading_level(level) as nat);
            "<h"@ + l + align_style_spec(alignment) + ">"@ + inline_html(content@, local, global)
                + "</h"@ + l + ">\n"@
        },
        Node::BulletList { items } => "<ul>\n"@ + bullet_items_html(
            items@,
            local,
            global,
            items@.len() as int,
        ) + "</ul>\n"@,
        Node::Table { headers, rows, loop_data, row_template, footer, style } => table_html(
            headers,
            rows,
            loop_data,
            row_template,
            footer,
            opt_style_view(style),
            local,
            global,
            vals,
        ),
        Node::PageBreak => "<div style=\"page-break-after: always;\"></div>\n"@,
        Node::Spacer { height } => "<div style=\"height:"@ + css_token(height@, "1em"@)
            + "\"></div>\n"@,
        Node::Image { src, width, height, alignment } => image_html(src@, width, height, alignment),
        Node::Shape { kind, width, height, fill, rotate } => shape_html(
            kind@,
            width@,
            height@,
            fill,
            rotate,
        ),
        Node::Placed { anchor, dx, dy, content } => placed_html(
            anchor,
            dx,
            dy,
            html_node(*content, local, global, vals),
        ),
        Node::Columns { items, column_widths, gutter } => grid_open(
            column_widths,
            items@.len(),
            gutter,
        ) + columns_html(items@, items@.len() as int, local, global, vals) + "</div>\n"@,
        Node::QrCode { data, width, alignment } => qr_html(
            seq![InlineContent::Text(text_node_of(data))],
            global,
            width,
            None,
            None,
            None,
            alignment,
        ),
        Node::Qr { content, size, fill, background, error_correction, alignment } => qr_html(
            content@,
            global,
            size,
            fill,
            background,
            error_correction,
            alignment,
        ),
    }
}

/// The first `k` columns, each a `<div>` holding its nodes.
pub open spec fn columns_html(
    items: Seq<Vec<Node>>,
    k: int,
    local: Json,
    global: Json,
    vals: Seq<FormulaValue>,
) -> Seq<char>
    decreases items, k,
{
    if k <= 0 || k > items.len() {
        Seq::empty()
    } else {
        columns_html(items, k - 1, local, global, vals) + "  <div>\n"@ + nodes_html(
            items[k - 1]@,
            items[k - 1]@.len() as int,
            local,
            global,
            vals,
        ) + "  </div>\n"@
    }
}

/// The first `m` nodes, one after the other.
pub open spec fn nodes_html(
    nodes: Seq<Node>,
    m: int,
    local: Json,
    global: Json,
    vals: Seq<FormulaValue>,
) -> Seq<char>
    decreases nodes, m,
{
    if m <= 0 || m > nodes.len() {
        Seq::empty()
    } else {
        nodes_html(nodes, m - 1, local, global, vals) + html_node(nodes[m - 1], local, global, vals)
    }
}

fn render_bullets(items: &Vec<Vec<InlineContent>>, local: &Json, global: &Json) -> (r: String)
    ensures
        r@ == "<ul>\n"@ + bullet_items_html(items@, *local, *global, items@.len() as int)
            + "</ul>\n"@,
{
    let mut html = string_from("<ul>\n");
    for i in 0..items.len()
        invariant
            html@ == "<ul>\n"@ + bullet_items_html(items@, *local, *global, i as int),
    {
        push_str(&mut html, "  <li>");
        push_str(&mut html, render_inline(items[i].as_slice(), local, global).as_str());
        push_str(&mut html, "</li>\n");
    }
    push_str(&mut html, "</ul>\n");
    html
}

fn render_heading(level: u8, content: &[InlineContent], alignment: &Option<String>, local: &Json, global: &Json) -> (r: String)
    ensures
        r@ == ({
            let l = decimal(heading_level(level) as nat);
            "<h"@ + l + align_style_spec(*alignment) + ">"@ + inline_html(content@, *local, *global)
                + "</h"@ + l + ">\n"@
        }),
{
    let lvl: u8 = if level < 1 {
        1
    } else if level > 6 {
        6
    } else {
        level
    };
    let mut out = string_from("<h");
    push_decimal(&mut out, lvl as usize);
    push_str(&mut out, align_style(alignment).as_str());
    push_str(&mut out, ">");
    push_str(&mut out, render_inline(content, local, global).as_str());
    push_str(&mut out, "</h");
    push_decimal(&mut out, lvl as usize);
    push_str(&mut out, ">\n");
    out
}

/// One node as HTML; see [`html_node`].
fn render_node(node: &Node, local: &Json, global: &Json, vals: &[FormulaValue]) -> (r: String)
    ensures
        r@ == html_node(*node, *local, *global, vals@),
    decreases node, 0int,
{
    match node {
        Node::Paragraph { content, alignment } => {
            let mut out = string_from("<p");
            push_str(&mut out, align_style(alignment).as_str());
            push_str(&mut out, ">");
            push_str(&mut out, render_inline(content.as_slice(), local, global).as_str());
            push_str(&mut out, "</p>\n");
            out
        },
        Node::Heading { level, content, alignment } => render_heading(
            *level,
            content.as_slice(),
            alignment,
            local,
            global,
        ),
        Node::BulletList { items } => render_bullets(items, local, global),
        Node::Table { headers, rows, loop_data, row_template, footer, style } => render_table(
            headers,
            rows,
            loop_data,
            row_template,
            footer,
            style,
            local,
            global,
            vals,
        ),
        Node::PageBreak => string_from("<div style=\"page-break-after: always;\"></div>\n"),
        Node::Spacer { height } => {
            let mut out = string_from("<div style=\"height:");
            push_str(&mut out, safe_css_token(height.as_str(), "1em").as_str());
            push_str(&mut out, "\"></div>\n");
            out
        },
        Node::Image { src, width, height, alignment } => render_image(
            src.as_str(),
            width,
            height,
            alignment,
        ),
        Node::Shape { kind, width, height, fill, rotate } => render_shape(
            kind.as_str(),
            width.as_str(),
            height.as_str(),
            fill,
            rotate,
        ),
        Node::Placed { anchor, dx, dy, content } => render_placed(
            anchor,
            dx,
            dy,
            content,
            local,
            global,
            vals,
        ),
        Node::Columns { items, column_widths, gutter } => render_columns(
            items,
            column_widths,
            gutter,
            local,
            global,
            vals,
        ),
        Node::QrCode { data, width, alignment } => {
            let item = InlineContent::Text(
                TextNode {
                    node_type: None,
                    text: data.clone(),
                    bold: None,
                    italic: None,
                    font_family: None,
                    size: None,
                    color: None,
                    underline: None,
                    strike: None,
                    link: None,
                },
            );
            let items = vec![item];
            assert(items@ =~= seq![InlineContent::Text(text_node_of(*data))]);
            render_qr(items.as_slice(), width, &None, &None, &None, alignment, global)
        },
        Node::Qr { content, size, fill, background, error_correction, alignment } => render_qr(
            content.as_slice(),
            size,
            fill,
            background,
            error_correction,
            alignment,
            global,
        ),
    }
}

/// Placed content; see [`placed_html`].
fn render_placed(
    anchor: &Option<String>,
    dx: &Option<String>,
    dy: &Option<String>,
    content: &Box<Node>,
    local: &Json,
    global: &Json,
    vals: &[FormulaValue],
) -> (r: String)
    ensures
        r@ == placed_html(*anchor, *dx, *dy, html_node(**content, *local, *global, vals@)),
    decreases **content, 1int,
{
    let inner = render_node(content, local, global, vals);
    placed_wrap(anchor, dx, dy, inner.as_str())
}

/// Columns as a CSS grid; see [`grid_open`] and [`columns_html`].
fn render_columns(
    items: &Vec<Vec<Node>>,
    column_widths: &Option<Vec<String>>,
    gutter: &Option<String>,
    local: &Json,
    global: &Json,
    vals: &[FormulaValue],
) -> (r: String)
    ensures
        r@ == grid_open(*column_widths, items@.len(), *gutter) + columns_html(
            items@,
            items@.len() as int,
            *local,
            *global,
            vals@,
        ) + "</div>\n"@,
    decreases items, 1int,
{
    let mut html = grid_head(column_widths, items.len(), gutter);
    let ghost start = html@;
    for i in 0..items.len()
        invariant
            html@ == start + columns_html(items@, i as int, *local, *global, vals@),
    {
        proof {
            vstd::std_specs::vec::axiom_vec_index_decreases(*items, i as int);
        }
        push_str(&mut html, "  <div>\n");
        let inner = render_nodes(&items[i], local, global, vals);
        push_str(&mut html, inner.as_str());
        push_str(&mut html, "  </div>\n");
        assert(html@ =~= start + columns_html(items@, i + 1, *local, *global, vals@));
    }
    push_str(&mut html, "</div>\n");
    html
}

fn render_nodes(nodes: &Vec<Node>, local: &Json, global: &Json, vals: &[FormulaValue]) -> (r: String)
    ensures
        r@ == nodes_html(nodes@, nodes@.len() as int, *local, *global, vals@),
    decreases nodes, 0int,
{
    let mut out = String::new();
    for j in 0..nodes.len()
        invariant
            out@ == nodes_html(nodes@, j as int, *local, *global, vals@),
    {
        proof {
            vstd::std_specs::vec::axiom_vec_index_decreases(*nodes, j as int);
        }
        let t = render_node(&nodes[j], local, global, vals);
        push_str(&mut out, t.as_str());
    }
    out
}

// ---------------------------------------------------------------
// Documents
// ---------------------------------------------------------------

pub open spec fn page_header(page: Option<PageSettings>) -> Option<PageHeaderFooter> {
    match page {
        Some(p) => p.header,
        None => None,
    }
}

pub open spec fn page_footer(page: Option<PageSettings>) -> Option<PageHeaderFooter> {
    match page {
        Some(p) => p.footer,
        None => None,
    }
}

/// A document as HTML: the print style sheet, then in one relatively
/// positioned block the letterhead nodes, the watermark, the header, the
/// content and the footer.
pub open spec fn document_html(
    content: Seq<Node>,
    data: Json,
    page: Option<PageSettings>,
    vals: Seq<FormulaValue>,
) -> Seq<char> {
    let header = page_header(page);
    let footer = page_footer(page);
    let background = match page {
        Some(p) => match p.background {
            Some(bg) => nodes_html(bg@, bg@.len() as int, data, data, vals),
            None => Seq::empty(),
        },
        None => Seq::empty(),
    };
    let watermark = match page {
        Some(p) => match p.watermark {
            Some(w) => watermark_html(w),
            None => Seq::empty(),
        },
        None => Seq::empty(),
    };
    print_style_spec(header is Some, footer is Some) + "<div style=\"position:relative;\">\n"@
        + background + watermark + match header {
        Some(h) => header_footer_html(h, data, "doc-header"@),
        None => Seq::empty(),
    } + nodes_html(content, content.len() as int, data, data, vals) + match footer {
        Some(f) => header_footer_html(f, data, "doc-footer"@),
        None => Seq::empty(),
    } + "</div>\n"@
}

/// The document as HTML; see [`document_html`]. It always succeeds.
/// Formula cells show the results given in `vals`.
pub fn json_to_html(
    content: &[Node],
    data: &Json,
    page: &Option<PageSettings>,
    vals: &[FormulaValue],
) -> (r: Result<String, String>)
    ensures
        r matches Ok(s) && s@ == document_html(content@, *data, *page, vals@),
{
    let (header, footer, background, watermark) = match page {
        Some(p) => (&p.header, &p.footer, &p.background, &p.watermark),
        None => (&None, &None, &None, &None),
    };
    let mut out = print_style_block(header.is_some(), footer.is_some());
    push_str(&mut out, "<div style=\"position:relative;\">\n");
    if let Some(bg) = background {
        push_str(&mut out, render_nodes(bg, data, data, vals).as_str());
    }
    if let Some(wm) = watermark {
        push_str(&mut out, render_watermark(wm).as_str());
    }
    if let Some(h) = header {
        push_str(&mut out, render_header_footer(h, data, "doc-header").as_str());
    }
    let ghost before = out@;
    for i in 0..content.len()
        invariant
            out@ == before + nodes_html(content@, i as int, *data, *data, vals@),
    {
        let t = render_node(&content[i], data, data, vals);
        push_str(&mut out, t.as_str());
        assert(out@ =~= before + nodes_html(content@, i + 1, *data, *data, vals@));
    }
    if let Some(f) = footer {
        push_str(&mut out, render_header_footer(f, data, "doc-footer").as_str());
    }
    push_str(&mut out, "</div>\n");
    assert(out@ =~= document_html(content@, *data, *page, vals@));
    Ok(out)
}

} // verus!
