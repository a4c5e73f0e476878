//! Typst text: escaping, alignment and colour wrappers, and what variables
//! and page numbers turn into.
use vstd::prelude::*;
use crate::converter::calculations::{push_str_lit_body, str_lit_body};
use crate::domain::{InlineContent, PageHeaderFooter};
use crate::json::{value_at, value_at_path, Json};
use crate::text::{
    chars_of, decimal, find_at, find_from, flat_map, lemma_find_from_bounds, lemma_flat_map_append,
    lemma_flat_map_take, push_char, push_decimal, push_range, push_str, string_from,
};

verus! {

broadcast use vstd::string::group_string_axioms;

// ---------------------------------------------------------------
// Escaping
// ---------------------------------------------------------------

/// Characters with a meaning in Typst markup.
pub open spec fn is_typst_special(c: char) -> bool {
    c == '\\' || c == '*' || c == '_' || c == '#' || c == '@' || c == '$' || c == '<' || c == '>'
        || c == '[' || c == ']' || c == '`' || c == '~' || c == '^' || c == '\'' || c == '"'
}

pub open spec fn typst_escape_char(c: char) -> Seq<char> {
    if is_typst_special(c) {
        seq!['\\', c]
    } else {
        seq![c]
    }
}

pub open spec fn typst_escape_fn() -> spec_fn(char) -> Seq<char> {
    |c: char| typst_escape_char(c)
}

/// Text as Typst markup that shows it literally: a backslash before every
/// special character.
pub open spec fn typst_escape(s: Seq<char>) -> Seq<char> {
    flat_map(s, typst_escape_fn())
}

fn special(c: char) -> (r: bool)
    ensures
        r == is_typst_special(c),
{
    c == '\\' || c == '*' || c == '_' || c == '#' || c == '@' || c == '$' || c == '<' || c == '>'
        || c == '[' || c == ']' || c == '`' || c == '~' || c == '^' || c == '\'' || c == '"'
}

pub(crate) fn push_escaped(out: &mut String, text: &[char])
    ensures
        final(out)@ == old(out)@ + typst_escape(text@),
{
    let ghost start = out@;
    for i in 0..text.len()
        invariant
            out@ == start + flat_map(text@.take(i as int), typst_escape_fn()),
    {
        proof {
            lemma_flat_map_take(text@, i as int, typst_escape_fn());
        }
        let c = text[i];
        if special(c) {
            push_char(out, '\\');
        }
        push_char(out, c);
        assert(out@ =~= start + flat_map(text@.take(i + 1), typst_escape_fn()));
    }
    assert(text@.take(text@.len() as int) =~= text@);
}

pub fn escape_typst(text: &str) -> (r: String)
    ensures
        r@ == typst_escape(text@),
{
    let cs = chars_of(text);
    let mut out = String::new();
    push_escaped(&mut out, cs.as_slice());
    assert(Seq::<char>::empty() + typst_escape(text@) =~= typst_escape(text@));
    out
}

/// Reading escaped markup back: a backslash stands for the character after
/// it.
pub open spec fn typst_unescape(s: Seq<char>) -> Seq<char>
    decreases s.len(),
{
    if s.len() == 0 {
        s
    } else if s[0] == '\\' && s.len() >= 2 {
        seq![s[1]] + typst_unescape(s.skip(2))
    } else {
        seq![s[0]] + typst_unescape(s.skip(1))
    }
}

/// Escaping loses nothing: reading the escaped text back gives the text.
pub proof fn law_escape_typst_roundtrip(s: Seq<char>)
    ensures
        typst_unescape(typst_escape(s)) == s,
    decreases s.len(),
{
    if s.len() > 0 {
        let rest = s.skip(1);
        assert(s =~= seq![s[0]] + rest);
        lemma_flat_map_append(seq![s[0]], rest, typst_escape_fn());
        assert(seq![s[0]].drop_last() =~= Seq::<char>::empty());
        assert(flat_map(Seq::<char>::empty(), typst_escape_fn()) == Seq::<char>::empty());
        assert(flat_map(seq![s[0]], typst_escape_fn()) =~= typst_escape_char(s[0]));
        let e = typst_escape(s);
        assert(e == typst_escape_char(s[0]) + typst_escape(rest));
        law_escape_typst_roundtrip(rest);
        if is_typst_special(s[0]) {
            assert(e.skip(2) =~= typst_escape(rest));
            assert(e[0] == '\\' && e[1] == s[0]);
            assert(typst_unescape(e) == seq![s[0]] + typst_unescape(e.skip(2)));
        } else {
            assert(e.skip(1) =~= typst_escape(rest));
            assert(e[0] == s[0] && s[0] != '\\');
            assert(typst_unescape(e) == seq![s[0]] + typst_unescape(e.skip(1)));
        }
        assert(typst_unescape(e) =~= s);
    }
}

/// In escaped text every special character is escaped: it stands right
/// after a backslash that is itself not escaped.
pub proof fn law_escape_typst_no_bare_specials(s: Seq<char>, i: int)
    requires
        0 <= i < typst_escape(s).len(),
        !is_typst_special(typst_escape(s)[i]),
    ensures
        typst_escape(s)[i] != '\\',
{
}

/// The body of a Typst string literal: `\` and `"` escaped.
pub fn escape_typst_string_literal(s: &str) -> (r: String)
    ensures
        r@ == str_lit_body(s@),
{
    let mut out = String::new();
    push_str_lit_body(&mut out, s);
    assert(Seq::<char>::empty() + str_lit_body(s@) =~= str_lit_body(s@));
    out
}

// ---------------------------------------------------------------
// Tokens and colours
// ---------------------------------------------------------------

pub open spec fn is_token_char(c: char) -> bool {
    ('a' <= c && c <= 'z') || ('A' <= c && c <= 'Z') || ('0' <= c && c <= '9') || c == '.' || c
        == '%' || c == '-' || c == '+'
}

/// A value that can stand in Typst code as a length, ratio or keyword:
/// one to 32 letters, digits, `.`, `%`, `-` or `+`.
pub open spec fn is_safe_token(v: Seq<char>) -> bool {
    0 < v.len() <= 32 && forall|i: int| 0 <= i < v.len() ==> is_token_char(#[trigger] v[i])
}

pub open spec fn safe_token(value: Seq<char>, fallback: Seq<char>) -> Seq<char> {
    if is_safe_token(value) {
        value
    } else {
        fallback
    }
}

/// A client-given length or keyword for Typst code, or `fallback` when it
/// could carry anything else into the code.
pub fn safe_typst_token(value: &str, fallback: &str) -> (r: String)
    ensures
        r@ == safe_token(value@, fallback@),
{
    let cs = chars_of(value);
    if cs.len() == 0 || cs.len() > 32 {
        return string_from(fallback);
    }
    for i in 0..cs.len()
        invariant
            cs@ == value@,
            forall|j: int| 0 <= j < i ==> is_token_char(#[trigger] cs@[j]),
    {
        let c = cs[i];
        let ok = ('a' <= c && c <= 'z') || ('A' <= c && c <= 'Z') || ('0' <= c && c <= '9') || c
            == '.' || c == '%' || c == '-' || c == '+';
        if !ok {
            return string_from(fallback);
        }
    }
    string_from(value)
}

/// What comes out of [`safe_typst_token`] is a safe token whenever the
/// fallback is one.
pub proof fn law_safe_token_is_safe(value: Seq<char>, fallback: Seq<char>)
    requires
        is_safe_token(fallback),
    ensures
        is_safe_token(safe_token(value, fallback)),
{
}

pub open spec fn starts_with_hash(s: Seq<char>) -> bool {
    s.len() > 0 && s[0] == '#'
}

/// A colour a client may give: letters, digits and `#` only.
pub open spec fn is_color_text(fill: Seq<char>) -> bool {
    0 < fill.len() && forall|i: int|
        0 <= i < fill.len() ==> crate::text::is_ascii_alnum(#[trigger] fill[i]) || fill[i] == '#'
}

/// A colour as Typst code: `#rrggbb` becomes `rgb("#rrggbb")`, a name is
/// kept; anything that is not letters, digits and `#` becomes `black`, so
/// a client's colour never carries other code into the markup.
pub open spec fn color_spec(fill: Seq<char>) -> Seq<char> {
    if !is_color_text(fill) {
        "black"@
    } else if starts_with_hash(fill) {
        "rgb(\""@ + fill + "\")"@
    } else {
        fill
    }
}

pub fn color_expr(fill: &str) -> (r: String)
    ensures
        r@ == color_spec(fill@),
{
    let cs = chars_of(fill);
    if cs.len() == 0 {
        return string_from("black");
    }
    for i in 0..cs.len()
        invariant
            cs@ == fill@,
            forall|j: int|
                0 <= j < i ==> crate::text::is_ascii_alnum(#[trigger] cs@[j]) || cs@[j] == '#',
    {
        let c = cs[i];
        if !(crate::text::ascii_alnum(c) || c == '#') {
            return string_from("black");
        }
    }
    if cs[0] == '#' {
        let mut out = string_from("rgb(\"");
        push_str(&mut out, fill);
        push_str(&mut out, "\")");
        out
    } else {
        string_from(fill)
    }
}

pub open spec fn is_color_code_char(c: char) -> bool {
    crate::text::is_ascii_alnum(c) || c == '#' || c == '(' || c == ')' || c == '"'
}

/// Whatever colour a client gives, its Typst code holds only letters,
/// digits, `#`, parentheses and quotes: it cannot end the argument it
/// stands in or start other code.
pub proof fn law_color_expr_is_safe(fill: Seq<char>)
    ensures
        forall|i: int|
            0 <= i < color_spec(fill).len() ==> is_color_code_char(#[trigger] color_spec(fill)[i]),
{
    reveal_strlit("black");
    reveal_strlit("rgb(\"");
    reveal_strlit("\")");
    if is_color_text(fill) && starts_with_hash(fill) {
        let a = "rgb(\""@;
        let b = "\")"@;
        let r = a + fill + b;
        assert forall|i: int| 0 <= i < r.len() implies is_color_code_char(#[trigger] r[i]) by {
            if i < a.len() {
                assert(r[i] == a[i]);
            } else if i < a.len() + fill.len() {
                assert(r[i] == fill[i - a.len()]);
            } else {
                assert(r[i] == b[i - a.len() - fill.len()]);
            }
        }
    }
}

pub open spec fn hex_char(d: nat) -> char {
    if d < 10 {
        ((48 + d) as u8) as char
    } else {
        ((87 + d) as u8) as char
    }
}

/// A byte as two lowercase hex digits.
pub open spec fn hex2(b: u8) -> Seq<char> {
    seq![hex_char((b / 16) as nat), hex_char((b % 16) as nat)]
}

fn hex_char_exec(d: u8) -> (c: char)
    requires
        d < 16,
    ensures
        c == hex_char(d as nat),
{
    if d < 10 {
        (48u8 + d) as char
    } else {
        (87u8 + d) as char
    }
}

/// A colour with an opacity given as an alpha byte: a hex colour gets the
/// byte appended (`rgb("#rrggbbaa")`); a named colour is made transparent
/// by the complementary percentage, rounded down.
pub open spec fn color_alpha_spec(color: Seq<char>, alpha: u8) -> Seq<char> {
    if starts_with_hash(color) {
        "rgb(\""@ + color + hex2(alpha) + "\")"@
    } else {
        color + ".transparentize("@ + decimal((((255 - alpha) * 100) / 255) as nat) + "%)"@
    }
}

pub fn color_expr_with_alpha(color: &str, alpha: u8) -> (r: String)
    ensures
        r@ == color_alpha_spec(color@, alpha),
{
    let cs = chars_of(color);
    if cs.len() > 0 && cs[0] == '#' {
        let mut out = string_from("rgb(\"");
        push_str(&mut out, color);
        push_char(&mut out, hex_char_exec(alpha / 16));
        push_char(&mut out, hex_char_exec(alpha % 16));
        push_str(&mut out, "\")");
        assert(out@ =~= color_alpha_spec(color@, alpha));
        out
    } else {
        let mut out = string_from(color);
        push_str(&mut out, ".transparentize(");
        let pct: u32 = ((255 - alpha as u32) * 100) / 255;
        push_decimal(&mut out, pct as usize);
        push_str(&mut out, "%)");
        assert(out@ =~= color_alpha_spec(color@, alpha));
        out
    }
}

// ---------------------------------------------------------------
// Alignment
// ---------------------------------------------------------------

pub open spec fn opt_is(o: Option<String>, w: Seq<char>) -> bool {
    o matches Some(s) && s@ == w
}

pub open spec fn align_block_spec(text: Seq<char>, alignment: Option<String>) -> Seq<char> {
    if opt_is(alignment, "right"@) {
        "#align(right)[\n"@ + text + "\n]"@
    } else if opt_is(alignment, "center"@) {
        "#align(center)[\n"@ + text + "\n]"@
    } else if opt_is(alignment, "justify"@) {
        "#align(justify)[\n"@ + text + "\n]"@
    } else {
        text
    }
}

pub fn wrap_alignment(text: &str, alignment: &Option<String>) -> (r: String)
    ensures
        r@ == align_block_spec(text@, *alignment),
{
    proof {
        reveal_strlit("right");
        reveal_strlit("center");
        reveal_strlit("justify");
    }
    let word: Option<&str> = if crate::text::opt_str_is(alignment, "right") {
        Some("#align(right)[\n")
    } else if crate::text::opt_str_is(alignment, "center") {
        Some("#align(center)[\n")
    } else if crate::text::opt_str_is(alignment, "justify") {
        Some("#align(justify)[\n")
    } else {
        None
    };
    match word {
        Some(w) => {
            let mut out = string_from(w);
            push_str(&mut out, text);
            push_str(&mut out, "\n]");
            assert(out@ =~= align_block_spec(text@, *alignment));
            out
        },
        None => string_from(text),
    }
}

pub open spec fn align_raw_spec(raw: Seq<char>, alignment: Option<String>) -> Seq<char> {
    if opt_is(alignment, "right"@) {
        "#align(right)["@ + raw + "]"@
    } else if opt_is(alignment, "center"@) {
        "#align(center)["@ + raw + "]"@
    } else {
        raw
    }
}

pub fn wrap_alignment_raw(raw: &str, alignment: &Option<String>) -> (r: String)
    ensures
        r@ == align_raw_spec(raw@, *alignment),
{
    proof {
        reveal_strlit("right");
        reveal_strlit("center");
    }
    if crate::text::opt_str_is(alignment, "right") {
        let mut out = string_from("#align(right)[");
        push_str(&mut out, raw);
        push_str(&mut out, "]");
        out
    } else if crate::text::opt_str_is(alignment, "center") {
        let mut out = string_from("#align(center)[");
        push_str(&mut out, raw);
        push_str(&mut out, "]");
        out
    } else {
        string_from(raw)
    }
}

} // verus!

verus! {

// ---------------------------------------------------------------
// Page numbers
// ---------------------------------------------------------------

pub open spec fn current_marker() -> Seq<char> {
    "{current}"@
}

pub open spec fn total_marker() -> Seq<char> {
    "{total}"@
}

pub open spec fn earliest(a: Option<int>, b: Option<int>) -> Option<int> {
    match (a, b) {
        (Some(x), Some(y)) => Some(if x <= y { x } else { y }),
        (Some(x), None) => Some(x),
        (None, Some(y)) => Some(y),
        (None, None) => None,
    }
}

/// A page-number format from position `i`: the text between markers
/// escaped, `{current}` as the page counter, `{total}` as the final page
/// count.
pub open spec fn page_format_from(s: Seq<char>, i: int) -> Seq<char>
    decreases s.len() - i,
{
    let a = find_from(s, current_marker(), i);
    let b = find_from(s, total_marker(), i);
    match earliest(a, b) {
        None => typst_escape(s.subrange(i, s.len() as int)),
        Some(k) => if 0 <= i <= k && k + 7 <= s.len() {
            if a == Some(k) && k + 9 <= s.len() {
                typst_escape(s.subrange(i, k)) + "#counter(page).display()"@ + page_format_from(
                    s,
                    k + 9,
                )
            } else {
                typst_escape(s.subrange(i, k)) + "#context counter(page).final().first()"@
                    + page_format_from(s, k + 7)
            }
        } else {
            Seq::empty()
        },
    }
}

pub open spec fn page_format(s: Seq<char>) -> Seq<char> {
    page_format_from(s, 0)
}

pub fn render_page_number_format(fmt: &str) -> (r: String)
    ensures
        r@ == page_format(fmt@),
{
    proof {
        reveal_strlit("{current}");
        reveal_strlit("{total}");
    }
    let cs = chars_of(fmt);
    let cur = chars_of("{current}");
    let tot = chars_of("{total}");
    let mut out = String::new();
    let mut i: usize = 0;
    let ghost s = fmt@;
    while i <= cs.len()
        invariant
            cs@ == s,
            s == fmt@,
            cur@ == current_marker(),
            tot@ == total_marker(),
            i <= cs@.len(),
            out@ + page_format_from(s, i as int) == page_format(s),
        decreases cs@.len() - i,
    {
        proof {
            reveal_strlit("{current}");
            reveal_strlit("{total}");
        }
        let a = find_at(cs.as_slice(), cur.as_slice(), i);
        let b = find_at(cs.as_slice(), tot.as_slice(), i);
        proof {
            lemma_find_from_bounds(s, current_marker(), i as int);
            lemma_find_from_bounds(s, total_marker(), i as int);
        }
        let next: Option<usize> = match (a, b) {
            (Some(x), Some(y)) => Some(if x <= y { x } else { y }),
            (Some(x), None) => Some(x),
            (None, Some(y)) => Some(y),
            (None, None) => None,
        };
        let ghost before = out@;
        let ghost sa = find_from(s, current_marker(), i as int);
        let ghost sb = find_from(s, total_marker(), i as int);
        assert(sa == match a { Some(x) => Some(x as int), None => None::<int> });
        assert(sb == match b { Some(x) => Some(x as int), None => None::<int> });
        assert(earliest(sa, sb) == match next { Some(x) => Some(x as int), None => None::<int> });
        match next {
            None => {
                assert(page_format_from(s, i as int) == typst_escape(s.subrange(i as int, s.len() as int)));
                push_escaped_range(&mut out, cs.as_slice(), i, cs.len());
                assert(out@ =~= before + page_format_from(s, i as int));
                return out;
            },
            Some(k) => {
                push_escaped_range(&mut out, cs.as_slice(), i, k);
                let is_cur = match a {
                    Some(x) => x == k,
                    None => false,
                };
                assert(i <= k && k + 7 <= s.len());
                if is_cur {
                    assert(k + 9 <= s.len());
                    assert(page_format_from(s, i as int) == typst_escape(s.subrange(i as int, k as int))
                        + "#counter(page).display()"@ + page_format_from(s, k + 9));
                    push_str(&mut out, "#counter(page).display()");
                    assert(out@ + page_format_from(s, k + 9) =~= before + page_format_from(s, i as int));
                    i = k + 9;
                } else {
                    assert(page_format_from(s, i as int) == typst_escape(s.subrange(i as int, k as int))
                        + "#context counter(page).final().first()"@ + page_format_from(s, k + 7));
                    push_str(&mut out, "#context counter(page).final().first()");
                    assert(out@ + page_format_from(s, k + 7) =~= before + page_format_from(s, i as int));
                    i = k + 7;
                }
            },
        }
    }
    out
}

/// Appends the escape of `text[from..to]`.
pub(crate) fn push_escaped_range(out: &mut String, text: &[char], from: usize, to: usize)
    requires
        from <= to <= text@.len(),
    ensures
        final(out)@ == old(out)@ + typst_escape(text@.subrange(from as int, to as int)),
{
    let mut part: Vec<char> = Vec::new();
    let mut i = from;
    while i < to
        invariant
            from <= i <= to,
            to <= text@.len(),
            part@ == text@.subrange(from as int, i as int),
        decreases to - i,
    {
        part.push(text[i]);
        assert(part@ =~= text@.subrange(from as int, i + 1));
        i = i + 1;
    }
    push_escaped(out, part.as_slice());
}

} // verus!

verus! {

// ---------------------------------------------------------------
// Variables
// ---------------------------------------------------------------

/// How a data value is printed in markup: text escaped, numbers as their
/// JSON text, booleans as `true`/`false`.
pub open spec fn value_markup(v: Json) -> Seq<char> {
    match v {
        Json::Str(s) => typst_escape(s@),
        Json::Number(n) => n@,
        Json::Bool(b) => if b {
            "true"@
        } else {
            "false"@
        },
        _ => "[INVALID TYPE]"@,
    }
}

pub open spec fn missing_text(key: Seq<char>) -> Seq<char> {
    "[MISSING: "@ + key + "]"@
}

pub open spec fn resolve_spec(key: Seq<char>, data: Json) -> Seq<char> {
    match value_at(data, key) {
        Some(v) => value_markup(v),
        None => missing_text(key),
    }
}

pub fn bool_text(b: bool) -> (r: &'static str)
    ensures
        r@ == if b {
            "true"@
        } else {
            "false"@
        },
{
    if b {
        "true"
    } else {
        "false"
    }
}

fn format_value(val: &Json) -> (r: String)
    ensures
        r@ == value_markup(*val),
{
    match val {
        Json::Str(s) => escape_typst(s.as_str()),
        Json::Number(n) => n.clone(),
        Json::Bool(b) => string_from(bool_text(*b)),
        _ => string_from("[INVALID TYPE]"),
    }
}

/// The value at a dotted path; see [`value_at`].
pub fn get_value_by_path<'a>(data: &'a Json, path: &str) -> (r: Option<&'a Json>)
    ensures
        match r {
            Some(x) => value_at(*data, path@) == Some(*x),
            None => value_at(*data, path@) is None,
        },
{
    value_at_path(data, path)
}

pub fn resolve_variable(key: &str, data: &Json) -> (r: String)
    ensures
        r@ == resolve_spec(key@, *data),
{
    match get_value_by_path(data, key) {
        Some(v) => format_value(v),
        None => {
            let mut out = string_from("[MISSING: ");
            push_str(&mut out, key);
            push_str(&mut out, "]");
            out
        },
    }
}

/// Looks the key up in the local value first, then in the global one.
pub fn resolve_variable_with_context(key: &str, local: &Json, global: &Json) -> (r: String)
    ensures
        r@ == match value_at(*local, key@) {
            Some(v) => value_markup(v),
            None => resolve_spec(key@, *global),
        },
{
    match get_value_by_path(local, key) {
        Some(v) => format_value(v),
        None => resolve_variable(key, global),
    }
}

/// Typst code that reads a variable from the document data when the
/// document is compiled.
pub open spec fn variable_code(key: Seq<char>) -> Seq<char> {
    "#safe-get(data, \""@ + str_lit_body(key) + "\")"@
}

pub fn resolve_variable_to_typst(key: &str) -> (r: String)
    ensures
        r@ == variable_code(key@),
{
    let mut out = string_from("#safe-get(data, \"");
    push_str_lit_body(&mut out, key);
    push_str(&mut out, "\")");
    out
}

// ---------------------------------------------------------------
// Inline content
// ---------------------------------------------------------------

pub open spec fn emphasis(text: Seq<char>, bold: Option<bool>, italic: Option<bool>) -> Seq<char> {
    let b = if bold == Some(true) {
        "*"@ + text + "*"@
    } else {
        text
    };
    if italic == Some(true) {
        "_"@ + b + "_"@
    } else {
        b
    }
}

pub open spec fn page_number_text(format: Option<String>) -> Seq<char> {
    match format {
        Some(f) => page_format(f@),
        None => page_format("{current}"@),
    }
}

/// One inline item as paragraph markup: escaped text whose line breaks
/// become paragraph breaks, a variable's value, or a page number.
pub open spec fn inline_markup(item: InlineContent, data: Json) -> Seq<char> {
    match item {
        InlineContent::Text(t) => emphasis(
            flat_map(typst_escape(t.text@), crate::text::newline_to("\n\n"@)),
            t.bold,
            t.italic,
        ),
        InlineContent::Variable(v) => resolve_spec(v.key@, data),
        InlineContent::PageNumber(p) => page_number_text(p.format),
    }
}

/// One inline item in a header or footer: line breaks become spaces, and
/// a variable is read from the document's data when it is compiled, so
/// that the header belongs to the layout and not to one document.
pub open spec fn header_inline_markup(item: InlineContent, data: Json) -> Seq<char> {
    match item {
        InlineContent::Text(t) => emphasis(
            typst_escape(flat_map(t.text@, crate::text::newline_to(" "@))),
            t.bold,
            t.italic,
        ),
        InlineContent::Variable(v) => variable_code(v.key@),
        InlineContent::PageNumber(p) => page_number_text(p.format),
    }
}

pub open spec fn inline_seq(items: Seq<InlineContent>, data: Json, header: bool) -> Seq<char>
    decreases items.len(),
{
    if items.len() == 0 {
        Seq::empty()
    } else {
        inline_seq(items.drop_last(), data, header) + if header {
            header_inline_markup(items.last(), data)
        } else {
            inline_markup(items.last(), data)
        }
    }
}

fn push_emphasis(out: &mut String, text: &str, bold: Option<bool>, italic: Option<bool>)
    ensures
        final(out)@ == old(out)@ + emphasis(text@, bold, italic),
{
    let b = match bold {
        Some(x) => x,
        None => false,
    };
    let it = match italic {
        Some(x) => x,
        None => false,
    };
    let ghost start = out@;
    if it {
        push_str(out, "_");
    }
    if b {
        push_str(out, "*");
    }
    push_str(out, text);
    if b {
        push_str(out, "*");
    }
    if it {
        push_str(out, "_");
    }
    assert(out@ =~= start + emphasis(text@, bold, italic));
}

fn push_inline_item(out: &mut String, item: &InlineContent, data: &Json, header: bool)
    ensures
        final(out)@ == old(out)@ + if header {
            header_inline_markup(*item, *data)
        } else {
            inline_markup(*item, *data)
        },
{
    match item {
        InlineContent::Text(t) => {
            let cs = chars_of(t.text.as_str());
            let text = if header {
                let flat = crate::text::replace_newlines(cs.as_slice(), " ");
                let mut e = String::new();
                push_escaped(&mut e, flat.as_slice());
                assert(e@ =~= typst_escape(flat_map(t.text@, crate::text::newline_to(" "@))));
                e
            } else {
                let mut e = String::new();
                push_escaped(&mut e, cs.as_slice());
                let ec = chars_of(e.as_str());
                let dbl = crate::text::replace_newlines(ec.as_slice(), "\n\n");
                assert(e@ =~= typst_escape(t.text@));
                crate::text::string_from_chars(dbl.as_slice())
            };
            push_emphasis(out, text.as_str(), t.bold, t.italic);
        },
        InlineContent::Variable(v) => {
            let s = if header {
                resolve_variable_to_typst(v.key.as_str())
            } else {
                resolve_variable(v.key.as_str(), data)
            };
            push_str(out, s.as_str());
        },
        InlineContent::PageNumber(p) => {
            let s = match &p.format {
                Some(f) => render_page_number_format(f.as_str()),
                None => render_page_number_format("{current}"),
            };
            push_str(out, s.as_str());
        },
    }
}

fn inline_text(items: &[InlineContent], data: &Json, header: bool) -> (r: String)
    ensures
        r@ == inline_seq(items@, *data, header),
{
    let mut out = String::new();
    for i in 0..items.len()
        invariant
            out@ == inline_seq(items@.take(i as int), *data, header),
    {
        push_inline_item(&mut out, &items[i], data, header);
        assert(items@.take(i + 1).drop_last() =~= items@.take(i as int));
    }
    assert(items@.take(items@.len() as int) =~= items@);
    out
}

/// Inline content as paragraph markup, variables resolved from `data`.
pub fn format_inline_content(items: &[InlineContent], data: &Json) -> (r: String)
    ensures
        r@ == inline_seq(items@, *data, false),
{
    inline_text(items, data, false)
}

fn format_header_footer_inline(items: &[InlineContent], data: &Json) -> (r: String)
    ensures
        r@ == inline_seq(items@, *data, true),
{
    inline_text(items, data, true)
}

pub open spec fn hf_align(alignment: Option<String>) -> Seq<char> {
    if opt_is(alignment, "left"@) {
        "left"@
    } else if opt_is(alignment, "right"@) {
        "right"@
    } else {
        "center"@
    }
}

pub open spec fn aligned_block(align: Seq<char>, text: Seq<char>) -> Seq<char> {
    "align("@ + align + ")["@ + text + "]"@
}

/// A page header or footer: a `context` block that shows the first page's
/// content on page one and the default content elsewhere; first-page-only
/// and skip-first-page leave the other pages, or the first, empty.
pub open spec fn header_footer_spec(hf: PageHeaderFooter, data: Json) -> Seq<char> {
    let align = hf_align(hf.alignment);
    let default_block = aligned_block(align, inline_seq(hf.content@, data, true));
    let (first, rest) = if hf.first_page_only == Some(true) {
        (default_block, "[]"@)
    } else if hf.skip_first_page == Some(true) {
        ("[]"@, default_block)
    } else if hf.first_page_content is Some {
        (
            aligned_block(align, inline_seq(hf.first_page_content->0@, data, true)),
            default_block,
        )
    } else {
        (default_block, default_block)
    };
    "context {\n  let pg = counter(page).get().first()\n  if pg == 1 { "@ + first + " } else { "@
        + rest + " }\n}"@
}

fn aligned(align: &str, text: &str) -> (r: String)
    ensures
        r@ == aligned_block(align@, text@),
{
    let mut out = string_from("align(");
    push_str(&mut out, align);
    push_str(&mut out, ")[");
    push_str(&mut out, text);
    push_str(&mut out, "]");
    out
}

pub fn build_header_footer_block(hf: &PageHeaderFooter, data: &Json) -> (r: String)
    ensures
        r@ == header_footer_spec(*hf, *data),
{
    proof {
        reveal_strlit("left");
        reveal_strlit("right");
        reveal_strlit("center");
    }
    let align = if crate::text::opt_str_is(&hf.alignment, "left") {
        "left"
    } else if crate::text::opt_str_is(&hf.alignment, "right") {
        "right"
    } else {
        "center"
    };
    let default_text = format_header_footer_inline(hf.content.as_slice(), data);
    let default_block = aligned(align, default_text.as_str());
    let first_only = match hf.first_page_only {
        Some(x) => x,
        None => false,
    };
    let skip_first = match hf.skip_first_page {
        Some(x) => x,
        None => false,
    };
    let (first, rest) = if first_only {
        (default_block, string_from("[]"))
    } else if skip_first {
        (string_from("[]"), default_block)
    } else {
        match &hf.first_page_content {
            Some(fp) => {
                let t = format_header_footer_inline(fp.as_slice(), data);
                (aligned(align, t.as_str()), default_block)
            },
            None => (default_block.clone(), default_block),
        }
    };
    let mut out = string_from("context {\n  let pg = counter(page).get().first()\n  if pg == 1 { ");
    push_str(&mut out, first.as_str());
    push_str(&mut out, " } else { ");
    push_str(&mut out, rest.as_str());
    push_str(&mut out, " }\n}");
    out
}

} // verus!
