//! The parts of chart drawing that are text: the colour palette and the
//! escaped title. The geometry, which is floating point, is drawn by the
//! application.
use vstd::prelude::*;
use crate::text::{chars_of, flat_map, lemma_flat_map_take, push_char, push_str, string_from};

verus! {

broadcast use vstd::string::group_string_axioms;

pub open spec fn strip_hashes(s: Seq<char>) -> Seq<char>
    decreases s.len(),
{
    if s.len() > 0 && s[0] == '#' {
        strip_hashes(s.drop_first())
    } else {
        s
    }
}

pub open spec fn is_hex_digit(c: char) -> bool {
    ('0' <= c && c <= '9') || ('a' <= c && c <= 'f') || ('A' <= c && c <= 'F')
}

/// Two hex digits, one byte of a colour.
pub open spec fn hex_pair(a: char, b: char) -> bool {
    is_hex_digit(a) && is_hex_digit(b)
}

pub open spec fn valid_hex6(h: Seq<char>) -> bool {
    h.len() == 6 && hex_pair(h[0], h[1]) && hex_pair(h[2], h[3]) && hex_pair(h[4], h[5])
}

/// `#` followed by six hex digits (leading `#`s ignored), else the
/// default blue.
pub open spec fn parse_color_spec(hex: Seq<char>) -> Seq<char> {
    let h = strip_hashes(hex);
    if valid_hex6(h) {
        seq!['#'] + h
    } else {
        "#3b82f6"@
    }
}

fn hex_digit(c: char) -> (r: bool)
    ensures
        r == is_hex_digit(c),
{
    ('0' <= c && c <= '9') || ('a' <= c && c <= 'f') || ('A' <= c && c <= 'F')
}

/// A colour checked for the chart; see [`parse_color_spec`].
pub fn parse_color(hex: &str) -> (r: String)
    ensures
        r@ == parse_color_spec(hex@),
{
    let cs = chars_of(hex);
    let mut start: usize = 0;
    assert(cs@.skip(0) =~= cs@);
    while start < cs.len() && cs[start] == '#'
        invariant
            start <= cs@.len(),
            cs@ == hex@,
            strip_hashes(hex@) == strip_hashes(cs@.skip(start as int)),
        decreases cs@.len() - start,
    {
        assert(cs@.skip(start as int).drop_first() =~= cs@.skip(start + 1));
        start = start + 1;
    }
    let h = crate::text::chars_from(cs.as_slice(), start);
    assert(strip_hashes(hex@) == h@);
    let ok = h.len() == 6 && hex_digit(h[0]) && hex_digit(h[1]) && hex_digit(h[2]) && hex_digit(h[3])
        && hex_digit(h[4]) && hex_digit(h[5]);
    if ok {
        let mut out = string_from("#");
        crate::text::push_chars(&mut out, h.as_slice());
        proof {
            reveal_strlit("#");
        }
        out
    } else {
        string_from("#3b82f6")
    }
}

pub open spec fn default_palette() -> Seq<Seq<char>> {
    seq!["#3b82f6"@, "#10b981"@, "#f59e0b"@, "#ef4444"@, "#8b5cf6"@, "#ec4899"@]
}

/// The palette a chart cycles through: the user's colours, each checked,
/// or the default six when the user gives none.
pub open spec fn palette(user_colors: Option<Vec<String>>) -> Seq<Seq<char>> {
    match user_colors {
        Some(c) => if c@.len() > 0 {
            Seq::new(c@.len(), |i: int| parse_color_spec(c@[i]@))
        } else {
            default_palette()
        },
        None => default_palette(),
    }
}

/// The palette's colour for position `i`, cycling.
pub open spec fn cycled(user_colors: Option<Vec<String>>, i: int) -> Seq<char> {
    let p = palette(user_colors);
    p[i % (p.len() as int)]
}

/// One colour per data point, cycling through the palette.
pub fn get_colors(data_len: usize, user_colors: &Option<Vec<String>>) -> (r: Vec<String>)
    ensures
        r@.len() == data_len,
        forall|i: int|
            0 <= i < data_len ==> #[trigger] r@[i]@ == cycled(*user_colors, i),
{
    let mut base: Vec<String> = Vec::new();
    let given: usize = match user_colors {
        Some(c) => c.len(),
        None => 0,
    };
    match user_colors {
        Some(c) if given > 0 => {
            for i in 0..c.len()
                invariant
                    base@.len() == i,
                    forall|j: int| 0 <= j < i ==> #[trigger] base@[j]@ == parse_color_spec(c@[j]@),
            {
                base.push(parse_color(c[i].as_str()));
            }
        },
        _ => {
            base.push(string_from("#3b82f6"));
            base.push(string_from("#10b981"));
            base.push(string_from("#f59e0b"));
            base.push(string_from("#ef4444"));
            base.push(string_from("#8b5cf6"));
            base.push(string_from("#ec4899"));
        },
    }
    assert(base@.len() == palette(*user_colors).len());
    assert(forall|j: int| 0 <= j < base@.len() ==> #[trigger] base@[j]@ == palette(*user_colors)[j as int]);
    let mut out: Vec<String> = Vec::new();
    for i in 0..data_len
        invariant
            out@.len() == i,
            base@.len() > 0,
            base@.len() == palette(*user_colors).len(),
            forall|j: int| 0 <= j < base@.len() ==> #[trigger] base@[j]@ == palette(*user_colors)[j as int],
            forall|j: int|
                0 <= j < i ==> #[trigger] out@[j]@ == cycled(*user_colors, j),
    {
        let k = i % base.len();
        out.push(base[k].clone());
    }
    out
}

pub open spec fn xml_text_char(c: char) -> Seq<char> {
    if c == '&' {
        "&amp;"@
    } else if c == '<' {
        "&lt;"@
    } else if c == '>' {
        "&gt;"@
    } else {
        seq![c]
    }
}

pub open spec fn xml_text_fn() -> spec_fn(char) -> Seq<char> {
    |c: char| xml_text_char(c)
}

/// A chart title as SVG text: `&`, `<` and `>` escaped.
pub fn escape_svg_text(title: &str) -> (r: String)
    ensures
        r@ == flat_map(title@, xml_text_fn()),
{
    proof {
        reveal_strlit("&amp;");
        reveal_strlit("&lt;");
        reveal_strlit("&gt;");
    }
    let cs = chars_of(title);
    let mut out = String::new();
    for i in 0..cs.len()
        invariant
            cs@ == title@,
            out@ == flat_map(cs@.take(i as int), xml_text_fn()),
    {
        proof {
            lemma_flat_map_take(cs@, i as int, xml_text_fn());
            reveal_strlit("&amp;");
            reveal_strlit("&lt;");
            reveal_strlit("&gt;");
        }
        let c = cs[i];
        if c == '&' {
            push_str(&mut out, "&amp;");
        } else if c == '<' {
            push_str(&mut out, "&lt;");
        } else if c == '>' {
            push_str(&mut out, "&gt;");
        } else {
            push_char(&mut out, c);
        }
        assert(out@ =~= flat_map(cs@.take(i + 1), xml_text_fn()));
    }
    assert(cs@.take(cs@.len() as int) =~= cs@);
    out
}

} // verus!
