//! Shapes drawn as SVG in a 100 by 100 box.
use vstd::prelude::*;
use crate::converter::context::opt_is;
use crate::text::{fold_lower_seq, folded_eq, push_str, string_from};

verus! {

broadcast use vstd::string::group_string_axioms;

pub open spec fn opt_or(o: Option<String>, d: Seq<char>) -> Seq<char> {
    match o {
        Some(s) => s@,
        None => d,
    }
}

/// The paint attributes every shape carries, and the rotation about the
/// box's centre unless the rotation is `0`.
pub open spec fn paint_attrs(
    fill: Option<String>,
    stroke: Option<String>,
    stroke_width: Option<String>,
    rotate: Option<String>,
) -> Seq<char> {
    let r = opt_or(rotate, "0"@);
    " fill=\""@ + opt_or(fill, "none"@) + "\" stroke=\""@ + opt_or(stroke, "none"@)
        + "\" stroke-width=\""@ + opt_or(stroke_width, "1"@) + "\""@ + if r != "0"@ {
        " transform=\"rotate("@ + r + " 50 50)\""@
    } else {
        Seq::empty()
    }
}

/// The SVG of a shape: `rect`, `circle`, `triangle` or `path` (matched
/// case-insensitively); a path needs its path data.
pub open spec fn shape_svg_spec(
    kind: Seq<char>,
    path_data: Option<String>,
    width: Seq<char>,
    height: Seq<char>,
    attrs: Seq<char>,
) -> Result<Seq<char>, Seq<char>> {
    let k = fold_lower_seq(kind);
    let head = "<svg xmlns=\"http://www.w3.org/2000/svg\" viewBox=\"0 0 100 100\" width=\""@ + width
        + "\" height=\""@ + height + "\">"@;
    let tag = if k == "rect"@ {
        Some("<rect x=\"10\" y=\"10\" width=\"80\" height=\"80\""@ + attrs + "/>"@)
    } else if k == "circle"@ {
        Some("<circle cx=\"50\" cy=\"50\" r=\"40\""@ + attrs + "/>"@)
    } else if k == "triangle"@ {
        Some("<polygon points=\"50,10 90,90 10,90\""@ + attrs + "/>"@)
    } else {
        None
    };
    match tag {
        Some(t) => Ok(head + t + "</svg>"@),
        None => if k == "path"@ {
            match path_data {
                Some(d) => Ok(head + "<path d=\""@ + d@ + "\""@ + attrs + "/>"@ + "</svg>"@),
                None => Err("Path shape requires 'path_data'"@),
            }
        } else {
            Err("Unsupported shape kind: "@ + kind)
        },
    }
}

fn push_opt_or(out: &mut String, o: &Option<String>, d: &str)
    ensures
        final(out)@ == old(out)@ + opt_or(*o, d@),
{
    match o {
        Some(s) => push_str(out, s.as_str()),
        None => push_str(out, d),
    }
}

fn paint(
    fill: &Option<String>,
    stroke: &Option<String>,
    stroke_width: &Option<String>,
    rotate: &Option<String>,
) -> (r: String)
    ensures
        r@ == paint_attrs(*fill, *stroke, *stroke_width, *rotate),
{
    let mut out = string_from(" fill=\"");
    push_opt_or(&mut out, fill, "none");
    push_str(&mut out, "\" stroke=\"");
    push_opt_or(&mut out, stroke, "none");
    push_str(&mut out, "\" stroke-width=\"");
    push_opt_or(&mut out, stroke_width, "1");
    push_str(&mut out, "\"");
    let zero = match rotate {
        Some(r) => crate::text::str_eq(r.as_str(), "0"),
        None => true,
    };
    proof {
        reveal_strlit("0");
    }
    if !zero {
        push_str(&mut out, " transform=\"rotate(");
        push_opt_or(&mut out, rotate, "0");
        push_str(&mut out, " 50 50)\"");
    }
    let ghost e = paint_attrs(*fill, *stroke, *stroke_width, *rotate);
    assert(out@ =~= e);
    out
}

/// The SVG text of a shape; see [`shape_svg_spec`].
pub fn shape_svg_text(
    kind: &str,
    path_data: &Option<String>,
    width: &str,
    height: &str,
    fill: &Option<String>,
    stroke: &Option<String>,
    stroke_width: &Option<String>,
    rotate: &Option<String>,
) -> (r: Result<String, String>)
    ensures
        match r {
            Ok(s) => shape_svg_spec(
                kind@,
                *path_data,
                width@,
                height@,
                paint_attrs(*fill, *stroke, *stroke_width, *rotate),
            ) == Ok::<Seq<char>, Seq<char>>(s@),
            Err(e) => shape_svg_spec(
                kind@,
                *path_data,
                width@,
                height@,
                paint_attrs(*fill, *stroke, *stroke_width, *rotate),
            ) == Err::<Seq<char>, Seq<char>>(e@),
        },
{
    proof {
        reveal_strlit("rect");
        reveal_strlit("circle");
        reveal_strlit("triangle");
        reveal_strlit("path");
    }
    let attrs = paint(fill, stroke, stroke_width, rotate);
    let mut svg = string_from(
        "<svg xmlns=\"http://www.w3.org/2000/svg\" viewBox=\"0 0 100 100\" width=\"",
    );
    push_str(&mut svg, width);
    push_str(&mut svg, "\" height=\"");
    push_str(&mut svg, height);
    push_str(&mut svg, "\">");
    let ghost head = svg@;
    if folded_eq(kind, "rect") {
        push_str(&mut svg, "<rect x=\"10\" y=\"10\" width=\"80\" height=\"80\"");
    } else if folded_eq(kind, "circle") {
        push_str(&mut svg, "<circle cx=\"50\" cy=\"50\" r=\"40\"");
    } else if folded_eq(kind, "triangle") {
        push_str(&mut svg, "<polygon points=\"50,10 90,90 10,90\"");
    } else if folded_eq(kind, "path") {
        match path_data {
            Some(d) => {
                push_str(&mut svg, "<path d=\"");
                push_str(&mut svg, d.as_str());
                push_str(&mut svg, "\"");
            },
            None => return Err(string_from("Path shape requires 'path_data'")),
        }
    } else {
        let mut e = string_from("Unsupported shape kind: ");
        push_str(&mut e, kind);
        return Err(e);
    }
    push_str(&mut svg, attrs.as_str());
    push_str(&mut svg, "/>");
    push_str(&mut svg, "</svg>");
    let ghost expect = shape_svg_spec(kind@, *path_data, width@, height@, attrs@);
    assert(expect is Ok);
    assert(svg@ =~= expect->Ok_0);
    Ok(svg)
}

/// The SVG of a shape as UTF-8 bytes.
pub fn render_shape_svg(
    kind: &str,
    path_data: &Option<String>,
    width: &str,
    height: &str,
    fill: &Option<String>,
    stroke: &Option<String>,
    stroke_width: &Option<String>,
    rotate: &Option<String>,
) -> (r: Result<Vec<u8>, String>)
    ensures
        match r {
            Ok(b) => shape_svg_spec(
                kind@,
                *path_data,
                width@,
                height@,
                paint_attrs(*fill, *stroke, *stroke_width, *rotate),
            ) matches Ok(s) && b@ == vstd::utf8::encode_utf8(s),
            Err(e) => shape_svg_spec(
                kind@,
                *path_data,
                width@,
                height@,
                paint_attrs(*fill, *stroke, *stroke_width, *rotate),
            ) == Err::<Seq<char>, Seq<char>>(e@),
        },
{
    let s = shape_svg_text(kind, path_data, width, height, fill, stroke, stroke_width, rotate)?;
    Ok(s.as_str().as_bytes_vec())
}

} // verus!
