//! Images and shapes. Their bytes become assets of the layout, named by
//! how many assets there were before.
use vstd::prelude::*;
use crate::assets::resolver::{
    image_format, image_source_spec, resolve_image_source, sniff_image_format, MAX_IMAGE_BYTES,
};
use crate::converter::context::{
    align_raw_spec, color_expr, color_spec, safe_token, safe_typst_token, wrap_alignment_raw,
};
use crate::converter::nodes::qr::assets_view;
use crate::converter::nodes::text::{join_comma, join_strings};
use crate::engines::graphics::shape::{paint_attrs, render_shape_svg, shape_svg_spec};
use crate::text::{decimal, fold_lower_seq, folded_eq, push_decimal, push_str, string_from};

verus! {

broadcast use vstd::string::group_string_axioms;

/// A node's markup and the assets it adds, or its error.
pub open spec fn asset_result_matches(
    spec_r: Result<(Seq<char>, Seq<(Seq<char>, Seq<u8>)>), Seq<char>>,
    r: Result<String, String>,
    before: Seq<(String, Vec<u8>)>,
    after: Seq<(String, Vec<u8>)>,
) -> bool {
    match r {
        Ok(s) => spec_r matches Ok((m, added)) && m == s@ && assets_view(after) == assets_view(before)
            + added,
        Err(e) => spec_r == Err::<(Seq<char>, Seq<(Seq<char>, Seq<u8>)>), Seq<char>>(e@)
            && assets_view(after) == assets_view(before),
    }
}

pub open spec fn asset_path(prefix: Seq<char>, n: nat, ext: Seq<char>) -> Seq<char> {
    prefix + decimal(n) + "."@ + ext
}

pub open spec fn image_args(fmt: Seq<char>, width: Option<String>, height: Option<String>) -> Seq<
    Seq<char>,
> {
    seq!["format: \""@ + fmt + "\""@] + match width {
        Some(w) => seq!["width: "@ + safe_token(w@, "auto"@)],
        None => Seq::empty(),
    } + match height {
        Some(h) => seq!["height: "@ + safe_token(h@, "auto"@)],
        None => Seq::empty(),
    }
}

/// An image: its source resolved (see [`image_source_spec`]), at most
/// [`MAX_IMAGE_BYTES`] long, stored as `__asset_<n>.<format>`; a width or
/// height that is not a safe token becomes `auto`.
pub open spec fn image_spec(
    src: Seq<char>,
    width: Option<String>,
    height: Option<String>,
    alignment: Option<String>,
    fetched: Seq<(String, Result<Vec<u8>, String>)>,
    n: nat,
) -> Result<(Seq<char>, Seq<(Seq<char>, Seq<u8>)>), Seq<char>> {
    match image_source_spec(src, fetched) {
        Err(e) => Err(e),
        Ok(b) => if b.len() > MAX_IMAGE_BYTES {
            Err("Image too large"@)
        } else {
            let fmt = image_format(b);
            let path = asset_path("__asset_"@, n, fmt);
            let markup = align_raw_spec(
                "#image(\""@ + path + "\", "@ + join_comma(image_args(fmt, width, height)) + ")"@,
                alignment,
            ) + "\n\n"@;
            Ok((markup, seq![(path, b)]))
        },
    }
}

fn make_path(prefix: &str, n: usize, ext: &str) -> (r: String)
    ensures
        r@ == asset_path(prefix@, n as nat, ext@),
{
    let mut p = string_from(prefix);
    push_decimal(&mut p, n);
    push_str(&mut p, ".");
    push_str(&mut p, ext);
    p
}

pub fn render_image(
    src: &str,
    width: &Option<String>,
    height: &Option<String>,
    alignment: &Option<String>,
    fetched: &Vec<(String, Result<Vec<u8>, String>)>,
    assets: &mut Vec<(String, Vec<u8>)>,
) -> (r: Result<String, String>)
    ensures
        asset_result_matches(
            image_spec(src@, *width, *height, *alignment, fetched@, old(assets)@.len()),
            r,
            old(assets)@,
            final(assets)@,
        ),
{
    let bytes = resolve_image_source(src, fetched)?;
    if bytes.len() > MAX_IMAGE_BYTES {
        return Err(string_from("Image too large"));
    }
    let format = sniff_image_format(bytes.as_slice());
    let path = make_path("__asset_", assets.len(), format);
    let ghost before = assets@;
    let ghost bv = bytes@;
    assets.push((path.clone(), bytes));
    assert(assets_view(assets@) =~= assets_view(before) + seq![(path@, bv)]);
    let mut args: Vec<String> = Vec::new();
    let mut f = string_from("format: \"");
    push_str(&mut f, format);
    push_str(&mut f, "\"");
    args.push(f);
    match width {
        Some(w) => {
            let mut a = string_from("width: ");
            push_str(&mut a, safe_typst_token(w.as_str(), "auto").as_str());
            args.push(a);
        },
        None => {},
    }
    match height {
        Some(h) => {
            let mut a = string_from("height: ");
            push_str(&mut a, safe_typst_token(h.as_str(), "auto").as_str());
            args.push(a);
        },
        None => {},
    }
    assert(crate::text::strings_view(args@) =~= image_args(format@, *width, *height));
    let joined = join_strings(&args);
    let mut expr = string_from("#image(\"");
    push_str(&mut expr, path.as_str());
    push_str(&mut expr, "\", ");
    push_str(&mut expr, joined.as_str());
    push_str(&mut expr, ")");
    let mut out = wrap_alignment_raw(expr.as_str(), alignment);
    push_str(&mut out, "\n\n");
    Ok(out)
}

pub open spec fn native_shape(kind: Seq<char>, width: Seq<char>, height: Seq<char>, fill: Seq<char>) -> Seq<
    char,
> {
    let k = fold_lower_seq(kind);
    if k == "triangle"@ {
        "polygon(fill: "@ + fill + ", (0pt, 0pt), ("@ + width + ", 0pt), (0pt, "@ + height + "))"@
    } else if k == "circle"@ {
        "circle(width: "@ + width + ", height: "@ + height + ", fill: "@ + fill + ", stroke: none)"@
    } else {
        "rect(width: "@ + width + ", height: "@ + height + ", fill: "@ + fill + ", stroke: none)"@
    }
}

/// A shape: a path, or any shape with a stroke, is drawn as an SVG asset
/// `__shape_<n>.svg`; other shapes are Typst's own, filled (black by
/// default) and optionally rotated. Its width and height reach the markup
/// only as safe tokens (else `1cm`), its rotation likewise (else `0deg`).
pub open spec fn shape_spec(
    kind: Seq<char>,
    path_data: Option<String>,
    width: Seq<char>,
    height: Seq<char>,
    fill: Option<String>,
    stroke: Option<String>,
    stroke_width: Option<String>,
    rotate: Option<String>,
    n: nat,
) -> Result<(Seq<char>, Seq<(Seq<char>, Seq<u8>)>), Seq<char>> {
    if fold_lower_seq(kind) == "path"@ || stroke is Some {
        match shape_svg_spec(
            kind,
            path_data,
            width,
            height,
            paint_attrs(fill, stroke, stroke_width, rotate),
        ) {
            Err(e) => Err(e),
            Ok(svg) => {
                let path = asset_path("__shape_"@, n, "svg"@);
                Ok(
                    (
                        "#image(\""@ + path + "\", width: "@ + safe_token(width, "1cm"@)
                            + ", height: "@ + safe_token(height, "1cm"@) + ")\n\n"@,
                        seq![(path, vstd::utf8::encode_utf8(svg))],
                    ),
                )
            },
        }
    } else {
        let f = color_spec(
            match fill {
                Some(x) => x@,
                None => "black"@,
            },
        );
        let shape = native_shape(kind, safe_token(width, "1cm"@), safe_token(height, "1cm"@), f);
        match rotate {
            Some(r) => Ok(
                ("#rotate("@ + safe_token(r@, "0deg"@) + ")[#"@ + shape + "]\n\n"@, Seq::empty()),
            ),
            None => Ok(("#"@ + shape + "\n\n"@, Seq::empty())),
        }
    }
}

pub fn render_shape(
    kind: &str,
    path_data: &Option<String>,
    width: &str,
    height: &str,
    fill: &Option<String>,
    stroke: &Option<String>,
    stroke_width: &Option<String>,
    rotate: &Option<String>,
    assets: &mut Vec<(String, Vec<u8>)>,
) -> (r: Result<String, String>)
    ensures
        asset_result_matches(
            shape_spec(
                kind@,
                *path_data,
                width@,
                height@,
                *fill,
                *stroke,
                *stroke_width,
                *rotate,
                old(assets)@.len(),
            ),
            r,
            old(assets)@,
            final(assets)@,
        ),
{
    proof {
        reveal_strlit("path");
        reveal_strlit("triangle");
        reveal_strlit("circle");
        reveal_strlit("svg");
    }
    let w = safe_typst_token(width, "1cm");
    let h = safe_typst_token(height, "1cm");
    let has_stroke = match stroke {
        Some(_) => true,
        None => false,
    };
    if folded_eq(kind, "path") || has_stroke {
        let svg = render_shape_svg(
            kind,
            path_data,
            width,
            height,
            fill,
            stroke,
            stroke_width,
            rotate,
        )?;
        let path = make_path("__shape_", assets.len(), "svg");
        let ghost before = assets@;
        let ghost bv = svg@;
        assets.push((path.clone(), svg));
        assert(assets_view(assets@) =~= assets_view(before) + seq![(path@, bv)]);
        let mut out = string_from("#image(\"");
        push_str(&mut out, path.as_str());
        push_str(&mut out, "\", width: ");
        push_str(&mut out, w.as_str());
        push_str(&mut out, ", height: ");
        push_str(&mut out, h.as_str());
        push_str(&mut out, ")\n\n");
        return Ok(out);
    }
    let fill_expr = match fill {
        Some(f) => color_expr(f.as_str()),
        None => color_expr("black"),
    };
    let mut shape = String::new();
    if folded_eq(kind, "triangle") {
        push_str(&mut shape, "polygon(fill: ");
        push_str(&mut shape, fill_expr.as_str());
        push_str(&mut shape, ", (0pt, 0pt), (");
        push_str(&mut shape, w.as_str());
        push_str(&mut shape, ", 0pt), (0pt, ");
        push_str(&mut shape, h.as_str());
        push_str(&mut shape, "))");
    } else if folded_eq(kind, "circle") {
        push_str(&mut shape, "circle(width: ");
        push_str(&mut shape, w.as_str());
        push_str(&mut shape, ", height: ");
        push_str(&mut shape, h.as_str());
        push_str(&mut shape, ", fill: ");
        push_str(&mut shape, fill_expr.as_str());
        push_str(&mut shape, ", stroke: none)");
    } else {
        push_str(&mut shape, "rect(width: ");
        push_str(&mut shape, w.as_str());
        push_str(&mut shape, ", height: ");
        push_str(&mut shape, h.as_str());
        push_str(&mut shape, ", fill: ");
        push_str(&mut shape, fill_expr.as_str());
        push_str(&mut shape, ", stroke: none)");
    }
    match rotate {
        Some(r) => {
            let mut out = string_from("#rotate(");
            push_str(&mut out, safe_typst_token(r.as_str(), "0deg").as_str());
            push_str(&mut out, ")[#");
            push_str(&mut out, shape.as_str());
            push_str(&mut out, "]\n\n");
            assert(assets_view(assets@) =~= assets_view(old(assets)@) + Seq::<(Seq<char>, Seq<u8>)>::empty());
            Ok(out)
        },
        None => {
            let mut out = string_from("#");
            push_str(&mut out, shape.as_str());
            push_str(&mut out, "\n\n");
            assert(assets_view(assets@) =~= assets_view(old(assets)@) + Seq::<(Seq<char>, Seq<u8>)>::empty());
            Ok(out)
        },
    }
}

} // verus!
