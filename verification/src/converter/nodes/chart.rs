//! Charts: the SVG is drawn elsewhere; here it becomes an asset and the
//! markup that shows it.
use vstd::prelude::*;
use crate::converter::context::{align_raw_spec, safe_token, safe_typst_token, wrap_alignment_raw};
use crate::converter::nodes::media::{asset_path, asset_result_matches};
use crate::converter::nodes::qr::assets_view;
use crate::text::{push_decimal, push_str, string_from};

verus! {

broadcast use vstd::string::group_string_axioms;

/// A chart whose SVG came out as `svg`: stored as `__chart_<n>.svg` and
/// shown at the given size (10cm by 6cm by default).
pub open spec fn chart_spec(
    svg: Result<Seq<u8>, Seq<char>>,
    width: Option<String>,
    height: Option<String>,
    alignment: Option<String>,
    n: nat,
) -> Result<(Seq<char>, Seq<(Seq<char>, Seq<u8>)>), Seq<char>> {
    match svg {
        Err(e) => Err(e),
        Ok(b) => {
            let path = asset_path("__chart_"@, n, "svg"@);
            let w = safe_token(
                match width {
                    Some(x) => x@,
                    None => "10cm"@,
                },
                "10cm"@,
            );
            let h = safe_token(
                match height {
                    Some(x) => x@,
                    None => "6cm"@,
                },
                "6cm"@,
            );
            Ok(
                (
                    align_raw_spec(
                        "#image(\""@ + path + "\", width: "@ + w + ", height: "@ + h + ")"@,
                        alignment,
                    ) + "\n\n"@,
                    seq![(path, b)],
                ),
            )
        },
    }
}

pub fn render_chart(
    svg: Result<Vec<u8>, String>,
    width: &Option<String>,
    height: &Option<String>,
    alignment: &Option<String>,
    assets: &mut Vec<(String, Vec<u8>)>,
) -> (r: Result<String, String>)
    ensures
        asset_result_matches(
            chart_spec(
                crate::assets::resolver::result_view(svg),
                *width,
                *height,
                *alignment,
                old(assets)@.len(),
            ),
            r,
            old(assets)@,
            final(assets)@,
        ),
{
    let bytes = svg?;
    let mut path = string_from("__chart_");
    push_decimal(&mut path, assets.len());
    push_str(&mut path, ".svg");
    proof {
        reveal_strlit("svg");
        reveal_strlit(".svg");
        reveal_strlit(".");
    }
    assert(path@ =~= asset_path("__chart_"@, old(assets)@.len(), "svg"@));
    let ghost before = assets@;
    let ghost bv = bytes@;
    assets.push((path.clone(), bytes));
    assert(assets_view(assets@) =~= assets_view(before) + seq![(path@, bv)]);
    let w = match width {
        Some(x) => safe_typst_token(x.as_str(), "10cm"),
        None => safe_typst_token("10cm", "10cm"),
    };
    let h = match height {
        Some(x) => safe_typst_token(x.as_str(), "6cm"),
        None => safe_typst_token("6cm", "6cm"),
    };
    let mut expr = string_from("#image(\"");
    push_str(&mut expr, path.as_str());
    push_str(&mut expr, "\", width: ");
    push_str(&mut expr, w.as_str());
    push_str(&mut expr, ", height: ");
    push_str(&mut expr, h.as_str());
    push_str(&mut expr, ")");
    let mut out = wrap_alignment_raw(expr.as_str(), alignment);
    push_str(&mut out, "\n\n");
    Ok(out)
}

} // verus!
