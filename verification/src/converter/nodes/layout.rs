//! Placed content and columns.
use vstd::prelude::*;
use crate::converter::context::{opt_is, safe_token, safe_typst_token};
use crate::converter::nodes::text::{join_comma, join_strings};
use crate::text::{push_str, string_from};

verus! {

broadcast use vstd::string::group_string_axioms;

/// Where placed content is anchored on the page; top left by default.
pub open spec fn anchor_spec(anchor: Option<String>) -> Seq<char> {
    if opt_is(anchor, "top-right"@) {
        "top + right"@
    } else if opt_is(anchor, "top-center"@) {
        "top + center"@
    } else if opt_is(anchor, "bottom-left"@) {
        "bottom + left"@
    } else if opt_is(anchor, "bottom-right"@) {
        "bottom + right"@
    } else if opt_is(anchor, "bottom-center"@) {
        "bottom + center"@
    } else if opt_is(anchor, "center"@) {
        "center"@
    } else {
        "top + left"@
    }
}

pub fn anchor_expr(anchor: &Option<String>) -> (r: &'static str)
    ensures
        r@ == anchor_spec(*anchor),
{
    proof {
        reveal_strlit("top-right");
        reveal_strlit("top-center");
        reveal_strlit("bottom-left");
        reveal_strlit("bottom-right");
        reveal_strlit("bottom-center");
        reveal_strlit("center");
    }
    if crate::text::opt_str_is(anchor, "top-right") {
        "top + right"
    } else if crate::text::opt_str_is(anchor, "top-center") {
        "top + center"
    } else if crate::text::opt_str_is(anchor, "bottom-left") {
        "bottom + left"
    } else if crate::text::opt_str_is(anchor, "bottom-right") {
        "bottom + right"
    } else if crate::text::opt_str_is(anchor, "bottom-center") {
        "bottom + center"
    } else if crate::text::opt_str_is(anchor, "center") {
        "center"
    } else {
        "top + left"
    }
}

pub open spec fn offset_arg(name: Seq<char>, v: Option<String>) -> Seq<Seq<char>> {
    match v {
        Some(x) => seq![name + ": "@ + safe_token(x@, "0pt"@)],
        None => Seq::empty(),
    }
}

pub open spec fn join_with(parts: Seq<Seq<char>>, sep: Seq<char>) -> Seq<char>
    decreases parts.len(),
{
    if parts.len() == 0 {
        Seq::empty()
    } else if parts.len() == 1 {
        parts[0]
    } else {
        join_with(parts.drop_last(), sep) + sep + parts.last()
    }
}

/// `#place` around already rendered content: the anchor, then `dx` and
/// `dy` when given.
pub open spec fn placed_text(
    anchor: Option<String>,
    dx: Option<String>,
    dy: Option<String>,
    inner: Seq<char>,
) -> Seq<char> {
    let args = seq![anchor_spec(anchor)] + offset_arg("dx"@, dx) + offset_arg("dy"@, dy);
    "#place(\n  "@ + join_with(args, ",\n  "@) + ",\n)[\n"@ + inner + "\n]\n\n"@
}

pub fn placed_markup(
    anchor: &Option<String>,
    dx: &Option<String>,
    dy: &Option<String>,
    inner: &str,
) -> (r: String)
    ensures
        r@ == placed_text(*anchor, *dx, *dy, inner@),
{
    proof {
        reveal_strlit("dx");
        reveal_strlit("dy");
        reveal_strlit("dx: ");
        reveal_strlit("dy: ");
        reveal_strlit(": ");
    }
    let mut args_text = string_from(anchor_expr(anchor));
    let ghost a0 = seq![anchor_spec(*anchor)];
    assert(args_text@ == join_with(a0, ",\n  "@));
    let ghost a1 = a0 + offset_arg("dx"@, *dx);
    match dx {
        Some(x) => {
            push_str(&mut args_text, ",\n  ");
            push_str(&mut args_text, "dx: ");
            push_str(&mut args_text, safe_typst_token(x.as_str(), "0pt").as_str());
            assert(a1.drop_last() =~= a0);
        },
        None => {
            assert(a1 =~= a0);
        },
    }
    assert(args_text@ =~= join_with(a1, ",\n  "@));
    let ghost a2 = a1 + offset_arg("dy"@, *dy);
    match dy {
        Some(x) => {
            push_str(&mut args_text, ",\n  ");
            push_str(&mut args_text, "dy: ");
            push_str(&mut args_text, safe_typst_token(x.as_str(), "0pt").as_str());
            assert(a2.drop_last() =~= a1);
        },
        None => {
            assert(a2 =~= a1);
        },
    }
    assert(args_text@ =~= join_with(a2, ",\n  "@));
    let mut out = string_from("#place(\n  ");
    push_str(&mut out, args_text.as_str());
    push_str(&mut out, ",\n)[\n");
    push_str(&mut out, inner);
    push_str(&mut out, "\n]\n\n");
    out
}

/// Column widths: the given ones, each checked, or `1fr` for each column.
pub open spec fn grid_columns(widths: Option<Vec<String>>, count: nat) -> Seq<char> {
    match widths {
        Some(w) => join_comma(Seq::new(w@.len(), |i: int| safe_token(w@[i]@, "1fr"@))),
        None => join_comma(Seq::new(count, |i: int| "1fr"@)),
    }
}

pub open spec fn grid_head(widths: Option<Vec<String>>, count: nat, gutter: Option<String>) -> Seq<
    char,
> {
    let g = safe_token(
        match gutter {
            Some(x) => x@,
            None => "1em"@,
        },
        "1em"@,
    );
    "#grid(\n  columns: ("@ + grid_columns(widths, count) + "),\n  gutter: "@ + g + ",\n"@
}

pub fn grid_header(widths: &Option<Vec<String>>, count: usize, gutter: &Option<String>) -> (r:
    String)
    ensures
        r@ == grid_head(*widths, count as nat, *gutter),
{
    let mut parts: Vec<String> = Vec::new();
    match widths {
        Some(w) => {
            for i in 0..w.len()
                invariant
                    crate::text::strings_view(parts@) == Seq::new(
                        i as nat,
                        |k: int| safe_token(w@[k]@, "1fr"@),
                    ),
            {
                let x = safe_typst_token(w[i].as_str(), "1fr");
                let ghost before = parts@;
                let ghost g = x;
                parts.push(x);
                proof {
                    crate::text::lemma_strings_view_push(before, g);
                }
                assert(crate::text::strings_view(parts@) =~= Seq::new(
                    (i + 1) as nat,
                    |k: int| safe_token(w@[k]@, "1fr"@),
                ));
            }
        },
        None => {
            for i in 0..count
                invariant
                    crate::text::strings_view(parts@) == Seq::new(i as nat, |k: int| "1fr"@),
            {
                let x = string_from("1fr");
                let ghost before = parts@;
                let ghost g = x;
                parts.push(x);
                proof {
                    crate::text::lemma_strings_view_push(before, g);
                }
                assert(crate::text::strings_view(parts@) =~= Seq::new((i + 1) as nat, |k: int| "1fr"@));
            }
        },
    }
    let defs = join_strings(&parts);
    let g = match gutter {
        Some(x) => safe_typst_token(x.as_str(), "1em"),
        None => safe_typst_token("1em", "1em"),
    };
    let mut out = string_from("#grid(\n  columns: (");
    push_str(&mut out, defs.as_str());
    push_str(&mut out, "),\n  gutter: ");
    push_str(&mut out, g.as_str());
    push_str(&mut out, ",\n");
    out
}

} // verus!
