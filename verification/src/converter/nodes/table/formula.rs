//! Formula cells: translation into Typst, and telling aggregations apart.
use vstd::prelude::*;
use crate::converter::calculations::{transpile, transpile_to_typst, TranspileContext};
use crate::text::{chars_of, find, find_at, lemma_find_from_bounds, push_str, string_from};

verus! {

broadcast use vstd::string::group_string_axioms;

pub open spec fn translate_spec(expr: Seq<char>, is_loop: bool, path: Seq<char>) -> Seq<char> {
    match transpile(expr, is_loop, path) {
        Ok(s) => s,
        Err(e) => "/* Formula Error: "@ + e + " */"@,
    }
}

/// A formula as Typst code; an error becomes a Typst comment that names
/// it.
pub fn translate_to_typst(expr: &str, ctx: &TranspileContext) -> (r: String)
    ensures
        r@ == translate_spec(expr@, ctx.is_loop, ctx.loop_path@),
{
    match transpile_to_typst(expr, ctx) {
        Ok(s) => s,
        Err(e) => {
            let mut out = string_from("/* Formula Error: ");
            push_str(&mut out, e.as_str());
            push_str(&mut out, " */");
            out
        },
    }
}

/// `str::to_uppercase` of a text: its Unicode uppercase mapping.
pub uninterp spec fn unicode_upper(s: Seq<char>) -> Seq<char>;

/// Calls `str::to_uppercase`. Claimed: the result depends on the text
/// alone, named [`unicode_upper`].
#[verifier::external_body]
fn to_uppercase(s: &str) -> (r: String)
    ensures
        r@ == unicode_upper(s@),
{
    s.to_uppercase()
}

pub open spec fn contains(s: Seq<char>, p: Seq<char>) -> bool {
    find(s, p) is Some
}

pub open spec fn mentions_aggregation_spec(upper: Seq<char>) -> bool {
    contains(upper, "SUM("@) || contains(upper, "AVG("@) || contains(upper, "MIN("@) || contains(upper, "MAX("@) || contains(upper, "COUNT("@) || contains(upper, "IF("@)
}

fn has(s: &Vec<char>, p: &str) -> (r: bool)
    ensures
        r == contains(s@, p@),
{
    let pc = chars_of(p);
    match find_at(s.as_slice(), pc.as_slice(), 0) {
        Some(_) => true,
        None => false,
    }
}

/// Whether uppercased text calls one of the aggregations or `IF`.
pub fn mentions_aggregation(upper: &str) -> (r: bool)
    ensures
        r == mentions_aggregation_spec(upper@),
{
    let u = chars_of(upper);
    has(&u, "SUM(") || has(&u, "AVG(") || has(&u, "MIN(") || has(&u, "MAX(") || has(&u, "COUNT(")
        || has(&u, "IF(")
}

/// Whether a formula calls `SUM`, `AVG`, `MIN`, `MAX`, `COUNT` or `IF`,
/// in any case.
pub fn is_aggregation(expr: &str) -> (r: bool)
    ensures
        r == mentions_aggregation_spec(unicode_upper(expr@)),
{
    let upper = to_uppercase(expr);
    mentions_aggregation(upper.as_str())
}

} // verus!
