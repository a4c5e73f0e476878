//! The PDF engine's own steps around the layout: its cache key, and
//! everything a document adds to a (possibly cached) layout before Typst
//! compiles it.
pub mod security;

use vstd::prelude::*;
use sha2::Digest;
use crate::converter::builder::Layout;
use crate::converter::nodes::qr::{assets_view, resolve_all, resolve_all_spec};
use crate::converter::nodes::table::cell::FormulaOutcome;
use crate::converter::nodes::table::{
    deferred_spec, pairs_view, resolve_deferred, table_requests_view,
};
use crate::domain::{DocumentRequest, Node};
use crate::engines::graphics::shape::{paint_attrs, render_shape_svg, shape_svg_spec};
use crate::json::{json_text, to_json_string};
use crate::text::{
    chars_of, find, find_at, fold_lower_seq, folded_eq, lemma_find_from_bounds, push_decimal,
    push_str, string_from,
};

verus! {

broadcast use vstd::string::group_string_axioms;

pub struct TypstEngine;

/// The SHA-256 digest of some bytes.
pub uninterp spec fn sha256_digest(data: Seq<u8>) -> Seq<u8>;

/// Calls `sha2::Sha256::digest`. Claimed: 32 bytes that depend on the
/// input alone, named [`sha256_digest`].
#[verifier::external_body]
pub(crate) fn sha256(data: &[u8]) -> (r: [u8; 32])
    ensures
        r@ == sha256_digest(data@),
{
    sha2::Sha256::digest(data).into()
}

pub open spec fn hex_text(b: Seq<u8>) -> Seq<char>
    decreases b.len(),
{
    if b.len() == 0 {
        Seq::empty()
    } else {
        hex_text(b.drop_last()) + crate::converter::context::hex2(b.last())
    }
}

/// Bytes as lowercase hexadecimal, two digits each.
pub fn hex_digest(bytes: &[u8]) -> (r: String)
    ensures
        r@ == hex_text(bytes@),
{
    let mut out = String::new();
    for i in 0..bytes.len()
        invariant
            out@ == hex_text(bytes@.take(i as int)),
    {
        let b = bytes[i];
        crate::text::push_char(&mut out, hex_digit(b / 16));
        crate::text::push_char(&mut out, hex_digit(b % 16));
        assert(bytes@.take(i + 1).drop_last() =~= bytes@.take(i as int));
        assert(out@ =~= hex_text(bytes@.take(i + 1)));
    }
    assert(bytes@.take(bytes@.len() as int) =~= bytes@);
    out
}

/// The cache key of a layout: the lowercase hex SHA-256 of the JSON text
/// of the content and page settings.
pub fn layout_hash(layout_json: &str) -> (r: String)
    ensures
        r@ == hex_text(sha256_digest(vstd::utf8::encode_utf8(layout_json@))),
{
    let digest = sha256(layout_json.as_bytes());
    hex_digest(&digest)
}

fn hex_digit(d: u8) -> (c: char)
    requires
        d < 16,
    ensures
        c == crate::converter::context::hex_char(d as nat),
{
    if d < 10 {
        (48u8 + d) as char
    } else {
        (87u8 + d) as char
    }
}

/// `str::replacen(p, r, 1)`: the first occurrence of `p` replaced.
pub open spec fn replace_first(s: Seq<char>, p: Seq<char>, r: Seq<char>) -> Seq<char> {
    match find(s, p) {
        Some(k) => s.take(k) + r + s.skip(k + p.len()),
        None => s,
    }
}

pub fn replace_first_text(s: &str, p: &str, r: &str) -> (out: String)
    ensures
        out@ == replace_first(s@, p@, r@),
{
    let cs = chars_of(s);
    let pc = chars_of(p);
    proof {
        lemma_find_from_bounds(cs@, pc@, 0);
    }
    match find_at(cs.as_slice(), pc.as_slice(), 0) {
        Some(k) => {
            let n = cs.len();
            assert(k + pc@.len() <= n);
            let mut out = String::new();
            crate::text::push_range(&mut out, cs.as_slice(), 0, k);
            push_str(&mut out, r);
            crate::text::push_range(&mut out, cs.as_slice(), k + pc.len(), cs.len());
            assert(out@ =~= replace_first(s@, p@, r@));
            out
        },
        None => string_from(s),
    }
}

/// Each token replaced in turn by its markup.
pub open spec fn splice_all(markup: Seq<char>, parts: Seq<(Seq<char>, Seq<char>)>) -> Seq<char>
    decreases parts.len(),
{
    if parts.len() == 0 {
        markup
    } else {
        replace_first(splice_all(markup, parts.drop_last()), parts.last().0, parts.last().1)
    }
}

/// The error of the first top-level `path` shape (matched
/// case-insensitively): such a shape is drawn as SVG, which needs path
/// data that the content model does not carry.
pub open spec fn path_shapes_error(nodes: Seq<Node>) -> Option<Seq<char>>
    decreases nodes.len(),
{
    if nodes.len() == 0 {
        None
    } else {
        match nodes[0] {
            Node::Shape { kind, width, height, fill, rotate } => if fold_lower_seq(kind@) == "path"@ {
                match shape_svg_spec(
                    kind@,
                    None,
                    width@,
                    height@,
                    paint_attrs(fill, None, None, rotate),
                ) {
                    Err(e) => Some(e),
                    Ok(_) => path_shapes_error(nodes.drop_first()),
                }
            } else {
                path_shapes_error(nodes.drop_first())
            },
            _ => path_shapes_error(nodes.drop_first()),
        }
    }
}

/// What Typst compiles for a document: the markup (the data read from
/// `data.json`, then the layout with its table tokens filled in) and the
/// assets (the layout's, the document's QR codes, and `data.json`, the
/// data's JSON text). The asset names are distinct by how they are made:
/// the layout's as [`Layout`] says, the QR codes' as `__qr_<n>.svg` by
/// their number, and `data.json` once.
pub struct PreparedDocument {
    pub markup: String,
    pub assets: Vec<(String, Vec<u8>)>,
}

pub open spec fn data_prefix() -> Seq<char> {
    "#let data = json(\"data.json\")\n"@
}

pub open spec fn prepared_spec(
    layout_markup: Seq<char>,
    layout_assets: Seq<(Seq<char>, Seq<u8>)>,
    qr: Result<Seq<(Seq<char>, Seq<u8>)>, Seq<char>>,
    tables: Seq<(Seq<char>, Seq<char>)>,
    content: Seq<Node>,
    data_text: Seq<char>,
) -> Result<(Seq<char>, Seq<(Seq<char>, Seq<u8>)>), Seq<char>> {
    match qr {
        Err(e) => Err(e),
        Ok(qr_assets) => match path_shapes_error(content) {
            Some(e) => Err(e),
            None => Ok(
                (
                    data_prefix() + splice_all(layout_markup, tables),
                    layout_assets + qr_assets + seq![
                        ("data.json"@, vstd::utf8::encode_utf8(data_text)),
                    ],
                ),
            ),
        },
    }
}

fn copy_bytes(v: &Vec<u8>) -> (r: Vec<u8>)
    ensures
        r@ == v@,
{
    let mut r: Vec<u8> = Vec::new();
    for i in 0..v.len()
        invariant
            r@ == v@.take(i as int),
    {
        r.push(v[i]);
        assert(r@ =~= v@.take(i + 1));
    }
    assert(v@.take(v@.len() as int) =~= v@);
    r
}

fn check_path_shapes(nodes: &Vec<Node>) -> (r: Result<(), String>)
    ensures
        match r {
            Ok(()) => path_shapes_error(nodes@) is None,
            Err(e) => path_shapes_error(nodes@) == Some(e@),
        },
{
    proof {
        reveal_strlit("path");
    }
    assert(nodes@.skip(0) =~= nodes@);
    for i in 0..nodes.len()
        invariant
            path_shapes_error(nodes@) == path_shapes_error(nodes@.skip(i as int)),
    {
        assert(nodes@.skip(i as int).drop_first() =~= nodes@.skip(i + 1));
        assert(nodes@.skip(i as int)[0] == nodes@[i as int]);
        match &nodes[i] {
            Node::Shape { kind, width, height, fill, rotate } => {
                if folded_eq(kind.as_str(), "path") {
                    let svg = render_shape_svg(
                        kind.as_str(),
                        &None,
                        width.as_str(),
                        height.as_str(),
                        fill,
                        &None,
                        &None,
                        rotate,
                    );
                    match svg {
                        Err(e) => return Err(e),
                        Ok(_) => {},
                    }
                }
            },
            _ => {},
        }
    }
    Ok(())
}

impl TypstEngine {
    /// Adds a document's own parts to a layout: its QR codes and table
    /// fragments, resolved from its data (`outcomes` being its formulas'
    /// results, see `formula_jobs`), and its data as `data.json`.
    pub fn prepare(
        &self,
        layout: &Layout,
        request: &DocumentRequest,
        outcomes: &Vec<Vec<Vec<Option<FormulaOutcome>>>>,
    ) -> (r: Result<PreparedDocument, String>)
        ensures
            match r {
                Ok(p) => prepared_spec(
                    layout.markup@,
                    assets_view(layout.assets@),
                    resolve_all_spec(layout.qr_requests@, request.data),
                    deferred_spec(
                        table_requests_view(layout.table_requests@),
                        request.data,
                        outcomes@,
                    ),
                    request.content@,
                    json_text(request.data),
                ) == Ok::<(Seq<char>, Seq<(Seq<char>, Seq<u8>)>), Seq<char>>(
                    (p.markup@, assets_view(p.assets@)),
                ),
                Err(e) => prepared_spec(
                    layout.markup@,
                    assets_view(layout.assets@),
                    resolve_all_spec(layout.qr_requests@, request.data),
                    deferred_spec(
                        table_requests_view(layout.table_requests@),
                        request.data,
                        outcomes@,
                    ),
                    request.content@,
                    json_text(request.data),
                ) == Err::<(Seq<char>, Seq<(Seq<char>, Seq<u8>)>), Seq<char>>(e@),
            },
    {
        let qr = resolve_all(layout.qr_requests.as_slice(), &request.data)?;
        let mut assets: Vec<(String, Vec<u8>)> = Vec::new();
        for i in 0..layout.assets.len()
            invariant
                assets_view(assets@) == assets_view(layout.assets@).take(i as int),
        {
            let ghost before = assets@;
            let name = layout.assets[i].0.clone();
            let bytes = copy_bytes(&layout.assets[i].1);
            let ghost entry = (name@, bytes@);
            assert(entry == assets_view(layout.assets@)[i as int]);
            assets.push((name, bytes));
            assert(assets_view(assets@) =~= assets_view(before).push(entry));
            assert(assets_view(assets@) =~= assets_view(layout.assets@).take(i + 1));
        }
        assert(assets_view(layout.assets@).take(layout.assets@.len() as int) =~= assets_view(
            layout.assets@,
        ));
        let ghost base = assets_view(assets@);
        let mut qr = qr;
        let ghost qv = assets_view(qr@);
        let mut j: usize = 0;
        let n = qr.len();
        for k in 0..n
            invariant
                n == qr@.len(),
                qv == assets_view(qr@),
                assets_view(assets@) == base + qv.take(k as int),
        {
            let ghost before = assets@;
            let name = qr[k].0.clone();
            let bytes = copy_bytes(&qr[k].1);
            let ghost entry = (name@, bytes@);
            assert(entry == qv[k as int]);
            assets.push((name, bytes));
            assert(assets_view(assets@) =~= assets_view(before).push(entry));
            assert(assets_view(assets@) =~= base + qv.take(k + 1));
        }
        assert(qv.take(n as int) =~= qv);
        let parts = resolve_deferred(
            layout.table_requests.as_slice(),
            &request.data,
            outcomes,
        );
        let ghost pv = pairs_view(parts@);
        let mut markup = layout.markup.clone();
        for k in 0..parts.len()
            invariant
                pv == pairs_view(parts@),
                markup@ == splice_all(layout.markup@, pv.take(k as int)),
        {
            markup = replace_first_text(markup.as_str(), parts[k].0.as_str(), parts[k].1.as_str());
            assert(pv.take(k + 1).drop_last() =~= pv.take(k as int));
        }
        assert(pv.take(parts@.len() as int) =~= pv);
        check_path_shapes(&request.content)?;
        let data_json = to_json_string(&request.data);
        let ghost before = assets_view(assets@);
        let data_bytes = data_json.as_str().as_bytes_vec();
        assets.push((string_from("data.json"), data_bytes));
        assert(assets_view(assets@) =~= before + seq![("data.json"@, data_bytes@)]);
        let mut full = string_from("#let data = json(\"data.json\")\n");
        push_str(&mut full, markup.as_str());
        Ok(PreparedDocument { markup: full, assets })
    }
}

/// What a PDF request gets back: the compiled bytes, encrypted when the
/// request asks for it (see [`security::apply_security`]), as
/// `application/pdf` named after the sanitised template id.
pub fn finish_pdf(raw_pdf: Vec<u8>, request: &DocumentRequest) -> (r: Result<
    crate::engines::RenderOutput,
    String,
>)
    ensures
        request.security is None ==> r is Ok,
        r matches Ok(o) ==> o.mime_type@ == "application/pdf"@ && o.suggested_filename@
            == crate::engines::html::converter::sanitized(request.template_id@) + ".pdf"@ && (
        request.security is None ==> o.bytes@ == raw_pdf@) && (request.security matches Some(c)
            ==> security::plan_spec(c) is Ok),
        r matches Err(m) ==> request.security matches Some(c) && (security::plan_spec(c) matches Err(
            e,
        ) ==> m@ == e) && (security::plan_spec(c) is Ok ==> security::pdf_library_error(m@)),
{
    let bytes = match &request.security {
        Some(config) => security::apply_security(raw_pdf, config)?,
        None => raw_pdf,
    };
    let mut name = crate::engines::html::converter::sanitize_filename(request.template_id.as_str());
    push_str(&mut name, ".pdf");
    Ok(crate::engines::RenderOutput { bytes, mime_type: string_from("application/pdf"), suggested_filename: name })
}

} // verus!
