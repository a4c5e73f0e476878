//! QR codes. A QR code's pattern is the data it encodes, so a layout only
//! reserves an asset path for it and records a request; the code is drawn
//! for every document from that document's own data.
use vstd::prelude::*;
use crate::converter::context::{align_raw_spec, safe_token, safe_typst_token, wrap_alignment_raw};
use crate::domain::{duplicate_inlines, InlineContent};
use crate::json::{value_at, value_at_path, Json};
use crate::text::{copy_opt_string, decimal, push_decimal, push_str, string_from};

verus! {

broadcast use vstd::string::group_string_axioms;

/// The longest QR payload accepted, in bytes.
pub const MAX_QR_PAYLOAD_BYTES: usize = 2000;

/// A QR code to draw: where its SVG goes and what it encodes.
pub struct QrRequest {
    pub asset_path: String,
    pub content: Vec<InlineContent>,
    pub fill: Option<String>,
    pub background: Option<String>,
    pub error_correction: Option<String>,
}

/// What a request holds, as plain values.
pub open spec fn qr_request_view(q: QrRequest) -> (
    Seq<char>,
    Seq<InlineContent>,
    Option<String>,
    Option<String>,
    Option<String>,
) {
    (q.asset_path@, q.content@, q.fill, q.background, q.error_correction)
}

pub open spec fn qr_requests_view(qs: Seq<QrRequest>) -> Seq<
    (Seq<char>, Seq<InlineContent>, Option<String>, Option<String>, Option<String>),
> {
    Seq::new(qs.len(), |i: int| qr_request_view(qs[i]))
}

pub open spec fn qr_asset_path(n: nat) -> Seq<char> {
    "__qr_"@ + decimal(n) + ".svg"@
}

pub open spec fn qr_markup(path: Seq<char>, size: Option<String>, alignment: Option<String>) -> Seq<
    char,
> {
    let sz = match size {
        Some(s) => safe_token(s@, "3cm"@),
        None => "3cm"@,
    };
    align_raw_spec("#image(\""@ + path + "\", format: \"svg\", width: "@ + sz + ")"@, alignment)
        + "\n\n"@
}

/// Reserves `__qr_<n>.svg`, `n` being the number of requests so far, records
/// the request, and returns the image markup.
pub fn render_qr_placeholder(
    content: &[InlineContent],
    size: &Option<String>,
    fill: &Option<String>,
    background: &Option<String>,
    error_correction: &Option<String>,
    alignment: &Option<String>,
    qr_requests: &mut Vec<QrRequest>,
) -> (r: String)
    ensures
        qr_requests_view(final(qr_requests)@) == qr_requests_view(old(qr_requests)@).push(
            (
                qr_asset_path(old(qr_requests)@.len()),
                content@,
                *fill,
                *background,
                *error_correction,
            ),
        ),
        r@ == qr_markup(qr_asset_path(old(qr_requests)@.len()), *size, *alignment),
{
    let n = qr_requests.len();
    let mut asset_path = string_from("__qr_");
    push_decimal(&mut asset_path, n);
    push_str(&mut asset_path, ".svg");
    let req = QrRequest {
        asset_path: asset_path.clone(),
        content: duplicate_inlines(content),
        fill: copy_opt_string(fill),
        background: copy_opt_string(background),
        error_correction: copy_opt_string(error_correction),
    };
    let ghost before = qr_requests@;
    qr_requests.push(req);
    assert(qr_requests_view(qr_requests@) =~= qr_requests_view(before).push(
        (qr_asset_path(n as nat), content@, *fill, *background, *error_correction),
    ));
    let sz = match size {
        Some(s) => safe_typst_token(s.as_str(), "3cm"),
        None => string_from("3cm"),
    };
    let mut expr = string_from("#image(\"");
    push_str(&mut expr, asset_path.as_str());
    push_str(&mut expr, "\", format: \"svg\", width: ");
    push_str(&mut expr, sz.as_str());
    push_str(&mut expr, ")");
    let mut out = wrap_alignment_raw(expr.as_str(), alignment);
    push_str(&mut out, "\n\n");
    out
}

/// A data value as plain text: no escaping, since the text is what the
/// QR code encodes.
pub open spec fn plain_value_spec(v: Json) -> Seq<char> {
    match v {
        Json::Str(s) => s@,
        Json::Number(n) => n@,
        Json::Bool(b) => if b {
            "true"@
        } else {
            "false"@
        },
        _ => Seq::empty(),
    }
}

pub open spec fn plain_item(item: InlineContent, data: Json) -> Seq<char> {
    match item {
        InlineContent::Text(t) => t.text@,
        InlineContent::Variable(v) => match value_at(data, v.key@) {
            Some(x) => plain_value_spec(x),
            None => Seq::empty(),
        },
        InlineContent::PageNumber(_) => Seq::empty(),
    }
}

pub open spec fn plain_text(items: Seq<InlineContent>, data: Json) -> Seq<char>
    decreases items.len(),
{
    if items.len() == 0 {
        Seq::empty()
    } else {
        plain_text(items.drop_last(), data) + plain_item(items.last(), data)
    }
}

fn plain_value(val: &Json) -> (r: String)
    ensures
        r@ == plain_value_spec(*val),
{
    match val {
        Json::Str(s) => s.clone(),
        Json::Number(n) => n.clone(),
        Json::Bool(b) => string_from(crate::converter::context::bool_text(*b)),
        _ => String::new(),
    }
}

/// Inline content as the plain text a QR code encodes: text as it is,
/// variables' values, missing variables and page numbers as nothing.
pub fn resolve_plain(items: &[InlineContent], data: &Json) -> (r: String)
    ensures
        r@ == plain_text(items@, *data),
{
    let mut out = String::new();
    for i in 0..items.len()
        invariant
            out@ == plain_text(items@.take(i as int), *data),
    {
        match &items[i] {
            InlineContent::Text(t) => push_str(&mut out, t.text.as_str()),
            InlineContent::Variable(v) => {
                match value_at_path(data, v.key.as_str()) {
                    Some(x) => {
                        let s = plain_value(x);
                        push_str(&mut out, s.as_str());
                    },
                    None => {},
                }
            },
            InlineContent::PageNumber(_) => {},
        }
        assert(items@.take(i + 1).drop_last() =~= items@.take(i as int));
        assert(out@ =~= plain_text(items@.take(i + 1), *data));
    }
    assert(items@.take(items@.len() as int) =~= items@);
    out
}

pub open spec fn safe_color_spec(c: Seq<char>) -> bool {
    0 < vstd::utf8::encode_utf8(c).len() <= 32 && forall|i: int|
        0 <= i < c.len() ==> crate::text::is_ascii_alnum(#[trigger] c[i]) || c[i] == '#'
}

/// A colour for the SVG: 1 to 32 bytes of ASCII letters, digits and `#`.
pub fn is_safe_color(c: &str) -> (r: bool)
    ensures
        r == safe_color_spec(c@),
{
    let cs = chars_of_str(c);
    for i in 0..cs.len()
        invariant
            cs@ == c@,
            forall|j: int| 0 <= j < i ==> crate::text::is_ascii_alnum(#[trigger] cs@[j]) || cs@[j]
                == '#',
    {
        if !(crate::text::ascii_alnum(cs[i]) || cs[i] == '#') {
            return false;
        }
    }
    proof {
        assert(vstd::utf8::is_ascii_chars(c@));
        vstd::utf8::is_ascii_chars_encode_utf8(c@);
    }
    cs.len() > 0 && cs.len() <= 32
}

fn chars_of_str(s: &str) -> (v: Vec<char>)
    ensures
        v@ == s@,
{
    crate::text::chars_of(s)
}

/// The error-correction level of a QR code.
pub enum QrEcLevel {
    Low,
    Medium,
    Quartile,
    High,
}

pub open spec fn ec_code(level: QrEcLevel) -> nat {
    match level {
        QrEcLevel::Low => 0,
        QrEcLevel::Medium => 1,
        QrEcLevel::Quartile => 2,
        QrEcLevel::High => 3,
    }
}

/// `low`, `quartile` and `high` choose those levels; anything else is
/// medium.
pub open spec fn ec_level_spec(ec: Option<String>) -> QrEcLevel {
    if crate::converter::context::opt_is(ec, "low"@) {
        QrEcLevel::Low
    } else if crate::converter::context::opt_is(ec, "quartile"@) {
        QrEcLevel::Quartile
    } else if crate::converter::context::opt_is(ec, "high"@) {
        QrEcLevel::High
    } else {
        QrEcLevel::Medium
    }
}

/// What the `qrcode` crate draws for a payload at a level with the given
/// dark and light colours: the SVG text, or the encoder's error as its
/// debug text.
pub uninterp spec fn qr_svg_result(data: Seq<u8>, level: nat, dark: Seq<char>, light: Seq<char>) -> Result<
    Seq<char>,
    Seq<char>,
>;

/// Calls `qrcode::QrCode::with_error_correction_level` on the payload and,
/// when that succeeds, renders the code with `render::<svg::Color>()`, the
/// given dark and light colours, and `build()`. Claimed: the outcome is a
/// function of these arguments alone, named [`qr_svg_result`].
#[verifier::external_body]
fn qr_svg(data: &[u8], level: QrEcLevel, dark: &str, light: &str) -> (r: Result<String, String>)
    ensures
        match r {
            Ok(s) => qr_svg_result(data@, ec_code(level), dark@, light@) == Ok::<
                Seq<char>,
                Seq<char>,
            >(s@),
            Err(e) => qr_svg_result(data@, ec_code(level), dark@, light@) == Err::<
                Seq<char>,
                Seq<char>,
            >(e@),
        },
{
    let ec = match level {
        QrEcLevel::Low => qrcode::EcLevel::L,
        QrEcLevel::Medium => qrcode::EcLevel::M,
        QrEcLevel::Quartile => qrcode::EcLevel::Q,
        QrEcLevel::High => qrcode::EcLevel::H,
    };
    match qrcode::QrCode::with_error_correction_level(data, ec) {
        Ok(code) => Ok(
            code.render().dark_color(qrcode::render::svg::Color(dark)).light_color(
                qrcode::render::svg::Color(light),
            ).build(),
        ),
        Err(e) => Err(format!("{:?}", e)),
    }
}

pub open spec fn color_or(c: Option<String>, d: Seq<char>) -> Seq<char> {
    match c {
        Some(s) => if safe_color_spec(s@) {
            s@
        } else {
            d
        },
        None => d,
    }
}

/// The SVG text of a QR code for `text`, or why there is none: empty
/// text, text over the byte limit, or the encoder's error.
pub open spec fn qr_svg_text_spec(
    text: Seq<char>,
    fill: Option<String>,
    background: Option<String>,
    ec: Option<String>,
) -> Result<Seq<char>, Seq<char>> {
    let bytes = vstd::utf8::encode_utf8(text);
    if text.len() == 0 {
        Err("QR code content resolved to an empty string"@)
    } else if bytes.len() > MAX_QR_PAYLOAD_BYTES {
        Err("QR code content exceeds the maximum of 2000 bytes"@)
    } else {
        match qr_svg_result(
            bytes,
            ec_code(ec_level_spec(ec)),
            color_or(fill, "#000000"@),
            color_or(background, "#ffffff"@),
        ) {
            Ok(s) => Ok(s),
            Err(e) => Err("QR encoding failed: "@ + e),
        }
    }
}

/// [`qr_svg_text_spec`] as UTF-8 bytes.
pub open spec fn qr_svg_spec(
    text: Seq<char>,
    fill: Option<String>,
    background: Option<String>,
    ec: Option<String>,
) -> Result<Seq<u8>, Seq<char>> {
    match qr_svg_text_spec(text, fill, background, ec) {
        Ok(s) => Ok(vstd::utf8::encode_utf8(s)),
        Err(e) => Err(e),
    }
}

fn pick_color(c: &Option<String>, d: &str) -> (r: String)
    ensures
        r@ == color_or(*c, d@),
{
    match c {
        Some(s) => if is_safe_color(s.as_str()) {
            s.clone()
        } else {
            string_from(d)
        },
        None => string_from(d),
    }
}

/// The SVG text of a QR code; see [`qr_svg_text_spec`].
pub fn generate_qr_svg_text(
    text: &str,
    fill: &Option<String>,
    background: &Option<String>,
    error_correction: &Option<String>,
) -> (r: Result<String, String>)
    ensures
        match r {
            Ok(s) => qr_svg_text_spec(text@, *fill, *background, *error_correction) == Ok::<
                Seq<char>,
                Seq<char>,
            >(s@),
            Err(e) => qr_svg_text_spec(text@, *fill, *background, *error_correction) == Err::<
                Seq<char>,
                Seq<char>,
            >(e@),
        },
{
    if text.unicode_len() == 0 {
        return Err(string_from("QR code content resolved to an empty string"));
    }
    let bytes = text.as_bytes();
    if bytes.len() > MAX_QR_PAYLOAD_BYTES {
        return Err(string_from("QR code content exceeds the maximum of 2000 bytes"));
    }
    proof {
        reveal_strlit("low");
        reveal_strlit("quartile");
        reveal_strlit("high");
    }
    let ec = if crate::text::opt_str_is(error_correction, "low") {
        QrEcLevel::Low
    } else if crate::text::opt_str_is(error_correction, "quartile") {
        QrEcLevel::Quartile
    } else if crate::text::opt_str_is(error_correction, "high") {
        QrEcLevel::High
    } else {
        QrEcLevel::Medium
    };
    let dark = pick_color(fill, "#000000");
    let light = pick_color(background, "#ffffff");
    match qr_svg(bytes, ec, dark.as_str(), light.as_str()) {
        Ok(s) => Ok(s),
        Err(e) => {
            let mut m = string_from("QR encoding failed: ");
            push_str(&mut m, e.as_str());
            Err(m)
        },
    }
}

/// The SVG of a QR code as UTF-8 bytes; see [`qr_svg_spec`].
pub fn generate_qr_svg(
    text: &str,
    fill: &Option<String>,
    background: &Option<String>,
    error_correction: &Option<String>,
) -> (r: Result<Vec<u8>, String>)
    ensures
        match r {
            Ok(b) => qr_svg_spec(text@, *fill, *background, *error_correction) == Ok::<
                Seq<u8>,
                Seq<char>,
            >(b@),
            Err(e) => qr_svg_spec(text@, *fill, *background, *error_correction) == Err::<
                Seq<u8>,
                Seq<char>,
            >(e@),
        },
{
    let s = generate_qr_svg_text(text, fill, background, error_correction)?;
    Ok(s.as_str().as_bytes_vec())
}

pub open spec fn assets_view(a: Seq<(String, Vec<u8>)>) -> Seq<(Seq<char>, Seq<u8>)> {
    Seq::new(a.len(), |i: int| (a[i].0@, a[i].1@))
}

/// Every request's SVG, in order, or the first error.
pub open spec fn resolve_all_spec(reqs: Seq<QrRequest>, data: Json) -> Result<
    Seq<(Seq<char>, Seq<u8>)>,
    Seq<char>,
>
    decreases reqs.len(),
{
    if reqs.len() == 0 {
        Ok(Seq::empty())
    } else {
        match resolve_all_spec(reqs.drop_last(), data) {
            Err(e) => Err(e),
            Ok(done) => {
                let q = reqs.last();
                match qr_svg_spec(
                    plain_text(q.content@, data),
                    q.fill,
                    q.background,
                    q.error_correction,
                ) {
                    Err(e) => Err(e),
                    Ok(b) => Ok(done.push((q.asset_path@, b))),
                }
            },
        }
    }
}

/// Draws every recorded QR code from the document's own data.
pub fn resolve_all(requests: &[QrRequest], data: &Json) -> (r: Result<Vec<(String, Vec<u8>)>, String>)
    ensures
        match r {
            Ok(v) => resolve_all_spec(requests@, *data) == Ok::<
                Seq<(Seq<char>, Seq<u8>)>,
                Seq<char>,
            >(assets_view(v@)),
            Err(e) => resolve_all_spec(requests@, *data) == Err::<
                Seq<(Seq<char>, Seq<u8>)>,
                Seq<char>,
            >(e@),
        },
{
    let mut out: Vec<(String, Vec<u8>)> = Vec::new();
    assert(requests@.take(0) =~= Seq::<QrRequest>::empty());
    assert(assets_view(out@) =~= Seq::<(Seq<char>, Seq<u8>)>::empty());
    for i in 0..requests.len()
        invariant
            resolve_all_spec(requests@.take(i as int), *data) == Ok::<
                Seq<(Seq<char>, Seq<u8>)>,
                Seq<char>,
            >(assets_view(out@)),
    {
        let req = &requests[i];
        assert(requests@.take(i + 1).drop_last() =~= requests@.take(i as int));
        let text = resolve_plain(req.content.as_slice(), data);
        let svg = generate_qr_svg(text.as_str(), &req.fill, &req.background, &req.error_correction);
        match svg {
            Ok(b) => {
                let ghost before = out@;
                out.push((req.asset_path.clone(), b));
                assert(assets_view(out@) =~= assets_view(before).push((req.asset_path@, b@)));
            },
            Err(e) => {
                proof {
                    lemma_resolve_all_err(requests@, i as int, *data);
                }
                return Err(e);
            },
        }
    }
    assert(requests@.take(requests@.len() as int) =~= requests@);
    Ok(out)
}

proof fn lemma_resolve_all_err(reqs: Seq<QrRequest>, i: int, data: Json)
    requires
        0 <= i < reqs.len(),
        resolve_all_spec(reqs.take(i + 1), data) is Err,
    ensures
        resolve_all_spec(reqs, data) == resolve_all_spec(reqs.take(i + 1), data),
    decreases reqs.len() - i,
{
    if i + 1 < reqs.len() {
        assert(reqs.take(i + 2).drop_last() =~= reqs.take(i + 1));
        lemma_resolve_all_err(reqs, i + 1, data);
    } else {
        assert(reqs.take(i + 1) =~= reqs);
    }
}

} // verus!
