//! Image sources: inline base64 and data URIs are decoded here; remote
//! images are fetched by the application, which asks this module which
//! hosts and addresses it may fetch from.
use vstd::prelude::*;
use base64::Engine;
use crate::text::{
    chars_of, find, find_at, folded_eq, is_white_space, lemma_find_from_bounds, push_str,
    str_eq, string_from, white_space,
};

verus! {

broadcast use vstd::string::group_string_axioms;

/// The largest image accepted, in bytes.
pub const MAX_IMAGE_BYTES: usize = 8388608;

// ---------------------------------------------------------------
// Image format
// ---------------------------------------------------------------

pub open spec fn has_bytes_prefix(b: Seq<u8>, p: Seq<u8>) -> bool {
    p.len() <= b.len() && b.take(p.len() as int) == p
}

pub open spec fn png_magic() -> Seq<u8> {
    seq![0x89u8, 0x50u8, 0x4Eu8, 0x47u8, 0x0Du8, 0x0Au8, 0x1Au8, 0x0Au8]
}

pub open spec fn jpg_magic() -> Seq<u8> {
    seq![0xFFu8, 0xD8u8, 0xFFu8]
}

pub open spec fn gif87_magic() -> Seq<u8> {
    seq![71u8, 73u8, 70u8, 56u8, 55u8, 97u8]
}

pub open spec fn gif89_magic() -> Seq<u8> {
    seq![71u8, 73u8, 70u8, 56u8, 57u8, 97u8]
}

/// `RIFF` at 0 and `WEBP` at 8.
pub open spec fn is_webp(b: Seq<u8>) -> bool {
    b.len() >= 12 && b.subrange(0, 4) == seq![82u8, 73u8, 70u8, 70u8] && b.subrange(8, 12) == seq![
        87u8,
        69u8,
        66u8,
        80u8,
    ]
}

/// The image format named by the file's magic bytes; PNG when none
/// matches.
pub open spec fn image_format(b: Seq<u8>) -> Seq<char> {
    if has_bytes_prefix(b, png_magic()) {
        "png"@
    } else if has_bytes_prefix(b, jpg_magic()) {
        "jpg"@
    } else if has_bytes_prefix(b, gif87_magic()) || has_bytes_prefix(b, gif89_magic()) {
        "gif"@
    } else if is_webp(b) {
        "webp"@
    } else {
        "png"@
    }
}

fn bytes_at(b: &[u8], at: usize, p: &[u8]) -> (r: bool)
    ensures
        r == (at + p@.len() <= b@.len() && b@.subrange(at as int, at + p@.len()) == p@),
{
    let n = b.len();
    if p.len() > n || at > n - p.len() {
        return false;
    }
    for i in 0..p.len()
        invariant
            n == b@.len(),
            at + p@.len() <= b@.len(),
            forall|j: int| 0 <= j < i ==> b@[at + j] == p@[j],
    {
        if b[at + i] != p[i] {
            return false;
        }
    }
    assert(b@.subrange(at as int, at + p@.len()) =~= p@);
    true
}

pub fn sniff_image_format(bytes: &[u8]) -> (r: &'static str)
    ensures
        r@ == image_format(bytes@),
{
    proof {
        reveal_strlit("png");
        reveal_strlit("jpg");
        reveal_strlit("gif");
        reveal_strlit("webp");
    }
    let png: [u8; 8] = [0x89, 0x50, 0x4E, 0x47, 0x0D, 0x0A, 0x1A, 0x0A];
    let jpg: [u8; 3] = [0xFF, 0xD8, 0xFF];
    let gif87: [u8; 6] = [71, 73, 70, 56, 55, 97];
    let gif89: [u8; 6] = [71, 73, 70, 56, 57, 97];
    let riff: [u8; 4] = [82, 73, 70, 70];
    let webp: [u8; 4] = [87, 69, 66, 80];
    assert(png@ =~= png_magic());
    assert(jpg@ =~= jpg_magic());
    assert(gif87@ =~= gif87_magic());
    assert(gif89@ =~= gif89_magic());
    assert(riff@ =~= seq![82u8, 73u8, 70u8, 70u8]);
    assert(webp@ =~= seq![87u8, 69u8, 66u8, 80u8]);
    assert(bytes@.subrange(0, 8) == bytes@.take(8));
    assert(bytes@.subrange(0, 3) == bytes@.take(3));
    assert(bytes@.subrange(0, 6) == bytes@.take(6));
    if bytes_at(bytes, 0, &png) {
        "png"
    } else if bytes_at(bytes, 0, &jpg) {
        "jpg"
    } else if bytes_at(bytes, 0, &gif87) || bytes_at(bytes, 0, &gif89) {
        "gif"
    } else if bytes.len() >= 12 && bytes_at(bytes, 0, &riff) && bytes_at(bytes, 8, &webp) {
        "webp"
    } else {
        "png"
    }
}

// ---------------------------------------------------------------
// Decoding
// ---------------------------------------------------------------

/// What `base64::engine::general_purpose::STANDARD.decode` gives for a
/// text: the bytes, or the decoder's error message.
pub uninterp spec fn base64_standard(text: Seq<char>) -> Result<Seq<u8>, Seq<char>>;

/// Calls `STANDARD.decode` (padded standard alphabet) and turns an error
/// into its `Display` text. Claimed: the outcome depends on the text
/// alone, named [`base64_standard`].
#[verifier::external_body]
fn base64_decode(text: &str) -> (r: Result<Vec<u8>, String>)
    ensures
        match r {
            Ok(b) => base64_standard(text@) == Ok::<Seq<u8>, Seq<char>>(b@),
            Err(e) => base64_standard(text@) == Err::<Seq<u8>, Seq<char>>(e@),
        },
{
    match base64::engine::general_purpose::STANDARD.decode(text) {
        Ok(b) => Ok(b),
        Err(e) => Err(e.to_string()),
    }
}

pub open spec fn trim_start_len(s: Seq<char>) -> nat
    decreases s.len(),
{
    if s.len() > 0 && is_white_space(s[0]) {
        1 + trim_start_len(s.drop_first())
    } else {
        0
    }
}

pub open spec fn trim_end_len(s: Seq<char>) -> nat
    decreases s.len(),
{
    if s.len() > 0 && is_white_space(s.last()) {
        1 + trim_end_len(s.drop_last())
    } else {
        0
    }
}

/// `str::trim`: white space removed from both ends.
pub open spec fn trim(s: Seq<char>) -> Seq<char> {
    let t = s.skip(trim_start_len(s) as int);
    t.take(t.len() - trim_end_len(t))
}

proof fn lemma_trim_start(s: Seq<char>, i: int)
    requires
        0 <= i <= s.len(),
        forall|j: int| 0 <= j < i ==> is_white_space(#[trigger] s[j]),
        i == s.len() || !is_white_space(s[i]),
    ensures
        trim_start_len(s) == i,
    decreases s.len(),
{
    if i > 0 {
        lemma_trim_start(s.drop_first(), i - 1);
    }
}

proof fn lemma_trim_end(s: Seq<char>, i: int)
    requires
        0 <= i <= s.len(),
        forall|j: int| s.len() - i <= j < s.len() ==> is_white_space(#[trigger] s[j]),
        i == s.len() || !is_white_space(s[s.len() - i - 1]),
    ensures
        trim_end_len(s) == i,
    decreases s.len(),
{
    if i > 0 {
        lemma_trim_end(s.drop_last(), i - 1);
    }
}

pub fn trim_chars(s: &[char]) -> (r: Vec<char>)
    ensures
        r@ == trim(s@),
{
    let n = s.len();
    let mut a: usize = 0;
    while a < n && white_space(s[a])
        invariant
            a <= n,
            n == s@.len(),
            forall|j: int| 0 <= j < a ==> is_white_space(#[trigger] s@[j]),
        decreases n - a,
    {
        a = a + 1;
    }
    proof {
        lemma_trim_start(s@, a as int);
    }
    let ghost t = s@.skip(a as int);
    let mut b: usize = n;
    while b > a && white_space(s[b - 1])
        invariant
            a <= b <= n,
            n == s@.len(),
            forall|j: int| b <= j < n ==> is_white_space(#[trigger] s@[j]),
        decreases b - a,
    {
        b = b - 1;
    }
    proof {
        assert forall|j: int| t.len() - (n - b) <= j < t.len() implies is_white_space(#[trigger] t[j]) by {
            assert(t[j] == s@[a + j]);
        }
        if b > a {
            assert(t[t.len() - (n - b) - 1] == s@[b - 1]);
        }
        lemma_trim_end(t, (n - b) as int);
    }
    let mut r: Vec<char> = Vec::new();
    let mut i = a;
    while i < b
        invariant
            a <= i <= b,
            b <= n,
            n == s@.len(),
            r@ == s@.subrange(a as int, i as int),
        decreases b - i,
    {
        r.push(s[i]);
        assert(r@ =~= s@.subrange(a as int, i + 1));
        i = i + 1;
    }
    assert(r@ =~= trim(s@));
    r
}

pub open spec fn starts_with_text(s: Seq<char>, p: Seq<char>) -> bool {
    p.len() <= s.len() && s.take(p.len() as int) == p
}

/// The payload of a data URI body: what stands between its first and
/// second comma (or the end).
pub open spec fn data_payload(rest: Seq<char>) -> Option<Seq<char>> {
    match find(rest, seq![',']) {
        Some(k) => {
            let after = rest.skip(k + 1);
            match find(after, seq![',']) {
                Some(m) => Some(after.take(m)),
                None => Some(after),
            }
        },
        None => None,
    }
}

pub open spec fn lookup_fetched(
    fetched: Seq<(String, Result<Vec<u8>, String>)>,
    src: Seq<char>,
) -> Option<Result<Vec<u8>, String>>
    decreases fetched.len(),
{
    if fetched.len() == 0 {
        None
    } else if fetched[0].0@ == src {
        Some(fetched[0].1)
    } else {
        lookup_fetched(fetched.drop_first(), src)
    }
}

pub open spec fn result_view(r: Result<Vec<u8>, String>) -> Result<Seq<u8>, Seq<char>> {
    match r {
        Ok(b) => Ok(b@),
        Err(e) => Err(e@),
    }
}

/// An image's bytes: a `data:` URI's payload decoded, an `http://` or
/// `https://` URL's fetched bytes (as fetched by the application; an URL it
/// did not fetch fails), or the source itself decoded as base64.
pub open spec fn image_source_spec(
    src: Seq<char>,
    fetched: Seq<(String, Result<Vec<u8>, String>)>,
) -> Result<Seq<u8>, Seq<char>> {
    if starts_with_text(src, "data:"@) {
        match data_payload(src.skip(5)) {
            None => Err("malformed data URI"@),
            Some(p) => base64_standard(trim(p)),
        }
    } else if starts_with_text(src, "http://"@) || starts_with_text(src, "https://"@) {
        match lookup_fetched(fetched, src) {
            Some(r) => result_view(r),
            None => Err("Remote image was not fetched"@),
        }
    } else {
        match base64_standard(trim(src)) {
            Ok(b) => Ok(b),
            Err(_) => Err("Invalid base64"@),
        }
    }
}

fn copy_result(r: &Result<Vec<u8>, String>) -> (c: Result<Vec<u8>, String>)
    ensures
        result_view(c) == result_view(*r),
{
    match r {
        Ok(b) => Ok(b.clone()),
        Err(e) => Err(e.clone()),
    }
}

pub fn resolve_image_source(src: &str, fetched: &Vec<(String, Result<Vec<u8>, String>)>) -> (r: Result<
    Vec<u8>,
    String,
>)
    ensures
        result_view(r) == image_source_spec(src@, fetched@),
{
    proof {
        reveal_strlit("data:");
        reveal_strlit("http://");
        reveal_strlit("https://");
    }
    let cs = chars_of(src);
    if crate::text::starts_with(src, "data:") {
        let rest = crate::text::chars_from(cs.as_slice(), 5);
        let comma: Vec<char> = vec![','];
        proof {
            assert(comma@ =~= seq![',']);
            lemma_find_from_bounds(rest@, seq![','], 0);
        }
        match find_at(rest.as_slice(), comma.as_slice(), 0) {
            None => return Err(string_from("malformed data URI")),
            Some(k) => {
                let rl = rest.len();
                assert(k < rl);
                let after = crate::text::chars_from(rest.as_slice(), k + 1);
                proof {
                    lemma_find_from_bounds(after@, seq![','], 0);
                }
                let end = match find_at(after.as_slice(), comma.as_slice(), 0) {
                    Some(m) => m,
                    None => after.len(),
                };
                let mut p: Vec<char> = Vec::new();
                let mut i: usize = 0;
                while i < end
                    invariant
                        i <= end,
                        end <= after@.len(),
                        p@ == after@.take(i as int),
                    decreases end - i,
                {
                    p.push(after[i]);
                    assert(p@ =~= after@.take(i + 1));
                    i = i + 1;
                }
                assert(after@.take(end as int) == p@);
                assert(rest@ =~= src@.skip(5));
                if end == after.len() {
                    assert(after@.take(end as int) =~= after@);
                }
                assert(data_payload(src@.skip(5)) == Some(p@));
                let t = trim_chars(p.as_slice());
                let ts = crate::text::string_from_chars(t.as_slice());
                return base64_decode(ts.as_str());
            },
        }
    }
    if crate::text::starts_with(src, "http://") || crate::text::starts_with(src, "https://") {
        assert(fetched@.skip(0) =~= fetched@);
        for i in 0..fetched.len()
            invariant
                !starts_with_text(src@, "data:"@),
                starts_with_text(src@, "http://"@) || starts_with_text(src@, "https://"@),
                lookup_fetched(fetched@, src@) == lookup_fetched(fetched@.skip(i as int), src@),
        {
            assert(fetched@.skip(i as int).drop_first() =~= fetched@.skip(i + 1));
            assert(fetched@.skip(i as int)[0] == fetched@[i as int]);
            if str_eq(fetched[i].0.as_str(), src) {
                return copy_result(&fetched[i].1);
            }
        }
        return Err(string_from("Remote image was not fetched"));
    }
    let t = trim_chars(cs.as_slice());
    let ts = crate::text::string_from_chars(t.as_slice());
    match base64_decode(ts.as_str()) {
        Ok(b) => Ok(b),
        Err(_) => Err(string_from("Invalid base64")),
    }
}

} // verus!

verus! {

// ---------------------------------------------------------------
// Remote images: which hosts and addresses
// ---------------------------------------------------------------

pub open spec fn keep_nonempty(t: Seq<char>) -> Seq<Seq<char>> {
    if t.len() > 0 {
        seq![t]
    } else {
        Seq::empty()
    }
}

/// The hosts of a comma-separated list, each trimmed, empty ones dropped.
pub open spec fn allow_list(s: Seq<char>) -> Seq<Seq<char>>
    decreases s.len(),
{
    match find(s, seq![',']) {
        Some(k) => if 0 <= k < s.len() {
            keep_nonempty(trim(s.take(k))) + allow_list(s.skip(k + 1))
        } else {
            keep_nonempty(trim(s))
        },
        None => keep_nonempty(trim(s)),
    }
}

pub fn allowed_hosts(list: &str) -> (r: Vec<String>)
    ensures
        crate::text::strings_view(r@) == allow_list(list@),
{
    let cs = chars_of(list);
    let comma: Vec<char> = vec![','];
    assert(comma@ =~= seq![',']);
    let mut out: Vec<String> = Vec::new();
    let mut start: usize = 0;
    assert(cs@.skip(0) =~= cs@);
    loop
        invariant
            start <= cs@.len(),
            comma@ == seq![','],
            cs@ == list@,
            crate::text::strings_view(out@) + allow_list(cs@.skip(start as int)) == allow_list(
                list@,
            ),
        decreases cs@.len() - start,
    {
        let rest = crate::text::chars_from(cs.as_slice(), start);
        proof {
            lemma_find_from_bounds(rest@, seq![','], 0);
        }
        let found = find_at(rest.as_slice(), comma.as_slice(), 0);
        let end = match found {
            Some(k) => k,
            None => rest.len(),
        };
        let mut piece: Vec<char> = Vec::new();
        let mut i: usize = 0;
        while i < end
            invariant
                i <= end,
                end <= rest@.len(),
                piece@ == rest@.take(i as int),
            decreases end - i,
        {
            piece.push(rest[i]);
            assert(piece@ =~= rest@.take(i + 1));
            i = i + 1;
        }
        let t = trim_chars(piece.as_slice());
        let ghost before = out@;
        if t.len() > 0 {
            let ts = crate::text::string_from_chars(t.as_slice());
            let ghost g = ts;
            out.push(ts);
            proof {
                crate::text::lemma_strings_view_push(before, g);
            }
        }
        assert(crate::text::strings_view(out@) =~= crate::text::strings_view(before) + keep_nonempty(
            trim(piece@),
        ));
        match found {
            Some(k) => {
                let rl = rest.len();
                let n = cs.len();
                assert(k < rl);
                assert(rl == n - start);
                assert(rest@.skip(k + 1) =~= cs@.skip(start + k + 1));
                assert(crate::text::strings_view(out@) + allow_list(cs@.skip(start + k + 1))
                    =~= crate::text::strings_view(before) + allow_list(rest@));
                start = start + k + 1;
            },
            None => {
                assert(piece@ =~= rest@);
                assert(crate::text::strings_view(out@) =~= crate::text::strings_view(before) + allow_list(rest@));
                return out;
            },
        }
    }
}

/// Whether the application may fetch an image from a URL: fetching must be
/// enabled by a non-empty allow-list, the URL must parse (`url` holds its
/// scheme and host, or the parser's error), use HTTPS, have a host, and
/// the host must be on the list.
pub open spec fn remote_check_spec(
    allowed: Seq<Seq<char>>,
    url: Result<(Seq<char>, Option<Seq<char>>), Seq<char>>,
) -> Result<(), Seq<char>> {
    if allowed.len() == 0 {
        Err("Remote image fetching disabled"@)
    } else {
        match url {
            Err(e) => Err(e),
            Ok((scheme, host)) => if scheme != "https"@ {
                Err("Only HTTPS allowed"@)
            } else {
                match host {
                    None => Err("No host"@),
                    Some(h) => if allowed.contains(h) {
                        Ok(())
                    } else {
                        Err("Host "@ + h + " not allowlisted"@)
                    },
                }
            },
        }
    }
}

pub open spec fn url_view(url: Result<(String, Option<String>), String>) -> Result<
    (Seq<char>, Option<Seq<char>>),
    Seq<char>,
> {
    match url {
        Ok((s, h)) => Ok((s@, crate::domain::opt_text(h))),
        Err(e) => Err(e@),
    }
}

pub fn check_remote_image(allowed: &Vec<String>, url: &Result<(String, Option<String>), String>) -> (r:
    Result<(), String>)
    ensures
        match r {
            Ok(()) => remote_check_spec(crate::text::strings_view(allowed@), url_view(*url)) == Ok::<
                (),
                Seq<char>,
            >(()),
            Err(e) => remote_check_spec(crate::text::strings_view(allowed@), url_view(*url))
                == Err::<(), Seq<char>>(e@),
        },
{
    proof {
        reveal_strlit("https");
    }
    if allowed.len() == 0 {
        return Err(string_from("Remote image fetching disabled"));
    }
    match url {
        Err(e) => Err(e.clone()),
        Ok((scheme, host)) => {
            if !str_eq(scheme.as_str(), "https") {
                return Err(string_from("Only HTTPS allowed"));
            }
            match host {
                None => Err(string_from("No host")),
                Some(h) => {
                    for i in 0..allowed.len()
                        invariant
                            allowed@.len() > 0,
                            *url == Ok::<(String, Option<String>), String>((*scheme, Some(*h))),
                            scheme@ == "https"@,
                            forall|j: int| 0 <= j < i ==> #[trigger] allowed@[j]@ != h@,
                    {
                        if str_eq(allowed[i].as_str(), h.as_str()) {
                            assert(crate::text::strings_view(allowed@)[i as int] == h@);
                            return Ok(());
                        }
                    }
                    assert(!crate::text::strings_view(allowed@).contains(h@));
                    let mut m = string_from("Host ");
                    push_str(&mut m, h.as_str());
                    push_str(&mut m, " not allowlisted");
                    Err(m)
                },
            }
        },
    }
}

/// What `url::Url::parse` (as `reqwest::Url`) makes of a text: its scheme,
/// its host, and its port or the scheme's known default; or the parser's
/// error text.
pub uninterp spec fn url_parts(src: Seq<char>) -> Result<
    (Seq<char>, Option<Seq<char>>, Option<u16>),
    Seq<char>,
>;

/// Calls `reqwest::Url::parse` and reads `scheme`, `host_str` and
/// `port_or_known_default` of the result, or the error's text. Claimed:
/// they depend on the text alone, named [`url_parts`].
#[verifier::external_body]
fn parse_url(src: &str) -> (r: Result<(String, Option<String>, Option<u16>), String>)
    ensures
        match r {
            Ok((scheme, host, port)) => url_parts(src@) == Ok::<
                (Seq<char>, Option<Seq<char>>, Option<u16>),
                Seq<char>,
            >((scheme@, crate::domain::opt_text(host), port)),
            Err(e) => url_parts(src@) == Err::<
                (Seq<char>, Option<Seq<char>>, Option<u16>),
                Seq<char>,
            >(e@),
        },
{
    match reqwest::Url::parse(src) {
        Ok(u) => {
            let host = match u.host_str() {
                Some(h) => Some(h.to_string()),
                None => None,
            };
            Ok((u.scheme().to_string(), host, u.port_or_known_default()))
        },
        Err(e) => Err(e.to_string()),
    }
}

pub open spec fn scheme_and_host(
    u: Result<(Seq<char>, Option<Seq<char>>, Option<u16>), Seq<char>>,
) -> Result<(Seq<char>, Option<Seq<char>>), Seq<char>> {
    match u {
        Ok((s, h, _)) => Ok((s, h)),
        Err(e) => Err(e),
    }
}

/// Where a remote image may be fetched from: the host and port (443 when
/// the URL has none) of `src`, when the allow-list setting and the URL pass
/// [`remote_check_spec`]; else its refusal.
pub open spec fn remote_target_spec(setting: Seq<char>, src: Seq<char>) -> Result<
    (Seq<char>, u16),
    Seq<char>,
> {
    let u = url_parts(src);
    match remote_check_spec(allow_list(setting), scheme_and_host(u)) {
        Err(e) => Err(e),
        Ok(()) => match u {
            Ok((_, Some(h), p)) => Ok(
                (
                    h,
                    match p {
                        Some(x) => x,
                        None => 443u16,
                    },
                ),
            ),
            _ => Err("No host"@),
        },
    }
}

/// Checks a remote image source against the allow-list setting (the
/// comma-separated `ALLOWED_IMAGE_HOSTS`) and gives the host and port to
/// resolve and fetch from; see [`remote_target_spec`].
pub fn remote_image_target(allowed_setting: &str, src: &str) -> (r: Result<(String, u16), String>)
    ensures
        match r {
            Ok((h, p)) => remote_target_spec(allowed_setting@, src@) == Ok::<
                (Seq<char>, u16),
                Seq<char>,
            >((h@, p)),
            Err(e) => remote_target_spec(allowed_setting@, src@) == Err::<(Seq<char>, u16), Seq<char>>(
                e@,
            ),
        },
{
    let allowed = allowed_hosts(allowed_setting);
    let parsed = parse_url(src);
    let pair: Result<(String, Option<String>), String> = match &parsed {
        Ok((s, h, _)) => Ok((s.clone(), crate::text::copy_opt_string(h))),
        Err(e) => Err(e.clone()),
    };
    match check_remote_image(&allowed, &pair) {
        Err(e) => Err(e),
        Ok(()) => match parsed {
            Ok((_, Some(h), p)) => Ok(
                (
                    h,
                    match p {
                        Some(x) => x,
                        None => 443,
                    },
                ),
            ),
            _ => Err(string_from("No host")),
        },
    }
}

/// A remote image is only ever let through over HTTPS, from a host on a
/// non-empty allow-list.
pub proof fn law_remote_images_only_from_allowed_https_hosts(
    allowed: Seq<Seq<char>>,
    url: Result<(Seq<char>, Option<Seq<char>>), Seq<char>>,
)
    requires
        remote_check_spec(allowed, url) is Ok,
    ensures
        allowed.len() > 0,
        url matches Ok((scheme, Some(host))) && scheme == "https"@ && allowed.contains(host),
{
}

/// An IP address, as its octets or its sixteen-bit segments.
pub enum IpAddress {
    V4([u8; 4]),
    V6([u16; 8]),
}

/// Loopback, private, link-local, unspecified, multicast and broadcast
/// IPv4 addresses, as `Ipv4Addr`'s predicates define them.
pub open spec fn v4_not_public(o: Seq<u8>) -> bool {
    ||| o[0] == 127
    ||| o[0] == 10
    ||| (o[0] == 172 && 16 <= o[1] <= 31)
    ||| (o[0] == 192 && o[1] == 168)
    ||| (o[0] == 169 && o[1] == 254)
    ||| (o[0] == 0 && o[1] == 0 && o[2] == 0 && o[3] == 0)
    ||| (224 <= o[0] <= 239)
    ||| (o[0] == 255 && o[1] == 255 && o[2] == 255 && o[3] == 255)
}

/// Loopback `::1`, unspecified `::`, multicast `ff00::/8`, link-local
/// `fe80::/10` and unique-local `fc00::/7` IPv6 addresses.
pub open spec fn v6_not_public(s: Seq<u16>) -> bool {
    let zero_prefix = s[0] == 0 && s[1] == 0 && s[2] == 0 && s[3] == 0 && s[4] == 0 && s[5] == 0
        && s[6] == 0;
    ||| (zero_prefix && s[7] == 1)
    ||| (zero_prefix && s[7] == 0)
    ||| s[0] >= 0xff00
    ||| (0xfe80 <= s[0] && s[0] <= 0xfebf)
    ||| (0xfc00 <= s[0] && s[0] <= 0xfdff)
}

pub open spec fn is_public_spec(ip: IpAddress) -> bool {
    match ip {
        IpAddress::V4(o) => !v4_not_public(o@),
        IpAddress::V6(s) => !v6_not_public(s@),
    }
}

/// Whether an address may be fetched from: not loopback, private,
/// link-local, unspecified, multicast, broadcast or unique-local.
pub fn is_public_ip(ip: &IpAddress) -> (r: bool)
    ensures
        r == is_public_spec(*ip),
{
    match ip {
        IpAddress::V4(o) => {
            let a = o[0];
            let b = o[1];
            let c = o[2];
            let d = o[3];
            !(a == 127 || a == 10 || (a == 172 && 16 <= b && b <= 31) || (a == 192 && b == 168) || (a
                == 169 && b == 254) || (a == 0 && b == 0 && c == 0 && d == 0) || (224 <= a && a
                <= 239) || (a == 255 && b == 255 && c == 255 && d == 255))
        },
        IpAddress::V6(s) => {
            let zero_prefix = s[0] == 0 && s[1] == 0 && s[2] == 0 && s[3] == 0 && s[4] == 0 && s[5]
                == 0 && s[6] == 0;
            !((zero_prefix && s[7] == 1) || (zero_prefix && s[7] == 0) || s[0] >= 0xff00 || (0xfe80
                <= s[0] && s[0] <= 0xfebf) || (0xfc00 <= s[0] && s[0] <= 0xfdff))
        },
    }
}

// ---------------------------------------------------------------
// Which images are remote
// ---------------------------------------------------------------

pub open spec fn is_remote_src(src: Seq<char>) -> bool {
    starts_with_text(src, "http://"@) || starts_with_text(src, "https://"@)
}

/// The sources found so far, with `src` added when it is an `http(s)` URL
/// not found before.
pub open spec fn add_source(acc: Seq<Seq<char>>, src: Seq<char>) -> Seq<Seq<char>> {
    if is_remote_src(src) && !acc.contains(src) {
        acc.push(src)
    } else {
        acc
    }
}

/// The remote image sources of a node (its placed content and columns
/// included), after those found so far.
pub open spec fn node_sources(node: crate::domain::Node, acc: Seq<Seq<char>>) -> Seq<Seq<char>>
    decreases node, 0int,
{
    match node {
        crate::domain::Node::Image { src, .. } => add_source(acc, src@),
        crate::domain::Node::Placed { content, .. } => node_sources(*content, acc),
        crate::domain::Node::Columns { items, .. } => columns_sources(
            items@,
            items@.len() as int,
            acc,
        ),
        _ => acc,
    }
}

pub open spec fn columns_sources(
    items: Seq<Vec<crate::domain::Node>>,
    k: int,
    acc: Seq<Seq<char>>,
) -> Seq<Seq<char>>
    decreases items, k,
{
    if k <= 0 || k > items.len() {
        acc
    } else {
        nodes_sources(items[k - 1]@, items[k - 1]@.len() as int, columns_sources(items, k - 1, acc))
    }
}

pub open spec fn nodes_sources(nodes: Seq<crate::domain::Node>, m: int, acc: Seq<Seq<char>>) -> Seq<
    Seq<char>,
>
    decreases nodes, m,
{
    if m <= 0 || m > nodes.len() {
        acc
    } else {
        node_sources(nodes[m - 1], nodes_sources(nodes, m - 1, acc))
    }
}

/// Every remote image source of the page background, then of the content,
/// each once, in the order they first appear.
pub open spec fn remote_sources_spec(
    content: Seq<crate::domain::Node>,
    page: Option<crate::domain::PageSettings>,
) -> Seq<Seq<char>> {
    let acc = match page {
        Some(p) => match p.background {
            Some(bg) => nodes_sources(bg@, bg@.len() as int, Seq::empty()),
            None => Seq::empty(),
        },
        None => Seq::empty(),
    };
    nodes_sources(content, content.len() as int, acc)
}

fn push_source(out: &mut Vec<String>, src: &String)
    ensures
        crate::text::strings_view(final(out)@) == add_source(
            crate::text::strings_view(old(out)@),
            src@,
        ),
{
    proof {
        reveal_strlit("http://");
        reveal_strlit("https://");
    }
    let ghost v = crate::text::strings_view(out@);
    if !(crate::text::starts_with(src.as_str(), "http://") || crate::text::starts_with(
        src.as_str(),
        "https://",
    )) {
        return;
    }
    for i in 0..out.len()
        invariant
            v == crate::text::strings_view(out@),
            forall|j: int| 0 <= j < i ==> v[j] != src@,
    {
        if str_eq(out[i].as_str(), src.as_str()) {
            assert(v[i as int] == src@);
            assert(v.contains(src@));
            return;
        }
    }
    assert(!v.contains(src@));
    let ghost before = out@;
    out.push(src.clone());
    proof {
        crate::text::lemma_strings_view_push(before, out@.last());
        assert(out@ == before.push(out@.last()));
    }
}

fn collect_node(node: &crate::domain::Node, out: &mut Vec<String>)
    ensures
        crate::text::strings_view(final(out)@) == node_sources(
            *node,
            crate::text::strings_view(old(out)@),
        ),
    decreases node, 0int,
{
    match node {
        crate::domain::Node::Image { src, .. } => push_source(out, src),
        crate::domain::Node::Placed { content, .. } => collect_placed(content, out),
        crate::domain::Node::Columns { items, .. } => collect_columns(items, out),
        _ => {},
    }
}

fn collect_placed(content: &Box<crate::domain::Node>, out: &mut Vec<String>)
    ensures
        crate::text::strings_view(final(out)@) == node_sources(
            **content,
            crate::text::strings_view(old(out)@),
        ),
    decreases **content, 1int,
{
    collect_node(content, out)
}

fn collect_columns(items: &Vec<Vec<crate::domain::Node>>, out: &mut Vec<String>)
    ensures
        crate::text::strings_view(final(out)@) == columns_sources(
            items@,
            items@.len() as int,
            crate::text::strings_view(old(out)@),
        ),
    decreases items, 1int,
{
    let ghost start = crate::text::strings_view(out@);
    for i in 0..items.len()
        invariant
            crate::text::strings_view(out@) == columns_sources(items@, i as int, start),
    {
        proof {
            vstd::std_specs::vec::axiom_vec_index_decreases(*items, i as int);
        }
        collect_nodes(&items[i], out);
    }
}

fn collect_nodes(nodes: &Vec<crate::domain::Node>, out: &mut Vec<String>)
    ensures
        crate::text::strings_view(final(out)@) == nodes_sources(
            nodes@,
            nodes@.len() as int,
            crate::text::strings_view(old(out)@),
        ),
    decreases nodes, 0int,
{
    let ghost start = crate::text::strings_view(out@);
    for j in 0..nodes.len()
        invariant
            crate::text::strings_view(out@) == nodes_sources(nodes@, j as int, start),
    {
        proof {
            vstd::std_specs::vec::axiom_vec_index_decreases(*nodes, j as int);
        }
        collect_node(&nodes[j], out);
    }
}

/// The remote images a document needs fetched; see [`remote_sources_spec`].
pub fn remote_image_sources(
    content: &Vec<crate::domain::Node>,
    page: &Option<crate::domain::PageSettings>,
) -> (r: Vec<String>)
    ensures
        crate::text::strings_view(r@) == remote_sources_spec(content@, *page),
{
    let mut out: Vec<String> = Vec::new();
    assert(crate::text::strings_view(out@) =~= Seq::<Seq<char>>::empty());
    if let Some(p) = page {
        if let Some(bg) = &p.background {
            collect_nodes(bg, &mut out);
        }
    }
    collect_nodes(content, &mut out);
    out
}

/// A list of sources that are all `http(s)` URLs, none twice.
pub open spec fn sources_ok(s: Seq<Seq<char>>) -> bool {
    &&& forall|i: int| 0 <= i < s.len() ==> is_remote_src(#[trigger] s[i])
    &&& forall|i: int, j: int| 0 <= i < j < s.len() ==> #[trigger] s[i] != #[trigger] s[j]
}

proof fn lemma_add_source_ok(acc: Seq<Seq<char>>, src: Seq<char>)
    requires
        sources_ok(acc),
    ensures
        sources_ok(add_source(acc, src)),
{
    if is_remote_src(src) && !acc.contains(src) {
        let r = acc.push(src);
        assert forall|i: int, j: int| 0 <= i < j < r.len() implies #[trigger] r[i] != #[trigger] r[j] by {
            if j == acc.len() {
                assert(r[i] == acc[i]);
            } else {
                assert(r[i] == acc[i] && r[j] == acc[j]);
            }
        }
        assert forall|i: int| 0 <= i < r.len() implies is_remote_src(#[trigger] r[i]) by {
            if i < acc.len() {
                assert(r[i] == acc[i]);
            }
        }
    }
}

proof fn lemma_node_sources_ok(node: crate::domain::Node, acc: Seq<Seq<char>>)
    requires
        sources_ok(acc),
    ensures
        sources_ok(node_sources(node, acc)),
    decreases node, 0int,
{
    match node {
        crate::domain::Node::Image { src, .. } => lemma_add_source_ok(acc, src@),
        crate::domain::Node::Placed { content, .. } => lemma_node_sources_ok(*content, acc),
        crate::domain::Node::Columns { items, .. } => lemma_columns_sources_ok(
            items@,
            items@.len() as int,
            acc,
        ),
        _ => {},
    }
}

proof fn lemma_columns_sources_ok(items: Seq<Vec<crate::domain::Node>>, k: int, acc: Seq<Seq<char>>)
    requires
        sources_ok(acc),
    ensures
        sources_ok(columns_sources(items, k, acc)),
    decreases items, k,
{
    if 0 < k <= items.len() {
        lemma_columns_sources_ok(items, k - 1, acc);
        lemma_nodes_sources_ok(
            items[k - 1]@,
            items[k - 1]@.len() as int,
            columns_sources(items, k - 1, acc),
        );
    }
}

proof fn lemma_nodes_sources_ok(nodes: Seq<crate::domain::Node>, m: int, acc: Seq<Seq<char>>)
    requires
        sources_ok(acc),
    ensures
        sources_ok(nodes_sources(nodes, m, acc)),
    decreases nodes, m,
{
    if 0 < m <= nodes.len() {
        lemma_nodes_sources_ok(nodes, m - 1, acc);
        lemma_node_sources_ok(nodes[m - 1], nodes_sources(nodes, m - 1, acc));
    }
}

/// The images a document has fetched are all `http(s)` URLs, each listed
/// once.
pub proof fn law_remote_sources_distinct(
    content: Seq<crate::domain::Node>,
    page: Option<crate::domain::PageSettings>,
)
    ensures
        sources_ok(remote_sources_spec(content, page)),
{
    let empty = Seq::<Seq<char>>::empty();
    let acc = match page {
        Some(p) => match p.background {
            Some(bg) => {
                lemma_nodes_sources_ok(bg@, bg@.len() as int, empty);
                nodes_sources(bg@, bg@.len() as int, empty)
            },
            None => empty,
        },
        None => empty,
    };
    lemma_nodes_sources_ok(content, content.len() as int, acc);
}

} // verus!
