//! The request data as plain values: a JSON tree whose numbers are kept as
//! the text that JSON serialisation gives them, and whose objects are lists
//! of entries with distinct keys.
use vstd::prelude::*;
use crate::text::{ascii_digit, chars_of, find, find_at, is_ascii_digit, lemma_find_from_bounds, seq_eq};

verus! {

broadcast use vstd::string::group_string_axioms;

pub enum Json {
    Null,
    Bool(bool),
    /// A number, as its JSON text (`12`, `-3`, `1.5`).
    Number(String),
    Str(String),
    Array(Vec<Json>),
    /// Entries in the order the object lists them; keys are distinct.
    Object(Vec<(String, Json)>),
}

/// The value of the first entry whose key is `key`.
pub open spec fn entries_get(entries: Seq<(String, Json)>, key: Seq<char>) -> Option<Json>
    decreases entries.len(),
{
    if entries.len() == 0 {
        None
    } else if entries[0].0@ == key {
        Some(entries[0].1)
    } else {
        entries_get(entries.drop_first(), key)
    }
}

/// `usize::from_str`: an optional `+`, then one or more ASCII digits whose
/// value fits in `usize`.
pub open spec fn digits_value(d: Seq<char>) -> nat
    decreases d.len(),
{
    if d.len() == 0 {
        0
    } else {
        digits_value(d.drop_last()) * 10 + (d.last() as nat - 48) as nat
    }
}

pub open spec fn all_digits(d: Seq<char>) -> bool {
    forall|i: int| 0 <= i < d.len() ==> is_ascii_digit(#[trigger] d[i])
}

pub open spec fn unsigned_digits(s: Seq<char>) -> Seq<char> {
    if s.len() > 0 && s[0] == '+' {
        s.drop_first()
    } else {
        s
    }
}

pub open spec fn parse_usize_spec(s: Seq<char>) -> Option<nat> {
    let d = unsigned_digits(s);
    if d.len() == 0 || !all_digits(d) || digits_value(d) > usize::MAX {
        None
    } else {
        Some(digits_value(d))
    }
}

proof fn lemma_digits_value_mono(d: Seq<char>, i: int)
    requires
        0 <= i <= d.len(),
        all_digits(d),
    ensures
        digits_value(d.take(i)) <= digits_value(d),
    decreases d.len() - i,
{
    if i < d.len() {
        lemma_digits_value_mono(d, i + 1);
        assert(d.take(i + 1).drop_last() =~= d.take(i));
    } else {
        assert(d.take(i) =~= d);
    }
}

pub fn parse_usize(s: &[char]) -> (r: Option<usize>)
    ensures
        match r {
            Some(n) => parse_usize_spec(s@) == Some(n as nat),
            None => parse_usize_spec(s@) is None,
        },
{
    let start: usize = if s.len() > 0 && s[0] == '+' {
        1
    } else {
        0
    };
    let ghost d = unsigned_digits(s@);
    assert(d =~= s@.skip(start as int));
    if start == s.len() {
        return None;
    }
    let mut v: usize = 0;
    let mut i: usize = start;
    let mut overflow = false;
    while i < s.len()
        invariant
            start <= i <= s@.len(),
            d == s@.skip(start as int),
            d == unsigned_digits(s@),
            all_digits(s@.subrange(start as int, i as int)),
            !overflow ==> v as nat == digits_value(s@.subrange(start as int, i as int)),
            overflow ==> digits_value(s@.subrange(start as int, i as int)) > usize::MAX,
        decreases s@.len() - i,
    {
        let c = s[i];
        if !ascii_digit(c) {
            assert(d[i - start] == c);
            assert(!is_ascii_digit(d[i - start]));
            return None;
        }
        let dg = (c as u32 - 48) as usize;
        assert(s@.subrange(start as int, i + 1).drop_last() =~= s@.subrange(start as int, i as int));
        assert(s@.subrange(start as int, i + 1).last() == c);
        assert(digits_value(s@.subrange(start as int, i + 1)) == digits_value(
            s@.subrange(start as int, i as int),
        ) * 10 + dg);
        assert forall|j: int| 0 <= j < s@.subrange(start as int, i + 1).len() implies is_ascii_digit(
            #[trigger] s@.subrange(start as int, i + 1)[j],
        ) by {
            if j < i - start {
                assert(s@.subrange(start as int, i + 1)[j] == s@.subrange(start as int, i as int)[j]);
            }
        }
        if !overflow {
            if v > (usize::MAX - dg) / 10 {
                overflow = true;
                assert(v * 10 + dg > usize::MAX) by (nonlinear_arith)
                    requires
                        v > (usize::MAX - dg) / 10,
                        dg <= 9,
                ;
            } else {
                assert(v * 10 + dg <= usize::MAX) by (nonlinear_arith)
                    requires
                        v <= (usize::MAX - dg) / 10,
                        dg <= 9,
                ;
                v = v * 10 + dg;
            }
        }
        i = i + 1;
    }
    assert(s@.subrange(start as int, s@.len() as int) =~= d);
    if overflow {
        None
    } else {
        Some(v)
    }
}

/// `path` cut at every `.`, as `str::split('.')` does; never empty.
pub open spec fn split_dots(s: Seq<char>) -> Seq<Seq<char>>
    decreases s.len(),
{
    match find(s, seq!['.']) {
        Some(k) => if 0 <= k < s.len() {
            seq![s.take(k)] + split_dots(s.skip(k + 1))
        } else {
            seq![s]
        },
        None => seq![s],
    }
}

/// One step of a path walk: a key into an object, or an index into an array.
pub open spec fn step(v: Json, part: Seq<char>) -> Option<Json> {
    match v {
        Json::Object(entries) => entries_get(entries@, part),
        Json::Array(items) => match parse_usize_spec(part) {
            Some(n) => if n < items@.len() {
                Some(items@[n as int])
            } else {
                None
            },
            None => None,
        },
        _ => None,
    }
}

pub open spec fn walk(v: Json, parts: Seq<Seq<char>>) -> Option<Json>
    decreases parts.len(),
{
    if parts.len() == 0 {
        Some(v)
    } else {
        match step(v, parts[0]) {
            Some(next) => walk(next, parts.drop_first()),
            None => None,
        }
    }
}

/// The value at a dotted path such as `customer.name` or `items.0.qty`.
pub open spec fn value_at(data: Json, path: Seq<char>) -> Option<Json> {
    walk(data, split_dots(path))
}

pub fn entries_lookup<'a>(entries: &'a Vec<(String, Json)>, key: &[char]) -> (r: Option<&'a Json>)
    ensures
        match r {
            Some(v) => entries_get(entries@, key@) == Some(*v),
            None => entries_get(entries@, key@) is None,
        },
{
    let mut i: usize = 0;
    assert(entries@.skip(0) =~= entries@);
    while i < entries.len()
        invariant
            i <= entries@.len(),
            entries_get(entries@, key@) == entries_get(entries@.skip(i as int), key@),
        decreases entries@.len() - i,
    {
        let k = chars_of(entries[i].0.as_str());
        assert(entries@.skip(i as int).drop_first() =~= entries@.skip(i + 1));
        if seq_eq(k.as_slice(), key) {
            return Some(&entries[i].1);
        }
        i = i + 1;
    }
    None
}

pub fn step_exec<'a>(v: &'a Json, part: &[char]) -> (r: Option<&'a Json>)
    ensures
        match r {
            Some(x) => step(*v, part@) == Some(*x),
            None => step(*v, part@) is None,
        },
{
    match v {
        Json::Object(entries) => entries_lookup(entries, part),
        Json::Array(items) => match parse_usize(part) {
            Some(n) => if n < items.len() {
                Some(&items[n])
            } else {
                None
            },
            None => None,
        },
        _ => None,
    }
}

proof fn lemma_split_dots_unfold(s: Seq<char>, k: int)
    requires
        find(s, seq!['.']) == Some(k),
    ensures
        0 <= k < s.len(),
        s[k] == '.',
        split_dots(s) == seq![s.take(k)] + split_dots(s.skip(k + 1)),
{
    lemma_find_from_bounds(s, seq!['.'], 0);
    assert(s.subrange(k, k + 1)[0] == s[k]);
}

proof fn lemma_split_dots_none(s: Seq<char>)
    requires
        find(s, seq!['.']) is None,
    ensures
        split_dots(s) == seq![s],
        forall|i: int| 0 <= i < s.len() ==> s[i] != '.',
{
    lemma_find_from_bounds(s, seq!['.'], 0);
    assert forall|i: int| 0 <= i < s.len() implies s[i] != '.' by {
        if s[i] == '.' {
            assert(s.subrange(i, i + 1) =~= seq!['.']);
        }
    }
}

pub fn value_at_path<'a>(data: &'a Json, path: &str) -> (r: Option<&'a Json>)
    ensures
        match r {
            Some(x) => value_at(*data, path@) == Some(*x),
            None => value_at(*data, path@) is None,
        },
{
    let p = chars_of(path);
    let dot: Vec<char> = vec!['.'];
    let mut current: &Json = data;
    let mut start: usize = 0;
    let n = p.len();
    assert(p@.skip(0) =~= p@);
    loop
        invariant
            n == p@.len(),
            p@ == path@,
            dot@ == seq!['.'],
            start <= p@.len(),
            value_at(*data, path@) == walk(*current, split_dots(p@.skip(start as int))),
        decreases p@.len() - start,
    {
        let rest: &[char] = p.as_slice().split_at(start).1;
        assert(rest@ =~= p@.skip(start as int));
        let found = find_at(rest, dot.as_slice(), 0);
        match found {
            Some(k) => {
                proof {
                    lemma_split_dots_unfold(rest@, k as int);
                }
                let part: &[char] = rest.split_at(k).0;
                assert(part@ =~= rest@.take(k as int));
                match step_exec(current, part) {
                    Some(next) => {
                        assert(rest@.skip(k + 1) =~= p@.skip(start + k + 1));
                        let ghost parts = split_dots(rest@);
                        assert(parts.drop_first() =~= split_dots(rest@.skip(k + 1)));
                        current = next;
                        start = start + k + 1;
                    },
                    None => {
                        return None;
                    },
                }
            },
            None => {
                proof {
                    lemma_split_dots_none(rest@);
                }
                let r = step_exec(current, rest);
                proof {
                    let parts = split_dots(rest@);
                    assert(parts.drop_first() =~= Seq::<Seq<char>>::empty());
                    reveal_with_fuel(walk, 2);
                }
                return r;
            },
        }
    }
}

} // verus!

verus! {

// ---------------------------------------------------------------
// Compact JSON text
// ---------------------------------------------------------------

/// A JSON value as plain values.
pub ghost enum JsonV {
    Null,
    Bool(bool),
    Number(Seq<char>),
    Str(Seq<char>),
    Array(Seq<JsonV>),
    Object(Seq<(Seq<char>, JsonV)>),
}

pub open spec fn json_view(v: Json) -> JsonV
    decreases v, 1int,
{
    match v {
        Json::Null => JsonV::Null,
        Json::Bool(b) => JsonV::Bool(b),
        Json::Number(n) => JsonV::Number(n@),
        Json::Str(s) => JsonV::Str(s@),
        Json::Array(items) => JsonV::Array(json_views(items@, items@.len() as int)),
        Json::Object(entries) => JsonV::Object(entry_views(entries@, entries@.len() as int)),
    }
}

/// The views of the first `n` items.
pub open spec fn json_views(items: Seq<Json>, n: int) -> Seq<JsonV>
    decreases items, n,
{
    if n <= 0 || n > items.len() {
        Seq::empty()
    } else {
        json_views(items, n - 1).push(json_view(items[n - 1]))
    }
}

/// The views of the first `n` entries.
pub open spec fn entry_views(entries: Seq<(String, Json)>, n: int) -> Seq<(Seq<char>, JsonV)>
    decreases entries, n,
{
    if n <= 0 || n > entries.len() {
        Seq::empty()
    } else {
        entry_views(entries, n - 1).push((entries[n - 1].0@, json_view(entries[n - 1].1)))
    }
}

/// What `serde_json::to_string` writes for the `serde_json::Value` of a
/// value (see [`to_json_string`]).
pub uninterp spec fn serde_json_text(v: JsonV) -> Seq<char>;

/// The compact JSON text of a value, as `serde_json` writes it.
pub open spec fn json_text(v: Json) -> Seq<char> {
    serde_json_text(json_view(v))
}

#[verifier::external_type_specification]
#[verifier::external_body]
pub struct ExJsonValue(serde_json::Value);

/// Builds the `serde_json::Value` of a value, one for one: a number from
/// its text with `serde_json::from_str` (text that is not a JSON number
/// becomes `null`), an object from its entries. Nothing is claimed of the
/// result.
#[verifier::external_body]
fn serde_value(v: &Json) -> (r: serde_json::Value) {
    match v {
        Json::Null => serde_json::Value::Null,
        Json::Bool(b) => serde_json::Value::Bool(*b),
        Json::Number(n) => serde_json::from_str::<serde_json::Number>(n).map_or(serde_json::Value::Null, serde_json::Value::Number),
        Json::Str(s) => serde_json::Value::String(s.clone()),
        Json::Array(items) => serde_json::Value::Array(items.iter().map(serde_value).collect()),
        Json::Object(entries) => serde_json::Value::Object(entries.iter().map(|(k, x)| (k.clone(), serde_value(x))).collect()),
    }
}

/// Calls `serde_json::to_string` on the `serde_json::Value` that
/// [`serde_value`] builds. Claimed: the text depends on the value alone,
/// named [`serde_json_text`]; writing a `Value` cannot fail, so the empty
/// fallback is never taken.
#[verifier::external_body]
fn serde_to_string(v: &Json) -> (r: String)
    ensures
        r@ == serde_json_text(json_view(*v)),
{
    serde_json::to_string(&serde_value(v)).unwrap_or_default()
}

/// The compact JSON text of a value.
pub fn to_json_string(v: &Json) -> (r: String)
    ensures
        r@ == json_text(*v),
{
    serde_to_string(v)
}

} // verus!

verus! {

/// A path cut at every `.`; see [`split_dots`].
pub fn split_dots_exec(path: &str) -> (r: Vec<String>)
    ensures
        crate::text::strings_view(r@) == split_dots(path@),
{
    let p = chars_of(path);
    let dot: Vec<char> = vec!['.'];
    let mut out: Vec<String> = Vec::new();
    let mut start: usize = 0;
    let n = p.len();
    assert(p@.skip(0) =~= p@);
    loop
        invariant
            n == p@.len(),
            p@ == path@,
            dot@ == seq!['.'],
            start <= p@.len(),
            crate::text::strings_view(out@) + split_dots(p@.skip(start as int)) == split_dots(path@),
        decreases p@.len() - start,
    {
        let rest: &[char] = p.as_slice().split_at(start).1;
        assert(rest@ =~= p@.skip(start as int));
        let found = find_at(rest, dot.as_slice(), 0);
        let ghost before = out@;
        match found {
            Some(k) => {
                proof {
                    lemma_split_dots_unfold(rest@, k as int);
                }
                let part: &[char] = rest.split_at(k).0;
                assert(part@ =~= rest@.take(k as int));
                let s = crate::text::string_from_chars(part);
                let ghost g = s;
                out.push(s);
                proof {
                    crate::text::lemma_strings_view_push(before, g);
                }
                assert(rest@.skip(k + 1) =~= p@.skip(start + k + 1));
                assert(crate::text::strings_view(out@) + split_dots(p@.skip(start + k + 1))
                    =~= crate::text::strings_view(before) + split_dots(rest@));
                start = start + k + 1;
            },
            None => {
                proof {
                    lemma_split_dots_none(rest@);
                }
                let s = crate::text::string_from_chars(rest);
                let ghost g = s;
                out.push(s);
                proof {
                    crate::text::lemma_strings_view_push(before, g);
                }
                assert(crate::text::strings_view(out@) =~= crate::text::strings_view(before)
                    + split_dots(rest@));
                return out;
            },
        }
    }
}

} // verus!
