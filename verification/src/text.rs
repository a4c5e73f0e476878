//! Character-level building blocks. Input text is read as `Vec<char>`
//! and output is built by appending; every step is stated over
//! `Seq<char>`, the view of `str` and `String`.
use vstd::prelude::*;

verus! {

broadcast use vstd::string::group_string_axioms;

// ---------------------------------------------------------------
// Character classes
// ---------------------------------------------------------------

pub open spec fn is_ascii_digit(c: char) -> bool {
    '0' <= c && c <= '9'
}

pub open spec fn is_ascii_alpha(c: char) -> bool {
    ('a' <= c && c <= 'z') || ('A' <= c && c <= 'Z')
}

pub open spec fn is_ascii_alnum(c: char) -> bool {
    is_ascii_digit(c) || is_ascii_alpha(c)
}

/// The Unicode `White_Space` property, which is what `char::is_whitespace`
/// tests.
pub open spec fn is_white_space(c: char) -> bool {
    ||| c == ' '
    ||| ('\t' <= c && c <= '\r')
    ||| c == '\u{85}'
    ||| c == '\u{a0}'
    ||| c == '\u{1680}'
    ||| ('\u{2000}' <= c && c <= '\u{200a}')
    ||| c == '\u{2028}'
    ||| c == '\u{2029}'
    ||| c == '\u{202f}'
    ||| c == '\u{205f}'
    ||| c == '\u{3000}'
}

pub fn ascii_digit(c: char) -> (r: bool)
    ensures
        r == is_ascii_digit(c),
{
    '0' <= c && c <= '9'
}

pub fn ascii_alpha(c: char) -> (r: bool)
    ensures
        r == is_ascii_alpha(c),
{
    ('a' <= c && c <= 'z') || ('A' <= c && c <= 'Z')
}

pub fn ascii_alnum(c: char) -> (r: bool)
    ensures
        r == is_ascii_alnum(c),
{
    ascii_digit(c) || ascii_alpha(c)
}

pub fn white_space(c: char) -> (r: bool)
    ensures
        r == is_white_space(c),
{
    c == ' ' || ('\t' <= c && c <= '\r') || c == '\u{85}' || c == '\u{a0}' || c == '\u{1680}'
        || ('\u{2000}' <= c && c <= '\u{200a}') || c == '\u{2028}' || c == '\u{2029}'
        || c == '\u{202f}' || c == '\u{205f}' || c == '\u{3000}'
}

/// ASCII upper case of one character; other characters are unchanged.
pub open spec fn ascii_upper(c: char) -> char {
    if 'a' <= c && c <= 'z' {
        ((c as u32 - 32) as u8) as char
    } else {
        c
    }
}

pub fn to_ascii_upper(c: char) -> (r: char)
    ensures
        r == ascii_upper(c),
{
    if 'a' <= c && c <= 'z' {
        ((c as u32 - 32) as u8) as char
    } else {
        c
    }
}

/// Lower case of one character as far as a comparison with ASCII text can
/// tell: ASCII letters fold, and the Kelvin sign, the one non-ASCII
/// character whose lower case is an ASCII letter, becomes `k`. Every
/// other non-ASCII character lowers to non-ASCII text, so it is kept
/// as it is, which compares unequal to any ASCII character just the same.
pub open spec fn fold_lower(c: char) -> char {
    if 'A' <= c && c <= 'Z' {
        ((c as u32 + 32) as u8) as char
    } else if c == '\u{212a}' {
        'k'
    } else {
        c
    }
}

pub fn to_fold_lower(c: char) -> (r: char)
    ensures
        r == fold_lower(c),
{
    if 'A' <= c && c <= 'Z' {
        ((c as u32 + 32) as u8) as char
    } else if c == '\u{212a}' {
        'k'
    } else {
        c
    }
}

pub open spec fn fold_lower_seq(s: Seq<char>) -> Seq<char> {
    Seq::new(s.len(), |i: int| fold_lower(s[i]))
}

pub open spec fn ascii_upper_seq(s: Seq<char>) -> Seq<char> {
    Seq::new(s.len(), |i: int| ascii_upper(s[i]))
}

// ---------------------------------------------------------------
// Reading and writing
// ---------------------------------------------------------------

/// Every character of `s`, in order.
pub fn chars_of(s: &str) -> (v: Vec<char>)
    ensures
        v@ == s@,
{
    let mut v: Vec<char> = Vec::new();
    for c in it: s.chars()
        invariant
            v@ == it.seq().take(it.index() as int),
            it.seq() == s@,
    {
        v.push(c);
    }
    v
}

/// `String::push`: appends one character.
#[verifier::external_body]
pub fn push_char(s: &mut String, c: char)
    ensures
        final(s)@ == old(s)@.push(c),
{
    s.push(c);
}

/// Appends a string slice.
pub fn push_str(s: &mut String, t: &str)
    ensures
        final(s)@ == old(s)@ + t@,
{
    s.append(t);
}

/// Appends characters.
pub fn push_chars(s: &mut String, v: &[char])
    ensures
        final(s)@ == old(s)@ + v@,
{
    let ghost start = s@;
    for i in 0..v.len()
        invariant
            s@ == start + v@.take(i as int),
    {
        push_char(s, v[i]);
        assert(start + v@.take(i + 1) =~= (start + v@.take(i as int)).push(v@[i as int]));
    }
    assert(v@.take(v.len() as int) =~= v@);
}

/// Appends the characters of `v` from `from` up to `to`.
pub fn push_range(s: &mut String, v: &[char], from: usize, to: usize)
    requires
        from <= to <= v@.len(),
    ensures
        final(s)@ == old(s)@ + v@.subrange(from as int, to as int),
{
    let ghost start = s@;
    let mut i = from;
    while i < to
        invariant
            from <= i <= to,
            to <= v@.len(),
            s@ == start + v@.subrange(from as int, i as int),
        decreases to - i,
    {
        push_char(s, v[i]);
        assert(v@.subrange(from as int, i + 1) =~= v@.subrange(from as int, i as int).push(v@[i as int]));
        i = i + 1;
    }
}

pub fn string_from_chars(v: &[char]) -> (s: String)
    ensures
        s@ == v@,
{
    let mut s = String::new();
    push_chars(&mut s, v);
    assert(Seq::<char>::empty() + v@ =~= v@);
    s
}

/// The texts of a list of strings.
pub open spec fn strings_view(s: Seq<String>) -> Seq<Seq<char>> {
    s.map_values(|p: String| p@)
}

pub proof fn lemma_strings_view_push(s: Seq<String>, x: String)
    ensures
        strings_view(s.push(x)) == strings_view(s).push(x@),
{
    assert(strings_view(s.push(x)) =~= strings_view(s).push(x@));
}

/// The characters of `v` from position `start` on.
pub fn chars_from(v: &[char], start: usize) -> (r: Vec<char>)
    requires
        start <= v@.len(),
    ensures
        r@ == v@.skip(start as int),
{
    let mut r: Vec<char> = Vec::new();
    let mut i = start;
    while i < v.len()
        invariant
            start <= i <= v@.len(),
            r@ == v@.subrange(start as int, i as int),
        decreases v@.len() - i,
    {
        r.push(v[i]);
        assert(r@ =~= v@.subrange(start as int, i + 1));
        i = i + 1;
    }
    assert(r@ =~= v@.skip(start as int));
    r
}

pub fn string_from(t: &str) -> (s: String)
    ensures
        s@ == t@,
{
    let mut s = String::new();
    push_str(&mut s, t);
    assert(Seq::<char>::empty() + t@ =~= t@);
    s
}

pub fn copy_string(t: &String) -> (s: String)
    ensures
        s@ == t@,
        s == *t,
{
    t.clone()
}

pub fn copy_opt_string(t: &Option<String>) -> (s: Option<String>)
    ensures
        s == *t,
{
    match t {
        Some(x) => Some(x.clone()),
        None => None,
    }
}

pub fn copy_strings(t: &Vec<String>) -> (s: Vec<String>)
    ensures
        s@ == t@,
{
    let mut s: Vec<String> = Vec::new();
    for i in 0..t.len()
        invariant
            s@ == t@.take(i as int),
    {
        s.push(t[i].clone());
        assert(t@.take(i + 1) =~= t@.take(i as int).push(t@[i as int]));
    }
    assert(t@.take(t.len() as int) =~= t@);
    s
}

pub fn copy_opt_strings(t: &Option<Vec<String>>) -> (s: Option<Vec<String>>)
    ensures
        match (s, *t) {
            (Some(a), Some(b)) => a@ == b@,
            (None, None) => true,
            _ => false,
        },
{
    match t {
        Some(v) => Some(copy_strings(v)),
        None => None,
    }
}

// ---------------------------------------------------------------
// Comparison
// ---------------------------------------------------------------

pub fn seq_eq(a: &[char], b: &[char]) -> (r: bool)
    ensures
        r == (a@ == b@),
{
    if a.len() != b.len() {
        return false;
    }
    for i in 0..a.len()
        invariant
            a@.len() == b@.len(),
            forall|j: int| 0 <= j < i ==> a@[j] == b@[j],
    {
        if a[i] != b[i] {
            return false;
        }
    }
    assert(a@ =~= b@);
    true
}

pub fn str_eq(a: &str, b: &str) -> (r: bool)
    ensures
        r == (a@ == b@),
{
    let x = chars_of(a);
    let y = chars_of(b);
    seq_eq(x.as_slice(), y.as_slice())
}

/// `s` equals `t` up to [`fold_lower`] on `s`.
pub fn folded_eq(s: &str, t: &str) -> (r: bool)
    ensures
        r == (fold_lower_seq(s@) == t@),
{
    let a = chars_of(s);
    let b = chars_of(t);
    if a.len() != b.len() {
        proof {
            assert(fold_lower_seq(s@).len() != t@.len());
        }
        return false;
    }
    for i in 0..a.len()
        invariant
            a@ == s@,
            b@ == t@,
            a@.len() == b@.len(),
            forall|j: int| 0 <= j < i ==> fold_lower(a@[j]) == b@[j],
    {
        if to_fold_lower(a[i]) != b[i] {
            assert(fold_lower_seq(s@)[i as int] != t@[i as int]);
            return false;
        }
    }
    assert(fold_lower_seq(s@) =~= t@);
    true
}

pub fn opt_str_is(o: &Option<String>, t: &str) -> (r: bool)
    ensures
        r == (o is Some && o->0@ == t@),
{
    match o {
        Some(s) => str_eq(s.as_str(), t),
        None => false,
    }
}

pub open spec fn has_prefix(s: Seq<char>, p: Seq<char>) -> bool {
    p.len() <= s.len() && s.take(p.len() as int) == p
}

pub fn starts_with_at(s: &[char], start: usize, p: &[char]) -> (r: bool)
    requires
        start <= s@.len(),
    ensures
        r == has_prefix(s@.skip(start as int), p@),
{
    if p.len() > s.len() - start {
        return false;
    }
    let n = s.len();
    let mut i: usize = 0;
    while i < p.len()
        invariant
            n == s@.len(),
            i <= p@.len(),
            start + p@.len() <= s@.len(),
            forall|j: int| 0 <= j < i ==> s@[start + j] == p@[j],
        decreases p@.len() - i,
    {
        if s[start + i] != p[i] {
            assert(s@.skip(start as int).take(p@.len() as int)[i as int] != p@[i as int]);
            return false;
        }
        i = i + 1;
    }
    assert(s@.skip(start as int).take(p@.len() as int) =~= p@);
    true
}

pub fn starts_with(s: &str, p: &str) -> (r: bool)
    ensures
        r == has_prefix(s@, p@),
{
    let a = chars_of(s);
    let b = chars_of(p);
    let r = starts_with_at(a.as_slice(), 0, b.as_slice());
    assert(a@.skip(0) =~= a@);
    r
}

// ---------------------------------------------------------------
// Decimal numerals
// ---------------------------------------------------------------

pub open spec fn digit_char(d: nat) -> char {
    ((48 + d) as u8) as char
}

/// The decimal numeral of `n`, without leading zeros.
pub open spec fn decimal(n: nat) -> Seq<char>
    decreases n,
{
    if n < 10 {
        seq![digit_char(n)]
    } else {
        decimal(n / 10).push(digit_char(n % 10))
    }
}

pub fn push_decimal(s: &mut String, n: usize)
    ensures
        final(s)@ == old(s)@ + decimal(n as nat),
    decreases n,
{
    if n < 10 {
        let d = n as u8;
        push_char(s, (48u8 + d) as char);
        assert(old(s)@.push(digit_char(n as nat)) =~= old(s)@ + decimal(n as nat));
    } else {
        push_decimal(s, n / 10);
        let d = (n % 10) as u8;
        assert(d < 10);
        push_char(s, (48u8 + d) as char);
        assert(old(s)@ + decimal((n / 10) as nat) + seq![digit_char((n % 10) as nat)]
            =~= old(s)@ + decimal(n as nat));
    }
}

pub fn decimal_string(n: usize) -> (s: String)
    ensures
        s@ == decimal(n as nat),
{
    let mut s = String::new();
    push_decimal(&mut s, n);
    assert(Seq::<char>::empty() + decimal(n as nat) =~= decimal(n as nat));
    s
}

// ---------------------------------------------------------------
// Character-wise rewriting
// ---------------------------------------------------------------

/// The concatenation of `f(c)` over the characters `c` of `s`.
pub open spec fn flat_map(s: Seq<char>, f: spec_fn(char) -> Seq<char>) -> Seq<char>
    decreases s.len(),
{
    if s.len() == 0 {
        Seq::empty()
    } else {
        flat_map(s.drop_last(), f) + f(s.last())
    }
}

pub proof fn lemma_flat_map_push(s: Seq<char>, c: char, f: spec_fn(char) -> Seq<char>)
    ensures
        flat_map(s.push(c), f) == flat_map(s, f) + f(c),
{
    assert(s.push(c).drop_last() =~= s);
}

pub proof fn lemma_flat_map_take(s: Seq<char>, i: int, f: spec_fn(char) -> Seq<char>)
    requires
        0 <= i < s.len(),
    ensures
        flat_map(s.take(i + 1), f) == flat_map(s.take(i), f) + f(s[i]),
{
    assert(s.take(i + 1) =~= s.take(i).push(s[i]));
    lemma_flat_map_push(s.take(i), s[i], f);
}

pub proof fn lemma_flat_map_append(a: Seq<char>, b: Seq<char>, f: spec_fn(char) -> Seq<char>)
    ensures
        flat_map(a + b, f) == flat_map(a, f) + flat_map(b, f),
    decreases b.len(),
{
    if b.len() == 0 {
        assert(a + b =~= a);
        assert(flat_map(a, f) + Seq::empty() =~= flat_map(a, f));
    } else {
        lemma_flat_map_append(a, b.drop_last(), f);
        assert((a + b).drop_last() =~= a + b.drop_last());
        assert((a + b).last() == b.last());
        assert(flat_map(a, f) + flat_map(b.drop_last(), f) + f(b.last()) =~= flat_map(a, f) + (
        flat_map(b.drop_last(), f) + f(b.last())));
    }
}

/// Replacing every newline with the given text, as `str::replace` does
/// with a one-character pattern.
pub open spec fn newline_to(rep: Seq<char>) -> spec_fn(char) -> Seq<char> {
    |c: char| if c == '\n' { rep } else { seq![c] }
}

pub fn replace_newlines(s: &[char], rep: &str) -> (out: Vec<char>)
    ensures
        out@ == flat_map(s@, newline_to(rep@)),
{
    let r = chars_of(rep);
    let mut out: Vec<char> = Vec::new();
    for i in 0..s.len()
        invariant
            r@ == rep@,
            out@ == flat_map(s@.take(i as int), newline_to(rep@)),
    {
        proof {
            lemma_flat_map_take(s@, i as int, newline_to(rep@));
        }
        let c = s[i];
        if c == '\n' {
            let ghost before = out@;
            for j in 0..r.len()
                invariant
                    out@ == before + r@.take(j as int),
            {
                out.push(r[j]);
                assert(before + r@.take(j + 1) =~= (before + r@.take(j as int)).push(r@[j as int]));
            }
            assert(r@.take(r@.len() as int) =~= r@);
        } else {
            out.push(c);
            assert(out@ =~= flat_map(s@.take(i as int), newline_to(rep@)) + seq![c]);
        }
    }
    assert(s@.take(s@.len() as int) =~= s@);
    out
}

// ---------------------------------------------------------------
// Searching and replacing text
// ---------------------------------------------------------------

/// The first position at or after `i` where `p` occurs in `s`.
pub open spec fn find_from(s: Seq<char>, p: Seq<char>, i: int) -> Option<int>
    decreases s.len() - i,
{
    if i < 0 || i + p.len() > s.len() {
        None
    } else if p.len() == 0 || s.subrange(i, i + p.len()) == p {
        Some(i)
    } else {
        find_from(s, p, i + 1)
    }
}

pub open spec fn find(s: Seq<char>, p: Seq<char>) -> Option<int> {
    find_from(s, p, 0)
}

pub proof fn lemma_find_from_bounds(s: Seq<char>, p: Seq<char>, i: int)
    requires
        0 <= i,
    ensures
        find_from(s, p, i) matches Some(k) ==> i <= k && k + p.len() <= s.len() && s.subrange(
            k,
            k + p.len(),
        ) == p,
        find_from(s, p, i) is None ==> forall|k: int|
            i <= k && k + p.len() <= s.len() ==> #[trigger] s.subrange(k, k + p.len()) != p,
    decreases s.len() - i,
{
    if i + p.len() > s.len() {
    } else if p.len() == 0 {
        assert(s.subrange(i, i + p.len()) =~= p);
    } else if s.subrange(i, i + p.len()) == p {
    } else {
        lemma_find_from_bounds(s, p, i + 1);
        if find_from(s, p, i + 1) is None {
            assert forall|k: int| i <= k && k + p.len() <= s.len() implies #[trigger] s.subrange(
                k,
                k + p.len(),
            ) != p by {
                if k == i {
                }
            }
        }
    }
}

pub fn find_at(s: &[char], p: &[char], start: usize) -> (r: Option<usize>)
    requires
        start <= s@.len(),
    ensures
        match r {
            Some(k) => find_from(s@, p@, start as int) == Some(k as int),
            None => find_from(s@, p@, start as int) is None,
        },
{
    let mut i = start;
    while i <= s.len()
        invariant
            start <= i,
            i <= s@.len() + 1,
            find_from(s@, p@, start as int) == find_from(s@, p@, i as int),
        decreases s@.len() + 1 - i,
    {
        if p.len() > s.len() - i {
            return None;
        }
        let m = starts_with_at(s, i, p);
        proof {
            assert(s@.skip(i as int).take(p@.len() as int) =~= s@.subrange(
                i as int,
                i + p@.len(),
            ));
        }
        if m {
            return Some(i);
        }
        proof {
            if p@.len() == 0 {
                assert(s@.skip(i as int).take(0) =~= p@);
            }
        }
        i = i + 1;
    }
    None
}


// ---------------------------------------------------------------
// Value placeholders in a format
// ---------------------------------------------------------------

pub open spec fn value_close() -> Seq<char> {
    seq!['{', 'v', 'a', 'l', 'u', 'e', '}']
}

pub open spec fn value_open() -> Seq<char> {
    seq!['{', 'v', 'a', 'l', 'u', 'e', ':']
}

/// The length of the placeholder starting at `i`: `{value}`, or
/// `{value:...}` up to the first `}` (a format spec such as `,.2f`);
/// 0 where none starts.
pub open spec fn placeholder_at(f: Seq<char>, i: int) -> int {
    if 0 <= i <= f.len() && has_prefix(f.skip(i), value_close()) {
        7
    } else if 0 <= i <= f.len() && has_prefix(f.skip(i), value_open()) {
        match find_from(f, seq!['}'], i + 7) {
            Some(k) => if i + 7 <= k < f.len() {
                k + 1 - i
            } else {
                0
            },
            None => 0,
        }
    } else {
        0
    }
}

/// The format from position `i` on, each placeholder replaced by `v`.
pub open spec fn fill_from(f: Seq<char>, v: Seq<char>, i: int) -> Seq<char>
    decreases f.len() - i,
{
    if i < 0 || i >= f.len() {
        Seq::empty()
    } else if placeholder_at(f, i) > 0 {
        v + fill_from(f, v, i + placeholder_at(f, i))
    } else {
        seq![f[i]] + fill_from(f, v, i + 1)
    }
}

/// A cell format with every `{value}` or `{value:spec}` placeholder
/// replaced by the value (which comes formatted already).
pub open spec fn fill_value_spec(f: Seq<char>, v: Seq<char>) -> Seq<char> {
    fill_from(f, v, 0)
}

pub fn fill_value(format: &str, value: &str) -> (r: String)
    ensures
        r@ == fill_value_spec(format@, value@),
{
    let cs = chars_of(format);
    let close: Vec<char> = vec!['{', 'v', 'a', 'l', 'u', 'e', '}'];
    let open: Vec<char> = vec!['{', 'v', 'a', 'l', 'u', 'e', ':'];
    let brace: Vec<char> = vec!['}'];
    assert(close@ =~= value_close());
    assert(open@ =~= value_open());
    assert(brace@ =~= seq!['}']);
    let n = cs.len();
    let mut out = String::new();
    let mut i: usize = 0;
    while i < n
        invariant
            n == cs@.len(),
            cs@ == format@,
            i <= n,
            close@ == value_close(),
            open@ == value_open(),
            brace@ == seq!['}'],
            out@ + fill_from(format@, value@, i as int) == fill_from(format@, value@, 0),
        decreases n - i,
    {
        let ghost before = out@;
        if starts_with_at(cs.as_slice(), i, close.as_slice()) {
            push_str(&mut out, value);
            assert(placeholder_at(format@, i as int) == 7);
            assert(out@ + fill_from(format@, value@, i + 7) =~= before + fill_from(format@, value@, i as int));
            i = i + 7;
        } else {
            let mut step: usize = 0;
            if starts_with_at(cs.as_slice(), i, open.as_slice()) {
                proof {
                    lemma_find_from_bounds(cs@, brace@, i + 7);
                }
                match find_at(cs.as_slice(), brace.as_slice(), i + 7) {
                    Some(k) => {
                        step = k + 1 - i;
                    },
                    None => {},
                }
            }
            assert(step as int == placeholder_at(format@, i as int));
            if step > 0 {
                push_str(&mut out, value);
                assert(out@ + fill_from(format@, value@, i + step) =~= before + fill_from(format@, value@, i as int));
                i = i + step;
            } else {
                push_char(&mut out, cs[i]);
                assert(out@ + fill_from(format@, value@, i + 1) =~= before + fill_from(format@, value@, i as int));
                i = i + 1;
            }
        }
    }
    assert(fill_from(format@, value@, i as int) =~= Seq::<char>::empty());
    assert(out@ =~= out@ + fill_from(format@, value@, i as int));
    out
}

} // verus!
