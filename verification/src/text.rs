//! Character-level helpers over `String` and `&str`, with their spec meaning.
//!
//! Case conversion follows Unicode through std's `char` and `str` methods;
//! their results are named here and each std call sits in one small wrapper.

use vstd::prelude::*;
use vstd::string::StringExecFns;

verus! {

broadcast use vstd::string::group_string_axioms;

/// Whether `c` has the Unicode `Uppercase` property, as `char::is_uppercase` decides it.
pub uninterp spec fn char_is_uppercase(c: char) -> bool;

/// The characters that `char::to_lowercase` yields for `c`.
pub uninterp spec fn char_lowercase(c: char) -> Seq<char>;

/// The characters of `str::to_lowercase` applied to a string made of `s`.
pub uninterp spec fn str_lowercase(s: Seq<char>) -> Seq<char>;

/// ASCII letters `'a'..='z'`.
pub open spec fn is_ascii_lower(c: char) -> bool {
    'a' <= c && c <= 'z'
}

pub open spec fn is_ascii_char(c: char) -> bool {
    (c as u32) < 128
}

/// `c` lowercased by the ASCII table: `'A'..='Z'` to `'a'..='z'`, anything else unchanged.
pub open spec fn ascii_lower_char(c: char) -> char {
    if 'A' <= c && c <= 'Z' {
        ((c as u32) + 32) as char
    } else {
        c
    }
}

/// Whether `c` is uppercase: on ASCII exactly `'A'..='Z'`, elsewhere as std's
/// Unicode tables say.
pub open spec fn is_upper_char(c: char) -> bool {
    if is_ascii_char(c) {
        'A' <= c && c <= 'Z'
    } else {
        char_is_uppercase(c)
    }
}

/// The lowercase form of `c`: on ASCII the one character [`ascii_lower_char`],
/// elsewhere as std's Unicode tables say.
pub open spec fn lower_chars(c: char) -> Seq<char> {
    if is_ascii_char(c) {
        seq![ascii_lower_char(c)]
    } else {
        char_lowercase(c)
    }
}

/// Whether every character of `s` is ASCII.
pub open spec fn is_ascii_text(s: Seq<char>) -> bool {
    forall|i: int| 0 <= i < s.len() ==> is_ascii_char(#[trigger] s[i])
}

/// The lowercase form of a text: on ASCII text each character by
/// [`ascii_lower_char`], elsewhere as std's Unicode tables say.
pub open spec fn lower_text(s: Seq<char>) -> Seq<char> {
    if is_ascii_text(s) {
        s.map_values(|c: char| ascii_lower_char(c))
    } else {
        str_lowercase(s)
    }
}

/// `char::is_uppercase` from std. The contract names the result and states
/// what Unicode's `Uppercase` property is on ASCII: the letters `'A'..='Z'`.
#[verifier::external_body]
pub(crate) fn is_uppercase(c: char) -> (r: bool)
    ensures
        r == char_is_uppercase(c),
        is_ascii_char(c) ==> (r <==> ('A' <= c && c <= 'Z')),
{
    c.is_uppercase()
}

/// `std::char::ToLowercase`, the iterator `char::to_lowercase` returns.
#[verifier::external_type_specification]
#[verifier::external_body]
pub struct ExToLowercase(std::char::ToLowercase);

/// The characters a `ToLowercase` iterator has yet to yield.
pub uninterp spec fn lowercase_rest(it: std::char::ToLowercase) -> Seq<char>;

/// `char::to_lowercase` from std. The iterator yields the characters named
/// [`char_lowercase`]; on ASCII that is the one character the ASCII table
/// gives (a character without a lowercase mapping yields itself).
#[verifier::external_body]
fn to_lowercase(c: char) -> (r: std::char::ToLowercase)
    ensures
        lowercase_rest(r) == char_lowercase(c),
        is_ascii_char(c) ==> lowercase_rest(r) == seq![ascii_lower_char(c)],
{
    c.to_lowercase()
}

/// `Iterator::next` on a `ToLowercase`: yields its next character, or `None`
/// once all are yielded.
#[verifier::external_body]
fn next_lowercase(it: &mut std::char::ToLowercase) -> (r: Option<char>)
    ensures
        lowercase_rest(*old(it)).len() == 0 ==> r is None && lowercase_rest(*final(it)).len()
            == 0,
        lowercase_rest(*old(it)).len() > 0 ==> r == Some(lowercase_rest(*old(it))[0])
            && lowercase_rest(*final(it)) == lowercase_rest(*old(it)).drop_first(),
{
    it.next()
}

/// The lowercase form of `c` as a `String`: the characters `char::to_lowercase` yields.
pub(crate) fn lowercase_of(c: char) -> (r: String)
    ensures
        r@ == char_lowercase(c),
        r@ == lower_chars(c),
{
    let mut it = to_lowercase(c);
    let ghost all = lowercase_rest(it);
    let mut out = String::new();
    loop
        invariant
            out@ + lowercase_rest(it) == all,
            all == char_lowercase(c),
            is_ascii_char(c) ==> all == seq![ascii_lower_char(c)],
        ensures
            out@ == all,
        decreases lowercase_rest(it).len(),
    {
        let ghost before = lowercase_rest(it);
        match next_lowercase(&mut it) {
            Some(ch) => {
                push_char(&mut out, ch);
                assert(out@ + lowercase_rest(it) =~= all) by {
                    assert(before =~= seq![ch] + before.drop_first());
                }
            },
            None => {
                assert(out@ =~= all);
                break;
            },
        }
    }
    out
}

/// `str::to_lowercase` from std. The contract names the result and states it
/// on ASCII text, where each letter `'A'..='Z'` becomes `'a'..='z'` and every
/// other character, having no lowercase mapping, stays.
#[verifier::external_body]
pub(crate) fn str_to_lowercase(s: &str) -> (r: String)
    ensures
        r@ == str_lowercase(s@),
        r@ == lower_text(s@),
{
    s.to_lowercase()
}

/// `String::push` from std: appends one character.
#[verifier::external_body]
pub(crate) fn push_char(s: &mut String, c: char)
    ensures
        final(s)@ == old(s)@.push(c),
{
    s.push(c);
}

/// The characters of `s`, in order.
pub fn chars_of(s: &str) -> (res: Vec<char>)
    ensures
        res@ == s@,
{
    let mut res: Vec<char> = Vec::new();
    for c in it: s.chars()
        invariant
            it.seq() == s@,
            res@ == it.seq().take(it.index() as int),
    {
        res.push(c);
    }
    res
}

/// A fresh `String` holding the characters of `s`.
pub fn string_of(s: &str) -> (res: String)
    ensures
        res@ == s@,
{
    String::from_str(s)
}

/// `parts` joined with `sep` between neighbours.
pub open spec fn join(parts: Seq<Seq<char>>, sep: Seq<char>) -> Seq<char>
    decreases parts.len(),
{
    if parts.len() == 0 {
        Seq::empty()
    } else if parts.len() == 1 {
        parts[0]
    } else {
        join(parts.drop_last(), sep) + sep + parts.last()
    }
}

/// Every occurrence of `from` in `s` replaced by `to`.
pub open spec fn replace_char(s: Seq<char>, from: char, to: char) -> Seq<char> {
    s.map_values(|c: char| if c == from { to } else { c })
}

/// `s` with ASCII lowercase letters mapped to uppercase, as `str::to_ascii_uppercase` does.
pub open spec fn ascii_uppercase(s: Seq<char>) -> Seq<char> {
    s.map_values(|c: char| if is_ascii_lower(c) { ((c as u32) - 32) as char } else { c })
}

/// `s` without its leading occurrences of `c`.
pub open spec fn trim_start(s: Seq<char>, c: char) -> Seq<char>
    decreases s.len(),
{
    if s.len() > 0 && s[0] == c {
        trim_start(s.drop_first(), c)
    } else {
        s
    }
}

/// `s` without its trailing occurrences of `c`.
pub open spec fn trim_end(s: Seq<char>, c: char) -> Seq<char>
    decreases s.len(),
{
    if s.len() > 0 && s.last() == c {
        trim_end(s.drop_last(), c)
    } else {
        s
    }
}

/// `s.replace(from, to)` for single characters: a copy of `s` with each `from` turned into `to`.
pub fn replace_char_exec(s: &str, from: char, to: char) -> (res: String)
    ensures
        res@ == replace_char(s@, from, to),
{
    let chars = chars_of(s);
    let mut res = String::new();
    let mut i: usize = 0;
    while i < chars.len()
        invariant
            i <= chars@.len(),
            chars@ == s@,
            res@ == replace_char(s@.take(i as int), from, to),
        decreases chars@.len() - i,
    {
        let c = chars[i];
        if c == from {
            push_char(&mut res, to);
        } else {
            push_char(&mut res, c);
        }
        assert(replace_char(s@.take(i + 1), from, to) =~= replace_char(s@.take(i as int), from, to).push(
            if c == from { to } else { c },
        ));
        i = i + 1;
    }
    assert(s@.take(chars@.len() as int) =~= s@);
    res
}

/// `str::to_ascii_uppercase`: ASCII lowercase letters become uppercase, all else stays.
pub fn to_ascii_uppercase(s: &str) -> (res: String)
    ensures
        res@ == ascii_uppercase(s@),
{
    let chars = chars_of(s);
    let mut res = String::new();
    let mut i: usize = 0;
    while i < chars.len()
        invariant
            i <= chars@.len(),
            chars@ == s@,
            res@ == ascii_uppercase(s@.take(i as int)),
        decreases chars@.len() - i,
    {
        let c = chars[i];
        let d = if 'a' <= c && c <= 'z' {
            ((c as u8) - 32) as char
        } else {
            c
        };
        proof {
            if is_ascii_lower(c) {
                assert(((c as u8) - 32) as char == ((c as u32) - 32) as char);
            }
        }
        push_char(&mut res, d);
        assert(ascii_uppercase(s@.take(i + 1)) =~= ascii_uppercase(s@.take(i as int)).push(d));
        i = i + 1;
    }
    assert(s@.take(chars@.len() as int) =~= s@);
    res
}

/// Index of the first character of `chars` that is not `c`, or the length.
fn skip_leading(chars: &Vec<char>, c: char) -> (k: usize)
    ensures
        k <= chars@.len(),
        trim_start(chars@, c) == chars@.skip(k as int),
{
    let mut k: usize = 0;
    assert(chars@.skip(0) =~= chars@);
    while k < chars.len() && chars[k] == c
        invariant
            k <= chars@.len(),
            trim_start(chars@, c) == trim_start(chars@.skip(k as int), c),
        decreases chars@.len() - k,
    {
        assert(chars@.skip(k as int).drop_first() =~= chars@.skip(k + 1));
        k = k + 1;
    }
    k
}

/// `trim_end` of a suffix of a sequence.
proof fn lemma_trim_end_prefix(s: Seq<char>, c: char, n: int)
    requires
        0 <= n <= s.len(),
        forall|j: int| n <= j < s.len() ==> s[j] == c,
    ensures
        trim_end(s, c) == trim_end(s.take(n), c),
    decreases s.len() - n,
{
    if n < s.len() {
        assert(s.drop_last().take(n) =~= s.take(n));
        lemma_trim_end_prefix(s.drop_last(), c, n);
    } else {
        assert(s.take(n) =~= s);
    }
}

/// `s.trim_start_matches(c).trim_end_matches(c)` as the characters that remain.
pub fn trim_matches(s: &str, c: char) -> (res: Vec<char>)
    ensures
        res@ == trim_end(trim_start(s@, c), c),
{
    let chars = chars_of(s);
    let k: usize = skip_leading(&chars, c);
    let mut e: usize = chars.len();
    while e > k && chars[e - 1] == c
        invariant
            k <= e <= chars@.len(),
            forall|j: int| e <= j < chars@.len() ==> chars@[j] == c,
        decreases e,
    {
        e = e - 1;
    }
    let ghost t = chars@.skip(k as int);
    proof {
        lemma_trim_end_prefix(t, c, e - k);
        assert(t.take(e - k) =~= chars@.subrange(k as int, e as int));
        let u = chars@.subrange(k as int, e as int);
        if u.len() > 0 {
            assert(u.last() == chars@[e - 1]);
        }
    }
    let mut res: Vec<char> = Vec::new();
    let mut i: usize = k;
    while i < e
        invariant
            k <= i <= e <= chars@.len(),
            res@ == chars@.subrange(k as int, i as int),
        decreases e - i,
    {
        res.push(chars[i]);
        assert(chars@.subrange(k as int, i + 1) =~= chars@.subrange(k as int, i as int).push(
            chars@[i as int],
        ));
        i = i + 1;
    }
    res
}

/// Whether `a` and `b` hold the same characters.
pub fn str_eq(a: &str, b: &str) -> (r: bool)
    ensures
        r == (a@ == b@),
{
    let x = chars_of(a);
    let y = chars_of(b);
    if x.len() != y.len() {
        return false;
    }
    let mut i: usize = 0;
    while i < x.len()
        invariant
            x@ == a@,
            y@ == b@,
            x@.len() == y@.len(),
            i <= x@.len(),
            forall|j: int| 0 <= j < i ==> x@[j] == y@[j],
        decreases x@.len() - i,
    {
        if x[i] != y[i] {
            return false;
        }
        i = i + 1;
    }
    assert(a@ =~= b@);
    true
}

/// The strings' characters.
pub open spec fn views(parts: Seq<String>) -> Seq<Seq<char>> {
    parts.map_values(|s: String| s@)
}

/// `parts.join(sep)`.
pub fn join_strings(parts: &Vec<String>, sep: &str) -> (r: String)
    ensures
        r@ == join(views(parts@), sep@),
{
    let mut r = String::new();
    let mut i: usize = 0;
    while i < parts.len()
        invariant
            i <= parts@.len(),
            r@ == join(views(parts@.take(i as int)), sep@),
        decreases parts@.len() - i,
    {
        if i > 0 {
            r.append(sep);
        }
        r.append(parts[i].as_str());
        assert(views(parts@.take(i + 1)).drop_last() =~= views(parts@.take(i as int)));
        i = i + 1;
    }
    assert(parts@.take(parts@.len() as int) =~= parts@);
    r
}

} // verus!
