use vstd::prelude::*;
use vstd::string::StringSliceAdditionalSpecFns;

verus! {

/// Collects chars into a `String` (std's `FromIterator<char> for String`):
/// the string holds exactly the given chars, in order.
#[verifier::external_body]
pub(crate) fn string_from_chars(chars: &Vec<char>) -> (s: String)
    ensures
        s@ == chars@,
{
    chars.iter().collect()
}

/// The chars of a string slice, in order (std's `str::chars`, collected).
#[verifier::external_body]
pub(crate) fn chars_of(s: &str) -> (v: Vec<char>)
    ensures
        v@ == s@,
{
    s.chars().collect()
}

} // verus!

verus! {

/// The ASCII lowercase of a char: `A`..=`Z` become `a`..=`z`, every other
/// char stays.
pub open spec fn ascii_lower(c: char) -> char {
    if 'A' <= c <= 'Z' {
        ((c as u32) + 32) as char
    } else {
        c
    }
}

/// `char::is_alphanumeric` (Unicode Alphabetic or Numeric).
pub uninterp spec fn char_is_alphanumeric(c: char) -> bool;

/// `char::is_alphanumeric`.
#[verifier::external_body]
pub(crate) fn is_alphanumeric(c: char) -> (r: bool)
    ensures
        r == char_is_alphanumeric(c),
{
    c.is_alphanumeric()
}

/// `char::is_whitespace`: the char has the Unicode White_Space property.
pub open spec fn char_is_whitespace(c: char) -> bool {
    let u = c as u32;
    ||| 0x09 <= u <= 0x0d
    ||| u == 0x20
    ||| u == 0x85
    ||| u == 0xa0
    ||| u == 0x1680
    ||| 0x2000 <= u <= 0x200a
    ||| u == 0x2028
    ||| u == 0x2029
    ||| u == 0x202f
    ||| u == 0x205f
    ||| u == 0x3000
}

/// Whether a char is whitespace (Unicode White_Space).
pub fn is_whitespace(c: char) -> (r: bool)
    ensures
        r == char_is_whitespace(c),
{
    let u = c as u32;
    (0x09 <= u && u <= 0x0d) || u == 0x20 || u == 0x85 || u == 0xa0 || u == 0x1680 || (0x2000
        <= u && u <= 0x200a) || u == 0x2028 || u == 0x2029 || u == 0x202f || u == 0x205f || u
        == 0x3000
}

/// Two char sequences are equal.
pub fn chars_equal(a: &Vec<char>, b: &Vec<char>) -> (r: bool)
    ensures
        r == (a@ == b@),
{
    if a.len() != b.len() {
        return false;
    }
    let mut i: usize = 0;
    while i < a.len()
        invariant
            i <= a@.len(),
            a@.len() == b@.len(),
            forall|k: int| 0 <= k < i ==> a@[k] == b@[k],
        decreases a@.len() - i,
    {
        if a[i] != b[i] {
            return false;
        }
        i = i + 1;
    }
    assert(a@ =~= b@);
    true
}

} // verus!

verus! {

/// `str`'s `==`: the two strings hold the same chars.
#[verifier::external_body]
pub(crate) fn str_eq(a: &str, b: &str) -> (r: bool)
    ensures
        r == (a@ == b@),
{
    a == b
}

/// The views of a sequence of strings.
pub open spec fn strs(v: Seq<String>) -> Seq<Seq<char>> {
    v.map_values(|s: String| s@)
}

pub open spec fn trim_start(l: Seq<char>) -> Seq<char>
    decreases l.len(),
{
    if l.len() > 0 && char_is_whitespace(l[0]) {
        trim_start(l.drop_first())
    } else {
        l
    }
}

pub open spec fn trim_end(l: Seq<char>) -> Seq<char>
    decreases l.len(),
{
    if l.len() > 0 && char_is_whitespace(l.last()) {
        trim_end(l.drop_last())
    } else {
        l
    }
}

/// Text without its leading and trailing whitespace.
pub open spec fn trimmed(l: Seq<char>) -> Seq<char> {
    trim_end(trim_start(l))
}

pub open spec fn starts_with(t: Seq<char>, p: Seq<char>) -> bool {
    p.len() <= t.len() && t.take(p.len() as int) == p
}

pub fn prefixed(t: &Vec<char>, p: &Vec<char>) -> (r: bool)
    ensures
        r == starts_with(t@, p@),
{
    if p.len() > t.len() {
        return false;
    }
    let mut i: usize = 0;
    while i < p.len()
        invariant
            p@.len() <= t@.len(),
            i <= p@.len(),
            forall|k: int| 0 <= k < i ==> t@[k] == p@[k],
        decreases p@.len() - i,
    {
        if t[i] != p[i] {
            assert(t@.take(p@.len() as int)[i as int] != p@[i as int]);
            return false;
        }
        i = i + 1;
    }
    assert(t@.take(p@.len() as int) =~= p@);
    true
}

pub fn prefixed_str(t: &Vec<char>, p: &str) -> (r: bool)
    ensures
        r == starts_with(t@, p@),
{
    let pc = chars_of(p);
    prefixed(t, &pc)
}

pub fn trim_chars(l: &Vec<char>) -> (r: Vec<char>)
    ensures
        r@ == trimmed(l@),
{
    let mut a: usize = 0;
    assert(l@.skip(0) =~= l@);
    while a < l.len() && is_whitespace(l[a])
        invariant
            a <= l@.len(),
            trim_start(l@) == trim_start(l@.skip(a as int)),
        decreases l@.len() - a,
    {
        assert(l@.skip(a as int).drop_first() =~= l@.skip(a + 1));
        a = a + 1;
    }
    assert(trim_start(l@) == l@.skip(a as int));
    let mut b: usize = l.len();
    while b > a && is_whitespace(l[b - 1])
        invariant
            a <= b <= l@.len(),
            trim_end(l@.skip(a as int)) == trim_end(l@.subrange(a as int, b as int)),
        decreases b,
    {
        assert(l@.subrange(a as int, b as int).drop_last() =~= l@.subrange(a as int, b - 1));
        b = b - 1;
    }
    assert(l@.skip(a as int) =~= l@.subrange(a as int, l@.len() as int));
    let mut r: Vec<char> = Vec::new();
    let mut k: usize = a;
    while k < b
        invariant
            a <= k <= b <= l@.len(),
            r@ == l@.subrange(a as int, k as int),
        decreases b - k,
    {
        r.push(l[k]);
        k = k + 1;
        assert(r@ =~= l@.subrange(a as int, k as int));
    }
    r
}

/// `str::to_lowercase`: the lowercase of a text (Unicode, where a char may
/// become several).
pub uninterp spec fn str_lowercase(s: Seq<char>) -> Seq<char>;

/// `str::to_lowercase`. Its documentation defines it by the Unicode
/// lowercase mapping; on ASCII text that mapping is the ASCII one, char for
/// char.
#[verifier::external_body]
pub(crate) fn str_to_lowercase(s: &str) -> (r: String)
    ensures
        r@ == str_lowercase(s@),
        vstd::utf8::is_ascii_chars(s@) ==> r@ == s@.map_values(|c: char| ascii_lower(c)),
{
    s.to_lowercase()
}

/// `std::str::from_utf8`: the bytes read as text, when they are valid
/// UTF-8; the text's encoding is the bytes.
#[verifier::external_body]
pub(crate) fn str_from_utf8(b: &[u8]) -> (r: Option<&str>)
    ensures
        r is Some <==> vstd::utf8::valid_utf8(b@),
        r matches Some(s) ==> s.spec_bytes() == b@,
{
    std::str::from_utf8(b).ok()
}

} // verus!
