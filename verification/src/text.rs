//! Character-level helpers shared by the rest of the library: Unicode
//! white space, trimming, ASCII lower-casing, and moving between `str`,
//! `String` and `Vec<char>`.

use vstd::prelude::*;

verus! {

broadcast use vstd::string::group_string_axioms;

/// The text of an optional string.
pub open spec fn opt_text(o: Option<String>) -> Option<Seq<char>> {
    match o {
        Some(s) => Some(s@),
        None => None,
    }
}

/// The Unicode `White_Space` property, which `char::is_whitespace` and
/// `str::trim` go by.
pub open spec fn is_white_space(c: char) -> bool {
    let u = c as u32;
    ||| 0x09 <= u <= 0x0D
    ||| u == 0x20
    ||| u == 0x85
    ||| u == 0xA0
    ||| u == 0x1680
    ||| 0x2000 <= u <= 0x200A
    ||| u == 0x2028
    ||| u == 0x2029
    ||| u == 0x202F
    ||| u == 0x205F
    ||| u == 0x3000
}

/// `s` without its leading white space.
pub open spec fn trim_start(s: Seq<char>) -> Seq<char>
    decreases s.len(),
{
    if s.len() > 0 && is_white_space(s[0]) {
        trim_start(s.drop_first())
    } else {
        s
    }
}

/// `s` without its trailing white space.
pub open spec fn trim_end(s: Seq<char>) -> Seq<char>
    decreases s.len(),
{
    if s.len() > 0 && is_white_space(s.last()) {
        trim_end(s.drop_last())
    } else {
        s
    }
}

/// `s` without leading and trailing white space, as `str::trim` gives it.
pub open spec fn trim(s: Seq<char>) -> Seq<char> {
    trim_end(trim_start(s))
}

/// `s` without its trailing `/` characters.
pub open spec fn trim_end_slashes(s: Seq<char>) -> Seq<char>
    decreases s.len(),
{
    if s.len() > 0 && s.last() == '/' {
        trim_end_slashes(s.drop_last())
    } else {
        s
    }
}

/// `c` with `A`..`Z` mapped to `a`..`z`.
pub open spec fn ascii_lower_char(c: char) -> char {
    if 'A' <= c <= 'Z' {
        ((c as u32) + 32) as char
    } else {
        c
    }
}

/// `s` with every ASCII capital mapped to its small letter.
pub open spec fn ascii_lower(s: Seq<char>) -> Seq<char> {
    s.map_values(|c: char| ascii_lower_char(c))
}

/// Whether `c` is white space, as `char::is_whitespace` decides it.
pub fn is_whitespace_char(c: char) -> (r: bool)
    ensures
        r == is_white_space(c),
{
    let u = c as u32;
    (0x09 <= u && u <= 0x0D) || u == 0x20 || u == 0x85 || u == 0xA0 || u == 0x1680 || (0x2000
        <= u && u <= 0x200A) || u == 0x2028 || u == 0x2029 || u == 0x202F || u == 0x205F || u
        == 0x3000
}

/// The characters of `s`, in order.
pub fn chars_of(s: &str) -> (v: Vec<char>)
    ensures
        v@ == s@,
{
    let mut v: Vec<char> = Vec::new();
    for c in it: s.chars()
        invariant
            v@ == it.seq().take(it.index() as int),
            it.seq() == s@,
    {
        v.push(c);
    }
    v
}

/// Appends `c` to `s` (`String::push`).
#[verifier::external_body]
fn push_char(s: &mut String, c: char)
    ensures
        final(s)@ == old(s)@.push(c),
{
    s.push(c)
}

/// The string made of the characters of `v`.
pub fn string_of(v: &Vec<char>) -> (s: String)
    ensures
        s@ == v@,
{
    let mut s = String::new();
    let mut i: usize = 0;
    while i < v.len()
        invariant
            i <= v.len(),
            s@ == v@.take(i as int),
        decreases v.len() - i,
    {
        push_char(&mut s, v[i]);
        i += 1;
        assert(s@ =~= v@.take(i as int));
    }
    assert(v@.take(v.len() as int) =~= v@);
    s
}

/// The characters of `v` from `lo` up to `hi`.
pub fn sub_chars(v: &Vec<char>, lo: usize, hi: usize) -> (r: Vec<char>)
    requires
        lo <= hi <= v.len(),
    ensures
        r@ == v@.subrange(lo as int, hi as int),
{
    let mut r: Vec<char> = Vec::new();
    let mut i: usize = lo;
    while i < hi
        invariant
            lo <= i <= hi <= v.len(),
            r@ == v@.subrange(lo as int, i as int),
        decreases hi - i,
    {
        r.push(v[i]);
        i += 1;
        assert(r@ =~= v@.subrange(lo as int, i as int));
    }
    r
}

proof fn lemma_trim_start_step(s: Seq<char>, lo: int)
    requires
        0 <= lo < s.len(),
        is_white_space(s[lo]),
    ensures
        trim_start(s.subrange(lo, s.len() as int)) == trim_start(s.subrange(lo + 1, s.len() as int)),
{
    assert(s.subrange(lo, s.len() as int).drop_first() =~= s.subrange(lo + 1, s.len() as int));
}

proof fn lemma_trim_end_step(s: Seq<char>, lo: int, hi: int)
    requires
        0 <= lo < hi <= s.len(),
        is_white_space(s[hi - 1]),
    ensures
        trim_end(s.subrange(lo, hi)) == trim_end(s.subrange(lo, hi - 1)),
{
    assert(s.subrange(lo, hi).drop_last() =~= s.subrange(lo, hi - 1));
}

/// The characters of `v` without leading and trailing white space.
pub fn trim_chars(v: &Vec<char>) -> (r: Vec<char>)
    ensures
        r@ == trim(v@),
{
    let n = v.len();
    let mut lo: usize = 0;
    assert(v@.subrange(0, n as int) =~= v@);
    while lo < n && is_whitespace_char(v[lo])
        invariant
            lo <= n == v.len(),
            trim_start(v@.subrange(lo as int, n as int)) == trim_start(v@),
        decreases n - lo,
    {
        proof {
            lemma_trim_start_step(v@, lo as int);
        }
        lo += 1;
    }
    assert(trim_start(v@) == v@.subrange(lo as int, n as int));
    let mut hi: usize = n;
    while hi > lo && is_whitespace_char(v[hi - 1])
        invariant
            lo <= hi <= n == v.len(),
            trim_end(v@.subrange(lo as int, hi as int)) == trim(v@),
            trim_start(v@) == v@.subrange(lo as int, n as int),
        decreases hi - lo,
    {
        proof {
            lemma_trim_end_step(v@, lo as int, hi as int);
        }
        hi -= 1;
    }
    sub_chars(v, lo, hi)
}

/// `s` without leading and trailing white space (`str::trim`).
pub fn trim_str(s: &str) -> (r: Vec<char>)
    ensures
        r@ == trim(s@),
{
    let v = chars_of(s);
    trim_chars(&v)
}

/// Whether `a` and `b` hold the same characters.
pub fn same_chars(a: &Vec<char>, b: &Vec<char>) -> (r: bool)
    ensures
        r == (a@ == b@),
{
    if a.len() != b.len() {
        return false;
    }
    let mut i: usize = 0;
    while i < a.len()
        invariant
            i <= a.len() == b.len(),
            forall|j: int| 0 <= j < i ==> a@[j] == b@[j],
        decreases a.len() - i,
    {
        if a[i] != b[i] {
            return false;
        }
        i += 1;
    }
    assert(a@ =~= b@);
    true
}

/// Whether `v` holds the characters of `s`.
pub fn is_text(v: &Vec<char>, s: &str) -> (r: bool)
    ensures
        r == (v@ == s@),
{
    let w = chars_of(s);
    same_chars(v, &w)
}

/// `v` with every ASCII capital mapped to its small letter
/// (`str::to_ascii_lowercase`).
pub fn ascii_lower_chars(v: &Vec<char>) -> (r: Vec<char>)
    ensures
        r@ == ascii_lower(v@),
{
    let mut r: Vec<char> = Vec::new();
    let mut i: usize = 0;
    while i < v.len()
        invariant
            i <= v.len(),
            r@ == ascii_lower(v@.take(i as int)),
        decreases v.len() - i,
    {
        let c = v[i];
        let l = if 'A' <= c && c <= 'Z' {
            char_from_ascii_code((c as u32) + 32)
        } else {
            c
        };
        r.push(l);
        i += 1;
        assert(r@ =~= ascii_lower(v@.take(i as int)));
    }
    assert(v@.take(v.len() as int) =~= v@);
    r
}

fn char_from_ascii_code(code: u32) -> (c: char)
    requires
        0x61 <= code <= 0x7A,
    ensures
        c == code as char,
{
    let b = code as u8;
    b as char
}

/// `trim_end_slashes` leaves no `/` at the end.
pub proof fn lemma_trim_end_slashes(s: Seq<char>)
    ensures
        trim_end_slashes(s).len() == 0 || trim_end_slashes(s).last() != '/',
        trim_end_slashes(s).len() <= s.len(),
    decreases s.len(),
{
    if s.len() > 0 && s.last() == '/' {
        lemma_trim_end_slashes(s.drop_last());
    }
}

/// `v` without its trailing `/` characters (`str::trim_end_matches('/')`).
pub fn trim_end_slashes_chars(v: &Vec<char>) -> (r: Vec<char>)
    ensures
        r@ == trim_end_slashes(v@),
{
    let mut hi: usize = v.len();
    assert(v@.subrange(0, hi as int) =~= v@);
    while hi > 0 && v[hi - 1] == '/'
        invariant
            hi <= v.len(),
            trim_end_slashes(v@.subrange(0, hi as int)) == trim_end_slashes(v@),
        decreases hi,
    {
        assert(v@.subrange(0, hi as int).drop_last() =~= v@.subrange(0, hi - 1));
        hi -= 1;
    }
    sub_chars(v, 0, hi)
}

} // verus!
