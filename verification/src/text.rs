//! Small operations on text: comparison, search, trimming and the decimal
//! spelling of integers.
use vstd::prelude::*;
use vstd::std_specs::iter::IteratorSpec;

verus! {

/// `String::push` appends one character.
pub assume_specification[ String::push ](s: &mut String, ch: char)
    ensures
        final(s)@ == old(s)@.push(ch),
;

/// The characters of a text, in order.
pub fn chars_of(s: &str) -> (r: Vec<char>)
    ensures
        r@ == s@,
{
    let mut out: Vec<char> = Vec::new();
    for c in it: s.chars()
        invariant
            out@ == it.seq().take(it.index() as int),
    {
        out.push(c);
    }
    assert(out@ =~= s@);
    out
}

pub fn string_from_chars(cs: &Vec<char>) -> (r: String)
    ensures
        r@ == cs@,
{
    let mut out = String::new();
    let mut i: usize = 0;
    while i < cs.len()
        invariant
            i <= cs.len(),
            out@ == cs@.subrange(0, i as int),
        decreases cs.len() - i,
    {
        out.push(cs[i]);
        i = i + 1;
        assert(out@ =~= cs@.subrange(0, i as int));
    }
    assert(cs@.subrange(0, cs.len() as int) =~= cs@);
    out
}

/// The two texts are equal.
pub fn str_eq(a: &str, b: &str) -> (r: bool)
    ensures
        r == (a@ == b@),
{
    let ca = chars_of(a);
    let cb = chars_of(b);
    if ca.len() != cb.len() {
        return false;
    }
    let mut i: usize = 0;
    while i < ca.len()
        invariant
            ca@ == a@,
            cb@ == b@,
            ca.len() == cb.len(),
            i <= ca.len(),
            forall|j: int| 0 <= j < i ==> ca@[j] == cb@[j],
        decreases ca.len() - i,
    {
        if ca[i] != cb[i] {
            return false;
        }
        i = i + 1;
    }
    assert(a@ =~= b@);
    true
}

pub open spec fn has_prefix(s: Seq<char>, p: Seq<char>) -> bool {
    p.len() <= s.len() && s.subrange(0, p.len() as int) == p
}

pub open spec fn has_suffix(s: Seq<char>, p: Seq<char>) -> bool {
    p.len() <= s.len() && s.subrange(s.len() - p.len(), s.len() as int) == p
}

/// `pat` occurs in `s` starting at position `i`.
pub open spec fn occurs_at(s: Seq<char>, pat: Seq<char>, i: int) -> bool {
    0 <= i && i + pat.len() <= s.len() && s.subrange(i, i + pat.len()) == pat
}

pub open spec fn has_substring(s: Seq<char>, pat: Seq<char>) -> bool {
    exists|i: int| occurs_at(s, pat, i)
}

fn chars_match_at(s: &Vec<char>, pat: &Vec<char>, start: usize) -> (r: bool)
    requires
        start + pat.len() <= s.len(),
    ensures
        r == (s@.subrange(start as int, start + pat.len()) == pat@),
{
    let mut j: usize = 0;
    while j < pat.len()
        invariant
            start + pat.len() <= s.len(),
            j <= pat.len(),
            forall|k: int| 0 <= k < j ==> s@[start + k] == pat@[k],
        decreases pat.len() - j,
    {
        if s[start + j] != pat[j] {
            assert(s@.subrange(start as int, start + pat.len())[j as int] != pat@[j as int]);
            return false;
        }
        j = j + 1;
    }
    assert(s@.subrange(start as int, start + pat.len()) =~= pat@);
    true
}

/// `str::starts_with`.
pub fn starts_with(s: &str, prefix: &str) -> (r: bool)
    ensures
        r == has_prefix(s@, prefix@),
{
    let cs = chars_of(s);
    let cp = chars_of(prefix);
    if cp.len() > cs.len() {
        return false;
    }
    chars_match_at(&cs, &cp, 0)
}

/// `str::ends_with`.
pub fn ends_with(s: &str, suffix: &str) -> (r: bool)
    ensures
        r == has_suffix(s@, suffix@),
{
    let cs = chars_of(s);
    let cp = chars_of(suffix);
    if cp.len() > cs.len() {
        return false;
    }
    chars_match_at(&cs, &cp, cs.len() - cp.len())
}

/// `str::contains` for a text pattern.
pub fn contains(s: &str, pat: &str) -> (r: bool)
    ensures
        r == has_substring(s@, pat@),
{
    let cs = chars_of(s);
    let cp = chars_of(pat);
    if cp.len() > cs.len() {
        assert forall|i: int| !occurs_at(s@, pat@, i) by {}
        return false;
    }
    if cp.len() == 0 {
        assert(s@.subrange(0, 0) =~= pat@);
        assert(occurs_at(s@, pat@, 0));
        return true;
    }
    let mut i: usize = 0;
    while i <= cs.len() - cp.len()
        invariant
            cs@ == s@,
            cp@ == pat@,
            0 < cp.len() <= cs.len(),
            i <= cs.len() - cp.len() + 1,
            forall|k: int| 0 <= k < i ==> !occurs_at(s@, pat@, k),
        decreases cs.len() - i,
    {
        if chars_match_at(&cs, &cp, i) {
            assert(occurs_at(s@, pat@, i as int));
            return true;
        }
        i = i + 1;
    }
    assert forall|k: int| !occurs_at(s@, pat@, k) by {}
    false
}

/// Rust's `char::is_whitespace`: the Unicode `White_Space` property.
pub open spec fn is_white_space(c: char) -> bool {
    let n = c as u32;
    ||| (0x9 <= n && n <= 0xd)
    ||| n == 0x20
    ||| n == 0x85
    ||| n == 0xa0
    ||| n == 0x1680
    ||| (0x2000 <= n && n <= 0x200a)
    ||| n == 0x2028
    ||| n == 0x2029
    ||| n == 0x202f
    ||| n == 0x205f
    ||| n == 0x3000
}

fn is_white_space_char(c: char) -> (r: bool)
    ensures
        r == is_white_space(c),
{
    let n = c as u32;
    (0x9 <= n && n <= 0xd) || n == 0x20 || n == 0x85 || n == 0xa0 || n == 0x1680 || (0x2000 <= n
        && n <= 0x200a) || n == 0x2028 || n == 0x2029 || n == 0x202f || n == 0x205f || n == 0x3000
}

/// The text without leading and trailing white space, as `str::trim` gives it.
pub open spec fn trim_spec(s: Seq<char>) -> Seq<char> {
    if forall|i: int| 0 <= i < s.len() ==> is_white_space(#[trigger] s[i]) {
        Seq::empty()
    } else {
        let first = choose|i: int|
            0 <= i < s.len() && !is_white_space(s[i]) && forall|j: int|
                0 <= j < i ==> is_white_space(#[trigger] s[j]);
        let last = choose|i: int|
            0 <= i < s.len() && !is_white_space(s[i]) && forall|j: int|
                i < j < s.len() ==> is_white_space(#[trigger] s[j]);
        s.subrange(first, last + 1)
    }
}

/// `str::trim`.
pub fn trim(s: &str) -> (r: String)
    ensures
        r@ == trim_spec(s@),
{
    let cs = chars_of(s);
    let n = cs.len();
    let mut first: usize = 0;
    while first < n && is_white_space_char(cs[first])
        invariant
            cs@ == s@,
            n == cs.len(),
            first <= n,
            forall|j: int| 0 <= j < first ==> is_white_space(#[trigger] s@[j]),
        decreases n - first,
    {
        first = first + 1;
    }
    if first == n {
        return String::new();
    }
    let mut last: usize = n - 1;
    while is_white_space_char(cs[last])
        invariant
            cs@ == s@,
            n == cs.len(),
            first < n,
            first <= last < n,
            !is_white_space(s@[first as int]),
            forall|j: int| last < j < n ==> is_white_space(#[trigger] s@[j]),
        decreases last,
    {
        last = last - 1;
    }
    let mut out = String::new();
    let mut k: usize = first;
    while k <= last
        invariant
            cs@ == s@,
            first <= k <= last + 1,
            last < n,
            n == cs.len(),
            out@ == s@.subrange(first as int, k as int),
        decreases last + 1 - k,
    {
        out.push(cs[k]);
        k = k + 1;
        assert(out@ =~= s@.subrange(first as int, k as int));
    }
    proof {
        let f = choose|i: int|
            0 <= i < s@.len() && !is_white_space(s@[i]) && forall|j: int|
                0 <= j < i ==> is_white_space(#[trigger] s@[j]);
        assert(0 <= first < s@.len() && !is_white_space(s@[first as int]) && forall|j: int|
            0 <= j < first ==> is_white_space(#[trigger] s@[j]));
        if f < first {
            assert(is_white_space(s@[f]));
        }
        if first < f {
        }
        assert(f == first);
        let l = choose|i: int|
            0 <= i < s@.len() && !is_white_space(s@[i]) && forall|j: int|
                i < j < s@.len() ==> is_white_space(#[trigger] s@[j]);
        assert(0 <= last < s@.len() && !is_white_space(s@[last as int]) && forall|j: int|
            last < j < s@.len() ==> is_white_space(#[trigger] s@[j]));
        if l < last {
            assert(is_white_space(s@[last as int]));
        }
        if last < l {
            assert(is_white_space(s@[l]));
        }
        assert(l == last);
        assert(!(forall|i: int| 0 <= i < s@.len() ==> is_white_space(#[trigger] s@[i])));
    }
    out
}

pub open spec fn digit_char(d: int) -> char {
    (48 + d) as char
}

/// The decimal spelling of a natural number.
pub open spec fn nat_text(n: nat) -> Seq<char>
    decreases n,
{
    if n < 10 {
        seq![digit_char(n as int)]
    } else {
        nat_text(n / 10) + seq![digit_char((n % 10) as int)]
    }
}

/// The decimal spelling of an integer, as `Display` writes it.
pub open spec fn int_text(n: int) -> Seq<char> {
    if n < 0 {
        seq!['-'] + nat_text((-n) as nat)
    } else {
        nat_text(n as nat)
    }
}

fn digit(d: u64) -> (c: char)
    requires
        d < 10,
    ensures
        c == digit_char(d as int),
{
    let b: u8 = 48 + d as u8;
    b as char
}

/// `u64`'s `Display`.
pub fn u64_text(n: u64) -> (r: String)
    ensures
        r@ == nat_text(n as nat),
    decreases n,
{
    if n < 10 {
        let mut s = String::new();
        s.push(digit(n));
        assert(s@ =~= nat_text(n as nat));
        s
    } else {
        let mut s = u64_text(n / 10);
        s.push(digit(n % 10));
        assert(s@ =~= nat_text(n as nat));
        s
    }
}

/// `i64`'s `Display`.
pub fn i64_text(n: i64) -> (r: String)
    ensures
        r@ == int_text(n as int),
{
    if n < 0 {
        let m: u64 = (-(n as i128)) as u64;
        let mut s = String::new();
        s.push('-');
        let t = u64_text(m);
        s.append(t.as_str());
        assert(s@ =~= int_text(n as int));
        s
    } else {
        u64_text(n as u64)
    }
}

/// `a` followed by `b`.
pub fn concat(a: &str, b: &str) -> (r: String)
    ensures
        r@ == a@ + b@,
{
    let mut s = a.to_owned();
    s.append(b);
    s
}

/// The character is an ASCII letter that `char::to_ascii_lowercase` lowers.
pub open spec fn ascii_lower(c: char) -> char {
    if 'A' <= c && c <= 'Z' {
        ((c as u32) + 32) as char
    } else {
        c
    }
}

} // verus!
