//! Characters and the scans over them that the page readers are built from.

use vstd::prelude::*;

verus! {

/// A set of characters that a scan looks for or passes over.
#[derive(Clone, Copy, Debug)]
pub enum Class {
    /// Blank, tab, line feed and carriage return.
    Space,
    /// A space or `/`: what separates the parts of a tag.
    Gap,
    /// A space, `/` or `=`: what ends an attribute's name.
    Stop,
    /// Exactly the given character.
    Is(char),
}

pub open spec fn is_space(c: char) -> bool {
    c == ' ' || c == '\t' || c == '\n' || c == '\r'
}

pub open spec fn in_class(k: Class, c: char) -> bool {
    match k {
        Class::Space => is_space(c),
        Class::Gap => is_space(c) || c == '/',
        Class::Stop => is_space(c) || c == '/' || c == '=',
        Class::Is(d) => c == d,
    }
}

/// The first index at or after `from` whose character lies in `k` (for
/// `member`) or outside it (for `!member`); the length of `s` where there is none.
pub open spec fn scan(s: Seq<char>, from: int, k: Class, member: bool) -> int
    decreases s.len() - from,
{
    if from < 0 || from >= s.len() {
        s.len() as int
    } else if in_class(k, s[from]) == member {
        from
    } else {
        scan(s, from + 1, k, member)
    }
}

/// The end of `s.take(n)` once the spaces at its end are cut off.
pub open spec fn trim_end(s: Seq<char>, n: int) -> int
    decreases n,
{
    if n <= 0 || n > s.len() {
        0
    } else if !is_space(s[n - 1]) {
        n
    } else {
        trim_end(s, n - 1)
    }
}

/// `s` without the spaces at its two ends.
pub open spec fn trimmed(s: Seq<char>) -> Seq<char> {
    let a = scan(s, 0, Class::Space, false);
    let b = trim_end(s, s.len() as int);
    if a < b {
        s.subrange(a, b)
    } else {
        Seq::empty()
    }
}

/// A scan stays between its start and the end of the text, stops on a
/// character of the kind it looks for, and passes over no such character.
pub proof fn lemma_scan(s: Seq<char>, from: int, k: Class, member: bool)
    requires
        0 <= from <= s.len(),
    ensures
        from <= scan(s, from, k, member) <= s.len(),
        scan(s, from, k, member) < s.len() ==> in_class(k, s[scan(s, from, k, member)]) == member,
        forall|j: int|
            from <= j < scan(s, from, k, member) ==> in_class(k, #[trigger] s[j]) != member,
    decreases s.len() - from,
{
    if from < s.len() && in_class(k, s[from]) != member {
        lemma_scan(s, from + 1, k, member);
    }
}

/// What `trim_end` cuts off is spaces, and what it leaves does not end in one.
pub proof fn lemma_trim_end(s: Seq<char>, n: int)
    requires
        0 <= n <= s.len(),
    ensures
        0 <= trim_end(s, n) <= n,
        trim_end(s, n) > 0 ==> !is_space(s[trim_end(s, n) - 1]),
        forall|j: int| trim_end(s, n) <= j < n ==> is_space(#[trigger] s[j]),
    decreases n,
{
    if n > 0 && is_space(s[n - 1]) {
        lemma_trim_end(s, n - 1);
    }
}

/// What trimming leaves begins and ends with something other than a space,
/// and what it cuts off at the two ends is spaces.
pub proof fn lemma_trimmed(s: Seq<char>)
    ensures
        forall|j: int| 0 <= j < scan(s, 0, Class::Space, false) ==> is_space(#[trigger] s[j]),
        forall|j: int| trim_end(s, s.len() as int) <= j < s.len() ==> is_space(#[trigger] s[j]),
        trimmed(s).len() > 0 ==> !is_space(trimmed(s)[0]) && !is_space(
            trimmed(s)[trimmed(s).len() - 1],
        ),
        trimmed(s).len() == 0 ==> forall|j: int| 0 <= j < s.len() ==> is_space(#[trigger] s[j]),
{
    lemma_scan(s, 0, Class::Space, false);
    lemma_trim_end(s, s.len() as int);
}

/// std's `String::push` appends one character to the end of the string.
pub assume_specification[ String::push ](s: &mut String, ch: char)
    ensures
        final(s)@ == old(s)@.push(ch),
;

pub fn is_space_char(c: char) -> (b: bool)
    ensures
        b == is_space(c),
{
    c == ' ' || c == '\t' || c == '\n' || c == '\r'
}

pub fn holds(k: Class, c: char) -> (b: bool)
    ensures
        b == in_class(k, c),
{
    match k {
        Class::Space => is_space_char(c),
        Class::Gap => is_space_char(c) || c == '/',
        Class::Stop => is_space_char(c) || c == '/' || c == '=',
        Class::Is(d) => c == d,
    }
}

/// The characters of a string, in order.
pub fn chars_of(s: &str) -> (v: Vec<char>)
    ensures
        v@ == s@,
{
    let mut v: Vec<char> = Vec::new();
    for c in it: s.chars()
        invariant
            v@ == it.seq().take(it.index() as int),
    {
        v.push(c);
    }
    v
}

/// The string made of the given characters.
pub fn string_of(chars: &Vec<char>) -> (r: String)
    ensures
        r@ == chars@,
{
    let mut r = String::new();
    let mut i: usize = 0;
    while i < chars.len()
        invariant
            i <= chars.len(),
            r@ == chars@.take(i as int),
        decreases chars.len() - i,
    {
        r.push(chars[i]);
        i = i + 1;
        assert(chars@.take(i as int) =~= chars@.take(i - 1).push(chars@[i - 1]));
    }
    assert(chars@.take(i as int) =~= chars@);
    r
}

/// The characters of `s` from `from` up to `to`.
pub fn copy_range(s: &Vec<char>, from: usize, to: usize) -> (r: Vec<char>)
    requires
        from <= to <= s.len(),
    ensures
        r@ == s@.subrange(from as int, to as int),
{
    let mut r: Vec<char> = Vec::new();
    let mut i: usize = from;
    while i < to
        invariant
            from <= i <= to <= s.len(),
            r@ == s@.subrange(from as int, i as int),
        decreases to - i,
    {
        r.push(s[i]);
        i = i + 1;
        assert(s@.subrange(from as int, i as int) =~= s@.subrange(from as int, i - 1).push(
            s@[i - 1],
        ));
    }
    r
}

pub fn scan_chars(s: &Vec<char>, from: usize, k: Class, member: bool) -> (r: usize)
    requires
        from <= s.len(),
    ensures
        r == scan(s@, from as int, k, member),
        from <= r <= s.len(),
{
    let mut i: usize = from;
    while i < s.len() && holds(k, s[i]) != member
        invariant
            from <= i <= s.len(),
            scan(s@, from as int, k, member) == scan(s@, i as int, k, member),
        decreases s.len() - i,
    {
        i = i + 1;
    }
    i
}

/// The characters of `s` without the spaces at its two ends.
pub fn trim(s: &Vec<char>) -> (r: Vec<char>)
    ensures
        r@ == trimmed(s@),
{
    let a: usize = scan_chars(s, 0, Class::Space, false);
    let mut b: usize = s.len();
    while b > 0 && is_space_char(s[b - 1])
        invariant
            b <= s.len(),
            trim_end(s@, s.len() as int) == trim_end(s@, b as int),
        decreases b,
    {
        b = b - 1;
    }
    if a < b {
        copy_range(s, a, b)
    } else {
        Vec::new()
    }
}

/// Whether two texts hold the same characters.
pub fn same_chars(a: &Vec<char>, b: &Vec<char>) -> (r: bool)
    ensures
        r == (a@ == b@),
{
    if a.len() != b.len() {
        return false;
    }
    let mut i: usize = 0;
    while i < a.len()
        invariant
            i <= a.len(),
            a.len() == b.len(),
            a@.take(i as int) == b@.take(i as int),
        decreases a.len() - i,
    {
        if a[i] != b[i] {
            return false;
        }
        i = i + 1;
        assert(a@.take(i as int) =~= a@.take(i - 1).push(a@[i - 1]));
        assert(b@.take(i as int) =~= b@.take(i - 1).push(b@[i - 1]));
    }
    assert(a@.take(i as int) =~= a@);
    assert(b@.take(i as int) =~= b@);
    true
}

/// Whether a text reads as the given string.
pub fn is_text(a: &Vec<char>, word: &str) -> (r: bool)
    ensures
        r == (a@ == word@),
{
    let w = chars_of(word);
    same_chars(a, &w)
}

} // verus!
