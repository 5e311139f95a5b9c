//! Character classes and string building blocks shared by the rest of the
//! crate.

use vstd::prelude::*;
use vstd::string::*;

verus! {

/// Whether `c` is an ASCII letter or digit.
pub open spec fn is_ascii_alnum(c: char) -> bool {
    ('a' <= c && c <= 'z') || ('A' <= c && c <= 'Z') || ('0' <= c && c <= '9')
}

/// `c` with ASCII upper-case letters mapped to lower case; every other
/// character is unchanged.
pub open spec fn ascii_lower(c: char) -> char {
    if 'A' <= c && c <= 'Z' {
        ((c as u8 + 32) as u8) as char
    } else {
        c
    }
}

/// Whether `c` is white space: a character with the Unicode property
/// `White_Space`, which is what `char::is_whitespace` tests.
pub open spec fn is_whitespace(c: char) -> bool {
    let n = c as u32;
    ||| 0x09 <= n <= 0x0D
    ||| n == 0x20
    ||| n == 0x85
    ||| n == 0xA0
    ||| n == 0x1680
    ||| 0x2000 <= n <= 0x200A
    ||| n == 0x2028
    ||| n == 0x2029
    ||| n == 0x202F
    ||| n == 0x205F
    ||| n == 0x3000
}

/// Executable form of [`is_whitespace`].
pub fn char_is_whitespace(c: char) -> (r: bool)
    ensures
        r == is_whitespace(c),
{
    let n: u32 = c as u32;
    (0x09 <= n && n <= 0x0D) || n == 0x20 || n == 0x85 || n == 0xA0 || n == 0x1680 || (0x2000 <= n
        && n <= 0x200A) || n == 0x2028 || n == 0x2029 || n == 0x202F || n == 0x205F || n == 0x3000
}

/// How many words `text` holds: its maximal runs of characters that are
/// not white space.
pub open spec fn word_count(text: Seq<char>) -> nat
    decreases text.len(),
{
    if text.len() == 0 {
        0
    } else {
        let init = text.drop_last();
        let starts_word = !is_whitespace(text.last()) && (init.len() == 0 || is_whitespace(
            init.last(),
        ));
        word_count(init) + if starts_word {
            1nat
        } else {
            0nat
        }
    }
}

/// A text holds no more words than characters.
pub proof fn lemma_word_count_bound(text: Seq<char>)
    ensures
        word_count(text) <= text.len(),
    decreases text.len(),
{
    if text.len() > 0 {
        lemma_word_count_bound(text.drop_last());
    }
}

/// Whether `c` is a letter or a number of any script: what
/// `char::is_alphanumeric` returns for it.
pub uninterp spec fn is_alphanumeric(c: char) -> bool;

/// Whether `c` is a letter or a number of any script.
///
/// Trusted: calls `char::is_alphanumeric`, which std documents as true for
/// the characters with the Unicode property `Alphabetic` and those of the
/// general categories `Nd`, `Nl` and `No`. The result depends on the
/// character alone; the contract gives it a name.
#[verifier::external_body]
pub(crate) fn char_is_alphanumeric(c: char) -> (r: bool)
    ensures
        r == is_alphanumeric(c),
{
    c.is_alphanumeric()
}

/// Whether `c` is kept as a letter or a number: an ASCII character is if it
/// is an ASCII letter or digit, and any other character is if
/// `char::is_alphanumeric` says so.
pub open spec fn letter_or_number(c: char) -> bool {
    if (c as u32) < 128 {
        is_ascii_alnum(c)
    } else {
        is_alphanumeric(c)
    }
}

/// Executable form of [`letter_or_number`].
pub fn char_is_letter_or_number(c: char) -> (r: bool)
    ensures
        r == letter_or_number(c),
{
    if (c as u32) < 128 {
        char_is_ascii_alnum(c)
    } else {
        char_is_alphanumeric(c)
    }
}

/// Executable form of [`is_ascii_alnum`].
pub fn char_is_ascii_alnum(c: char) -> (r: bool)
    ensures
        r == is_ascii_alnum(c),
{
    (c >= 'a' && c <= 'z') || (c >= 'A' && c <= 'Z') || (c >= '0' && c <= '9')
}

/// Executable form of [`ascii_lower`].
pub fn char_ascii_lower(c: char) -> (r: char)
    ensures
        r == ascii_lower(c),
{
    if c >= 'A' && c <= 'Z' {
        let b: u8 = c as u8;
        (b + 32) as char
    } else {
        c
    }
}

/// Appends one character to `s`.
///
/// Trusted: calls `String::push`, which std documents as appending the given
/// character to the end of the string.
#[verifier::external_body]
pub(crate) fn push_char(s: &mut String, c: char)
    ensures
        final(s)@ == old(s)@.push(c),
{
    s.push(c)
}

/// Whether two string slices hold the same characters.
pub fn str_eq(a: &str, b: &str) -> (r: bool)
    ensures
        r == (a@ == b@),
{
    let left = chars_of(a);
    let right = chars_of(b);
    if left.len() != right.len() {
        return false;
    }
    let mut i: usize = 0;
    while i < left.len()
        invariant
            i <= left.len(),
            left.len() == right.len(),
            left@ == a@,
            right@ == b@,
            forall|k: int| 0 <= k < i ==> left@[k] == right@[k],
        decreases left.len() - i,
    {
        if left[i] != right[i] {
            return false;
        }
        i += 1;
    }
    assert(a@ =~= b@);
    true
}


/// The characters of `s`, in order.
pub fn chars_of(s: &str) -> (v: Vec<char>)
    ensures
        v@ == s@,
{
    let mut v: Vec<char> = Vec::new();
    for c in it: s.chars()
        invariant
            v@ == it.seq().subrange(0, it.index() as int),
            it.seq() == s@,
    {
        v.push(c);
    }
    v
}


/// Where the white space at the end of `s[from..to]` begins.
pub open spec fn trim_end_at(s: Seq<char>, from: int, to: int) -> int
    decreases to - from,
{
    if from < to && is_whitespace(s[to - 1]) {
        trim_end_at(s, from, to - 1)
    } else {
        to
    }
}

/// Where the white space at the start of `s[from..to]` ends.
pub open spec fn trim_start_at(s: Seq<char>, from: int, to: int) -> int
    decreases to - from,
{
    if from < to && is_whitespace(s[from]) {
        trim_start_at(s, from + 1, to)
    } else {
        from
    }
}

/// `s[from..to]` without the white space at its start and its end.
pub open spec fn trimmed_range(s: Seq<char>, from: int, to: int) -> Seq<char> {
    let end = trim_end_at(s, from, to);
    s.subrange(trim_start_at(s, from, end), end)
}

/// `s` without the white space at its start and its end.
pub open spec fn trimmed(s: Seq<char>) -> Seq<char> {
    trimmed_range(s, 0, s.len() as int)
}

/// Position of the first `sep` in `s[from..to]`, or `to` where there is
/// none.
pub open spec fn next_sep(s: Seq<char>, from: int, to: int, sep: char) -> int
    decreases to - from,
{
    if from >= to {
        to
    } else if s[from] == sep {
        from
    } else {
        next_sep(s, from + 1, to, sep)
    }
}

/// The bounds of `chars[from..to]` without the white space at its start
/// and its end.
pub fn trim_bounds(chars: &Vec<char>, from: usize, to: usize) -> (r: (usize, usize))
    requires
        from <= to <= chars.len(),
    ensures
        from <= r.0 <= r.1 <= to,
        r.1 == trim_end_at(chars@, from as int, to as int),
        r.0 == trim_start_at(chars@, from as int, r.1 as int),
        chars@.subrange(r.0 as int, r.1 as int) == trimmed_range(chars@, from as int, to as int),
{
    let mut end = to;
    while end > from && char_is_whitespace(chars[end - 1])
        invariant
            from <= end <= to <= chars.len(),
            trim_end_at(chars@, from as int, to as int) == trim_end_at(
                chars@,
                from as int,
                end as int,
            ),
        decreases end - from,
    {
        end -= 1;
    }
    let mut start = from;
    while start < end && char_is_whitespace(chars[start])
        invariant
            from <= start <= end <= chars.len(),
            trim_start_at(chars@, from as int, end as int) == trim_start_at(
                chars@,
                start as int,
                end as int,
            ),
        decreases end - start,
    {
        start += 1;
    }
    (start, end)
}

/// Position of the first `sep` in `chars[from..to]`, or `to` where there
/// is none.
pub fn find_sep(chars: &Vec<char>, from: usize, to: usize, sep: char) -> (r: usize)
    requires
        from <= to <= chars.len(),
    ensures
        from <= r <= to,
        r == next_sep(chars@, from as int, to as int, sep),
{
    let mut i = from;
    while i < to && chars[i] != sep
        invariant
            from <= i <= to <= chars.len(),
            next_sep(chars@, from as int, to as int, sep) == next_sep(
                chars@,
                i as int,
                to as int,
                sep,
            ),
        decreases to - i,
    {
        i += 1;
    }
    i
}

/// The string made of `chars[from..to]`.
pub fn text_of(chars: &Vec<char>, from: usize, to: usize) -> (text: String)
    requires
        from <= to <= chars.len(),
    ensures
        text@ == chars@.subrange(from as int, to as int),
{
    let mut text = String::new();
    let mut i = from;
    assert(chars@.subrange(from as int, from as int) =~= Seq::<char>::empty());
    while i < to
        invariant
            from <= i <= to <= chars.len(),
            text@ == chars@.subrange(from as int, i as int),
        decreases to - i,
    {
        assert(chars@.subrange(from as int, i as int).push(chars@[i as int]) =~= chars@.subrange(
            from as int,
            i as int + 1,
        ));
        push_char(&mut text, chars[i]);
        i += 1;
    }
    text
}

/// `s` without the white space at its start and its end.
pub fn trim(s: &str) -> (text: String)
    ensures
        text@ == trimmed(s@),
{
    let chars = chars_of(s);
    let (from, to) = trim_bounds(&chars, 0, chars.len());
    text_of(&chars, from, to)
}

} // verus!
