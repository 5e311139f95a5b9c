//! Slug derivation.

use vstd::prelude::*;
use crate::text::{ascii_lower, char_ascii_lower, char_is_ascii_alnum, chars_of, is_ascii_alnum, push_char};

verus! {

/// The separator between the words of a slug.
pub open spec fn slug_separator() -> char {
    '-'
}

/// The slug of a title: its maximal runs of ASCII letters and digits, in
/// lower case, joined by single separators. Every other character only
/// separates; separators at either end are dropped.
///
/// Defined on the title extended by one character at a time.
pub open spec fn slug_of(title: Seq<char>) -> Seq<char>
    decreases title.len(),
{
    if title.len() == 0 {
        Seq::empty()
    } else {
        let init = title.drop_last();
        let c = title.last();
        if !is_ascii_alnum(c) {
            slug_of(init)
        } else if init.len() > 0 && !is_ascii_alnum(init.last()) && slug_of(init).len() > 0 {
            slug_of(init).push(slug_separator()).push(ascii_lower(c))
        } else {
            slug_of(init).push(ascii_lower(c))
        }
    }
}

/// Whether `c` may occur in a slug: a lower-case ASCII letter, a digit or
/// the separator.
pub open spec fn is_slug_char(c: char) -> bool {
    ('a' <= c && c <= 'z') || ('0' <= c && c <= '9') || c == slug_separator()
}

/// Whether `s` has the shape of a derived slug: slug characters only, no
/// separator at either end and no two separators in a row.
pub open spec fn is_clean_slug(s: Seq<char>) -> bool {
    &&& forall|i: int| 0 <= i < s.len() ==> is_slug_char(#[trigger] s[i])
    &&& s.len() > 0 ==> s[0] != slug_separator() && s.last() != slug_separator()
    &&& forall|i: int|
        0 <= i < s.len() - 1 ==> !(#[trigger] s[i] == slug_separator() && s[i + 1]
            == slug_separator())
}

/// Derives a URL-safe slug from a title.
pub fn slugify(title: &str) -> (slug: String)
    ensures
        slug@ == slug_of(title@),
{
    let chars = chars_of(title);
    let mut out = String::new();
    let mut pending = false;
    let mut empty = true;
    let mut i: usize = 0;
    assert(chars@.subrange(0, 0) =~= Seq::<char>::empty());
    while i < chars.len()
        invariant
            i <= chars.len(),
            chars@ == title@,
            out@ == slug_of(chars@.subrange(0, i as int)),
            empty == (out@.len() == 0),
            pending == (i > 0 && !is_ascii_alnum(chars@[i as int - 1])),
        decreases chars.len() - i,
    {
        let c = chars[i];
        proof {
            let next = chars@.subrange(0, i as int + 1);
            assert(next.drop_last() =~= chars@.subrange(0, i as int));
            assert(next.last() == c);
        }
        if char_is_ascii_alnum(c) {
            if pending && !empty {
                push_char(&mut out, '-');
            }
            push_char(&mut out, char_ascii_lower(c));
            empty = false;
            pending = false;
        } else {
            pending = true;
        }
        i += 1;
    }
    assert(chars@.subrange(0, i as int) =~= chars@);
    out
}

/// A derived slug is URL-safe and tidy: it holds only lower-case ASCII
/// letters, digits and separators, it neither starts nor ends with a
/// separator, and no two separators are adjacent.
pub proof fn lemma_slug_is_clean(title: Seq<char>)
    ensures
        is_clean_slug(slug_of(title)),
    decreases title.len(),
{
    if title.len() > 0 {
        lemma_slug_is_clean(title.drop_last());
        let c = title.last();
        let prev = slug_of(title.drop_last());
        if is_ascii_alnum(c) {
            assert(is_slug_char(ascii_lower(c)));
            assert(ascii_lower(c) != slug_separator());
        }
    }
}

} // verus!
