//! Names made of text: words of letters and digits, joined by single hyphens.

use crate::text::to_chars;
use vstd::prelude::*;

verus! {

/// A letter or a digit of ASCII.
pub open spec fn is_ascii_word_char(c: char) -> bool {
    ('0' <= c <= '9') || ('a' <= c <= 'z') || ('A' <= c <= 'Z')
}

/// The text with a single hyphen for whatever stands between letters and digits, and
/// nothing for what stands before the first of them.
pub open spec fn hyphenated(text: Seq<char>) -> Seq<char>
    decreases text.len(),
{
    if text.len() == 0 {
        Seq::empty()
    } else {
        let front = hyphenated(text.drop_last());
        if is_ascii_word_char(text.last()) {
            front.push(text.last())
        } else if front.len() > 0 && front.last() != '-' {
            front.push('-')
        } else {
            front
        }
    }
}

/// The text without the hyphens at its end.
pub open spec fn without_final_hyphens(text: Seq<char>) -> Seq<char>
    decreases text.len(),
{
    if text.len() > 0 && text.last() == '-' {
        without_final_hyphens(text.drop_last())
    } else {
        text
    }
}

/// The slug of a text; it may be empty.
pub open spec fn slug_of(text: Seq<char>) -> Seq<char> {
    without_final_hyphens(hyphenated(text))
}

pub(crate) fn without_last_hyphens<'a>(text: &'a str) -> (rest: &'a str)
    ensures
        rest@ == without_final_hyphens(text@),
{
    let mut len: usize = text.unicode_len();
    assert(text@.take(len as int) == text@);
    while len > 0 && text.get_char(len - 1) == '-'
        invariant
            len <= text@.len(),
            without_final_hyphens(text@) == without_final_hyphens(text@.take(len as int)),
        decreases len,
    {
        assert(text@.take(len as int).drop_last() == text@.take(len - 1));
        len -= 1;
    }
    let rest = text.substring_char(0, len);
    assert(rest@ == text@.take(len as int));
    rest
}

pub(crate) fn slugify(text: &str) -> (slug: String)
    ensures
        slug@ == slug_of(text@),
{
    let chars = to_chars(text);
    let mut slug = String::new();
    let mut previous_hyphen = false;
    let mut i: usize = 0;
    assert(text@.take(0) == Seq::<char>::empty());
    while i < chars.len()
        invariant
            i <= chars.len(),
            chars@ == text@,
            slug@ == hyphenated(text@.take(i as int)),
            previous_hyphen == (slug@.len() > 0 && slug@.last() == '-'),
        decreases chars.len() - i,
    {
        let c = chars[i];
        assert(text@.take(i + 1).drop_last() == text@.take(i as int));
        assert(text@.take(i + 1).last() == c);
        if ('0' <= c && c <= '9') || ('a' <= c && c <= 'z') || ('A' <= c && c <= 'Z') {
            slug.push(c);
            previous_hyphen = false;
        } else if !previous_hyphen && !slug.as_str().is_empty() {
            slug.push('-');
            previous_hyphen = true;
        }
        i += 1;
    }
    assert(text@.take(i as int) == text@);
    without_last_hyphens(slug.as_str()).to_owned()
}

/// What a slug is made of: letters and digits with single hyphens between them.
pub open spec fn is_hyphenated(text: Seq<char>) -> bool {
    &&& forall|i: int|
        0 <= i < text.len() ==> is_ascii_word_char(#[trigger] text[i]) || text[i] == '-'
    &&& forall|i: int| 0 < i < text.len() ==> !(text[i - 1] == '-' && #[trigger] text[i] == '-')
    &&& text.len() > 0 ==> text[0] != '-'
}

proof fn hyphenated_is_hyphenated(text: Seq<char>)
    ensures
        is_hyphenated(hyphenated(text)),
    decreases text.len(),
{
    if text.len() > 0 {
        hyphenated_is_hyphenated(text.drop_last());
    }
}

proof fn shorter_is_hyphenated(text: Seq<char>)
    requires
        is_hyphenated(text),
    ensures
        is_hyphenated(without_final_hyphens(text)),
        without_final_hyphens(text).len() > 0 ==> without_final_hyphens(text).last() != '-',
    decreases text.len(),
{
    if text.len() > 0 && text.last() == '-' {
        assert(is_hyphenated(text.drop_last()));
        shorter_is_hyphenated(text.drop_last());
    }
}

/// A slug has single hyphens, and only between letters and digits.
pub proof fn slugs_are_hyphenated(text: Seq<char>)
    ensures
        is_hyphenated(slug_of(text)),
        slug_of(text).len() > 0 ==> slug_of(text).last() != '-',
{
    hyphenated_is_hyphenated(text);
    shorter_is_hyphenated(hyphenated(text));
}

} // verus!
