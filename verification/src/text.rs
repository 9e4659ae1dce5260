//! Text as a sequence of characters, and its order by encoded bytes.

use vstd::prelude::*;
use vstd::utf8::{encode_utf8, encode_utf8_decode_utf8};

verus! {

/// `String::push` of std appends one character.
pub assume_specification[ String::push ](text: &mut String, c: char)
    ensures
        final(text)@ == old(text)@.push(c),
;

/// Lexicographic order of byte strings: a proper prefix comes first, otherwise the
/// first differing byte decides.
pub open spec fn bytes_at_most(left: Seq<u8>, right: Seq<u8>) -> bool
    decreases left.len(),
{
    if left.len() == 0 {
        true
    } else if right.len() == 0 {
        false
    } else if left[0] != right[0] {
        left[0] < right[0]
    } else {
        bytes_at_most(left.drop_first(), right.drop_first())
    }
}

/// The order of text: that of its UTF-8 encoding.
pub open spec fn text_at_most(left: Seq<char>, right: Seq<char>) -> bool {
    bytes_at_most(encode_utf8(left), encode_utf8(right))
}

/// `text` without the leading `prefix`, where it has it.
pub open spec fn after_prefix(text: Seq<char>, prefix: Seq<char>) -> Option<Seq<char>> {
    if prefix.is_prefix_of(text) {
        Some(text.skip(prefix.len() as int))
    } else {
        None
    }
}

/// `text` without the trailing `suffix`, where it has it.
pub open spec fn before_suffix(text: Seq<char>, suffix: Seq<char>) -> Option<Seq<char>> {
    if suffix.is_suffix_of(text) {
        Some(text.take(text.len() - suffix.len()))
    } else {
        None
    }
}

/// The decimal digits of a number, without leading zeros.
pub open spec fn decimal_digits(n: nat) -> Seq<char>
    decreases n,
{
    let digit = ('0' as u32 + n % 10) as char;
    if n < 10 {
        seq![digit]
    } else {
        decimal_digits(n / 10).push(digit)
    }
}

pub(crate) fn to_chars(text: &str) -> (chars: Vec<char>)
    ensures
        chars@ == text@,
{
    let mut chars: Vec<char> = Vec::new();
    for c in walk: text.chars()
        invariant
            chars@ == text@.take(walk.index() as int),
            walk.seq() == text@,
    {
        chars.push(c);
        assert(text@.take(walk.index() as int + 1) == text@.take(walk.index() as int).push(c));
    }
    assert(text@.take(text@.len() as int) == text@);
    chars
}

pub(crate) fn same(left: &str, right: &str) -> (equal: bool)
    ensures
        equal == (left@ == right@),
{
    let a = left.as_bytes();
    let b = right.as_bytes();
    proof {
        encode_utf8_decode_utf8(left@);
        encode_utf8_decode_utf8(right@);
    }
    same_bytes(a, b)
}

pub(crate) fn same_bytes(a: &[u8], b: &[u8]) -> (equal: bool)
    ensures
        equal == (a@ == b@),
{
    if a.len() != b.len() {
        return false;
    }
    let mut i: usize = 0;
    while i < a.len()
        invariant
            i <= a.len(),
            a.len() == b.len(),
            a@.take(i as int) == b@.take(i as int),
        decreases a.len() - i,
    {
        if a[i] != b[i] {
            return false;
        }
        assert(a@.take(i + 1) == a@.take(i as int).push(a@[i as int]));
        assert(b@.take(i + 1) == b@.take(i as int).push(b@[i as int]));
        i += 1;
    }
    assert(a@ == a@.take(i as int));
    assert(b@ == b@.take(i as int));
    true
}

pub(crate) fn bytes_not_after(a: &[u8], b: &[u8]) -> (result: bool)
    ensures
        result == bytes_at_most(a@, b@),
{
    let mut i: usize = 0;
    assert(a@.skip(0) == a@);
    assert(b@.skip(0) == b@);
    while i < a.len() && i < b.len()
        invariant
            i <= a.len(),
            i <= b.len(),
            bytes_at_most(a@, b@) == bytes_at_most(a@.skip(i as int), b@.skip(i as int)),
        decreases a.len() - i,
    {
        if a[i] != b[i] {
            return a[i] < b[i];
        }
        assert(a@.skip(i as int).drop_first() == a@.skip(i + 1));
        assert(b@.skip(i as int).drop_first() == b@.skip(i + 1));
        i += 1;
    }
    i == a.len()
}

/// Whether `left` stands at or before `right` in the order of text.
pub(crate) fn not_after(left: &str, right: &str) -> (result: bool)
    ensures
        result == text_at_most(left@, right@),
{
    bytes_not_after(left.as_bytes(), right.as_bytes())
}

/// Any two byte strings can be compared.
pub proof fn bytes_order_is_total(left: Seq<u8>, right: Seq<u8>)
    ensures
        bytes_at_most(left, right) || bytes_at_most(right, left),
    decreases left.len(),
{
    if left.len() > 0 && right.len() > 0 && left[0] == right[0] {
        bytes_order_is_total(left.drop_first(), right.drop_first());
    }
}

/// Two byte strings that stand at or before each other are equal.
pub proof fn bytes_order_is_antisymmetric(left: Seq<u8>, right: Seq<u8>)
    requires
        bytes_at_most(left, right),
        bytes_at_most(right, left),
    ensures
        left == right,
    decreases left.len(),
{
    if left.len() > 0 && right.len() > 0 {
        bytes_order_is_antisymmetric(left.drop_first(), right.drop_first());
        assert(left == seq![left[0]] + left.drop_first());
        assert(right == seq![right[0]] + right.drop_first());
    }
    assert(left == right);
}

/// The order of byte strings is transitive.
pub proof fn bytes_order_is_transitive(a: Seq<u8>, b: Seq<u8>, c: Seq<u8>)
    requires
        bytes_at_most(a, b),
        bytes_at_most(b, c),
    ensures
        bytes_at_most(a, c),
    decreases a.len(),
{
    if a.len() > 0 && b.len() > 0 && c.len() > 0 && a[0] == b[0] && b[0] == c[0] {
        bytes_order_is_transitive(a.drop_first(), b.drop_first(), c.drop_first());
    }
}

/// Two texts that stand at or before each other in the order of text are equal.
pub proof fn text_order_is_antisymmetric(left: Seq<char>, right: Seq<char>)
    requires
        text_at_most(left, right),
        text_at_most(right, left),
    ensures
        left == right,
{
    bytes_order_is_antisymmetric(encode_utf8(left), encode_utf8(right));
    encode_utf8_decode_utf8(left);
    encode_utf8_decode_utf8(right);
}

/// The number of bytes in the UTF-8 encoding of `text`.
pub(crate) fn byte_len(text: &str) -> (len: usize)
    ensures
        len == encode_utf8(text@).len(),
{
    text.as_bytes().len()
}

pub(crate) fn strip_prefix<'a>(text: &'a str, prefix: &str) -> (rest: Option<&'a str>)
    ensures
        rest.deep_view() == after_prefix(text@, prefix@),
{
    let len: usize = text.unicode_len();
    let cut: usize = prefix.unicode_len();
    if cut > len {
        return None;
    }
    if same(text.substring_char(0, cut), prefix) {
        let rest = text.substring_char(cut, len);
        assert(rest@ == text@.skip(cut as int));
        Some(rest)
    } else {
        None
    }
}

pub(crate) fn strip_suffix<'a>(text: &'a str, suffix: &str) -> (rest: Option<&'a str>)
    ensures
        rest.deep_view() == before_suffix(text@, suffix@),
{
    let len: usize = text.unicode_len();
    let cut: usize = suffix.unicode_len();
    if cut > len {
        return None;
    }
    if same(text.substring_char(len - cut, len), suffix) {
        let rest = text.substring_char(0, len - cut);
        assert(rest@ == text@.take(len - cut));
        Some(rest)
    } else {
        None
    }
}

pub(crate) fn starts_with(text: &str, prefix: &str) -> (result: bool)
    ensures
        result == prefix@.is_prefix_of(text@),
{
    strip_prefix(text, prefix).is_some()
}

pub(crate) fn ends_with(text: &str, suffix: &str) -> (result: bool)
    ensures
        result == suffix@.is_suffix_of(text@),
{
    strip_suffix(text, suffix).is_some()
}

pub(crate) fn contains_char(text: &str, wanted: char) -> (found: bool)
    ensures
        found == text@.contains(wanted),
{
    let chars = to_chars(text);
    let mut i: usize = 0;
    while i < chars.len()
        invariant
            i <= chars.len(),
            chars@ == text@,
            forall|k: int| 0 <= k < i ==> chars@[k] != wanted,
        decreases chars.len() - i,
    {
        if chars[i] == wanted {
            assert(text@[i as int] == wanted);
            return true;
        }
        i += 1;
    }
    false
}

pub(crate) fn cat2(a: &str, b: &str) -> (text: String)
    ensures
        text@ == a@ + b@,
{
    let mut text = a.to_owned();
    text.append(b);
    text
}

pub(crate) fn cat3(a: &str, b: &str, c: &str) -> (text: String)
    ensures
        text@ == a@ + b@ + c@,
{
    let mut text = a.to_owned();
    text.append(b);
    text.append(c);
    text
}

pub(crate) fn cat4(a: &str, b: &str, c: &str, d: &str) -> (text: String)
    ensures
        text@ == a@ + b@ + c@ + d@,
{
    let mut text = a.to_owned();
    text.append(b);
    text.append(c);
    text.append(d);
    text
}

pub(crate) fn cat5(a: &str, b: &str, c: &str, d: &str, e: &str) -> (text: String)
    ensures
        text@ == a@ + b@ + c@ + d@ + e@,
{
    let mut text = a.to_owned();
    text.append(b);
    text.append(c);
    text.append(d);
    text.append(e);
    text
}

pub(crate) fn decimal(n: u64) -> (text: String)
    ensures
        text@ == decimal_digits(n as nat),
    decreases n,
{
    let digit: char = match n % 10 {
        0 => '0',
        1 => '1',
        2 => '2',
        3 => '3',
        4 => '4',
        5 => '5',
        6 => '6',
        7 => '7',
        8 => '8',
        _ => '9',
    };
    let mut text = if n < 10 {
        String::new()
    } else {
        decimal(n / 10)
    };
    text.push(digit);
    text
}

/// A copy of an optional text.
pub(crate) fn copy_option(text: &Option<String>) -> (copy: Option<String>)
    ensures
        copy == *text,
{
    match text {
        Some(value) => Some(value.clone()),
        None => None,
    }
}

pub(crate) fn copy_list(list: &Vec<String>) -> (copy: Vec<String>)
    ensures
        copy.deep_view() == list.deep_view(),
{
    let mut copy: Vec<String> = Vec::new();
    let mut i: usize = 0;
    while i < list.len()
        invariant
            i <= list.len(),
            copy@ == list@.take(i as int),
        decreases list.len() - i,
    {
        copy.push(list[i].clone());
        i += 1;
    }
    copy
}

pub(crate) fn copy_plain<T: Copy>(list: &Vec<T>) -> (copy: Vec<T>)
    ensures
        copy@ == list@,
{
    let mut copy: Vec<T> = Vec::new();
    let mut i: usize = 0;
    while i < list.len()
        invariant
            i <= list.len(),
            copy@ == list@.take(i as int),
        decreases list.len() - i,
    {
        copy.push(list[i]);
        i += 1;
    }
    copy
}

pub(crate) fn same_option(left: &Option<String>, right: &Option<String>) -> (equal: bool)
    ensures
        equal == (left.deep_view() == right.deep_view()),
{
    match (left, right) {
        (None, None) => true,
        (Some(a), Some(b)) => same(a.as_str(), b.as_str()),
        _ => false,
    }
}

/// The pieces between the separators: one more than there are separators.
pub open spec fn split(text: Seq<char>, separator: char) -> Seq<Seq<char>>
    decreases text.len(),
{
    if text.len() == 0 {
        seq![Seq::empty()]
    } else {
        let pieces = split(text.drop_last(), separator);
        if text.last() == separator {
            pieces.push(Seq::empty())
        } else {
            pieces.drop_last().push(pieces.last().push(text.last()))
        }
    }
}

/// The pieces with the separator between each two.
pub open spec fn join(pieces: Seq<Seq<char>>, separator: Seq<char>) -> Seq<char>
    decreases pieces.len(),
{
    if pieces.len() == 0 {
        Seq::empty()
    } else if pieces.len() == 1 {
        pieces[0]
    } else {
        join(pieces.drop_last(), separator) + separator + pieces.last()
    }
}

/// Splitting gives at least one piece, and none of the pieces holds the separator.
pub proof fn split_pieces(text: Seq<char>, separator: char)
    ensures
        split(text, separator).len() >= 1,
        forall|i: int|
            0 <= i < split(text, separator).len() ==> !(#[trigger] split(text, separator)[i]).contains(
                separator,
            ),
    decreases text.len(),
{
    if text.len() > 0 {
        split_pieces(text.drop_last(), separator);
        let before = split(text.drop_last(), separator);
        let pieces = split(text, separator);
        assert forall|i: int| 0 <= i < pieces.len() implies !(#[trigger] pieces[i]).contains(
            separator,
        ) by {
            if text.last() == separator {
                if i < before.len() {
                    assert(pieces[i] == before[i]);
                }
            } else if i < before.len() - 1 {
                assert(pieces[i] == before[i]);
            } else {
                let piece = before.last();
                assert(piece == before[before.len() - 1]);
                if pieces[i].contains(separator) {
                    let k = choose|k: int| 0 <= k < pieces[i].len() && pieces[i][k] == separator;
                    assert(k < piece.len());
                    assert(piece[k] == separator);
                    assert(piece.contains(separator));
                }
            }
        }
    }
}

/// Joining the pieces with the separator gives the text back.
pub proof fn split_then_join(text: Seq<char>, separator: char)
    ensures
        join(split(text, separator), seq![separator]) == text,
    decreases text.len(),
{
    split_pieces(text, separator);
    if text.len() > 0 {
        let before = split(text.drop_last(), separator);
        let pieces = split(text, separator);
        split_pieces(text.drop_last(), separator);
        split_then_join(text.drop_last(), separator);
        if text.last() == separator {
            assert(pieces.drop_last() == before);
            assert(join(pieces, seq![separator]) == text.drop_last() + seq![separator]
                + Seq::empty());
            assert(text == text.drop_last() + seq![separator] + Seq::empty());
        } else {
            assert(pieces.drop_last() == before.drop_last());
            if before.len() == 1 {
                assert(text == text.drop_last().push(text.last()));
            } else {
                assert(join(before, seq![separator]) == join(before.drop_last(), seq![separator])
                    + seq![separator] + before.last());
                assert(join(pieces, seq![separator]) == join(before.drop_last(), seq![separator])
                    + seq![separator] + before.last().push(text.last()));
                assert(text == text.drop_last().push(text.last()));
                assert(join(pieces, seq![separator]) == text);
            }
        }
    }
}

pub(crate) fn split_text(text: &str, separator: char) -> (pieces: Vec<String>)
    ensures
        pieces.deep_view() == split(text@, separator),
{
    let chars = to_chars(text);
    let mut pieces: Vec<String> = Vec::new();
    let mut current = String::new();
    let mut i: usize = 0;
    assert(pieces.deep_view().push(current@) == split(chars@.take(0), separator));
    while i < chars.len()
        invariant
            i <= chars.len(),
            pieces.deep_view().push(current@) == split(chars@.take(i as int), separator),
        decreases chars.len() - i,
    {
        let c = chars[i];
        let ghost before = pieces.deep_view().push(current@);
        assert(chars@.take(i + 1).drop_last() == chars@.take(i as int));
        assert(before.drop_last() == pieces.deep_view());
        if c == separator {
            let ghost held = pieces.deep_view();
            pieces.push(current);
            current = String::new();
            assert(pieces.deep_view() == before);
        } else {
            current.push(c);
        }
        i += 1;
    }
    assert(chars@.take(i as int) == text@);
    let ghost held = pieces.deep_view();
    let ghost last = current@;
    pieces.push(current);
    assert(pieces.deep_view() == held.push(last));
    pieces
}

pub(crate) fn join_texts(pieces: &Vec<String>, separator: &str) -> (text: String)
    ensures
        text@ == join(pieces.deep_view(), separator@),
{
    let mut text = String::new();
    let ghost all = pieces.deep_view();
    let mut i: usize = 0;
    while i < pieces.len()
        invariant
            i <= pieces.len(),
            all == pieces.deep_view(),
            text@ == join(all.take(i as int), separator@),
        decreases pieces.len() - i,
    {
        assert(all.take(i + 1).drop_last() == all.take(i as int));
        assert(all.take(i + 1).last() == pieces@[i as int]@);
        if i > 0 {
            text.append(separator);
        }
        text.append(pieces[i].as_str());
        if i == 0 {
            assert(text@ == pieces@[0]@);
        }
        i += 1;
    }
    assert(all.take(i as int) == all);
    text
}

/// The uppercase form of an ASCII letter; any other character as it is.
pub open spec fn ascii_upper(c: char) -> char {
    if 'a' <= c <= 'z' {
        (c as u32 - 32) as char
    } else {
        c
    }
}

/// The lowercase form of an ASCII letter; any other character as it is.
pub open spec fn ascii_lower(c: char) -> char {
    if 'A' <= c <= 'Z' {
        (c as u32 + 32) as char
    } else {
        c
    }
}

pub(crate) fn to_ascii_upper(c: char) -> (upper: char)
    ensures
        upper == ascii_upper(c),
{
    if 'a' <= c && c <= 'z' {
        (c as u8 - 32u8) as char
    } else {
        c
    }
}

pub(crate) fn to_ascii_lower(c: char) -> (lower: char)
    ensures
        lower == ascii_lower(c),
{
    if 'A' <= c && c <= 'Z' {
        (c as u8 + 32u8) as char
    } else {
        c
    }
}

/// A digit or one of the letters a to f.
pub open spec fn is_lower_hex_digit(c: char) -> bool {
    '0' <= c <= '9' || 'a' <= c <= 'f'
}

/// Exactly `len` lowercase hexadecimal digits.
pub open spec fn is_lower_hex(text: Seq<char>, len: nat) -> bool {
    text.len() == len && (forall|i: int| 0 <= i < text.len() ==> is_lower_hex_digit(#[trigger] text[i]))
}

pub(crate) fn has_lower_hex(text: &str, len: usize) -> (result: bool)
    ensures
        result == is_lower_hex(text@, len as nat),
{
    let chars = to_chars(text);
    if chars.len() != len {
        return false;
    }
    let mut i: usize = 0;
    while i < chars.len()
        invariant
            i <= chars.len(),
            chars@ == text@,
            forall|k: int| 0 <= k < i ==> is_lower_hex_digit(#[trigger] chars@[k]),
        decreases chars.len() - i,
    {
        let c = chars[i];
        if !(('0' <= c && c <= '9') || ('a' <= c && c <= 'f')) {
            assert(!is_lower_hex_digit(text@[i as int]));
            return false;
        }
        i += 1;
    }
    true
}

/// A lowercase ASCII letter, a digit or a hyphen.
pub open spec fn is_slug_char(c: char) -> bool {
    'a' <= c <= 'z' || '0' <= c <= '9' || c == '-'
}

/// One or more slug characters.
pub open spec fn is_slug(text: Seq<char>) -> bool {
    text.len() > 0 && (forall|i: int| 0 <= i < text.len() ==> is_slug_char(#[trigger] text[i]))
}

pub(crate) fn has_slug(text: &str) -> (result: bool)
    ensures
        result == is_slug(text@),
{
    let chars = to_chars(text);
    let mut i: usize = 0;
    while i < chars.len()
        invariant
            i <= chars.len(),
            chars@ == text@,
            forall|k: int| 0 <= k < i ==> is_slug_char(#[trigger] chars@[k]),
        decreases chars.len() - i,
    {
        let c = chars[i];
        if !(('a' <= c && c <= 'z') || ('0' <= c && c <= '9') || c == '-') {
            assert(!is_slug_char(text@[i as int]));
            return false;
        }
        i += 1;
    }
    chars.len() > 0
}

/// A character with the Unicode property White_Space.
pub open spec fn is_white_space(c: char) -> bool {
    ||| '\u{9}' <= c <= '\u{d}'
    ||| c == ' '
    ||| c == '\u{85}'
    ||| c == '\u{a0}'
    ||| c == '\u{1680}'
    ||| '\u{2000}' <= c <= '\u{200a}'
    ||| c == '\u{2028}'
    ||| c == '\u{2029}'
    ||| c == '\u{202f}'
    ||| c == '\u{205f}'
    ||| c == '\u{3000}'
}

pub(crate) fn white_space(c: char) -> (result: bool)
    ensures
        result == is_white_space(c),
{
    ('\u{9}' <= c && c <= '\u{d}') || c == ' ' || c == '\u{85}' || c == '\u{a0}' || c == '\u{1680}'
        || ('\u{2000}' <= c && c <= '\u{200a}') || c == '\u{2028}' || c == '\u{2029}' || c
        == '\u{202f}' || c == '\u{205f}' || c == '\u{3000}'
}

/// Nothing but white space.
pub open spec fn is_blank(text: Seq<char>) -> bool {
    forall|i: int| 0 <= i < text.len() ==> is_white_space(#[trigger] text[i])
}

/// The text without the white space at its start.
pub open spec fn trim_start(text: Seq<char>) -> Seq<char>
    decreases text.len(),
{
    if text.len() > 0 && is_white_space(text[0]) {
        trim_start(text.drop_first())
    } else {
        text
    }
}

/// The text without the white space at its end.
pub open spec fn trim_end(text: Seq<char>) -> Seq<char>
    decreases text.len(),
{
    if text.len() > 0 && is_white_space(text.last()) {
        trim_end(text.drop_last())
    } else {
        text
    }
}

/// The text without the white space at either end.
pub open spec fn trim(text: Seq<char>) -> Seq<char> {
    trim_end(trim_start(text))
}

/// Trimming a text leaves nothing exactly when it is blank.
pub proof fn trim_of_blank(text: Seq<char>)
    ensures
        trim(text).len() == 0 <==> is_blank(text),
    decreases text.len(),
{
    if text.len() > 0 {
        if is_white_space(text[0]) {
            let rest = text.drop_first();
            trim_of_blank(rest);
            if is_blank(text) {
                assert forall|i: int| 0 <= i < rest.len() implies is_white_space(
                    #[trigger] rest[i],
                ) by {
                    assert(rest[i] == text[i + 1]);
                }
            }
            if is_blank(rest) {
                assert forall|i: int| 0 <= i < text.len() implies is_white_space(
                    #[trigger] text[i],
                ) by {
                    if i > 0 {
                        assert(rest[i - 1] == text[i]);
                    }
                }
            }
        } else {
            trim_end_keeps_start(text);
            assert(!is_white_space(text[0]));
        }
    }
}

proof fn trim_end_keeps_start(text: Seq<char>)
    requires
        text.len() > 0,
        !is_white_space(text[0]),
    ensures
        trim_end(text).len() > 0,
    decreases text.len(),
{
    if is_white_space(text.last()) {
        trim_end_keeps_start(text.drop_last());
    }
}

pub(crate) fn blank(text: &str) -> (result: bool)
    ensures
        result == is_blank(text@),
{
    let chars = to_chars(text);
    let mut i: usize = 0;
    while i < chars.len()
        invariant
            i <= chars.len(),
            chars@ == text@,
            forall|k: int| 0 <= k < i ==> is_white_space(#[trigger] chars@[k]),
        decreases chars.len() - i,
    {
        if !white_space(chars[i]) {
            assert(!is_white_space(text@[i as int]));
            return false;
        }
        i += 1;
    }
    true
}

pub(crate) fn trimmed<'a>(text: &'a str) -> (rest: &'a str)
    ensures
        rest@ == trim(text@),
{
    let chars = to_chars(text);
    let mut start: usize = 0;
    assert(chars@.skip(0) == text@);
    while start < chars.len() && white_space(chars[start])
        invariant
            start <= chars.len(),
            chars@ == text@,
            trim_start(chars@.skip(start as int)) == trim_start(text@),
        decreases chars.len() - start,
    {
        assert(chars@.skip(start as int).drop_first() == chars@.skip(start + 1));
        start += 1;
    }
    assert(trim_start(text@) == chars@.skip(start as int));
    let mut end: usize = chars.len();
    assert(chars@.skip(start as int) == chars@.subrange(start as int, end as int));
    while end > start && white_space(chars[end - 1])
        invariant
            start <= end <= chars.len(),
            chars@ == text@,
            trim_end(chars@.subrange(start as int, end as int)) == trim(text@),
        decreases end,
    {
        assert(chars@.subrange(start as int, end as int).drop_last() == chars@.subrange(
            start as int,
            end - 1,
        ));
        end -= 1;
    }
    text.substring_char(start, end)
}

/// Where `piece` first stands in `text` at or after `from`.
pub open spec fn find_from(text: Seq<char>, piece: Seq<char>, from: int) -> Option<int>
    decreases text.len() + 1 - from,
{
    if from < 0 || from + piece.len() > text.len() {
        None
    } else if text.subrange(from, from + piece.len()) == piece {
        Some(from)
    } else {
        find_from(text, piece, from + 1)
    }
}

/// `piece` stands somewhere in `text`.
pub open spec fn contains_text(text: Seq<char>, piece: Seq<char>) -> bool {
    find_from(text, piece, 0) is Some
}

/// `text` with the first occurrence of `from` replaced by `to`.
pub open spec fn replace_first(text: Seq<char>, from: Seq<char>, to: Seq<char>) -> Seq<char> {
    match find_from(text, from, 0) {
        None => text,
        Some(at) => text.take(at) + to + text.skip(at + from.len()),
    }
}

/// What is found stands where it was found.
pub proof fn found_text_stands_there(text: Seq<char>, piece: Seq<char>, from: int)
    requires
        find_from(text, piece, from) is Some,
    ensures
        from <= find_from(text, piece, from)->0,
        0 <= find_from(text, piece, from)->0,
        find_from(text, piece, from)->0 + piece.len() <= text.len(),
        text.subrange(
            find_from(text, piece, from)->0,
            find_from(text, piece, from)->0 + piece.len(),
        ) == piece,
    decreases text.len() + 1 - from,
{
    if text.subrange(from, from + piece.len()) != piece {
        found_text_stands_there(text, piece, from + 1);
    }
}

/// What stands somewhere is found.
pub proof fn standing_text_is_found(text: Seq<char>, piece: Seq<char>, from: int, at: int)
    requires
        0 <= from <= at,
        at + piece.len() <= text.len(),
        text.subrange(at, at + piece.len()) == piece,
    ensures
        find_from(text, piece, from) is Some,
        find_from(text, piece, from)->0 <= at,
    decreases text.len() + 1 - from,
{
    if text.subrange(from, from + piece.len()) != piece {
        standing_text_is_found(text, piece, from + 1, at);
    }
}

fn chars_at(chars: &Vec<char>, piece: &Vec<char>, at: usize) -> (result: bool)
    requires
        at + piece.len() <= chars.len(),
    ensures
        result == (chars@.subrange(at as int, at + piece.len()) == piece@),
{
    let mut i: usize = 0;
    while i < piece.len()
        invariant
            i <= piece.len(),
            at + piece.len() <= chars.len(),
            forall|k: int| 0 <= k < i ==> chars@[at + k] == #[trigger] piece@[k],
        decreases piece.len() - i,
    {
        if chars[at + i] != piece[i] {
            assert(chars@.subrange(at as int, at + piece.len())[i as int] != piece@[i as int]);
            return false;
        }
        i += 1;
    }
    assert(chars@.subrange(at as int, at + piece.len()) == piece@);
    true
}

pub(crate) fn find_text(text: &str, piece: &str) -> (found: Option<usize>)
    ensures
        match found {
            Some(at) => find_from(text@, piece@, 0) == Some(at as int),
            None => find_from(text@, piece@, 0) is None,
        },
{
    let chars = to_chars(text);
    let wanted = to_chars(piece);
    let mut at: usize = 0;
    while at <= chars.len() && wanted.len() <= chars.len() - at
        invariant
            at <= chars.len() + 1,
            chars@ == text@,
            wanted@ == piece@,
            find_from(text@, piece@, 0) == find_from(text@, piece@, at as int),
        decreases chars.len() + 1 - at,
    {
        if chars_at(&chars, &wanted, at) {
            return Some(at);
        }
        if at == chars.len() {
            assert(chars@.subrange(at as int, at + wanted.len()) == wanted@);
            return None;
        }
        at += 1;
    }
    None
}

pub(crate) fn has_text(text: &str, piece: &str) -> (result: bool)
    ensures
        result == contains_text(text@, piece@),
{
    find_text(text, piece).is_some()
}

pub(crate) fn with_first_replaced(text: &str, from: &str, to: &str) -> (result: String)
    ensures
        result@ == replace_first(text@, from@, to@),
{
    match find_text(text, from) {
        None => text.to_owned(),
        Some(at) => {
            proof {
                found_text_stands_there(text@, from@, 0);
            }
            let len: usize = text.unicode_len();
            let cut: usize = from.unicode_len();
            let front = text.substring_char(0, at);
            let back = text.substring_char(at + cut, len);
            assert(front@ == text@.take(at as int));
            assert(back@ == text@.skip(at + from@.len()));
            cat3(front, to, back)
        },
    }
}

/// A line without its line ending: a carriage return before the line feed belongs to it.
pub open spec fn without_return(line: Seq<char>) -> Seq<char> {
    if line.len() > 0 && line.last() == '\r' {
        line.drop_last()
    } else {
        line
    }
}

/// The lines of a text, without their endings. What follows the last line feed is a line
/// only when it is not empty.
pub open spec fn lines(text: Seq<char>) -> Seq<Seq<char>> {
    let pieces = split(text, '\n');
    let ended = pieces.drop_last().map_values(|line: Seq<char>| without_return(line));
    if pieces.last().len() == 0 {
        ended
    } else {
        ended.push(pieces.last())
    }
}

pub(crate) fn lines_of(text: &str) -> (result: Vec<String>)
    ensures
        result.deep_view() == lines(text@),
{
    let mut pieces = split_text(text, '\n');
    let ghost all = pieces.deep_view();
    proof {
        split_pieces(text@, '\n');
    }
    let last = match pieces.pop() {
        Some(last) => last,
        None => String::new(),
    };
    assert(all.last() == last@);
    assert(pieces.deep_view() == all.drop_last());
    let ghost front = all.drop_last();
    let ghost ended = front.map_values(|line: Seq<char>| without_return(line));
    let mut result: Vec<String> = Vec::new();
    let mut i: usize = 0;
    assert(result.deep_view() == ended.take(0));
    while i < pieces.len()
        invariant
            i <= pieces.len(),
            front == pieces.deep_view(),
            ended == front.map_values(|line: Seq<char>| without_return(line)),
            result.deep_view() == ended.take(i as int),
        decreases pieces.len() - i,
    {
        let ghost before = result.deep_view();
        let line = line_without_return(pieces[i].as_str());
        assert(front[i as int] == pieces@[i as int]@);
        result.push(line);
        assert(result.deep_view() == before.push(line@));
        assert(ended.take(i + 1) == ended.take(i as int).push(ended[i as int]));
        i += 1;
    }
    assert(ended.take(i as int) == ended);
    if !last.as_str().is_empty() {
        let ghost before = result.deep_view();
        result.push(last);
        assert(result.deep_view() == before.push(last@));
    }
    result
}

fn line_without_return(line: &str) -> (result: String)
    ensures
        result@ == without_return(line@),
{
    let len: usize = line.unicode_len();
    if len > 0 && line.get_char(len - 1) == '\r' {
        let kept = line.substring_char(0, len - 1);
        assert(kept@ == line@.drop_last());
        kept.to_owned()
    } else {
        line.to_owned()
    }
}

/// The value of decimal digits.
pub open spec fn digits_value(text: Seq<char>) -> nat
    decreases text.len(),
{
    if text.len() == 0 {
        0
    } else {
        digits_value(text.drop_last()) * 10 + (text.last() as u32 - '0' as u32) as nat
    }
}

/// Only decimal digits.
pub open spec fn all_digits(text: Seq<char>) -> bool {
    forall|i: int| 0 <= i < text.len() ==> '0' <= #[trigger] text[i] <= '9'
}

/// The number that a text writes: one or more digits behind an optional plus sign, as
/// long as it fits into sixty-four bits.
pub open spec fn written_number(text: Seq<char>) -> Option<u64> {
    let digits = if text.len() > 0 && text[0] == '+' {
        text.drop_first()
    } else {
        text
    };
    if digits.len() > 0 && all_digits(digits) && digits_value(digits) <= u64::MAX {
        Some(digits_value(digits) as u64)
    } else {
        None
    }
}

#[verifier::loop_isolation(false)]
pub(crate) fn parse_number(text: &str) -> (number: Option<u64>)
    ensures
        number == written_number(text@),
{
    let chars = to_chars(text);
    let start: usize = if chars.len() > 0 && chars[0] == '+' {
        1
    } else {
        0
    };
    let ghost digits = chars@.skip(start as int);
    proof {
        if start == 1 {
            assert(digits == text@.drop_first());
        } else {
            assert(digits == text@);
        }
    }
    if start == chars.len() {
        return None;
    }
    let mut value: u64 = 0;
    let mut i: usize = start;
    let mut fits = true;
    assert(digits.take(0) == Seq::<char>::empty());
    while i < chars.len()
        invariant
            start <= i <= chars.len(),
            start <= 1,
            digits == chars@.skip(start as int),
            forall|k: int| 0 <= k < i - start ==> '0' <= #[trigger] digits[k] <= '9',
            fits ==> value == digits_value(digits.take(i - start)),
            !fits ==> digits_value(digits.take(i - start)) > u64::MAX,
        decreases chars.len() - i,
    {
        let c = chars[i];
        assert(digits[i - start] == c);
        if !('0' <= c && c <= '9') {
            assert(!all_digits(digits));
            return None;
        }
        assert(digits.take(i - start + 1).drop_last() == digits.take(i - start));
        let digit: u64 = (c as u32 - '0' as u32) as u64;
        if fits {
            match value.checked_mul(10) {
                Some(tenfold) => match tenfold.checked_add(digit) {
                    Some(sum) => {
                        value = sum;
                    },
                    None => {
                        fits = false;
                    },
                },
                None => {
                    fits = false;
                },
            }
        }
        i += 1;
    }
    assert(digits.take(i - start) == digits);
    if fits {
        Some(value)
    } else {
        None
    }
}

/// The text cut at every character of white space.
pub open spec fn cut_at_white_space(text: Seq<char>) -> Seq<Seq<char>>
    decreases text.len(),
{
    if text.len() == 0 {
        seq![Seq::empty()]
    } else {
        let front = cut_at_white_space(text.drop_last());
        if is_white_space(text.last()) {
            front.push(Seq::empty())
        } else {
            front.drop_last().push(front.last().push(text.last()))
        }
    }
}

/// The words of a text: what stands between its white space.
pub open spec fn words(text: Seq<char>) -> Seq<Seq<char>> {
    cut_at_white_space(text).filter(|word: Seq<char>| word.len() > 0)
}

proof fn cut_is_not_empty(text: Seq<char>)
    ensures
        cut_at_white_space(text).len() > 0,
    decreases text.len(),
{
    if text.len() > 0 {
        cut_is_not_empty(text.drop_last());
    }
}

#[verifier::loop_isolation(false)]
pub(crate) fn words_of(text: &str) -> (result: Vec<String>)
    ensures
        result.deep_view() == words(text@),
{
    let chars = to_chars(text);
    let ghost keep = |word: Seq<char>| word.len() > 0;
    let mut result: Vec<String> = Vec::new();
    let mut word = String::new();
    let mut i: usize = 0;
    proof {
        reveal(Seq::filter);
        assert(text@.take(0).len() == 0);
        assert(cut_at_white_space(text@.take(0)).drop_last() == Seq::<Seq<char>>::empty());
        assert(result.deep_view() == Seq::<Seq<char>>::empty());
    }
    while i < chars.len()
        invariant
            i <= chars.len(),
            word@ == cut_at_white_space(text@.take(i as int)).last(),
            result.deep_view() == cut_at_white_space(text@.take(i as int)).drop_last().filter(keep),
        decreases chars.len() - i,
    {
        let c = chars[i];
        let ghost front = cut_at_white_space(text@.take(i as int));
        let ghost pieces = cut_at_white_space(text@.take(i + 1));
        proof {
            reveal(Seq::filter);
            cut_is_not_empty(text@.take(i as int));
            assert(text@.take(i + 1).drop_last() == text@.take(i as int));
            assert(text@.take(i + 1).last() == c);
        }
        if white_space(c) {
            assert(pieces.drop_last() == front);
            if !word.as_str().is_empty() {
                let ghost before = result.deep_view();
                result.push(word);
                assert(result.deep_view() == before.push(word@));
            }
            word = String::new();
        } else {
            assert(pieces.drop_last() == front.drop_last());
            word.push(c);
        }
        i += 1;
    }
    proof {
        reveal(Seq::filter);
        assert(text@.take(i as int) == text@);
        cut_is_not_empty(text@);
    }
    if !word.as_str().is_empty() {
        let ghost before = result.deep_view();
        result.push(word);
        assert(result.deep_view() == before.push(word@));
    }
    result
}

pub(crate) fn trimmed_end<'a>(text: &'a str) -> (rest: &'a str)
    ensures
        rest@ == trim_end(text@),
{
    let mut end: usize = text.unicode_len();
    assert(text@.take(end as int) == text@);
    while end > 0 && white_space(text.get_char(end - 1))
        invariant
            end <= text@.len(),
            trim_end(text@) == trim_end(text@.take(end as int)),
        decreases end,
    {
        assert(text@.take(end as int).drop_last() == text@.take(end - 1));
        end -= 1;
    }
    let rest = text.substring_char(0, end);
    assert(rest@ == text@.take(end as int));
    rest
}

/// Where `piece` last stands in `text` at or before `from`.
pub open spec fn find_last(text: Seq<char>, piece: Seq<char>, from: int) -> Option<int>
    decreases from + 1,
{
    if from < 0 {
        None
    } else if from + piece.len() <= text.len() && text.subrange(from, from + piece.len())
        == piece {
        Some(from)
    } else {
        find_last(text, piece, from - 1)
    }
}

/// `text` cut at the last place where `piece` stands: what comes before it and what comes
/// after it.
pub open spec fn cut_at_last(text: Seq<char>, piece: Seq<char>) -> Option<(Seq<char>, Seq<char>)> {
    match find_last(text, piece, text.len() as int) {
        None => None,
        Some(at) => Some((text.take(at), text.skip(at + piece.len()))),
    }
}

/// A text is cut in front of what follows the piece, where the piece stands nowhere later.
pub proof fn cut_before_the_rest(before: Seq<char>, piece: Seq<char>, after: Seq<char>)
    requires
        piece.len() > 0,
        forall|k: int|
            0 < k <= after.len() ==> #[trigger] (piece + after).subrange(k, k + piece.len())
                != piece,
    ensures
        cut_at_last(before + piece + after, piece) == Some((before, after)),
{
    let text = before + piece + after;
    let at = before.len() as int;
    assert(text.subrange(at, at + piece.len()) == piece);
    assert forall|i: int| at < i && i + piece.len() <= text.len() implies #[trigger] text.subrange(
        i,
        i + piece.len(),
    ) != piece by {
        let k = i - at;
        assert((piece + after).subrange(k, k + piece.len()) == text.subrange(i, i + piece.len()));
    }
    last_text_is_found(text, piece, text.len() as int, at);
    assert(text.take(at) == before);
    assert(text.skip(at + piece.len()) == after);
}

proof fn last_text_is_found(text: Seq<char>, piece: Seq<char>, from: int, at: int)
    requires
        0 <= at <= from,
        at + piece.len() <= text.len(),
        text.subrange(at, at + piece.len()) == piece,
        forall|i: int|
            at < i && i + piece.len() <= text.len() ==> #[trigger] text.subrange(i, i + piece.len())
                != piece,
    ensures
        find_last(text, piece, from) == Some(at),
    decreases from,
{
    if from > at {
        last_text_is_found(text, piece, from - 1, at);
    }
}

pub(crate) fn cut_last<'a>(text: &'a str, piece: &str) -> (parts: Option<(&'a str, &'a str)>)
    ensures
        match parts {
            Some((before, after)) => cut_at_last(text@, piece@) == Some((before@, after@)),
            None => cut_at_last(text@, piece@) is None,
        },
{
    let chars = to_chars(text);
    let wanted = to_chars(piece);
    let mut from: usize = chars.len();
    loop
        invariant
            from <= chars.len(),
            chars@ == text@,
            wanted@ == piece@,
            find_last(text@, piece@, text@.len() as int) == find_last(text@, piece@, from as int),
        decreases from,
    {
        if wanted.len() <= chars.len() - from && chars_at(&chars, &wanted, from) {
            let before = text.substring_char(0, from);
            let after = text.substring_char(from + wanted.len(), chars.len());
            assert(before@ == text@.take(from as int));
            assert(after@ == text@.skip(from + wanted.len()));
            return Some((before, after));
        }
        if from == 0 {
            assert(find_last(text@, piece@, -1) is None);
            return None;
        }
        from -= 1;
    }
}

} // verus!
