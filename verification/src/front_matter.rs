//! Markdown documents with a block of metadata in front.

use crate::error::{error, outcome, verdict, ErrorView, MkoError};
use crate::text::{
    after_prefix, cat4, is_white_space, join, join_texts, lines, lines_of, same, split,
    split_pieces, split_text, split_then_join, starts_with, strip_prefix, to_chars, trim, trimmed,
    white_space,
};
use crate::unicode::{nfc, to_nfc};
use vstd::prelude::*;

verus! {

/// The metadata block and the body of a document.
#[derive(Clone, Debug, PartialEq, Eq)]
pub struct ParsedMarkdown {
    pub metadata: String,
    pub body: String,
}

#[verifier::ext_equal]
pub struct ParsedMarkdownView {
    pub metadata: Seq<char>,
    pub body: Seq<char>,
}

impl DeepView for ParsedMarkdown {
    type V = ParsedMarkdownView;

    open spec fn deep_view(&self) -> ParsedMarkdownView {
        ParsedMarkdownView { metadata: self.metadata@, body: self.body@ }
    }
}

/// The text with every line ending made a line feed.
pub open spec fn line_feeds(text: Seq<char>) -> Seq<char>
    decreases text.len(),
{
    if text.len() == 0 {
        Seq::empty()
    } else if text[0] != '\r' {
        seq![text[0]] + line_feeds(text.skip(1))
    } else if text.len() > 1 && text[1] == '\n' {
        seq!['\n'] + line_feeds(text.skip(2))
    } else {
        seq!['\n'] + line_feeds(text.skip(1))
    }
}

pub(crate) fn normalize_lf(input: &str) -> (normalized: String)
    ensures
        normalized@ == line_feeds(input@),
{
    let chars = to_chars(input);
    let mut normalized = String::new();
    let mut i: usize = 0;
    assert(chars@.skip(0) == input@);
    while i < chars.len()
        invariant
            i <= chars.len(),
            chars@ == input@,
            normalized@ + line_feeds(chars@.skip(i as int)) == line_feeds(input@),
        decreases chars.len() - i,
    {
        let ghost rest = chars@.skip(i as int);
        let ghost before = normalized@;
        let c = chars[i];
        assert(rest[0] == c);
        if c != '\r' {
            normalized.push(c);
            assert(rest.skip(1) == chars@.skip(i + 1));
            assert(normalized@ + line_feeds(chars@.skip(i + 1)) == before + line_feeds(rest));
            i += 1;
        } else if i + 1 < chars.len() && chars[i + 1] == '\n' {
            normalized.push('\n');
            assert(rest[1] == '\n');
            assert(rest.skip(2) == chars@.skip(i + 2));
            assert(normalized@ + line_feeds(chars@.skip(i + 2)) == before + line_feeds(rest));
            i += 2;
        } else {
            normalized.push('\n');
            assert(rest.len() > 1 ==> rest[1] == chars@[i + 1]);
            assert(rest.skip(1) == chars@.skip(i + 1));
            assert(normalized@ + line_feeds(chars@.skip(i + 1)) == before + line_feeds(rest));
            i += 1;
        }
    }
    assert(line_feeds(chars@.skip(i as int)) == Seq::<char>::empty());
    normalized
}

/// No carriage return is left.
pub proof fn line_feeds_only(text: Seq<char>)
    ensures
        !line_feeds(text).contains('\r'),
    decreases text.len(),
{
    if text.len() > 0 {
        let skipped: int = if text[0] == '\r' && text.len() > 1 && text[1] == '\n' {
            2
        } else {
            1
        };
        line_feeds_only(text.skip(skipped));
        let rest = line_feeds(text.skip(skipped));
        let whole = line_feeds(text);
        assert(whole == seq![whole[0]] + rest);
        if whole.contains('\r') {
            let k = choose|k: int| 0 <= k < whole.len() && whole[k] == '\r';
            assert(k > 0);
            assert(rest[k - 1] == '\r');
        }
    }
}

/// A text without carriage returns stays as it is.
pub proof fn line_feeds_stay(text: Seq<char>)
    requires
        !text.contains('\r'),
    ensures
        line_feeds(text) == text,
    decreases text.len(),
{
    if text.len() > 0 {
        assert(text[0] != '\r');
        let rest = text.skip(1);
        if rest.contains('\r') {
            let k = choose|k: int| 0 <= k < rest.len() && rest[k] == '\r';
            assert(text[k + 1] == '\r');
        }
        line_feeds_stay(rest);
        assert(seq![text[0]] + rest == text);
    }
}

/// The first line that is the closing delimiter.
pub open spec fn closing_line(pieces: Seq<Seq<char>>, from: int) -> Option<int>
    decreases pieces.len() - from,
{
    if from < 0 || from >= pieces.len() {
        None
    } else if pieces[from] == "---"@ {
        Some(from)
    } else {
        closing_line(pieces, from + 1)
    }
}

/// The lines with a line feed behind each.
pub open spec fn terminated(pieces: Seq<Seq<char>>) -> Seq<char> {
    if pieces.len() == 0 {
        Seq::empty()
    } else {
        join(pieces, "\n"@) + "\n"@
    }
}

/// The two parts of what follows the opening delimiter.
pub open spec fn parts_after_opening(rest: Seq<char>) -> Result<ParsedMarkdownView, ErrorView> {
    let pieces = split(rest, '\n');
    match closing_line(pieces, 0) {
        None => Err(error("front_matter_invalid"@, "front matter must end with ---"@)),
        Some(at) => {
            let body = join(pieces.skip(at + 1), "\n"@);
            if "---\n"@.is_prefix_of(body) || body == "---"@ {
                Err(error("yaml_invalid"@, "multiple YAML documents are forbidden"@))
            } else {
                Ok(ParsedMarkdownView { metadata: terminated(pieces.take(at)), body: nfc(body) })
            }
        },
    }
}

/// The parts of a document.
pub open spec fn document_parts(input: Seq<char>) -> Result<ParsedMarkdownView, ErrorView> {
    match after_prefix(line_feeds(input), "---\n"@) {
        None => Err(error("front_matter_invalid"@, "front matter must begin with ---"@)),
        Some(rest) => parts_after_opening(rest),
    }
}

fn find_closing_line(pieces: &Vec<String>) -> (found: Option<usize>)
    ensures
        match found {
            Some(at) => at < pieces.len() && closing_line(pieces.deep_view(), 0) == Some(at as int),
            None => closing_line(pieces.deep_view(), 0) is None,
        },
{
    let ghost all = pieces.deep_view();
    let mut i: usize = 0;
    while i < pieces.len()
        invariant
            i <= pieces.len(),
            all == pieces.deep_view(),
            closing_line(all, 0) == closing_line(all, i as int),
        decreases pieces.len() - i,
    {
        assert(all[i as int] == pieces@[i as int]@);
        if same(pieces[i].as_str(), "---") {
            return Some(i);
        }
        i += 1;
    }
    None
}

/// Splits a document into its metadata block and its body, with line endings and body
/// normalized.
pub fn parse_markdown(input: &str) -> (result: Result<ParsedMarkdown, MkoError>)
    ensures
        outcome(result) == document_parts(input@),
{
    let normalized = normalize_lf(input);
    let rest = match strip_prefix(normalized.as_str(), "---\n") {
        Some(rest) => rest,
        None => {
            return Err(MkoError::new("front_matter_invalid", "front matter must begin with ---"));
        },
    };
    let mut pieces = split_text(rest, '\n');
    let ghost all = pieces.deep_view();
    let at: usize = match find_closing_line(&pieces) {
        Some(at) => at,
        None => {
            return Err(MkoError::new("front_matter_invalid", "front matter must end with ---"));
        },
    };
    let tail = pieces.split_off(at + 1);
    assert(tail.deep_view() == all.skip(at + 1));
    let closing = pieces.pop();
    assert(pieces.deep_view() == all.take(at as int));
    let body = join_texts(&tail, "\n");
    if starts_with(body.as_str(), "---\n") || same(body.as_str(), "---") {
        return Err(MkoError::new("yaml_invalid", "multiple YAML documents are forbidden"));
    }
    let mut metadata = join_texts(&pieces, "\n");
    if pieces.len() > 0 {
        metadata.append("\n");
    } else {
        assert(metadata@ == Seq::<char>::empty());
    }
    Ok(ParsedMarkdown { metadata, body: to_nfc(body.as_str()) })
}

/// The text without the line feeds at its end.
pub open spec fn without_final_line_feeds(text: Seq<char>) -> Seq<char>
    decreases text.len(),
{
    if text.len() > 0 && text.last() == '\n' {
        without_final_line_feeds(text.drop_last())
    } else {
        text
    }
}

pub(crate) fn trim_final_line_feeds<'a>(text: &'a str) -> (rest: &'a str)
    ensures
        rest@ == without_final_line_feeds(text@),
{
    let chars = to_chars(text);
    let mut end: usize = chars.len();
    assert(chars@.take(end as int) == text@);
    while end > 0 && chars[end - 1] == '\n'
        invariant
            end <= chars.len(),
            chars@ == text@,
            without_final_line_feeds(text@) == without_final_line_feeds(chars@.take(end as int)),
        decreases end,
    {
        assert(chars@.take(end as int).drop_last() == chars@.take(end - 1));
        end -= 1;
    }
    let rest = text.substring_char(0, end);
    assert(rest@ == text@.take(end as int));
    rest
}

/// The metadata block of a rendered document.
pub open spec fn rendered_metadata(yaml: Seq<char>) -> Seq<char> {
    nfc(without_final_line_feeds(line_feeds(yaml)))
}

/// The body of a rendered document.
pub open spec fn rendered_body(body: Seq<char>) -> Seq<char> {
    nfc(line_feeds(body))
}

/// The body could be taken for a second document.
pub open spec fn starts_a_document(body: Seq<char>) -> bool {
    "---\n"@.is_prefix_of(body) || body == "---"@
}

proof fn final_line_feeds_add_nothing(text: Seq<char>)
    requires
        !text.contains('\r'),
    ensures
        !without_final_line_feeds(text).contains('\r'),
    decreases text.len(),
{
    if text.len() > 0 && text.last() == '\n' {
        let rest = text.drop_last();
        if rest.contains('\r') {
            let k = choose|k: int| 0 <= k < rest.len() && rest[k] == '\r';
            assert(text[k] == '\r');
        }
        final_line_feeds_add_nothing(rest);
    }
}

proof fn no_return_in_concat(left: Seq<char>, right: Seq<char>)
    requires
        !left.contains('\r'),
        !right.contains('\r'),
    ensures
        !(left + right).contains('\r'),
{
    let whole = left + right;
    if whole.contains('\r') {
        let k = choose|k: int| 0 <= k < whole.len() && whole[k] == '\r';
        if k < left.len() {
            assert(left[k] == '\r');
        } else {
            assert(right[k - left.len()] == '\r');
        }
    }
}

proof fn split_of_parts(left: Seq<char>, right: Seq<char>)
    ensures
        split(left + seq!['\n'] + right, '\n') == split(left, '\n') + split(right, '\n'),
    decreases right.len(),
{
    let front = left + seq!['\n'];
    split_pieces(left, '\n');
    split_pieces(right, '\n');
    if right.len() == 0 {
        assert(front + right == front);
        assert(front.drop_last() == left);
        assert(split(front, '\n') == split(left, '\n').push(Seq::empty()));
        assert(split(right, '\n') == seq![Seq::<char>::empty()]);
        assert(split(left, '\n') + split(right, '\n') == split(left, '\n').push(Seq::empty()));
    } else {
        split_of_parts(left, right.drop_last());
        let whole = front + right;
        assert(whole.drop_last() == front + right.drop_last());
        let shorter = split(right.drop_last(), '\n');
        split_pieces(right.drop_last(), '\n');
        let pieces = split(left, '\n') + shorter;
        assert(split(whole.drop_last(), '\n') == pieces);
        if right.last() == '\n' {
            assert(split(whole, '\n') == pieces.push(Seq::empty()));
            assert(split(right, '\n') == shorter.push(Seq::empty()));
            assert(pieces.push(Seq::empty()) == split(left, '\n') + shorter.push(Seq::empty()));
        } else {
            assert(pieces.last() == shorter.last());
            assert(split(whole, '\n') == pieces.drop_last().push(
                pieces.last().push(right.last()),
            ));
            assert(split(right, '\n') == shorter.drop_last().push(
                shorter.last().push(right.last()),
            ));
            assert(pieces.drop_last().push(pieces.last().push(right.last())) == split(left, '\n')
                + shorter.drop_last().push(shorter.last().push(right.last())));
        }
    }
}

proof fn closing_line_behind(front: Seq<Seq<char>>, back: Seq<Seq<char>>, from: int)
    requires
        0 <= from <= front.len(),
        forall|i: int| 0 <= i < front.len() ==> #[trigger] front[i] != "---"@,
        back.len() > 0,
        back[0] == "---"@,
    ensures
        closing_line(front + back, from) == Some(front.len() as int),
    decreases front.len() - from,
{
    let whole = front + back;
    if from < front.len() {
        assert(whole[from] == front[from]);
        closing_line_behind(front, back, from + 1);
    } else {
        assert(whole[from] == back[0]);
    }
}

/// What is rendered can be read again: a document whose metadata has no line that is the
/// delimiter, and whose body does not look like a second document, gives back the very
/// metadata and body that it was made of.
pub proof fn rendering_reads_back(metadata: Seq<char>, body: Seq<char>)
    requires
        !metadata.contains('\r'),
        !body.contains('\r'),
        nfc(body) == body,
        closing_line(split(metadata, '\n'), 0) is None,
        !starts_a_document(body),
    ensures
        document_parts("---\n"@ + metadata + "\n---\n"@ + body) == Ok::<
            ParsedMarkdownView,
            ErrorView,
        >(ParsedMarkdownView { metadata: metadata + "\n"@, body }),
{
    reveal_strlit("---\n");
    reveal_strlit("\n---\n");
    reveal_strlit("---");
    reveal_strlit("\n");
    let document = "---\n"@ + metadata + "\n---\n"@ + body;
    let rest = metadata + seq!['\n'] + ("---"@ + seq!['\n'] + body);
    assert("\n---\n"@ == seq!['\n'] + "---"@ + seq!['\n']);
    assert(document == "---\n"@ + rest);
    no_return_in_concat("---\n"@, metadata);
    no_return_in_concat("---\n"@ + metadata, "\n---\n"@);
    no_return_in_concat("---\n"@ + metadata + "\n---\n"@, body);
    line_feeds_stay(document);
    assert("---\n"@.is_prefix_of(document)) by {
        assert(document.subrange(0, "---\n"@.len() as int) == "---\n"@);
    }
    assert(document.skip("---\n"@.len() as int) == rest);
    split_of_parts("---"@, body);
    split_of_parts(metadata, "---"@ + seq!['\n'] + body);
    let front = split(metadata, '\n');
    let tail = split(body, '\n');
    delimiter_is_one_line();
    let back = split("---"@, '\n') + tail;
    assert(split(rest, '\n') == front + back);
    assert(back[0] == "---"@);
    assert forall|i: int| 0 <= i < front.len() implies #[trigger] front[i] != "---"@ by {
        no_closing_line(front, 0, i);
    }
    closing_line_behind(front, back, 0);
    let pieces = front + back;
    assert(pieces.take(front.len() as int) == front);
    assert(pieces.skip(front.len() as int + 1) == tail);
    split_pieces(metadata, '\n');
    split_then_join(metadata, '\n');
    split_then_join(body, '\n');
    assert("\n"@ == seq!['\n']);
    assert(join(front, "\n"@) == metadata);
    assert(join(tail, "\n"@) == body);
}

proof fn delimiter_is_one_line()
    ensures
        split("---"@, '\n') == seq!["---"@],
{
    reveal_strlit("---");
    let text = "---"@;
    assert(text.take(3) == text);
    assert(text.take(0) == Seq::<char>::empty());
    assert(split(text.take(0), '\n') == seq![Seq::<char>::empty()]);
    assert(text.take(1).drop_last() == text.take(0));
    assert(text.take(1).last() == '-');
    assert(split(text.take(1), '\n') == seq![seq!['-']]) by {
        let before = split(text.take(0), '\n');
        assert(before.drop_last().push(before.last().push('-')) == seq![seq!['-']]);
    }
    assert(text.take(2).drop_last() == text.take(1));
    assert(text.take(2).last() == '-');
    assert(split(text.take(2), '\n') == seq![seq!['-', '-']]) by {
        let before = split(text.take(1), '\n');
        assert(before.last().push('-') == seq!['-', '-']);
        assert(before.drop_last().push(before.last().push('-')) == seq![seq!['-', '-']]);
    }
    assert(text.drop_last() == text.take(2));
    let before = split(text.take(2), '\n');
    assert(before.last().push('-') == text);
    assert(before.drop_last().push(before.last().push('-')) == seq![text]);
}

proof fn no_closing_line(pieces: Seq<Seq<char>>, from: int, at: int)
    requires
        0 <= from <= at < pieces.len(),
        closing_line(pieces, from) is None,
    ensures
        pieces[at] != "---"@,
    decreases at - from,
{
    if from < at {
        no_closing_line(pieces, from + 1, at);
    }
}

/// Renders a document from its serialized metadata and its body. What is rendered can be
/// read again, unless the metadata holds the delimiter as a line of its own or the body
/// could be taken for a second document.
pub fn render_markdown(yaml: &str, body: &str) -> (document: String)
    ensures
        document@ == "---\n"@ + rendered_metadata(yaml@) + "\n---\n"@ + rendered_body(body@),
        closing_line(split(rendered_metadata(yaml@), '\n'), 0) is None && !starts_a_document(
            rendered_body(body@),
        ) ==> document_parts(document@) == Ok::<ParsedMarkdownView, ErrorView>(
            ParsedMarkdownView {
                metadata: rendered_metadata(yaml@) + "\n"@,
                body: rendered_body(body@),
            },
        ),
{
    let yaml_lines = normalize_lf(yaml);
    let block = trim_final_line_feeds(yaml_lines.as_str());
    let body_lines = normalize_lf(body);
    proof {
        line_feeds_only(yaml@);
        line_feeds_only(body@);
        final_line_feeds_add_nothing(line_feeds(yaml@));
    }
    let metadata = to_nfc(block);
    let text = to_nfc(body_lines.as_str());
    let document = cat4("---\n", metadata.as_str(), "\n---\n", text.as_str());
    proof {
        if closing_line(split(metadata@, '\n'), 0) is None && !starts_a_document(text@) {
            rendering_reads_back(metadata@, text@);
        }
    }
    document
}

/// The key that a line of the metadata block sets at its top level, if it sets one.
pub open spec fn top_level_key(line: Seq<char>) -> Option<Seq<char>> {
    if line.len() == 0 || is_white_space(line[0]) || line[0] == '#' {
        None
    } else {
        let pieces = split(line, ':');
        let key = trim(pieces[0]);
        if pieces.len() < 2 || key.len() == 0 || key[0] == '-' || key[0] == '?' {
            None
        } else {
            Some(key)
        }
    }
}

/// Two lines set the same key.
pub open spec fn has_duplicate_key(text: Seq<char>) -> bool {
    exists|i: int, j: int|
        0 <= i < j < lines(text).len() && top_level_key(#[trigger] lines(text)[i]) is Some
            && top_level_key(lines(text)[i]) == top_level_key(#[trigger] lines(text)[j])
}

fn key_of(line: &str) -> (key: Option<String>)
    ensures
        key.deep_view() == top_level_key(line@),
{
    if line.is_empty() {
        return None;
    }
    let first = line.get_char(0);
    if white_space(first) || first == '#' {
        return None;
    }
    let pieces = split_text(line, ':');
    proof {
        split_pieces(line@, ':');
        assert(pieces.deep_view()[0] == pieces@[0]@);
    }
    if pieces.len() < 2 {
        return None;
    }
    let key = trimmed(pieces[0].as_str());
    if key.is_empty() {
        return None;
    }
    let start = key.get_char(0);
    if start == '-' || start == '?' {
        return None;
    }
    Some(key.to_owned())
}

/// Refuses a metadata block that sets a key twice.
pub fn reject_duplicate_top_level_keys(input: &str) -> (result: Result<(), MkoError>)
    ensures
        verdict(result) == (if has_duplicate_key(input@) {
            Err(error("yaml_invalid"@, "duplicate top-level YAML key"@))
        } else {
            Ok(())
        }),
{
    let all = lines_of(input);
    let ghost text = lines(input@);
    let mut keys: Vec<Option<String>> = Vec::new();
    let mut i: usize = 0;
    while i < all.len()
        invariant
            i <= all.len(),
            text == lines(input@),
            all.deep_view() == text,
            keys.len() == i,
            forall|k: int|
                0 <= k < i ==> (#[trigger] keys@[k]).deep_view() == top_level_key(text[k]),
            forall|a: int, b: int|
                0 <= a < b < i ==> !(top_level_key(#[trigger] text[a]) is Some && top_level_key(
                    text[a],
                ) == top_level_key(#[trigger] text[b])),
        decreases all.len() - i,
    {
        assert(text[i as int] == all@[i as int]@);
        let key = key_of(all[i].as_str());
        if key.is_some() {
            let mut k: usize = 0;
            while k < keys.len()
                invariant
                    k <= keys.len(),
                    keys.len() == i,
                    i < all.len(),
                    text == lines(input@),
                    all.deep_view() == text,
                    key is Some,
                    key.deep_view() == top_level_key(text[i as int]),
                    forall|m: int|
                        0 <= m < i ==> (#[trigger] keys@[m]).deep_view() == top_level_key(text[m]),
                    forall|m: int|
                        0 <= m < k ==> top_level_key(#[trigger] text[m]) != top_level_key(
                            text[i as int],
                        ),
                decreases keys.len() - k,
            {
                assert(keys@[k as int].deep_view() == top_level_key(text[k as int]));
                if crate::text::same_option(&keys[k], &key) {
                    assert(top_level_key(lines(input@)[k as int]) == top_level_key(
                        lines(input@)[i as int],
                    ));
                    return Err(MkoError::new("yaml_invalid", "duplicate top-level YAML key"));
                }
                k += 1;
            }
        }
        keys.push(key);
        i += 1;
    }
    Ok(())
}

} // verus!
