//! What the texts promise: how line ends are made one, what a slug keeps, how a name and its
//! extension are told apart, how documents and bundles are laid out, and in which order texts
//! and lists come.

use crate::bundle_text::{bundle_text, page_lines, pages_text};
use crate::check::{
    has_conflict_lines, is_conflict_line, is_repository_path, record_kind, tidy, CheckIssue,
    CheckIssueView, RecordKind,
};
use crate::front_matter::{document_parts, has_duplicate_key, line_feeds, top_level_key};
use crate::json_text::{json_characters, json_items, json_option, json_text, json_texts};
use crate::knowledge::{concept_slug, revision_body, revision_tags, title_slug, without_final_empty};
use crate::knowledge_store::{listed_note, KnowledgeDocumentView, KnowledgeNote};
use crate::order::{dedup_keeps_items, sorting_keeps_items, sorting_orders, stable_sort, Ranked};
use crate::paths::{ascii_lowered, file_name, name_extension, name_stem, path_names};
use crate::prepare::PreparedSourceBundleView;
use crate::slug::{
    hyphenated, is_ascii_word_char, slug_of, slugs_are_hyphenated, without_final_hyphens,
};
use crate::text::{
    ascii_lower, ascii_upper, bytes_at_most, join, lines, split, split_pieces, split_then_join,
    text_at_most, trim, trim_end, trim_start, is_white_space,
};
use crate::unicode::{lossy_text, nfc};
use vstd::prelude::*;
use vstd::utf8::encode_utf8;

verus! {

/// Every end of a line becomes one line feed: a carriage return with a line feed behind it, a
/// carriage return by itself, and a line feed. Every other character stays.
pub proof fn line_ends_become_line_feeds(rest: Seq<char>, c: char)
    requires
        c != '\r',
    ensures
        line_feeds(Seq::empty()) == Seq::<char>::empty(),
        line_feeds(seq![c] + rest) == seq![c] + line_feeds(rest),
        line_feeds(seq!['\r', '\n'] + rest) == seq!['\n'] + line_feeds(rest),
        !(rest.len() > 0 && rest[0] == '\n') ==> line_feeds(seq!['\r'] + rest) == seq!['\n']
            + line_feeds(rest),
{
    let plain = seq![c] + rest;
    assert(plain.skip(1) =~= rest);
    let both = seq!['\r', '\n'] + rest;
    assert(both.skip(2) =~= rest);
    let alone = seq!['\r'] + rest;
    assert(alone.skip(1) =~= rest);
    if rest.len() > 0 {
        assert(alone[1] == rest[0]);
    }
}

/// A document that does not begin with the delimiter, or does not close its metadata, is
/// refused.
pub proof fn documents_begin_with_metadata(input: Seq<char>)
    ensures
        !"---\n"@.is_prefix_of(line_feeds(input)) ==> document_parts(input) is Err,
        document_parts(input) is Err ==> document_parts(input)->Err_0.code
            == "front_matter_invalid"@ || document_parts(input)->Err_0.code == "yaml_invalid"@,
{
}

/// A key of the metadata stands at the start of its line: a line that is indented, empty or a
/// comment sets none.
pub proof fn only_lines_at_the_margin_set_keys(line: Seq<char>)
    ensures
        line.len() == 0 ==> top_level_key(line) is None,
        line.len() > 0 && (line[0] == ' ' || line[0] == '\t' || line[0] == '#') ==> top_level_key(
            line,
        ) is None,
        top_level_key(line) matches Some(key) ==> key.len() > 0 && key == trim(split(line, ':')[0])
            && split(line, ':').len() >= 2,
{
}

/// Metadata that sets a key twice at its margin is told.
pub proof fn repeated_keys_are_told(text: Seq<char>, i: int, j: int)
    requires
        0 <= i < j < lines(text).len(),
        top_level_key(lines(text)[i]) is Some,
        top_level_key(lines(text)[i]) == top_level_key(lines(text)[j]),
    ensures
        has_duplicate_key(text),
{
}

proof fn hyphens_add_no_word(text: Seq<char>)
    ensures
        hyphenated(text).filter(|c: char| is_ascii_word_char(c)) == text.filter(
            |c: char| is_ascii_word_char(c),
        ),
    decreases text.len(),
{
    reveal(Seq::filter);
    let word = |c: char| is_ascii_word_char(c);
    if text.len() > 0 {
        let front = text.drop_last();
        hyphens_add_no_word(front);
        assert(text =~= front.push(text.last()));
        front.lemma_filter_push(text.last(), word);
        hyphenated(front).lemma_filter_push(text.last(), word);
        hyphenated(front).lemma_filter_push('-', word);
    }
}

proof fn final_hyphens_are_no_words(text: Seq<char>)
    ensures
        without_final_hyphens(text).filter(|c: char| is_ascii_word_char(c)) == text.filter(
            |c: char| is_ascii_word_char(c),
        ),
    decreases text.len(),
{
    reveal(Seq::filter);
    let word = |c: char| is_ascii_word_char(c);
    if text.len() > 0 && text.last() == '-' {
        let front = text.drop_last();
        final_hyphens_are_no_words(front);
        assert(text =~= front.push('-'));
        front.lemma_filter_push('-', word);
    }
}

/// A slug keeps every letter and digit of the text, in its order, and adds none.
pub proof fn slugs_keep_the_words(text: Seq<char>)
    ensures
        slug_of(text).filter(|c: char| is_ascii_word_char(c)) == text.filter(
            |c: char| is_ascii_word_char(c),
        ),
{
    hyphens_add_no_word(text);
    final_hyphens_are_no_words(hyphenated(text));
}

proof fn cut_hyphens_are_a_prefix(text: Seq<char>)
    ensures
        without_final_hyphens(text).is_prefix_of(text),
    decreases text.len(),
{
    if text.len() > 0 && text.last() == '-' {
        cut_hyphens_are_a_prefix(text.drop_last());
    }
}

/// A title and a name always have a slug; the slug of a title is the beginning of its letters
/// and digits in lower case, of at most 96 characters.
pub proof fn titles_have_slugs(title: Seq<char>, name: Seq<char>)
    ensures
        0 < title_slug(title).len() <= 96,
        concept_slug(name).len() > 0,
        0 < slug_of(ascii_lowered(title)).len() <= 96 ==> title_slug(title) == slug_of(
            ascii_lowered(title),
        ),
        title_slug(title) == "document"@ || title_slug(title).is_prefix_of(
            slug_of(ascii_lowered(title)),
        ),
{
    reveal_strlit("document");
    reveal_strlit("concept");
    let slug = slug_of(ascii_lowered(title));
    slugs_are_hyphenated(ascii_lowered(title));
    let cut = if slug.len() > 96 {
        slug.take(96)
    } else {
        slug
    };
    cut_hyphens_are_a_prefix(cut);
    cut_hyphens_are_a_prefix(slug);
}

/// In ASCII, to lower a letter and to raise it are each other's inverse, and leave all else.
pub proof fn cases_are_inverse(c: char)
    ensures
        'a' <= c <= 'z' ==> ascii_lower(ascii_upper(c)) == c && ascii_upper(c) != c,
        'A' <= c <= 'Z' ==> ascii_upper(ascii_lower(c)) == c && ascii_lower(c) != c,
        !('a' <= c <= 'z') ==> ascii_upper(c) == c,
        !('A' <= c <= 'Z') ==> ascii_lower(c) == c,
        ascii_upper('a') == 'A',
        ascii_lower('Z') == 'z',
{
}

proof fn split_behind_a_separator(left: Seq<char>, right: Seq<char>, separator: char)
    requires
        !right.contains(separator),
    ensures
        split(left + seq![separator] + right, separator) == split(left, separator).push(right),
    decreases right.len(),
{
    let whole = left + seq![separator] + right;
    if right.len() == 0 {
        assert(whole.drop_last() =~= left);
        assert(right =~= Seq::empty());
    } else {
        assert(right[right.len() - 1] != separator);
        let shorter = right.drop_last();
        assert(!shorter.contains(separator)) by {
            if shorter.contains(separator) {
                let k = choose|k: int| 0 <= k < shorter.len() && shorter[k] == separator;
                assert(right[k] == separator);
            }
        }
        split_behind_a_separator(left, shorter, separator);
        assert(whole.drop_last() =~= left + seq![separator] + shorter);
        let pieces = split(left, separator).push(shorter);
        assert(pieces.drop_last().push(pieces.last().push(right.last())) =~= split(
            left,
            separator,
        ).push(right)) by {
            assert(shorter.push(right.last()) =~= right);
        }
    }
}

/// The name of a file is the last step of its path, whatever stands before it.
pub proof fn file_names_are_the_last_step(directory: Seq<char>, name: Seq<char>)
    requires
        name.len() > 0,
        !name.contains('/'),
        name != "."@,
        name != ".."@,
    ensures
        file_name(directory + seq!['/'] + name) == Some(name),
{
    split_behind_a_separator(directory, name, '/');
    let wanted = |step: Seq<char>| step.len() > 0 && step != "."@;
    split(directory, '/').lemma_filter_push(name, wanted);
    assert(path_names(directory + seq!['/'] + name).last() == name);
}

/// The extension of a name is what stands behind its last dot, and its stem what stands before
/// it. A name that only begins with a dot has no extension.
pub proof fn extensions_stand_behind_the_last_dot(stem: Seq<char>, extension: Seq<char>)
    requires
        !extension.contains('.'),
    ensures
        stem.len() > 0 ==> name_extension(stem + seq!['.'] + extension) == Some(extension)
            && name_stem(stem + seq!['.'] + extension) == stem,
        name_extension(seq!['.'] + extension) is None,
{
    let name = stem + seq!['.'] + extension;
    split_behind_a_separator(stem, extension, '.');
    split_pieces(stem, '.');
    if stem.len() > 0 {
        let pieces = split(stem, '.');
        if pieces.len() == 1 && pieces[0].len() == 0 {
            split_then_join(stem, '.');
            assert(false);
        }
        assert(name.take(name.len() - extension.len() - 1) =~= stem);
    }
    let hidden = seq!['.'] + extension;
    split_behind_a_separator(Seq::empty(), extension, '.');
    assert(Seq::<char>::empty() + seq!['.'] + extension =~= hidden);
    assert(split(Seq::<char>::empty(), '.') =~= seq![Seq::<char>::empty()]);
}

/// Bytes are ordered as in a dictionary: what begins another comes before it, and otherwise the
/// first byte that differs decides.
pub proof fn the_first_difference_decides(
    common: Seq<u8>,
    left: Seq<u8>,
    right: Seq<u8>,
    a: u8,
    b: u8,
)
    requires
        a < b,
    ensures
        bytes_at_most(common, common + left),
        bytes_at_most(common + seq![a] + left, common + seq![b] + right),
        !bytes_at_most(common + seq![b] + right, common + seq![a] + left),
    decreases common.len(),
{
    let low = common + seq![a] + left;
    let high = common + seq![b] + right;
    if common.len() == 0 {
        assert(low[0] == a && high[0] == b);
    } else {
        let rest = common.drop_first();
        the_first_difference_decides(rest, left, right, a, b);
        assert(low.drop_first() =~= rest + seq![a] + left);
        assert(high.drop_first() =~= rest + seq![b] + right);
        assert((common + left).drop_first() =~= rest + left);
        assert(low[0] == common[0] && high[0] == common[0]);
        assert((common + left)[0] == common[0]);
    }
}

/// Trimming takes white space off the ends and nothing else.
pub proof fn trimming_takes_white_space(text: Seq<char>, c: char)
    requires
        is_white_space(c),
    ensures
        trim_end(text.push(c)) == trim_end(text),
        trim_start(seq![c] + text) == trim_start(text),
        text.len() > 0 && !is_white_space(text.last()) ==> trim_end(text) == text,
        text.len() > 0 && !is_white_space(text[0]) ==> trim_start(text) == text,
        is_white_space(' '),
        is_white_space('\n'),
        is_white_space('\t'),
        is_white_space('\r'),
        !is_white_space('a'),
        !is_white_space('-'),
{
    assert(text.push(c).drop_last() =~= text);
    assert((seq![c] + text).drop_first() =~= text);
}

/// A list of texts in JSON holds every text, in its order, with a comma between them; nothing
/// is written as null.
pub proof fn lists_hold_every_text(front: Seq<Seq<char>>, one: Seq<char>, c: char)
    ensures
        json_texts(Seq::empty()) == seq!['[', ']'],
        json_items(seq![one]) == json_text(one),
        front.len() > 0 ==> json_items(front.push(one)) == json_items(front) + seq![',']
            + json_text(one),
        json_texts(front) == seq!['['] + json_items(front) + seq![']'],
        json_text(one) == seq!['"'] + json_characters(one) + seq!['"'],
        c != '"' && c != '\\' && c > '\u{1f}' ==> json_characters(one.push(c)) == json_characters(
            one,
        ).push(c),
        json_characters(one.push('"')) == json_characters(one) + seq!['\\', '"'],
        json_characters(one.push('\\')) == json_characters(one) + seq!['\\', '\\'],
        json_characters(one.push('\n')) == json_characters(one) + seq!['\\', 'n'],
        json_option(None) == "null"@,
        json_option(Some(one)) == json_text(one),
{
    assert(front.push(one).drop_last() =~= front);
    assert(one.push(c).drop_last() =~= one);
    assert(one.push('"').drop_last() =~= one);
    assert(one.push('\\').drop_last() =~= one);
    assert(one.push('\n').drop_last() =~= one);
    assert(json_texts(Seq::empty()) =~= seq!['[', ']']);
    if c != '"' && c != '\\' && c > '\u{1f}' {
        assert(json_characters(one.push(c)) =~= json_characters(one).push(c));
    }
}

/// A bundle in JSON holds every page, in its order.
pub proof fn bundles_hold_every_page(
    front: Seq<Seq<char>>,
    page: Seq<char>,
    bundle: PreparedSourceBundleView,
)
    ensures
        front.len() > 0 ==> page_lines(front.push(page)) == page_lines(front) + ",\n    "@
            + json_text(page),
        page_lines(seq![page]) == "\n    "@ + json_text(page),
        pages_text(front.push(page)) == "["@ + page_lines(front.push(page)) + "\n  ]"@,
        exists|head: Seq<char>, tail: Seq<char>|
            bundle_text(bundle) == #[trigger] (head + pages_text(bundle.pages) + tail),
{
    assert(front.push(page).drop_last() =~= front);
    assert(seq![page].drop_last() =~= Seq::empty());
    assert(page_lines(Seq::empty()) == Seq::<char>::empty());
    assert(Seq::<char>::empty() + "\n    "@ =~= "\n    "@);
    let head = crate::bundle_text::bundle_head(bundle);
    let tail = crate::bundle_text::bundle_tail(bundle);
    assert(bundle_text(bundle) == head + pages_text(bundle.pages) + tail);
}

/// The tags of a revision are the tags of the concept, each in composed form and with line
/// feeds alone; their order and their repetitions do not matter.
pub proof fn revisions_hold_every_tag(tags: Seq<Seq<char>>, tag: Seq<char>)
    ensures
        revision_tags(tags).contains(tag) <==> exists|i: int|
            0 <= i < tags.len() && nfc(line_feeds(#[trigger] tags[i])) == tag,
{
    let made = tags.map_values(|tag: Seq<char>| crate::knowledge::canonical_text(tag));
    let sorted = stable_sort::<String>(made);
    sorting_keeps_items::<String>(made);
    made.to_multiset_ensures();
    sorted.to_multiset_ensures();
    assert(sorted.contains(tag) <==> made.contains(tag)) by {
        assert(made.contains(tag) <==> made.to_multiset().count(tag) > 0);
        assert(sorted.contains(tag) <==> sorted.to_multiset().count(tag) > 0);
    }
    dedup_keeps_items(sorted, tag);
    if made.contains(tag) {
        let i = choose|i: int| 0 <= i < made.len() && made[i] == tag;
        assert(nfc(line_feeds(tags[i])) == tag);
    }
    if exists|i: int| 0 <= i < tags.len() && nfc(line_feeds(#[trigger] tags[i])) == tag {
        let i = choose|i: int| 0 <= i < tags.len() && nfc(line_feeds(#[trigger] tags[i])) == tag;
        assert(made[i] == tag);
    }
}

proof fn final_empty_lines_are_dropped(all: Seq<Seq<char>>)
    ensures
        without_final_empty(all).is_prefix_of(all),
        without_final_empty(all).len() > 0 ==> without_final_empty(all).last().len() > 0,
        forall|i: int|
            without_final_empty(all).len() <= i < all.len() ==> (#[trigger] all[i]).len() == 0,
    decreases all.len(),
{
    if all.len() > 0 && all.last().len() == 0 {
        final_empty_lines_are_dropped(all.drop_last());
        assert forall|i: int|
            without_final_empty(all).len() <= i < all.len() implies (#[trigger] all[i]).len()
            == 0 by {
            if i < all.len() - 1 {
                assert(all.drop_last()[i] == all[i]);
            }
        }
    }
}

/// The body of a revision is the lines of the body without the white space at their ends, up
/// to the last that is not empty, each with a line feed behind it.
pub proof fn revisions_hold_the_lines(body: Seq<char>, kept: Seq<Seq<char>>)
    requires
        kept.len() > 0,
        kept.last().len() > 0,
        kept.is_prefix_of(
            lines(line_feeds(body)).map_values(|line: Seq<char>| trim_end(line)),
        ),
        forall|i: int|
            kept.len() <= i < lines(line_feeds(body)).len() ==> trim_end(
                #[trigger] lines(line_feeds(body))[i],
            ).len() == 0,
    ensures
        revision_body(body) == nfc(join(kept, "\n"@) + "\n"@),
{
    let all = lines(line_feeds(body)).map_values(|line: Seq<char>| trim_end(line));
    let made = without_final_empty(all);
    final_empty_lines_are_dropped(all);
    if made.len() < kept.len() {
        assert(all[kept.len() - 1] == kept.last());
    }
    if made.len() > kept.len() {
        assert(made.last() == all[made.len() - 1]);
        let i = made.len() - 1;
        assert(trim_end(lines(line_feeds(body))[i]).len() == 0);
    }
    assert(made =~= kept);
}

/// A conflict that was not resolved is told by any line that Git marks it with.
pub proof fn conflict_marks_are_found(bytes: Seq<u8>, i: int)
    requires
        0 <= i < lines(lossy_text(bytes)).len(),
        ({
            let line = lines(lossy_text(bytes))[i];
            "<<<<<<< "@.is_prefix_of(line) || line == "======="@ || ">>>>>>> "@.is_prefix_of(line)
        }),
    ensures
        has_conflict_lines(bytes),
{
    assert(is_conflict_line(lines(lossy_text(bytes))[i]));
}

/// Content without a line that Git marks a conflict with holds none.
pub proof fn other_lines_are_no_conflict(bytes: Seq<u8>)
    requires
        forall|i: int|
            0 <= i < lines(lossy_text(bytes)).len() ==> {
                let line = #[trigger] lines(lossy_text(bytes))[i];
                !"<<<<<<< "@.is_prefix_of(line) && line != "======="@ && !">>>>>>> "@.is_prefix_of(
                    line,
                )
            },
    ensures
        !has_conflict_lines(bytes),
{
}

/// A record is told by where it lies: an Asset in the registry, a Source among the Sources,
/// and both only in Markdown.
pub proof fn records_are_told_by_their_place(path: Seq<char>)
    ensures
        "assets/registry/"@.is_prefix_of(path) && ".md"@.is_suffix_of(path) ==> record_kind(path)
            == RecordKind::Asset,
        "sources/"@.is_prefix_of(path) && !"assets/registry/"@.is_prefix_of(path)
            && ".md"@.is_suffix_of(path) ==> record_kind(path) == RecordKind::Source,
        !".md"@.is_suffix_of(path) ==> record_kind(path) == RecordKind::Other,
        !"assets/registry/"@.is_prefix_of(path) && !"sources/"@.is_prefix_of(path) ==> record_kind(
            path,
        ) == RecordKind::Other,
{
}

/// A path in a repository is relative, without a step to the parent directory, a backslash or
/// a null character.
pub proof fn repository_paths_stay_inside(path: Seq<char>)
    ensures
        is_repository_path(path) <==> {
            &&& path.len() > 0
            &&& path[0] != '/'
            &&& !path.contains('\\')
            &&& !path.contains('\0')
            &&& split(path, '/')[0] != "."@
            &&& forall|i: int|
                0 <= i < split(path, '/').len() ==> #[trigger] split(path, '/')[i] != ".."@
        },
{
}

/// The issues of a report come by their code, and those with the same code by their path.
pub proof fn issues_come_by_code(issues: Seq<CheckIssueView>, i: int, j: int)
    requires
        0 <= i < j < tidy(issues).len(),
    ensures
        text_at_most(tidy(issues)[i].code, tidy(issues)[j].code),
        tidy(issues)[i].code == tidy(issues)[j].code && tidy(issues)[i].path is Some
            && tidy(issues)[j].path is Some && tidy(issues)[i].path != tidy(issues)[j].path
            ==> text_at_most(tidy(issues)[i].path->0, tidy(issues)[j].path->0),
{
    crate::check::reports_are_tidy(issues);
    assert(<CheckIssue as Ranked>::leq(tidy(issues)[i], tidy(issues)[j]));
    crate::text::bytes_order_is_total(
        encode_utf8(tidy(issues)[i].code),
        encode_utf8(tidy(issues)[i].code),
    );
}

/// Notes are listed by their title, and those with the same title by their ID.
pub proof fn notes_are_listed_by_title(
    documents: Seq<KnowledgeDocumentView>,
    i: int,
    j: int,
)
    requires
        0 <= i < j < documents.len(),
    ensures
        ({
            let all = stable_sort::<KnowledgeNote>(
                documents.map_values(|document: KnowledgeDocumentView| listed_note(document)),
            );
            &&& all.len() == documents.len()
            &&& text_at_most(all[i].title, all[j].title)
            &&& all[i].title == all[j].title ==> text_at_most(
                all[i].knowledge_id,
                all[j].knowledge_id,
            )
        }),
{
    let notes = documents.map_values(|document: KnowledgeDocumentView| listed_note(document));
    let all = stable_sort::<KnowledgeNote>(notes);
    sorting_keeps_items::<KnowledgeNote>(notes);
    sorting_orders::<KnowledgeNote>(notes);
    assert(<KnowledgeNote as Ranked>::leq(all[i], all[j]));
    crate::text::bytes_order_is_total(encode_utf8(all[i].title), encode_utf8(all[i].title));
}

} // verus!
