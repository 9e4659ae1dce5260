//! The file of a prepared bundle: indented JSON that ends in a line break.

use crate::digest::hex_digit;
use crate::error::{outcome, ErrorView, MkoError};
use crate::json_text::{json_character, json_characters, json_text, to_json_text};
use crate::pdf::{pages_check, text_bytes};
use crate::prepare::{
    is_bundle_of, source_id_of, PreparedSourceBundle, PreparedSourceBundleView,
    MAX_PREPARED_BUNDLE_BYTES,
};
use crate::text::{after_prefix, decimal, decimal_digits};
use vstd::prelude::*;
use vstd::utf8::{encode_utf8, is_ascii_chars, is_ascii_chars_encode_utf8};

verus! {

/// The bytes of a title and a path that leave room for every text within the limits.
pub const ROOMY_NAMES_BYTES: u64 = 1_048_576;

/// The pages of a bundle, each on a line of its own.
pub open spec fn page_lines(pages: Seq<Seq<char>>) -> Seq<char>
    decreases pages.len(),
{
    if pages.len() == 0 {
        Seq::empty()
    } else {
        page_lines(pages.drop_last()) + (if pages.len() == 1 {
            "\n    "@
        } else {
            ",\n    "@
        }) + json_text(pages.last())
    }
}

/// The pages of a bundle as a JSON array.
pub open spec fn pages_text(pages: Seq<Seq<char>>) -> Seq<char> {
    if pages.len() == 0 {
        "[]"@
    } else {
        "["@ + page_lines(pages) + "\n  ]"@
    }
}

/// What stands before the pages of a bundle.
pub open spec fn bundle_head(bundle: PreparedSourceBundleView) -> Seq<char> {
    "{\n  \"schema_version\": "@ + decimal_digits(bundle.schema_version as nat)
        + ",\n  \"asset_id\": "@ + json_text(bundle.asset_id) + ",\n  \"source_id\": "@ + json_text(
        bundle.source_id,
    ) + ",\n  \"fingerprint\": {\n    \"method\": "@ + json_text(bundle.fingerprint.method)
        + ",\n    \"value\": "@ + json_text(bundle.fingerprint.value)
        + "\n  },\n  \"title_hint\": "@ + json_text(bundle.title_hint)
        + ",\n  \"logical_path\": "@ + json_text(bundle.logical_path) + ",\n  \"pages\": "@
}

/// What stands after the pages of a bundle.
pub open spec fn bundle_tail(bundle: PreparedSourceBundleView) -> Seq<char> {
    ",\n  \"trust\": "@ + json_text(bundle.trust) + ",\n  \"extractor\": {\n    \"name\": "@
        + json_text(bundle.extractor.name) + ",\n    \"version\": "@ + json_text(
        bundle.extractor.version,
    ) + "\n  },\n  \"core_version\": "@ + json_text(bundle.core_version)
        + ",\n  \"processor_version\": "@ + json_text(bundle.processor_version)
        + ",\n  \"prompt_version\": "@ + json_text(bundle.prompt_version) + "\n}\n"@
}

/// The text of the file of a bundle.
pub open spec fn bundle_text(bundle: PreparedSourceBundleView) -> Seq<char> {
    bundle_head(bundle) + pages_text(bundle.pages) + bundle_tail(bundle)
}

/// Appends what stands before a text, and the text as a JSON string.
fn put(text: &mut String, lead: &str, value: &str) -> (result: Result<(), MkoError>)
    ensures
        result is Ok,
        final(text)@ == old(text)@ + lead@ + json_text(value@),
{
    match to_json_text(value) {
        Ok(written) => {
            text.append(lead);
            text.append(written.as_str());
            Ok(())
        },
        Err(detail) => Err(MkoError::new("bundle_invalid", detail.as_str())),
    }
}

fn put_pages(text: &mut String, pages: &Vec<String>) -> (result: Result<(), MkoError>)
    ensures
        result is Ok,
        final(text)@ == old(text)@ + pages_text(pages.deep_view()),
{
    let ghost start = text@;
    let ghost all = pages.deep_view();
    if pages.len() == 0 {
        text.append("[]");
        return Ok(());
    }
    text.append("[");
    let mut i: usize = 0;
    assert(all.take(0) == Seq::<Seq<char>>::empty());
    assert(start + "["@ + page_lines(all.take(0)) == start + "["@);
    while i < pages.len()
        invariant
            i <= pages.len(),
            all == pages.deep_view(),
            text@ == start + "["@ + page_lines(all.take(i as int)),
        decreases pages.len() - i,
    {
        let lead = if i == 0 {
            "\n    "
        } else {
            ",\n    "
        };
        let ghost front = page_lines(all.take(i as int));
        assert(all.take(i + 1).drop_last() == all.take(i as int));
        assert(all.take(i + 1).last() == pages@[i as int]@);
        match put(text, lead, pages[i].as_str()) {
            Ok(_) => {},
            Err(failure) => {
                return Err(failure);
            },
        }
        assert(start + "["@ + front + lead@ + json_text(pages@[i as int]@) == start + "["@ + (front
            + lead@ + json_text(pages@[i as int]@)));
        i += 1;
    }
    assert(all.take(i as int) == all);
    text.append("\n  ]");
    assert(text@ == start + ("["@ + page_lines(all) + "\n  ]"@));
    Ok(())
}

fn put_head(text: &mut String, bundle: &PreparedSourceBundle) -> (result: Result<(), MkoError>)
    requires
        old(text)@ == Seq::<char>::empty(),
    ensures
        result is Ok,
        final(text)@ == bundle_head(bundle.deep_view()),
{
    text.append("{\n  \"schema_version\": ");
    text.append(decimal(bundle.schema_version as u64).as_str());
    match put(text, ",\n  \"asset_id\": ", bundle.asset_id.as_str()) {
        Ok(_) => {},
        Err(failure) => {
            return Err(failure);
        },
    }
    match put(text, ",\n  \"source_id\": ", bundle.source_id.as_str()) {
        Ok(_) => {},
        Err(failure) => {
            return Err(failure);
        },
    }
    match put(
        text,
        ",\n  \"fingerprint\": {\n    \"method\": ",
        bundle.fingerprint.method.as_str(),
    ) {
        Ok(_) => {},
        Err(failure) => {
            return Err(failure);
        },
    }
    match put(text, ",\n    \"value\": ", bundle.fingerprint.value.as_str()) {
        Ok(_) => {},
        Err(failure) => {
            return Err(failure);
        },
    }
    match put(text, "\n  },\n  \"title_hint\": ", bundle.title_hint.as_str()) {
        Ok(_) => {},
        Err(failure) => {
            return Err(failure);
        },
    }
    match put(text, ",\n  \"logical_path\": ", bundle.logical_path.as_str()) {
        Ok(_) => {},
        Err(failure) => {
            return Err(failure);
        },
    }
    text.append(",\n  \"pages\": ");
    Ok(())
}

fn put_tail(text: &mut String, bundle: &PreparedSourceBundle) -> (result: Result<(), MkoError>)
    ensures
        result is Ok,
        final(text)@ == old(text)@ + bundle_tail(bundle.deep_view()),
{
    let ghost start = text@;
    match put(text, ",\n  \"trust\": ", bundle.trust.as_str()) {
        Ok(_) => {},
        Err(failure) => {
            return Err(failure);
        },
    }
    match put(text, ",\n  \"extractor\": {\n    \"name\": ", bundle.extractor.name.as_str()) {
        Ok(_) => {},
        Err(failure) => {
            return Err(failure);
        },
    }
    match put(text, ",\n    \"version\": ", bundle.extractor.version.as_str()) {
        Ok(_) => {},
        Err(failure) => {
            return Err(failure);
        },
    }
    match put(text, "\n  },\n  \"core_version\": ", bundle.core_version.as_str()) {
        Ok(_) => {},
        Err(failure) => {
            return Err(failure);
        },
    }
    match put(text, ",\n  \"processor_version\": ", bundle.processor_version.as_str()) {
        Ok(_) => {},
        Err(failure) => {
            return Err(failure);
        },
    }
    match put(text, ",\n  \"prompt_version\": ", bundle.prompt_version.as_str()) {
        Ok(_) => {},
        Err(failure) => {
            return Err(failure);
        },
    }
    text.append("\n}\n");
    assert(text@ == start + bundle_tail(bundle.deep_view()));
    Ok(())
}

/// The text of the file of a bundle.
pub fn render_prepared_bundle(bundle: &PreparedSourceBundle) -> (result: Result<String, MkoError>)
    ensures
        outcome(result) == Ok::<Seq<char>, ErrorView>(bundle_text(bundle.deep_view())),
{
    let mut text = String::new();
    match put_head(&mut text, bundle) {
        Ok(_) => {},
        Err(failure) => {
            return Err(failure);
        },
    }
    match put_pages(&mut text, &bundle.pages) {
        Ok(_) => {},
        Err(failure) => {
            return Err(failure);
        },
    }
    match put_tail(&mut text, bundle) {
        Ok(_) => {},
        Err(failure) => {
            return Err(failure);
        },
    }
    Ok(text)
}

/// The bytes that a text takes.
pub open spec fn utf8_size(text: Seq<char>) -> nat {
    encode_utf8(text).len()
}

proof fn sizes_add(a: Seq<char>, b: Seq<char>)
    ensures
        utf8_size(a + b) == utf8_size(a) + utf8_size(b),
    decreases a.len(),
{
    if a.len() == 0 {
        assert(a + b == b);
    } else {
        sizes_add(a.drop_first(), b);
        assert((a + b).drop_first() == a.drop_first() + b);
    }
}

proof fn characters_take_four(text: Seq<char>)
    ensures
        utf8_size(text) <= 4 * text.len(),
    decreases text.len(),
{
    if text.len() > 0 {
        characters_take_four(text.drop_first());
    }
}

proof fn escapes_take_six(c: char)
    ensures
        utf8_size(json_character(c)) <= 6 * utf8_size(seq![c]),
{
    let written = json_character(c);
    if written == seq![c] {
    } else {
        assert(is_ascii_chars(seq![c]));
        is_ascii_chars_encode_utf8(seq![c]);
        assert(is_ascii_chars(written)) by {
            let high = hex_digit(c as int / 16);
            let low = hex_digit(c as int % 16);
            assert('\0' <= high <= '\u{7f}');
            assert('\0' <= low <= '\u{7f}');
        }
        is_ascii_chars_encode_utf8(written);
    }
}

proof fn escaped_texts_take_six(text: Seq<char>)
    ensures
        utf8_size(json_characters(text)) <= 6 * utf8_size(text),
    decreases text.len(),
{
    if text.len() > 0 {
        let front = text.drop_last();
        escaped_texts_take_six(front);
        escapes_take_six(text.last());
        assert(front + seq![text.last()] == text);
        sizes_add(front, seq![text.last()]);
        sizes_add(json_characters(front), json_character(text.last()));
    }
}

/// As a JSON string, a text takes at most six bytes for each of its own, and its quotes.
pub proof fn json_takes_six(text: Seq<char>)
    ensures
        utf8_size(json_text(text)) <= 6 * utf8_size(text) + 8,
{
    escaped_texts_take_six(text);
    let quote = seq!['"'];
    characters_take_four(quote);
    sizes_add(quote, json_characters(text));
    sizes_add(quote + json_characters(text), quote);
}

proof fn page_lines_are_bounded(pages: Seq<Seq<char>>)
    ensures
        utf8_size(page_lines(pages)) <= 6 * text_bytes(pages) + 32 * pages.len(),
    decreases pages.len(),
{
    if pages.len() > 0 {
        let lead = if pages.len() == 1 {
            "\n    "@
        } else {
            ",\n    "@
        };
        assert(lead.len() <= 6) by {
            reveal_strlit("\n    ");
            reveal_strlit(",\n    ");
        }
        page_lines_are_bounded(pages.drop_last());
        characters_take_four(lead);
        json_takes_six(pages.last());
        sizes_add(page_lines(pages.drop_last()), lead);
        sizes_add(page_lines(pages.drop_last()) + lead, json_text(pages.last()));
    }
}

proof fn pages_are_bounded(pages: Seq<Seq<char>>)
    ensures
        utf8_size(pages_text(pages)) <= 6 * text_bytes(pages) + 32 * pages.len() + 20,
{
    reveal_strlit("[]");
    reveal_strlit("[");
    reveal_strlit("\n  ]");
    characters_take_four("[]"@);
    characters_take_four("["@);
    characters_take_four("\n  ]"@);
    page_lines_are_bounded(pages);
    sizes_add("["@, page_lines(pages));
    sizes_add("["@ + page_lines(pages), "\n  ]"@);
}

/// A step of a text: what was there, what leads to a value, and the value.
proof fn steps_are_bounded(front: Seq<char>, lead: Seq<char>, value: Seq<char>)
    requires
        lead.len() <= 40,
    ensures
        utf8_size(front + lead + json_text(value)) <= utf8_size(front) + 168 + 6 * utf8_size(value),
{
    characters_take_four(lead);
    json_takes_six(value);
    sizes_add(front, lead);
    sizes_add(front + lead, json_text(value));
}

proof fn head_is_bounded(bundle: PreparedSourceBundleView)
    requires
        bundle.schema_version == 1,
        bundle.asset_id.len() <= 100,
        bundle.source_id.len() <= 100,
        bundle.fingerprint.method.len() <= 100,
        bundle.fingerprint.value.len() <= 100,
    ensures
        utf8_size(bundle_head(bundle)) <= 6 * utf8_size(bundle.title_hint) + 6 * utf8_size(
            bundle.logical_path,
        ) + 12_000,
{
    reveal_strlit("{\n  \"schema_version\": ");
    reveal_strlit(",\n  \"asset_id\": ");
    reveal_strlit(",\n  \"source_id\": ");
    reveal_strlit(",\n  \"fingerprint\": {\n    \"method\": ");
    reveal_strlit(",\n    \"value\": ");
    reveal_strlit("\n  },\n  \"title_hint\": ");
    reveal_strlit(",\n  \"logical_path\": ");
    reveal_strlit(",\n  \"pages\": ");
    let first = "{\n  \"schema_version\": "@;
    let a = first + decimal_digits(1);
    characters_take_four(a);
    let b = a + ",\n  \"asset_id\": "@ + json_text(bundle.asset_id);
    steps_are_bounded(a, ",\n  \"asset_id\": "@, bundle.asset_id);
    characters_take_four(bundle.asset_id);
    let c = b + ",\n  \"source_id\": "@ + json_text(bundle.source_id);
    steps_are_bounded(b, ",\n  \"source_id\": "@, bundle.source_id);
    characters_take_four(bundle.source_id);
    let method = ",\n  \"fingerprint\": {\n    \"method\": "@;
    let d = c + method + json_text(bundle.fingerprint.method);
    steps_are_bounded(c, method, bundle.fingerprint.method);
    characters_take_four(bundle.fingerprint.method);
    let e = d + ",\n    \"value\": "@ + json_text(bundle.fingerprint.value);
    steps_are_bounded(d, ",\n    \"value\": "@, bundle.fingerprint.value);
    characters_take_four(bundle.fingerprint.value);
    let f = e + "\n  },\n  \"title_hint\": "@ + json_text(bundle.title_hint);
    steps_are_bounded(e, "\n  },\n  \"title_hint\": "@, bundle.title_hint);
    let g = f + ",\n  \"logical_path\": "@ + json_text(bundle.logical_path);
    steps_are_bounded(f, ",\n  \"logical_path\": "@, bundle.logical_path);
    characters_take_four(",\n  \"pages\": "@);
    sizes_add(g, ",\n  \"pages\": "@);
}

proof fn tail_is_bounded(bundle: PreparedSourceBundleView)
    requires
        bundle.trust.len() <= 100,
        bundle.extractor.name.len() <= 100,
        bundle.extractor.version.len() <= 100,
        bundle.core_version.len() <= 100,
        bundle.processor_version.len() <= 100,
        bundle.prompt_version.len() <= 100,
    ensures
        utf8_size(bundle_tail(bundle)) <= 16_000,
{
    reveal_strlit(",\n  \"trust\": ");
    reveal_strlit(",\n  \"extractor\": {\n    \"name\": ");
    reveal_strlit(",\n    \"version\": ");
    reveal_strlit("\n  },\n  \"core_version\": ");
    reveal_strlit(",\n  \"processor_version\": ");
    reveal_strlit(",\n  \"prompt_version\": ");
    reveal_strlit("\n}\n");
    let none = Seq::<char>::empty();
    let a = ",\n  \"trust\": "@ + json_text(bundle.trust);
    steps_are_bounded(none, ",\n  \"trust\": "@, bundle.trust);
    assert(none + ",\n  \"trust\": "@ == ",\n  \"trust\": "@);
    characters_take_four(bundle.trust);
    let b = a + ",\n  \"extractor\": {\n    \"name\": "@ + json_text(bundle.extractor.name);
    steps_are_bounded(a, ",\n  \"extractor\": {\n    \"name\": "@, bundle.extractor.name);
    characters_take_four(bundle.extractor.name);
    let c = b + ",\n    \"version\": "@ + json_text(bundle.extractor.version);
    steps_are_bounded(b, ",\n    \"version\": "@, bundle.extractor.version);
    characters_take_four(bundle.extractor.version);
    let d = c + "\n  },\n  \"core_version\": "@ + json_text(bundle.core_version);
    steps_are_bounded(c, "\n  },\n  \"core_version\": "@, bundle.core_version);
    characters_take_four(bundle.core_version);
    let e = d + ",\n  \"processor_version\": "@ + json_text(bundle.processor_version);
    steps_are_bounded(d, ",\n  \"processor_version\": "@, bundle.processor_version);
    characters_take_four(bundle.processor_version);
    let f = e + ",\n  \"prompt_version\": "@ + json_text(bundle.prompt_version);
    steps_are_bounded(e, ",\n  \"prompt_version\": "@, bundle.prompt_version);
    characters_take_four(bundle.prompt_version);
    characters_take_four("\n}\n"@);
    sizes_add(f, "\n}\n"@);
}

/// The file of a bundle can be loaded, whatever its pages hold within their limits, where
/// its title and its path take no more than a mebibyte together.
pub proof fn bundles_with_roomy_names_fit(bundle: PreparedSourceBundleView, asset_id: Seq<char>)
    requires
        is_bundle_of(bundle, asset_id),
        pages_check(bundle.pages) is Ok,
        utf8_size(bundle.title_hint) + utf8_size(bundle.logical_path) <= ROOMY_NAMES_BYTES,
    ensures
        utf8_size(bundle_text(bundle)) <= MAX_PREPARED_BUNDLE_BYTES,
{
    reveal_strlit("personal-asset-");
    reveal_strlit("personal-source-");
    reveal_strlit("sha256");
    reveal_strlit("sha256:");
    reveal_strlit("untrusted_document_text");
    reveal_strlit("pdf-extract");
    reveal_strlit("0.12.0");
    reveal_strlit("0.1.0");
    reveal_strlit("source-v1");
    reveal_strlit("codex-source-v1");
    assert(source_id_of(asset_id) is Ok);
    let hash = after_prefix(asset_id, "personal-asset-"@)->0;
    assert(hash.len() == 64);
    head_is_bounded(bundle);
    pages_are_bounded(bundle.pages);
    tail_is_bounded(bundle);
    sizes_add(bundle_head(bundle), pages_text(bundle.pages));
    sizes_add(bundle_head(bundle) + pages_text(bundle.pages), bundle_tail(bundle));
}

} // verus!
