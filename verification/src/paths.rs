//! Paths inside a repository or an inbox, as text with slashes: their names and extensions.

use crate::text::{ascii_lower, same, split, split_text, to_ascii_lower, to_chars};
use vstd::prelude::*;

verus! {

/// The names on a path inside a repository or an inbox: what stands between its slashes, without empty names and
/// without steps to the current directory.
pub open spec fn path_names(path: Seq<char>) -> Seq<Seq<char>> {
    split(path, '/').filter(|name: Seq<char>| name.len() > 0 && name != "."@)
}

/// The last name of a path, unless the path ends in a step to the parent directory or
/// names nothing.
pub open spec fn file_name(path: Seq<char>) -> Option<Seq<char>> {
    let names = path_names(path);
    if names.len() == 0 || names.last() == ".."@ {
        None
    } else {
        Some(names.last())
    }
}

/// What follows the last dot of a file name, and what stands before it. A name without a
/// dot, or with its only dot at the start, has no extension.
pub open spec fn name_extension(name: Seq<char>) -> Option<Seq<char>> {
    let pieces = split(name, '.');
    if pieces.len() < 2 || (pieces.len() == 2 && pieces[0].len() == 0) {
        None
    } else {
        Some(pieces.last())
    }
}

/// The name without its extension.
pub open spec fn name_stem(name: Seq<char>) -> Seq<char> {
    match name_extension(name) {
        None => name,
        Some(extension) => name.take(name.len() - extension.len() - 1),
    }
}

pub(crate) fn names_of(path: &str) -> (names: Vec<String>)
    ensures
        names.deep_view() == path_names(path@),
{
    let pieces = split_text(path, '/');
    let ghost all = pieces.deep_view();
    let ghost keep = |name: Seq<char>| name.len() > 0 && name != "."@;
    let mut names: Vec<String> = Vec::new();
    let mut i: usize = 0;
    proof {
        reveal(Seq::filter);
        assert(all.take(0).filter(keep) == Seq::<Seq<char>>::empty());
        assert(names.deep_view() == Seq::<Seq<char>>::empty());
    }
    while i < pieces.len()
        invariant
            i <= pieces.len(),
            all == pieces.deep_view(),
            keep == (|name: Seq<char>| name.len() > 0 && name != "."@),
            names.deep_view() == all.take(i as int).filter(keep),
        decreases pieces.len() - i,
    {
        proof {
            reveal(Seq::filter);
            assert(all.take(i + 1).drop_last() == all.take(i as int));
            assert(all.take(i + 1).last() == pieces@[i as int]@);
        }
        if !pieces[i].as_str().is_empty() && !same(pieces[i].as_str(), ".") {
            let ghost before = names.deep_view();
            names.push(pieces[i].clone());
            assert(names.deep_view() == before.push(pieces@[i as int]@));
        }
        i += 1;
    }
    assert(all.take(i as int) == all);
    names
}

pub(crate) fn file_name_of(path: &str) -> (name: Option<String>)
    ensures
        name.deep_view() == file_name(path@),
{
    let mut names = names_of(path);
    let ghost all = names.deep_view();
    match names.pop() {
        None => None,
        Some(last) => {
            assert(all.last() == last@);
            if same(last.as_str(), "..") {
                None
            } else {
                Some(last)
            }
        },
    }
}

pub(crate) fn extension_of(name: &str) -> (extension: Option<String>)
    ensures
        extension.deep_view() == name_extension(name@),
{
    let mut pieces = split_text(name, '.');
    let ghost all = pieces.deep_view();
    if pieces.len() < 2 || (pieces.len() == 2 && pieces[0].as_str().is_empty()) {
        assert(pieces.len() > 0 ==> all[0] == pieces@[0]@);
        return None;
    }
    assert(all[0] == pieces@[0]@);
    match pieces.pop() {
        None => None,
        Some(last) => {
            assert(all.last() == last@);
            Some(last)
        },
    }
}

/// The lowercase form of every ASCII letter.
pub open spec fn ascii_lowered(text: Seq<char>) -> Seq<char> {
    text.map_values(|c: char| ascii_lower(c))
}

pub(crate) fn lowered_ascii(text: &str) -> (lowered: String)
    ensures
        lowered@ == ascii_lowered(text@),
{
    let chars = to_chars(text);
    let mut lowered = String::new();
    let mut i: usize = 0;
    while i < chars.len()
        invariant
            i <= chars.len(),
            chars@ == text@,
            lowered@ == ascii_lowered(text@.take(i as int)),
        decreases chars.len() - i,
    {
        lowered.push(to_ascii_lower(chars[i]));
        assert(text@.take(i + 1) == text@.take(i as int).push(text@[i as int]));
        assert(ascii_lowered(text@.take(i + 1)) == ascii_lowered(text@.take(i as int)).push(
            ascii_lower(text@[i as int]),
        ));
        i += 1;
    }
    assert(text@.take(i as int) == text@);
    lowered
}

} // verus!
