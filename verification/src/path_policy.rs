//! Which names and paths every supported platform can hold, and which of them collide.

use crate::error::{error, outcome, verdict, ErrorView, MkoError};
use crate::local_path::{is_within, within, LocalPath};
use crate::text::{
    ascii_upper, byte_len, contains_char, has_slug, is_slug, join, join_texts, same, split,
    split_pieces, split_text, to_ascii_upper, to_chars,
};
use crate::unicode::{collision_key, collision_key_of, nfc, to_nfc};
use vstd::prelude::*;
use vstd::utf8::encode_utf8;

verus! {

/// The longest name of one file or directory, in bytes.
pub const MAX_PORTABLE_COMPONENT_BYTES: usize = 255;

/// The longest relative path, in bytes.
pub const MAX_PORTABLE_RELATIVE_PATH_BYTES: usize = 240;

/// A character that no file name on Windows can hold.
pub open spec fn is_forbidden_char(c: char) -> bool {
    c <= '\u{1f}' || c == '<' || c == '>' || c == ':' || c == '"' || c == '\\' || c == '|' || c
        == '?' || c == '*'
}

/// The part of a name before its first dot.
pub open spec fn stem(name: Seq<char>) -> Seq<char> {
    split(name, '.')[0]
}

/// A device name of Windows, in capitals: CON, PRN, AUX, NUL, COM1 to COM9, LPT1 to LPT9.
pub open spec fn is_device_name(name: Seq<char>) -> bool {
    ||| name == seq!['C', 'O', 'N']
    ||| name == seq!['P', 'R', 'N']
    ||| name == seq!['A', 'U', 'X']
    ||| name == seq!['N', 'U', 'L']
    ||| {
        &&& name.len() == 4
        &&& (name.take(3) == seq!['C', 'O', 'M'] || name.take(3) == seq!['L', 'P', 'T'])
        &&& '1' <= name[3] <= '9'
    }
}

/// The rule for one component of a path: what Windows can hold.
pub open spec fn windows_component(name: Seq<char>) -> Result<(), ErrorView> {
    if encode_utf8(name).len() > MAX_PORTABLE_COMPONENT_BYTES || (exists|i: int|
        0 <= i < name.len() && is_forbidden_char(#[trigger] name[i])) {
        Err(
            error(
                "windows_reserved_name"@,
                "path contains a Windows-forbidden character or oversized component"@,
            ),
        )
    } else if name.len() == 0 || name.last() == '.' || name.last() == ' ' {
        Err(
            error(
                "windows_reserved_name"@,
                "path components may not end in a dot or space"@,
            ),
        )
    } else if is_device_name(stem(name).map_values(|c: char| ascii_upper(c))) {
        Err(error("windows_reserved_name"@, "path contains a Windows reserved name"@))
    } else {
        Ok(())
    }
}

/// The rule for one component of a portable relative path.
pub open spec fn portable_component(name: Seq<char>) -> Result<(), ErrorView> {
    if name.len() == 0 || name == "."@ || name == ".."@ || encode_utf8(name).len()
        > MAX_PORTABLE_COMPONENT_BYTES {
        Err(
            error(
                "path_not_portable"@,
                "path contains an empty, traversal, or oversized component"@,
            ),
        )
    } else if windows_component(name) is Err {
        Err(error("path_not_portable"@, "path contains a Windows-incompatible component"@))
    } else {
        Ok(())
    }
}

/// The first failing component decides.
pub open spec fn portable_components(names: Seq<Seq<char>>) -> Result<(), ErrorView>
    decreases names.len(),
{
    if names.len() == 0 {
        Ok(())
    } else if portable_components(names.drop_last()) is Err {
        portable_components(names.drop_last())
    } else {
        portable_component(names.last())
    }
}

/// The rule for a relative path that every platform can hold.
pub open spec fn portable_path(path: Seq<char>) -> Result<(), ErrorView> {
    if path.len() == 0 || encode_utf8(path).len() > MAX_PORTABLE_RELATIVE_PATH_BYTES || path[0]
        == '/' || path.contains('\\') {
        Err(error("path_not_portable"@, "path must be a bounded portable relative path"@))
    } else {
        portable_components(split(path, '/'))
    }
}

fn has_forbidden_char(chars: &Vec<char>) -> (found: bool)
    ensures
        found == (exists|i: int| 0 <= i < chars.len() && is_forbidden_char(#[trigger] chars@[i])),
{
    let mut i: usize = 0;
    while i < chars.len()
        invariant
            i <= chars.len(),
            forall|k: int| 0 <= k < i ==> !is_forbidden_char(#[trigger] chars@[k]),
        decreases chars.len() - i,
    {
        let c = chars[i];
        if c <= '\u{1f}' || c == '<' || c == '>' || c == ':' || c == '"' || c == '\\' || c == '|'
            || c == '?' || c == '*' {
            assert(is_forbidden_char(chars@[i as int]));
            return true;
        }
        i += 1;
    }
    false
}

fn names_device(name: &str) -> (result: bool)
    ensures
        result == is_device_name(name@.map_values(|c: char| ascii_upper(c))),
{
    let chars = to_chars(name);
    let ghost upper = name@.map_values(|c: char| ascii_upper(c));
    if chars.len() < 3 || chars.len() > 4 {
        assert(seq!['C', 'O', 'N'].len() == 3 && seq!['P', 'R', 'N'].len() == 3);
        assert(seq!['A', 'U', 'X'].len() == 3 && seq!['N', 'U', 'L'].len() == 3);
        return false;
    }
    let a = to_ascii_upper(chars[0]);
    let b = to_ascii_upper(chars[1]);
    let c = to_ascii_upper(chars[2]);
    if chars.len() == 3 {
        assert(upper == seq![a, b, c]);
        let con = a == 'C' && b == 'O' && c == 'N';
        let prn = a == 'P' && b == 'R' && c == 'N';
        let aux = a == 'A' && b == 'U' && c == 'X';
        let nul = a == 'N' && b == 'U' && c == 'L';
        proof {
            let con_name = seq!['C', 'O', 'N'];
            let prn_name = seq!['P', 'R', 'N'];
            let aux_name = seq!['A', 'U', 'X'];
            let nul_name = seq!['N', 'U', 'L'];
            assert(con_name[0] == 'C' && con_name[1] == 'O' && con_name[2] == 'N');
            assert(prn_name[0] == 'P' && prn_name[1] == 'R' && prn_name[2] == 'N');
            assert(aux_name[0] == 'A' && aux_name[1] == 'U' && aux_name[2] == 'X');
            assert(nul_name[0] == 'N' && nul_name[1] == 'U' && nul_name[2] == 'L');
            assert(upper[0] == a && upper[1] == b && upper[2] == c);
        }
        return con || prn || aux || nul;
    }
    let d = to_ascii_upper(chars[3]);
    let com = a == 'C' && b == 'O' && c == 'M';
    let lpt = a == 'L' && b == 'P' && c == 'T';
    proof {
        let com_name = seq!['C', 'O', 'M'];
        let lpt_name = seq!['L', 'P', 'T'];
        assert(com_name[0] == 'C' && com_name[1] == 'O' && com_name[2] == 'M');
        assert(lpt_name[0] == 'L' && lpt_name[1] == 'P' && lpt_name[2] == 'T');
        assert(upper.take(3) == seq![a, b, c]);
        assert(upper.take(3)[0] == a && upper.take(3)[1] == b && upper.take(3)[2] == c);
        assert(upper[3] == d);
    }
    (com || lpt) && '1' <= d && d <= '9'
}

pub(crate) fn reject_windows_component(value: &str) -> (result: Result<(), MkoError>)
    ensures
        verdict(result) == windows_component(value@),
{
    let chars = to_chars(value);
    if byte_len(value) > MAX_PORTABLE_COMPONENT_BYTES || has_forbidden_char(&chars) {
        return Err(
            MkoError::new(
                "windows_reserved_name",
                "path contains a Windows-forbidden character or oversized component",
            ),
        );
    }
    if chars.len() == 0 || chars[chars.len() - 1] == '.' || chars[chars.len() - 1] == ' ' {
        return Err(
            MkoError::new("windows_reserved_name", "path components may not end in a dot or space"),
        );
    }
    let pieces = split_text(value, '.');
    proof {
        split_pieces(value@, '.');
        assert(pieces.deep_view()[0] == pieces@[0]@);
    }
    if names_device(pieces[0].as_str()) {
        return Err(MkoError::new("windows_reserved_name", "path contains a Windows reserved name"));
    }
    Ok(())
}

pub fn validate_ascii_slug(slug: &str) -> (result: Result<(), MkoError>)
    ensures
        verdict(result) == (if is_slug(slug@) {
            windows_component(slug@)
        } else {
            Err(
                error(
                    "invalid_slug"@,
                    "slug must contain only lowercase ASCII letters, digits, and hyphens"@,
                ),
            )
        }),
{
    if !has_slug(slug) {
        return Err(
            MkoError::new(
                "invalid_slug",
                "slug must contain only lowercase ASCII letters, digits, and hyphens",
            ),
        );
    }
    reject_windows_component(slug)
}

fn check_component(component: &str) -> (result: Result<(), MkoError>)
    ensures
        verdict(result) == portable_component(component@),
{
    if component.is_empty() || same(component, ".") || same(component, "..") || byte_len(component)
        > MAX_PORTABLE_COMPONENT_BYTES {
        return Err(
            MkoError::new(
                "path_not_portable",
                "path contains an empty, traversal, or oversized component",
            ),
        );
    }
    match reject_windows_component(component) {
        Ok(_) => Ok(()),
        Err(_) => Err(
            MkoError::new("path_not_portable", "path contains a Windows-incompatible component"),
        ),
    }
}

#[verifier::loop_isolation(false)]
pub fn validate_portable_relative_path(path: &str) -> (result: Result<(), MkoError>)
    ensures
        verdict(result) == portable_path(path@),
{
    if path.is_empty() || byte_len(path) > MAX_PORTABLE_RELATIVE_PATH_BYTES || path.get_char(0)
        == '/' || contains_char(path, '\\') {
        return Err(
            MkoError::new("path_not_portable", "path must be a bounded portable relative path"),
        );
    }
    let components = split_text(path, '/');
    let ghost names = components.deep_view();
    let mut i: usize = 0;
    while i < components.len()
        invariant
            i <= components.len(),
            names == components.deep_view(),
            portable_components(names.take(i as int)) is Ok,
        decreases components.len() - i,
    {
        assert(names.take(i + 1).drop_last() == names.take(i as int));
        assert(names.take(i + 1).last() == components@[i as int]@);
        match check_component(components[i].as_str()) {
            Ok(_) => {},
            Err(failure) => {
                proof {
                    failing_component_decides(names, i as int);
                }
                return Err(failure);
            },
        }
        i += 1;
    }
    assert(names.take(i as int) == names);
    Ok(())
}

proof fn failing_component_decides(names: Seq<Seq<char>>, at: int)
    requires
        0 <= at < names.len(),
        portable_components(names.take(at)) is Ok,
        portable_component(names[at]) is Err,
    ensures
        portable_components(names) == portable_component(names[at]),
    decreases names.len(),
{
    if at == names.len() - 1 {
        assert(names.drop_last() == names.take(at));
    } else {
        assert(names.drop_last().take(at) == names.take(at));
        failing_component_decides(names.drop_last(), at);
    }
}

/// One step of a path as a file system names it.
#[derive(Clone, Debug, PartialEq, Eq)]
pub enum PathPart {
    /// An ordinary name.
    Name(String),
    /// An ordinary name that is not valid UTF-8.
    NotUtf8,
    /// A root, a drive, or a step to the current or parent directory.
    Traversal,
}

#[verifier::ext_equal]
pub enum PathPartView {
    Name(Seq<char>),
    NotUtf8,
    Traversal,
}

impl DeepView for PathPart {
    type V = PathPartView;

    open spec fn deep_view(&self) -> PathPartView {
        match self {
            PathPart::Name(name) => PathPartView::Name(name@),
            PathPart::NotUtf8 => PathPartView::NotUtf8,
            PathPart::Traversal => PathPartView::Traversal,
        }
    }
}

impl PathPart {
    /// A copy that holds the same.
    pub(crate) fn duplicate(&self) -> (copy: Self)
        ensures
            copy.deep_view() == self.deep_view(),
    {
        match self {
            PathPart::Name(name) => PathPart::Name(name.clone()),
            PathPart::NotUtf8 => PathPart::NotUtf8,
            PathPart::Traversal => PathPart::Traversal,
        }
    }
}

/// The rule for one step of a logical path, once it is normalized.
pub open spec fn logical_name(name: Seq<char>) -> Result<Seq<char>, ErrorView> {
    if name.len() == 0 {
        Err(error("invalid_path"@, "logical path component is empty"@))
    } else {
        match windows_component(name) {
            Ok(_) => Ok(name),
            Err(failure) => Err(failure),
        }
    }
}

/// The normalized form of one step of a logical path.
pub open spec fn logical_part(part: PathPartView) -> Result<Seq<char>, ErrorView> {
    match part {
        PathPartView::Traversal => Err(
            error("invalid_path"@, "logical paths must not contain traversal"@),
        ),
        PathPartView::NotUtf8 => Err(
            error("invalid_path"@, "logical paths must be valid UTF-8"@),
        ),
        PathPartView::Name(name) => logical_name(nfc(name)),
    }
}

/// The normalized steps; the first failing one decides.
pub open spec fn logical_parts(parts: Seq<PathPartView>) -> Result<Seq<Seq<char>>, ErrorView>
    decreases parts.len(),
{
    if parts.len() == 0 {
        Ok(Seq::empty())
    } else {
        match logical_parts(parts.drop_last()) {
            Err(failure) => Err(failure),
            Ok(names) => match logical_part(parts.last()) {
                Err(failure) => Err(failure),
                Ok(name) => Ok(names.push(name)),
            },
        }
    }
}

/// The steps, normalized and joined by slashes.
pub open spec fn logical_path(parts: Seq<PathPartView>) -> Result<Seq<char>, ErrorView> {
    match logical_parts(parts) {
        Err(failure) => Err(failure),
        Ok(names) => if names.len() == 0 {
            Err(error("invalid_path"@, "logical path must name a file"@))
        } else {
            Ok(join(names, "/"@))
        },
    }
}

/// Takes one step of a logical path that is normalized.
pub fn check_logical_name(name: String) -> (result: Result<String, MkoError>)
    ensures
        outcome(result) == logical_name(name@),
{
    if name.as_str().is_empty() {
        return Err(MkoError::new("invalid_path", "logical path component is empty"));
    }
    match reject_windows_component(name.as_str()) {
        Ok(_) => Ok(name),
        Err(failure) => Err(failure),
    }
}

fn normalized_part(part: &PathPart) -> (result: Result<String, MkoError>)
    ensures
        outcome(result) == logical_part(part.deep_view()),
{
    match part {
        PathPart::Traversal => Err(
            MkoError::new("invalid_path", "logical paths must not contain traversal"),
        ),
        PathPart::NotUtf8 => Err(MkoError::new("invalid_path", "logical paths must be valid UTF-8")),
        PathPart::Name(name) => check_logical_name(to_nfc(name.as_str())),
    }
}

proof fn failing_part_decides(parts: Seq<PathPartView>, at: int)
    requires
        0 <= at < parts.len(),
        logical_parts(parts.take(at)) is Ok,
        logical_part(parts[at]) is Err,
    ensures
        logical_parts(parts) is Err,
        logical_parts(parts)->Err_0 == logical_part(parts[at])->Err_0,
    decreases parts.len(),
{
    if at == parts.len() - 1 {
        assert(parts.drop_last() == parts.take(at));
    } else {
        assert(parts.drop_last().take(at) == parts.take(at));
        failing_part_decides(parts.drop_last(), at);
    }
}

/// The logical path of a file below the provider root.
pub fn normalized_logical_path(parts: &Vec<PathPart>) -> (result: Result<String, MkoError>)
    ensures
        outcome(result) == logical_path(parts.deep_view()),
{
    let ghost all = parts.deep_view();
    let mut components: Vec<String> = Vec::new();
    let mut i: usize = 0;
    assert(components.deep_view() == Seq::<Seq<char>>::empty());
    while i < parts.len()
        invariant
            i <= parts.len(),
            all == parts.deep_view(),
            logical_parts(all.take(i as int)) == Ok::<Seq<Seq<char>>, ErrorView>(
                components.deep_view(),
            ),
        decreases parts.len() - i,
    {
        assert(all.take(i + 1).drop_last() == all.take(i as int));
        assert(all.take(i + 1).last() == parts@[i as int].deep_view());
        match normalized_part(&parts[i]) {
            Ok(name) => {
                let ghost before = components.deep_view();
                components.push(name);
                assert(components.deep_view() == before.push(name@));
            },
            Err(failure) => {
                proof {
                    failing_part_decides(all, i as int);
                }
                return Err(failure);
            },
        }
        i += 1;
    }
    assert(all.take(i as int) == all);
    if components.len() == 0 {
        return Err(MkoError::new("invalid_path", "logical path must name a file"));
    }
    Ok(join_texts(&components, "/"))
}

/// What a directory listing says, given the keys of its names: the first name that is not
/// valid UTF-8, or whose key came before, decides.
pub open spec fn repeated_keys(keys: Seq<Option<Seq<char>>>) -> Result<(), ErrorView>
    decreases keys.len(),
{
    if keys.len() == 0 {
        Ok(())
    } else {
        match repeated_keys(keys.drop_last()) {
            Err(failure) => Err(failure),
            Ok(_) => match keys.last() {
                None => Err(error("invalid_path"@, "repository filename must be valid UTF-8"@)),
                Some(key) => if keys.drop_last().contains(Some(key)) {
                    Err(
                        error(
                            "path_collision"@,
                            "repository contains a case or Unicode-normalization filename collision"@,
                        ),
                    )
                } else {
                    Ok(())
                },
            },
        }
    }
}

/// The collision keys of the names of a listing.
pub open spec fn listing_keys(names: Seq<Option<Seq<char>>>) -> Seq<Option<Seq<char>>> {
    names.map_values(
        |name: Option<Seq<char>>|
            match name {
                Some(text) => Some(collision_key(text)),
                None => None,
            },
    )
}

/// What a directory listing says of two names that some file system takes for one.
pub open spec fn directory_collisions(names: Seq<Option<Seq<char>>>) -> Result<(), ErrorView> {
    repeated_keys(listing_keys(names))
}

proof fn failing_key_decides(keys: Seq<Option<Seq<char>>>, at: int)
    requires
        0 < at <= keys.len(),
        repeated_keys(keys.take(at)) is Err,
    ensures
        repeated_keys(keys) == repeated_keys(keys.take(at)),
    decreases keys.len(),
{
    if at == keys.len() {
        assert(keys.take(at) == keys);
    } else {
        assert(keys.drop_last().take(at) == keys.take(at));
        failing_key_decides(keys.drop_last(), at);
    }
}

fn key_came_before(keys: &Vec<Option<String>>, at: usize, key: &str) -> (found: bool)
    requires
        at <= keys.len(),
    ensures
        found == keys.deep_view().take(at as int).contains(Some(key@)),
{
    let ghost before = keys.deep_view().take(at as int);
    let mut k: usize = 0;
    while k < at
        invariant
            k <= at <= keys.len(),
            before == keys.deep_view().take(at as int),
            forall|m: int| 0 <= m < k ==> #[trigger] before[m] != Some(key@),
        decreases at - k,
    {
        assert(before[k as int] == keys@[k as int].deep_view());
        if let Some(other) = &keys[k] {
            if same(other.as_str(), key) {
                return true;
            }
        }
        k += 1;
    }
    false
}

/// Refuses a listing in which a key comes twice.
pub fn reject_repeated_keys(keys: &Vec<Option<String>>) -> (result: Result<(), MkoError>)
    ensures
        verdict(result) == repeated_keys(keys.deep_view()),
{
    let ghost all = keys.deep_view();
    let mut i: usize = 0;
    while i < keys.len()
        invariant
            i <= keys.len(),
            all == keys.deep_view(),
            repeated_keys(all.take(i as int)) is Ok,
        decreases keys.len() - i,
    {
        assert(all.take(i + 1).drop_last() == all.take(i as int));
        assert(all.take(i + 1).last() == keys@[i as int].deep_view());
        let failure = match &keys[i] {
            None => Some(MkoError::new("invalid_path", "repository filename must be valid UTF-8")),
            Some(key) => if key_came_before(keys, i, key.as_str()) {
                Some(
                    MkoError::new(
                        "path_collision",
                        "repository contains a case or Unicode-normalization filename collision",
                    ),
                )
            } else {
                None
            },
        };
        if let Some(failure) = failure {
            proof {
                failing_key_decides(all, i + 1);
            }
            return Err(failure);
        }
        i += 1;
    }
    assert(all.take(i as int) == all);
    Ok(())
}

/// Refuses a repository directory in which two names collide.
pub fn reject_directory_collisions(names: &Vec<Option<String>>) -> (result: Result<(), MkoError>)
    ensures
        verdict(result) == directory_collisions(names.deep_view()),
{
    let ghost wanted = listing_keys(names.deep_view());
    let mut keys: Vec<Option<String>> = Vec::new();
    let mut i: usize = 0;
    assert(keys.deep_view() == wanted.take(0));
    while i < names.len()
        invariant
            i <= names.len(),
            wanted == listing_keys(names.deep_view()),
            keys.deep_view() == wanted.take(i as int),
        decreases names.len() - i,
    {
        let ghost before = keys.deep_view();
        let key = match &names[i] {
            Some(name) => Some(collision_key_of(name.as_str())),
            None => None,
        };
        assert(names.deep_view()[i as int] == names@[i as int].deep_view());
        assert(key.deep_view() == wanted[i as int]);
        keys.push(key);
        assert(keys.deep_view() == before.push(key.deep_view()));
        assert(wanted.take(i + 1) == wanted.take(i as int).push(wanted[i as int]));
        i += 1;
    }
    assert(wanted.take(i as int) == wanted);
    reject_repeated_keys(&keys)
}

/// The names of a listing that share the collision key of `wanted`.
pub open spec fn matching_names(names: Seq<Option<Seq<char>>>, wanted: Seq<char>) -> Seq<Seq<char>>
    decreases names.len(),
{
    if names.len() == 0 {
        Seq::empty()
    } else {
        let before = matching_names(names.drop_last(), wanted);
        match names.last() {
            Some(name) => if collision_key(name) == collision_key(wanted) {
                before.push(name)
            } else {
                before
            },
            None => before,
        }
    }
}

/// Every entry of the listing is valid UTF-8.
pub open spec fn all_utf8(names: Seq<Option<Seq<char>>>) -> bool {
    forall|i: int| 0 <= i < names.len() ==> (#[trigger] names[i]) is Some
}

/// The entries that match, unless an entry is not valid UTF-8.
pub(crate) fn find_matching_names(names: &Vec<Option<String>>, wanted: &str) -> (found: Option<
    Vec<String>,
>)
    ensures
        found is Some == all_utf8(names.deep_view()),
        found matches Some(list) ==> list.deep_view() == matching_names(names.deep_view(), wanted@),
{
    let ghost all = names.deep_view();
    let key = collision_key_of(wanted);
    let mut matches: Vec<String> = Vec::new();
    let mut i: usize = 0;
    assert(matches.deep_view() == Seq::<Seq<char>>::empty());
    while i < names.len()
        invariant
            i <= names.len(),
            all == names.deep_view(),
            key@ == collision_key(wanted@),
            matches.deep_view() == matching_names(all.take(i as int), wanted@),
            forall|k: int| 0 <= k < i ==> (#[trigger] all[k]) is Some,
        decreases names.len() - i,
    {
        assert(all.take(i + 1).drop_last() == all.take(i as int));
        assert(all.take(i + 1).last() == all[i as int]);
        match &names[i] {
            None => {
                assert(all[i as int] is None);
                return None;
            },
            Some(name) => {
                let candidate = collision_key_of(name.as_str());
                if same(candidate.as_str(), key.as_str()) {
                    let ghost before = matches.deep_view();
                    matches.push(name.clone());
                    assert(matches.deep_view() == before.push(name@));
                }
            },
        }
        i += 1;
    }
    assert(all.take(i as int) == all);
    Some(matches)
}

/// A provider entry is accepted when it is the only one with its collision key.
pub open spec fn component_collision(
    expected: Option<Seq<char>>,
    names: Seq<Option<Seq<char>>>,
) -> Result<(), ErrorView> {
    if expected is None || !all_utf8(names) {
        Err(error("invalid_path"@, "provider filename must be valid UTF-8"@))
    } else if matching_names(names, expected->0) == seq![expected->0] {
        Ok(())
    } else {
        Err(
            error(
                "path_collision"@,
                "provider contains a case or Unicode-normalization filename collision"@,
            ),
        )
    }
}

/// Refuses a provider path step that collides with another entry of its directory.
pub fn reject_component_collision(expected: Option<&str>, names: &Vec<Option<String>>) -> (result:
    Result<(), MkoError>)
    ensures
        verdict(result) == component_collision(expected.deep_view(), names.deep_view()),
{
    match expected {
        None => Err(MkoError::new("invalid_path", "provider filename must be valid UTF-8")),
        Some(expected) => match find_matching_names(names, expected) {
            None => Err(MkoError::new("invalid_path", "provider filename must be valid UTF-8")),
            Some(matches) => {
                let accepted = matches.len() == 1 && same(matches[0].as_str(), expected);
                proof {
                    let found = matches.deep_view();
                    let only = seq![expected@];
                    assert(only.len() == 1 && only[0] == expected@);
                    if accepted {
                        assert(found == only);
                    } else if found == only {
                        assert(found[0] == matches@[0]@);
                    }
                }
                if accepted {
                    Ok(())
                } else {
                    Err(
                        MkoError::new(
                            "path_collision",
                            "provider contains a case or Unicode-normalization filename collision",
                        ),
                    )
                }
            },
        },
    }
}

/// What a directory on the way to a provider file holds, as far as it could be listed.
#[derive(Clone, Debug, PartialEq, Eq)]
pub enum ProviderLevel {
    Listed { names: Vec<Option<String>> },
    Unreadable { detail: String },
    /// The way leads out of the provider root.
    Escapes,
}

#[verifier::ext_equal]
pub enum ProviderLevelView {
    Listed { names: Seq<Option<Seq<char>>> },
    Unreadable { detail: Seq<char> },
    Escapes,
}

impl DeepView for ProviderLevel {
    type V = ProviderLevelView;

    open spec fn deep_view(&self) -> ProviderLevelView {
        match self {
            ProviderLevel::Listed { names } => ProviderLevelView::Listed {
                names: names.deep_view(),
            },
            ProviderLevel::Unreadable { detail } => ProviderLevelView::Unreadable {
                detail: detail@,
            },
            ProviderLevel::Escapes => ProviderLevelView::Escapes,
        }
    }
}

/// One step on the way to a provider file: its name, and the directory it is looked up in.
#[derive(Clone, Debug, PartialEq, Eq)]
pub struct ProviderStep {
    pub part: PathPart,
    pub level: ProviderLevel,
}

#[verifier::ext_equal]
pub struct ProviderStepView {
    pub part: PathPartView,
    pub level: ProviderLevelView,
}

impl DeepView for ProviderStep {
    type V = ProviderStepView;

    open spec fn deep_view(&self) -> ProviderStepView {
        ProviderStepView { part: self.part.deep_view(), level: self.level.deep_view() }
    }
}

/// The rule on one step.
pub open spec fn step_check(step: ProviderStepView) -> Result<(), ErrorView> {
    match step.part {
        PathPartView::Name(name) => match step.level {
            ProviderLevelView::Escapes => Err(
                error(
                    "outside_allowed_root"@,
                    "provider path escapes the configured provider root"@,
                ),
            ),
            ProviderLevelView::Unreadable { detail } => Err(error("file_unreadable"@, detail)),
            ProviderLevelView::Listed { names } => component_collision(Some(name), names),
        },
        _ => Err(error("invalid_path"@, "logical paths must not contain traversal"@)),
    }
}

/// What the steps say from the given one on: the first that is refused decides.
pub open spec fn steps_check(steps: Seq<ProviderStepView>, from: int) -> Result<(), ErrorView>
    decreases steps.len() - from,
{
    if from < 0 || from >= steps.len() {
        Ok(())
    } else if step_check(steps[from]) is Err {
        step_check(steps[from])
    } else {
        steps_check(steps, from + 1)
    }
}

/// The names on the way.
pub open spec fn step_parts(steps: Seq<ProviderStepView>) -> Seq<PathPartView> {
    Seq::new(steps.len(), |i: int| steps[i].part)
}

/// Where a provider file stands, if its way is sound and it is a regular file.
pub open spec fn provider_place(steps: Seq<ProviderStepView>, is_file: bool) -> Result<
    Seq<char>,
    ErrorView,
> {
    match logical_path(step_parts(steps)) {
        Err(failure) => Err(failure),
        Ok(path) => match steps_check(steps, 0) {
            Err(failure) => Err(failure),
            Ok(_) => if is_file {
                Ok(path)
            } else {
                Err(error("file_unreadable"@, "capture input must be a regular file"@))
            },
        },
    }
}

fn check_step(step: &ProviderStep) -> (result: Result<(), MkoError>)
    ensures
        verdict(result) == step_check(step.deep_view()),
{
    match &step.part {
        PathPart::Name(name) => match &step.level {
            ProviderLevel::Escapes => Err(
                MkoError::new(
                    "outside_allowed_root",
                    "provider path escapes the configured provider root",
                ),
            ),
            ProviderLevel::Unreadable { detail } => Err(
                MkoError::new("file_unreadable", detail.as_str()),
            ),
            ProviderLevel::Listed { names } => reject_component_collision(
                Some(name.as_str()),
                names,
            ),
        },
        _ => Err(MkoError::new("invalid_path", "logical paths must not contain traversal")),
    }
}

/// The logical path of a provider file, if no step on its way collides with another entry
/// and it is a regular file.
pub fn provider_path(steps: &Vec<ProviderStep>, is_file: bool) -> (result: Result<String, MkoError>)
    ensures
        outcome(result) == provider_place(steps.deep_view(), is_file),
{
    let ghost all = steps.deep_view();
    let mut parts: Vec<PathPart> = Vec::new();
    let mut i: usize = 0;
    while i < steps.len()
        invariant
            i <= steps.len(),
            all == steps.deep_view(),
            parts.deep_view() == step_parts(all).take(i as int),
        decreases steps.len() - i,
    {
        let ghost before = parts.deep_view();
        let part = steps[i].part.duplicate();
        parts.push(part);
        assert(all[i as int] == steps@[i as int].deep_view());
        assert(parts.deep_view() == before.push(part.deep_view()));
        assert(step_parts(all).take(i + 1) == before.push(part.deep_view()));
        i += 1;
    }
    assert(step_parts(all).take(i as int) == step_parts(all));
    let path = match normalized_logical_path(&parts) {
        Ok(path) => path,
        Err(failure) => {
            return Err(failure);
        },
    };
    let mut at: usize = 0;
    while at < steps.len()
        invariant
            at <= steps.len(),
            all == steps.deep_view(),
            steps_check(all, 0) == steps_check(all, at as int),
            logical_path(step_parts(all)) == Ok::<Seq<char>, ErrorView>(path@),
        decreases steps.len() - at,
    {
        assert(all[at as int] == steps@[at as int].deep_view());
        match check_step(&steps[at]) {
            Ok(_) => {},
            Err(failure) => {
                return Err(failure);
            },
        }
        at += 1;
    }
    if is_file {
        Ok(path)
    } else {
        Err(MkoError::new("file_unreadable", "capture input must be a regular file"))
    }
}

/// A directory of files that only differ in their spelling is no place for records, nor is
/// one outside the repository. `names` are those in the directory.
pub fn registry_directory(
    repository_root: &LocalPath,
    canonical: &LocalPath,
    names: &Vec<Option<String>>,
) -> (result: Result<(), MkoError>)
    ensures
        verdict(result) == (if !is_within(canonical.deep_view(), repository_root.deep_view()) {
            Err(
                error(
                    "outside_allowed_root"@,
                    "registry directory escapes the repository root"@,
                ),
            )
        } else {
            directory_collisions(names.deep_view())
        }),
{
    if !within(canonical, repository_root) {
        return Err(
            MkoError::new(
                "outside_allowed_root",
                "registry directory escapes the repository root",
            ),
        );
    }
    reject_directory_collisions(names)
}

/// A path that was resolved must lead to a directory.
pub fn canonical_directory(code: &str, canonical: Result<String, String>, is_directory: bool) -> (result:
    Result<String, MkoError>)
    ensures
        outcome(result) == (match canonical {
            Err(detail) => Err(error(code@, detail@)),
            Ok(path) => if is_directory {
                Ok(path@)
            } else {
                Err(error(code@, "path must be a directory"@))
            },
        }),
{
    match canonical {
        Err(detail) => Err(MkoError::new(code, detail.as_str())),
        Ok(path) => {
            if is_directory {
                Ok(path)
            } else {
                Err(MkoError::new(code, "path must be a directory"))
            }
        },
    }
}

/// A file that is reached below the provider can be told from every other entry on its way
/// on any supported platform: at each step its name is the only one with its key.
pub proof fn provider_files_are_unambiguous(steps: Seq<ProviderStepView>, at: int)
    requires
        provider_place(steps, true) is Ok,
        0 <= at < steps.len(),
    ensures
        steps[at].part matches PathPartView::Name(name) && (
        steps[at].level matches ProviderLevelView::Listed { names } && matching_names(names, name)
            == seq![name]),
{
    sound_steps_are_sound(steps, 0, at);
}

proof fn sound_steps_are_sound(steps: Seq<ProviderStepView>, from: int, at: int)
    requires
        steps_check(steps, from) is Ok,
        0 <= from <= at < steps.len(),
    ensures
        step_check(steps[at]) is Ok,
    decreases at - from,
{
    if from < at {
        sound_steps_are_sound(steps, from + 1, at);
    }
}

} // verus!
