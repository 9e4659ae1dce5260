use mko_core::local_path::{LocalPath, PathStep};
use mko_core::front_matter::{parse_markdown, reject_duplicate_top_level_keys, render_markdown};
use mko_core::path_policy::{
    canonical_directory, check_logical_name, normalized_logical_path, provider_path,
    registry_directory, reject_component_collision, reject_directory_collisions,
    reject_repeated_keys, validate_ascii_slug, PathPart, ProviderLevel, ProviderStep,
};

fn posix(text: &str) -> LocalPath {
    let mut steps: Vec<PathStep> = Vec::new();
    if text.starts_with('/') {
        steps.push(PathStep::Root);
    }
    for (index, name) in text.split('/').enumerate() {
        match name {
            "" => {}
            "." if index > 0 => {}
            "." => steps.push(PathStep::Current),
            ".." => steps.push(PathStep::Parent),
            _ => steps.push(PathStep::Name(name.into())),
        }
    }
    LocalPath {
        text: text.into(),
        drive: String::new(),
        separator: '/',
        is_verbatim: false,
        is_absolute: text.starts_with('/'),
        steps,
    }
}

#[test]
fn documents_are_read_as_they_were_rendered() {
    let text = render_markdown("title: A\ntags: []\n\n", "# A\r\n\r\nBody\r");
    assert_eq!(text, "---\ntitle: A\ntags: []\n---\n# A\n\nBody\n");
    let parts = parse_markdown(&text).unwrap();
    assert_eq!(parts.metadata, "title: A\ntags: []\n");
    assert_eq!(parts.body, "# A\n\nBody\n");
}

#[test]
fn documents_without_metadata_are_refused() {
    for (input, message) in [
        ("title: A\n", "front matter must begin with ---"),
        ("---\ntitle: A\n", "front matter must end with ---"),
        ("--- \ntitle: A\n---\n", "front matter must begin with ---"),
    ] {
        let failure = parse_markdown(input).unwrap_err();
        assert_eq!(failure.code(), "front_matter_invalid");
        assert_eq!(failure.message(), message);
    }
    let second = parse_markdown("---\na: b\n---\n---\nc: d\n").unwrap_err();
    assert_eq!(second.code(), "yaml_invalid");
    assert_eq!(second.message(), "multiple YAML documents are forbidden");
}

#[test]
fn bodies_are_composed_and_fed_by_lines() {
    let parts = parse_markdown("---\r\na: b\r\n---\r\nCafe\u{301}\rend").unwrap();
    assert_eq!(parts.metadata, "a: b\n");
    assert_eq!(parts.body, "Caf\u{e9}\nend");
    let empty = parse_markdown("---\n---\n").unwrap();
    assert_eq!(empty.metadata, "");
    assert_eq!(empty.body, "");
}

#[test]
fn keys_are_set_once() {
    assert!(reject_duplicate_top_level_keys("a: 1\nb: 2\n  a: 3\n# a: 4\n- a: 5\n").is_ok());
    let failure = reject_duplicate_top_level_keys("a: 1\nb: 2\na : 3\n").unwrap_err();
    assert_eq!(failure.code(), "yaml_invalid");
    assert_eq!(failure.message(), "duplicate top-level YAML key");
}

#[test]
fn slugs_are_plain() {
    assert!(validate_ascii_slug("a-slug-2").is_ok());
    assert_eq!(validate_ascii_slug("").unwrap_err().code(), "invalid_slug");
    assert_eq!(validate_ascii_slug("A").unwrap_err().code(), "invalid_slug");
    assert_eq!(validate_ascii_slug("a_b").unwrap_err().code(), "invalid_slug");
    assert_eq!(
        validate_ascii_slug("com7").unwrap_err().code(),
        "windows_reserved_name"
    );
    assert!(validate_ascii_slug("com0").is_ok());
}

fn name(text: &str) -> PathPart {
    PathPart::Name(text.into())
}

#[test]
fn logical_paths_are_composed_and_joined() {
    assert_eq!(
        normalized_logical_path(&vec![name("papers"), name("Cafe\u{301}.pdf")]).unwrap(),
        "papers/Caf\u{e9}.pdf"
    );
    for (parts, code) in [
        (vec![], "invalid_path"),
        (vec![name("a"), PathPart::Traversal], "invalid_path"),
        (vec![PathPart::NotUtf8], "invalid_path"),
        (vec![name("")], "invalid_path"),
        (vec![name("nul.txt")], "windows_reserved_name"),
        (vec![name("a?")], "windows_reserved_name"),
        (vec![name("a.")], "windows_reserved_name"),
    ] {
        assert_eq!(normalized_logical_path(&parts).unwrap_err().code(), code);
    }
    assert_eq!(check_logical_name("ok".into()).unwrap(), "ok");
    assert_eq!(
        check_logical_name("".into()).unwrap_err().message(),
        "logical path component is empty"
    );
}

#[test]
fn colliding_names_are_refused() {
    let some = |text: &str| Some(text.to_string());
    assert!(reject_directory_collisions(&vec![some("a"), some("b")]).is_ok());
    assert_eq!(
        reject_directory_collisions(&vec![some("A"), some("a")]).unwrap_err().code(),
        "path_collision"
    );
    assert_eq!(
        reject_directory_collisions(&vec![some("\u{e9}"), some("e\u{301}")])
            .unwrap_err()
            .code(),
        "path_collision"
    );
    assert_eq!(
        reject_directory_collisions(&vec![some("a"), None]).unwrap_err().code(),
        "invalid_path"
    );
    assert_eq!(
        reject_repeated_keys(&vec![some("k"), some("l"), some("k")]).unwrap_err().code(),
        "path_collision"
    );
}

#[test]
fn provider_names_stand_alone() {
    let some = |text: &str| Some(text.to_string());
    assert!(reject_component_collision(Some("a.pdf"), &vec![some("a.pdf"), some("b")]).is_ok());
    for names in [
        vec![some("A.pdf")],
        vec![some("a.pdf"), some("A.pdf")],
        vec![],
    ] {
        assert_eq!(
            reject_component_collision(Some("a.pdf"), &names).unwrap_err().code(),
            "path_collision"
        );
    }
    assert_eq!(
        reject_component_collision(None, &vec![]).unwrap_err().code(),
        "invalid_path"
    );
    assert_eq!(
        reject_component_collision(Some("a"), &vec![None]).unwrap_err().code(),
        "invalid_path"
    );
}

fn step(part: &str, names: &[&str]) -> ProviderStep {
    ProviderStep {
        part: name(part),
        level: ProviderLevel::Listed {
            names: names.iter().map(|entry| Some(entry.to_string())).collect(),
        },
    }
}

#[test]
fn provider_files_are_told_apart_on_every_step() {
    let way = || vec![step("papers", &["papers", "other"]), step("a.pdf", &["a.pdf"])];
    assert_eq!(provider_path(&way(), true).unwrap(), "papers/a.pdf");
    assert_eq!(
        provider_path(&way(), false).unwrap_err().message(),
        "capture input must be a regular file"
    );
    let refused = |steps: Vec<ProviderStep>| {
        provider_path(&steps, true).unwrap_err().code().to_string()
    };
    assert_eq!(
        refused(vec![step("papers", &["papers", "Papers"]), step("a.pdf", &["a.pdf"])]),
        "path_collision"
    );
    let mut out = way();
    out[1].level = ProviderLevel::Escapes;
    assert_eq!(refused(out), "outside_allowed_root");
    let mut unreadable = way();
    unreadable[0].level = ProviderLevel::Unreadable { detail: "m".into() };
    assert_eq!(refused(unreadable), "file_unreadable");
    let mut up = way();
    up[0].part = PathPart::Traversal;
    assert_eq!(refused(up), "invalid_path");
    assert_eq!(refused(vec![]), "invalid_path");
}

#[test]
fn registries_stand_in_their_repository() {
    let some = |text: &str| Some(text.to_string());
    assert!(registry_directory(&posix("/r"), &posix("/r/assets/registry"), &vec![some("a.md")]).is_ok());
    assert_eq!(
        registry_directory(&posix("/r"), &posix("/rest"), &vec![]).unwrap_err().code(),
        "outside_allowed_root"
    );
    assert_eq!(
        registry_directory(&posix("/r"), &posix("/r/a"), &vec![some("a.md"), some("A.md")])
            .unwrap_err()
            .code(),
        "path_collision"
    );
    assert_eq!(canonical_directory("c", Ok("/r".into()), true).unwrap(), "/r");
    let failure = canonical_directory("c", Ok("/r".into()), false).unwrap_err();
    assert_eq!((failure.code(), failure.message()), ("c", "path must be a directory"));
    assert_eq!(canonical_directory("c", Err("m".into()), true).unwrap_err().message(), "m");
}
