use mko_core::path_policy::{
    validate_portable_relative_path, MAX_PORTABLE_COMPONENT_BYTES,
    MAX_PORTABLE_RELATIVE_PATH_BYTES,
};

#[test]
fn portable_paths_reject_cross_platform_hazards_and_bounds() {
    for path in [
        "../secret",
        "/absolute",
        "C:/windows",
        "notes\\windows.md",
        "notes/CON.txt",
        "notes/trailing. ",
        "notes/forbidden?.md",
        "notes/control\u{001f}.md",
    ] {
        assert!(validate_portable_relative_path(path).is_err(), "{path}");
    }
    assert!(validate_portable_relative_path(&format!(
        "notes/{}",
        "a".repeat(MAX_PORTABLE_COMPONENT_BYTES + 1)
    ))
    .is_err());
    assert!(validate_portable_relative_path(&format!(
        "{}/file.md",
        "a".repeat(MAX_PORTABLE_RELATIVE_PATH_BYTES)
    ))
    .is_err());
    assert!(validate_portable_relative_path("notes/good-file.md").is_ok());
}
