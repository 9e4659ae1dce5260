use mko_core::local_path::{LocalPath, PathStep};
use mko_core::config::{
    local_config_path, CaptureConfig, KnowledgeConfig, LocalConfig, ProviderConfig,
};
use mko_core::config_v2::{
    check_config_content, check_config_file, DomainPolicyV2, KnowledgeConfigV2, PerspectiveV2,
    MAX_CONFIG_BYTES,
};
use mko_core::context::{
    ancestor_knowledge_base, provider_root_from_environment, resolve_personal_context,
    select_personal_context, select_requested_context, validated_personal_knowledge, AncestorProbe,
    ContextSource, MachineProfiles, MarkerState, NamedProfile, PersonalProfile,
    ResolveContextRequest, ResolvedPersonalContext, Scope, SelectedPersonalContext,
};
use mko_core::error::MkoError;

fn knowledge() -> KnowledgeConfig {
    KnowledgeConfig {
        system: "my-knowledge-os".into(),
        scope: "personal".into(),
        core_version: "0.1.0".into(),
        schema_version: 1,
        provider: ProviderConfig {
            name: "drive".into(),
            provider_type: "google-drive-stream".into(),
            root_env: "MKO_ROOT".into(),
        },
    }
}

fn context(profile: &str, provider_type: &str) -> ResolvedPersonalContext {
    ResolvedPersonalContext {
        repository_root: "/repo".into(),
        provider_root: "/inbox".into(),
        provider_type: provider_type.into(),
        profile_name: profile.into(),
        scope: Scope::Personal,
        source: ContextSource::Profile,
    }
}

fn posix(text: &str) -> LocalPath {
    let mut steps: Vec<PathStep> = Vec::new();
    if text.starts_with('/') {
        steps.push(PathStep::Root);
    }
    for (index, name) in text.split('/').enumerate() {
        match name {
            "" => {}
            "." if index > 0 => {}
            "." => steps.push(PathStep::Current),
            ".." => steps.push(PathStep::Parent),
            _ => steps.push(PathStep::Name(name.into())),
        }
    }
    LocalPath {
        text: text.into(),
        drive: String::new(),
        separator: '/',
        is_verbatim: false,
        is_absolute: text.starts_with('/'),
        steps,
    }
}

fn windows(drive: &str, rest: &str) -> LocalPath {
    let mut steps: Vec<PathStep> = Vec::new();
    if !drive.is_empty() {
        steps.push(PathStep::Prefix(drive.to_uppercase()));
    }
    if rest.starts_with('\\') {
        steps.push(PathStep::Root);
    }
    for (index, name) in rest.split(&['\\', '/'][..]).enumerate() {
        match name {
            "" => {}
            "." if index > 0 => {}
            "." => steps.push(PathStep::Current),
            ".." => steps.push(PathStep::Parent),
            _ => steps.push(PathStep::Name(name.into())),
        }
    }
    LocalPath {
        text: format!("{drive}{rest}"),
        drive: drive.into(),
        separator: '\\',
        is_verbatim: drive.starts_with("\\\\?\\"),
        is_absolute: !drive.is_empty() && rest.starts_with('\\'),
        steps,
    }
}

#[test]
fn only_compatible_configurations_are_read() {
    assert!(knowledge().validate().is_ok());
    assert!(KnowledgeConfig::read(Ok(knowledge())).is_ok());
    let mut broken: Vec<KnowledgeConfig> = Vec::new();
    for index in 0..7 {
        let mut config = knowledge();
        match index {
            0 => config.system = "other".into(),
            1 => config.scope = "work".into(),
            2 => config.core_version = "0.2.0".into(),
            3 => config.schema_version = 2,
            4 => config.provider.name = " \t".into(),
            5 => config.provider.provider_type = "dropbox".into(),
            _ => config.provider.root_env = "".into(),
        }
        broken.push(config);
    }
    for config in broken {
        assert_eq!(config.validate().unwrap_err().code(), "config_invalid");
        assert_eq!(KnowledgeConfig::read(Ok(config)).unwrap_err().code(), "config_invalid");
    }
    let failed = KnowledgeConfig::read(Err(MkoError::new("config_unreadable", "no file")));
    assert_eq!(failed.unwrap_err().code(), "config_unreadable");
}

#[test]
fn capture_configurations_follow_their_context() {
    let config = CaptureConfig::from_resolved_context(
        &context("home", "google-drive-stream"),
        "/real/repo".into(),
        "/real/inbox".into(),
        knowledge(),
    )
    .unwrap();
    assert_eq!(config.repository_root, "/real/repo");
    assert_eq!(config.provider_root, "/real/inbox");
    assert_eq!(config.provider_type, "google-drive-stream");
    let unnamed = CaptureConfig::check_resolved_context(&context(" ", "google-drive-stream"));
    assert_eq!(
        unnamed.unwrap_err().message(),
        "resolved context must name a Personal profile"
    );
    let mismatch = CaptureConfig::from_resolved_context(
        &context("home", "other"),
        "/real/repo".into(),
        "/real/inbox".into(),
        knowledge(),
    );
    assert_eq!(
        mismatch.unwrap_err().message(),
        "resolved context does not match knowledge-os.yaml"
    );
}

#[test]
fn local_configurations_have_an_absolute_inbox() {
    let read = |inbox: LocalPath, directory: Option<LocalPath>| {
        LocalConfig::read(inbox, &directory).map(|config| config.provider_root)
    };
    let home = || Some(posix("/home"));
    assert_eq!(read(posix("/inbox"), None).unwrap(), "/inbox");
    assert_eq!(read(posix("inbox"), home()).unwrap(), "/home/inbox");
    assert_eq!(read(posix("../inbox"), home()).unwrap(), "/home/../inbox");
    assert_eq!(read(posix("inbox"), Some(posix("/"))).unwrap(), "/inbox");
    assert_eq!(read(posix("inbox"), Some(posix(""))).unwrap(), "inbox");
    assert_eq!(
        read(posix("inbox"), None).unwrap_err().message(),
        "local configuration has no parent directory"
    );
    assert_eq!(
        read(posix(""), home()).unwrap_err().message(),
        "local configuration must set provider_root"
    );
}

#[test]
fn inboxes_are_joined_as_the_machine_joins_them() {
    let read = |inbox: LocalPath, directory: LocalPath| {
        LocalConfig::read(inbox, &Some(directory)).unwrap().provider_root
    };
    let home = || windows("C:", "\\home");
    assert_eq!(read(windows("D:", "\\inbox"), home()), "D:\\inbox");
    assert_eq!(read(windows("", "inbox"), home()), "C:\\home\\inbox");
    assert_eq!(read(windows("", "a/b"), home()), "C:\\home\\a/b");
    assert_eq!(read(windows("", "\\inbox"), home()), "C:\\inbox");
    assert_eq!(read(windows("D:", "inbox"), home()), "D:inbox");
    assert_eq!(read(windows("", "inbox"), windows("C:", "")), "C:inbox");
    assert_eq!(read(windows("", "inbox"), windows("C:", "\\home/")), "C:\\home/inbox");
    let exact = || windows("\\\\?\\C:", "\\home");
    assert_eq!(read(windows("", "a/b"), exact()), "\\\\?\\C:\\home\\a\\b");
    assert_eq!(read(windows("", "./../b/../c"), exact()), "\\\\?\\C:\\c");
    assert_eq!(read(windows("", "\\b"), exact()), "\\\\?\\C:\\b");
}

#[test]
fn given_paths_win_over_the_environment() {
    assert_eq!(
        local_config_path(Some("/a".into()), Some("/b".into())).unwrap(),
        "/a"
    );
    assert_eq!(local_config_path(None, Some("/b".into())).unwrap(), "/b");
    assert_eq!(
        local_config_path(None, None).unwrap_err().code(),
        "local_config_missing"
    );
}

#[test]
fn explicit_repositories_win_over_the_surroundings() {
    let request = ResolveContextRequest::new()
        .with_explicit_repository("/repo")
        .with_explicit_scope("personal");
    assert_eq!(
        select_requested_context(request).unwrap(),
        Some(SelectedPersonalContext::Repository {
            repository_root: "/repo".into(),
            source: ContextSource::Explicit,
        })
    );
    assert_eq!(select_requested_context(ResolveContextRequest::new()).unwrap(), None);
    let conflict = ResolveContextRequest::new().with_explicit_scope("work");
    assert_eq!(
        select_requested_context(conflict).unwrap_err().code(),
        "scope_conflict"
    );
}

fn probe(directory: &str, marker: MarkerState) -> AncestorProbe {
    AncestorProbe {
        directory: directory.into(),
        marker_path: format!("{directory}/knowledge-os.yaml"),
        marker,
    }
}

#[test]
fn the_nearest_marker_decides() {
    let found = ancestor_knowledge_base(&vec![
        probe("/a/b", MarkerState::Absent),
        probe("/a", MarkerState::Regular { problem: None }),
        probe("/", MarkerState::NotRegular),
    ]);
    assert_eq!(found.unwrap(), Some("/a".to_string()));
    assert_eq!(
        ancestor_knowledge_base(&vec![probe("/", MarkerState::Absent)]).unwrap(),
        None
    );
    assert_eq!(
        ancestor_knowledge_base(&vec![probe("/", MarkerState::NotRegular)])
            .unwrap_err()
            .code(),
        "context_marker_invalid"
    );
    let unreadable = MarkerState::Unreadable { detail: "denied".into() };
    let failure = ancestor_knowledge_base(&vec![probe("/a", unreadable)]).unwrap_err();
    assert_eq!(failure.code(), "context_discovery_failed");
    assert_eq!(failure.message(), "cannot inspect /a/knowledge-os.yaml: denied");
    let problem = MarkerState::Regular {
        problem: Some(MkoError::new("config_invalid", "bad")),
    };
    assert_eq!(
        ancestor_knowledge_base(&vec![probe("/a", problem)]).unwrap_err().code(),
        "config_invalid"
    );
}

#[test]
fn default_profiles_are_used_last() {
    let profiles = MachineProfiles {
        default_profile: "home".into(),
        profiles: vec![NamedProfile {
            name: "home".into(),
            profile: PersonalProfile {
                repository_root: "/repo".into(),
                provider_root: "/inbox".into(),
            },
        }],
    };
    match select_personal_context(None, Some(profiles.clone())).unwrap() {
        SelectedPersonalContext::Profile { profile_name, profile } => {
            assert_eq!(profile_name, "home");
            assert_eq!(profile.provider_root, "/inbox");
        }
        other => panic!("{other:?}"),
    }
    let around = select_personal_context(Some("/near".into()), Some(profiles.clone())).unwrap();
    assert_eq!(
        around,
        SelectedPersonalContext::Repository {
            repository_root: "/near".into(),
            source: ContextSource::Ancestor,
        }
    );
    assert_eq!(
        select_personal_context(None, None).unwrap_err().code(),
        "context_not_found"
    );
    let mut missing = profiles;
    missing.default_profile = "work".into();
    assert_eq!(
        select_personal_context(None, Some(missing)).unwrap_err().code(),
        "profile_invalid"
    );
}

#[test]
fn contexts_go_by_the_name_of_their_profile() {
    let unprofiled = resolve_personal_context(
        SelectedPersonalContext::Repository {
            repository_root: "/repo".into(),
            source: ContextSource::Explicit,
        },
        "/real/repo".into(),
        "/real/inbox".into(),
        "google-drive-stream".into(),
    );
    assert_eq!(unprofiled.profile_name, "unprofiled");
    assert_eq!(unprofiled.source, ContextSource::Explicit);
    assert_eq!(unprofiled.repository_root, "/real/repo");
    assert_eq!(
        provider_root_from_environment("MKO_ROOT", Some("/inbox".into())).unwrap(),
        "/inbox"
    );
    assert_eq!(
        provider_root_from_environment("MKO_ROOT", None).unwrap_err().message(),
        "set MKO_ROOT or select a machine profile for this repository"
    );
}

#[test]
fn current_configurations_come_before_the_first_ones() {
    let current = KnowledgeConfigV2::personal_default();
    let expected = current.provider.root_env.clone();
    let found = validated_personal_knowledge(Some(current), Ok(knowledge())).unwrap();
    assert_eq!(found.root_env, expected);
    let first = validated_personal_knowledge(None, Ok(knowledge())).unwrap();
    assert_eq!(first.root_env, "MKO_ROOT");
    let mut foreign = knowledge();
    foreign.scope = "work".into();
    assert_eq!(
        validated_personal_knowledge(None, Ok(foreign)).unwrap_err().code(),
        "scope_conflict"
    );
    assert_eq!(
        validated_personal_knowledge(None, Err(MkoError::new("config_unreadable", "no")))
            .unwrap_err()
            .code(),
        "config_unreadable"
    );
}

#[test]
fn the_default_configuration_is_valid() {
    let config = KnowledgeConfigV2::personal_default();
    assert!(config.validate().is_ok());
    assert_eq!(config.contract_version, "0.3.0");
    assert_eq!(config.schema_version, 2);
    assert_eq!(config.provider.hydration_warning_threshold_bytes, 10 * 1024 * 1024);
    let mut other = KnowledgeConfigV2::personal_default();
    other.schema_version = 1;
    assert!(other.validate().is_err());
    assert!(KnowledgeConfigV2::read(Ok(other)).is_err());
    assert!(KnowledgeConfigV2::read(Err("not a mapping".into())).is_err());
    assert_eq!(KnowledgeConfigV2::render(Ok("a: b\n".into())).unwrap(), "a: b\n");
}

#[test]
fn investments_are_high_risk() {
    let config = KnowledgeConfigV2::personal_default();
    assert_eq!(
        config.policy_for_perspectives(&[PerspectiveV2::Life, PerspectiveV2::Investment]),
        DomainPolicyV2::HighRisk
    );
    assert_eq!(
        config.policy_for_perspectives(&[PerspectiveV2::Life]),
        DomainPolicyV2::Standard
    );
    assert_eq!(config.policy_for_perspectives(&[]), DomainPolicyV2::Standard);
    assert_eq!(PerspectiveV2::all().len(), 5);
    assert_eq!(PerspectiveV2::Learning.as_str(), "learning");
}

#[test]
fn configuration_files_are_bounded() {
    assert!(check_config_file(true, false, MAX_CONFIG_BYTES).is_ok());
    assert!(check_config_file(true, false, MAX_CONFIG_BYTES + 1).is_err());
    assert!(check_config_file(true, true, 1).is_err());
    assert!(check_config_file(false, false, 1).is_err());
    assert!(check_config_content(MAX_CONFIG_BYTES).is_ok());
    assert!(check_config_content(MAX_CONFIG_BYTES + 1).is_err());
}
