//! Which Personal repository and inbox an operation works on.

use crate::config::{KnowledgeConfig, KnowledgeConfigView};
use crate::config_v2::{KnowledgeConfigV2, KnowledgeConfigV2View};
use crate::error::{error, outcome, ErrorView, MkoError};
use crate::text::{cat3, same};
use vstd::prelude::*;

verus! {

/// Whose knowledge a repository holds.
#[derive(Clone, Copy, Debug, PartialEq, Eq, Structural)]
pub enum Scope {
    Personal,
}

impl Scope {
    pub fn as_str(self) -> (name: &'static str)
        ensures
            name@ == "personal"@,
    {
        match self {
            Scope::Personal => "personal",
        }
    }
}

/// How the context was found.
#[derive(Clone, Copy, Debug, PartialEq, Eq, Structural)]
pub enum ContextSource {
    Explicit,
    Ancestor,
    Profile,
}

/// A repository and its inbox, ready to be worked on.
#[derive(Clone, Debug, PartialEq, Eq)]
pub struct ResolvedPersonalContext {
    pub repository_root: String,
    pub provider_root: String,
    pub provider_type: String,
    pub profile_name: String,
    pub scope: Scope,
    pub source: ContextSource,
}

#[verifier::ext_equal]
pub struct ResolvedPersonalContextView {
    pub repository_root: Seq<char>,
    pub provider_root: Seq<char>,
    pub provider_type: Seq<char>,
    pub profile_name: Seq<char>,
    pub scope: Scope,
    pub source: ContextSource,
}

impl DeepView for ResolvedPersonalContext {
    type V = ResolvedPersonalContextView;

    open spec fn deep_view(&self) -> ResolvedPersonalContextView {
        ResolvedPersonalContextView {
            repository_root: self.repository_root@,
            provider_root: self.provider_root@,
            provider_type: self.provider_type@,
            profile_name: self.profile_name@,
            scope: self.scope,
            source: self.source,
        }
    }
}

impl ResolvedPersonalContext {
    /// A copy that holds the same.
    pub(crate) fn duplicate(&self) -> (copy: Self)
        ensures
            copy.deep_view() == self.deep_view(),
    {
        ResolvedPersonalContext {
            repository_root: self.repository_root.clone(),
            provider_root: self.provider_root.clone(),
            provider_type: self.provider_type.clone(),
            profile_name: self.profile_name.clone(),
            scope: self.scope,
            source: self.source,
        }
    }
}

/// What a machine profile points to.
#[derive(Clone, Debug, PartialEq, Eq)]
pub struct PersonalProfile {
    pub repository_root: String,
    pub provider_root: String,
}

#[verifier::ext_equal]
pub struct PersonalProfileView {
    pub repository_root: Seq<char>,
    pub provider_root: Seq<char>,
}

impl DeepView for PersonalProfile {
    type V = PersonalProfileView;

    open spec fn deep_view(&self) -> PersonalProfileView {
        PersonalProfileView {
            repository_root: self.repository_root@,
            provider_root: self.provider_root@,
        }
    }
}

impl PersonalProfile {
    /// A copy that holds the same.
    pub(crate) fn duplicate(&self) -> (copy: Self)
        ensures
            copy.deep_view() == self.deep_view(),
    {
        PersonalProfile {
            repository_root: self.repository_root.clone(),
            provider_root: self.provider_root.clone(),
        }
    }
}

/// A machine profile with its name.
#[derive(Clone, Debug, PartialEq, Eq)]
pub struct NamedProfile {
    pub name: String,
    pub profile: PersonalProfile,
}

#[verifier::ext_equal]
pub struct NamedProfileView {
    pub name: Seq<char>,
    pub profile: PersonalProfileView,
}

impl DeepView for NamedProfile {
    type V = NamedProfileView;

    open spec fn deep_view(&self) -> NamedProfileView {
        NamedProfileView {
            name: self.name@,
            profile: self.profile.deep_view(),
        }
    }
}

/// The profiles of one machine.
#[derive(Clone, Debug, PartialEq, Eq)]
pub struct MachineProfiles {
    pub default_profile: String,
    pub profiles: Vec<NamedProfile>,
}

#[verifier::ext_equal]
pub struct MachineProfilesView {
    pub default_profile: Seq<char>,
    pub profiles: Seq<NamedProfileView>,
}

impl DeepView for MachineProfiles {
    type V = MachineProfilesView;

    open spec fn deep_view(&self) -> MachineProfilesView {
        MachineProfilesView {
            default_profile: self.default_profile@,
            profiles: self.profiles.deep_view(),
        }
    }
}

/// What a caller asks for.
#[derive(Clone, Debug, PartialEq, Eq)]
pub struct ResolveContextRequest {
    explicit_repository_root: Option<String>,
    explicit_scope: Option<String>,
}

#[verifier::ext_equal]
pub struct ResolveContextRequestView {
    pub explicit_repository_root: Option<Seq<char>>,
    pub explicit_scope: Option<Seq<char>>,
}

impl DeepView for ResolveContextRequest {
    type V = ResolveContextRequestView;

    closed spec fn deep_view(&self) -> ResolveContextRequestView {
        ResolveContextRequestView {
            explicit_repository_root: self.explicit_repository_root.deep_view(),
            explicit_scope: self.explicit_scope.deep_view(),
        }
    }
}

impl Default for ResolveContextRequest {
    fn default() -> (request: Self)
        ensures
            request.deep_view() == (ResolveContextRequestView {
                explicit_repository_root: None,
                explicit_scope: None,
            }),
    {
        ResolveContextRequest { explicit_repository_root: None, explicit_scope: None }
    }
}

impl ResolveContextRequest {
    pub fn new() -> (request: Self)
        ensures
            request.deep_view() == (ResolveContextRequestView {
                explicit_repository_root: None,
                explicit_scope: None,
            }),
    {
        ResolveContextRequest { explicit_repository_root: None, explicit_scope: None }
    }

    pub fn with_explicit_repository(self, repository_root: &str) -> (request: Self)
        ensures
            request.deep_view() == (ResolveContextRequestView {
                explicit_repository_root: Some(repository_root@),
                ..self.deep_view()
            }),
    {
        ResolveContextRequest {
            explicit_repository_root: Some(repository_root.to_owned()),
            explicit_scope: self.explicit_scope,
        }
    }

    pub fn with_explicit_scope(self, scope: &str) -> (request: Self)
        ensures
            request.deep_view() == (ResolveContextRequestView {
                explicit_scope: Some(scope@),
                ..self.deep_view()
            }),
    {
        ResolveContextRequest {
            explicit_repository_root: self.explicit_repository_root,
            explicit_scope: Some(scope.to_owned()),
        }
    }
}

/// The context that was selected, before it is resolved.
#[derive(Clone, Debug, PartialEq, Eq)]
pub enum SelectedPersonalContext {
    Repository { repository_root: String, source: ContextSource },
    Profile { profile_name: String, profile: PersonalProfile },
}

#[verifier::ext_equal]
pub enum SelectedPersonalContextView {
    Repository { repository_root: Seq<char>, source: ContextSource },
    Profile { profile_name: Seq<char>, profile: PersonalProfileView },
}

impl DeepView for SelectedPersonalContext {
    type V = SelectedPersonalContextView;

    open spec fn deep_view(&self) -> SelectedPersonalContextView {
        match self {
            SelectedPersonalContext::Repository {
                repository_root,
                source,
            } => SelectedPersonalContextView::Repository {
                repository_root: repository_root@,
                source: *source,
            },
            SelectedPersonalContext::Profile {
                profile_name,
                profile,
            } => SelectedPersonalContextView::Profile {
                profile_name: profile_name@,
                profile: profile.deep_view(),
            },
        }
    }
}

/// What the request alone decides: an error, a repository, or that the surroundings
/// have to be searched.
pub open spec fn requested_context(request: ResolveContextRequestView) -> Result<
    Option<SelectedPersonalContextView>,
    ErrorView,
> {
    if request.explicit_scope is Some && request.explicit_scope->0 != "personal"@ {
        Err(
            error(
                "scope_conflict"@,
                "explicit scope conflicts with Personal context resolution"@,
            ),
        )
    } else {
        Ok(
            match request.explicit_repository_root {
                Some(repository_root) => Some(
                    SelectedPersonalContextView::Repository {
                        repository_root,
                        source: ContextSource::Explicit,
                    },
                ),
                None => None,
            },
        )
    }
}

/// The first step of the selection: an explicit repository wins, a scope other than
/// Personal is refused, and otherwise the surroundings have to be searched.
pub fn select_requested_context(request: ResolveContextRequest) -> (result: Result<
    Option<SelectedPersonalContext>,
    MkoError,
>)
    ensures
        outcome(result) == requested_context(request.deep_view()),
{
    if let Some(explicit_scope) = &request.explicit_scope {
        if !same(explicit_scope.as_str(), Scope::Personal.as_str()) {
            return Err(
                MkoError::new(
                    "scope_conflict",
                    "explicit scope conflicts with Personal context resolution",
                ),
            );
        }
    }
    match request.explicit_repository_root {
        Some(repository_root) => Ok(
            Some(
                SelectedPersonalContext::Repository {
                    repository_root,
                    source: ContextSource::Explicit,
                },
            ),
        ),
        None => Ok(None),
    }
}

/// What stands at the place of a repository marker.
#[derive(Clone, Debug, PartialEq, Eq)]
pub enum MarkerState {
    /// A regular file; what is wrong with the configuration in it, if anything.
    Regular { problem: Option<MkoError> },
    /// A link, a directory or another thing that is no regular file.
    NotRegular,
    Absent,
    Unreadable { detail: String },
}

/// A directory on the way up from the current one, and the marker in it.
#[derive(Clone, Debug, PartialEq, Eq)]
pub struct AncestorProbe {
    pub directory: String,
    pub marker_path: String,
    pub marker: MarkerState,
}

/// What one directory says: nothing, that it is the repository, or an error.
pub open spec fn probe_answer(probe: AncestorProbe) -> Result<Option<Seq<char>>, ErrorView> {
    match probe.marker {
        MarkerState::Absent => Ok(None),
        MarkerState::Regular { problem } => match problem {
            None => Ok(Some(probe.directory@)),
            Some(failure) => Err(failure.deep_view()),
        },
        MarkerState::NotRegular => Err(
            error(
                "context_marker_invalid"@,
                "knowledge-os.yaml must be a regular file and must not be a symlink"@,
            ),
        ),
        MarkerState::Unreadable { detail } => Err(
            error(
                "context_discovery_failed"@,
                "cannot inspect "@ + probe.marker_path@ + ": "@ + detail@,
            ),
        ),
    }
}

/// The nearest directory that says anything decides.
pub open spec fn nearest_answer(probes: Seq<AncestorProbe>) -> Result<Option<Seq<char>>, ErrorView>
    decreases probes.len(),
{
    if probes.len() == 0 {
        Ok(None)
    } else if probe_answer(probes[0]) == Ok::<Option<Seq<char>>, ErrorView>(None) {
        nearest_answer(probes.drop_first())
    } else {
        probe_answer(probes[0])
    }
}

/// The knowledge base around the current directory, nearest first.
pub fn ancestor_knowledge_base(probes: &Vec<AncestorProbe>) -> (result: Result<
    Option<String>,
    MkoError,
>)
    ensures
        outcome(result) == nearest_answer(probes@),
{
    let mut i: usize = 0;
    assert(probes@.skip(0) == probes@);
    while i < probes.len()
        invariant
            i <= probes.len(),
            nearest_answer(probes@) == nearest_answer(probes@.skip(i as int)),
        decreases probes.len() - i,
    {
        let probe = &probes[i];
        assert(probes@.skip(i as int)[0] == *probe);
        assert(probes@.skip(i as int).drop_first() == probes@.skip(i + 1));
        match &probe.marker {
            MarkerState::Absent => {},
            MarkerState::Regular { problem } => match problem {
                None => {
                    return Ok(Some(probe.directory.clone()));
                },
                Some(failure) => {
                    return Err(failure.duplicate());
                },
            },
            MarkerState::NotRegular => {
                return Err(
                    MkoError::new(
                        "context_marker_invalid",
                        "knowledge-os.yaml must be a regular file and must not be a symlink",
                    ),
                );
            },
            MarkerState::Unreadable { detail } => {
                let message = crate::text::cat4(
                    "cannot inspect ",
                    probe.marker_path.as_str(),
                    ": ",
                    detail.as_str(),
                );
                return Err(MkoError::new("context_discovery_failed", message.as_str()));
            },
        }
        i += 1;
    }
    Ok(None)
}

/// The profile with the given name; of several, the last one.
pub open spec fn profile_named(profiles: Seq<NamedProfileView>, name: Seq<char>) -> Option<
    PersonalProfileView,
>
    decreases profiles.len(),
{
    if profiles.len() == 0 {
        None
    } else if profiles.last().name == name {
        Some(profiles.last().profile)
    } else {
        profile_named(profiles.drop_last(), name)
    }
}

/// The context when nothing was requested: the knowledge base around the current
/// directory, or else the default profile of the machine.
pub open spec fn discovered_context(
    ancestor: Option<Seq<char>>,
    profiles: Option<MachineProfilesView>,
) -> Result<SelectedPersonalContextView, ErrorView> {
    match ancestor {
        Some(repository_root) => Ok(
            SelectedPersonalContextView::Repository {
                repository_root,
                source: ContextSource::Ancestor,
            },
        ),
        None => match profiles {
            None => Err(
                error(
                    "context_not_found"@,
                    "provide a repository, work inside a knowledge base, or configure a default profile"@,
                ),
            ),
            Some(machine) => match profile_named(machine.profiles, machine.default_profile) {
                None => Err(
                    error("profile_invalid"@, "default machine profile does not exist"@),
                ),
                Some(profile) => Ok(
                    SelectedPersonalContextView::Profile {
                        profile_name: machine.default_profile,
                        profile,
                    },
                ),
            },
        },
    }
}

/// The last step of the selection: what was found around the current directory, or what
/// the machine profiles say where nothing was found.
pub fn select_personal_context(
    ancestor: Option<String>,
    profiles: Option<MachineProfiles>,
) -> (result: Result<SelectedPersonalContext, MkoError>)
    ensures
        outcome(result) == discovered_context(ancestor.deep_view(), profiles.deep_view()),
{
    if let Some(repository_root) = ancestor {
        return Ok(
            SelectedPersonalContext::Repository { repository_root, source: ContextSource::Ancestor },
        );
    }
    match profiles {
        None => Err(
            MkoError::new(
                "context_not_found",
                "provide a repository, work inside a knowledge base, or configure a default profile",
            ),
        ),
        Some(machine) => {
            match find_profile(&machine.profiles, machine.default_profile.as_str()) {
                None => Err(
                    MkoError::new("profile_invalid", "default machine profile does not exist"),
                ),
                Some(profile) => Ok(
                    SelectedPersonalContext::Profile {
                        profile_name: machine.default_profile,
                        profile,
                    },
                ),
            }
        },
    }
}

fn find_profile(profiles: &Vec<NamedProfile>, name: &str) -> (found: Option<PersonalProfile>)
    ensures
        found.deep_view() == profile_named(profiles.deep_view(), name@),
{
    let ghost all = profiles.deep_view();
    let mut i: usize = profiles.len();
    assert(all.take(i as int) == all);
    while i > 0
        invariant
            i <= profiles.len(),
            all == profiles.deep_view(),
            profile_named(all, name@) == profile_named(all.take(i as int), name@),
        decreases i,
    {
        assert(all.take(i as int).last() == profiles@[i - 1].deep_view());
        assert(all.take(i as int).drop_last() == all.take(i - 1));
        if same(profiles[i - 1].name.as_str(), name) {
            return Some(profiles[i - 1].profile.duplicate());
        }
        i -= 1;
    }
    None
}

/// What the configuration of a knowledge base says of its inbox.
#[derive(Clone, Debug, PartialEq, Eq)]
pub struct PersonalKnowledgeDescriptor {
    pub provider_type: String,
    pub root_env: String,
}

#[verifier::ext_equal]
pub struct PersonalKnowledgeDescriptorView {
    pub provider_type: Seq<char>,
    pub root_env: Seq<char>,
}

impl DeepView for PersonalKnowledgeDescriptor {
    type V = PersonalKnowledgeDescriptorView;

    open spec fn deep_view(&self) -> PersonalKnowledgeDescriptorView {
        PersonalKnowledgeDescriptorView {
            provider_type: self.provider_type@,
            root_env: self.root_env@,
        }
    }
}

/// The inbox of a knowledge base: what the current configuration says, where it can be
/// read, and otherwise what the first one says, which must be Personal.
pub open spec fn personal_knowledge(
    current: Option<KnowledgeConfigV2View>,
    first: Result<KnowledgeConfigView, ErrorView>,
) -> Result<PersonalKnowledgeDescriptorView, ErrorView> {
    match current {
        Some(config) => Ok(
            PersonalKnowledgeDescriptorView {
                provider_type: config.provider.provider_type,
                root_env: config.provider.root_env,
            },
        ),
        None => match first {
            Err(failure) => Err(failure),
            Ok(config) => if config.scope != "personal"@ {
                Err(
                    error("scope_conflict"@, "resolved knowledge base is not Personal scope"@),
                )
            } else {
                Ok(
                    PersonalKnowledgeDescriptorView {
                        provider_type: config.provider.provider_type,
                        root_env: config.provider.root_env,
                    },
                )
            },
        },
    }
}

pub fn validated_personal_knowledge(
    current: Option<KnowledgeConfigV2>,
    first: Result<KnowledgeConfig, MkoError>,
) -> (result: Result<PersonalKnowledgeDescriptor, MkoError>)
    ensures
        outcome(result) == personal_knowledge(current.deep_view(), outcome(first)),
{
    if let Some(config) = current {
        return Ok(
            PersonalKnowledgeDescriptor {
                provider_type: config.provider.provider_type,
                root_env: config.provider.root_env,
            },
        );
    }
    match first {
        Err(failure) => Err(failure),
        Ok(config) => {
            if !same(config.scope.as_str(), Scope::Personal.as_str()) {
                return Err(
                    MkoError::new(
                        "scope_conflict",
                        "resolved knowledge base is not Personal scope",
                    ),
                );
            }
            Ok(
                PersonalKnowledgeDescriptor {
                    provider_type: config.provider.provider_type,
                    root_env: config.provider.root_env,
                },
            )
        },
    }
}

/// The value of the environment variable that names the inbox, or the error that asks
/// for it.
pub fn provider_root_from_environment(root_env: &str, value: Option<String>) -> (result: Result<
    String,
    MkoError,
>)
    ensures
        outcome(result) == (match value.deep_view() {
            Some(path) => Ok(path),
            None => Err(
                error(
                    "provider_root_missing"@,
                    "set "@ + root_env@ + " or select a machine profile for this repository"@,
                ),
            ),
        }),
{
    match value {
        Some(path) => Ok(path),
        None => {
            let message = cat3(
                "set ",
                root_env,
                " or select a machine profile for this repository",
            );
            Err(MkoError::new("provider_root_missing", message.as_str()))
        },
    }
}

/// The name that a context without a machine profile goes by.
pub const UNPROFILED_CONTEXT_NAME: &'static str = "unprofiled";

/// The resolved context of a selection: a repository without a profile goes by a fixed
/// name, a profile by its own.
pub fn resolve_personal_context(
    selected: SelectedPersonalContext,
    repository_root: String,
    provider_root: String,
    provider_type: String,
) -> (context: ResolvedPersonalContext)
    ensures
        context.deep_view() == (ResolvedPersonalContextView {
            repository_root: repository_root@,
            provider_root: provider_root@,
            provider_type: provider_type@,
            profile_name: match selected.deep_view() {
                SelectedPersonalContextView::Repository { .. } => UNPROFILED_CONTEXT_NAME@,
                SelectedPersonalContextView::Profile { profile_name, .. } => profile_name,
            },
            scope: Scope::Personal,
            source: match selected.deep_view() {
                SelectedPersonalContextView::Repository { source, .. } => source,
                SelectedPersonalContextView::Profile { .. } => ContextSource::Profile,
            },
        }),
{
    let (profile_name, source) = match selected {
        SelectedPersonalContext::Repository { repository_root: _, source } => (
            UNPROFILED_CONTEXT_NAME.to_owned(),
            source,
        ),
        SelectedPersonalContext::Profile { profile_name, profile: _ } => (
            profile_name,
            ContextSource::Profile,
        ),
    };
    ResolvedPersonalContext {
        repository_root,
        provider_root,
        provider_type,
        profile_name,
        scope: Scope::Personal,
        source,
    }
}

/// An explicit repository is used whatever stands around the current directory, unless
/// the requested scope conflicts.
pub proof fn explicit_repositories_win(request: ResolveContextRequestView)
    requires
        request.explicit_repository_root is Some,
        request.explicit_scope is None || request.explicit_scope->0 == "personal"@,
    ensures
        requested_context(request) == Ok::<Option<SelectedPersonalContextView>, ErrorView>(
            Some(
                SelectedPersonalContextView::Repository {
                    repository_root: request.explicit_repository_root->0,
                    source: ContextSource::Explicit,
                },
            ),
        ),
{
}

} // verus!
