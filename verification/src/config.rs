//! The configuration of the first repository format.

use crate::context::{ResolvedPersonalContext, ResolvedPersonalContextView, Scope};
use crate::error::{error, outcome, verdict, MkoError};
use crate::local_path::{join_path, joined_path, LocalPath};
use crate::text::{blank, is_blank, same};
use crate::version::KNOWLEDGE_CONTRACT_VERSION;
use vstd::prelude::*;

verus! {

#[derive(Clone, Debug, PartialEq, Eq)]
pub struct ProviderConfig {
    pub name: String,
    pub provider_type: String,
    pub root_env: String,
}

#[verifier::ext_equal]
pub struct ProviderConfigView {
    pub name: Seq<char>,
    pub provider_type: Seq<char>,
    pub root_env: Seq<char>,
}

impl DeepView for ProviderConfig {
    type V = ProviderConfigView;

    open spec fn deep_view(&self) -> ProviderConfigView {
        ProviderConfigView {
            name: self.name@,
            provider_type: self.provider_type@,
            root_env: self.root_env@,
        }
    }
}

/// The contents of knowledge-os.yaml.
#[derive(Clone, Debug, PartialEq, Eq)]
pub struct KnowledgeConfig {
    pub system: String,
    pub scope: String,
    pub core_version: String,
    pub schema_version: u32,
    pub provider: ProviderConfig,
}

#[verifier::ext_equal]
pub struct KnowledgeConfigView {
    pub system: Seq<char>,
    pub scope: Seq<char>,
    pub core_version: Seq<char>,
    pub schema_version: u32,
    pub provider: ProviderConfigView,
}

impl DeepView for KnowledgeConfig {
    type V = KnowledgeConfigView;

    open spec fn deep_view(&self) -> KnowledgeConfigView {
        KnowledgeConfigView {
            system: self.system@,
            scope: self.scope@,
            core_version: self.core_version@,
            schema_version: self.schema_version,
            provider: self.provider.deep_view(),
        }
    }
}

/// The configuration that one machine keeps for itself.
#[derive(Clone, Debug, PartialEq, Eq)]
pub struct LocalConfig {
    pub provider_root: String,
}

#[verifier::ext_equal]
pub struct LocalConfigView {
    pub provider_root: Seq<char>,
}

impl DeepView for LocalConfig {
    type V = LocalConfigView;

    open spec fn deep_view(&self) -> LocalConfigView {
        LocalConfigView {
            provider_root: self.provider_root@,
        }
    }
}

/// The directories that a capture works on.
#[derive(Clone, Debug, PartialEq, Eq)]
pub struct CaptureConfig {
    pub repository_root: String,
    pub provider_root: String,
    pub provider_type: String,
}

#[verifier::ext_equal]
pub struct CaptureConfigView {
    pub repository_root: Seq<char>,
    pub provider_root: Seq<char>,
    pub provider_type: Seq<char>,
}

impl DeepView for CaptureConfig {
    type V = CaptureConfigView;

    open spec fn deep_view(&self) -> CaptureConfigView {
        CaptureConfigView {
            repository_root: self.repository_root@,
            provider_root: self.provider_root@,
            provider_type: self.provider_type@,
        }
    }
}

/// A configuration that this version of the core can work with.
pub open spec fn is_compatible(config: KnowledgeConfigView) -> bool {
    &&& config.system == "my-knowledge-os"@
    &&& config.scope == "personal"@
    &&& config.core_version == KNOWLEDGE_CONTRACT_VERSION@
    &&& config.schema_version == 1
    &&& !is_blank(config.provider.name)
    &&& config.provider.provider_type == "google-drive-stream"@
    &&& !is_blank(config.provider.root_env)
}

impl KnowledgeConfig {
    /// Refuses a configuration that this version of the core cannot work with.
    pub fn validate(&self) -> (result: Result<(), MkoError>)
        ensures
            verdict(result) == (if is_compatible(self.deep_view()) {
                Ok(())
            } else {
                Err(
                    error(
                        "config_invalid"@,
                        "knowledge-os.yaml is not compatible with My Knowledge OS Core 0.1.0"@,
                    ),
                )
            }),
    {
        if !same(self.system.as_str(), "my-knowledge-os") || !same(self.scope.as_str(), "personal")
            || !same(self.core_version.as_str(), KNOWLEDGE_CONTRACT_VERSION) || self.schema_version
            != 1 || blank(self.provider.name.as_str()) || !same(
            self.provider.provider_type.as_str(),
            "google-drive-stream",
        ) || blank(self.provider.root_env.as_str()) {
            return Err(
                MkoError::new(
                    "config_invalid",
                    "knowledge-os.yaml is not compatible with My Knowledge OS Core 0.1.0",
                ),
            );
        }
        Ok(())
    }

    /// The configuration, where what was read of it is valid: the parsed contents of the
    /// file, or the error that reading or parsing gave.
    pub fn read(parsed: Result<KnowledgeConfig, MkoError>) -> (result: Result<Self, MkoError>)
        ensures
            outcome(result) == (match outcome(parsed) {
                Err(failure) => Err(failure),
                Ok(config) => if is_compatible(config) {
                    Ok(config)
                } else {
                    Err(
                        error(
                            "config_invalid"@,
                            "knowledge-os.yaml is not compatible with My Knowledge OS Core 0.1.0"@,
                        ),
                    )
                },
            }),
    {
        let config = match parsed {
            Ok(config) => config,
            Err(failure) => {
                return Err(failure);
            },
        };
        match config.validate() {
            Ok(_) => Ok(config),
            Err(failure) => Err(failure),
        }
    }
}

/// A context that names a Personal profile.
pub open spec fn names_personal_profile(context: ResolvedPersonalContextView) -> bool {
    !is_blank(context.profile_name)
}

impl CaptureConfig {
    /// The first check on a context: it must name a Personal profile.
    pub fn check_resolved_context(context: &ResolvedPersonalContext) -> (result: Result<
        (),
        MkoError,
    >)
        ensures
            verdict(result) == (if names_personal_profile(context.deep_view()) {
                Ok(())
            } else {
                Err(error("context_invalid"@, "resolved context must name a Personal profile"@))
            }),
    {
        if context.scope != Scope::Personal || blank(context.profile_name.as_str()) {
            return Err(
                MkoError::new("context_invalid", "resolved context must name a Personal profile"),
            );
        }
        Ok(())
    }

    /// The capture configuration of a context, given the canonical directories that it
    /// names and the configuration that the repository holds.
    pub fn from_resolved_context(
        context: &ResolvedPersonalContext,
        repository_root: String,
        provider_root: String,
        knowledge: KnowledgeConfig,
    ) -> (result: Result<Self, MkoError>)
        ensures
            outcome(result) == (if !names_personal_profile(context.deep_view()) {
                Err(error("context_invalid"@, "resolved context must name a Personal profile"@))
            } else if knowledge.scope@ != "personal"@ || knowledge.provider.provider_type@
                != context.provider_type@ {
                Err(error("context_invalid"@, "resolved context does not match knowledge-os.yaml"@))
            } else {
                Ok(
                    CaptureConfigView {
                        repository_root: repository_root@,
                        provider_root: provider_root@,
                        provider_type: knowledge.provider.provider_type@,
                    },
                )
            }),
    {
        match CaptureConfig::check_resolved_context(context) {
            Ok(_) => {},
            Err(failure) => {
                return Err(failure);
            },
        }
        if !same(knowledge.scope.as_str(), context.scope.as_str()) || !same(
            knowledge.provider.provider_type.as_str(),
            context.provider_type.as_str(),
        ) {
            return Err(
                MkoError::new(
                    "context_invalid",
                    "resolved context does not match knowledge-os.yaml",
                ),
            );
        }
        Ok(
            CaptureConfig {
                repository_root,
                provider_root,
                provider_type: knowledge.provider.provider_type,
            },
        )
    }
}

impl LocalConfig {
    /// The local configuration that names this inbox, in a file in that directory: an
    /// absolute path stands as it is, a relative one is joined to the directory of the file,
    /// and a file without a directory is refused.
    pub fn read(provider_root: LocalPath, directory: &Option<LocalPath>) -> (result: Result<
        Self,
        MkoError,
    >)
        ensures
            outcome(result) == (if provider_root.text@.len() == 0 {
                Err(error("config_invalid"@, "local configuration must set provider_root"@))
            } else if provider_root.is_absolute {
                Ok(LocalConfigView { provider_root: provider_root.text@ })
            } else {
                match directory.deep_view() {
                    None => Err(
                        error("config_invalid"@, "local configuration has no parent directory"@),
                    ),
                    Some(parent) => Ok(
                        LocalConfigView {
                            provider_root: joined_path(parent, provider_root.deep_view()).text,
                        },
                    ),
                }
            }),
    {
        if provider_root.text.as_str().is_empty() {
            return Err(
                MkoError::new("config_invalid", "local configuration must set provider_root"),
            );
        }
        if provider_root.is_absolute {
            return Ok(LocalConfig { provider_root: provider_root.text });
        }
        match directory {
            None => Err(
                MkoError::new("config_invalid", "local configuration has no parent directory"),
            ),
            Some(parent) => Ok(
                LocalConfig { provider_root: join_path(parent, &provider_root).text },
            ),
        }
    }
}

/// Where the local configuration is: the path that was given, or else the one that the
/// environment names.
pub fn local_config_path(given: Option<String>, environment: Option<String>) -> (result: Result<
    String,
    MkoError,
>)
    ensures
        outcome(result) == (match (given.deep_view(), environment.deep_view()) {
            (Some(path), _) => Ok(path),
            (None, Some(path)) => Ok(path),
            (None, None) => Err(
                error(
                    "local_config_missing"@,
                    "provide --local-config or set MKO_LOCAL_CONFIG"@,
                ),
            ),
        }),
{
    match (given, environment) {
        (Some(path), _) => Ok(path),
        (None, Some(path)) => Ok(path),
        (None, None) => Err(
            MkoError::new(
                "local_config_missing",
                "provide --local-config or set MKO_LOCAL_CONFIG",
            ),
        ),
    }
}

/// The configuration of a capture, from the canonical roots and what the repository says of
/// its provider.
pub fn load_capture_config(
    repository_root: String,
    provider_root: String,
    knowledge: KnowledgeConfig,
) -> (config: CaptureConfig)
    ensures
        config.deep_view() == (CaptureConfigView {
            repository_root: repository_root@,
            provider_root: provider_root@,
            provider_type: knowledge.provider.provider_type@,
        }),
{
    CaptureConfig {
        repository_root,
        provider_root,
        provider_type: knowledge.provider.provider_type,
    }
}

} // verus!
