//! The configuration of a repository of the second format.

use crate::error::{error, outcome, verdict, ErrorView, MkoError};
use crate::front_matter::{line_feeds, normalize_lf};
use crate::order::{lists_plain, Plain};
use crate::text::{blank, is_blank, same};
use vstd::prelude::*;

verus! {

pub const CONTRACT_VERSION_V2: &'static str = "0.3.0";

pub const SCHEMA_VERSION_V2: u32 = 2;

pub const DEFAULT_HYDRATION_WARNING_THRESHOLD_BYTES_V2: u64 = 10_485_760;

/// The largest configuration that is read.
pub const MAX_CONFIG_BYTES: u64 = 65_536;

#[derive(Clone, Copy, Debug, PartialEq, Eq, Structural)]
pub enum DerivedArtifactsPolicyV2 {
    LocalOnly,
    Provider,
}

#[derive(Clone, Copy, Debug, PartialEq, Eq, Structural)]
pub enum DomainPolicyV2 {
    Standard,
    HighRisk,
}

#[derive(Clone, Copy, Debug, PartialEq, Eq, PartialOrd, Ord, Structural)]
pub enum PerspectiveV2 {
    Life,
    Learning,
    Technical,
    Project,
    Investment,
}

/// Every perspective, in their order.
pub open spec fn all_perspectives() -> Seq<PerspectiveV2> {
    seq![
        PerspectiveV2::Life,
        PerspectiveV2::Learning,
        PerspectiveV2::Technical,
        PerspectiveV2::Project,
        PerspectiveV2::Investment,
    ]
}

/// What a perspective is called.
pub open spec fn perspective_name(perspective: PerspectiveV2) -> Seq<char> {
    match perspective {
        PerspectiveV2::Life => "life"@,
        PerspectiveV2::Learning => "learning"@,
        PerspectiveV2::Technical => "technical"@,
        PerspectiveV2::Project => "project"@,
        PerspectiveV2::Investment => "investment"@,
    }
}

impl PerspectiveV2 {
    pub fn all() -> (perspectives: Vec<Self>)
        ensures
            perspectives@ == all_perspectives(),
    {
        let mut perspectives: Vec<Self> = Vec::new();
        perspectives.push(PerspectiveV2::Life);
        perspectives.push(PerspectiveV2::Learning);
        perspectives.push(PerspectiveV2::Technical);
        perspectives.push(PerspectiveV2::Project);
        perspectives.push(PerspectiveV2::Investment);
        perspectives
    }

    pub fn as_str(&self) -> (name: &'static str)
        ensures
            name@ == perspective_name(*self),
    {
        match *self {
            PerspectiveV2::Life => "life",
            PerspectiveV2::Learning => "learning",
            PerspectiveV2::Technical => "technical",
            PerspectiveV2::Project => "project",
            PerspectiveV2::Investment => "investment",
        }
    }
}

#[derive(Clone, Debug, PartialEq, Eq)]
pub struct ProviderConfigV2 {
    pub name: String,
    pub provider_type: String,
    pub root_env: String,
    pub hydration_warning_threshold_bytes: u64,
}

#[verifier::ext_equal]
pub struct ProviderConfigV2View {
    pub name: Seq<char>,
    pub provider_type: Seq<char>,
    pub root_env: Seq<char>,
    pub hydration_warning_threshold_bytes: u64,
}

impl DeepView for ProviderConfigV2 {
    type V = ProviderConfigV2View;

    open spec fn deep_view(&self) -> ProviderConfigV2View {
        ProviderConfigV2View {
            name: self.name@,
            provider_type: self.provider_type@,
            root_env: self.root_env@,
            hydration_warning_threshold_bytes: self.hydration_warning_threshold_bytes,
        }
    }
}

#[derive(Clone, Copy, Debug, PartialEq, Eq, Structural)]
pub struct DomainPoliciesV2 {
    pub default: DomainPolicyV2,
}

#[derive(Clone, Debug, PartialEq, Eq)]
pub struct KnowledgeConfigV2 {
    pub system: String,
    pub contract_version: String,
    pub schema_version: u32,
    pub scope: String,
    pub provider: ProviderConfigV2,
    pub derived_artifacts: DerivedArtifactsPolicyV2,
    pub domain_policies: DomainPoliciesV2,
}

#[verifier::ext_equal]
pub struct KnowledgeConfigV2View {
    pub system: Seq<char>,
    pub contract_version: Seq<char>,
    pub schema_version: u32,
    pub scope: Seq<char>,
    pub provider: ProviderConfigV2View,
    pub derived_artifacts: DerivedArtifactsPolicyV2,
    pub domain_policies: DomainPoliciesV2,
}

impl DeepView for KnowledgeConfigV2 {
    type V = KnowledgeConfigV2View;

    open spec fn deep_view(&self) -> KnowledgeConfigV2View {
        KnowledgeConfigV2View {
            system: self.system@,
            contract_version: self.contract_version@,
            schema_version: self.schema_version,
            scope: self.scope@,
            provider: self.provider.deep_view(),
            derived_artifacts: self.derived_artifacts,
            domain_policies: self.domain_policies,
        }
    }
}

/// The configuration that a new Personal repository gets.
pub open spec fn personal_config() -> KnowledgeConfigV2View {
    KnowledgeConfigV2View {
        system: "my-knowledge-os"@,
        contract_version: CONTRACT_VERSION_V2@,
        schema_version: SCHEMA_VERSION_V2,
        scope: "personal"@,
        provider: ProviderConfigV2View {
            name: "personal_assets"@,
            provider_type: "google-drive-filesystem"@,
            root_env: "MKO_PERSONAL_PROVIDER_ROOT"@,
            hydration_warning_threshold_bytes: DEFAULT_HYDRATION_WARNING_THRESHOLD_BYTES_V2,
        },
        derived_artifacts: DerivedArtifactsPolicyV2::LocalOnly,
        domain_policies: DomainPoliciesV2 { default: DomainPolicyV2::Standard },
    }
}

/// The rules on a configuration.
pub open spec fn config_check(config: KnowledgeConfigV2View) -> Result<(), ErrorView> {
    if config.system != "my-knowledge-os"@ || config.contract_version != CONTRACT_VERSION_V2@
        || config.schema_version != SCHEMA_VERSION_V2 || config.scope != "personal"@ {
        Err(
            error(
                "kb_schema_unsupported"@,
                "select or create a My Knowledge OS v0.3 Personal KB"@,
            ),
        )
    } else if is_blank(config.provider.name) || config.provider.provider_type
        != "google-drive-filesystem"@ || is_blank(config.provider.root_env)
        || config.provider.hydration_warning_threshold_bytes == 0 {
        Err(
            error(
                "kb_config_invalid"@,
                "the v0.3 Personal provider configuration is invalid"@,
            ),
        )
    } else {
        Ok(())
    }
}

impl Plain for PerspectiveV2 {
    fn is_same(self, other: Self) -> (result: bool) {
        self == other
    }
}

/// The policy that a choice of perspectives calls for: investment is always of high risk.
pub open spec fn policy_for(config: KnowledgeConfigV2View, perspectives: Seq<PerspectiveV2>) -> DomainPolicyV2 {
    if config.domain_policies.default == DomainPolicyV2::HighRisk || perspectives.contains(
        PerspectiveV2::Investment,
    ) {
        DomainPolicyV2::HighRisk
    } else {
        DomainPolicyV2::Standard
    }
}

impl KnowledgeConfigV2 {
    pub fn personal_default() -> (config: Self)
        ensures
            config.deep_view() == personal_config(),
    {
        KnowledgeConfigV2 {
            system: "my-knowledge-os".to_owned(),
            contract_version: CONTRACT_VERSION_V2.to_owned(),
            schema_version: SCHEMA_VERSION_V2,
            scope: "personal".to_owned(),
            provider: ProviderConfigV2 {
                name: "personal_assets".to_owned(),
                provider_type: "google-drive-filesystem".to_owned(),
                root_env: "MKO_PERSONAL_PROVIDER_ROOT".to_owned(),
                hydration_warning_threshold_bytes: DEFAULT_HYDRATION_WARNING_THRESHOLD_BYTES_V2,
            },
            derived_artifacts: DerivedArtifactsPolicyV2::LocalOnly,
            domain_policies: DomainPoliciesV2 { default: DomainPolicyV2::Standard },
        }
    }

    pub fn validate(&self) -> (result: Result<(), MkoError>)
        ensures
            verdict(result) == config_check(self.deep_view()),
    {
        if !same(self.system.as_str(), "my-knowledge-os") || !same(
            self.contract_version.as_str(),
            CONTRACT_VERSION_V2,
        ) || self.schema_version != SCHEMA_VERSION_V2 || !same(self.scope.as_str(), "personal") {
            return Err(
                MkoError::new(
                    "kb_schema_unsupported",
                    "select or create a My Knowledge OS v0.3 Personal KB",
                ),
            );
        }
        if blank(self.provider.name.as_str()) || !same(
            self.provider.provider_type.as_str(),
            "google-drive-filesystem",
        ) || blank(self.provider.root_env.as_str())
            || self.provider.hydration_warning_threshold_bytes == 0 {
            return Err(
                MkoError::new(
                    "kb_config_invalid",
                    "the v0.3 Personal provider configuration is invalid",
                ),
            );
        }
        Ok(())
    }

    pub fn policy_for_perspectives(&self, perspectives: &[PerspectiveV2]) -> (policy: DomainPolicyV2)
        ensures
            policy == policy_for(self.deep_view(), perspectives@),
    {
        if self.domain_policies.default == DomainPolicyV2::HighRisk || lists_plain(
            perspectives,
            PerspectiveV2::Investment,
        ) {
            DomainPolicyV2::HighRisk
        } else {
            DomainPolicyV2::Standard
        }
    }

    /// The configuration that was read, where it keeps the rules: `parsed` is what its
    /// reader made of it, or what it objected to.
    pub fn read(parsed: Result<KnowledgeConfigV2, String>) -> (result: Result<Self, MkoError>)
        ensures
            outcome(result) == (match parsed {
                Err(detail) => Err(error("kb_config_invalid"@, detail@)),
                Ok(config) => match config_check(config.deep_view()) {
                    Ok(_) => Ok(config.deep_view()),
                    Err(failure) => Err(failure),
                },
            }),
    {
        match parsed {
            Err(detail) => Err(MkoError::new("kb_config_invalid", detail.as_str())),
            Ok(config) => match config.validate() {
                Ok(_) => Ok(config),
                Err(failure) => Err(failure),
            },
        }
    }

    /// The bytes of a configuration: what its writer made, with line feeds.
    pub fn render(written: Result<String, String>) -> (result: Result<String, MkoError>)
        ensures
            outcome(result) == (match written {
                Ok(text) => Ok(line_feeds(text@)),
                Err(detail) => Err(error("kb_config_invalid"@, detail@)),
            }),
    {
        match written {
            Ok(text) => Ok(normalize_lf(text.as_str())),
            Err(detail) => Err(MkoError::new("kb_config_invalid", detail.as_str())),
        }
    }
}

/// The file of a configuration must be a regular one within bounds.
pub fn check_config_file(is_file: bool, is_symlink: bool, len: u64) -> (result: Result<(), MkoError>)
    ensures
        verdict(result) == (if is_file && !is_symlink && len <= MAX_CONFIG_BYTES {
            Ok(())
        } else {
            Err(
                error(
                    "kb_config_invalid"@,
                    "knowledge-os.yaml must be a bounded regular non-symlink file"@,
                ),
            )
        }),
{
    if !is_file || is_symlink || len > MAX_CONFIG_BYTES {
        return Err(
            MkoError::new(
                "kb_config_invalid",
                "knowledge-os.yaml must be a bounded regular non-symlink file",
            ),
        );
    }
    Ok(())
}

/// What was read of a configuration must keep within bounds.
pub fn check_config_content(read: u64) -> (result: Result<(), MkoError>)
    ensures
        verdict(result) == (if read <= MAX_CONFIG_BYTES {
            Ok(())
        } else {
            Err(
                error("kb_config_invalid"@, "knowledge-os.yaml exceeds the bounded input size"@),
            )
        }),
{
    if read > MAX_CONFIG_BYTES {
        return Err(
            MkoError::new("kb_config_invalid", "knowledge-os.yaml exceeds the bounded input size"),
        );
    }
    Ok(())
}

/// The default configuration keeps the rules.
pub proof fn personal_config_is_valid()
    ensures
        config_check(personal_config()) is Ok,
{
    reveal_strlit("personal_assets");
    reveal_strlit("MKO_PERSONAL_PROVIDER_ROOT");
    assert("personal_assets"@[0] == 'p');
    assert("MKO_PERSONAL_PROVIDER_ROOT"@[0] == 'M');
}

} // verus!
