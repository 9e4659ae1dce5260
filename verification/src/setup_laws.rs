//! What the setup promises: which paths are portable, which configuration is accepted, and
//! which knowledge base a command works on.

use crate::config::{is_compatible, KnowledgeConfigView};
use crate::config_v2::{
    config_check, personal_config, policy_for, DerivedArtifactsPolicyV2, DomainPolicyV2,
    KnowledgeConfigV2View, PerspectiveV2,
};
use crate::context::{
    discovered_context, nearest_answer, personal_knowledge, probe_answer, profile_named,
    requested_context, AncestorProbe, ContextSource, MachineProfilesView, MarkerState,
    NamedProfileView, ResolveContextRequestView, SelectedPersonalContextView,
};
use crate::error::ErrorView;
use crate::local_path::{is_within, LocalPathView};
use crate::path_policy::{
    component_collision, directory_collisions, is_device_name, is_forbidden_char, listing_keys,
    logical_parts, logical_path, matching_names, portable_component, portable_components,
    portable_path, provider_place, repeated_keys, step_check, step_parts, steps_check,
    windows_component, PathPartView, ProviderStepView,
};
use crate::text::{ascii_upper, is_blank, join, split};
use crate::unicode::{collision_key, nfc};
use vstd::prelude::*;
use vstd::utf8::encode_utf8;

verus! {

proof fn every_component_is_checked(names: Seq<Seq<char>>)
    ensures
        portable_components(names) is Ok <==> forall|i: int|
            0 <= i < names.len() ==> portable_component(#[trigger] names[i]) is Ok,
    decreases names.len(),
{
    if names.len() > 0 {
        let front = names.drop_last();
        every_component_is_checked(front);
        if portable_components(names) is Ok {
            assert forall|i: int| 0 <= i < names.len() implies portable_component(
                #[trigger] names[i],
            ) is Ok by {
                if i < front.len() {
                    assert(front[i] == names[i]);
                }
            }
        }
        if forall|i: int|
            0 <= i < names.len() ==> portable_component(#[trigger] names[i]) is Ok {
            assert forall|i: int| 0 <= i < front.len() implies portable_component(
                #[trigger] front[i],
            ) is Ok by {
                assert(front[i] == names[i]);
            }
            assert(names[names.len() - 1] == names.last());
        }
    }
}

/// A path is portable exactly where it is relative, of at most 240 bytes, without a backslash,
/// and every step of it is a name that every system takes: not empty, not a step to the
/// current or the parent directory, of at most 255 bytes, without a character that Windows
/// forbids, without a dot or a space at its end, and not the name of a device.
pub proof fn portable_paths_are_taken_everywhere(path: Seq<char>)
    ensures
        portable_path(path) is Ok <==> {
            &&& path.len() > 0
            &&& encode_utf8(path).len() <= 240
            &&& path[0] != '/'
            &&& !path.contains('\\')
            &&& forall|i: int|
                0 <= i < split(path, '/').len() ==> portable_component(#[trigger] split(path, '/')[i])
                    is Ok
        },
{
    every_component_is_checked(split(path, '/'));
}

/// A step of a portable path is a name that every system takes.
pub proof fn portable_names_are_taken_everywhere(name: Seq<char>)
    ensures
        portable_component(name) is Ok <==> {
            &&& name.len() > 0
            &&& name != "."@
            &&& name != ".."@
            &&& encode_utf8(name).len() <= 255
            &&& forall|i: int| 0 <= i < name.len() ==> !is_forbidden_char(#[trigger] name[i])
            &&& name.last() != '.'
            &&& name.last() != ' '
            &&& !is_device_name(split(name, '.')[0].map_values(|c: char| ascii_upper(c)))
        },
        windows_component(name) is Ok <==> {
            &&& name.len() > 0
            &&& encode_utf8(name).len() <= 255
            &&& forall|i: int| 0 <= i < name.len() ==> !is_forbidden_char(#[trigger] name[i])
            &&& name.last() != '.'
            &&& name.last() != ' '
            &&& !is_device_name(split(name, '.')[0].map_values(|c: char| ascii_upper(c)))
        },
{
}

/// The characters that Windows forbids in a name are the control characters and these nine.
pub proof fn forbidden_characters(c: char)
    ensures
        is_forbidden_char(c) <==> c <= '\u{1f}' || seq!['<', '>', ':', '"', '\\', '|', '?', '*'].contains(
            c,
        ),
        !is_forbidden_char('a'),
        !is_forbidden_char('-'),
        !is_forbidden_char('.'),
{
    let listed = seq!['<', '>', ':', '"', '\\', '|', '?', '*'];
    assert(listed[0] == '<' && listed[1] == '>' && listed[2] == ':' && listed[3] == '"');
    assert(listed[4] == '\\' && listed[5] == '|' && listed[6] == '?' && listed[7] == '*');
}

/// The names of devices are these four, and those of the numbered ports.
pub proof fn device_names(digit: char)
    ensures
        is_device_name(seq!['C', 'O', 'N']),
        is_device_name(seq!['P', 'R', 'N']),
        is_device_name(seq!['A', 'U', 'X']),
        is_device_name(seq!['N', 'U', 'L']),
        is_device_name(seq!['C', 'O', 'M', digit]) <==> '1' <= digit <= '9',
        is_device_name(seq!['L', 'P', 'T', digit]) <==> '1' <= digit <= '9',
        !is_device_name(seq!['C', 'O', 'M']),
        !is_device_name(seq!['P', 'D', 'F', digit]),
{
    let com = seq!['C', 'O', 'M', digit];
    let lpt = seq!['L', 'P', 'T', digit];
    let pdf = seq!['P', 'D', 'F', digit];
    assert(com.take(3) =~= seq!['C', 'O', 'M']);
    assert(lpt.take(3) =~= seq!['L', 'P', 'T']);
    assert(pdf.take(3)[1] == 'D');
    assert(seq!['C', 'O', 'M'][1] == 'O' && seq!['L', 'P', 'T'][1] == 'P');
    assert(seq!['C', 'O', 'N'].len() == 3 && seq!['P', 'R', 'N'].len() == 3);
    assert(seq!['A', 'U', 'X'].len() == 3 && seq!['N', 'U', 'L'].len() == 3);
    assert(seq!['C', 'O', 'M'][2] == 'M' && seq!['C', 'O', 'N'][2] == 'N');
    assert(seq!['C', 'O', 'M'][0] == 'C' && seq!['P', 'R', 'N'][0] == 'P');
    assert(seq!['A', 'U', 'X'][0] == 'A' && seq!['N', 'U', 'L'][0] == 'N');
}

proof fn logical_names_are_composed(parts: Seq<PathPartView>, i: int)
    requires
        logical_parts(parts) is Ok,
        0 <= i < parts.len(),
    ensures
        logical_parts(parts)->Ok_0.len() == parts.len(),
        parts[i] is Name,
        logical_parts(parts)->Ok_0[i] == nfc(parts[i]->Name_0),
        windows_component(nfc(parts[i]->Name_0)) is Ok,
    decreases parts.len(),
{
    let front = parts.drop_last();
    if i < front.len() {
        assert(front[i] == parts[i]);
        logical_names_are_composed(front, i);
    } else if front.len() > 0 {
        logical_names_are_composed(front, 0);
    }
}

/// A path through the provider is its names in composed form, one by one, with a slash between
/// them; a step that leaves the way, or a name that is not text, is refused.
pub proof fn logical_paths_are_the_names(parts: Seq<PathPartView>, i: int)
    requires
        logical_path(parts) is Ok,
        0 <= i < parts.len(),
    ensures
        exists|names: Seq<Seq<char>>|
            names.len() == parts.len() && logical_path(parts)->Ok_0 == #[trigger] join(names, "/"@)
                && names[i] == nfc(parts[i]->Name_0),
        parts[i] is Name,
        windows_component(nfc(parts[i]->Name_0)) is Ok,
{
    logical_names_are_composed(parts, i);
    let names = logical_parts(parts)->Ok_0;
    assert(logical_path(parts)->Ok_0 == join(names, "/"@));
}

proof fn no_key_is_repeated(keys: Seq<Option<Seq<char>>>)
    ensures
        repeated_keys(keys) is Ok <==> (forall|i: int|
            0 <= i < keys.len() ==> (#[trigger] keys[i]) is Some) && keys.no_duplicates(),
    decreases keys.len(),
{
    if keys.len() > 0 {
        let front = keys.drop_last();
        let last = keys.last();
        no_key_is_repeated(front);
        if repeated_keys(keys) is Ok {
            assert forall|i: int| 0 <= i < keys.len() implies (#[trigger] keys[i]) is Some by {
                if i < front.len() {
                    assert(front[i] == keys[i]);
                }
            }
            assert forall|i: int, j: int|
                0 <= i < keys.len() && 0 <= j < keys.len() && i != j implies keys[i] != keys[j] by {
                if i < front.len() && j < front.len() {
                    assert(front[i] == keys[i] && front[j] == keys[j]);
                } else if i < front.len() {
                    assert(front[i] == keys[i]);
                    assert(front.contains(keys[i]));
                } else {
                    assert(front[j] == keys[j]);
                    assert(front.contains(keys[j]));
                }
            }
        }
        if (forall|i: int| 0 <= i < keys.len() ==> (#[trigger] keys[i]) is Some)
            && keys.no_duplicates() {
            assert forall|i: int| 0 <= i < front.len() implies (#[trigger] front[i]) is Some by {
                assert(front[i] == keys[i]);
            }
            assert(front.no_duplicates());
            assert(keys[keys.len() - 1] is Some);
            if front.contains(last) {
                let i = choose|i: int| 0 <= i < front.len() && front[i] == last;
                assert(keys[i] == keys[keys.len() - 1]);
            }
        }
    }
}

/// A directory is free of collisions exactly where every name in it is text and no two of them
/// are the same but for their case and their composition.
pub proof fn directories_without_collisions(names: Seq<Option<Seq<char>>>)
    ensures
        directory_collisions(names) is Ok <==> (forall|i: int|
            0 <= i < names.len() ==> (#[trigger] names[i]) is Some) && (forall|i: int, j: int|
            0 <= i < j < names.len() ==> collision_key((#[trigger] names[i])->0) != collision_key(
                (#[trigger] names[j])->0,
            )),
{
    let keys = listing_keys(names);
    no_key_is_repeated(keys);
    if directory_collisions(names) is Ok {
        assert forall|i: int| 0 <= i < names.len() implies (#[trigger] names[i]) is Some by {
            assert(keys[i] is Some);
        }
        assert forall|i: int, j: int| 0 <= i < j < names.len() implies collision_key(
            (#[trigger] names[i])->0,
        ) != collision_key((#[trigger] names[j])->0) by {
            assert(keys[i] != keys[j]);
        }
    }
    if (forall|i: int| 0 <= i < names.len() ==> (#[trigger] names[i]) is Some) && (forall|
        i: int,
        j: int,
    |
        0 <= i < j < names.len() ==> collision_key((#[trigger] names[i])->0) != collision_key(
            (#[trigger] names[j])->0,
        )) {
        assert forall|i: int| 0 <= i < keys.len() implies (#[trigger] keys[i]) is Some by {
            assert(names[i] is Some);
        }
        assert forall|i: int, j: int|
            0 <= i < keys.len() && 0 <= j < keys.len() && i != j implies keys[i] != keys[j] by {
            assert(names[i] is Some && names[j] is Some);
            if i < j {
                assert(collision_key(names[i]->0) != collision_key(names[j]->0));
            } else {
                assert(collision_key(names[j]->0) != collision_key(names[i]->0));
            }
        }
    }
}

proof fn colliding_names_match(names: Seq<Option<Seq<char>>>, wanted: Seq<char>, i: int)
    requires
        0 <= i < names.len(),
        names[i] is Some,
        collision_key(names[i]->0) == collision_key(wanted),
    ensures
        matching_names(names, wanted).contains(names[i]->0),
    decreases names.len(),
{
    let front = names.drop_last();
    let before = matching_names(front, wanted);
    let all = matching_names(names, wanted);
    if i < front.len() {
        assert(front[i] == names[i]);
        colliding_names_match(front, wanted, i);
        let k = choose|k: int| 0 <= k < before.len() && before[k] == names[i]->0;
        assert(all[k] == names[i]->0);
    } else {
        assert(all.last() == names[i]->0);
    }
}

/// A step of a way through the provider is taken only where the directory has that very name,
/// and no other that differs from it by case or composition alone.
pub proof fn steps_are_unambiguous(
    expected: Seq<char>,
    names: Seq<Option<Seq<char>>>,
    i: int,
)
    requires
        component_collision(Some(expected), names) is Ok,
        0 <= i < names.len(),
    ensures
        names[i] is Some,
        collision_key(names[i]->0) == collision_key(expected) ==> names[i] == Some(expected),
{
    assert(names[i] is Some);
    if collision_key(names[i]->0) == collision_key(expected) {
        colliding_names_match(names, expected, i);
        let found = matching_names(names, expected);
        let k = choose|k: int| 0 <= k < found.len() && found[k] == names[i]->0;
        assert(found == seq![expected]);
    }
}

proof fn every_step_is_checked(steps: Seq<ProviderStepView>, from: int, i: int)
    requires
        0 <= from <= i < steps.len(),
        steps_check(steps, from) is Ok,
    ensures
        step_check(steps[i]) is Ok,
    decreases i - from,
{
    if from < i {
        every_step_is_checked(steps, from + 1, i);
    }
}

/// A place in the provider is given only for a regular file that every step leads to.
pub proof fn places_are_reached_step_by_step(
    steps: Seq<ProviderStepView>,
    is_file: bool,
    i: int,
)
    requires
        provider_place(steps, is_file) is Ok,
        0 <= i < steps.len(),
    ensures
        is_file,
        step_check(steps[i]) is Ok,
        steps[i].part is Name,
        logical_path(step_parts(steps)) == Ok::<Seq<char>, ErrorView>(
            provider_place(steps, is_file)->Ok_0,
        ),
{
    every_step_is_checked(steps, 0, i);
}

/// Every path lies within itself, and what lies within a part of a path lies within the path.
pub proof fn lying_within_is_an_order(a: LocalPathView, b: LocalPathView, c: LocalPathView)
    ensures
        is_within(a, a),
        is_within(a, b) && is_within(b, c) ==> is_within(a, c),
        is_within(a, b) && is_within(b, a) ==> a.steps == b.steps,
        is_within(a, b) ==> b.steps.len() <= a.steps.len(),
{
    if is_within(a, b) && is_within(b, c) {
        assert(c.steps =~= a.steps.subrange(0, c.steps.len() as int));
    }
    if is_within(a, b) && is_within(b, a) {
        assert(a.steps =~= b.steps);
    }
}

/// A configuration of the first format is accepted exactly where it is a personal one of this
/// system and version, with a provider that it names.
pub proof fn compatible_configurations(config: KnowledgeConfigView)
    ensures
        is_compatible(config) <==> {
            &&& config.system == "my-knowledge-os"@
            &&& config.scope == "personal"@
            &&& config.core_version == "0.1.0"@
            &&& config.schema_version == 1
            &&& config.provider.provider_type == "google-drive-stream"@
            &&& !is_blank(config.provider.name)
            &&& !is_blank(config.provider.root_env)
        },
{
}

/// A configuration of the second format is accepted exactly where it is a personal one of this
/// system and version, with a provider that it names and a threshold that is not zero.
pub proof fn accepted_configurations(config: KnowledgeConfigV2View)
    ensures
        config_check(config) is Ok <==> {
            &&& config.system == "my-knowledge-os"@
            &&& config.contract_version == "0.3.0"@
            &&& config.schema_version == 2
            &&& config.scope == "personal"@
            &&& !is_blank(config.provider.name)
            &&& config.provider.provider_type == "google-drive-filesystem"@
            &&& !is_blank(config.provider.root_env)
            &&& config.provider.hydration_warning_threshold_bytes > 0
        },
        config.system != "my-knowledge-os"@ ==> config_check(config)->Err_0.code
            == "kb_schema_unsupported"@,
{
}

/// The configuration that is made keeps derived artifacts local, and asks before it reads more
/// than ten mebibytes.
pub proof fn the_made_configuration()
    ensures
        personal_config().system == "my-knowledge-os"@,
        personal_config().contract_version == "0.3.0"@,
        personal_config().schema_version == 2,
        personal_config().scope == "personal"@,
        personal_config().provider.name == "personal_assets"@,
        personal_config().provider.provider_type == "google-drive-filesystem"@,
        personal_config().provider.root_env == "MKO_PERSONAL_PROVIDER_ROOT"@,
        personal_config().provider.hydration_warning_threshold_bytes == 10_485_760,
        personal_config().derived_artifacts == DerivedArtifactsPolicyV2::LocalOnly,
        personal_config().domain_policies.default == DomainPolicyV2::Standard,
{
}

/// A record is of high risk exactly where the configuration says so of all, or it is looked at
/// as an investment.
pub proof fn investments_are_of_high_risk(
    config: KnowledgeConfigV2View,
    perspectives: Seq<PerspectiveV2>,
)
    ensures
        policy_for(config, perspectives) == DomainPolicyV2::HighRisk
            <==> config.domain_policies.default == DomainPolicyV2::HighRisk
            || perspectives.contains(PerspectiveV2::Investment),
        policy_for(config, perspectives) == DomainPolicyV2::Standard
            <==> config.domain_policies.default == DomainPolicyV2::Standard
            && !perspectives.contains(PerspectiveV2::Investment),
{
}

/// What is asked for is taken, and only a personal scope may be asked for.
pub proof fn requests_are_taken(request: ResolveContextRequestView)
    ensures
        requested_context(request) is Err <==> request.explicit_scope is Some
            && request.explicit_scope->0 != "personal"@,
        requested_context(request) matches Ok(Some(selected)) ==> selected == (
        SelectedPersonalContextView::Repository {
            repository_root: request.explicit_repository_root->0,
            source: ContextSource::Explicit,
        }) && request.explicit_repository_root is Some,
        requested_context(request) == Ok::<Option<SelectedPersonalContextView>, ErrorView>(None)
            ==> request.explicit_repository_root is None,
{
}

/// The nearest directory with a marker is the knowledge base: directories without one are
/// passed by, and one whose marker is broken ends the search.
pub proof fn the_nearest_marker_decides(probes: Seq<AncestorProbe>, k: int)
    requires
        0 <= k < probes.len(),
        !(probes[k].marker is Absent),
        forall|j: int| 0 <= j < k ==> (#[trigger] probes[j]).marker is Absent,
    ensures
        nearest_answer(probes) == probe_answer(probes[k]),
        probes[k].marker matches MarkerState::Regular { problem } && problem is None
            ==> nearest_answer(probes) == Ok::<Option<Seq<char>>, ErrorView>(
            Some(probes[k].directory@),
        ),
        probes[k].marker is NotRegular ==> nearest_answer(probes) is Err,
    decreases k,
{
    if k > 0 {
        assert(probes[0].marker is Absent);
        let rest = probes.drop_first();
        assert forall|j: int| 0 <= j < k - 1 implies (#[trigger] rest[j]).marker is Absent by {
            assert(rest[j] == probes[j + 1]);
        }
        the_nearest_marker_decides(rest, k - 1);
    }
}

proof fn the_last_profile_of_a_name(profiles: Seq<NamedProfileView>, k: int)
    requires
        0 <= k < profiles.len(),
        forall|j: int| k < j < profiles.len() ==> (#[trigger] profiles[j]).name != profiles[k].name,
    ensures
        profile_named(profiles, profiles[k].name) == Some(profiles[k].profile),
    decreases profiles.len(),
{
    if k < profiles.len() - 1 {
        assert(profiles[profiles.len() - 1].name != profiles[k].name);
        let front = profiles.drop_last();
        assert forall|j: int| k < j < front.len() implies (#[trigger] front[j]).name
            != front[k].name by {
            assert(front[j] == profiles[j]);
        }
        the_last_profile_of_a_name(front, k);
    }
}

/// Within a knowledge base that one is worked on; elsewhere the default profile of the machine
/// is, and without one nothing is.
pub proof fn knowledge_bases_are_discovered(
    root: Seq<char>,
    machine: MachineProfilesView,
    k: int,
)
    requires
        0 <= k < machine.profiles.len(),
        machine.profiles[k].name == machine.default_profile,
        forall|j: int|
            k < j < machine.profiles.len() ==> (#[trigger] machine.profiles[j]).name
                != machine.default_profile,
    ensures
        discovered_context(Some(root), Some(machine)) == Ok::<
            SelectedPersonalContextView,
            ErrorView,
        >(
            SelectedPersonalContextView::Repository {
                repository_root: root,
                source: ContextSource::Ancestor,
            },
        ),
        discovered_context(None, Some(machine)) == Ok::<SelectedPersonalContextView, ErrorView>(
            SelectedPersonalContextView::Profile {
                profile_name: machine.default_profile,
                profile: machine.profiles[k].profile,
            },
        ),
        discovered_context(None, None) is Err,
        discovered_context(None, None)->Err_0.code == "context_not_found"@,
{
    the_last_profile_of_a_name(machine.profiles, k);
}

/// A knowledge base is described by its own configuration: the second format where it has one,
/// and otherwise the first, which must be personal.
pub proof fn knowledge_bases_describe_themselves(
    current: KnowledgeConfigV2View,
    first: KnowledgeConfigView,
    failure: ErrorView,
)
    ensures
        personal_knowledge(Some(current), Ok(first)) is Ok,
        personal_knowledge(Some(current), Ok(first))->Ok_0.provider_type
            == current.provider.provider_type,
        personal_knowledge(Some(current), Ok(first))->Ok_0.root_env == current.provider.root_env,
        first.scope == "personal"@ ==> personal_knowledge(None, Ok(first)) is Ok
            && personal_knowledge(None, Ok(first))->Ok_0.provider_type
            == first.provider.provider_type && personal_knowledge(None, Ok(first))->Ok_0.root_env
            == first.provider.root_env,
        first.scope != "personal"@ ==> personal_knowledge(None, Ok(first)) is Err,
        personal_knowledge(None, Err(failure)) is Err,
{
}

} // verus!
