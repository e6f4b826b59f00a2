//! Model resolution: which profile serves which model. Every outcome but a configured one is
//! explicit, and nothing falls back silently.
use crate::config::{model_limits, ModelConfig, ProviderLimits};
use crate::payloads::opt_view;
use crate::settings::{
    copy_optional, entry_of, profile_views, AuthStrategy, LocalSettings, ModelProfileEntry,
    ProfileAnswers, ProfileModel, ProviderProfile,
};
use crate::text::same_text;
use crate::vault_provider::views;
use vstd::prelude::*;

verus! {

/// The oldest evidence of a capability that routing accepts, in seconds.
pub const MAX_EVIDENCE_AGE_SECONDS: u64 = 86400;

/// The durable routing decision.
#[derive(Debug, PartialEq, Eq)]
pub struct RoutedModel {
    pub profile_id: String,
    pub model_id: String,
}

/// A model and the profile on which it was discovered.
#[derive(Debug, PartialEq, Eq)]
pub struct DiscoveredModel {
    pub profile_id: String,
    pub model_id: String,
}

/// What a discovered model says: profile, then model.
pub open spec fn found_views(models: Seq<DiscoveredModel>) -> Seq<(Seq<char>, Seq<char>)> {
    models.map_values(|model: DiscoveredModel| (model.profile_id@, model.model_id@))
}

/// The outcome of resolving the default model profile.
#[derive(Debug, PartialEq, Eq)]
pub enum ModelResolution {
    /// No default profile is configured; deterministic capabilities run without inference.
    Disabled,
    /// The router selected an eligible model.
    Configured { config: ModelConfig, route: RoutedModel, models: Vec<String> },
    /// A configured profile could not produce an eligible model.
    Degraded {
        /// Coarse, value-free reason for diagnostics.
        reason: &'static str,
        /// The locator of the credential, where one was declared.
        secret: Option<String>,
    },
}

/// The first profile with the identifier.
pub open spec fn profile_with(profiles: Seq<ProfileModel>, id: Seq<char>) -> Option<ProfileModel>
    decreases profiles.len(),
{
    if profiles.len() == 0 {
        None
    } else if profiles[0].id == id {
        Some(profiles[0])
    } else {
        profile_with(profiles.drop_first(), id)
    }
}

/// Some profile with the identifier is enabled.
pub open spec fn enabled_with(profiles: Seq<ProfileModel>, id: Seq<char>) -> bool {
    exists|i: int| 0 <= i < profiles.len() && (#[trigger] profiles[i]).id == id && profiles[i].enabled
}

/// The credential locator of the profile with the identifier.
pub open spec fn secret_with(profiles: Seq<ProfileModel>, id: Seq<char>) -> Option<Seq<char>> {
    match profile_with(profiles, id) {
        Some(profile) => profile.secret_reference,
        None => None,
    }
}

fn find_profile<'a>(profiles: &'a Vec<ProviderProfile>, id: &str) -> (found: Option<&'a ProviderProfile>)
    ensures
        match found {
            Some(found) => profile_with(profile_views(profiles@), id@) == Some(found@),
            None => profile_with(profile_views(profiles@), id@) is None,
        },
{
    let ghost all = profile_views(profiles@);
    let mut i: usize = 0;
    assert(all.subrange(0, all.len() as int) =~= all);
    while i < profiles.len()
        invariant
            i <= profiles@.len(),
            all == profile_views(profiles@),
            profile_with(all, id@) == profile_with(all.subrange(i as int, all.len() as int), id@),
        decreases profiles@.len() - i,
    {
        let ghost rest = all.subrange(i as int, all.len() as int);
        assert(rest[0] == profiles@[i as int]@);
        assert(rest.drop_first() =~= all.subrange(i + 1, all.len() as int));
        if same_text(profiles[i].id.as_str(), id) {
            return Some(&profiles[i]);
        }
        i += 1;
    }
    None
}

fn any_enabled(profiles: &Vec<ProviderProfile>, id: &str) -> (found: bool)
    ensures
        found == enabled_with(profile_views(profiles@), id@),
{
    let ghost all = profile_views(profiles@);
    let mut i: usize = 0;
    while i < profiles.len()
        invariant
            i <= profiles@.len(),
            all == profile_views(profiles@),
            forall|j: int| 0 <= j < i ==> !((#[trigger] all[j]).id == id@ && all[j].enabled),
        decreases profiles@.len() - i,
    {
        assert(all[i as int] == profiles@[i as int]@);
        if profiles[i].enabled && same_text(profiles[i].id.as_str(), id) {
            assert(all[i as int].id == id@ && all[i as int].enabled);
            return true;
        }
        i += 1;
    }
    false
}

/// The credential locator of a profile.
fn profile_and_secret(profiles: &Vec<ProviderProfile>, id: &str) -> (secret: Option<String>)
    ensures
        opt_view(secret) == secret_with(profile_views(profiles@), id@),
{
    match find_profile(profiles, id) {
        Some(profile) => copy_optional(&profile.secret_reference),
        None => None,
    }
}

/// The credential locator of the default profile, where one is configured.
pub open spec fn default_secret(settings: Option<LocalSettings>, answers: Seq<ProfileAnswers>) -> Option<
    Seq<char>,
> {
    match settings {
        None => None,
        Some(settings) => match opt_view(settings.models_section().default_profile) {
            None => None,
            Some(id) => match settings.profiles(answers) {
                Ok(profiles) => secret_with(profiles, id),
                Err(_) => None,
            },
        },
    }
}

/// The view of optional settings.
pub open spec fn settings_of(settings: Option<&LocalSettings>) -> Option<LocalSettings> {
    match settings {
        Some(settings) => Some(*settings),
        None => None,
    }
}

/// The credential locator of the default profile.
pub fn default_profile_secret(settings: Option<&LocalSettings>, answers: &Vec<ProfileAnswers>) -> (secret:
    Option<String>)
    requires
        settings matches Some(settings) ==> settings.answered(answers@),
    ensures
        opt_view(secret) == default_secret(settings_of(settings), answers@),
{
    let settings = match settings {
        Some(settings) => settings,
        None => {
            return None;
        },
    };
    let id = match settings.default_profile_id() {
        Some(id) => id,
        None => {
            return None;
        },
    };
    match settings.provider_profiles(answers) {
        Ok(profiles) => profile_and_secret(&profiles, id),
        Err(_) => None,
    }
}

/// One discovery request: where it goes, and what it carries.
#[derive(Debug, PartialEq, Eq)]
pub struct DiscoveryRequest {
    pub base_url: String,
    pub secret_reference: Option<String>,
    pub timeout_millis: u64,
    pub bearer: Option<String>,
}

/// The request goes to the profile's own endpoint, and carries what the profile declares. The
/// credential crosses the boundary only for profiles that reference secret material.
pub open spec fn addressed(
    request: DiscoveryRequest,
    entry: ModelProfileEntry,
    profile: ProfileModel,
    bearer: Option<String>,
) -> bool {
    &&& request.base_url@ == entry.base_url@
    &&& opt_view(request.secret_reference) == profile.secret_reference
    &&& request.timeout_millis == profile.timeouts.request_millis
    &&& request.bearer == (if profile.auth_strategy == AuthStrategy::SecretRef {
        bearer
    } else {
        None
    })
}

/// The discovery request for a profile, or nothing where it is disabled or no endpoint is declared
/// for it.
pub fn discovery_request(
    settings: &LocalSettings,
    profile: &ProviderProfile,
    bearer: &Option<String>,
) -> (request: Option<DiscoveryRequest>)
    ensures
        match request {
            Some(request) => ({
                &&& profile.enabled
                &&& entry_of(settings.entries(), profile.id@) matches Some(entry)
                &&& addressed(request, entry, profile@, *bearer)
            }),
            None => !profile.enabled || entry_of(settings.entries(), profile.id@) is None,
        },
{
    if !profile.enabled {
        return None;
    }
    match settings.endpoint_for(profile.id.as_str()) {
        Some(endpoint) => Some(
            DiscoveryRequest {
                base_url: endpoint.to_owned(),
                secret_reference: copy_optional(&profile.secret_reference),
                timeout_millis: profile.timeouts.request_millis,
                bearer: match profile.auth_strategy {
                    AuthStrategy::SecretRef => copy_optional(bearer),
                    AuthStrategy::Keyless => None,
                },
            },
        ),
        None => None,
    }
}

/// What came of probing one profile: whether the discovery settings were accepted, and the models
/// that the provider listed, where it answered.
#[derive(Debug, PartialEq, Eq)]
pub struct ProbeAnswer {
    pub settings_accepted: bool,
    pub models: Option<Vec<String>>,
}

/// The models that a probe adds.
pub open spec fn attributed(profile: Seq<char>, models: Seq<Seq<char>>) -> Seq<(Seq<char>, Seq<char>)> {
    models.map_values(|model: Seq<char>| (profile, model))
}

/// The models discovered on the first `n` profiles, each attributed to its profile, or nothing where
/// the default profile's discovery failed or a profile has no endpoint. Disabled profiles are not
/// asked; others than the default one may fail.
pub open spec fn discovered(
    entries: Seq<(String, ModelProfileEntry)>,
    profiles: Seq<ProfileModel>,
    default_id: Seq<char>,
    probes: Seq<ProbeAnswer>,
    n: nat,
) -> Option<Seq<(Seq<char>, Seq<char>)>>
    decreases n,
{
    if n == 0 {
        Some(Seq::empty())
    } else {
        match discovered(entries, profiles, default_id, probes, (n - 1) as nat) {
            None => None,
            Some(earlier) => {
                let profile = profiles[n - 1];
                if !profile.enabled {
                    Some(earlier)
                } else if entry_of(entries, profile.id) is None {
                    None
                } else if !probes[n - 1].settings_accepted || probes[n - 1].models is None {
                    if profile.id == default_id {
                        None
                    } else {
                        Some(earlier)
                    }
                } else {
                    Some(earlier + attributed(profile.id, views(probes[n - 1].models->0@)))
                }
            },
        }
    }
}

proof fn lemma_discovery_stops(
    entries: Seq<(String, ModelProfileEntry)>,
    profiles: Seq<ProfileModel>,
    default_id: Seq<char>,
    probes: Seq<ProbeAnswer>,
    n: nat,
    m: nat,
)
    requires
        n <= m,
        discovered(entries, profiles, default_id, probes, n) is None,
    ensures
        discovered(entries, profiles, default_id, probes, m) is None,
    decreases m - n,
{
    if n < m {
        lemma_discovery_stops(entries, profiles, default_id, probes, n, (m - 1) as nat);
    }
}

/// Takes one probe into account. Whether discovery goes on.
pub fn settle_probe(
    settings: &LocalSettings,
    profile: &ProviderProfile,
    default_id: &str,
    probe: &ProbeAnswer,
    found: &mut Vec<DiscoveredModel>,
) -> (goes_on: bool)
    ensures
        goes_on == !(profile.enabled && (entry_of(settings.entries(), profile.id@) is None || (
        !probe.settings_accepted || probe.models is None) && profile.id@ == default_id@)),
        found_views(final(found)@) == (if goes_on && profile.enabled && probe.settings_accepted
            && probe.models is Some {
            found_views(old(found)@) + attributed(profile.id@, views(probe.models->0@))
        } else {
            found_views(old(found)@)
        }),
{
    if !profile.enabled {
        return true;
    }
    if settings.endpoint_for(profile.id.as_str()).is_none() {
        return false;
    }
    let is_default = same_text(profile.id.as_str(), default_id);
    if !probe.settings_accepted {
        return !is_default;
    }
    match &probe.models {
        None => !is_default,
        Some(models) => {
            let ghost before = found_views(found@);
            let ghost added = attributed(profile.id@, views(models@));
            let mut i: usize = 0;
            assert(before + added.subrange(0, 0) =~= before);
            while i < models.len()
                invariant
                    i <= models@.len(),
                    added == attributed(profile.id@, views(models@)),
                    found_views(found@) == before + added.subrange(0, i as int),
                decreases models@.len() - i,
            {
                let ghost so_far = found@;
                found.push(
                    DiscoveredModel { profile_id: profile.id.clone(), model_id: models[i].clone() },
                );
                assert(found_views(found@) =~= found_views(so_far).push(added[i as int]));
                assert(added.subrange(0, i + 1) =~= added.subrange(0, i as int).push(
                    added[i as int],
                ));
                assert(found_views(found@) =~= before + added.subrange(0, i + 1));
                i += 1;
            }
            assert(added.subrange(0, i as int) =~= added);
            true
        },
    }
}

/// Discovery across the first `n` profiles.
fn discover_first(
    settings: &LocalSettings,
    profiles: &Vec<ProviderProfile>,
    default_id: &str,
    probes: &Vec<ProbeAnswer>,
    n: usize,
) -> (found: Option<Vec<DiscoveredModel>>)
    requires
        n <= profiles@.len(),
        n <= probes@.len(),
    ensures
        match found {
            Some(found) => discovered(
                settings.entries(),
                profile_views(profiles@),
                default_id@,
                probes@,
                n as nat,
            ) == Some(found_views(found@)),
            None => discovered(
                settings.entries(),
                profile_views(profiles@),
                default_id@,
                probes@,
                n as nat,
            ) is None,
        },
{
    let ghost all = profile_views(profiles@);
    let ghost entries = settings.entries();
    let mut found: Vec<DiscoveredModel> = Vec::new();
    assert(found_views(found@) =~= Seq::<(Seq<char>, Seq<char>)>::empty());
    let mut i: usize = 0;
    while i < n
        invariant
            i <= n,
            n <= profiles@.len(),
            n <= probes@.len(),
            all == profile_views(profiles@),
            entries == settings.entries(),
            discovered(entries, all, default_id@, probes@, i as nat) == Some(found_views(found@)),
        decreases n - i,
    {
        assert(all[i as int] == profiles@[i as int]@);
        if !settle_probe(settings, &profiles[i], default_id, &probes[i], &mut found) {
            proof {
                lemma_discovery_stops(
                    entries,
                    all,
                    default_id@,
                    probes@,
                    (i + 1) as nat,
                    n as nat,
                );
            }
            return None;
        }
        i += 1;
    }
    Some(found)
}

/// Discovery across every enabled profile, each with its own endpoint. `probes` holds what came of
/// each profile; what stands there for a profile that is not asked plays no part.
pub fn discover_enabled_profiles(
    settings: &LocalSettings,
    profiles: &Vec<ProviderProfile>,
    default_id: &str,
    probes: &Vec<ProbeAnswer>,
) -> (found: Option<Vec<DiscoveredModel>>)
    requires
        probes@.len() == profiles@.len(),
    ensures
        match found {
            Some(found) => discovered(
                settings.entries(),
                profile_views(profiles@),
                default_id@,
                probes@,
                profiles@.len(),
            ) == Some(found_views(found@)),
            None => discovered(
                settings.entries(),
                profile_views(profiles@),
                default_id@,
                probes@,
                profiles@.len(),
            ) is None,
        },
{
    discover_first(settings, profiles, default_id, probes, profiles.len())
}

/// What discovery does next.
#[derive(Debug, PartialEq, Eq)]
pub enum DiscoveryStep {
    /// The next profile is asked.
    Ask(DiscoveryRequest),
    /// The next profile is disabled and is passed over; what is noted of it plays no part.
    PassOver,
    /// Nobody is asked any more.
    End,
}

/// The profile whose turn it is once the earlier ones were asked or passed over, if discovery comes
/// to another one: a default profile is named and enabled, all profiles hold together, and nothing
/// has ended discovery so far.
pub open spec fn next_profile(
    settings: Option<LocalSettings>,
    profile_answers: Seq<ProfileAnswers>,
    probes: Seq<ProbeAnswer>,
) -> Option<ProfileModel> {
    match settings {
        None => None,
        Some(settings) => match (
            opt_view(settings.models_section().default_profile),
            settings.profiles(profile_answers),
        ) {
            (Some(id), Ok(profiles)) => if enabled_with(profiles, id) && probes.len()
                < profiles.len() && discovered(
                settings.entries(),
                profiles,
                id,
                probes,
                probes.len(),
            ) is Some {
                Some(profiles[probes.len() as int])
            } else {
                None
            },
            _ => None,
        },
    }
}

/// The endpoint that is declared for the profile, with all else that its entry says.
pub open spec fn declared_for(settings: Option<LocalSettings>, profile: ProfileModel) -> Option<
    ModelProfileEntry,
> {
    match settings {
        Some(settings) => entry_of(settings.entries(), profile.id),
        None => None,
    }
}

/// Discovery is over.
pub open spec fn discovery_over(
    settings: Option<LocalSettings>,
    profile_answers: Seq<ProfileAnswers>,
    probes: Seq<ProbeAnswer>,
) -> bool {
    match next_profile(settings, profile_answers, probes) {
        None => true,
        Some(profile) => profile.enabled && declared_for(settings, profile) is None,
    }
}

/// Decides who is asked for models next. `probes` holds what came of the profiles so far, in order.
/// Nobody is asked unless the default profile is there and enabled, a disabled profile is never
/// asked, and asking ends once the default profile fails or an enabled one has no endpoint.
pub fn next_request(
    settings: Option<&LocalSettings>,
    profile_answers: &Vec<ProfileAnswers>,
    probes: &Vec<ProbeAnswer>,
    bearer: &Option<String>,
) -> (step: DiscoveryStep)
    requires
        settings matches Some(settings) ==> settings.answered(profile_answers@),
    ensures
        match step {
            DiscoveryStep::Ask(request) => ({
                &&& next_profile(settings_of(settings), profile_answers@, probes@) matches Some(
                    profile,
                )
                &&& profile.enabled
                &&& declared_for(settings_of(settings), profile) matches Some(entry)
                &&& addressed(request, entry, profile, *bearer)
            }),
            DiscoveryStep::PassOver => next_profile(
                settings_of(settings),
                profile_answers@,
                probes@,
            ) matches Some(profile) && !profile.enabled,
            DiscoveryStep::End => discovery_over(settings_of(settings), profile_answers@, probes@),
        },
{
    let settings = match settings {
        Some(settings) => settings,
        None => {
            return DiscoveryStep::End;
        },
    };
    let id = match settings.default_profile_id() {
        Some(id) => id,
        None => {
            return DiscoveryStep::End;
        },
    };
    let profiles = match settings.provider_profiles(profile_answers) {
        Ok(profiles) => profiles,
        Err(_) => {
            return DiscoveryStep::End;
        },
    };
    let turn: usize = probes.len();
    if !any_enabled(&profiles, id) || turn >= profiles.len() {
        return DiscoveryStep::End;
    }
    if discover_first(settings, &profiles, id, probes, turn).is_none() {
        return DiscoveryStep::End;
    }
    let profile = &profiles[turn];
    assert(profile_views(profiles@)[turn as int] == profile@);
    if !profile.enabled {
        return DiscoveryStep::PassOver;
    }
    match discovery_request(settings, profile, bearer) {
        Some(request) => DiscoveryStep::Ask(request),
        None => DiscoveryStep::End,
    }
}

/// The identifiers of the discovered models, in order.
pub fn catalog_model_ids(models: &Vec<DiscoveredModel>) -> (ids: Vec<String>)
    ensures
        views(ids@) == found_views(models@).map_values(|found: (Seq<char>, Seq<char>)| found.1),
{
    let mut ids: Vec<String> = Vec::new();
    let mut i: usize = 0;
    while i < models.len()
        invariant
            i <= models@.len(),
            ids@.len() == i,
            forall|j: int| 0 <= j < i ==> (#[trigger] ids@[j])@ == models@[j].model_id@,
        decreases models@.len() - i,
    {
        ids.push(models[i].model_id.clone());
        i += 1;
    }
    assert(views(ids@) =~= found_views(models@).map_values(
        |found: (Seq<char>, Seq<char>)| found.1,
    ));
    ids
}

/// What the inference port says on the way: whether the routing policy and the limits can be had,
/// what the router selected, and whether the resulting provider settings are accepted.
#[derive(Debug, PartialEq, Eq)]
pub struct ResolutionAnswers {
    pub policy: bool,
    pub route: Option<RoutedModel>,
    pub limits: bool,
    pub model: bool,
}

/// What a resolution says.
pub enum ResolutionModel {
    Disabled,
    Configured {
        base_url: Seq<char>,
        model: Seq<char>,
        secret_reference: Option<Seq<char>>,
        timeout_millis: u64,
        limits: ProviderLimits,
        omit_tool_choice: bool,
        profile_id: Seq<char>,
        model_id: Seq<char>,
        models: Seq<Seq<char>>,
    },
    Degraded { reason: Seq<char>, secret: Option<Seq<char>> },
}

impl View for ModelResolution {
    type V = ResolutionModel;

    open spec fn view(&self) -> ResolutionModel {
        match self {
            ModelResolution::Disabled => ResolutionModel::Disabled,
            ModelResolution::Configured { config, route, models } => ResolutionModel::Configured {
                base_url: config.base_url@,
                model: config.model@,
                secret_reference: opt_view(config.secret_reference),
                timeout_millis: config.timeout_millis,
                limits: config.limits,
                omit_tool_choice: config.omit_tool_choice,
                profile_id: route.profile_id@,
                model_id: route.model_id@,
                models: views(models@),
            },
            ModelResolution::Degraded { reason, secret } => ResolutionModel::Degraded {
                reason: reason@,
                secret: opt_view(*secret),
            },
        }
    }
}

/// The resolution once the default profile is known to be enabled.
pub open spec fn routed(
    settings: LocalSettings,
    profiles: Seq<ProfileModel>,
    id: Seq<char>,
    probes: Seq<ProbeAnswer>,
    answers: ResolutionAnswers,
) -> ResolutionModel {
    let secret = secret_with(profiles, id);
    match discovered(settings.entries(), profiles, id, probes, profiles.len()) {
        None => ResolutionModel::Degraded { reason: "provider_unavailable"@, secret },
        Some(found) => if !answers.policy {
            ResolutionModel::Degraded { reason: "invalid_routing_policy"@, secret }
        } else {
            match answers.route {
                None => ResolutionModel::Degraded { reason: "no_eligible_model"@, secret },
                Some(route) => match (
                    profile_with(profiles, route.profile_id@),
                    entry_of(settings.entries(), route.profile_id@),
                ) {
                    (None, _) => ResolutionModel::Degraded {
                        reason: "routed_profile_missing"@,
                        secret,
                    },
                    (Some(profile), None) => ResolutionModel::Degraded {
                        reason: "routed_profile_missing"@,
                        secret: profile.secret_reference,
                    },
                    (Some(profile), Some(entry)) => if !answers.limits {
                        ResolutionModel::Degraded { reason: "invalid_provider_limits"@, secret }
                    } else if !answers.model {
                        ResolutionModel::Degraded {
                            reason: "invalid_model_config"@,
                            secret: profile.secret_reference,
                        }
                    } else {
                        ResolutionModel::Configured {
                            base_url: entry.base_url@,
                            model: route.model_id@,
                            secret_reference: profile.secret_reference,
                            timeout_millis: profile.timeouts.request_millis,
                            limits: model_limits(),
                            omit_tool_choice: profile.omit_tool_choice,
                            profile_id: route.profile_id@,
                            model_id: route.model_id@,
                            models: found.map_values(|one: (Seq<char>, Seq<char>)| one.1),
                        }
                    },
                },
            }
        },
    }
}

/// The resolution of the default profile.
pub open spec fn resolution(
    settings: Option<LocalSettings>,
    profile_answers: Seq<ProfileAnswers>,
    probes: Seq<ProbeAnswer>,
    answers: ResolutionAnswers,
) -> ResolutionModel {
    match settings {
        None => ResolutionModel::Disabled,
        Some(settings) => match opt_view(settings.models_section().default_profile) {
            None => ResolutionModel::Disabled,
            Some(id) => match settings.profiles(profile_answers) {
                Err(_) => ResolutionModel::Degraded { reason: "invalid_profiles"@, secret: None },
                Ok(profiles) => if !enabled_with(profiles, id) {
                    ResolutionModel::Degraded {
                        reason: "default_profile_missing_or_disabled"@,
                        secret: secret_with(profiles, id),
                    }
                } else {
                    routed(settings, profiles, id, probes, answers)
                },
            },
        },
    }
}

/// Resolves the default profile from what the profiles' probes and the router gave. A failure
/// surfaces as a degraded outcome; the routed selection is the decision, with no other behind it.
pub fn resolve_default_model(
    settings: Option<&LocalSettings>,
    profile_answers: &Vec<ProfileAnswers>,
    probes: &Vec<ProbeAnswer>,
    answers: ResolutionAnswers,
) -> (outcome: ModelResolution)
    requires
        settings matches Some(settings) ==> settings.answered(profile_answers@) && probes@.len()
            == settings.entries().len(),
    ensures
        outcome@ == resolution(settings_of(settings), profile_answers@, probes@, answers),
        outcome matches ModelResolution::Configured { route, .. } ==> answers.route == Some(route),
{
    let settings = match settings {
        Some(settings) => settings,
        None => {
            return ModelResolution::Disabled;
        },
    };
    let id = match settings.default_profile_id() {
        Some(id) => id,
        None => {
            return ModelResolution::Disabled;
        },
    };
    let profiles = match settings.provider_profiles(profile_answers) {
        Ok(profiles) => profiles,
        Err(_) => {
            return ModelResolution::Degraded { reason: "invalid_profiles", secret: None };
        },
    };
    proof {
        crate::settings::law_profiles_are_coherent(
            settings.entries(),
            profile_answers@,
            settings.entries().len(),
        );
    }
    if !any_enabled(&profiles, id) {
        return ModelResolution::Degraded {
            reason: "default_profile_missing_or_disabled",
            secret: profile_and_secret(&profiles, id),
        };
    }
    let found = match discover_enabled_profiles(settings, &profiles, id, probes) {
        Some(found) => found,
        None => {
            return ModelResolution::Degraded {
                reason: "provider_unavailable",
                secret: profile_and_secret(&profiles, id),
            };
        },
    };
    if !answers.policy {
        return ModelResolution::Degraded {
            reason: "invalid_routing_policy",
            secret: profile_and_secret(&profiles, id),
        };
    }
    let route = match answers.route {
        Some(route) => route,
        None => {
            return ModelResolution::Degraded {
                reason: "no_eligible_model",
                secret: profile_and_secret(&profiles, id),
            };
        },
    };
    let profile = match find_profile(&profiles, route.profile_id.as_str()) {
        Some(profile) => profile,
        None => {
            return ModelResolution::Degraded {
                reason: "routed_profile_missing",
                secret: profile_and_secret(&profiles, id),
            };
        },
    };
    let base_url = match settings.endpoint_for(route.profile_id.as_str()) {
        Some(base_url) => base_url.to_owned(),
        None => {
            return ModelResolution::Degraded {
                reason: "routed_profile_missing",
                secret: copy_optional(&profile.secret_reference),
            };
        },
    };
    if !answers.limits {
        return ModelResolution::Degraded {
            reason: "invalid_provider_limits",
            secret: profile_and_secret(&profiles, id),
        };
    }
    if !answers.model {
        return ModelResolution::Degraded {
            reason: "invalid_model_config",
            secret: copy_optional(&profile.secret_reference),
        };
    }
    let models = catalog_model_ids(&found);
    ModelResolution::Configured {
        config: ModelConfig {
            base_url,
            model: route.model_id.clone(),
            secret_reference: copy_optional(&profile.secret_reference),
            timeout_millis: profile.timeouts.request_millis,
            limits: ProviderLimits::for_models(),
            omit_tool_choice: profile.omit_tool_choice,
        },
        route,
        models,
    }
}

/// There is no silent fallback: a configured outcome serves the routed model, on the routed profile,
/// at the endpoint, with the credential, the timeout and the quirks that the settings declare for it.
pub proof fn law_no_silent_fallback(
    settings: Option<LocalSettings>,
    profile_answers: Seq<ProfileAnswers>,
    probes: Seq<ProbeAnswer>,
    answers: ResolutionAnswers,
)
    ensures
        resolution(settings, profile_answers, probes, answers) matches ResolutionModel::Configured {
            base_url,
            model,
            secret_reference,
            timeout_millis,
            omit_tool_choice,
            profile_id,
            model_id,
            ..
        } ==> {
            &&& settings is Some
            &&& answers.route matches Some(route)
            &&& route.profile_id@ == profile_id
            &&& route.model_id@ == model
            &&& route.model_id@ == model_id
            &&& entry_of(settings->0.entries(), profile_id) matches Some(entry)
            &&& entry.base_url@ == base_url
            &&& settings->0.profiles(profile_answers) matches Ok(profiles)
            &&& profile_with(profiles, profile_id) matches Some(profile)
            &&& profile.secret_reference == secret_reference
            &&& profile.timeouts.request_millis == timeout_millis
            &&& profile.omit_tool_choice == omit_tool_choice
        },
{
}

/// A discovered model is never paired with another profile's evidence: whatever was discovered
/// belongs to an enabled profile whose own probe listed it.
pub proof fn law_discovery_is_attributed(
    entries: Seq<(String, ModelProfileEntry)>,
    profiles: Seq<ProfileModel>,
    default_id: Seq<char>,
    probes: Seq<ProbeAnswer>,
    n: nat,
    at: int,
)
    requires
        n <= profiles.len(),
        n <= probes.len(),
        discovered(entries, profiles, default_id, probes, n) is Some,
        0 <= at < discovered(entries, profiles, default_id, probes, n)->0.len(),
    ensures
        ({
            let one = discovered(entries, profiles, default_id, probes, n)->0[at];
            exists|i: int|
                0 <= i < n && (#[trigger] profiles[i]).enabled && profiles[i].id == one.0
                    && probes[i].models is Some && views(probes[i].models->0@).contains(one.1)
        }),
    decreases n,
{
    let all = discovered(entries, profiles, default_id, probes, n)->0;
    let earlier = discovered(entries, profiles, default_id, probes, (n - 1) as nat)->0;
    if at < earlier.len() {
        law_discovery_is_attributed(entries, profiles, default_id, probes, (n - 1) as nat, at);
        assert(all[at] == earlier[at]);
    } else {
        let listed = views(probes[n - 1].models->0@);
        assert(all[at] == attributed(profiles[n - 1].id, listed)[at - earlier.len()]);
        assert(listed[at - earlier.len()] == all[at].1);
        assert(profiles[n - 1].enabled);
    }
}

/// Nobody is asked where there are no settings, where they name no default profile, or where that
/// profile is not declared or is disabled.
pub proof fn law_nobody_is_asked_without_an_enabled_default(
    settings: Option<LocalSettings>,
    profile_answers: Seq<ProfileAnswers>,
    probes: Seq<ProbeAnswer>,
)
    requires
        match settings {
            None => true,
            Some(settings) => match opt_view(settings.models_section().default_profile) {
                None => true,
                Some(id) => settings.profiles(profile_answers) matches Ok(profiles)
                    ==> !enabled_with(profiles, id),
            },
        },
    ensures
        discovery_over(settings, profile_answers, probes),
        next_profile(settings, profile_answers, probes) is None,
{
}

/// Once it came to a profile, discovery comes to the one behind it, whatever the answer, unless the
/// profile was asked and is the default one without an answer, or has no endpoint to be asked at. So
/// every enabled profile is asked, in order and once, until one of these ends it.
pub proof fn law_discovery_goes_on_until_the_default_fails(
    settings: LocalSettings,
    profile_answers: Seq<ProfileAnswers>,
    probes: Seq<ProbeAnswer>,
    answer: ProbeAnswer,
)
    requires
        next_profile(Some(settings), profile_answers, probes) is Some,
    ensures
        ({
            let profile = next_profile(Some(settings), profile_answers, probes)->0;
            let profiles = settings.profiles(profile_answers)->Ok_0;
            let is_default = opt_view(settings.models_section().default_profile) == Some(profile.id);
            let failed = !answer.settings_accepted || answer.models is None;
            let ended = profile.enabled && (entry_of(settings.entries(), profile.id) is None || failed
                && is_default);
            let next = next_profile(Some(settings), profile_answers, probes.push(answer));
            &&& profile == profiles[probes.len() as int]
            &&& next == (if !ended && probes.len() + 1 < profiles.len() {
                Some(profiles[(probes.len() + 1) as int])
            } else {
                None
            })
        }),
{
    let id = opt_view(settings.models_section().default_profile)->0;
    let profiles = settings.profiles(profile_answers)->Ok_0;
    lemma_discovery_reads_earlier_probes(
        settings.entries(),
        profiles,
        id,
        probes,
        probes.push(answer),
        probes.len(),
    );
}

proof fn lemma_discovery_reads_earlier_probes(
    entries: Seq<(String, ModelProfileEntry)>,
    profiles: Seq<ProfileModel>,
    default_id: Seq<char>,
    a: Seq<ProbeAnswer>,
    b: Seq<ProbeAnswer>,
    n: nat,
)
    requires
        n <= a.len(),
        n <= b.len(),
        forall|i: int| 0 <= i < n ==> #[trigger] a[i] == b[i],
    ensures
        discovered(entries, profiles, default_id, a, n) == discovered(
            entries,
            profiles,
            default_id,
            b,
            n,
        ),
    decreases n,
{
    if n > 0 {
        lemma_discovery_reads_earlier_probes(entries, profiles, default_id, a, b, (n - 1) as nat);
        assert(a[n - 1] == b[n - 1]);
    }
}

/// Once discovery is over, the resolution is settled: what is noted for profiles that were not asked
/// plays no part in it.
pub proof fn law_profiles_that_were_not_asked_play_no_part(
    settings: Option<LocalSettings>,
    profile_answers: Seq<ProfileAnswers>,
    asked: Seq<ProbeAnswer>,
    a: Seq<ProbeAnswer>,
    b: Seq<ProbeAnswer>,
    answers: ResolutionAnswers,
)
    requires
        settings matches Some(settings) ==> a.len() == settings.entries().len() && b.len()
            == settings.entries().len(),
        asked.len() <= a.len(),
        asked.len() <= b.len(),
        forall|i: int| 0 <= i < asked.len() ==> #[trigger] asked[i] == a[i],
        forall|i: int| 0 <= i < asked.len() ==> #[trigger] asked[i] == b[i],
        discovery_over(settings, profile_answers, asked),
    ensures
        resolution(settings, profile_answers, a, answers) == resolution(
            settings,
            profile_answers,
            b,
            answers,
        ),
{
    if let Some(known) = settings {
        if let (Some(id), Ok(profiles)) = (
            opt_view(known.models_section().default_profile),
            known.profiles(profile_answers),
        ) {
            let entries = known.entries();
            let n = asked.len();
            crate::settings::law_profiles_are_coherent(entries, profile_answers, entries.len());
            lemma_discovery_reads_earlier_probes(entries, profiles, id, asked, a, n);
            lemma_discovery_reads_earlier_probes(entries, profiles, id, asked, b, n);
            if n < profiles.len() && enabled_with(profiles, id) {
                let stop = if discovered(entries, profiles, id, asked, n) is None {
                    n
                } else {
                    n + 1
                };
                lemma_discovery_stops(entries, profiles, id, a, stop, profiles.len());
                lemma_discovery_stops(entries, profiles, id, b, stop, profiles.len());
            }
        }
    }
}

/// What a profile listed is discovered, attributed to it: every model of every enabled profile that
/// answered, unless discovery failed as a whole.
pub proof fn law_every_listed_model_is_discovered(
    entries: Seq<(String, ModelProfileEntry)>,
    profiles: Seq<ProfileModel>,
    default_id: Seq<char>,
    probes: Seq<ProbeAnswer>,
    n: nat,
    i: int,
    k: int,
)
    requires
        0 <= i < n <= profiles.len(),
        n <= probes.len(),
        discovered(entries, profiles, default_id, probes, n) is Some,
        profiles[i].enabled,
        probes[i].settings_accepted,
        probes[i].models is Some,
        0 <= k < probes[i].models->0@.len(),
    ensures
        discovered(entries, profiles, default_id, probes, n)->0.contains(
            (profiles[i].id, probes[i].models->0@[k]@),
        ),
    decreases n,
{
    let all = discovered(entries, profiles, default_id, probes, n)->0;
    let earlier = discovered(entries, profiles, default_id, probes, (n - 1) as nat)->0;
    let one = (profiles[i].id, probes[i].models->0@[k]@);
    if i < n - 1 {
        law_every_listed_model_is_discovered(
            entries,
            profiles,
            default_id,
            probes,
            (n - 1) as nat,
            i,
            k,
        );
        let at = choose|at: int| 0 <= at < earlier.len() && earlier[at] == one;
        assert(all[at] == one);
    } else {
        assert(all[earlier.len() + k] == one);
    }
}

/// Discovery fails as a whole exactly where an enabled profile has no endpoint or the default profile
/// is asked and does not answer: what another profile answers is its own affair.
pub proof fn law_only_the_default_can_fail_discovery(
    entries: Seq<(String, ModelProfileEntry)>,
    profiles: Seq<ProfileModel>,
    default_id: Seq<char>,
    probes: Seq<ProbeAnswer>,
    n: nat,
)
    requires
        n <= profiles.len(),
        n <= probes.len(),
    ensures
        discovered(entries, profiles, default_id, probes, n) is None <==> exists|i: int|
            0 <= i < n && (#[trigger] profiles[i]).enabled && ((forall|j: int|
                0 <= j < entries.len() ==> (#[trigger] entries[j]).0@ != profiles[i].id) || (
            profiles[i].id == default_id && (!probes[i].settings_accepted
                || probes[i].models is None))),
    decreases n,
{
    if n > 0 {
        law_only_the_default_can_fail_discovery(entries, profiles, default_id, probes, (n - 1) as nat);
        crate::settings::law_entries_are_found_by_identifier(entries, profiles[n - 1].id);
        if discovered(entries, profiles, default_id, probes, n) is None {
            if discovered(entries, profiles, default_id, probes, (n - 1) as nat) is Some {
                assert(profiles[n - 1].enabled);
            }
        }
    }
}

/// A request for models goes to the endpoint that the profile's entry declares, within the profile's
/// own time, and hands the credential to nobody that does not refer to one.
pub proof fn law_credentials_go_where_they_are_declared(
    request: DiscoveryRequest,
    entry: ModelProfileEntry,
    profile: ProfileModel,
    bearer: Option<String>,
)
    requires
        addressed(request, entry, profile, bearer),
    ensures
        request.base_url@ == entry.base_url@,
        request.timeout_millis == profile.timeouts.request_millis,
        request.secret_reference is Some <==> profile.secret_reference is Some,
        request.secret_reference matches Some(locator) ==> profile.secret_reference == Some(locator@),
        profile.auth_strategy == AuthStrategy::Keyless ==> request.bearer is None,
        profile.auth_strategy == AuthStrategy::SecretRef ==> request.bearer == bearer,
{
}

/// A profile is looked up by its identifier: the first under it is found, and none only where no
/// profile is under it.
pub proof fn law_profiles_are_found_by_identifier(profiles: Seq<ProfileModel>, id: Seq<char>)
    ensures
        profile_with(profiles, id) is None <==> forall|i: int|
            0 <= i < profiles.len() ==> (#[trigger] profiles[i]).id != id,
        profile_with(profiles, id) matches Some(found) ==> exists|i: int|
            0 <= i < profiles.len() && #[trigger] profiles[i] == found && found.id == id && forall|
                j: int,
            |
                0 <= j < i ==> (#[trigger] profiles[j]).id != id,
    decreases profiles.len(),
{
    if profiles.len() > 0 && profiles[0].id != id {
        let rest = profiles.drop_first();
        law_profiles_are_found_by_identifier(rest, id);
        if let Some(found) = profile_with(rest, id) {
            let i = choose|i: int|
                0 <= i < rest.len() && #[trigger] rest[i] == found && found.id == id && forall|j: int|
                    0 <= j < i ==> (#[trigger] rest[j]).id != id;
            assert(profiles[i + 1] == rest[i]);
            assert forall|j: int| 0 <= j < i + 1 implies (#[trigger] profiles[j]).id != id by {
                if j > 0 {
                    assert(rest[j - 1] == profiles[j]);
                }
            }
        } else {
            assert forall|j: int| 0 <= j < profiles.len() implies (#[trigger] profiles[j]).id
                != id by {
                if j > 0 {
                    assert(rest[j - 1] == profiles[j]);
                }
            }
        }
    }
}

/// The credential that is asked for is the one of the default profile, and of no other.
pub proof fn law_the_default_profiles_secret_is_used(
    settings: LocalSettings,
    answers: Seq<ProfileAnswers>,
)
    ensures
        default_secret(Some(settings), answers) matches Some(locator) ==> exists|i: int|
            0 <= i < settings.profiles(answers)->Ok_0.len() && Some(
                (#[trigger] settings.profiles(answers)->Ok_0[i]).id,
            ) == opt_view(settings.models_section().default_profile) && settings.profiles(
                answers,
            )->Ok_0[i].secret_reference == Some(locator),
        settings.models_section().default_profile is None || settings.profiles(answers) is Err
            ==> default_secret(Some(settings), answers) is None,
        default_secret(None, answers) is None,
{
    if let (Some(id), Ok(profiles)) = (
        opt_view(settings.models_section().default_profile),
        settings.profiles(answers),
    ) {
        law_profiles_are_found_by_identifier(profiles, id);
    }
}

/// Each outcome has its own cause. Nothing is resolved exactly where no default profile is named; a
/// model is configured exactly where the default profile is enabled, discovery succeeded and every
/// port agreed; and each reason to degrade is given for one failure alone.
pub proof fn law_outcomes_have_their_own_causes(
    settings: LocalSettings,
    profile_answers: Seq<ProfileAnswers>,
    probes: Seq<ProbeAnswer>,
    answers: ResolutionAnswers,
)
    ensures
        ({
            let outcome = resolution(Some(settings), profile_answers, probes, answers);
            let named = settings.models_section().default_profile is Some;
            let id = settings.models_section().default_profile->0@;
            let sound = settings.profiles(profile_answers) is Ok;
            let profiles = settings.profiles(profile_answers)->Ok_0;
            let enabled = exists|i: int|
                0 <= i < profiles.len() && (#[trigger] profiles[i]).id == id && profiles[i].enabled;
            let found = discovered(settings.entries(), profiles, id, probes, profiles.len());
            let known = profile_with(profiles, answers.route->0.profile_id@) is Some && entry_of(
                settings.entries(),
                answers.route->0.profile_id@,
            ) is Some;
            let asked = named && sound && enabled;
            let routable = asked && found is Some && answers.policy;
            &&& resolution(None, profile_answers, probes, answers) is Disabled
            &&& outcome is Disabled <==> !named
            &&& outcome is Configured <==> routable && answers.route is Some && known
                && answers.limits && answers.model
            &&& outcome is Configured ==> outcome->models == found->0.map_values(
                |one: (Seq<char>, Seq<char>)| one.1,
            ) && outcome->limits == model_limits()
            &&& outcome is Degraded ==> {
                &&& outcome->reason == "invalid_profiles"@ <==> named && !sound
                &&& outcome->reason == "default_profile_missing_or_disabled"@ <==> named && sound
                    && !enabled
                &&& outcome->reason == "provider_unavailable"@ <==> asked && found is None
                &&& outcome->reason == "invalid_routing_policy"@ <==> asked && found is Some
                    && !answers.policy
                &&& outcome->reason == "no_eligible_model"@ <==> routable && answers.route is None
                &&& outcome->reason == "routed_profile_missing"@ <==> routable
                    && answers.route is Some && !known
                &&& outcome->reason == "invalid_provider_limits"@ <==> routable
                    && answers.route is Some && known && !answers.limits
                &&& outcome->reason == "invalid_model_config"@ <==> routable
                    && answers.route is Some && known && answers.limits && !answers.model
            }
        }),
{
    reveal_strlit("invalid_profiles");
    reveal_strlit("default_profile_missing_or_disabled");
    reveal_strlit("provider_unavailable");
    reveal_strlit("invalid_routing_policy");
    reveal_strlit("no_eligible_model");
    reveal_strlit("routed_profile_missing");
    reveal_strlit("invalid_provider_limits");
    reveal_strlit("invalid_model_config");
    assert("invalid_profiles"@.len() == 16 && "default_profile_missing_or_disabled"@.len() == 35
        && "provider_unavailable"@.len() == 20 && "invalid_routing_policy"@.len() == 22
        && "no_eligible_model"@.len() == 17 && "routed_profile_missing"@.len() == 22
        && "invalid_provider_limits"@.len() == 23 && "invalid_model_config"@.len() == 20);
    assert("provider_unavailable"@[0] != "invalid_model_config"@[0]);
    assert("invalid_routing_policy"@[0] != "routed_profile_missing"@[0]);
}

/// A degraded outcome carries the credential locator of the default profile, or of the profile that
/// was routed to, and never that of a third one.
pub proof fn law_degraded_outcomes_carry_the_right_locator(
    settings: LocalSettings,
    profile_answers: Seq<ProfileAnswers>,
    probes: Seq<ProbeAnswer>,
    answers: ResolutionAnswers,
)
    ensures
        resolution(Some(settings), profile_answers, probes, answers) matches ResolutionModel::Degraded {
            secret: Some(locator),
            ..
        } ==> exists|i: int|
            0 <= i < settings.profiles(profile_answers)->Ok_0.len() && (
            #[trigger] settings.profiles(profile_answers)->Ok_0[i]).secret_reference == Some(locator)
                && (Some(settings.profiles(profile_answers)->Ok_0[i].id) == opt_view(
                settings.models_section().default_profile,
            ) || (answers.route is Some && answers.route->0.profile_id@ == settings.profiles(
                profile_answers,
            )->Ok_0[i].id)),
{
    if let (Some(id), Ok(profiles)) = (
        opt_view(settings.models_section().default_profile),
        settings.profiles(profile_answers),
    ) {
        law_profiles_are_found_by_identifier(profiles, id);
        if let Some(route) = answers.route {
            law_profiles_are_found_by_identifier(profiles, route.profile_id@);
        }
    }
}

} // verus!
