//! The schema of the settings file: the keys that each section knows, what each of them holds and
//! what stands for one that is absent. A key that its section does not know refuses the whole
//! file, so that a pasted credential never counts as a setting.
use crate::json::{
    as_optional_bool, as_optional_number, as_optional_text, as_text, field_view, field_views, get,
    lemma_json_parts, member_of, member_views, name_views, occurrences, optional_bool_value,
    optional_number_value, optional_text_value, read_record, record_fields, text_value, Json,
    JsonModel, RecordRules,
};
use crate::payloads::{as_texts, law_lists_of_texts_are_read_whole, opt_view, text_list};
use crate::settings::{
    enabled_by_default, ApiMode, AuthStrategy, DaemonSection, ModelProfileEntry, ModelSource,
    ModelsSection, SettingsFile, VaultSection,
};
use crate::text::{
    increasing, is_before, lemma_precedes_total, lemma_precedes_transitive, precedes, same_text,
};
use crate::vault::VaultProviderMode;
use crate::vault_provider::views;
use vstd::prelude::*;

verus! {

/// The fields of a section, in the order of `names`. A section is a table of known keys, or the
/// bare values in order, of which the first `least` must be there and none past the last counts.
pub open spec fn section_fields(json: JsonModel, names: Seq<Seq<char>>, least: nat) -> Option<
    Seq<Option<JsonModel>>,
> {
    match json {
        JsonModel::Array(items) => if items.len() < least {
            None
        } else {
            Some(
                Seq::new(
                    names.len(),
                    |k: int|
                        if k < items.len() {
                            Some(items[k])
                        } else {
                            None
                        },
                ),
            )
        },
        _ => record_fields(
            json,
            names,
            RecordRules { refuse_unknown: true, refuse_repeated: true },
        ),
    }
}

/// A table with a key that is none of `names`.
pub open spec fn holds_foreign_key(json: JsonModel, names: Seq<Seq<char>>) -> bool {
    json matches JsonModel::Object(members) && exists|i: int|
        0 <= i < members.len() && !names.contains((#[trigger] members[i]).0)
}

fn section<'a>(json: &'a Json, names: &Vec<&str>, least: usize) -> (fields: Option<
    Vec<Option<&'a Json>>,
>)
    ensures
        match fields {
            Some(fields) => ({
                &&& section_fields(json@, name_views(names@), least as nat) == Some(
                    field_views(fields@),
                )
                &&& fields@.len() == names@.len()
                &&& forall|k: int|
                    0 <= k < fields@.len() ==> #[trigger] field_views(fields@)[k] == field_view(
                        fields@[k],
                    )
            }),
            None => section_fields(json@, name_views(names@), least as nat) is None,
        },
{
    proof {
        lemma_json_parts(*json);
    }
    match json {
        Json::Array(items) => {
            if items.len() < least {
                return None;
            }
            let mut fields: Vec<Option<&'a Json>> = Vec::new();
            let mut k: usize = 0;
            while k < names.len()
                invariant
                    k <= names@.len(),
                    fields@.len() == k,
                    forall|j: int|
                        0 <= j < k ==> #[trigger] field_views(fields@)[j] == if j < items@.len() {
                            Some(items@[j]@)
                        } else {
                            None
                        },
                decreases names@.len() - k,
            {
                let ghost before = fields@;
                if k < items.len() {
                    fields.push(Some(&items[k]));
                } else {
                    fields.push(None);
                }
                assert forall|j: int| 0 <= j < k implies #[trigger] field_views(fields@)[j]
                    == field_views(before)[j] by {}
                assert(field_views(fields@)[k as int] == field_view(fields@[k as int]));
                k += 1;
            }
            assert(field_views(fields@) =~= section_fields(
                json@,
                name_views(names@),
                least as nat,
            )->0);
            Some(fields)
        },
        _ => read_record(
            json,
            names,
            RecordRules { refuse_unknown: true, refuse_repeated: true },
        ),
    }
}

/// Neither items nor members.
pub open spec fn holds_nothing(json: JsonModel) -> bool {
    match json {
        JsonModel::Array(items) => items.len() == 0,
        JsonModel::Object(members) => members.len() == 0,
        _ => false,
    }
}

/// The name of a choice: a text, or the one key of a table with nothing under it.
pub open spec fn choice_name(json: JsonModel) -> Option<Seq<char>> {
    match json {
        JsonModel::Text(name) => Some(name),
        JsonModel::Object(members) => if members.len() == 1 && holds_nothing(members[0].1) {
            Some(members[0].0)
        } else {
            None
        },
        _ => None,
    }
}

fn choice(json: &Json) -> (name: Option<&str>)
    ensures
        match name {
            Some(name) => choice_name(json@) == Some(name@),
            None => choice_name(json@) is None,
        },
{
    proof {
        lemma_json_parts(*json);
    }
    match json {
        Json::Text(name) => Some(name.as_str()),
        Json::Object(members) => {
            if members.len() != 1 {
                return None;
            }
            proof {
                lemma_json_parts(members@[0].1);
            }
            assert(member_views(members@)[0] == (members@[0].0@, members@[0].1@));
            let empty = match &members[0].1 {
                Json::Array(items) => items.len() == 0,
                Json::Object(inner) => inner.len() == 0,
                _ => false,
            };
            if empty {
                Some(members[0].0.as_str())
            } else {
                None
            }
        },
        _ => None,
    }
}

/// A vault's mode. There is no default: a deployment states it.
pub open spec fn mode_value(field: Option<JsonModel>) -> Option<VaultProviderMode> {
    match field {
        Some(json) => match choice_name(json) {
            Some(name) => if name == "read_only"@ {
                Some(VaultProviderMode::ReadOnly)
            } else if name == "read_write"@ {
                Some(VaultProviderMode::ReadWrite)
            } else {
                None
            },
            None => None,
        },
        None => None,
    }
}

fn as_mode(field: Option<&Json>) -> (mode: Option<VaultProviderMode>)
    ensures
        mode == mode_value(field_view(field)),
{
    match field {
        Some(json) => match choice(json) {
            Some(name) => if same_text(name, "read_only") {
                Some(VaultProviderMode::ReadOnly)
            } else if same_text(name, "read_write") {
                Some(VaultProviderMode::ReadWrite)
            } else {
                None
            },
            None => None,
        },
        None => None,
    }
}

/// The wire protocol of a profile.
pub open spec fn api_value(field: Option<JsonModel>) -> Option<ApiMode> {
    match field {
        Some(json) => if choice_name(json) == Some("openai_completions"@) {
            Some(ApiMode::OpenAiCompletions)
        } else {
            None
        },
        None => Some(ApiMode::OpenAiCompletions),
    }
}

fn as_api(field: Option<&Json>) -> (mode: Option<ApiMode>)
    ensures
        mode == api_value(field_view(field)),
{
    match field {
        Some(json) => match choice(json) {
            Some(name) => if same_text(name, "openai_completions") {
                Some(ApiMode::OpenAiCompletions)
            } else {
                None
            },
            None => None,
        },
        None => Some(ApiMode::OpenAiCompletions),
    }
}

/// The declared way to authenticate, where one is declared.
pub open spec fn auth_value(field: Option<JsonModel>) -> Option<Option<AuthStrategy>> {
    match field {
        Some(json) => match choice_name(json) {
            Some(name) => if name == "none"@ {
                Some(Some(AuthStrategy::Keyless))
            } else if name == "secret_ref"@ {
                Some(Some(AuthStrategy::SecretRef))
            } else {
                None
            },
            None => None,
        },
        None => Some(None),
    }
}

fn as_auth(field: Option<&Json>) -> (auth: Option<Option<AuthStrategy>>)
    ensures
        auth == auth_value(field_view(field)),
{
    match field {
        Some(json) => match choice(json) {
            Some(name) => if same_text(name, "none") {
                Some(Some(AuthStrategy::Keyless))
            } else if same_text(name, "secret_ref") {
                Some(Some(AuthStrategy::SecretRef))
            } else {
                None
            },
            None => None,
        },
        None => Some(None),
    }
}

/// Where a profile's models come from.
pub open spec fn source_value(field: Option<JsonModel>) -> Option<ModelSource> {
    match field {
        Some(json) => match choice_name(json) {
            Some(name) => if name == "discovered"@ {
                Some(ModelSource::Discovered)
            } else if name == "configured"@ {
                Some(ModelSource::Configured)
            } else {
                None
            },
            None => None,
        },
        None => Some(ModelSource::Discovered),
    }
}

fn as_source(field: Option<&Json>) -> (source: Option<ModelSource>)
    ensures
        source == source_value(field_view(field)),
{
    match field {
        Some(json) => match choice(json) {
            Some(name) => if same_text(name, "discovered") {
                Some(ModelSource::Discovered)
            } else if same_text(name, "configured") {
                Some(ModelSource::Configured)
            } else {
                None
            },
            None => None,
        },
        None => Some(ModelSource::Discovered),
    }
}

/// A list of texts; an absent one is empty.
pub open spec fn listed_texts(field: Option<JsonModel>) -> Option<Seq<Seq<char>>> {
    match field {
        Some(_) => text_list(field),
        None => Some(Seq::empty()),
    }
}

fn as_listed_texts(field: Option<&Json>) -> (texts: Option<Vec<String>>)
    ensures
        match texts {
            Some(texts) => listed_texts(field_view(field)) == Some(views(texts@)),
            None => listed_texts(field_view(field)) is None,
        },
{
    match field {
        Some(_) => as_texts(field),
        None => {
            let none: Vec<String> = Vec::new();
            assert(views(none@) =~= Seq::<Seq<char>>::empty());
            Some(none)
        },
    }
}

/// The compatibility switches of a profile: whether the tool choice is left out.
pub open spec fn quirks_value(field: Option<JsonModel>) -> Option<bool> {
    match field {
        Some(json) => match section_fields(json, quirk_keys(), 0) {
            Some(fields) => match optional_bool_value(fields[0]) {
                Some(omit) => Some(omit == Some(true)),
                None => None,
            },
            None => None,
        },
        None => Some(false),
    }
}

/// The keys of a profile's `quirks`.
pub open spec fn quirk_keys() -> Seq<Seq<char>> {
    seq!["omit_tool_choice"@]
}

fn as_quirks(field: Option<&Json>) -> (omit_tool_choice: Option<bool>)
    ensures
        omit_tool_choice == quirks_value(field_view(field)),
{
    let json = match field {
        Some(json) => json,
        None => {
            return Some(false);
        },
    };
    let mut names: Vec<&str> = Vec::new();
    names.push("omit_tool_choice");
    assert(name_views(names@) =~= quirk_keys());
    match section(json, &names, 0) {
        Some(fields) => match as_optional_bool(fields[0]) {
            Some(Some(omit)) => Some(omit),
            Some(None) => Some(false),
            None => None,
        },
        None => None,
    }
}

/// What the `[daemon]` section says.
pub struct DaemonSectionModel {
    pub database: Option<Seq<char>>,
    pub endpoint: Option<Seq<char>>,
}

impl View for DaemonSection {
    type V = DaemonSectionModel;

    open spec fn view(&self) -> DaemonSectionModel {
        DaemonSectionModel { database: opt_view(self.database), endpoint: opt_view(self.endpoint) }
    }
}

/// The keys of the `[daemon]` section.
pub open spec fn daemon_keys() -> Seq<Seq<char>> {
    seq!["database"@, "endpoint"@]
}

/// What a document says as a `[daemon]` section.
pub open spec fn daemon_value(json: JsonModel) -> Option<DaemonSectionModel> {
    match section_fields(json, daemon_keys(), 2) {
        Some(fields) => match (optional_text_value(fields[0]), optional_text_value(fields[1])) {
            (Some(database), Some(endpoint)) => Some(DaemonSectionModel { database, endpoint }),
            _ => None,
        },
        None => None,
    }
}

impl DaemonSection {
    /// Reads the section.
    pub fn decode(json: &Json) -> (decoded: Option<Self>)
        ensures
            match decoded {
                Some(decoded) => daemon_value(json@) == Some(decoded@),
                None => daemon_value(json@) is None,
            },
    {
        let mut names: Vec<&str> = Vec::new();
        names.push("database");
        names.push("endpoint");
        assert(name_views(names@) =~= daemon_keys());
        match section(json, &names, 2) {
            Some(fields) => match (as_optional_text(fields[0]), as_optional_text(fields[1])) {
                (Some(database), Some(endpoint)) => Some(DaemonSection { database, endpoint }),
                _ => None,
            },
            None => None,
        }
    }
}

/// What the `[vault]` section says.
pub struct VaultSectionModel {
    pub provider_id: Seq<char>,
    pub root: Seq<char>,
    pub mode: VaultProviderMode,
    pub scopes: Seq<Seq<char>>,
    pub exclusions: Seq<Seq<char>>,
}

impl View for VaultSection {
    type V = VaultSectionModel;

    open spec fn view(&self) -> VaultSectionModel {
        VaultSectionModel {
            provider_id: self.provider_id@,
            root: self.root@,
            mode: self.mode,
            scopes: views(self.scopes@),
            exclusions: views(self.exclusions@),
        }
    }
}

/// The keys of the `[vault]` section.
pub open spec fn vault_keys() -> Seq<Seq<char>> {
    seq!["provider_id"@, "root"@, "mode"@, "scopes"@, "exclusions"@]
}

/// What a document says as a `[vault]` section.
pub open spec fn vault_value(json: JsonModel) -> Option<VaultSectionModel> {
    match section_fields(json, vault_keys(), 3) {
        Some(fields) => match (
            text_value(fields[0]),
            text_value(fields[1]),
            mode_value(fields[2]),
            listed_texts(fields[3]),
            listed_texts(fields[4]),
        ) {
            (Some(provider_id), Some(root), Some(mode), Some(scopes), Some(exclusions)) => Some(
                VaultSectionModel { provider_id, root, mode, scopes, exclusions },
            ),
            _ => None,
        },
        None => None,
    }
}

impl VaultSection {
    /// Reads the section.
    pub fn decode(json: &Json) -> (decoded: Option<Self>)
        ensures
            match decoded {
                Some(decoded) => vault_value(json@) == Some(decoded@),
                None => vault_value(json@) is None,
            },
    {
        let mut names: Vec<&str> = Vec::new();
        names.push("provider_id");
        names.push("root");
        names.push("mode");
        names.push("scopes");
        names.push("exclusions");
        assert(name_views(names@) =~= vault_keys());
        match section(json, &names, 3) {
            Some(fields) => match (
                as_text(fields[0]),
                as_text(fields[1]),
                as_mode(fields[2]),
                as_listed_texts(fields[3]),
                as_listed_texts(fields[4]),
            ) {
                (Some(provider_id), Some(root), Some(mode), Some(scopes), Some(exclusions)) => Some(
                    VaultSection { provider_id, root, mode, scopes, exclusions },
                ),
                _ => None,
            },
            None => None,
        }
    }
}

/// What one profile says.
pub struct EntryModel {
    pub base_url: Seq<char>,
    pub enabled: bool,
    pub secret_ref: Option<Seq<char>>,
    pub api_mode: ApiMode,
    pub auth_type: Option<AuthStrategy>,
    pub connect_timeout_ms: Option<u64>,
    pub request_timeout_ms: Option<u64>,
    pub stale_stream_timeout_ms: Option<u64>,
    pub models: Seq<Seq<char>>,
    pub model_source: ModelSource,
    pub omit_tool_choice: bool,
}

impl View for ModelProfileEntry {
    type V = EntryModel;

    open spec fn view(&self) -> EntryModel {
        EntryModel {
            base_url: self.base_url@,
            enabled: self.enabled,
            secret_ref: opt_view(self.secret_ref),
            api_mode: self.api_mode,
            auth_type: self.auth_type,
            connect_timeout_ms: self.connect_timeout_ms,
            request_timeout_ms: self.request_timeout_ms,
            stale_stream_timeout_ms: self.stale_stream_timeout_ms,
            models: views(self.models@),
            model_source: self.model_source,
            omit_tool_choice: self.omit_tool_choice,
        }
    }
}

/// The keys of a profile. None of them holds a credential: `secret_ref` is a locator.
pub open spec fn profile_keys() -> Seq<Seq<char>> {
    seq![
        "base_url"@,
        "enabled"@,
        "secret_ref"@,
        "api_mode"@,
        "auth_type"@,
        "connect_timeout_ms"@,
        "request_timeout_ms"@,
        "stale_stream_timeout_ms"@,
        "models"@,
        "model_source"@,
        "quirks"@,
    ]
}

/// What a document says as a profile.
pub open spec fn entry_value(json: JsonModel) -> Option<EntryModel> {
    match section_fields(json, profile_keys(), 3) {
        Some(fields) => match (
            text_value(fields[0]),
            optional_bool_value(fields[1]),
            optional_text_value(fields[2]),
            api_value(fields[3]),
            auth_value(fields[4]),
            optional_number_value(fields[5]),
            optional_number_value(fields[6]),
            optional_number_value(fields[7]),
            listed_texts(fields[8]),
            source_value(fields[9]),
            quirks_value(fields[10]),
        ) {
            (
                Some(base_url),
                Some(enabled),
                Some(secret_ref),
                Some(api_mode),
                Some(auth_type),
                Some(connect_timeout_ms),
                Some(request_timeout_ms),
                Some(stale_stream_timeout_ms),
                Some(models),
                Some(model_source),
                Some(omit_tool_choice),
            ) => Some(
                EntryModel {
                    base_url,
                    enabled: enabled != Some(false),
                    secret_ref,
                    api_mode,
                    auth_type,
                    connect_timeout_ms,
                    request_timeout_ms,
                    stale_stream_timeout_ms,
                    models,
                    model_source,
                    omit_tool_choice,
                },
            ),
            _ => None,
        },
        None => None,
    }
}

impl ModelProfileEntry {
    /// Reads one profile.
    pub fn decode(json: &Json) -> (decoded: Option<Self>)
        ensures
            match decoded {
                Some(decoded) => entry_value(json@) == Some(decoded@),
                None => entry_value(json@) is None,
            },
    {
        let mut names: Vec<&str> = Vec::new();
        names.push("base_url");
        names.push("enabled");
        names.push("secret_ref");
        names.push("api_mode");
        names.push("auth_type");
        names.push("connect_timeout_ms");
        names.push("request_timeout_ms");
        names.push("stale_stream_timeout_ms");
        names.push("models");
        names.push("model_source");
        names.push("quirks");
        assert(name_views(names@) =~= profile_keys());
        let fields = match section(json, &names, 3) {
            Some(fields) => fields,
            None => {
                return None;
            },
        };
        match (
            as_text(fields[0]),
            as_optional_bool(fields[1]),
            as_optional_text(fields[2]),
            as_api(fields[3]),
            as_auth(fields[4]),
            as_optional_number(fields[5]),
            as_optional_number(fields[6]),
            as_optional_number(fields[7]),
            as_listed_texts(fields[8]),
            as_source(fields[9]),
            as_quirks(fields[10]),
        ) {
            (
                Some(base_url),
                Some(enabled),
                Some(secret_ref),
                Some(api_mode),
                Some(auth_type),
                Some(connect_timeout_ms),
                Some(request_timeout_ms),
                Some(stale_stream_timeout_ms),
                Some(models),
                Some(model_source),
                Some(omit_tool_choice),
            ) => Some(
                ModelProfileEntry {
                    base_url,
                    enabled: match enabled {
                        Some(enabled) => enabled,
                        None => enabled_by_default(),
                    },
                    secret_ref,
                    api_mode,
                    auth_type,
                    connect_timeout_ms,
                    request_timeout_ms,
                    stale_stream_timeout_ms,
                    models,
                    model_source,
                    omit_tool_choice,
                },
            ),
            _ => None,
        }
    }
}

/// The profiles with their identifiers.
pub open spec fn entry_views(entries: Seq<(String, ModelProfileEntry)>) -> Seq<
    (Seq<char>, EntryModel),
> {
    entries.map_values(|one: (String, ModelProfileEntry)| (one.0@, one.1@))
}

/// The identifiers of profiles.
pub open spec fn entry_ids(entries: Seq<(Seq<char>, EntryModel)>) -> Seq<Seq<char>> {
    entries.map_values(|one: (Seq<char>, EntryModel)| one.0)
}

/// The ordered list with one more profile at its place; a profile of that identifier is replaced.
pub open spec fn placed(
    entries: Seq<(Seq<char>, EntryModel)>,
    id: Seq<char>,
    entry: EntryModel,
) -> Seq<(Seq<char>, EntryModel)>
    decreases entries.len(),
{
    if entries.len() == 0 {
        seq![(id, entry)]
    } else if id == entries[0].0 {
        entries.update(0, (id, entry))
    } else if precedes(id, entries[0].0) {
        seq![(id, entry)] + entries
    } else {
        seq![entries[0]] + placed(entries.drop_first(), id, entry)
    }
}

fn place(entries: &mut Vec<(String, ModelProfileEntry)>, id: String, entry: ModelProfileEntry)
    ensures
        entry_views(final(entries)@) == placed(entry_views(old(entries)@), id@, entry@),
{
    let ghost start = entry_views(entries@);
    let mut i: usize = 0;
    assert(start.subrange(0, start.len() as int) =~= start);
    assert(start =~= start.subrange(0, 0) + start);
    while i < entries.len()
        invariant
            i <= entries@.len(),
            entries@ == old(entries)@,
            start == entry_views(entries@),
            placed(start, id@, entry@) =~= start.subrange(0, i as int) + placed(
                start.subrange(i as int, start.len() as int),
                id@,
                entry@,
            ),
        decreases entries@.len() - i,
    {
        let ghost rest = start.subrange(i as int, start.len() as int);
        assert(rest[0] == (entries@[i as int].0@, entries@[i as int].1@));
        if same_text(id.as_str(), entries[i].0.as_str()) {
            entries.set(i, (id, entry));
            assert(entry_views(entries@) =~= start.subrange(0, i as int) + rest.update(
                0,
                (id@, entry@),
            ));
            return;
        }
        if is_before(id.as_str(), entries[i].0.as_str()) {
            entries.insert(i, (id, entry));
            assert(entry_views(entries@) =~= start.subrange(0, i as int) + (seq![(id@, entry@)]
                + rest));
            return;
        }
        assert(rest.drop_first() =~= start.subrange(i + 1, start.len() as int));
        assert(start.subrange(0, i as int) + (seq![rest[0]] + placed(
            rest.drop_first(),
            id@,
            entry@,
        )) =~= start.subrange(0, i + 1) + placed(rest.drop_first(), id@, entry@));
        i += 1;
    }
    entries.push((id, entry));
    assert(entry_views(entries@) =~= start.subrange(0, i as int) + seq![(id@, entry@)]);
}

/// Every member is a profile; the profiles in the order of their identifiers.
pub open spec fn profile_values(members: Seq<(Seq<char>, JsonModel)>) -> Option<
    Seq<(Seq<char>, EntryModel)>,
>
    decreases members.len(),
{
    if members.len() == 0 {
        Some(Seq::empty())
    } else {
        match (profile_values(members.drop_last()), entry_value(members.last().1)) {
            (Some(earlier), Some(entry)) => Some(placed(earlier, members.last().0, entry)),
            _ => None,
        }
    }
}

/// The profiles, where any are declared.
pub open spec fn profiles_value(field: Option<JsonModel>) -> Option<
    Option<Seq<(Seq<char>, EntryModel)>>,
> {
    match field {
        Some(JsonModel::Object(members)) => match profile_values(members) {
            Some(profiles) => Some(Some(profiles)),
            None => None,
        },
        Some(_) => None,
        None => Some(None),
    }
}

proof fn lemma_profile_values_stop(members: Seq<(Seq<char>, JsonModel)>, n: int)
    requires
        0 <= n <= members.len(),
        profile_values(members.subrange(0, n)) is None,
    ensures
        profile_values(members) is None,
    decreases members.len() - n,
{
    if n == members.len() {
        assert(members.subrange(0, n) =~= members);
    } else {
        assert(members.subrange(0, n + 1).drop_last() =~= members.subrange(0, n));
        lemma_profile_values_stop(members, n + 1);
    }
}

/// The view of the profiles, where any are declared.
pub open spec fn profiles_view(profiles: Option<Vec<(String, ModelProfileEntry)>>) -> Option<
    Seq<(Seq<char>, EntryModel)>,
> {
    match profiles {
        Some(profiles) => Some(entry_views(profiles@)),
        None => None,
    }
}

fn as_profiles(field: Option<&Json>) -> (profiles: Option<Option<Vec<(String, ModelProfileEntry)>>>)
    ensures
        match profiles {
            Some(profiles) => profiles_value(field_view(field)) == Some(profiles_view(profiles)),
            None => profiles_value(field_view(field)) is None,
        },
{
    let json = match field {
        Some(json) => json,
        None => {
            return Some(None);
        },
    };
    proof {
        lemma_json_parts(*json);
    }
    let members = match json {
        Json::Object(members) => members,
        _ => {
            return None;
        },
    };
    let ghost all = member_views(members@);
    let mut profiles: Vec<(String, ModelProfileEntry)> = Vec::new();
    assert(entry_views(profiles@) =~= Seq::<(Seq<char>, EntryModel)>::empty());
    let mut i: usize = 0;
    while i < members.len()
        invariant
            i <= members@.len(),
            all == member_views(members@),
            json@ == JsonModel::Object(all),
            field == Some(json),
            profile_values(all.subrange(0, i as int)) == Some(entry_views(profiles@)),
        decreases members@.len() - i,
    {
        let ghost longer = all.subrange(0, i + 1);
        assert(longer.drop_last() =~= all.subrange(0, i as int));
        assert(longer.last() == (members@[i as int].0@, members@[i as int].1@));
        match ModelProfileEntry::decode(&members[i].1) {
            Some(entry) => {
                place(&mut profiles, members[i].0.clone(), entry);
            },
            None => {
                proof {
                    lemma_profile_values_stop(all, i + 1);
                }
                return None;
            },
        }
        i += 1;
    }
    assert(all.subrange(0, i as int) =~= all);
    Some(Some(profiles))
}

/// What the `[models]` section says.
pub struct ModelsSectionModel {
    pub default_profile: Option<Seq<char>>,
    pub profiles: Option<Seq<(Seq<char>, EntryModel)>>,
}

impl View for ModelsSection {
    type V = ModelsSectionModel;

    open spec fn view(&self) -> ModelsSectionModel {
        ModelsSectionModel {
            default_profile: opt_view(self.default_profile),
            profiles: profiles_view(self.profiles),
        }
    }
}

/// The keys of the `[models]` section.
pub open spec fn models_keys() -> Seq<Seq<char>> {
    seq!["default_profile"@, "profiles"@]
}

/// What a document says as a `[models]` section.
pub open spec fn models_value(json: JsonModel) -> Option<ModelsSectionModel> {
    match section_fields(json, models_keys(), 2) {
        Some(fields) => match (optional_text_value(fields[0]), profiles_value(fields[1])) {
            (Some(default_profile), Some(profiles)) => Some(
                ModelsSectionModel { default_profile, profiles },
            ),
            _ => None,
        },
        None => None,
    }
}

impl ModelsSection {
    /// Reads the section.
    pub fn decode(json: &Json) -> (decoded: Option<Self>)
        ensures
            match decoded {
                Some(decoded) => models_value(json@) == Some(decoded@),
                None => models_value(json@) is None,
            },
    {
        let mut names: Vec<&str> = Vec::new();
        names.push("default_profile");
        names.push("profiles");
        assert(name_views(names@) =~= models_keys());
        match section(json, &names, 2) {
            Some(fields) => match (as_optional_text(fields[0]), as_profiles(fields[1])) {
                (Some(default_profile), Some(profiles)) => Some(
                    ModelsSection { default_profile, profiles },
                ),
                _ => None,
            },
            None => None,
        }
    }
}

/// What a settings file says.
pub struct SettingsFileModel {
    pub daemon: Option<DaemonSectionModel>,
    pub models: Option<ModelsSectionModel>,
    pub vault: Option<VaultSectionModel>,
}

impl View for SettingsFile {
    type V = SettingsFileModel;

    open spec fn view(&self) -> SettingsFileModel {
        SettingsFileModel {
            daemon: match self.daemon {
                Some(daemon) => Some(daemon@),
                None => None,
            },
            models: match self.models {
                Some(models) => Some(models@),
                None => None,
            },
            vault: match self.vault {
                Some(vault) => Some(vault@),
                None => None,
            },
        }
    }
}

/// The sections of a settings file.
pub open spec fn file_keys() -> Seq<Seq<char>> {
    seq!["daemon"@, "models"@, "vault"@]
}

/// The `[daemon]` section, where it is there.
pub open spec fn daemon_field(field: Option<JsonModel>) -> Option<Option<DaemonSectionModel>> {
    match field {
        Some(json) => match daemon_value(json) {
            Some(daemon) => Some(Some(daemon)),
            None => None,
        },
        None => Some(None),
    }
}

/// The `[models]` section, where it is there.
pub open spec fn models_field(field: Option<JsonModel>) -> Option<Option<ModelsSectionModel>> {
    match field {
        Some(json) => match models_value(json) {
            Some(models) => Some(Some(models)),
            None => None,
        },
        None => Some(None),
    }
}

/// The `[vault]` section, where it is there.
pub open spec fn vault_field(field: Option<JsonModel>) -> Option<Option<VaultSectionModel>> {
    match field {
        Some(json) => match vault_value(json) {
            Some(vault) => Some(Some(vault)),
            None => None,
        },
        None => Some(None),
    }
}

/// What a document says as a settings file.
pub open spec fn file_value(json: JsonModel) -> Option<SettingsFileModel> {
    match section_fields(json, file_keys(), 3) {
        Some(fields) => match (
            daemon_field(fields[0]),
            models_field(fields[1]),
            vault_field(fields[2]),
        ) {
            (Some(daemon), Some(models), Some(vault)) => Some(
                SettingsFileModel { daemon, models, vault },
            ),
            _ => None,
        },
        None => None,
    }
}

impl SettingsFile {
    /// Reads a settings document.
    pub fn decode(json: &Json) -> (decoded: Option<Self>)
        ensures
            match decoded {
                Some(decoded) => file_value(json@) == Some(decoded@),
                None => file_value(json@) is None,
            },
    {
        let mut names: Vec<&str> = Vec::new();
        names.push("daemon");
        names.push("models");
        names.push("vault");
        assert(name_views(names@) =~= file_keys());
        let fields = match section(json, &names, 3) {
            Some(fields) => fields,
            None => {
                return None;
            },
        };
        let daemon = match fields[0] {
            Some(json) => match DaemonSection::decode(json) {
                Some(daemon) => Some(daemon),
                None => {
                    return None;
                },
            },
            None => None,
        };
        let models = match fields[1] {
            Some(json) => match ModelsSection::decode(json) {
                Some(models) => Some(models),
                None => {
                    return None;
                },
            },
            None => None,
        };
        let vault = match fields[2] {
            Some(json) => match VaultSection::decode(json) {
                Some(vault) => Some(vault),
                None => {
                    return None;
                },
            },
            None => None,
        };
        Some(SettingsFile { daemon, models, vault })
    }
}

proof fn lemma_placed_in_order(
    entries: Seq<(Seq<char>, EntryModel)>,
    id: Seq<char>,
    entry: EntryModel,
)
    requires
        increasing(entry_ids(entries)),
    ensures
        increasing(entry_ids(placed(entries, id, entry))),
        forall|k: int|
            0 <= k < placed(entries, id, entry).len() ==> {
                ||| (#[trigger] placed(entries, id, entry)[k]).0 == id
                ||| entry_ids(entries).contains(placed(entries, id, entry)[k].0)
            },
    decreases entries.len(),
{
    let ids = entry_ids(entries);
    let after = placed(entries, id, entry);
    if entries.len() > 0 {
        let first = entries[0].0;
        assert(ids[0] == first);
        let rest = entries.drop_first();
        assert(entry_ids(rest) =~= ids.drop_first());
        if id == first {
            assert(entry_ids(after) =~= ids);
            assert forall|k: int| 0 <= k < after.len() implies (#[trigger] after[k]).0 == id
                || ids.contains(after[k].0) by {
                assert(after[k].0 == entry_ids(after)[k]);
            }
        } else if precedes(id, first) {
            assert(entry_ids(after) =~= seq![id] + ids);
            assert forall|j: int| 0 <= j < ids.len() implies precedes(id, #[trigger] ids[j]) by {
                if j > 0 {
                    lemma_precedes_transitive(id, first, ids[j]);
                }
            }
            assert forall|k: int| 0 <= k < after.len() implies (#[trigger] after[k]).0 == id
                || ids.contains(after[k].0) by {
                if k > 0 {
                    assert(after[k].0 == ids[k - 1]);
                }
            }
        } else {
            lemma_precedes_total(id, first);
            assert forall|i: int, j: int| 0 <= i < j < entry_ids(rest).len() implies precedes(
                #[trigger] entry_ids(rest)[i],
                #[trigger] entry_ids(rest)[j],
            ) by {
                assert(entry_ids(rest)[i] == ids[i + 1]);
                assert(entry_ids(rest)[j] == ids[j + 1]);
            }
            lemma_placed_in_order(rest, id, entry);
            let tail = placed(rest, id, entry);
            assert(entry_ids(after) =~= seq![first] + entry_ids(tail));
            assert forall|j: int| 0 <= j < tail.len() implies precedes(
                first,
                #[trigger] entry_ids(tail)[j],
            ) by {
                assert(entry_ids(tail)[j] == tail[j].0);
                if tail[j].0 != id {
                    let k = choose|k: int|
                        0 <= k < entry_ids(rest).len() && entry_ids(rest)[k] == tail[j].0;
                    assert(ids[k + 1] == tail[j].0);
                }
            }
            assert forall|k: int| 0 <= k < after.len() implies (#[trigger] after[k]).0 == id
                || ids.contains(after[k].0) by {
                if k == 0 {
                    assert(after[k].0 == ids[0]);
                } else {
                    assert(after[k] == tail[k - 1]);
                    if tail[k - 1].0 != id {
                        let m = choose|m: int|
                            0 <= m < entry_ids(rest).len() && entry_ids(rest)[m] == tail[k - 1].0;
                        assert(ids[m + 1] == after[k].0);
                    }
                }
            }
        }
    }
}

/// Whatever order a file declares its profiles in, they are listed by identifier, each once.
pub proof fn law_profiles_are_listed_in_order(members: Seq<(Seq<char>, JsonModel)>)
    ensures
        profile_values(members) matches Some(profiles) ==> increasing(entry_ids(profiles)),
    decreases members.len(),
{
    if members.len() > 0 {
        law_profiles_are_listed_in_order(members.drop_last());
        if let (Some(earlier), Some(entry)) = (
            profile_values(members.drop_last()),
            entry_value(members.last().1),
        ) {
            lemma_placed_in_order(earlier, members.last().0, entry);
        }
    }
}

proof fn lemma_profile_refused(members: Seq<(Seq<char>, JsonModel)>, i: int)
    requires
        0 <= i < members.len(),
        entry_value(members[i].1) is None,
    ensures
        profile_values(members) is None,
{
    assert(members.subrange(0, i + 1).last() == members[i]);
    lemma_profile_values_stop(members, i + 1);
}

/// No section and no profile holds a key of its own invention: wherever a table of the file has
/// an unknown key, such as one for a raw credential, the whole file is refused.
pub proof fn law_unknown_keys_refuse_the_file(
    file: JsonModel,
    section: JsonModel,
    profiles: Seq<(Seq<char>, JsonModel)>,
    i: int,
    quirks: JsonModel,
)
    requires
        file is Object,
    ensures
        holds_foreign_key(file, file_keys()) ==> file_value(file) is None,
        get(file, "daemon"@) == Some(section) && holds_foreign_key(section, daemon_keys())
            ==> file_value(file) is None,
        get(file, "vault"@) == Some(section) && holds_foreign_key(section, vault_keys())
            ==> file_value(file) is None,
        get(file, "models"@) == Some(section) && holds_foreign_key(section, models_keys())
            ==> file_value(file) is None,
        get(file, "models"@) == Some(section) && get(section, "profiles"@) == Some(
            JsonModel::Object(profiles),
        ) && 0 <= i < profiles.len() && holds_foreign_key(profiles[i].1, profile_keys())
            ==> file_value(file) is None,
        get(file, "models"@) == Some(section) && get(section, "profiles"@) == Some(
            JsonModel::Object(profiles),
        ) && 0 <= i < profiles.len() && get(profiles[i].1, "quirks"@) == Some(quirks)
            && holds_foreign_key(quirks, quirk_keys()) ==> file_value(file) is None,
{
    assert(file_keys()[0] == "daemon"@ && file_keys()[1] == "models"@ && file_keys()[2]
        == "vault"@);
    assert(models_keys()[1] == "profiles"@);
    assert(profile_keys()[10] == "quirks"@);
    if 0 <= i < profiles.len() && entry_value(profiles[i].1) is None {
        lemma_profile_refused(profiles, i);
    }
}

/// The text under a key, where there is one.
pub open spec fn said_text(json: JsonModel, name: Seq<char>) -> Option<Seq<char>> {
    match get(json, name) {
        Some(JsonModel::Text(said)) => Some(said),
        _ => None,
    }
}

/// The number under a key, where there is one.
pub open spec fn said_number(json: JsonModel, name: Seq<char>) -> Option<u64> {
    match get(json, name) {
        Some(JsonModel::Unsigned(said)) => Some(said),
        _ => None,
    }
}

/// The list is the one under the key, text for text, or empty where the key is absent.
pub open spec fn lists_said(json: JsonModel, name: Seq<char>, texts: Seq<Seq<char>>) -> bool {
    match get(json, name) {
        None => texts.len() == 0,
        Some(JsonModel::Array(items)) => texts.len() == items.len() && forall|i: int|
            0 <= i < items.len() ==> #[trigger] items[i] == JsonModel::Text(texts[i]),
        Some(_) => false,
    }
}

/// Each key is there at most once.
pub open spec fn keyed_once(json: JsonModel) -> bool {
    json is Object && forall|i: int, j: int|
        0 <= i < j < json->Object_0.len() ==> (#[trigger] json->Object_0[i]).0 != (
        #[trigger] json->Object_0[j]).0
}

proof fn lemma_occurs(members: Seq<(Seq<char>, JsonModel)>, name: Seq<char>)
    ensures
        occurrences(members, name) > 0 ==> exists|i: int|
            0 <= i < members.len() && (#[trigger] members[i]).0 == name,
    decreases members.len(),
{
    if members.len() > 0 {
        let front = members.drop_last();
        lemma_occurs(front, name);
        if members.last().0 == name {
            assert(members[members.len() - 1].0 == name);
        } else if occurrences(front, name) > 0 {
            let i = choose|i: int| 0 <= i < front.len() && (#[trigger] front[i]).0 == name;
            assert(members[i].0 == name);
        }
    }
}

proof fn lemma_keyed_once(members: Seq<(Seq<char>, JsonModel)>, name: Seq<char>)
    requires
        keyed_once(JsonModel::Object(members)),
    ensures
        occurrences(members, name) <= 1,
    decreases members.len(),
{
    let json = JsonModel::Object(members);
    if members.len() > 0 {
        let front = members.drop_last();
        assert(keyed_once(JsonModel::Object(front))) by {
            assert forall|i: int, j: int| 0 <= i < j < front.len() implies (#[trigger] front[i]).0
                != (#[trigger] front[j]).0 by {
                assert(json->Object_0[i].0 != json->Object_0[j].0);
            }
        }
        lemma_keyed_once(front, name);
        lemma_occurs(front, name);
        if members.last().0 == name && occurrences(front, name) > 0 {
            let i = choose|i: int| 0 <= i < front.len() && (#[trigger] front[i]).0 == name;
            assert(json->Object_0[i].0 != json->Object_0[members.len() - 1].0);
        }
    }
}

/// A table that holds no key but known ones, and each once, is read: by name, whatever the order.
proof fn lemma_tables_are_read_by_name(json: JsonModel, names: Seq<Seq<char>>, least: nat)
    requires
        json is Object,
    ensures
        keyed_once(json) && !holds_foreign_key(json, names) ==> section_fields(
            json,
            names,
            least,
        ) is Some,
        section_fields(json, names, least) matches Some(fields) ==> fields.len() == names.len()
            && !holds_foreign_key(json, names) && forall|k: int|
            0 <= k < names.len() ==> #[trigger] fields[k] == get(json, names[k]),
{
    let members = json->Object_0;
    if keyed_once(json) {
        assert forall|k: int| 0 <= k < names.len() implies occurrences(
            members,
            #[trigger] names[k],
        ) <= 1 by {
            lemma_keyed_once(members, names[k]);
        }
    }
}

/// The `[daemon]` section says what stands under its two keys, and is taken where they hold texts.
pub proof fn law_the_daemon_section_is_read_by_key(json: JsonModel)
    requires
        json is Object,
    ensures
        daemon_value(json) matches Some(section) ==> {
            &&& section.database == said_text(json, "database"@)
            &&& section.endpoint == said_text(json, "endpoint"@)
        },
        keyed_once(json) && !holds_foreign_key(json, daemon_keys()) && (get(json, "database"@) is None
            || said_text(json, "database"@) is Some) && (get(json, "endpoint"@) is None || said_text(
            json,
            "endpoint"@,
        ) is Some) ==> daemon_value(json) is Some,
{
    lemma_tables_are_read_by_name(json, daemon_keys(), 2);
    assert(daemon_keys()[0] == "database"@ && daemon_keys()[1] == "endpoint"@);
}

/// The `[vault]` section says what stands under its keys; the provider, the root and the mode are
/// required, and the scopes and the exclusions are lists of texts that may be left out.
pub proof fn law_the_vault_section_is_read_by_key(json: JsonModel)
    requires
        json is Object,
    ensures
        vault_value(json) matches Some(section) ==> {
            &&& said_text(json, "provider_id"@) == Some(section.provider_id)
            &&& said_text(json, "root"@) == Some(section.root)
            &&& said_text(json, "mode"@) matches Some(mode) ==> (mode == "read_only"@ <==> section.mode
                == VaultProviderMode::ReadOnly) && (mode == "read_write"@ <==> section.mode
                == VaultProviderMode::ReadWrite)
            &&& get(json, "mode"@) is Some
            &&& lists_said(json, "scopes"@, section.scopes)
            &&& lists_said(json, "exclusions"@, section.exclusions)
        },
        keyed_once(json) && !holds_foreign_key(json, vault_keys()) && said_text(
            json,
            "provider_id"@,
        ) is Some && said_text(json, "root"@) is Some && (said_text(json, "mode"@) == Some(
            "read_only"@,
        ) || said_text(json, "mode"@) == Some("read_write"@)) && (exists|scopes: Seq<Seq<char>>| #[trigger] lists_said(
            json,
            "scopes"@,
            scopes,
        )) && (exists|exclusions: Seq<Seq<char>>| #[trigger] lists_said(json, "exclusions"@, exclusions))
            ==> vault_value(json) is Some,
{
    lemma_tables_are_read_by_name(json, vault_keys(), 3);
    assert(vault_keys()[0] == "provider_id"@ && vault_keys()[1] == "root"@ && vault_keys()[2]
        == "mode"@ && vault_keys()[3] == "scopes"@ && vault_keys()[4] == "exclusions"@);
    reveal_strlit("read_only");
    reveal_strlit("read_write");
    assert("read_only"@.len() == 9 && "read_write"@.len() == 10);
    if let Some(JsonModel::Array(items)) = get(json, "scopes"@) {
        law_lists_of_texts_are_read_whole(items);
    }
    if let Some(JsonModel::Array(items)) = get(json, "exclusions"@) {
        law_lists_of_texts_are_read_whole(items);
    }
}

/// A profile says what stands under its keys. It is enabled unless it says that it is not, omits the
/// tool choice only where its quirks say so, and its models are discovered unless it says that they
/// are configured.
pub proof fn law_profiles_are_read_by_key(json: JsonModel)
    requires
        json is Object,
    ensures
        entry_value(json) matches Some(entry) ==> {
            &&& said_text(json, "base_url"@) == Some(entry.base_url)
            &&& entry.enabled <==> get(json, "enabled"@) != Some(JsonModel::Bool(false))
            &&& entry.secret_ref == said_text(json, "secret_ref"@)
            &&& said_text(json, "auth_type"@) matches Some(said) ==> (said == "none"@
                <==> entry.auth_type == Some(AuthStrategy::Keyless)) && (said == "secret_ref"@
                <==> entry.auth_type == Some(AuthStrategy::SecretRef))
            &&& get(json, "auth_type"@) is None <==> entry.auth_type is None
            &&& entry.connect_timeout_ms == said_number(json, "connect_timeout_ms"@)
            &&& entry.request_timeout_ms == said_number(json, "request_timeout_ms"@)
            &&& entry.stale_stream_timeout_ms == said_number(json, "stale_stream_timeout_ms"@)
            &&& lists_said(json, "models"@, entry.models)
            &&& said_text(json, "model_source"@) matches Some(said) ==> (said == "configured"@
                <==> entry.model_source == ModelSource::Configured) && (said == "discovered"@
                <==> entry.model_source == ModelSource::Discovered)
            &&& get(json, "model_source"@) is None ==> entry.model_source == ModelSource::Discovered
            &&& get(json, "quirks"@) is None ==> !entry.omit_tool_choice
            &&& get(json, "quirks"@) matches Some(quirks) ==> quirks is Object
                ==> entry.omit_tool_choice == (get(quirks, "omit_tool_choice"@) == Some(
                JsonModel::Bool(true),
            ))
        },
{
    lemma_tables_are_read_by_name(json, profile_keys(), 3);
    assert(profile_keys()[0] == "base_url"@);
    assert(profile_keys()[1] == "enabled"@);
    assert(profile_keys()[2] == "secret_ref"@);
    assert(profile_keys()[3] == "api_mode"@);
    assert(profile_keys()[4] == "auth_type"@);
    assert(profile_keys()[5] == "connect_timeout_ms"@);
    assert(profile_keys()[6] == "request_timeout_ms"@);
    assert(profile_keys()[7] == "stale_stream_timeout_ms"@);
    assert(profile_keys()[8] == "models"@);
    assert(profile_keys()[9] == "model_source"@);
    assert(profile_keys()[10] == "quirks"@);
    reveal_strlit("none");
    reveal_strlit("secret_ref");
    reveal_strlit("configured");
    reveal_strlit("discovered");
    assert("none"@.len() == 4 && "secret_ref"@.len() == 10 && "configured"@.len() == 10
        && "discovered"@.len() == 10);
    assert("secret_ref"@[0] != "configured"@[0]);
    assert("secret_ref"@[0] != "discovered"@[0]);
    assert("configured"@[0] != "discovered"@[0]);
    if let Some(JsonModel::Array(items)) = get(json, "models"@) {
        law_lists_of_texts_are_read_whole(items);
    }
    if let Some(quirks) = get(json, "quirks"@) {
        assert(quirk_keys()[0] == "omit_tool_choice"@);
        if quirks is Object {
            lemma_tables_are_read_by_name(quirks, quirk_keys(), 0);
        }
    }
}

/// A profile that says where it listens, and nothing else, is taken.
pub proof fn law_a_profile_needs_its_endpoint_alone(json: JsonModel, base_url: Seq<char>)
    requires
        json == JsonModel::Object(seq![("base_url"@, JsonModel::Text(base_url))]),
    ensures
        entry_value(json) matches Some(entry) && entry.base_url == base_url && entry.enabled
            && entry.secret_ref is None && entry.auth_type is None && entry.models.len() == 0
            && entry.model_source == ModelSource::Discovered && !entry.omit_tool_choice,
{
    let members = json->Object_0;
    lemma_tables_are_read_by_name(json, profile_keys(), 3);
    assert(profile_keys()[0] == "base_url"@);
    assert(profile_keys()[1] == "enabled"@);
    assert(profile_keys()[2] == "secret_ref"@);
    assert(profile_keys()[3] == "api_mode"@);
    assert(profile_keys()[4] == "auth_type"@);
    assert(profile_keys()[5] == "connect_timeout_ms"@);
    assert(profile_keys()[6] == "request_timeout_ms"@);
    assert(profile_keys()[7] == "stale_stream_timeout_ms"@);
    assert(profile_keys()[8] == "models"@);
    assert(profile_keys()[9] == "model_source"@);
    assert(profile_keys()[10] == "quirks"@);
    assert(members[0].0 == profile_keys()[0]);
    assert(profile_keys().contains(members[0].0));
    reveal_strlit("base_url");
    reveal_strlit("enabled");
    reveal_strlit("secret_ref");
    reveal_strlit("api_mode");
    reveal_strlit("auth_type");
    reveal_strlit("connect_timeout_ms");
    reveal_strlit("request_timeout_ms");
    reveal_strlit("stale_stream_timeout_ms");
    reveal_strlit("models");
    reveal_strlit("model_source");
    reveal_strlit("quirks");
    assert("base_url"@.len() == 8 && "enabled"@.len() == 7 && "secret_ref"@.len() == 10
        && "api_mode"@.len() == 8 && "auth_type"@.len() == 9 && "connect_timeout_ms"@.len() == 18
        && "request_timeout_ms"@.len() == 18 && "stale_stream_timeout_ms"@.len() == 23
        && "models"@.len() == 6 && "model_source"@.len() == 12 && "quirks"@.len() == 6);
    assert("base_url"@[0] != "api_mode"@[0]);
    assert("connect_timeout_ms"@[0] != "request_timeout_ms"@[0]);
    assert("models"@[0] != "quirks"@[0]);
    assert(members.last() == members[0]);
    assert forall|k: int| 0 < k < profile_keys().len() implies get(json, #[trigger] profile_keys()[k]) is None by {
        assert(members.drop_last().len() == 0);
        assert(profile_keys()[k] != "base_url"@);
        assert(member_of(members.drop_last(), profile_keys()[k]) is None);
    }
    assert(keyed_once(json));
}

proof fn lemma_placed_holds(
    entries: Seq<(Seq<char>, EntryModel)>,
    id: Seq<char>,
    entry: EntryModel,
    one: (Seq<char>, EntryModel),
)
    requires
        increasing(entry_ids(entries)),
    ensures
        placed(entries, id, entry).contains(one) <==> one == (id, entry) || (one.0 != id
            && entries.contains(one)),
    decreases entries.len(),
{
    let after = placed(entries, id, entry);
    if entries.len() == 0 {
        assert(after[0] == (id, entry));
    } else {
        let ids = entry_ids(entries);
        let rest = entries.drop_first();
        assert(entry_ids(rest) =~= ids.drop_first());
        lemma_precedes_total(id, entries[0].0);
        assert(entries =~= seq![entries[0]] + rest);
        assert forall|j: int| 0 < j < entries.len() implies precedes(
            entries[0].0,
            (#[trigger] entries[j]).0,
        ) by {
            assert(ids[j] == entries[j].0 && ids[0] == entries[0].0);
        }
        if id == entries[0].0 || precedes(id, entries[0].0) {
            assert forall|j: int| 0 < j < entries.len() implies (#[trigger] entries[j]).0 != id by {
                lemma_precedes_total(id, entries[j].0);
                if id != entries[0].0 {
                    lemma_precedes_transitive(id, entries[0].0, entries[j].0);
                }
            }
            assert(after[0] == (id, entry));
            if id == entries[0].0 {
                if after.contains(one) {
                    let k = choose|k: int| 0 <= k < after.len() && after[k] == one;
                    if k > 0 {
                        assert(entries[k] == one);
                    }
                }
                if one.0 != id && entries.contains(one) {
                    let k = choose|k: int| 0 <= k < entries.len() && entries[k] == one;
                    assert(after[k] == one);
                }
            } else {
                if after.contains(one) {
                    let k = choose|k: int| 0 <= k < after.len() && after[k] == one;
                    if k > 0 {
                        assert(entries[k - 1] == one);
                    }
                }
                if entries.contains(one) {
                    let k = choose|k: int| 0 <= k < entries.len() && entries[k] == one;
                    assert(after[k + 1] == one);
                }
            }
        } else {
            assert forall|i: int, j: int| 0 <= i < j < entry_ids(rest).len() implies precedes(
                #[trigger] entry_ids(rest)[i],
                #[trigger] entry_ids(rest)[j],
            ) by {
                assert(entry_ids(rest)[i] == ids[i + 1]);
                assert(entry_ids(rest)[j] == ids[j + 1]);
            }
            lemma_placed_holds(rest, id, entry, one);
            let tail = placed(rest, id, entry);
            if after.contains(one) {
                let k = choose|k: int| 0 <= k < after.len() && after[k] == one;
                if k > 0 {
                    assert(tail[k - 1] == one);
                    if rest.contains(one) {
                        let m = choose|m: int| 0 <= m < rest.len() && rest[m] == one;
                        assert(entries[m + 1] == one);
                    }
                } else {
                    assert(entries[0] == one);
                }
            }
            if tail.contains(one) {
                let k = choose|k: int| 0 <= k < tail.len() && tail[k] == one;
                assert(after[k + 1] == one);
            }
            if one.0 != id && entries.contains(one) {
                let k = choose|k: int| 0 <= k < entries.len() && entries[k] == one;
                if k == 0 {
                    assert(after[0] == one);
                } else {
                    assert(rest[k - 1] == one);
                }
            }
        }
    }
}

/// The profiles are those of the table: each under its own key, as it is declared there, and nothing
/// else; of two declarations under one key the last counts.
pub proof fn law_the_table_declares_the_profiles(
    members: Seq<(Seq<char>, JsonModel)>,
    id: Seq<char>,
    entry: EntryModel,
)
    requires
        profile_values(members) is Some,
    ensures
        profile_values(members)->0.contains((id, entry)) <==> (get(
            JsonModel::Object(members),
            id,
        ) is Some && entry_value(get(JsonModel::Object(members), id)->0) == Some(entry)),
    decreases members.len(),
{
    if members.len() > 0 {
        let front = members.drop_last();
        law_the_table_declares_the_profiles(front, id, entry);
        law_profiles_are_listed_in_order(front);
        lemma_placed_holds(
            profile_values(front)->0,
            members.last().0,
            entry_value(members.last().1)->0,
            (id, entry),
        );
        assert(get(JsonModel::Object(front), id) == member_of(front, id));
    }
}

/// The `[models]` section says what stands under its keys.
pub proof fn law_the_models_section_is_read_by_key(json: JsonModel)
    requires
        json is Object,
    ensures
        models_value(json) matches Some(section) ==> {
            &&& section.default_profile == said_text(json, "default_profile"@)
            &&& section.profiles is Some <==> get(json, "profiles"@) is Some
            &&& section.profiles matches Some(profiles) ==> (get(json, "profiles"@)->0 is Object
                && profile_values(get(json, "profiles"@)->0->Object_0) == Some(profiles))
        },
{
    lemma_tables_are_read_by_name(json, models_keys(), 2);
    assert(models_keys()[0] == "default_profile"@ && models_keys()[1] == "profiles"@);
}

/// A file has a section exactly where it holds the key, and the section is read from under it.
pub proof fn law_files_are_read_by_section(json: JsonModel)
    requires
        json is Object,
    ensures
        file_value(json) matches Some(file) ==> {
            &&& file.daemon is Some <==> get(json, "daemon"@) is Some
            &&& file.daemon is Some ==> daemon_value(get(json, "daemon"@)->0) == file.daemon
            &&& file.models is Some <==> get(json, "models"@) is Some
            &&& file.models is Some ==> models_value(get(json, "models"@)->0) == file.models
            &&& file.vault is Some <==> get(json, "vault"@) is Some
            &&& file.vault is Some ==> vault_value(get(json, "vault"@)->0) == file.vault
        },
{
    lemma_tables_are_read_by_name(json, file_keys(), 3);
    assert(file_keys()[0] == "daemon"@ && file_keys()[1] == "models"@ && file_keys()[2]
        == "vault"@);
}

} // verus!
