//! JSON documents as values: what requests are read from and responses are made of.
use crate::text::same_text;
use vstd::prelude::*;

verus! {

/// A JSON document. An object keeps its members in the order in which they were written; the value
/// of a number that is no unsigned 64-bit integer is not kept, since nothing reads one.
#[derive(Debug, PartialEq, Eq)]
pub enum Json {
    Null,
    Bool(bool),
    Unsigned(u64),
    OtherNumber,
    Text(String),
    Array(Vec<Json>),
    Object(Vec<(String, Json)>),
}

/// What a JSON document says.
pub enum JsonModel {
    Null,
    Bool(bool),
    Unsigned(u64),
    OtherNumber,
    Text(Seq<char>),
    Array(Seq<JsonModel>),
    Object(Seq<(Seq<char>, JsonModel)>),
}

impl Json {
    /// What the document says.
    pub open spec fn model(self) -> JsonModel
        decreases self,
    {
        match self {
            Json::Null => JsonModel::Null,
            Json::Bool(value) => JsonModel::Bool(value),
            Json::Unsigned(value) => JsonModel::Unsigned(value),
            Json::OtherNumber => JsonModel::OtherNumber,
            Json::Text(text) => JsonModel::Text(text@),
            Json::Array(items) => JsonModel::Array(
                Seq::new(
                    items@.len(),
                    |i: int|
                        if 0 <= i < items@.len() {
                            items@[i].model()
                        } else {
                            JsonModel::Null
                        },
                ),
            ),
            Json::Object(members) => JsonModel::Object(
                Seq::new(
                    members@.len(),
                    |i: int|
                        if 0 <= i < members@.len() {
                            (members@[i].0@, members@[i].1.model())
                        } else {
                            (Seq::empty(), JsonModel::Null)
                        },
                ),
            ),
        }
    }
}

impl View for Json {
    type V = JsonModel;

    open spec fn view(&self) -> JsonModel {
        self.model()
    }
}

/// What the items of an array say.
pub open spec fn item_views(items: Seq<Json>) -> Seq<JsonModel> {
    items.map_values(|item: Json| item@)
}

/// What the members of an object say.
pub open spec fn member_views(members: Seq<(String, Json)>) -> Seq<(Seq<char>, JsonModel)> {
    members.map_values(|member: (String, Json)| (member.0@, member.1@))
}

/// The parts of an array or an object are its items and members.
pub broadcast proof fn lemma_json_parts(json: Json)
    ensures
        #![trigger json.view()]
        json matches Json::Array(items) ==> json@ == JsonModel::Array(item_views(items@)),
        json matches Json::Object(members) ==> json@ == JsonModel::Object(member_views(members@)),
{
    reveal_with_fuel(Json::model, 2);
    match json {
        Json::Array(items) => {
            assert(json@->Array_0 =~= item_views(items@));
        },
        Json::Object(members) => {
            assert(json@->Object_0 =~= member_views(members@));
        },
        _ => {},
    }
}

/// An array of `items`.
pub fn array(items: Vec<Json>) -> (json: Json)
    ensures
        json@ == JsonModel::Array(item_views(items@)),
{
    let json = Json::Array(items);
    proof {
        lemma_json_parts(json);
    }
    json
}

/// An object of `members`.
pub fn object(members: Vec<(String, Json)>) -> (json: Json)
    ensures
        json@ == JsonModel::Object(member_views(members@)),
{
    let json = Json::Object(members);
    proof {
        lemma_json_parts(json);
    }
    json
}

/// A text.
pub fn text(value: &str) -> (json: Json)
    ensures
        json@ == JsonModel::Text(value@),
{
    Json::Text(value.to_owned())
}

impl Json {
    /// A document that says the same.
    pub fn duplicate(&self) -> (copy: Json)
        ensures
            copy@ == self@,
        decreases self,
    {
        proof {
            lemma_json_parts(*self);
        }
        match self {
            Json::Null => Json::Null,
            Json::Bool(value) => Json::Bool(*value),
            Json::Unsigned(value) => Json::Unsigned(*value),
            Json::OtherNumber => Json::OtherNumber,
            Json::Text(value) => Json::Text(value.clone()),
            Json::Array(items) => {
                let mut copies: Vec<Json> = Vec::new();
                let mut i: usize = 0;
                while i < items.len()
                    invariant
                        i <= items@.len(),
                        *self == Json::Array(*items),
                        copies@.len() == i,
                        forall|j: int| 0 <= j < i ==> (#[trigger] copies@[j])@ == items@[j]@,
                    decreases items@.len() - i,
                {
                    assert(decreases_to!(*self => self->Array_0));
                    assert(decreases_to!(*items => items@));
                    assert(decreases_to!(items@ => items@[i as int]));
                    copies.push(items[i].duplicate());
                    i += 1;
                }
                assert(item_views(copies@) =~= item_views(items@));
                array(copies)
            },
            Json::Object(members) => {
                let mut copies: Vec<(String, Json)> = Vec::new();
                let mut i: usize = 0;
                while i < members.len()
                    invariant
                        i <= members@.len(),
                        *self == Json::Object(*members),
                        copies@.len() == i,
                        forall|j: int|
                            0 <= j < i ==> (#[trigger] copies@[j]).0@ == members@[j].0@
                                && copies@[j].1@ == members@[j].1@,
                    decreases members@.len() - i,
                {
                    let member = &members[i];
                    assert(decreases_to!(*self => self->Object_0));
                    assert(decreases_to!(*members => members@));
                    assert(decreases_to!(members@ => members@[i as int]));
                    assert(decreases_to!(members@[i as int] => members@[i as int].1));
                    copies.push((member.0.clone(), member.1.duplicate()));
                    i += 1;
                }
                assert(member_views(copies@) =~= member_views(members@));
                object(copies)
            },
        }
    }
}

/// A text, or `null`.
pub fn optional_text(value: Option<&str>) -> (json: Json)
    ensures
        json@ == (match value {
            Some(value) => JsonModel::Text(value@),
            None => JsonModel::Null,
        }),
{
    match value {
        Some(value) => text(value),
        None => Json::Null,
    }
}

/// Appends one member to an object under construction.
pub fn put(members: &mut Vec<(String, Json)>, name: &str, value: Json)
    ensures
        member_views(final(members)@) == member_views(old(members)@).push((name@, value@)),
{
    let ghost before = members@;
    members.push((name.to_owned(), value));
    assert(member_views(members@) =~= member_views(before).push((name@, value@)));
}

/// The value of the last member of that name.
pub open spec fn member_of(members: Seq<(Seq<char>, JsonModel)>, name: Seq<char>) -> Option<JsonModel>
    decreases members.len(),
{
    if members.len() == 0 {
        None
    } else if members.last().0 == name {
        Some(members.last().1)
    } else {
        member_of(members.drop_last(), name)
    }
}

/// The value of the member of that name, where the document is an object that has one.
pub open spec fn get(json: JsonModel, name: Seq<char>) -> Option<JsonModel> {
    match json {
        JsonModel::Object(members) => member_of(members, name),
        _ => None,
    }
}

/// The position of the last member of a name.
fn last_member(members: &Vec<(String, Json)>, name: &str) -> (at: Option<usize>)
    ensures
        match at {
            Some(at) => at < members@.len() && member_of(member_views(members@), name@) == Some(
                members@[at as int].1@,
            ),
            None => member_of(member_views(members@), name@) is None,
        },
{
    let ghost all = member_views(members@);
    let mut i: usize = members.len();
    assert(all.subrange(0, i as int) =~= all);
    while i > 0
        invariant
            i <= members@.len(),
            all == member_views(members@),
            member_of(all, name@) == member_of(all.subrange(0, i as int), name@),
        decreases i,
    {
        i -= 1;
        let ghost shorter = all.subrange(0, i + 1);
        proof {
            assert(shorter.drop_last() =~= all.subrange(0, i as int));
            assert(shorter.last() == (members@[i as int].0@, members@[i as int].1@));
        }
        if same_text(members[i].0.as_str(), name) {
            return Some(i);
        }
    }
    None
}

/// The value of the member of that name.
pub fn member<'a>(json: &'a Json, name: &str) -> (value: Option<&'a Json>)
    ensures
        match value {
            Some(value) => get(json@, name@) == Some(value@),
            None => get(json@, name@) is None,
        },
{
    proof {
        lemma_json_parts(*json);
    }
    match json {
        Json::Object(members) => match last_member(members, name) {
            Some(at) => Some(&members[at].1),
            None => None,
        },
        _ => None,
    }
}

/// How records are read: whether members that the record does not have are refused, and whether a
/// member of the record may be written twice.
#[derive(Clone, Copy, PartialEq, Eq, Structural)]
pub struct RecordRules {
    pub refuse_unknown: bool,
    pub refuse_repeated: bool,
}

/// The number of members of that name.
pub open spec fn occurrences(members: Seq<(Seq<char>, JsonModel)>, name: Seq<char>) -> nat
    decreases members.len(),
{
    if members.len() == 0 {
        0
    } else {
        occurrences(members.drop_last(), name) + (if members.last().0 == name {
            1nat
        } else {
            0nat
        })
    }
}

/// The fields of a record, in the order of `names`: read by name from an object, by position from an
/// array that has exactly as many items.
pub open spec fn record_fields(
    json: JsonModel,
    names: Seq<Seq<char>>,
    rules: RecordRules,
) -> Option<Seq<Option<JsonModel>>> {
    match json {
        JsonModel::Object(members) => if rules.refuse_unknown && exists|i: int|
            0 <= i < members.len() && !names.contains((#[trigger] members[i]).0) {
            None
        } else if rules.refuse_repeated && exists|k: int|
            0 <= k < names.len() && occurrences(members, #[trigger] names[k]) > 1 {
            None
        } else {
            Some(Seq::new(names.len(), |k: int| member_of(members, names[k])))
        },
        JsonModel::Array(items) => if items.len() == names.len() {
            Some(Seq::new(names.len(), |k: int| Some(items[k])))
        } else {
            None
        },
        _ => None,
    }
}

/// The views of names.
pub open spec fn name_views(names: Seq<&str>) -> Seq<Seq<char>> {
    names.map_values(|name: &str| name@)
}

/// What the fields that were read say.
pub open spec fn field_views(fields: Seq<Option<&Json>>) -> Seq<Option<JsonModel>> {
    fields.map_values(|field: Option<&Json>| field_view(field))
}

fn knows(names: &Vec<&str>, name: &str) -> (known: bool)
    ensures
        known == name_views(names@).contains(name@),
{
    let mut i: usize = 0;
    while i < names.len()
        invariant
            i <= names@.len(),
            forall|j: int| 0 <= j < i ==> name_views(names@)[j] != name@,
        decreases names@.len() - i,
    {
        if same_text(names[i], name) {
            assert(name_views(names@)[i as int] == name@);
            return true;
        }
        i += 1;
    }
    false
}

fn count_members(members: &Vec<(String, Json)>, name: &str) -> (count: usize)
    ensures
        count == occurrences(member_views(members@), name@),
{
    let ghost all = member_views(members@);
    let mut count: usize = 0;
    let mut i: usize = 0;
    while i < members.len()
        invariant
            i <= members@.len(),
            all == member_views(members@),
            count <= i,
            count == occurrences(all.subrange(0, i as int), name@),
        decreases members@.len() - i,
    {
        proof {
            assert(all.subrange(0, i + 1).drop_last() =~= all.subrange(0, i as int));
        }
        if same_text(members[i].0.as_str(), name) {
            count += 1;
        }
        i += 1;
    }
    assert(all.subrange(0, i as int) =~= all);
    count
}

/// Reads the fields of a record.
pub fn read_record<'a>(json: &'a Json, names: &Vec<&str>, rules: RecordRules) -> (fields: Option<
    Vec<Option<&'a Json>>,
>)
    ensures
        match fields {
            Some(fields) => ({
                &&& record_fields(json@, name_views(names@), rules) == Some(field_views(fields@))
                &&& fields@.len() == names@.len()
                &&& forall|k: int|
                    0 <= k < fields@.len() ==> #[trigger] field_views(fields@)[k] == field_view(
                        fields@[k],
                    )
            }),
            None => record_fields(json@, name_views(names@), rules) is None,
        },
{
    proof {
        lemma_json_parts(*json);
    }
    let ghost wanted = name_views(names@);
    let mut fields: Vec<Option<&'a Json>> = Vec::new();
    match json {
        Json::Object(members) => {
            let ghost all = member_views(members@);
            if rules.refuse_unknown {
                let mut i: usize = 0;
                while i < members.len()
                    invariant
                        i <= members@.len(),
                        all == member_views(members@),
                        wanted == name_views(names@),
                        json@ == JsonModel::Object(all),
                        rules.refuse_unknown,
                        forall|j: int| 0 <= j < i ==> wanted.contains((#[trigger] all[j]).0),
                    decreases members@.len() - i,
                {
                    assert(all[i as int].0 == members@[i as int].0@);
                    if !knows(names, members[i].0.as_str()) {
                        return None;
                    }
                    i += 1;
                }
            }
            if rules.refuse_repeated {
                let mut k: usize = 0;
                while k < names.len()
                    invariant
                        k <= names@.len(),
                        all == member_views(members@),
                        wanted == name_views(names@),
                        json@ == JsonModel::Object(all),
                        rules.refuse_repeated,
                        forall|j: int| 0 <= j < k ==> occurrences(all, #[trigger] wanted[j]) <= 1,
                    decreases names@.len() - k,
                {
                    assert(wanted[k as int] == names@[k as int]@);
                    if count_members(members, names[k]) > 1 {
                        return None;
                    }
                    k += 1;
                }
            }
            let mut k: usize = 0;
            while k < names.len()
                invariant
                    k <= names@.len(),
                    all == member_views(members@),
                    wanted == name_views(names@),
                    fields@.len() == k,
                    forall|j: int|
                        0 <= j < k ==> #[trigger] field_views(fields@)[j] == member_of(all, wanted[j]),
                decreases names@.len() - k,
            {
                let ghost before = fields@;
                match last_member(members, names[k]) {
                    Some(at) => {
                        fields.push(Some(&members[at].1));
                    },
                    None => {
                        fields.push(None);
                    },
                }
                assert forall|j: int| 0 <= j < k implies #[trigger] field_views(fields@)[j]
                    == field_views(before)[j] by {}
                assert(field_views(fields@)[k as int] == field_view(fields@[k as int]));
                k += 1;
            }
            assert(field_views(fields@) =~= Seq::new(
                wanted.len(),
                |k: int| member_of(all, wanted[k]),
            ));
            Some(fields)
        },
        Json::Array(items) => {
            if items.len() != names.len() {
                return None;
            }
            let mut k: usize = 0;
            while k < items.len()
                invariant
                    k <= items@.len(),
                    fields@.len() == k,
                    forall|j: int|
                        0 <= j < k ==> #[trigger] field_views(fields@)[j] == Some(items@[j]@),
                decreases items@.len() - k,
            {
                let ghost before = fields@;
                fields.push(Some(&items[k]));
                assert forall|j: int| 0 <= j < k implies #[trigger] field_views(fields@)[j]
                    == field_views(before)[j] by {}
                assert(field_views(fields@)[k as int] == field_view(fields@[k as int]));
                k += 1;
            }
            assert(field_views(fields@) =~= Seq::new(
                wanted.len(),
                |k: int| Some(item_views(items@)[k]),
            ));
            Some(fields)
        },
        _ => None,
    }
}

/// A required text.
pub open spec fn text_value(field: Option<JsonModel>) -> Option<Seq<char>> {
    match field {
        Some(JsonModel::Text(value)) => Some(value),
        _ => None,
    }
}

/// An optional text: absent and `null` are no text, anything else but a text is refused.
pub open spec fn optional_text_value(field: Option<JsonModel>) -> Option<Option<Seq<char>>> {
    match field {
        None => Some(None),
        Some(JsonModel::Null) => Some(None),
        Some(JsonModel::Text(value)) => Some(Some(value)),
        _ => None,
    }
}

/// An optional unsigned number.
pub open spec fn optional_number_value(field: Option<JsonModel>) -> Option<Option<u64>> {
    match field {
        None => Some(None),
        Some(JsonModel::Null) => Some(None),
        Some(JsonModel::Unsigned(value)) => Some(Some(value)),
        _ => None,
    }
}

/// An optional truth value.
pub open spec fn optional_bool_value(field: Option<JsonModel>) -> Option<Option<bool>> {
    match field {
        None => Some(None),
        Some(JsonModel::Null) => Some(None),
        Some(JsonModel::Bool(value)) => Some(Some(value)),
        _ => None,
    }
}

/// A required unsigned number.
pub open spec fn number_value(field: Option<JsonModel>) -> Option<u64> {
    match field {
        Some(JsonModel::Unsigned(value)) => Some(value),
        _ => None,
    }
}

/// The view of one field.
pub open spec fn field_view(field: Option<&Json>) -> Option<JsonModel> {
    match field {
        Some(json) => Some(json@),
        None => None,
    }
}

/// Reads a required text.
pub fn as_text(field: Option<&Json>) -> (value: Option<String>)
    ensures
        match value {
            Some(value) => text_value(field_view(field)) == Some(value@),
            None => text_value(field_view(field)) is None,
        },
{
    match field {
        Some(Json::Text(value)) => Some(value.clone()),
        _ => None,
    }
}

/// Reads an optional text.
pub fn as_optional_text(field: Option<&Json>) -> (value: Option<Option<String>>)
    ensures
        match value {
            Some(Some(value)) => optional_text_value(field_view(field)) == Some(Some(value@)),
            Some(None) => optional_text_value(field_view(field)) == Some(None::<Seq<char>>),
            None => optional_text_value(field_view(field)) is None,
        },
{
    match field {
        None => Some(None),
        Some(Json::Null) => Some(None),
        Some(Json::Text(value)) => Some(Some(value.clone())),
        _ => None,
    }
}

/// Reads an optional unsigned number.
pub fn as_optional_number(field: Option<&Json>) -> (value: Option<Option<u64>>)
    ensures
        value == optional_number_value(field_view(field)),
{
    match field {
        None => Some(None),
        Some(Json::Null) => Some(None),
        Some(Json::Unsigned(value)) => Some(Some(*value)),
        _ => None,
    }
}

/// Reads an optional truth value.
pub fn as_optional_bool(field: Option<&Json>) -> (value: Option<Option<bool>>)
    ensures
        value == optional_bool_value(field_view(field)),
{
    match field {
        None => Some(None),
        Some(Json::Null) => Some(None),
        Some(Json::Bool(value)) => Some(Some(*value)),
        _ => None,
    }
}

/// Reads a required unsigned number.
pub fn as_number(field: Option<&Json>) -> (value: Option<u64>)
    ensures
        value == number_value(field_view(field)),
{
    match field {
        Some(Json::Unsigned(value)) => Some(*value),
        _ => None,
    }
}

/// The member of a name that is not written again behind it.
pub proof fn lemma_get_at(members: Seq<(Seq<char>, JsonModel)>, k: int)
    requires
        0 <= k < members.len(),
        forall|j: int| k < j < members.len() ==> (#[trigger] members[j]).0 != members[k].0,
    ensures
        get(JsonModel::Object(members), members[k].0) == Some(members[k].1),
    decreases members.len(),
{
    if k < members.len() - 1 {
        let front = members.drop_last();
        assert(members[members.len() - 1].0 != members[k].0);
        assert forall|j: int| k < j < front.len() implies (#[trigger] front[j]).0 != front[k].0 by {
            assert(members[j].0 != members[k].0);
        }
        lemma_get_at(front, k);
    }
}

/// The document is an object with exactly these members, each of them once.
pub open spec fn says_exactly(json: JsonModel, members: Seq<(Seq<char>, JsonModel)>) -> bool {
    &&& json matches JsonModel::Object(written) && written.len() == members.len()
    &&& forall|k: int|
        0 <= k < members.len() ==> get(json, (#[trigger] members[k]).0) == Some(members[k].1)
}

/// An object whose members have different names says exactly what they say.
pub proof fn lemma_says_exactly(members: Seq<(Seq<char>, JsonModel)>)
    requires
        forall|i: int, j: int|
            0 <= i < j < members.len() ==> (#[trigger] members[i]).0 != (#[trigger] members[j]).0,
    ensures
        says_exactly(JsonModel::Object(members), members),
{
    assert forall|k: int| 0 <= k < members.len() implies get(
        JsonModel::Object(members),
        (#[trigger] members[k]).0,
    ) == Some(members[k].1) by {
        lemma_get_at(members, k);
    }
}

/// A record that is read from an object has the object's own members as its fields.
pub proof fn lemma_record_reads_members(json: JsonModel, names: Seq<Seq<char>>, rules: RecordRules)
    requires
        json is Object,
        record_fields(json, names, rules) is Some,
    ensures
        record_fields(json, names, rules)->0.len() == names.len(),
        forall|k: int|
            0 <= k < names.len() ==> #[trigger] record_fields(json, names, rules)->0[k] == get(
                json,
                names[k],
            ),
        rules.refuse_unknown ==> forall|i: int|
            0 <= i < json->Object_0.len() ==> names.contains((#[trigger] json->Object_0[i]).0),
{
}

/// A record is read from an object unless it holds a name that is not known, where that is refused, or
/// a known name twice, where that is; each field is then the member of its name.
pub proof fn law_records_are_read_by_name(json: JsonModel, names: Seq<Seq<char>>, rules: RecordRules)
    requires
        json is Object,
    ensures
        record_fields(json, names, rules) is None <==> {
            ||| rules.refuse_unknown && exists|i: int|
                0 <= i < json->Object_0.len() && !names.contains((#[trigger] json->Object_0[i]).0)
            ||| rules.refuse_repeated && exists|k: int|
                0 <= k < names.len() && occurrences(json->Object_0, #[trigger] names[k]) > 1
        },
        record_fields(json, names, rules) matches Some(fields) ==> fields.len() == names.len()
            && forall|k: int| 0 <= k < names.len() ==> #[trigger] fields[k] == get(json, names[k]),
{
}

/// A member that is added is counted under its own name and under no other, and is the one that is
/// read under that name.
pub proof fn law_an_added_member_is_counted_and_read(
    members: Seq<(Seq<char>, JsonModel)>,
    added: (Seq<char>, JsonModel),
    name: Seq<char>,
)
    ensures
        occurrences(members.push(added), added.0) == occurrences(members, added.0) + 1,
        name != added.0 ==> occurrences(members.push(added), name) == occurrences(members, name),
        get(JsonModel::Object(members.push(added)), added.0) == Some(added.1),
        name != added.0 ==> get(JsonModel::Object(members.push(added)), name) == get(
            JsonModel::Object(members),
            name,
        ),
{
    assert(members.push(added).drop_last() =~= members);
    assert(members.push(added).last() == added);
}

} // verus!
