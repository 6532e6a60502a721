//! JSON documents, as far as reports are read.

use crate::text::same;
use vstd::prelude::*;

verus! {

/// A JSON value. Reports are read for texts and the members of objects; of numbers and arrays
/// only their kind is kept.
#[derive(Debug)]
pub enum Json {
    Null,
    Bool(bool),
    Number,
    Text(String),
    Array,
    /// The members, each a name and a value.
    Object(Vec<(String, Json)>),
}

/// The contents of a [`Json`].
pub enum JsonView {
    Null,
    Bool(bool),
    Number,
    Text(Seq<char>),
    Array,
    Object(Seq<(Seq<char>, JsonView)>),
}

impl View for Json {
    type V = JsonView;

    open spec fn view(&self) -> JsonView {
        json_view(*self)
    }
}

/// The contents of a JSON value.
pub open spec fn json_view(json: Json) -> JsonView
    decreases json,
{
    match json {
        Json::Null => JsonView::Null,
        Json::Bool(value) => JsonView::Bool(value),
        Json::Number => JsonView::Number,
        Json::Text(text) => JsonView::Text(text@),
        Json::Array => JsonView::Array,
        Json::Object(members) => JsonView::Object(
            Seq::new(
                members@.len(),
                |i: int|
                    if 0 <= i < members@.len() {
                        (members@[i].0@, json_view(members@[i].1))
                    } else {
                        arbitrary()
                    },
            ),
        ),
    }
}

/// Whether no object in a value, however deep, has two members of the same name.
pub open spec fn distinct_names(json: JsonView) -> bool
    decreases json,
{
    match json {
        JsonView::Object(members) => {
            &&& forall|i: int, j: int|
                0 <= i < j < members.len() ==> (#[trigger] members[i]).0 != (
                #[trigger] members[j]).0
            &&& forall|i: int|
                0 <= i < members.len() ==> distinct_names((#[trigger] members[i]).1)
        },
        _ => true,
    }
}

/// A JSON value of `serde_json`.
#[verifier::external_type_specification]
#[verifier::external_body]
pub struct ExValue(serde_json::Value);

/// What a value of `serde_json` holds. The members of an object come in the order in which its
/// map is walked.
pub uninterp spec fn held(value: serde_json::Value) -> JsonView;

/// The JSON value that `serde_json::from_reader` reads from a document, nothing if it reports
/// an error.
pub uninterp spec fn json_document(document: Seq<u8>) -> Option<JsonView>;

/// Reads a document with `serde_json::from_reader`.
///
/// Claimed: what comes of it depends on the document alone.
#[verifier::external_body]
fn open_document(document: &[u8]) -> (result: Option<serde_json::Value>)
    ensures
        match result {
            Some(value) => json_document(document@) == Some(held(value)),
            None => json_document(document@) is None,
        },
{
    serde_json::from_reader(document).ok()
}

/// The outermost layer of a JSON value.
enum Layer {
    Null,
    Bool(bool),
    Number,
    Text(String),
    Array,
    Object(Vec<(String, serde_json::Value)>),
}

/// What a value with this outermost layer holds.
spec fn layer_view(layer: Layer) -> JsonView {
    match layer {
        Layer::Null => JsonView::Null,
        Layer::Bool(value) => JsonView::Bool(value),
        Layer::Number => JsonView::Number,
        Layer::Text(text) => JsonView::Text(text@),
        Layer::Array => JsonView::Array,
        Layer::Object(members) => JsonView::Object(
            members@.map_values(|member: (String, serde_json::Value)| (member.0@, held(member.1))),
        ),
    }
}

/// Takes a `serde_json::Value` apart by its variants, an object with the iterator that its map
/// turns into.
///
/// Claimed: the parts are what the value holds, and no two members of an object have the same
/// name, since the names are the keys of a map.
#[verifier::external_body]
fn outermost(value: serde_json::Value) -> (result: Layer)
    ensures
        layer_view(result) == held(value),
        result matches Layer::Object(members) ==> forall|i: int, j: int|
            0 <= i < j < members@.len() ==> (#[trigger] members@[i]).0@ != (
            #[trigger] members@[j]).0@,
{
    match value {
        serde_json::Value::Null => Layer::Null,
        serde_json::Value::Bool(value) => Layer::Bool(value),
        serde_json::Value::Number(_) => Layer::Number,
        serde_json::Value::String(text) => Layer::Text(text),
        serde_json::Value::Array(_) => Layer::Array,
        serde_json::Value::Object(members) => Layer::Object(members.into_iter().collect()),
    }
}

/// Takes over what a value of `serde_json` holds.
fn take_over(value: serde_json::Value) -> (result: Json)
    ensures
        result@ == held(value),
        distinct_names(result@),
    decreases held(value),
{
    match outermost(value) {
        Layer::Null => Json::Null,
        Layer::Bool(value) => Json::Bool(value),
        Layer::Number => Json::Number,
        Layer::Text(text) => Json::Text(text),
        Layer::Array => Json::Array,
        Layer::Object(members) => {
            let ghost all = members@;
            let mut taken: Vec<(String, Json)> = Vec::new();
            for member in iter: members
                invariant
                    iter.seq() == all,
                    held(value) == layer_view(Layer::Object(members)),
                    members@ == all,
                    taken.len() == iter.index(),
                    forall|i: int|
                        0 <= i < taken.len() ==> (#[trigger] taken@[i]).0@ == all[i].0@
                            && taken@[i].1@ == held(all[i].1) && distinct_names(taken@[i].1@),
            {
                let (name, inner) = member;
                assert(decreases_to!(held(value) => held(inner))) by {
                    let parts = held(value)->Object_0;
                    let part = parts[iter.index() as int];
                    assert(part == (name@, held(inner)));
                    assert(decreases_to!(held(value) => parts));
                    assert(decreases_to!(parts => parts[iter.index() as int]));
                    assert(decreases_to!(part => part.1));
                }
                let json = take_over(inner);
                taken.push((name, json));
            }
            let result = Json::Object(taken);
            assert(result@->Object_0 =~= held(value)->Object_0);
            assert forall|i: int| 0 <= i < all.len() implies distinct_names(
                (#[trigger] result@->Object_0[i]).1,
            ) by {
                assert(result@->Object_0[i].1 == taken@[i].1@);
            }
            assert forall|i: int, j: int| 0 <= i < j < all.len() implies (
            #[trigger] result@->Object_0[i]).0 != (#[trigger] result@->Object_0[j]).0 by {
                assert(all[i].0@ != all[j].0@);
            }
            result
        },
    }
}

/// Reads a JSON document; nothing comes of one that is not well-formed. No two members of an
/// object have the same name.
pub fn read_json(document: &[u8]) -> (result: Option<Json>)
    ensures
        match result {
            Some(json) => json_document(document@) == Some(json@) && distinct_names(json@),
            None => json_document(document@) is None,
        },
{
    match open_document(document) {
        Some(value) => Some(take_over(value)),
        None => None,
    }
}

/// The value of the first member called `name`.
pub open spec fn member_of(members: Seq<(Seq<char>, JsonView)>, name: Seq<char>) -> Option<JsonView>
    decreases members.len(),
{
    if members.len() == 0 {
        None
    } else if members[0].0 == name {
        Some(members[0].1)
    } else {
        member_of(members.skip(1), name)
    }
}

/// The member of a value that is called `name`; only an object has members.
pub open spec fn member(json: JsonView, name: Seq<char>) -> Option<JsonView> {
    match json {
        JsonView::Object(members) => member_of(members, name),
        _ => None,
    }
}

/// The text that the member of a value called `name` is; nothing if it is no text.
pub open spec fn text_member(json: JsonView, name: Seq<char>) -> Option<Seq<char>> {
    match member(json, name) {
        Some(JsonView::Text(text)) => Some(text),
        _ => None,
    }
}

/// The members of the object that the member of a value called `name` is; nothing if it is no
/// object.
pub open spec fn object_member(json: JsonView, name: Seq<char>) -> Option<
    Seq<(Seq<char>, JsonView)>,
> {
    match member(json, name) {
        Some(JsonView::Object(members)) => Some(members),
        _ => None,
    }
}

impl Json {
    /// The member called `name`; only an object has members.
    pub fn get(&self, name: &str) -> (result: Option<&Json>)
        ensures
            match result {
                Some(json) => member(self@, name@) == Some(json@),
                None => member(self@, name@) is None,
            },
    {
        match self {
            Json::Object(members) => {
                let ghost all = self@->Object_0;
                let mut i: usize = 0;
                assert(all.skip(0) == all);
                while i < members.len()
                    invariant
                        i <= members.len(),
                        self@ == JsonView::Object(all),
                        *self == Json::Object(*members),
                        all.len() == members.len(),
                        member_of(all, name@) == member_of(all.skip(i as int), name@),
                    decreases members.len() - i,
                {
                    assert(all[i as int] == (members@[i as int].0@, members@[i as int].1@));
                    assert(all.skip(i as int)[0] == all[i as int]);
                    assert(all.skip(i as int).skip(1) == all.skip(i + 1));
                    if same(members[i].0.as_str(), name) {
                        return Some(&members[i].1);
                    }
                    i = i + 1;
                }
                None
            },
            _ => None,
        }
    }

    /// The text that the member called `name` is; nothing if it is no text.
    pub fn text(&self, name: &str) -> (result: Option<String>)
        ensures
            result.deep_view() == text_member(self@, name@),
    {
        match self.get(name) {
            Some(Json::Text(text)) => Some(text.clone()),
            _ => None,
        }
    }

    /// The members of the object that the member called `name` is; nothing if it is no object.
    pub fn object(&self, name: &str) -> (result: Option<&Vec<(String, Json)>>)
        ensures
            match result {
                Some(members) => object_member(self@, name@) matches Some(all) && all.len()
                    == members.len() && forall|i: int|
                    0 <= i < all.len() ==> #[trigger] all[i] == (members@[i].0@, members@[i].1@),
                None => object_member(self@, name@) is None,
            },
    {
        match self.get(name) {
            Some(Json::Object(members)) => Some(members),
            _ => None,
        }
    }
}

/// An object gives for a name the value that stands first under it.
pub proof fn law_member_found(members: Seq<(Seq<char>, JsonView)>, name: Seq<char>, i: int)
    requires
        0 <= i < members.len(),
        members[i].0 == name,
        forall|j: int| 0 <= j < i ==> (#[trigger] members[j]).0 != name,
    ensures
        member(JsonView::Object(members), name) == Some(members[i].1),
    decreases i,
{
    if i > 0 {
        let rest = members.skip(1);
        assert forall|j: int| 0 <= j < i - 1 implies (#[trigger] rest[j]).0 != name by {
            assert(rest[j] == members[j + 1]);
        }
        assert(members[0].0 != name);
        law_member_found(rest, name, i - 1);
    }
}

/// A name that does not occur in an object is that of no member, and only objects have members.
pub proof fn law_member_missing(json: JsonView, name: Seq<char>)
    requires
        json matches JsonView::Object(members) ==> forall|j: int|
            0 <= j < members.len() ==> (#[trigger] members[j]).0 != name,
    ensures
        member(json, name) is None,
    decreases json->Object_0.len(),
{
    if let JsonView::Object(members) = json {
        if members.len() > 0 {
            let rest = members.skip(1);
            assert forall|j: int| 0 <= j < rest.len() implies (#[trigger] rest[j]).0 != name by {
                assert(rest[j] == members[j + 1]);
            }
            assert(members[0].0 != name);
            law_member_missing(JsonView::Object(rest), name);
        }
    }
}

/// A member is read as a text exactly if it is one, and as an object exactly if it is one.
pub proof fn law_member_read(json: JsonView, name: Seq<char>, text: Seq<char>, members: Seq<
    (Seq<char>, JsonView),
>)
    ensures
        text_member(json, name) == Some(text) <==> member(json, name) == Some(JsonView::Text(text)),
        object_member(json, name) == Some(members) <==> member(json, name) == Some(
            JsonView::Object(members),
        ),
{
}

/// Nothing of texts and of the members of objects is left out of what a value holds.
pub proof fn law_json_contents(text: String, members: Vec<(String, Json)>)
    ensures
        Json::Text(text)@ == JsonView::Text(text@),
        Json::Object(members)@ matches JsonView::Object(all) && all.len() == members@.len() && (
        forall|i: int|
            0 <= i < all.len() ==> #[trigger] all[i] == (members@[i].0@, members@[i].1@)),
{
}

} // verus!
