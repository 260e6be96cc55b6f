//! JSON values as plain data, how a JSON text is read into one, and how one is
//! written out.

use crate::text;
use vstd::prelude::*;

verus! {

/// A JSON value. Whole numbers that fit an `i64` are held as one; of several
/// members of an object with one key, the last counts.
#[derive(Debug)]
pub enum Json {
    Null,
    Bool(bool),
    Int(i64),
    Number(serde_json::Number),
    Text(String),
    Array(Vec<Json>),
    Object(Vec<(String, Json)>),
}

/// What a [`Json`] value stands for.
#[verifier::ext_equal]
pub enum JsonView {
    Null,
    Bool(bool),
    /// A whole number that fits an `i64`.
    Int(int),
    /// Any other number, by its text.
    Number(Seq<char>),
    Text(Seq<char>),
    Array(Seq<JsonView>),
    Object(Map<Seq<char>, JsonView>),
}

/// The members that come of adding the given ones in turn.
pub open spec fn members_of(entries: Seq<(Seq<char>, JsonView)>) -> Map<Seq<char>, JsonView>
    decreases entries.len(),
{
    if entries.len() == 0 {
        Map::empty()
    } else {
        members_of(entries.drop_last()).insert(entries.last().0, entries.last().1)
    }
}

/// The object with the given members.
pub open spec fn object_of(entries: Seq<(Seq<char>, JsonView)>) -> JsonView {
    JsonView::Object(members_of(entries))
}

impl Json {
    pub open spec fn view(&self) -> JsonView
        decreases self,
    {
        match self {
            Json::Null => JsonView::Null,
            Json::Bool(b) => JsonView::Bool(*b),
            Json::Int(n) => JsonView::Int(*n as int),
            Json::Number(n) => number_json(*n),
            Json::Text(s) => JsonView::Text(s@),
            Json::Array(items) => JsonView::Array(
                Seq::new(
                    items@.len(),
                    |i: int|
                        if 0 <= i < items@.len() {
                            items@[i].view()
                        } else {
                            arbitrary()
                        },
                ),
            ),
            Json::Object(entries) => object_of(entry_views(entries@)),
        }
    }
}

/// What the entries of an object stand for.
pub open spec fn entry_views(entries: Seq<(String, Json)>) -> Seq<(Seq<char>, JsonView)>
    decreases entries,
{
    Seq::new(
        entries.len(),
        |i: int|
            if 0 <= i < entries.len() {
                (entries[i].0@, entries[i].1.view())
            } else {
                arbitrary()
            },
    )
}

// ---------------------------------------------------------------------------
// The values of serde_json
// ---------------------------------------------------------------------------

#[verifier::external_type_specification]
#[verifier::external_body]
pub struct ExSerdeJsonError(serde_json::Error);

#[verifier::external_type_specification]
#[verifier::external_body]
pub struct ExSerdeJsonNumber(serde_json::Number);

#[verifier::external_type_specification]
#[verifier::external_body]
#[verifier::reject_recursive_types(K)]
#[verifier::reject_recursive_types(V)]
pub struct ExSerdeJsonMap<K, V>(serde_json::Map<K, V>);

#[verifier::external_type_specification]
#[verifier::external_body]
pub struct ExSerdeJsonValue(serde_json::Value);

/// What a `serde_json::Number` holds: the number that `as_i64` gives, and the text
/// that `to_string` writes.
pub uninterp spec fn number_parts(number: serde_json::Number) -> (Option<i64>, Seq<char>);

/// The members that a `serde_json::Map` holds.
pub uninterp spec fn held_members(map: serde_json::Map<String, serde_json::Value>) -> Map<
    Seq<char>,
    JsonView,
>;

/// The JSON value that a `serde_json::Value` holds.
pub uninterp spec fn held_json(value: serde_json::Value) -> JsonView;

/// The JSON value that `serde_json::from_str` reads from a text; `None` where it
/// refuses the text.
pub uninterp spec fn json_value(text: Seq<char>) -> Option<JsonView>;

/// The text that `Value::to_string` writes for a JSON value.
pub uninterp spec fn json_words(json: JsonView) -> Seq<char>;

/// The text that the `Debug` form of `Value` has for a JSON value.
pub uninterp spec fn json_debug_words(json: JsonView) -> Seq<char>;

/// The JSON value of a number.
pub open spec fn number_json(number: serde_json::Number) -> JsonView {
    match number_parts(number).0 {
        Some(n) => JsonView::Int(n as int),
        None => JsonView::Number(number_parts(number).1),
    }
}

/// The outermost level of a JSON value that is read.
enum JsonLayer<'a> {
    Null,
    Bool(bool),
    Number(serde_json::Number),
    Text(&'a String),
    Array(&'a Vec<serde_json::Value>),
    Object(Vec<(&'a String, &'a serde_json::Value)>),
}

impl<'a> JsonLayer<'a> {
    /// The JSON value with that outermost level.
    spec fn view(&self) -> JsonView {
        match self {
            JsonLayer::Null => JsonView::Null,
            JsonLayer::Bool(b) => JsonView::Bool(*b),
            JsonLayer::Number(n) => number_json(*n),
            JsonLayer::Text(s) => JsonView::Text(s@),
            JsonLayer::Array(items) => JsonView::Array(
                Seq::new(items@.len(), |i: int| held_json(items@[i])),
            ),
            JsonLayer::Object(entries) => object_of(
                Seq::new(entries@.len(), |i: int| (entries@[i].0@, held_json(*entries@[i].1))),
            ),
        }
    }

    /// Whether no two members of an object have one key.
    spec fn distinct(&self) -> bool {
        self matches JsonLayer::Object(entries) ==> forall|i: int, j: int|
            0 <= i < j < entries@.len() ==> (#[trigger] entries@[i]).0@ != (#[trigger] entries@[j]).0@
    }
}

/// The outermost level of a JSON value that is written.
enum JsonParts<'a> {
    Null,
    Bool(bool),
    Int(i64),
    Number(&'a serde_json::Number),
    Text(&'a String),
    Array(Vec<serde_json::Value>),
    Object(serde_json::Map<String, serde_json::Value>),
}

impl<'a> JsonParts<'a> {
    /// The JSON value with that outermost level.
    spec fn view(&self) -> JsonView {
        match self {
            JsonParts::Null => JsonView::Null,
            JsonParts::Bool(b) => JsonView::Bool(*b),
            JsonParts::Int(n) => JsonView::Int(*n as int),
            JsonParts::Number(n) => number_json(**n),
            JsonParts::Text(s) => JsonView::Text(s@),
            JsonParts::Array(items) => JsonView::Array(
                Seq::new(items@.len(), |i: int| held_json(items@[i])),
            ),
            JsonParts::Object(map) => JsonView::Object(held_members(*map)),
        }
    }
}

/// Calls `serde_json::from_str` for a `Value`. Claimed of it: whether the text is
/// read, and into which value, depends on the text alone.
#[verifier::external_body]
fn parse_value(text: &str) -> (r: Result<serde_json::Value, serde_json::Error>)
    ensures
        match r {
            Ok(value) => json_value(text@) == Some(held_json(value)),
            Err(_) => json_value(text@) is None,
        },
{
    serde_json::from_str::<serde_json::Value>(text)
}

/// Calls `Number::as_i64`. Claimed of it: the result is the first of the number's
/// parts.
#[verifier::external_body]
fn number_int(number: &serde_json::Number) -> (r: Option<i64>)
    ensures
        r == number_parts(*number).0,
{
    number.as_i64()
}

/// Tells the variants of a `serde_json::Value` apart, and calls `Map::iter` on an
/// object. Claimed of them: the variant with what is inside is the JSON value that
/// the `Value` holds, and `iter` gives every key once.
#[verifier::external_body]
fn open_value(value: &serde_json::Value) -> (r: JsonLayer<'_>)
    ensures
        r@ == held_json(*value),
        r.distinct(),
{
    match value {
        serde_json::Value::Null => JsonLayer::Null,
        serde_json::Value::Bool(b) => JsonLayer::Bool(*b),
        serde_json::Value::Number(n) => JsonLayer::Number(n.clone()),
        serde_json::Value::String(s) => JsonLayer::Text(s),
        serde_json::Value::Array(items) => JsonLayer::Array(items),
        serde_json::Value::Object(map) => JsonLayer::Object(map.iter().collect()),
    }
}

/// Makes the variant of a `serde_json::Value` for what is to be inside. Claimed of
/// it: the `Value` holds the JSON value with that outermost level; what
/// `Value::from` makes of an `i64` is the number that `as_i64` gives back.
#[verifier::external_body]
fn close_value(parts: JsonParts<'_>) -> (r: serde_json::Value)
    ensures
        held_json(r) == parts@,
{
    match parts {
        JsonParts::Null => serde_json::Value::Null,
        JsonParts::Bool(b) => serde_json::Value::Bool(b),
        JsonParts::Int(n) => serde_json::Value::from(n),
        JsonParts::Number(n) => serde_json::Value::Number(n.clone()),
        JsonParts::Text(s) => serde_json::Value::String(s.clone()),
        JsonParts::Array(items) => serde_json::Value::Array(items),
        JsonParts::Object(map) => serde_json::Value::Object(map),
    }
}

/// Calls `Map::new`. Claimed of it: the map has no member.
#[verifier::external_body]
fn no_members() -> (r: serde_json::Map<String, serde_json::Value>)
    ensures
        held_members(r) == (Map::<Seq<char>, JsonView>::empty()),
{
    serde_json::Map::new()
}

/// Calls `Map::insert`. Claimed of it: the member is added, or takes the place of
/// the one with that key, and no other changes.
#[verifier::external_body]
fn add_member(
    map: &mut serde_json::Map<String, serde_json::Value>,
    key: String,
    value: serde_json::Value,
)
    ensures
        held_members(*final(map)) == held_members(*old(map)).insert(key@, held_json(value)),
{
    map.insert(key, value);
}

/// Calls `Value::to_string`. Claimed of it: the text depends on the JSON value
/// alone, since the map of an object is walked in the order of its keys.
#[verifier::external_body]
fn value_text(value: &serde_json::Value) -> (r: String)
    ensures
        r@ == json_words(held_json(*value)),
{
    value.to_string()
}

/// Writes the `Debug` form of a `serde_json::Value`. Claimed of it: the text
/// depends on the JSON value alone, as that of `to_string` does.
#[verifier::external_body]
fn value_debug_text(value: &serde_json::Value) -> (r: String)
    ensures
        r@ == json_debug_words(held_json(*value)),
{
    format!("{:?}", value)
}

// ---------------------------------------------------------------------------
// Reading and writing
// ---------------------------------------------------------------------------

/// A member that is added takes the place of any with its key, and leaves the
/// others as they are.
pub proof fn law_members_are_added_in_turn(
    entries: Seq<(Seq<char>, JsonView)>,
    entry: (Seq<char>, JsonView),
)
    ensures
        members_of(entries.push(entry)) == members_of(entries).insert(entry.0, entry.1),
        members_of(Seq::empty()) == Map::<Seq<char>, JsonView>::empty(),
{
    assert(entries.push(entry).drop_last() =~= entries);
}

/// An object with one member.
pub(crate) proof fn lemma_object_of_one(a: (Seq<char>, JsonView))
    ensures
        object_of(seq![a]) == JsonView::Object(map![a.0 => a.1]),
{
    law_members_are_added_in_turn(Seq::empty(), a);
    assert(seq![a] =~= Seq::empty().push(a));
}

/// An object with two members.
pub(crate) proof fn lemma_object_of_two(a: (Seq<char>, JsonView), b: (Seq<char>, JsonView))
    ensures
        object_of(seq![a, b]) == JsonView::Object(map![a.0 => a.1, b.0 => b.1]),
{
    lemma_object_of_one(a);
    law_members_are_added_in_turn(seq![a], b);
    assert(seq![a, b] =~= seq![a].push(b));
}

/// An object with three members.
pub(crate) proof fn lemma_object_of_three(
    a: (Seq<char>, JsonView),
    b: (Seq<char>, JsonView),
    c: (Seq<char>, JsonView),
)
    ensures
        object_of(seq![a, b, c]) == JsonView::Object(map![a.0 => a.1, b.0 => b.1, c.0 => c.1]),
{
    lemma_object_of_two(a, b);
    law_members_are_added_in_turn(seq![a, b], c);
    assert(seq![a, b, c] =~= seq![a, b].push(c));
}

/// An object with four members.
pub(crate) proof fn lemma_object_of_four(
    a: (Seq<char>, JsonView),
    b: (Seq<char>, JsonView),
    c: (Seq<char>, JsonView),
    d: (Seq<char>, JsonView),
)
    ensures
        object_of(seq![a, b, c, d]) == JsonView::Object(
            map![a.0 => a.1, b.0 => b.1, c.0 => c.1, d.0 => d.1],
        ),
{
    lemma_object_of_three(a, b, c);
    law_members_are_added_in_turn(seq![a, b, c], d);
    assert(seq![a, b, c, d] =~= seq![a, b, c].push(d));
}

/// Members with keys of their own are all among the members of the object.
proof fn lemma_distinct_members(entries: Seq<(Seq<char>, JsonView)>)
    requires
        forall|i: int, j: int|
            0 <= i < j < entries.len() ==> (#[trigger] entries[i]).0 != (#[trigger] entries[j]).0,
    ensures
        members_of(entries).dom().finite(),
        forall|i: int|
            0 <= i < entries.len() ==> members_of(entries).contains_key((#[trigger] entries[i]).0)
                && members_of(entries)[entries[i].0] == entries[i].1,
    decreases entries.len(),
{
    if entries.len() > 0 {
        let earlier = entries.drop_last();
        lemma_distinct_members(earlier);
        assert forall|i: int| 0 <= i < entries.len() implies members_of(entries).contains_key(
            (#[trigger] entries[i]).0,
        ) && members_of(entries)[entries[i].0] == entries[i].1 by {
            if i < earlier.len() {
                assert(earlier[i] == entries[i]);
                assert(entries[i].0 != entries[entries.len() - 1].0);
            }
        }
    }
}

/// The text is no JSON.
#[derive(Debug)]
pub struct JsonError {
    pub cause: serde_json::Error,
}

/// What a `serde_json::Value` holds, as plain data.
fn from_value(value: &serde_json::Value) -> (r: Json)
    ensures
        r@ == held_json(*value),
    decreases held_json(*value),
{
    match open_value(value) {
        JsonLayer::Null => Json::Null,
        JsonLayer::Bool(b) => Json::Bool(b),
        JsonLayer::Number(number) => match number_int(&number) {
            Some(n) => Json::Int(n),
            None => Json::Number(number),
        },
        JsonLayer::Text(s) => Json::Text(s.clone()),
        JsonLayer::Array(values) => {
            let ghost views = held_json(*value)->Array_0;
            let mut items: Vec<Json> = Vec::new();
            let mut i: usize = 0;
            while i < values.len()
                invariant
                    i <= values@.len(),
                    items@.len() == i,
                    held_json(*value) == JsonView::Array(views),
                    views == Seq::new(values@.len(), |k: int| held_json(values@[k])),
                    forall|k: int| 0 <= k < i ==> (#[trigger] items@[k])@ == views[k],
                decreases values@.len() - i,
            {
                assert(views[i as int] == held_json(values@[i as int]));
                assert(decreases_to!(held_json(*value) => held_json(*value)->Array_0[i as int]));
                items.push(from_value(&values[i]));
                i = i + 1;
            }
            assert(Json::Array(items)@->Array_0 =~= views);
            Json::Array(items)
        },
        JsonLayer::Object(members) => {
            let ghost views = Seq::new(
                members@.len(),
                |k: int| (members@[k].0@, held_json(*members@[k].1)),
            );
            proof {
                assert(JsonLayer::Object(members)@ == object_of(views));
                lemma_distinct_members(views);
            }
            let mut entries: Vec<(String, Json)> = Vec::new();
            let mut i: usize = 0;
            while i < members.len()
                invariant
                    i <= members@.len(),
                    entries@.len() == i,
                    held_json(*value) == object_of(views),
                    members_of(views).dom().finite(),
                    views.len() == members@.len(),
                    forall|k: int|
                        0 <= k < views.len() ==> (#[trigger] views[k]) == (
                            members@[k].0@,
                            held_json(*members@[k].1),
                        ) && members_of(views).contains_key(views[k].0)
                            && members_of(views)[views[k].0] == views[k].1,
                    forall|k: int|
                        0 <= k < i ==> (#[trigger] entries@[k]).0@ == views[k].0
                            && entries@[k].1@ == views[k].1,
                decreases members@.len() - i,
            {
                let member: (&String, &serde_json::Value) = members[i];
                let ghost key = views[i as int].0;
                assert(decreases_to!(held_json(*value) => held_json(*value)->Object_0[key]));
                entries.push((member.0.clone(), from_value(member.1)));
                i = i + 1;
            }
            assert(entry_views(entries@) =~= views);
            Json::Object(entries)
        },
    }
}

/// The `serde_json::Value` that holds a JSON value.
pub fn to_value(json: &Json) -> (r: serde_json::Value)
    ensures
        held_json(r) == json@,
    decreases json,
{
    match json {
        Json::Null => close_value(JsonParts::Null),
        Json::Bool(b) => close_value(JsonParts::Bool(*b)),
        Json::Int(n) => close_value(JsonParts::Int(*n)),
        Json::Number(n) => close_value(JsonParts::Number(n)),
        Json::Text(s) => close_value(JsonParts::Text(s)),
        Json::Array(items) => {
            let mut values: Vec<serde_json::Value> = Vec::new();
            let mut i: usize = 0;
            while i < items.len()
                invariant
                    *json == Json::Array(*items),
                    i <= items@.len(),
                    values@.len() == i,
                    forall|k: int| 0 <= k < i ==> held_json(#[trigger] values@[k]) == items@[k]@,
                decreases items@.len() - i,
            {
                assert(decreases_to!(json => json->Array_0@[i as int]));
                values.push(to_value(&items[i]));
                i = i + 1;
            }
            assert(JsonParts::Array(values)@->Array_0 =~= json@->Array_0);
            close_value(JsonParts::Array(values))
        },
        Json::Object(entries) => {
            let ghost views = entry_views(entries@);
            let mut map: serde_json::Map<String, serde_json::Value> = no_members();
            let mut i: usize = 0;
            assert(views.take(0) =~= Seq::empty());
            while i < entries.len()
                invariant
                    *json == Json::Object(*entries),
                    i <= entries@.len(),
                    views == entry_views(entries@),
                    held_members(map) == members_of(views.take(i as int)),
                decreases entries@.len() - i,
            {
                let entry: &(String, Json) = &entries[i];
                assert(decreases_to!(json => json->Object_0@[i as int].1));
                add_member(&mut map, entry.0.clone(), to_value(&entry.1));
                assert(views[i as int] == (entry.0@, entry.1@));
                assert(views.take(i + 1).drop_last() =~= views.take(i as int));
                i = i + 1;
            }
            assert(views.take(i as int) =~= views);
            close_value(JsonParts::Object(map))
        },
    }
}

/// Reads a JSON text.
pub fn read_json(text: &str) -> (r: Result<Json, JsonError>)
    ensures
        match r {
            Ok(json) => json_value(text@) == Some(json@),
            Err(_) => json_value(text@) is None,
        },
{
    match parse_value(text) {
        Ok(value) => Ok(from_value(&value)),
        Err(cause) => Err(JsonError { cause }),
    }
}

impl Json {
    /// Writes the value as a JSON text.
    pub fn to_text(&self) -> (r: String)
        ensures
            r@ == json_words(self@),
    {
        value_text(&to_value(self))
    }

    /// Writes the value in the form for debugging.
    pub fn to_debug_text(&self) -> (r: String)
        ensures
            r@ == json_debug_words(self@),
    {
        value_debug_text(&to_value(self))
    }
}

// ---------------------------------------------------------------------------
// Looking into a value
// ---------------------------------------------------------------------------

impl JsonView {
    /// The member `key` of an object; anything else has none.
    pub open spec fn member(self, key: Seq<char>) -> Option<JsonView> {
        match self {
            JsonView::Object(members) => if members.contains_key(key) {
                Some(members[key])
            } else {
                None
            },
            _ => None,
        }
    }

    /// The member `key`, where it is a text.
    pub open spec fn text_member(self, key: Seq<char>) -> Option<Seq<char>> {
        match self.member(key) {
            Some(JsonView::Text(s)) => Some(s),
            _ => None,
        }
    }

    /// The member `key`, where it is a whole number that fits an `i64`.
    pub open spec fn int_member(self, key: Seq<char>) -> Option<int> {
        match self.member(key) {
            Some(JsonView::Int(n)) => Some(n),
            _ => None,
        }
    }

    /// The member `key`, where it is a truth value.
    pub open spec fn bool_member(self, key: Seq<char>) -> Option<bool> {
        match self.member(key) {
            Some(JsonView::Bool(b)) => Some(b),
            _ => None,
        }
    }
}

impl Json {
    /// A text value.
    pub fn text(s: &str) -> (r: Json)
        ensures
            r@ == JsonView::Text(s@),
    {
        Json::Text(s.to_owned())
    }

    /// A whole number.
    pub fn number(n: i64) -> (r: Json)
        ensures
            r@ == JsonView::Int(n as int),
    {
        Json::Int(n)
    }

    /// The place of the entry of that key that counts.
    fn position(entries: &Vec<(String, Json)>, key: &str) -> (r: Option<usize>)
        ensures
            match r {
                Some(i) => i < entries@.len() && Json::Object(*entries)@.member(key@) == Some(
                    entries@[i as int].1@,
                ),
                None => Json::Object(*entries)@.member(key@) is None,
            },
    {
        let ghost views = entry_views(entries@);
        let mut i: usize = entries.len();
        assert(views.take(i as int) =~= views);
        while i > 0
            invariant
                i <= entries@.len(),
                views == entry_views(entries@),
                object_of(views).member(key@) == object_of(views.take(i as int)).member(key@),
            decreases i,
        {
            i = i - 1;
            assert(views[i as int] == (entries@[i as int].0@, entries@[i as int].1@));
            assert(views.take(i + 1).drop_last() =~= views.take(i as int));
            if text::same_text(entries[i].0.as_str(), key) {
                return Some(i);
            }
        }
        None
    }

    /// The member `key` of an object; anything else has none.
    pub fn get(&self, key: &str) -> (r: Option<&Json>)
        ensures
            match self@ {
                JsonView::Object(members) => match r {
                    Some(json) => members.contains_key(key@) && members[key@] == json@,
                    None => !members.contains_key(key@),
                },
                _ => r is None,
            },
            match r {
                Some(json) => self@.member(key@) == Some(json@),
                None => self@.member(key@) is None,
            },
    {
        match self {
            Json::Object(entries) => match Self::position(entries, key) {
                Some(i) => Some(&entries[i].1),
                None => None,
            },
            _ => None,
        }
    }

    /// The member `key` of an object, or the whole value where it has none.
    pub fn into_member(self, key: &str) -> (r: Json)
        ensures
            match self@ {
                JsonView::Object(members) => if members.contains_key(key@) {
                    r@ == members[key@]
                } else {
                    r == self
                },
                _ => r == self,
            },
            r@ == match self@.member(key@) {
                Some(json) => json,
                None => self@,
            },
    {
        match self {
            Json::Object(mut entries) => match Self::position(&entries, key) {
                Some(i) => entries.swap_remove(i).1,
                None => Json::Object(entries),
            },
            other => other,
        }
    }

    /// Takes the member `key` out of an object; anything else has none.
    pub fn take_member(self, key: &str) -> (r: Option<Json>)
        ensures
            match self@ {
                JsonView::Object(members) => match r {
                    Some(json) => members.contains_key(key@) && members[key@] == json@,
                    None => !members.contains_key(key@),
                },
                _ => r is None,
            },
            match r {
                Some(json) => self@.member(key@) == Some(json@),
                None => self@.member(key@) is None,
            },
    {
        match self {
            Json::Object(mut entries) => match Self::position(&entries, key) {
                Some(i) => Some(entries.swap_remove(i).1),
                None => None,
            },
            _ => None,
        }
    }

    /// The member `key`, where it is a text.
    pub fn get_text(&self, key: &str) -> (r: Option<&String>)
        ensures
            match r {
                Some(s) => self@ is Object && self@->Object_0.contains_key(key@)
                    && self@->Object_0[key@] == JsonView::Text(s@),
                None => self@ is Object && self@->Object_0.contains_key(key@)
                    ==> self@->Object_0[key@] !is Text,
            },
            match r {
                Some(s) => self@.text_member(key@) == Some(s@),
                None => self@.text_member(key@) is None,
            },
    {
        match self.get(key) {
            Some(Json::Text(s)) => Some(s),
            _ => None,
        }
    }

    /// The member `key`, where it is a whole number that fits an `i64`.
    pub fn get_int(&self, key: &str) -> (r: Option<i64>)
        ensures
            match r {
                Some(n) => self@ is Object && self@->Object_0.contains_key(key@)
                    && self@->Object_0[key@] == JsonView::Int(n as int),
                None => self@ is Object && self@->Object_0.contains_key(key@)
                    ==> self@->Object_0[key@] !is Int,
            },
            match r {
                Some(n) => self@.int_member(key@) == Some(n as int),
                None => self@.int_member(key@) is None,
            },
    {
        match self.get(key) {
            Some(Json::Int(n)) => Some(*n),
            Some(Json::Number(n)) => number_int(n),
            _ => None,
        }
    }

    /// The member `key`, where it is a truth value.
    pub fn get_bool(&self, key: &str) -> (r: Option<bool>)
        ensures
            match r {
                Some(b) => self@ is Object && self@->Object_0.contains_key(key@)
                    && self@->Object_0[key@] == JsonView::Bool(b),
                None => self@ is Object && self@->Object_0.contains_key(key@)
                    ==> self@->Object_0[key@] !is Bool,
            },
            r == self@.bool_member(key@),
    {
        match self.get(key) {
            Some(Json::Bool(b)) => Some(*b),
            _ => None,
        }
    }
}

// ---------------------------------------------------------------------------
// Laws
// ---------------------------------------------------------------------------

/// An array stands for its items, all of them and in order.
pub proof fn law_arrays_hold_their_items(items: Vec<Json>)
    ensures
        Json::Array(items)@ is Array,
        Json::Array(items)@->Array_0.len() == items@.len(),
        forall|i: int|
            0 <= i < items@.len() ==> #[trigger] Json::Array(items)@->Array_0[i] == items@[i]@,
{
}

/// An object has a member for the key of every entry, the value of the last entry
/// of that key, and no member besides.
pub proof fn law_last_entry_of_a_key_counts(entries: Vec<(String, Json)>, i: int)
    requires
        0 <= i < entries@.len(),
        forall|j: int| i < j < entries@.len() ==> (#[trigger] entries@[j]).0@ != entries@[i].0@,
    ensures
        Json::Object(entries)@ is Object,
        Json::Object(entries)@->Object_0.contains_key(entries@[i].0@),
        Json::Object(entries)@->Object_0[entries@[i].0@] == entries@[i].1@,
        forall|key: Seq<char>| #[trigger]
            Json::Object(entries)@->Object_0.contains_key(key) ==> exists|k: int|
                0 <= k < entries@.len() && (#[trigger] entries@[k]).0@ == key,
{
    let views = entry_views(entries@);
    assert forall|j: int| i < j < views.len() implies (#[trigger] views[j]).0 != views[i].0 by {
        assert(entries@[j].0@ != entries@[i].0@);
    }
    lemma_last_entry_counts(views, i);
    assert forall|key: Seq<char>| #[trigger]
        Json::Object(entries)@->Object_0.contains_key(key) implies exists|k: int|
        0 <= k < entries@.len() && (#[trigger] entries@[k]).0@ == key by {
        let k = choose|k: int| 0 <= k < views.len() && (#[trigger] views[k]).0 == key;
        assert(entries@[k].0@ == key);
    }
}

/// Of the entries of a key the last counts, and every key is that of an entry.
proof fn lemma_last_entry_counts(entries: Seq<(Seq<char>, JsonView)>, i: int)
    requires
        0 <= i < entries.len(),
        forall|j: int| i < j < entries.len() ==> (#[trigger] entries[j]).0 != entries[i].0,
    ensures
        members_of(entries).contains_key(entries[i].0),
        members_of(entries)[entries[i].0] == entries[i].1,
        forall|key: Seq<char>| #[trigger]
            members_of(entries).contains_key(key) ==> exists|k: int|
                0 <= k < entries.len() && (#[trigger] entries[k]).0 == key,
    decreases entries.len(),
{
    lemma_keys_are_those_of_entries(entries);
    let earlier = entries.drop_last();
    if i < earlier.len() {
        assert forall|j: int| i < j < earlier.len() implies (#[trigger] earlier[j]).0
            != earlier[i].0 by {
            assert(entries[j].0 != entries[i].0);
        }
        lemma_last_entry_counts(earlier, i);
        assert(entries[entries.len() - 1].0 != entries[i].0);
    }
}

/// Every key is that of an entry.
proof fn lemma_keys_are_those_of_entries(entries: Seq<(Seq<char>, JsonView)>)
    ensures
        forall|key: Seq<char>| #[trigger]
            members_of(entries).contains_key(key) ==> exists|k: int|
                0 <= k < entries.len() && (#[trigger] entries[k]).0 == key,
    decreases entries.len(),
{
    if entries.len() > 0 {
        let earlier = entries.drop_last();
        lemma_keys_are_those_of_entries(earlier);
        assert forall|key: Seq<char>| #[trigger] members_of(entries).contains_key(key) implies exists|
            k: int,
        | 0 <= k < entries.len() && (#[trigger] entries[k]).0 == key by {
            if entries.last().0 == key {
                assert(entries[entries.len() - 1].0 == key);
            } else {
                assert(members_of(earlier).contains_key(key));
                let k = choose|k: int| 0 <= k < earlier.len() && (#[trigger] earlier[k]).0 == key;
                assert(entries[k].0 == key);
            }
        }
    }
}

} // verus!
