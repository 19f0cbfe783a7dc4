//! JSON values, as the admin plane reads them from requests and upstreams and
//! as it writes them into replies and frames.
//!
//! Reading and writing the JSON grammar itself is `serde_json`'s work; this
//! module holds the plain value type, its mathematical view, and the lookups.

use serde_json::Value;
use vstd::prelude::*;

use crate::text::{same_text, signed_decimal};

verus! {

/// A JSON number. Integers keep their exact value; every other number keeps the
/// decimal text it is written with.
pub enum JsonNumber {
    /// An integer from zero up.
    Unsigned(u64),
    /// An integer below zero.
    Negative(i64),
    /// A number with a fraction or an exponent.
    Float(String),
}

/// A JSON value. In an object a later entry overrides an earlier one with the
/// same key.
pub enum Json {
    Null,
    Bool(bool),
    Number(JsonNumber),
    Text(String),
    Array(Vec<Json>),
    Object(Vec<(String, Json)>),
}

/// The mathematical value of a [`JsonNumber`].
pub enum NumberView {
    Integer(int),
    Float(Seq<char>),
}

/// The mathematical value of a [`Json`]: an object is a map, so the order in
/// which its entries were written is not part of it.
pub enum JsonView {
    Null,
    Bool(bool),
    Number(NumberView),
    Text(Seq<char>),
    Array(Seq<JsonView>),
    Object(Map<Seq<char>, JsonView>),
}

impl View for JsonNumber {
    type V = NumberView;

    open spec fn view(&self) -> NumberView {
        match *self {
            JsonNumber::Unsigned(n) => NumberView::Integer(n as int),
            JsonNumber::Negative(n) => NumberView::Integer(n as int),
            JsonNumber::Float(text) => NumberView::Float(text@),
        }
    }
}

/// The view of one value.
pub open spec fn json_view(json: Json) -> JsonView
    decreases json,
{
    match json {
        Json::Null => JsonView::Null,
        Json::Bool(flag) => JsonView::Bool(flag),
        Json::Number(number) => JsonView::Number(number@),
        Json::Text(text) => JsonView::Text(text@),
        Json::Array(items) => JsonView::Array(items_view(items@)),
        Json::Object(entries) => JsonView::Object(entries_view(entries@)),
    }
}

/// The views of an array's items.
pub open spec fn items_view(items: Seq<Json>) -> Seq<JsonView>
    decreases items,
{
    if items.len() == 0 {
        Seq::empty()
    } else {
        items_view(items.drop_last()).push(json_view(items.last()))
    }
}

/// The map that an object's entries make, later entries winning.
pub open spec fn entries_view(entries: Seq<(String, Json)>) -> Map<Seq<char>, JsonView>
    decreases entries,
{
    if entries.len() == 0 {
        Map::empty()
    } else {
        entries_view(entries.drop_last()).insert(entries.last().0@, json_view(entries.last().1))
    }
}

impl View for Json {
    type V = JsonView;

    open spec fn view(&self) -> JsonView {
        json_view(*self)
    }
}

impl NumberView {
    /// The text a number is written with.
    pub open spec fn text(self) -> Seq<char> {
        match self {
            NumberView::Integer(n) => signed_decimal(n),
            NumberView::Float(text) => text,
        }
    }
}

impl JsonView {
    /// The value an object holds under `key`.
    pub open spec fn field(self, key: Seq<char>) -> Option<JsonView> {
        match self {
            JsonView::Object(map) => if map.contains_key(key) {
                Some(map[key])
            } else {
                None
            },
            _ => None,
        }
    }

    /// The item an array holds at `index`.
    pub open spec fn item(self, index: int) -> Option<JsonView> {
        match self {
            JsonView::Array(items) => if 0 <= index < items.len() {
                Some(items[index])
            } else {
                None
            },
            _ => None,
        }
    }

    /// The characters of a string.
    pub open spec fn as_text(self) -> Option<Seq<char>> {
        match self {
            JsonView::Text(text) => Some(text),
            _ => None,
        }
    }

    /// The value of an integer.
    pub open spec fn as_integer(self) -> Option<int> {
        match self {
            JsonView::Number(NumberView::Integer(n)) => Some(n),
            _ => None,
        }
    }

    /// The value of an integer that fits in an `i64`.
    pub open spec fn as_signed(self) -> Option<int> {
        match self.as_integer() {
            Some(n) => if i64::MIN <= n <= i64::MAX {
                Some(n)
            } else {
                None
            },
            None => None,
        }
    }

    /// The value of an integer from zero up that fits in a `u64`.
    pub open spec fn as_unsigned(self) -> Option<int> {
        match self.as_integer() {
            Some(n) => if 0 <= n <= u64::MAX {
                Some(n)
            } else {
                None
            },
            None => None,
        }
    }

    /// The value of a boolean.
    pub open spec fn as_flag(self) -> Option<bool> {
        match self {
            JsonView::Bool(flag) => Some(flag),
            _ => None,
        }
    }

    /// The items of an array.
    pub open spec fn as_items(self) -> Option<Seq<JsonView>> {
        match self {
            JsonView::Array(items) => Some(items),
            _ => None,
        }
    }
}

/// The text that a field of an object holds.
pub open spec fn text_field(json: JsonView, key: Seq<char>) -> Option<Seq<char>> {
    match json.field(key) {
        Some(value) => value.as_text(),
        None => None,
    }
}

/// The integer within `i64` that a field of an object holds.
pub open spec fn signed_field(json: JsonView, key: Seq<char>) -> Option<int> {
    match json.field(key) {
        Some(value) => value.as_signed(),
        None => None,
    }
}

/// The integer within `u64` that a field of an object holds.
pub open spec fn unsigned_field(json: JsonView, key: Seq<char>) -> Option<int> {
    match json.field(key) {
        Some(value) => value.as_unsigned(),
        None => None,
    }
}

/// The boolean that a field of an object holds.
pub open spec fn flag_field(json: JsonView, key: Seq<char>) -> Option<bool> {
    match json.field(key) {
        Some(value) => value.as_flag(),
        None => None,
    }
}

/// The items that an array field of an object holds.
pub open spec fn items_field(json: JsonView, key: Seq<char>) -> Option<Seq<JsonView>> {
    match json.field(key) {
        Some(value) => value.as_items(),
        None => None,
    }
}

/// `items_view` is the view of each item, in order.
pub broadcast proof fn lemma_items_view(items: Seq<Json>)
    ensures
        (#[trigger] items_view(items)).len() == items.len(),
        forall|i: int| 0 <= i < items.len() ==> #[trigger] items_view(items)[i] == items[i]@,
    decreases items.len(),
{
    if items.len() > 0 {
        lemma_items_view(items.drop_last());
        assert forall|i: int| 0 <= i < items.len() implies items_view(items)[i] == items[i]@ by {
            if i < items.len() - 1 {
                assert(items.drop_last()[i] == items[i]);
            }
        }
    }
}

/// A key of the map comes from some entry.
pub proof fn lemma_entries_view_absent(entries: Seq<(String, Json)>, key: Seq<char>)
    requires
        forall|i: int| 0 <= i < entries.len() ==> (#[trigger] entries[i]).0@ != key,
    ensures
        !entries_view(entries).contains_key(key),
    decreases entries.len(),
{
    if entries.len() > 0 {
        let front = entries.drop_last();
        assert forall|i: int| 0 <= i < front.len() implies (#[trigger] front[i]).0@ != key by {
            assert(front[i] == entries[i]);
        }
        lemma_entries_view_absent(front, key);
        assert(entries.last() == entries[entries.len() - 1]);
    }
}

/// The last entry with a key is the one the map holds.
pub proof fn lemma_entries_view_present(entries: Seq<(String, Json)>, at: int)
    requires
        0 <= at < entries.len(),
        forall|i: int| at < i < entries.len() ==> (#[trigger] entries[i]).0@ != entries[at].0@,
    ensures
        entries_view(entries).contains_key(entries[at].0@),
        entries_view(entries)[entries[at].0@] == entries[at].1@,
    decreases entries.len(),
{
    if at < entries.len() - 1 {
        let front = entries.drop_last();
        assert(front[at] == entries[at]);
        assert forall|i: int| at < i < front.len() implies (#[trigger] front[i]).0@ != front[at].0@ by {
            assert(front[i] == entries[i]);
        }
        lemma_entries_view_present(front, at);
        assert(entries.last() == entries[entries.len() - 1]);
    }
}

impl Json {
    /// The value an object holds under `key`; nothing for any other value.
    pub fn get(&self, key: &str) -> (value: Option<&Json>)
        ensures
            match value {
                Some(value) => self@.field(key@) == Some(value@),
                None => self@.field(key@) is None,
            },
    {
        match self {
            Json::Object(entries) => {
                let mut i: usize = entries.len();
                while i > 0
                    invariant
                        i <= entries@.len(),
                        *self == Json::Object(*entries),
                        forall|j: int|
                            i <= j < entries@.len() ==> (#[trigger] entries@[j]).0@ != key@,
                    decreases i,
                {
                    i = i - 1;
                    if same_text(entries[i].0.as_str(), key) {
                        proof {
                            lemma_entries_view_present(entries@, i as int);
                        }
                        return Some(&entries[i].1);
                    }
                }
                proof {
                    lemma_entries_view_absent(entries@, key@);
                }
                None
            },
            _ => None,
        }
    }

    /// The item an array holds at `index`; nothing for any other value.
    pub fn at(&self, index: usize) -> (value: Option<&Json>)
        ensures
            match value {
                Some(value) => self@.item(index as int) == Some(value@),
                None => self@.item(index as int) is None,
            },
    {
        match self {
            Json::Array(items) => if index < items.len() {
                proof {
                    lemma_items_view(items@);
                }
                Some(&items[index])
            } else {
                proof {
                    lemma_items_view(items@);
                }
                None
            },
            _ => None,
        }
    }

    /// The text of a string; nothing for any other value.
    pub fn as_str(&self) -> (text: Option<&str>)
        ensures
            text is Some <==> self@.as_text() is Some,
            text matches Some(text) ==> self@.as_text() == Some(text@),
    {
        match self {
            Json::Text(text) => Some(text.as_str()),
            _ => None,
        }
    }

    /// The value of an integer that fits in an `i64`.
    pub fn as_i64(&self) -> (number: Option<i64>)
        ensures
            number is Some <==> self@.as_signed() is Some,
            number matches Some(number) ==> self@.as_signed() == Some(number as int),
    {
        match self {
            Json::Number(JsonNumber::Unsigned(n)) => if *n <= 0x7fff_ffff_ffff_ffffu64 {
                Some(*n as i64)
            } else {
                None
            },
            Json::Number(JsonNumber::Negative(n)) => Some(*n),
            _ => None,
        }
    }

    /// The value of an integer from zero up.
    pub fn as_u64(&self) -> (number: Option<u64>)
        ensures
            number is Some <==> self@.as_unsigned() is Some,
            number matches Some(number) ==> self@.as_unsigned() == Some(number as int),
    {
        match self {
            Json::Number(JsonNumber::Unsigned(n)) => Some(*n),
            Json::Number(JsonNumber::Negative(n)) => if *n >= 0 {
                Some(*n as u64)
            } else {
                None
            },
            _ => None,
        }
    }

    /// The value of a boolean.
    pub fn as_bool(&self) -> (flag: Option<bool>)
        ensures
            flag == self@.as_flag(),
    {
        match self {
            Json::Bool(flag) => Some(*flag),
            _ => None,
        }
    }

    /// The items of an array.
    pub fn as_array(&self) -> (items: Option<&Vec<Json>>)
        ensures
            match items {
                Some(items) => self@.as_items() == Some(items_view(items@)),
                None => self@.as_items() is None,
            },
    {
        match self {
            Json::Array(items) => Some(items),
            _ => None,
        }
    }

    /// The text under `key`, when there is one.
    pub fn get_str(&self, key: &str) -> (text: Option<&str>)
        ensures
            match text {
                Some(text) => text_field(self@, key@) == Some(text@),
                None => text_field(self@, key@) is None,
            },
    {
        match self.get(key) {
            Some(value) => value.as_str(),
            None => None,
        }
    }

    /// The `i64` under `key`, when there is one.
    pub fn get_i64(&self, key: &str) -> (number: Option<i64>)
        ensures
            match number {
                Some(number) => signed_field(self@, key@) == Some(number as int),
                None => signed_field(self@, key@) is None,
            },
    {
        match self.get(key) {
            Some(value) => value.as_i64(),
            None => None,
        }
    }

    /// The `u64` under `key`, when there is one.
    pub fn get_u64(&self, key: &str) -> (number: Option<u64>)
        ensures
            match number {
                Some(number) => unsigned_field(self@, key@) == Some(number as int),
                None => unsigned_field(self@, key@) is None,
            },
    {
        match self.get(key) {
            Some(value) => value.as_u64(),
            None => None,
        }
    }

    /// The boolean under `key`, when there is one.
    pub fn get_bool(&self, key: &str) -> (flag: Option<bool>)
        ensures
            flag == flag_field(self@, key@),
    {
        match self.get(key) {
            Some(value) => value.as_bool(),
            None => None,
        }
    }

    /// The items under `key`, when there is an array.
    pub fn get_array(&self, key: &str) -> (items: Option<&Vec<Json>>)
        ensures
            match items {
                Some(items) => items_field(self@, key@) == Some(items_view(items@)),
                None => items_field(self@, key@) is None,
            },
    {
        match self.get(key) {
            Some(value) => value.as_array(),
            None => None,
        }
    }

    /// A JSON string.
    pub fn text(text: &str) -> (json: Json)
        ensures
            json@ == JsonView::Text(text@),
    {
        Json::Text(text.to_owned())
    }

    /// A JSON integer from zero up.
    pub fn unsigned(n: u64) -> (json: Json)
        ensures
            json@ == JsonView::Number(NumberView::Integer(n as int)),
    {
        Json::Number(JsonNumber::Unsigned(n))
    }

    /// A JSON integer.
    pub fn signed(n: i64) -> (json: Json)
        ensures
            json@ == JsonView::Number(NumberView::Integer(n as int)),
    {
        if n < 0 {
            Json::Number(JsonNumber::Negative(n))
        } else {
            Json::Number(JsonNumber::Unsigned(n as u64))
        }
    }

    /// A JSON string, or null for an absent text.
    pub fn optional_text(text: &Option<String>) -> (json: Json)
        ensures
            json@ == optional_text_view(text.deep_view()),
    {
        match text {
            Some(text) => Json::text(text.as_str()),
            None => Json::Null,
        }
    }

    /// A JSON integer, or null for an absent one.
    pub fn optional_unsigned(n: Option<u64>) -> (json: Json)
        ensures
            json@ == optional_integer_view(match n {
                Some(n) => Some(n as int),
                None => None,
            }),
    {
        match n {
            Some(n) => Json::unsigned(n),
            None => Json::Null,
        }
    }

    /// The value that a byte string spells, when it spells exactly one.
    pub fn from_bytes(bytes: &[u8]) -> (json: Option<Json>)
        ensures
            json is Some <==> json_parsed(bytes@) is Some,
            json matches Some(json) ==> json_parsed(bytes@) == Some(json@),
    {
        parse(bytes)
    }

    /// The value's compact text.
    pub fn to_text(&self) -> (text: String)
        ensures
            text@ == json_text(self@),
    {
        render(self)
    }

    /// A value of its own with the same content.
    pub fn duplicate(&self) -> (copy: Json)
        ensures
            copy@ == self@,
        decreases self,
    {
        match self {
            Json::Null => Json::Null,
            Json::Bool(flag) => Json::Bool(*flag),
            Json::Number(JsonNumber::Unsigned(n)) => Json::Number(JsonNumber::Unsigned(*n)),
            Json::Number(JsonNumber::Negative(n)) => Json::Number(JsonNumber::Negative(*n)),
            Json::Number(JsonNumber::Float(text)) => Json::Number(JsonNumber::Float(text.clone())),
            Json::Text(text) => Json::Text(text.clone()),
            Json::Array(items) => {
                let mut copies: Vec<Json> = Vec::new();
                let mut i: usize = 0;
                while i < items.len()
                    invariant
                        i <= items@.len(),
                        *self == Json::Array(*items),
                        items_view(copies@) == items_view(items@.take(i as int)),
                    decreases items@.len() - i,
                {
                    assert(decreases_to!(*self => self->Array_0));
                    assert(decreases_to!(items@ => items@[i as int]));
                    let copy = items[i].duplicate();
                    let ghost before = copies@;
                    copies.push(copy);
                    assert(copies@.drop_last() =~= before);
                    assert(items@.take(i + 1).drop_last() =~= items@.take(i as int));
                    i = i + 1;
                }
                assert(items@.take(i as int) =~= items@);
                Json::Array(copies)
            },
            Json::Object(entries) => {
                let mut copies: Vec<(String, Json)> = Vec::new();
                let mut i: usize = 0;
                while i < entries.len()
                    invariant
                        i <= entries@.len(),
                        *self == Json::Object(*entries),
                        entries_view(copies@) == entries_view(entries@.take(i as int)),
                    decreases entries@.len() - i,
                {
                    assert(decreases_to!(*self => self->Object_0));
                    assert(decreases_to!(entries@ => entries@[i as int]));
                    assert(decreases_to!(entries@[i as int] => entries@[i as int].1));
                    let copy = entries[i].1.duplicate();
                    let ghost before = copies@;
                    copies.push((entries[i].0.clone(), copy));
                    assert(copies@.drop_last() =~= before);
                    assert(entries@.take(i + 1).drop_last() =~= entries@.take(i as int));
                    i = i + 1;
                }
                assert(entries@.take(i as int) =~= entries@);
                Json::Object(copies)
            },
        }
    }
}

/// A string, or null for an absent text.
pub open spec fn optional_text_view(text: Option<Seq<char>>) -> JsonView {
    match text {
        Some(text) => JsonView::Text(text),
        None => JsonView::Null,
    }
}

/// An integer, or null for an absent one.
pub open spec fn optional_integer_view(n: Option<int>) -> JsonView {
    match n {
        Some(n) => JsonView::Number(NumberView::Integer(n)),
        None => JsonView::Null,
    }
}

/// An object under construction.
pub struct Fields {
    pub entries: Vec<(String, Json)>,
}

impl View for Fields {
    type V = Map<Seq<char>, JsonView>;

    open spec fn view(&self) -> Map<Seq<char>, JsonView> {
        entries_view(self.entries@)
    }
}

impl Fields {
    /// No field yet.
    pub fn new() -> (fields: Fields)
        ensures
            fields@ == Map::<Seq<char>, JsonView>::empty(),
    {
        Fields { entries: Vec::new() }
    }

    /// One field more.
    pub fn with(self, key: &str, value: Json) -> (fields: Fields)
        ensures
            fields@ == self@.insert(key@, value@),
    {
        let ghost before = self.entries@;
        let mut entries = self.entries;
        let ghost item = value@;
        entries.push((key.to_owned(), value));
        assert(entries@.drop_last() =~= before);
        Fields { entries }
    }

    /// The finished object.
    pub fn done(self) -> (json: Json)
        ensures
            json@ == JsonView::Object(self@),
    {
        Json::Object(self.entries)
    }
}

#[verifier::external_type_specification]
#[verifier::external_body]
pub struct ExJsonValue(Value);

/// What `serde_json` reads from a byte string: the value it spells, or nothing
/// when it does not spell exactly one JSON value.
pub uninterp spec fn json_parsed(bytes: Seq<u8>) -> Option<JsonView>;

/// The text that `serde_json` writes for a value.
pub uninterp spec fn json_text(json: JsonView) -> Seq<char>;

/// Turns a `serde_json::Value` into a [`Json`], variant by variant. Nothing is
/// claimed of the result here; [`parse`] and [`render`] name what it amounts to.
#[verifier::external_body]
fn json_of_value(value: Value) -> (json: Json) {
    match value {
        Value::Null => Json::Null,
        Value::Bool(flag) => Json::Bool(flag),
        Value::Number(n) => Json::Number(match (n.as_u64(), n.as_i64()) {
            (Some(n), _) => JsonNumber::Unsigned(n),
            (None, Some(n)) => JsonNumber::Negative(n),
            (None, None) => JsonNumber::Float(n.to_string()),
        }),
        Value::String(text) => Json::Text(text),
        Value::Array(items) => Json::Array(items.into_iter().map(json_of_value).collect()),
        Value::Object(map) => Json::Object(map.into_iter().map(|(key, item)| (key, json_of_value(item))).collect()),
    }
}

/// Turns a [`Json`] into a `serde_json::Value`, variant by variant. A number text
/// is read by std, which gives back exactly the number that the text was written
/// for; one that spells no finite number becomes null. Nothing is claimed of the
/// result here; [`render`] names what it amounts to.
#[verifier::external_body]
fn value_of_json(json: &Json) -> (value: Value) {
    match json {
        Json::Null => Value::Null,
        Json::Bool(flag) => Value::Bool(*flag),
        Json::Number(JsonNumber::Unsigned(n)) => Value::from(*n),
        Json::Number(JsonNumber::Negative(n)) => Value::from(*n),
        Json::Number(JsonNumber::Float(text)) => text.parse().ok().and_then(serde_json::Number::from_f64).map_or(Value::Null, Value::Number),
        Json::Text(text) => Value::String(text.clone()),
        Json::Array(items) => Value::Array(items.iter().map(value_of_json).collect()),
        Json::Object(entries) => Value::Object(entries.iter().map(|(key, item)| (key.clone(), value_of_json(item))).collect()),
    }
}

/// `serde_json::from_slice` on `bytes`: the value they spell, which depends on
/// the bytes alone, or nothing where it reports an error.
#[verifier::external_body]
fn parse(bytes: &[u8]) -> (json: Option<Json>)
    ensures
        json is Some <==> json_parsed(bytes@) is Some,
        json matches Some(json) ==> json_parsed(bytes@) == Some(json@),
{
    serde_json::from_slice(bytes).ok().map(json_of_value)
}

/// `serde_json::Value::to_string` on the value `json` stands for: a compact text
/// that depends on the value alone.
#[verifier::external_body]
fn render(json: &Json) -> (text: String)
    ensures
        text@ == json_text(json@),
{
    value_of_json(json).to_string()
}

} // verus!
