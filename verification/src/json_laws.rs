//! How values are read: a field is what its name stands for, the last of several
//! with one name counts, and a value of another kind is none.

use vstd::prelude::*;

use crate::json::{
    entries_view, flag_field, items_field, lemma_items_view, optional_integer_view, optional_text_view, signed_field,
    text_field, Json, JsonNumber, JsonView, NumberView,
};

verus! {

/// A field gives a text, a flag, a whole number that fits or a list exactly where
/// it holds a value of that kind.
pub proof fn law_fields_give_their_own_kind(json: JsonView, key: Seq<char>, text: Seq<char>, flag: bool, n: int, items: Seq<JsonView>)
    ensures
        text_field(json, key) == Some(text) <==> json.field(key) == Some(JsonView::Text(text)),
        flag_field(json, key) == Some(flag) <==> json.field(key) == Some(JsonView::Bool(flag)),
        signed_field(json, key) == Some(n) <==> i64::MIN <= n <= i64::MAX && json.field(key) == Some(
            JsonView::Number(NumberView::Integer(n)),
        ),
        items_field(json, key) == Some(items) <==> json.field(key) == Some(JsonView::Array(items)),
        json matches JsonView::Object(members) ==> (json.field(key) is Some <==> members.contains_key(key)),
        json matches JsonView::Object(members) ==> (members.contains_key(key) ==> json.field(key) == Some(members[key])),
        !(json is Object) ==> json.field(key) is None,
{
}

/// An item is the one at its place, and there is none past the end.
pub proof fn law_items_stand_at_their_place(items: Seq<JsonView>, i: int)
    ensures
        0 <= i < items.len() ==> JsonView::Array(items).item(i) == Some(items[i]),
        !(0 <= i < items.len()) ==> JsonView::Array(items).item(i) is None,
{
}

/// A value stands for itself, a number for the number it is, and a list for its
/// items in order.
pub proof fn law_values_stand_for_themselves(flag: bool, n: u64, m: i64, text: String, items: Vec<Json>)
    ensures
        Json::Null@ == JsonView::Null,
        Json::Bool(flag)@ == JsonView::Bool(flag),
        Json::Number(JsonNumber::Unsigned(n))@ == JsonView::Number(NumberView::Integer(n as int)),
        Json::Number(JsonNumber::Negative(m))@ == JsonView::Number(NumberView::Integer(m as int)),
        Json::Text(text)@ == JsonView::Text(text@),
        Json::Array(items)@ matches JsonView::Array(views) && views.len() == items@.len() && forall|i: int|
            0 <= i < views.len() ==> #[trigger] views[i] == items@[i]@,
{
    lemma_items_view(items@);
}

/// One entry more is what its name stands for, and changes no other name.
pub proof fn law_later_entries_count(entries: Seq<(String, Json)>, entry: (String, Json), key: Seq<char>)
    ensures
        JsonView::Object(entries_view(entries.push(entry))).field(entry.0@) == Some(entry.1@),
        key != entry.0@ ==> JsonView::Object(entries_view(entries.push(entry))).field(key) == JsonView::Object(
            entries_view(entries),
        ).field(key),
        JsonView::Object(entries_view(Seq::empty())).field(key) is None,
{
    assert(entries.push(entry).drop_last() =~= entries);
}

/// What is not there is null.
pub proof fn law_absent_values_are_null(text: Seq<char>, n: int)
    ensures
        optional_text_view(Some(text)) == JsonView::Text(text),
        optional_text_view(None) == JsonView::Null,
        optional_integer_view(Some(n)) == JsonView::Number(NumberView::Integer(n)),
        optional_integer_view(None) == JsonView::Null,
{
}

} // verus!
