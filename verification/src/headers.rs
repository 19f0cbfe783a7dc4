//! Request headers.
//!
//! The header collection itself is `http`'s `HeaderMap`. What the admin plane
//! decides, it decides on the texts of the values under a name.

use axum::http::HeaderMap;
use vstd::prelude::*;

use crate::text::{ascii_lowered, to_ascii_lowercase};

verus! {

#[verifier::external_type_specification]
#[verifier::external_body]
#[verifier::reject_recursive_types(T)]
pub struct ExHeaderMap<T>(axum::http::HeaderMap<T>);

#[verifier::external_type_specification]
#[verifier::external_body]
pub struct ExHeaderValue(axum::http::HeaderValue);

/// What a header map holds: under each name, in lower case, its values in the
/// order in which they were added.
pub uninterp spec fn header_fields(headers: HeaderMap) -> Map<Seq<char>, Seq<Seq<u8>>>;

/// The values under a name; none when the name is absent.
pub open spec fn values_under(fields: Map<Seq<char>, Seq<Seq<u8>>>, name: Seq<char>) -> Seq<Seq<u8>> {
    if fields.contains_key(name) {
        fields[name]
    } else {
        Seq::empty()
    }
}

/// `HeaderMap::get_all` with a lower-case name: the bytes of every value under
/// it, in the order in which they were added, and none for a name the map lacks.
#[verifier::external_body]
fn get_all(headers: &HeaderMap, name: &str) -> (values: Vec<Vec<u8>>)
    requires
        ascii_lowered(name@) == name@,
    ensures
        values.deep_view() == values_under(header_fields(*headers), name@),
{
    headers.get_all(name).iter().map(|value| value.as_bytes().to_vec()).collect()
}

/// A byte that may stand in a readable header value.
pub open spec fn visible(byte: u8) -> bool {
    32 <= byte < 127 || byte == 9
}

/// The text of a header value, when all of its bytes are readable.
pub open spec fn value_text(bytes: Seq<u8>) -> Option<Seq<char>> {
    if forall|i: int| 0 <= i < bytes.len() ==> visible(#[trigger] bytes[i]) {
        Some(bytes.map_values(|byte: u8| byte as char))
    } else {
        None
    }
}

/// The texts of the values under `name`, each absent where it is not readable.
pub open spec fn header_texts(headers: HeaderMap, name: Seq<char>) -> Seq<Option<Seq<char>>> {
    values_under(header_fields(headers), ascii_lowered(name)).map_values(|bytes: Seq<u8>| value_text(bytes))
}

/// The text of a header value, when all of its bytes are readable.
pub fn readable(bytes: &[u8]) -> (text: Option<String>)
    ensures
        text.deep_view() == value_text(bytes@),
{
    let mut text = String::new();
    let mut i: usize = 0;
    while i < bytes.len()
        invariant
            i <= bytes@.len(),
            forall|j: int| 0 <= j < i ==> visible(#[trigger] bytes@[j]),
            text@ == bytes@.take(i as int).map_values(|byte: u8| byte as char),
        decreases bytes@.len() - i,
    {
        let byte: u8 = bytes[i];
        if !((32 <= byte && byte < 127) || byte == 9) {
            assert(!visible(bytes@[i as int]));
            return None;
        }
        text.push(byte as char);
        assert(bytes@.take(i + 1).map_values(|byte: u8| byte as char) =~= bytes@.take(i as int).map_values(
            |byte: u8| byte as char,
        ).push(byte as char));
        i = i + 1;
    }
    assert(bytes@.take(i as int) =~= bytes@);
    Some(text)
}

/// The texts of the values under `name`, each absent where it is not readable.
/// Header names are the same in any case.
pub fn texts(headers: &HeaderMap, name: &str) -> (values: Vec<Option<String>>)
    ensures
        values.deep_view() == header_texts(*headers, name@),
{
    let lowered = to_ascii_lowercase(name);
    proof {
        lemma_lowered_twice(name@);
    }
    let all = get_all(headers, lowered.as_str());
    let mut values: Vec<Option<String>> = Vec::new();
    let ghost fields = values_under(header_fields(*headers), ascii_lowered(name@));
    let mut i: usize = 0;
    while i < all.len()
        invariant
            i <= all@.len(),
            all.deep_view() == fields,
            values.deep_view() == fields.take(i as int).map_values(|bytes: Seq<u8>| value_text(bytes)),
        decreases all@.len() - i,
    {
        let ghost before = values.deep_view();
        let text = readable(all[i].as_slice());
        assert(all.deep_view()[i as int] == all@[i as int].deep_view());
        assert(all@[i as int].deep_view() =~= all@[i as int]@);
        values.push(text);
        assert(values.deep_view() =~= before.push(value_text(fields[i as int])));
        assert(fields.take(i + 1).map_values(|bytes: Seq<u8>| value_text(bytes)) =~= before.push(
            value_text(fields[i as int]),
        ));
        i = i + 1;
    }
    assert(fields.take(i as int) =~= fields);
    values
}

/// Lower-casing twice is lower-casing once.
proof fn lemma_lowered_twice(name: Seq<char>)
    ensures
        ascii_lowered(ascii_lowered(name)) == ascii_lowered(name),
{
    assert(ascii_lowered(ascii_lowered(name)) =~= ascii_lowered(name));
}

} // verus!
