//! The byte string that a queued write is fingerprinted from.
//!
//! Every part carries its length, and the members of an object are written in
//! the byte order of their keys: equal values give equal byte strings, and
//! different values give different ones.

use vstd::prelude::*;
use vstd::utf8::encode_utf8;

use crate::json::{
    entries_view, items_view, lemma_items_view, Json, JsonNumber, JsonView, NumberView,
};
use crate::text::{
    decimal, decimal_text, digit, lemma_utf8_injective, same_text, signed_decimal, signed_decimal_text,
};

verus! {

/// Whether `left` comes strictly before `right` in lexicographic byte order.
pub open spec fn bytes_before(left: Seq<u8>, right: Seq<u8>) -> bool
    decreases left.len(),
{
    if right.len() == 0 {
        false
    } else if left.len() == 0 {
        true
    } else {
        left[0] < right[0] || (left[0] == right[0] && bytes_before(left.skip(1), right.skip(1)))
    }
}

/// Whether the text `left` comes strictly before `right` in byte order.
pub open spec fn key_before(left: Seq<char>, right: Seq<char>) -> bool {
    bytes_before(encode_utf8(left), encode_utf8(right))
}

/// Byte order is a strict total order.
proof fn lemma_bytes_before_total(left: Seq<u8>, right: Seq<u8>)
    ensures
        !(bytes_before(left, right) && bytes_before(right, left)),
        !bytes_before(left, left),
        left != right ==> bytes_before(left, right) || bytes_before(right, left),
    decreases left.len(),
{
    if left.len() > 0 {
        lemma_bytes_before_total(left.skip(1), left.skip(1));
    }
    if left.len() > 0 && right.len() > 0 {
        lemma_bytes_before_total(left.skip(1), right.skip(1));
        if left[0] == right[0] && left.skip(1) == right.skip(1) {
            assert(left =~= seq![left[0]] + left.skip(1));
            assert(right =~= seq![right[0]] + right.skip(1));
        }
    } else if left.len() == 0 && right.len() == 0 {
        assert(left =~= right);
    }
}

/// Byte order is transitive.
proof fn lemma_bytes_before_transitive(a: Seq<u8>, b: Seq<u8>, c: Seq<u8>)
    requires
        bytes_before(a, b),
        bytes_before(b, c),
    ensures
        bytes_before(a, c),
    decreases a.len(),
{
    if a.len() > 0 && a[0] == b[0] && b[0] == c[0] {
        lemma_bytes_before_transitive(a.skip(1), b.skip(1), c.skip(1));
    }
}

/// Key order is a strict total order.
pub proof fn lemma_key_before_total(left: Seq<char>, right: Seq<char>)
    ensures
        !(key_before(left, right) && key_before(right, left)),
        !key_before(left, left),
        left != right ==> key_before(left, right) || key_before(right, left),
{
    lemma_bytes_before_total(encode_utf8(left), encode_utf8(right));
    lemma_utf8_injective(left, right);
}

/// Key order is transitive.
pub proof fn lemma_key_before_transitive(a: Seq<char>, b: Seq<char>, c: Seq<char>)
    requires
        key_before(a, b),
        key_before(b, c),
    ensures
        key_before(a, c),
{
    lemma_bytes_before_transitive(encode_utf8(a), encode_utf8(b), encode_utf8(c));
}

/// Whether `keys` are in strictly ascending byte order.
pub open spec fn ascending(keys: Seq<Seq<char>>) -> bool {
    forall|i: int, j: int| 0 <= i < j < keys.len() ==> #[trigger] key_before(keys[i], keys[j])
}

/// The keys of a finite set, in ascending byte order.
pub open spec fn sorted_keys(keys: Set<Seq<char>>) -> Seq<Seq<char>> {
    choose|sorted: Seq<Seq<char>>| #[trigger] ascending(sorted) && sorted.to_set() == keys
}

/// Two ascending sequences of the same keys are the same sequence.
proof fn lemma_ascending_unique(left: Seq<Seq<char>>, right: Seq<Seq<char>>)
    requires
        ascending(left),
        ascending(right),
        left.to_set() == right.to_set(),
    ensures
        left == right,
    decreases left.len(),
{
    if left.len() == 0 {
        if right.len() > 0 {
            assert(right.to_set().contains(right[0]));
            assert(left.to_set().contains(right[0]));
        }
        assert(left =~= right);
    } else {
        assert(left.to_set().contains(left[0]));
        assert(right.to_set().contains(left[0]));
        let j = choose|j: int| 0 <= j < right.len() && right[j] == left[0];
        assert(right.to_set().contains(right[0]));
        assert(left.to_set().contains(right[0]));
        let i = choose|i: int| 0 <= i < left.len() && left[i] == right[0];
        if left[0] != right[0] {
            assert(key_before(left[0], left[i]));
            assert(key_before(right[0], right[j]));
            lemma_key_before_total(left[0], right[0]);
        }
        let l = left.skip(1);
        let r = right.skip(1);
        assert(ascending(l)) by {
            assert forall|a: int, b: int| 0 <= a < b < l.len() implies #[trigger] key_before(l[a], l[b]) by {
                assert(key_before(left[a + 1], left[b + 1]));
            }
        }
        assert(ascending(r)) by {
            assert forall|a: int, b: int| 0 <= a < b < r.len() implies #[trigger] key_before(r[a], r[b]) by {
                assert(key_before(right[a + 1], right[b + 1]));
            }
        }
        assert forall|k: Seq<char>| l.to_set().contains(k) == r.to_set().contains(k) by {
            if l.to_set().contains(k) {
                let a = choose|a: int| 0 <= a < l.len() && l[a] == k;
                assert(left[a + 1] == k);
                assert(left.to_set().contains(k));
                assert(right.to_set().contains(k));
                let b = choose|b: int| 0 <= b < right.len() && right[b] == k;
                assert(key_before(left[0], left[a + 1]));
                lemma_key_before_total(k, k);
                assert(b != 0);
                assert(r[b - 1] == k);
            }
            if r.to_set().contains(k) {
                let a = choose|a: int| 0 <= a < r.len() && r[a] == k;
                assert(right[a + 1] == k);
                assert(right.to_set().contains(k));
                assert(left.to_set().contains(k));
                let b = choose|b: int| 0 <= b < left.len() && left[b] == k;
                assert(key_before(right[0], right[a + 1]));
                lemma_key_before_total(k, k);
                assert(b != 0);
                assert(l[b - 1] == k);
            }
        }
        assert(l.to_set() =~= r.to_set());
        lemma_ascending_unique(l, r);
        assert(left =~= seq![left[0]] + l);
        assert(right =~= seq![right[0]] + r);
    }
}

/// An ascending sequence is what its set of keys sorts to.
pub proof fn lemma_sorted_keys(keys: Seq<Seq<char>>)
    requires
        ascending(keys),
    ensures
        sorted_keys(keys.to_set()) == keys,
{
    let sorted = sorted_keys(keys.to_set());
    assert(ascending(sorted) && sorted.to_set() == keys.to_set());
    lemma_ascending_unique(sorted, keys);
}

/// Every finite set of keys has an ascending sequence.
pub proof fn lemma_sorted_keys_exist(keys: Set<Seq<char>>)
    requires
        keys.finite(),
    ensures
        ascending(sorted_keys(keys)),
        sorted_keys(keys).to_set() == keys,
    decreases keys.len(),
{
    if keys.len() == 0 {
        let none = Seq::<Seq<char>>::empty();
        assert(ascending(none));
        assert(none.to_set() =~= keys);
    } else {
        let key = keys.choose();
        lemma_sorted_keys_exist(keys.remove(key));
        let rest = sorted_keys(keys.remove(key));
        assert(!rest.contains(key)) by {
            if rest.contains(key) {
                assert(rest.to_set().contains(key));
            }
        }
        let at = lemma_insertion_point(rest, key);
        let sorted = rest.insert(at, key);
        lemma_insert_ascending(rest, key, at);
        assert(sorted.to_set() =~= keys);
    }
}

/// The offset at which `key` belongs among ascending keys that lack it.
proof fn lemma_insertion_point(keys: Seq<Seq<char>>, key: Seq<char>) -> (at: int)
    requires
        ascending(keys),
        !keys.contains(key),
    ensures
        0 <= at <= keys.len(),
        forall|i: int| 0 <= i < at ==> key_before(#[trigger] keys[i], key),
        forall|i: int| at <= i < keys.len() ==> key_before(key, #[trigger] keys[i]),
    decreases keys.len(),
{
    if keys.len() == 0 {
        0
    } else {
        let last = keys.last();
        assert(keys.contains(last));
        lemma_key_before_total(last, key);
        if key_before(last, key) {
            assert forall|i: int| 0 <= i < keys.len() implies key_before(#[trigger] keys[i], key) by {
                if i < keys.len() - 1 {
                    assert(key_before(keys[i], keys[keys.len() - 1]));
                    lemma_key_before_transitive(keys[i], last, key);
                }
            }
            keys.len() as int
        } else {
            let front = keys.drop_last();
            assert(ascending(front)) by {
                assert forall|i: int, j: int| 0 <= i < j < front.len() implies #[trigger] key_before(front[i], front[j]) by {
                    assert(key_before(keys[i], keys[j]));
                }
            }
            assert(!front.contains(key)) by {
                if front.contains(key) {
                    let i = choose|i: int| 0 <= i < front.len() && front[i] == key;
                    assert(keys[i] == key);
                }
            }
            let at = lemma_insertion_point(front, key);
            assert forall|i: int| 0 <= i < at implies key_before(#[trigger] keys[i], key) by {
                assert(front[i] == keys[i]);
            }
            assert forall|i: int| at <= i < keys.len() implies key_before(key, #[trigger] keys[i]) by {
                if i < keys.len() - 1 {
                    assert(front[i] == keys[i]);
                }
            }
            at
        }
    }
}

/// A key put where it belongs leaves ascending keys ascending.
proof fn lemma_insert_ascending(keys: Seq<Seq<char>>, key: Seq<char>, at: int)
    requires
        ascending(keys),
        0 <= at <= keys.len(),
        forall|i: int| 0 <= i < at ==> key_before(#[trigger] keys[i], key),
        forall|i: int| at <= i < keys.len() ==> key_before(key, #[trigger] keys[i]),
    ensures
        ascending(keys.insert(at, key)),
        keys.insert(at, key).to_set() == keys.to_set().insert(key),
{
    let all = keys.insert(at, key);
    assert forall|i: int, j: int| 0 <= i < j < all.len() implies #[trigger] key_before(all[i], all[j]) by {
        let a = if i < at { i } else { i - 1 };
        let b = if j < at { j } else { j - 1 };
        if i != at && j != at {
            assert(key_before(keys[a], keys[b]));
        }
    }
    assert forall|k: Seq<char>| all.to_set().contains(k) == keys.to_set().insert(key).contains(k) by {
        if all.to_set().contains(k) {
            let i = choose|i: int| 0 <= i < all.len() && all[i] == k;
            if i < at {
                assert(keys[i] == k);
            } else if i > at {
                assert(keys[i - 1] == k);
            }
        }
        if keys.to_set().contains(k) {
            let i = choose|i: int| 0 <= i < keys.len() && keys[i] == k;
            if i < at {
                assert(all[i] == k);
            } else {
                assert(all[i + 1] == k);
            }
        }
        assert(all[at] == key);
    }
    assert(all.to_set() =~= keys.to_set().insert(key));
}

/// The low `width` bytes of `n`, most significant first.
pub open spec fn big_endian(n: nat, width: nat) -> Seq<u8>
    decreases width,
{
    if width == 0 {
        Seq::empty()
    } else {
        big_endian(n / 256, (width - 1) as nat).push((n % 256) as u8)
    }
}

/// A byte string with its length in front.
pub open spec fn length_prefixed(bytes: Seq<u8>) -> Seq<u8> {
    big_endian(bytes.len(), 8) + bytes
}

/// The two's complement of `n` in 64 bits.
pub open spec fn twos_complement(n: int) -> nat {
    if n < 0 {
        (0x1_0000_0000_0000_0000 + n) as nat
    } else {
        n as nat
    }
}

/// The bytes that stand for a JSON value.
pub open spec fn json_bytes(json: JsonView) -> Seq<u8>
    decreases json, 0nat,
{
    match json {
        JsonView::Null => seq![0u8],
        JsonView::Bool(flag) => seq![1u8, if flag { 1u8 } else { 0u8 }],
        JsonView::Number(number) => seq![2u8] + length_prefixed(encode_utf8(number.text())),
        JsonView::Text(text) => seq![3u8] + length_prefixed(encode_utf8(text)),
        JsonView::Array(items) => seq![4u8] + big_endian(items.len(), 8) + items_bytes(items),
        JsonView::Object(members) => seq![5u8] + big_endian(members.len(), 8) + members_bytes(
            members,
            sorted_keys(members.dom()),
        ),
    }
}

/// The bytes of the items, one after the other.
pub open spec fn items_bytes(items: Seq<JsonView>) -> Seq<u8>
    decreases items, items.len(),
{
    if items.len() == 0 {
        Seq::empty()
    } else {
        json_bytes(items[0]) + items_bytes(items.skip(1))
    }
}

/// The bytes of the members under `keys`, in that order.
pub open spec fn members_bytes(members: Map<Seq<char>, JsonView>, keys: Seq<Seq<char>>) -> Seq<u8>
    decreases members, keys.len(),
{
    if keys.len() == 0 || !members.dom().finite() || !members.dom().contains(keys[0]) {
        Seq::empty()
    } else {
        length_prefixed(encode_utf8(keys[0])) + json_bytes(members[keys[0]]) + members_bytes(
            members,
            keys.skip(1),
        )
    }
}

/// The low `width` bytes of `n`, most significant first.
fn big_endian_bytes(n: u64, width: usize) -> (bytes: Vec<u8>)
    ensures
        bytes@ == big_endian(n as nat, width as nat),
    decreases width,
{
    if width == 0 {
        Vec::new()
    } else {
        let mut bytes = big_endian_bytes(n / 256, width - 1);
        bytes.push((n % 256) as u8);
        bytes
    }
}

/// The bytes of `more` put behind those of `bytes`.
pub(crate) fn append_bytes(bytes: &mut Vec<u8>, more: &[u8])
    ensures
        final(bytes)@ == old(bytes)@ + more@,
{
    let mut i: usize = 0;
    assert(more@.take(0) =~= Seq::empty());
    assert(bytes@ + Seq::<u8>::empty() =~= bytes@);
    while i < more.len()
        invariant
            i <= more@.len(),
            bytes@ == old(bytes)@ + more@.take(i as int),
        decreases more@.len() - i,
    {
        bytes.push(more[i]);
        assert(more@.take(i + 1) =~= more@.take(i as int).push(more@[i as int]));
        assert(bytes@ =~= old(bytes)@ + more@.take(i + 1));
        i = i + 1;
    }
    assert(more@.take(i as int) =~= more@);
}

/// `n` in eight bytes, most significant first, put behind `bytes`.
fn append_u64(bytes: &mut Vec<u8>, n: u64)
    ensures
        final(bytes)@ == old(bytes)@ + big_endian(n as nat, 8),
{
    let encoded = big_endian_bytes(n, 8);
    append_bytes(bytes, encoded.as_slice());
}

/// A byte string put behind `bytes`, with its length in front.
pub fn fingerprint_field(bytes: &mut Vec<u8>, value: &[u8])
    ensures
        final(bytes)@ == old(bytes)@ + length_prefixed(value@),
{
    let ghost before = bytes@;
    append_u64(bytes, value.len() as u64);
    append_bytes(bytes, value);
    assert(bytes@ =~= before + length_prefixed(value@));
}

/// `n` in two's complement.
fn twos_complement_of(n: i64) -> (bits: u64)
    ensures
        bits == twos_complement(n as int),
{
    if n < 0 {
        let below: u64 = (-(n + 1)) as u64;
        0xffff_ffff_ffff_ffffu64 - below
    } else {
        n as u64
    }
}

/// Whether `left` comes strictly before `right` in lexicographic byte order.
fn is_before(left: &[u8], right: &[u8]) -> (before: bool)
    ensures
        before == bytes_before(left@, right@),
{
    let mut i: usize = 0;
    assert(left@.skip(0) =~= left@);
    assert(right@.skip(0) =~= right@);
    while i < left.len() && i < right.len() && left[i] == right[i]
        invariant
            i <= left@.len(),
            i <= right@.len(),
            bytes_before(left@, right@) == bytes_before(left@.skip(i as int), right@.skip(i as int)),
        decreases left@.len() - i,
    {
        assert(left@.skip(i as int).skip(1) =~= left@.skip(i + 1));
        assert(right@.skip(i as int).skip(1) =~= right@.skip(i + 1));
        i = i + 1;
    }
    i < right.len() && (i == left.len() || left[i] < right[i])
}

/// The keys of the entries at `order`.
pub open spec fn ordered_keys(entries: Seq<(String, Json)>, order: Seq<usize>) -> Seq<Seq<char>> {
    Seq::new(order.len(), |i: int| entries[order[i] as int].0@)
}

/// Whether `order` lists the entries that count, by ascending key.
pub open spec fn orders(entries: Seq<(String, Json)>, order: Seq<usize>, members: Map<Seq<char>, JsonView>) -> bool {
    &&& forall|i: int| 0 <= i < order.len() ==> (#[trigger] order[i]) < entries.len()
    &&& ascending(ordered_keys(entries, order))
    &&& ordered_keys(entries, order).to_set() == members.dom()
    &&& forall|i: int|
        0 <= i < order.len() ==> members[entries[(#[trigger] order[i]) as int].0@]
            == entries[order[i] as int].1@
}

/// The entries of an object that count, by ascending key: of several entries
/// with one key the last.
pub(crate) fn member_order(entries: &Vec<(String, Json)>) -> (order: Vec<usize>)
    ensures
        orders(entries@, order@, entries_view(entries@)),
{
    let mut order: Vec<usize> = Vec::new();
    let mut n: usize = 0;
    assert(entries@.take(0) =~= Seq::empty());
    assert(ordered_keys(entries@, order@).to_set() =~= entries_view(entries@.take(0)).dom());
    while n < entries.len()
        invariant
            n <= entries@.len(),
            orders(entries@, order@, entries_view(entries@.take(n as int))),
        decreases entries@.len() - n,
    {
        let ghost members = entries_view(entries@.take(n as int));
        let ghost key = entries@[n as int].0@;
        let ghost keys = ordered_keys(entries@, order@);
        let ghost before = order@;
        assert(entries@.take(n + 1).drop_last() =~= entries@.take(n as int));
        assert(entries_view(entries@.take(n + 1)) == members.insert(key, entries@[n as int].1@));
        let mut at: usize = 0;
        while at < order.len() && is_before(entries[order[at]].0.as_str().as_bytes(), entries[n].0.as_str().as_bytes())
            invariant
                n < entries@.len(),
                at <= order@.len(),
                orders(entries@, order@, members),
                keys == ordered_keys(entries@, order@),
                key == entries@[n as int].0@,
                forall|i: int| 0 <= i < at ==> key_before(#[trigger] keys[i], key),
            decreases order@.len() - at,
        {
            assert(keys[at as int] == entries@[order@[at as int] as int].0@);
            at = at + 1;
        }
        if at < order.len() && same_text(entries[order[at]].0.as_str(), entries[n].0.as_str()) {
            order.set(at, n);
            assert(ordered_keys(entries@, order@) =~= keys);
            assert(keys.to_set().contains(keys[at as int]));
            assert(members.insert(key, entries@[n as int].1@).dom() =~= members.dom());
            assert forall|i: int| 0 <= i < order@.len() implies members.insert(
                key,
                entries@[n as int].1@,
            )[entries@[(#[trigger] order@[i]) as int].0@] == entries@[order@[i] as int].1@ by {
                if i != at {
                    assert(before[i] == order@[i]);
                    assert(keys[i] != keys[at as int]) by {
                        if i < at {
                            assert(key_before(keys[i], keys[at as int]));
                        } else {
                            assert(key_before(keys[at as int], keys[i]));
                        }
                        lemma_key_before_total(keys[i], keys[i]);
                    }
                }
            }
        } else {
            assert forall|i: int| at <= i < keys.len() implies key_before(key, #[trigger] keys[i]) by {
                assert(keys[at as int] == entries@[order@[at as int] as int].0@);
                lemma_key_before_total(keys[at as int], key);
                if i > at {
                    assert(key_before(keys[at as int], keys[i]));
                    lemma_key_before_transitive(key, keys[at as int], keys[i]);
                }
            }
            order.insert(at, n);
            assert(ordered_keys(entries@, order@) =~= keys.insert(at as int, key));
            proof {
                lemma_insert_ascending(keys, key, at as int);
            }
            assert(members.insert(key, entries@[n as int].1@).dom() =~= members.dom().insert(key));
            assert forall|i: int| 0 <= i < order@.len() implies members.insert(
                key,
                entries@[n as int].1@,
            )[entries@[(#[trigger] order@[i]) as int].0@] == entries@[order@[i] as int].1@ by {
                if i != at {
                    let j = if i < at { i } else { i - 1 };
                    assert(before[j] == order@[i]);
                    assert(keys[j] == entries@[before[j] as int].0@);
                    lemma_key_before_total(key, key);
                }
            }
            assert forall|i: int| 0 <= i < order@.len() implies (#[trigger] order@[i]) < entries@.len() by {
                if i != at {
                    let j = if i < at { i } else { i - 1 };
                    assert(before[j] == order@[i]);
                }
            }
        }
        n = n + 1;
    }
    assert(entries@.take(n as int) =~= entries@);
    order
}

/// An object's map has finitely many keys.
pub proof fn lemma_entries_view_finite(entries: Seq<(String, Json)>)
    ensures
        entries_view(entries).dom().finite(),
        entries_view(entries).dom().len() <= entries.len(),
    decreases entries.len(),
{
    if entries.len() > 0 {
        lemma_entries_view_finite(entries.drop_last());
    }
}

/// The text of a number.
fn number_text(number: &JsonNumber) -> (text: String)
    ensures
        text@ == number@.text(),
{
    match number {
        JsonNumber::Unsigned(n) => decimal_text(*n),
        JsonNumber::Negative(n) => signed_decimal_text(*n),
        JsonNumber::Float(text) => text.clone(),
    }
}

/// The bytes that stand for a JSON value, put behind `bytes`.
pub fn fingerprint_json(bytes: &mut Vec<u8>, json: &Json)
    ensures
        final(bytes)@ == old(bytes)@ + json_bytes(json@),
    decreases json,
{
    let ghost before = bytes@;
    match json {
        Json::Null => {
            bytes.push(0);
            assert(bytes@ =~= before + seq![0u8]);
        },
        Json::Bool(flag) => {
            bytes.push(1);
            bytes.push(if *flag { 1 } else { 0 });
            assert(bytes@ =~= before + json_bytes(json@));
        },
        Json::Number(number) => {
            bytes.push(2);
            let text = number_text(number);
            fingerprint_field(bytes, text.as_str().as_bytes());
            assert(bytes@ =~= before + json_bytes(json@));
        },
        Json::Text(text) => {
            bytes.push(3);
            fingerprint_field(bytes, text.as_str().as_bytes());
            assert(bytes@ =~= before + json_bytes(json@));
        },
        Json::Array(items) => {
            let ghost views = items_view(items@);
            bytes.push(4);
            append_u64(bytes, items.len() as u64);
            let ghost head = bytes@;
            let mut i: usize = 0;
            proof {
                lemma_items_view(items@);
            }
            assert(views.skip(0) =~= views);
            while i < items.len()
                invariant
                    i <= items@.len(),
                    *json == Json::Array(*items),
                    views == items_view(items@),
                    views.len() == items@.len(),
                    head + items_bytes(views) == bytes@ + items_bytes(views.skip(i as int)),
                decreases items@.len() - i,
            {
                assert(decreases_to!(*json => json->Array_0));
                assert(decreases_to!(items@ => items@[i as int]));
                let ghost so_far = bytes@;
                let ghost left = views.skip(i as int);
                proof {
                    lemma_items_view(items@);
                }
                fingerprint_json(bytes, &items[i]);
                assert(left[0] == items@[i as int]@);
                assert(left.skip(1) =~= views.skip(i + 1));
                assert(so_far + (json_bytes(left[0]) + items_bytes(left.skip(1))) =~= bytes@ + items_bytes(
                    left.skip(1),
                ));
                i = i + 1;
            }
            assert(views.skip(i as int) =~= Seq::empty());
            assert(bytes@ + Seq::<u8>::empty() =~= bytes@);
            assert(bytes@ =~= before + json_bytes(json@));
        },
        Json::Object(entries) => {
            let ghost members = entries_view(entries@);
            let order = member_order(entries);
            let ghost keys = ordered_keys(entries@, order@);
            proof {
                lemma_sorted_keys(keys);
                lemma_entries_view_finite(entries@);
                lemma_ascending_no_duplicates(keys);
                keys.unique_seq_to_set();
            }
            bytes.push(5);
            append_u64(bytes, order.len() as u64);
            let ghost head = bytes@;
            let mut i: usize = 0;
            assert(keys.skip(0) =~= keys);
            while i < order.len()
                invariant
                    i <= order@.len(),
                    *json == Json::Object(*entries),
                    members == entries_view(entries@),
                    members.dom().finite(),
                    orders(entries@, order@, members),
                    keys == ordered_keys(entries@, order@),
                    head + members_bytes(members, keys) == bytes@ + members_bytes(
                        members,
                        keys.skip(i as int),
                    ),
                decreases order@.len() - i,
            {
                let at: usize = order[i];
                assert(decreases_to!(*json => json->Object_0));
                assert(decreases_to!(entries@ => entries@[at as int]));
                assert(decreases_to!(entries@[at as int] => entries@[at as int].1));
                let ghost so_far = bytes@;
                let ghost left = keys.skip(i as int);
                assert(left[0] == keys[i as int]);
                assert(keys.to_set().contains(keys[i as int]));
                assert(left.skip(1) =~= keys.skip(i + 1));
                fingerprint_field(bytes, entries[at].0.as_str().as_bytes());
                let ghost with_key = bytes@;
                fingerprint_json(bytes, &entries[at].1);
                assert(so_far + (length_prefixed(encode_utf8(left[0])) + json_bytes(members[left[0]])
                    + members_bytes(members, left.skip(1))) =~= bytes@ + members_bytes(
                    members,
                    left.skip(1),
                ));
                i = i + 1;
            }
            assert(keys.skip(i as int) =~= Seq::empty());
            assert(bytes@ + Seq::<u8>::empty() =~= bytes@);
            assert(bytes@ =~= before + json_bytes(json@));
        },
    }
}

/// Ascending keys are distinct.
proof fn lemma_ascending_no_duplicates(keys: Seq<Seq<char>>)
    requires
        ascending(keys),
    ensures
        keys.no_duplicates(),
{
    assert forall|i: int, j: int| 0 <= i < keys.len() && 0 <= j < keys.len() && i != j implies keys[i]
        != keys[j] by {
        lemma_key_before_total(keys[i], keys[i]);
        if i < j {
            assert(key_before(keys[i], keys[j]));
        } else {
            assert(key_before(keys[j], keys[i]));
        }
    }
}

/// How many values fit in `width` bytes.
spec fn byte_capacity(width: nat) -> nat
    decreases width,
{
    if width == 0 {
        1
    } else {
        256 * byte_capacity((width - 1) as nat)
    }
}

/// Eight bytes hold every 64-bit value.
proof fn lemma_byte_capacity_eight()
    ensures
        byte_capacity(8) == 0x1_0000_0000_0000_0000,
{
    reveal_with_fuel(byte_capacity, 9);
}

/// A big-endian encoding is as long as its width, and different values that fit
/// have different encodings.
proof fn lemma_big_endian_injective(n: nat, m: nat, width: nat)
    ensures
        big_endian(n, width).len() == width,
        big_endian(m, width).len() == width,
        n < byte_capacity(width) && m < byte_capacity(width) && big_endian(n, width) == big_endian(m, width)
            ==> n == m,
    decreases width,
{
    if width > 0 {
        let less = (width - 1) as nat;
        lemma_big_endian_injective(n / 256, m / 256, less);
        if n < byte_capacity(width) && m < byte_capacity(width) && big_endian(n, width) == big_endian(m, width) {
            let a = big_endian(n, width);
            let b = big_endian(m, width);
            assert(a.last() == (n % 256) as u8);
            assert(b.last() == (m % 256) as u8);
            assert(a.drop_last() =~= big_endian(n / 256, less));
            assert(b.drop_last() =~= big_endian(m / 256, less));
        }
    }
}

/// Two byte strings with heads of one length agree exactly when their heads and
/// their tails do.
proof fn lemma_same_head(p: Seq<u8>, x: Seq<u8>, q: Seq<u8>, y: Seq<u8>)
    requires
        p.len() == q.len(),
        p + x == q + y,
    ensures
        p == q,
        x == y,
{
    assert(p =~= (p + x).take(p.len() as int));
    assert(q =~= (q + y).take(q.len() as int));
    assert(x =~= (p + x).skip(p.len() as int));
    assert(y =~= (q + y).skip(q.len() as int));
}

/// A number in eight bytes can be read back off the front.
proof fn lemma_u64_prefix(n: nat, x: Seq<u8>, m: nat, y: Seq<u8>)
    requires
        n <= u64::MAX,
        m <= u64::MAX,
        big_endian(n, 8) + x == big_endian(m, 8) + y,
    ensures
        n == m,
        x == y,
{
    lemma_byte_capacity_eight();
    lemma_big_endian_injective(n, m, 8);
    lemma_same_head(big_endian(n, 8), x, big_endian(m, 8), y);
}

/// A length-prefixed byte string can be read back off the front.
proof fn lemma_length_prefix(a: Seq<u8>, x: Seq<u8>, b: Seq<u8>, y: Seq<u8>)
    requires
        a.len() <= u64::MAX,
        b.len() <= u64::MAX,
        length_prefixed(a) + x == length_prefixed(b) + y,
    ensures
        a == b,
        x == y,
{
    assert(length_prefixed(a) + x =~= big_endian(a.len(), 8) + (a + x));
    assert(length_prefixed(b) + y =~= big_endian(b.len(), 8) + (b + y));
    lemma_u64_prefix(a.len(), a + x, b.len(), b + y);
    lemma_same_head(a, x, b, y);
}

/// A length-prefixed text can be read back off the front.
proof fn lemma_text_prefix(a: Seq<char>, x: Seq<u8>, b: Seq<char>, y: Seq<u8>)
    requires
        encode_utf8(a).len() <= u64::MAX,
        encode_utf8(b).len() <= u64::MAX,
        length_prefixed(encode_utf8(a)) + x == length_prefixed(encode_utf8(b)) + y,
    ensures
        a == b,
        x == y,
{
    lemma_length_prefix(encode_utf8(a), x, encode_utf8(b), y);
    lemma_utf8_injective(a, b);
}

/// A character that an integer is written with.
pub open spec fn integer_char(ch: char) -> bool {
    ch == '-' || '0' <= ch <= '9'
}

/// Whether a number is written as itself and nothing else: a number that is not
/// an integer is not written like one.
pub open spec fn plainly_written(number: NumberView) -> bool {
    match number {
        NumberView::Integer(_) => true,
        NumberView::Float(text) => exists|i: int| 0 <= i < text.len() && !integer_char(#[trigger] text[i]),
    }
}

/// Whether every length in a value fits in 64 bits, every object is finite, and
/// every number is plainly written. Values read from JSON text are of this form.
pub open spec fn encodable(json: JsonView) -> bool
    decreases json,
{
    match json {
        JsonView::Null => true,
        JsonView::Bool(_) => true,
        JsonView::Number(number) => plainly_written(number) && encode_utf8(number.text()).len() <= u64::MAX,
        JsonView::Text(text) => encode_utf8(text).len() <= u64::MAX,
        JsonView::Array(items) => {
            &&& items.len() <= u64::MAX
            &&& forall|i: int| 0 <= i < items.len() ==> encodable(#[trigger] items[i])
        },
        JsonView::Object(members) => {
            &&& members.dom().finite()
            &&& members.len() <= u64::MAX
            &&& forall|key: Seq<char>|
                members.dom().finite() && members.dom().contains(key) ==> encode_utf8(key).len() <= u64::MAX
                    && encodable(#[trigger] members[key])
        },
    }
}

/// Decimal texts are nonempty, consist of digits, and name one number each.
proof fn lemma_decimal_injective(n: nat, m: nat)
    ensures
        decimal(n).len() > 0,
        forall|i: int| 0 <= i < decimal(n).len() ==> '0' <= #[trigger] decimal(n)[i] <= '9',
        decimal(n) == decimal(m) ==> n == m,
    decreases n,
{
    assert forall|i: int| 0 <= i < decimal(n).len() implies '0' <= #[trigger] decimal(n)[i] <= '9' by {
        if n >= 10 {
            lemma_decimal_injective(n / 10, n / 10);
            let front = decimal(n / 10);
            if i < front.len() {
                assert(decimal(n)[i] == front[i]);
            }
        }
    }
    if n >= 10 {
        lemma_decimal_injective(n / 10, m / 10);
    }
    if decimal(n) == decimal(m) {
        let a = decimal(n);
        let b = decimal(m);
        assert(a.last() == digit(n as int % 10));
        assert(b.last() == digit(m as int % 10));
        assert(n % 10 == m % 10);
        if n >= 10 {
            assert(a.drop_last() =~= decimal(n / 10));
            if m < 10 {
                assert(b.len() == 1);
                assert(decimal(n / 10).len() > 0);
            } else {
                assert(b.drop_last() =~= decimal(m / 10));
            }
        } else if m >= 10 {
            lemma_decimal_injective((m / 10) as nat, 0);
            assert(decimal(m / 10).len() > 0);
            assert(a.len() == 1);
        }
    }
}

/// A number can be told from the text it is written with.
pub proof fn lemma_number_text_injective(a: NumberView, b: NumberView)
    requires
        plainly_written(a),
        plainly_written(b),
        a.text() == b.text(),
    ensures
        a == b,
{
    match (a, b) {
        (NumberView::Integer(n), NumberView::Integer(m)) => {
            let p = if n < 0 { (-n) as nat } else { n as nat };
            let q = if m < 0 { (-m) as nat } else { m as nat };
            lemma_decimal_injective(p, q);
            lemma_decimal_injective(q, p);
            if n < 0 {
                assert(signed_decimal(n)[0] == '-');
                assert(signed_decimal(n).skip(1) =~= decimal(p));
            }
            if m < 0 {
                assert(signed_decimal(m)[0] == '-');
                assert(signed_decimal(m).skip(1) =~= decimal(q));
            }
            if n >= 0 {
                assert('0' <= decimal(p)[0]);
            }
            if m >= 0 {
                assert('0' <= decimal(q)[0]);
            }
        },
        (NumberView::Float(_), NumberView::Float(_)) => {},
        (NumberView::Integer(n), NumberView::Float(text)) => {
            lemma_integer_text_chars(n);
        },
        (NumberView::Float(text), NumberView::Integer(n)) => {
            lemma_integer_text_chars(n);
        },
    }
}

/// An integer is written with digits and a minus sign.
proof fn lemma_integer_text_chars(n: int)
    ensures
        forall|i: int| 0 <= i < signed_decimal(n).len() ==> integer_char(#[trigger] signed_decimal(n)[i]),
{
    let p = if n < 0 { (-n) as nat } else { n as nat };
    lemma_decimal_injective(p, p);
    assert forall|i: int| 0 <= i < signed_decimal(n).len() implies integer_char(
        #[trigger] signed_decimal(n)[i],
    ) by {
        if n < 0 {
            if i > 0 {
                assert(signed_decimal(n)[i] == decimal(p)[i - 1]);
            }
        } else {
            assert(signed_decimal(n)[i] == decimal(p)[i]);
        }
    }
}

/// The bytes of a value can be read back off the front: no value's bytes begin
/// with another's.
proof fn lemma_json_prefix(a: JsonView, x: Seq<u8>, b: JsonView, y: Seq<u8>)
    requires
        encodable(a),
        encodable(b),
        json_bytes(a) + x == json_bytes(b) + y,
    ensures
        a == b,
        x == y,
    decreases a, 0nat,
{
    let left = json_bytes(a) + x;
    let right = json_bytes(b) + y;
    assert(json_bytes(a).len() > 0 && json_bytes(b).len() > 0);
    assert(left[0] == json_bytes(a)[0]);
    assert(right[0] == json_bytes(b)[0]);
    match (a, b) {
        (JsonView::Null, JsonView::Null) => {
            lemma_same_head(json_bytes(a), x, json_bytes(b), y);
        },
        (JsonView::Bool(p), JsonView::Bool(q)) => {
            lemma_same_head(json_bytes(a), x, json_bytes(b), y);
            assert(json_bytes(a)[1] == json_bytes(b)[1]);
        },
        (JsonView::Number(p), JsonView::Number(q)) => {
            assert(left =~= seq![2u8] + (length_prefixed(encode_utf8(p.text())) + x));
            assert(right =~= seq![2u8] + (length_prefixed(encode_utf8(q.text())) + y));
            lemma_same_head(
                seq![2u8],
                length_prefixed(encode_utf8(p.text())) + x,
                seq![2u8],
                length_prefixed(encode_utf8(q.text())) + y,
            );
            lemma_text_prefix(p.text(), x, q.text(), y);
            lemma_number_text_injective(p, q);
        },
        (JsonView::Text(p), JsonView::Text(q)) => {
            assert(left =~= seq![3u8] + (length_prefixed(encode_utf8(p)) + x));
            assert(right =~= seq![3u8] + (length_prefixed(encode_utf8(q)) + y));
            lemma_same_head(
                seq![3u8],
                length_prefixed(encode_utf8(p)) + x,
                seq![3u8],
                length_prefixed(encode_utf8(q)) + y,
            );
            lemma_text_prefix(p, x, q, y);
        },
        (JsonView::Array(p), JsonView::Array(q)) => {
            let l = items_bytes(p) + x;
            let r = items_bytes(q) + y;
            assert(left =~= seq![4u8] + (big_endian(p.len(), 8) + l));
            assert(right =~= seq![4u8] + (big_endian(q.len(), 8) + r));
            lemma_same_head(seq![4u8], big_endian(p.len(), 8) + l, seq![4u8], big_endian(q.len(), 8) + r);
            lemma_u64_prefix(p.len(), l, q.len(), r);
            lemma_items_prefix(p, x, q, y);
        },
        (JsonView::Object(p), JsonView::Object(q)) => {
            let ks = sorted_keys(p.dom());
            let ls = sorted_keys(q.dom());
            let l = members_bytes(p, ks) + x;
            let r = members_bytes(q, ls) + y;
            assert(left =~= seq![5u8] + (big_endian(p.len(), 8) + l));
            assert(right =~= seq![5u8] + (big_endian(q.len(), 8) + r));
            lemma_same_head(seq![5u8], big_endian(p.len(), 8) + l, seq![5u8], big_endian(q.len(), 8) + r);
            lemma_u64_prefix(p.len(), l, q.len(), r);
            lemma_sorted_keys_exist(p.dom());
            lemma_sorted_keys_exist(q.dom());
            lemma_ascending_no_duplicates(ks);
            lemma_ascending_no_duplicates(ls);
            ks.unique_seq_to_set();
            ls.unique_seq_to_set();
            assert forall|i: int| 0 <= i < ks.len() implies p.dom().contains(#[trigger] ks[i]) by {
                assert(ks.to_set().contains(ks[i]));
            }
            assert forall|i: int| 0 <= i < ls.len() implies q.dom().contains(#[trigger] ls[i]) by {
                assert(ls.to_set().contains(ls[i]));
            }
            lemma_members_prefix(p, ks, x, q, ls, y);
            assert(p.dom() =~= q.dom());
            assert forall|key: Seq<char>| p.dom().contains(key) implies p[key] == q[key] by {
                assert(ks.to_set().contains(key));
                let i = choose|i: int| 0 <= i < ks.len() && ks[i] == key;
                assert(p[ks[i]] == q[ks[i]]);
            }
            assert(p =~= q);
        },
        _ => {},
    }
}

/// Items can be read back off the front once their number is known.
proof fn lemma_items_prefix(p: Seq<JsonView>, x: Seq<u8>, q: Seq<JsonView>, y: Seq<u8>)
    requires
        p.len() == q.len(),
        forall|i: int| 0 <= i < p.len() ==> encodable(#[trigger] p[i]),
        forall|i: int| 0 <= i < q.len() ==> encodable(#[trigger] q[i]),
        items_bytes(p) + x == items_bytes(q) + y,
    ensures
        p == q,
        x == y,
    decreases p, p.len(),
{
    if p.len() == 0 {
        assert(p =~= q);
        lemma_same_head(items_bytes(p), x, items_bytes(q), y);
    } else {
        let l = items_bytes(p.skip(1)) + x;
        let r = items_bytes(q.skip(1)) + y;
        assert(items_bytes(p) + x =~= json_bytes(p[0]) + l);
        assert(items_bytes(q) + y =~= json_bytes(q[0]) + r);
        lemma_json_prefix(p[0], l, q[0], r);
        lemma_items_prefix(p.skip(1), x, q.skip(1), y);
        assert(p =~= seq![p[0]] + p.skip(1));
        assert(q =~= seq![q[0]] + q.skip(1));
    }
}

/// Members can be read back off the front once their number is known.
proof fn lemma_members_prefix(
    p: Map<Seq<char>, JsonView>,
    ks: Seq<Seq<char>>,
    x: Seq<u8>,
    q: Map<Seq<char>, JsonView>,
    ls: Seq<Seq<char>>,
    y: Seq<u8>,
)
    requires
        encodable(JsonView::Object(p)),
        encodable(JsonView::Object(q)),
        ks.len() == ls.len(),
        forall|i: int| 0 <= i < ks.len() ==> p.dom().contains(#[trigger] ks[i]),
        forall|i: int| 0 <= i < ls.len() ==> q.dom().contains(#[trigger] ls[i]),
        members_bytes(p, ks) + x == members_bytes(q, ls) + y,
    ensures
        ks == ls,
        x == y,
        forall|i: int| 0 <= i < ks.len() ==> p[#[trigger] ks[i]] == q[ks[i]],
    decreases p, ks.len(),
{
    if ks.len() == 0 {
        assert(ks =~= ls);
        lemma_same_head(members_bytes(p, ks), x, members_bytes(q, ls), y);
    } else {
        let k = ks[0];
        let m = ls[0];
        let l = members_bytes(p, ks.skip(1)) + x;
        let r = members_bytes(q, ls.skip(1)) + y;
        assert(p.dom().contains(k) && q.dom().contains(m));
        assert(encodable(p[k]) && encodable(q[m]));
        assert(members_bytes(p, ks) + x =~= length_prefixed(encode_utf8(k)) + (json_bytes(p[k]) + l));
        assert(members_bytes(q, ls) + y =~= length_prefixed(encode_utf8(m)) + (json_bytes(q[m]) + r));
        lemma_text_prefix(k, json_bytes(p[k]) + l, m, json_bytes(q[m]) + r);
        assert(decreases_to!(p => p[k]));
        lemma_json_prefix(p[k], l, q[m], r);
        lemma_members_prefix(p, ks.skip(1), x, q, ls.skip(1), y);
        assert(ks =~= seq![k] + ks.skip(1));
        assert(ls =~= seq![m] + ls.skip(1));
        assert forall|i: int| 0 <= i < ks.len() implies p[#[trigger] ks[i]] == q[ks[i]] by {
            if i > 0 {
                assert(ks.skip(1)[i - 1] == ks[i]);
            }
        }
    }
}

/// Values with the same bytes are the same value, whatever the order in which
/// their objects were written.
pub proof fn law_json_bytes_injective(a: JsonView, b: JsonView)
    requires
        encodable(a),
        encodable(b),
    ensures
        json_bytes(a) == json_bytes(b) <==> a == b,
{
    if json_bytes(a) == json_bytes(b) {
        lemma_json_prefix(a, Seq::empty(), b, Seq::empty());
    }
}

/// What a queued write is: who writes it, where, and what it changes.
pub struct WriteIdentity {
    pub user_id: Seq<char>,
    pub table: Seq<char>,
    pub id: Seq<char>,
    pub operation: Seq<char>,
    pub base_version: Option<i64>,
    pub payload: JsonView,
}

/// The bytes of an optional row version.
pub open spec fn version_bytes(version: Option<i64>) -> Seq<u8> {
    match version {
        Some(version) => seq![1u8] + big_endian(twos_complement(version as int), 8),
        None => seq![0u8],
    }
}

/// The bytes a write is fingerprinted from.
pub open spec fn identity_bytes(write: WriteIdentity) -> Seq<u8> {
    encode_utf8("fiducia-admin-sync-write-v1\0"@) + length_prefixed(encode_utf8(write.user_id))
        + length_prefixed(encode_utf8(write.table)) + length_prefixed(encode_utf8(write.id))
        + length_prefixed(encode_utf8(write.operation)) + version_bytes(write.base_version) + json_bytes(
        write.payload,
    )
}

/// Whether every length in a write fits in 64 bits.
pub open spec fn identity_encodable(write: WriteIdentity) -> bool {
    &&& encode_utf8(write.user_id).len() <= u64::MAX
    &&& encode_utf8(write.table).len() <= u64::MAX
    &&& encode_utf8(write.id).len() <= u64::MAX
    &&& encode_utf8(write.operation).len() <= u64::MAX
    &&& encodable(write.payload)
}

/// The bytes of an optional row version can be read back off the front.
proof fn lemma_version_prefix(a: Option<i64>, x: Seq<u8>, b: Option<i64>, y: Seq<u8>)
    requires
        version_bytes(a) + x == version_bytes(b) + y,
    ensures
        a == b,
        x == y,
{
    assert((version_bytes(a) + x)[0] == version_bytes(a)[0]);
    assert((version_bytes(b) + y)[0] == version_bytes(b)[0]);
    match (a, b) {
        (Some(v), Some(w)) => {
            let n = twos_complement(v as int);
            let m = twos_complement(w as int);
            assert(version_bytes(a) + x =~= seq![1u8] + (big_endian(n, 8) + x));
            assert(version_bytes(b) + y =~= seq![1u8] + (big_endian(m, 8) + y));
            lemma_same_head(seq![1u8], big_endian(n, 8) + x, seq![1u8], big_endian(m, 8) + y);
            lemma_u64_prefix(n, x, m, y);
        },
        (None, None) => {
            lemma_same_head(version_bytes(a), x, version_bytes(b), y);
        },
        _ => {},
    }
}

/// Concatenation is associative.
proof fn lemma_associative(a: Seq<u8>, b: Seq<u8>, c: Seq<u8>)
    ensures
        (a + b) + c == a + (b + c),
{
    assert((a + b) + c =~= a + (b + c));
}

/// The bytes of a write, grouped from the end.
proof fn lemma_identity_bytes_grouped(write: WriteIdentity)
    ensures
        identity_bytes(write) == encode_utf8("fiducia-admin-sync-write-v1\0"@) + (length_prefixed(
            encode_utf8(write.user_id),
        ) + (length_prefixed(encode_utf8(write.table)) + (length_prefixed(encode_utf8(write.id)) + (
        length_prefixed(encode_utf8(write.operation)) + (version_bytes(write.base_version) + json_bytes(
            write.payload,
        )))))),
{
    let t = encode_utf8("fiducia-admin-sync-write-v1\0"@);
    let u = length_prefixed(encode_utf8(write.user_id));
    let v = length_prefixed(encode_utf8(write.table));
    let w = length_prefixed(encode_utf8(write.id));
    let z = length_prefixed(encode_utf8(write.operation));
    let n = version_bytes(write.base_version);
    let j = json_bytes(write.payload);
    lemma_associative(t + u + v + w + z, n, j);
    lemma_associative(t + u + v + w, z, n + j);
    lemma_associative(t + u + v, w, z + (n + j));
    lemma_associative(t + u, v, w + (z + (n + j)));
    lemma_associative(t, u, v + (w + (z + (n + j))));
}

/// A fingerprint's bytes bind the whole write: two writes with the same bytes
/// have the same author, table, row, operation, base version and payload.
pub proof fn law_identity_bytes_injective(a: WriteIdentity, b: WriteIdentity)
    requires
        identity_encodable(a),
        identity_encodable(b),
    ensures
        identity_bytes(a) == identity_bytes(b) <==> a == b,
{
    if identity_bytes(a) == identity_bytes(b) {
        let tag = encode_utf8("fiducia-admin-sync-write-v1\0"@);
        let a5 = json_bytes(a.payload);
        let b5 = json_bytes(b.payload);
        let a4 = version_bytes(a.base_version) + a5;
        let b4 = version_bytes(b.base_version) + b5;
        let a3 = length_prefixed(encode_utf8(a.operation)) + a4;
        let b3 = length_prefixed(encode_utf8(b.operation)) + b4;
        let a2 = length_prefixed(encode_utf8(a.id)) + a3;
        let b2 = length_prefixed(encode_utf8(b.id)) + b3;
        let a1 = length_prefixed(encode_utf8(a.table)) + a2;
        let b1 = length_prefixed(encode_utf8(b.table)) + b2;
        let a0 = length_prefixed(encode_utf8(a.user_id)) + a1;
        let b0 = length_prefixed(encode_utf8(b.user_id)) + b1;
        lemma_identity_bytes_grouped(a);
        lemma_identity_bytes_grouped(b);
        lemma_same_head(tag, a0, tag, b0);
        lemma_text_prefix(a.user_id, a1, b.user_id, b1);
        lemma_text_prefix(a.table, a2, b.table, b2);
        lemma_text_prefix(a.id, a3, b.id, b3);
        lemma_text_prefix(a.operation, a4, b.operation, b4);
        lemma_version_prefix(a.base_version, a5, b.base_version, b5);
        law_json_bytes_injective(a.payload, b.payload);
    }
}

/// The bytes a write is fingerprinted from.
pub fn write_bytes(
    user_id: &str,
    table: &str,
    id: &str,
    operation: &str,
    base_version: Option<i64>,
    payload: &Json,
) -> (bytes: Vec<u8>)
    ensures
        bytes@ == identity_bytes(
            (WriteIdentity {
                user_id: user_id@,
                table: table@,
                id: id@,
                operation: operation@,
                base_version,
                payload: payload@,
            }),
        ),
{
    let mut bytes: Vec<u8> = Vec::new();
    append_bytes(&mut bytes, "fiducia-admin-sync-write-v1\0".as_bytes());
    fingerprint_field(&mut bytes, user_id.as_bytes());
    fingerprint_field(&mut bytes, table.as_bytes());
    fingerprint_field(&mut bytes, id.as_bytes());
    fingerprint_field(&mut bytes, operation.as_bytes());
    let ghost before = bytes@;
    match base_version {
        Some(version) => {
            bytes.push(1);
            append_u64(&mut bytes, twos_complement_of(version));
            assert(bytes@ =~= before + version_bytes(base_version));
        },
        None => {
            bytes.push(0);
            assert(bytes@ =~= before + version_bytes(base_version));
        },
    }
    fingerprint_json(&mut bytes, payload);
    assert(Seq::<u8>::empty() + encode_utf8("fiducia-admin-sync-write-v1\0"@) =~= encode_utf8(
        "fiducia-admin-sync-write-v1\0"@,
    ));
    bytes
}

} // verus!
