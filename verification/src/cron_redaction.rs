//! What operators may see of a cron node's answer.
//!
//! Function source, environment values, entry commands, container settings,
//! requests, headers, bodies and payloads are left out at every depth, and so
//! are destinations. A target is put together anew from its kind; only the UUID
//! of a function stays with it.

use vstd::prelude::*;

use crate::fingerprint::lemma_entries_view_finite;
use crate::json::{entries_view, items_view, lemma_items_view, text_field, Fields, Json, JsonNumber, JsonView};
use crate::sync::{parse_uuid, uuid_number};
use crate::text::{ascii_lowered, same_text, to_ascii_lowercase};

verus! {

/// Whether an entry is left out of what operators see, whatever the case of its
/// letters.
pub open spec fn withheld(key: Seq<char>) -> bool {
    let name = ascii_lowered(key);
    ||| name == "source"@
    ||| name == "source_code"@
    ||| name == "env"@
    ||| name == "env_vars"@
    ||| name == "environment"@
    ||| name == "environment_values"@
    ||| name == "environment_variables"@
    ||| name == "entry"@
    ||| name == "entry_command"@
    ||| name == "entry_commands"@
    ||| name == "entry_point"@
    ||| name == "entrypoint"@
    ||| name == "container"@
    ||| name == "containers"@
    ||| name == "container_settings"@
    ||| name == "request"@
    ||| name == "requests"@
    ||| name == "request_headers"@
    ||| name == "request_body"@
    ||| name == "invocation_request"@
    ||| name == "invocation_requests"@
    ||| name == "header"@
    ||| name == "headers"@
    ||| name == "body"@
    ||| name == "bodies"@
    ||| name == "payload"@
    ||| name == "payloads"@
    ||| name == "invocation_payload"@
    ||| name == "invocation_payloads"@
    ||| name == "url"@
    ||| name == "webhook_url"@
    ||| name == "endpoint"@
    ||| name == "grpc_endpoint"@
    ||| name == "destination"@
    ||| name == "destinations"@
}

/// Whether an entry holds a schedule's target.
pub open spec fn names_target(key: Seq<char>) -> bool {
    ascii_lowered(key) == "target"@
}

/// Whether an entry is left out of what operators see.
fn is_withheld(key: &str) -> (result: bool)
    ensures
        result == withheld(key@),
{
    let name = to_ascii_lowercase(key);
    let name = name.as_str();
    same_text(name, "source") || same_text(name, "source_code") || same_text(name, "env")
        || same_text(name, "env_vars") || same_text(name, "environment") || same_text(name, "environment_values")
        || same_text(name, "environment_variables") || same_text(name, "entry") || same_text(name, "entry_command")
        || same_text(name, "entry_commands") || same_text(name, "entry_point") || same_text(name, "entrypoint")
        || same_text(name, "container") || same_text(name, "containers") || same_text(name, "container_settings")
        || same_text(name, "request") || same_text(name, "requests") || same_text(name, "request_headers")
        || same_text(name, "request_body") || same_text(name, "invocation_request")
        || same_text(name, "invocation_requests") || same_text(name, "header") || same_text(name, "headers")
        || same_text(name, "body") || same_text(name, "bodies") || same_text(name, "payload")
        || same_text(name, "payloads") || same_text(name, "invocation_payload")
        || same_text(name, "invocation_payloads") || same_text(name, "url") || same_text(name, "webhook_url")
        || same_text(name, "endpoint") || same_text(name, "grpc_endpoint") || same_text(name, "destination")
        || same_text(name, "destinations")
}

/// Whether an entry holds a schedule's target.
fn is_target(key: &str) -> (result: bool)
    ensures
        result == names_target(key@),
{
    same_text(to_ascii_lowercase(key).as_str(), "target")
}

/// The kind of a schedule's target.
pub open spec fn target_kind(target: JsonView) -> Seq<char> {
    match text_field(target, "kind"@) {
        Some(kind) => kind,
        None => "unknown"@,
    }
}

/// The function that a target of that kind calls, where it is named by a UUID.
pub open spec fn shown_function(target: JsonView) -> Option<Seq<char>> {
    match text_field(target, "function_id"@) {
        Some(id) => if target_kind(target) == "function"@ && uuid_number(id) is Some {
            Some(id)
        } else {
            None
        },
        None => None,
    }
}

/// What is shown of a target: its kind, and the UUID of a function.
pub open spec fn shown_target(target: JsonView) -> JsonView {
    let kind = Map::<Seq<char>, JsonView>::empty().insert("kind"@, JsonView::Text(target_kind(target)));
    match shown_function(target) {
        Some(id) => JsonView::Object(kind.insert("function_id"@, JsonView::Text(id))),
        None => JsonView::Object(kind),
    }
}

/// The kind of a schedule's target.
pub fn kind_of(target: &Json) -> (kind: &str)
    ensures
        kind@ == target_kind(target@),
{
    match target.get_str("kind") {
        Some(kind) => kind,
        None => "unknown",
    }
}

/// The function that a target of that kind calls, where it is named by a UUID.
pub fn function_of(target: &Json) -> (id: Option<&str>)
    ensures
        id.deep_view() == shown_function(target@),
{
    match target.get_str("function_id") {
        Some(id) => if same_text(kind_of(target), "function") && parse_uuid(id).is_some() {
            Some(id)
        } else {
            None
        },
        None => None,
    }
}

/// What is shown of a target.
pub fn show_target(target: &Json) -> (shown: Json)
    ensures
        shown@ == shown_target(target@),
{
    let fields = Fields::new().with("kind", Json::Text(kind_of(target).to_owned()));
    match function_of(target) {
        Some(id) => fields.with("function_id", Json::Text(id.to_owned())).done(),
        None => fields.done(),
    }
}

/// What is shown of an answer: withheld entries are left out at every depth, and
/// every target is put together anew.
pub open spec fn redacted(json: JsonView) -> JsonView
    decreases json,
{
    match json {
        JsonView::Array(items) => JsonView::Array(
            Seq::new(
                items.len(),
                |i: int|
                    if 0 <= i < items.len() {
                        redacted(items[i])
                    } else {
                        JsonView::Null
                    },
            ),
        ),
        JsonView::Object(members) => JsonView::Object(
            Map::new(
                |key: Seq<char>| members.dom().contains(key) && !withheld(key),
                |key: Seq<char>|
                    if names_target(key) {
                        shown_target(members[key])
                    } else if members.dom().finite() && members.dom().contains(key) {
                        redacted(members[key])
                    } else {
                        JsonView::Null
                    },
            ),
        ),
        _ => json,
    }
}

/// One entry more in an object is one more in what is shown of it, unless it is
/// withheld.
proof fn lemma_redacted_insert(members: Map<Seq<char>, JsonView>, key: Seq<char>, value: JsonView)
    requires
        members.dom().finite(),
    ensures
        redacted(JsonView::Object(members.insert(key, value))) == JsonView::Object(
            if withheld(key) {
                redacted(JsonView::Object(members))->Object_0
            } else {
                redacted(JsonView::Object(members))->Object_0.insert(
                    key,
                    if names_target(key) {
                        shown_target(value)
                    } else {
                        redacted(value)
                    },
                )
            },
        ),
{
    let shown = redacted(JsonView::Object(members))->Object_0;
    let wider = redacted(JsonView::Object(members.insert(key, value)))->Object_0;
    if withheld(key) {
        assert(wider =~= shown);
    } else if names_target(key) {
        assert(wider =~= shown.insert(key, shown_target(value)));
    } else {
        assert(wider =~= shown.insert(key, redacted(value)));
    }
}

/// What is shown of an answer.
fn shown_copy(json: &Json) -> (shown: Json)
    ensures
        shown@ == redacted(json@),
    decreases json,
{
    match json {
        Json::Null => Json::Null,
        Json::Bool(flag) => Json::Bool(*flag),
        Json::Number(JsonNumber::Unsigned(n)) => Json::Number(JsonNumber::Unsigned(*n)),
        Json::Number(JsonNumber::Negative(n)) => Json::Number(JsonNumber::Negative(*n)),
        Json::Number(JsonNumber::Float(text)) => Json::Number(JsonNumber::Float(text.clone())),
        Json::Text(text) => Json::Text(text.clone()),
        Json::Array(items) => {
            let mut shown: Vec<Json> = Vec::new();
            let mut i: usize = 0;
            while i < items.len()
                invariant
                    i <= items@.len(),
                    *json == Json::Array(*items),
                    shown@.len() == i,
                    forall|j: int| 0 <= j < i ==> (#[trigger] shown@[j])@ == redacted(items@[j]@),
                decreases items@.len() - i,
            {
                assert(decreases_to!(*json => json->Array_0));
                assert(decreases_to!(items@ => items@[i as int]));
                shown.push(shown_copy(&items[i]));
                i = i + 1;
            }
            proof {
                lemma_items_view(items@);
                lemma_items_view(shown@);
                assert(items_view(shown@) =~= redacted(json@)->Array_0);
            }
            Json::Array(shown)
        },
        Json::Object(entries) => {
            let mut shown: Vec<(String, Json)> = Vec::new();
            let mut i: usize = 0;
            proof {
                assert(entries_view(shown@) =~= redacted(
                    JsonView::Object(entries_view(entries@.take(0))),
                )->Object_0);
            }
            while i < entries.len()
                invariant
                    i <= entries@.len(),
                    *json == Json::Object(*entries),
                    JsonView::Object(entries_view(shown@)) == redacted(
                        JsonView::Object(entries_view(entries@.take(i as int))),
                    ),
                decreases entries@.len() - i,
            {
                assert(decreases_to!(*json => json->Object_0));
                assert(decreases_to!(entries@ => entries@[i as int]));
                assert(decreases_to!(entries@[i as int] => entries@[i as int].1));
                proof {
                    let front = entries@.take(i as int);
                    lemma_entries_view_finite(front);
                    assert(entries@.take(i + 1).drop_last() =~= front);
                    lemma_redacted_insert(
                        entries_view(front),
                        entries@[i as int].0@,
                        entries@[i as int].1@,
                    );
                }
                let ghost before = shown@;
                let key = &entries[i].0;
                if !is_withheld(key.as_str()) {
                    let value = if is_target(key.as_str()) {
                        show_target(&entries[i].1)
                    } else {
                        shown_copy(&entries[i].1)
                    };
                    shown.push((key.clone(), value));
                    assert(shown@.drop_last() =~= before);
                }
                i = i + 1;
            }
            assert(entries@.take(i as int) =~= entries@);
            Json::Object(shown)
        },
    }
}

/// Whether two targets may look the same: they are of one kind, and functions are
/// the same function.
pub open spec fn same_target(a: JsonView, b: JsonView) -> bool {
    &&& target_kind(a) == target_kind(b)
    &&& target_kind(a) == "function"@ ==> text_field(a, "function_id"@) == text_field(b, "function_id"@)
}

/// Whether two answers differ in nothing but withheld entries and, below their
/// targets, in anything but the kind and the function.
pub open spec fn same_but_withheld(a: JsonView, b: JsonView) -> bool
    decreases a,
{
    match (a, b) {
        (JsonView::Array(xs), JsonView::Array(ys)) => {
            &&& xs.len() == ys.len()
            &&& forall|i: int| 0 <= i < xs.len() ==> same_but_withheld(#[trigger] xs[i], ys[i])
        },
        (JsonView::Object(xs), JsonView::Object(ys)) => {
            &&& xs.dom().finite()
            &&& ys.dom().finite()
            &&& forall|key: Seq<char>|
                !withheld(key) ==> (#[trigger] xs.dom().contains(key) <==> ys.dom().contains(key))
            &&& forall|key: Seq<char>|
                xs.dom().finite() && xs.dom().contains(key) && !withheld(key) ==> if names_target(key) {
                    same_target(#[trigger] xs[key], ys[key])
                } else {
                    same_but_withheld(xs[key], ys[key])
                }
        },
        _ => a == b,
    }
}

/// Whatever a target holds besides its kind and a function's UUID, such as the
/// address of a webhook, a gRPC service or a queue, nothing of it is shown.
pub proof fn law_targets_are_put_together_anew(a: JsonView, b: JsonView)
    requires
        same_target(a, b),
    ensures
        shown_target(a) == shown_target(b),
{
}

/// Answers that differ in nothing but withheld entries and the insides of their
/// targets are shown alike, at every depth.
pub proof fn law_withheld_entries_are_never_shown(a: JsonView, b: JsonView)
    requires
        same_but_withheld(a, b),
    ensures
        redacted(a) == redacted(b),
    decreases a,
{
    match (a, b) {
        (JsonView::Array(xs), JsonView::Array(ys)) => {
            assert forall|i: int| 0 <= i < xs.len() implies redacted(#[trigger] xs[i]) == redacted(ys[i]) by {
                law_withheld_entries_are_never_shown(xs[i], ys[i]);
            }
            assert(redacted(a)->Array_0 =~= redacted(b)->Array_0);
        },
        (JsonView::Object(xs), JsonView::Object(ys)) => {
            let shown = redacted(a)->Object_0;
            let other = redacted(b)->Object_0;
            assert forall|key: Seq<char>| #[trigger] shown.dom().contains(key) implies shown[key] == other[key] by {
                assert(xs.dom().contains(key) && ys.dom().contains(key));
                if names_target(key) {
                    law_targets_are_put_together_anew(xs[key], ys[key]);
                } else {
                    law_withheld_entries_are_never_shown(xs[key], ys[key]);
                }
            }
            assert(shown =~= other);
        },
        _ => {},
    }
}

/// Whether a value holds nothing that is withheld: no such entry at any depth,
/// and no target with more than what is shown of it.
pub open spec fn presentable(json: JsonView) -> bool
    decreases json,
{
    match json {
        JsonView::Array(items) => forall|i: int| 0 <= i < items.len() ==> presentable(#[trigger] items[i]),
        JsonView::Object(members) => forall|key: Seq<char>|
            members.dom().finite() && members.dom().contains(key) ==> {
                &&& !withheld(key)
                &&& if names_target(key) {
                    #[trigger] members[key] == shown_target(members[key])
                } else {
                    presentable(members[key])
                }
            },
        _ => true,
    }
}

/// What is shown of an answer holds nothing that is withheld.
pub proof fn law_what_is_shown_is_presentable(json: JsonView)
    ensures
        presentable(redacted(json)),
    decreases json,
{
    match json {
        JsonView::Array(items) => {
            assert forall|i: int| 0 <= i < items.len() implies presentable(
                #[trigger] redacted(json)->Array_0[i],
            ) by {
                law_what_is_shown_is_presentable(items[i]);
            }
        },
        JsonView::Object(members) => {
            let shown = redacted(json)->Object_0;
            assert forall|key: Seq<char>| shown.dom().finite() && shown.dom().contains(key) implies {
                &&& !withheld(key)
                &&& if names_target(key) {
                    #[trigger] shown[key] == shown_target(shown[key])
                } else {
                    presentable(shown[key])
                }
            } by {
                if names_target(key) {
                    lemma_shown_target_stays(members[key]);
                } else if members.dom().finite() {
                    law_what_is_shown_is_presentable(members[key]);
                }
            }
        },
        _ => {},
    }
}

/// What is shown of a target is shown of it again.
pub proof fn lemma_shown_target_stays(target: JsonView)
    ensures
        shown_target(shown_target(target)) == shown_target(target),
        target_kind(shown_target(target)) == target_kind(target),
{
    let shown = shown_target(target);
    reveal_strlit("kind");
    reveal_strlit("function_id");
    assert("kind"@.len() != "function_id"@.len());
    assert(target_kind(shown) == target_kind(target));
    assert(shown_function(shown) == shown_function(target));
}

/// The entry `target` is a target, and not withheld as a whole.
pub proof fn lemma_target_is_a_target()
    ensures
        names_target("target"@),
        !withheld("target"@),
{
    reveal_strlit("target");
    reveal_strlit("source");
    reveal_strlit("source_code");
    reveal_strlit("env");
    reveal_strlit("env_vars");
    reveal_strlit("environment");
    reveal_strlit("environment_values");
    reveal_strlit("environment_variables");
    reveal_strlit("entry");
    reveal_strlit("entry_command");
    reveal_strlit("entry_commands");
    reveal_strlit("entry_point");
    reveal_strlit("entrypoint");
    reveal_strlit("container");
    reveal_strlit("containers");
    reveal_strlit("container_settings");
    reveal_strlit("request");
    reveal_strlit("requests");
    reveal_strlit("request_headers");
    reveal_strlit("request_body");
    reveal_strlit("invocation_request");
    reveal_strlit("invocation_requests");
    reveal_strlit("header");
    reveal_strlit("headers");
    reveal_strlit("body");
    reveal_strlit("bodies");
    reveal_strlit("payload");
    reveal_strlit("payloads");
    reveal_strlit("invocation_payload");
    reveal_strlit("invocation_payloads");
    reveal_strlit("url");
    reveal_strlit("webhook_url");
    reveal_strlit("endpoint");
    reveal_strlit("grpc_endpoint");
    reveal_strlit("destination");
    reveal_strlit("destinations");
    let name = ascii_lowered("target"@);
    assert(name =~= "target"@);
    assert(name[0] == 't');
    assert("source"@[0] == 's' && "header"@[0] == 'h' && "bodies"@[0] == 'b');
}

/// What is shown of an answer: the answer without source, environment, entry,
/// container, request, header, body, payload and destination entries, and with
/// every target put together anew from its kind.
pub fn redact(json: Json) -> (shown: Json)
    ensures
        shown@ == redacted(json@),
{
    shown_copy(&json)
}

} // verus!
