//! What the cron pages show: values that differ read differently, each cell is of
//! its own field, and each refusal has its own reason.

use vstd::prelude::*;
use vstd::utf8::encode_utf8;

use crate::cron_debug::{
    answer_outcome, base_in_force, cell_text, endpoint_url, extended_url, history_limit, history_path, lookup_view,
    org_acceptable, scalar_text, schedule_acceptable, schedules_path, shows_run, shows_schedule, target_text, typed,
    url_with_pair, CronDebugError, RunRow, ScheduleRow,
};
use crate::cron_redaction::{names_target, redacted, shown_target, withheld};
use crate::json::{json_parsed, text_field, JsonView, NumberView};
use crate::sync::uuid_number;
use crate::sync_reply_laws::{has_text, refuses_with};
use crate::text::{
    ascii_lowered, control, decimal, escaped, law_escaping_is_undone, signed_decimal, trimmed, unescaped,
    white_space,
};
use crate::text_laws::law_signed_numbers_read_back;

verus! {

/// A boolean reads `true` exactly where it is true and `false` exactly where it is
/// false, a text as it is, a whole number by its digits, null as a dash, and what
/// holds other values only as that.
pub proof fn law_scalars_read_as_what_they_are(
    flag: bool,
    text: Seq<char>,
    n: int,
    items: Seq<JsonView>,
    members: Map<Seq<char>, JsonView>,
)
    ensures
        scalar_text(JsonView::Bool(flag)) == "true"@ <==> flag,
        scalar_text(JsonView::Bool(flag)) == "false"@ <==> !flag,
        scalar_text(JsonView::Text(text)) == text,
        scalar_text(JsonView::Number(NumberView::Integer(n))) == signed_decimal(n),
        scalar_text(JsonView::Null) == "—"@,
        scalar_text(JsonView::Array(items)) == "[structured]"@,
        scalar_text(JsonView::Object(members)) == "[structured]"@,
{
    reveal_strlit("true");
    reveal_strlit("false");
    assert("true"@.len() == 4 && "false"@.len() == 5);
}

/// Two booleans, two texts or two whole numbers that differ read differently, and
/// neither a boolean nor null reads like a number or like the other.
pub proof fn law_scalars_that_differ_read_differently(a: JsonView, b: JsonView)
    requires
        scalar_text(a) == scalar_text(b),
    ensures
        a is Bool && b is Bool ==> a == b,
        a is Text && b is Text ==> a == b,
        a matches JsonView::Number(NumberView::Integer(n)) ==> (b matches JsonView::Number(NumberView::Integer(m)) ==> n
            == m),
        a is Bool ==> !(b is Null) && !(b matches JsonView::Number(NumberView::Integer(_))),
        a is Null ==> !(b matches JsonView::Number(NumberView::Integer(_))),
{
    reveal_strlit("true");
    reveal_strlit("false");
    assert("true"@.len() == 4 && "false"@.len() == 5);
    reveal_strlit("—");
    assert("—"@.len() == 1 && "—"@[0] == '—');
    if let JsonView::Number(NumberView::Integer(m)) = b {
        law_signed_numbers_read_back(m, m);
        crate::text_laws::law_numbers_read_back((if m < 0 { -m } else { m }) as nat);
        let digits = decimal((if m < 0 { -m } else { m }) as nat);
        assert('0' <= digits[0] <= '9');
        assert(signed_decimal(m)[0] == '-' || signed_decimal(m)[0] == digits[0]);
        assert("true"@[0] == 't' && "false"@[0] == 'f');
        if let JsonView::Number(NumberView::Integer(n)) = a {
            law_signed_numbers_read_back(n, m);
        }
    }
}

/// A cell reads as the value that its record holds under the cell's name, and as a
/// dash where the record has none.
pub proof fn law_cells_are_of_their_field(record: JsonView, name: Seq<char>)
    ensures
        record.field(name) is Some ==> cell_text(record, name) == scalar_text(record.field(name)->0),
        record.field(name) is None ==> cell_text(record, name) == "—"@,
{
}

/// The row of a schedule says that it is enabled exactly where the schedule's own
/// field is true and that it is not where the field is false, when it runs, and
/// where it goes; its link leads to the runs of that very schedule.
pub proof fn law_schedule_rows_say_their_schedule(row: ScheduleRow, schedule: JsonView, org: Seq<char>)
    requires
        shows_schedule(row, schedule, org),
    ensures
        schedule.field("enabled"@) matches Some(JsonView::Bool(enabled)) ==> {
            &&& row.enabled@ == "true"@ <==> enabled
            &&& row.enabled@ == "false"@ <==> !enabled
        },
        schedule.field("enabled"@) is None ==> row.enabled@ == "—"@,
        text_field(schedule, "name"@) matches Some(name) ==> {
            &&& row.name@ == name
            &&& row.href@ == "/crons?org="@ + escaped(encode_utf8(org)) + "&schedule="@ + escaped(encode_utf8(name))
            &&& unescaped(escaped(encode_utf8(name))) == Some(encode_utf8(name))
            &&& unescaped(escaped(encode_utf8(org))) == Some(encode_utf8(org))
        },
        text_field(schedule, "name"@) is None ==> row.name@.len() == 0,
        text_field(schedule, "cron"@) matches Some(cron) ==> row.mode@ == cron,
        text_field(schedule, "cron"@) is None ==> {
            &&& schedule.field("one_shot_at_ms"@) matches Some(JsonView::Number(NumberView::Integer(at))) ==> row.mode@
                == "one-shot "@ + signed_decimal(at)
            &&& schedule.field("one_shot_at_ms"@) is None ==> row.mode@ == "—"@
        },
        schedule.field("target"@) is None ==> row.target@ == "—"@,
        schedule.field("target"@) is Some ==> row.target@ == target_text(schedule.field("target"@)),
{
    reveal_strlit("true");
    reveal_strlit("false");
    assert("true"@.len() == 4 && "false"@.len() == 5);
    law_escaping_is_undone(encode_utf8(org));
    if let Some(name) = text_field(schedule, "name"@) {
        law_escaping_is_undone(encode_utf8(name));
    }
}

/// Whether a cell is of the field of that name.
pub open spec fn cell_is(cell: Seq<char>, record: JsonView, name: Seq<char>) -> bool {
    match record.field(name) {
        None => cell == "—"@,
        Some(value) => cell == scalar_text(value),
    }
}

/// Each cell of a run's row is of the run's own field of that name.
pub proof fn law_run_rows_say_their_run(row: RunRow, run: JsonView)
    requires
        shows_run(row, run),
    ensures
        cell_is(row.fire_id@, run, "fire_id"@),
        cell_is(row.status@, run, "status"@),
        cell_is(row.trigger@, run, "trigger"@),
        cell_is(row.attempts@, run, "attempts"@),
        cell_is(row.duration_ms@, run, "duration_ms"@),
        cell_is(row.http_status@, run, "http_status"@),
        cell_is(row.error_class@, run, "error_class"@),
        cell_is(row.trace_id@, run, "trace_id"@),
{
}

/// The names under which nothing is shown: code, environments, commands,
/// containers, requests with their headers and bodies, payloads and addresses.
pub open spec fn private_names() -> Seq<Seq<char>> {
    seq![
        "source"@,
        "source_code"@,
        "env"@,
        "env_vars"@,
        "environment"@,
        "environment_values"@,
        "environment_variables"@,
        "entry"@,
        "entry_command"@,
        "entry_commands"@,
        "entry_point"@,
        "entrypoint"@,
        "container"@,
        "containers"@,
        "container_settings"@,
        "request"@,
        "requests"@,
        "request_headers"@,
        "request_body"@,
        "invocation_request"@,
        "invocation_requests"@,
        "header"@,
        "headers"@,
        "body"@,
        "bodies"@,
        "payload"@,
        "payloads"@,
        "invocation_payload"@,
        "invocation_payloads"@,
        "url"@,
        "webhook_url"@,
        "endpoint"@,
        "grpc_endpoint"@,
        "destination"@,
        "destinations"@,
    ]
}

/// An entry is withheld exactly where its name, in any case, is a private one.
pub proof fn law_private_names_are_withheld(name: Seq<char>)
    ensures
        withheld(name) <==> private_names().contains(ascii_lowered(name)),
        names_target(name) <==> ascii_lowered(name) == "target"@,
{
    let names = private_names();
    assert(names[0] == "source"@);
    assert(names[1] == "source_code"@);
    assert(names[2] == "env"@);
    assert(names[3] == "env_vars"@);
    assert(names[4] == "environment"@);
    assert(names[5] == "environment_values"@);
    assert(names[6] == "environment_variables"@);
    assert(names[7] == "entry"@);
    assert(names[8] == "entry_command"@);
    assert(names[9] == "entry_commands"@);
    assert(names[10] == "entry_point"@);
    assert(names[11] == "entrypoint"@);
    assert(names[12] == "container"@);
    assert(names[13] == "containers"@);
    assert(names[14] == "container_settings"@);
    assert(names[15] == "request"@);
    assert(names[16] == "requests"@);
    assert(names[17] == "request_headers"@);
    assert(names[18] == "request_body"@);
    assert(names[19] == "invocation_request"@);
    assert(names[20] == "invocation_requests"@);
    assert(names[21] == "header"@);
    assert(names[22] == "headers"@);
    assert(names[23] == "body"@);
    assert(names[24] == "bodies"@);
    assert(names[25] == "payload"@);
    assert(names[26] == "payloads"@);
    assert(names[27] == "invocation_payload"@);
    assert(names[28] == "invocation_payloads"@);
    assert(names[29] == "url"@);
    assert(names[30] == "webhook_url"@);
    assert(names[31] == "endpoint"@);
    assert(names[32] == "grpc_endpoint"@);
    assert(names[33] == "destination"@);
    assert(names[34] == "destinations"@);
}

/// What is shown of a value: the value itself where it is neither a list nor an
/// object, every item of a list, and of an object every entry that is not private,
/// a target only by its kind and function.
pub proof fn law_all_else_is_shown(json: JsonView, key: Seq<char>, i: int)
    requires
        json matches JsonView::Object(members) ==> members.dom().finite(),
    ensures
        !(json is Array) && !(json is Object) ==> redacted(json) == json,
        json matches JsonView::Array(items) ==> (redacted(json) matches JsonView::Array(shown) && shown.len()
            == items.len() && (0 <= i < items.len() ==> shown[i] == redacted(items[i]))),
        json is Object ==> {
            &&& redacted(json) is Object
            &&& withheld(key) || json.field(key) is None ==> redacted(json).field(key) is None
            &&& !withheld(key) && !names_target(key) ==> (json.field(key) matches Some(value) ==> redacted(json).field(key)
                == Some(redacted(value)))
            &&& !withheld(key) && names_target(key) ==> (json.field(key) matches Some(value) ==> redacted(json).field(key)
                == Some(shown_target(value)))
        },
{
}

/// A target is shown by its kind, unknown where it has none; a function's also by
/// its id, where that is one.
pub proof fn law_targets_are_shown_by_kind(target: JsonView)
    ensures
        text_field(target, "kind"@) matches Some(kind) ==> has_text(shown_target(target), "kind"@, kind),
        text_field(target, "kind"@) is None ==> has_text(shown_target(target), "kind"@, "unknown"@),
        ({
            let named = text_field(target, "kind"@) == Some("function"@) && text_field(target, "function_id"@) is Some
                && uuid_number(text_field(target, "function_id"@)->0) is Some;
            &&& named ==> {
                &&& has_text(shown_target(target), "function_id"@, text_field(target, "function_id"@)->0)
                &&& target_text(Some(target)) == "function:"@ + text_field(target, "function_id"@)->0
            }
            &&& !named ==> shown_target(target).field("function_id"@) is None
        }),
        text_field(target, "kind"@) == Some("webhook"@) ==> target_text(Some(target)) == "webhook:[redacted]"@,
        text_field(target, "kind"@) == Some("grpc"@) ==> target_text(Some(target)) == "grpc:[redacted]"@,
        text_field(target, "kind"@) matches Some(kind) ==> (kind != "function"@ && kind != "webhook"@ && kind != "grpc"@
            ==> target_text(Some(target)) == kind),
        target_text(None) == "—"@,
{
    reveal_strlit("kind");
    reveal_strlit("function_id");
    reveal_strlit("function");
    reveal_strlit("webhook");
    reveal_strlit("grpc");
    reveal_strlit("unknown");
    assert("kind"@.len() == 4 && "function_id"@.len() == 11 && "function"@.len() == 8);
    assert("webhook"@.len() == 7 && "grpc"@.len() == 4 && "unknown"@.len() == 7);
    assert("kind"@[0] == 'k' && "grpc"@[0] == 'g' && "webhook"@[0] == 'w' && "unknown"@[0] == 'u');
}

/// An organization is from 1 to 128 bytes without blanks or control characters, a
/// schedule from 1 to 128 bytes without control characters, and 50 runs are shown
/// unless a number from 1 to 100 is asked for.
pub proof fn law_cron_requests_are_bounded(value: Seq<char>, requested: Option<usize>)
    ensures
        org_acceptable(value) <==> value.len() > 0 && encode_utf8(value).len() <= 128 && forall|i: int|
            0 <= i < value.len() ==> !control(#[trigger] value[i]) && !white_space(value[i]),
        schedule_acceptable(value) <==> value.len() > 0 && encode_utf8(value).len() <= 128 && forall|i: int|
            0 <= i < value.len() ==> !control(#[trigger] value[i]),
        requested is None ==> history_limit(requested) == 50,
        requested is Some && 1 <= requested->0 <= 100 ==> history_limit(requested) == requested->0,
        requested is Some && requested->0 < 1 ==> history_limit(requested) == 1,
        requested is Some && requested->0 > 100 ==> history_limit(requested) == 100,
        typed(Some(value)) == (if trimmed(value).len() > 0 {
            Some(trimmed(value))
        } else {
            None
        }),
        typed(None) is None,
{
}

/// Each trouble has its own reason and the status that goes with it: the client's
/// own are 400, a missing configuration is 503, a refusal of the node with a client
/// error keeps its status, and all other troubles of the node are 502.
pub proof fn law_cron_troubles_are_told_apart(error: CronDebugError)
    ensures
        ({
            let reply = lookup_view(Err(error));
            match error {
                CronDebugError::NotConfigured => refuses_with(reply, 503, "cron_node_not_configured"@),
                CronDebugError::InvalidConfiguration => refuses_with(reply, 503, "cron_node_configuration_invalid"@),
                CronDebugError::InvalidOrganization => refuses_with(reply, 400, "invalid_organization"@),
                CronDebugError::InvalidSchedule => refuses_with(reply, 400, "invalid_schedule"@),
                CronDebugError::UpstreamUnavailable => refuses_with(reply, 502, "cron_node_unavailable"@),
                CronDebugError::UpstreamStatus(code) => refuses_with(
                    reply,
                    if 400 <= code <= 499 {
                        code as int
                    } else {
                        502
                    },
                    "cron_node_rejected_request"@,
                ),
                CronDebugError::OversizedResponse => refuses_with(reply, 502, "cron_node_response_too_large"@),
                CronDebugError::InvalidResponse => refuses_with(reply, 502, "cron_node_response_invalid"@),
            }
        }),
{
}

/// An answer is taken exactly where it has at most two mebibytes, a status of
/// success and JSON for a body; the reply to it is a success with that body, but
/// for what is withheld.
pub proof fn law_cron_answers_are_taken_where_sound(status: u16, body: Seq<u8>)
    ensures
        answer_outcome(status, body) is Ok <==> body.len() <= 2_097_152 && 200 <= status <= 299 && json_parsed(body)
            is Some,
        answer_outcome(status, body) matches Ok(json) ==> {
            &&& Some(json) == json_parsed(body)
            &&& lookup_view(Ok(json)).status == 200
            &&& lookup_view(Ok(json)).body == redacted(json)
        },
        body.len() > 2_097_152 ==> answer_outcome(status, body) == Err::<JsonView, CronDebugError>(
            CronDebugError::OversizedResponse,
        ),
        body.len() <= 2_097_152 && !(200 <= status <= 299) ==> answer_outcome(status, body) == Err::<
            JsonView,
            CronDebugError,
        >(CronDebugError::UpstreamStatus(status)),
        body.len() <= 2_097_152 && 200 <= status <= 299 && json_parsed(body) is None ==> answer_outcome(status, body)
            == Err::<JsonView, CronDebugError>(CronDebugError::InvalidResponse),
{
}

/// The cron node is the configured one, else the first node, else none. Only HTTP
/// and HTTPS bases with a host and without credentials are asked, at the path of
/// the schedules, or of the one schedule's history, and for the given number.
pub proof fn law_cron_urls_ask_the_node(
    cron_node_url: Option<Seq<char>>,
    node_urls: Seq<Seq<char>>,
    segments: Seq<Seq<char>>,
    schedule: Seq<char>,
    limit: nat,
)
    ensures
        cron_node_url is Some ==> base_in_force(cron_node_url, node_urls) == cron_node_url,
        cron_node_url is None && node_urls.len() > 0 ==> base_in_force(cron_node_url, node_urls) == Some(node_urls[0]),
        cron_node_url is None && node_urls.len() == 0 ==> base_in_force(cron_node_url, node_urls) is None,
        endpoint_url(None, segments, limit) == Err::<Seq<char>, CronDebugError>(CronDebugError::NotConfigured),
        endpoint_url(cron_node_url, segments, limit) matches Ok(text) ==> {
            &&& cron_node_url is Some
            &&& crate::request_security::url_parts(trimmed(cron_node_url->0)) matches Some(url)
            &&& url.scheme == "http"@ || url.scheme == "https"@
            &&& url.username.len() == 0
            &&& url.password is None
            &&& url.host is Some
            &&& extended_url(trimmed(cron_node_url->0), segments) matches Some(address)
            &&& url_with_pair(address, "limit"@, decimal(limit)) == Some(text)
        },
        schedules_path() == seq!["v1"@, "cron"@, "schedules"@],
        history_path(schedule) == seq!["v1"@, "cron"@, "schedules"@, schedule, "history"@],
{
}

} // verus!
