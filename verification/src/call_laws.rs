//! What callers get from the functions themselves, over several calls where one
//! hands its result to the next.

use axum::http::HeaderMap;
use vstd::prelude::*;

use crate::action_laws::{law_refusals_say_what_failed, law_rejected_requests_say_why};
use crate::cluster_api::{
    cluster_events_reply, cluster_shards_reply, membership_needed, metrics_targets, prom_scrape, up_range_url,
    ClusterData,
};
use crate::cluster_insight::NodeTarget;
use crate::cluster_laws::{is_at_risk, law_cluster_replies_say_what_was_read, lists_exactly, says_quorum};
use crate::cluster_views::{loki_events, EventsPanel};
use crate::config::{optional_env, required_env, validated_grafana_public_url};
use crate::cookies::{
    clear_login_csrf_cookie, clear_session_cookie, make_login_csrf_cookie, make_session_cookie, CookiePolicy,
};
use crate::cron_debug::{
    check_announced_length, display_field, endpoint_url, history_rows, history_url, org_acceptable, plan_history,
    plan_list, scalar, schedule_acceptable, schedule_rows, schedules_url, CronDebugError, CronPage, CronStage,
    RunRow, ScheduleRow,
};
use crate::cron_laws::{cell_is, law_run_rows_say_their_run, law_schedule_rows_say_their_schedule};
use crate::event_laws::{is_transfer, law_each_message_has_its_own_kind};
use crate::guards::{form_outcome, is_htmx};
use crate::headers::header_texts;
use crate::json::{lemma_items_view, text_field, Json, JsonView};
use crate::login::logout;
use crate::observability::{classify_log_value, recent_events_url, sample_up, ClusterEvent, PromScrape};
use crate::reply::{health, Reply};
use crate::request_security::RequestSecurity;
use crate::session::{
    initialize, session_from_identity, verified_session, GuardConfig, GuardOutcome, GuardSettings, Identity, Session,
    VerifiedSession,
};
use crate::shard_merge::{is_merge, is_rollup, reports_of};
use crate::streaming::{admin_ws, change_frame_view};
use crate::sync::{
    catchup_reply, finish_catchup_page, in_sequence, infra_patch, plan_catchup, CatchupQuery, InfraPatch,
    SyncCatchupChange, SyncCatchupPage, SyncWriteError, SyncWriteOutcome,
};
use crate::sync_reply_laws::{
    fetched_from, has_integer, has_text, law_catchup_bounds_are_told, law_catchup_replies_say_what_is_left,
    law_writable_payloads_are_patched, refuses_with, says_change, starts_after, writable,
};
use crate::sync_transaction::publication;
use crate::text::{trimmed, without_trailing};
use crate::upstream::{check_status, json_array, scale_answer, UpstreamError};
use crate::views::{infra_panel, shows_development_hint, InfraPanel};

verus! {

/// A request for a page of changes is taken for the one table that is synced, a
/// cursor from zero up, at most 500 changes and a database; one change more than
/// the page holds is fetched. Every other request is refused with its own code.
pub proof fn law_catchup_requests_are_planned(
    table: &str,
    cursor: i64,
    limit: Option<u64>,
    database: bool,
    planned: Result<CatchupQuery, Reply>,
)
    requires
        call_ensures(plan_catchup, (table, cursor, limit, database), planned),
    ensures
        ({
            let bounded = cursor >= 0 && (limit is None || 1 <= limit->0 <= 500);
            &&& planned is Ok <==> bounded && table@ == "infra_operations"@ && database
            &&& planned matches Ok(query) ==> {
                &&& query.cursor == cursor
                &&& limit is None ==> query.page_size == 100
                &&& limit is Some ==> query.page_size == limit->0
                &&& query.fetch_limit == query.page_size + 1
            }
            &&& planned matches Err(reply) ==> {
                &&& !bounded ==> refuses_with(reply@, 400, "invalid_catchup_cursor_or_limit"@)
                &&& bounded && table@ != "infra_operations"@ ==> refuses_with(reply@, 404, "unsupported_sync_table"@)
                &&& bounded && table@ == "infra_operations"@ ==> refuses_with(reply@, 503, "database_unavailable"@)
            }
        }),
{
    law_catchup_bounds_are_told(cursor, limit, table@);
    law_refusals_say_what_failed("database_unavailable"@, ""@, 503);
}

/// From the request for a page to its reply: the reply says that there is more
/// exactly where the feed holds a change after the next cursor that it names, and
/// its changes are just those between the two cursors.
pub proof fn law_catchup_goes_from_request_to_reply(
    feed: Seq<SyncCatchupChange>,
    table: &str,
    cursor: i64,
    limit: Option<u64>,
    query: CatchupQuery,
    start: int,
    fetched: Vec<SyncCatchupChange>,
    page: SyncCatchupPage,
    reply: Reply,
) -> (next: int)
    requires
        in_sequence(feed),
        call_ensures(plan_catchup, (table, cursor, limit, true), Ok(query)),
        starts_after(feed, start, cursor),
        fetched_from(feed, start, query.fetch_limit as int, fetched@),
        call_ensures(finish_catchup_page, (fetched, query.cursor, query.page_size), page),
        call_ensures(catchup_reply, (table, cursor, &page), reply),
    ensures
        start <= next <= feed.len(),
        reply.status == 200,
        has_integer(reply.body@, "next_cursor"@, page.next_cursor as int),
        starts_after(feed, next, page.next_cursor),
        reply.body@.field("has_more"@) == Some(
            JsonView::Bool(exists|i: int| 0 <= i < feed.len() && (#[trigger] feed[i]).sequence > page.next_cursor),
        ),
        ({
            &&& reply.body@.field("changes"@) matches Some(JsonView::Array(items))
            &&& items.len() == next - start
            &&& forall|i: int| 0 <= i < items.len() ==> says_change(#[trigger] items[i], feed[start + i])
        }),
{
    law_catchup_replies_say_what_is_left(feed, table@, cursor, query.page_size, start, fetched@, page)
}

/// A patch is made of an upsert exactly where what its payload sets can be written,
/// and sets just that.
pub proof fn law_patches_are_made_of_writable_payloads(
    payload: &Json,
    current_status: &str,
    patch: Option<InfraPatch>,
)
    requires
        call_ensures(infra_patch, (false, payload, current_status), patch),
    ensures
        patch is Some <==> writable(payload@),
        patch matches Some(found) ==> {
            &&& found.error.deep_view() == text_field(payload@, "error"@)
            &&& text_field(payload@, "status"@) is Some ==> found.status.deep_view() == text_field(
                payload@,
                "status"@,
            )
        },
{
    law_writable_payloads_are_patched(payload@, current_status@);
}

/// Only a committed write is published: as the frame of its row, with its key and
/// time.
pub proof fn law_only_commits_are_published(
    result: &Result<SyncWriteOutcome, SyncWriteError>,
    write_key: &str,
    at_ms: i64,
    frame: Option<String>,
)
    requires
        call_ensures(publication, (result, write_key, at_ms), frame),
    ensures
        frame is Some <==> (*result matches Ok(SyncWriteOutcome::Committed(_))),
        *result matches Ok(SyncWriteOutcome::Committed(row)) ==> frame->0@ == crate::json::json_text(
            change_frame_view(row, Some(write_key@), at_ms as int),
        ),
{
}

/// A success is a status from 200 to 299, and any other is refused with itself.
pub proof fn law_only_successes_pass(status: u16, result: Result<(), UpstreamError>)
    requires
        call_ensures(check_status, (status,), result),
    ensures
        result is Ok <==> 200 <= status <= 299,
        result matches Err(error) ==> error == UpstreamError::BadStatus(status),
{
}

/// The brain's word is the boolean that it sent, and no other value is one.
pub proof fn law_the_brains_word_is_a_boolean(value: &Json, ok: Result<bool, String>)
    requires
        call_ensures(scale_answer, (value,), ok),
    ensures
        ok matches Ok(word) ==> value@.field("ok"@) == Some(JsonView::Bool(word)),
        ok matches Err(error) ==> !(value@.field("ok"@) matches Some(JsonView::Bool(_))) && error@
            == "brain response omitted ok"@,
{
}

/// The items of an answer are those of its array of that name.
pub proof fn law_answers_give_their_array(value: &Json, field: &str, items: Result<&Vec<Json>, String>)
    requires
        call_ensures(json_array, (value, field), items),
    ensures
        items is Ok <==> (value@.field(field@) matches Some(JsonView::Array(_))),
        items matches Ok(found) ==> (value@.field(field@) matches Some(JsonView::Array(sent)) && found@.len()
            == sent.len() && forall|i: int| 0 <= i < sent.len() ==> (#[trigger] found@[i])@ == sent[i]),
        items matches Err(error) ==> error@ == "upstream response omitted "@ + field@ + " array"@,
{
    if let Ok(found) = items {
        lemma_items_view(found@);
        assert forall|i: int| 0 <= i < found@.len() implies (#[trigger] found@[i])@ == crate::json::items_view(
            found@,
        )[i] by {}
    }
}

/// The health reply is a success that names the service.
pub proof fn law_health_names_the_service(reply: Reply)
    requires
        call_ensures(health, (), reply),
    ensures
        reply.status == 200,
        has_text(reply.body@, "status"@, "ok"@),
        has_text(reply.body@, "service"@, "fiducia-admin"@),
{
    reveal_strlit("status");
    reveal_strlit("service");
    assert("status"@.len() == 6 && "service"@.len() == 7);
}

/// How many samples of a list are up.
pub open spec fn up_samples(samples: Seq<Json>) -> Set<int> {
    Set::new(
        |i: int|
            0 <= i < samples.len() && (samples[i]@.field("value"@) matches Some(JsonView::Array(items)) && items.len()
                > 1 && items[1] == JsonView::Text("1"@)),
    )
}

/// Samples are counted one by one.
proof fn lemma_up_samples(samples: Seq<Json>)
    ensures
        up_samples(samples).finite(),
        crate::observability::up_count(crate::json::items_view(samples)) == up_samples(samples).len(),
    decreases samples.len(),
{
    if samples.len() > 0 {
        let front = samples.drop_last();
        let last = samples.len() - 1;
        lemma_up_samples(front);
        lemma_items_view(samples);
        lemma_items_view(front);
        let views = crate::json::items_view(samples);
        assert(views.drop_last() =~= crate::json::items_view(front));
        assert forall|i: int| 0 <= i < front.len() implies front[i] == samples[i] by {}
        if sample_up(samples[last]@) {
            assert(up_samples(samples) =~= up_samples(front).insert(last));
        } else {
            assert(up_samples(samples) =~= up_samples(front));
        }
    } else {
        lemma_items_view(samples);
        assert(up_samples(samples) =~= Set::<int>::empty());
    }
}

/// Prometheus is up with as many targets as the samples whose value is the text 1,
/// failed with its own error, or not configured where it was not asked.
pub proof fn law_scrapes_count_what_is_up(outcome: Option<Result<Vec<Json>, String>>, prometheus: PromScrape)
    requires
        call_ensures(prom_scrape, (outcome,), prometheus),
    ensures
        outcome is None <==> prometheus is NotConfigured,
        outcome matches Some(Err(error)) ==> prometheus == (PromScrape::Error { error }),
        outcome matches Some(Ok(samples)) ==> (prometheus matches PromScrape::Up { targets } && targets == up_samples(
            samples@,
        ).len()),
{
    if let Some(Ok(samples)) = outcome {
        lemma_up_samples(samples@);
    }
}

/// The reply on the events says that logs are not configured where they were not
/// asked, has every event where they were, and names Loki where it failed.
pub proof fn law_event_replies_follow_the_query(
    since_minutes: i64,
    outcome: &Option<Option<Vec<ClusterEvent>>>,
    reply: Reply,
)
    requires
        call_ensures(cluster_events_reply, (since_minutes, outcome), reply),
    ensures
        *outcome is None ==> reply.status == 200 && reply.body@.field("configured"@) == Some(JsonView::Bool(false))
            && reply.body@.field("events"@) == Some(JsonView::Array(Seq::empty())) && has_integer(
            reply.body@,
            "since_minutes"@,
            since_minutes as int,
        ),
        *outcome matches Some(Some(events)) ==> reply.status == 200 && reply.body@.field("configured"@) == Some(
            JsonView::Bool(true),
        ) && has_integer(reply.body@, "since_minutes"@, since_minutes as int) && (reply.body@.field("events"@)
            matches Some(JsonView::Array(items)) && items.len() == events@.len() && forall|k: int|
            0 <= k < items.len() ==> #[trigger] items[k] == crate::insight_json::cluster_event_json(events@[k]@)),
        *outcome matches Some(None) ==> refuses_with(reply@, 502, "loki_query_failed"@) && has_text(
            reply.body@,
            "dependency"@,
            "loki"@,
        ),
{
    reveal_strlit("configured");
    reveal_strlit("since_minutes");
    reveal_strlit("events");
    assert("configured"@.len() == 10 && "since_minutes"@.len() == 13 && "events"@.len() == 6);
    law_refusals_say_what_failed("loki_query_failed"@, "loki"@, 502);
    if *outcome is None {
        assert(reply.body@.field("events"@)->0->Array_0 =~= Seq::<JsonView>::empty());
    }
}

/// The nodes are asked of the brain exactly where none are configured, and it is
/// an error of the brain where it then does not list them.
pub proof fn law_configured_nodes_need_no_brain(
    node_urls: &[String],
    nodes: Option<&Vec<Json>>,
    needed: bool,
    targets: Result<(Vec<NodeTarget>, Option<usize>), Reply>,
)
    requires
        call_ensures(membership_needed, (node_urls,), needed),
        call_ensures(metrics_targets, (node_urls, nodes), targets),
    ensures
        needed <==> node_urls@.len() == 0,
        targets is Err <==> needed && nodes is None,
        targets matches Err(reply) ==> refuses_with(reply@, 502, "brain_nodes_failed"@),
        targets matches Ok(found) ==> {
            &&& found.0@.len() <= 512
            &&& node_urls@.len() > 0 && node_urls@.len() <= 512 ==> found.0@.len() == node_urls@.len() && found.1 is None
            &&& node_urls@.len() > 512 ==> found.0@.len() == 512 && found.1 is Some && found.1->0 == node_urls@.len()
            &&& node_urls@.len() > 0 ==> forall|i: int| 0 <= i < found.0@.len() ==> (#[trigger] found.0@[i]).trusted
        },
{
    law_refusals_say_what_failed("brain_nodes_failed"@, "fiducia-brain"@, 502);
    if let Ok(found) = targets {
        let views = crate::cluster_insight::target_views(found.0@);
        assert(views.len() == found.0@.len());
        assert forall|i: int| 0 <= i < found.0@.len() && node_urls@.len() > 0 implies (#[trigger] found.0@[i]).trusted by {
            assert(views[i] == found.0@[i]@);
        }
    }
}

/// In the reply on the shards the array under `quorum.at_risk` holds just the
/// shards that some reporting node lists as led without a majority, ascending, and
/// every other list the shards of its own condition.
pub proof fn law_shard_replies_list_what_is_at_risk(data: &ClusterData, now_ms: i64, reply: Reply)
    requires
        is_merge(data.merged@, reports_of(data.observations@)),
        is_rollup(data.quorum, data.observations@, data.merged@),
        call_ensures(cluster_shards_reply, (data, now_ms), reply),
    ensures
        reply.status == 200,
        reply.body@.field("quorum"@) is Some,
        lists_exactly(
            reply.body@.field("quorum"@)->0.field("at_risk"@),
            |shard: u32| is_at_risk(data.observations@, shard),
        ),
        says_quorum(
            reply.body@.field("quorum"@)->0,
            data.observations@,
            data.quorum.targets_truncated_from,
        ),
        has_integer(reply.body@, "generated_at_ms"@, now_ms as int),
{
    law_cluster_replies_say_what_was_read(*data, JsonView::Null, JsonView::Null, PromScrape::NotConfigured, now_ms as int);
}

/// A line without a transfer metric is an event of the kind of its message: a node
/// that registered is registered, and only one that was declared dead is dead.
pub proof fn law_lines_are_of_their_kind(at_ms: i64, line: &Json, event: Option<ClusterEvent>, message: Seq<char>)
    requires
        call_ensures(classify_log_value, (at_ms, line), event),
        line@.field("message"@) == Some(JsonView::Text(message)),
    ensures
        !is_transfer(text_field(line@, "metric.name"@)) ==> {
            &&& "membership: new node registered"@.is_prefix_of(message) ==> (event matches Some(found) && found.kind@
                == "node_registered"@)
            &&& "membership: node declared DEAD"@.is_prefix_of(message) ==> (event matches Some(found) && found.kind@
                == "node_dead"@)
            &&& "membership: node marked Draining"@.is_prefix_of(message) ==> (event matches Some(found) && found.kind@
                == "node_draining"@)
        },
        event matches Some(found) ==> {
            &&& found.kind@ == "node_dead"@ ==> "membership: node declared DEAD"@.is_prefix_of(message)
            &&& found.message@ == message
            &&& found.at_ms == at_ms
        },
{
    law_each_message_has_its_own_kind(text_field(line@, "metric.name"@), message);
}

/// A request is htmx's where it carries htmx's header, the development hint is
/// shown outside a release build, and the panel of events is of what came.
pub proof fn law_small_answers_are_exact(
    headers: &HeaderMap,
    htmx: bool,
    release_hardened: bool,
    hint: bool,
    outcome: Option<Result<Vec<ClusterEvent>, String>>,
    panel: EventsPanel,
)
    requires
        call_ensures(is_htmx, (headers,), htmx),
        call_ensures(shows_development_hint, (release_hardened,), hint),
        call_ensures(loki_events, (outcome,), panel),
    ensures
        htmx <==> header_texts(*headers, "hx-request"@).len() > 0,
        hint <==> !release_hardened,
        outcome is None <==> panel is NotConfigured,
        outcome matches Some(Ok(events)) ==> panel == EventsPanel::Events(events),
        outcome matches Some(Err(error)) ==> panel == EventsPanel::Error(error),
{
}

/// The infrastructure panel counts the nodes and the placed shards, repeats what
/// was applied, and has one row per operation.
pub proof fn law_infra_panels_count_what_was_read(
    nodes: &[Json],
    placement: &[Json],
    recent: &[Json],
    applied: Option<u32>,
    panel: InfraPanel,
)
    requires
        call_ensures(infra_panel, (nodes, placement, recent, applied), panel),
    ensures
        panel.nodes == nodes@.len(),
        panel.shards == placement@.len(),
        panel.applied == applied,
        panel.operations@.len() == recent@.len(),
        forall|i: int|
            0 <= i < recent@.len() ==> (text_field(recent@[i]@, "status"@) matches Some(status) ==> (
            #[trigger] panel.operations@[i]).status@ == status),
{
}

/// A session is made of an identity with the role admin or operator from the admin
/// project, and of no other; it is that identity's, and bound to its token and to
/// where the token came from.
pub proof fn law_sessions_are_of_their_identity(
    identity: &Identity,
    token: &str,
    cookie: bool,
    session: Option<Session>,
)
    requires
        call_ensures(session_from_identity, (identity, token, cookie), session),
    ensures
        session is Some <==> identity.project@ == "fiducia-admin"@ && exists|i: int|
            0 <= i < identity.roles@.len() && (#[trigger] identity.roles@[i]@ == "admin"@ || identity.roles@[i]@
                == "operator"@),
        session matches Some(made) ==> {
            &&& made.user_id@ == identity.supabase_user_id@
            &&& made.email.deep_view() == identity.email.deep_view()
            &&& made.is_admin
            &&& made.cookie_authenticated == cookie
            &&& cookie ==> made.credential_binding@ == "cookie"@ + "\0"@ + token@
            &&& !cookie ==> made.credential_binding@ == "authorization"@ + "\0"@ + token@
        },
{
    crate::access_laws::law_identities_need_a_role_and_the_project(*identity);
}

/// Only an authenticated outcome is verified, and its upgrade is handed on.
pub proof fn law_only_authenticated_outcomes_verify(
    outcome: &GuardOutcome,
    upgrade: Option<String>,
    token: &str,
    cookie: bool,
    verified: Option<VerifiedSession>,
)
    requires
        call_ensures(verified_session, (outcome, upgrade, token, cookie), verified),
    ensures
        verified is Some ==> *outcome is Authenticated,
        verified matches Some(found) ==> found.session_upgrade == upgrade && found.session.is_admin
            && found.session.user_id@ == outcome->Authenticated_0.supabase_user_id@
            && found.session.cookie_authenticated == cookie,
        *outcome matches GuardOutcome::Authenticated(identity) ==> (identity.project@ == "fiducia-admin"@ && (
        exists|i: int|
            0 <= i < identity.roles@.len() && (#[trigger] identity.roles@[i]@ == "admin"@ || identity.roles@[i]@
                == "operator"@)) ==> verified is Some),
{
    if let GuardOutcome::Authenticated(identity) = *outcome {
        crate::access_laws::law_identities_need_a_role_and_the_project(identity);
    }
}

/// The guard is set up for the admin project and its two roles, with each setting
/// in its own place and the times it waits.
pub proof fn law_guards_are_set_up_as_told(base: &str, settings: &GuardSettings, config: Result<GuardConfig, String>)
    requires
        call_ensures(initialize, (base, settings), config),
    ensures
        config matches Ok(made) ==> {
            &&& made.shared_auth_base@ == without_trailing(base@, '/')
            &&& settings.issuer is Some && made.issuer@ == trimmed(settings.issuer->0@)
            &&& settings.audience is Some && made.audience@ == trimmed(settings.audience->0@)
            &&& settings.supabase_url is Some && made.supabase_url@ == trimmed(settings.supabase_url->0@)
            &&& settings.supabase_api_key is Some && made.supabase_api_key@ == trimmed(settings.supabase_api_key->0@)
            &&& settings.introspect_secret is Some && made.introspect_secret@ == trimmed(
                settings.introspect_secret->0@,
            )
            &&& made.project@ == "fiducia-admin"@
            &&& made.required_roles@.len() == 2
            &&& made.required_roles@[0]@ == "admin"@
            &&& made.required_roles@[1]@ == "operator"@
            &&& made.arm_timeout_seconds == 10
            &&& made.race_deadline_seconds == 12
            &&& made.jwks_ttl_seconds == 300
        },
        config is Err <==> crate::session::settings_error(base@, *settings) is Some,
{
    if let Ok(made) = config {
        assert(made.required_roles.deep_view().len() == made.required_roles@.len());
        assert(made.required_roles.deep_view()[0] == made.required_roles@[0]@);
        assert(made.required_roles.deep_view()[1] == made.required_roles@[1]@);
    }
}

/// A sign-out that may be made clears the session's cookie at once; any other is
/// refused with its reason.
pub proof fn law_signing_out_clears_the_session(
    security: &RequestSecurity,
    headers: &HeaderMap,
    session: &Session,
    csrf_token: &str,
    policy: CookiePolicy,
    cookie: Result<String, Reply>,
)
    requires
        call_ensures(logout, (security, headers, session, csrf_token, policy), cookie),
    ensures
        cookie is Ok <==> form_outcome(*security, *headers, *session, csrf_token@) is Ok,
        cookie matches Ok(text) ==> text@ == crate::cookies::cookie_text(
            crate::session::session_cookie_name(policy.release_hardened),
            ""@,
            "; Max-Age=0"@,
            policy,
        ),
        cookie matches Err(reply) ==> refuses_with(reply@, 403, "admin_request_rejected"@),
{
    if let Err(error) = form_outcome(*security, *headers, *session, csrf_token@) {
        law_rejected_requests_say_why(error);
    }
}

/// The socket opens exactly for requests of the same origin.
pub proof fn law_sockets_need_the_same_origin(headers: &HeaderMap, security: &RequestSecurity, result: Result<(), Reply>)
    requires
        call_ensures(admin_ws, (headers, security), result),
    ensures
        result is Ok <==> security.same_origin_outcome(*headers) is Ok,
        result matches Err(reply) ==> refuses_with(reply@, 403, "admin_request_rejected"@),
{
    if let Err(error) = security.same_origin_outcome(*headers) {
        law_rejected_requests_say_why(error);
    }
}

/// The session's cookie lives as long as the browser, the login's for ten minutes,
/// and a cleared one not at all.
pub proof fn law_cookies_live_as_long_as_they_should(
    value: &str,
    policy: CookiePolicy,
    login: String,
    no_login: String,
    session: String,
    no_session: String,
)
    requires
        call_ensures(make_login_csrf_cookie, (value, policy), login),
        call_ensures(clear_login_csrf_cookie, (policy,), no_login),
        call_ensures(make_session_cookie, (value, policy), session),
        call_ensures(clear_session_cookie, (policy,), no_session),
    ensures
        policy.release_hardened ==> {
            &&& login@ == "__Host-fiducia_admin_login_csrf"@ + "="@ + value@ + "; Path=/; HttpOnly; SameSite=Strict"@
                + "; Max-Age=600"@ + "; Secure"@
            &&& no_login@ == "__Host-fiducia_admin_login_csrf"@ + "="@ + ""@ + "; Path=/; HttpOnly; SameSite=Strict"@
                + "; Max-Age=0"@ + "; Secure"@
            &&& session@ == "__Host-fiducia_admin_session"@ + "="@ + value@ + "; Path=/; HttpOnly; SameSite=Strict"@
                + ""@ + "; Secure"@
            &&& no_session@ == "__Host-fiducia_admin_session"@ + "="@ + ""@ + "; Path=/; HttpOnly; SameSite=Strict"@
                + "; Max-Age=0"@ + "; Secure"@
        },
{
}

/// A required setting is its value as it stands where that is not blank; an
/// optional one is cut of the blanks around it.
pub proof fn law_settings_are_read(
    name: &str,
    value: Option<&str>,
    required: Result<String, String>,
    optional: Option<String>,
)
    requires
        call_ensures(required_env, (name, value), required),
        call_ensures(optional_env, (value,), optional),
    ensures
        required is Ok <==> value is Some && trimmed(value->0@).len() > 0,
        required matches Ok(text) ==> text@ == value->0@,
        required matches Err(error) ==> error@ == name@ + " must be set"@,
        optional is Some <==> value is Some && trimmed(value->0@).len() > 0,
        optional matches Some(text) ==> text@ == trimmed(value->0@),
{
}

/// A link to Grafana is kept where it is unset or a plain one, and is an error
/// otherwise.
pub proof fn law_grafana_links_are_plain_or_unset(value: Option<&str>, result: Result<Option<String>, String>)
    requires
        call_ensures(validated_grafana_public_url, (value,), result),
    ensures
        value is None || trimmed(value->0@).len() == 0 ==> (result matches Ok(url) && url is None),
        value is Some && trimmed(value->0@).len() > 0 ==> {
            &&& crate::config::public_url_valid(trimmed(value->0@)) ==> (result matches Ok(Some(url)) && url@ == trimmed(
                value->0@,
            ))
            &&& !crate::config::public_url_valid(trimmed(value->0@)) ==> (result matches Err(error) && error@
                == "FIDUCIA_GRAFANA_PUBLIC_URL must be an http(s):// URL or a root-relative path starting with '/': got "@
                + crate::text::debug_quoted(trimmed(value->0@)))
        },
{
}

/// Recent events are asked of the logs over the window of the minutes, at most 500.
pub proof fn law_recent_events_are_asked_for(loki_url: &str, now_ms: i64, since_minutes: i64, url: String)
    requires
        call_ensures(recent_events_url, (loki_url, now_ms, since_minutes), url),
        0 <= now_ms <= 9_000_000_000_000,
        1 <= since_minutes <= 1440,
    ensures
        url@ == crate::observability::log_query_url(
            loki_url@,
            "{namespace=\"fiducia\"} |~ \"raft: |membership: |scheduler: |leader_transfer\""@,
            now_ms * 1_000_000 - since_minutes * 60_000_000_000,
            now_ms * 1_000_000,
            500,
        ),
{
}

/// A clock before its beginning reads zero, and any other reads as it is.
pub proof fn law_clocks_read_as_they_are(elapsed: Option<u128>, at_ms: i64)
    requires
        call_ensures(crate::clock::timestamp, (elapsed,), at_ms),
    ensures
        elapsed is None ==> at_ms == 0,
        elapsed matches Some(millis) ==> (millis <= 0x7fff_ffff_ffff_ffff ==> at_ms == millis),
{
}

/// The range of what is up is the last quarter of an hour, minute by minute.
pub proof fn law_up_ranges_are_a_quarter_of_an_hour(prometheus_url: &str, now_ms: i64, url: String)
    requires
        call_ensures(up_range_url, (prometheus_url, now_ms), url),
        now_ms >= 0,
    ensures
        url@ == crate::observability::range_query_url(
            prometheus_url@,
            "up{namespace=\"fiducia\"}"@,
            now_ms as int / 1000 - 900,
            now_ms as int / 1000,
            60,
        ),
{
}

/// A time before the beginning is cut toward it.
pub proof fn law_seconds_are_cut_toward_zero(ms: int)
    ensures
        ms >= 0 ==> 0 <= ms - crate::cluster_api::whole_seconds(ms) * 1000 < 1000,
        ms < 0 ==> -1000 < ms - crate::cluster_api::whole_seconds(ms) * 1000 <= 0,
{
}

/// The schedules are asked for up to 200, the runs of a schedule up to the number
/// in force.
pub proof fn law_cron_lookups_are_bounded(
    base: Option<&str>,
    schedule: &str,
    limit: usize,
    schedules: Option<Result<String, CronDebugError>>,
    history: Option<Result<String, CronDebugError>>,
)
    requires
        call_ensures(schedules_url, (base,), schedules),
        call_ensures(history_url, (base, schedule, limit), history),
        1 <= limit <= 100,
    ensures
        schedules matches Some(Ok(text)) ==> endpoint_url(
            base.deep_view(),
            seq!["v1"@, "cron"@, "schedules"@],
            200,
        ) == Ok::<Seq<char>, CronDebugError>(text@),
        history matches Some(Ok(text)) ==> endpoint_url(
            base.deep_view(),
            seq!["v1"@, "cron"@, "schedules"@, schedule@, "history"@],
            limit as nat,
        ) == Ok::<Seq<char>, CronDebugError>(text@),
        base is None ==> schedules == Some(Err::<String, CronDebugError>(CronDebugError::NotConfigured)),
{
}

/// A lookup is planned for an acceptable organization, cut of blanks, and an
/// acceptable schedule; an answer that announces more than two mebibytes is not
/// read.
pub proof fn law_cron_lookups_are_planned(
    org: &str,
    schedule: &str,
    limit: Option<usize>,
    list: Result<String, Reply>,
    history: Result<(String, usize), Reply>,
    length: Option<u64>,
    announced: Result<(), CronDebugError>,
)
    requires
        call_ensures(plan_list, (org,), list),
        call_ensures(plan_history, (org, schedule, limit), history),
        call_ensures(check_announced_length, (length,), announced),
    ensures
        list is Ok <==> org_acceptable(trimmed(org@)),
        list matches Ok(found) ==> found@ == trimmed(org@),
        list matches Err(reply) ==> refuses_with(reply@, 400, "invalid_organization"@),
        history is Ok <==> org_acceptable(trimmed(org@)) && schedule_acceptable(schedule@),
        history matches Ok(found) ==> found.0@ == trimmed(org@) && (limit is None ==> found.1 == 50),
        history matches Err(reply) ==> refuses_with(
            reply@,
            400,
            if org_acceptable(trimmed(org@)) {
                "invalid_schedule"@
            } else {
                "invalid_organization"@
            },
        ),
        announced is Err <==> length is Some && length->0 > 2_097_152,
        announced matches Err(error) ==> error == CronDebugError::OversizedResponse,
{
    law_refusals_say_what_failed("invalid_organization"@, ""@, 400);
    law_refusals_say_what_failed("invalid_schedule"@, ""@, 400);
}

/// The cron page looks up the schedules first and the runs only where a schedule
/// was named, keeps what it found, and stops at the first error.
pub proof fn law_cron_pages_stop_at_the_first_error(page: CronPage, result: Result<Json, CronDebugError>, next: CronPage)
    requires
        page.wf(),
        call_ensures(CronPage::record, (page, result), next),
    ensures
        result is Err && page.stage != CronStage::Rest ==> next.stage == CronStage::Rest && next.error == Some(
            result->Err_0,
        ),
        page.stage == CronStage::Schedules ==> (result matches Ok(found) ==> {
            &&& next.schedules is Some
            &&& next.schedules->0@ == crate::cron_redaction::redacted(found@)
            &&& page.schedule is None ==> next.stage == CronStage::Rest && next.error is None
            &&& page.schedule matches Some(schedule) ==> {
                &&& schedule_acceptable(schedule@) ==> next.stage == CronStage::History && next.error is None
                &&& !schedule_acceptable(schedule@) ==> next.stage == CronStage::Rest && next.error == Some(
                    CronDebugError::InvalidSchedule,
                )
            }
        }),
        page.stage == CronStage::History ==> (result matches Ok(found) ==> next.stage == CronStage::Rest && next.history
            is Some && next.history->0@ == crate::cron_redaction::redacted(found@) && next.schedules == page.schedules),
        page.stage == CronStage::Rest ==> next == page,
{
}

/// A value that is a boolean is shown as the word for it, and no other way.
pub proof fn law_shown_booleans_are_true_to_their_value(flag: bool, record: &Json, key: &str, text: String, cell: String)
    requires
        call_ensures(scalar, (&Json::Bool(flag),), text),
        call_ensures(display_field, (record, key), cell),
    ensures
        text@ == "true"@ <==> flag,
        text@ == "false"@ <==> !flag,
        record@.field(key@) matches Some(JsonView::Bool(kept)) ==> {
            &&& cell@ == "true"@ <==> kept
            &&& cell@ == "false"@ <==> !kept
        },
{
    reveal_strlit("true");
    reveal_strlit("false");
    assert("true"@.len() == 4 && "false"@.len() == 5);
}

/// There is one row per schedule, in order, and a row says that its schedule is
/// enabled exactly where that schedule's own field is true.
pub proof fn law_schedule_tables_say_what_is_enabled(value: &Json, org: &str, rows: Vec<ScheduleRow>, schedules: Seq<JsonView>)
    requires
        call_ensures(schedule_rows, (value, org), rows),
        value@.field("schedules"@) == Some(JsonView::Array(schedules)),
    ensures
        rows@.len() == schedules.len(),
        forall|i: int|
            0 <= i < rows@.len() ==> (schedules[i].field("enabled"@) matches Some(JsonView::Bool(enabled)) ==> ((
            #[trigger] rows@[i]).enabled@ == "true"@ <==> enabled)),
        forall|i: int|
            0 <= i < rows@.len() ==> (text_field(schedules[i], "name"@) matches Some(name) ==> (#[trigger] rows@[i]).name@
                == name),
{
    assert forall|i: int| 0 <= i < rows@.len() implies (schedules[i].field("enabled"@) matches Some(
        JsonView::Bool(enabled),
    ) ==> ((#[trigger] rows@[i]).enabled@ == "true"@ <==> enabled)) by {
        law_schedule_rows_say_their_schedule(rows@[i], schedules[i], org@);
    }
    assert forall|i: int| 0 <= i < rows@.len() implies (text_field(schedules[i], "name"@) matches Some(name) ==> (
    #[trigger] rows@[i]).name@ == name) by {
        law_schedule_rows_say_their_schedule(rows@[i], schedules[i], org@);
    }
}

/// There is one row per run, in order, and each cell is of the run's own field.
pub proof fn law_run_tables_say_their_runs(value: &Json, rows: Vec<RunRow>, runs: Seq<JsonView>)
    requires
        call_ensures(history_rows, (value,), rows),
        value@.field("history"@) == Some(JsonView::Array(runs)),
    ensures
        rows@.len() == runs.len(),
        forall|i: int|
            0 <= i < rows@.len() ==> cell_is((#[trigger] rows@[i]).status@, runs[i], "status"@) && cell_is(
                rows@[i].fire_id@,
                runs[i],
                "fire_id"@,
            ),
{
    assert forall|i: int| 0 <= i < rows@.len() implies cell_is((#[trigger] rows@[i]).status@, runs[i], "status"@)
        && cell_is(rows@[i].fire_id@, runs[i], "fire_id"@) by {
        law_run_rows_say_their_run(rows@[i], runs[i]);
    }
}

} // verus!
