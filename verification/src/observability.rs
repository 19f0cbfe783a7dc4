//! The observability plane: Prometheus and Loki queries, the classification of
//! cluster events from log lines, and Grafana deep links.

use vstd::prelude::*;
use vstd::utf8::encode_utf8;

use crate::json::{
    items_field, items_view, json_parsed, json_text, lemma_items_view, text_field, Fields, Json,
    JsonNumber, JsonView,
};
use crate::text::{
    decimal_text, escaped, parse_signed, parse_unsigned, same_text, signed_decimal,
    signed_decimal_text, signed_value, starts_with, trim_end_matches, trim_matches,
    unsigned_value, urlencode, without_surrounding, without_trailing,
};

verus! {

/// How many lines one Loki query returns at most.
pub const LOKI_QUERY_LIMIT: u32 = 500;

/// How many events are shown at most, newest first.
pub const MAX_EVENTS: usize = 100;

/// The events panel's window when none is asked for, in minutes.
pub const EVENTS_DEFAULT_MINUTES: i64 = 30;

/// The longest window of the events panel, in minutes.
pub const EVENTS_MAX_MINUTES: i64 = 1440;

/// How many scrape targets Prometheus sees up in the namespace.
pub open spec fn up_query() -> Seq<char> {
    "up{namespace=\"fiducia\"}"@
}

/// How many scrape targets Prometheus sees up in the namespace.
pub fn prom_fiducia_up_query() -> (query: &'static str)
    ensures
        query@ == up_query(),
{
    "up{namespace=\"fiducia\"}"
}

/// The LogQL that the events panel runs: the label selector, then a line filter
/// for the families of events that are classified.
pub open spec fn events_logql() -> Seq<char> {
    "{namespace=\"fiducia\"} |~ \"raft: |membership: |scheduler: |leader_transfer\""@
}

/// The LogQL that the events panel runs.
pub fn loki_events_logql() -> (query: String)
    ensures
        query@ == events_logql(),
{
    "{namespace=\"fiducia\"} |~ \"raft: |membership: |scheduler: |leader_transfer\"".to_owned()
}

/// `query` as a value in a URL.
pub open spec fn escaped_text(query: Seq<char>) -> Seq<char> {
    escaped(encode_utf8(query))
}

/// The URL of an instant query.
pub open spec fn instant_query_url(base_url: Seq<char>, query: Seq<char>) -> Seq<char> {
    without_trailing(base_url, '/') + "/api/v1/query?query="@ + escaped_text(query)
}

/// The URL of an instant query: `/api/v1/query?query=…`.
pub fn prom_instant_query_url(base_url: &str, query: &str) -> (url: String)
    ensures
        url@ == instant_query_url(base_url@, query@),
{
    let mut url = trim_end_matches(base_url, '/').to_owned();
    url.append("/api/v1/query?query=");
    url.append(urlencode(query).as_str());
    url
}

/// The URL of a range query.
pub open spec fn range_query_url(base_url: Seq<char>, query: Seq<char>, start: int, end: int, step: int) -> Seq<char> {
    without_trailing(base_url, '/') + "/api/v1/query_range?query="@ + escaped_text(query) + "&start="@
        + signed_decimal(start) + "&end="@ + signed_decimal(end) + "&step="@ + signed_decimal(step)
}

/// The URL of a range query: `/api/v1/query_range?query=…&start=…&end=…&step=…`,
/// in seconds.
pub fn prom_range_query_url(base_url: &str, query: &str, start: i64, end: i64, step: u32) -> (url: String)
    ensures
        url@ == range_query_url(base_url@, query@, start as int, end as int, step as int),
{
    let mut url = trim_end_matches(base_url, '/').to_owned();
    url.append("/api/v1/query_range?query=");
    url.append(urlencode(query).as_str());
    url.append("&start=");
    url.append(signed_decimal_text(start).as_str());
    url.append("&end=");
    url.append(signed_decimal_text(end).as_str());
    url.append("&step=");
    url.append(signed_decimal_text(step as i64).as_str());
    url
}

/// The URL of a log query.
pub open spec fn log_query_url(base_url: Seq<char>, query: Seq<char>, start_ns: int, end_ns: int, limit: int) -> Seq<
    char,
> {
    without_trailing(base_url, '/') + "/loki/api/v1/query_range?query="@ + escaped_text(query) + "&start="@
        + signed_decimal(start_ns) + "&end="@ + signed_decimal(end_ns) + "&limit="@ + signed_decimal(limit)
}

/// The URL of a log query:
/// `/loki/api/v1/query_range?query=…&start=…&end=…&limit=…`, in nanoseconds.
pub fn loki_query_range_url(base_url: &str, query: &str, start_ns: i64, end_ns: i64, limit: u32) -> (url: String)
    ensures
        url@ == log_query_url(base_url@, query@, start_ns as int, end_ns as int, limit as int),
{
    let mut url = trim_end_matches(base_url, '/').to_owned();
    url.append("/loki/api/v1/query_range?query=");
    url.append(urlencode(query).as_str());
    url.append("&start=");
    url.append(signed_decimal_text(start_ns).as_str());
    url.append("&end=");
    url.append(signed_decimal_text(end_ns).as_str());
    url.append("&limit=");
    url.append(signed_decimal_text(limit as i64).as_str());
    url
}

/// `n`, held within the range of the type.
pub open spec fn saturated(n: int) -> int {
    if n > i64::MAX {
        i64::MAX as int
    } else if n < i64::MIN {
        i64::MIN as int
    } else {
        n
    }
}

/// `n`, held within the range of the type.
fn saturate(n: i128) -> (value: i64)
    ensures
        value == saturated(n as int),
{
    if n > 0x7fff_ffff_ffff_ffffi128 {
        0x7fff_ffff_ffff_ffff
    } else if n < -0x8000_0000_0000_0000i128 {
        i64::MIN
    } else {
        n as i64
    }
}

/// The end of the events window, in nanoseconds.
pub open spec fn window_end(now_ms: int) -> int {
    saturated(now_ms * 1_000_000)
}

/// The start of the events window, in nanoseconds.
pub open spec fn window_start(now_ms: int, since_minutes: int) -> int {
    saturated(window_end(now_ms) - saturated(since_minutes * 60_000_000_000))
}

/// The URL that fetches the events of the last `since_minutes` minutes.
pub fn recent_events_url(loki_url: &str, now_ms: i64, since_minutes: i64) -> (url: String)
    ensures
        url@ == log_query_url(
            loki_url@,
            events_logql(),
            window_start(now_ms as int, since_minutes as int),
            window_end(now_ms as int),
            LOKI_QUERY_LIMIT as int,
        ),
{
    let end_ns: i64 = saturate(now_ms as i128 * 1_000_000);
    let span: i64 = saturate(since_minutes as i128 * 60_000_000_000);
    let start_ns: i64 = saturate(end_ns as i128 - span as i128);
    loki_query_range_url(loki_url, loki_events_logql().as_str(), start_ns, end_ns, LOKI_QUERY_LIMIT)
}

/// The window in force: what was asked for, held between one minute and a day.
pub open spec fn clamped_minutes(requested: Option<i64>) -> int {
    let minutes = match requested {
        Some(minutes) => minutes,
        None => EVENTS_DEFAULT_MINUTES,
    };
    if minutes < 1 {
        1
    } else if minutes > EVENTS_MAX_MINUTES {
        EVENTS_MAX_MINUTES as int
    } else {
        minutes as int
    }
}

/// The window in force, in minutes.
pub fn clamp_since_minutes(requested: Option<i64>) -> (minutes: i64)
    ensures
        minutes == clamped_minutes(requested),
{
    let minutes: i64 = match requested {
        Some(minutes) => minutes,
        None => EVENTS_DEFAULT_MINUTES,
    };
    if minutes < 1 {
        1
    } else if minutes > EVENTS_MAX_MINUTES {
        EVENTS_MAX_MINUTES
    } else {
        minutes
    }
}

/// What the summary card knows of Prometheus.
pub enum PromScrape {
    NotConfigured,
    Error { error: String },
    /// How many scrape targets are up.
    Up { targets: usize },
}

/// The samples or series of a Prometheus answer.
pub open spec fn result_items(answer: JsonView) -> Option<Seq<JsonView>> {
    match answer.field("data"@) {
        Some(data) => items_field(data, "result"@),
        None => None,
    }
}

/// The samples or series of a Prometheus answer; nothing when it omits them.
pub fn prom_result_vector(answer: &Json) -> (items: Option<&Vec<Json>>)
    ensures
        match items {
            Some(items) => result_items(answer@) == Some(items_view(items@)),
            None => result_items(answer@) is None,
        },
{
    match answer.get("data") {
        Some(data) => data.get_array("result"),
        None => None,
    }
}

/// Whether a sample says that its target is up.
pub open spec fn sample_up(sample: JsonView) -> bool {
    sample.field("value"@) matches Some(value) && value.item(1) matches Some(state) && state.as_text() == Some(
        "1"@,
    )
}

/// How many samples say that their target is up.
pub open spec fn up_count(samples: Seq<JsonView>) -> nat
    decreases samples.len(),
{
    if samples.len() == 0 {
        0
    } else {
        up_count(samples.drop_last()) + (if sample_up(samples.last()) {
            1nat
        } else {
            0
        })
    }
}

/// Whether a sample says that its target is up.
fn sample_is_up(sample: &Json) -> (up: bool)
    ensures
        up == sample_up(sample@),
{
    match sample.get("value") {
        Some(value) => match value.at(1) {
            Some(state) => match state.as_str() {
                Some(text) => same_text(text, "1"),
                None => false,
            },
            None => false,
        },
        None => false,
    }
}

/// How many samples say that their target is up.
pub fn count_up_targets(samples: &[Json]) -> (targets: usize)
    ensures
        targets == up_count(items_view(samples@)),
{
    let mut targets: usize = 0;
    let mut i: usize = 0;
    assert(items_view(samples@.take(0)) =~= Seq::empty());
    while i < samples.len()
        invariant
            i <= samples@.len(),
            targets <= i,
            targets == up_count(items_view(samples@.take(i as int))),
        decreases samples@.len() - i,
    {
        assert(samples@.take(i + 1).drop_last() =~= samples@.take(i as int));
        assert(items_view(samples@.take(i + 1)).drop_last() =~= items_view(samples@.take(i as int)));
        if sample_is_up(&samples[i]) {
            targets = targets + 1;
        }
        i = i + 1;
    }
    assert(samples@.take(i as int) =~= samples@);
    targets
}

/// One classified cluster event.
pub struct ClusterEvent {
    /// When it happened, in milliseconds since the beginning of 1970.
    pub at_ms: i64,
    /// Its machine-readable kind.
    pub kind: &'static str,
    pub shard: Option<u64>,
    pub node: Option<String>,
    pub from: Option<String>,
    pub to: Option<String>,
    pub reason: Option<String>,
    pub message: String,
}

/// The texts and numbers of a [`ClusterEvent`].
pub struct EventView {
    pub at_ms: i64,
    pub kind: Seq<char>,
    pub shard: Option<u64>,
    pub node: Option<Seq<char>>,
    pub from: Option<Seq<char>>,
    pub to: Option<Seq<char>>,
    pub reason: Option<Seq<char>>,
    pub message: Seq<char>,
}

impl View for ClusterEvent {
    type V = EventView;

    open spec fn view(&self) -> EventView {
        EventView {
            at_ms: self.at_ms,
            kind: self.kind@,
            shard: self.shard,
            node: self.node.deep_view(),
            from: self.from.deep_view(),
            to: self.to.deep_view(),
            reason: self.reason.deep_view(),
            message: self.message@,
        }
    }
}

/// The views of events, in order.
pub open spec fn event_views(events: Seq<ClusterEvent>) -> Seq<EventView> {
    events.map_values(|event: ClusterEvent| event@)
}

/// The kind of event that a log line reports: by the metric it counts, else by
/// how its message begins.
pub open spec fn event_kind(metric: Option<Seq<char>>, message: Seq<char>) -> Option<Seq<char>> {
    if metric == Some("fiducia.raft.leader_transfer"@) {
        Some("leader_transfer"@)
    } else if metric == Some("fiducia.brain.leader_transfer_intent"@) {
        Some("leader_transfer_intent"@)
    } else if "raft: election timeout"@.is_prefix_of(message) {
        Some("election_started"@)
    } else if "raft: won election"@.is_prefix_of(message) {
        Some("election_won"@)
    } else if "raft: stepped down"@.is_prefix_of(message) {
        Some("step_down"@)
    } else if "raft: leader lease lapsed"@.is_prefix_of(message) {
        Some("check_quorum_step_down"@)
    } else if "membership: new node registered"@.is_prefix_of(message) {
        Some("node_registered"@)
    } else if "membership: node marked Draining"@.is_prefix_of(message) {
        Some("node_draining"@)
    } else if "membership: node declared DEAD"@.is_prefix_of(message) {
        Some("node_dead"@)
    } else if "scheduler: (re)assigning shard placement"@.is_prefix_of(message) {
        Some("placement_assigned"@)
    } else if "scheduler: reconcile applied placement changes"@.is_prefix_of(message) {
        Some("placement_reconciled"@)
    } else {
        None
    }
}

/// The kind of event that a log line reports.
fn kind_of(metric: Option<&str>, message: &str) -> (kind: Option<&'static str>)
    ensures
        kind.deep_view() == event_kind(metric.deep_view(), message@),
{
    if let Some(metric) = metric {
        if same_text(metric, "fiducia.raft.leader_transfer") {
            return Some("leader_transfer");
        }
        if same_text(metric, "fiducia.brain.leader_transfer_intent") {
            return Some("leader_transfer_intent");
        }
    }
    if starts_with(message, "raft: election timeout") {
        Some("election_started")
    } else if starts_with(message, "raft: won election") {
        Some("election_won")
    } else if starts_with(message, "raft: stepped down") {
        Some("step_down")
    } else if starts_with(message, "raft: leader lease lapsed") {
        Some("check_quorum_step_down")
    } else if starts_with(message, "membership: new node registered") {
        Some("node_registered")
    } else if starts_with(message, "membership: node marked Draining") {
        Some("node_draining")
    } else if starts_with(message, "membership: node declared DEAD") {
        Some("node_dead")
    } else if starts_with(message, "scheduler: (re)assigning shard placement") {
        Some("placement_assigned")
    } else if starts_with(message, "scheduler: reconcile applied placement changes") {
        Some("placement_reconciled")
    } else {
        None
    }
}

/// A number that a log line records by value, or as a text in quotes.
pub open spec fn logged_number(line: JsonView, field: Seq<char>) -> Option<int> {
    match line.field(field) {
        Some(JsonView::Number(number)) => JsonView::Number(number).as_unsigned(),
        Some(JsonView::Text(text)) => unsigned_value(without_surrounding(text, '"')),
        _ => None,
    }
}

/// A text that a log line records, with or without quotes, or as a number; none
/// when it is empty.
pub open spec fn logged_text(line: JsonView, field: Seq<char>) -> Option<Seq<char>> {
    let text = match line.field(field) {
        Some(JsonView::Text(text)) => without_surrounding(text, '"'),
        Some(JsonView::Number(number)) => number.text(),
        _ => Seq::empty(),
    };
    if text.len() == 0 {
        None
    } else {
        Some(text)
    }
}

/// A number that a log line records.
fn field_u64(line: &Json, field: &str) -> (number: Option<u64>)
    ensures
        match number {
            Some(number) => logged_number(line@, field@) == Some(number as int),
            None => logged_number(line@, field@) is None,
        },
{
    match line.get(field) {
        Some(value) => match value {
            Json::Number(_) => value.as_u64(),
            Json::Text(text) => parse_unsigned(trim_matches(text.as_str(), '"')),
            _ => None,
        },
        None => None,
    }
}

/// A text that a log line records.
fn field_string(line: &Json, field: &str) -> (text: Option<String>)
    ensures
        text.deep_view() == logged_text(line@, field@),
{
    let text = match line.get(field) {
        Some(Json::Text(text)) => trim_matches(text.as_str(), '"').to_owned(),
        Some(Json::Number(JsonNumber::Unsigned(n))) => decimal_text(*n),
        Some(Json::Number(JsonNumber::Negative(n))) => signed_decimal_text(*n),
        Some(Json::Number(JsonNumber::Float(text))) => text.clone(),
        _ => String::new(),
    };
    if text.as_str().unicode_len() == 0 {
        None
    } else {
        Some(text)
    }
}

/// The event that a log line reports.
pub open spec fn classified(at_ms: i64, line: Option<JsonView>) -> Option<EventView> {
    match line {
        Some(line) => match text_field(line, "message"@) {
            Some(message) => match event_kind(text_field(line, "metric.name"@), message) {
                Some(kind) => Some(
                    EventView {
                        at_ms,
                        kind,
                        shard: match logged_number(line, "shard"@) {
                            Some(shard) => Some(shard as u64),
                            None => None,
                        },
                        node: logged_text(line, "node"@),
                        from: logged_text(line, "from"@),
                        to: logged_text(line, "to"@),
                        reason: logged_text(line, "reason"@),
                        message,
                    },
                ),
                None => None,
            },
            None => None,
        },
        None => None,
    }
}

/// The view of an optional event.
pub open spec fn optional_event(event: Option<ClusterEvent>) -> Option<EventView> {
    match event {
        Some(event) => Some(event@),
        None => None,
    }
}

/// The event that a log line reports, once it is read: its fields stand at the
/// top level.
pub fn classify_log_value(at_ms: i64, line: &Json) -> (event: Option<ClusterEvent>)
    ensures
        optional_event(event) == classified(at_ms, Some(line@)),
{
    let message = match line.get_str("message") {
        Some(message) => message,
        None => return None,
    };
    match kind_of(line.get_str("metric.name"), message) {
        Some(kind) => Some(
            ClusterEvent {
                at_ms,
                kind,
                shard: field_u64(line, "shard"),
                node: field_string(line, "node"),
                from: field_string(line, "from"),
                to: field_string(line, "to"),
                reason: field_string(line, "reason"),
                message: message.to_owned(),
            },
        ),
        None => None,
    }
}

/// The event that a log line reports; nothing for a line that is not JSON or
/// reports no such event.
pub fn classify_log_line(at_ms: i64, line: &str) -> (event: Option<ClusterEvent>)
    ensures
        optional_event(event) == classified(at_ms, json_parsed(encode_utf8(line@))),
{
    match Json::from_bytes(line.as_bytes()) {
        Some(value) => classify_log_value(at_ms, &value),
        None => None,
    }
}

/// Nanoseconds, as a text, in whole milliseconds; zero for anything else.
pub open spec fn entry_ms(timestamp: Seq<char>) -> i64 {
    match signed_value(timestamp) {
        Some(ns) => if ns >= 0 {
            (ns / 1_000_000) as i64
        } else {
            (-((-ns) / 1_000_000)) as i64
        },
        None => 0,
    }
}

/// Nanoseconds, as a text, in whole milliseconds.
fn entry_time(timestamp: &str) -> (at_ms: i64)
    ensures
        at_ms == entry_ms(timestamp@),
{
    match parse_signed(timestamp) {
        Some(ns) => if ns >= 0 {
            ns / 1_000_000
        } else if ns == i64::MIN {
            -9_223_372_036_854
        } else {
            -((-ns) / 1_000_000)
        },
        None => 0,
    }
}

/// The event that one entry of a log stream reports: a pair of a timestamp and a
/// line.
pub open spec fn entry_event(entry: JsonView) -> Option<EventView> {
    match (entry.item(0), entry.item(1)) {
        (Some(timestamp), Some(line)) => match (timestamp.as_text(), line.as_text()) {
            (Some(timestamp), Some(line)) => classified(entry_ms(timestamp), json_parsed(encode_utf8(line))),
            _ => None,
        },
        _ => None,
    }
}

/// The events that the entries of a log stream report, in order.
pub open spec fn entry_events(entries: Seq<JsonView>) -> Seq<EventView>
    decreases entries.len(),
{
    if entries.len() == 0 {
        Seq::empty()
    } else {
        match entry_event(entries.last()) {
            Some(event) => entry_events(entries.drop_last()).push(event),
            None => entry_events(entries.drop_last()),
        }
    }
}

/// The events that log streams report, in order.
pub open spec fn stream_events(streams: Seq<JsonView>) -> Seq<EventView>
    decreases streams.len(),
{
    if streams.len() == 0 {
        Seq::empty()
    } else {
        match items_field(streams.last(), "values"@) {
            Some(entries) => stream_events(streams.drop_last()) + entry_events(entries),
            None => stream_events(streams.drop_last()),
        }
    }
}

/// `event` put into events that are in order, newest first, behind those that
/// are as new.
pub open spec fn placed(events: Seq<EventView>, event: EventView) -> Seq<EventView>
    decreases events.len(),
{
    if events.len() > 0 && events.last().at_ms < event.at_ms {
        placed(events.drop_last(), event).push(events.last())
    } else {
        events.push(event)
    }
}

/// Events newest first; those of one time keep their order.
pub open spec fn newest_first(events: Seq<EventView>) -> Seq<EventView>
    decreases events.len(),
{
    if events.len() == 0 {
        Seq::empty()
    } else {
        placed(newest_first(events.drop_last()), events.last())
    }
}

/// The first events of a list, as many as are shown.
pub open spec fn shown(events: Seq<EventView>) -> Seq<EventView> {
    if events.len() > MAX_EVENTS {
        events.take(MAX_EVENTS as int)
    } else {
        events
    }
}

/// The events that a Loki answer reports.
pub open spec fn answer_events(answer: JsonView) -> Seq<EventView> {
    match result_items(answer) {
        Some(streams) => shown(newest_first(stream_events(streams))),
        None => Seq::empty(),
    }
}

/// The event that one entry of a log stream reports.
fn event_of_entry(entry: &Json) -> (event: Option<ClusterEvent>)
    ensures
        optional_event(event) == entry_event(entry@),
{
    let timestamp = match entry.at(0) {
        Some(timestamp) => timestamp.as_str(),
        None => return None,
    };
    let line = match entry.at(1) {
        Some(line) => line.as_str(),
        None => return None,
    };
    match (timestamp, line) {
        (Some(timestamp), Some(line)) => classify_log_line(entry_time(timestamp), line),
        _ => None,
    }
}

/// Puts an event into events that are in order, newest first.
fn place(events: &mut Vec<ClusterEvent>, event: ClusterEvent)
    ensures
        event_views(final(events)@) == placed(event_views(old(events)@), event@),
{
    let ghost before = events@;
    let ghost views = event_views(before);
    let mut at: usize = events.len();
    assert(views.take(at as int) =~= views);
    assert(placed(views, event@) =~= placed(views.take(at as int), event@) + views.skip(at as int));
    while at > 0 && events[at - 1].at_ms < event.at_ms
        invariant
            at <= events@.len(),
            events@ == before,
            views == event_views(before),
            placed(views, event@) == placed(views.take(at as int), event@) + views.skip(at as int),
        decreases at,
    {
        let ghost head = views.take(at as int);
        assert(head.last() == before[at - 1]@);
        assert(head.drop_last() =~= views.take(at - 1));
        assert(placed(head, event@) + views.skip(at as int) =~= placed(views.take(at - 1), event@) + views.skip(
            at - 1,
        ));
        at = at - 1;
    }
    assert(at > 0 ==> views.take(at as int).last() == before[at - 1]@);
    let ghost added = event@;
    events.insert(at, event);
    assert(event_views(events@) =~= views.take(at as int).push(added) + views.skip(at as int));
}

/// The events that a Loki answer reports: what cannot be classified is dropped,
/// and the newest are kept, newest first.
pub fn parse_loki_events(answer: &Json) -> (events: Vec<ClusterEvent>)
    ensures
        event_views(events@) == answer_events(answer@),
{
    let mut events: Vec<ClusterEvent> = Vec::new();
    let streams = match prom_result_vector(answer) {
        Some(streams) => streams,
        None => {
            assert(event_views(events@) =~= Seq::empty());
            return events;
        },
    };
    let mut n: usize = 0;
    assert(items_view(streams@.take(0)) =~= Seq::empty());
    assert(event_views(events@) =~= newest_first(stream_events(items_view(streams@.take(0)))));
    while n < streams.len()
        invariant
            n <= streams@.len(),
            event_views(events@) == newest_first(stream_events(items_view(streams@.take(n as int)))),
        decreases streams@.len() - n,
    {
        let ghost before = stream_events(items_view(streams@.take(n as int)));
        assert(streams@.take(n + 1).drop_last() =~= streams@.take(n as int));
        assert(items_view(streams@.take(n + 1)).drop_last() =~= items_view(streams@.take(n as int)));
        match streams[n].get_array("values") {
            Some(entries) => {
                let mut i: usize = 0;
                assert(items_view(entries@.take(0)) =~= Seq::empty());
                assert(before + entry_events(items_view(entries@.take(0))) =~= before);
                while i < entries.len()
                    invariant
                        i <= entries@.len(),
                        event_views(events@) == newest_first(
                            before + entry_events(items_view(entries@.take(i as int))),
                        ),
                    decreases entries@.len() - i,
                {
                    let ghost so_far = before + entry_events(items_view(entries@.take(i as int)));
                    assert(entries@.take(i + 1).drop_last() =~= entries@.take(i as int));
                    assert(items_view(entries@.take(i + 1)).drop_last() =~= items_view(entries@.take(i as int)));
                    if let Some(event) = event_of_entry(&entries[i]) {
                        let ghost added = event@;
                        place(&mut events, event);
                        assert(so_far.push(added).drop_last() =~= so_far);
                        assert(before + entry_events(items_view(entries@.take(i + 1))) =~= so_far.push(added));
                    }
                    i = i + 1;
                }
                assert(entries@.take(i as int) =~= entries@);
            },
            None => {},
        }
        n = n + 1;
    }
    assert(streams@.take(n as int) =~= streams@);
    let ghost all = events@;
    if events.len() > MAX_EVENTS {
        events.truncate(MAX_EVENTS);
        assert(event_views(events@) =~= event_views(all).take(MAX_EVENTS as int));
    }
    events
}

/// Whether events are in order, newest first.
pub open spec fn in_order(events: Seq<EventView>) -> bool {
    forall|i: int, j: int| 0 <= i < j < events.len() ==> (#[trigger] events[i]).at_ms >= (#[trigger] events[j]).at_ms
}

/// Placing an event keeps the order and every event.
proof fn lemma_placed(events: Seq<EventView>, event: EventView)
    requires
        in_order(events),
    ensures
        in_order(placed(events, event)),
        placed(events, event).to_multiset() == events.to_multiset().insert(event),
        placed(events, event).len() == events.len() + 1,
    decreases events.len(),
{
    broadcast use vstd::seq_lib::group_to_multiset_ensures;

    if events.len() > 0 && events.last().at_ms < event.at_ms {
        let front = events.drop_last();
        let last = events.last();
        lemma_placed(front, event);
        let head = placed(front, event);
        assert(events =~= front.push(last));
        assert forall|i: int| 0 <= i < head.len() implies (#[trigger] head[i]).at_ms >= last.at_ms by {
            assert(head.to_multiset().contains(head[i]));
            if head[i] != event {
                assert(front.to_multiset().contains(head[i]));
                assert(front.contains(head[i]));
                let k = choose|k: int| 0 <= k < front.len() && front[k] == head[i];
                assert(events[k].at_ms >= events[events.len() - 1].at_ms);
            }
        }
        assert(placed(events, event).to_multiset() =~= events.to_multiset().insert(event));
    }
}

/// Events are shown newest first, none is lost or made up, and a cut drops only
/// events that are no newer than those shown.
pub proof fn law_events_are_newest_first(events: Seq<EventView>)
    ensures
        in_order(newest_first(events)),
        newest_first(events).to_multiset() == events.to_multiset(),
        shown(newest_first(events)).len() <= MAX_EVENTS,
        forall|i: int, j: int|
            0 <= i < shown(newest_first(events)).len() <= j < newest_first(events).len() ==> (
            #[trigger] shown(newest_first(events))[i]).at_ms >= (#[trigger] newest_first(events)[j]).at_ms,
    decreases events.len(),
{
    broadcast use vstd::seq_lib::group_to_multiset_ensures;

    if events.len() > 0 {
        law_events_are_newest_first(events.drop_last());
        lemma_placed(newest_first(events.drop_last()), events.last());
        assert(events =~= events.drop_last().push(events.last()));
    } else {
        assert(newest_first(events) =~= events);
    }
}

/// The panes of a Grafana Explore link.
pub open spec fn explore_panes(datasource: Seq<char>, expression: Seq<char>, from: Seq<char>) -> JsonView {
    JsonView::Object(
        Map::empty().insert("datasource"@, JsonView::Text(datasource)).insert(
            "queries"@,
            JsonView::Array(
                seq![
                    JsonView::Object(
                        Map::empty().insert("refId"@, JsonView::Text("A"@)).insert(
                            "expr"@,
                            JsonView::Text(expression),
                        ),
                    ),
                ],
            ),
        ).insert(
            "range"@,
            JsonView::Object(
                Map::empty().insert("from"@, JsonView::Text(from)).insert("to"@, JsonView::Text("now"@)),
            ),
        ),
    )
}

/// A Grafana Explore link.
pub open spec fn explore_url(base: Seq<char>, panes: JsonView) -> Seq<char> {
    without_trailing(base, '/') + "/explore?left="@ + escaped_text(json_text(panes))
}

/// A Grafana Explore link for one expression.
fn grafana_explore_url(grafana_base: &str, datasource: &str, expression: &str, from: &str) -> (url: String)
    ensures
        url@ == explore_url(grafana_base@, explore_panes(datasource@, expression@, from@)),
{
    let query = Fields::new().with("refId", Json::text("A")).with("expr", Json::text(expression)).done();
    let mut queries: Vec<Json> = Vec::new();
    let ghost only = query@;
    queries.push(query);
    proof {
        lemma_items_view(queries@);
    }
    assert(items_view(queries@) =~= seq![only]);
    let range = Fields::new().with("from", Json::text(from)).with("to", Json::text("now")).done();
    let panes = Fields::new().with("datasource", Json::text(datasource)).with("queries", Json::Array(queries)).with(
        "range",
        range,
    ).done();
    let mut url = trim_end_matches(grafana_base, '/').to_owned();
    url.append("/explore?left=");
    url.append(urlencode(panes.to_text().as_str()).as_str());
    url
}

/// `now-{minutes}m`.
pub open spec fn minutes_ago(minutes: int) -> Seq<char> {
    "now-"@ + signed_decimal(minutes) + "m"@
}

/// A Grafana Explore link for a Loki query over the panel's window.
pub fn grafana_explore_loki_url(grafana_base: &str, logql: &str, since_minutes: i64) -> (url: String)
    ensures
        url@ == explore_url(
            grafana_base@,
            explore_panes("loki"@, logql@, minutes_ago(since_minutes as int)),
        ),
{
    let mut from = "now-".to_owned();
    from.append(signed_decimal_text(since_minutes).as_str());
    from.append("m");
    grafana_explore_url(grafana_base, "loki", logql, from.as_str())
}

/// A Grafana Explore link for a Prometheus query over the last hour.
pub fn grafana_explore_prom_url(grafana_base: &str, promql: &str) -> (url: String)
    ensures
        url@ == explore_url(grafana_base@, explore_panes("prometheus"@, promql@, "now-1h"@)),
{
    grafana_explore_url(grafana_base, "prometheus", promql, "now-1h")
}

} // verus!
