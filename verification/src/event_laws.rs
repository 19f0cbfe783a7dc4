//! Which log lines are events, of which kind, what an event says of its line, and
//! which window of the logs is asked for.

use vstd::prelude::*;
use vstd::utf8::encode_utf8;

use crate::json::{items_field, text_field, JsonView, NumberView};
use crate::observability::{
    answer_events, clamped_minutes, classified, entry_event, entry_events, entry_ms, event_kind, events_logql,
    explore_panes, explore_url, instant_query_url, law_events_are_newest_first, log_query_url, logged_text,
    minutes_ago, newest_first, range_query_url, result_items, sample_up, saturated, shown, stream_events, up_count,
    up_query, window_end, window_start, EventView,
};
use crate::sync_reply_laws::has_text;
use crate::text::{escaped, law_escaping_is_undone, signed_decimal, unescaped};
use crate::text_laws::{law_bare_texts_stay, law_numbers_read_back, law_signed_numbers_read_back};

verus! {

/// A text begins as its prefix does.
proof fn lemma_begins(message: Seq<char>, prefix: Seq<char>, k: int)
    requires
        prefix.is_prefix_of(message),
        0 <= k < prefix.len(),
    ensures
        message[k] == prefix[k],
{
}

/// Whether a metric is one of the two that name a transfer of leadership.
pub open spec fn is_transfer(metric: Option<Seq<char>>) -> bool {
    metric == Some("fiducia.raft.leader_transfer"@) || metric == Some("fiducia.brain.leader_transfer_intent"@)
}

/// A line with a transfer metric is of that transfer's kind, whatever it says. Any
/// other line is of the one kind whose message it begins with, and is no event if
/// it begins with none: each message has a kind of its own, and no kind comes of
/// another message.
pub proof fn law_each_message_has_its_own_kind(metric: Option<Seq<char>>, message: Seq<char>)
    ensures
        metric == Some("fiducia.raft.leader_transfer"@) ==> event_kind(metric, message) == Some("leader_transfer"@),
        metric == Some("fiducia.brain.leader_transfer_intent"@) ==> event_kind(metric, message) == Some(
            "leader_transfer_intent"@,
        ),
        !is_transfer(metric) ==> {
            let kind = event_kind(metric, message);
            &&& kind == Some("election_started"@) <==> "raft: election timeout"@.is_prefix_of(message)
            &&& kind == Some("election_won"@) <==> "raft: won election"@.is_prefix_of(message)
            &&& kind == Some("step_down"@) <==> "raft: stepped down"@.is_prefix_of(message)
            &&& kind == Some("check_quorum_step_down"@) <==> "raft: leader lease lapsed"@.is_prefix_of(message)
            &&& kind == Some("node_registered"@) <==> "membership: new node registered"@.is_prefix_of(message)
            &&& kind == Some("node_draining"@) <==> "membership: node marked Draining"@.is_prefix_of(message)
            &&& kind == Some("node_dead"@) <==> "membership: node declared DEAD"@.is_prefix_of(message)
            &&& kind == Some("placement_assigned"@) <==> "scheduler: (re)assigning shard placement"@.is_prefix_of(
                message,
            )
            &&& kind == Some("placement_reconciled"@)
                <==> "scheduler: reconcile applied placement changes"@.is_prefix_of(message)
            &&& kind is None <==> !("raft: election timeout"@.is_prefix_of(message)
                || "raft: won election"@.is_prefix_of(message) || "raft: stepped down"@.is_prefix_of(message)
                || "raft: leader lease lapsed"@.is_prefix_of(message)
                || "membership: new node registered"@.is_prefix_of(message)
                || "membership: node marked Draining"@.is_prefix_of(message)
                || "membership: node declared DEAD"@.is_prefix_of(message)
                || "scheduler: (re)assigning shard placement"@.is_prefix_of(message)
                || "scheduler: reconcile applied placement changes"@.is_prefix_of(message))
            &&& kind != Some("leader_transfer"@) && kind != Some("leader_transfer_intent"@)
        },
        event_kind(metric, message) == Some("node_dead"@) ==> "membership: node declared DEAD"@.is_prefix_of(message),
{
    reveal_strlit("leader_transfer");
    reveal_strlit("leader_transfer_intent");
    reveal_strlit("election_started");
    reveal_strlit("election_won");
    reveal_strlit("step_down");
    reveal_strlit("check_quorum_step_down");
    reveal_strlit("node_registered");
    reveal_strlit("node_draining");
    reveal_strlit("node_dead");
    reveal_strlit("placement_assigned");
    reveal_strlit("placement_reconciled");
    reveal_strlit("fiducia.raft.leader_transfer");
    reveal_strlit("fiducia.brain.leader_transfer_intent");
    assert("leader_transfer"@.len() == 15 && "leader_transfer_intent"@.len() == 22);
    assert("election_started"@.len() == 16 && "election_won"@.len() == 12 && "step_down"@.len() == 9);
    assert("check_quorum_step_down"@.len() == 22 && "node_registered"@.len() == 15);
    assert("node_draining"@.len() == 13 && "node_dead"@.len() == 9 && "placement_assigned"@.len() == 18);
    assert("placement_reconciled"@.len() == 20 && "fiducia.raft.leader_transfer"@.len() == 28);
    assert("fiducia.brain.leader_transfer_intent"@.len() == 36);
    assert("leader_transfer"@[0] == 'l' && "node_registered"@[0] == 'n');
    assert("leader_transfer_intent"@[0] == 'l' && "check_quorum_step_down"@[0] == 'c');
    assert("step_down"@[0] == 's' && "node_dead"@[0] == 'n');
    lemma_messages_differ(message);
}

/// No message begins as two of the events do.
proof fn lemma_messages_differ(message: Seq<char>)
    ensures
        "raft: election timeout"@.is_prefix_of(message) ==> message.len() > 6 && message[0] == 'r' && message[6] == 'e',
        "raft: won election"@.is_prefix_of(message) ==> message.len() > 6 && message[0] == 'r' && message[6] == 'w',
        "raft: stepped down"@.is_prefix_of(message) ==> message.len() > 6 && message[0] == 'r' && message[6] == 's',
        "raft: leader lease lapsed"@.is_prefix_of(message) ==> message.len() > 6 && message[0] == 'r' && message[6]
            == 'l',
        "membership: new node registered"@.is_prefix_of(message) ==> message.len() > 17 && message[0] == 'm'
            && message[13] == 'e',
        "membership: node marked Draining"@.is_prefix_of(message) ==> message.len() > 17 && message[0] == 'm'
            && message[13] == 'o' && message[17] == 'm',
        "membership: node declared DEAD"@.is_prefix_of(message) ==> message.len() > 17 && message[0] == 'm'
            && message[13] == 'o' && message[17] == 'd',
        "scheduler: (re)assigning shard placement"@.is_prefix_of(message) ==> message.len() > 11 && message[0] == 's'
            && message[11] == '(',
        "scheduler: reconcile applied placement changes"@.is_prefix_of(message) ==> message.len() > 11 && message[0]
            == 's' && message[11] == 'r',
{
    reveal_strlit("raft: election timeout");
    reveal_strlit("raft: won election");
    reveal_strlit("raft: stepped down");
    reveal_strlit("raft: leader lease lapsed");
    reveal_strlit("membership: new node registered");
    reveal_strlit("membership: node marked Draining");
    reveal_strlit("membership: node declared DEAD");
    reveal_strlit("scheduler: (re)assigning shard placement");
    reveal_strlit("scheduler: reconcile applied placement changes");
    if "raft: election timeout"@.is_prefix_of(message) {
        lemma_begins(message, "raft: election timeout"@, 0);
        lemma_begins(message, "raft: election timeout"@, 6);
    }
    if "raft: won election"@.is_prefix_of(message) {
        lemma_begins(message, "raft: won election"@, 0);
        lemma_begins(message, "raft: won election"@, 6);
    }
    if "raft: stepped down"@.is_prefix_of(message) {
        lemma_begins(message, "raft: stepped down"@, 0);
        lemma_begins(message, "raft: stepped down"@, 6);
    }
    if "raft: leader lease lapsed"@.is_prefix_of(message) {
        lemma_begins(message, "raft: leader lease lapsed"@, 0);
        lemma_begins(message, "raft: leader lease lapsed"@, 6);
    }
    if "membership: new node registered"@.is_prefix_of(message) {
        lemma_begins(message, "membership: new node registered"@, 0);
        lemma_begins(message, "membership: new node registered"@, 13);
    }
    if "membership: node marked Draining"@.is_prefix_of(message) {
        lemma_begins(message, "membership: node marked Draining"@, 0);
        lemma_begins(message, "membership: node marked Draining"@, 13);
        lemma_begins(message, "membership: node marked Draining"@, 17);
    }
    if "membership: node declared DEAD"@.is_prefix_of(message) {
        lemma_begins(message, "membership: node declared DEAD"@, 0);
        lemma_begins(message, "membership: node declared DEAD"@, 13);
        lemma_begins(message, "membership: node declared DEAD"@, 17);
    }
    if "scheduler: (re)assigning shard placement"@.is_prefix_of(message) {
        lemma_begins(message, "scheduler: (re)assigning shard placement"@, 0);
        lemma_begins(message, "scheduler: (re)assigning shard placement"@, 11);
    }
    if "scheduler: reconcile applied placement changes"@.is_prefix_of(message) {
        lemma_begins(message, "scheduler: reconcile applied placement changes"@, 0);
        lemma_begins(message, "scheduler: reconcile applied placement changes"@, 11);
    }
}

/// Whether a found text is what a line holds under a name: a text as it is where
/// it is not quoted, a whole number by its digits, and nothing where the line has
/// no such field.
pub open spec fn takes_text(found: Option<Seq<char>>, line: JsonView, name: Seq<char>) -> bool {
    &&& line.field(name) is None ==> found is None
    &&& line.field(name) matches Some(JsonView::Text(text)) ==> (text.len() > 0 && text[0] != '"' && text.last() != '"'
        ==> found == Some(text))
    &&& line.field(name) matches Some(JsonView::Number(NumberView::Integer(n))) ==> found == Some(signed_decimal(n))
}

/// What a line holds under a name.
proof fn lemma_takes_text(line: JsonView, name: Seq<char>)
    ensures
        takes_text(logged_text(line, name), line, name),
{
    if let Some(JsonView::Text(text)) = line.field(name) {
        if text.len() > 0 && text[0] != '"' && text.last() != '"' {
            law_bare_texts_stay(text, '"');
        }
    }
    if let Some(JsonView::Number(NumberView::Integer(n))) = line.field(name) {
        law_signed_numbers_read_back(n, n);
    }
}

/// A line is an event exactly where its message, with its metric, has a kind. The
/// event has that kind, the message as it is, the time of the entry, and each of
/// its parts from the line's field of the same name.
pub proof fn law_events_say_what_was_logged(at_ms: i64, line: JsonView)
    ensures
        ({
            let message = text_field(line, "message"@);
            let metric = text_field(line, "metric.name"@);
            let event = classified(at_ms, Some(line));
            &&& event is Some <==> message is Some && event_kind(metric, message->0) is Some
            &&& event is Some ==> {
                &&& event->0.at_ms == at_ms
                &&& event->0.message == message->0
                &&& Some(event->0.kind) == event_kind(metric, message->0)
                &&& takes_text(event->0.node, line, "node"@)
                &&& takes_text(event->0.from, line, "from"@)
                &&& takes_text(event->0.to, line, "to"@)
                &&& takes_text(event->0.reason, line, "reason"@)
                &&& line.field("shard"@) is None ==> event->0.shard is None
                &&& line.field("shard"@) matches Some(JsonView::Number(NumberView::Integer(n))) ==> (0 <= n <= u64::MAX
                    ==> event->0.shard is Some && event->0.shard->0 as int == n)
            }
        }),
        classified(at_ms, None) is None,
{
    lemma_takes_text(line, "node"@);
    lemma_takes_text(line, "from"@);
    lemma_takes_text(line, "to"@);
    lemma_takes_text(line, "reason"@);
}

/// A shard that was logged as text, bare or quoted, reads as its number.
pub proof fn law_logged_shards_read_back(line: JsonView, shard: u64)
    requires
        line.field("shard"@) == Some(JsonView::Text(crate::text::decimal(shard as nat))) || line.field("shard"@) == Some(
            JsonView::Text(seq!['"'] + crate::text::decimal(shard as nat) + seq!['"']),
        ),
    ensures
        crate::observability::logged_number(line, "shard"@) == Some(shard as int),
{
    let digits = crate::text::decimal(shard as nat);
    law_numbers_read_back(shard as nat);
    assert('0' <= digits[0] <= '9' && '0' <= digits[digits.len() - 1] <= '9');
    law_bare_texts_stay(digits, '"');
    let quoted = seq!['"'] + digits + seq!['"'];
    assert(quoted.skip(1) =~= digits.push('"'));
    assert(digits.push('"').drop_last() =~= digits);
    reveal_with_fuel(crate::text::without_leading_char, 2);
    reveal_with_fuel(crate::text::without_trailing, 2);
    assert(digits.push('"')[0] == digits[0]);
    assert(crate::text::without_surrounding(quoted, '"') =~= digits);
}

/// The time of an entry is its nanoseconds without what is left of a millisecond,
/// toward zero; an entry without a readable time is of the time zero.
pub proof fn law_entries_keep_their_milliseconds(ns: i64, other: Seq<char>)
    ensures
        ns >= 0 ==> 0 <= ns - entry_ms(signed_decimal(ns as int)) * 1_000_000 < 1_000_000,
        ns < 0 ==> -1_000_000 < ns - entry_ms(signed_decimal(ns as int)) * 1_000_000 <= 0,
        crate::text::signed_value(other) is None ==> entry_ms(other) == 0,
{
    law_signed_numbers_read_back(ns as int, ns as int);
}

/// An entry is a time and a line, both texts in that order: its event is the one
/// that the line makes at that time, and any other entry is none.
pub proof fn law_entries_are_a_time_and_a_line(time: Seq<char>, line: Seq<char>, entry: JsonView)
    ensures
        entry_event(JsonView::Array(seq![JsonView::Text(time), JsonView::Text(line)])) == classified(
            entry_ms(time),
            crate::json::json_parsed(encode_utf8(line)),
        ),
        !(entry is Array) ==> entry_event(entry) is None,
        entry matches JsonView::Array(items) ==> (items.len() < 2 || !(items[0] is Text) || !(items[1] is Text)
            ==> entry_event(entry) is None),
{
    let both = seq![JsonView::Text(time), JsonView::Text(line)];
    assert(both[0] == JsonView::Text(time) && both[1] == JsonView::Text(line));
}

/// Every entry of every stream that is an event is in the answer's events, each
/// of those is an entry, they stand newest first, and at most 100 are shown: none
/// that is left out is newer than one that is shown.
pub proof fn law_answers_show_the_newest_events(answer: JsonView, streams: Seq<JsonView>)
    requires
        answer.field("data"@) is Some,
        answer.field("data"@)->0.field("result"@) == Some(JsonView::Array(streams)),
    ensures
        ({
            let events = stream_events(streams);
            let listed = answer_events(answer);
            &&& forall|i: int, j: int|
                0 <= i < j < listed.len() ==> (#[trigger] listed[i]).at_ms >= (#[trigger] listed[j]).at_ms
            &&& listed.len() == (if events.len() > 100 {
                100
            } else {
                events.len()
            })
            &&& forall|k: int| 0 <= k < listed.len() ==> is_some_entry(streams, #[trigger] listed[k])
            &&& events.len() <= 100 ==> forall|i: int, j: int, event: EventView| #[trigger]
                is_entry(streams, i, j, event) ==> listed.contains(event)
            &&& forall|i: int, j: int, event: EventView, k: int|
                #[trigger] is_entry(streams, i, j, event) && !listed.contains(event) && 0 <= k < listed.len()
                    ==> (#[trigger] listed[k]).at_ms >= event.at_ms
        }),
{
    broadcast use vstd::seq_lib::group_to_multiset_ensures;

    let events = stream_events(streams);
    let sorted = newest_first(events);
    let listed = answer_events(answer);
    law_events_are_newest_first(events);
    assert(result_items(answer) == Some(streams));
    assert(listed == shown(sorted));
    assert(sorted.len() == events.len()) by {
        assert(sorted.to_multiset().len() == sorted.len());
        assert(events.to_multiset().len() == events.len());
    }
    assert forall|i: int, j: int| 0 <= i < j < listed.len() implies (#[trigger] listed[i]).at_ms >= (
    #[trigger] listed[j]).at_ms by {
        assert(listed[i] == sorted[i] && listed[j] == sorted[j]);
    }
    assert forall|k: int| 0 <= k < listed.len() implies is_some_entry(streams, #[trigger] listed[k]) by {
        assert(listed[k] == sorted[k]);
        assert(sorted.contains(sorted[k]));
        assert(sorted.to_multiset().count(sorted[k]) > 0);
        assert(events.contains(sorted[k]));
        let at = choose|at: int| 0 <= at < events.len() && events[at] == sorted[k];
        let found = lemma_event_is_entry(streams, at);
        assert(is_entry(streams, found.0, found.1, listed[k]));
    }
    assert forall|i: int, j: int, event: EventView| #[trigger] is_entry(streams, i, j, event) implies sorted.contains(
        event,
    ) by {
        lemma_entry_is_event(streams, i, j, event);
        assert(events.to_multiset().count(event) > 0);
        assert(sorted.to_multiset().count(event) > 0);
    }
    assert forall|i: int, j: int, event: EventView, k: int|
        #[trigger] is_entry(streams, i, j, event) && !listed.contains(event) && 0 <= k < listed.len() implies (
    #[trigger] listed[k]).at_ms >= event.at_ms by {
        assert(sorted.contains(event));
        let at = choose|at: int| 0 <= at < sorted.len() && sorted[at] == event;
        if at < listed.len() {
            assert(listed[at] == event);
        }
        assert(shown(sorted)[k].at_ms >= sorted[at].at_ms);
    }
    if events.len() <= 100 {
        assert(listed == sorted);
    }
}

/// Whether entry `j` of stream `i` is an event.
pub open spec fn is_entry(streams: Seq<JsonView>, i: int, j: int, event: EventView) -> bool {
    &&& 0 <= i < streams.len()
    &&& streams[i].field("values"@) matches Some(JsonView::Array(entries))
    &&& 0 <= j < entries.len()
    &&& entry_event(entries[j]) == Some(event)
}

/// Whether some entry of some stream is that event.
pub open spec fn is_some_entry(streams: Seq<JsonView>, event: EventView) -> bool {
    exists|i: int, j: int| #[trigger] is_entry(streams, i, j, event)
}

/// An event of a stream is one of its entries.
proof fn lemma_stream_event(entries: Seq<JsonView>, at: int) -> (j: int)
    requires
        0 <= at < entry_events(entries).len(),
    ensures
        0 <= j < entries.len(),
        entry_event(entries[j]) == Some(entry_events(entries)[at]),
    decreases entries.len(),
{
    let front = entries.drop_last();
    if at < entry_events(front).len() {
        let j = lemma_stream_event(front, at);
        assert(front[j] == entries[j]);
        j
    } else {
        entries.len() - 1
    }
}

/// An entry that is an event is among those of its stream.
proof fn lemma_stream_entry(entries: Seq<JsonView>, j: int)
    requires
        0 <= j < entries.len(),
        entry_event(entries[j]) is Some,
    ensures
        entry_events(entries).contains(entry_event(entries[j])->0),
    decreases entries.len(),
{
    let front = entries.drop_last();
    let events = entry_events(entries);
    let event = entry_event(entries[j])->0;
    if j < front.len() {
        assert(front[j] == entries[j]);
        lemma_stream_entry(front, j);
        let k = choose|k: int| 0 <= k < entry_events(front).len() && entry_events(front)[k] == event;
        assert(events[k] == event);
    } else {
        assert(events[events.len() - 1] == event);
    }
}

/// Every event is an entry.
proof fn lemma_event_is_entry(streams: Seq<JsonView>, at: int) -> (found: (int, int))
    requires
        0 <= at < stream_events(streams).len(),
    ensures
        is_entry(streams, found.0, found.1, stream_events(streams)[at]),
    decreases streams.len(),
{
    let front = streams.drop_last();
    let before = stream_events(front);
    if at < before.len() {
        let found = lemma_event_is_entry(front, at);
        assert(stream_events(streams)[at] == before[at]);
        assert(front[found.0] == streams[found.0]);
        found
    } else {
        let entries = items_field(streams.last(), "values"@)->0;
        let j = lemma_stream_event(entries, at - before.len());
        (streams.len() - 1, j)
    }
}

/// Every entry that is an event is among the events.
proof fn lemma_entry_is_event(streams: Seq<JsonView>, i: int, j: int, event: EventView)
    requires
        is_entry(streams, i, j, event),
    ensures
        stream_events(streams).contains(event),
    decreases streams.len(),
{
    let front = streams.drop_last();
    let before = stream_events(front);
    let all = stream_events(streams);
    if i < front.len() {
        assert(front[i] == streams[i]);
        lemma_entry_is_event(front, i, j, event);
        let k = choose|k: int| 0 <= k < before.len() && before[k] == event;
        assert(all[k] == event);
    } else {
        let entries = items_field(streams.last(), "values"@)->0;
        lemma_stream_entry(entries, j);
        let k = choose|k: int| 0 <= k < entry_events(entries).len() && entry_events(entries)[k] == event;
        assert(all[before.len() + k] == event);
    }
}

/// A sample is up exactly where its value's second item is the text 1, and one
/// sample more is counted exactly where it is up.
pub proof fn law_samples_are_counted_where_up(samples: Seq<JsonView>, sample: JsonView)
    ensures
        sample_up(sample) <==> (sample.field("value"@) matches Some(JsonView::Array(items)) && items.len() > 1 && items[1]
            == JsonView::Text("1"@)),
        up_count(samples.push(sample)) == up_count(samples) + (if sample_up(sample) {
            1int
        } else {
            0
        }),
        up_count(Seq::empty()) == 0,
        up_count(samples) <= samples.len(),
    decreases samples.len(),
{
    assert(samples.push(sample).drop_last() =~= samples);
    if samples.len() > 0 {
        law_samples_are_counted_where_up(samples.drop_last(), samples.last());
    }
}

/// The window ends now and begins the minutes before, in nanoseconds, wherever
/// that can be said in 64 bits. The minutes are those asked for between 1 and a
/// day, and 30 where none are asked for.
pub proof fn law_windows_reach_back_the_minutes_asked(now_ms: int, requested: Option<i64>)
    ensures
        requested is None ==> clamped_minutes(requested) == 30,
        requested is Some && 1 <= requested->0 <= 1440 ==> clamped_minutes(requested) == requested->0,
        requested is Some && requested->0 < 1 ==> clamped_minutes(requested) == 1,
        requested is Some && requested->0 > 1440 ==> clamped_minutes(requested) == 1440,
        0 <= now_ms <= 9_223_372_036_854 ==> {
            let minutes = clamped_minutes(requested);
            &&& window_end(now_ms) == now_ms * 1_000_000
            &&& window_end(now_ms) - window_start(now_ms, minutes) == minutes * 60_000_000_000
        },
{
}

/// A number of nanoseconds that 64 bits cannot hold is the nearest that they can, and
/// any other stays as it is.
pub proof fn law_times_are_kept_within_bounds(n: int)
    ensures
        -0x8000_0000_0000_0000 <= n <= 0x7fff_ffff_ffff_ffff ==> saturated(n) == n,
        n > 0x7fff_ffff_ffff_ffff ==> saturated(n) == 0x7fff_ffff_ffff_ffff,
        n < -0x8000_0000_0000_0000 ==> saturated(n) == -0x8000_0000_0000_0000,
        window_end(n) == saturated(n * 1_000_000),
{
}

/// Whether a URL is a base without a trailing slash, then a path with a query, then
/// that query's text, escaped so that it reads back, then the rest.
pub open spec fn asks(url: Seq<char>, base: Seq<char>, path: Seq<char>, query: Seq<char>, rest: Seq<char>) -> bool {
    &&& crate::text::without_trailing(base, '/').len() > 0 ==> crate::text::without_trailing(base, '/').last() != '/'
    &&& url == crate::text::without_trailing(base, '/') + path + escaped(encode_utf8(query)) + rest
    &&& unescaped(escaped(encode_utf8(query))) == Some(encode_utf8(query))
}

/// The URLs of the queries ask the base they are given for the query they are
/// given, over the window and with the step or limit they are given.
pub proof fn law_query_urls_ask_what_is_given(base: Seq<char>, query: Seq<char>, start: int, end: int, n: int)
    ensures
        asks(instant_query_url(base, query), base, "/api/v1/query?query="@, query, Seq::empty()),
        asks(
            range_query_url(base, query, start, end, n),
            base,
            "/api/v1/query_range?query="@,
            query,
            "&start="@ + signed_decimal(start) + "&end="@ + signed_decimal(end) + "&step="@ + signed_decimal(n),
        ),
        asks(
            log_query_url(base, query, start, end, n),
            base,
            "/loki/api/v1/query_range?query="@,
            query,
            "&start="@ + signed_decimal(start) + "&end="@ + signed_decimal(end) + "&limit="@ + signed_decimal(n),
        ),
        up_query() == "up{namespace=\"fiducia\"}"@,
        events_logql() == "{namespace=\"fiducia\"} |~ \"raft: |membership: |scheduler: |leader_transfer\""@,
{
    law_escaping_is_undone(encode_utf8(query));
    crate::text_laws::law_trailing_characters_go(base, '/');
    assert(instant_query_url(base, query) =~= crate::text::without_trailing(base, '/') + "/api/v1/query?query="@
        + escaped(encode_utf8(query)) + Seq::empty());
    assert(range_query_url(base, query, start, end, n) =~= crate::text::without_trailing(base, '/')
        + "/api/v1/query_range?query="@ + escaped(encode_utf8(query)) + ("&start="@ + signed_decimal(start) + "&end="@
        + signed_decimal(end) + "&step="@ + signed_decimal(n)));
    assert(log_query_url(base, query, start, end, n) =~= crate::text::without_trailing(base, '/')
        + "/loki/api/v1/query_range?query="@ + escaped(encode_utf8(query)) + ("&start="@ + signed_decimal(start)
        + "&end="@ + signed_decimal(end) + "&limit="@ + signed_decimal(n)));
}

/// A link into Grafana opens one query on the named source from the given time
/// until now.
pub proof fn law_explore_links_open_the_query(base: Seq<char>, source: Seq<char>, expression: Seq<char>, minutes: int)
    ensures
        ({
            let panes = explore_panes(source, expression, minutes_ago(minutes));
            &&& has_text(panes, "datasource"@, source)
            &&& panes.field("queries"@) matches Some(JsonView::Array(queries))
            &&& queries.len() == 1
            &&& has_text(queries[0], "refId"@, "A"@)
            &&& has_text(queries[0], "expr"@, expression)
            &&& panes.field("range"@) is Some
            &&& has_text(panes.field("range"@)->0, "from"@, "now-"@ + signed_decimal(minutes) + "m"@)
            &&& has_text(panes.field("range"@)->0, "to"@, "now"@)
            &&& asks(
                explore_url(base, panes),
                base,
                "/explore?left="@,
                crate::json::json_text(panes),
                Seq::empty(),
            )
        }),
{
    reveal_strlit("datasource");
    reveal_strlit("queries");
    reveal_strlit("range");
    reveal_strlit("refId");
    reveal_strlit("expr");
    reveal_strlit("from");
    reveal_strlit("to");
    assert("datasource"@.len() == 10 && "queries"@.len() == 7 && "range"@.len() == 5);
    assert("refId"@.len() == 5 && "expr"@.len() == 4 && "from"@.len() == 4 && "to"@.len() == 2);
    assert("range"@[1] == 'a' && "refId"@[1] == 'e' && "expr"@[0] == 'e' && "from"@[0] == 'f');
    let panes = explore_panes(source, expression, minutes_ago(minutes));
    let query = crate::json::json_text(panes);
    law_escaping_is_undone(encode_utf8(query));
    crate::text_laws::law_trailing_characters_go(base, '/');
    assert(explore_url(base, panes) =~= crate::text::without_trailing(base, '/') + "/explore?left="@ + escaped(
        encode_utf8(query),
    ) + Seq::empty());
}

} // verus!
