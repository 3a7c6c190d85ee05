use vstd::prelude::*;

use std::time::Duration;

verus! {

/// One `key=value` label of a metric.
#[derive(Debug)]
pub struct MetricLabel {
    pub key: String,
    pub value: String,
}

/// What an update does to its metric.
#[derive(Debug)]
pub enum MetricValue {
    /// Add to a counter.
    Increment(u64),
    /// Set a gauge.
    Assign(usize),
    /// Record a duration, in seconds, into a histogram.
    Record(Duration),
}

/// One update of one metric: its name, its labels in order, and the change.
#[derive(Debug)]
pub struct MetricUpdate {
    pub name: String,
    pub labels: Vec<MetricLabel>,
    pub value: MetricValue,
}

pub open spec fn label_view(l: MetricLabel) -> (Seq<char>, Seq<char>) {
    (l.key@, l.value@)
}

pub open spec fn update_view(u: MetricUpdate) -> (Seq<char>, Seq<(Seq<char>, Seq<char>)>, MetricValue) {
    (u.name@, u.labels@.map_values(|l: MetricLabel| label_view(l)), u.value)
}

pub open spec fn updates_view(us: Seq<MetricUpdate>) -> Seq<(Seq<char>, Seq<(Seq<char>, Seq<char>)>, MetricValue)> {
    us.map_values(|u: MetricUpdate| update_view(u))
}

/// How a boolean label is written: `true` or `false`.
pub open spec fn bool_text(b: bool) -> Seq<char> {
    if b {
        "true"@
    } else {
        "false"@
    }
}

fn label(key: &str, value: &str) -> (r: MetricLabel)
    ensures
        label_view(r) == (key@, value@),
{
    MetricLabel { key: String::from_str(key), value: String::from_str(value) }
}

fn bool_label(key: &str, value: bool) -> (r: MetricLabel)
    ensures
        label_view(r) == (key@, bool_text(value)),
{
    proof {
        reveal_strlit("true");
        reveal_strlit("false");
    }
    if value {
        label(key, "true")
    } else {
        label(key, "false")
    }
}

fn one_update(u: MetricUpdate) -> (r: Vec<MetricUpdate>)
    ensures
        updates_view(r@) == seq![update_view(u)],
{
    let mut r: Vec<MetricUpdate> = Vec::new();
    r.push(u);
    proof {
        assert(updates_view(r@) =~= seq![update_view(u)]);
    }
    r
}

fn labels1(a: MetricLabel) -> (r: Vec<MetricLabel>)
    ensures
        r@.map_values(|l: MetricLabel| label_view(l)) == seq![label_view(a)],
{
    let mut r: Vec<MetricLabel> = Vec::new();
    r.push(a);
    proof {
        assert(r@.map_values(|l: MetricLabel| label_view(l)) =~= seq![label_view(a)]);
    }
    r
}

fn labels2(a: MetricLabel, b: MetricLabel) -> (r: Vec<MetricLabel>)
    ensures
        r@.map_values(|l: MetricLabel| label_view(l)) == seq![label_view(a), label_view(b)],
{
    let mut r: Vec<MetricLabel> = Vec::new();
    r.push(a);
    r.push(b);
    proof {
        assert(r@.map_values(|l: MetricLabel| label_view(l)) =~= seq![label_view(a), label_view(b)]);
    }
    r
}

/// A chat command was handled: `twitch_messages_total{command, success}`
/// goes up by one.
pub fn record_twitch_message(command: &str, success: bool) -> (r: Vec<MetricUpdate>)
    ensures
        updates_view(r@) == seq![
            (
                "twitch_messages_total"@,
                seq![("command"@, command@), ("success"@, bool_text(success))],
                MetricValue::Increment(1),
            ),
        ],
{
    let labels = labels2(label("command", command), bool_label("success", success));
    one_update(
        MetricUpdate {
            name: String::from_str("twitch_messages_total"),
            labels,
            value: MetricValue::Increment(1),
        },
    )
}

/// A queue operation ended: `queue_operations_total{operation, success}`
/// goes up by one.
pub fn record_queue_operation(operation: &str, success: bool) -> (r: Vec<MetricUpdate>)
    ensures
        updates_view(r@) == seq![
            (
                "queue_operations_total"@,
                seq![("operation"@, operation@), ("success"@, bool_text(success))],
                MetricValue::Increment(1),
            ),
        ],
{
    let labels = labels2(label("operation", operation), bool_label("success", success));
    one_update(
        MetricUpdate {
            name: String::from_str("queue_operations_total"),
            labels,
            value: MetricValue::Increment(1),
        },
    )
}

/// A search against one source finished: the search counter goes up, its
/// time goes into the duration histogram, and the result count is set.
pub fn record_music_search(source: &str, results: usize, duration: Duration) -> (r: Vec<MetricUpdate>)
    ensures
        updates_view(r@) == seq![
            ("music_searches_total"@, seq![("source"@, source@)], MetricValue::Increment(1)),
            (
                "music_search_duration_seconds"@,
                seq![("source"@, source@)],
                MetricValue::Record(duration),
            ),
            ("music_search_results"@, seq![("source"@, source@)], MetricValue::Assign(results)),
        ],
{
    let mut r: Vec<MetricUpdate> = Vec::new();
    r.push(
        MetricUpdate {
            name: String::from_str("music_searches_total"),
            labels: labels1(label("source", source)),
            value: MetricValue::Increment(1),
        },
    );
    r.push(
        MetricUpdate {
            name: String::from_str("music_search_duration_seconds"),
            labels: labels1(label("source", source)),
            value: MetricValue::Record(duration),
        },
    );
    r.push(
        MetricUpdate {
            name: String::from_str("music_search_results"),
            labels: labels1(label("source", source)),
            value: MetricValue::Assign(results),
        },
    );
    proof {
        assert(updates_view(r@) =~= seq![
            ("music_searches_total"@, seq![("source"@, source@)], MetricValue::Increment(1)),
            (
                "music_search_duration_seconds"@,
                seq![("source"@, source@)],
                MetricValue::Record(duration),
            ),
            ("music_search_results"@, seq![("source"@, source@)], MetricValue::Assign(results)),
        ]);
    }
    r
}

/// A stream URL lookup ended: its counter goes up, and on success its time
/// goes into the duration histogram.
pub fn record_stream_url_fetch(source: &str, success: bool, duration: Duration) -> (r: Vec<MetricUpdate>)
    ensures
        success ==> updates_view(r@) == seq![
            (
                "stream_url_fetches_total"@,
                seq![("source"@, source@), ("success"@, bool_text(success))],
                MetricValue::Increment(1),
            ),
            (
                "stream_url_fetch_duration_seconds"@,
                seq![("source"@, source@)],
                MetricValue::Record(duration),
            ),
        ],
        !success ==> updates_view(r@) == seq![
            (
                "stream_url_fetches_total"@,
                seq![("source"@, source@), ("success"@, bool_text(success))],
                MetricValue::Increment(1),
            ),
        ],
{
    let mut r: Vec<MetricUpdate> = Vec::new();
    r.push(
        MetricUpdate {
            name: String::from_str("stream_url_fetches_total"),
            labels: labels2(label("source", source), bool_label("success", success)),
            value: MetricValue::Increment(1),
        },
    );
    if success {
        r.push(
            MetricUpdate {
                name: String::from_str("stream_url_fetch_duration_seconds"),
                labels: labels1(label("source", source)),
                value: MetricValue::Record(duration),
            },
        );
    }
    proof {
        if success {
            assert(updates_view(r@) =~= seq![
                (
                    "stream_url_fetches_total"@,
                    seq![("source"@, source@), ("success"@, bool_text(success))],
                    MetricValue::Increment(1),
                ),
                (
                    "stream_url_fetch_duration_seconds"@,
                    seq![("source"@, source@)],
                    MetricValue::Record(duration),
                ),
            ]);
        } else {
            assert(updates_view(r@) =~= seq![
                (
                    "stream_url_fetches_total"@,
                    seq![("source"@, source@), ("success"@, bool_text(success))],
                    MetricValue::Increment(1),
                ),
            ]);
        }
    }
    r
}

/// A source failed: `music_errors_total{source}` goes up by one.
pub fn record_music_error(source: &str) -> (r: Vec<MetricUpdate>)
    ensures
        updates_view(r@) == seq![
            ("music_errors_total"@, seq![("source"@, source@)], MetricValue::Increment(1)),
        ],
{
    let labels = labels1(label("source", source));
    one_update(
        MetricUpdate {
            name: String::from_str("music_errors_total"),
            labels,
            value: MetricValue::Increment(1),
        },
    )
}

/// The number of connected overlays: `overlay_connections_active` is set.
pub fn record_active_connections(count: usize) -> (r: Vec<MetricUpdate>)
    ensures
        updates_view(r@) == seq![
            ("overlay_connections_active"@, Seq::<(Seq<char>, Seq<char>)>::empty(), MetricValue::Assign(count)),
        ],
{
    let labels: Vec<MetricLabel> = Vec::new();
    proof {
        assert(labels@.map_values(|l: MetricLabel| label_view(l)) =~= Seq::<(Seq<char>, Seq<char>)>::empty());
    }
    one_update(
        MetricUpdate {
            name: String::from_str("overlay_connections_active"),
            labels,
            value: MetricValue::Assign(count),
        },
    )
}

/// The length of a streamer's queue: `queue_size{streamer_id}` is set.
pub fn record_queue_size(streamer_id: &str, size: usize) -> (r: Vec<MetricUpdate>)
    ensures
        updates_view(r@) == seq![
            ("queue_size"@, seq![("streamer_id"@, streamer_id@)], MetricValue::Assign(size)),
        ],
{
    let labels = labels1(label("streamer_id", streamer_id));
    one_update(
        MetricUpdate { name: String::from_str("queue_size"), labels, value: MetricValue::Assign(size) },
    )
}

} // verus!
