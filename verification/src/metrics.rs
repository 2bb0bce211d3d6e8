use vstd::prelude::*;
use vstd::string::StringExecFns;

verus! {

/// How the cache fared on a request.
#[derive(Clone, Copy, Debug, PartialEq, Eq)]
pub enum CacheStatus {
    Hit,
    Miss,
    /// The request is of a kind that is never cached.
    NotApplicable,
}

/// The label under which a cache status is counted; a response that carries no status
/// counts as unknown.
pub open spec fn cache_status_text(status: Option<CacheStatus>) -> Seq<char> {
    match status {
        Some(CacheStatus::Hit) => "hit"@,
        Some(CacheStatus::Miss) => "miss"@,
        Some(CacheStatus::NotApplicable) => "n/a"@,
        None => "unknown"@,
    }
}

/// The label under which a cache status is counted.
pub fn cache_status_label(status: Option<CacheStatus>) -> (label: &'static str)
    ensures
        label@ == cache_status_text(status),
{
    match status {
        Some(CacheStatus::Hit) => "hit",
        Some(CacheStatus::Miss) => "miss",
        Some(CacheStatus::NotApplicable) => "n/a",
        None => "unknown",
    }
}

/// Whether a response of the given status enters the request timings: all do but those
/// for routes that do not exist.
pub fn is_timed_status(status: u16) -> (timed: bool)
    ensures
        timed == (status != 404),
{
    status != 404
}

/// How the dashboard draws a metric.
#[derive(Clone, Copy, Debug, PartialEq, Eq)]
pub enum ChartType {
    Bar,
    Line,
    Doughnut,
    StatCard,
}

/// One figure on the dashboard.
#[derive(Clone, Debug)]
pub struct DashboardMetrics {
    pub name: String,
    pub value: i64,
    pub chart_type: ChartType,
}

/// The counters that the dashboard shows, as read at one moment.
#[derive(Clone, Copy, Debug)]
pub struct Counters {
    pub cache_size: i64,
    pub cache_hit: u64,
    pub cache_miss: u64,
    pub mem_usage_kb: i64,
}

/// The figures of the dashboard for given counters: the entries in the cache, the
/// requests in all, the hits, the misses, and the memory in use in megabytes.
pub open spec fn dashboard_figures(counters: Counters) -> Seq<(Seq<char>, int, ChartType)> {
    seq![
        ("Num entries in the cache"@, counters.cache_size as int, ChartType::StatCard),
        (
            "Total chat completion requests"@,
            counters.cache_hit + counters.cache_miss,
            ChartType::StatCard,
        ),
        ("Cache hits"@, counters.cache_hit as int, ChartType::Line),
        ("Cache miss"@, counters.cache_miss as int, ChartType::Line),
        (
            "Memory usage (mb) - only available in Linux systems"@,
            counters.mem_usage_kb as int / 1024,
            ChartType::Line,
        ),
    ]
}

/// A figure as the dashboard model sees it.
pub open spec fn figure_of(metric: DashboardMetrics) -> (Seq<char>, int, ChartType) {
    (metric.name@, metric.value as int, metric.chart_type)
}

/// The dashboard's figures for the given counters.
pub fn dashboard_metrics(counters: Counters) -> (metrics: Vec<DashboardMetrics>)
    requires
        counters.cache_hit + counters.cache_miss <= i64::MAX,
        counters.mem_usage_kb >= 0,
    ensures
        metrics@.map_values(|m: DashboardMetrics| figure_of(m)) == dashboard_figures(counters),
{
    let mut metrics: Vec<DashboardMetrics> = Vec::new();
    metrics.push(
        DashboardMetrics {
            name: String::from_str("Num entries in the cache"),
            value: counters.cache_size,
            chart_type: ChartType::StatCard,
        },
    );
    metrics.push(
        DashboardMetrics {
            name: String::from_str("Total chat completion requests"),
            value: (counters.cache_hit + counters.cache_miss) as i64,
            chart_type: ChartType::StatCard,
        },
    );
    metrics.push(
        DashboardMetrics {
            name: String::from_str("Cache hits"),
            value: counters.cache_hit as i64,
            chart_type: ChartType::Line,
        },
    );
    metrics.push(
        DashboardMetrics {
            name: String::from_str("Cache miss"),
            value: counters.cache_miss as i64,
            chart_type: ChartType::Line,
        },
    );
    metrics.push(
        DashboardMetrics {
            name: String::from_str("Memory usage (mb) - only available in Linux systems"),
            value: counters.mem_usage_kb / 1024,
            chart_type: ChartType::Line,
        },
    );
    assert(metrics@.map_values(|m: DashboardMetrics| figure_of(m)) =~= dashboard_figures(
        counters,
    ));
    metrics
}

/// The most snapshots that the dashboard's history keeps.
pub const MAX_LENGTH: usize = 50;

/// `history` cut down to its newest `MAX_LENGTH` snapshots.
pub fn limit_history_length<T>(history: Vec<T>) -> (limited: Vec<T>)
    ensures
        limited@ == if history@.len() > MAX_LENGTH {
            history@.skip(history@.len() - MAX_LENGTH)
        } else {
            history@
        },
{
    let mut history = history;
    if history.len() > MAX_LENGTH {
        let excess = history.len() - MAX_LENGTH;
        let newest = history.split_off(excess);
        newest
    } else {
        history
    }
}

} // verus!
