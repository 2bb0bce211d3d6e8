use semcache::metrics::{
    cache_status_label, dashboard_metrics, is_timed_status, limit_history_length, CacheStatus,
    ChartType, Counters, MAX_LENGTH,
};

#[test]
fn cache_status_labels() {
    assert_eq!(cache_status_label(Some(CacheStatus::Hit)), "hit");
    assert_eq!(cache_status_label(Some(CacheStatus::Miss)), "miss");
    assert_eq!(cache_status_label(Some(CacheStatus::NotApplicable)), "n/a");
    assert_eq!(cache_status_label(None), "unknown");
}

#[test]
fn every_status_but_not_found_is_timed() {
    assert!(is_timed_status(200));
    assert!(is_timed_status(500));
    assert!(is_timed_status(403));
    assert!(!is_timed_status(404));
}

#[test]
fn dashboard_shows_the_five_figures() {
    let metrics = dashboard_metrics(Counters {
        cache_size: 3,
        cache_hit: 10,
        cache_miss: 5,
        mem_usage_kb: 5000,
    });
    let shown: Vec<(String, i64, ChartType)> =
        metrics.into_iter().map(|m| (m.name, m.value, m.chart_type)).collect();
    assert_eq!(
        shown,
        vec![
            (String::from("Num entries in the cache"), 3, ChartType::StatCard),
            (String::from("Total chat completion requests"), 15, ChartType::StatCard),
            (String::from("Cache hits"), 10, ChartType::Line),
            (String::from("Cache miss"), 5, ChartType::Line),
            (
                String::from("Memory usage (mb) - only available in Linux systems"),
                4,
                ChartType::Line
            ),
        ]
    );
}

#[test]
fn history_keeps_its_newest_fifty() {
    assert_eq!(MAX_LENGTH, 50);
    let short: Vec<u32> = (0..50).collect();
    assert_eq!(limit_history_length(short.clone()), short);
    let long: Vec<u32> = (0..51).collect();
    assert_eq!(limit_history_length(long), (1..51).collect::<Vec<u32>>());
    let longer: Vec<u32> = (0..200).collect();
    assert_eq!(limit_history_length(longer), (150..200).collect::<Vec<u32>>());
    assert_eq!(limit_history_length(Vec::<u32>::new()), Vec::<u32>::new());
}
