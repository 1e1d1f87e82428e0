use openai_proxy::metrics::{
    chart_point, chart_start_bucket, clock_label, daily_increment, dashboard_ranges, date_bucket,
    error_counts, extract_metrics_from_transaction, hour_bucket, hourly_increment, hourly_point,
    price_tier, window_start, ChartParams, LoggedTransaction, PriceTier, ResponseBodyFields,
    ResponseFields, TimeWindow, TransactionMetrics, UsageFields,
};
use openai_proxy::fragments::stats_window_label;
use openai_proxy::logging::log_timestamp;

const WINDOWS: [(&str, TimeWindow, i64, &str, i64); 7] = [
    ("1m", TimeWindow::Minutes1, 60, "1 minute", 10),
    ("5m", TimeWindow::Minutes5, 300, "5 minutes", 60),
    ("15m", TimeWindow::Minutes15, 900, "15 minutes", 300),
    ("1h", TimeWindow::Hours1, 3600, "1 hour", 300),
    ("6h", TimeWindow::Hours6, 21600, "6 hours", 1800),
    ("12h", TimeWindow::Hours12, 43200, "12 hours", 3600),
    ("24h", TimeWindow::Hours24, 86400, "24 hours", 3600),
];

#[test]
fn time_windows() {
    for (name, w, secs, label, bucket) in WINDOWS {
        let parsed = TimeWindow::from_str(name).unwrap();
        assert!(parsed == w);
        assert_eq!(parsed.as_seconds(), secs);
        assert_eq!(parsed.as_label(), label);
        assert_eq!(parsed.bucket_seconds(), bucket);
        assert_eq!(secs % bucket, 0);
        assert_eq!(stats_window_label(name), label);
    }
    assert!(TimeWindow::from_str("2h").is_none());
    assert!(TimeWindow::from_str("1H").is_none());
    assert!(TimeWindow::from_param(Some("7d")) == TimeWindow::Hours1);
    assert!(TimeWindow::from_param(None) == TimeWindow::Hours1);
    assert!(TimeWindow::from_param(Some("6h")) == TimeWindow::Hours6);
}

#[test]
fn chart_params_defaults() {
    let p = ChartParams { hours: None, window: None };
    assert_eq!(p.hours_or_default(), 24);
    assert!(p.time_window() == TimeWindow::Hours1);
    assert_eq!(p.window_text(), "1h");
    let q = ChartParams { hours: Some(3), window: Some("bogus".to_string()) };
    assert_eq!(q.hours_or_default(), 3);
    assert!(q.time_window() == TimeWindow::Hours1);
    assert_eq!(q.window_text(), "bogus");
}

#[test]
fn hour_buckets() {
    assert_eq!(hour_bucket(0), 0);
    assert_eq!(hour_bucket(3599), 0);
    assert_eq!(hour_bucket(7201), 7200);
    assert_eq!(hour_bucket(1_700_000_123), 1_699_999_200);
    assert_eq!(hour_bucket(-1), 0);
    assert_eq!(hour_bucket(-3601), -3600);
}

#[test]
fn window_starts() {
    assert_eq!(window_start(10_000, TimeWindow::Minutes5), 9_700);
    assert_eq!(chart_start_bucket(1_700_000_123, 24), 1_699_912_800);
    let r = dashboard_ranges(1_700_000_123);
    assert_eq!(r.last_hour_bucket, 1_699_995_600);
    assert_eq!(r.today_start, 1_699_920_000);
    assert_eq!(dashboard_ranges(-1).today_start, -86_400);
}

#[test]
fn status_error_columns() {
    assert_eq!(error_counts(200), (0, 0));
    assert_eq!(error_counts(404), (1, 0));
    assert_eq!(error_counts(499), (1, 0));
    assert_eq!(error_counts(500), (0, 1));
    assert_eq!(error_counts(503), (0, 1));
    assert_eq!(error_counts(399), (0, 0));
}

#[test]
fn pricing_tiers() {
    assert!(price_tier("gpt-4o") == PriceTier::Gpt4o);
    assert!(price_tier("GPT-4o-2024-08-06") == PriceTier::Gpt4o);
    assert!(price_tier("gpt-4o-mini") == PriceTier::Gpt4oMini);
    assert!(price_tier("GPT-4o-mini-2024-07-18") == PriceTier::Gpt4oMini);
    assert!(price_tier("gpt-4-turbo-preview") == PriceTier::Gpt4Turbo);
    assert!(price_tier("gpt-4-0613") == PriceTier::Gpt4);
    assert!(price_tier("GPT-3.5-TURBO") == PriceTier::Gpt35Turbo);
    assert!(price_tier("llama-3") == PriceTier::Unlisted);
}

fn logged(ts: Option<&str>, status: Option<u64>, body: Option<ResponseBodyFields>) -> LoggedTransaction {
    LoggedTransaction {
        has_request: true,
        timestamp: ts.map(|s| s.to_string()),
        response: Some(ResponseFields { status, latency_ms: Some(120), body }),
    }
}

fn body(model: Option<&str>, usage: Option<UsageFields>) -> ResponseBodyFields {
    ResponseBodyFields { model: model.map(|m| m.to_string()), usage }
}

#[test]
fn metrics_extraction() {
    let usage = UsageFields { prompt_tokens: Some(10), completion_tokens: None };
    let tx = logged(Some("2026-03-26T12:00:00.123+00:00"), Some(200), Some(body(Some("gpt-4o"), Some(usage))));
    let m = extract_metrics_from_transaction(&tx).unwrap();
    assert_eq!(m.model, "gpt-4o");
    assert_eq!(m.status, 200);
    assert_eq!(m.latency_ms, 120);
    assert_eq!(m.prompt_tokens, 10);
    assert_eq!(m.completion_tokens, 0);
    assert_eq!(m.timestamp, 1_774_526_400);

    let offset = logged(Some("2026-03-26T14:00:00+02:00"), Some(70_000), Some(body(None, None)));
    let m2 = extract_metrics_from_transaction(&offset).unwrap();
    assert_eq!(m2.timestamp, 1_774_526_400);
    assert_eq!(m2.model, "unknown");
    assert_eq!(m2.status, (70_000u64 % 65_536) as u16);
    assert_eq!((m2.prompt_tokens, m2.completion_tokens), (0, 0));

    let wraps = logged(Some("2026-03-26T12:00:00Z"), Some(200), Some(body(None, Some(UsageFields { prompt_tokens: Some(u64::MAX), completion_tokens: Some(5) }))));
    assert_eq!(extract_metrics_from_transaction(&wraps).unwrap().prompt_tokens, -1);
}

#[test]
fn metrics_need_all_fields() {
    assert!(extract_metrics_from_transaction(&logged(Some("not a time"), Some(200), Some(body(None, None)))).is_none());
    assert!(extract_metrics_from_transaction(&logged(None, Some(200), Some(body(None, None)))).is_none());
    assert!(extract_metrics_from_transaction(&logged(Some("2026-03-26T12:00:00Z"), None, Some(body(None, None)))).is_none());
    assert!(extract_metrics_from_transaction(&logged(Some("2026-03-26T12:00:00Z"), Some(200), None)).is_none());
    let mut no_request = logged(Some("2026-03-26T12:00:00Z"), Some(200), Some(body(None, None)));
    no_request.has_request = false;
    assert!(extract_metrics_from_transaction(&no_request).is_none());
    let no_response = LoggedTransaction { has_request: true, timestamp: Some("2026-03-26T12:00:00Z".to_string()), response: None };
    assert!(extract_metrics_from_transaction(&no_response).is_none());
}

fn metrics(status: u16, ts: i64) -> TransactionMetrics {
    TransactionMetrics {
        model: "gpt-4".to_string(),
        status,
        latency_ms: 99,
        prompt_tokens: 3,
        completion_tokens: 4,
        timestamp: ts,
    }
}

#[test]
fn table_increments() {
    let h = hourly_increment(&metrics(502, 1_774_529_999));
    assert_eq!(h.hour_bucket, 1_774_526_400);
    assert_eq!(h.model, "gpt-4");
    assert_eq!((h.errors_4xx, h.errors_5xx), (0, 1));
    assert_eq!((h.latency_ms, h.prompt_tokens, h.completion_tokens), (99, 3, 4));
    let d = daily_increment(&metrics(200, 1_774_529_999)).unwrap();
    assert_eq!(d.date, "2026-03-26");
    assert_eq!(d.model, "gpt-4");
    assert_eq!(d.total_tokens, 7);
}

#[test]
fn chart_labels() {
    assert_eq!(clock_label(1_774_526_400).as_deref(), Some("12:00"));
    assert_eq!(clock_label(-60).as_deref(), Some("23:59"));
    assert!(clock_label(i64::MAX).is_none());
    assert_eq!(date_bucket(0).as_deref(), Some("1970-01-01"));
    let p = chart_point(3_600 * 5 + 60 * 7, 12, "now");
    assert_eq!((p.label.as_str(), p.requests), ("05:07", 12));
    let q = hourly_point(i64::MIN, 1, "now");
    assert_eq!((q.hour.as_str(), q.requests), ("now", 1));
}

#[test]
fn logged_timestamps_come_back_as_metrics() {
    for (secs, nanos) in [
        (1_700_000_000i64, 0u32),
        (1_700_000_000, 123_000_000),
        (1_700_000_000, 123_456_789),
        (0, 1),
        (-62_167_219_200, 0),
        (253_402_300_799, 999_999_999),
    ] {
        let ts = log_timestamp(secs, nanos).expect("a time in years 0 to 9999");
        let tx = LoggedTransaction {
            has_request: true,
            timestamp: Some(ts),
            response: Some(ResponseFields {
                status: Some(201),
                latency_ms: Some(42),
                body: Some(ResponseBodyFields { model: None, usage: None }),
            }),
        };
        let m = extract_metrics_from_transaction(&tx).expect("a complete log entry");
        assert_eq!(m.timestamp, secs);
        assert_eq!(m.status, 201);
        assert_eq!(m.latency_ms, 42);
        assert_eq!(m.model, "unknown");
    }
}

#[test]
fn window_labels_state_their_length() {
    for (_, w, secs, label, _) in WINDOWS {
        assert_eq!(w.as_seconds(), secs);
        let (n, unit) = if secs < 3600 { (secs / 60, "minute") } else { (secs / 3600, "hour") };
        let plural = if n == 1 { "" } else { "s" };
        assert_eq!(w.as_label(), format!("{n} {unit}{plural}"));
        assert_eq!(w.as_label(), label);
    }
}

#[test]
fn listed_models_are_priced_by_name() {
    assert!(price_tier("gpt-4o-mini") == PriceTier::Gpt4oMini);
    assert!(price_tier("gpt-4o") == PriceTier::Gpt4o);
    assert!(price_tier("gpt-4-turbo") == PriceTier::Gpt4Turbo);
    assert!(price_tier("gpt-4") == PriceTier::Gpt4);
    assert!(price_tier("gpt-3.5-turbo") == PriceTier::Gpt35Turbo);
    assert!(price_tier("davinci-002") == PriceTier::Unlisted);
}
