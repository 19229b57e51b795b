use chrono::{Datelike, NaiveDate, Utc};
use snowclaw::cost::pricing::{model_pricing, PriceRule};
use snowclaw::cost::types::{CostRecord, TokenBreakdown, TokenUsage};
use snowclaw::stats::tui::{recent_requests, request_span, short_model, truncate_str};
use snowclaw::stats::{
    aggregate, breakdown_categories, build_filter, can_aggregate, date_label, fmt_num, order_rooms,
    room_label, totals_line,
};

const DAY_NANOS: i128 = 86_400_000_000_000;

fn day(d: NaiveDate) -> i32 {
    d.num_days_from_ce()
}

fn today() -> i32 {
    day(Utc::now().date_naive())
}

#[test]
fn fmt_num_formats_thousands() {
    assert_eq!(fmt_num(0), "0");
    assert_eq!(fmt_num(123), "123");
    assert_eq!(fmt_num(1234), "1,234");
    assert_eq!(fmt_num(1_234_567), "1,234,567");
}

#[test]
fn build_filter_defaults_to_today() {
    let today = today();
    let filter = build_filter(None, None, None, today).unwrap();
    assert_eq!(filter.start_date, today as i64);
    assert_eq!(filter.end_date, today as i64);
}

#[test]
fn build_filter_specific_date() {
    let filter = build_filter(Some("2026-01-15"), None, None, today()).unwrap();
    assert_eq!(filter.start_date, day(NaiveDate::from_ymd_opt(2026, 1, 15).unwrap()) as i64);
}

#[test]
fn build_filter_week_period() {
    let today = today();
    let filter = build_filter(None, Some("week"), None, today).unwrap();
    assert_eq!(filter.end_date, today as i64);
    assert_eq!(filter.start_date, today as i64 - 6);
}

#[test]
fn build_filter_month_period() {
    let filter = build_filter(Some("2024-02-10"), Some("month"), None, 1).unwrap();
    assert_eq!(filter.start_date, day(NaiveDate::from_ymd_opt(2024, 2, 1).unwrap()) as i64);
    assert_eq!(filter.end_date, day(NaiveDate::from_ymd_opt(2024, 2, 29).unwrap()) as i64);
}

#[test]
fn build_filter_rejects_what_is_no_date() {
    assert!(build_filter(Some("15.1.2026"), None, None, 1).is_err());
}

#[test]
fn aggregate_empty_records() {
    let filter = build_filter(None, None, None, today()).unwrap();
    let result = aggregate(&vec![], &filter);
    assert_eq!(result.request_count, 0);
    assert_eq!(result.total_input, 0);
}

fn record(model: &str, input: u64, output: u64, timestamp: i128, room: &str) -> CostRecord {
    let usage = TokenUsage::new(model, input, output, 0.5f64.to_bits(), timestamp);
    CostRecord::with_context(
        "session",
        usage,
        Some("nostr".to_string()),
        Some(room.to_string()),
        None,
    )
}

fn epoch_day() -> i32 {
    day(NaiveDate::from_ymd_opt(1970, 1, 1).unwrap())
}

#[test]
fn aggregate_sums_what_counts() {
    let records = vec![
        record("m", 10, 1, 5, "a"),
        record("m", 20, 2, DAY_NANOS + 5, "b"),
        record("m", 30, 3, 3, "a"),
        record("m", 40, 4, -1, "a"),
    ];
    let filter = build_filter(None, None, None, epoch_day()).unwrap();
    assert!(can_aggregate(&records, &filter));
    let result = aggregate(&records, &filter);
    assert_eq!(result.request_count, 2);
    assert_eq!(result.total_input, 40);
    assert_eq!(result.total_output, 4);
    assert_eq!(result.records, vec![2, 0]);
    assert_eq!(result.by_channel_room.len(), 1);
    assert_eq!(result.by_channel_room[0].label, "nostr/a");
    assert_eq!(result.by_channel_room[0].requests, 2);
    assert_eq!(
        totals_line(&result),
        "Total: 40 input / 4 output / 0 cache_read / 0 cache_write"
    );
}

#[test]
fn aggregate_counts_one_room() {
    let records = vec![record("m", 10, 1, 5, "a"), record("m", 20, 2, 6, "b")];
    let filter = build_filter(None, None, Some("b".to_string()), epoch_day()).unwrap();
    let result = aggregate(&records, &filter);
    assert_eq!(result.request_count, 1);
    assert_eq!(result.total_input, 20);
}

#[test]
fn huge_sums_are_not_aggregated() {
    let records = vec![record("m", u64::MAX, 0, 5, "a"), record("m", 1, 0, 6, "a")];
    let filter = build_filter(None, None, None, epoch_day()).unwrap();
    assert!(!can_aggregate(&records, &filter));
}

#[test]
fn breakdown_lists_the_largest_first() {
    let mut sums = vec![0u64; 14];
    sums[1] = 10;
    sums[4] = 30;
    let rows = breakdown_categories(&sums, 2);
    assert_eq!(rows.len(), 2);
    assert_eq!(rows[0].bytes, 30);
    assert_eq!(rows[0].avg_bytes, 15);
    assert_eq!(rows[1].bytes, 10);
}

#[test]
fn rooms_come_by_cost() {
    let costs: Vec<u64> = [0.5f64, 2.0, 0.5, 1.0].iter().map(|c| c.to_bits()).collect();
    assert_eq!(order_rooms(&costs), vec![1, 3, 0, 2]);
}

#[test]
fn labels_of_days_and_rooms() {
    let d = |s: &str| day(NaiveDate::parse_from_str(s, "%Y-%m-%d").unwrap());
    assert_eq!(date_label(d("2026-01-15"), d("2026-01-15")).unwrap(), "2026-01-15");
    assert_eq!(
        date_label(d("2026-01-15"), d("2026-01-16")).unwrap(),
        "2026-01-15 to 2026-01-16"
    );
    assert_eq!(room_label(&record("m", 1, 1, 1, "x")), "nostr/x");
    let usage = TokenUsage::new("m", 1, 1, 0, 1);
    assert_eq!(room_label(&CostRecord::new("s", usage)), "unknown/default");
}

#[test]
fn cost_record_creation() {
    let usage = TokenUsage::new("test/model", 100, 50, 0.0002f64.to_bits(), 0);
    let record = CostRecord::new("session-123", usage);

    assert_eq!(record.session_id, "session-123");
    assert!(!record.id.is_empty());
    assert_eq!(record.usage.model, "test/model");
}

#[test]
fn records_get_ids_of_their_own() {
    let a = CostRecord::new("s", TokenUsage::new("m", 1, 1, 0, 0));
    let b = CostRecord::new("s", TokenUsage::new("m", 1, 1, 0, 0));
    assert_ne!(a.id, b.id);
    assert_eq!(a.id.len(), 36);
}

#[test]
fn token_totals_do_not_overflow() {
    let usage = TokenUsage::new("m", u64::MAX, 5, 0, 0);
    assert_eq!(usage.total_tokens, u64::MAX);
    let usage = TokenUsage::with_cache("m", 3, 4, 0, 0, Some(1), Some(2));
    assert_eq!(usage.total_tokens, 7);
    assert_eq!(usage.cache_read_tokens, Some(1));
}

#[test]
fn breakdown_totals() {
    let b = TokenBreakdown {
        tooling: 1,
        safety: 2,
        skills: 3,
        identity: 4,
        workspace_files: 5,
        runtime: 6,
        conversation_history: 7,
        tool_results: 8,
        memory_context: 9,
        user_message: 10,
        channel_context: 11,
        assistant_response: 12,
        tool_calls_output: 13,
        thinking: 14,
    };
    assert_eq!(b.total_input_bytes(), 66);
    assert_eq!(b.total_output_bytes(), 39);
}

#[test]
fn unknown_model_returns_zero() {
    let (inp, out) = model_pricing("some-unknown-model", &vec![]);
    assert_eq!(inp, 0);
    assert_eq!(out, 0);
}

#[test]
fn every_price_row() {
    for (model, price) in [
        ("gpt-4o-2024-08-06", (2500, 10000)),
        ("openai/gpt-4o-mini", (150, 600)),
        ("gpt-4o-2024-mini", (0, 0)),
        ("gpt-4-turbo-preview", (10000, 30000)),
        ("gpt-4", (30000, 60000)),
        ("gpt-4-0613", (30000, 60000)),
        ("o1-preview", (15000, 60000)),
        ("o1-mini", (3000, 12000)),
        ("gemini-2.0-flash", (100, 400)),
        ("gemini-1.5-pro", (1250, 5000)),
        ("google/gemini-1.5-flash-002", (75, 300)),
        ("deepseek-chat", (270, 1100)),
        ("deepseek-v3", (270, 1100)),
        ("deepseek-r1", (550, 2190)),
        ("deepseek-reasoner", (550, 2190)),
        ("x/y/o1-mini", (3000, 12000)),
    ] {
        assert_eq!(model_pricing(model, &vec![]), price, "{model}");
    }
}

#[test]
fn configured_prices_come_first() {
    let rules = vec![
        PriceRule {
            prefix: "gpt-4o".to_string(),
            without: Some("mini".to_string()),
            input: 1,
            output: 2,
        },
        PriceRule { prefix: "other-".to_string(), without: None, input: 3, output: 4 },
    ];
    assert_eq!(model_pricing("openai/gpt-4o", &rules), (1, 2));
    assert_eq!(model_pricing("gpt-4o-mini", &rules), (150, 600));
    assert_eq!(model_pricing("x/y/other-model", &rules), (3, 4));
}

#[test]
fn long_names_are_cut() {
    assert_eq!(truncate_str("abcdef", 4), "abc…");
    assert_eq!(truncate_str("abcd", 4), "abcd");
    assert_eq!(short_model("provider/a-model"), "a-model");
}

#[test]
fn recent_requests_of_a_day() {
    let records = vec![
        record("m", 1, 1, 5, "a"),
        record("m", 1, 1, 9, "a"),
        record("m", 1, 1, DAY_NANOS, "a"),
    ];
    let day = epoch_day() as i64;
    assert_eq!(recent_requests(&records, day), vec![1, 0]);
    assert_eq!(request_span(&records, day), Some((2, 5, 9)));
    assert_eq!(request_span(&records, day + 1), None);
}

#[test]
fn days_far_from_the_epoch_count() {
    let far = NaiveDate::from_ymd_opt(2500, 1, 1).unwrap();
    let days = (day(far) - epoch_day()) as i128;
    let records = vec![record("m", 10, 1, days * DAY_NANOS + 5, "a"), record("m", 1, 1, 0, "a")];
    let filter = build_filter(None, None, None, day(far)).unwrap();
    assert_eq!(aggregate(&records, &filter).total_input, 10);
}
