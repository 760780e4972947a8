//! Local usage, prices and reports.

use token_monitor::json::Json;
use token_monitor::legacy::summarize_daily_archive_value;
use token_monitor::local::{collect_local_usage, Sources};
use token_monitor::pricing::{
    LookupResult, ModelPricing, PricingEngine, PricingStatus, Resolution, ResolutionKind,
};
use token_monitor::proto::{
    extract_proto_timestamp_ms, extract_step_timestamp_ms, parse_gen_metadata_turn, read_varint,
    read_varint_at, ProtoWireReader,
};
use token_monitor::quantity::Quantity;
use token_monitor::report::{build_consumption_report, build_consumption_report_with_legacy};
use token_monitor::sessions::{
    antigravity_sessions, enrich_antigravity_timestamps, find_rows_to_date, find_turn_times,
    tag_antigravity_account_records, Conversation, SessionSpan, Step, TurnTime,
};
use token_monitor::usage::{
    clean_record, collect_commandcode_v3_records, collect_cursor_cache_records,
    commandcode_session, is_cursor_cache_file, HistoryFile, UsageOptions, UsageRecord,
    UsageSnapshot, UsageTokens, TOKSCALE_REVISION,
};

fn quantity(value: f64) -> Quantity {
    Quantity { bits: value.to_bits() }
}

fn number(value: Quantity) -> f64 {
    f64::from_bits(value.bits)
}

fn from_value(value: &serde_json::Value) -> Json {
    match value {
        serde_json::Value::Null => Json::Null,
        serde_json::Value::Bool(yes) => Json::Bool(*yes),
        serde_json::Value::Number(found) => Json::Number {
            integer: found.as_i64(),
            value: quantity(found.as_f64().unwrap()),
        },
        serde_json::Value::String(text) => Json::Text {
            text: text.clone(),
            spelled: text.trim().parse::<f64>().ok().map(quantity),
        },
        serde_json::Value::Array(items) => Json::List(items.iter().map(from_value).collect()),
        serde_json::Value::Object(entries) => Json::Object(
            entries.iter().map(|(key, value)| (key.clone(), from_value(value))).collect(),
        ),
    }
}

fn json(text: &str) -> Json {
    from_value(&serde_json::from_str(text).unwrap())
}

fn record(client: &str, model: &str) -> UsageRecord {
    UsageRecord {
        client: client.into(),
        model_id: model.into(),
        provider_id: "openai".into(),
        session_id: "s".into(),
        date: "2026-09-01".into(),
        timestamp: 0,
        tokens: UsageTokens {
            input: 10,
            output: 20,
            cache_read: 30,
            cache_write: 40,
            reasoning: 20,
        },
        message_count: 1,
    }
}

fn sheet() -> ModelPricing {
    ModelPricing {
        input_cost_per_token: Some(quantity(1e-6)),
        output_cost_per_token: Some(quantity(2e-6)),
        cache_read_input_token_cost: Some(quantity(0.5e-6)),
        cache_creation_input_token_cost: Some(quantity(1.5e-6)),
        input_cost_per_token_above_128k_tokens: None,
        input_cost_per_token_above_200k_tokens: None,
        input_cost_per_token_above_256k_tokens: None,
        input_cost_per_token_above_272k_tokens: None,
        output_cost_per_token_above_128k_tokens: None,
        output_cost_per_token_above_200k_tokens: None,
        output_cost_per_token_above_256k_tokens: None,
        output_cost_per_token_above_272k_tokens: None,
    }
}

fn found(kind: ResolutionKind) -> LookupResult {
    LookupResult {
        pricing: sheet(),
        source: "litellm".into(),
        matched_key: "openai/test-model".into(),
        kind,
        kind_name: "exact".into(),
        exact_model_identity: true,
        price_consensus: true,
        submission_safe: true,
    }
}

fn engine() -> PricingEngine {
    PricingEngine {
        available: true,
        has_data: true,
        resolutions: vec![Resolution {
            provider_id: "openai".into(),
            model_id: "openai/test-model".into(),
            found: Some(found(ResolutionKind::Strict)),
        }],
    }
}

fn snapshot(records: Vec<UsageRecord>) -> UsageSnapshot {
    UsageSnapshot {
        records,
        processing_time_ms: 1,
        tokscale_revision: TOKSCALE_REVISION.into(),
    }
}

fn varint(value: u64) -> Vec<u8> {
    let mut out = Vec::new();
    let mut rest = value;
    while rest >= 0x80 {
        out.push((rest as u8 & 0x7f) | 0x80);
        rest >>= 7;
    }
    out.push(rest as u8);
    out
}

fn field(tag: u8, bytes: &[u8]) -> Vec<u8> {
    let mut out = vec![tag];
    out.extend(varint(bytes.len() as u64));
    out.extend_from_slice(bytes);
    out
}

#[test]
fn unknown_models_fail_closed() {
    let quote = engine().quote(&record("anthropic", "openai/does-not-exist"));
    assert_eq!(quote.status, PricingStatus::Unknown);
    assert_eq!(quote.value_usd, None);
    assert_eq!(quote.unpriced_tokens, 100);
}

#[test]
fn codex_reasoning_is_not_added_to_priced_token_total() {
    let quote = engine().quote(&record("codex", "openai/test-model"));
    assert_eq!(quote.reasoning_tokens, 0);
    assert_eq!(quote.priced_tokens, 100);
    assert!((number(quote.value_usd.unwrap()) - 0.000125).abs() < 1e-12);
}

#[test]
fn reported_total_does_not_double_count_reasoning() {
    let tokens = UsageTokens {
        input: 10,
        output: 20,
        cache_read: 30,
        cache_write: 40,
        reasoning: 20,
    };
    assert_eq!(tokens.reported_total_without_reasoning(), 100);
}

#[test]
fn snapshot_deduplicates_client_and_model_lists() {
    let snapshot = UsageSnapshot {
        records: vec![
            UsageRecord {
                client: "codex".into(),
                model_id: "gpt".into(),
                provider_id: "openai".into(),
                session_id: "a".into(),
                date: "2026-09-01".into(),
                timestamp: 0,
                tokens: UsageTokens::default(),
                message_count: 1,
            },
            UsageRecord {
                client: "codex".into(),
                model_id: "gpt".into(),
                provider_id: "openai".into(),
                session_id: "b".into(),
                date: "2026-09-01".into(),
                timestamp: 1,
                tokens: UsageTokens::default(),
                message_count: 1,
            },
        ],
        processing_time_ms: 1,
        tokscale_revision: TOKSCALE_REVISION.into(),
    };
    assert_eq!(snapshot.clients(), vec!["codex"]);
    assert_eq!(snapshot.models(), vec!["gpt"]);
}

#[test]
fn report_keeps_usage_when_pricing_is_unknown() {
    let snapshot = UsageSnapshot {
        records: vec![UsageRecord {
            client: "codex".into(),
            model_id: "unknown/model".into(),
            provider_id: "unknown".into(),
            session_id: "s".into(),
            date: "2026-09-01".into(),
            timestamp: 0,
            tokens: UsageTokens { input: 10, output: 20, cache_read: 0, cache_write: 0, reasoning: 5 },
            message_count: 1,
        }],
        processing_time_ms: 1,
        tokscale_revision: TOKSCALE_REVISION.into(),
    };
    let report = build_consumption_report(snapshot, &PricingEngine::unavailable(), false);
    assert_eq!(report.summary.total_tokens, 30);
    assert_eq!(report.summary.unpriced_tokens, 30);
    assert_eq!(report.summary.unknown_rows, 1);
    assert!(report.summary.api_equivalent_usd.is_none());
}

#[test]
fn extract_proto_timestamp_decodes_seconds_and_nanos() {
    let mut buf = Vec::new();
    buf.push(0x08);
    buf.extend(varint(1788640000));
    buf.push(0x10);
    buf.extend(varint(500_000_000));
    let ms = extract_proto_timestamp_ms(&buf);
    assert_eq!(ms, Some(1788640000500));
}

#[test]
fn live_days_override_historical_days_and_filter_is_inclusive() {
    let archive = json(
        r#"{"days":{"2026-08-31":{"observations":{"a":{"tokens":10,"cost":1}}},"2026-09-01":{"observations":{"b":{"tokens":20,"cost":2}}}},"liveDays":{"2026-08-31":{"observations":{"a":{"tokens":30,"cost":3}}}}}"#,
    );
    let totals = summarize_daily_archive_value(
        &archive,
        "daily-history-archive.json",
        Some("2026-08-31"),
        Some("2026-09-01"),
    )
    .unwrap();
    assert_eq!(totals.days, 2);
    assert_eq!(totals.rows, 2);
    assert_eq!(totals.tokens, 50);
    assert_eq!(number(totals.monitor_estimate_usd), 5.0);
}

#[test]
fn days_outside_the_range_are_left_out() {
    let archive = json(
        r#"{"days":{"2026-08-30":{"observations":{"a":{"tokens":1}}},"2026-09-02":{"observations":{"b":{"tokens":2}}}}}"#,
    );
    let totals =
        summarize_daily_archive_value(&archive, "x", Some("2026-08-31"), Some("2026-09-01")).unwrap();
    assert_eq!(totals.days, 0);
    assert_eq!(totals.tokens, 0);
}

#[test]
fn loose_matches_are_not_priced() {
    let mut loose = engine();
    loose.resolutions[0].found = Some(found(ResolutionKind::Fuzzy));
    let quote = loose.quote(&record("anthropic", "openai/test-model"));
    assert_eq!(quote.status, PricingStatus::Unknown);
    assert_eq!(quote.value_usd, None);
    assert_eq!(quote.warnings, vec!["model/provider match is not exact"]);
}

#[test]
fn a_missing_price_makes_a_quote_partial() {
    let mut partial = engine();
    let mut lookup = found(ResolutionKind::Strict);
    lookup.pricing.cache_creation_input_token_cost = None;
    partial.resolutions[0].found = Some(lookup);
    let quote = partial.quote(&record("anthropic", "openai/test-model"));
    assert_eq!(quote.status, PricingStatus::Partial);
    assert_eq!(quote.priced_tokens + quote.unpriced_tokens, 100);
    assert!(quote.unpriced_tokens > 0);
}

#[test]
fn no_sheets_mean_no_price() {
    let engine = PricingEngine::unavailable();
    assert!(!engine.has_pricing_data());
    assert!(!engine.needs_lookup(&record("codex", "m")));
    let quote = engine.quote(&record("codex", "m"));
    assert_eq!(quote.warnings, vec!["pricing dataset unavailable"]);
}

#[test]
fn a_report_sums_its_quotes() {
    let records = vec![record("codex", "openai/test-model"), record("codex", "unknown")];
    let report = build_consumption_report_with_legacy(snapshot(records), &engine(), true, None);
    assert_eq!(report.summary.exact_rows, 1);
    assert_eq!(report.summary.unknown_rows, 1);
    assert_eq!(report.summary.priced_tokens, 100);
    assert_eq!(report.summary.unpriced_tokens, 100);
    assert_eq!(report.quotes.unwrap().len(), 2);
    assert!((number(report.summary.api_equivalent_usd.unwrap()) - 0.000125).abs() < 1e-12);
}

#[test]
fn an_archive_estimate_joins_the_report() {
    let archive = json(r#"{"days":{"2026-09-01":{"observations":{"b":{"tokens":20,"cost":2.5}}}}}"#);
    let totals = summarize_daily_archive_value(&archive, "x", None, None).unwrap();
    let report = build_consumption_report_with_legacy(
        snapshot(vec![]),
        &PricingEngine::unavailable(),
        false,
        Some(&totals),
    );
    assert_eq!(report.summary.monitor_estimate_usd.map(number), Some(2.5));
    assert!(report.quotes.is_none());
}

#[test]
fn varints_of_every_length_are_read() {
    for value in [0u64, 1, 127, 128, 300, 1 << 35, u64::MAX] {
        let bytes = varint(value);
        assert_eq!(read_varint_at(&bytes, 0), Some((value, bytes.len())));
    }
    assert_eq!(read_varint_at(&[0x80], 0), None);
}

#[test]
fn both_varint_decoders_end_at_the_same_place() {
    let long = vec![0xffu8; 12];
    let cut = vec![7u8, 0x80, 0x80];
    let whole = varint(300);
    for (bytes, start) in [(&long, 0), (&long, 5), (&cut, 0), (&cut, 1), (&cut, 3), (&whole, 0)] {
        let mut offset = start;
        let found = read_varint(bytes, &mut offset);
        let mut reader = ProtoWireReader { buf: bytes, pos: start };
        assert_eq!(reader.read_varint(), found);
        assert_eq!(reader.pos, offset);
    }
    let mut offset = 0;
    assert_eq!(read_varint(&long, &mut offset), None);
    assert_eq!(offset, 10);
    let mut offset = 1;
    assert_eq!(read_varint(&cut, &mut offset), None);
    assert_eq!(offset, 3);
}

#[test]
fn a_service_without_data_is_still_asked() {
    let empty = PricingEngine { available: true, has_data: false, resolutions: vec![] };
    assert!(!empty.has_pricing_data());
    let quote = empty.quote(&record("codex", "gpt"));
    assert_eq!(quote.warnings, vec!["model price unavailable"]);
    let absent = PricingEngine::unavailable();
    assert!(!absent.has_pricing_data());
    let quote = absent.quote(&record("codex", "gpt"));
    assert_eq!(quote.warnings, vec!["pricing dataset unavailable"]);
}

#[test]
fn steps_hold_their_moment_in_a_nested_message() {
    let mut moment = vec![0x08];
    moment.extend(varint(1_788_640_000));
    let metadata = field(0x0a, &moment);
    assert_eq!(extract_step_timestamp_ms(&metadata), Some(1_788_640_000_000));
    assert_eq!(extract_step_timestamp_ms(&[]), None);
}

#[test]
fn an_empty_blob_is_no_turn() {
    assert!(parse_gen_metadata_turn(&[]).is_none());
}

#[test]
fn sessions_without_steps_are_left_as_they_are() {
    assert_eq!(find_turn_times(&Vec::<Step>::new(), &vec![vec![1u8, 2, 3]]).len(), 0);
}

fn antigravity(session: &str, timestamp: i64) -> UsageRecord {
    let mut found = record("antigravity-cli", "gemini");
    found.session_id = session.into();
    found.timestamp = timestamp;
    found
}

#[test]
fn only_sessions_with_one_moment_are_dated_anew() {
    let records = vec![
        antigravity("a", 5),
        antigravity("a", 5),
        antigravity("b", 5),
        antigravity("c", 5),
        antigravity("c", 6),
        record("codex", "gpt"),
    ];
    assert_eq!(antigravity_sessions(&records), vec!["a", "b", "c"]);
    assert_eq!(find_rows_to_date(&records, "a"), Some(vec![0, 1]));
    assert_eq!(find_rows_to_date(&records, "b"), None);
    assert_eq!(find_rows_to_date(&records, "c"), None);
}

#[test]
fn turn_times_go_to_the_records_in_order() {
    let mut records = vec![antigravity("a", 5), antigravity("a", 5)];
    enrich_antigravity_timestamps(&mut records, &vec![conversation("a"), conversation("b")]);
    assert_eq!(records[0].timestamp, 1_000);
    assert_eq!(records[0].date, "1970-01-01");
    assert_eq!(records[1].timestamp, 5);
}

fn conversation(session: &str) -> Conversation {
    Conversation {
        session: session.into(),
        turns: vec![
            TurnTime { at: Some(1_000), date: Some("1970-01-01".to_owned()) },
            TurnTime { at: None, date: None },
        ],
    }
}

#[test]
fn local_usage_puts_all_sources_together() {
    let line = r#"{"type":"message","timestamp":"2026-09-01T10:00:00Z","model":"m","message":{"role":"assistant"},"usage":{"inputTokens":3}}"#;
    let mut bad = record("codex", "gpt");
    bad.tokens.input = -7;
    let sources = Sources {
        parsed: vec![bad, antigravity("a", 5), antigravity("a", 5)],
        processing_time_ms: 12,
        histories: vec![HistoryFile { name: "h.jsonl".into(), lines: vec![json(line)] }],
        cached: vec![record("other", "auto")],
        conversations: vec![conversation("a")],
        spans: vec![],
    };
    let found = collect_local_usage(sources, None);
    let clients = found.records.iter().map(|found| found.client.as_str()).collect::<Vec<_>>();
    assert_eq!(
        clients,
        vec!["codex", "antigravity-cli", "antigravity-cli", "commandcode", "cursor"]
    );
    assert_eq!(found.records[0].tokens.input, 0);
    assert_eq!(found.records[1].timestamp, 1_000);
    assert_eq!(found.records[2].timestamp, 5);
    assert_eq!(found.processing_time_ms, 12);
    assert_eq!(found.tokscale_revision, TOKSCALE_REVISION);
}

#[test]
fn records_are_named_after_the_account_of_their_session() {
    let mut records = vec![antigravity("a", 5), record("codex", "gpt")];
    let spans = vec![SessionSpan {
        session_id: "a".into(),
        target: Some(2),
        account: Some("me@example.com".into()),
        start_ms: Some(0),
        start_idx: Some(0),
        end_idx: None,
    }];
    tag_antigravity_account_records(&mut records, &spans);
    assert_ne!(records[0].client, "antigravity-cli");
    assert!(records[0].client.contains("me@example.com"), "{}", records[0].client);
    assert_eq!(records[1].client, "codex");
}

#[test]
fn negative_counts_are_floored() {
    let mut bad = record("codex", "gpt");
    bad.tokens.input = -3;
    bad.message_count = -1;
    let clean = clean_record(bad);
    assert_eq!(clean.tokens.input, 0);
    assert_eq!(clean.tokens.output, 20);
    assert_eq!(clean.message_count, 0);
}

#[test]
fn all_clients_are_read_unless_some_are_named() {
    let any = UsageOptions { home_dir: None, clients: None, since: None, until: None, year: None };
    assert_eq!(
        any.requested_clients(vec!["codex".to_owned()]),
        vec!["codex", "cursor", "synthetic"]
    );
    let some = UsageOptions {
        home_dir: None,
        clients: Some(vec!["anthropic".to_owned()]),
        since: None,
        until: None,
        year: None,
    };
    assert_eq!(some.requested_clients(vec!["codex".to_owned()]), vec!["anthropic"]);
}

#[test]
fn history_files_are_known_by_their_names() {
    assert!(is_cursor_cache_file("usage.csv"));
    assert!(!is_cursor_cache_file("notes.txt"));
    assert_eq!(commandcode_session("abc.jsonl"), Some("abc".to_owned()));
    assert_eq!(commandcode_session("abc.txt"), None);
}

#[test]
fn cached_cursor_records_come_in_where_there_are_none() {
    let mut records = vec![record("codex", "gpt")];
    collect_cursor_cache_records(&mut records, vec![record("cursor", "auto")], Some("2026-08-01"));
    assert_eq!(records.len(), 2);
    let mut early = vec![record("codex", "gpt")];
    collect_cursor_cache_records(&mut early, vec![record("cursor", "auto")], Some("2026-10-01"));
    assert_eq!(early.len(), 1);
}

#[test]
fn command_code_histories_add_sessions_that_are_not_known() {
    let line = r#"{"type":"message","timestamp":"2026-09-01T10:00:00Z","model":"anthropic:model-x","message":{"role":"assistant"},"usage":{"inputTokens":3,"outputTokens":-4}}"#;
    let files = vec![HistoryFile { name: "s.jsonl".into(), lines: vec![json(line)] }];
    let mut records = vec![];
    collect_commandcode_v3_records(&mut records, &files, None);
    assert_eq!(records.len(), 1);
    assert_eq!(records[0].client, "commandcode");
    assert_eq!(records[0].session_id, "s");
    assert_eq!(records[0].date, "2026-09-01");
    assert_eq!(records[0].timestamp, 1_788_256_800_000);
    assert_eq!(records[0].tokens.input, 3);
    assert_eq!(records[0].tokens.output, -4);
    collect_commandcode_v3_records(&mut records, &files, None);
    assert_eq!(records.len(), 1);
    let mut late = vec![];
    collect_commandcode_v3_records(&mut late, &files, Some("2026-09-02"));
    assert_eq!(late.len(), 0);
}
