//! The collectors: what they make of the answers of the providers.

use token_monitor::collectors::antigravity::{antigravity_ports, antigravity_servers, antigravity_windows};
use token_monitor::collectors::claude::{
    claude_remaining_window, claude_spend_window, claude_web_balance_window,
    claude_web_organization_id, claude_web_plan, looks_like_cookie_header,
    normalize_claude_web_cookie,
};
use token_monitor::collectors::codex::{codex_window, collect_codex};
use token_monitor::collectors::commandcode::{commandcode_plan, commandcode_rolling_window};
use token_monitor::collectors::copilot::copilot_quota_window;
use token_monitor::collectors::cursor::{
    cursor_accounts, cursor_agent_blocked, cursor_reset, is_telling_log, newest_logs,
    remaining_percent, LogStamp,
};
use token_monitor::collectors::deepseek::{collect_deepseek, select_deepseek_balance};
use token_monitor::collectors::gpus::{modal_profiles, modal_row};
use token_monitor::collectors::grok::{
    grok_billing_window, grpc_data_frames, grpc_trailer_status, parse_grok_grpc_billing,
};
use token_monitor::collectors::kiro::{
    kiro_covered_numerals, kiro_percent_numerals, kiro_usage_text, strip_ansi,
};
use token_monitor::collectors::live::{collect_live_limits, LiveRows};
use token_monitor::collectors::minimax::minimax_windows;
use token_monitor::collectors::ollama::{ollama_html_windows, ollama_numerals};
use token_monitor::collectors::openrouter::openrouter_credit_window;
use token_monitor::collectors::qoder::qoder_window;
use token_monitor::collectors::zai::{zai_window_minutes, zai_windows};
use token_monitor::collectors::{
    connected_snapshot, reset_duration_text, reset_timestamp, status_for_http, CollectorOptions,
    Reply, Row, RowDraft, WindowDraft,
};
use token_monitor::formula::{Formula, Power};
use token_monitor::json::Json;
use token_monitor::limits::{
    Availability, LimitWindow, ProviderSnapshot, SourceHealth, WindowKind, WindowMetric,
};
use token_monitor::moment::next_utc_month_start_ms;
use token_monitor::quantity::Quantity;
use token_monitor::secrets::{account_key, parse_shell_secrets};

fn quantity(value: f64) -> Quantity {
    Quantity { bits: value.to_bits() }
}

fn number(value: Quantity) -> f64 {
    f64::from_bits(value.bits)
}

fn maybe(value: Option<Quantity>) -> Option<f64> {
    value.map(number)
}

fn from_value(value: &serde_json::Value) -> Json {
    match value {
        serde_json::Value::Null => Json::Null,
        serde_json::Value::Bool(yes) => Json::Bool(*yes),
        serde_json::Value::Number(found) => Json::Number {
            integer: found.as_i64(),
            value: quantity(found.as_f64().unwrap()),
        },
        serde_json::Value::String(text) => Json::Text {
            text: text.clone(),
            spelled: text.trim().parse::<f64>().ok().map(quantity),
        },
        serde_json::Value::Array(items) => Json::List(items.iter().map(from_value).collect()),
        serde_json::Value::Object(entries) => Json::Object(
            entries.iter().map(|(key, value)| (key.clone(), from_value(value))).collect(),
        ),
    }
}

fn json(text: &str) -> Json {
    from_value(&serde_json::from_str(text).unwrap())
}

fn powers(exponents: &[Quantity]) -> Vec<Power> {
    exponents
        .iter()
        .map(|exponent| Power {
            exponent: *exponent,
            value: quantity(10f64.powf(number(*exponent))),
        })
        .collect()
}

fn settled(draft: &WindowDraft) -> LimitWindow {
    let mut exponents = Vec::new();
    if let Some(formula) = &draft.remaining_percent {
        formula.list_exponents(&mut exponents);
    }
    if let Some(formula) = &draft.remaining_amount {
        formula.list_exponents(&mut exponents);
    }
    draft.settle(&powers(&exponents))
}

fn readings(numerals: &[String]) -> Vec<Option<Quantity>> {
    numerals.iter().map(|text| text.parse::<f64>().ok().map(quantity)).collect()
}

fn options() -> CollectorOptions {
    CollectorOptions {
        providers: None,
        modal_profiles: None,
        modal_config: None,
        modal_credit_grant_usd: None,
        timeout: None,
    }
}

fn no_rows() -> LiveRows {
    LiveRows {
        openrouter: vec![],
        deepseek: vec![],
        modal: vec![],
        vast: vec![],
        cursor: vec![],
        claude: vec![],
        codex: vec![],
        antigravity: vec![],
        grok: vec![],
        commandcode: vec![],
        minimax: vec![],
        zai: vec![],
        zaiteam: vec![],
        copilot: vec![],
        qoder: vec![],
        trae: vec![],
        kiro: vec![],
        ollama: vec![],
    }
}

#[test]
fn openrouter_credit_math_preserves_decimal_remainder() {
    let value = json(r#"{"total_credits": 10.0, "total_usage": 0.02234472}"#);
    let window = settled(&openrouter_credit_window(Some(&value)).unwrap());
    assert_eq!(maybe(window.remaining_amount), Some(9.97765528));
    assert!((maybe(window.remaining_percent).unwrap() - 99.7765528).abs() < 0.000001);
}

#[test]
fn zero_credit_wallet_is_not_advertised_as_available() {
    let draft = RowDraft {
        provider_id: "modal".into(),
        account_key: "modal:test".into(),
        account_label: "test".into(),
        plan: "Pro".into(),
        source: "modal".into(),
        windows: vec![WindowDraft {
            label: "credit~".into(),
            kind: WindowKind::Billing,
            metric: WindowMetric::Credits,
            remaining_percent: Some(Formula::Given(quantity(0.0))),
            remaining_amount: Some(Formula::Given(quantity(0.0))),
            currency: Some("USD".into()),
            resets_at_ms: None,
            reset_text: None,
            estimated: true,
        }],
        hue: 214,
        diagnostics: vec![],
        blocked: false,
    };
    let snapshot = connected_snapshot(&draft, &vec![], 0);
    assert_eq!(snapshot.availability, Availability::Exhausted);
}

#[test]
fn shell_secret_parser_never_evaluates_commands() {
    let values = parse_shell_secrets(
        "export OPENROUTER_API_KEY='abc'\nDEEPSEEK_API_KEY=def\nBAD=$(cat secret)\n# ignored=comment\n",
    );
    assert_eq!(values.lookup("OPENROUTER_API_KEY"), Some("abc".to_owned()));
    assert_eq!(values.lookup("DEEPSEEK_API_KEY"), Some("def".to_owned()));
    assert!(values.lookup("BAD").is_none());
}

#[test]
fn modal_profiles_ignore_nested_tables_and_deduplicate() {
    let config = "[first]\nkey='x'\n[first.extra]\nx=1\n[second]\n";
    assert_eq!(modal_profiles(&options(), Some(config)), vec!["first", "second"]);
}

#[test]
fn cursor_used_percent_is_inverted_to_remaining_percent() {
    let left = |used: f64| {
        maybe(remaining_percent(Some(quantity(used))).map(|formula| formula.evaluate(&vec![])))
    };
    assert_eq!(left(3.0), Some(97.0));
    assert_eq!(left(100.0), Some(0.0));
    let (reset_ms, reset_text) = cursor_reset(&json(r#"{"billingCycleEnd":"2026-09-02T00:00:00Z"}"#));
    assert!(reset_ms.is_some());
    assert!(reset_text.is_none());
}

#[test]
fn cursor_agent_block_is_detected_from_recent_local_log() {
    let logs = vec!["Error: You've hit your free requests limit".to_owned()];
    let now = 1_788_640_000_000;
    assert!(is_telling_log("log", logs[0].len() as u64, Some(0)));
    assert!(cursor_agent_blocked(&logs, None, now));
    assert!(!cursor_agent_blocked(&logs, Some(1000), now));
}

#[test]
fn claude_usage_percent_is_inverted_and_spend_stays_separate() {
    let window = settled(
        &claude_remaining_window("7d", Some(&json(r#"{"utilization": 34.0}"#))).unwrap(),
    );
    assert_eq!(maybe(window.remaining_percent), Some(66.0));
    let spend = settled(&claude_spend_window(&json(
        r#"{"spend": {"enabled": true, "used": {"amount_minor": 250, "exponent": 2, "currency": "USD"}, "limit": {"amount_minor": 1000, "exponent": 2, "currency": "USD"}}}"#,
    )).unwrap());
    assert_eq!(maybe(spend.remaining_amount), Some(7.5));
    assert_eq!(spend.metric, WindowMetric::Spend);
}

#[test]
fn claude_web_organization_id_accepts_array_and_data_envelopes() {
    assert_eq!(
        claude_web_organization_id(&json(r#"[{"uuid":"org-1"}]"#)),
        Some("org-1".into())
    );
    assert_eq!(
        claude_web_organization_id(&json(r#"{"data":[{"id":"org-2"}]}"#)),
        Some("org-2".into())
    );
}

#[test]
fn claude_web_plan_maps_individual_tiers_to_pro() {
    let account =
        json(r#"{"memberships": [{"organization": {"rate_limit_tier": "default_claude_ai"}}]}"#);
    assert_eq!(claude_web_plan(Some(&account)), "Pro");
}

#[test]
fn claude_web_balance_converts_minor_units_and_expiry() {
    let window = settled(
        &claude_web_balance_window(Some(&json(
            r#"{"amount": 7227, "currency": "USD", "next_expires_at": "2026-09-19T00:00:00Z"}"#,
        )))
        .unwrap(),
    );
    assert_eq!(maybe(window.remaining_amount), Some(72.27));
    assert_eq!(window.currency.as_deref(), Some("USD"));
    assert!(window.resets_at_ms.is_some());
}

#[test]
fn claude_credential_shape_distinguishes_cookie_from_oauth() {
    assert!(looks_like_cookie_header("sessionKey=abc; other=def"));
    assert!(looks_like_cookie_header("Cookie: sessionKey=abc"));
    assert!(!looks_like_cookie_header("sk-ant-oat01-example"));
}

#[test]
fn codex_windows_invert_used_percent_and_select_weekly_kind() {
    let window = settled(
        &codex_window(
            "7d",
            Some(&json(r#"{"used_percent": 23, "window_duration_mins": 10080}"#)),
            true,
            0,
        )
        .unwrap(),
    );
    assert_eq!(maybe(window.remaining_percent), Some(77.0));
    assert_eq!(window.kind, WindowKind::Weekly);
}

#[test]
fn antigravity_groups_and_fractions_become_named_remaining_windows() {
    let payload = json(
        r#"{"groups":[{"displayName":"Gemini","buckets":[{"window":"weekly","remainingFraction":0.001}]}]}"#,
    );
    let windows = antigravity_windows(&payload);
    assert_eq!(windows[0].label, "Gemini 7d");
    let window = settled(&windows[0]);
    assert!((maybe(window.remaining_percent).unwrap() - 0.1).abs() < 0.0001);
}

#[test]
fn antigravity_process_parser_requires_csrf_for_desktop_server() {
    let output = "123 /Applications/Antigravity.app/language_server --csrf_token=secret\n124 /Applications/Antigravity.app/language_server\n";
    let servers = antigravity_servers(output);
    assert_eq!(servers.len(), 1);
    assert_eq!(servers[0].pid, 123);
    assert_eq!(servers[0].csrf_token, "secret");
}

#[test]
fn grok_billing_percent_becomes_remaining_quota() {
    let window = settled(&grok_billing_window(&json(r#"{"creditUsagePercent": 25.0}"#)).unwrap());
    assert_eq!(maybe(window.remaining_percent), Some(75.0));
    assert_eq!(window.kind, WindowKind::Weekly);
}

#[test]
fn minimax_general_bucket_preserves_remaining_percent_and_reset() {
    let payload = json(
        r#"{"data":{"model_remains":[{"model_name":"general","current_interval_remaining_percent":"88.5","current_weekly_remaining_percent":"75","end_time":1788257925,"weekly_end_time":1788748040}]}}"#,
    );
    let windows: Vec<LimitWindow> = minimax_windows(&payload).iter().map(settled).collect();
    assert_eq!(windows.len(), 2);
    assert_eq!(maybe(windows[0].remaining_percent), Some(88.5));
    assert_eq!(maybe(windows[1].remaining_percent), Some(75.0));
    assert_eq!(windows[0].resets_at_ms, Some(1_788_257_925_000));
}

#[test]
fn zai_usage_converts_used_percentage_to_remaining() {
    let quota = json(
        r#"{"data":{"limits":[{"type":"TOKENS_LIMIT","usage":100,"remaining":75,"unit":6,"number":1},{"type":"TOKENS_LIMIT","usage":100,"remaining":50,"unit":5,"number":5}]}}"#,
    );
    let windows: Vec<LimitWindow> = zai_windows(&quota, None).iter().map(settled).collect();
    assert_eq!(windows.len(), 2);
    assert_eq!(windows[0].label, "5h");
    assert_eq!(maybe(windows[0].remaining_percent), Some(50.0));
    assert_eq!(windows[1].label, "Weekly");
    assert_eq!(maybe(windows[1].remaining_percent), Some(75.0));
}

#[test]
fn copilot_quota_prefers_explicit_remaining_percent() {
    let window = settled(
        &copilot_quota_window(
            "Premium",
            Some(&json(r#"{"entitlement":100,"remaining":5,"percent_remaining":7}"#)),
            None,
        )
        .unwrap(),
    );
    assert_eq!(maybe(window.remaining_percent), Some(7.0));
}

#[test]
fn kiro_usage_parser_handles_ansi_plan_and_reset() {
    let text = "\u{1b}[32mPlan: Kiro Pro\u{1b}[0m\nUsage (10 of 50 covered)\nresets on 2026-09-15";
    let percents = readings(&kiro_percent_numerals(text));
    let pairs: Vec<(Option<Quantity>, Option<Quantity>)> = kiro_covered_numerals(text)
        .into_iter()
        .map(|(used, total)| {
            (used.parse::<f64>().ok().map(quantity), total.parse::<f64>().ok().map(quantity))
        })
        .collect();
    let usage = kiro_usage_text(text, &percents, &pairs).unwrap();
    assert_eq!(usage.plan, "Kiro Pro");
    assert_eq!(number(usage.remaining_percent.evaluate(&vec![])), 80.0);
    assert_eq!(number(usage.remaining_amount.evaluate(&vec![])), 40.0);
    assert!(usage.resets_at_ms.is_some());
    assert!(!usage.managed);
}

#[test]
fn ollama_html_parser_keeps_session_and_weekly_windows() {
    let html = r#"<span>Session usage</span><div>20% used</div><div data-time="2026-09-02T00:00:00Z"></div><span>Weekly usage</span><div>50% used</div>"#;
    let windows: Vec<LimitWindow> =
        ollama_html_windows(html, &readings(&ollama_numerals(html))).iter().map(settled).collect();
    assert_eq!(windows.len(), 2);
    assert_eq!(maybe(windows[0].remaining_percent), Some(80.0));
    assert_eq!(windows[1].kind, WindowKind::Weekly);
}

#[test]
fn commandcode_rolling_windows_keep_plan_cap_and_percent() {
    let plan = commandcode_plan("individual-go").unwrap();
    assert_eq!(plan.title, "Go");
    let window = settled(
        &commandcode_rolling_window(
            "5h",
            WindowKind::Session,
            Some(&json(r#"{"cap": 3.0, "used": 1.0}"#)),
            Some(plan.five_hour),
        )
        .unwrap(),
    );
    assert!((maybe(window.remaining_percent).unwrap() - 66.66666666666667).abs() < 1e-9);
    assert_eq!(maybe(window.remaining_amount), Some(2.0));
}

#[test]
fn http_codes_tell_the_state_of_a_source() {
    assert_eq!(status_for_http(401), SourceHealth::Unauthorized);
    assert_eq!(status_for_http(403), SourceHealth::Unauthorized);
    assert_eq!(status_for_http(429), SourceHealth::Unavailable);
    assert_eq!(status_for_http(500), SourceHealth::Unavailable);
}

#[test]
fn reset_moments_are_read_from_seconds_milliseconds_and_texts() {
    assert_eq!(reset_timestamp(Some(&json("1788257925"))), Some(1_788_257_925_000));
    assert_eq!(reset_timestamp(Some(&json("1788257925123"))), Some(1_788_257_925_123));
    assert_eq!(
        reset_timestamp(Some(&json(r#""2026-09-02T00:00:00Z""#))),
        Some(1_788_307_200_000)
    );
    assert_eq!(reset_timestamp(Some(&json("null"))), None);
    assert_eq!(reset_timestamp(None), None);
}

#[test]
fn resets_are_told_in_days_hours_and_minutes() {
    let minute = 60_000;
    let hour = 60 * minute;
    let day = 24 * hour;
    assert_eq!(reset_duration_text(2 * day + 3 * hour, 0), "2d 3h");
    assert_eq!(reset_duration_text(3 * hour + 4 * minute, 0), "3h 4m");
    assert_eq!(reset_duration_text(4 * minute, 0), "4m");
    assert_eq!(reset_duration_text(0, 1), "0m");
}

#[test]
fn the_next_month_begins_at_its_first_midnight() {
    // 2026-09-15T12:00:00Z and 2026-12-31T23:59:59Z.
    assert_eq!(next_utc_month_start_ms(1_789_473_600_000), 1_790_812_800_000);
    assert_eq!(next_utc_month_start_ms(1_798_761_599_000), 1_798_761_600_000);
}

#[test]
fn account_keys_hide_the_secret() {
    let key = account_key("openrouter", "secret");
    assert!(key.starts_with("openrouter:"));
    assert!(!key.contains("secret"));
    assert_eq!(key, account_key("openrouter", "secret"));
    assert_ne!(key, account_key("openrouter", "other"));
}

#[test]
fn a_refused_request_is_answered_with_its_status() {
    let row = collect_codex(Some("token"), true, &Reply::Refused(429), 7);
    match row {
        Row::Missing(found) => {
            assert_eq!(found.provider_id, "codex");
            assert_eq!(found.source_health, SourceHealth::Unavailable);
            assert_eq!(found.availability, Availability::Unknown);
            assert_eq!(found.collected_at_ms, 7);
            assert_eq!(found.diagnostics, vec!["Codex usage unavailable"]);
        },
        Row::Answered(_) => panic!("a refused request has no windows"),
    }
}

#[test]
fn an_unconfigured_provider_says_so() {
    match collect_codex(None, true, &Reply::Failed, 7) {
        Row::Missing(found) => {
            assert_eq!(found.account_key, "");
            assert!(!found.visible_by_default());
        },
        Row::Answered(_) => panic!("nothing was asked"),
    }
}

#[test]
fn grok_frames_are_cut_at_their_lengths() {
    let mut bytes = vec![0u8, 0, 0, 0, 3, 1, 2, 3];
    bytes.extend_from_slice(&[0, 0, 0, 0, 1, 9]);
    assert_eq!(grpc_data_frames(&bytes), vec![vec![1u8, 2, 3], vec![9u8]]);
    let mut trailer = vec![0x80u8, 0, 0, 0, 16];
    trailer.extend_from_slice(b"grpc-status: 16\n");
    assert!(grpc_trailer_status(&trailer).is_some());
    assert!(grpc_trailer_status(&bytes).is_none());
}

#[test]
fn grok_percentages_are_single_precision() {
    // A frame with one message of field 1 that holds field 1 as a 32-bit number.
    let mut message = vec![0x0d];
    message.extend_from_slice(&25.0f32.to_bits().to_le_bytes());
    let mut outer = vec![0x0a, message.len() as u8];
    outer.extend_from_slice(&message);
    let mut frame = vec![0u8, 0, 0, 0, outer.len() as u8];
    frame.extend_from_slice(&outer);
    let window = settled(&parse_grok_grpc_billing(&frame, 0).unwrap());
    assert_eq!(maybe(window.remaining_percent), Some(75.0));
}

#[test]
fn escapes_are_stripped_from_a_terminal_text() {
    assert_eq!(strip_ansi("\u{1b}[1;32mgreen\u{1b}[0m plain"), "green plain");
}

#[test]
fn modal_keeps_a_grant_minus_what_was_spent() {
    let answer = Ok(json(r#"{"adjustments":{"credits":"-12.5"}}"#));
    let month_end = next_utc_month_start_ms(1_789_473_600_000);
    let row = modal_row("workspace-a", quantity(30.0), &answer, month_end, 0);
    let shown = row.settle(&vec![], 0);
    assert_eq!(maybe(shown.windows[0].remaining_amount), Some(17.5));
    assert_eq!(shown.windows[0].resets_at_ms, Some(1_790_812_800_000));
}

#[test]
fn deepseek_shows_the_largest_balance() {
    let rows = match json(
        r#"[{"currency":"CNY","total_balance":"5"},{"currency":"USD","total_balance":"1"}]"#,
    ) {
        Json::List(rows) => rows,
        _ => panic!("a list"),
    };
    assert_eq!(select_deepseek_balance(&rows), Some(0));
    assert_eq!(select_deepseek_balance(&vec![]), None);
}

fn pending(id: &str) -> ProviderSnapshot {
    ProviderSnapshot {
        provider_id: id.into(),
        account_key: "".into(),
        account_label: "Copilot".into(),
        plan: "".into(),
        source: "api".into(),
        collected_at_ms: 0,
        source_health: SourceHealth::Unavailable,
        availability: Availability::Unknown,
        windows: vec![],
        diagnostics: vec!["Copilot API token not configured".into()],
        hue: 45,
    }
}

#[test]
fn a_refresh_without_a_selection_hides_what_was_never_configured() {
    let hidden = pending("copilot");
    let mut rows = no_rows();
    rows.copilot = vec![hidden.clone()];
    assert_eq!(collect_live_limits(&options(), rows, 0).len(), 0);
    let mut asked = options();
    asked.providers = Some(vec!["copilot".into(), "kimi".into()]);
    let mut rows = no_rows();
    rows.copilot = vec![hidden];
    let shown = collect_live_limits(&asked, rows, 0);
    assert_eq!(shown.len(), 2);
    assert_eq!(shown[1].provider_id, "kimi");
    assert_eq!(shown[1].diagnostics, vec!["Native adapter pending"]);
}

#[test]
fn a_selection_holds_each_provider_once_and_no_other() {
    let mut asked = options();
    asked.providers = Some(vec!["kimi".into(), "kimi".into()]);
    let mut rows = no_rows();
    rows.codex = vec![pending("codex")];
    let shown = collect_live_limits(&asked, rows, 0);
    assert_eq!(shown.len(), 1);
    assert_eq!(shown[0].provider_id, "kimi");
    asked.providers = Some(vec!["all".into()]);
    let mut rows = no_rows();
    rows.codex = vec![pending("codex")];
    let shown = collect_live_limits(&asked, rows, 0);
    assert_eq!(shown.iter().filter(|row| row.provider_id == "kimi").count(), 1);
    assert_eq!(shown.iter().filter(|row| row.provider_id == "codex").count(), 1);
}

#[test]
fn ports_are_read_from_what_listens() {
    let output = "COMMAND PID USER FD TYPE DEVICE SIZE/OFF NODE NAME\nlanguage 1 me 4u IPv4 0x1 0t0 TCP 127.0.0.1:57388 (LISTEN)\nlanguage 1 me 5u IPv4 0x1 0t0 TCP 127.0.0.1:57389 (LISTEN)\n";
    assert_eq!(antigravity_ports(output), vec![57388, 57389]);
}

#[test]
fn the_newest_logs_come_first() {
    let logs = (0..12u64)
        .map(|at| LogStamp { index: at as usize, changed: at })
        .collect::<Vec<_>>();
    let newest = newest_logs(logs);
    assert_eq!(newest.len(), 8);
    assert_eq!(newest[0].index, 11);
    assert_eq!(newest[7].index, 4);
}

#[test]
fn cookies_are_reduced_to_what_is_sent() {
    assert_eq!(normalize_claude_web_cookie("  "), None);
    let cookie = normalize_claude_web_cookie("Cookie: sessionKey=abc; other=def").unwrap();
    assert!(cookie.contains("sessionKey=abc"));
    assert!(!cookie.starts_with("Cookie:"));
}

#[test]
fn cursor_accounts_are_listed_once() {
    assert_eq!(cursor_accounts(None).len(), 0);
}

#[test]
fn window_lengths_are_in_minutes() {
    let hours = json(r#"{"unit":3,"number":5}"#);
    let weeks = json(r#"{"unit":6,"number":1}"#);
    let minutes = json(r#"{"unit":5,"number":5}"#);
    assert_eq!(number(zai_window_minutes(&hours)), 300.0);
    assert_eq!(number(zai_window_minutes(&weeks)), 10_080.0);
    assert_eq!(number(zai_window_minutes(&minutes)), 5.0);
    assert_eq!(number(zai_window_minutes(&json("{}"))), f64::MAX);
}

#[test]
fn qoder_needs_a_usage() {
    assert!(qoder_window(&json("{}")).is_none());
}

#[test]
fn formulas_are_worked_out_in_binary64() {
    let tenth = Formula::Given(quantity(0.1));
    let fifth = Formula::Given(quantity(0.2));
    let sum = Formula::Plus(Box::new(tenth), Box::new(fifth));
    assert_eq!(number(sum.evaluate(&vec![])), 0.1 + 0.2);
    let third = Formula::Over(
        Box::new(Formula::Given(quantity(1.0))),
        Box::new(Formula::Given(quantity(3.0))),
    );
    assert_eq!(number(third.evaluate(&vec![])), 1.0 / 3.0);
    let held = Formula::Percentage(Box::new(Formula::Given(quantity(140.0))));
    assert_eq!(number(held.evaluate(&vec![])), 100.0);
    let unknown = Formula::PowerOfTen(quantity(2.0));
    assert!(number(unknown.evaluate(&vec![])).is_nan());
}

#[test]
fn a_row_shows_nothing_of_the_token() {
    let reply = Reply::Refused(401);
    let row = |token: &str| match collect_deepseek(Some(token), true, &reply, 7) {
        Row::Missing(row) => row,
        other => panic!("{other:?}"),
    };
    let (first, second) = (row("secret-one"), row("secret-two"));
    assert_ne!(first.account_key, second.account_key);
    assert!(first.account_key.starts_with("deepseek:"));
    assert_eq!(first.source_health, SourceHealth::Unauthorized);
    assert_eq!(first.diagnostics, second.diagnostics);
    assert!(!format!("{first:?}").contains("secret-one"));
}
