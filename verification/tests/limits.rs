//! Windows, rows and their order.

use token_monitor::limits::{
    merge_provider_snapshots, sort_burn_first, Availability, LimitWindow, ProviderSnapshot,
    SourceHealth, WindowKind, WindowMetric,
};
use token_monitor::quantity::Quantity;
use token_monitor::registry::{display_name, is_known, is_native, ALL_PROVIDER_IDS};

fn window(label: &str, kind: WindowKind, percent: f64, reset: i64) -> LimitWindow {
    LimitWindow {
        label: label.into(),
        kind,
        metric: WindowMetric::Quota,
        remaining_percent: Some(Quantity { bits: percent.to_bits() }),
        remaining_amount: None,
        currency: None,
        resets_at_ms: Some(reset),
        reset_text: None,
        estimated: false,
    }
}

fn provider(id: &str, plan: &str, windows: Vec<LimitWindow>) -> ProviderSnapshot {
    ProviderSnapshot {
        provider_id: id.into(),
        account_key: id.into(),
        account_label: id.into(),
        plan: plan.into(),
        source: "fixture".into(),
        collected_at_ms: 0,
        source_health: SourceHealth::Connected,
        availability: Availability::Available,
        windows,
        diagnostics: vec![],
        hue: 45,
    }
}

fn ids(rows: &[ProviderSnapshot]) -> Vec<&str> {
    rows.iter().map(|row| row.provider_id.as_str()).collect()
}

#[test]
fn effective_floor_only_applies_to_quota_windows() {
    assert!(window("G7d", WindowKind::Weekly, 0.1, 100).effectively_exhausted());
    assert!(window("G7d", WindowKind::Weekly, 0.103, 100).effectively_exhausted());
    assert!(!window("G7d", WindowKind::Weekly, 1.0, 100).effectively_exhausted());
    let credit = LimitWindow {
        label: "credit".into(),
        kind: WindowKind::Billing,
        metric: WindowMetric::Credits,
        remaining_percent: Some(Quantity { bits: 0.01f64.to_bits() }),
        remaining_amount: Some(Quantity { bits: 0.01f64.to_bits() }),
        currency: Some("USD".into()),
        resets_at_ms: None,
        reset_text: None,
        estimated: false,
    };
    assert!(!credit.effectively_exhausted());
}

#[test]
fn durable_window_beats_short_session_and_payg() {
    let now = 1_000;
    let mut rows = vec![
        provider("openrouter", "Pay-as-you-go", vec![]),
        provider("codex", "Plus", vec![window("5h", WindowKind::Session, 90.0, 1_100)]),
        provider("cursor", "Free", vec![window("Credit", WindowKind::Billing, 100.0, 1_050)]),
    ];
    sort_burn_first(&mut rows, now);
    assert_eq!(ids(&rows), ["cursor", "codex", "openrouter"]);
}

#[test]
fn a_lasting_deadline_outranks_a_sooner_session_reset() {
    let mut rows = vec![
        provider("codex", "Plus", vec![window("5h", WindowKind::Session, 90.0, 1_050)]),
        provider("cursor", "Free", vec![window("Credit", WindowKind::Billing, 100.0, 1_100)]),
    ];
    sort_burn_first(&mut rows, 1_000);
    assert_eq!(ids(&rows), ["cursor", "codex"]);
    let mut rows = vec![
        provider(
            "codex",
            "Plus",
            vec![
                window("5h", WindowKind::Session, 90.0, 1_050),
                window("7d", WindowKind::Weekly, 90.0, 5_000),
            ],
        ),
        provider("cursor", "Free", vec![window("Credit", WindowKind::Billing, 100.0, 2_000)]),
        provider("kiro", "", vec![window("5h", WindowKind::Session, 90.0, 1_010)]),
        provider("zai", "", vec![]),
    ];
    sort_burn_first(&mut rows, 1_000);
    assert_eq!(ids(&rows), ["cursor", "codex", "kiro", "zai"]);
}

#[test]
fn exhausted_subscriptions_rank_to_bottom_above_payg() {
    let now = 1_000;
    let mut rows = vec![
        provider("openrouter", "Pay-as-you-go", vec![]),
        provider(
            "codex",
            "Plus",
            vec![
                window("5h", WindowKind::Session, 100.0, 1_100),
                window("7d", WindowKind::Weekly, 0.0, 1_500),
            ],
        ),
        provider("anthropic", "Pro", vec![window("7d", WindowKind::Weekly, 95.0, 2_000)]),
        provider("commandcode", "Go", vec![window("7d", WindowKind::Weekly, 88.0, 1_200)]),
        provider("grok", "SuperGrok", vec![window("7d", WindowKind::Weekly, 0.0, 1_300)]),
    ];
    sort_burn_first(&mut rows, now);
    assert_eq!(ids(&rows), ["commandcode", "anthropic", "grok", "codex", "openrouter"]);
}

#[test]
fn default_visibility_hides_unconfigured_placeholders_but_keeps_failures() {
    let mut placeholder = provider("copilot", "", vec![]);
    placeholder.diagnostics = vec!["Copilot API token not configured".into()];
    assert!(!placeholder.visible_by_default());

    let mut failed = provider("anthropic", "", vec![]);
    failed.account_key = "anthropic:hashed".into();
    failed.source_health = SourceHealth::Unavailable;
    failed.diagnostics = vec!["HTTP 429".into()];
    assert!(failed.visible_by_default());
}

#[test]
fn transient_empty_refresh_keeps_last_good_windows_as_stale() {
    let old = provider("codex", "Plus", vec![window("5h", WindowKind::Session, 80.0, 2_000)]);
    let mut failed = old.clone();
    failed.windows.clear();
    failed.source_health = SourceHealth::Unavailable;
    failed.diagnostics = vec!["HTTP 429".into()];
    let merged = merge_provider_snapshots(&[old], vec![failed]);
    assert_eq!(merged[0].source_health, SourceHealth::Stale);
    assert_eq!(merged[0].windows.len(), 1);
    assert_eq!(merged[0].diagnostics, vec!["HTTP 429"]);
}

#[test]
fn registry_has_all_legacy_provider_ids_once() {
    let mut values = ALL_PROVIDER_IDS.to_vec();
    values.sort_unstable();
    values.dedup();
    assert_eq!(values.len(), ALL_PROVIDER_IDS.len());
    assert!(is_native("antigravity"));
    assert!(!is_native("kimi"));
}

#[test]
fn providers_have_names() {
    assert_eq!(display_name("zai"), "Z.ai");
    assert_eq!(display_name("something-else"), "something-else");
    assert!(is_known("kimi"));
    assert!(!is_known("something-else"));
    // The case of an id counts.
    assert_eq!(display_name("ZAI"), "ZAI");
    let mut names = ALL_PROVIDER_IDS.iter().map(|id| display_name(id)).collect::<Vec<_>>();
    for name in &names {
        assert_eq!(display_name(name), *name);
    }
    names.sort_unstable();
    names.dedup();
    assert_eq!(names.len(), ALL_PROVIDER_IDS.len());
}

#[test]
fn sorting_keeps_equal_rows_in_their_order() {
    let mut rows = vec![
        provider("a", "Plus", vec![window("7d", WindowKind::Weekly, 50.0, 2_000)]),
        provider("b", "Plus", vec![window("7d", WindowKind::Weekly, 50.0, 2_000)]),
        provider("c", "Plus", vec![window("7d", WindowKind::Weekly, 50.0, 2_000)]),
    ];
    rows[1].account_key = rows[0].account_key.clone();
    sort_burn_first(&mut rows, 1_000);
    assert_eq!(ids(&rows), ["a", "b", "c"]);
}

#[test]
fn a_fresh_answer_replaces_what_was_known() {
    let old = provider("codex", "Plus", vec![window("5h", WindowKind::Session, 80.0, 2_000)]);
    let fresh = provider("codex", "Plus", vec![window("5h", WindowKind::Session, 10.0, 3_000)]);
    let merged = merge_provider_snapshots(&[old], vec![fresh]);
    assert_eq!(merged[0].source_health, SourceHealth::Connected);
    assert_eq!(merged[0].windows[0].resets_at_ms, Some(3_000));
}

#[test]
fn an_account_that_failed_at_first_stays_failed() {
    let mut failed = provider("codex", "", vec![]);
    failed.source_health = SourceHealth::Unavailable;
    let merged = merge_provider_snapshots(&[], vec![failed]);
    assert_eq!(merged[0].source_health, SourceHealth::Unavailable);
    assert!(merged[0].windows.is_empty());
}

#[test]
fn a_window_whose_reset_has_passed_has_no_deadline() {
    let open = window("7d", WindowKind::Weekly, 50.0, 2_000);
    assert_eq!(open.deadline_ms(1_000), Some(2_000));
    assert!(open.spendable());
    let spent = window("7d", WindowKind::Weekly, 0.0, 2_000);
    assert!(!spent.spendable());
    let row = provider("a", "Plus", vec![spent, open]);
    assert!(row.is_exhausted());
    assert_eq!(row.lowest_remaining_percent(), Some(Quantity { bits: 0 }));
}

#[test]
fn wallets_pay_as_they_go() {
    assert!(provider("openrouter", "Pay-as-you-go", vec![]).payg());
    assert!(!provider("codex", "Plus", vec![]).payg());
}
