//! What the screens show and what keys do.

use token_monitor::columns::{columns, indent_lines};
use token_monitor::credentials::Credentials;
use token_monitor::detail::DetailModal;
use token_monitor::detail_page::modal_lines;
use token_monitor::fixtures::{mock_consumption_report, SampleDates};
use token_monitor::frame::{footer_text, header_lines, scroll_of, settings_lines};
use token_monitor::labels::{
    compact_reset_description, display_plan, mask_email, normalize_client_id, provider_identity,
    provider_title_base, provider_titles,
};
use token_monitor::ledger::{
    compute_temporal_usage, consumption_rows, model_consumption_rows, Clock, ConsumptionMetric,
    LedgerWindow,
};
use token_monitor::ledger_page::consumption_lines;
use token_monitor::limits::{
    Availability, LimitWindow, ProviderSnapshot, SourceHealth, WindowKind, WindowMetric,
};
use token_monitor::monitor::{App, Context, Filter, Key, Press, Request, Tab};
use token_monitor::pricing::PricingEngine;
use token_monitor::quantity::Quantity;
use token_monitor::registry::display_name;
use token_monitor::report::build_consumption_report;
use token_monitor::run::{Arrivals, Happening, Run};
use token_monitor::screen::{fit, Page};
use token_monitor::startup::{
    body_lines, cached_rows, draw_width, load_cached_app, once_height, once_width,
    public_snapshot, stated_size, Args, Mode, Origin,
};
use token_monitor::summary::usage_lines;
use token_monitor::usage::UsageSnapshot;

const NOW: i64 = 1_788_640_000_000;

fn context() -> Context {
    Context {
        clock: Clock {
            now_ms: NOW,
            today: "2026-09-05".into(),
            today_start_ms: 1_788_566_400_000,
        },
        tick_ms: 10_000,
        pricing: PricingEngine::unavailable(),
    }
}

fn dates() -> SampleDates {
    SampleDates {
        now_ms: NOW,
        today: "2026-09-05".into(),
        yesterday: "2026-09-04".into(),
        three_days_ago: "2026-09-02".into(),
        ten_days_ago: "2026-08-26".into(),
    }
}

fn new_app() -> App {
    App::new(true, false, &dates(), &context())
}

fn press(app: &mut App, key: Key) -> Request {
    app.handle_key(Press { key, control: false }, &context())
}

fn text(page: &Page) -> String {
    page.lines.iter().map(|line| line.text()).collect::<Vec<_>>().join("\n")
}

fn body(app: &App, width: u16, height: u16) -> Page {
    let none = Credentials::new();
    body_lines(app, &none, &none, None, width, height, &context())
}

fn empty_snapshot() -> UsageSnapshot {
    UsageSnapshot { records: vec![], processing_time_ms: 0, tokscale_revision: String::new() }
}

fn args() -> Args {
    Args {
        once: false,
        consumption: false,
        live: false,
        mock: false,
        refresh: 60,
        providers: None,
        json: false,
        audit_pricing: false,
        clients: None,
        days: 30,
        width: None,
        no_color: false,
        show_account: false,
        skip_import: false,
    }
}

fn parse_from(words: &[&str]) -> Args {
    let matches = clap::Command::new("token-monitor")
        .arg(
            clap::Arg::new("live")
                .long("live")
                .action(clap::ArgAction::SetTrue)
                .overrides_with("mock"),
        )
        .arg(
            clap::Arg::new("mock")
                .long("mock")
                .alias("no-live")
                .action(clap::ArgAction::SetTrue)
                .overrides_with("live"),
        )
        .get_matches_from(words);
    let mut found = args();
    found.live = matches.get_flag("live");
    found.mock = matches.get_flag("mock");
    found
}

fn row(id: &str) -> ProviderSnapshot {
    ProviderSnapshot {
        provider_id: id.into(),
        account_key: "private-account-id".into(),
        account_label: "person@example.com".into(),
        plan: "Free".into(),
        source: "fixture".into(),
        collected_at_ms: 0,
        source_health: SourceHealth::Connected,
        availability: Availability::Available,
        windows: vec![],
        diagnostics: vec![],
        hue: 75,
    }
}

#[test]
fn filters_toggle_back_to_all() {
    let mut app = new_app();
    press(&mut app, Key::Char('c'));
    assert_eq!(app.ui.filter, Filter::Credits);
    press(&mut app, Key::Char('c'));
    assert_eq!(app.ui.filter, Filter::All);
}

#[test]
fn t_toggles_consumption_view() {
    let mut app = new_app();
    assert_eq!(app.ui.tab, Tab::Limits);
    press(&mut app, Key::Char('t'));
    assert_eq!(app.ui.tab, Tab::Consumption);
    press(&mut app, Key::Char('t'));
    assert_eq!(app.ui.tab, Tab::Limits);
}

#[test]
fn m_toggles_consumption_rank_metric() {
    let mut app = new_app();
    app.ui.tab = Tab::Consumption;
    assert_eq!(app.ui.consumption_metric, ConsumptionMetric::Tokens);
    press(&mut app, Key::Char('m'));
    assert_eq!(app.ui.consumption_metric, ConsumptionMetric::ApiEquivalent);
    press(&mut app, Key::Char('m'));
    assert_eq!(app.ui.consumption_metric, ConsumptionMetric::Tokens);
}

#[test]
fn settings_screen_supports_masked_paste_without_auto_saving() {
    let mut app = new_app();
    press(&mut app, Key::Char('p'));
    assert_eq!(app.ui.tab, Tab::Settings);
    app.settings.selected = app
        .settings
        .provider_ids
        .iter()
        .position(|provider| provider == "anthropic")
        .unwrap();
    press(&mut app, Key::Enter);
    assert!(app.settings.editing);
    app.handle_paste("secret-value\n");
    assert_eq!(app.settings.input, "secret-value");
    let none = Credentials::new();
    let shown = text(&settings_lines(&app, &none, &none, None, 100));
    assert!(shown.contains("Anthropic"));
    assert!(shown.contains("provider page"));
    assert!(shown.contains("••••••••••••"));
    assert!(!shown.contains("secret-value"));
}

#[test]
fn test_backend_frame_fits_narrow_width() {
    let app = new_app();
    for width in [40u16, 60, 80, 120, 160] {
        let backend = ratatui::backend::TestBackend::new(width, 24);
        let mut terminal = ratatui::Terminal::new(backend).expect("test backend");
        let header = header_lines(&app, width, 60, 10_000, NOW);
        let page = body(&app, width, 24);
        let shown = format!("{}\n{}\n{}", text(&header), text(&page), footer_text(&app, width));
        terminal
            .draw(|frame| {
                frame.render_widget(ratatui::widgets::Paragraph::new(shown.as_str()), frame.area())
            })
            .expect("draw");
        for line in terminal.backend().buffer().content.chunks(width as usize) {
            assert_eq!(line.len(), width as usize);
        }
    }
}

#[test]
fn limits_does_not_scroll_when_all_content_fits() {
    let mut app = new_app();
    app.ui.limits_selected = 10;
    let page = body(&app, 99, 26);
    let viewport = 26 - 3;
    let scroll = scroll_of(&page, app.ui.scroll, viewport) as usize;
    let full_text = page
        .lines
        .iter()
        .skip(scroll)
        .take(viewport as usize)
        .map(|line| line.text())
        .collect::<Vec<_>>()
        .join("\n");
    assert!(full_text.contains("AI SUBSCRIPTIONS"));
    assert!(full_text.contains("Vast.ai"));
}

#[test]
fn consumption_view_contains_both_value_measures() {
    let mut app = new_app();
    app.ui.tab = Tab::Consumption;
    let report = build_consumption_report(empty_snapshot(), &PricingEngine::unavailable(), true);
    app.set_consumption(report, &context());
    assert!(text(&body(&app, 100, 26)).contains("API-EQ"));
}

#[test]
fn cursor_navigation_and_horizontal_window_switching() {
    let mut app = new_app();
    app.ui.tab = Tab::Consumption;
    let report = build_consumption_report(empty_snapshot(), &PricingEngine::unavailable(), true);
    app.set_consumption(report, &context());

    app.ui.ledger_window = LedgerWindow::Today;
    app.ui.consumption_selected = 0;

    press(&mut app, Key::Char('l'));
    assert_eq!(app.ui.ledger_window, LedgerWindow::Last24h);

    press(&mut app, Key::Char('h'));
    assert_eq!(app.ui.ledger_window, LedgerWindow::Today);

    press(&mut app, Key::Char('j'));
    assert_eq!(app.ui.ledger_window, LedgerWindow::Today);

    press(&mut app, Key::Char('k'));
    assert_eq!(app.ui.consumption_selected, 0);
    assert_eq!(app.ui.ledger_window, LedgerWindow::Today);

    press(&mut app, Key::Enter);
    match app.modal {
        DetailModal::ConsumptionWindow { window, .. } => {
            assert_eq!(window, LedgerWindow::Today);
        },
        _ => panic!("expected ConsumptionWindow modal"),
    }
}

#[test]
fn consumption_window_modal_shows_top_models_and_refresh_indicator() {
    let mut app = new_app();
    app.ui.tab = Tab::Consumption;
    let report = mock_consumption_report(&dates(), &PricingEngine::unavailable());
    app.set_consumption(report, &context());

    app.ui.ledger_window = LedgerWindow::Today;
    app.ui.consumption_selected = 0;
    press(&mut app, Key::Enter);
    let m_text = text(&modal_lines(&app.modal, 100, false, NOW));
    assert!(m_text.contains("CLIENT / HARNESS & SUB-MODEL HIERARCHY"));
    assert!(m_text.contains("▼ "));
    assert!(m_text.contains("└─ "));
    assert!(m_text.contains("TOP MODELS IN THIS WINDOW"));
    assert!(m_text.contains("PARENT HARNESS"));

    assert_eq!(app.ui.modal_scroll, 0);
    press(&mut app, Key::Char('j'));
    assert_eq!(app.ui.modal_scroll, 1);
    press(&mut app, Key::Down);
    assert_eq!(app.ui.modal_scroll, 2);
    press(&mut app, Key::Char('k'));
    assert_eq!(app.ui.modal_scroll, 1);
    press(&mut app, Key::Up);
    assert_eq!(app.ui.modal_scroll, 0);

    press(&mut app, Key::Esc);
    assert!(matches!(app.modal, DetailModal::Closed));
    assert_eq!(app.ui.modal_scroll, 0);

    let c_text = text(&consumption_lines(&app, 120, &context()));
    assert!(c_text.contains("HARNESS"), "Main screen must have HARNESS column");

    press(&mut app, Key::Char('r'));
    assert!(app.ui.usage_busy);
    assert!(!app.ui.limits_busy);
    for w in [80u16, 100, 120] {
        let header = header_lines(&app, w, 60, 10_000, NOW);
        assert!(
            header.lines[0].text().contains("refreshing..."),
            "width {w} first row must contain refreshing..."
        );
        assert!(
            header.lines[1].text().contains("refreshing..."),
            "width {w} subtitle must contain refreshing..."
        );
    }

    let mut limits_app = new_app();
    limits_app.ui.tab = Tab::Limits;
    press(&mut limits_app, Key::Char('r'));
    assert!(limits_app.ui.limits_busy);
    assert!(!limits_app.ui.usage_busy);
    for w in [80u16, 100, 120] {
        let header = header_lines(&limits_app, w, 60, 10_000, NOW);
        assert!(
            header.lines[0].text().contains("refreshing..."),
            "width {w} limits first row must contain refreshing..."
        );
        assert!(
            header.lines[1].text().contains("refreshing..."),
            "width {w} limits subtitle must contain refreshing..."
        );
    }
}

#[test]
fn account_output_is_masked_unless_explicitly_requested() {
    let provider = row("cursor");
    let masked = provider_identity(&provider, false).unwrap();
    assert_eq!(masked, "p***@example.com");
    assert_eq!(provider_identity(&provider, true).unwrap(), "person@example.com");
    assert_eq!(provider_title_base(&provider), "Cursor · Free");
    let duplicate = provider_titles(&vec![&provider, &provider], false);
    assert_eq!(duplicate[0], "Cursor · Free · p***@example.com");
    let value = public_snapshot(&provider, false);
    assert_eq!(value.account_key, "redacted");
    assert_eq!(value.account_label, "p***@example.com");
}

#[test]
fn args_default_to_live_mode() {
    let mut args = parse_from(&["token-monitor"]);
    args.resolve_live();
    assert!(args.live);
    assert!(!args.mock);

    let mut args_mock = parse_from(&["token-monitor", "--mock"]);
    args_mock.resolve_live();
    assert!(!args_mock.live);
    assert!(args_mock.mock);

    let mut args_no_live = parse_from(&["token-monitor", "--no-live"]);
    args_no_live.resolve_live();
    assert!(!args_no_live.live);
    assert!(args_no_live.mock);

    let mut args_live = parse_from(&["token-monitor", "--live"]);
    args_live.resolve_live();
    assert!(args_live.live);
    assert!(!args_live.mock);
}

#[test]
fn mock_consumption_ledger_is_populated_and_shows_windows() {
    let mut app = new_app();
    app.ui.tab = Tab::Consumption;
    let shown = text(&body(&app, 160, 40));
    assert!(shown.contains("Codex"));
    assert!(shown.contains("Anthropic"));
    assert!(shown.contains("Antigravity"));
    assert!(shown.contains("BURN VELOCITY"));
}

#[test]
fn fullscreen_limits_shows_full_labels_and_velocity_widget() {
    let app = new_app();
    let shown = text(&body(&app, 180, 40));
    assert!(shown.contains("Gemini Pool (Flash/Pro)"));
    assert!(shown.contains("Anthropic/GPT Pool (Sonnet)"));
    assert!(shown.contains("Modal · workspace-a"));
    assert!(shown.contains("TOKEN CONSUMPTION & VELOCITY"));
    assert!(!shown.contains("Modal · Modal"));
}

#[test]
fn settings_screen_scrolls_viewport_when_scrolling_down() {
    let mut app = new_app();
    press(&mut app, Key::Char('3'));
    assert_eq!(app.ui.tab, Tab::Settings);
    for _ in 0..15 {
        press(&mut app, Key::Down);
    }
    let sel_id = app.settings.provider_ids[app.settings.selected].clone();
    let sel_label = display_name(&sel_id);

    let page = body(&app, 100, 14);
    let viewport = 14 - 3;
    let scroll = scroll_of(&page, app.ui.scroll, viewport) as usize;
    let rendered = page
        .lines
        .iter()
        .skip(scroll)
        .take(viewport as usize)
        .map(|line| line.text())
        .collect::<Vec<_>>()
        .join("\n");
    assert!(rendered.contains("▶"));
    assert!(rendered.contains(sel_label));
}

#[test]
fn texts_are_cut_by_the_columns_they_take() {
    assert_eq!(fit("abc", 5), "abc  ");
    assert_eq!(fit("abcdef", 4).chars().count(), 4);
    // Each of these takes two columns.
    assert_eq!(fit("日本", 4), "日本");
    assert_eq!(fit("日本", 5), "日本 ");
    let cut = fit("日本語", 4);
    assert!(cut.starts_with("日"), "{}", cut);
    assert!(!cut.contains("語"), "{}", cut);
}

#[test]
fn detail_titles_are_in_capitals() {
    let mut app = new_app();
    press(&mut app, Key::Enter);
    let shown = text(&modal_lines(&app.modal, 100, false, NOW));
    let id = match &app.modal {
        DetailModal::LimitsProvider(found) => found.provider_id.clone(),
        _ => panic!("the first row is opened"),
    };
    assert!(shown.starts_with(&format!("PROVIDER: {} ", id.to_uppercase())), "{}", shown);
    assert!(shown.ends_with("[Esc / Enter / Space to close]"));
}

#[test]
fn the_detail_masks_the_account_unless_it_may_be_shown() {
    let mut person = row("cursor");
    person.account_label = "person@example.com".into();
    let mut app = App::from_providers(vec![person], true, false, &context());
    app.open_limits_detail();
    let hidden = text(&modal_lines(&app.modal, 120, app.ui.show_account, NOW));
    assert!(!hidden.contains("person@example.com"), "{}", hidden);
    assert!(hidden.contains("Account: p***@example.com"), "{}", hidden);
    let shown = text(&modal_lines(&app.modal, 120, true, NOW));
    assert!(shown.contains("Account: person@example.com"), "{}", shown);
}

#[test]
fn a_closed_detail_has_no_lines() {
    assert_eq!(modal_lines(&DetailModal::Closed, 100, false, NOW).lines.len(), 0);
}

#[test]
fn addresses_are_masked() {
    assert_eq!(mask_email("person@example.com"), "p***@example.com");
    assert_eq!(mask_email("nobody"), "nobody");
}

#[test]
fn plans_and_clients_have_names() {
    assert_eq!(display_plan("pro"), "Pro");
    assert_eq!(normalize_client_id("codex"), "Codex");
    assert_eq!(compact_reset_description("Monthly grant reset"), "monthly");
    assert_eq!(compact_reset_description(" in 3 hours "), "in 3 hours");
}

#[test]
fn searches_narrow_the_list() {
    let mut app = new_app();
    let all = app.visible_providers().len();
    press(&mut app, Key::Char('/'));
    assert!(app.ui.searching);
    for c in "codex".chars() {
        press(&mut app, Key::Char(c));
    }
    press(&mut app, Key::Enter);
    assert!(!app.ui.searching);
    let found = app.visible_providers().len();
    assert!(found >= 1 && found < all);
    press(&mut app, Key::Esc);
    assert_eq!(app.visible_providers().len(), all);
}

#[test]
fn no_match_says_so() {
    let mut app = new_app();
    app.search_query = "no such provider".into();
    let page = body(&app, 100, 30);
    assert_eq!(text(&page), "No providers match this filter.");
}

#[test]
fn an_entered_secret_is_saved_only_on_request() {
    let mut app = new_app();
    press(&mut app, Key::Char('p'));
    app.settings.selected =
        app.settings.provider_ids.iter().position(|id| id == "openrouter").unwrap();
    assert!(matches!(press(&mut app, Key::Enter), Request::Nothing));
    for c in "key".chars() {
        assert!(matches!(press(&mut app, Key::Char(c)), Request::Nothing));
    }
    match press(&mut app, Key::Enter) {
        Request::Save { env_name, secret } => {
            assert!(env_name.contains("OPENROUTER"), "{}", env_name);
            assert_eq!(secret, "key");
        },
        _ => panic!("the entry is to be saved"),
    }
    app.saved(None);
    assert!(!app.settings.editing);
    assert_eq!(app.settings.input, "");
}

#[test]
fn buckets_grow_with_their_windows() {
    let report = mock_consumption_report(&dates(), &PricingEngine::unavailable());
    let clock = context().clock;
    let buckets = compute_temporal_usage(&report, &PricingEngine::unavailable(), &clock);
    assert_eq!(buckets.len(), 5);
    assert!(buckets[1].tokens <= buckets[2].tokens);
    assert!(buckets[2].tokens <= buckets[3].tokens);
    assert!(buckets[3].tokens <= buckets[4].tokens);
    assert_eq!(buckets[4].records, report.snapshot.records.len());
}

#[test]
fn rows_are_ranked_by_tokens() {
    let report = mock_consumption_report(&dates(), &PricingEngine::unavailable());
    let clock = context().clock;
    let rows = consumption_rows(
        &report,
        &PricingEngine::unavailable(),
        ConsumptionMetric::Tokens,
        LedgerWindow::AllTime,
        "",
        &clock,
    );
    assert!(rows.windows(2).all(|pair| pair[0].token_total() >= pair[1].token_total()));
    let total: i64 = rows.iter().map(|row| row.token_total()).sum();
    let models = model_consumption_rows(
        &report,
        &PricingEngine::unavailable(),
        ConsumptionMetric::Tokens,
        LedgerWindow::AllTime,
        "",
        &clock,
    );
    let of_models: i64 = models.iter().map(|row| row.token_total()).sum();
    assert_eq!(total, of_models);
}

#[test]
fn the_usage_report_lists_windows_and_clients() {
    let report = mock_consumption_report(&dates(), &PricingEngine::unavailable());
    let lines = usage_lines(&report, &context());
    assert_eq!(lines[0], "TOKEN MONITOR · consumption · native Tokscale core");
    let head = format!(
        "{} records · {} clients · {} models · parsed in 12ms",
        report.snapshot.records.len(),
        report.snapshot.clients().len(),
        report.snapshot.models().len()
    );
    assert_eq!(lines[1], head);
    assert!(lines.iter().any(|line| line.starts_with("WINDOW           TOTAL TOKENS        INPUT")));
    assert!(lines.iter().any(|line| line.starts_with("SUBSCRIPTION / CLIENT")));
    assert!(lines.iter().any(|line| *line == "-".repeat(88)));
}

#[test]
fn stored_rows_are_stale_and_placeholders_give_way() {
    let mut placeholder = row("kiro");
    placeholder.source = "registry".into();
    let rows = vec![row("kiro"), placeholder, row("codex")];
    let shown = cached_rows(&rows, &Some(vec!["KIRO".to_owned()]));
    assert_eq!(shown.len(), 1);
    assert_eq!(shown[0].source, "fixture");
    assert_eq!(shown[0].source_health, SourceHealth::Stale);
    assert_eq!(cached_rows(&rows, &Some(vec!["all".to_owned()])).len(), 2);
}

#[test]
fn a_start_without_storage_waits_for_rows() {
    let app = load_cached_app(None, None, &None, false, false, &dates(), &context());
    assert!(app.ui.live);
    assert!(app.providers.is_empty());
    assert!(app.consumption.is_some());
    let app = load_cached_app(Some(vec![]), None, &None, false, false, &dates(), &context());
    assert!(app.consumption.is_some());
    let app = load_cached_app(
        Some(vec![row("codex")]),
        Some(empty_snapshot()),
        &None,
        false,
        false,
        &dates(),
        &context(),
    );
    assert_eq!(app.consumption.unwrap().snapshot.records.len(), 0);
}

#[test]
fn modes_follow_the_arguments() {
    let mut found = args();
    found.resolve_live();
    assert_eq!(found.mode(true), Mode::Interactive);
    assert_eq!(found.origin(true), Origin::Stored);
    assert_eq!(found.mode(false), Mode::Once);
    assert_eq!(found.origin(false), Origin::Live);
    found.json = true;
    assert_eq!(found.mode(true), Mode::Json);
    found.consumption = true;
    assert_eq!(found.mode(true), Mode::Usage);
    let mut mocked = args();
    mocked.mock = true;
    mocked.resolve_live();
    assert_eq!(mocked.origin(true), Origin::Fixture);
}

#[test]
fn the_ledger_begins_some_days_ago() {
    let mut found = args();
    assert_eq!(found.since(NOW), Some("2026-08-06".to_owned()));
    found.days = 0;
    assert_eq!(found.since(NOW), None);
    found.providers = Some(vec!["Codex".to_owned()]);
    assert_eq!(found.asked_providers(), Some(vec!["codex".to_owned()]));
    found.providers = Some(vec!["Kimi".into(), "codex".into(), "kimi".into()]);
    assert_eq!(found.asked_providers(), Some(vec!["kimi".to_owned(), "codex".to_owned()]));
}

#[test]
fn sizes_come_from_arguments_environment_and_terminal() {
    assert_eq!(stated_size(Some("120")), Some(120));
    assert_eq!(stated_size(Some("+7")), Some(7));
    assert_eq!(stated_size(Some("-0")), None);
    assert_eq!(stated_size(Some("70000")), None);
    assert_eq!(stated_size(Some("wide")), None);
    assert_eq!(stated_size(None), None);
    assert_eq!(once_width(None, Some(90), 80), 90);
    assert_eq!(once_width(Some(10), Some(90), 80), 40);
    assert_eq!(once_width(None, None, 80), 80);
    assert_eq!(once_height(10, None), 24);
    assert_eq!(once_height(30, Some(10)), 35);
    assert_eq!(once_height(10, Some(50)), 50);
    assert_eq!(draw_width(None, 20), 30);
    assert_eq!(draw_width(Some(77), 20), 77);
}

#[test]
fn a_run_collects_once_at_a_time() {
    let app = new_app();
    let none = Arrivals { limits: false, usage: false };
    let first = Run::start(0).turn(app.ui, true, 60, none, 20_000);
    assert!(first.collect_limits);
    assert!(!first.collect_usage);
    assert!(first.draw);
    let second = first.run.turn(first.ui, true, 60, none, 20_100);
    assert!(!second.collect_limits);
    let came = Arrivals { limits: true, usage: false };
    let third = second.run.turn(second.ui, true, 60, came, 20_200);
    assert!(!third.collect_limits);
    assert!(!third.ui.limits_busy);
    assert!(third.draw);
    let later = third.run.turn(third.ui, true, 60, none, 80_000);
    assert!(later.collect_limits);
}

#[test]
fn the_refresh_key_collects_at_once() {
    let app = new_app();
    let none = Arrivals { limits: false, usage: false };
    let first = Run::start(0).turn(app.ui, true, 60, none, 20_000);
    let came = Arrivals { limits: true, usage: false };
    let idle = first.run.turn(first.ui, true, 60, came, 21_000);
    let (run, ui) = idle.run.notice(idle.ui, Happening::Pressed(Key::Char('r')), 22_000);
    assert!(ui.limits_busy);
    assert!(run.turn(ui, true, 60, none, 22_000).collect_limits);
    assert!(!idle.run.turn(idle.ui, true, 60, none, 22_000).collect_limits);
    let (run, ui) = idle.run.notice(idle.ui, Happening::Nothing, 22_000);
    assert_eq!(run, idle.run);
    assert_eq!(ui, idle.ui);
}

#[test]
fn a_monitor_that_is_told_to_stop_draws_nothing() {
    let mut app = new_app();
    press(&mut app, Key::Char('q'));
    let none = Arrivals { limits: false, usage: false };
    let turn = Run::start(0).turn(app.ui, false, 60, none, 20_000);
    assert!(turn.stop);
    assert!(!turn.draw);
    assert!(!turn.collect_limits);
}

#[test]
fn a_refresh_that_fails_keeps_the_last_windows() {
    let mut app = new_app();
    let mut good = row("codex");
    good.windows = vec![LimitWindow {
        label: "7d".into(),
        kind: WindowKind::Weekly,
        metric: WindowMetric::Quota,
        remaining_percent: Some(Quantity { bits: 50.0f64.to_bits() }),
        remaining_amount: None,
        currency: None,
        resets_at_ms: Some(NOW + 1_000),
        reset_text: None,
        estimated: false,
    }];
    app.take_limits(vec![good.clone()], NOW);
    let mut failed = good;
    failed.windows.clear();
    failed.source_health = SourceHealth::Unavailable;
    app.ui.limits_busy = true;
    app.take_limits(vec![failed], NOW);
    assert_eq!(app.providers.len(), 1);
    assert_eq!(app.providers[0].windows.len(), 1);
    assert_eq!(app.providers[0].source_health, SourceHealth::Stale);
    assert!(!app.ui.limits_busy);
}

#[test]
fn narrow_screens_have_fewer_columns() {
    let first = row("codex");
    let second = row("anthropic");
    let rows = vec![&first, &second];
    let titles = provider_titles(&rows, false);
    let narrow = columns(&rows, &titles, 60, NOW);
    let wide = columns(&rows, &titles, 180, NOW);
    assert!(narrow.account <= wide.account);
    let mut page = Page::new();
    page.blank();
    assert_eq!(indent_lines(page, 2).lines[0].text(), "  ");
}
