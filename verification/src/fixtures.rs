//! Sample rows and records, for a look at the screen without an account.

use vstd::prelude::*;

use crate::limits::{provider_views, window_views, Availability, LimitWindow, ProviderSnapshot};
use crate::limits::{ProviderView, SourceHealth, WindowKind, WindowMetric, WindowView};
use crate::pricing::PricingEngine;
use crate::quantity::Quantity;
use crate::report::{build_consumption_report, quoted_records, ConsumptionReport};
use crate::text::{maybe_str, texts};
use crate::usage::{record_views, RecordView, UsageRecord, UsageSnapshot, UsageTokens};

verus! {

/// A sample window. Amounts are in dollars; those of credits are estimates.
pub open spec fn sample_window(
    label: Seq<char>,
    kind: WindowKind,
    metric: WindowMetric,
    percent: Option<u64>,
    amount: Option<u64>,
    reset: Option<Seq<char>>,
    reset_ms: Option<i64>,
) -> WindowView {
    WindowView {
        label,
        kind,
        metric,
        remaining_percent: match percent {
            Some(bits) => Some(Quantity { bits }),
            None => None,
        },
        remaining_amount: match amount {
            Some(bits) => Some(Quantity { bits }),
            None => None,
        },
        currency: Some("USD"@),
        resets_at_ms: reset_ms,
        reset_text: reset,
        estimated: metric.credit(),
    }
}

pub fn fixture_window(
    label: &str,
    kind: WindowKind,
    metric: WindowMetric,
    percent: Option<u64>,
    amount: Option<u64>,
    reset: Option<&str>,
    reset_ms: Option<i64>,
) -> (out: LimitWindow)
    ensures
        out@ == sample_window(
            label@,
            kind,
            metric,
            percent,
            amount,
            maybe_str(reset),
            reset_ms,
        ),
{
    LimitWindow {
        label: label.to_owned(),
        kind,
        metric,
        remaining_percent: match percent {
            Some(bits) => Some(Quantity { bits }),
            None => None,
        },
        remaining_amount: match amount {
            Some(bits) => Some(Quantity { bits }),
            None => None,
        },
        currency: Some("USD".to_owned()),
        resets_at_ms: reset_ms,
        reset_text: match reset {
            Some(text) => Some(text.to_owned()),
            None => None,
        },
        estimated: metric.is_credit(),
    }
}

/// A sample row.
pub open spec fn sample_row(
    account: Seq<char>,
    id: Seq<char>,
    plan: Seq<char>,
    availability: Availability,
    windows: Seq<WindowView>,
    hue: u8,
) -> ProviderView {
    ProviderView {
        provider_id: id,
        account_key: account,
        account_label: account,
        plan,
        source: "fixture"@,
        collected_at_ms: 0,
        source_health: SourceHealth::Connected,
        availability,
        windows,
        diagnostics: Seq::empty(),
        hue,
    }
}

fn fixture_row(
    account: &str,
    id: &str,
    plan: &str,
    availability: Availability,
    windows: Vec<LimitWindow>,
    hue: u8,
) -> (out: ProviderSnapshot)
    ensures
        out@ == sample_row(account@, id@, plan@, availability, window_views(windows@), hue),
{
    let out = ProviderSnapshot {
        provider_id: id.to_owned(),
        account_key: account.to_owned(),
        account_label: account.to_owned(),
        plan: plan.to_owned(),
        source: "fixture".to_owned(),
        collected_at_ms: 0,
        source_health: SourceHealth::Connected,
        availability,
        windows,
        diagnostics: Vec::new(),
        hue,
    };
    assert(texts(out.diagnostics@) =~= Seq::<Seq<char>>::empty());
    out
}

fn one(a: LimitWindow) -> (out: Vec<LimitWindow>)
    ensures
        window_views(out@) == seq![a@],
{
    let mut out: Vec<LimitWindow> = Vec::new();
    out.push(a);
    assert(window_views(out@) =~= seq![a@]);
    out
}

fn couple(a: LimitWindow, b: LimitWindow) -> (out: Vec<LimitWindow>)
    ensures
        window_views(out@) == seq![a@, b@],
{
    let mut out: Vec<LimitWindow> = Vec::new();
    out.push(a);
    out.push(b);
    assert(window_views(out@) =~= seq![a@, b@]);
    out
}

fn trio(a: LimitWindow, b: LimitWindow, c: LimitWindow) -> (out: Vec<LimitWindow>)
    ensures
        window_views(out@) == seq![a@, b@, c@],
{
    let mut out: Vec<LimitWindow> = Vec::new();
    out.push(a);
    out.push(b);
    out.push(c);
    assert(window_views(out@) =~= seq![a@, b@, c@]);
    out
}

/// The sample rows.
pub open spec fn sample_rows() -> Seq<ProviderView> {
    seq![
        sample_row(
            "workspace-a"@,
            "modal"@,
            ""@,
            Availability::Available,
            seq![
                sample_window(
                    "credit~"@,
                    WindowKind::Billing,
                    WindowMetric::Credits,
                    Some(0x4021_6666_6666_6666),
                    Some(0x4004_f5c2_8f5c_28f6),
                    Some("4h 3m"@),
                    Some(14_580_000),
                ),
            ],
            214,
        ),
        sample_row(
            "Codex · Plus"@,
            "codex"@,
            ""@,
            Availability::Available,
            seq![
                sample_window(
                    "5h"@,
                    WindowKind::Session,
                    WindowMetric::Quota,
                    Some(0x4056_8000_0000_0000),
                    None,
                    Some("4h 16m"@),
                    Some(15_360_000),
                ),
                sample_window(
                    "7d"@,
                    WindowKind::Weekly,
                    WindowMetric::Quota,
                    Some(0x4053_0000_0000_0000),
                    None,
                    Some("6d 6h"@),
                    Some(540_000_000),
                ),
            ],
            43,
        ),
        sample_row(
            "Antigravity · Pro"@,
            "antigravity"@,
            ""@,
            Availability::Exhausted,
            seq![
                sample_window(
                    "G5h"@,
                    WindowKind::Session,
                    WindowMetric::Quota,
                    Some(0x4059_0000_0000_0000),
                    None,
                    Some("5h 0m"@),
                    Some(18_000_000),
                ),
                sample_window(
                    "G7d"@,
                    WindowKind::Weekly,
                    WindowMetric::Quota,
                    Some(0x3fb9_9999_9999_999a),
                    None,
                    Some("1d 22h"@),
                    Some(158_400_000),
                ),
                sample_window(
                    "C7d"@,
                    WindowKind::Weekly,
                    WindowMetric::Quota,
                    Some(0x0000_0000_0000_0000),
                    None,
                    Some("1d 22h"@),
                    Some(158_400_000),
                ),
            ],
            141,
        ),
        sample_row(
            "Cursor · Free"@,
            "cursor"@,
            ""@,
            Availability::AgentBlocked,
            seq![
                sample_window(
                    "Other"@,
                    WindowKind::Billing,
                    WindowMetric::Quota,
                    Some(0x4058_4000_0000_0000),
                    None,
                    Some("19h 23m"@),
                    Some(69_780_000),
                ),
                sample_window(
                    "Cursor"@,
                    WindowKind::Billing,
                    WindowMetric::Quota,
                    Some(0x4059_0000_0000_0000),
                    None,
                    Some("19h 23m"@),
                    Some(69_780_000),
                ),
            ],
            75,
        ),
        sample_row(
            "Anthropic · Pro"@,
            "anthropic"@,
            ""@,
            Availability::Available,
            seq![
                sample_window(
                    "5h"@,
                    WindowKind::Session,
                    WindowMetric::Quota,
                    Some(0x4059_0000_0000_0000),
                    None,
                    None,
                    None,
                ),
                sample_window(
                    "7d"@,
                    WindowKind::Weekly,
                    WindowMetric::Quota,
                    Some(0x4050_8000_0000_0000),
                    None,
                    Some("2d 9h"@),
                    Some(205_200_000),
                ),
                sample_window(
                    "credit"@,
                    WindowKind::Billing,
                    WindowMetric::Credits,
                    Some(0x4052_1333_3333_3333),
                    Some(0x4052_1147_ae14_7ae1),
                    Some("2d 9h"@),
                    Some(205_200_000),
                ),
            ],
            209,
        ),
        sample_row(
            "Command Code · Go"@,
            "commandcode"@,
            ""@,
            Availability::Available,
            seq![
                sample_window(
                    "5h"@,
                    WindowKind::Session,
                    WindowMetric::Quota,
                    Some(0x4059_0000_0000_0000),
                    None,
                    None,
                    None,
                ),
                sample_window(
                    "7d"@,
                    WindowKind::Weekly,
                    WindowMetric::Quota,
                    Some(0x4056_4000_0000_0000),
                    None,
                    Some("4d 18h"@),
                    Some(403_200_000),
                ),
                sample_window(
                    "credit"@,
                    WindowKind::Billing,
                    WindowMetric::Credits,
                    Some(0x4057_4000_0000_0000),
                    Some(0x4022_a3d7_0a3d_70a4),
                    Some("4d 18h"@),
                    Some(403_200_000),
                ),
            ],
            220,
        ),
        sample_row(
            "workspace-b"@,
            "modal"@,
            ""@,
            Availability::Available,
            seq![
                sample_window(
                    "credit~"@,
                    WindowKind::Billing,
                    WindowMetric::Credits,
                    Some(0x4059_0000_0000_0000),
                    Some(0x403e_0000_0000_0000),
                    Some("29d 22h"@),
                    Some(2_588_400_000),
                ),
            ],
            214,
        ),
        sample_row(
            "Grok · SuperGrok"@,
            "grok"@,
            ""@,
            Availability::Exhausted,
            seq![
                sample_window(
                    "Weekly"@,
                    WindowKind::Weekly,
                    WindowMetric::Quota,
                    Some(0x0000_0000_0000_0000),
                    None,
                    Some("4d 6h"@),
                    Some(360_000_000),
                ),
            ],
            75,
        ),
        sample_row(
            "OpenRouter · PAYG"@,
            "openrouter"@,
            "Pay-as-you-go"@,
            Availability::Available,
            seq![
                sample_window(
                    "credit"@,
                    WindowKind::Billing,
                    WindowMetric::Credits,
                    Some(0x4058_f333_3333_3333),
                    Some(0x4023_f5c2_8f5c_28f6),
                    None,
                    None,
                ),
            ],
            141,
        ),
        sample_row(
            "DeepSeek · PAYG"@,
            "deepseek"@,
            "Pay-as-you-go"@,
            Availability::Available,
            seq![
                sample_window(
                    "balance"@,
                    WindowKind::Billing,
                    WindowMetric::Credits,
                    None,
                    Some(0x4021_6b85_1eb8_51ec),
                    None,
                    None,
                ),
            ],
            75,
        ),
        sample_row(
            "Vast.ai · Cloud GPU"@,
            "vast"@,
            ""@,
            Availability::Available,
            seq![
                sample_window(
                    "credit"@,
                    WindowKind::Billing,
                    WindowMetric::Credits,
                    None,
                    Some(0x4016_b851_eb85_1eb8),
                    None,
                    None,
                ),
            ],
            220,
        ),
    ]
}

fn add_row(rows: &mut Vec<ProviderSnapshot>, row: ProviderSnapshot)
    ensures
        provider_views(final(rows)@) == provider_views(old(rows)@).push(row@),
{
    let ghost before = provider_views(rows@);
    rows.push(row);
    assert(provider_views(rows@) =~= before.push(row@));
}

pub fn fixtures() -> (out: Vec<ProviderSnapshot>)
    ensures
        provider_views(out@) == sample_rows(),
{
    let mut rows: Vec<ProviderSnapshot> = Vec::new();
    assert(provider_views(rows@) =~= Seq::<ProviderView>::empty());
    let windows = one(
        fixture_window(
            "credit~",
            WindowKind::Billing,
            WindowMetric::Credits,
            Some(0x4021_6666_6666_6666),
            Some(0x4004_f5c2_8f5c_28f6),
            Some("4h 3m"),
            Some(14_580_000),
        ),
    );
    add_row(
        &mut rows,
        fixture_row("workspace-a", "modal", "", Availability::Available, windows, 214),
    );
    let windows = couple(
        fixture_window(
            "5h",
            WindowKind::Session,
            WindowMetric::Quota,
            Some(0x4056_8000_0000_0000),
            None,
            Some("4h 16m"),
            Some(15_360_000),
        ),
        fixture_window(
            "7d",
            WindowKind::Weekly,
            WindowMetric::Quota,
            Some(0x4053_0000_0000_0000),
            None,
            Some("6d 6h"),
            Some(540_000_000),
        ),
    );
    add_row(
        &mut rows,
        fixture_row("Codex · Plus", "codex", "", Availability::Available, windows, 43),
    );
    let windows = trio(
        fixture_window(
            "G5h",
            WindowKind::Session,
            WindowMetric::Quota,
            Some(0x4059_0000_0000_0000),
            None,
            Some("5h 0m"),
            Some(18_000_000),
        ),
        fixture_window(
            "G7d",
            WindowKind::Weekly,
            WindowMetric::Quota,
            Some(0x3fb9_9999_9999_999a),
            None,
            Some("1d 22h"),
            Some(158_400_000),
        ),
        fixture_window(
            "C7d",
            WindowKind::Weekly,
            WindowMetric::Quota,
            Some(0x0000_0000_0000_0000),
            None,
            Some("1d 22h"),
            Some(158_400_000),
        ),
    );
    add_row(
        &mut rows,
        fixture_row("Antigravity · Pro", "antigravity", "", Availability::Exhausted, windows, 141),
    );
    let windows = couple(
        fixture_window(
            "Other",
            WindowKind::Billing,
            WindowMetric::Quota,
            Some(0x4058_4000_0000_0000),
            None,
            Some("19h 23m"),
            Some(69_780_000),
        ),
        fixture_window(
            "Cursor",
            WindowKind::Billing,
            WindowMetric::Quota,
            Some(0x4059_0000_0000_0000),
            None,
            Some("19h 23m"),
            Some(69_780_000),
        ),
    );
    add_row(
        &mut rows,
        fixture_row("Cursor · Free", "cursor", "", Availability::AgentBlocked, windows, 75),
    );
    let windows = trio(
        fixture_window(
            "5h",
            WindowKind::Session,
            WindowMetric::Quota,
            Some(0x4059_0000_0000_0000),
            None,
            None,
            None,
        ),
        fixture_window(
            "7d",
            WindowKind::Weekly,
            WindowMetric::Quota,
            Some(0x4050_8000_0000_0000),
            None,
            Some("2d 9h"),
            Some(205_200_000),
        ),
        fixture_window(
            "credit",
            WindowKind::Billing,
            WindowMetric::Credits,
            Some(0x4052_1333_3333_3333),
            Some(0x4052_1147_ae14_7ae1),
            Some("2d 9h"),
            Some(205_200_000),
        ),
    );
    add_row(
        &mut rows,
        fixture_row("Anthropic · Pro", "anthropic", "", Availability::Available, windows, 209),
    );
    let windows = trio(
        fixture_window(
            "5h",
            WindowKind::Session,
            WindowMetric::Quota,
            Some(0x4059_0000_0000_0000),
            None,
            None,
            None,
        ),
        fixture_window(
            "7d",
            WindowKind::Weekly,
            WindowMetric::Quota,
            Some(0x4056_4000_0000_0000),
            None,
            Some("4d 18h"),
            Some(403_200_000),
        ),
        fixture_window(
            "credit",
            WindowKind::Billing,
            WindowMetric::Credits,
            Some(0x4057_4000_0000_0000),
            Some(0x4022_a3d7_0a3d_70a4),
            Some("4d 18h"),
            Some(403_200_000),
        ),
    );
    add_row(
        &mut rows,
        fixture_row("Command Code · Go", "commandcode", "", Availability::Available, windows, 220),
    );
    let windows = one(
        fixture_window(
            "credit~",
            WindowKind::Billing,
            WindowMetric::Credits,
            Some(0x4059_0000_0000_0000),
            Some(0x403e_0000_0000_0000),
            Some("29d 22h"),
            Some(2_588_400_000),
        ),
    );
    add_row(
        &mut rows,
        fixture_row("workspace-b", "modal", "", Availability::Available, windows, 214),
    );
    let windows = one(
        fixture_window(
            "Weekly",
            WindowKind::Weekly,
            WindowMetric::Quota,
            Some(0x0000_0000_0000_0000),
            None,
            Some("4d 6h"),
            Some(360_000_000),
        ),
    );
    add_row(
        &mut rows,
        fixture_row("Grok · SuperGrok", "grok", "", Availability::Exhausted, windows, 75),
    );
    let windows = one(
        fixture_window(
            "credit",
            WindowKind::Billing,
            WindowMetric::Credits,
            Some(0x4058_f333_3333_3333),
            Some(0x4023_f5c2_8f5c_28f6),
            None,
            None,
        ),
    );
    add_row(
        &mut rows,
        fixture_row("OpenRouter · PAYG", "openrouter", "Pay-as-you-go", Availability::Available, windows, 141),
    );
    let windows = one(
        fixture_window(
            "balance",
            WindowKind::Billing,
            WindowMetric::Credits,
            None,
            Some(0x4021_6b85_1eb8_51ec),
            None,
            None,
        ),
    );
    add_row(
        &mut rows,
        fixture_row("DeepSeek · PAYG", "deepseek", "Pay-as-you-go", Availability::Available, windows, 75),
    );
    let windows = one(
        fixture_window(
            "credit",
            WindowKind::Billing,
            WindowMetric::Credits,
            None,
            Some(0x4016_b851_eb85_1eb8),
            None,
            None,
        ),
    );
    add_row(
        &mut rows,
        fixture_row("Vast.ai · Cloud GPU", "vast", "", Availability::Available, windows, 220),
    );
    rows
}

/// The moment of the sample records, and the local dates that they bear.
#[derive(Debug)]
pub struct SampleDates {
    pub now_ms: i64,
    pub today: String,
    pub yesterday: String,
    pub three_days_ago: String,
    pub ten_days_ago: String,
}

/// A sample record, some milliseconds old.
pub open spec fn sample_record(
    client: Seq<char>,
    model: Seq<char>,
    provider: Seq<char>,
    session: Seq<char>,
    date: Seq<char>,
    timestamp: int,
    tokens: UsageTokens,
    messages: i32,
) -> RecordView {
    RecordView {
        client,
        model_id: model,
        provider_id: provider,
        session_id: session,
        date,
        timestamp: timestamp as i64,
        tokens,
        message_count: messages,
    }
}

fn fixture_record(
    client: &str,
    model: &str,
    provider: &str,
    session: &str,
    date: &str,
    timestamp: i64,
    tokens: UsageTokens,
    messages: i32,
) -> (out: UsageRecord)
    ensures
        out@ == sample_record(
            client@,
            model@,
            provider@,
            session@,
            date@,
            timestamp as int,
            tokens,
            messages,
        ),
{
    UsageRecord {
        client: client.to_owned(),
        model_id: model.to_owned(),
        provider_id: provider.to_owned(),
        session_id: session.to_owned(),
        date: date.to_owned(),
        timestamp,
        tokens,
        message_count: messages,
    }
}

/// The sample records.
pub open spec fn sample_records(dates: SampleDates) -> Seq<RecordView> {
    seq![
        sample_record(
            "Codex"@,
            "gpt-4o"@,
            "codex"@,
            "mock-sess-1"@,
            dates.today@,
            dates.now_ms - 3_600_000,
            UsageTokens {
                input: 4_500_000,
                output: 320_000,
                cache_read: 85_000_000,
                cache_write: 500_000,
                reasoning: 0,
            },
            42,
        ),
        sample_record(
            "Anthropic"@,
            "anthropic-3-7-sonnet"@,
            "anthropic"@,
            "mock-sess-2"@,
            dates.today@,
            dates.now_ms - 7_200_000,
            UsageTokens {
                input: 2_100_000,
                output: 280_000,
                cache_read: 48_000_000,
                cache_write: 320_000,
                reasoning: 150_000,
            },
            35,
        ),
        sample_record(
            "Antigravity Cli"@,
            "gemini-2.5-flash"@,
            "antigravity"@,
            "mock-sess-3"@,
            dates.today@,
            dates.now_ms - 1_800_000,
            UsageTokens {
                input: 8_200_000,
                output: 240_000,
                cache_read: 180_000_000,
                cache_write: 1_200_000,
                reasoning: 0,
            },
            58,
        ),
        sample_record(
            "Cursor"@,
            "anthropic-3-5-sonnet"@,
            "cursor"@,
            "mock-sess-4"@,
            dates.yesterday@,
            dates.now_ms - 86_400_000,
            UsageTokens {
                input: 5_800_000,
                output: 650_000,
                cache_read: 250_000_000,
                cache_write: 1_500_000,
                reasoning: 0,
            },
            80,
        ),
        sample_record(
            "Codex"@,
            "o3-mini"@,
            "codex"@,
            "mock-sess-5"@,
            dates.three_days_ago@,
            dates.now_ms - 259_200_000,
            UsageTokens {
                input: 15_000_000,
                output: 1_800_000,
                cache_read: 620_000_000,
                cache_write: 4_000_000,
                reasoning: 1_200_000,
            },
            150,
        ),
        sample_record(
            "Anthropic"@,
            "anthropic-3-5-sonnet"@,
            "anthropic"@,
            "mock-sess-6"@,
            dates.ten_days_ago@,
            dates.now_ms - 864_000_000,
            UsageTokens {
                input: 50_000_000,
                output: 4_500_000,
                cache_read: 1_800_000_000,
                cache_write: 12_000_000,
                reasoning: 0,
            },
            420,
        ),
    ]
}

fn add_record(records: &mut Vec<UsageRecord>, record: UsageRecord)
    ensures
        record_views(final(records)@) == record_views(old(records)@).push(record@),
{
    let ghost before = record_views(records@);
    records.push(record);
    assert(record_views(records@) =~= before.push(record@));
}

/// The report on the sample records, with a quote for each.
pub open spec fn is_sample_report(
    report: ConsumptionReport,
    dates: SampleDates,
    pricing: PricingEngine,
) -> bool {
    let quotes = quoted_records(pricing, sample_records(dates));
    &&& record_views(report.snapshot.records@) == sample_records(dates)
    &&& report.snapshot.processing_time_ms == 12
    &&& report.snapshot.tokscale_revision@ == "fixture"@
    &&& report.summary.sums(quotes, None)
    &&& report.quotes is Some
    &&& crate::pricing::quote_views(report.quotes->0@) == quotes
}

/// The report of the sample records. The moment may not lie at the very start
/// of time, ten days before which there is none.
pub fn mock_consumption_report(dates: &SampleDates, pricing: &PricingEngine) -> (out:
    ConsumptionReport)
    requires
        dates.now_ms >= i64::MIN + 864_000_000,
    ensures
        is_sample_report(out, *dates, *pricing),
{
    let mut records: Vec<UsageRecord> = Vec::new();
    assert(record_views(records@) =~= Seq::<RecordView>::empty());
    add_record(
        &mut records,
        fixture_record(
            "Codex",
            "gpt-4o",
            "codex",
            "mock-sess-1",
            dates.today.as_str(),
            dates.now_ms - 3_600_000,
            UsageTokens {
                input: 4_500_000,
                output: 320_000,
                cache_read: 85_000_000,
                cache_write: 500_000,
                reasoning: 0,
            },
            42,
        ),
    );
    add_record(
        &mut records,
        fixture_record(
            "Anthropic",
            "anthropic-3-7-sonnet",
            "anthropic",
            "mock-sess-2",
            dates.today.as_str(),
            dates.now_ms - 7_200_000,
            UsageTokens {
                input: 2_100_000,
                output: 280_000,
                cache_read: 48_000_000,
                cache_write: 320_000,
                reasoning: 150_000,
            },
            35,
        ),
    );
    add_record(
        &mut records,
        fixture_record(
            "Antigravity Cli",
            "gemini-2.5-flash",
            "antigravity",
            "mock-sess-3",
            dates.today.as_str(),
            dates.now_ms - 1_800_000,
            UsageTokens {
                input: 8_200_000,
                output: 240_000,
                cache_read: 180_000_000,
                cache_write: 1_200_000,
                reasoning: 0,
            },
            58,
        ),
    );
    add_record(
        &mut records,
        fixture_record(
            "Cursor",
            "anthropic-3-5-sonnet",
            "cursor",
            "mock-sess-4",
            dates.yesterday.as_str(),
            dates.now_ms - 86_400_000,
            UsageTokens {
                input: 5_800_000,
                output: 650_000,
                cache_read: 250_000_000,
                cache_write: 1_500_000,
                reasoning: 0,
            },
            80,
        ),
    );
    add_record(
        &mut records,
        fixture_record(
            "Codex",
            "o3-mini",
            "codex",
            "mock-sess-5",
            dates.three_days_ago.as_str(),
            dates.now_ms - 259_200_000,
            UsageTokens {
                input: 15_000_000,
                output: 1_800_000,
                cache_read: 620_000_000,
                cache_write: 4_000_000,
                reasoning: 1_200_000,
            },
            150,
        ),
    );
    add_record(
        &mut records,
        fixture_record(
            "Anthropic",
            "anthropic-3-5-sonnet",
            "anthropic",
            "mock-sess-6",
            dates.ten_days_ago.as_str(),
            dates.now_ms - 864_000_000,
            UsageTokens {
                input: 50_000_000,
                output: 4_500_000,
                cache_read: 1_800_000_000,
                cache_write: 12_000_000,
                reasoning: 0,
            },
            420,
        ),
    );
    assert(record_views(records@) =~= sample_records(*dates));
    let snapshot = UsageSnapshot {
        records,
        processing_time_ms: 12,
        tokscale_revision: "fixture".to_owned(),
    };
    build_consumption_report(snapshot, pricing, true)
}

} // verus!
