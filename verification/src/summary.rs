//! The report on local usage as text.

use vstd::prelude::*;

use crate::ledger::{buckets, client_rows, client_views, compute_temporal_usage, consumption_label};
use crate::ledger::{consumption_rows, query_of, row_name, ClientView, ConsumptionMetric};
use crate::ledger::{ConsumptionRow, LedgerWindow, Scope, TemporalUsageBucket};
use crate::monitor::Context;
use crate::numerals::{cost, cost_text, dollar_text, dollars, format_tokens, priced_share};
use crate::numerals::{priced_share_text, token_count};
use crate::quantity::Quantity;
use crate::report::{ConsumptionReport, ConsumptionSummary};
use crate::screen::{fit, fitted};
use crate::text::{align_left, align_right, decimal, decimal_text, five, four, join, join_texts};
use crate::text::{left_aligned, lemma_precedes_total, precedes, repeat_char, right_aligned, run_of};
use crate::text::{signed_decimal, signed_text, texts, trim_end, trimmed_end, two};
use crate::usage::{ascending, record_views, tokens_of, RecordView, UsageTokens};

verus! {

/// The clients that records name, or the models.
pub open spec fn named(records: Seq<RecordView>, models: bool) -> Set<Seq<char>> {
    records.map_values(
        |record: RecordView|
            if models {
                record.model_id
            } else {
                record.client
            },
    ).to_set()
}

/// A list of names in order, each once, is as long as the set of its names.
proof fn lemma_counted(names: Seq<Seq<char>>, records: Seq<RecordView>, models: bool)
    requires
        ascending(names),
        forall|name: Seq<char>| #[trigger]
            names.contains(name) <==> exists|i: int|
                0 <= i < records.len() && #[trigger] name_in(records[i], models) == name,
    ensures
        names.len() == named(records, models).len(),
{
    assert(names.no_duplicates()) by {
        assert forall|i: int, j: int| 0 <= i < j < names.len() implies names[i] != names[j] by {
            assert(precedes(names[i], names[j]));
            lemma_precedes_total(names[i], names[j]);
        }
    }
    names.unique_seq_to_set();
    let picked = records.map_values(
        |record: RecordView|
            if models {
                record.model_id
            } else {
                record.client
            },
    );
    assert forall|name: Seq<char>| names.to_set().contains(name) == named(records, models).contains(
        name,
    ) by {
        if names.contains(name) {
            let i = choose|i: int|
                0 <= i < records.len() && #[trigger] name_in(records[i], models) == name;
            assert(picked[i] == name);
        }
        if picked.contains(name) {
            let i = choose|i: int| 0 <= i < picked.len() && picked[i] == name;
            assert(name_in(records[i], models) == name);
        }
    }
    assert(names.to_set() =~= named(records, models));
}

spec fn name_in(record: RecordView, models: bool) -> Seq<char> {
    if models {
        record.model_id
    } else {
        record.client
    }
}

/// The counts of a report.
pub open spec fn counts_line(records: nat, clients: nat, models: nat, took_ms: nat) -> Seq<char> {
    decimal(records) + " records · "@ + decimal(clients) + " clients · "@ + (decimal(models)
        + " models · parsed in "@ + decimal(took_ms) + "ms"@)
}

fn counts_text(records: usize, clients: usize, models: usize, took_ms: u32) -> (out: String)
    ensures
        out@ == counts_line(records as nat, clients as nat, models as nat, took_ms as nat),
{
    let end = four(
        decimal_text(models as u64).as_str(),
        " models · parsed in ",
        decimal_text(took_ms as u64).as_str(),
        "ms",
    );
    five(
        decimal_text(records as u64).as_str(),
        " records · ",
        decimal_text(clients as u64).as_str(),
        " clients · ",
        end.as_str(),
    )
}

/// The tokens of a report by kind.
pub open spec fn kinds_line(tokens: UsageTokens) -> Seq<char> {
    "input "@ + signed_decimal(tokens.input as int) + " · cache read "@ + signed_decimal(
        tokens.cache_read as int,
    ) + (" · cache write "@ + signed_decimal(tokens.cache_write as int) + " · output "@
        + signed_decimal(tokens.output as int) + (" · reasoning "@ + signed_decimal(
        tokens.reasoning as int,
    )))
}

fn kinds_text(tokens: &UsageTokens) -> (out: String)
    ensures
        out@ == kinds_line(*tokens),
{
    let end = two(" · reasoning ", signed_text(tokens.reasoning).as_str());
    let rest = five(
        " · cache write ",
        signed_text(tokens.cache_write).as_str(),
        " · output ",
        signed_text(tokens.output).as_str(),
        end.as_str(),
    );
    five(
        "input ",
        signed_text(tokens.input).as_str(),
        " · cache read ",
        signed_text(tokens.cache_read).as_str(),
        rest.as_str(),
    )
}

/// An amount of dollars, or a dash.
pub open spec fn maybe_dollars(value: Option<Quantity>, places: nat) -> Seq<char> {
    match value {
        Some(value) => dollars(value, places),
        None => "—"@,
    }
}

fn maybe_dollar_text(value: Option<Quantity>, places: u32) -> (out: String)
    requires
        places <= 4,
    ensures
        out@ == maybe_dollars(value, places as nat),
{
    match value {
        Some(value) => dollar_text(value, places),
        None => "—".to_owned(),
    }
}

/// What the usage would have cost, by every measure.
pub open spec fn amounts_line(summary: ConsumptionSummary) -> Seq<char> {
    "API-equivalent "@ + maybe_dollars(summary.api_equivalent_usd, 4) + " · monitor-estimate "@
        + maybe_dollars(summary.monitor_estimate_usd, 2) + (" · actual "@ + maybe_dollars(
        summary.actual_usd,
        2,
    ))
}

fn amounts_text(summary: &ConsumptionSummary) -> (out: String)
    ensures
        out@ == amounts_line(*summary),
{
    let end = two(" · actual ", maybe_dollar_text(summary.actual_usd, 2).as_str());
    five(
        "API-equivalent ",
        maybe_dollar_text(summary.api_equivalent_usd, 4).as_str(),
        " · monitor-estimate ",
        maybe_dollar_text(summary.monitor_estimate_usd, 2).as_str(),
        end.as_str(),
    )
}

/// How much of the usage is priced.
pub open spec fn priced_line(summary: ConsumptionSummary) -> Seq<char> {
    "priced "@ + signed_decimal(summary.priced_tokens as int) + " · unpriced "@ + signed_decimal(
        summary.unpriced_tokens as int,
    ) + (" · exact/partial/unknown "@ + decimal(summary.exact_rows as nat) + "/"@ + decimal(
        summary.partial_rows as nat,
    ) + ("/"@ + decimal(summary.unknown_rows as nat)))
}

fn priced_text(summary: &ConsumptionSummary) -> (out: String)
    ensures
        out@ == priced_line(*summary),
{
    let end = two("/", decimal_text(summary.unknown_rows as u64).as_str());
    let rest = five(
        " · exact/partial/unknown ",
        decimal_text(summary.exact_rows as u64).as_str(),
        "/",
        decimal_text(summary.partial_rows as u64).as_str(),
        end.as_str(),
    );
    five(
        "priced ",
        signed_text(summary.priced_tokens).as_str(),
        " · unpriced ",
        signed_text(summary.unpriced_tokens).as_str(),
        rest.as_str(),
    )
}

/// A line of the table of windows.
pub open spec fn window_row(
    label: Seq<char>,
    tokens: Seq<char>,
    input: Seq<char>,
    output: Seq<char>,
    cache: Seq<char>,
    usd: Seq<char>,
    records: Seq<char>,
) -> Seq<char> {
    left_aligned(label, 14) + " "@ + right_aligned(tokens, 14) + " "@ + (right_aligned(input, 12)
        + " "@ + right_aligned(output, 12) + " "@ + (right_aligned(cache, 12) + " "@
        + right_aligned(usd, 12) + " "@ + right_aligned(records, 8)))
}

fn window_text(
    label: &str,
    tokens: &str,
    input: &str,
    output: &str,
    cache: &str,
    usd: &str,
    records: &str,
) -> (out: String)
    ensures
        out@ == window_row(label@, tokens@, input@, output@, cache@, usd@, records@),
{
    let end = five(
        align_right(cache, 12).as_str(),
        " ",
        align_right(usd, 12).as_str(),
        " ",
        align_right(records, 8).as_str(),
    );
    let rest = five(
        align_right(input, 12).as_str(),
        " ",
        align_right(output, 12).as_str(),
        " ",
        end.as_str(),
    );
    five(
        align_left(label, 14).as_str(),
        " ",
        align_right(tokens, 14).as_str(),
        " ",
        rest.as_str(),
    )
}

/// The line of a window.
pub open spec fn bucket_row(bucket: TemporalUsageBucket) -> Seq<char> {
    window_row(
        bucket.window.name(),
        token_count(bucket.tokens),
        token_count(bucket.input),
        token_count(bucket.output),
        token_count(bucket.cache),
        cost(bucket.api_usd),
        decimal(bucket.records as nat),
    )
}

fn bucket_text(bucket: TemporalUsageBucket) -> (out: String)
    ensures
        out@ == bucket_row(bucket),
{
    window_text(
        bucket.window.label(),
        format_tokens(bucket.tokens).as_str(),
        format_tokens(bucket.input).as_str(),
        format_tokens(bucket.output).as_str(),
        format_tokens(bucket.cache).as_str(),
        cost_text(bucket.api_usd).as_str(),
        decimal_text(bucket.records as u64).as_str(),
    )
}

/// A line of the table of clients.
pub open spec fn client_row(
    label: Seq<char>,
    tokens: Seq<char>,
    usd: Seq<char>,
    priced: Seq<char>,
    rows: Seq<char>,
) -> Seq<char> {
    left_aligned(label, 28) + " "@ + right_aligned(tokens, 10) + " "@ + (right_aligned(usd, 12)
        + " "@ + right_aligned(priced, 10) + " "@ + right_aligned(rows, 6))
}

fn client_text(label: &str, tokens: &str, usd: &str, priced: &str, rows: &str) -> (out: String)
    ensures
        out@ == client_row(label@, tokens@, usd@, priced@, rows@),
{
    let rest = five(
        align_right(usd, 12).as_str(),
        " ",
        align_right(priced, 10).as_str(),
        " ",
        align_right(rows, 6).as_str(),
    );
    five(
        align_left(label, 28).as_str(),
        " ",
        align_right(tokens, 10).as_str(),
        " ",
        rest.as_str(),
    )
}

/// The line of a client.
pub open spec fn usage_row(row: ClientView) -> Seq<char> {
    let total = row.tokens.reported();
    client_row(
        trim_end(fitted(row_name(row), 28)),
        token_count(total),
        cost(row.api_value_usd),
        priced_share(row.priced_tokens, total),
        decimal(row.records as nat),
    )
}

fn usage_text(row: &ConsumptionRow) -> (out: String)
    ensures
        out@ == usage_row(row@),
{
    let total: i64 = row.token_total();
    let label = fit(consumption_label(row).as_str(), 28);
    client_text(
        trimmed_end(label.as_str()).as_str(),
        format_tokens(total).as_str(),
        cost_text(row.api_value_usd).as_str(),
        priced_share_text(row.priced_tokens, total).as_str(),
        decimal_text(row.records as u64).as_str(),
    )
}

/// The first lines of the report.
pub open spec fn head(report: ConsumptionReport, clients: nat, models: nat) -> Seq<Seq<char>> {
    seq![
        "TOKEN MONITOR · consumption · native Tokscale core"@,
        counts_line(
            report.snapshot.records@.len(),
            clients,
            models,
            report.snapshot.processing_time_ms as nat,
        ),
        kinds_line(tokens_of(record_views(report.snapshot.records@))),
        amounts_line(report.summary),
        priced_line(report.summary),
        "Tokscale revision "@ + report.snapshot.tokscale_revision@,
    ]
}

fn head_lines(report: &ConsumptionReport, clients: usize, models: usize) -> (out: Vec<String>)
    ensures
        texts(out@) == head(*report, clients as nat, models as nat),
{
    let mut out: Vec<String> = Vec::new();
    out.push("TOKEN MONITOR · consumption · native Tokscale core".to_owned());
    out.push(
        counts_text(
            report.snapshot.records.len(),
            clients,
            models,
            report.snapshot.processing_time_ms,
        ),
    );
    out.push(kinds_text(&report.snapshot.total_tokens()));
    out.push(amounts_text(&report.summary));
    out.push(priced_text(&report.summary));
    out.push(two("Tokscale revision ", report.snapshot.tokscale_revision.as_str()));
    assert(texts(out@) =~= head(*report, clients as nat, models as nat));
    out
}

/// The warnings of the price sheets, where there are any.
pub open spec fn warnings_part(warnings: Seq<Seq<char>>) -> Seq<Seq<char>> {
    if warnings.len() == 0 {
        Seq::empty()
    } else {
        seq!["pricing warnings · "@ + join(warnings, "; "@)]
    }
}

/// The heading of the windows.
pub open spec fn windows_head() -> Seq<Seq<char>> {
    seq![
        ""@,
        "── TOKEN USAGE BY TIME WINDOW (TODAY, 24H, 7D, 30D) ──────────────────────────────"@,
        window_row(
            "WINDOW"@,
            "TOTAL TOKENS"@,
            "INPUT"@,
            "OUTPUT"@,
            "CACHE"@,
            "API-EQ COST"@,
            "RECORDS"@,
        ),
        run_of('-', 88),
    ]
}

fn windows_head_lines() -> (out: Vec<String>)
    ensures
        texts(out@) == windows_head(),
{
    let mut out: Vec<String> = Vec::new();
    out.push("".to_owned());
    out.push(
        "── TOKEN USAGE BY TIME WINDOW (TODAY, 24H, 7D, 30D) ──────────────────────────────".to_owned(),
    );
    out.push(
        window_text(
            "WINDOW",
            "TOTAL TOKENS",
            "INPUT",
            "OUTPUT",
            "CACHE",
            "API-EQ COST",
            "RECORDS",
        ),
    );
    out.push(repeat_char('-', 88));
    assert(texts(out@) =~= windows_head());
    out
}

/// The heading of the clients.
pub open spec fn clients_head() -> Seq<Seq<char>> {
    seq![
        ""@,
        client_row("SUBSCRIPTION / CLIENT"@, "TOKENS"@, "API-EQ"@, "PRICED"@, "ROWS"@),
        run_of('-', 70),
    ]
}

fn clients_head_lines() -> (out: Vec<String>)
    ensures
        texts(out@) == clients_head(),
{
    let mut out: Vec<String> = Vec::new();
    out.push("".to_owned());
    out.push(client_text("SUBSCRIPTION / CLIENT", "TOKENS", "API-EQ", "PRICED", "ROWS"));
    out.push(repeat_char('-', 70));
    assert(texts(out@) =~= clients_head());
    out
}

/// The lines of the windows.
pub open spec fn bucket_rows(buckets: Seq<TemporalUsageBucket>) -> Seq<Seq<char>> {
    buckets.map_values(|bucket: TemporalUsageBucket| bucket_row(bucket))
}

/// The lines of the clients, under their heading where there are any.
pub open spec fn client_part(rows: Seq<ClientView>) -> Seq<Seq<char>> {
    if rows.len() == 0 {
        Seq::empty()
    } else {
        clients_head() + rows.map_values(|row: ClientView| usage_row(row))
    }
}

fn put_all(out: &mut Vec<String>, more: Vec<String>)
    ensures
        texts(final(out)@) == texts(old(out)@) + texts(more@),
{
    let ghost before = texts(out@);
    let mut i: usize = 0;
    assert(texts(more@).take(0) =~= Seq::<Seq<char>>::empty());
    while i < more.len()
        invariant
            i <= more@.len(),
            texts(out@) =~= before + texts(more@).take(i as int),
        decreases more@.len() - i,
    {
        let ghost start = out@;
        out.push(more[i].clone());
        assert(texts(out@) =~= texts(start).push(more@[i as int]@));
        assert(texts(more@).take(i + 1) =~= texts(more@).take(i as int).push(more@[i as int]@));
        i = i + 1;
    }
    assert(texts(more@).take(i as int) =~= texts(more@));
}

fn bucket_lines(buckets: &Vec<TemporalUsageBucket>) -> (out: Vec<String>)
    ensures
        texts(out@) == bucket_rows(buckets@),
{
    let mut out: Vec<String> = Vec::new();
    let mut i: usize = 0;
    while i < buckets.len()
        invariant
            i <= buckets@.len(),
            out@.len() == i,
            forall|k: int| 0 <= k < i ==> (#[trigger] out@[k])@ == bucket_row(buckets@[k]),
        decreases buckets@.len() - i,
    {
        out.push(bucket_text(buckets[i]));
        i = i + 1;
    }
    assert(texts(out@) =~= bucket_rows(buckets@));
    out
}

fn client_lines(rows: &Vec<ConsumptionRow>) -> (out: Vec<String>)
    ensures
        texts(out@) == client_part(client_views(rows@)),
{
    let ghost views = client_views(rows@);
    if rows.len() == 0 {
        let out: Vec<String> = Vec::new();
        assert(texts(out@) =~= Seq::<Seq<char>>::empty());
        return out;
    }
    let mut lines: Vec<String> = Vec::new();
    let mut i: usize = 0;
    while i < rows.len()
        invariant
            i <= rows@.len(),
            lines@.len() == i,
            forall|k: int| 0 <= k < i ==> (#[trigger] lines@[k])@ == usage_row(rows@[k]@),
        decreases rows@.len() - i,
    {
        lines.push(usage_text(&rows[i]));
        i = i + 1;
    }
    assert(texts(lines@) =~= views.map_values(|row: ClientView| usage_row(row)));
    let mut out = clients_head_lines();
    put_all(&mut out, lines);
    out
}

/// Everything but the counts of clients and models, behind the first lines.
pub open spec fn tables(report: ConsumptionReport, context: Context) -> Seq<Seq<char>> {
    warnings_part(texts(report.summary.pricing_warnings@)) + windows_head() + bucket_rows(
        buckets(report, context.pricing, context.clock),
    ) + client_part(
        client_rows(
            report,
            context.pricing,
            ConsumptionMetric::Tokens,
            Scope {
                window: LedgerWindow::AllTime,
                query: query_of(""@),
                clock: context.clock,
            },
        ),
    )
}

fn warning_lines(warnings: &Vec<String>) -> (out: Vec<String>)
    ensures
        texts(out@) == warnings_part(texts(warnings@)),
{
    let mut out: Vec<String> = Vec::new();
    if warnings.len() > 0 {
        out.push(two("pricing warnings · ", join_texts(warnings.as_slice(), "; ").as_str()));
    }
    assert(texts(out@) =~= warnings_part(texts(warnings@)));
    out
}

fn table_lines(report: &ConsumptionReport, context: &Context) -> (out: Vec<String>)
    ensures
        texts(out@) == tables(*report, *context),
{
    let mut out = warning_lines(&report.summary.pricing_warnings);
    put_all(&mut out, windows_head_lines());
    let found = compute_temporal_usage(report, &context.pricing, &context.clock);
    put_all(&mut out, bucket_lines(&found));
    let rows = consumption_rows(
        report,
        &context.pricing,
        ConsumptionMetric::Tokens,
        LedgerWindow::AllTime,
        "",
        &context.clock,
    );
    put_all(&mut out, client_lines(&rows));
    out
}

/// The lines of the report on local usage. The clients and the models are
/// counted by their names.
pub fn usage_lines(report: &ConsumptionReport, context: &Context) -> (out: Vec<String>)
    ensures
        texts(out@) == head(
            *report,
            named(record_views(report.snapshot.records@), false).len(),
            named(record_views(report.snapshot.records@), true).len(),
        ) + tables(*report, *context),
{
    let clients = report.snapshot.clients();
    let models = report.snapshot.models();
    proof {
        let views = record_views(report.snapshot.records@);
        assert forall|name: Seq<char>| #[trigger]
            texts(clients@).contains(name) <==> exists|i: int|
                0 <= i < views.len() && #[trigger] name_in(views[i], false) == name by {
            if texts(clients@).contains(name) {
                let i = choose|i: int|
                    0 <= i < report.snapshot.records@.len() && (
                    #[trigger] report.snapshot.records@[i]).client@ == name;
                assert(name_in(views[i], false) == name);
            }
            if exists|i: int| 0 <= i < views.len() && #[trigger] name_in(views[i], false) == name {
                let i = choose|i: int|
                    0 <= i < views.len() && #[trigger] name_in(views[i], false) == name;
                assert(report.snapshot.records@[i].client@ == name);
            }
        }
        assert forall|name: Seq<char>| #[trigger]
            texts(models@).contains(name) <==> exists|i: int|
                0 <= i < views.len() && #[trigger] name_in(views[i], true) == name by {
            if texts(models@).contains(name) {
                let i = choose|i: int|
                    0 <= i < report.snapshot.records@.len() && (
                    #[trigger] report.snapshot.records@[i]).model_id@ == name;
                assert(name_in(views[i], true) == name);
            }
            if exists|i: int| 0 <= i < views.len() && #[trigger] name_in(views[i], true) == name {
                let i = choose|i: int|
                    0 <= i < views.len() && #[trigger] name_in(views[i], true) == name;
                assert(report.snapshot.records@[i].model_id@ == name);
            }
        }
        lemma_counted(texts(clients@), views, false);
        lemma_counted(texts(models@), views, true);
    }
    let mut out = head_lines(report, clients.len(), models.len());
    put_all(&mut out, table_lines(report, context));
    out
}

} // verus!
