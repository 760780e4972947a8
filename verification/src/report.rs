//! The consumption report: what all records come to.

use vstd::prelude::*;

use crate::arithmetic::amount_total;
use crate::counts::{count_total, sat_add, sat_sum};
use crate::legacy::LegacyDailyTotals;
use crate::pricing::{quote_views, PriceQuote, PricingEngine, PricingStatus, QuoteView};
use crate::quantity::{Quantity, ZERO};
use crate::text::{same, texts};
use crate::usage::{record_views, RecordView, UsageSnapshot};

verus! {

/// The totals of a report.
#[derive(Debug)]
pub struct ConsumptionSummary {
    pub total_tokens: i64,
    pub api_equivalent_usd: Option<Quantity>,
    pub priced_tokens: i64,
    pub unpriced_tokens: i64,
    pub exact_rows: usize,
    pub partial_rows: usize,
    pub unknown_rows: usize,
    pub monitor_estimate_usd: Option<Quantity>,
    pub actual_usd: Option<Quantity>,
    pub pricing_warnings: Vec<String>,
}

/// The records, what they come to, and the quotes where they were asked for.
#[derive(Debug)]
pub struct ConsumptionReport {
    pub snapshot: UsageSnapshot,
    pub summary: ConsumptionSummary,
    pub quotes: Option<Vec<PriceQuote>>,
}

/// The counts over a run of quotes.
pub struct TallyView {
    pub priced_tokens: i64,
    pub unpriced_tokens: i64,
    pub exact_rows: nat,
    pub partial_rows: nat,
    pub unknown_rows: nat,
    pub warnings: Seq<Seq<char>>,
}

/// How many different warnings a report lists.
pub const WARNING_LIMIT: usize = 32;

/// The warnings with more of them behind: new ones, up to the limit.
pub open spec fn with_warnings(known: Seq<Seq<char>>, more: Seq<Seq<char>>) -> Seq<Seq<char>>
    decreases more.len(),
{
    if more.len() == 0 {
        known
    } else {
        let before = with_warnings(known, more.drop_last());
        if before.len() < WARNING_LIMIT && !before.contains(more.last()) {
            before.push(more.last())
        } else {
            before
        }
    }
}

pub open spec fn one_if(yes: bool) -> nat {
    if yes {
        1
    } else {
        0
    }
}

pub open spec fn tally(quotes: Seq<QuoteView>) -> TallyView
    decreases quotes.len(),
{
    if quotes.len() == 0 {
        TallyView {
            priced_tokens: 0,
            unpriced_tokens: 0,
            exact_rows: 0,
            partial_rows: 0,
            unknown_rows: 0,
            warnings: Seq::empty(),
        }
    } else {
        let before = tally(quotes.drop_last());
        let quote = quotes.last();
        TallyView {
            priced_tokens: sat_sum(before.priced_tokens, quote.priced_tokens),
            unpriced_tokens: sat_sum(before.unpriced_tokens, quote.unpriced_tokens),
            exact_rows: before.exact_rows + one_if(quote.status is Exact),
            partial_rows: before.partial_rows + one_if(quote.status is Partial),
            unknown_rows: before.unknown_rows + one_if(quote.status is Unknown),
            warnings: with_warnings(before.warnings, quote.warnings),
        }
    }
}

fn has_warning(known: &Vec<String>, warning: &str) -> (yes: bool)
    ensures
        yes == texts(known@).contains(warning@),
{
    let mut i: usize = 0;
    while i < known.len()
        invariant
            i <= known@.len(),
            forall|k: int| 0 <= k < i ==> (#[trigger] known@[k])@ != warning@,
        decreases known@.len() - i,
    {
        if same(known[i].as_str(), warning) {
            assert(texts(known@)[i as int] == warning@);
            return true;
        }
        i = i + 1;
    }
    proof {
        if texts(known@).contains(warning@) {
            let k = choose|k: int| 0 <= k < texts(known@).len() && texts(known@)[k] == warning@;
            assert(known@[k]@ == warning@);
        }
    }
    false
}

fn add_warnings(known: &mut Vec<String>, more: &Vec<String>)
    ensures
        texts(final(known)@) == with_warnings(texts(old(known)@), texts(more@)),
{
    let ghost start = texts(known@);
    let ghost views = texts(more@);
    let mut i: usize = 0;
    assert(views.take(0) =~= Seq::<Seq<char>>::empty());
    while i < more.len()
        invariant
            i <= more@.len(),
            views == texts(more@),
            texts(known@) == with_warnings(start, views.take(i as int)),
        decreases more@.len() - i,
    {
        proof {
            assert(views.take(i + 1).drop_last() =~= views.take(i as int));
            assert(views.take(i + 1).last() == more@[i as int]@);
            assert(texts(known@).len() == known@.len());
        }
        if known.len() < WARNING_LIMIT && !has_warning(known, more[i].as_str()) {
            let ghost before = texts(known@);
            let warning = more[i].clone();
            known.push(warning);
            assert(texts(known@) =~= before.push(warning@));
        }
        i = i + 1;
    }
    assert(views.take(i as int) =~= views);
}

/// The quotes of all records.
fn quote_records(snapshot: &UsageSnapshot, pricing: &PricingEngine) -> (out: Vec<PriceQuote>)
    ensures
        quote_views(out@) == quoted_records(*pricing, record_views(snapshot.records@)),
{
    let mut out: Vec<PriceQuote> = Vec::new();
    let mut i: usize = 0;
    while i < snapshot.records.len()
        invariant
            i <= snapshot.records@.len(),
            out@.len() == i,
            forall|k: int|
                0 <= k < i ==> (#[trigger] out@[k])@ == pricing.quoted(snapshot.records@[k]@),
        decreases snapshot.records@.len() - i,
    {
        out.push(pricing.quote(&snapshot.records[i]));
        i = i + 1;
    }
    assert(quote_views(out@) =~= quoted_records(*pricing, record_views(snapshot.records@)));
    out
}

/// The sum, in order, of the amounts that quotes state.
pub open spec fn worth(quotes: Seq<QuoteView>) -> Quantity
    decreases quotes.len(),
{
    if quotes.len() == 0 {
        Quantity { bits: ZERO }
    } else {
        let before = worth(quotes.drop_last());
        match quotes.last().value_usd {
            Some(value) => before.sum(value),
            None => before,
        }
    }
}

impl ConsumptionSummary {
    /// The summary of quotes. An amount is stated where it is positive.
    pub open spec fn sums(self, quotes: Seq<QuoteView>, estimate: Option<Quantity>) -> bool {
        let counts = tally(quotes);
        let total = worth(quotes);
        &&& self.priced_tokens == counts.priced_tokens
        &&& self.unpriced_tokens == counts.unpriced_tokens
        &&& self.total_tokens == sat_sum(counts.priced_tokens, counts.unpriced_tokens)
        &&& self.api_equivalent_usd == if (Quantity { bits: ZERO }).below(total) {
            Some(total)
        } else {
            None
        }
        &&& self.exact_rows == counts.exact_rows
        &&& self.partial_rows == counts.partial_rows
        &&& self.unknown_rows == counts.unknown_rows
        &&& self.monitor_estimate_usd == estimate
        &&& self.actual_usd is None
        &&& texts(self.pricing_warnings@) == counts.warnings
    }
}

/// What the quotes of a run of records are.
pub open spec fn quoted_records(pricing: PricingEngine, records: Seq<RecordView>) -> Seq<QuoteView> {
    records.map_values(|record: RecordView| pricing.quoted(record))
}

/// Sums up the quotes of a snapshot's records, beside the estimate of the
/// former app's archive.
pub fn build_consumption_report_with_legacy(
    snapshot: UsageSnapshot,
    pricing: &PricingEngine,
    include_quotes: bool,
    legacy: Option<&LegacyDailyTotals>,
) -> (out: ConsumptionReport)
    ensures
        out.snapshot == snapshot,
        out.summary.sums(
            quoted_records(*pricing, record_views(snapshot.records@)),
            match legacy {
                Some(totals) => Some(totals.monitor_estimate_usd),
                None => None,
            },
        ),
        match out.quotes {
            Some(quotes) => include_quotes && quote_views(quotes@) == quoted_records(
                *pricing,
                record_views(snapshot.records@),
            ),
            None => !include_quotes,
        },
{
    let quotes = quote_records(&snapshot, pricing);
    let ghost views = quote_views(quotes@);
    let mut total = Quantity { bits: ZERO };
    let mut priced_tokens: i64 = 0;
    let mut unpriced_tokens: i64 = 0;
    let mut exact_rows: usize = 0;
    let mut partial_rows: usize = 0;
    let mut unknown_rows: usize = 0;
    let mut warnings: Vec<String> = Vec::new();
    let mut i: usize = 0;
    assert(texts(warnings@) =~= Seq::<Seq<char>>::empty());
    while i < quotes.len()
        invariant
            i <= quotes@.len(),
            views == quote_views(quotes@),
            total == worth(views.take(i as int)),
            priced_tokens == tally(views.take(i as int)).priced_tokens,
            unpriced_tokens == tally(views.take(i as int)).unpriced_tokens,
            exact_rows == tally(views.take(i as int)).exact_rows,
            partial_rows == tally(views.take(i as int)).partial_rows,
            unknown_rows == tally(views.take(i as int)).unknown_rows,
            texts(warnings@) == tally(views.take(i as int)).warnings,
            exact_rows + partial_rows + unknown_rows == i,
        decreases quotes@.len() - i,
    {
        proof {
            assert(views.take(i + 1).drop_last() =~= views.take(i as int));
            assert(views.take(i + 1).last() == quotes@[i as int]@);
        }
        let quote = &quotes[i];
        match quote.value_usd {
            Some(value) => {
                total = total.plus(value);
            },
            None => {},
        }
        priced_tokens = sat_add(priced_tokens, quote.priced_tokens);
        unpriced_tokens = sat_add(unpriced_tokens, quote.unpriced_tokens);
        match quote.status {
            PricingStatus::Exact => {
                exact_rows = exact_rows + 1;
            },
            PricingStatus::Partial => {
                partial_rows = partial_rows + 1;
            },
            PricingStatus::Unknown => {
                unknown_rows = unknown_rows + 1;
            },
        }
        add_warnings(&mut warnings, &quote.warnings);
        i = i + 1;
    }
    assert(views.take(i as int) =~= views);
    let api_equivalent_usd = if (Quantity { bits: ZERO }).is_below(total) {
        Some(total)
    } else {
        None
    };
    let monitor_estimate_usd = match legacy {
        Some(totals) => Some(totals.monitor_estimate_usd),
        None => None,
    };
    let summary = ConsumptionSummary {
        total_tokens: sat_add(priced_tokens, unpriced_tokens),
        api_equivalent_usd,
        priced_tokens,
        unpriced_tokens,
        exact_rows,
        partial_rows,
        unknown_rows,
        monitor_estimate_usd,
        actual_usd: None,
        pricing_warnings: warnings,
    };
    let quotes = if include_quotes {
        Some(quotes)
    } else {
        None
    };
    ConsumptionReport { snapshot, summary, quotes }
}

/// The report without an estimate of the former app.
pub fn build_consumption_report(
    snapshot: UsageSnapshot,
    pricing: &PricingEngine,
    include_quotes: bool,
) -> (out: ConsumptionReport)
    ensures
        out.snapshot == snapshot,
        out.summary.sums(quoted_records(*pricing, record_views(snapshot.records@)), None),
        match out.quotes {
            Some(quotes) => include_quotes && quote_views(quotes@) == quoted_records(
                *pricing,
                record_views(snapshot.records@),
            ),
            None => !include_quotes,
        },
{
    build_consumption_report_with_legacy(snapshot, pricing, include_quotes, None)
}

/// Every quote is counted in exactly one of the three states.
pub proof fn law_every_quote_is_counted(quotes: Seq<QuoteView>)
    ensures
        tally(quotes).exact_rows + tally(quotes).partial_rows + tally(quotes).unknown_rows
            == quotes.len(),
    decreases quotes.len(),
{
    if quotes.len() > 0 {
        law_every_quote_is_counted(quotes.drop_last());
    }
}

proof fn lemma_with_warnings(known: Seq<Seq<char>>, more: Seq<Seq<char>>)
    requires
        known.len() <= WARNING_LIMIT,
        known.no_duplicates(),
    ensures
        with_warnings(known, more).len() <= WARNING_LIMIT,
        with_warnings(known, more).no_duplicates(),
    decreases more.len(),
{
    if more.len() > 0 {
        lemma_with_warnings(known, more.drop_last());
    }
}

/// A report lists no warning twice, and no more of them than the limit.
pub proof fn law_warnings_are_few_and_distinct(quotes: Seq<QuoteView>)
    ensures
        tally(quotes).warnings.len() <= WARNING_LIMIT,
        tally(quotes).warnings.no_duplicates(),
    decreases quotes.len(),
{
    if quotes.len() > 0 {
        law_warnings_are_few_and_distinct(quotes.drop_last());
        lemma_with_warnings(tally(quotes.drop_last()).warnings, quotes.last().warnings);
    }
}

/// A report counts the tokens, the rows and the amounts of all its quotes: each
/// total is the sum over the quotes from zero, and the rows of a status are as
/// many as the quotes with it.
pub proof fn law_totals_are_sums_over_the_quotes(quotes: Seq<QuoteView>)
    ensures
        tally(quotes).priced_tokens == count_total(
            quotes.map_values(|quote: QuoteView| quote.priced_tokens),
        ),
        tally(quotes).unpriced_tokens == count_total(
            quotes.map_values(|quote: QuoteView| quote.unpriced_tokens),
        ),
        tally(quotes).exact_rows == quotes.filter(
            |quote: QuoteView| quote.status is Exact,
        ).len(),
        tally(quotes).partial_rows == quotes.filter(
            |quote: QuoteView| quote.status is Partial,
        ).len(),
        tally(quotes).unknown_rows == quotes.filter(
            |quote: QuoteView| quote.status is Unknown,
        ).len(),
        worth(quotes) == amount_total(
            quotes.filter(|quote: QuoteView| quote.value_usd is Some).map_values(
                |quote: QuoteView| quote.value_usd->0,
            ),
        ),
    decreases quotes.len(),
{
    let priced = |quote: QuoteView| quote.priced_tokens;
    let unpriced = |quote: QuoteView| quote.unpriced_tokens;
    let exact = |quote: QuoteView| quote.status is Exact;
    let partial = |quote: QuoteView| quote.status is Partial;
    let unknown = |quote: QuoteView| quote.status is Unknown;
    let valued = |quote: QuoteView| quote.value_usd is Some;
    let amount = |quote: QuoteView| quote.value_usd->0;
    if quotes.len() == 0 {
        reveal(Seq::filter);
        assert(quotes.filter(valued).map_values(amount) =~= Seq::empty());
    } else {
        let before = quotes.drop_last();
        law_totals_are_sums_over_the_quotes(before);
        assert(quotes =~= before.push(quotes.last()));
        assert(quotes.map_values(priced).drop_last() =~= before.map_values(priced));
        assert(quotes.map_values(unpriced).drop_last() =~= before.map_values(unpriced));
        before.lemma_filter_push(quotes.last(), exact);
        before.lemma_filter_push(quotes.last(), partial);
        before.lemma_filter_push(quotes.last(), unknown);
        before.lemma_filter_push(quotes.last(), valued);
        if valued(quotes.last()) {
            assert(quotes.filter(valued).map_values(amount).drop_last() =~= before.filter(
                valued,
            ).map_values(amount));
        }
    }
}

/// The summary of a report states those totals: all its tokens are the priced
/// and the unpriced ones, and an amount is stated only above zero.
pub proof fn law_summary_states_the_totals(
    summary: ConsumptionSummary,
    quotes: Seq<QuoteView>,
    estimate: Option<Quantity>,
)
    requires
        summary.sums(quotes, estimate),
    ensures
        summary.priced_tokens == count_total(
            quotes.map_values(|quote: QuoteView| quote.priced_tokens),
        ),
        summary.unpriced_tokens == count_total(
            quotes.map_values(|quote: QuoteView| quote.unpriced_tokens),
        ),
        i64::MIN <= summary.priced_tokens + summary.unpriced_tokens <= i64::MAX
            ==> summary.total_tokens == summary.priced_tokens + summary.unpriced_tokens,
        summary.exact_rows + summary.partial_rows + summary.unknown_rows == quotes.len(),
        ({
            let total = amount_total(
                quotes.filter(|quote: QuoteView| quote.value_usd is Some).map_values(
                    |quote: QuoteView| quote.value_usd->0,
                ),
            );
            &&& !total.nan() && total.rank() > 0 ==> summary.api_equivalent_usd == Some(total)
            &&& total.rank() <= 0 ==> summary.api_equivalent_usd is None
        }),
        summary.monitor_estimate_usd == estimate,
{
    law_totals_are_sums_over_the_quotes(quotes);
    law_every_quote_is_counted(quotes);
}

/// Every warning of a quote is among the report's, unless those are thirty-two
/// already; and each of the report's is a warning of some quote.
pub proof fn law_warnings_are_those_of_the_quotes(quotes: Seq<QuoteView>)
    ensures
        forall|i: int, k: int|
            0 <= i < quotes.len() && 0 <= k < quotes[i].warnings.len() ==> tally(
                quotes,
            ).warnings.contains(#[trigger] quotes[i].warnings[k]) || tally(quotes).warnings.len()
                == 32,
        forall|warning: Seq<char>| #[trigger]
            tally(quotes).warnings.contains(warning) ==> exists|i: int|
                0 <= i < quotes.len() && (#[trigger] quotes[i]).warnings.contains(warning),
    decreases quotes.len(),
{
    if quotes.len() > 0 {
        let before = quotes.drop_last();
        law_warnings_are_those_of_the_quotes(before);
        law_warnings_are_few_and_distinct(before);
        let known = tally(before).warnings;
        let more = quotes.last().warnings;
        lemma_warnings_kept(known, more);
        assert forall|i: int, k: int|
            0 <= i < quotes.len() && 0 <= k < quotes[i].warnings.len() implies tally(
            quotes,
        ).warnings.contains(#[trigger] quotes[i].warnings[k]) || tally(quotes).warnings.len()
            == 32 by {
            if i < before.len() {
                assert(before[i] == quotes[i]);
                assert(known.contains(before[i].warnings[k]) || known.len() == 32);
            } else {
                assert(more[k] == quotes[i].warnings[k]);
            }
        }
        assert forall|warning: Seq<char>| #[trigger]
            tally(quotes).warnings.contains(warning) implies exists|i: int|
            0 <= i < quotes.len() && (#[trigger] quotes[i]).warnings.contains(warning) by {
            if known.contains(warning) {
                let i = choose|i: int|
                    0 <= i < before.len() && (#[trigger] before[i]).warnings.contains(warning);
                assert(quotes[i].warnings.contains(warning));
            } else {
                assert(quotes[quotes.len() - 1].warnings.contains(warning));
            }
        }
    }
}

proof fn lemma_warnings_kept(known: Seq<Seq<char>>, more: Seq<Seq<char>>)
    requires
        known.len() <= 32,
    ensures
        forall|warning: Seq<char>| #[trigger]
            known.contains(warning) ==> with_warnings(known, more).contains(warning),
        forall|k: int|
            0 <= k < more.len() ==> with_warnings(known, more).contains(#[trigger] more[k])
                || with_warnings(known, more).len() == 32,
        forall|warning: Seq<char>| #[trigger]
            with_warnings(known, more).contains(warning) ==> known.contains(warning)
                || more.contains(warning),
        known.len() <= with_warnings(known, more).len() <= 32,
    decreases more.len(),
{
    if more.len() > 0 {
        let rest = more.drop_last();
        lemma_warnings_kept(known, rest);
        let before = with_warnings(known, rest);
        let out = with_warnings(known, more);
        assert forall|warning: Seq<char>| #[trigger] before.contains(warning) implies out.contains(
            warning,
        ) by {
            let i = choose|i: int| 0 <= i < before.len() && before[i] == warning;
            assert(out[i] == warning);
        }
        assert forall|k: int| 0 <= k < more.len() implies out.contains(#[trigger] more[k])
            || out.len() == 32 by {
            if k < rest.len() {
                assert(rest[k] == more[k]);
            } else if before.len() < 32 && !before.contains(more.last()) {
                assert(out[out.len() - 1] == more[k]);
            }
        }
        assert forall|warning: Seq<char>| #[trigger] out.contains(warning) implies known.contains(
            warning,
        ) || more.contains(warning) by {
            let i = choose|i: int| 0 <= i < out.len() && out[i] == warning;
            if i < before.len() {
                assert(before.contains(warning));
                if rest.contains(warning) {
                    let k = choose|k: int| 0 <= k < rest.len() && rest[k] == warning;
                    assert(more[k] == warning);
                }
            } else {
                assert(more[more.len() - 1] == warning);
            }
        }
    }
}

} // verus!
