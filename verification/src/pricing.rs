//! What usage would have cost at list prices.

use vstd::prelude::*;

use crate::counts::{clamped, sat_add, sat_sub, sat_sum};
use crate::quantity::{Quantity, ZERO};
use crate::sort::{first_where, lemma_is_first_where};
use crate::text::{lower, maybe_text, same, texts, to_lower};
use crate::usage::{RecordView, UsageRecord, UsageTokens};

verus! {

/// How much of a record could be priced.
#[derive(Clone, Copy, Debug, PartialEq, Eq, Structural)]
pub enum PricingStatus {
    Exact,
    Partial,
    Unknown,
}

/// The price sheet of a model, in dollars per token.
#[derive(Clone, Copy, Debug, PartialEq, Eq, Structural)]
pub struct ModelPricing {
    pub input_cost_per_token: Option<Quantity>,
    pub output_cost_per_token: Option<Quantity>,
    pub cache_read_input_token_cost: Option<Quantity>,
    pub cache_creation_input_token_cost: Option<Quantity>,
    pub input_cost_per_token_above_128k_tokens: Option<Quantity>,
    pub input_cost_per_token_above_200k_tokens: Option<Quantity>,
    pub input_cost_per_token_above_256k_tokens: Option<Quantity>,
    pub input_cost_per_token_above_272k_tokens: Option<Quantity>,
    pub output_cost_per_token_above_128k_tokens: Option<Quantity>,
    pub output_cost_per_token_above_200k_tokens: Option<Quantity>,
    pub output_cost_per_token_above_256k_tokens: Option<Quantity>,
    pub output_cost_per_token_above_272k_tokens: Option<Quantity>,
}

impl ModelPricing {
    /// Long requests are priced differently.
    pub open spec fn tiered(self) -> bool {
        ||| self.input_cost_per_token_above_128k_tokens is Some
        ||| self.input_cost_per_token_above_200k_tokens is Some
        ||| self.input_cost_per_token_above_256k_tokens is Some
        ||| self.input_cost_per_token_above_272k_tokens is Some
        ||| self.output_cost_per_token_above_128k_tokens is Some
        ||| self.output_cost_per_token_above_200k_tokens is Some
        ||| self.output_cost_per_token_above_256k_tokens is Some
        ||| self.output_cost_per_token_above_272k_tokens is Some
    }

    fn has_tiers(&self) -> (yes: bool)
        ensures
            yes == self.tiered(),
    {
        self.input_cost_per_token_above_128k_tokens.is_some()
            || self.input_cost_per_token_above_200k_tokens.is_some()
            || self.input_cost_per_token_above_256k_tokens.is_some()
            || self.input_cost_per_token_above_272k_tokens.is_some()
            || self.output_cost_per_token_above_128k_tokens.is_some()
            || self.output_cost_per_token_above_200k_tokens.is_some()
            || self.output_cost_per_token_above_256k_tokens.is_some()
            || self.output_cost_per_token_above_272k_tokens.is_some()
    }
}

/// How a price sheet was found.
#[derive(Clone, Copy, Debug, PartialEq, Eq, Structural)]
pub enum ResolutionKind {
    Fuzzy,
    ModelPart,
    Strict,
}

/// A price sheet and how well it fits.
#[derive(Debug)]
pub struct LookupResult {
    pub pricing: ModelPricing,
    pub source: String,
    pub matched_key: String,
    pub kind: ResolutionKind,
    pub kind_name: String,
    pub exact_model_identity: bool,
    pub price_consensus: bool,
    pub submission_safe: bool,
}

impl LookupResult {
    /// Only such a fit gives a dollar amount.
    pub open spec fn strict(self) -> bool {
        self.exact_model_identity && self.price_consensus && self.submission_safe
            && self.kind is Strict
    }
}

/// What the lookup of a model under a provider gave.
#[derive(Debug)]
pub struct Resolution {
    pub provider_id: String,
    pub model_id: String,
    pub found: Option<LookupResult>,
}

/// What a record would have cost, and how that is known.
#[derive(Debug)]
pub struct PriceQuote {
    pub model_id: String,
    pub provider_id: String,
    pub value_usd: Option<Quantity>,
    pub status: PricingStatus,
    pub source: Option<String>,
    pub matched_key: Option<String>,
    pub resolution: Option<String>,
    pub input_tokens: i64,
    pub cache_read_tokens: i64,
    pub cache_write_tokens: i64,
    pub output_tokens: i64,
    pub reasoning_tokens: i64,
    pub priced_tokens: i64,
    pub unpriced_tokens: i64,
    pub warnings: Vec<String>,
}

/// What a `PriceQuote` says.
pub struct QuoteView {
    pub model_id: Seq<char>,
    pub provider_id: Seq<char>,
    pub value_usd: Option<Quantity>,
    pub status: PricingStatus,
    pub source: Option<Seq<char>>,
    pub matched_key: Option<Seq<char>>,
    pub resolution: Option<Seq<char>>,
    pub input_tokens: i64,
    pub cache_read_tokens: i64,
    pub cache_write_tokens: i64,
    pub output_tokens: i64,
    pub reasoning_tokens: i64,
    pub priced_tokens: i64,
    pub unpriced_tokens: i64,
    pub warnings: Seq<Seq<char>>,
}

impl View for PriceQuote {
    type V = QuoteView;

    open spec fn view(&self) -> QuoteView {
        QuoteView {
            model_id: self.model_id@,
            provider_id: self.provider_id@,
            value_usd: self.value_usd,
            status: self.status,
            source: maybe_text(self.source),
            matched_key: maybe_text(self.matched_key),
            resolution: maybe_text(self.resolution),
            input_tokens: self.input_tokens,
            cache_read_tokens: self.cache_read_tokens,
            cache_write_tokens: self.cache_write_tokens,
            output_tokens: self.output_tokens,
            reasoning_tokens: self.reasoning_tokens,
            priced_tokens: self.priced_tokens,
            unpriced_tokens: self.unpriced_tokens,
            warnings: texts(self.warnings@),
        }
    }
}

pub open spec fn quote_views(quotes: Seq<PriceQuote>) -> Seq<QuoteView> {
    quotes.map_values(|quote: PriceQuote| quote@)
}

/// The tokens that are priced. Codex reports reasoning as part of the output,
/// where it is charged already.
pub open spec fn chargeable(record: RecordView) -> UsageTokens {
    if lower(record.client) == "codex"@ {
        UsageTokens { reasoning: 0, ..record.tokens }
    } else {
        record.tokens
    }
}

pub fn safe_tokens(record: &UsageRecord) -> (out: UsageTokens)
    ensures
        out == chargeable(record@),
{
    let mut tokens = record.tokens;
    let client = to_lower(record.client.as_str());
    if same(client.as_str(), "codex") {
        tokens.reasoning = 0;
    }
    tokens
}

/// The tokens of a record that a price sheet covers.
pub open spec fn billable(tokens: UsageTokens) -> i64 {
    sat_sum(sat_sum(sat_sum(tokens.input, tokens.cache_read), tokens.cache_write), tokens.output)
}

fn billable_total(tokens: &UsageTokens) -> (out: i64)
    ensures
        out == billable(*tokens),
{
    sat_add(sat_add(sat_add(tokens.input, tokens.cache_read), tokens.cache_write), tokens.output)
}

/// What a price sheet makes of a record.
pub struct Components {
    pub value: Quantity,
    pub priced: i64,
    pub warnings: Seq<Seq<char>>,
}

/// A rate that can be charged.
pub open spec fn usable(rate: Option<Quantity>) -> bool {
    rate is Some && rate->0.finite() && (Quantity { bits: ZERO }).at_most(rate->0)
}

/// One kind of tokens more.
pub open spec fn with_component(
    before: Components,
    tokens: i64,
    rate: Option<Quantity>,
    label: Seq<char>,
) -> Components {
    if tokens <= 0 {
        before
    } else if usable(rate) {
        Components {
            value: before.value.sum(Quantity::of_count(tokens as int).product(rate->0)),
            priced: sat_sum(before.priced, tokens),
            ..before
        }
    } else {
        Components { warnings: before.warnings.push(label + " rate unavailable"@), ..before }
    }
}

/// What a record comes to: input, cache reads, cache writes and output, each
/// kind of tokens times its rate, summed in this order.
pub open spec fn components(pricing: ModelPricing, tokens: UsageTokens) -> Components {
    let none = Components {
        value: Quantity { bits: ZERO },
        priced: 0,
        warnings: Seq::empty(),
    };
    let input = with_component(none, tokens.input, pricing.input_cost_per_token, "input"@);
    let read = with_component(
        input,
        tokens.cache_read,
        pricing.cache_read_input_token_cost,
        "cache read"@,
    );
    let write = with_component(
        read,
        tokens.cache_write,
        pricing.cache_creation_input_token_cost,
        "cache write"@,
    );
    let output = with_component(write, tokens.output, pricing.output_cost_per_token, "output"@);
    if pricing.tiered() {
        Components { warnings: output.warnings.push("long-context tier unavailable"@), ..output }
    } else {
        output
    }
}

/// A `Components` under construction.
struct Tally {
    value: Quantity,
    priced: i64,
    warnings: Vec<String>,
}

impl Tally {
    spec fn components(self) -> Components {
        Components {
            value: self.value,
            priced: self.priced,
            warnings: texts(self.warnings@),
        }
    }

    fn charge(&mut self, tokens: i64, rate: Option<Quantity>, label: &str)
        ensures
            final(self).components() == with_component(
                old(self).components(),
                tokens,
                rate,
                label@,
            ),
    {
        if tokens <= 0 {
            return ;
        }
        match rate {
            Some(rate) => {
                if rate.is_finite() && (Quantity { bits: ZERO }).is_at_most(rate) {
                    self.value = self.value.plus(Quantity::from_count(tokens).times(rate));
                    self.priced = sat_add(self.priced, tokens);
                    return ;
                }
            },
            None => {},
        }
        let ghost before = self.warnings@;
        let mut warning = label.to_owned();
        warning.append(" rate unavailable");
        self.warnings.push(warning);
        assert(texts(self.warnings@) =~= texts(before).push(warning@));
    }
}

fn calculate_components(pricing: &ModelPricing, tokens: &UsageTokens) -> (out: Tally)
    ensures
        out.components() == components(*pricing, *tokens),
{
    let mut tally = Tally { value: Quantity { bits: ZERO }, priced: 0, warnings: Vec::new() };
    assert(texts(tally.warnings@) =~= Seq::<Seq<char>>::empty());
    tally.charge(tokens.input, pricing.input_cost_per_token, "input");
    tally.charge(tokens.cache_read, pricing.cache_read_input_token_cost, "cache read");
    tally.charge(tokens.cache_write, pricing.cache_creation_input_token_cost, "cache write");
    tally.charge(tokens.output, pricing.output_cost_per_token, "output");
    if pricing.has_tiers() {
        let ghost before = tally.warnings@;
        let warning = "long-context tier unavailable".to_owned();
        tally.warnings.push(warning);
        assert(texts(tally.warnings@) =~= texts(before).push(warning@));
    }
    tally
}

/// A quote for a record of which nothing could be priced.
pub open spec fn unpriced(
    record: RecordView,
    source: Option<Seq<char>>,
    matched_key: Option<Seq<char>>,
    resolution: Option<Seq<char>>,
    warning: Seq<char>,
) -> QuoteView {
    let tokens = chargeable(record);
    QuoteView {
        model_id: record.model_id,
        provider_id: record.provider_id,
        value_usd: None,
        status: PricingStatus::Unknown,
        source,
        matched_key,
        resolution,
        input_tokens: tokens.input,
        cache_read_tokens: tokens.cache_read,
        cache_write_tokens: tokens.cache_write,
        output_tokens: tokens.output,
        reasoning_tokens: tokens.reasoning,
        priced_tokens: 0,
        unpriced_tokens: billable(tokens),
        warnings: seq![warning],
    }
}

fn unknown_quote(
    record: &UsageRecord,
    source: Option<String>,
    matched_key: Option<String>,
    resolution: Option<String>,
    warning: &str,
) -> (out: PriceQuote)
    ensures
        out@ == unpriced(
            record@,
            maybe_text(source),
            maybe_text(matched_key),
            maybe_text(resolution),
            warning@,
        ),
{
    let tokens = safe_tokens(record);
    let mut warnings: Vec<String> = Vec::new();
    warnings.push(warning.to_owned());
    assert(texts(warnings@) =~= seq![warning@]);
    PriceQuote {
        model_id: record.model_id.clone(),
        provider_id: record.provider_id.clone(),
        value_usd: None,
        status: PricingStatus::Unknown,
        source,
        matched_key,
        resolution,
        input_tokens: tokens.input,
        cache_read_tokens: tokens.cache_read,
        cache_write_tokens: tokens.cache_write,
        output_tokens: tokens.output,
        reasoning_tokens: tokens.reasoning,
        priced_tokens: 0,
        unpriced_tokens: billable_total(&tokens),
        warnings,
    }
}

/// The quote that a price sheet gives. An amount counts where any token is
/// priced.
pub open spec fn outlined(record: RecordView, found: LookupResult) -> QuoteView {
    let tokens = chargeable(record);
    let total = billable(tokens);
    let parts = components(found.pricing, tokens);
    let complete = parts.priced == total && parts.warnings.len() == 0;
    QuoteView {
        model_id: record.model_id,
        provider_id: record.provider_id,
        value_usd: if parts.priced > 0 {
            Some(parts.value)
        } else {
            None
        },
        status: if complete {
            PricingStatus::Exact
        } else {
            PricingStatus::Partial
        },
        source: Some(found.source@),
        matched_key: Some(found.matched_key@),
        resolution: Some(found.kind_name@),
        input_tokens: tokens.input,
        cache_read_tokens: tokens.cache_read,
        cache_write_tokens: tokens.cache_write,
        output_tokens: tokens.output,
        reasoning_tokens: tokens.reasoning,
        priced_tokens: parts.priced,
        unpriced_tokens: clamped(total - parts.priced) as i64,
        warnings: if !complete && parts.warnings.len() == 0 {
            seq!["one or more token component rates unavailable"@]
        } else {
            parts.warnings
        },
    }
}

fn outline(record: &UsageRecord, found: &LookupResult) -> (out: PriceQuote)
    ensures
        out@ == outlined(record@, *found),
{
    let tokens = safe_tokens(record);
    let total: i64 = billable_total(&tokens);
    let tally = calculate_components(&found.pricing, &tokens);
    let ghost parts = tally.components();
    let complete = tally.priced == total && tally.warnings.len() == 0;
    let mut warnings = tally.warnings;
    if !complete && warnings.len() == 0 {
        let warning = "one or more token component rates unavailable".to_owned();
        warnings.push(warning);
        assert(texts(warnings@) =~= seq![warning@]);
    }
    let status = if complete {
        PricingStatus::Exact
    } else {
        PricingStatus::Partial
    };
    let value_usd = if tally.priced > 0 {
        Some(tally.value)
    } else {
        None
    };
    PriceQuote {
        model_id: record.model_id.clone(),
        provider_id: record.provider_id.clone(),
        value_usd,
        status,
        source: Some(found.source.clone()),
        matched_key: Some(found.matched_key.clone()),
        resolution: Some(found.kind_name.clone()),
        input_tokens: tokens.input,
        cache_read_tokens: tokens.cache_read,
        cache_write_tokens: tokens.cache_write,
        output_tokens: tokens.output,
        reasoning_tokens: tokens.reasoning,
        priced_tokens: tally.priced,
        unpriced_tokens: sat_sub(total, tally.priced),
        warnings,
    }
}

/// Price sheets by provider and model, as far as they were looked up.
#[derive(Debug)]
pub struct PricingEngine {
    /// There is a service that looks prices up.
    pub available: bool,
    /// The service says that it holds price sheets.
    pub has_data: bool,
    pub resolutions: Vec<Resolution>,
}

/// The entries for a model under a provider.
pub open spec fn listed_for(provider: Seq<char>, model: Seq<char>) -> spec_fn(Resolution) -> bool {
    |entry: Resolution| entry.provider_id@ == provider && entry.model_id@ == model
}

impl PricingEngine {
    /// The lookup result for a model under a provider.
    pub open spec fn resolved(self, provider: Seq<char>, model: Seq<char>) -> Option<LookupResult> {
        match first_where(
            self.resolutions@,
            listed_for(provider, model),
            0,
        ) {
            Some(i) => self.resolutions@[i].found,
            None => None,
        }
    }

    /// The first entry for a model under a provider is the one that counts.
    proof fn lemma_resolved(self, provider: Seq<char>, model: Seq<char>, at: Option<int>)
        requires
            match at {
                Some(at) => 0 <= at < self.resolutions@.len() && self.resolutions@[at].provider_id@
                    == provider && self.resolutions@[at].model_id@ == model && forall|k: int|
                    0 <= k < at ==> (#[trigger] self.resolutions@[k]).provider_id@ != provider
                        || self.resolutions@[k].model_id@ != model,
                None => forall|k: int|
                    0 <= k < self.resolutions@.len() ==> (
                    #[trigger] self.resolutions@[k]).provider_id@ != provider
                        || self.resolutions@[k].model_id@ != model,
            },
        ensures
            self.resolved(provider, model) == match at {
                Some(at) => self.resolutions@[at].found,
                None => None,
            },
    {
        lemma_is_first_where(self.resolutions@, listed_for(provider, model), at);
    }

    /// The quote for a record.
    #[verifier::opaque]
    pub open spec fn quoted(self, record: RecordView) -> QuoteView {
        if !self.available {
            unpriced(record, None, None, None, "pricing dataset unavailable"@)
        } else {
            match self.resolved(record.provider_id, record.model_id) {
                None => unpriced(record, None, None, None, "model price unavailable"@),
                Some(found) => if found.strict() {
                    outlined(record, found)
                } else {
                    unpriced(
                        record,
                        Some(found.source@),
                        Some(found.matched_key@),
                        Some(found.kind_name@),
                        "model/provider match is not exact"@,
                    )
                },
            }
        }
    }

    /// An engine without price sheets.
    pub fn unavailable() -> (out: PricingEngine)
        ensures
            !out.available,
            !out.has_data,
            out.resolutions@.len() == 0,
    {
        PricingEngine { available: false, has_data: false, resolutions: Vec::new() }
    }

    pub fn has_pricing_data(&self) -> (yes: bool)
        ensures
            yes == (self.available && self.has_data),
    {
        self.available && self.has_data
    }

    fn find(&self, provider: &str, model: &str) -> (out: Option<usize>)
        ensures
            match out {
                Some(i) => i < self.resolutions@.len() && first_where(
                    self.resolutions@,
                    listed_for(provider@, model@),
                    0,
                ) == Some(i as int),
                None => first_where(
                    self.resolutions@,
                    listed_for(provider@, model@),
                    0,
                ) is None,
            },
    {
        let ghost wanted = listed_for(provider@, model@);
        let mut i: usize = 0;
        while i < self.resolutions.len()
            invariant
                i <= self.resolutions@.len(),
                wanted == listed_for(provider@, model@),
                forall|k: int| 0 <= k < i ==> !wanted(#[trigger] self.resolutions@[k]),
            decreases self.resolutions@.len() - i,
        {
            if same(self.resolutions[i].provider_id.as_str(), provider) && same(
                self.resolutions[i].model_id.as_str(),
                model,
            ) {
                proof {
                    lemma_is_first_where(self.resolutions@, wanted, Some(i as int));
                }
                return Some(i);
            }
            i = i + 1;
        }
        proof {
            lemma_is_first_where(self.resolutions@, wanted, None);
        }
        None
    }

    /// Whether a lookup of the record's model is still to be made.
    pub fn needs_lookup(&self, record: &UsageRecord) -> (yes: bool)
        ensures
            yes == (self.available && first_where(
                self.resolutions@,
                listed_for(record.provider_id@, record.model_id@),
                0,
            ) is None),
    {
        self.available && self.find(
            record.provider_id.as_str(),
            record.model_id.as_str(),
        ).is_none()
    }

    /// Prices a record from the price sheets that were looked up; a model whose
    /// lookup brought nothing, or was not made, has no price.
    pub fn quote(&self, record: &UsageRecord) -> (out: PriceQuote)
        ensures
            out@ == self.quoted(record@),
    {
        proof {
            reveal(PricingEngine::quoted);
        }
        if !self.available {
            return unknown_quote(record, None, None, None, "pricing dataset unavailable");
        }
        match self.find(record.provider_id.as_str(), record.model_id.as_str()) {
            Some(i) => match &self.resolutions[i].found {
                Some(found) => {
                    let strict = found.exact_model_identity && found.price_consensus
                        && found.submission_safe && found.kind == ResolutionKind::Strict;
                    if strict {
                        outline(record, found)
                    } else {
                        unknown_quote(
                            record,
                            Some(found.source.clone()),
                            Some(found.matched_key.clone()),
                            Some(found.kind_name.clone()),
                            "model/provider match is not exact",
                        )
                    }
                },
                None => {
                    unknown_quote(record, None, None, None, "model price unavailable")
                },
            },
            None => {
                unknown_quote(record, None, None, None, "model price unavailable")
            },
        }
    }
}

/// A record of Codex is quoted without its reasoning tokens.
pub proof fn law_codex_reasoning_is_not_charged(engine: PricingEngine, record: RecordView)
    requires
        lower(record.client) == "codex"@,
    ensures
        engine.quoted(record).reasoning_tokens == 0,
{
    reveal(PricingEngine::quoted);
}

/// A match that is not strict is never charged.
pub proof fn law_loose_matches_are_not_charged(engine: PricingEngine, record: RecordView)
    requires
        match engine.resolved(record.provider_id, record.model_id) {
            Some(found) => !found.strict(),
            None => true,
        },
    ensures
        engine.quoted(record).value_usd is None,
        engine.quoted(record).priced_tokens == 0,
        engine.quoted(record).status is Unknown,
        engine.quoted(record).warnings.len() > 0,
{
    reveal(PricingEngine::quoted);
}

/// A quote accounts for every token: what is priced and what is not are
/// together what the record holds, where no count is negative and the sum
/// does not saturate.
pub proof fn law_quote_accounts_for_all_tokens(engine: PricingEngine, record: RecordView)
    requires
        record.tokens.input >= 0,
        record.tokens.output >= 0,
        record.tokens.cache_read >= 0,
        record.tokens.cache_write >= 0,
        record.tokens.input + record.tokens.output + record.tokens.cache_read
            + record.tokens.cache_write <= i64::MAX,
    ensures
        engine.quoted(record).priced_tokens + engine.quoted(record).unpriced_tokens
            == record.tokens.input + record.tokens.output + record.tokens.cache_read
            + record.tokens.cache_write,
        engine.quoted(record).status is Exact ==> engine.quoted(record).unpriced_tokens == 0,
{
    reveal(PricingEngine::quoted);
}

/// What kinds of tokens come to, each a count and a rate: the counts above zero
/// times their rates, summed from zero in their order, as far as a rate is a
/// finite number that is not negative.
pub open spec fn charge_total(kinds: Seq<(i64, Option<Quantity>)>) -> Quantity
    decreases kinds.len(),
{
    if kinds.len() == 0 {
        Quantity { bits: 0 }
    } else {
        let (count, rate) = kinds.last();
        let total = charge_total(kinds.drop_last());
        match rate {
            Some(rate) if count > 0 && rate.finite() && rate.rank() >= 0 => total.sum(
                Quantity::of_count(count as int).product(rate),
            ),
            _ => total,
        }
    }
}

/// How many tokens of these kinds have a rate that can be charged.
pub open spec fn charge_count(kinds: Seq<(i64, Option<Quantity>)>) -> int
    decreases kinds.len(),
{
    if kinds.len() == 0 {
        0
    } else {
        let (count, rate) = kinds.last();
        charge_count(kinds.drop_last()) + match rate {
            Some(rate) if count > 0 && rate.finite() && rate.rank() >= 0 => count as int,
            _ => 0int,
        }
    }
}

proof fn lemma_charge(
    kinds: Seq<(i64, Option<Quantity>)>,
    before: Components,
    tokens: i64,
    rate: Option<Quantity>,
    label: Seq<char>,
)
    requires
        before.value == charge_total(kinds),
        before.priced == clamped(charge_count(kinds)),
        charge_count(kinds) >= 0,
    ensures
        with_component(before, tokens, rate, label).value == charge_total(
            kinds.push((tokens, rate)),
        ),
        with_component(before, tokens, rate, label).priced == clamped(
            charge_count(kinds.push((tokens, rate))),
        ),
        charge_count(kinds.push((tokens, rate))) >= 0,
{
    assert(kinds.push((tokens, rate)).drop_last() =~= kinds);
}

/// The parts of a record come to the same total.
proof fn lemma_components(pricing: ModelPricing, tokens: UsageTokens)
    ensures
        components(pricing, tokens).value == charge_total(
            seq![
                (tokens.input, pricing.input_cost_per_token),
                (tokens.cache_read, pricing.cache_read_input_token_cost),
                (tokens.cache_write, pricing.cache_creation_input_token_cost),
                (tokens.output, pricing.output_cost_per_token),
            ],
        ),
        components(pricing, tokens).priced == clamped(
            charge_count(
                seq![
                    (tokens.input, pricing.input_cost_per_token),
                    (tokens.cache_read, pricing.cache_read_input_token_cost),
                    (tokens.cache_write, pricing.cache_creation_input_token_cost),
                    (tokens.output, pricing.output_cost_per_token),
                ],
            ),
        ),
{
    let none = Components { value: Quantity { bits: ZERO }, priced: 0, warnings: Seq::empty() };
    let input = with_component(none, tokens.input, pricing.input_cost_per_token, "input"@);
    let read = with_component(
        input,
        tokens.cache_read,
        pricing.cache_read_input_token_cost,
        "cache read"@,
    );
    let write = with_component(
        read,
        tokens.cache_write,
        pricing.cache_creation_input_token_cost,
        "cache write"@,
    );
    let start = Seq::<(i64, Option<Quantity>)>::empty();
    let one = start.push((tokens.input, pricing.input_cost_per_token));
    let two = one.push((tokens.cache_read, pricing.cache_read_input_token_cost));
    let three = two.push((tokens.cache_write, pricing.cache_creation_input_token_cost));
    lemma_charge(start, none, tokens.input, pricing.input_cost_per_token, "input"@);
    lemma_charge(
        one,
        input,
        tokens.cache_read,
        pricing.cache_read_input_token_cost,
        "cache read"@,
    );
    lemma_charge(
        two,
        read,
        tokens.cache_write,
        pricing.cache_creation_input_token_cost,
        "cache write"@,
    );
    lemma_charge(three, write, tokens.output, pricing.output_cost_per_token, "output"@);
    assert(three.push((tokens.output, pricing.output_cost_per_token)) =~= seq![
        (tokens.input, pricing.input_cost_per_token),
        (tokens.cache_read, pricing.cache_read_input_token_cost),
        (tokens.cache_write, pricing.cache_creation_input_token_cost),
        (tokens.output, pricing.output_cost_per_token),
    ]);
}

/// On a strict match a quote states an amount exactly where a token was priced,
/// whatever its status. The amount is the sum of the counts times their rates,
/// over input, cache reads, cache writes and output in this order.
pub proof fn law_priced_tokens_have_an_amount(
    engine: PricingEngine,
    record: RecordView,
    at: int,
    found: LookupResult,
)
    requires
        engine.available,
        0 <= at < engine.resolutions@.len(),
        engine.resolutions@[at].provider_id@ == record.provider_id,
        engine.resolutions@[at].model_id@ == record.model_id,
        forall|k: int|
            0 <= k < at ==> (#[trigger] engine.resolutions@[k]).provider_id@ != record.provider_id
                || engine.resolutions@[k].model_id@ != record.model_id,
        engine.resolutions@[at].found == Some(found),
        found.exact_model_identity && found.price_consensus && found.submission_safe,
        found.kind is Strict,
    ensures
        engine.quoted(record).value_usd is Some <==> engine.quoted(record).priced_tokens > 0,
        engine.quoted(record).value_usd matches Some(value) ==> value == charge_total(
            seq![
                (record.tokens.input, found.pricing.input_cost_per_token),
                (record.tokens.cache_read, found.pricing.cache_read_input_token_cost),
                (record.tokens.cache_write, found.pricing.cache_creation_input_token_cost),
                (record.tokens.output, found.pricing.output_cost_per_token),
            ],
        ),
        engine.quoted(record).priced_tokens == clamped(
            charge_count(
                seq![
                    (record.tokens.input, found.pricing.input_cost_per_token),
                    (record.tokens.cache_read, found.pricing.cache_read_input_token_cost),
                    (record.tokens.cache_write, found.pricing.cache_creation_input_token_cost),
                    (record.tokens.output, found.pricing.output_cost_per_token),
                ],
            ),
        ),
        engine.quoted(record).source == Some(found.source@),
        engine.quoted(record).matched_key == Some(found.matched_key@),
        engine.quoted(record).resolution == Some(found.kind_name@),
{
    reveal(PricingEngine::quoted);
    engine.lemma_resolved(record.provider_id, record.model_id, Some(at));
    lemma_components(found.pricing, chargeable(record));
}

/// A quote says that it is exact only where every kind of tokens that the record
/// counts has a rate, no rate depends on the length of the request, and there is
/// then nothing to warn of. A kind without a rate is named.
pub proof fn law_exact_quotes_leave_nothing_out(record: RecordView, found: LookupResult)
    ensures
        outlined(record, found).status is Exact <==> outlined(record, found).warnings.len() == 0,
        !(outlined(record, found).status is Unknown),
        outlined(record, found).status is Exact ==> {
            &&& record.tokens.input > 0 ==> found.pricing.input_cost_per_token is Some
            &&& record.tokens.output > 0 ==> found.pricing.output_cost_per_token is Some
            &&& record.tokens.cache_read > 0 ==> found.pricing.cache_read_input_token_cost is Some
            &&& record.tokens.cache_write > 0
                ==> found.pricing.cache_creation_input_token_cost is Some
            &&& found.pricing.input_cost_per_token_above_128k_tokens is None
            &&& found.pricing.input_cost_per_token_above_200k_tokens is None
            &&& found.pricing.input_cost_per_token_above_256k_tokens is None
            &&& found.pricing.input_cost_per_token_above_272k_tokens is None
            &&& found.pricing.output_cost_per_token_above_128k_tokens is None
            &&& found.pricing.output_cost_per_token_above_200k_tokens is None
            &&& found.pricing.output_cost_per_token_above_256k_tokens is None
            &&& found.pricing.output_cost_per_token_above_272k_tokens is None
        },
        record.tokens.input > 0 && found.pricing.input_cost_per_token is None ==> outlined(
            record,
            found,
        ).warnings.contains("input"@ + " rate unavailable"@),
        record.tokens.cache_read > 0 && found.pricing.cache_read_input_token_cost is None
            ==> outlined(record, found).warnings.contains("cache read"@ + " rate unavailable"@),
        record.tokens.cache_write > 0 && found.pricing.cache_creation_input_token_cost is None
            ==> outlined(record, found).warnings.contains("cache write"@ + " rate unavailable"@),
        record.tokens.output > 0 && found.pricing.output_cost_per_token is None ==> outlined(
            record,
            found,
        ).warnings.contains("output"@ + " rate unavailable"@),
        found.pricing.tiered() ==> outlined(record, found).warnings.contains(
            "long-context tier unavailable"@,
        ),
{
    broadcast use vstd::seq_lib::group_seq_properties;
}

/// The quote of a record keeps the record's model, provider and counts, but for
/// the reasoning of Codex; without a strict match none of the tokens is priced,
/// and the quote says why.
pub proof fn law_quote_keeps_the_record(engine: PricingEngine, record: RecordView)
    ensures
        engine.quoted(record).model_id == record.model_id,
        engine.quoted(record).provider_id == record.provider_id,
        engine.quoted(record).input_tokens == record.tokens.input,
        engine.quoted(record).output_tokens == record.tokens.output,
        engine.quoted(record).cache_read_tokens == record.tokens.cache_read,
        engine.quoted(record).cache_write_tokens == record.tokens.cache_write,
        engine.quoted(record).reasoning_tokens == if lower(record.client) == "codex"@ {
            0
        } else {
            record.tokens.reasoning
        },
        !engine.available ==> engine.quoted(record).warnings == seq![
            "pricing dataset unavailable"@,
        ],
        engine.available && (forall|k: int|
            0 <= k < engine.resolutions@.len() ==> (#[trigger] engine.resolutions@[k]).provider_id@
                != record.provider_id || engine.resolutions@[k].model_id@ != record.model_id)
            ==> engine.quoted(record).warnings == seq!["model price unavailable"@],
        engine.available && engine.resolved(record.provider_id, record.model_id) is Some
            && !engine.resolved(record.provider_id, record.model_id)->0.strict() ==> engine.quoted(
            record,
        ).warnings == seq!["model/provider match is not exact"@],
{
    reveal(PricingEngine::quoted);
    if forall|k: int|
        0 <= k < engine.resolutions@.len() ==> (#[trigger] engine.resolutions@[k]).provider_id@
            != record.provider_id || engine.resolutions@[k].model_id@ != record.model_id {
        engine.lemma_resolved(record.provider_id, record.model_id, None);
    }
}

} // verus!
