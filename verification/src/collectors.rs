//! Provider rows from what the providers answer.

pub mod antigravity;
pub mod claude;
pub mod codex;
pub mod commandcode;
pub mod copilot;
pub mod cursor;
pub mod deepseek;
pub mod gpus;
pub mod grok;
pub mod kiro;
pub mod live;
pub mod minimax;
pub mod ollama;
pub mod openrouter;
pub mod qoder;
pub mod trae;
pub mod zai;


use vstd::prelude::*;

use crate::formula::{Formula, Power};
use crate::json::Json;
use crate::limits::{window_views, Availability, LimitWindow, ProviderSnapshot, ProviderView};
use crate::limits::{SourceHealth, WindowKind, WindowMetric, WindowView};
use crate::moment::{parse_rfc3339, rfc3339_ms};
use crate::quantity::Quantity;
use crate::text::{copy_maybe, copy_texts, decimal, decimal_text, maybe_str, maybe_text, parse_i64};
use crate::text::{same, spelled_i64, texts};

verus! {

/// How long a collector waits for an answer, in seconds.
pub const DEFAULT_TIMEOUT: u64 = 20;

/// The monthly grant of a Modal workspace, thirty dollars, by its bits.
pub const DEFAULT_MODAL_GRANT_USD: u64 = 0x403e_0000_0000_0000;

/// What a refresh is asked for.
#[derive(Debug)]
pub struct CollectorOptions {
    /// The providers to ask; all of them where there is no list. A name that
    /// stands twice counts once.
    pub providers: Option<Vec<String>>,
    pub modal_profiles: Option<Vec<String>>,
    pub modal_config: Option<String>,
    pub modal_credit_grant_usd: Option<Quantity>,
    /// In seconds.
    pub timeout: Option<u64>,
}

/// A list of texts holds the text.
pub fn lists(items: &Vec<String>, wanted: &str) -> (yes: bool)
    ensures
        yes == texts(items@).contains(wanted@),
{
    let mut i: usize = 0;
    while i < items.len()
        invariant
            i <= items@.len(),
            forall|k: int| 0 <= k < i ==> #[trigger] texts(items@)[k] != wanted@,
        decreases items@.len() - i,
    {
        if same(items[i].as_str(), wanted) {
            assert(texts(items@)[i as int] == wanted@);
            return true;
        }
        i = i + 1;
    }
    false
}

/// The names without repeats, each where it stood first.
pub open spec fn distinct(names: Seq<Seq<char>>) -> Seq<Seq<char>>
    decreases names.len(),
{
    if names.len() == 0 {
        Seq::empty()
    } else {
        let before = distinct(names.drop_last());
        if before.contains(names.last()) {
            before
        } else {
            before.push(names.last())
        }
    }
}

/// No name stands twice among distinct names, and none is lost.
pub proof fn lemma_distinct(names: Seq<Seq<char>>)
    ensures
        distinct(names).no_duplicates(),
        forall|name: Seq<char>| #[trigger] distinct(names).contains(name) <==> names.contains(name),
    decreases names.len(),
{
    if names.len() > 0 {
        let rest = names.drop_last();
        let before = distinct(rest);
        lemma_distinct(rest);
        assert forall|name: Seq<char>| #[trigger] distinct(names).contains(name) <==> names.contains(
            name,
        ) by {
            if names.contains(name) {
                let i = choose|i: int| 0 <= i < names.len() && names[i] == name;
                if i < rest.len() {
                    assert(rest[i] == name);
                    assert(before.contains(name));
                    let k = choose|k: int| 0 <= k < before.len() && before[k] == name;
                    assert(distinct(names)[k] == name);
                } else if !before.contains(names.last()) {
                    assert(distinct(names)[before.len() as int] == name);
                }
            }
            if distinct(names).contains(name) {
                let k = choose|k: int| 0 <= k < distinct(names).len() && distinct(names)[k] == name;
                if k < before.len() {
                    assert(before[k] == name);
                    assert(before.contains(name));
                    let i = choose|i: int| 0 <= i < rest.len() && rest[i] == name;
                    assert(names[i] == name);
                } else {
                    assert(names[names.len() - 1] == name);
                }
            }
        }
    }
}

/// The names without repeats.
pub fn drop_repeats(names: &Vec<String>) -> (out: Vec<String>)
    ensures
        texts(out@) == distinct(texts(names@)),
        texts(out@).no_duplicates(),
{
    let ghost all = texts(names@);
    let mut out: Vec<String> = Vec::new();
    let mut i: usize = 0;
    assert(texts(out@) =~= distinct(all.take(0)));
    while i < names.len()
        invariant
            i <= names@.len(),
            all == texts(names@),
            texts(out@) == distinct(all.take(i as int)),
        decreases names@.len() - i,
    {
        proof {
            assert(all.take(i + 1).drop_last() =~= all.take(i as int));
            assert(all.take(i + 1).last() == names@[i as int]@);
        }
        if !lists(&out, names[i].as_str()) {
            let ghost before = out@;
            out.push(names[i].clone());
            assert(texts(out@) =~= texts(before).push(names@[i as int]@));
        }
        i = i + 1;
    }
    proof {
        assert(all.take(i as int) =~= all);
        lemma_distinct(all);
    }
    out
}

impl CollectorOptions {
    /// The provider is asked for, by its name or with all others.
    pub open spec fn wants(self, provider: Seq<char>) -> bool {
        match self.providers {
            Some(selected) => texts(selected@).contains("all"@) || texts(selected@).contains(
                provider,
            ),
            None => true,
        }
    }

    pub fn includes(&self, provider: &str) -> (yes: bool)
        ensures
            yes == self.wants(provider@),
    {
        match &self.providers {
            Some(selected) => lists(selected, "all") || lists(selected, provider),
            None => true,
        }
    }

    pub fn timeout(&self) -> (seconds: u64)
        ensures
            seconds == match self.timeout {
                Some(own) => own,
                None => DEFAULT_TIMEOUT,
            },
    {
        match self.timeout {
            Some(own) => own,
            None => DEFAULT_TIMEOUT,
        }
    }
}

impl Default for CollectorOptions {
    fn default() -> (out: CollectorOptions)
        ensures
            out.providers is None,
            out.modal_profiles is None,
            out.modal_config is None,
            out.modal_credit_grant_usd is None,
            out.timeout is None,
    {
        CollectorOptions {
            providers: None,
            modal_profiles: None,
            modal_config: None,
            modal_credit_grant_usd: None,
            timeout: None,
        }
    }
}

/// What came back for a request.
#[derive(Debug)]
pub enum Reply {
    /// A successful answer and its JSON body.
    Body(Json),
    /// An answer with another status.
    Refused(u16),
    /// No answer.
    Failed,
    /// A successful answer whose body is no JSON.
    Garbled,
}

/// Why there is nothing to show.
#[derive(Debug)]
pub struct Failure {
    pub health: SourceHealth,
    pub detail: String,
}

pub struct FailureView {
    pub health: SourceHealth,
    pub detail: Seq<char>,
}

impl View for Failure {
    type V = FailureView;

    open spec fn view(&self) -> FailureView {
        FailureView { health: self.health, detail: self.detail@ }
    }
}

/// What an unsuccessful status says of the credentials.
pub open spec fn status_health(code: u16) -> SourceHealth {
    if code == 401 || code == 403 {
        SourceHealth::Unauthorized
    } else {
        SourceHealth::Unavailable
    }
}

pub fn status_for_http(code: u16) -> (out: SourceHealth)
    ensures
        out == status_health(code),
{
    if code == 401 || code == 403 {
        SourceHealth::Unauthorized
    } else {
        SourceHealth::Unavailable
    }
}

/// The words for the ways in which a request can fail.
pub struct Wording {
    /// Before the number of an unsuccessful status.
    pub refused: &'static str,
    pub failed: &'static str,
    pub garbled: &'static str,
}

pub open spec fn plain_wording() -> Wording {
    Wording { refused: "HTTP ", failed: "request failed", garbled: "invalid JSON response" }
}

/// The words for a request that has no words of its own.
pub fn usual_wording() -> (out: Wording)
    ensures
        out.refused@ == plain_wording().refused@,
        out.failed@ == plain_wording().failed@,
        out.garbled@ == plain_wording().garbled@,
{
    Wording { refused: "HTTP ", failed: "request failed", garbled: "invalid JSON response" }
}

impl Reply {
    /// The body of a successful answer.
    pub open spec fn body(self) -> Option<Json> {
        match self {
            Reply::Body(value) => Some(value),
            _ => None,
        }
    }

    /// What an unsuccessful request says of the source.
    pub open spec fn health(self) -> SourceHealth {
        match self {
            Reply::Body(_) => SourceHealth::Connected,
            Reply::Refused(code) => status_health(code),
            _ => SourceHealth::Unavailable,
        }
    }

    /// The failure in words, with the number of the status.
    pub open spec fn numbered_failure(self, wording: Wording) -> FailureView {
        FailureView {
            health: self.health(),
            detail: match self {
                Reply::Refused(code) => wording.refused@ + decimal(code as nat),
                Reply::Garbled => wording.garbled@,
                _ => wording.failed@,
            },
        }
    }

    /// The failure in words.
    pub open spec fn named_failure(self, wording: Wording) -> FailureView {
        FailureView {
            health: self.health(),
            detail: match self {
                Reply::Refused(_) => wording.refused@,
                Reply::Garbled => wording.garbled@,
                _ => wording.failed@,
            },
        }
    }

    pub fn ok(&self) -> (out: Option<&Json>)
        ensures
            crate::json::borrowed(out) == self.body(),
    {
        match self {
            Reply::Body(value) => Some(value),
            _ => None,
        }
    }

    pub fn source_health(&self) -> (out: SourceHealth)
        ensures
            out == self.health(),
    {
        match self {
            Reply::Body(_) => SourceHealth::Connected,
            Reply::Refused(code) => status_for_http(*code),
            _ => SourceHealth::Unavailable,
        }
    }

    pub fn numbered(&self, wording: &Wording) -> (out: Failure)
        ensures
            out@ == self.numbered_failure(*wording),
    {
        let health = self.source_health();
        let detail = match self {
            Reply::Refused(code) => {
                let mut text = wording.refused.to_owned();
                text.append(decimal_text(*code as u64).as_str());
                text
            },
            Reply::Garbled => wording.garbled.to_owned(),
            _ => wording.failed.to_owned(),
        };
        Failure { health, detail }
    }

    pub fn named(&self, wording: &Wording) -> (out: Failure)
        ensures
            out@ == self.named_failure(*wording),
    {
        let health = self.source_health();
        let detail = match self {
            Reply::Refused(_) => wording.refused.to_owned(),
            Reply::Garbled => wording.garbled.to_owned(),
            _ => wording.failed.to_owned(),
        };
        Failure { health, detail }
    }
}

/// A window whose numbers are still to be worked out.
#[derive(Debug)]
pub struct WindowDraft {
    pub label: String,
    pub kind: WindowKind,
    pub metric: WindowMetric,
    pub remaining_percent: Option<Formula>,
    pub remaining_amount: Option<Formula>,
    pub currency: Option<String>,
    pub resets_at_ms: Option<i64>,
    pub reset_text: Option<String>,
    pub estimated: bool,
}

/// What a `WindowDraft` says.
pub struct DraftView {
    pub label: Seq<char>,
    pub kind: WindowKind,
    pub metric: WindowMetric,
    pub remaining_percent: Option<Formula>,
    pub remaining_amount: Option<Formula>,
    pub currency: Option<Seq<char>>,
    pub resets_at_ms: Option<i64>,
    pub reset_text: Option<Seq<char>>,
    pub estimated: bool,
}

impl View for WindowDraft {
    type V = DraftView;

    open spec fn view(&self) -> DraftView {
        DraftView {
            label: self.label@,
            kind: self.kind,
            metric: self.metric,
            remaining_percent: self.remaining_percent,
            remaining_amount: self.remaining_amount,
            currency: maybe_text(self.currency),
            resets_at_ms: self.resets_at_ms,
            reset_text: maybe_text(self.reset_text),
            estimated: self.estimated,
        }
    }
}

pub open spec fn draft_views(windows: Seq<WindowDraft>) -> Seq<DraftView> {
    windows.map_values(|window: WindowDraft| window@)
}

pub open spec fn maybe_draft(window: Option<WindowDraft>) -> Option<DraftView> {
    match window {
        Some(window) => Some(window@),
        None => None,
    }
}

/// The window in a run of its own, or no window.
pub open spec fn if_any(window: Option<DraftView>) -> Seq<DraftView> {
    match window {
        Some(window) => seq![window],
        None => Seq::empty(),
    }
}

/// Appends the window where there is one.
pub fn push_if_any(windows: &mut Vec<WindowDraft>, window: Option<WindowDraft>)
    ensures
        draft_views(final(windows)@) == draft_views(old(windows)@) + if_any(maybe_draft(window)),
{
    let ghost before = windows@;
    match window {
        Some(window) => {
            windows.push(window);
            assert(draft_views(windows@) =~= draft_views(before) + seq![window@]);
        },
        None => {
            assert(draft_views(windows@) =~= draft_views(before) + Seq::empty());
        },
    }
}

/// What a formula comes to, where there is one.
pub open spec fn worked_out(formula: Option<Formula>, powers: Seq<Power>) -> Option<Quantity> {
    match formula {
        Some(formula) => Some(formula.value(powers)),
        None => None,
    }
}

fn work_out(formula: &Option<Formula>, powers: &Vec<Power>) -> (out: Option<Quantity>)
    ensures
        out == worked_out(*formula, powers@),
{
    match formula {
        Some(formula) => Some(formula.evaluate(powers)),
        None => None,
    }
}

impl DraftView {
    /// A share of a quota.
    pub open spec fn quota(
        label: Seq<char>,
        kind: WindowKind,
        percent: Option<Formula>,
        resets_at_ms: Option<i64>,
        reset_text: Option<Seq<char>>,
    ) -> DraftView {
        DraftView {
            label,
            kind,
            metric: WindowMetric::Quota,
            remaining_percent: percent,
            remaining_amount: None,
            currency: None,
            resets_at_ms,
            reset_text,
            estimated: false,
        }
    }

    /// The window with its numbers worked out.
    pub open spec fn settled(self, powers: Seq<Power>) -> WindowView {
        WindowView {
            label: self.label,
            kind: self.kind,
            metric: self.metric,
            remaining_percent: worked_out(self.remaining_percent, powers),
            remaining_amount: worked_out(self.remaining_amount, powers),
            currency: self.currency,
            resets_at_ms: self.resets_at_ms,
            reset_text: self.reset_text,
            estimated: self.estimated,
        }
    }
}

impl WindowDraft {
    pub fn quota(
        label: &str,
        kind: WindowKind,
        percent: Option<Formula>,
        resets_at_ms: Option<i64>,
        reset_text: Option<String>,
    ) -> (out: WindowDraft)
        ensures
            out@ == DraftView::quota(label@, kind, percent, resets_at_ms, maybe_text(reset_text)),
    {
        WindowDraft {
            label: label.to_owned(),
            kind,
            metric: WindowMetric::Quota,
            remaining_percent: percent,
            remaining_amount: None,
            currency: None,
            resets_at_ms,
            reset_text,
            estimated: false,
        }
    }

    pub fn settle(&self, powers: &Vec<Power>) -> (out: LimitWindow)
        ensures
            out@ == self@.settled(powers@),
    {
        LimitWindow {
            label: self.label.clone(),
            kind: self.kind,
            metric: self.metric,
            remaining_percent: work_out(&self.remaining_percent, powers),
            remaining_amount: work_out(&self.remaining_amount, powers),
            currency: copy_maybe(&self.currency),
            resets_at_ms: self.resets_at_ms,
            reset_text: copy_maybe(&self.reset_text),
            estimated: self.estimated,
        }
    }
}

/// A row of a provider that answered.
#[derive(Debug)]
pub struct RowDraft {
    pub provider_id: String,
    pub account_key: String,
    pub account_label: String,
    pub plan: String,
    pub source: String,
    pub windows: Vec<WindowDraft>,
    pub hue: u8,
    pub diagnostics: Vec<String>,
    /// The provider refuses requests whatever its windows say.
    pub blocked: bool,
}

/// What a `RowDraft` says.
pub struct RowDraftView {
    pub provider_id: Seq<char>,
    pub account_key: Seq<char>,
    pub account_label: Seq<char>,
    pub plan: Seq<char>,
    pub source: Seq<char>,
    pub windows: Seq<DraftView>,
    pub hue: u8,
    pub diagnostics: Seq<Seq<char>>,
    pub blocked: bool,
}

impl View for RowDraft {
    type V = RowDraftView;

    open spec fn view(&self) -> RowDraftView {
        RowDraftView {
            provider_id: self.provider_id@,
            account_key: self.account_key@,
            account_label: self.account_label@,
            plan: self.plan@,
            source: self.source@,
            windows: draft_views(self.windows@),
            hue: self.hue,
            diagnostics: texts(self.diagnostics@),
            blocked: self.blocked,
        }
    }
}

/// What a collector makes of an account.
#[derive(Debug)]
pub enum Row {
    /// The provider answered.
    Answered(RowDraft),
    /// There is nothing to show but a reason.
    Missing(ProviderSnapshot),
}

/// What a `Row` says.
pub enum RowView {
    Answered(RowDraftView),
    Missing(ProviderView),
}

impl RowView {
    pub open spec fn key(self) -> Seq<char> {
        match self {
            RowView::Answered(draft) => draft.account_key,
            RowView::Missing(row) => row.account_key,
        }
    }

    /// The row without its account key.
    pub open spec fn keyless(self) -> RowView {
        match self {
            RowView::Answered(draft) => RowView::Answered(
                RowDraftView { account_key: Seq::empty(), ..draft },
            ),
            RowView::Missing(row) => RowView::Missing(
                ProviderView { account_key: Seq::empty(), ..row },
            ),
        }
    }
}

impl View for Row {
    type V = RowView;

    open spec fn view(&self) -> RowView {
        match self {
            Row::Answered(draft) => RowView::Answered(draft@),
            Row::Missing(row) => RowView::Missing(row@),
        }
    }
}

pub open spec fn row_views(rows: Seq<Row>) -> Seq<RowView> {
    rows.map_values(|row: Row| row@)
}

/// How the rows of a provider look.
pub struct Badge {
    pub provider_id: &'static str,
    pub source: &'static str,
    pub hue: u8,
}

/// The row of an account that gave nothing.
pub open spec fn missing_row(
    badge: Badge,
    account_key: Seq<char>,
    account_label: Seq<char>,
    failure: FailureView,
    now_ms: i64,
) -> ProviderView {
    ProviderView {
        provider_id: badge.provider_id@,
        account_key,
        account_label,
        plan: Seq::empty(),
        source: badge.source@,
        collected_at_ms: now_ms,
        source_health: failure.health,
        availability: Availability::Unknown,
        windows: Seq::empty(),
        diagnostics: seq![failure.detail],
        hue: badge.hue,
    }
}

pub open spec fn unavailable(detail: Seq<char>) -> FailureView {
    FailureView { health: SourceHealth::Unavailable, detail }
}

pub fn unavailable_for(detail: &str) -> (out: Failure)
    ensures
        out@ == unavailable(detail@),
{
    Failure { health: SourceHealth::Unavailable, detail: detail.to_owned() }
}

pub fn unavailable_snapshot(
    badge: &Badge,
    account_key: String,
    account_label: String,
    failure: Failure,
    now_ms: i64,
) -> (out: ProviderSnapshot)
    ensures
        out@ == missing_row(*badge, account_key@, account_label@, failure@, now_ms),
{
    let mut diagnostics: Vec<String> = Vec::new();
    let windows: Vec<LimitWindow> = Vec::new();
    let ghost detail = failure.detail@;
    diagnostics.push(failure.detail);
    assert(texts(diagnostics@) =~= seq![detail]);
    assert(window_views(windows@) =~= Seq::empty());
    ProviderSnapshot {
        provider_id: badge.provider_id.to_owned(),
        account_key,
        account_label,
        plan: String::new(),
        source: badge.source.to_owned(),
        collected_at_ms: now_ms,
        source_health: failure.health,
        availability: Availability::Unknown,
        windows,
        diagnostics,
        hue: badge.hue,
    }
}

/// A row with what a provider answered.
pub open spec fn answered(
    badge: Badge,
    account_key: Seq<char>,
    account_label: Seq<char>,
    plan: Seq<char>,
    windows: Seq<DraftView>,
) -> RowView {
    RowView::Answered(
        RowDraftView {
            provider_id: badge.provider_id@,
            account_key,
            account_label,
            plan,
            source: badge.source@,
            windows,
            hue: badge.hue,
            diagnostics: Seq::empty(),
            blocked: false,
        },
    )
}

pub fn answered_row(
    badge: &Badge,
    account_key: String,
    account_label: String,
    plan: String,
    windows: Vec<WindowDraft>,
) -> (out: Row)
    ensures
        out@ == answered(*badge, account_key@, account_label@, plan@, draft_views(windows@)),
{
    let diagnostics: Vec<String> = Vec::new();
    assert(texts(diagnostics@) =~= Seq::empty());
    Row::Answered(
        RowDraft {
            provider_id: badge.provider_id.to_owned(),
            account_key,
            account_label,
            plan,
            source: badge.source.to_owned(),
            windows,
            hue: badge.hue,
            diagnostics,
            blocked: false,
        },
    )
}

pub fn missing(
    badge: &Badge,
    account_key: String,
    account_label: String,
    failure: Failure,
    now_ms: i64,
) -> (out: Row)
    ensures
        out@ == RowView::Missing(
            missing_row(*badge, account_key@, account_label@, failure@, now_ms),
        ),
{
    Row::Missing(unavailable_snapshot(badge, account_key, account_label, failure, now_ms))
}

/// The row with the reason why an account gave nothing.
pub open spec fn no_row(
    badge: Badge,
    account_key: Seq<char>,
    account_label: Seq<char>,
    reason: Seq<char>,
    now_ms: i64,
) -> RowView {
    RowView::Missing(
        missing_row(badge, account_key, account_label, unavailable(reason), now_ms),
    )
}

pub fn nothing_for(
    badge: &Badge,
    account_key: String,
    account_label: &str,
    reason: &str,
    now_ms: i64,
) -> (out: Row)
    ensures
        out@ == no_row(*badge, account_key@, account_label@, reason@, now_ms),
{
    missing(badge, account_key, account_label.to_owned(), unavailable_for(reason), now_ms)
}

/// The key of the account to ask for, or the row with the reason why it
/// cannot be asked.
pub open spec fn asked(
    badge: Badge,
    prefix: Seq<char>,
    account_label: Seq<char>,
    token: Option<Seq<char>>,
    absent: Seq<char>,
    can_ask: bool,
    now_ms: i64,
) -> Result<Seq<char>, RowView> {
    match token {
        None => Err(
            RowView::Missing(
                missing_row(badge, ""@, account_label, unavailable(absent), now_ms),
            ),
        ),
        Some(token) => if can_ask {
            Ok(crate::secrets::key_of(prefix, token))
        } else {
            Err(
                RowView::Missing(
                    missing_row(
                        badge,
                        crate::secrets::key_of(prefix, token),
                        account_label,
                        unavailable("HTTP client unavailable"@),
                        now_ms,
                    ),
                ),
            )
        },
    }
}

pub open spec fn key_or_row(result: Result<String, Row>) -> Result<Seq<char>, RowView> {
    match result {
        Ok(key) => Ok(key@),
        Err(row) => Err(row@),
    }
}

pub fn ask(
    badge: &Badge,
    prefix: &str,
    account_label: &str,
    token: Option<&str>,
    absent: &str,
    can_ask: bool,
    now_ms: i64,
) -> (out: Result<String, Row>)
    ensures
        key_or_row(out) == asked(
            *badge,
            prefix@,
            account_label@,
            maybe_str(token),
            absent@,
            can_ask,
            now_ms,
        ),
{
    match token {
        None => Err(
            missing(
                badge,
                "".to_owned(),
                account_label.to_owned(),
                unavailable_for(absent),
                now_ms,
            ),
        ),
        Some(token) => {
            let key = crate::secrets::account_key(prefix, token);
            if can_ask {
                Ok(key)
            } else {
                Err(
                    missing(
                        badge,
                        key,
                        account_label.to_owned(),
                        unavailable_for("HTTP client unavailable"),
                        now_ms,
                    ),
                )
            }
        },
    }
}

/// The body of an answer, or the row with the reason why there is none.
pub open spec fn body_or_row(
    badge: Badge,
    account_key: Seq<char>,
    account_label: Seq<char>,
    reply: Reply,
    wording: Wording,
    now_ms: i64,
) -> Result<Json, RowView> {
    match reply {
        Reply::Body(value) => Ok(value),
        _ => Err(
            RowView::Missing(
                missing_row(
                    badge,
                    account_key,
                    account_label,
                    reply.named_failure(wording),
                    now_ms,
                ),
            ),
        ),
    }
}

pub open spec fn json_or_row(result: Result<&Json, Row>) -> Result<Json, RowView> {
    match result {
        Ok(value) => Ok(*value),
        Err(row) => Err(row@),
    }
}

pub fn body_of<'a>(
    badge: &Badge,
    account_key: &str,
    account_label: &str,
    reply: &'a Reply,
    wording: &Wording,
    now_ms: i64,
) -> (out: Result<&'a Json, Row>)
    ensures
        json_or_row(out) == body_or_row(
            *badge,
            account_key@,
            account_label@,
            *reply,
            *wording,
            now_ms,
        ),
{
    match reply {
        Reply::Body(value) => Ok(value),
        _ => Err(
            missing(
                badge,
                account_key.to_owned(),
                account_label.to_owned(),
                reply.named(wording),
                now_ms,
            ),
        ),
    }
}

/// Nothing is left of some window that outlasts a session or holds money.
pub open spec fn nothing_left(windows: Seq<WindowView>) -> bool {
    exists|i: int|
        0 <= i < windows.len() && (#[trigger] windows[i]).lasting() && windows[i].used_up()
}

fn is_used_up(windows: &Vec<LimitWindow>) -> (yes: bool)
    ensures
        yes == nothing_left(window_views(windows@)),
{
    let mut i: usize = 0;
    while i < windows.len()
        invariant
            i <= windows@.len(),
            forall|k: int|
                0 <= k < i ==> !((#[trigger] window_views(windows@)[k]).lasting() && window_views(
                    windows@,
                )[k].used_up()),
        decreases windows@.len() - i,
    {
        assert(window_views(windows@)[i as int] == windows@[i as int]@);
        if (windows[i].metric.is_credit() || windows[i].kind.durable())
            && windows[i].effectively_exhausted() {
            return true;
        }
        i = i + 1;
    }
    false
}

/// The windows of a row with their numbers worked out.
pub open spec fn settled_windows(windows: Seq<DraftView>, powers: Seq<Power>) -> Seq<WindowView> {
    windows.map_values(|window: DraftView| window.settled(powers))
}

fn settle_windows(windows: &Vec<WindowDraft>, powers: &Vec<Power>) -> (out: Vec<LimitWindow>)
    ensures
        window_views(out@) == settled_windows(draft_views(windows@), powers@),
{
    let mut out: Vec<LimitWindow> = Vec::new();
    let mut i: usize = 0;
    while i < windows.len()
        invariant
            i <= windows@.len(),
            out@.len() == i,
            forall|k: int| 0 <= k < i ==> (#[trigger] out@[k])@ == windows@[k]@.settled(powers@),
        decreases windows@.len() - i,
    {
        out.push(windows[i].settle(powers));
        i = i + 1;
    }
    assert(window_views(out@) =~= settled_windows(draft_views(windows@), powers@));
    out
}

/// A connected row: exhausted where nothing is left of a lasting window.
pub open spec fn connected(draft: RowDraftView, powers: Seq<Power>, now_ms: i64) -> ProviderView {
    let windows = settled_windows(draft.windows, powers);
    ProviderView {
        provider_id: draft.provider_id,
        account_key: draft.account_key,
        account_label: draft.account_label,
        plan: draft.plan,
        source: draft.source,
        collected_at_ms: now_ms,
        source_health: SourceHealth::Connected,
        availability: if draft.blocked {
            Availability::AgentBlocked
        } else if nothing_left(windows) {
            Availability::Exhausted
        } else {
            Availability::Available
        },
        windows,
        diagnostics: draft.diagnostics,
        hue: draft.hue,
    }
}

/// The row of a provider that answered, with the numbers of its windows worked
/// out.
pub fn connected_snapshot(draft: &RowDraft, powers: &Vec<Power>, now_ms: i64) -> (out:
    ProviderSnapshot)
    ensures
        out@ == connected(draft@, powers@, now_ms),
{
    let windows = settle_windows(&draft.windows, powers);
    let availability = if draft.blocked {
        Availability::AgentBlocked
    } else if is_used_up(&windows) {
        Availability::Exhausted
    } else {
        Availability::Available
    };
    ProviderSnapshot {
        provider_id: draft.provider_id.clone(),
        account_key: draft.account_key.clone(),
        account_label: draft.account_label.clone(),
        plan: draft.plan.clone(),
        source: draft.source.clone(),
        collected_at_ms: now_ms,
        source_health: SourceHealth::Connected,
        availability,
        windows,
        diagnostics: copy_texts(&draft.diagnostics),
        hue: draft.hue,
    }
}

impl RowView {
    /// The row as it is shown.
    pub open spec fn settled(self, powers: Seq<Power>, now_ms: i64) -> ProviderView {
        match self {
            RowView::Answered(draft) => connected(draft, powers, now_ms),
            RowView::Missing(row) => row,
        }
    }

    /// The exponents of the powers of ten that the numbers of the row need.
    pub open spec fn exponents(self) -> Seq<Quantity> {
        match self {
            RowView::Answered(draft) => exponents_of(draft.windows),
            RowView::Missing(_) => Seq::empty(),
        }
    }
}

impl Row {
    pub fn settle(&self, powers: &Vec<Power>, now_ms: i64) -> (out: ProviderSnapshot)
        ensures
            out@ == self@.settled(powers@, now_ms),
    {
        match self {
            Row::Answered(draft) => connected_snapshot(draft, powers, now_ms),
            Row::Missing(row) => row.clone(),
        }
    }

    pub fn needed_exponents(&self) -> (out: Vec<Quantity>)
        ensures
            out@ == self@.exponents(),
    {
        let mut out: Vec<Quantity> = Vec::new();
        match self {
            Row::Answered(draft) => {
                let ghost views = draft_views(draft.windows@);
                let mut i: usize = 0;
                assert(views.take(0) =~= Seq::<DraftView>::empty());
                while i < draft.windows.len()
                    invariant
                        i <= draft.windows@.len(),
                        views == draft_views(draft.windows@),
                        out@ == exponents_of(views.take(i as int)),
                    decreases draft.windows@.len() - i,
                {
                    assert(views.take(i + 1).drop_last() =~= views.take(i as int));
                    assert(views.take(i + 1).last() == draft.windows@[i as int]@);
                    match &draft.windows[i].remaining_percent {
                        Some(formula) => {
                            formula.list_exponents(&mut out);
                        },
                        None => {},
                    }
                    match &draft.windows[i].remaining_amount {
                        Some(formula) => {
                            formula.list_exponents(&mut out);
                        },
                        None => {},
                    }
                    assert(out@ =~= exponents_of(views.take(i + 1)));
                    i = i + 1;
                }
                assert(views.take(i as int) =~= views);
            },
            Row::Missing(_) => {},
        }
        out
    }
}

/// The exponents that a formula needs, where there is one.
pub open spec fn maybe_exponents(formula: Option<Formula>) -> Seq<Quantity> {
    match formula {
        Some(formula) => formula.exponents(),
        None => Seq::empty(),
    }
}

/// The exponents that the numbers of some windows need.
pub open spec fn exponents_of(windows: Seq<DraftView>) -> Seq<Quantity>
    decreases windows.len(),
{
    if windows.len() == 0 {
        Seq::empty()
    } else {
        exponents_of(windows.drop_last()) + maybe_exponents(windows.last().remaining_percent)
            + maybe_exponents(windows.last().remaining_amount)
    }
}

/// A row is available exactly where something is left of every window that
/// outlasts a session or holds money, and nothing blocks it.
pub proof fn law_available_rows_have_something_left(
    draft: RowDraftView,
    powers: Seq<Power>,
    now_ms: i64,
)
    ensures
        ({
            let row = connected(draft, powers, now_ms);
            row.availability is Available <==> !draft.blocked && forall|i: int|
                0 <= i < row.windows.len() && (#[trigger] row.windows[i]).lasting()
                    ==> !row.windows[i].used_up()
        }),
{
    let windows = settled_windows(draft.windows, powers);
    if nothing_left(windows) {
        let i = choose|i: int|
            0 <= i < windows.len() && (#[trigger] windows[i]).lasting() && windows[i].used_up();
        assert(connected(draft, powers, now_ms).windows[i].used_up());
    } else {
        assert forall|i: int|
            0 <= i < windows.len() && (#[trigger] windows[i]).lasting() implies !windows[i].used_up() by {
        }
    }
}

/// A moment in milliseconds from a number that may count seconds.
pub open spec fn in_milliseconds(raw: i64) -> i64 {
    if raw < 20_000_000_000 {
        crate::counts::clamped(raw * 1000) as i64
    } else {
        raw
    }
}

/// A product with one thousand, held within 64 bits.
pub fn thousandfold(raw: i64) -> (out: i64)
    ensures
        out == crate::counts::clamped(raw * 1000),
{
    if raw > 9_223_372_036_854_775 {
        i64::MAX
    } else if raw < -9_223_372_036_854_775 {
        i64::MIN
    } else {
        raw * 1000
    }
}

pub fn to_milliseconds(raw: i64) -> (out: i64)
    ensures
        out == in_milliseconds(raw),
{
    if raw < 20_000_000_000 {
        thousandfold(raw)
    } else {
        raw
    }
}

/// The moment of a reset: a number, a text that spells one, or a text in
/// RFC 3339 form.
pub open spec fn reset_moment(value: Option<Json>) -> Option<i64> {
    match value {
        Some(Json::Number { integer: Some(raw), .. }) => Some(in_milliseconds(raw)),
        Some(Json::Text { text, .. }) => text_moment(text@),
        _ => None,
    }
}

/// The moment that a text names, by a number or in RFC 3339 form.
pub open spec fn text_moment(text: Seq<char>) -> Option<i64> {
    match spelled_i64(text) {
        Some(raw) => Some(in_milliseconds(raw)),
        None => rfc3339_ms(text),
    }
}

pub fn text_timestamp(text: &str) -> (out: Option<i64>)
    ensures
        out == text_moment(text@),
{
    match parse_i64(text) {
        Some(raw) => Some(to_milliseconds(raw)),
        None => parse_rfc3339(text),
    }
}

pub fn reset_timestamp(value: Option<&Json>) -> (out: Option<i64>)
    ensures
        out == reset_moment(crate::json::borrowed(value)),
{
    match value {
        Some(Json::Number { integer, .. }) => match integer {
            Some(raw) => Some(to_milliseconds(*raw)),
            None => None,
        },
        Some(Json::Text { text, .. }) => text_timestamp(text.as_str()),
        _ => None,
    }
}

/// The whole seconds until a moment; none once it has passed.
pub open spec fn seconds_until(at_ms: i64, now_ms: i64) -> nat {
    if at_ms > now_ms {
        ((at_ms - now_ms) / 1000) as nat
    } else {
        0
    }
}

/// A span in words: days and hours, hours and minutes, or minutes.
pub open spec fn span_text(seconds: nat) -> Seq<char> {
    let days = seconds / 86_400;
    let hours = (seconds % 86_400) / 3_600;
    let minutes = (seconds % 3_600) / 60;
    if days > 0 {
        decimal(days) + "d "@ + decimal(hours) + "h"@
    } else if hours > 0 {
        decimal(hours) + "h "@ + decimal(minutes) + "m"@
    } else {
        decimal(minutes) + "m"@
    }
}

pub fn whole_seconds_until(at_ms: i64, now_ms: i64) -> (out: u64)
    ensures
        out == seconds_until(at_ms, now_ms),
{
    if at_ms > now_ms {
        let span: i128 = at_ms as i128 - now_ms as i128;
        (span / 1000) as u64
    } else {
        0
    }
}

pub fn reset_duration_text(timestamp_ms: i64, now_ms: i64) -> (out: String)
    ensures
        out@ == span_text(seconds_until(timestamp_ms, now_ms)),
{
    let seconds = whole_seconds_until(timestamp_ms, now_ms);
    let days: u64 = seconds / 86_400;
    let hours: u64 = (seconds % 86_400) / 3_600;
    let minutes: u64 = (seconds % 3_600) / 60;
    if days > 0 {
        let mut out = decimal_text(days);
        out.append("d ");
        out.append(decimal_text(hours).as_str());
        out.append("h");
        out
    } else if hours > 0 {
        let mut out = decimal_text(hours);
        out.append("h ");
        out.append(decimal_text(minutes).as_str());
        out.append("m");
        out
    } else {
        let mut out = decimal_text(minutes);
        out.append("m");
        out
    }
}

/// Credentials that the service rejects are unauthorized; any other failure
/// makes the source unavailable, and an answer leaves it connected.
pub proof fn law_rejected_credentials_are_unauthorized(reply: Reply)
    ensures
        reply is Body ==> reply.health() is Connected,
        reply == Reply::Refused(401) ==> reply.health() is Unauthorized,
        reply == Reply::Refused(403) ==> reply.health() is Unauthorized,
        reply is Failed || reply is Garbled ==> reply.health() is Unavailable,
        reply matches Reply::Refused(code) ==> code != 401 && code != 403
            ==> reply.health() is Unavailable,
{
}

/// A row without an answer shows no windows and says why there is none; whether
/// it can take requests is not known.
pub proof fn law_missing_rows_say_why(
    badge: Badge,
    account_key: Seq<char>,
    account_label: Seq<char>,
    failure: FailureView,
    now_ms: i64,
)
    ensures
        ({
            let row = missing_row(badge, account_key, account_label, failure, now_ms);
            &&& row.windows.len() == 0
            &&& row.diagnostics == seq![failure.detail]
            &&& row.source_health == failure.health
            &&& row.availability is Unknown
            &&& row.collected_at_ms == now_ms
            &&& row.account_key == account_key
            &&& row.account_label == account_label
        }),
{
}

/// An account is asked for only with a token and a way to ask; the row that
/// stands in for the answer says which of them is missing.
pub proof fn law_accounts_are_asked_with_a_token(
    badge: Badge,
    prefix: Seq<char>,
    account_label: Seq<char>,
    token: Option<Seq<char>>,
    absent: Seq<char>,
    can_ask: bool,
    now_ms: i64,
)
    ensures
        ({
            let out = asked(badge, prefix, account_label, token, absent, can_ask, now_ms);
            &&& out is Ok <==> token is Some && can_ask
            &&& out is Ok ==> out->Ok_0 == crate::secrets::key_of(prefix, token->0)
            &&& token is None ==> out->Err_0 is Missing && out->Err_0->Missing_0.diagnostics
                == seq![absent] && out->Err_0->Missing_0.account_key == ""@
            &&& token is Some && !can_ask ==> out->Err_0 is Missing
                && out->Err_0->Missing_0.diagnostics == seq!["HTTP client unavailable"@]
        }),
{
}

/// A connected row keeps what its draft says, with its windows in their order,
/// and was collected now.
pub proof fn law_connected_rows_keep_their_windows(
    draft: RowDraftView,
    powers: Seq<Power>,
    now_ms: i64,
)
    ensures
        ({
            let row = connected(draft, powers, now_ms);
            &&& row.provider_id == draft.provider_id
            &&& row.account_key == draft.account_key
            &&& row.account_label == draft.account_label
            &&& row.plan == draft.plan
            &&& row.source == draft.source
            &&& row.collected_at_ms == now_ms
            &&& row.source_health is Connected
            &&& row.diagnostics == draft.diagnostics
            &&& row.windows.len() == draft.windows.len()
            &&& forall|i: int|
                0 <= i < row.windows.len() ==> {
                    &&& (#[trigger] row.windows[i]).label == draft.windows[i].label
                    &&& row.windows[i].kind == draft.windows[i].kind
                    &&& row.windows[i].metric == draft.windows[i].metric
                    &&& row.windows[i].resets_at_ms == draft.windows[i].resets_at_ms
                    &&& row.windows[i].currency == draft.windows[i].currency
                    &&& row.windows[i].estimated == draft.windows[i].estimated
                }
            &&& draft.blocked ==> row.availability is AgentBlocked
        }),
{
}

/// A moment before the year 2603 in seconds is taken as seconds, any other
/// number as milliseconds.
pub proof fn law_small_moments_are_seconds(raw: i64)
    ensures
        0 <= raw < 20_000_000_000 ==> in_milliseconds(raw) == raw * 1000,
        raw >= 20_000_000_000 ==> in_milliseconds(raw) == raw,
{
}

/// The words for a span are those of its two largest units, and add up to the
/// span to the minute, or to the hour once it takes days.
pub proof fn law_span_in_words_adds_up(days: nat, hours: nat, minutes: nat, seconds: nat)
    requires
        hours < 24,
        minutes < 60,
        seconds < 60,
    ensures
        ({
            let span = (days * 86_400 + hours * 3_600 + minutes * 60 + seconds) as nat;
            &&& days > 0 ==> span_text(span) == decimal(days) + "d "@ + decimal(hours) + "h"@
            &&& days == 0 && hours > 0 ==> span_text(span) == decimal(hours) + "h "@ + decimal(
                minutes,
            ) + "m"@
            &&& days == 0 && hours == 0 ==> span_text(span) == decimal(minutes) + "m"@
        }),
{
    let span = days * 86_400 + hours * 3_600 + minutes * 60 + seconds;
    assert(span / 86_400 == days) by (nonlinear_arith)
        requires
            span == days * 86_400 + hours * 3_600 + minutes * 60 + seconds,
            hours < 24,
            minutes < 60,
            seconds < 60,
    ;
    assert(span % 86_400 == hours * 3_600 + minutes * 60 + seconds);
    assert((hours * 3_600 + minutes * 60 + seconds) / 3_600 == hours);
    assert(span % 3_600 == minutes * 60 + seconds) by (nonlinear_arith)
        requires
            span == days * 86_400 + hours * 3_600 + minutes * 60 + seconds,
            minutes < 60,
            seconds < 60,
    ;
    assert((minutes * 60 + seconds) / 60 == minutes);
}

/// The seconds until a moment are whole ones, and none once it has passed.
pub proof fn law_seconds_until_a_moment(at_ms: i64, now_ms: i64)
    ensures
        at_ms <= now_ms ==> seconds_until(at_ms, now_ms) == 0,
        at_ms > now_ms ==> seconds_until(at_ms, now_ms) * 1000 <= at_ms - now_ms < seconds_until(
            at_ms,
            now_ms,
        ) * 1000 + 1000,
{
}

/// A provider is wanted where none was selected, where all were, or where it was
/// selected by its name.
pub proof fn law_selected_providers_are_wanted(
    options: CollectorOptions,
    selected: Vec<String>,
    provider: Seq<char>,
    i: int,
)
    ensures
        options.providers is None ==> options.wants(provider),
        options.providers == Some(selected) && 0 <= i < selected@.len() && (selected@[i]@
            == provider || selected@[i]@ == "all"@) ==> options.wants(provider),
        options.providers == Some(selected) && (forall|k: int|
            0 <= k < selected@.len() ==> (#[trigger] selected@[k])@ != provider && selected@[k]@
                != "all"@) ==> !options.wants(provider),
{
    if 0 <= i < selected@.len() {
        assert(texts(selected@)[i] == selected@[i]@);
    }
    assert forall|k: int| 0 <= k < selected@.len() implies #[trigger] texts(selected@)[k]
        == selected@[k]@ by {}
}

} // verus!
