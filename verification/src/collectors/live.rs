//! The rows of one refresh of all providers.

use vstd::prelude::*;

use crate::collectors::{distinct, drop_repeats, lemma_distinct, lists, CollectorOptions};
use crate::limits::{provider_views, window_views, Availability, LimitWindow, ProviderSnapshot};
use crate::limits::{ProviderView, SourceHealth};
use crate::registry::{display_name, is_known, is_native, known, law_provider_ids_are_distinct};
use crate::registry::{native, shown_name, ALL_PROVIDER_IDS};
use crate::text::texts;

verus! {

/// What the collectors gave, each provider by itself.
#[derive(Debug)]
pub struct LiveRows {
    pub openrouter: Vec<ProviderSnapshot>,
    pub deepseek: Vec<ProviderSnapshot>,
    pub modal: Vec<ProviderSnapshot>,
    pub vast: Vec<ProviderSnapshot>,
    pub cursor: Vec<ProviderSnapshot>,
    pub claude: Vec<ProviderSnapshot>,
    pub codex: Vec<ProviderSnapshot>,
    pub antigravity: Vec<ProviderSnapshot>,
    pub grok: Vec<ProviderSnapshot>,
    pub commandcode: Vec<ProviderSnapshot>,
    pub minimax: Vec<ProviderSnapshot>,
    pub zai: Vec<ProviderSnapshot>,
    pub zaiteam: Vec<ProviderSnapshot>,
    pub copilot: Vec<ProviderSnapshot>,
    pub qoder: Vec<ProviderSnapshot>,
    pub trae: Vec<ProviderSnapshot>,
    pub kiro: Vec<ProviderSnapshot>,
    pub ollama: Vec<ProviderSnapshot>,
}

/// Moves rows behind other rows.
pub fn append_rows(out: &mut Vec<ProviderSnapshot>, rows: Vec<ProviderSnapshot>)
    ensures
        provider_views(final(out)@) == provider_views(old(out)@) + provider_views(rows@),
{
    let ghost before = out@;
    let ghost added = rows@;
    let mut rows = rows;
    out.append(&mut rows);
    assert(provider_views(out@) =~= provider_views(before) + provider_views(added));
}

impl LiveRows {
    /// All rows, in the order in which the providers are listed.
    pub open spec fn all(self) -> Seq<ProviderView> {
        provider_views(self.openrouter@) + provider_views(self.deepseek@) + provider_views(self.modal@) + provider_views(self.vast@) + provider_views(self.cursor@) + provider_views(self.claude@) + provider_views(self.codex@) + provider_views(self.antigravity@) + provider_views(self.grok@) + provider_views(self.commandcode@) + provider_views(self.minimax@) + provider_views(self.zai@) + provider_views(self.zaiteam@) + provider_views(self.copilot@) + provider_views(self.qoder@) + provider_views(self.trae@) + provider_views(self.kiro@) + provider_views(self.ollama@)
    }

    fn into_rows(self) -> (out: Vec<ProviderSnapshot>)
        ensures
            provider_views(out@) == self.all(),
    {
        let mut out: Vec<ProviderSnapshot> = Vec::new();
        assert(provider_views(out@) =~= Seq::empty());
        append_rows(&mut out, self.openrouter);
        append_rows(&mut out, self.deepseek);
        append_rows(&mut out, self.modal);
        append_rows(&mut out, self.vast);
        append_rows(&mut out, self.cursor);
        append_rows(&mut out, self.claude);
        append_rows(&mut out, self.codex);
        append_rows(&mut out, self.antigravity);
        append_rows(&mut out, self.grok);
        append_rows(&mut out, self.commandcode);
        append_rows(&mut out, self.minimax);
        append_rows(&mut out, self.zai);
        append_rows(&mut out, self.zaiteam);
        append_rows(&mut out, self.copilot);
        append_rows(&mut out, self.qoder);
        append_rows(&mut out, self.trae);
        append_rows(&mut out, self.kiro);
        append_rows(&mut out, self.ollama);
        assert(provider_views(out@) =~= self.all());
        out
    }
}

/// The row of a provider that is known but not collected here.
pub open spec fn placeholder(id: Seq<char>, now_ms: i64) -> ProviderView {
    ProviderView {
        provider_id: id,
        account_key: Seq::empty(),
        account_label: shown_name(id),
        plan: Seq::empty(),
        source: "registry"@,
        collected_at_ms: now_ms,
        source_health: SourceHealth::Unavailable,
        availability: Availability::Unknown,
        windows: Seq::empty(),
        diagnostics: seq!["Native adapter pending"@],
        hue: 245,
    }
}

fn pending_row(id: &str, now_ms: i64) -> (out: ProviderSnapshot)
    ensures
        out@ == placeholder(id@, now_ms),
{
    let mut diagnostics: Vec<String> = Vec::new();
    diagnostics.push("Native adapter pending".to_owned());
    assert(texts(diagnostics@) =~= seq!["Native adapter pending"@]);
    let windows: Vec<LimitWindow> = Vec::new();
    assert(window_views(windows@) =~= Seq::empty());
    ProviderSnapshot {
        provider_id: id.to_owned(),
        account_key: String::new(),
        account_label: display_name(id).to_owned(),
        plan: String::new(),
        source: "registry".to_owned(),
        collected_at_ms: now_ms,
        source_health: SourceHealth::Unavailable,
        availability: Availability::Unknown,
        windows,
        diagnostics,
        hue: 245,
    }
}

/// The known providers among the names that are not collected here.
pub open spec fn pending(names: Seq<Seq<char>>, now_ms: i64) -> Seq<ProviderView>
    decreases names.len(),
{
    if names.len() == 0 {
        Seq::empty()
    } else {
        let before = pending(names.drop_last(), now_ms);
        if known(names.last()) && !native(names.last()) {
            before.push(placeholder(names.last(), now_ms))
        } else {
            before
        }
    }
}

/// All known providers.
pub open spec fn all_ids() -> Seq<Seq<char>> {
    ALL_PROVIDER_IDS@.map_values(|id: &'static str| id@)
}

/// The rows for providers that were asked for and are not collected here.
pub open spec fn pending_rows(options: CollectorOptions, now_ms: i64) -> Seq<ProviderView> {
    match options.providers {
        Some(selected) => if texts(selected@).contains("all"@) {
            pending(all_ids(), now_ms)
        } else {
            pending(distinct(texts(selected@)), now_ms)
        },
        None => Seq::empty(),
    }
}

fn push_pending(out: &mut Vec<ProviderSnapshot>, id: &str, now_ms: i64)
    ensures
        provider_views(final(out)@) == if known(id@) && !native(id@) {
            provider_views(old(out)@).push(placeholder(id@, now_ms))
        } else {
            provider_views(old(out)@)
        },
{
    let ghost before = out@;
    if is_known(id) && !is_native(id) {
        let row = pending_row(id, now_ms);
        let ghost view = row@;
        out.push(row);
        assert(provider_views(out@) =~= provider_views(before).push(view));
    }
}

fn all_pending(now_ms: i64) -> (out: Vec<ProviderSnapshot>)
    ensures
        provider_views(out@) == pending(all_ids(), now_ms),
{
    let ids = ALL_PROVIDER_IDS;
    let ghost all = all_ids();
    let mut out: Vec<ProviderSnapshot> = Vec::new();
    let mut i: usize = 0;
    assert(provider_views(out@) =~= Seq::empty());
    assert(all.take(0) =~= Seq::empty());
    while i < ids.len()
        invariant
            i <= ids@.len(),
            ids@ == ALL_PROVIDER_IDS@,
            all == all_ids(),
            provider_views(out@) == pending(all.take(i as int), now_ms),
        decreases ids@.len() - i,
    {
        proof {
            assert(all.take(i + 1).drop_last() =~= all.take(i as int));
            assert(all.take(i + 1).last() == ids@[i as int]@);
        }
        push_pending(&mut out, ids[i], now_ms);
        i = i + 1;
    }
    assert(all.take(i as int) =~= all);
    out
}

fn selected_pending(selected: &Vec<String>, now_ms: i64) -> (out: Vec<ProviderSnapshot>)
    ensures
        provider_views(out@) == pending(distinct(texts(selected@)), now_ms),
{
    let selected = drop_repeats(selected);
    let ghost all = texts(selected@);
    let mut out: Vec<ProviderSnapshot> = Vec::new();
    let mut i: usize = 0;
    assert(provider_views(out@) =~= Seq::empty());
    assert(all.take(0) =~= Seq::empty());
    while i < selected.len()
        invariant
            i <= selected@.len(),
            all == texts(selected@),
            provider_views(out@) == pending(all.take(i as int), now_ms),
        decreases selected@.len() - i,
    {
        proof {
            assert(all.take(i + 1).drop_last() =~= all.take(i as int));
            assert(all.take(i + 1).last() == selected@[i as int]@);
        }
        push_pending(&mut out, selected[i].as_str(), now_ms);
        i = i + 1;
    }
    assert(all.take(i as int) =~= all);
    out
}

/// The rows that are shown when nothing was asked for by name.
pub open spec fn shown(rows: Seq<ProviderView>) -> Seq<ProviderView> {
    rows.filter(|row: ProviderView| row.shown_by_default())
}

/// Keeps the rows that are shown by default.
pub fn keep_visible(rows: Vec<ProviderSnapshot>) -> (out: Vec<ProviderSnapshot>)
    ensures
        provider_views(out@) == shown(provider_views(rows@)),
{
    let ghost all = provider_views(rows@);
    let mut out: Vec<ProviderSnapshot> = Vec::new();
    let mut i: usize = 0;
    let ghost wanted = |row: ProviderView| row.shown_by_default();
    proof {
        reveal(Seq::filter);
        assert(all.take(0) =~= Seq::empty());
        assert(provider_views(out@) =~= Seq::empty());
    }
    while i < rows.len()
        invariant
            i <= rows@.len(),
            all == provider_views(rows@),
            wanted == (|row: ProviderView| row.shown_by_default()),
            provider_views(out@) == all.take(i as int).filter(wanted),
        decreases rows@.len() - i,
    {
        proof {
            reveal(Seq::filter);
            assert(all.take(i + 1).drop_last() =~= all.take(i as int));
            assert(all.take(i + 1).last() == rows@[i as int]@);
        }
        let ghost before = out@;
        if rows[i].visible_by_default() {
            let row = rows[i].clone();
            let ghost view = row@;
            out.push(row);
            assert(provider_views(out@) =~= provider_views(before).push(view));
        }
        i = i + 1;
    }
    assert(all.take(i as int) =~= all);
    out
}

/// The rows of providers that were asked for.
pub open spec fn wanted_rows(options: CollectorOptions, rows: Seq<ProviderView>) -> Seq<
    ProviderView,
> {
    rows.filter(|row: ProviderView| options.wants(row.provider_id))
}

fn keep_wanted(options: &CollectorOptions, rows: Vec<ProviderSnapshot>) -> (out: Vec<
    ProviderSnapshot,
>)
    ensures
        provider_views(out@) == wanted_rows(*options, provider_views(rows@)),
{
    let ghost all = provider_views(rows@);
    let ghost wanted = |row: ProviderView| options.wants(row.provider_id);
    let mut out: Vec<ProviderSnapshot> = Vec::new();
    let mut i: usize = 0;
    proof {
        reveal(Seq::filter);
        assert(all.take(0) =~= Seq::empty());
        assert(provider_views(out@) =~= Seq::empty());
    }
    while i < rows.len()
        invariant
            i <= rows@.len(),
            all == provider_views(rows@),
            wanted == (|row: ProviderView| options.wants(row.provider_id)),
            provider_views(out@) == all.take(i as int).filter(wanted),
        decreases rows@.len() - i,
    {
        proof {
            reveal(Seq::filter);
            assert(all.take(i + 1).drop_last() =~= all.take(i as int));
            assert(all.take(i + 1).last() == rows@[i as int]@);
        }
        let ghost before = out@;
        if options.includes(rows[i].provider_id.as_str()) {
            let row = rows[i].clone();
            let ghost view = row@;
            out.push(row);
            assert(provider_views(out@) =~= provider_views(before).push(view));
        }
        i = i + 1;
    }
    assert(all.take(i as int) =~= all);
    out
}

/// The rows of a refresh: all that were collected of the providers asked for
/// and those still to come, and without a selection only those that are shown
/// by default.
pub open spec fn refreshed(options: CollectorOptions, rows: LiveRows, now_ms: i64) -> Seq<
    ProviderView,
> {
    let all = wanted_rows(options, rows.all()) + pending_rows(options, now_ms);
    if options.providers is Some {
        all
    } else {
        shown(all)
    }
}

pub fn collect_live_limits(options: &CollectorOptions, rows: LiveRows, now_ms: i64) -> (out: Vec<
    ProviderSnapshot,
>)
    ensures
        provider_views(out@) == refreshed(*options, rows, now_ms),
        forall|i: int| 0 <= i < out@.len() ==> options.wants((#[trigger] out@[i]).provider_id@),
{
    let ghost collected = rows.all();
    let mut all = keep_wanted(options, rows.into_rows());
    let out = match &options.providers {
        Some(selected) => {
            let later = if lists(selected, "all") {
                all_pending(now_ms)
            } else {
                selected_pending(selected, now_ms)
            };
            append_rows(&mut all, later);
            all
        },
        None => {
            assert(wanted_rows(*options, collected) + pending_rows(*options, now_ms) =~= wanted_rows(
                *options,
                collected,
            ));
            keep_visible(all)
        },
    };
    proof {
        let views = provider_views(out@);
        assert forall|i: int| 0 <= i < out@.len() implies options.wants(
            (#[trigger] out@[i]).provider_id@,
        ) by {
            assert(views[i] == out@[i]@);
            law_refresh_keeps_to_the_selection(*options, rows, now_ms, views[i]);
        }
    }
    out
}

/// Every row of a refresh is of a provider that was asked for.
pub proof fn law_refresh_keeps_to_the_selection(
    options: CollectorOptions,
    rows: LiveRows,
    now_ms: i64,
    row: ProviderView,
)
    requires
        refreshed(options, rows, now_ms).contains(row),
    ensures
        options.wants(row.provider_id),
{
    let wanted = |row: ProviderView| options.wants(row.provider_id);
    let collected = wanted_rows(options, rows.all());
    let later = pending_rows(options, now_ms);
    let all = collected + later;
    if options.providers is Some {
        let selected = texts(options.providers->0@);
        let i = choose|i: int| 0 <= i < all.len() && all[i] == row;
        if i < collected.len() {
            rows.all().lemma_filter_pred(wanted, i);
        } else {
            assert(later[i - collected.len()] == row);
            assert(later.contains(row));
            if !selected.contains("all"@) {
                lemma_pending(distinct(selected), now_ms, row);
                lemma_distinct(selected);
            }
        }
    }
}

/// With a selection no collected row of a provider asked for is hidden.
pub proof fn law_selection_hides_nothing(
    options: CollectorOptions,
    rows: LiveRows,
    now_ms: i64,
    row: ProviderView,
)
    requires
        options.providers is Some,
        rows.all().contains(row),
        options.wants(row.provider_id),
    ensures
        refreshed(options, rows, now_ms).contains(row),
{
    let wanted = |row: ProviderView| options.wants(row.provider_id);
    let collected = wanted_rows(options, rows.all());
    let i = choose|i: int| 0 <= i < rows.all().len() && rows.all()[i] == row;
    rows.all().lemma_filter_contains(wanted, i);
    let k = choose|k: int| 0 <= k < collected.len() && collected[k] == row;
    assert(refreshed(options, rows, now_ms)[k] == row);
}

/// The row of a provider that was asked for and is not collected here.
spec fn pends(id: Seq<char>) -> spec_fn(ProviderView) -> bool {
    |row: ProviderView| row.source == "registry"@ && row.provider_id == id
}

/// A placeholder stands for one of the names.
proof fn lemma_pending(names: Seq<Seq<char>>, now_ms: i64, row: ProviderView)
    requires
        pending(names, now_ms).contains(row),
    ensures
        names.contains(row.provider_id),
        row == placeholder(row.provider_id, now_ms),
    decreases names.len(),
{
    let rest = names.drop_last();
    let before = pending(rest, now_ms);
    let k = choose|k: int| 0 <= k < pending(names, now_ms).len() && pending(names, now_ms)[k] == row;
    if k < before.len() {
        assert(before[k] == row);
        lemma_pending(rest, now_ms, row);
        let i = choose|i: int| 0 <= i < rest.len() && rest[i] == row.provider_id;
        assert(names[i] == row.provider_id);
    } else {
        assert(names[names.len() - 1] == row.provider_id);
    }
}

/// Among distinct names each has at most one placeholder.
proof fn lemma_pending_once(names: Seq<Seq<char>>, now_ms: i64, id: Seq<char>)
    requires
        names.no_duplicates(),
    ensures
        pending(names, now_ms).filter(pends(id)) == if names.contains(id) && known(id) && !native(id) {
            seq![placeholder(id, now_ms)]
        } else {
            Seq::empty()
        },
    decreases names.len(),
{
    reveal(Seq::filter);
    if names.len() > 0 {
        let rest = names.drop_last();
        let last = names.last();
        let before = pending(rest, now_ms);
        lemma_pending_once(rest, now_ms, id);
        if rest.contains(id) {
            let i = choose|i: int| 0 <= i < rest.len() && rest[i] == id;
            assert(names[i] == id);
            assert(last != id);
        } else if names.contains(id) {
            let i = choose|i: int| 0 <= i < names.len() && names[i] == id;
            assert(i == names.len() - 1) by {
                if i < rest.len() {
                    assert(rest[i] == id);
                }
            }
        } else {
            assert(names[names.len() - 1] == last);
        }
        if last == id {
            assert(names[names.len() - 1] == id);
        }
        if known(last) && !native(last) {
            let grown = before.push(placeholder(last, now_ms));
            assert(grown.drop_last() =~= before);
            assert(pending(names, now_ms) == grown);
        }
        assert(pending(names, now_ms).filter(pends(id)) =~= if names.contains(id) && known(id)
            && !native(id) {
            seq![placeholder(id, now_ms)]
        } else {
            Seq::empty()
        });
    }
}

/// A provider that was asked for and is not collected here has exactly one
/// placeholder, as long as no collector passes one off as its own.
pub proof fn law_selected_providers_pend_once(
    options: CollectorOptions,
    rows: LiveRows,
    now_ms: i64,
    id: Seq<char>,
)
    requires
        options.providers is Some,
        options.wants(id),
        known(id),
        !native(id),
        forall|i: int| 0 <= i < rows.all().len() ==> (#[trigger] rows.all()[i]).source != "registry"@,
    ensures
        refreshed(options, rows, now_ms).filter(
            |row: ProviderView| row.source == "registry"@ && row.provider_id == id,
        ) == seq![placeholder(id, now_ms)],
{
    let collected = wanted_rows(options, rows.all());
    let later = pending_rows(options, now_ms);
    let selected = texts(options.providers->0@);
    let wanted = |row: ProviderView| options.wants(row.provider_id);
    lemma_distinct(selected);
    if selected.contains("all"@) {
        let all = all_ids();
        assert(all.no_duplicates()) by {
            assert forall|i: int, j: int| 0 <= i < all.len() && 0 <= j < all.len() && i != j implies
                all[i] != all[j] by {
                if i < j {
                    law_provider_ids_are_distinct(i, j);
                } else {
                    law_provider_ids_are_distinct(j, i);
                }
            }
        }
        let i = choose|i: int|
            0 <= i < ALL_PROVIDER_IDS@.len() && #[trigger] ALL_PROVIDER_IDS@[i]@ == id;
        assert(all[i] == id);
        lemma_pending_once(all, now_ms, id);
    } else {
        lemma_pending_once(distinct(selected), now_ms, id);
    }
    Seq::filter_distributes_over_add(collected, later, pends(id));
    assert(collected.filter(pends(id)) =~= Seq::empty()) by {
        if collected.filter(pends(id)).len() > 0 {
            let row = collected.filter(pends(id))[0];
            collected.lemma_filter_pred(pends(id), 0);
            assert(collected.filter(pends(id)).contains(row));
            lemma_filtered_is_from(collected, pends(id), row);
            lemma_filtered_is_from(rows.all(), wanted, row);
            let i = choose|i: int| 0 <= i < rows.all().len() && rows.all()[i] == row;
            assert(rows.all()[i].source != "registry"@);
        }
    }
    assert(refreshed(options, rows, now_ms) == collected + later);
    assert(Seq::<ProviderView>::empty() + seq![placeholder(id, now_ms)] =~= seq![
        placeholder(id, now_ms),
    ]);
}

/// A refresh without a selection shows no row that is hidden by default, and
/// hides no other.
pub proof fn law_default_refresh_shows_visible_rows(
    options: CollectorOptions,
    rows: LiveRows,
    now_ms: i64,
    row: ProviderView,
)
    requires
        options.providers is None,
    ensures
        refreshed(options, rows, now_ms).contains(row) <==> rows.all().contains(row)
            && row.shown_by_default(),
{
    let every = |row: ProviderView| options.wants(row.provider_id);
    let all = wanted_rows(options, rows.all()) + pending_rows(options, now_ms);
    assert(all =~= wanted_rows(options, rows.all()));
    let wanted = |row: ProviderView| row.shown_by_default();
    broadcast use vstd::seq_lib::group_filter_ensures;

    if rows.all().contains(row) && row.shown_by_default() {
        let i = choose|i: int| 0 <= i < rows.all().len() && rows.all()[i] == row;
        assert(every(rows.all()[i]));
        assert(all.contains(rows.all()[i]));
        let j = choose|j: int| 0 <= j < all.len() && all[j] == row;
        assert(wanted(all[j]));
        assert(all.filter(wanted).contains(all[j]));
    }
    if all.filter(wanted).contains(row) {
        let k = choose|k: int| 0 <= k < all.filter(wanted).len() && all.filter(wanted)[k] == row;
        assert(wanted(all.filter(wanted)[k]));
        lemma_filtered_is_from(all, wanted, row);
        lemma_filtered_is_from(rows.all(), every, row);
    }
}

proof fn lemma_filtered_is_from(
    rows: Seq<ProviderView>,
    wanted: spec_fn(ProviderView) -> bool,
    row: ProviderView,
)
    requires
        rows.filter(wanted).contains(row),
    ensures
        rows.contains(row),
    decreases rows.len(),
{
    reveal(Seq::filter);
    if rows.len() > 0 {
        let rest = rows.drop_last();
        if row == rows.last() {
            assert(rows[rows.len() - 1] == row);
        } else {
            assert(rest.filter(wanted).contains(row)) by {
                let k = choose|k: int|
                    0 <= k < rows.filter(wanted).len() && rows.filter(wanted)[k] == row;
                assert(k < rest.filter(wanted).len());
                assert(rest.filter(wanted)[k] == row);
            }
            lemma_filtered_is_from(rest, wanted, row);
            let i = choose|i: int| 0 <= i < rest.len() && rest[i] == row;
            assert(rows[i] == row);
        }
    }
}

} // verus!
