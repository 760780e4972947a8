//! Local usage: the records of all sources together.

use vstd::prelude::*;

use crate::sessions::{dated_sessions, enrich_antigravity_timestamps, named_records, span_views};
use crate::sessions::{tag_antigravity_account_records, Conversation, SessionSpan};
use crate::text::maybe_str;
use crate::usage::{clean_record, cleaned, collect_commandcode_v3_records};
use crate::usage::{collect_cursor_cache_records, cursor_rows, history_records, record_views};
use crate::usage::{HistoryFile, RecordView, TOKSCALE_REVISION, UsageRecord, UsageSnapshot};

verus! {

/// What the files of the assistants hold.
#[derive(Debug)]
pub struct Sources {
    /// The records that the session parsers found.
    pub parsed: Vec<UsageRecord>,
    pub processing_time_ms: u32,
    pub histories: Vec<HistoryFile>,
    /// The records of the Cursor cache.
    pub cached: Vec<UsageRecord>,
    pub conversations: Vec<Conversation>,
    pub spans: Vec<SessionSpan>,
}

pub open spec fn all_cleaned(records: Seq<RecordView>) -> Seq<RecordView> {
    records.map_values(|record: RecordView| cleaned(record))
}

pub open spec fn with_histories(
    records: Seq<RecordView>,
    files: Seq<HistoryFile>,
    since: Option<Seq<char>>,
) -> Seq<RecordView> {
    records + history_records(records, files, since)
}

/// The cache counts where no record comes from the client itself.
pub open spec fn with_cursor_cache(
    records: Seq<RecordView>,
    cached: Seq<RecordView>,
    since: Option<Seq<char>>,
) -> Seq<RecordView> {
    if exists|i: int| 0 <= i < records.len() && (#[trigger] records[i]).client == "cursor"@ {
        records
    } else {
        records + cursor_rows(cached, since)
    }
}

impl Sources {
    /// The records together, dated, and counted for the accounts that made them.
    pub open spec fn records(self, since: Option<Seq<char>>) -> Seq<RecordView> {
        let parsed = all_cleaned(record_views(self.parsed@));
        let known = with_cursor_cache(
            with_histories(parsed, self.histories@, since),
            record_views(self.cached@),
            since,
        );
        named_records(dated_sessions(known, self.conversations@), span_views(self.spans@))
    }
}

fn clean_all(records: Vec<UsageRecord>) -> (out: Vec<UsageRecord>)
    ensures
        record_views(out@) == all_cleaned(record_views(records@)),
{
    let ghost views = record_views(records@);
    let mut out: Vec<UsageRecord> = Vec::new();
    for record in it: records
        invariant
            views == record_views(it.seq()),
            out@.len() == it.index(),
            forall|k: int| 0 <= k < out@.len() ==> (#[trigger] out@[k])@ == cleaned(views[k]),
    {
        let ghost n = it.index() as int;
        assert(views[n] == record@);
        out.push(clean_record(record));
    }
    assert(record_views(out@) =~= all_cleaned(views));
    out
}

/// The local usage since a day, or all of it.
pub fn collect_local_usage(sources: Sources, since: Option<&str>) -> (out: UsageSnapshot)
    ensures
        record_views(out.records@) == sources.records(maybe_str(since)),
        out.processing_time_ms == sources.processing_time_ms,
        out.tokscale_revision@ == TOKSCALE_REVISION@,
{
    let ghost given = sources;
    let ghost from = maybe_str(since);
    let mut records = clean_all(sources.parsed);
    collect_commandcode_v3_records(&mut records, &sources.histories, since);
    let ghost known = records@;
    proof {
        assert forall|i: int| 0 <= i < known.len() implies #[trigger] record_views(known)[i].client
            == known[i].client@ by {}
        if exists|i: int|
            0 <= i < record_views(known).len() && (#[trigger] record_views(known)[i]).client
                == "cursor"@ {
            let i = choose|i: int|
                0 <= i < record_views(known).len() && (#[trigger] record_views(known)[i]).client
                    == "cursor"@;
            assert(known[i].client@ == "cursor"@);
        }
        if exists|i: int| 0 <= i < known.len() && (#[trigger] known[i]).client@ == "cursor"@ {
            let i = choose|i: int| 0 <= i < known.len() && (#[trigger] known[i]).client@ == "cursor"@;
            assert(record_views(known)[i].client == "cursor"@);
        }
    }
    collect_cursor_cache_records(&mut records, sources.cached, since);
    assert(record_views(records@) == with_cursor_cache(
        record_views(known),
        record_views(given.cached@),
        from,
    ));
    enrich_antigravity_timestamps(&mut records, &sources.conversations);
    tag_antigravity_account_records(&mut records, &sources.spans);
    UsageSnapshot {
        records,
        processing_time_ms: sources.processing_time_ms,
        tokscale_revision: TOKSCALE_REVISION.to_owned(),
    }
}

/// The cached records of Cursor are added only where no record of it was parsed.
pub proof fn law_parsed_cursor_records_count_first(
    records: Seq<RecordView>,
    cached: Seq<RecordView>,
    since: Option<Seq<char>>,
    i: int,
)
    ensures
        0 <= i < records.len() && records[i].client == "cursor"@ ==> with_cursor_cache(
            records,
            cached,
            since,
        ) == records,
        (forall|k: int| 0 <= k < records.len() ==> (#[trigger] records[k]).client != "cursor"@)
            ==> with_cursor_cache(records, cached, since) == records + cursor_rows(cached, since),
{
}

} // verus!
