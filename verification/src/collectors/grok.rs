//! Grok: billing over the command's RPC and over gRPC-web.

use vstd::prelude::*;
use vstd::utf8::{decode_utf8, valid_utf8};

use crate::collectors::{answered, answered_row, draft_views, maybe_draft, missing, missing_row};
use crate::collectors::{unavailable, unavailable_for, Badge, DraftView, Row, RowView, WindowDraft};
use crate::collectors::claude::after_prefix;
use crate::formula::{given, left_of, rest_of_hundred, share_of, Formula, Power};
use crate::json::{at_either, borrowed, get_either, held_under, lemma_held_under, measured_in};
use crate::json::{number_in, or_at, or_get, said_in, str_in, text_in, whole_in, Json};
use crate::limits::WindowKind;
use crate::proto::{lemma_varint_len, read_varint_at, varint_at};
use crate::quantity::{Quantity, ZERO};
use crate::secrets::{account_key, key_of};
use crate::text::{chars_of, has_prefix, lines, lines_of, maybe_text, same, slice_text, starts_with};
use crate::text::{texts, trim, trimmed};

verus! {

/// The first message to the command.
pub const INITIALIZE: &'static str =
    "{\"jsonrpc\":\"2.0\",\"id\":1,\"method\":\"initialize\",\"params\":{\"protocolVersion\":\"1\",\"clientCapabilities\":{\"fs\":{\"readTextFile\":false,\"writeTextFile\":false},\"terminal\":false}}}\n";

/// The message that asks for the billing state.
pub const ASK_BILLING: &'static str =
    "{\"jsonrpc\":\"2.0\",\"id\":2,\"method\":\"x.ai/billing\",\"params\":{}}\n";

/// What is done after a message from the command.
#[derive(Debug)]
pub enum RpcStep<'a> {
    /// Read the next message.
    Wait,
    /// Send [`ASK_BILLING`], then read the next message.
    AskBilling,
    /// The billing state.
    Billing(&'a Json),
    /// Give up.
    Fail(&'static str),
}

pub open spec fn is_object(value: Option<Json>) -> bool {
    match value {
        Some(value) => value.entries() is Some,
        None => false,
    }
}

/// The command is asked for the billing state once it is initialized, and the
/// answer to that question ends the exchange. An error ends it at once.
pub fn grok_rpc_step<'a>(message: &'a Json, initialized: bool) -> (out: RpcStep<'a>)
    ensures
        match out {
            RpcStep::Fail(reason) => {
                ||| message.at("error"@) is Some && reason@ == "Grok RPC rejected request"@
                ||| message.at("error"@) is None && whole_in(message.at("id"@)) == Some(2i64)
                    && !is_object(message.at("result"@)) && reason@
                    == "Grok billing response missing result"@
            },
            RpcStep::AskBilling => message.at("error"@) is None && whole_in(message.at("id"@))
                == Some(1i64) && !initialized,
            RpcStep::Billing(result) => message.at("error"@) is None && whole_in(message.at("id"@))
                == Some(2i64) && message.at("result"@) == Some(*result) && is_object(Some(*result)),
            RpcStep::Wait => message.at("error"@) is None && whole_in(message.at("id"@)) != Some(
                2i64,
            ) && (whole_in(message.at("id"@)) == Some(1i64) ==> initialized),
        },
{
    if message.get("error").is_some() {
        return RpcStep::Fail("Grok RPC rejected request");
    }
    let id = crate::json::i64_in(message.get("id"));
    match id {
        Some(1) => if !initialized {
            RpcStep::AskBilling
        } else {
            RpcStep::Wait
        },
        Some(2) => match message.get("result") {
            Some(result) => if result.as_object().is_some() {
                RpcStep::Billing(result)
            } else {
                RpcStep::Fail("Grok billing response missing result")
            },
            None => RpcStep::Fail("Grok billing response missing result"),
        },
        _ => RpcStep::Wait,
    }
}

/// The object with the billing state.
pub open spec fn billing_config(payload: Json) -> Json {
    match payload.at("config"@) {
        Some(config) => if config.entries() is Some {
            config
        } else {
            payload
        },
        None => payload,
    }
}

pub open spec fn billing_used_percent(config: Json) -> Option<Quantity> {
    match measured_in(at_either(config, "creditUsagePercent"@, "credit_usage_percent"@)) {
        Some(used) => Some(used),
        None => measured_in(at_either(config, "usedPercent"@, "used_percent"@)),
    }
}

pub open spec fn billing_reset(config: Json) -> Option<Seq<char>> {
    match at_either(config, "currentPeriod"@, "current_period"@) {
        Some(period) => said_in(
            or_at(
                at_either(period, "end"@, "billingPeriodEnd"@),
                period,
                "billing_period_end"@,
            ),
        ),
        None => None,
    }
}

pub open spec fn billing_used(config: Json) -> Formula {
    match measured_in(at_either(config, "used"@, "totalUsed"@)) {
        Some(used) => Formula::Given(used),
        None => Formula::of(ZERO),
    }
}

/// The window of a billing state: a weekly share where one is told, else what
/// is left of a positive monthly limit.
pub open spec fn billing_window(payload: Json) -> Option<DraftView> {
    let config = billing_config(payload);
    match billing_used_percent(config) {
        Some(used) => Some(
            DraftView::quota(
                "Weekly"@,
                WindowKind::Weekly,
                Some(Formula::rest_of_hundred(Formula::Given(used))),
                None,
                billing_reset(config),
            ),
        ),
        None => match measured_in(config.at("monthlyLimit"@)) {
            Some(limit) => if (Quantity { bits: ZERO }).below(limit) {
                Some(
                    DraftView::quota(
                        "Monthly"@,
                        WindowKind::Monthly,
                        Some(
                            Formula::share(
                                Formula::left(Formula::Given(limit), billing_used(config)),
                                Formula::Given(limit),
                            ),
                        ),
                        None,
                        billing_reset(config),
                    ),
                )
            } else {
                None
            },
            None => None,
        },
    }
}

pub fn grok_billing_window(payload: &Json) -> (out: Option<WindowDraft>)
    ensures
        maybe_draft(out) == billing_window(*payload),
{
    let config = match payload.get("config") {
        Some(config) => if config.as_object().is_some() {
            config
        } else {
            payload
        },
        None => payload,
    };
    let used_percent = match number_in(
        get_either(config, "creditUsagePercent", "credit_usage_percent"),
    ) {
        Some(used) => Some(used),
        None => number_in(get_either(config, "usedPercent", "used_percent")),
    };
    let reset = match get_either(config, "currentPeriod", "current_period") {
        Some(period) => text_in(
            or_get(
                get_either(period, "end", "billingPeriodEnd"),
                period,
                "billing_period_end",
            ),
        ),
        None => None,
    };
    match used_percent {
        Some(used) => Some(
            WindowDraft::quota(
                "Weekly",
                WindowKind::Weekly,
                Some(rest_of_hundred(given(used))),
                None,
                reset,
            ),
        ),
        None => match number_in(config.get("monthlyLimit")) {
            Some(limit) => if (Quantity { bits: ZERO }).is_below(limit) {
                let used = match number_in(get_either(config, "used", "totalUsed")) {
                    Some(used) => given(used),
                    None => crate::formula::constant(ZERO),
                };
                Some(
                    WindowDraft::quota(
                        "Monthly",
                        WindowKind::Monthly,
                        Some(share_of(left_of(given(limit), used), given(limit))),
                        None,
                        reset,
                    ),
                )
            } else {
                None
            },
            None => None,
        },
    }
}

/// The text under a key of an entry, where it is no blank.
pub open spec fn filled_at(entry: Json, key: Seq<char>) -> Option<Seq<char>> {
    match said_in(entry.at(key)) {
        Some(text) => if trim(text).len() == 0 {
            None
        } else {
            Some(text)
        },
        None => None,
    }
}

pub open spec fn first_filled(entries: Seq<(String, Json)>, key: Seq<char>) -> Option<Seq<char>>
    decreases entries.len(),
{
    if entries.len() == 0 {
        None
    } else {
        match filled_at(entries[0].1, key) {
            Some(text) => Some(text),
            None => first_filled(entries.drop_first(), key),
        }
    }
}

/// The first text under a key of the entries of an authentication document.
pub open spec fn auth_text(document: Option<Json>, key: Seq<char>) -> Option<Seq<char>> {
    match document {
        Some(document) => match document.entries() {
            Some(entries) => first_filled(entries, key),
            None => None,
        },
        None => None,
    }
}

fn find_filled(entries: &Vec<(String, Json)>, key: &str) -> (out: Option<String>)
    ensures
        maybe_text(out) == first_filled(entries@, key@),
{
    let mut i: usize = 0;
    assert(entries@.skip(0) =~= entries@);
    while i < entries.len()
        invariant
            i <= entries@.len(),
            first_filled(entries@.skip(i as int), key@) == first_filled(entries@, key@),
        decreases entries@.len() - i,
    {
        proof {
            assert(entries@.skip(i as int)[0] == entries@[i as int]);
            assert(entries@.skip(i as int).drop_first() =~= entries@.skip(i + 1));
        }
        match str_in(entries[i].1.get(key)) {
            Some(text) => if !trimmed(text).as_str().is_empty() {
                return Some(text.to_owned());
            },
            None => {},
        }
        i = i + 1;
    }
    assert(entries@.skip(i as int) =~= Seq::empty());
    None
}

fn find_auth_text(document: Option<&Json>, key: &str) -> (out: Option<String>)
    ensures
        maybe_text(out) == auth_text(borrowed(document), key@),
{
    match document {
        Some(document) => match document.as_object() {
            Some(entries) => find_filled(entries, key),
            None => None,
        },
        None => None,
    }
}

pub fn grok_auth_identity(document: Option<&Json>) -> (out: Option<String>)
    ensures
        maybe_text(out) == auth_text(borrowed(document), "email"@),
{
    find_auth_text(document, "email")
}

pub fn grok_auth_token(document: Option<&Json>) -> (out: Option<String>)
    ensures
        maybe_text(out) == auth_text(borrowed(document), "key"@),
{
    find_auth_text(document, "key")
}

/// A number found in a message: on which level of nesting, under which field.
#[derive(Clone, Copy, Debug, PartialEq, Eq, Structural)]
pub enum Finding {
    Varint { level: u8, field: u32, value: u64 },
    Fixed32 { level: u8, field: u32, bits: u32 },
}

pub open spec fn field_number(key: u64) -> u32 {
    ((key / 8) % 0x1_0000_0000) as u32
}

/// Four bytes, the lowest first.
pub open spec fn le32(bytes: Seq<u8>, at: int) -> int {
    bytes[at] + 256 * bytes[at + 1] + 65_536 * bytes[at + 2] + 16_777_216 * bytes[at + 3]
}

/// Four bytes, the highest first.
pub open spec fn be32(bytes: Seq<u8>, at: int) -> int {
    16_777_216 * bytes[at] + 65_536 * bytes[at + 1] + 256 * bytes[at + 2] + bytes[at + 3]
}

/// The numbers in a message from `pos` on, in order. Every byte string is read
/// as a message too, nine levels deep. What cannot be read ends its message.
pub open spec fn scan_from(bytes: Seq<u8>, pos: int, depth: nat) -> Seq<Finding>
    decreases 10 - depth, bytes.len() - pos,
{
    if depth > 8 || pos < 0 || pos >= bytes.len() {
        Seq::empty()
    } else {
        match varint_at(bytes, pos) {
            None => Seq::empty(),
            Some((key, at)) => {
                proof {
                    lemma_varint_len(bytes, pos, 0);
                    lemma_varint_len(bytes, at, 0);
                }
                let field = field_number(key);
                let level = (depth + 1) as u8;
                if field == 0 {
                    Seq::empty()
                } else if key % 8 == 0 {
                    match varint_at(bytes, at) {
                        None => Seq::empty(),
                        Some((value, next)) => seq![Finding::Varint { level, field, value }]
                            + scan_from(bytes, next, depth),
                    }
                } else if key % 8 == 1 {
                    if at + 8 > bytes.len() {
                        Seq::empty()
                    } else {
                        scan_from(bytes, at + 8, depth)
                    }
                } else if key % 8 == 2 {
                    match varint_at(bytes, at) {
                        None => Seq::empty(),
                        Some((size, start)) => if start + size > bytes.len() {
                            Seq::empty()
                        } else {
                            scan_from(bytes.subrange(start, start + size), 0, depth + 1)
                                + scan_from(bytes, start + size, depth)
                        },
                    }
                } else if key % 8 == 5 {
                    if at + 4 > bytes.len() {
                        Seq::empty()
                    } else {
                        seq![Finding::Fixed32 { level, field, bits: le32(bytes, at) as u32 }]
                            + scan_from(bytes, at + 4, depth)
                    }
                } else {
                    Seq::empty()
                }
            },
        }
    }
}

fn read_le32(bytes: &[u8], at: usize) -> (out: u32)
    requires
        at + 4 <= bytes@.len(),
    ensures
        out == le32(bytes@, at as int),
{
    bytes[at] as u32 + 256 * (bytes[at + 1] as u32) + 65_536 * (bytes[at + 2] as u32) + 16_777_216
        * (bytes[at + 3] as u32)
}

fn read_be32(bytes: &[u8], at: usize) -> (out: u32)
    requires
        at + 4 <= bytes@.len(),
    ensures
        out == be32(bytes@, at as int),
{
    16_777_216 * (bytes[at] as u32) + 65_536 * (bytes[at + 1] as u32) + 256 * (bytes[at + 2] as u32)
        + bytes[at + 3] as u32
}

/// Appends the numbers of a message.
pub fn scan_proto(bytes: &[u8], depth: u8, found: &mut Vec<Finding>)
    ensures
        final(found)@ == old(found)@ + scan_from(bytes@, 0, depth as nat),
    decreases 10 - depth,
{
    let ghost before = found@;
    let ghost whole = scan_from(bytes@, 0, depth as nat);
    if depth > 8 {
        assert(before + whole =~= before);
        return;
    }
    let total: usize = bytes.len();
    let level: u8 = depth + 1;
    let mut offset: usize = 0;
    assert(before + whole =~= found@ + scan_from(bytes@, 0, depth as nat));
    while offset < total
        invariant
            total == bytes@.len(),
            offset <= total,
            depth <= 8,
            level == depth + 1,
            found@ + scan_from(bytes@, offset as int, depth as nat) == before + whole,
        ensures
            found@ == before + whole,
        decreases total - offset,
    {
        let ghost now = found@;
        let ghost rest = scan_from(bytes@, offset as int, depth as nat);
        let (key, at) = match read_varint_at(bytes, offset) {
            Some(pair) => pair,
            None => {
                assert(now + rest =~= now);
                break;
            },
        };
        let field: u32 = ((key / 8) % 0x1_0000_0000) as u32;
        let wire: u64 = key % 8;
        if field == 0 {
            assert(now + rest =~= now);
            break;
        }
        if wire == 0 {
            match read_varint_at(bytes, at) {
                Some((value, next)) => {
                    found.push(Finding::Varint { level, field, value });
                    assert(found@ + scan_from(bytes@, next as int, depth as nat) =~= now + rest);
                    offset = next;
                },
                None => {
                    assert(now + rest =~= now);
                    break;
                },
            }
        } else if wire == 1 {
            if total - at < 8 {
                assert(now + rest =~= now);
                break;
            }
            offset = at + 8;
        } else if wire == 2 {
            match read_varint_at(bytes, at) {
                Some((size, start)) => {
                    if size > (total - start) as u64 {
                        assert(now + rest =~= now);
                        break;
                    }
                    let end: usize = start + size as usize;
                    let inner = vstd::slice::slice_subrange(bytes, start, end);
                    scan_proto(inner, depth + 1, found);
                    assert(found@ + scan_from(bytes@, end as int, depth as nat) =~= now + rest);
                    offset = end;
                },
                None => {
                    assert(now + rest =~= now);
                    break;
                },
            }
        } else if wire == 5 {
            if total - at < 4 {
                assert(now + rest =~= now);
                break;
            }
            let bits: u32 = read_le32(bytes, at);
            found.push(Finding::Fixed32 { level, field, bits });
            assert(found@ + scan_from(bytes@, at + 4, depth as nat) =~= now + rest);
            offset = at + 4;
        } else {
            assert(now + rest =~= now);
            break;
        }
        if offset >= total {
            assert(found@ + scan_from(bytes@, offset as int, depth as nat) =~= found@);
        }
    }
}

/// The data frames from `pos` on; nothing where a frame is cut off.
pub open spec fn frames_from(bytes: Seq<u8>, pos: int) -> Option<Seq<Seq<u8>>>
    decreases bytes.len() - pos,
{
    if pos < 0 || pos + 5 > bytes.len() {
        Some(Seq::empty())
    } else {
        let end = pos + 5 + be32(bytes, pos + 1);
        if end > bytes.len() || end < pos + 5 {
            None
        } else {
            match frames_from(bytes, end) {
                None => None,
                Some(rest) => Some(
                    if bytes[pos] < 128 {
                        seq![bytes.subrange(pos + 5, end)] + rest
                    } else {
                        rest
                    },
                ),
            }
        }
    }
}

/// The data frames of a gRPC-web body.
pub open spec fn data_frames(bytes: Seq<u8>) -> Seq<Seq<u8>> {
    match frames_from(bytes, 0) {
        Some(frames) => frames,
        None => Seq::empty(),
    }
}

pub open spec fn byte_views(frames: Seq<Vec<u8>>) -> Seq<Seq<u8>> {
    frames.map_values(|frame: Vec<u8>| frame@)
}

pub fn grpc_data_frames(bytes: &[u8]) -> (out: Vec<Vec<u8>>)
    ensures
        byte_views(out@) == data_frames(bytes@),
{
    let total: usize = bytes.len();
    let mut out: Vec<Vec<u8>> = Vec::new();
    let mut offset: usize = 0;
    proof {
        match frames_from(bytes@, 0) {
            Some(frames) => {
                assert(byte_views(out@) + frames =~= frames);
            },
            None => {},
        }
    }
    while total - offset >= 5
        invariant
            total == bytes@.len(),
            offset <= total,
            match frames_from(bytes@, offset as int) {
                Some(rest) => frames_from(bytes@, 0) == Some(byte_views(out@) + rest),
                None => frames_from(bytes@, 0) is None,
            },
        decreases total - offset,
    {
        let ghost earlier = out@;
        let size: u32 = read_be32(bytes, offset + 1);
        let start: usize = offset + 5;
        if size as usize > total - start {
            assert(frames_from(bytes@, offset as int) is None);
            let none: Vec<Vec<u8>> = Vec::new();
            assert(byte_views(none@) =~= Seq::empty());
            return none;
        }
        let end: usize = start + size as usize;
        if bytes[offset] < 128 {
            let frame = vstd::slice::slice_to_vec(vstd::slice::slice_subrange(bytes, start, end));
            let ghost view = frame@;
            out.push(frame);
            proof {
                assert(byte_views(out@) =~= byte_views(earlier).push(view));
                match frames_from(bytes@, end as int) {
                    Some(rest) => {
                        assert(byte_views(earlier) + (seq![view] + rest) =~= byte_views(out@)
                            + rest);
                    },
                    None => {},
                }
            }
        }
        offset = end;
    }
    assert(byte_views(out@) + Seq::empty() =~= byte_views(out@));
    out
}

/// The text that bytes spell, with a mark in place of what is no UTF-8.
pub uninterp spec fn lossy_text(bytes: Seq<u8>) -> Seq<char>;

/// `String::from_utf8_lossy`: the text that the bytes encode, with a mark in
/// place of every part that is no UTF-8. Valid bytes give their text.
#[verifier::external_body]
pub(crate) fn text_from_bytes(bytes: &[u8]) -> (out: String)
    ensures
        out@ == lossy_text(bytes@),
        valid_utf8(bytes@) ==> out@ == decode_utf8(bytes@),
{
    String::from_utf8_lossy(bytes).into_owned()
}

/// The status that the lines of a trailer tell.
pub open spec fn status_line(found: Seq<Seq<char>>) -> Option<Seq<char>>
    decreases found.len(),
{
    if found.len() == 0 {
        None
    } else if starts_with(found[0], "grpc-status:"@) {
        Some(trim(after_prefix(found[0], "grpc-status:"@)))
    } else {
        status_line(found.drop_first())
    }
}

fn find_status(text: &str) -> (out: Option<String>)
    ensures
        maybe_text(out) == status_line(lines(text@)),
{
    let found = lines_of(text);
    let ghost all = texts(found@);
    let mut i: usize = 0;
    assert(all.skip(0) =~= all);
    while i < found.len()
        invariant
            i <= found@.len(),
            all == texts(found@),
            all == lines(text@),
            status_line(all.skip(i as int)) == status_line(all),
        decreases found@.len() - i,
    {
        proof {
            assert(all.skip(i as int)[0] == found@[i as int]@);
            assert(all.skip(i as int).drop_first() =~= all.skip(i + 1));
        }
        if has_prefix(found[i].as_str(), "grpc-status:") {
            let chars = chars_of(found[i].as_str());
            let cut = chars_of("grpc-status:");
            let total: usize = chars.len();
            let rest = slice_text(&chars, cut.len(), total);
            assert(rest@ =~= after_prefix(found@[i as int]@, "grpc-status:"@));
            return Some(trimmed(rest.as_str()));
        }
        i = i + 1;
    }
    assert(all.skip(i as int) =~= Seq::empty());
    None
}

/// The status in the first trailer that tells one, up to a frame that is cut
/// off.
pub open spec fn trailer_from(bytes: Seq<u8>, pos: int) -> Option<Seq<char>>
    decreases bytes.len() - pos,
{
    if pos < 0 || pos + 5 > bytes.len() {
        None
    } else {
        let end = pos + 5 + be32(bytes, pos + 1);
        if end > bytes.len() || end < pos + 5 {
            None
        } else {
            let told = if bytes[pos] < 128 {
                None
            } else {
                status_line(lines(lossy_text(bytes.subrange(pos + 5, end))))
            };
            match told {
                Some(status) => Some(status),
                None => trailer_from(bytes, end),
            }
        }
    }
}

pub fn grpc_trailer_status(bytes: &[u8]) -> (out: Option<String>)
    ensures
        maybe_text(out) == trailer_from(bytes@, 0),
{
    let total: usize = bytes.len();
    let mut offset: usize = 0;
    while total - offset >= 5
        invariant
            total == bytes@.len(),
            offset <= total,
            trailer_from(bytes@, offset as int) == trailer_from(bytes@, 0),
        decreases total - offset,
    {
        let size: u32 = read_be32(bytes, offset + 1);
        let start: usize = offset + 5;
        if size as usize > total - start {
            return None;
        }
        let end: usize = start + size as usize;
        if bytes[offset] >= 128 {
            let text = text_from_bytes(vstd::slice::slice_subrange(bytes, start, end));
            let status = find_status(text.as_str());
            if status.is_some() {
                return status;
            }
        }
        offset = end;
    }
    None
}

/// One hundred in binary32, and the negative zero.
pub const SINGLE_HUNDRED: u32 = 0x42c8_0000;

pub const SINGLE_MINUS_ZERO: u32 = 0x8000_0000;

/// A percentage: a number between zero and one hundred in a first field.
pub open spec fn tells_percent(finding: Finding) -> bool {
    match finding {
        Finding::Fixed32 { field, bits, .. } => field == 1 && (bits <= SINGLE_HUNDRED || bits
            == SINGLE_MINUS_ZERO),
        _ => false,
    }
}

pub open spec fn level_of(finding: Finding) -> u8 {
    match finding {
        Finding::Fixed32 { level, .. } => level,
        Finding::Varint { level, .. } => level,
    }
}

/// The place of the percentage that is nested least; of several the first.
pub open spec fn outermost_percent(found: Seq<Finding>) -> Option<int>
    decreases found.len(),
{
    if found.len() == 0 {
        None
    } else {
        let before = outermost_percent(found.drop_last());
        if !tells_percent(found.last()) {
            before
        } else {
            match before {
                Some(i) => if level_of(found.last()) < level_of(found[i]) {
                    Some(found.len() - 1)
                } else {
                    before
                },
                None => Some(found.len() - 1),
            }
        }
    }
}

/// The moment that a number names, where it is a moment to come.
pub open spec fn moment_to_come(finding: Finding, now_ms: i64) -> Option<i64> {
    match finding {
        Finding::Varint { value, .. } => if 1_700_000_000 <= value <= 2_100_000_000 && value * 1000
            > now_ms {
            Some((value * 1000) as i64)
        } else {
            None
        },
        _ => None,
    }
}

/// The first moment to come.
pub open spec fn next_moment(found: Seq<Finding>, now_ms: i64) -> Option<i64>
    decreases found.len(),
{
    if found.len() == 0 {
        None
    } else {
        crate::limits::earlier(
            next_moment(found.drop_last(), now_ms),
            moment_to_come(found.last(), now_ms),
        )
    }
}

/// The numbers of all frames, in order.
pub open spec fn scan_frames(frames: Seq<Seq<u8>>) -> Seq<Finding>
    decreases frames.len(),
{
    if frames.len() == 0 {
        Seq::empty()
    } else {
        scan_frames(frames.drop_last()) + scan_from(frames.last(), 0, 0)
    }
}

pub open spec fn finding_bits(finding: Finding) -> u32 {
    match finding {
        Finding::Fixed32 { bits, .. } => bits,
        _ => 0,
    }
}

/// The window that a gRPC-web billing body tells.
pub open spec fn grpc_window(bytes: Seq<u8>, now_ms: i64) -> Option<DraftView> {
    let found = scan_frames(data_frames(bytes));
    match outermost_percent(found) {
        Some(i) => Some(
            DraftView::quota(
                "Weekly"@,
                WindowKind::Weekly,
                Some(Formula::rest_of_hundred(Formula::Single(finding_bits(found[i])))),
                next_moment(found, now_ms),
                None,
            ),
        ),
        None => None,
    }
}

fn find_percent(found: &Vec<Finding>) -> (out: Option<u32>)
    ensures
        match out {
            Some(bits) => outermost_percent(found@) is Some && finding_bits(
                found@[outermost_percent(found@)->0],
            ) == bits,
            None => outermost_percent(found@) is None,
        },
{
    let mut best: Option<(u8, u32)> = None;
    let mut i: usize = 0;
    while i < found.len()
        invariant
            i <= found@.len(),
            match best {
                Some((level, bits)) => {
                    let place = outermost_percent(found@.take(i as int));
                    place is Some && 0 <= place->0 < i && level_of(found@[place->0]) == level
                        && finding_bits(found@[place->0]) == bits
                },
                None => outermost_percent(found@.take(i as int)) is None,
            },
        decreases found@.len() - i,
    {
        proof {
            assert(found@.take(i + 1).drop_last() =~= found@.take(i as int));
            assert(found@.take(i + 1).last() == found@[i as int]);
        }
        match found[i] {
            Finding::Fixed32 { level, field, bits } => {
                if field == 1 && (bits <= SINGLE_HUNDRED || bits == SINGLE_MINUS_ZERO) {
                    let better = match best {
                        Some((held, _)) => level < held,
                        None => true,
                    };
                    if better {
                        best = Some((level, bits));
                    }
                }
            },
            _ => {},
        }
        i = i + 1;
    }
    assert(found@.take(i as int) =~= found@);
    match best {
        Some((_, bits)) => Some(bits),
        None => None,
    }
}

fn find_moment(found: &Vec<Finding>, now_ms: i64) -> (out: Option<i64>)
    ensures
        out == next_moment(found@, now_ms),
{
    let mut best: Option<i64> = None;
    let mut i: usize = 0;
    while i < found.len()
        invariant
            i <= found@.len(),
            best == next_moment(found@.take(i as int), now_ms),
        decreases found@.len() - i,
    {
        proof {
            assert(found@.take(i + 1).drop_last() =~= found@.take(i as int));
            assert(found@.take(i + 1).last() == found@[i as int]);
        }
        match found[i] {
            Finding::Varint { value, .. } => {
                if 1_700_000_000 <= value && value <= 2_100_000_000 {
                    let moment: i64 = (value as i64) * 1000;
                    if moment > now_ms {
                        best = match best {
                            Some(held) => Some(
                                if moment < held {
                                    moment
                                } else {
                                    held
                                },
                            ),
                            None => Some(moment),
                        };
                    }
                }
            },
            _ => {},
        }
        i = i + 1;
    }
    assert(found@.take(i as int) =~= found@);
    best
}

pub fn parse_grok_grpc_billing(bytes: &[u8], now_ms: i64) -> (out: Option<WindowDraft>)
    ensures
        maybe_draft(out) == grpc_window(bytes@, now_ms),
{
    let frames = grpc_data_frames(bytes);
    let ghost all = byte_views(frames@);
    let mut found: Vec<Finding> = Vec::new();
    let mut i: usize = 0;
    while i < frames.len()
        invariant
            i <= frames@.len(),
            all == byte_views(frames@),
            found@ == scan_frames(all.take(i as int)),
        decreases frames@.len() - i,
    {
        proof {
            assert(all.take(i + 1).drop_last() =~= all.take(i as int));
            assert(all.take(i + 1).last() == frames@[i as int]@);
        }
        scan_proto(frames[i].as_slice(), 0, &mut found);
        i = i + 1;
    }
    assert(all.take(i as int) =~= all);
    match find_percent(&found) {
        Some(bits) => Some(
            WindowDraft::quota(
                "Weekly",
                WindowKind::Weekly,
                Some(rest_of_hundred(Formula::Single(bits))),
                find_moment(&found, now_ms),
                None,
            ),
        ),
        None => None,
    }
}

/// What came back for the billing request over gRPC-web.
#[derive(Debug)]
pub enum WebReply {
    /// There is no way to ask.
    NoClient,
    /// No answer.
    Failed,
    /// An answer with an unsuccessful status.
    Refused(u16),
    /// A successful answer whose body cannot be read.
    NoBody,
    /// A successful answer.
    Body(Vec<u8>),
}

pub open spec fn web_billing(reply: WebReply, now_ms: i64) -> Result<DraftView, Seq<char>> {
    match reply {
        WebReply::NoClient => Err("HTTP client unavailable"@),
        WebReply::Failed => Err("Grok web billing request failed"@),
        WebReply::Refused(code) => if code == 401 || code == 403 {
            Err("Grok web billing credentials rejected"@)
        } else {
            Err("Grok web billing unavailable"@)
        },
        WebReply::NoBody => Err("Grok web billing body unavailable"@),
        WebReply::Body(bytes) => if trailer_from(bytes@, 0) is Some && trailer_from(bytes@, 0)->0
            != "0"@ {
            Err("Grok web billing RPC rejected"@)
        } else {
            match grpc_window(bytes@, now_ms) {
                Some(window) => Ok(window),
                None => Err("Could not parse Grok web billing usage"@),
            }
        },
    }
}

pub open spec fn window_or_reason(result: Result<WindowDraft, String>) -> Result<
    DraftView,
    Seq<char>,
> {
    match result {
        Ok(window) => Ok(window@),
        Err(reason) => Err(reason@),
    }
}

pub fn grok_web_billing(reply: &WebReply, now_ms: i64) -> (out: Result<WindowDraft, String>)
    ensures
        window_or_reason(out) == web_billing(*reply, now_ms),
{
    match reply {
        WebReply::NoClient => Err("HTTP client unavailable".to_owned()),
        WebReply::Failed => Err("Grok web billing request failed".to_owned()),
        WebReply::Refused(code) => if *code == 401 || *code == 403 {
            Err("Grok web billing credentials rejected".to_owned())
        } else {
            Err("Grok web billing unavailable".to_owned())
        },
        WebReply::NoBody => Err("Grok web billing body unavailable".to_owned()),
        WebReply::Body(bytes) => {
            match grpc_trailer_status(bytes.as_slice()) {
                Some(status) => if !same(status.as_str(), "0") {
                    return Err("Grok web billing RPC rejected".to_owned());
                },
                None => {},
            }
            match parse_grok_grpc_billing(bytes.as_slice(), now_ms) {
                Some(window) => Ok(window),
                None => Err("Could not parse Grok web billing usage".to_owned()),
            }
        },
    }
}

/// What the RPC path gives.
pub open spec fn rpc_billing(answer: Result<Json, Seq<char>>) -> Result<DraftView, Seq<char>> {
    match answer {
        Ok(payload) => match billing_window(payload) {
            Some(window) => Ok(window),
            None => Err("Grok billing response has no quota"@),
        },
        Err(reason) => Err(reason),
    }
}

/// The row of the account. Where the RPC path gives no window the web path is
/// taken, for which a token is needed.
pub open spec fn grok_row(
    email: Option<Seq<char>>,
    rpc: Result<Json, Seq<char>>,
    web: Option<WebReply>,
    now_ms: i64,
) -> RowView {
    let email = match email {
        Some(email) => email,
        None => "SuperGrok"@,
    };
    let key = key_of("grok"@, email);
    let result = match rpc_billing(rpc) {
        Ok(window) => Ok(window),
        Err(_) => match web {
            Some(reply) => web_billing(reply, now_ms),
            None => Err("Grok credentials not configured"@),
        },
    };
    match result {
        Ok(window) => answered(
            Badge { provider_id: "grok", source: "web", hue: 75 },
            key,
            email,
            "SuperGrok"@,
            seq![window],
        ),
        Err(reason) => RowView::Missing(
            missing_row(
                Badge { provider_id: "grok", source: "rpc", hue: 75 },
                key,
                email,
                unavailable(reason),
                now_ms,
            ),
        ),
    }
}

pub open spec fn maybe_reply(reply: Option<&WebReply>) -> Option<WebReply> {
    match reply {
        Some(reply) => Some(*reply),
        None => None,
    }
}

/// `web` is what the web path brought, where there was a token for it.
pub fn collect_grok(
    email: Option<String>,
    rpc: &Result<Json, String>,
    web: Option<&WebReply>,
    now_ms: i64,
) -> (out: Row)
    ensures
        out@ == grok_row(
            maybe_text(email),
            crate::collectors::gpus::printed(*rpc),
            maybe_reply(web),
            now_ms,
        ),
{
    let email = match email {
        Some(email) => email,
        None => "SuperGrok".to_owned(),
    };
    let key = account_key("grok", email.as_str());
    let by_rpc = match rpc {
        Ok(payload) => grok_billing_window(payload),
        Err(_) => None,
    };
    let result = match by_rpc {
        Some(window) => Ok(window),
        None => match web {
            Some(reply) => grok_web_billing(reply, now_ms),
            None => Err("Grok credentials not configured".to_owned()),
        },
    };
    match result {
        Ok(window) => {
            let ghost view = window@;
            let windows = vec![window];
            assert(draft_views(windows@) =~= seq![view]);
            answered_row(
                &Badge { provider_id: "grok", source: "web", hue: 75 },
                key,
                email,
                "SuperGrok".to_owned(),
                windows,
            )
        },
        Err(reason) => missing(
            &Badge { provider_id: "grok", source: "rpc", hue: 75 },
            key,
            email,
            unavailable_for(reason.as_str()),
            now_ms,
        ),
    }
}

/// The web path can only be needed where the RPC path gave no window.
pub fn needs_web_billing(rpc: &Result<Json, String>) -> (yes: bool)
    ensures
        yes == rpc_billing(crate::collectors::gpus::printed(*rpc)) is Err,
{
    match rpc {
        Ok(payload) => grok_billing_window(payload).is_none(),
        Err(_) => true,
    }
}

/// What is left of the week is what the used percentage leaves of one hundred,
/// whether the settings stand in a part of their own or not.
pub proof fn law_used_percentage_leaves_the_week(
    payload: Json,
    config: Json,
    used: Json,
    powers: Seq<Power>,
)
    requires
        payload.at("config"@) == Some(config) || (payload.at("config"@) is None && config
            == payload),
        config.entries() is Some,
        held_under(config, seq!["creditUsagePercent"@, "credit_usage_percent"@], used),
        used.measured() is Some,
    ensures
        billing_window(payload) is Some,
        ({
            let window = billing_window(payload)->0.settled(powers);
            &&& window.label == "Weekly"@
            &&& window.kind is Weekly
            &&& window.remaining_percent == Some(
                Quantity { bits: 0x4059_0000_0000_0000 }.difference(
                    used.measured()->0,
                ).as_percentage(),
            )
        }),
{
    lemma_held_under(config, seq!["creditUsagePercent"@, "credit_usage_percent"@], used);
    reveal_with_fuel(Formula::value, 4);
}

/// Where no percentage is stated, what is left of the month is what the use
/// leaves of its limit, in hundredths of the limit.
pub proof fn law_use_leaves_the_month(
    payload: Json,
    config: Json,
    limit: Json,
    used: Json,
    powers: Seq<Power>,
)
    requires
        payload.at("config"@) == Some(config),
        config.entries() is Some,
        config.at("creditUsagePercent"@) is None,
        config.at("credit_usage_percent"@) is None,
        config.at("usedPercent"@) is None,
        config.at("used_percent"@) is None,
        config.at("monthlyLimit"@) == Some(limit),
        limit.measured() is Some && !limit.measured()->0.nan() && limit.measured()->0.rank() > 0,
        held_under(config, seq!["used"@, "totalUsed"@], used),
        used.measured() is Some,
    ensures
        billing_window(payload) is Some,
        ({
            let window = billing_window(payload)->0.settled(powers);
            &&& window.label == "Monthly"@
            &&& window.kind is Monthly
            &&& window.remaining_percent == Some(
                limit.measured()->0.difference(used.measured()->0).larger(
                    Quantity { bits: 0 },
                ).quotient(limit.measured()->0).product(
                    Quantity { bits: 0x4059_0000_0000_0000 },
                ).as_percentage(),
            )
        }),
{
    lemma_held_under(config, seq!["used"@, "totalUsed"@], used);
    reveal_with_fuel(Formula::value, 6);
}

/// The percentage is the first of the outermost: no finding that tells one
/// stands further out, and none before it stands as far out.
pub proof fn law_outermost_percentage_counts(found: Seq<Finding>)
    ensures
        outermost_percent(found) matches Some(i) ==> {
            &&& 0 <= i < found.len()
            &&& tells_percent(found[i])
            &&& forall|k: int|
                0 <= k < found.len() && tells_percent(#[trigger] found[k]) ==> level_of(found[i])
                    <= level_of(found[k])
            &&& forall|k: int|
                0 <= k < i && tells_percent(#[trigger] found[k]) ==> level_of(found[i])
                    < level_of(found[k])
        },
        outermost_percent(found) is None ==> forall|k: int|
            0 <= k < found.len() ==> !tells_percent(#[trigger] found[k]),
    decreases found.len(),
{
    if found.len() > 0 {
        let before = found.drop_last();
        law_outermost_percentage_counts(before);
        assert forall|k: int| 0 <= k < before.len() implies before[k] == #[trigger] found[k] by {}
    }
}

/// The reset is the earliest of the moments to come: whole seconds between
/// November 2023 and July 2036 that lie ahead of now.
pub proof fn law_reset_is_the_next_moment(found: Seq<Finding>, now_ms: i64)
    ensures
        forall|k: int|
            0 <= k < found.len() ==> match #[trigger] found[k] {
                Finding::Varint { value, .. } => 1_700_000_000 <= value <= 2_100_000_000 && value
                    * 1000 > now_ms ==> next_moment(found, now_ms) is Some && next_moment(
                    found,
                    now_ms,
                )->0 <= value * 1000,
                _ => true,
            },
        next_moment(found, now_ms) matches Some(at) ==> at > now_ms && exists|k: int|
            0 <= k < found.len() && moment_to_come(#[trigger] found[k], now_ms) == Some(at),
    decreases found.len(),
{
    if found.len() > 0 {
        let before = found.drop_last();
        law_reset_is_the_next_moment(before, now_ms);
        assert forall|k: int| 0 <= k < before.len() implies before[k] == #[trigger] found[k] by {}
        if next_moment(found, now_ms) is Some {
            if next_moment(before, now_ms) == next_moment(found, now_ms) {
                let k = choose|k: int|
                    0 <= k < before.len() && moment_to_come(#[trigger] before[k], now_ms)
                        == next_moment(before, now_ms);
                assert(moment_to_come(found[k], now_ms) == next_moment(found, now_ms));
            } else {
                assert(moment_to_come(found[found.len() - 1], now_ms) == next_moment(
                    found,
                    now_ms,
                ));
            }
        }
    }
}

/// An answer over the command line counts first; without one the web's does,
/// where there is a key for it, and its reason where it has none.
pub proof fn law_command_line_answers_first(
    email: Option<Seq<char>>,
    rpc: Result<Json, Seq<char>>,
    web: Option<WebReply>,
    powers: Seq<Power>,
    now_ms: i64,
)
    ensures
        ({
            let row = grok_row(email, rpc, web, now_ms).settled(powers, now_ms);
            let told = rpc is Ok && billing_window(rpc->Ok_0) is Some;
            &&& row.provider_id == "grok"@
            &&& told ==> row.windows == seq![billing_window(rpc->Ok_0)->0.settled(powers)]
            &&& !told && web is None ==> row.windows.len() == 0 && row.diagnostics == seq![
                "Grok credentials not configured"@,
            ]
            &&& !told && web is Some ==> match web_billing(web->0, now_ms) {
                Ok(window) => row.windows == seq![window.settled(powers)],
                Err(reason) => row.windows.len() == 0 && row.diagnostics == seq![reason],
            }
        }),
{
    let row = grok_row(email, rpc, web, now_ms);
    if rpc is Ok && billing_window(rpc->Ok_0) is Some {
        assert(row.settled(powers, now_ms).windows =~= seq![
            billing_window(rpc->Ok_0)->0.settled(powers),
        ]);
    } else if web is Some && web_billing(web->0, now_ms) is Ok {
        assert(row.settled(powers, now_ms).windows =~= seq![
            web_billing(web->0, now_ms)->Ok_0.settled(powers),
        ]);
    }
}

/// A frame is five bytes, a flag and the length of what follows with its
/// highest byte first, and then that many bytes. Frames whose flag has its
/// highest bit set hold no data.
pub proof fn law_frames_follow_each_other(head: Seq<u8>, data: Seq<u8>, rest: Seq<u8>)
    requires
        head.len() == 5,
        data.len() == head[1] * 0x100_0000 + head[2] * 0x1_0000 + head[3] * 0x100 + head[4],
    ensures
        frames_from(head + data + rest, 0) == match frames_from(
            head + data + rest,
            5 + data.len() as int,
        ) {
            Some(others) => Some(
                if head[0] < 128 {
                    seq![data] + others
                } else {
                    others
                },
            ),
            None => None,
        },
{
    let bytes = head + data + rest;
    assert(bytes.subrange(5, 5 + data.len() as int) =~= data);
}

} // verus!
