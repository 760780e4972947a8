//! The providers that the monitor knows.

use vstd::prelude::*;

use crate::text::same;

verus! {

/// Every provider that can appear in a list.
pub const ALL_PROVIDER_IDS: [&'static str; 24] = [
    "anthropic",
    "codex",
    "opencode",
    "cursor",
    "antigravity",
    "kimi",
    "grok",
    "copilot",
    "commandcode",
    "mimo",
    "zai",
    "zaiteam",
    "kiro",
    "workbuddy",
    "qoder",
    "deepseek",
    "openrouter",
    "minimax",
    "volcengine",
    "ollama",
    "trae",
    "thirdparty",
    "modal",
    "vast",
];

/// The providers whose limits are collected here.
pub const NATIVE_PROVIDER_IDS: [&'static str; 18] = [
    "anthropic",
    "codex",
    "cursor",
    "antigravity",
    "grok",
    "copilot",
    "commandcode",
    "minimax",
    "zai",
    "zaiteam",
    "qoder",
    "trae",
    "kiro",
    "ollama",
    "deepseek",
    "openrouter",
    "modal",
    "vast",
];

/// The name that a provider goes by on screen; an unknown id stands for itself.
pub open spec fn shown_name(id: Seq<char>) -> Seq<char> {
    if id == "antigravity"@ {
        "Antigravity"@
    } else if id == "anthropic"@ {
        "Anthropic"@
    } else if id == "commandcode"@ {
        "Command Code"@
    } else if id == "codex"@ {
        "Codex"@
    } else if id == "copilot"@ {
        "Copilot"@
    } else if id == "cursor"@ {
        "Cursor"@
    } else if id == "deepseek"@ {
        "DeepSeek"@
    } else if id == "grok"@ {
        "Grok"@
    } else if id == "kimi"@ {
        "Kimi"@
    } else if id == "kiro"@ {
        "Kiro"@
    } else if id == "minimax"@ {
        "MiniMax"@
    } else if id == "mimo"@ {
        "Mimo"@
    } else if id == "modal"@ {
        "Modal"@
    } else if id == "ollama"@ {
        "Ollama"@
    } else if id == "openrouter"@ {
        "OpenRouter"@
    } else if id == "opencode"@ {
        "OpenCode"@
    } else if id == "qoder"@ {
        "Qoder"@
    } else if id == "thirdparty"@ {
        "Third-party"@
    } else if id == "trae"@ {
        "Trae"@
    } else if id == "vast"@ {
        "Vast.ai"@
    } else if id == "volcengine"@ {
        "Volcengine"@
    } else if id == "workbuddy"@ {
        "WorkBuddy"@
    } else if id == "zai"@ {
        "Z.ai"@
    } else if id == "zaiteam"@ {
        "Z.ai Team"@
    } else {
        id
    }
}

pub fn display_name(id: &str) -> (name: &str)
    ensures
        name@ == shown_name(id@),
{
    if same(id, "antigravity") {
        "Antigravity"
    } else if same(id, "anthropic") {
        "Anthropic"
    } else if same(id, "commandcode") {
        "Command Code"
    } else if same(id, "codex") {
        "Codex"
    } else if same(id, "copilot") {
        "Copilot"
    } else if same(id, "cursor") {
        "Cursor"
    } else if same(id, "deepseek") {
        "DeepSeek"
    } else if same(id, "grok") {
        "Grok"
    } else if same(id, "kimi") {
        "Kimi"
    } else if same(id, "kiro") {
        "Kiro"
    } else if same(id, "minimax") {
        "MiniMax"
    } else if same(id, "mimo") {
        "Mimo"
    } else if same(id, "modal") {
        "Modal"
    } else if same(id, "ollama") {
        "Ollama"
    } else if same(id, "openrouter") {
        "OpenRouter"
    } else if same(id, "opencode") {
        "OpenCode"
    } else if same(id, "qoder") {
        "Qoder"
    } else if same(id, "thirdparty") {
        "Third-party"
    } else if same(id, "trae") {
        "Trae"
    } else if same(id, "vast") {
        "Vast.ai"
    } else if same(id, "volcengine") {
        "Volcengine"
    } else if same(id, "workbuddy") {
        "WorkBuddy"
    } else if same(id, "zai") {
        "Z.ai"
    } else if same(id, "zaiteam") {
        "Z.ai Team"
    } else {
        id
    }
}

/// The limits of the provider are collected here.
pub open spec fn native(id: Seq<char>) -> bool {
    exists|i: int| 0 <= i < NATIVE_PROVIDER_IDS@.len() && #[trigger] NATIVE_PROVIDER_IDS@[i]@ == id
}

pub fn is_native(id: &str) -> (yes: bool)
    ensures
        yes == native(id@),
{
    let ids = NATIVE_PROVIDER_IDS;
    let mut i: usize = 0;
    while i < ids.len()
        invariant
            i <= ids@.len(),
            ids == NATIVE_PROVIDER_IDS,
            forall|k: int| 0 <= k < i ==> #[trigger] NATIVE_PROVIDER_IDS@[k]@ != id@,
        decreases ids@.len() - i,
    {
        if same(ids[i], id) {
            return true;
        }
        i = i + 1;
    }
    false
}

/// Whether an id is one of those that can appear in a list.
pub open spec fn known(id: Seq<char>) -> bool {
    exists|i: int| 0 <= i < ALL_PROVIDER_IDS@.len() && #[trigger] ALL_PROVIDER_IDS@[i]@ == id
}

pub fn is_known(id: &str) -> (yes: bool)
    ensures
        yes == known(id@),
{
    let ids = ALL_PROVIDER_IDS;
    let mut i: usize = 0;
    while i < ids.len()
        invariant
            i <= ids@.len(),
            ids == ALL_PROVIDER_IDS,
            forall|k: int| 0 <= k < i ==> #[trigger] ALL_PROVIDER_IDS@[k]@ != id@,
        decreases ids@.len() - i,
    {
        if same(ids[i], id) {
            return true;
        }
        i = i + 1;
    }
    false
}

/// The place of an id in the list, told by its length and first letters.
spec fn place(id: Seq<char>) -> int {
    if id.len() == 9 && id[0] == 'a' && id[1] == 'n' && id[2] == 't' {
        0
    } else if id.len() == 5 && id[0] == 'c' && id[1] == 'o' && id[2] == 'd' {
        1
    } else if id.len() == 8 && id[0] == 'o' && id[1] == 'p' && id[2] == 'e' {
        2
    } else if id.len() == 6 && id[0] == 'c' && id[1] == 'u' && id[2] == 'r' {
        3
    } else if id.len() == 11 && id[0] == 'a' && id[1] == 'n' && id[2] == 't' {
        4
    } else if id.len() == 4 && id[0] == 'k' && id[1] == 'i' && id[2] == 'm' {
        5
    } else if id.len() == 4 && id[0] == 'g' && id[1] == 'r' && id[2] == 'o' {
        6
    } else if id.len() == 7 && id[0] == 'c' && id[1] == 'o' && id[2] == 'p' {
        7
    } else if id.len() == 11 && id[0] == 'c' && id[1] == 'o' && id[2] == 'm' {
        8
    } else if id.len() == 4 && id[0] == 'm' && id[1] == 'i' && id[2] == 'm' {
        9
    } else if id.len() == 3 && id[0] == 'z' && id[1] == 'a' && id[2] == 'i' {
        10
    } else if id.len() == 7 && id[0] == 'z' && id[1] == 'a' && id[2] == 'i' {
        11
    } else if id.len() == 4 && id[0] == 'k' && id[1] == 'i' && id[2] == 'r' {
        12
    } else if id.len() == 9 && id[0] == 'w' && id[1] == 'o' && id[2] == 'r' {
        13
    } else if id.len() == 5 && id[0] == 'q' && id[1] == 'o' && id[2] == 'd' {
        14
    } else if id.len() == 8 && id[0] == 'd' && id[1] == 'e' && id[2] == 'e' {
        15
    } else if id.len() == 10 && id[0] == 'o' && id[1] == 'p' && id[2] == 'e' {
        16
    } else if id.len() == 7 && id[0] == 'm' && id[1] == 'i' && id[2] == 'n' {
        17
    } else if id.len() == 10 && id[0] == 'v' && id[1] == 'o' && id[2] == 'l' {
        18
    } else if id.len() == 6 && id[0] == 'o' && id[1] == 'l' && id[2] == 'l' {
        19
    } else if id.len() == 4 && id[0] == 't' && id[1] == 'r' && id[2] == 'a' {
        20
    } else if id.len() == 10 && id[0] == 't' && id[1] == 'h' && id[2] == 'i' {
        21
    } else if id.len() == 5 && id[0] == 'm' && id[1] == 'o' && id[2] == 'd' {
        22
    } else if id.len() == 4 && id[0] == 'v' && id[1] == 'a' && id[2] == 's' {
        23
    } else {
        -1
    }
}

proof fn lemma_place(i: int)
    requires
        0 <= i < ALL_PROVIDER_IDS@.len(),
    ensures
        place(ALL_PROVIDER_IDS@[i]@) == i,
{
    if i == 0 {
        reveal_strlit("anthropic");
    }
    if i == 1 {
        reveal_strlit("codex");
    }
    if i == 2 {
        reveal_strlit("opencode");
    }
    if i == 3 {
        reveal_strlit("cursor");
    }
    if i == 4 {
        reveal_strlit("antigravity");
    }
    if i == 5 {
        reveal_strlit("kimi");
    }
    if i == 6 {
        reveal_strlit("grok");
    }
    if i == 7 {
        reveal_strlit("copilot");
    }
    if i == 8 {
        reveal_strlit("commandcode");
    }
    if i == 9 {
        reveal_strlit("mimo");
    }
    if i == 10 {
        reveal_strlit("zai");
    }
    if i == 11 {
        reveal_strlit("zaiteam");
    }
    if i == 12 {
        reveal_strlit("kiro");
    }
    if i == 13 {
        reveal_strlit("workbuddy");
    }
    if i == 14 {
        reveal_strlit("qoder");
    }
    if i == 15 {
        reveal_strlit("deepseek");
    }
    if i == 16 {
        reveal_strlit("openrouter");
    }
    if i == 17 {
        reveal_strlit("minimax");
    }
    if i == 18 {
        reveal_strlit("volcengine");
    }
    if i == 19 {
        reveal_strlit("ollama");
    }
    if i == 20 {
        reveal_strlit("trae");
    }
    if i == 21 {
        reveal_strlit("thirdparty");
    }
    if i == 22 {
        reveal_strlit("modal");
    }
    if i == 23 {
        reveal_strlit("vast");
    }
}

/// No provider is listed twice.
pub proof fn law_provider_ids_are_distinct(i: int, j: int)
    requires
        0 <= i < j < ALL_PROVIDER_IDS@.len(),
    ensures
        ALL_PROVIDER_IDS@[i]@ != ALL_PROVIDER_IDS@[j]@,
{
    lemma_place(i);
    lemma_place(j);
}

/// The place of a shown name, told by its length and first letters.
spec fn name_place(name: Seq<char>) -> int {
    if name.len() == 9 && name[0] == 'A' && name[1] == 'n' && name[2] == 't' {
        0
    } else if name.len() == 5 && name[0] == 'C' && name[1] == 'o' && name[2] == 'd' {
        1
    } else if name.len() == 8 && name[0] == 'O' && name[1] == 'p' && name[2] == 'e' {
        2
    } else if name.len() == 6 && name[0] == 'C' && name[1] == 'u' && name[2] == 'r' {
        3
    } else if name.len() == 11 && name[0] == 'A' && name[1] == 'n' && name[2] == 't' {
        4
    } else if name.len() == 4 && name[0] == 'K' && name[1] == 'i' && name[2] == 'm' {
        5
    } else if name.len() == 4 && name[0] == 'G' && name[1] == 'r' && name[2] == 'o' {
        6
    } else if name.len() == 7 && name[0] == 'C' && name[1] == 'o' && name[2] == 'p' {
        7
    } else if name.len() == 12 && name[0] == 'C' && name[1] == 'o' && name[2] == 'm' {
        8
    } else if name.len() == 4 && name[0] == 'M' && name[1] == 'i' && name[2] == 'm' {
        9
    } else if name.len() == 4 && name[0] == 'Z' && name[1] == '.' && name[2] == 'a' {
        10
    } else if name.len() == 9 && name[0] == 'Z' && name[1] == '.' && name[2] == 'a' {
        11
    } else if name.len() == 4 && name[0] == 'K' && name[1] == 'i' && name[2] == 'r' {
        12
    } else if name.len() == 9 && name[0] == 'W' && name[1] == 'o' && name[2] == 'r' {
        13
    } else if name.len() == 5 && name[0] == 'Q' && name[1] == 'o' && name[2] == 'd' {
        14
    } else if name.len() == 8 && name[0] == 'D' && name[1] == 'e' && name[2] == 'e' {
        15
    } else if name.len() == 10 && name[0] == 'O' && name[1] == 'p' && name[2] == 'e' {
        16
    } else if name.len() == 7 && name[0] == 'M' && name[1] == 'i' && name[2] == 'n' {
        17
    } else if name.len() == 10 && name[0] == 'V' && name[1] == 'o' && name[2] == 'l' {
        18
    } else if name.len() == 6 && name[0] == 'O' && name[1] == 'l' && name[2] == 'l' {
        19
    } else if name.len() == 4 && name[0] == 'T' && name[1] == 'r' && name[2] == 'a' {
        20
    } else if name.len() == 11 && name[0] == 'T' && name[1] == 'h' && name[2] == 'i' {
        21
    } else if name.len() == 5 && name[0] == 'M' && name[1] == 'o' && name[2] == 'd' {
        22
    } else if name.len() == 7 && name[0] == 'V' && name[1] == 'a' && name[2] == 's' {
        23
    } else {
        -1
    }
}

proof fn lemma_all_places()
    ensures
        forall|i: int|
            0 <= i < ALL_PROVIDER_IDS@.len() ==> place(#[trigger] ALL_PROVIDER_IDS@[i]@) == i,
{
    assert forall|i: int| 0 <= i < ALL_PROVIDER_IDS@.len() implies place(
        #[trigger] ALL_PROVIDER_IDS@[i]@,
    ) == i by {
        lemma_place(i);
    }
}

/// The listed ids are those that have a name of their own.
proof fn lemma_named_ids_are_listed(id: Seq<char>)
    ensures
        known(id) || shown_name(id) == id,
{
    assert(ALL_PROVIDER_IDS@[0]@ == "anthropic"@);
    assert(ALL_PROVIDER_IDS@[1]@ == "codex"@);
    assert(ALL_PROVIDER_IDS@[2]@ == "opencode"@);
    assert(ALL_PROVIDER_IDS@[3]@ == "cursor"@);
    assert(ALL_PROVIDER_IDS@[4]@ == "antigravity"@);
    assert(ALL_PROVIDER_IDS@[5]@ == "kimi"@);
    assert(ALL_PROVIDER_IDS@[6]@ == "grok"@);
    assert(ALL_PROVIDER_IDS@[7]@ == "copilot"@);
    assert(ALL_PROVIDER_IDS@[8]@ == "commandcode"@);
    assert(ALL_PROVIDER_IDS@[9]@ == "mimo"@);
    assert(ALL_PROVIDER_IDS@[10]@ == "zai"@);
    assert(ALL_PROVIDER_IDS@[11]@ == "zaiteam"@);
    assert(ALL_PROVIDER_IDS@[12]@ == "kiro"@);
    assert(ALL_PROVIDER_IDS@[13]@ == "workbuddy"@);
    assert(ALL_PROVIDER_IDS@[14]@ == "qoder"@);
    assert(ALL_PROVIDER_IDS@[15]@ == "deepseek"@);
    assert(ALL_PROVIDER_IDS@[16]@ == "openrouter"@);
    assert(ALL_PROVIDER_IDS@[17]@ == "minimax"@);
    assert(ALL_PROVIDER_IDS@[18]@ == "volcengine"@);
    assert(ALL_PROVIDER_IDS@[19]@ == "ollama"@);
    assert(ALL_PROVIDER_IDS@[20]@ == "trae"@);
    assert(ALL_PROVIDER_IDS@[21]@ == "thirdparty"@);
    assert(ALL_PROVIDER_IDS@[22]@ == "modal"@);
    assert(ALL_PROVIDER_IDS@[23]@ == "vast"@);
}

proof fn lemma_name_place(i: int)
    requires
        0 <= i < ALL_PROVIDER_IDS@.len(),
    ensures
        name_place(shown_name(ALL_PROVIDER_IDS@[i]@)) == i,
        place(shown_name(ALL_PROVIDER_IDS@[i]@)) == -1,
{
    lemma_all_places();
    lemma_named_ids_are_listed(ALL_PROVIDER_IDS@[i]@);
    assert(ALL_PROVIDER_IDS@[0]@ == "anthropic"@);
    assert(ALL_PROVIDER_IDS@[1]@ == "codex"@);
    assert(ALL_PROVIDER_IDS@[2]@ == "opencode"@);
    assert(ALL_PROVIDER_IDS@[3]@ == "cursor"@);
    assert(ALL_PROVIDER_IDS@[4]@ == "antigravity"@);
    assert(ALL_PROVIDER_IDS@[5]@ == "kimi"@);
    assert(ALL_PROVIDER_IDS@[6]@ == "grok"@);
    assert(ALL_PROVIDER_IDS@[7]@ == "copilot"@);
    assert(ALL_PROVIDER_IDS@[8]@ == "commandcode"@);
    assert(ALL_PROVIDER_IDS@[9]@ == "mimo"@);
    assert(ALL_PROVIDER_IDS@[10]@ == "zai"@);
    assert(ALL_PROVIDER_IDS@[11]@ == "zaiteam"@);
    assert(ALL_PROVIDER_IDS@[12]@ == "kiro"@);
    assert(ALL_PROVIDER_IDS@[13]@ == "workbuddy"@);
    assert(ALL_PROVIDER_IDS@[14]@ == "qoder"@);
    assert(ALL_PROVIDER_IDS@[15]@ == "deepseek"@);
    assert(ALL_PROVIDER_IDS@[16]@ == "openrouter"@);
    assert(ALL_PROVIDER_IDS@[17]@ == "minimax"@);
    assert(ALL_PROVIDER_IDS@[18]@ == "volcengine"@);
    assert(ALL_PROVIDER_IDS@[19]@ == "ollama"@);
    assert(ALL_PROVIDER_IDS@[20]@ == "trae"@);
    assert(ALL_PROVIDER_IDS@[21]@ == "thirdparty"@);
    assert(ALL_PROVIDER_IDS@[22]@ == "modal"@);
    assert(ALL_PROVIDER_IDS@[23]@ == "vast"@);
    if i == 0 {
        reveal_strlit("Anthropic");
        assert(shown_name(ALL_PROVIDER_IDS@[i]@) == "Anthropic"@);
    }
    if i == 1 {
        reveal_strlit("Codex");
        assert(shown_name(ALL_PROVIDER_IDS@[i]@) == "Codex"@);
    }
    if i == 2 {
        reveal_strlit("OpenCode");
        assert(shown_name(ALL_PROVIDER_IDS@[i]@) == "OpenCode"@);
    }
    if i == 3 {
        reveal_strlit("Cursor");
        assert(shown_name(ALL_PROVIDER_IDS@[i]@) == "Cursor"@);
    }
    if i == 4 {
        reveal_strlit("Antigravity");
        assert(shown_name(ALL_PROVIDER_IDS@[i]@) == "Antigravity"@);
    }
    if i == 5 {
        reveal_strlit("Kimi");
        assert(shown_name(ALL_PROVIDER_IDS@[i]@) == "Kimi"@);
    }
    if i == 6 {
        reveal_strlit("Grok");
        assert(shown_name(ALL_PROVIDER_IDS@[i]@) == "Grok"@);
    }
    if i == 7 {
        reveal_strlit("Copilot");
        assert(shown_name(ALL_PROVIDER_IDS@[i]@) == "Copilot"@);
    }
    if i == 8 {
        reveal_strlit("Command Code");
        assert(shown_name(ALL_PROVIDER_IDS@[i]@) == "Command Code"@);
    }
    if i == 9 {
        reveal_strlit("Mimo");
        assert(shown_name(ALL_PROVIDER_IDS@[i]@) == "Mimo"@);
    }
    if i == 10 {
        reveal_strlit("Z.ai");
        assert(shown_name(ALL_PROVIDER_IDS@[i]@) == "Z.ai"@);
    }
    if i == 11 {
        reveal_strlit("Z.ai Team");
        assert(shown_name(ALL_PROVIDER_IDS@[i]@) == "Z.ai Team"@);
    }
    if i == 12 {
        reveal_strlit("Kiro");
        assert(shown_name(ALL_PROVIDER_IDS@[i]@) == "Kiro"@);
    }
    if i == 13 {
        reveal_strlit("WorkBuddy");
        assert(shown_name(ALL_PROVIDER_IDS@[i]@) == "WorkBuddy"@);
    }
    if i == 14 {
        reveal_strlit("Qoder");
        assert(shown_name(ALL_PROVIDER_IDS@[i]@) == "Qoder"@);
    }
    if i == 15 {
        reveal_strlit("DeepSeek");
        assert(shown_name(ALL_PROVIDER_IDS@[i]@) == "DeepSeek"@);
    }
    if i == 16 {
        reveal_strlit("OpenRouter");
        assert(shown_name(ALL_PROVIDER_IDS@[i]@) == "OpenRouter"@);
    }
    if i == 17 {
        reveal_strlit("MiniMax");
        assert(shown_name(ALL_PROVIDER_IDS@[i]@) == "MiniMax"@);
    }
    if i == 18 {
        reveal_strlit("Volcengine");
        assert(shown_name(ALL_PROVIDER_IDS@[i]@) == "Volcengine"@);
    }
    if i == 19 {
        reveal_strlit("Ollama");
        assert(shown_name(ALL_PROVIDER_IDS@[i]@) == "Ollama"@);
    }
    if i == 20 {
        reveal_strlit("Trae");
        assert(shown_name(ALL_PROVIDER_IDS@[i]@) == "Trae"@);
    }
    if i == 21 {
        reveal_strlit("Third-party");
        assert(shown_name(ALL_PROVIDER_IDS@[i]@) == "Third-party"@);
    }
    if i == 22 {
        reveal_strlit("Modal");
        assert(shown_name(ALL_PROVIDER_IDS@[i]@) == "Modal"@);
    }
    if i == 23 {
        reveal_strlit("Vast.ai");
        assert(shown_name(ALL_PROVIDER_IDS@[i]@) == "Vast.ai"@);
    }
}

/// An id off the list is shown as it is.
pub proof fn law_unlisted_ids_show_themselves(id: Seq<char>)
    requires
        !known(id),
    ensures
        shown_name(id) == id,
{
    lemma_named_ids_are_listed(id);
}

/// Two listed providers are shown by different names.
pub proof fn law_shown_names_are_distinct(i: int, j: int)
    requires
        0 <= i < j < ALL_PROVIDER_IDS@.len(),
    ensures
        shown_name(ALL_PROVIDER_IDS@[i]@) != shown_name(ALL_PROVIDER_IDS@[j]@),
{
    lemma_name_place(i);
    lemma_name_place(j);
}

/// Showing a shown name changes nothing more.
pub proof fn law_shown_names_stay(id: Seq<char>)
    ensures
        shown_name(shown_name(id)) == shown_name(id),
{
    lemma_named_ids_are_listed(id);
    if known(id) {
        let i = choose|i: int|
            0 <= i < ALL_PROVIDER_IDS@.len() && #[trigger] ALL_PROVIDER_IDS@[i]@ == id;
        lemma_name_place(i);
        lemma_all_places();
        lemma_named_ids_are_listed(shown_name(id));
    }
}

/// Every provider whose limits are collected is a listed one.
pub proof fn law_native_providers_are_known(i: int)
    requires
        0 <= i < NATIVE_PROVIDER_IDS@.len(),
    ensures
        known(NATIVE_PROVIDER_IDS@[i]@),
{
    if i == 0 {
        assert(ALL_PROVIDER_IDS@[0]@ == NATIVE_PROVIDER_IDS@[i]@);
    }
    if i == 1 {
        assert(ALL_PROVIDER_IDS@[1]@ == NATIVE_PROVIDER_IDS@[i]@);
    }
    if i == 2 {
        assert(ALL_PROVIDER_IDS@[3]@ == NATIVE_PROVIDER_IDS@[i]@);
    }
    if i == 3 {
        assert(ALL_PROVIDER_IDS@[4]@ == NATIVE_PROVIDER_IDS@[i]@);
    }
    if i == 4 {
        assert(ALL_PROVIDER_IDS@[6]@ == NATIVE_PROVIDER_IDS@[i]@);
    }
    if i == 5 {
        assert(ALL_PROVIDER_IDS@[7]@ == NATIVE_PROVIDER_IDS@[i]@);
    }
    if i == 6 {
        assert(ALL_PROVIDER_IDS@[8]@ == NATIVE_PROVIDER_IDS@[i]@);
    }
    if i == 7 {
        assert(ALL_PROVIDER_IDS@[17]@ == NATIVE_PROVIDER_IDS@[i]@);
    }
    if i == 8 {
        assert(ALL_PROVIDER_IDS@[10]@ == NATIVE_PROVIDER_IDS@[i]@);
    }
    if i == 9 {
        assert(ALL_PROVIDER_IDS@[11]@ == NATIVE_PROVIDER_IDS@[i]@);
    }
    if i == 10 {
        assert(ALL_PROVIDER_IDS@[14]@ == NATIVE_PROVIDER_IDS@[i]@);
    }
    if i == 11 {
        assert(ALL_PROVIDER_IDS@[20]@ == NATIVE_PROVIDER_IDS@[i]@);
    }
    if i == 12 {
        assert(ALL_PROVIDER_IDS@[12]@ == NATIVE_PROVIDER_IDS@[i]@);
    }
    if i == 13 {
        assert(ALL_PROVIDER_IDS@[19]@ == NATIVE_PROVIDER_IDS@[i]@);
    }
    if i == 14 {
        assert(ALL_PROVIDER_IDS@[15]@ == NATIVE_PROVIDER_IDS@[i]@);
    }
    if i == 15 {
        assert(ALL_PROVIDER_IDS@[16]@ == NATIVE_PROVIDER_IDS@[i]@);
    }
    if i == 16 {
        assert(ALL_PROVIDER_IDS@[22]@ == NATIVE_PROVIDER_IDS@[i]@);
    }
    if i == 17 {
        assert(ALL_PROVIDER_IDS@[23]@ == NATIVE_PROVIDER_IDS@[i]@);
    }
}

} // verus!
