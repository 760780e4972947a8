//! The settings screen: which credential each provider takes, and what is
//! being entered.

use vstd::prelude::*;

use crate::registry::ALL_PROVIDER_IDS;
use crate::text::{chars_of, same, slice_text, texts};

verus! {

/// What a credential is.
#[derive(Clone, Copy, Debug, PartialEq, Eq, Structural)]
pub enum CredentialKind {
    ApiKey,
    OAuth,
    Cookie,
}

impl CredentialKind {
    pub open spec fn name(self) -> Seq<char> {
        match self {
            CredentialKind::ApiKey => "API key"@,
            CredentialKind::OAuth => "OAuth token"@,
            CredentialKind::Cookie => "session cookie/header"@,
        }
    }

    pub fn label(self) -> (out: &'static str)
        ensures
            out@ == self.name(),
    {
        match self {
            CredentialKind::ApiKey => "API key",
            CredentialKind::OAuth => "OAuth token",
            CredentialKind::Cookie => "session cookie/header",
        }
    }
}

/// The credential that a provider takes, and where to get it.
#[derive(Clone, Copy, Debug)]
pub struct CredentialSpec {
    pub provider_id: &'static str,
    pub env_name: &'static str,
    pub kind: CredentialKind,
    pub url: &'static str,
    pub prefix: &'static str,
    pub instruction: &'static str,
}

/// The credential of a provider; other providers are found by themselves.
pub open spec fn credential_of(id: Seq<char>) -> Option<CredentialSpec> {
    if id == "anthropic"@ {
        Some(
            CredentialSpec {
                provider_id: "anthropic",
                env_name: "TOKEN_MONITOR_CLAUDE_WEB_COOKIE",
                kind: CredentialKind::Cookie,
                url: "anthropic.com",
                prefix: "",
                instruction: "Copy the authenticated web app Cookie header (usually contains sessionKey=...). An Anthropic OAuth token is also accepted here.",
            },
        )
    } else if id == "commandcode"@ {
        Some(
            CredentialSpec {
                provider_id: "commandcode",
                env_name: "TOKEN_MONITOR_COMMANDCODE_COOKIE",
                kind: CredentialKind::Cookie,
                url: "commandcode.ai",
                prefix: "",
                instruction: "Copy the authenticated Cookie header from the Command Code session.",
            },
        )
    } else if id == "openrouter"@ {
        Some(
            CredentialSpec {
                provider_id: "openrouter",
                env_name: "TOKEN_MONITOR_OPENROUTER_API_KEY",
                kind: CredentialKind::ApiKey,
                url: "openrouter.ai/settings/keys",
                prefix: "sk-or-",
                instruction: "Create a key with the smallest scope that can read your balance.",
            },
        )
    } else if id == "deepseek"@ {
        Some(
            CredentialSpec {
                provider_id: "deepseek",
                env_name: "TOKEN_MONITOR_DEEPSEEK_API_KEY",
                kind: CredentialKind::ApiKey,
                url: "platform.deepseek.com/api_keys",
                prefix: "",
                instruction: "Paste the DeepSeek API key. The balance endpoint is read-only.",
            },
        )
    } else if id == "zai"@ {
        Some(
            CredentialSpec {
                provider_id: "zai",
                env_name: "TOKEN_MONITOR_ZAI_API_KEY",
                kind: CredentialKind::ApiKey,
                url: "z.ai",
                prefix: "",
                instruction: "Paste the z.ai API key for quota lookup.",
            },
        )
    } else if id == "zaiteam"@ {
        Some(
            CredentialSpec {
                provider_id: "zaiteam",
                env_name: "TOKEN_MONITOR_ZAI_TEAM_API_KEY",
                kind: CredentialKind::ApiKey,
                url: "z.ai",
                prefix: "",
                instruction: "Paste the z.ai team API key; organization/project remain local settings.",
            },
        )
    } else if id == "minimax"@ {
        Some(
            CredentialSpec {
                provider_id: "minimax",
                env_name: "TOKEN_MONITOR_MINIMAX_API_KEY",
                kind: CredentialKind::ApiKey,
                url: "platform.minimaxi.com",
                prefix: "",
                instruction: "Paste the MiniMax coding-plan API key.",
            },
        )
    } else if id == "copilot"@ {
        Some(
            CredentialSpec {
                provider_id: "copilot",
                env_name: "TOKEN_MONITOR_COPILOT_API_TOKEN",
                kind: CredentialKind::ApiKey,
                url: "github.com/settings/copilot",
                prefix: "ghp_ / github_pat_",
                instruction: "Paste a GitHub token permitted to read Copilot usage.",
            },
        )
    } else if id == "qoder"@ {
        Some(
            CredentialSpec {
                provider_id: "qoder",
                env_name: "TOKEN_MONITOR_QODER_COOKIE",
                kind: CredentialKind::Cookie,
                url: "qoder.com",
                prefix: "",
                instruction: "Paste the authenticated Qoder Cookie header.",
            },
        )
    } else if id == "trae"@ {
        Some(
            CredentialSpec {
                provider_id: "trae",
                env_name: "TOKEN_MONITOR_TRAE_ACCESS_TOKEN",
                kind: CredentialKind::OAuth,
                url: "trae.ai",
                prefix: "",
                instruction: "Paste the Trae Cloud-IDE-JWT access token.",
            },
        )
    } else if id == "ollama"@ {
        Some(
            CredentialSpec {
                provider_id: "ollama",
                env_name: "TOKEN_MONITOR_OLLAMA_COOKIE",
                kind: CredentialKind::Cookie,
                url: "ollama.com/settings",
                prefix: "",
                instruction: "Paste the Ollama Cloud session cookie.",
            },
        )
    } else if id == "kimi"@ {
        Some(
            CredentialSpec {
                provider_id: "kimi",
                env_name: "TOKEN_MONITOR_KIMI_API_KEY",
                kind: CredentialKind::ApiKey,
                url: "kimi.com",
                prefix: "",
                instruction: "Paste the Kimi Code API key. Adapter parity is still pending.",
            },
        )
    } else if id == "mimo"@ {
        Some(
            CredentialSpec {
                provider_id: "mimo",
                env_name: "TOKEN_MONITOR_MIMO_COOKIE",
                kind: CredentialKind::Cookie,
                url: "platform.xiaomimimo.com",
                prefix: "",
                instruction: "Paste the MiMo session cookie. Adapter parity is still pending.",
            },
        )
    } else if id == "opencode"@ {
        Some(
            CredentialSpec {
                provider_id: "opencode",
                env_name: "TOKEN_MONITOR_OPENCODE_API_KEY",
                kind: CredentialKind::ApiKey,
                url: "opencode.ai",
                prefix: "",
                instruction: "Paste the OpenCode credential. Adapter parity is still pending.",
            },
        )
    } else if id == "workbuddy"@ {
        Some(
            CredentialSpec {
                provider_id: "workbuddy",
                env_name: "TOKEN_MONITOR_WORKBUDDY_COOKIE",
                kind: CredentialKind::Cookie,
                url: "workbuddy.ai",
                prefix: "",
                instruction: "Paste the WorkBuddy session cookie. Adapter parity is still pending.",
            },
        )
    } else {
        None
    }
}

pub fn credential_spec(id: &str) -> (out: Option<CredentialSpec>)
    ensures
        out == credential_of(id@),
{
    if same(id, "anthropic") {
        Some(
            CredentialSpec {
                provider_id: "anthropic",
                env_name: "TOKEN_MONITOR_CLAUDE_WEB_COOKIE",
                kind: CredentialKind::Cookie,
                url: "anthropic.com",
                prefix: "",
                instruction: "Copy the authenticated web app Cookie header (usually contains sessionKey=...). An Anthropic OAuth token is also accepted here.",
            },
        )
    } else if same(id, "commandcode") {
        Some(
            CredentialSpec {
                provider_id: "commandcode",
                env_name: "TOKEN_MONITOR_COMMANDCODE_COOKIE",
                kind: CredentialKind::Cookie,
                url: "commandcode.ai",
                prefix: "",
                instruction: "Copy the authenticated Cookie header from the Command Code session.",
            },
        )
    } else if same(id, "openrouter") {
        Some(
            CredentialSpec {
                provider_id: "openrouter",
                env_name: "TOKEN_MONITOR_OPENROUTER_API_KEY",
                kind: CredentialKind::ApiKey,
                url: "openrouter.ai/settings/keys",
                prefix: "sk-or-",
                instruction: "Create a key with the smallest scope that can read your balance.",
            },
        )
    } else if same(id, "deepseek") {
        Some(
            CredentialSpec {
                provider_id: "deepseek",
                env_name: "TOKEN_MONITOR_DEEPSEEK_API_KEY",
                kind: CredentialKind::ApiKey,
                url: "platform.deepseek.com/api_keys",
                prefix: "",
                instruction: "Paste the DeepSeek API key. The balance endpoint is read-only.",
            },
        )
    } else if same(id, "zai") {
        Some(
            CredentialSpec {
                provider_id: "zai",
                env_name: "TOKEN_MONITOR_ZAI_API_KEY",
                kind: CredentialKind::ApiKey,
                url: "z.ai",
                prefix: "",
                instruction: "Paste the z.ai API key for quota lookup.",
            },
        )
    } else if same(id, "zaiteam") {
        Some(
            CredentialSpec {
                provider_id: "zaiteam",
                env_name: "TOKEN_MONITOR_ZAI_TEAM_API_KEY",
                kind: CredentialKind::ApiKey,
                url: "z.ai",
                prefix: "",
                instruction: "Paste the z.ai team API key; organization/project remain local settings.",
            },
        )
    } else if same(id, "minimax") {
        Some(
            CredentialSpec {
                provider_id: "minimax",
                env_name: "TOKEN_MONITOR_MINIMAX_API_KEY",
                kind: CredentialKind::ApiKey,
                url: "platform.minimaxi.com",
                prefix: "",
                instruction: "Paste the MiniMax coding-plan API key.",
            },
        )
    } else if same(id, "copilot") {
        Some(
            CredentialSpec {
                provider_id: "copilot",
                env_name: "TOKEN_MONITOR_COPILOT_API_TOKEN",
                kind: CredentialKind::ApiKey,
                url: "github.com/settings/copilot",
                prefix: "ghp_ / github_pat_",
                instruction: "Paste a GitHub token permitted to read Copilot usage.",
            },
        )
    } else if same(id, "qoder") {
        Some(
            CredentialSpec {
                provider_id: "qoder",
                env_name: "TOKEN_MONITOR_QODER_COOKIE",
                kind: CredentialKind::Cookie,
                url: "qoder.com",
                prefix: "",
                instruction: "Paste the authenticated Qoder Cookie header.",
            },
        )
    } else if same(id, "trae") {
        Some(
            CredentialSpec {
                provider_id: "trae",
                env_name: "TOKEN_MONITOR_TRAE_ACCESS_TOKEN",
                kind: CredentialKind::OAuth,
                url: "trae.ai",
                prefix: "",
                instruction: "Paste the Trae Cloud-IDE-JWT access token.",
            },
        )
    } else if same(id, "ollama") {
        Some(
            CredentialSpec {
                provider_id: "ollama",
                env_name: "TOKEN_MONITOR_OLLAMA_COOKIE",
                kind: CredentialKind::Cookie,
                url: "ollama.com/settings",
                prefix: "",
                instruction: "Paste the Ollama Cloud session cookie.",
            },
        )
    } else if same(id, "kimi") {
        Some(
            CredentialSpec {
                provider_id: "kimi",
                env_name: "TOKEN_MONITOR_KIMI_API_KEY",
                kind: CredentialKind::ApiKey,
                url: "kimi.com",
                prefix: "",
                instruction: "Paste the Kimi Code API key. Adapter parity is still pending.",
            },
        )
    } else if same(id, "mimo") {
        Some(
            CredentialSpec {
                provider_id: "mimo",
                env_name: "TOKEN_MONITOR_MIMO_COOKIE",
                kind: CredentialKind::Cookie,
                url: "platform.xiaomimimo.com",
                prefix: "",
                instruction: "Paste the MiMo session cookie. Adapter parity is still pending.",
            },
        )
    } else if same(id, "opencode") {
        Some(
            CredentialSpec {
                provider_id: "opencode",
                env_name: "TOKEN_MONITOR_OPENCODE_API_KEY",
                kind: CredentialKind::ApiKey,
                url: "opencode.ai",
                prefix: "",
                instruction: "Paste the OpenCode credential. Adapter parity is still pending.",
            },
        )
    } else if same(id, "workbuddy") {
        Some(
            CredentialSpec {
                provider_id: "workbuddy",
                env_name: "TOKEN_MONITOR_WORKBUDDY_COOKIE",
                kind: CredentialKind::Cookie,
                url: "workbuddy.ai",
                prefix: "",
                instruction: "Paste the WorkBuddy session cookie. Adapter parity is still pending.",
            },
        )
    } else {
        None
    }
}

/// What the settings screen holds.
#[derive(Debug)]
pub struct SettingsState {
    pub provider_ids: Vec<String>,
    pub selected: usize,
    pub editing: bool,
    pub input: String,
    pub message: String,
}

/// What a `SettingsState` says.
pub struct SettingsView {
    pub provider_ids: Seq<Seq<char>>,
    pub selected: usize,
    pub editing: bool,
    pub input: Seq<char>,
    pub message: Seq<char>,
}

impl View for SettingsState {
    type V = SettingsView;

    open spec fn view(&self) -> SettingsView {
        SettingsView {
            provider_ids: texts(self.provider_ids@),
            selected: self.selected,
            editing: self.editing,
            input: self.input@,
            message: self.message@,
        }
    }
}

/// The identifiers of all providers.
pub open spec fn all_providers() -> Seq<Seq<char>> {
    Seq::new(ALL_PROVIDER_IDS@.len(), |i: int| ALL_PROVIDER_IDS@[i]@)
}

impl SettingsView {
    pub open spec fn start() -> SettingsView {
        SettingsView {
            provider_ids: all_providers(),
            selected: 0,
            editing: false,
            input: Seq::empty(),
            message: Seq::empty(),
        }
    }

    /// The credential of the selected provider.
    pub open spec fn credential(self) -> Option<CredentialSpec> {
        if self.selected < self.provider_ids.len() {
            credential_of(self.provider_ids[self.selected as int])
        } else {
            None
        }
    }
}

/// An empty text.
pub(crate) fn nothing() -> (out: String)
    ensures
        out@ == Seq::<char>::empty(),
{
    let out = String::new();
    assert(out@ =~= Seq::<char>::empty());
    out
}

impl SettingsState {
    pub fn new() -> (out: SettingsState)
        ensures
            out@ == SettingsView::start(),
    {
        let mut provider_ids: Vec<String> = Vec::new();
        let mut i: usize = 0;
        while i < ALL_PROVIDER_IDS.len()
            invariant
                i <= ALL_PROVIDER_IDS@.len(),
                provider_ids@.len() == i,
                forall|k: int|
                    0 <= k < i ==> (#[trigger] provider_ids@[k])@ == ALL_PROVIDER_IDS@[k]@,
            decreases ALL_PROVIDER_IDS@.len() - i,
        {
            provider_ids.push(ALL_PROVIDER_IDS[i].to_owned());
            i = i + 1;
        }
        assert(texts(provider_ids@) =~= all_providers());
        SettingsState {
            provider_ids,
            selected: 0,
            editing: false,
            input: nothing(),
            message: nothing(),
        }
    }

    pub fn selected_credential_spec(&self) -> (out: Option<CredentialSpec>)
        ensures
            out == self@.credential(),
    {
        let ghost views = texts(self.provider_ids@);
        if self.selected < self.provider_ids.len() {
            assert(views[self.selected as int] == self.provider_ids@[self.selected as int]@);
            credential_spec(self.provider_ids[self.selected].as_str())
        } else {
            None
        }
    }
}

/// The text without its last character.
pub open spec fn shortened(text: Seq<char>) -> Seq<char> {
    if text.len() == 0 {
        text
    } else {
        text.drop_last()
    }
}

pub(crate) fn without_last(text: &str) -> (out: String)
    ensures
        out@ == shortened(text@),
{
    let chars = chars_of(text);
    let total: usize = chars.len();
    if total == 0 {
        text.to_owned()
    } else {
        let out = slice_text(chars.as_slice(), 0, total - 1);
        assert(out@ =~= text@.drop_last());
        out
    }
}

/// A control character.
pub open spec fn control(c: char) -> bool {
    (c as u32) < 32 || 127 <= (c as u32) < 160
}

pub(crate) fn is_control(c: char) -> (yes: bool)
    ensures
        yes == control(c),
{
    let code: u32 = c as u32;
    code < 32 || (127 <= code && code < 160)
}

/// The text without its line breaks.
pub open spec fn unbroken(text: Seq<char>) -> Seq<char>
    decreases text.len(),
{
    if text.len() == 0 {
        text
    } else if text.last() == '\r' || text.last() == '\n' {
        unbroken(text.drop_last())
    } else {
        unbroken(text.drop_last()).push(text.last())
    }
}

pub(crate) fn without_breaks(text: &str) -> (out: String)
    ensures
        out@ == unbroken(text@),
{
    let chars = chars_of(text);
    let mut out = nothing();
    let mut i: usize = 0;
    assert(text@.take(0) =~= Seq::<char>::empty());
    while i < chars.len()
        invariant
            i <= chars@.len(),
            chars@ == text@,
            out@ == unbroken(text@.take(i as int)),
        decreases chars@.len() - i,
    {
        assert(text@.take(i + 1).drop_last() =~= text@.take(i as int));
        assert(text@.take(i + 1).last() == chars@[i as int]);
        if chars[i] != '\r' && chars[i] != '\n' {
            out.push(chars[i]);
        }
        i = i + 1;
    }
    assert(text@.take(i as int) =~= text@);
    out
}

/// What the settings store for a provider is what its collector reads first.
pub proof fn law_stored_credentials_reach_their_collector()
    ensures
        credential_of("openrouter"@) is Some && credential_of("openrouter"@)->0.env_name@
            == crate::collectors::openrouter::token_names()[0],
        credential_of("deepseek"@) is Some && credential_of("deepseek"@)->0.env_name@
            == crate::collectors::deepseek::token_names()[0],
        credential_of("zai"@) is Some && credential_of("zai"@)->0.env_name@
            == crate::collectors::zai::token_names()[0],
        credential_of("zaiteam"@) is Some && credential_of("zaiteam"@)->0.env_name@
            == crate::collectors::zai::team_token_names()[0],
        credential_of("minimax"@) is Some && credential_of("minimax"@)->0.env_name@
            == crate::collectors::minimax::token_names()[0],
        credential_of("copilot"@) is Some && credential_of("copilot"@)->0.env_name@
            == crate::collectors::copilot::token_names()[0],
        credential_of("trae"@) is Some && credential_of("trae"@)->0.env_name@
            == crate::collectors::trae::token_names()[0],
        credential_of("qoder"@) is Some && credential_of("qoder"@)->0.env_name@
            == crate::collectors::qoder::cookie_names()[0],
        credential_of("ollama"@) is Some && credential_of("ollama"@)->0.env_name@
            == crate::collectors::ollama::cookie_names()[0],
        credential_of("commandcode"@) is Some && credential_of("commandcode"@)->0.env_name@
            == crate::collectors::commandcode::cookie_names()[0],
        credential_of("anthropic"@) is Some && credential_of("anthropic"@)->0.env_name@
            == crate::collectors::claude::cookie_names()[0],
{
    reveal_strlit("anthropic");
    reveal_strlit("commandcode");
    reveal_strlit("openrouter");
    reveal_strlit("deepseek");
    reveal_strlit("zai");
    reveal_strlit("zaiteam");
    reveal_strlit("minimax");
    reveal_strlit("copilot");
    reveal_strlit("qoder");
    reveal_strlit("trae");
    reveal_strlit("ollama");
    assert("anthropic"@[0] == 'a');
    assert("commandcode"@.len() == 11 && "commandcode"@[0] == 'c');
    assert("openrouter"@.len() == 10 && "openrouter"@[0] == 'o');
    assert("deepseek"@[0] == 'd');
    assert("zai"@.len() == 3 && "zai"@[0] == 'z');
    assert("zaiteam"@.len() == 7 && "zaiteam"@[0] == 'z');
    assert("minimax"@[0] == 'm');
    assert("copilot"@.len() == 7 && "copilot"@[0] == 'c');
    assert("qoder"@[0] == 'q');
    assert("trae"@[0] == 't');
    assert("ollama"@.len() == 6 && "ollama"@[0] == 'o');
}

/// A credential belongs to the provider that it was asked for.
pub proof fn law_credentials_name_their_provider(id: Seq<char>)
    ensures
        credential_of(id) matches Some(found) ==> found.provider_id@ == id,
{
}

/// A pasted secret is kept without the breaks between its lines, all else in its
/// order.
pub proof fn law_pasted_breaks_are_dropped(text: Seq<char>)
    ensures
        unbroken(text) == text.filter(|c: char| c != '\r' && c != '\n'),
    decreases text.len(),
{
    let kept = |c: char| c != '\r' && c != '\n';
    if text.len() == 0 {
        reveal(Seq::filter);
    } else {
        let before = text.drop_last();
        law_pasted_breaks_are_dropped(before);
        assert(text =~= before.push(text.last()));
        before.lemma_filter_push(text.last(), kept);
    }
}

} // verus!
