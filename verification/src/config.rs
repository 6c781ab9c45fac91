//! LLM provider configuration: its defaults, the masked form shown to
//! users, the effective log level, and how a connection check decides.
//!
//! Reading and writing the config file, the environment, and the HTTP
//! requests of a connection check belong to the program around the
//! library.

use vstd::prelude::*;
use vstd::string::StringSliceAdditionalSpecFns;
use vstd::utf8::{decode_utf8, encode_utf8, encode_utf8_decode_utf8, is_char_boundary};
use crate::json::{
    Json, JsonValue, field, json_array, json_str, json_u64, member, object, opt_as_str, opt_get, parse_json,
    render_json, spec_json_text, spec_parse_json,
};
use crate::llm::adapter::{HttpView, header_views};
use crate::store::{copy_strings, string_views};
use crate::store::wire::{str_array, strings_value};
use crate::text::{decimal_seq, owned, push_str, str_eq, trim_end_char, trim_end_char_seq, u64_to_decimal};

verus! {

/// Bash commands time out after ten minutes unless configured otherwise.
pub const DEFAULT_BASH_TIMEOUT_SECS: u64 = 600;

/// Persistent application configuration: the LLM provider and logging.
#[derive(Debug)]
pub struct LlmConfig {
    pub provider: String,
    pub api_key: String,
    pub base_url: String,
    pub model: String,
    /// Configured model list (first = active).
    pub models: Vec<String>,
    /// "trace" | "debug" | "info" | "warn" | "error"
    pub log_level: String,
    /// Commands blocked from Bash tool execution (substring match).
    pub bash_blocked_commands: Vec<String>,
    /// "openai" or "anthropic".
    pub api_protocol: String,
    /// Bash command timeout in seconds; `None` is unlimited.
    pub bash_timeout_secs: Option<u64>,
}

/// The default API base URL.
pub fn default_base_url() -> (r: String)
    ensures
        r@ == "https://api.openai.com/v1"@,
{
    owned("https://api.openai.com/v1")
}

/// The default model.
pub fn default_model() -> (r: String)
    ensures
        r@ == "gpt-4o"@,
{
    owned("gpt-4o")
}

/// The default Bash timeout.
pub fn default_bash_timeout() -> (r: Option<u64>)
    ensures
        r == Some(DEFAULT_BASH_TIMEOUT_SECS),
{
    Some(DEFAULT_BASH_TIMEOUT_SECS)
}

/// The default API protocol.
pub fn default_api_protocol() -> (r: String)
    ensures
        r@ == "openai"@,
{
    owned("openai")
}

/// The default log level.
pub fn default_log_level() -> (r: String)
    ensures
        r@ == "info"@,
{
    owned("info")
}

/// Commands the Bash tool refuses by default.
pub open spec fn blocked_by_default() -> Seq<Seq<char>> {
    seq![
        "rm -rf /"@,
        "rm -rf /*"@,
        "rm -rf ~"@,
        "sudo rm"@,
        "mkfs."@,
        "dd if="@,
        ":(){ :|:& };:"@,
        "chmod 777 /"@,
        "> /dev/sda"@,
        "> /dev/nvme"@,
        "format c:"@,
    ]
}

/// The default list of blocked Bash commands.
pub fn default_blocked_commands() -> (r: Vec<String>)
    ensures
        string_views(r@) == blocked_by_default(),
{
    let v = vec![
        owned("rm -rf /"),
        owned("rm -rf /*"),
        owned("rm -rf ~"),
        owned("sudo rm"),
        owned("mkfs."),
        owned("dd if="),
        owned(":(){ :|:& };:"),
        owned("chmod 777 /"),
        owned("> /dev/sda"),
        owned("> /dev/nvme"),
        owned("format c:"),
    ];
    assert(string_views(v@) =~= blocked_by_default());
    v
}

/// The config used on first run: the given key, base URL and model where
/// there are any, the defaults for everything else.
pub fn first_run_config(api_key: Option<String>, base_url: Option<String>, model: Option<String>) -> (r: LlmConfig)
    ensures
        r.api_key@ == match api_key {
            Some(k) => k@,
            None => Seq::<char>::empty(),
        },
        r.base_url@ == match base_url {
            Some(u) => u@,
            None => "https://api.openai.com/v1"@,
        },
        r.model@ == match model {
            Some(m) => m@,
            None => "gpt-4o"@,
        },
        r.provider@ == "openai"@,
        r.log_level@ == "info"@,
        string_views(r.bash_blocked_commands@) == blocked_by_default(),
        r.api_protocol@ == "openai"@,
        r.bash_timeout_secs == Some(DEFAULT_BASH_TIMEOUT_SECS),
        r.models@.len() == 0,
{
    LlmConfig {
        api_key: match api_key {
            Some(k) => k,
            None => String::new(),
        },
        base_url: match base_url {
            Some(u) => u,
            None => default_base_url(),
        },
        model: match model {
            Some(m) => m,
            None => default_model(),
        },
        provider: owned("openai"),
        log_level: default_log_level(),
        bash_blocked_commands: default_blocked_commands(),
        api_protocol: default_api_protocol(),
        bash_timeout_secs: default_bash_timeout(),
        models: Vec::new(),
    }
}

/// The masked form of an API key: `***` for keys of at most 8 bytes,
/// otherwise the first 4 bytes, `**` and the last 4 bytes.
pub open spec fn masked_key(key: Seq<char>) -> Seq<char> {
    let b = encode_utf8(key);
    if b.len() <= 8 {
        "***"@
    } else {
        decode_utf8(b.take(4)) + "**"@ + decode_utf8(b.skip(b.len() - 4))
    }
}

/// Masking cuts the key at byte 4 and 4 bytes before its end; both must
/// fall between characters (and the key's length in bytes fits `usize`).
pub open spec fn maskable(key: Seq<char>) -> bool {
    let b = encode_utf8(key);
    &&& b.len() <= usize::MAX
    &&& b.len() > 8 ==> is_char_boundary(b, 4) && is_char_boundary(b, b.len() - 4)
}

impl LlmConfig {
    /// The log level in force: the configured one, or "info" when unset.
    pub fn effective_log_level(&self) -> (r: String)
        ensures
            self.log_level@.len() == 0 ==> r@ == "info"@,
            self.log_level@.len() > 0 ==> r@ == self.log_level@,
    {
        if self.log_level.as_str().is_empty() {
            default_log_level()
        } else {
            self.log_level.clone()
        }
    }

    /// A copy.
    pub fn duplicate(&self) -> (r: LlmConfig)
        ensures
            r.provider@ == self.provider@,
            r.api_key@ == self.api_key@,
            r.base_url@ == self.base_url@,
            r.model@ == self.model@,
            string_views(r.models@) == string_views(self.models@),
            r.log_level@ == self.log_level@,
            string_views(r.bash_blocked_commands@) == string_views(self.bash_blocked_commands@),
            r.api_protocol@ == self.api_protocol@,
            r.bash_timeout_secs == self.bash_timeout_secs,
    {
        let models = copy_strings(&self.models);
        let blocked = copy_strings(&self.bash_blocked_commands);
        LlmConfig {
            provider: self.provider.clone(),
            api_key: self.api_key.clone(),
            base_url: self.base_url.clone(),
            model: self.model.clone(),
            models,
            log_level: self.log_level.clone(),
            bash_blocked_commands: blocked,
            api_protocol: self.api_protocol.clone(),
            bash_timeout_secs: self.bash_timeout_secs,
        }
    }

    /// A copy with the API key masked for safe display (e.g. "sk-1**cdef").
    pub fn masked(&self) -> (r: LlmConfig)
        requires
            maskable(self.api_key@),
        ensures
            r.api_key@ == masked_key(self.api_key@),
            r.provider@ == self.provider@,
            r.base_url@ == self.base_url@,
            r.model@ == self.model@,
            string_views(r.models@) == string_views(self.models@),
            r.log_level@ == self.log_level@,
            string_views(r.bash_blocked_commands@) == string_views(self.bash_blocked_commands@),
            r.api_protocol@ == self.api_protocol@,
            r.bash_timeout_secs == self.bash_timeout_secs,
    {
        let mut r = self.duplicate();
        r.api_key = mask(self.api_key.as_str());
        r
    }
}

fn mask(key: &str) -> (r: String)
    requires
        maskable(key@),
    ensures
        r@ == masked_key(key@),
{
    proof {
        reveal_strlit("***");
        reveal_strlit("**");
    }
    let n = key.len();
    if n <= 8 {
        return owned("***");
    }
    let (a, _) = key.split_at(4);
    let (_, b) = key.split_at(n - 4);
    proof {
        encode_utf8_decode_utf8(a@);
        encode_utf8_decode_utf8(b@);
        assert(key.spec_bytes().subrange(0, 4) =~= encode_utf8(key@).take(4));
        assert(key.spec_bytes().subrange(n - 4, key.spec_bytes().len() as int) =~= encode_utf8(key@).skip(n - 4));
    }
    let mut s = owned(a);
    push_str(&mut s, "**");
    push_str(&mut s, b);
    s
}

// ── Connection checks ────────────────────────────────────────────────

/// A request of a connection check.
#[derive(Debug)]
pub struct Probe {
    /// `GET` when true, `POST` otherwise.
    pub get: bool,
    pub url: String,
    pub headers: Vec<(String, String)>,
    /// The JSON body of a `POST`.
    pub body: Option<String>,
}

/// A connection check against a provider: first list its models, and
/// when that says nothing conclusive, send a one-token completion.
#[derive(Debug)]
pub struct ConnectionCheck {
    pub anthropic: bool,
    /// The base URL without trailing slashes.
    pub base: String,
    pub model: String,
    pub api_key: String,
}

impl LlmConfig {
    /// Check this config's provider, key and model (the check's requests
    /// are sent by the caller, step by step).
    pub fn validate(&self) -> (r: ConnectionCheck)
        ensures
            r.anthropic == (self.api_protocol@ == "anthropic"@),
            r.base@ == trim_end_char_seq(self.base_url@, '/'),
            r.model@ == self.model@,
            r.api_key@ == self.api_key@,
    {
        LlmConfig::test_connection(self.base_url.as_str(), self.model.as_str(), self.api_key.as_str(), self.api_protocol.as_str())
    }

    /// Check connectivity with explicit credentials.
    pub fn test_connection(base_url: &str, model: &str, api_key: &str, api_protocol: &str) -> (r: ConnectionCheck)
        ensures
            r.anthropic == (api_protocol@ == "anthropic"@),
            r.base@ == trim_end_char_seq(base_url@, '/'),
            r.model@ == model@,
            r.api_key@ == api_key@,
    {
        ConnectionCheck {
            anthropic: str_eq(api_protocol, "anthropic"),
            base: trim_end_char(base_url, '/'),
            model: owned(model),
            api_key: owned(api_key),
        }
    }
}

/// The body of the one-token completion probe.
pub open spec fn probe_body(model: Seq<char>) -> Json {
    Json::Object(
        seq![
            member("model"@, Json::Str(model)),
            member(
                "messages"@,
                Json::Array(
                    seq![Json::Object(seq![member("role"@, Json::Str("user"@)), member("content"@, Json::Str("hi"@))])],
                ),
            ),
            member("max_tokens"@, Json::Number("1"@)),
            member("stream"@, Json::Bool(false)),
        ],
    )
}

/// The outcome of a check once its last status is known.
pub open spec fn models_verdict(status: Option<u16>) -> Option<Result<(), Seq<char>>> {
    match status {
        Some(s) => if (200 <= s < 300) || s == 429 {
            Some(Ok(()))
        } else if s == 401 || s == 403 {
            Some(Err("Invalid API key"@))
        } else {
            None
        },
        None => None,
    }
}

/// The verdict on the completion probe's response.
pub open spec fn probe_verdict(status: u16, body: Seq<char>) -> Result<(), Seq<char>> {
    if status == 429 {
        Ok(())
    } else if !(200 <= status < 300) {
        Err("HTTP "@ + decimal_seq(status as nat) + ": "@ + body)
    } else {
        match spec_parse_json(body) {
            Some(v) => match opt_as_str(opt_get(v.get("error"@), "message"@)) {
                Some(m) => Err(m),
                None => Ok(()),
            },
            None => Ok(()),
        }
    }
}

fn header(name: &str, value: &str) -> (r: (String, String))
    ensures
        r.0@ == name@,
        r.1@ == value@,
{
    (owned(name), owned(value))
}

impl ConnectionCheck {
    /// The models-listing request: `GET <base>/models` with a bearer token,
    /// or `GET <base>/v1/models?limit=1` with Anthropic's key headers.
    pub fn models_request(&self) -> (r: Probe)
        ensures
            r.get,
            r.body is None,
            self.anthropic ==> r.url@ == self.base@ + "/v1/models?limit=1"@ && header_views(r.headers@) == seq![
                ("x-api-key"@, self.api_key@),
                ("anthropic-version"@, "2023-06-01"@),
            ],
            !self.anthropic ==> r.url@ == self.base@ + "/models"@ && header_views(r.headers@) == seq![
                ("Authorization"@, "Bearer "@ + self.api_key@),
            ],
    {
        let mut url = self.base.clone();
        if self.anthropic {
            push_str(&mut url, "/v1/models?limit=1");
            let headers = vec![header("x-api-key", self.api_key.as_str()), header("anthropic-version", "2023-06-01")];
            assert(header_views(headers@) =~= seq![
                ("x-api-key"@, self.api_key@),
                ("anthropic-version"@, "2023-06-01"@),
            ]);
            Probe { get: true, url, headers, body: None }
        } else {
            push_str(&mut url, "/models");
            let mut auth = owned("Bearer ");
            push_str(&mut auth, self.api_key.as_str());
            let headers = vec![(owned("Authorization"), auth)];
            assert(header_views(headers@) =~= seq![("Authorization"@, "Bearer "@ + self.api_key@)]);
            Probe { get: true, url, headers, body: None }
        }
    }

    /// What the models listing settles: success (or rate limiting) passes,
    /// 401/403 is an invalid key; anything else, or no response, goes on
    /// to the completion probe.
    pub fn after_models(&self, status: Option<u16>) -> (r: Option<Result<(), String>>)
        ensures
            match models_verdict(status) {
                Some(Ok(())) => r matches Some(Ok(())),
                Some(Err(m)) => r matches Some(Err(e)) && e@ == m,
                None => r is None,
            },
    {
        match status {
            Some(s) => if (200 <= s && s < 300) || s == 429 {
                Some(Ok(()))
            } else if s == 401 || s == 403 {
                Some(Err(owned("Invalid API key")))
            } else {
                None
            },
            None => None,
        }
    }

    /// The one-token completion probe.
    pub fn completion_request(&self) -> (r: Probe)
        ensures
            !r.get,
            r.body matches Some(b) && b@ == spec_json_text(probe_body(self.model@)),
            self.anthropic ==> r.url@ == self.base@ + "/v1/messages"@ && header_views(r.headers@) == seq![
                ("Content-Type"@, "application/json"@),
                ("x-api-key"@, self.api_key@),
                ("anthropic-version"@, "2023-06-01"@),
            ],
            !self.anthropic ==> r.url@ == self.base@ + "/chat/completions"@ && header_views(r.headers@) == seq![
                ("Authorization"@, "Bearer "@ + self.api_key@),
                ("Content-Type"@, "application/json"@),
            ],
    {
        let mut msg: Vec<(String, JsonValue)> = Vec::new();
        msg.push(field("role", json_str("user")));
        msg.push(field("content", json_str("hi")));
        assert(crate::json::member_views(msg@) =~= seq![member("role"@, Json::Str("user"@)), member("content"@, Json::Str("hi"@))]);
        let msg_v = object(msg);
        let mut members: Vec<(String, JsonValue)> = Vec::new();
        let ghost mv = msg_v@;
        assert(mv =~= Json::Object(seq![member("role"@, Json::Str("user"@)), member("content"@, Json::Str("hi"@))]));
        let arr = vec![msg_v];
        assert(crate::json::json_views(arr@) =~= seq![mv]);
        members.push(field("model", json_str(self.model.as_str())));
        members.push(field("messages", json_array(arr)));
        members.push(field("max_tokens", json_u64(1)));
        members.push(field("stream", JsonValue::Bool(false)));
        proof {
            reveal_strlit("1");
            assert(decimal_seq(1) =~= "1"@);
            assert(crate::json::member_views(members@) =~= probe_body(self.model@)->Object_0);
        }
        let body = object(members);
        proof {
            assert(body@ == probe_body(self.model@));
        }
        let text = render_json(&body);
        let mut url = self.base.clone();
        if self.anthropic {
            push_str(&mut url, "/v1/messages");
            let headers = vec![
                header("Content-Type", "application/json"),
                header("x-api-key", self.api_key.as_str()),
                header("anthropic-version", "2023-06-01"),
            ];
            assert(header_views(headers@) =~= seq![
                ("Content-Type"@, "application/json"@),
                ("x-api-key"@, self.api_key@),
                ("anthropic-version"@, "2023-06-01"@),
            ]);
            Probe { get: false, url, headers, body: Some(text) }
        } else {
            push_str(&mut url, "/chat/completions");
            let mut auth = owned("Bearer ");
            push_str(&mut auth, self.api_key.as_str());
            let headers = vec![(owned("Authorization"), auth), header("Content-Type", "application/json")];
            assert(header_views(headers@) =~= seq![
                ("Authorization"@, "Bearer "@ + self.api_key@),
                ("Content-Type"@, "application/json"@),
            ]);
            Probe { get: false, url, headers, body: Some(text) }
        }
    }
}

impl LlmConfig {
    /// The verdict on the completion probe's response: rate limiting
    /// passes, a failure status reports itself with the body, and a
    /// success body that carries `error.message` reports that message.
    pub fn check_probe_response(status: u16, body: &str) -> (r: Result<(), String>)
        ensures
            match probe_verdict(status, body@) {
                Ok(()) => r is Ok,
                Err(m) => r matches Err(e) && e@ == m,
            },
    {
        if status == 429 {
            return Ok(());
        }
        if !(200 <= status && status < 300) {
            let mut s = owned("HTTP ");
            let n = u64_to_decimal(status as u64);
            push_str(&mut s, n.as_str());
            push_str(&mut s, ": ");
            push_str(&mut s, body);
            return Err(s);
        }
        match parse_json(body) {
            Some(v) => match crate::json::opt_str_member(v.get("error"), "message") {
                Some(m) => Err(m),
                None => Ok(()),
            },
            None => Ok(()),
        }
    }

    /// The verdict when the probe could not be sent.
    pub fn probe_unreachable(reason: &str) -> (r: Result<(), String>)
        ensures
            r matches Err(e) && e@ == "Network error: "@ + reason@,
    {
        let mut s = owned("Network error: ");
        push_str(&mut s, reason);
        Err(s)
    }
}


// ── The config file ──────────────────────────────────────────────────

/// The config file's document: every setting but the API key, which is
/// kept out of the file (the frontend holds keys apart, encrypted).
pub open spec fn config_file_json(c: LlmConfig) -> Json {
    Json::Object(
        seq![
            member("provider"@, Json::Str(c.provider@)),
            member("base_url"@, Json::Str(c.base_url@)),
            member("model"@, Json::Str(c.model@)),
            member("models"@, str_array(string_views(c.models@))),
            member("log_level"@, Json::Str(c.log_level@)),
            member("bash_blocked_commands"@, str_array(string_views(c.bash_blocked_commands@))),
            member("api_protocol"@, Json::Str(c.api_protocol@)),
            member(
                "bash_timeout_secs"@,
                match c.bash_timeout_secs {
                    Some(n) => Json::Number(decimal_seq(n as nat)),
                    None => Json::Null,
                },
            ),
        ],
    )
}

impl LlmConfig {
    /// What is written to the config file: every setting but the API key.
    pub fn config_file_value(&self) -> (r: JsonValue)
        ensures
            r@ == config_file_json(*self),
            r@.get("api_key"@) is None,
    {
        let mut v: Vec<(String, JsonValue)> = Vec::new();
        v.push(field("provider", json_str(self.provider.as_str())));
        v.push(field("base_url", json_str(self.base_url.as_str())));
        v.push(field("model", json_str(self.model.as_str())));
        v.push(field("models", strings_value(&self.models)));
        v.push(field("log_level", json_str(self.log_level.as_str())));
        v.push(field("bash_blocked_commands", strings_value(&self.bash_blocked_commands)));
        v.push(field("api_protocol", json_str(self.api_protocol.as_str())));
        let timeout = match self.bash_timeout_secs {
            Some(n) => json_u64(n),
            None => JsonValue::Null,
        };
        v.push(field("bash_timeout_secs", timeout));
        let ghost members = config_file_json(*self)->Object_0;
        assert(crate::json::member_views(v@) =~= members);
        proof {
            reveal_strlit("api_key");
            reveal_strlit("provider");
            reveal_strlit("base_url");
            reveal_strlit("model");
            reveal_strlit("models");
            reveal_strlit("log_level");
            reveal_strlit("bash_blocked_commands");
            reveal_strlit("api_protocol");
            reveal_strlit("bash_timeout_secs");
            assert("api_key"@.len() == 7);
            assert forall|i: int| 0 <= i < members.len() implies #[trigger] members[i].name != "api_key"@ by {
                assert(members[i].name.len() != 7);
            }
            lemma_no_member(members, "api_key"@);
        }
        object(v)
    }
}

/// A lookup of a name that no member has finds nothing.
proof fn lemma_no_member(ms: Seq<crate::json::JsonMember>, key: Seq<char>)
    requires
        forall|i: int| 0 <= i < ms.len() ==> #[trigger] ms[i].name != key,
    ensures
        crate::json::members_lookup(ms, key) is None,
    decreases ms.len(),
{
    if ms.len() > 0 {
        assert forall|i: int| 0 <= i < ms.drop_first().len() implies #[trigger] ms.drop_first()[i].name != key by {
            assert(ms.drop_first()[i] == ms[i + 1]);
        }
        lemma_no_member(ms.drop_first(), key);
    }
}

} // verus!
