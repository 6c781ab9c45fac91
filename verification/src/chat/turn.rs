//! Setting up a turn from a `chat.send` request: its parameters, the
//! sandbox policies, the user's uploaded images, and what each tool call
//! reports back.

use vstd::prelude::*;
use crate::error::ChatError;
use crate::json::{Json, JsonValue, opt_get, opt_json, opt_json_ref, opt_as_str};
use crate::jsonrpc::{get_param, param_str};
use crate::llm::types::{ImageContent, ImageView, image_views};
use crate::text::{owned, push_str, str_eq};

verus! {

// ── Sandbox policies ─────────────────────────────────────────────────

/// How far a class of tool actions (writing, reading, network) may go.
#[derive(Debug, Clone, Copy, PartialEq, Eq, Structural)]
pub enum Policy {
    Forbidden,
    Restricted,
    Unrestricted,
}

/// A policy name from the config.
pub open spec fn policy_named(s: Option<Seq<char>>) -> Option<Policy> {
    if s == Some("forbidden"@) {
        Some(Policy::Forbidden)
    } else if s == Some("restricted"@) {
        Some(Policy::Restricted)
    } else if s == Some("unrestricted"@) {
        Some(Policy::Unrestricted)
    } else {
        None
    }
}

/// The write policy an old-style `sandbox_mode` stands for.
pub open spec fn legacy_write_policy(s: Option<Seq<char>>) -> Option<Policy> {
    if s == Some("off"@) {
        Some(Policy::Unrestricted)
    } else if s == Some("strict"@) || s == Some("workspace_only"@) {
        Some(Policy::Restricted)
    } else {
        None
    }
}

/// The network policy an old-style `sandbox_mode` stands for.
pub open spec fn legacy_network_policy(s: Option<Seq<char>>) -> Option<Policy> {
    if s == Some("strict"@) {
        Some(Policy::Restricted)
    } else {
        None
    }
}

pub open spec fn opt_str_view_ref(s: Option<&str>) -> Option<Seq<char>> {
    match s {
        Some(t) => Some(t@),
        None => None,
    }
}

fn is_named(s: Option<&str>, name: &str) -> (r: bool)
    ensures
        r == (opt_str_view_ref(s) == Some(name@)),
{
    match s {
        Some(t) => str_eq(t, name),
        None => false,
    }
}

/// Parse a policy name: "forbidden" | "restricted" | "unrestricted".
pub fn parse_policy(s: Option<&str>) -> (r: Option<Policy>)
    ensures
        r == policy_named(opt_str_view_ref(s)),
{
    if is_named(s, "forbidden") {
        Some(Policy::Forbidden)
    } else if is_named(s, "restricted") {
        Some(Policy::Restricted)
    } else if is_named(s, "unrestricted") {
        Some(Policy::Unrestricted)
    } else {
        None
    }
}

/// Map an old-style `sandbox_mode` to a write policy.
pub fn parse_legacy_sandbox_mode(s: Option<&str>) -> (r: Option<Policy>)
    ensures
        r == legacy_write_policy(opt_str_view_ref(s)),
{
    if is_named(s, "off") {
        Some(Policy::Unrestricted)
    } else if is_named(s, "strict") || is_named(s, "workspace_only") {
        Some(Policy::Restricted)
    } else {
        None
    }
}

/// Map an old-style `sandbox_mode` to a network policy.
pub fn parse_legacy_network_mode(s: Option<&str>) -> (r: Option<Policy>)
    ensures
        r == legacy_network_policy(opt_str_view_ref(s)),
{
    if is_named(s, "strict") {
        Some(Policy::Restricted)
    } else {
        None
    }
}

/// The tools that must not be usable under the given policies: writing
/// forbids Write and Edit, reading forbids Read, Grep and Edit (Edit reads
/// before it writes), network forbids WebFetch and WebBrowser.
pub open spec fn forbidden_tools(write: Policy, read: Policy, network: Policy) -> Seq<Seq<char>> {
    (if write == Policy::Forbidden { seq!["Write"@, "Edit"@] } else { Seq::empty() })
        + (if read == Policy::Forbidden { seq!["Read"@, "Grep"@, "Edit"@] } else { Seq::empty() })
        + (if network == Policy::Forbidden { seq!["WebFetch"@, "WebBrowser"@] } else { Seq::empty() })
}

fn push_name(v: &mut Vec<String>, name: &str)
    ensures
        final(v)@.map_values(|s: String| s@) == old(v)@.map_values(|s: String| s@).push(name@),
{
    let ghost before = v@;
    let s = owned(name);
    v.push(s);
    assert(v@.map_values(|s: String| s@) =~= before.map_values(|s: String| s@).push(name@));
}

/// The names of the tools to unregister, in the order they are removed.
pub fn tools_to_unregister(write: Policy, read: Policy, network: Policy) -> (r: Vec<String>)
    ensures
        r@.map_values(|s: String| s@) == forbidden_tools(write, read, network),
{
    proof {
        reveal_strlit("Write");
        reveal_strlit("Edit");
        reveal_strlit("Read");
        reveal_strlit("Grep");
        reveal_strlit("WebFetch");
        reveal_strlit("WebBrowser");
    }
    let mut v: Vec<String> = Vec::new();
    assert(v@.map_values(|s: String| s@) =~= Seq::<Seq<char>>::empty());
    if write == Policy::Forbidden {
        push_name(&mut v, "Write");
        push_name(&mut v, "Edit");
    }
    let ghost a = v@.map_values(|s: String| s@);
    if read == Policy::Forbidden {
        push_name(&mut v, "Read");
        push_name(&mut v, "Grep");
        push_name(&mut v, "Edit");
    }
    let ghost b = v@.map_values(|s: String| s@);
    if network == Policy::Forbidden {
        push_name(&mut v, "WebFetch");
        push_name(&mut v, "WebBrowser");
    }
    assert(v@.map_values(|s: String| s@) =~= forbidden_tools(write, read, network));
    v
}

// ── Turn parameters ──────────────────────────────────────────────────

/// What a `chat.send` request configures for its turn.
#[derive(Debug)]
pub struct TurnConfig {
    pub message: String,
    pub session_id: String,
    pub api_key: String,
    pub base_url: String,
    pub model: String,
    pub protocol: String,
    pub thinking_enabled: bool,
    pub bash_timeout_secs: Option<u64>,
    pub plan_mode: bool,
    pub write_policy: Policy,
    pub read_policy: Policy,
    pub network_policy: Policy,
    pub workspace_dir: Option<String>,
}

/// The non-empty string member `key` of the config.
pub open spec fn config_text(config: Json, key: Seq<char>) -> Option<Seq<char>> {
    match config.str_at(key) {
        Some(s) => if s.len() > 0 {
            Some(s)
        } else {
            None
        },
        None => None,
    }
}

/// The write policy: the new-style setting, else the old-style sandbox
/// mode, else restricted.
pub open spec fn write_policy_of(config: Json) -> Policy {
    match policy_named(config.str_at("write_policy"@)) {
        Some(p) => p,
        None => match legacy_write_policy(config.str_at("sandbox_mode"@)) {
            Some(p) => p,
            None => Policy::Restricted,
        },
    }
}

/// The read policy: the setting, else unrestricted.
pub open spec fn read_policy_of(config: Json) -> Policy {
    match policy_named(config.str_at("read_policy"@)) {
        Some(p) => p,
        None => Policy::Unrestricted,
    }
}

/// The network policy: forbidden or unrestricted by the new-style
/// setting, else the old-style sandbox mode, else unrestricted.
pub open spec fn network_policy_of(config: Json) -> Policy {
    match policy_named(config.str_at("network_policy"@)) {
        Some(p) => if p == Policy::Forbidden {
            Policy::Forbidden
        } else {
            Policy::Unrestricted
        },
        None => match legacy_network_policy(config.str_at("sandbox_mode"@)) {
            Some(p) => p,
            None => Policy::Unrestricted,
        },
    }
}

/// The error a turn's setup fails with, checked in order: the message and
/// session parameters, the config object, then its required fields.
pub open spec fn setup_error(params: Option<Json>) -> Option<(bool, Seq<char>)> {
    let config = opt_get(params, "config"@);
    if param_str(params, "message"@) is None {
        Some((true, "Missing parameter: message"@))
    } else if param_str(params, "sessionId"@) is None {
        Some((true, "Missing parameter: sessionId"@))
    } else if config is None {
        Some((false, "Missing config"@))
    } else if config_text(config->0, "api_key"@) is None {
        Some((false, "API key not configured"@))
    } else if config_text(config->0, "base_url"@) is None {
        Some((false, "Missing config field: base_url"@))
    } else if config_text(config->0, "model"@) is None {
        Some((false, "Missing config field: model"@))
    } else if config_text(config->0, "api_protocol"@) is None {
        Some((false, "Missing config field: api_protocol"@))
    } else {
        None
    }
}

/// The config of a well-formed request.
pub open spec fn is_turn_config(t: TurnConfig, params: Option<Json>) -> bool {
    let c = opt_get(params, "config"@)->0;
    &&& param_str(params, "message"@) == Some(t.message@)
    &&& param_str(params, "sessionId"@) == Some(t.session_id@)
    &&& config_text(c, "api_key"@) == Some(t.api_key@)
    &&& config_text(c, "base_url"@) == Some(t.base_url@)
    &&& config_text(c, "model"@) == Some(t.model@)
    &&& config_text(c, "api_protocol"@) == Some(t.protocol@)
    &&& t.thinking_enabled == (c.get("thinking_enabled"@) matches Some(Json::Bool(b)) && b)
    &&& t.bash_timeout_secs == match c.get("bash_timeout_secs"@) {
        Some(v) => v.as_u64(),
        None => None,
    }
    &&& t.plan_mode == (c.get("plan_mode"@) matches Some(Json::Bool(b)) && b)
    &&& t.write_policy == write_policy_of(c)
    &&& t.read_policy == read_policy_of(c)
    &&& t.network_policy == network_policy_of(c)
    &&& match t.workspace_dir {
        Some(w) => config_text(c, "workspace_dir"@) == Some(w@),
        None => config_text(c, "workspace_dir"@) is None,
    }
}

fn config_field(config: &JsonValue, key: &str) -> (r: Option<String>)
    ensures
        match config_text(config@, key@) {
            Some(s) => r matches Some(t) && t@ == s,
            None => r is None,
        },
{
    match config.str_member(key) {
        Some(s) => if s.as_str().is_empty() {
            None
        } else {
            Some(s)
        },
        None => None,
    }
}

fn config_flag(config: &JsonValue, key: &str) -> (r: bool)
    ensures
        r == (config@.get(key@) matches Some(Json::Bool(b)) && b),
{
    match config.get(key) {
        Some(v) => match v.as_bool() {
            Some(b) => b,
            None => false,
        },
        None => false,
    }
}

fn config_str<'a>(config: &'a JsonValue, key: &str) -> (r: Option<&'a str>)
    ensures
        opt_str_view_ref(r) == config@.str_at(key@),
{
    match config.get(key) {
        Some(v) => match v.as_str() {
            Some(s) => Some(s.as_str()),
            None => None,
        },
        None => None,
    }
}

/// Read a `chat.send` request's parameters. A missing message or session
/// id is a bad request; a missing config, API key, base URL, model or
/// protocol is a configuration error.
pub fn turn_config(params: &Option<JsonValue>) -> (r: Result<TurnConfig, ChatError>)
    ensures
        match setup_error(opt_json(*params)) {
            Some((true, d)) => r matches Err(ChatError::BadRequest { detail }) && detail@ == d,
            Some((false, d)) => r matches Err(ChatError::Config { detail }) && detail@ == d,
            None => r matches Ok(t) && is_turn_config(t, opt_json(*params)),
        },
{
    proof {
        reveal_strlit("Missing parameter: message");
        reveal_strlit("Missing parameter: sessionId");
        reveal_strlit("Missing parameter: ");
        reveal_strlit("message");
        reveal_strlit("sessionId");
        assert("Missing parameter: message"@ =~= "Missing parameter: "@ + "message"@);
        assert("Missing parameter: sessionId"@ =~= "Missing parameter: "@ + "sessionId"@);
    }
    let message = match get_param(params, "message") {
        Ok(m) => owned(m),
        Err(e) => return Err(ChatError::BadRequest { detail: e.message() }),
    };
    let session_id = match get_param(params, "sessionId") {
        Ok(s) => owned(s),
        Err(e) => return Err(ChatError::BadRequest { detail: e.message() }),
    };
    let config = match params {
        Some(p) => match p.get("config") {
            Some(c) => c,
            None => return Err(ChatError::Config { detail: owned("Missing config") }),
        },
        None => return Err(ChatError::Config { detail: owned("Missing config") }),
    };
    let api_key = match config_field(config, "api_key") {
        Some(s) => s,
        None => return Err(ChatError::Config { detail: owned("API key not configured") }),
    };
    let base_url = match config_field(config, "base_url") {
        Some(s) => s,
        None => return Err(ChatError::Config { detail: owned("Missing config field: base_url") }),
    };
    let model = match config_field(config, "model") {
        Some(s) => s,
        None => return Err(ChatError::Config { detail: owned("Missing config field: model") }),
    };
    let protocol = match config_field(config, "api_protocol") {
        Some(s) => s,
        None => return Err(ChatError::Config { detail: owned("Missing config field: api_protocol") }),
    };
    let thinking_enabled = config_flag(config, "thinking_enabled");
    let bash_timeout_secs = match config.get("bash_timeout_secs") {
        Some(v) => v.as_u64(),
        None => None,
    };
    let plan_mode = config_flag(config, "plan_mode");
    let sandbox_mode = config_str(config, "sandbox_mode");
    let write_policy = match parse_policy(config_str(config, "write_policy")) {
        Some(p) => p,
        None => match parse_legacy_sandbox_mode(sandbox_mode) {
            Some(p) => p,
            None => Policy::Restricted,
        },
    };
    let read_policy = match parse_policy(config_str(config, "read_policy")) {
        Some(p) => p,
        None => Policy::Unrestricted,
    };
    let network_policy = match parse_policy(config_str(config, "network_policy")) {
        Some(p) => if p == Policy::Forbidden {
            Policy::Forbidden
        } else {
            Policy::Unrestricted
        },
        None => match parse_legacy_network_mode(sandbox_mode) {
            Some(p) => p,
            None => Policy::Unrestricted,
        },
    };
    let workspace_dir = config_field(config, "workspace_dir");
    Ok(
        TurnConfig {
            message,
            session_id,
            api_key,
            base_url,
            model,
            protocol,
            thinking_enabled,
            bash_timeout_secs,
            plan_mode,
            write_policy,
            read_policy,
            network_policy,
            workspace_dir,
        },
    )
}

// ── Uploaded images ──────────────────────────────────────────────────

/// The image an upload entry describes: its `base64` text and its
/// `media_type` (PNG when absent).
pub open spec fn upload_image(v: Json) -> Option<ImageView> {
    match v.str_at("base64"@) {
        Some(b) => Some(
            ImageView {
                base64: b,
                media_type: match v.str_at("media_type"@) {
                    Some(m) => m,
                    None => "image/png"@,
                },
            },
        ),
        None => None,
    }
}

/// The images of an `images` array; none at all when any entry lacks its
/// base64 text.
pub open spec fn upload_images(a: Seq<Json>) -> Option<Seq<ImageView>>
    decreases a.len(),
{
    if a.len() == 0 {
        Some(Seq::empty())
    } else {
        match (upload_images(a.drop_last()), upload_image(a.last())) {
            (Some(v), Some(i)) => Some(v.push(i)),
            _ => None,
        }
    }
}

/// The images uploaded with a request, `None` when there are none.
pub open spec fn user_images_of(params: Option<Json>) -> Option<Seq<ImageView>> {
    match opt_get(params, "images"@) {
        Some(Json::Array(a)) => match upload_images(a) {
            Some(v) => if v.len() == 0 {
                None
            } else {
                Some(v)
            },
            None => None,
        },
        _ => None,
    }
}

proof fn lemma_upload_images_none(a: Seq<Json>, i: int)
    requires
        0 <= i < a.len(),
        upload_image(a[i]) is None,
    ensures
        upload_images(a) is None,
    decreases a.len(),
{
    if i < a.len() - 1 {
        assert(a.drop_last()[i] == a[i]);
        lemma_upload_images_none(a.drop_last(), i);
    }
}

/// Parse the user's uploaded images from the request parameters.
pub fn parse_user_images(params: &Option<JsonValue>) -> (r: Option<Vec<ImageContent>>)
    ensures
        match r {
            Some(v) => user_images_of(opt_json(*params)) == Some(image_views(v@)),
            None => user_images_of(opt_json(*params)) is None,
        },
{
    proof {
        reveal_strlit("image/png");
    }
    let arr = match params {
        Some(p) => match p.get("images") {
            Some(v) => match v.as_array() {
                Some(a) => {
                    assert(v@ == Json::Array(crate::json::json_views(a@)));
                    a
                },
                None => return None,
            },
            None => return None,
        },
        None => return None,
    };
    assert(opt_get(opt_json(*params), "images"@) == Some(Json::Array(crate::json::json_views(arr@))));
    let ghost av = crate::json::json_views(arr@);
    let mut out: Vec<ImageContent> = Vec::new();
    let mut i: usize = 0;
    assert(av.take(0) =~= Seq::<Json>::empty());
    assert(image_views(out@) =~= Seq::<ImageView>::empty());
    while i < arr.len()
        invariant
            i <= arr@.len(),
            av == crate::json::json_views(arr@),
            opt_get(opt_json(*params), "images"@) == Some(Json::Array(av)),
            upload_images(av.take(i as int)) == Some(image_views(out@)),
        decreases arr@.len() - i,
    {
        assert(av.take(i + 1).drop_last() =~= av.take(i as int));
        assert(av.take(i + 1).last() == arr@[i as int]@);
        let img = &arr[i];
        let base64 = match img.str_member("base64") {
            Some(b) => b,
            None => {
                proof {
                    lemma_upload_images_none(av, i as int);
                }
                return None;
            },
        };
        let media_type = match img.str_member("media_type") {
            Some(m) => m,
            None => owned("image/png"),
        };
        let x = ImageContent { base64, media_type };
        let ghost before = out@;
        out.push(x);
        assert(image_views(out@) =~= image_views(before).push(x@));
        i += 1;
    }
    assert(av.take(arr@.len() as int) =~= av);
    if out.len() == 0 {
        None
    } else {
        Some(out)
    }
}

// ── Image files ──────────────────────────────────────────────────────

/// The file extension an image of the given media type is saved with.
pub open spec fn extension_for(media_type: Seq<char>) -> Seq<char> {
    if media_type == "image/jpeg"@ {
        "jpg"@
    } else if media_type == "image/gif"@ {
        "gif"@
    } else if media_type == "image/webp"@ {
        "webp"@
    } else {
        "png"@
    }
}

/// The file extension for a media type.
pub fn image_extension(media_type: &str) -> (r: &'static str)
    ensures
        r@ == extension_for(media_type@),
{
    proof {
        reveal_strlit("image/jpeg");
        reveal_strlit("image/gif");
        reveal_strlit("image/webp");
        reveal_strlit("jpg");
        reveal_strlit("gif");
        reveal_strlit("webp");
        reveal_strlit("png");
    }
    if str_eq(media_type, "image/jpeg") {
        "jpg"
    } else if str_eq(media_type, "image/gif") {
        "gif"
    } else if str_eq(media_type, "image/webp") {
        "webp"
    } else {
        "png"
    }
}

/// The name an uploaded image is saved under: `<session>_<unique>.<ext>`.
pub fn image_file_name(session_id: &str, unique: &str, media_type: &str) -> (r: String)
    ensures
        r@ == session_id@ + "_"@ + unique@ + "."@ + extension_for(media_type@),
{
    let mut s = owned(session_id);
    push_str(&mut s, "_");
    push_str(&mut s, unique);
    push_str(&mut s, ".");
    push_str(&mut s, image_extension(media_type));
    s
}

/// The media type of an image file, from its extension.
pub open spec fn media_type_for(ext: Option<Seq<char>>) -> Seq<char> {
    if ext == Some("jpg"@) || ext == Some("jpeg"@) {
        "image/jpeg"@
    } else if ext == Some("gif"@) {
        "image/gif"@
    } else if ext == Some("webp"@) {
        "image/webp"@
    } else {
        "image/png"@
    }
}

/// What `Path::extension` gives for a path, as text.
pub uninterp spec fn spec_path_extension(path: Seq<char>) -> Option<Seq<char>>;

/// `std::path::Path::extension` of a path given as text. Claimed: the
/// result depends on the text alone.
#[verifier::external_body]
fn path_extension(path: &str) -> (r: Option<String>)
    ensures
        opt_str_view_owned(r) == spec_path_extension(path@),
{
    std::path::Path::new(path).extension().and_then(|e| e.to_str()).map(|e| e.to_string())
}

pub open spec fn opt_str_view_owned(s: Option<String>) -> Option<Seq<char>> {
    match s {
        Some(t) => Some(t@),
        None => None,
    }
}

/// The media type of the image file at `path`.
pub fn media_type_for_path(path: &str) -> (r: &'static str)
    ensures
        r@ == media_type_for(spec_path_extension(path@)),
{
    proof {
        reveal_strlit("image/jpeg");
        reveal_strlit("image/gif");
        reveal_strlit("image/webp");
        reveal_strlit("image/png");
        reveal_strlit("jpg");
        reveal_strlit("jpeg");
        reveal_strlit("gif");
        reveal_strlit("webp");
    }
    let ext = path_extension(path);
    let e = match &ext {
        Some(s) => Some(s.as_str()),
        None => None,
    };
    if is_named(e, "jpg") || is_named(e, "jpeg") {
        "image/jpeg"
    } else if is_named(e, "gif") {
        "image/gif"
    } else if is_named(e, "webp") {
        "image/webp"
    } else {
        "image/png"
    }
}

/// What the standard base64 engine decodes a text to (`None` where it
/// reports an error).
pub uninterp spec fn spec_base64_decode(text: Seq<char>) -> Option<Seq<u8>>;

/// What the standard base64 engine encodes bytes to.
pub uninterp spec fn spec_base64_encode(bytes: Seq<u8>) -> Seq<char>;

/// `base64::engine::general_purpose::STANDARD.decode`. Claimed: the result
/// depends on the text alone.
#[verifier::external_body]
fn decode_base64(text: &str) -> (r: Option<Vec<u8>>)
    ensures
        match r {
            Some(b) => spec_base64_decode(text@) == Some(b@),
            None => spec_base64_decode(text@) is None,
        },
{
    base64::Engine::decode(&base64::engine::general_purpose::STANDARD, text).ok()
}

/// `base64::engine::general_purpose::STANDARD.encode`. Claimed: the text
/// depends on the bytes alone. Inputs too long for the encoded length to
/// fit in `usize` are left out (the engine panics on them).
#[verifier::external_body]
fn encode_base64(bytes: &Vec<u8>) -> (r: String)
    requires
        bytes@.len() <= usize::MAX / 2,
    ensures
        r@ == spec_base64_encode(bytes@),
{
    base64::Engine::encode(&base64::engine::general_purpose::STANDARD, bytes)
}

/// The bytes of an uploaded image, when its base64 text decodes.
pub fn image_bytes(img: &ImageContent) -> (r: Option<Vec<u8>>)
    ensures
        match r {
            Some(b) => spec_base64_decode(img.base64@) == Some(b@),
            None => spec_base64_decode(img.base64@) is None,
        },
{
    decode_base64(img.base64.as_str())
}

/// A saved image file's content as image content for the model.
pub fn image_from_file(path: &str, bytes: &Vec<u8>) -> (r: ImageContent)
    requires
        bytes@.len() <= usize::MAX / 2,
    ensures
        r@ == (ImageView { base64: spec_base64_encode(bytes@), media_type: media_type_for(spec_path_extension(path@)) }),
{
    ImageContent { base64: encode_base64(bytes), media_type: owned(media_type_for_path(path)) }
}

// ── Tool results ─────────────────────────────────────────────────────

/// How running one tool call went.
#[derive(Debug)]
pub enum ToolRun {
    /// The user cancelled before it ran.
    Cancelled,
    /// No tool of that name is registered.
    Unknown,
    /// The sandbox refused the call.
    Denied(String),
    /// The tool ran and produced output.
    Output(String),
    /// The tool ran and failed.
    Failed(String),
}

/// The text stored as the result of a tool call.
pub open spec fn tool_result_spec(name: Seq<char>, run: ToolRun) -> Seq<char> {
    match run {
        ToolRun::Cancelled => "[interrupted by user]"@,
        ToolRun::Unknown => "Unknown tool: "@ + name,
        ToolRun::Denied(m) => "Sandbox denied: "@ + m@,
        ToolRun::Output(o) => o@,
        ToolRun::Failed(e) => "Tool error: "@ + e@,
    }
}

/// The result text of tool call `name`.
pub fn tool_result_text(name: &str, run: ToolRun) -> (r: String)
    ensures
        r@ == tool_result_spec(name@, run),
{
    match run {
        ToolRun::Cancelled => owned("[interrupted by user]"),
        ToolRun::Unknown => {
            let mut s = owned("Unknown tool: ");
            push_str(&mut s, name);
            s
        },
        ToolRun::Denied(m) => {
            let mut s = owned("Sandbox denied: ");
            push_str(&mut s, m.as_str());
            s
        },
        ToolRun::Output(o) => o,
        ToolRun::Failed(e) => {
            let mut s = owned("Tool error: ");
            push_str(&mut s, e.as_str());
            s
        },
    }
}

/// The stored reply of a finished turn: its text, or a placeholder when
/// the model said nothing.
pub fn reply_content(text: &str) -> (r: String)
    ensures
        text@.len() == 0 ==> r@ == "(no response)"@,
        text@.len() > 0 ==> r@ == text@,
{
    if text.is_empty() {
        owned("(no response)")
    } else {
        owned(text)
    }
}

} // verus!
