//! JSON-RPC method handlers and routing: what each request is answered.
//! Writing the answers to stdout belongs to the program around the library.

use vstd::prelude::*;
use crate::chat::compaction::{effective_messages, effective_view, kept_start, needs_summary_message};
use crate::context::{est, lemma_messages_tokens_prepend, messages_tokens, sat, tools_tokens, window_for};
use crate::store::message_views;
use crate::system_prompt::prompt;
use crate::llm::types::{UnifiedToolView, tool_views};
use crate::text::{decimal_seq, spec_to_lowercase};
use crate::context::{estimate_total_tokens_from_store, provider_context_window};
use crate::json::{Json, JsonValue, field, json_str, member, member_views, object, opt_json};
use crate::jsonrpc::{Request, Response, get_param, get_param_opt, param_str};
use crate::llm::types::UnifiedTool;
use crate::store::{Session, new_session};
use crate::store::store_trait::{
    SessionStore, StoreError, lists_all, opt_session_view, sorted_by_update, store_create, store_delete,
};
use crate::store::session_views;
use crate::store::wire::{session_json, session_value, sessions_value};
use crate::text::{owned, push_str, str_eq};

verus! {

/// A copy of a request id.
pub fn copy_id(id: &Option<JsonValue>) -> (r: Option<JsonValue>)
    ensures
        opt_json(r) == opt_json(*id),
{
    match id {
        Some(v) => Some(v.deep_clone()),
        None => None,
    }
}

/// The answer to a request that failed with `message`.
pub fn internal_error(request: &Request, message: &str) -> (r: Response)
    ensures
        opt_json(r.id) == opt_json(request.id),
        r.result is None,
        r.error matches Some(e) && e.code == -32603 && e.message@ == "Internal error: "@ + message@,
{
    let mut m = owned("Internal error: ");
    push_str(&mut m, message);
    Response::error(copy_id(&request.id), -32603, m)
}

/// `{"ok": true}`.
pub open spec fn ok_json() -> Json {
    Json::Object(seq![member("ok"@, Json::Bool(true))])
}

fn ok_value() -> (r: JsonValue)
    ensures
        r@ == ok_json(),
{
    let mut v: Vec<(String, JsonValue)> = Vec::new();
    v.push(field("ok", JsonValue::Bool(true)));
    assert(member_views(v@) =~= seq![member("ok"@, Json::Bool(true))]);
    object(v)
}

/// A list of sessions as JSON.
pub open spec fn listed_json(vs: Seq<crate::store::SessionView>) -> Json {
    Json::Array(vs.map_values(|s: crate::store::SessionView| session_json(s)))
}

/// Answer `session.list`: every session, newest first (none when the
/// store fails).
pub fn session_list<S: SessionStore>(request: &Request, store: &S) -> (r: Response)
    requires
        store.inv(),
    ensures
        opt_json(r.id) == opt_json(request.id),
        r.error is None,
        r.result matches Some(v) && exists|vs: Seq<crate::store::SessionView>|
            (vs.len() == 0 || (sorted_by_update(vs) && lists_all(store.sessions(), vs))) && #[trigger] listed_json(vs)
                == v@,
        store.infallible() ==> (r.result matches Some(v) && exists|vs: Seq<crate::store::SessionView>|
            sorted_by_update(vs) && lists_all(store.sessions(), vs) && #[trigger] listed_json(vs) == v@),
{
    let sessions = match store.list() {
        Ok(v) => v,
        Err(_) => Vec::new(),
    };
    let value = sessions_value(&sessions);
    assert(listed_json(session_views(sessions@)) == value@);
    Response::success(copy_id(&request.id), value)
}

/// Answer `session.create`: a new empty session, stored and returned.
pub fn session_create<S: SessionStore>(request: &Request, store: &mut S) -> (r: Result<Response, StoreError>)
    requires
        old(store).inv(),
    ensures
        final(store).inv(),
        final(store).infallible() == old(store).infallible(),
        old(store).infallible() ==> r is Ok,
        r matches Ok(resp) ==> opt_json(resp.id) == opt_json(request.id) && resp.error is None && exists|s: crate::store::SessionView|
            s.messages.len() == 0 && s.created_at == s.updated_at && (resp.result matches Some(v) && v@ == session_json(s))
                && #[trigger] store_create(old(store).sessions(), s) == final(store).sessions(),
        r is Err ==> final(store).sessions() == old(store).sessions(),
{
    let s = new_session();
    match store.create(&s) {
        Ok(()) => {
            let ghost sv = s@;
            let resp = Response::success(copy_id(&request.id), session_value(&s));
            assert(store_create(old(store).sessions(), sv) == store.sessions());
            Ok(resp)
        },
        Err(e) => Err(e),
    }
}

/// Why `session.get` or `session.delete` failed.
#[derive(Debug)]
pub enum HandlerError {
    MissingParameter(String),
    NotFound,
    Store(StoreError),
}

impl HandlerError {
    /// The text of the failure.
    pub fn message(&self) -> (r: String)
        ensures
            match self {
                HandlerError::MissingParameter(k) => r@ == "Missing parameter: "@ + k@,
                HandlerError::NotFound => r@ == "Session not found"@,
                HandlerError::Store(e) => r@ == e.detail@,
            },
    {
        match self {
            HandlerError::MissingParameter(k) => {
                let mut s = owned("Missing parameter: ");
                push_str(&mut s, k.as_str());
                s
            },
            HandlerError::NotFound => owned("Session not found"),
            HandlerError::Store(e) => e.detail.clone(),
        }
    }
}

/// Answer `session.get`: the session named by `sessionId`.
pub fn session_get<S: SessionStore>(request: &Request, store: &S) -> (r: Result<Response, HandlerError>)
    requires
        store.inv(),
    ensures
        param_str(opt_json(request.params), "sessionId"@) is None ==> (r matches Err(HandlerError::MissingParameter(k))
            && k@ == "sessionId"@),
        r matches Ok(resp) ==> opt_json(resp.id) == opt_json(request.id) && resp.error is None && (param_str(
            opt_json(request.params),
            "sessionId"@,
        ) matches Some(id) && store.sessions().contains_key(id) && (resp.result matches Some(v) && v@ == session_json(
            store.sessions()[id],
        ))),
        r matches Err(HandlerError::NotFound) ==> (param_str(opt_json(request.params), "sessionId"@) matches Some(id)
            && !store.sessions().contains_key(id)),
        r matches Err(HandlerError::MissingParameter(_)) ==> param_str(opt_json(request.params), "sessionId"@) is None,
        store.infallible() ==> match param_str(opt_json(request.params), "sessionId"@) {
            Some(id) => (store.sessions().contains_key(id) ==> r is Ok) && (!store.sessions().contains_key(id) ==> r matches Err(
                HandlerError::NotFound,
            )),
            None => true,
        },
{
    let id = match get_param(&request.params, "sessionId") {
        Ok(v) => v,
        Err(e) => return Err(HandlerError::MissingParameter(e.key)),
    };
    match store.get(id) {
        Ok(Some(s)) => Ok(Response::success(copy_id(&request.id), session_value(&s))),
        Ok(None) => Err(HandlerError::NotFound),
        Err(e) => Err(HandlerError::Store(e)),
    }
}

/// Answer `session.delete`: remove the session named by `sessionId`.
pub fn session_delete<S: SessionStore>(request: &Request, store: &mut S) -> (r: Result<Response, HandlerError>)
    requires
        old(store).inv(),
    ensures
        final(store).inv(),
        param_str(opt_json(request.params), "sessionId"@) is None ==> (r matches Err(HandlerError::MissingParameter(k))
            && k@ == "sessionId"@) && final(store).sessions() == old(store).sessions(),
        r matches Ok(resp) ==> opt_json(resp.id) == opt_json(request.id) && resp.error is None && (resp.result matches Some(
            v,
        ) && v@ == ok_json()) && (param_str(opt_json(request.params), "sessionId"@) matches Some(id)
            && final(store).sessions() == store_delete(old(store).sessions(), id)),
        r is Err ==> final(store).sessions() == old(store).sessions(),
        r matches Err(HandlerError::MissingParameter(_)) ==> param_str(opt_json(request.params), "sessionId"@) is None,
        param_str(opt_json(request.params), "sessionId"@) is Some && old(store).infallible() ==> r is Ok,
        final(store).infallible() == old(store).infallible(),
{
    let id = match get_param(&request.params, "sessionId") {
        Ok(v) => v,
        Err(e) => return Err(HandlerError::MissingParameter(e.key)),
    };
    match store.delete(id) {
        Ok(()) => Ok(Response::success(copy_id(&request.id), ok_value())),
        Err(e) => Err(HandlerError::Store(e)),
    }
}

/// `{"status": "ok"}`.
pub open spec fn pong_json() -> Json {
    Json::Object(seq![member("status"@, Json::Str("ok"@))])
}

/// Answer `ping`.
pub fn ping(request: &Request) -> (r: Response)
    ensures
        opt_json(r.id) == opt_json(request.id),
        r.error is None,
        r.result matches Some(v) && v@ == pong_json(),
{
    let mut v: Vec<(String, JsonValue)> = Vec::new();
    v.push(field("status", json_str("ok")));
    assert(member_views(v@) =~= seq![member("status"@, Json::Str("ok"@))]);
    Response::success(copy_id(&request.id), object(v))
}

/// Answer a request for an unknown method.
pub fn not_found(request: &Request) -> (r: Response)
    ensures
        opt_json(r.id) == opt_json(request.id),
        r.result is None,
        r.error matches Some(e) && e.code == -32601 && e.message@ == "Method not found: "@ + request.method@,
{
    let mut m = owned("Method not found: ");
    push_str(&mut m, request.method.as_str());
    Response::error(copy_id(&request.id), -32601, m)
}

// ── Context statistics ───────────────────────────────────────────────

/// The context-usage snapshot of a session: the tokens of the system
/// prompt and tool definitions, of the messages the model would see, the
/// provider's window, and whether the history is compacted.
pub fn context_stats_value(system_tokens: usize, message_tokens: usize, context_window: usize, compacted: bool) -> (r:
    JsonValue)
    ensures
        r@ == Json::Object(
            seq![
                member("systemTokens"@, Json::Number(crate::text::decimal_seq(system_tokens as nat))),
                member("messageTokens"@, Json::Number(crate::text::decimal_seq(message_tokens as nat))),
                member("contextWindow"@, Json::Number(crate::text::decimal_seq(context_window as nat))),
                member("compacted"@, Json::Bool(compacted)),
            ],
        ),
{
    let mut v: Vec<(String, JsonValue)> = Vec::new();
    v.push(field("systemTokens", crate::json::json_u64(system_tokens as u64)));
    v.push(field("messageTokens", crate::json::json_u64(message_tokens as u64)));
    v.push(field("contextWindow", crate::json::json_u64(context_window as u64)));
    v.push(field("compacted", JsonValue::Bool(compacted)));
    assert(member_views(v@) =~= seq![
        member("systemTokens"@, Json::Number(crate::text::decimal_seq(system_tokens as nat))),
        member("messageTokens"@, Json::Number(crate::text::decimal_seq(message_tokens as nat))),
        member("contextWindow"@, Json::Number(crate::text::decimal_seq(context_window as nat))),
        member("compacted"@, Json::Bool(compacted)),
    ]);
    object(v)
}

/// The tokens of the messages the model sees for a session: the full
/// history, or after a compaction the kept messages with the summary (in
/// front of the first kept user message, or as a message of its own).
pub open spec fn effective_tokens(s: crate::store::SessionView) -> int {
    match (s.compacted_summary, s.compacted_message_id) {
        (Some(sum), Some(id)) => if needs_summary_message(s.messages, id) {
            est(sum) + messages_tokens(s.messages.skip(kept_start(s.messages, id)))
        } else {
            messages_tokens(effective_view(s.messages, id, sum))
        },
        _ => messages_tokens(s.messages),
    }
}

/// The tokens of what the model sees of a session (no system prompt, no
/// tools).
pub fn session_tokens(session: &Session) -> (r: usize)
    ensures
        r == sat(effective_tokens(session@)),
{
    let effective = effective_messages(session);
    let r = history_tokens(&effective);
    proof {
        reveal_strlit("");
        let ms = session@.messages;
        match (session@.compacted_summary, session@.compacted_message_id) {
            (Some(sum), Some(id)) => if needs_summary_message(ms, id) {
                let ev = message_views(effective@);
                lemma_messages_tokens_prepend(ev[0], ev.skip(1));
                assert(ev =~= seq![ev[0]] + ev.skip(1));
            },
            _ => {},
        }
    }
    r
}

/// `{"systemTokens": .., "messageTokens": .., "contextWindow": .., "compacted": ..}`.
pub open spec fn stats_json(system_tokens: int, message_tokens: int, context_window: int, compacted: bool) -> Json {
    Json::Object(
        seq![
            member("systemTokens"@, Json::Number(decimal_seq(system_tokens as nat))),
            member("messageTokens"@, Json::Number(decimal_seq(message_tokens as nat))),
            member("contextWindow"@, Json::Number(decimal_seq(context_window as nat))),
            member("compacted"@, Json::Bool(compacted)),
        ],
    )
}

/// The context usage of a stored session: the system prompt (built for
/// `tools`, the workspace and `cwd`) with the tool definitions, the
/// messages the model sees, the provider's window, and whether the
/// session is compacted.
pub open spec fn session_stats(
    s: crate::store::SessionView,
    tools: Seq<UnifiedToolView>,
    workspace_dir: Option<Seq<char>>,
    cwd: Seq<char>,
    base_url: Seq<char>,
) -> Json {
    stats_json(
        sat(est(prompt(cwd, workspace_dir, tools, Seq::empty(), Seq::empty())) + tools_tokens(tools)),
        sat(effective_tokens(s)),
        window_for(spec_to_lowercase(base_url)) as int,
        s.compacted_summary is Some && s.compacted_message_id is Some,
    )
}

/// The context usage reported for the session named in `params`: that of
/// the stored session, or none yet (with the provider's window) for an
/// unknown one.
pub open spec fn stats_answer(
    params: Option<Json>,
    m: Map<Seq<char>, crate::store::SessionView>,
    tools: Seq<UnifiedToolView>,
    cwd: Seq<char>,
) -> Json {
    let id = param_str(params, "sessionId"@)->0;
    let base_url = match param_str(params, "base_url"@) {
        Some(b) => b,
        None => Seq::<char>::empty(),
    };
    if m.contains_key(id) {
        session_stats(m[id], tools, param_str(params, "workspace_dir"@), cwd, base_url)
    } else {
        stats_json(0, 0, window_for(spec_to_lowercase(base_url)) as int, false)
    }
}

/// Answer `session.context_stats`. `tools` are the tool definitions the
/// model is offered and `cwd` the working directory shown in the system
/// prompt. An unknown session has no usage yet; `base_url` and
/// `workspace_dir` are optional.
pub fn session_context_stats<S: SessionStore>(
    request: &Request,
    store: &S,
    tools: &Vec<UnifiedTool>,
    cwd: &str,
) -> (r: Result<Response, HandlerError>)
    requires
        store.inv(),
    ensures
        param_str(opt_json(request.params), "sessionId"@) is None ==> (r matches Err(HandlerError::MissingParameter(k))
            && k@ == "sessionId"@),
        param_str(opt_json(request.params), "sessionId"@) is Some ==> (r is Ok || r matches Err(HandlerError::Store(_))),
        param_str(opt_json(request.params), "sessionId"@) is Some && store.infallible() ==> r is Ok,
        r matches Ok(resp) ==> opt_json(resp.id) == opt_json(request.id) && resp.error is None && (resp.result matches Some(
            v,
        ) && v@ == stats_answer(opt_json(request.params), store.sessions(), tool_views(tools@), cwd@)),
{
    proof {
        reveal_strlit("");
        assert(""@ =~= Seq::<char>::empty());
    }
    let id = match get_param(&request.params, "sessionId") {
        Ok(v) => v,
        Err(e) => return Err(HandlerError::MissingParameter(e.key)),
    };
    let base_url = match get_param_opt(&request.params, "base_url") {
        Some(b) => b,
        None => "",
    };
    let model = match get_param_opt(&request.params, "model") {
        Some(m) => m,
        None => "",
    };
    let session = match store.get(id) {
        Ok(Some(s)) => s,
        Ok(None) => {
            let w = provider_context_window(base_url);
            let v = context_stats_value(0, 0, w, false);
            assert(v@ == stats_json(0, 0, w as int, false));
            return Ok(Response::success(copy_id(&request.id), v));
        },
        Err(e) => return Err(HandlerError::Store(e)),
    };
    let compacted = session.compacted_summary.is_some() && session.compacted_message_id.is_some();
    let workspace_dir = get_param_opt(&request.params, "workspace_dir");
    let no_skills: Vec<crate::skills::Skill> = Vec::new();
    let no_injected: Vec<(String, String)> = Vec::new();
    let system_prompt = crate::system_prompt::build(tools, workspace_dir, &no_skills, &no_injected, cwd);
    let no_messages: Vec<crate::store::Message> = Vec::new();
    let system_tokens = estimate_total_tokens_from_store(system_prompt.as_str(), &no_messages, tools, model);
    let message_tokens = session_tokens(&session);
    let context_window = provider_context_window(base_url);
    proof {
        assert(message_views(no_messages@) =~= Seq::<crate::store::MessageView>::empty());
        assert(crate::skills::skill_views(no_skills@) =~= Seq::<crate::skills::SkillView>::empty());
        assert(crate::system_prompt::pair_views(no_injected@) =~= Seq::<(Seq<char>, Seq<char>)>::empty());
    }
    let v = context_stats_value(system_tokens, message_tokens, context_window, compacted);
    assert(v@ == session_stats(
        session@,
        tool_views(tools@),
        param_str(opt_json(request.params), "workspace_dir"@),
        cwd@,
        base_url@,
    ));
    Ok(Response::success(copy_id(&request.id), v))
}

// ── Routing ──────────────────────────────────────────────────────────

/// The methods answered by `route`.
pub open spec fn routed(method: Seq<char>) -> bool {
    method == "session.list"@ || method == "session.create"@ || method == "session.get"@ || method
        == "session.delete"@ || method == "session.context_stats"@ || method == "ping"@
}

/// A failed request's answer: an internal error with `message`.
pub open spec fn failed_with(r: Response, message: Seq<char>) -> bool {
    &&& r.result is None
    &&& r.error matches Some(e) && e.code == -32603 && e.message@ == "Internal error: "@ + message
}

/// How `route` answered `session.get` on a store holding `m`.
/// A store that cannot fail answers with the session exactly when it
/// holds it, and with "Session not found" otherwise.
pub open spec fn get_answered(
    r: Response,
    params: Option<Json>,
    m: Map<Seq<char>, crate::store::SessionView>,
    infallible: bool,
) -> bool {
    match param_str(params, "sessionId"@) {
        None => failed_with(r, "Missing parameter: sessionId"@),
        Some(id) => (r.error is None ==> m.contains_key(id) && (r.result matches Some(v) && v@ == session_json(m[id])))
            && (!m.contains_key(id) ==> r.error is Some) && (infallible && m.contains_key(id) ==> r.error is None) && (
        infallible && !m.contains_key(id) ==> failed_with(r, "Session not found"@)),
    }
}

/// How `route` answered `session.delete`, from `before` to `after`.
pub open spec fn delete_answered(
    r: Response,
    params: Option<Json>,
    before: Map<Seq<char>, crate::store::SessionView>,
    after: Map<Seq<char>, crate::store::SessionView>,
    infallible: bool,
) -> bool {
    match param_str(params, "sessionId"@) {
        None => failed_with(r, "Missing parameter: sessionId"@) && after == before,
        Some(id) => (r.error is None ==> after == store_delete(before, id) && (r.result matches Some(v) && v@
            == ok_json())) && (r.error is Some ==> after == before) && (infallible ==> r.error is None),
    }
}

/// How `route` answered `session.create`, from `before` to `after`.
pub open spec fn create_answered(
    r: Response,
    before: Map<Seq<char>, crate::store::SessionView>,
    after: Map<Seq<char>, crate::store::SessionView>,
    infallible: bool,
) -> bool {
    &&& infallible ==> r.error is None
    &&& r.error is None ==> exists|s: crate::store::SessionView|
        s.messages.len() == 0 && s.created_at == s.updated_at && (r.result matches Some(v) && v@ == session_json(s))
            && #[trigger] store_create(before, s) == after
    &&& r.error is Some ==> after == before
}

/// Answer a request: each known method by its handler, a failed handler
/// by an internal error, anything else by "method not found".
pub fn route<S: SessionStore>(request: &Request, store: &mut S, tools: &Vec<UnifiedTool>, cwd: &str) -> (r: Response)
    requires
        old(store).inv(),
    ensures
        final(store).inv(),
        opt_json(r.id) == opt_json(request.id),
        !routed(request.method@) ==> r.result is None && (r.error matches Some(e) && e.code == -32601 && e.message@
            == "Method not found: "@ + request.method@),
        request.method@ == "ping"@ ==> r.error is None && (r.result matches Some(v) && v@ == pong_json()),
        request.method@ == "session.list"@ ==> r.error is None && (r.result matches Some(v) && exists|
            vs: Seq<crate::store::SessionView>,
        |
            (vs.len() == 0 || (sorted_by_update(vs) && lists_all(old(store).sessions(), vs))) && #[trigger] listed_json(
                vs,
            ) == v@),
        request.method@ == "session.list"@ && old(store).infallible() ==> (r.result matches Some(v) && exists|
            vs: Seq<crate::store::SessionView>,
        | sorted_by_update(vs) && lists_all(old(store).sessions(), vs) && #[trigger] listed_json(vs) == v@),
        request.method@ == "session.get"@ ==> get_answered(
            r,
            opt_json(request.params),
            old(store).sessions(),
            old(store).infallible(),
        ),
        request.method@ == "session.create"@ ==> create_answered(
            r,
            old(store).sessions(),
            final(store).sessions(),
            old(store).infallible(),
        ),
        request.method@ == "session.context_stats"@ ==> match param_str(opt_json(request.params), "sessionId"@) {
            None => failed_with(r, "Missing parameter: sessionId"@),
            Some(_) => (r.error is None ==> (r.result matches Some(v) && v@ == stats_answer(
                opt_json(request.params),
                old(store).sessions(),
                tool_views(tools@),
                cwd@,
            ))) && (old(store).infallible() ==> r.error is None),
        },
        request.method@ == "session.delete"@ ==> delete_answered(
            r,
            opt_json(request.params),
            old(store).sessions(),
            final(store).sessions(),
            old(store).infallible(),
        ),
        final(store).infallible() == old(store).infallible(),
        !(request.method@ == "session.create"@ || request.method@ == "session.delete"@) ==> final(store).sessions()
            == old(store).sessions(),
{
    proof {
        reveal_strlit("session.list");
        reveal_strlit("session.create");
        reveal_strlit("session.get");
        reveal_strlit("session.delete");
        reveal_strlit("session.context_stats");
        reveal_strlit("ping");
        assert("ping"@.len() == 4);
        assert("ping"@ != "session.list"@);
        assert("ping"@ != "session.create"@);
        assert("ping"@ != "session.get"@);
        assert("ping"@ != "session.delete"@);
        assert("ping"@ != "session.context_stats"@);
        assert("session.list"@[8] == 'l' && "session.create"@[8] == 'c' && "session.get"@[8] == 'g');
        assert("session.list"@ != "session.create"@);
        assert("session.list"@ != "session.get"@);
        assert("session.list"@ != "session.delete"@);
        assert("session.create"@ != "session.get"@);
        assert("session.create"@ != "session.delete"@);
        assert("session.get"@ != "session.delete"@);
        assert("session.context_stats"@[8] == 'c' && "session.context_stats"@[9] == 'o');
        assert("session.create"@[9] == 'r' && "session.delete"@[8] == 'd');
        assert("session.context_stats"@ != "session.get"@);
        assert("session.context_stats"@ != "session.create"@);
        assert("session.context_stats"@ != "session.delete"@);
        assert("session.context_stats"@ != "session.list"@);
    }
    let m = request.method.as_str();
    if str_eq(m, "session.list") {
        session_list(request, store)
    } else if str_eq(m, "session.create") {
        let ghost before = store.sessions();
        match session_create(request, store) {
            Ok(resp) => {
                assert(create_answered(resp, before, store.sessions(), old(store).infallible()));
                resp
            },
            Err(e) => internal_error(request, e.detail.as_str()),
        }
    } else if str_eq(m, "session.get") {
        proof {
            reveal_strlit("Missing parameter: sessionId");
            reveal_strlit("Missing parameter: ");
            reveal_strlit("sessionId");
            assert("Missing parameter: sessionId"@ =~= "Missing parameter: "@ + "sessionId"@);
        }
        match session_get(request, store) {
            Ok(resp) => resp,
            Err(e) => {
                let t = e.message();
                internal_error(request, t.as_str())
            },
        }
    } else if str_eq(m, "session.delete") {
        proof {
            reveal_strlit("Missing parameter: sessionId");
            reveal_strlit("Missing parameter: ");
            reveal_strlit("sessionId");
            assert("Missing parameter: sessionId"@ =~= "Missing parameter: "@ + "sessionId"@);
        }
        match session_delete(request, store) {
            Ok(resp) => resp,
            Err(e) => {
                let t = e.message();
                internal_error(request, t.as_str())
            },
        }
    } else if str_eq(m, "session.context_stats") {
        proof {
            reveal_strlit("Missing parameter: sessionId");
            reveal_strlit("Missing parameter: ");
            reveal_strlit("sessionId");
            assert("Missing parameter: sessionId"@ =~= "Missing parameter: "@ + "sessionId"@);
        }
        match session_context_stats(request, store, tools, cwd) {
            Ok(resp) => resp,
            Err(e) => {
                let t = e.message();
                internal_error(request, t.as_str())
            },
        }
    } else if str_eq(m, "ping") {
        ping(request)
    } else {
        not_found(request)
    }
}

} // verus!

verus! {

// ── Manual compaction ────────────────────────────────────────────────

/// Manual compaction keeps only the last turn, so that the user sees a
/// noticeable reduction.
pub const MANUAL_KEEP_TURNS: usize = 1;

/// What `session.compact` needs: the session and the provider to ask.
#[derive(Debug)]
pub struct CompactRequest {
    pub session_id: String,
    pub api_key: String,
    pub base_url: String,
    pub model: String,
    pub protocol: String,
}

fn config_value(config: &JsonValue, key: &str) -> (r: Option<String>)
    ensures
        match crate::chat::turn::config_text(config@, key@) {
            Some(s) => r matches Some(t) && t@ == s,
            None => r is None,
        },
{
    match config.str_member(key) {
        Some(s) => if s.as_str().is_empty() {
            None
        } else {
            Some(s)
        },
        None => None,
    }
}

/// The failure of a `session.compact` request's parameters, checked in
/// order.
pub open spec fn compact_request_error(params: Option<Json>) -> Option<Seq<char>> {
    let config = crate::json::opt_get(params, "config"@);
    if param_str(params, "sessionId"@) is None {
        Some("Missing parameter: sessionId"@)
    } else if config is None {
        Some("Missing config"@)
    } else if crate::chat::turn::config_text(config->0, "api_key"@) is None {
        Some("API key not configured"@)
    } else if crate::chat::turn::config_text(config->0, "base_url"@) is None {
        Some("Missing base_url"@)
    } else if crate::chat::turn::config_text(config->0, "model"@) is None {
        Some("Missing model"@)
    } else if crate::chat::turn::config_text(config->0, "api_protocol"@) is None {
        Some("Missing api_protocol"@)
    } else {
        None
    }
}

/// Read a `session.compact` request.
pub fn compact_request(request: &Request) -> (r: Result<CompactRequest, String>)
    ensures
        match compact_request_error(opt_json(request.params)) {
            Some(e) => r matches Err(m) && m@ == e,
            None => r matches Ok(c) && param_str(opt_json(request.params), "sessionId"@) == Some(c.session_id@) && ({
                let cfg = crate::json::opt_get(opt_json(request.params), "config"@)->0;
                &&& crate::chat::turn::config_text(cfg, "api_key"@) == Some(c.api_key@)
                &&& crate::chat::turn::config_text(cfg, "base_url"@) == Some(c.base_url@)
                &&& crate::chat::turn::config_text(cfg, "model"@) == Some(c.model@)
                &&& crate::chat::turn::config_text(cfg, "api_protocol"@) == Some(c.protocol@)
            }),
        },
{
    proof {
        reveal_strlit("Missing parameter: sessionId");
        reveal_strlit("Missing parameter: ");
        reveal_strlit("sessionId");
        assert("Missing parameter: sessionId"@ =~= "Missing parameter: "@ + "sessionId"@);
    }
    let session_id = match get_param(&request.params, "sessionId") {
        Ok(v) => owned(v),
        Err(e) => return Err(e.message()),
    };
    let config = match &request.params {
        Some(p) => match p.get("config") {
            Some(c) => c,
            None => return Err(owned("Missing config")),
        },
        None => return Err(owned("Missing config")),
    };
    let api_key = match config_value(config, "api_key") {
        Some(s) => s,
        None => return Err(owned("API key not configured")),
    };
    let base_url = match config_value(config, "base_url") {
        Some(s) => s,
        None => return Err(owned("Missing base_url")),
    };
    let model = match config_value(config, "model") {
        Some(s) => s,
        None => return Err(owned("Missing model")),
    };
    let protocol = match config_value(config, "api_protocol") {
        Some(s) => s,
        None => return Err(owned("Missing api_protocol")),
    };
    Ok(CompactRequest { session_id, api_key, base_url, model, protocol })
}

/// `{"compacted": false, "reason": reason}`.
pub open spec fn refused_json(reason: Seq<char>) -> Json {
    Json::Object(seq![member("compacted"@, Json::Bool(false)), member("reason"@, Json::Str(reason))])
}

/// `{"compacted": false, "reason": reason}`.
pub fn compaction_refused(reason: &str) -> (r: JsonValue)
    ensures
        r@ == refused_json(reason@),
{
    let mut v: Vec<(String, JsonValue)> = Vec::new();
    v.push(field("compacted", JsonValue::Bool(false)));
    v.push(field("reason", json_str(reason)));
    assert(member_views(v@) =~= seq![member("compacted"@, Json::Bool(false)), member("reason"@, Json::Str(reason@))]);
    object(v)
}

/// The answer to a manual compaction refused before the model is asked: a
/// session with fewer than `MIN_MSGS` messages has too little to compact.
pub fn compaction_precheck(session: &Session) -> (r: Option<JsonValue>)
    ensures
        session@.messages.len() < crate::context::MIN_MSGS ==> (r matches Some(v) && v@ == refused_json(
            "too few messages to compact"@,
        )),
        session@.messages.len() >= crate::context::MIN_MSGS ==> r is None,
{
    if session.messages.len() < crate::context::MIN_MSGS {
        Some(compaction_refused("too few messages to compact"))
    } else {
        None
    }
}

/// `{"compacted": true, "beforeTokens": before, "afterTokens": after}`.
pub fn compaction_done(before: usize, after: usize) -> (r: JsonValue)
    ensures
        r@ == Json::Object(
            seq![
                member("compacted"@, Json::Bool(true)),
                member("beforeTokens"@, Json::Number(crate::text::decimal_seq(before as nat))),
                member("afterTokens"@, Json::Number(crate::text::decimal_seq(after as nat))),
            ],
        ),
{
    let mut v: Vec<(String, JsonValue)> = Vec::new();
    v.push(field("compacted", JsonValue::Bool(true)));
    v.push(field("beforeTokens", crate::json::json_u64(before as u64)));
    v.push(field("afterTokens", crate::json::json_u64(after as u64)));
    assert(member_views(v@) =~= seq![
        member("compacted"@, Json::Bool(true)),
        member("beforeTokens"@, Json::Number(crate::text::decimal_seq(before as nat))),
        member("afterTokens"@, Json::Number(crate::text::decimal_seq(after as nat))),
    ]);
    object(v)
}

/// The tokens of the messages the model sees (no system prompt, no
/// tools).
pub fn history_tokens(effective: &Vec<crate::store::Message>) -> (r: usize)
    ensures
        r == crate::context::sat(crate::context::est(Seq::<char>::empty()) + crate::context::messages_tokens(
            crate::store::message_views(effective@),
        )),
{
    let tools: Vec<UnifiedTool> = Vec::new();
    let r = estimate_total_tokens_from_store("", effective, &tools, "");
    proof {
        reveal_strlit("");
        assert(""@ =~= Seq::<char>::empty());
        assert(crate::llm::types::tool_views(tools@) =~= Seq::<crate::llm::types::UnifiedToolView>::empty());
    }
    r
}

} // verus!
