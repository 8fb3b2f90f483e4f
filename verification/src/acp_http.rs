//! The ACP channel over HTTP: what it answers to each request, and what becomes of a
//! reply.
use vstd::prelude::*;

use crate::acp_protocol::{
    answers_with_error, block_texts, error_body, error_envelope, find_text_param, json_rpc_error,
    json_rpc_result, law_answers_echo_the_id, law_answers_hold_what_they_answer,
    lemma_error_answers, parse_prompt_params, prompt_blocks_to_text, prompt_params, result_body,
    result_envelope, text_param, without_error_mark, BlockV, JsonRpcRequest, JSONRPC_INTERNAL_ERROR,
    JSONRPC_INVALID_PARAMS, JSONRPC_INVALID_REQUEST, JSONRPC_METHOD_NOT_FOUND, JSONRPC_PARSE_ERROR,
    JSONRPC_SERVER_ERROR,
};
use crate::acp_state::{
    law_sweep_drops_exactly_the_stale, AcpChannelConfig, AcpHttpConfig, AcpHttpState,
    BaseChannelConfig, PendingPrompt, SessionEntry, SessionV, StateV, ACP_HTTP_CHANNEL_NAME,
    ACP_HTTP_SENDER_ID, MAX_ACP_SESSIONS, MAX_PROMPT_BYTES,
};
use crate::acp_stream::{ends_stream, frames_for, stop_result, EventV, FragmentV, PromptFragment};
use crate::bus::{
    plain_inbound, InboundMessage, InboundV, OutboundMessage, OutboundMessageKind, OutboundV,
    OUTBOUND_CUSTOM_NAME_KEY, OUTBOUND_CUSTOM_PAYLOAD_KEY, OUTBOUND_CUSTOM_SUMMARY_KEY,
    OUTBOUND_ERROR_KEY,
};
use crate::cut::{byte_len, byte_length};
use crate::http::{
    authorized, body_is_whole, build_204_notification, build_cors_preflight, build_http_error,
    content_length, cors_header, declared_length, find_header_end, has_whole_body, header_end,
    json_response, notification_response, parse_request, parsed, sse, sse_text, validate_auth,
    ParsedRequest,
};
use crate::json::{
    array, at, inner, items_view, json_of_text, json_text, lemma_array_view, no_fields, object,
    parse_json, put_field, put_item, put_text, says, Json, JsonV,
};
use crate::loop_events::custom_event;
use crate::number::{decimal, decimal_text};
use crate::paths::{climbs, cwd_contains_traversal, is_absolute, path_is_absolute};
use crate::split::join;
use crate::text::{law_texts_hold_their_parts, put, same_text, starts_with, text};
use crate::tool_helpers::holds;

verus! {

// ---------------------------------------------------------------------------
// The channel
// ---------------------------------------------------------------------------
/// The ACP channel over HTTP: its settings, its sessions, and whether it runs.
#[derive(Debug)]
pub struct AcpHttpChannel {
    pub config: AcpChannelConfig,
    pub http_config: AcpHttpConfig,
    pub base_config: BaseChannelConfig,
    pub running: bool,
    pub state: AcpHttpState,
}

/// Why a working directory is not accepted.
pub open spec fn cwd_refusal(cwd: Option<Seq<char>>) -> Option<Seq<char>> {
    match cwd {
        None => Some("session/new: cwd is required"@),
        Some(c) => if c.len() == 0 {
            Some("session/new: cwd is required"@)
        } else if !is_absolute(c) {
            Some("session/new: cwd must be an absolute path"@)
        } else if byte_len(c) > 4096 {
            Some("session/new: cwd exceeds 4096 bytes"@)
        } else if climbs(c) {
            Some("session/new: cwd must not contain '..' path segments"@)
        } else {
            None
        },
    }
}

/// Why a working directory is not accepted.
fn cwd_refusal_text(cwd: Option<&String>) -> (r: Option<&'static str>)
    ensures
        match r {
            Some(m) => cwd_refusal(
                match cwd {
                    Some(c) => Some(c@),
                    None => None,
                },
            ) == Some(m@),
            None => cwd_refusal(
                match cwd {
                    Some(c) => Some(c@),
                    None => None,
                },
            ) is None && cwd is Some,
        },
{
    match cwd {
        None => Some("session/new: cwd is required"),
        Some(c) => if c.as_str().is_empty() {
            Some("session/new: cwd is required")
        } else if !path_is_absolute(c.as_str()) {
            Some("session/new: cwd must be an absolute path")
        } else if byte_length(c.as_str()) > 4096 {
            Some("session/new: cwd exceeds 4096 bytes")
        } else if cwd_contains_traversal(c.as_str()) {
            Some("session/new: cwd must not contain '..' path segments")
        } else {
            None
        },
    }
}

/// The capabilities that the agent declares.
pub open spec fn capabilities() -> JsonV {
    JsonV::Object(
        Seq::empty()
            .push(("loadSession"@, JsonV::Bool(false)))
            .push(("promptCapabilities"@, JsonV::Object(
                Seq::empty()
                    .push(("image"@, JsonV::Bool(false)))
                    .push(("audio"@, JsonV::Bool(false)))
                    .push(("embeddedContext"@, JsonV::Bool(false))),
            )))
            .push(("mcpCapabilities"@, JsonV::Object(
                Seq::empty()
                    .push(("http"@, JsonV::Bool(false)))
                    .push(("sse"@, JsonV::Bool(false))),
            )))
            .push(("sessionCapabilities"@, JsonV::Object(
                Seq::empty()
                    .push(("list"@, JsonV::Object(Seq::empty()))),
            ))),
    )
}

/// The answer to `initialize`.
pub open spec fn initialize_result(version: Seq<char>) -> JsonV {
    JsonV::Object(
        Seq::empty()
            .push(("protocolVersion"@, JsonV::Text("1"@)))
            .push(("agentCapabilities"@, capabilities()))
            .push(("agentInfo"@, JsonV::Object(
                Seq::empty()
                    .push(("name"@, JsonV::Text("zeptoclaw"@)))
                    .push(("title"@, JsonV::Text("ZeptoClaw"@)))
                    .push(("version"@, JsonV::Text(version))),
            )))
            .push(("authMethods"@, JsonV::Array(Seq::empty()))),
    )
}

fn empty_object() -> (r: Json)
    ensures
        r@ == JsonV::Object(Seq::empty()),
{
    object(no_fields())
}

fn capabilities_json() -> (r: Json)
    ensures
        r@ == capabilities(),
{
    let mut prompt = no_fields();
    put_field(&mut prompt, "image", Json::Bool(false));
    put_field(&mut prompt, "audio", Json::Bool(false));
    put_field(&mut prompt, "embeddedContext", Json::Bool(false));
    let mut mcp = no_fields();
    put_field(&mut mcp, "http", Json::Bool(false));
    put_field(&mut mcp, "sse", Json::Bool(false));
    let mut session = no_fields();
    put_field(&mut session, "list", empty_object());
    let mut all = no_fields();
    put_field(&mut all, "loadSession", Json::Bool(false));
    put_field(&mut all, "promptCapabilities", object(prompt));
    put_field(&mut all, "mcpCapabilities", object(mcp));
    put_field(&mut all, "sessionCapabilities", object(session));
    object(all)
}

/// What is told of a session.
pub open spec fn session_info(id: Seq<char>, cwd: Seq<char>, in_flight: bool) -> JsonV {
    JsonV::Object(
        Seq::empty()
            .push(("sessionId"@, JsonV::Text(id)))
            .push(("cwd"@, JsonV::Text(cwd)))
            .push(("_meta"@, JsonV::Object(
                Seq::empty()
                    .push(("pending"@, JsonV::Bool(in_flight))),
            ))),
    )
}

fn session_info_json(id: &str, cwd: &str, in_flight: bool) -> (r: Json)
    ensures
        r@ == session_info(id@, cwd@, in_flight),
{
    let mut meta = no_fields();
    put_field(&mut meta, "pending", Json::Bool(in_flight));
    let mut info = no_fields();
    put_text(&mut info, "sessionId", id);
    put_text(&mut info, "cwd", cwd);
    put_field(&mut info, "_meta", object(meta));
    object(info)
}

impl StateV {
    /// Whether a session is listed: all are, or those with the given working
    /// directory.
    pub open spec fn is_listed(self, id: Seq<char>, cwd: Option<Seq<char>>) -> bool {
        match cwd {
            Some(c) => self.sessions[id].cwd == c,
            None => true,
        }
    }

    /// What is told of the sessions `keys`.
    pub open spec fn listing(self, keys: Seq<Seq<char>>, cwd: Option<Seq<char>>) -> Seq<JsonV>
        decreases keys.len(),
    {
        if keys.len() == 0 {
            seq![]
        } else {
            let rest = self.listing(keys.drop_last(), cwd);
            let id = keys.last();
            if self.is_listed(id, cwd) {
                rest.push(
                    session_info(id, self.sessions[id].cwd, self.pending.contains_key(id)),
                )
            } else {
                rest
            }
        }
    }
}

/// The session, the content, the kind and the request of an injected message.
pub open spec fn inject_params(params: Option<Json>) -> Option<
    (Seq<char>, Seq<char>, Seq<char>, Seq<char>),
> {
    match (
        text_param(params, "sessionId"@),
        text_param(params, "content"@),
        text_param(params, "kind"@),
        text_param(params, "requestId"@),
    ) {
        (Some(session_id), Some(content), Some(kind), Some(request_id)) => Some(
            (session_id, content, kind, request_id),
        ),
        _ => match params {
            Some(p) => match p@ {
                JsonV::Array(a) => if a.len() == 4 {
                    match (a[0], a[1], a[2], a[3]) {
                        (
                            JsonV::Text(session_id),
                            JsonV::Text(content),
                            JsonV::Text(kind),
                            JsonV::Text(request_id),
                        ) => Some((session_id, content, kind, request_id)),
                        _ => None,
                    }
                } else {
                    None
                },
                _ => None,
            },
            None => None,
        },
    }
}

fn parse_inject_params(params: &Option<Json>) -> (r: Option<(String, String, String, String)>)
    ensures
        match r {
            Some((a, b, c, d)) => inject_params(*params) == Some((a@, b@, c@, d@)),
            None => inject_params(*params) is None,
        },
{
    if let (Some(session_id), Some(content), Some(kind), Some(request_id)) = (
        find_text_param(params, "sessionId"),
        find_text_param(params, "content"),
        find_text_param(params, "kind"),
        find_text_param(params, "requestId"),
    ) {
        return Some((session_id.clone(), content.clone(), kind.clone(), request_id.clone()));
    }
    if let Some(Json::Array(a)) = params {
        proof {
            lemma_array_view(*a);
        }
        if a.len() == 4 {
            proof {
                assert(items_view(a@)[0] == a@[0]@);
                assert(items_view(a@)[1] == a@[1]@);
                assert(items_view(a@)[2] == a@[2]@);
                assert(items_view(a@)[3] == a@[3]@);
            }
            if let (
                Json::Text(session_id),
                Json::Text(content),
                Json::Text(kind),
                Json::Text(request_id),
            ) = (&a[0], &a[1], &a[2], &a[3]) {
                return Some(
                    (session_id.clone(), content.clone(), kind.clone(), request_id.clone()),
                );
            }
        }
    }
    None
}

/// The message that an injection becomes.
pub open spec fn injected(
    session_id: Seq<char>,
    content: Seq<char>,
    kind: Seq<char>,
    request_id: Seq<char>,
) -> InboundV {
    let m = plain_inbound(
        ACP_HTTP_CHANNEL_NAME@,
        ACP_HTTP_SENDER_ID@,
        session_id,
        content,
    );
    InboundV {
        metadata: m.metadata.insert("inject_kind"@, kind).insert("request_id"@, request_id),
        ..m
    }
}

/// The message that a prompt becomes: it asks for a streamed reply.
pub open spec fn prompted(session_id: Seq<char>, content: Seq<char>) -> InboundV {
    let m = plain_inbound(
        ACP_HTTP_CHANNEL_NAME@,
        ACP_HTTP_SENDER_ID@,
        session_id,
        content,
    );
    InboundV { metadata: m.metadata.insert("streaming_capable"@, "true"@), ..m }
}

/// The code and the words of a refusal.
pub struct RefusalV {
    pub code: i64,
    pub message: Seq<char>,
}

impl StateV {
    /// Why an injection is refused.
    pub open spec fn inject_refusal(self, allowed: bool, params: Option<Json>) -> Option<RefusalV> {
        if !allowed {
            Some(RefusalV { code: JSONRPC_SERVER_ERROR, message: "Unauthorized"@ })
        } else {
            match inject_params(params) {
                None => Some(
                    RefusalV {
                        code: JSONRPC_INVALID_PARAMS,
                        message: "x.openshell/inject_inbound: missing or invalid params"@,
                    },
                ),
                Some((session_id, _, kind, request_id)) => if session_id.len() == 0 || kind.len()
                    == 0 || request_id.len() == 0 {
                    Some(
                        RefusalV {
                            code: JSONRPC_INVALID_PARAMS,
                            message:
                                "x.openshell/inject_inbound: sessionId/kind/requestId are required"@,
                        },
                    )
                } else if !self.sessions.contains_key(session_id) {
                    Some(
                        RefusalV {
                            code: JSONRPC_SERVER_ERROR,
                            message: "ACP: unknown session "@ + session_id,
                        },
                    )
                } else {
                    None
                },
            }
        }
    }

    /// Why a prompt is refused.
    pub open spec fn prompt_refusal(self, allowed: bool, params: Option<Json>) -> Option<RefusalV> {
        if !allowed {
            Some(RefusalV { code: JSONRPC_SERVER_ERROR, message: "Unauthorized"@ })
        } else {
            match prompt_params(params) {
                None => Some(
                    RefusalV {
                        code: JSONRPC_INVALID_PARAMS,
                        message: "session/prompt: missing or invalid params"@,
                    },
                ),
                Some((session_id, blocks)) => {
                    let content = join(block_texts(blocks), "\n"@);
                    if content.len() == 0 {
                        Some(
                            RefusalV {
                                code: JSONRPC_INVALID_PARAMS,
                                message: "session/prompt: prompt content is empty"@,
                            },
                        )
                    } else if byte_len(content) > MAX_PROMPT_BYTES {
                        Some(
                            RefusalV {
                                code: JSONRPC_INVALID_PARAMS,
                                message: "session/prompt: content too large ("@ + decimal(
                                    byte_len(content),
                                ) + " bytes, limit "@ + decimal(MAX_PROMPT_BYTES as nat) + ")"@,
                            },
                        )
                    } else if !self.sessions.contains_key(session_id) {
                        Some(
                            RefusalV {
                                code: JSONRPC_SERVER_ERROR,
                                message: "ACP: unknown session "@ + session_id,
                            },
                        )
                    } else if self.pending.contains_key(session_id) {
                        Some(
                            RefusalV {
                                code: JSONRPC_INVALID_PARAMS,
                                message:
                                    "session/prompt: a prompt is already in flight for this session"@,
                            },
                        )
                    } else {
                        None
                    }
                },
            }
        }
    }

    /// The state after a prompt was asked for: its session counts as used even
    /// where another prompt is in flight.
    pub open spec fn after_prompt(self, allowed: bool, params: Option<Json>, now: u64) -> StateV {
        match (prompt_params(params), self.prompt_refusal(allowed, params)) {
            (Some((session_id, _)), None) => StateV {
                pending: self.pending.insert(session_id, PendingPrompt { cancelled: false }),
                ..self.touched(session_id, now)
            },
            (Some((session_id, blocks)), Some(_)) => {
                let content = join(block_texts(blocks), "\n"@);
                if allowed && content.len() > 0 && byte_len(content) <= MAX_PROMPT_BYTES
                    && self.sessions.contains_key(session_id) {
                    self.touched(session_id, now)
                } else {
                    self
                }
            },
            _ => self,
        }
    }

    /// Why a new session is refused, apart from there being too many.
    pub open spec fn new_refusal(self, allowed: bool, cwd: Option<Seq<char>>) -> Option<RefusalV> {
        if !allowed {
            Some(RefusalV { code: JSONRPC_SERVER_ERROR, message: "Unauthorized"@ })
        } else {
            match cwd_refusal(cwd) {
                Some(message) => Some(RefusalV { code: JSONRPC_INVALID_PARAMS, message }),
                None => None,
            }
        }
    }

    /// The state after a new session was asked for.
    pub open spec fn after_new(
        self,
        allowed: bool,
        cwd: Option<Seq<char>>,
        session_id: Seq<char>,
        now: u64,
        ttl: Option<u64>,
    ) -> StateV {
        let swept = self.swept_if(now, ttl);
        if self.new_refusal(allowed, cwd) is Some {
            self
        } else if swept.sessions.dom().len() >= MAX_ACP_SESSIONS {
            swept
        } else {
            StateV {
                sessions: swept.sessions.insert(
                    session_id,
                    SessionV { cwd: cwd->0, last_active: now },
                ),
                ..swept
            }
        }
    }
}

/// The answer to `session/new`, where it is given.
pub open spec fn new_session_result(session_id: Seq<char>) -> JsonV {
    JsonV::Object(Seq::empty().push(("sessionId"@, JsonV::Text(session_id))))
}

impl AcpHttpChannel {
    /// Whether the channel's clients may use it.
    pub open spec fn is_open(&self) -> bool {
        self.base_config.allows(ACP_HTTP_SENDER_ID@)
    }

    /// Whether pages of any origin may read the channel's answers: only where no
    /// token is required.
    pub open spec fn cors(&self) -> bool {
        self.http_config.auth_token is None
    }

    /// Whether two values of a channel have the same settings.
    pub open spec fn same_settings(&self, other: &Self) -> bool {
        self.config == other.config && self.http_config == other.http_config && self.base_config
            == other.base_config && self.running == other.running
    }

    /// A channel that does not run yet.
    pub fn new(
        config: AcpChannelConfig,
        http_config: AcpHttpConfig,
        base_config: BaseChannelConfig,
    ) -> (r: Self)
        ensures
            r.config == config,
            r.http_config == http_config,
            r.base_config == base_config,
            !r.running,
            r.state@ == (StateV { sessions: Map::empty(), pending: Map::empty() }),
    {
        AcpHttpChannel { config, http_config, base_config, running: false, state: AcpHttpState::new() }
    }

    /// The channel's name.
    pub fn name(&self) -> (r: &'static str)
        ensures
            r@ == ACP_HTTP_CHANNEL_NAME@,
    {
        ACP_HTTP_CHANNEL_NAME
    }

    /// Whether the channel runs.
    pub fn is_running(&self) -> (r: bool)
        ensures
            r == self.running,
    {
        self.running
    }

    /// Whether a user may use the channel.
    pub fn is_allowed(&self, user_id: &str) -> (r: bool)
        ensures
            r == self.base_config.allows(user_id@),
    {
        self.base_config.is_allowed(user_id)
    }

    /// Lets the channel run; tells whether it did not run before.
    pub fn start(&mut self) -> (r: bool)
        ensures
            r == !old(self).running,
            final(self).running,
            final(self).state@ == old(self).state@,
            final(self).config == old(self).config,
            final(self).http_config == old(self).http_config,
            final(self).base_config == old(self).base_config,
    {
        let fresh = !self.running;
        self.running = true;
        fresh
    }

    /// The address that the channel listens on.
    pub fn address(&self) -> (r: String)
        ensures
            r@ == self.http_config.bind@ + ":"@ + decimal(self.http_config.port as nat),
    {
        let mut s = self.http_config.bind.clone();
        put(&mut s, ":");
        put(&mut s, decimal_text(self.http_config.port as u64).as_str());
        s
    }

    /// Ends the channel's work: it does not run, and no prompt is in flight.
    pub fn stop(&mut self)
        ensures
            !final(self).running,
            final(self).state@ == (StateV { pending: Map::empty(), ..old(self).state@ }),
            final(self).config == old(self).config,
            final(self).http_config == old(self).http_config,
            final(self).base_config == old(self).base_config,
    {
        self.running = false;
        self.state.pending.clear();
    }

    /// Where the headers of a request end, if they do.
    pub fn find_header_end(data: &[u8]) -> (r: Option<usize>)
        ensures
            match r {
                Some(i) => header_end(data@, 0) == Some(i as int) && i + 4 <= data.len(),
                None => header_end(data@, 0) is None,
            },
    {
        find_header_end(data)
    }

    /// Reads a request.
    pub fn parse_request(raw: &[u8]) -> (r: Option<ParsedRequest>)
        requires
            body_is_whole(raw@),
        ensures
            match r {
                Some(req) => parsed(raw@) == Some(req.deep_view()),
                None => parsed(raw@) is None,
            },
    {
        parse_request(raw)
    }

    /// The length that the headers declare, zero where they declare none.
    pub fn content_length(headers: &Vec<(String, String)>) -> (r: usize)
        ensures
            r == declared_length(headers.deep_view()),
    {
        content_length(headers)
    }

    /// A successful response with a JSON body.
    pub fn http_200(body: &str, open_cors: bool) -> (r: String)
        ensures
            r@ == json_response("200 OK"@, body@, open_cors),
    {
        build_http_error("200 OK", body, open_cors)
    }

    /// The response to a request that cannot be read.
    pub fn http_400(body: &str, open_cors: bool) -> (r: String)
        ensures
            r@ == json_response("400 Bad Request"@, body@, open_cors),
    {
        build_http_error("400 Bad Request", body, open_cors)
    }

    /// One event of an event stream.
    pub fn sse_event(data: &str) -> (r: String)
        ensures
            r@ == sse(data@),
    {
        sse_text(data)
    }

    /// Answers `initialize`.
    pub fn do_initialize(id: &Option<Json>, version: &str) -> (r: String)
        ensures
            r@ == result_body(*id, initialize_result(version@)),
    {
        let mut info = no_fields();
        put_text(&mut info, "name", "zeptoclaw");
        put_text(&mut info, "title", "ZeptoClaw");
        put_text(&mut info, "version", version);
        let none: Vec<Json> = Vec::new();
        proof {
            assert(items_view(none@) =~= Seq::<JsonV>::empty());
        }
        let mut result = no_fields();
        put_text(&mut result, "protocolVersion", "1");
        put_field(&mut result, "agentCapabilities", capabilities_json());
        put_field(&mut result, "agentInfo", object(info));
        put_field(&mut result, "authMethods", array(none));
        json_rpc_result(id, object(result))
    }

    /// Answers `session/new`: opens a session in a working directory, unless there
    /// are too many after stale ones were dropped. `fresh_id` is an identifier that
    /// no session has.
    pub fn do_session_new(
        &mut self,
        id: &Option<Json>,
        params: &Option<Json>,
        fresh_id: &str,
        now: u64,
    ) -> (r: String)
        ensures
            final(self).same_settings(old(self)),
            final(self).state@ == old(self).state@.after_new(
                old(self).is_open(),
                text_param(*params, "cwd"@),
                "acph_"@ + fresh_id@,
                now,
                old(self).config.session_ttl_secs,
            ),
            r@ == (match old(self).state@.new_refusal(
                old(self).is_open(),
                text_param(*params, "cwd"@),
            ) {
                Some(e) => error_body(*id, e.code, e.message),
                None => if old(self).state@.swept_if(
                    now,
                    old(self).config.session_ttl_secs,
                ).sessions.dom().len() >= MAX_ACP_SESSIONS {
                    error_body(
                        *id,
                        JSONRPC_SERVER_ERROR,
                        "too many sessions (limit: "@ + decimal(MAX_ACP_SESSIONS as nat) + ")"@,
                    )
                } else {
                    result_body(*id, new_session_result("acph_"@ + fresh_id@))
                },
            }),
    {
        if !self.base_config.is_allowed(ACP_HTTP_SENDER_ID) {
            return json_rpc_error(id, JSONRPC_SERVER_ERROR, "Unauthorized");
        }
        let found = find_text_param(params, "cwd");
        if let Some(message) = cwd_refusal_text(found) {
            return json_rpc_error(id, JSONRPC_INVALID_PARAMS, message);
        }
        let cwd = match found {
            Some(c) => c.clone(),
            None => {
                return json_rpc_error(id, JSONRPC_INVALID_PARAMS, "session/new: cwd is required");
            },
        };
        let mut session_id = text("acph_");
        put(&mut session_id, fresh_id);
        if let Some(secs) = self.config.session_ttl_secs {
            self.state.sweep_expired(now, secs);
        }
        let count: usize = self.state.sessions.len();
        proof {
            assert(self.state@.sessions.dom() =~= self.state.sessions@.dom());
        }
        if count >= MAX_ACP_SESSIONS {
            let mut message = text("too many sessions (limit: ");
            put(&mut message, decimal_text(MAX_ACP_SESSIONS as u64).as_str());
            put(&mut message, ")");
            return json_rpc_error(id, JSONRPC_SERVER_ERROR, message.as_str());
        }
        let ghost swept = self.state@;
        self.state.sessions.insert(
            session_id.as_str(),
            SessionEntry { cwd, last_active: now },
        );
        proof {
            assert(self.state@.sessions =~= swept.sessions.insert(
                session_id@,
                SessionV { cwd: cwd@, last_active: now },
            ));
        }
        let mut result = no_fields();
        put_text(&mut result, "sessionId", session_id.as_str());
        json_rpc_result(id, object(result))
    }

    /// Answers `session/cancel`.
    pub fn do_session_cancel(&mut self, id: &Option<Json>, params: &Option<Json>) -> (r: String)
        ensures
            final(self).same_settings(old(self)),
            !old(self).is_open() ==> r@ == error_body(
                *id,
                JSONRPC_SERVER_ERROR,
                "Unauthorized"@,
            ) && final(self).state@ == old(self).state@,
            old(self).is_open() ==> r@ == result_body(*id, JsonV::Object(Seq::empty()))
                && final(self).state@ == (match text_param(*params, "sessionId"@) {
                Some(s) => old(self).state@.cancelled(s),
                None => old(self).state@,
            }),
    {
        if !self.base_config.is_allowed(ACP_HTTP_SENDER_ID) {
            return json_rpc_error(id, JSONRPC_SERVER_ERROR, "Unauthorized");
        }
        self.cancel_named(params);
        json_rpc_result(id, empty_object())
    }

    /// Cancels the prompt of the session that the parameters name.
    fn cancel_named(&mut self, params: &Option<Json>)
        ensures
            final(self).same_settings(old(self)),
            final(self).state@ == (match text_param(*params, "sessionId"@) {
                Some(s) => old(self).state@.cancelled(s),
                None => old(self).state@,
            }),
    {
        if let Some(s) = find_text_param(params, "sessionId") {
            self.state.cancel(s.as_str());
        }
    }

    /// Takes an injected message for a live session: gives the message to publish,
    /// or the answer to a refused one.
    pub fn do_inject_inbound(
        &mut self,
        id: &Option<Json>,
        params: &Option<Json>,
        now: u64,
    ) -> (r: Result<InboundMessage, String>)
        ensures
            final(self).same_settings(old(self)),
            match old(self).state@.inject_refusal(old(self).is_open(), *params) {
                Some(e) => final(self).state@ == old(self).state@ && (r matches Err(body) && body@
                    == error_body(*id, e.code, e.message)),
                None => inject_params(*params) matches Some((session_id, content, kind, request_id))
                    && final(self).state@ == old(self).state@.touched(session_id, now) && (
                r matches Ok(m) && m@ == injected(session_id, content, kind, request_id)),
            },
    {
        if !self.base_config.is_allowed(ACP_HTTP_SENDER_ID) {
            return Err(json_rpc_error(id, JSONRPC_SERVER_ERROR, "Unauthorized"));
        }
        let (session_id, content, kind, request_id) = match parse_inject_params(params) {
            Some(p) => p,
            None => {
                return Err(
                    json_rpc_error(
                        id,
                        JSONRPC_INVALID_PARAMS,
                        "x.openshell/inject_inbound: missing or invalid params",
                    ),
                );
            },
        };
        if session_id.as_str().is_empty() || kind.as_str().is_empty()
            || request_id.as_str().is_empty() {
            return Err(
                json_rpc_error(
                    id,
                    JSONRPC_INVALID_PARAMS,
                    "x.openshell/inject_inbound: sessionId/kind/requestId are required",
                ),
            );
        }
        if !self.state.touch(session_id.as_str(), now) {
            let mut message = text("ACP: unknown session ");
            put(&mut message, session_id.as_str());
            return Err(json_rpc_error(id, JSONRPC_SERVER_ERROR, message.as_str()));
        }
        Ok(
            InboundMessage::new(
                ACP_HTTP_CHANNEL_NAME,
                ACP_HTTP_SENDER_ID,
                session_id.as_str(),
                content.as_str(),
            ).with_metadata("inject_kind", kind.as_str()).with_metadata(
                "request_id",
                request_id.as_str(),
            ),
        )
    }

    /// The answer after an injected message was published: whether somebody took it
    /// at once, or why it could not be published.
    pub fn inject_reply(id: &Option<Json>, published: Result<bool, String>) -> (r: String)
        ensures
            r@ == (match published {
                Ok(taken) => result_body(
                    *id,
                    JsonV::Object(Seq::empty().push(("delivered"@, JsonV::Bool(taken)))),
                ),
                Err(e) => error_body(
                    *id,
                    JSONRPC_INTERNAL_ERROR,
                    "x.openshell/inject_inbound: publish failed: "@ + e@,
                ),
            }),
    {
        match published {
            Ok(taken) => {
                let mut result = no_fields();
                put_field(&mut result, "delivered", Json::Bool(taken));
                json_rpc_result(id, object(result))
            },
            Err(e) => {
                let mut message = text("x.openshell/inject_inbound: publish failed: ");
                put(&mut message, e.as_str());
                json_rpc_error(id, JSONRPC_INTERNAL_ERROR, message.as_str())
            },
        }
    }

    /// What is told of the sessions, or of those with the given working directory.
    fn list_sessions(&self, cwd: &Option<String>) -> (r: Vec<Json>)
        ensures
            items_view(r@) == self.state@.listing(self.state.sessions.keys(), cwd.deep_view()),
    {
        let n: usize = self.state.sessions.len();
        let ghost keys = self.state.sessions.keys();
        let ghost st = self.state@;
        let mut out: Vec<Json> = Vec::new();
        let mut i: usize = 0;
        proof {
            assert(keys.take(0) =~= Seq::<Seq<char>>::empty());
            assert(items_view(out@) =~= Seq::<JsonV>::empty());
        }
        while i < n
            invariant
                i <= n == keys.len(),
                keys == self.state.sessions.keys(),
                st == self.state@,
                items_view(out@) == st.listing(keys.take(i as int), cwd.deep_view()),
            decreases n - i,
        {
            proof {
                assert(keys.take(i + 1).drop_last() =~= keys.take(i as int));
            }
            let name = self.state.sessions.key_at(i);
            let entry = self.state.sessions.value_at(i);
            let listed = match cwd {
                Some(c) => same_text(entry.cwd.as_str(), c.as_str()),
                None => true,
            };
            if listed {
                let in_flight = self.state.pending.contains_key(name);
                put_item(&mut out, session_info_json(name, entry.cwd.as_str(), in_flight));
            }
            i = i + 1;
        }
        proof {
            assert(keys.take(keys.len() as int) =~= keys);
        }
        out
    }

    /// Answers `session/list`. `filter` is what the parameters ask for: all
    /// sessions, those with a working directory, or the words of the error where
    /// they could not be read.
    pub fn do_session_list(
        &self,
        id: &Option<Json>,
        filter: &Result<Option<String>, String>,
    ) -> (r: String)
        ensures
            r@ == (if !self.is_open() {
                error_body(*id, JSONRPC_SERVER_ERROR, "Unauthorized"@)
            } else {
                match filter {
                    Err(e) => error_body(
                        *id,
                        JSONRPC_INVALID_PARAMS,
                        "Invalid params: "@ + e@,
                    ),
                    Ok(cwd) => result_body(
                        *id,
                        JsonV::Object(
                            Seq::empty().push(
                                (
                                    "sessions"@,
                                    JsonV::Array(
                                        self.state@.listing(
                                            self.state.sessions.keys(),
                                            cwd.deep_view(),
                                        ),
                                    ),
                                ),
                            ),
                        ),
                    ),
                }
            }),
    {
        if !self.base_config.is_allowed(ACP_HTTP_SENDER_ID) {
            return json_rpc_error(id, JSONRPC_SERVER_ERROR, "Unauthorized");
        }
        match filter {
            Err(e) => {
                let mut message = text("Invalid params: ");
                put(&mut message, e.as_str());
                json_rpc_error(id, JSONRPC_INVALID_PARAMS, message.as_str())
            },
            Ok(cwd) => {
                let sessions = self.list_sessions(cwd);
                let mut result = no_fields();
                put_field(&mut result, "sessions", array(sessions));
                json_rpc_result(id, object(result))
            },
        }
    }

    /// Takes a prompt for a live session with none in flight: gives the session and
    /// the message to publish, or the answer to a refused one.
    pub fn register_prompt(
        &mut self,
        id: &Option<Json>,
        params: &Option<Json>,
        now: u64,
    ) -> (r: Result<(String, InboundMessage), String>)
        ensures
            final(self).same_settings(old(self)),
            final(self).state@ == old(self).state@.after_prompt(
                old(self).is_open(),
                *params,
                now,
            ),
            match old(self).state@.prompt_refusal(old(self).is_open(), *params) {
                Some(e) => r matches Err(body) && body@ == error_body(*id, e.code, e.message),
                None => prompt_params(*params) matches Some((session_id, blocks)) && (r matches Ok(
                    (s, m),
                ) && s@ == session_id && m@ == prompted(
                    session_id,
                    join(block_texts(blocks), "\n"@),
                )),
            },
    {
        if !self.base_config.is_allowed(ACP_HTTP_SENDER_ID) {
            return Err(json_rpc_error(id, JSONRPC_SERVER_ERROR, "Unauthorized"));
        }
        let (session_id, blocks) = match parse_prompt_params(params) {
            Some(p) => p,
            None => {
                return Err(
                    json_rpc_error(
                        id,
                        JSONRPC_INVALID_PARAMS,
                        "session/prompt: missing or invalid params",
                    ),
                );
            },
        };
        let content = prompt_blocks_to_text(&blocks);
        if content.as_str().is_empty() {
            return Err(
                json_rpc_error(
                    id,
                    JSONRPC_INVALID_PARAMS,
                    "session/prompt: prompt content is empty",
                ),
            );
        }
        let size: usize = byte_length(content.as_str());
        if size > MAX_PROMPT_BYTES {
            let mut message = text("session/prompt: content too large (");
            put(&mut message, decimal_text(size as u64).as_str());
            put(&mut message, " bytes, limit ");
            put(&mut message, decimal_text(MAX_PROMPT_BYTES as u64).as_str());
            put(&mut message, ")");
            return Err(json_rpc_error(id, JSONRPC_INVALID_PARAMS, message.as_str()));
        }
        if !self.state.touch(session_id.as_str(), now) {
            let mut message = text("ACP: unknown session ");
            put(&mut message, session_id.as_str());
            return Err(json_rpc_error(id, JSONRPC_SERVER_ERROR, message.as_str()));
        }
        if self.state.pending.contains_key(session_id.as_str()) {
            return Err(
                json_rpc_error(
                    id,
                    JSONRPC_INVALID_PARAMS,
                    "session/prompt: a prompt is already in flight for this session",
                ),
            );
        }
        self.state.pending.insert(session_id.as_str(), PendingPrompt { cancelled: false });
        let inbound = InboundMessage::new(
            ACP_HTTP_CHANNEL_NAME,
            ACP_HTTP_SENDER_ID,
            session_id.as_str(),
            content.as_str(),
        ).with_metadata("streaming_capable", "true");
        Ok((session_id, inbound))
    }

    /// Ends a prompt: after its last event, when its client is gone, or when it
    /// could not be published. The session can then take another one.
    pub fn end_prompt(&mut self, session_id: &str)
        ensures
            final(self).same_settings(old(self)),
            final(self).state@ == (StateV {
                pending: old(self).state@.pending.remove(session_id@),
                ..old(self).state@
            }),
    {
        let _ = self.state.pending.remove(session_id);
    }
}

// ---------------------------------------------------------------------------
// Routing a request
// ---------------------------------------------------------------------------
/// What becomes of a connection whose request was read.
#[derive(Debug)]
pub enum ConnStep {
    /// It is closed without an answer.
    Close,
    /// It is answered and closed.
    Respond(String),
    /// The body goes on to be read as JSON-RPC.
    Rpc(String),
}

/// The model of a [`ConnStep`].
pub enum ConnV {
    Close,
    Respond(Seq<char>),
    Rpc(Seq<char>),
}

impl View for ConnStep {
    type V = ConnV;

    open spec fn view(&self) -> ConnV {
        match self {
            ConnStep::Close => ConnV::Close,
            ConnStep::Respond(s) => ConnV::Respond(s@),
            ConnStep::Rpc(s) => ConnV::Rpc(s@),
        }
    }
}

/// What becomes of a request: only `POST` to `/acp` or `/` with the required token
/// goes on.
pub open spec fn routed(raw: Seq<u8>, token: Option<Seq<char>>) -> ConnV {
    let open_cors = token is None;
    if raw.len() == 0 || !body_is_whole(raw) {
        ConnV::Close
    } else {
        match parsed(raw) {
            None => ConnV::Respond(json_response("400 Bad Request"@, "{}"@, open_cors)),
            Some(req) => if req.method == "OPTIONS"@ {
                ConnV::Respond(
                    "HTTP/1.1 204 No Content\r\n"@ + cors_header(open_cors)
                        + "Access-Control-Allow-Methods: POST, OPTIONS\r\nAccess-Control-Allow-Headers: Content-Type, Authorization\r\nContent-Length: 0\r\n\r\n"@,
                )
            } else if req.path != "/acp"@ && req.path != "/"@ {
                ConnV::Respond(
                    json_response("404 Not Found"@, "{\"error\":\"not found\"}"@, open_cors),
                )
            } else if req.method != "POST"@ {
                ConnV::Respond(
                    json_response(
                        "405 Method Not Allowed"@,
                        "{\"error\":\"method not allowed\"}"@,
                        open_cors,
                    ),
                )
            } else if !authorized(req.headers, token) {
                ConnV::Respond(
                    json_response("401 Unauthorized"@, "{\"error\":\"unauthorized\"}"@, open_cors),
                )
            } else {
                ConnV::Rpc(req.body)
            },
        }
    }
}

impl AcpHttpChannel {
    /// The answer to a request that is too large.
    pub fn too_large(&self) -> (r: String)
        ensures
            r@ == json_response(
                "413 Payload Too Large"@,
                "{\"error\":\"payload too large\"}"@,
                self.cors(),
            ),
    {
        build_http_error(
            "413 Payload Too Large",
            "{\"error\":\"payload too large\"}",
            self.http_config.auth_token.is_none(),
        )
    }

    /// Decides what becomes of a request.
    pub fn route_request(&self, raw: &[u8]) -> (r: ConnStep)
        ensures
            r@ == routed(raw@, self.http_config.auth_token.deep_view()),
    {
        let open_cors = self.http_config.auth_token.is_none();
        if raw.len() == 0 || !has_whole_body(raw) {
            return ConnStep::Close;
        }
        let req = match parse_request(raw) {
            Some(req) => req,
            None => {
                return ConnStep::Respond(AcpHttpChannel::http_400("{}", open_cors));
            },
        };
        if same_text(req.method.as_str(), "OPTIONS") {
            return ConnStep::Respond(build_cors_preflight(open_cors));
        }
        if !same_text(req.path.as_str(), "/acp") && !same_text(req.path.as_str(), "/") {
            return ConnStep::Respond(
                build_http_error("404 Not Found", "{\"error\":\"not found\"}", open_cors),
            );
        }
        if !same_text(req.method.as_str(), "POST") {
            return ConnStep::Respond(
                build_http_error(
                    "405 Method Not Allowed",
                    "{\"error\":\"method not allowed\"}",
                    open_cors,
                ),
            );
        }
        if !validate_auth(&req.headers, &self.http_config.auth_token) {
            return ConnStep::Respond(
                build_http_error("401 Unauthorized", "{\"error\":\"unauthorized\"}", open_cors),
            );
        }
        ConnStep::Rpc(req.body)
    }
}

/// Nothing reaches JSON-RPC without the token, where one is required.
pub proof fn law_token_guards_the_channel(raw: Seq<u8>, token: Option<Seq<char>>)
    ensures
        routed(raw, token) is Rpc ==> (parsed(raw) matches Some(req) && req.method == "POST"@
            && authorized(req.headers, token)),
{
}

// ---------------------------------------------------------------------------
// Answering JSON-RPC
// ---------------------------------------------------------------------------
/// What is done for a JSON-RPC body.
#[derive(Debug)]
pub enum RpcStep {
    /// The connection is answered and closed.
    Respond(String),
    /// A message is published, and the outcome answered with
    /// [`AcpHttpChannel::inject_reply`].
    Inject { id: Option<Json>, inbound: InboundMessage },
    /// A message is published, and the reply streamed.
    Stream { id: Option<Json>, session_id: String, inbound: InboundMessage },
}

/// The model of an [`RpcStep`].
pub enum StepV {
    Respond(Seq<char>),
    Inject(Option<Json>, InboundV),
    Stream(Option<Json>, Seq<char>, InboundV),
}

impl View for RpcStep {
    type V = StepV;

    open spec fn view(&self) -> StepV {
        match self {
            RpcStep::Respond(s) => StepV::Respond(s@),
            RpcStep::Inject { id, inbound } => StepV::Inject(*id, inbound@),
            RpcStep::Stream { id, session_id, inbound } => StepV::Stream(
                *id,
                session_id@,
                inbound@,
            ),
        }
    }
}

/// What the outside gives to an answer.
#[derive(Debug)]
pub struct RpcInputs {
    /// What the parameters of `session/list` ask for.
    pub list_filter: Result<Option<String>, String>,
    /// An identifier that no session has.
    pub fresh_id: String,
    /// The present time, in nanoseconds.
    pub now: u64,
    /// The version of the program.
    pub version: String,
}

impl AcpHttpChannel {
    /// The state after `session/new` and its answer.
    pub open spec fn new_outcome(
        &self,
        id: Option<Json>,
        params: Option<Json>,
        inputs: RpcInputs,
    ) -> (StateV, Seq<char>) {
        let cwd = text_param(params, "cwd"@);
        let ttl = self.config.session_ttl_secs;
        let session_id = "acph_"@ + inputs.fresh_id@;
        (
            self.state@.after_new(self.is_open(), cwd, session_id, inputs.now, ttl),
            match self.state@.new_refusal(self.is_open(), cwd) {
                Some(e) => error_body(id, e.code, e.message),
                None => if self.state@.swept_if(inputs.now, ttl).sessions.dom().len()
                    >= MAX_ACP_SESSIONS {
                    error_body(
                        id,
                        JSONRPC_SERVER_ERROR,
                        "too many sessions (limit: "@ + decimal(MAX_ACP_SESSIONS as nat) + ")"@,
                    )
                } else {
                    result_body(id, new_session_result(session_id))
                },
            },
        )
    }

    /// The state after `session/cancel` and its answer.
    pub open spec fn cancel_outcome(&self, id: Option<Json>, params: Option<Json>) -> (
        StateV,
        Seq<char>,
    ) {
        if self.is_open() {
            (self.cancelled_by(params), result_body(id, JsonV::Object(Seq::empty())))
        } else {
            (self.state@, error_body(id, JSONRPC_SERVER_ERROR, "Unauthorized"@))
        }
    }

    /// The state in which the prompt of the named session is cancelled.
    pub open spec fn cancelled_by(&self, params: Option<Json>) -> StateV {
        match text_param(params, "sessionId"@) {
            Some(s) => self.state@.cancelled(s),
            None => self.state@,
        }
    }

    /// The answer to `session/list`.
    pub open spec fn list_outcome(
        &self,
        id: Option<Json>,
        filter: Result<Option<String>, String>,
    ) -> Seq<char> {
        if !self.is_open() {
            error_body(id, JSONRPC_SERVER_ERROR, "Unauthorized"@)
        } else {
            match filter {
                Err(e) => error_body(id, JSONRPC_INVALID_PARAMS, "Invalid params: "@ + e@),
                Ok(cwd) => result_body(
                    id,
                    JsonV::Object(
                        Seq::empty().push(
                            (
                                "sessions"@,
                                JsonV::Array(
                                    self.state@.listing(
                                        self.state.sessions.keys(),
                                        cwd.deep_view(),
                                    ),
                                ),
                            ),
                        ),
                    ),
                ),
            }
        }
    }

    /// The state after an injection and what is done for it.
    pub open spec fn inject_outcome(&self, id: Option<Json>, params: Option<Json>, now: u64) -> (
        StateV,
        StepV,
    ) {
        match (self.state@.inject_refusal(self.is_open(), params), inject_params(params)) {
            (None, Some((session_id, content, kind, request_id))) => (
                self.state@.touched(session_id, now),
                StepV::Inject(id, injected(session_id, content, kind, request_id)),
            ),
            (Some(e), _) => (self.state@, self.ok_response(error_body(id, e.code, e.message))),
            (None, None) => (self.state@, self.ok_response(seq![])),
        }
    }

    /// The state after a prompt and what is done for it.
    pub open spec fn prompt_outcome(&self, id: Option<Json>, params: Option<Json>, now: u64) -> (
        StateV,
        StepV,
    ) {
        (
            self.state@.after_prompt(self.is_open(), params, now),
            match (self.state@.prompt_refusal(self.is_open(), params), prompt_params(params)) {
                (None, Some((session_id, blocks))) => StepV::Stream(
                    id,
                    session_id,
                    prompted(session_id, join(block_texts(blocks), "\n"@)),
                ),
                (Some(e), _) => self.ok_response(error_body(id, e.code, e.message)),
                (None, None) => self.ok_response(seq![]),
            },
        )
    }

    /// An answer with a body.
    pub open spec fn ok_response(&self, body: Seq<char>) -> StepV {
        StepV::Respond(json_response("200 OK"@, body, self.cors()))
    }

    /// The state after a JSON-RPC body and what is done for it. `rpc` is what was
    /// read, or the words of the error. A notification is never answered with a
    /// body.
    pub open spec fn rpc_outcome(
        &self,
        rpc: Result<JsonRpcRequest, String>,
        inputs: RpcInputs,
    ) -> (StateV, StepV) {
        match rpc {
            Err(e) => (
                self.state@,
                StepV::Respond(
                    json_response(
                        "400 Bad Request"@,
                        error_body(None, JSONRPC_PARSE_ERROR, "parse error: "@ + e@),
                        self.cors(),
                    ),
                ),
            ),
            Ok(q) => if q.jsonrpc@ != "2.0"@ {
                (
                    self.state@,
                    self.ok_response(
                        error_body(
                            q.id,
                            JSONRPC_INVALID_REQUEST,
                            "Invalid Request: jsonrpc must be \"2.0\""@,
                        ),
                    ),
                )
            } else if q.id is None {
                (
                    if q.method@ == "session/cancel"@ {
                        self.cancelled_by(q.params)
                    } else {
                        self.state@
                    },
                    StepV::Respond(notification_response(self.cors())),
                )
            } else if q.method@ == "initialize"@ {
                (
                    self.state@,
                    self.ok_response(result_body(q.id, initialize_result(inputs.version@))),
                )
            } else if q.method@ == "session/new"@ {
                let (state, body) = self.new_outcome(q.id, q.params, inputs);
                (state, self.ok_response(body))
            } else if q.method@ == "session/cancel"@ {
                let (state, body) = self.cancel_outcome(q.id, q.params);
                (state, self.ok_response(body))
            } else if q.method@ == "session/list"@ {
                (self.state@, self.ok_response(self.list_outcome(q.id, inputs.list_filter)))
            } else if q.method@ == "x.openshell/inject_inbound"@ {
                self.inject_outcome(q.id, q.params, inputs.now)
            } else if q.method@ == "session/prompt"@ {
                self.prompt_outcome(q.id, q.params, inputs.now)
            } else {
                (
                    self.state@,
                    self.ok_response(
                        error_body(
                            q.id,
                            JSONRPC_METHOD_NOT_FOUND,
                            "method not found: "@ + q.method@,
                        ),
                    ),
                )
            },
        }
    }

    fn respond_ok(&self, body: &str) -> (r: RpcStep)
        ensures
            r@ == self.ok_response(body@),
    {
        RpcStep::Respond(AcpHttpChannel::http_200(body, self.http_config.auth_token.is_none()))
    }

    /// Handles a JSON-RPC body that was read, or that could not be.
    pub fn handle_rpc(&mut self, rpc: Result<JsonRpcRequest, String>, inputs: RpcInputs) -> (r:
        RpcStep)
        ensures
            final(self).same_settings(old(self)),
            (final(self).state@, r@) == old(self).rpc_outcome(rpc, inputs),
    {
        let open_cors = self.http_config.auth_token.is_none();
        let q = match rpc {
            Ok(q) => q,
            Err(e) => {
                let mut message = text("parse error: ");
                put(&mut message, e.as_str());
                let body = json_rpc_error(&None, JSONRPC_PARSE_ERROR, message.as_str());
                return RpcStep::Respond(AcpHttpChannel::http_400(body.as_str(), open_cors));
            },
        };
        if !same_text(q.jsonrpc.as_str(), "2.0") {
            let body = json_rpc_error(
                &q.id,
                JSONRPC_INVALID_REQUEST,
                "Invalid Request: jsonrpc must be \"2.0\"",
            );
            return self.respond_ok(body.as_str());
        }
        let method = q.method.as_str();
        if q.id.is_none() {
            if same_text(method, "session/cancel") {
                self.cancel_named(&q.params);
            }
            return RpcStep::Respond(build_204_notification(open_cors));
        }
        if same_text(method, "initialize") {
            let body = AcpHttpChannel::do_initialize(&q.id, inputs.version.as_str());
            return self.respond_ok(body.as_str());
        }
        if same_text(method, "session/new") {
            let body = self.do_session_new(
                &q.id,
                &q.params,
                inputs.fresh_id.as_str(),
                inputs.now,
            );
            return self.respond_ok(body.as_str());
        }
        if same_text(method, "session/cancel") {
            let body = self.do_session_cancel(&q.id, &q.params);
            return self.respond_ok(body.as_str());
        }
        if same_text(method, "session/list") {
            let body = self.do_session_list(&q.id, &inputs.list_filter);
            return self.respond_ok(body.as_str());
        }
        if same_text(method, "x.openshell/inject_inbound") {
            return match self.do_inject_inbound(&q.id, &q.params, inputs.now) {
                Ok(inbound) => RpcStep::Inject { id: q.id, inbound },
                Err(body) => self.respond_ok(body.as_str()),
            };
        }
        if same_text(method, "session/prompt") {
            return match self.register_prompt(&q.id, &q.params, inputs.now) {
                Ok((session_id, inbound)) => RpcStep::Stream { id: q.id, session_id, inbound },
                Err(body) => self.respond_ok(body.as_str()),
            };
        }
        let mut message = text("method not found: ");
        put(&mut message, method);
        let body = json_rpc_error(&q.id, JSONRPC_METHOD_NOT_FOUND, message.as_str());
        self.respond_ok(body.as_str())
    }

    /// The answer to a prompt that could not be published, after which the session
    /// can take another one.
    pub fn prompt_failed(&mut self, id: &Option<Json>, session_id: &str, error: &str) -> (r: String)
        ensures
            final(self).same_settings(old(self)),
            final(self).state@ == (StateV {
                pending: old(self).state@.pending.remove(session_id@),
                ..old(self).state@
            }),
            r@ == json_response(
                "200 OK"@,
                error_body(
                    *id,
                    JSONRPC_INTERNAL_ERROR,
                    "internal error: ACP-HTTP: failed to publish inbound: "@ + error@,
                ),
                old(self).cors(),
            ),
    {
        self.end_prompt(session_id);
        let mut message = text("internal error: ACP-HTTP: failed to publish inbound: ");
        put(&mut message, error);
        let body = json_rpc_error(id, JSONRPC_INTERNAL_ERROR, message.as_str());
        AcpHttpChannel::http_200(body.as_str(), self.http_config.auth_token.is_none())
    }
}

// ---------------------------------------------------------------------------
// From the bus to the stream
// ---------------------------------------------------------------------------
impl StateV {
    /// Whether a session's prompt was cancelled.
    pub open spec fn is_cancelled(self, id: Seq<char>) -> bool {
        self.pending.contains_key(id) && self.pending[id].cancelled
    }

    /// The piece of a reply that an outbound message becomes; none where it is for
    /// another channel or an unknown session, where nobody waits for it, or where
    /// it is a custom event without a name or a readable payload.
    pub open spec fn fragment(self, msg: OutboundV, has_waiter: bool) -> Option<FragmentV> {
        if msg.channel != ACP_HTTP_CHANNEL_NAME@ || !self.sessions.contains_key(msg.chat_id)
            || !has_waiter {
            None
        } else if msg.is_error() {
            Some(FragmentV::Error(msg.content))
        } else {
            match msg.kind {
                OutboundMessageKind::Chunk => Some(FragmentV::Chunk(msg.content)),
                OutboundMessageKind::ChunkEnd => Some(
                    FragmentV::End(self.is_cancelled(msg.chat_id)),
                ),
                OutboundMessageKind::Custom => if msg.metadata.contains_key(
                    OUTBOUND_CUSTOM_NAME_KEY@,
                ) && msg.metadata.contains_key(OUTBOUND_CUSTOM_PAYLOAD_KEY@) {
                    match json_of_text(msg.metadata[OUTBOUND_CUSTOM_PAYLOAD_KEY@]) {
                        Ok(payload) => Some(
                            FragmentV::Custom(msg.metadata[OUTBOUND_CUSTOM_NAME_KEY@], payload),
                        ),
                        Err(_) => None,
                    }
                } else {
                    None
                },
                OutboundMessageKind::Full => if holds(msg.metadata, "keep_typing"@, "true"@) {
                    Some(FragmentV::Chunk(msg.content))
                } else {
                    Some(FragmentV::Full(msg.content, self.is_cancelled(msg.chat_id)))
                },
            }
        }
    }
}

/// The model of an optional piece of a reply.
pub open spec fn maybe_fragment(f: Option<PromptFragment>) -> Option<FragmentV> {
    match f {
        Some(x) => Some(x@),
        None => None,
    }
}

/// The custom event that a message carries, given its payload as it was read.
pub fn custom_fragment(name: &str, payload: Result<Json, String>) -> (r: Option<PromptFragment>)
    ensures
        match payload {
            Ok(j) => maybe_fragment(r) == Some(FragmentV::Custom(name@, j@)),
            Err(_) => r is None,
        },
{
    match payload {
        Ok(j) => Some(PromptFragment::Custom { name: text(name), payload: j }),
        Err(_) => None,
    }
}

impl AcpHttpChannel {
    /// The piece of a reply that an outbound message becomes. `has_waiter` tells
    /// whether a stream waits for the session's reply. Sending changes no state:
    /// the stream's end does.
    pub fn send(&self, msg: &OutboundMessage, has_waiter: bool) -> (r: Option<PromptFragment>)
        ensures
            maybe_fragment(r) == self.state@.fragment(msg@, has_waiter),
    {
        if !same_text(msg.channel.as_str(), ACP_HTTP_CHANNEL_NAME) {
            return None;
        }
        let session_id = msg.chat_id.as_str();
        let exists_ = self.state.sessions.contains_key(session_id);
        proof {
            assert(self.state@.sessions.dom() =~= self.state.sessions@.dom());
        }
        if !exists_ || !has_waiter {
            return None;
        }
        let cancelled = match self.state.pending.get(session_id) {
            Some(p) => p.cancelled,
            None => false,
        };
        if msg.is_error() {
            return Some(PromptFragment::Error(msg.content.clone()));
        }
        match msg.kind {
            OutboundMessageKind::Chunk => Some(PromptFragment::Chunk(msg.content.clone())),
            OutboundMessageKind::ChunkEnd => Some(PromptFragment::End { cancelled }),
            OutboundMessageKind::Custom => match (
                msg.metadata.get(OUTBOUND_CUSTOM_NAME_KEY),
                msg.metadata.get(OUTBOUND_CUSTOM_PAYLOAD_KEY),
            ) {
                (Some(name), Some(raw)) => custom_fragment(
                    name.as_str(),
                    parse_json(raw.as_str()),
                ),
                _ => None,
            },
            OutboundMessageKind::Full => if msg.metadata.has("keep_typing", "true") {
                Some(PromptFragment::Chunk(msg.content.clone()))
            } else {
                Some(PromptFragment::Full { content: msg.content.clone(), cancelled })
            },
        }
    }
}

// ---------------------------------------------------------------------------
// Laws
// ---------------------------------------------------------------------------
/// A listing tells of exactly the sessions that are asked for: of each one among
/// `keys` that is listed, and of nothing else.
pub proof fn law_listing_is_exact(s: StateV, keys: Seq<Seq<char>>, cwd: Option<Seq<char>>)
    ensures
        forall|id: Seq<char>|
            keys.contains(id) && s.is_listed(id, cwd) ==> #[trigger] s.listing(
                keys,
                cwd,
            ).contains(session_info(id, s.sessions[id].cwd, s.pending.contains_key(id))),
        forall|i: int|
            0 <= i < s.listing(keys, cwd).len() ==> exists|id: Seq<char>|
                keys.contains(id) && s.is_listed(id, cwd) && #[trigger] s.listing(keys, cwd)[i]
                    == session_info(id, s.sessions[id].cwd, s.pending.contains_key(id)),
        s.listing(keys, cwd).len() <= keys.len(),
        cwd is None ==> s.listing(keys, cwd).len() == keys.len(),
    decreases keys.len(),
{
    if keys.len() > 0 {
        let k = keys.drop_last();
        let rest = s.listing(k, cwd);
        let all = s.listing(keys, cwd);
        law_listing_is_exact(s, k, cwd);
        assert forall|id: Seq<char>| keys.contains(id) && s.is_listed(id, cwd) implies
            #[trigger] all.contains(session_info(id, s.sessions[id].cwd, s.pending.contains_key(id)))
            by {
            let info = session_info(id, s.sessions[id].cwd, s.pending.contains_key(id));
            if id == keys.last() {
                assert(all[all.len() - 1] == info);
            } else {
                let j = keys.index_of(id);
                assert(keys[j] == id);
                assert(k[j] == id);
                assert(rest.contains(info));
                let n = rest.index_of(info);
                assert(all[n] == info);
            }
        }
        assert forall|i: int| 0 <= i < all.len() implies exists|id: Seq<char>|
            keys.contains(id) && s.is_listed(id, cwd) && #[trigger] all[i] == session_info(
                id,
                s.sessions[id].cwd,
                s.pending.contains_key(id),
            ) by {
            if i < rest.len() {
                let id = choose|id: Seq<char>|
                    k.contains(id) && s.is_listed(id, cwd) && rest[i] == session_info(
                        id,
                        s.sessions[id].cwd,
                        s.pending.contains_key(id),
                    );
                let j = k.index_of(id);
                assert(keys[j] == id);
                assert(keys.contains(id));
                assert(all[i] == session_info(id, s.sessions[id].cwd, s.pending.contains_key(id)));
            } else {
                let id = keys.last();
                assert(keys[keys.len() - 1] == id);
                assert(keys.contains(id));
                assert(all[i] == session_info(id, s.sessions[id].cwd, s.pending.contains_key(id)));
            }
        }
    }
}

/// A session that was opened is there, in the working directory that was asked
/// for, and can take a prompt if its name was not in use.
pub proof fn law_new_session_is_live(
    s: StateV,
    cwd: Option<Seq<char>>,
    session_id: Seq<char>,
    now: u64,
    ttl: Option<u64>,
)
    requires
        s.wf(),
        s.new_refusal(true, cwd) is None,
        s.swept_if(now, ttl).sessions.dom().len() < MAX_ACP_SESSIONS,
    ensures
        ({
            let t = s.after_new(true, cwd, session_id, now, ttl);
            &&& t.wf()
            &&& t.sessions.contains_key(session_id)
            &&& Some(t.sessions[session_id].cwd) == cwd
            &&& t.sessions[session_id].last_active == now
            &&& !s.sessions.contains_key(session_id) ==> !t.pending.contains_key(session_id)
        }),
{
    if let Some(t) = ttl {
        law_sweep_drops_exactly_the_stale(s, now, t, session_id);
    }
}

/// While a prompt is in flight its session takes no other one; once it has ended,
/// the session takes it again.
pub proof fn law_one_prompt_at_a_time(s: StateV, params: Option<Json>, now: u64)
    requires
        s.prompt_refusal(true, params) is None,
        prompt_params(params) is Some,
    ensures
        ({
            let session_id = (prompt_params(params)->0).0;
            let t = s.after_prompt(true, params, now);
            let ended = StateV { pending: t.pending.remove(session_id), ..t };
            &&& t.pending.contains_key(session_id)
            &&& !t.is_cancelled(session_id)
            &&& t.prompt_refusal(true, params) is Some
            &&& ended.prompt_refusal(true, params) is None
            &&& ended.pending == s.pending
        }),
{
    let session_id = (prompt_params(params)->0).0;
    let t = s.after_prompt(true, params, now);
    assert(t.pending.remove(session_id) =~= s.pending);
}

/// A cancelled prompt's reply, whether it comes at once or in pieces, is told to
/// be cancelled, and so is the client.
pub proof fn law_cancellation_reaches_the_client(
    s: StateV,
    msg: OutboundV,
    id: Option<Json>,
)
    requires
        s.wf(),
        s.pending.contains_key(msg.chat_id),
        msg.channel == ACP_HTTP_CHANNEL_NAME@,
        !msg.is_error(),
        msg.kind == OutboundMessageKind::ChunkEnd || (msg.kind == OutboundMessageKind::Full
            && !holds(msg.metadata, "keep_typing"@, "true"@)),
    ensures
        s.cancelled(msg.chat_id).fragment(msg, true) matches Some(f) && frames_for(
            msg.chat_id,
            id,
            EventV::Fragment(f),
        ).last() == sse(result_body(id, stop_result(true))),
{
    assert(s.sessions.contains_key(msg.chat_id));
}

/// A stream ends with the answer to its prompt, a result or an error under the
/// prompt's identifier, and with nothing else.
pub proof fn law_stream_ends_with_the_answer(
    session_id: Seq<char>,
    id: Option<Json>,
    event: EventV,
)
    ensures
        ends_stream(event) ==> frames_for(session_id, id, event).len() > 0 && ((exists|result: JsonV|
            frames_for(session_id, id, event).last() == sse(#[trigger] result_body(id, result))) || (
        exists|code: i64, message: Seq<char>|
            frames_for(session_id, id, event).last() == sse(#[trigger] error_body(id, code, message)))),
        !ends_stream(event) ==> frames_for(session_id, id, event).len() == 1,
{
    let frames = frames_for(session_id, id, event);
    match event {
        EventV::Fragment(FragmentV::Full(_, cancelled)) => {
            assert(frames.last() == sse(result_body(id, stop_result(cancelled))));
        },
        EventV::Fragment(FragmentV::End(cancelled)) => {
            assert(frames.last() == sse(result_body(id, stop_result(cancelled))));
        },
        EventV::Fragment(FragmentV::Error(content)) => {
            assert(frames.last() == sse(
                error_body(id, JSONRPC_SERVER_ERROR, without_error_mark(content)),
            ));
        },
        EventV::SendersGone => {
            assert(frames.last() == sse(
                error_body(id, JSONRPC_INTERNAL_ERROR, "agent session closed"@),
            ));
        },
        EventV::DeadlinePassed => {
            assert(frames.last() == sse(
                error_body(id, JSONRPC_INTERNAL_ERROR, "session/prompt timed out"@),
            ));
        },
        _ => {},
    }
}

/// Whatever is asked of the channel, every prompt in flight belongs to a live
/// session afterwards if it did before.
pub proof fn law_requests_keep_prompts_with_sessions(
    ch: AcpHttpChannel,
    rpc: Result<JsonRpcRequest, String>,
    inputs: RpcInputs,
)
    requires
        ch.state@.wf(),
    ensures
        ch.rpc_outcome(rpc, inputs).0.wf(),
{
    let s = ch.state@;
    if let Ok(q) = rpc {
        if let Some(secs) = ch.config.session_ttl_secs {
            law_sweep_drops_exactly_the_stale(s, inputs.now, secs, seq![]);
        }
    }
}

/// A refused prompt starts nothing: the prompts in flight and the sessions are the
/// same as before.
pub proof fn law_refused_prompt_starts_nothing(
    s: StateV,
    allowed: bool,
    params: Option<Json>,
    now: u64,
)
    requires
        s.prompt_refusal(allowed, params) is Some,
    ensures
        s.after_prompt(allowed, params, now).pending == s.pending,
        s.after_prompt(allowed, params, now).sessions.dom() =~= s.sessions.dom(),
{
}

/// A custom event reaches the client of its session: its name and what can be read
/// of its payload arrive unchanged.
pub proof fn law_custom_events_arrive(
    s: StateV,
    session_id: Seq<char>,
    name: Seq<char>,
    payload: Seq<char>,
    value: JsonV,
    summary: Option<Seq<char>>,
)
    requires
        s.sessions.contains_key(session_id),
        json_of_text(payload) matches Ok(read) && read == value,
    ensures
        s.fragment(
            custom_event(ACP_HTTP_CHANNEL_NAME@, session_id, name, payload, summary),
            true,
        ) == Some(FragmentV::Custom(name, value)),
{
    reveal_strlit("error");
    reveal_strlit("custom.name");
    reveal_strlit("custom.payload");
    reveal_strlit("custom.summary");
    assert(OUTBOUND_ERROR_KEY@.len() == 5);
    assert(OUTBOUND_CUSTOM_NAME_KEY@.len() == 11);
    assert(OUTBOUND_CUSTOM_PAYLOAD_KEY@.len() == 14);
    assert(OUTBOUND_CUSTOM_SUMMARY_KEY@.len() == 14);
    assert(OUTBOUND_CUSTOM_PAYLOAD_KEY@[7] == 'p');
    assert(OUTBOUND_CUSTOM_SUMMARY_KEY@[7] == 's');
}

/// Whether a request is answered with an error.
pub open spec fn answers_error(
    step: StepV,
    ch: AcpHttpChannel,
    id: Option<Json>,
    code: int,
    message: Seq<char>,
) -> bool {
    exists|u: JsonV| #[trigger]
        answers_with_error(u, id, code, message) && step == StepV::Respond(
            json_response("200 OK"@, json_text(u), ch.http_config.auth_token is None),
        )
}

/// Whether a value answers a request with a result.
pub open spec fn answers_with(u: JsonV, id: Option<Json>, result: JsonV) -> bool {
    &&& at(u, "id"@) == Some(
        match id {
            Some(j) => j@,
            None => JsonV::Null,
        },
    )
    &&& at(u, "error"@) is None
    &&& at(u, "result"@) == Some(result)
}

/// Whether a request is answered with a result.
pub open spec fn answers_result(
    step: StepV,
    ch: AcpHttpChannel,
    id: Option<Json>,
    result: JsonV,
) -> bool {
    exists|u: JsonV| #[trigger]
        answers_with(u, id, result) && step == StepV::Respond(
            json_response("200 OK"@, json_text(u), ch.http_config.auth_token is None),
        )
}

proof fn lemma_error(ch: AcpHttpChannel, id: Option<Json>, code: i64, message: Seq<char>)
    requires
        code < 0,
    ensures
        answers_error(ch.ok_response(error_body(id, code, message)), ch, id, code as int, message),
{
    lemma_error_answers(id, code, message);
    let u = error_envelope(id, code, message);
    assert(answers_with_error(u, id, code as int, message));
}

proof fn lemma_result(ch: AcpHttpChannel, id: Option<Json>, result: JsonV)
    ensures
        answers_result(ch.ok_response(result_body(id, result)), ch, id, result),
{
    law_answers_hold_what_they_answer(id, result, 0, ""@);
    law_answers_echo_the_id(id, result, 0, ""@);
    let u = result_envelope(id, result);
    assert(answers_with(u, id, result));
}

proof fn lemma_methods()
    ensures
        "initialize"@.len() == 10,
        "session/new"@.len() == 11,
        "session/cancel"@.len() == 14,
        "session/list"@.len() == 12,
        "x.openshell/inject_inbound"@.len() == 26,
        "session/prompt"@.len() == 14,
        "session/prompt"@[8] == 'p',
        "session/cancel"@[8] == 'c',
{
    reveal_strlit("initialize");
    reveal_strlit("session/new");
    reveal_strlit("session/cancel");
    reveal_strlit("session/list");
    reveal_strlit("x.openshell/inject_inbound");
    reveal_strlit("session/prompt");
}

/// Whether a body is a request of the given method, with an identifier.
pub open spec fn asks(q: JsonRpcRequest, method: Seq<char>) -> bool {
    q.jsonrpc@ == "2.0"@ && q.id is Some && q.method@ == method
}

/// A prompt for a live session with none in flight is taken: the agent gets its text,
/// from this session and with the wish for a streamed reply, the reply goes to the
/// request that asked, the prompt is in flight, and the session counts as just used.
pub proof fn law_prompts_are_taken(
    ch: AcpHttpChannel,
    q: JsonRpcRequest,
    inputs: RpcInputs,
    session_id: Seq<char>,
    blocks: Seq<BlockV>,
)
    requires
        asks(q, "session/prompt"@),
        ch.base_config.allows("acp_client"@),
        prompt_params(q.params) == Some((session_id, blocks)),
        join(block_texts(blocks), "\n"@).len() > 0,
        byte_len(join(block_texts(blocks), "\n"@)) <= 102_400,
        ch.state@.sessions.contains_key(session_id),
        !ch.state@.pending.contains_key(session_id),
    ensures
        ({
            let (state, step) = ch.rpc_outcome(Ok(q), inputs);
            &&& step matches StepV::Stream(id, s, m) && {
                &&& id == q.id
                &&& s == session_id
                &&& m.content == join(block_texts(blocks), "\n"@)
                &&& m.chat_id == session_id
                &&& m.channel == "acp_http"@
                &&& m.sender_id == "acp_client"@
                &&& m.session_key == "acp_http"@ + ":"@ + session_id
                &&& m.media.len() == 0
                &&& m.metadata.contains_key("streaming_capable"@)
                &&& m.metadata["streaming_capable"@] == "true"@
            }
            &&& state.pending == ch.state@.pending.insert(
                session_id,
                PendingPrompt { cancelled: false },
            )
            &&& state.sessions == ch.state@.sessions.insert(
                session_id,
                SessionV { cwd: ch.state@.sessions[session_id].cwd, last_active: inputs.now },
            )
        }),
{
    lemma_methods();
}

/// Why a prompt is refused: the client may not use the channel, the parameters cannot
/// be read, there is no text or too much of it, the session is not known, or another
/// prompt is in flight. The client is told which; no message goes to the agent.
pub proof fn law_prompts_are_refused(ch: AcpHttpChannel, q: JsonRpcRequest, inputs: RpcInputs)
    requires
        asks(q, "session/prompt"@),
    ensures
        ({
            let (state, step) = ch.rpc_outcome(Ok(q), inputs);
            let open = ch.base_config.allows("acp_client"@);
            &&& !open ==> answers_error(step, ch, q.id, -32000, "Unauthorized"@)
            &&& open && prompt_params(q.params) is None ==> answers_error(
                step,
                ch,
                q.id,
                -32602,
                "session/prompt: missing or invalid params"@,
            )
            &&& open ==> (prompt_params(q.params) matches Some((session_id, blocks)) ==> {
                let content = join(block_texts(blocks), "\n"@);
                let fits = content.len() > 0 && byte_len(content) <= 102_400;
                let known = ch.state@.sessions.contains_key(session_id);
                &&& content.len() == 0 ==> answers_error(
                    step,
                    ch,
                    q.id,
                    -32602,
                    "session/prompt: prompt content is empty"@,
                )
                &&& content.len() > 0 && !fits ==> answers_error(
                    step,
                    ch,
                    q.id,
                    -32602,
                    "session/prompt: content too large ("@ + decimal(byte_len(content))
                        + " bytes, limit "@ + decimal(102_400) + ")"@,
                )
                &&& fits && !known ==> answers_error(
                    step,
                    ch,
                    q.id,
                    -32000,
                    "ACP: unknown session "@ + session_id,
                )
                &&& fits && known && ch.state@.pending.contains_key(session_id) ==> answers_error(
                    step,
                    ch,
                    q.id,
                    -32602,
                    "session/prompt: a prompt is already in flight for this session"@,
                )
            })
        }),
{
    lemma_methods();
    if let Some(e) = ch.state@.prompt_refusal(ch.is_open(), q.params) {
        lemma_error(ch, q.id, e.code, e.message);
    }
}

/// A new session is opened in the working directory that was asked for, under a new
/// name that the client is told; other sessions stay, apart from those that were idle
/// for too long. There are never more than a thousand.
pub proof fn law_sessions_are_opened(
    ch: AcpHttpChannel,
    q: JsonRpcRequest,
    inputs: RpcInputs,
    cwd: Seq<char>,
)
    requires
        asks(q, "session/new"@),
        ch.base_config.allows("acp_client"@),
        text_param(q.params, "cwd"@) == Some(cwd),
        cwd.len() > 0 && cwd[0] == '/',
        byte_len(cwd) <= 4096,
        !climbs(cwd),
    ensures
        ({
            let (state, step) = ch.rpc_outcome(Ok(q), inputs);
            let kept = ch.state@.swept_if(inputs.now, ch.config.session_ttl_secs);
            let name = "acph_"@ + inputs.fresh_id@;
            &&& kept.sessions.dom().len() < 1000 ==> {
                &&& answers_result(
                    step,
                    ch,
                    q.id,
                    JsonV::Object(seq![("sessionId"@, JsonV::Text(name))]),
                )
                &&& state.sessions == kept.sessions.insert(
                    name,
                    SessionV { cwd, last_active: inputs.now },
                )
                &&& state.pending == kept.pending
            }
            &&& kept.sessions.dom().len() >= 1000 ==> {
                &&& answers_error(
                    step,
                    ch,
                    q.id,
                    -32000,
                    "too many sessions (limit: "@ + decimal(1000) + ")"@,
                )
                &&& state == kept
            }
        }),
{
    lemma_methods();
    let kept = ch.state@.swept_if(inputs.now, ch.config.session_ttl_secs);
    let name = "acph_"@ + inputs.fresh_id@;
    assert(new_session_result(name)->Object_0 =~= seq![("sessionId"@, JsonV::Text(name))]);
    lemma_result(ch, q.id, new_session_result(name));
    lemma_error(
        ch,
        q.id,
        JSONRPC_SERVER_ERROR,
        "too many sessions (limit: "@ + decimal(1000) + ")"@,
    );
}

/// A working directory is accepted where it is there, begins at the root, is not too
/// long and does not climb; otherwise no session is opened, and the client is told why.
pub proof fn law_working_directories_are_checked(
    ch: AcpHttpChannel,
    q: JsonRpcRequest,
    inputs: RpcInputs,
)
    requires
        asks(q, "session/new"@),
    ensures
        ({
            let (state, step) = ch.rpc_outcome(Ok(q), inputs);
            let open = ch.base_config.allows("acp_client"@);
            let missing = match text_param(q.params, "cwd"@) {
                Some(cwd) => cwd.len() == 0,
                None => true,
            };
            &&& !open ==> answers_error(step, ch, q.id, -32000, "Unauthorized"@) && state
                == ch.state@
            &&& open && missing ==> answers_error(
                step,
                ch,
                q.id,
                -32602,
                "session/new: cwd is required"@,
            ) && state == ch.state@
            &&& open && !missing ==> (text_param(q.params, "cwd"@) matches Some(cwd) ==> {
                &&& cwd[0] != '/' ==> answers_error(
                    step,
                    ch,
                    q.id,
                    -32602,
                    "session/new: cwd must be an absolute path"@,
                ) && state == ch.state@
                &&& cwd[0] == '/' && byte_len(cwd) > 4096 ==> answers_error(
                    step,
                    ch,
                    q.id,
                    -32602,
                    "session/new: cwd exceeds 4096 bytes"@,
                ) && state == ch.state@
                &&& cwd[0] == '/' && byte_len(cwd) <= 4096 && climbs(cwd) ==> answers_error(
                    step,
                    ch,
                    q.id,
                    -32602,
                    "session/new: cwd must not contain '..' path segments"@,
                ) && state == ch.state@
            })
        }),
{
    lemma_methods();
    if let Some(e) = ch.state@.new_refusal(ch.is_open(), text_param(q.params, "cwd"@)) {
        lemma_error(ch, q.id, e.code, e.message);
    }
}

/// Cancelling marks the prompt in flight of the named session and nothing else, by
/// request or by notification; a request is answered with an empty result.
pub proof fn law_prompts_are_cancelled(
    ch: AcpHttpChannel,
    q: JsonRpcRequest,
    inputs: RpcInputs,
    session_id: Seq<char>,
)
    requires
        q.jsonrpc@ == "2.0"@,
        q.method@ == "session/cancel"@,
        ch.base_config.allows("acp_client"@),
        text_param(q.params, "sessionId"@) == Some(session_id),
    ensures
        ({
            let (state, step) = ch.rpc_outcome(Ok(q), inputs);
            &&& state.sessions == ch.state@.sessions
            &&& ch.state@.pending.contains_key(session_id) ==> state.pending
                == ch.state@.pending.insert(session_id, PendingPrompt { cancelled: true })
            &&& !ch.state@.pending.contains_key(session_id) ==> state.pending == ch.state@.pending
            &&& q.id is Some ==> answers_result(step, ch, q.id, JsonV::Object(seq![]))
            &&& q.id is None ==> step == StepV::Respond(
                notification_response(ch.http_config.auth_token is None),
            )
        }),
{
    lemma_methods();
    lemma_result(ch, q.id, JsonV::Object(Seq::empty()));
}

/// What is told of a session: its name, its working directory, and whether a prompt is
/// in flight.
pub proof fn law_sessions_are_described(id: Seq<char>, cwd: Seq<char>, in_flight: bool)
    ensures
        says(session_info(id, cwd, in_flight), "sessionId"@, id),
        says(session_info(id, cwd, in_flight), "cwd"@, cwd),
        at(inner(session_info(id, cwd, in_flight), "_meta"@), "pending"@) == Some(
            JsonV::Bool(in_flight),
        ),
{
    reveal_strlit("sessionId");
    reveal_strlit("cwd");
    reveal_strlit("_meta");
    reveal_strlit("pending");
    assert("sessionId"@.len() == 9 && "cwd"@.len() == 3 && "_meta"@.len() == 5);
    reveal_with_fuel(crate::json::field_at, 4);
}

/// A listing answers with the sessions, in order, that have the working directory that
/// was asked for, or with all where none was; a filter that cannot be read is refused.
pub proof fn law_sessions_are_listed(
    ch: AcpHttpChannel,
    q: JsonRpcRequest,
    inputs: RpcInputs,
    keys: Seq<Seq<char>>,
    id: Seq<char>,
    cwd: Option<Seq<char>>,
)
    requires
        asks(q, "session/list"@),
        ch.base_config.allows("acp_client"@),
    ensures
        ({
            let (state, step) = ch.rpc_outcome(Ok(q), inputs);
            &&& state == ch.state@
            &&& inputs.list_filter matches Err(e) ==> answers_error(
                step,
                ch,
                q.id,
                -32602,
                "Invalid params: "@ + e@,
            )
            &&& inputs.list_filter matches Ok(wanted) ==> answers_result(
                step,
                ch,
                q.id,
                JsonV::Object(
                    seq![
                        (
                            "sessions"@,
                            JsonV::Array(
                                ch.state@.listing(
                                    ch.state.sessions.keys(),
                                    match wanted {
                                        Some(c) => Some(c@),
                                        None => None,
                                    },
                                ),
                            ),
                        ),
                    ],
                ),
            )
        }),
        ch.state@.listing(seq![], cwd).len() == 0,
        cwd is None || cwd == Some(ch.state@.sessions[id].cwd) ==> ch.state@.listing(
            keys.push(id),
            cwd,
        ) == ch.state@.listing(keys, cwd).push(
            session_info(id, ch.state@.sessions[id].cwd, ch.state@.pending.contains_key(id)),
        ),
        cwd is Some && cwd != Some(ch.state@.sessions[id].cwd) ==> ch.state@.listing(
            keys.push(id),
            cwd,
        ) == ch.state@.listing(keys, cwd),
{
    lemma_methods();
    assert(keys.push(id).drop_last() =~= keys);
    match inputs.list_filter {
        Err(e) => lemma_error(ch, q.id, JSONRPC_INVALID_PARAMS, "Invalid params: "@ + e@),
        Ok(wanted) => {
            let listed = ch.state@.listing(ch.state.sessions.keys(), wanted.deep_view());
            let result = JsonV::Object(Seq::empty().push(("sessions"@, JsonV::Array(listed))));
            assert(result->Object_0 =~= seq![("sessions"@, JsonV::Array(listed))]);
            lemma_result(ch, q.id, result);
        },
    }
}

/// An injected message reaches the agent as it is, in its session, with its kind and
/// the request it speaks of; it is refused where its session is not known.
pub proof fn law_messages_are_injected(
    ch: AcpHttpChannel,
    q: JsonRpcRequest,
    inputs: RpcInputs,
    session_id: Seq<char>,
    content: Seq<char>,
    kind: Seq<char>,
    request_id: Seq<char>,
)
    requires
        asks(q, "x.openshell/inject_inbound"@),
        ch.base_config.allows("acp_client"@),
        inject_params(q.params) == Some((session_id, content, kind, request_id)),
        session_id.len() > 0 && kind.len() > 0 && request_id.len() > 0,
    ensures
        ({
            let (state, step) = ch.rpc_outcome(Ok(q), inputs);
            &&& ch.state@.sessions.contains_key(session_id) ==> {
                &&& step matches StepV::Inject(id, m) && {
                    &&& id == q.id
                    &&& m.content == content
                    &&& m.chat_id == session_id
                    &&& m.channel == "acp_http"@
                    &&& m.sender_id == "acp_client"@
                    &&& m.session_key == "acp_http"@ + ":"@ + session_id
                    &&& m.metadata.contains_key("inject_kind"@)
                    &&& m.metadata["inject_kind"@] == kind
                    &&& m.metadata.contains_key("request_id"@)
                    &&& m.metadata["request_id"@] == request_id
                }
                &&& state.pending == ch.state@.pending
                &&& state.sessions == ch.state@.sessions.insert(
                    session_id,
                    SessionV { cwd: ch.state@.sessions[session_id].cwd, last_active: inputs.now },
                )
            }
            &&& !ch.state@.sessions.contains_key(session_id) ==> answers_error(
                step,
                ch,
                q.id,
                -32000,
                "ACP: unknown session "@ + session_id,
            ) && state == ch.state@
        }),
{
    lemma_methods();
    reveal_strlit("inject_kind");
    reveal_strlit("request_id");
    assert("inject_kind"@.len() == 11 && "request_id"@.len() == 10);
    if let Some(e) = ch.state@.inject_refusal(ch.is_open(), q.params) {
        lemma_error(ch, q.id, e.code, e.message);
    }
}

/// The parameters of an injection come by name or in their order; anything else is no
/// injection, and neither is one with an empty session, kind or request.
pub proof fn law_injections_are_read(
    ch: AcpHttpChannel,
    q: JsonRpcRequest,
    inputs: RpcInputs,
    params: Json,
    a: Seq<char>,
    b: Seq<char>,
    c: Seq<char>,
    d: Seq<char>,
)
    ensures
        says(params@, "sessionId"@, a) && says(params@, "content"@, b) && says(
            params@,
            "kind"@,
            c,
        ) && says(params@, "requestId"@, d) ==> inject_params(Some(params)) == Some((a, b, c, d)),
        params@ == JsonV::Array(
            seq![JsonV::Text(a), JsonV::Text(b), JsonV::Text(c), JsonV::Text(d)],
        ) ==> inject_params(Some(params)) == Some((a, b, c, d)),
        inject_params(None) is None,
        asks(q, "x.openshell/inject_inbound"@) && ch.base_config.allows("acp_client"@) ==> {
            let (state, step) = ch.rpc_outcome(Ok(q), inputs);
            &&& inject_params(q.params) is None ==> answers_error(
                step,
                ch,
                q.id,
                -32602,
                "x.openshell/inject_inbound: missing or invalid params"@,
            ) && state == ch.state@
            &&& inject_params(q.params) matches Some((s, _, kind, request)) ==> (s.len() == 0
                || kind.len() == 0 || request.len() == 0 ==> answers_error(
                step,
                ch,
                q.id,
                -32602,
                "x.openshell/inject_inbound: sessionId/kind/requestId are required"@,
            ) && state == ch.state@)
        },
{
    lemma_methods();
    if let Some(e) = ch.state@.inject_refusal(ch.is_open(), q.params) {
        lemma_error(ch, q.id, e.code, e.message);
    }
}

/// The channel introduces itself with the version that it runs.
pub proof fn law_the_channel_introduces_itself(
    ch: AcpHttpChannel,
    q: JsonRpcRequest,
    inputs: RpcInputs,
)
    requires
        asks(q, "initialize"@),
    ensures
        ({
            let (state, step) = ch.rpc_outcome(Ok(q), inputs);
            let result = initialize_result(inputs.version@);
            &&& state == ch.state@
            &&& answers_result(step, ch, q.id, result)
            &&& says(result, "protocolVersion"@, "1"@)
            &&& says(inner(result, "agentInfo"@), "name"@, "zeptoclaw"@)
            &&& says(inner(result, "agentInfo"@), "title"@, "ZeptoClaw"@)
            &&& says(inner(result, "agentInfo"@), "version"@, inputs.version@)
            &&& at(result, "agentCapabilities"@) == Some(capabilities())
            &&& at(result, "authMethods"@) == Some(JsonV::Array(seq![]))
        }),
{
    lemma_methods();
    lemma_result(ch, q.id, initialize_result(inputs.version@));
    reveal_strlit("protocolVersion");
    reveal_strlit("agentCapabilities");
    reveal_strlit("agentInfo");
    reveal_strlit("authMethods");
    reveal_strlit("name");
    reveal_strlit("title");
    reveal_strlit("version");
    assert("protocolVersion"@.len() == 15 && "agentCapabilities"@.len() == 17 && "agentInfo"@.len()
        == 9 && "authMethods"@.len() == 11 && "name"@.len() == 4 && "title"@.len() == 5 && "version"@.len() == 7);
    reveal_with_fuel(crate::json::field_at, 5);
}

/// What is no request that the channel knows changes nothing. A body that cannot be
/// read, one of another protocol version and an unknown method are answered with an
/// error; a notification is answered without a body.
pub proof fn law_other_requests_change_nothing(
    ch: AcpHttpChannel,
    q: JsonRpcRequest,
    inputs: RpcInputs,
    e: String,
)
    ensures
        q.jsonrpc@ != "2.0"@ ==> ch.rpc_outcome(Ok(q), inputs).0 == ch.state@ && answers_error(
            ch.rpc_outcome(Ok(q), inputs).1,
            ch,
            q.id,
            -32600,
            "Invalid Request: jsonrpc must be \"2.0\""@,
        ),
        q.jsonrpc@ == "2.0"@ && q.id is None ==> ch.rpc_outcome(Ok(q), inputs).1 == StepV::Respond(
            notification_response(ch.http_config.auth_token is None),
        ) && (q.method@ != "session/cancel"@ ==> ch.rpc_outcome(Ok(q), inputs).0 == ch.state@),
        q.jsonrpc@ == "2.0"@ && q.id is Some && q.method@ != "initialize"@ && q.method@
            != "session/new"@ && q.method@ != "session/cancel"@ && q.method@ != "session/list"@
            && q.method@ != "x.openshell/inject_inbound"@ && q.method@ != "session/prompt"@
            ==> ch.rpc_outcome(Ok(q), inputs).0 == ch.state@ && answers_error(
            ch.rpc_outcome(Ok(q), inputs).1,
            ch,
            q.id,
            -32601,
            "method not found: "@ + q.method@,
        ),
        ch.rpc_outcome(Err(e), inputs).0 == ch.state@,
        exists|u: JsonV| #[trigger]
            answers_with_error(u, None, -32700, "parse error: "@ + e@) && ch.rpc_outcome(
                Err(e),
                inputs,
            ).1 == StepV::Respond(
                json_response(
                    "400 Bad Request"@,
                    json_text(u),
                    ch.http_config.auth_token is None,
                ),
            ),
{
    lemma_error(
        ch,
        q.id,
        JSONRPC_INVALID_REQUEST,
        "Invalid Request: jsonrpc must be \"2.0\""@,
    );
    lemma_error(ch, q.id, JSONRPC_METHOD_NOT_FOUND, "method not found: "@ + q.method@);
    lemma_error_answers(None, JSONRPC_PARSE_ERROR, "parse error: "@ + e@);
    let u = error_envelope(None, JSONRPC_PARSE_ERROR, "parse error: "@ + e@);
    assert(answers_with_error(u, None, -32700, "parse error: "@ + e@));
}

/// What becomes of an HTTP request: one that cannot be read, asks for another path or
/// method, or lacks the token is told so, in this order; any other hands its body on as
/// it is.
pub proof fn law_requests_are_routed(raw: Seq<u8>, token: Option<Seq<char>>)
    requires
        raw.len() > 0,
        body_is_whole(raw),
    ensures
        ({
            let open_cors = token is None;
            let step = routed(raw, token);
            &&& parsed(raw) is None ==> step == ConnV::Respond(
                json_response("400 Bad Request"@, "{}"@, open_cors),
            )
            &&& parsed(raw) matches Some(req) ==> {
                let right_path = req.path == "/acp"@ || req.path == "/"@;
                &&& req.method == "OPTIONS"@ ==> (step matches ConnV::Respond(r) && starts_with(
                    r,
                    "HTTP/1.1 204 No Content\r\n"@,
                ))
                &&& req.method != "OPTIONS"@ && !right_path ==> step == ConnV::Respond(
                    json_response("404 Not Found"@, "{\"error\":\"not found\"}"@, open_cors),
                )
                &&& req.method != "OPTIONS"@ && right_path && req.method != "POST"@ ==> step
                    == ConnV::Respond(
                    json_response(
                        "405 Method Not Allowed"@,
                        "{\"error\":\"method not allowed\"}"@,
                        open_cors,
                    ),
                )
                &&& req.method == "POST"@ && right_path && !authorized(req.headers, token) ==> step
                    == ConnV::Respond(
                    json_response(
                        "401 Unauthorized"@,
                        "{\"error\":\"unauthorized\"}"@,
                        open_cors,
                    ),
                )
                &&& req.method == "POST"@ && right_path && authorized(req.headers, token) ==> step
                    == ConnV::Rpc(req.body)
            }
        }),
{
    reveal_strlit("OPTIONS");
    reveal_strlit("POST");
    assert("OPTIONS"@.len() == 7 && "POST"@.len() == 4);
    let a = "HTTP/1.1 204 No Content\r\n"@;
    let b = cors_header(token is None)
        + "Access-Control-Allow-Methods: POST, OPTIONS\r\nAccess-Control-Allow-Headers: Content-Type, Authorization\r\nContent-Length: 0\r\n\r\n"@;
    law_texts_hold_their_parts(seq![], a, b, a);
    if let Some(req) = parsed(raw) {
        if req.method == "OPTIONS"@ {
            assert(routed(raw, token)->Respond_0 =~= a + b);
        }
    }
}

/// What the agent sends reaches the stream that waits for it, as it is: a piece as a
/// piece, a whole reply as such, the end as the end, an error as an error. What is for
/// another channel, an unknown session or nobody reaches none.
pub proof fn law_replies_reach_the_stream(s: StateV, msg: OutboundV, has_waiter: bool)
    ensures
        ({
            let here = msg.channel == "acp_http"@ && s.sessions.contains_key(msg.chat_id)
                && has_waiter;
            let failed = msg.metadata.contains_key("error"@) && msg.metadata["error"@] == "true"@;
            let goes_on = msg.metadata.contains_key("keep_typing"@) && msg.metadata["keep_typing"@]
                == "true"@;
            let cancelled = s.pending.contains_key(msg.chat_id)
                && s.pending[msg.chat_id].cancelled;
            &&& !here ==> s.fragment(msg, has_waiter) is None
            &&& here && failed ==> s.fragment(msg, has_waiter) == Some(
                FragmentV::Error(msg.content),
            )
            &&& here && !failed && msg.kind == OutboundMessageKind::Chunk ==> s.fragment(
                msg,
                has_waiter,
            ) == Some(FragmentV::Chunk(msg.content))
            &&& here && !failed && msg.kind == OutboundMessageKind::ChunkEnd ==> s.fragment(
                msg,
                has_waiter,
            ) == Some(FragmentV::End(cancelled))
            &&& here && !failed && msg.kind == OutboundMessageKind::Full && goes_on ==> s.fragment(
                msg,
                has_waiter,
            ) == Some(FragmentV::Chunk(msg.content))
            &&& here && !failed && msg.kind == OutboundMessageKind::Full && !goes_on
                ==> s.fragment(msg, has_waiter) == Some(FragmentV::Full(msg.content, cancelled))
        }),
{
}

/// The channel declares that it loads no sessions and takes text alone.
pub proof fn law_declared_capabilities()
    ensures
        at(capabilities(), "loadSession"@) == Some(JsonV::Bool(false)),
        at(inner(capabilities(), "promptCapabilities"@), "image"@) == Some(JsonV::Bool(false)),
        at(inner(capabilities(), "promptCapabilities"@), "audio"@) == Some(JsonV::Bool(false)),
        at(inner(capabilities(), "promptCapabilities"@), "embeddedContext"@) == Some(
            JsonV::Bool(false),
        ),
{
    reveal_strlit("loadSession");
    reveal_strlit("promptCapabilities");
    reveal_strlit("image");
    reveal_strlit("audio");
    reveal_strlit("embeddedContext");
    assert("loadSession"@.len() == 11 && "promptCapabilities"@.len() == 18 && "image"@.len() == 5
        && "audio"@.len() == 5 && "embeddedContext"@.len() == 15);
    assert("image"@[0] == 'i' && "audio"@[0] == 'a');
    reveal_with_fuel(crate::json::field_at, 4);
}

/// What becomes of a connection and of a request holds what its model holds.
pub proof fn law_steps_hold_what_is_done(conn: ConnStep, rpc: RpcStep)
    ensures
        match conn {
            ConnStep::Close => conn@ is Close,
            ConnStep::Respond(s) => conn@ == ConnV::Respond(s@),
            ConnStep::Rpc(s) => conn@ == ConnV::Rpc(s@),
        },
        match rpc {
            RpcStep::Respond(s) => rpc@ == StepV::Respond(s@),
            RpcStep::Inject { id, inbound } => rpc@ == StepV::Inject(id, inbound@),
            RpcStep::Stream { id, session_id, inbound } => rpc@ == StepV::Stream(
                id,
                session_id@,
                inbound@,
            ),
        },
{
}

/// The model of an optional piece of a reply is that of the piece, where there is one.
pub proof fn law_optional_pieces(f: PromptFragment)
    ensures
        maybe_fragment(Some(f)) == Some(f@),
        maybe_fragment(None) is None,
{
}

} // verus!
