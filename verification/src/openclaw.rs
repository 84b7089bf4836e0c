//! The OpenClaw gateway protocol: a WebSocket JSON envelope with request,
//! response and event frames.
//!
//! Everything below is the decision logic of a session: what each incoming
//! frame does to the accumulated message and what the transport must do
//! next. The transport itself (the socket, the handshake timeout, the
//! serialization of requests) lives outside this crate and hands frames in
//! as plain values.

use std::collections::HashSet;
use vstd::prelude::*;

use crate::bot_id::BotId;
use crate::entity::{Bot, BotCapabilities, EntityAvatar, EntityId};
use crate::merge::{merge_spec, merge_text_content};
use crate::message::{Message, MessageContent};
use crate::result::{ClientError, ClientErrorKind, ClientResult};
use crate::text::str_eq;

verus! {

broadcast use vstd::std_specs::hash::group_hash_axioms;

/// The most recent messages considered when building the history message.
pub const MAX_HISTORY_MESSAGES: usize = 32;

/// A client for an OpenClaw gateway: where it lives and how to
/// authenticate.
///
/// Design note: this is a plain value, not a shared handle. The verified
/// code cannot hold the transport, the reference count or the lock that a
/// cheaply clonable client handle needs, so the shell that owns the
/// transport wraps one instance behind a reference-counted read-write lock,
/// implements the client trait over it, and snapshots the configuration
/// here without holding the lock across I/O.
#[derive(Clone, Debug, PartialEq)]
pub struct OpenClawClient {
    url: String,
    token: Option<String>,
}

impl OpenClawClient {
    /// The gateway URL.
    pub closed spec fn spec_url(self) -> Seq<char> {
        self.url@
    }

    /// The authentication token, if one was set.
    pub closed spec fn spec_token(self) -> Option<Seq<char>> {
        match self.token {
            Some(t) => Some(t@),
            None => None,
        }
    }

    /// Creates a new client for the gateway at the given URL.
    pub fn new(url: String) -> (r: Self)
        ensures
            r.spec_url() == url@,
            r.spec_token() is None,
    {
        OpenClawClient { url, token: None }
    }

    /// Sets the authentication token for the client.
    pub fn set_key(&mut self, token: &str) -> (r: Result<(), &'static str>)
        ensures
            r is Ok,
            final(self).spec_token() == Some(token@),
            final(self).spec_url() == old(self).spec_url(),
    {
        self.token = Some(token.to_owned());
        Ok(())
    }

    /// The URL the client talks to.
    pub fn url(&self) -> (r: &str)
        ensures
            r@ == self.spec_url(),
    {
        self.url.as_str()
    }

    /// The authentication token, if one was set.
    pub fn token(&self) -> (r: Option<&String>)
        ensures
            match r {
                Some(t) => self.spec_token() == Some(t@),
                None => self.spec_token() is None,
            },
    {
        self.token.as_ref()
    }

    /// The single assistant bot an OpenClaw gateway serves.
    pub fn bots(&self) -> (r: ClientResult<Vec<Bot>>)
        ensures
            r@.errors.len() == 0,
            r@.value matches Some(v) && v@.len() == 1 && v@[0]@.id.local == "openclaw/assistant"@
                && v@[0]@.id.provider == "openclaw"@ && v@[0]@.name == "OpenClaw Assistant"@,
    {
        let bot = Bot {
            id: BotId::new("openclaw/assistant", "openclaw"),
            name: String::from_str("OpenClaw Assistant"),
            avatar: EntityAvatar::Text(String::from_str("OC")),
            capabilities: BotCapabilities::new(),
        };
        ClientResult::new_ok(vec![bot])
    }

    /// The first request of a session: the protocol handshake, carrying the
    /// authentication token when one is known.
    pub fn build_connect_request(token: Option<&str>) -> (r: Request<ConnectParams>)
        ensures
            r.kind@ == "req"@,
            r.method@ == "connect"@,
            r.params.min_protocol == 3,
            r.params.max_protocol == 3,
            r.params.role@ == "operator"@,
            r.params.scopes@.len() == 2,
            r.params.scopes@[0]@ == "operator.read"@,
            r.params.scopes@[1]@ == "operator.write"@,
            r.params.client.id@ == "gateway-client"@,
            r.params.client.version@ == "1.0.0"@,
            r.params.client.platform@ == "desktop"@,
            r.params.client.mode@ == "cli"@,
            match token {
                Some(t) => r.params.auth matches Some(a) && a.token@ == t@,
                None => r.params.auth is None,
            },
    {
        let auth = match token {
            Some(t) => Some(AuthInfo { token: t.to_owned() }),
            None => None,
        };
        Request {
            kind: String::from_str("req"),
            id: new_request_id(),
            method: String::from_str("connect"),
            params: ConnectParams {
                min_protocol: 3,
                max_protocol: 3,
                role: String::from_str("operator"),
                scopes: vec![
                    String::from_str("operator.read"),
                    String::from_str("operator.write"),
                ],
                client: ClientInfo {
                    id: String::from_str("gateway-client"),
                    version: String::from_str("1.0.0"),
                    platform: String::from_str("desktop"),
                    mode: String::from_str("cli"),
                },
                auth,
            },
        }
    }

    /// The request that hands the conversation so far to the gateway's main
    /// agent.
    pub fn build_agent_request(message: String) -> (r: Request<AgentParams>)
        ensures
            r.kind@ == "req"@,
            r.method@ == "agent"@,
            r.params.message == message,
            r.params.agent_id@ == "main"@,
    {
        Request {
            kind: String::from_str("req"),
            id: new_request_id(),
            method: String::from_str("agent"),
            params: AgentParams {
                message,
                idempotency_key: new_request_id(),
                agent_id: String::from_str("main"),
            },
        }
    }
}

/// Relies on uuid's `Uuid::new_v4` and its `to_string`: a fresh random
/// identifier. Nothing is promised of the value.
#[verifier::external_body]
fn new_request_id() -> String {
    uuid::Uuid::new_v4().to_string()
}

/// An OpenClaw protocol request envelope.
#[derive(Clone, Debug, PartialEq)]
pub struct Request<T> {
    /// The envelope discriminator; always `"req"` for requests.
    pub kind: String,
    /// A fresh identifier for the request.
    pub id: String,
    /// The method the request invokes.
    pub method: String,
    /// The method's parameters.
    pub params: T,
}

/// The parameters of the `connect` handshake request.
#[derive(Clone, Debug, PartialEq)]
pub struct ConnectParams {
    pub min_protocol: u32,
    pub max_protocol: u32,
    pub role: String,
    pub scopes: Vec<String>,
    pub client: ClientInfo,
    pub auth: Option<AuthInfo>,
}

/// How the client introduces itself during the handshake.
#[derive(Clone, Debug, PartialEq)]
pub struct ClientInfo {
    pub id: String,
    pub version: String,
    pub platform: String,
    pub mode: String,
}

/// The authentication part of the handshake.
#[derive(Clone, Debug, PartialEq)]
pub struct AuthInfo {
    pub token: String,
}

/// The parameters of the `agent` request.
#[derive(Clone, Debug, PartialEq)]
pub struct AgentParams {
    pub message: String,
    pub idempotency_key: String,
    pub agent_id: String,
}

/// One event frame of the gateway protocol, reduced to the fields the
/// session logic reads: the event name, the deduplication sequence number,
/// and the places a text payload may arrive in.
#[derive(Clone, Debug, PartialEq)]
pub struct EventFrame {
    /// The event name.
    pub event: String,
    /// The sequence number, used to drop whole repeated events.
    pub seq: Option<u64>,
    /// A full or partial text, at the payload's top level.
    pub text: Option<String>,
    /// A text delta, at the payload's top level.
    pub delta: Option<String>,
    /// A full or partial text, nested under the payload's data.
    pub data_text: Option<String>,
    /// A text delta, nested under the payload's data.
    pub data_delta: Option<String>,
    /// An error description.
    pub message: Option<String>,
    /// An alternative error description.
    pub error: Option<String>,
    /// The state a chat event reports.
    pub state: Option<String>,
}

/// What a response frame's payload may carry.
#[derive(Clone, Debug, PartialEq)]
pub struct ResponsePayload {
    /// The payload type discriminator.
    pub kind: Option<String>,
    /// The status of the request the response answers.
    pub status: Option<String>,
    /// A summary of the result, at the payload's top level.
    pub summary: Option<String>,
    /// A summary nested under the result.
    pub result_summary: Option<String>,
    /// A text nested under the result.
    pub result_text: Option<String>,
    /// The texts of the result's payload list.
    pub payload_texts: Option<Vec<String>>,
}

/// One response frame of the gateway protocol.
#[derive(Clone, Debug, PartialEq)]
pub struct ResponseFrame {
    /// Whether the remote accepted the request this answers.
    pub ok: bool,
    /// The remote's error description when it did not.
    pub error: Option<String>,
    /// The payload of an accepted request.
    pub payload: Option<ResponsePayload>,
}

/// What the session must do after processing one frame.
#[derive(Clone, Debug)]
pub enum ProcessResult {
    /// Nothing; keep reading.
    Continue,
    /// The accumulated message changed: hand a snapshot of it out.
    Yield,
    /// Report this error and stop.
    Error(ClientError),
    /// Send the handshake request.
    SendConnect,
    /// The handshake completed: send the agent request.
    SendAgent,
    /// The response is complete: hand the accumulated message out and stop.
    Done,
}

/// The characters of an optional string.
pub open spec fn opt_view(o: Option<String>) -> Option<Seq<char>> {
    match o {
        Some(s) => Some(s@),
        None => None,
    }
}

/// The first of two optional values that is present.
pub open spec fn or_opt(a: Option<Seq<char>>, b: Option<Seq<char>>) -> Option<Seq<char>> {
    match a {
        Some(s) => Some(s),
        None => b,
    }
}

/// Whether the event name carries text to merge.
pub open spec fn is_text_event(e: Seq<char>) -> bool {
    e == "agent.text"@ || e == "agent.content"@ || e == "agent.text.delta"@
        || e == "agent.content.delta"@ || e == "agent"@
}

/// Where a text event's text is taken from: plain events read the text
/// field, delta events prefer the delta over the text, and the bare agent
/// event searches the nested data first.
pub open spec fn chosen_event_text(f: EventFrame) -> Option<Seq<char>> {
    if f.event@ == "agent.text"@ || f.event@ == "agent.content"@ {
        opt_view(f.text)
    } else if f.event@ == "agent.text.delta"@ || f.event@ == "agent.content.delta"@ {
        or_opt(opt_view(f.delta), opt_view(f.text))
    } else {
        or_opt(
            or_opt(opt_view(f.data_delta), opt_view(f.data_text)),
            or_opt(opt_view(f.delta), opt_view(f.text)),
        )
    }
}

/// The error detail an error event reports.
pub open spec fn event_error_detail(f: EventFrame) -> Seq<char> {
    match f.message {
        Some(m) => m@,
        None => match f.error {
            Some(e) => e@,
            None => "Unknown error"@,
        },
    }
}

/// Whether the new content is the old one with the given text merged into
/// its main body, everything else untouched.
pub open spec fn content_with_merged_text(
    c0: MessageContent,
    t: Seq<char>,
    c1: MessageContent,
) -> bool {
    &&& c1.text@ == merge_spec(c0.text@, t)
    &&& c1.citations == c0.citations
    &&& c1.reasoning == c0.reasoning
    &&& c1.attachments == c0.attachments
    &&& c1.tool_calls == c0.tool_calls
    &&& c1.tool_results == c0.tool_results
    &&& c1.data == c0.data
    &&& c1.upgrade == c0.upgrade
}

/// Whether an error result reports a remote failure with the given detail.
pub open spec fn is_remote_error(r: ProcessResult, detail: Seq<char>) -> bool {
    r matches ProcessResult::Error(e) && e@.kind == ClientErrorKind::Response && e@.message
        == "OpenClaw error: "@ + detail
}

/// What processing one event does: a challenge answers the handshake, text
/// events merge their text into the accumulated message and yield a
/// snapshot, a chat event in a final state ends the stream, an error event
/// reports a remote error, and everything else is ignored.
pub open spec fn event_step(
    f: EventFrame,
    c0: MessageContent,
    c1: MessageContent,
    r: ProcessResult,
) -> bool {
    if f.event@ == "connect.challenge"@ {
        r is SendConnect && c1 == c0
    } else if is_text_event(f.event@) {
        match chosen_event_text(f) {
            Some(t) => content_with_merged_text(c0, t, c1) && r is Yield,
            None => r is Continue && c1 == c0,
        }
    } else if f.event@ == "agent.done"@ || f.event@ == "agent.complete"@ || f.event@
        == "agent.end"@ {
        r is Continue && c1 == c0
    } else if f.event@ == "chat"@ {
        if (match f.state {
            Some(s) => s@ == "done"@ || s@ == "complete"@,
            None => false,
        }) {
            r is Done && c1 == c0
        } else {
            r is Continue && c1 == c0
        }
    } else if f.event@ == "agent.error"@ {
        is_remote_error(r, event_error_detail(f)) && c1 == c0
    } else {
        r is Continue && c1 == c0
    }
}

/// Processes an event frame of the gateway protocol.
pub fn process_event(frame: &EventFrame, content: &mut MessageContent) -> (r: ProcessResult)
    ensures
        event_step(*frame, *old(content), *final(content), r),
{
    let event = frame.event.as_str();
    if str_eq(event, "connect.challenge") {
        return ProcessResult::SendConnect;
    }
    if str_eq(event, "agent.text") || str_eq(event, "agent.content") {
        return merge_chosen(frame.text.as_ref(), content);
    }
    if str_eq(event, "agent.text.delta") || str_eq(event, "agent.content.delta") {
        let chosen = match frame.delta.as_ref() {
            Some(d) => Some(d),
            None => frame.text.as_ref(),
        };
        return merge_chosen(chosen, content);
    }
    if str_eq(event, "agent") {
        let chosen = match frame.data_delta.as_ref() {
            Some(d) => Some(d),
            None => match frame.data_text.as_ref() {
                Some(d) => Some(d),
                None => match frame.delta.as_ref() {
                    Some(d) => Some(d),
                    None => frame.text.as_ref(),
                },
            },
        };
        return merge_chosen(chosen, content);
    }
    if str_eq(event, "agent.done") || str_eq(event, "agent.complete") || str_eq(
        event,
        "agent.end",
    ) {
        return ProcessResult::Continue;
    }
    if str_eq(event, "chat") {
        let is_final = match frame.state.as_ref() {
            Some(s) => str_eq(s.as_str(), "done") || str_eq(s.as_str(), "complete"),
            None => false,
        };
        if is_final {
            return ProcessResult::Done;
        }
        return ProcessResult::Continue;
    }
    if str_eq(event, "agent.error") {
        let mut message = String::from_str("OpenClaw error: ");
        match frame.message.as_ref() {
            Some(m) => message.append(m.as_str()),
            None => match frame.error.as_ref() {
                Some(e) => message.append(e.as_str()),
                None => message.append("Unknown error"),
            },
        }
        return ProcessResult::Error(ClientError::new(ClientErrorKind::Response, message));
    }
    ProcessResult::Continue
}

/// Merges the chosen text, when there is one, into the accumulated message.
fn merge_chosen(chosen: Option<&String>, content: &mut MessageContent) -> (r: ProcessResult)
    ensures
        match chosen {
            Some(t) => content_with_merged_text(*old(content), t@, *final(content)) && r is Yield,
            None => r is Continue && *final(content) == *old(content),
        },
{
    match chosen {
        Some(t) => {
            merge_text_content(&mut content.text, t.as_str());
            ProcessResult::Yield
        }
        None => ProcessResult::Continue,
    }
}

/// The summary a completed response carries, looked for at the payload's
/// top level first, then nested under the result.
pub open spec fn summary_of(p: ResponsePayload) -> Option<Seq<char>> {
    or_opt(opt_view(p.summary), or_opt(opt_view(p.result_summary), opt_view(p.result_text)))
}

/// The concatenation of a list of texts, in order.
pub open spec fn concat_texts(ts: Seq<String>) -> Seq<char>
    decreases ts.len(),
{
    if ts.len() == 0 {
        Seq::empty()
    } else {
        concat_texts(ts.drop_last()) + ts.last()@
    }
}

/// Whether the new content is the old one with the given text appended
/// verbatim to its main body, everything else untouched.
pub open spec fn content_with_appended_text(
    c0: MessageContent,
    t: Seq<char>,
    c1: MessageContent,
) -> bool {
    &&& c1.text@ == c0.text@ + t
    &&& c1.citations == c0.citations
    &&& c1.reasoning == c0.reasoning
    &&& c1.attachments == c0.attachments
    &&& c1.tool_calls == c0.tool_calls
    &&& c1.tool_results == c0.tool_results
    &&& c1.data == c0.data
    &&& c1.upgrade == c0.upgrade
}

/// Whether a completed response reports a final status.
pub open spec fn is_done_status(p: ResponsePayload) -> bool {
    match p.status {
        Some(s) => s@ == "ok"@ || s@ == "completed"@,
        None => false,
    }
}

/// What processing one response does: a rejected request reports a remote
/// error; the handshake answer sends the agent request, once; a completed
/// status ends the stream, taking its text from the streamed content if any
/// arrived, else from the response's summary, else from its payload list;
/// everything else is ignored.
pub open spec fn response_step(
    f: ResponseFrame,
    c0: MessageContent,
    c1: MessageContent,
    conn0: bool,
    conn1: bool,
    r: ProcessResult,
) -> bool {
    if !f.ok {
        is_remote_error(
            r,
            match f.error {
                Some(e) => e@,
                None => "Unknown error"@,
            },
        ) && c1 == c0 && conn1 == conn0
    } else {
        match f.payload {
            None => r is Continue && c1 == c0 && conn1 == conn0,
            Some(p) => {
                if (match p.kind {
                    Some(k) => k@ == "hello-ok"@,
                    None => false,
                }) && !conn0 {
                    r is SendAgent && conn1 && c1 == c0
                } else if is_done_status(p) {
                    if c0.text@.len() > 0 {
                        r is Done && c1 == c0 && conn1 == conn0
                    } else {
                        match summary_of(p) {
                            Some(s) => content_with_merged_text(c0, s, c1) && r is Done && conn1
                                == conn0,
                            None => match p.payload_texts {
                                Some(ts) => content_with_appended_text(c0, concat_texts(ts@), c1)
                                    && conn1 == conn0 && (if c1.text@.len() > 0 {
                                    r is Done
                                } else {
                                    r is Continue
                                }),
                                None => r is Continue && c1 == c0 && conn1 == conn0,
                            },
                        }
                    }
                } else {
                    r is Continue && c1 == c0 && conn1 == conn0
                }
            },
        }
    }
}

/// Processes a response frame of the gateway protocol.
pub fn process_response(
    frame: &ResponseFrame,
    content: &mut MessageContent,
    connected: &mut bool,
) -> (r: ProcessResult)
    ensures
        response_step(
            *frame,
            *old(content),
            *final(content),
            *old(connected),
            *final(connected),
            r,
        ),
{
    if !frame.ok {
        let mut message = String::from_str("OpenClaw error: ");
        match frame.error.as_ref() {
            Some(e) => message.append(e.as_str()),
            None => message.append("Unknown error"),
        }
        return ProcessResult::Error(ClientError::new(ClientErrorKind::Response, message));
    }
    let payload = match frame.payload.as_ref() {
        Some(p) => p,
        None => {
            return ProcessResult::Continue;
        },
    };
    let is_hello = match payload.kind.as_ref() {
        Some(k) => str_eq(k.as_str(), "hello-ok"),
        None => false,
    };
    if is_hello && !*connected {
        *connected = true;
        return ProcessResult::SendAgent;
    }
    let is_done = match payload.status.as_ref() {
        Some(s) => str_eq(s.as_str(), "ok") || str_eq(s.as_str(), "completed"),
        None => false,
    };
    if !is_done {
        return ProcessResult::Continue;
    }
    if !content.text.as_str().is_empty() {
        return ProcessResult::Done;
    }
    let summary = match payload.summary.as_ref() {
        Some(s) => Some(s),
        None => match payload.result_summary.as_ref() {
            Some(s) => Some(s),
            None => payload.result_text.as_ref(),
        },
    };
    if let Some(s) = summary {
        merge_text_content(&mut content.text, s.as_str());
        return ProcessResult::Done;
    }
    let texts = match payload.payload_texts.as_ref() {
        Some(ts) => ts,
        None => {
            return ProcessResult::Continue;
        },
    };
    let ghost c0_text = content.text@;
    let mut k: usize = 0;
    let n = texts.len();
    while k < n
        invariant
            n == texts@.len(),
            k <= n,
            content.text@ == c0_text + concat_texts(texts@.take(k as int)),
            content.citations == old(content).citations,
            content.reasoning == old(content).reasoning,
            content.attachments == old(content).attachments,
            content.tool_calls == old(content).tool_calls,
            content.tool_results == old(content).tool_results,
            content.data == old(content).data,
            content.upgrade == old(content).upgrade,
        decreases n - k,
    {
        content.text.append(texts[k].as_str());
        proof {
            assert(texts@.take(k + 1).drop_last() =~= texts@.take(k as int));
            assert(texts@.take(k + 1).last() == texts@[k as int]);
        }
        k = k + 1;
    }
    proof {
        assert(texts@.take(n as int) =~= texts@);
    }
    if !content.text.as_str().is_empty() {
        ProcessResult::Done
    } else {
        ProcessResult::Continue
    }
}

/// One frame coming in over the session's transport, already parsed.
#[derive(Clone, Debug, PartialEq)]
pub enum WsIncoming {
    /// An event frame.
    Event(EventFrame),
    /// A response frame.
    Response(ResponseFrame),
}

/// The state of one live session: the message accumulated so far, whether
/// the handshake completed, and which event sequence numbers were already
/// seen.
///
/// The transport reads frames, classifies them, and hands each in through
/// [`OpenClawSession::handle_frame`]; it performs the action handed back and
/// yields snapshots of [`OpenClawSession::content`].
#[derive(Debug)]
pub struct OpenClawSession {
    /// The message accumulated so far.
    pub content: MessageContent,
    /// Whether the handshake completed.
    pub connected: bool,
    /// The event sequence numbers already seen.
    pub seen_seqs: HashSet<u64>,
}

impl OpenClawSession {
    /// The sequence numbers already seen.
    pub open spec fn seen(self) -> Set<u64> {
        self.seen_seqs@
    }

    /// A fresh session: nothing accumulated, nothing seen, handshake not
    /// completed.
    pub fn new() -> (r: Self)
        ensures
            r.content@.is_empty(),
            !r.connected,
            r.seen() == Set::<u64>::empty(),
    {
        OpenClawSession {
            content: MessageContent::default(),
            connected: false,
            seen_seqs: HashSet::new(),
        }
    }

    /// Handles one incoming frame: a whole event already seen, by its
    /// sequence number, is dropped before it reaches the message at all;
    /// anything else is processed by [`process_event`] or
    /// [`process_response`].
    pub fn handle_frame(&mut self, frame: &WsIncoming) -> (r: ProcessResult)
        ensures
            match *frame {
                WsIncoming::Event(f) => {
                    if f.seq matches Some(s) && old(self).seen().contains(s) {
                        &&& r is Continue
                        &&& final(self).content == old(self).content
                        &&& final(self).connected == old(self).connected
                        &&& final(self).seen() == old(self).seen()
                    } else {
                        &&& final(self).seen() == (match f.seq {
                            Some(s) => old(self).seen().insert(s),
                            None => old(self).seen(),
                        })
                        &&& event_step(f, old(self).content, final(self).content, r)
                        &&& final(self).connected == old(self).connected
                    }
                },
                WsIncoming::Response(f) => {
                    &&& response_step(
                        f,
                        old(self).content,
                        final(self).content,
                        old(self).connected,
                        final(self).connected,
                        r,
                    )
                    &&& final(self).seen() == old(self).seen()
                },
            },
    {
        match frame {
            WsIncoming::Event(f) => {
                if let Some(seq) = f.seq {
                    if self.seen_seqs.contains(&seq) {
                        return ProcessResult::Continue;
                    }
                    self.seen_seqs.insert(seq);
                }
                process_event(f, &mut self.content)
            }
            WsIncoming::Response(f) => {
                process_response(f, &mut self.content, &mut self.connected)
            }
        }
    }
}

/// A string with leading and trailing whitespace removed.
pub uninterp spec fn trimmed_of(s: Seq<char>) -> Seq<char>;

/// Relies on `str::trim`: removes leading and trailing whitespace, a
/// function of the characters alone. The result never grows, and trimming
/// an empty string leaves it empty.
#[verifier::external_body]
fn trim(s: &str) -> (r: &str)
    ensures
        r@ == trimmed_of(s@),
        r@.len() <= s@.len(),
        s@.len() == 0 ==> r@.len() == 0,
{
    s.trim()
}

/// The role label a message contributes under, or none when messages of its
/// sender are left out of the history.
pub open spec fn role_label(from: EntityId) -> Option<Seq<char>> {
    match from {
        EntityId::User => Some("user"@),
        EntityId::System => Some("system"@),
        EntityId::Bot(id) => Some("assistant"@),
        EntityId::Tool => None,
        EntityId::App => None,
    }
}

/// The history lines of a window of messages: each message with a role and
/// a non-empty trimmed text contributes `"<role>: <text>"`, and the lines
/// are joined by blank lines, in order.
pub open spec fn history_concat(msgs: Seq<Message>) -> Seq<char>
    decreases msgs.len(),
{
    if msgs.len() == 0 {
        Seq::empty()
    } else {
        let prefix = history_concat(msgs.drop_last());
        let m = msgs.last();
        match role_label(m.from) {
            Some(role) => {
                let text = trimmed_of(m.content.text@);
                if text.len() == 0 {
                    prefix
                } else if prefix.len() == 0 {
                    role + ": "@ + text
                } else {
                    prefix + "\n\n"@ + role + ": "@ + text
                }
            },
            None => prefix,
        }
    }
}

/// The trimmed text of the most recent user message, or the empty string
/// when there is no user message at all: the search stops at the most
/// recent one, whatever its text trims to.
pub open spec fn fallback_text(msgs: Seq<Message>) -> Seq<char>
    decreases msgs.len(),
{
    if msgs.len() == 0 {
        Seq::empty()
    } else {
        let m = msgs.last();
        if m.from is User {
            trimmed_of(m.content.text@)
        } else {
            fallback_text(msgs.drop_last())
        }
    }
}

/// The window of the most recent messages the history is built from.
pub open spec fn history_window(msgs: Seq<Message>) -> Seq<Message> {
    if msgs.len() > MAX_HISTORY_MESSAGES {
        msgs.skip(msgs.len() - MAX_HISTORY_MESSAGES)
    } else {
        msgs
    }
}

/// The single message handed to the gateway's agent: the history lines of
/// the most recent messages, or, when no message contributes a line, the
/// most recent user text on its own.
pub open spec fn history_message(msgs: Seq<Message>) -> Seq<char> {
    let combined = history_concat(history_window(msgs));
    if combined.len() > 0 {
        combined
    } else {
        fallback_text(msgs)
    }
}

impl OpenClawClient {
    /// Folds the conversation so far into the single message the agent
    /// request carries.
    pub fn build_history_message(messages: &Vec<Message>) -> (r: String)
        ensures
            r@ == history_message(messages@),
    {
        let len = messages.len();
        let start = if len > MAX_HISTORY_MESSAGES {
            len - MAX_HISTORY_MESSAGES
        } else {
            0
        };
        let ghost window = history_window(messages@);
        proof {
            if messages@.len() <= MAX_HISTORY_MESSAGES {
                assert(messages@.skip(0) =~= messages@);
            }
            assert(window == messages@.skip(start as int));
            assert(window.take(0) =~= Seq::<Message>::empty());
        }
        let mut combined = String::new();
        let mut i: usize = start;
        while i < len
            invariant
                start <= i <= len,
                len == messages@.len(),
                window == messages@.skip(start as int),
                combined@ == history_concat(window.take(i - start)),
            decreases len - i,
        {
            proof {
                assert(window.take(i - start + 1).drop_last() =~= window.take(i - start));
                assert(window.take(i - start + 1).last() == messages@[i as int]);
            }
            let role = match &messages[i].from {
                EntityId::User => "user",
                EntityId::System => "system",
                EntityId::Bot(id) => "assistant",
                EntityId::Tool => {
                    i = i + 1;
                    continue;
                },
                EntityId::App => {
                    i = i + 1;
                    continue;
                },
            };
            let text = trim(messages[i].content.text.as_str());
            if text.is_empty() {
                i = i + 1;
                continue;
            }
            if !combined.as_str().is_empty() {
                combined.append("\n\n");
            }
            combined.append(role);
            combined.append(": ");
            combined.append(text);
            proof {
                reveal_strlit("user");
                reveal_strlit("system");
                reveal_strlit("assistant");
            }
            i = i + 1;
        }
        proof {
            assert(window.take(len - start) =~= window);
        }
        if combined.as_str().is_empty() {
            proof {
                assert(messages@.take(len as int) =~= messages@);
            }
            let mut j: usize = len;
            while j > 0
                invariant
                    j <= len,
                    len == messages@.len(),
                    history_concat(history_window(messages@)).len() == 0,
                    fallback_text(messages@) == fallback_text(messages@.take(j as int)),
                decreases j,
            {
                proof {
                    assert(messages@.take(j as int).drop_last() =~= messages@.take(j - 1));
                    assert(messages@.take(j as int).last() == messages@[j - 1]);
                }
                let m = &messages[j - 1];
                let is_user = match m.from {
                    EntityId::User => true,
                    EntityId::System => false,
                    EntityId::Bot(_) => false,
                    EntityId::Tool => false,
                    EntityId::App => false,
                };
                if is_user {
                    let text = trim(m.content.text.as_str());
                    proof {
                        assert(fallback_text(messages@.take(j as int)) == trimmed_of(
                            messages@[j - 1].content.text@,
                        ));
                    }
                    return text.to_owned();
                }
                j = j - 1;
            }
            proof {
                assert(messages@.take(0) =~= Seq::<Message>::empty());
            }
        }
        combined
    }
}

} // verus!
