//! Herdr pane integration: whether it is configured, what its graphics probe
//! means, and the queue that reports agent state to the host.
use crate::design_import::{json_quoted, json_string};
use crate::text::{chars_of, eq_chars, extend_chars, string_of};
use vstd::prelude::*;

verus! {

broadcast use vstd::string::group_string_axioms;

/// Time budget of a state request, in milliseconds.
pub const REQUEST_TIMEOUT_MS: u64 = 500;

/// Time budget of a graphics probe, in milliseconds.
pub const GRAPHICS_PROBE_TIMEOUT_MS: u64 = 100;

/// Largest response accepted from the host, in bytes.
pub const MAX_RESPONSE_BYTES: u64 = 65536;

/// Reporting source sent with every request.
pub const SOURCE: &'static str = "herdr:slide-builder";

/// Agent name sent with every request.
pub const AGENT: &'static str = "slide-builder";

/// Where the Herdr host listens and which pane this process runs in.
#[derive(Clone, Debug)]
pub struct HerdrConfig {
    pub socket_path: String,
    pub pane_id: String,
}

/// A Herdr client; without a configuration it does nothing.
#[derive(Clone, Debug)]
pub struct HerdrClient {
    pub config: Option<HerdrConfig>,
}

/// Agent state shown by the host.
#[derive(Clone, Copy, Debug, PartialEq, Eq, Structural)]
pub enum HerdrState {
    Idle,
    Working,
    Blocked,
}

/// Whether images can be painted in this pane, with the cell size in pixels.
#[derive(Clone, Copy, Debug, PartialEq, Eq, Structural)]
pub enum HerdrGraphicsCapability {
    NotHerdr,
    Paintable { width: u16, height: u16 },
    Unpaintable,
}

/// An environment value that is set and not empty.
pub open spec fn non_empty(v: Option<String>) -> Option<Seq<char>> {
    match v {
        Some(s) if s@.len() > 0 => Some(s@),
        _ => None,
    }
}

impl HerdrClient {
    /// The client described by `HERDR_ENV`, `HERDR_SOCKET_PATH` and
    /// `HERDR_PANE_ID`: configured only when `HERDR_ENV` is exactly `1` and
    /// both other values are set and not empty.
    pub fn from_env_vars(herdr_env: Option<String>, socket_path: Option<String>, pane_id: Option<String>) -> (r: HerdrClient)
        ensures
            match r.config {
                Some(c) => {
                    &&& herdr_env matches Some(e) && e@ == "1"@
                    &&& non_empty(socket_path) == Some(c.socket_path@)
                    &&& non_empty(pane_id) == Some(c.pane_id@)
                },
                None => !(herdr_env matches Some(e) && e@ == "1"@) || non_empty(socket_path) is None || non_empty(pane_id) is None,
            },
    {
        let enabled = match &herdr_env {
            Some(e) => {
                let v = chars_of(e.as_str());
                proof {
                    reveal_strlit("1");
                }
                let r = v.len() == 1 && v[0] == '1';
                assert(r == (e@ == "1"@)) by {
                    if v@.len() == 1 && v@[0] == '1' {
                        assert(v@ =~= "1"@);
                    }
                }
                r
            },
            None => false,
        };
        if !enabled {
            return HerdrClient { config: None };
        }
        let socket = match socket_path {
            Some(s) if chars_of(s.as_str()).len() > 0 => s,
            _ => {
                return HerdrClient { config: None };
            },
        };
        let pane = match pane_id {
            Some(p) if chars_of(p.as_str()).len() > 0 => p,
            _ => {
                return HerdrClient { config: None };
            },
        };
        HerdrClient { config: Some(HerdrConfig { socket_path: socket, pane_id: pane }) }
    }

    /// Whether Herdr reporting and probing are active.
    pub fn is_configured(&self) -> (r: bool)
        ensures
            r == self.config is Some,
    {
        self.config.is_some()
    }
}

/// What a graphics probe returned: the reported cell size, each when it
/// was present as an unsigned integer. `None` when the request failed.
#[derive(Clone, Copy, Debug)]
pub struct GraphicsProbe {
    pub cell_width_px: Option<u64>,
    pub cell_height_px: Option<u64>,
}

/// A reported cell size that fits a `u16` and is not zero.
pub open spec fn cell_size(v: Option<u64>) -> Option<u16> {
    match v {
        Some(n) if 0 < n && n <= 65535 => Some(n as u16),
        _ => None,
    }
}

/// The capability a probe result means for a configured client.
pub open spec fn capability_of(configured: bool, probe: Option<GraphicsProbe>) -> HerdrGraphicsCapability {
    if !configured {
        HerdrGraphicsCapability::NotHerdr
    } else {
        match probe {
            None => HerdrGraphicsCapability::Unpaintable,
            Some(p) => match (cell_size(p.cell_width_px), cell_size(p.cell_height_px)) {
                (Some(w), Some(h)) => HerdrGraphicsCapability::Paintable { width: w, height: h },
                _ => HerdrGraphicsCapability::Unpaintable,
            },
        }
    }
}

fn cell(v: Option<u64>) -> (r: Option<u16>)
    ensures
        r == cell_size(v),
{
    match v {
        Some(n) => if 0 < n && n <= 65535 {
            Some(n as u16)
        } else {
            None
        },
        None => None,
    }
}

impl HerdrClient {
    /// The graphics capability: `NotHerdr` without a configuration; under a
    /// configured pane a failed or incomplete probe is unpaintable.
    pub fn capability_from_probe(&self, probe: Option<GraphicsProbe>) -> (r: HerdrGraphicsCapability)
        ensures
            r == capability_of(self.config is Some, probe),
    {
        if self.config.is_none() {
            return HerdrGraphicsCapability::NotHerdr;
        }
        match probe {
            None => HerdrGraphicsCapability::Unpaintable,
            Some(p) => match (cell(p.cell_width_px), cell(p.cell_height_px)) {
                (Some(w), Some(h)) => HerdrGraphicsCapability::Paintable { width: w, height: h },
                _ => HerdrGraphicsCapability::Unpaintable,
            },
        }
    }
}

/// The state name sent to the host.
pub open spec fn state_name_of(s: HerdrState) -> Seq<char> {
    match s {
        HerdrState::Idle => "idle"@,
        HerdrState::Working => "working"@,
        HerdrState::Blocked => "blocked"@,
    }
}

/// The state name sent to the host.
pub fn state_name(s: HerdrState) -> (r: &'static str)
    ensures
        r@ == state_name_of(s),
{
    match s {
        HerdrState::Idle => "idle",
        HerdrState::Working => "working",
        HerdrState::Blocked => "blocked",
    }
}

/// `"key":value` in a JSON object, `value` being JSON text.
pub open spec fn json_member(key: Seq<char>, value: Seq<char>) -> Seq<char> {
    json_quoted(key) + seq![':'] + value
}

/// The parameters of a graphics probe.
pub open spec fn probe_params(pane: Seq<char>) -> Seq<char> {
    seq!['{'] + json_member("pane_id"@, json_quoted(pane)) + seq!['}']
}

/// The parameters of a release: the agent's identity in this pane.
pub open spec fn release_params(pane: Seq<char>) -> Seq<char> {
    seq!['{'] + json_member("agent"@, json_quoted(AGENT@)) + seq![','] + json_member("pane_id"@, json_quoted(pane))
        + seq![','] + json_member("source"@, json_quoted(SOURCE@)) + seq!['}']
}

/// The parameters of a state report: the identity, the session, the
/// message when there is one, and the state, keys in sorted order.
pub open spec fn report_params(pane: Seq<char>, session: Seq<char>, state: HerdrState, message: Option<Seq<char>>) -> Seq<char> {
    seq!['{'] + json_member("agent"@, json_quoted(AGENT@)) + seq![','] + json_member(
        "agent_session_id"@,
        json_quoted(session),
    ) + seq![','] + match message {
        Some(m) => json_member("message"@, json_quoted(m)) + seq![','],
        None => Seq::empty(),
    } + json_member("pane_id"@, json_quoted(pane)) + seq![','] + json_member("source"@, json_quoted(SOURCE@)) + seq![',']
        + json_member("state"@, json_quoted(state_name_of(state))) + seq!['}']
}

/// One request line: the id `SOURCE:<request id>`, the method and the
/// parameters as a compact JSON object, then a newline.
pub open spec fn request_line(request_id: Seq<char>, method: Seq<char>, params: Seq<char>) -> Seq<char> {
    seq!['{'] + json_member("id"@, json_quoted(SOURCE@ + seq![':'] + request_id)) + seq![','] + json_member(
        "method"@,
        json_quoted(method),
    ) + seq![','] + json_member("params"@, params) + seq!['}', '\n']
}

/// Method of a graphics probe.
pub const PROBE_METHOD: &'static str = "pane.graphics.info";

/// Method of a state report.
pub const REPORT_METHOD: &'static str = "pane.report_agent";

/// Method of a release.
pub const RELEASE_METHOD: &'static str = "pane.release_agent";

fn push_member(out: &mut Vec<char>, key: &str, value: &str)
    ensures
        final(out)@ == old(out)@ + json_member(key@, value@),
{
    let k = json_string(key);
    extend_chars(out, k.as_str());
    out.push(':');
    extend_chars(out, value);
}

fn push_string_member(out: &mut Vec<char>, key: &str, value: &str)
    ensures
        final(out)@ == old(out)@ + json_member(key@, json_quoted(value@)),
{
    let v = json_string(value);
    push_member(out, key, v.as_str());
}

/// See `probe_params`.
pub fn probe_request_params(pane: &str) -> (r: String)
    ensures
        r@ == probe_params(pane@),
{
    let mut out: Vec<char> = Vec::new();
    out.push('{');
    push_string_member(&mut out, "pane_id", pane);
    out.push('}');
    string_of(&out)
}

/// See `release_params`.
pub fn release_request_params(pane: &str) -> (r: String)
    ensures
        r@ == release_params(pane@),
{
    let mut out: Vec<char> = Vec::new();
    out.push('{');
    push_string_member(&mut out, "agent", AGENT);
    out.push(',');
    push_string_member(&mut out, "pane_id", pane);
    out.push(',');
    push_string_member(&mut out, "source", SOURCE);
    out.push('}');
    string_of(&out)
}

/// See `report_params`.
pub fn report_request_params(pane: &str, session: &str, state: HerdrState, message: Option<&str>) -> (r: String)
    ensures
        r@ == report_params(pane@, session@, state, match message {
            Some(m) => Some(m@),
            None => None,
        }),
{
    let mut out: Vec<char> = Vec::new();
    out.push('{');
    push_string_member(&mut out, "agent", AGENT);
    out.push(',');
    push_string_member(&mut out, "agent_session_id", session);
    out.push(',');
    match message {
        Some(m) => {
            push_string_member(&mut out, "message", m);
            out.push(',');
        },
        None => {},
    }
    push_string_member(&mut out, "pane_id", pane);
    out.push(',');
    push_string_member(&mut out, "source", SOURCE);
    out.push(',');
    push_string_member(&mut out, "state", state_name(state));
    out.push('}');
    string_of(&out)
}

/// See `request_line`.
pub fn request_text(request_id: &str, method: &str, params: &str) -> (r: String)
    ensures
        r@ == request_line(request_id@, method@, params@),
{
    let mut id: Vec<char> = Vec::new();
    extend_chars(&mut id, SOURCE);
    id.push(':');
    extend_chars(&mut id, request_id);
    let id_text = string_of(&id);
    let mut out: Vec<char> = Vec::new();
    out.push('{');
    push_string_member(&mut out, "id", id_text.as_str());
    out.push(',');
    push_string_member(&mut out, "method", method);
    out.push(',');
    push_member(&mut out, "params", params);
    out.push('}');
    out.push('\n');
    assert(id_text@ == SOURCE@ + seq![':'] + request_id@);
    assert(out@ =~= request_line(request_id@, method@, params@));
    string_of(&out)
}

/// What a response line held, as far as the client reads it.
#[derive(Clone, Debug, PartialEq, Eq)]
pub enum RpcOutcome {
    /// Not JSON; the parser's message.
    Malformed(String),
    /// An `error` member that is not null, as JSON text.
    Failed(String),
    /// Neither an error nor a `result` member.
    MissingResult,
    /// A `result`, with its cell size members when they are unsigned integers.
    Answered { cell_width_px: Option<u64>, cell_height_px: Option<u64> },
}

/// An outcome as plain values.
pub ghost enum RpcOutcomeView {
    Malformed(Seq<char>),
    Failed(Seq<char>),
    MissingResult,
    Answered { cell_width_px: Option<u64>, cell_height_px: Option<u64> },
}

/// See `RpcOutcomeView`.
pub open spec fn outcome_view(o: RpcOutcome) -> RpcOutcomeView {
    match o {
        RpcOutcome::Malformed(m) => RpcOutcomeView::Malformed(m@),
        RpcOutcome::Failed(e) => RpcOutcomeView::Failed(e@),
        RpcOutcome::MissingResult => RpcOutcomeView::MissingResult,
        RpcOutcome::Answered { cell_width_px, cell_height_px } => RpcOutcomeView::Answered { cell_width_px, cell_height_px },
    }
}

/// The `error` member of a response: whether it is JSON `null`, and its JSON text.
#[derive(Clone, Debug)]
pub struct ErrorMember {
    pub is_null: bool,
    pub text: String,
}

/// The `result` member of a response: its `cell_width_px` and
/// `cell_height_px` members when they are unsigned integers.
#[derive(Clone, Copy, Debug, PartialEq, Eq, Structural)]
pub struct ResultMember {
    pub cell_width_px: Option<u64>,
    pub cell_height_px: Option<u64>,
}

/// The members of a response that the client looks at; `None` for a member
/// that is absent.
#[derive(Clone, Debug)]
pub struct ResponseFields {
    pub error: Option<ErrorMember>,
    pub result: Option<ResultMember>,
}

/// `ResponseFields` as plain values: the error member as (is null, JSON text).
pub ghost struct ResponseFieldsView {
    pub error: Option<(bool, Seq<char>)>,
    pub result: Option<ResultMember>,
}

/// See `ResponseFieldsView`.
pub open spec fn fields_view(f: ResponseFields) -> ResponseFieldsView {
    ResponseFieldsView {
        error: match f.error {
            Some(e) => Some((e.is_null, e.text@)),
            None => None,
        },
        result: f.result,
    }
}

/// A parsed response, or the parser's message, as plain values.
pub open spec fn parsed_fields_view(r: Result<ResponseFields, String>) -> Result<ResponseFieldsView, Seq<char>> {
    match r {
        Ok(f) => Ok(fields_view(f)),
        Err(m) => Err(m@),
    }
}

/// What `serde_json` reads from a response line: its error's text, or the
/// `error` and `result` members.
pub uninterp spec fn json_response_fields(response: Seq<u8>) -> Result<ResponseFieldsView, Seq<char>>;

/// `serde_json::from_slice::<Value>(response)`: the error's text when it
/// fails; else, through `Value::get`, the `error` member (`is_null` and its
/// JSON text by `to_string`) and the `result` member (its `cell_width_px`
/// and `cell_height_px` members read by `as_u64`). Depends on `response` alone.
#[verifier::external_body]
fn parse_response_fields(response: &[u8]) -> (r: Result<ResponseFields, String>)
    ensures
        parsed_fields_view(r) == json_response_fields(response@),
{
    let value: serde_json::Value = match serde_json::from_slice(response) {
        Ok(value) => value,
        Err(e) => return Err(e.to_string()),
    };
    let error = value.get("error").map(|e| ErrorMember { is_null: e.is_null(), text: e.to_string() });
    let result = value.get("result").map(|r| ResultMember {
        cell_width_px: r.get("cell_width_px").and_then(serde_json::Value::as_u64),
        cell_height_px: r.get("cell_height_px").and_then(serde_json::Value::as_u64),
    });
    Ok(ResponseFields { error, result })
}

/// The outcome of a response: malformed when it is not JSON; failed when
/// its `error` member is present and not null; else answered when it has a
/// `result` member; else missing its result.
pub open spec fn classify_view(parsed: Result<ResponseFieldsView, Seq<char>>) -> RpcOutcomeView {
    match parsed {
        Err(m) => RpcOutcomeView::Malformed(m),
        Ok(f) => match f.error {
            Some((false, text)) => RpcOutcomeView::Failed(text),
            _ => match f.result {
                Some(r) => RpcOutcomeView::Answered { cell_width_px: r.cell_width_px, cell_height_px: r.cell_height_px },
                None => RpcOutcomeView::MissingResult,
            },
        },
    }
}

/// The outcome of a response line.
pub open spec fn rpc_outcome_of(response: Seq<u8>) -> RpcOutcomeView {
    classify_view(json_response_fields(response))
}

/// Classifies a parsed response: an error member that is not null comes
/// first, then the result, then the missing result.
pub fn classify_rpc(parsed: Result<ResponseFields, String>) -> (r: RpcOutcome)
    ensures
        outcome_view(r) == classify_view(parsed_fields_view(parsed)),
{
    match parsed {
        Err(m) => RpcOutcome::Malformed(m),
        Ok(fields) => {
            if let Some(error) = fields.error {
                if !error.is_null {
                    return RpcOutcome::Failed(error.text);
                }
            }
            match fields.result {
                Some(r) => RpcOutcome::Answered { cell_width_px: r.cell_width_px, cell_height_px: r.cell_height_px },
                None => RpcOutcome::MissingResult,
            }
        },
    }
}

/// The error text for `method` given a failed outcome.
pub open spec fn rpc_error_text(method: Seq<char>, o: RpcOutcomeView) -> Seq<char> {
    match o {
        RpcOutcomeView::Malformed(m) => "Herdr "@ + method + ": malformed response: "@ + m,
        RpcOutcomeView::Failed(e) => "Herdr "@ + method + ": RPC error: "@ + e,
        _ => "Herdr "@ + method + ": response is missing result"@,
    }
}

/// Reads a response line of `method`: the probe values of its result, or
/// the error to record.
pub fn read_response(method: &str, response: &[u8]) -> (r: Result<GraphicsProbe, String>)
    ensures
        match rpc_outcome_of(response@) {
            RpcOutcomeView::Answered { cell_width_px, cell_height_px } => r matches Ok(p) && p.cell_width_px
                == cell_width_px && p.cell_height_px == cell_height_px,
            o => r matches Err(e) && e@ == rpc_error_text(method@, o),
        },
{
    let outcome = classify_rpc(parse_response_fields(response));
    let mut out: Vec<char> = Vec::new();
    extend_chars(&mut out, "Herdr ");
    extend_chars(&mut out, method);
    match outcome {
        RpcOutcome::Answered { cell_width_px, cell_height_px } => {
            return Ok(GraphicsProbe { cell_width_px, cell_height_px });
        },
        RpcOutcome::Malformed(m) => {
            extend_chars(&mut out, ": malformed response: ");
            extend_chars(&mut out, m.as_str());
        },
        RpcOutcome::Failed(e) => {
            extend_chars(&mut out, ": RPC error: ");
            extend_chars(&mut out, e.as_str());
        },
        RpcOutcome::MissingResult => {
            extend_chars(&mut out, ": response is missing result");
        },
    }
    Err(string_of(&out))
}

/// Why a response from the host was refused before parsing.
#[derive(Clone, Copy, Debug, PartialEq, Eq, Structural)]
pub enum ResponseError {
    /// More than `MAX_RESPONSE_BYTES` arrived.
    TooLarge,
    /// The host closed the connection without a response.
    Empty,
}

/// A response of `len` bytes (read up to one byte past the limit) is within budget and not empty.
pub fn check_response_len(len: u64) -> (r: Result<(), ResponseError>)
    ensures
        len > MAX_RESPONSE_BYTES ==> r == Err::<(), ResponseError>(ResponseError::TooLarge),
        len == 0 ==> r == Err::<(), ResponseError>(ResponseError::Empty),
        0 < len <= MAX_RESPONSE_BYTES ==> r is Ok,
{
    if len > MAX_RESPONSE_BYTES {
        Err(ResponseError::TooLarge)
    } else if len == 0 {
        Err(ResponseError::Empty)
    } else {
        Ok(())
    }
}

/// One state report.
#[derive(Clone, Debug)]
pub struct Report {
    pub state: HerdrState,
    pub message: Option<String>,
}

/// A report as plain values.
pub open spec fn report_view(r: Report) -> (HerdrState, Option<Seq<char>>) {
    (r.state, match r.message {
        Some(m) => Some(m@),
        None => None,
    })
}

/// An optional report as plain values.
pub open spec fn slot_view(r: Option<Report>) -> Option<(HerdrState, Option<Seq<char>>)> {
    match r {
        Some(x) => Some(report_view(x)),
        None => None,
    }
}

fn same_report(a: &Report, b: &Report) -> (r: bool)
    ensures
        r == (report_view(*a) == report_view(*b)),
{
    if a.state != b.state {
        return false;
    }
    match (&a.message, &b.message) {
        (None, None) => true,
        (Some(x), Some(y)) => {
            let xv = chars_of(x.as_str());
            let yv = chars_of(y.as_str());
            eq_chars(&xv, &yv)
        },
        _ => false,
    }
}

fn same_slot(a: &Option<Report>, b: &Option<Report>) -> (r: bool)
    ensures
        r == (slot_view(*a) == slot_view(*b)),
{
    match (a, b) {
        (None, None) => true,
        (Some(x), Some(y)) => same_report(x, y),
        _ => false,
    }
}

fn copy_report(r: &Report) -> (c: Report)
    ensures
        report_view(c) == report_view(*r),
{
    Report {
        state: r.state,
        message: match &r.message {
            Some(m) => Some(m.clone()),
            None => None,
        },
    }
}

/// The reporting queue between the interface and the one worker that talks
/// to the host. Only the latest report is pending; a report identical to the
/// last acknowledged one is not sent again; a failed report leaves the host
/// state unknown, so the next change is sent whatever it is.
#[derive(Debug)]
pub struct ReportQueue {
    latest: Option<Report>,
    unseen: bool,
    acknowledged: Option<Report>,
    last_error: Option<String>,
}

/// The queue as plain values: latest report, whether it is unseen, the
/// acknowledged report, and the latest error.
pub type QueueView = (
    Option<(HerdrState, Option<Seq<char>>)>,
    bool,
    Option<(HerdrState, Option<Seq<char>>)>,
    Option<Seq<char>>,
);

/// The queue after a report is handed in.
pub open spec fn after_report(v: QueueView, r: (HerdrState, Option<Seq<char>>)) -> QueueView {
    (Some(r), v.1 || v.0 != Some(r), v.2, v.3)
}

/// What the worker sends next from `v`.
pub open spec fn to_send(v: QueueView) -> Option<(HerdrState, Option<Seq<char>>)> {
    if v.1 && v.0 is Some && v.0 != v.2 {
        v.0
    } else {
        None
    }
}

/// The queue after the worker looked at it.
pub open spec fn after_next(v: QueueView) -> QueueView {
    (v.0, false, v.2, v.3)
}

/// The queue after the host answered a sent report.
pub open spec fn after_ack(v: QueueView, sent: (HerdrState, Option<Seq<char>>), outcome: Result<(), Seq<char>>) -> QueueView {
    match outcome {
        Ok(()) => (v.0, v.1, Some(sent), v.3),
        Err(e) => (v.0, v.1, None, Some(e)),
    }
}

/// A report identical to the acknowledged one is not sent again.
pub proof fn lemma_acknowledged_report_is_not_resent(v: QueueView, r: (HerdrState, Option<Seq<char>>))
    ensures
        to_send(after_report(after_ack(after_next(after_report(v, r)), r, Ok(())), r)) is None,
{
}

/// After a failed send, repeating the same report (as each interface tick
/// does) sends nothing, while any different report is sent.
pub proof fn lemma_failed_report_waits_for_a_change(
    v: QueueView,
    r: (HerdrState, Option<Seq<char>>),
    e: Seq<char>,
    other: (HerdrState, Option<Seq<char>>),
)
    ensures
        to_send(after_report(after_ack(after_next(after_report(v, r)), r, Err(e)), r)) is None,
        other != r ==> to_send(after_report(after_ack(after_next(after_report(v, r)), r, Err(e)), other)) == Some(
            other,
        ),
{
}

/// Reports handed in before the worker looks coalesce: only the latest can
/// be sent, and it is sent when it changed and differs from the acknowledged one.
pub proof fn lemma_pending_reports_coalesce(v: QueueView, a: (HerdrState, Option<Seq<char>>), b: (HerdrState, Option<Seq<char>>))
    ensures
        to_send(after_report(after_report(v, a), b)) is None || to_send(after_report(after_report(v, a), b)) == Some(b),
        a != b && v.2 != Some(b) ==> to_send(after_report(after_report(v, a), b)) == Some(b),
{
}

/// A value equal to the last acknowledged report is never sent, whatever
/// else is pending.
pub proof fn lemma_acknowledged_value_is_not_sent(v: QueueView, r: (HerdrState, Option<Seq<char>>))
    requires
        v.2 == Some(r),
    ensures
        to_send(after_report(v, r)) is None,
{
}

/// Once the worker has looked at the queue, handing in the current value
/// again (an interface tick) sends nothing, after a failure too.
pub proof fn lemma_repeated_report_sends_nothing(v: QueueView, r: (HerdrState, Option<Seq<char>>))
    requires
        v.0 == Some(r),
    ensures
        to_send(after_report(after_next(v), r)) is None,
{
}

/// The queue after a run of reports, in order.
pub open spec fn after_reports(v: QueueView, rs: Seq<(HerdrState, Option<Seq<char>>)>) -> QueueView
    decreases rs.len(),
{
    if rs.len() == 0 {
        v
    } else {
        after_report(after_reports(v, rs.drop_last()), rs.last())
    }
}

/// However many reports are handed in while a request is in flight, only
/// the last of them is pending: it is the only one that can be sent next.
pub proof fn lemma_only_the_latest_report_is_pending(v: QueueView, rs: Seq<(HerdrState, Option<Seq<char>>)>)
    requires
        rs.len() > 0,
    ensures
        after_reports(v, rs).0 == Some(rs.last()),
        to_send(after_reports(v, rs)) is None || to_send(after_reports(v, rs)) == Some(rs.last()),
{
}

impl ReportQueue {
    /// The queue as plain values.
    pub open spec fn view_of(&self) -> QueueView {
        (self.latest(), self.unseen(), self.acknowledged(), self.error())
    }

    /// The latest report handed in.
    pub closed spec fn latest(&self) -> Option<(HerdrState, Option<Seq<char>>)> {
        slot_view(self.latest)
    }

    /// Whether the latest report has not been looked at by the worker.
    pub closed spec fn unseen(&self) -> bool {
        self.unseen
    }

    /// The last report the host acknowledged, unless a later one failed.
    pub closed spec fn acknowledged(&self) -> Option<(HerdrState, Option<Seq<char>>)> {
        slot_view(self.acknowledged)
    }

    /// The latest failure, kept for diagnostics.
    pub closed spec fn error(&self) -> Option<Seq<char>> {
        match self.last_error {
            Some(e) => Some(e@),
            None => None,
        }
    }

    /// An empty queue.
    pub fn new() -> (q: ReportQueue)
        ensures
            q.latest() is None,
            !q.unseen(),
            q.acknowledged() is None,
            q.error() is None,
    {
        ReportQueue { latest: None, unseen: false, acknowledged: None, last_error: None }
    }

    /// Hands in a report; it replaces any pending one, and a report equal to
    /// the latest changes nothing.
    pub fn report(&mut self, state: HerdrState, message: Option<&str>)
        ensures
            ({
                let r = (state, match message {
                    Some(m) => Some(m@),
                    None => None::<Seq<char>>,
                });
                &&& final(self).latest() == Some(r)
                &&& final(self).unseen() == (old(self).unseen() || old(self).latest() != Some(r))
                &&& final(self).acknowledged() == old(self).acknowledged()
                &&& final(self).error() == old(self).error()
                &&& final(self).view_of() == after_report(old(self).view_of(), r)
            }),
    {
        let report = Report {
            state,
            message: match message {
                Some(m) => Some(m.to_owned()),
                None => None,
            },
        };
        let candidate = Some(report);
        if !same_slot(&self.latest, &candidate) {
            self.latest = candidate;
            self.unseen = true;
        }
    }

    /// The report the worker must send now, if any: the latest report when
    /// it is unseen and differs from the acknowledged one. It becomes seen.
    pub fn next_to_send(&mut self) -> (r: Option<Report>)
        ensures
            final(self).latest() == old(self).latest(),
            !final(self).unseen(),
            final(self).acknowledged() == old(self).acknowledged(),
            final(self).error() == old(self).error(),
            final(self).view_of() == after_next(old(self).view_of()),
            r matches Some(x) ==> to_send(old(self).view_of()) == Some(report_view(x)),
            r is None ==> to_send(old(self).view_of()) is None,
            match r {
                Some(x) => old(self).unseen() && old(self).latest() == Some(report_view(x)) && old(self).acknowledged() != Some(report_view(x)),
                None => !old(self).unseen() || old(self).latest() is None || old(self).latest() == old(self).acknowledged(),
            },
    {
        if !self.unseen {
            return None;
        }
        self.unseen = false;
        match &self.latest {
            None => None,
            Some(x) => {
                let c = copy_report(x);
                if same_slot(&self.acknowledged, &self.latest) {
                    None
                } else {
                    Some(c)
                }
            },
        }
    }

    /// Records the host's answer to a sent report: acknowledged on success;
    /// on failure the host state is unknown and the error is kept.
    pub fn acknowledge(&mut self, sent: &Report, outcome: Result<(), String>)
        ensures
            final(self).latest() == old(self).latest(),
            final(self).unseen() == old(self).unseen(),
            final(self).view_of() == after_ack(
                old(self).view_of(),
                report_view(*sent),
                match outcome {
                    Ok(()) => Ok(()),
                    Err(e) => Err(e@),
                },
            ),
            match outcome {
                Ok(()) => final(self).acknowledged() == Some(report_view(*sent)) && final(self).error() == old(self).error(),
                Err(e) => final(self).acknowledged() is None && final(self).error() == Some(e@),
            },
    {
        match outcome {
            Ok(()) => {
                self.acknowledged = Some(copy_report(sent));
            },
            Err(e) => {
                self.acknowledged = None;
                self.last_error = Some(e);
            },
        }
    }

    /// Records a failure that is not tied to a report (such as release).
    pub fn record_error(&mut self, error: String)
        ensures
            final(self).latest() == old(self).latest(),
            final(self).unseen() == old(self).unseen(),
            final(self).acknowledged() == old(self).acknowledged(),
            final(self).error() == Some(error@),
    {
        self.last_error = Some(error);
    }

    /// The latest failure, if any.
    pub fn last_error(&self) -> (r: Option<String>)
        ensures
            match r {
                Some(e) => self.error() == Some(e@),
                None => self.error() is None,
            },
    {
        match &self.last_error {
            Some(e) => Some(e.clone()),
            None => None,
        }
    }
}

} // verus!
