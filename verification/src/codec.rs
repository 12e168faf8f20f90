//! The wire-envelope codec. Outbound requests are rendered to the JSON
//! envelope by verified code with an exact description of the produced text.
//! Inbound frames and result payloads are taken apart by serde_json behind
//! trusted wrappers whose results are named; everything that checks or
//! assembles the decoded pieces is verified.

use vstd::prelude::*;

use crate::errors::RpcClientError;
use crate::text::{append_json_escaped, dec_str, json_escape, push_u64_dec};
use crate::types::{
    CallToolRequest, CallToolResult, CallToolResultV, Content, ContentV, JsonRpcError,
    JsonRpcErrorV, JsonRpcRequest, JsonRpcRequestV, JsonRpcResponse, JsonRpcResponseV,
    ListToolsResult, ListToolsResultV, ToolDefinition, ToolDefinitionV,
};

verus! {

/// The wire text of a request envelope: the protocol version tag, the id (a
/// notification has none), the method name as an escaped JSON string, and
/// the parameters as raw JSON text (omitted when absent).
pub open spec fn spec_encode_request(r: JsonRpcRequestV) -> Seq<char> {
    "{\"jsonrpc\":\""@ + json_escape(r.jsonrpc) + "\""@ + (match r.id {
        Some(i) => ",\"id\":"@ + dec_str(i as nat),
        None => Seq::<char>::empty(),
    }) + ",\"method\":\""@ + json_escape(r.method) + "\""@ + (match r.params {
        Some(p) => ",\"params\":"@ + p,
        None => Seq::<char>::empty(),
    }) + "}"@
}

/// Renders a request or notification as one frame of wire text.
pub fn encode_request(r: &JsonRpcRequest) -> (out: String)
    ensures
        out@ == spec_encode_request(r@),
{
    let mut out = String::new();
    out.append("{\"jsonrpc\":\"");
    append_json_escaped(&mut out, r.jsonrpc.as_str());
    out.append("\"");
    match &r.id {
        Some(i) => {
            out.append(",\"id\":");
            push_u64_dec(&mut out, *i);
        },
        None => {},
    }
    out.append(",\"method\":\"");
    append_json_escaped(&mut out, r.method.as_str());
    out.append("\"");
    match &r.params {
        Some(p) => {
            out.append(",\"params\":");
            out.append(p.as_str());
        },
        None => {},
    }
    out.append("}");
    proof {
        assert(out@ =~= spec_encode_request(r@));
    }
    out
}

/// The parameter object of a `tools/call` request: the tool name as an
/// escaped JSON string and the arguments as raw JSON text.
pub open spec fn spec_call_params(name: Seq<char>, arguments: Seq<char>) -> Seq<char> {
    "{\"name\":\""@ + json_escape(name) + "\",\"arguments\":"@ + arguments + "}"@
}

/// Renders the parameters of a tool call.
pub fn encode_call_params(req: &CallToolRequest) -> (out: String)
    ensures
        out@ == spec_call_params(req.name@, req.arguments@),
{
    let mut out = String::new();
    out.append("{\"name\":\"");
    append_json_escaped(&mut out, req.name.as_str());
    out.append("\",\"arguments\":");
    out.append(req.arguments.as_str());
    out.append("}");
    proof {
        assert(out@ =~= spec_call_params(req.name@, req.arguments@));
    }
    out
}

/// The fixed parameters of the `initialize` handshake: the protocol version
/// tag, an empty capability set, and this client's identity.
pub fn initialize_params() -> (out: String)
    ensures
        out@ == (
        "{\"protocolVersion\":\"2024-11-05\",\"capabilities\":{},\"clientInfo\":{\"name\":\"bedrock-mcp\",\"version\":\"0.1.0\"}}")@,
{
    let mut out = String::new();
    out.append(
        "{\"protocolVersion\":\"2024-11-05\",\"capabilities\":{},\"clientInfo\":{\"name\":\"bedrock-mcp\",\"version\":\"0.1.0\"}}",
    );
    proof {
        assert(out@ =~= (
        "{\"protocolVersion\":\"2024-11-05\",\"capabilities\":{},\"clientInfo\":{\"name\":\"bedrock-mcp\",\"version\":\"0.1.0\"}}")@);
    }
    out
}

/// Builds the envelope of a call: version tag `2.0`, the allocated id, the
/// method, and optional parameters as raw JSON text.
pub fn build_request(id: u64, method: &str, params: Option<String>) -> (r: JsonRpcRequest)
    ensures
        r@.jsonrpc == "2.0"@,
        r@.id == Some(id),
        r@.method == method@,
        params matches Some(p) ==> r@.params == Some(p@),
        params is None ==> r@.params is None,
{
    JsonRpcRequest {
        jsonrpc: String::from_str("2.0"),
        id: Some(id),
        method: method.to_owned(),
        params,
    }
}

/// Builds the envelope of a notification: as a call, but bearing no id.
pub fn build_notification(method: &str, params: Option<String>) -> (r: JsonRpcRequest)
    ensures
        r@.jsonrpc == "2.0"@,
        r@.id is None,
        r@.method == method@,
        params matches Some(p) ==> r@.params == Some(p@),
        params is None ==> r@.params is None,
{
    JsonRpcRequest { jsonrpc: String::from_str("2.0"), id: None, method: method.to_owned(), params }
}

/// The envelope fields of one inbound frame, before any shape checking: each
/// field as the decoder found it, or absent.
#[derive(Debug)]
pub struct RawFrame {
    /// The `jsonrpc` member, when present and a string.
    pub jsonrpc: Option<String>,
    /// The `id` member, when present and an unsigned 64-bit integer.
    pub id: Option<u64>,
    /// The raw JSON text of the `result` member, when present.
    pub result: Option<String>,
    /// The raw JSON text of the `error` member, when present.
    pub error: Option<String>,
}

/// Mathematical view of the raw envelope fields.
#[verifier::ext_equal]
pub struct FrameFields {
    pub jsonrpc: Option<Seq<char>>,
    pub id: Option<u64>,
    pub result: Option<Seq<char>>,
    pub error: Option<Seq<char>>,
}

impl View for RawFrame {
    type V = FrameFields;

    open spec fn view(&self) -> FrameFields {
        FrameFields {
            jsonrpc: match self.jsonrpc {
                Some(ref j) => Some(j@),
                None => None,
            },
            id: self.id,
            result: match self.result {
                Some(ref r) => Some(r@),
                None => None,
            },
            error: match self.error {
                Some(ref e) => Some(e@),
                None => None,
            },
        }
    }
}

/// What the JSON decoder makes of one frame of text: `None` when the text is
/// not a JSON object, otherwise its envelope fields. The decoding is a
/// function of the text alone.
pub uninterp spec fn decoded_frame(s: Seq<char>) -> Option<FrameFields>;

/// What the JSON decoder makes of the text of an `error` member: `None` when
/// it is not an object with an integer `code` and a string `message`. The
/// decoding is a function of the text alone.
pub uninterp spec fn decoded_error(s: Seq<char>) -> Option<JsonRpcErrorV>;

/// Relies on serde_json::from_str and the accessors of serde_json::Value to
/// split one frame of text into its envelope fields; the result depends on
/// the text alone.
#[verifier::external_body]
fn decode_frame_raw(s: &str) -> (r: Option<RawFrame>)
    ensures
        r matches Some(f) ==> decoded_frame(s@) == Some(f@),
        r is None ==> decoded_frame(s@) is None,
{
    let v: serde_json::Value = serde_json::from_str(s).ok()?;
    let o = v.as_object()?;
    Some(RawFrame {
        jsonrpc: o.get("jsonrpc").and_then(|x| x.as_str()).map(|t| t.to_string()),
        id: o.get("id").and_then(|x| x.as_u64()),
        result: o.get("result").map(|x| x.to_string()),
        error: o.get("error").map(|x| x.to_string()),
    })
}

/// Relies on serde_json::from_str and the accessors of serde_json::Value to
/// read an error object's code, message and data; the result depends on the
/// text alone.
#[verifier::external_body]
fn decode_error_raw(s: &str) -> (r: Option<JsonRpcError>)
    ensures
        r matches Some(e) ==> decoded_error(s@) == Some(e@),
        r is None ==> decoded_error(s@) is None,
{
    let v: serde_json::Value = serde_json::from_str(s).ok()?;
    Some(JsonRpcError {
        code: v.get("code")?.as_i64()?,
        message: v.get("message")?.as_str()?.to_string(),
        data: v.get("data").map(|d| d.to_string()),
    })
}

/// The view of a decoded error, when one was decoded.
pub open spec fn opt_error_view(e: Option<JsonRpcError>) -> Option<JsonRpcErrorV> {
    match e {
        Some(err) => Some(err@),
        None => None,
    }
}

/// The well-shaped response, if any, that raw envelope fields `m` and the
/// decoded error `e` assemble to: the version tag must be `2.0` and exactly
/// one of result and error must be present; a present error must have
/// decoded.
pub open spec fn assembled(m: FrameFields, e: Option<JsonRpcErrorV>) -> Option<JsonRpcResponseV> {
    if m.jsonrpc != Some("2.0"@) {
        None
    } else {
        match (m.result, m.error) {
            (Some(t), None) => Some(
                JsonRpcResponseV { jsonrpc: "2.0"@, id: m.id, result: Some(t), error: None },
            ),
            (None, Some(_)) => match e {
                Some(ev) => Some(
                    JsonRpcResponseV { jsonrpc: "2.0"@, id: m.id, result: None, error: Some(ev) },
                ),
                None => None,
            },
            _ => None,
        }
    }
}

/// Checks the shape of one decoded frame and assembles the response: the
/// version tag must be `2.0`, exactly one of result and error must be
/// present, and a present error must have decoded; everything else is a
/// protocol error carrying the offending frame.
pub fn assemble_response(frame: &str, raw: RawFrame, err: Option<JsonRpcError>) -> (r: Result<
    JsonRpcResponse,
    RpcClientError,
>)
    ensures
        assembled(raw@, opt_error_view(err)) matches Some(v) ==> (r matches Ok(resp) && resp@
            == v),
        assembled(raw@, opt_error_view(err)) is None ==> (r matches Err(RpcClientError::Protocol(t))
            && t@ == frame@),
{
    let version_ok = match &raw.jsonrpc {
        Some(j) => {
            let expected = String::from_str("2.0");
            j.eq(&expected)
        },
        None => false,
    };
    if !version_ok {
        return Err(RpcClientError::Protocol(frame.to_owned()));
    }
    match (raw.result, raw.error) {
        (Some(t), None) => Ok(
            JsonRpcResponse {
                jsonrpc: String::from_str("2.0"),
                id: raw.id,
                result: Some(t),
                error: None,
            },
        ),
        (None, Some(_)) => match err {
            Some(e) => Ok(
                JsonRpcResponse {
                    jsonrpc: String::from_str("2.0"),
                    id: raw.id,
                    result: None,
                    error: Some(e),
                },
            ),
            None => Err(RpcClientError::Protocol(frame.to_owned())),
        },
        _ => Err(RpcClientError::Protocol(frame.to_owned())),
    }
}

/// What one frame of text means: nothing when it does not decode, otherwise
/// the response its fields assemble to.
pub open spec fn response_model(m: FrameFields) -> Option<JsonRpcResponseV> {
    assembled(
        m,
        match m.error {
            Some(t) => decoded_error(t),
            None => None,
        },
    )
}

/// Decodes one inbound frame: a frame that is no JSON object fails as a
/// malformed frame; a decoded frame of the wrong shape fails as a protocol
/// error; a well-shaped frame yields the response.
pub fn decode_response(frame: &str) -> (r: Result<JsonRpcResponse, RpcClientError>)
    ensures
        decoded_frame(frame@) is None ==> (r matches Err(RpcClientError::MalformedFrame(t)) && t@
            == frame@),
        decoded_frame(frame@) matches Some(m) ==> ((response_model(m) matches Some(v) ==> (
        r matches Ok(resp) && resp@ == v)) && (response_model(m) is None ==> (r matches Err(
            RpcClientError::Protocol(t),
        ) && t@ == frame@))),
{
    match decode_frame_raw(frame) {
        None => Err(RpcClientError::MalformedFrame(frame.to_owned())),
        Some(raw) => {
            let err = match &raw.error {
                Some(etext) => decode_error_raw(etext.as_str()),
                None => None,
            };
            assemble_response(frame, raw, err)
        },
    }
}

/// What the dispatch loop is to do with one received frame: deliver a
/// well-shaped response to the caller bearing its id, route a shape failure
/// to the caller whose id the frame bears (or discard it when it bears
/// none), or stop the session on a frame that is not JSON at all — a corrupt
/// frame invalidates the stream's framing.
#[derive(Debug)]
pub enum FrameStep {
    Deliver(JsonRpcResponse),
    Reject(Option<u64>, RpcClientError),
    Stop(RpcClientError),
}

/// The dispatch loop's decision for one received frame: a frame that is no
/// JSON object ends the session with a malformed-frame failure; a decoded
/// frame of the wrong shape carries a protocol error to the caller bearing
/// its id; a well-shaped frame is delivered by its id.
pub fn frame_step(frame: &str) -> (r: FrameStep)
    ensures
        decoded_frame(frame@) is None ==> (r matches FrameStep::Stop(
            RpcClientError::MalformedFrame(t),
        ) && t@ == frame@),
        decoded_frame(frame@) matches Some(m) ==> ((response_model(m) matches Some(v) ==> (
        r matches FrameStep::Deliver(resp) && resp@ == v)) && (response_model(m) is None ==> (
        r matches FrameStep::Reject(id, RpcClientError::Protocol(t)) && id == m.id && t@
            == frame@))),
{
    match decode_frame_raw(frame) {
        None => FrameStep::Stop(RpcClientError::MalformedFrame(frame.to_owned())),
        Some(raw) => {
            let id = raw.id;
            let err = match &raw.error {
                Some(etext) => decode_error_raw(etext.as_str()),
                None => None,
            };
            match assemble_response(frame, raw, err) {
                Ok(resp) => FrameStep::Deliver(resp),
                Err(e) => FrameStep::Reject(id, e),
            }
        },
    }
}


/// One entry of a `tools` array as the decoder found it, before any rule is
/// applied: each member raw, with presence kept apart from well-typedness.
#[derive(Debug)]
pub struct RawTool {
    /// The `name` member, when present and a string.
    pub name: Option<String>,
    /// Whether a `description` member is present and not null.
    pub has_description: bool,
    /// The `description` member, when present and a string.
    pub description: Option<String>,
    /// The raw JSON text of the `input_schema` member, when present.
    pub input_schema: Option<String>,
}

/// Mathematical view of a raw tool entry.
#[verifier::ext_equal]
pub struct RawToolV {
    pub name: Option<Seq<char>>,
    pub has_description: bool,
    pub description: Option<Seq<char>>,
    pub input_schema: Option<Seq<char>>,
}

impl View for RawTool {
    type V = RawToolV;

    open spec fn view(&self) -> RawToolV {
        RawToolV {
            name: match self.name {
                Some(ref n) => Some(n@),
                None => None,
            },
            has_description: self.has_description,
            description: match self.description {
                Some(ref d) => Some(d@),
                None => None,
            },
            input_schema: match self.input_schema {
                Some(ref s) => Some(s@),
                None => None,
            },
        }
    }
}

/// The members of a `tools/list` result as the decoder found them.
#[derive(Debug)]
pub struct RawToolList {
    /// The entries of the `tools` array, raw.
    pub tools: Vec<RawTool>,
    /// Whether a `next_cursor` member is present and not null.
    pub has_cursor: bool,
    /// The `next_cursor` member, when present and a string.
    pub next_cursor: Option<String>,
}

/// Mathematical view of a raw tool list.
#[verifier::ext_equal]
pub struct RawToolListV {
    pub tools: Seq<RawToolV>,
    pub has_cursor: bool,
    pub next_cursor: Option<Seq<char>>,
}

impl View for RawToolList {
    type V = RawToolListV;

    open spec fn view(&self) -> RawToolListV {
        RawToolListV {
            tools: self.tools@.map_values(|t: RawTool| t@),
            has_cursor: self.has_cursor,
            next_cursor: match self.next_cursor {
                Some(ref c) => Some(c@),
                None => None,
            },
        }
    }
}

/// What the JSON decoder makes of the result text of `tools/list`: `None`
/// when it is not a JSON object with a `tools` array, otherwise the raw
/// members of every entry. The decoding is a function of the text alone.
pub uninterp spec fn decoded_tools(s: Seq<char>) -> Option<RawToolListV>;

/// Relies on serde_json::from_str and the accessors of serde_json::Value to
/// extract the raw members of a tool list; the result depends on the text
/// alone.
#[verifier::external_body]
fn tools_from_json(s: &str) -> (r: Option<RawToolList>)
    ensures
        r matches Some(lt) ==> decoded_tools(s@) == Some(lt@),
        r is None ==> decoded_tools(s@) is None,
{
    let v: serde_json::Value = serde_json::from_str(s).ok()?;
    let gs = |t: &serde_json::Value, k| t.get(k).and_then(|x| x.as_str()).map(|x| x.to_string());
    let mut tools = Vec::new();
    for t in v.get("tools")?.as_array()? {
        tools.push(RawTool {
            name: gs(t, "name"),
            has_description: t.get("description").is_some_and(|x| !x.is_null()),
            description: gs(t, "description"),
            input_schema: t.get("input_schema").map(|x| x.to_string()),
        });
    }
    let has_cursor = v.get("next_cursor").is_some_and(|x| !x.is_null());
    Some(RawToolList { tools, has_cursor, next_cursor: gs(&v, "next_cursor") })
}

/// The tool definition that one raw entry denotes: `name` must be a string,
/// `input_schema` must be present, and a `description`, when present and not
/// null, must be a string; anything else is no tool.
pub open spec fn tool_of_raw(t: RawToolV) -> Option<ToolDefinitionV> {
    match (t.name, t.input_schema) {
        (Some(n), Some(s)) => if !t.has_description {
            Some(ToolDefinitionV { name: n, description: None, input_schema: s })
        } else {
            match t.description {
                Some(d) => Some(ToolDefinitionV { name: n, description: Some(d), input_schema: s }),
                None => None,
            }
        },
        _ => None,
    }
}

/// The tool definitions that a raw array denotes: every entry must denote
/// one.
pub open spec fn tools_of_raw(ts: Seq<RawToolV>) -> Option<Seq<ToolDefinitionV>>
    decreases ts.len(),
{
    if ts.len() == 0 {
        Some(Seq::empty())
    } else {
        match (tool_of_raw(ts[0]), tools_of_raw(ts.skip(1))) {
            (Some(t), Some(rest)) => Some(seq![t] + rest),
            _ => None,
        }
    }
}

/// Denoting distributes over appending one raw entry at the end.
pub proof fn lemma_tools_of_raw_push(ts: Seq<RawToolV>, x: RawToolV)
    ensures
        tools_of_raw(ts.push(x)) == (match (tools_of_raw(ts), tool_of_raw(x)) {
            (Some(rest), Some(t)) => Some(rest.push(t)),
            _ => None::<Seq<ToolDefinitionV>>,
        }),
    decreases ts.len(),
{
    let p = ts.push(x);
    if ts.len() == 0 {
        assert(p[0] == x);
        assert(p.skip(1) =~= Seq::<RawToolV>::empty());
        match tool_of_raw(x) {
            Some(t) => {
                assert(seq![t] + Seq::<ToolDefinitionV>::empty() =~= Seq::<ToolDefinitionV>::empty().push(t));
            },
            None => {},
        }
    } else {
        assert(p[0] == ts[0]);
        assert(p.skip(1) =~= ts.skip(1).push(x));
        lemma_tools_of_raw_push(ts.skip(1), x);
        match (tool_of_raw(ts[0]), tools_of_raw(ts.skip(1)), tool_of_raw(x)) {
            (Some(t0), Some(rest), Some(t)) => {
                assert(seq![t0] + rest.push(t) =~= (seq![t0] + rest).push(t));
            },
            _ => {},
        }
    }
}

/// An undenotable prefix makes the whole array undenotable.
pub proof fn lemma_tools_of_raw_none_prefix(ts: Seq<RawToolV>, k: int)
    requires
        0 <= k <= ts.len(),
        tools_of_raw(ts.take(k)) is None,
    ensures
        tools_of_raw(ts) is None,
    decreases ts.len(),
{
    assert(k != 0) by {
        if k == 0 {
            assert(ts.take(0) =~= Seq::<RawToolV>::empty());
        }
    }
    assert(ts.take(k)[0] == ts[0]);
    match tool_of_raw(ts[0]) {
        Some(_) => {
            assert(ts.take(k).skip(1) =~= ts.skip(1).take(k - 1));
            lemma_tools_of_raw_none_prefix(ts.skip(1), k - 1);
        },
        None => {},
    }
}

/// The tool list that raw members denote: every entry must denote a tool,
/// and a `next_cursor`, when present and not null, must be a string.
pub open spec fn tool_list_of_raw(m: RawToolListV) -> Option<ListToolsResultV> {
    match tools_of_raw(m.tools) {
        Some(ts) => if !m.has_cursor {
            Some(ListToolsResultV { tools: ts, next_cursor: None })
        } else {
            match m.next_cursor {
                Some(c) => Some(ListToolsResultV { tools: ts, next_cursor: Some(c) }),
                None => None,
            }
        },
        None => None,
    }
}

/// Applies the tool rule to one raw entry.
pub fn tool_from_raw(t: RawTool) -> (r: Option<ToolDefinition>)
    ensures
        r matches Some(td) ==> tool_of_raw(t@) == Some(td@),
        r is None ==> tool_of_raw(t@) is None,
{
    let name = match t.name {
        Some(n) => n,
        None => {
            return None;
        },
    };
    let input_schema = match t.input_schema {
        Some(s) => s,
        None => {
            return None;
        },
    };
    let description = if !t.has_description {
        None
    } else {
        match t.description {
            Some(d) => Some(d),
            None => {
                return None;
            },
        }
    };
    Some(ToolDefinition { name, description, input_schema })
}

/// Interprets the result of `tools/list`: every raw entry must denote a tool
/// and the cursor must be well-typed, else the result text is a protocol
/// error.
pub fn parse_list_tools(result_text: &str) -> (r: Result<ListToolsResult, RpcClientError>)
    ensures
        decoded_tools(result_text@) matches Some(m) ==> ((tool_list_of_raw(m) matches Some(v) ==> (
        r matches Ok(lt) && lt@ == v)) && (tool_list_of_raw(m) is None ==> (r matches Err(
            RpcClientError::Protocol(t),
        ) && t@ == result_text@))),
        decoded_tools(result_text@) is None ==> (r matches Err(RpcClientError::Protocol(t)) && t@
            == result_text@),
{
    let raw = match tools_from_json(result_text) {
        Some(raw) => raw,
        None => {
            return Err(RpcClientError::Protocol(result_text.to_owned()));
        },
    };
    let ghost m = raw@;
    let RawToolList { tools: mut items, has_cursor, next_cursor } = raw;
    let mut tools: Vec<ToolDefinition> = Vec::new();
    let ghost mut j: int = 0;
    while items.len() > 0
        invariant
            decoded_tools(result_text@) == Some(m),
            has_cursor == m.has_cursor,
            (match next_cursor {
                Some(ref c) => Some(c@),
                None => None::<Seq<char>>,
            }) == m.next_cursor,
            0 <= j <= m.tools.len(),
            items@.map_values(|t: RawTool| t@) =~= m.tools.skip(j),
            tools_of_raw(m.tools.take(j)) == Some(tools@.map_values(|t: ToolDefinition| t@)),
        decreases items.len(),
    {
        let ghost o = items@;
        let it = items.remove(0);
        proof {
            assert(o.map_values(|t: RawTool| t@).len() == o.len());
            assert(m.tools.skip(j).len() == m.tools.len() - j);
            assert(o.map_values(|t: RawTool| t@)[0] == it@);
            assert(m.tools.skip(j)[0] == m.tools[j]);
            assert(it@ == m.tools[j]);
            assert(items@ =~= o.skip(1));
            assert forall|k: int| 0 <= k < items@.len() implies items@.map_values(|t: RawTool| t@)[k] == #[trigger] m.tools.skip(j + 1)[k] by {
                assert(items@[k] == o[k + 1]);
                assert(o.map_values(|t: RawTool| t@)[k + 1] == m.tools.skip(j)[k + 1]);
            }
            assert(items@.map_values(|t: RawTool| t@) =~= m.tools.skip(j + 1));
            lemma_tools_of_raw_push(m.tools.take(j), m.tools[j]);
            assert(m.tools.take(j + 1) =~= m.tools.take(j).push(m.tools[j]));
        }
        match tool_from_raw(it) {
            Some(td) => {
                let ghost prev = tools@;
                tools.push(td);
                proof {
                    assert(tools@ =~= prev.push(td));
                    assert(tools@.map_values(|t: ToolDefinition| t@) =~= prev.map_values(
                        |t: ToolDefinition| t@,
                    ).push(td@));
                }
            },
            None => {
                proof {
                    assert(j + 1 <= m.tools.len());
                    assert(tools_of_raw(m.tools.take(j + 1)) is None);
                    lemma_tools_of_raw_none_prefix(m.tools, j + 1);
                    assert(tools_of_raw(m.tools) is None);
                    assert(tool_list_of_raw(m) is None);
                }
                return Err(RpcClientError::Protocol(result_text.to_owned()));
            },
        }
        proof {
            j = j + 1;
        }
    }
    proof {
        assert(m.tools.take(j) =~= m.tools);
    }
    let cursor = if !has_cursor {
        None
    } else {
        match next_cursor {
            Some(c) => Some(c),
            None => {
                return Err(RpcClientError::Protocol(result_text.to_owned()));
            },
        }
    };
    Ok(ListToolsResult { tools, next_cursor: cursor })
}

/// One entry of a `content` array as the decoder found it: its tag and each
/// possible member, raw.
#[derive(Debug)]
pub struct RawContentItem {
    /// The `type` member, when present and a string.
    pub kind: Option<String>,
    /// The `text` member, when present and a string.
    pub text: Option<String>,
    /// The `data` member, when present and a string.
    pub data: Option<String>,
    /// The `mime_type` member, when present and a string.
    pub mime_type: Option<String>,
    /// The raw JSON text of the `resource` member, when present.
    pub resource: Option<String>,
}

/// Mathematical view of a raw content item.
#[verifier::ext_equal]
pub struct RawContentItemV {
    pub kind: Option<Seq<char>>,
    pub text: Option<Seq<char>>,
    pub data: Option<Seq<char>>,
    pub mime_type: Option<Seq<char>>,
    pub resource: Option<Seq<char>>,
}

impl View for RawContentItem {
    type V = RawContentItemV;

    open spec fn view(&self) -> RawContentItemV {
        RawContentItemV {
            kind: match self.kind {
                Some(ref k) => Some(k@),
                None => None,
            },
            text: match self.text {
                Some(ref t) => Some(t@),
                None => None,
            },
            data: match self.data {
                Some(ref d) => Some(d@),
                None => None,
            },
            mime_type: match self.mime_type {
                Some(ref mt) => Some(mt@),
                None => None,
            },
            resource: match self.resource {
                Some(ref x) => Some(x@),
                None => None,
            },
        }
    }
}

/// The members of a `tools/call` result as the decoder found them.
#[derive(Debug)]
pub struct RawCallResult {
    /// The entries of the `content` array, raw.
    pub content: Vec<RawContentItem>,
    /// Whether an `is_error` member is present.
    pub has_is_error: bool,
    /// The `is_error` member, when present and a boolean.
    pub is_error: Option<bool>,
}

/// Mathematical view of a raw call result.
#[verifier::ext_equal]
pub struct RawCallResultV {
    pub content: Seq<RawContentItemV>,
    pub has_is_error: bool,
    pub is_error: Option<bool>,
}

impl View for RawCallResult {
    type V = RawCallResultV;

    open spec fn view(&self) -> RawCallResultV {
        RawCallResultV {
            content: self.content@.map_values(|c: RawContentItem| c@),
            has_is_error: self.has_is_error,
            is_error: self.is_error,
        }
    }
}

/// What the JSON decoder makes of the result text of `tools/call`: `None`
/// when it is not a JSON object with a `content` array, otherwise the raw
/// members of every entry. The decoding is a function of the text alone.
pub uninterp spec fn decoded_call_result(s: Seq<char>) -> Option<RawCallResultV>;

/// Relies on serde_json::from_str and the accessors of serde_json::Value to
/// extract the raw members of a call result; the result depends on the text
/// alone.
#[verifier::external_body]
fn call_result_from_json(s: &str) -> (r: Option<RawCallResult>)
    ensures
        r matches Some(cr) ==> decoded_call_result(s@) == Some(cr@),
        r is None ==> decoded_call_result(s@) is None,
{
    let v: serde_json::Value = serde_json::from_str(s).ok()?;
    let gs = |c: &serde_json::Value, k| c.get(k).and_then(|x| x.as_str()).map(|x| x.to_string());
    let mut content = Vec::new();
    for c in v.get("content")?.as_array()? {
        content.push(RawContentItem {
            kind: gs(c, "type"),
            text: gs(c, "text"),
            data: gs(c, "data"),
            mime_type: gs(c, "mime_type"),
            resource: c.get("resource").map(|x| x.to_string()),
        });
    }
    let e = v.get("is_error");
    Some(RawCallResult { content, has_is_error: e.is_some(), is_error: e.and_then(|x| x.as_bool()) })
}

/// The content item that one raw entry denotes: the tag selects the kind and
/// demands its members; an unknown tag, a missing tag or a missing member is
/// no item.
pub open spec fn content_of_raw(it: RawContentItemV) -> Option<ContentV> {
    if it.kind == Some("text"@) {
        match it.text {
            Some(t) => Some(ContentV::Text { text: t }),
            None => None,
        }
    } else if it.kind == Some("image"@) {
        match (it.data, it.mime_type) {
            (Some(d), Some(mt)) => Some(ContentV::Image { data: d, mime_type: mt }),
            _ => None,
        }
    } else if it.kind == Some("embedded_resource"@) {
        match it.resource {
            Some(x) => Some(ContentV::EmbeddedResource { resource: x }),
            None => None,
        }
    } else {
        None
    }
}

/// The content items that a raw array denotes: every entry must denote one.
pub open spec fn contents_of_raw(items: Seq<RawContentItemV>) -> Option<Seq<ContentV>>
    decreases items.len(),
{
    if items.len() == 0 {
        Some(Seq::empty())
    } else {
        match (content_of_raw(items[0]), contents_of_raw(items.skip(1))) {
            (Some(c), Some(rest)) => Some(seq![c] + rest),
            _ => None,
        }
    }
}

/// Denoting distributes over appending one raw entry at the end.
pub proof fn lemma_contents_of_raw_push(items: Seq<RawContentItemV>, x: RawContentItemV)
    ensures
        contents_of_raw(items.push(x)) == (match (contents_of_raw(items), content_of_raw(x)) {
            (Some(rest), Some(c)) => Some(rest.push(c)),
            _ => None::<Seq<ContentV>>,
        }),
    decreases items.len(),
{
    let p = items.push(x);
    if items.len() == 0 {
        assert(p[0] == x);
        assert(p.skip(1) =~= Seq::<RawContentItemV>::empty());
        assert(contents_of_raw(Seq::<RawContentItemV>::empty()) == Some(Seq::<ContentV>::empty()));
        assert(contents_of_raw(items) == Some(Seq::<ContentV>::empty()));
        match content_of_raw(x) {
            Some(c) => {
                assert(contents_of_raw(p) == Some(seq![c] + Seq::<ContentV>::empty()));
                assert(seq![c] + Seq::<ContentV>::empty() =~= Seq::<ContentV>::empty().push(c));
            },
            None => {
                assert(contents_of_raw(p) is None);
            },
        }
    } else {
        assert(p[0] == items[0]);
        assert(p.skip(1) =~= items.skip(1).push(x));
        lemma_contents_of_raw_push(items.skip(1), x);
        match (content_of_raw(items[0]), contents_of_raw(items.skip(1)), content_of_raw(x)) {
            (Some(c0), Some(rest), Some(c)) => {
                assert(contents_of_raw(p.skip(1)) == Some(rest.push(c)));
                assert(contents_of_raw(p) == Some(seq![c0] + rest.push(c)));
                assert(contents_of_raw(items) == Some(seq![c0] + rest));
                assert(seq![c0] + rest.push(c) =~= (seq![c0] + rest).push(c));
            },
            _ => {
                assert(contents_of_raw(p) is None);
            },
        }
    }
}

/// An undenotable prefix makes the whole array undenotable.
pub proof fn lemma_contents_of_raw_none_prefix(items: Seq<RawContentItemV>, k: int)
    requires
        0 <= k <= items.len(),
        contents_of_raw(items.take(k)) is None,
    ensures
        contents_of_raw(items) is None,
    decreases items.len(),
{
    assert(k != 0) by {
        if k == 0 {
            assert(items.take(0) =~= Seq::<RawContentItemV>::empty());
        }
    }
    assert(items.take(k)[0] == items[0]);
    match content_of_raw(items[0]) {
        Some(_) => {
            assert(items.take(k).skip(1) =~= items.skip(1).take(k - 1));
            lemma_contents_of_raw_none_prefix(items.skip(1), k - 1);
        },
        None => {},
    }
}

/// The call result that raw members denote: every content entry must denote
/// an item, and an `is_error` member, when present, must be a boolean — when
/// it is absent the flag is false.
pub open spec fn call_result_of_raw(m: RawCallResultV) -> Option<CallToolResultV> {
    match contents_of_raw(m.content) {
        Some(cs) => if !m.has_is_error {
            Some(CallToolResultV { content: cs, is_error: false })
        } else {
            match m.is_error {
                Some(b) => Some(CallToolResultV { content: cs, is_error: b }),
                None => None,
            }
        },
        None => None,
    }
}

/// Applies the content-tag rule to one raw entry.
pub fn content_from_raw(it: RawContentItem) -> (r: Option<Content>)
    ensures
        r matches Some(c) ==> content_of_raw(it@) == Some(c@),
        r is None ==> content_of_raw(it@) is None,
{
    let kind = match it.kind {
        Some(k) => k,
        None => {
            return None;
        },
    };
    if kind.eq(&String::from_str("text")) {
        match it.text {
            Some(t) => Some(Content::Text { text: t }),
            None => None,
        }
    } else if kind.eq(&String::from_str("image")) {
        match (it.data, it.mime_type) {
            (Some(d), Some(mt)) => Some(Content::Image { data: d, mime_type: mt }),
            _ => None,
        }
    } else if kind.eq(&String::from_str("embedded_resource")) {
        match it.resource {
            Some(x) => Some(Content::EmbeddedResource { resource: x }),
            None => None,
        }
    } else {
        None
    }
}

/// Interprets the result of `tools/call`: every raw content entry must
/// denote an item and a present `is_error` must be a boolean — absent means
/// false; anything else makes the result text a protocol error.
pub fn parse_call_result(result_text: &str) -> (r: Result<CallToolResult, RpcClientError>)
    ensures
        decoded_call_result(result_text@) matches Some(m) ==> ((call_result_of_raw(m) matches Some(
            v,
        ) ==> (r matches Ok(cr) && cr@ == v)) && (call_result_of_raw(m) is None ==> (r matches Err(
            RpcClientError::Protocol(t),
        ) && t@ == result_text@))),
        decoded_call_result(result_text@) is None ==> (r matches Err(RpcClientError::Protocol(t))
            && t@ == result_text@),
{
    let raw = match call_result_from_json(result_text) {
        Some(raw) => raw,
        None => {
            return Err(RpcClientError::Protocol(result_text.to_owned()));
        },
    };
    let ghost m = raw@;
    let RawCallResult { content: mut items, has_is_error, is_error } = raw;
    let mut content: Vec<Content> = Vec::new();
    let ghost mut j: int = 0;
    while items.len() > 0
        invariant
            decoded_call_result(result_text@) == Some(m),
            has_is_error == m.has_is_error,
            is_error == m.is_error,
            0 <= j <= m.content.len(),
            items@.map_values(|c: RawContentItem| c@) =~= m.content.skip(j),
            contents_of_raw(m.content.take(j)) == Some(content@.map_values(|c: Content| c@)),
        decreases items.len(),
    {
        let ghost o = items@;
        let it = items.remove(0);
        proof {
            assert(o.map_values(|c: RawContentItem| c@).len() == o.len());
            assert(m.content.skip(j).len() == m.content.len() - j);
            assert(o.map_values(|c: RawContentItem| c@)[0] == it@);
            assert(m.content.skip(j)[0] == m.content[j]);
            assert(it@ == m.content[j]);
            assert(items@ =~= o.skip(1));
            assert forall|k: int| 0 <= k < items@.len() implies items@.map_values(|c: RawContentItem| c@)[k] == #[trigger] m.content.skip(j + 1)[k] by {
                assert(items@[k] == o[k + 1]);
                assert(o.map_values(|c: RawContentItem| c@)[k + 1] == m.content.skip(j)[k + 1]);
            }
            assert(items@.map_values(|c: RawContentItem| c@) =~= m.content.skip(j + 1));
            lemma_contents_of_raw_push(m.content.take(j), m.content[j]);
            assert(m.content.take(j + 1) =~= m.content.take(j).push(m.content[j]));
        }
        match content_from_raw(it) {
            Some(c) => {
                let ghost prev = content@;
                content.push(c);
                proof {
                    assert(content@ =~= prev.push(c));
                    assert(content@.map_values(|cc: Content| cc@) =~= prev.map_values(
                        |cc: Content| cc@,
                    ).push(c@));
                }
            },
            None => {
                proof {
                    assert(j + 1 <= m.content.len());
                    assert(contents_of_raw(m.content.take(j + 1)) is None);
                    lemma_contents_of_raw_none_prefix(m.content, j + 1);
                    assert(contents_of_raw(m.content) is None);
                    assert(call_result_of_raw(m) is None);
                }
                return Err(RpcClientError::Protocol(result_text.to_owned()));
            },
        }
        proof {
            j = j + 1;
        }
    }
    proof {
        assert(m.content.take(j) =~= m.content);
    }
    let flag = if !has_is_error {
        false
    } else {
        match is_error {
            Some(b) => b,
            None => {
                return Err(RpcClientError::Protocol(result_text.to_owned()));
            },
        }
    };
    Ok(CallToolResult { content, is_error: flag })
}

} // verus!
