//! The requests of an MCP host: which are answered, how, and which call a tool.
use vstd::prelude::*;

use crate::json::{Json, JsonView, integer_number, parse_json, text_json};
use crate::pinned::{Pinned, Pins};
use crate::text::{begins, blank, is_blank, join, joined, same_text};

verus! {

// ---- tool calls ---------------------------------------------------------------

/// A call of a tool.
pub enum ToolCall {
    Connect,
    Send { target: Option<String>, message: Option<String> },
    Recv { wait_secs: Option<serde_json::Number> },
    Status,
    Quit,
    /// A call of a tool that there is not.
    Unknown(String),
}

/// What a `ToolCall` stands for.
pub enum Call {
    Connect,
    Send { target: Option<Seq<char>>, message: Option<Seq<char>> },
    Recv { wait_secs: Option<serde_json::Number> },
    Status,
    Quit,
    Unknown(Seq<char>),
}

/// The text of an optional string.
pub open spec fn owned_text(s: Option<String>) -> Option<Seq<char>> {
    match s {
        Some(t) => Some(t@),
        None => None,
    }
}

impl View for ToolCall {
    type V = Call;

    open spec fn view(&self) -> Call {
        match *self {
            ToolCall::Connect => Call::Connect,
            ToolCall::Send { target, message } => Call::Send {
                target: owned_text(target),
                message: owned_text(message),
            },
            ToolCall::Recv { wait_secs } => Call::Recv { wait_secs },
            ToolCall::Status => Call::Status,
            ToolCall::Quit => Call::Quit,
            ToolCall::Unknown(name) => Call::Unknown(name@),
        }
    }
}

/// The call of the tool `name` with the given arguments.
pub open spec fn call_of(name: Seq<char>, args: JsonView) -> Call {
    if name == "irc_connect"@ {
        Call::Connect
    } else if name == "irc_send"@ {
        Call::Send {
            target: args.at("target"@).as_text(),
            message: args.at("message"@).as_text(),
        }
    } else if name == "irc_recv"@ {
        Call::Recv { wait_secs: args.at("wait_secs"@).as_number() }
    } else if name == "irc_status"@ {
        Call::Status
    } else if name == "irc_quit"@ {
        Call::Quit
    } else {
        Call::Unknown(name)
    }
}

/// The text of the member `key`, if it is one.
fn text_at(v: &Json, key: &str) -> (r: Option<String>)
    ensures
        owned_text(r) == v@.at(key@).as_text(),
{
    match v.get(key) {
        Some(m) => match m.as_str() {
            Some(s) => Some(s.to_owned()),
            None => None,
        },
        None => None,
    }
}

/// The number of the member `key`, if it is one.
fn number_at(v: &Json, key: &str) -> (r: Option<serde_json::Number>)
    ensures
        r == v@.at(key@).as_number(),
{
    match v.get(key) {
        Some(m) => m.to_number(),
        None => None,
    }
}

/// The call of the tool `name` with the given arguments.
pub fn tool_call(name: &str, args: &Json) -> (r: ToolCall)
    ensures
        r@ == call_of(name@, args@),
{
    if same_text(name, "irc_connect") {
        ToolCall::Connect
    } else if same_text(name, "irc_send") {
        ToolCall::Send { target: text_at(args, "target"), message: text_at(args, "message") }
    } else if same_text(name, "irc_recv") {
        ToolCall::Recv { wait_secs: number_at(args, "wait_secs") }
    } else if same_text(name, "irc_status") {
        ToolCall::Status
    } else if same_text(name, "irc_quit") {
        ToolCall::Quit
    } else {
        ToolCall::Unknown(name.to_owned())
    }
}

/// What is reported of a tool that there is not.
pub open spec fn no_such_tool(name: Seq<char>) -> Seq<char> {
    "unknown tool: "@ + name
}

/// What is reported of a tool that there is not.
pub fn unknown_tool(name: &str) -> (r: String)
    ensures
        r@ == no_such_tool(name@),
{
    "unknown tool: ".to_owned().concat(name)
}

// ---- the tools on offer -------------------------------------------------------

/// A text as a JSON value.
pub open spec fn text(s: Seq<char>) -> JsonView {
    JsonView::Text(s)
}

/// The schema of an object with the given properties.
pub open spec fn schema(properties: JsonView) -> JsonView {
    JsonView::object().with("type"@, text("object"@)).with("properties"@, properties)
}

/// The schema of a property.
pub open spec fn property(kind: Seq<char>, description: Seq<char>) -> JsonView {
    JsonView::object().with("type"@, text(kind)).with("description"@, text(description))
}

/// A tool on offer.
pub open spec fn tool(name: Seq<char>, description: Seq<char>, input: JsonView) -> JsonView {
    JsonView::object().with("name"@, text(name)).with("description"@, text(description)).with(
        "inputSchema"@,
        input,
    )
}

/// The tools on offer.
pub open spec fn tools(pins: Pins) -> Seq<JsonView> {
    seq![
        tool(
            "irc_connect"@,
            "(Re)connect to the pinned IRC server as '"@ + pins.nick + "' and join "@ + join(
                pins.channels,
                " "@,
            )
                + " (server/nick/channels are fixed at startup and cannot be changed). Replaces any existing connection."@,
            schema(JsonView::object()),
        ),
        tool(
            "irc_send"@,
            "Send a message to the pinned channel (default) or as a PM to a nick. Multi-line messages are sent as one PRIVMSG per line. KEEP MESSAGES SHORT: IRC caps a line at ~450 bytes and the server kicks clients for flooding — send at most 2-3 short lines at a time, chat-style, not paragraphs. Split longer thoughts across multiple irc_send calls with pauses in between."@,
            schema(
                JsonView::object().with(
                    "target"@,
                    property(
                        "string"@,
                        "Pinned channel or a nick (default: the pinned channel)"@,
                    ),
                ).with("message"@, property("string"@, "Text to send"@)),
            ).with("required"@, JsonView::Array(seq![text("message"@)])),
        ),
        tool(
            "irc_recv"@,
            "Drain received IRC messages/events. If none are queued, optionally block up to wait_secs for the next one. Returns '(no new messages)' on timeout."@,
            schema(
                JsonView::object().with(
                    "wait_secs"@,
                    property(
                        "number"@,
                        "Seconds to block waiting if the queue is empty (0 = return immediately, max 600)"@,
                    ),
                ),
            ),
        ),
        tool(
            "irc_status"@,
            "Show connection state, joined channels, queue depth, and the recent raw server log."@,
            schema(JsonView::object()),
        ),
        tool(
            "irc_quit"@,
            "Disconnect from the IRC server."@,
            schema(JsonView::object()),
        ),
    ]
}

/// The schema of an object with the given properties.
fn make_schema(properties: Json) -> (r: Json)
    ensures
        r@ == schema(properties@),
{
    Json::object().with("type", Json::text("object")).with("properties", properties)
}

/// The schema of a property.
fn make_property(kind: &str, description: &str) -> (r: Json)
    ensures
        r@ == property(kind@, description@),
{
    Json::object().with("type", Json::text(kind)).with("description", Json::text(description))
}

/// A tool on offer.
fn make_tool(name: &str, description: &str, input: Json) -> (r: Json)
    ensures
        r@ == tool(name@, description@, input@),
{
    Json::object().with("name", Json::text(name)).with("description", Json::text(description)).with(
        "inputSchema",
        input,
    )
}

/// The tools on offer.
pub fn tools_json(pinned: &Pinned) -> (r: Json)
    ensures
        r@ == JsonView::Array(tools(pinned@)),
{
    let about_connect = "(Re)connect to the pinned IRC server as '".to_owned().concat(
        pinned.nick.as_str(),
    ).concat("' and join ").concat(joined(&pinned.channels, " ").as_str()).concat(
        " (server/nick/channels are fixed at startup and cannot be changed). Replaces any existing connection.",
    );
    let connect = make_tool("irc_connect", about_connect.as_str(), make_schema(Json::object()));
    let mut required: Vec<Json> = Vec::new();
    required.push(Json::text("message"));
    let needed = Json::array(required);
    assert(needed@->Array_0 =~= seq![text("message"@)]);
    let send = make_tool(
        "irc_send",
        "Send a message to the pinned channel (default) or as a PM to a nick. Multi-line messages are sent as one PRIVMSG per line. KEEP MESSAGES SHORT: IRC caps a line at ~450 bytes and the server kicks clients for flooding — send at most 2-3 short lines at a time, chat-style, not paragraphs. Split longer thoughts across multiple irc_send calls with pauses in between.",
        make_schema(
            Json::object().with(
                "target",
                make_property("string", "Pinned channel or a nick (default: the pinned channel)"),
            ).with("message", make_property("string", "Text to send")),
        ).with("required", needed),
    );
    let recv = make_tool(
        "irc_recv",
        "Drain received IRC messages/events. If none are queued, optionally block up to wait_secs for the next one. Returns '(no new messages)' on timeout.",
        make_schema(
            Json::object().with(
                "wait_secs",
                make_property(
                    "number",
                    "Seconds to block waiting if the queue is empty (0 = return immediately, max 600)",
                ),
            ),
        ),
    );
    let status = make_tool(
        "irc_status",
        "Show connection state, joined channels, queue depth, and the recent raw server log.",
        make_schema(Json::object()),
    );
    let quit = make_tool(
        "irc_quit",
        "Disconnect from the IRC server.",
        make_schema(Json::object()),
    );
    let mut all: Vec<Json> = Vec::new();
    all.push(connect);
    all.push(send);
    all.push(recv);
    all.push(status);
    all.push(quit);
    let r = Json::array(all);
    assert(r@->Array_0 =~= tools(pinned@));
    r
}

// ---- requests -----------------------------------------------------------------

/// What a message calls for.
pub enum Outcome {
    /// Nothing.
    Silent,
    /// This answer.
    Answer(Json),
    /// The outcome of this call, in an answer to the request `id`.
    Run { id: Json, call: ToolCall },
}

/// What an `Outcome` stands for.
pub enum Effect {
    Silent,
    Answer(JsonView),
    Run { id: JsonView, call: Call },
}

impl View for Outcome {
    type V = Effect;

    open spec fn view(&self) -> Effect {
        match *self {
            Outcome::Silent => Effect::Silent,
            Outcome::Answer(a) => Effect::Answer(a@),
            Outcome::Run { id, call } => Effect::Run { id: id@, call: call@ },
        }
    }
}

/// The answer to the request `id` with a result.
pub open spec fn result_answer(id: JsonView, result: JsonView) -> JsonView {
    JsonView::object().with("jsonrpc"@, text("2.0"@)).with("id"@, id).with("result"@, result)
}

/// The code of an error for a method that there is not.
pub const METHOD_NOT_FOUND: i64 = -32601;

/// The answer to the request `id` for a method that there is not.
pub open spec fn error_answer(id: JsonView, method: Seq<char>) -> JsonView {
    JsonView::object().with("jsonrpc"@, text("2.0"@)).with("id"@, id).with(
        "error"@,
        JsonView::object().with("code"@, JsonView::Number(integer_number(METHOD_NOT_FOUND))).with(
            "message"@,
            text("method not found: "@ + method),
        ),
    )
}

/// The text that a value is, else the given one.
pub open spec fn text_or(v: JsonView, other: Seq<char>) -> Seq<char> {
    match v.as_text() {
        Some(s) => s,
        None => other,
    }
}

/// The method that a message names; the empty text where it names none.
pub open spec fn method_of(msg: JsonView) -> Seq<char> {
    text_or(msg.at("method"@), Seq::empty())
}

/// The protocol that is spoken with a host that asks for none.
pub open spec fn default_protocol() -> Seq<char> {
    "2024-11-05"@
}

/// What the client says of itself, to a host that asks for a protocol.
pub open spec fn greeting(protocol: Seq<char>, version: Seq<char>) -> JsonView {
    JsonView::object().with("protocolVersion"@, text(protocol)).with(
        "capabilities"@,
        JsonView::object().with("tools"@, JsonView::object()),
    ).with(
        "serverInfo"@,
        JsonView::object().with("name"@, text("mcp-irc-client"@)).with("version"@, text(version)),
    )
}

/// A message that is no request, by its method.
pub open spec fn is_notification(method: Seq<char>) -> bool {
    "notifications/"@.is_prefix_of(method)
}

/// What a message calls for.
pub open spec fn effect_of(pins: Pins, version: Seq<char>, msg: JsonView) -> Effect {
    let id = msg.at("id"@);
    let method = method_of(msg);
    let params = msg.at("params"@);
    if method == "initialize"@ {
        let protocol = text_or(params.at("protocolVersion"@), default_protocol());
        Effect::Answer(result_answer(id, greeting(protocol, version)))
    } else if method == "ping"@ {
        Effect::Answer(result_answer(id, JsonView::object()))
    } else if method == "tools/list"@ {
        Effect::Answer(
            result_answer(id, JsonView::object().with("tools"@, JsonView::Array(tools(pins)))),
        )
    } else if method == "tools/call"@ {
        let name = text_or(params.at("name"@), Seq::empty());
        Effect::Run { id, call: call_of(name, params.at("arguments"@)) }
    } else if msg.get("id"@) is Some && !is_notification(method) {
        Effect::Answer(error_answer(id, method))
    } else {
        Effect::Silent
    }
}

/// The answer to the request `id` with a result.
fn answer_result(id: Json, result: Json) -> (r: Json)
    ensures
        r@ == result_answer(id@, result@),
{
    Json::object().with("jsonrpc", Json::text("2.0")).with("id", id).with("result", result)
}

/// A copy of the member `key`, or null where there is none.
fn copy_at(v: &Json, key: &str) -> (r: Json)
    ensures
        r@ == v@.at(key@),
{
    match v.get(key) {
        Some(m) => m.copy(),
        None => Json::Null,
    }
}

/// What a message calls for, from a client with the given version.
pub fn handle_message(pinned: &Pinned, version: &str, msg: &Json) -> (r: Outcome)
    ensures
        r@ == effect_of(pinned@, version@, msg@),
{
    proof {
        reveal_strlit("");
        assert(""@ =~= Seq::<char>::empty());
    }
    let id = copy_at(msg, "id");
    let params = copy_at(msg, "params");
    let method = match text_at(msg, "method") {
        Some(m) => m,
        None => String::new(),
    };
    let m = method.as_str();
    if same_text(m, "initialize") {
        let protocol = match text_at(&params, "protocolVersion") {
            Some(p) => p,
            None => "2024-11-05".to_owned(),
        };
        let result = Json::object().with("protocolVersion", Json::Text(protocol)).with(
            "capabilities",
            Json::object().with("tools", Json::object()),
        ).with(
            "serverInfo",
            Json::object().with("name", Json::text("mcp-irc-client")).with(
                "version",
                Json::text(version),
            ),
        );
        Outcome::Answer(answer_result(id, result))
    } else if same_text(m, "ping") {
        Outcome::Answer(answer_result(id, Json::object()))
    } else if same_text(m, "tools/list") {
        Outcome::Answer(
            answer_result(id, Json::object().with("tools", tools_json(pinned))),
        )
    } else if same_text(m, "tools/call") {
        let name = match text_at(&params, "name") {
            Some(n) => n,
            None => String::new(),
        };
        let args = copy_at(&params, "arguments");
        let call = tool_call(name.as_str(), &args);
        Outcome::Run { id, call }
    } else if msg.get("id").is_some() && !begins(m, "notifications/") {
        let message = "method not found: ".to_owned().concat(m);
        let error = Json::object().with("code", Json::integer(METHOD_NOT_FOUND)).with(
            "message",
            Json::Text(message),
        );
        Outcome::Answer(
            Json::object().with("jsonrpc", Json::text("2.0")).with("id", id).with("error", error),
        )
    } else {
        Outcome::Silent
    }
}

/// What a line of input calls for. A blank line, and one that is not JSON, call
/// for nothing.
pub open spec fn effect_of_line(pins: Pins, version: Seq<char>, line: Seq<char>) -> Effect {
    if is_blank(line) {
        Effect::Silent
    } else {
        match text_json(line) {
            Some(msg) => effect_of(pins, version, msg),
            None => Effect::Silent,
        }
    }
}

/// What a line of input calls for. A blank line, and one that is not JSON, call
/// for nothing.
pub fn handle_input(pinned: &Pinned, version: &str, line: &str) -> (r: Outcome)
    ensures
        r@ == effect_of_line(pinned@, version@, line@),
{
    if blank(line) {
        return Outcome::Silent;
    }
    match parse_json(line) {
        Some(msg) => handle_message(pinned, version, &msg),
        None => Outcome::Silent,
    }
}

/// The answer to the request `id` with the outcome of a call.
pub open spec fn call_answer(id: JsonView, said: Seq<char>, failed: bool) -> JsonView {
    result_answer(
        id,
        JsonView::object().with(
            "content"@,
            JsonView::Array(
                seq![JsonView::object().with("type"@, text("text"@)).with("text"@, text(said))],
            ),
        ).with("isError"@, JsonView::Bool(failed)),
    )
}

/// The answer to the request `id` with the outcome of a call: what it said, or
/// why it failed.
pub open spec fn outcome_answer(id: JsonView, out: Result<Seq<char>, Seq<char>>) -> JsonView {
    match out {
        Ok(t) => call_answer(id, t, false),
        Err(e) => call_answer(id, e, true),
    }
}

/// The text of a result.
pub open spec fn result_text(out: Result<String, String>) -> Result<Seq<char>, Seq<char>> {
    match out {
        Ok(t) => Ok(t@),
        Err(e) => Err(e@),
    }
}

/// The answer to the request `id` with the outcome of a call.
pub fn answer_call(id: Json, out: Result<String, String>) -> (r: Json)
    ensures
        r@ == outcome_answer(id@, result_text(out)),
{
    let (said, failed) = match out {
        Ok(t) => (t, false),
        Err(e) => (e, true),
    };
    let block = Json::object().with("type", Json::text("text")).with("text", Json::Text(said));
    let mut blocks: Vec<Json> = Vec::new();
    blocks.push(block);
    let content = Json::array(blocks);
    assert(content@->Array_0 =~= seq![block@]);
    let result = Json::object().with("content", content).with("isError", Json::Bool(failed));
    answer_result(id, result)
}

} // verus!
