//! Requests are answered, each under its own id, and notifications are not.
use vstd::prelude::*;

use crate::json::{JsonView, integer_number, text_json};
use crate::mcp::{
    Call,
    Effect,
    Outcome,
    ToolCall,
    call_answer,
    call_of,
    effect_of,
    effect_of_line,
    error_answer,
    is_notification,
    method_of,
    no_such_tool,
    outcome_answer,
    result_answer,
    text,
    tools,
};
use crate::pinned::Pins;
use crate::text::{is_blank, join};

verus! {

/// The names of the members of an answer differ.
proof fn lemma_answer_members()
    ensures
        "jsonrpc"@ != "id"@,
        "jsonrpc"@ != "result"@,
        "jsonrpc"@ != "error"@,
        "id"@ != "result"@,
        "id"@ != "error"@,
        "result"@ != "error"@,
{
    reveal_strlit("jsonrpc");
    reveal_strlit("id");
    reveal_strlit("result");
    reveal_strlit("error");
    assert("jsonrpc"@.len() == 7);
    assert("id"@.len() == 2);
    assert("result"@.len() == 6);
    assert("error"@.len() == 5);
}

/// An answer names its protocol and bears the id of its request, and holds
/// either a result or an error.
pub proof fn law_answer_shape(
    id: JsonView,
    result: JsonView,
    method: Seq<char>,
    said: Seq<char>,
    failed: bool,
)
    ensures
        result_answer(id, result).at("jsonrpc"@) == text("2.0"@),
        result_answer(id, result).at("id"@) == id,
        result_answer(id, result).at("result"@) == result,
        result_answer(id, result).get("error"@) is None,
        error_answer(id, method).at("jsonrpc"@) == text("2.0"@),
        error_answer(id, method).at("id"@) == id,
        error_answer(id, method).get("error"@) is Some,
        error_answer(id, method).get("result"@) is None,
        call_answer(id, said, failed).at("id"@) == id,
        call_answer(id, said, failed).get("error"@) is None,
{
    lemma_answer_members();
}

/// The answer to a call holds what the tool said, and whether it failed.
pub proof fn law_call_answer(id: JsonView, said: Seq<char>, failed: bool)
    ensures
        call_answer(id, said, failed).at("result"@).at("isError"@) == JsonView::Bool(failed),
        call_answer(id, said, failed).at("result"@).at("content"@) matches JsonView::Array(blocks)
            && blocks.len() == 1 && blocks[0].at("type"@) == text("text"@) && blocks[0].at("text"@)
            == text(said),
{
    lemma_answer_members();
    reveal_strlit("content");
    reveal_strlit("isError");
    reveal_strlit("type");
    reveal_strlit("text");
    assert("content"@[0] == 'c' && "isError"@[0] == 'i');
    assert("type"@[1] == 'y' && "text"@[1] == 'e');
}

/// An answer, at once or by way of a tool, is for the id that the message bears,
/// or for null where it bears none.
pub proof fn law_answer_bears_id(pins: Pins, version: Seq<char>, msg: JsonView)
    ensures
        match effect_of(pins, version, msg) {
            Effect::Answer(a) => a.at("id"@) == msg.at("id"@) && a.at("jsonrpc"@) == text("2.0"@),
            Effect::Run { id, call } => id == msg.at("id"@),
            Effect::Silent => true,
        },
{
    lemma_answer_members();
}

/// Every request is answered: a message with an id that is no notification.
pub proof fn law_request_is_answered(pins: Pins, version: Seq<char>, msg: JsonView)
    requires
        msg.get("id"@) is Some,
        !is_notification(method_of(msg)),
    ensures
        effect_of(pins, version, msg) !is Silent,
{
}

/// The methods that there are.
pub open spec fn is_method(method: Seq<char>) -> bool {
    ||| method == "initialize"@
    ||| method == "ping"@
    ||| method == "tools/list"@
    ||| method == "tools/call"@
}

/// A request for a method that there is not is refused with an error under its
/// own id; without an id it is left alone.
pub proof fn law_unknown_method(pins: Pins, version: Seq<char>, msg: JsonView)
    requires
        !is_method(method_of(msg)),
    ensures
        msg.get("id"@) is Some && !is_notification(method_of(msg)) ==> effect_of(pins, version, msg)
            == Effect::Answer(error_answer(msg.at("id"@), method_of(msg))),
        msg.get("id"@) is None ==> effect_of(pins, version, msg) is Silent,
{
}

/// A notification is never answered.
pub proof fn law_notification_is_silent(pins: Pins, version: Seq<char>, msg: JsonView)
    requires
        is_notification(method_of(msg)),
    ensures
        effect_of(pins, version, msg) is Silent,
{
    let method = method_of(msg);
    reveal_strlit("notifications/");
    reveal_strlit("initialize");
    reveal_strlit("ping");
    reveal_strlit("tools/list");
    reveal_strlit("tools/call");
    assert("notifications/"@.len() == 14);
    assert("initialize"@.len() == 10);
    assert("ping"@.len() == 4);
    assert("tools/list"@.len() == 10);
    assert("tools/call"@.len() == 10);
    assert(method.len() >= 14);
}

/// A message that is no object calls for nothing.
pub proof fn law_only_objects_count(pins: Pins, version: Seq<char>, msg: JsonView)
    requires
        msg !is Object,
    ensures
        effect_of(pins, version, msg) is Silent,
{
    reveal_strlit("initialize");
    reveal_strlit("ping");
    reveal_strlit("tools/list");
    reveal_strlit("tools/call");
    assert("initialize"@.len() == 10);
    assert("ping"@.len() == 4);
    assert("tools/list"@.len() == 10);
    assert("tools/call"@.len() == 10);
}

/// The names of the members of a tool differ.
proof fn lemma_tool_members()
    ensures
        "name"@ != "description"@,
        "name"@ != "inputSchema"@,
        "description"@ != "inputSchema"@,
{
    reveal_strlit("name");
    reveal_strlit("description");
    reveal_strlit("inputSchema");
    assert("name"@.len() == 4);
    assert("description"@.len() == 11);
    assert("inputSchema"@.len() == 11);
    assert("description"@[0] == 'd');
    assert("inputSchema"@[0] == 'i');
}

/// The names of the tools on offer.
pub open spec fn tool_names() -> Seq<Seq<char>> {
    seq!["irc_connect"@, "irc_send"@, "irc_recv"@, "irc_status"@, "irc_quit"@]
}

/// The tools on offer are those that can be called: each has its name among the
/// names that a call knows, and a call knows no other.
pub proof fn law_tools_on_offer(pins: Pins, name: Seq<char>, args: JsonView)
    ensures
        tools(pins).len() == tool_names().len(),
        forall|i: int|
            0 <= i < tools(pins).len() ==> (#[trigger] tools(pins)[i]).at("name"@) == text(
                tool_names()[i],
            ),
        call_of(name, args) is Unknown <==> !tool_names().contains(name),
{
    let names = tool_names();
    assert forall|i: int| 0 <= i < tools(pins).len() implies (#[trigger] tools(pins)[i]).at(
        "name"@,
    ) == text(tool_names()[i]) by {
        lemma_tool_members();
    }
    assert(names[0] == "irc_connect"@);
    assert(names[1] == "irc_send"@);
    assert(names[2] == "irc_recv"@);
    assert(names[3] == "irc_status"@);
    assert(names[4] == "irc_quit"@);
    if names.contains(name) {
        let i = choose|i: int| 0 <= i < names.len() && names[i] == name;
        assert(call_of(name, args) !is Unknown);
    }
}

// ---- letter by letter ---------------------------------------------------------

/// The methods differ, and none is that of a notification.
proof fn lemma_methods_differ()
    ensures
        "initialize"@ != "ping"@ && "initialize"@ != "tools/list"@ && "initialize"@
            != "tools/call"@,
        "ping"@ != "tools/list"@ && "ping"@ != "tools/call"@ && "tools/list"@ != "tools/call"@,
{
    reveal_strlit("initialize");
    reveal_strlit("ping");
    reveal_strlit("tools/list");
    reveal_strlit("tools/call");
    assert("initialize"@.len() == 10 && "initialize"@[0] == 'i');
    assert("ping"@.len() == 4);
    assert("tools/list"@.len() == 10 && "tools/list"@[0] == 't' && "tools/list"@[6] == 'l');
    assert("tools/call"@.len() == 10 && "tools/call"@[0] == 't' && "tools/call"@[6] == 'c');
}

/// The names of the tools differ.
proof fn lemma_tools_differ()
    ensures
        "irc_connect"@ != "irc_send"@ && "irc_connect"@ != "irc_recv"@ && "irc_connect"@
            != "irc_status"@ && "irc_connect"@ != "irc_quit"@,
        "irc_send"@ != "irc_recv"@ && "irc_send"@ != "irc_status"@ && "irc_send"@ != "irc_quit"@,
        "irc_recv"@ != "irc_status"@ && "irc_recv"@ != "irc_quit"@ && "irc_status"@
            != "irc_quit"@,
{
    reveal_strlit("irc_connect");
    reveal_strlit("irc_send");
    reveal_strlit("irc_recv");
    reveal_strlit("irc_status");
    reveal_strlit("irc_quit");
    assert("irc_connect"@.len() == 11);
    assert("irc_send"@.len() == 8 && "irc_send"@[4] == 's');
    assert("irc_recv"@.len() == 8 && "irc_recv"@[4] == 'r');
    assert("irc_status"@.len() == 10);
    assert("irc_quit"@.len() == 8 && "irc_quit"@[4] == 'q');
}

/// The members of an object.
pub open spec fn members(v: JsonView) -> Map<Seq<char>, JsonView> {
    match v {
        JsonView::Object(m) => m,
        _ => Map::empty(),
    }
}

/// A message is for the method `method`.
pub open spec fn asks_for(msg: JsonView, method: Seq<char>) -> bool {
    members(msg).dom().contains("method"@) && members(msg)["method"@] == JsonView::Text(method)
}

/// A member of an object, or null where there is none.
pub open spec fn member(v: JsonView, name: Seq<char>) -> JsonView {
    if members(v).dom().contains(name) {
        members(v)[name]
    } else {
        JsonView::Null
    }
}

/// The text of a member, if it has one that is a text.
pub open spec fn text_member(v: JsonView, name: Seq<char>) -> Option<Seq<char>> {
    match member(v, name) {
        JsonView::Text(t) => Some(t),
        _ => None,
    }
}

/// The number of a member, if it has one that is a number.
pub open spec fn number_member(v: JsonView, name: Seq<char>) -> Option<serde_json::Number> {
    match member(v, name) {
        JsonView::Number(n) => Some(n),
        _ => None,
    }
}

/// A call runs the tool that it names, and no other: each of the five by its own
/// name, with its own arguments.
pub proof fn law_call_runs_its_tool(pins: Pins, version: Seq<char>, msg: JsonView)
    requires
        asks_for(msg, "tools/call"@),
    ensures
        ({
            let params = member(msg, "params"@);
            let name = text_member(params, "name"@);
            let args = member(params, "arguments"@);
            let r = effect_of(pins, version, msg);
            let id = member(msg, "id"@);
            &&& name == Some("irc_connect"@) ==> r == (Effect::Run { id, call: Call::Connect })
            &&& name == Some("irc_send"@) ==> r == (Effect::Run {
                id,
                call: Call::Send {
                    target: text_member(args, "target"@),
                    message: text_member(args, "message"@),
                },
            })
            &&& name == Some("irc_recv"@) ==> r == (Effect::Run {
                id,
                call: Call::Recv { wait_secs: number_member(args, "wait_secs"@) },
            })
            &&& name == Some("irc_status"@) ==> r == (Effect::Run { id, call: Call::Status })
            &&& name == Some("irc_quit"@) ==> r == (Effect::Run { id, call: Call::Quit })
            &&& name matches Some(n) ==> !tool_names().contains(n) ==> r == (Effect::Run {
                id,
                call: Call::Unknown(n),
            })
            &&& name is None ==> r == (Effect::Run { id, call: Call::Unknown(Seq::empty()) })
        }),
{
    lemma_methods_differ();
    lemma_tools_differ();
    let names = tool_names();
    assert(names[0] == "irc_connect"@);
    assert(names[1] == "irc_send"@);
    assert(names[2] == "irc_recv"@);
    assert(names[3] == "irc_status"@);
    assert(names[4] == "irc_quit"@);
    reveal_strlit("irc_connect");
    reveal_strlit("irc_send");
    reveal_strlit("irc_recv");
    reveal_strlit("irc_status");
    reveal_strlit("irc_quit");
    assert("irc_connect"@.len() > 0 && "irc_send"@.len() > 0 && "irc_recv"@.len() > 0
        && "irc_status"@.len() > 0 && "irc_quit"@.len() > 0);
}

/// A call of a tool stands for itself, with its own arguments.
pub proof fn law_call_stands_for_itself(c: ToolCall)
    ensures
        match c {
            ToolCall::Connect => c@ == Call::Connect,
            ToolCall::Send { target, message } => c@ is Send && c@->target == (match target {
                Some(t) => Some(t@),
                None => None,
            }) && c@->message == (match message {
                Some(t) => Some(t@),
                None => None,
            }),
            ToolCall::Recv { wait_secs } => c@ == (Call::Recv { wait_secs }),
            ToolCall::Status => c@ == Call::Status,
            ToolCall::Quit => c@ == Call::Quit,
            ToolCall::Unknown(name) => c@ == Call::Unknown(name@),
        },
{
}

/// What a message calls for stands for itself.
pub proof fn law_outcome_stands_for_itself(r: Outcome)
    ensures
        match r {
            Outcome::Silent => r@ == Effect::Silent,
            Outcome::Answer(a) => r@ == Effect::Answer(a@),
            Outcome::Run { id, call } => r@ == (Effect::Run { id: id@, call: call@ }),
        },
{
}

/// An object with the given member and no other.
pub open spec fn object_of_one(a: Seq<char>, x: JsonView) -> JsonView {
    JsonView::Object(Map::empty().insert(a, x))
}

/// An object with the two given members and no other.
pub open spec fn object_of_two(a: Seq<char>, x: JsonView, b: Seq<char>, y: JsonView) -> JsonView {
    JsonView::Object(Map::empty().insert(a, x).insert(b, y))
}

/// An object with the three given members and no other.
pub open spec fn object_of_three(
    a: Seq<char>,
    x: JsonView,
    b: Seq<char>,
    y: JsonView,
    c: Seq<char>,
    z: JsonView,
) -> JsonView {
    JsonView::Object(Map::empty().insert(a, x).insert(b, y).insert(c, z))
}

/// The answer with the given result under the given id.
pub open spec fn answers(id: JsonView, result: JsonView) -> Effect {
    Effect::Answer(
        object_of_three("jsonrpc"@, JsonView::Text("2.0"@), "id"@, id, "result"@, result),
    )
}

/// A host that greets the client is told its protocol back, or the default one
/// where it named none, that there are tools, and the client's name and version.
pub proof fn law_greeting(pins: Pins, version: Seq<char>, msg: JsonView)
    requires
        asks_for(msg, "initialize"@),
    ensures
        effect_of(pins, version, msg) == answers(
            member(msg, "id"@),
            object_of_three(
                "protocolVersion"@,
                JsonView::Text(
                    match text_member(member(msg, "params"@), "protocolVersion"@) {
                        Some(p) => p,
                        None => "2024-11-05"@,
                    },
                ),
                "capabilities"@,
                object_of_one("tools"@, JsonView::Object(Map::empty())),
                "serverInfo"@,
                object_of_two(
                    "name"@,
                    JsonView::Text("mcp-irc-client"@),
                    "version"@,
                    JsonView::Text(version),
                ),
            ),
        ),
{
}

/// A ping is answered with nothing, and the question for the tools with the tools.
pub proof fn law_ping_and_list(pins: Pins, version: Seq<char>, msg: JsonView)
    ensures
        asks_for(msg, "ping"@) ==> effect_of(pins, version, msg) == answers(
            member(msg, "id"@),
            JsonView::Object(Map::empty()),
        ),
        asks_for(msg, "tools/list"@) ==> effect_of(pins, version, msg) == answers(
            member(msg, "id"@),
            object_of_one("tools"@, JsonView::Array(tools(pins))),
        ),
{
    lemma_methods_differ();
}

/// A message with an id that asks for no method that there is, or names none, is
/// answered with the error for that, unless it is a notification; one without an
/// id is not answered.
pub proof fn law_no_such_method(pins: Pins, version: Seq<char>, msg: JsonView)
    requires
        !asks_for(msg, "initialize"@) && !asks_for(msg, "ping"@),
        !asks_for(msg, "tools/list"@) && !asks_for(msg, "tools/call"@),
    ensures
        ({
            let method = match text_member(msg, "method"@) {
                Some(m) => m,
                None => Seq::empty(),
            };
            let notifies = method.len() >= 14 && method.take(14) == "notifications/"@;
            let r = effect_of(pins, version, msg);
            &&& members(msg).dom().contains("id"@) && !notifies ==> r == Effect::Answer(
                object_of_three(
                    "jsonrpc"@,
                    JsonView::Text("2.0"@),
                    "id"@,
                    members(msg)["id"@],
                    "error"@,
                    object_of_two(
                        "code"@,
                        JsonView::Number(integer_number((-32601) as i64)),
                        "message"@,
                        JsonView::Text("method not found: "@ + method),
                    ),
                ),
            )
            &&& !members(msg).dom().contains("id"@) || notifies ==> r == Effect::Silent
        }),
{
    reveal_strlit("notifications/");
    reveal_strlit("initialize");
    reveal_strlit("ping");
    reveal_strlit("tools/list");
    reveal_strlit("tools/call");
    assert("notifications/"@.len() == 14);
    assert("initialize"@.len() == 10 && "ping"@.len() == 4 && "tools/list"@.len() == 10
        && "tools/call"@.len() == 10);
    let method = method_of(msg);
    if is_notification(method) {
        assert(method.take(14) =~= "notifications/"@);
    }
    if method.len() >= 14 && method.take(14) == "notifications/"@ {
        assert("notifications/"@.is_prefix_of(method));
    }
}

/// A blank line of input, and one that is not JSON, call for nothing; any other
/// calls for what its message does.
pub proof fn law_input(pins: Pins, version: Seq<char>, line: Seq<char>)
    ensures
        is_blank(line) || text_json(line) is None ==> effect_of_line(pins, version, line)
            == Effect::Silent,
        !is_blank(line) ==> (text_json(line) matches Some(msg) ==> effect_of_line(
            pins,
            version,
            line,
        ) == effect_of(pins, version, msg)),
{
}

/// What a tool said is answered as text that is no error, and why it failed as text
/// that is one; both whole, and under the id of the request.
pub proof fn law_outcome_is_answered(id: JsonView, said: Seq<char>)
    ensures
        ({
            let content = JsonView::Array(
                seq![
                    object_of_two(
                        "type"@,
                        JsonView::Text("text"@),
                        "text"@,
                        JsonView::Text(said),
                    ),
                ],
            );
            &&& outcome_answer(id, Ok(said)) == object_of_three(
                "jsonrpc"@,
                JsonView::Text("2.0"@),
                "id"@,
                id,
                "result"@,
                object_of_two("content"@, content, "isError"@, JsonView::Bool(false)),
            )
            &&& outcome_answer(id, Err(said)) == object_of_three(
                "jsonrpc"@,
                JsonView::Text("2.0"@),
                "id"@,
                id,
                "result"@,
                object_of_two("content"@, content, "isError"@, JsonView::Bool(true)),
            )
        }),
        no_such_tool(said) == "unknown tool: "@ + said,
{
}

/// A tool, with its name, what is said of it, the properties that it takes, and
/// the one that must be given, if there is one.
pub open spec fn offers(
    tool: JsonView,
    name: Seq<char>,
    about: Seq<char>,
    properties: Map<Seq<char>, JsonView>,
    required: Option<Seq<char>>,
) -> bool {
    let takes = JsonView::Object(properties);
    tool == object_of_three(
        "name"@,
        JsonView::Text(name),
        "description"@,
        JsonView::Text(about),
        "inputSchema"@,
        match required {
            Some(r) => object_of_three(
                "type"@,
                JsonView::Text("object"@),
                "properties"@,
                takes,
                "required"@,
                JsonView::Array(seq![JsonView::Text(r)]),
            ),
            None => object_of_two("type"@, JsonView::Text("object"@), "properties"@, takes),
        },
    )
}

/// The tools on offer are five: connecting and quitting and the status take
/// nothing, sending takes a message that must be given and a target, and receiving
/// takes a time. Of connecting it is said under which nick and to which channels.
pub proof fn law_tools_are_described(pins: Pins)
    ensures
        ({
            let none = Map::<Seq<char>, JsonView>::empty();
            &&& tools(pins).len() == 5
            &&& offers(
                tools(pins)[0],
                "irc_connect"@,
                "(Re)connect to the pinned IRC server as '"@ + pins.nick + "' and join "@ + join(
                    pins.channels,
                    " "@,
                )
                    + " (server/nick/channels are fixed at startup and cannot be changed). Replaces any existing connection."@,
                none,
                None,
            )
            &&& offers(
                tools(pins)[1],
                "irc_send"@,
                "Send a message to the pinned channel (default) or as a PM to a nick. Multi-line messages are sent as one PRIVMSG per line. KEEP MESSAGES SHORT: IRC caps a line at ~450 bytes and the server kicks clients for flooding — send at most 2-3 short lines at a time, chat-style, not paragraphs. Split longer thoughts across multiple irc_send calls with pauses in between."@,
                none.insert(
                    "target"@,
                    object_of_two(
                        "type"@,
                        JsonView::Text("string"@),
                        "description"@,
                        JsonView::Text("Pinned channel or a nick (default: the pinned channel)"@),
                    ),
                ).insert(
                    "message"@,
                    object_of_two(
                        "type"@,
                        JsonView::Text("string"@),
                        "description"@,
                        JsonView::Text("Text to send"@),
                    ),
                ),
                Some("message"@),
            )
            &&& offers(
                tools(pins)[2],
                "irc_recv"@,
                "Drain received IRC messages/events. If none are queued, optionally block up to wait_secs for the next one. Returns '(no new messages)' on timeout."@,
                none.insert(
                    "wait_secs"@,
                    object_of_two(
                        "type"@,
                        JsonView::Text("number"@),
                        "description"@,
                        JsonView::Text(
                            "Seconds to block waiting if the queue is empty (0 = return immediately, max 600)"@,
                        ),
                    ),
                ),
                None,
            )
            &&& offers(
                tools(pins)[3],
                "irc_status"@,
                "Show connection state, joined channels, queue depth, and the recent raw server log."@,
                none,
                None,
            )
            &&& offers(tools(pins)[4], "irc_quit"@, "Disconnect from the IRC server."@, none, None)
        }),
{
}

} // verus!
