use mcp_irc_client::json::{parse_json, Json};
use mcp_irc_client::mcp::{
    answer_call, handle_input, handle_message, tool_call, tools_json, unknown_tool, Outcome, ToolCall,
};
use mcp_irc_client::pinned::Pinned;

fn pinned() -> Pinned {
    Pinned {
        servers: vec![("h".to_string(), 6667)],
        nick: "me".to_string(),
        channels: vec!["#a".to_string(), "#b".to_string()],
    }
}

fn outcome(line: &str) -> Outcome {
    handle_input(&pinned(), "0.1.0", line)
}

fn answered(line: &str) -> String {
    match outcome(line) {
        Outcome::Answer(a) => a.render(),
        _ => panic!("no answer"),
    }
}

fn called(line: &str) -> (String, ToolCall) {
    match outcome(line) {
        Outcome::Run { id, call } => (id.render(), call),
        _ => panic!("no call"),
    }
}

fn silent(line: &str) -> bool {
    matches!(outcome(line), Outcome::Silent)
}

#[test]
fn initializing_echoes_the_protocol() {
    assert_eq!(
        answered("{\"jsonrpc\":\"2.0\",\"id\":1,\"method\":\"initialize\",\"params\":{\"protocolVersion\":\"2025-03-26\"}}"),
        "{\"id\":1,\"jsonrpc\":\"2.0\",\"result\":{\"capabilities\":{\"tools\":{}},\"protocolVersion\":\"2025-03-26\",\"serverInfo\":{\"name\":\"mcp-irc-client\",\"version\":\"0.1.0\"}}}"
    );
}

#[test]
fn initializing_has_a_default_protocol() {
    assert_eq!(
        answered("{\"id\":\"x\",\"method\":\"initialize\"}"),
        "{\"id\":\"x\",\"jsonrpc\":\"2.0\",\"result\":{\"capabilities\":{\"tools\":{}},\"protocolVersion\":\"2024-11-05\",\"serverInfo\":{\"name\":\"mcp-irc-client\",\"version\":\"0.1.0\"}}}"
    );
}

#[test]
fn host_pings_are_answered_even_without_id() {
    assert_eq!(
        answered("{\"id\":[1.5,{\"a\":null}],\"method\":\"ping\"}"),
        "{\"id\":[1.5,{\"a\":null}],\"jsonrpc\":\"2.0\",\"result\":{}}"
    );
    assert_eq!(answered("{\"method\":\"ping\"}"), "{\"id\":null,\"jsonrpc\":\"2.0\",\"result\":{}}");
}

#[test]
fn unknown_methods_are_refused() {
    assert_eq!(
        answered("{\"id\":7,\"method\":\"resources/list\"}"),
        "{\"error\":{\"code\":-32601,\"message\":\"method not found: resources/list\"},\"id\":7,\"jsonrpc\":\"2.0\"}"
    );
    assert_eq!(
        answered("{\"id\":null}"),
        "{\"error\":{\"code\":-32601,\"message\":\"method not found: \"},\"id\":null,\"jsonrpc\":\"2.0\"}"
    );
}

#[test]
fn notifications_and_noise_are_not_answered() {
    assert!(silent("{\"method\":\"notifications/initialized\"}"));
    assert!(silent("{\"id\":1,\"method\":\"notifications/cancelled\"}"));
    assert!(silent("{\"method\":\"other\"}"));
    assert!(silent(""));
    assert!(silent(" \u{3000}\t"));
    assert!(silent("not json"));
    assert!(silent("[{\"id\":1,\"method\":\"ping\"}]"));
    assert!(silent("\"ping\""));
}

#[test]
fn the_tools_on_offer() {
    let listed = tools_json(&pinned()).render();
    let value: serde_json::Value = serde_json::from_str(&listed).unwrap();
    let names: Vec<&str> = value
        .as_array()
        .unwrap()
        .iter()
        .map(|t| t["name"].as_str().unwrap())
        .collect();
    assert_eq!(names, vec!["irc_connect", "irc_send", "irc_recv", "irc_status", "irc_quit"]);
    assert_eq!(
        value[0]["description"].as_str().unwrap(),
        "(Re)connect to the pinned IRC server as 'me' and join #a #b (server/nick/channels are fixed at startup and cannot be changed). Replaces any existing connection."
    );
    assert_eq!(value[0]["inputSchema"].to_string(), "{\"properties\":{},\"type\":\"object\"}");
    assert!(value[1]["description"].as_str().unwrap().contains("flooding \u{2014} send at most"));
    assert_eq!(
        value[1]["inputSchema"].to_string(),
        "{\"properties\":{\"message\":{\"description\":\"Text to send\",\"type\":\"string\"},\"target\":{\"description\":\"Pinned channel or a nick (default: the pinned channel)\",\"type\":\"string\"}},\"required\":[\"message\"],\"type\":\"object\"}"
    );
    assert_eq!(
        value[2]["inputSchema"].to_string(),
        "{\"properties\":{\"wait_secs\":{\"description\":\"Seconds to block waiting if the queue is empty (0 = return immediately, max 600)\",\"type\":\"number\"}},\"type\":\"object\"}"
    );
    assert_eq!(value[3].to_string(), "{\"description\":\"Show connection state, joined channels, queue depth, and the recent raw server log.\",\"inputSchema\":{\"properties\":{},\"type\":\"object\"},\"name\":\"irc_status\"}");
    assert_eq!(value[4].to_string(), "{\"description\":\"Disconnect from the IRC server.\",\"inputSchema\":{\"properties\":{},\"type\":\"object\"},\"name\":\"irc_quit\"}");
    assert_eq!(
        answered("{\"id\":2,\"method\":\"tools/list\"}"),
        format!("{{\"id\":2,\"jsonrpc\":\"2.0\",\"result\":{{\"tools\":{}}}}}", listed)
    );
}

#[test]
fn every_tool_on_offer_can_be_called() {
    for name in ["irc_connect", "irc_send", "irc_recv", "irc_status", "irc_quit"] {
        assert!(!matches!(tool_call(name, &Json::Null), ToolCall::Unknown(_)));
    }
}

#[test]
fn calls_bear_their_arguments() {
    let (id, call) = called("{\"id\":3,\"method\":\"tools/call\",\"params\":{\"name\":\"irc_send\",\"arguments\":{\"target\":\"bob\",\"message\":\"hi\"}}}");
    assert_eq!(id, "3");
    match call {
        ToolCall::Send { target, message } => {
            assert_eq!(target, Some("bob".to_string()));
            assert_eq!(message, Some("hi".to_string()));
        }
        _ => panic!("another call"),
    }
}

#[test]
fn arguments_of_the_wrong_kind_are_none() {
    let (_, call) = called("{\"id\":3,\"method\":\"tools/call\",\"params\":{\"name\":\"irc_send\",\"arguments\":{\"target\":5}}}");
    assert!(matches!(call, ToolCall::Send { target: None, message: None }));
    let (_, call) = called("{\"id\":3,\"method\":\"tools/call\",\"params\":{\"name\":\"irc_recv\",\"arguments\":{\"wait_secs\":\"5\"}}}");
    assert!(matches!(call, ToolCall::Recv { wait_secs: None }));
}

#[test]
fn the_time_to_wait_is_handed_on() {
    let (_, call) = called("{\"method\":\"tools/call\",\"params\":{\"name\":\"irc_recv\",\"arguments\":{\"wait_secs\":2.5}}}");
    match call {
        ToolCall::Recv { wait_secs } => assert_eq!(wait_secs.unwrap().as_f64(), Some(2.5)),
        _ => panic!("another call"),
    }
}

#[test]
fn calls_without_arguments_or_name() {
    let (id, call) = called("{\"method\":\"tools/call\",\"params\":{\"name\":\"irc_quit\"}}");
    assert_eq!(id, "null");
    assert!(matches!(call, ToolCall::Quit));
    let (_, call) = called("{\"id\":1,\"method\":\"tools/call\"}");
    assert!(matches!(call, ToolCall::Unknown(n) if n == ""));
    let (_, call) = called("{\"id\":1,\"method\":\"tools/call\",\"params\":{\"name\":\"irc_fly\"}}");
    assert!(matches!(call, ToolCall::Unknown(n) if n == "irc_fly"));
    assert_eq!(unknown_tool("irc_fly"), "unknown tool: irc_fly");
}

#[test]
fn answers_to_calls() {
    assert_eq!(
        answer_call(Json::integer(4), Ok("done\nnow".to_string())).render(),
        "{\"id\":4,\"jsonrpc\":\"2.0\",\"result\":{\"content\":[{\"text\":\"done\\nnow\",\"type\":\"text\"}],\"isError\":false}}"
    );
    assert_eq!(
        answer_call(Json::Null, Err("not connected".to_string())).render(),
        "{\"id\":null,\"jsonrpc\":\"2.0\",\"result\":{\"content\":[{\"text\":\"not connected\",\"type\":\"text\"}],\"isError\":true}}"
    );
}

#[test]
fn a_message_that_is_already_read() {
    let msg = parse_json("{\"id\":9,\"method\":\"ping\"}").unwrap();
    match handle_message(&pinned(), "v", &msg) {
        Outcome::Answer(a) => assert_eq!(a.get("id").unwrap().render(), "9"),
        _ => panic!("no answer"),
    }
}
