use mcp_irc_client::pinned::Pinned;
use mcp_irc_client::state::{handle_disconnect, handle_line, push_event, IrcState};
use mcp_irc_client::tools::{
    send_next, tool_quit, tool_recv, tool_send, tool_status, RecvStep, SendStep,
};

fn pinned() -> Pinned {
    Pinned {
        servers: vec![("h".to_string(), 6667)],
        nick: "me".to_string(),
        channels: vec!["#a".to_string(), "&b".to_string()],
    }
}

fn online() -> IrcState {
    let mut st = IrcState::new();
    st.connected = true;
    st.nick = "me".to_string();
    st.server = "h:6667".to_string();
    st.channels = vec!["#a".to_string(), "&b".to_string()];
    st
}

fn refusal(st: &IrcState, target: Option<&str>, message: Option<&str>) -> String {
    match tool_send(st, &pinned(), target, message) {
        Ok(_) => panic!("accepted"),
        Err(e) => e,
    }
}

fn reply(step: RecvStep) -> String {
    match step {
        RecvStep::Reply(t) => t,
        RecvStep::Wait(_) => panic!("waits"),
    }
}

#[test]
fn one_message_for_each_line() {
    let plan = tool_send(&online(), &pinned(), None, Some("one\r\n\n  \ntwo \n")).unwrap();
    assert_eq!(plan.frames, vec!["PRIVMSG #a :one\r\n", "PRIVMSG #a :two \r\n"]);
    assert_eq!(plan.report, "sent 2 line(s) to #a");
}

#[test]
fn pinned_channels_and_nicks_can_be_written_to() {
    let plan = tool_send(&online(), &pinned(), Some("&b"), Some("x")).unwrap();
    assert_eq!(plan.frames, vec!["PRIVMSG &b :x\r\n"]);
    let plan = tool_send(&online(), &pinned(), Some("bob"), Some("x")).unwrap();
    assert_eq!(plan.frames, vec!["PRIVMSG bob :x\r\n"]);
    assert_eq!(plan.report, "sent 1 line(s) to bob");
}

#[test]
fn other_channels_cannot_be_written_to() {
    assert_eq!(
        refusal(&online(), Some("#secret"), Some("x")),
        "target '#secret' is not a pinned channel (allowed: #a &b)"
    );
    assert_eq!(
        refusal(&IrcState::new(), Some("&a"), None),
        "target '&a' is not a pinned channel (allowed: #a &b)"
    );
}

#[test]
fn a_message_is_needed() {
    assert_eq!(refusal(&online(), None, None), "missing 'message'");
}

#[test]
fn sending_needs_a_connection_and_something_to_send() {
    assert_eq!(refusal(&IrcState::new(), None, Some("x")), "not connected");
    let plan = tool_send(&IrcState::new(), &pinned(), None, Some(" \n")).unwrap();
    assert!(plan.frames.is_empty());
    assert_eq!(plan.report, "sent 0 line(s) to #a");
}

#[test]
fn receiving_drains_the_queue() {
    let mut st = online();
    push_event(&mut st, "a".to_string());
    push_event(&mut st, "b".to_string());
    assert_eq!(reply(tool_recv(&mut st, 0, 5)), "a\nb");
    assert!(st.messages.is_empty());
    assert_eq!(reply(tool_recv(&mut st, 0, 0)), "(no new messages)");
}

#[test]
fn receiving_waits_while_there_is_time() {
    let mut st = online();
    assert!(matches!(tool_recv(&mut st, 2, 5), RecvStep::Wait(3)));
    assert_eq!(reply(tool_recv(&mut st, 5, 5)), "(no new messages)");
    push_event(&mut st, "a".to_string());
    assert_eq!(reply(tool_recv(&mut st, 9, 5)), "a");
}

#[test]
fn what_was_heard_is_received_in_order() {
    let mut st = online();
    handle_line(&mut st, 0, ":a!u@h PRIVMSG #a :1");
    handle_line(&mut st, 0, "PING :x");
    handle_line(&mut st, 0, ":b!u@h PRIVMSG #a :2");
    handle_disconnect(&mut st, 0);
    assert_eq!(
        reply(tool_recv(&mut st, 0, 0)),
        "[#a] <a> 1\n[#a] <b> 2\n* disconnected from server"
    );
}

#[test]
fn status_of_a_connection() {
    let mut st = online();
    let mut i: usize = 0;
    while i < 12 {
        handle_line(&mut st, 0, &format!("L{}", i));
        i += 1;
    }
    push_event(&mut st, "e".to_string());
    assert_eq!(
        tool_status(&st),
        "connected to h:6667 as me (registered=false), channels: #a &b, 1 queued message(s)\nrecent raw log:\nL2\nL3\nL4\nL5\nL6\nL7\nL8\nL9\nL10\nL11"
    );
}

#[test]
fn status_without_channels_or_log() {
    let mut st = online();
    st.registered = true;
    st.channels = Vec::new();
    assert_eq!(
        tool_status(&st),
        "connected to h:6667 as me (registered=true), channels: (none), 0 queued message(s)\nrecent raw log:\n"
    );
    assert_eq!(tool_status(&IrcState::new()), "not connected");
}

#[test]
fn quitting_once_and_twice() {
    let mut st = online();
    st.registered = true;
    let plan = tool_quit(&mut st);
    assert_eq!(plan.farewell.unwrap(), "QUIT :leaving\r\n");
    assert_eq!(plan.report, "disconnected");
    assert!(!st.connected && !st.registered);
    let plan = tool_quit(&mut st);
    assert!(plan.farewell.is_none());
    assert_eq!(plan.report, "already disconnected");
    assert_eq!(tool_status(&st), "not connected");
    assert_eq!(refusal(&st, None, Some("x")), "not connected");
}

#[test]
fn the_lines_sent_are_those_of_str_lines() {
    for m in ["", "a", "a\n", "a\nb", "a\r\nb\r\n", "\n", "\n\n x", " \r\n\t\r\nz"] {
        let expected: Vec<String> = m
            .lines()
            .filter(|l| !l.trim().is_empty())
            .map(|l| format!("PRIVMSG #a :{}\r\n", l))
            .collect();
        assert_eq!(tool_send(&online(), &pinned(), None, Some(m)).unwrap().frames, expected);
    }
}

#[test]
fn a_carriage_return_ends_a_line() {
    let plan = tool_send(&online(), &pinned(), None, Some("hi\rNICK other\r\r\nend\r")).unwrap();
    assert_eq!(
        plan.frames,
        vec!["PRIVMSG #a :hi\r\n", "PRIVMSG #a :NICK other\r\n", "PRIVMSG #a :end\r\n"]
    );
    assert_eq!(plan.report, "sent 3 line(s) to #a");
}

#[test]
fn a_target_is_one_name() {
    for t in [
        "bob,#secret", "#a,#secret", "#a,&b", "bob,alice", "bob #secret", "x :y\r\nNICK other",
        "x\ry", "x\ny", ",", " ",
    ] {
        assert_eq!(
            refusal(&online(), Some(t), Some("hi")),
            format!("target '{}' is not a pinned channel (allowed: #a &b)", t)
        );
    }
}

#[test]
fn a_pinned_channel_is_written_to_as_it_was_given() {
    let mut p = pinned();
    p.channels = vec!["#a,#b".to_string()];
    let plan = tool_send(&online(), &p, None, Some("x")).unwrap();
    assert_eq!(plan.frames, vec!["PRIVMSG #a,#b :x\r\n"]);
    assert!(tool_send(&online(), &p, Some("#a"), Some("x")).is_err());
}

#[test]
fn a_write_that_fails_ends_a_message() {
    let plan = tool_send(&online(), &pinned(), None, Some("one\ntwo")).unwrap();
    assert!(matches!(send_next(&plan, 0, None), SendStep::Write(f) if f == "PRIVMSG #a :one\r\n"));
    assert!(matches!(send_next(&plan, 1, None), SendStep::Write(f) if f == "PRIVMSG #a :two\r\n"));
    assert!(matches!(
        send_next(&plan, 2, None),
        SendStep::Report(Ok(t)) if t == "sent 2 line(s) to #a"
    ));
    assert!(matches!(
        send_next(&plan, 1, Some("broken pipe")),
        SendStep::Report(Err(e)) if e == "send failed: broken pipe"
    ));
}

#[test]
fn nobody_waits_for_more_than_ten_minutes() {
    let mut st = online();
    let most: u128 = 600_000_000_000;
    assert!(matches!(tool_recv(&mut st, 0, u128::MAX), RecvStep::Wait(n) if n == most));
    assert!(matches!(tool_recv(&mut st, most - 1, most + 5), RecvStep::Wait(1)));
    assert_eq!(reply(tool_recv(&mut st, most, most + 5)), "(no new messages)");
}
