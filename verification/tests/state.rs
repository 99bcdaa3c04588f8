use mcp_irc_client::state::{
    handle_disconnect, handle_line, push_event, receive, send_failed, send_raw, IrcState, MAX_EVENTS,
    MAX_LOG,
};

fn online() -> IrcState {
    let mut st = IrcState::new();
    st.connected = true;
    st
}

#[test]
fn a_new_state_is_empty() {
    let st = IrcState::new();
    assert!(!st.connected && !st.registered);
    assert_eq!((st.nick.as_str(), st.server.as_str(), st.channels.len()), ("", "", 0));
    assert_eq!((st.messages.len(), st.log.len()), (0, 0));
}

#[test]
fn pings_are_answered_and_not_told() {
    let mut st = online();
    assert_eq!(handle_line(&mut st, 0, "PING :abc def").unwrap(), "PONG :abc def\r\n");
    assert_eq!(handle_line(&mut st, 0, "ping x").unwrap(), "PONG :\r\n");
    assert_eq!(st.messages.len(), 0);
    assert_eq!(st.log, vec!["PING :abc def", "ping x"]);
}

#[test]
fn a_ping_without_connection_is_not_answered() {
    let mut st = IrcState::new();
    assert_eq!(handle_line(&mut st, 0, "PING :abc"), None);
    assert_eq!(st.log.len(), 1);
}

#[test]
fn welcome_registers() {
    let mut st = online();
    assert_eq!(handle_line(&mut st, 0, ":s 001 me :Welcome"), None);
    assert!(st.registered);
    assert_eq!(st.messages.len(), 0);
}

#[test]
fn events_are_queued_in_order() {
    let mut st = online();
    assert_eq!(handle_line(&mut st, 0, ":bob!b@h JOIN #c"), None);
    assert_eq!(handle_line(&mut st, 0, ":bob!b@h PRIVMSG #c :hi"), None);
    assert_eq!(handle_line(&mut st, 0, ":s 372 me :motd"), None);
    assert_eq!(st.messages, vec!["* bob joined #c", "[#c] <bob> hi"]);
    assert_eq!(st.log.len(), 3);
}

#[test]
fn the_queue_keeps_the_newest() {
    let mut st = IrcState::new();
    let mut i: usize = 0;
    while i < MAX_EVENTS + 3 {
        push_event(&mut st, format!("{}", i));
        i += 1;
    }
    assert_eq!(st.messages.len(), 500);
    assert_eq!(st.messages[0], "3");
    assert_eq!(st.messages[499], "502");
}

#[test]
fn the_log_keeps_the_newest() {
    let mut st = IrcState::new();
    let mut i: usize = 0;
    while i < MAX_LOG + 2 {
        handle_line(&mut st, 0, &format!("L{}", i));
        i += 1;
    }
    assert_eq!(st.log.len(), 100);
    assert_eq!(st.log[0], "L2");
    assert_eq!(st.log[99], "L101");
}

#[test]
fn the_end_is_told_even_to_a_full_queue() {
    let mut st = online();
    st.registered = true;
    let mut i: usize = 0;
    while i < MAX_EVENTS {
        push_event(&mut st, "x".to_string());
        i += 1;
    }
    handle_disconnect(&mut st, 0);
    assert!(!st.connected && !st.registered);
    assert_eq!(st.messages.len(), 501);
    assert_eq!(st.messages[500], "* disconnected from server");
    push_event(&mut st, "y".to_string());
    assert_eq!(st.messages.len(), 501);
    assert_eq!(st.messages[500], "y");
}

#[test]
fn lines_are_framed_while_connected() {
    assert_eq!(send_raw(&online(), "NICK me").unwrap(), "NICK me\r\n");
    assert_eq!(send_raw(&IrcState::new(), "NICK me").unwrap_err(), "not connected");
    assert_eq!(send_failed("broken pipe"), "send failed: broken pipe");
}

#[test]
fn a_line_already_taken_apart() {
    let mut st = online();
    let args = vec!["#c".to_string()];
    assert_eq!(receive(&mut st, "raw", "bob", "PART", &args, ""), None);
    assert_eq!(st.messages, vec!["* bob left #c"]);
    assert_eq!(st.log, vec!["raw"]);
}
