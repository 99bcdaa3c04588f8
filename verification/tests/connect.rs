use mcp_irc_client::connect::{
    connect_start, connect_step, follows, registration, ConnectAction, ConnectEvent, ConnectPhase,
    RegisterStep, REGISTRATION_TIME,
};
use mcp_irc_client::pinned::Pinned;
use mcp_irc_client::state::{handle_disconnect, handle_line, push_event, IrcState};

fn pinned() -> Pinned {
    Pinned {
        servers: vec![("lan".to_string(), 7000), ("localhost".to_string(), 6667)],
        nick: "me".to_string(),
        channels: vec!["#a".to_string(), "#b".to_string()],
    }
}

fn step(
    phase: ConnectPhase,
    st: &mut IrcState,
    event: ConnectEvent,
) -> (ConnectPhase, ConnectAction) {
    assert!(follows(&phase, &pinned(), &event));
    connect_step(phase, st, &pinned(), event)
}

fn dialed(action: ConnectAction) -> (String, u16) {
    match action {
        ConnectAction::Dial { host, port } => (host, port),
        _ => panic!("no dial"),
    }
}

fn written(action: ConnectAction) -> Vec<String> {
    match action {
        ConnectAction::Write { frames } => frames,
        _ => panic!("no write"),
    }
}

fn reported(action: ConnectAction) -> Result<String, String> {
    match action {
        ConnectAction::Report(out) => out,
        _ => panic!("no report"),
    }
}

fn unreachable_for(reason: &str) -> ConnectEvent {
    ConnectEvent::Unreachable { reason: reason.to_string() }
}

#[test]
fn a_connection_from_start_to_end() {
    let mut st = IrcState::new();
    push_event(&mut st, "old".to_string());
    st.registered = true;
    handle_line(&mut st, 0, "old line");
    let (phase, action) = connect_start(&pinned());
    assert_eq!(dialed(action), ("lan".to_string(), 7000));
    let (phase, action) = step(phase, &mut st, ConnectEvent::Reached);
    assert_eq!(
        written(action),
        vec!["NICK me\r\n", "USER me 0 * :me (mcp-irc-client)\r\n"]
    );
    assert!(st.connected && !st.registered && st.messages.is_empty());
    assert_eq!((st.server.as_str(), st.nick.as_str()), ("lan:7000", "me"));
    assert_eq!(st.channels, vec!["#a", "#b"]);
    assert_eq!(st.log, vec!["old line"]);
    let (phase, action) = step(phase, &mut st, ConnectEvent::Written);
    assert!(matches!(action, ConnectAction::Listen));
    let (phase, action) = step(phase, &mut st, ConnectEvent::Listened { waited: 0 });
    assert!(matches!(action, ConnectAction::Sleep));
    handle_line(&mut st, 1, ":lan 001 me :Welcome");
    let (phase, action) = step(phase, &mut st, ConnectEvent::Listened { waited: 1 });
    assert_eq!(written(action), vec!["JOIN #a\r\n", "JOIN #b\r\n"]);
    let (phase, action) = step(phase, &mut st, ConnectEvent::Written);
    assert_eq!(reported(action).unwrap(), "connected to lan:7000 as me, joined #a #b");
    assert!(matches!(phase, ConnectPhase::Done));
}

#[test]
fn servers_are_tried_in_order() {
    let mut st = IrcState::new();
    let (phase, _) = connect_start(&pinned());
    let (phase, action) = step(phase, &mut st, unreachable_for("refused"));
    assert_eq!(dialed(action), ("localhost".to_string(), 6667));
    let (phase, action) = step(phase, &mut st, unreachable_for("timed out"));
    assert_eq!(
        reported(action).unwrap_err(),
        "connect lan:7000 failed: refused; connect localhost:6667 failed: timed out"
    );
    assert!(matches!(phase, ConnectPhase::Done));
    assert!(!st.connected);
}

#[test]
fn the_second_server_is_named_when_it_is_reached() {
    let mut st = IrcState::new();
    let (phase, _) = connect_start(&pinned());
    let (phase, _) = step(phase, &mut st, unreachable_for("refused"));
    let (_, _) = step(phase, &mut st, ConnectEvent::Reached);
    assert_eq!(st.server, "localhost:6667");
}

#[test]
fn without_servers_there_is_nothing_to_dial() {
    let mut p = pinned();
    p.servers = Vec::new();
    let (_, action) = connect_start(&p);
    assert_eq!(reported(action).unwrap_err(), "");
}

#[test]
fn failures_end_the_attempt() {
    let mut st = IrcState::new();
    let (phase, _) = connect_start(&pinned());
    let event = ConnectEvent::SetupFailed { reason: "no handles".to_string() };
    let (_, action) = step(phase, &mut st, event);
    assert_eq!(reported(action).unwrap_err(), "no handles");
    assert!(!st.connected);

    let (phase, _) = connect_start(&pinned());
    let (phase, _) = step(phase, &mut st, ConnectEvent::Reached);
    let event = ConnectEvent::WriteFailed { reason: "broken pipe".to_string() };
    let (_, action) = step(phase, &mut st, event);
    assert_eq!(reported(action).unwrap_err(), "send failed: broken pipe");
    assert!(st.connected);
}

#[test]
fn the_server_has_ten_seconds() {
    let mut st = IrcState::new();
    let (phase, _) = connect_start(&pinned());
    let (phase, _) = step(phase, &mut st, ConnectEvent::Reached);
    let (phase, _) = step(phase, &mut st, ConnectEvent::Written);
    let event = ConnectEvent::Listened { waited: REGISTRATION_TIME };
    let (phase, action) = step(phase, &mut st, event);
    assert!(matches!(action, ConnectAction::Sleep));
    let event = ConnectEvent::Listened { waited: 10_000_000_001 };
    let (_, action) = step(phase, &mut st, event);
    assert_eq!(
        reported(action).unwrap_err(),
        "timed out waiting for IRC registration (001)"
    );
}

#[test]
fn the_server_may_go_before_it_welcomes() {
    let mut st = IrcState::new();
    let (phase, _) = connect_start(&pinned());
    let (phase, _) = step(phase, &mut st, ConnectEvent::Reached);
    let (phase, _) = step(phase, &mut st, ConnectEvent::Written);
    handle_disconnect(&mut st, 1);
    let event = ConnectEvent::Listened { waited: 20_000_000_000 };
    let (_, action) = step(phase, &mut st, event);
    assert_eq!(
        reported(action).unwrap_err(),
        "server closed the connection during registration"
    );
}

#[test]
fn joining_needs_a_connection_unless_there_is_nothing_to_join() {
    let mut st = IrcState::new();
    st.registered = true;
    st.server = "h:1".to_string();
    assert!(matches!(
        registration(&st, &pinned(), 0),
        RegisterStep::Fail(e) if e == "not connected"
    ));
    let mut p = pinned();
    p.channels = Vec::new();
    match registration(&st, &p, 0) {
        RegisterStep::Join { frames, report } => {
            assert!(frames.is_empty());
            assert_eq!(report, "connected to h:1 as me");
        }
        _ => panic!("no join"),
    }
}

#[test]
fn events_follow_what_was_done() {
    let p = pinned();
    let (phase, _) = connect_start(&p);
    assert!(follows(&phase, &p, &ConnectEvent::Reached));
    assert!(!follows(&phase, &p, &ConnectEvent::Written));
    assert!(!follows(&ConnectPhase::Done, &p, &ConnectEvent::Reached));
    assert!(follows(&ConnectPhase::Registering, &p, &ConnectEvent::Listened { waited: 0 }));
    assert!(follows(&ConnectPhase::Introducing, &p, &ConnectEvent::Written));
}

fn connected_anew(st: &mut IrcState) -> u64 {
    let (phase, _) = connect_start(&pinned());
    let (phase, _) = step(phase, st, ConnectEvent::Reached);
    let connection = st.connection;
    let (phase, _) = step(phase, st, ConnectEvent::Written);
    handle_line(st, connection, ":lan 001 me :Welcome");
    let (phase, _) = step(phase, st, ConnectEvent::Listened { waited: 1 });
    let (_, action) = step(phase, st, ConnectEvent::Written);
    assert!(reported(action).is_ok());
    connection
}

#[test]
fn a_connection_replaces_the_one_before() {
    let mut st = IrcState::new();
    let first = connected_anew(&mut st);
    handle_line(&mut st, first, ":a!u@h PRIVMSG #a :1");
    assert_eq!(st.messages.len(), 1);
    let second = connected_anew(&mut st);
    assert_eq!((first, second), (1, 2));
    assert!(st.messages.is_empty());
    let logged = st.log.len();
    assert_eq!(handle_line(&mut st, first, ":a!u@h PRIVMSG #a :2"), None);
    assert_eq!(handle_line(&mut st, first, "PING :x"), None);
    handle_disconnect(&mut st, first);
    assert!(st.connected && st.registered && st.messages.is_empty());
    assert_eq!(st.log.len(), logged);
    assert_eq!(handle_line(&mut st, second, "PING :x").unwrap(), "PONG :x\r\n");
    handle_line(&mut st, second, ":a!u@h PRIVMSG #a :3");
    assert_eq!(st.messages, vec!["[#a] <a> 3"]);
    handle_disconnect(&mut st, second);
    assert!(!st.connected && !st.registered);
}

#[test]
fn a_replaced_connection_does_not_register() {
    let mut st = IrcState::new();
    let first = connected_anew(&mut st);
    let (phase, _) = connect_start(&pinned());
    let (phase, _) = step(phase, &mut st, ConnectEvent::Reached);
    let (phase, _) = step(phase, &mut st, ConnectEvent::Written);
    handle_line(&mut st, first, ":lan 001 me :Welcome");
    assert!(!st.registered);
    handle_disconnect(&mut st, first);
    let (_, action) = step(phase, &mut st, ConnectEvent::Listened { waited: 1 });
    assert!(matches!(action, ConnectAction::Sleep));
}

#[test]
fn after_the_largest_number_connections_count_from_zero() {
    let mut st = IrcState::new();
    st.connection = u64::MAX;
    assert_eq!(connected_anew(&mut st), 0);
}
