use mcp_irc_client::pinned::{names_channel, parse_args, parse_server, Pinned};

fn parse(args: &[&str]) -> Result<Pinned, String> {
    let given: Vec<String> = args.iter().map(|a| a.to_string()).collect();
    parse_args(&given)
}

fn complaint(args: &[&str]) -> String {
    match parse(args) {
        Ok(_) => panic!("accepted"),
        Err(e) => e,
    }
}

const USAGE: &str = "usage: mcp-irc-client --server host[:port] [--server ...] --nick NICK --channel '#chan' [--channel ...]";

#[test]
fn a_full_command_line() {
    let p = parse(&[
        "--server", "lan.example:7000", "--nick", "me", "--channel", "#a", "--server", "localhost",
        "--channel", "&b",
    ])
    .unwrap();
    assert_eq!(
        p.servers,
        vec![("lan.example".to_string(), 7000), ("localhost".to_string(), 6667)]
    );
    assert_eq!(p.nick, "me");
    assert_eq!(p.channels, vec!["#a", "&b"]);
}

#[test]
fn the_last_nick_counts() {
    let p = parse(&["--nick", "a", "--server", "h", "--channel", "#c", "--nick", "b"]).unwrap();
    assert_eq!(p.nick, "b");
}

#[test]
fn each_kind_of_flag_is_needed() {
    assert_eq!(complaint(&[]), USAGE);
    assert_eq!(complaint(&["--nick", "n", "--channel", "#c"]), USAGE);
    assert_eq!(complaint(&["--server", "h", "--channel", "#c"]), USAGE);
    assert_eq!(complaint(&["--server", "h", "--nick", "n"]), USAGE);
}

#[test]
fn a_flag_without_value() {
    assert_eq!(complaint(&["--nick"]), "missing value after --nick");
    assert_eq!(complaint(&["--bogus"]), "missing value after --bogus");
}

#[test]
fn an_unknown_flag() {
    assert_eq!(complaint(&["--bogus", "x", "--nick"]), "unknown flag: --bogus");
    assert_eq!(
        complaint(&["irc.example.net:6667", "my-nick", "#my-channel"]),
        "unknown flag: irc.example.net:6667"
    );
}

#[test]
fn a_bad_port() {
    assert_eq!(complaint(&["--server", "h:x"]), "bad port in 'h:x'");
    assert_eq!(complaint(&["--server", "h:65536"]), "bad port in 'h:65536'");
    assert_eq!(complaint(&["--server", "h:"]), "bad port in 'h:'");
}

#[test]
fn a_bad_channel() {
    assert_eq!(complaint(&["--channel", "c"]), "channel 'c' must start with # or &");
    assert_eq!(complaint(&["--channel", ""]), "channel '' must start with # or &");
}

#[test]
fn the_port_stands_behind_the_last_colon() {
    assert_eq!(parse_server("::1:80").unwrap(), ("::1".to_string(), 80));
    assert_eq!(parse_server("h:+81").unwrap(), ("h".to_string(), 81));
    assert_eq!(parse_server("").unwrap(), ("".to_string(), 6667));
}

#[test]
fn names_of_channels() {
    assert!(names_channel("#c"));
    assert!(names_channel("&c"));
    assert!(!names_channel("c"));
    assert!(!names_channel(""));
}
