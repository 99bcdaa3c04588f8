use mcp_irc_client::irc::{describe, parse_irc};

fn parts(line: &str) -> (String, String, Vec<String>, String) {
    parse_irc(line)
}

fn told(line: &str) -> Option<String> {
    let (from, cmd, args, trailing) = parse_irc(line);
    describe(&from, &cmd, &args, &trailing)
}

#[test]
fn a_line_with_all_its_parts() {
    let (from, cmd, args, trailing) = parts(":bob!b@host PRIVMSG #c extra :hi :there");
    assert_eq!(from, "bob");
    assert_eq!(cmd, "PRIVMSG");
    assert_eq!(args, vec!["#c", "extra"]);
    assert_eq!(trailing, "hi :there");
}

#[test]
fn a_line_without_prefix() {
    let (from, cmd, args, trailing) = parts("PING :irc.example.net");
    assert_eq!(from, "");
    assert_eq!(cmd, "PING");
    assert!(args.is_empty());
    assert_eq!(trailing, "irc.example.net");
}

#[test]
fn a_prefix_without_exclamation_mark_is_the_sender() {
    let (from, cmd, args, trailing) = parts(":irc.example.net 001 me :Welcome");
    assert_eq!(from, "irc.example.net");
    assert_eq!(cmd, "001");
    assert_eq!(args, vec!["me"]);
    assert_eq!(trailing, "Welcome");
}

#[test]
fn commands_come_in_upper_case() {
    assert_eq!(parts("privmsg #c :x").1, "PRIVMSG");
    assert_eq!(parts("stra\u{df}e").1, "STRASSE");
}

#[test]
fn a_colon_without_a_space_is_no_prefix() {
    let (from, cmd, args, trailing) = parts(":alone");
    assert_eq!(from, "");
    assert_eq!(cmd, ":ALONE");
    assert!(args.is_empty());
    assert_eq!(trailing, "");
}

#[test]
fn an_empty_line_has_empty_parts() {
    let (from, cmd, args, trailing) = parts("");
    assert_eq!((from.as_str(), cmd.as_str(), args.len(), trailing.as_str()), ("", "", 0, ""));
}

#[test]
fn arguments_part_at_any_white_space() {
    let (_, cmd, args, _) = parts("MODE\t#c  +o\u{a0}bob ");
    assert_eq!(cmd, "MODE");
    assert_eq!(args, vec!["#c", "+o", "bob"]);
}

#[test]
fn a_prefix_before_nothing_but_trailing_text() {
    let (from, cmd, args, trailing) = parts(":s  :text");
    assert_eq!(from, "s");
    assert_eq!(cmd, "");
    assert!(args.is_empty());
    assert_eq!(trailing, "text");
}

#[test]
fn messages_and_notices_are_told_alike() {
    assert_eq!(told(":bob!b@h PRIVMSG #c :hi").unwrap(), "[#c] <bob> hi");
    assert_eq!(told(":bob!b@h NOTICE me :psst").unwrap(), "[me] <bob> psst");
    assert_eq!(told(":bob!b@h PRIVMSG :hi").unwrap(), "[] <bob> hi");
}

#[test]
fn joins_name_the_channel_either_way() {
    assert_eq!(told(":bob!b@h JOIN #c").unwrap(), "* bob joined #c");
    assert_eq!(told(":bob!b@h JOIN :#c").unwrap(), "* bob joined #c");
}

#[test]
fn departures_are_told() {
    assert_eq!(told(":bob!b@h PART #c :bye").unwrap(), "* bob left #c");
    assert_eq!(told(":bob!b@h QUIT :gone").unwrap(), "* bob quit (gone)");
    assert_eq!(
        told(":op!o@h KICK #c bob :spam").unwrap(),
        "* bob was kicked from #c by op (spam)"
    );
}

#[test]
fn names_and_topics_are_told() {
    assert_eq!(told(":bob!b@h NICK :rob").unwrap(), "* bob is now known as rob");
    assert_eq!(told(":bob!b@h TOPIC #c :news").unwrap(), "* bob set topic of #c: news");
    assert_eq!(told(":s 353 me = #c :a b c").unwrap(), "* users in #c: a b c");
}

#[test]
fn other_lines_are_not_told() {
    assert_eq!(told("PING :x"), None);
    assert_eq!(told(":s 001 me :Welcome"), None);
    assert_eq!(told(""), None);
}
