//! What is pinned when the client starts: its servers, its nick, its channels.
use vstd::prelude::*;

use crate::text::{
    last_index,
    numeral_u16,
    parse_u16,
    same_text,
    search_last,
    starts,
    starts_with,
    texts,
};

verus! {

/// The port of a server that is named without one.
pub const DEFAULT_PORT: u16 = 6667;

/// Values fixed for the lifetime of the process.
pub struct Pinned {
    /// The servers to try, in order.
    pub servers: Vec<(String, u16)>,
    pub nick: String,
    pub channels: Vec<String>,
}

/// What a `Pinned` stands for.
#[verifier::ext_equal]
pub struct Pins {
    pub servers: Seq<(Seq<char>, u16)>,
    pub nick: Seq<char>,
    pub channels: Seq<Seq<char>>,
}

/// The hosts and ports held by a row of servers.
pub open spec fn endpoints(v: Seq<(String, u16)>) -> Seq<(Seq<char>, u16)> {
    v.map_values(|s: (String, u16)| (s.0@, s.1))
}

impl View for Pinned {
    type V = Pins;

    open spec fn view(&self) -> Pins {
        Pins {
            servers: endpoints(self.servers@),
            nick: self.nick@,
            channels: texts(self.channels@),
        }
    }
}

/// The name of a channel starts with `#` or `&`.
pub open spec fn is_channel(s: Seq<char>) -> bool {
    starts_with(s, '#') || starts_with(s, '&')
}

/// Whether `s` names a channel.
pub fn names_channel(s: &str) -> (r: bool)
    ensures
        r == is_channel(s@),
{
    starts(s, '#') || starts(s, '&')
}

impl Pins {
    /// There is a server to connect to and a channel to join, and every channel
    /// is one.
    pub open spec fn wf(self) -> bool {
        &&& self.servers.len() > 0
        &&& self.channels.len() > 0
        &&& forall|i: int| 0 <= i < self.channels.len() ==> is_channel(#[trigger] self.channels[i])
    }
}

// ---- the command line ---------------------------------------------------------

/// What the flags read so far have set.
#[verifier::ext_equal]
pub struct Flags {
    pub servers: Seq<(Seq<char>, u16)>,
    pub nick: Option<Seq<char>>,
    pub channels: Seq<Seq<char>>,
}

impl Flags {
    /// No flag read yet.
    pub open spec fn none() -> Flags {
        Flags { servers: Seq::empty(), nick: None, channels: Seq::empty() }
    }
}

/// The host and port that a server's name stands for, or the complaint about
/// it. The port stands behind the last colon, if there is one.
pub open spec fn server_of(val: Seq<char>) -> Result<(Seq<char>, u16), Seq<char>> {
    match last_index(val, ':') {
        Some(i) => match numeral_u16(val.skip(i + 1)) {
            Some(port) => Ok((val.take(i), port)),
            None => Err("bad port in '"@ + val + "'"@),
        },
        None => Ok((val, DEFAULT_PORT)),
    }
}

/// What one flag and its value make of the flags before it, or the complaint
/// about them.
pub open spec fn with_flag(f: Flags, flag: Seq<char>, val: Seq<char>) -> Result<Flags, Seq<char>> {
    if flag == "--server"@ {
        match server_of(val) {
            Ok(s) => Ok(Flags { servers: f.servers.push(s), ..f }),
            Err(e) => Err(e),
        }
    } else if flag == "--nick"@ {
        Ok(Flags { nick: Some(val), ..f })
    } else if flag == "--channel"@ {
        if is_channel(val) {
            Ok(Flags { channels: f.channels.push(val), ..f })
        } else {
            Err("channel '"@ + val + "' must start with # or &"@)
        }
    } else {
        Err("unknown flag: "@ + flag)
    }
}

/// What the arguments from number `i` on make of the flags before them, or the
/// complaint about the first that is wrong.
pub open spec fn read_flags(f: Flags, args: Seq<Seq<char>>, i: int) -> Result<Flags, Seq<char>>
    decreases args.len() - i,
{
    if i >= args.len() {
        Ok(f)
    } else if i + 1 == args.len() {
        Err("missing value after "@ + args[i])
    } else {
        match with_flag(f, args[i], args[i + 1]) {
            Ok(g) => read_flags(g, args, i + 2),
            Err(e) => Err(e),
        }
    }
}

/// How the program is called.
pub open spec fn usage() -> Seq<char> {
    "usage: mcp-irc-client --server host[:port] [--server ...] --nick NICK --channel '#chan' [--channel ...]"@
}

/// What the arguments pin, or the complaint about them.
pub open spec fn pins_of(args: Seq<Seq<char>>) -> Result<Pins, Seq<char>> {
    match read_flags(Flags::none(), args, 0) {
        Ok(f) => match f.nick {
            Some(nick) => if f.servers.len() == 0 || f.channels.len() == 0 {
                Err(usage())
            } else {
                Ok(Pins { servers: f.servers, nick, channels: f.channels })
            },
            None => Err(usage()),
        },
        Err(e) => Err(e),
    }
}

/// Reads the name of a server.
pub fn parse_server(val: &str) -> (r: Result<(String, u16), String>)
    ensures
        match r {
            Ok(s) => server_of(val@) == (Ok::<(Seq<char>, u16), Seq<char>>((s.0@, s.1))),
            Err(e) => server_of(val@) == (Err::<(Seq<char>, u16), Seq<char>>(e@)),
        },
{
    match search_last(val, ':') {
        Some(i) => {
            let end: usize = val.unicode_len();
            let host = val.substring_char(0, i);
            let port = val.substring_char(i + 1, end);
            assert(host@ =~= val@.take(i as int));
            assert(port@ =~= val@.skip(i + 1));
            match parse_u16(port) {
                Some(p) => Ok((host.to_owned(), p)),
                None => Err("bad port in '".to_owned().concat(val).concat("'")),
            }
        },
        None => Ok((val.to_owned(), DEFAULT_PORT)),
    }
}

/// Reads the arguments of the program, its name not among them.
pub fn parse_args(args: &Vec<String>) -> (r: Result<Pinned, String>)
    ensures
        match r {
            Ok(p) => pins_of(texts(args@)) == (Ok::<Pins, Seq<char>>(p@)) && p@.wf(),
            Err(e) => pins_of(texts(args@)) == (Err::<Pins, Seq<char>>(e@)),
        },
{
    let ghost given = texts(args@);
    let mut servers: Vec<(String, u16)> = Vec::new();
    let mut nick: Option<String> = None;
    let mut channels: Vec<String> = Vec::new();
    let mut i: usize = 0;
    let ghost mut f = Flags::none();
    assert(endpoints(servers@) =~= f.servers);
    assert(texts(channels@) =~= f.channels);
    while i < args.len()
        invariant
            given == texts(args@),
            i <= args.len(),
            f.servers == endpoints(servers@),
            f.channels == texts(channels@),
            match nick {
                Some(n) => f.nick == Some(n@),
                None => f.nick is None,
            },
            forall|k: int| 0 <= k < f.channels.len() ==> is_channel(#[trigger] f.channels[k]),
            read_flags(Flags::none(), given, 0) == read_flags(f, given, i as int),
        decreases args.len() - i,
    {
        let flag = args[i].as_str();
        assert(flag@ == given[i as int]);
        if i + 1 == args.len() {
            return Err("missing value after ".to_owned().concat(flag));
        }
        let val = args[i + 1].as_str();
        assert(val@ == given[i + 1]);
        if same_text(flag, "--server") {
            match parse_server(val) {
                Ok(s) => {
                    proof {
                        f = Flags { servers: f.servers.push((s.0@, s.1)), ..f };
                    }
                    servers.push(s);
                    assert(endpoints(servers@) =~= f.servers);
                },
                Err(e) => {
                    return Err(e);
                },
            }
        } else if same_text(flag, "--nick") {
            proof {
                f = Flags { nick: Some(val@), ..f };
            }
            nick = Some(val.to_owned());
        } else if same_text(flag, "--channel") {
            if !names_channel(val) {
                return Err(
                    "channel '".to_owned().concat(val).concat("' must start with # or &"),
                );
            }
            proof {
                f = Flags { channels: f.channels.push(val@), ..f };
            }
            channels.push(val.to_owned());
            assert(texts(channels@) =~= f.channels);
        } else {
            return Err("unknown flag: ".to_owned().concat(flag));
        }
        i += 2;
    }
    match nick {
        Some(n) => {
            if servers.len() == 0 || channels.len() == 0 {
                Err(usage_text())
            } else {
                Ok(Pinned { servers, nick: n, channels })
            }
        },
        None => Err(usage_text()),
    }
}

/// How the program is called.
fn usage_text() -> (r: String)
    ensures
        r@ == usage(),
{
    "usage: mcp-irc-client --server host[:port] [--server ...] --nick NICK --channel '#chan' [--channel ...]".to_owned()
}

} // verus!
