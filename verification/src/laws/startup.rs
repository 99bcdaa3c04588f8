//! The command line pins what it names, and nothing else.
use vstd::prelude::*;

use crate::connect::{joins, next_server};
use crate::pinned::{
    DEFAULT_PORT,
    Flags,
    Pinned,
    Pins,
    is_channel,
    pins_of,
    read_flags,
    server_of,
    with_flag,
};
use crate::text::{
    decimal,
    digits_value,
    is_digit,
    last_index,
    numeral_u16,
    without_plus,
};
use crate::state::{Session, frame};
use crate::tools::{is_bare, send_outcome, target_of};

verus! {

// ---- numerals -----------------------------------------------------------------

/// A decimal numeral is made of digits, and they denote its number.
pub proof fn law_decimal(n: nat)
    ensures
        decimal(n).len() > 0,
        forall|i: int| 0 <= i < decimal(n).len() ==> is_digit(#[trigger] decimal(n)[i]),
        digits_value(decimal(n)) == n,
    decreases n,
{
    let d = decimal(n);
    if n < 10 {
        assert(d.drop_last() =~= Seq::empty());
        assert(digits_value(d.drop_last()) == 0);
    } else {
        law_decimal(n / 10);
        assert(d.drop_last() =~= decimal(n / 10));
        assert forall|i: int| 0 <= i < d.len() implies is_digit(#[trigger] d[i]) by {
            if i < d.len() - 1 {
                assert(d[i] == decimal(n / 10)[i]);
            }
        }
    }
}

/// A 16-bit number is read back from its numeral.
pub proof fn law_numeral(n: u16)
    ensures
        numeral_u16(decimal(n as nat)) == Some(n),
{
    law_decimal(n as nat);
    assert(is_digit(decimal(n as nat)[0]));
    assert(without_plus(decimal(n as nat)) == decimal(n as nat));
}

// ---- servers ------------------------------------------------------------------

/// A text without `c` at the end of another hides no `c` of it.
proof fn lemma_last_index_add(s: Seq<char>, t: Seq<char>, c: char)
    requires
        !t.contains(c),
    ensures
        last_index(s + t, c) == last_index(s, c),
    decreases t.len(),
{
    if t.len() == 0 {
        assert(s + t =~= s);
    } else {
        let u = t.drop_last();
        assert((s + t).drop_last() =~= s + u);
        assert(t[t.len() - 1] != c);
        assert forall|i: int| 0 <= i < u.len() implies u[i] != c by {
            assert(u[i] == t[i]);
        }
        lemma_last_index_add(s, u, c);
    }
}

/// A host and a port, as they are written on the command line.
pub open spec fn server_text(server: (Seq<char>, u16)) -> Seq<char> {
    server.0 + seq![':'] + decimal(server.1 as nat)
}

/// A server is read back from its host and port, though the host hold colons of
/// its own; a host by itself, without colons, has the default port.
pub proof fn law_server(host: Seq<char>, port: u16)
    ensures
        server_of(server_text((host, port))) == (Ok::<(Seq<char>, u16), Seq<char>>((host, port))),
        !host.contains(':') ==> server_of(host) == (Ok::<(Seq<char>, u16), Seq<char>>(
            (host, DEFAULT_PORT),
        )),
{
    let d = decimal(port as nat);
    let val = server_text((host, port));
    law_decimal(port as nat);
    law_numeral(port);
    assert forall|i: int| 0 <= i < d.len() implies d[i] != ':' by {
        assert(is_digit(d[i]));
    }
    lemma_last_index_add(host + seq![':'], d, ':');
    assert((host + seq![':']).last() == ':');
    assert(val.take(host.len() as int) =~= host);
    assert(val.skip(host.len() as int + 1) =~= d);
    if !host.contains(':') {
        lemma_last_index_add(Seq::empty(), host, ':');
        assert(Seq::<char>::empty() + host =~= host);
    }
}

// ---- the command line ---------------------------------------------------------

/// Flag number `k` of the command line that names `p`.
pub open spec fn flag_at(p: Pins, k: int) -> Seq<char> {
    if k < p.servers.len() {
        "--server"@
    } else if k == p.servers.len() {
        "--nick"@
    } else {
        "--channel"@
    }
}

/// Its value.
pub open spec fn value_at(p: Pins, k: int) -> Seq<char> {
    if k < p.servers.len() {
        server_text(p.servers[k])
    } else if k == p.servers.len() {
        p.nick
    } else {
        p.channels[k - p.servers.len() - 1]
    }
}

/// How many flags there are on it.
pub open spec fn flag_count(p: Pins) -> nat {
    p.servers.len() + 1 + p.channels.len()
}

/// The command line that names the servers of `p` in order, its nick, and its
/// channels in order.
pub open spec fn command_line(p: Pins) -> Seq<Seq<char>> {
    Seq::new(
        2 * flag_count(p),
        |i: int|
            if i % 2 == 0 {
                flag_at(p, i / 2)
            } else {
                value_at(p, i / 2)
            },
    )
}

/// What its first `k` flags set.
spec fn set_by(p: Pins, k: int) -> Flags {
    let n = p.servers.len() as int;
    Flags {
        servers: if k < n {
            p.servers.take(k)
        } else {
            p.servers
        },
        nick: if k <= n {
            None
        } else {
            Some(p.nick)
        },
        channels: if k <= n {
            Seq::empty()
        } else {
            p.channels.take(k - n - 1)
        },
    }
}

/// The names of the flags differ.
proof fn lemma_flags_differ()
    ensures
        "--server"@ != "--nick"@,
        "--server"@ != "--channel"@,
        "--nick"@ != "--channel"@,
{
    reveal_strlit("--server");
    reveal_strlit("--nick");
    reveal_strlit("--channel");
    assert("--server"@.len() == 8);
    assert("--nick"@.len() == 6);
    assert("--channel"@.len() == 9);
}

/// The rest of the command line sets the rest.
proof fn lemma_read_rest(p: Pins, k: int)
    requires
        p.wf(),
        0 <= k <= flag_count(p),
    ensures
        read_flags(set_by(p, k), command_line(p), 2 * k) == (Ok::<Flags, Seq<char>>(
            set_by(p, flag_count(p) as int),
        )),
    decreases flag_count(p) - k,
{
    let args = command_line(p);
    let n = p.servers.len() as int;
    if k < flag_count(p) {
        lemma_flags_differ();
        let f = set_by(p, k);
        let g = set_by(p, k + 1);
        assert(args[2 * k] == flag_at(p, k));
        assert(args[2 * k + 1] == value_at(p, k));
        if k < n {
            law_server(p.servers[k].0, p.servers[k].1);
            assert(f.servers.push(p.servers[k]) =~= g.servers);
        } else if k == n {
            assert(p.channels.take(0) =~= Seq::empty());
        } else {
            let c = p.channels[k - n - 1];
            assert(is_channel(c));
            assert(f.channels.push(c) =~= g.channels);
        }
        assert(with_flag(f, args[2 * k], args[2 * k + 1]) == (Ok::<Flags, Seq<char>>(g)));
        lemma_read_rest(p, k + 1);
    }
}

/// Whatever can be pinned is pinned by the command line that names it: the
/// servers in their order, the nick, the channels in their order.
pub proof fn law_command_line(p: Pins)
    requires
        p.wf(),
    ensures
        pins_of(command_line(p)) == (Ok::<Pins, Seq<char>>(p)),
{
    let start = set_by(p, 0);
    let end = set_by(p, flag_count(p) as int);
    assert(start =~= Flags::none());
    lemma_read_rest(p, 0);
    assert(end.channels =~= p.channels);
}

/// The arguments hold the flag `flag` with the value `val`.
pub open spec fn is_given(args: Seq<Seq<char>>, flag: Seq<char>, val: Seq<char>) -> bool {
    exists|k: int|
        0 <= k && 2 * k + 1 < args.len() && #[trigger] args[2 * k] == flag && args[2 * k + 1] == val
}

/// The arguments hold a server flag for the given server.
pub open spec fn is_server_given(args: Seq<Seq<char>>, server: (Seq<char>, u16)) -> bool {
    exists|val: Seq<char>|
        is_given(args, "--server"@, val) && #[trigger] server_of(val) == (Ok::<
            (Seq<char>, u16),
            Seq<char>,
        >(server))
}

/// All that `f` has set is given by the arguments.
spec fn all_given(f: Flags, args: Seq<Seq<char>>) -> bool {
    &&& forall|i: int| 0 <= i < f.servers.len() ==> is_server_given(args, #[trigger] f.servers[i])
    &&& f.nick matches Some(n) ==> is_given(args, "--nick"@, n)
    &&& forall|i: int|
        0 <= i < f.channels.len() ==> is_given(args, "--channel"@, #[trigger] f.channels[i])
            && is_channel(f.channels[i])
}

/// Reading on keeps it so.
proof fn lemma_all_given(f: Flags, args: Seq<Seq<char>>, k: int)
    requires
        0 <= k,
        2 * k <= args.len() + 1,
        all_given(f, args),
    ensures
        read_flags(f, args, 2 * k) matches Ok(g) ==> all_given(g, args),
    decreases args.len() + 2 - 2 * k,
{
    if 2 * k + 1 < args.len() {
        let flag = args[2 * k];
        let val = args[2 * k + 1];
        assert(is_given(args, flag, val));
        match with_flag(f, flag, val) {
            Ok(g) => {
                lemma_flags_differ();
                if flag == "--server"@ {
                    let server = server_of(val)->Ok_0;
                    assert(server_of(val) == (Ok::<(Seq<char>, u16), Seq<char>>(server)));
                    assert(is_server_given(args, server));
                    assert forall|i: int| 0 <= i < g.servers.len() implies is_server_given(
                        args,
                        #[trigger] g.servers[i],
                    ) by {
                        if i < f.servers.len() {
                            assert(g.servers[i] == f.servers[i]);
                        }
                    }
                } else if flag == "--channel"@ {
                    assert forall|i: int| 0 <= i < g.channels.len() implies is_given(
                        args,
                        "--channel"@,
                        #[trigger] g.channels[i],
                    ) && is_channel(g.channels[i]) by {
                        if i < f.channels.len() {
                            assert(g.channels[i] == f.channels[i]);
                        }
                    }
                }
                lemma_all_given(g, args, k + 1);
            },
            Err(_) => {},
        }
    }
}

/// What is pinned was given on the command line, every server, the nick and
/// every channel, and none of the three can be left out.
pub proof fn law_pins_are_given(args: Seq<Seq<char>>)
    ensures
        pins_of(args) matches Ok(p) ==> {
            &&& p.wf()
            &&& forall|i: int|
                0 <= i < p.servers.len() ==> is_server_given(args, #[trigger] p.servers[i])
            &&& is_given(args, "--nick"@, p.nick)
            &&& forall|i: int|
                0 <= i < p.channels.len() ==> is_given(
                    args,
                    "--channel"@,
                    #[trigger] p.channels[i],
                )
        },
{
    lemma_all_given(Flags::none(), args, 0);
}

/// A client that was started with `args` dials only servers given there, joins
/// only channels given there, and writes only to a channel given there, named as
/// it was given, or to a bare nick. The nick that it takes is the one given there.
pub proof fn law_client_is_pinned(
    args: Seq<Seq<char>>,
    p: Pins,
    errors: Seq<Seq<char>>,
    s: Session,
    target: Option<Seq<char>>,
    message: Option<Seq<char>>,
)
    requires
        pins_of(args) == (Ok::<Pins, Seq<char>>(p)),
    ensures
        next_server(p, errors) matches Some(server) ==> is_server_given(args, server),
        forall|i: int|
            0 <= i < joins(p.channels).len() ==> {
                &&& #[trigger] joins(p.channels)[i] == frame("JOIN "@ + p.channels[i])
                &&& is_given(args, "--channel"@, p.channels[i])
            },
        is_given(args, "--nick"@, p.nick),
        send_outcome(s, p, target, message) is Ok ==> is_given(
            args,
            "--channel"@,
            target_of(p, target),
        ) || is_bare(target_of(p, target)),
{
    law_pins_are_given(args);
}

// ---- letter by letter ---------------------------------------------------------

/// What a server is named: a host by itself has the usual port, and what stands
/// behind the last colon is the port, whatever colons the host holds; a port that
/// is none is complained of with the whole name.
pub proof fn law_server_names(host: Seq<char>, port: Seq<char>)
    requires
        !port.contains(':'),
    ensures
        !host.contains(':') ==> server_of(host) == (Ok::<(Seq<char>, u16), Seq<char>>(
            (host, 6667),
        )),
        server_of(host + seq![':'] + port) == (match numeral_u16(port) {
            Some(n) => Ok::<(Seq<char>, u16), Seq<char>>((host, n)),
            None => Err("bad port in '"@ + (host + seq![':'] + port) + "'"@),
        }),
{
    let val = host + seq![':'] + port;
    lemma_last_index_add(host + seq![':'], port, ':');
    assert((host + seq![':']).last() == ':');
    assert(val.take(host.len() as int) =~= host);
    assert(val.skip(host.len() as int + 1) =~= port);
    if !host.contains(':') {
        lemma_last_index_add(Seq::empty(), host, ':');
        assert(Seq::<char>::empty() + host =~= host);
    }
}

/// What the arguments set, or what is wrong with them.
pub open spec fn flags_of(args: Seq<Seq<char>>) -> Result<Flags, Seq<char>> {
    read_flags(Flags::none(), args, 0)
}

/// Arguments are read from the first to the last.
proof fn lemma_read_on(f: Flags, args: Seq<Seq<char>>, more: Seq<Seq<char>>, k: int)
    requires
        0 <= k,
        2 * k <= args.len(),
        args.len() % 2 == 0,
    ensures
        read_flags(f, args + more, 2 * k) == (match read_flags(f, args, 2 * k) {
            Ok(g) => read_flags(g, args + more, args.len() as int),
            Err(e) => Err(e),
        }),
    decreases args.len() - 2 * k,
{
    if 2 * k < args.len() {
        let all = args + more;
        assert(all[2 * k] == args[2 * k] && all[2 * k + 1] == args[2 * k + 1]);
        match with_flag(f, args[2 * k], args[2 * k + 1]) {
            Ok(g) => {
                lemma_read_on(g, args, more, k + 1);
            },
            Err(_) => {},
        }
    }
}

/// No arguments set nothing.
pub proof fn law_no_flags()
    ensures
        flags_of(Seq::empty()) matches Ok(f) && f.servers.len() == 0 && f.nick is None
            && f.channels.len() == 0,
{
}

/// One more flag and its value adds a server or a channel behind those before, or
/// sets the nick, or is complained of; what was wrong before is still what is
/// wrong. A flag without a value is complained of by its name.
pub proof fn law_one_more_flag(args: Seq<Seq<char>>, flag: Seq<char>, val: Seq<char>)
    requires
        args.len() % 2 == 0,
    ensures
        ({
            let r = flags_of(args.push(flag).push(val));
            match flags_of(args) {
                Err(e) => r == (Err::<Flags, Seq<char>>(e)) && flags_of(args.push(flag)) == (Err::<
                    Flags,
                    Seq<char>,
                >(e)),
                Ok(f) => {
                    &&& flags_of(args.push(flag)) == (Err::<Flags, Seq<char>>(
                        "missing value after "@ + flag,
                    ))
                    &&& flag == "--server"@ ==> match server_of(val) {
                        Ok(server) => r matches Ok(g) && g.servers == f.servers.push(server)
                            && g.nick == f.nick && g.channels == f.channels,
                        Err(e) => r == (Err::<Flags, Seq<char>>(e)),
                    }
                    &&& flag == "--nick"@ ==> (r matches Ok(g) && g.nick == Some(val) && g.servers
                        == f.servers && g.channels == f.channels)
                    &&& flag == "--channel"@ ==> if val.len() > 0 && (val[0] == '#' || val[0]
                        == '&') {
                        r matches Ok(g) && g.channels == f.channels.push(val) && g.servers
                            == f.servers && g.nick == f.nick
                    } else {
                        r == (Err::<Flags, Seq<char>>(
                            "channel '"@ + val + "' must start with # or &"@,
                        ))
                    }
                    &&& flag != "--server"@ && flag != "--nick"@ && flag != "--channel"@ ==> r == (
                    Err::<Flags, Seq<char>>("unknown flag: "@ + flag))
                },
            }
        }),
{
    lemma_flags_differ();
    let n = args.len() as int;
    let all = args.push(flag).push(val);
    assert(all =~= args + seq![flag, val]);
    assert(args.push(flag) =~= args + seq![flag]);
    lemma_read_on(Flags::none(), args, seq![flag, val], 0);
    lemma_read_on(Flags::none(), args, seq![flag], 0);
    assert(all[n] == flag && all[n + 1] == val);
    match flags_of(args) {
        Ok(f) => {
            match with_flag(f, flag, val) {
                Ok(g) => {
                    assert(read_flags(g, all, n + 2) == (Ok::<Flags, Seq<char>>(g)));
                },
                Err(_) => {},
            }
        },
        Err(_) => {},
    }
}

/// The arguments pin what they set, if that is a server at least, a nick and a
/// channel at least; else the answer is how the program is called.
pub proof fn law_flags_pin(args: Seq<Seq<char>>)
    ensures
        match flags_of(args) {
            Err(e) => pins_of(args) == (Err::<Pins, Seq<char>>(e)),
            Ok(f) => if f.servers.len() > 0 && f.nick is Some && f.channels.len() > 0 {
                pins_of(args) matches Ok(p) && p.servers == f.servers && Some(p.nick) == f.nick
                    && p.channels == f.channels
            } else {
                pins_of(args) == (Err::<Pins, Seq<char>>(
                    "usage: mcp-irc-client --server host[:port] [--server ...] --nick NICK --channel '#chan' [--channel ...]"@,
                ))
            },
        },
{
}

/// What is pinned is what is held, server by server and channel by channel.
pub proof fn law_pins_of_pinned(p: Pinned)
    ensures
        p@.nick == p.nick@,
        p@.servers.len() == p.servers@.len(),
        forall|i: int|
            0 <= i < p.servers@.len() ==> #[trigger] p@.servers[i] == (
                p.servers@[i].0@,
                p.servers@[i].1,
            ),
        p@.channels.len() == p.channels@.len(),
        forall|i: int| 0 <= i < p.channels@.len() ==> #[trigger] p@.channels[i] == p.channels@[i]@,
{
}

/// What is pinned is in order where there is a server and a channel and each
/// channel starts with one of the two signs.
pub proof fn law_pins_in_order(p: Pins)
    ensures
        p.wf() <==> p.servers.len() > 0 && p.channels.len() > 0 && forall|i: int|
            0 <= i < p.channels.len() ==> (#[trigger] p.channels[i]).len() > 0 && (p.channels[i][0]
                == '#' || p.channels[i][0] == '&'),
{
    if p.wf() {
        assert forall|i: int| 0 <= i < p.channels.len() implies (#[trigger] p.channels[i]).len() > 0
            && (p.channels[i][0] == '#' || p.channels[i][0] == '&') by {
            assert(is_channel(p.channels[i]));
        }
    }
}

} // verus!
