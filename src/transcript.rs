use vstd::prelude::*;

use crate::config::{opt_view, Config};
use crate::ttl::{decimal_string, decimal_text};

verus! {

/// The kind of address record a line updates.
#[derive(Clone, Copy, Debug, PartialEq, Eq, Structural)]
pub enum RecordType {
    /// An IPv4 address record.
    A,
    /// An IPv6 address record.
    Aaaa,
}

/// One line of an update script, as the update tool reads it.
pub enum Command {
    /// Authenticate with a TSIG key.
    Key { algorithm: String, name: String, secret: String },
    /// Select the server to update.
    Server { host: String },
    /// Select the zone to update (the name carries no trailing dot).
    Zone { name: String },
    /// Delete the records of a type at a domain.
    Delete { domain: String, rtype: RecordType },
    /// Add a record of a type at a domain.
    Add { domain: String, ttl: usize, rtype: RecordType, address: String },
    /// Submit the update.
    Send,
    /// End the session.
    Quit,
}

/// A command, with its texts as character sequences.
pub enum CommandView {
    Key { algorithm: Seq<char>, name: Seq<char>, secret: Seq<char> },
    Server { host: Seq<char> },
    Zone { name: Seq<char> },
    Delete { domain: Seq<char>, rtype: RecordType },
    Add { domain: Seq<char>, ttl: usize, rtype: RecordType, address: Seq<char> },
    Send,
    Quit,
}

impl View for Command {
    type V = CommandView;

    open spec fn view(&self) -> CommandView {
        match self {
            Command::Key { algorithm, name, secret } => CommandView::Key {
                algorithm: algorithm@,
                name: name@,
                secret: secret@,
            },
            Command::Server { host } => CommandView::Server { host: host@ },
            Command::Zone { name } => CommandView::Zone { name: name@ },
            Command::Delete { domain, rtype } => CommandView::Delete {
                domain: domain@,
                rtype: *rtype,
            },
            Command::Add { domain, ttl, rtype, address } => CommandView::Add {
                domain: domain@,
                ttl: *ttl,
                rtype: *rtype,
                address: address@,
            },
            Command::Send => CommandView::Send,
            Command::Quit => CommandView::Quit,
        }
    }
}

/// The addresses found for this host: IPv4 always, IPv6 where one was found.
pub struct PublicIps {
    pub v4: String,
    pub v6: Option<String>,
}

/// The views of a list of commands.
pub open spec fn command_views(v: Seq<Command>) -> Seq<CommandView> {
    v.map_values(|c: Command| c@)
}

/// Authentication, server and zone selection, in that order.
pub open spec fn header(c: Config) -> Seq<CommandView> {
    seq![
        CommandView::Key { algorithm: c.tsig_hmac@, name: c.tsig_key@, secret: c.tsig_secret@ },
        CommandView::Server { host: c.server@ },
        CommandView::Zone { name: c.zone@ },
    ]
}

/// For each domain in order, the deletion of its A records and the addition
/// of one that carries `v4`.
pub open spec fn a_block(domains: Seq<Seq<char>>, ttl: usize, v4: Seq<char>) -> Seq<CommandView>
    decreases domains.len(),
{
    if domains.len() == 0 {
        Seq::empty()
    } else {
        a_block(domains.drop_last(), ttl, v4).push(
            CommandView::Delete { domain: domains.last(), rtype: RecordType::A },
        ).push(CommandView::Add { domain: domains.last(), ttl, rtype: RecordType::A, address: v4 })
    }
}

/// For each domain in order, the deletion of its AAAA records, followed, where
/// an IPv6 address is known, by the addition of one that carries it.
pub open spec fn aaaa_block(
    domains: Seq<Seq<char>>,
    ttl: usize,
    v6: Option<Seq<char>>,
) -> Seq<CommandView>
    decreases domains.len(),
{
    if domains.len() == 0 {
        Seq::empty()
    } else {
        let rest = aaaa_block(domains.drop_last(), ttl, v6).push(
            CommandView::Delete { domain: domains.last(), rtype: RecordType::Aaaa },
        );
        match v6 {
            Some(a) => rest.push(
                CommandView::Add { domain: domains.last(), ttl, rtype: RecordType::Aaaa, address: a },
            ),
            None => rest,
        }
    }
}

/// The update script for configuration `c` and the addresses `v4` and `v6`.
pub open spec fn transcript(c: Config, v4: Seq<char>, v6: Option<Seq<char>>) -> Seq<CommandView> {
    header(c) + a_block(c.domains_view(), c.ttl, v4) + aaaa_block(c.domains_view(), c.ttl, v6)
        + seq![CommandView::Send, CommandView::Quit]
}

/// The word that names a record type in the tool's syntax.
pub open spec fn record_word(t: RecordType) -> Seq<char> {
    match t {
        RecordType::A => "A"@,
        RecordType::Aaaa => "AAAA"@,
    }
}

/// The text of a command in the tool's syntax, without its line end.
pub open spec fn command_text(c: CommandView) -> Seq<char> {
    match c {
        CommandView::Key { algorithm, name, secret } => "key "@ + algorithm + ":"@ + name + " "@
            + secret,
        CommandView::Server { host } => "server "@ + host,
        CommandView::Zone { name } => "zone "@ + name + "."@,
        CommandView::Delete { domain, rtype } => "update delete "@ + domain + ". in "@ + record_word(
            rtype,
        ),
        CommandView::Add { domain, ttl, rtype, address } => "update add "@ + domain + ". "@
            + decimal_text(ttl as nat) + " in "@ + record_word(rtype) + " "@ + address,
        CommandView::Send => "send"@,
        CommandView::Quit => "quit"@,
    }
}

/// The commands as the tool's input: each one's text followed by a newline.
pub open spec fn script_text(cmds: Seq<CommandView>) -> Seq<char>
    decreases cmds.len(),
{
    if cmds.len() == 0 {
        Seq::empty()
    } else {
        script_text(cmds.drop_last()) + command_text(cmds.last()) + "\n"@
    }
}

/// Whether `c` adds a record of type `rt`.
pub open spec fn adds(c: CommandView, rt: RecordType) -> bool {
    match c {
        CommandView::Add { rtype, .. } => rtype == rt,
        _ => false,
    }
}

/// Whether `c` deletes the records of type `rt`.
pub open spec fn deletes(c: CommandView, rt: RecordType) -> bool {
    match c {
        CommandView::Delete { rtype, .. } => rtype == rt,
        _ => false,
    }
}

proof fn lemma_a_block(domains: Seq<Seq<char>>, ttl: usize, v4: Seq<char>)
    ensures
        a_block(domains, ttl, v4).len() == 2 * domains.len(),
        forall|i: int|
            0 <= i < domains.len() ==> a_block(domains, ttl, v4)[2 * i] == (CommandView::Delete {
                domain: #[trigger] domains[i],
                rtype: RecordType::A,
            }) && a_block(domains, ttl, v4)[2 * i + 1] == (CommandView::Add {
                domain: domains[i],
                ttl,
                rtype: RecordType::A,
                address: v4,
            }),
        forall|j: int|
            0 <= j < a_block(domains, ttl, v4).len() ==> deletes(
                #[trigger] a_block(domains, ttl, v4)[j],
                RecordType::A,
            ) || adds(a_block(domains, ttl, v4)[j], RecordType::A),
    decreases domains.len(),
{
    if domains.len() > 0 {
        let rest = domains.drop_last();
        lemma_a_block(rest, ttl, v4);
        let b = a_block(domains, ttl, v4);
        let p = a_block(rest, ttl, v4);
        assert forall|i: int| 0 <= i < domains.len() implies b[2 * i] == (CommandView::Delete {
            domain: #[trigger] domains[i],
            rtype: RecordType::A,
        }) && b[2 * i + 1] == (CommandView::Add {
            domain: domains[i],
            ttl,
            rtype: RecordType::A,
            address: v4,
        }) by {
            if i < rest.len() {
                assert(rest[i] == domains[i]);
                assert(b[2 * i] == p[2 * i]);
                assert(b[2 * i + 1] == p[2 * i + 1]);
            }
        }
        assert forall|j: int| 0 <= j < b.len() implies deletes(#[trigger] b[j], RecordType::A)
            || adds(b[j], RecordType::A) by {
            if j < p.len() {
                assert(b[j] == p[j]);
            }
        }
    }
}

proof fn lemma_aaaa_block(domains: Seq<Seq<char>>, ttl: usize, v6: Option<Seq<char>>)
    ensures
        aaaa_block(domains, ttl, v6).len() == (if v6 is Some {
            2 * domains.len()
        } else {
            domains.len()
        }),
        v6 is None ==> forall|i: int|
            0 <= i < domains.len() ==> aaaa_block(domains, ttl, v6)[i] == (CommandView::Delete {
                domain: #[trigger] domains[i],
                rtype: RecordType::Aaaa,
            }),
        v6 is Some ==> forall|i: int|
            0 <= i < domains.len() ==> aaaa_block(domains, ttl, v6)[2 * i] == (CommandView::Delete {
                domain: #[trigger] domains[i],
                rtype: RecordType::Aaaa,
            }) && aaaa_block(domains, ttl, v6)[2 * i + 1] == (CommandView::Add {
                domain: domains[i],
                ttl,
                rtype: RecordType::Aaaa,
                address: v6->0,
            }),
        v6 is None ==> forall|j: int|
            0 <= j < aaaa_block(domains, ttl, v6).len() ==> deletes(
                #[trigger] aaaa_block(domains, ttl, v6)[j],
                RecordType::Aaaa,
            ),
        forall|j: int|
            0 <= j < aaaa_block(domains, ttl, v6).len() ==> deletes(
                #[trigger] aaaa_block(domains, ttl, v6)[j],
                RecordType::Aaaa,
            ) || adds(aaaa_block(domains, ttl, v6)[j], RecordType::Aaaa),
    decreases domains.len(),
{
    if domains.len() > 0 {
        let rest = domains.drop_last();
        lemma_aaaa_block(rest, ttl, v6);
        let b = aaaa_block(domains, ttl, v6);
        let p = aaaa_block(rest, ttl, v6);
        assert forall|j: int| 0 <= j < p.len() implies b[j] == p[j] by {}
        assert forall|i: int| 0 <= i < rest.len() implies rest[i] == domains[i] by {}
    }
}

/// The script opens with exactly one authentication line, then the server
/// line, then the zone line; no later line is of any of these kinds.
pub proof fn lemma_header_first(c: Config, v4: Seq<char>, v6: Option<Seq<char>>)
    ensures
        transcript(c, v4, v6).len() >= 5,
        transcript(c, v4, v6)[0] == (CommandView::Key {
            algorithm: c.tsig_hmac@,
            name: c.tsig_key@,
            secret: c.tsig_secret@,
        }),
        transcript(c, v4, v6)[1] == (CommandView::Server { host: c.server@ }),
        transcript(c, v4, v6)[2] == (CommandView::Zone { name: c.zone@ }),
        forall|j: int|
            3 <= j < transcript(c, v4, v6).len() ==> !(#[trigger] transcript(c, v4, v6)[j] is Key)
                && !(transcript(c, v4, v6)[j] is Server) && !(transcript(c, v4, v6)[j] is Zone),
{
    let d = c.domains_view();
    lemma_a_block(d, c.ttl, v4);
    lemma_aaaa_block(d, c.ttl, v6);
    let t = transcript(c, v4, v6);
    let h = header(c);
    let a = a_block(d, c.ttl, v4);
    let b = aaaa_block(d, c.ttl, v6);
    let e = seq![CommandView::Send, CommandView::Quit];
    assert forall|j: int| 3 <= j < t.len() implies !(#[trigger] t[j] is Key) && !(t[j] is Server)
        && !(t[j] is Zone) by {
        if j < 3 + a.len() {
            assert(t[j] == a[j - 3]);
        } else if j < 3 + a.len() + b.len() {
            assert(t[j] == b[j - 3 - a.len()]);
        } else {
            assert(t[j] == e[j - 3 - a.len() - b.len()]);
        }
    }
}

/// For a list of N domains, the script holds right after its header N pairs
/// of A deletion and A addition, then N AAAA deletions (each followed by an
/// AAAA addition where an IPv6 address is known), all in the list's order, and
/// then the two closing lines; nothing else.
pub proof fn lemma_records_follow_domains(c: Config, v4: Seq<char>, v6: Option<Seq<char>>)
    ensures
        ({
            let t = transcript(c, v4, v6);
            let d = c.domains_view();
            let n = d.len();
            &&& t.len() == 3 + 2 * n + (if v6 is Some {
                2 * n
            } else {
                n
            }) + 2
            &&& forall|i: int|
                0 <= i < n ==> t[3 + 2 * i] == (CommandView::Delete {
                    domain: #[trigger] d[i],
                    rtype: RecordType::A,
                }) && t[4 + 2 * i] == (CommandView::Add {
                    domain: d[i],
                    ttl: c.ttl,
                    rtype: RecordType::A,
                    address: v4,
                })
            &&& v6 is None ==> forall|i: int|
                0 <= i < n ==> t[3 + 2 * n + i] == (CommandView::Delete {
                    domain: #[trigger] d[i],
                    rtype: RecordType::Aaaa,
                })
            &&& v6 is Some ==> forall|i: int|
                0 <= i < n ==> t[3 + 2 * n + 2 * i] == (CommandView::Delete {
                    domain: #[trigger] d[i],
                    rtype: RecordType::Aaaa,
                }) && t[4 + 2 * n + 2 * i] == (CommandView::Add {
                    domain: d[i],
                    ttl: c.ttl,
                    rtype: RecordType::Aaaa,
                    address: v6->0,
                })
        }),
{
    let d = c.domains_view();
    let n = d.len();
    lemma_a_block(d, c.ttl, v4);
    lemma_aaaa_block(d, c.ttl, v6);
    let t = transcript(c, v4, v6);
    let a = a_block(d, c.ttl, v4);
    let b = aaaa_block(d, c.ttl, v6);
    assert forall|i: int| 0 <= i < n implies t[3 + 2 * i] == (CommandView::Delete {
        domain: #[trigger] d[i],
        rtype: RecordType::A,
    }) && t[4 + 2 * i] == (CommandView::Add {
        domain: d[i],
        ttl: c.ttl,
        rtype: RecordType::A,
        address: v4,
    }) by {
        assert(t[3 + 2 * i] == a[2 * i]);
        assert(t[4 + 2 * i] == a[2 * i + 1]);
    }
    if v6 is None {
        assert forall|i: int| 0 <= i < n implies t[3 + 2 * n + i] == (CommandView::Delete {
            domain: #[trigger] d[i],
            rtype: RecordType::Aaaa,
        }) by {
            assert(t[3 + 2 * n + i] == b[i]);
        }
    } else {
        assert forall|i: int| 0 <= i < n implies t[3 + 2 * n + 2 * i] == (CommandView::Delete {
            domain: #[trigger] d[i],
            rtype: RecordType::Aaaa,
        }) && t[4 + 2 * n + 2 * i] == (CommandView::Add {
            domain: d[i],
            ttl: c.ttl,
            rtype: RecordType::Aaaa,
            address: v6->0,
        }) by {
            assert(t[3 + 2 * n + 2 * i] == b[2 * i]);
            assert(t[4 + 2 * n + 2 * i] == b[2 * i + 1]);
        }
    }
}

/// Without an IPv6 address no line adds an AAAA record, while every domain
/// still gets its AAAA deletion.
pub proof fn lemma_no_ipv6_only_deletes(c: Config, v4: Seq<char>)
    ensures
        forall|j: int|
            0 <= j < transcript(c, v4, None).len() ==> !adds(
                #[trigger] transcript(c, v4, None)[j],
                RecordType::Aaaa,
            ),
        forall|i: int|
            0 <= i < c.domains_view().len() ==> transcript(c, v4, None)[3 + 2
                * c.domains_view().len() + i] == (CommandView::Delete {
                domain: #[trigger] c.domains_view()[i],
                rtype: RecordType::Aaaa,
            }),
{
    let d = c.domains_view();
    lemma_a_block(d, c.ttl, v4);
    lemma_aaaa_block(d, c.ttl, None);
    lemma_records_follow_domains(c, v4, None);
    let t = transcript(c, v4, None);
    let a = a_block(d, c.ttl, v4);
    let b = aaaa_block(d, c.ttl, None);
    let e = seq![CommandView::Send, CommandView::Quit];
    assert forall|j: int| 0 <= j < t.len() implies !adds(#[trigger] t[j], RecordType::Aaaa) by {
        if j < 3 {
            assert(t[j] == header(c)[j]);
        } else if j < 3 + a.len() {
            assert(t[j] == a[j - 3]);
        } else if j < 3 + a.len() + b.len() {
            assert(t[j] == b[j - 3 - a.len()]);
        } else {
            assert(t[j] == e[j - 3 - a.len() - b.len()]);
        }
    }
}

/// Whatever the input, the script ends with the commit line and then the
/// terminate line, and neither appears anywhere before.
pub proof fn lemma_ends_with_commit(c: Config, v4: Seq<char>, v6: Option<Seq<char>>)
    ensures
        transcript(c, v4, v6).len() >= 5,
        transcript(c, v4, v6)[transcript(c, v4, v6).len() - 2] == CommandView::Send,
        transcript(c, v4, v6)[transcript(c, v4, v6).len() - 1] == CommandView::Quit,
        forall|j: int|
            0 <= j < transcript(c, v4, v6).len() - 2 ==> !(#[trigger] transcript(c, v4, v6)[j] is Send)
                && !(transcript(c, v4, v6)[j] is Quit),
{
    let d = c.domains_view();
    lemma_a_block(d, c.ttl, v4);
    lemma_aaaa_block(d, c.ttl, v6);
    let t = transcript(c, v4, v6);
    let a = a_block(d, c.ttl, v4);
    let b = aaaa_block(d, c.ttl, v6);
    assert forall|j: int| 0 <= j < t.len() - 2 implies !(#[trigger] t[j] is Send) && !(
    t[j] is Quit) by {
        if j < 3 {
            assert(t[j] == header(c)[j]);
        } else if j < 3 + a.len() {
            assert(t[j] == a[j - 3]);
        } else {
            assert(t[j] == b[j - 3 - a.len()]);
        }
    }
}

/// The update script for `config` and `ips`, as a list of commands.
pub fn build_commands(config: &Config, ips: &PublicIps) -> (r: Vec<Command>)
    ensures
        command_views(r@) == transcript(*config, ips.v4@, opt_view(ips.v6)),
{
    let ghost dv = config.domains_view();
    let ghost v6 = opt_view(ips.v6);
    let ttl = config.ttl;
    let mut out: Vec<Command> = Vec::new();
    out.push(
        Command::Key {
            algorithm: config.tsig_hmac.clone(),
            name: config.tsig_key.clone(),
            secret: config.tsig_secret.clone(),
        },
    );
    out.push(Command::Server { host: config.server.clone() });
    out.push(Command::Zone { name: config.zone.clone() });
    assert(command_views(out@) =~= header(*config) + a_block(dv.take(0), ttl, ips.v4@));
    let n = config.domains.len();
    let mut i: usize = 0;
    while i < n
        invariant
            n == config.domains@.len(),
            dv == config.domains_view(),
            ttl == config.ttl,
            i <= n,
            command_views(out@) == header(*config) + a_block(dv.take(i as int), ttl, ips.v4@),
        decreases n - i,
    {
        let domain = &config.domains[i];
        let ghost before = command_views(out@);
        out.push(Command::Delete { domain: domain.clone(), rtype: RecordType::A });
        out.push(
            Command::Add {
                domain: domain.clone(),
                ttl,
                rtype: RecordType::A,
                address: ips.v4.clone(),
            },
        );
        assert(dv.take(i + 1).drop_last() =~= dv.take(i as int));
        assert(command_views(out@) =~= before.push(
            CommandView::Delete { domain: dv[i as int], rtype: RecordType::A },
        ).push(
            CommandView::Add { domain: dv[i as int], ttl, rtype: RecordType::A, address: ips.v4@ },
        ));
        i = i + 1;
    }
    assert(dv.take(n as int) =~= dv);
    let ghost head = command_views(out@);
    assert(command_views(out@) =~= head + aaaa_block(dv.take(0), ttl, v6));
    let mut j: usize = 0;
    while j < n
        invariant
            n == config.domains@.len(),
            dv == config.domains_view(),
            v6 == opt_view(ips.v6),
            ttl == config.ttl,
            j <= n,
            command_views(out@) == head + aaaa_block(dv.take(j as int), ttl, v6),
        decreases n - j,
    {
        let domain = &config.domains[j];
        let ghost before = command_views(out@);
        out.push(Command::Delete { domain: domain.clone(), rtype: RecordType::Aaaa });
        assert(dv.take(j + 1).drop_last() =~= dv.take(j as int));
        let ghost mid = before.push(
            CommandView::Delete { domain: dv[j as int], rtype: RecordType::Aaaa },
        );
        assert(command_views(out@) =~= mid);
        match &ips.v6 {
            Some(a) => {
                out.push(
                    Command::Add {
                        domain: domain.clone(),
                        ttl,
                        rtype: RecordType::Aaaa,
                        address: a.clone(),
                    },
                );
                assert(command_views(out@) =~= mid.push(
                    CommandView::Add {
                        domain: dv[j as int],
                        ttl,
                        rtype: RecordType::Aaaa,
                        address: a@,
                    },
                ));
            },
            None => {},
        }
        j = j + 1;
    }
    let ghost body = command_views(out@);
    out.push(Command::Send);
    out.push(Command::Quit);
    assert(command_views(out@) =~= body + seq![CommandView::Send, CommandView::Quit]);
    out
}

fn record_word_str(t: RecordType) -> (r: &'static str)
    ensures
        r@ == record_word(t),
{
    match t {
        RecordType::A => "A",
        RecordType::Aaaa => "AAAA",
    }
}

/// The text of one command in the tool's syntax, without its line end.
pub fn render_command(c: &Command) -> (r: String)
    ensures
        r@ == command_text(c@),
{
    match c {
        Command::Key { algorithm, name, secret } => {
            let mut s = String::from_str("key ");
            s.append(algorithm.as_str());
            s.append(":");
            s.append(name.as_str());
            s.append(" ");
            s.append(secret.as_str());
            s
        },
        Command::Server { host } => {
            let mut s = String::from_str("server ");
            s.append(host.as_str());
            s
        },
        Command::Zone { name } => {
            let mut s = String::from_str("zone ");
            s.append(name.as_str());
            s.append(".");
            s
        },
        Command::Delete { domain, rtype } => {
            let mut s = String::from_str("update delete ");
            s.append(domain.as_str());
            s.append(". in ");
            s.append(record_word_str(*rtype));
            s
        },
        Command::Add { domain, ttl, rtype, address } => {
            let mut s = String::from_str("update add ");
            s.append(domain.as_str());
            s.append(". ");
            let t = decimal_string(*ttl);
            s.append(t.as_str());
            s.append(" in ");
            s.append(record_word_str(*rtype));
            s.append(" ");
            s.append(address.as_str());
            s
        },
        Command::Send => String::from_str("send"),
        Command::Quit => String::from_str("quit"),
    }
}

/// The commands as the tool's input: each one's text followed by a newline.
pub fn render_script(cmds: &Vec<Command>) -> (r: String)
    ensures
        r@ == script_text(command_views(cmds@)),
{
    let ghost cv = command_views(cmds@);
    let mut out = String::new();
    let mut i: usize = 0;
    assert(cv.take(0) =~= Seq::<CommandView>::empty());
    while i < cmds.len()
        invariant
            cv == command_views(cmds@),
            i <= cmds@.len(),
            out@ == script_text(cv.take(i as int)),
        decreases cmds@.len() - i,
    {
        let line = render_command(&cmds[i]);
        out.append(line.as_str());
        out.append("\n");
        assert(cv.take(i + 1).drop_last() =~= cv.take(i as int));
        i = i + 1;
    }
    assert(cv.take(cmds@.len() as int) =~= cv);
    out
}

/// The update script for `config` and `ips`, as the text the update tool reads.
pub fn build_transcript(config: &Config, ips: &PublicIps) -> (r: String)
    ensures
        r@ == script_text(transcript(*config, ips.v4@, opt_view(ips.v6))),
{
    let cmds = build_commands(config, ips);
    render_script(&cmds)
}

} // verus!
