use vstd::prelude::*;

use crate::ttl::{effective_ttl, resolve_ttl, ttl_rejected};

verus! {

/// The views of a list of strings.
pub open spec fn string_views(v: Seq<String>) -> Seq<Seq<char>> {
    v.map_values(|x: String| x@)
}

/// The view of an optional string.
pub open spec fn opt_view(o: Option<String>) -> Option<Seq<char>> {
    match o {
        Some(s) => Some(s@),
        None => None,
    }
}

/// The pieces of `s` between its commas, in order, none trimmed or dropped:
/// a text without a comma is one piece, and each comma starts a new one.
pub open spec fn split_commas(s: Seq<char>) -> Seq<Seq<char>>
    decreases s.len(),
{
    if s.len() == 0 {
        seq![Seq::<char>::empty()]
    } else {
        let p = split_commas(s.drop_last());
        if s.last() == ',' {
            p.push(Seq::<char>::empty())
        } else {
            p.update(p.len() - 1, p.last().push(s.last()))
        }
    }
}

/// The pieces of `p` with a comma between each two.
pub open spec fn join_commas(p: Seq<Seq<char>>) -> Seq<char>
    decreases p.len(),
{
    if p.len() <= 1 {
        if p.len() == 0 {
            Seq::<char>::empty()
        } else {
            p[0]
        }
    } else {
        join_commas(p.drop_last()).push(',') + p.last()
    }
}

proof fn lemma_split_nonempty(s: Seq<char>)
    ensures
        split_commas(s).len() >= 1,
    decreases s.len(),
{
    if s.len() > 0 {
        lemma_split_nonempty(s.drop_last());
    }
}

/// Splitting a domain list loses nothing and keeps order: the pieces joined
/// with commas give the text back, and no piece holds a comma.
pub proof fn lemma_split_join(s: Seq<char>)
    ensures
        join_commas(split_commas(s)) == s,
        forall|i: int, j: int|
            0 <= i < split_commas(s).len() && 0 <= j < split_commas(s)[i].len()
                ==> #[trigger] split_commas(s)[i][j] != ',',
    decreases s.len(),
{
    if s.len() > 0 {
        let t = s.drop_last();
        lemma_split_join(t);
        lemma_split_nonempty(t);
        let p = split_commas(t);
        let q = split_commas(s);
        if s.last() == ',' {
            assert(q.drop_last() == p);
            assert(join_commas(q) == join_commas(p).push(','));
            assert(join_commas(p).push(',') == s);
        } else {
            let k = p.len() - 1;
            if p.len() == 1 {
                assert(join_commas(q) == q[0]);
                assert(join_commas(p) == p[0]);
                assert(q[0] == p[0].push(s.last()));
                assert(s == t.push(s.last()));
            } else {
                assert(q.drop_last() == p.drop_last());
                assert(join_commas(p) == join_commas(p.drop_last()).push(',') + p.last());
                assert(join_commas(q) == join_commas(p.drop_last()).push(',') + q.last());
                assert(q.last() == p.last().push(s.last()));
                assert(join_commas(p.drop_last()).push(',') + p.last().push(s.last())
                    == (join_commas(p.drop_last()).push(',') + p.last()).push(s.last()));
                assert(s == t.push(s.last()));
            }
            assert forall|i: int, j: int|
                0 <= i < q.len() && 0 <= j < q[i].len() implies #[trigger] q[i][j] != ',' by {
                if i == k && j == q[i].len() - 1 {
                } else {
                    assert(q[i][j] == p[i][j]);
                }
            }
        }
    }
}

/// Splits a comma-separated domain list into its domains, in order, with
/// nothing trimmed and empty pieces kept.
pub fn split_domains(s: &str) -> (r: Vec<String>)
    ensures
        string_views(r@) == split_commas(s@),
{
    let n = s.unicode_len();
    let mut out: Vec<String> = Vec::new();
    let mut cur = String::new();
    let mut i: usize = 0;
    proof {
        assert(s@.subrange(0, 0) =~= Seq::<char>::empty());
        assert(string_views(out@).push(cur@) =~= split_commas(s@.subrange(0, 0)));
    }
    while i < n
        invariant
            n == s@.len(),
            i <= n,
            string_views(out@).push(cur@) == split_commas(s@.subrange(0, i as int)),
        decreases n - i,
    {
        let c = s.get_char(i);
        let ghost pre = s@.subrange(0, i as int);
        let ghost next = s@.subrange(0, i + 1);
        assert(next.drop_last() == pre);
        assert(next.last() == c);
        proof {
            lemma_split_nonempty(pre);
        }
        if c == ',' {
            out.push(cur);
            cur = String::new();
            assert(string_views(out@).push(cur@) =~= split_commas(pre).push(Seq::<char>::empty()));
        } else {
            let piece = s.substring_char(i, i + 1);
            assert(piece@ =~= seq![c]);
            let ghost old_cur = cur@;
            let ghost p = split_commas(pre);
            assert(p.last() == old_cur);
            cur.append(piece);
            assert(cur@ =~= old_cur.push(c));
            assert(string_views(out@).push(cur@) =~= p.update(p.len() - 1, p.last().push(c)));
        }
        i = i + 1;
    }
    assert(s@.subrange(0, n as int) == s@);
    let ghost before = out@;
    out.push(cur);
    assert(string_views(out@) =~= string_views(before).push(cur@));
    out
}

/// A required configuration parameter.
#[derive(Clone, Copy, Debug, PartialEq, Eq, Structural)]
pub enum Param {
    Server,
    Zone,
    Domains,
    TsigHmac,
    TsigKey,
    TsigSecret,
}

impl Param {
    /// The name of the environment variable that carries this parameter.
    pub fn env_name(&self) -> (r: &'static str)
        ensures
            r@ == match self {
                Param::Server => "DNS_SERVER"@,
                Param::Zone => "DNS_ZONE"@,
                Param::Domains => "DOMAINS"@,
                Param::TsigHmac => "TSIG_HMAC"@,
                Param::TsigKey => "TSIG_KEY"@,
                Param::TsigSecret => "TSIG_SECRET"@,
            },
    {
        match self {
            Param::Server => "DNS_SERVER",
            Param::Zone => "DNS_ZONE",
            Param::Domains => "DOMAINS",
            Param::TsigHmac => "TSIG_HMAC",
            Param::TsigKey => "TSIG_KEY",
            Param::TsigSecret => "TSIG_SECRET",
        }
    }
}

/// The configuration of one run, as the environment gave it: each parameter
/// is absent where the environment does not set it.
pub struct RawConfig {
    /// The update tool to run; `nsupdate` where absent.
    pub nsupdate: Option<String>,
    pub server: Option<String>,
    pub zone: Option<String>,
    /// Comma-separated list of domains.
    pub domains: Option<String>,
    pub ttl: Option<String>,
    pub tsig_hmac: Option<String>,
    pub tsig_key: Option<String>,
    pub tsig_secret: Option<String>,
}

/// The resolved configuration of one run.
pub struct Config {
    /// The `nsupdate` compatible program to run.
    pub nsupdate: String,
    /// DNS server to update.
    pub server: String,
    /// DNS zone to update, without its trailing dot.
    pub zone: String,
    /// The domains to update, in order.
    pub domains: Vec<String>,
    /// TTL of the records written.
    pub ttl: usize,
    /// TSIG HMAC algorithm, e.g. `hmac-sha256`.
    pub tsig_hmac: String,
    /// TSIG key name.
    pub tsig_key: String,
    /// TSIG key secret (base64).
    pub tsig_secret: String,
}

impl Config {
    /// The domains as character sequences.
    pub open spec fn domains_view(&self) -> Seq<Seq<char>> {
        string_views(self.domains@)
    }

    /// Every field but the TTL is set; the domain list has at least one entry.
    pub open spec fn wf(&self) -> bool {
        &&& self.nsupdate@.len() > 0
        &&& self.server@.len() > 0
        &&& self.zone@.len() > 0
        &&& self.domains@.len() > 0
        &&& self.tsig_hmac@.len() > 0
        &&& self.tsig_key@.len() > 0
        &&& self.tsig_secret@.len() > 0
    }
}

/// A resolved configuration, with whether the TTL given had to be replaced by
/// the default because it was not a number.
pub struct Resolved {
    pub config: Config,
    pub ttl_warning: bool,
}

/// Whether a required parameter is given: set, and not empty.
pub open spec fn given(v: Option<String>) -> bool {
    v is Some && v->0@.len() > 0
}

/// The first required parameter, in the order server, zone, domains, HMAC
/// algorithm, key name, secret, that `raw` does not give.
pub open spec fn first_missing(raw: RawConfig) -> Option<Param> {
    if !given(raw.server) {
        Some(Param::Server)
    } else if !given(raw.zone) {
        Some(Param::Zone)
    } else if !given(raw.domains) {
        Some(Param::Domains)
    } else if !given(raw.tsig_hmac) {
        Some(Param::TsigHmac)
    } else if !given(raw.tsig_key) {
        Some(Param::TsigKey)
    } else if !given(raw.tsig_secret) {
        Some(Param::TsigSecret)
    } else {
        None
    }
}

/// The update tool that `raw` names, `nsupdate` where it names none.
pub open spec fn tool_of(raw: RawConfig) -> Seq<char> {
    if given(raw.nsupdate) {
        raw.nsupdate->0@
    } else {
        "nsupdate"@
    }
}

/// What `resolve_config` makes of `raw` when no required parameter is missing.
pub open spec fn resolves_to(raw: RawConfig, r: Resolved) -> bool {
    &&& r.config.nsupdate@ == tool_of(raw)
    &&& r.config.server@ == raw.server->0@
    &&& r.config.zone@ == raw.zone->0@
    &&& r.config.domains_view() == split_commas(raw.domains->0@)
    &&& r.config.ttl == effective_ttl(opt_view(raw.ttl))
    &&& r.config.tsig_hmac@ == raw.tsig_hmac->0@
    &&& r.config.tsig_key@ == raw.tsig_key->0@
    &&& r.config.tsig_secret@ == raw.tsig_secret->0@
    &&& r.ttl_warning == ttl_rejected(opt_view(raw.ttl))
}

fn take_given(v: Option<String>) -> (r: Option<String>)
    ensures
        r is Some <==> given(v),
        r is Some ==> r->0@ == v->0@,
{
    match v {
        Some(s) => if !s.as_str().is_empty() {
            Some(s)
        } else {
            None
        },
        None => None,
    }
}

/// Resolves the configuration of a run: fails with the first required
/// parameter that is missing, else splits the domain list and settles the TTL.
pub fn resolve_config(raw: RawConfig) -> (r: Result<Resolved, Param>)
    ensures
        r is Err <==> first_missing(raw) is Some,
        r is Err ==> r->Err_0 == first_missing(raw)->0,
        r is Ok ==> resolves_to(raw, r->Ok_0) && r->Ok_0.config.wf(),
{
    let RawConfig { nsupdate, server, zone, domains, ttl, tsig_hmac, tsig_key, tsig_secret } = raw;
    let server = match take_given(server) {
        Some(v) => v,
        None => return Err(Param::Server),
    };
    let zone = match take_given(zone) {
        Some(v) => v,
        None => return Err(Param::Zone),
    };
    let domains = match take_given(domains) {
        Some(v) => v,
        None => return Err(Param::Domains),
    };
    let tsig_hmac = match take_given(tsig_hmac) {
        Some(v) => v,
        None => return Err(Param::TsigHmac),
    };
    let tsig_key = match take_given(tsig_key) {
        Some(v) => v,
        None => return Err(Param::TsigKey),
    };
    let tsig_secret = match take_given(tsig_secret) {
        Some(v) => v,
        None => return Err(Param::TsigSecret),
    };
    let nsupdate = match take_given(nsupdate) {
        Some(v) => v,
        None => {
            proof {
                reveal_strlit("nsupdate");
            }
            String::from_str("nsupdate")
        },
    };
    let (ttl_value, ttl_warning) = match &ttl {
        Some(t) => resolve_ttl(Some(t.as_str())),
        None => resolve_ttl(None),
    };
    let parsed_domains = split_domains(domains.as_str());
    proof {
        lemma_split_nonempty(domains@);
    }
    let config = Config {
        nsupdate,
        server,
        zone,
        domains: parsed_domains,
        ttl: ttl_value,
        tsig_hmac,
        tsig_key,
        tsig_secret,
    };
    Ok(Resolved { config, ttl_warning })
}

} // verus!
