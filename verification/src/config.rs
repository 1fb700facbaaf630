//! Configuration structures with their defaults, and the substitution of
//! environment variables into the configuration text.
use std::collections::HashMap;
use vstd::prelude::*;

use crate::text::{str_chars, string_from_chars};

verus! {

/// A span of time (whole seconds plus nanoseconds).
#[derive(Debug, Clone, Copy, PartialEq, Eq, Structural)]
pub struct Interval {
    pub secs: u64,
    pub nanos: u32,
}

impl Interval {
    /// A span of whole seconds.
    pub fn from_secs(secs: u64) -> (r: Self)
        ensures
            r == (Interval { secs, nanos: 0 }),
    {
        Interval { secs, nanos: 0 }
    }
}

#[derive(Debug)]
pub struct Configuration {
    pub logging: Logging,
    pub backend: Backend,
    pub lns: Lns,
    pub cups: Cups,
    pub metadata: Metadata,
}

#[derive(Debug)]
pub struct Logging {
    pub level: String,
    pub log_to_syslog: bool,
}

#[derive(Debug)]
pub struct Backend {
    pub enabled: String,
    pub gateway_id: String,
    pub filters: Filters,
    pub concentratord: Concentratord,
    pub semtech_udp: SemtechUdp,
}

#[derive(Debug, Clone, Copy)]
pub struct Filters {
    pub forward_crc_ok: bool,
    pub forward_crc_invalid: bool,
    pub forward_crc_missing: bool,
}

#[derive(Debug)]
pub struct Concentratord {
    pub event_url: String,
    pub command_url: String,
    pub context_caching: bool,
}

#[derive(Debug)]
pub struct SemtechUdp {
    pub bind: String,
    pub time_fallback_enabled: bool,
}

#[derive(Debug)]
pub struct Lns {
    pub server: String,
    pub discovery_endpoint: String,
    pub reconnect_interval: Interval,
    pub ca_cert: String,
    pub tls_cert: String,
    pub tls_key: String,
}

#[derive(Debug)]
pub struct Cups {
    pub enabled: bool,
    pub server: String,
    pub oksync_interval: Interval,
    pub resync_interval: Interval,
    pub ca_cert: String,
    pub tls_cert: String,
    pub tls_key: String,
    pub credentials_dir: String,
    pub sig_keys: Vec<String>,
}

/// Gateway metadata: static key/values (`[metadata.static]`), commands
/// whose output gives key/values, and the delimiter of that output.
#[derive(Debug)]
pub struct Metadata {
    pub statics: HashMap<String, String>,
    pub commands: HashMap<String, Vec<String>>,
    pub split_delimiter: String,
}

impl Default for Logging {
    fn default() -> (r: Self)
        ensures
            r.level@ == "info"@,
            !r.log_to_syslog,
    {
        Logging { level: "info".to_string(), log_to_syslog: false }
    }
}

impl Default for Filters {
    fn default() -> (r: Self)
        ensures
            r.forward_crc_ok,
            !r.forward_crc_invalid,
            !r.forward_crc_missing,
    {
        Filters { forward_crc_ok: true, forward_crc_invalid: false, forward_crc_missing: false }
    }
}

impl Default for Concentratord {
    fn default() -> (r: Self)
        ensures
            r.event_url@ == "ipc:///tmp/concentratord_event"@,
            r.command_url@ == "ipc:///tmp/concentratord_command"@,
            !r.context_caching,
    {
        Concentratord {
            event_url: "ipc:///tmp/concentratord_event".to_string(),
            command_url: "ipc:///tmp/concentratord_command".to_string(),
            context_caching: false,
        }
    }
}

impl Default for SemtechUdp {
    fn default() -> (r: Self)
        ensures
            r.bind@ == "0.0.0.0:1700"@,
            !r.time_fallback_enabled,
    {
        SemtechUdp { bind: "0.0.0.0:1700".to_string(), time_fallback_enabled: false }
    }
}

impl Default for Backend {
    fn default() -> (r: Self)
        ensures
            r.enabled@ == "concentratord"@,
            r.gateway_id@ == Seq::<char>::empty(),
            r.filters.forward_crc_ok && !r.filters.forward_crc_invalid
                && !r.filters.forward_crc_missing,
            r.concentratord.event_url@ == "ipc:///tmp/concentratord_event"@,
            r.concentratord.command_url@ == "ipc:///tmp/concentratord_command"@,
            !r.concentratord.context_caching,
            r.semtech_udp.bind@ == "0.0.0.0:1700"@,
            !r.semtech_udp.time_fallback_enabled,
    {
        Backend {
            enabled: "concentratord".to_string(),
            gateway_id: String::new(),
            filters: Filters::default(),
            concentratord: Concentratord::default(),
            semtech_udp: SemtechUdp::default(),
        }
    }
}

impl Default for Lns {
    fn default() -> (r: Self)
        ensures
            r.server@ == "wss://localhost:8887"@,
            r.discovery_endpoint@ == Seq::<char>::empty(),
            r.reconnect_interval == (Interval { secs: 5, nanos: 0 }),
            r.ca_cert@ == Seq::<char>::empty(),
            r.tls_cert@ == Seq::<char>::empty(),
            r.tls_key@ == Seq::<char>::empty(),
    {
        Lns {
            server: "wss://localhost:8887".to_string(),
            discovery_endpoint: String::new(),
            reconnect_interval: Interval::from_secs(5),
            ca_cert: String::new(),
            tls_cert: String::new(),
            tls_key: String::new(),
        }
    }
}

impl Default for Cups {
    fn default() -> (r: Self)
        ensures
            !r.enabled,
            r.server@ == Seq::<char>::empty(),
            r.oksync_interval == (Interval { secs: 86400, nanos: 0 }),
            r.resync_interval == (Interval { secs: 60, nanos: 0 }),
            r.ca_cert@ == Seq::<char>::empty(),
            r.tls_cert@ == Seq::<char>::empty(),
            r.tls_key@ == Seq::<char>::empty(),
            r.credentials_dir@ == "/var/lib/rak-basicstation/credentials"@,
            r.sig_keys@.len() == 0,
    {
        Cups {
            enabled: false,
            server: String::new(),
            oksync_interval: Interval::from_secs(86400),
            resync_interval: Interval::from_secs(60),
            ca_cert: String::new(),
            tls_cert: String::new(),
            tls_key: String::new(),
            credentials_dir: "/var/lib/rak-basicstation/credentials".to_string(),
            sig_keys: Vec::new(),
        }
    }
}

impl Default for Metadata {
    fn default() -> (r: Self)
        ensures
            r.statics@ == Map::<String, String>::empty(),
            r.commands@ == Map::<String, Vec<String>>::empty(),
            r.split_delimiter@ == "="@,
    {
        Metadata {
            statics: HashMap::new(),
            commands: HashMap::new(),
            split_delimiter: "=".to_string(),
        }
    }
}

impl Default for Configuration {
    fn default() -> (r: Self)
        ensures
            r.logging.level@ == "info"@,
            !r.logging.log_to_syslog,
            r.backend.enabled@ == "concentratord"@,
            r.backend.gateway_id@ == Seq::<char>::empty(),
            r.lns.server@ == "wss://localhost:8887"@,
            r.lns.reconnect_interval == (Interval { secs: 5, nanos: 0 }),
            !r.cups.enabled,
            r.cups.oksync_interval == (Interval { secs: 86400, nanos: 0 }),
            r.cups.resync_interval == (Interval { secs: 60, nanos: 0 }),
            r.metadata.split_delimiter@ == "="@,
    {
        Configuration {
            logging: Logging::default(),
            backend: Backend::default(),
            lns: Lns::default(),
            cups: Cups::default(),
            metadata: Metadata::default(),
        }
    }
}

/// `name` is non-empty and `rest` starts with it.
pub open spec fn name_at(rest: Seq<char>, name: Seq<char>) -> bool {
    0 < name.len() <= rest.len() && rest.subrange(0, name.len() as int) == name
}

/// Among the first `n` variables, the one with the longest name that `rest`
/// starts with (the first of them when names are equally long).
pub open spec fn longest_var(rest: Seq<char>, vars: Seq<(Seq<char>, Seq<char>)>, n: int) -> Option<int>
    decreases n,
{
    if n <= 0 {
        None
    } else {
        let prev = longest_var(rest, vars, n - 1);
        if name_at(rest, vars[n - 1].0) && match prev {
            None => true,
            Some(k) => vars[k].0.len() < vars[n - 1].0.len(),
        } {
            Some(n - 1)
        } else {
            prev
        }
    }
}

/// The configuration text with each `$NAME` of a variable replaced by its
/// value, read from left to right: at a `$`, the variable with the longest
/// name that follows is taken, so `$AB` is the value of `AB` even when `A`
/// is a variable too. Inserted values are not read again.
pub open spec fn substituted(s: Seq<char>, vars: Seq<(Seq<char>, Seq<char>)>) -> Seq<char>
    decreases s.len(),
{
    if s.len() == 0 {
        s
    } else {
        match longest_var(s.drop_first(), vars, vars.len() as int) {
            Some(k) => if s[0] == '$' && 1 + vars[k].0.len() <= s.len() {
                vars[k].1 + substituted(s.subrange(1 + vars[k].0.len() as int, s.len() as int), vars)
            } else {
                seq![s[0]] + substituted(s.drop_first(), vars)
            },
            None => seq![s[0]] + substituted(s.drop_first(), vars),
        }
    }
}

proof fn lemma_longest_var_names(rest: Seq<char>, vars: Seq<(Seq<char>, Seq<char>)>, n: int)
    ensures
        longest_var(rest, vars, n) matches Some(k) ==> 0 <= k < n && name_at(rest, vars[k].0),
    decreases n,
{
    if n > 0 {
        lemma_longest_var_names(rest, vars, n - 1);
    }
}

/// Whether the non-empty `name` follows at position `p` of `text`.
fn name_follows(text: &Vec<char>, p: usize, name: &Vec<char>) -> (r: bool)
    requires
        p <= text@.len(),
    ensures
        r == name_at(text@.subrange(p as int, text@.len() as int), name@),
{
    let ghost rest = text@.subrange(p as int, text@.len() as int);
    let n = name.len();
    let tl = text.len();
    if n == 0 || n > tl - p {
        return false;
    }
    let mut k: usize = 0;
    while k < n
        invariant
            n == name@.len(),
            tl == text@.len(),
            p + n <= tl,
            rest == text@.subrange(p as int, text@.len() as int),
            k <= n,
            forall|j: int| 0 <= j < k ==> rest[j] == name@[j],
        decreases n - k,
    {
        if text[p + k] != name[k] {
            assert(rest.subrange(0, n as int)[k as int] != name@[k as int]);
            return false;
        }
        k = k + 1;
    }
    assert(rest.subrange(0, n as int) =~= name@);
    true
}

/// Replace environment variables in the configuration text: each `$NAME`
/// of a variable becomes its value, the longest name that follows a `$`
/// winning.
pub fn substitute_env_vars(content: &str, vars: &Vec<(String, String)>) -> (r: String)
    ensures
        r@ == substituted(content@, vars@.map_values(|v: (String, String)| (v.0@, v.1@))),
{
    let ghost vs = vars@.map_values(|v: (String, String)| (v.0@, v.1@));
    let text = str_chars(content);
    let nv = vars.len();
    // The names and values as characters.
    let mut names: Vec<Vec<char>> = Vec::new();
    let mut values: Vec<Vec<char>> = Vec::new();
    let mut j: usize = 0;
    while j < nv
        invariant
            nv == vars@.len(),
            vs == vars@.map_values(|v: (String, String)| (v.0@, v.1@)),
            j <= nv,
            names@.len() == j,
            values@.len() == j,
            forall|q: int| 0 <= q < j ==> (#[trigger] names@[q])@ == vs[q].0 && values@[q]@ == vs[q].1,
        decreases nv - j,
    {
        assert(vs[j as int] == (vars@[j as int].0@, vars@[j as int].1@));
        names.push(str_chars(vars[j].0.as_str()));
        values.push(str_chars(vars[j].1.as_str()));
        j = j + 1;
    }
    let n = text.len();
    let mut out: Vec<char> = Vec::new();
    let mut i: usize = 0;
    assert(text@.subrange(0, n as int) =~= content@);
    assert(out@ + substituted(content@, vs) =~= substituted(content@, vs));
    while i < n
        invariant
            n == text@.len(),
            text@ == content@,
            nv == vs.len(),
            names@.len() == nv,
            values@.len() == nv,
            forall|q: int| 0 <= q < nv ==> (#[trigger] names@[q])@ == vs[q].0 && values@[q]@ == vs[q].1,
            i <= n,
            substituted(content@, vs) == out@ + substituted(text@.subrange(i as int, n as int), vs),
        decreases n - i,
    {
        let ghost s = text@.subrange(i as int, n as int);
        let ghost rest = text@.subrange(i + 1, n as int);
        assert(s.drop_first() =~= rest);
        assert(s[0] == text@[i as int]);
        // The longest name that follows position i.
        let mut best: Option<usize> = None;
        let mut q: usize = 0;
        while q < nv
            invariant
                nv == vs.len(),
                names@.len() == nv,
                forall|q2: int| 0 <= q2 < nv ==> (#[trigger] names@[q2])@ == vs[q2].0,
                i < n,
                n == text@.len(),
                rest == text@.subrange(i + 1, n as int),
                q <= nv,
                best matches Some(b) ==> b < q && longest_var(rest, vs, q as int) == Some(b as int),
                best is None ==> longest_var(rest, vs, q as int) is None,
            decreases nv - q,
        {
            let hit = name_follows(&text, i + 1, &names[q]);
            let longer = match best {
                None => true,
                Some(b) => names[b].len() < names[q].len(),
            };
            if hit && longer {
                best = Some(q);
            }
            q = q + 1;
        }
        proof {
            lemma_longest_var_names(rest, vs, nv as int);
        }
        let ghost before = out@;
        if text[i] == '$' && best.is_some() {
            let k = best.unwrap();
            let len = names[k].len();
            let value = &values[k];
            let mut t: usize = 0;
            while t < value.len()
                invariant
                    out@ == before + value@.subrange(0, t as int),
                    t <= value@.len(),
                decreases value@.len() - t,
            {
                out.push(value[t]);
                t = t + 1;
                assert(value@.subrange(0, t as int) =~= value@.subrange(0, t - 1).push(value@[t - 1]));
            }
            assert(value@.subrange(0, value@.len() as int) =~= value@);
            assert(s.subrange(1 + len, s.len() as int) =~= text@.subrange(i + 1 + len, n as int));
            i = i + 1 + len;
        } else {
            out.push(text[i]);
            assert(text@.subrange(i + 1, n as int) =~= s.drop_first());
            i = i + 1;
        }
    }
    assert(text@.subrange(n as int, n as int).len() == 0);
    string_from_chars(&out)
}

} // verus!
