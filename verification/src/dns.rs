//! Name records of the embedded DNS server: the proxy's host names, resolved to a local
//! address; other names go to an upstream server.
//!
//! Host names are compared in lowercase and without trailing dots.

use vstd::prelude::*;
use crate::case::{lowercase, to_lowercase};
use crate::observability::trim_suffix;
use crate::text::{chars_of, string_of, texts};

verus! {

/// Address the DNS server listens on by default.
pub const DNS_BIND: &'static str = "127.0.0.1:15353";

/// Upstream server by default.
pub const DNS_UPSTREAM: &'static str = "8.8.8.8:53";

/// Time to live of answers by default, in seconds.
pub const DNS_TTL: u32 = 60;

/// Settings of the DNS server.
#[derive(Debug)]
pub struct DnsConfig {
    pub enabled: bool,
    pub bind: String,
    pub upstream: String,
    pub ttl: u32,
}

impl Default for DnsConfig {
    /// Disabled, on the default address and upstream, with the default time to live.
    fn default() -> (r: Self)
        ensures
            !r.enabled,
            r.bind@ == DNS_BIND@,
            r.upstream@ == DNS_UPSTREAM@,
            r.ttl == DNS_TTL,
    {
        DnsConfig { enabled: false, bind: DNS_BIND.to_owned(), upstream: DNS_UPSTREAM.to_owned(), ttl: DNS_TTL }
    }
}

/// An IPv4 address, as its four octets.
#[derive(Clone, Copy, Debug, PartialEq, Eq, Structural)]
pub struct Ipv4Addr {
    pub a: u8,
    pub b: u8,
    pub c: u8,
    pub d: u8,
}

impl Ipv4Addr {
    /// The address `a.b.c.d`.
    pub fn new(a: u8, b: u8, c: u8, d: u8) -> (r: Self)
        ensures
            r.a == a && r.b == b && r.c == c && r.d == d,
    {
        Ipv4Addr { a, b, c, d }
    }
}

/// A host name as records are kept: lowercase, without trailing dots.
pub open spec fn normalized(h: Seq<char>) -> Seq<char> {
    trim_suffix(lowercase(h), seq!['.'])
}

/// `h` in lowercase, without trailing dots.
pub fn normalize_hostname(h: &str) -> (r: String)
    ensures
        r@ == normalized(h@),
{
    let l = to_lowercase(h);
    let lc = chars_of(l.as_str());
    let dot = vec!['.'];
    assert(dot@ =~= seq!['.']);
    let t = crate::observability::trim_suffix_chars(&lc, &dot);
    string_of(&t)
}

/// What follows the last `c` of `s` (all of `s` when it holds none).
pub open spec fn last_segment(s: Seq<char>, c: char) -> Seq<char>
    decreases s.len(),
{
    if s.len() == 0 {
        s
    } else if s.last() == c {
        Seq::empty()
    } else {
        last_segment(s.drop_last(), c).push(s.last())
    }
}

/// The top-level domain of a host name, in lowercase.
pub open spec fn tld_of(h: Seq<char>) -> Seq<char> {
    lowercase(last_segment(trim_suffix(h, seq!['.']), '.'))
}

pub(crate) fn last_segment_of(s: &[char], c: char) -> (r: Vec<char>)
    ensures
        r@ == last_segment(s@, c),
{
    let mut k: usize = s.len();
    while k > 0 && s[k - 1] != c
        invariant
            k <= s@.len(),
            forall|j: int| k <= j < s@.len() ==> s@[j] != c,
        decreases k,
    {
        k = k - 1;
    }
    proof {
        lemma_last_segment(s@, c, k as int);
    }
    crate::text::slice_chars(s, k, s.len())
}

proof fn lemma_last_segment(s: Seq<char>, c: char, k: int)
    requires
        0 <= k <= s.len(),
        forall|j: int| k <= j < s.len() ==> s[j] != c,
        k == 0 || s[k - 1] == c,
    ensures
        last_segment(s, c) == s.subrange(k, s.len() as int),
    decreases s.len(),
{
    if s.len() == 0 {
    } else if s.last() == c {
        assert(k == s.len());
        assert(s.subrange(k, s.len() as int) =~= Seq::<char>::empty());
    } else {
        assert(k < s.len());
        let d = s.drop_last();
        assert forall|j: int| k <= j < d.len() implies d[j] != c by {
            assert(d[j] == s[j]);
        }
        if k > 0 {
            assert(d[k - 1] == s[k - 1]);
        }
        lemma_last_segment(d, c, k);
        assert(d.subrange(k, d.len() as int).push(s.last()) =~= s.subrange(k, s.len() as int));
    }
}

/// The top-level domains of the host names, each once.
pub fn collect_tlds(hosts: &[String]) -> (r: Vec<String>)
    ensures
        texts(r@).no_duplicates(),
        forall|t: Seq<char>| #[trigger] texts(r@).contains(t) <==> exists|i: int| 0 <= i < hosts@.len() && tld_of(#[trigger] hosts@[i]@) == t,
{
    let mut r: Vec<String> = Vec::new();
    let mut i: usize = 0;
    while i < hosts.len()
        invariant
            i <= hosts@.len(),
            texts(r@).no_duplicates(),
            forall|t: Seq<char>| #[trigger] texts(r@).contains(t) <==> exists|j: int| 0 <= j < i && tld_of(#[trigger] hosts@[j]@) == t,
        decreases hosts.len() - i,
    {
        let hc = chars_of(hosts[i].as_str());
        let dot = vec!['.'];
        let trimmed = crate::observability::trim_suffix_chars(&hc, &dot);
        proof {
            assert(dot@ =~= seq!['.']);
        }
        let seg = string_of(&last_segment_of(&trimmed, '.'));
        let tld = to_lowercase(seg.as_str());
        let ghost t = tld@;
        assert(t == tld_of(hosts@[i as int]@));
        let mut k: usize = 0;
        let mut seen = false;
        while k < r.len()
            invariant
                k <= r@.len(),
                seen <==> exists|j: int| 0 <= j < k && (#[trigger] r@[j])@ == t,
                tld@ == t,
            decreases r.len() - k,
        {
            if crate::text::str_eq(r[k].as_str(), tld.as_str()) {
                seen = true;
            }
            k = k + 1;
        }
        let ghost r0 = texts(r@);
        proof {
            if seen {
                let j = choose|j: int| 0 <= j < r@.len() && (#[trigger] r@[j])@ == t;
                assert(r0[j] == t);
            }
            if r0.contains(t) {
                let j = choose|j: int| 0 <= j < r0.len() && r0[j] == t;
                assert(r@[j]@ == t);
            }
        }
        if !seen {
            r.push(tld);
            proof {
                assert(texts(r@) =~= r0.push(t));
                assert forall|a: int, b: int| 0 <= a < texts(r@).len() && 0 <= b < texts(r@).len() && a != b implies texts(r@)[a] != texts(r@)[b] by {
                    if a < r0.len() && b < r0.len() {
                    } else if a < r0.len() {
                        assert(r0.contains(texts(r@)[a]));
                    } else {
                        assert(r0.contains(texts(r@)[b]));
                    }
                }
            }
        }
        proof {
            assert forall|u: Seq<char>| #[trigger] texts(r@).contains(u) <==> exists|j: int| 0 <= j < i + 1 && tld_of(#[trigger] hosts@[j]@) == u by {
                if texts(r@).contains(u) {
                    if r0.contains(u) {
                        let j = choose|j: int| 0 <= j < i && tld_of(#[trigger] hosts@[j]@) == u;
                    } else {
                        assert(u == t);
                        assert(tld_of(hosts@[i as int]@) == u);
                    }
                }
                if exists|j: int| 0 <= j < i + 1 && tld_of(#[trigger] hosts@[j]@) == u {
                    let j = choose|j: int| 0 <= j < i + 1 && tld_of(#[trigger] hosts@[j]@) == u;
                    if j < i {
                        assert(r0.contains(u));
                        let q = choose|q: int| 0 <= q < r0.len() && r0[q] == u;
                        assert(texts(r@)[q] == u);
                    } else {
                        if !seen {
                            assert(texts(r@)[r0.len() as int] == u);
                        } else {
                            let q = choose|q: int| 0 <= q < r0.len() && r0[q] == u;
                            assert(texts(r@)[q] == u);
                        }
                    }
                }
            }
        }
        i = i + 1;
    }
    r
}

/// What a record table holds: each host name with its address.
pub uninterp spec fn stored_records(m: dashmap::DashMap<String, Ipv4Addr>) -> Map<Seq<char>, Ipv4Addr>;

/// No records at all.
pub open spec fn no_records() -> Map<Seq<char>, Ipv4Addr> {
    Map::empty()
}

/// An empty table (`DashMap::new`).
#[verifier::external_body]
fn records_new() -> (r: dashmap::DashMap<String, Ipv4Addr>)
    ensures
        stored_records(r) == no_records(),
{
    dashmap::DashMap::new()
}

/// `DashMap::insert`: afterwards `key` holds `ip`; the other entries stay.
#[verifier::external_body]
fn records_insert(m: &mut dashmap::DashMap<String, Ipv4Addr>, key: String, ip: Ipv4Addr)
    ensures
        stored_records(*final(m)) == stored_records(*old(m)).insert(key@, ip),
{
    m.insert(key, ip);
}

/// `DashMap::remove`: afterwards `key` holds nothing; the other entries stay.
#[verifier::external_body]
fn records_remove(m: &mut dashmap::DashMap<String, Ipv4Addr>, key: &str)
    ensures
        stored_records(*final(m)) == stored_records(*old(m)).remove(key@),
{
    m.remove(key);
}

/// `DashMap::clear`: afterwards the table holds nothing.
#[verifier::external_body]
fn records_clear(m: &mut dashmap::DashMap<String, Ipv4Addr>)
    ensures
        stored_records(*final(m)) == no_records(),
{
    m.clear();
}

/// `DashMap::get`: the address under `key`, if there is one.
#[verifier::external_body]
fn records_get(m: &dashmap::DashMap<String, Ipv4Addr>, key: &str) -> (r: Option<Ipv4Addr>)
    ensures
        r == (if stored_records(*m).contains_key(key@) { Some(stored_records(*m)[key@]) } else { None }),
{
    m.get(key).map(|e| *e.value())
}

/// `DashMap::iter`: every host name, each once, in the order the table is walked.
#[verifier::external_body]
fn records_keys(m: &dashmap::DashMap<String, Ipv4Addr>) -> (r: Vec<String>)
    ensures
        r@.len() == stored_records(*m).len(),
        texts(r@).no_duplicates(),
        forall|k: Seq<char>| #[trigger] texts(r@).contains(k) <==> stored_records(*m).contains_key(k),
{
    m.iter().map(|e| copy_text(e.key())).collect()
}

/// A copy of a host name.
fn copy_text(s: &String) -> (r: String)
    ensures
        r@ == s@,
{
    s.clone()
}

/// The records of the DNS server: host names and their addresses.
pub struct DnsServer {
    pub records: dashmap::DashMap<String, Ipv4Addr>,
    pub config: DnsConfig,
}

impl DnsServer {
    /// The address of each recorded host name.
    pub closed spec fn record_map(&self) -> Map<Seq<char>, Ipv4Addr> {
        stored_records(self.records)
    }

    /// A server without records.
    pub fn new(config: DnsConfig) -> (r: Self)
        ensures
            r.record_map() == Map::<Seq<char>, Ipv4Addr>::empty(),
            r.config == config,
    {
        DnsServer { records: records_new(), config }
    }

    /// Records the address of a host name (normalized).
    pub fn add_record(&mut self, hostname: &str, ip: Ipv4Addr)
        ensures
            final(self).record_map() == old(self).record_map().insert(normalized(hostname@), ip),
            final(self).config == old(self).config,
    {
        let key = normalize_hostname(hostname);
        records_insert(&mut self.records, key, ip);
    }

    /// Forgets the record of a host name (normalized).
    pub fn remove_record(&mut self, hostname: &str)
        ensures
            final(self).record_map() == old(self).record_map().remove(normalized(hostname@)),
            final(self).config == old(self).config,
    {
        let key = normalize_hostname(hostname);
        records_remove(&mut self.records, key.as_str());
    }

    /// Replaces all records: each host name (normalized) resolves to `ip`.
    pub fn sync_records(&mut self, hosts: &[String], ip: Ipv4Addr)
        ensures
            forall|k: Seq<char>| #[trigger] final(self).record_map().contains_key(k) <==> exists|i: int|
                0 <= i < hosts@.len() && normalized(#[trigger] hosts@[i]@) == k,
            forall|k: Seq<char>| #[trigger] final(self).record_map().contains_key(k) ==> final(self).record_map()[k] == ip,
            final(self).config == old(self).config,
    {
        records_clear(&mut self.records);
        assert(self.record_map() =~= Map::<Seq<char>, Ipv4Addr>::empty());
        let mut i: usize = 0;
        while i < hosts.len()
            invariant
                i <= hosts@.len(),
                self.config == old(self).config,
                forall|k: Seq<char>| #[trigger] self.record_map().contains_key(k) <==> exists|j: int|
                    0 <= j < i && normalized(#[trigger] hosts@[j]@) == k,
                forall|k: Seq<char>| #[trigger] self.record_map().contains_key(k) ==> self.record_map()[k] == ip,
            decreases hosts.len() - i,
        {
            let ghost m0 = self.record_map();
            self.add_record(hosts[i].as_str(), ip);
            proof {
                assert forall|k: Seq<char>| #[trigger] self.record_map().contains_key(k) <==> exists|j: int|
                    0 <= j < i + 1 && normalized(#[trigger] hosts@[j]@) == k by {
                    if self.record_map().contains_key(k) && k != normalized(hosts@[i as int]@) {
                        assert(m0.contains_key(k));
                        let j = choose|j: int| 0 <= j < i && normalized(#[trigger] hosts@[j]@) == k;
                    }
                    if exists|j: int| 0 <= j < i + 1 && normalized(#[trigger] hosts@[j]@) == k {
                        let j = choose|j: int| 0 <= j < i + 1 && normalized(#[trigger] hosts@[j]@) == k;
                        if j < i {
                            assert(m0.contains_key(k));
                        }
                    }
                }
            }
            i = i + 1;
        }
    }

    /// The address of a host name (normalized), if recorded.
    pub fn lookup(&self, hostname: &str) -> (r: Option<Ipv4Addr>)
        ensures
            r == (if self.record_map().contains_key(normalized(hostname@)) {
                Some(self.record_map()[normalized(hostname@)])
            } else {
                None
            }),
    {
        let key = normalize_hostname(hostname);
        records_get(&self.records, key.as_str())
    }

    /// The recorded host names, each once.
    pub fn hostnames(&self) -> (r: Vec<String>)
        ensures
            r@.len() == self.record_map().len(),
            texts(r@).no_duplicates(),
            forall|k: Seq<char>| #[trigger] texts(r@).contains(k) <==> self.record_map().contains_key(k),
    {
        records_keys(&self.records)
    }
}

/// What is recorded for a host name is found again under any spelling that normalizes the
/// same, until the name is removed.
pub proof fn lemma_lookup_after_add(m: Map<Seq<char>, Ipv4Addr>, h: Seq<char>, other: Seq<char>, ip: Ipv4Addr)
    requires
        normalized(other) == normalized(h),
    ensures
        m.insert(normalized(h), ip).contains_key(normalized(other)),
        m.insert(normalized(h), ip)[normalized(other)] == ip,
        !m.insert(normalized(h), ip).remove(normalized(h)).contains_key(normalized(other)),
{
}

/// The resolver file that sends a top-level domain to this server: `/etc/resolver/<tld>`.
pub fn resolver_path(tld: &str) -> (r: String)
    ensures
        r@ == "/etc/resolver/"@ + tld@,
{
    let mut p = "/etc/resolver/".to_owned();
    p.append(tld);
    p
}

/// The content of a resolver file for a server on local port `port`:
/// `nameserver 127.0.0.1`, then `port <port>`, each on a line.
pub fn resolver_content(port: u16) -> (r: String)
    ensures
        r@ == "nameserver 127.0.0.1\nport "@ + crate::text::decimal(port as nat) + "\n"@,
{
    let mut c = "nameserver 127.0.0.1\nport ".to_owned();
    c.append(string_of(&crate::text::u64_decimal(port as u64)).as_str());
    c.append("\n");
    c
}

/// What the server does with a query.
#[derive(Clone, Copy, Debug, PartialEq, Eq, Structural)]
pub enum QueryAnswer {
    /// Answer with this address, with the server's time to live.
    Local { address: Ipv4Addr, ttl: u32 },
    /// Send the query on to the upstream server and relay its reply.
    Forward,
}

impl DnsServer {
    /// What to do with a query for `qname`, which asks for an IPv4 address when
    /// `asks_ipv4`: answer it from the records when it asks for an address the server has
    /// recorded for the normalized name, else forward it; a query without a question is
    /// refused (`None`).
    pub fn answer_query(&self, question: Option<(&str, bool)>) -> (r: Option<QueryAnswer>)
        ensures
            match question {
                None => r is None,
                Some((qname, asks_ipv4)) => r == Some(
                    if asks_ipv4 && self.record_map().contains_key(normalized(qname@)) {
                        QueryAnswer::Local { address: self.record_map()[normalized(qname@)], ttl: self.config.ttl }
                    } else {
                        QueryAnswer::Forward
                    },
                ),
            },
    {
        match question {
            None => None,
            Some((qname, asks_ipv4)) => {
                if asks_ipv4 {
                    match self.lookup(qname) {
                        Some(address) => {
                            return Some(QueryAnswer::Local { address, ttl: self.config.ttl });
                        },
                        None => {},
                    }
                }
                Some(QueryAnswer::Forward)
            },
        }
    }
}

} // verus!
