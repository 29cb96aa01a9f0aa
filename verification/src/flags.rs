//! File flags: marking files as being in a state (reviewed, tested, ...) and telling when a
//! flagged file has changed since.
//!
//! The flags of a state are kept in an index, one line `path mtime hash` per file, sorted
//! by path; `hash` is the start of the file's SHA-256 digest.

use vstd::prelude::*;
use crate::assoc::{assoc_find, assoc_keys, assoc_view, lemma_assoc_insert_at, lemma_assoc_remove, lemma_assoc_replace};
use crate::crypto::hex_text;
use crate::text::{chars_lt, chars_of, decimal, lemma_str_lt_asym, lemma_str_lt_total, lemma_str_lt_trans, parse_u64, parse_unsigned, str_eq, str_lt, string_of, texts, trim};

verus! {

/// Where the configuration lives, relative to the project root.
pub const CONFIG_PATH: &'static str = ".adi/flags.toml";

/// Where the indexes live, relative to the project root.
pub const CACHE_DIR: &'static str = ".adi/cache/flags";

/// Why a flag operation fails.
#[derive(Debug)]
pub enum FlagsError {
    /// Reading or writing a file failed.
    Io(String),
    /// The configuration could not be read.
    Config(String),
    /// The state is not configured.
    UnknownState(String),
    /// There is no configuration.
    NoConfig,
    Other(String),
}

impl FlagsError {
    /// The error message.
    pub fn message(&self) -> (r: String)
        ensures
            r@ == (match self {
                FlagsError::Io(m) => "io: "@ + m@,
                FlagsError::Config(m) => "config parse: "@ + m@,
                FlagsError::UnknownState(s) => "state '"@ + s@ + "' not configured in .adi/flags.toml"@,
                FlagsError::NoConfig => "no .adi/flags.toml found \u{2014} run `adi flags init`"@,
                FlagsError::Other(m) => m@,
            }),
    {
        match self {
            FlagsError::Io(m) => {
                let mut s = "io: ".to_owned();
                s.append(m.as_str());
                s
            },
            FlagsError::Config(m) => {
                let mut s = "config parse: ".to_owned();
                s.append(m.as_str());
                s
            },
            FlagsError::UnknownState(st) => {
                let mut s = "state '".to_owned();
                s.append(st.as_str());
                s.append("' not configured in .adi/flags.toml");
                s
            },
            FlagsError::NoConfig => "no .adi/flags.toml found \u{2014} run `adi flags init`".to_owned(),
            FlagsError::Other(m) => m.clone(),
        }
    }
}

/// How changes are detected.
#[derive(Clone, Copy, Debug, PartialEq, Eq, Structural)]
pub enum CheckMode {
    /// By modification time only: fast, may report a change where there is none.
    Fast,
    /// By modification time, then confirmed by the hash.
    Strict,
}

impl Default for CheckMode {
    fn default() -> (r: Self)
        ensures
            r == CheckMode::Fast,
    {
        CheckMode::Fast
    }
}

/// A configured state.
#[derive(Debug)]
pub struct StateConfig {
    pub description: String,
}

/// The flags configuration of a project.
#[derive(Debug)]
pub struct FlagsConfig {
    pub check: CheckMode,
    /// The states, by name.
    pub states: Vec<(String, StateConfig)>,
}

/// A flagged file: its path, modification time (Unix seconds) and hash when flagged.
#[derive(Debug)]
pub struct FlagEntry {
    pub path: String,
    pub mtime: u64,
    pub hash: String,
}

fn copy_entry(e: &FlagEntry) -> (r: FlagEntry)
    ensures
        r == *e,
{
    FlagEntry { path: e.path.clone(), mtime: e.mtime, hash: e.hash.clone() }
}

/// How a flagged file is doing.
#[derive(Clone, Copy, Debug, PartialEq, Eq, Structural)]
pub enum FileStatus {
    Clean,
    Dirty,
    Missing,
}

/// `base/rel` as paths join: nothing is added to an empty base, and no second `/` after a
/// base ending with one.
pub open spec fn joined(base: Seq<char>, rel: Seq<char>) -> Seq<char> {
    if base.len() == 0 {
        rel
    } else if base.last() == '/' {
        base + rel
    } else {
        base + seq!['/'] + rel
    }
}

/// `base/rel`.
pub fn join_path(base: &str, rel: &str) -> (r: String)
    ensures
        r@ == joined(base@, rel@),
{
    let b = chars_of(base);
    let mut out = b.clone();
    if b.len() > 0 && b[b.len() - 1] != '/' {
        out.push('/');
    }
    crate::text::push_str(&mut out, rel);
    let r = string_of(&out);
    assert(r@ =~= joined(base@, rel@));
    r
}

/// Where the configuration of the project at `root` lives.
pub fn config_path(root: &str) -> (r: String)
    ensures
        r@ == joined(root@, CONFIG_PATH@),
{
    join_path(root, CONFIG_PATH)
}

/// Where the index of `state` lives for the project at `root`.
pub fn index_path(root: &str, state: &str) -> (r: String)
    ensures
        r@ == joined(joined(root@, CACHE_DIR@), state@),
{
    let dir = join_path(root, CACHE_DIR);
    join_path(dir.as_str(), state)
}

/// Checks that `state` is configured.
pub fn validate_state(config: &FlagsConfig, state: &str) -> (r: Result<(), FlagsError>)
    ensures
        assoc_view(config.states@).contains_key(state@) ==> r is Ok,
        !assoc_view(config.states@).contains_key(state@) ==> (r matches Err(FlagsError::UnknownState(s)) && s@ == state@),
{
    match assoc_find(&config.states, &chars_of(state)) {
        Some(_) => Ok(()),
        None => Err(FlagsError::UnknownState(state.to_owned())),
    }
}

/// The position of the last `c` in `s` before position `end`.
pub open spec fn last_before(s: Seq<char>, c: char, end: int) -> Option<int>
    decreases end,
{
    if end <= 0 {
        None
    } else if s[end - 1] == c {
        Some(end - 1)
    } else {
        last_before(s, c, end - 1)
    }
}

/// The entry an index line holds: `path mtime hash`, split at its last two spaces (the
/// path may hold spaces), the time a decimal number.
pub open spec fn entry_of_line(line: Seq<char>) -> Option<(Seq<char>, nat, Seq<char>)> {
    match last_before(line, ' ', line.len() as int) {
        None => None,
        Some(j) => match last_before(line, ' ', j) {
            None => None,
            Some(i) => match parse_unsigned(line.subrange(i + 1, j), u64::MAX as nat) {
                Some(m) => Some((line.take(i), m, line.skip(j + 1))),
                None => None,
            },
        },
    }
}

fn last_before_exec(s: &Vec<char>, c: char, end: usize) -> (r: Option<usize>)
    requires
        end <= s@.len(),
    ensures
        match r {
            Some(k) => last_before(s@, c, end as int) == Some(k as int),
            None => last_before(s@, c, end as int) is None,
        },
    decreases end,
{
    if end == 0 {
        None
    } else if s[end - 1] == c {
        Some(end - 1)
    } else {
        last_before_exec(s, c, end - 1)
    }
}

/// The entry of an index line.
pub fn parse_entry(line: &str) -> (r: Option<FlagEntry>)
    ensures
        match entry_of_line(line@) {
            Some((p, m, h)) => r matches Some(e) && e.path@ == p && e.mtime == m && e.hash@ == h,
            None => r is None,
        },
{
    let c = chars_of(line);
    let j = match last_before_exec(&c, ' ', c.len()) {
        Some(j) => j,
        None => return None,
    };
    proof {
        lemma_last_before_bound(c@, ' ', c@.len() as int);
    }
    let i = match last_before_exec(&c, ' ', j) {
        Some(i) => i,
        None => return None,
    };
    proof {
        lemma_last_before_bound(c@, ' ', j as int);
    }
    let digits = crate::text::slice_chars(&c, i + 1, j);
    match parse_u64(&digits) {
        Some(m) => {
            let path = string_of(&crate::text::slice_chars(&c, 0, i));
            let hash = string_of(&crate::text::slice_chars(&c, j + 1, c.len()));
            assert(c@.subrange(0, i as int) =~= line@.take(i as int));
            assert(c@.subrange(j + 1, c@.len() as int) =~= line@.skip(j + 1));
            Some(FlagEntry { path, mtime: m, hash })
        },
        None => None,
    }
}

proof fn lemma_last_before_bound(s: Seq<char>, c: char, end: int)
    requires
        0 <= end <= s.len(),
    ensures
        last_before(s, c, end) matches Some(k) ==> 0 <= k < end && s[k] == c,
    decreases end,
{
    if end > 0 && s[end - 1] != c {
        lemma_last_before_bound(s, c, end - 1);
    }
}

// ---------------------------------------------------------------------------
// The index
// ---------------------------------------------------------------------------

/// The flags of a state, by path, in increasing order of path.
#[derive(Debug)]
pub struct FlagIndex {
    pub entries: Vec<(String, FlagEntry)>,
}

/// Keys in strictly increasing order.
pub open spec fn keys_sorted(keys: Seq<Seq<char>>) -> bool {
    forall|i: int, j: int| 0 <= i < j < keys.len() ==> str_lt(#[trigger] keys[i], #[trigger] keys[j])
}

impl FlagIndex {
    /// The entries by path.
    pub open spec fn map(&self) -> Map<Seq<char>, FlagEntry> {
        assoc_view(self.entries@)
    }

    /// Paths in increasing order, each entry under its own path.
    pub open spec fn wf(&self) -> bool {
        &&& keys_sorted(assoc_keys(self.entries@))
        &&& forall|i: int| 0 <= i < self.entries@.len() ==> (#[trigger] self.entries@[i]).1.path@ == self.entries@[i].0@
    }

    /// An empty index.
    pub fn new() -> (r: Self)
        ensures
            r.wf(),
            r.map() == Map::<Seq<char>, FlagEntry>::empty(),
    {
        let r = FlagIndex { entries: Vec::new() };
        assert(r.map() =~= Map::<Seq<char>, FlagEntry>::empty());
        r
    }

    /// The number of flagged files.
    pub fn len(&self) -> (r: usize)
        requires
            self.wf(),
        ensures
            r == self.map().dom().len(),
    {
        proof {
            lemma_sorted_no_dup(assoc_keys(self.entries@));
            lemma_map_len(self.entries@);
        }
        self.entries.len()
    }

    /// Flags `entry` under its path, replacing an earlier flag of that path.
    pub fn insert(&mut self, entry: FlagEntry)
        requires
            old(self).wf(),
        ensures
            final(self).wf(),
            final(self).map() == old(self).map().insert(entry.path@, entry),
    {
        let key = chars_of(entry.path.as_str());
        let mut p: usize = 0;
        while p < self.entries.len() && chars_lt(&chars_of(self.entries[p].0.as_str()), &key)
            invariant
                p <= self.entries@.len(),
                key@ == entry.path@,
                forall|q: int| 0 <= q < p ==> str_lt((#[trigger] self.entries@[q]).0@, key@),
            decreases self.entries.len() - p,
        {
            p = p + 1;
        }
        let ghost ks = assoc_keys(self.entries@);
        proof {
            lemma_sorted_no_dup(ks);
        }
        if p < self.entries.len() && str_eq(self.entries[p].0.as_str(), entry.path.as_str()) {
            let k = self.entries[p].0.clone();
            proof {
                lemma_assoc_replace(self.entries@, p as int, (k, entry));
            }
            let ghost before = self.entries@;
            self.entries.set(p, (k, entry));
            proof {
                assert(assoc_keys(self.entries@) =~= ks);
                assert forall|i: int| 0 <= i < self.entries@.len() implies (#[trigger] self.entries@[i]).1.path@ == self.entries@[i].0@ by {
                    if i != p {
                        assert(self.entries@[i] == before[i]);
                    }
                }
            }
        } else {
            proof {
                // the path is not present: smaller keys come before p, larger ones from p on
                assert forall|q: int| 0 <= q < ks.len() implies ks[q] != entry.path@ by {
                    if q < p {
                        lemma_str_lt_asym(ks[q], entry.path@);
                    } else {
                        assert(p < ks.len());
                        assert(!str_lt(ks[p as int], entry.path@));
                        assert(ks[p as int] != entry.path@);
                        lemma_str_lt_total(ks[p as int], entry.path@);
                        if q > p {
                            lemma_str_lt_trans(entry.path@, ks[p as int], ks[q]);
                            lemma_str_lt_asym(entry.path@, entry.path@);
                        } else {
                            lemma_str_lt_asym(entry.path@, entry.path@);
                        }
                    }
                }
                lemma_not_in_view(self.entries@, entry.path@);
            }
            let k = entry.path.clone();
            let ghost e = (k, entry);
            proof {
                lemma_assoc_insert_at(self.entries@, p as int, e);
            }
            let ghost before = self.entries@;
            self.entries.insert(p, (k, entry));
            proof {
                let nk = assoc_keys(self.entries@);
                assert(nk =~= ks.insert(p as int, entry.path@));
                assert forall|i: int, j: int| 0 <= i < j < nk.len() implies str_lt(#[trigger] nk[i], #[trigger] nk[j]) by {
                    let ii = if i < p { i } else if i == p { -1 } else { i - 1 };
                    let jj = if j < p { j } else if j == p { -1 } else { j - 1 };
                    if ii >= 0 && jj >= 0 {
                        assert(nk[i] == ks[ii] && nk[j] == ks[jj]);
                    } else if ii < 0 {
                        assert(nk[j] == ks[jj]);
                        assert(!str_lt(ks[p as int], entry.path@));
                        lemma_str_lt_total(ks[p as int], entry.path@);
                        if jj > p {
                            lemma_str_lt_trans(entry.path@, ks[p as int], ks[jj]);
                        }
                    } else {
                        assert(nk[i] == ks[ii]);
                    }
                }
                assert forall|i: int| 0 <= i < self.entries@.len() implies (#[trigger] self.entries@[i]).1.path@ == self.entries@[i].0@ by {
                    if i < p {
                        assert(self.entries@[i] == before[i]);
                    } else if i > p {
                        assert(self.entries@[i] == before[i - 1]);
                    }
                }
            }
        }
    }

    /// Removes the flag of `path`; returns whether there was one.
    pub fn remove(&mut self, path: &str) -> (r: bool)
        requires
            old(self).wf(),
        ensures
            final(self).wf(),
            r == old(self).map().contains_key(path@),
            final(self).map() == old(self).map().remove(path@),
    {
        proof {
            lemma_sorted_no_dup(assoc_keys(self.entries@));
        }
        match assoc_find(&self.entries, &chars_of(path)) {
            Some(j) => {
                let ghost before = self.entries@;
                proof {
                    lemma_assoc_remove(self.entries@, j as int);
                }
                self.entries.remove(j);
                proof {
                    let ks = assoc_keys(before);
                    let nk = assoc_keys(self.entries@);
                    assert(nk =~= ks.remove(j as int));
                    assert forall|a: int, b: int| 0 <= a < b < nk.len() implies str_lt(#[trigger] nk[a], #[trigger] nk[b]) by {
                        let aa = if a < j { a } else { a + 1 };
                        let bb = if b < j { b } else { b + 1 };
                        assert(nk[a] == ks[aa] && nk[b] == ks[bb]);
                    }
                    assert forall|i: int| 0 <= i < self.entries@.len() implies (#[trigger] self.entries@[i]).1.path@ == self.entries@[i].0@ by {
                        if i < j {
                            assert(self.entries@[i] == before[i]);
                        } else {
                            assert(self.entries@[i] == before[i + 1]);
                        }
                    }
                }
                true
            },
            None => {
                assert(self.map() =~= old(self).map().remove(path@));
                false
            },
        }
    }

    /// The entries in order of path.
    pub fn values(&self) -> (r: Vec<FlagEntry>)
        ensures
            r@.len() == self.entries@.len(),
            forall|i: int| 0 <= i < r@.len() ==> #[trigger] r@[i] == self.entries@[i].1,
    {
        let mut r: Vec<FlagEntry> = Vec::new();
        let mut i: usize = 0;
        while i < self.entries.len()
            invariant
                i <= self.entries@.len(),
                r@.len() == i,
                forall|k: int| 0 <= k < i ==> #[trigger] r@[k] == self.entries@[k].1,
            decreases self.entries.len() - i,
        {
            r.push(copy_entry(&self.entries[i].1));
            i = i + 1;
        }
        r
    }
}

/// Sorted keys are distinct.
proof fn lemma_sorted_no_dup(keys: Seq<Seq<char>>)
    requires
        keys_sorted(keys),
    ensures
        keys.no_duplicates(),
{
    assert forall|i: int, j: int| 0 <= i < keys.len() && 0 <= j < keys.len() && i != j implies keys[i] != keys[j] by {
        if i < j {
            lemma_str_lt_asym(keys[i], keys[j]);
            assert(str_lt(keys[i], keys[j]));
            if keys[i] == keys[j] {
                lemma_str_lt_asym(keys[i], keys[i]);
            }
        } else {
            assert(str_lt(keys[j], keys[i]));
            if keys[i] == keys[j] {
                lemma_str_lt_asym(keys[i], keys[i]);
            }
        }
    }
}

/// A key no pair has is not in the map view.
proof fn lemma_not_in_view(m: Seq<(String, FlagEntry)>, k: Seq<char>)
    requires
        forall|q: int| 0 <= q < assoc_keys(m).len() ==> assoc_keys(m)[q] != k,
    ensures
        !assoc_view(m).contains_key(k),
{
    assert forall|i: int| 0 <= i < m.len() implies (#[trigger] m[i]).0@ != k by {
        assert(assoc_keys(m)[i] == m[i].0@);
    }
    crate::assoc::lemma_not_key(m, k);
}

/// A table without duplicate keys has as many keys in its map view as pairs.
proof fn lemma_map_len(m: Seq<(String, FlagEntry)>)
    requires
        assoc_keys(m).no_duplicates(),
    ensures
        assoc_view(m).dom().len() == m.len(),
        assoc_view(m).dom().finite(),
    decreases m.len(),
{
    if m.len() > 0 {
        let d = m.drop_last();
        assert(assoc_keys(d) =~= assoc_keys(m).drop_last());
        lemma_map_len(d);
        assert forall|i: int| 0 <= i < d.len() implies (#[trigger] d[i]).0@ != m.last().0@ by {
            assert(assoc_keys(m)[i] == d[i].0@);
            assert(assoc_keys(m)[m.len() - 1] == m.last().0@);
        }
        crate::assoc::lemma_not_key(d, m.last().0@);
    } else {
        assert(assoc_view(m).dom() =~= Set::<Seq<char>>::empty());
    }
}

/// The entries of index lines read in order: blank lines and comment lines (`#`) are
/// skipped (after trimming), unreadable lines ignored, and a later line for a path wins.
pub open spec fn index_of_lines(lines: Seq<Seq<char>>) -> Map<Seq<char>, (nat, Seq<char>)>
    decreases lines.len(),
{
    if lines.len() == 0 {
        Map::empty()
    } else {
        let before = index_of_lines(lines.drop_last());
        let t = trim(lines.last());
        if t.len() == 0 || t[0] == '#' {
            before
        } else {
            match entry_of_line(t) {
                Some((p, m, h)) => before.insert(p, (m, h)),
                None => before,
            }
        }
    }
}

/// What an index holds for each path: its time and hash.
pub open spec fn index_contents(m: Map<Seq<char>, FlagEntry>) -> Map<Seq<char>, (nat, Seq<char>)> {
    m.map_values(|e: FlagEntry| (e.mtime as nat, e.hash@))
}

/// The index written in `lines` (the lines of an index file).
pub fn load_index(lines: &[String]) -> (r: FlagIndex)
    ensures
        r.wf(),
        index_contents(r.map()) == index_of_lines(texts(lines@)),
        forall|k: Seq<char>| #[trigger] r.map().contains_key(k) ==> r.map()[k].path@ == k,
{
    let mut index = FlagIndex::new();
    let mut i: usize = 0;
    while i < lines.len()
        invariant
            i <= lines@.len(),
            index.wf(),
            index_contents(index.map()) == index_of_lines(texts(lines@.take(i as int))),
            forall|k: Seq<char>| #[trigger] index.map().contains_key(k) ==> index.map()[k].path@ == k,
        decreases lines.len() - i,
    {
        assert(texts(lines@.take(i + 1)).drop_last() =~= texts(lines@.take(i as int)));
        let t = crate::text::trim_chars(&chars_of(lines[i].as_str()));
        if !(t.len() == 0 || t[0] == '#') {
            let ts = string_of(&t);
            match parse_entry(ts.as_str()) {
                Some(e) => {
                    let ghost m0 = index.map();
                    index.insert(e);
                    proof {
                        assert(index_contents(index.map()) =~= index_contents(m0).insert(e.path@, (e.mtime as nat, e.hash@)));
                    }
                },
                None => {},
            }
        }
        assert(index_contents(index.map()) =~= index_of_lines(texts(lines@.take(i + 1))));
        i = i + 1;
    }
    assert(lines@.take(lines@.len() as int) =~= lines@);
    index
}

/// One index line: `path mtime hash` and a line break.
pub open spec fn entry_line(e: FlagEntry) -> Seq<char> {
    e.path@ + seq![' '] + decimal(e.mtime as nat) + seq![' '] + e.hash@ + seq!['\n']
}

/// The text of the first `n` entries.
pub open spec fn index_text_upto(entries: Seq<(String, FlagEntry)>, n: nat) -> Seq<char>
    decreases n,
{
    if n == 0 || n > entries.len() {
        Seq::empty()
    } else {
        index_text_upto(entries, (n - 1) as nat) + entry_line(entries[n - 1].1)
    }
}

/// The text of an index file: one line per entry, in order of path.
pub fn save_index(index: &FlagIndex) -> (r: String)
    ensures
        r@ == index_text_upto(index.entries@, index.entries@.len()),
{
    let mut out: Vec<char> = Vec::new();
    let mut i: usize = 0;
    while i < index.entries.len()
        invariant
            i <= index.entries@.len(),
            out@ == index_text_upto(index.entries@, i as nat),
        decreases index.entries.len() - i,
    {
        let e = &index.entries[i].1;
        let ghost o0 = out@;
        crate::text::push_str(&mut out, e.path.as_str());
        out.push(' ');
        let d = crate::text::u64_decimal(e.mtime);
        crate::text::push_all(&mut out, &d);
        out.push(' ');
        crate::text::push_str(&mut out, e.hash.as_str());
        out.push('\n');
        assert(out@ =~= o0 + entry_line(*e));
        i = i + 1;
    }
    string_of(&out)
}

// ---------------------------------------------------------------------------
// Hashes and states of files
// ---------------------------------------------------------------------------

/// The SHA-256 digest of `data`.
pub uninterp spec fn sha256(data: Seq<u8>) -> Seq<u8>;

/// `sha2::Sha256::digest`: the 32-byte SHA-256 digest of `data`. The digest is only named
/// (`sha256`), not described.
#[verifier::external_body]
fn sha256_digest(data: &[u8]) -> (r: Vec<u8>)
    ensures
        r@ == sha256(data@),
        r@.len() == 32,
{
    <sha2::Sha256 as sha2::Digest>::digest(data).to_vec()
}

/// The hash recorded for a file's content: the first ten hexadecimal digits of its SHA-256
/// digest.
pub open spec fn content_hash(content: Seq<u8>) -> Seq<char> {
    hex_text(sha256(content)).take(10)
}

/// The hash recorded for a file's content.
pub fn compute_hash(content: &[u8]) -> (r: String)
    ensures
        r@ == content_hash(content@),
{
    let digest = sha256_digest(content);
    let full = crate::crypto::hex_encode(&digest);
    proof {
        lemma_hex_len(sha256(content@));
    }
    let c = chars_of(full.as_str());
    let r = string_of(&crate::text::slice_chars(&c, 0, 10));
    assert(r@ =~= content_hash(content@));
    r
}

proof fn lemma_hex_len(b: Seq<u8>)
    ensures
        hex_text(b).len() == 2 * b.len(),
    decreases b.len(),
{
    if b.len() > 0 {
        lemma_hex_len(b.drop_last());
    }
}

/// What the file system says about a flagged file now.
#[derive(Debug)]
pub struct FileProbe {
    pub exists: bool,
    /// Its modification time, in Unix seconds.
    pub mtime: u64,
    /// The hash of its content (needed only to confirm a change in strict mode).
    pub hash: Option<String>,
}

/// How a flagged file is doing: missing; clean when its time is unchanged; otherwise dirty,
/// except that strict mode calls it clean when its hash is unchanged.
pub open spec fn status_of(e: FlagEntry, p: FileProbe, mode: CheckMode) -> FileStatus {
    if !p.exists {
        FileStatus::Missing
    } else if p.mtime == e.mtime {
        FileStatus::Clean
    } else if mode == CheckMode::Strict && (p.hash matches Some(h) && h@ == e.hash@) {
        FileStatus::Clean
    } else {
        FileStatus::Dirty
    }
}

/// How a flagged file is doing.
pub fn file_status(entry: &FlagEntry, probe: &FileProbe, mode: CheckMode) -> (r: FileStatus)
    ensures
        r == status_of(*entry, *probe, mode),
{
    if !probe.exists {
        return FileStatus::Missing;
    }
    if probe.mtime == entry.mtime {
        return FileStatus::Clean;
    }
    match mode {
        CheckMode::Fast => FileStatus::Dirty,
        CheckMode::Strict => match &probe.hash {
            Some(h) => if str_eq(h.as_str(), entry.hash.as_str()) {
                FileStatus::Clean
            } else {
                FileStatus::Dirty
            },
            None => FileStatus::Dirty,
        },
    }
}

/// What the check modes promise: a missing file is missing and an unchanged time means
/// clean, in either mode; past that, fast mode calls every changed time dirty, while strict
/// mode calls the file clean exactly when its hash was computed and equals the recorded
/// one. Strict mode never reports a file dirty that fast mode would call clean.
pub proof fn lemma_status_modes(e: FlagEntry, p: FileProbe)
    ensures
        !p.exists ==> status_of(e, p, CheckMode::Fast) == FileStatus::Missing && status_of(e, p, CheckMode::Strict) == FileStatus::Missing,
        p.exists && p.mtime == e.mtime ==> status_of(e, p, CheckMode::Fast) == FileStatus::Clean && status_of(e, p, CheckMode::Strict) == FileStatus::Clean,
        p.exists && p.mtime != e.mtime ==> status_of(e, p, CheckMode::Fast) == FileStatus::Dirty,
        p.exists && p.mtime != e.mtime ==> (status_of(e, p, CheckMode::Strict) == FileStatus::Clean <==> (p.hash matches Some(h) && h@ == e.hash@)),
        p.exists && p.mtime != e.mtime ==> (status_of(e, p, CheckMode::Strict) == FileStatus::Dirty <==> !(p.hash matches Some(h) && h@ == e.hash@)),
        status_of(e, p, CheckMode::Strict) == FileStatus::Dirty ==> status_of(e, p, CheckMode::Fast) == FileStatus::Dirty,
{
}

/// The status of every flagged file, in order of path, given what the file system says
/// about each (one probe per entry, in the same order).
pub fn check_status(index: &FlagIndex, probes: &[FileProbe], mode: CheckMode) -> (r: Vec<(FlagEntry, FileStatus)>)
    requires
        probes@.len() == index.entries@.len(),
    ensures
        r@.len() == index.entries@.len(),
        forall|i: int| #![trigger r@[i]] 0 <= i < r@.len() ==> r@[i].0 == index.entries@[i].1 && r@[i].1 == status_of(
            index.entries@[i].1,
            probes@[i],
            mode,
        ),
{
    let mut r: Vec<(FlagEntry, FileStatus)> = Vec::new();
    let mut i: usize = 0;
    while i < index.entries.len()
        invariant
            i <= index.entries@.len(),
            probes@.len() == index.entries@.len(),
            r@.len() == i,
            forall|k: int| #![trigger r@[k]] 0 <= k < i ==> r@[k].0 == index.entries@[k].1 && r@[k].1 == status_of(
                index.entries@[k].1,
                probes@[k],
                mode,
            ),
        decreases index.entries.len() - i,
    {
        let e = &index.entries[i].1;
        let s = file_status(e, &probes[i], mode);
        r.push((copy_entry(e), s));
        i = i + 1;
    }
    r
}

/// Flags files of the state `state`: each `(path, mtime, hash)` replaces the flag of its
/// path. Returns the new flags in the given order.
pub fn flag_files(index: &mut FlagIndex, config: &FlagsConfig, state: &str, files: &[FlagEntry]) -> (r: Result<Vec<FlagEntry>, FlagsError>)
    requires
        old(index).wf(),
    ensures
        final(index).wf(),
        !assoc_view(config.states@).contains_key(state@) ==> (r matches Err(FlagsError::UnknownState(s)) && s@ == state@)
            && final(index).map() == old(index).map(),
        assoc_view(config.states@).contains_key(state@) ==> (r matches Ok(v) && v@ == files@ && final(index).map()
            == flagged(old(index).map(), files@, files@.len())),
{
    match validate_state(config, state) {
        Err(e) => return Err(e),
        Ok(()) => {},
    }
    let mut out: Vec<FlagEntry> = Vec::new();
    let mut i: usize = 0;
    while i < files.len()
        invariant
            i <= files@.len(),
            index.wf(),
            out@ == files@.take(i as int),
            index.map() == flagged(old(index).map(), files@, i as nat),
        decreases files.len() - i,
    {
        index.insert(copy_entry(&files[i]));
        out.push(copy_entry(&files[i]));
        assert(out@ =~= files@.take(i + 1));
        i = i + 1;
    }
    assert(files@.take(files@.len() as int) =~= files@);
    Ok(out)
}

/// The flags after flagging the first `n` files, one after the other.
pub open spec fn flagged(m: Map<Seq<char>, FlagEntry>, files: Seq<FlagEntry>, n: nat) -> Map<Seq<char>, FlagEntry>
    decreases n,
{
    if n == 0 || n > files.len() {
        m
    } else {
        flagged(m, files, (n - 1) as nat).insert(files[n - 1].path@, files[n - 1])
    }
}

/// The flags after removing those of the first `n` paths.
pub open spec fn cleared(m: Map<Seq<char>, FlagEntry>, paths: Seq<Seq<char>>, n: nat) -> Map<Seq<char>, FlagEntry>
    decreases n,
{
    if n == 0 || n > paths.len() {
        m
    } else {
        cleared(m, paths, (n - 1) as nat).remove(paths[n - 1])
    }
}

/// How many of the first `n` paths had a flag when their turn came.
pub open spec fn cleared_count(m: Map<Seq<char>, FlagEntry>, paths: Seq<Seq<char>>, n: nat) -> nat
    decreases n,
{
    if n == 0 || n > paths.len() {
        0
    } else {
        cleared_count(m, paths, (n - 1) as nat) + if cleared(m, paths, (n - 1) as nat).contains_key(paths[n - 1]) {
            1nat
        } else {
            0nat
        }
    }
}

/// Removes the flags of `paths` for the state `state`, or all its flags when `paths` is
/// empty; returns how many were removed.
pub fn clear_flags(index: &mut FlagIndex, config: &FlagsConfig, state: &str, paths: &[String]) -> (r: Result<usize, FlagsError>)
    requires
        old(index).wf(),
    ensures
        final(index).wf(),
        !assoc_view(config.states@).contains_key(state@) ==> (r matches Err(FlagsError::UnknownState(s)) && s@ == state@)
            && final(index).map() == old(index).map(),
        assoc_view(config.states@).contains_key(state@) && paths@.len() == 0 ==> r == Ok::<usize, FlagsError>(
            old(index).map().dom().len() as usize,
        ) && final(index).map() == Map::<Seq<char>, FlagEntry>::empty(),
        assoc_view(config.states@).contains_key(state@) && paths@.len() > 0 ==> r == Ok::<usize, FlagsError>(
            cleared_count(old(index).map(), texts(paths@), paths@.len()) as usize,
        ) && final(index).map() == cleared(old(index).map(), texts(paths@), paths@.len()),
{
    match validate_state(config, state) {
        Err(e) => return Err(e),
        Ok(()) => {},
    }
    if paths.len() == 0 {
        let n = index.len();
        index.entries = Vec::new();
        assert(index.map() =~= Map::<Seq<char>, FlagEntry>::empty());
        return Ok(n);
    }
    let mut count: usize = 0;
    let mut i: usize = 0;
    while i < paths.len()
        invariant
            i <= paths@.len(),
            index.wf(),
            index.map() == cleared(old(index).map(), texts(paths@), i as nat),
            count == cleared_count(old(index).map(), texts(paths@), i as nat),
            count <= i,
        decreases paths.len() - i,
    {
        if index.remove(paths[i].as_str()) {
            count = count + 1;
        }
        i = i + 1;
    }
    Ok(count)
}

} // verus!
