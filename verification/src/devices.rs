//! The device directory: a cache of capture devices, the decisions
//! that drive its refreshes, and name resolution.
//!
//! All host traffic (enumeration, probing a device's default input
//! configuration) happens outside this module, on the dedicated device
//! worker; what it observes comes back here as plain probe results,
//! and this module decides what the cache and the caller see.

use vstd::prelude::*;
use vstd::string::*;

verus! {

/// The reserved name that always means the host's default input
/// device, whatever the cache holds.
pub open spec fn is_default_name(s: Seq<char>) -> bool {
    &&& s.len() == 7
    &&& (s[0] == 'd' || s[0] == 'D')
    &&& (s[1] == 'e' || s[1] == 'E')
    &&& (s[2] == 'f' || s[2] == 'F')
    &&& (s[3] == 'a' || s[3] == 'A')
    &&& (s[4] == 'u' || s[4] == 'U')
    &&& (s[5] == 'l' || s[5] == 'L')
    &&& (s[6] == 't' || s[6] == 'T')
}

/// Whether `name` is the reserved default-device name, compared
/// letter by letter without regard to case.
pub fn is_default_sentinel(name: &String) -> (r: bool)
    ensures
        r == is_default_name(name@),
{
    let s: &str = name.as_str();
    if s.unicode_len() != 7 {
        return false;
    }
    let c0 = s.get_char(0);
    let c1 = s.get_char(1);
    let c2 = s.get_char(2);
    let c3 = s.get_char(3);
    let c4 = s.get_char(4);
    let c5 = s.get_char(5);
    let c6 = s.get_char(6);
    (c0 == 'd' || c0 == 'D') && (c1 == 'e' || c1 == 'E') && (c2 == 'f' || c2 == 'F') && (c3 == 'a'
        || c3 == 'A') && (c4 == 'u' || c4 == 'U') && (c5 == 'l' || c5 == 'L') && (c6 == 't' || c6
        == 'T')
}

/// Both spellings the contract names are forms of the reserved name,
/// so resolution treats them identically.
pub proof fn lemma_default_spellings()
    ensures
        is_default_name("default"@),
        is_default_name("DEFAULT"@),
{
    reveal_strlit("default");
    reveal_strlit("DEFAULT");
}

/// One device as a host scan reported it: its name, and whether the
/// usability probe (querying its default input configuration)
/// succeeded.
pub struct ProbeResult {
    pub name: String,
    pub usable: bool,
}

/// What one full host scan produced.
pub enum ScanOutcome {
    /// The host enumerated; each reported device carries its probe
    /// verdict.
    Found(Vec<ProbeResult>),
    /// Host enumeration itself failed.
    HostError,
}

/// A cached device: name, last known availability, and when it was
/// last checked.
pub struct DeviceEntry {
    pub name: String,
    pub available: bool,
    pub last_checked_ms: u64,
}

/// How long a caller waits for the device worker's reply before the
/// request fails with a timeout.
pub const WORKER_REPLY_TIMEOUT_MS: u64 = 5000;

/// How long a full scan stays fresh.
pub const CACHE_WINDOW_MS: u64 = 10000;

/// How long a single entry's probe stays fresh when resolving it.
pub const SINGLE_PROBE_WINDOW_MS: u64 = 5000;

/// The device cache. Entries are never evicted, only marked
/// unavailable; names are unique.
pub struct DeviceDirectory {
    pub entries: Vec<DeviceEntry>,
    pub last_full_refresh_ms: Option<u64>,
}

/// What resolving a name against the cache decides.
#[derive(Clone, Copy, Debug, PartialEq, Eq, Structural)]
pub enum ResolveStep {
    /// The reserved default name: ask the host for its default input
    /// device, whatever the cache holds.
    UseHostDefault,
    /// The cache knows the device and knows it unusable.
    Unavailable,
    /// The cache entry is stale: probe this one device again before
    /// looking it up.
    ProbeSingle,
    /// The name is not cached: run a full rescan before looking it up.
    RescanAll,
    /// The cache entry is fresh and available: look the device up.
    Lookup,
}

/// The first entry index holding `name`, if any.
pub open spec fn spec_find_entry(entries: Seq<DeviceEntry>, name: Seq<char>) -> Option<int>
    decreases entries.len(),
{
    if entries.len() == 0 {
        Option::None
    } else if entries[0].name@ == name {
        Option::Some(0int)
    } else {
        match spec_find_entry(entries.drop_first(), name) {
            Option::Some(i) => Option::Some(i + 1),
            Option::None => Option::None,
        }
    }
}

impl DeviceDirectory {
    /// Names are unique.
    pub open spec fn wf(self) -> bool {
        forall|i: int, j: int|
            0 <= i < j < self.entries@.len() ==> #[trigger] self.entries@[i].name@ != #[trigger] self.entries@[j].name@
    }

    /// An empty cache that has never scanned.
    pub fn new() -> (r: DeviceDirectory)
        ensures
            r.wf(),
            r.entries@.len() == 0,
            r.last_full_refresh_ms is None,
    {
        DeviceDirectory { entries: Vec::new(), last_full_refresh_ms: Option::None }
    }

    /// A full rescan is due when no scan ever ran or the last one has
    /// aged out of the freshness window.
    pub fn needs_full_refresh(&self, now_ms: u64) -> (r: bool)
        requires
            self.last_full_refresh_ms matches Some(t) ==> t <= now_ms,
        ensures
            r == match self.last_full_refresh_ms {
                Option::None => true,
                Option::Some(t) => now_ms - t > CACHE_WINDOW_MS,
            },
    {
        match self.last_full_refresh_ms {
            Option::None => true,
            Option::Some(t) => now_ms - t > CACHE_WINDOW_MS,
        }
    }

    /// Find the cache entry holding `name`.
    fn find_entry(&self, name: &String) -> (r: Option<usize>)
        ensures
            match (r, spec_find_entry(self.entries@, name@)) {
                (Option::Some(i), Option::Some(j)) => i == j && i < self.entries@.len()
                    && self.entries@[i as int].name@ == name@,
                (Option::None, Option::None) => true,
                _ => false,
            },
    {
        let n: usize = self.entries.len();
        let mut i: usize = 0;
        proof {
            assert(self.entries@.skip(0int) =~= self.entries@);
        }
        while i < n
            invariant
                i <= n,
                n == self.entries@.len(),
                spec_find_entry(self.entries@, name@) == match spec_find_entry(
                    self.entries@.skip(i as int),
                    name@,
                ) {
                    Option::Some(k) => Option::Some(k + i),
                    Option::None => Option::None,
                },
            decreases n - i,
        {
            proof {
                assert(self.entries@.skip(i as int).len() > 0);
                assert(self.entries@.skip(i as int)[0] == self.entries@[i as int]);
                assert(self.entries@.skip(i as int).drop_first() =~= self.entries@.skip(i + 1));
            }
            if self.entries[i].name.eq(name) {
                proof {
                    reveal_with_fuel(spec_find_entry, 2);
                }
                return Option::Some(i);
            }
            proof {
                reveal_with_fuel(spec_find_entry, 2);
                assert(spec_find_entry(self.entries@.skip(i as int), name@) == match spec_find_entry(
                    self.entries@.skip(i + 1),
                    name@,
                ) {
                    Option::Some(k) => Option::Some(k + 1),
                    Option::None => Option::None,
                });
            }
            i = i + 1;
        }
        proof {
            assert(self.entries@.skip(n as int).len() == 0);
        }
        Option::None
    }

    /// Decide how to resolve `name` against the cache: the reserved
    /// default name goes straight to the host; a cached unusable
    /// device is refused; a stale entry is re-probed alone; an unknown
    /// name forces a full rescan; otherwise the lookup proceeds.
    pub fn resolve_step(&self, name: &String, now_ms: u64) -> (r: ResolveStep)
        requires
            forall|i: int|
                0 <= i < self.entries@.len() ==> #[trigger] self.entries@[i].last_checked_ms
                    <= now_ms,
        ensures
            is_default_name(name@) ==> r == ResolveStep::UseHostDefault,
            !is_default_name(name@) ==> match spec_find_entry(self.entries@, name@) {
                Option::Some(i) => {
                    if !self.entries@[i].available {
                        r == ResolveStep::Unavailable
                    } else if now_ms - self.entries@[i].last_checked_ms > SINGLE_PROBE_WINDOW_MS {
                        r == ResolveStep::ProbeSingle
                    } else {
                        r == ResolveStep::Lookup
                    }
                },
                Option::None => r == ResolveStep::RescanAll,
            },
    {
        if is_default_sentinel(name) {
            return ResolveStep::UseHostDefault;
        }
        match self.find_entry(name) {
            Option::Some(i) => {
                let e = &self.entries[i];
                if !e.available {
                    ResolveStep::Unavailable
                } else if now_ms - e.last_checked_ms > SINGLE_PROBE_WINDOW_MS {
                    ResolveStep::ProbeSingle
                } else {
                    ResolveStep::Lookup
                }
            },
            Option::None => ResolveStep::RescanAll,
        }
    }

    /// Record the outcome of probing one device alone: a probed
    /// device is inserted or updated with its verdict; a device the
    /// host no longer lists is marked unavailable if cached.
    pub fn apply_single_probe(&mut self, name: &String, probed: Option<bool>, now_ms: u64)
        requires
            old(self).wf(),
        ensures
            final(self).wf(),
            final(self).last_full_refresh_ms == old(self).last_full_refresh_ms,
            match probed {
                Option::Some(usable) => match spec_find_entry(old(self).entries@, name@) {
                    Option::Some(i) => {
                        &&& final(self).entries@.len() == old(self).entries@.len()
                        &&& final(self).entries@[i].name@ == name@
                        &&& final(self).entries@[i].available == usable
                        &&& final(self).entries@[i].last_checked_ms == now_ms
                        &&& forall|j: int|
                            0 <= j < old(self).entries@.len() && j != i
                                ==> #[trigger] final(self).entries@[j] == old(self).entries@[j]
                    },
                    Option::None => {
                        &&& final(self).entries@.len() == old(self).entries@.len() + 1
                        &&& final(self).entries@.last().name@ == name@
                        &&& final(self).entries@.last().available == usable
                        &&& final(self).entries@.last().last_checked_ms == now_ms
                        &&& forall|j: int|
                            0 <= j < old(self).entries@.len()
                                ==> #[trigger] final(self).entries@[j] == old(self).entries@[j]
                    },
                },
                Option::None => match spec_find_entry(old(self).entries@, name@) {
                    Option::Some(i) => {
                        &&& final(self).entries@.len() == old(self).entries@.len()
                        &&& final(self).entries@[i].name@ == name@
                        &&& final(self).entries@[i].available == false
                        &&& final(self).entries@[i].last_checked_ms == now_ms
                        &&& forall|j: int|
                            0 <= j < old(self).entries@.len() && j != i
                                ==> #[trigger] final(self).entries@[j] == old(self).entries@[j]
                    },
                    Option::None => final(self).entries@ == old(self).entries@,
                },
            },
    {
        let found = self.find_entry(name);
        match probed {
            Option::Some(usable) => {
                match found {
                    Option::Some(i) => {
                        let nm = self.entries[i].name.clone();
                        self.entries[i] = DeviceEntry {
                            name: nm,
                            available: usable,
                            last_checked_ms: now_ms,
                        };
                        proof {
                            assert(forall|a: int, b: int|
                                0 <= a < b < self.entries@.len()
                                    ==> #[trigger] self.entries@[a].name@
                                    != #[trigger] self.entries@[b].name@) by {
                                assert(self.entries@[i as int].name@ == old(self).entries@[i as int].name@);
                            }
                        }
                    },
                    Option::None => {
                        self.entries.push(
                            DeviceEntry {
                                name: name.clone(),
                                available: usable,
                                last_checked_ms: now_ms,
                            },
                        );
                        proof {
                            lemma_find_entry_none_means_absent(old(self).entries@, name@);
                        }
                    },
                }
            },
            Option::None => {
                match found {
                    Option::Some(i) => {
                        let nm = self.entries[i].name.clone();
                        self.entries[i] = DeviceEntry {
                            name: nm,
                            available: false,
                            last_checked_ms: now_ms,
                        };
                        proof {
                            assert(forall|a: int, b: int|
                                0 <= a < b < self.entries@.len()
                                    ==> #[trigger] self.entries@[a].name@
                                    != #[trigger] self.entries@[b].name@) by {
                                assert(self.entries@[i as int].name@ == old(self).entries@[i as int].name@);
                            }
                        }
                    },
                    Option::None => {},
                }
            },
        }
    }
}

/// When the search finds nothing, no entry holds the name.
pub proof fn lemma_find_entry_none_means_absent(entries: Seq<DeviceEntry>, name: Seq<char>)
    requires
        spec_find_entry(entries, name) is None,
    ensures
        forall|i: int| 0 <= i < entries.len() ==> #[trigger] entries[i].name@ != name,
    decreases entries.len(),
{
    if entries.len() > 0 {
        assert(entries[0].name@ != name);
        assert(spec_find_entry(entries.drop_first(), name) is None);
        lemma_find_entry_none_means_absent(entries.drop_first(), name);
        assert forall|i: int| 0 <= i < entries.len() implies #[trigger] entries[i].name@
            != name by {
            if i >= 1 {
                assert(entries[i] == entries.drop_first()[i - 1]);
            }
        }
    }
}

// ---------------------------------------------------------------------
// Name ordering
// ---------------------------------------------------------------------

/// Lexicographic order on names, by code point. This is the order
/// `sort` on strings yields, since UTF-8 byte order agrees with code
/// point order.
pub open spec fn lex_le_chars(a: Seq<char>, b: Seq<char>) -> bool
    decreases a.len(),
{
    if a.len() == 0 {
        true
    } else if b.len() == 0 {
        false
    } else if a[0] != b[0] {
        a[0] < b[0]
    } else {
        lex_le_chars(a.drop_first(), b.drop_first())
    }
}

pub proof fn lemma_lex_le_total(a: Seq<char>, b: Seq<char>)
    ensures
        lex_le_chars(a, b) || lex_le_chars(b, a),
    decreases a.len(),
{
    if a.len() > 0 && b.len() > 0 && a[0] == b[0] {
        lemma_lex_le_total(a.drop_first(), b.drop_first());
    }
}

pub proof fn lemma_lex_le_trans(a: Seq<char>, b: Seq<char>, c: Seq<char>)
    requires
        lex_le_chars(a, b),
        lex_le_chars(b, c),
    ensures
        lex_le_chars(a, c),
    decreases a.len(),
{
    if a.len() > 0 {
        if b.len() > 0 && c.len() > 0 && a[0] == b[0] && b[0] == c[0] {
            lemma_lex_le_trans(a.drop_first(), b.drop_first(), c.drop_first());
        }
    }
}

/// Compare two names in lexicographic code-point order.
pub fn str_le(a: &String, b: &String) -> (r: bool)
    ensures
        r == lex_le_chars(a@, b@),
{
    let sa: &str = a.as_str();
    let sb: &str = b.as_str();
    let la: usize = sa.unicode_len();
    let lb: usize = sb.unicode_len();
    let mut i: usize = 0;
    proof {
        assert(a@.skip(0int) =~= a@);
        assert(b@.skip(0int) =~= b@);
    }
    loop
        invariant
            i <= la,
            i <= lb,
            la == a@.len(),
            lb == b@.len(),
            sa@ == a@,
            sb@ == b@,
            lex_le_chars(a@, b@) == lex_le_chars(a@.skip(i as int), b@.skip(i as int)),
        decreases la - i,
    {
        if i >= la {
            proof {
                assert(a@.skip(i as int).len() == 0);
            }
            return true;
        }
        if i >= lb {
            proof {
                assert(b@.skip(i as int).len() == 0);
                assert(a@.skip(i as int).len() > 0);
            }
            return false;
        }
        let ca = sa.get_char(i);
        let cb = sb.get_char(i);
        proof {
            assert(a@.skip(i as int)[0] == a@[i as int]);
            assert(b@.skip(i as int)[0] == b@[i as int]);
            assert(a@.skip(i as int).drop_first() =~= a@.skip(i + 1));
            assert(b@.skip(i as int).drop_first() =~= b@.skip(i + 1));
        }
        if ca != cb {
            return ca < cb;
        }
        i = i + 1;
    }
}

// ---------------------------------------------------------------------
// Enumerating the available names
// ---------------------------------------------------------------------

/// The names of the available entries, as a multiset.
pub open spec fn avail_names(entries: Seq<DeviceEntry>) -> vstd::multiset::Multiset<Seq<char>>
    decreases entries.len(),
{
    if entries.len() == 0 {
        vstd::multiset::Multiset::empty()
    } else {
        let rest = avail_names(entries.drop_last());
        if entries.last().available {
            rest.insert(entries.last().name@)
        } else {
            rest
        }
    }
}

/// The name views, in order.
pub open spec fn name_views(s: Seq<String>) -> Seq<Seq<char>> {
    s.map_values(|x: String| x@)
}

/// The sequence is sorted in lexicographic order.
pub open spec fn names_sorted(s: Seq<String>) -> bool {
    forall|i: int, j: int| 0 <= i < j < s.len() ==> lex_le_chars(#[trigger] s[i]@, #[trigger] s[j]@)
}

/// Insert a name into a sorted vector, keeping it sorted.
fn insert_sorted(out: &mut Vec<String>, x: String)
    requires
        names_sorted(old(out)@),
    ensures
        names_sorted(final(out)@),
        name_views(final(out)@).to_multiset() == name_views(old(out)@).to_multiset().insert(x@),
{
    broadcast use vstd::seq_lib::to_multiset_insert;

    let n: usize = out.len();
    let mut pos: usize = 0;
    while pos < n && str_le(&out[pos], &x)
        invariant
            pos <= n,
            n == out@.len(),
            out@ == old(out)@,
            forall|j: int| 0 <= j < pos ==> lex_le_chars(#[trigger] out@[j]@, x@),
        decreases n - pos,
    {
        pos = pos + 1;
    }
    let ghost pre: Seq<String> = out@;
    let ghost found: int = pos as int;
    out.insert(pos, x);
    proof {
        assert(out@ == pre.insert(found, x));
        assert(name_views(out@) =~= name_views(pre).insert(found, x@));
        // sortedness: everything before the slot is at most `x`,
        // everything after is at least `x`
        if found < pre.len() {
            lemma_lex_le_total(pre[found]@, x@);
        }
        assert forall|i: int, j: int| 0 <= i < j < out@.len() implies lex_le_chars(
            #[trigger] out@[i]@,
            #[trigger] out@[j]@,
        ) by {
            if i < found && j == found {
                assert(out@[i]@ == pre[i]@);
            } else if i == found && j > found {
                assert(out@[j]@ == pre[j - 1]@);
                if found < pre.len() {
                    if found <= j - 1 - 1 + 1 && found < j - 1 + 1 {
                    }
                    if found < j - 1 {
                        lemma_lex_le_trans(x@, pre[found]@, pre[j - 1]@);
                    }
                }
            } else if i < found && j > found {
                assert(out@[i]@ == pre[i]@ && out@[j]@ == pre[j - 1]@);
            } else if i != found && j != found {
                let pi = if i < found {
                    i
                } else {
                    i - 1
                };
                let pj = if j < found {
                    j
                } else {
                    j - 1
                };
                assert(out@[i]@ == pre[pi]@ && out@[j]@ == pre[pj]@);
            }
        }
    }
}

impl DeviceDirectory {
    /// The available device names, each once, in lexicographic order.
    pub fn available_names(&self) -> (r: Vec<String>)
        ensures
            names_sorted(r@),
            name_views(r@).to_multiset() == avail_names(self.entries@),
    {
        let n: usize = self.entries.len();
        let mut out: Vec<String> = Vec::new();
        let mut k: usize = 0;
        proof {
            assert(self.entries@.take(0int) =~= Seq::<DeviceEntry>::empty());
            assert(name_views(out@) =~= Seq::<Seq<char>>::empty());
            name_views(out@).to_multiset_ensures();
            assert(name_views(out@).to_multiset() =~= vstd::multiset::Multiset::empty());
        }
        while k < n
            invariant
                k <= n,
                n == self.entries@.len(),
                names_sorted(out@),
                name_views(out@).to_multiset() == avail_names(self.entries@.take(k as int)),
            decreases n - k,
        {
            proof {
                assert(self.entries@.take(k + 1).drop_last() =~= self.entries@.take(k as int));
                assert(self.entries@.take(k + 1).last() == self.entries@[k as int]);
            }
            if self.entries[k].available {
                let name: String = self.entries[k].name.clone();
                insert_sorted(&mut out, name);
            }
            k = k + 1;
        }
        proof {
            assert(self.entries@.take(n as int) =~= self.entries@);
        }
        out
    }
}

// ---------------------------------------------------------------------
// Applying a full scan
// ---------------------------------------------------------------------

/// The verdict the scan leaves for `name`: the last probe of that
/// name wins, as later reports overwrite earlier ones.
pub open spec fn probe_verdict(probes: Seq<ProbeResult>, name: Seq<char>) -> Option<bool>
    decreases probes.len(),
{
    if probes.len() == 0 {
        Option::None
    } else if probes.last().name@ == name {
        Option::Some(probes.last().usable)
    } else {
        probe_verdict(probes.drop_last(), name)
    }
}

/// Some entry holds `name`.
pub open spec fn has_name(entries: Seq<DeviceEntry>, name: Seq<char>) -> bool {
    exists|j: int| 0 <= j < entries.len() && #[trigger] entries[j].name@ == name
}

impl DeviceDirectory {
    /// Fold one full scan into the cache and stamp the scan time.
    ///
    /// When the host enumerated, every probed device is recorded with
    /// its verdict and probe time, and every cached device the scan
    /// did not mention is marked unavailable; entries are never
    /// evicted. When enumeration itself failed, the cache is kept and
    /// every entry is presumed still available, to tolerate transient
    /// host failures.
    pub fn apply_scan(&mut self, scan: &ScanOutcome, now_ms: u64)
        requires
            old(self).wf(),
        ensures
            final(self).wf(),
            final(self).last_full_refresh_ms == Some(now_ms),
            match scan {
                ScanOutcome::HostError => {
                    &&& final(self).entries@.len() == old(self).entries@.len()
                    &&& forall|j: int|
                        0 <= j < old(self).entries@.len() ==> {
                            &&& (#[trigger] final(self).entries@[j]).name@
                                == old(self).entries@[j].name@
                            &&& final(self).entries@[j].available == true
                            &&& final(self).entries@[j].last_checked_ms
                                == old(self).entries@[j].last_checked_ms
                        }
                },
                ScanOutcome::Found(probes) => {
                    &&& final(self).entries@.len() >= old(self).entries@.len()
                    &&& forall|j: int|
                        0 <= j < old(self).entries@.len() ==> (#[trigger] final(self).entries@[j]).name@ == old(self).entries@[j].name@
                    &&& forall|j: int|
                        0 <= j < old(self).entries@.len() ==> match probe_verdict(
                            probes@,
                            old(self).entries@[j].name@,
                        ) {
                            Option::Some(u) => (#[trigger] final(self).entries@[j]).available == u
                                && final(self).entries@[j].last_checked_ms == now_ms,
                            Option::None => (#[trigger] final(self).entries@[j]).available == false
                                && final(self).entries@[j].last_checked_ms == old(self).entries@[j].last_checked_ms,
                        }
                    &&& forall|j: int|
                        old(self).entries@.len() <= j < final(self).entries@.len() ==> {
                            &&& probe_verdict(probes@, (#[trigger] final(self).entries@[j]).name@)
                                == Option::Some(final(self).entries@[j].available)
                            &&& final(self).entries@[j].last_checked_ms == now_ms
                        }
                    &&& forall|p: int|
                        0 <= p < probes@.len() ==> has_name(
                            final(self).entries@,
                            (#[trigger] probes@[p]).name@,
                        )
                },
            },
    {
        match scan {
            ScanOutcome::HostError => {
                let n: usize = self.entries.len();
                let mut j: usize = 0;
                while j < n
                    invariant
                        j <= n,
                        n == self.entries@.len(),
                        forall|t: int|
                            0 <= t < n ==> (#[trigger] self.entries@[t]).name@ == old(self).entries@[t].name@ && self.entries@[t].last_checked_ms == old(self).entries@[t].last_checked_ms,
                        forall|t: int| 0 <= t < j ==> (#[trigger] self.entries@[t]).available,
                        self.last_full_refresh_ms == old(self).last_full_refresh_ms,
                    decreases n - j,
                {
                    let nm = self.entries[j].name.clone();
                    let lc = self.entries[j].last_checked_ms;
                    self.entries[j] = DeviceEntry { name: nm, available: true, last_checked_ms: lc };
                    j = j + 1;
                }
                self.last_full_refresh_ms = Option::Some(now_ms);
                proof {
                    assert(self.wf()) by {
                        assert(forall|a: int, b: int|
                            0 <= a < b < self.entries@.len() ==> (#[trigger] self.entries@[a]).name@
                                != (#[trigger] self.entries@[b]).name@) by {
                            assert(forall|t: int|
                                0 <= t < self.entries@.len()
                                    ==> (#[trigger] self.entries@[t]).name@ == old(self).entries@[t].name@);
                        }
                    }
                }
            },
            ScanOutcome::Found(probes) => {
                let n: usize = self.entries.len();
                let mut j: usize = 0;
                // every cached device starts this refresh presumed unavailable
                while j < n
                    invariant
                        j <= n,
                        n == self.entries@.len(),
                        forall|t: int|
                            0 <= t < n ==> (#[trigger] self.entries@[t]).name@ == old(self).entries@[t].name@ && self.entries@[t].last_checked_ms == old(self).entries@[t].last_checked_ms,
                        forall|t: int| 0 <= t < j ==> !(#[trigger] self.entries@[t]).available,
                        self.last_full_refresh_ms == old(self).last_full_refresh_ms,
                    decreases n - j,
                {
                    let nm = self.entries[j].name.clone();
                    let lc = self.entries[j].last_checked_ms;
                    self.entries[j] = DeviceEntry {
                        name: nm,
                        available: false,
                        last_checked_ms: lc,
                    };
                    j = j + 1;
                }
                proof {
                    assert(self.wf()) by {
                        assert(forall|t: int|
                            0 <= t < self.entries@.len() ==> (#[trigger] self.entries@[t]).name@
                                == old(self).entries@[t].name@);
                    }
                    assert(probes@.take(0int) =~= Seq::<ProbeResult>::empty());
                }
                let np: usize = probes.len();
                let mut p: usize = 0;
                while p < np
                    invariant
                        p <= np,
                        np == probes@.len(),
                        n == old(self).entries@.len(),
                        self.wf(),
                        self.entries@.len() >= n,
                        self.last_full_refresh_ms == old(self).last_full_refresh_ms,
                        forall|t: int|
                            0 <= t < n ==> (#[trigger] self.entries@[t]).name@ == old(self).entries@[t].name@,
                        forall|t: int|
                            0 <= t < n ==> match probe_verdict(
                                probes@.take(p as int),
                                old(self).entries@[t].name@,
                            ) {
                                Option::Some(u) => (#[trigger] self.entries@[t]).available == u
                                    && self.entries@[t].last_checked_ms == now_ms,
                                Option::None => (#[trigger] self.entries@[t]).available == false
                                    && self.entries@[t].last_checked_ms == old(self).entries@[t].last_checked_ms,
                            },
                        forall|t: int|
                            n <= t < self.entries@.len() ==> {
                                &&& probe_verdict(
                                    probes@.take(p as int),
                                    (#[trigger] self.entries@[t]).name@,
                                ) == Option::Some(self.entries@[t].available)
                                &&& self.entries@[t].last_checked_ms == now_ms
                            },
                        forall|q: int|
                            0 <= q < p ==> has_name(self.entries@, (#[trigger] probes@[q]).name@),
                    decreases np - p,
                {
                    let ghost pre: Seq<DeviceEntry> = self.entries@;
                    let pname: String = probes[p].name.clone();
                    let pusable: bool = probes[p].usable;
                    let found = self.find_entry(&pname);
                    let ghost upd: int = match found {
                        Option::Some(i) => i as int,
                        Option::None => pre.len() as int,
                    };
                    match found {
                        Option::Some(i) => {
                            let nm = self.entries[i].name.clone();
                            self.entries[i] = DeviceEntry {
                                name: nm,
                                available: pusable,
                                last_checked_ms: now_ms,
                            };
                        },
                        Option::None => {
                            proof {
                                lemma_find_entry_none_means_absent(pre, pname@);
                            }
                            self.entries.push(
                                DeviceEntry {
                                    name: pname.clone(),
                                    available: pusable,
                                    last_checked_ms: now_ms,
                                },
                            );
                        },
                    }
                    proof {
                        let cur = self.entries@;
                        let tk = probes@.take(p + 1);
                        let tp = probes@.take(p as int);
                        assert(tk.drop_last() =~= tp);
                        assert(tk.last() == probes@[p as int]);
                        assert(tk.last().name@ == pname@);
                        // this probe rewrites the verdict of its own name only
                        assert(forall|nm: Seq<char>|
                            nm != pname@ ==> #[trigger] probe_verdict(tk, nm) == probe_verdict(
                                tp,
                                nm,
                            ));
                        assert(probe_verdict(tk, pname@) == Option::Some(pusable));
                        // element `upd` carries the probe; everything else is untouched
                        assert(forall|t: int|
                            0 <= t < cur.len() && t != upd ==> #[trigger] cur[t] == pre[t]);
                        assert(cur[upd].name@ == pname@);
                        assert(cur[upd].available == pusable);
                        assert(cur[upd].last_checked_ms == now_ms);
                        // no other element holds this probe's name
                        assert(forall|t: int|
                            0 <= t < pre.len() && t != upd ==> (#[trigger] pre[t]).name@
                                != pname@);
                        assert(self.wf()) by {
                            assert(forall|t: int|
                                0 <= t < cur.len() && t != upd ==> (#[trigger] cur[t]).name@
                                    == pre[t].name@);
                        }
                        assert forall|t: int| 0 <= t < n implies match probe_verdict(
                            tk,
                            old(self).entries@[t].name@,
                        ) {
                            Option::Some(u) => (#[trigger] cur[t]).available == u
                                && cur[t].last_checked_ms == now_ms,
                            Option::None => (#[trigger] cur[t]).available == false
                                && cur[t].last_checked_ms == old(self).entries@[t].last_checked_ms,
                        } by {
                            assert(pre[t].name@ == old(self).entries@[t].name@);
                            if t != upd {
                                assert(pre[t].name@ != pname@);
                                assert(probe_verdict(tk, pre[t].name@) == probe_verdict(
                                    tp,
                                    pre[t].name@,
                                ));
                            }
                        }
                        assert forall|t: int| n <= t < cur.len() implies probe_verdict(
                            tk,
                            (#[trigger] cur[t]).name@,
                        ) == Option::Some(cur[t].available) && cur[t].last_checked_ms == now_ms by {
                            if t != upd {
                                assert(cur[t] == pre[t]);
                                assert(pre[t].name@ != pname@);
                                assert(probe_verdict(tk, pre[t].name@) == probe_verdict(
                                    tp,
                                    pre[t].name@,
                                ));
                            }
                        }
                        assert forall|q: int| 0 <= q < p + 1 implies has_name(
                            cur,
                            (#[trigger] probes@[q]).name@,
                        ) by {
                            if q < p {
                                assert(has_name(pre, probes@[q].name@));
                                let w = choose|j: int|
                                    0 <= j < pre.len() && (#[trigger] pre[j]).name@
                                        == probes@[q].name@;
                                if w == upd {
                                    assert(cur[upd].name@ == pname@ && pre[upd].name@ == pname@);
                                    assert(cur[w].name@ == probes@[q].name@);
                                } else {
                                    assert(cur[w] == pre[w]);
                                }
                            } else {
                                assert(cur[upd].name@ == probes@[q].name@);
                            }
                        }
                    }
                    p = p + 1;
                }
                proof {
                    assert(probes@.take(np as int) =~= probes@);
                }
                self.last_full_refresh_ms = Option::Some(now_ms);
            },
        }
    }
}

/// Whether an enumeration answer may go out yet, or one more rescan
/// is owed first: an empty available set earns exactly one additional
/// rescan before an empty result is reported, because devices can
/// look transiently absent while the host re-initializes. Rescan if
/// and only if nothing is available and the one retry has not run.
pub fn should_retry_enumeration(names: &Vec<String>, already_retried: bool) -> (r: bool)
    ensures
        r == (names@.len() == 0 && !already_retried),
{
    names.len() == 0 && !already_retried
}

/// The first scan result holding `name`, and its verdict.
pub open spec fn first_match(probes: Seq<ProbeResult>, name: Seq<char>) -> Option<bool>
    decreases probes.len(),
{
    if probes.len() == 0 {
        Option::None
    } else if probes[0].name@ == name {
        Option::Some(probes[0].usable)
    } else {
        first_match(probes.drop_first(), name)
    }
}

/// Why a device could not be resolved.
#[derive(Clone, Copy, Debug, PartialEq, Eq, Structural)]
pub enum DeviceError {
    /// No device of that name exists.
    DeviceNotFound,
    /// The device exists but its usability probe failed.
    DeviceUnavailable,
}

/// Look a device up in fresh scan results: the first device with the
/// requested name wins; it must have passed its usability probe.
pub fn resolve_in_scan(probes: &Vec<ProbeResult>, name: &String) -> (r: Result<usize, DeviceError>)
    ensures
        match first_match(probes@, name@) {
            Option::Some(true) => r matches Ok(i) && i < probes@.len() && probes@[i as int].name@
                == name@ && probes@[i as int].usable,
            Option::Some(false) => r == Result::<usize, DeviceError>::Err(
                DeviceError::DeviceUnavailable,
            ),
            Option::None => r == Result::<usize, DeviceError>::Err(DeviceError::DeviceNotFound),
        },
{
    let n: usize = probes.len();
    let mut i: usize = 0;
    proof {
        assert(probes@.skip(0int) =~= probes@);
    }
    while i < n
        invariant
            i <= n,
            n == probes@.len(),
            first_match(probes@, name@) == first_match(probes@.skip(i as int), name@),
        decreases n - i,
    {
        proof {
            assert(probes@.skip(i as int).len() > 0);
            assert(probes@.skip(i as int)[0] == probes@[i as int]);
            assert(probes@.skip(i as int).drop_first() =~= probes@.skip(i + 1));
        }
        if probes[i].name.eq(name) {
            proof {
                reveal_with_fuel(first_match, 2);
            }
            if probes[i].usable {
                return Result::Ok(i);
            } else {
                return Result::Err(DeviceError::DeviceUnavailable);
            }
        }
        proof {
            reveal_with_fuel(first_match, 2);
            assert(first_match(probes@.skip(i as int), name@) == first_match(
                probes@.skip(i + 1),
                name@,
            ));
        }
        i = i + 1;
    }
    proof {
        assert(probes@.skip(n as int).len() == 0);
    }
    Result::Err(DeviceError::DeviceNotFound)
}

} // verus!
