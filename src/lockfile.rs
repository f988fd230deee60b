//! The lockfile: the resolution outcome recorded for each requested
//! `name@range`, shared by every install job of a run.

use vstd::prelude::*;

verus! {

/// The engine version written into fresh lockfiles.
pub const ENGINE_VERSION: &'static str = "0.1.0";

/// One recorded outcome.
pub struct LockFileEntry {
    pub name: String,
    /// The requested range, as written in the manifest.
    pub version: String,
    pub tarball_url: Option<String>,
    pub use_npm_fallback: bool,
    pub resolved_version: String,
}

/// A record as plain values.
pub struct EntryView {
    pub name: Seq<char>,
    pub version: Seq<char>,
    pub tarball_url: Option<Seq<char>>,
    pub use_npm_fallback: bool,
    pub resolved_version: Seq<char>,
}

pub open spec fn opt_view(o: Option<String>) -> Option<Seq<char>> {
    match o {
        Some(s) => Some(s@),
        None => None,
    }
}

impl View for LockFileEntry {
    type V = EntryView;

    open spec fn view(&self) -> EntryView {
        EntryView {
            name: self.name@,
            version: self.version@,
            tarball_url: opt_view(self.tarball_url),
            use_npm_fallback: self.use_npm_fallback,
            resolved_version: self.resolved_version@,
        }
    }
}

fn copy_opt(o: &Option<String>) -> (r: Option<String>)
    ensures
        r == *o,
{
    match o {
        Some(s) => Some(s.clone()),
        None => None,
    }
}

impl LockFileEntry {
    /// A field-by-field copy.
    pub fn duplicate(&self) -> (r: LockFileEntry)
        ensures
            r == *self,
    {
        LockFileEntry {
            name: self.name.clone(),
            version: self.version.clone(),
            tarball_url: copy_opt(&self.tarball_url),
            use_npm_fallback: self.use_npm_fallback,
            resolved_version: self.resolved_version.clone(),
        }
    }
}

/// The key under which the outcome for `name` at `range` is recorded.
pub open spec fn key_of(name: Seq<char>, range: Seq<char>) -> Seq<char> {
    name + "@"@ + range
}

/// Builds the key `name@range`.
pub fn package_key(name: &str, range: &str) -> (r: String)
    ensures
        r@ == key_of(name@, range@),
{
    let mut k = String::from_str(name);
    k.append("@");
    k.append(range);
    k
}

pub open spec fn record_view(p: (String, LockFileEntry)) -> (Seq<char>, EntryView) {
    (p.0@, p.1@)
}

/// The map that a list of keyed records denotes; a later record replaces an
/// earlier one with the same key.
pub open spec fn records_map(s: Seq<(Seq<char>, EntryView)>) -> Map<Seq<char>, EntryView>
    decreases s.len(),
{
    if s.len() == 0 {
        Map::empty()
    } else {
        records_map(s.drop_last()).insert(s.last().0, s.last().1)
    }
}

pub open spec fn keys_unique(s: Seq<(Seq<char>, EntryView)>) -> bool {
    forall|i: int, j: int| 0 <= i < j < s.len() ==> (#[trigger] s[i]).0 != (#[trigger] s[j]).0
}

proof fn lemma_records_lookup(s: Seq<(Seq<char>, EntryView)>, k: Seq<char>)
    requires
        keys_unique(s),
    ensures
        records_map(s).contains_key(k) <==> exists|i: int| 0 <= i < s.len() && (#[trigger] s[i]).0 == k,
        forall|i: int| 0 <= i < s.len() && (#[trigger] s[i]).0 == k ==> records_map(s).contains_key(k) && records_map(s)[k] == s[i].1,
    decreases s.len(),
{
    if s.len() > 0 {
        let t = s.drop_last();
        assert(keys_unique(t)) by {
            assert forall|i: int, j: int| 0 <= i < j < t.len() implies (#[trigger] t[i]).0 != (#[trigger] t[j]).0 by {
                assert(t[i] == s[i] && t[j] == s[j]);
            }
        }
        lemma_records_lookup(t, k);
        let last = s.len() - 1;
        if s[last].0 == k {
            assert(records_map(s).contains_key(k));
        } else {
            if records_map(s).contains_key(k) {
                let i = choose|i: int| 0 <= i < t.len() && (#[trigger] t[i]).0 == k;
                assert(s[i].0 == k);
            }
            if exists|i: int| 0 <= i < s.len() && (#[trigger] s[i]).0 == k {
                let i = choose|i: int| 0 <= i < s.len() && (#[trigger] s[i]).0 == k;
                assert(t[i].0 == k);
            }
        }
        assert forall|i: int| 0 <= i < s.len() && (#[trigger] s[i]).0 == k implies records_map(s).contains_key(k) && records_map(s)[k] == s[i].1 by {
            if i < last {
                assert(t[i] == s[i]);
                assert(s[last].0 != k);
            }
        }
    }
}

proof fn lemma_records_update(s: Seq<(Seq<char>, EntryView)>, i: int, v: EntryView)
    requires
        keys_unique(s),
        0 <= i < s.len(),
    ensures
        records_map(s.update(i, (s[i].0, v))) == records_map(s).insert(s[i].0, v),
    decreases s.len(),
{
    let k = s[i].0;
    let u = s.update(i, (k, v));
    if i == s.len() - 1 {
        assert(u.drop_last() == s.drop_last());
        assert(records_map(u) =~= records_map(s).insert(k, v));
    } else {
        let t = s.drop_last();
        assert(u.drop_last() == t.update(i, (k, v)));
        lemma_records_update(t, i, v);
        assert(s.last().0 != k);
        assert(records_map(u) =~= records_map(s).insert(k, v));
    }
}

/// The lockfile: the engine version and one record per `name@range` key.
pub struct LockFile {
    version: String,
    packages: Vec<(String, LockFileEntry)>,
}

/// The lockfile as plain values: its version and the record under each key.
pub struct LockFileView {
    pub version: Seq<char>,
    pub packages: Map<Seq<char>, EntryView>,
}

impl View for LockFile {
    type V = LockFileView;

    closed spec fn view(&self) -> LockFileView {
        LockFileView { version: self.version@, packages: records_map(self.records()) }
    }
}

impl LockFile {
    pub closed spec fn records(&self) -> Seq<(Seq<char>, EntryView)> {
        self.packages@.map_values(|p: (String, LockFileEntry)| record_view(p))
    }

    /// Each key is held by one record.
    pub closed spec fn wf(&self) -> bool {
        keys_unique(self.records())
    }

    /// An empty lockfile of this engine version.
    pub fn new() -> (r: LockFile)
        ensures
            r.wf(),
            r@.version == ENGINE_VERSION@,
            r@.packages == Map::<Seq<char>, EntryView>::empty(),
    {
        let r = LockFile { version: String::from_str(ENGINE_VERSION), packages: Vec::new() };
        assert(r.records() =~= Seq::<(Seq<char>, EntryView)>::empty());
        r
    }

    fn find(&self, key: &str) -> (r: Option<usize>)
        requires
            self.wf(),
        ensures
            r matches Some(i) ==> i < self.packages@.len() && self.records()[i as int].0 == key@,
            r is None <==> !self@.packages.contains_key(key@),
            r matches Some(i) ==> self@.packages[key@] == self.records()[i as int].1,
    {
        let mut i: usize = 0;
        while i < self.packages.len()
            invariant
                self.wf(),
                i <= self.packages@.len(),
                forall|k: int| 0 <= k < i ==> (#[trigger] self.records()[k]).0 != key@,
            decreases self.packages@.len() - i,
        {
            assert(self.records()[i as int].0 == self.packages@[i as int].0@);
            if crate::text::str_eq(self.packages[i].0.as_str(), key) {
                proof {
                    lemma_records_lookup(self.records(), key@);
                }
                return Some(i);
            }
            i = i + 1;
        }
        proof {
            lemma_records_lookup(self.records(), key@);
        }
        None
    }

    /// Sets the record under `key`, replacing any earlier one.
    pub fn insert_record(&mut self, key: String, entry: LockFileEntry)
        requires
            old(self).wf(),
        ensures
            final(self).wf(),
            final(self)@.version == old(self)@.version,
            final(self)@.packages == old(self)@.packages.insert(key@, entry@),
    {
        let ghost before = self.records();
        let ghost ev = entry@;
        match self.find(key.as_str()) {
            Some(i) => {
                self.packages.set(i, (key, entry));
                proof {
                    assert(self.records() =~= before.update(i as int, (before[i as int].0, ev)));
                    lemma_records_update(before, i as int, ev);
                }
            },
            None => {
                proof {
                    lemma_records_lookup(before, key@);
                }
                let ghost kv = key@;
                self.packages.push((key, entry));
                assert(self.records() =~= before.push((kv, ev)));
                assert(self.records().drop_last() =~= before);
            },
        }
    }

    /// Records the outcome for `name` at `version` (a requested range) under the
    /// key `name@version`, replacing any earlier outcome there.
    pub fn add_package(
        &mut self,
        name: String,
        version: String,
        tarball_url: Option<String>,
        use_npm_fallback: bool,
        resolved_version: String,
    )
        requires
            old(self).wf(),
        ensures
            final(self).wf(),
            final(self)@.version == old(self)@.version,
            final(self)@.packages == old(self)@.packages.insert(
                key_of(name@, version@),
                EntryView {
                    name: name@,
                    version: version@,
                    tarball_url: opt_view(tarball_url),
                    use_npm_fallback,
                    resolved_version: resolved_version@,
                },
            ),
    {
        let key = package_key(name.as_str(), version.as_str());
        let entry = LockFileEntry { name, version, tarball_url, use_npm_fallback, resolved_version };
        self.insert_record(key, entry);
    }

    /// Whether the outcome recorded for `name` at `version` is the fallback installer.
    pub fn should_use_npm(&self, name: &str, version: &str) -> (r: bool)
        requires
            self.wf(),
        ensures
            r == (self@.packages.contains_key(key_of(name@, version@))
                && self@.packages[key_of(name@, version@)].use_npm_fallback),
    {
        let key = package_key(name, version);
        match self.find(key.as_str()) {
            Some(i) => self.packages[i].1.use_npm_fallback,
            None => false,
        }
    }
}

impl LockFile {
    /// The engine version the lockfile was written by.
    pub fn version(&self) -> (r: &String)
        ensures
            r@ == self@.version,
    {
        &self.version
    }

    /// The number of records.
    pub fn len(&self) -> (r: usize)
        requires
            self.wf(),
        ensures
            r == self@.packages.dom().len(),
            self@.packages.dom().finite(),
    {
        proof {
            lemma_records_size(self.records());
        }
        self.packages.len()
    }

    /// The record under `key`, if any.
    pub fn entry(&self, key: &str) -> (r: Option<&LockFileEntry>)
        requires
            self.wf(),
        ensures
            r is Some <==> self@.packages.contains_key(key@),
            r matches Some(e) ==> e@ == self@.packages[key@],
    {
        match self.find(key) {
            Some(i) => Some(&self.packages[i].1),
            None => None,
        }
    }

    /// The records with their keys, one per key, in no particular order.
    pub fn entries(&self) -> (r: Vec<(String, LockFileEntry)>)
        requires
            self.wf(),
        ensures
            keys_unique(r@.map_values(|p: (String, LockFileEntry)| record_view(p))),
            records_map(r@.map_values(|p: (String, LockFileEntry)| record_view(p))) == self@.packages,
    {
        let mut out: Vec<(String, LockFileEntry)> = Vec::new();
        let mut i: usize = 0;
        while i < self.packages.len()
            invariant
                i <= self.packages@.len(),
                out@.len() == i,
                forall|k: int| 0 <= k < i ==> #[trigger] out@[k] == self.packages@[k],
            decreases self.packages@.len() - i,
        {
            let k = self.packages[i].0.clone();
            let e = self.packages[i].1.duplicate();
            out.push((k, e));
            i = i + 1;
        }
        assert(out@ =~= self.packages@);
        out
    }

    /// A lockfile of the given version holding the given records; where two
    /// records share a key the later one stands.
    pub fn from_entries(version: String, records: Vec<(String, LockFileEntry)>) -> (r: LockFile)
        ensures
            r.wf(),
            r@.version == version@,
            r@.packages == records_map(records@.map_values(|p: (String, LockFileEntry)| record_view(p))),
    {
        let ghost views = records@.map_values(|p: (String, LockFileEntry)| record_view(p));
        let mut lock = LockFile { version, packages: Vec::new() };
        assert(lock.records() =~= Seq::<(Seq<char>, EntryView)>::empty());
        let mut i: usize = 0;
        while i < records.len()
            invariant
                lock.wf(),
                i <= records@.len(),
                lock@.version == version@,
                views == records@.map_values(|p: (String, LockFileEntry)| record_view(p)),
                lock@.packages == records_map(views.subrange(0, i as int)),
            decreases records@.len() - i,
        {
            lock.insert_record(records[i].0.clone(), records[i].1.duplicate());
            assert(views.subrange(0, i + 1).drop_last() =~= views.subrange(0, i as int));
            i = i + 1;
        }
        assert(views.subrange(0, records@.len() as int) =~= views);
        lock
    }
}

proof fn lemma_records_size(s: Seq<(Seq<char>, EntryView)>)
    requires
        keys_unique(s),
    ensures
        records_map(s).dom().len() == s.len(),
        records_map(s).dom().finite(),
    decreases s.len(),
{
    if s.len() > 0 {
        let t = s.drop_last();
        assert(keys_unique(t)) by {
            assert forall|i: int, j: int| 0 <= i < j < t.len() implies (#[trigger] t[i]).0 != (#[trigger] t[j]).0 by {
                assert(t[i] == s[i] && t[j] == s[j]);
            }
        }
        lemma_records_size(t);
        lemma_records_lookup(t, s.last().0);
        if records_map(t).contains_key(s.last().0) {
            let i = choose|i: int| 0 <= i < t.len() && (#[trigger] t[i]).0 == s.last().0;
            assert(s[i].0 == s[s.len() - 1].0);
        }
    }
}

/// A well-formed lockfile holds finitely many records.
pub proof fn lemma_lockfile_finite(l: LockFile)
    requires
        l.wf(),
    ensures
        l@.packages.dom().finite(),
{
    lemma_records_size(l.records());
}

/// Writing a lockfile out as records and reading them back gives the same
/// lockfile, and writing that again gives the same records, up to their order.
pub proof fn lemma_records_round_trip(
    l: LockFileView,
    first: Seq<(Seq<char>, EntryView)>,
    reread: LockFileView,
    second: Seq<(Seq<char>, EntryView)>,
)
    requires
        keys_unique(first),
        records_map(first) == l.packages,
        reread.version == l.version,
        reread.packages == records_map(first),
        keys_unique(second),
        records_map(second) == reread.packages,
    ensures
        reread == l,
        first.to_set() == second.to_set(),
{
    assert forall|p: (Seq<char>, EntryView)| first.contains(p) <==> second.contains(p) by {
        lemma_records_lookup(first, p.0);
        lemma_records_lookup(second, p.0);
        if first.contains(p) {
            let i = choose|i: int| 0 <= i < first.len() && first[i] == p;
            assert(first[i].0 == p.0);
            let j = choose|j: int| 0 <= j < second.len() && (#[trigger] second[j]).0 == p.0;
            assert(second[j] == p);
        }
        if second.contains(p) {
            let j = choose|j: int| 0 <= j < second.len() && second[j] == p;
            assert(second[j].0 == p.0);
            let i = choose|i: int| 0 <= i < first.len() && (#[trigger] first[i]).0 == p.0;
            assert(first[i] == p);
        }
    }
    assert(first.to_set() =~= second.to_set());
}

} // verus!
