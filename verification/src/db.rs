use vstd::prelude::*;

verus! {

/// One detected file: its path and the signature names that matched it.
pub struct ThreatEntry {
    pub path: String,
    pub names: Vec<String>,
}

/// The mapping a sequence of entries stands for; in a well-formed record no
/// path appears twice, so later entries never shadow earlier ones.
pub open spec fn entries_map(s: Seq<ThreatEntry>) -> Map<Seq<char>, Seq<Seq<char>>>
    decreases s.len(),
{
    if s.len() == 0 {
        Map::empty()
    } else {
        entries_map(s.drop_last()).insert(s.last().path@, s.last().names.deep_view())
    }
}

/// No two entries name the same path.
pub open spec fn distinct_paths(s: Seq<ThreatEntry>) -> bool {
    forall|i: int, j: int| 0 <= i < j < s.len() ==> s[i].path@ != s[j].path@
}

proof fn lemma_entries_map_contains(s: Seq<ThreatEntry>, k: Seq<char>)
    ensures
        entries_map(s).contains_key(k) <==> exists|i: int| 0 <= i < s.len() && s[i].path@ == k,
    decreases s.len(),
{
    if s.len() > 0 {
        lemma_entries_map_contains(s.drop_last(), k);
        if s.last().path@ == k {
            assert(s[s.len() - 1].path@ == k);
        } else if entries_map(s).contains_key(k) {
            let i = choose|i: int| 0 <= i < s.drop_last().len() && s.drop_last()[i].path@ == k;
            assert(s[i].path@ == k);
        } else {
            assert forall|i: int| 0 <= i < s.len() implies s[i].path@ != k by {
                if i < s.len() - 1 {
                    assert(s.drop_last()[i].path@ == s[i].path@);
                }
            }
        }
    }
}

proof fn lemma_entries_map_index(s: Seq<ThreatEntry>, i: int)
    requires
        distinct_paths(s),
        0 <= i < s.len(),
    ensures
        entries_map(s).contains_key(s[i].path@),
        entries_map(s)[s[i].path@] == s[i].names.deep_view(),
    decreases s.len(),
{
    if i == s.len() - 1 {
    } else {
        assert(distinct_paths(s.drop_last()));
        assert(s.drop_last()[i] == s[i]);
        lemma_entries_map_index(s.drop_last(), i);
        assert(s[i].path@ != s.last().path@);
    }
}

proof fn lemma_entries_map_len(s: Seq<ThreatEntry>)
    requires
        distinct_paths(s),
    ensures
        entries_map(s).dom().finite(),
        entries_map(s).dom().len() == s.len(),
    decreases s.len(),
{
    if s.len() > 0 {
        assert(distinct_paths(s.drop_last()));
        lemma_entries_map_len(s.drop_last());
        lemma_entries_map_contains(s.drop_last(), s.last().path@);
        assert forall|i: int|
            0 <= i < s.drop_last().len() implies s.drop_last()[i].path@
            != s.last().path@ by {
            assert(s.drop_last()[i] == s[i]);
        }
        assert(!entries_map(s.drop_last()).contains_key(s.last().path@));
    }
}

proof fn lemma_entries_map_update(s: Seq<ThreatEntry>, i: int, e: ThreatEntry)
    requires
        distinct_paths(s),
        0 <= i < s.len(),
        e.path@ == s[i].path@,
    ensures
        entries_map(s.update(i, e)) == entries_map(s).insert(e.path@, e.names.deep_view()),
    decreases s.len(),
{
    if i == s.len() - 1 {
        assert(s.update(i, e).drop_last() =~= s.drop_last());
        assert(s.update(i, e).last() == e);
        assert(entries_map(s.update(i, e)) =~= entries_map(s).insert(
            e.path@,
            e.names.deep_view(),
        ));
    } else {
        assert(distinct_paths(s.drop_last()));
        assert(s.drop_last()[i] == s[i]);
        lemma_entries_map_update(s.drop_last(), i, e);
        assert(s.update(i, e).drop_last() =~= s.drop_last().update(i, e));
        assert(s.update(i, e).last() == s.last());
        assert(s[i].path@ != s.last().path@);
        assert(entries_map(s.update(i, e)) =~= entries_map(s).insert(
            e.path@,
            e.names.deep_view(),
        ));
    }
}

proof fn lemma_entries_map_remove(s: Seq<ThreatEntry>, i: int)
    requires
        distinct_paths(s),
        0 <= i < s.len(),
    ensures
        entries_map(s.remove(i)) == entries_map(s).remove(s[i].path@),
    decreases s.len(),
{
    if i == s.len() - 1 {
        assert(s.remove(i) =~= s.drop_last());
        lemma_entries_map_contains(s.drop_last(), s.last().path@);
        assert forall|j: int|
            0 <= j < s.drop_last().len() implies s.drop_last()[j].path@
            != s.last().path@ by {
            assert(s.drop_last()[j] == s[j]);
        }
        assert(!entries_map(s.drop_last()).contains_key(s.last().path@));
        assert(entries_map(s.remove(i)) =~= entries_map(s).remove(s[i].path@));
    } else {
        assert(distinct_paths(s.drop_last()));
        assert(s.drop_last()[i] == s[i]);
        lemma_entries_map_remove(s.drop_last(), i);
        assert(s.remove(i).drop_last() =~= s.drop_last().remove(i));
        assert(s.remove(i).last() == s.last());
        assert(s[i].path@ != s.last().path@);
        assert(entries_map(s.remove(i)) =~= entries_map(s).remove(s[i].path@));
    }
}

/// The threat record: which files matched which signature names. A recorded
/// file carries at least one name and appears exactly once.
pub struct Threats {
    entries: Vec<ThreatEntry>,
}

impl View for Threats {
    type V = Map<Seq<char>, Seq<Seq<char>>>;

    closed spec fn view(&self) -> Map<Seq<char>, Seq<Seq<char>>> {
        entries_map(self.entries@)
    }
}

impl Threats {
    /// Every path appears once and owns a non-empty name list.
    pub closed spec fn wf(&self) -> bool {
        distinct_paths(self.entries@) && forall|i: int|
            0 <= i < self.entries@.len() ==> self.entries@[i].names@.len() > 0
    }

    /// An empty record.
    pub fn new() -> (r: Threats)
        ensures
            r.wf(),
            r@ == Map::<Seq<char>, Seq<Seq<char>>>::empty(),
    {
        Threats { entries: Vec::new() }
    }

    /// Discards every recorded threat.
    pub fn clear(&mut self)
        ensures
            final(self).wf(),
            final(self)@ == Map::<Seq<char>, Seq<Seq<char>>>::empty(),
    {
        self.entries.clear();
    }

    /// How many files are recorded.
    pub fn len(&self) -> (r: usize)
        requires
            self.wf(),
        ensures
            r == self@.dom().len(),
    {
        proof {
            lemma_entries_map_len(self.entries@);
        }
        self.entries.len()
    }

    /// Whether no file is recorded.
    pub fn is_empty(&self) -> (r: bool)
        requires
            self.wf(),
        ensures
            r <==> self@ == Map::<Seq<char>, Seq<Seq<char>>>::empty(),
    {
        proof {
            if self.entries@.len() > 0 {
                lemma_entries_map_index(self.entries@, self.entries@.len() - 1);
            } else {
                assert(self@ =~= Map::<Seq<char>, Seq<Seq<char>>>::empty());
            }
        }
        self.entries.is_empty()
    }

    /// Appends `name` to the names recorded for `path`, creating the record
    /// if the path was not seen before.
    pub fn record(&mut self, path: String, name: String)
        requires
            old(self).wf(),
        ensures
            final(self).wf(),
            old(self)@.contains_key(path@) ==> final(self)@ == old(self)@.insert(
                path@,
                old(self)@[path@].push(name@),
            ),
            !old(self)@.contains_key(path@) ==> final(self)@ == old(self)@.insert(
                path@,
                seq![name@],
            ),
    {
        proof {
            lemma_entries_map_contains(self.entries@, path@);
        }
        let n = self.entries.len();
        let mut i: usize = 0;
        while i < n
            invariant
                *self == *old(self),
                self.wf(),
                n == self.entries@.len(),
                i <= n,
                forall|j: int| 0 <= j < i ==> self.entries@[j].path@ != path@,
            decreases n - i,
        {
            if self.entries[i].path == path {
                let ghost s = self.entries@;
                let ghost e0 = self.entries@[i as int];
                self.entries[i].names.push(name);
                proof {
                    let e1 = self.entries@[i as int];
                    assert(e1.path == e0.path && e1.names@ == e0.names@.push(name));
                    assert(e1.names.deep_view() =~= e0.names.deep_view().push(name@));
                    assert(self.entries@ =~= s.update(i as int, e1));
                    lemma_entries_map_update(s, i as int, e1);
                    lemma_entries_map_index(s, i as int);
                }
                return ;
            }
            i += 1;
        }
        let mut names: Vec<String> = Vec::new();
        names.push(name);
        let ghost s = self.entries@;
        let ghost p = path@;
        self.entries.push(ThreatEntry { path, names });
        proof {
            let e = self.entries@.last();
            assert(self.entries@.drop_last() =~= s);
            assert(e.names.deep_view() =~= seq![name@]);
            assert(forall|j: int| 0 <= j < s.len() ==> s[j].path@ != p);
            assert(distinct_paths(self.entries@));
        }
    }

    /// Removes the record for `path`, if any.
    pub fn remove(&mut self, path: &String)
        requires
            old(self).wf(),
        ensures
            final(self).wf(),
            final(self)@ == old(self)@.remove(path@),
    {
        proof {
            lemma_entries_map_contains(self.entries@, path@);
        }
        let n = self.entries.len();
        let mut i: usize = 0;
        while i < n
            invariant
                *self == *old(self),
                self.wf(),
                n == self.entries@.len(),
                i <= n,
                forall|j: int| 0 <= j < i ==> self.entries@[j].path@ != path@,
            decreases n - i,
        {
            if self.entries[i].path == *path {
                let ghost s = self.entries@;
                self.entries.remove(i);
                proof {
                    lemma_entries_map_remove(s, i as int);
                    assert(distinct_paths(self.entries@)) by {
                        assert(forall|a: int, b: int|
                            0 <= a < b < self.entries@.len() ==> #[trigger] self.entries@[a].path@
                                != #[trigger] self.entries@[b].path@) by {
                            assert(forall|a: int|
                                0 <= a < self.entries@.len() ==> #[trigger] self.entries@[a] == (
                                if a < i { s[a] } else { s[a + 1] }));
                        }
                    }
                }
                return ;
            }
            i += 1;
        }
        proof {
            assert(!self@.contains_key(path@));
            assert(self@ =~= self@.remove(path@));
        }
    }

    /// The names recorded for `path`, if any.
    pub fn get(&self, path: &String) -> (r: Option<&Vec<String>>)
        requires
            self.wf(),
        ensures
            match r {
                Some(names) => self@.contains_key(path@) && names.deep_view() == self@[path@],
                None => !self@.contains_key(path@),
            },
    {
        proof {
            lemma_entries_map_contains(self.entries@, path@);
        }
        let n = self.entries.len();
        let mut i: usize = 0;
        while i < n
            invariant
                self.wf(),
                n == self.entries@.len(),
                i <= n,
                forall|j: int| 0 <= j < i ==> self.entries@[j].path@ != path@,
            decreases n - i,
        {
            if self.entries[i].path == *path {
                proof {
                    lemma_entries_map_index(self.entries@, i as int);
                }
                return Some(&self.entries[i].names);
            }
            i += 1;
        }
        None
    }

    /// How many files are recorded, as the length of the entry list.
    pub fn entry_count(&self) -> (r: usize)
        requires
            self.wf(),
        ensures
            r == self@.dom().len(),
    {
        self.len()
    }

    /// The `i`th recorded file and its names, for callers that walk the
    /// whole record.
    pub fn entry_at(&self, i: usize) -> (r: (&String, &Vec<String>))
        requires
            self.wf(),
            i < self@.dom().len(),
        ensures
            self@.contains_key(r.0@),
            r.1.deep_view() == self@[r.0@],
            r.1@.len() > 0,
    {
        proof {
            lemma_entries_map_len(self.entries@);
            lemma_entries_map_index(self.entries@, i as int);
        }
        let entry = &self.entries[i];
        (&entry.path, &entry.names)
    }
}

/// The durable state kept between scan runs.
pub struct Data {
    /// When the last completed scan run finished, in Unix seconds.
    pub last_scan: Option<i64>,
    /// The threat record left by the last completed run.
    pub threats: Threats,
    /// How many signatures the engine had loaded for that run.
    pub signature_count: usize,
    /// When the signature database was built, in Unix seconds.
    pub signatures_age: Option<i64>,
}

impl Data {
    pub open spec fn wf(&self) -> bool {
        self.threats.wf()
    }

    /// The state with nothing recorded: no run, no threats, no signatures.
    pub open spec fn is_empty_state(&self) -> bool {
        &&& self.last_scan is None
        &&& self.threats@ == Map::<Seq<char>, Seq<Seq<char>>>::empty()
        &&& self.signature_count == 0
        &&& self.signatures_age is None
    }

    pub fn new() -> (r: Data)
        ensures
            r.wf(),
            r.is_empty_state(),
    {
        Data { last_scan: None, threats: Threats::new(), signature_count: 0, signatures_age: None }
    }

    /// Begins a scan run: the previous run's threat record is discarded;
    /// everything else is kept until the run ends.
    pub fn begin_run(&mut self)
        requires
            old(self).wf(),
        ensures
            final(self).wf(),
            final(self).threats@ == Map::<Seq<char>, Seq<Seq<char>>>::empty(),
            final(self).last_scan == old(self).last_scan,
            final(self).signature_count == old(self).signature_count,
            final(self).signatures_age == old(self).signatures_age,
    {
        self.threats.clear();
    }

    /// Records one infected file of the running scan: `name` is appended to
    /// the names recorded for `path`. In the run model, this folds one more
    /// result into the record.
    pub fn record_threat(&mut self, path: String, name: String)
        requires
            old(self).wf(),
        ensures
            final(self).wf(),
            final(self).threats@ == record_all(old(self).threats@, seq![(path@, name@)]),
            old(self).threats@.contains_key(path@) ==> final(self).threats@ == old(
                self,
            ).threats@.insert(path@, old(self).threats@[path@].push(name@)),
            !old(self).threats@.contains_key(path@) ==> final(self).threats@ == old(
                self,
            ).threats@.insert(path@, seq![name@]),
            final(self).last_scan == old(self).last_scan,
            final(self).signature_count == old(self).signature_count,
            final(self).signatures_age == old(self).signatures_age,
    {
        self.threats.record(path, name);
        proof {
            let results: Seq<(Seq<char>, Seq<char>)> = seq![(path@, name@)];
            assert(results.last() == (path@, name@));
            assert(results.drop_last() =~= Seq::<(Seq<char>, Seq<char>)>::empty());
            assert(record_all(old(self).threats@, results.drop_last()) == old(self).threats@);
        }
    }

    /// Ends the running scan, stamping when it completed.
    pub fn finish_run(&mut self, completed_at: i64)
        requires
            old(self).wf(),
        ensures
            final(self).wf(),
            final(self).last_scan == Some(completed_at),
            final(self).threats@ == old(self).threats@,
            final(self).signature_count == old(self).signature_count,
            final(self).signatures_age == old(self).signatures_age,
    {
        self.last_scan = Some(completed_at);
    }
}

impl Default for Data {
    fn default() -> (r: Data)
        ensures
            r.wf(),
            r.is_empty_state(),
    {
        Data::new()
    }
}

/// The record left by folding one run's verdicts, oldest first, into `m`.
pub open spec fn record_all(
    m: Map<Seq<char>, Seq<Seq<char>>>,
    results: Seq<(Seq<char>, Seq<char>)>,
) -> Map<Seq<char>, Seq<Seq<char>>>
    decreases results.len(),
{
    if results.len() == 0 {
        m
    } else {
        let prev = record_all(m, results.drop_last());
        let last = results.last();
        prev.insert(
            last.0,
            if prev.contains_key(last.0) {
                prev[last.0].push(last.1)
            } else {
                seq![last.1]
            },
        )
    }
}

/// Law: a scan run first clears the threat record (`begin_run`) and then
/// folds in that run's verdicts (`record_threat`), so the record it leaves is
/// a function of the verdicts alone. Two runs that see the same verdicts —
/// as they do when nothing on the filesystem changed and the engine is
/// deterministic — leave identical records, whatever each run started from.
pub proof fn lemma_scan_run_idempotent(
    first: Data,
    second: Data,
    results: Seq<(Seq<char>, Seq<char>)>,
)
    requires
        first.threats@ == record_all(Map::<Seq<char>, Seq<Seq<char>>>::empty(), results),
        second.threats@ == record_all(Map::<Seq<char>, Seq<Seq<char>>>::empty(), results),
    ensures
        first.threats@ == second.threats@,
{
}

/// The persistent state together with where it lives on disk. Reading and
/// decoding the state file happens at the edge; whoever did hands the decoded
/// state in here, or `None` where the file was missing or failed to decode.
pub struct Database {
    path: String,
    data: Data,
}

impl Database {
    pub closed spec fn spec_path(&self) -> Seq<char> {
        self.path@
    }

    pub closed spec fn spec_data(&self) -> Data {
        self.data
    }

    pub open spec fn wf(&self) -> bool {
        self.spec_data().wf()
    }

    /// Law: missing or undecodable persistent state never surfaces as an
    /// error; it degrades to the empty default state.
    pub fn from_loaded(path: String, loaded: Option<Data>) -> (r: Database)
        requires
            loaded matches Some(d) ==> d.wf(),
        ensures
            r.wf(),
            r.spec_path() == path@,
            loaded matches Some(d) ==> r.spec_data() == d,
            loaded is None ==> r.spec_data().is_empty_state(),
    {
        match loaded {
            Some(data) => Database { path, data },
            None => Database { path, data: Data::new() },
        }
    }

    /// Where the state is stored.
    pub fn location(&self) -> (r: &str)
        ensures
            r@ == self.spec_path(),
    {
        self.path.as_str()
    }

    pub fn data(&self) -> (r: &Data)
        ensures
            r == self.spec_data(),
    {
        &self.data
    }

    pub fn data_mut(&mut self) -> (r: &mut Data)
        ensures
            *r == old(self).spec_data(),
            final(self).spec_data() == *final(r),
            final(self).spec_path() == old(self).spec_path(),
    {
        &mut self.data
    }
}

} // verus!
