//! In-memory registry of all jobs managed by the daemon: jobs by id and an
//! index from job names to ids.

use vstd::prelude::*;
use vstd::string::StringSliceAdditionalSpecFns;
use crate::assoc::StrMap;
use crate::job::Job;
use crate::text::{starts_with_str, starts_with_seq, str_eq};

verus! {

broadcast use vstd::string::group_string_axioms;

/// Registry of jobs keyed by id, with a name index.
#[derive(Debug)]
pub struct JobStore {
    jobs: StrMap<Job>,
    name_index: StrMap<String>,
}

/// The character sequences of an optional string.
pub open spec fn opt_view(o: Option<String>) -> Option<Seq<char>> {
    match o {
        Some(s) => Some(s@),
        None => None,
    }
}

/// Number of bytes of the UTF-8 encoding of `s` (`str::len`).
pub open spec fn utf8_len(s: Seq<char>) -> usize {
    vstd::utf8::encode_utf8(s).len() as usize
}

/// The keys of `ks` that begin with `q`, in order.
pub open spec fn prefix_matches(ks: Seq<Seq<char>>, q: Seq<char>) -> Seq<Seq<char>>
    decreases ks.len(),
{
    if ks.len() == 0 {
        seq![]
    } else if starts_with_seq(ks.last(), q) {
        prefix_matches(ks.drop_last(), q).push(ks.last())
    } else {
        prefix_matches(ks.drop_last(), q)
    }
}

/// A job belongs to the workspace filter: no filter, or its workspace is the
/// one asked for.
pub open spec fn in_workspace(j: Job, ws: Option<Seq<char>>) -> bool {
    match ws {
        None => true,
        Some(w) => j.workspace matches Some(jw) && jw@ == w,
    }
}

/// The jobs of `s` that belong to the workspace filter, in order.
pub open spec fn select_workspace(s: Seq<Job>, ws: Option<Seq<char>>) -> Seq<Job>
    decreases s.len(),
{
    if s.len() == 0 {
        seq![]
    } else if in_workspace(s.last(), ws) {
        select_workspace(s.drop_last(), ws).push(s.last())
    } else {
        select_workspace(s.drop_last(), ws)
    }
}

/// The view of an optional string slice.
pub open spec fn opt_str_view(o: Option<&str>) -> Option<Seq<char>> {
    match o {
        Some(s) => Some(s@),
        None => None,
    }
}

impl JobStore {
    /// Jobs by id.
    pub closed spec fn jobs(&self) -> Map<Seq<char>, Job> {
        self.jobs@
    }

    /// Job ids by name.
    pub closed spec fn names(&self) -> Map<Seq<char>, Seq<char>> {
        self.name_index@.map_values(|s: String| s@)
    }

    /// The jobs in the order they were first inserted.
    pub closed spec fn job_seq(&self) -> Seq<Job> {
        self.jobs.values()
    }

    /// The job ids in the order they were first inserted.
    pub closed spec fn id_seq(&self) -> Seq<Seq<char>> {
        self.jobs.keys()
    }

    /// Internal consistency of the registry: both maps are well formed and
    /// every job is stored under its own id.
    pub closed spec fn wf(&self) -> bool {
        &&& self.jobs.wf()
        &&& self.name_index.wf()
        &&& forall|k: Seq<char>| #[trigger] self.jobs@.contains_key(k) ==> self.jobs@[k].id@ == k
    }

    /// Every job of a well-formed registry is stored under its own id.
    pub proof fn lemma_keys_are_ids(&self)
        requires
            self.wf(),
        ensures
            forall|k: Seq<char>| #[trigger] self.jobs().contains_key(k) ==> self.jobs()[k].id@ == k,
    {
    }

    /// The ordered views agree with the maps: every id and every job stored
    /// appears once, and nothing else.
    pub proof fn lemma_sequences(&self)
        requires
            self.wf(),
        ensures
            self.job_seq().len() == self.id_seq().len(),
            forall|i: int|
                #![trigger self.id_seq()[i]]
                0 <= i < self.id_seq().len() ==> self.jobs().contains_key(self.id_seq()[i])
                    && self.jobs()[self.id_seq()[i]] == self.job_seq()[i],
            forall|k: Seq<char>|
                #[trigger] self.jobs().contains_key(k) ==> exists|i: int|
                    0 <= i < self.id_seq().len() && #[trigger] self.id_seq()[i] == k,
            forall|i: int, j: int|
                0 <= i < j < self.id_seq().len() ==> #[trigger] self.id_seq()[i]
                    != #[trigger] self.id_seq()[j],
    {
        self.jobs.lemma_entries();
        assert forall|k: Seq<char>| #[trigger] self.jobs().contains_key(k) implies exists|i: int|
            0 <= i < self.id_seq().len() && #[trigger] self.id_seq()[i] == k by {
            let i = choose|i: int| 0 <= i < self.jobs.entries().len() && #[trigger] self.jobs.entries()[i].0@ == k;
            assert(self.id_seq()[i] == k);
        }
        assert forall|i: int|
            #![trigger self.id_seq()[i]]
            0 <= i < self.id_seq().len() implies self.jobs().contains_key(self.id_seq()[i])
                && self.jobs()[self.id_seq()[i]] == self.job_seq()[i] by {
            assert(self.jobs.entries()[i].0@ == self.id_seq()[i]);
        }
        assert forall|i: int, j: int|
            0 <= i < j < self.id_seq().len() implies #[trigger] self.id_seq()[i]
                != #[trigger] self.id_seq()[j] by {
            assert(self.jobs.entries()[i].0@ == self.id_seq()[i]);
            assert(self.jobs.entries()[j].0@ == self.id_seq()[j]);
        }
    }

    /// An empty registry.
    pub fn new() -> (s: Self)
        ensures
            s.wf(),
            s.jobs() == Map::<Seq<char>, Job>::empty(),
            s.names() == Map::<Seq<char>, Seq<char>>::empty(),
            s.job_seq().len() == 0,
    {
        let s = JobStore { jobs: StrMap::new(), name_index: StrMap::new() };
        assert(s.names() =~= Map::<Seq<char>, Seq<char>>::empty());
        s
    }

    /// Inserts a job under its id, replacing any job with that id; a named
    /// job becomes the one its name refers to.
    pub fn insert(&mut self, job: Job)
        requires
            old(self).wf(),
        ensures
            final(self).wf(),
            inserted(*old(self), *final(self), job),
    {
        let ghost names0 = self.names();
        if let Some(ref name) = job.name {
            self.name_index.insert(name.clone(), job.id.clone());
            assert(self.names() =~= names0.insert(name@, job.id@));
        }
        let id = job.id.clone();
        self.jobs.insert(id, job);
    }

    /// The job with the given id.
    pub fn get(&self, id: &str) -> (r: Option<&Job>)
        requires
            self.wf(),
        ensures
            r == (if self.jobs().contains_key(id@) {
                Some(&self.jobs()[id@])
            } else {
                None
            }),
    {
        self.jobs.get(id)
    }

    /// Mutable access to the job with the given id; the name index is
    /// untouched, and the registry stays well formed as long as the job's id
    /// is left as it is.
    pub fn get_mut(&mut self, id: &str) -> (r: Option<&mut Job>)
        requires
            old(self).wf(),
        ensures
            final(self).names() == old(self).names(),
            match r {
                Some(j) => old(self).jobs().contains_key(id@) && *j == old(self).jobs()[id@]
                    && final(self).jobs() == old(self).jobs().insert(id@, *final(j))
                    && (final(j).id == j.id ==> final(self).wf()),
                None => !old(self).jobs().contains_key(id@) && final(self).jobs() == old(
                    self,
                ).jobs() && final(self).wf(),
            },
    {
        self.jobs.get_mut(id)
    }

    /// The job the name refers to (names are case-sensitive).
    pub fn find_by_name(&self, name: &str) -> (r: Option<&Job>)
        requires
            self.wf(),
        ensures
            match r {
                Some(j) => named(*self, name@) == Some(*j),
                None => named(*self, name@) is None,
            },
    {
        match self.name_index.get(name) {
            Some(id) => self.jobs.get(id.as_str()),
            None => None,
        }
    }

    /// Ids of the jobs whose id starts with `q`, in insertion order.
    fn ids_with_prefix(&self, q: &str) -> (r: Vec<String>)
        requires
            self.wf(),
        ensures
            r@.map_values(|s: String| s@) == prefix_matches(self.id_seq(), q@),
    {
        let mut out: Vec<String> = Vec::new();
        let mut i: usize = 0;
        let n = self.jobs.len();
        while i < n
            invariant
                self.wf(),
                n == self.id_seq().len(),
                i <= n,
                out@.map_values(|s: String| s@) == prefix_matches(self.id_seq().take(i as int), q@),
            decreases n - i,
        {
            let e = self.jobs.entry_at(i);
            let ghost t = self.id_seq().take(i + 1);
            assert(t.drop_last() =~= self.id_seq().take(i as int));
            assert(t.last() == e.0@);
            if starts_with_str(e.0.as_str(), q) {
                out.push(e.0.clone());
                assert(out@.map_values(|s: String| s@) =~= prefix_matches(self.id_seq().take(i as int), q@).push(e.0@));
            }
            i = i + 1;
        }
        assert(self.id_seq().take(n as int) =~= self.id_seq());
        out
    }

    /// Resolves a query to a job id. Tried in order: an exact id; a name whose
    /// job exists; a prefix of at least four bytes that exactly one id starts with.
    pub fn resolve_id(&self, query: &str) -> (r: Option<String>)
        requires
            self.wf(),
        ensures
            opt_view(r) == self.resolution(query@),
            r matches Some(k) ==> self.jobs().contains_key(k@),
    {
        if self.jobs.contains_key(query) {
            return Some(query.to_string());
        }
        if let Some(uuid) = self.name_index.get(query) {
            if self.jobs.contains_key(uuid.as_str()) {
                return Some(uuid.clone());
            }
        }
        proof {
            assert(query.spec_bytes() == vstd::utf8::encode_utf8(query@));
        }
        if query.len() >= 4 {
            let matches = self.ids_with_prefix(query);
            assert(matches@.map_values(|s: String| s@).len() == matches@.len());
            if matches.len() == 1 {
                proof {
                    self.lemma_prefix_matches_in_dom(query@);
                    assert(matches@.map_values(|s: String| s@)[0] == matches@[0]@);
                }
                return Some(matches[0].clone());
            }
        }
        proof {
            assert(!self.jobs().contains_key(query@));
            if self.names().contains_key(query@) {
                assert(self.name_index@.contains_key(query@));
                assert(!self.jobs().contains_key(self.names()[query@]));
            }
        }
        None
    }

    /// What `resolve_id` answers for `q`.
    pub open spec fn resolution(&self, q: Seq<char>) -> Option<Seq<char>> {
        if self.jobs().contains_key(q) {
            Some(q)
        } else if self.names().contains_key(q) && self.jobs().contains_key(self.names()[q]) {
            Some(self.names()[q])
        } else if utf8_len(q) >= 4 && prefix_matches(self.id_seq(), q).len() == 1 {
            Some(prefix_matches(self.id_seq(), q)[0])
        } else {
            None
        }
    }

    proof fn lemma_prefix_matches_in_dom(&self, q: Seq<char>)
        requires
            self.wf(),
        ensures
            forall|i: int|
                0 <= i < prefix_matches(self.id_seq(), q).len() ==> self.jobs().contains_key(
                    #[trigger] prefix_matches(self.id_seq(), q)[i],
                ) && starts_with_seq(prefix_matches(self.id_seq(), q)[i], q),
    {
        self.lemma_sequences();
        lemma_prefix_matches_subset(self.id_seq(), q);
        let p = prefix_matches(self.id_seq(), q);
        assert forall|i: int| 0 <= i < p.len() implies self.jobs().contains_key(#[trigger] p[i])
            && starts_with_seq(p[i], q) by {
            assert(self.id_seq().contains(p[i]));
            let j = choose|j: int| 0 <= j < self.id_seq().len() && self.id_seq()[j] == p[i];
            assert(self.jobs().contains_key(self.id_seq()[j]));
        }
    }

    /// The jobs in a workspace (all jobs when `workspace` is `None`), in
    /// insertion order.
    pub fn list_workspace(&self, workspace: Option<&str>) -> (r: Vec<&Job>)
        requires
            self.wf(),
        ensures
            r@.map_values(|j: &Job| *j) == select_workspace(self.job_seq(), opt_str_view(workspace)),
    {
        let mut out: Vec<&Job> = Vec::new();
        let n = self.jobs.len();
        let mut i: usize = 0;
        while i < n
            invariant
                self.wf(),
                n == self.job_seq().len(),
                i <= n,
                out@.map_values(|j: &Job| *j) == select_workspace(
                    self.job_seq().take(i as int),
                    opt_str_view(workspace),
                ),
            decreases n - i,
        {
            let e = self.jobs.entry_at(i);
            let j = &e.1;
            let ghost t = self.job_seq().take(i + 1);
            assert(t.drop_last() =~= self.job_seq().take(i as int));
            assert(t.last() == *j);
            let keep = match workspace {
                None => true,
                Some(ws) => match &j.workspace {
                    Some(jw) => str_eq(jw.as_str(), ws),
                    None => false,
                },
            };
            let ghost before = out@;
            if keep {
                out.push(j);
                assert(out@.map_values(|x: &Job| *x) =~= before.map_values(|x: &Job| *x).push(*j));
            }
            i = i + 1;
        }
        assert(self.job_seq().take(n as int) =~= self.job_seq());
        out
    }

    /// Removes the job with the given id, and its name from the index when
    /// that name still refers to this id.
    pub fn remove(&mut self, id: &str) -> (r: Option<Job>)
        requires
            old(self).wf(),
        ensures
            final(self).wf(),
            removed(*old(self), *final(self), id@),
            r == (if old(self).jobs().contains_key(id@) {
                Some(old(self).jobs()[id@])
            } else {
                None
            }),
    {
        let ghost names0 = self.names();
        match self.jobs.remove(id) {
            Some(job) => {
                if let Some(ref name) = job.name {
                    let points_here = match self.name_index.get(name.as_str()) {
                        Some(target) => str_eq(target.as_str(), id),
                        None => false,
                    };
                    if points_here {
                        let _ = self.name_index.remove(name.as_str());
                        assert(self.names() =~= names0.remove(name@));
                    }
                }
                Some(job)
            },
            None => None,
        }
    }
}

impl Default for JobStore {
    fn default() -> (s: Self)
        ensures
            s.wf(),
            s.jobs() == Map::<Seq<char>, Job>::empty(),
            s.names() == Map::<Seq<char>, Seq<char>>::empty(),
    {
        Self::new()
    }
}

proof fn lemma_prefix_matches_subset(ks: Seq<Seq<char>>, q: Seq<char>)
    ensures
        forall|i: int|
            0 <= i < prefix_matches(ks, q).len() ==> #[trigger] ks.contains(prefix_matches(ks, q)[i])
                && starts_with_seq(prefix_matches(ks, q)[i], q),
    decreases ks.len(),
{
    if ks.len() > 0 {
        lemma_prefix_matches_subset(ks.drop_last(), q);
        let p = prefix_matches(ks, q);
        assert forall|i: int| 0 <= i < p.len() implies #[trigger] ks.contains(p[i]) && starts_with_seq(p[i], q) by {
            let p0 = prefix_matches(ks.drop_last(), q);
            if i < p0.len() {
                assert(p[i] == p0[i]);
                assert(ks.drop_last().contains(p0[i]));
                let j = choose|j: int| 0 <= j < ks.drop_last().len() && ks.drop_last()[j] == p0[i];
                assert(ks[j] == p0[i]);
                assert(ks.contains(p[i]));
            } else {
                assert(p[i] == ks.last());
                assert(ks[ks.len() - 1] == ks.last());
                assert(ks.contains(p[i]));
            }
        }
    }
}


proof fn lemma_select_workspace(s: Seq<Job>, ws: Option<Seq<char>>, x: Job)
    ensures
        select_workspace(s, ws).contains(x) <==> (s.contains(x) && in_workspace(x, ws)),
    decreases s.len(),
{
    if s.len() > 0 {
        let t = s.drop_last();
        lemma_select_workspace(t, ws, x);
        let r = select_workspace(s, ws);
        let r0 = select_workspace(t, ws);
        if s.contains(x) && in_workspace(x, ws) {
            let i = choose|i: int| 0 <= i < s.len() && s[i] == x;
            if i < s.len() - 1 {
                assert(t[i] == x);
                assert(t.contains(x));
                let j = choose|j: int| 0 <= j < r0.len() && r0[j] == x;
                if in_workspace(s.last(), ws) {
                    assert(r[j] == x);
                } else {
                    assert(r[j] == x);
                }
            } else {
                assert(r.last() == x);
                assert(r[r.len() - 1] == x);
            }
        }
        if r.contains(x) {
            let j = choose|j: int| 0 <= j < r.len() && r[j] == x;
            if in_workspace(s.last(), ws) && j == r.len() - 1 {
                assert(s[s.len() - 1] == x);
            } else {
                assert(r0[j] == x);
                assert(r0.contains(x));
                let i = choose|i: int| 0 <= i < t.len() && t[i] == x;
                assert(s[i] == x);
            }
        }
    }
}

// ---------------------------------------------------------------------------
// Laws of the registry
// ---------------------------------------------------------------------------

/// `after` is `before` with `job` inserted, as `JobStore::insert` leaves it.
pub open spec fn inserted(before: JobStore, after: JobStore, job: Job) -> bool {
    &&& after.jobs() == before.jobs().insert(job.id@, job)
    &&& after.names() == match job.name {
        Some(n) => before.names().insert(n@, job.id@),
        None => before.names(),
    }
}

/// `after` is `before` with the job `id` removed, as `JobStore::remove` leaves it.
pub open spec fn removed(before: JobStore, after: JobStore, id: Seq<char>) -> bool {
    &&& after.jobs() == before.jobs().remove(id)
    &&& after.names() == if before.jobs().contains_key(id) {
        match before.jobs()[id].name {
            Some(n) => if before.names().contains_key(n@) && before.names()[n@] == id {
                before.names().remove(n@)
            } else {
                before.names()
            },
            None => before.names(),
        }
    } else {
        before.names()
    }
}

/// What `find_by_name` answers for `n`.
pub open spec fn named(s: JobStore, n: Seq<char>) -> Option<Job> {
    if s.names().contains_key(n) && s.jobs().contains_key(s.names()[n]) {
        Some(s.jobs()[s.names()[n]])
    } else {
        None
    }
}

/// Reading a job back right after inserting it gives that job, and every
/// other id keeps its job.
pub proof fn law_insert_then_get(before: JobStore, after: JobStore, job: Job, other: Seq<char>)
    requires
        inserted(before, after, job),
        other != job.id@,
    ensures
        after.jobs().contains_key(job.id@),
        after.jobs()[job.id@] == job,
        after.jobs().contains_key(other) == before.jobs().contains_key(other),
        before.jobs().contains_key(other) ==> after.jobs()[other] == before.jobs()[other],
{
}

/// A name refers to the job most recently inserted under it.
pub proof fn law_insert_named_then_find(before: JobStore, after: JobStore, job: Job)
    requires
        inserted(before, after, job),
        job.name is Some,
    ensures
        named(after, job.name.unwrap()@) == Some(job),
{
}

/// After a job is removed its id finds nothing, no name finds it any more,
/// and every name that referred to another job still finds that job.
pub proof fn law_remove_then_absent(before: JobStore, after: JobStore, id: Seq<char>)
    requires
        removed(before, after, id),
    ensures
        !after.jobs().contains_key(id),
        forall|n: Seq<char>|
            #![trigger named(after, n)]
            before.names().contains_key(n) && before.names()[n] == id ==> named(after, n) is None,
        forall|n: Seq<char>|
            #![trigger named(after, n)]
            !(before.names().contains_key(n) && before.names()[n] == id) ==> named(after, n) == named(
                before,
                n,
            ),
{
}

/// An exact id always resolves to itself, and whatever resolves is a stored id.
pub proof fn law_resolution(s: JobStore, q: Seq<char>)
    requires
        s.wf(),
    ensures
        s.jobs().contains_key(q) ==> s.resolution(q) == Some(q),
        s.resolution(q) matches Some(k) ==> s.jobs().contains_key(k),
{
    s.lemma_prefix_matches_in_dom(q);
    if utf8_len(q) >= 4 && prefix_matches(s.id_seq(), q).len() == 1 {
        assert(s.jobs().contains_key(prefix_matches(s.id_seq(), q)[0]));
    }
}

/// Listing a workspace gives exactly the stored jobs of that workspace
/// (every stored job when no workspace is given).
pub proof fn law_list_workspace(s: JobStore, ws: Option<Seq<char>>, x: Job)
    requires
        s.wf(),
    ensures
        select_workspace(s.job_seq(), ws).contains(x) <==> (exists|k: Seq<char>|
            #[trigger] s.jobs().contains_key(k) && s.jobs()[k] == x) && in_workspace(x, ws),
{
    s.lemma_sequences();
    lemma_select_workspace(s.job_seq(), ws, x);
    if s.job_seq().contains(x) {
        let i = choose|i: int| 0 <= i < s.job_seq().len() && s.job_seq()[i] == x;
        assert(s.jobs().contains_key(s.id_seq()[i]));
    }
    if exists|k: Seq<char>| #[trigger] s.jobs().contains_key(k) && s.jobs()[k] == x {
        let k = choose|k: Seq<char>| #[trigger] s.jobs().contains_key(k) && s.jobs()[k] == x;
        let i = choose|i: int| 0 <= i < s.id_seq().len() && #[trigger] s.id_seq()[i] == k;
        assert(s.job_seq()[i] == x);
        assert(s.job_seq().contains(x));
    }
}

} // verus!
