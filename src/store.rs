//! The upsert store: records keyed by their human-readable key, written once
//! (first write wins), and one checkpoint per project, overwritten on each
//! successful run.
use vstd::prelude::*;
use crate::json::str_eq;
use crate::page::IssueSearchResult;
use crate::sync::SyncOutcome;
use crate::time::Timestamp;

verus! {

/// A stored record as plain values: its key, then its remote identifier.
pub type Row = (Seq<char>, Seq<char>);

/// The plain value of a search-result record.
pub open spec fn row_of(r: IssueSearchResult) -> Row {
    (r.key@, r.id@)
}

/// The plain values of a sequence of records.
pub open spec fn rows_of(rs: Seq<IssueSearchResult>) -> Seq<Row> {
    rs.map_values(|r: IssueSearchResult| row_of(r))
}

/// Some row of `rows` has the key `k`.
pub open spec fn has_key(rows: Seq<Row>, k: Seq<char>) -> bool {
    exists|i: int| 0 <= i < rows.len() && (#[trigger] rows[i]).0 == k
}

/// No two rows share a key.
pub open spec fn keys_unique(rows: Seq<Row>) -> bool {
    forall|i: int, j: int| 0 <= i < j < rows.len() ==> (#[trigger] rows[i]).0 != (#[trigger] rows[j]).0
}

/// The rows after writing `recs` in order to `rows`, each only where its key
/// is not there yet.
pub open spec fn upserted(rows: Seq<Row>, recs: Seq<Row>) -> Seq<Row>
    decreases recs.len(),
{
    if recs.len() == 0 {
        rows
    } else {
        let prev = upserted(rows, recs.drop_last());
        if has_key(prev, recs.last().0) {
            prev
        } else {
            prev.push(recs.last())
        }
    }
}

/// Upserting keeps every row that was there, in place, and adds rows after them.
pub proof fn lemma_upserted_extends(rows: Seq<Row>, recs: Seq<Row>)
    ensures
        upserted(rows, recs).len() >= rows.len(),
        upserted(rows, recs).subrange(0, rows.len() as int) == rows,
    decreases recs.len(),
{
    if recs.len() > 0 {
        lemma_upserted_extends(rows, recs.drop_last());
        let prev = upserted(rows, recs.drop_last());
        assert(prev.push(recs.last()).subrange(0, rows.len() as int) == prev.subrange(0, rows.len() as int));
    } else {
        assert(rows.subrange(0, rows.len() as int) == rows);
    }
}

/// After upserting, every key that was written is present.
pub proof fn lemma_upserted_has_keys(rows: Seq<Row>, recs: Seq<Row>)
    ensures
        forall|i: int| 0 <= i < recs.len() ==> has_key(upserted(rows, recs), #[trigger] recs[i].0),
    decreases recs.len(),
{
    if recs.len() > 0 {
        let init = recs.drop_last();
        lemma_upserted_has_keys(rows, init);
        let prev = upserted(rows, init);
        let cur = upserted(rows, recs);
        lemma_upserted_extends(prev, seq![recs.last()]);
        assert forall|i: int| 0 <= i < recs.len() implies has_key(cur, #[trigger] recs[i].0) by {
            if i < recs.len() - 1 {
                assert(recs[i] == init[i]);
                let w = choose|m: int| 0 <= m < prev.len() && (#[trigger] prev[m]).0 == recs[i].0;
                if !has_key(prev, recs.last().0) {
                    assert(cur[w] == prev[w]);
                }
            } else if !has_key(prev, recs.last().0) {
                assert(cur[prev.len() as int] == recs.last());
            }
        }
    }
}

/// Upserting records whose keys are all present changes nothing.
pub proof fn lemma_upserted_present(rows: Seq<Row>, recs: Seq<Row>)
    requires
        forall|i: int| 0 <= i < recs.len() ==> has_key(rows, #[trigger] recs[i].0),
    ensures
        upserted(rows, recs) == rows,
    decreases recs.len(),
{
    if recs.len() > 0 {
        let init = recs.drop_last();
        assert forall|i: int| 0 <= i < init.len() implies has_key(rows, #[trigger] init[i].0) by {
            assert(init[i] == recs[i]);
        }
        lemma_upserted_present(rows, init);
        assert(has_key(rows, recs[recs.len() - 1].0));
    }
}

/// Upserting keeps keys unique.
pub proof fn lemma_upserted_unique(rows: Seq<Row>, recs: Seq<Row>)
    requires
        keys_unique(rows),
    ensures
        keys_unique(upserted(rows, recs)),
    decreases recs.len(),
{
    if recs.len() > 0 {
        lemma_upserted_unique(rows, recs.drop_last());
    }
}

/// Writing the same records twice leaves the same rows as writing them once.
pub proof fn lemma_upsert_idempotent(rows: Seq<Row>, recs: Seq<Row>)
    ensures
        upserted(upserted(rows, recs), recs) == upserted(rows, recs),
{
    lemma_upserted_has_keys(rows, recs);
    lemma_upserted_present(upserted(rows, recs), recs);
}

/// Upserting two batches in turn is upserting them as one.
pub proof fn lemma_upserted_concat(rows: Seq<Row>, a: Seq<Row>, b: Seq<Row>)
    ensures
        upserted(rows, a + b) == upserted(upserted(rows, a), b),
    decreases b.len(),
{
    if b.len() == 0 {
        assert(a + b =~= a);
    } else {
        assert((a + b).drop_last() =~= a + b.drop_last());
        assert((a + b).last() == b.last());
        lemma_upserted_concat(rows, a, b.drop_last());
    }
}

/// A run that wrote `first` and stopped, followed by a run from the start
/// over `first` and then `rest`, leaves the rows of one complete run: the rows
/// written before stay in place, each key is present once, and every record
/// of `rest` is stored.
pub proof fn lemma_rerun_completes(rows: Seq<Row>, first: Seq<Row>, rest: Seq<Row>)
    requires
        keys_unique(rows),
    ensures
        upserted(upserted(rows, first), first + rest) == upserted(rows, first + rest),
        upserted(rows, first + rest).subrange(0, upserted(rows, first).len() as int)
            == upserted(rows, first),
        keys_unique(upserted(rows, first + rest)),
        forall|i: int|
            0 <= i < rest.len() ==> has_key(upserted(rows, first + rest), #[trigger] rest[i].0),
{
    let once = upserted(rows, first);
    lemma_upserted_concat(once, first, rest);
    lemma_upsert_idempotent(rows, first);
    lemma_upserted_concat(rows, first, rest);
    lemma_upserted_extends(once, rest);
    lemma_upserted_unique(rows, first + rest);
    lemma_upserted_has_keys(rows, first + rest);
    assert forall|i: int| 0 <= i < rest.len() implies has_key(
        upserted(rows, first + rest),
        #[trigger] rest[i].0,
    ) by {
        assert((first + rest)[first.len() + i] == rest[i]);
    }
}

/// The last successful sync of a project.
#[derive(Debug)]
pub struct SyncCheckpoint {
    pub project: String,
    pub last_synced_at: Timestamp,
}

/// The records seen so far, and a checkpoint per project.
#[derive(Debug)]
pub struct IssueStore {
    pub rows: Vec<IssueSearchResult>,
    pub checkpoints: Vec<SyncCheckpoint>,
}

/// No two checkpoints are for the same project.
pub open spec fn projects_unique(cps: Seq<SyncCheckpoint>) -> bool {
    forall|i: int, j: int|
        0 <= i < j < cps.len() ==> (#[trigger] cps[i]).project@ != (#[trigger] cps[j]).project@
}

/// The checkpoint of `project` among `cps`, if there is one.
pub open spec fn checkpoint_in(cps: Seq<SyncCheckpoint>, project: Seq<char>) -> Option<Timestamp> {
    if exists|i: int| 0 <= i < cps.len() && (#[trigger] cps[i]).project@ == project {
        let i = choose|i: int| 0 <= i < cps.len() && (#[trigger] cps[i]).project@ == project;
        Some(cps[i].last_synced_at)
    } else {
        None
    }
}

/// With projects unique, the checkpoint of a project is the one at its place.
proof fn lemma_checkpoint_at(cps: Seq<SyncCheckpoint>, k: int)
    requires
        projects_unique(cps),
        0 <= k < cps.len(),
    ensures
        checkpoint_in(cps, cps[k].project@) == Some(cps[k].last_synced_at),
{
    let p = cps[k].project@;
    assert(cps[k].project@ == p);
    let i = choose|i: int| 0 <= i < cps.len() && (#[trigger] cps[i]).project@ == p;
    if i < k {
        assert(cps[i].project@ != cps[k].project@);
    } else if i > k {
        assert(cps[k].project@ != cps[i].project@);
    }
}

/// Two checkpoint lists that agree on every entry but one, with projects
/// unique in both, agree on the checkpoint of every other project.
proof fn lemma_checkpoint_other(a: Seq<SyncCheckpoint>, b: Seq<SyncCheckpoint>, i: int, p: Seq<char>)
    requires
        projects_unique(a),
        projects_unique(b),
        a.len() <= b.len() <= a.len() + 1,
        b.len() == a.len() + 1 ==> i == a.len(),
        0 <= i < b.len(),
        b[i].project@ != p,
        i < a.len() ==> a[i].project@ != p,
        forall|k: int| 0 <= k < a.len() && k != i ==> a[k] == b[k],
    ensures
        checkpoint_in(b, p) == checkpoint_in(a, p),
{
    if exists|k: int| 0 <= k < a.len() && (#[trigger] a[k]).project@ == p {
        let k = choose|k: int| 0 <= k < a.len() && (#[trigger] a[k]).project@ == p;
        assert(b[k] == a[k]);
        lemma_checkpoint_at(a, k);
        lemma_checkpoint_at(b, k);
    } else if exists|k: int| 0 <= k < b.len() && (#[trigger] b[k]).project@ == p {
        let k = choose|k: int| 0 <= k < b.len() && (#[trigger] b[k]).project@ == p;
        assert(k != i);
        assert(a[k] == b[k]);
    }
}

impl IssueStore {
    /// The stored records as plain values, in the order they were first written.
    pub open spec fn rows_view(&self) -> Seq<Row> {
        rows_of(self.rows@)
    }

    /// The checkpoint of `project`, if one was set.
    pub open spec fn checkpoint_of(&self, project: Seq<char>) -> Option<Timestamp> {
        checkpoint_in(self.checkpoints@, project)
    }

    /// Keys are unique among the records, projects among the checkpoints.
    pub open spec fn wf(&self) -> bool {
        keys_unique(self.rows_view()) && projects_unique(self.checkpoints@)
    }

    /// An empty store.
    pub fn new() -> (r: IssueStore)
        ensures
            r.wf(),
            r.rows_view() == Seq::<Row>::empty(),
            forall|p: Seq<char>| r.checkpoint_of(p) is None,
    {
        let r = IssueStore { rows: Vec::new(), checkpoints: Vec::new() };
        assert(r.rows_view() =~= Seq::<Row>::empty());
        r
    }

    /// Whether a record with the key `key` is stored.
    pub fn contains_key(&self, key: &str) -> (r: bool)
        ensures
            r == has_key(self.rows_view(), key@),
    {
        let mut i: usize = 0;
        while i < self.rows.len()
            invariant
                i <= self.rows@.len(),
                forall|k: int| 0 <= k < i ==> (#[trigger] self.rows_view()[k]).0 != key@,
            decreases self.rows.len() - i,
        {
            if str_eq(self.rows[i].key.as_str(), key) {
                assert(self.rows_view()[i as int].0 == key@);
                return true;
            }
            i = i + 1;
        }
        false
    }

    /// Writes each record whose key is not stored yet, in order, and leaves
    /// stored records as they are. Returns how many records were written.
    pub fn upsert_summaries(&mut self, records: &[IssueSearchResult]) -> (r: usize)
        requires
            old(self).wf(),
        ensures
            final(self).wf(),
            final(self).rows_view() == upserted(old(self).rows_view(), rows_of(records@)),
            r == final(self).rows_view().len() - old(self).rows_view().len(),
            final(self).checkpoints@ == old(self).checkpoints@,
    {
        let ghost start = self.rows_view();
        let ghost recs = rows_of(records@);
        let mut written: usize = 0;
        let mut i: usize = 0;
        assert(recs.subrange(0, 0) =~= Seq::<Row>::empty());
        while i < records.len()
            invariant
                i <= records@.len(),
                recs == rows_of(records@),
                keys_unique(start),
                self.rows_view() == upserted(start, recs.subrange(0, i as int)),
                self.rows_view().len() == start.len() + written,
                written <= i,
                self.checkpoints@ == old(self).checkpoints@,
            decreases records.len() - i,
        {
            let ghost before = self.rows_view();
            assert(recs.subrange(0, i + 1).drop_last() == recs.subrange(0, i as int));
            assert(recs.subrange(0, i + 1).last() == row_of(records@[i as int]));
            if !self.contains_key(records[i].key.as_str()) {
                let rec = records[i].copy();
                self.rows.push(rec);
                assert(self.rows_view() =~= before.push(row_of(records@[i as int])));
                written = written + 1;
            }
            i = i + 1;
        }
        assert(recs.subrange(0, records@.len() as int) == recs);
        proof {
            lemma_upserted_unique(start, recs);
        }
        written
    }

    /// The checkpoint of `project`, if one was set.
    pub fn get_checkpoint(&self, project: &str) -> (r: Option<Timestamp>)
        requires
            self.wf(),
        ensures
            r == self.checkpoint_of(project@),
    {
        let mut i: usize = 0;
        while i < self.checkpoints.len()
            invariant
                self.wf(),
                i <= self.checkpoints@.len(),
                forall|k: int| 0 <= k < i ==> (#[trigger] self.checkpoints@[k]).project@ != project@,
            decreases self.checkpoints.len() - i,
        {
            if str_eq(self.checkpoints[i].project.as_str(), project) {
                proof {
                    lemma_checkpoint_at(self.checkpoints@, i as int);
                }
                return Some(self.checkpoints[i].last_synced_at);
            }
            i = i + 1;
        }
        None
    }

    /// The instant from which `project` is synchronized: its checkpoint, or the
    /// start of the epoch, meaning all records, when it has none.
    pub fn since(&self, project: &str) -> (r: Timestamp)
        requires
            self.wf(),
        ensures
            r == (match self.checkpoint_of(project@) {
                Some(t) => t,
                None => Timestamp { utc_seconds: 0 },
            }),
    {
        match self.get_checkpoint(project) {
            Some(t) => t,
            None => Timestamp { utc_seconds: 0 },
        }
    }

    /// Records the end of a run of `project` that started at `started`: the
    /// checkpoint moves to `started` only when the run ended without failure.
    /// Returns whether it moved.
    pub fn finish_run(&mut self, project: &str, outcome: &SyncOutcome, started: Timestamp) -> (moved: bool)
        requires
            old(self).wf(),
        ensures
            final(self).wf(),
            moved == outcome.error is None,
            final(self).rows_view() == old(self).rows_view(),
            moved ==> final(self).checkpoint_of(project@) == Some(started),
            forall|p: Seq<char>|
                (p != project@ || !moved) ==> final(self).checkpoint_of(p) == old(self).checkpoint_of(p),
    {
        if outcome.error.is_none() {
            self.set_checkpoint(project, started);
            true
        } else {
            false
        }
    }

    /// Sets the checkpoint of `project` to `at`, replacing the one it had.
    pub fn set_checkpoint(&mut self, project: &str, at: Timestamp)
        requires
            old(self).wf(),
        ensures
            final(self).wf(),
            final(self).checkpoint_of(project@) == Some(at),
            forall|p: Seq<char>| p != project@ ==> final(self).checkpoint_of(p) == old(self).checkpoint_of(p),
            final(self).rows_view() == old(self).rows_view(),
    {
        let cp = SyncCheckpoint { project: String::from_str(project), last_synced_at: at };
        let mut i: usize = 0;
        while i < self.checkpoints.len()
            invariant
                old(self).wf(),
                cp.project@ == project@,
                cp.last_synced_at == at,
                i <= self.checkpoints@.len(),
                self.checkpoints@ == old(self).checkpoints@,
                self.rows == old(self).rows,
                forall|k: int| 0 <= k < i ==> (#[trigger] self.checkpoints@[k]).project@ != project@,
            decreases self.checkpoints.len() - i,
        {
            if str_eq(self.checkpoints[i].project.as_str(), project) {
                let ghost before = self.checkpoints@;
                self.checkpoints.set(i, cp);
                proof {
                    let after = self.checkpoints@;
                    assert forall|a: int, b: int| 0 <= a < b < after.len() implies
                        (#[trigger] after[a]).project@ != (#[trigger] after[b]).project@ by {
                        if a != i && b != i {
                            assert(after[a] == before[a] && after[b] == before[b]);
                        } else if a == i {
                            assert(before[b].project@ != before[a].project@);
                        } else {
                            assert(before[a].project@ != before[b].project@);
                        }
                    }
                    lemma_checkpoint_at(after, i as int);
                    assert forall|p: Seq<char>| p != project@ implies
                        #[trigger] checkpoint_in(after, p) == checkpoint_in(before, p) by {
                        lemma_checkpoint_other(before, after, i as int, p);
                    }
                }
                return;
            }
            i = i + 1;
        }
        let ghost before = self.checkpoints@;
        self.checkpoints.push(cp);
        proof {
            let after = self.checkpoints@;
            let n = before.len() as int;
            assert forall|a: int, b: int| 0 <= a < b < after.len() implies
                (#[trigger] after[a]).project@ != (#[trigger] after[b]).project@ by {
                if b < n {
                    assert(after[a] == before[a] && after[b] == before[b]);
                } else {
                    assert(after[a] == before[a]);
                }
            }
            lemma_checkpoint_at(after, n);
            assert forall|p: Seq<char>| p != project@ implies
                #[trigger] checkpoint_in(after, p) == checkpoint_in(before, p) by {
                lemma_checkpoint_other(before, after, n, p);
            }
        }
    }
}

} // verus!
