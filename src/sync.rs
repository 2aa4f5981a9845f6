//! The pagination controller, as decisions on plain values: from the state of
//! a run and what happened to the current page, the next state. The caller
//! fetches each page it is asked for and persists the records it is told to.
use vstd::prelude::*;
use crate::page::IssueSearchResultSet;
use crate::store::{rows_of, upserted, IssueStore};

verus! {

/// Why a run ended early.
#[derive(Debug)]
pub enum SyncError {
    /// The fetch of a page failed: network, authentication, or a non-success status.
    Transport(String),
    /// A page's text could not be decoded.
    Decode(String),
    /// The records of a page could not be persisted.
    Persist(String),
}

/// How a run ended: how many records were processed, and the failure if any.
#[derive(Debug)]
pub struct SyncOutcome {
    pub total_processed: usize,
    pub error: Option<SyncError>,
}

/// The state of one run: the offset of the next page, which is also the
/// number of records processed, whether the run is over, and why it stopped
/// early if it did.
pub struct Pager {
    pub offset: usize,
    pub finished: bool,
    pub error: Option<SyncError>,
    /// The pages taken so far: record count and declared total of each.
    pub taken: Ghost<Seq<(int, int)>>,
}

/// After a page of `count` records whose reply declared `total`, starting at
/// `offset`, the run stops: the declared total is reached, or the page was empty.
pub open spec fn stops(offset: int, count: int, total: int) -> bool {
    offset + count >= total || count == 0
}

/// The state of a run from the start, after taking pages in order, each given
/// by its record count and declared total: the offset of the next page (the
/// records processed), and whether the run is over.
pub open spec fn state_after(pages: Seq<(int, int)>) -> (int, bool)
    decreases pages.len(),
{
    if pages.len() == 0 {
        (0, false)
    } else {
        let prev = state_after(pages.drop_last());
        (prev.0 + pages.last().0, prev.1 || stops(prev.0, pages.last().0, pages.last().1))
    }
}

/// The records in the first `k` pages.
pub open spec fn cumulative(pages: Seq<(int, int)>, k: int) -> int
    decreases k,
{
    if k <= 0 {
        0
    } else {
        cumulative(pages, k - 1) + pages[k - 1].0
    }
}

proof fn lemma_state_offset(pages: Seq<(int, int)>, k: int)
    requires
        0 <= k <= pages.len(),
    ensures
        state_after(pages.take(k)).0 == cumulative(pages, k),
    decreases k,
{
    if k > 0 {
        assert(pages.take(k).drop_last() == pages.take(k - 1));
        lemma_state_offset(pages, k - 1);
    }
}

/// When the records served reach the declared total at page `n`, with every
/// earlier page non-empty and short of its declared total, a run from the
/// start is still going after each of the first `n` pages, so it fetches
/// again, and is over after page `n`, having processed the declared total:
/// exactly `n + 1` fetches.
pub proof fn lemma_pagination_terminates(pages: Seq<(int, int)>, n: int)
    requires
        0 <= n < pages.len(),
        forall|i: int| 0 <= i < n ==> (#[trigger] pages[i]).0 > 0,
        forall|i: int| 0 <= i < n ==> cumulative(pages, i + 1) < (#[trigger] pages[i]).1,
        cumulative(pages, n + 1) == pages[n].1,
    ensures
        forall|k: int| 1 <= k <= n ==> !(#[trigger] state_after(pages.take(k))).1,
        state_after(pages.take(n + 1)) == (pages[n].1, true),
{
    assert forall|k: int| 1 <= k <= n + 1 implies (#[trigger] state_after(pages.take(k))).1 == (k
        == n + 1) by {
        lemma_going_until(pages, n, k);
    }
    lemma_state_offset(pages, n + 1);
}

proof fn lemma_going_until(pages: Seq<(int, int)>, n: int, k: int)
    requires
        0 <= n < pages.len(),
        0 <= k <= n + 1,
        forall|i: int| 0 <= i < n ==> (#[trigger] pages[i]).0 > 0,
        forall|i: int| 0 <= i < n ==> cumulative(pages, i + 1) < (#[trigger] pages[i]).1,
        cumulative(pages, n + 1) == pages[n].1,
    ensures
        state_after(pages.take(k)).1 == (k == n + 1),
    decreases k,
{
    if k > 0 {
        assert(pages.take(k).drop_last() == pages.take(k - 1));
        assert(pages.take(k).last() == pages[k - 1]);
        lemma_going_until(pages, n, k - 1);
        lemma_state_offset(pages, k - 1);
    }
}

/// The same, of a pager without failure that has taken pages of that
/// sequence from the start: after `k <= n` of them it asks for another
/// (`next_offset` is `Some`); after `n + 1` it is over, having processed the
/// declared total.
pub proof fn lemma_pager_run_terminates(p: &Pager, pages: Seq<(int, int)>, n: int, k: int)
    requires
        p.follows(),
        p.error is None,
        0 <= n < pages.len(),
        1 <= k <= n + 1,
        p.taken@ == pages.take(k),
        forall|i: int| 0 <= i < n ==> (#[trigger] pages[i]).0 > 0,
        forall|i: int| 0 <= i < n ==> cumulative(pages, i + 1) < (#[trigger] pages[i]).1,
        cumulative(pages, n + 1) == pages[n].1,
    ensures
        k <= n ==> !p.finished,
        k == n + 1 ==> p.finished && p.offset == pages[n].1,
{
    lemma_pagination_terminates(pages, n);
}

/// A run is over after an empty page, whatever total it declared.
pub proof fn lemma_empty_page_stops(pages: Seq<(int, int)>, total: int)
    ensures
        state_after(pages.push((0, total))).1,
{
    assert(pages.push((0int, total)).drop_last() =~= pages);
}

impl Pager {
    /// Until a failure, the state is the one that the pages taken lead to.
    pub open spec fn follows(&self) -> bool {
        self.error is None ==> (self.offset as int, self.finished) == state_after(self.taken@)
    }

    /// A run that has not fetched anything: it starts at offset zero.
    pub fn new() -> (r: Pager)
        ensures
            r.offset == 0,
            !r.finished,
            r.error is None,
            r.taken@ == Seq::<(int, int)>::empty(),
            r.follows(),
    {
        Pager { offset: 0, finished: false, error: None, taken: Ghost(Seq::empty()) }
    }

    /// The offset of the page to fetch next; `None` once the run is over.
    pub fn next_offset(&self) -> (r: Option<usize>)
        ensures
            r == (if self.finished { None } else { Some(self.offset) }),
    {
        if self.finished {
            None
        } else {
            Some(self.offset)
        }
    }

    /// The number of records processed so far.
    pub fn total_processed(&self) -> (r: usize)
        ensures
            r == self.offset,
    {
        self.offset
    }

    /// Ends the run on a failure: a fetch or a write that did not succeed.
    pub fn on_failure(&mut self, e: SyncError)
        ensures
            final(self).finished,
            final(self).error == Some(e),
            final(self).offset == old(self).offset,
            final(self).taken == old(self).taken,
            final(self).follows(),
    {
        self.finished = true;
        self.error = Some(e);
    }

    /// Takes a fetched page. Returns whether its records are to be persisted:
    /// not when the page reports a failure, which ends the run.
    pub fn on_page(&mut self, page: &IssueSearchResultSet) -> (persist: bool)
        ensures
            persist == page.err is None,
            final(self).offset == old(self).offset,
            persist ==> final(self).finished == old(self).finished && final(self).error == old(
                self,
            ).error,
            !persist ==> final(self).finished,
            page.err matches Some(e) ==> (final(self).error matches Some(SyncError::Decode(m))
                && m@ == e@),
            final(self).taken == old(self).taken,
            old(self).follows() ==> final(self).follows(),
    {
        match &page.err {
            Some(e) => {
                self.finished = true;
                self.error = Some(SyncError::Decode(e.clone()));
                false
            },
            None => true,
        }
    }

    /// Advances past a page of `count` records, persisted, whose reply declared
    /// `total`. The run stops once the declared total is reached, or at an
    /// empty page, so a stale total cannot keep it going.
    pub fn on_persisted(&mut self, count: usize, total: usize)
        requires
            old(self).offset + count <= usize::MAX,
        ensures
            final(self).offset == old(self).offset + count,
            final(self).finished == (old(self).finished || stops(
                old(self).offset as int,
                count as int,
                total as int,
            )),
            count == 0 ==> final(self).finished,
            final(self).error == old(self).error,
            final(self).taken@ == old(self).taken@.push((count as int, total as int)),
            old(self).follows() ==> final(self).follows(),
    {
        proof {
            assert(self.taken@.push((count as int, total as int)).drop_last() =~= self.taken@);
        }
        self.taken = Ghost(self.taken@.push((count as int, total as int)));
        self.offset = self.offset + count;
        if self.offset >= total || count == 0 {
            self.finished = true;
        }
    }

    /// Takes a fetched page: a page that reports a failure ends the run and
    /// writes nothing; otherwise its records are upserted into `store` and the
    /// run advances past them. Returns the number of records newly written.
    pub fn take_page(&mut self, store: &mut IssueStore, page: &IssueSearchResultSet) -> (written: usize)
        requires
            old(store).wf(),
            page.err is None ==> old(self).offset + page.issues@.len() <= usize::MAX,
        ensures
            final(store).wf(),
            final(store).checkpoints@ == old(store).checkpoints@,
            old(self).follows() ==> final(self).follows(),
            match page.err {
                Some(e) => {
                    &&& final(self).taken == old(self).taken
                    &&& final(store).rows_view() == old(store).rows_view()
                    &&& written == 0
                    &&& final(self).offset == old(self).offset
                    &&& final(self).finished
                    &&& final(self).error matches Some(SyncError::Decode(m)) && m@ == e@
                },
                None => {
                    &&& final(store).rows_view() == upserted(
                        old(store).rows_view(),
                        rows_of(page.issues@),
                    )
                    &&& written == final(store).rows_view().len() - old(store).rows_view().len()
                    &&& final(self).offset == old(self).offset + page.issues@.len()
                    &&& final(self).finished == (old(self).finished || stops(
                        old(self).offset as int,
                        page.issues@.len() as int,
                        page.total as int,
                    ))
                    &&& final(self).error == old(self).error
                    &&& final(self).taken@ == old(self).taken@.push(
                        (page.issues@.len() as int, page.total as int),
                    )
                },
            },
    {
        if !self.on_page(page) {
            return 0;
        }
        let written = store.upsert_summaries(page.issues.as_slice());
        self.on_persisted(page.issues.len(), page.total);
        written
    }

    /// How the run ended.
    pub fn into_outcome(self) -> (r: SyncOutcome)
        ensures
            r.total_processed == self.offset,
            r.error == self.error,
    {
        SyncOutcome { total_processed: self.offset, error: self.error }
    }
}

} // verus!
