//! The decisions of the harvest loop, as a state machine.
//!
//! The loop walks the catalog backward in time. Each round the driver asks
//! for the query to send (`next_query`), sends it, and reports what came back
//! (`record`); the returned step says how long to wait before the next round,
//! or that the harvest is finished.
use vstd::prelude::*;
use crate::catalog::CatalogEntry;
use crate::encode::{cache_map_data, cached_record};
use crate::record::MetadataView;
use crate::snapshot::MapList;

verus! {

/// Entries requested per page.
pub const PAGE_SIZE: u32 = 100;

/// Pause after a page was processed, in milliseconds.
pub const PAUSE_MILLIS: u64 = 100;

/// Wait after a transient failure, in milliseconds.
pub const BACKOFF_MILLIS: u64 = 3000;

/// Where the harvest stands.
#[derive(Clone, Copy, Debug, PartialEq, Eq, Structural)]
pub enum HarvestPhase {
    /// A query may be sent.
    Fetching,
    /// The last query failed transiently; the same query is sent again.
    Retrying,
    /// The catalog is exhausted, or its answer could not be read.
    Done,
}

/// A request for one page: entries uploaded strictly before `before`, at most
/// `page_size` of them, auto-mapped entries included only if `automapper`.
#[derive(Clone, Copy, Debug, PartialEq, Eq, Structural)]
pub struct PageQuery {
    pub before: i64,
    pub page_size: u32,
    pub automapper: bool,
}

/// What a query brought back.
pub enum FetchOutcome {
    /// A page of entries, newest first.
    Page(Vec<CatalogEntry>),
    /// A network or status failure; worth retrying.
    Transient,
    /// An answer that could not be read.
    Malformed,
}

/// What the driver does next.
#[derive(Clone, Copy, Debug, PartialEq, Eq, Structural)]
pub enum HarvestStep {
    /// Wait this long, then fetch the next page.
    Pause { millis: u64 },
    /// Wait this long, then send the same query again.
    Backoff { millis: u64 },
    /// Stop: the snapshot is complete.
    Finished,
}

/// The state of a harvest: cursor, phase and the records collected.
pub ghost struct HarvestView {
    pub cursor: i64,
    pub phase: HarvestPhase,
    pub maps: Map<Seq<char>, MetadataView>,
}

/// `m` after the entries of `page` were cached in order: each eligible,
/// encodable entry is stored under its identifier, replacing what was there.
pub open spec fn ingest(m: Map<Seq<char>, MetadataView>, page: Seq<CatalogEntry>) -> Map<
    Seq<char>,
    MetadataView,
>
    decreases page.len(),
{
    if page.len() == 0 {
        m
    } else {
        let before = ingest(m, page.drop_last());
        match cached_record(page.last()) {
            Some(r) => before.insert(page.last().id@, r),
            None => before,
        }
    }
}

/// The state after a page arrived. An empty page ends the harvest; otherwise
/// its entries are cached and the cursor moves to the upload time of its last
/// entry, eligible or not.
pub open spec fn after_page(v: HarvestView, page: Seq<CatalogEntry>) -> HarvestView {
    if page.len() == 0 {
        HarvestView { phase: HarvestPhase::Done, ..v }
    } else {
        HarvestView {
            cursor: page.last().uploaded,
            phase: HarvestPhase::Fetching,
            maps: ingest(v.maps, page),
        }
    }
}

/// The state after a query failed transiently: the cursor stays.
pub open spec fn after_transient(v: HarvestView) -> HarvestView {
    HarvestView { phase: HarvestPhase::Retrying, ..v }
}

/// The state after an unreadable answer: the harvest ends with what it has,
/// rather than asking the same question forever.
pub open spec fn after_malformed(v: HarvestView) -> HarvestView {
    HarvestView { phase: HarvestPhase::Done, ..v }
}

pub open spec fn after_outcome(v: HarvestView, o: FetchOutcome) -> HarvestView {
    match o {
        FetchOutcome::Page(p) => after_page(v, p@),
        FetchOutcome::Transient => after_transient(v),
        FetchOutcome::Malformed => after_malformed(v),
    }
}

pub open spec fn step_after(o: FetchOutcome) -> HarvestStep {
    match o {
        FetchOutcome::Page(p) => if p@.len() == 0 {
            HarvestStep::Finished
        } else {
            HarvestStep::Pause { millis: PAUSE_MILLIS }
        },
        FetchOutcome::Transient => HarvestStep::Backoff { millis: BACKOFF_MILLIS },
        FetchOutcome::Malformed => HarvestStep::Finished,
    }
}

/// The state once a query has been sent: a retry becomes a fetch again.
pub open spec fn after_query(v: HarvestView) -> HarvestView {
    HarvestView { phase: HarvestPhase::Fetching, ..v }
}

pub open spec fn query_for(v: HarvestView) -> PageQuery {
    PageQuery { before: v.cursor, page_size: PAGE_SIZE, automapper: false }
}

/// A harvest in progress.
pub struct Harvest {
    cursor: i64,
    phase: HarvestPhase,
    maps: MapList,
}

impl View for Harvest {
    type V = HarvestView;

    closed spec fn view(&self) -> HarvestView {
        HarvestView { cursor: self.cursor, phase: self.phase, maps: self.maps@ }
    }
}

impl Harvest {
    pub closed spec fn wf(&self) -> bool {
        self.maps.wf()
    }

    /// A harvest that starts from `now`, with nothing collected.
    pub fn starting_at(now: i64) -> (r: Harvest)
        ensures
            r.wf(),
            r@ == (HarvestView {
                cursor: now,
                phase: HarvestPhase::Fetching,
                maps: Map::empty(),
            }),
    {
        Harvest { cursor: now, phase: HarvestPhase::Fetching, maps: MapList::new() }
    }

    /// The cursor: the next page holds entries uploaded strictly before it.
    pub fn cursor(&self) -> (r: i64)
        ensures
            r == self@.cursor,
    {
        self.cursor
    }

    pub fn phase(&self) -> (r: HarvestPhase)
        ensures
            r == self@.phase,
    {
        self.phase
    }

    pub fn is_done(&self) -> (r: bool)
        ensures
            r == (self@.phase == HarvestPhase::Done),
    {
        match self.phase {
            HarvestPhase::Done => true,
            _ => false,
        }
    }

    /// The records collected so far.
    pub fn maps(&self) -> (r: &MapList)
        requires
            self.wf(),
        ensures
            r.wf(),
            r@ == self@.maps,
    {
        &self.maps
    }

    /// Gives up the harvest and keeps its records.
    pub fn into_maps(self) -> (r: MapList)
        requires
            self.wf(),
        ensures
            r.wf(),
            r@ == self@.maps,
    {
        self.maps
    }

    /// The query to send next: the page before the cursor, auto-mapped
    /// entries left out. A pending retry sends the same query again.
    pub fn next_query(&mut self) -> (q: PageQuery)
        requires
            old(self)@.phase != HarvestPhase::Done,
        ensures
            final(self).wf() == old(self).wf(),
            final(self)@ == after_query(old(self)@),
            q == query_for(old(self)@),
    {
        self.phase = HarvestPhase::Fetching;
        PageQuery { before: self.cursor, page_size: PAGE_SIZE, automapper: false }
    }

    /// Caches the entries of `page`, in order.
    fn ingest_page(&mut self, page: &Vec<CatalogEntry>)
        requires
            old(self).wf(),
        ensures
            final(self).wf(),
            final(self).cursor == old(self).cursor,
            final(self).phase == old(self).phase,
            final(self).maps@ == ingest(old(self).maps@, page@),
    {
        let mut i: usize = 0;
        while i < page.len()
            invariant
                i <= page@.len(),
                self.wf(),
                self.cursor == old(self).cursor,
                self.phase == old(self).phase,
                self.maps@ == ingest(old(self).maps@, page@.take(i as int)),
            decreases page@.len() - i,
        {
            let entry = &page[i];
            assert(page@.take(i + 1).drop_last() =~= page@.take(i as int));
            assert(page@.take(i + 1).last() == page@[i as int]);
            match cache_map_data(entry) {
                Some(m) => {
                    self.maps.insert(entry.id.clone(), m);
                },
                None => {},
            }
            i = i + 1;
        }
        assert(page@.take(i as int) =~= page@);
    }

    /// Takes in what the last query brought back and says what to do next.
    pub fn record(&mut self, outcome: FetchOutcome) -> (step: HarvestStep)
        requires
            old(self).wf(),
            old(self)@.phase == HarvestPhase::Fetching,
        ensures
            final(self).wf(),
            final(self)@ == after_outcome(old(self)@, outcome),
            step == step_after(outcome),
    {
        match outcome {
            FetchOutcome::Page(page) => {
                if page.len() == 0 {
                    self.phase = HarvestPhase::Done;
                    HarvestStep::Finished
                } else {
                    self.ingest_page(&page);
                    self.cursor = page[page.len() - 1].uploaded;
                    HarvestStep::Pause { millis: PAUSE_MILLIS }
                }
            },
            FetchOutcome::Transient => {
                self.phase = HarvestPhase::Retrying;
                HarvestStep::Backoff { millis: BACKOFF_MILLIS }
            },
            FetchOutcome::Malformed => {
                self.phase = HarvestPhase::Done;
                HarvestStep::Finished
            },
        }
    }
}

/// Caching two pages in turn is caching their concatenation.
pub proof fn lemma_ingest_concat(
    m: Map<Seq<char>, MetadataView>,
    a: Seq<CatalogEntry>,
    b: Seq<CatalogEntry>,
)
    ensures
        ingest(ingest(m, a), b) == ingest(m, a + b),
    decreases b.len(),
{
    if b.len() == 0 {
        assert(a + b =~= a);
    } else {
        lemma_ingest_concat(m, a, b.drop_last());
        assert((a + b).drop_last() =~= a + b.drop_last());
        assert((a + b).last() == b.last());
    }
}

/// A map identifier is in the snapshot after a page exactly when it was
/// there before or some entry of the page with that identifier is eligible
/// and encodable.
pub proof fn lemma_ingest_keys(
    m: Map<Seq<char>, MetadataView>,
    page: Seq<CatalogEntry>,
    k: Seq<char>,
)
    ensures
        ingest(m, page).contains_key(k) <==> (m.contains_key(k) || exists|i: int|
            0 <= i < page.len() && (#[trigger] page[i]).id@ == k && cached_record(page[i]) is Some),
    decreases page.len(),
{
    if page.len() > 0 {
        let p = page.drop_last();
        lemma_ingest_keys(m, p, k);
        let n = page.len() - 1;
        assert(page[n] == page.last());
        if exists|i: int|
            0 <= i < p.len() && (#[trigger] p[i]).id@ == k && cached_record(p[i]) is Some {
            let i = choose|i: int|
                0 <= i < p.len() && (#[trigger] p[i]).id@ == k && cached_record(p[i]) is Some;
            assert(page[i] == p[i]);
        }
        if exists|i: int|
            0 <= i < page.len() && (#[trigger] page[i]).id@ == k && cached_record(page[i]) is Some {
            let i = choose|i: int|
                0 <= i < page.len() && (#[trigger] page[i]).id@ == k && cached_record(
                    page[i],
                ) is Some;
            if i < n {
                assert(page[i] == p[i]);
            }
        }
    }
}

/// Two non-empty pages followed by an empty one finish the harvest. The
/// snapshot then holds the eligible entries of both pages on top of what it
/// held, and the cursor is the upload time of the last entry of the second
/// page.
pub proof fn lemma_two_pages_then_empty(
    v: HarvestView,
    first: Seq<CatalogEntry>,
    second: Seq<CatalogEntry>,
)
    requires
        v.phase == HarvestPhase::Fetching,
        first.len() > 0,
        second.len() > 0,
    ensures
        ({
            let v1 = after_page(after_query(v), first);
            let v2 = after_page(after_query(v1), second);
            let v3 = after_page(after_query(v2), Seq::empty());
            &&& v1.phase == HarvestPhase::Fetching
            &&& v2.phase == HarvestPhase::Fetching
            &&& v3.phase == HarvestPhase::Done
            &&& v3.cursor == second.last().uploaded
            &&& v3.maps == ingest(v.maps, first + second)
            &&& forall|k: Seq<char>|
                #![trigger v3.maps.contains_key(k)]
                v3.maps.contains_key(k) <==> (v.maps.contains_key(k) || exists|i: int|
                    0 <= i < (first + second).len() && (#[trigger] (first + second)[i]).id@ == k
                        && cached_record((first + second)[i]) is Some)
        }),
{
    lemma_ingest_concat(v.maps, first, second);
    assert forall|k: Seq<char>| #![trigger ingest(v.maps, first + second).contains_key(k)]
        ingest(v.maps, first + second).contains_key(k) <==> (v.maps.contains_key(k) || exists|
            i: int,
        |
            0 <= i < (first + second).len() && (#[trigger] (first + second)[i]).id@ == k
                && cached_record((first + second)[i]) is Some) by {
        lemma_ingest_keys(v.maps, first + second, k);
    }
}

/// A transient failure followed by a retry that brings `page` leaves the
/// harvest where `page` alone would have left it; the failure costs one
/// backoff wait.
pub proof fn lemma_transient_failure_is_retried(v: HarvestView, page: Vec<CatalogEntry>)
    requires
        v.phase == HarvestPhase::Fetching,
    ensures
        after_outcome(after_query(after_outcome(v, FetchOutcome::Transient)), FetchOutcome::Page(page))
            == after_outcome(v, FetchOutcome::Page(page)),
        query_for(after_outcome(v, FetchOutcome::Transient)) == query_for(v),
        step_after(FetchOutcome::Transient) == (HarvestStep::Backoff { millis: BACKOFF_MILLIS }),
{
}

} // verus!
