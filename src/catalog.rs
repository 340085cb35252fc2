//! Writing a scan's records to the catalog, and rebuilding the catalog from
//! every registered source.
//!
//! The catalog store lives outside the library. Its caller performs each
//! step that a state machine here asks for (insert one record, clear the
//! catalog, scan one source) and reports the outcome back. A model of the
//! store as a table of rows states what the store promises (insert if no
//! row has the signature yet), and the laws at the end of this file are
//! proved over that model.

use vstd::prelude::*;

use crate::models::{NewWallpaper, Wallpaper, WallpaperSource};
use crate::scan::{first_seen, is_scan_plan, planned_record, ImageFile, MetadataView};

verus! {

/// What the store answered to one insert.
#[derive(Debug)]
pub enum WriteOutcome {
    /// The record was written; the row as stored.
    Inserted(Wallpaper),
    /// A row with the same signature was there already; that row.
    AlreadyExists(Wallpaper),
    /// Any other failure of the store, with its message.
    Failed(String),
}

pub ghost struct WriterView {
    /// The records to write, in order.
    pub candidates: Seq<NewWallpaper>,
    /// How many of them have been answered.
    pub next: nat,
    /// The rows met so far, written or already present.
    pub entries: Seq<Wallpaper>,
    /// The message of the failure that stopped the batch.
    pub failure: Option<Seq<char>>,
}

/// Writes a scan's records one at a time. A record whose signature is
/// cataloged already counts as written; any other failure stops the batch,
/// and what was written before it stays written.
pub struct CatalogWriter {
    candidates: Vec<NewWallpaper>,
    next: usize,
    entries: Vec<Wallpaper>,
    failure: Option<String>,
}

impl View for CatalogWriter {
    type V = WriterView;

    closed spec fn view(&self) -> WriterView {
        WriterView {
            candidates: self.candidates@,
            next: self.next as nat,
            entries: self.entries@,
            failure: match self.failure {
                Some(e) => Some(e@),
                None => None,
            },
        }
    }
}

impl CatalogWriter {
    pub open spec fn wf(&self) -> bool {
        self@.next <= self@.candidates.len()
    }

    /// Every record has been answered, or the batch has stopped.
    pub open spec fn is_done(&self) -> bool {
        self@.failure is Some || self@.next == self@.candidates.len()
    }

    pub fn new(candidates: Vec<NewWallpaper>) -> (r: Self)
        ensures
            r.wf(),
            r@ == (WriterView {
                candidates: candidates@,
                next: 0,
                entries: Seq::empty(),
                failure: None,
            }),
    {
        let r = CatalogWriter { candidates, next: 0, entries: Vec::new(), failure: None };
        assert(r@.entries =~= Seq::<Wallpaper>::empty());
        r
    }

    /// The record to write next, or `None` once the writer is done.
    pub fn next_candidate(&self) -> (r: Option<&NewWallpaper>)
        requires
            self.wf(),
        ensures
            match r {
                Some(c) => !self.is_done() && *c == self@.candidates[self@.next as int],
                None => self.is_done(),
            },
    {
        if self.failure.is_some() || self.next >= self.candidates.len() {
            None
        } else {
            Some(&self.candidates[self.next])
        }
    }

    /// Takes the store's answer to the record that `next_candidate` gave.
    pub fn record(&mut self, outcome: WriteOutcome)
        requires
            old(self).wf(),
            !old(self).is_done(),
        ensures
            final(self).wf(),
            match outcome {
                WriteOutcome::Inserted(w) => final(self)@ == (WriterView {
                    next: old(self)@.next + 1,
                    entries: old(self)@.entries.push(w),
                    ..old(self)@
                }),
                WriteOutcome::AlreadyExists(w) => final(self)@ == (WriterView {
                    next: old(self)@.next + 1,
                    entries: old(self)@.entries.push(w),
                    ..old(self)@
                }),
                WriteOutcome::Failed(e) => final(self)@ == (WriterView {
                    failure: Some(e@),
                    ..old(self)@
                }),
            },
    {
        let total = self.candidates.len();
        assert(self.next < total);
        match outcome {
            WriteOutcome::Inserted(w) => {
                self.entries.push(w);
                self.next = self.next + 1;
            },
            WriteOutcome::AlreadyExists(w) => {
                self.entries.push(w);
                self.next = self.next + 1;
            },
            WriteOutcome::Failed(e) => {
                self.failure = Some(e);
            },
        }
    }

    /// The rows met, in the order of the records, or the failure that
    /// stopped the batch.
    pub fn finish(self) -> (r: Result<Vec<Wallpaper>, String>)
        requires
            self.wf(),
            self.is_done(),
        ensures
            match self@.failure {
                Some(e) => r matches Err(m) && m@ == e,
                None => r matches Ok(v) && v@ == self@.entries,
            },
    {
        match self.failure {
            Some(e) => Err(e),
            None => Ok(self.entries),
        }
    }
}

pub ghost struct RebuildView {
    /// The registered sources, in order.
    pub sources: Seq<WallpaperSource>,
    /// Whether the catalog has been cleared.
    pub cleared: bool,
    /// How many sources have been scanned.
    pub next: nat,
    /// The rows that the scans met, concatenated.
    pub entries: Seq<Wallpaper>,
    /// The message of the failure that stopped the rebuild.
    pub failure: Option<Seq<char>>,
}

/// Rebuilds the catalog: clears it first, whatever it held (favorites
/// included), then scans every registered source in turn and concatenates
/// what the scans met. A failure stops the rebuild and leaves the catalog as
/// far as it got.
pub struct FullRebuild {
    sources: Vec<WallpaperSource>,
    cleared: bool,
    next: usize,
    entries: Vec<Wallpaper>,
    failure: Option<String>,
}

/// The next step that a rebuild asks of its caller.
pub enum RebuildStep<'a> {
    /// Delete every catalog row.
    ClearCatalog,
    /// Scan this source.
    Scan(&'a WallpaperSource),
    /// Nothing is left to do; call `finish`.
    Finished,
}

impl View for FullRebuild {
    type V = RebuildView;

    closed spec fn view(&self) -> RebuildView {
        RebuildView {
            sources: self.sources@,
            cleared: self.cleared,
            next: self.next as nat,
            entries: self.entries@,
            failure: match self.failure {
                Some(e) => Some(e@),
                None => None,
            },
        }
    }
}

impl FullRebuild {
    pub open spec fn wf(&self) -> bool {
        &&& self@.next <= self@.sources.len()
        &&& !self@.cleared ==> self@.next == 0
    }

    pub open spec fn is_done(&self) -> bool {
        self@.failure is Some || (self@.cleared && self@.next == self@.sources.len())
    }

    pub fn new(sources: Vec<WallpaperSource>) -> (r: Self)
        ensures
            r.wf(),
            r@ == (RebuildView {
                sources: sources@,
                cleared: false,
                next: 0,
                entries: Seq::empty(),
                failure: None,
            }),
    {
        let r = FullRebuild {
            sources,
            cleared: false,
            next: 0,
            entries: Vec::new(),
            failure: None,
        };
        assert(r@.entries =~= Seq::<Wallpaper>::empty());
        r
    }

    /// Clearing comes before any scan; then the sources in order.
    pub fn next_step(&self) -> (r: RebuildStep<'_>)
        requires
            self.wf(),
        ensures
            match r {
                RebuildStep::ClearCatalog => !self.is_done() && !self@.cleared,
                RebuildStep::Scan(s) => !self.is_done() && self@.cleared && *s
                    == self@.sources[self@.next as int],
                RebuildStep::Finished => self.is_done(),
            },
    {
        if self.failure.is_some() {
            RebuildStep::Finished
        } else if !self.cleared {
            RebuildStep::ClearCatalog
        } else if self.next < self.sources.len() {
            RebuildStep::Scan(&self.sources[self.next])
        } else {
            RebuildStep::Finished
        }
    }

    /// Takes the outcome of clearing the catalog.
    pub fn cleared(&mut self, outcome: Result<(), String>)
        requires
            old(self).wf(),
            !old(self).is_done(),
            !old(self)@.cleared,
        ensures
            final(self).wf(),
            match outcome {
                Ok(()) => final(self)@ == (RebuildView { cleared: true, ..old(self)@ }),
                Err(e) => final(self)@ == (RebuildView { failure: Some(e@), ..old(self)@ }),
            },
    {
        match outcome {
            Ok(()) => {
                self.cleared = true;
            },
            Err(e) => {
                self.failure = Some(e);
            },
        }
    }

    /// Takes the outcome of scanning the source that `next_step` gave.
    pub fn scanned(&mut self, outcome: Result<Vec<Wallpaper>, String>)
        requires
            old(self).wf(),
            !old(self).is_done(),
            old(self)@.cleared,
        ensures
            final(self).wf(),
            match outcome {
                Ok(v) => final(self)@ == (RebuildView {
                    next: old(self)@.next + 1,
                    entries: old(self)@.entries + v@,
                    ..old(self)@
                }),
                Err(e) => final(self)@ == (RebuildView { failure: Some(e@), ..old(self)@ }),
            },
    {
        let total = self.sources.len();
        assert(self.next < total);
        match outcome {
            Ok(v) => {
                let mut v = v;
                self.entries.append(&mut v);
                self.next = self.next + 1;
            },
            Err(e) => {
                self.failure = Some(e);
            },
        }
    }

    /// The concatenated rows, or the failure that stopped the rebuild.
    pub fn finish(self) -> (r: Result<Vec<Wallpaper>, String>)
        requires
            self.wf(),
            self.is_done(),
        ensures
            match self@.failure {
                Some(e) => r matches Err(m) && m@ == e,
                None => r matches Ok(v) && v@ == self@.entries,
            },
    {
        match self.failure {
            Some(e) => Err(e),
            None => Ok(self.entries),
        }
    }
}

/// A catalog row as the laws below see it.
pub ghost struct CatalogRow {
    pub id: Seq<char>,
    pub signature: Seq<char>,
    pub path: Seq<char>,
    pub source_id: Seq<char>,
}

pub open spec fn row_of(w: NewWallpaper) -> CatalogRow {
    CatalogRow {
        id: w.id@,
        signature: w.signature@,
        path: w.path@,
        source_id: w.wallpaper_source_id@,
    }
}

pub open spec fn rows_of(ws: Seq<NewWallpaper>) -> Seq<CatalogRow> {
    ws.map_values(|w: NewWallpaper| row_of(w))
}

pub open spec fn signatures(t: Seq<CatalogRow>) -> Seq<Seq<char>> {
    t.map_values(|r: CatalogRow| r.signature)
}

/// Some row of `t` has signature `s`: the store answers an insert of a
/// record with this signature as `AlreadyExists`.
pub open spec fn holds_signature(t: Seq<CatalogRow>, s: Seq<char>) -> bool {
    exists|i: int| 0 <= i < t.len() && (#[trigger] t[i]).signature == s
}

/// What the store promises of one insert.
pub open spec fn insert_if_absent(t: Seq<CatalogRow>, r: CatalogRow) -> Seq<CatalogRow> {
    if holds_signature(t, r.signature) {
        t
    } else {
        t.push(r)
    }
}

/// The table after inserting `rs` in order.
pub open spec fn insert_all(t: Seq<CatalogRow>, rs: Seq<CatalogRow>) -> Seq<CatalogRow>
    decreases rs.len(),
{
    if rs.len() == 0 {
        t
    } else {
        insert_if_absent(insert_all(t, rs.drop_last()), rs.last())
    }
}

/// The table after a full rebuild that scanned sources whose records are
/// `plans`: cleared, then each source's records inserted in turn.
pub open spec fn rebuild(plans: Seq<Seq<CatalogRow>>) -> Seq<CatalogRow>
    decreases plans.len(),
{
    if plans.len() == 0 {
        Seq::empty()
    } else {
        insert_all(rebuild(plans.drop_last()), plans.last())
    }
}

/// No two rows share a signature.
pub open spec fn signatures_unique(t: Seq<CatalogRow>) -> bool {
    forall|i: int, j: int|
        0 <= i < t.len() && 0 <= j < t.len() && i != j ==> (#[trigger] t[i]).signature
            != (#[trigger] t[j]).signature
}

/// Exactly one row of `t` has signature `s`.
pub open spec fn single_row_with(t: Seq<CatalogRow>, s: Seq<char>) -> bool {
    exists|i: int|
        0 <= i < t.len() && (#[trigger] t[i]).signature == s && forall|j: int|
            0 <= j < t.len() && (#[trigger] t[j]).signature == s ==> j == i
}

proof fn lemma_insert_all_keeps(t: Seq<CatalogRow>, rs: Seq<CatalogRow>)
    ensures
        forall|s: Seq<char>| holds_signature(t, s) ==> #[trigger] holds_signature(insert_all(t, rs), s),
        forall|k: int| 0 <= k < rs.len() ==> holds_signature(insert_all(t, rs), (#[trigger] rs[k]).signature),
        signatures_unique(t) ==> signatures_unique(insert_all(t, rs)),
    decreases rs.len(),
{
    if rs.len() > 0 {
        let prev = insert_all(t, rs.drop_last());
        lemma_insert_all_keeps(t, rs.drop_last());
        let cur = insert_all(t, rs);
        let r = rs.last();
        assert forall|s: Seq<char>| holds_signature(prev, s) implies #[trigger] holds_signature(cur, s) by {
            let i = choose|i: int| 0 <= i < prev.len() && (#[trigger] prev[i]).signature == s;
            assert(cur[i] == prev[i]);
        }
        assert forall|k: int| 0 <= k < rs.len() implies holds_signature(cur, (#[trigger] rs[k]).signature) by {
            if k < rs.len() - 1 {
                assert(rs.drop_last()[k] == rs[k]);
                assert(holds_signature(prev, rs[k].signature));
            } else if !holds_signature(prev, r.signature) {
                assert(cur[prev.len() as int] == r);
            }
        }
        assert forall|s: Seq<char>| holds_signature(t, s) implies #[trigger] holds_signature(cur, s) by {
            assert(holds_signature(prev, s));
        }
    }
}

proof fn lemma_insert_all_held(t: Seq<CatalogRow>, rs: Seq<CatalogRow>)
    requires
        forall|k: int| 0 <= k < rs.len() ==> holds_signature(t, (#[trigger] rs[k]).signature),
    ensures
        insert_all(t, rs) == t,
    decreases rs.len(),
{
    if rs.len() > 0 {
        assert forall|k: int| 0 <= k < rs.drop_last().len() implies holds_signature(
            t,
            (#[trigger] rs.drop_last()[k]).signature,
        ) by {
            assert(rs.drop_last()[k] == rs[k]);
        }
        lemma_insert_all_held(t, rs.drop_last());
        assert(holds_signature(t, rs[rs.len() - 1].signature));
    }
}

proof fn lemma_holds_by_signatures(t: Seq<CatalogRow>, s: Seq<char>)
    ensures
        holds_signature(t, s) == signatures(t).contains(s),
{
    if holds_signature(t, s) {
        let i = choose|i: int| 0 <= i < t.len() && (#[trigger] t[i]).signature == s;
        assert(signatures(t)[i] == s);
    }
    if signatures(t).contains(s) {
        let i = choose|i: int| 0 <= i < signatures(t).len() && signatures(t)[i] == s;
        assert(t[i].signature == s);
    }
}

proof fn lemma_insert_all_by_signatures(
    t1: Seq<CatalogRow>,
    rs1: Seq<CatalogRow>,
    t2: Seq<CatalogRow>,
    rs2: Seq<CatalogRow>,
)
    requires
        signatures(t1) == signatures(t2),
        signatures(rs1) == signatures(rs2),
    ensures
        signatures(insert_all(t1, rs1)) == signatures(insert_all(t2, rs2)),
    decreases rs1.len(),
{
    assert(rs1.len() == signatures(rs1).len());
    assert(rs2.len() == signatures(rs2).len());
    if rs1.len() > 0 {
        assert(signatures(rs1.drop_last()) =~= signatures(rs1).drop_last());
        assert(signatures(rs2.drop_last()) =~= signatures(rs2).drop_last());
        lemma_insert_all_by_signatures(t1, rs1.drop_last(), t2, rs2.drop_last());
        let pa = insert_all(t1, rs1.drop_last());
        let pb = insert_all(t2, rs2.drop_last());
        let s = rs1.last().signature;
        assert(signatures(rs1)[rs1.len() - 1] == s);
        assert(signatures(rs2)[rs2.len() - 1] == rs2.last().signature);
        lemma_holds_by_signatures(pa, s);
        lemma_holds_by_signatures(pb, s);
        assert(signatures(pa.push(rs1.last())) =~= signatures(pa).push(s));
        assert(signatures(pb.push(rs2.last())) =~= signatures(pb).push(s));
    }
}

proof fn lemma_plans_share_signatures(
    ws1: Seq<NewWallpaper>,
    ws2: Seq<NewWallpaper>,
    source_id: Seq<char>,
    dir: Seq<char>,
    meta: Seq<MetadataView>,
    images: Seq<ImageFile>,
)
    requires
        is_scan_plan(ws1, source_id, dir, meta, images),
        is_scan_plan(ws2, source_id, dir, meta, images),
    ensures
        signatures(rows_of(ws1)) == signatures(rows_of(ws2)),
{
    let u = first_seen(images);
    assert forall|k: int| 0 <= k < ws1.len() implies signatures(rows_of(ws1))[k] == signatures(
        rows_of(ws2),
    )[k] by {
        assert(planned_record(ws1[k], source_id, dir, meta, u[k]));
        assert(planned_record(ws2[k], source_id, dir, meta, u[k]));
    }
    assert(signatures(rows_of(ws1)) =~= signatures(rows_of(ws2)));
}

/// Scanning an unchanged directory again adds no row: if `first` and
/// `second` are the records of two scans of the same files (they differ in
/// their generated ids only), then after the first scan's records are in
/// the table, every record of the second is answered as already cataloged,
/// and the table stays as it is.
pub proof fn lemma_rescan_adds_no_rows(
    t: Seq<CatalogRow>,
    first: Seq<NewWallpaper>,
    second: Seq<NewWallpaper>,
    source_id: Seq<char>,
    dir: Seq<char>,
    meta: Seq<MetadataView>,
    images: Seq<ImageFile>,
)
    requires
        is_scan_plan(first, source_id, dir, meta, images),
        is_scan_plan(second, source_id, dir, meta, images),
    ensures
        forall|k: int|
            0 <= k < second.len() ==> holds_signature(
                insert_all(t, rows_of(first)),
                (#[trigger] second[k]).signature@,
            ),
        insert_all(insert_all(t, rows_of(first)), rows_of(second)) == insert_all(t, rows_of(first)),
{
    let t1 = insert_all(t, rows_of(first));
    lemma_insert_all_keeps(t, rows_of(first));
    lemma_plans_share_signatures(first, second, source_id, dir, meta, images);
    assert forall|k: int| 0 <= k < second.len() implies holds_signature(
        t1,
        (#[trigger] second[k]).signature@,
    ) by {
        assert(signatures(rows_of(first))[k] == signatures(rows_of(second))[k]);
        assert(rows_of(first)[k].signature == second[k].signature@);
    }
    assert forall|k: int| 0 <= k < rows_of(second).len() implies holds_signature(
        t1,
        (#[trigger] rows_of(second)[k]).signature,
    ) by {
        assert(holds_signature(t1, second[k].signature@));
    }
    lemma_insert_all_held(t1, rows_of(second));
}

/// Identical content is cataloged once: when a table with unique
/// signatures takes the records of one source and then those of another,
/// and both hold a record with signature `s`, exactly one row has `s`
/// afterwards, and the signatures stay unique.
pub proof fn lemma_identical_content_cataloged_once(
    t: Seq<CatalogRow>,
    first: Seq<CatalogRow>,
    second: Seq<CatalogRow>,
    s: Seq<char>,
    i: int,
    j: int,
)
    requires
        signatures_unique(t),
        0 <= i < first.len() && first[i].signature == s,
        0 <= j < second.len() && second[j].signature == s,
    ensures
        signatures_unique(insert_all(insert_all(t, first), second)),
        single_row_with(insert_all(insert_all(t, first), second), s),
{
    let t1 = insert_all(t, first);
    let t2 = insert_all(t1, second);
    lemma_insert_all_keeps(t, first);
    lemma_insert_all_keeps(t1, second);
    assert(holds_signature(t1, first[i].signature));
    assert(holds_signature(t2, s));
    let k = choose|k: int| 0 <= k < t2.len() && (#[trigger] t2[k]).signature == s;
    assert forall|m: int| 0 <= m < t2.len() && (#[trigger] t2[m]).signature == s implies m == k by {
        if m != k {
            assert(t2[m].signature != t2[k].signature);
        }
    }
}

/// Rebuilding twice from unchanged sources gives the same catalog up to the
/// generated ids: the same signatures in the same order, so the same number
/// of rows and the same set of signatures. `first[i]` and `second[i]` are
/// the records of the two scans of source `i`; the catalog as it was before
/// either rebuild plays no part, since a rebuild clears it.
pub proof fn lemma_rebuild_consistent(
    first: Seq<Seq<NewWallpaper>>,
    second: Seq<Seq<NewWallpaper>>,
    source_ids: Seq<Seq<char>>,
    dir: Seq<char>,
    meta: Seq<Seq<MetadataView>>,
    images: Seq<Seq<ImageFile>>,
)
    requires
        first.len() == second.len(),
        first.len() == source_ids.len(),
        first.len() == meta.len(),
        first.len() == images.len(),
        forall|i: int|
            0 <= i < first.len() ==> is_scan_plan(
                #[trigger] first[i],
                source_ids[i],
                dir,
                meta[i],
                images[i],
            ),
        forall|i: int|
            0 <= i < second.len() ==> is_scan_plan(
                #[trigger] second[i],
                source_ids[i],
                dir,
                meta[i],
                images[i],
            ),
    ensures
        signatures(rebuild(first.map_values(|ws: Seq<NewWallpaper>| rows_of(ws)))) == signatures(
            rebuild(second.map_values(|ws: Seq<NewWallpaper>| rows_of(ws))),
        ),
        rebuild(first.map_values(|ws: Seq<NewWallpaper>| rows_of(ws))).len() == rebuild(
            second.map_values(|ws: Seq<NewWallpaper>| rows_of(ws)),
        ).len(),
    decreases first.len(),
{
    let pa = first.map_values(|ws: Seq<NewWallpaper>| rows_of(ws));
    let pb = second.map_values(|ws: Seq<NewWallpaper>| rows_of(ws));
    if first.len() > 0 {
        let n = first.len() - 1;
        assert forall|i: int| 0 <= i < first.drop_last().len() implies is_scan_plan(
            #[trigger] first.drop_last()[i],
            source_ids.drop_last()[i],
            dir,
            meta.drop_last()[i],
            images.drop_last()[i],
        ) by {
            assert(is_scan_plan(first[i], source_ids[i], dir, meta[i], images[i]));
        }
        assert forall|i: int| 0 <= i < second.drop_last().len() implies is_scan_plan(
            #[trigger] second.drop_last()[i],
            source_ids.drop_last()[i],
            dir,
            meta.drop_last()[i],
            images.drop_last()[i],
        ) by {
            assert(is_scan_plan(second[i], source_ids[i], dir, meta[i], images[i]));
        }
        lemma_rebuild_consistent(
            first.drop_last(),
            second.drop_last(),
            source_ids.drop_last(),
            dir,
            meta.drop_last(),
            images.drop_last(),
        );
        assert(pa.drop_last() =~= first.drop_last().map_values(
            |ws: Seq<NewWallpaper>| rows_of(ws),
        ));
        assert(pb.drop_last() =~= second.drop_last().map_values(
            |ws: Seq<NewWallpaper>| rows_of(ws),
        ));
        assert(is_scan_plan(first[n], source_ids[n], dir, meta[n], images[n]));
        assert(is_scan_plan(second[n], source_ids[n], dir, meta[n], images[n]));
        lemma_plans_share_signatures(first[n], second[n], source_ids[n], dir, meta[n], images[n]);
        lemma_insert_all_by_signatures(
            rebuild(pa.drop_last()),
            pa.last(),
            rebuild(pb.drop_last()),
            pb.last(),
        );
    }
    assert(rebuild(pa).len() == signatures(rebuild(pa)).len());
    assert(rebuild(pb).len() == signatures(rebuild(pb)).len());
}

} // verus!
