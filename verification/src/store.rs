//! The in-memory entry store the actor owns exclusively: the library's
//! own model of the storage engine's CRUD surface, with exact semantics
//! for every operation, plus a closed flag that makes "no operation after
//! close" and "close exactly once" checkable obligations on every caller.

use vstd::prelude::*;

use crate::request::{Entry, EntryView, OutcomeView, Page, PageView, SortOrder};
use crate::text::{contains_seq, contains_substr};

verus! {

/// Store failure for an id that no entry carries.
pub open spec fn not_found_text() -> Seq<char> {
    "entry not found"@
}

/// Store failure once every positive id has been handed out.
pub open spec fn ids_exhausted_text() -> Seq<char> {
    "identifier space exhausted"@
}

/// Mathematical image of a [`MemStore`].
pub ghost struct StoreView {
    pub entries: Seq<EntryView>,
    pub next_id: int,
    pub closed: bool,
}

impl StoreView {
    /// Entries are strictly ordered by id, and every id is positive and
    /// below the next id to be handed out.
    pub open spec fn wf(&self) -> bool {
        &&& 1 <= self.next_id <= i64::MAX
        &&& forall|i: int, j: int|
            0 <= i < j < self.entries.len() ==> self.entries[i].id < self.entries[j].id
        &&& forall|i: int|
            0 <= i < self.entries.len() ==> 1 <= (#[trigger] self.entries[i]).id < self.next_id
    }
}

/// Index of the first entry carrying `id`, or -1 if none does.
pub open spec fn index_of(entries: Seq<EntryView>, id: int) -> int
    decreases entries.len(),
{
    if entries.len() == 0 {
        -1
    } else if entries[0].id == id {
        0
    } else {
        let rest = index_of(entries.drop_first(), id);
        if rest == -1 {
            -1
        } else {
            rest + 1
        }
    }
}

/// What `index_of` yields: a valid index of the first entry with the id,
/// or -1 exactly when no entry carries it.
pub proof fn lemma_index_of(entries: Seq<EntryView>, id: int)
    ensures
        -1 <= index_of(entries, id) < entries.len(),
        index_of(entries, id) >= 0 ==> entries[index_of(entries, id)].id == id,
        index_of(entries, id) == -1 ==> (forall|k: int|
            0 <= k < entries.len() ==> (#[trigger] entries[k]).id != id),
        forall|k: int| 0 <= k < index_of(entries, id) ==> (#[trigger] entries[k]).id != id,
    decreases entries.len(),
{
    if entries.len() == 0 {
    } else if entries[0].id == id {
    } else {
        lemma_index_of(entries.drop_first(), id);
        assert forall|k: int| 0 <= k < entries.len() && entries[k].id == id implies index_of(
            entries,
            id,
        ) != -1 by {
            if index_of(entries.drop_first(), id) == -1 {
                assert(entries.drop_first()[k - 1] == entries[k]);
            }
        }
        assert forall|k: int| 0 <= k < index_of(entries, id) implies (#[trigger] entries[k]).id
            != id by {
            if k >= 1 {
                assert(entries.drop_first()[k - 1] == entries[k]);
            }
        }
    }
}

/// A position whose every predecessor misses the id, and which hits it
/// itself, is exactly `index_of`.
pub proof fn lemma_index_of_found(entries: Seq<EntryView>, id: int, j: int)
    requires
        0 <= j < entries.len(),
        entries[j].id == id,
        forall|k: int| 0 <= k < j ==> (#[trigger] entries[k]).id != id,
    ensures
        index_of(entries, id) == j,
    decreases entries.len(),
{
    if j == 0 {
    } else {
        assert(entries.drop_first()[j - 1] == entries[j]);
        assert forall|k: int| 0 <= k < j - 1 implies (#[trigger] entries.drop_first()[k]).id != id by {
            assert(entries.drop_first()[k] == entries[k + 1]);
        }
        lemma_index_of_found(entries.drop_first(), id, j - 1);
    }
}

/// Outcome view of a typed entry result.
pub open spec fn entry_result_view(r: Result<Entry, String>) -> OutcomeView {
    match r {
        Ok(e) => OutcomeView::Entry(e@),
        Err(m) => OutcomeView::Failure(m@),
    }
}

/// Outcome view of a typed unit result.
pub open spec fn unit_result_view(r: Result<(), String>) -> OutcomeView {
    match r {
        Ok(_) => OutcomeView::Done,
        Err(m) => OutcomeView::Failure(m@),
    }
}

/// Outcome view of a typed page result.
pub open spec fn page_result_view(r: Result<Page, String>) -> OutcomeView {
    match r {
        Ok(p) => OutcomeView::Page(p@),
        Err(m) => OutcomeView::Failure(m@),
    }
}

/// Creation: the fresh entry takes the next id; once the id space is
/// spent, the store reports a failure and keeps its state.
pub open spec fn spec_create(s: StoreView, content: Seq<char>, pinned: bool) -> (StoreView,
    OutcomeView) {
    if s.next_id == i64::MAX {
        (s, OutcomeView::Failure(ids_exhausted_text()))
    } else {
        let e = EntryView { id: s.next_id, content, pinned };
        (
            StoreView { entries: s.entries.push(e), next_id: s.next_id + 1, closed: s.closed },
            OutcomeView::Entry(e),
        )
    }
}

/// A present field replaces the entry's value; an absent one leaves it.
pub open spec fn patched_entry(e: EntryView, content: Option<Seq<char>>, pinned: Option<bool>)
    -> EntryView {
    EntryView {
        id: e.id,
        content: match content {
            Some(c) => c,
            None => e.content,
        },
        pinned: match pinned {
            Some(p) => p,
            None => e.pinned,
        },
    }
}

/// Updating: the entry carrying the id is patched in place and returned;
/// an unknown id is the not-found failure and leaves the store untouched.
pub open spec fn spec_update(
    s: StoreView,
    id: int,
    content: Option<Seq<char>>,
    pinned: Option<bool>,
) -> (StoreView, OutcomeView) {
    let i = index_of(s.entries, id);
    if i == -1 {
        (s, OutcomeView::Failure(not_found_text()))
    } else {
        let p = patched_entry(s.entries[i], content, pinned);
        (
            StoreView { entries: s.entries.update(i, p), next_id: s.next_id, closed: s.closed },
            OutcomeView::Entry(p),
        )
    }
}

/// Deletion: the entry carrying the id leaves the store; an unknown id
/// is the not-found failure and leaves the store untouched.
pub open spec fn spec_delete(s: StoreView, id: int) -> (StoreView, OutcomeView) {
    let i = index_of(s.entries, id);
    if i == -1 {
        (s, OutcomeView::Failure(not_found_text()))
    } else {
        (
            StoreView { entries: s.entries.remove(i), next_id: s.next_id, closed: s.closed },
            OutcomeView::Done,
        )
    }
}

/// Entries shown per page when the caller names no count.
pub const DEFAULT_PER_PAGE: i64 = 10;

/// An entry passes the page filters: the pinned filter, if present,
/// matches its flag, and the substring filter, if present, occurs in its
/// content.
pub open spec fn entry_matches(e: EntryView, pinned: Option<bool>, needle: Option<Seq<char>>)
    -> bool {
    &&& (pinned matches Some(p) ==> e.pinned == p)
    &&& (needle matches Some(n) ==> contains_seq(e.content, n))
}

/// The entries passing the page filters, in store order.
pub open spec fn filtered(
    entries: Seq<EntryView>,
    pinned: Option<bool>,
    needle: Option<Seq<char>>,
) -> Seq<EntryView>
    decreases entries.len(),
{
    if entries.len() == 0 {
        Seq::empty()
    } else if entry_matches(entries[0], pinned, needle) {
        seq![entries[0]] + filtered(entries.drop_first(), pinned, needle)
    } else {
        filtered(entries.drop_first(), pinned, needle)
    }
}

/// The 1-based page number in effect: a given page below 1, or none,
/// means the first page.
pub open spec fn effective_page(page: Option<i64>) -> int {
    match page {
        Some(p) => if p >= 1 {
            p as int
        } else {
            1
        },
        None => 1,
    }
}

/// The page size in effect: a given size below 1, or none, means the
/// default.
pub open spec fn effective_per_page(per_page: Option<i64>) -> int {
    match per_page {
        Some(q) => if q >= 1 {
            q as int
        } else {
            DEFAULT_PER_PAGE as int
        },
        None => DEFAULT_PER_PAGE as int,
    }
}

/// Descending order was asked for.
pub open spec fn is_desc(sort: Option<SortOrder>) -> bool {
    sort matches Some(SortOrder::Desc)
}

/// The window of `f` that page `page` shows at `per` entries per page;
/// empty once the window starts past the end.
pub open spec fn page_window(f: Seq<EntryView>, page: int, per: int) -> Seq<EntryView> {
    let start = (page - 1) * per;
    if start >= f.len() {
        Seq::empty()
    } else if start + per <= f.len() {
        f.subrange(start, start + per)
    } else {
        f.subrange(start, f.len() as int)
    }
}

/// Paging: filter by the pinned flag and by content substring, order by
/// id (the store order), ascending unless descending was asked for, and
/// cut out the requested window; the total counts every filtered entry.
pub open spec fn spec_read_page(
    s: StoreView,
    page: Option<i64>,
    per_page: Option<i64>,
    sort: Option<SortOrder>,
    pinned: Option<bool>,
    needle: Option<Seq<char>>,
) -> OutcomeView {
    let f = filtered(s.entries, pinned, needle);
    let ordered = if is_desc(sort) {
        f.reverse()
    } else {
        f
    };
    OutcomeView::Page(
        PageView {
            entries: page_window(ordered, effective_page(page), effective_per_page(per_page)),
            total: f.len() as int,
        },
    )
}

/// Reading: the entry carrying the id, or the not-found failure.
pub open spec fn spec_read(s: StoreView, id: int) -> OutcomeView {
    let i = index_of(s.entries, id);
    if i == -1 {
        OutcomeView::Failure(not_found_text())
    } else {
        OutcomeView::Entry(s.entries[i])
    }
}

/// The store closed, everything else untouched.
pub open spec fn spec_close(s: StoreView) -> StoreView {
    StoreView { entries: s.entries, next_id: s.next_id, closed: true }
}

/// The store the actor owns: an ordered collection of entries, the next
/// id to hand out, and whether `close` has been called.
pub struct MemStore {
    entries: Vec<Entry>,
    next_id: i64,
    closed: bool,
}

impl View for MemStore {
    type V = StoreView;

    closed spec fn view(&self) -> StoreView {
        StoreView {
            entries: self.entries.deep_view(),
            next_id: self.next_id as int,
            closed: self.closed,
        }
    }
}

impl MemStore {
    pub open spec fn wf(&self) -> bool {
        self@.wf()
    }

    /// An open, empty store; ids start at 1.
    pub fn new() -> (s: Self)
        ensures
            s.wf(),
            s@.entries =~= Seq::<EntryView>::empty(),
            s@.next_id == 1,
            !s@.closed,
    {
        MemStore { entries: Vec::new(), next_id: 1, closed: false }
    }

    pub fn is_closed(&self) -> (r: bool)
        ensures
            r == self@.closed,
    {
        self.closed
    }

    pub fn entry_count(&self) -> (r: usize)
        ensures
            r == self@.entries.len(),
    {
        self.entries.len()
    }

    /// Stores a fresh entry under the next id and returns it.
    pub fn create_entry(&mut self, content: String, pinned: bool) -> (r: Result<Entry, String>)
        requires
            old(self).wf(),
            !old(self)@.closed,
        ensures
            final(self).wf(),
            (final(self)@, entry_result_view(r)) == spec_create(old(self)@, content@, pinned),
    {
        if self.next_id == i64::MAX {
            return Err(String::from_str("identifier space exhausted"));
        }
        let e = Entry { id: self.next_id, content, pinned };
        let stored = e.duplicate();
        self.entries.push(stored);
        self.next_id = self.next_id + 1;
        proof {
            assert(self.entries.deep_view() =~= old(self).entries.deep_view().push(e@));
            assert(self@.entries == spec_create(old(self)@, e@.content, e@.pinned).0.entries);
        }
        Ok(e)
    }

    /// Returns a copy of the entry carrying `id`, or the not-found
    /// failure.
    pub fn read_entry(&self, id: i64) -> (r: Result<Entry, String>)
        requires
            self.wf(),
            !self@.closed,
        ensures
            entry_result_view(r) == spec_read(self@, id as int),
    {
        proof {
            lemma_index_of(self@.entries, id as int);
        }
        let n: usize = self.entries.len();
        let mut j: usize = 0;
        while j < n
            invariant
                n == self.entries.len(),
                j <= n,
                forall|k: int| 0 <= k < j ==> (#[trigger] self@.entries[k]).id != id as int,
            decreases n - j,
        {
            if self.entries[j].id == id {
                proof {
                    lemma_index_of_found(self@.entries, id as int, j as int);
                }
                return Ok(self.entries[j].duplicate());
            }
            j += 1;
        }
        Err(String::from_str("entry not found"))
    }

    /// Patches the entry carrying `id` and returns a copy of it.
    pub fn update_entry(
        &mut self,
        id: i64,
        content: Option<String>,
        pinned: Option<bool>,
    ) -> (r: Result<Entry, String>)
        requires
            old(self).wf(),
            !old(self)@.closed,
        ensures
            final(self).wf(),
            (final(self)@, entry_result_view(r)) == spec_update(
                old(self)@,
                id as int,
                content.deep_view(),
                pinned,
            ),
    {
        proof {
            lemma_index_of(self@.entries, id as int);
        }
        let n: usize = self.entries.len();
        let mut j: usize = 0;
        while j < n
            invariant
                n == self.entries.len(),
                j <= n,
                self == old(self),
                old(self).wf(),
                !old(self)@.closed,
                forall|k: int| 0 <= k < j ==> (#[trigger] self@.entries[k]).id != id as int,
            decreases n - j,
        {
            if self.entries[j].id == id {
                proof {
                    lemma_index_of_found(self@.entries, id as int, j as int);
                }
                let new_content = match content {
                    Some(c) => c,
                    None => self.entries[j].content.clone(),
                };
                let new_pinned = match pinned {
                    Some(p) => p,
                    None => self.entries[j].pinned,
                };
                let patched = Entry { id: self.entries[j].id, content: new_content, pinned: new_pinned };
                let out = patched.duplicate();
                proof {
                    assert(patched@ == patched_entry(
                        old(self)@.entries[j as int],
                        content.deep_view(),
                        pinned,
                    ));
                }
                self.entries.set(j, patched);
                proof {
                    assert(self.entries.deep_view() =~= old(self).entries.deep_view().update(
                        j as int,
                        out@,
                    ));
                }
                return Ok(out);
            }
            j += 1;
        }
        Err(String::from_str("entry not found"))
    }

    /// Removes the entry carrying `id`.
    pub fn delete_entry(&mut self, id: i64) -> (r: Result<(), String>)
        requires
            old(self).wf(),
            !old(self)@.closed,
        ensures
            final(self).wf(),
            (final(self)@, unit_result_view(r)) == spec_delete(old(self)@, id as int),
    {
        proof {
            lemma_index_of(self@.entries, id as int);
        }
        let n: usize = self.entries.len();
        let mut j: usize = 0;
        while j < n
            invariant
                n == self.entries.len(),
                j <= n,
                self == old(self),
                old(self).wf(),
                !old(self)@.closed,
                forall|k: int| 0 <= k < j ==> (#[trigger] self@.entries[k]).id != id as int,
            decreases n - j,
        {
            if self.entries[j].id == id {
                proof {
                    lemma_index_of_found(self@.entries, id as int, j as int);
                }
                self.entries.remove(j);
                proof {
                    old(self).entries.deep_view().remove_ensures(j as int);
                    assert(self.entries.deep_view() =~= old(self).entries.deep_view().remove(
                        j as int,
                    ));
                    assert forall|a: int, b: int|
                        0 <= a < b < self@.entries.len() implies self@.entries[a].id
                        < self@.entries[b].id by {
                        assert(old(self)@.wf());
                    }
                }
                return Ok(());
            }
            j += 1;
        }
        Err(String::from_str("entry not found"))
    }

    /// Returns the requested page of filtered, ordered entries, and how
    /// many entries matched in all.
    pub fn read_page(
        &self,
        page: Option<i64>,
        per_page: Option<i64>,
        sort: Option<SortOrder>,
        pinned: Option<bool>,
        substring: Option<String>,
    ) -> (r: Result<Page, String>)
        requires
            self.wf(),
            !self@.closed,
        ensures
            r is Ok,
            page_result_view(r) == spec_read_page(
                self@,
                page,
                per_page,
                sort,
                pinned,
                substring.deep_view(),
            ),
    {
        let ghost dv = self@.entries;
        let ghost needle = substring.deep_view();
        let n: usize = self.entries.len();

        let mut fvec: Vec<Entry> = Vec::new();
        let mut i: usize = 0;
        proof {
            assert(dv.skip(0) =~= dv);
            assert(fvec.deep_view() + filtered(dv, pinned, needle) =~= filtered(
                dv,
                pinned,
                needle,
            ));
        }
        while i < n
            invariant
                n == self.entries.len(),
                dv == self@.entries,
                needle == substring.deep_view(),
                i <= n,
                filtered(dv, pinned, needle) == fvec.deep_view() + filtered(
                    dv.skip(i as int),
                    pinned,
                    needle,
                ),
            decreases n - i,
        {
            let pin_ok: bool = match pinned {
                Some(p) => self.entries[i].pinned == p,
                None => true,
            };
            let sub_ok: bool = match &substring {
                Some(nd) => contains_substr(self.entries[i].content.as_str(), nd.as_str()),
                None => true,
            };
            let matched: bool = pin_ok && sub_ok;
            proof {
                assert(matched == entry_matches(dv[i as int], pinned, needle));
                assert(dv.skip(i as int)[0] == dv[i as int]);
                assert(dv.skip(i as int).drop_first() =~= dv.skip(i as int + 1));
            }
            if matched {
                let ghost pre = fvec.deep_view();
                fvec.push(self.entries[i].duplicate());
                proof {
                    assert(fvec.deep_view() =~= pre.push(dv[i as int]));
                    assert(pre + (seq![dv[i as int]] + filtered(
                        dv.skip(i as int + 1),
                        pinned,
                        needle,
                    )) =~= fvec.deep_view() + filtered(dv.skip(i as int + 1), pinned, needle));
                }
            }
            i += 1;
        }
        proof {
            assert(dv.skip(n as int) =~= Seq::<EntryView>::empty());
            assert(fvec.deep_view() + Seq::<EntryView>::empty() =~= fvec.deep_view());
            assert(fvec.deep_view() == filtered(dv, pinned, needle));
        }
        let ghost fdv = fvec.deep_view();
        let total: usize = fvec.len();

        let desc: bool = match sort {
            Some(SortOrder::Desc) => true,
            _ => false,
        };
        let ordered: Vec<Entry>;
        if desc {
            let mut rvec: Vec<Entry> = Vec::new();
            let mut k: usize = 0;
            while k < total
                invariant
                    total == fvec.len(),
                    fdv == fvec.deep_view(),
                    k <= total,
                    rvec.deep_view().len() == k as int,
                    forall|t: int|
                        0 <= t < k ==> #[trigger] rvec.deep_view()[t] == fdv[total - 1 - t],
                decreases total - k,
            {
                let ghost pre = rvec.deep_view();
                rvec.push(fvec[total - 1 - k].duplicate());
                proof {
                    assert(rvec.deep_view() =~= pre.push(fdv[total - 1 - k as int]));
                }
                k += 1;
            }
            proof {
                assert(rvec.deep_view() =~= fdv.reverse());
            }
            ordered = rvec;
        } else {
            ordered = fvec;
        }
        let ghost odv = if is_desc(sort) {
            fdv.reverse()
        } else {
            fdv
        };
        proof {
            assert(ordered.deep_view() == odv);
            assert(odv.len() == total as int);
        }

        let ep: i64 = match page {
            Some(p) => if p >= 1 {
                p
            } else {
                1
            },
            None => 1,
        };
        let eper: i64 = match per_page {
            Some(q) => if q >= 1 {
                q
            } else {
                DEFAULT_PER_PAGE
            },
            None => DEFAULT_PER_PAGE,
        };
        proof {
            assert(ep as int == effective_page(page));
            assert(eper as int == effective_per_page(per_page));
        }
        let pm1: u128 = (ep - 1) as u128;
        let pu: u128 = eper as u128;
        proof {
            assert(pm1 * pu <= 0x8000000000000000u128 * 0x8000000000000000u128) by (nonlinear_arith)
                requires
                    pm1 <= 0x8000000000000000u128,
                    pu <= 0x8000000000000000u128,
            ;
        }
        let start_u: u128 = pm1 * pu;
        let olen: usize = ordered.len();
        let start: usize;
        let end: usize;
        if start_u >= olen as u128 {
            start = olen;
            end = olen;
        } else {
            start = start_u as usize;
            if pu >= (olen - start) as u128 {
                end = olen;
            } else {
                end = start + (pu as usize);
            }
        }
        proof {
            assert(start as int <= end as int <= odv.len());
            assert(page_window(odv, ep as int, eper as int) =~= odv.subrange(
                start as int,
                end as int,
            ));
        }

        let mut pvec: Vec<Entry> = Vec::new();
        let mut w: usize = start;
        while w < end
            invariant
                start <= w <= end,
                end <= ordered.len(),
                odv == ordered.deep_view(),
                pvec.deep_view().len() == w - start,
                forall|t: int|
                    0 <= t < pvec.deep_view().len() ==> #[trigger] pvec.deep_view()[t] == odv[start
                        + t],
            decreases end - w,
        {
            let ghost pre = pvec.deep_view();
            pvec.push(ordered[w].duplicate());
            proof {
                assert(pvec.deep_view() =~= pre.push(odv[w as int]));
            }
            w += 1;
        }
        proof {
            assert(pvec.deep_view() =~= odv.subrange(start as int, end as int));
        }
        Ok(Page { entries: pvec, total })
    }

    /// No further operation is allowed; the state this call sees is the
    /// state that persists.
    pub fn close(&mut self)
        requires
            old(self).wf(),
            !old(self)@.closed,
        ensures
            final(self).wf(),
            final(self)@ == spec_close(old(self)@),
    {
        self.closed = true;
    }

    /// Writes nothing the model tracks; succeeds on an open store.
    pub fn dump_entries(&self) -> (r: Result<(), String>)
        requires
            self.wf(),
            !self@.closed,
        ensures
            r is Ok,
            unit_result_view(r) == OutcomeView::Done,
    {
        Ok(())
    }
}

} // verus!
