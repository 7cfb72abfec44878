//! The request envelope protocol: the entry record the store serves, the
//! closed set of request variants, and the uniform operation outcome that
//! travels back on a reply channel.

use vstd::prelude::*;

verus! {

/// Order in which a page of entries is returned.
#[derive(Clone, Copy, Debug, PartialEq, Eq, Structural)]
pub enum SortOrder {
    Asc,
    Desc,
}

/// One diary entry, moved by value through channels.
#[derive(Debug)]
pub struct Entry {
    pub id: i64,
    pub content: String,
    pub pinned: bool,
}

/// Mathematical image of an [`Entry`].
pub ghost struct EntryView {
    pub id: int,
    pub content: Seq<char>,
    pub pinned: bool,
}

impl View for Entry {
    type V = EntryView;

    open spec fn view(&self) -> EntryView {
        EntryView { id: self.id as int, content: self.content@, pinned: self.pinned }
    }
}

impl DeepView for Entry {
    type V = EntryView;

    open spec fn deep_view(&self) -> EntryView {
        self.view()
    }
}

impl Entry {
    /// A fresh copy with the same id, content, and pinned flag.
    pub fn duplicate(&self) -> (r: Entry)
        ensures
            r@ == self@,
    {
        Entry { id: self.id, content: self.content.clone(), pinned: self.pinned }
    }
}

/// One page of entries, together with how many entries matched the
/// filters before the page window was cut out.
#[derive(Debug)]
pub struct Page {
    pub entries: Vec<Entry>,
    pub total: usize,
}

/// Mathematical image of a [`Page`].
pub ghost struct PageView {
    pub entries: Seq<EntryView>,
    pub total: int,
}

impl View for Page {
    type V = PageView;

    open spec fn view(&self) -> PageView {
        PageView { entries: self.entries.deep_view(), total: self.total as int }
    }
}

impl DeepView for Page {
    type V = PageView;

    open spec fn deep_view(&self) -> PageView {
        self.view()
    }
}

/// The closed set of request variants the actor consumes, one per store
/// operation plus the shutdown signal. The surrounding runtime pairs each
/// non-shutdown variant with a single-use reply channel; the payload here
/// is what the actor's decisions depend on.
#[derive(Debug)]
pub enum DBRequest {
    CreateEntry { content: String, pinned: bool },
    ReadEntry { id: i64 },
    ReadEntries {
        page: Option<i64>,
        per_page: Option<i64>,
        sort: Option<SortOrder>,
        pinned: Option<bool>,
        substring: Option<String>,
    },
    UpdateEntry { id: i64, content: Option<String>, pinned: Option<bool> },
    DeleteEntry { id: i64 },
    DumpEntries,
    Shutdown,
}

/// What the actor sends back on an envelope's reply channel: the store's
/// returned value on success, or the store's failure forwarded verbatim.
#[derive(Debug)]
pub enum OpOutcome {
    Entry(Entry),
    Page(Page),
    Done,
    Failure(String),
}

/// Mathematical image of an [`OpOutcome`].
pub ghost enum OutcomeView {
    Entry(EntryView),
    Page(PageView),
    Done,
    Failure(Seq<char>),
}

impl View for OpOutcome {
    type V = OutcomeView;

    open spec fn view(&self) -> OutcomeView {
        match self {
            OpOutcome::Entry(e) => OutcomeView::Entry(e@),
            OpOutcome::Page(p) => OutcomeView::Page(p@),
            OpOutcome::Done => OutcomeView::Done,
            OpOutcome::Failure(s) => OutcomeView::Failure(s@),
        }
    }
}

impl DeepView for OpOutcome {
    type V = OutcomeView;

    open spec fn deep_view(&self) -> OutcomeView {
        self.view()
    }
}

} // verus!
