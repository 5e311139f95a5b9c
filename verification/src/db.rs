//! The content store: the tables that the lifecycle engine works on, held in
//! memory, with the store's own clock.
//!
//! A [`Database`] is only changed through the operations of this crate, all
//! of which keep it well-formed (see [`DatabaseView::wf`]).

use vstd::prelude::*;
use crate::db::models::{
    Article, ArticleRevision, ArticleRevisionView, ArticleView, AuditLogEntry, AuditLogEntryView,
    CategoryLink, CategoryLinkView, Page, PageRevision, PageRevisionView, PageView, Session,
    SessionView, User, UserView, views,
};
use crate::auth::users::users_wf;
use crate::services::articles::{article_revisions_wf, articles_wf};
use crate::services::pages::{page_revisions_wf, pages_wf};

pub mod models;

verus! {

/// The content store.
pub struct Database {
    pub(crate) clock: i64,
    pub(crate) pages: Vec<Page>,
    pub(crate) page_revisions: Vec<PageRevision>,
    pub(crate) page_categories: Vec<CategoryLink>,
    pub(crate) articles: Vec<Article>,
    pub(crate) article_revisions: Vec<ArticleRevision>,
    pub(crate) article_categories: Vec<CategoryLink>,
    pub(crate) users: Vec<User>,
    pub(crate) sessions: Vec<Session>,
    pub(crate) audit_log: Vec<AuditLogEntry>,
}

/// View of a [`Database`]: its tables as sequences of row views, in the
/// order in which the rows were inserted.
pub ghost struct DatabaseView {
    pub clock: i64,
    pub pages: Seq<PageView>,
    pub page_revisions: Seq<PageRevisionView>,
    pub page_categories: Seq<CategoryLinkView>,
    pub articles: Seq<ArticleView>,
    pub article_revisions: Seq<ArticleRevisionView>,
    pub article_categories: Seq<CategoryLinkView>,
    pub users: Seq<UserView>,
    pub sessions: Seq<SessionView>,
    pub audit_log: Seq<AuditLogEntryView>,
}

impl View for Database {
    type V = DatabaseView;

    open(crate) spec fn view(&self) -> DatabaseView {
        DatabaseView {
            clock: self.clock,
            pages: views(self.pages@),
            page_revisions: views(self.page_revisions@),
            page_categories: views(self.page_categories@),
            articles: views(self.articles@),
            article_revisions: views(self.article_revisions@),
            article_categories: views(self.article_categories@),
            users: views(self.users@),
            sessions: views(self.sessions@),
            audit_log: views(self.audit_log@),
        }
    }
}

// ─── Status names ────────────────────────────────────────────────────────────

/// Status of an item that is being written.
pub open spec fn status_draft() -> Seq<char> {
    "draft"@
}

/// Status of an item that waits for its publication time.
pub open spec fn status_scheduled() -> Seq<char> {
    "scheduled"@
}

/// Status of an item that is public.
pub open spec fn status_published() -> Seq<char> {
    "published"@
}

/// Status of an item in the trash.
pub open spec fn status_trashed() -> Seq<char> {
    "trashed"@
}

/// The four status names are pairwise different.
pub proof fn lemma_status_names_differ()
    ensures
        status_draft() != status_scheduled(),
        status_draft() != status_published(),
        status_draft() != status_trashed(),
        status_scheduled() != status_published(),
        status_scheduled() != status_trashed(),
        status_published() != status_trashed(),
{
    reveal_strlit("draft");
    reveal_strlit("scheduled");
    reveal_strlit("published");
    reveal_strlit("trashed");
    assert(status_draft().len() == 5);
    assert(status_scheduled().len() == 9);
    assert(status_published().len() == 9);
    assert(status_trashed().len() == 7);
    assert(status_scheduled()[0] == 's');
    assert(status_published()[0] == 'p');
}

// ─── Well-formedness ─────────────────────────────────────────────────────────

impl DatabaseView {
    /// The invariant of the store: ids and slugs are unique within their
    /// table, every revision belongs to an item that exists, no item was
    /// updated before it was created, and nothing lies after the clock.
    pub open spec fn wf(self) -> bool {
        &&& pages_wf(self.pages, self.clock)
        &&& page_revisions_wf(self.page_revisions, self.pages, self.clock)
        &&& articles_wf(self.articles, self.clock)
        &&& article_revisions_wf(self.article_revisions, self.articles, self.clock)
        &&& users_wf(self.users)
    }
}

impl Database {
    /// An empty store whose clock reads `now`.
    pub fn new(now: i64) -> (db: Database)
        ensures
            db@.wf(),
            db@.clock == now,
            db@.pages.len() == 0,
            db@.page_revisions.len() == 0,
            db@.page_categories.len() == 0,
            db@.articles.len() == 0,
            db@.article_revisions.len() == 0,
            db@.article_categories.len() == 0,
            db@.users.len() == 0,
            db@.sessions.len() == 0,
            db@.audit_log.len() == 0,
    {
        Database {
            clock: now,
            pages: Vec::new(),
            page_revisions: Vec::new(),
            page_categories: Vec::new(),
            articles: Vec::new(),
            article_revisions: Vec::new(),
            article_categories: Vec::new(),
            users: Vec::new(),
            sessions: Vec::new(),
            audit_log: Vec::new(),
        }
    }

    /// The time on the store's clock.
    pub fn now(&self) -> (t: i64)
        ensures
            t == self@.clock,
    {
        self.clock
    }

    /// Moves the clock forward to `now`. The clock never runs backwards: a
    /// time before its current reading is ignored.
    pub fn advance_clock(&mut self, now: i64)
        requires
            old(self)@.wf(),
        ensures
            final(self)@.wf(),
            final(self)@ == (DatabaseView {
                clock: if now > old(self)@.clock {
                    now
                } else {
                    old(self)@.clock
                },
                ..old(self)@
            }),
    {
        if now > self.clock {
            self.clock = now;
        }
    }
}

} // verus!
