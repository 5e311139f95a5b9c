//! The trash: what lies in it, and emptying it on demand.

use vstd::prelude::*;
use crate::db::models::{Article, Page, views};
use crate::db::{Database, DatabaseView};
use crate::services::articles::{
    after_purge_articles, list_trashed_articles, purge_expired_articles, trashed_articles,
};
use crate::services::pages::{
    after_purge_pages, list_trashed_pages, purge_expired_pages, trashed_pages,
};

verus! {

/// What lies in the trash.
#[derive(Debug, Clone, PartialEq, Eq)]
pub struct TrashResponse {
    pub pages: Vec<Page>,
    pub articles: Vec<Article>,
}

/// All pages and articles that lie in the trash, each list with the item
/// trashed last in front.
pub fn list(db: &Database) -> (trash: TrashResponse)
    requires
        db@.wf(),
    ensures
        views(trash.pages@) == trashed_pages(db@.pages),
        views(trash.articles@) == trashed_articles(db@.articles),
{
    TrashResponse { pages: list_trashed_pages(db), articles: list_trashed_articles(db) }
}

/// How many items an emptying of the trash erased.
#[derive(Debug, Clone, Copy, PartialEq, Eq)]
pub struct EmptyTrashReport {
    pub pages_deleted: u64,
    pub articles_deleted: u64,
}

/// The store after the trash was emptied: every page and article that is
/// trashed for longer than the retention period is erased.
pub open spec fn after_empty_trash(db: DatabaseView) -> DatabaseView {
    after_purge_articles(after_purge_pages(db))
}

/// Empties the trash: erases for good every page and article that was
/// trashed more than the retention period ago. Items trashed more recently
/// stay. This is the sweep that the scheduler runs, on demand.
pub fn empty(db: &mut Database) -> (report: EmptyTrashReport)
    requires
        old(db)@.wf(),
    ensures
        final(db)@.wf(),
        final(db)@ == after_empty_trash(old(db)@),
        report.pages_deleted == old(db)@.pages.len() - final(db)@.pages.len(),
        report.articles_deleted == old(db)@.articles.len() - final(db)@.articles.len(),
{
    let pages_deleted = purge_expired_pages(db);
    let articles_deleted = purge_expired_articles(db);
    EmptyTrashReport { pages_deleted, articles_deleted }
}

} // verus!
