//! The scheduler's tick: the maintenance work that is due whenever the
//! clock has moved, independent of any request.

use vstd::prelude::*;
use crate::auth::session::{cleanup_expired_sessions, session_is_alive};
use crate::db::{Database, DatabaseView};
use crate::services::articles::{
    has_article, lemma_article_sweeps_keep_wf, lemma_purge_articles_twice,
    lemma_purge_keeps_article_revisions, revisions_of_article,
};
use crate::services::pages::{
    has_page, lemma_page_sweeps_keep_wf, lemma_purge_keeps_page_revisions,
    lemma_purge_pages_twice, revisions_of_page,
};
use crate::services::articles::{
    after_publish_due_articles, after_purge_articles, due_article_count, publish_due_articles,
    purge_expired_articles,
};
use crate::services::pages::{
    after_publish_due_pages, after_purge_pages, due_page_count, publish_due_pages,
    purge_expired_pages,
};

verus! {

/// Seconds between two ticks of the scheduler.
pub const TICK_SECONDS: u64 = 60;

/// What one tick did.
#[derive(Debug, Clone, Copy, PartialEq, Eq)]
pub struct TaskReport {
    pub published_pages: u64,
    pub published_articles: u64,
    pub deleted_pages: u64,
    pub deleted_articles: u64,
    pub deleted_sessions: u64,
}

/// The store after one tick: the due pages and articles are published, the
/// expired pages and articles are erased, and the expired sessions are
/// removed.
pub open spec fn after_tick(db: DatabaseView) -> DatabaseView {
    let swept = after_purge_articles(
        after_purge_pages(after_publish_due_articles(after_publish_due_pages(db))),
    );
    DatabaseView { sessions: swept.sessions.filter(session_is_alive(db.clock)), ..swept }
}

/// Runs all the periodic maintenance at the store's clock: promotes every
/// scheduled page and article whose publication time has come, erases every
/// page and article that is trashed for longer than the retention period,
/// and removes every expired session. The steps do not depend on each
/// other's outcome; the report says how many rows each one touched.
pub fn run_scheduled_tasks(db: &mut Database) -> (report: TaskReport)
    requires
        old(db)@.wf(),
    ensures
        final(db)@.wf(),
        final(db)@ == after_tick(old(db)@),
        report.published_pages == due_page_count(old(db)@.pages, old(db)@.clock),
        report.published_articles == due_article_count(old(db)@.articles, old(db)@.clock),
        report.deleted_pages == old(db)@.pages.len() - final(db)@.pages.len(),
        report.deleted_articles == old(db)@.articles.len() - final(db)@.articles.len(),
        report.deleted_sessions == old(db)@.sessions.len() - final(db)@.sessions.len(),
{
    let published_pages = publish_due_pages(db);
    let published_articles = publish_due_articles(db);
    let deleted_pages = purge_expired_pages(db);
    let deleted_articles = purge_expired_articles(db);
    let deleted_sessions = match cleanup_expired_sessions(db) {
        Ok(n) => n,
        Err(_) => 0,
    };
    TaskReport {
        published_pages,
        published_articles,
        deleted_pages,
        deleted_articles,
        deleted_sessions,
    }
}

/// Moves the clock to `now` and runs one tick: what the scheduler does each
/// time it wakes up.
pub fn tick(db: &mut Database, now: i64) -> (report: TaskReport)
    requires
        old(db)@.wf(),
    ensures
        final(db)@.wf(),
        final(db)@ == after_tick(
            DatabaseView {
                clock: if now > old(db)@.clock {
                    now
                } else {
                    old(db)@.clock
                },
                ..old(db)@
            },
        ),
{
    db.advance_clock(now);
    run_scheduled_tasks(db)
}

/// A tick takes no revision from any page or article that is still there
/// after it: the history of an item only ends with the item.
pub proof fn lemma_tick_keeps_history(db: DatabaseView, id: Seq<char>)
    ensures
        has_page(after_tick(db).pages, id) ==> revisions_of_page(after_tick(db).page_revisions, id)
            == revisions_of_page(db.page_revisions, id),
        has_article(after_tick(db).articles, id) ==> revisions_of_article(
            after_tick(db).article_revisions,
            id,
        ) == revisions_of_article(db.article_revisions, id),
{
    let promoted = after_publish_due_articles(after_publish_due_pages(db));
    if has_page(after_tick(db).pages, id) {
        lemma_purge_keeps_page_revisions(
            promoted.page_revisions,
            after_purge_pages(promoted).pages,
            id,
        );
    }
    if has_article(after_tick(db).articles, id) {
        let swept = after_purge_pages(promoted);
        lemma_purge_keeps_article_revisions(
            swept.article_revisions,
            after_purge_articles(swept).articles,
            id,
        );
    }
}

/// A tick keeps the store well-formed.
pub proof fn lemma_tick_keeps_wf(db: DatabaseView)
    requires
        db.wf(),
    ensures
        after_tick(db).wf(),
{
    let a = after_publish_due_pages(db);
    lemma_page_sweeps_keep_wf(db);
    let b = after_publish_due_articles(a);
    lemma_article_sweeps_keep_wf(a);
    let c = after_purge_pages(b);
    lemma_page_sweeps_keep_wf(b);
    lemma_article_sweeps_keep_wf(c);
}

/// The sweep of a tick and the emptying of the trash on demand erase by
/// the same rule: emptying the trash right after a tick finds nothing to
/// erase, and so does a second tick at the same time.
pub proof fn lemma_nothing_to_erase_after_tick(db: DatabaseView)
    requires
        db.wf(),
    ensures
        after_purge_pages(after_tick(db)).pages == after_tick(db).pages,
        after_purge_articles(after_tick(db)).articles == after_tick(db).articles,
{
    let a = after_publish_due_pages(db);
    lemma_page_sweeps_keep_wf(db);
    let b = after_publish_due_articles(a);
    lemma_article_sweeps_keep_wf(a);
    let c = after_purge_pages(b);
    lemma_page_sweeps_keep_wf(b);
    lemma_purge_pages_twice(b);
    lemma_purge_articles_twice(c);
}

} // verus!
