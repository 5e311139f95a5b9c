//! Pages: creation, partial update, the status transitions and the revision
//! history.

use vstd::prelude::*;
use vstd::string::*;
use crate::db::models::{
    CategoryLink, CategoryLinkView, CreatePage, CreatePageView, Page, PageRevision,
    PageRevisionView, PageView, PaginatedResponse, PaginationParams, UpdatePage, UpdatePageView,
    lemma_filter_all, lemma_filter_step, lemma_prefix_full, lemma_prefix_step, lemma_views_push,
    lemma_views_update, views,
};
use crate::db::{
    Database, DatabaseView, lemma_status_names_differ, status_draft, status_published,
    status_trashed,
};
use crate::error::{AppError, AppErrorView, AppResult};
use crate::ids::new_id;
use crate::policy::{
    can_restore, categories_of, due_for_publication, duplicate_key_message, expired_trash,
    is_due_for_publication, is_expired_trash, links_for, not_owned_by, opt_str_view, or_text,
    owned_by, replaced_links, resolve_slug, resolved_slug, slug_collides, text_or,
};
use crate::services::audit::{audit_entry, log_action, pair_views};
use crate::sorting::{
    arranged, count_rows, descending_order, positions, row_count, sort_descending, window,
    window_bounds,
};
use crate::text::str_eq;

verus! {

// ─── The tables ──────────────────────────────────────────────────────────────

/// No two pages share an id or a slug, and every page was created no later
/// than it was last updated, which was no later than `clock`.
pub open spec fn pages_wf(pages: Seq<PageView>, clock: i64) -> bool {
    &&& forall|i: int, j: int|
        0 <= i < pages.len() && 0 <= j < pages.len() && i != j ==> (#[trigger] pages[i]).id != (
        #[trigger] pages[j]).id
    &&& forall|i: int, j: int|
        0 <= i < pages.len() && 0 <= j < pages.len() && i != j ==> (#[trigger] pages[i]).slug != (
        #[trigger] pages[j]).slug
    &&& forall|i: int|
        0 <= i < pages.len() ==> (#[trigger] pages[i]).created_at <= pages[i].updated_at
            <= clock
}

/// Whether some page has the id `id`.
pub open spec fn has_page(pages: Seq<PageView>, id: Seq<char>) -> bool {
    exists|i: int| 0 <= i < pages.len() && (#[trigger] pages[i]).id == id
}

/// Position of the page with the id `id`, where there is one.
pub open spec fn page_pos(pages: Seq<PageView>, id: Seq<char>) -> int {
    choose|i: int| 0 <= i < pages.len() && (#[trigger] pages[i]).id == id
}

/// No two revisions share an id, every revision belongs to a page of
/// `pages`, none is younger than `clock`, and they stand oldest first.
pub open spec fn page_revisions_wf(
    revisions: Seq<PageRevisionView>,
    pages: Seq<PageView>,
    clock: i64,
) -> bool {
    &&& forall|i: int, j: int|
        0 <= i < revisions.len() && 0 <= j < revisions.len() && i != j ==> (
        #[trigger] revisions[i]).id != (#[trigger] revisions[j]).id
    &&& forall|i: int|
        0 <= i < revisions.len() ==> has_page(pages, (#[trigger] revisions[i]).page_id)
    &&& forall|i: int| 0 <= i < revisions.len() ==> (#[trigger] revisions[i]).created_at <= clock
    &&& forall|i: int, j: int|
        0 <= i <= j < revisions.len() ==> (#[trigger] revisions[i]).created_at <= (
        #[trigger] revisions[j]).created_at
}

/// In a well-formed table the page with a given id stands at one position
/// only.
pub proof fn lemma_page_pos(pages: Seq<PageView>, clock: i64, id: Seq<char>, i: int)
    requires
        pages_wf(pages, clock),
        0 <= i < pages.len(),
        pages[i].id == id,
    ensures
        has_page(pages, id),
        page_pos(pages, id) == i,
{
    let k = page_pos(pages, id);
    assert(0 <= k < pages.len() && pages[k].id == id);
}

// ─── Rules ───────────────────────────────────────────────────────────────────

/// Whether `slug` is free: no page holds it but, possibly, the page with
/// the id `exclude`.
pub open spec fn slug_available(
    pages: Seq<PageView>,
    slug: Seq<char>,
    exclude: Option<Seq<char>>,
) -> bool {
    forall|i: int|
        0 <= i < pages.len() && (#[trigger] pages[i]).slug == slug ==> exclude == Some(
            pages[i].id,
        )
}

/// The reason given when a page's slug is taken.
pub open spec fn slug_conflict_message(slug: Seq<char>) -> Seq<char> {
    "A page with slug '"@ + slug + "' already exists"@
}

/// The reason given when a page that is not trashed is to be restored.
pub open spec fn not_trashed_message() -> Seq<char> {
    "Only trashed pages can be restored"@
}

/// Whether some revision has the id `id`.
pub open spec fn has_page_revision(revisions: Seq<PageRevisionView>, id: Seq<char>) -> bool {
    exists|i: int| 0 <= i < revisions.len() && (#[trigger] revisions[i]).id == id
}

/// The row of a new page.
pub open spec fn new_page(
    input: CreatePageView,
    author_id: Seq<char>,
    id: Seq<char>,
    clock: i64,
) -> PageView {
    PageView {
        id,
        title: input.title,
        slug: resolved_slug(input.title, input.slug),
        content: or_text(input.content, Seq::empty()),
        status: or_text(input.status, status_draft()),
        publish_at: input.publish_at,
        author_id,
        created_at: clock,
        updated_at: clock,
        trashed_at: None,
    }
}

/// A page after a partial update: each field that the input supplies
/// replaces the page's, every other field stays.
pub open spec fn merged_page(existing: PageView, input: UpdatePageView, clock: i64) -> PageView {
    PageView {
        title: or_text(input.title, existing.title),
        slug: or_text(input.slug, existing.slug),
        content: or_text(input.content, existing.content),
        status: or_text(input.status, existing.status),
        publish_at: if input.publish_at is Some {
            input.publish_at
        } else {
            existing.publish_at
        },
        updated_at: clock,
        ..existing
    }
}

/// A page after it was published.
pub open spec fn published_page(page: PageView, clock: i64) -> PageView {
    PageView { status: status_published(), updated_at: clock, ..page }
}

/// A page after it was moved to the trash.
pub open spec fn trashed_page(page: PageView, clock: i64) -> PageView {
    PageView { status: status_trashed(), trashed_at: Some(clock), updated_at: clock, ..page }
}

/// A page after it was taken back out of the trash.
pub open spec fn restored_page(page: PageView, clock: i64) -> PageView {
    PageView { status: status_draft(), trashed_at: None, updated_at: clock, ..page }
}

/// The snapshot of a page's title and content.
pub open spec fn page_snapshot(
    revision_id: Seq<char>,
    page: PageView,
    author_id: Seq<char>,
    clock: i64,
) -> PageRevisionView {
    PageRevisionView {
        id: revision_id,
        page_id: page.id,
        title: page.title,
        content: page.content,
        author_id,
        created_at: clock,
    }
}

/// What the audit log keeps of a created or updated page.
pub open spec fn page_details(page: PageView) -> Seq<(Seq<char>, Seq<char>)> {
    seq![("title"@, page.title), ("slug"@, page.slug), ("status"@, page.status)]
}

/// Selects the revisions of one page.
pub open spec fn owned_by_page(page_id: Seq<char>) -> spec_fn(PageRevisionView) -> bool {
    |revision: PageRevisionView| revision.page_id == page_id
}

/// The revisions of the page `page_id`, oldest first.
pub open spec fn revisions_of_page(
    revisions: Seq<PageRevisionView>,
    page_id: Seq<char>,
) -> Seq<PageRevisionView> {
    revisions.filter(owned_by_page(page_id))
}

// ─── Lookups ─────────────────────────────────────────────────────────────────

/// Position of the first page with the id `id`.
pub fn find_page(pages: &Vec<Page>, id: &str) -> (r: Option<usize>)
    ensures
        match r {
            Some(i) => i < pages.len() && pages[i as int]@.id == id@ && forall|j: int|
                0 <= j < i ==> (#[trigger] views(pages@)[j]).id != id@,
            None => !has_page(views(pages@), id@),
        },
{
    let mut i: usize = 0;
    while i < pages.len()
        invariant
            i <= pages.len(),
            forall|j: int| 0 <= j < i ==> (#[trigger] views(pages@)[j]).id != id@,
        decreases pages.len() - i,
    {
        if str_eq(pages[i].id.as_str(), id) {
            return Some(i);
        }
        i += 1;
    }
    None
}

/// Position of the first page with the slug `slug`.
pub fn find_page_by_slug(pages: &Vec<Page>, slug: &str) -> (r: Option<usize>)
    ensures
        match r {
            Some(i) => i < pages.len() && pages[i as int]@.slug == slug@ && forall|j: int|
                0 <= j < i ==> (#[trigger] views(pages@)[j]).slug != slug@,
            None => forall|j: int|
                0 <= j < pages.len() ==> (#[trigger] views(pages@)[j]).slug != slug@,
        },
{
    let mut i: usize = 0;
    while i < pages.len()
        invariant
            i <= pages.len(),
            forall|j: int| 0 <= j < i ==> (#[trigger] views(pages@)[j]).slug != slug@,
        decreases pages.len() - i,
    {
        if str_eq(pages[i].slug.as_str(), slug) {
            return Some(i);
        }
        i += 1;
    }
    None
}

/// Position of the first revision with the id `id`.
pub fn find_page_revision(revisions: &Vec<PageRevision>, id: &str) -> (r: Option<usize>)
    ensures
        match r {
            Some(i) => i < revisions.len() && revisions[i as int]@.id == id@ && forall|j: int|
                0 <= j < i ==> (#[trigger] views(revisions@)[j]).id != id@,
            None => !has_page_revision(views(revisions@), id@),
        },
{
    let mut i: usize = 0;
    while i < revisions.len()
        invariant
            i <= revisions.len(),
            forall|j: int| 0 <= j < i ==> (#[trigger] views(revisions@)[j]).id != id@,
        decreases revisions.len() - i,
    {
        if str_eq(revisions[i].id.as_str(), id) {
            return Some(i);
        }
        i += 1;
    }
    None
}

// ─── Pure steps ──────────────────────────────────────────────────────────────

/// The row of a new page with the id `id`, created at `now`.
pub fn build_page(input: &CreatePage, author_id: &str, id: String, now: i64) -> (page: Page)
    ensures
        page@ == new_page(input@, author_id@, id@, now),
{
    proof {
        reveal_strlit("");
        assert(""@ =~= Seq::<char>::empty());
    }
    Page {
        id,
        title: input.title.clone(),
        slug: resolve_slug(input.title.as_str(), &input.slug),
        content: text_or(&input.content, ""),
        status: text_or(&input.status, "draft"),
        publish_at: input.publish_at,
        author_id: author_id.to_owned(),
        created_at: now,
        updated_at: now,
        trashed_at: None,
    }
}

/// Merges a partial update over a page: supplied fields replace, absent
/// fields keep their value; the page counts as updated at `now`.
pub fn merge_page(existing: &Page, input: &UpdatePage, now: i64) -> (page: Page)
    ensures
        page@ == merged_page(existing@, input@, now),
{
    Page {
        id: existing.id.clone(),
        title: text_or(&input.title, existing.title.as_str()),
        slug: text_or(&input.slug, existing.slug.as_str()),
        content: text_or(&input.content, existing.content.as_str()),
        status: text_or(&input.status, existing.status.as_str()),
        publish_at: if input.publish_at.is_some() {
            input.publish_at
        } else {
            existing.publish_at
        },
        author_id: existing.author_id.clone(),
        created_at: existing.created_at,
        updated_at: now,
        trashed_at: existing.trashed_at,
    }
}

/// The error that reports that another page holds `slug`.
pub fn slug_conflict(slug: &str) -> (e: AppError)
    ensures
        e@ == AppErrorView::Conflict(slug_conflict_message(slug@)),
{
    AppError::Conflict(
        String::from_str("A page with slug '").concat(slug).concat("' already exists"),
    )
}

/// The error that reports that a page that is not trashed cannot be
/// restored.
pub fn not_trashed() -> (e: AppError)
    ensures
        e@ == AppErrorView::InvalidState(not_trashed_message()),
{
    AppError::InvalidState(String::from_str("Only trashed pages can be restored"))
}

/// The list of what the audit log keeps of a created or updated page.
pub fn page_detail_pairs(page: &Page) -> (pairs: Vec<(String, String)>)
    ensures
        pair_views(pairs@) == page_details(page@),
{
    let mut pairs: Vec<(String, String)> = Vec::new();
    pairs.push(("title".to_owned(), page.title.clone()));
    pairs.push(("slug".to_owned(), page.slug.clone()));
    pairs.push(("status".to_owned(), page.status.clone()));
    assert(pair_views(pairs@) =~= page_details(page@));
    pairs
}

// ─── Transitions of the store ─────────────────────────────────────────────────

/// Why the creation of a page is rejected, if it is: its slug is taken.
pub open spec fn create_page_rejection(db: DatabaseView, input: CreatePageView) -> Option<
    AppErrorView,
> {
    let slug = resolved_slug(input.title, input.slug);
    if !slug_available(db.pages, slug, None) {
        Some(AppErrorView::Conflict(slug_conflict_message(slug)))
    } else {
        None
    }
}

/// Why the creation of a page under given ids fails, if it does: the
/// rejection above, or an id that is already in use.
pub open spec fn create_page_error(
    db: DatabaseView,
    input: CreatePageView,
    id: Seq<char>,
    revision_id: Seq<char>,
) -> Option<AppErrorView> {
    if create_page_rejection(db, input) is Some {
        create_page_rejection(db, input)
    } else if has_page(db.pages, id) || has_page_revision(db.page_revisions, revision_id) {
        Some(AppErrorView::StorageFailure(duplicate_key_message()))
    } else {
        None
    }
}

/// The store after a page was created: the new row, its seed revision, its
/// category links and the audit entry.
pub open spec fn after_create_page(
    db: DatabaseView,
    input: CreatePageView,
    author_id: Seq<char>,
    id: Seq<char>,
    revision_id: Seq<char>,
    audit_id: Seq<char>,
) -> DatabaseView {
    let page = new_page(input, author_id, id, db.clock);
    DatabaseView {
        pages: db.pages.push(page),
        page_revisions: db.page_revisions.push(
            page_snapshot(revision_id, page, author_id, db.clock),
        ),
        page_categories: replaced_links(db.page_categories, id, input.category_ids),
        audit_log: db.audit_log.push(
            audit_entry(audit_id, author_id, "create"@, "page"@, id, page_details(page), db.clock),
        ),
        ..db
    }
}

/// Why the update of a page is rejected, if it is: the page is unknown, or
/// its slug would change to one that another page holds.
pub open spec fn update_page_rejection(
    db: DatabaseView,
    id: Seq<char>,
    input: UpdatePageView,
) -> Option<AppErrorView> {
    if !has_page(db.pages, id) {
        Some(AppErrorView::NotFound)
    } else {
        let existing = db.pages[page_pos(db.pages, id)];
        let merged = merged_page(existing, input, db.clock);
        if merged.slug != existing.slug && !slug_available(db.pages, merged.slug, Some(id)) {
            Some(AppErrorView::Conflict(slug_conflict_message(merged.slug)))
        } else {
            None
        }
    }
}

/// Why the update of a page with a given id for the new revision fails, if
/// it does: the rejection above, or a revision id that is already in use.
pub open spec fn update_page_error(
    db: DatabaseView,
    id: Seq<char>,
    input: UpdatePageView,
    revision_id: Seq<char>,
) -> Option<AppErrorView> {
    if update_page_rejection(db, id, input) is Some {
        update_page_rejection(db, id, input)
    } else if has_page_revision(db.page_revisions, revision_id) {
        Some(AppErrorView::StorageFailure(duplicate_key_message()))
    } else {
        None
    }
}

/// The store after a page was updated: the merged row in its place, one
/// more revision that holds the merged title and content, the category
/// links replaced where the input gives them, and the audit entry.
pub open spec fn after_update_page(
    db: DatabaseView,
    id: Seq<char>,
    input: UpdatePageView,
    user_id: Seq<char>,
    revision_id: Seq<char>,
    audit_id: Seq<char>,
) -> DatabaseView {
    let pos = page_pos(db.pages, id);
    let merged = merged_page(db.pages[pos], input, db.clock);
    DatabaseView {
        pages: db.pages.update(pos, merged),
        page_revisions: db.page_revisions.push(
            page_snapshot(revision_id, merged, user_id, db.clock),
        ),
        page_categories: replaced_links(db.page_categories, id, input.category_ids),
        audit_log: db.audit_log.push(
            audit_entry(audit_id, user_id, "update"@, "page"@, id, page_details(merged), db.clock),
        ),
        ..db
    }
}

/// The store after the page `id` was replaced by `page` and the action was
/// logged without details.
pub open spec fn after_page_transition(
    db: DatabaseView,
    id: Seq<char>,
    page: PageView,
    user_id: Seq<char>,
    action: Seq<char>,
    audit_id: Seq<char>,
) -> DatabaseView {
    DatabaseView {
        pages: db.pages.update(page_pos(db.pages, id), page),
        audit_log: db.audit_log.push(
            audit_entry(audit_id, user_id, action, "page"@, id, Seq::empty(), db.clock),
        ),
        ..db
    }
}

/// All that an update of the page `id` may do, whatever id its new revision
/// gets: it is rejected and nothing changes, or the storage fails on the
/// revision's id and nothing changes, or the page is merged and one
/// revision and one audit entry are appended. Where the store holds no
/// revision, no id is in use, and an update that is not rejected succeeds.
pub open spec fn update_page_outcome(
    before: DatabaseView,
    id: Seq<char>,
    input: UpdatePageView,
    user_id: Seq<char>,
    after: DatabaseView,
    r: AppResult<Page>,
) -> bool {
    &&& before.page_revisions.len() == 0 && update_page_rejection(before, id, input) is None
        ==> r is Ok
    &&& match r {
        Ok(page) => {
            &&& update_page_rejection(before, id, input) is None
            &&& page@ == merged_page(before.pages[page_pos(before.pages, id)], input, before.clock)
            &&& after.page_revisions.len() > 0
            &&& after.audit_log.len() > 0
            &&& after == after_update_page(
                before,
                id,
                input,
                user_id,
                after.page_revisions.last().id,
                after.audit_log.last().id,
            )
        },
        Err(e) => {
            &&& after == before
            &&& match update_page_rejection(before, id, input) {
                Some(rejection) => e@ == rejection,
                None => e@ == AppErrorView::StorageFailure(duplicate_key_message()),
            }
        },
    }
}

// ─── Lemmas on the tables ────────────────────────────────────────────────────

/// Replacing a page by one with the same id, the same creation time, an
/// update time equal to the clock and a slug that is its old one or free
/// keeps the table well-formed and keeps every id in it.
pub proof fn lemma_replace_page(pages: Seq<PageView>, clock: i64, pos: int, page: PageView)
    requires
        pages_wf(pages, clock),
        0 <= pos < pages.len(),
        page.id == pages[pos].id,
        page.created_at == pages[pos].created_at,
        page.updated_at == clock,
        page.slug == pages[pos].slug || slug_available(pages, page.slug, Some(page.id)),
    ensures
        pages_wf(pages.update(pos, page), clock),
        forall|id: Seq<char>| has_page(pages, id) <==> has_page(pages.update(pos, page), id),
{
    let after = pages.update(pos, page);
    assert forall|i: int, j: int|
        0 <= i < after.len() && 0 <= j < after.len() && i != j implies (#[trigger] after[i]).slug
        != (#[trigger] after[j]).slug by {
        if i == pos {
            assert(pages[j].slug != page.slug);
        } else if j == pos {
            assert(pages[i].slug != page.slug);
        } else {
            assert(pages[i].slug != pages[j].slug);
        }
    }
    assert forall|i: int, j: int|
        0 <= i < after.len() && 0 <= j < after.len() && i != j implies (#[trigger] after[i]).id != (
        #[trigger] after[j]).id by {
        assert(pages[i].id != pages[j].id);
    }
    assert forall|i: int| 0 <= i < after.len() implies (#[trigger] after[i]).created_at
        <= after[i].updated_at <= clock by {
        assert(pages[i].created_at <= pages[i].updated_at <= clock);
    }
    assert forall|id: Seq<char>| has_page(pages, id) <==> has_page(after, id) by {
        if has_page(pages, id) {
            let k = page_pos(pages, id);
            assert(after[k].id == id);
        }
        if has_page(after, id) {
            let k = page_pos(after, id);
            assert(pages[k].id == id);
        }
    }
}

/// Appending a revision with a fresh id that belongs to an existing page
/// and is stamped with the clock keeps the revisions well-formed.
pub proof fn lemma_push_page_revision(
    revisions: Seq<PageRevisionView>,
    pages: Seq<PageView>,
    clock: i64,
    revision: PageRevisionView,
)
    requires
        page_revisions_wf(revisions, pages, clock),
        !has_page_revision(revisions, revision.id),
        has_page(pages, revision.page_id),
        revision.created_at == clock,
    ensures
        page_revisions_wf(revisions.push(revision), pages, clock),
{
    let after = revisions.push(revision);
    assert forall|i: int, j: int|
        0 <= i < after.len() && 0 <= j < after.len() && i != j implies (#[trigger] after[i]).id != (
        #[trigger] after[j]).id by {
        if i < revisions.len() && j < revisions.len() {
            assert(revisions[i].id != revisions[j].id);
        } else if i < revisions.len() {
            assert(revisions[i].id != revision.id);
        } else {
            assert(revisions[j].id != revision.id);
        }
    }
    assert forall|i: int| 0 <= i < after.len() implies has_page(
        pages,
        (#[trigger] after[i]).page_id,
    ) by {
        if i < revisions.len() {
            assert(has_page(pages, revisions[i].page_id));
        }
    }
    assert forall|i: int| 0 <= i < after.len() implies (#[trigger] after[i]).created_at
        <= clock by {
        if i < revisions.len() {
            assert(revisions[i].created_at <= clock);
        }
    }
    assert forall|i: int, j: int| 0 <= i <= j < after.len() implies (#[trigger] after[i]).created_at
        <= (#[trigger] after[j]).created_at by {
        if j < revisions.len() {
            assert(revisions[i].created_at <= revisions[j].created_at);
        } else if i < revisions.len() {
            assert(revisions[i].created_at <= clock);
        }
    }
}

/// Revisions that are well-formed over one table of pages are so over any
/// table that holds the same ids.
pub proof fn lemma_page_revisions_follow(
    revisions: Seq<PageRevisionView>,
    pages: Seq<PageView>,
    other: Seq<PageView>,
    clock: i64,
)
    requires
        page_revisions_wf(revisions, pages, clock),
        forall|id: Seq<char>| has_page(pages, id) ==> has_page(other, id),
    ensures
        page_revisions_wf(revisions, other, clock),
{
    assert forall|i: int| 0 <= i < revisions.len() implies has_page(
        other,
        (#[trigger] revisions[i]).page_id,
    ) by {
        assert(has_page(pages, revisions[i].page_id));
    }
}

/// Appending a page with a fresh id and a free slug, created and updated at
/// the clock, keeps the table well-formed and keeps every id in it.
pub proof fn lemma_push_page(pages: Seq<PageView>, clock: i64, page: PageView)
    requires
        pages_wf(pages, clock),
        !has_page(pages, page.id),
        slug_available(pages, page.slug, None),
        page.created_at == clock,
        page.updated_at == clock,
    ensures
        pages_wf(pages.push(page), clock),
        has_page(pages.push(page), page.id),
        forall|id: Seq<char>| has_page(pages, id) ==> has_page(pages.push(page), id),
{
    let after = pages.push(page);
    assert forall|i: int, j: int|
        0 <= i < after.len() && 0 <= j < after.len() && i != j implies (#[trigger] after[i]).id != (
        #[trigger] after[j]).id by {
        if i < pages.len() && j < pages.len() {
            assert(pages[i].id != pages[j].id);
        } else if i < pages.len() {
            assert(pages[i].id != page.id);
        } else {
            assert(pages[j].id != page.id);
        }
    }
    assert forall|i: int, j: int|
        0 <= i < after.len() && 0 <= j < after.len() && i != j implies (#[trigger] after[i]).slug
        != (#[trigger] after[j]).slug by {
        if i < pages.len() && j < pages.len() {
            assert(pages[i].slug != pages[j].slug);
        } else if i < pages.len() {
            assert(pages[i].slug != page.slug);
        } else {
            assert(pages[j].slug != page.slug);
        }
    }
    assert forall|i: int| 0 <= i < after.len() implies (#[trigger] after[i]).created_at
        <= after[i].updated_at <= clock by {
        if i < pages.len() {
            assert(pages[i].created_at <= pages[i].updated_at <= clock);
        }
    }
    assert(after[pages.len() as int].id == page.id);
    assert forall|id: Seq<char>| has_page(pages, id) implies has_page(after, id) by {
        let k = page_pos(pages, id);
        assert(after[k].id == id);
    }
}

// ─── Steps on the store ──────────────────────────────────────────────────────

/// Checks that `slug` is free for the page `exclude_id` (for a new page:
/// `None`), and reports a conflict where another page holds it.
pub fn ensure_slug_unique(db: &Database, slug: &str, exclude_id: Option<&str>) -> (r: AppResult<()>)
    requires
        db@.wf(),
    ensures
        match r {
            Ok(_) => slug_available(db@.pages, slug@, opt_str_view(exclude_id)),
            Err(e) => !slug_available(db@.pages, slug@, opt_str_view(exclude_id)) && e@
                == AppErrorView::Conflict(slug_conflict_message(slug@)),
        },
{
    let found = find_page_by_slug(&db.pages, slug);
    let collides = match found {
        Some(i) => slug_collides(Some(db.pages[i].id.as_str()), exclude_id),
        None => slug_collides(None, exclude_id),
    };
    proof {
        let pages = db@.pages;
        match found {
            Some(i) => {
                assert(pages[i as int].slug == slug@);
                if !collides {
                    assert forall|j: int|
                        0 <= j < pages.len() && (#[trigger] pages[j]).slug
                            == slug@ implies opt_str_view(exclude_id) == Some(pages[j].id) by {
                        if j != i as int {
                            assert(pages[j].slug != pages[i as int].slug);
                        }
                    }
                }
            },
            None => {
                assert forall|j: int|
                    0 <= j < pages.len() implies (#[trigger] pages[j]).slug != slug@ by {
                    assert(views(db.pages@)[j].slug != slug@);
                }
            },
        }
    }
    if collides {
        Err(slug_conflict(slug))
    } else {
        Ok(())
    }
}

/// Whether `slug` is free for the page `exclude_id` (for a new page:
/// `None`): true exactly where no other page holds it.
pub fn is_slug_available(db: &Database, slug: &str, exclude_id: Option<&str>) -> (r: bool)
    requires
        db@.wf(),
    ensures
        r == slug_available(db@.pages, slug@, opt_str_view(exclude_id)),
{
    ensure_slug_unique(db, slug, exclude_id).is_ok()
}

/// Replaces the category links of a page: all of its links leave, and one
/// link per given category comes in, in order.
pub fn set_page_categories(db: &mut Database, page_id: &str, category_ids: &Vec<String>)
    requires
        old(db)@.wf(),
    ensures
        final(db)@.wf(),
        final(db)@ == (DatabaseView {
            page_categories: replaced_links(
                old(db)@.page_categories,
                page_id@,
                Some(views(category_ids@)),
            ),
            ..old(db)@
        }),
{
    let ghost before = db@.page_categories;
    let ghost keep = not_owned_by(page_id@);
    let mut links: Vec<CategoryLink> = Vec::new();
    let mut i: usize = 0;
    proof {
        lemma_prefix_full(before);
        reveal(Seq::filter);
    }
    while i < db.page_categories.len()
        invariant
            i <= db.page_categories.len(),
            before == views(db.page_categories@),
            keep == not_owned_by(page_id@),
            views(links@) == before.subrange(0, i as int).filter(keep),
        decreases db.page_categories.len() - i,
    {
        proof {
            lemma_filter_step(before, i as int, keep);
        }
        if !str_eq(db.page_categories[i].owner_id.as_str(), page_id) {
            let link = CategoryLink {
                owner_id: db.page_categories[i].owner_id.clone(),
                category_id: db.page_categories[i].category_id.clone(),
            };
            proof {
                lemma_views_push(links@, link);
            }
            links.push(link);
        }
        i += 1;
    }
    proof {
        lemma_prefix_full(before);
    }
    let ghost kept = views(links@);
    let mut k: usize = 0;
    while k < category_ids.len()
        invariant
            k <= category_ids.len(),
            views(links@) == kept + links_for(page_id@, views(category_ids@)).subrange(
                0,
                k as int,
            ),
        decreases category_ids.len() - k,
    {
        let link = CategoryLink {
            owner_id: page_id.to_owned(),
            category_id: category_ids[k].clone(),
        };
        proof {
            lemma_views_push(links@, link);
            let all = links_for(page_id@, views(category_ids@));
            lemma_prefix_step(all, k as int);
            assert((kept + all.subrange(0, k as int)).push(link@) =~= kept + all.subrange(
                0,
                k as int + 1,
            ));
        }
        links.push(link);
        k += 1;
    }
    proof {
        lemma_prefix_full(links_for(page_id@, views(category_ids@)));
    }
    db.page_categories = links;
}

/// The ids of the categories of the page `page_id`, in the order in which
/// they were assigned. A page without categories, and an id that no page
/// has, give none.
pub fn get_page_categories(db: &Database, page_id: &str) -> (r: AppResult<Vec<String>>)
    ensures
        r is Ok,
        views(r->Ok_0@) == categories_of(db@.page_categories, page_id@),
{
    let ghost all = db@.page_categories;
    let ghost keep = owned_by(page_id@);
    let ghost pick = |link: CategoryLinkView| link.category_id;
    let mut ids: Vec<String> = Vec::new();
    let mut i: usize = 0;
    proof {
        lemma_prefix_full(all);
        reveal(Seq::filter);
        assert(views(ids@) =~= all.subrange(0, 0).filter(keep).map_values(pick));
    }
    while i < db.page_categories.len()
        invariant
            i <= db.page_categories.len(),
            all == views(db.page_categories@),
            keep == owned_by(page_id@),
            pick == (|link: CategoryLinkView| link.category_id),
            views(ids@) == all.subrange(0, i as int).filter(keep).map_values(pick),
        decreases db.page_categories.len() - i,
    {
        proof {
            lemma_filter_step(all, i as int, keep);
        }
        if str_eq(db.page_categories[i].owner_id.as_str(), page_id) {
            let id = db.page_categories[i].category_id.clone();
            proof {
                let before = all.subrange(0, i as int).filter(keep);
                lemma_views_push(ids@, id);
                assert(before.push(all[i as int]).map_values(pick) =~= before.map_values(
                    pick,
                ).push(all[i as int].category_id));
            }
            ids.push(id);
        }
        i += 1;
    }
    proof {
        lemma_prefix_full(all);
    }
    Ok(ids)
}

/// Appends the snapshot of `page` under the id `revision_id`.
fn create_revision(db: &mut Database, revision_id: String, page: &Page, author_id: &str)
    requires
        old(db)@.wf(),
        !has_page_revision(old(db)@.page_revisions, revision_id@),
        has_page(old(db)@.pages, page@.id),
    ensures
        final(db)@.wf(),
        final(db)@ == (DatabaseView {
            page_revisions: old(db)@.page_revisions.push(
                page_snapshot(revision_id@, page@, author_id@, old(db)@.clock),
            ),
            ..old(db)@
        }),
{
    let revision = PageRevision {
        id: revision_id,
        page_id: page.id.clone(),
        title: page.title.clone(),
        content: page.content.clone(),
        author_id: author_id.to_owned(),
        created_at: db.clock,
    };
    proof {
        lemma_views_push(db.page_revisions@, revision);
        lemma_push_page_revision(db@.page_revisions, db@.pages, db@.clock, revision@);
    }
    db.page_revisions.push(revision);
}

// ─── Operations ──────────────────────────────────────────────────────────────

/// Fetches a page by its id. `NotFound` if there is none.
pub fn get_page(db: &Database, id: &str) -> (r: AppResult<Page>)
    requires
        db@.wf(),
    ensures
        match r {
            Ok(page) => has_page(db@.pages, id@) && page@ == db@.pages[page_pos(db@.pages, id@)],
            Err(e) => !has_page(db@.pages, id@) && e@ == AppErrorView::NotFound,
        },
{
    match find_page(&db.pages, id) {
        Some(i) => {
            proof {
                lemma_page_pos(db@.pages, db@.clock, id@, i as int);
            }
            Ok(db.pages[i].duplicate())
        },
        None => Err(AppError::NotFound),
    }
}

/// Whether the page that holds `slug` is public.
pub open spec fn has_published_page(pages: Seq<PageView>, slug: Seq<char>) -> bool {
    exists|i: int|
        0 <= i < pages.len() && (#[trigger] pages[i]).slug == slug && pages[i].status
            == status_published()
}

/// Fetches a published page by its slug. `NotFound` if no page holds the
/// slug, or if the page that holds it is not published.
pub fn get_page_by_slug(db: &Database, slug: &str) -> (r: AppResult<Page>)
    requires
        db@.wf(),
    ensures
        match r {
            Ok(page) => has_published_page(db@.pages, slug@) && page@.slug == slug@ && page@.status
                == status_published() && has_page(db@.pages, page@.id) && page@
                == db@.pages[page_pos(db@.pages, page@.id)],
            Err(e) => !has_published_page(db@.pages, slug@) && e@ == AppErrorView::NotFound,
        },
{
    match find_page_by_slug(&db.pages, slug) {
        Some(i) => {
            let ghost pages = db@.pages;
            proof {
                lemma_page_pos(pages, db@.clock, pages[i as int].id, i as int);
            }
            if str_eq(db.pages[i].status.as_str(), "published") {
                Ok(db.pages[i].duplicate())
            } else {
                proof {
                    assert forall|j: int|
                        0 <= j < pages.len() && (#[trigger] pages[j]).slug
                            == slug@ implies pages[j].status != status_published() by {
                        if j != i as int {
                            assert(pages[j].slug != pages[i as int].slug);
                        }
                    }
                }
                Err(AppError::NotFound)
            }
        },
        None => {
            proof {
                assert forall|j: int| 0 <= j < db@.pages.len() implies (#[trigger] db@.pages[j]).slug
                    != slug@ by {
                    assert(views(db.pages@)[j].slug != slug@);
                }
            }
            Err(AppError::NotFound)
        },
    }
}

/// Creates a page under the id `id`, with its seed revision under the id
/// `revision_id`.
///
/// The slug is the explicit one or, without one, derived from the title.
/// Fails with `Conflict` where another page holds the slug, and with
/// `StorageFailure` where one of the two ids is in use; the store is then
/// unchanged. Else the page is stored with the status given (without one:
/// `draft`), created and updated at the store's clock, and returned.
pub fn create_page_with_ids(
    db: &mut Database,
    input: CreatePage,
    author_id: &str,
    id: String,
    revision_id: String,
) -> (r: AppResult<Page>)
    requires
        old(db)@.wf(),
    ensures
        final(db)@.wf(),
        match r {
            Ok(page) => {
                &&& create_page_error(old(db)@, input@, id@, revision_id@) is None
                &&& page@ == new_page(input@, author_id@, id@, old(db)@.clock)
                &&& final(db)@.audit_log.len() > 0
                &&& final(db)@ == after_create_page(
                    old(db)@,
                    input@,
                    author_id@,
                    id@,
                    revision_id@,
                    final(db)@.audit_log.last().id,
                )
            },
            Err(e) => {
                &&& create_page_error(old(db)@, input@, id@, revision_id@) == Some(e@)
                &&& final(db)@ == old(db)@
            },
        },
{
    let ghost before = db@;
    let ghost id_view = id@;
    let page = build_page(&input, author_id, id, db.clock);
    match ensure_slug_unique(db, page.slug.as_str(), None) {
        Err(e) => {
            return Err(e);
        },
        Ok(_) => {},
    }
    let page_taken = find_page(&db.pages, page.id.as_str());
    let revision_taken = find_page_revision(&db.page_revisions, revision_id.as_str());
    if page_taken.is_some() || revision_taken.is_some() {
        proof {
            match page_taken {
                Some(i) => {
                    assert(before.pages[i as int].id == id_view);
                },
                None => {},
            }
            match revision_taken {
                Some(i) => {
                    assert(before.page_revisions[i as int].id == revision_id@);
                },
                None => {},
            }
        }
        return Err(AppError::StorageFailure(String::from_str("duplicate key")));
    }
    let stored = page.duplicate();
    proof {
        lemma_views_push(db.pages@, stored);
        lemma_push_page(before.pages, before.clock, page@);
        lemma_page_revisions_follow(
            before.page_revisions,
            before.pages,
            before.pages.push(page@),
            before.clock,
        );
    }
    db.pages.push(stored);
    match &input.category_ids {
        Some(ids) => {
            set_page_categories(db, page.id.as_str(), ids);
        },
        None => {},
    }
    create_revision(db, revision_id, &page, author_id);
    let details = page_detail_pairs(&page);
    log_action(db, author_id, "create", "page", page.id.as_str(), &details);
    Ok(page)
}

/// Creates a page and its seed revision under fresh random ids.
///
/// Fails with `Conflict` exactly where another page holds the slug. Else
/// the page is created as [`create_page_with_ids`] says, unless the storage
/// fails on an id that is in use, which leaves the store unchanged. In a
/// store without pages no id is in use, and the creation succeeds.
pub fn create_page(db: &mut Database, input: CreatePage, author_id: &str) -> (r: AppResult<Page>)
    requires
        old(db)@.wf(),
    ensures
        final(db)@.wf(),
        old(db)@.pages.len() == 0 ==> r is Ok,
        match r {
            Ok(page) => {
                &&& create_page_rejection(old(db)@, input@) is None
                &&& page@ == new_page(input@, author_id@, page@.id, old(db)@.clock)
                &&& final(db)@.page_revisions.len() > 0
                &&& final(db)@.audit_log.len() > 0
                &&& final(db)@ == after_create_page(
                    old(db)@,
                    input@,
                    author_id@,
                    page@.id,
                    final(db)@.page_revisions.last().id,
                    final(db)@.audit_log.last().id,
                )
            },
            Err(e) => {
                &&& final(db)@ == old(db)@
                &&& match create_page_rejection(old(db)@, input@) {
                    Some(rejection) => e@ == rejection,
                    None => e@ == AppErrorView::StorageFailure(duplicate_key_message()),
                }
            },
        },
{
    let id = new_id();
    let revision_id = new_id();
    proof {
        if db@.pages.len() == 0 && db@.page_revisions.len() > 0 {
            assert(has_page(db@.pages, db@.page_revisions[0].page_id));
        }
    }
    create_page_with_ids(db, input, author_id, id, revision_id)
}

/// Applies a partial update to the page `id`; the new revision gets the id
/// `revision_id`.
///
/// Fails with `NotFound` where the page is unknown, with `Conflict` where
/// the slug changes to one that another page holds, and with
/// `StorageFailure` where the revision id is in use; the store is then
/// unchanged. Else the merged page takes the place of the old one, one
/// revision with the merged title and content is appended, and the merged
/// page is returned.
pub fn update_page_with_id(
    db: &mut Database,
    id: &str,
    input: UpdatePage,
    user_id: &str,
    revision_id: String,
) -> (r: AppResult<Page>)
    requires
        old(db)@.wf(),
    ensures
        final(db)@.wf(),
        match r {
            Ok(page) => {
                &&& update_page_error(old(db)@, id@, input@, revision_id@) is None
                &&& page@ == merged_page(
                    old(db)@.pages[page_pos(old(db)@.pages, id@)],
                    input@,
                    old(db)@.clock,
                )
                &&& final(db)@.audit_log.len() > 0
                &&& final(db)@ == after_update_page(
                    old(db)@,
                    id@,
                    input@,
                    user_id@,
                    revision_id@,
                    final(db)@.audit_log.last().id,
                )
            },
            Err(e) => {
                &&& update_page_error(old(db)@, id@, input@, revision_id@) == Some(e@)
                &&& final(db)@ == old(db)@
            },
        },
{
    let ghost before = db@;
    let pos = match find_page(&db.pages, id) {
        Some(i) => i,
        None => {
            return Err(AppError::NotFound);
        },
    };
    proof {
        lemma_page_pos(before.pages, before.clock, id@, pos as int);
    }
    let merged = merge_page(&db.pages[pos], &input, db.clock);
    if !str_eq(merged.slug.as_str(), db.pages[pos].slug.as_str()) {
        match ensure_slug_unique(db, merged.slug.as_str(), Some(id)) {
            Err(e) => {
                return Err(e);
            },
            Ok(_) => {},
        }
    }
    match find_page_revision(&db.page_revisions, revision_id.as_str()) {
        Some(i) => {
            proof {
                assert(before.page_revisions[i as int].id == revision_id@);
            }
            return Err(AppError::StorageFailure(String::from_str("duplicate key")));
        },
        None => {},
    }
    let stored = merged.duplicate();
    proof {
        lemma_views_update(db.pages@, pos as int, stored);
        lemma_replace_page(before.pages, before.clock, pos as int, merged@);
        lemma_page_revisions_follow(
            before.page_revisions,
            before.pages,
            before.pages.update(pos as int, merged@),
            before.clock,
        );
    }
    db.pages.set(pos, stored);
    match &input.category_ids {
        Some(ids) => {
            set_page_categories(db, id, ids);
        },
        None => {},
    }
    create_revision(db, revision_id, &merged, user_id);
    let details = page_detail_pairs(&merged);
    log_action(db, user_id, "update", "page", id, &details);
    Ok(merged)
}

/// Applies a partial update to the page `id`; the new revision gets a fresh
/// random id. See [`update_page_outcome`].
pub fn update_page(db: &mut Database, id: &str, input: UpdatePage, user_id: &str) -> (r: AppResult<
    Page,
>)
    requires
        old(db)@.wf(),
    ensures
        final(db)@.wf(),
        update_page_outcome(old(db)@, id@, input@, user_id@, final(db)@, r),
{
    let revision_id = new_id();
    update_page_with_id(db, id, input, user_id, revision_id)
}

/// Replaces the page at `pos` by `page` after a status transition and logs
/// the action.
fn apply_page_transition(
    db: &mut Database,
    pos: usize,
    id: &str,
    page: &Page,
    user_id: &str,
    action: &str,
)
    requires
        old(db)@.wf(),
        pos < old(db)@.pages.len(),
        old(db)@.pages[pos as int].id == id@,
        page@.id == id@,
        page@.slug == old(db)@.pages[pos as int].slug,
        page@.created_at == old(db)@.pages[pos as int].created_at,
        page@.updated_at == old(db)@.clock,
    ensures
        final(db)@.wf(),
        final(db)@.audit_log.len() > 0,
        has_page(old(db)@.pages, id@),
        page_pos(old(db)@.pages, id@) == pos,
        final(db)@ == after_page_transition(
            old(db)@,
            id@,
            page@,
            user_id@,
            action@,
            final(db)@.audit_log.last().id,
        ),
{
    let ghost before = db@;
    let stored = page.duplicate();
    proof {
        lemma_page_pos(before.pages, before.clock, id@, pos as int);
        lemma_views_update(db.pages@, pos as int, stored);
        lemma_replace_page(before.pages, before.clock, pos as int, page@);
        lemma_page_revisions_follow(
            before.page_revisions,
            before.pages,
            before.pages.update(pos as int, page@),
            before.clock,
        );
    }
    db.pages.set(pos, stored);
    let details: Vec<(String, String)> = Vec::new();
    assert(pair_views(details@) =~= Seq::empty());
    log_action(db, user_id, action, "page", id, &details);
}

/// Publishes the page `id`, whatever its status was, and returns it.
/// `NotFound` if there is no such page.
pub fn publish_page(db: &mut Database, id: &str, user_id: &str) -> (r: AppResult<Page>)
    requires
        old(db)@.wf(),
    ensures
        final(db)@.wf(),
        match r {
            Ok(page) => {
                &&& has_page(old(db)@.pages, id@)
                &&& page@ == published_page(
                    old(db)@.pages[page_pos(old(db)@.pages, id@)],
                    old(db)@.clock,
                )
                &&& final(db)@.audit_log.len() > 0
                &&& final(db)@ == after_page_transition(
                    old(db)@,
                    id@,
                    page@,
                    user_id@,
                    "publish"@,
                    final(db)@.audit_log.last().id,
                )
            },
            Err(e) => !has_page(old(db)@.pages, id@) && e@ == AppErrorView::NotFound && final(db)@
                == old(db)@,
        },
{
    let pos = match find_page(&db.pages, id) {
        Some(i) => i,
        None => {
            return Err(AppError::NotFound);
        },
    };
    let mut page = db.pages[pos].duplicate();
    page.status = String::from_str("published");
    page.updated_at = db.clock;
    apply_page_transition(db, pos, id, &page, user_id, "publish");
    Ok(page)
}

/// Moves the page `id` to the trash, whatever its status was: the page
/// stays in the store and counts as trashed at the store's clock.
/// `NotFound` if there is no such page.
pub fn trash_page(db: &mut Database, id: &str, user_id: &str) -> (r: AppResult<()>)
    requires
        old(db)@.wf(),
    ensures
        final(db)@.wf(),
        match r {
            Ok(_) => {
                &&& has_page(old(db)@.pages, id@)
                &&& final(db)@.audit_log.len() > 0
                &&& final(db)@ == after_page_transition(
                    old(db)@,
                    id@,
                    trashed_page(old(db)@.pages[page_pos(old(db)@.pages, id@)], old(db)@.clock),
                    user_id@,
                    "trash"@,
                    final(db)@.audit_log.last().id,
                )
            },
            Err(e) => !has_page(old(db)@.pages, id@) && e@ == AppErrorView::NotFound && final(db)@
                == old(db)@,
        },
{
    let pos = match find_page(&db.pages, id) {
        Some(i) => i,
        None => {
            return Err(AppError::NotFound);
        },
    };
    let mut page = db.pages[pos].duplicate();
    page.status = String::from_str("trashed");
    page.trashed_at = Some(db.clock);
    page.updated_at = db.clock;
    apply_page_transition(db, pos, id, &page, user_id, "trash");
    Ok(())
}

/// Takes the page `id` back out of the trash: it becomes a draft again and
/// is returned. `NotFound` if there is no such page; `InvalidState`, with
/// the store unchanged, if the page is not trashed.
pub fn restore_page(db: &mut Database, id: &str, user_id: &str) -> (r: AppResult<Page>)
    requires
        old(db)@.wf(),
    ensures
        final(db)@.wf(),
        match r {
            Ok(page) => {
                &&& has_page(old(db)@.pages, id@)
                &&& old(db)@.pages[page_pos(old(db)@.pages, id@)].status == status_trashed()
                &&& page@ == restored_page(
                    old(db)@.pages[page_pos(old(db)@.pages, id@)],
                    old(db)@.clock,
                )
                &&& final(db)@.audit_log.len() > 0
                &&& final(db)@ == after_page_transition(
                    old(db)@,
                    id@,
                    page@,
                    user_id@,
                    "restore"@,
                    final(db)@.audit_log.last().id,
                )
            },
            Err(e) => {
                &&& final(db)@ == old(db)@
                &&& if !has_page(old(db)@.pages, id@) {
                    e@ == AppErrorView::NotFound
                } else {
                    &&& old(db)@.pages[page_pos(old(db)@.pages, id@)].status != status_trashed()
                    &&& e@ == AppErrorView::InvalidState(not_trashed_message())
                }
            },
        },
{
    let pos = match find_page(&db.pages, id) {
        Some(i) => i,
        None => {
            return Err(AppError::NotFound);
        },
    };
    proof {
        lemma_page_pos(db@.pages, db@.clock, id@, pos as int);
    }
    if !can_restore(db.pages[pos].status.as_str()) {
        return Err(not_trashed());
    }
    let mut page = db.pages[pos].duplicate();
    page.status = String::from_str("draft");
    page.trashed_at = None;
    page.updated_at = db.clock;
    apply_page_transition(db, pos, id, &page, user_id, "restore");
    Ok(page)
}

/// The revisions of the page `page_id`, newest first. `NotFound` if there
/// is no such page.
pub fn list_revisions(db: &Database, page_id: &str) -> (r: AppResult<Vec<PageRevision>>)
    requires
        db@.wf(),
    ensures
        match r {
            Ok(revisions) => has_page(db@.pages, page_id@) && views(revisions@)
                == revisions_of_page(db@.page_revisions, page_id@).reverse(),
            Err(e) => !has_page(db@.pages, page_id@) && e@ == AppErrorView::NotFound,
        },
{
    match find_page(&db.pages, page_id) {
        Some(i) => {
            assert(db@.pages[i as int].id == page_id@);
        },
        None => {
            return Err(AppError::NotFound);
        },
    }
    let ghost all = db@.page_revisions;
    let ghost keep = owned_by_page(page_id@);
    let mut oldest_first: Vec<usize> = Vec::new();
    let mut i: usize = 0;
    proof {
        lemma_prefix_full(all);
        reveal(Seq::filter);
    }
    while i < db.page_revisions.len()
        invariant
            i <= db.page_revisions.len(),
            all == views(db.page_revisions@),
            keep == owned_by_page(page_id@),
            oldest_first@.len() == all.subrange(0, i as int).filter(keep).len(),
            forall|k: int|
                0 <= k < oldest_first@.len() ==> (#[trigger] oldest_first@[k])
                    < db.page_revisions.len() && all[oldest_first@[k] as int] == all.subrange(
                    0,
                    i as int,
                ).filter(keep)[k],
        decreases db.page_revisions.len() - i,
    {
        proof {
            lemma_filter_step(all, i as int, keep);
        }
        if str_eq(db.page_revisions[i].page_id.as_str(), page_id) {
            oldest_first.push(i);
        }
        i += 1;
    }
    proof {
        lemma_prefix_full(all);
    }
    let ghost owned = all.filter(keep);
    let mut revisions: Vec<PageRevision> = Vec::new();
    let mut k: usize = oldest_first.len();
    while k > 0
        invariant
            k <= oldest_first@.len(),
            all == views(db.page_revisions@),
            oldest_first@.len() == owned.len(),
            forall|j: int|
                0 <= j < oldest_first@.len() ==> (#[trigger] oldest_first@[j])
                    < db.page_revisions.len() && all[oldest_first@[j] as int] == owned[j],
            revisions@.len() == owned.len() - k,
            forall|j: int|
                0 <= j < revisions@.len() ==> (#[trigger] revisions@[j])@ == owned[owned.len() - 1
                    - j],
        decreases k,
    {
        k -= 1;
        revisions.push(db.page_revisions[oldest_first[k]].duplicate());
    }
    assert(views(revisions@) =~= owned.reverse());
    Ok(revisions)
}

/// Whether the revision `revision_id` exists and belongs to `page_id`.
pub open spec fn has_owned_page_revision(
    revisions: Seq<PageRevisionView>,
    revision_id: Seq<char>,
    page_id: Seq<char>,
) -> bool {
    exists|i: int|
        0 <= i < revisions.len() && (#[trigger] revisions[i]).id == revision_id
            && revisions[i].page_id == page_id
}

/// Position of the revision `revision_id` of `page_id`, where there is one.
pub open spec fn owned_page_revision_pos(
    revisions: Seq<PageRevisionView>,
    revision_id: Seq<char>,
    page_id: Seq<char>,
) -> int {
    choose|i: int|
        0 <= i < revisions.len() && (#[trigger] revisions[i]).id == revision_id
            && revisions[i].page_id == page_id
}

/// The update that brings a revision's title and content back and leaves
/// slug, status, publication time and categories as they are.
pub open spec fn page_revision_as_update(revision: PageRevisionView) -> UpdatePageView {
    UpdatePageView {
        title: Some(revision.title),
        slug: None,
        content: Some(revision.content),
        status: None,
        publish_at: None,
        category_ids: None,
    }
}

/// Brings the page `page_id` back to the title and content of its revision
/// `revision_id`, by an update that itself appends a revision: history
/// only grows. `NotFound`, with the store unchanged, if that revision
/// does not exist or belongs to another page; else all that
/// [`update_page`] does on the update made of the revision.
pub fn restore_revision(db: &mut Database, page_id: &str, revision_id: &str, user_id: &str) -> (r:
    AppResult<Page>)
    requires
        old(db)@.wf(),
    ensures
        final(db)@.wf(),
        if has_owned_page_revision(old(db)@.page_revisions, revision_id@, page_id@) {
            update_page_outcome(
                old(db)@,
                page_id@,
                page_revision_as_update(
                    old(db)@.page_revisions[owned_page_revision_pos(
                        old(db)@.page_revisions,
                        revision_id@,
                        page_id@,
                    )],
                ),
                user_id@,
                final(db)@,
                r,
            )
        } else {
            &&& r is Err
            &&& r->Err_0@ == AppErrorView::NotFound
            &&& final(db)@ == old(db)@
        },
{
    let ghost all = db@.page_revisions;
    let found = find_page_revision(&db.page_revisions, revision_id);
    let pos = match found {
        Some(i) => i,
        None => {
            return Err(AppError::NotFound);
        },
    };
    if !str_eq(db.page_revisions[pos].page_id.as_str(), page_id) {
        proof {
            assert forall|j: int|
                0 <= j < all.len() && (#[trigger] all[j]).id == revision_id@ implies all[j].page_id
                != page_id@ by {
                if j != pos as int {
                    assert(all[j].id != all[pos as int].id);
                }
            }
        }
        return Err(AppError::NotFound);
    }
    proof {
        assert(all[pos as int].id == revision_id@ && all[pos as int].page_id == page_id@);
        let chosen = owned_page_revision_pos(all, revision_id@, page_id@);
        if chosen != pos as int {
            assert(all[chosen].id != all[pos as int].id);
        }
    }
    let input = UpdatePage {
        title: Some(db.page_revisions[pos].title.clone()),
        slug: None,
        content: Some(db.page_revisions[pos].content.clone()),
        status: None,
        publish_at: None,
        category_ids: None,
    };
    update_page(db, page_id, input, user_id)
}

// ─── Sweeps ──────────────────────────────────────────────────────────────────

/// Publishes a page that is due at `clock` and leaves any other as it is.
pub open spec fn promoted_page(clock: i64) -> spec_fn(PageView) -> PageView {
    |page: PageView|
        if due_for_publication(page.status, page.publish_at, clock) {
            published_page(page, clock)
        } else {
            page
        }
}

/// Selects the pages that are not to be erased at `clock`.
pub open spec fn page_is_kept(clock: i64) -> spec_fn(PageView) -> bool {
    |page: PageView| !expired_trash(page.status, page.trashed_at, clock)
}

/// Selects the revisions whose page is in `pages`.
pub open spec fn revision_has_page(pages: Seq<PageView>) -> spec_fn(PageRevisionView) -> bool {
    |revision: PageRevisionView| has_page(pages, revision.page_id)
}

/// Selects the category links whose owner is in `pages`.
pub open spec fn link_has_page(pages: Seq<PageView>) -> spec_fn(CategoryLinkView) -> bool {
    |link: CategoryLinkView| has_page(pages, link.owner_id)
}

/// The store after every due page was published.
pub open spec fn after_publish_due_pages(db: DatabaseView) -> DatabaseView {
    DatabaseView { pages: db.pages.map_values(promoted_page(db.clock)), ..db }
}

/// The store after every expired page was erased, with its revisions and
/// its category links.
pub open spec fn after_purge_pages(db: DatabaseView) -> DatabaseView {
    let kept = db.pages.filter(page_is_kept(db.clock));
    DatabaseView {
        pages: kept,
        page_revisions: db.page_revisions.filter(revision_has_page(kept)),
        page_categories: db.page_categories.filter(link_has_page(kept)),
        ..db
    }
}

/// Publishing the due pages keeps the table well-formed and keeps every
/// id in it.
pub proof fn lemma_promote_pages(pages: Seq<PageView>, clock: i64)
    requires
        pages_wf(pages, clock),
    ensures
        pages_wf(pages.map_values(promoted_page(clock)), clock),
        forall|id: Seq<char>|
            has_page(pages, id) ==> has_page(pages.map_values(promoted_page(clock)), id),
{
    let after = pages.map_values(promoted_page(clock));
    assert forall|i: int, j: int|
        0 <= i < after.len() && 0 <= j < after.len() && i != j implies (#[trigger] after[i]).id != (
        #[trigger] after[j]).id by {
        assert(pages[i].id != pages[j].id);
    }
    assert forall|i: int, j: int|
        0 <= i < after.len() && 0 <= j < after.len() && i != j implies (#[trigger] after[i]).slug
        != (#[trigger] after[j]).slug by {
        assert(pages[i].slug != pages[j].slug);
    }
    assert forall|i: int| 0 <= i < after.len() implies (#[trigger] after[i]).created_at
        <= after[i].updated_at <= clock by {
        assert(pages[i].created_at <= pages[i].updated_at <= clock);
    }
    assert forall|id: Seq<char>| has_page(pages, id) implies has_page(after, id) by {
        let k = page_pos(pages, id);
        assert(after[k].id == id);
    }
}

/// A selection of a well-formed table of pages is well-formed, holds only
/// pages of the table, and holds every page of the table that is selected.
pub proof fn lemma_filter_pages(pages: Seq<PageView>, clock: i64, keep: spec_fn(PageView) -> bool)
    requires
        pages_wf(pages, clock),
    ensures
        pages_wf(pages.filter(keep), clock),
        forall|k: int|
            0 <= k < pages.filter(keep).len() ==> pages.contains(#[trigger] pages.filter(keep)[k])
                && keep(pages.filter(keep)[k]),
        forall|j: int|
            0 <= j < pages.len() && keep(pages[j]) ==> has_page(
                pages.filter(keep),
                (#[trigger] pages[j]).id,
            ),
    decreases pages.len(),
{
    reveal(Seq::filter);
    let kept = pages.filter(keep);
    if pages.len() > 0 {
        let init = pages.drop_last();
        let last = pages.last();
        assert(pages_wf(init, clock)) by {
            assert forall|i: int, j: int|
                0 <= i < init.len() && 0 <= j < init.len() && i != j implies (#[trigger] init[i]).id
                != (#[trigger] init[j]).id by {
                assert(pages[i].id != pages[j].id);
            }
            assert forall|i: int, j: int|
                0 <= i < init.len() && 0 <= j < init.len() && i != j implies (
            #[trigger] init[i]).slug != (#[trigger] init[j]).slug by {
                assert(pages[i].slug != pages[j].slug);
            }
            assert forall|i: int| 0 <= i < init.len() implies (#[trigger] init[i]).created_at
                <= init[i].updated_at <= clock by {
                assert(pages[i].created_at <= pages[i].updated_at <= clock);
            }
        }
        lemma_filter_pages(init, clock, keep);
        let before = init.filter(keep);
        assert forall|k: int| 0 <= k < before.len() implies pages.contains(#[trigger] before[k])
            && before[k].id != last.id && before[k].slug != last.slug by {
            assert(init.contains(before[k]));
            let m = choose|m: int| 0 <= m < init.len() && init[m] == before[k];
            assert(pages[m] == before[k]);
            assert(pages[m].id != pages[pages.len() - 1].id);
            assert(pages[m].slug != pages[pages.len() - 1].slug);
        }
        assert(pages[pages.len() - 1] == last);
        assert forall|k: int| 0 <= k < kept.len() implies pages.contains(#[trigger] kept[k])
            && keep(kept[k]) by {
            if k < before.len() {
                assert(kept[k] == before[k]);
            }
        }
        assert forall|i: int, j: int|
            0 <= i < kept.len() && 0 <= j < kept.len() && i != j implies (#[trigger] kept[i]).id != (
            #[trigger] kept[j]).id by {
            if i < before.len() && j < before.len() {
                assert(before[i].id != before[j].id);
            }
        }
        assert forall|i: int, j: int|
            0 <= i < kept.len() && 0 <= j < kept.len() && i != j implies (#[trigger] kept[i]).slug
            != (#[trigger] kept[j]).slug by {
            if i < before.len() && j < before.len() {
                assert(before[i].slug != before[j].slug);
            }
        }
        assert forall|i: int| 0 <= i < kept.len() implies (#[trigger] kept[i]).created_at
            <= kept[i].updated_at <= clock by {
            assert(pages.contains(kept[i]));
            let m = choose|m: int| 0 <= m < pages.len() && pages[m] == kept[i];
            assert(pages[m].created_at <= pages[m].updated_at <= clock);
        }
        assert forall|j: int| 0 <= j < pages.len() && keep(pages[j]) implies has_page(
            kept,
            (#[trigger] pages[j]).id,
        ) by {
            if j < init.len() {
                assert(init[j] == pages[j]);
                assert(has_page(before, init[j].id));
                let k = page_pos(before, init[j].id);
                assert(kept[k].id == pages[j].id);
            } else {
                assert(kept[kept.len() - 1].id == pages[j].id);
            }
        }
    }
}

/// A selection of well-formed revisions, each with its page in `kept`, is
/// well-formed over `kept`: it keeps the order of the revisions, oldest
/// first, and holds only revisions of the list it was selected from.
pub proof fn lemma_filter_page_revisions(
    revisions: Seq<PageRevisionView>,
    pages: Seq<PageView>,
    kept: Seq<PageView>,
    clock: i64,
    keep: spec_fn(PageRevisionView) -> bool,
)
    requires
        page_revisions_wf(revisions, pages, clock),
        forall|i: int|
            0 <= i < revisions.len() && keep(#[trigger] revisions[i]) ==> has_page(
                kept,
                revisions[i].page_id,
            ),
    ensures
        page_revisions_wf(revisions.filter(keep), kept, clock),
        forall|k: int|
            0 <= k < revisions.filter(keep).len() ==> revisions.contains(
                #[trigger] revisions.filter(keep)[k],
            ),
    decreases revisions.len(),
{
    reveal(Seq::filter);
    let chosen = revisions.filter(keep);
    if revisions.len() > 0 {
        let init = revisions.drop_last();
        let last = revisions.last();
        assert(page_revisions_wf(init, pages, clock)) by {
            assert forall|i: int, j: int|
                0 <= i < init.len() && 0 <= j < init.len() && i != j implies (#[trigger] init[i]).id
                != (#[trigger] init[j]).id by {
                assert(revisions[i].id != revisions[j].id);
            }
            assert forall|i: int| 0 <= i < init.len() implies has_page(
                pages,
                (#[trigger] init[i]).page_id,
            ) by {
                assert(has_page(pages, revisions[i].page_id));
            }
            assert forall|i: int| 0 <= i < init.len() implies (#[trigger] init[i]).created_at
                <= clock by {
                assert(revisions[i].created_at <= clock);
            }
            assert forall|i: int, j: int| 0 <= i <= j < init.len() implies (
            #[trigger] init[i]).created_at <= (#[trigger] init[j]).created_at by {
                assert(revisions[i].created_at <= revisions[j].created_at);
            }
        }
        assert forall|i: int| 0 <= i < init.len() && keep(#[trigger] init[i]) implies has_page(
            kept,
            init[i].page_id,
        ) by {
            assert(init[i] == revisions[i]);
        }
        lemma_filter_page_revisions(init, pages, kept, clock, keep);
        let before = init.filter(keep);
        assert(revisions[revisions.len() - 1] == last);
        assert forall|k: int| 0 <= k < before.len() implies revisions.contains(
            #[trigger] before[k],
        ) && before[k].id != last.id && before[k].created_at <= last.created_at by {
            assert(init.contains(before[k]));
            let m = choose|m: int| 0 <= m < init.len() && init[m] == before[k];
            assert(revisions[m] == before[k]);
            assert(revisions[m].id != revisions[revisions.len() - 1].id);
            assert(revisions[m].created_at <= revisions[revisions.len() - 1].created_at);
        }
        assert forall|k: int| 0 <= k < chosen.len() implies revisions.contains(
            #[trigger] chosen[k],
        ) by {
            if k < before.len() {
                assert(chosen[k] == before[k]);
            }
        }
        assert forall|i: int, j: int|
            0 <= i < chosen.len() && 0 <= j < chosen.len() && i != j implies (
        #[trigger] chosen[i]).id != (#[trigger] chosen[j]).id by {
            if i < before.len() && j < before.len() {
                assert(before[i].id != before[j].id);
            }
        }
        assert forall|i: int| 0 <= i < chosen.len() implies has_page(
            kept,
            (#[trigger] chosen[i]).page_id,
        ) by {
            if i < before.len() {
                assert(has_page(kept, before[i].page_id));
            } else {
                assert(keep(last));
            }
        }
        assert forall|i: int| 0 <= i < chosen.len() implies (#[trigger] chosen[i]).created_at
            <= clock by {
            assert(revisions.contains(chosen[i]));
            let m = choose|m: int| 0 <= m < revisions.len() && revisions[m] == chosen[i];
            assert(revisions[m].created_at <= clock);
        }
        assert forall|i: int, j: int| 0 <= i <= j < chosen.len() implies (
        #[trigger] chosen[i]).created_at <= (#[trigger] chosen[j]).created_at by {
            if j < before.len() {
                assert(before[i].created_at <= before[j].created_at);
            } else if i < before.len() {
                assert(before[i].created_at <= last.created_at);
            }
        }
    }
}

/// How many pages of `pages` are due for publication at `clock`.
pub open spec fn due_page_count(pages: Seq<PageView>, clock: i64) -> nat {
    pages.filter(|page: PageView| due_for_publication(page.status, page.publish_at, clock)).len()
}

/// Publishes every page that is scheduled and whose publication time has
/// come, and returns how many there were.
pub fn publish_due_pages(db: &mut Database) -> (published: u64)
    requires
        old(db)@.wf(),
    ensures
        final(db)@.wf(),
        final(db)@ == after_publish_due_pages(old(db)@),
        published == due_page_count(old(db)@.pages, old(db)@.clock),
{
    let ghost before = db@;
    let ghost due = |page: PageView| due_for_publication(page.status, page.publish_at, before.clock);
    let now = db.clock;
    let mut pages: Vec<Page> = Vec::new();
    let mut published: usize = 0;
    let mut i: usize = 0;
    proof {
        lemma_prefix_full(before.pages);
        reveal(Seq::filter);
    }
    while i < db.pages.len()
        invariant
            i <= db.pages.len(),
            before == db@,
            now == before.clock,
            due == (|page: PageView|
                due_for_publication(page.status, page.publish_at, before.clock)),
            pages@.len() == i,
            forall|k: int|
                0 <= k < i ==> (#[trigger] pages@[k])@ == promoted_page(now)(before.pages[k]),
            published == before.pages.subrange(0, i as int).filter(due).len(),
            published <= i,
        decreases db.pages.len() - i,
    {
        proof {
            lemma_filter_step(before.pages, i as int, due);
        }
        let mut page = db.pages[i].duplicate();
        if is_due_for_publication(page.status.as_str(), page.publish_at, now) {
            page.status = String::from_str("published");
            page.updated_at = now;
            published += 1;
        }
        pages.push(page);
        i += 1;
    }
    proof {
        lemma_prefix_full(before.pages);
        assert(views(pages@) =~= before.pages.map_values(promoted_page(now)));
        lemma_promote_pages(before.pages, before.clock);
        lemma_page_revisions_follow(
            before.page_revisions,
            before.pages,
            before.pages.map_values(promoted_page(now)),
            before.clock,
        );
    }
    db.pages = pages;
    published as u64
}

/// Erases for good every page that is trashed and was trashed more than
/// the retention period ago, together with its revisions and its category
/// links, and returns how many pages were erased. Every other page, and
/// all that belongs to it, stays as it is.
pub fn purge_expired_pages(db: &mut Database) -> (erased: u64)
    requires
        old(db)@.wf(),
    ensures
        final(db)@.wf(),
        final(db)@ == after_purge_pages(old(db)@),
        erased == old(db)@.pages.len() - final(db)@.pages.len(),
{
    let ghost before = db@;
    let ghost keep = page_is_kept(before.clock);
    let now = db.clock;
    let mut pages: Vec<Page> = Vec::new();
    let mut i: usize = 0;
    proof {
        lemma_prefix_full(before.pages);
        reveal(Seq::filter);
    }
    while i < db.pages.len()
        invariant
            i <= db.pages.len(),
            before == db@,
            now == before.clock,
            keep == page_is_kept(before.clock),
            views(pages@) == before.pages.subrange(0, i as int).filter(keep),
            pages@.len() <= i,
        decreases db.pages.len() - i,
    {
        proof {
            lemma_filter_step(before.pages, i as int, keep);
        }
        if !is_expired_trash(db.pages[i].status.as_str(), db.pages[i].trashed_at, now) {
            let page = db.pages[i].duplicate();
            proof {
                lemma_views_push(pages@, page);
            }
            pages.push(page);
        }
        i += 1;
    }
    proof {
        lemma_prefix_full(before.pages);
    }
    let ghost kept = views(pages@);
    let ghost keep_revision = revision_has_page(kept);
    let mut revisions: Vec<PageRevision> = Vec::new();
    let mut j: usize = 0;
    proof {
        lemma_prefix_full(before.page_revisions);
    }
    while j < db.page_revisions.len()
        invariant
            j <= db.page_revisions.len(),
            before == db@,
            kept == views(pages@),
            keep_revision == revision_has_page(kept),
            views(revisions@) == before.page_revisions.subrange(0, j as int).filter(
                keep_revision,
            ),
        decreases db.page_revisions.len() - j,
    {
        proof {
            lemma_filter_step(before.page_revisions, j as int, keep_revision);
        }
        match find_page(&pages, db.page_revisions[j].page_id.as_str()) {
            Some(at) => {
                assert(kept[at as int].id == before.page_revisions[j as int].page_id);
                let revision = db.page_revisions[j].duplicate();
                proof {
                    lemma_views_push(revisions@, revision);
                }
                revisions.push(revision);
            },
            None => {},
        }
        j += 1;
    }
    let ghost keep_link = link_has_page(kept);
    let mut links: Vec<CategoryLink> = Vec::new();
    let mut k: usize = 0;
    proof {
        lemma_prefix_full(before.page_revisions);
        lemma_prefix_full(before.page_categories);
    }
    while k < db.page_categories.len()
        invariant
            k <= db.page_categories.len(),
            before == db@,
            kept == views(pages@),
            keep_link == link_has_page(kept),
            views(links@) == before.page_categories.subrange(0, k as int).filter(keep_link),
        decreases db.page_categories.len() - k,
    {
        proof {
            lemma_filter_step(before.page_categories, k as int, keep_link);
        }
        match find_page(&pages, db.page_categories[k].owner_id.as_str()) {
            Some(at) => {
                assert(kept[at as int].id == before.page_categories[k as int].owner_id);
                let link = CategoryLink {
                    owner_id: db.page_categories[k].owner_id.clone(),
                    category_id: db.page_categories[k].category_id.clone(),
                };
                proof {
                    lemma_views_push(links@, link);
                }
                links.push(link);
            },
            None => {},
        }
        k += 1;
    }
    proof {
        lemma_prefix_full(before.page_categories);
        lemma_filter_pages(before.pages, before.clock, keep);
        lemma_filter_page_revisions(
            before.page_revisions,
            before.pages,
            kept,
            before.clock,
            keep_revision,
        );
    }
    let erased = db.pages.len() - pages.len();
    db.pages = pages;
    db.page_revisions = revisions;
    db.page_categories = links;
    erased as u64
}

// ─── Laws ────────────────────────────────────────────────────────────────────

/// In a well-formed store no page was updated before it was created. Every
/// operation of this crate keeps the store well-formed, so this holds
/// after any mutation.
pub proof fn lemma_page_updated_after_created(db: DatabaseView, i: int)
    requires
        db.wf(),
        0 <= i < db.pages.len(),
    ensures
        db.pages[i].created_at <= db.pages[i].updated_at <= db.clock,
{
}

/// In a well-formed store no two pages hold the same slug.
pub proof fn lemma_page_slugs_are_unique(db: DatabaseView, i: int, j: int)
    requires
        db.wf(),
        0 <= i < db.pages.len(),
        0 <= j < db.pages.len(),
        db.pages[i].slug == db.pages[j].slug,
    ensures
        i == j,
{
}

/// The history of a page, as it is listed, stands newest first.
pub proof fn lemma_page_history_newest_first(db: DatabaseView, page_id: Seq<char>, a: int, b: int)
    requires
        db.wf(),
        0 <= a <= b < revisions_of_page(db.page_revisions, page_id).len(),
    ensures
        revisions_of_page(db.page_revisions, page_id).reverse().len() == revisions_of_page(
            db.page_revisions,
            page_id,
        ).len(),
        revisions_of_page(db.page_revisions, page_id).reverse()[a].created_at
            >= revisions_of_page(db.page_revisions, page_id).reverse()[b].created_at,
        revisions_of_page(db.page_revisions, page_id).reverse()[a].page_id == page_id,
{
    let keep = owned_by_page(page_id);
    let history = db.page_revisions.filter(keep);
    assert forall|i: int|
        0 <= i < db.page_revisions.len() && keep(#[trigger] db.page_revisions[i]) implies has_page(
        db.pages,
        db.page_revisions[i].page_id,
    ) by {}
    lemma_filter_page_revisions(db.page_revisions, db.pages, db.pages, db.clock, keep);
    let n = history.len();
    assert(history.reverse()[a] == history[n - 1 - a]);
    assert(history.reverse()[b] == history[n - 1 - b]);
    assert(history[n - 1 - b].created_at <= history[n - 1 - a].created_at);
    db.page_revisions.lemma_filter_pred(keep, n - 1 - a);
}

/// One more revision in the table never takes a revision from any page,
/// and gives exactly one to the page it belongs to.
pub proof fn lemma_page_revisions_grow(
    revisions: Seq<PageRevisionView>,
    revision: PageRevisionView,
    page_id: Seq<char>,
)
    ensures
        revisions_of_page(revisions.push(revision), page_id) == if revision.page_id == page_id {
            revisions_of_page(revisions, page_id).push(revision)
        } else {
            revisions_of_page(revisions, page_id)
        },
        revisions_of_page(revisions.push(revision), page_id).len() >= revisions_of_page(
            revisions,
            page_id,
        ).len(),
{
    reveal(Seq::filter);
    assert(revisions.push(revision).drop_last() =~= revisions);
}

/// Creating a page gives it exactly one revision, which holds its title and
/// content, and takes no revision from any other page.
pub proof fn lemma_create_page_seeds_history(
    db: DatabaseView,
    input: CreatePageView,
    author_id: Seq<char>,
    id: Seq<char>,
    revision_id: Seq<char>,
    audit_id: Seq<char>,
    other: Seq<char>,
)
    requires
        db.wf(),
        create_page_error(db, input, id, revision_id) is None,
    ensures
        revisions_of_page(
            after_create_page(db, input, author_id, id, revision_id, audit_id).page_revisions,
            id,
        ) == seq![
            page_snapshot(revision_id, new_page(input, author_id, id, db.clock), author_id, db.clock),
        ],
        other != id ==> revisions_of_page(
            after_create_page(db, input, author_id, id, revision_id, audit_id).page_revisions,
            other,
        ) == revisions_of_page(db.page_revisions, other),
{
    let page = new_page(input, author_id, id, db.clock);
    let snapshot = page_snapshot(revision_id, page, author_id, db.clock);
    lemma_page_revisions_grow(db.page_revisions, snapshot, id);
    lemma_page_revisions_grow(db.page_revisions, snapshot, other);
    let keep = owned_by_page(id);
    assert(forall|k: int|
        0 <= k < db.page_revisions.len() ==> !keep(#[trigger] db.page_revisions[k])) by {
        assert forall|k: int| 0 <= k < db.page_revisions.len() implies !keep(
            #[trigger] db.page_revisions[k],
        ) by {
            assert(has_page(db.pages, db.page_revisions[k].page_id));
        }
    }
    db.page_revisions.lemma_all_neg_filter_empty(keep);
    assert(revisions_of_page(db.page_revisions, id).push(snapshot) =~= seq![snapshot]);
}

/// Updating a page appends exactly one revision to its history, which
/// holds the merged title and content, and leaves the history of every
/// other page as it is.
pub proof fn lemma_update_page_appends_revision(
    db: DatabaseView,
    id: Seq<char>,
    input: UpdatePageView,
    user_id: Seq<char>,
    revision_id: Seq<char>,
    audit_id: Seq<char>,
    other: Seq<char>,
)
    requires
        db.wf(),
        update_page_error(db, id, input, revision_id) is None,
    ensures
        revisions_of_page(
            after_update_page(db, id, input, user_id, revision_id, audit_id).page_revisions,
            id,
        ) == revisions_of_page(db.page_revisions, id).push(
            page_snapshot(
                revision_id,
                merged_page(db.pages[page_pos(db.pages, id)], input, db.clock),
                user_id,
                db.clock,
            ),
        ),
        other != id ==> revisions_of_page(
            after_update_page(db, id, input, user_id, revision_id, audit_id).page_revisions,
            other,
        ) == revisions_of_page(db.page_revisions, other),
{
    let merged = merged_page(db.pages[page_pos(db.pages, id)], input, db.clock);
    let snapshot = page_snapshot(revision_id, merged, user_id, db.clock);
    lemma_page_revisions_grow(db.page_revisions, snapshot, id);
    lemma_page_revisions_grow(db.page_revisions, snapshot, other);
}

/// No update changes the id of a page, its author, the time of its
/// creation or the time at which it was trashed.
pub proof fn lemma_update_keeps_page_identity(existing: PageView, input: UpdatePageView, clock: i64)
    ensures
        merged_page(existing, input, clock).id == existing.id,
        merged_page(existing, input, clock).author_id == existing.author_id,
        merged_page(existing, input, clock).created_at == existing.created_at,
        merged_page(existing, input, clock).trashed_at == existing.trashed_at,
        merged_page(existing, input, clock).updated_at == clock,
{
}

/// An update that supplies only a title changes the title and the update
/// time of the page and nothing else of it.
pub proof fn lemma_title_only_update(existing: PageView, title: Seq<char>, clock: i64)
    ensures
        merged_page(
            existing,
            UpdatePageView {
                title: Some(title),
                slug: None,
                content: None,
                status: None,
                publish_at: None,
                category_ids: None,
            },
            clock,
        ) == (PageView { title, updated_at: clock, ..existing }),
{
}

/// Erasing the expired pages leaves the history of every page that stays
/// as it is.
pub proof fn lemma_purge_keeps_page_revisions(
    revisions: Seq<PageRevisionView>,
    kept: Seq<PageView>,
    page_id: Seq<char>,
)
    requires
        has_page(kept, page_id),
    ensures
        revisions_of_page(revisions.filter(revision_has_page(kept)), page_id) == revisions_of_page(
            revisions,
            page_id,
        ),
    decreases revisions.len(),
{
    reveal(Seq::filter);
    if revisions.len() > 0 {
        lemma_purge_keeps_page_revisions(revisions.drop_last(), kept, page_id);
        let chosen = revisions.drop_last().filter(revision_has_page(kept));
        if revision_has_page(kept)(revisions.last()) {
            assert(chosen.push(revisions.last()).drop_last() =~= chosen);
        }
    }
}

/// Trashing a page twice gives what trashing it once at the later time
/// gives: a trashed page whose time in the trash counts from the last call.
pub proof fn lemma_trash_page_twice(page: PageView, first: i64, second: i64)
    ensures
        trashed_page(trashed_page(page, first), second) == trashed_page(page, second),
        trashed_page(page, second).status == status_trashed(),
        trashed_page(page, second).trashed_at == Some(second),
{
}

/// A page just trashed can be restored, and a page just restored or
/// published cannot.
pub proof fn lemma_restore_needs_trash(page: PageView, clock: i64)
    ensures
        trashed_page(page, clock).status == status_trashed(),
        restored_page(page, clock).status != status_trashed(),
        published_page(page, clock).status != status_trashed(),
        restored_page(page, clock).trashed_at is None,
{
    lemma_status_names_differ();
}

/// Once a page is created, no second page can be created under the same
/// slug: of two creations whose slugs collide the second is rejected with
/// `Conflict`.
pub proof fn lemma_second_page_with_slug_conflicts(
    db: DatabaseView,
    first: CreatePageView,
    author_id: Seq<char>,
    id: Seq<char>,
    revision_id: Seq<char>,
    audit_id: Seq<char>,
    second: CreatePageView,
)
    requires
        resolved_slug(second.title, second.slug) == resolved_slug(first.title, first.slug),
    ensures
        create_page_rejection(
            after_create_page(db, first, author_id, id, revision_id, audit_id),
            second,
        ) == Some(
            AppErrorView::Conflict(
                slug_conflict_message(resolved_slug(first.title, first.slug)),
            ),
        ),
{
    let after = after_create_page(db, first, author_id, id, revision_id, audit_id);
    let slug = resolved_slug(first.title, first.slug);
    assert(after.pages[db.pages.len() as int].slug == slug);
}

/// Of two creations of a page under the same slug, with ids that are free
/// for the first, the first succeeds and the second is rejected with
/// `Conflict`; after them exactly one page holds the slug, and it has
/// exactly one revision.
pub proof fn lemma_two_page_creations_with_one_slug(
    db: DatabaseView,
    first: CreatePageView,
    second: CreatePageView,
    author_id: Seq<char>,
    id: Seq<char>,
    revision_id: Seq<char>,
    audit_id: Seq<char>,
    second_id: Seq<char>,
    second_revision_id: Seq<char>,
)
    requires
        db.wf(),
        slug_available(db.pages, resolved_slug(first.title, first.slug), None),
        !has_page(db.pages, id),
        !has_page_revision(db.page_revisions, revision_id),
        resolved_slug(second.title, second.slug) == resolved_slug(first.title, first.slug),
    ensures
        create_page_error(db, first, id, revision_id) is None,
        create_page_error(
            after_create_page(db, first, author_id, id, revision_id, audit_id),
            second,
            second_id,
            second_revision_id,
        ) == Some(
            AppErrorView::Conflict(
                slug_conflict_message(resolved_slug(first.title, first.slug)),
            ),
        ),
        after_create_page(db, first, author_id, id, revision_id, audit_id).pages.len()
            == db.pages.len() + 1,
        forall|i: int|
            0 <= i < db.pages.len() + 1 ==> ((#[trigger] after_create_page(
                db,
                first,
                author_id,
                id,
                revision_id,
                audit_id,
            ).pages[i]).slug == resolved_slug(first.title, first.slug) <==> i == db.pages.len()),
        revisions_of_page(
            after_create_page(db, first, author_id, id, revision_id, audit_id).page_revisions,
            id,
        ).len() == 1,
{
    let after = after_create_page(db, first, author_id, id, revision_id, audit_id);
    let slug = resolved_slug(first.title, first.slug);
    lemma_second_page_with_slug_conflicts(db, first, author_id, id, revision_id, audit_id, second);
    lemma_create_page_seeds_history(db, first, author_id, id, revision_id, audit_id, id);
    assert forall|i: int| 0 <= i < db.pages.len() + 1 implies ((#[trigger] after.pages[i]).slug
        == slug <==> i == db.pages.len()) by {
        if i < db.pages.len() {
            assert(db.pages[i].slug != slug);
        }
    }
}

/// A creation that names its slug takes the slug as given: where no page
/// holds it and the ids are free, the creation succeeds, the new page has
/// that slug and the title of the input, and every page that was there
/// stays, each under another slug.
pub proof fn lemma_create_page_with_explicit_slug(
    db: DatabaseView,
    input: CreatePageView,
    author_id: Seq<char>,
    id: Seq<char>,
    revision_id: Seq<char>,
    audit_id: Seq<char>,
    slug: Seq<char>,
)
    requires
        db.wf(),
        input.slug == Some(slug),
        slug_available(db.pages, slug, None),
        !has_page(db.pages, id),
        !has_page_revision(db.page_revisions, revision_id),
    ensures
        create_page_error(db, input, id, revision_id) is None,
        new_page(input, author_id, id, db.clock).slug == slug,
        new_page(input, author_id, id, db.clock).title == input.title,
        after_create_page(db, input, author_id, id, revision_id, audit_id).pages == db.pages.push(
            new_page(input, author_id, id, db.clock),
        ),
        after_create_page(db, input, author_id, id, revision_id, audit_id).wf(),
        forall|i: int| 0 <= i < db.pages.len() ==> (#[trigger] db.pages[i]).slug != slug,
{
    lemma_create_page_keeps_wf(db, input, author_id, id, revision_id, audit_id);
}

/// After the due pages were published none is due any more, and a page
/// that was due is now published.
pub proof fn lemma_no_page_due_after_sweep(db: DatabaseView, i: int)
    requires
        0 <= i < db.pages.len(),
    ensures
        !due_for_publication(
            after_publish_due_pages(db).pages[i].status,
            after_publish_due_pages(db).pages[i].publish_at,
            db.clock,
        ),
        due_for_publication(db.pages[i].status, db.pages[i].publish_at, db.clock)
            ==> after_publish_due_pages(db).pages[i] == published_page(db.pages[i], db.clock),
        !due_for_publication(db.pages[i].status, db.pages[i].publish_at, db.clock)
            ==> after_publish_due_pages(db).pages[i] == db.pages[i],
{
    lemma_status_names_differ();
}

/// What erasing the expired pages does to a single page: one that is
/// trashed for longer than the retention period is gone, any other stays
/// unchanged.
pub proof fn lemma_purge_pages_by_page(db: DatabaseView, i: int)
    requires
        db.wf(),
        0 <= i < db.pages.len(),
    ensures
        expired_trash(db.pages[i].status, db.pages[i].trashed_at, db.clock) ==> !has_page(
            after_purge_pages(db).pages,
            db.pages[i].id,
        ),
        !expired_trash(db.pages[i].status, db.pages[i].trashed_at, db.clock) ==> has_page(
            after_purge_pages(db).pages,
            db.pages[i].id,
        ) && after_purge_pages(db).pages[page_pos(after_purge_pages(db).pages, db.pages[i].id)]
            == db.pages[i],
{
    let keep = page_is_kept(db.clock);
    let kept = db.pages.filter(keep);
    lemma_filter_pages(db.pages, db.clock, keep);
    if has_page(kept, db.pages[i].id) {
        let k = page_pos(kept, db.pages[i].id);
        assert(db.pages.contains(kept[k]));
        let m = choose|m: int| 0 <= m < db.pages.len() && db.pages[m] == kept[k];
        if m != i {
            assert(db.pages[m].id != db.pages[i].id);
        }
        assert(keep(kept[k]));
    }
}

/// Creating a page keeps the store well-formed.
pub proof fn lemma_create_page_keeps_wf(
    db: DatabaseView,
    input: CreatePageView,
    author_id: Seq<char>,
    id: Seq<char>,
    revision_id: Seq<char>,
    audit_id: Seq<char>,
)
    requires
        db.wf(),
        create_page_error(db, input, id, revision_id) is None,
    ensures
        after_create_page(db, input, author_id, id, revision_id, audit_id).wf(),
{
    let page = new_page(input, author_id, id, db.clock);
    lemma_push_page(db.pages, db.clock, page);
    lemma_page_revisions_follow(db.page_revisions, db.pages, db.pages.push(page), db.clock);
    lemma_push_page_revision(
        db.page_revisions,
        db.pages.push(page),
        db.clock,
        page_snapshot(revision_id, page, author_id, db.clock),
    );
}

/// Updating a page keeps the store well-formed.
pub proof fn lemma_update_page_keeps_wf(
    db: DatabaseView,
    id: Seq<char>,
    input: UpdatePageView,
    user_id: Seq<char>,
    revision_id: Seq<char>,
    audit_id: Seq<char>,
)
    requires
        db.wf(),
        update_page_error(db, id, input, revision_id) is None,
    ensures
        after_update_page(db, id, input, user_id, revision_id, audit_id).wf(),
{
    let pos = page_pos(db.pages, id);
    let merged = merged_page(db.pages[pos], input, db.clock);
    lemma_replace_page(db.pages, db.clock, pos, merged);
    let pages = db.pages.update(pos, merged);
    lemma_page_revisions_follow(db.page_revisions, db.pages, pages, db.clock);
    assert(pages[pos].id == id);
    lemma_push_page_revision(
        db.page_revisions,
        pages,
        db.clock,
        page_snapshot(revision_id, merged, user_id, db.clock),
    );
}

/// Publishing, trashing and restoring a page keep the store well-formed.
pub proof fn lemma_page_transitions_keep_wf(
    db: DatabaseView,
    id: Seq<char>,
    user_id: Seq<char>,
    action: Seq<char>,
    audit_id: Seq<char>,
)
    requires
        db.wf(),
        has_page(db.pages, id),
    ensures
        after_page_transition(
            db,
            id,
            published_page(db.pages[page_pos(db.pages, id)], db.clock),
            user_id,
            action,
            audit_id,
        ).wf(),
        after_page_transition(
            db,
            id,
            trashed_page(db.pages[page_pos(db.pages, id)], db.clock),
            user_id,
            action,
            audit_id,
        ).wf(),
        after_page_transition(
            db,
            id,
            restored_page(db.pages[page_pos(db.pages, id)], db.clock),
            user_id,
            action,
            audit_id,
        ).wf(),
{
    let pos = page_pos(db.pages, id);
    let page = db.pages[pos];
    lemma_replace_page(db.pages, db.clock, pos, published_page(page, db.clock));
    lemma_replace_page(db.pages, db.clock, pos, trashed_page(page, db.clock));
    lemma_replace_page(db.pages, db.clock, pos, restored_page(page, db.clock));
    lemma_page_revisions_follow(
        db.page_revisions,
        db.pages,
        db.pages.update(pos, published_page(page, db.clock)),
        db.clock,
    );
    lemma_page_revisions_follow(
        db.page_revisions,
        db.pages,
        db.pages.update(pos, trashed_page(page, db.clock)),
        db.clock,
    );
    lemma_page_revisions_follow(
        db.page_revisions,
        db.pages,
        db.pages.update(pos, restored_page(page, db.clock)),
        db.clock,
    );
}

/// Publishing the due pages and erasing the expired ones keep the store
/// well-formed.
pub proof fn lemma_page_sweeps_keep_wf(db: DatabaseView)
    requires
        db.wf(),
    ensures
        after_publish_due_pages(db).wf(),
        after_purge_pages(db).wf(),
{
    lemma_promote_pages(db.pages, db.clock);
    lemma_page_revisions_follow(
        db.page_revisions,
        db.pages,
        db.pages.map_values(promoted_page(db.clock)),
        db.clock,
    );
    let kept = db.pages.filter(page_is_kept(db.clock));
    lemma_filter_pages(db.pages, db.clock, page_is_kept(db.clock));
    lemma_filter_page_revisions(
        db.page_revisions,
        db.pages,
        kept,
        db.clock,
        revision_has_page(kept),
    );
}

/// Erasing the expired pages a second time right after the first finds
/// nothing to erase.
pub proof fn lemma_purge_pages_twice(db: DatabaseView)
    requires
        db.wf(),
    ensures
        after_purge_pages(after_purge_pages(db)).pages == after_purge_pages(db).pages,
{
    let keep = page_is_kept(db.clock);
    let kept = db.pages.filter(keep);
    lemma_filter_pages(db.pages, db.clock, keep);
    lemma_filter_all(kept, keep);
}

// ─── Lists ───────────────────────────────────────────────────────────────────

/// Selects the pages that a list shows: those with the status asked for,
/// or, where none is asked for, all that are not trashed.
pub open spec fn listed_page(filter: Option<Seq<char>>) -> spec_fn(PageView) -> bool {
    |page: PageView|
        match filter {
            Some(status) => page.status == status,
            None => page.status != status_trashed(),
        }
}

/// The update times of a list of pages.
pub open spec fn page_update_times(pages: Seq<PageView>) -> Seq<i64> {
    pages.map_values(|page: PageView| page.updated_at)
}

/// A list of pages with the page updated last in front; pages updated at
/// the same time stay in their order.
pub open spec fn pages_latest_first(pages: Seq<PageView>) -> Seq<PageView> {
    arranged(pages, descending_order(page_update_times(pages)))
}

/// One page of the list of pages with a given status, or of all pages that
/// are not trashed, with the page updated last in front.
pub fn list_pages(db: &Database, params: &PaginationParams, status_filter: Option<&str>) -> (r:
    AppResult<PaginatedResponse<Page>>)
    requires
        db@.wf(),
    ensures
        r is Ok,
        views(r->Ok_0.data@) == window(
            pages_latest_first(db@.pages.filter(listed_page(opt_str_view(status_filter)))),
            params.skipped_spec(),
            params.per_page_spec() as int,
        ),
        r->Ok_0.total == row_count(
            db@.pages.filter(listed_page(opt_str_view(status_filter))).len(),
        ),
        r->Ok_0.page == params.page_number_spec(),
        r->Ok_0.per_page == params.per_page_spec(),
{
    let ghost all = db@.pages;
    let ghost keep = listed_page(opt_str_view(status_filter));
    let mut picked: Vec<usize> = Vec::new();
    let mut keys: Vec<i64> = Vec::new();
    let mut i: usize = 0;
    proof {
        lemma_prefix_full(all);
        reveal(Seq::filter);
    }
    while i < db.pages.len()
        invariant
            i <= db.pages.len(),
            all == views(db.pages@),
            keep == listed_page(opt_str_view(status_filter)),
            picked@.len() == all.subrange(0, i as int).filter(keep).len(),
            keys@ == page_update_times(all.subrange(0, i as int).filter(keep)),
            forall|k: int|
                0 <= k < picked@.len() ==> (#[trigger] picked@[k]) < db.pages.len()
                    && all[picked@[k] as int] == all.subrange(0, i as int).filter(keep)[k],
        decreases db.pages.len() - i,
    {
        proof {
            lemma_filter_step(all, i as int, keep);
        }
        let shown = match status_filter {
            Some(status) => str_eq(db.pages[i].status.as_str(), status),
            None => !str_eq(db.pages[i].status.as_str(), "trashed"),
        };
        if shown {
            proof {
                let before = all.subrange(0, i as int).filter(keep);
                assert(page_update_times(before.push(all[i as int])) =~= page_update_times(
                    before,
                ).push(all[i as int].updated_at));
            }
            picked.push(i);
            keys.push(db.pages[i].updated_at);
        }
        i += 1;
    }
    proof {
        lemma_prefix_full(all);
    }
    let ghost selected = all.filter(keep);
    let order = sort_descending(&keys);
    let ghost sorted = pages_latest_first(selected);
    let (from, to) = window_bounds(order.len(), params.skipped(), params.per_page());
    let mut data: Vec<Page> = Vec::new();
    let mut k: usize = from;
    while k < to
        invariant
            from <= k <= to <= order@.len(),
            all == views(db.pages@),
            order@.len() == selected.len(),
            picked@.len() == selected.len(),
            sorted == arranged(selected, positions(order@)),
            forall|j: int| 0 <= j < order@.len() ==> 0 <= (#[trigger] positions(order@)[j])
                < selected.len(),
            forall|j: int|
                0 <= j < picked@.len() ==> (#[trigger] picked@[j]) < db.pages.len()
                    && all[picked@[j] as int] == selected[j],
            data@.len() == k - from,
            forall|j: int| 0 <= j < data@.len() ==> (#[trigger] data@[j])@ == sorted[from + j],
        decreases to - k,
    {
        proof {
            assert(positions(order@)[k as int] == order@[k as int] as int);
        }
        let at = picked[order[k]];
        data.push(db.pages[at].duplicate());
        k += 1;
    }
    assert(views(data@) =~= sorted.subrange(from as int, to as int));
    Ok(
        PaginatedResponse {
            data,
            total: count_rows(picked.len()),
            page: params.page_number(),
            per_page: params.per_page(),
        },
    )
}

/// A list with the latest update in front holds the pages of the list it
/// was made of, each once, and no page in it was updated after one that
/// stands before it.
pub proof fn lemma_pages_latest_first(pages: Seq<PageView>, a: int, b: int)
    requires
        0 <= a <= b < pages.len(),
    ensures
        pages_latest_first(pages).len() == pages.len(),
        pages_latest_first(pages)[a].updated_at >= pages_latest_first(pages)[b].updated_at,
        pages.contains(pages_latest_first(pages)[a]),
{
    crate::sorting::lemma_descending_order(page_update_times(pages));
    let order = descending_order(page_update_times(pages));
    assert(0 <= order[a] < pages.len());
    assert(0 <= order[b] < pages.len());
    if a < b {
        assert(page_update_times(pages)[order[a]] >= page_update_times(pages)[order[b]]);
    }
    assert(pages[order[a]] == pages_latest_first(pages)[a]);
}

/// Selects the pages that lie in the trash.
pub open spec fn page_in_trash() -> spec_fn(PageView) -> bool {
    |page: PageView| page.status == status_trashed()
}

/// The key by which the trash is ordered: the time at which a page was
/// trashed; a page without such a time counts as trashed before all
/// others.
pub open spec fn page_trash_times(pages: Seq<PageView>) -> Seq<i64> {
    pages.map_values(
        |page: PageView|
            match page.trashed_at {
                Some(at) => at,
                None => i64::MIN,
            },
    )
}

/// The pages in the trash, the page trashed last in front; pages trashed
/// at the same time stay in their order.
pub open spec fn trashed_pages(pages: Seq<PageView>) -> Seq<PageView> {
    arranged(
        pages.filter(page_in_trash()),
        descending_order(page_trash_times(pages.filter(page_in_trash()))),
    )
}

/// The pages that lie in the trash, the page trashed last in front.
pub fn list_trashed_pages(db: &Database) -> (r: Vec<Page>)
    requires
        db@.wf(),
    ensures
        views(r@) == trashed_pages(db@.pages),
{
    let ghost all = db@.pages;
    let ghost keep = page_in_trash();
    let mut picked: Vec<usize> = Vec::new();
    let mut keys: Vec<i64> = Vec::new();
    let mut i: usize = 0;
    proof {
        lemma_prefix_full(all);
        reveal(Seq::filter);
    }
    while i < db.pages.len()
        invariant
            i <= db.pages.len(),
            all == views(db.pages@),
            keep == page_in_trash(),
            picked@.len() == all.subrange(0, i as int).filter(keep).len(),
            keys@ == page_trash_times(all.subrange(0, i as int).filter(keep)),
            forall|k: int|
                0 <= k < picked@.len() ==> (#[trigger] picked@[k]) < db.pages.len()
                    && all[picked@[k] as int] == all.subrange(0, i as int).filter(keep)[k],
        decreases db.pages.len() - i,
    {
        proof {
            lemma_filter_step(all, i as int, keep);
        }
        if str_eq(db.pages[i].status.as_str(), "trashed") {
            let key = match db.pages[i].trashed_at {
                Some(at) => at,
                None => i64::MIN,
            };
            proof {
                let before = all.subrange(0, i as int).filter(keep);
                assert(page_trash_times(before.push(all[i as int])) =~= page_trash_times(
                    before,
                ).push(key));
            }
            picked.push(i);
            keys.push(key);
        }
        i += 1;
    }
    proof {
        lemma_prefix_full(all);
    }
    let ghost selected = all.filter(keep);
    let order = sort_descending(&keys);
    let ghost sorted = trashed_pages(all);
    let mut data: Vec<Page> = Vec::new();
    let mut k: usize = 0;
    while k < order.len()
        invariant
            k <= order@.len(),
            all == views(db.pages@),
            order@.len() == selected.len(),
            picked@.len() == selected.len(),
            sorted == arranged(selected, positions(order@)),
            forall|j: int| 0 <= j < order@.len() ==> 0 <= (#[trigger] positions(order@)[j])
                < selected.len(),
            forall|j: int|
                0 <= j < picked@.len() ==> (#[trigger] picked@[j]) < db.pages.len()
                    && all[picked@[j] as int] == selected[j],
            data@.len() == k,
            forall|j: int| 0 <= j < data@.len() ==> (#[trigger] data@[j])@ == sorted[j],
        decreases order@.len() - k,
    {
        proof {
            assert(positions(order@)[k as int] == order@[k as int] as int);
        }
        let at = picked[order[k]];
        data.push(db.pages[at].duplicate());
        k += 1;
    }
    assert(views(data@) =~= sorted);
    data
}

/// Publishing, trashing and restoring a page, and publishing the due
/// pages, leave every history as it is.
pub proof fn lemma_transitions_keep_page_revisions(
    db: DatabaseView,
    id: Seq<char>,
    page: PageView,
    user_id: Seq<char>,
    action: Seq<char>,
    audit_id: Seq<char>,
)
    ensures
        after_page_transition(db, id, page, user_id, action, audit_id).page_revisions
            == db.page_revisions,
        after_publish_due_pages(db).page_revisions == db.page_revisions,
{
}

} // verus!
