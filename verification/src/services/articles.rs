//! Articles: creation, partial update, the status transitions and the
//! revision history. An article is a page with a summary, a cover image and
//! a reading time that is derived from its content.

use vstd::prelude::*;
use vstd::string::*;
use crate::db::models::{
    Article, ArticleRevision, ArticleRevisionView, ArticleView, CategoryLink, CategoryLinkView,
    CreateArticle, CreateArticleView, PaginatedResponse, PaginationParams, UpdateArticle,
    UpdateArticleView, copy_opt_text, lemma_filter_all, lemma_filter_step, lemma_prefix_full,
    lemma_prefix_step, lemma_views_push, lemma_views_update, views,
};
use crate::db::{
    Database, DatabaseView, lemma_status_names_differ, status_draft, status_published,
    status_trashed,
};
use crate::error::{AppError, AppErrorView, AppResult};
use crate::ids::new_id;
use crate::policy::{
    can_restore, categories_of, due_for_publication, duplicate_key_message, expired_trash,
    is_due_for_publication, is_expired_trash, links_for, not_owned_by, opt_str_view, or_text,
    owned_by, replaced_links, resolve_slug, resolved_slug, slug_collides, text_or,
};
use crate::services::audit::{audit_entry, log_action, pair_views};
use crate::sorting::{
    arranged, count_rows, descending_order, positions, row_count, sort_descending, window,
    window_bounds,
};
use crate::text::{
    char_is_whitespace, chars_of, is_whitespace, lemma_word_count_bound, str_eq, word_count,
};

verus! {

// ─── The tables ──────────────────────────────────────────────────────────────

/// No two articles share an id or a slug, and every article was created no later
/// than it was last updated, which was no later than `clock`.
pub open spec fn articles_wf(articles: Seq<ArticleView>, clock: i64) -> bool {
    &&& forall|i: int, j: int|
        0 <= i < articles.len() && 0 <= j < articles.len() && i != j ==> (#[trigger] articles[i]).id != (
        #[trigger] articles[j]).id
    &&& forall|i: int, j: int|
        0 <= i < articles.len() && 0 <= j < articles.len() && i != j ==> (#[trigger] articles[i]).slug != (
        #[trigger] articles[j]).slug
    &&& forall|i: int|
        0 <= i < articles.len() ==> (#[trigger] articles[i]).created_at <= articles[i].updated_at
            <= clock
}

/// Whether some article has the id `id`.
pub open spec fn has_article(articles: Seq<ArticleView>, id: Seq<char>) -> bool {
    exists|i: int| 0 <= i < articles.len() && (#[trigger] articles[i]).id == id
}

/// Position of the article with the id `id`, where there is one.
pub open spec fn article_pos(articles: Seq<ArticleView>, id: Seq<char>) -> int {
    choose|i: int| 0 <= i < articles.len() && (#[trigger] articles[i]).id == id
}

/// No two revisions share an id, every revision belongs to an article of
/// `articles`, none is younger than `clock`, and they stand oldest first.
pub open spec fn article_revisions_wf(
    revisions: Seq<ArticleRevisionView>,
    articles: Seq<ArticleView>,
    clock: i64,
) -> bool {
    &&& forall|i: int, j: int|
        0 <= i < revisions.len() && 0 <= j < revisions.len() && i != j ==> (
        #[trigger] revisions[i]).id != (#[trigger] revisions[j]).id
    &&& forall|i: int|
        0 <= i < revisions.len() ==> has_article(articles, (#[trigger] revisions[i]).article_id)
    &&& forall|i: int| 0 <= i < revisions.len() ==> (#[trigger] revisions[i]).created_at <= clock
    &&& forall|i: int, j: int|
        0 <= i <= j < revisions.len() ==> (#[trigger] revisions[i]).created_at <= (
        #[trigger] revisions[j]).created_at
}

/// In a well-formed table the article with a given id stands at one position
/// only.
pub proof fn lemma_article_pos(articles: Seq<ArticleView>, clock: i64, id: Seq<char>, i: int)
    requires
        articles_wf(articles, clock),
        0 <= i < articles.len(),
        articles[i].id == id,
    ensures
        has_article(articles, id),
        article_pos(articles, id) == i,
{
    let k = article_pos(articles, id);
    assert(0 <= k < articles.len() && articles[k].id == id);
}

// ─── Rules ───────────────────────────────────────────────────────────────────

/// Whether `slug` is free: no article holds it but, possibly, the article with
/// the id `exclude`.
pub open spec fn slug_available(
    articles: Seq<ArticleView>,
    slug: Seq<char>,
    exclude: Option<Seq<char>>,
) -> bool {
    forall|i: int|
        0 <= i < articles.len() && (#[trigger] articles[i]).slug == slug ==> exclude == Some(
            articles[i].id,
        )
}

/// The reason given when an article's slug is taken.
pub open spec fn slug_conflict_message(slug: Seq<char>) -> Seq<char> {
    "An article with slug '"@ + slug + "' already exists"@
}

/// The reason given when an article that is not trashed is to be restored.
pub open spec fn not_trashed_message() -> Seq<char> {
    "Only trashed articles can be restored"@
}

/// Whether some revision has the id `id`.
pub open spec fn has_article_revision(revisions: Seq<ArticleRevisionView>, id: Seq<char>) -> bool {
    exists|i: int| 0 <= i < revisions.len() && (#[trigger] revisions[i]).id == id
}

/// The row of a new article.
pub open spec fn new_article(
    input: CreateArticleView,
    author_id: Seq<char>,
    id: Seq<char>,
    clock: i64,
) -> ArticleView {
    ArticleView {
        id,
        title: input.title,
        slug: resolved_slug(input.title, input.slug),
        short_text: or_text(input.short_text, Seq::empty()),
        content: or_text(input.content, Seq::empty()),
        status: or_text(input.status, status_draft()),
        publish_at: input.publish_at,
        author_id,
        created_at: clock,
        updated_at: clock,
        trashed_at: None,
        cover_image_id: input.cover_image_id,
        reading_time_minutes: reading_time_of(or_text(input.content, Seq::empty())),
    }
}

/// An article after a partial update: each field that the input supplies
/// replaces the article's, every other field stays.
pub open spec fn merged_article(existing: ArticleView, input: UpdateArticleView, clock: i64) -> ArticleView {
    ArticleView {
        title: or_text(input.title, existing.title),
        slug: or_text(input.slug, existing.slug),
        short_text: or_text(input.short_text, existing.short_text),
        content: or_text(input.content, existing.content),
        status: or_text(input.status, existing.status),
        publish_at: if input.publish_at is Some {
            input.publish_at
        } else {
            existing.publish_at
        },
        updated_at: clock,
        cover_image_id: if input.cover_image_id is Some {
            input.cover_image_id
        } else {
            existing.cover_image_id
        },
        reading_time_minutes: reading_time_of(or_text(input.content, existing.content)),
        ..existing
    }
}

/// An article after it was published.
pub open spec fn published_article(article: ArticleView, clock: i64) -> ArticleView {
    ArticleView { status: status_published(), updated_at: clock, ..article }
}

/// An article after it was moved to the trash.
pub open spec fn trashed_article(article: ArticleView, clock: i64) -> ArticleView {
    ArticleView { status: status_trashed(), trashed_at: Some(clock), updated_at: clock, ..article }
}

/// An article after it was taken back out of the trash.
pub open spec fn restored_article(article: ArticleView, clock: i64) -> ArticleView {
    ArticleView { status: status_draft(), trashed_at: None, updated_at: clock, ..article }
}

/// The snapshot of an article's title, summary and content.
pub open spec fn article_snapshot(
    revision_id: Seq<char>,
    article: ArticleView,
    author_id: Seq<char>,
    clock: i64,
) -> ArticleRevisionView {
    ArticleRevisionView {
        id: revision_id,
        article_id: article.id,
        title: article.title,
        short_text: article.short_text,
        content: article.content,
        author_id,
        created_at: clock,
    }
}

/// What the audit log keeps of a created or updated article.
pub open spec fn article_details(article: ArticleView) -> Seq<(Seq<char>, Seq<char>)> {
    seq![("title"@, article.title), ("slug"@, article.slug), ("status"@, article.status)]
}

/// Selects the revisions of one article.
pub open spec fn owned_by_article(article_id: Seq<char>) -> spec_fn(ArticleRevisionView) -> bool {
    |revision: ArticleRevisionView| revision.article_id == article_id
}

/// The revisions of the article `article_id`, oldest first.
pub open spec fn revisions_of_article(
    revisions: Seq<ArticleRevisionView>,
    article_id: Seq<char>,
) -> Seq<ArticleRevisionView> {
    revisions.filter(owned_by_article(article_id))
}

// ─── Lookups ─────────────────────────────────────────────────────────────────

/// Position of the first article with the id `id`.
pub fn find_article(articles: &Vec<Article>, id: &str) -> (r: Option<usize>)
    ensures
        match r {
            Some(i) => i < articles.len() && articles[i as int]@.id == id@ && forall|j: int|
                0 <= j < i ==> (#[trigger] views(articles@)[j]).id != id@,
            None => !has_article(views(articles@), id@),
        },
{
    let mut i: usize = 0;
    while i < articles.len()
        invariant
            i <= articles.len(),
            forall|j: int| 0 <= j < i ==> (#[trigger] views(articles@)[j]).id != id@,
        decreases articles.len() - i,
    {
        if str_eq(articles[i].id.as_str(), id) {
            return Some(i);
        }
        i += 1;
    }
    None
}

/// Position of the first article with the slug `slug`.
pub fn find_article_by_slug(articles: &Vec<Article>, slug: &str) -> (r: Option<usize>)
    ensures
        match r {
            Some(i) => i < articles.len() && articles[i as int]@.slug == slug@ && forall|j: int|
                0 <= j < i ==> (#[trigger] views(articles@)[j]).slug != slug@,
            None => forall|j: int|
                0 <= j < articles.len() ==> (#[trigger] views(articles@)[j]).slug != slug@,
        },
{
    let mut i: usize = 0;
    while i < articles.len()
        invariant
            i <= articles.len(),
            forall|j: int| 0 <= j < i ==> (#[trigger] views(articles@)[j]).slug != slug@,
        decreases articles.len() - i,
    {
        if str_eq(articles[i].slug.as_str(), slug) {
            return Some(i);
        }
        i += 1;
    }
    None
}

/// Position of the first revision with the id `id`.
pub fn find_article_revision(revisions: &Vec<ArticleRevision>, id: &str) -> (r: Option<usize>)
    ensures
        match r {
            Some(i) => i < revisions.len() && revisions[i as int]@.id == id@ && forall|j: int|
                0 <= j < i ==> (#[trigger] views(revisions@)[j]).id != id@,
            None => !has_article_revision(views(revisions@), id@),
        },
{
    let mut i: usize = 0;
    while i < revisions.len()
        invariant
            i <= revisions.len(),
            forall|j: int| 0 <= j < i ==> (#[trigger] views(revisions@)[j]).id != id@,
        decreases revisions.len() - i,
    {
        if str_eq(revisions[i].id.as_str(), id) {
            return Some(i);
        }
        i += 1;
    }
    None
}

// ─── Pure steps ──────────────────────────────────────────────────────────────

/// The row of a new article with the id `id`, created at `now`.
pub fn build_article(input: &CreateArticle, author_id: &str, id: String, now: i64) -> (article: Article)
    ensures
        article@ == new_article(input@, author_id@, id@, now),
{
    proof {
        reveal_strlit("");
        assert(""@ =~= Seq::<char>::empty());
    }
    let content = text_or(&input.content, "");
    let reading_time_minutes = estimate_reading_time(content.as_str());
    Article {
        id,
        title: input.title.clone(),
        slug: resolve_slug(input.title.as_str(), &input.slug),
        short_text: text_or(&input.short_text, ""),
        content,
        status: text_or(&input.status, "draft"),
        publish_at: input.publish_at,
        author_id: author_id.to_owned(),
        created_at: now,
        updated_at: now,
        trashed_at: None,
        cover_image_id: copy_opt_text(&input.cover_image_id),
        reading_time_minutes,
    }
}

/// Merges a partial update over an article: supplied fields replace, absent
/// fields keep their value; the article counts as updated at `now`.
pub fn merge_article(existing: &Article, input: &UpdateArticle, now: i64) -> (article: Article)
    ensures
        article@ == merged_article(existing@, input@, now),
{
    let content = text_or(&input.content, existing.content.as_str());
    let reading_time_minutes = estimate_reading_time(content.as_str());
    Article {
        id: existing.id.clone(),
        title: text_or(&input.title, existing.title.as_str()),
        slug: text_or(&input.slug, existing.slug.as_str()),
        short_text: text_or(&input.short_text, existing.short_text.as_str()),
        content,
        status: text_or(&input.status, existing.status.as_str()),
        publish_at: if input.publish_at.is_some() {
            input.publish_at
        } else {
            existing.publish_at
        },
        author_id: existing.author_id.clone(),
        created_at: existing.created_at,
        updated_at: now,
        trashed_at: existing.trashed_at,
        cover_image_id: if input.cover_image_id.is_some() {
            copy_opt_text(&input.cover_image_id)
        } else {
            copy_opt_text(&existing.cover_image_id)
        },
        reading_time_minutes,
    }
}

/// The error that reports that another article holds `slug`.
pub fn slug_conflict(slug: &str) -> (e: AppError)
    ensures
        e@ == AppErrorView::Conflict(slug_conflict_message(slug@)),
{
    AppError::Conflict(
        String::from_str("An article with slug '").concat(slug).concat("' already exists"),
    )
}

/// The error that reports that an article that is not trashed cannot be
/// restored.
pub fn not_trashed() -> (e: AppError)
    ensures
        e@ == AppErrorView::InvalidState(not_trashed_message()),
{
    AppError::InvalidState(String::from_str("Only trashed articles can be restored"))
}

/// The list of what the audit log keeps of a created or updated article.
pub fn article_detail_pairs(article: &Article) -> (pairs: Vec<(String, String)>)
    ensures
        pair_views(pairs@) == article_details(article@),
{
    let mut pairs: Vec<(String, String)> = Vec::new();
    pairs.push(("title".to_owned(), article.title.clone()));
    pairs.push(("slug".to_owned(), article.slug.clone()));
    pairs.push(("status".to_owned(), article.status.clone()));
    assert(pair_views(pairs@) =~= article_details(article@));
    pairs
}

// ─── Transitions of the store ─────────────────────────────────────────────────

/// Why the creation of an article is rejected, if it is: its slug is taken.
pub open spec fn create_article_rejection(db: DatabaseView, input: CreateArticleView) -> Option<
    AppErrorView,
> {
    let slug = resolved_slug(input.title, input.slug);
    if !slug_available(db.articles, slug, None) {
        Some(AppErrorView::Conflict(slug_conflict_message(slug)))
    } else {
        None
    }
}

/// Why the creation of an article under given ids fails, if it does: the
/// rejection above, or an id that is already in use.
pub open spec fn create_article_error(
    db: DatabaseView,
    input: CreateArticleView,
    id: Seq<char>,
    revision_id: Seq<char>,
) -> Option<AppErrorView> {
    if create_article_rejection(db, input) is Some {
        create_article_rejection(db, input)
    } else if has_article(db.articles, id) || has_article_revision(db.article_revisions, revision_id) {
        Some(AppErrorView::StorageFailure(duplicate_key_message()))
    } else {
        None
    }
}

/// The store after an article was created: the new row, its seed revision, its
/// category links and the audit entry.
pub open spec fn after_create_article(
    db: DatabaseView,
    input: CreateArticleView,
    author_id: Seq<char>,
    id: Seq<char>,
    revision_id: Seq<char>,
    audit_id: Seq<char>,
) -> DatabaseView {
    let article = new_article(input, author_id, id, db.clock);
    DatabaseView {
        articles: db.articles.push(article),
        article_revisions: db.article_revisions.push(
            article_snapshot(revision_id, article, author_id, db.clock),
        ),
        article_categories: replaced_links(db.article_categories, id, input.category_ids),
        audit_log: db.audit_log.push(
            audit_entry(audit_id, author_id, "create"@, "article"@, id, article_details(article), db.clock),
        ),
        ..db
    }
}

/// Why the update of an article is rejected, if it is: the article is unknown, or
/// its slug would change to one that another article holds.
pub open spec fn update_article_rejection(
    db: DatabaseView,
    id: Seq<char>,
    input: UpdateArticleView,
) -> Option<AppErrorView> {
    if !has_article(db.articles, id) {
        Some(AppErrorView::NotFound)
    } else {
        let existing = db.articles[article_pos(db.articles, id)];
        let merged = merged_article(existing, input, db.clock);
        if merged.slug != existing.slug && !slug_available(db.articles, merged.slug, Some(id)) {
            Some(AppErrorView::Conflict(slug_conflict_message(merged.slug)))
        } else {
            None
        }
    }
}

/// Why the update of an article with a given id for the new revision fails, if
/// it does: the rejection above, or a revision id that is already in use.
pub open spec fn update_article_error(
    db: DatabaseView,
    id: Seq<char>,
    input: UpdateArticleView,
    revision_id: Seq<char>,
) -> Option<AppErrorView> {
    if update_article_rejection(db, id, input) is Some {
        update_article_rejection(db, id, input)
    } else if has_article_revision(db.article_revisions, revision_id) {
        Some(AppErrorView::StorageFailure(duplicate_key_message()))
    } else {
        None
    }
}

/// The store after an article was updated: the merged row in its place, one
/// more revision that holds the merged title, summary and content, the category
/// links replaced where the input gives them, and the audit entry.
pub open spec fn after_update_article(
    db: DatabaseView,
    id: Seq<char>,
    input: UpdateArticleView,
    user_id: Seq<char>,
    revision_id: Seq<char>,
    audit_id: Seq<char>,
) -> DatabaseView {
    let pos = article_pos(db.articles, id);
    let merged = merged_article(db.articles[pos], input, db.clock);
    DatabaseView {
        articles: db.articles.update(pos, merged),
        article_revisions: db.article_revisions.push(
            article_snapshot(revision_id, merged, user_id, db.clock),
        ),
        article_categories: replaced_links(db.article_categories, id, input.category_ids),
        audit_log: db.audit_log.push(
            audit_entry(audit_id, user_id, "update"@, "article"@, id, article_details(merged), db.clock),
        ),
        ..db
    }
}

/// The store after the article `id` was replaced by `article` and the action was
/// logged without details.
pub open spec fn after_article_transition(
    db: DatabaseView,
    id: Seq<char>,
    article: ArticleView,
    user_id: Seq<char>,
    action: Seq<char>,
    audit_id: Seq<char>,
) -> DatabaseView {
    DatabaseView {
        articles: db.articles.update(article_pos(db.articles, id), article),
        audit_log: db.audit_log.push(
            audit_entry(audit_id, user_id, action, "article"@, id, Seq::empty(), db.clock),
        ),
        ..db
    }
}

/// All that an update of the article `id` may do, whatever id its new revision
/// gets: it is rejected and nothing changes, or the storage fails on the
/// revision's id and nothing changes, or the article is merged and one
/// revision and one audit entry are appended. Where the store holds no
/// revision, no id is in use, and an update that is not rejected succeeds.
pub open spec fn update_article_outcome(
    before: DatabaseView,
    id: Seq<char>,
    input: UpdateArticleView,
    user_id: Seq<char>,
    after: DatabaseView,
    r: AppResult<Article>,
) -> bool {
    &&& before.article_revisions.len() == 0 && update_article_rejection(before, id, input) is None
        ==> r is Ok
    &&& match r {
        Ok(article) => {
            &&& update_article_rejection(before, id, input) is None
            &&& article@ == merged_article(before.articles[article_pos(before.articles, id)], input, before.clock)
            &&& after.article_revisions.len() > 0
            &&& after.audit_log.len() > 0
            &&& after == after_update_article(
                before,
                id,
                input,
                user_id,
                after.article_revisions.last().id,
                after.audit_log.last().id,
            )
        },
        Err(e) => {
            &&& after == before
            &&& match update_article_rejection(before, id, input) {
                Some(rejection) => e@ == rejection,
                None => e@ == AppErrorView::StorageFailure(duplicate_key_message()),
            }
        },
    }
}

// ─── Lemmas on the tables ────────────────────────────────────────────────────

/// Replacing an article by one with the same id, the same creation time, an
/// update time equal to the clock and a slug that is its old one or free
/// keeps the table well-formed and keeps every id in it.
pub proof fn lemma_replace_article(articles: Seq<ArticleView>, clock: i64, pos: int, article: ArticleView)
    requires
        articles_wf(articles, clock),
        0 <= pos < articles.len(),
        article.id == articles[pos].id,
        article.created_at == articles[pos].created_at,
        article.updated_at == clock,
        article.slug == articles[pos].slug || slug_available(articles, article.slug, Some(article.id)),
    ensures
        articles_wf(articles.update(pos, article), clock),
        forall|id: Seq<char>| has_article(articles, id) <==> has_article(articles.update(pos, article), id),
{
    let after = articles.update(pos, article);
    assert forall|i: int, j: int|
        0 <= i < after.len() && 0 <= j < after.len() && i != j implies (#[trigger] after[i]).slug
        != (#[trigger] after[j]).slug by {
        if i == pos {
            assert(articles[j].slug != article.slug);
        } else if j == pos {
            assert(articles[i].slug != article.slug);
        } else {
            assert(articles[i].slug != articles[j].slug);
        }
    }
    assert forall|i: int, j: int|
        0 <= i < after.len() && 0 <= j < after.len() && i != j implies (#[trigger] after[i]).id != (
        #[trigger] after[j]).id by {
        assert(articles[i].id != articles[j].id);
    }
    assert forall|i: int| 0 <= i < after.len() implies (#[trigger] after[i]).created_at
        <= after[i].updated_at <= clock by {
        assert(articles[i].created_at <= articles[i].updated_at <= clock);
    }
    assert forall|id: Seq<char>| has_article(articles, id) <==> has_article(after, id) by {
        if has_article(articles, id) {
            let k = article_pos(articles, id);
            assert(after[k].id == id);
        }
        if has_article(after, id) {
            let k = article_pos(after, id);
            assert(articles[k].id == id);
        }
    }
}

/// Appending a revision with a fresh id that belongs to an existing article
/// and is stamped with the clock keeps the revisions well-formed.
pub proof fn lemma_push_article_revision(
    revisions: Seq<ArticleRevisionView>,
    articles: Seq<ArticleView>,
    clock: i64,
    revision: ArticleRevisionView,
)
    requires
        article_revisions_wf(revisions, articles, clock),
        !has_article_revision(revisions, revision.id),
        has_article(articles, revision.article_id),
        revision.created_at == clock,
    ensures
        article_revisions_wf(revisions.push(revision), articles, clock),
{
    let after = revisions.push(revision);
    assert forall|i: int, j: int|
        0 <= i < after.len() && 0 <= j < after.len() && i != j implies (#[trigger] after[i]).id != (
        #[trigger] after[j]).id by {
        if i < revisions.len() && j < revisions.len() {
            assert(revisions[i].id != revisions[j].id);
        } else if i < revisions.len() {
            assert(revisions[i].id != revision.id);
        } else {
            assert(revisions[j].id != revision.id);
        }
    }
    assert forall|i: int| 0 <= i < after.len() implies has_article(
        articles,
        (#[trigger] after[i]).article_id,
    ) by {
        if i < revisions.len() {
            assert(has_article(articles, revisions[i].article_id));
        }
    }
    assert forall|i: int| 0 <= i < after.len() implies (#[trigger] after[i]).created_at
        <= clock by {
        if i < revisions.len() {
            assert(revisions[i].created_at <= clock);
        }
    }
    assert forall|i: int, j: int| 0 <= i <= j < after.len() implies (#[trigger] after[i]).created_at
        <= (#[trigger] after[j]).created_at by {
        if j < revisions.len() {
            assert(revisions[i].created_at <= revisions[j].created_at);
        } else if i < revisions.len() {
            assert(revisions[i].created_at <= clock);
        }
    }
}

/// Revisions that are well-formed over one table of articles are so over any
/// table that holds the same ids.
pub proof fn lemma_article_revisions_follow(
    revisions: Seq<ArticleRevisionView>,
    articles: Seq<ArticleView>,
    other: Seq<ArticleView>,
    clock: i64,
)
    requires
        article_revisions_wf(revisions, articles, clock),
        forall|id: Seq<char>| has_article(articles, id) ==> has_article(other, id),
    ensures
        article_revisions_wf(revisions, other, clock),
{
    assert forall|i: int| 0 <= i < revisions.len() implies has_article(
        other,
        (#[trigger] revisions[i]).article_id,
    ) by {
        assert(has_article(articles, revisions[i].article_id));
    }
}

/// Appending an article with a fresh id and a free slug, created and updated at
/// the clock, keeps the table well-formed and keeps every id in it.
pub proof fn lemma_push_article(articles: Seq<ArticleView>, clock: i64, article: ArticleView)
    requires
        articles_wf(articles, clock),
        !has_article(articles, article.id),
        slug_available(articles, article.slug, None),
        article.created_at == clock,
        article.updated_at == clock,
    ensures
        articles_wf(articles.push(article), clock),
        has_article(articles.push(article), article.id),
        forall|id: Seq<char>| has_article(articles, id) ==> has_article(articles.push(article), id),
{
    let after = articles.push(article);
    assert forall|i: int, j: int|
        0 <= i < after.len() && 0 <= j < after.len() && i != j implies (#[trigger] after[i]).id != (
        #[trigger] after[j]).id by {
        if i < articles.len() && j < articles.len() {
            assert(articles[i].id != articles[j].id);
        } else if i < articles.len() {
            assert(articles[i].id != article.id);
        } else {
            assert(articles[j].id != article.id);
        }
    }
    assert forall|i: int, j: int|
        0 <= i < after.len() && 0 <= j < after.len() && i != j implies (#[trigger] after[i]).slug
        != (#[trigger] after[j]).slug by {
        if i < articles.len() && j < articles.len() {
            assert(articles[i].slug != articles[j].slug);
        } else if i < articles.len() {
            assert(articles[i].slug != article.slug);
        } else {
            assert(articles[j].slug != article.slug);
        }
    }
    assert forall|i: int| 0 <= i < after.len() implies (#[trigger] after[i]).created_at
        <= after[i].updated_at <= clock by {
        if i < articles.len() {
            assert(articles[i].created_at <= articles[i].updated_at <= clock);
        }
    }
    assert(after[articles.len() as int].id == article.id);
    assert forall|id: Seq<char>| has_article(articles, id) implies has_article(after, id) by {
        let k = article_pos(articles, id);
        assert(after[k].id == id);
    }
}

// ─── Steps on the store ──────────────────────────────────────────────────────

/// Checks that `slug` is free for the article `exclude_id` (for a new article:
/// `None`), and reports a conflict where another article holds it.
pub fn ensure_slug_unique(db: &Database, slug: &str, exclude_id: Option<&str>) -> (r: AppResult<()>)
    requires
        db@.wf(),
    ensures
        match r {
            Ok(_) => slug_available(db@.articles, slug@, opt_str_view(exclude_id)),
            Err(e) => !slug_available(db@.articles, slug@, opt_str_view(exclude_id)) && e@
                == AppErrorView::Conflict(slug_conflict_message(slug@)),
        },
{
    let found = find_article_by_slug(&db.articles, slug);
    let collides = match found {
        Some(i) => slug_collides(Some(db.articles[i].id.as_str()), exclude_id),
        None => slug_collides(None, exclude_id),
    };
    proof {
        let articles = db@.articles;
        match found {
            Some(i) => {
                assert(articles[i as int].slug == slug@);
                if !collides {
                    assert forall|j: int|
                        0 <= j < articles.len() && (#[trigger] articles[j]).slug
                            == slug@ implies opt_str_view(exclude_id) == Some(articles[j].id) by {
                        if j != i as int {
                            assert(articles[j].slug != articles[i as int].slug);
                        }
                    }
                }
            },
            None => {
                assert forall|j: int|
                    0 <= j < articles.len() implies (#[trigger] articles[j]).slug != slug@ by {
                    assert(views(db.articles@)[j].slug != slug@);
                }
            },
        }
    }
    if collides {
        Err(slug_conflict(slug))
    } else {
        Ok(())
    }
}

/// Whether `slug` is free for the article `exclude_id` (for a new article:
/// `None`): true exactly where no other article holds it.
pub fn is_slug_available(db: &Database, slug: &str, exclude_id: Option<&str>) -> (r: bool)
    requires
        db@.wf(),
    ensures
        r == slug_available(db@.articles, slug@, opt_str_view(exclude_id)),
{
    ensure_slug_unique(db, slug, exclude_id).is_ok()
}

/// Replaces the category links of an article: all of its links leave, and one
/// link per given category comes in, in order.
pub fn set_article_categories(db: &mut Database, article_id: &str, category_ids: &Vec<String>)
    requires
        old(db)@.wf(),
    ensures
        final(db)@.wf(),
        final(db)@ == (DatabaseView {
            article_categories: replaced_links(
                old(db)@.article_categories,
                article_id@,
                Some(views(category_ids@)),
            ),
            ..old(db)@
        }),
{
    let ghost before = db@.article_categories;
    let ghost keep = not_owned_by(article_id@);
    let mut links: Vec<CategoryLink> = Vec::new();
    let mut i: usize = 0;
    proof {
        lemma_prefix_full(before);
        reveal(Seq::filter);
    }
    while i < db.article_categories.len()
        invariant
            i <= db.article_categories.len(),
            before == views(db.article_categories@),
            keep == not_owned_by(article_id@),
            views(links@) == before.subrange(0, i as int).filter(keep),
        decreases db.article_categories.len() - i,
    {
        proof {
            lemma_filter_step(before, i as int, keep);
        }
        if !str_eq(db.article_categories[i].owner_id.as_str(), article_id) {
            let link = CategoryLink {
                owner_id: db.article_categories[i].owner_id.clone(),
                category_id: db.article_categories[i].category_id.clone(),
            };
            proof {
                lemma_views_push(links@, link);
            }
            links.push(link);
        }
        i += 1;
    }
    proof {
        lemma_prefix_full(before);
    }
    let ghost kept = views(links@);
    let mut k: usize = 0;
    while k < category_ids.len()
        invariant
            k <= category_ids.len(),
            views(links@) == kept + links_for(article_id@, views(category_ids@)).subrange(
                0,
                k as int,
            ),
        decreases category_ids.len() - k,
    {
        let link = CategoryLink {
            owner_id: article_id.to_owned(),
            category_id: category_ids[k].clone(),
        };
        proof {
            lemma_views_push(links@, link);
            let all = links_for(article_id@, views(category_ids@));
            lemma_prefix_step(all, k as int);
            assert((kept + all.subrange(0, k as int)).push(link@) =~= kept + all.subrange(
                0,
                k as int + 1,
            ));
        }
        links.push(link);
        k += 1;
    }
    proof {
        lemma_prefix_full(links_for(article_id@, views(category_ids@)));
    }
    db.article_categories = links;
}

/// The ids of the categories of the article `article_id`, in the order in which
/// they were assigned. An article without categories, and an id that no article
/// has, give none.
pub fn get_article_categories(db: &Database, article_id: &str) -> (r: AppResult<Vec<String>>)
    ensures
        r is Ok,
        views(r->Ok_0@) == categories_of(db@.article_categories, article_id@),
{
    let ghost all = db@.article_categories;
    let ghost keep = owned_by(article_id@);
    let ghost pick = |link: CategoryLinkView| link.category_id;
    let mut ids: Vec<String> = Vec::new();
    let mut i: usize = 0;
    proof {
        lemma_prefix_full(all);
        reveal(Seq::filter);
        assert(views(ids@) =~= all.subrange(0, 0).filter(keep).map_values(pick));
    }
    while i < db.article_categories.len()
        invariant
            i <= db.article_categories.len(),
            all == views(db.article_categories@),
            keep == owned_by(article_id@),
            pick == (|link: CategoryLinkView| link.category_id),
            views(ids@) == all.subrange(0, i as int).filter(keep).map_values(pick),
        decreases db.article_categories.len() - i,
    {
        proof {
            lemma_filter_step(all, i as int, keep);
        }
        if str_eq(db.article_categories[i].owner_id.as_str(), article_id) {
            let id = db.article_categories[i].category_id.clone();
            proof {
                let before = all.subrange(0, i as int).filter(keep);
                lemma_views_push(ids@, id);
                assert(before.push(all[i as int]).map_values(pick) =~= before.map_values(
                    pick,
                ).push(all[i as int].category_id));
            }
            ids.push(id);
        }
        i += 1;
    }
    proof {
        lemma_prefix_full(all);
    }
    Ok(ids)
}

/// Appends the snapshot of `article` under the id `revision_id`.
fn create_revision(db: &mut Database, revision_id: String, article: &Article, author_id: &str)
    requires
        old(db)@.wf(),
        !has_article_revision(old(db)@.article_revisions, revision_id@),
        has_article(old(db)@.articles, article@.id),
    ensures
        final(db)@.wf(),
        final(db)@ == (DatabaseView {
            article_revisions: old(db)@.article_revisions.push(
                article_snapshot(revision_id@, article@, author_id@, old(db)@.clock),
            ),
            ..old(db)@
        }),
{
    let revision = ArticleRevision {
        id: revision_id,
        article_id: article.id.clone(),
        title: article.title.clone(),
        short_text: article.short_text.clone(),
        content: article.content.clone(),
        author_id: author_id.to_owned(),
        created_at: db.clock,
    };
    proof {
        lemma_views_push(db.article_revisions@, revision);
        lemma_push_article_revision(db@.article_revisions, db@.articles, db@.clock, revision@);
    }
    db.article_revisions.push(revision);
}

// ─── Operations ──────────────────────────────────────────────────────────────

/// Fetches an article by its id. `NotFound` if there is none.
pub fn get_article(db: &Database, id: &str) -> (r: AppResult<Article>)
    requires
        db@.wf(),
    ensures
        match r {
            Ok(article) => has_article(db@.articles, id@) && article@ == db@.articles[article_pos(db@.articles, id@)],
            Err(e) => !has_article(db@.articles, id@) && e@ == AppErrorView::NotFound,
        },
{
    match find_article(&db.articles, id) {
        Some(i) => {
            proof {
                lemma_article_pos(db@.articles, db@.clock, id@, i as int);
            }
            Ok(db.articles[i].duplicate())
        },
        None => Err(AppError::NotFound),
    }
}

/// Whether the article that holds `slug` is public.
pub open spec fn has_published_article(articles: Seq<ArticleView>, slug: Seq<char>) -> bool {
    exists|i: int|
        0 <= i < articles.len() && (#[trigger] articles[i]).slug == slug && articles[i].status
            == status_published()
}

/// Fetches a published article by its slug. `NotFound` if no article holds the
/// slug, or if the article that holds it is not published.
pub fn get_article_by_slug(db: &Database, slug: &str) -> (r: AppResult<Article>)
    requires
        db@.wf(),
    ensures
        match r {
            Ok(article) => has_published_article(db@.articles, slug@) && article@.slug == slug@ && article@.status
                == status_published() && has_article(db@.articles, article@.id) && article@
                == db@.articles[article_pos(db@.articles, article@.id)],
            Err(e) => !has_published_article(db@.articles, slug@) && e@ == AppErrorView::NotFound,
        },
{
    match find_article_by_slug(&db.articles, slug) {
        Some(i) => {
            let ghost articles = db@.articles;
            proof {
                lemma_article_pos(articles, db@.clock, articles[i as int].id, i as int);
            }
            if str_eq(db.articles[i].status.as_str(), "published") {
                Ok(db.articles[i].duplicate())
            } else {
                proof {
                    assert forall|j: int|
                        0 <= j < articles.len() && (#[trigger] articles[j]).slug
                            == slug@ implies articles[j].status != status_published() by {
                        if j != i as int {
                            assert(articles[j].slug != articles[i as int].slug);
                        }
                    }
                }
                Err(AppError::NotFound)
            }
        },
        None => {
            proof {
                assert forall|j: int| 0 <= j < db@.articles.len() implies (#[trigger] db@.articles[j]).slug
                    != slug@ by {
                    assert(views(db.articles@)[j].slug != slug@);
                }
            }
            Err(AppError::NotFound)
        },
    }
}

/// Creates an article under the id `id`, with its seed revision under the id
/// `revision_id`.
///
/// The slug is the explicit one or, without one, derived from the title.
/// Fails with `Conflict` where another article holds the slug, and with
/// `StorageFailure` where one of the two ids is in use; the store is then
/// unchanged. Else the article is stored with the status given (without one:
/// `draft`), created and updated at the store's clock, and returned.
pub fn create_article_with_ids(
    db: &mut Database,
    input: CreateArticle,
    author_id: &str,
    id: String,
    revision_id: String,
) -> (r: AppResult<Article>)
    requires
        old(db)@.wf(),
    ensures
        final(db)@.wf(),
        match r {
            Ok(article) => {
                &&& create_article_error(old(db)@, input@, id@, revision_id@) is None
                &&& article@ == new_article(input@, author_id@, id@, old(db)@.clock)
                &&& final(db)@.audit_log.len() > 0
                &&& final(db)@ == after_create_article(
                    old(db)@,
                    input@,
                    author_id@,
                    id@,
                    revision_id@,
                    final(db)@.audit_log.last().id,
                )
            },
            Err(e) => {
                &&& create_article_error(old(db)@, input@, id@, revision_id@) == Some(e@)
                &&& final(db)@ == old(db)@
            },
        },
{
    let ghost before = db@;
    let ghost id_view = id@;
    let article = build_article(&input, author_id, id, db.clock);
    match ensure_slug_unique(db, article.slug.as_str(), None) {
        Err(e) => {
            return Err(e);
        },
        Ok(_) => {},
    }
    let article_taken = find_article(&db.articles, article.id.as_str());
    let revision_taken = find_article_revision(&db.article_revisions, revision_id.as_str());
    if article_taken.is_some() || revision_taken.is_some() {
        proof {
            match article_taken {
                Some(i) => {
                    assert(before.articles[i as int].id == id_view);
                },
                None => {},
            }
            match revision_taken {
                Some(i) => {
                    assert(before.article_revisions[i as int].id == revision_id@);
                },
                None => {},
            }
        }
        return Err(AppError::StorageFailure(String::from_str("duplicate key")));
    }
    let stored = article.duplicate();
    proof {
        lemma_views_push(db.articles@, stored);
        lemma_push_article(before.articles, before.clock, article@);
        lemma_article_revisions_follow(
            before.article_revisions,
            before.articles,
            before.articles.push(article@),
            before.clock,
        );
    }
    db.articles.push(stored);
    match &input.category_ids {
        Some(ids) => {
            set_article_categories(db, article.id.as_str(), ids);
        },
        None => {},
    }
    create_revision(db, revision_id, &article, author_id);
    let details = article_detail_pairs(&article);
    log_action(db, author_id, "create", "article", article.id.as_str(), &details);
    Ok(article)
}

/// Creates an article and its seed revision under fresh random ids.
///
/// Fails with `Conflict` exactly where another article holds the slug. Else
/// the article is created as [`create_article_with_ids`] says, unless the storage
/// fails on an id that is in use, which leaves the store unchanged. In a
/// store without articles no id is in use, and the creation succeeds.
pub fn create_article(db: &mut Database, input: CreateArticle, author_id: &str) -> (r: AppResult<Article>)
    requires
        old(db)@.wf(),
    ensures
        final(db)@.wf(),
        old(db)@.articles.len() == 0 ==> r is Ok,
        match r {
            Ok(article) => {
                &&& create_article_rejection(old(db)@, input@) is None
                &&& article@ == new_article(input@, author_id@, article@.id, old(db)@.clock)
                &&& final(db)@.article_revisions.len() > 0
                &&& final(db)@.audit_log.len() > 0
                &&& final(db)@ == after_create_article(
                    old(db)@,
                    input@,
                    author_id@,
                    article@.id,
                    final(db)@.article_revisions.last().id,
                    final(db)@.audit_log.last().id,
                )
            },
            Err(e) => {
                &&& final(db)@ == old(db)@
                &&& match create_article_rejection(old(db)@, input@) {
                    Some(rejection) => e@ == rejection,
                    None => e@ == AppErrorView::StorageFailure(duplicate_key_message()),
                }
            },
        },
{
    let id = new_id();
    let revision_id = new_id();
    proof {
        if db@.articles.len() == 0 && db@.article_revisions.len() > 0 {
            assert(has_article(db@.articles, db@.article_revisions[0].article_id));
        }
    }
    create_article_with_ids(db, input, author_id, id, revision_id)
}

/// Applies a partial update to the article `id`; the new revision gets the id
/// `revision_id`.
///
/// Fails with `NotFound` where the article is unknown, with `Conflict` where
/// the slug changes to one that another article holds, and with
/// `StorageFailure` where the revision id is in use; the store is then
/// unchanged. Else the merged article takes the place of the old one, one
/// revision with the merged title, summary and content is appended, and the merged
/// article is returned.
pub fn update_article_with_id(
    db: &mut Database,
    id: &str,
    input: UpdateArticle,
    user_id: &str,
    revision_id: String,
) -> (r: AppResult<Article>)
    requires
        old(db)@.wf(),
    ensures
        final(db)@.wf(),
        match r {
            Ok(article) => {
                &&& update_article_error(old(db)@, id@, input@, revision_id@) is None
                &&& article@ == merged_article(
                    old(db)@.articles[article_pos(old(db)@.articles, id@)],
                    input@,
                    old(db)@.clock,
                )
                &&& final(db)@.audit_log.len() > 0
                &&& final(db)@ == after_update_article(
                    old(db)@,
                    id@,
                    input@,
                    user_id@,
                    revision_id@,
                    final(db)@.audit_log.last().id,
                )
            },
            Err(e) => {
                &&& update_article_error(old(db)@, id@, input@, revision_id@) == Some(e@)
                &&& final(db)@ == old(db)@
            },
        },
{
    let ghost before = db@;
    let pos = match find_article(&db.articles, id) {
        Some(i) => i,
        None => {
            return Err(AppError::NotFound);
        },
    };
    proof {
        lemma_article_pos(before.articles, before.clock, id@, pos as int);
    }
    let merged = merge_article(&db.articles[pos], &input, db.clock);
    if !str_eq(merged.slug.as_str(), db.articles[pos].slug.as_str()) {
        match ensure_slug_unique(db, merged.slug.as_str(), Some(id)) {
            Err(e) => {
                return Err(e);
            },
            Ok(_) => {},
        }
    }
    match find_article_revision(&db.article_revisions, revision_id.as_str()) {
        Some(i) => {
            proof {
                assert(before.article_revisions[i as int].id == revision_id@);
            }
            return Err(AppError::StorageFailure(String::from_str("duplicate key")));
        },
        None => {},
    }
    let stored = merged.duplicate();
    proof {
        lemma_views_update(db.articles@, pos as int, stored);
        lemma_replace_article(before.articles, before.clock, pos as int, merged@);
        lemma_article_revisions_follow(
            before.article_revisions,
            before.articles,
            before.articles.update(pos as int, merged@),
            before.clock,
        );
    }
    db.articles.set(pos, stored);
    match &input.category_ids {
        Some(ids) => {
            set_article_categories(db, id, ids);
        },
        None => {},
    }
    create_revision(db, revision_id, &merged, user_id);
    let details = article_detail_pairs(&merged);
    log_action(db, user_id, "update", "article", id, &details);
    Ok(merged)
}

/// Applies a partial update to the article `id`; the new revision gets a fresh
/// random id. See [`update_article_outcome`].
pub fn update_article(db: &mut Database, id: &str, input: UpdateArticle, user_id: &str) -> (r: AppResult<
    Article,
>)
    requires
        old(db)@.wf(),
    ensures
        final(db)@.wf(),
        update_article_outcome(old(db)@, id@, input@, user_id@, final(db)@, r),
{
    let revision_id = new_id();
    update_article_with_id(db, id, input, user_id, revision_id)
}

/// Replaces the article at `pos` by `article` after a status transition and logs
/// the action.
fn apply_article_transition(
    db: &mut Database,
    pos: usize,
    id: &str,
    article: &Article,
    user_id: &str,
    action: &str,
)
    requires
        old(db)@.wf(),
        pos < old(db)@.articles.len(),
        old(db)@.articles[pos as int].id == id@,
        article@.id == id@,
        article@.slug == old(db)@.articles[pos as int].slug,
        article@.created_at == old(db)@.articles[pos as int].created_at,
        article@.updated_at == old(db)@.clock,
    ensures
        final(db)@.wf(),
        final(db)@.audit_log.len() > 0,
        has_article(old(db)@.articles, id@),
        article_pos(old(db)@.articles, id@) == pos,
        final(db)@ == after_article_transition(
            old(db)@,
            id@,
            article@,
            user_id@,
            action@,
            final(db)@.audit_log.last().id,
        ),
{
    let ghost before = db@;
    let stored = article.duplicate();
    proof {
        lemma_article_pos(before.articles, before.clock, id@, pos as int);
        lemma_views_update(db.articles@, pos as int, stored);
        lemma_replace_article(before.articles, before.clock, pos as int, article@);
        lemma_article_revisions_follow(
            before.article_revisions,
            before.articles,
            before.articles.update(pos as int, article@),
            before.clock,
        );
    }
    db.articles.set(pos, stored);
    let details: Vec<(String, String)> = Vec::new();
    assert(pair_views(details@) =~= Seq::empty());
    log_action(db, user_id, action, "article", id, &details);
}

/// Publishes the article `id`, whatever its status was, and returns it.
/// `NotFound` if there is no such article.
pub fn publish_article(db: &mut Database, id: &str, user_id: &str) -> (r: AppResult<Article>)
    requires
        old(db)@.wf(),
    ensures
        final(db)@.wf(),
        match r {
            Ok(article) => {
                &&& has_article(old(db)@.articles, id@)
                &&& article@ == published_article(
                    old(db)@.articles[article_pos(old(db)@.articles, id@)],
                    old(db)@.clock,
                )
                &&& final(db)@.audit_log.len() > 0
                &&& final(db)@ == after_article_transition(
                    old(db)@,
                    id@,
                    article@,
                    user_id@,
                    "publish"@,
                    final(db)@.audit_log.last().id,
                )
            },
            Err(e) => !has_article(old(db)@.articles, id@) && e@ == AppErrorView::NotFound && final(db)@
                == old(db)@,
        },
{
    let pos = match find_article(&db.articles, id) {
        Some(i) => i,
        None => {
            return Err(AppError::NotFound);
        },
    };
    let mut article = db.articles[pos].duplicate();
    article.status = String::from_str("published");
    article.updated_at = db.clock;
    apply_article_transition(db, pos, id, &article, user_id, "publish");
    Ok(article)
}

/// Moves the article `id` to the trash, whatever its status was: the article
/// stays in the store and counts as trashed at the store's clock.
/// `NotFound` if there is no such article.
pub fn trash_article(db: &mut Database, id: &str, user_id: &str) -> (r: AppResult<()>)
    requires
        old(db)@.wf(),
    ensures
        final(db)@.wf(),
        match r {
            Ok(_) => {
                &&& has_article(old(db)@.articles, id@)
                &&& final(db)@.audit_log.len() > 0
                &&& final(db)@ == after_article_transition(
                    old(db)@,
                    id@,
                    trashed_article(old(db)@.articles[article_pos(old(db)@.articles, id@)], old(db)@.clock),
                    user_id@,
                    "trash"@,
                    final(db)@.audit_log.last().id,
                )
            },
            Err(e) => !has_article(old(db)@.articles, id@) && e@ == AppErrorView::NotFound && final(db)@
                == old(db)@,
        },
{
    let pos = match find_article(&db.articles, id) {
        Some(i) => i,
        None => {
            return Err(AppError::NotFound);
        },
    };
    let mut article = db.articles[pos].duplicate();
    article.status = String::from_str("trashed");
    article.trashed_at = Some(db.clock);
    article.updated_at = db.clock;
    apply_article_transition(db, pos, id, &article, user_id, "trash");
    Ok(())
}

/// Takes the article `id` back out of the trash: it becomes a draft again and
/// is returned. `NotFound` if there is no such article; `InvalidState`, with
/// the store unchanged, if the article is not trashed.
pub fn restore_article(db: &mut Database, id: &str, user_id: &str) -> (r: AppResult<Article>)
    requires
        old(db)@.wf(),
    ensures
        final(db)@.wf(),
        match r {
            Ok(article) => {
                &&& has_article(old(db)@.articles, id@)
                &&& old(db)@.articles[article_pos(old(db)@.articles, id@)].status == status_trashed()
                &&& article@ == restored_article(
                    old(db)@.articles[article_pos(old(db)@.articles, id@)],
                    old(db)@.clock,
                )
                &&& final(db)@.audit_log.len() > 0
                &&& final(db)@ == after_article_transition(
                    old(db)@,
                    id@,
                    article@,
                    user_id@,
                    "restore"@,
                    final(db)@.audit_log.last().id,
                )
            },
            Err(e) => {
                &&& final(db)@ == old(db)@
                &&& if !has_article(old(db)@.articles, id@) {
                    e@ == AppErrorView::NotFound
                } else {
                    &&& old(db)@.articles[article_pos(old(db)@.articles, id@)].status != status_trashed()
                    &&& e@ == AppErrorView::InvalidState(not_trashed_message())
                }
            },
        },
{
    let pos = match find_article(&db.articles, id) {
        Some(i) => i,
        None => {
            return Err(AppError::NotFound);
        },
    };
    proof {
        lemma_article_pos(db@.articles, db@.clock, id@, pos as int);
    }
    if !can_restore(db.articles[pos].status.as_str()) {
        return Err(not_trashed());
    }
    let mut article = db.articles[pos].duplicate();
    article.status = String::from_str("draft");
    article.trashed_at = None;
    article.updated_at = db.clock;
    apply_article_transition(db, pos, id, &article, user_id, "restore");
    Ok(article)
}

/// The revisions of the article `article_id`, newest first. `NotFound` if there
/// is no such article.
pub fn list_revisions(db: &Database, article_id: &str) -> (r: AppResult<Vec<ArticleRevision>>)
    requires
        db@.wf(),
    ensures
        match r {
            Ok(revisions) => has_article(db@.articles, article_id@) && views(revisions@)
                == revisions_of_article(db@.article_revisions, article_id@).reverse(),
            Err(e) => !has_article(db@.articles, article_id@) && e@ == AppErrorView::NotFound,
        },
{
    match find_article(&db.articles, article_id) {
        Some(i) => {
            assert(db@.articles[i as int].id == article_id@);
        },
        None => {
            return Err(AppError::NotFound);
        },
    }
    let ghost all = db@.article_revisions;
    let ghost keep = owned_by_article(article_id@);
    let mut oldest_first: Vec<usize> = Vec::new();
    let mut i: usize = 0;
    proof {
        lemma_prefix_full(all);
        reveal(Seq::filter);
    }
    while i < db.article_revisions.len()
        invariant
            i <= db.article_revisions.len(),
            all == views(db.article_revisions@),
            keep == owned_by_article(article_id@),
            oldest_first@.len() == all.subrange(0, i as int).filter(keep).len(),
            forall|k: int|
                0 <= k < oldest_first@.len() ==> (#[trigger] oldest_first@[k])
                    < db.article_revisions.len() && all[oldest_first@[k] as int] == all.subrange(
                    0,
                    i as int,
                ).filter(keep)[k],
        decreases db.article_revisions.len() - i,
    {
        proof {
            lemma_filter_step(all, i as int, keep);
        }
        if str_eq(db.article_revisions[i].article_id.as_str(), article_id) {
            oldest_first.push(i);
        }
        i += 1;
    }
    proof {
        lemma_prefix_full(all);
    }
    let ghost owned = all.filter(keep);
    let mut revisions: Vec<ArticleRevision> = Vec::new();
    let mut k: usize = oldest_first.len();
    while k > 0
        invariant
            k <= oldest_first@.len(),
            all == views(db.article_revisions@),
            oldest_first@.len() == owned.len(),
            forall|j: int|
                0 <= j < oldest_first@.len() ==> (#[trigger] oldest_first@[j])
                    < db.article_revisions.len() && all[oldest_first@[j] as int] == owned[j],
            revisions@.len() == owned.len() - k,
            forall|j: int|
                0 <= j < revisions@.len() ==> (#[trigger] revisions@[j])@ == owned[owned.len() - 1
                    - j],
        decreases k,
    {
        k -= 1;
        revisions.push(db.article_revisions[oldest_first[k]].duplicate());
    }
    assert(views(revisions@) =~= owned.reverse());
    Ok(revisions)
}

/// Whether the revision `revision_id` exists and belongs to `article_id`.
pub open spec fn has_owned_article_revision(
    revisions: Seq<ArticleRevisionView>,
    revision_id: Seq<char>,
    article_id: Seq<char>,
) -> bool {
    exists|i: int|
        0 <= i < revisions.len() && (#[trigger] revisions[i]).id == revision_id
            && revisions[i].article_id == article_id
}

/// Position of the revision `revision_id` of `article_id`, where there is one.
pub open spec fn owned_article_revision_pos(
    revisions: Seq<ArticleRevisionView>,
    revision_id: Seq<char>,
    article_id: Seq<char>,
) -> int {
    choose|i: int|
        0 <= i < revisions.len() && (#[trigger] revisions[i]).id == revision_id
            && revisions[i].article_id == article_id
}

/// The update that brings a revision's title, summary and content back and
/// leaves slug, status, publication time, categories and cover image as
/// they are.
pub open spec fn article_revision_as_update(revision: ArticleRevisionView) -> UpdateArticleView {
    UpdateArticleView {
        title: Some(revision.title),
        slug: None,
        short_text: Some(revision.short_text),
        content: Some(revision.content),
        status: None,
        publish_at: None,
        category_ids: None,
        cover_image_id: None,
    }
}

/// Brings the article `article_id` back to the title, summary and content of
/// its revision `revision_id`, by an update that itself appends a revision: history
/// only grows. `NotFound`, with the store unchanged, if that revision
/// does not exist or belongs to another article; else all that
/// [`update_article`] does on the update made of the revision.
pub fn restore_revision(db: &mut Database, article_id: &str, revision_id: &str, user_id: &str) -> (r:
    AppResult<Article>)
    requires
        old(db)@.wf(),
    ensures
        final(db)@.wf(),
        if has_owned_article_revision(old(db)@.article_revisions, revision_id@, article_id@) {
            update_article_outcome(
                old(db)@,
                article_id@,
                article_revision_as_update(
                    old(db)@.article_revisions[owned_article_revision_pos(
                        old(db)@.article_revisions,
                        revision_id@,
                        article_id@,
                    )],
                ),
                user_id@,
                final(db)@,
                r,
            )
        } else {
            &&& r is Err
            &&& r->Err_0@ == AppErrorView::NotFound
            &&& final(db)@ == old(db)@
        },
{
    let ghost all = db@.article_revisions;
    let found = find_article_revision(&db.article_revisions, revision_id);
    let pos = match found {
        Some(i) => i,
        None => {
            return Err(AppError::NotFound);
        },
    };
    if !str_eq(db.article_revisions[pos].article_id.as_str(), article_id) {
        proof {
            assert forall|j: int|
                0 <= j < all.len() && (#[trigger] all[j]).id == revision_id@ implies all[j].article_id
                != article_id@ by {
                if j != pos as int {
                    assert(all[j].id != all[pos as int].id);
                }
            }
        }
        return Err(AppError::NotFound);
    }
    proof {
        assert(all[pos as int].id == revision_id@ && all[pos as int].article_id == article_id@);
        let chosen = owned_article_revision_pos(all, revision_id@, article_id@);
        if chosen != pos as int {
            assert(all[chosen].id != all[pos as int].id);
        }
    }
    let input = UpdateArticle {
        title: Some(db.article_revisions[pos].title.clone()),
        slug: None,
        short_text: Some(db.article_revisions[pos].short_text.clone()),
        content: Some(db.article_revisions[pos].content.clone()),
        status: None,
        publish_at: None,
        category_ids: None,
        cover_image_id: None,
    };
    update_article(db, article_id, input, user_id)
}

// ─── Sweeps ──────────────────────────────────────────────────────────────────

/// Publishes an article that is due at `clock` and leaves any other as it is.
pub open spec fn promoted_article(clock: i64) -> spec_fn(ArticleView) -> ArticleView {
    |article: ArticleView|
        if due_for_publication(article.status, article.publish_at, clock) {
            published_article(article, clock)
        } else {
            article
        }
}

/// Selects the articles that are not to be erased at `clock`.
pub open spec fn article_is_kept(clock: i64) -> spec_fn(ArticleView) -> bool {
    |article: ArticleView| !expired_trash(article.status, article.trashed_at, clock)
}

/// Selects the revisions whose article is in `articles`.
pub open spec fn revision_has_article(articles: Seq<ArticleView>) -> spec_fn(ArticleRevisionView) -> bool {
    |revision: ArticleRevisionView| has_article(articles, revision.article_id)
}

/// Selects the category links whose owner is in `articles`.
pub open spec fn link_has_article(articles: Seq<ArticleView>) -> spec_fn(CategoryLinkView) -> bool {
    |link: CategoryLinkView| has_article(articles, link.owner_id)
}

/// The store after every due article was published.
pub open spec fn after_publish_due_articles(db: DatabaseView) -> DatabaseView {
    DatabaseView { articles: db.articles.map_values(promoted_article(db.clock)), ..db }
}

/// The store after every expired article was erased, with its revisions and
/// its category links.
pub open spec fn after_purge_articles(db: DatabaseView) -> DatabaseView {
    let kept = db.articles.filter(article_is_kept(db.clock));
    DatabaseView {
        articles: kept,
        article_revisions: db.article_revisions.filter(revision_has_article(kept)),
        article_categories: db.article_categories.filter(link_has_article(kept)),
        ..db
    }
}

/// Publishing the due articles keeps the table well-formed and keeps every
/// id in it.
pub proof fn lemma_promote_articles(articles: Seq<ArticleView>, clock: i64)
    requires
        articles_wf(articles, clock),
    ensures
        articles_wf(articles.map_values(promoted_article(clock)), clock),
        forall|id: Seq<char>|
            has_article(articles, id) ==> has_article(articles.map_values(promoted_article(clock)), id),
{
    let after = articles.map_values(promoted_article(clock));
    assert forall|i: int, j: int|
        0 <= i < after.len() && 0 <= j < after.len() && i != j implies (#[trigger] after[i]).id != (
        #[trigger] after[j]).id by {
        assert(articles[i].id != articles[j].id);
    }
    assert forall|i: int, j: int|
        0 <= i < after.len() && 0 <= j < after.len() && i != j implies (#[trigger] after[i]).slug
        != (#[trigger] after[j]).slug by {
        assert(articles[i].slug != articles[j].slug);
    }
    assert forall|i: int| 0 <= i < after.len() implies (#[trigger] after[i]).created_at
        <= after[i].updated_at <= clock by {
        assert(articles[i].created_at <= articles[i].updated_at <= clock);
    }
    assert forall|id: Seq<char>| has_article(articles, id) implies has_article(after, id) by {
        let k = article_pos(articles, id);
        assert(after[k].id == id);
    }
}

/// A selection of a well-formed table of articles is well-formed, holds only
/// articles of the table, and holds every article of the table that is selected.
pub proof fn lemma_filter_articles(articles: Seq<ArticleView>, clock: i64, keep: spec_fn(ArticleView) -> bool)
    requires
        articles_wf(articles, clock),
    ensures
        articles_wf(articles.filter(keep), clock),
        forall|k: int|
            0 <= k < articles.filter(keep).len() ==> articles.contains(#[trigger] articles.filter(keep)[k])
                && keep(articles.filter(keep)[k]),
        forall|j: int|
            0 <= j < articles.len() && keep(articles[j]) ==> has_article(
                articles.filter(keep),
                (#[trigger] articles[j]).id,
            ),
    decreases articles.len(),
{
    reveal(Seq::filter);
    let kept = articles.filter(keep);
    if articles.len() > 0 {
        let init = articles.drop_last();
        let last = articles.last();
        assert(articles_wf(init, clock)) by {
            assert forall|i: int, j: int|
                0 <= i < init.len() && 0 <= j < init.len() && i != j implies (#[trigger] init[i]).id
                != (#[trigger] init[j]).id by {
                assert(articles[i].id != articles[j].id);
            }
            assert forall|i: int, j: int|
                0 <= i < init.len() && 0 <= j < init.len() && i != j implies (
            #[trigger] init[i]).slug != (#[trigger] init[j]).slug by {
                assert(articles[i].slug != articles[j].slug);
            }
            assert forall|i: int| 0 <= i < init.len() implies (#[trigger] init[i]).created_at
                <= init[i].updated_at <= clock by {
                assert(articles[i].created_at <= articles[i].updated_at <= clock);
            }
        }
        lemma_filter_articles(init, clock, keep);
        let before = init.filter(keep);
        assert forall|k: int| 0 <= k < before.len() implies articles.contains(#[trigger] before[k])
            && before[k].id != last.id && before[k].slug != last.slug by {
            assert(init.contains(before[k]));
            let m = choose|m: int| 0 <= m < init.len() && init[m] == before[k];
            assert(articles[m] == before[k]);
            assert(articles[m].id != articles[articles.len() - 1].id);
            assert(articles[m].slug != articles[articles.len() - 1].slug);
        }
        assert(articles[articles.len() - 1] == last);
        assert forall|k: int| 0 <= k < kept.len() implies articles.contains(#[trigger] kept[k])
            && keep(kept[k]) by {
            if k < before.len() {
                assert(kept[k] == before[k]);
            }
        }
        assert forall|i: int, j: int|
            0 <= i < kept.len() && 0 <= j < kept.len() && i != j implies (#[trigger] kept[i]).id != (
            #[trigger] kept[j]).id by {
            if i < before.len() && j < before.len() {
                assert(before[i].id != before[j].id);
            }
        }
        assert forall|i: int, j: int|
            0 <= i < kept.len() && 0 <= j < kept.len() && i != j implies (#[trigger] kept[i]).slug
            != (#[trigger] kept[j]).slug by {
            if i < before.len() && j < before.len() {
                assert(before[i].slug != before[j].slug);
            }
        }
        assert forall|i: int| 0 <= i < kept.len() implies (#[trigger] kept[i]).created_at
            <= kept[i].updated_at <= clock by {
            assert(articles.contains(kept[i]));
            let m = choose|m: int| 0 <= m < articles.len() && articles[m] == kept[i];
            assert(articles[m].created_at <= articles[m].updated_at <= clock);
        }
        assert forall|j: int| 0 <= j < articles.len() && keep(articles[j]) implies has_article(
            kept,
            (#[trigger] articles[j]).id,
        ) by {
            if j < init.len() {
                assert(init[j] == articles[j]);
                assert(has_article(before, init[j].id));
                let k = article_pos(before, init[j].id);
                assert(kept[k].id == articles[j].id);
            } else {
                assert(kept[kept.len() - 1].id == articles[j].id);
            }
        }
    }
}

/// A selection of well-formed revisions, each with its article in `kept`, is
/// well-formed over `kept`: it keeps the order of the revisions, oldest
/// first, and holds only revisions of the list it was selected from.
pub proof fn lemma_filter_article_revisions(
    revisions: Seq<ArticleRevisionView>,
    articles: Seq<ArticleView>,
    kept: Seq<ArticleView>,
    clock: i64,
    keep: spec_fn(ArticleRevisionView) -> bool,
)
    requires
        article_revisions_wf(revisions, articles, clock),
        forall|i: int|
            0 <= i < revisions.len() && keep(#[trigger] revisions[i]) ==> has_article(
                kept,
                revisions[i].article_id,
            ),
    ensures
        article_revisions_wf(revisions.filter(keep), kept, clock),
        forall|k: int|
            0 <= k < revisions.filter(keep).len() ==> revisions.contains(
                #[trigger] revisions.filter(keep)[k],
            ),
    decreases revisions.len(),
{
    reveal(Seq::filter);
    let chosen = revisions.filter(keep);
    if revisions.len() > 0 {
        let init = revisions.drop_last();
        let last = revisions.last();
        assert(article_revisions_wf(init, articles, clock)) by {
            assert forall|i: int, j: int|
                0 <= i < init.len() && 0 <= j < init.len() && i != j implies (#[trigger] init[i]).id
                != (#[trigger] init[j]).id by {
                assert(revisions[i].id != revisions[j].id);
            }
            assert forall|i: int| 0 <= i < init.len() implies has_article(
                articles,
                (#[trigger] init[i]).article_id,
            ) by {
                assert(has_article(articles, revisions[i].article_id));
            }
            assert forall|i: int| 0 <= i < init.len() implies (#[trigger] init[i]).created_at
                <= clock by {
                assert(revisions[i].created_at <= clock);
            }
            assert forall|i: int, j: int| 0 <= i <= j < init.len() implies (
            #[trigger] init[i]).created_at <= (#[trigger] init[j]).created_at by {
                assert(revisions[i].created_at <= revisions[j].created_at);
            }
        }
        assert forall|i: int| 0 <= i < init.len() && keep(#[trigger] init[i]) implies has_article(
            kept,
            init[i].article_id,
        ) by {
            assert(init[i] == revisions[i]);
        }
        lemma_filter_article_revisions(init, articles, kept, clock, keep);
        let before = init.filter(keep);
        assert(revisions[revisions.len() - 1] == last);
        assert forall|k: int| 0 <= k < before.len() implies revisions.contains(
            #[trigger] before[k],
        ) && before[k].id != last.id && before[k].created_at <= last.created_at by {
            assert(init.contains(before[k]));
            let m = choose|m: int| 0 <= m < init.len() && init[m] == before[k];
            assert(revisions[m] == before[k]);
            assert(revisions[m].id != revisions[revisions.len() - 1].id);
            assert(revisions[m].created_at <= revisions[revisions.len() - 1].created_at);
        }
        assert forall|k: int| 0 <= k < chosen.len() implies revisions.contains(
            #[trigger] chosen[k],
        ) by {
            if k < before.len() {
                assert(chosen[k] == before[k]);
            }
        }
        assert forall|i: int, j: int|
            0 <= i < chosen.len() && 0 <= j < chosen.len() && i != j implies (
        #[trigger] chosen[i]).id != (#[trigger] chosen[j]).id by {
            if i < before.len() && j < before.len() {
                assert(before[i].id != before[j].id);
            }
        }
        assert forall|i: int| 0 <= i < chosen.len() implies has_article(
            kept,
            (#[trigger] chosen[i]).article_id,
        ) by {
            if i < before.len() {
                assert(has_article(kept, before[i].article_id));
            } else {
                assert(keep(last));
            }
        }
        assert forall|i: int| 0 <= i < chosen.len() implies (#[trigger] chosen[i]).created_at
            <= clock by {
            assert(revisions.contains(chosen[i]));
            let m = choose|m: int| 0 <= m < revisions.len() && revisions[m] == chosen[i];
            assert(revisions[m].created_at <= clock);
        }
        assert forall|i: int, j: int| 0 <= i <= j < chosen.len() implies (
        #[trigger] chosen[i]).created_at <= (#[trigger] chosen[j]).created_at by {
            if j < before.len() {
                assert(before[i].created_at <= before[j].created_at);
            } else if i < before.len() {
                assert(before[i].created_at <= last.created_at);
            }
        }
    }
}

/// How many articles of `articles` are due for publication at `clock`.
pub open spec fn due_article_count(articles: Seq<ArticleView>, clock: i64) -> nat {
    articles.filter(|article: ArticleView| due_for_publication(article.status, article.publish_at, clock)).len()
}

/// Publishes every article that is scheduled and whose publication time has
/// come, and returns how many there were.
pub fn publish_due_articles(db: &mut Database) -> (published: u64)
    requires
        old(db)@.wf(),
    ensures
        final(db)@.wf(),
        final(db)@ == after_publish_due_articles(old(db)@),
        published == due_article_count(old(db)@.articles, old(db)@.clock),
{
    let ghost before = db@;
    let ghost due = |article: ArticleView| due_for_publication(article.status, article.publish_at, before.clock);
    let now = db.clock;
    let mut articles: Vec<Article> = Vec::new();
    let mut published: usize = 0;
    let mut i: usize = 0;
    proof {
        lemma_prefix_full(before.articles);
        reveal(Seq::filter);
    }
    while i < db.articles.len()
        invariant
            i <= db.articles.len(),
            before == db@,
            now == before.clock,
            due == (|article: ArticleView|
                due_for_publication(article.status, article.publish_at, before.clock)),
            articles@.len() == i,
            forall|k: int|
                0 <= k < i ==> (#[trigger] articles@[k])@ == promoted_article(now)(before.articles[k]),
            published == before.articles.subrange(0, i as int).filter(due).len(),
            published <= i,
        decreases db.articles.len() - i,
    {
        proof {
            lemma_filter_step(before.articles, i as int, due);
        }
        let mut article = db.articles[i].duplicate();
        if is_due_for_publication(article.status.as_str(), article.publish_at, now) {
            article.status = String::from_str("published");
            article.updated_at = now;
            published += 1;
        }
        articles.push(article);
        i += 1;
    }
    proof {
        lemma_prefix_full(before.articles);
        assert(views(articles@) =~= before.articles.map_values(promoted_article(now)));
        lemma_promote_articles(before.articles, before.clock);
        lemma_article_revisions_follow(
            before.article_revisions,
            before.articles,
            before.articles.map_values(promoted_article(now)),
            before.clock,
        );
    }
    db.articles = articles;
    published as u64
}

/// Erases for good every article that is trashed and was trashed more than
/// the retention period ago, together with its revisions and its category
/// links, and returns how many articles were erased. Every other article, and
/// all that belongs to it, stays as it is.
pub fn purge_expired_articles(db: &mut Database) -> (erased: u64)
    requires
        old(db)@.wf(),
    ensures
        final(db)@.wf(),
        final(db)@ == after_purge_articles(old(db)@),
        erased == old(db)@.articles.len() - final(db)@.articles.len(),
{
    let ghost before = db@;
    let ghost keep = article_is_kept(before.clock);
    let now = db.clock;
    let mut articles: Vec<Article> = Vec::new();
    let mut i: usize = 0;
    proof {
        lemma_prefix_full(before.articles);
        reveal(Seq::filter);
    }
    while i < db.articles.len()
        invariant
            i <= db.articles.len(),
            before == db@,
            now == before.clock,
            keep == article_is_kept(before.clock),
            views(articles@) == before.articles.subrange(0, i as int).filter(keep),
            articles@.len() <= i,
        decreases db.articles.len() - i,
    {
        proof {
            lemma_filter_step(before.articles, i as int, keep);
        }
        if !is_expired_trash(db.articles[i].status.as_str(), db.articles[i].trashed_at, now) {
            let article = db.articles[i].duplicate();
            proof {
                lemma_views_push(articles@, article);
            }
            articles.push(article);
        }
        i += 1;
    }
    proof {
        lemma_prefix_full(before.articles);
    }
    let ghost kept = views(articles@);
    let ghost keep_revision = revision_has_article(kept);
    let mut revisions: Vec<ArticleRevision> = Vec::new();
    let mut j: usize = 0;
    proof {
        lemma_prefix_full(before.article_revisions);
    }
    while j < db.article_revisions.len()
        invariant
            j <= db.article_revisions.len(),
            before == db@,
            kept == views(articles@),
            keep_revision == revision_has_article(kept),
            views(revisions@) == before.article_revisions.subrange(0, j as int).filter(
                keep_revision,
            ),
        decreases db.article_revisions.len() - j,
    {
        proof {
            lemma_filter_step(before.article_revisions, j as int, keep_revision);
        }
        match find_article(&articles, db.article_revisions[j].article_id.as_str()) {
            Some(at) => {
                assert(kept[at as int].id == before.article_revisions[j as int].article_id);
                let revision = db.article_revisions[j].duplicate();
                proof {
                    lemma_views_push(revisions@, revision);
                }
                revisions.push(revision);
            },
            None => {},
        }
        j += 1;
    }
    let ghost keep_link = link_has_article(kept);
    let mut links: Vec<CategoryLink> = Vec::new();
    let mut k: usize = 0;
    proof {
        lemma_prefix_full(before.article_revisions);
        lemma_prefix_full(before.article_categories);
    }
    while k < db.article_categories.len()
        invariant
            k <= db.article_categories.len(),
            before == db@,
            kept == views(articles@),
            keep_link == link_has_article(kept),
            views(links@) == before.article_categories.subrange(0, k as int).filter(keep_link),
        decreases db.article_categories.len() - k,
    {
        proof {
            lemma_filter_step(before.article_categories, k as int, keep_link);
        }
        match find_article(&articles, db.article_categories[k].owner_id.as_str()) {
            Some(at) => {
                assert(kept[at as int].id == before.article_categories[k as int].owner_id);
                let link = CategoryLink {
                    owner_id: db.article_categories[k].owner_id.clone(),
                    category_id: db.article_categories[k].category_id.clone(),
                };
                proof {
                    lemma_views_push(links@, link);
                }
                links.push(link);
            },
            None => {},
        }
        k += 1;
    }
    proof {
        lemma_prefix_full(before.article_categories);
        lemma_filter_articles(before.articles, before.clock, keep);
        lemma_filter_article_revisions(
            before.article_revisions,
            before.articles,
            kept,
            before.clock,
            keep_revision,
        );
    }
    let erased = db.articles.len() - articles.len();
    db.articles = articles;
    db.article_revisions = revisions;
    db.article_categories = links;
    erased as u64
}

// ─── Laws ────────────────────────────────────────────────────────────────────

/// In a well-formed store no article was updated before it was created. Every
/// operation of this crate keeps the store well-formed, so this holds
/// after any mutation.
pub proof fn lemma_article_updated_after_created(db: DatabaseView, i: int)
    requires
        db.wf(),
        0 <= i < db.articles.len(),
    ensures
        db.articles[i].created_at <= db.articles[i].updated_at <= db.clock,
{
}

/// In a well-formed store no two articles hold the same slug.
pub proof fn lemma_article_slugs_are_unique(db: DatabaseView, i: int, j: int)
    requires
        db.wf(),
        0 <= i < db.articles.len(),
        0 <= j < db.articles.len(),
        db.articles[i].slug == db.articles[j].slug,
    ensures
        i == j,
{
}

/// The history of an article, as it is listed, stands newest first.
pub proof fn lemma_article_history_newest_first(db: DatabaseView, article_id: Seq<char>, a: int, b: int)
    requires
        db.wf(),
        0 <= a <= b < revisions_of_article(db.article_revisions, article_id).len(),
    ensures
        revisions_of_article(db.article_revisions, article_id).reverse().len() == revisions_of_article(
            db.article_revisions,
            article_id,
        ).len(),
        revisions_of_article(db.article_revisions, article_id).reverse()[a].created_at
            >= revisions_of_article(db.article_revisions, article_id).reverse()[b].created_at,
        revisions_of_article(db.article_revisions, article_id).reverse()[a].article_id == article_id,
{
    let keep = owned_by_article(article_id);
    let history = db.article_revisions.filter(keep);
    assert forall|i: int|
        0 <= i < db.article_revisions.len() && keep(#[trigger] db.article_revisions[i]) implies has_article(
        db.articles,
        db.article_revisions[i].article_id,
    ) by {}
    lemma_filter_article_revisions(db.article_revisions, db.articles, db.articles, db.clock, keep);
    let n = history.len();
    assert(history.reverse()[a] == history[n - 1 - a]);
    assert(history.reverse()[b] == history[n - 1 - b]);
    assert(history[n - 1 - b].created_at <= history[n - 1 - a].created_at);
    db.article_revisions.lemma_filter_pred(keep, n - 1 - a);
}

/// One more revision in the table never takes a revision from any article,
/// and gives exactly one to the article it belongs to.
pub proof fn lemma_article_revisions_grow(
    revisions: Seq<ArticleRevisionView>,
    revision: ArticleRevisionView,
    article_id: Seq<char>,
)
    ensures
        revisions_of_article(revisions.push(revision), article_id) == if revision.article_id == article_id {
            revisions_of_article(revisions, article_id).push(revision)
        } else {
            revisions_of_article(revisions, article_id)
        },
        revisions_of_article(revisions.push(revision), article_id).len() >= revisions_of_article(
            revisions,
            article_id,
        ).len(),
{
    reveal(Seq::filter);
    assert(revisions.push(revision).drop_last() =~= revisions);
}

/// Creating an article gives it exactly one revision, which holds its title,
/// summary and content, and takes no revision from any other article.
pub proof fn lemma_create_article_seeds_history(
    db: DatabaseView,
    input: CreateArticleView,
    author_id: Seq<char>,
    id: Seq<char>,
    revision_id: Seq<char>,
    audit_id: Seq<char>,
    other: Seq<char>,
)
    requires
        db.wf(),
        create_article_error(db, input, id, revision_id) is None,
    ensures
        revisions_of_article(
            after_create_article(db, input, author_id, id, revision_id, audit_id).article_revisions,
            id,
        ) == seq![
            article_snapshot(revision_id, new_article(input, author_id, id, db.clock), author_id, db.clock),
        ],
        other != id ==> revisions_of_article(
            after_create_article(db, input, author_id, id, revision_id, audit_id).article_revisions,
            other,
        ) == revisions_of_article(db.article_revisions, other),
{
    let article = new_article(input, author_id, id, db.clock);
    let snapshot = article_snapshot(revision_id, article, author_id, db.clock);
    lemma_article_revisions_grow(db.article_revisions, snapshot, id);
    lemma_article_revisions_grow(db.article_revisions, snapshot, other);
    let keep = owned_by_article(id);
    assert(forall|k: int|
        0 <= k < db.article_revisions.len() ==> !keep(#[trigger] db.article_revisions[k])) by {
        assert forall|k: int| 0 <= k < db.article_revisions.len() implies !keep(
            #[trigger] db.article_revisions[k],
        ) by {
            assert(has_article(db.articles, db.article_revisions[k].article_id));
        }
    }
    db.article_revisions.lemma_all_neg_filter_empty(keep);
    assert(revisions_of_article(db.article_revisions, id).push(snapshot) =~= seq![snapshot]);
}

/// Updating an article appends exactly one revision to its history, which
/// holds the merged title, summary and content, and leaves the history of every
/// other article as it is.
pub proof fn lemma_update_article_appends_revision(
    db: DatabaseView,
    id: Seq<char>,
    input: UpdateArticleView,
    user_id: Seq<char>,
    revision_id: Seq<char>,
    audit_id: Seq<char>,
    other: Seq<char>,
)
    requires
        db.wf(),
        update_article_error(db, id, input, revision_id) is None,
    ensures
        revisions_of_article(
            after_update_article(db, id, input, user_id, revision_id, audit_id).article_revisions,
            id,
        ) == revisions_of_article(db.article_revisions, id).push(
            article_snapshot(
                revision_id,
                merged_article(db.articles[article_pos(db.articles, id)], input, db.clock),
                user_id,
                db.clock,
            ),
        ),
        other != id ==> revisions_of_article(
            after_update_article(db, id, input, user_id, revision_id, audit_id).article_revisions,
            other,
        ) == revisions_of_article(db.article_revisions, other),
{
    let merged = merged_article(db.articles[article_pos(db.articles, id)], input, db.clock);
    let snapshot = article_snapshot(revision_id, merged, user_id, db.clock);
    lemma_article_revisions_grow(db.article_revisions, snapshot, id);
    lemma_article_revisions_grow(db.article_revisions, snapshot, other);
}

/// No update changes the id of an article, its author, the time of its
/// creation or the time at which it was trashed.
pub proof fn lemma_update_keeps_article_identity(existing: ArticleView, input: UpdateArticleView, clock: i64)
    ensures
        merged_article(existing, input, clock).id == existing.id,
        merged_article(existing, input, clock).author_id == existing.author_id,
        merged_article(existing, input, clock).created_at == existing.created_at,
        merged_article(existing, input, clock).trashed_at == existing.trashed_at,
        merged_article(existing, input, clock).updated_at == clock,
{
}

/// An update that supplies only a title changes the title and the update
/// time of the article, derives its reading time anew from the unchanged
/// content, and changes nothing else of it.
pub proof fn lemma_title_only_update(existing: ArticleView, title: Seq<char>, clock: i64)
    ensures
        merged_article(
            existing,
            UpdateArticleView {
                title: Some(title),
                slug: None,
                short_text: None,
                content: None,
                status: None,
                publish_at: None,
                category_ids: None,
                cover_image_id: None,
            },
            clock,
        ) == (ArticleView {
            title,
            updated_at: clock,
            reading_time_minutes: reading_time_of(existing.content),
            ..existing
        }),
{
}

/// Erasing the expired articles leaves the history of every article that stays
/// as it is.
pub proof fn lemma_purge_keeps_article_revisions(
    revisions: Seq<ArticleRevisionView>,
    kept: Seq<ArticleView>,
    article_id: Seq<char>,
)
    requires
        has_article(kept, article_id),
    ensures
        revisions_of_article(revisions.filter(revision_has_article(kept)), article_id) == revisions_of_article(
            revisions,
            article_id,
        ),
    decreases revisions.len(),
{
    reveal(Seq::filter);
    if revisions.len() > 0 {
        lemma_purge_keeps_article_revisions(revisions.drop_last(), kept, article_id);
        let chosen = revisions.drop_last().filter(revision_has_article(kept));
        if revision_has_article(kept)(revisions.last()) {
            assert(chosen.push(revisions.last()).drop_last() =~= chosen);
        }
    }
}

/// Trashing an article twice gives what trashing it once at the later time
/// gives: a trashed article whose time in the trash counts from the last call.
pub proof fn lemma_trash_article_twice(article: ArticleView, first: i64, second: i64)
    ensures
        trashed_article(trashed_article(article, first), second) == trashed_article(article, second),
        trashed_article(article, second).status == status_trashed(),
        trashed_article(article, second).trashed_at == Some(second),
{
}

/// An article just trashed can be restored, and an article just restored or
/// published cannot.
pub proof fn lemma_restore_needs_trash(article: ArticleView, clock: i64)
    ensures
        trashed_article(article, clock).status == status_trashed(),
        restored_article(article, clock).status != status_trashed(),
        published_article(article, clock).status != status_trashed(),
        restored_article(article, clock).trashed_at is None,
{
    lemma_status_names_differ();
}

/// Once an article is created, no second article can be created under the same
/// slug: of two creations whose slugs collide the second is rejected with
/// `Conflict`.
pub proof fn lemma_second_article_with_slug_conflicts(
    db: DatabaseView,
    first: CreateArticleView,
    author_id: Seq<char>,
    id: Seq<char>,
    revision_id: Seq<char>,
    audit_id: Seq<char>,
    second: CreateArticleView,
)
    requires
        resolved_slug(second.title, second.slug) == resolved_slug(first.title, first.slug),
    ensures
        create_article_rejection(
            after_create_article(db, first, author_id, id, revision_id, audit_id),
            second,
        ) == Some(
            AppErrorView::Conflict(
                slug_conflict_message(resolved_slug(first.title, first.slug)),
            ),
        ),
{
    let after = after_create_article(db, first, author_id, id, revision_id, audit_id);
    let slug = resolved_slug(first.title, first.slug);
    assert(after.articles[db.articles.len() as int].slug == slug);
}

/// Of two creations of an article under the same slug, with ids that are free
/// for the first, the first succeeds and the second is rejected with
/// `Conflict`; after them exactly one article holds the slug, and it has
/// exactly one revision.
pub proof fn lemma_two_article_creations_with_one_slug(
    db: DatabaseView,
    first: CreateArticleView,
    second: CreateArticleView,
    author_id: Seq<char>,
    id: Seq<char>,
    revision_id: Seq<char>,
    audit_id: Seq<char>,
    second_id: Seq<char>,
    second_revision_id: Seq<char>,
)
    requires
        db.wf(),
        slug_available(db.articles, resolved_slug(first.title, first.slug), None),
        !has_article(db.articles, id),
        !has_article_revision(db.article_revisions, revision_id),
        resolved_slug(second.title, second.slug) == resolved_slug(first.title, first.slug),
    ensures
        create_article_error(db, first, id, revision_id) is None,
        create_article_error(
            after_create_article(db, first, author_id, id, revision_id, audit_id),
            second,
            second_id,
            second_revision_id,
        ) == Some(
            AppErrorView::Conflict(
                slug_conflict_message(resolved_slug(first.title, first.slug)),
            ),
        ),
        after_create_article(db, first, author_id, id, revision_id, audit_id).articles.len()
            == db.articles.len() + 1,
        forall|i: int|
            0 <= i < db.articles.len() + 1 ==> ((#[trigger] after_create_article(
                db,
                first,
                author_id,
                id,
                revision_id,
                audit_id,
            ).articles[i]).slug == resolved_slug(first.title, first.slug) <==> i == db.articles.len()),
        revisions_of_article(
            after_create_article(db, first, author_id, id, revision_id, audit_id).article_revisions,
            id,
        ).len() == 1,
{
    let after = after_create_article(db, first, author_id, id, revision_id, audit_id);
    let slug = resolved_slug(first.title, first.slug);
    lemma_second_article_with_slug_conflicts(db, first, author_id, id, revision_id, audit_id, second);
    lemma_create_article_seeds_history(db, first, author_id, id, revision_id, audit_id, id);
    assert forall|i: int| 0 <= i < db.articles.len() + 1 implies ((#[trigger] after.articles[i]).slug
        == slug <==> i == db.articles.len()) by {
        if i < db.articles.len() {
            assert(db.articles[i].slug != slug);
        }
    }
}

/// A creation that names its slug takes the slug as given: where no article
/// holds it and the ids are free, the creation succeeds, the new article has
/// that slug and the title of the input, and every article that was there
/// stays, each under another slug.
pub proof fn lemma_create_article_with_explicit_slug(
    db: DatabaseView,
    input: CreateArticleView,
    author_id: Seq<char>,
    id: Seq<char>,
    revision_id: Seq<char>,
    audit_id: Seq<char>,
    slug: Seq<char>,
)
    requires
        db.wf(),
        input.slug == Some(slug),
        slug_available(db.articles, slug, None),
        !has_article(db.articles, id),
        !has_article_revision(db.article_revisions, revision_id),
    ensures
        create_article_error(db, input, id, revision_id) is None,
        new_article(input, author_id, id, db.clock).slug == slug,
        new_article(input, author_id, id, db.clock).title == input.title,
        after_create_article(db, input, author_id, id, revision_id, audit_id).articles == db.articles.push(
            new_article(input, author_id, id, db.clock),
        ),
        after_create_article(db, input, author_id, id, revision_id, audit_id).wf(),
        forall|i: int| 0 <= i < db.articles.len() ==> (#[trigger] db.articles[i]).slug != slug,
{
    lemma_create_article_keeps_wf(db, input, author_id, id, revision_id, audit_id);
}

/// After the due articles were published none is due any more, and an article
/// that was due is now published.
pub proof fn lemma_no_article_due_after_sweep(db: DatabaseView, i: int)
    requires
        0 <= i < db.articles.len(),
    ensures
        !due_for_publication(
            after_publish_due_articles(db).articles[i].status,
            after_publish_due_articles(db).articles[i].publish_at,
            db.clock,
        ),
        due_for_publication(db.articles[i].status, db.articles[i].publish_at, db.clock)
            ==> after_publish_due_articles(db).articles[i] == published_article(db.articles[i], db.clock),
        !due_for_publication(db.articles[i].status, db.articles[i].publish_at, db.clock)
            ==> after_publish_due_articles(db).articles[i] == db.articles[i],
{
    lemma_status_names_differ();
}

/// What erasing the expired articles does to a single article: one that is
/// trashed for longer than the retention period is gone, any other stays
/// unchanged.
pub proof fn lemma_purge_articles_by_article(db: DatabaseView, i: int)
    requires
        db.wf(),
        0 <= i < db.articles.len(),
    ensures
        expired_trash(db.articles[i].status, db.articles[i].trashed_at, db.clock) ==> !has_article(
            after_purge_articles(db).articles,
            db.articles[i].id,
        ),
        !expired_trash(db.articles[i].status, db.articles[i].trashed_at, db.clock) ==> has_article(
            after_purge_articles(db).articles,
            db.articles[i].id,
        ) && after_purge_articles(db).articles[article_pos(after_purge_articles(db).articles, db.articles[i].id)]
            == db.articles[i],
{
    let keep = article_is_kept(db.clock);
    let kept = db.articles.filter(keep);
    lemma_filter_articles(db.articles, db.clock, keep);
    if has_article(kept, db.articles[i].id) {
        let k = article_pos(kept, db.articles[i].id);
        assert(db.articles.contains(kept[k]));
        let m = choose|m: int| 0 <= m < db.articles.len() && db.articles[m] == kept[k];
        if m != i {
            assert(db.articles[m].id != db.articles[i].id);
        }
        assert(keep(kept[k]));
    }
}

/// Creating an article keeps the store well-formed.
pub proof fn lemma_create_article_keeps_wf(
    db: DatabaseView,
    input: CreateArticleView,
    author_id: Seq<char>,
    id: Seq<char>,
    revision_id: Seq<char>,
    audit_id: Seq<char>,
)
    requires
        db.wf(),
        create_article_error(db, input, id, revision_id) is None,
    ensures
        after_create_article(db, input, author_id, id, revision_id, audit_id).wf(),
{
    let article = new_article(input, author_id, id, db.clock);
    lemma_push_article(db.articles, db.clock, article);
    lemma_article_revisions_follow(db.article_revisions, db.articles, db.articles.push(article), db.clock);
    lemma_push_article_revision(
        db.article_revisions,
        db.articles.push(article),
        db.clock,
        article_snapshot(revision_id, article, author_id, db.clock),
    );
}

/// Updating an article keeps the store well-formed.
pub proof fn lemma_update_article_keeps_wf(
    db: DatabaseView,
    id: Seq<char>,
    input: UpdateArticleView,
    user_id: Seq<char>,
    revision_id: Seq<char>,
    audit_id: Seq<char>,
)
    requires
        db.wf(),
        update_article_error(db, id, input, revision_id) is None,
    ensures
        after_update_article(db, id, input, user_id, revision_id, audit_id).wf(),
{
    let pos = article_pos(db.articles, id);
    let merged = merged_article(db.articles[pos], input, db.clock);
    lemma_replace_article(db.articles, db.clock, pos, merged);
    let articles = db.articles.update(pos, merged);
    lemma_article_revisions_follow(db.article_revisions, db.articles, articles, db.clock);
    assert(articles[pos].id == id);
    lemma_push_article_revision(
        db.article_revisions,
        articles,
        db.clock,
        article_snapshot(revision_id, merged, user_id, db.clock),
    );
}

/// Publishing, trashing and restoring an article keep the store well-formed.
pub proof fn lemma_article_transitions_keep_wf(
    db: DatabaseView,
    id: Seq<char>,
    user_id: Seq<char>,
    action: Seq<char>,
    audit_id: Seq<char>,
)
    requires
        db.wf(),
        has_article(db.articles, id),
    ensures
        after_article_transition(
            db,
            id,
            published_article(db.articles[article_pos(db.articles, id)], db.clock),
            user_id,
            action,
            audit_id,
        ).wf(),
        after_article_transition(
            db,
            id,
            trashed_article(db.articles[article_pos(db.articles, id)], db.clock),
            user_id,
            action,
            audit_id,
        ).wf(),
        after_article_transition(
            db,
            id,
            restored_article(db.articles[article_pos(db.articles, id)], db.clock),
            user_id,
            action,
            audit_id,
        ).wf(),
{
    let pos = article_pos(db.articles, id);
    let article = db.articles[pos];
    lemma_replace_article(db.articles, db.clock, pos, published_article(article, db.clock));
    lemma_replace_article(db.articles, db.clock, pos, trashed_article(article, db.clock));
    lemma_replace_article(db.articles, db.clock, pos, restored_article(article, db.clock));
    lemma_article_revisions_follow(
        db.article_revisions,
        db.articles,
        db.articles.update(pos, published_article(article, db.clock)),
        db.clock,
    );
    lemma_article_revisions_follow(
        db.article_revisions,
        db.articles,
        db.articles.update(pos, trashed_article(article, db.clock)),
        db.clock,
    );
    lemma_article_revisions_follow(
        db.article_revisions,
        db.articles,
        db.articles.update(pos, restored_article(article, db.clock)),
        db.clock,
    );
}

/// Publishing the due articles and erasing the expired ones keep the store
/// well-formed.
pub proof fn lemma_article_sweeps_keep_wf(db: DatabaseView)
    requires
        db.wf(),
    ensures
        after_publish_due_articles(db).wf(),
        after_purge_articles(db).wf(),
{
    lemma_promote_articles(db.articles, db.clock);
    lemma_article_revisions_follow(
        db.article_revisions,
        db.articles,
        db.articles.map_values(promoted_article(db.clock)),
        db.clock,
    );
    let kept = db.articles.filter(article_is_kept(db.clock));
    lemma_filter_articles(db.articles, db.clock, article_is_kept(db.clock));
    lemma_filter_article_revisions(
        db.article_revisions,
        db.articles,
        kept,
        db.clock,
        revision_has_article(kept),
    );
}

/// Erasing the expired articles a second time right after the first finds
/// nothing to erase.
pub proof fn lemma_purge_articles_twice(db: DatabaseView)
    requires
        db.wf(),
    ensures
        after_purge_articles(after_purge_articles(db)).articles == after_purge_articles(db).articles,
{
    let keep = article_is_kept(db.clock);
    let kept = db.articles.filter(keep);
    lemma_filter_articles(db.articles, db.clock, keep);
    lemma_filter_all(kept, keep);
}

// ─── Lists ───────────────────────────────────────────────────────────────────

/// Selects the articles that a list shows: those with the status asked for,
/// or, where none is asked for, all that are not trashed.
pub open spec fn listed_article(filter: Option<Seq<char>>) -> spec_fn(ArticleView) -> bool {
    |article: ArticleView|
        match filter {
            Some(status) => article.status == status,
            None => article.status != status_trashed(),
        }
}

/// The update times of a list of articles.
pub open spec fn article_update_times(articles: Seq<ArticleView>) -> Seq<i64> {
    articles.map_values(|article: ArticleView| article.updated_at)
}

/// A list of articles with the article updated last in front; articles updated at
/// the same time stay in their order.
pub open spec fn articles_latest_first(articles: Seq<ArticleView>) -> Seq<ArticleView> {
    arranged(articles, descending_order(article_update_times(articles)))
}

/// One page of the list of articles with a given status, or of all articles that
/// are not trashed, with the article updated last in front.
pub fn list_articles(db: &Database, params: &PaginationParams, status_filter: Option<&str>) -> (r:
    AppResult<PaginatedResponse<Article>>)
    requires
        db@.wf(),
    ensures
        r is Ok,
        views(r->Ok_0.data@) == window(
            articles_latest_first(db@.articles.filter(listed_article(opt_str_view(status_filter)))),
            params.skipped_spec(),
            params.per_page_spec() as int,
        ),
        r->Ok_0.total == row_count(
            db@.articles.filter(listed_article(opt_str_view(status_filter))).len(),
        ),
        r->Ok_0.page == params.page_number_spec(),
        r->Ok_0.per_page == params.per_page_spec(),
{
    let ghost all = db@.articles;
    let ghost keep = listed_article(opt_str_view(status_filter));
    let mut picked: Vec<usize> = Vec::new();
    let mut keys: Vec<i64> = Vec::new();
    let mut i: usize = 0;
    proof {
        lemma_prefix_full(all);
        reveal(Seq::filter);
    }
    while i < db.articles.len()
        invariant
            i <= db.articles.len(),
            all == views(db.articles@),
            keep == listed_article(opt_str_view(status_filter)),
            picked@.len() == all.subrange(0, i as int).filter(keep).len(),
            keys@ == article_update_times(all.subrange(0, i as int).filter(keep)),
            forall|k: int|
                0 <= k < picked@.len() ==> (#[trigger] picked@[k]) < db.articles.len()
                    && all[picked@[k] as int] == all.subrange(0, i as int).filter(keep)[k],
        decreases db.articles.len() - i,
    {
        proof {
            lemma_filter_step(all, i as int, keep);
        }
        let shown = match status_filter {
            Some(status) => str_eq(db.articles[i].status.as_str(), status),
            None => !str_eq(db.articles[i].status.as_str(), "trashed"),
        };
        if shown {
            proof {
                let before = all.subrange(0, i as int).filter(keep);
                assert(article_update_times(before.push(all[i as int])) =~= article_update_times(
                    before,
                ).push(all[i as int].updated_at));
            }
            picked.push(i);
            keys.push(db.articles[i].updated_at);
        }
        i += 1;
    }
    proof {
        lemma_prefix_full(all);
    }
    let ghost selected = all.filter(keep);
    let order = sort_descending(&keys);
    let ghost sorted = articles_latest_first(selected);
    let (from, to) = window_bounds(order.len(), params.skipped(), params.per_page());
    let mut data: Vec<Article> = Vec::new();
    let mut k: usize = from;
    while k < to
        invariant
            from <= k <= to <= order@.len(),
            all == views(db.articles@),
            order@.len() == selected.len(),
            picked@.len() == selected.len(),
            sorted == arranged(selected, positions(order@)),
            forall|j: int| 0 <= j < order@.len() ==> 0 <= (#[trigger] positions(order@)[j])
                < selected.len(),
            forall|j: int|
                0 <= j < picked@.len() ==> (#[trigger] picked@[j]) < db.articles.len()
                    && all[picked@[j] as int] == selected[j],
            data@.len() == k - from,
            forall|j: int| 0 <= j < data@.len() ==> (#[trigger] data@[j])@ == sorted[from + j],
        decreases to - k,
    {
        proof {
            assert(positions(order@)[k as int] == order@[k as int] as int);
        }
        let at = picked[order[k]];
        data.push(db.articles[at].duplicate());
        k += 1;
    }
    assert(views(data@) =~= sorted.subrange(from as int, to as int));
    Ok(
        PaginatedResponse {
            data,
            total: count_rows(picked.len()),
            page: params.page_number(),
            per_page: params.per_page(),
        },
    )
}

/// A list with the latest update in front holds the articles of the list it
/// was made of, each once, and no article in it was updated after one that
/// stands before it.
pub proof fn lemma_articles_latest_first(articles: Seq<ArticleView>, a: int, b: int)
    requires
        0 <= a <= b < articles.len(),
    ensures
        articles_latest_first(articles).len() == articles.len(),
        articles_latest_first(articles)[a].updated_at >= articles_latest_first(articles)[b].updated_at,
        articles.contains(articles_latest_first(articles)[a]),
{
    crate::sorting::lemma_descending_order(article_update_times(articles));
    let order = descending_order(article_update_times(articles));
    assert(0 <= order[a] < articles.len());
    assert(0 <= order[b] < articles.len());
    if a < b {
        assert(article_update_times(articles)[order[a]] >= article_update_times(articles)[order[b]]);
    }
    assert(articles[order[a]] == articles_latest_first(articles)[a]);
}

/// Selects the articles that lie in the trash.
pub open spec fn article_in_trash() -> spec_fn(ArticleView) -> bool {
    |article: ArticleView| article.status == status_trashed()
}

/// The key by which the trash is ordered: the time at which an article was
/// trashed; an article without such a time counts as trashed before all
/// others.
pub open spec fn article_trash_times(articles: Seq<ArticleView>) -> Seq<i64> {
    articles.map_values(
        |article: ArticleView|
            match article.trashed_at {
                Some(at) => at,
                None => i64::MIN,
            },
    )
}

/// The articles in the trash, the article trashed last in front; articles trashed
/// at the same time stay in their order.
pub open spec fn trashed_articles(articles: Seq<ArticleView>) -> Seq<ArticleView> {
    arranged(
        articles.filter(article_in_trash()),
        descending_order(article_trash_times(articles.filter(article_in_trash()))),
    )
}

/// The articles that lie in the trash, the article trashed last in front.
pub fn list_trashed_articles(db: &Database) -> (r: Vec<Article>)
    requires
        db@.wf(),
    ensures
        views(r@) == trashed_articles(db@.articles),
{
    let ghost all = db@.articles;
    let ghost keep = article_in_trash();
    let mut picked: Vec<usize> = Vec::new();
    let mut keys: Vec<i64> = Vec::new();
    let mut i: usize = 0;
    proof {
        lemma_prefix_full(all);
        reveal(Seq::filter);
    }
    while i < db.articles.len()
        invariant
            i <= db.articles.len(),
            all == views(db.articles@),
            keep == article_in_trash(),
            picked@.len() == all.subrange(0, i as int).filter(keep).len(),
            keys@ == article_trash_times(all.subrange(0, i as int).filter(keep)),
            forall|k: int|
                0 <= k < picked@.len() ==> (#[trigger] picked@[k]) < db.articles.len()
                    && all[picked@[k] as int] == all.subrange(0, i as int).filter(keep)[k],
        decreases db.articles.len() - i,
    {
        proof {
            lemma_filter_step(all, i as int, keep);
        }
        if str_eq(db.articles[i].status.as_str(), "trashed") {
            let key = match db.articles[i].trashed_at {
                Some(at) => at,
                None => i64::MIN,
            };
            proof {
                let before = all.subrange(0, i as int).filter(keep);
                assert(article_trash_times(before.push(all[i as int])) =~= article_trash_times(
                    before,
                ).push(key));
            }
            picked.push(i);
            keys.push(key);
        }
        i += 1;
    }
    proof {
        lemma_prefix_full(all);
    }
    let ghost selected = all.filter(keep);
    let order = sort_descending(&keys);
    let ghost sorted = trashed_articles(all);
    let mut data: Vec<Article> = Vec::new();
    let mut k: usize = 0;
    while k < order.len()
        invariant
            k <= order@.len(),
            all == views(db.articles@),
            order@.len() == selected.len(),
            picked@.len() == selected.len(),
            sorted == arranged(selected, positions(order@)),
            forall|j: int| 0 <= j < order@.len() ==> 0 <= (#[trigger] positions(order@)[j])
                < selected.len(),
            forall|j: int|
                0 <= j < picked@.len() ==> (#[trigger] picked@[j]) < db.articles.len()
                    && all[picked@[j] as int] == selected[j],
            data@.len() == k,
            forall|j: int| 0 <= j < data@.len() ==> (#[trigger] data@[j])@ == sorted[j],
        decreases order@.len() - k,
    {
        proof {
            assert(positions(order@)[k as int] == order@[k as int] as int);
        }
        let at = picked[order[k]];
        data.push(db.articles[at].duplicate());
        k += 1;
    }
    assert(views(data@) =~= sorted);
    data
}

/// Publishing, trashing and restoring an article, and publishing the due
/// articles, leave every history as it is.
pub proof fn lemma_transitions_keep_article_revisions(
    db: DatabaseView,
    id: Seq<char>,
    article: ArticleView,
    user_id: Seq<char>,
    action: Seq<char>,
    audit_id: Seq<char>,
)
    ensures
        after_article_transition(db, id, article, user_id, action, audit_id).article_revisions
            == db.article_revisions,
        after_publish_due_articles(db).article_revisions == db.article_revisions,
{
}

// ─── Reading time ────────────────────────────────────────────────────────────

/// How many words are read in a minute.
pub const WORDS_PER_MINUTE: usize = 200;

/// Whether the end of `html` lies inside a tag: after a `<` that no `>`
/// has closed.
pub open spec fn inside_tag(html: Seq<char>) -> bool
    decreases html.len(),
{
    if html.len() == 0 {
        false
    } else if html.last() == '<' {
        true
    } else if html.last() == '>' {
        false
    } else {
        inside_tag(html.drop_last())
    }
}

/// The text of `html` without its tags: each tag, from `<` to `>`, stands
/// as one space.
pub open spec fn visible_text(html: Seq<char>) -> Seq<char>
    decreases html.len(),
{
    if html.len() == 0 {
        Seq::empty()
    } else {
        let init = html.drop_last();
        let c = html.last();
        if c == '<' {
            visible_text(init)
        } else if c == '>' {
            visible_text(init).push(' ')
        } else if !inside_tag(init) {
            visible_text(init).push(c)
        } else {
            visible_text(init)
        }
    }
}

/// Minutes that reading `words` words takes, rounded up, and never less
/// than one; a time beyond the range of the result counts as its maximum.
pub open spec fn reading_minutes(words: nat) -> i32 {
    let minutes = (words + WORDS_PER_MINUTE - 1) / (WORDS_PER_MINUTE as int);
    if minutes < 1 {
        1
    } else if minutes > i32::MAX {
        i32::MAX
    } else {
        minutes as i32
    }
}

/// The reading time of an HTML text, in minutes.
pub open spec fn reading_time_of(html: Seq<char>) -> i32 {
    reading_minutes(word_count(visible_text(html)))
}

/// The tags of a text do not add characters to it.
pub proof fn lemma_visible_text_bound(html: Seq<char>)
    ensures
        visible_text(html).len() <= html.len(),
    decreases html.len(),
{
    if html.len() > 0 {
        lemma_visible_text_bound(html.drop_last());
    }
}

/// Estimates the time it takes to read an HTML text, at 200 words a
/// minute: the tags are left out, the words in between are counted, and
/// the minutes are rounded up. The result is never less than one minute.
pub fn estimate_reading_time(html: &str) -> (minutes: i32)
    ensures
        minutes == reading_time_of(html@),
        minutes >= 1,
{
    let chars = chars_of(html);
    let mut in_tag = false;
    let mut after_space = true;
    let mut words: usize = 0;
    let mut i: usize = 0;
    assert(chars@.subrange(0, 0) =~= Seq::<char>::empty());
    while i < chars.len()
        invariant
            i <= chars.len(),
            chars@ == html@,
            in_tag == inside_tag(chars@.subrange(0, i as int)),
            words == word_count(visible_text(chars@.subrange(0, i as int))),
            words <= i,
            after_space == (visible_text(chars@.subrange(0, i as int)).len() == 0 || is_whitespace(
                visible_text(chars@.subrange(0, i as int)).last(),
            )),
        decreases chars.len() - i,
    {
        let c = chars[i];
        proof {
            let next = chars@.subrange(0, i as int + 1);
            assert(next.drop_last() =~= chars@.subrange(0, i as int));
            assert(next.last() == c);
            let text = visible_text(chars@.subrange(0, i as int));
            assert(text.push(' ').drop_last() =~= text);
            assert(text.push(c).drop_last() =~= text);
            lemma_visible_text_bound(next);
            lemma_word_count_bound(visible_text(next));
        }
        if c == '<' {
            in_tag = true;
        } else if c == '>' {
            in_tag = false;
            after_space = true;
        } else if !in_tag {
            let space = char_is_whitespace(c);
            if !space && after_space {
                words += 1;
            }
            after_space = space;
        }
        i += 1;
    }
    assert(chars@.subrange(0, i as int) =~= chars@);
    let minutes = words / WORDS_PER_MINUTE + if words % WORDS_PER_MINUTE > 0 {
        1usize
    } else {
        0usize
    };
    assert(minutes == (words + WORDS_PER_MINUTE - 1) / (WORDS_PER_MINUTE as int)) by (nonlinear_arith)
        requires
            minutes == words / WORDS_PER_MINUTE + if words % WORDS_PER_MINUTE > 0 {
                1usize
            } else {
                0usize
            },
            WORDS_PER_MINUTE == 200,
    ;
    if minutes < 1 {
        1
    } else if minutes > 2147483647 {
        2147483647
    } else {
        minutes as i32
    }
}

// ─── Public lists ────────────────────────────────────────────────────────────

/// Selects the published articles.
pub open spec fn article_is_public() -> spec_fn(ArticleView) -> bool {
    |article: ArticleView| article.status == status_published()
}

/// The creation times of a list of articles.
pub open spec fn article_creation_times(articles: Seq<ArticleView>) -> Seq<i64> {
    articles.map_values(|article: ArticleView| article.created_at)
}

/// A list of articles with the article created last in front; articles
/// created at the same time stay in their order.
pub open spec fn articles_newest_first(articles: Seq<ArticleView>) -> Seq<ArticleView> {
    arranged(articles, descending_order(article_creation_times(articles)))
}

/// Whether two owners share a category.
pub open spec fn shares_category(links: Seq<CategoryLinkView>, a: Seq<char>, b: Seq<char>) -> bool {
    exists|i: int, j: int|
        0 <= i < links.len() && 0 <= j < links.len() && (#[trigger] links[i]).owner_id == a && (
        #[trigger] links[j]).owner_id == b && links[i].category_id == links[j].category_id
}

/// Selects the articles related to the article `id`: the other articles
/// that are published and share a category with it.
pub open spec fn related_article(links: Seq<CategoryLinkView>, id: Seq<char>) -> spec_fn(
    ArticleView,
) -> bool {
    |article: ArticleView|
        article.id != id && article.status == status_published() && shares_category(
            links,
            article.id,
            id,
        )
}

/// Whether the owners `a` and `b` share a category.
pub fn share_category(links: &Vec<CategoryLink>, a: &str, b: &str) -> (r: bool)
    ensures
        r == shares_category(views(links@), a@, b@),
{
    let ghost all = views(links@);
    let mut i: usize = 0;
    while i < links.len()
        invariant
            i <= links.len(),
            all == views(links@),
            forall|x: int, y: int|
                0 <= x < i && 0 <= y < all.len() ==> !((#[trigger] all[x]).owner_id == a@ && (
                #[trigger] all[y]).owner_id == b@ && all[x].category_id == all[y].category_id),
        decreases links.len() - i,
    {
        if str_eq(links[i].owner_id.as_str(), a) {
            let mut j: usize = 0;
            while j < links.len()
                invariant
                    j <= links.len(),
                    i < links.len(),
                    all == views(links@),
                    all[i as int].owner_id == a@,
                    forall|y: int|
                        0 <= y < j ==> !((#[trigger] all[y]).owner_id == b@ && all[i as int].category_id
                            == all[y].category_id),
                decreases links.len() - j,
            {
                if str_eq(links[j].owner_id.as_str(), b) && str_eq(
                    links[i].category_id.as_str(),
                    links[j].category_id.as_str(),
                ) {
                    assert(all[i as int].owner_id == a@ && all[j as int].owner_id == b@
                        && all[i as int].category_id == all[j as int].category_id);
                    return true;
                }
                j += 1;
            }
        }
        i += 1;
    }
    false
}

/// Copies the articles whose positions `picked` lists, in the order that
/// `order` gives, from `from` up to `to`.
fn gather_articles(
    articles: &Vec<Article>,
    picked: &Vec<usize>,
    order: &Vec<usize>,
    from: usize,
    to: usize,
    Ghost(selected): Ghost<Seq<ArticleView>>,
) -> (data: Vec<Article>)
    requires
        from <= to <= order@.len(),
        order@.len() == selected.len(),
        picked@.len() == selected.len(),
        forall|j: int| 0 <= j < order@.len() ==> 0 <= (#[trigger] positions(order@)[j])
            < selected.len(),
        forall|j: int|
            0 <= j < picked@.len() ==> (#[trigger] picked@[j]) < articles.len() && views(
                articles@,
            )[picked@[j] as int] == selected[j],
    ensures
        views(data@) == arranged(selected, positions(order@)).subrange(from as int, to as int),
{
    let ghost sorted = arranged(selected, positions(order@));
    let mut data: Vec<Article> = Vec::new();
    let mut k: usize = from;
    while k < to
        invariant
            from <= k <= to <= order@.len(),
            order@.len() == selected.len(),
            picked@.len() == selected.len(),
            sorted == arranged(selected, positions(order@)),
            forall|j: int| 0 <= j < order@.len() ==> 0 <= (#[trigger] positions(order@)[j])
                < selected.len(),
            forall|j: int|
                0 <= j < picked@.len() ==> (#[trigger] picked@[j]) < articles.len() && views(
                    articles@,
                )[picked@[j] as int] == selected[j],
            data@.len() == k - from,
            forall|j: int| 0 <= j < data@.len() ==> (#[trigger] data@[j])@ == sorted[from + j],
        decreases to - k,
    {
        proof {
            assert(positions(order@)[k as int] == order@[k as int] as int);
        }
        let at = picked[order[k]];
        data.push(articles[at].duplicate());
        k += 1;
    }
    assert(views(data@) =~= sorted.subrange(from as int, to as int));
    data
}

/// One page of the list of published articles, newest first: what the
/// public site shows.
pub fn list_published_articles(db: &Database, params: &PaginationParams) -> (r: AppResult<
    PaginatedResponse<Article>,
>)
    requires
        db@.wf(),
    ensures
        r is Ok,
        views(r->Ok_0.data@) == window(
            articles_newest_first(db@.articles.filter(article_is_public())),
            params.skipped_spec(),
            params.per_page_spec() as int,
        ),
        r->Ok_0.total == row_count(db@.articles.filter(article_is_public()).len()),
        r->Ok_0.page == params.page_number_spec(),
        r->Ok_0.per_page == params.per_page_spec(),
{
    let ghost all = db@.articles;
    let ghost keep = article_is_public();
    let mut picked: Vec<usize> = Vec::new();
    let mut keys: Vec<i64> = Vec::new();
    let mut i: usize = 0;
    proof {
        lemma_prefix_full(all);
        reveal(Seq::filter);
    }
    while i < db.articles.len()
        invariant
            i <= db.articles.len(),
            all == views(db.articles@),
            keep == article_is_public(),
            picked@.len() == all.subrange(0, i as int).filter(keep).len(),
            keys@ == article_creation_times(all.subrange(0, i as int).filter(keep)),
            forall|k: int|
                0 <= k < picked@.len() ==> (#[trigger] picked@[k]) < db.articles.len()
                    && all[picked@[k] as int] == all.subrange(0, i as int).filter(keep)[k],
        decreases db.articles.len() - i,
    {
        proof {
            lemma_filter_step(all, i as int, keep);
        }
        if str_eq(db.articles[i].status.as_str(), "published") {
            proof {
                let before = all.subrange(0, i as int).filter(keep);
                assert(article_creation_times(before.push(all[i as int]))
                    =~= article_creation_times(before).push(all[i as int].created_at));
            }
            picked.push(i);
            keys.push(db.articles[i].created_at);
        }
        i += 1;
    }
    proof {
        lemma_prefix_full(all);
    }
    let order = sort_descending(&keys);
    let (from, to) = window_bounds(order.len(), params.skipped(), params.per_page());
    let data = gather_articles(&db.articles, &picked, &order, from, to, Ghost(all.filter(keep)));
    Ok(
        PaginatedResponse {
            data,
            total: count_rows(picked.len()),
            page: params.page_number(),
            per_page: params.per_page(),
        },
    )
}

/// How many rows a limit admits out of `len`: all of them for a negative
/// limit, else no more than the limit.
pub open spec fn limited(len: nat, limit: i64) -> int {
    if limit < 0 || limit > len {
        len as int
    } else {
        limit as int
    }
}

/// The published articles that share a category with the article
/// `article_id`, newest first, no more than `limit` of them; a negative
/// limit admits all.
pub fn get_related_articles(db: &Database, article_id: &str, limit: i64) -> (r: AppResult<
    Vec<Article>,
>)
    requires
        db@.wf(),
    ensures
        r is Ok,
        views(r->Ok_0@) == articles_newest_first(
            db@.articles.filter(related_article(db@.article_categories, article_id@)),
        ).subrange(
            0,
            limited(
                db@.articles.filter(related_article(db@.article_categories, article_id@)).len(),
                limit,
            ),
        ),
{
    let ghost all = db@.articles;
    let ghost keep = related_article(db@.article_categories, article_id@);
    let mut picked: Vec<usize> = Vec::new();
    let mut keys: Vec<i64> = Vec::new();
    let mut i: usize = 0;
    proof {
        lemma_prefix_full(all);
        reveal(Seq::filter);
    }
    while i < db.articles.len()
        invariant
            i <= db.articles.len(),
            all == views(db.articles@),
            keep == related_article(db@.article_categories, article_id@),
            picked@.len() == all.subrange(0, i as int).filter(keep).len(),
            keys@ == article_creation_times(all.subrange(0, i as int).filter(keep)),
            forall|k: int|
                0 <= k < picked@.len() ==> (#[trigger] picked@[k]) < db.articles.len()
                    && all[picked@[k] as int] == all.subrange(0, i as int).filter(keep)[k],
        decreases db.articles.len() - i,
    {
        proof {
            lemma_filter_step(all, i as int, keep);
        }
        if !str_eq(db.articles[i].id.as_str(), article_id) && str_eq(
            db.articles[i].status.as_str(),
            "published",
        ) && share_category(&db.article_categories, db.articles[i].id.as_str(), article_id) {
            proof {
                let before = all.subrange(0, i as int).filter(keep);
                assert(article_creation_times(before.push(all[i as int]))
                    =~= article_creation_times(before).push(all[i as int].created_at));
            }
            picked.push(i);
            keys.push(db.articles[i].created_at);
        }
        i += 1;
    }
    proof {
        lemma_prefix_full(all);
    }
    let order = sort_descending(&keys);
    let to: usize = if limit < 0 || limit as u64 > order.len() as u64 {
        order.len()
    } else {
        limit as usize
    };
    let data = gather_articles(&db.articles, &picked, &order, 0, to, Ghost(all.filter(keep)));
    Ok(data)
}

} // verus!
