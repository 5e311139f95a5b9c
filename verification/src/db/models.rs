//! Rows of the content store and the inputs of the operations on them.
//!
//! Every row type has a view: the same record with its strings as sequences
//! of characters. Contracts throughout the crate speak of views. Timestamps
//! are whole seconds since the Unix epoch.

use vstd::prelude::*;

verus! {

/// View of an optional string.
pub open spec fn opt_text(o: Option<String>) -> Option<Seq<char>> {
    match o {
        Some(s) => Some(s@),
        None => None,
    }
}

/// Views of a sequence of rows, element by element.
pub open spec fn views<T: View>(s: Seq<T>) -> Seq<T::V> {
    Seq::new(s.len(), |i: int| s[i]@)
}

/// The views of a sequence extended by one row.
pub proof fn lemma_views_push<T: View>(s: Seq<T>, x: T)
    ensures
        views(s.push(x)) == views(s).push(x@),
{
    assert(views(s.push(x)) =~= views(s).push(x@));
}

/// The views of a sequence with one row replaced.
pub proof fn lemma_views_update<T: View>(s: Seq<T>, i: int, x: T)
    requires
        0 <= i < s.len(),
    ensures
        views(s.update(i, x)) == views(s).update(i, x@),
{
    assert(views(s.update(i, x)) =~= views(s).update(i, x@));
}

/// A prefix of a sequence extended by the next element.
pub proof fn lemma_prefix_step<T>(s: Seq<T>, i: int)
    requires
        0 <= i < s.len(),
    ensures
        s.subrange(0, i + 1) == s.subrange(0, i).push(s[i]),
        s.subrange(0, i + 1).drop_last() == s.subrange(0, i),
        s.subrange(0, i + 1).last() == s[i],
{
    assert(s.subrange(0, i + 1) =~= s.subrange(0, i).push(s[i]));
    assert(s.subrange(0, i + 1).drop_last() =~= s.subrange(0, i));
}

/// The whole sequence is its own longest prefix.
pub proof fn lemma_prefix_full<T>(s: Seq<T>)
    ensures
        s.subrange(0, s.len() as int) == s,
        s.subrange(0, 0) == Seq::<T>::empty(),
{
    assert(s.subrange(0, s.len() as int) =~= s);
    assert(s.subrange(0, 0) =~= Seq::<T>::empty());
}

/// Filtering a prefix extended by the next element.
pub proof fn lemma_filter_step<T>(s: Seq<T>, i: int, keep: spec_fn(T) -> bool)
    requires
        0 <= i < s.len(),
    ensures
        s.subrange(0, i + 1).filter(keep) == if keep(s[i]) {
            s.subrange(0, i).filter(keep).push(s[i])
        } else {
            s.subrange(0, i).filter(keep)
        },
{
    lemma_prefix_step(s, i);
    reveal(Seq::filter);
}

/// A selection that every element passes is the whole sequence.
pub proof fn lemma_filter_all<T>(s: Seq<T>, keep: spec_fn(T) -> bool)
    requires
        forall|i: int| 0 <= i < s.len() ==> keep(#[trigger] s[i]),
    ensures
        s.filter(keep) == s,
    decreases s.len(),
{
    reveal(Seq::filter);
    if s.len() > 0 {
        lemma_filter_all(s.drop_last(), keep);
        assert(s.drop_last().push(s.last()) =~= s);
    }
}

/// Copies an optional string.
pub fn copy_opt_text(o: &Option<String>) -> (r: Option<String>)
    ensures
        opt_text(r) == opt_text(*o),
{
    match o {
        Some(s) => Some(s.clone()),
        None => None,
    }
}

// ─── Pages ───────────────────────────────────────────────────────────────────

/// A page: one of the two kinds of content item.
#[derive(Debug, Clone, PartialEq, Eq)]
pub struct Page {
    pub id: String,
    pub title: String,
    pub slug: String,
    pub content: String,
    pub status: String,
    pub publish_at: Option<i64>,
    pub author_id: String,
    pub created_at: i64,
    pub updated_at: i64,
    pub trashed_at: Option<i64>,
}

/// View of a [`Page`].
pub ghost struct PageView {
    pub id: Seq<char>,
    pub title: Seq<char>,
    pub slug: Seq<char>,
    pub content: Seq<char>,
    pub status: Seq<char>,
    pub publish_at: Option<i64>,
    pub author_id: Seq<char>,
    pub created_at: i64,
    pub updated_at: i64,
    pub trashed_at: Option<i64>,
}

impl View for Page {
    type V = PageView;

    open spec fn view(&self) -> PageView {
        PageView {
            id: self.id@,
            title: self.title@,
            slug: self.slug@,
            content: self.content@,
            status: self.status@,
            publish_at: self.publish_at,
            author_id: self.author_id@,
            created_at: self.created_at,
            updated_at: self.updated_at,
            trashed_at: self.trashed_at,
        }
    }
}

impl Page {
    /// A copy of this row.
    pub fn duplicate(&self) -> (r: Page)
        ensures
            r@ == self@,
    {
        Page {
            id: self.id.clone(),
            title: self.title.clone(),
            slug: self.slug.clone(),
            content: self.content.clone(),
            status: self.status.clone(),
            publish_at: self.publish_at,
            author_id: self.author_id.clone(),
            created_at: self.created_at,
            updated_at: self.updated_at,
            trashed_at: self.trashed_at,
        }
    }
}

/// An immutable snapshot of a page's title and content.
#[derive(Debug, Clone, PartialEq, Eq)]
pub struct PageRevision {
    pub id: String,
    pub page_id: String,
    pub title: String,
    pub content: String,
    pub author_id: String,
    pub created_at: i64,
}

/// View of a [`PageRevision`].
pub ghost struct PageRevisionView {
    pub id: Seq<char>,
    pub page_id: Seq<char>,
    pub title: Seq<char>,
    pub content: Seq<char>,
    pub author_id: Seq<char>,
    pub created_at: i64,
}

impl View for PageRevision {
    type V = PageRevisionView;

    open spec fn view(&self) -> PageRevisionView {
        PageRevisionView {
            id: self.id@,
            page_id: self.page_id@,
            title: self.title@,
            content: self.content@,
            author_id: self.author_id@,
            created_at: self.created_at,
        }
    }
}

impl PageRevision {
    /// A copy of this row.
    pub fn duplicate(&self) -> (r: PageRevision)
        ensures
            r@ == self@,
    {
        PageRevision {
            id: self.id.clone(),
            page_id: self.page_id.clone(),
            title: self.title.clone(),
            content: self.content.clone(),
            author_id: self.author_id.clone(),
            created_at: self.created_at,
        }
    }
}

/// View of an optional list of strings.
pub open spec fn opt_texts(o: Option<Vec<String>>) -> Option<Seq<Seq<char>>> {
    match o {
        Some(v) => Some(views(v@)),
        None => None,
    }
}

/// Input of page creation.
#[derive(Debug, Clone)]
pub struct CreatePage {
    pub title: String,
    pub slug: Option<String>,
    pub content: Option<String>,
    pub status: Option<String>,
    pub publish_at: Option<i64>,
    pub category_ids: Option<Vec<String>>,
}

/// View of a [`CreatePage`].
pub ghost struct CreatePageView {
    pub title: Seq<char>,
    pub slug: Option<Seq<char>>,
    pub content: Option<Seq<char>>,
    pub status: Option<Seq<char>>,
    pub publish_at: Option<i64>,
    pub category_ids: Option<Seq<Seq<char>>>,
}

impl View for CreatePage {
    type V = CreatePageView;

    open spec fn view(&self) -> CreatePageView {
        CreatePageView {
            title: self.title@,
            slug: opt_text(self.slug),
            content: opt_text(self.content),
            status: opt_text(self.status),
            publish_at: self.publish_at,
            category_ids: opt_texts(self.category_ids),
        }
    }
}

/// Input of a partial page update: a field that is `None` keeps its value.
#[derive(Debug, Clone)]
pub struct UpdatePage {
    pub title: Option<String>,
    pub slug: Option<String>,
    pub content: Option<String>,
    pub status: Option<String>,
    pub publish_at: Option<i64>,
    pub category_ids: Option<Vec<String>>,
}

/// View of an [`UpdatePage`].
pub ghost struct UpdatePageView {
    pub title: Option<Seq<char>>,
    pub slug: Option<Seq<char>>,
    pub content: Option<Seq<char>>,
    pub status: Option<Seq<char>>,
    pub publish_at: Option<i64>,
    pub category_ids: Option<Seq<Seq<char>>>,
}

impl View for UpdatePage {
    type V = UpdatePageView;

    open spec fn view(&self) -> UpdatePageView {
        UpdatePageView {
            title: opt_text(self.title),
            slug: opt_text(self.slug),
            content: opt_text(self.content),
            status: opt_text(self.status),
            publish_at: self.publish_at,
            category_ids: opt_texts(self.category_ids),
        }
    }
}

// ─── Articles ────────────────────────────────────────────────────────────────

/// An article: a content item with a summary and a reading time.
#[derive(Debug, Clone, PartialEq, Eq)]
pub struct Article {
    pub id: String,
    pub title: String,
    pub slug: String,
    pub short_text: String,
    pub content: String,
    pub status: String,
    pub publish_at: Option<i64>,
    pub author_id: String,
    pub created_at: i64,
    pub updated_at: i64,
    pub trashed_at: Option<i64>,
    pub cover_image_id: Option<String>,
    pub reading_time_minutes: i32,
}

/// View of an [`Article`].
pub ghost struct ArticleView {
    pub id: Seq<char>,
    pub title: Seq<char>,
    pub slug: Seq<char>,
    pub short_text: Seq<char>,
    pub content: Seq<char>,
    pub status: Seq<char>,
    pub publish_at: Option<i64>,
    pub author_id: Seq<char>,
    pub created_at: i64,
    pub updated_at: i64,
    pub trashed_at: Option<i64>,
    pub cover_image_id: Option<Seq<char>>,
    pub reading_time_minutes: i32,
}

impl View for Article {
    type V = ArticleView;

    open spec fn view(&self) -> ArticleView {
        ArticleView {
            id: self.id@,
            title: self.title@,
            slug: self.slug@,
            short_text: self.short_text@,
            content: self.content@,
            status: self.status@,
            publish_at: self.publish_at,
            author_id: self.author_id@,
            created_at: self.created_at,
            updated_at: self.updated_at,
            trashed_at: self.trashed_at,
            cover_image_id: opt_text(self.cover_image_id),
            reading_time_minutes: self.reading_time_minutes,
        }
    }
}

impl Article {
    /// A copy of this row.
    pub fn duplicate(&self) -> (r: Article)
        ensures
            r@ == self@,
    {
        Article {
            id: self.id.clone(),
            title: self.title.clone(),
            slug: self.slug.clone(),
            short_text: self.short_text.clone(),
            content: self.content.clone(),
            status: self.status.clone(),
            publish_at: self.publish_at,
            author_id: self.author_id.clone(),
            created_at: self.created_at,
            updated_at: self.updated_at,
            trashed_at: self.trashed_at,
            cover_image_id: copy_opt_text(&self.cover_image_id),
            reading_time_minutes: self.reading_time_minutes,
        }
    }
}

/// An immutable snapshot of an article's title, summary and content.
#[derive(Debug, Clone, PartialEq, Eq)]
pub struct ArticleRevision {
    pub id: String,
    pub article_id: String,
    pub title: String,
    pub short_text: String,
    pub content: String,
    pub author_id: String,
    pub created_at: i64,
}

/// View of an [`ArticleRevision`].
pub ghost struct ArticleRevisionView {
    pub id: Seq<char>,
    pub article_id: Seq<char>,
    pub title: Seq<char>,
    pub short_text: Seq<char>,
    pub content: Seq<char>,
    pub author_id: Seq<char>,
    pub created_at: i64,
}

impl View for ArticleRevision {
    type V = ArticleRevisionView;

    open spec fn view(&self) -> ArticleRevisionView {
        ArticleRevisionView {
            id: self.id@,
            article_id: self.article_id@,
            title: self.title@,
            short_text: self.short_text@,
            content: self.content@,
            author_id: self.author_id@,
            created_at: self.created_at,
        }
    }
}

impl ArticleRevision {
    /// A copy of this row.
    pub fn duplicate(&self) -> (r: ArticleRevision)
        ensures
            r@ == self@,
    {
        ArticleRevision {
            id: self.id.clone(),
            article_id: self.article_id.clone(),
            title: self.title.clone(),
            short_text: self.short_text.clone(),
            content: self.content.clone(),
            author_id: self.author_id.clone(),
            created_at: self.created_at,
        }
    }
}

/// Input of article creation.
#[derive(Debug, Clone)]
pub struct CreateArticle {
    pub title: String,
    pub slug: Option<String>,
    pub short_text: Option<String>,
    pub content: Option<String>,
    pub status: Option<String>,
    pub publish_at: Option<i64>,
    pub category_ids: Option<Vec<String>>,
    pub cover_image_id: Option<String>,
}

/// View of a [`CreateArticle`].
pub ghost struct CreateArticleView {
    pub title: Seq<char>,
    pub slug: Option<Seq<char>>,
    pub short_text: Option<Seq<char>>,
    pub content: Option<Seq<char>>,
    pub status: Option<Seq<char>>,
    pub publish_at: Option<i64>,
    pub category_ids: Option<Seq<Seq<char>>>,
    pub cover_image_id: Option<Seq<char>>,
}

impl View for CreateArticle {
    type V = CreateArticleView;

    open spec fn view(&self) -> CreateArticleView {
        CreateArticleView {
            title: self.title@,
            slug: opt_text(self.slug),
            short_text: opt_text(self.short_text),
            content: opt_text(self.content),
            status: opt_text(self.status),
            publish_at: self.publish_at,
            category_ids: opt_texts(self.category_ids),
            cover_image_id: opt_text(self.cover_image_id),
        }
    }
}

/// Input of a partial article update: a field that is `None` keeps its
/// value.
#[derive(Debug, Clone)]
pub struct UpdateArticle {
    pub title: Option<String>,
    pub slug: Option<String>,
    pub short_text: Option<String>,
    pub content: Option<String>,
    pub status: Option<String>,
    pub publish_at: Option<i64>,
    pub category_ids: Option<Vec<String>>,
    pub cover_image_id: Option<String>,
}

/// View of an [`UpdateArticle`].
pub ghost struct UpdateArticleView {
    pub title: Option<Seq<char>>,
    pub slug: Option<Seq<char>>,
    pub short_text: Option<Seq<char>>,
    pub content: Option<Seq<char>>,
    pub status: Option<Seq<char>>,
    pub publish_at: Option<i64>,
    pub category_ids: Option<Seq<Seq<char>>>,
    pub cover_image_id: Option<Seq<char>>,
}

impl View for UpdateArticle {
    type V = UpdateArticleView;

    open spec fn view(&self) -> UpdateArticleView {
        UpdateArticleView {
            title: opt_text(self.title),
            slug: opt_text(self.slug),
            short_text: opt_text(self.short_text),
            content: opt_text(self.content),
            status: opt_text(self.status),
            publish_at: self.publish_at,
            category_ids: opt_texts(self.category_ids),
            cover_image_id: opt_text(self.cover_image_id),
        }
    }
}

// ─── Categories ──────────────────────────────────────────────────────────────

/// A category of the flat taxonomy.
#[derive(Debug, Clone, PartialEq, Eq)]
pub struct Category {
    pub id: String,
    pub name: String,
    pub slug: String,
}

/// View of a [`Category`].
pub ghost struct CategoryView {
    pub id: Seq<char>,
    pub name: Seq<char>,
    pub slug: Seq<char>,
}

impl View for Category {
    type V = CategoryView;

    open spec fn view(&self) -> CategoryView {
        CategoryView { id: self.id@, name: self.name@, slug: self.slug@ }
    }
}

impl Category {
    /// A copy of this row.
    pub fn duplicate(&self) -> (r: Category)
        ensures
            r@ == self@,
    {
        Category { id: self.id.clone(), name: self.name.clone(), slug: self.slug.clone() }
    }
}

/// Assignment of a category to a content item.
#[derive(Debug, Clone, PartialEq, Eq)]
pub struct CategoryLink {
    pub owner_id: String,
    pub category_id: String,
}

/// View of a [`CategoryLink`].
pub ghost struct CategoryLinkView {
    pub owner_id: Seq<char>,
    pub category_id: Seq<char>,
}

impl View for CategoryLink {
    type V = CategoryLinkView;

    open spec fn view(&self) -> CategoryLinkView {
        CategoryLinkView { owner_id: self.owner_id@, category_id: self.category_id@ }
    }
}

// ─── Users and sessions ──────────────────────────────────────────────────────

/// A user of the admin interface.
#[derive(Debug, Clone, PartialEq, Eq)]
pub struct User {
    pub id: String,
    pub external_id: String,
    pub email: String,
    pub display_name: String,
    pub role: String,
    pub created_at: i64,
    pub last_login: Option<i64>,
}

/// View of a [`User`].
pub ghost struct UserView {
    pub id: Seq<char>,
    pub external_id: Seq<char>,
    pub email: Seq<char>,
    pub display_name: Seq<char>,
    pub role: Seq<char>,
    pub created_at: i64,
    pub last_login: Option<i64>,
}

impl View for User {
    type V = UserView;

    open spec fn view(&self) -> UserView {
        UserView {
            id: self.id@,
            external_id: self.external_id@,
            email: self.email@,
            display_name: self.display_name@,
            role: self.role@,
            created_at: self.created_at,
            last_login: self.last_login,
        }
    }
}

impl User {
    /// A copy of this row.
    pub fn duplicate(&self) -> (r: User)
        ensures
            r@ == self@,
    {
        User {
            id: self.id.clone(),
            external_id: self.external_id.clone(),
            email: self.email.clone(),
            display_name: self.display_name.clone(),
            role: self.role.clone(),
            created_at: self.created_at,
            last_login: self.last_login,
        }
    }
}

/// An authenticated session of a user.
#[derive(Debug, Clone, PartialEq, Eq)]
pub struct Session {
    pub id: String,
    pub user_id: String,
    pub token: String,
    pub expires_at: i64,
    pub created_at: i64,
}

/// View of a [`Session`].
pub ghost struct SessionView {
    pub id: Seq<char>,
    pub user_id: Seq<char>,
    pub token: Seq<char>,
    pub expires_at: i64,
    pub created_at: i64,
}

impl View for Session {
    type V = SessionView;

    open spec fn view(&self) -> SessionView {
        SessionView {
            id: self.id@,
            user_id: self.user_id@,
            token: self.token@,
            expires_at: self.expires_at,
            created_at: self.created_at,
        }
    }
}

impl Session {
    /// A copy of this row.
    pub fn duplicate(&self) -> (r: Session)
        ensures
            r@ == self@,
    {
        Session {
            id: self.id.clone(),
            user_id: self.user_id.clone(),
            token: self.token.clone(),
            expires_at: self.expires_at,
            created_at: self.created_at,
        }
    }
}

// ─── Audit log ───────────────────────────────────────────────────────────────

/// One entry of the audit log: who did what to which entity.
#[derive(Debug, Clone, PartialEq, Eq)]
pub struct AuditLogEntry {
    pub id: String,
    pub user_id: String,
    pub action: String,
    pub entity_type: String,
    pub entity_id: String,
    pub details: String,
    pub created_at: i64,
}

/// View of an [`AuditLogEntry`].
pub ghost struct AuditLogEntryView {
    pub id: Seq<char>,
    pub user_id: Seq<char>,
    pub action: Seq<char>,
    pub entity_type: Seq<char>,
    pub entity_id: Seq<char>,
    pub details: Seq<char>,
    pub created_at: i64,
}

impl View for AuditLogEntry {
    type V = AuditLogEntryView;

    open spec fn view(&self) -> AuditLogEntryView {
        AuditLogEntryView {
            id: self.id@,
            user_id: self.user_id@,
            action: self.action@,
            entity_type: self.entity_type@,
            entity_id: self.entity_id@,
            details: self.details@,
            created_at: self.created_at,
        }
    }
}

impl AuditLogEntry {
    /// A copy of this row.
    pub fn duplicate(&self) -> (r: AuditLogEntry)
        ensures
            r@ == self@,
    {
        AuditLogEntry {
            id: self.id.clone(),
            user_id: self.user_id.clone(),
            action: self.action.clone(),
            entity_type: self.entity_type.clone(),
            entity_id: self.entity_id.clone(),
            details: self.details.clone(),
            created_at: self.created_at,
        }
    }
}

// ─── Media, apps, menus, settings ────────────────────────────────────────────

/// An uploaded file.
#[derive(Debug, Clone, PartialEq, Eq)]
pub struct Media {
    pub id: String,
    pub filename: String,
    pub original_filename: String,
    pub mime_type: String,
    pub size_bytes: i64,
    pub width: Option<i32>,
    pub height: Option<i32>,
    pub alt_text: String,
    pub is_icon: bool,
    pub uploaded_by: String,
    pub created_at: i64,
}

/// An entry of the app catalogue.
#[derive(Debug, Clone, PartialEq, Eq)]
pub struct App {
    pub id: String,
    pub name: String,
    pub description: String,
    pub icon_id: Option<String>,
    pub url: Option<String>,
    pub page_id: Option<String>,
    pub sort_order: i32,
    pub created_at: i64,
    pub updated_at: i64,
}

/// View of an [`App`].
pub ghost struct AppView {
    pub id: Seq<char>,
    pub name: Seq<char>,
    pub description: Seq<char>,
    pub icon_id: Option<Seq<char>>,
    pub url: Option<Seq<char>>,
    pub page_id: Option<Seq<char>>,
    pub sort_order: i32,
    pub created_at: i64,
    pub updated_at: i64,
}

impl View for App {
    type V = AppView;

    open spec fn view(&self) -> AppView {
        AppView {
            id: self.id@,
            name: self.name@,
            description: self.description@,
            icon_id: opt_text(self.icon_id),
            url: opt_text(self.url),
            page_id: opt_text(self.page_id),
            sort_order: self.sort_order,
            created_at: self.created_at,
            updated_at: self.updated_at,
        }
    }
}

/// A navigation menu.
#[derive(Debug, Clone, PartialEq, Eq)]
pub struct Menu {
    pub id: String,
    pub name: String,
}

/// An item of a navigation menu.
#[derive(Debug, Clone, PartialEq, Eq)]
pub struct MenuItem {
    pub id: String,
    pub menu_id: String,
    pub label: String,
    pub link_type: String,
    pub link_target: String,
    pub parent_id: Option<String>,
    pub sort_order: i32,
}

/// View of a [`MenuItem`].
pub ghost struct MenuItemView {
    pub id: Seq<char>,
    pub menu_id: Seq<char>,
    pub label: Seq<char>,
    pub link_type: Seq<char>,
    pub link_target: Seq<char>,
    pub parent_id: Option<Seq<char>>,
    pub sort_order: i32,
}

impl View for MenuItem {
    type V = MenuItemView;

    open spec fn view(&self) -> MenuItemView {
        MenuItemView {
            id: self.id@,
            menu_id: self.menu_id@,
            label: self.label@,
            link_type: self.link_type@,
            link_target: self.link_target@,
            parent_id: opt_text(self.parent_id),
            sort_order: self.sort_order,
        }
    }
}

/// One site setting.
#[derive(Debug, Clone, PartialEq, Eq)]
pub struct SiteSetting {
    pub key: String,
    pub value: String,
    pub updated_at: i64,
}

/// Input of category creation.
#[derive(Debug, Clone)]
pub struct CreateCategory {
    pub name: String,
    pub slug: Option<String>,
}

/// Input of app creation.
#[derive(Debug, Clone)]
pub struct CreateApp {
    pub name: String,
    pub description: Option<String>,
    pub icon_id: Option<String>,
    pub url: Option<String>,
    pub page_id: Option<String>,
}

/// Input of a partial app update: a field that is `None` keeps its value.
#[derive(Debug, Clone)]
pub struct UpdateApp {
    pub name: Option<String>,
    pub description: Option<String>,
    pub icon_id: Option<String>,
    pub url: Option<String>,
    pub page_id: Option<String>,
}

/// Input of a menu update: the items that replace the menu's.
#[derive(Debug, Clone)]
pub struct UpdateMenu {
    pub items: Vec<MenuItemInput>,
}

/// One item of a menu update. The id is present for an item that exists
/// and absent for a new one.
#[derive(Debug, Clone)]
pub struct MenuItemInput {
    pub id: Option<String>,
    pub label: String,
    pub link_type: String,
    pub link_target: String,
    pub parent_id: Option<String>,
    pub sort_order: i32,
}

/// One hit of the search over all kinds of entity.
#[derive(Debug, Clone, PartialEq, Eq)]
pub struct SearchResult {
    pub result_type: String,
    pub id: String,
    pub title: String,
    pub slug: String,
    pub snippet: String,
}

// ─── Pagination ──────────────────────────────────────────────────────────────

/// Page size where the caller names none.
pub const DEFAULT_PER_PAGE: u32 = 20;

/// Largest page size.
pub const MAX_PER_PAGE: u32 = 100;

/// The page and page size that a caller asks for, both optional.
#[derive(Debug, Clone, Copy, PartialEq, Eq)]
pub struct PaginationParams {
    pub page: Option<u32>,
    pub per_page: Option<u32>,
}

impl PaginationParams {
    /// The page number: the one asked for, at least 1; without one, 1.
    pub open spec fn page_number_spec(&self) -> u32 {
        match self.page {
            Some(p) => if p < 1 {
                1
            } else {
                p
            },
            None => 1,
        }
    }

    /// The page size: the one asked for, held within 1 and the largest
    /// size; without one, the default.
    pub open spec fn per_page_spec(&self) -> u32 {
        match self.per_page {
            Some(n) => if n < 1 {
                1
            } else if n > MAX_PER_PAGE {
                MAX_PER_PAGE
            } else {
                n
            },
            None => DEFAULT_PER_PAGE,
        }
    }

    /// How many rows come before the page.
    pub open spec fn skipped_spec(&self) -> int {
        (self.page_number_spec() - 1) * self.per_page_spec()
    }

    /// The page number: page numbers below 1 count as page 1.
    pub fn page_number(&self) -> (r: u32)
        ensures
            r == self.page_number_spec(),
            r >= 1,
    {
        match self.page {
            Some(p) => if p < 1 {
                1
            } else {
                p
            },
            None => 1,
        }
    }

    /// The page size, held within 1 and 100; 20 where the caller names
    /// none.
    pub fn per_page(&self) -> (r: u32)
        ensures
            r == self.per_page_spec(),
            1 <= r <= MAX_PER_PAGE,
    {
        match self.per_page {
            Some(n) => if n < 1 {
                1
            } else if n > MAX_PER_PAGE {
                MAX_PER_PAGE
            } else {
                n
            },
            None => DEFAULT_PER_PAGE,
        }
    }

    /// The number of rows to skip: `(page - 1) * per_page`, for a page
    /// whose offset fits the result.
    pub fn offset(&self) -> (r: u32)
        requires
            self.skipped_spec() <= u32::MAX,
        ensures
            r == self.skipped_spec(),
    {
        let page = self.page_number();
        let size = self.per_page();
        assert((page - 1) * size == self.skipped_spec());
        (page - 1) * size
    }

    /// The number of rows to skip, for any page.
    pub fn skipped(&self) -> (r: u64)
        ensures
            r == self.skipped_spec(),
    {
        let page = self.page_number() as u64;
        let size = self.per_page() as u64;
        assert((page - 1) * size <= 0xFFFF_FFFF * 100) by (nonlinear_arith)
            requires
                1 <= page <= 0xFFFF_FFFF,
                1 <= size <= 100,
        ;
        (page - 1) * size
    }

    /// Whether the offset of the page fits the result of `offset`.
    pub fn offset_fits(&self) -> (r: bool)
        ensures
            r == (self.skipped_spec() <= u32::MAX),
    {
        self.skipped() <= 0xFFFF_FFFF
    }
}

/// One page of a list, with the number of all rows that the list holds.
#[derive(Debug, Clone, PartialEq, Eq)]
pub struct PaginatedResponse<T> {
    pub data: Vec<T>,
    pub total: i64,
    pub page: u32,
    pub per_page: u32,
}

} // verus!
