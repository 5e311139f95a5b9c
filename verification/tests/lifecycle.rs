use pawtal::api::trash::{empty, list};
use pawtal::db::models::{CreateArticle, CreatePage, UpdateArticle, UpdatePage};
use pawtal::db::Database;
use pawtal::error::AppError;
use pawtal::services::articles::{
    create_article, create_article_with_ids, get_article, publish_article, restore_article, trash_article, update_article,
};
use pawtal::services::pages::{
    create_page, create_page_with_ids, get_page, get_page_by_slug, publish_page, restore_page,
    trash_page, update_page,
};
use pawtal::tasks::{run_scheduled_tasks, tick};

const DAY: i64 = 86_400;

fn new_article(title: &str) -> CreateArticle {
    CreateArticle {
        title: title.to_owned(),
        slug: None,
        short_text: None,
        content: None,
        status: None,
        publish_at: None,
        category_ids: None,
        cover_image_id: None,
    }
}

fn new_page(title: &str) -> CreatePage {
    CreatePage {
        title: title.to_owned(),
        slug: None,
        content: None,
        status: None,
        publish_at: None,
        category_ids: None,
    }
}

fn no_article_change() -> UpdateArticle {
    UpdateArticle {
        title: None,
        slug: None,
        short_text: None,
        content: None,
        status: None,
        publish_at: None,
        category_ids: None,
        cover_image_id: None,
    }
}

#[test]
fn article_slug_is_derived_from_title() {
    let mut db = Database::new(1_000);
    let article = create_article(&mut db, new_article("Hello World"), "u1").unwrap();
    assert_eq!(article.slug, "hello-world");
    assert_eq!(article.status, "draft");
    assert_eq!(article.author_id, "u1");
    assert_eq!(article.created_at, 1_000);
    assert_eq!(article.updated_at, 1_000);
    assert_eq!(article.trashed_at, None);
    assert_eq!(article.reading_time_minutes, 1);
}

#[test]
fn second_article_with_colliding_slug_conflicts() {
    let mut db = Database::new(1_000);
    create_article(&mut db, new_article("Hello World"), "u1").unwrap();
    let second = create_article(&mut db, new_article("Hello World!"), "u1");
    assert_eq!(
        second,
        Err(AppError::Conflict("An article with slug 'hello-world' already exists".to_owned()))
    );
    let mut explicit = new_article("Hello World!");
    explicit.slug = Some("hello-again".to_owned());
    let third = create_article(&mut db, explicit, "u1").unwrap();
    assert_eq!(third.slug, "hello-again");
}

#[test]
fn same_slug_is_free_across_content_types() {
    let mut db = Database::new(0);
    create_article(&mut db, new_article("Hello World"), "u1").unwrap();
    let page = create_page(&mut db, new_page("Hello World"), "u1").unwrap();
    assert_eq!(page.slug, "hello-world");
}

#[test]
fn scheduled_item_is_published_by_one_tick() {
    let mut db = Database::new(10_000);
    let mut input = new_article("Later");
    input.status = Some("scheduled".to_owned());
    input.publish_at = Some(9_999);
    let article = create_article(&mut db, input, "u1").unwrap();
    assert_eq!(article.status, "scheduled");
    let report = run_scheduled_tasks(&mut db);
    assert_eq!(report.published_articles, 1);
    assert_eq!(report.published_pages, 0);
    assert_eq!(get_article(&db, &article.id).unwrap().status, "published");
}

#[test]
fn scheduled_item_in_the_future_waits() {
    let mut db = Database::new(10_000);
    let mut input = new_page("Later");
    input.status = Some("scheduled".to_owned());
    input.publish_at = Some(10_060);
    let page = create_page(&mut db, input, "u1").unwrap();
    let report = tick(&mut db, 10_059);
    assert_eq!(report.published_pages, 0);
    assert_eq!(get_page(&db, &page.id).unwrap().status, "scheduled");
    let report = tick(&mut db, 10_060);
    assert_eq!(report.published_pages, 1);
    let published = get_page(&db, &page.id).unwrap();
    assert_eq!(published.status, "published");
    assert_eq!(published.updated_at, 10_060);
}

#[test]
fn trash_older_than_retention_is_erased_by_tick() {
    let mut db = Database::new(0);
    let old = create_article(&mut db, new_article("Old"), "u1").unwrap();
    trash_article(&mut db, &old.id, "u1").unwrap();
    db.advance_clock(30 * DAY);
    let recent = create_article(&mut db, new_article("Recent"), "u1").unwrap();
    trash_article(&mut db, &recent.id, "u1").unwrap();
    let report = tick(&mut db, 31 * DAY);
    assert_eq!(report.deleted_articles, 1);
    assert_eq!(get_article(&db, &old.id), Err(AppError::NotFound));
    let kept = get_article(&db, &recent.id).unwrap();
    assert_eq!(kept.status, "trashed");
    assert_eq!(kept.trashed_at, Some(30 * DAY));
}

#[test]
fn trash_is_kept_for_exactly_the_retention_period() {
    let mut db = Database::new(0);
    let page = create_page(&mut db, new_page("Old"), "u1").unwrap();
    trash_page(&mut db, &page.id, "u1").unwrap();
    db.advance_clock(30 * DAY);
    let report = empty(&mut db);
    assert_eq!(report.pages_deleted, 0);
    db.advance_clock(30 * DAY + 1);
    let report = empty(&mut db);
    assert_eq!(report.pages_deleted, 1);
    assert_eq!(report.articles_deleted, 0);
    assert_eq!(get_page(&db, &page.id), Err(AppError::NotFound));
    let again = empty(&mut db);
    assert_eq!(again.pages_deleted, 0);
}

#[test]
fn erased_page_frees_its_slug_and_takes_its_revisions_along() {
    let mut db = Database::new(0);
    let page = create_page(&mut db, new_page("Gone"), "u1").unwrap();
    trash_page(&mut db, &page.id, "u1").unwrap();
    assert!(matches!(create_page(&mut db, new_page("Gone"), "u1"), Err(AppError::Conflict(_))));
    tick(&mut db, 31 * DAY);
    assert_eq!(
        pawtal::services::pages::list_revisions(&db, &page.id),
        Err(AppError::NotFound)
    );
    assert!(create_page(&mut db, new_page("Gone"), "u1").is_ok());
}

#[test]
fn update_with_only_title_keeps_the_rest_and_appends_one_revision() {
    let mut db = Database::new(100);
    let mut input = new_article("Old Title");
    input.content = Some("<p>Body text</p>".to_owned());
    input.short_text = Some("summary".to_owned());
    let created = create_article(&mut db, input, "author").unwrap();
    db.advance_clock(200);
    let mut change = no_article_change();
    change.title = Some("New Title".to_owned());
    let updated = update_article(&mut db, &created.id, change, "editor").unwrap();
    assert_eq!(updated.title, "New Title");
    assert_eq!(updated.content, "<p>Body text</p>");
    assert_eq!(updated.short_text, "summary");
    assert_eq!(updated.status, "draft");
    assert_eq!(updated.slug, "old-title");
    assert_eq!(updated.author_id, "author");
    assert_eq!(updated.created_at, 100);
    assert_eq!(updated.updated_at, 200);
    let revisions = pawtal::services::articles::list_revisions(&db, &created.id).unwrap();
    assert_eq!(revisions.len(), 2);
    assert_eq!(revisions[0].title, "New Title");
    assert_eq!(revisions[0].content, "<p>Body text</p>");
    assert_eq!(revisions[0].author_id, "editor");
    assert_eq!(revisions[0].created_at, 200);
    assert_eq!(revisions[1].title, "Old Title");
    assert_eq!(revisions[1].author_id, "author");
}

#[test]
fn update_of_unknown_id_is_not_found() {
    let mut db = Database::new(0);
    let change = UpdatePage {
        title: Some("x".to_owned()),
        slug: None,
        content: None,
        status: None,
        publish_at: None,
        category_ids: None,
    };
    assert_eq!(update_page(&mut db, "missing", change, "u1"), Err(AppError::NotFound));
}

#[test]
fn update_to_a_taken_slug_conflicts_and_to_own_slug_succeeds() {
    let mut db = Database::new(0);
    let first = create_page(&mut db, new_page("First"), "u1").unwrap();
    let second = create_page(&mut db, new_page("Second"), "u1").unwrap();
    let take = UpdatePage {
        title: None,
        slug: Some("first".to_owned()),
        content: None,
        status: None,
        publish_at: None,
        category_ids: None,
    };
    assert_eq!(
        update_page(&mut db, &second.id, take.clone(), "u1"),
        Err(AppError::Conflict("A page with slug 'first' already exists".to_owned()))
    );
    assert_eq!(get_page(&db, &second.id).unwrap().slug, "second");
    let same = update_page(&mut db, &first.id, take, "u1").unwrap();
    assert_eq!(same.slug, "first");
}

#[test]
fn trash_twice_is_trashed_with_the_latest_time() {
    let mut db = Database::new(50);
    let page = create_page(&mut db, new_page("Twice"), "u1").unwrap();
    trash_page(&mut db, &page.id, "u1").unwrap();
    db.advance_clock(80);
    trash_page(&mut db, &page.id, "u1").unwrap();
    let trashed = get_page(&db, &page.id).unwrap();
    assert_eq!(trashed.status, "trashed");
    assert_eq!(trashed.trashed_at, Some(80));
    assert_eq!(trashed.updated_at, 80);
    assert_eq!(pawtal::services::pages::list_revisions(&db, &page.id).unwrap().len(), 1);
}

#[test]
fn restore_of_an_item_that_is_not_trashed_is_rejected() {
    let mut db = Database::new(50);
    let article = create_article(&mut db, new_article("Live"), "u1").unwrap();
    publish_article(&mut db, &article.id, "u1").unwrap();
    let before = get_article(&db, &article.id).unwrap();
    db.advance_clock(60);
    assert_eq!(
        restore_article(&mut db, &article.id, "u1"),
        Err(AppError::InvalidState("Only trashed articles can be restored".to_owned()))
    );
    assert_eq!(get_article(&db, &article.id).unwrap(), before);
    assert_eq!(restore_article(&mut db, "missing", "u1"), Err(AppError::NotFound));
}

#[test]
fn restore_brings_a_trashed_item_back_as_draft() {
    let mut db = Database::new(50);
    let page = create_page(&mut db, new_page("Back"), "u1").unwrap();
    publish_page(&mut db, &page.id, "u1").unwrap();
    trash_page(&mut db, &page.id, "u1").unwrap();
    assert_eq!(get_page_by_slug(&db, "back"), Err(AppError::NotFound));
    db.advance_clock(70);
    let restored = restore_page(&mut db, &page.id, "u1").unwrap();
    assert_eq!(restored.status, "draft");
    assert_eq!(restored.trashed_at, None);
    assert_eq!(restored.updated_at, 70);
    assert_eq!(restored.created_at, 50);
}

#[test]
fn publish_makes_a_page_visible_by_slug() {
    let mut db = Database::new(50);
    let page = create_page(&mut db, new_page("Seen"), "u1").unwrap();
    assert_eq!(get_page_by_slug(&db, "seen"), Err(AppError::NotFound));
    let published = publish_page(&mut db, &page.id, "u1").unwrap();
    assert_eq!(published.status, "published");
    assert_eq!(get_page_by_slug(&db, "seen").unwrap().id, page.id);
    assert_eq!(publish_page(&mut db, "missing", "u1"), Err(AppError::NotFound));
}

#[test]
fn id_in_use_is_a_storage_failure() {
    let mut db = Database::new(0);
    create_page_with_ids(&mut db, new_page("One"), "u1", "pg-a".to_owned(), "r1".to_owned()).unwrap();
    let same_id =
        create_page_with_ids(&mut db, new_page("Two"), "u1", "pg-a".to_owned(), "r2".to_owned());
    assert_eq!(same_id, Err(AppError::StorageFailure("duplicate key".to_owned())));
    let same_revision =
        create_page_with_ids(&mut db, new_page("Two"), "u1", "pg-b".to_owned(), "r1".to_owned());
    assert_eq!(same_revision, Err(AppError::StorageFailure("duplicate key".to_owned())));
    assert_eq!(get_page(&db, "pg-b"), Err(AppError::NotFound));
}

#[test]
fn clock_never_runs_backwards() {
    let mut db = Database::new(100);
    db.advance_clock(50);
    assert_eq!(db.now(), 100);
    db.advance_clock(150);
    assert_eq!(db.now(), 150);
}

#[test]
fn trash_lists_trashed_items_latest_first() {
    let mut db = Database::new(0);
    let a = create_page(&mut db, new_page("A"), "u1").unwrap();
    let b = create_page(&mut db, new_page("B"), "u1").unwrap();
    let c = create_page(&mut db, new_page("C"), "u1").unwrap();
    let x = create_article(&mut db, new_article("X"), "u1").unwrap();
    db.advance_clock(10);
    trash_page(&mut db, &a.id, "u1").unwrap();
    db.advance_clock(20);
    trash_page(&mut db, &c.id, "u1").unwrap();
    trash_article(&mut db, &x.id, "u1").unwrap();
    let trash = list(&db);
    let pages: Vec<&str> = trash.pages.iter().map(|p| p.title.as_str()).collect();
    assert_eq!(pages, vec!["C", "A"]);
    assert_eq!(trash.articles.len(), 1);
    assert_eq!(trash.articles[0].trashed_at, Some(20));
    restore_page(&mut db, &c.id, "u1").unwrap();
    assert_eq!(list(&db).pages.len(), 1);
    assert_eq!(get_page(&db, &b.id).unwrap().status, "draft");
}

#[test]
fn first_creation_in_an_empty_store_succeeds() {
    for _ in 0..20 {
        let mut db = Database::new(0);
        let article = create_article(&mut db, new_article("Hello World"), "u1").unwrap();
        assert_eq!(article.slug, "hello-world");
        assert_eq!(article.title, "Hello World");
        let mut db = Database::new(0);
        let page = create_page(&mut db, new_page("Hello World"), "u1").unwrap();
        assert_eq!(page.slug, "hello-world");
    }
}

#[test]
fn of_two_creations_with_one_slug_one_succeeds_and_one_conflicts() {
    let mut db = Database::new(0);
    create_page_with_ids(&mut db, new_page("Other"), "u1", "pg-0".to_owned(), "rv-0".to_owned())
        .unwrap();
    let first =
        create_page_with_ids(&mut db, new_page("Same"), "u1", "pg-1".to_owned(), "rv-1".to_owned());
    let second =
        create_page_with_ids(&mut db, new_page("Same"), "u1", "pg-2".to_owned(), "rv-2".to_owned());
    assert_eq!(first.unwrap().slug, "same");
    assert_eq!(second, Err(AppError::Conflict("A page with slug 'same' already exists".to_owned())));
    assert_eq!(get_page(&db, "pg-2"), Err(AppError::NotFound));
    let holder = get_page(&db, "pg-1").unwrap();
    assert_eq!(holder.slug, "same");
    assert_eq!(pawtal::services::pages::list_revisions(&db, "pg-1").unwrap().len(), 1);
    let params = pawtal::db::models::PaginationParams { page: None, per_page: None };
    let all = pawtal::services::pages::list_pages(&db, &params, None).unwrap();
    assert_eq!(all.data.iter().filter(|p| p.slug == "same").count(), 1);
    assert_eq!(all.total, 2);
}

#[test]
fn explicit_slug_is_taken_as_given_beside_a_derived_one() {
    let mut db = Database::new(0);
    create_article_with_ids(&mut db, new_article("Hello World"), "u1", "a-1".into(), "r-1".into())
        .unwrap();
    let mut input = new_article("Hello World!");
    input.slug = Some("hello-world-2".to_owned());
    let second =
        create_article_with_ids(&mut db, input, "u1", "a-2".into(), "r-2".into()).unwrap();
    assert_eq!(second.slug, "hello-world-2");
    assert_eq!(second.title, "Hello World!");
    assert_eq!(get_article(&db, "a-1").unwrap().slug, "hello-world");
    assert_eq!(get_article(&db, "a-2").unwrap().slug, "hello-world-2");
    let params = pawtal::db::models::PaginationParams { page: None, per_page: None };
    assert_eq!(pawtal::services::articles::list_articles(&db, &params, None).unwrap().total, 2);
}

#[test]
fn update_that_names_the_own_slug_is_no_conflict() {
    let mut db = Database::new(0);
    let page = create_page(&mut db, new_page("Own"), "u1").unwrap();
    let change = UpdatePage {
        title: Some("Own Again".to_owned()),
        slug: Some("own".to_owned()),
        content: None,
        status: None,
        publish_at: None,
        category_ids: None,
    };
    let updated = pawtal::services::pages::update_page_with_id(
        &mut db,
        &page.id,
        change,
        "u1",
        "rv-new".to_owned(),
    )
    .unwrap();
    assert_eq!(updated.slug, "own");
    assert_eq!(updated.title, "Own Again");
}
