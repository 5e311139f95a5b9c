use pawtal::db::models::{
    CategoryLink, CreateArticle, CreatePage, PaginationParams, UpdateArticle, UpdatePage,
};
use pawtal::db::Database;
use pawtal::error::AppError;
use pawtal::services::articles::{
    create_article, create_article_with_ids, get_article_by_slug, get_article_categories,
    get_related_articles,
    list_articles, list_published_articles, publish_article, share_category, trash_article,
    update_article,
};
use pawtal::services::audit::{audit_entries, log_action, record_action};
use pawtal::services::pages::{
    create_page, create_page_with_ids, get_page, get_page_categories, list_pages, list_revisions,
    publish_page,
    restore_page, restore_revision, set_page_categories, trash_page, update_page,
    update_page_with_id,
};

fn page(title: &str, content: &str) -> CreatePage {
    CreatePage {
        title: title.to_owned(),
        slug: None,
        content: Some(content.to_owned()),
        status: None,
        publish_at: None,
        category_ids: None,
    }
}

fn page_change() -> UpdatePage {
    UpdatePage {
        title: None,
        slug: None,
        content: None,
        status: None,
        publish_at: None,
        category_ids: None,
    }
}

fn article(title: &str, categories: &[&str]) -> CreateArticle {
    CreateArticle {
        title: title.to_owned(),
        slug: None,
        short_text: None,
        content: None,
        status: Some("published".to_owned()),
        publish_at: None,
        category_ids: Some(categories.iter().map(|c| (*c).to_owned()).collect()),
        cover_image_id: None,
    }
}

fn all(per_page: u32) -> PaginationParams {
    PaginationParams { page: Some(1), per_page: Some(per_page) }
}

#[test]
fn creation_seeds_the_history() {
    let mut db = Database::new(5);
    let created = create_page(&mut db, page("Title", "Body"), "author").unwrap();
    let revisions = list_revisions(&db, &created.id).unwrap();
    assert_eq!(revisions.len(), 1);
    assert_eq!(revisions[0].page_id, created.id);
    assert_eq!(revisions[0].title, "Title");
    assert_eq!(revisions[0].content, "Body");
    assert_eq!(revisions[0].author_id, "author");
    assert_eq!(revisions[0].created_at, 5);
    assert_eq!(list_revisions(&db, "missing"), Err(AppError::NotFound));
}

#[test]
fn history_only_grows() {
    let mut db = Database::new(0);
    let created = create_page(&mut db, page("T", "v1"), "u").unwrap();
    let count = |db: &Database| list_revisions(db, &created.id).unwrap().len();
    assert_eq!(count(&db), 1);
    let mut change = page_change();
    change.content = Some("v2".to_owned());
    update_page(&mut db, &created.id, change, "u").unwrap();
    assert_eq!(count(&db), 2);
    publish_page(&mut db, &created.id, "u").unwrap();
    assert_eq!(count(&db), 2);
    trash_page(&mut db, &created.id, "u").unwrap();
    assert_eq!(count(&db), 2);
    restore_page(&mut db, &created.id, "u").unwrap();
    assert_eq!(count(&db), 2);
    let first = list_revisions(&db, &created.id).unwrap().pop().unwrap();
    restore_revision(&mut db, &created.id, &first.id, "u").unwrap();
    assert_eq!(count(&db), 3);
    assert!(update_page(&mut db, "missing", page_change(), "u").is_err());
    assert_eq!(count(&db), 3);
}

#[test]
fn restore_revision_brings_old_content_back_and_keeps_status_and_slug() {
    let mut db = Database::new(0);
    let created = create_page(&mut db, page("First", "one"), "u").unwrap();
    db.advance_clock(10);
    let change = UpdatePage {
        title: Some("Second".to_owned()),
        slug: Some("custom".to_owned()),
        content: Some("two".to_owned()),
        status: Some("published".to_owned()),
        publish_at: Some(99),
        category_ids: None,
    };
    update_page(&mut db, &created.id, change, "u").unwrap();
    db.advance_clock(20);
    let seed = list_revisions(&db, &created.id).unwrap().pop().unwrap();
    let restored = restore_revision(&mut db, &created.id, &seed.id, "editor").unwrap();
    assert_eq!(restored.title, "First");
    assert_eq!(restored.content, "one");
    assert_eq!(restored.slug, "custom");
    assert_eq!(restored.status, "published");
    assert_eq!(restored.publish_at, Some(99));
    assert_eq!(restored.updated_at, 20);
    let revisions = list_revisions(&db, &created.id).unwrap();
    let titles: Vec<&str> = revisions.iter().map(|r| r.title.as_str()).collect();
    assert_eq!(titles, vec!["First", "Second", "First"]);
    assert_eq!(revisions[0].author_id, "editor");
    assert_eq!(revisions[0].created_at, 20);
}

#[test]
fn restore_revision_of_another_page_is_not_found() {
    let mut db = Database::new(0);
    let one = create_page(&mut db, page("One", "1"), "u").unwrap();
    let two = create_page(&mut db, page("Two", "2"), "u").unwrap();
    let revision = list_revisions(&db, &one.id).unwrap().pop().unwrap();
    assert_eq!(restore_revision(&mut db, &two.id, &revision.id, "u"), Err(AppError::NotFound));
    assert_eq!(restore_revision(&mut db, &one.id, "missing", "u"), Err(AppError::NotFound));
    assert_eq!(get_page(&db, &two.id).unwrap().title, "Two");
    assert_eq!(list_revisions(&db, &two.id).unwrap().len(), 1);
}

#[test]
fn revision_id_in_use_is_a_storage_failure_and_changes_nothing() {
    let mut db = Database::new(0);
    create_page_with_ids(&mut db, page("One", "1"), "u", "pg-a".to_owned(), "r1".to_owned()).unwrap();
    let mut change = page_change();
    change.title = Some("Changed".to_owned());
    assert_eq!(
        update_page_with_id(&mut db, "pg-a", change.clone(), "u", "r1".to_owned()),
        Err(AppError::StorageFailure("duplicate key".to_owned()))
    );
    assert_eq!(get_page(&db, "pg-a").unwrap().title, "One");
    let updated = update_page_with_id(&mut db, "pg-a", change, "u", "r2".to_owned()).unwrap();
    assert_eq!(updated.title, "Changed");
    let ids: Vec<String> = list_revisions(&db, "pg-a").unwrap().into_iter().map(|r| r.id).collect();
    assert_eq!(ids, vec!["r2".to_owned(), "r1".to_owned()]);
}

#[test]
fn fresh_ids_differ() {
    let mut db = Database::new(0);
    let one = create_page(&mut db, page("One", ""), "u").unwrap();
    let two = create_page(&mut db, page("Two", ""), "u").unwrap();
    assert_ne!(one.id, two.id);
    assert_eq!(one.id.len(), 36);
    let r1 = list_revisions(&db, &one.id).unwrap().pop().unwrap();
    let r2 = list_revisions(&db, &two.id).unwrap().pop().unwrap();
    assert_ne!(r1.id, r2.id);
    assert_ne!(r1.id, one.id);
}

#[test]
fn every_operation_is_logged() {
    let mut db = Database::new(7);
    let created = create_page(&mut db, page("Hello \"World\"", ""), "author").unwrap();
    publish_page(&mut db, &created.id, "editor").unwrap();
    trash_page(&mut db, &created.id, "editor").unwrap();
    restore_page(&mut db, &created.id, "admin").unwrap();
    let mut change = page_change();
    change.status = Some("scheduled".to_owned());
    update_page(&mut db, &created.id, change, "editor").unwrap();
    assert!(restore_page(&mut db, &created.id, "admin").is_err());
    let log = audit_entries(&db);
    let verbs: Vec<(&str, &str)> =
        log.iter().map(|e| (e.action.as_str(), e.user_id.as_str())).collect();
    assert_eq!(
        verbs,
        vec![
            ("create", "author"),
            ("publish", "editor"),
            ("trash", "editor"),
            ("restore", "admin"),
            ("update", "editor")
        ]
    );
    assert!(log.iter().all(|e| e.entity_type == "page" && e.entity_id == created.id));
    assert!(log.iter().all(|e| e.created_at == 7));
    assert_eq!(
        log[0].details,
        "{\"slug\":\"hello-world\",\"status\":\"draft\",\"title\":\"Hello \\\"World\\\"\"}"
    );
    assert_eq!(log[1].details, "{}");
    assert_eq!(
        log[4].details,
        "{\"slug\":\"hello-world\",\"status\":\"scheduled\",\"title\":\"Hello \\\"World\\\"\"}"
    );
    assert_ne!(log[0].id, log[1].id);
}

#[test]
fn audit_entries_are_appended_in_order() {
    let mut db = Database::new(3);
    record_action(&mut db, "e1".to_owned(), "u", "upload", "media", "m1", &vec![]);
    db.advance_clock(4);
    log_action(
        &mut db,
        "u",
        "delete",
        "media",
        "m1",
        &vec![("filename".to_owned(), "a.png".to_owned())],
    );
    let log = audit_entries(&db);
    assert_eq!(log.len(), 2);
    assert_eq!(log[0].id, "e1");
    assert_eq!(log[0].details, "{}");
    assert_eq!(log[0].created_at, 3);
    assert_eq!(log[1].action, "delete");
    assert_eq!(log[1].details, "{\"filename\":\"a.png\"}");
    assert_eq!(log[1].created_at, 4);
}

#[test]
fn pages_are_listed_latest_update_first() {
    let mut db = Database::new(0);
    let a = create_page(&mut db, page("A", ""), "u").unwrap();
    db.advance_clock(1);
    let b = create_page(&mut db, page("B", ""), "u").unwrap();
    db.advance_clock(2);
    let c = create_page(&mut db, page("C", ""), "u").unwrap();
    db.advance_clock(3);
    let mut change = page_change();
    change.content = Some("new".to_owned());
    update_page(&mut db, &a.id, change, "u").unwrap();
    trash_page(&mut db, &b.id, "u").unwrap();
    let listed = list_pages(&db, &all(20), None).unwrap();
    let titles: Vec<&str> = listed.data.iter().map(|p| p.title.as_str()).collect();
    assert_eq!(titles, vec!["A", "C"]);
    assert_eq!((listed.total, listed.page, listed.per_page), (2, 1, 20));
    let trashed = list_pages(&db, &all(20), Some("trashed")).unwrap();
    assert_eq!(trashed.data.len(), 1);
    assert_eq!(trashed.data[0].id, b.id);
    let drafts = list_pages(&db, &all(20), Some("draft")).unwrap();
    assert_eq!(drafts.total, 2);
    assert_eq!(drafts.data[1].id, c.id);
    assert_eq!(list_pages(&db, &all(20), Some("published")).unwrap().total, 0);
}

#[test]
fn lists_are_cut_into_pages() {
    let mut db = Database::new(0);
    for n in 0..5 {
        db.advance_clock(n);
        create_page(&mut db, page(&format!("T{n}"), ""), "u").unwrap();
    }
    let titles = |page: u32, per_page: u32| -> Vec<String> {
        let params = PaginationParams { page: Some(page), per_page: Some(per_page) };
        list_pages(&db, &params, None).unwrap().data.into_iter().map(|p| p.title).collect()
    };
    assert_eq!(titles(1, 2), vec!["T4", "T3"]);
    assert_eq!(titles(2, 2), vec!["T2", "T1"]);
    assert_eq!(titles(3, 2), vec!["T0"]);
    assert_eq!(titles(4, 2), Vec::<String>::new());
    assert_eq!(titles(0, 100).len(), 5);
    assert_eq!(titles(u32::MAX, 100), Vec::<String>::new());
    let first = list_pages(&db, &PaginationParams { page: None, per_page: None }, None).unwrap();
    assert_eq!((first.total, first.page, first.per_page), (5, 1, 20));
}

#[test]
fn rows_updated_at_the_same_time_keep_their_order() {
    let mut db = Database::new(9);
    for title in ["X", "Y", "Z"] {
        create_article(&mut db, article(title, &[]), "u").unwrap();
    }
    let listed = list_articles(&db, &all(10), None).unwrap();
    let titles: Vec<&str> = listed.data.iter().map(|a| a.title.as_str()).collect();
    assert_eq!(titles, vec!["X", "Y", "Z"]);
}

#[test]
fn public_list_shows_published_articles_newest_first() {
    let mut db = Database::new(0);
    let old = create_article(&mut db, article("Old", &[]), "u").unwrap();
    db.advance_clock(10);
    let mut draft = article("Draft", &[]);
    draft.status = None;
    let draft = create_article(&mut db, draft, "u").unwrap();
    db.advance_clock(20);
    let new = create_article(&mut db, article("New", &[]), "u").unwrap();
    db.advance_clock(30);
    let mut touch = UpdateArticle {
        title: None,
        slug: None,
        short_text: Some("s".to_owned()),
        content: None,
        status: None,
        publish_at: None,
        category_ids: None,
        cover_image_id: None,
    };
    update_article(&mut db, &old.id, touch.clone(), "u").unwrap();
    let listed = list_published_articles(&db, &all(20)).unwrap();
    let ids: Vec<&str> = listed.data.iter().map(|a| a.id.as_str()).collect();
    assert_eq!(ids, vec![new.id.as_str(), old.id.as_str()]);
    assert_eq!(listed.total, 2);
    assert_eq!(get_article_by_slug(&db, "draft"), Err(AppError::NotFound));
    publish_article(&mut db, &draft.id, "u").unwrap();
    assert_eq!(get_article_by_slug(&db, "draft").unwrap().id, draft.id);
    assert_eq!(list_published_articles(&db, &all(20)).unwrap().total, 3);
    touch.status = Some("draft".to_owned());
    update_article(&mut db, &new.id, touch, "u").unwrap();
    assert_eq!(list_published_articles(&db, &all(20)).unwrap().total, 2);
}

#[test]
fn related_articles_share_a_category() {
    let mut db = Database::new(0);
    let subject =
        create_article_with_ids(&mut db, article("S", &["rust", "web"]), "u", "s".into(), "rs".into())
            .unwrap();
    db.advance_clock(1);
    create_article_with_ids(&mut db, article("A", &["rust"]), "u", "a".into(), "ra".into()).unwrap();
    db.advance_clock(2);
    create_article_with_ids(&mut db, article("B", &["cooking"]), "u", "b".into(), "rb".into())
        .unwrap();
    db.advance_clock(3);
    create_article_with_ids(&mut db, article("C", &["web", "rust"]), "u", "c".into(), "rc".into())
        .unwrap();
    db.advance_clock(4);
    create_article_with_ids(&mut db, article("D", &["web"]), "u", "d".into(), "rd".into()).unwrap();
    trash_article(&mut db, "d", "u").unwrap();
    let related = |limit: i64| -> Vec<String> {
        get_related_articles(&db, &subject.id, limit).unwrap().into_iter().map(|a| a.id).collect()
    };
    assert_eq!(related(10), vec!["c", "a"]);
    assert_eq!(related(1), vec!["c"]);
    assert_eq!(related(0), Vec::<String>::new());
    assert_eq!(related(-1), vec!["c", "a"]);
    assert_eq!(get_related_articles(&db, "b", 10).unwrap(), vec![]);
    assert_eq!(get_related_articles(&db, "missing", 10).unwrap(), vec![]);
}

#[test]
fn category_links_are_replaced_as_a_set() {
    let mut db = Database::new(0);
    let mut input = article("S", &["rust", "web"]);
    input.status = None;
    create_article_with_ids(&mut db, input, "u", "s".into(), "rs".into()).unwrap();
    create_article_with_ids(&mut db, article("A", &["web"]), "u", "a".into(), "ra".into()).unwrap();
    let links = |db: &Database, a: &str, b: &str| {
        let related = get_related_articles(db, a, 10).unwrap();
        related.iter().any(|r| r.id == b)
    };
    assert!(links(&db, "s", "a"));
    let change = UpdateArticle {
        title: None,
        slug: None,
        short_text: None,
        content: None,
        status: None,
        publish_at: None,
        category_ids: Some(vec!["cooking".to_owned()]),
        cover_image_id: None,
    };
    update_article(&mut db, "a", change, "u").unwrap();
    assert!(!links(&db, "s", "a"));
    assert_eq!(get_article_categories(&db, "a"), Ok(vec!["cooking".to_owned()]));
    assert_eq!(get_article_categories(&db, "s"), Ok(vec!["rust".to_owned(), "web".to_owned()]));
}

#[test]
fn page_categories_are_replaced_and_kept() {
    let mut db = Database::new(0);
    let mut input = page("One", "");
    input.category_ids = Some(vec!["x".to_owned(), "y".to_owned()]);
    let one = create_page(&mut db, input, "u").unwrap();
    let two = create_page(&mut db, page("Two", ""), "u").unwrap();
    assert_eq!(get_page_categories(&db, &one.id), Ok(vec!["x".to_owned(), "y".to_owned()]));
    assert_eq!(get_page_categories(&db, &two.id), Ok(vec![]));
    set_page_categories(&mut db, &two.id, &vec!["y".to_owned(), "z".to_owned()]);
    let mut change = page_change();
    change.title = Some("Still One".to_owned());
    update_page(&mut db, &one.id, change, "u").unwrap();
    assert_eq!(get_page_categories(&db, &one.id), Ok(vec!["x".to_owned(), "y".to_owned()]));
    let mut change = page_change();
    change.category_ids = Some(vec!["q".to_owned()]);
    update_page(&mut db, &one.id, change, "u").unwrap();
    assert_eq!(get_page_categories(&db, &one.id), Ok(vec!["q".to_owned()]));
    assert_eq!(get_page_categories(&db, &two.id), Ok(vec!["y".to_owned(), "z".to_owned()]));
    set_page_categories(&mut db, &one.id, &vec![]);
    assert_eq!(get_page_categories(&db, &one.id), Ok(vec![]));
    assert_eq!(get_page_categories(&db, "missing"), Ok(vec![]));
    trash_page(&mut db, &two.id, "u").unwrap();
    db.advance_clock(31 * 86_400);
    pawtal::api::trash::empty(&mut db);
    assert_eq!(get_page_categories(&db, &two.id), Ok(vec![]));
    assert_eq!(get_page(&db, &one.id).unwrap().title, "Still One");
}

#[test]
fn share_category_needs_a_common_category() {
    let link = |o: &str, c: &str| CategoryLink { owner_id: o.to_owned(), category_id: c.to_owned() };
    let links = vec![link("a", "x"), link("b", "y"), link("c", "x"), link("b", "z")];
    assert!(share_category(&links, "a", "c"));
    assert!(share_category(&links, "c", "a"));
    assert!(share_category(&links, "a", "a"));
    assert!(!share_category(&links, "a", "b"));
    assert!(!share_category(&links, "a", "missing"));
    assert!(!share_category(&vec![], "a", "a"));
}

#[test]
fn article_update_derives_the_reading_time_anew() {
    let mut db = Database::new(0);
    let created = create_article(&mut db, article("T", &[]), "u").unwrap();
    assert_eq!(created.reading_time_minutes, 1);
    let long = vec!["word"; 450].join(" ");
    let change = UpdateArticle {
        title: None,
        slug: None,
        short_text: None,
        content: Some(long),
        status: None,
        publish_at: None,
        category_ids: None,
        cover_image_id: Some("img".to_owned()),
    };
    let updated = update_article(&mut db, &created.id, change, "u").unwrap();
    assert_eq!(updated.reading_time_minutes, 3);
    assert_eq!(updated.cover_image_id, Some("img".to_owned()));
    let keep = UpdateArticle {
        title: Some("T2".to_owned()),
        slug: None,
        short_text: None,
        content: None,
        status: None,
        publish_at: None,
        category_ids: None,
        cover_image_id: None,
    };
    let kept = update_article(&mut db, &created.id, keep, "u").unwrap();
    assert_eq!(kept.reading_time_minutes, 3);
    assert_eq!(kept.cover_image_id, Some("img".to_owned()));
}
