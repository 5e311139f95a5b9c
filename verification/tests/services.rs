use pawtal::api::auth::{
    check_oauth_state, clear_oauth_state_cookie, clear_session_cookie, oauth_state_cookie,
    session_cookie,
};
use pawtal::api::feed::atom_feed;
use pawtal::api::media::{admin_upload, marks_icon, media_selection, MediaSelection, Upload};
use pawtal::auth::session::{
    cleanup_expired_sessions, create_session, create_session_with_ids, delete_session,
    validate_session, SESSION_TTL_SECONDS,
};
use pawtal::auth::users::{
    display_name_of, initial_role, list_users, update_user_role, upsert_user,
    upsert_user_with_id, validate_role_change,
};
use pawtal::db::models::{
    App, Article, Category, CreateApp, CreateCategory, MenuItemInput, PaginationParams, UpdateApp,
};
use pawtal::db::Database;
use pawtal::error::AppError;
use pawtal::services::apps::{
    can_reorder, create_app, next_sort_order, reorder_apps, update_app, Placement,
};
use pawtal::services::categories::{create_category, ensure_slug_unique, update_category};
use pawtal::services::menus::{menu_id_for, menu_item, update_menu};
use pawtal::services::search::{search, search_covers, search_result};
use pawtal::services::settings::{
    get_public_settings, is_allowed_key, is_public_key, update_settings,
};
use pawtal::sorting::{count_rows, sort_descending, window_bounds};
use pawtal::tasks::run_scheduled_tasks;

#[test]
fn error_status_codes_and_messages() {
    let cases = vec![
        (AppError::NotFound, 404, "Not found", "Not found"),
        (AppError::Unauthorized, 401, "Unauthorized", "Unauthorized"),
        (AppError::Forbidden, 403, "Forbidden", "Forbidden"),
        (AppError::BadRequest("bad".to_owned()), 400, "Bad request: bad", "bad"),
        (AppError::Conflict("taken".to_owned()), 409, "Conflict: taken", "taken"),
        (AppError::InvalidState("no".to_owned()), 400, "Invalid state: no", "no"),
        (
            AppError::StorageFailure("disk full".to_owned()),
            500,
            "Database error: disk full",
            "Internal server error",
        ),
        (
            AppError::Internal("boom".to_owned()),
            500,
            "Internal error: boom",
            "Internal server error",
        ),
    ];
    for (error, code, description, public) in cases {
        assert_eq!(error.status_code(), code);
        assert_eq!(error.description(), description);
        assert_eq!(error.public_message(), public);
        assert_eq!(error.duplicate(), error);
    }
}

#[test]
fn pagination_defaults_and_clamps() {
    let params = |page, per_page| PaginationParams { page, per_page };
    assert_eq!(params(None, None).per_page(), 20);
    assert_eq!(params(None, None).offset(), 0);
    assert_eq!(params(None, None).page_number(), 1);
    assert_eq!(params(Some(0), Some(0)).per_page(), 1);
    assert_eq!(params(Some(0), Some(0)).offset(), 0);
    assert_eq!(params(Some(0), Some(0)).page_number(), 1);
    assert_eq!(params(Some(3), Some(25)).offset(), 50);
    assert_eq!(params(Some(3), Some(1000)).per_page(), 100);
    assert_eq!(params(Some(3), Some(1000)).offset(), 200);
    assert_eq!(params(Some(2), None).offset(), 20);
}

#[test]
fn pagination_offset_beyond_the_result_range_is_detected() {
    let far = PaginationParams { page: Some(u32::MAX), per_page: Some(100) };
    assert!(!far.offset_fits());
    assert_eq!(far.skipped(), (u32::MAX as u64 - 1) * 100);
    let edge = PaginationParams { page: Some(42_949_673), per_page: Some(100) };
    assert!(edge.offset_fits());
    assert_eq!(edge.offset(), 4_294_967_200);
    assert_eq!(edge.skipped(), 4_294_967_200);
    let over = PaginationParams { page: Some(42_949_674), per_page: Some(100) };
    assert!(!over.offset_fits());
}

#[test]
fn sort_descending_is_stable() {
    assert_eq!(sort_descending(&vec![]), Vec::<usize>::new());
    assert_eq!(sort_descending(&vec![5]), vec![0]);
    assert_eq!(sort_descending(&vec![1, 3, 2]), vec![1, 2, 0]);
    assert_eq!(sort_descending(&vec![2, 2, 2]), vec![0, 1, 2]);
    assert_eq!(sort_descending(&vec![1, 5, 1, 5, 3]), vec![1, 3, 4, 0, 2]);
    assert_eq!(sort_descending(&vec![i64::MIN, i64::MAX, 0]), vec![1, 2, 0]);
}

#[test]
fn window_bounds_stay_within_the_list() {
    assert_eq!(window_bounds(10, 0, 3), (0, 3));
    assert_eq!(window_bounds(10, 9, 3), (9, 10));
    assert_eq!(window_bounds(10, 10, 3), (10, 10));
    assert_eq!(window_bounds(10, u64::MAX, u32::MAX), (10, 10));
    assert_eq!(window_bounds(0, 0, 20), (0, 0));
    assert_eq!(count_rows(7), 7);
}

#[test]
fn sessions_live_for_seven_days() {
    assert_eq!(SESSION_TTL_SECONDS, 7 * 24 * 60 * 60);
    let mut db = Database::new(1_000);
    let user_id = upsert_user(&mut db, "ext-1", "a@example.org", "Ada").unwrap();
    let token = create_session(&mut db, &user_id).unwrap();
    assert_eq!(validate_session(&db, &token).unwrap().id, user_id);
    db.advance_clock(1_000 + SESSION_TTL_SECONDS - 1);
    assert!(validate_session(&db, &token).is_ok());
    db.advance_clock(1_000 + SESSION_TTL_SECONDS);
    assert_eq!(validate_session(&db, &token), Err(AppError::Unauthorized));
}

#[test]
fn session_tokens_are_fresh() {
    let mut db = Database::new(0);
    let first = create_session(&mut db, "u").unwrap();
    let second = create_session(&mut db, "u").unwrap();
    assert_ne!(first, second);
    assert_eq!(first.len(), 36);
}

#[test]
fn session_of_an_unknown_user_or_token_is_not_valid() {
    let mut db = Database::new(0);
    create_session_with_ids(&mut db, "ghost", "s1".to_owned(), "t1".to_owned()).unwrap();
    assert_eq!(validate_session(&db, "t1"), Err(AppError::Unauthorized));
    assert_eq!(validate_session(&db, "t2"), Err(AppError::Unauthorized));
}

#[test]
fn session_expiry_saturates_at_the_end_of_time() {
    let mut db = Database::new(i64::MAX - 5);
    let user_id = upsert_user(&mut db, "ext-1", "a@example.org", "Ada").unwrap();
    let token = create_session(&mut db, &user_id).unwrap();
    assert!(validate_session(&db, &token).is_ok());
}

#[test]
fn expired_sessions_are_swept() {
    let mut db = Database::new(0);
    let user_id = upsert_user(&mut db, "ext-1", "a@example.org", "Ada").unwrap();
    let old = create_session(&mut db, &user_id).unwrap();
    db.advance_clock(100);
    let recent = create_session(&mut db, &user_id).unwrap();
    db.advance_clock(SESSION_TTL_SECONDS);
    assert_eq!(cleanup_expired_sessions(&mut db), Ok(1));
    assert_eq!(cleanup_expired_sessions(&mut db), Ok(0));
    assert_eq!(validate_session(&db, &old), Err(AppError::Unauthorized));
    assert!(validate_session(&db, &recent).is_ok());
    db.advance_clock(SESSION_TTL_SECONDS + 100);
    let report = run_scheduled_tasks(&mut db);
    assert_eq!(report.deleted_sessions, 1);
    assert_eq!(validate_session(&db, &recent), Err(AppError::Unauthorized));
}

#[test]
fn logout_deletes_the_session() {
    let mut db = Database::new(0);
    let user_id = upsert_user(&mut db, "ext-1", "a@example.org", "Ada").unwrap();
    let token = create_session(&mut db, &user_id).unwrap();
    let other = create_session(&mut db, &user_id).unwrap();
    assert_eq!(delete_session(&mut db, &token), Ok(()));
    assert_eq!(delete_session(&mut db, &token), Ok(()));
    assert_eq!(validate_session(&db, &token), Err(AppError::Unauthorized));
    assert!(validate_session(&db, &other).is_ok());
}

#[test]
fn first_user_is_admin_and_later_users_are_editors() {
    assert_eq!(initial_role(0), "admin");
    assert_eq!(initial_role(1), "editor");
    assert_eq!(initial_role(-1), "editor");
    let mut db = Database::new(10);
    let first = upsert_user(&mut db, "ext-1", "a@example.org", "Ada").unwrap();
    let second = upsert_user(&mut db, "ext-2", "b@example.org", "Bob").unwrap();
    assert_ne!(first, second);
    let users = list_users(&db).unwrap();
    assert_eq!(users.len(), 2);
    assert_eq!((users[0].id.as_str(), users[0].role.as_str()), (first.as_str(), "admin"));
    assert_eq!((users[1].id.as_str(), users[1].role.as_str()), (second.as_str(), "editor"));
    assert_eq!(users[0].created_at, 10);
    assert_eq!(users[0].last_login, Some(10));
}

#[test]
fn login_of_a_known_user_updates_its_profile() {
    let mut db = Database::new(10);
    let id = upsert_user(&mut db, "ext-1", "a@example.org", "Ada").unwrap();
    db.advance_clock(20);
    let again = upsert_user(&mut db, "ext-1", "ada@example.org", "Ada L.").unwrap();
    assert_eq!(again, id);
    let users = list_users(&db).unwrap();
    assert_eq!(users.len(), 1);
    assert_eq!(users[0].email, "ada@example.org");
    assert_eq!(users[0].display_name, "Ada L.");
    assert_eq!(users[0].role, "admin");
    assert_eq!(users[0].created_at, 10);
    assert_eq!(users[0].last_login, Some(20));
}

#[test]
fn user_id_in_use_is_a_storage_failure() {
    let mut db = Database::new(0);
    upsert_user_with_id(&mut db, "u1".to_owned(), "ext-1", "a", "A").unwrap();
    assert_eq!(
        upsert_user_with_id(&mut db, "u1".to_owned(), "ext-2", "b", "B"),
        Err(AppError::StorageFailure("duplicate key".to_owned()))
    );
    assert_eq!(upsert_user_with_id(&mut db, "u1".to_owned(), "ext-1", "c", "C"), Ok("u1".to_owned()));
    assert_eq!(list_users(&db).unwrap().len(), 1);
}

#[test]
fn display_name_falls_back() {
    assert_eq!(display_name_of(Some("Ada".to_owned()), Some("ada".to_owned()), "sub"), "Ada");
    assert_eq!(display_name_of(None, Some("ada".to_owned()), "sub"), "ada");
    assert_eq!(display_name_of(None, None, "sub"), "sub");
}

#[test]
fn role_changes_are_validated() {
    let mut db = Database::new(0);
    let admin_id = upsert_user(&mut db, "ext-1", "a", "A").unwrap();
    let editor_id = upsert_user(&mut db, "ext-2", "b", "B").unwrap();
    let admin = list_users(&db).unwrap().remove(0);
    assert_eq!(
        validate_role_change(&admin, &editor_id, "owner"),
        Err(AppError::BadRequest(
            "Invalid role 'owner'. Must be 'admin' or 'editor'.".to_owned()
        ))
    );
    assert_eq!(
        update_user_role(&mut db, &admin, &admin_id, "editor"),
        Err(AppError::BadRequest("You cannot change your own role.".to_owned()))
    );
    assert_eq!(update_user_role(&mut db, &admin, "missing", "editor"), Err(AppError::NotFound));
    assert_eq!(update_user_role(&mut db, &admin, &admin_id, "admin").unwrap().role, "admin");
    let promoted = update_user_role(&mut db, &admin, &editor_id, "admin").unwrap();
    assert_eq!(promoted.role, "admin");
    assert_eq!(list_users(&db).unwrap()[1].role, "admin");
}

#[test]
fn oauth_state_must_match_the_cookie() {
    assert_eq!(check_oauth_state(Some("pawtal_oauth_state=abc"), "abc"), Ok(()));
    assert_eq!(
        check_oauth_state(Some("pawtal_oauth_state=abc"), "abd"),
        Err(AppError::BadRequest("OAuth state mismatch".to_owned()))
    );
    assert_eq!(
        check_oauth_state(Some("other=abc"), "abc"),
        Err(AppError::BadRequest("Missing OAuth state cookie".to_owned()))
    );
    assert_eq!(
        check_oauth_state(None, "abc"),
        Err(AppError::BadRequest("Missing OAuth state cookie".to_owned()))
    );
}

#[test]
fn cookies_are_written_with_their_attributes() {
    assert_eq!(
        session_cookie("tok"),
        "pawtal_session=tok; HttpOnly; SameSite=Strict; Path=/; Max-Age=604800"
    );
    assert_eq!(
        oauth_state_cookie("st"),
        "pawtal_oauth_state=st; HttpOnly; SameSite=Lax; Path=/api/auth/callback; Max-Age=600"
    );
    assert_eq!(
        clear_session_cookie(),
        "pawtal_session=; HttpOnly; SameSite=Strict; Path=/; Max-Age=0"
    );
    assert_eq!(
        clear_oauth_state_cookie(),
        "pawtal_oauth_state=; HttpOnly; SameSite=Lax; Path=/api/auth/callback; Max-Age=0"
    );
}

#[test]
fn category_slug_must_be_unique() {
    let input = |slug: Option<&str>| CreateCategory {
        name: "Rust News".to_owned(),
        slug: slug.map(|s| s.to_owned()),
    };
    let created = create_category(input(None), "c1".to_owned(), None).unwrap();
    assert_eq!(
        created,
        Category { id: "c1".to_owned(), name: "Rust News".to_owned(), slug: "rust-news".to_owned() }
    );
    assert_eq!(create_category(input(Some("news")), "c2".to_owned(), None).unwrap().slug, "news");
    assert_eq!(
        create_category(input(None), "c3".to_owned(), Some("c1")),
        Err(AppError::Conflict("A category with slug 'rust-news' already exists".to_owned()))
    );
    assert_eq!(ensure_slug_unique("s", Some("c1"), Some("c1")), Ok(()));
    assert!(ensure_slug_unique("s", Some("c1"), Some("c2")).is_err());
    assert_eq!(ensure_slug_unique("s", None, None), Ok(()));
}

#[test]
fn category_update_checks_the_slug_only_when_it_changes() {
    let existing =
        Category { id: "c1".to_owned(), name: "Old".to_owned(), slug: "old".to_owned() };
    let renamed = update_category(&existing, "New".to_owned(), None, Some("c9")).unwrap();
    assert_eq!((renamed.name.as_str(), renamed.slug.as_str()), ("New", "old"));
    let same = update_category(&existing, "New".to_owned(), Some("old".to_owned()), Some("c9"));
    assert!(same.is_ok());
    let moved = update_category(&existing, "New".to_owned(), Some("new".to_owned()), None).unwrap();
    assert_eq!(moved.slug, "new");
    assert_eq!(moved.id, "c1");
    assert_eq!(
        update_category(&existing, "New".to_owned(), Some("new".to_owned()), Some("c2")),
        Err(AppError::Conflict("A category with slug 'new' already exists".to_owned()))
    );
}

#[test]
fn new_apps_go_to_the_end() {
    assert_eq!(next_sort_order(None), 0);
    assert_eq!(next_sort_order(Some(-1)), 0);
    assert_eq!(next_sort_order(Some(4)), 5);
    assert_eq!(next_sort_order(Some(i32::MAX)), i32::MIN);
    let input = CreateApp {
        name: "Mail".to_owned(),
        description: None,
        icon_id: Some("m1".to_owned()),
        url: None,
        page_id: None,
    };
    let app = create_app(input, "a1".to_owned(), Some(2), 77);
    assert_eq!(
        app,
        App {
            id: "a1".to_owned(),
            name: "Mail".to_owned(),
            description: String::new(),
            icon_id: Some("m1".to_owned()),
            url: None,
            page_id: None,
            sort_order: 3,
            created_at: 77,
            updated_at: 77,
        }
    );
}

#[test]
fn app_update_is_partial() {
    let existing = App {
        id: "a1".to_owned(),
        name: "Mail".to_owned(),
        description: "old".to_owned(),
        icon_id: Some("m1".to_owned()),
        url: Some("https://mail".to_owned()),
        page_id: None,
        sort_order: 3,
        created_at: 77,
        updated_at: 77,
    };
    let input = UpdateApp {
        name: None,
        description: Some("new".to_owned()),
        icon_id: None,
        url: Some("https://m".to_owned()),
        page_id: Some("p".to_owned()),
    };
    let updated = update_app(&existing, input, 90);
    assert_eq!(
        updated,
        App {
            description: "new".to_owned(),
            url: Some("https://m".to_owned()),
            page_id: Some("p".to_owned()),
            updated_at: 90,
            ..existing.clone()
        }
    );
}

#[test]
fn reorder_places_apps_by_position() {
    let ids = vec!["b".to_owned(), "a".to_owned(), "c".to_owned()];
    assert!(can_reorder(&ids));
    assert_eq!(
        reorder_apps(ids),
        vec![
            Placement { app_id: "b".to_owned(), sort_order: 0 },
            Placement { app_id: "a".to_owned(), sort_order: 1 },
            Placement { app_id: "c".to_owned(), sort_order: 2 },
        ]
    );
    assert_eq!(reorder_apps(vec![]), vec![]);
}

#[test]
fn menu_items_keep_given_ids_and_get_fresh_ones() {
    let input = |id: Option<&str>, label: &str, order: i32| MenuItemInput {
        id: id.map(|s| s.to_owned()),
        label: label.to_owned(),
        link_type: "page".to_owned(),
        link_target: "about".to_owned(),
        parent_id: None,
        sort_order: order,
    };
    let kept = menu_item(&input(Some("i1"), "About", 2), "m1", "fresh".to_owned());
    assert_eq!(kept.id, "i1");
    assert_eq!(kept.menu_id, "m1");
    assert_eq!((kept.label.as_str(), kept.sort_order), ("About", 2));
    let made = menu_item(&input(None, "Home", 0), "m1", "fresh".to_owned());
    assert_eq!(made.id, "fresh");
    let stored = update_menu("m1", vec![input(Some("i1"), "About", 2), input(None, "Home", 0), input(None, "Blog", 1)]);
    assert_eq!(stored.len(), 3);
    assert_eq!(stored[0].id, "i1");
    assert_eq!(stored[1].label, "Home");
    assert_eq!(stored[1].id.len(), 36);
    assert_ne!(stored[1].id, stored[2].id);
    assert!(stored.iter().all(|item| item.menu_id == "m1"));
    assert_eq!(menu_id_for(Some("m1".to_owned()), "new".to_owned()), ("m1".to_owned(), false));
    assert_eq!(menu_id_for(None, "new".to_owned()), ("new".to_owned(), true));
}

#[test]
fn settings_updates_must_use_known_keys() {
    let pair = |k: &str, v: &str| (k.to_owned(), v.to_owned());
    assert!(is_allowed_key("site_title"));
    assert!(is_public_key("dark_mode_default"));
    assert!(!is_allowed_key("secret"));
    assert_eq!(update_settings(&vec![]), Ok(()));
    assert_eq!(update_settings(&vec![pair("site_title", "T"), pair("apps_per_page", "5")]), Ok(()));
    assert_eq!(
        update_settings(&vec![pair("site_title", "T"), pair("evil", "1"), pair("worse", "2")]),
        Err(AppError::BadRequest("Unknown setting key: 'evil'".to_owned()))
    );
    let shown = get_public_settings(&vec![pair("internal", "x"), pair("site_title", "T")]);
    assert_eq!(shown, vec![pair("site_title", "T")]);
}

#[test]
fn search_is_planned_from_the_query() {
    assert_eq!(search("", None, false), None);
    assert_eq!(search(" \t ", Some("pages"), true), None);
    let all = search("  rust lang ", None, false).unwrap();
    assert_eq!(all.fts_query, "rust lang*");
    assert!(all.pages && all.articles && all.apps && all.published_only);
    let pages = search("rust", Some("pages"), true).unwrap();
    assert!(pages.pages && !pages.articles && !pages.apps && !pages.published_only);
    let unknown = search("rust", Some("users"), true).unwrap();
    assert!(!unknown.pages && !unknown.articles && !unknown.apps);
    assert!(search_covers(None, "apps"));
    assert!(search_covers(Some("apps"), "apps"));
    assert!(!search_covers(Some("apps"), "pages"));
    let hit = search_result("page", "1".to_owned(), "T".to_owned(), "t".to_owned(), "..".to_owned());
    assert_eq!(hit.result_type, "page");
    assert_eq!(hit.slug, "t");
}

#[test]
fn media_form_fields_are_checked() {
    assert_eq!(media_selection(Some("icons")), MediaSelection::Icons);
    assert_eq!(media_selection(Some("images")), MediaSelection::Images);
    assert_eq!(media_selection(Some("other")), MediaSelection::All);
    assert_eq!(media_selection(None), MediaSelection::All);
    assert!(marks_icon("true") && marks_icon("1"));
    assert!(!marks_icon("yes") && !marks_icon("") && !marks_icon("TRUE"));
    assert_eq!(
        admin_upload(None, Some("a.png".to_owned()), None),
        Err(AppError::BadRequest("Missing 'file' field".to_owned()))
    );
    assert_eq!(
        admin_upload(Some(vec![1]), None, None),
        Err(AppError::BadRequest("Missing filename in upload".to_owned()))
    );
    assert_eq!(
        admin_upload(Some(vec![]), Some("a.png".to_owned()), Some("image/png".to_owned())),
        Err(AppError::BadRequest("Uploaded file is empty".to_owned()))
    );
    assert_eq!(
        admin_upload(Some(vec![1, 2]), Some("a.bin".to_owned()), None),
        Ok(Upload {
            data: vec![1, 2],
            original_filename: "a.bin".to_owned(),
            mime_type: "application/octet-stream".to_owned(),
        })
    );
}

fn feed_article(title: &str, slug: &str, short_text: &str, publish_at: Option<i64>) -> Article {
    Article {
        id: slug.to_owned(),
        title: title.to_owned(),
        slug: slug.to_owned(),
        short_text: short_text.to_owned(),
        content: String::new(),
        status: "published".to_owned(),
        publish_at,
        author_id: "u".to_owned(),
        created_at: 0,
        updated_at: 86_400,
        trashed_at: None,
        cover_image_id: None,
        reading_time_minutes: 1,
    }
}

#[test]
fn empty_feed_has_head_and_closing_tag() {
    let xml = atom_feed("Tom & Co", "https://example.org///", &vec![]).unwrap();
    assert_eq!(
        xml,
        "<?xml version=\"1.0\" encoding=\"utf-8\"?>\n\
         <feed xmlns=\"http://www.w3.org/2005/Atom\">\n\
         \x20 <title>Tom &amp; Co</title>\n\
         \x20 <link href=\"https://example.org/feed.xml\" rel=\"self\"/>\n\
         \x20 <link href=\"https://example.org\" rel=\"alternate\"/>\n\
         \x20 <id>https://example.org/</id>\n\
         </feed>\n"
    );
}

#[test]
fn feed_lists_articles_with_their_times() {
    let articles = vec![
        feed_article("A <b>", "a", "sum & more", Some(1_431_648_000)),
        feed_article("B", "b", "", None),
    ];
    let xml = atom_feed("Site", "https://example.org", &articles).unwrap();
    let expected = "<?xml version=\"1.0\" encoding=\"utf-8\"?>\n\
         <feed xmlns=\"http://www.w3.org/2005/Atom\">\n\
         \x20 <title>Site</title>\n\
         \x20 <link href=\"https://example.org/feed.xml\" rel=\"self\"/>\n\
         \x20 <link href=\"https://example.org\" rel=\"alternate\"/>\n\
         \x20 <id>https://example.org/</id>\n\
         \x20 <updated>2015-05-15T00:00:00+00:00</updated>\n\
         \x20 <entry>\n\
         \x20   <title>A &lt;b&gt;</title>\n\
         \x20   <link href=\"https://example.org/articles/a\"/>\n\
         \x20   <id>https://example.org/articles/a</id>\n\
         \x20   <published>2015-05-15T00:00:00+00:00</published>\n\
         \x20   <updated>1970-01-02T00:00:00+00:00</updated>\n\
         \x20   <summary>sum &amp; more</summary>\n\
         \x20 </entry>\n\
         \x20 <entry>\n\
         \x20   <title>B</title>\n\
         \x20   <link href=\"https://example.org/articles/b\"/>\n\
         \x20   <id>https://example.org/articles/b</id>\n\
         \x20   <published>1970-01-01T00:00:00+00:00</published>\n\
         \x20   <updated>1970-01-02T00:00:00+00:00</updated>\n\
         \x20 </entry>\n\
         </feed>\n";
    assert_eq!(xml, expected);
}

#[test]
fn feed_with_a_time_outside_the_calendar_is_none() {
    let articles = vec![feed_article("A", "a", "", Some(i64::MAX))];
    assert_eq!(atom_feed("Site", "https://example.org", &articles), None);
}
