use pawtal::api::feed::escape_xml;
use pawtal::auth::middleware::{cookie_value, extract_session_cookie, require_admin, require_auth};
use pawtal::config::{database_path, default_port};
use pawtal::db::models::User;
use pawtal::error::AppError;
use pawtal::helpers::slugify;
use pawtal::media::processing::{
    crop_region, get_icon_variants, get_standard_variants, variant_file_names, CropRegion,
};
use pawtal::policy::{
    can_restore, is_due_for_publication, is_expired_trash, resolve_slug, slug_collides,
    RETENTION_SECONDS,
};
use pawtal::proxy::{forwards_header, health_status, returns_header, target_url};
use pawtal::services::articles::estimate_reading_time;
use pawtal::services::media::{is_image_mime, plan_upload, sanitize_filename};
use pawtal::db::models::CreatePage;
use pawtal::db::Database;
use pawtal::services::pages::{create_page, is_slug_available};
use pawtal::text::trim;

#[test]
fn slugify_lowercases_and_joins_words() {
    assert_eq!(slugify("Hello World"), "hello-world");
    assert_eq!(slugify("Hello World!"), "hello-world");
    assert_eq!(slugify("Rust 2024: What's New?"), "rust-2024-what-s-new");
}

#[test]
fn slugify_collapses_runs_and_trims_ends() {
    assert_eq!(slugify("  --Hello,   World!!  "), "hello-world");
    assert_eq!(slugify("a---b"), "a-b");
    assert_eq!(slugify("---"), "");
    assert_eq!(slugify(""), "");
    assert_eq!(slugify("x"), "x");
}

#[test]
fn slugify_treats_non_ascii_as_separators() {
    assert_eq!(slugify("Café au lait"), "caf-au-lait");
    assert_eq!(slugify("日本語"), "");
}

#[test]
fn slugify_is_idempotent_on_its_results() {
    for title in ["Hello World", "  A  b  ", "x--y", "Ünïcode Title 7"] {
        let once = slugify(title);
        assert_eq!(slugify(&once), once);
    }
}

#[test]
fn resolve_slug_prefers_the_explicit_slug() {
    assert_eq!(resolve_slug("Hello World", &None), "hello-world");
    assert_eq!(resolve_slug("Hello World", &Some("Custom Slug".to_owned())), "Custom Slug");
}

#[test]
fn slug_collision_excludes_the_item_itself() {
    assert!(!slug_collides(None, None));
    assert!(!slug_collides(None, Some("a")));
    assert!(slug_collides(Some("a"), None));
    assert!(slug_collides(Some("a"), Some("b")));
    assert!(!slug_collides(Some("a"), Some("a")));
}

#[test]
fn only_trashed_items_can_be_restored() {
    assert!(can_restore("trashed"));
    assert!(!can_restore("draft"));
    assert!(!can_restore("published"));
    assert!(!can_restore("scheduled"));
    assert!(!can_restore("Trashed"));
}

#[test]
fn publication_is_due_from_its_time_on() {
    assert!(is_due_for_publication("scheduled", Some(100), 100));
    assert!(is_due_for_publication("scheduled", Some(99), 100));
    assert!(!is_due_for_publication("scheduled", Some(101), 100));
    assert!(!is_due_for_publication("scheduled", None, 100));
    assert!(!is_due_for_publication("draft", Some(1), 100));
}

#[test]
fn trash_expires_after_the_retention_period() {
    assert_eq!(RETENTION_SECONDS, 30 * 24 * 60 * 60);
    assert!(!is_expired_trash("trashed", Some(0), RETENTION_SECONDS));
    assert!(is_expired_trash("trashed", Some(0), RETENTION_SECONDS + 1));
    assert!(!is_expired_trash("published", Some(0), RETENTION_SECONDS + 1));
    assert!(!is_expired_trash("trashed", None, i64::MAX));
    assert!(is_expired_trash("trashed", Some(i64::MIN), i64::MAX));
    assert!(!is_expired_trash("trashed", Some(i64::MAX), i64::MIN));
}

#[test]
fn reading_time_is_at_least_one_minute() {
    assert_eq!(estimate_reading_time(""), 1);
    assert_eq!(estimate_reading_time("   "), 1);
    assert_eq!(estimate_reading_time("<p></p>"), 1);
    assert_eq!(estimate_reading_time("one"), 1);
}

#[test]
fn reading_time_rounds_up_at_200_words_a_minute() {
    let words = |n: usize| vec!["word"; n].join(" ");
    assert_eq!(estimate_reading_time(&words(200)), 1);
    assert_eq!(estimate_reading_time(&words(201)), 2);
    assert_eq!(estimate_reading_time(&words(400)), 2);
    assert_eq!(estimate_reading_time(&words(401)), 3);
}

#[test]
fn reading_time_leaves_tags_out_and_lets_them_separate_words() {
    let tagged = |n: usize| vec!["<p class=\"a b c d\">w</p>"; n].join("");
    assert_eq!(estimate_reading_time(&tagged(200)), 1);
    assert_eq!(estimate_reading_time(&tagged(201)), 2);
    let glued = vec!["a<b>c"; 101].join(" ");
    assert_eq!(estimate_reading_time(&glued), 2);
    let spaces = vec!["w"; 201].join("\u{00A0}\t\n");
    assert_eq!(estimate_reading_time(&spaces), 2);
}

#[test]
fn escape_xml_replaces_the_four_special_characters() {
    assert_eq!(escape_xml("a & b"), "a &amp; b");
    assert_eq!(escape_xml("<tag attr=\"v\">"), "&lt;tag attr=&quot;v&quot;&gt;");
    assert_eq!(escape_xml("&amp;"), "&amp;amp;");
    assert_eq!(escape_xml("it's plain"), "it's plain");
    assert_eq!(escape_xml(""), "");
}

#[test]
fn sanitize_filename_keeps_the_last_component_only() {
    assert_eq!(sanitize_filename("../../etc/passwd"), "passwd");
    assert_eq!(sanitize_filename("C:\\Users\\me\\Photo.JPG"), "photo.jpg");
    assert_eq!(sanitize_filename("dir/"), "");
    assert_eq!(sanitize_filename(""), "");
}

#[test]
fn sanitize_filename_replaces_unsafe_characters() {
    assert_eq!(sanitize_filename("My File (1).JPG"), "my_file__1_.jpg");
    assert_eq!(sanitize_filename("a-b_c.d"), "a-b_c.d");
    assert_eq!(sanitize_filename("prix 5€.png"), "prix_5_.png");
    assert_eq!(sanitize_filename("Été.PNG"), "Été.png");
}

#[test]
fn image_mime_types_are_recognised() {
    for mime in
        ["image/jpeg", "image/jpg", "image/png", "image/gif", "image/webp", "image/bmp", "image/tiff"]
    {
        assert!(is_image_mime(mime));
    }
    for mime in ["image/svg+xml", "application/pdf", "IMAGE/PNG", "", "image/"] {
        assert!(!is_image_mime(mime));
    }
}

#[test]
fn upload_plan_names_the_file_and_its_variants() {
    let plan = plan_upload("Holiday Photo.PNG", "image/png", false).unwrap();
    assert_eq!(plan.filename, "holiday_photo.png");
    assert_eq!(plan.variants, get_standard_variants());
    let icon = plan_upload("icon.png", "image/png", true).unwrap();
    assert_eq!(icon.variants, get_icon_variants());
    let pdf = plan_upload("paper.pdf", "application/pdf", true).unwrap();
    assert!(pdf.variants.is_empty());
    assert_eq!(
        plan_upload("uploads/", "image/png", false),
        Err(AppError::BadRequest("Invalid filename".to_owned()))
    );
}

#[test]
fn standard_variants_are_three_sizes() {
    let variants = get_standard_variants();
    let shape: Vec<(&str, u32, u32, bool)> = variants
        .iter()
        .map(|v| (v.suffix.as_str(), v.max_width, v.max_height, v.crop_square))
        .collect();
    assert_eq!(
        shape,
        vec![
            ("thumbnail", 200, 200, true),
            ("medium", 800, 800, false),
            ("large", 1600, 1600, false)
        ]
    );
}

#[test]
fn icon_variants_add_a_square_icon() {
    let variants = get_icon_variants();
    assert_eq!(variants.len(), 4);
    assert_eq!(&variants[..3], &get_standard_variants()[..]);
    let icon = &variants[3];
    assert_eq!(
        (icon.suffix.as_str(), icon.max_width, icon.max_height, icon.crop_square),
        ("icon", 128, 128, true)
    );
}

#[test]
fn square_crop_is_centred() {
    assert_eq!(crop_region(400, 300, true), CropRegion { x: 50, y: 0, width: 300, height: 300 });
    assert_eq!(crop_region(300, 401, true), CropRegion { x: 0, y: 50, width: 300, height: 300 });
    assert_eq!(crop_region(7, 7, true), CropRegion { x: 0, y: 0, width: 7, height: 7 });
    assert_eq!(crop_region(400, 300, false), CropRegion { x: 0, y: 0, width: 400, height: 300 });
    assert_eq!(crop_region(0, 9, true), CropRegion { x: 0, y: 4, width: 0, height: 0 });
}

#[test]
fn variant_files_are_named_by_suffix() {
    assert_eq!(
        variant_file_names("thumbnail", Some("jpg")),
        ("thumbnail.jpg".to_owned(), "thumbnail.webp".to_owned())
    );
    assert_eq!(
        variant_file_names("large", None),
        ("large.png".to_owned(), "large.webp".to_owned())
    );
}

#[test]
fn cookie_value_finds_the_named_cookie() {
    assert_eq!(cookie_value("a=1; pawtal_session=tok; b=2", "pawtal_session"), Some("tok".to_owned()));
    assert_eq!(cookie_value("pawtal_session = tok ", "pawtal_session"), Some("tok".to_owned()));
    assert_eq!(cookie_value("pawtal_session=a=b", "pawtal_session"), Some("a=b".to_owned()));
    assert_eq!(cookie_value("x=1;pawtal_session=", "pawtal_session"), Some("".to_owned()));
    assert_eq!(cookie_value("s=1; s=2", "s"), Some("1".to_owned()));
}

#[test]
fn cookie_value_is_none_without_the_cookie() {
    assert_eq!(cookie_value("", "pawtal_session"), None);
    assert_eq!(cookie_value("a=1; b=2", "pawtal_session"), None);
    assert_eq!(cookie_value("pawtal_session", "pawtal_session"), None);
    assert_eq!(cookie_value("xpawtal_session=1", "pawtal_session"), None);
    assert_eq!(cookie_value(";;;", "a"), None);
}

#[test]
fn session_cookie_is_required() {
    assert_eq!(extract_session_cookie("pawtal_session=abc"), Some("abc".to_owned()));
    assert_eq!(require_auth(Some("x=1; pawtal_session=abc")), Ok("abc".to_owned()));
    assert_eq!(require_auth(Some("x=1")), Err(AppError::Unauthorized));
    assert_eq!(require_auth(None), Err(AppError::Unauthorized));
}

#[test]
fn admin_routes_need_the_admin_role() {
    let user = |role: &str| User {
        id: "u".to_owned(),
        external_id: "e".to_owned(),
        email: "m".to_owned(),
        display_name: "n".to_owned(),
        role: role.to_owned(),
        created_at: 0,
        last_login: None,
    };
    assert_eq!(require_admin(&user("admin")), Ok(()));
    assert_eq!(require_admin(&user("editor")), Err(AppError::Forbidden));
    assert_eq!(require_admin(&user("")), Err(AppError::Forbidden));
}

#[test]
fn trim_removes_unicode_white_space_at_both_ends() {
    assert_eq!(trim("  a b \t\n"), "a b");
    assert_eq!(trim("\u{3000}x\u{2003}"), "x");
    assert_eq!(trim("   "), "");
    assert_eq!(trim(""), "");
    for s in [" a ", "\u{85}b\u{a0}", "\u{200b}c", "\u{1680}d\u{205f}", "\u{2028}e\u{2029}\u{202f}"] {
        assert_eq!(trim(s), s.trim());
    }
}

#[test]
fn database_path_drops_scheme_and_query() {
    assert_eq!(database_path("sqlite:data/pawtal.db?mode=rwc"), "data/pawtal.db");
    assert_eq!(database_path("sqlite:data/pawtal.db"), "data/pawtal.db");
    assert_eq!(database_path("data/x.db?mode=ro"), "data/x.db");
    assert_eq!(database_path("sqlite"), "sqlite");
    assert_eq!(database_path(""), "");
    assert_eq!(default_port(), 8080);
}

#[test]
fn proxy_passes_only_selected_headers() {
    for name in ["cookie", "accept", "accept-language", "content-type"] {
        assert!(forwards_header(name));
    }
    for name in ["host", "authorization", "Cookie", ""] {
        assert!(!forwards_header(name));
    }
    assert!(!returns_header("transfer-encoding"));
    assert!(returns_header("set-cookie"));
    assert_eq!(target_url("http://127.0.0.1:3000", Some("/a?b=1")), "http://127.0.0.1:3000/a?b=1");
    assert_eq!(target_url("http://127.0.0.1:3000", None), "http://127.0.0.1:3000/");
    assert_eq!(health_status(true), "ok");
    assert_eq!(health_status(false), "degraded");
}

#[test]
fn slug_availability_excludes_the_item_itself() {
    use_slug_availability();
}

fn use_slug_availability() {
    let mut db = Database::new(0);
    let input = CreatePage {
        title: "Taken".to_owned(),
        slug: None,
        content: None,
        status: None,
        publish_at: None,
        category_ids: None,
    };
    let page = create_page(&mut db, input, "u").unwrap();
    assert!(!is_slug_available(&db, "taken", None));
    assert!(!is_slug_available(&db, "taken", Some("other")));
    assert!(is_slug_available(&db, "taken", Some(&page.id)));
    assert!(is_slug_available(&db, "free", None));
    assert!(pawtal::services::articles::is_slug_available(&db, "taken", None));
}
