use clipcrab::models::{ClipboardItem, ClipboardUpdateEvent, StoredRow};
use clipcrab::query::{
    category_sql, history_page, open_row, open_rows, page, rows_sql, search_legacy, search_page, search_rows,
    search_sql, CategoryFilter, RowOrder, Schema,
};
use clipcrab::category::Category;
use clipcrab::vault::Vault;

fn vault() -> Vault {
    Vault::from_key(vec![5u8; 32]).unwrap()
}

fn row(v: &Vault, id: i64, text: &str) -> StoredRow {
    StoredRow {
        id,
        content: v.encrypt(text).unwrap(),
        content_type: "text".to_string(),
        category: Some("text".to_string()),
        image_data: None,
        created_at: "2024-05-01 10:00:00".to_string(),
        pinned: false,
        is_encrypted: true,
    }
}

fn contents(items: &[ClipboardItem]) -> Vec<(i64, String)> {
    items.iter().map(|i| (i.id, i.content.clone())).collect()
}

#[test]
fn search_finds_matching_records_newest_first() {
    let v = vault();
    // a page as the store returns it: newest first
    let rows = vec![row(&v, 3, "hello world"), row(&v, 2, "world"), row(&v, 1, "hello")];
    let found = search_rows(&v, &rows, "hello");
    assert_eq!(contents(&found), vec![(3, "hello world".to_string()), (1, "hello".to_string())]);
}

#[test]
fn search_ignores_case() {
    let v = vault();
    let rows = vec![row(&v, 2, "Hello World"), row(&v, 1, "bye")];
    let found = search_rows(&v, &rows, "WORLD");
    assert_eq!(contents(&found), vec![(2, "Hello World".to_string())]);
}

#[test]
fn empty_search_keeps_everything() {
    let v = vault();
    let rows = vec![row(&v, 2, "a"), row(&v, 1, "b")];
    assert_eq!(search_rows(&v, &rows, "").len(), 2);
}

fn old_row(v: &Vault, id: i64, text: &str) -> StoredRow {
    let mut r = row(v, id, text);
    r.category = None;
    r
}

#[test]
fn old_table_search_filters_by_category() {
    let v = vault();
    let rows = vec![old_row(&v, 2, "https://example.com"), old_row(&v, 1, "plain words")];
    let urls = CategoryFilter::parse(Some("url"));
    let found = search_legacy(&v, &rows, "", &urls, 100, 0);
    assert_eq!(contents(&found), vec![(2, "https://example.com".to_string())]);
    assert_eq!(found[0].category, "url");
}

#[test]
fn old_table_search_pages_after_filtering() {
    let v = vault();
    let rows = vec![
        old_row(&v, 5, "www.five.org"),
        old_row(&v, 4, "four"),
        old_row(&v, 3, "http://three.net"),
        old_row(&v, 2, "two"),
        old_row(&v, 1, "https://one.com"),
    ];
    let urls = CategoryFilter::parse(Some("url"));
    assert_eq!(contents(&search_legacy(&v, &rows, "", &urls, 2, 0)), vec![
        (5, "www.five.org".to_string()),
        (3, "http://three.net".to_string())
    ]);
    assert_eq!(contents(&search_legacy(&v, &rows, "", &urls, 2, 2)), vec![(1, "https://one.com".to_string())]);
    // the text match applies to the page
    assert_eq!(contents(&search_legacy(&v, &rows, "ONE", &urls, 2, 0)), vec![]);
    assert_eq!(contents(&search_legacy(&v, &rows, "one", &urls, 2, 2)), vec![(1, "https://one.com".to_string())]);
}

#[test]
fn paging() {
    assert_eq!(page(vec![1, 2, 3, 4, 5], 2, 0), vec![1, 2]);
    assert_eq!(page(vec![1, 2, 3, 4, 5], 2, 4), vec![5]);
    assert_eq!(page(vec![1, 2, 3, 4, 5], 2, 9), Vec::<i32>::new());
    assert_eq!(page(vec![1, 2, 3, 4, 5], -1, 1), vec![2, 3, 4, 5]);
    assert_eq!(page(vec![1, 2, 3, 4, 5], 0, 0), Vec::<i32>::new());
    assert_eq!(page(vec![1, 2, 3], 10, -4), vec![1, 2, 3]);
}

#[test]
fn row_queries() {
    assert_eq!(
        rows_sql(Schema::Current, RowOrder::ListingPage),
        "SELECT id, content, content_type, category, image_data, created_at, pinned, is_encrypted FROM clipboard_history ORDER BY pinned DESC, id DESC LIMIT ?1 OFFSET ?2"
    );
    assert_eq!(
        rows_sql(Schema::Legacy, RowOrder::Insertion),
        "SELECT id, content, content_type, NULL, image_data, created_at, pinned, is_encrypted FROM clipboard_history ORDER BY id ASC"
    );
    assert!(rows_sql(Schema::Current, RowOrder::Listing).ends_with(" ORDER BY pinned DESC, id DESC"));
}

#[test]
fn split_search_joins_in_order() {
    let v = vault();
    let rows = vec![row(&v, 4, "ab"), row(&v, 3, "xb"), row(&v, 2, "b"), row(&v, 1, "c")];
    let whole = search_rows(&v, &rows, "b");
    let mut parts = search_rows(&v, &rows[..2], "b");
    parts.extend(search_rows(&v, &rows[2..], "b"));
    assert_eq!(contents(&whole), contents(&parts));
}

#[test]
fn open_row_decrypts_content_and_image() {
    let v = vault();
    let mut r = row(&v, 7, "Image (1x1)");
    r.content_type = "image".to_string();
    r.category = Some("image".to_string());
    r.image_data = Some(v.encrypt("iVBORw0KGgo=").unwrap());
    r.pinned = true;
    let item = open_row(&v, &r, Schema::Current);
    assert_eq!(item.id, 7);
    assert_eq!(item.content, "Image (1x1)");
    assert_eq!(item.content_type, "image");
    assert_eq!(item.category, "image");
    assert_eq!(item.image_data.as_deref(), Some("iVBORw0KGgo="));
    assert_eq!(item.created_at, "2024-05-01 10:00:00");
    assert!(item.pinned);
}

#[test]
fn open_row_shows_damaged_token_as_stored() {
    let v = vault();
    let mut r = row(&v, 1, "x");
    r.content = "not a token".to_string();
    r.image_data = Some("also not a token".to_string());
    let item = open_row(&v, &r, Schema::Current);
    assert_eq!(item.content, "not a token");
    assert_eq!(item.image_data.as_deref(), Some("also not a token"));
}

#[test]
fn open_row_keeps_plaintext_rows() {
    let v = vault();
    let mut r = row(&v, 1, "x");
    r.content = "legacy text".to_string();
    r.is_encrypted = false;
    r.image_data = Some("raw".to_string());
    let item = open_row(&v, &r, Schema::Current);
    assert_eq!(item.content, "legacy text");
    assert_eq!(item.image_data.as_deref(), Some("raw"));
}

#[test]
fn open_row_defaults_missing_category() {
    let v = vault();
    let mut r = row(&v, 1, "a@b.com");
    r.category = None;
    assert_eq!(open_row(&v, &r, Schema::Current).category, "text");
    assert_eq!(open_row(&v, &r, Schema::Legacy).category, "email");
    r.content_type = "image".to_string();
    assert_eq!(open_row(&v, &r, Schema::Current).category, "image");
}

#[test]
fn open_rows_keeps_order() {
    let v = vault();
    let rows = vec![row(&v, 1, "one"), row(&v, 2, "two")];
    let items = open_rows(&v, &rows, Schema::Current);
    assert_eq!(contents(&items), vec![(1, "one".to_string()), (2, "two".to_string())]);
}

#[test]
fn filter_parsing() {
    let f = CategoryFilter::parse(None);
    assert!(f.all);
    assert!(CategoryFilter::parse(Some("all")).all);
    assert!(CategoryFilter::parse(Some(" all ")).all);
    assert!(CategoryFilter::parse(Some("")).all);
    let f = CategoryFilter::parse(Some(" url , email"));
    assert!(!f.all);
    assert!(f.url && f.email && !f.text && !f.code && !f.image);
    assert!(f.admits(Category::Url));
    assert!(!f.admits(Category::Code));
    let f = CategoryFilter::parse(Some("all,code"));
    assert!(!f.all && f.code);
    let f = CategoryFilter::parse(Some("bogus"));
    assert!(!f.all && !f.admits(Category::Text));
}

#[test]
fn category_condition_sql() {
    assert_eq!(category_sql(&CategoryFilter::parse(None)), "");
    assert_eq!(category_sql(&CategoryFilter::parse(Some("url,email"))), " AND category IN ('url','email')");
    assert_eq!(
        category_sql(&CategoryFilter::parse(Some("image,text"))),
        " AND COALESCE(category, 'text') IN ('text','image')"
    );
    assert_eq!(category_sql(&CategoryFilter::parse(Some("bogus"))), " AND category IN (NULL)");
}

#[test]
fn search_query_sql() {
    assert_eq!(
        search_sql(&CategoryFilter::parse(Some("code"))),
        "SELECT id, content, content_type, category, image_data, created_at, pinned, is_encrypted FROM clipboard_history WHERE 1=1 AND category IN ('code') ORDER BY pinned DESC, id DESC LIMIT ?1 OFFSET ?2"
    );
}

#[test]
fn page_defaults() {
    assert_eq!(history_page(None, None), (50, 0));
    assert_eq!(history_page(Some(0), Some(5)), (100000, 5));
    assert_eq!(history_page(Some(-3), None), (100000, 0));
    assert_eq!(history_page(Some(20), Some(40)), (20, 40));
    assert_eq!(search_page(None, None), (100, 0));
    assert_eq!(search_page(Some(10), Some(30)), (10, 30));
}

#[test]
fn events_are_refreshes() {
    let e = ClipboardUpdateEvent::text_added();
    assert_eq!(e.action, "refresh");
    assert_eq!(e.message, "New text clipboard item added");
    assert_eq!(ClipboardUpdateEvent::image_added().message, "New image clipboard item added");
    assert_eq!(ClipboardUpdateEvent::item_deleted().action, "refresh");
    assert_eq!(ClipboardUpdateEvent::history_cleared().action, "refresh");
    assert_eq!(ClipboardUpdateEvent::refresh("m").message, "m");
}
