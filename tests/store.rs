use clipcrab::models::StoredRow;
use clipcrab::query::{open_row, search_rows, search_sql, CategoryFilter, Schema};
use clipcrab::schema::{missing_columns, CREATE_CATEGORY_INDEX, CREATE_ORDER_INDEX, CREATE_TABLE};
use clipcrab::vault::Vault;
use clipcrab::watcher::text_record;
use rusqlite::Connection;

fn columns(conn: &Connection) -> Vec<String> {
    let mut stmt = conn.prepare("PRAGMA table_info(clipboard_history)").unwrap();
    let names = stmt.query_map([], |row| row.get::<_, String>(1)).unwrap();
    names.map(|n| n.unwrap()).collect()
}

fn migrate(conn: &Connection) -> usize {
    let missing = missing_columns(&columns(conn));
    for c in &missing {
        conn.execute(c.add_statement(), []).unwrap();
    }
    missing.len()
}

fn insert(conn: &Connection, v: &Vault, text: &str) {
    let r = text_record(v, text);
    conn.execute(
        "INSERT INTO clipboard_history (content, content_type, category, created_at, is_encrypted) VALUES (?1, ?2, ?3, datetime('now', 'localtime'), ?4)",
        (r.content.as_str(), r.content_type(), r.category.as_str(), r.is_encrypted),
    )
    .unwrap();
}

fn page(conn: &Connection, filter: &CategoryFilter, limit: i32, offset: i32) -> Vec<StoredRow> {
    let mut stmt = conn.prepare(&search_sql(filter)).unwrap();
    let rows = stmt
        .query_map([limit, offset], |row| {
            Ok(StoredRow {
                id: row.get(0)?,
                content: row.get(1)?,
                content_type: row.get(2)?,
                category: row.get(3)?,
                image_data: row.get(4)?,
                created_at: row.get(5)?,
                pinned: row.get(6)?,
                is_encrypted: row.get(7)?,
            })
        })
        .unwrap();
    rows.map(|r| r.unwrap()).collect()
}

fn store() -> Connection {
    let conn = Connection::open_in_memory().unwrap();
    conn.execute(CREATE_TABLE, []).unwrap();
    conn.execute(CREATE_ORDER_INDEX, []).unwrap();
    conn.execute(CREATE_CATEGORY_INDEX, []).unwrap();
    conn
}

#[test]
fn migrating_twice_is_harmless() {
    let conn = Connection::open_in_memory().unwrap();
    conn.execute("CREATE TABLE clipboard_history (id INTEGER PRIMARY KEY AUTOINCREMENT, content TEXT NOT NULL, created_at TEXT)", [])
        .unwrap();
    conn.execute("INSERT INTO clipboard_history (content, created_at) VALUES ('old', 'then')", []).unwrap();
    assert_eq!(migrate(&conn), 5);
    let after_first = columns(&conn);
    assert_eq!(migrate(&conn), 0);
    assert_eq!(columns(&conn), after_first);
    let encrypted: bool = conn.query_row("SELECT is_encrypted FROM clipboard_history", [], |r| r.get(0)).unwrap();
    assert!(!encrypted);
}

#[test]
fn fresh_table_needs_no_migration() {
    assert_eq!(migrate(&store()), 0);
}

#[test]
fn pages_cover_history_without_overlap() {
    let conn = store();
    let v = Vault::from_key(vec![2u8; 32]).unwrap();
    for t in ["one", "two", "three", "four"] {
        insert(&conn, &v, t);
    }
    let all = CategoryFilter::parse(None);
    let first = page(&conn, &all, 2, 0);
    let second = page(&conn, &all, 2, 2);
    let shown: Vec<String> =
        first.iter().chain(second.iter()).map(|r| open_row(&v, r, Schema::Current).content).collect();
    assert_eq!(shown, vec!["four", "three", "two", "one"]);
}

#[test]
fn pinned_rows_come_first() {
    let conn = store();
    let v = Vault::from_key(vec![2u8; 32]).unwrap();
    for t in ["one", "two", "three"] {
        insert(&conn, &v, t);
    }
    conn.execute("UPDATE clipboard_history SET pinned = 1 WHERE id = 1", []).unwrap();
    let rows = page(&conn, &CategoryFilter::parse(None), 10, 0);
    let ids: Vec<i64> = rows.iter().map(|r| r.id).collect();
    assert_eq!(ids, vec![1, 3, 2]);
}

#[test]
fn search_in_store() {
    let conn = store();
    let v = Vault::from_key(vec![2u8; 32]).unwrap();
    for t in ["hello", "world", "hello world", "https://hello.example"] {
        insert(&conn, &v, t);
    }
    let text_only = CategoryFilter::parse(Some("text"));
    let rows = page(&conn, &text_only, 100, 0);
    let found = search_rows(&v, &rows, "hello");
    assert_eq!(rows.len(), 3);
    let shown: Vec<&str> = found.iter().map(|i| i.content.as_str()).collect();
    assert_eq!(shown, vec!["hello world", "hello"]);
}
