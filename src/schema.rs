//! The history table's schema: which columns an older table lacks, the
//! statements that add them, and the category backfill that follows.

use vstd::prelude::*;
use crate::category::{category_for, record_category, Category};
use crate::models::StoredRow;
use crate::query::{row_is_image, shown_text, show_text, Schema};
use crate::text::{decimal, push_decimal, push_text, same_text};
use crate::vault::Vault;

verus! {

/// The statement that creates the history table where it is absent.
pub const CREATE_TABLE: &'static str = "CREATE TABLE IF NOT EXISTS clipboard_history (id INTEGER PRIMARY KEY AUTOINCREMENT, content TEXT NOT NULL, content_type TEXT DEFAULT 'text', category TEXT DEFAULT 'text', image_data TEXT, created_at TEXT DEFAULT CURRENT_TIMESTAMP, pinned INTEGER DEFAULT 0, is_encrypted INTEGER DEFAULT 1)";

/// The index behind the listing order (pinned first, newest first).
pub const CREATE_ORDER_INDEX: &'static str = "CREATE INDEX IF NOT EXISTS idx_clipboard_pinned_id ON clipboard_history(pinned DESC, id DESC)";

/// The index behind category filtering.
pub const CREATE_CATEGORY_INDEX: &'static str = "CREATE INDEX IF NOT EXISTS idx_clipboard_category ON clipboard_history(category)";

/// A column that tables written by earlier versions may lack.
#[derive(Clone, Copy, Debug, PartialEq, Eq, Structural)]
pub enum Column {
    ContentType,
    ImageData,
    Pinned,
    Category,
    IsEncrypted,
}

impl Column {
    pub open spec fn column_name(self) -> Seq<char> {
        match self {
            Column::ContentType => "content_type"@,
            Column::ImageData => "image_data"@,
            Column::Pinned => "pinned"@,
            Column::Category => "category"@,
            Column::IsEncrypted => "is_encrypted"@,
        }
    }

    pub fn name(&self) -> (r: &'static str)
        ensures
            r@ == self.column_name(),
    {
        match self {
            Column::ContentType => "content_type",
            Column::ImageData => "image_data",
            Column::Pinned => "pinned",
            Column::Category => "category",
            Column::IsEncrypted => "is_encrypted",
        }
    }

    /// The statement that adds the column with its default. Rows that
    /// predate a column get: type `text`, no image, unpinned, category
    /// `text` (until the backfill), and not encrypted (they were written in
    /// plaintext).
    pub open spec fn add_sql(self) -> Seq<char> {
        match self {
            Column::ContentType => "ALTER TABLE clipboard_history ADD COLUMN content_type TEXT DEFAULT 'text'"@,
            Column::ImageData => "ALTER TABLE clipboard_history ADD COLUMN image_data TEXT"@,
            Column::Pinned => "ALTER TABLE clipboard_history ADD COLUMN pinned INTEGER DEFAULT 0"@,
            Column::Category => "ALTER TABLE clipboard_history ADD COLUMN category TEXT DEFAULT 'text'"@,
            Column::IsEncrypted => "ALTER TABLE clipboard_history ADD COLUMN is_encrypted INTEGER DEFAULT 0"@,
        }
    }

    /// The statement of [`Column::add_sql`].
    pub fn add_statement(&self) -> (r: &'static str)
        ensures
            r@ == self.add_sql(),
    {
        match self {
            Column::ContentType => "ALTER TABLE clipboard_history ADD COLUMN content_type TEXT DEFAULT 'text'",
            Column::ImageData => "ALTER TABLE clipboard_history ADD COLUMN image_data TEXT",
            Column::Pinned => "ALTER TABLE clipboard_history ADD COLUMN pinned INTEGER DEFAULT 0",
            Column::Category => "ALTER TABLE clipboard_history ADD COLUMN category TEXT DEFAULT 'text'",
            Column::IsEncrypted => "ALTER TABLE clipboard_history ADD COLUMN is_encrypted INTEGER DEFAULT 0",
        }
    }
}

/// The columns that migration checks for, in the order it adds them.
pub open spec fn expected_columns() -> Seq<Column> {
    seq![Column::ContentType, Column::ImageData, Column::Pinned, Column::Category, Column::IsEncrypted]
}

/// The columns among `cs` whose names `existing` lacks, in order.
pub open spec fn missing_among(existing: Seq<Seq<char>>, cs: Seq<Column>) -> Seq<Column>
    decreases cs.len(),
{
    if cs.len() == 0 {
        Seq::empty()
    } else {
        let prev = missing_among(existing, cs.drop_last());
        if existing.contains(cs.last().column_name()) {
            prev
        } else {
            prev.push(cs.last())
        }
    }
}

/// The columns that a table with the columns `existing` must be given.
pub open spec fn missing(existing: Seq<Seq<char>>) -> Seq<Column> {
    missing_among(existing, expected_columns())
}

pub open spec fn column_names(cs: Seq<Column>) -> Seq<Seq<char>> {
    cs.map_values(|c: Column| c.column_name())
}

pub open spec fn string_views(v: Seq<String>) -> Seq<Seq<char>> {
    v.map_values(|s: String| s@)
}

/// Whether one of `existing` is the column's name.
fn has_column(existing: &Vec<String>, c: Column) -> (r: bool)
    ensures
        r == string_views(existing@).contains(c.column_name()),
{
    let ghost names = string_views(existing@);
    let mut i: usize = 0;
    while i < existing.len()
        invariant
            i <= existing@.len(),
            names == string_views(existing@),
            forall|k: int| 0 <= k < i ==> names[k] != c.column_name(),
        decreases existing@.len() - i,
    {
        if same_text(existing[i].as_str(), c.name()) {
            assert(names[i as int] == c.column_name());
            return true;
        }
        i = i + 1;
    }
    false
}

/// The columns that a table with the columns `existing` must be given, in
/// the order in which they are to be added.
pub fn missing_columns(existing: &Vec<String>) -> (r: Vec<Column>)
    ensures
        r@ == missing(string_views(existing@)),
{
    let all = vec![Column::ContentType, Column::ImageData, Column::Pinned, Column::Category, Column::IsEncrypted];
    let ghost names = string_views(existing@);
    let mut out: Vec<Column> = Vec::new();
    assert(all@.subrange(0, 0) =~= Seq::<Column>::empty());
    for i in 0..all.len()
        invariant
            all@ == expected_columns(),
            names == string_views(existing@),
            out@ == missing_among(names, all@.subrange(0, i as int)),
    {
        let c = all[i];
        assert(all@.subrange(0, i + 1).drop_last() == all@.subrange(0, i as int));
        if !has_column(existing, c) {
            out.push(c);
        }
    }
    assert(all@.subrange(0, 5) == all@);
    out
}

/// How to read a table with the columns `existing`: as a current table
/// where it has a `category` column, else as a legacy one.
pub fn schema_of(existing: &Vec<String>) -> (r: Schema)
    ensures
        r == if string_views(existing@).contains(Column::Category.column_name()) {
            Schema::Current
        } else {
            Schema::Legacy
        },
{
    if has_column(existing, Column::Category) {
        Schema::Current
    } else {
        Schema::Legacy
    }
}

proof fn lemma_missing_among(existing: Seq<Seq<char>>, cs: Seq<Column>)
    ensures
        forall|c: Column| #[trigger] missing_among(existing, cs).contains(c) <==> (cs.contains(c)
            && !existing.contains(c.column_name())),
    decreases cs.len(),
{
    if cs.len() > 0 {
        lemma_missing_among(existing, cs.drop_last());
        let prev = missing_among(existing, cs.drop_last());
        assert forall|c: Column| #[trigger] missing_among(existing, cs).contains(c) <==> (cs.contains(
            c,
        ) && !existing.contains(c.column_name())) by {
            if cs.contains(c) && c != cs.last() {
                let k = choose|k: int| 0 <= k < cs.len() && cs[k] == c;
                assert(cs.drop_last()[k] == c);
            }
            if cs.drop_last().contains(c) {
                let k = choose|k: int| 0 <= k < cs.drop_last().len() && cs.drop_last()[k] == c;
                assert(cs[k] == c);
            }
            if !existing.contains(cs.last().column_name()) {
                assert(prev.push(cs.last()).last() == cs.last());
                if prev.push(cs.last()).contains(c) && c != cs.last() {
                    let k = choose|k: int| 0 <= k < prev.len() + 1 && prev.push(cs.last())[k] == c;
                    assert(prev[k] == c);
                }
                if prev.contains(c) {
                    let k = choose|k: int| 0 <= k < prev.len() && prev[k] == c;
                    assert(prev.push(cs.last())[k] == c);
                }
            }
            assert(cs[cs.len() - 1] == cs.last());
        }
    }
}

/// Migration is idempotent: every column it adds was absent (it never
/// duplicates a column), and once its columns are added, running it again
/// adds nothing.
pub proof fn lemma_migration_idempotent(existing: Seq<Seq<char>>)
    ensures
        forall|c: Column| #[trigger] missing(existing).contains(c) ==> !existing.contains(c.column_name()),
        missing(existing + column_names(missing(existing))) == Seq::<Column>::empty(),
{
    let added = missing(existing);
    let after = existing + column_names(added);
    lemma_missing_among(existing, expected_columns());
    lemma_missing_among(after, expected_columns());
    assert forall|c: Column| #[trigger] expected_columns().contains(c) implies after.contains(c.column_name()) by {
        if existing.contains(c.column_name()) {
            let k = choose|k: int| 0 <= k < existing.len() && existing[k] == c.column_name();
            assert(after[k] == c.column_name());
        } else {
            assert(added.contains(c));
            let k = choose|k: int| 0 <= k < added.len() && added[k] == c;
            assert(after[existing.len() + k] == c.column_name());
        }
    }
    let m = missing(after);
    if m.len() > 0 {
        assert(m.contains(m[0]));
    }
}

/// The category that the backfill gives a stored row: `Image` for images,
/// else the classifier's verdict on its (decrypted) text.
pub open spec fn backfill_category(key: Seq<u8>, r: crate::models::RowView) -> Category {
    record_category(shown_text(key, r.content, r.is_encrypted), row_is_image(r))
}

/// A category to be written back to the row with the given id.
#[derive(Clone, Copy, Debug, PartialEq, Eq, Structural)]
pub struct CategoryUpdate {
    pub id: i64,
    pub category: Category,
}

/// The category of every stored row, recomputed, in the rows' order.
pub fn recompute_categories(vault: &Vault, rows: &[StoredRow]) -> (r: Vec<CategoryUpdate>)
    ensures
        r@.len() == rows@.len(),
        forall|i: int| 0 <= i < rows@.len() ==> (#[trigger] r@[i]).id == rows@[i].id && r@[i].category
            == backfill_category(vault.key(), rows@[i]@),
{
    let mut out: Vec<CategoryUpdate> = Vec::new();
    for i in 0..rows.len()
        invariant
            out@.len() == i,
            forall|k: int| 0 <= k < i ==> (#[trigger] out@[k]).id == rows@[k].id && out@[k].category
                == backfill_category(vault.key(), rows@[k]@),
    {
        let row = &rows[i];
        let shown = show_text(vault, row.content.as_str(), row.is_encrypted);
        let is_image = same_text(row.content_type.as_str(), "image");
        out.push(CategoryUpdate { id: row.id, category: category_for(shown.as_str(), is_image) });
    }
    out
}

/// How many of `us` carry the category `c`.
pub open spec fn count_category(us: Seq<CategoryUpdate>, c: Category) -> nat
    decreases us.len(),
{
    if us.len() == 0 {
        0
    } else {
        count_category(us.drop_last(), c) + if us.last().category == c { 1nat } else { 0nat }
    }
}

/// How many records a backfill put in each category.
#[derive(Clone, Copy, Debug, PartialEq, Eq, Structural)]
pub struct CategoryTally {
    pub images: u64,
    pub urls: u64,
    pub emails: u64,
    pub code: u64,
    pub text: u64,
}

impl CategoryTally {
    /// Counts the updates of each category.
    pub fn of(us: &[CategoryUpdate]) -> (r: CategoryTally)
        ensures
            r.images == count_category(us@, Category::Image),
            r.urls == count_category(us@, Category::Url),
            r.emails == count_category(us@, Category::Email),
            r.code == count_category(us@, Category::Code),
            r.text == count_category(us@, Category::Text),
            r.images + r.urls + r.emails + r.code + r.text == us@.len(),
    {
        let mut t = CategoryTally { images: 0, urls: 0, emails: 0, code: 0, text: 0 };
        assert(us@.subrange(0, 0) =~= Seq::<CategoryUpdate>::empty());
        for i in 0..us.len()
            invariant
                t.images == count_category(us@.subrange(0, i as int), Category::Image),
                t.urls == count_category(us@.subrange(0, i as int), Category::Url),
                t.emails == count_category(us@.subrange(0, i as int), Category::Email),
                t.code == count_category(us@.subrange(0, i as int), Category::Code),
                t.text == count_category(us@.subrange(0, i as int), Category::Text),
                t.images + t.urls + t.emails + t.code + t.text == i,
        {
            let ghost next = us@.subrange(0, i + 1);
            assert(next.drop_last() == us@.subrange(0, i as int));
            assert(next.last() == us@[i as int]);
            match us[i].category {
                Category::Image => t.images = t.images + 1,
                Category::Url => t.urls = t.urls + 1,
                Category::Email => t.emails = t.emails + 1,
                Category::Code => t.code = t.code + 1,
                Category::Text => t.text = t.text + 1,
            }
        }
        assert(us@.subrange(0, us@.len() as int) == us@);
        t
    }

    /// Every record counted.
    pub open spec fn total(&self) -> nat {
        (self.images + self.urls + self.emails + self.code + self.text) as nat
    }

    pub open spec fn summary_text(&self) -> Seq<char> {
        "Updated "@ + decimal(self.total()) + " records: "@ + decimal(self.images as nat) + " images, "@
            + decimal(self.urls as nat) + " urls, "@ + decimal(self.emails as nat) + " emails, "@
            + decimal(self.code as nat) + " code, "@ + decimal(self.text as nat) + " text"@
    }

    /// `Updated N records: I images, U urls, E emails, C code, T text`.
    pub fn summary(&self) -> (r: String)
        requires
            self.total() <= u64::MAX,
        ensures
            r@ == self.summary_text(),
    {
        let total = self.images + self.urls + self.emails + self.code + self.text;
        let mut s = String::new();
        push_text(&mut s, "Updated ");
        push_decimal(&mut s, total);
        push_text(&mut s, " records: ");
        push_decimal(&mut s, self.images);
        push_text(&mut s, " images, ");
        push_decimal(&mut s, self.urls);
        push_text(&mut s, " urls, ");
        push_decimal(&mut s, self.emails);
        push_text(&mut s, " emails, ");
        push_decimal(&mut s, self.code);
        push_text(&mut s, " code, ");
        push_decimal(&mut s, self.text);
        push_text(&mut s, " text");
        s
    }
}

} // verus!
