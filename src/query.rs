//! The read side of the history: turning stored rows into what the UI
//! layer sees (decrypted, with a category), the category filter, text
//! search, and the paging rules.

use vstd::prelude::*;
use crate::category::{lemma_tag_injective, record_category, category_for, Category};
use crate::models::{
    image_type, opt_view, text_of, ClipboardItem, ItemView, RowView, StoredRow,
};
use crate::text::{
    chars_of, comma_fields, contains, contains_seq, lower_of, push_text, same_chars, same_text,
    split_commas, to_lower, trim, trimmed, views_of,
};
use crate::vault::{opened_text, Vault};

verus! {

/// Limit of a history page when none is given.
pub const DEFAULT_HISTORY_LIMIT: i32 = 50;

/// Limit that a non-positive history limit stands for ("everything").
pub const UNBOUNDED_LIMIT: i32 = 100000;

/// Limit of a search page when none is given.
pub const DEFAULT_SEARCH_LIMIT: i32 = 100;

/// Which columns the history table has: `Legacy` tables predate the
/// `category` column, whose value is then computed on reading.
#[derive(Clone, Copy, Debug, PartialEq, Eq, Structural)]
pub enum Schema {
    Current,
    Legacy,
}

/// A stored text as shown: decrypted where it is a token that opens, the
/// stored value itself where it does not (a damaged or foreign row).
pub open spec fn shown_text(key: Seq<u8>, stored: Seq<char>, encrypted: bool) -> Seq<char> {
    if encrypted {
        match opened_text(key, stored) {
            Some(p) => p,
            None => stored,
        }
    } else {
        stored
    }
}

/// A stored image payload as shown: decrypted where it is a token that
/// opens, the stored value itself where it does not.
pub open spec fn shown_image(key: Seq<u8>, stored: Option<Seq<char>>, encrypted: bool) -> Option<Seq<char>> {
    match stored {
        Some(t) => Some(shown_text(key, t, encrypted)),
        None => None,
    }
}

pub open spec fn row_is_image(r: RowView) -> bool {
    r.content_type == image_type()
}

/// A row's category tag: the stored one, or for a row without one, that of
/// its content type; on a legacy table, computed from the content.
pub open spec fn shown_category(key: Seq<u8>, r: RowView, schema: Schema) -> Seq<char> {
    match schema {
        Schema::Legacy => record_category(
            shown_text(key, r.content, r.is_encrypted),
            row_is_image(r),
        ).tag(),
        Schema::Current => match r.category {
            Some(c) => c,
            None => if row_is_image(r) {
                Category::Image.tag()
            } else {
                Category::Text.tag()
            },
        },
    }
}

/// What the UI layer sees of a stored row.
pub open spec fn opened_item(key: Seq<u8>, r: RowView, schema: Schema) -> ItemView {
    ItemView {
        id: r.id,
        content: shown_text(key, r.content, r.is_encrypted),
        content_type: r.content_type,
        category: shown_category(key, r, schema),
        image_data: shown_image(key, r.image_data, r.is_encrypted),
        created_at: r.created_at,
        pinned: r.pinned,
    }
}

pub open spec fn row_views(rows: Seq<StoredRow>) -> Seq<RowView> {
    rows.map_values(|r: StoredRow| r@)
}

pub open spec fn item_views(items: Seq<ClipboardItem>) -> Seq<ItemView> {
    items.map_values(|i: ClipboardItem| i@)
}

/// A stored text as shown (see [`shown_text`]).
pub fn show_text(vault: &Vault, stored: &str, encrypted: bool) -> (r: String)
    ensures
        r@ == shown_text(vault.key(), stored@, encrypted),
{
    if encrypted {
        match vault.decrypt(stored) {
            Ok(p) => p,
            Err(_) => text_of(stored),
        }
    } else {
        text_of(stored)
    }
}

/// A stored image payload as shown (see [`shown_image`]).
pub fn show_image(vault: &Vault, stored: &Option<String>, encrypted: bool) -> (r: Option<String>)
    ensures
        opt_view(r) == shown_image(vault.key(), opt_view(*stored), encrypted),
{
    match stored {
        Some(t) => Some(show_text(vault, t.as_str(), encrypted)),
        None => None,
    }
}

/// What the UI layer sees of a stored row (see [`opened_item`]).
pub fn open_row(vault: &Vault, row: &StoredRow, schema: Schema) -> (r: ClipboardItem)
    ensures
        r@ == opened_item(vault.key(), row@, schema),
{
    let content = show_text(vault, row.content.as_str(), row.is_encrypted);
    let is_image = same_text(row.content_type.as_str(), "image");
    let category = match schema {
        Schema::Legacy => text_of(category_for(content.as_str(), is_image).as_str()),
        Schema::Current => match &row.category {
            Some(c) => text_of(c.as_str()),
            None => if is_image {
                text_of(Category::Image.as_str())
            } else {
                text_of(Category::Text.as_str())
            },
        },
    };
    ClipboardItem {
        id: row.id,
        content,
        content_type: text_of(row.content_type.as_str()),
        category,
        image_data: show_image(vault, &row.image_data, row.is_encrypted),
        created_at: text_of(row.created_at.as_str()),
        pinned: row.pinned,
    }
}

/// Every stored row as shown, in the given order (the export snapshot).
pub fn open_rows(vault: &Vault, rows: &[StoredRow], schema: Schema) -> (r: Vec<ClipboardItem>)
    ensures
        r@.len() == rows@.len(),
        forall|i: int| 0 <= i < rows@.len() ==> #[trigger] r@[i]@ == opened_item(vault.key(), rows@[i]@, schema),
{
    let mut out: Vec<ClipboardItem> = Vec::new();
    for i in 0..rows.len()
        invariant
            out@.len() == i,
            forall|k: int| 0 <= k < i ==> #[trigger] out@[k]@ == opened_item(vault.key(), rows@[k]@, schema),
    {
        out.push(open_row(vault, &rows[i], schema));
    }
    out
}

/// The view of an optional text argument.
pub open spec fn opt_str_view(o: Option<&str>) -> Option<Seq<char>> {
    match o {
        Some(s) => Some(s@),
        None => None,
    }
}

/// The trimmed comma-separated tags of a filter argument; no argument
/// stands for `all`.
pub open spec fn filter_fields(raw: Option<Seq<char>>) -> Seq<Seq<char>> {
    match raw {
        None => seq!["all"@],
        Some(s) => comma_fields(s).map_values(|f: Seq<char>| trim(f)),
    }
}

/// A filter that lets every category through: a single tag that is `all`
/// or empty.
pub open spec fn selects_all(fields: Seq<Seq<char>>) -> bool {
    fields.len() == 1 && (fields[0] == "all"@ || fields[0].len() == 0)
}

/// A set of categories that a search is restricted to.
#[derive(Clone, Copy, Debug)]
pub struct CategoryFilter {
    pub all: bool,
    pub text: bool,
    pub url: bool,
    pub email: bool,
    pub code: bool,
    pub image: bool,
}

impl CategoryFilter {
    /// The category is named by the filter.
    pub open spec fn names(&self, c: Category) -> bool {
        match c {
            Category::Text => self.text,
            Category::Url => self.url,
            Category::Email => self.email,
            Category::Code => self.code,
            Category::Image => self.image,
        }
    }

    /// Records of the category pass the filter.
    pub open spec fn lets_through(&self, c: Category) -> bool {
        self.all || self.names(c)
    }

    /// Parses a filter argument: comma-separated tags, each trimmed; `all`
    /// (or nothing) alone lets every category through; tags that name no
    /// category are ignored.
    pub fn parse(raw: Option<&str>) -> (r: CategoryFilter)
        ensures
            r.all == selects_all(filter_fields(opt_str_view(raw))),
            forall|c: Category| #[trigger] r.names(c) == filter_fields(opt_str_view(raw)).contains(c.tag()),
    {
        let s = match raw {
            None => {
                let r = CategoryFilter { all: true, text: false, url: false, email: false, code: false, image: false };
                proof {
                    let fields = filter_fields(opt_str_view(raw));
                    reveal_strlit("all");
                    assert forall|c: Category| #[trigger] r.names(c) == fields.contains(c.tag()) by {
                        crate::category::lemma_tag_head(c);
                        if fields.contains(c.tag()) {
                            assert(fields[0] == c.tag());
                        }
                    }
                }
                return r;
            },
            Some(s) => s,
        };
        let cs = chars_of(s);
        let parts = split_commas(&cs);
        let ghost fields = filter_fields(opt_str_view(raw));
        assert(fields == views_of(parts@).map_values(|f: Seq<char>| trim(f)));
        let mut r = CategoryFilter { all: false, text: false, url: false, email: false, code: false, image: false };
        let mut first_all = false;
        let mut i: usize = 0;
        while i < parts.len()
            invariant
                i <= parts@.len(),
                fields.len() == parts@.len(),
                forall|k: int| 0 <= k < parts@.len() ==> #[trigger] fields[k] == trim(parts@[k]@),
                i == 0 ==> !first_all,
                i > 0 ==> first_all == (fields[0] == "all"@ || fields[0].len() == 0),
                !r.all,
                forall|c: Category| #[trigger] r.names(c) == exists|k: int| 0 <= k < i && fields[k] == c.tag(),
            decreases parts@.len() - i,
        {
            let t = trimmed(&parts[i]);
            let ghost before = r;
            if i == 0 {
                first_all = same_chars(&t, "all") || t.len() == 0;
            }
            if same_chars(&t, "text") {
                r.text = true;
            }
            if same_chars(&t, "url") {
                r.url = true;
            }
            if same_chars(&t, "email") {
                r.email = true;
            }
            if same_chars(&t, "code") {
                r.code = true;
            }
            if same_chars(&t, "image") {
                r.image = true;
            }
            proof {
                assert(fields[i as int] == t@);
                assert forall|c: Category| #[trigger] r.names(c) == exists|k: int| 0 <= k < i + 1 && fields[k] == c.tag() by {
                    assert(r.names(c) == (before.names(c) || t@ == c.tag()));
                    if exists|k: int| 0 <= k < i + 1 && fields[k] == c.tag() {
                        let k = choose|k: int| 0 <= k < i + 1 && fields[k] == c.tag();
                        if k < i {
                            assert(before.names(c));
                        }
                    }
                }
            }
            i = i + 1;
        }
        let ghost pre = r;
        r.all = parts.len() == 1 && first_all;
        proof {
            assert forall|c: Category| #[trigger] r.names(c) == fields.contains(c.tag()) by {
                assert(r.names(c) == pre.names(c));
                if fields.contains(c.tag()) {
                    let k = choose|k: int| 0 <= k < fields.len() && fields[k] == c.tag();
                    assert(0 <= k < parts.len() && fields[k] == c.tag());
                }
                if r.names(c) {
                    let k = choose|k: int| 0 <= k < parts.len() && fields[k] == c.tag();
                    assert(fields[k] == c.tag());
                }
            }
        }
        r
    }

    /// Whether records of the category pass the filter.
    pub fn admits(&self, c: Category) -> (r: bool)
        ensures
            r == self.lets_through(c),
    {
        self.all || match c {
            Category::Text => self.text,
            Category::Url => self.url,
            Category::Email => self.email,
            Category::Code => self.code,
            Category::Image => self.image,
        }
    }
}

/// A shown text matches a search text: an empty search matches everything,
/// otherwise the lower-cased search text occurs in the lower-cased content.
pub open spec fn query_matches(content: Seq<char>, query: Seq<char>) -> bool {
    query.len() == 0 || contains(lower_of(content), lower_of(query))
}

/// The items whose content matches the search text, in their order.
pub open spec fn matching(items: Seq<ItemView>, query: Seq<char>) -> Seq<ItemView>
    decreases items.len(),
{
    if items.len() == 0 {
        Seq::empty()
    } else {
        let prev = matching(items.drop_last(), query);
        if query_matches(items.last().content, query) {
            prev.push(items.last())
        } else {
            prev
        }
    }
}

/// Rows as shown.
pub open spec fn opened_items(key: Seq<u8>, rows: Seq<RowView>, schema: Schema) -> Seq<ItemView> {
    rows.map_values(|r: RowView| opened_item(key, r, schema))
}

/// The search result over a page of a current table (which the store has
/// already restricted to the filter's categories): the rows, shown, whose
/// content matches, in the page's order.
pub open spec fn search_result(key: Seq<u8>, rows: Seq<RowView>, query: Seq<char>) -> Seq<ItemView> {
    matching(opened_items(key, rows, Schema::Current), query)
}

pub proof fn lemma_matching_splits(a: Seq<ItemView>, b: Seq<ItemView>, query: Seq<char>)
    ensures
        matching(a + b, query) == matching(a, query) + matching(b, query),
    decreases b.len(),
{
    if b.len() == 0 {
        assert(a + b == a);
        assert(matching(a, query) + Seq::empty() == matching(a, query));
    } else {
        lemma_matching_splits(a, b.drop_last(), query);
        assert((a + b).drop_last() == a + b.drop_last());
        assert((a + b).last() == b.last());
        let ma = matching(a, query);
        let mb = matching(b.drop_last(), query);
        assert((ma + mb).push(b.last()) == ma + mb.push(b.last()));
    }
}

/// Searching two runs of rows one after the other gives the two results
/// one after the other: a page may be searched in pieces (in parallel) and
/// the pieces joined in order.
pub proof fn lemma_search_splits(key: Seq<u8>, a: Seq<RowView>, b: Seq<RowView>, query: Seq<char>)
    ensures
        search_result(key, a + b, query) == search_result(key, a, query) + search_result(key, b, query),
{
    let oa = opened_items(key, a, Schema::Current);
    let ob = opened_items(key, b, Schema::Current);
    assert(opened_items(key, a + b, Schema::Current) =~= oa + ob);
    lemma_matching_splits(oa, ob, query);
}

/// Whether `content` matches a search text, given both lower-cased.
pub fn matches_lowered(lowered_content: &str, lowered_query: &Vec<char>) -> (r: bool)
    ensures
        r == contains(lowered_content@, lowered_query@),
{
    let cs = chars_of(lowered_content);
    contains_seq(&cs, lowered_query)
}

/// The items whose content matches the search text, in their order.
pub fn keep_matching(items: Vec<ClipboardItem>, query: &str) -> (r: Vec<ClipboardItem>)
    ensures
        item_views(r@) == matching(item_views(items@), query@),
{
    let lowered = to_lower(query);
    let lq = chars_of(lowered.as_str());
    let empty = query.is_empty();
    let ghost all = item_views(items@);
    let mut out: Vec<ClipboardItem> = Vec::new();
    assert(all.subrange(0, 0) =~= Seq::<ItemView>::empty());
    for item in it: items.into_iter()
        invariant
            it.seq() == items@,
            all == item_views(items@),
            lq@ == lower_of(query@),
            empty == (query@.len() == 0),
            item_views(out@) == matching(all.subrange(0, it.index() as int), query@),
    {
        let ghost i = it.index();
        proof {
            let next = all.subrange(0, i + 1);
            assert(next.drop_last() == all.subrange(0, i as int));
            assert(next.last() == item@);
        }
        let hit = empty || matches_lowered(to_lower(item.content.as_str()).as_str(), &lq);
        if hit {
            out.push(item);
            assert(item_views(out@) =~= matching(all.subrange(0, i + 1), query@));
        }
    }
    assert(all.subrange(0, all.len() as int) == all);
    out
}

/// The rows of a page of a current table that match the search text, as
/// shown, in the page's order.
pub fn search_rows(vault: &Vault, rows: &[StoredRow], query: &str) -> (r: Vec<ClipboardItem>)
    ensures
        item_views(r@) == search_result(vault.key(), row_views(rows@), query@),
{
    let items = open_rows(vault, rows, Schema::Current);
    assert(item_views(items@) =~= opened_items(vault.key(), row_views(rows@), Schema::Current));
    keep_matching(items, query)
}

/// The rows of a legacy table, shown, whose category (computed from the
/// content) the filter lets through, in their order.
pub open spec fn category_kept(key: Seq<u8>, rows: Seq<RowView>, filter: CategoryFilter) -> Seq<ItemView>
    decreases rows.len(),
{
    if rows.len() == 0 {
        Seq::empty()
    } else {
        let prev = category_kept(key, rows.drop_last(), filter);
        let r = rows.last();
        if filter.lets_through(record_category(shown_text(key, r.content, r.is_encrypted), row_is_image(r))) {
            prev.push(opened_item(key, r, Schema::Legacy))
        } else {
            prev
        }
    }
}

/// The part of `s` that a query with this limit and offset returns: a
/// negative offset counts as 0, a negative limit as no limit.
pub open spec fn page_of<A>(s: Seq<A>, limit: i32, offset: i32) -> Seq<A> {
    let start = if offset <= 0 {
        0
    } else if offset >= s.len() {
        s.len() as int
    } else {
        offset as int
    };
    let rest = s.subrange(start, s.len() as int);
    if limit < 0 || limit >= rest.len() {
        rest
    } else {
        rest.subrange(0, limit as int)
    }
}

/// The part of `items` that a query with this limit and offset returns.
pub fn page<T>(items: Vec<T>, limit: i32, offset: i32) -> (r: Vec<T>)
    ensures
        r@ == page_of(items@, limit, offset),
{
    let mut items = items;
    let len = items.len();
    let start: usize = if offset <= 0 {
        0
    } else if offset as usize >= len {
        len
    } else {
        offset as usize
    };
    let mut rest = items.split_off(start);
    if limit >= 0 && (limit as usize) < rest.len() {
        rest.truncate(limit as usize);
    }
    rest
}

/// The rows of a legacy table whose computed category the filter lets
/// through, as shown, in their order.
pub fn filter_by_category(vault: &Vault, rows: &[StoredRow], filter: &CategoryFilter) -> (r: Vec<ClipboardItem>)
    ensures
        item_views(r@) == category_kept(vault.key(), row_views(rows@), *filter),
{
    let ghost views = row_views(rows@);
    let ghost key = vault.key();
    let mut out: Vec<ClipboardItem> = Vec::new();
    assert(views.subrange(0, 0) =~= Seq::<RowView>::empty());
    for i in 0..rows.len()
        invariant
            views == row_views(rows@),
            key == vault.key(),
            item_views(out@) == category_kept(key, views.subrange(0, i as int), *filter),
    {
        let row = &rows[i];
        let item = open_row(vault, row, Schema::Legacy);
        let ghost rc = record_category(shown_text(key, row@.content, row@.is_encrypted), row_is_image(row@));
        let keep = match Category::from_tag(item.category.as_str()) {
            Some(c) => {
                proof {
                    lemma_tag_injective(c, rc);
                }
                filter.admits(c)
            },
            None => false,
        };
        proof {
            let next = views.subrange(0, i + 1);
            assert(next.drop_last() == views.subrange(0, i as int));
            assert(next.last() == row@);
        }
        if keep {
            out.push(item);
            assert(item_views(out@) =~= category_kept(key, views.subrange(0, i + 1), *filter));
        }
    }
    assert(views.subrange(0, rows@.len() as int) == views);
    out
}

/// A search over a whole legacy table, given in listing order: the rows
/// whose computed category the filter lets through, then the page that the
/// limit and offset select, then the items of the page that match the
/// search text.
pub fn search_legacy(vault: &Vault, rows: &[StoredRow], query: &str, filter: &CategoryFilter, limit: i32, offset: i32) -> (r: Vec<ClipboardItem>)
    ensures
        item_views(r@) == matching(page_of(category_kept(vault.key(), row_views(rows@), *filter), limit, offset), query@),
{
    let kept = filter_by_category(vault, rows, filter);
    let ghost kv = item_views(kept@);
    let pg = page(kept, limit, offset);
    proof {
        let s = kept@;
        let start = if offset <= 0 { 0 } else if offset >= s.len() { s.len() as int } else { offset as int };
        assert(item_views(s.subrange(start, s.len() as int)) =~= kv.subrange(start, kv.len() as int));
        let rest = s.subrange(start, s.len() as int);
        if !(limit < 0 || limit >= rest.len()) {
            assert(item_views(rest.subrange(0, limit as int)) =~= item_views(rest).subrange(0, limit as int));
        }
        assert(item_views(pg@) == page_of(kv, limit, offset));
    }
    keep_matching(pg, query)
}

/// The categories in the order in which a filter lists them.
pub open spec fn all_categories() -> Seq<Category> {
    seq![Category::Text, Category::Url, Category::Email, Category::Code, Category::Image]
}

/// A category's tag as an SQL string literal.
pub open spec fn quoted(c: Category) -> Seq<char> {
    "'"@ + c.tag() + "'"@
}

/// The comma-separated SQL literals of the categories among `cs` that the
/// filter names.
pub open spec fn listed(filter: CategoryFilter, cs: Seq<Category>) -> Seq<char>
    decreases cs.len(),
{
    if cs.len() == 0 {
        Seq::empty()
    } else {
        let prev = listed(filter, cs.drop_last());
        if filter.names(cs.last()) {
            if prev.len() == 0 {
                quoted(cs.last())
            } else {
                prev + ","@ + quoted(cs.last())
            }
        } else {
            prev
        }
    }
}

/// The SQL condition that restricts the history to a filter's categories.
/// Rows without a category count as `text` when `text` is named; a filter
/// that names nothing lets nothing through.
pub open spec fn category_condition(filter: CategoryFilter) -> Seq<char> {
    if filter.all {
        Seq::empty()
    } else {
        let l = listed(filter, all_categories());
        let items = if l.len() == 0 { "NULL"@ } else { l };
        if filter.text {
            " AND COALESCE(category, 'text') IN ("@ + items + ")"@
        } else {
            " AND category IN ("@ + items + ")"@
        }
    }
}

/// The query for one search page on a current table, restricted to the
/// filter's categories; `?1` is the limit and `?2` the offset.
pub open spec fn search_query(filter: CategoryFilter) -> Seq<char> {
    "SELECT id, content, content_type, category, image_data, created_at, pinned, is_encrypted FROM clipboard_history WHERE 1=1"@
        + category_condition(filter) + " ORDER BY pinned DESC, id DESC LIMIT ?1 OFFSET ?2"@
}

/// The SQL condition of [`category_condition`].
pub fn category_sql(filter: &CategoryFilter) -> (r: String)
    ensures
        r@ == category_condition(*filter),
{
    let mut s = String::new();
    if filter.all {
        return s;
    }
    let cats = vec![Category::Text, Category::Url, Category::Email, Category::Code, Category::Image];
    let mut l = String::new();
    let mut any = false;
    proof {
        reveal_strlit("'");
        assert(cats@.subrange(0, 0) =~= Seq::<Category>::empty());
    }
    for i in 0..cats.len()
        invariant
            cats@ == all_categories(),
            l@ == listed(*filter, cats@.subrange(0, i as int)),
            any == (l@.len() > 0),
    {
        let c = cats[i];
        proof {
            let next = cats@.subrange(0, i + 1);
            assert(next.drop_last() == cats@.subrange(0, i as int));
            assert(next.last() == c);
            reveal_strlit("'");
        }
        let named = match c {
            Category::Text => filter.text,
            Category::Url => filter.url,
            Category::Email => filter.email,
            Category::Code => filter.code,
            Category::Image => filter.image,
        };
        if named {
            if any {
                push_text(&mut l, ",");
            }
            push_text(&mut l, "'");
            push_text(&mut l, c.as_str());
            push_text(&mut l, "'");
            any = true;
        }
    }
    assert(cats@.subrange(0, 5) == cats@);
    if filter.text {
        push_text(&mut s, " AND COALESCE(category, 'text') IN (");
    } else {
        push_text(&mut s, " AND category IN (");
    }
    if any {
        push_text(&mut s, l.as_str());
    } else {
        push_text(&mut s, "NULL");
    }
    push_text(&mut s, ")");
    s
}

/// The query of [`search_query`].
pub fn search_sql(filter: &CategoryFilter) -> (r: String)
    ensures
        r@ == search_query(*filter),
{
    let mut s = text_of("SELECT id, content, content_type, category, image_data, created_at, pinned, is_encrypted FROM clipboard_history WHERE 1=1");
    let cond = category_sql(filter);
    push_text(&mut s, cond.as_str());
    push_text(&mut s, " ORDER BY pinned DESC, id DESC LIMIT ?1 OFFSET ?2");
    s
}

/// The order in which rows are read.
#[derive(Clone, Copy, Debug, PartialEq, Eq, Structural)]
pub enum RowOrder {
    /// Pinned first, newest first, one page (`?1` is the limit, `?2` the offset).
    ListingPage,
    /// Pinned first, newest first, every row.
    Listing,
    /// Oldest first, every row.
    Insertion,
}

/// The column list of a row query; a legacy table has no `category`.
pub open spec fn select_head(schema: Schema) -> Seq<char> {
    match schema {
        Schema::Current => "SELECT id, content, content_type, category, image_data, created_at, pinned, is_encrypted FROM clipboard_history"@,
        Schema::Legacy => "SELECT id, content, content_type, NULL, image_data, created_at, pinned, is_encrypted FROM clipboard_history"@,
    }
}

pub open spec fn order_clause(order: RowOrder) -> Seq<char> {
    match order {
        RowOrder::ListingPage => " ORDER BY pinned DESC, id DESC LIMIT ?1 OFFSET ?2"@,
        RowOrder::Listing => " ORDER BY pinned DESC, id DESC"@,
        RowOrder::Insertion => " ORDER BY id ASC"@,
    }
}

/// The query that reads stored rows of a table of the given schema, in the
/// given order.
pub fn rows_sql(schema: Schema, order: RowOrder) -> (r: String)
    ensures
        r@ == select_head(schema) + order_clause(order),
{
    let mut s = match schema {
        Schema::Current => text_of("SELECT id, content, content_type, category, image_data, created_at, pinned, is_encrypted FROM clipboard_history"),
        Schema::Legacy => text_of("SELECT id, content, content_type, NULL, image_data, created_at, pinned, is_encrypted FROM clipboard_history"),
    };
    match order {
        RowOrder::ListingPage => push_text(&mut s, " ORDER BY pinned DESC, id DESC LIMIT ?1 OFFSET ?2"),
        RowOrder::Listing => push_text(&mut s, " ORDER BY pinned DESC, id DESC"),
        RowOrder::Insertion => push_text(&mut s, " ORDER BY id ASC"),
    }
    s
}

/// The limit and offset of a history page: no limit is
/// `DEFAULT_HISTORY_LIMIT`, a non-positive one is `UNBOUNDED_LIMIT`, no
/// offset is 0.
pub fn history_page(limit: Option<i32>, offset: Option<i32>) -> (r: (i32, i32))
    ensures
        r.0 == match limit {
            None => DEFAULT_HISTORY_LIMIT,
            Some(l) => if l <= 0 { UNBOUNDED_LIMIT } else { l },
        },
        r.1 == match offset {
            None => 0,
            Some(o) => o,
        },
{
    let l = match limit {
        None => DEFAULT_HISTORY_LIMIT,
        Some(l) => if l <= 0 { UNBOUNDED_LIMIT } else { l },
    };
    let o = match offset {
        None => 0,
        Some(o) => o,
    };
    (l, o)
}

/// The limit and offset of a search page: no limit is
/// `DEFAULT_SEARCH_LIMIT`, no offset is 0.
pub fn search_page(limit: Option<i32>, offset: Option<i32>) -> (r: (i32, i32))
    ensures
        r.0 == match limit {
            None => DEFAULT_SEARCH_LIMIT,
            Some(l) => l,
        },
        r.1 == match offset {
            None => 0,
            Some(o) => o,
        },
{
    let l = match limit {
        None => DEFAULT_SEARCH_LIMIT,
        Some(l) => l,
    };
    let o = match offset {
        None => 0,
        Some(o) => o,
    };
    (l, o)
}

} // verus!
