//! The records that the history stores and hands to the UI layer.

use vstd::prelude::*;
use crate::category::Category;

verus! {

/// The view of an optional text.
pub open spec fn opt_view(o: Option<String>) -> Option<Seq<char>> {
    match o {
        Some(s) => Some(s@),
        None => None,
    }
}

/// A text holding the characters of `s`.
pub fn text_of(s: &str) -> (r: String)
    ensures
        r@ == s@,
{
    s.to_owned()
}

/// Copy of an optional text.
pub fn copy_opt(o: &Option<String>) -> (r: Option<String>)
    ensures
        opt_view(r) == opt_view(*o),
{
    match o {
        Some(s) => Some(text_of(s.as_str())),
        None => None,
    }
}

/// `content_type` of an image record.
pub open spec fn image_type() -> Seq<char> {
    "image"@
}

/// `content_type` of a text record.
pub open spec fn text_type() -> Seq<char> {
    "text"@
}

/// A record as the UI layer sees it: decrypted, with its category.
#[derive(Clone, Debug)]
pub struct ClipboardItem {
    pub id: i64,
    pub content: String,
    pub content_type: String,
    pub category: String,
    pub image_data: Option<String>,
    pub created_at: String,
    pub pinned: bool,
}

/// The mathematical value of a [`ClipboardItem`].
pub struct ItemView {
    pub id: i64,
    pub content: Seq<char>,
    pub content_type: Seq<char>,
    pub category: Seq<char>,
    pub image_data: Option<Seq<char>>,
    pub created_at: Seq<char>,
    pub pinned: bool,
}

impl View for ClipboardItem {
    type V = ItemView;

    open spec fn view(&self) -> ItemView {
        ItemView {
            id: self.id,
            content: self.content@,
            content_type: self.content_type@,
            category: self.category@,
            image_data: opt_view(self.image_data),
            created_at: self.created_at@,
            pinned: self.pinned,
        }
    }
}

/// A row of the history table as it is stored: content and image payload
/// are ciphertext tokens where `is_encrypted`, plaintext otherwise.
/// `category` is `None` on rows written before the column existed.
#[derive(Clone, Debug)]
pub struct StoredRow {
    pub id: i64,
    pub content: String,
    pub content_type: String,
    pub category: Option<String>,
    pub image_data: Option<String>,
    pub created_at: String,
    pub pinned: bool,
    pub is_encrypted: bool,
}

/// The mathematical value of a [`StoredRow`].
pub struct RowView {
    pub id: i64,
    pub content: Seq<char>,
    pub content_type: Seq<char>,
    pub category: Option<Seq<char>>,
    pub image_data: Option<Seq<char>>,
    pub created_at: Seq<char>,
    pub pinned: bool,
    pub is_encrypted: bool,
}

impl View for StoredRow {
    type V = RowView;

    open spec fn view(&self) -> RowView {
        RowView {
            id: self.id,
            content: self.content@,
            content_type: self.content_type@,
            category: opt_view(self.category),
            image_data: opt_view(self.image_data),
            created_at: self.created_at@,
            pinned: self.pinned,
            is_encrypted: self.is_encrypted,
        }
    }
}

/// A record about to be written. The store assigns its `id`; a missing
/// `created_at` is the time of writing.
pub struct NewRecord {
    pub content: String,
    pub is_image: bool,
    pub category: Category,
    pub image_data: Option<String>,
    pub created_at: Option<String>,
    pub pinned: bool,
    pub is_encrypted: bool,
}

impl NewRecord {
    /// The `content_type` column's value.
    pub fn content_type(&self) -> (r: &'static str)
        ensures
            r@ == if self.is_image { image_type() } else { text_type() },
    {
        if self.is_image {
            "image"
        } else {
            "text"
        }
    }
}

/// The payload of the notification sent to the UI layer after a change of
/// the history.
#[derive(Clone, Debug)]
pub struct ClipboardUpdateEvent {
    pub action: String,
    pub message: String,
}

impl ClipboardUpdateEvent {
    /// A `refresh` notification with the given message.
    pub fn refresh(message: &str) -> (r: ClipboardUpdateEvent)
        ensures
            r.action@ == "refresh"@,
            r.message@ == message@,
    {
        ClipboardUpdateEvent { action: text_of("refresh"), message: text_of(message) }
    }

    pub fn text_added() -> (r: ClipboardUpdateEvent)
        ensures
            r.action@ == "refresh"@,
            r.message@ == "New text clipboard item added"@,
    {
        ClipboardUpdateEvent::refresh("New text clipboard item added")
    }

    pub fn image_added() -> (r: ClipboardUpdateEvent)
        ensures
            r.action@ == "refresh"@,
            r.message@ == "New image clipboard item added"@,
    {
        ClipboardUpdateEvent::refresh("New image clipboard item added")
    }

    pub fn item_deleted() -> (r: ClipboardUpdateEvent)
        ensures
            r.action@ == "refresh"@,
            r.message@ == "Item deleted, refresh the list"@,
    {
        ClipboardUpdateEvent::refresh("Item deleted, refresh the list")
    }

    pub fn history_cleared() -> (r: ClipboardUpdateEvent)
        ensures
            r.action@ == "refresh"@,
            r.message@ == "All history cleared, refresh the list"@,
    {
        ClipboardUpdateEvent::refresh("All history cleared, refresh the list")
    }
}

} // verus!
