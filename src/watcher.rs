//! The clipboard watcher's decisions. Each poll cycle hands the watcher
//! what the clipboard holds on its text and image channels; it says which
//! of them are new captures, and the capture pipeline turns each one into a
//! record to write (classified or normalised, then encrypted).

use vstd::prelude::*;
use vstd::utf8::encode_utf8;
use crate::category::{classify, text_category, category_for, record_category, Category};
use crate::image::{alpha_repaired, image_caption, normalize_image, png_of, well_sized, ImageError};
use crate::models::{copy_opt, opt_view, text_of, ClipboardItem, NewRecord};
use crate::text::{blank, is_blank, same_text};
use crate::vault::{base64_of, opened_text, Vault};

verus! {

/// A text read from the clipboard is a new capture: it differs from the
/// last one seen and is not empty or white space only.
pub open spec fn text_is_new(last: Seq<char>, current: Seq<char>) -> bool {
    current != last && !is_blank(current)
}

/// The last text seen after reading `current`: blank or repeated reads
/// leave it as it was.
pub open spec fn after_text(last: Seq<char>, current: Seq<char>) -> Seq<char> {
    if text_is_new(last, current) {
        current
    } else {
        last
    }
}

/// An image read from the clipboard.
pub struct ImageSnapshot {
    pub width: usize,
    pub height: usize,
    /// RGBA8 pixels, row by row.
    pub bytes: Vec<u8>,
}

impl View for ImageSnapshot {
    type V = (usize, usize, Seq<u8>);

    open spec fn view(&self) -> (usize, usize, Seq<u8>) {
        (self.width, self.height, self.bytes@)
    }
}

pub open spec fn snapshot_view(o: Option<ImageSnapshot>) -> Option<(usize, usize, Seq<u8>)> {
    match o {
        Some(i) => Some(i@),
        None => None,
    }
}

/// An image read from the clipboard is a new capture: there was none
/// before, or its width, height or pixels differ.
pub open spec fn image_is_new(last: Option<(usize, usize, Seq<u8>)>, current: (usize, usize, Seq<u8>)) -> bool {
    match last {
        None => true,
        Some(l) => l != current,
    }
}

fn same_bytes(a: &Vec<u8>, b: &Vec<u8>) -> (r: bool)
    ensures
        r == (a@ == b@),
{
    if a.len() != b.len() {
        return false;
    }
    let mut i: usize = 0;
    while i < a.len()
        invariant
            i <= a@.len(),
            a@.len() == b@.len(),
            forall|k: int| 0 <= k < i ==> a@[k] == b@[k],
        decreases a@.len() - i,
    {
        if a[i] != b[i] {
            return false;
        }
        i = i + 1;
    }
    assert(a@ =~= b@);
    true
}

fn copy_bytes(a: &Vec<u8>) -> (r: Vec<u8>)
    ensures
        r@ == a@,
{
    let mut out: Vec<u8> = Vec::new();
    for i in 0..a.len()
        invariant
            out@ == a@.subrange(0, i as int),
    {
        out.push(a[i]);
        assert(a@.subrange(0, i as int).push(a@[i as int]) == a@.subrange(0, i + 1));
    }
    assert(a@.subrange(0, a@.len() as int) == a@);
    out
}

/// What the watcher last saw on each channel.
pub struct Watcher {
    last_text: String,
    last_image: Option<ImageSnapshot>,
}

impl Watcher {
    pub closed spec fn last_text(&self) -> Seq<char> {
        self.last_text@
    }

    pub closed spec fn last_image(&self) -> Option<(usize, usize, Seq<u8>)> {
        snapshot_view(self.last_image)
    }

    /// A watcher that takes what the clipboard holds at start as already
    /// seen (no text reads as the empty text).
    pub fn new(text: Option<String>, image: Option<ImageSnapshot>) -> (r: Watcher)
        ensures
            r.last_text() == match text {
                Some(t) => t@,
                None => Seq::<char>::empty(),
            },
            r.last_image() == snapshot_view(image),
    {
        let last_text = match text {
            Some(t) => t,
            None => String::new(),
        };
        Watcher { last_text, last_image: image }
    }

    /// Reads a text from the clipboard: returns it where it is a new
    /// capture, and then remembers it.
    pub fn observe_text(&mut self, current: String) -> (r: Option<String>)
        ensures
            r is Some <==> text_is_new(old(self).last_text(), current@),
            r matches Some(t) ==> t@ == current@,
            final(self).last_text() == after_text(old(self).last_text(), current@),
            final(self).last_image() == old(self).last_image(),
    {
        if same_text(current.as_str(), self.last_text.as_str()) || blank(current.as_str()) {
            return None;
        }
        let seen = text_of(current.as_str());
        self.last_text = seen;
        Some(current)
    }

    /// Reads an image from the clipboard: returns it where it is a new
    /// capture, and then remembers it.
    pub fn observe_image(&mut self, current: ImageSnapshot) -> (r: Option<ImageSnapshot>)
        ensures
            r is Some <==> image_is_new(old(self).last_image(), current@),
            r matches Some(i) ==> i@ == current@,
            final(self).last_image() == if image_is_new(old(self).last_image(), current@) {
                Some(current@)
            } else {
                old(self).last_image()
            },
            final(self).last_text() == old(self).last_text(),
    {
        let unchanged = match &self.last_image {
            None => false,
            Some(l) => l.width == current.width && l.height == current.height && same_bytes(&l.bytes, &current.bytes),
        };
        if unchanged {
            return None;
        }
        let seen = ImageSnapshot { width: current.width, height: current.height, bytes: copy_bytes(&current.bytes) };
        self.last_image = Some(seen);
        Some(current)
    }
}

/// Reading the same text twice makes exactly one capture where it differs
/// from the last text seen and is not blank, and none otherwise: the second
/// read is never new.
pub proof fn lemma_repeat_text_captured_once(last: Seq<char>, t: Seq<char>)
    ensures
        text_is_new(last, t) == (t != last && !is_blank(t)),
        !text_is_new(after_text(last, t), t),
{
}

/// An empty or white-space-only text is never captured, and does not
/// change the last text seen.
pub proof fn lemma_blank_text_ignored(last: Seq<char>, t: Seq<char>)
    requires
        is_blank(t),
    ensures
        !text_is_new(last, t),
        after_text(last, t) == last,
{
}

/// Two reads of different non-blank texts, the first differing from the
/// last text seen, make two captures.
pub proof fn lemma_distinct_texts_captured(last: Seq<char>, t1: Seq<char>, t2: Seq<char>)
    requires
        t1 != last,
        t2 != t1,
        !is_blank(t1),
        !is_blank(t2),
    ensures
        text_is_new(last, t1),
        text_is_new(after_text(last, t1), t2),
{
}

/// The stored form of a record's text and image payload: both encrypted,
/// or, where either cannot be, both kept as plaintext (the capture is not
/// lost, and the row's flag says which it is).
pub open spec fn sealed_fields(key: Seq<u8>, content: Seq<char>, image: Option<Seq<char>>, r: NewRecord) -> bool {
    if r.is_encrypted {
        &&& opened_text(key, r.content@) == Some(content)
        &&& match image {
            None => r.image_data is None,
            Some(p) => r.image_data matches Some(t) && opened_text(key, t@) == Some(p),
        }
    } else {
        r.content@ == content && opt_view(r.image_data) == image
    }
}

fn seal_fields(vault: &Vault, content: &str, image: &Option<String>) -> (r: (String, Option<String>, bool))
    ensures
        sealed_fields(vault.key(), content@, opt_view(*image), NewRecord {
            content: r.0,
            is_image: false,
            category: Category::Text,
            image_data: r.1,
            created_at: None,
            pinned: false,
            is_encrypted: r.2,
        }),
{
    let sealed_content = match vault.encrypt(content) {
        Ok(t) => t,
        Err(_) => return (text_of(content), copy_opt(image), false),
    };
    match image {
        None => (sealed_content, None, true),
        Some(p) => match vault.encrypt(p.as_str()) {
            Ok(t) => (sealed_content, Some(t), true),
            Err(_) => (text_of(content), copy_opt(image), false),
        },
    }
}

/// The record that a captured text becomes: classified, then encrypted.
pub fn text_record(vault: &Vault, text: &str) -> (r: NewRecord)
    ensures
        !r.is_image,
        r.category == text_category(text@),
        r.created_at is None,
        !r.pinned,
        sealed_fields(vault.key(), text@, None, r),
{
    let category = classify(text);
    let (content, image_data, is_encrypted) = seal_fields(vault, text, &None);
    NewRecord { content, is_image: false, category, image_data, created_at: None, pinned: false, is_encrypted }
}

/// The base64 PNG payload stored for a captured image.
pub open spec fn image_payload(width: usize, height: usize, bytes: Seq<u8>) -> Seq<char> {
    base64_of(png_of(width as u32, height as u32, alpha_repaired(bytes)))
}

/// The record that a captured image becomes: alpha-repaired, encoded,
/// captioned `Image (WxH)`, then encrypted. A buffer that is not
/// width × height RGBA8 pixels is `Malformed`, an image with a zero side
/// cannot be encoded, and the capture is then dropped; any other image
/// becomes a record.
pub fn image_record(vault: &Vault, image: ImageSnapshot) -> (r: Result<NewRecord, ImageError>)
    ensures
        !well_sized(image.width as nat, image.height as nat, image.bytes@.len()) ==> r
            == Err::<NewRecord, ImageError>(ImageError::Malformed),
        well_sized(image.width as nat, image.height as nat, image.bytes@.len()) && (image.width == 0
            || image.height == 0) ==> r == Err::<NewRecord, ImageError>(ImageError::Encoding),
        well_sized(image.width as nat, image.height as nat, image.bytes@.len()) && image.width > 0
            && image.height > 0 ==> r is Ok,
        r is Ok ==> well_sized(image.width as nat, image.height as nat, image.bytes@.len()),
        r matches Ok(rec) ==> rec.is_image && rec.category == Category::Image && rec.created_at is None && !rec.pinned,
        r matches Ok(rec) ==> sealed_fields(
            vault.key(),
            image_caption(image.width as nat, image.height as nat),
            Some(image_payload(image.width, image.height, image.bytes@)),
            rec,
        ),
{
    let img = normalize_image(image.width, image.height, image.bytes)?;
    let payload = Some(img.payload);
    let (content, image_data, is_encrypted) = seal_fields(vault, img.caption.as_str(), &payload);
    Ok(NewRecord { content, is_image: true, category: Category::Image, image_data, created_at: None, pinned: false, is_encrypted })
}

/// The record that an item of an exported snapshot becomes on import. Its
/// text and image are encrypted like a capture's; a category that is not
/// one of the tags is computed afresh; id aside, every other field is kept.
pub fn import_record(vault: &Vault, item: &ClipboardItem) -> (r: NewRecord)
    ensures
        r.is_image == (item.content_type@ == "image"@),
        r.category == match Category::tag_category(item.category@) {
            Some(c) => c,
            None => record_category(item.content@, item.content_type@ == "image"@),
        },
        r.created_at matches Some(t) && t@ == item.created_at@,
        r.pinned == item.pinned,
        sealed_fields(vault.key(), item.content@, opt_view(item.image_data), r),
{
    let is_image = same_text(item.content_type.as_str(), "image");
    let category = match Category::from_tag(item.category.as_str()) {
        Some(c) => c,
        None => category_for(item.content.as_str(), is_image),
    };
    let (content, image_data, is_encrypted) = seal_fields(vault, item.content.as_str(), &item.image_data);
    NewRecord {
        content,
        is_image,
        category,
        image_data,
        created_at: Some(text_of(item.created_at.as_str())),
        pinned: item.pinned,
        is_encrypted,
    }
}

} // verus!
