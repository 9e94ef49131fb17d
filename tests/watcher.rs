use clipcrab::category::Category;
use clipcrab::image::ImageError;
use clipcrab::models::ClipboardItem;
use clipcrab::vault::Vault;
use clipcrab::watcher::{image_record, import_record, text_record, ImageSnapshot, Watcher};

fn vault() -> Vault {
    Vault::from_key(vec![9u8; 32]).unwrap()
}

fn feed(w: &mut Watcher, texts: &[&str]) -> Vec<String> {
    let mut stored = Vec::new();
    for t in texts {
        if let Some(s) = w.observe_text(t.to_string()) {
            stored.push(s);
        }
    }
    stored
}

#[test]
fn same_text_twice_is_stored_once() {
    let mut w = Watcher::new(None, None);
    assert_eq!(feed(&mut w, &["abc", "abc"]), vec!["abc".to_string()]);
}

#[test]
fn empty_text_is_never_stored() {
    let mut w = Watcher::new(None, None);
    assert!(feed(&mut w, &["", "   ", "\n\t"]).is_empty());
}

#[test]
fn texts_differing_by_one_character_are_both_stored() {
    let mut w = Watcher::new(None, None);
    assert_eq!(feed(&mut w, &["abc", "abd"]).len(), 2);
}

#[test]
fn blank_text_keeps_the_last_snapshot() {
    let mut w = Watcher::new(None, None);
    assert_eq!(feed(&mut w, &["abc", "", "abc", " ", "x"]), vec!["abc".to_string(), "x".to_string()]);
}

#[test]
fn clipboard_at_start_is_already_seen() {
    let mut w = Watcher::new(Some("old".to_string()), None);
    assert_eq!(feed(&mut w, &["old", "new"]), vec!["new".to_string()]);
}

fn snap(w: usize, h: usize, b: Vec<u8>) -> ImageSnapshot {
    ImageSnapshot { width: w, height: h, bytes: b }
}

#[test]
fn image_change_detection() {
    let mut w = Watcher::new(None, None);
    assert!(w.observe_image(snap(1, 1, vec![1, 2, 3, 4])).is_some());
    assert!(w.observe_image(snap(1, 1, vec![1, 2, 3, 4])).is_none());
    assert!(w.observe_image(snap(1, 1, vec![1, 2, 3, 5])).is_some());
    assert!(w.observe_image(snap(2, 1, vec![1, 2, 3, 5])).is_some());
    assert!(w.observe_image(snap(1, 2, vec![1, 2, 3, 5])).is_some());
}

#[test]
fn image_at_start_is_already_seen() {
    let mut w = Watcher::new(None, Some(snap(1, 1, vec![0, 0, 0, 0])));
    assert!(w.observe_image(snap(1, 1, vec![0, 0, 0, 0])).is_none());
}

#[test]
fn text_record_is_classified_and_encrypted() {
    let v = vault();
    let r = text_record(&v, "https://example.com");
    assert_eq!(r.category, Category::Url);
    assert!(!r.is_image);
    assert_eq!(r.content_type(), "text");
    assert!(r.is_encrypted);
    assert_ne!(r.content, "https://example.com");
    assert_eq!(v.decrypt(&r.content).unwrap(), "https://example.com");
    assert!(r.image_data.is_none());
    assert!(!r.pinned);
}

#[test]
fn image_record_is_captioned_and_encrypted() {
    let v = vault();
    let r = image_record(&v, snap(2, 1, vec![1, 2, 3, 0, 4, 5, 6, 0])).unwrap();
    assert!(r.is_image);
    assert_eq!(r.content_type(), "image");
    assert_eq!(r.category, Category::Image);
    assert!(r.is_encrypted);
    assert_eq!(v.decrypt(&r.content).unwrap(), "Image (2x1)");
    let payload = v.decrypt(r.image_data.as_ref().unwrap()).unwrap();
    assert!(payload.starts_with("iVBORw0KGgo"));
}

#[test]
fn malformed_image_is_dropped() {
    assert!(matches!(image_record(&vault(), snap(2, 2, vec![0; 3])), Err(ImageError::Malformed)));
    assert!(matches!(image_record(&vault(), snap(0, 2, vec![])), Err(ImageError::Encoding)));
}

fn item(content: &str, content_type: &str, category: &str) -> ClipboardItem {
    ClipboardItem {
        id: 41,
        content: content.to_string(),
        content_type: content_type.to_string(),
        category: category.to_string(),
        image_data: None,
        created_at: "2024-01-02 03:04:05".to_string(),
        pinned: true,
    }
}

#[test]
fn import_keeps_fields_and_encrypts() {
    let v = vault();
    let r = import_record(&v, &item("hello", "text", "code"));
    assert_eq!(r.category, Category::Code);
    assert_eq!(r.created_at.as_deref(), Some("2024-01-02 03:04:05"));
    assert!(r.pinned);
    assert!(r.is_encrypted);
    assert_eq!(v.decrypt(&r.content).unwrap(), "hello");
}

#[test]
fn import_computes_missing_or_unknown_category() {
    let v = vault();
    assert_eq!(import_record(&v, &item("a@b.com", "text", "")).category, Category::Email);
    assert_eq!(import_record(&v, &item("a@b.com", "text", "bogus")).category, Category::Email);
    assert_eq!(import_record(&v, &item("Image (1x1)", "image", "")).category, Category::Image);
}

#[test]
fn import_encrypts_image_payload() {
    let v = vault();
    let mut it = item("Image (1x1)", "image", "image");
    it.image_data = Some("iVBORw0KGgo=".to_string());
    let r = import_record(&v, &it);
    assert!(r.is_image);
    assert_eq!(v.decrypt(r.image_data.as_ref().unwrap()).unwrap(), "iVBORw0KGgo=");
}
