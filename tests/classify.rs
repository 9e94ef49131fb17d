use clipcrab::category::{category_for, classify, classify_lowered, detect_category, Category};

#[test]
fn classify_url() {
    assert_eq!(classify("https://example.com"), Category::Url);
    assert_eq!(classify("http://example.com/a b"), Category::Url);
    assert_eq!(classify("www.example.com"), Category::Url);
}

#[test]
fn classify_url_ignores_case() {
    assert_eq!(classify("HTTPS://EXAMPLE.COM"), Category::Url);
    assert_eq!(classify("WWW.Example.org"), Category::Url);
}

#[test]
fn classify_email() {
    assert_eq!(classify("a@b.com"), Category::Email);
}

#[test]
fn classify_email_needs_one_at_and_a_dot_after_it() {
    assert_eq!(classify("a@b@c.com"), Category::Text);
    assert_eq!(classify("first.last@localhost"), Category::Text);
    assert_eq!(classify("a b@c.com"), Category::Text);
    assert_eq!(classify("a\t@c.com"), Category::Text);
}

#[test]
fn classify_code() {
    assert_eq!(classify("fn main() { let x = 1; }"), Category::Code);
    assert_eq!(classify("x => x + 1"), Category::Code);
    assert_eq!(classify("#include <stdio.h>"), Category::Code);
    assert_eq!(classify("<script>alert(1)</script>"), Category::Code);
    assert_eq!(classify("{ }"), Category::Code);
}

#[test]
fn classify_one_brace_is_not_code() {
    assert_eq!(classify("a { b"), Category::Text);
}

#[test]
fn classify_text() {
    assert_eq!(classify("hello world"), Category::Text);
    assert_eq!(classify(""), Category::Text);
}

#[test]
fn classify_first_match_wins() {
    assert_eq!(classify("http://a@b.com"), Category::Url);
    assert_eq!(classify("https://x.dev/fn main() { }"), Category::Url);
}

#[test]
fn classify_lowered_uses_given_lower_case() {
    assert_eq!(classify_lowered("XYZ", "http://x"), Category::Url);
    assert_eq!(classify_lowered("HTTP://X", "http://x"), Category::Url);
    assert_eq!(classify_lowered("HTTP://X", "HTTP://X"), Category::Text);
}

#[test]
fn detect_category_tags() {
    assert_eq!(detect_category("https://example.com"), "url");
    assert_eq!(detect_category("a@b.com"), "email");
    assert_eq!(detect_category("const x = 1"), "code");
    assert_eq!(detect_category("hello"), "text");
}

#[test]
fn category_for_images() {
    assert_eq!(category_for("https://example.com", true), Category::Image);
    assert_eq!(category_for("https://example.com", false), Category::Url);
}

#[test]
fn category_tags_round_trip() {
    for c in [Category::Text, Category::Url, Category::Email, Category::Code, Category::Image] {
        assert_eq!(Category::from_tag(c.as_str()), Some(c));
    }
    assert_eq!(Category::from_tag("Text"), None);
    assert_eq!(Category::from_tag(""), None);
}
