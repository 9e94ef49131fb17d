//! The content classifier: a category tag for a captured text.

use vstd::prelude::*;
use crate::text::{
    chars_of, contains, contains_text, has_prefix, is_space, lower_of, same_text, space_char,
    starts_with_text, to_lower,
};

verus! {

/// What a clipboard record holds, as far as the history's filters are concerned.
#[derive(Clone, Copy, Debug, PartialEq, Eq, Structural)]
pub enum Category {
    Text,
    Url,
    Email,
    Code,
    Image,
}

impl Category {
    /// The tag under which the category is stored and filtered.
    pub open spec fn tag(self) -> Seq<char> {
        match self {
            Category::Text => "text"@,
            Category::Url => "url"@,
            Category::Email => "email"@,
            Category::Code => "code"@,
            Category::Image => "image"@,
        }
    }

    pub fn as_str(&self) -> (r: &'static str)
        ensures
            r@ == self.tag(),
    {
        match self {
            Category::Text => "text",
            Category::Url => "url",
            Category::Email => "email",
            Category::Code => "code",
            Category::Image => "image",
        }
    }

    /// The category whose tag is `t`, if any.
    pub open spec fn tag_category(t: Seq<char>) -> Option<Category> {
        if t == Category::Text.tag() {
            Some(Category::Text)
        } else if t == Category::Url.tag() {
            Some(Category::Url)
        } else if t == Category::Email.tag() {
            Some(Category::Email)
        } else if t == Category::Code.tag() {
            Some(Category::Code)
        } else if t == Category::Image.tag() {
            Some(Category::Image)
        } else {
            None
        }
    }

    /// The category whose tag is `s`, if any.
    pub fn from_tag(s: &str) -> (r: Option<Category>)
        ensures
            r == Category::tag_category(s@),
            r matches Some(c) ==> c.tag() == s@,
            r is None ==> forall|c: Category| c.tag() != s@,
    {
        if same_text(s, "text") {
            Some(Category::Text)
        } else if same_text(s, "url") {
            Some(Category::Url)
        } else if same_text(s, "email") {
            Some(Category::Email)
        } else if same_text(s, "code") {
            Some(Category::Code)
        } else if same_text(s, "image") {
            Some(Category::Image)
        } else {
            proof {
                assert forall|c: Category| c.tag() != s@ by {
                    lemma_tag_head(c);
                }
            }
            None
        }
    }
}

/// The first character of a category's tag; no two categories share one.
pub open spec fn tag_head(c: Category) -> char {
    match c {
        Category::Text => 't',
        Category::Url => 'u',
        Category::Email => 'e',
        Category::Code => 'c',
        Category::Image => 'i',
    }
}

pub proof fn lemma_tag_head(c: Category)
    ensures
        c.tag().len() > 0,
        c.tag()[0] == tag_head(c),
{
    reveal_strlit("text");
    reveal_strlit("url");
    reveal_strlit("email");
    reveal_strlit("code");
    reveal_strlit("image");
}

/// Different categories have different tags.
pub proof fn lemma_tag_injective(a: Category, b: Category)
    ensures
        a.tag() == b.tag() ==> a == b,
{
    lemma_tag_head(a);
    lemma_tag_head(b);
}

/// A lower-cased text that opens like a web address.
pub open spec fn looks_like_url(lower: Seq<char>) -> bool {
    has_prefix(lower, "http://"@) || has_prefix(lower, "https://"@) || has_prefix(lower, "www."@)
}

/// How many times `c` occurs in `s`.
pub open spec fn count_of(s: Seq<char>, c: char) -> nat
    decreases s.len(),
{
    if s.len() == 0 {
        0
    } else {
        count_of(s.drop_last(), c) + if s.last() == c { 1nat } else { 0nat }
    }
}

/// One `@`, no white space, and a `.` somewhere after the `@`.
pub open spec fn looks_like_email(s: Seq<char>) -> bool {
    &&& count_of(s, '@') == 1
    &&& forall|i: int| 0 <= i < s.len() ==> !is_space(#[trigger] s[i])
    &&& exists|i: int, j: int| 0 <= i < j < s.len() && s[i] == '@' && s[j] == '.'
}

/// Holds one of the tokens that mark source code.
pub open spec fn looks_like_code(s: Seq<char>) -> bool {
    contains(s, "function"@) || contains(s, "const "@) || contains(s, "let "@)
        || contains(s, "var "@) || contains(s, "def "@) || contains(s, "class "@)
        || contains(s, "import "@) || contains(s, "fn "@) || contains(s, "pub "@)
        || contains(s, "->"@) || contains(s, "=>"@) || (contains(s, "{"@) && contains(
        s,
        "}"@,
    )) || contains(s, "#include"@) || contains(s, "<script"@)
}

/// The category of a text `s` whose lower-case form is `lower`; the first
/// rule that matches wins.
pub open spec fn category_of(s: Seq<char>, lower: Seq<char>) -> Category {
    if looks_like_url(lower) {
        Category::Url
    } else if looks_like_email(s) {
        Category::Email
    } else if looks_like_code(s) {
        Category::Code
    } else {
        Category::Text
    }
}

/// The category of a text.
pub open spec fn text_category(s: Seq<char>) -> Category {
    category_of(s, lower_of(s))
}

/// The category of a stored record: images are always `Image`.
pub open spec fn record_category(content: Seq<char>, is_image: bool) -> Category {
    if is_image {
        Category::Image
    } else {
        text_category(content)
    }
}

fn url_like(lower: &Vec<char>) -> (r: bool)
    ensures
        r == looks_like_url(lower@),
{
    starts_with_text(lower, "http://") || starts_with_text(lower, "https://")
        || starts_with_text(lower, "www.")
}

fn email_like(s: &Vec<char>) -> (r: bool)
    ensures
        r == looks_like_email(s@),
{
    let mut ats: usize = 0;
    let mut at_seen = false;
    let mut dot_after = false;
    let mut space_seen = false;
    let mut i: usize = 0;
    while i < s.len()
        invariant
            i <= s.len(),
            ats == count_of(s@.subrange(0, i as int), '@'),
            ats <= i,
            at_seen == exists|k: int| 0 <= k < i && s@[k] == '@',
            dot_after == exists|k: int, j: int| 0 <= k < j < i && s@[k] == '@' && s@[j] == '.',
            space_seen == exists|k: int| 0 <= k < i && is_space(#[trigger] s@[k]),
        decreases s.len() - i,
    {
        let c = s[i];
        proof {
            assert(s@.subrange(0, i + 1).drop_last() == s@.subrange(0, i as int));
        }
        if c == '@' {
            ats = ats + 1;
            at_seen = true;
        }
        if c == '.' && at_seen {
            dot_after = true;
        }
        if space_char(c) {
            space_seen = true;
        }
        i = i + 1;
    }
    proof {
        assert(s@.subrange(0, s.len() as int) == s@);
    }
    ats == 1 && !space_seen && dot_after
}

fn code_like(s: &Vec<char>) -> (r: bool)
    ensures
        r == looks_like_code(s@),
{
    contains_text(s, "function") || contains_text(s, "const ") || contains_text(s, "let ")
        || contains_text(s, "var ") || contains_text(s, "def ") || contains_text(s, "class ")
        || contains_text(s, "import ") || contains_text(s, "fn ") || contains_text(s, "pub ")
        || contains_text(s, "->") || contains_text(s, "=>") || (contains_text(s, "{")
        && contains_text(s, "}")) || contains_text(s, "#include") || contains_text(
        s,
        "<script",
    )
}

/// The category of `content`, given its lower-case form `lowered`.
pub fn classify_lowered(content: &str, lowered: &str) -> (r: Category)
    ensures
        r == category_of(content@, lowered@),
{
    let lc = chars_of(lowered);
    if url_like(&lc) {
        return Category::Url;
    }
    let cs = chars_of(content);
    if email_like(&cs) {
        Category::Email
    } else if code_like(&cs) {
        Category::Code
    } else {
        Category::Text
    }
}

/// The category of a captured text: `Url`, `Email`, `Code` or `Text`, the
/// first rule that matches winning.
pub fn classify(content: &str) -> (r: Category)
    ensures
        r == text_category(content@),
        r != Category::Image,
{
    let lowered = to_lower(content);
    classify_lowered(content, lowered.as_str())
}

/// The tag of a captured text's category.
pub fn detect_category(content: &str) -> (r: &'static str)
    ensures
        r@ == text_category(content@).tag(),
{
    classify(content).as_str()
}

/// The category of a record: `Image` for an image, else that of its text.
pub fn category_for(content: &str, is_image: bool) -> (r: Category)
    ensures
        r == record_category(content@, is_image),
{
    if is_image {
        Category::Image
    } else {
        classify(content)
    }
}

} // verus!
