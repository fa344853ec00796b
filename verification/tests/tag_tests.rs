use k8sfwd::config::tag::{self, Tag, TagSet};
use k8sfwd::config::tag_selection::{FromStringError, TagSelection, TagSelectionUtils};

#[test]
fn tag_test_trivial() {
    let tag = Tag::from_str("foo").unwrap();
    assert_eq!(tag, Tag::new_unchecked("foo"));
}

#[test]
fn tag_test_complex() {
    let tag = Tag::from_str("fOo_bAR-12-_-").unwrap();
    assert_eq!(tag, Tag::new_unchecked("fOo_bAR-12-_-"));
}

#[test]
fn tag_test_invalid() {
    let tag = Tag::from_str("123");
    assert!(tag.is_err());
}

#[test]
fn test_empty() {
    let tags = TagSelection::from_str("").unwrap();
    assert!(tags.is_empty());
}

#[test]
fn tag_selection_test_trivial() {
    let tags = TagSelection::from_str("foo").unwrap();
    assert!(tags.contains(&Tag::new_unchecked("foo")));
}

#[test]
fn tag_selection_test_complex() {
    let tags = TagSelection::from_str("foo+bar+++baz++").unwrap();
    assert_eq!(tags.len(), 3);
    assert!(tags.contains(&Tag::new_unchecked("foo")));
    assert!(tags.contains(&Tag::new_unchecked("bar")));
    assert!(tags.contains(&Tag::new_unchecked("baz")));
}

#[test]
fn tag_selection_test_invalid() {
    let tags = TagSelection::from_str("foo+#baz");
    assert!(tags.is_err());
    assert_eq!(
        tags.err().unwrap(),
        FromStringError::InvalidTag(tag::FromStringError::MustStartAlphabetic('#'))
    );
}

fn tag_set(names: &[&str]) -> TagSet {
    let mut set = TagSet::new();
    for name in names {
        set.insert(Tag::new_unchecked(name));
    }
    set
}

#[test]
fn test_matches() {
    let selections = vec![
        TagSelection::from_str("foo+bar").unwrap(),
        TagSelection::from_str("baz").unwrap(),
    ];

    // foo+bar are present, so is baz
    assert!(selections.matches_tags(&tag_set(&["foo", "bar", "baz"])));

    // baz is present
    assert!(selections.matches_tags(&tag_set(&["baz"])));

    // foo+bar are present
    assert!(selections.matches_tags(&tag_set(&["foo", "bar"])));

    // baz present
    assert!(selections.matches_tags(&tag_set(&["foo", "baz"])));

    // neither foo+bar, nor baz are present.
    assert!(!selections.matches_tags(&tag_set(&["foo", "bang"])));
}

#[test]
fn test_tags() {
    let mut tags = TagSet::new();
    tags.insert(Tag::from_str("foo").unwrap());
    tags.insert(Tag::from_str("bar").unwrap());
    assert_eq!(tags.len(), 2);
    assert!(tags.contains(&Tag::new_unchecked("foo")));
    assert!(tags.contains(&Tag::new_unchecked("bar")));
}

#[test]
fn tag_set_holds_each_name_once() {
    let mut tags = TagSet::new();
    tags.insert(Tag::new_unchecked("foo"));
    tags.insert(Tag::new_unchecked("foo"));
    assert_eq!(tags.len(), 1);
}

#[test]
fn tag_error_messages() {
    let e = Tag::from_str("1ab").unwrap_err();
    assert_eq!(
        e.message(),
        "Tag name must begin with an alphabetic character, got '1'"
    );
    let e = Tag::from_str("a#b").unwrap_err();
    assert_eq!(
        e.message(),
        "Tag name must contain only alphanumeric characters, '-' or '_', got '#'"
    );
}

#[test]
fn empty_expression_list_matches_every_target() {
    let none: Vec<TagSelection> = Vec::new();
    assert!(none.matches_tags(&tag_set(&["foo"])));
    assert!(none.matches_tags(&TagSet::new()));
}
