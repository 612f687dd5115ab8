use feed_reader::article::Article;
use feed_reader::date::{Timestamp, UtcOffset};
use feed_reader::link::validate_link;
use feed_reader::tag::Tag;

const VALID_DATE: &str = "Mon, 01 Jan 2024 00:00:00 +0000";

#[test]
fn new_article_is_empty() {
    let a = Article::new();
    assert_eq!(a.title, "");
    assert_eq!(a.description, "");
    assert!(a.pub_date.is_none());
    assert!(a.link.is_none());
}

#[test]
fn second_title_overwrites_the_first() {
    let mut a = Article::new();
    a.update_field(&Tag::Title, "first", UtcOffset::utc());
    a.update_field(&Tag::Title, "second", UtcOffset::utc());
    assert_eq!(a.title, "second");
    assert_eq!(a.description, "");
}

#[test]
fn empty_text_overwrites_title_and_description() {
    let mut a = Article::new();
    a.update_field(&Tag::Title, "title", UtcOffset::utc());
    a.update_field(&Tag::Description, "words", UtcOffset::utc());
    a.update_field(&Tag::Title, "", UtcOffset::utc());
    assert_eq!(a.title, "");
    assert_eq!(a.description, "words");
    a.update_field(&Tag::Description, "", UtcOffset::utc());
    assert_eq!(a.description, "");
}

#[test]
fn invalid_date_after_valid_keeps_the_valid_one() {
    let mut a = Article::new();
    a.update_field(&Tag::PubDate, VALID_DATE, UtcOffset::utc());
    a.update_field(&Tag::PubDate, "sometime last week", UtcOffset::utc());
    let date = a.pub_date.expect("the valid date");
    assert_eq!(date.seconds, 1_704_067_200);
    assert_eq!(date.offset.seconds(), 0);
}

#[test]
fn invalid_date_alone_leaves_the_date_absent() {
    let mut a = Article::new();
    a.update_field(&Tag::PubDate, "sometime last week", UtcOffset::utc());
    assert!(a.pub_date.is_none());
}

#[test]
fn later_valid_date_overwrites_an_earlier_one() {
    let mut a = Article::new();
    let target = UtcOffset::new(3600).expect("an offset");
    a.update_field(&Tag::PubDate, VALID_DATE, target);
    a.update_field(&Tag::PubDate, "Tue, 02 Jan 2024 00:00:00 +0000", target);
    let date = a.pub_date.expect("a date");
    assert_eq!(date.seconds, 1_704_153_600);
    assert_eq!(date.offset.seconds(), 3600);
}

#[test]
fn invalid_link_after_valid_keeps_the_valid_one() {
    let mut a = Article::new();
    a.update_field(&Tag::Link, "https://example.com/a", UtcOffset::utc());
    a.update_field(&Tag::Link, "not a url", UtcOffset::utc());
    assert_eq!(a.link.as_ref().expect("the valid link").as_str(), "https://example.com/a");
    a.update_field(&Tag::Link, "https://example.com/b", UtcOffset::utc());
    assert_eq!(a.link.as_ref().expect("the later link").as_str(), "https://example.com/b");
}

#[test]
fn item_and_other_roles_change_nothing() {
    let mut a = Article::new();
    a.update_field(&Tag::Title, "kept", UtcOffset::utc());
    a.update_field(&Tag::Item, "ignored", UtcOffset::utc());
    a.update_field(&Tag::Other(String::from("guid")), "https://example.com/a", UtcOffset::utc());
    a.update_field(&Tag::Other(String::from("title")), "ignored", UtcOffset::utc());
    assert_eq!(a.title, "kept");
    assert_eq!(a.description, "");
    assert!(a.pub_date.is_none());
    assert!(a.link.is_none());
}

#[test]
fn each_role_touches_only_its_own_field() {
    let mut a = Article::new();
    a.update_field(&Tag::Title, "T", UtcOffset::utc());
    a.update_field(&Tag::Description, "D", UtcOffset::utc());
    a.update_field(&Tag::PubDate, VALID_DATE, UtcOffset::utc());
    a.update_field(&Tag::Link, "https://example.com/a", UtcOffset::utc());
    assert_eq!(a.title, "T");
    assert_eq!(a.description, "D");
    assert_eq!(a.pub_date.expect("a date").seconds, 1_704_067_200);
    assert_eq!(a.link.as_ref().expect("a link").as_str(), "https://example.com/a");
}

#[test]
fn clone_is_detached() {
    let mut a = Article::new();
    a.update_field(&Tag::Title, "T", UtcOffset::utc());
    a.update_field(&Tag::Link, "https://example.com/a", UtcOffset::utc());
    let b = a.clone();
    a.update_field(&Tag::Title, "changed", UtcOffset::utc());
    assert_eq!(b.title, "T");
    assert_eq!(b.link.as_ref().expect("a link").as_str(), "https://example.com/a");
    assert_eq!(a.title, "changed");
}

#[test]
fn parsed_date_overwrites_and_failed_parse_keeps() {
    let mut a = Article::new();
    a.apply_date(None);
    assert!(a.pub_date.is_none());
    let first = Timestamp { seconds: 10, nanos: 5, offset: UtcOffset::utc() };
    a.apply_date(Some(first));
    a.apply_date(None);
    let held = a.pub_date.expect("the first date");
    assert_eq!((held.seconds, held.nanos, held.offset.seconds()), (10, 5, 0));
    let second = Timestamp { seconds: 20, nanos: 0, offset: UtcOffset::new(60).expect("an offset") };
    a.apply_date(Some(second));
    let held = a.pub_date.expect("the second date");
    assert_eq!((held.seconds, held.nanos, held.offset.seconds()), (20, 0, 60));
    assert_eq!(a.title, "");
    assert!(a.link.is_none());
}

#[test]
fn validated_link_overwrites_and_failed_validation_keeps() {
    let mut a = Article::new();
    a.update_field(&Tag::Title, "T", UtcOffset::utc());
    a.apply_link(None);
    assert!(a.link.is_none());
    a.apply_link(validate_link("https://example.com/one"));
    a.apply_link(None);
    assert_eq!(a.link.as_ref().expect("the first link").as_str(), "https://example.com/one");
    a.apply_link(validate_link("https://example.com/two"));
    assert_eq!(a.link.as_ref().expect("the second link").as_str(), "https://example.com/two");
    assert_eq!(a.title, "T");
    assert!(a.pub_date.is_none());
}

#[test]
fn unstable_url_leaves_the_link_as_it_was() {
    let mut a = Article::new();
    a.update_field(&Tag::Link, "https://example.com/a", UtcOffset::utc());
    a.update_field(&Tag::Link, "file://host//C:/foo", UtcOffset::utc());
    assert_eq!(a.link.as_ref().expect("the valid link").as_str(), "https://example.com/a");
}
