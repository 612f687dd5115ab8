use feed_reader::link::{round_trips, validate_link};

#[test]
fn absolute_url_is_a_link() {
    let link = validate_link("https://example.com/a").expect("a link");
    assert_eq!(link.as_str(), "https://example.com/a");
}

#[test]
fn link_is_held_in_serialized_form() {
    let link = validate_link("HTTPS://Example.COM").expect("a link");
    assert_eq!(link.as_str(), "https://example.com/");
    let link = validate_link("http://example.com:80/a b?q=1#f").expect("a link");
    assert_eq!(link.as_str(), "http://example.com/a%20b?q=1#f");
}

#[test]
fn text_that_is_no_url_gives_nothing() {
    for text in ["", "not a url", "/relative/path", "example.com/a", "//example.com/a", "http://", "https://exa mple.com/"] {
        assert!(validate_link(text).is_none(), "{:?}", text);
    }
}

#[test]
fn url_without_a_host_gives_nothing() {
    for text in ["mailto:someone@example.com", "data:text/plain,hello", "unix:/run/foo.socket", "urn:isbn:0451450523"] {
        assert!(url::Url::parse(text).is_ok(), "{:?}", text);
        assert!(validate_link(text).is_none(), "{:?}", text);
    }
}

#[test]
fn link_is_stable_under_validation() {
    for text in [
        "https://example.com/a",
        "HTTPS://Example.COM",
        "http://user:pw@example.com:8080/a/../b/./c?x=y z#frag",
        "ftp://example.com",
        "https://example.com/%7Efoo/\u{e9}",
        "https://b\u{fc}cher.example/",
        "http://[::1]:3000/",
        "http://192.168.0.1",
        "custom://host/path",
    ] {
        let first = validate_link(text).expect("a link");
        let second = validate_link(first.as_str()).expect("a link again");
        assert_eq!(first.as_str(), second.as_str(), "{:?}", text);
    }
}

#[test]
fn cloned_link_is_the_same_link() {
    let link = validate_link("https://example.com/a?b=c").expect("a link");
    assert_eq!(link.clone().as_str(), link.as_str());
}

#[test]
fn url_whose_serialization_parses_to_another_is_no_link() {
    let first = url::Url::parse("file://host//C:/foo").expect("url parses it");
    assert_eq!(first.as_str(), "file://host/C:/foo");
    assert!(first.has_host());
    let second = url::Url::parse(first.as_str()).expect("url parses it again");
    assert_eq!(second.as_str(), "file:///C:/foo");
    assert!(!second.has_host());

    assert!(validate_link("file://host//C:/foo").is_none());
    assert!(validate_link("file://host/C:/foo").is_none());
    assert!(validate_link("file:///C:/foo").is_none());
}

#[test]
fn file_url_with_a_stable_host_is_a_link() {
    let link = validate_link("file://host/dir/name.txt").expect("a link");
    assert_eq!(link.as_str(), "file://host/dir/name.txt");
    let again = validate_link(link.as_str()).expect("a link again");
    assert_eq!(again.as_str(), link.as_str());
}

#[test]
fn round_trip_needs_the_same_text_and_a_host() {
    let same = Some((String::from("https://example.com/"), true));
    let no_host = Some((String::from("https://example.com/"), false));
    let other = Some((String::from("https://example.com/a"), true));
    let shorter = Some((String::from("https://example.com"), true));
    assert!(round_trips("https://example.com/", &same));
    assert!(!round_trips("https://example.com/", &no_host));
    assert!(!round_trips("https://example.com/", &other));
    assert!(!round_trips("https://example.com/", &shorter));
    assert!(!round_trips("https://example.com/", &None));
    assert!(round_trips("", &Some((String::new(), true))));
}
