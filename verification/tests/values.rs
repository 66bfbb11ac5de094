use lnkr::error::Error;
use lnkr::links::{
    find_target, generate_word_length, key_of_words, length_or_three, short_key, shorten,
    shorten_with_words, verify_url,
};
use lnkr::metadata::{increase_hit_count, metadata_at, generate_metadata, show_value, ItemMetadata};
use lnkr::store::{
    check_inserted, check_kv_store, check_opened, lookup_memorable_words, read_metadata_text,
    Inserted, Lookup, Opened, Store, Stored, MEMORABLE_WORD_STORE, URL_ADMIN_SECRET, URL_STORE,
};
use lnkr::table::Table;
use lnkr::text::{append_decimal, join, remove_slashes, replace_spaces, same_bytes, same_text};

fn text(s: &str) -> String {
    String::from(s)
}

#[test]
fn texts_are_compared_by_their_characters() {
    assert!(same_text("", ""));
    assert!(same_text("straße", "straße"));
    assert!(!same_text("strasse", "straße"));
    assert!(!same_text("a", "ab"));
    assert!(same_bytes(&[1, 2], &[1, 2]));
    assert!(!same_bytes(&[1, 2], &[1, 3]));
    assert!(!same_bytes(&[1], &[]));
}

#[test]
fn spaces_become_dashes() {
    assert_eq!(replace_spaces("my  own key"), "my--own-key");
    assert_eq!(replace_spaces(" ü "), "-ü-");
    assert_eq!(replace_spaces(""), "");
    assert_eq!(replace_spaces("tab\tstays"), "tab\tstays");
}

#[test]
fn slashes_are_taken_out() {
    assert_eq!(remove_slashes("/abc"), "abc");
    assert_eq!(remove_slashes("/a//b/ü/"), "abü");
    assert_eq!(remove_slashes("///"), "");
}

#[test]
fn words_are_joined() {
    assert_eq!(join(&vec![], "-"), "");
    assert_eq!(join(&vec![text("one")], "-"), "one");
    assert_eq!(join(&vec![text("one"), text(""), text("two")], "-"), "one--two");
}

#[test]
fn numbers_are_written_in_decimal() {
    for n in [0u64, 9, 10, 42, 100, 1009, u64::MAX] {
        let mut out = text("n=");
        append_decimal(&mut out, n);
        assert_eq!(out, format!("n={}", n));
    }
}

#[test]
fn last_entry_of_a_name_counts() {
    let mut table = Table::new();
    assert!(table.get("a").is_none());
    table.insert(text("a"), text("1"));
    table.insert(text("b"), text("2"));
    table.insert(text("a"), text("3"));
    assert_eq!(table.get("a").unwrap(), "3");
    assert_eq!(table.get("b").unwrap(), "2");
    assert!(table.contains_key("b"));
    assert!(!table.contains_key("c"));
    assert_eq!(table.entries().len(), 2);
}

#[test]
fn absolute_urls_are_accepted() {
    assert_eq!(verify_url("https://example.com").unwrap().as_str(), "https://example.com/");
    assert_eq!(
        verify_url(" HTTPS://EXAMPLE.com/a b?c d#e ").unwrap().to_text(),
        "https://example.com/a%20b?c%20d#e"
    );
}

#[test]
fn accepted_urls_are_accepted_again() {
    for input in [
        " HTTPS://u:p@EXAMPLE.com:443/a/./b/../c d?e f#g h ",
        "http://0x7f.1:8080",
        "ftp://[0:0::1]/\\a",
        "data: a b ?c",
        "a:/.//b",
        "https://a.b/xn--c?xn--d",
        "http://axn--b.c/",
        "FILE:\\\\H\\a/../b c",
        "file:///C:a",
    ] {
        let url = verify_url(input).unwrap();
        assert_eq!(verify_url(url.as_str()).unwrap().as_str(), url.as_str());
    }
    // A URL of a file is not always in normal form.
    assert_eq!(verify_url("file://a//C:").unwrap().as_str(), "file://a/C:");
    assert_eq!(verify_url("file://a/C:").unwrap().as_str(), "file:///C:");
}

#[test]
fn other_addresses_are_not() {
    let error = verify_url("example.com").unwrap_err();
    assert!(matches!(&error, Error::UrlParse(e) if e == "relative URL without a base"));
    assert_eq!(error.message(), "Error: relative URL without a base");
    assert_eq!(verify_url("https://").unwrap_err().message(), "Error: empty host");
    assert_eq!(verify_url("http://a:99999/").unwrap_err().message(), "Error: invalid port number");
}

#[test]
fn queries_are_stripped_on_demand() {
    let kept = find_target("https://example.com/p?q=1?2#f?g", false).unwrap();
    assert_eq!(kept.as_str(), "https://example.com/p?q=1?2#f?g");
    let cases = [
        ("https://example.com/p?q=1?2#f?g", "https://example.com/p#f?g"),
        ("https://example.com?q=1", "https://example.com/"),
        ("https://example.com/p", "https://example.com/p"),
        ("https://example.com/p?", "https://example.com/p"),
        ("https://u:p@example.com:8080/p%3Fx?y#", "https://u:p@example.com:8080/p%3Fx#"),
        ("mailto:someone@example.com?subject=x", "mailto:someone@example.com"),
        ("data:text  ?q", "data:text"),
        ("data:text  ?q#f", "data:text  #f"),
        ("file:///tmp/a b?c", "file:///tmp/a%20b"),
    ];
    for (input, stripped) in cases {
        assert_eq!(find_target(input, true).unwrap().as_str(), stripped);
    }
    assert!(matches!(find_target("no url", true), Err(Error::UrlParse(_))));
}

#[test]
fn stripping_twice_changes_nothing() {
    let once = find_target("https://example.com/p?q#f?g", true).unwrap();
    let twice = find_target(once.as_str(), true).unwrap();
    assert_eq!(once.as_str(), twice.as_str());
}

#[test]
fn urls_are_shortened_to_five_characters() {
    let url = verify_url("https://example.com").unwrap();
    assert_eq!(shorten(&url), "mW_V8");
    let url = verify_url("https://www.rust-lang.org/learn?x=1").unwrap();
    assert_eq!(shorten(&url), "fXhiz");
}

#[test]
fn keys_are_made_of_the_url_safe_alphabet() {
    assert_eq!(short_key(&[0xff, 0xff, 0xfe, 0x00]), "___-A");
    assert_eq!(short_key(&[251, 239, 190, 1]), "----A");
    assert_eq!(short_key(b"lnkr"), "bG5rc");
    for i in 0..200 {
        let url = verify_url(&format!("https://example.com/{}", i)).unwrap();
        let key = shorten(&url);
        assert_eq!(key.len(), 5);
        assert!(key.chars().all(|c| c.is_ascii_alphanumeric() || c == '-' || c == '_'));
    }
}

#[test]
fn word_lengths_are_three_to_five() {
    for _ in 0..50 {
        assert!((3..=5).contains(&generate_word_length()));
    }
}

#[test]
fn chosen_lengths_are_kept() {
    for len in [3, 4, 5] {
        assert_eq!(length_or_three(Some(len)), len);
    }
    assert_eq!(length_or_three(None), 3);
}

#[test]
fn word_keys_are_three_words() {
    let mut keys: Vec<String> = vec![];
    for _ in 0..20 {
        let key = shorten_with_words();
        assert!(key.chars().filter(|c| *c == '-').count() >= 2);
        assert!((11..=17).contains(&key.chars().count()));
        keys.push(key);
    }
    assert!(keys.iter().any(|key| *key != keys[0]));
}

#[test]
fn words_that_cannot_be_drawn_are_blank() {
    assert_eq!(key_of_words(vec![Some(text("tree")), Some(text("ox")), Some(text("river"))]), "tree-ox-river");
    assert_eq!(key_of_words(vec![None, Some(text("fog")), None]), "-fog-");
    assert_eq!(key_of_words(vec![None, None, None]), "--");
    assert_eq!(key_of_words(vec![]), "");
}

#[test]
fn header_values_that_cannot_be_displayed_are_blank() {
    assert_eq!(show_value(b"text/html; q=0.9\t~"), "text/html; q=0.9\t~");
    assert_eq!(show_value(b""), "");
    assert_eq!(show_value(&[b'a', 0x7f]), "");
    assert_eq!(show_value(&[b'a', 0xe4]), "");
    assert_eq!(show_value(b"a\n"), "");
}

#[test]
fn metadata_of_an_instant() {
    let headers = vec![
        (text("host"), b"lnkr.lol".to_vec()),
        (text("accept"), b"text/html".to_vec()),
        (text("cookie"), vec![0xff]),
        (text("accept"), b"*/*".to_vec()),
    ];
    let metadata = metadata_at(&headers, 1_700_000_000, 123_999_999);
    assert_eq!(metadata.version, 0);
    assert_eq!(metadata.time, "2023-11-14T22:13:20.123Z");
    assert_eq!(metadata.hit_count, 0);
    assert!(metadata.additional_data.is_none());
    assert_eq!(metadata.headers.entries().len(), 3);
    assert_eq!(metadata.headers.get("host").unwrap(), "lnkr.lol");
    assert_eq!(metadata.headers.get("accept").unwrap(), "*/*");
    assert_eq!(metadata.headers.get("cookie").unwrap(), "");
    assert_eq!(metadata_at(&vec![], 0, 0).time, "1970-01-01T00:00:00.000Z");
    assert_eq!(
        metadata_at(&vec![], lnkr::outside::LAST_SECOND, 999_999_999).time,
        "+262142-12-31T23:59:59.999Z"
    );
    assert_eq!(
        metadata_at(&vec![], lnkr::outside::LAST_FOUR_DIGIT_SECOND, 0).time,
        "9999-12-31T23:59:59.000Z"
    );
}

#[test]
fn metadata_of_the_present() {
    let metadata = generate_metadata(&vec![]);
    assert_eq!(metadata.time.len(), 24);
    assert!(metadata.time.as_str() > "2020");
    assert!(metadata.time.ends_with('Z'));
    assert_eq!(metadata.hit_count, 0);
}

#[test]
fn hits_are_counted() {
    let mut metadata = ItemMetadata::default();
    assert_eq!(metadata.time, "");
    assert_eq!(metadata.headers.entries().len(), 0);
    metadata.hit_count = 41;
    increase_hit_count(&mut metadata);
    assert_eq!(metadata.hit_count, 42);
    assert_eq!(metadata.version, 0);
}

#[test]
fn error_messages() {
    let messages = [
        (Error::UrlParse(text("x")), "Error: x"),
        (Error::Path(text("x")), "Error: x"),
        (Error::Json(text("x")), "Error (de)serializing json metadata: x"),
        (Error::UrlNotFound(text("x")), "Error: x"),
        (Error::DecodingUrl(text("x")), "Error: x"),
        (Error::SecretStoreInitialization(text("x")), "Error: x"),
        (Error::Authentication(text("x")), "Error: x"),
        (Error::HeaderParsing(text("x")), "Error: x"),
        (
            Error::StoreNotFound(URL_STORE),
            "The urls store was not found, did you forget to setup?",
        ),
        (Error::UrlNotFoundDev, "Url Not Found, this will turn into an action later"),
    ];
    for (error, message) in messages {
        assert_eq!(error.message(), message);
    }
}

#[test]
fn stores_have_names() {
    assert_eq!(Store::Links.name(), URL_STORE);
    assert_eq!(Store::Words.name(), MEMORABLE_WORD_STORE);
    assert_eq!(URL_STORE, "urls");
    assert_eq!(MEMORABLE_WORD_STORE, "memorable_words");
    assert_eq!(URL_ADMIN_SECRET, "url_admin");
}

#[test]
fn openings_are_checked() {
    assert!(check_opened(Store::Links, Opened::Ready).is_ok());
    assert!(matches!(
        check_opened(Store::Words, Opened::Absent),
        Err(Error::StoreNotFound("memorable_words"))
    ));
    assert!(matches!(
        check_opened(Store::Links, Opened::Failed(text("down"))),
        Err(Error::UrlNotFound(e)) if e == "down"
    ));
}

#[test]
fn lookups_are_checked() {
    let found = Lookup::Found(Stored { body: text("https://a/"), metadata: None });
    assert_eq!(check_kv_store(found).unwrap().body, "https://a/");
    assert!(matches!(check_kv_store(Lookup::Missing), Err(Error::UrlNotFoundDev)));
    assert!(matches!(
        check_kv_store(Lookup::Failed(text("down"))),
        Err(Error::UrlNotFound(e)) if e == "down"
    ));
}

#[test]
fn memorable_words_are_read() {
    let stored = |body: &str| Lookup::Found(Stored { body: text(body), metadata: None });
    assert_eq!(lookup_memorable_words(stored("a-b-c")).unwrap(), Some(text("a-b-c")));
    assert_eq!(lookup_memorable_words(stored("")).unwrap(), None);
    assert_eq!(lookup_memorable_words(Lookup::Missing).unwrap(), None);
    assert!(matches!(
        lookup_memorable_words(Lookup::Failed(text("down"))),
        Err(Error::UrlNotFound(e)) if e == "down"
    ));
}

#[test]
fn insertions_are_checked() {
    assert!(check_inserted(Inserted::Done).is_ok());
    assert!(matches!(
        check_inserted(Inserted::Unwritable(text("x"))),
        Err(Error::Json(e)) if e == "x"
    ));
    assert!(matches!(
        check_inserted(Inserted::Failed(text("x"))),
        Err(Error::UrlNotFound(e)) if e == "x"
    ));
}

#[test]
fn metadata_is_read_as_text() {
    assert_eq!(read_metadata_text(None).unwrap(), "");
    assert_eq!(read_metadata_text(Some("{ü}".as_bytes().to_vec())).unwrap(), "{ü}");
    let error = read_metadata_text(Some(vec![b'a', 0xff])).unwrap_err();
    assert!(matches!(&error, Error::DecodingUrl(_)));
    assert_eq!(error.message(), "Error: invalid utf-8 sequence of 1 bytes from index 1");
}
