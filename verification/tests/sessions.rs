use std::collections::HashMap;

use lnkr::error::Error;
use lnkr::http::{Asset, Body, ContentType, Method, Request, Response};
use lnkr::links::verify_url;
use lnkr::metadata::ItemMetadata;
use lnkr::session::{Action, Session};
use lnkr::stage::{choose_key, route, Event, Stage};
use lnkr::store::{Inserted, Lookup, Opened, Store, Stored};
use lnkr::table::Table;

/// Stores in memory. Metadata is written as `hits|time`.
struct World {
    links: HashMap<String, Stored>,
    words: HashMap<String, Stored>,
    secrets: HashMap<String, Vec<u8>>,
    page: usize,
    absent: Vec<Store>,
    read_only: bool,
    open: Option<Store>,
}

fn world() -> World {
    World {
        links: HashMap::new(),
        words: HashMap::new(),
        secrets: HashMap::from([(text("root"), b"hunter2".to_vec())]),
        page: 2,
        absent: vec![],
        read_only: false,
        open: None,
    }
}

fn text(s: &str) -> String {
    String::from(s)
}

fn form(fields: &[(&str, &str)]) -> Table {
    let mut table = Table::new();
    for (name, value) in fields {
        table.insert(text(name), text(value));
    }
    table
}

fn request(method: Method, path: &str) -> Request {
    Request { method, path: text(path), headers: vec![(text("host"), b"lnkr.lol".to_vec())] }
}

fn written(metadata: &ItemMetadata) -> Vec<u8> {
    format!("{}|{}", metadata.hit_count, metadata.time).into_bytes()
}

fn decoded(written: &str) -> Result<ItemMetadata, String> {
    let (hits, time) = match written.split_once('|') {
        Some(parts) => parts,
        None => return Err(text("no metadata")),
    };
    let mut metadata = ItemMetadata::default();
    metadata.hit_count = hits.parse::<u64>().unwrap();
    metadata.time = text(time);
    Ok(metadata)
}

impl World {
    fn store(&mut self, store: Store) -> &mut HashMap<String, Stored> {
        match store {
            Store::Links => &mut self.links,
            Store::Words => &mut self.words,
        }
    }

    fn answer(&mut self, fields: &[(&str, &str)], action: Action) -> Event {
        match action {
            Action::OpenSecrets => Event::SecretsOpened(Ok(())),
            Action::ReadForm => Event::FormRead(Ok(form(fields))),
            Action::ReadSecret(name) => Event::SecretRead(self.secrets.get(name).cloned()),
            Action::OpenStore(store) => Event::StoreOpened(if self.absent.contains(&store) {
                self.open = None;
                Opened::Absent
            } else {
                self.open = Some(store);
                Opened::Ready
            }),
            Action::Lookup { store, key } => {
                assert_eq!(self.open, Some(store));
                Event::LookedUp(match self.store(store).get(key) {
                    Some(stored) => Lookup::Found(stored.clone()),
                    None => Lookup::Missing,
                })
            }
            Action::Insert { store, key, text: body, metadata } => {
                assert_eq!(self.open, Some(store));
                if self.read_only {
                    return Event::Inserted(Inserted::Failed(text("read only")));
                }
                let stored = Stored { body: text(body), metadata: Some(written(metadata)) };
                self.store(store).insert(text(key), stored);
                Event::Inserted(Inserted::Done)
            }
            Action::List { cursor } => {
                assert_eq!(self.open, Some(Store::Links));
                let mut keys: Vec<String> = self.links.keys().cloned().collect();
                keys.sort();
                let start = cursor.map_or(0, |c| c.parse::<usize>().unwrap());
                let end = keys.len().min(start + self.page);
                let next = if end < keys.len() { Some(format!("{}", end)) } else { None };
                Event::Listed(Ok((keys[start..end].to_vec(), next)))
            }
            Action::ReadMetadata { key } => {
                assert_eq!(self.open, Some(Store::Links));
                Event::MetadataRead(self.links[key].metadata.clone())
            }
            Action::DecodeMetadata { text } => Event::MetadataDecoded(decoded(text)),
        }
    }

    fn serve(&mut self, request: Request, fields: &[(&str, &str)]) -> Result<Response, Error> {
        let mut session = Session::start(request);
        let mut steps = 0;
        loop {
            let event = match session.pending() {
                Some(action) => self.answer(fields, action),
                None => return session.into_outcome().unwrap(),
            };
            session = session.resume(event);
            steps += 1;
            assert!(steps < 100);
        }
    }

    fn submit(&mut self, fields: &[(&str, &str)]) -> Result<Response, Error> {
        self.serve(request(Method::Post, "/process"), fields)
    }

    fn visit(&mut self, path: &str) -> Result<Response, Error> {
        self.serve(request(Method::Get, path), &[])
    }

    fn hits(&self, key: &str) -> u64 {
        let written = String::from_utf8(self.links[key].metadata.clone().unwrap()).unwrap();
        decoded(&written).unwrap().hit_count
    }
}

fn link_page(key: &str, url: &str) -> String {
    format!(
        r#"
    <html>

    <head>
        <meta charset="UTF-8">
        <meta name="viewport" content="width=device-width, initial-scale=1.0">
        <title>LNKR</title>
        <link rel="stylesheet" href="style.css">
    </head>

    <body>
        <div class="container">
            <h1>Your shortened URL!</h1>
            <div class="forum-form">
                <a href=https://lnkr.lol/{key}>https://lnkr.lol/{key}</a> => <a href={url}>{url}</a>
            </div>
        </div>
    </body>

    </html>
                    "#
    )
}

fn page(response: Response) -> String {
    assert_eq!(response.status, 200);
    assert_eq!(response.content_type, Some(ContentType::Html));
    assert!(response.allow.is_none());
    assert!(response.location.is_none());
    match response.body {
        Body::Text(html) => html,
        _ => panic!("no page"),
    }
}

fn redirect(response: Response) -> String {
    assert_eq!(response.status, 307);
    assert!(response.content_type.is_none());
    assert!(matches!(response.body, Body::Empty));
    response.location.unwrap()
}

fn bare(response: Response, status: u16) {
    assert_eq!(response.status, status);
    assert!(response.content_type.is_none());
    assert!(response.allow.is_none());
    assert!(response.location.is_none());
    assert!(matches!(response.body, Body::Empty));
}

fn not_found(response: Response) {
    assert_eq!(response.status, 404);
    assert_eq!(response.content_type, Some(ContentType::Html));
    assert!(matches!(response.body, Body::File(Asset::NotFound)));
}

#[test]
fn other_methods_are_refused() {
    for path in ["/", "/process", "/abc", "/admin-response"] {
        let response = world().serve(request(Method::Other, path), &[]).unwrap();
        assert_eq!(response.status, 405);
        assert_eq!(response.allow.unwrap(), "GET, POST");
        assert_eq!(response.content_type, Some(ContentType::Plain));
        assert!(matches!(response.body, Body::Text(body) if body == "This method is not allowed\n"));
    }
}

#[test]
fn files_are_served() {
    let files = [
        ("/", ContentType::Html, Asset::Index),
        ("/style.css", ContentType::Css, Asset::Style),
        ("/favicon.ico", ContentType::Png, Asset::Favicon),
        ("/admin", ContentType::Html, Asset::Admin),
    ];
    for (path, content_type, asset) in files {
        for method in [Method::Get, Method::Post] {
            let response = world().serve(request(method, path), &[]).unwrap();
            assert_eq!(response.status, 200);
            assert_eq!(response.content_type, Some(content_type));
            assert!(matches!(response.body, Body::File(file) if file == asset));
        }
    }
}

#[test]
fn shortened_link_leads_to_its_url() {
    let mut world = world();
    let shown = world.submit(&[("URL", "https://example.com"), ("CKEY", "")]).unwrap();
    assert_eq!(page(shown), link_page("mW_V8", "https://example.com/"));
    assert_eq!(world.links["mW_V8"].body, "https://example.com/");
    assert_eq!(world.hits("mW_V8"), 0);
    for hits in 1..4 {
        assert_eq!(redirect(world.visit("/mW_V8").unwrap()), "https://example.com/");
        assert_eq!(world.hits("mW_V8"), hits);
    }
    assert_eq!(redirect(world.visit("//mW/_V8/").unwrap()), "https://example.com/");
    assert_eq!(world.hits("mW_V8"), 4);
    assert_eq!(world.links.len(), 1);
    assert!(world.words.is_empty());
}

#[test]
fn second_submission_changes_nothing() {
    let mut world = world();
    let first = page(world.submit(&[("URL", "https://example.com")]).unwrap());
    world.visit("/mW_V8").unwrap();
    let second = page(world.submit(&[("URL", "https://example.com")]).unwrap());
    assert_eq!(first, second);
    assert_eq!(world.hits("mW_V8"), 1);
    assert_eq!(world.links.len(), 1);
}

#[test]
fn custom_key_is_preferred() {
    let mut world = world();
    let fields = [("URL", "https://a.b/c?d"), ("CKEY", "my own key"), ("WORDS", "on")];
    assert_eq!(page(world.submit(&fields).unwrap()), link_page("my-own-key", "https://a.b/c?d"));
    assert_eq!(redirect(world.visit("/my-own-key").unwrap()), "https://a.b/c?d");
}

#[test]
fn taken_key_stays() {
    let mut world = world();
    world.submit(&[("URL", "https://a.b/"), ("CKEY", "k")]).unwrap();
    let shown = world.submit(&[("URL", "https://c.d/"), ("CKEY", "k")]).unwrap();
    assert_eq!(page(shown), link_page("k", "https://a.b/"));
    assert_eq!(redirect(world.visit("/k").unwrap()), "https://a.b/");
}

#[test]
fn query_is_stripped_on_demand() {
    let mut world = world();
    world.submit(&[("URL", "https://a.b/c?d=e#f"), ("CKEY", "x"), ("STRIP", "on")]).unwrap();
    world.submit(&[("URL", "https://a.b/c?d=e#f"), ("CKEY", "y")]).unwrap();
    assert_eq!(redirect(world.visit("/x").unwrap()), "https://a.b/c#f");
    assert_eq!(redirect(world.visit("/y").unwrap()), "https://a.b/c?d=e#f");
}

#[test]
fn bad_submissions() {
    let mut world = world();
    bare(world.submit(&[("CKEY", "k")]).unwrap(), 400);
    assert!(matches!(world.submit(&[("URL", "a.b")]), Err(Error::UrlParse(_))));
    assert!(world.links.is_empty());
    let stage = Stage::ReadingForm.step(Event::FormRead(Err(text("not a form"))));
    assert!(matches!(stage, Stage::Failed(Error::Path(e)) if e == "not a form"));
}

#[test]
fn words_are_drawn_once() {
    let mut world = world();
    let fields = [("URL", "https://a.b"), ("CKEY", ""), ("WORDS", "on")];
    let first = page(world.submit(&fields).unwrap());
    let words = world.words["https://a.b/"].body.clone();
    assert_eq!(first, link_page(&words, "https://a.b/"));
    assert!((11..=17).contains(&words.chars().count()));
    assert_eq!(world.links[&words].body, "https://a.b/");
    assert_eq!(page(world.submit(&fields).unwrap()), first);
    assert_eq!(redirect(world.visit(&format!("/{}", words)).unwrap()), "https://a.b/");
    assert_eq!(world.words.len(), 1);
    assert_eq!(world.links.len(), 1);
}

#[test]
fn empty_words_are_drawn_anew() {
    let mut world = world();
    world.words.insert(text("https://a.b/"), Stored { body: text(""), metadata: None });
    let shown = world.submit(&[("URL", "https://a.b"), ("WORDS", "on")]).unwrap();
    let words = world.words["https://a.b/"].body.clone();
    assert_eq!(page(shown), link_page(&words, "https://a.b/"));
    assert!((11..=17).contains(&words.chars().count()));
}

#[test]
fn remembered_words_are_used() {
    let mut world = world();
    world.words.insert(text("https://a.b/"), Stored { body: text("x-y-z"), metadata: None });
    let shown = world.submit(&[("URL", "https://a.b"), ("WORDS", "on")]).unwrap();
    assert_eq!(page(shown), link_page("x-y-z", "https://a.b/"));
    assert_eq!(redirect(world.visit("/x-y-z").unwrap()), "https://a.b/");
}

#[test]
fn words_that_cannot_be_looked_up_fail() {
    let stage = Stage::FindingWords { url: verify_url("https://a.b").unwrap() };
    let stage = stage.step(Event::LookedUp(Lookup::Failed(text("down"))));
    assert!(matches!(stage, Stage::Failed(Error::UrlNotFound(e)) if e == "down"));
}

#[test]
fn words_that_cannot_be_kept_fail() {
    let mut world = world();
    world.read_only = true;
    let outcome = world.submit(&[("URL", "https://a.b"), ("WORDS", "on")]);
    assert!(matches!(outcome, Err(Error::UrlNotFound(e)) if e == "read only"));
}

#[test]
fn link_that_cannot_be_kept_is_shown() {
    let mut world = world();
    world.read_only = true;
    let shown = world.submit(&[("URL", "https://a.b"), ("CKEY", "k")]).unwrap();
    assert_eq!(page(shown), link_page("k", "https://a.b/"));
    assert!(world.links.is_empty());
}

#[test]
fn missing_stores() {
    let mut world = world();
    world.absent = vec![Store::Links, Store::Words];
    let outcome = world.submit(&[("URL", "https://a.b")]);
    assert!(matches!(outcome, Err(Error::StoreNotFound("urls"))));
    let outcome = world.submit(&[("URL", "https://a.b"), ("WORDS", "on")]);
    assert!(matches!(outcome, Err(Error::StoreNotFound("memorable_words"))));
    not_found(world.visit("/abc").unwrap());
    let login = [("username", "root"), ("password", "hunter2")];
    let outcome = world.serve(request(Method::Post, "/admin-response"), &login);
    assert!(matches!(outcome, Err(Error::StoreNotFound("urls"))));
}

#[test]
fn unknown_keys_are_not_found() {
    let mut world = world();
    not_found(world.visit("/abc").unwrap());
    not_found(world.visit("/admin/").unwrap());
    not_found(world.visit("").unwrap());
}

#[test]
fn link_without_metadata_starts_its_count() {
    let mut world = world();
    world.links.insert(text("k"), Stored { body: text("https://a/"), metadata: None });
    assert_eq!(redirect(world.visit("/k").unwrap()), "https://a/");
    assert_eq!(world.links["k"].metadata, Some(b"1|".to_vec()));
    assert_eq!(redirect(world.visit("/k").unwrap()), "https://a/");
    assert_eq!(world.hits("k"), 2);
}

#[test]
fn link_with_unreadable_metadata_fails() {
    let mut world = world();
    world.links.insert(text("k"), Stored { body: text("https://a/"), metadata: Some(vec![]) });
    assert!(matches!(world.visit("/k"), Err(Error::Json(e)) if e == "no metadata"));
    world.links.insert(text("k"), Stored { body: text("https://a/"), metadata: Some(vec![255]) });
    assert!(matches!(world.visit("/k"), Err(Error::DecodingUrl(_))));
}

#[test]
fn visit_that_cannot_be_counted_fails() {
    let mut world = world();
    world.submit(&[("URL", "https://a.b"), ("CKEY", "k")]).unwrap();
    world.read_only = true;
    assert!(matches!(world.visit("/k"), Err(Error::UrlNotFound(e)) if e == "read only"));
    let stage = Stage::SavingVisit {
        key: text("k"),
        location: text("https://a/"),
        metadata: ItemMetadata::default(),
    };
    let stage = stage.step(Event::Inserted(Inserted::Unwritable(text("bad"))));
    assert!(matches!(stage, Stage::Failed(Error::Json(e)) if e == "bad"));
}

#[test]
fn administrator_sees_the_rankings() {
    let mut world = world();
    for (key, written) in [
        ("a", "1|2020-01-01T00:00:00Z"),
        ("b", "5|2022-01-01T00:00:00Z"),
        ("c", "3|2021-01-01T00:00:00Z"),
        ("d", "0|2019-01-01T00:00:00Z"),
    ] {
        let stored = Stored { body: text("https://x/"), metadata: Some(written.as_bytes().to_vec()) };
        world.links.insert(text(key), stored);
    }
    world.links.insert(text("e"), Stored { body: text("https://x/"), metadata: Some(vec![255]) });
    let login = [("username", "root"), ("password", "hunter2")];
    let shown = world.serve(request(Method::Post, "/admin-response"), &login).unwrap();
    let expected = r#"
                                    <html>
                                        <head>
                                            <meta charset="UTF-8">
                                            <meta name="viewport" content="width=device-width, initial-scale=1.0">
                                            <title>LNKR</title>
                                            <link rel="stylesheet" href="style.css">
                                        </head>
                                        <body>
                                            <div class="container">
                                            <h1>Admin: Stats!</h1>
                                            <div class="white-container">
                                                
    <div class="container-heading">
        Most Recent:
    </div></br></br>
    <div class="container-list">
    <ol><li>b</li><li>c</li><li>a</li><li>d</li><li>e</li></ol></div>
                                                </br></br>
                                                
    <div class="container-heading">
        Most Visited:
    </div></br></br>
    <div class="container-list">
    <ol>"#;
    let html = page(shown);
    assert!(html.starts_with(expected));
    let rest = &html[expected.len()..];
    let top = "<li>(5) b</li><li>(3) c</li><li>(1) a</li>";
    assert!(rest.starts_with(top));
    let (d, e) = ("<li>(0) d</li>", "<li>(0) e</li>");
    let rest = &rest[top.len()..];
    let end = r#"</ol></div>
                                            </div></div>
                                        </body>
                                    </html>"#;
    assert!(rest == format!("{}{}{}", d, e, end) || rest == format!("{}{}{}", e, d, end));
    assert_eq!(world.hits("b"), 5);
}

#[test]
fn wrong_logins_are_refused() {
    let logins: [&[(&str, &str)]; 5] = [
        &[],
        &[("password", "hunter2")],
        &[("username", "root")],
        &[("username", "root"), ("password", "hunter")],
        &[("username", "nobody"), ("password", "hunter2")],
    ];
    for login in logins {
        let response = world().serve(request(Method::Post, "/admin-response"), login).unwrap();
        bare(response, 401);
    }
    let stage = Stage::OpeningSecrets.step(Event::SecretsOpened(Err(text("closed"))));
    assert!(matches!(stage, Stage::Failed(Error::SecretStoreInitialization(e)) if e == "closed"));
    let stage = Stage::ReadingLogin.step(Event::FormRead(Err(text("not a form"))));
    assert!(matches!(stage, Stage::Failed(Error::Path(e)) if e == "not a form"));
}

#[test]
fn failed_listing() {
    let stage = Stage::Listing { keys: vec![text("a")], cursor: None };
    let stage = stage.step(Event::Listed(Err(text("down"))));
    assert!(matches!(stage, Stage::Failed(Error::UrlNotFound(e)) if e == "down"));
}

#[test]
fn stages_with_given_words_and_metadata() {
    let stage = Stage::ReadingForm
        .step(Event::FormRead(Ok(form(&[("URL", "https://a.b"), ("WORDS", "")]))))
        .step(Event::StoreOpened(Opened::Ready))
        .step(Event::LookedUp(Lookup::Missing))
        .step(Event::WordsDrawn(text("one-two-three")))
        .step(Event::Stamped(ItemMetadata::default()))
        .step(Event::StoreOpened(Opened::Ready))
        .step(Event::Inserted(Inserted::Done))
        .step(Event::StoreOpened(Opened::Ready));
    match stage {
        Stage::FindingLink { key, url } => {
            assert_eq!(key, "one-two-three");
            assert_eq!(url.as_str(), "https://a.b/");
        }
        _ => panic!("not looking for the link"),
    }
}

#[test]
fn other_events_change_nothing() {
    let stage = route(&request(Method::Get, "/abc"));
    let stage = stage.step(Event::SecretRead(None));
    assert!(matches!(&stage, Stage::OpeningVisit { key } if key == "abc"));
    let done = Stage::Failed(Error::UrlNotFoundDev).step(Event::StoreOpened(Opened::Ready));
    assert!(matches!(done, Stage::Failed(Error::UrlNotFoundDev)));
}

#[test]
fn waiting_sessions_have_no_outcome() {
    let session = Session::start(request(Method::Get, "/abc"));
    assert!(matches!(session.pending(), Some(Action::OpenStore(Store::Links))));
    assert!(session.into_outcome().is_none());
}

#[test]
fn keys_are_chosen() {
    let chosen = |fields: &[(&str, &str)]| {
        choose_key(&form(fields), verify_url("https://example.com").unwrap())
    };
    assert!(matches!(chosen(&[]), Stage::OpeningLinks { key, .. } if key == "mW_V8"));
    assert!(matches!(chosen(&[("CKEY", "")]), Stage::OpeningLinks { key, .. } if key == "mW_V8"));
    assert!(matches!(chosen(&[("CKEY", " ")]), Stage::OpeningLinks { key, .. } if key == "-"));
    assert!(matches!(
        chosen(&[("CKEY", "a b"), ("WORDS", "on")]),
        Stage::OpeningLinks { key, .. } if key == "a-b"
    ));
    assert!(matches!(
        chosen(&[("WORDS", "on")]),
        Stage::OpeningWords { url } if url.as_str() == "https://example.com/"
    ));
}

#[test]
fn hit_count_has_a_limit() {
    let mut world = world();
    let written = format!("{}|", u64::MAX).into_bytes();
    world.links.insert(text("k"), Stored { body: text("https://a/"), metadata: Some(written) });
    let mut session = Session::start(request(Method::Get, "/k"));
    for _ in 0..2 {
        let event = world.answer(&[], session.pending().unwrap());
        assert!(session.can_resume(&event));
        session = session.resume(event);
    }
    let event = world.answer(&[], session.pending().unwrap());
    assert!(!session.can_resume(&event));
    assert!(session.can_resume(&Event::MetadataDecoded(Ok(ItemMetadata::default()))));
    assert!(session.can_resume(&Event::MetadataDecoded(Err(text("no metadata")))));
}
