//! How a request is served, step by step: what a request waits for, and what it does with the
//! answer.

use vstd::prelude::*;

use crate::error::{Error, ErrorView};
use crate::http::{Asset, ContentType, Method, Request, RequestView, Response, ResponseView};
use crate::links::{find_target, hashed_key, shorten, target, Url};
use crate::metadata::{
    increase_hit_count, item_views, optional_text, Item, ItemMetadata, ItemView, MetadataView,
};
use crate::pages::{admin_page, link_page, write_admin_page, write_link_page};
use crate::store::{
    check_inserted, check_kv_store, check_opened, insertion_error, link_found,
    lookup_memorable_words, metadata_text, opening_error, optional_bytes, read_metadata_text,
    words_found, Inserted, InsertedView, Lookup, LookupView, Opened, OpenedView, Store,
};
use crate::table::Table;
use crate::text::{dashed, remove_slashes, replace_spaces, same_bytes, same_text, texts, without_slashes};

verus! {

// ---------------------------------------------------------------------------------------------
// Events
// ---------------------------------------------------------------------------------------------

/// An answer that a request has waited for.
#[derive(Debug)]
pub enum Event {
    /// The store of secrets was opened, or not, for the reason given.
    SecretsOpened(Result<(), String>),
    /// The form in the body of the request, or why it cannot be read.
    FormRead(Result<Table, String>),
    /// The bytes of the secret, if there is one.
    SecretRead(Option<Vec<u8>>),
    StoreOpened(Opened),
    LookedUp(Lookup),
    Inserted(Inserted),
    /// A page of keys with the cursor to the next one, or why there is none.
    Listed(Result<(Vec<String>, Option<String>), String>),
    /// The metadata bytes of a listed key.
    MetadataRead(Option<Vec<u8>>),
    /// The metadata that a text stands for, or why it stands for none.
    MetadataDecoded(Result<ItemMetadata, String>),
    /// A key of memorable words.
    WordsDrawn(String),
    /// The metadata for a new link.
    Stamped(ItemMetadata),
    /// The list of the most recent links and that of the most visited.
    Ranked(String, String),
}

/// An `Event` as contracts see it.
pub enum EventView {
    SecretsOpened(Result<(), Seq<char>>),
    FormRead(Result<Map<Seq<char>, Seq<char>>, Seq<char>>),
    SecretRead(Option<Seq<u8>>),
    StoreOpened(OpenedView),
    LookedUp(LookupView),
    Inserted(InsertedView),
    Listed(Result<(Seq<Seq<char>>, Option<Seq<char>>), Seq<char>>),
    MetadataRead(Option<Seq<u8>>),
    MetadataDecoded(Result<MetadataView, Seq<char>>),
    WordsDrawn(Seq<char>),
    Stamped(MetadataView),
    Ranked(Seq<char>, Seq<char>),
}

impl View for Event {
    type V = EventView;

    open spec fn view(&self) -> EventView {
        match *self {
            Event::SecretsOpened(Ok(())) => EventView::SecretsOpened(Ok(())),
            Event::SecretsOpened(Err(e)) => EventView::SecretsOpened(Err(e@)),
            Event::FormRead(Ok(form)) => EventView::FormRead(Ok(form@)),
            Event::FormRead(Err(e)) => EventView::FormRead(Err(e@)),
            Event::SecretRead(secret) => EventView::SecretRead(optional_bytes(secret)),
            Event::StoreOpened(opened) => EventView::StoreOpened(opened@),
            Event::LookedUp(lookup) => EventView::LookedUp(lookup@),
            Event::Inserted(inserted) => EventView::Inserted(inserted@),
            Event::Listed(Ok((keys, next))) => EventView::Listed(
                Ok((texts(keys@), optional_text(next))),
            ),
            Event::Listed(Err(e)) => EventView::Listed(Err(e@)),
            Event::MetadataRead(metadata) => EventView::MetadataRead(optional_bytes(metadata)),
            Event::MetadataDecoded(Ok(metadata)) => EventView::MetadataDecoded(Ok(metadata@)),
            Event::MetadataDecoded(Err(e)) => EventView::MetadataDecoded(Err(e@)),
            Event::WordsDrawn(words) => EventView::WordsDrawn(words@),
            Event::Stamped(metadata) => EventView::Stamped(metadata@),
            Event::Ranked(recent, visited) => EventView::Ranked(recent@, visited@),
        }
    }
}

// ---------------------------------------------------------------------------------------------
// Stages
// ---------------------------------------------------------------------------------------------

/// How far a request has come.
#[derive(Debug)]
pub enum Stage {
    /// The request has its answer.
    Answered(Response),
    /// The request failed.
    Failed(Error),
    /// The administrator logs in: the store of secrets is being opened.
    OpeningSecrets,
    /// The form with the administrator's name and password is being read.
    ReadingLogin,
    /// The secret under the name is being read.
    ReadingSecret { username: String, password: Option<String> },
    /// The administrator is let in: the store of links is being opened.
    OpeningListing,
    /// The keys of the links are being listed, page by page.
    Listing { keys: Vec<String>, cursor: Option<String> },
    /// The metadata of the next key is being read.
    ReadingMetadata { keys: Vec<String>, items: Vec<Item> },
    /// The metadata of the next key is being decoded from its text.
    DecodingMetadata { keys: Vec<String>, items: Vec<Item>, text: String },
    /// The links are being ranked.
    Ranking { items: Vec<Item> },
    /// A link is submitted: its form is being read.
    ReadingForm,
    /// The store of memorable words is being opened, to look for the words of the URL.
    OpeningWords { url: Url },
    /// The memorable words of the URL are being looked up.
    FindingWords { url: Url },
    /// New memorable words are being drawn.
    DrawingWords { url: Url },
    /// The metadata for the new words is being made.
    StampingWords { url: Url, words: String },
    /// The store of memorable words is being opened, to keep the new words.
    ReopeningWords { url: Url, words: String, metadata: ItemMetadata },
    /// The new words are being kept.
    SavingWords { url: Url, words: String, metadata: ItemMetadata },
    /// The store of links is being opened, to look for the key.
    OpeningLinks { key: String, url: Url },
    /// The key is being looked up.
    FindingLink { key: String, url: Url },
    /// The metadata for the new link is being made.
    StampingLink { key: String, url: Url },
    /// The store of links is being opened, to keep the new link.
    ReopeningLinks { key: String, url: Url, metadata: ItemMetadata },
    /// The new link is being kept.
    SavingLink { key: String, url: Url, metadata: ItemMetadata },
    /// A link is visited: the store of links is being opened.
    OpeningVisit { key: String },
    /// The key of the visited link is being looked up.
    FindingVisit { key: String },
    /// The metadata of the visited link is being decoded, to count the visit.
    CountingVisit { key: String, location: String, text: String },
    /// The store of links is being opened, to keep the count.
    ReopeningVisit { key: String, location: String, metadata: ItemMetadata },
    /// The count is being kept.
    SavingVisit { key: String, location: String, metadata: ItemMetadata },
}

/// A `Stage` as contracts see it.
pub enum StageView {
    Answered(ResponseView),
    Failed(ErrorView),
    OpeningSecrets,
    ReadingLogin,
    ReadingSecret { username: Seq<char>, password: Option<Seq<char>> },
    OpeningListing,
    Listing { keys: Seq<Seq<char>>, cursor: Option<Seq<char>> },
    ReadingMetadata { keys: Seq<Seq<char>>, items: Seq<ItemView> },
    DecodingMetadata { keys: Seq<Seq<char>>, items: Seq<ItemView>, text: Seq<char> },
    Ranking { items: Seq<ItemView> },
    ReadingForm,
    OpeningWords { url: Seq<char> },
    FindingWords { url: Seq<char> },
    DrawingWords { url: Seq<char> },
    StampingWords { url: Seq<char>, words: Seq<char> },
    ReopeningWords { url: Seq<char>, words: Seq<char>, metadata: MetadataView },
    SavingWords { url: Seq<char>, words: Seq<char>, metadata: MetadataView },
    OpeningLinks { key: Seq<char>, url: Seq<char> },
    FindingLink { key: Seq<char>, url: Seq<char> },
    StampingLink { key: Seq<char>, url: Seq<char> },
    ReopeningLinks { key: Seq<char>, url: Seq<char>, metadata: MetadataView },
    SavingLink { key: Seq<char>, url: Seq<char>, metadata: MetadataView },
    OpeningVisit { key: Seq<char> },
    FindingVisit { key: Seq<char> },
    CountingVisit { key: Seq<char>, location: Seq<char>, text: Seq<char> },
    ReopeningVisit { key: Seq<char>, location: Seq<char>, metadata: MetadataView },
    SavingVisit { key: Seq<char>, location: Seq<char>, metadata: MetadataView },
}

impl View for Stage {
    type V = StageView;

    open spec fn view(&self) -> StageView {
        match *self {
            Stage::Answered(response) => StageView::Answered(response@),
            Stage::Failed(error) => StageView::Failed(error@),
            Stage::OpeningSecrets => StageView::OpeningSecrets,
            Stage::ReadingLogin => StageView::ReadingLogin,
            Stage::ReadingSecret { username, password } => StageView::ReadingSecret {
                username: username@,
                password: optional_text(password),
            },
            Stage::OpeningListing => StageView::OpeningListing,
            Stage::Listing { keys, cursor } => StageView::Listing {
                keys: texts(keys@),
                cursor: optional_text(cursor),
            },
            Stage::ReadingMetadata { keys, items } => StageView::ReadingMetadata {
                keys: texts(keys@),
                items: item_views(items@),
            },
            Stage::DecodingMetadata { keys, items, text } => StageView::DecodingMetadata {
                keys: texts(keys@),
                items: item_views(items@),
                text: text@,
            },
            Stage::Ranking { items } => StageView::Ranking { items: item_views(items@) },
            Stage::ReadingForm => StageView::ReadingForm,
            Stage::OpeningWords { url } => StageView::OpeningWords { url: url@ },
            Stage::FindingWords { url } => StageView::FindingWords { url: url@ },
            Stage::DrawingWords { url } => StageView::DrawingWords { url: url@ },
            Stage::StampingWords { url, words } => StageView::StampingWords {
                url: url@,
                words: words@,
            },
            Stage::ReopeningWords { url, words, metadata } => StageView::ReopeningWords {
                url: url@,
                words: words@,
                metadata: metadata@,
            },
            Stage::SavingWords { url, words, metadata } => StageView::SavingWords {
                url: url@,
                words: words@,
                metadata: metadata@,
            },
            Stage::OpeningLinks { key, url } => StageView::OpeningLinks { key: key@, url: url@ },
            Stage::FindingLink { key, url } => StageView::FindingLink { key: key@, url: url@ },
            Stage::StampingLink { key, url } => StageView::StampingLink { key: key@, url: url@ },
            Stage::ReopeningLinks { key, url, metadata } => StageView::ReopeningLinks {
                key: key@,
                url: url@,
                metadata: metadata@,
            },
            Stage::SavingLink { key, url, metadata } => StageView::SavingLink {
                key: key@,
                url: url@,
                metadata: metadata@,
            },
            Stage::OpeningVisit { key } => StageView::OpeningVisit { key: key@ },
            Stage::FindingVisit { key } => StageView::FindingVisit { key: key@ },
            Stage::CountingVisit { key, location, text } => StageView::CountingVisit {
                key: key@,
                location: location@,
                text: text@,
            },
            Stage::ReopeningVisit { key, location, metadata } => StageView::ReopeningVisit {
                key: key@,
                location: location@,
                metadata: metadata@,
            },
            Stage::SavingVisit { key, location, metadata } => StageView::SavingVisit {
                key: key@,
                location: location@,
                metadata: metadata@,
            },
        }
    }
}

// ---------------------------------------------------------------------------------------------
// The first stage
// ---------------------------------------------------------------------------------------------

/// The stage that a request starts in: only GET and POST are let through, and the path decides
/// what is asked for. Any path that is not one of the service's own is a visit to a link.
pub open spec fn first_stage(request: RequestView) -> StageView {
    if request.method is Other {
        StageView::Answered(ResponseView::method_not_allowed())
    } else if request.path == "/"@ {
        StageView::Answered(ResponseView::file(200, ContentType::Html, Asset::Index))
    } else if request.path == "/style.css"@ {
        StageView::Answered(ResponseView::file(200, ContentType::Css, Asset::Style))
    } else if request.path == "/favicon.ico"@ {
        StageView::Answered(ResponseView::file(200, ContentType::Png, Asset::Favicon))
    } else if request.path == "/admin"@ {
        StageView::Answered(ResponseView::file(200, ContentType::Html, Asset::Admin))
    } else if request.path == "/admin-response"@ {
        StageView::OpeningSecrets
    } else if request.path == "/process"@ {
        StageView::ReadingForm
    } else {
        StageView::OpeningVisit { key: without_slashes(request.path) }
    }
}

/// The stage that a request starts in.
pub fn route(request: &Request) -> (stage: Stage)
    ensures
        stage@ == first_stage(request@),
{
    match request.method {
        Method::Get | Method::Post => {},
        Method::Other => return Stage::Answered(Response::method_not_allowed()),
    }
    let path: &str = request.path.as_str();
    if same_text(path, "/") {
        Stage::Answered(Response::file(200, ContentType::Html, Asset::Index))
    } else if same_text(path, "/style.css") {
        Stage::Answered(Response::file(200, ContentType::Css, Asset::Style))
    } else if same_text(path, "/favicon.ico") {
        Stage::Answered(Response::file(200, ContentType::Png, Asset::Favicon))
    } else if same_text(path, "/admin") {
        Stage::Answered(Response::file(200, ContentType::Html, Asset::Admin))
    } else if same_text(path, "/admin-response") {
        Stage::OpeningSecrets
    } else if same_text(path, "/process") {
        Stage::ReadingForm
    } else {
        Stage::OpeningVisit { key: remove_slashes(path) }
    }
}

// ---------------------------------------------------------------------------------------------
// The next stage
// ---------------------------------------------------------------------------------------------

/// The text under a name in a form.
pub open spec fn field(form: Map<Seq<char>, Seq<char>>, name: Seq<char>) -> Option<Seq<char>> {
    if form.dom().contains(name) {
        Some(form[name])
    } else {
        None
    }
}

/// The key that the link of a form is asked to be kept under. A custom key that is not empty is
/// preferred, with dashes for spaces; then memorable words, if they are asked for; otherwise the
/// key is the hash of the URL.
pub open spec fn keyed(form: Map<Seq<char>, Seq<char>>, url: Seq<char>) -> StageView {
    match field(form, "CKEY"@) {
        Some(key) if key.len() > 0 => StageView::OpeningLinks { key: dashed(key), url },
        _ => if form.dom().contains("WORDS"@) {
            StageView::OpeningWords { url }
        } else {
            StageView::OpeningLinks { key: hashed_key(url), url }
        },
    }
}

/// Chooses the key that the link of a form is to be kept under.
pub fn choose_key(form: &Table, url: Url) -> (stage: Stage)
    ensures
        stage@ == keyed(form@, url@),
{
    match form.get("CKEY") {
        Some(key) => {
            if !key.as_str().is_empty() {
                return Stage::OpeningLinks { key: replace_spaces(key.as_str()), url };
            }
        },
        None => {},
    }
    if form.contains_key("WORDS") {
        Stage::OpeningWords { url }
    } else {
        let key: String = shorten(&url);
        Stage::OpeningLinks { key, url }
    }
}

/// What a submitted form leads to. The URL is required; its query is stripped only if that is
/// asked for.
pub open spec fn submitted(form: Map<Seq<char>, Seq<char>>) -> StageView {
    match field(form, "URL"@) {
        None => StageView::Answered(ResponseView::bare(400)),
        Some(input) => match target(input, form.dom().contains("STRIP"@)) {
            Err(message) => StageView::Failed(ErrorView::UrlParse(message)),
            Ok(url) => keyed(form, url),
        },
    }
}

/// Reads a submitted form.
pub fn submit(form: &Table) -> (stage: Stage)
    ensures
        stage@ == submitted(form@),
{
    let input: &String = match form.get("URL") {
        Some(input) => input,
        None => return Stage::Answered(Response::bare(400)),
    };
    match find_target(input.as_str(), form.contains_key("STRIP")) {
        Ok(url) => choose_key(form, url),
        Err(error) => Stage::Failed(error),
    }
}

/// What the form with the administrator's name and password leads to.
pub open spec fn logging_in(form: Map<Seq<char>, Seq<char>>) -> StageView {
    match field(form, "username"@) {
        None => StageView::Answered(ResponseView::bare(401)),
        Some(username) => StageView::ReadingSecret { username, password: field(form, "password"@) },
    }
}

/// Reads the form with the administrator's name and password.
pub fn log_in(form: &Table) -> (stage: Stage)
    ensures
        stage@ == logging_in(form@),
{
    let username: String = match form.get("username") {
        Some(username) => username.clone(),
        None => return Stage::Answered(Response::bare(401)),
    };
    let password: Option<String> = match form.get("password") {
        Some(password) => Some(password.clone()),
        None => None,
    };
    Stage::ReadingSecret { username, password }
}

/// Whether the administrator is let in: there is a secret, and it is the password.
pub open spec fn admitted(secret: Option<Seq<u8>>, password: Option<Seq<char>>) -> bool {
    match (secret, password) {
        (Some(secret), Some(password)) => secret == vstd::utf8::encode_utf8(password),
        _ => false,
    }
}

/// Whether the administrator is let in.
pub fn authenticate(secret: &Option<Vec<u8>>, password: &Option<String>) -> (authentic: bool)
    ensures
        authentic == admitted(optional_bytes(*secret), optional_text(*password)),
{
    match (secret, password) {
        (Some(secret), Some(password)) => same_bytes(
            secret.as_slice(),
            password.as_str().as_bytes(),
        ),
        _ => false,
    }
}

/// The stage after the metadata of the first `items.len()` keys is known.
pub open spec fn next_metadata(keys: Seq<Seq<char>>, items: Seq<ItemView>) -> StageView {
    if items.len() < keys.len() {
        StageView::ReadingMetadata { keys, items }
    } else {
        StageView::Ranking { items }
    }
}

/// The stage after the metadata of the first `items.len()` keys is known.
fn after_metadata(keys: Vec<String>, items: Vec<Item>) -> (stage: Stage)
    ensures
        stage@ == next_metadata(texts(keys@), item_views(items@)),
{
    if items.len() < keys.len() {
        Stage::ReadingMetadata { keys, items }
    } else {
        Stage::Ranking { items }
    }
}

impl StageView {
    /// The stage after an event. An event that the stage does not wait for changes nothing.
    pub open spec fn step(self, event: EventView) -> StageView {
        match (self, event) {
            // The administrator's page
            (StageView::OpeningSecrets, EventView::SecretsOpened(Ok(()))) => StageView::ReadingLogin,
            (StageView::OpeningSecrets, EventView::SecretsOpened(Err(e))) => StageView::Failed(
                ErrorView::SecretStoreInitialization(e),
            ),
            (StageView::ReadingLogin, EventView::FormRead(Ok(form))) => logging_in(form),
            (StageView::ReadingLogin, EventView::FormRead(Err(e))) => StageView::Failed(
                ErrorView::Path(e),
            ),
            (StageView::ReadingSecret { username: _, password }, EventView::SecretRead(secret)) => {
                if admitted(secret, password) {
                    StageView::OpeningListing
                } else {
                    StageView::Answered(ResponseView::bare(401))
                }
            },
            (StageView::OpeningListing, EventView::StoreOpened(opened)) => {
                match opening_error(Store::Links, opened) {
                    None => StageView::Listing { keys: Seq::empty(), cursor: None },
                    Some(error) => StageView::Failed(error),
                }
            },
            (StageView::Listing { keys, cursor: _ }, EventView::Listed(Ok((page, next)))) => {
                match next {
                    Some(cursor) => StageView::Listing { keys: keys + page, cursor: Some(cursor) },
                    None => next_metadata(keys + page, Seq::empty()),
                }
            },
            (StageView::Listing { .. }, EventView::Listed(Err(e))) => StageView::Failed(
                ErrorView::UrlNotFound(e),
            ),
            (StageView::ReadingMetadata { keys, items }, EventView::MetadataRead(metadata)) => {
                StageView::DecodingMetadata {
                    keys,
                    items,
                    text: match metadata_text(metadata) {
                        Ok(text) => text,
                        Err(_) => Seq::empty(),
                    },
                }
            },
            (
                StageView::DecodingMetadata { keys, items, text: _ },
                EventView::MetadataDecoded(decoded),
            ) => next_metadata(
                keys,
                items.push(
                    ItemView {
                        key: keys[items.len() as int],
                        metadata: match decoded {
                            Ok(metadata) => metadata,
                            Err(_) => MetadataView::blank(),
                        },
                    },
                ),
            ),
            (StageView::Ranking { .. }, EventView::Ranked(recent, visited)) => StageView::Answered(
                ResponseView::page(admin_page(recent, visited)),
            ),
            // A submitted link
            (StageView::ReadingForm, EventView::FormRead(Ok(form))) => submitted(form),
            (StageView::ReadingForm, EventView::FormRead(Err(e))) => StageView::Failed(
                ErrorView::Path(e),
            ),
            (StageView::OpeningWords { url }, EventView::StoreOpened(opened)) => {
                match opening_error(Store::Words, opened) {
                    None => StageView::FindingWords { url },
                    Some(error) => StageView::Failed(error),
                }
            },
            (StageView::FindingWords { url }, EventView::LookedUp(lookup)) => {
                match words_found(lookup) {
                    Ok(Some(words)) => StageView::OpeningLinks { key: words, url },
                    Ok(None) => StageView::DrawingWords { url },
                    Err(error) => StageView::Failed(error),
                }
            },
            (StageView::DrawingWords { url }, EventView::WordsDrawn(words)) => {
                StageView::StampingWords { url, words }
            },
            (StageView::StampingWords { url, words }, EventView::Stamped(metadata)) => {
                StageView::ReopeningWords { url, words, metadata }
            },
            (
                StageView::ReopeningWords { url, words, metadata },
                EventView::StoreOpened(opened),
            ) => match opening_error(Store::Words, opened) {
                None => StageView::SavingWords { url, words, metadata },
                Some(error) => StageView::Failed(error),
            },
            (
                StageView::SavingWords { url, words, metadata: _ },
                EventView::Inserted(inserted),
            ) => match insertion_error(inserted) {
                None => StageView::OpeningLinks { key: words, url },
                Some(error) => StageView::Failed(error),
            },
            (StageView::OpeningLinks { key, url }, EventView::StoreOpened(opened)) => {
                match opening_error(Store::Links, opened) {
                    None => StageView::FindingLink { key, url },
                    Some(error) => StageView::Failed(error),
                }
            },
            (StageView::FindingLink { key, url }, EventView::LookedUp(lookup)) => {
                match link_found(lookup) {
                    Ok(stored) => StageView::Answered(
                        ResponseView::page(link_page(key, stored.body)),
                    ),
                    Err(ErrorView::UrlNotFoundDev) => StageView::StampingLink { key, url },
                    Err(error) => StageView::Failed(error),
                }
            },
            (StageView::StampingLink { key, url }, EventView::Stamped(metadata)) => {
                StageView::ReopeningLinks { key, url, metadata }
            },
            (
                StageView::ReopeningLinks { key, url, metadata },
                EventView::StoreOpened(opened),
            ) => match opening_error(Store::Links, opened) {
                None => StageView::SavingLink { key, url, metadata },
                Some(_) => StageView::Answered(ResponseView::page(link_page(key, url))),
            },
            (StageView::SavingLink { key, url, metadata: _ }, EventView::Inserted(_)) => {
                StageView::Answered(ResponseView::page(link_page(key, url)))
            },
            // A visited link
            (StageView::OpeningVisit { key }, EventView::StoreOpened(opened)) => {
                match opening_error(Store::Links, opened) {
                    None => StageView::FindingVisit { key },
                    Some(_) => StageView::Answered(ResponseView::not_found()),
                }
            },
            (StageView::FindingVisit { key }, EventView::LookedUp(lookup)) => {
                match link_found(lookup) {
                    Ok(stored) => match stored.metadata {
                        None => StageView::ReopeningVisit {
                            key,
                            location: stored.body,
                            metadata: MetadataView::blank().with_hit(),
                        },
                        Some(_) => match metadata_text(stored.metadata) {
                            Ok(text) => StageView::CountingVisit {
                                key,
                                location: stored.body,
                                text,
                            },
                            Err(error) => StageView::Failed(error),
                        },
                    },
                    Err(_) => StageView::Answered(ResponseView::not_found()),
                }
            },
            (
                StageView::CountingVisit { key, location, text: _ },
                EventView::MetadataDecoded(Ok(metadata)),
            ) => StageView::ReopeningVisit { key, location, metadata: metadata.with_hit() },
            (StageView::CountingVisit { .. }, EventView::MetadataDecoded(Err(e))) => {
                StageView::Failed(ErrorView::Json(e))
            },
            (
                StageView::ReopeningVisit { key, location, metadata },
                EventView::StoreOpened(opened),
            ) => match opening_error(Store::Links, opened) {
                None => StageView::SavingVisit { key, location, metadata },
                Some(error) => StageView::Failed(error),
            },
            (
                StageView::SavingVisit { key: _, location, metadata: _ },
                EventView::Inserted(inserted),
            ) => match insertion_error(inserted) {
                None => StageView::Answered(ResponseView::redirect(location)),
                Some(error) => StageView::Failed(error),
            },
            _ => self,
        }
    }

    /// Whether the stage can go on with the event: a visit can be counted only while the count
    /// fits its type.
    pub open spec fn can_step(self, event: EventView) -> bool {
        match (self, event) {
            (StageView::CountingVisit { .. }, EventView::MetadataDecoded(Ok(metadata))) => {
                metadata.hit_count < u64::MAX
            },
            _ => true,
        }
    }

    /// Whether the items that are known so far are those of the first listed keys, with at least
    /// one key still to come.
    pub open spec fn well_formed(self) -> bool {
        match self {
            StageView::ReadingMetadata { keys, items } => is_begun(keys, items),
            StageView::DecodingMetadata { keys, items, text: _ } => is_begun(keys, items),
            _ => true,
        }
    }
}

/// Whether the items are those of the first keys, but not of all.
pub open spec fn is_begun(keys: Seq<Seq<char>>, items: Seq<ItemView>) -> bool {
    &&& items.len() < keys.len()
    &&& forall|i: int| 0 <= i < items.len() ==> (#[trigger] items[i]).key == keys[i]
}

impl Stage {
    /// Whether the stage can go on with the event.
    pub fn can_go_on(&self, event: &Event) -> (possible: bool)
        ensures
            possible == self@.can_step(event@),
    {
        match (self, event) {
            (Stage::CountingVisit { .. }, Event::MetadataDecoded(Ok(metadata))) => {
                metadata.hit_count < u64::MAX
            },
            _ => true,
        }
    }

    /// Goes on to the next stage with an event. An event that the stage does not wait for changes
    /// nothing.
    pub fn step(self, event: Event) -> (next: Stage)
        requires
            self@.well_formed(),
            self@.can_step(event@),
        ensures
            next@ == self@.step(event@),
            next@.well_formed(),
    {
        match (self, event) {
            // The administrator's page
            (Stage::OpeningSecrets, Event::SecretsOpened(Ok(()))) => Stage::ReadingLogin,
            (Stage::OpeningSecrets, Event::SecretsOpened(Err(e))) => Stage::Failed(
                Error::SecretStoreInitialization(e),
            ),
            (Stage::ReadingLogin, Event::FormRead(Ok(form))) => log_in(&form),
            (Stage::ReadingLogin, Event::FormRead(Err(e))) => Stage::Failed(Error::Path(e)),
            (Stage::ReadingSecret { username: _, password }, Event::SecretRead(secret)) => {
                if authenticate(&secret, &password) {
                    Stage::OpeningListing
                } else {
                    Stage::Answered(Response::bare(401))
                }
            },
            (Stage::OpeningListing, Event::StoreOpened(opened)) => {
                match check_opened(Store::Links, opened) {
                    Ok(()) => {
                        let keys: Vec<String> = Vec::new();
                        proof {
                            assert(texts(keys@) =~= Seq::empty());
                        }
                        Stage::Listing { keys, cursor: None }
                    },
                    Err(error) => Stage::Failed(error),
                }
            },
            (Stage::Listing { keys, cursor: _ }, Event::Listed(Ok((page, next)))) => {
                let mut keys: Vec<String> = keys;
                let mut page: Vec<String> = page;
                let ghost listed = texts(keys@) + texts(page@);
                keys.append(&mut page);
                proof {
                    assert(texts(keys@) =~= listed);
                }
                match next {
                    Some(cursor) => Stage::Listing { keys, cursor: Some(cursor) },
                    None => {
                        let items: Vec<Item> = Vec::new();
                        proof {
                            assert(item_views(items@) =~= Seq::empty());
                        }
                        after_metadata(keys, items)
                    },
                }
            },
            (Stage::Listing { .. }, Event::Listed(Err(e))) => Stage::Failed(
                Error::UrlNotFound(e),
            ),
            (Stage::ReadingMetadata { keys, items }, Event::MetadataRead(metadata)) => {
                let text: String = match read_metadata_text(metadata) {
                    Ok(text) => text,
                    Err(_) => String::new(),
                };
                Stage::DecodingMetadata { keys, items, text }
            },
            (
                Stage::DecodingMetadata { keys, items, text: _ },
                Event::MetadataDecoded(decoded),
            ) => {
                let mut items: Vec<Item> = items;
                let metadata: ItemMetadata = match decoded {
                    Ok(metadata) => metadata,
                    Err(_) => ItemMetadata::default(),
                };
                let item: Item = Item { key: keys[items.len()].clone(), metadata };
                let ghost views = item_views(items@).push(item@);
                items.push(item);
                proof {
                    assert(item_views(items@) =~= views);
                }
                after_metadata(keys, items)
            },
            (Stage::Ranking { .. }, Event::Ranked(recent, visited)) => Stage::Answered(
                Response::page(write_admin_page(recent.as_str(), visited.as_str())),
            ),
            // A submitted link
            (Stage::ReadingForm, Event::FormRead(Ok(form))) => submit(&form),
            (Stage::ReadingForm, Event::FormRead(Err(e))) => Stage::Failed(Error::Path(e)),
            (Stage::OpeningWords { url }, Event::StoreOpened(opened)) => {
                match check_opened(Store::Words, opened) {
                    Ok(()) => Stage::FindingWords { url },
                    Err(error) => Stage::Failed(error),
                }
            },
            (Stage::FindingWords { url }, Event::LookedUp(lookup)) => {
                match lookup_memorable_words(lookup) {
                    Ok(Some(words)) => Stage::OpeningLinks { key: words, url },
                    Ok(None) => Stage::DrawingWords { url },
                    Err(error) => Stage::Failed(error),
                }
            },
            (Stage::DrawingWords { url }, Event::WordsDrawn(words)) => {
                Stage::StampingWords { url, words }
            },
            (Stage::StampingWords { url, words }, Event::Stamped(metadata)) => {
                Stage::ReopeningWords { url, words, metadata }
            },
            (Stage::ReopeningWords { url, words, metadata }, Event::StoreOpened(opened)) => {
                match check_opened(Store::Words, opened) {
                    Ok(()) => Stage::SavingWords { url, words, metadata },
                    Err(error) => Stage::Failed(error),
                }
            },
            (Stage::SavingWords { url, words, metadata: _ }, Event::Inserted(inserted)) => {
                match check_inserted(inserted) {
                    Ok(()) => Stage::OpeningLinks { key: words, url },
                    Err(error) => Stage::Failed(error),
                }
            },
            (Stage::OpeningLinks { key, url }, Event::StoreOpened(opened)) => {
                match check_opened(Store::Links, opened) {
                    Ok(()) => Stage::FindingLink { key, url },
                    Err(error) => Stage::Failed(error),
                }
            },
            (Stage::FindingLink { key, url }, Event::LookedUp(lookup)) => {
                match check_kv_store(lookup) {
                    Ok(stored) => Stage::Answered(
                        Response::page(write_link_page(key.as_str(), stored.body.as_str())),
                    ),
                    Err(Error::UrlNotFoundDev) => Stage::StampingLink { key, url },
                    Err(error) => Stage::Failed(error),
                }
            },
            (Stage::StampingLink { key, url }, Event::Stamped(metadata)) => {
                Stage::ReopeningLinks { key, url, metadata }
            },
            (Stage::ReopeningLinks { key, url, metadata }, Event::StoreOpened(opened)) => {
                match check_opened(Store::Links, opened) {
                    Ok(()) => Stage::SavingLink { key, url, metadata },
                    // The link is shown even where it could not be kept.
                    Err(_) => Stage::Answered(
                        Response::page(write_link_page(key.as_str(), url.as_str())),
                    ),
                }
            },
            (Stage::SavingLink { key, url, metadata: _ }, Event::Inserted(_)) => Stage::Answered(
                Response::page(write_link_page(key.as_str(), url.as_str())),
            ),
            // A visited link
            (Stage::OpeningVisit { key }, Event::StoreOpened(opened)) => {
                match check_opened(Store::Links, opened) {
                    Ok(()) => Stage::FindingVisit { key },
                    Err(_) => Stage::Answered(Response::not_found()),
                }
            },
            (Stage::FindingVisit { key }, Event::LookedUp(lookup)) => {
                match check_kv_store(lookup) {
                    Ok(stored) => match stored.metadata {
                        // An item without metadata is no failure: its count starts here.
                        None => {
                            let mut metadata: ItemMetadata = ItemMetadata::default();
                            increase_hit_count(&mut metadata);
                            Stage::ReopeningVisit { key, location: stored.body, metadata }
                        },
                        Some(bytes) => match read_metadata_text(Some(bytes)) {
                            Ok(text) => Stage::CountingVisit { key, location: stored.body, text },
                            Err(error) => Stage::Failed(error),
                        },
                    },
                    Err(_) => Stage::Answered(Response::not_found()),
                }
            },
            (
                Stage::CountingVisit { key, location, text: _ },
                Event::MetadataDecoded(Ok(metadata)),
            ) => {
                let mut metadata: ItemMetadata = metadata;
                increase_hit_count(&mut metadata);
                Stage::ReopeningVisit { key, location, metadata }
            },
            (Stage::CountingVisit { .. }, Event::MetadataDecoded(Err(e))) => Stage::Failed(
                Error::Json(e),
            ),
            (Stage::ReopeningVisit { key, location, metadata }, Event::StoreOpened(opened)) => {
                match check_opened(Store::Links, opened) {
                    Ok(()) => Stage::SavingVisit { key, location, metadata },
                    Err(error) => Stage::Failed(error),
                }
            },
            (Stage::SavingVisit { key: _, location, metadata: _ }, Event::Inserted(inserted)) => {
                match check_inserted(inserted) {
                    Ok(()) => Stage::Answered(Response::redirect(location)),
                    Err(error) => Stage::Failed(error),
                }
            },
            (stage, _) => stage,
        }
    }
}

} // verus!
