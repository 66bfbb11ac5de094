//! What is read off the answers of the key-value stores.

use vstd::prelude::*;

use crate::error::{Error, ErrorView};
use crate::outside::{decode_utf8, utf8_error};

verus! {

/// The name of the store of links.
pub const URL_STORE: &'static str = "urls";

/// The name of the store of memorable words.
pub const MEMORABLE_WORD_STORE: &'static str = "memorable_words";

/// The name of the store of secrets.
pub const URL_ADMIN_SECRET: &'static str = "url_admin";

/// A key-value store of the service.
#[derive(Clone, Copy, Debug, PartialEq, Eq, Structural)]
pub enum Store {
    /// Links by key.
    Links,
    /// Memorable words by URL.
    Words,
}

impl Store {
    /// The name that the store is opened by.
    pub open spec fn spec_name(self) -> Seq<char> {
        match self {
            Store::Links => URL_STORE@,
            Store::Words => MEMORABLE_WORD_STORE@,
        }
    }

    /// The name that the store is opened by.
    pub fn name(self) -> (name: &'static str)
        ensures
            name@ == self.spec_name(),
    {
        match self {
            Store::Links => URL_STORE,
            Store::Words => MEMORABLE_WORD_STORE,
        }
    }
}

/// How the opening of a store went.
#[derive(Clone, Debug)]
pub enum Opened {
    Ready,
    /// There is no such store.
    Absent,
    /// The store could not be opened, for the reason given.
    Failed(String),
}

/// An `Opened` as contracts see it.
pub enum OpenedView {
    Ready,
    Absent,
    Failed(Seq<char>),
}

impl View for Opened {
    type V = OpenedView;

    open spec fn view(&self) -> OpenedView {
        match *self {
            Opened::Ready => OpenedView::Ready,
            Opened::Absent => OpenedView::Absent,
            Opened::Failed(e) => OpenedView::Failed(e@),
        }
    }
}

/// The error of an opening that did not succeed.
pub open spec fn opening_error(store: Store, opened: OpenedView) -> Option<ErrorView> {
    match opened {
        OpenedView::Ready => None,
        OpenedView::Absent => Some(ErrorView::StoreNotFound(store.spec_name())),
        OpenedView::Failed(e) => Some(ErrorView::UrlNotFound(e)),
    }
}

/// Reads the answer to the opening of `store`: the error, where it did not succeed.
pub fn check_opened(store: Store, opened: Opened) -> (checked: Result<(), Error>)
    ensures
        match checked {
            Ok(()) => opening_error(store, opened@) is None,
            Err(error) => opening_error(store, opened@) == Some(error@),
        },
{
    match opened {
        Opened::Ready => Ok(()),
        Opened::Absent => Err(Error::StoreNotFound(store.name())),
        Opened::Failed(e) => Err(Error::UrlNotFound(e)),
    }
}

/// A stored item: its text and the bytes of its metadata, if it has any.
#[derive(Clone, Debug)]
pub struct Stored {
    pub body: String,
    pub metadata: Option<Vec<u8>>,
}

/// A `Stored` as contracts see it.
pub struct StoredView {
    pub body: Seq<char>,
    pub metadata: Option<Seq<u8>>,
}

/// The bytes of optional metadata.
pub open spec fn optional_bytes(bytes: Option<Vec<u8>>) -> Option<Seq<u8>> {
    match bytes {
        Some(bytes) => Some(bytes@),
        None => None,
    }
}

impl View for Stored {
    type V = StoredView;

    open spec fn view(&self) -> StoredView {
        StoredView { body: self.body@, metadata: optional_bytes(self.metadata) }
    }
}

/// How the lookup of a key went.
#[derive(Clone, Debug)]
pub enum Lookup {
    Found(Stored),
    /// Nothing is stored under the key.
    Missing,
    /// The lookup failed, for the reason given.
    Failed(String),
}

/// A `Lookup` as contracts see it.
pub enum LookupView {
    Found(StoredView),
    Missing,
    Failed(Seq<char>),
}

impl View for Lookup {
    type V = LookupView;

    open spec fn view(&self) -> LookupView {
        match *self {
            Lookup::Found(stored) => LookupView::Found(stored@),
            Lookup::Missing => LookupView::Missing,
            Lookup::Failed(e) => LookupView::Failed(e@),
        }
    }
}

/// What the lookup of a link comes to: the item, or the error. That there is no item is an error
/// of its own.
pub open spec fn link_found(lookup: LookupView) -> Result<StoredView, ErrorView> {
    match lookup {
        LookupView::Found(stored) => Ok(stored),
        LookupView::Missing => Err(ErrorView::UrlNotFoundDev),
        LookupView::Failed(e) => Err(ErrorView::UrlNotFound(e)),
    }
}

/// Reads the answer to the lookup of a link: if it exists, the item with its full URL.
pub fn check_kv_store(lookup: Lookup) -> (checked: Result<Stored, Error>)
    ensures
        match checked {
            Ok(stored) => link_found(lookup@) == Ok::<StoredView, ErrorView>(stored@),
            Err(error) => link_found(lookup@) == Err::<StoredView, ErrorView>(error@),
        },
{
    match lookup {
        Lookup::Found(stored) => Ok(stored),
        Lookup::Missing => Err(Error::UrlNotFoundDev),
        Lookup::Failed(e) => Err(Error::UrlNotFound(e)),
    }
}

/// What the lookup of a URL's memorable words comes to: the words, nothing where the URL has none
/// yet or the stored text is empty, or the error.
pub open spec fn words_found(lookup: LookupView) -> Result<Option<Seq<char>>, ErrorView> {
    match lookup {
        LookupView::Found(stored) => Ok(
            if stored.body.len() == 0 {
                None
            } else {
                Some(stored.body)
            },
        ),
        LookupView::Missing => Ok(None),
        LookupView::Failed(e) => Err(ErrorView::UrlNotFound(e)),
    }
}

/// Reads the answer to the lookup of a URL's memorable words.
pub fn lookup_memorable_words(lookup: Lookup) -> (words: Result<Option<String>, Error>)
    ensures
        match words {
            Ok(Some(words)) => words_found(lookup@) == Ok::<Option<Seq<char>>, ErrorView>(
                Some(words@),
            ),
            Ok(None) => words_found(lookup@) == Ok::<Option<Seq<char>>, ErrorView>(None),
            Err(error) => words_found(lookup@) == Err::<Option<Seq<char>>, ErrorView>(error@),
        },
{
    match lookup {
        Lookup::Found(stored) => {
            if stored.body.as_str().is_empty() {
                Ok(None)
            } else {
                Ok(Some(stored.body))
            }
        },
        Lookup::Missing => Ok(None),
        Lookup::Failed(e) => Err(Error::UrlNotFound(e)),
    }
}

/// How the insertion of an item went.
#[derive(Debug)]
pub enum Inserted {
    Done,
    /// The metadata could not be written down, for the reason given.
    Unwritable(String),
    /// The insertion failed, for the reason given.
    Failed(String),
}

/// An `Inserted` as contracts see it.
pub enum InsertedView {
    Done,
    Unwritable(Seq<char>),
    Failed(Seq<char>),
}

impl View for Inserted {
    type V = InsertedView;

    open spec fn view(&self) -> InsertedView {
        match *self {
            Inserted::Done => InsertedView::Done,
            Inserted::Unwritable(e) => InsertedView::Unwritable(e@),
            Inserted::Failed(e) => InsertedView::Failed(e@),
        }
    }
}

/// The error of an insertion that did not succeed.
pub open spec fn insertion_error(inserted: InsertedView) -> Option<ErrorView> {
    match inserted {
        InsertedView::Done => None,
        InsertedView::Unwritable(e) => Some(ErrorView::Json(e)),
        InsertedView::Failed(e) => Some(ErrorView::UrlNotFound(e)),
    }
}

/// Reads the answer to an insertion: the error, where it did not succeed.
pub fn check_inserted(inserted: Inserted) -> (checked: Result<(), Error>)
    ensures
        match checked {
            Ok(()) => insertion_error(inserted@) is None,
            Err(error) => insertion_error(inserted@) == Some(error@),
        },
{
    match inserted {
        Inserted::Done => Ok(()),
        Inserted::Unwritable(e) => Err(Error::Json(e)),
        Inserted::Failed(e) => Err(Error::UrlNotFound(e)),
    }
}

/// The bytes of an item's metadata, of which there are none where it has no metadata.
pub open spec fn metadata_bytes(metadata: Option<Seq<u8>>) -> Seq<u8> {
    match metadata {
        Some(bytes) => bytes,
        None => Seq::empty(),
    }
}

/// The text of an item's metadata, or the error where it is not text.
pub open spec fn metadata_text(metadata: Option<Seq<u8>>) -> Result<Seq<char>, ErrorView> {
    let bytes = metadata_bytes(metadata);
    if vstd::utf8::valid_utf8(bytes) {
        Ok(vstd::utf8::decode_utf8(bytes))
    } else {
        Err(ErrorView::DecodingUrl(utf8_error(bytes)))
    }
}

/// Reads the bytes of an item's metadata as text.
pub fn read_metadata_text(metadata: Option<Vec<u8>>) -> (text: Result<String, Error>)
    ensures
        match text {
            Ok(text) => metadata_text(optional_bytes(metadata)) == Ok::<Seq<char>, ErrorView>(
                text@,
            ),
            Err(error) => metadata_text(optional_bytes(metadata)) == Err::<Seq<char>, ErrorView>(
                error@,
            ),
        },
{
    let bytes: Vec<u8> = match metadata {
        Some(bytes) => bytes,
        None => Vec::new(),
    };
    match decode_utf8(bytes) {
        Ok(text) => Ok(text),
        Err(message) => Err(Error::DecodingUrl(message)),
    }
}

} // verus!
