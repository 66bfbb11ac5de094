//! The errors of the service and the messages they are shown with.

use vstd::prelude::*;

verus! {

/// Why a request could not be answered. An error that comes from outside is kept as its message.
#[derive(Debug)]
pub enum Error {
    /// The submitted address is not an absolute URL.
    UrlParse(String),
    /// The submitted form cannot be read.
    Path(String),
    /// The metadata of a link cannot be read from, or written to, its stored form.
    Json(String),
    /// A key-value store failed.
    UrlNotFound(String),
    /// The metadata of a link is not text.
    DecodingUrl(String),
    /// The store of secrets cannot be opened.
    SecretStoreInitialization(String),
    /// A secret cannot be looked up.
    Authentication(String),
    /// A header cannot be read as text.
    HeaderParsing(String),
    /// There is no key-value store of this name.
    StoreNotFound(&'static str),
    /// No link is stored under the key.
    UrlNotFoundDev,
}

/// An `Error` as contracts see it.
pub enum ErrorView {
    UrlParse(Seq<char>),
    Path(Seq<char>),
    Json(Seq<char>),
    UrlNotFound(Seq<char>),
    DecodingUrl(Seq<char>),
    SecretStoreInitialization(Seq<char>),
    Authentication(Seq<char>),
    HeaderParsing(Seq<char>),
    StoreNotFound(Seq<char>),
    UrlNotFoundDev,
}

impl View for Error {
    type V = ErrorView;

    open spec fn view(&self) -> ErrorView {
        match *self {
            Error::UrlParse(e) => ErrorView::UrlParse(e@),
            Error::Path(e) => ErrorView::Path(e@),
            Error::Json(e) => ErrorView::Json(e@),
            Error::UrlNotFound(e) => ErrorView::UrlNotFound(e@),
            Error::DecodingUrl(e) => ErrorView::DecodingUrl(e@),
            Error::SecretStoreInitialization(e) => ErrorView::SecretStoreInitialization(e@),
            Error::Authentication(e) => ErrorView::Authentication(e@),
            Error::HeaderParsing(e) => ErrorView::HeaderParsing(e@),
            Error::StoreNotFound(store) => ErrorView::StoreNotFound(store@),
            Error::UrlNotFoundDev => ErrorView::UrlNotFoundDev,
        }
    }
}

impl ErrorView {
    /// The message that an error is shown with.
    pub open spec fn message(self) -> Seq<char> {
        match self {
            ErrorView::UrlParse(e) => "Error: "@ + e,
            ErrorView::Path(e) => "Error: "@ + e,
            ErrorView::UrlNotFound(e) => "Error: "@ + e,
            ErrorView::DecodingUrl(e) => "Error: "@ + e,
            ErrorView::UrlNotFoundDev => "Url Not Found, this will turn into an action later"@,
            ErrorView::SecretStoreInitialization(e) => "Error: "@ + e,
            ErrorView::Json(e) => "Error (de)serializing json metadata: "@ + e,
            ErrorView::Authentication(e) => "Error: "@ + e,
            ErrorView::HeaderParsing(e) => "Error: "@ + e,
            ErrorView::StoreNotFound(store) => "The "@ + store
                + " store was not found, did you forget to setup?"@,
        }
    }
}

impl Error {
    /// The message that the error is shown with.
    pub fn message(&self) -> (message: String)
        ensures
            message@ == self@.message(),
    {
        match self {
            Error::UrlParse(e) => prefixed("Error: ", e),
            Error::Path(e) => prefixed("Error: ", e),
            Error::UrlNotFound(e) => prefixed("Error: ", e),
            Error::DecodingUrl(e) => prefixed("Error: ", e),
            Error::UrlNotFoundDev => {
                "Url Not Found, this will turn into an action later".to_owned()
            },
            Error::SecretStoreInitialization(e) => prefixed("Error: ", e),
            Error::Json(e) => prefixed("Error (de)serializing json metadata: ", e),
            Error::Authentication(e) => prefixed("Error: ", e),
            Error::HeaderParsing(e) => prefixed("Error: ", e),
            Error::StoreNotFound(store) => prefixed("The ", store).concat(
                " store was not found, did you forget to setup?",
            ),
        }
    }
}

/// `rest` behind `prefix`.
fn prefixed(prefix: &str, rest: &str) -> (text: String)
    ensures
        text@ == prefix@ + rest@,
{
    prefix.to_owned().concat(rest)
}

} // verus!
