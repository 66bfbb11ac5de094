//! Requests and responses, as far as the service looks at them.

use vstd::prelude::*;

use crate::metadata::{header_views, optional_text, Header};

verus! {

/// The method of a request.
#[derive(Clone, Copy, Debug, PartialEq, Eq, Structural)]
pub enum Method {
    Get,
    Post,
    /// Any other method.
    Other,
}

/// A request without its body.
#[derive(Debug)]
pub struct Request {
    pub method: Method,
    pub path: String,
    pub headers: Vec<Header>,
}

/// A `Request` as contracts see it.
pub struct RequestView {
    pub method: Method,
    pub path: Seq<char>,
    pub headers: Seq<(Seq<char>, Seq<u8>)>,
}

impl View for Request {
    type V = RequestView;

    open spec fn view(&self) -> RequestView {
        RequestView {
            method: self.method,
            path: self.path@,
            headers: header_views(self.headers@),
        }
    }
}

/// A file that is served as it is.
#[derive(Clone, Copy, Debug, PartialEq, Eq, Structural)]
pub enum Asset {
    /// The page with the form to shorten a link.
    Index,
    /// The style sheet of all pages.
    Style,
    /// The icon.
    Favicon,
    /// The page with the form to log in.
    Admin,
    /// The page for keys that lead nowhere.
    NotFound,
}

/// The content type of a response.
#[derive(Clone, Copy, Debug, PartialEq, Eq, Structural)]
pub enum ContentType {
    /// `text/plain; charset=utf-8`
    Plain,
    /// `text/html; charset=utf-8`
    Html,
    /// `text/css`
    Css,
    /// `image/png`
    Png,
}

/// The body of a response.
#[derive(Debug)]
pub enum Body {
    Empty,
    Text(String),
    File(Asset),
}

/// A `Body` as contracts see it.
pub enum BodyView {
    Empty,
    Text(Seq<char>),
    File(Asset),
}

impl View for Body {
    type V = BodyView;

    open spec fn view(&self) -> BodyView {
        match *self {
            Body::Empty => BodyView::Empty,
            Body::Text(text) => BodyView::Text(text@),
            Body::File(asset) => BodyView::File(asset),
        }
    }
}

/// A response: its status, the headers that the service sets, and its body.
#[derive(Debug)]
pub struct Response {
    pub status: u16,
    pub content_type: Option<ContentType>,
    /// The `Allow` header.
    pub allow: Option<String>,
    /// The `Location` header.
    pub location: Option<String>,
    pub body: Body,
}

/// A `Response` as contracts see it.
#[verifier::ext_equal]
pub struct ResponseView {
    pub status: u16,
    pub content_type: Option<ContentType>,
    pub allow: Option<Seq<char>>,
    pub location: Option<Seq<char>>,
    pub body: BodyView,
}

impl View for Response {
    type V = ResponseView;

    open spec fn view(&self) -> ResponseView {
        ResponseView {
            status: self.status,
            content_type: self.content_type,
            allow: optional_text(self.allow),
            location: optional_text(self.location),
            body: self.body@,
        }
    }
}

impl ResponseView {
    /// A response with a status and nothing else.
    pub open spec fn bare(status: u16) -> ResponseView {
        ResponseView {
            status,
            content_type: None,
            allow: None,
            location: None,
            body: BodyView::Empty,
        }
    }

    /// A response with a file.
    pub open spec fn file(status: u16, content_type: ContentType, asset: Asset) -> ResponseView {
        ResponseView {
            content_type: Some(content_type),
            body: BodyView::File(asset),
            ..ResponseView::bare(status)
        }
    }

    /// A response with a page.
    pub open spec fn page(html: Seq<char>) -> ResponseView {
        ResponseView {
            content_type: Some(ContentType::Html),
            body: BodyView::Text(html),
            ..ResponseView::bare(200)
        }
    }

    /// The answer to a method that is not allowed.
    pub open spec fn method_not_allowed() -> ResponseView {
        ResponseView {
            content_type: Some(ContentType::Plain),
            allow: Some("GET, POST"@),
            body: BodyView::Text("This method is not allowed\n"@),
            ..ResponseView::bare(405)
        }
    }

    /// A temporary redirect.
    pub open spec fn redirect(url: Seq<char>) -> ResponseView {
        ResponseView { location: Some(url), ..ResponseView::bare(307) }
    }

    /// The answer where no link is found.
    pub open spec fn not_found() -> ResponseView {
        ResponseView::file(404, ContentType::Html, Asset::NotFound)
    }
}

impl Response {
    /// A response with a status and nothing else.
    pub fn bare(status: u16) -> (response: Response)
        ensures
            response@ == ResponseView::bare(status),
    {
        Response { status, content_type: None, allow: None, location: None, body: Body::Empty }
    }

    /// A response with a file.
    pub fn file(status: u16, content_type: ContentType, asset: Asset) -> (response: Response)
        ensures
            response@ == ResponseView::file(status, content_type, asset),
    {
        Response {
            status,
            content_type: Some(content_type),
            allow: None,
            location: None,
            body: Body::File(asset),
        }
    }

    /// A response with a page.
    pub fn page(html: String) -> (response: Response)
        ensures
            response@ == ResponseView::page(html@),
    {
        Response {
            status: 200,
            content_type: Some(ContentType::Html),
            allow: None,
            location: None,
            body: Body::Text(html),
        }
    }

    /// The answer to a method that is not allowed.
    pub fn method_not_allowed() -> (response: Response)
        ensures
            response@ == ResponseView::method_not_allowed(),
    {
        Response {
            status: 405,
            content_type: Some(ContentType::Plain),
            allow: Some("GET, POST".to_owned()),
            location: None,
            body: Body::Text("This method is not allowed\n".to_owned()),
        }
    }

    /// A temporary redirect.
    pub fn redirect(url: String) -> (response: Response)
        ensures
            response@ == ResponseView::redirect(url@),
    {
        Response {
            status: 307,
            content_type: None,
            allow: None,
            location: Some(url),
            body: Body::Empty,
        }
    }

    /// The answer where no link is found.
    pub fn not_found() -> (response: Response)
        ensures
            response@ == ResponseView::not_found(),
    {
        Response::file(404, ContentType::Html, Asset::NotFound)
    }
}

} // verus!
