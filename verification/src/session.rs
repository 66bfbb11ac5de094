//! A request on its way: it says what it waits for, and goes on with the answer.

use vstd::prelude::*;

use crate::error::Error;
use crate::http::{Request, Response};
use crate::links::{is_word_key, shorten_with_words};
use crate::metadata::{
    generate_metadata, header_views, is_fresh, Header, ItemMetadata, MetadataView,
};
use crate::ranking::{rank, ranked};
use crate::stage::{first_stage, route, Event, EventView, Stage, StageView};
use crate::store::Store;

verus! {

/// What a request waits for.
#[derive(Debug)]
pub enum Action<'a> {
    /// The store of secrets is to be opened.
    OpenSecrets,
    /// The form in the body of the request is to be read.
    ReadForm,
    /// The secret of this name is to be read from the opened store of secrets.
    ReadSecret(&'a str),
    /// The key-value store is to be opened.
    OpenStore(Store),
    /// The key is to be looked up in the store, which is open.
    Lookup { store: Store, key: &'a str },
    /// The text and its metadata are to be put under the key in the store, which is open.
    Insert { store: Store, key: &'a str, text: &'a str, metadata: &'a ItemMetadata },
    /// The keys of the opened store of links are to be listed, from the cursor on if there is one.
    List { cursor: Option<&'a str> },
    /// The metadata bytes of the key are to be read from the opened store of links.
    ReadMetadata { key: &'a str },
    /// The metadata is to be decoded from its text.
    DecodeMetadata { text: &'a str },
}

/// An `Action` as contracts see it.
pub enum ActionView {
    OpenSecrets,
    ReadForm,
    ReadSecret(Seq<char>),
    OpenStore(Store),
    Lookup { store: Store, key: Seq<char> },
    Insert { store: Store, key: Seq<char>, text: Seq<char>, metadata: MetadataView },
    List { cursor: Option<Seq<char>> },
    ReadMetadata { key: Seq<char> },
    DecodeMetadata { text: Seq<char> },
}

impl<'a> View for Action<'a> {
    type V = ActionView;

    open spec fn view(&self) -> ActionView {
        match *self {
            Action::OpenSecrets => ActionView::OpenSecrets,
            Action::ReadForm => ActionView::ReadForm,
            Action::ReadSecret(name) => ActionView::ReadSecret(name@),
            Action::OpenStore(store) => ActionView::OpenStore(store),
            Action::Lookup { store, key } => ActionView::Lookup { store, key: key@ },
            Action::Insert { store, key, text, metadata } => ActionView::Insert {
                store,
                key: key@,
                text: text@,
                metadata: metadata@,
            },
            Action::List { cursor: Some(cursor) } => ActionView::List { cursor: Some(cursor@) },
            Action::List { cursor: None } => ActionView::List { cursor: None },
            Action::ReadMetadata { key } => ActionView::ReadMetadata { key: key@ },
            Action::DecodeMetadata { text } => ActionView::DecodeMetadata { text: text@ },
        }
    }
}

impl StageView {
    /// What a request in this stage waits for from outside, if anything.
    pub open spec fn action(self) -> Option<ActionView> {
        match self {
            StageView::OpeningSecrets => Some(ActionView::OpenSecrets),
            StageView::ReadingLogin => Some(ActionView::ReadForm),
            StageView::ReadingSecret { username, password: _ } => Some(
                ActionView::ReadSecret(username),
            ),
            StageView::OpeningListing => Some(ActionView::OpenStore(Store::Links)),
            StageView::Listing { keys: _, cursor } => Some(ActionView::List { cursor }),
            StageView::ReadingMetadata { keys, items } => Some(
                ActionView::ReadMetadata { key: keys[items.len() as int] },
            ),
            StageView::DecodingMetadata { keys: _, items: _, text } => Some(
                ActionView::DecodeMetadata { text },
            ),
            StageView::ReadingForm => Some(ActionView::ReadForm),
            StageView::OpeningWords { .. } => Some(ActionView::OpenStore(Store::Words)),
            StageView::FindingWords { url } => Some(
                ActionView::Lookup { store: Store::Words, key: url },
            ),
            StageView::ReopeningWords { .. } => Some(ActionView::OpenStore(Store::Words)),
            StageView::SavingWords { url, words, metadata } => Some(
                ActionView::Insert { store: Store::Words, key: url, text: words, metadata },
            ),
            StageView::OpeningLinks { .. } => Some(ActionView::OpenStore(Store::Links)),
            StageView::FindingLink { key, url: _ } => Some(
                ActionView::Lookup { store: Store::Links, key },
            ),
            StageView::ReopeningLinks { .. } => Some(ActionView::OpenStore(Store::Links)),
            StageView::SavingLink { key, url, metadata } => Some(
                ActionView::Insert { store: Store::Links, key, text: url, metadata },
            ),
            StageView::OpeningVisit { .. } => Some(ActionView::OpenStore(Store::Links)),
            StageView::FindingVisit { key } => Some(
                ActionView::Lookup { store: Store::Links, key },
            ),
            StageView::CountingVisit { key: _, location: _, text } => Some(
                ActionView::DecodeMetadata { text },
            ),
            StageView::ReopeningVisit { .. } => Some(ActionView::OpenStore(Store::Links)),
            StageView::SavingVisit { key, location, metadata } => Some(
                ActionView::Insert { store: Store::Links, key, text: location, metadata },
            ),
            _ => None,
        }
    }

    /// Whether a request in this stage is done.
    pub open spec fn is_final(self) -> bool {
        self is Answered || self is Failed
    }

    /// Whether a request rests in this stage until it is answered from outside, or is done.
    pub open spec fn is_settled(self) -> bool {
        self.is_final() || self.action() is Some
    }
}

/// Whether a stage that waits for the metadata of a request with these headers goes on to `to`.
pub open spec fn stamps(
    headers: Seq<(Seq<char>, Seq<u8>)>,
    from: StageView,
    to: StageView,
) -> bool {
    exists|metadata: MetadataView| #[trigger]
        is_fresh(metadata, headers) && to == from.step(EventView::Stamped(metadata))
}

/// Whether a request with these headers settles from one stage in another. Memorable words, the
/// metadata of a new link and the rankings are not waited for: the request goes on with some words
/// that can be drawn, with metadata of the present instant, and with some correct ranking.
pub open spec fn settles(
    headers: Seq<(Seq<char>, Seq<u8>)>,
    from: StageView,
    to: StageView,
) -> bool {
    match from {
        StageView::DrawingWords { .. } => exists|words: Seq<char>| #[trigger]
            is_word_key(words) && stamps(headers, from.step(EventView::WordsDrawn(words)), to),
        StageView::StampingWords { .. } => stamps(headers, from, to),
        StageView::StampingLink { .. } => stamps(headers, from, to),
        StageView::Ranking { items } => exists|recent: Seq<char>, visited: Seq<char>| #[trigger]
            ranked(items, recent, visited) && to == from.step(EventView::Ranked(recent, visited)),
        _ => to == from,
    }
}

/// A request on its way.
#[derive(Debug)]
pub struct Session {
    headers: Vec<Header>,
    stage: Stage,
}

impl Session {
    #[verifier::type_invariant]
    spec fn well_formed(self) -> bool {
        self.stage@.well_formed() && self.stage@.is_settled()
    }

    /// How far the request has come.
    pub closed spec fn stage(&self) -> StageView {
        self.stage@
    }

    /// The headers of the request.
    pub closed spec fn headers(&self) -> Seq<(Seq<char>, Seq<u8>)> {
        header_views(self.headers@)
    }

    /// Starts with a request.
    pub fn start(request: Request) -> (session: Session)
        ensures
            session.stage() == first_stage(request@),
            session.headers() == request@.headers,
    {
        let stage: Stage = route(&request);
        Session { headers: request.headers, stage }
    }

    /// What the request waits for: nothing, if and only if it is done.
    pub fn pending(&self) -> (action: Option<Action<'_>>)
        ensures
            match action {
                Some(action) => self.stage().action() == Some(action@),
                None => self.stage().is_final(),
            },
            self.stage().is_final() ==> action is None,
    {
        proof {
            use_type_invariant(self);
        }
        match &self.stage {
            Stage::OpeningSecrets => Some(Action::OpenSecrets),
            Stage::ReadingLogin => Some(Action::ReadForm),
            Stage::ReadingSecret { username, password: _ } => Some(
                Action::ReadSecret(username.as_str()),
            ),
            Stage::OpeningListing => Some(Action::OpenStore(Store::Links)),
            Stage::Listing { keys: _, cursor } => match cursor {
                Some(cursor) => Some(Action::List { cursor: Some(cursor.as_str()) }),
                None => Some(Action::List { cursor: None }),
            },
            Stage::ReadingMetadata { keys, items } => Some(
                Action::ReadMetadata { key: keys[items.len()].as_str() },
            ),
            Stage::DecodingMetadata { keys: _, items: _, text } => Some(
                Action::DecodeMetadata { text: text.as_str() },
            ),
            Stage::ReadingForm => Some(Action::ReadForm),
            Stage::OpeningWords { .. } => Some(Action::OpenStore(Store::Words)),
            Stage::FindingWords { url } => Some(
                Action::Lookup { store: Store::Words, key: url.as_str() },
            ),
            Stage::ReopeningWords { .. } => Some(Action::OpenStore(Store::Words)),
            Stage::SavingWords { url, words, metadata } => Some(
                Action::Insert {
                    store: Store::Words,
                    key: url.as_str(),
                    text: words.as_str(),
                    metadata,
                },
            ),
            Stage::OpeningLinks { .. } => Some(Action::OpenStore(Store::Links)),
            Stage::FindingLink { key, url: _ } => Some(
                Action::Lookup { store: Store::Links, key: key.as_str() },
            ),
            Stage::ReopeningLinks { .. } => Some(Action::OpenStore(Store::Links)),
            Stage::SavingLink { key, url, metadata } => Some(
                Action::Insert {
                    store: Store::Links,
                    key: key.as_str(),
                    text: url.as_str(),
                    metadata,
                },
            ),
            Stage::OpeningVisit { .. } => Some(Action::OpenStore(Store::Links)),
            Stage::FindingVisit { key } => Some(
                Action::Lookup { store: Store::Links, key: key.as_str() },
            ),
            Stage::CountingVisit { key: _, location: _, text } => Some(
                Action::DecodeMetadata { text: text.as_str() },
            ),
            Stage::ReopeningVisit { .. } => Some(Action::OpenStore(Store::Links)),
            Stage::SavingVisit { key, location, metadata } => Some(
                Action::Insert {
                    store: Store::Links,
                    key: key.as_str(),
                    text: location.as_str(),
                    metadata,
                },
            ),
            _ => None,
        }
    }

    /// Whether the request can go on with the answer.
    pub fn can_resume(&self, event: &Event) -> (possible: bool)
        ensures
            possible == self.stage().can_step(event@),
    {
        self.stage.can_go_on(event)
    }

    /// Goes on with the answer to what the request waited for.
    pub fn resume(self, event: Event) -> (next: Session)
        requires
            self.stage().can_step(event@),
        ensures
            settles(self.headers(), self.stage().step(event@), next.stage()),
            next.headers() == self.headers(),
    {
        proof {
            use_type_invariant(&self);
        }
        let Session { headers, stage } = self;
        let stage: Stage = settle(&headers, stage.step(event));
        Session { headers, stage }
    }

    /// The answer to the request, or its error; `None` while it waits for something.
    pub fn into_outcome(self) -> (outcome: Option<Result<Response, Error>>)
        ensures
            match outcome {
                Some(Ok(response)) => self.stage() == StageView::Answered(response@),
                Some(Err(error)) => self.stage() == StageView::Failed(error@),
                None => !self.stage().is_final(),
            },
    {
        match self.stage {
            Stage::Answered(response) => Some(Ok(response)),
            Stage::Failed(error) => Some(Err(error)),
            _ => None,
        }
    }
}

/// Goes on with what a request does not wait for: words, metadata and rankings.
fn settle(headers: &Vec<Header>, stage: Stage) -> (settled: Stage)
    requires
        stage@.well_formed(),
    ensures
        settles(header_views(headers@), stage@, settled@),
        settled@.well_formed(),
        settled@.is_settled(),
{
    match stage {
        Stage::DrawingWords { url } => {
            let words: String = shorten_with_words();
            let metadata: ItemMetadata = generate_metadata(headers);
            let drawn: Stage = Stage::DrawingWords { url }.step(Event::WordsDrawn(words));
            let stamped: Stage = drawn.step(Event::Stamped(metadata));
            proof {
                assert(is_word_key(words@));
                assert(is_fresh(metadata@, header_views(headers@)));
                assert(stamps(header_views(headers@), drawn@, stamped@));
            }
            stamped
        },
        Stage::StampingWords { url, words } => {
            let metadata: ItemMetadata = generate_metadata(headers);
            proof {
                assert(is_fresh(metadata@, header_views(headers@)));
            }
            Stage::StampingWords { url, words }.step(Event::Stamped(metadata))
        },
        Stage::StampingLink { key, url } => {
            let metadata: ItemMetadata = generate_metadata(headers);
            proof {
                assert(is_fresh(metadata@, header_views(headers@)));
            }
            Stage::StampingLink { key, url }.step(Event::Stamped(metadata))
        },
        Stage::Ranking { items } => {
            let (recent, visited) = rank(items);
            let answered: Stage = Stage::Ranking { items: Vec::new() }.step(
                Event::Ranked(recent, visited),
            );
            proof {
                assert(ranked(stage@->Ranking_items, recent@, visited@));
                assert(answered@ == stage@.step(EventView::Ranked(recent@, visited@)));
            }
            answered
        },
        other => other,
    }
}

} // verus!
