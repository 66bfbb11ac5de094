//! Laws of the service: what holds of whole requests, of several requests in a row, and of every
//! step whatever the stores answer.

use vstd::prelude::*;

use crate::error::ErrorView;
use crate::http::{BodyView, ContentType, RequestView, ResponseView};
use crate::links::{hashed_key, is_word_key, key_of_digest, target, word_parts};
use crate::metadata::{is_fresh, reads_back, shown_headers, ItemView, MetadataView};
use crate::outside::{
    first_position, parsed_url, sextet, symbol, trimmed_end, without_query, LAST_FOUR_DIGIT_SECOND,
};
use crate::pages::{admin_page, link_page};
use crate::ranking::{
    arranged, by_hits, by_time, is_rearrangement, made, not_before, ranked, same_items,
};
use crate::session::{settles, stamps, ActionView};
use crate::stage::{admitted, field, first_stage, next_metadata, submitted, EventView, StageView};
use crate::store::{metadata_text, InsertedView, LookupView, OpenedView, Store, StoredView};
use crate::table::lemma_tabulated_is_finite;
use crate::text::{dashed, joined, without_slashes};

verus! {

// ---------------------------------------------------------------------------------------------
// Stores that work
// ---------------------------------------------------------------------------------------------

/// What the stores hold: links by key, and memorable words by URL.
#[verifier::ext_equal]
pub struct World {
    pub links: Map<Seq<char>, StoredView>,
    pub words: Map<Seq<char>, StoredView>,
}

/// What else surrounds a request.
pub struct Surroundings {
    /// The form in the body of the request.
    pub form: Map<Seq<char>, Seq<char>>,
    /// The secrets by name.
    pub secrets: Map<Seq<char>, Seq<u8>>,
    /// The keys that a listing gives.
    pub keys: Seq<Seq<char>>,
    /// The memorable words that are drawn.
    pub words: Seq<char>,
    /// The metadata of memorable words that are kept now.
    pub words_metadata: MetadataView,
    /// The metadata of a link that is made now.
    pub metadata: MetadataView,
    /// The rankings.
    pub lists: (Seq<char>, Seq<char>),
    /// How metadata is written down.
    pub encode: spec_fn(MetadataView) -> Seq<char>,
    /// How metadata is read, or why it cannot be.
    pub decode: spec_fn(Seq<char>) -> Result<MetadataView, Seq<char>>,
}

impl Surroundings {
    /// Whether metadata reads as it was written. Only metadata with finitely many headers can be
    /// written down.
    pub open spec fn reads_what_it_writes(self) -> bool {
        forall|metadata: MetadataView|
            metadata.headers.dom().finite() ==> (self.decode)(#[trigger] (self.encode)(metadata))
                == Ok::<MetadataView, Seq<char>>(metadata)
    }

    /// An item as it is stored with its metadata.
    pub open spec fn stored(self, body: Seq<char>, metadata: MetadataView) -> StoredView {
        StoredView { body, metadata: Some(vstd::utf8::encode_utf8((self.encode)(metadata))) }
    }
}

impl World {
    /// What a store holds.
    pub open spec fn store(self, store: Store) -> Map<Seq<char>, StoredView> {
        match store {
            Store::Links => self.links,
            Store::Words => self.words,
        }
    }

    /// The world with one more item in a store.
    pub open spec fn with(self, store: Store, key: Seq<char>, item: StoredView) -> World {
        match store {
            Store::Links => World { links: self.links.insert(key, item), ..self },
            Store::Words => World { words: self.words.insert(key, item), ..self },
        }
    }

    /// What becomes of the world under an action, and the answer to it.
    pub open spec fn answer(self, around: Surroundings, action: ActionView) -> (World, EventView) {
        match action {
            ActionView::OpenSecrets => (self, EventView::SecretsOpened(Ok(()))),
            ActionView::ReadForm => (self, EventView::FormRead(Ok(around.form))),
            ActionView::ReadSecret(name) => (
                self,
                EventView::SecretRead(
                    if around.secrets.dom().contains(name) {
                        Some(around.secrets[name])
                    } else {
                        None
                    },
                ),
            ),
            ActionView::OpenStore(_) => (self, EventView::StoreOpened(OpenedView::Ready)),
            ActionView::Lookup { store, key } => (
                self,
                EventView::LookedUp(
                    if self.store(store).dom().contains(key) {
                        LookupView::Found(self.store(store)[key])
                    } else {
                        LookupView::Missing
                    },
                ),
            ),
            ActionView::Insert { store, key, text, metadata } => (
                self.with(store, key, around.stored(text, metadata)),
                EventView::Inserted(InsertedView::Done),
            ),
            ActionView::List { .. } => (self, EventView::Listed(Ok((around.keys, None)))),
            ActionView::ReadMetadata { key } => (
                self,
                EventView::MetadataRead(self.links[key].metadata),
            ),
            ActionView::DecodeMetadata { text } => (
                self,
                EventView::MetadataDecoded((around.decode)(text)),
            ),
        }
    }

    /// What becomes of the world, and of a request in it, in the given number of steps or as soon
    /// as the request is done.
    pub open spec fn serve(
        self,
        around: Surroundings,
        stage: StageView,
        steps: nat,
    ) -> (World, StageView)
        decreases steps,
    {
        if steps == 0 || stage.is_final() {
            (self, stage)
        } else {
            match stage.action() {
                Some(action) => {
                    let (world, event) = self.answer(around, action);
                    world.serve(around, stage.step(event), (steps - 1) as nat)
                },
                None => self.serve(around, stage.step(around.chance(stage)), (steps - 1) as nat),
            }
        }
    }
}

impl Surroundings {
    /// The words, the metadata or the rankings with which a request goes on by itself.
    pub open spec fn chance(self, stage: StageView) -> EventView {
        match stage {
            StageView::DrawingWords { .. } => EventView::WordsDrawn(self.words),
            StageView::StampingWords { .. } => EventView::Stamped(self.words_metadata),
            StageView::Ranking { .. } => EventView::Ranked(self.lists.0, self.lists.1),
            _ => EventView::Stamped(self.metadata),
        }
    }
}

/// The number of steps that a request in this stage goes on by itself.
pub open spec fn chance_steps(stage: StageView) -> nat {
    match stage {
        StageView::DrawingWords { .. } => 2,
        StageView::StampingWords { .. } => 1,
        StageView::StampingLink { .. } => 1,
        StageView::Ranking { .. } => 1,
        _ => 0,
    }
}

/// Whether a request with these headers can go on by itself from this stage with the words, the
/// metadata or the rankings that surround it.
pub open spec fn is_possible(
    around: Surroundings,
    headers: Seq<(Seq<char>, Seq<u8>)>,
    stage: StageView,
) -> bool {
    match stage {
        StageView::DrawingWords { .. } => is_word_key(around.words) && is_fresh(
            around.words_metadata,
            headers,
        ),
        StageView::StampingWords { .. } => is_fresh(around.words_metadata, headers),
        StageView::StampingLink { .. } => is_fresh(around.metadata, headers),
        StageView::Ranking { items } => ranked(items, around.lists.0, around.lists.1),
        _ => true,
    }
}

/// Whether surroundings differ in nothing but in the words, the metadata and the rankings with
/// which a request goes on by itself.
pub open spec fn differ_by_chance(a: Surroundings, b: Surroundings) -> bool {
    &&& a.form == b.form
    &&& a.secrets == b.secrets
    &&& a.keys == b.keys
    &&& a.encode == b.encode
    &&& a.decode == b.decode
}

/// Where a request settles is where it is served to: some words, metadata and rankings, all of
/// them possible, lead there.
pub proof fn law_settling_is_serving(
    world: World,
    around: Surroundings,
    headers: Seq<(Seq<char>, Seq<u8>)>,
    from: StageView,
    to: StageView,
)
    requires
        settles(headers, from, to),
    ensures
        exists|chosen: Surroundings| #[trigger]
            differ_by_chance(chosen, around) && is_possible(chosen, headers, from) && world.serve(
                chosen,
                from,
                chance_steps(from),
            ) == (world, to),
{
    match from {
        StageView::DrawingWords { url } => {
            let words = choose|words: Seq<char>| #[trigger]
                is_word_key(words) && stamps(headers, from.step(EventView::WordsDrawn(words)), to);
            let drawn = StageView::StampingWords { url, words };
            let metadata = choose|metadata: MetadataView| #[trigger]
                is_fresh(metadata, headers) && to == drawn.step(EventView::Stamped(metadata));
            let chosen = Surroundings { words, words_metadata: metadata, ..around };
            lemma_chance(world, chosen, from, 2);
            lemma_chance(world, chosen, drawn, 1);
            assert(differ_by_chance(chosen, around));
        },
        StageView::StampingWords { .. } => {
            let metadata = choose|metadata: MetadataView| #[trigger]
                is_fresh(metadata, headers) && to == from.step(EventView::Stamped(metadata));
            let chosen = Surroundings { words_metadata: metadata, ..around };
            lemma_chance(world, chosen, from, 1);
            assert(differ_by_chance(chosen, around));
        },
        StageView::StampingLink { .. } => {
            let metadata = choose|metadata: MetadataView| #[trigger]
                is_fresh(metadata, headers) && to == from.step(EventView::Stamped(metadata));
            let chosen = Surroundings { metadata, ..around };
            lemma_chance(world, chosen, from, 1);
            assert(differ_by_chance(chosen, around));
        },
        StageView::Ranking { items } => {
            let (recent, visited) = choose|recent: Seq<char>, visited: Seq<char>| #[trigger]
                ranked(items, recent, visited) && to == from.step(EventView::Ranked(recent, visited));
            let chosen = Surroundings { lists: (recent, visited), ..around };
            lemma_chance(world, chosen, from, 1);
            assert(differ_by_chance(chosen, around));
        },
        _ => {
            assert(differ_by_chance(around, around));
        },
    }
}

/// One step that a request goes on by itself.
proof fn lemma_chance(world: World, around: Surroundings, stage: StageView, steps: nat)
    requires
        chance_steps(stage) > 0,
        steps > 0,
    ensures
        world.serve(around, stage, steps) == world.serve(
            around,
            stage.step(around.chance(stage)),
            (steps - 1) as nat,
        ),
{
}

/// Where a request is served to by itself is where it can settle, if the words, the metadata and
/// the rankings are possible; the stores do not change on the way.
pub proof fn law_serving_is_settling(
    world: World,
    around: Surroundings,
    headers: Seq<(Seq<char>, Seq<u8>)>,
    from: StageView,
)
    requires
        is_possible(around, headers, from),
    ensures
        world.serve(around, from, chance_steps(from)).0 == world,
        settles(headers, from, world.serve(around, from, chance_steps(from)).1),
{
    match from {
        StageView::DrawingWords { url } => {
            let words = around.words;
            let drawn = StageView::StampingWords { url, words };
            lemma_chance(world, around, from, 2);
            lemma_chance(world, around, drawn, 1);
            let to = drawn.step(EventView::Stamped(around.words_metadata));
            assert(stamps(headers, drawn, to));
        },
        StageView::StampingWords { .. } => {
            lemma_chance(world, around, from, 1);
        },
        StageView::StampingLink { .. } => {
            lemma_chance(world, around, from, 1);
        },
        StageView::Ranking { .. } => {
            lemma_chance(world, around, from, 1);
        },
        _ => {},
    }
}

/// What a request does with an answer is what it is served to: where it waits for an action, and
/// the stores answer that action, it settles after the answer where some possible words, metadata
/// and rankings lead it from before the action.
pub proof fn law_resuming_is_serving(
    world: World,
    around: Surroundings,
    headers: Seq<(Seq<char>, Seq<u8>)>,
    stage: StageView,
    action: ActionView,
    to: StageView,
)
    requires
        stage.action() == Some(action),
        settles(headers, stage.step(world.answer(around, action).1), to),
    ensures
        ({
            let (after, event) = world.answer(around, action);
            let answered = stage.step(event);
            exists|chosen: Surroundings| #[trigger]
                differ_by_chance(chosen, around) && is_possible(chosen, headers, answered)
                    && world.serve(chosen, stage, 1 + chance_steps(answered)) == (after, to)
        }),
{
    let (after, event) = world.answer(around, action);
    let answered = stage.step(event);
    law_settling_is_serving(after, around, headers, answered, to);
    let chosen = choose|chosen: Surroundings| #[trigger]
        differ_by_chance(chosen, around) && is_possible(chosen, headers, answered) && after.serve(
            chosen,
            answered,
            chance_steps(answered),
        ) == (after, to);
    lemma_answer(world, chosen, around, action);
    lemma_served_once(world, chosen, stage, action, 1 + chance_steps(answered));
}

/// The answer to an action does not hang on chance.
proof fn lemma_answer(world: World, a: Surroundings, b: Surroundings, action: ActionView)
    requires
        differ_by_chance(a, b),
    ensures
        world.answer(a, action) == world.answer(b, action),
{
}

/// One step of a request that waits for an action.
proof fn lemma_served_once(
    world: World,
    around: Surroundings,
    stage: StageView,
    action: ActionView,
    steps: nat,
)
    requires
        stage.action() == Some(action),
        steps > 0,
    ensures
        ({
            let (after, event) = world.answer(around, action);
            world.serve(around, stage, steps) == after.serve(
                around,
                stage.step(event),
                (steps - 1) as nat,
            )
        }),
{
}

/// The number of steps in which any request but one for the rankings is done.
pub open spec fn enough() -> nat {
    12
}

/// Whether a request submits a link.
pub open spec fn is_submission(request: RequestView) -> bool {
    !(request.method is Other) && request.path == "/process"@
}

/// Whether a request visits the link with a key.
pub open spec fn is_visit(request: RequestView, key: Seq<char>) -> bool {
    !(request.method is Other) && request.path == seq!['/'] + key
}

/// The paths that the service keeps for itself.
pub open spec fn is_own_path(path: Seq<char>) -> bool {
    ||| path == "/"@
    ||| path == "/style.css"@
    ||| path == "/favicon.ico"@
    ||| path == "/admin"@
    ||| path == "/admin-response"@
    ||| path == "/process"@
}

/// Whether a key can be reached by its path: no slash gets lost from it, and its path is not one
/// of the service's own.
pub open spec fn is_reachable(key: Seq<char>) -> bool {
    !key.contains('/') && !is_own_path(seq!['/'] + key)
}

/// A path of one slash and a key without slashes names that key.
pub proof fn law_path_names_key(key: Seq<char>)
    requires
        !key.contains('/'),
    ensures
        without_slashes(seq!['/'] + key) == key,
{
    lemma_nothing_removed(key);
    let keep = |c: char| c != '/';
    let front = seq!['/'];
    assert(front.filter(keep) =~= Seq::<char>::empty()) by {
        reveal_with_fuel(Seq::filter, 2);
    }
    Seq::filter_distributes_over_add(front, key, keep);
    assert(Seq::<char>::empty() + key =~= key);
}

/// A text without slashes loses nothing with its slashes.
proof fn lemma_nothing_removed(text: Seq<char>)
    requires
        !text.contains('/'),
    ensures
        without_slashes(text) == text,
    decreases text.len(),
{
    reveal(Seq::filter);
    if text.len() > 0 {
        let front = text.drop_last();
        assert forall|i: int| 0 <= i < front.len() implies front[i] != '/' by {
            assert(text.contains(text[i]));
        }
        assert(text.contains(text.last()));
        lemma_nothing_removed(front);
        assert(front.push(text.last()) =~= text);
    }
}

// ---------------------------------------------------------------------------------------------
// Submitting and visiting links
// ---------------------------------------------------------------------------------------------

/// The key that a form asks for, where it does not ask for memorable words: the custom key with
/// dashes for spaces if there is one that is not empty, and the hash of the URL otherwise.
pub open spec fn asked_key(form: Map<Seq<char>, Seq<char>>, url: Seq<char>) -> Seq<char> {
    match field(form, "CKEY"@) {
        Some(key) if key.len() > 0 => dashed(key),
        _ => hashed_key(url),
    }
}

/// Whether a form asks for its link to be kept under a key that does not hang on chance: it has a
/// custom key that is not empty, or does not ask for memorable words.
pub open spec fn asks_for_key(form: Map<Seq<char>, Seq<char>>) -> bool {
    ||| !form.dom().contains("WORDS"@)
    ||| field(form, "CKEY"@) matches Some(key) && key.len() > 0
}

/// Whether a form submits an address that leads to this URL.
pub open spec fn submits(form: Map<Seq<char>, Seq<char>>, url: Seq<char>) -> bool {
    field(form, "URL"@) matches Some(input) && target(input, form.dom().contains("STRIP"@))
        == Ok::<Seq<char>, Seq<char>>(url)
}

/// A submission starts by reading the form.
proof fn lemma_submission_starts(request: RequestView)
    requires
        is_submission(request),
    ensures
        first_stage(request) == StageView::ReadingForm,
{
    reveal_strlit("/");
    reveal_strlit("/style.css");
    reveal_strlit("/favicon.ico");
    reveal_strlit("/admin");
    reveal_strlit("/admin-response");
    reveal_strlit("/process");
    assert("/process"@.len() == 8);
    assert("/"@.len() == 1);
    assert("/style.css"@.len() == 10);
    assert("/favicon.ico"@.len() == 12);
    assert("/admin"@.len() == 6);
    assert("/admin-response"@.len() == 15);
}

/// What becomes of a link that is submitted under a key: it is kept if the key is free, and the
/// link that is there is shown otherwise.
pub open spec fn linked(
    world: World,
    around: Surroundings,
    key: Seq<char>,
    url: Seq<char>,
) -> (World, StageView) {
    if world.links.dom().contains(key) {
        (world, StageView::Answered(ResponseView::page(link_page(key, world.links[key].body))))
    } else {
        (
            world.with(Store::Links, key, around.stored(url, around.metadata)),
            StageView::Answered(ResponseView::page(link_page(key, url))),
        )
    }
}

/// The steps of a submission from the key on.
proof fn lemma_linked(
    world: World,
    around: Surroundings,
    key: Seq<char>,
    url: Seq<char>,
    steps: nat,
)
    requires
        steps >= 5,
    ensures
        world.serve(around, StageView::OpeningLinks { key, url }, steps) == linked(
            world,
            around,
            key,
            url,
        ),
{
    let metadata = around.metadata;
    let kept = world.with(Store::Links, key, around.stored(url, metadata));
    let s1 = StageView::OpeningLinks { key, url };
    let s2 = StageView::FindingLink { key, url };
    let s3 = StageView::StampingLink { key, url };
    let s4 = StageView::ReopeningLinks { key, url, metadata };
    let s5 = StageView::SavingLink { key, url, metadata };
    let n = (steps - 5) as nat;
    assert(world.serve(around, s1, n + 5) == world.serve(around, s2, n + 4));
    if world.links.dom().contains(key) {
        let shown = StageView::Answered(ResponseView::page(link_page(key, world.links[key].body)));
        assert(world.serve(around, s2, n + 4) == world.serve(around, shown, n + 3));
        assert(world.serve(around, shown, n + 3) == (world, shown));
    } else {
        let shown = StageView::Answered(ResponseView::page(link_page(key, url)));
        assert(world.serve(around, s2, n + 4) == world.serve(around, s3, n + 3));
        assert(world.serve(around, s3, n + 3) == world.serve(around, s4, n + 2));
        assert(world.serve(around, s4, n + 2) == world.serve(around, s5, n + 1));
        assert(world.serve(around, s5, n + 1) == kept.serve(around, shown, n));
        assert(kept.serve(around, shown, n) == (kept, shown));
    }
}

/// The steps of a submission that asks for its key.
proof fn lemma_asked_key(
    world: World,
    around: Surroundings,
    request: RequestView,
    url: Seq<char>,
)
    requires
        is_submission(request),
        submits(around.form, url),
        asks_for_key(around.form),
    ensures
        world.serve(around, first_stage(request), enough()) == linked(
            world,
            around,
            asked_key(around.form, url),
            url,
        ),
{
    lemma_submission_starts(request);
    let key = asked_key(around.form, url);
    let s1 = StageView::OpeningLinks { key, url };
    assert(submitted(around.form) == s1);
    assert(world.serve(around, StageView::ReadingForm, 12) == world.serve(around, s1, 11));
    lemma_linked(world, around, key, url, 11);
}

/// A link that is submitted under a free key is kept under that key with its URL, and shown;
/// nothing else in the stores changes.
pub proof fn law_new_link_is_kept(
    world: World,
    around: Surroundings,
    request: RequestView,
    url: Seq<char>,
)
    requires
        is_submission(request),
        submits(around.form, url),
        asks_for_key(around.form),
        !world.links.dom().contains(asked_key(around.form, url)),
    ensures
        ({
            let key = asked_key(around.form, url);
            world.serve(around, first_stage(request), enough()) == (
                World {
                    links: world.links.insert(key, around.stored(url, around.metadata)),
                    words: world.words,
                },
                StageView::Answered(ResponseView::page(link_page(key, url))),
            )
        }),
{
    lemma_asked_key(world, around, request, url);
}

/// A link that is submitted under a key that is taken changes nothing in the stores: the link
/// that is there already is shown.
pub proof fn law_taken_key_stays(
    world: World,
    around: Surroundings,
    request: RequestView,
    url: Seq<char>,
)
    requires
        is_submission(request),
        submits(around.form, url),
        asks_for_key(around.form),
        world.links.dom().contains(asked_key(around.form, url)),
    ensures
        ({
            let key = asked_key(around.form, url);
            world.serve(around, first_stage(request), enough()) == (
                world,
                StageView::Answered(ResponseView::page(link_page(key, world.links[key].body))),
            )
        }),
{
    lemma_asked_key(world, around, request, url);
}

/// Submitting a form a second time changes nothing and shows what the first time showed.
pub proof fn law_second_submission_changes_nothing(
    world: World,
    around: Surroundings,
    request: RequestView,
    url: Seq<char>,
)
    requires
        is_submission(request),
        submits(around.form, url),
        asks_for_key(around.form),
    ensures
        ({
            let (once, shown) = world.serve(around, first_stage(request), enough());
            once.serve(around, first_stage(request), enough()) == (once, shown)
        }),
{
    let key = asked_key(around.form, url);
    if world.links.dom().contains(key) {
        law_taken_key_stays(world, around, request, url);
    } else {
        law_new_link_is_kept(world, around, request, url);
        let once = World {
            links: world.links.insert(key, around.stored(url, around.metadata)),
            words: world.words,
        };
        law_taken_key_stays(once, around, request, url);
    }
}

/// The metadata of a stored item is text, and reads as it was written.
proof fn lemma_metadata_reads_back(around: Surroundings, body: Seq<char>, metadata: MetadataView)
    requires
        around.reads_what_it_writes(),
        metadata.headers.dom().finite(),
    ensures
        metadata_text(around.stored(body, metadata).metadata) == Ok::<Seq<char>, ErrorView>(
            (around.encode)(metadata),
        ),
        (around.decode)((around.encode)(metadata)) == Ok::<MetadataView, Seq<char>>(metadata),
{
    let text = (around.encode)(metadata);
    vstd::utf8::encode_utf8_valid_utf8(text);
    vstd::utf8::encode_utf8_decode_utf8(text);
}

/// The steps of a visit that keep the new count.
proof fn lemma_saved(
    world: World,
    around: Surroundings,
    key: Seq<char>,
    location: Seq<char>,
    metadata: MetadataView,
    steps: nat,
)
    requires
        steps >= 2,
    ensures
        world.serve(around, StageView::ReopeningVisit { key, location, metadata }, steps) == (
            world.with(Store::Links, key, around.stored(location, metadata)),
            StageView::Answered(ResponseView::redirect(location)),
        ),
{
    let counted = world.with(Store::Links, key, around.stored(location, metadata));
    let s1 = StageView::ReopeningVisit { key, location, metadata };
    let s2 = StageView::SavingVisit { key, location, metadata };
    let s3 = StageView::Answered(ResponseView::redirect(location));
    let n = (steps - 2) as nat;
    assert(world.serve(around, s1, n + 2) == world.serve(around, s2, n + 1));
    assert(world.serve(around, s2, n + 1) == counted.serve(around, s3, n));
    assert(counted.serve(around, s3, n) == (counted, s3));
}

/// The steps of a visit from the metadata of the link on.
proof fn lemma_counted(
    world: World,
    around: Surroundings,
    key: Seq<char>,
    location: Seq<char>,
    text: Seq<char>,
    metadata: MetadataView,
)
    requires
        (around.decode)(text) == Ok::<MetadataView, Seq<char>>(metadata),
    ensures
        world.serve(around, StageView::CountingVisit { key, location, text }, 10) == (
            world.with(Store::Links, key, around.stored(location, metadata.with_hit())),
            StageView::Answered(ResponseView::redirect(location)),
        ),
{
    let counted = metadata.with_hit();
    let s2 = StageView::CountingVisit { key, location, text };
    let s3 = StageView::ReopeningVisit { key, location, metadata: counted };
    assert(world.serve(around, s2, 10) == world.serve(around, s3, 9));
    lemma_saved(world, around, key, location, counted, 9);
}

/// The step of a visit that finds its link.
proof fn lemma_found_step(key: Seq<char>, stored: StoredView, text: Seq<char>)
    requires
        stored.metadata is Some,
        metadata_text(stored.metadata) == Ok::<Seq<char>, ErrorView>(text),
    ensures
        (StageView::FindingVisit { key }).step(EventView::LookedUp(LookupView::Found(stored)))
            == (StageView::CountingVisit { key, location: stored.body, text }),
{
}

/// A visit starts by opening the store of links.
proof fn lemma_visit_starts(request: RequestView, key: Seq<char>)
    requires
        is_visit(request, key),
        is_reachable(key),
    ensures
        first_stage(request) == (StageView::OpeningVisit { key }),
{
    law_path_names_key(key);
}

/// The steps of a visit to a stored link, until the link is found.
proof fn lemma_found(world: World, around: Surroundings, key: Seq<char>, found: StageView)
    requires
        world.links.dom().contains(key),
        found == (StageView::FindingVisit { key }).step(
            EventView::LookedUp(LookupView::Found(world.links[key])),
        ),
    ensures
        world.serve(around, StageView::OpeningVisit { key }, enough()) == world.serve(
            around,
            found,
            10,
        ),
{
    let s0 = StageView::OpeningVisit { key };
    let s1 = StageView::FindingVisit { key };
    assert(world.serve(around, s0, 12) == world.serve(around, s1, 11));
    let action = ActionView::Lookup { store: Store::Links, key };
    assert(s1.action() == Some(action));
    assert(world.answer(around, action) == (
        world,
        EventView::LookedUp(LookupView::Found(world.links[key])),
    ));
    assert(world.serve(around, s1, 11) == world.serve(around, found, 10));
}

/// A visit to a stored link redirects to its URL and counts one more hit in its metadata; nothing
/// else in the stores changes.
pub proof fn law_visit_redirects_and_counts(
    world: World,
    around: Surroundings,
    request: RequestView,
    key: Seq<char>,
    url: Seq<char>,
    metadata: MetadataView,
)
    requires
        is_visit(request, key),
        is_reachable(key),
        around.reads_what_it_writes(),
        world.links.dom().contains(key),
        world.links[key] == around.stored(url, metadata),
        metadata.headers.dom().finite(),
        metadata.hit_count < u64::MAX,
    ensures
        world.serve(around, first_stage(request), enough()) == (
            World {
                links: world.links.insert(key, around.stored(url, metadata.with_hit())),
                words: world.words,
            },
            StageView::Answered(ResponseView::redirect(url)),
        ),
{
    let text = (around.encode)(metadata);
    lemma_visit_starts(request, key);
    lemma_metadata_reads_back(around, url, metadata);
    lemma_found_step(key, world.links[key], text);
    lemma_found(world, around, key, StageView::CountingVisit { key, location: url, text });
    lemma_counted(world, around, key, url, text, metadata);
}

/// What a visit gives is the stored URL, whole: the answer has the status 307 and the body that is
/// stored under the key as its location. The store then holds that body under the key still, with
/// metadata that reads as before but for one more hit, and everything else as it was.
pub proof fn law_visit_gives_the_stored_url(
    world: World,
    around: Surroundings,
    request: RequestView,
    key: Seq<char>,
    metadata: MetadataView,
)
    requires
        is_visit(request, key),
        is_reachable(key),
        around.reads_what_it_writes(),
        world.links.dom().contains(key),
        world.links[key] == around.stored(world.links[key].body, metadata),
        metadata.headers.dom().finite(),
        metadata.hit_count < u64::MAX,
    ensures
        ({
            let (after, end) = world.serve(around, first_stage(request), enough());
            let hits = MetadataView { hit_count: (metadata.hit_count + 1) as u64, ..metadata };
            &&& end matches StageView::Answered(response) && response.status == 307
                && response.location == Some(world.links[key].body) && response.content_type is None
                && response.allow is None && response.body is Empty
            &&& after.links.dom() == world.links.dom()
            &&& after.links[key].body == world.links[key].body
            &&& metadata_text(after.links[key].metadata) matches Ok(text) && (around.decode)(text)
                == Ok::<MetadataView, Seq<char>>(hits)
            &&& forall|other: Seq<char>|
                other != key && world.links.dom().contains(other) ==> #[trigger] after.links[other]
                    == world.links[other]
            &&& after.words == world.words
        }),
{
    let url = world.links[key].body;
    law_visit_redirects_and_counts(world, around, request, key, url, metadata);
    lemma_metadata_reads_back(around, url, metadata.with_hit());
    let after = world.serve(around, first_stage(request), enough()).0;
    assert(after.links.dom() =~= world.links.dom());
}

/// The step of a visit that finds a link without metadata.
proof fn lemma_started_step(key: Seq<char>, stored: StoredView)
    requires
        stored.metadata is None,
    ensures
        (StageView::FindingVisit { key }).step(EventView::LookedUp(LookupView::Found(stored))) == (
        StageView::ReopeningVisit {
            key,
            location: stored.body,
            metadata: MetadataView::blank().with_hit(),
        }),
{
}

/// A visit to a stored link that has no metadata redirects to its URL and starts the count at one;
/// nothing else in the stores changes.
pub proof fn law_visit_starts_the_count(
    world: World,
    around: Surroundings,
    request: RequestView,
    key: Seq<char>,
)
    requires
        is_visit(request, key),
        is_reachable(key),
        world.links.dom().contains(key),
        world.links[key].metadata is None,
    ensures
        ({
            let url = world.links[key].body;
            let started = MetadataView { hit_count: 1, ..MetadataView::blank() };
            world.serve(around, first_stage(request), enough()) == (
                World {
                    links: world.links.insert(key, around.stored(url, started)),
                    words: world.words,
                },
                StageView::Answered(ResponseView::redirect(url)),
            )
        }),
{
    let location = world.links[key].body;
    let metadata = MetadataView::blank().with_hit();
    lemma_visit_starts(request, key);
    lemma_started_step(key, world.links[key]);
    lemma_found(world, around, key, StageView::ReopeningVisit { key, location, metadata });
    lemma_saved(world, around, key, location, metadata, 10);
}

/// The world after a request has been served the given number of times.
pub open spec fn served(
    world: World,
    around: Surroundings,
    request: RequestView,
    times: nat,
) -> World
    decreases times,
{
    if times == 0 {
        world
    } else {
        served(world, around, request, (times - 1) as nat).serve(
            around,
            first_stage(request),
            enough(),
        ).0
    }
}

/// Visits add up: after `times` visits the hit count of a link has grown by `times`, and nothing
/// else in the stores has changed.
pub proof fn law_visits_add_up(
    world: World,
    around: Surroundings,
    request: RequestView,
    key: Seq<char>,
    url: Seq<char>,
    metadata: MetadataView,
    times: nat,
)
    requires
        is_visit(request, key),
        is_reachable(key),
        around.reads_what_it_writes(),
        world.links.dom().contains(key),
        world.links[key] == around.stored(url, metadata),
        metadata.headers.dom().finite(),
        metadata.hit_count + times <= u64::MAX,
    ensures
        served(world, around, request, times) == (World {
            links: world.links.insert(
                key,
                around.stored(
                    url,
                    MetadataView { hit_count: (metadata.hit_count + times) as u64, ..metadata },
                ),
            ),
            words: world.words,
        }),
    decreases times,
{
    if times == 0 {
        assert(world.links.insert(key, around.stored(url, metadata)) =~= world.links);
    } else {
        let fewer = (times - 1) as nat;
        law_visits_add_up(world, around, request, key, url, metadata, fewer);
        let before = MetadataView { hit_count: (metadata.hit_count + fewer) as u64, ..metadata };
        let after = MetadataView { hit_count: (metadata.hit_count + times) as u64, ..metadata };
        let earlier = served(world, around, request, fewer);
        law_visit_redirects_and_counts(earlier, around, request, key, url, before);
        assert(before.with_hit() == after);
        assert(earlier.links.insert(key, around.stored(url, after)) =~= world.links.insert(
            key,
            around.stored(url, after),
        ));
    }
}

/// A path that is not one of the service's own and names no stored link is answered with 404, and
/// changes nothing.
pub proof fn law_unknown_key_is_not_found(world: World, around: Surroundings, request: RequestView)
    requires
        !(request.method is Other),
        !is_own_path(request.path),
        !world.links.dom().contains(without_slashes(request.path)),
    ensures
        world.serve(around, first_stage(request), enough()) == (
            world,
            StageView::Answered(ResponseView::not_found()),
        ),
{
    let key = without_slashes(request.path);
    let s0 = StageView::OpeningVisit { key };
    let s1 = StageView::FindingVisit { key };
    let s2 = StageView::Answered(ResponseView::not_found());
    assert(world.serve(around, s0, 12) == world.serve(around, s1, 11));
    assert(world.serve(around, s1, 11) == world.serve(around, s2, 10));
    assert(world.serve(around, s2, 10) == (world, s2));
}

// ---------------------------------------------------------------------------------------------
// Memorable words
// ---------------------------------------------------------------------------------------------

/// Whether a form asks for memorable words as the key.
pub open spec fn asks_for_words(form: Map<Seq<char>, Seq<char>>) -> bool {
    !asks_for_key(form)
}

/// Whether the URL has memorable words already.
pub open spec fn has_words(world: World, url: Seq<char>) -> bool {
    world.words.dom().contains(url) && world.words[url].body.len() > 0
}

/// Where words are asked for and the URL has some already, those words are its key again.
pub proof fn law_remembered_words_are_used(
    world: World,
    around: Surroundings,
    request: RequestView,
    url: Seq<char>,
)
    requires
        is_submission(request),
        submits(around.form, url),
        asks_for_words(around.form),
        has_words(world, url),
    ensures
        world.serve(around, first_stage(request), enough()) == linked(
            world,
            around,
            world.words[url].body,
            url,
        ),
{
    lemma_submission_starts(request);
    let key = world.words[url].body;
    let s1 = StageView::OpeningWords { url };
    let s2 = StageView::FindingWords { url };
    let s3 = StageView::OpeningLinks { key, url };
    assert(submitted(around.form) == s1);
    assert(world.serve(around, StageView::ReadingForm, 12) == world.serve(around, s1, 11));
    assert(world.serve(around, s1, 11) == world.serve(around, s2, 10));
    assert(world.serve(around, s2, 10) == world.serve(around, s3, 9));
    lemma_linked(world, around, key, url, 9);
}

/// Where words are asked for and the URL has none yet, the words that are drawn are kept for the
/// URL, and are its key.
pub proof fn law_new_words_are_kept(
    world: World,
    around: Surroundings,
    request: RequestView,
    url: Seq<char>,
)
    requires
        is_submission(request),
        submits(around.form, url),
        asks_for_words(around.form),
        !has_words(world, url),
    ensures
        world.serve(around, first_stage(request), enough()) == linked(
            world.with(Store::Words, url, around.stored(around.words, around.words_metadata)),
            around,
            around.words,
            url,
        ),
{
    lemma_submission_starts(request);
    let words = around.words;
    let metadata = around.words_metadata;
    let kept = world.with(Store::Words, url, around.stored(words, metadata));
    let s1 = StageView::OpeningWords { url };
    let s2 = StageView::FindingWords { url };
    let s3 = StageView::DrawingWords { url };
    let s4 = StageView::StampingWords { url, words };
    let s5 = StageView::ReopeningWords { url, words, metadata };
    let s6 = StageView::SavingWords { url, words, metadata };
    let s7 = StageView::OpeningLinks { key: words, url };
    assert(submitted(around.form) == s1);
    assert(world.serve(around, StageView::ReadingForm, 12) == world.serve(around, s1, 11));
    assert(world.serve(around, s1, 11) == world.serve(around, s2, 10));
    assert(world.serve(around, s2, 10) == world.serve(around, s3, 9));
    assert(world.serve(around, s3, 9) == world.serve(around, s4, 8));
    assert(world.serve(around, s4, 8) == world.serve(around, s5, 7));
    assert(world.serve(around, s5, 7) == world.serve(around, s6, 6));
    assert(world.serve(around, s6, 6) == kept.serve(around, s7, 5));
    lemma_linked(kept, around, words, url, 5);
}

/// A URL does not get random words twice: submitting it again changes nothing and shows the same
/// words, whatever words would have been drawn.
pub proof fn law_words_are_drawn_once(
    world: World,
    first: Surroundings,
    second: Surroundings,
    request: RequestView,
    url: Seq<char>,
)
    requires
        is_submission(request),
        submits(first.form, url),
        asks_for_words(first.form),
        second.form == first.form,
        is_word_key(first.words),
    ensures
        ({
            let (once, shown) = world.serve(first, first_stage(request), enough());
            once.serve(second, first_stage(request), enough()) == (once, shown)
        }),
{
    law_word_key_is_short(first.words);
    if has_words(world, url) {
        law_remembered_words_are_used(world, first, request, url);
    } else {
        law_new_words_are_kept(world, first, request, url);
    }
    let once = world.serve(first, first_stage(request), enough()).0;
    law_remembered_words_are_used(once, second, request, url);
}

/// The key that a submission comes to: the key that its form asks for, or else the words that the
/// URL has already, or else the words that are drawn.
pub open spec fn link_key(world: World, around: Surroundings, url: Seq<char>) -> Seq<char> {
    if asks_for_key(around.form) {
        asked_key(around.form, url)
    } else if has_words(world, url) {
        world.words[url].body
    } else {
        around.words
    }
}

/// The URL that the link under a key leads to after a submission: the submitted one if the key is
/// free, and otherwise the one that is there.
pub open spec fn link_url(world: World, key: Seq<char>, url: Seq<char>) -> Seq<char> {
    if world.links.dom().contains(key) {
        world.links[key].body
    } else {
        url
    }
}

/// What becomes of the links under a submission, whatever key it asks for.
proof fn lemma_keyed(world: World, around: Surroundings, request: RequestView, url: Seq<char>)
    requires
        is_submission(request),
        submits(around.form, url),
    ensures
        ({
            let key = link_key(world, around, url);
            let (kept, shown) = world.serve(around, first_stage(request), enough());
            &&& kept.links == linked(world, around, key, url).0.links
            &&& shown == linked(world, around, key, url).1
        }),
{
    if asks_for_key(around.form) {
        lemma_asked_key(world, around, request, url);
    } else if has_words(world, url) {
        law_remembered_words_are_used(world, around, request, url);
    } else {
        law_new_words_are_kept(world, around, request, url);
    }
}

/// What a submission shows is what a visit gives: the link that is shown redirects, when it is
/// visited, to the URL that was shown with it, which is the submitted URL if the key was free.
/// `counted` is the metadata of the link under the key.
pub proof fn law_shortened_link_leads_to_url(
    world: World,
    submitting: Surroundings,
    submission: RequestView,
    visiting: Surroundings,
    visit: RequestView,
    url: Seq<char>,
    counted: MetadataView,
)
    requires
        is_submission(submission),
        submits(submitting.form, url),
        is_visit(visit, link_key(world, submitting, url)),
        is_reachable(link_key(world, submitting, url)),
        visiting.encode == submitting.encode,
        visiting.reads_what_it_writes(),
        ({
            let key = link_key(world, submitting, url);
            if world.links.dom().contains(key) {
                world.links[key] == submitting.stored(world.links[key].body, counted)
            } else {
                counted == submitting.metadata
            }
        }),
        counted.headers.dom().finite(),
        counted.hit_count < u64::MAX,
    ensures
        ({
            let key = link_key(world, submitting, url);
            let location = link_url(world, key, url);
            let (kept, shown) = world.serve(submitting, first_stage(submission), enough());
            &&& shown == StageView::Answered(ResponseView::page(link_page(key, location)))
            &&& kept.serve(visiting, first_stage(visit), enough()).1 == StageView::Answered(
                ResponseView::redirect(location),
            )
        }),
{
    let key = link_key(world, submitting, url);
    let location = link_url(world, key, url);
    lemma_keyed(world, submitting, submission, url);
    let kept = world.serve(submitting, first_stage(submission), enough()).0;
    assert(kept.links.dom().contains(key));
    assert(kept.links[key] == visiting.stored(location, counted));
    law_visit_redirects_and_counts(kept, visiting, visit, key, location, counted);
}

/// A submission of a link under a free key puts the whole submitted URL under that key, with the
/// metadata of now, and changes no other link; its page, with the status 200, shows the key and
/// that URL.
pub proof fn law_submission_keeps_the_whole_url(
    world: World,
    around: Surroundings,
    request: RequestView,
    url: Seq<char>,
)
    requires
        is_submission(request),
        submits(around.form, url),
        !world.links.dom().contains(link_key(world, around, url)),
        around.reads_what_it_writes(),
        around.metadata.headers.dom().finite(),
    ensures
        ({
            let key = link_key(world, around, url);
            let (after, end) = world.serve(around, first_stage(request), enough());
            &&& after.links.dom() == world.links.dom().insert(key)
            &&& after.links[key].body == url
            &&& metadata_text(after.links[key].metadata) matches Ok(text) && (around.decode)(text)
                == Ok::<MetadataView, Seq<char>>(around.metadata)
            &&& forall|other: Seq<char>|
                world.links.dom().contains(other) ==> #[trigger] after.links[other]
                    == world.links[other]
            &&& end matches StageView::Answered(response) && response.status == 200
                && response.content_type == Some(ContentType::Html) && response.allow is None
                && response.location is None && response.body == BodyView::Text(
                link_page(key, url),
            )
        }),
{
    let key = link_key(world, around, url);
    lemma_keyed(world, around, request, url);
    lemma_metadata_reads_back(around, url, around.metadata);
    let after = world.serve(around, first_stage(request), enough()).0;
    assert(after.links.dom() =~= world.links.dom().insert(key));
}

/// The metadata of a new link has no hits, and finitely many headers.
pub proof fn law_new_link_has_no_hits(
    metadata: MetadataView,
    headers: Seq<(Seq<char>, Seq<u8>)>,
)
    requires
        is_fresh(metadata, headers),
    ensures
        metadata.hit_count == 0,
        metadata.headers.dom().finite(),
{
    lemma_tabulated_is_finite(shown_headers(headers));
}

/// A new link that has been visited `times` times has that many hits; its URL and the rest of its
/// metadata are those that it was kept with.
pub proof fn law_new_link_counts_its_visits(
    world: World,
    submitting: Surroundings,
    submission: RequestView,
    visiting: Surroundings,
    visit: RequestView,
    url: Seq<char>,
    times: nat,
)
    requires
        is_submission(submission),
        submits(submitting.form, url),
        is_fresh(submitting.metadata, submission.headers),
        !world.links.dom().contains(link_key(world, submitting, url)),
        is_visit(visit, link_key(world, submitting, url)),
        is_reachable(link_key(world, submitting, url)),
        visiting.encode == submitting.encode,
        visiting.reads_what_it_writes(),
        times <= u64::MAX,
    ensures
        ({
            let key = link_key(world, submitting, url);
            let kept = world.serve(submitting, first_stage(submission), enough()).0;
            let counted = MetadataView { hit_count: times as u64, ..submitting.metadata };
            &&& served(kept, visiting, visit, times).links == world.links.insert(
                key,
                submitting.stored(url, counted),
            )
            &&& served(kept, visiting, visit, times).words == kept.words
        }),
{
    let key = link_key(world, submitting, url);
    lemma_keyed(world, submitting, submission, url);
    law_new_link_has_no_hits(submitting.metadata, submission.headers);
    let kept = world.serve(submitting, first_stage(submission), enough()).0;
    assert(kept.links == world.links.insert(key, submitting.stored(url, submitting.metadata)));
    assert(kept.links[key] == visiting.stored(url, submitting.metadata));
    law_visits_add_up(kept, visiting, visit, key, url, submitting.metadata, times);
    let counted = MetadataView { hit_count: times as u64, ..submitting.metadata };
    assert(kept.links.insert(key, submitting.stored(url, counted)) =~= world.links.insert(
        key,
        submitting.stored(url, counted),
    ));
}

// ---------------------------------------------------------------------------------------------
// The administrator
// ---------------------------------------------------------------------------------------------

/// Whether a request asks for the rankings.
pub open spec fn is_login(request: RequestView) -> bool {
    !(request.method is Other) && request.path == "/admin-response"@
}

/// A login starts by opening the store of secrets.
proof fn lemma_login_starts(request: RequestView)
    requires
        is_login(request),
    ensures
        first_stage(request) == StageView::OpeningSecrets,
{
    reveal_strlit("/");
    reveal_strlit("/style.css");
    reveal_strlit("/favicon.ico");
    reveal_strlit("/admin");
    reveal_strlit("/admin-response");
    assert("/"@.len() == 1);
    assert("/style.css"@.len() == 10);
    assert("/favicon.ico"@.len() == 12);
    assert("/admin"@.len() == 6);
    assert("/admin-response"@.len() == 15);
}

/// The secret under a name.
pub open spec fn secret_of(around: Surroundings, name: Seq<char>) -> Option<Seq<u8>> {
    if around.secrets.dom().contains(name) {
        Some(around.secrets[name])
    } else {
        None
    }
}

/// Whether the form has a name and the secret under that name as the password.
pub open spec fn is_authentic(around: Surroundings) -> bool {
    field(around.form, "username"@) matches Some(username) && admitted(
        secret_of(around, username),
        field(around.form, "password"@),
    )
}

/// A stored link as the rankings see it. Metadata that cannot be read counts as blank.
pub open spec fn inspected(world: World, around: Surroundings, key: Seq<char>) -> ItemView {
    ItemView { key, metadata: metadata_of(around, world.links[key]) }
}

/// The metadata of a stored item, or blank metadata where it cannot be read.
pub open spec fn metadata_of(around: Surroundings, stored: StoredView) -> MetadataView {
    let text = match metadata_text(stored.metadata) {
        Ok(text) => text,
        Err(_) => Seq::empty(),
    };
    match (around.decode)(text) {
        Ok(metadata) => metadata,
        Err(_) => MetadataView::blank(),
    }
}

/// Without the right name and password, a login is answered with 401, and changes nothing.
pub proof fn law_login_needs_the_password(
    world: World,
    around: Surroundings,
    request: RequestView,
)
    requires
        is_login(request),
        !is_authentic(around),
    ensures
        world.serve(around, first_stage(request), enough()) == (
            world,
            StageView::Answered(ResponseView::bare(401)),
        ),
{
    lemma_login_starts(request);
    let s0 = StageView::OpeningSecrets;
    let s1 = StageView::ReadingLogin;
    let s3 = StageView::Answered(ResponseView::bare(401));
    assert(world.serve(around, s0, 12) == world.serve(around, s1, 11));
    match field(around.form, "username"@) {
        None => {
            assert(world.serve(around, s1, 11) == world.serve(around, s3, 10));
            assert(world.serve(around, s3, 10) == (world, s3));
        },
        Some(username) => {
            let password = field(around.form, "password"@);
            let s2 = StageView::ReadingSecret { username, password };
            assert(world.serve(around, s1, 11) == world.serve(around, s2, 10));
            assert(world.serve(around, s2, 10) == world.serve(around, s3, 9));
            assert(world.serve(around, s3, 9) == (world, s3));
        },
    }
}

/// The two steps that read the metadata of one key.
proof fn lemma_inspected(
    world: World,
    around: Surroundings,
    keys: Seq<Seq<char>>,
    items: Seq<ItemView>,
    steps: nat,
)
    requires
        items.len() < keys.len(),
        steps >= 2,
    ensures
        world.serve(around, StageView::ReadingMetadata { keys, items }, steps) == world.serve(
            around,
            next_metadata(keys, items.push(inspected(world, around, keys[items.len() as int]))),
            (steps - 2) as nat,
        ),
{
    let key = keys[items.len() as int];
    let read = StageView::ReadingMetadata { keys, items }.step(
        EventView::MetadataRead(world.links[key].metadata),
    );
    assert(world.serve(around, StageView::ReadingMetadata { keys, items }, steps) == world.serve(
        around,
        read,
        (steps - 1) as nat,
    ));
    let text = read->DecodingMetadata_text;
    assert(world.serve(around, read, (steps - 1) as nat) == world.serve(
        around,
        read.step(EventView::MetadataDecoded((around.decode)(text))),
        (steps - 2) as nat,
    ));
}

/// The steps that read the metadata of all keys that are left.
proof fn lemma_all_inspected(
    world: World,
    around: Surroundings,
    keys: Seq<Seq<char>>,
    items: Seq<ItemView>,
    steps: nat,
)
    requires
        items.len() <= keys.len(),
        items == keys.take(items.len() as int).map_values(
            |key: Seq<char>| inspected(world, around, key),
        ),
        steps >= 2 * (keys.len() - items.len()),
    ensures
        world.serve(around, next_metadata(keys, items), steps) == world.serve(
            around,
            StageView::Ranking {
                items: keys.map_values(|key: Seq<char>| inspected(world, around, key)),
            },
            (steps - 2 * (keys.len() - items.len())) as nat,
        ),
    decreases keys.len() - items.len(),
{
    if items.len() < keys.len() {
        let more = items.push(inspected(world, around, keys[items.len() as int]));
        lemma_inspected(world, around, keys, items, steps);
        assert(more =~= keys.take(more.len() as int).map_values(
            |key: Seq<char>| inspected(world, around, key),
        ));
        lemma_all_inspected(world, around, keys, more, (steps - 2) as nat);
    } else {
        assert(keys.take(keys.len() as int) =~= keys);
    }
}

/// With the right name and password, a login ranks all listed keys with the metadata that is
/// stored beside them, shows the rankings, and changes nothing.
pub proof fn law_login_shows_the_rankings(
    world: World,
    around: Surroundings,
    request: RequestView,
)
    requires
        is_login(request),
        is_authentic(around),
    ensures
        world.serve(around, first_stage(request), 5 + 2 * around.keys.len()) == (
            world,
            StageView::Ranking {
                items: around.keys.map_values(|key: Seq<char>| inspected(world, around, key)),
            },
        ),
        world.serve(around, first_stage(request), 6 + 2 * around.keys.len()) == (
            world,
            StageView::Answered(
                ResponseView::page(admin_page(around.lists.0, around.lists.1)),
            ),
        ),
{
    lemma_login_ranks(world, around, request, 5 + 2 * around.keys.len());
    lemma_login_ranks(world, around, request, 6 + 2 * around.keys.len());
    let items = around.keys.map_values(|key: Seq<char>| inspected(world, around, key));
    let shown = StageView::Answered(
        ResponseView::page(admin_page(around.lists.0, around.lists.1)),
    );
    assert(world.serve(around, StageView::Ranking { items }, 1) == world.serve(around, shown, 0));
}

/// The page that a login ends in shows the listed keys in both orders, each by the metadata that
/// is stored beside it: whatever page a request settles in after the keys have been read, it
/// holds correct rankings of them.
pub proof fn law_login_page_is_ranked(
    world: World,
    around: Surroundings,
    request: RequestView,
    page: StageView,
)
    requires
        is_login(request),
        is_authentic(around),
        settles(
            request.headers,
            world.serve(around, first_stage(request), 5 + 2 * around.keys.len()).1,
            page,
        ),
    ensures
        ({
            let items = around.keys.map_values(|key: Seq<char>| inspected(world, around, key));
            exists|recent: Seq<char>, visited: Seq<char>| #[trigger]
                ranked(items, recent, visited) && page == StageView::Answered(
                    ResponseView::page(admin_page(recent, visited)),
                )
        }),
{
    law_login_shows_the_rankings(world, around, request);
    let items = around.keys.map_values(|key: Seq<char>| inspected(world, around, key));
    let from = StageView::Ranking { items };
    let (recent, visited) = choose|recent: Seq<char>, visited: Seq<char>| #[trigger]
        ranked(items, recent, visited) && page == from.step(EventView::Ranked(recent, visited));
    assert(ranked(items, recent, visited));
}

/// The steps of a login up to the rankings.
proof fn lemma_login_ranks(
    world: World,
    around: Surroundings,
    request: RequestView,
    steps: nat,
)
    requires
        is_login(request),
        is_authentic(around),
        steps >= 5 + 2 * around.keys.len(),
    ensures
        world.serve(around, first_stage(request), steps) == world.serve(
            around,
            StageView::Ranking {
                items: around.keys.map_values(|key: Seq<char>| inspected(world, around, key)),
            },
            (steps - 5 - 2 * around.keys.len()) as nat,
        ),
{
    lemma_login_starts(request);
    let username = field(around.form, "username"@)->Some_0;
    let password = field(around.form, "password"@);
    let keys = around.keys;
    let n = (steps - 5) as nat;
    let s0 = StageView::OpeningSecrets;
    let s1 = StageView::ReadingLogin;
    let s2 = StageView::ReadingSecret { username, password };
    let s3 = StageView::OpeningListing;
    let s4 = StageView::Listing { keys: Seq::empty(), cursor: None };
    assert(world.serve(around, s0, n + 5) == world.serve(around, s1, n + 4));
    assert(world.serve(around, s1, n + 4) == world.serve(around, s2, n + 3));
    assert(world.serve(around, s2, n + 3) == world.serve(around, s3, n + 2));
    assert(world.serve(around, s3, n + 2) == world.serve(around, s4, n + 1));
    assert(Seq::<Seq<char>>::empty() + keys =~= keys);
    assert(world.serve(around, s4, n + 1) == world.serve(
        around,
        next_metadata(keys, Seq::empty()),
        n,
    ));
    assert(keys.take(0).map_values(|key: Seq<char>| inspected(world, around, key))
        =~= Seq::<ItemView>::empty());
    lemma_all_inspected(world, around, keys, Seq::empty(), n);
}

// ---------------------------------------------------------------------------------------------
// Every step, whatever the stores answer
// ---------------------------------------------------------------------------------------------

/// A method other than GET and POST is refused at once, on any path: nothing is waited for.
pub proof fn law_other_methods_are_refused(request: RequestView)
    requires
        request.method is Other,
    ensures
        first_stage(request) == StageView::Answered(ResponseView::method_not_allowed()),
        first_stage(request).action() is None,
{
}

/// A request that is done stays as it is.
pub proof fn law_done_stays_done(stage: StageView, event: EventView)
    requires
        stage.is_final(),
    ensures
        stage.step(event) == stage,
{
}

/// Whether a request in this stage has been let in to the list of the links.
pub open spec fn is_let_in(stage: StageView) -> bool {
    ||| stage is OpeningListing
    ||| stage is Listing
    ||| stage is ReadingMetadata
    ||| stage is DecodingMetadata
    ||| stage is Ranking
}

/// Nobody is let in to the list of the links but with the secret as the password.
pub proof fn law_only_the_password_lets_in(
    request: RequestView,
    stage: StageView,
    event: EventView,
)
    ensures
        !is_let_in(first_stage(request)),
        is_let_in(stage.step(event)) && !is_let_in(stage) ==> (stage matches StageView::ReadingSecret {
            username: _,
            password,
        } && event matches EventView::SecretRead(secret) && admitted(secret, password)),
{
}

/// A wrong password, or none, is answered with 401.
pub proof fn law_wrong_password_is_refused(
    username: Seq<char>,
    password: Option<Seq<char>>,
    secret: Option<Seq<u8>>,
)
    requires
        !admitted(secret, password),
    ensures
        (StageView::ReadingSecret { username, password }).step(EventView::SecretRead(secret))
            == StageView::Answered(ResponseView::bare(401)),
{
}

/// Whether a request in this stage is about to keep a link under a key.
pub open spec fn is_adding(stage: StageView, key: Seq<char>, url: Seq<char>) -> bool {
    match stage {
        StageView::StampingLink { key: k, url: u } => k == key && u == url,
        StageView::ReopeningLinks { key: k, url: u, metadata: _ } => k == key && u == url,
        StageView::SavingLink { key: k, url: u, metadata: _ } => k == key && u == url,
        _ => false,
    }
}

/// A submitted link is never put in the place of another: a request that is about to keep a link
/// under a key has looked for that key, and has been told that there is no link under it.
pub proof fn law_only_free_keys_are_taken(
    request: RequestView,
    stage: StageView,
    event: EventView,
    key: Seq<char>,
    url: Seq<char>,
)
    ensures
        !is_adding(first_stage(request), key, url),
        is_adding(stage.step(event), key, url) && !is_adding(stage, key, url) ==> stage == (
        StageView::FindingLink { key, url }) && event == EventView::LookedUp(LookupView::Missing),
{
}

/// Whether a stage waits for an event of this kind.
pub open spec fn awaits(stage: StageView, event: EventView) -> bool {
    match stage {
        StageView::Answered(_) => false,
        StageView::Failed(_) => false,
        StageView::OpeningSecrets => event is SecretsOpened,
        StageView::ReadingLogin => event is FormRead,
        StageView::ReadingSecret { .. } => event is SecretRead,
        StageView::OpeningListing => event is StoreOpened,
        StageView::Listing { .. } => event is Listed,
        StageView::ReadingMetadata { .. } => event is MetadataRead,
        StageView::DecodingMetadata { .. } => event is MetadataDecoded,
        StageView::Ranking { .. } => event is Ranked,
        StageView::ReadingForm => event is FormRead,
        StageView::OpeningWords { .. } => event is StoreOpened,
        StageView::FindingWords { .. } => event is LookedUp,
        StageView::DrawingWords { .. } => event is WordsDrawn,
        StageView::StampingWords { .. } => event is Stamped,
        StageView::ReopeningWords { .. } => event is StoreOpened,
        StageView::SavingWords { .. } => event is Inserted,
        StageView::OpeningLinks { .. } => event is StoreOpened,
        StageView::FindingLink { .. } => event is LookedUp,
        StageView::StampingLink { .. } => event is Stamped,
        StageView::ReopeningLinks { .. } => event is StoreOpened,
        StageView::SavingLink { .. } => event is Inserted,
        StageView::OpeningVisit { .. } => event is StoreOpened,
        StageView::FindingVisit { .. } => event is LookedUp,
        StageView::CountingVisit { .. } => event is MetadataDecoded,
        StageView::ReopeningVisit { .. } => event is StoreOpened,
        StageView::SavingVisit { .. } => event is Inserted,
    }
}

/// The store that an action uses as one that is open, if it uses one.
pub open spec fn used_store(action: Option<ActionView>) -> Option<Store> {
    match action {
        Some(ActionView::Lookup { store, .. }) => Some(store),
        Some(ActionView::Insert { store, .. }) => Some(store),
        Some(ActionView::List { .. }) => Some(Store::Links),
        Some(ActionView::ReadMetadata { .. }) => Some(Store::Links),
        _ => None,
    }
}

/// Whether a request in this stage goes through the listed keys.
pub open spec fn is_listing(stage: StageView) -> bool {
    stage is Listing || stage is ReadingMetadata || stage is DecodingMetadata
}

/// A store is open when it is used: a request comes to look up, insert or list in a store only
/// from having opened that very store, told that it is ready, or, in the course of a listing, from
/// the listing itself, which opens no other store.
pub proof fn law_used_store_is_open(request: RequestView, stage: StageView, event: EventView)
    requires
        awaits(stage, event),
    ensures
        used_store(first_stage(request).action()) is None,
        used_store(stage.step(event).action()) matches Some(store) ==> {
            ||| stage.action() == Some(ActionView::OpenStore(store)) && event
                == EventView::StoreOpened(OpenedView::Ready)
            ||| is_listing(stage) && is_listing(stage.step(event)) && store == Store::Links
        },
        is_listing(stage) ==> !(stage.action() matches Some(ActionView::OpenStore(_))),
{
}

/// The number of steps that a request in this stage is from its end at most, the pages of the
/// listing and what comes after them not counted where the listing is still to come.
pub open spec fn steps_left(stage: StageView) -> int {
    match stage {
        StageView::Answered(_) => 0,
        StageView::Failed(_) => 0,
        StageView::OpeningSecrets => 4,
        StageView::ReadingLogin => 3,
        StageView::ReadingSecret { .. } => 2,
        StageView::OpeningListing => 1,
        StageView::Listing { .. } => 0,
        StageView::ReadingMetadata { keys, items } => 2 * (keys.len() - items.len()) + 1,
        StageView::DecodingMetadata { keys, items, text: _ } => 2 * (keys.len() - items.len()),
        StageView::Ranking { .. } => 1,
        StageView::ReadingForm => 12,
        StageView::OpeningWords { .. } => 11,
        StageView::FindingWords { .. } => 10,
        StageView::DrawingWords { .. } => 9,
        StageView::StampingWords { .. } => 8,
        StageView::ReopeningWords { .. } => 7,
        StageView::SavingWords { .. } => 6,
        StageView::OpeningLinks { .. } => 5,
        StageView::FindingLink { .. } => 4,
        StageView::StampingLink { .. } => 3,
        StageView::ReopeningLinks { .. } => 2,
        StageView::SavingLink { .. } => 1,
        StageView::OpeningVisit { .. } => 5,
        StageView::FindingVisit { .. } => 4,
        StageView::CountingVisit { .. } => 3,
        StageView::ReopeningVisit { .. } => 2,
        StageView::SavingVisit { .. } => 1,
    }
}

/// Every answer that a request has waited for brings it closer to its end, whatever the answer
/// is. Only a listing goes on for as long as there are pages.
pub proof fn law_every_answer_moves_on(stage: StageView, event: EventView)
    requires
        stage.well_formed(),
        awaits(stage, event),
        !(stage is Listing),
    ensures
        0 <= steps_left(stage.step(event)) < steps_left(stage),
        stage.step(event).well_formed(),
{
}

/// The keys of several pages, one page after another.
pub open spec fn collected(pages: Seq<Seq<Seq<char>>>) -> Seq<Seq<char>>
    decreases pages.len(),
{
    if pages.len() == 0 {
        Seq::empty()
    } else {
        collected(pages.drop_last()) + pages.last()
    }
}

/// The stage of a listing after some pages, each of which came with a cursor to the next.
pub open spec fn listed(pages: Seq<Seq<Seq<char>>>, cursors: Seq<Seq<char>>) -> StageView
    decreases pages.len(),
{
    if pages.len() == 0 {
        StageView::Listing { keys: Seq::empty(), cursor: None }
    } else {
        listed(pages.drop_last(), cursors.drop_last()).step(
            EventView::Listed(Ok((pages.last(), Some(cursors.last())))),
        )
    }
}

/// A listing follows the cursors from page to page and collects the keys of all pages, in order;
/// it ends with the page that comes without a cursor.
pub proof fn law_listing_collects_every_page(
    pages: Seq<Seq<Seq<char>>>,
    cursors: Seq<Seq<char>>,
    last: Seq<Seq<char>>,
)
    requires
        pages.len() == cursors.len(),
    ensures
        listed(pages, cursors).action() == Some(
            ActionView::List {
                cursor: if cursors.len() == 0 {
                    None
                } else {
                    Some(cursors.last())
                },
            },
        ),
        listed(pages, cursors).step(EventView::Listed(Ok((last, None)))) == next_metadata(
            collected(pages) + last,
            Seq::empty(),
        ),
{
    lemma_listed(pages, cursors);
}

/// The keys that a listing has collected, and the cursor that it goes on with.
proof fn lemma_listed(pages: Seq<Seq<Seq<char>>>, cursors: Seq<Seq<char>>)
    requires
        pages.len() == cursors.len(),
    ensures
        listed(pages, cursors) == (StageView::Listing {
            keys: collected(pages),
            cursor: if cursors.len() == 0 {
                None
            } else {
                Some(cursors.last())
            },
        }),
    decreases pages.len(),
{
    if pages.len() > 0 {
        lemma_listed(pages.drop_last(), cursors.drop_last());
    }
}

/// The ranking that follows a listing has an item for every listed key, in the order of the
/// listing.
pub proof fn law_every_listed_key_is_ranked(
    keys: Seq<Seq<char>>,
    items: Seq<ItemView>,
    text: Seq<char>,
    event: EventView,
    all: Seq<ItemView>,
)
    requires
        (StageView::DecodingMetadata { keys, items, text }).well_formed(),
        (StageView::DecodingMetadata { keys, items, text }).step(event) == (StageView::Ranking {
            items: all,
        }),
    ensures
        all.map_values(|item: ItemView| item.key) == keys,
{
    assert(all.map_values(|item: ItemView| item.key) =~= keys);
}

// ---------------------------------------------------------------------------------------------
// Keys and URLs
// ---------------------------------------------------------------------------------------------

/// Whether a character can stand in a URL as it is: a letter, a digit, a dash or an underscore.
pub open spec fn is_url_safe(c: char) -> bool {
    ||| 'A' <= c <= 'Z'
    ||| 'a' <= c <= 'z'
    ||| '0' <= c <= '9'
    ||| c == '-'
    ||| c == '_'
}

/// The key that a URL is shortened to has five characters, all of them safe in a URL; in
/// particular there is no slash and no space among them.
pub proof fn law_hashed_key_is_short_and_safe(url: Seq<char>)
    ensures
        hashed_key(url).len() == 5,
        forall|i: int| 0 <= i < 5 ==> is_url_safe(#[trigger] hashed_key(url)[i]),
        !hashed_key(url).contains('/'),
        !hashed_key(url).contains(' '),
{
    let digest = crate::outside::sha512_digest(vstd::utf8::encode_utf8(url));
    assert(hashed_key(url) == key_of_digest(digest));
    assert forall|i: int| 0 <= i < 5 implies is_url_safe(#[trigger] hashed_key(url)[i]) by {
        let value = sextet(digest, i);
        assert(0 <= value < 64);
        assert(hashed_key(url)[i] == symbol(value));
    }
}

/// A key of memorable words is never empty, and has at most three words of five characters with
/// two dashes between them.
pub proof fn law_word_key_is_short(key: Seq<char>)
    requires
        is_word_key(key),
    ensures
        2 <= key.len() <= 17,
{
    let words = choose|words: Seq<Seq<char>>| #[trigger]
        word_parts(words) && key == joined(words, "-"@);
    reveal_strlit("-");
    let two = words.drop_last();
    let one = two.drop_last();
    assert(joined(one, "-"@) == words[0]);
    assert(joined(two, "-"@) == words[0] + "-"@ + words[1]);
    assert(key == words[0] + "-"@ + words[1] + "-"@ + words[2]);
    assert(words[0].len() <= 5 && words[1].len() <= 5 && words[2].len() <= 5);
}

/// A custom key keeps its characters but for its spaces, which become dashes.
pub proof fn law_custom_key_has_no_spaces(key: Seq<char>)
    ensures
        dashed(key).len() == key.len(),
        !dashed(key).contains(' '),
        forall|i: int|
            0 <= i < key.len() && key[i] != ' ' ==> #[trigger] dashed(key)[i] == key[i],
{
}

/// A custom key that is not empty decides, whether or not words are asked for.
pub proof fn law_custom_key_is_preferred(
    form: Map<Seq<char>, Seq<char>>,
    key: Seq<char>,
    url: Seq<char>,
)
    requires
        submits(form, url),
        field(form, "CKEY"@) == Some(key),
        key.len() > 0,
    ensures
        submitted(form) == (StageView::OpeningLinks { key: dashed(key), url }),
{
}

/// What the first position of a mark is.
proof fn lemma_first_position(text: Seq<char>, mark: char)
    ensures
        0 <= first_position(text, mark) <= text.len(),
        forall|i: int| 0 <= i < first_position(text, mark) ==> text[i] != mark,
        first_position(text, mark) < text.len() ==> text[first_position(text, mark)] == mark,
    decreases text.len(),
{
    if text.len() > 0 && text[0] != mark {
        let rest = text.drop_first();
        lemma_first_position(rest, mark);
        let p = first_position(text, mark);
        assert(p == 1 + first_position(rest, mark));
        assert forall|i: int| 0 <= i < p implies text[i] != mark by {
            if i > 0 {
                assert(rest[i - 1] == text[i]);
            }
        }
        if p < text.len() {
            assert(rest[p - 1] == text[p]);
        }
    }
}

/// There is one position that no mark stands before and a mark, or the end, stands at.
proof fn lemma_is_first_position(text: Seq<char>, mark: char, p: int)
    requires
        0 <= p <= text.len(),
        forall|i: int| 0 <= i < p ==> text[i] != mark,
        p < text.len() ==> text[p] == mark,
    ensures
        first_position(text, mark) == p,
{
    lemma_first_position(text, mark);
}

/// Trimming the end of a text takes a part from its front.
proof fn lemma_trimmed_end(text: Seq<char>)
    ensures
        trimmed_end(text).len() <= text.len(),
        trimmed_end(text) == text.take(trimmed_end(text).len() as int),
        trimmed_end(trimmed_end(text)) == trimmed_end(text),
    decreases text.len(),
{
    if text.len() > 0 && text.last() == ' ' {
        lemma_trimmed_end(text.drop_last());
        let n = trimmed_end(text).len() as int;
        assert(text.drop_last().take(n) =~= text.take(n));
    } else {
        assert(text.take(text.len() as int) =~= text);
    }
}

/// A URL whose query was stripped has no query: every `?` in it belongs to the fragment. Its
/// fragment is the one it had, and stripping it again changes nothing.
pub proof fn law_stripped_url_has_no_query(url: Seq<char>)
    ensures
        forall|i: int|
            0 <= i < first_position(without_query(url), '#') ==> without_query(url)[i] != '?',
        without_query(url).skip(first_position(without_query(url), '#')) == url.skip(
            first_position(url, '#'),
        ),
        without_query(without_query(url)) == without_query(url),
{
    lemma_first_position(url, '#');
    let f = first_position(url, '#');
    let base = url.take(f);
    lemma_first_position(base, '?');
    let q = first_position(base, '?');
    let kept = base.take(q);
    let result = without_query(url);
    if f < url.len() {
        assert(result == kept + url.skip(f));
        assert forall|i: int| 0 <= i < q implies result[i] != '#' && result[i] != '?' by {
            assert(result[i] == url[i]);
            assert(base[i] == url[i]);
        }
        assert(result[q] == url[f]);
        lemma_is_first_position(result, '#', q);
        assert(result.skip(q) =~= url.skip(f));
        assert(result.take(q) =~= kept);
        lemma_is_first_position(kept, '?', q);
        assert(kept.take(q) =~= kept);
        assert(without_query(result) =~= result);
    } else {
        lemma_trimmed_end(kept);
        let n = result.len() as int;
        assert forall|i: int| 0 <= i < n implies result[i] != '#' && result[i] != '?' by {
            assert(result[i] == kept[i]);
            assert(kept[i] == url[i]);
            assert(base[i] == url[i]);
        }
        lemma_is_first_position(result, '#', n);
        assert(result.take(n) =~= result);
        lemma_is_first_position(result, '?', n);
        assert(result.skip(n) =~= url.skip(f));
        assert(without_query(result) == result);
    }
}

/// An address is kept with its query unless the query is to be stripped.
pub proof fn law_query_is_kept_by_default(input: Seq<char>)
    ensures
        target(input, false) == parsed_url(input),
        target(input, true) is Ok <==> parsed_url(input) is Ok,
{
}

// ---------------------------------------------------------------------------------------------
// Rankings
// ---------------------------------------------------------------------------------------------

/// Reordered items are the same items, each as often as before.
pub proof fn law_reordering_keeps_items<T>(before: Seq<T>, after: Seq<T>)
    requires
        same_items(before, after),
    ensures
        after.to_multiset() == before.to_multiset(),
{
    let places = choose|places: Seq<int>| #[trigger]
        is_rearrangement(places, before.len()) && after == arranged(before, places);
    lemma_arranged_multiset(before, places);
}

/// A rearrangement keeps each element as often as it is there.
proof fn lemma_arranged_multiset<T>(items: Seq<T>, places: Seq<int>)
    requires
        is_rearrangement(places, items.len()),
    ensures
        arranged(items, places).to_multiset() == items.to_multiset(),
    decreases items.len(),
{
    broadcast use vstd::seq_lib::group_to_multiset_ensures;

    let result = arranged(items, places);
    if items.len() == 0 {
        assert(result =~= items);
    } else {
        let last = places.last();
        let fewer = items.remove(last);
        let shifted = places.drop_last().map_values(
            |place: int|
                if place > last {
                    place - 1
                } else {
                    place
                },
        );
        assert forall|i: int| 0 <= i < shifted.len() implies 0 <= #[trigger] shifted[i]
            < fewer.len() by {
            assert(places[i] != places[places.len() - 1]);
        }
        assert forall|i: int, j: int| 0 <= i < j < shifted.len() implies #[trigger] shifted[i]
            != #[trigger] shifted[j] by {
            assert(places[i] != places[j]);
            assert(places[i] != places[places.len() - 1]);
            assert(places[j] != places[places.len() - 1]);
        }
        lemma_arranged_multiset(fewer, shifted);
        assert(arranged(fewer, shifted) =~= result.drop_last()) by {
            assert forall|i: int| 0 <= i < shifted.len() implies fewer[#[trigger] shifted[i]]
                == items[places[i]] by {
                assert(places[i] != places[places.len() - 1]);
            }
        }
        assert(result =~= result.drop_last().push(items[last]));
        vstd::seq_lib::to_multiset_remove(items, last);
        assert(items.to_multiset() =~= fewer.to_multiset().insert(items[last])) by {
            assert(items.to_multiset().contains(items[last]));
        }
    }
}

/// A link that was made after another stands before it in the list of the most recent.
pub proof fn law_newer_stands_first(items: Seq<ItemView>, i: int, j: int)
    requires
        by_time(items),
        0 <= i < items.len(),
        0 <= j < items.len(),
        !not_before(made(items[j]), made(items[i])),
    ensures
        i < j,
{
    let instants = items.map_values(|item: ItemView| made(item));
    if j < i {
        assert(not_before(instants[j], instants[i]));
    }
}

/// Of two links that were made before the year 10000, the one that was made a millisecond or more
/// after the other stands before it in the list of the most recent.
pub proof fn law_later_link_stands_first(
    items: Seq<ItemView>,
    i: int,
    j: int,
    later: (i64, u32),
    earlier: (i64, u32),
)
    requires
        by_time(items),
        0 <= i < items.len(),
        0 <= j < items.len(),
        reads_back(items[i].metadata.time, later.0, later.1),
        reads_back(items[j].metadata.time, earlier.0, earlier.1),
        later.0 <= LAST_FOUR_DIGIT_SECOND,
        earlier.0 <= LAST_FOUR_DIGIT_SECOND,
        later.0 > earlier.0 || (later.0 == earlier.0 && later.1 / 1_000_000 > earlier.1 / 1_000_000),
    ensures
        i < j,
{
    law_newer_stands_first(items, i, j);
}

/// A link with more visits than another stands before it in the list of the most visited.
pub proof fn law_more_visited_stands_first(items: Seq<ItemView>, i: int, j: int)
    requires
        by_hits(items),
        0 <= i < items.len(),
        0 <= j < items.len(),
        items[i].metadata.hit_count > items[j].metadata.hit_count,
    ensures
        i < j,
{
}

} // verus!
