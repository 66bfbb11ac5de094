//! Laws of single operations: what each of them gives, for every input, said of its inputs and of
//! the fields of its results.

use vstd::prelude::*;

use crate::error::{Error, ErrorView};
use crate::http::{Asset, Body, BodyView, ContentType, Request, RequestView, Response, ResponseView};
use crate::laws::awaits;
use crate::links::{hashed_key, target, word_or_blank};
use crate::metadata::{
    displayable, header_views, item_views, made_at, optional_text, shown_headers, shown_value,
    Header, Item, ItemMetadata, ItemView, MetadataView,
};
use crate::outside::{
    base64_text, byte_or_zero, first_position, parsed_url, rfc3339_instant, rfc3339_text, sextet,
    sha512_digest, symbol, trimmed_end, utf8_error, without_query,
};
use crate::pages::{
    admin_page, link_page, ADMIN_END, ADMIN_MIDDLE, ADMIN_START, LONG_END, LONG_MIDDLE, LONG_START,
    SHORT_MIDDLE, SHORT_START,
};
use crate::ranking::{
    by_hits, by_time, newest_first, ranked, recent_list, recent_rows, same_items, visited_list,
    visited_rows, RECENT_HEADING, VISITED_HEADING,
};
use crate::session::{Action, ActionView};
use crate::stage::{
    admitted, first_stage, keyed, logging_in, next_metadata, submitted, Event, EventView, Stage,
    StageView,
};
use crate::store::{
    insertion_error, link_found, metadata_text, opening_error, optional_bytes, words_found,
    Inserted, InsertedView, Lookup, LookupView, Opened, OpenedView, Store, Stored, StoredView,
};
use crate::table::tabulated;
use crate::text::{dashed, decimal, joined, texts, without_slashes};

verus! {

// ---------------------------------------------------------------------------------------------
// Texts
// ---------------------------------------------------------------------------------------------

/// A text with dashes for spaces has as many characters as before; each space has become a dash,
/// and every other character is the one that was there.
pub proof fn law_dashes_stand_for_spaces(text: Seq<char>)
    ensures
        dashed(text).len() == text.len(),
        forall|i: int|
            0 <= i < text.len() ==> #[trigger] dashed(text)[i] == (if text[i] == ' ' {
                '-'
            } else {
                text[i]
            }),
{
}

/// Taking out slashes goes character by character: a slash leaves nothing, any other character
/// stays, and what stands side by side stays side by side.
pub proof fn law_only_slashes_are_taken_out(front: Seq<char>, back: Seq<char>, c: char)
    ensures
        without_slashes(Seq::empty()) == Seq::<char>::empty(),
        without_slashes(seq!['/']) == Seq::<char>::empty(),
        c != '/' ==> without_slashes(seq![c]) == seq![c],
        without_slashes(front + back) == without_slashes(front) + without_slashes(back),
        !without_slashes(front).contains('/'),
{
    let keep = |c: char| c != '/';
    reveal_with_fuel(Seq::filter, 2);
    assert(seq!['/'].drop_last() =~= Seq::empty());
    assert(seq![c].drop_last() =~= Seq::empty());
    assert(c != '/' ==> without_slashes(seq![c]) =~= seq![c]);
    Seq::filter_distributes_over_add(front, back, keep);
    broadcast use vstd::seq_lib::group_filter_ensures;

    assert forall|i: int| 0 <= i < without_slashes(front).len() implies without_slashes(front)[i]
        != '/' by {
        assert(keep(front.filter(keep)[i]));
    }
}

/// Joining sets the separator before each word but the first, and keeps every word whole.
pub proof fn law_joining_keeps_every_word(
    words: Seq<Seq<char>>,
    word: Seq<char>,
    separator: Seq<char>,
)
    ensures
        joined(Seq::empty(), separator) == Seq::<char>::empty(),
        joined(seq![word], separator) == word,
        words.len() > 0 ==> joined(words.push(word), separator) == joined(words, separator)
            + separator + word,
{
    assert(words.push(word).drop_last() =~= words);
}

/// A word that was drawn stands in a key whole, and where none was drawn nothing stands there.
pub proof fn law_drawn_words_are_whole(word: String)
    ensures
        word_or_blank(Some(word)) == word@,
        word_or_blank(None) == Seq::<char>::empty(),
{
}

/// The number that a numeral of decimal digits stands for.
pub open spec fn numeral_value(numeral: Seq<char>) -> int
    decreases numeral.len(),
{
    if numeral.len() == 0 {
        0
    } else {
        10 * numeral_value(numeral.drop_last()) + (numeral.last() as int - '0' as int)
    }
}

/// The numeral of a number is made of digits, stands for that number, and has no leading zero but
/// that of zero itself.
pub proof fn law_numeral_stands_for_its_number(n: nat)
    ensures
        decimal(n).len() > 0,
        forall|i: int| 0 <= i < decimal(n).len() ==> '0' <= #[trigger] decimal(n)[i] <= '9',
        numeral_value(decimal(n)) == n,
        decimal(n)[0] == '0' ==> n == 0 && decimal(n).len() == 1,
    decreases n,
{
    if n >= 10 {
        law_numeral_stands_for_its_number(n / 10);
        assert(decimal(n).drop_last() =~= decimal(n / 10));
        assert(decimal(n)[0] == decimal(n / 10)[0]);
    } else {
        reveal_with_fuel(numeral_value, 2);
        assert(decimal(n).drop_last() =~= Seq::empty());
    }
}

// ---------------------------------------------------------------------------------------------
// Keys and URLs
// ---------------------------------------------------------------------------------------------

/// The key of a URL is made of the SHA-512 digest of the whole URL: its five characters are the
/// first five of the digest's URL-safe base64 text.
pub proof fn law_key_is_made_of_the_whole_url(url: Seq<char>)
    ensures
        ({
            let digest = sha512_digest(vstd::utf8::encode_utf8(url));
            &&& hashed_key(url).len() == 5
            &&& forall|i: int|
                0 <= i < 5 ==> #[trigger] hashed_key(url)[i] == symbol(sextet(digest, i))
            &&& digest.len() >= 4 ==> hashed_key(url) == base64_text(digest).take(5)
        }),
{
    let digest = sha512_digest(vstd::utf8::encode_utf8(url));
    if digest.len() >= 4 {
        crate::links::law_key_of_digest(digest);
    }
}

/// URLs with different keys have different digests, and URLs with the same digest have the same
/// key: nothing but the digest of the whole text decides.
pub proof fn law_keys_differ_where_digests_do(a: Seq<char>, b: Seq<char>)
    ensures
        ({
            let x = sha512_digest(vstd::utf8::encode_utf8(a));
            let y = sha512_digest(vstd::utf8::encode_utf8(b));
            (hashed_key(a) == hashed_key(b)) <==> forall|i: int|
                0 <= i < 5 ==> symbol(#[trigger] sextet(x, i)) == symbol(sextet(y, i))
        }),
{
    let x = sha512_digest(vstd::utf8::encode_utf8(a));
    let y = sha512_digest(vstd::utf8::encode_utf8(b));
    law_key_is_made_of_the_whole_url(a);
    law_key_is_made_of_the_whole_url(b);
    if forall|i: int| 0 <= i < 5 ==> symbol(#[trigger] sextet(x, i)) == symbol(sextet(y, i)) {
        assert(hashed_key(a) =~= hashed_key(b));
    }
    if hashed_key(a) == hashed_key(b) {
        assert forall|i: int| 0 <= i < 5 implies symbol(#[trigger] sextet(x, i)) == symbol(
            sextet(y, i),
        ) by {
            assert(hashed_key(a)[i] == hashed_key(b)[i]);
        }
    }
}

/// A submitted address leads to the URL that it parses to, cut only where the query is to be
/// stripped, and then only by its query; where it does not parse, to the parser's message.
pub proof fn law_target_is_what_the_address_parses_to(input: Seq<char>)
    ensures
        parsed_url(input) matches Ok(url) ==> target(input, false) == Ok::<Seq<char>, Seq<char>>(
            url,
        ) && target(input, true) == Ok::<Seq<char>, Seq<char>>(without_query(url)),
        parsed_url(input) matches Err(message) ==> target(input, false) == Err::<
            Seq<char>,
            Seq<char>,
        >(message) && target(input, true) == Err::<Seq<char>, Seq<char>>(message),
{
}

/// The characters of URL-safe base64 are the letters, the digits, the dash and the underscore, in
/// this order.
pub proof fn law_base64_alphabet(value: int)
    requires
        0 <= value < 64,
    ensures
        symbol(value)
            == "ABCDEFGHIJKLMNOPQRSTUVWXYZabcdefghijklmnopqrstuvwxyz0123456789-_"@[value],
{
    reveal_strlit("ABCDEFGHIJKLMNOPQRSTUVWXYZabcdefghijklmnopqrstuvwxyz0123456789-_");
}

/// Four groups of six bits hold the bits of three bytes, in order.
pub proof fn law_sextets_hold_the_bytes(data: Seq<u8>, k: int)
    requires
        k >= 0,
    ensures
        ({
            let bytes = byte_or_zero(data, 3 * k) * 65536 + byte_or_zero(data, 3 * k + 1) * 256
                + byte_or_zero(data, 3 * k + 2);
            bytes == sextet(data, 4 * k) * 262144 + sextet(data, 4 * k + 1) * 4096 + sextet(
                data,
                4 * k + 2,
            ) * 64 + sextet(data, 4 * k + 3)
        }),
{
    lemma_sextet(data, k);
    let a = byte_or_zero(data, 3 * k);
    let b = byte_or_zero(data, 3 * k + 1);
    let c = byte_or_zero(data, 3 * k + 2);
    assert(a / 4 * 4 + a % 4 == a && b / 16 * 16 + b % 16 == b && c / 64 * 64 + c % 64 == c);
}

/// The four groups of six bits, each by the bytes that it spans.
proof fn lemma_sextet(data: Seq<u8>, k: int)
    requires
        k >= 0,
    ensures
        sextet(data, 4 * k) == byte_or_zero(data, 3 * k) / 4,
        sextet(data, 4 * k + 1) == byte_or_zero(data, 3 * k) % 4 * 16 + byte_or_zero(
            data,
            3 * k + 1,
        ) / 16,
        sextet(data, 4 * k + 2) == byte_or_zero(data, 3 * k + 1) % 16 * 4 + byte_or_zero(
            data,
            3 * k + 2,
        ) / 64,
        sextet(data, 4 * k + 3) == byte_or_zero(data, 3 * k + 2) % 64,
{
    let a = byte_or_zero(data, 3 * k);
    let b = byte_or_zero(data, 3 * k + 1);
    let c = byte_or_zero(data, 3 * k + 2);
    let d = byte_or_zero(data, 3 * k + 3);
    assert(sextet(data, 4 * k) == (a * 256 + b) / 1024 % 64) by {
        assert(6 * (4 * k) / 8 == 3 * k && 6 * (4 * k) % 8 == 0);
    }
    assert(sextet(data, 4 * k + 1) == (a * 256 + b) / 16 % 64) by {
        assert(6 * (4 * k + 1) / 8 == 3 * k && 6 * (4 * k + 1) % 8 == 6);
    }
    assert(sextet(data, 4 * k + 2) == (b * 256 + c) / 64 % 64) by {
        assert(6 * (4 * k + 2) / 8 == 3 * k + 1 && 6 * (4 * k + 2) % 8 == 4);
    }
    assert(sextet(data, 4 * k + 3) == (c * 256 + d) / 256 % 64) by {
        assert(6 * (4 * k + 3) / 8 == 3 * k + 2 && 6 * (4 * k + 3) % 8 == 2);
    }
    lemma_bits_of_a_pair(a, b);
    lemma_bits_of_a_pair(b, c);
    lemma_bits_of_a_pair(c, d);
}

/// The groups of six bits that start in the first of two bytes.
proof fn lemma_bits_of_a_pair(a: int, b: int)
    requires
        0 <= a < 256,
        0 <= b < 256,
    ensures
        (a * 256 + b) / 1024 % 64 == a / 4,
        (a * 256 + b) / 16 % 64 == a % 4 * 16 + b / 16,
        (a * 256 + b) / 64 % 64 == a % 16 * 4 + b / 64,
        (a * 256 + b) / 256 % 64 == a % 64,
{
    let pair = a * 256 + b;
    assert(pair / 1024 == a / 4);
    assert(pair / 16 == a * 16 + b / 16);
    assert(pair / 64 == a * 4 + b / 64);
    assert(pair / 256 == a);
}

/// Stripping takes the query out of a URL and nothing else: what stands before the first `?` or
/// `#`, at `end`, stays, and so does the fragment from the first `#`, at `fragment`, on. Only where
/// there is no fragment do spaces go that would then stand at the end.
pub proof fn law_stripping_takes_only_the_query(url: Seq<char>, end: int, fragment: int)
    requires
        0 <= end <= fragment <= url.len(),
        forall|i: int| 0 <= i < end ==> url[i] != '?' && url[i] != '#',
        end < fragment ==> url[end] == '?',
        forall|i: int| 0 <= i < fragment ==> url[i] != '#',
        fragment < url.len() ==> url[fragment] == '#',
    ensures
        fragment < url.len() ==> without_query(url) == url.take(end) + url.skip(fragment),
        fragment == url.len() ==> {
            let kept = without_query(url);
            &&& kept.len() <= end
            &&& kept == url.take(kept.len() as int)
            &&& forall|i: int| kept.len() <= i < end ==> url[i] == ' '
            &&& kept.len() > 0 ==> kept.last() != ' '
        },
{
    lemma_first_position_is(url, '#', fragment);
    let base = url.take(fragment);
    lemma_first_position_is(base, '?', end);
    assert(base.take(end) =~= url.take(end));
    if fragment == url.len() {
        lemma_trimmed(url.take(end));
        let kept = without_query(url);
        assert(kept =~= url.take(kept.len() as int));
        assert forall|i: int| kept.len() <= i < end implies url[i] == ' ' by {
            assert(url.take(end)[i] == ' ');
        }
    }
}

/// A position that no mark stands before, and that is the end or holds a mark, is the first one.
proof fn lemma_first_position_is(text: Seq<char>, mark: char, p: int)
    requires
        0 <= p <= text.len(),
        forall|i: int| 0 <= i < p ==> text[i] != mark,
        p < text.len() ==> text[p] == mark,
    ensures
        first_position(text, mark) == p,
    decreases text.len(),
{
    if p > 0 {
        let rest = text.drop_first();
        assert forall|i: int| 0 <= i < p - 1 implies rest[i] != mark by {
            assert(rest[i] == text[i + 1]);
        }
        lemma_first_position_is(rest, mark, p - 1);
    }
}

/// Trimming takes spaces off the end of a text, all of them, and nothing else.
proof fn lemma_trimmed(text: Seq<char>)
    ensures
        ({
            let kept = trimmed_end(text);
            &&& kept.len() <= text.len()
            &&& kept == text.take(kept.len() as int)
            &&& forall|i: int| kept.len() <= i < text.len() ==> text[i] == ' '
            &&& kept.len() > 0 ==> kept.last() != ' '
        }),
    decreases text.len(),
{
    if text.len() > 0 && text.last() == ' ' {
        let shorter = text.drop_last();
        lemma_trimmed(shorter);
        let kept = trimmed_end(text);
        assert(kept =~= text.take(kept.len() as int));
        assert forall|i: int| kept.len() <= i < text.len() implies text[i] == ' ' by {
            if i < shorter.len() {
                assert(shorter[i] == ' ');
            }
        }
    } else {
        assert(text.take(text.len() as int) =~= text);
    }
}

// ---------------------------------------------------------------------------------------------
// Responses and pages
// ---------------------------------------------------------------------------------------------

/// A redirect has the status 307 and leads to the whole URL; it has no body.
pub proof fn law_redirect_leads_to_the_whole_url(url: Seq<char>)
    ensures
        ResponseView::redirect(url).status == 307,
        ResponseView::redirect(url).location == Some(url),
        ResponseView::redirect(url).content_type is None,
        ResponseView::redirect(url).allow is None,
        ResponseView::redirect(url).body is Empty,
{
}

/// A page is sent whole, as HTML, with the status 200.
pub proof fn law_page_is_sent_whole(html: Seq<char>)
    ensures
        ResponseView::page(html).status == 200,
        ResponseView::page(html).content_type == Some(ContentType::Html),
        ResponseView::page(html).allow is None,
        ResponseView::page(html).location is None,
        ResponseView::page(html).body == BodyView::Text(html),
{
}

/// A response with a status alone has nothing else, and one with a file has its type besides.
pub proof fn law_responses_have_nothing_else(status: u16, content_type: ContentType, asset: Asset)
    ensures
        ResponseView::bare(status).status == status,
        ResponseView::bare(status).content_type is None,
        ResponseView::bare(status).allow is None,
        ResponseView::bare(status).location is None,
        ResponseView::bare(status).body is Empty,
        ResponseView::file(status, content_type, asset).status == status,
        ResponseView::file(status, content_type, asset).content_type == Some(content_type),
        ResponseView::file(status, content_type, asset).allow is None,
        ResponseView::file(status, content_type, asset).location is None,
        ResponseView::file(status, content_type, asset).body == BodyView::File(asset),
{
}

/// A key that leads nowhere is answered with the page for such keys and the status 404.
pub proof fn law_not_found_is_answered_with_its_page()
    ensures
        ResponseView::not_found().status == 404,
        ResponseView::not_found().content_type == Some(ContentType::Html),
        ResponseView::not_found().allow is None,
        ResponseView::not_found().location is None,
        ResponseView::not_found().body == BodyView::File(Asset::NotFound),
{
}

/// A method that is not allowed is answered with the status 405 and the methods that are.
pub proof fn law_refused_method_names_the_others()
    ensures
        ResponseView::method_not_allowed().status == 405,
        ResponseView::method_not_allowed().content_type == Some(ContentType::Plain),
        ResponseView::method_not_allowed().allow == Some("GET, POST"@),
        ResponseView::method_not_allowed().location is None,
        ResponseView::method_not_allowed().body == BodyView::Text("This method is not allowed\n"@),
{
}

/// The page of a shortened link holds the whole key twice and then the whole URL twice, between
/// texts that are the same for every link.
pub proof fn law_link_page_holds_key_and_url(key: Seq<char>, url: Seq<char>)
    ensures
        link_page(key, url) == seq![
            SHORT_START@,
            key,
            SHORT_MIDDLE@,
            key,
            LONG_START@,
            url,
            LONG_MIDDLE@,
            url,
            LONG_END@,
        ].flatten(),
{
    reveal_with_fuel(Seq::<_>::flatten, 10);
    assert(link_page(key, url) =~= seq![
        SHORT_START@,
        key,
        SHORT_MIDDLE@,
        key,
        LONG_START@,
        url,
        LONG_MIDDLE@,
        url,
        LONG_END@,
    ].flatten());
}

/// The page for the administrator holds both lists whole, the most recent links first.
pub proof fn law_admin_page_holds_both_lists(recent: Seq<char>, visited: Seq<char>)
    ensures
        admin_page(recent, visited) == seq![
            ADMIN_START@,
            recent,
            ADMIN_MIDDLE@,
            visited,
            ADMIN_END@,
        ].flatten(),
{
    reveal_with_fuel(Seq::<_>::flatten, 6);
    assert(admin_page(recent, visited) =~= seq![
        ADMIN_START@,
        recent,
        ADMIN_MIDDLE@,
        visited,
        ADMIN_END@,
    ].flatten());
}

/// The message of an error holds the whole of what came from outside, behind the words that are
/// set before it.
pub proof fn law_messages_are_whole(e: Seq<char>)
    ensures
        ErrorView::UrlParse(e).message() == "Error: "@ + e,
        ErrorView::Path(e).message() == "Error: "@ + e,
        ErrorView::UrlNotFound(e).message() == "Error: "@ + e,
        ErrorView::DecodingUrl(e).message() == "Error: "@ + e,
        ErrorView::SecretStoreInitialization(e).message() == "Error: "@ + e,
        ErrorView::Authentication(e).message() == "Error: "@ + e,
        ErrorView::HeaderParsing(e).message() == "Error: "@ + e,
        ErrorView::Json(e).message() == "Error (de)serializing json metadata: "@ + e,
        ErrorView::StoreNotFound(e).message() == "The "@ + e
            + " store was not found, did you forget to setup?"@,
        ErrorView::UrlNotFoundDev.message()
            == "Url Not Found, this will turn into an action later"@,
{
}

// ---------------------------------------------------------------------------------------------
// Rankings
// ---------------------------------------------------------------------------------------------

/// The row of an item in the list of the most recent links.
pub open spec fn recent_row(item: ItemView) -> Seq<char> {
    "<li>"@ + item.key + "</li>"@
}

/// The row of an item in the list of the most visited links.
pub open spec fn visited_row(item: ItemView) -> Seq<char> {
    "<li>("@ + decimal(item.metadata.hit_count as nat) + ") "@ + item.key + "</li>"@
}

/// The list of the most recent links has one row for every item, however many there are, in the
/// order of the items.
pub proof fn law_recent_list_has_every_row(items: Seq<ItemView>)
    ensures
        recent_list(items) == RECENT_HEADING@ + items.map_values(
            |item: ItemView| "<li>"@ + item.key + "</li>"@,
        ).flatten() + "</ol></div>"@,
{
    lemma_recent_rows(items);
    assert(items.map_values(|item: ItemView| "<li>"@ + item.key + "</li>"@) =~= items.map_values(
        |item: ItemView| recent_row(item),
    ));
}

/// The list of the most visited links has one row for every item, however many there are, in the
/// order of the items.
pub proof fn law_visited_list_has_every_row(items: Seq<ItemView>)
    ensures
        visited_list(items) == VISITED_HEADING@ + items.map_values(
            |item: ItemView|
                "<li>("@ + decimal(item.metadata.hit_count as nat) + ") "@ + item.key + "</li>"@,
        ).flatten() + "</ol></div>"@,
{
    lemma_visited_rows(items);
    assert(items.map_values(
        |item: ItemView|
            "<li>("@ + decimal(item.metadata.hit_count as nat) + ") "@ + item.key + "</li>"@,
    ) =~= items.map_values(|item: ItemView| visited_row(item)));
}

/// One more item adds its row to both lists, before the closing tags, and changes no other row.
pub proof fn law_one_more_item_is_one_more_row(items: Seq<ItemView>, item: ItemView)
    ensures
        exists|rows: Seq<char>|
            {
                &&& recent_list(items) == #[trigger] (RECENT_HEADING@ + rows) + "</ol></div>"@
                &&& recent_list(items.push(item)) == RECENT_HEADING@ + rows + "<li>"@ + item.key
                    + "</li>"@ + "</ol></div>"@
            },
        exists|rows: Seq<char>|
            {
                &&& visited_list(items) == #[trigger] (VISITED_HEADING@ + rows) + "</ol></div>"@
                &&& visited_list(items.push(item)) == VISITED_HEADING@ + rows + "<li>("@ + decimal(
                    item.metadata.hit_count as nat,
                ) + ") "@ + item.key + "</li>"@ + "</ol></div>"@
            },
{
    assert(items.push(item).drop_last() =~= items);
    let r = recent_rows(items);
    let v = visited_rows(items);
    assert(recent_list(items) == (RECENT_HEADING@ + r) + "</ol></div>"@);
    assert(recent_list(items.push(item)) =~= RECENT_HEADING@ + r + "<li>"@ + item.key + "</li>"@
        + "</ol></div>"@);
    assert(visited_list(items) == (VISITED_HEADING@ + v) + "</ol></div>"@);
    assert(visited_list(items.push(item)) =~= VISITED_HEADING@ + v + "<li>("@ + decimal(
        item.metadata.hit_count as nat,
    ) + ") "@ + item.key + "</li>"@ + "</ol></div>"@);
}

/// The rows of the most recent links are the rows of the items, one after another.
proof fn lemma_recent_rows(items: Seq<ItemView>)
    ensures
        recent_rows(items) == items.map_values(|item: ItemView| recent_row(item)).flatten(),
    decreases items.len(),
{
    let rows = items.map_values(|item: ItemView| recent_row(item));
    if items.len() > 0 {
        let fewer = items.drop_last();
        lemma_recent_rows(fewer);
        let shorter = fewer.map_values(|item: ItemView| recent_row(item));
        shorter.lemma_flatten_push(recent_row(items.last()));
        assert(rows =~= shorter.push(recent_row(items.last())));
        assert(recent_rows(items) =~= recent_rows(fewer) + recent_row(items.last()));
    }
}

/// The rows of the most visited links are the rows of the items, one after another.
proof fn lemma_visited_rows(items: Seq<ItemView>)
    ensures
        visited_rows(items) == items.map_values(|item: ItemView| visited_row(item)).flatten(),
    decreases items.len(),
{
    let rows = items.map_values(|item: ItemView| visited_row(item));
    if items.len() > 0 {
        let fewer = items.drop_last();
        lemma_visited_rows(fewer);
        let shorter = fewer.map_values(|item: ItemView| visited_row(item));
        shorter.lemma_flatten_push(visited_row(items.last()));
        assert(rows =~= shorter.push(visited_row(items.last())));
        assert(visited_rows(items) =~= visited_rows(fewer) + visited_row(items.last()));
    }
}

/// The instant that a time denotes, or the Unix epoch where it cannot be read.
pub open spec fn instant_or_epoch(time: Seq<char>) -> (i64, u32) {
    match rfc3339_instant(time) {
        Some(instant) => instant,
        None => (0, 0),
    }
}

/// Whether no item was made before one that stands behind it.
pub open spec fn goes_back_in_time(items: Seq<ItemView>) -> bool {
    forall|i: int, j: int|
        0 <= i < j < items.len() ==> {
            let a = instant_or_epoch((#[trigger] items[i]).metadata.time);
            let b = instant_or_epoch((#[trigger] items[j]).metadata.time);
            a.0 > b.0 || (a.0 == b.0 && a.1 >= b.1)
        }
}

/// Links that are in order by time go from the newest to the oldest, and links that are in order
/// by visits from the most visited to the least.
pub proof fn law_orders_are_as_they_are_named(items: Seq<ItemView>, instants: Seq<(i64, u32)>)
    ensures
        by_time(items) <==> goes_back_in_time(items),
        by_hits(items) <==> forall|i: int, j: int|
            0 <= i < j < items.len() ==> (#[trigger] items[i]).metadata.hit_count >= (
            #[trigger] items[j]).metadata.hit_count,
        newest_first(instants) <==> forall|i: int, j: int|
            0 <= i < j < instants.len() ==> (#[trigger] instants[i]).0 > (#[trigger] instants[j]).0
                || (instants[i].0 == instants[j].0 && instants[i].1 >= instants[j].1),
{
    let made = items.map_values(|item: ItemView| crate::ranking::made(item));
    if by_time(items) {
        assert forall|i: int, j: int| 0 <= i < j < items.len() implies {
            let a = instant_or_epoch((#[trigger] items[i]).metadata.time);
            let b = instant_or_epoch((#[trigger] items[j]).metadata.time);
            a.0 > b.0 || (a.0 == b.0 && a.1 >= b.1)
        } by {
            assert(crate::ranking::not_before(made[i], made[j]));
        }
    }
    if goes_back_in_time(items) {
        assert forall|i: int, j: int| 0 <= i < j < made.len() implies crate::ranking::not_before(
            #[trigger] made[i],
            #[trigger] made[j],
        ) by {
            assert(items[i].metadata.time == items[i].metadata.time && items[j].metadata.time
                == items[j].metadata.time);
        }
        assert(by_time(items));
    }
}

/// The two rankings of some links list every one of them, as often as it is there: once from the
/// newest to the oldest, and once from the most visited to the least, with the number of visits.
pub proof fn law_rankings_list_every_link(
    items: Seq<ItemView>,
    recent: Seq<char>,
    visited: Seq<char>,
)
    requires
        ranked(items, recent, visited),
    ensures
        exists|newest: Seq<ItemView>|
            {
                &&& newest.to_multiset() == items.to_multiset()
                &&& #[trigger] goes_back_in_time(newest)
                &&& recent == RECENT_HEADING@ + newest.map_values(
                    |item: ItemView| "<li>"@ + item.key + "</li>"@,
                ).flatten() + "</ol></div>"@
            },
        exists|top: Seq<ItemView>|
            {
                &&& top.to_multiset() == items.to_multiset()
                &&& #[trigger] by_hits(top)
                &&& forall|i: int, j: int|
                    0 <= i < j < top.len() ==> (#[trigger] top[i]).metadata.hit_count >= (
                    #[trigger] top[j]).metadata.hit_count
                &&& visited == VISITED_HEADING@ + top.map_values(
                    |item: ItemView|
                        "<li>("@ + decimal(item.metadata.hit_count as nat) + ") "@ + item.key
                            + "</li>"@,
                ).flatten() + "</ol></div>"@
            },
{
    let newest = choose|newest: Seq<ItemView>|
        same_items(items, newest) && #[trigger] by_time(newest) && recent == recent_list(newest);
    let top = choose|top: Seq<ItemView>|
        same_items(items, top) && #[trigger] by_hits(top) && visited == visited_list(top);
    crate::laws::law_reordering_keeps_items(items, newest);
    crate::laws::law_reordering_keeps_items(items, top);
    law_orders_are_as_they_are_named(newest, Seq::empty());
    law_orders_are_as_they_are_named(top, Seq::empty());
    law_recent_list_has_every_row(newest);
    law_visited_list_has_every_row(top);
    assert(goes_back_in_time(newest));
    assert(by_hits(top));
}

// ---------------------------------------------------------------------------------------------
// Metadata
// ---------------------------------------------------------------------------------------------

/// A visit adds one to the hit count and leaves everything else in the metadata as it is.
pub proof fn law_visit_adds_one_hit(metadata: MetadataView)
    requires
        metadata.hit_count < u64::MAX,
    ensures
        metadata.with_hit().hit_count == metadata.hit_count + 1,
        metadata.with_hit().version == metadata.version,
        metadata.with_hit().time == metadata.time,
        metadata.with_hit().headers == metadata.headers,
        metadata.with_hit().additional_data == metadata.additional_data,
{
}

/// Blank metadata has no time, no headers, no hits and nothing else.
pub proof fn law_blank_metadata_is_blank()
    ensures
        MetadataView::blank().version == 0,
        MetadataView::blank().time.len() == 0,
        MetadataView::blank().headers == Map::<Seq<char>, Seq<char>>::empty(),
        MetadataView::blank().hit_count == 0,
        MetadataView::blank().additional_data is None,
{
}

/// A header value is shown with all of its characters, one for each byte, or, where some byte of
/// it is neither visible ASCII nor a space nor a tab, not at all.
pub proof fn law_header_value_is_shown_whole_or_not_at_all(value: Seq<u8>)
    ensures
        (forall|i: int| 0 <= i < value.len() ==> 32 <= (#[trigger] value[i]) <= 126 || value[i] == 9)
            ==> shown_value(value).len() == value.len() && forall|i: int|
            0 <= i < value.len() ==> #[trigger] shown_value(value)[i] as int == value[i] as int,
        (exists|i: int|
            0 <= i < value.len() && !(32 <= (#[trigger] value[i]) <= 126 || value[i] == 9))
            ==> shown_value(value).len() == 0,
{
    if forall|i: int| 0 <= i < value.len() ==> 32 <= (#[trigger] value[i]) <= 126 || value[i] == 9 {
        assert(forall|i: int| 0 <= i < value.len() ==> displayable(#[trigger] value[i]));
    }
    if exists|i: int| 0 <= i < value.len() && !(32 <= (#[trigger] value[i]) <= 126 || value[i] == 9) {
        let i = choose|i: int|
            0 <= i < value.len() && !(32 <= (#[trigger] value[i]) <= 126 || value[i] == 9);
        assert(!displayable(value[i]));
    }
}

/// The metadata of a link that is made at an instant holds that instant's time, no hits, and every
/// header of the request: under each name the last value that came with it.
pub proof fn law_new_metadata_holds_time_and_headers(
    headers: Seq<(Seq<char>, Seq<u8>)>,
    seconds: i64,
    nanos: u32,
    i: int,
)
    requires
        0 <= i < headers.len(),
        forall|j: int| i < j < headers.len() ==> (#[trigger] headers[j]).0 != headers[i].0,
    ensures
        made_at(headers, seconds, nanos).headers.dom().contains(headers[i].0),
        made_at(headers, seconds, nanos).headers[headers[i].0] == shown_value(headers[i].1),
{
    lemma_last_counts(shown_headers(headers), i);
}

/// The metadata of a link that is made at an instant has no header that the request did not have,
/// and no hits.
pub proof fn law_new_metadata_holds_nothing_else(
    headers: Seq<(Seq<char>, Seq<u8>)>,
    seconds: i64,
    nanos: u32,
    name: Seq<char>,
)
    ensures
        made_at(headers, seconds, nanos).headers.dom().contains(name) ==> exists|i: int|
            0 <= i < headers.len() && (#[trigger] headers[i]).0 == name,
        made_at(headers, seconds, nanos).version == 0,
        made_at(headers, seconds, nanos).time == rfc3339_text(seconds, nanos),
        made_at(headers, seconds, nanos).hit_count == 0,
        made_at(headers, seconds, nanos).additional_data is None,
{
    if made_at(headers, seconds, nanos).headers.dom().contains(name) {
        lemma_named(shown_headers(headers), name);
        let shown = shown_headers(headers);
        let i = choose|i: int| 0 <= i < shown.len() && (#[trigger] shown[i]).0 == name;
        assert(headers[i].0 == name);
    }
}

/// Of several entries of one name the last one counts.
proof fn lemma_last_counts(entries: Seq<(Seq<char>, Seq<char>)>, i: int)
    requires
        0 <= i < entries.len(),
        forall|j: int| i < j < entries.len() ==> (#[trigger] entries[j]).0 != entries[i].0,
    ensures
        tabulated(entries).dom().contains(entries[i].0),
        tabulated(entries)[entries[i].0] == entries[i].1,
    decreases entries.len(),
{
    if i < entries.len() - 1 {
        let fewer = entries.drop_last();
        assert forall|j: int| i < j < fewer.len() implies (#[trigger] fewer[j]).0 != fewer[i].0 by {
            assert(entries[j].0 != entries[i].0);
        }
        lemma_last_counts(fewer, i);
        assert(entries[entries.len() - 1].0 != entries[i].0);
    }
}

/// A name in a table is the name of some entry.
proof fn lemma_named(entries: Seq<(Seq<char>, Seq<char>)>, name: Seq<char>)
    requires
        tabulated(entries).dom().contains(name),
    ensures
        exists|i: int| 0 <= i < entries.len() && (#[trigger] entries[i]).0 == name,
    decreases entries.len(),
{
    if entries.last().0 == name {
        assert(entries[entries.len() - 1].0 == name);
    } else {
        let fewer = entries.drop_last();
        lemma_named(fewer, name);
        let i = choose|i: int| 0 <= i < fewer.len() && (#[trigger] fewer[i]).0 == name;
        assert(entries[i].0 == name);
    }
}

/// Metadata that is stored as text reads as that text, whole; metadata that is not there reads as
/// the empty text; and bytes that are no text are an error.
pub proof fn law_stored_text_reads_back(text: Seq<char>, bytes: Seq<u8>)
    ensures
        metadata_text(Some(vstd::utf8::encode_utf8(text))) == Ok::<Seq<char>, ErrorView>(text),
        metadata_text(None) == Ok::<Seq<char>, ErrorView>(Seq::empty()),
        !vstd::utf8::valid_utf8(bytes) ==> metadata_text(Some(bytes)) == Err::<
            Seq<char>,
            ErrorView,
        >(ErrorView::DecodingUrl(utf8_error(bytes))),
        vstd::utf8::valid_utf8(bytes) ==> (metadata_text(Some(bytes)) matches Ok(read)
            && vstd::utf8::encode_utf8(read) == bytes),
{
    vstd::utf8::encode_utf8_valid_utf8(text);
    vstd::utf8::encode_utf8_decode_utf8(text);
    let none = Seq::<char>::empty();
    vstd::utf8::encode_utf8_valid_utf8(none);
    vstd::utf8::encode_utf8_decode_utf8(none);
    assert(vstd::utf8::encode_utf8(none) =~= Seq::<u8>::empty());
    if vstd::utf8::valid_utf8(bytes) {
        vstd::utf8::decode_utf8_encode_utf8(bytes);
    }
}

// ---------------------------------------------------------------------------------------------
// What a request asks for
// ---------------------------------------------------------------------------------------------

/// Whether a stage is the end of a request with a response of a status and nothing else.
pub open spec fn ends_bare(stage: StageView, status: u16) -> bool {
    stage matches StageView::Answered(response) && response.status == status
        && response.content_type is None && response.allow is None && response.location is None
        && response.body is Empty
}

/// Whether a stage is the end of a request with a file, the status 200 and a content type.
pub open spec fn ends_with_file(
    stage: StageView,
    asset: Asset,
    content_type: ContentType,
) -> bool {
    stage matches StageView::Answered(response) && response.status == 200 && response.content_type
        == Some(content_type) && response.allow is None && response.location is None
        && response.body == BodyView::File(asset)
}

/// Each path of the service's own gives what is kept for it; every other path is a visit to the
/// key that is left of it without its slashes.
pub proof fn law_paths_lead_where_they_say(request: RequestView)
    ensures
        !(request.method is Other) ==> {
            &&& request.path == "/"@ ==> ends_with_file(
                first_stage(request),
                Asset::Index,
                ContentType::Html,
            )
            &&& request.path == "/style.css"@ ==> ends_with_file(
                first_stage(request),
                Asset::Style,
                ContentType::Css,
            )
            &&& request.path == "/favicon.ico"@ ==> ends_with_file(
                first_stage(request),
                Asset::Favicon,
                ContentType::Png,
            )
            &&& request.path == "/admin"@ ==> ends_with_file(
                first_stage(request),
                Asset::Admin,
                ContentType::Html,
            )
            &&& request.path == "/admin-response"@ ==> first_stage(request)
                == StageView::OpeningSecrets
            &&& request.path == "/process"@ ==> first_stage(request) == StageView::ReadingForm
            &&& (request.path != "/"@ && request.path != "/style.css"@ && request.path
                != "/favicon.ico"@ && request.path != "/admin"@ && request.path
                != "/admin-response"@ && request.path != "/process"@) ==> first_stage(request) == (
            StageView::OpeningVisit { key: without_slashes(request.path) })
        },
        request.method is Other ==> (first_stage(request) matches StageView::Answered(response)
            && response.status == 405 && response.allow == Some("GET, POST"@)
            && response.content_type == Some(ContentType::Plain) && response.location is None
            && response.body == BodyView::Text("This method is not allowed\n"@)),
{
    reveal_strlit("/");
    reveal_strlit("/style.css");
    reveal_strlit("/favicon.ico");
    reveal_strlit("/admin");
    reveal_strlit("/admin-response");
    reveal_strlit("/process");
    assert("/"@.len() == 1);
    assert("/style.css"@.len() == 10);
    assert("/favicon.ico"@.len() == 12);
    assert("/admin"@.len() == 6);
    assert("/admin-response"@.len() == 15);
    assert("/process"@.len() == 8);
}

/// A form without a URL is a bad request, and one with an address that is no URL fails with what
/// the parser says.
pub proof fn law_form_needs_a_url(form: Map<Seq<char>, Seq<char>>)
    ensures
        !form.dom().contains("URL"@) ==> ends_bare(submitted(form), 400),
        form.dom().contains("URL"@) && parsed_url(form["URL"@]) is Err ==> submitted(form)
            == StageView::Failed(ErrorView::UrlParse(parsed_url(form["URL"@])->Err_0)),
{
}

/// The URL of a form is the one that its address parses to, without the query if and only if that
/// is asked for. The key is the custom key with dashes for spaces, if there is one that is not
/// empty; else it is left to memorable words, if they are asked for; else it is made of the digest
/// of the whole URL.
pub proof fn law_form_decides_key_and_url(form: Map<Seq<char>, Seq<char>>, parsed: Seq<char>)
    requires
        form.dom().contains("URL"@),
        parsed_url(form["URL"@]) == Ok::<Seq<char>, Seq<char>>(parsed),
    ensures
        ({
            let url = if form.dom().contains("STRIP"@) {
                without_query(parsed)
            } else {
                parsed
            };
            let digest = sha512_digest(vstd::utf8::encode_utf8(url));
            let is_custom = form.dom().contains("CKEY"@) && form["CKEY"@].len() > 0;
            &&& submitted(form) == keyed(form, url)
            &&& is_custom ==> (submitted(form) matches StageView::OpeningLinks { key, url: to }
                && to == url && key.len() == form["CKEY"@].len() && forall|i: int|
                0 <= i < key.len() ==> #[trigger] key[i] == (if form["CKEY"@][i] == ' ' {
                    '-'
                } else {
                    form["CKEY"@][i]
                }))
            &&& !is_custom && form.dom().contains("WORDS"@) ==> submitted(form) == (
            StageView::OpeningWords { url })
            &&& !is_custom && !form.dom().contains("WORDS"@) ==> (submitted(
                form,
            ) matches StageView::OpeningLinks { key, url: to } && to == url && key.len() == 5
                && forall|i: int|
                0 <= i < 5 ==> #[trigger] key[i] == symbol(sextet(digest, i)))
        }),
{
    let url = if form.dom().contains("STRIP"@) {
        without_query(parsed)
    } else {
        parsed
    };
    law_key_is_made_of_the_whole_url(url);
}

/// A login without a name is refused; otherwise the secret under that very name is read, and the
/// password is kept as it came.
pub proof fn law_login_reads_the_secret_of_the_name(form: Map<Seq<char>, Seq<char>>)
    ensures
        !form.dom().contains("username"@) ==> ends_bare(logging_in(form), 401),
        form.dom().contains("username"@) ==> (logging_in(form) matches StageView::ReadingSecret {
            username,
            password,
        } && username == form["username"@] && (form.dom().contains("password"@) ==> password
            == Some(form["password"@])) && (!form.dom().contains("password"@) ==> password is None)),
{
}

/// The administrator is let in if and only if there is a secret and a password, and the secret is
/// the password, byte for byte; otherwise the answer is 401.
pub proof fn law_secret_is_the_whole_password(
    username: Seq<char>,
    password: Option<Seq<char>>,
    secret: Option<Seq<u8>>,
)
    ensures
        admitted(secret, password) <==> (secret matches Some(s) && password matches Some(p) && s
            == vstd::utf8::encode_utf8(p)),
        ({
            let next = (StageView::ReadingSecret { username, password }).step(
                EventView::SecretRead(secret),
            );
            if secret matches Some(s) && password matches Some(p) && s == vstd::utf8::encode_utf8(
                p,
            ) {
                next == StageView::OpeningListing
            } else {
                ends_bare(next, 401)
            }
        }),
{
}

// ---------------------------------------------------------------------------------------------
// What the answers of the stores mean
// ---------------------------------------------------------------------------------------------

/// A store has one name, and an opening that did not succeed is reported with that name where
/// there is no such store, and with the reason otherwise.
pub proof fn law_openings_are_reported(e: Seq<char>)
    ensures
        Store::Links.spec_name() == "urls"@,
        Store::Words.spec_name() == "memorable_words"@,
        opening_error(Store::Links, OpenedView::Ready) is None,
        opening_error(Store::Words, OpenedView::Ready) is None,
        opening_error(Store::Links, OpenedView::Absent) == Some(
            ErrorView::StoreNotFound("urls"@),
        ),
        opening_error(Store::Words, OpenedView::Absent) == Some(
            ErrorView::StoreNotFound("memorable_words"@),
        ),
        opening_error(Store::Links, OpenedView::Failed(e)) == Some(ErrorView::UrlNotFound(e)),
        opening_error(Store::Words, OpenedView::Failed(e)) == Some(ErrorView::UrlNotFound(e)),
{
}

/// A lookup gives what is stored, unchanged. A link that is not there is an error of its own; words
/// that are not there, or are empty, are no error.
pub proof fn law_lookups_give_what_is_stored(stored: StoredView, e: Seq<char>)
    ensures
        link_found(LookupView::Found(stored)) == Ok::<StoredView, ErrorView>(stored),
        link_found(LookupView::Missing) == Err::<StoredView, ErrorView>(ErrorView::UrlNotFoundDev),
        link_found(LookupView::Failed(e)) == Err::<StoredView, ErrorView>(
            ErrorView::UrlNotFound(e),
        ),
        stored.body.len() > 0 ==> words_found(LookupView::Found(stored)) == Ok::<
            Option<Seq<char>>,
            ErrorView,
        >(Some(stored.body)),
        stored.body.len() == 0 ==> words_found(LookupView::Found(stored)) == Ok::<
            Option<Seq<char>>,
            ErrorView,
        >(None),
        words_found(LookupView::Missing) == Ok::<Option<Seq<char>>, ErrorView>(None),
        words_found(LookupView::Failed(e)) == Err::<Option<Seq<char>>, ErrorView>(
            ErrorView::UrlNotFound(e),
        ),
{
}

/// An insertion that did not succeed is reported with its reason.
pub proof fn law_insertions_are_reported(e: Seq<char>)
    ensures
        insertion_error(InsertedView::Done) is None,
        insertion_error(InsertedView::Unwritable(e)) == Some(ErrorView::Json(e)),
        insertion_error(InsertedView::Failed(e)) == Some(ErrorView::UrlNotFound(e)),
{
}

// ---------------------------------------------------------------------------------------------
// Steps
// ---------------------------------------------------------------------------------------------

/// An answer that a request does not wait for changes nothing.
pub proof fn law_other_answers_change_nothing(stage: StageView, event: EventView)
    requires
        !awaits(stage, event),
    ensures
        stage.step(event) == stage,
{
}

/// The only answer that a request cannot go on with is metadata whose hit count is full.
pub proof fn law_only_a_full_count_stops(stage: StageView, event: EventView)
    ensures
        !stage.can_step(event) <==> stage is CountingVisit && (
        event matches EventView::MetadataDecoded(Ok(metadata)) && metadata.hit_count == u64::MAX),
{
}

/// A login opens the secrets, reads its form, and fails with the reason where it cannot.
pub proof fn law_steps_of_a_login(form: Map<Seq<char>, Seq<char>>, e: Seq<char>)
    ensures
        StageView::OpeningSecrets.step(EventView::SecretsOpened(Ok(()))) == StageView::ReadingLogin,
        StageView::OpeningSecrets.step(EventView::SecretsOpened(Err(e))) == StageView::Failed(
            ErrorView::SecretStoreInitialization(e),
        ),
        StageView::ReadingLogin.step(EventView::FormRead(Ok(form))) == logging_in(form),
        StageView::ReadingLogin.step(EventView::FormRead(Err(e))) == StageView::Failed(
            ErrorView::Path(e),
        ),
{
}

/// A listing starts with no keys, adds the keys of each page behind those it has, goes on where
/// there is a cursor, and otherwise goes through all of the keys.
pub proof fn law_steps_of_a_listing(
    keys: Seq<Seq<char>>,
    cursor: Option<Seq<char>>,
    page: Seq<Seq<char>>,
    next: Seq<char>,
    e: Seq<char>,
)
    ensures
        StageView::OpeningListing.step(EventView::StoreOpened(OpenedView::Ready)) == (
        StageView::Listing { keys: Seq::empty(), cursor: None }),
        StageView::OpeningListing.step(EventView::StoreOpened(OpenedView::Absent))
            == StageView::Failed(ErrorView::StoreNotFound("urls"@)),
        StageView::OpeningListing.step(EventView::StoreOpened(OpenedView::Failed(e)))
            == StageView::Failed(ErrorView::UrlNotFound(e)),
        (StageView::Listing { keys, cursor }).step(EventView::Listed(Ok((page, Some(next))))) == (
        StageView::Listing { keys: keys + page, cursor: Some(next) }),
        (keys + page).len() > 0 ==> (StageView::Listing { keys, cursor }).step(
            EventView::Listed(Ok((page, None))),
        ) == (StageView::ReadingMetadata { keys: keys + page, items: Seq::empty() }),
        (keys + page).len() == 0 ==> (StageView::Listing { keys, cursor }).step(
            EventView::Listed(Ok((page, None))),
        ) == (StageView::Ranking { items: Seq::empty() }),
        (StageView::Listing { keys, cursor }).step(EventView::Listed(Err(e))) == StageView::Failed(
            ErrorView::UrlNotFound(e),
        ),
{
}

/// Each listed key gets the metadata that is stored beside it, or blank metadata where that cannot
/// be read; the keys after it follow, and the ranking comes when there is none left.
pub proof fn law_steps_through_the_keys(
    keys: Seq<Seq<char>>,
    items: Seq<ItemView>,
    text: Seq<char>,
    bytes: Seq<u8>,
    metadata: MetadataView,
    e: Seq<char>,
)
    requires
        items.len() < keys.len(),
    ensures
        (StageView::ReadingMetadata { keys, items }).step(
            EventView::MetadataRead(Some(vstd::utf8::encode_utf8(text))),
        ) == (StageView::DecodingMetadata { keys, items, text }),
        (StageView::ReadingMetadata { keys, items }).step(EventView::MetadataRead(None)) == (
        StageView::DecodingMetadata { keys, items, text: Seq::empty() }),
        !vstd::utf8::valid_utf8(bytes) ==> (StageView::ReadingMetadata { keys, items }).step(
            EventView::MetadataRead(Some(bytes)),
        ) == (StageView::DecodingMetadata { keys, items, text: Seq::empty() }),
        ({
            let item = ItemView { key: keys[items.len() as int], metadata };
            let next = (StageView::DecodingMetadata { keys, items, text }).step(
                EventView::MetadataDecoded(Ok(metadata)),
            );
            if items.len() + 1 < keys.len() {
                next == (StageView::ReadingMetadata { keys, items: items.push(item) })
            } else {
                next == (StageView::Ranking { items: items.push(item) })
            }
        }),
        ({
            let blank = MetadataView {
                version: 0,
                time: Seq::empty(),
                headers: Map::empty(),
                hit_count: 0,
                additional_data: None,
            };
            let item = ItemView { key: keys[items.len() as int], metadata: blank };
            let next = (StageView::DecodingMetadata { keys, items, text }).step(
                EventView::MetadataDecoded(Err(e)),
            );
            if items.len() + 1 < keys.len() {
                next == (StageView::ReadingMetadata { keys, items: items.push(item) })
            } else {
                next == (StageView::Ranking { items: items.push(item) })
            }
        }),
{
    law_stored_text_reads_back(text, bytes);
}

/// While some key has no item yet, the metadata of the next key is read; then the ranking comes,
/// of all items.
pub proof fn law_ranking_waits_for_every_key(keys: Seq<Seq<char>>, items: Seq<ItemView>)
    ensures
        items.len() < keys.len() ==> next_metadata(keys, items) == (StageView::ReadingMetadata {
            keys,
            items,
        }),
        items.len() >= keys.len() ==> next_metadata(keys, items) == (StageView::Ranking { items }),
{
}

/// The rankings are shown on the page for the administrator, both whole.
pub proof fn law_step_that_shows_the_rankings(
    items: Seq<ItemView>,
    recent: Seq<char>,
    visited: Seq<char>,
)
    ensures
        (StageView::Ranking { items }).step(EventView::Ranked(recent, visited)) matches
            StageView::Answered(response) && response.status == 200 && response.content_type
            == Some(ContentType::Html) && response.allow is None && response.location is None
            && response.body == BodyView::Text(
            ADMIN_START@ + recent + ADMIN_MIDDLE@ + visited + ADMIN_END@,
        ),
{
}

/// Whether a stage is the end of a request with the page of a shortened link.
pub open spec fn ends_with_link_page(stage: StageView, key: Seq<char>, url: Seq<char>) -> bool {
    stage matches StageView::Answered(response) && response.status == 200 && response.content_type
        == Some(ContentType::Html) && response.allow is None && response.location is None
        && response.body == BodyView::Text(
        SHORT_START@ + key + SHORT_MIDDLE@ + key + LONG_START@ + url + LONG_MIDDLE@ + url
            + LONG_END@,
    )
}

/// Memorable words are looked up for the URL: those that are there are its key; where there are
/// none, new ones are drawn, kept for the URL, and are its key. What fails on the way fails the
/// request, with the reason.
pub proof fn law_steps_of_memorable_words(
    url: Seq<char>,
    words: Seq<char>,
    metadata: MetadataView,
    stored: StoredView,
    e: Seq<char>,
)
    ensures
        StageView::ReadingForm.step(EventView::FormRead(Err(e))) == StageView::Failed(
            ErrorView::Path(e),
        ),
        (StageView::OpeningWords { url }).step(EventView::StoreOpened(OpenedView::Ready)) == (
        StageView::FindingWords { url }),
        (StageView::OpeningWords { url }).step(EventView::StoreOpened(OpenedView::Absent))
            == StageView::Failed(ErrorView::StoreNotFound("memorable_words"@)),
        (StageView::OpeningWords { url }).step(EventView::StoreOpened(OpenedView::Failed(e)))
            == StageView::Failed(ErrorView::UrlNotFound(e)),
        stored.body.len() > 0 ==> (StageView::FindingWords { url }).step(
            EventView::LookedUp(LookupView::Found(stored)),
        ) == (StageView::OpeningLinks { key: stored.body, url }),
        stored.body.len() == 0 ==> (StageView::FindingWords { url }).step(
            EventView::LookedUp(LookupView::Found(stored)),
        ) == (StageView::DrawingWords { url }),
        (StageView::FindingWords { url }).step(EventView::LookedUp(LookupView::Missing)) == (
        StageView::DrawingWords { url }),
        (StageView::FindingWords { url }).step(EventView::LookedUp(LookupView::Failed(e)))
            == StageView::Failed(ErrorView::UrlNotFound(e)),
        (StageView::DrawingWords { url }).step(EventView::WordsDrawn(words)) == (
        StageView::StampingWords { url, words }),
        (StageView::StampingWords { url, words }).step(EventView::Stamped(metadata)) == (
        StageView::ReopeningWords { url, words, metadata }),
        (StageView::ReopeningWords { url, words, metadata }).step(
            EventView::StoreOpened(OpenedView::Ready),
        ) == (StageView::SavingWords { url, words, metadata }),
        (StageView::ReopeningWords { url, words, metadata }).step(
            EventView::StoreOpened(OpenedView::Absent),
        ) == StageView::Failed(ErrorView::StoreNotFound("memorable_words"@)),
        (StageView::ReopeningWords { url, words, metadata }).step(
            EventView::StoreOpened(OpenedView::Failed(e)),
        ) == StageView::Failed(ErrorView::UrlNotFound(e)),
        (StageView::SavingWords { url, words, metadata }).step(
            EventView::Inserted(InsertedView::Done),
        ) == (StageView::OpeningLinks { key: words, url }),
        (StageView::SavingWords { url, words, metadata }).step(
            EventView::Inserted(InsertedView::Unwritable(e)),
        ) == StageView::Failed(ErrorView::Json(e)),
        (StageView::SavingWords { url, words, metadata }).step(
            EventView::Inserted(InsertedView::Failed(e)),
        ) == StageView::Failed(ErrorView::UrlNotFound(e)),
{
}

/// A link is looked up under its key: one that is there is shown with its own URL; where there is
/// none, the new link is kept, and is shown with its URL whether or not it could be kept.
pub proof fn law_steps_of_a_link(
    key: Seq<char>,
    url: Seq<char>,
    metadata: MetadataView,
    stored: StoredView,
    inserted: InsertedView,
    e: Seq<char>,
)
    ensures
        (StageView::OpeningLinks { key, url }).step(EventView::StoreOpened(OpenedView::Ready)) == (
        StageView::FindingLink { key, url }),
        (StageView::OpeningLinks { key, url }).step(EventView::StoreOpened(OpenedView::Absent))
            == StageView::Failed(ErrorView::StoreNotFound("urls"@)),
        (StageView::OpeningLinks { key, url }).step(EventView::StoreOpened(OpenedView::Failed(e)))
            == StageView::Failed(ErrorView::UrlNotFound(e)),
        ends_with_link_page(
            (StageView::FindingLink { key, url }).step(
                EventView::LookedUp(LookupView::Found(stored)),
            ),
            key,
            stored.body,
        ),
        (StageView::FindingLink { key, url }).step(EventView::LookedUp(LookupView::Missing)) == (
        StageView::StampingLink { key, url }),
        (StageView::FindingLink { key, url }).step(EventView::LookedUp(LookupView::Failed(e)))
            == StageView::Failed(ErrorView::UrlNotFound(e)),
        (StageView::StampingLink { key, url }).step(EventView::Stamped(metadata)) == (
        StageView::ReopeningLinks { key, url, metadata }),
        (StageView::ReopeningLinks { key, url, metadata }).step(
            EventView::StoreOpened(OpenedView::Ready),
        ) == (StageView::SavingLink { key, url, metadata }),
        ends_with_link_page(
            (StageView::ReopeningLinks { key, url, metadata }).step(
                EventView::StoreOpened(OpenedView::Absent),
            ),
            key,
            url,
        ),
        ends_with_link_page(
            (StageView::ReopeningLinks { key, url, metadata }).step(
                EventView::StoreOpened(OpenedView::Failed(e)),
            ),
            key,
            url,
        ),
        ends_with_link_page(
            (StageView::SavingLink { key, url, metadata }).step(EventView::Inserted(inserted)),
            key,
            url,
        ),
{
}

/// Whether a stage is the end of a request with the page for keys that lead nowhere.
pub open spec fn ends_not_found(stage: StageView) -> bool {
    stage matches StageView::Answered(response) && response.status == 404 && response.content_type
        == Some(ContentType::Html) && response.allow is None && response.location is None
        && response.body == BodyView::File(Asset::NotFound)
}

/// A visit looks up its key. A link that is not there, or cannot be looked up, is not found. One
/// that is there gets one more hit, or its first where it has no metadata, is kept as it was
/// otherwise, and is what the visitor is sent to, whole. What fails on the way fails the request,
/// with the reason.
pub proof fn law_steps_of_a_visit(
    key: Seq<char>,
    location: Seq<char>,
    text: Seq<char>,
    bytes: Seq<u8>,
    metadata: MetadataView,
    e: Seq<char>,
)
    ensures
        (StageView::OpeningVisit { key }).step(EventView::StoreOpened(OpenedView::Ready)) == (
        StageView::FindingVisit { key }),
        ends_not_found(
            (StageView::OpeningVisit { key }).step(EventView::StoreOpened(OpenedView::Absent)),
        ),
        ends_not_found(
            (StageView::OpeningVisit { key }).step(EventView::StoreOpened(OpenedView::Failed(e))),
        ),
        ends_not_found(
            (StageView::FindingVisit { key }).step(EventView::LookedUp(LookupView::Missing)),
        ),
        ends_not_found(
            (StageView::FindingVisit { key }).step(EventView::LookedUp(LookupView::Failed(e))),
        ),
        (StageView::FindingVisit { key }).step(
            EventView::LookedUp(
                LookupView::Found(
                    StoredView {
                        body: location,
                        metadata: Some(vstd::utf8::encode_utf8(text)),
                    },
                ),
            ),
        ) == (StageView::CountingVisit { key, location, text }),
        !vstd::utf8::valid_utf8(bytes) ==> (StageView::FindingVisit { key }).step(
            EventView::LookedUp(
                LookupView::Found(StoredView { body: location, metadata: Some(bytes) }),
            ),
        ) == StageView::Failed(ErrorView::DecodingUrl(utf8_error(bytes))),
        ({
            let first = MetadataView {
                version: 0,
                time: Seq::empty(),
                headers: Map::empty(),
                hit_count: 1,
                additional_data: None,
            };
            (StageView::FindingVisit { key }).step(
                EventView::LookedUp(
                    LookupView::Found(StoredView { body: location, metadata: None }),
                ),
            ) == (StageView::ReopeningVisit { key, location, metadata: first })
        }),
        metadata.hit_count < u64::MAX ==> (StageView::CountingVisit { key, location, text }).step(
            EventView::MetadataDecoded(Ok(metadata)),
        ) == (StageView::ReopeningVisit {
            key,
            location,
            metadata: MetadataView { hit_count: (metadata.hit_count + 1) as u64, ..metadata },
        }),
        (StageView::CountingVisit { key, location, text }).step(EventView::MetadataDecoded(Err(e)))
            == StageView::Failed(ErrorView::Json(e)),
        (StageView::ReopeningVisit { key, location, metadata }).step(
            EventView::StoreOpened(OpenedView::Ready),
        ) == (StageView::SavingVisit { key, location, metadata }),
        (StageView::ReopeningVisit { key, location, metadata }).step(
            EventView::StoreOpened(OpenedView::Absent),
        ) == StageView::Failed(ErrorView::StoreNotFound("urls"@)),
        (StageView::ReopeningVisit { key, location, metadata }).step(
            EventView::StoreOpened(OpenedView::Failed(e)),
        ) == StageView::Failed(ErrorView::UrlNotFound(e)),
        (StageView::SavingVisit { key, location, metadata }).step(
            EventView::Inserted(InsertedView::Unwritable(e)),
        ) == StageView::Failed(ErrorView::Json(e)),
        (StageView::SavingVisit { key, location, metadata }).step(
            EventView::Inserted(InsertedView::Failed(e)),
        ) == StageView::Failed(ErrorView::UrlNotFound(e)),
        ({
            let done = (StageView::SavingVisit { key, location, metadata }).step(
                EventView::Inserted(InsertedView::Done),
            );
            done matches StageView::Answered(response) && response.status == 307
                && response.location == Some(location) && response.content_type is None
                && response.allow is None && response.body is Empty
        }),
{
    law_stored_text_reads_back(text, bytes);
}

/// A request waits for just what its stage is about, with the very key, URL, words and metadata
/// that the stage holds.
pub proof fn law_requests_wait_for_what_they_need(
    key: Seq<char>,
    url: Seq<char>,
    words: Seq<char>,
    metadata: MetadataView,
    keys: Seq<Seq<char>>,
    items: Seq<ItemView>,
    cursor: Option<Seq<char>>,
    password: Option<Seq<char>>,
)
    ensures
        StageView::OpeningSecrets.action() == Some(ActionView::OpenSecrets),
        StageView::ReadingLogin.action() == Some(ActionView::ReadForm),
        StageView::ReadingForm.action() == Some(ActionView::ReadForm),
        (StageView::ReadingSecret { username: key, password }).action() == Some(
            ActionView::ReadSecret(key),
        ),
        StageView::OpeningListing.action() == Some(ActionView::OpenStore(Store::Links)),
        (StageView::Listing { keys, cursor }).action() == Some(ActionView::List { cursor }),
        (StageView::ReadingMetadata { keys, items }).action() == Some(
            ActionView::ReadMetadata { key: keys[items.len() as int] },
        ),
        (StageView::DecodingMetadata { keys, items, text: key }).action() == Some(
            ActionView::DecodeMetadata { text: key },
        ),
        (StageView::OpeningWords { url }).action() == Some(ActionView::OpenStore(Store::Words)),
        (StageView::FindingWords { url }).action() == Some(
            ActionView::Lookup { store: Store::Words, key: url },
        ),
        (StageView::ReopeningWords { url, words, metadata }).action() == Some(
            ActionView::OpenStore(Store::Words),
        ),
        (StageView::SavingWords { url, words, metadata }).action() == Some(
            ActionView::Insert { store: Store::Words, key: url, text: words, metadata },
        ),
        (StageView::OpeningLinks { key, url }).action() == Some(
            ActionView::OpenStore(Store::Links),
        ),
        (StageView::FindingLink { key, url }).action() == Some(
            ActionView::Lookup { store: Store::Links, key },
        ),
        (StageView::ReopeningLinks { key, url, metadata }).action() == Some(
            ActionView::OpenStore(Store::Links),
        ),
        (StageView::SavingLink { key, url, metadata }).action() == Some(
            ActionView::Insert { store: Store::Links, key, text: url, metadata },
        ),
        (StageView::OpeningVisit { key }).action() == Some(ActionView::OpenStore(Store::Links)),
        (StageView::FindingVisit { key }).action() == Some(
            ActionView::Lookup { store: Store::Links, key },
        ),
        (StageView::CountingVisit { key, location: url, text: words }).action() == Some(
            ActionView::DecodeMetadata { text: words },
        ),
        (StageView::ReopeningVisit { key, location: url, metadata }).action() == Some(
            ActionView::OpenStore(Store::Links),
        ),
        (StageView::SavingVisit { key, location: url, metadata }).action() == Some(
            ActionView::Insert { store: Store::Links, key, text: url, metadata },
        ),
        (StageView::DrawingWords { url }).action() is None,
        (StageView::StampingWords { url, words }).action() is None,
        (StageView::StampingLink { key, url }).action() is None,
        (StageView::Ranking { items }).action() is None,
{
}

/// A request is done when it is answered or has failed, and only then; it waits for nothing by
/// then.
pub proof fn law_only_the_end_is_final(stage: StageView)
    ensures
        stage.is_final() <==> stage is Answered || stage is Failed,
        stage.is_final() ==> stage.action() is None,
        stage.is_settled() <==> stage is Answered || stage is Failed || stage.action() is Some,
{
}

// ---------------------------------------------------------------------------------------------
// Views
// ---------------------------------------------------------------------------------------------

/// The view of a list holds the view of each element, in order, and nothing else.
pub proof fn law_lists_are_seen_whole(
    strings: Seq<String>,
    items: Seq<Item>,
    headers: Seq<Header>,
)
    ensures
        texts(strings).len() == strings.len(),
        forall|i: int| 0 <= i < strings.len() ==> #[trigger] texts(strings)[i] == strings[i]@,
        item_views(items).len() == items.len(),
        forall|i: int|
            0 <= i < items.len() ==> (#[trigger] item_views(items)[i]).key == items[i].key@
                && item_views(items)[i].metadata == items[i].metadata@,
        header_views(headers).len() == headers.len(),
        forall|i: int|
            0 <= i < headers.len() ==> (#[trigger] header_views(headers)[i]).0 == headers[i].0@
                && header_views(headers)[i].1 == headers[i].1@,
{
}

/// What is optional is seen whole where it is there, and as absent where it is not.
pub proof fn law_options_are_seen_whole(text: String, bytes: Vec<u8>)
    ensures
        optional_text(Some(text)) == Some(text@),
        optional_text(None) is None,
        optional_bytes(Some(bytes)) == Some(bytes@),
        optional_bytes(None) is None,
{
}

/// The view of a request, a response, metadata or a stored item holds each field whole.
pub proof fn law_values_are_seen_whole(
    request: Request,
    response: Response,
    metadata: ItemMetadata,
    stored: Stored,
)
    ensures
        request@.method == request.method,
        request@.path == request.path@,
        request@.headers == header_views(request.headers@),
        response@.status == response.status,
        response@.content_type == response.content_type,
        match response.allow {
            Some(text) => response@.allow == Some(text@),
            None => response@.allow is None,
        },
        match response.location {
            Some(text) => response@.location == Some(text@),
            None => response@.location is None,
        },
        match response.body {
            Body::Empty => response@.body == BodyView::Empty,
            Body::Text(text) => response@.body == BodyView::Text(text@),
            Body::File(asset) => response@.body == BodyView::File(asset),
        },
        metadata@.version == metadata.version,
        metadata@.time == metadata.time@,
        metadata@.headers == metadata.headers@,
        metadata@.hit_count == metadata.hit_count,
        match metadata.additional_data {
            Some(text) => metadata@.additional_data == Some(text@),
            None => metadata@.additional_data is None,
        },
        stored@.body == stored.body@,
        match stored.metadata {
            Some(bytes) => stored@.metadata == Some(bytes@),
            None => stored@.metadata is None,
        },
{
}

/// The view of an error or of a store's answer holds the whole of what it says.
pub proof fn law_answers_are_seen_whole(
    error: Error,
    opened: Opened,
    lookup: Lookup,
    inserted: Inserted,
)
    ensures
        match error {
            Error::UrlParse(e) => error@ == ErrorView::UrlParse(e@),
            Error::Path(e) => error@ == ErrorView::Path(e@),
            Error::Json(e) => error@ == ErrorView::Json(e@),
            Error::UrlNotFound(e) => error@ == ErrorView::UrlNotFound(e@),
            Error::DecodingUrl(e) => error@ == ErrorView::DecodingUrl(e@),
            Error::SecretStoreInitialization(e) => error@ == ErrorView::SecretStoreInitialization(
                e@,
            ),
            Error::Authentication(e) => error@ == ErrorView::Authentication(e@),
            Error::HeaderParsing(e) => error@ == ErrorView::HeaderParsing(e@),
            Error::StoreNotFound(e) => error@ == ErrorView::StoreNotFound(e@),
            Error::UrlNotFoundDev => error@ == ErrorView::UrlNotFoundDev,
        },
        match opened {
            Opened::Ready => opened@ == OpenedView::Ready,
            Opened::Absent => opened@ == OpenedView::Absent,
            Opened::Failed(e) => opened@ == OpenedView::Failed(e@),
        },
        match lookup {
            Lookup::Found(stored) => lookup@ == LookupView::Found(stored@),
            Lookup::Missing => lookup@ == LookupView::Missing,
            Lookup::Failed(e) => lookup@ == LookupView::Failed(e@),
        },
        match inserted {
            Inserted::Done => inserted@ == InsertedView::Done,
            Inserted::Unwritable(e) => inserted@ == InsertedView::Unwritable(e@),
            Inserted::Failed(e) => inserted@ == InsertedView::Failed(e@),
        },
{
}

/// The view of an event holds the whole of what has happened.
pub proof fn law_events_are_seen_whole(event: Event)
    ensures
        match event {
            Event::SecretsOpened(Ok(())) => event@ == EventView::SecretsOpened(Ok(())),
            Event::SecretsOpened(Err(e)) => event@ == EventView::SecretsOpened(Err(e@)),
            Event::FormRead(Ok(form)) => event@ == EventView::FormRead(Ok(form@)),
            Event::FormRead(Err(e)) => event@ == EventView::FormRead(Err(e@)),
            Event::SecretRead(Some(secret)) => event@ == EventView::SecretRead(Some(secret@)),
            Event::SecretRead(None) => event@ == EventView::SecretRead(None),
            Event::StoreOpened(opened) => event@ == EventView::StoreOpened(opened@),
            Event::LookedUp(lookup) => event@ == EventView::LookedUp(lookup@),
            Event::Inserted(inserted) => event@ == EventView::Inserted(inserted@),
            Event::Listed(Ok((keys, Some(next)))) => event@ == EventView::Listed(
                Ok((texts(keys@), Some(next@))),
            ),
            Event::Listed(Ok((keys, None))) => event@ == EventView::Listed(
                Ok((texts(keys@), None)),
            ),
            Event::Listed(Err(e)) => event@ == EventView::Listed(Err(e@)),
            Event::MetadataRead(Some(bytes)) => event@ == EventView::MetadataRead(Some(bytes@)),
            Event::MetadataRead(None) => event@ == EventView::MetadataRead(None),
            Event::MetadataDecoded(Ok(metadata)) => event@ == EventView::MetadataDecoded(
                Ok(metadata@),
            ),
            Event::MetadataDecoded(Err(e)) => event@ == EventView::MetadataDecoded(Err(e@)),
            Event::WordsDrawn(words) => event@ == EventView::WordsDrawn(words@),
            Event::Stamped(metadata) => event@ == EventView::Stamped(metadata@),
            Event::Ranked(recent, visited) => event@ == EventView::Ranked(recent@, visited@),
        },
{
}

/// The view of a stage holds the whole of what a request has come to.
pub proof fn law_stages_are_seen_whole(stage: Stage)
    ensures
        match stage {
            Stage::Answered(response) => stage@ == StageView::Answered(response@),
            Stage::Failed(error) => stage@ == StageView::Failed(error@),
            Stage::OpeningSecrets => stage@ == StageView::OpeningSecrets,
            Stage::ReadingLogin => stage@ == StageView::ReadingLogin,
            Stage::ReadingSecret { username, password: Some(password) } => stage@ == (
            StageView::ReadingSecret { username: username@, password: Some(password@) }),
            Stage::ReadingSecret { username, password: None } => stage@ == (
            StageView::ReadingSecret { username: username@, password: None }),
            Stage::OpeningListing => stage@ == StageView::OpeningListing,
            Stage::Listing { keys, cursor: Some(cursor) } => stage@ == (StageView::Listing {
                keys: texts(keys@),
                cursor: Some(cursor@),
            }),
            Stage::Listing { keys, cursor: None } => stage@ == (StageView::Listing {
                keys: texts(keys@),
                cursor: None,
            }),
            Stage::ReadingMetadata { keys, items } => stage@ == (StageView::ReadingMetadata {
                keys: texts(keys@),
                items: item_views(items@),
            }),
            Stage::DecodingMetadata { keys, items, text } => stage@ == (
            StageView::DecodingMetadata {
                keys: texts(keys@),
                items: item_views(items@),
                text: text@,
            }),
            Stage::Ranking { items } => stage@ == (StageView::Ranking {
                items: item_views(items@),
            }),
            Stage::ReadingForm => stage@ == StageView::ReadingForm,
            Stage::OpeningWords { url } => stage@ == (StageView::OpeningWords { url: url@ }),
            Stage::FindingWords { url } => stage@ == (StageView::FindingWords { url: url@ }),
            Stage::DrawingWords { url } => stage@ == (StageView::DrawingWords { url: url@ }),
            Stage::StampingWords { url, words } => stage@ == (StageView::StampingWords {
                url: url@,
                words: words@,
            }),
            Stage::ReopeningWords { url, words, metadata } => stage@ == (
            StageView::ReopeningWords { url: url@, words: words@, metadata: metadata@ }),
            Stage::SavingWords { url, words, metadata } => stage@ == (StageView::SavingWords {
                url: url@,
                words: words@,
                metadata: metadata@,
            }),
            Stage::OpeningLinks { key, url } => stage@ == (StageView::OpeningLinks {
                key: key@,
                url: url@,
            }),
            Stage::FindingLink { key, url } => stage@ == (StageView::FindingLink {
                key: key@,
                url: url@,
            }),
            Stage::StampingLink { key, url } => stage@ == (StageView::StampingLink {
                key: key@,
                url: url@,
            }),
            Stage::ReopeningLinks { key, url, metadata } => stage@ == (
            StageView::ReopeningLinks { key: key@, url: url@, metadata: metadata@ }),
            Stage::SavingLink { key, url, metadata } => stage@ == (StageView::SavingLink {
                key: key@,
                url: url@,
                metadata: metadata@,
            }),
            Stage::OpeningVisit { key } => stage@ == (StageView::OpeningVisit { key: key@ }),
            Stage::FindingVisit { key } => stage@ == (StageView::FindingVisit { key: key@ }),
            Stage::CountingVisit { key, location, text } => stage@ == (StageView::CountingVisit {
                key: key@,
                location: location@,
                text: text@,
            }),
            Stage::ReopeningVisit { key, location, metadata } => stage@ == (
            StageView::ReopeningVisit { key: key@, location: location@, metadata: metadata@ }),
            Stage::SavingVisit { key, location, metadata } => stage@ == (StageView::SavingVisit {
                key: key@,
                location: location@,
                metadata: metadata@,
            }),
        },
{
}

/// The view of an action holds the whole of what is to be done.
pub proof fn law_actions_are_seen_whole(action: Action<'_>)
    ensures
        match action {
            Action::OpenSecrets => action@ == ActionView::OpenSecrets,
            Action::ReadForm => action@ == ActionView::ReadForm,
            Action::ReadSecret(name) => action@ == ActionView::ReadSecret(name@),
            Action::OpenStore(store) => action@ == ActionView::OpenStore(store),
            Action::Lookup { store, key } => action@ == (ActionView::Lookup { store, key: key@ }),
            Action::Insert { store, key, text, metadata } => action@ == (ActionView::Insert {
                store,
                key: key@,
                text: text@,
                metadata: metadata@,
            }),
            Action::List { cursor: Some(cursor) } => action@ == (ActionView::List {
                cursor: Some(cursor@),
            }),
            Action::List { cursor: None } => action@ == (ActionView::List { cursor: None }),
            Action::ReadMetadata { key } => action@ == (ActionView::ReadMetadata { key: key@ }),
            Action::DecodeMetadata { text } => action@ == (ActionView::DecodeMetadata {
                text: text@,
            }),
        },
{
}

} // verus!
