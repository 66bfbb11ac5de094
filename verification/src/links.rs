//! Links: the addresses that are shortened and the keys that they are shortened to.

use vstd::prelude::*;

use crate::error::{Error, ErrorView};
use crate::outside::{
    base64_text, base64_url_safe, choose_one, clear_query, draw_word, is_plain, parse_url,
    parsed_url, sextet, sha512, sha512_digest, symbol, without_query,
};
use crate::text::{join, joined, texts};

verus! {

/// An address that has been parsed as an absolute URL, in its serialized form.
#[derive(Debug)]
pub struct Url {
    text: String,
}

impl View for Url {
    type V = Seq<char>;

    closed spec fn view(&self) -> Seq<char> {
        self.text@
    }
}

impl Url {
    /// The serialization of the URL.
    pub fn as_str(&self) -> (text: &str)
        ensures
            text@ == self@,
    {
        self.text.as_str()
    }

    /// The serialization of the URL, as a string of its own.
    pub fn to_text(&self) -> (text: String)
        ensures
            text@ == self@,
    {
        self.text.clone()
    }
}

/// Parses the submitted address. It is accepted if and only if it is an absolute URL. The URL is in
/// normal form, unless its host is in Punycode or its path starts with a drive letter: it is
/// accepted again, unchanged.
pub fn verify_url(input: &str) -> (verified: Result<Url, Error>)
    ensures
        match verified {
            Ok(url) => parsed_url(input@) == Ok::<Seq<char>, Seq<char>>(url@) && (is_plain(url@)
                ==> parsed_url(url@) == Ok::<Seq<char>, Seq<char>>(url@)),
            Err(error) => error@ matches ErrorView::UrlParse(message) && parsed_url(input@) == Err::<
                Seq<char>,
                Seq<char>,
            >(message),
        },
{
    match parse_url(input) {
        Ok(text) => Ok(Url { text }),
        Err(message) => Err(Error::UrlParse(message)),
    }
}

/// The URL that a submitted address leads to: the URL it parses to, without its query where the
/// query is to be stripped; or the message of the parse error.
pub open spec fn target(input: Seq<char>, strip: bool) -> Result<Seq<char>, Seq<char>> {
    match parsed_url(input) {
        Ok(url) => Ok(if strip { without_query(url) } else { url }),
        Err(message) => Err(message),
    }
}

/// Parses the submitted address and, where `strip` is set, clears its query.
pub fn find_target(input: &str, strip: bool) -> (found: Result<Url, Error>)
    ensures
        match found {
            Ok(url) => target(input@, strip) == Ok::<Seq<char>, Seq<char>>(url@),
            Err(error) => error@ matches ErrorView::UrlParse(message) && target(input@, strip)
                == Err::<Seq<char>, Seq<char>>(message),
        },
{
    let url: Url = match verify_url(input) {
        Ok(url) => url,
        Err(error) => return Err(error),
    };
    if strip {
        Ok(Url { text: clear_query(input) })
    } else {
        Ok(url)
    }
}

/// The first five characters of the URL-safe base64 text of a digest.
pub open spec fn key_of_digest(digest: Seq<u8>) -> Seq<char> {
    Seq::new(5, |i: int| symbol(sextet(digest, i)))
}

/// Cuts the base64 text of a digest down to its first five characters.
pub fn short_key(digest: &[u8]) -> (key: String)
    requires
        digest@.len() >= 4,
        base64_text(digest@).len() <= usize::MAX,
    ensures
        key@ == key_of_digest(digest@),
        key@ == base64_text(digest@).take(5),
{
    let encoded: String = base64_url_safe(digest);
    let key: String = encoded.as_str().substring_char(0, 5).to_owned();
    proof {
        assert(key@ =~= key_of_digest(digest@));
        law_key_of_digest(digest@);
    }
    key
}

/// The key that a URL is shortened to.
pub open spec fn hashed_key(url: Seq<char>) -> Seq<char> {
    key_of_digest(sha512_digest(vstd::utf8::encode_utf8(url)))
}

/// Shortens a URL to five characters: SHA-512 of the URL's text, that digest in URL-safe base64,
/// and of the base64 text the first five characters.
pub fn shorten(input: &Url) -> (key: String)
    ensures
        key@ == hashed_key(input@),
        key@ == base64_text(sha512_digest(vstd::utf8::encode_utf8(input@))).take(5),
{
    let digest: Vec<u8> = sha512(input.as_str().as_bytes());
    short_key(digest.as_slice())
}

/// A key of a digest is cut from the front of the digest's URL-safe base64 text.
pub proof fn law_key_of_digest(digest: Seq<u8>)
    requires
        digest.len() >= 4,
    ensures
        key_of_digest(digest) == base64_text(digest).take(5),
{
    assert(key_of_digest(digest) =~= base64_text(digest).take(5));
}

/// Whether a length is what a choice among three, four and five gave, or three where that choice
/// gave nothing.
pub closed spec fn is_chosen_length(len: usize) -> bool {
    exists|options: &[usize], chosen: Option<usize>|
        options@ == seq![3usize, 4, 5] && #[trigger] call_ensures(
            choose_one,
            (options,),
            chosen,
        ) && len == (match chosen {
            Some(len) => len,
            None => 3,
        })
}

/// Some length of a memorable word: three, four or five characters. Chance decides which.
pub fn generate_word_length() -> (len: usize)
    ensures
        3 <= len <= 5,
        is_chosen_length(len),
{
    let word_lengths: [usize; 3] = [3, 4, 5];
    let options: &[usize] = &word_lengths;
    let chosen: Option<usize> = choose_one(options);
    proof {
        assert(options@ =~= seq![3usize, 4, 5]);
        assert(call_ensures(choose_one, (options,), chosen));
    }
    length_or_three(chosen)
}

/// The length that was chosen, or three where none was.
pub fn length_or_three(chosen: Option<usize>) -> (len: usize)
    ensures
        len == (match chosen {
            Some(len) => len,
            None => 3,
        }),
{
    match chosen {
        Some(len) => len,
        None => 3,
    }
}

/// Whether a word is what drawing a word of a chosen length gave: a word of the word list, or
/// blank where nothing could be drawn.
pub closed spec fn is_drawn_word(word: Seq<char>) -> bool {
    exists|len: usize, drawn: Option<String>| #[trigger]
        call_ensures(draw_word, (len,), drawn) && is_chosen_length(len) && word == word_or_blank(
            drawn,
        )
}

/// Whether a key is made of three memorable words with dashes between them. Each word is drawn; it
/// has three to five characters, or none where no word could be drawn.
pub open spec fn is_word_key(key: Seq<char>) -> bool {
    exists|words: Seq<Seq<char>>| #[trigger] word_parts(words) && key == joined(words, "-"@)
}

/// Whether these are three words as a key of memorable words is made of.
pub open spec fn word_parts(words: Seq<Seq<char>>) -> bool {
    &&& words.len() == 3
    &&& forall|i: int| 0 <= i < 3 ==> (#[trigger] words[i]).len() == 0 || 3 <= words[i].len() <= 5
    &&& forall|i: int| 0 <= i < 3 ==> is_drawn_word(#[trigger] words[i])
}

/// Each of the three parts of a key of memorable words is what the generator of English words
/// gave for a length that was chosen among three, four and five; only where it gave nothing is
/// the part blank.
pub(crate) proof fn law_word_key_is_drawn(key: Seq<char>)
    requires
        is_word_key(key),
    ensures
        exists|a: (usize, Option<String>), b: (usize, Option<String>), c: (usize, Option<String>)|
            {
                &&& #[trigger] call_ensures(draw_word, (a.0,), a.1)
                &&& #[trigger] call_ensures(draw_word, (b.0,), b.1)
                &&& #[trigger] call_ensures(draw_word, (c.0,), c.1)
                &&& is_chosen_length(a.0) && is_chosen_length(b.0) && is_chosen_length(c.0)
                &&& key == (match a.1 {
                    Some(word) => word@,
                    None => Seq::empty(),
                }) + seq!['-'] + (match b.1 {
                    Some(word) => word@,
                    None => Seq::empty(),
                }) + seq!['-'] + (match c.1 {
                    Some(word) => word@,
                    None => Seq::empty(),
                })
            },
{
    let words = choose|words: Seq<Seq<char>>| #[trigger]
        word_parts(words) && key == joined(words, "-"@);
    assert(is_drawn_word(words[0]) && is_drawn_word(words[1]) && is_drawn_word(words[2]));
    let a = choose|len: usize, drawn: Option<String>| #[trigger]
        call_ensures(draw_word, (len,), drawn) && is_chosen_length(len) && words[0]
            == word_or_blank(drawn);
    let b = choose|len: usize, drawn: Option<String>| #[trigger]
        call_ensures(draw_word, (len,), drawn) && is_chosen_length(len) && words[1]
            == word_or_blank(drawn);
    let c = choose|len: usize, drawn: Option<String>| #[trigger]
        call_ensures(draw_word, (len,), drawn) && is_chosen_length(len) && words[2]
            == word_or_blank(drawn);
    reveal_strlit("-");
    assert("-"@ =~= seq!['-']);
    let two = words.drop_last();
    let one = two.drop_last();
    assert(joined(one, "-"@) == words[0]);
    assert(joined(two, "-"@) == words[0] + "-"@ + words[1]);
    assert(call_ensures(draw_word, (a.0,), a.1));
    assert(call_ensures(draw_word, (b.0,), b.1));
    assert(call_ensures(draw_word, (c.0,), c.1));
}

/// A chosen length is three, four or five, and the choice was made among those three.
pub(crate) proof fn law_length_is_chosen(len: usize)
    requires
        is_chosen_length(len),
    ensures
        3 <= len <= 5,
        exists|options: &[usize], chosen: Option<usize>|
            options@ == seq![3usize, 4, 5] && #[trigger] call_ensures(
                choose_one,
                (options,),
                chosen,
            ) && (chosen == Some(len) || chosen is None),
{
    let (options, chosen) = choose|options: &[usize], chosen: Option<usize>|
        options@ == seq![3usize, 4, 5] && #[trigger] call_ensures(
            choose_one,
            (options,),
            chosen,
        ) && len == (match chosen {
            Some(len) => len,
            None => 3,
        });
    assert(call_ensures(choose_one, (options,), chosen));
}

/// The text of a word that was drawn, which is empty where none could be.
pub open spec fn word_or_blank(word: Option<String>) -> Seq<char> {
    match word {
        Some(word) => word@,
        None => Seq::empty(),
    }
}

/// Makes a key of the words that were drawn, with dashes between them.
pub fn key_of_words(drawn: Vec<Option<String>>) -> (key: String)
    ensures
        key@ == joined(drawn@.map_values(|word: Option<String>| word_or_blank(word)), "-"@),
{
    let ghost blanks = drawn@.map_values(|word: Option<String>| word_or_blank(word));
    let mut words: Vec<String> = Vec::new();
    for word in it: drawn
        invariant
            it.seq() == drawn@,
            blanks == drawn@.map_values(|word: Option<String>| word_or_blank(word)),
            texts(words@) == blanks.take(it.index()),
    {
        let ghost before = words@;
        words.push(
            match word {
                Some(word) => word,
                None => String::new(),
            },
        );
        proof {
            assert(texts(words@) =~= texts(before).push(word_or_blank(word)));
            assert(blanks.take(it.index() + 1) =~= blanks.take(it.index()).push(
                word_or_blank(word),
            ));
        }
    }
    proof {
        assert(blanks.take(blanks.len() as int) =~= blanks);
    }
    join(&words, "-")
}

/// Draws a key of three random words.
pub fn shorten_with_words() -> (key: String)
    ensures
        is_word_key(key@),
{
    let mut drawn: Vec<Option<String>> = Vec::new();
    while drawn.len() < 3
        invariant
            drawn@.len() <= 3,
            forall|i: int|
                0 <= i < drawn@.len() ==> ((#[trigger] drawn@[i]) matches Some(word) ==> 3
                    <= word@.len() <= 5),
            forall|i: int|
                0 <= i < drawn@.len() ==> is_drawn_word(word_or_blank(#[trigger] drawn@[i])),
        decreases 3 - drawn@.len(),
    {
        drawn.push(draw_word(generate_word_length()));
        proof {
            assert(is_drawn_word(word_or_blank(drawn@.last())));
        }
    }
    proof {
        assert(word_parts(drawn@.map_values(|word: Option<String>| word_or_blank(word))));
    }
    key_of_words(drawn)
}

} // verus!
