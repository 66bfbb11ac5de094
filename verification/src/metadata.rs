//! The metadata that is stored beside each link.

use vstd::prelude::*;

use crate::outside::{
    format_rfc3339, is_time_text, rfc3339_instant, rfc3339_text, utc_now, LAST_FOUR_DIGIT_SECOND,
    LAST_SECOND,
};
use crate::table::{tabulated, Table};

verus! {

/// What is stored beside a link: when and by what request it was made, and how often it was
/// visited.
#[derive(Debug)]
pub struct ItemMetadata {
    pub version: i32,
    /// The RFC 3339 time at which the link was made.
    pub time: String,
    /// The headers of the request that made the link.
    pub headers: Table,
    /// How often the link was visited.
    pub hit_count: u64,
    pub additional_data: Option<String>,
}

/// An `ItemMetadata` as contracts see it.
#[verifier::ext_equal]
pub struct MetadataView {
    pub version: i32,
    pub time: Seq<char>,
    pub headers: Map<Seq<char>, Seq<char>>,
    pub hit_count: u64,
    pub additional_data: Option<Seq<char>>,
}

/// The text of an optional string.
pub open spec fn optional_text(text: Option<String>) -> Option<Seq<char>> {
    match text {
        Some(text) => Some(text@),
        None => None,
    }
}

impl View for ItemMetadata {
    type V = MetadataView;

    open spec fn view(&self) -> MetadataView {
        MetadataView {
            version: self.version,
            time: self.time@,
            headers: self.headers@,
            hit_count: self.hit_count,
            additional_data: optional_text(self.additional_data),
        }
    }
}

impl MetadataView {
    /// The metadata of an item that has none.
    pub open spec fn blank() -> MetadataView {
        MetadataView {
            version: 0,
            time: Seq::empty(),
            headers: Map::empty(),
            hit_count: 0,
            additional_data: None,
        }
    }

    /// The same metadata with one more visit.
    pub open spec fn with_hit(self) -> MetadataView {
        MetadataView { hit_count: (self.hit_count + 1) as u64, ..self }
    }
}

impl Default for ItemMetadata {
    fn default() -> (metadata: ItemMetadata)
        ensures
            metadata@ == MetadataView::blank(),
    {
        ItemMetadata {
            version: 0,
            time: String::new(),
            headers: Table::new(),
            hit_count: 0,
            additional_data: None,
        }
    }
}

/// A stored link as the rankings see it: its key and its metadata.
#[derive(Debug)]
pub struct Item {
    pub key: String,
    pub metadata: ItemMetadata,
}

/// An `Item` as contracts see it.
#[verifier::ext_equal]
pub struct ItemView {
    pub key: Seq<char>,
    pub metadata: MetadataView,
}

impl View for Item {
    type V = ItemView;

    open spec fn view(&self) -> ItemView {
        ItemView { key: self.key@, metadata: self.metadata@ }
    }
}

/// What a sequence of items holds.
pub open spec fn item_views(items: Seq<Item>) -> Seq<ItemView> {
    items.map_values(|item: Item| item@)
}

/// Whether a byte can be displayed: visible ASCII, a space or a tab.
pub open spec fn displayable(byte: u8) -> bool {
    32 <= byte < 127 || byte == 9
}

/// The text that a header value is shown as: its characters, or nothing at all where some byte of
/// it cannot be displayed.
pub open spec fn shown_value(value: Seq<u8>) -> Seq<char> {
    if forall|i: int| 0 <= i < value.len() ==> displayable(#[trigger] value[i]) {
        value.map_values(|byte: u8| byte as char)
    } else {
        Seq::empty()
    }
}

/// The text of a header value. A value that cannot be displayed shows up blank.
pub fn show_value(value: &[u8]) -> (text: String)
    ensures
        text@ == shown_value(value@),
{
    let mut out: String = String::new();
    let mut i: usize = 0;
    while i < value.len()
        invariant
            i <= value@.len(),
            forall|j: int| 0 <= j < i ==> displayable(#[trigger] value@[j]),
            out@ == value@.take(i as int).map_values(|byte: u8| byte as char),
        decreases value@.len() - i,
    {
        let byte: u8 = value[i];
        if !(32 <= byte && byte < 127 || byte == 9) {
            proof {
                assert(!displayable(value@[i as int]));
            }
            return String::new();
        }
        out.push(byte as char);
        i += 1;
        proof {
            assert(out@ =~= value@.take(i as int).map_values(|byte: u8| byte as char));
        }
    }
    proof {
        assert(value@.take(value@.len() as int) =~= value@);
    }
    out
}

/// A request header as it was received: its name and the bytes of its value.
pub type Header = (String, Vec<u8>);

/// What a list of headers holds.
pub open spec fn header_views(headers: Seq<Header>) -> Seq<(Seq<char>, Seq<u8>)> {
    headers.map_values(|header: Header| (header.0@, header.1@))
}

/// The headers with each value as it is shown.
pub open spec fn shown_headers(headers: Seq<(Seq<char>, Seq<u8>)>) -> Seq<(Seq<char>, Seq<char>)> {
    headers.map_values(|header: (Seq<char>, Seq<u8>)| (header.0, shown_value(header.1)))
}

/// The metadata of a link that a request with these headers makes at the given instant.
pub open spec fn made_at(
    headers: Seq<(Seq<char>, Seq<u8>)>,
    seconds: i64,
    nanos: u32,
) -> MetadataView {
    MetadataView {
        version: 0,
        time: rfc3339_text(seconds, nanos),
        headers: tabulated(shown_headers(headers)),
        hit_count: 0,
        additional_data: None,
    }
}

/// Whether a time reads as the given instant, cut to milliseconds, as it does for years of four
/// digits.
pub open spec fn reads_back(time: Seq<char>, seconds: i64, nanos: u32) -> bool {
    seconds <= LAST_FOUR_DIGIT_SECOND ==> rfc3339_instant(time) == Some(
        (seconds, (nanos - nanos % 1_000_000) as u32),
    )
}

/// Whether a time has the form `0000-00-00T00:00:00.000Z`, as it has for years of four digits.
pub open spec fn is_formed(time: Seq<char>, seconds: i64) -> bool {
    seconds <= LAST_FOUR_DIGIT_SECOND ==> is_time_text(time)
}

/// The metadata of a link that a request with these headers makes at the given instant, which is
/// counted in seconds since the Unix epoch and nanoseconds since the last full second.
pub fn metadata_at(headers: &Vec<Header>, seconds: i64, nanos: u32) -> (metadata: ItemMetadata)
    requires
        0 <= seconds <= LAST_SECOND,
        nanos < 1_000_000_000,
    ensures
        metadata@ == made_at(header_views(headers@), seconds, nanos),
        reads_back(metadata@.time, seconds, nanos),
        is_formed(metadata@.time, seconds),
{
    let ghost shown = shown_headers(header_views(headers@));
    let mut table: Table = Table::new();
    let mut i: usize = 0;
    proof {
        assert(shown.take(0) =~= Seq::empty());
    }
    while i < headers.len()
        invariant
            i <= headers@.len(),
            shown == shown_headers(header_views(headers@)),
            table@ == tabulated(shown.take(i as int)),
        decreases headers@.len() - i,
    {
        table.insert(headers[i].0.clone(), show_value(headers[i].1.as_slice()));
        i += 1;
        proof {
            assert(shown.take(i as int).drop_last() =~= shown.take(i - 1));
        }
    }
    proof {
        assert(shown.take(headers@.len() as int) =~= shown);
    }
    ItemMetadata {
        version: 0,
        time: format_rfc3339(seconds, nanos),
        headers: table,
        hit_count: 0,
        additional_data: None,
    }
}

/// Whether an instant was read off the clock.
pub closed spec fn is_clock_reading(seconds: i64, nanos: u32) -> bool {
    call_ensures(utc_now, (), (seconds, nanos))
}

/// Whether the metadata is that of a link made by a request with these headers, at an instant that
/// was read off the clock.
pub open spec fn is_fresh(metadata: MetadataView, headers: Seq<(Seq<char>, Seq<u8>)>) -> bool {
    exists|seconds: i64, nanos: u32|
        0 <= seconds <= LAST_SECOND && nanos < 1_000_000_000 && metadata == #[trigger] made_at(
            headers,
            seconds,
            nanos,
        ) && reads_back(metadata.time, seconds, nanos) && is_formed(metadata.time, seconds)
            && is_clock_reading(seconds, nanos)
}

/// The time of fresh metadata is the reading that the clock gave, and, for years of four digits,
/// reads back as that reading, cut to milliseconds.
pub(crate) proof fn law_fresh_time_is_read_off_the_clock(
    metadata: MetadataView,
    headers: Seq<(Seq<char>, Seq<u8>)>,
)
    requires
        is_fresh(metadata, headers),
    ensures
        exists|now: (i64, u32)|
            {
                &&& #[trigger] call_ensures(utc_now, (), now)
                &&& metadata.time == rfc3339_text(now.0, now.1)
                &&& now.0 <= LAST_FOUR_DIGIT_SECOND ==> is_time_text(metadata.time)
                    && rfc3339_instant(metadata.time) == Some(
                    (now.0, (now.1 - now.1 % 1_000_000) as u32),
                )
            },
{
    let (seconds, nanos) = choose|seconds: i64, nanos: u32|
        0 <= seconds <= LAST_SECOND && nanos < 1_000_000_000 && metadata == #[trigger] made_at(
            headers,
            seconds,
            nanos,
        ) && reads_back(metadata.time, seconds, nanos) && is_formed(metadata.time, seconds)
            && is_clock_reading(seconds, nanos);
    let now = (seconds, nanos);
    assert(call_ensures(utc_now, (), now));
}

/// Generates the metadata of a link that a request with these headers makes now.
pub fn generate_metadata(headers: &Vec<Header>) -> (metadata: ItemMetadata)
    ensures
        is_fresh(metadata@, header_views(headers@)),
{
    let (seconds, nanos) = utc_now();
    metadata_at(headers, seconds, nanos)
}

/// Increases the hit count of the item in its metadata.
pub fn increase_hit_count(metadata: &mut ItemMetadata)
    requires
        old(metadata).hit_count < u64::MAX,
    ensures
        final(metadata)@ == old(metadata)@.with_hit(),
{
    metadata.hit_count = metadata.hit_count + 1;
}

} // verus!
