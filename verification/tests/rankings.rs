use lnkr::metadata::{metadata_at, Item, ItemMetadata};
use lnkr::ranking::{list_newest, most_recent, rank, top_redirects};

fn item(key: &str, time: &str, hit_count: u64) -> Item {
    let mut metadata = ItemMetadata::default();
    metadata.time = String::from(time);
    metadata.hit_count = hit_count;
    Item { key: String::from(key), metadata }
}

fn keys(items: &[Item]) -> Vec<String> {
    items.iter().map(|item| item.key.clone()).collect()
}

const RECENT: &str = "\n    <div class=\"container-heading\">\n        Most Recent:\n    </div></br></br>\n    <div class=\"container-list\">\n    <ol>";
const VISITED: &str = "\n    <div class=\"container-heading\">\n        Most Visited:\n    </div></br></br>\n    <div class=\"container-list\">\n    <ol>";

#[test]
fn nothing_to_rank() {
    assert_eq!(most_recent(&mut []), format!("{}</ol></div>", RECENT));
    assert_eq!(top_redirects(&mut []), format!("{}</ol></div>", VISITED));
}

#[test]
fn newest_links_come_first() {
    let mut items = vec![
        item("old", "2001-02-03T04:05:06.007Z", 9),
        item("unreadable", "yesterday", 9),
        item("new", "2024-02-29T23:59:59.999Z", 0),
        item("before the epoch", "1969-12-31T23:59:59Z", 5),
        item("newer by its offset", "2024-02-29T23:30:00.000-01:00", 1),
        item("newer by a millisecond", "2001-02-03T04:05:06.008Z", 1),
    ];
    let list = most_recent(&mut items);
    assert_eq!(
        list,
        format!(
            "{}<li>newer by its offset</li><li>new</li><li>newer by a millisecond</li>\
             <li>old</li><li>unreadable</li><li>before the epoch</li></ol></div>",
            RECENT
        )
    );
    assert_eq!(items[0].key, "newer by its offset");
    assert_eq!(items[5].key, "before the epoch");
}

#[test]
fn later_links_come_first() {
    let made = |key: &str, seconds: i64, nanos: u32| Item {
        key: String::from(key),
        metadata: metadata_at(&vec![], seconds, nanos),
    };
    let mut items = vec![
        made("first", 1_700_000_000, 1_999_999),
        made("third", 1_700_000_001, 0),
        made("second", 1_700_000_000, 2_000_000),
        made("last", 253_402_300_799, 999_999_999),
    ];
    most_recent(&mut items);
    assert_eq!(keys(&items), vec!["last", "third", "second", "first"]);
}

#[test]
fn given_instants_decide() {
    let mut items = vec![item("a", "", 0), item("b", "", 0), item("c", "", 0)];
    let list = list_newest(&mut items, &vec![(5, 1), (5, 2), (-7, 1_999_999_999)]);
    assert_eq!(list, format!("{}<li>b</li><li>a</li><li>c</li></ol></div>", RECENT));
    assert_eq!(keys(&items), vec!["b", "a", "c"]);
}

#[test]
fn most_visited_links_come_first() {
    let mut items = vec![
        item("few", "", 1),
        item("most", "", u64::MAX),
        item("none", "", 0),
        item("many", "", 10),
    ];
    assert_eq!(
        top_redirects(&mut items),
        format!(
            "{}<li>(18446744073709551615) most</li><li>(10) many</li><li>(1) few</li>\
             <li>(0) none</li></ol></div>",
            VISITED
        )
    );
    assert_eq!(keys(&items), vec!["most", "many", "few", "none"]);
}

#[test]
fn ranking_keeps_every_item() {
    let mut items: Vec<Item> = vec![];
    let mut seed: u64 = 7;
    for i in 0..500 {
        seed = seed.wrapping_mul(6364136223846793005).wrapping_add(1442695040888963407);
        items.push(item(&format!("k{}", i), "", (seed >> 33) % 40));
    }
    let mut before = keys(&items);
    top_redirects(&mut items);
    for pair in items.windows(2) {
        assert!(pair[0].metadata.hit_count >= pair[1].metadata.hit_count);
    }
    let mut after = keys(&items);
    before.sort();
    after.sort();
    assert_eq!(before, after);
}

#[test]
fn both_rankings() {
    let (recent, visited) = rank(vec![
        item("a", "2020-01-01T00:00:00Z", 3),
        item("b", "2021-01-01T00:00:00Z", 2),
    ]);
    assert_eq!(recent, format!("{}<li>b</li><li>a</li></ol></div>", RECENT));
    assert_eq!(visited, format!("{}<li>(3) a</li><li>(2) b</li></ol></div>", VISITED));
}
