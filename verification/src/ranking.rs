//! The rankings of the stored links: the most recent and the most visited.

use vstd::prelude::*;

use crate::metadata::{item_views, Item, ItemView};
use crate::outside::{parse_rfc3339, rfc3339_instant};
use crate::text::{append_decimal, decimal};

verus! {

// ---------------------------------------------------------------------------------------------
// Rearranging
// ---------------------------------------------------------------------------------------------

/// Whether `places` holds each of the places `0` to `n - 1` exactly once.
pub open spec fn is_rearrangement(places: Seq<int>, n: nat) -> bool {
    &&& places.len() == n
    &&& forall|i: int| 0 <= i < n ==> 0 <= #[trigger] places[i] < n
    &&& forall|i: int, j: int| 0 <= i < j < n ==> #[trigger] places[i] != #[trigger] places[j]
}

/// The elements of `items` in the order of `places`.
pub open spec fn arranged<T>(items: Seq<T>, places: Seq<int>) -> Seq<T> {
    places.map_values(|place: int| items[place])
}

/// A rank: the larger first number is the higher rank, and of equal first numbers the larger
/// second number is.
pub type Rank = (i128, u32);

/// Whether rank `a` is at least as high as rank `b`.
pub open spec fn at_least(a: Rank, b: Rank) -> bool {
    a.0 > b.0 || (a.0 == b.0 && a.1 >= b.1)
}

/// Whether the ranks go from the highest to the lowest.
pub open spec fn descending(ranks: Seq<Rank>) -> bool {
    forall|i: int, j: int| 0 <= i < j < ranks.len() ==> at_least(#[trigger] ranks[i], #[trigger] ranks[j])
}

/// The sequence with the elements at two places exchanged.
spec fn swapped<T>(items: Seq<T>, i: int, j: int) -> Seq<T> {
    items.update(i, items[j]).update(j, items[i])
}

/// The places in their own order.
spec fn in_place(n: nat) -> Seq<int> {
    Seq::new(n, |i: int| i)
}

proof fn lemma_swapped<T>(items: Seq<T>, places: Seq<int>, i: int, j: int)
    requires
        is_rearrangement(places, items.len()),
        0 <= i < j < items.len(),
    ensures
        is_rearrangement(swapped(places, i, j), items.len()),
        arranged(items, swapped(places, i, j)) == swapped(arranged(items, places), i, j),
{
    assert(arranged(items, swapped(places, i, j)) =~= swapped(arranged(items, places), i, j));
}

proof fn lemma_arranged_twice<T>(items: Seq<T>, p: Seq<int>, q: Seq<int>)
    requires
        is_rearrangement(p, items.len()),
        is_rearrangement(q, items.len()),
    ensures
        is_rearrangement(arranged(p, q), items.len()),
        arranged(items, arranged(p, q)) == arranged(arranged(items, p), q),
{
    let r = arranged(p, q);
    assert forall|i: int, j: int| 0 <= i < j < items.len() implies #[trigger] r[i]
        != #[trigger] r[j] by {
        assert(q[i] != q[j]);
        if q[i] < q[j] {
            assert(p[q[i]] != p[q[j]]);
        } else {
            assert(p[q[j]] != p[q[i]]);
        }
    }
    assert(arranged(items, r) =~= arranged(arranged(items, p), q));
}

/// Exchanges two items and their ranks.
fn swap_both(keys: &mut [Item], ranks: &mut Vec<Rank>, i: usize, j: usize)
    requires
        i < j < old(keys)@.len(),
        old(ranks)@.len() == old(keys)@.len(),
    ensures
        final(keys)@ == swapped(old(keys)@, i as int, j as int),
        final(ranks)@ == swapped(old(ranks)@, i as int, j as int),
{
    let a: Rank = ranks[i];
    let b: Rank = ranks[j];
    ranks.set(i, b);
    ranks.set(j, a);
    let (left, right) = keys.split_at_mut(j);
    std::mem::swap(&mut left[i], &mut right[0]);
}

// ---------------------------------------------------------------------------------------------
// Sorting
// ---------------------------------------------------------------------------------------------

/// The place above `i` in a heap.
spec fn above(i: int) -> int {
    (i - 1) / 2
}

/// Whether the first `end` ranks, from place `start` down, form a heap with the lowest rank on
/// top, but perhaps for what stands directly below `hole`.
spec fn heap_but(ranks: Seq<Rank>, start: int, end: int, hole: int) -> bool {
    forall|i: int|
        0 < i < end && start <= above(i) && above(i) != hole ==> at_least(
            #[trigger] ranks[i],
            ranks[above(i)],
        )
}

/// Whether the first `end` ranks, from place `start` down, form a heap with the lowest rank on
/// top.
spec fn heap(ranks: Seq<Rank>, start: int, end: int) -> bool {
    heap_but(ranks, start, end, -1)
}

/// The top of a heap is its lowest rank.
proof fn lemma_top_is_lowest(ranks: Seq<Rank>, end: int, i: int)
    requires
        heap(ranks, 0, end),
        0 <= i < end <= ranks.len(),
    ensures
        at_least(ranks[i], ranks[0]),
    decreases i,
{
    if i > 0 {
        lemma_top_is_lowest(ranks, end, above(i));
        assert(at_least(ranks[i], ranks[above(i)]));
    }
}

/// Whether rank `a` is lower than rank `b`.
fn lower(a: Rank, b: Rank) -> (is_lower: bool)
    ensures
        is_lower == !at_least(a, b),
{
    a.0 < b.0 || (a.0 == b.0 && a.1 < b.1)
}

/// Lets the rank at `start` sink to its place, so that the heap below it grows by it.
fn sift_down(keys: &mut [Item], ranks: &mut Vec<Rank>, start: usize, end: usize) -> (places: Ghost<
    Seq<int>,
>)
    requires
        start < end <= old(keys)@.len(),
        old(ranks)@.len() == old(keys)@.len(),
        heap(old(ranks)@, start + 1, end as int),
    ensures
        is_rearrangement(places@, old(keys)@.len()),
        forall|i: int| end <= i < old(keys)@.len() ==> #[trigger] places@[i] == i,
        final(keys)@ == arranged(old(keys)@, places@),
        final(ranks)@ == arranged(old(ranks)@, places@),
        heap(final(ranks)@, start as int, end as int),
{
    let ghost n = keys@.len();
    let ghost mut places = in_place(n);
    proof {
        assert(arranged(keys@, places) =~= keys@);
        assert(arranged(ranks@, places) =~= ranks@);
    }
    let mut root: usize = start;
    while root < end / 2
        invariant
            start <= root < end <= n,
            old(keys)@.len() == n,
            old(ranks)@.len() == n,
            keys@.len() == n,
            ranks@.len() == n,
            is_rearrangement(places, n),
            forall|i: int| end <= i < n ==> #[trigger] places[i] == i,
            keys@ == arranged(old(keys)@, places),
            ranks@ == arranged(old(ranks)@, places),
            heap_but(ranks@, start as int, end as int, root as int),
            root > start ==> start <= above(root as int),
            root > start ==> forall|i: int|
                0 < i < end && above(i) == root ==> at_least(
                    #[trigger] ranks@[i],
                    ranks@[above(root as int)],
                ),
        ensures
            heap(ranks@, start as int, end as int),
        decreases end - root,
    {
        let mut child: usize = 2 * root + 1;
        if child + 1 < end && lower(ranks[child + 1], ranks[child]) {
            child = child + 1;
        }
        proof {
            assert forall|i: int| 0 < i < end && above(i) == root implies at_least(
                #[trigger] ranks@[i],
                ranks@[child as int],
            ) by {
                assert(i == 2 * root + 1 || i == 2 * root + 2);
            }
        }
        if !lower(ranks[child], ranks[root]) {
            proof {
                assert forall|i: int| 0 < i < end && start <= above(i) implies at_least(
                    #[trigger] ranks@[i],
                    ranks@[above(i)],
                ) by {}
            }
            break;
        }
        let ghost before = ranks@;
        swap_both(keys, ranks, root, child);
        proof {
            lemma_swapped(old(keys)@, places, root as int, child as int);
            lemma_swapped(old(ranks)@, places, root as int, child as int);
            places = swapped(places, root as int, child as int);
            assert forall|i: int|
                0 < i < end && start <= above(i) && above(i) != child implies at_least(
                #[trigger] ranks@[i],
                ranks@[above(i)],
            ) by {
                assert(at_least(before[child as int], before[child as int]));
                if i == child {
                } else if i == root {
                    assert(above(child as int) == root);
                    assert(at_least(before[child as int], before[above(root as int)]));
                } else if above(i) == root {
                    assert(at_least(before[i], before[child as int]));
                } else {
                    assert(at_least(before[i], before[above(i)]));
                }
            }
            assert forall|i: int| 0 < i < end && above(i) == child implies at_least(
                #[trigger] ranks@[i],
                ranks@[above(child as int)],
            ) by {
                assert(at_least(before[i], before[above(i)]));
            }
        }
        root = child;
    }
    Ghost(places)
}

/// Rearranges the items, and the ranks with them, from the highest rank to the lowest.
fn sort_descending(keys: &mut [Item], ranks: &mut Vec<Rank>) -> (places: Ghost<Seq<int>>)
    requires
        old(ranks)@.len() == old(keys)@.len(),
    ensures
        is_rearrangement(places@, old(keys)@.len()),
        final(keys)@ == arranged(old(keys)@, places@),
        final(ranks)@ == arranged(old(ranks)@, places@),
        descending(final(ranks)@),
{
    let n: usize = keys.len();
    let ghost mut places = in_place(n as nat);
    proof {
        assert(arranged(keys@, places) =~= keys@);
        assert(arranged(ranks@, places) =~= ranks@);
    }
    let mut start: usize = n / 2;
    proof {
        assert(heap(ranks@, start as int, n as int)) by {
            assert forall|i: int| 0 < i < n implies above(i) < start by {}
        }
    }
    while start > 0
        invariant
            start <= n / 2,
            old(keys)@.len() == n,
            old(ranks)@.len() == n,
            keys@.len() == n,
            ranks@.len() == n,
            is_rearrangement(places, n as nat),
            keys@ == arranged(old(keys)@, places),
            ranks@ == arranged(old(ranks)@, places),
            heap(ranks@, start as int, n as int),
        decreases start,
    {
        start = start - 1;
        let moved: Ghost<Seq<int>> = sift_down(keys, ranks, start, n);
        proof {
            lemma_arranged_twice(old(keys)@, places, moved@);
            lemma_arranged_twice(old(ranks)@, places, moved@);
            places = arranged(places, moved@);
        }
    }
    let mut end: usize = n;
    while end > 1
        invariant
            end <= n,
            old(keys)@.len() == n,
            old(ranks)@.len() == n,
            keys@.len() == n,
            ranks@.len() == n,
            is_rearrangement(places, n as nat),
            keys@ == arranged(old(keys)@, places),
            ranks@ == arranged(old(ranks)@, places),
            heap(ranks@, 0, end as int),
            forall|i: int, j: int|
                0 <= i < j < n && end <= j ==> at_least(#[trigger] ranks@[i], #[trigger] ranks@[j]),
        decreases end,
    {
        end = end - 1;
        let ghost before = ranks@;
        swap_both(keys, ranks, 0, end);
        proof {
            lemma_swapped(old(keys)@, places, 0, end as int);
            lemma_swapped(old(ranks)@, places, 0, end as int);
            places = swapped(places, 0, end as int);
            assert forall|i: int| 0 <= i < end implies at_least(
                #[trigger] ranks@[i],
                ranks@[end as int],
            ) by {
                lemma_top_is_lowest(before, end + 1, i);
                lemma_top_is_lowest(before, end + 1, end as int);
            }
            assert forall|i: int, j: int| 0 <= i < j < n && end <= j implies at_least(
                #[trigger] ranks@[i],
                #[trigger] ranks@[j],
            ) by {
                if j > end {
                    assert(ranks@[j] == before[j]);
                    assert(at_least(before[i], before[j]));
                    assert(at_least(before[0], before[j]));
                    assert(at_least(before[end as int], before[j]));
                }
            }
            assert(heap(ranks@, 1, end as int)) by {
                assert forall|i: int| 0 < i < end && 1 <= above(i) implies at_least(
                    #[trigger] ranks@[i],
                    ranks@[above(i)],
                ) by {
                    assert(at_least(before[i], before[above(i)]));
                }
            }
        }
        let ghost middle = ranks@;
        let moved: Ghost<Seq<int>> = sift_down(keys, ranks, 0, end);
        proof {
            lemma_arranged_twice(old(keys)@, places, moved@);
            lemma_arranged_twice(old(ranks)@, places, moved@);
            places = arranged(places, moved@);
            assert forall|i: int, j: int| 0 <= i < j < n && end <= j implies at_least(
                #[trigger] ranks@[i],
                #[trigger] ranks@[j],
            ) by {
                assert(moved@[j] == j);
                assert(moved@[i] != moved@[j]);
                lemma_moved_within(moved@, n as nat, end as int, i);
                assert(at_least(middle[moved@[i]], middle[j]));
            }
        }
    }
    Ghost(places)
}

/// A rearrangement that leaves the places from `end` on alone moves the others among themselves.
proof fn lemma_moved_within(places: Seq<int>, n: nat, end: int, i: int)
    requires
        is_rearrangement(places, n),
        0 <= i < n,
        0 <= end <= n,
        forall|k: int| end <= k < n ==> #[trigger] places[k] == k,
    ensures
        i < end ==> places[i] < end,
{
    if i < end && places[i] >= end {
        assert(places[places[i]] == places[i]);
    }
}

// ---------------------------------------------------------------------------------------------
// The rankings
// ---------------------------------------------------------------------------------------------

/// What stands before the most recent links.
pub const RECENT_HEADING: &'static str = r#"
    <div class="container-heading">
        Most Recent:
    </div></br></br>
    <div class="container-list">
    <ol>"#;

/// What stands before the most visited links.
pub const VISITED_HEADING: &'static str = r#"
    <div class="container-heading">
        Most Visited:
    </div></br></br>
    <div class="container-list">
    <ol>"#;

/// One row for each item, with its key.
pub open spec fn recent_rows(items: Seq<ItemView>) -> Seq<char>
    decreases items.len(),
{
    if items.len() == 0 {
        Seq::empty()
    } else {
        recent_rows(items.drop_last()) + "<li>"@ + items.last().key + "</li>"@
    }
}

/// One row for each item, with the number of its visits and its key.
pub open spec fn visited_rows(items: Seq<ItemView>) -> Seq<char>
    decreases items.len(),
{
    if items.len() == 0 {
        Seq::empty()
    } else {
        visited_rows(items.drop_last()) + "<li>("@ + decimal(
            items.last().metadata.hit_count as nat,
        ) + ") "@ + items.last().key + "</li>"@
    }
}

/// The list of the most recent links, for items in that order.
pub open spec fn recent_list(items: Seq<ItemView>) -> Seq<char> {
    RECENT_HEADING@ + recent_rows(items) + "</ol></div>"@
}

/// The list of the most visited links, for items in that order.
pub open spec fn visited_list(items: Seq<ItemView>) -> Seq<char> {
    VISITED_HEADING@ + visited_rows(items) + "</ol></div>"@
}

/// An instant: seconds since the Unix epoch and nanoseconds since the last full second.
pub type Instant = (i64, u32);

/// Whether instant `a` is not before instant `b`.
pub open spec fn not_before(a: Instant, b: Instant) -> bool {
    a.0 > b.0 || (a.0 == b.0 && a.1 >= b.1)
}

/// Whether the instants go from the newest to the oldest.
pub open spec fn newest_first(instants: Seq<Instant>) -> bool {
    forall|i: int, j: int|
        0 <= i < j < instants.len() ==> not_before(#[trigger] instants[i], #[trigger] instants[j])
}

/// The instant at which a link was made. A time that cannot be read counts as the Unix epoch.
pub open spec fn made(item: ItemView) -> Instant {
    match rfc3339_instant(item.metadata.time) {
        Some(instant) => instant,
        None => (0, 0),
    }
}

/// Whether the links go from the newest to the oldest.
pub open spec fn by_time(items: Seq<ItemView>) -> bool {
    newest_first(items.map_values(|item: ItemView| made(item)))
}

/// Whether the links go from the most visited to the least visited.
pub open spec fn by_hits(items: Seq<ItemView>) -> bool {
    forall|i: int, j: int|
        0 <= i < j < items.len() ==> (#[trigger] items[i]).metadata.hit_count >= (
        #[trigger] items[j]).metadata.hit_count
}

/// Whether `after` holds the items of `before`, each as often as it was there, in some order.
pub open spec fn same_items<T>(before: Seq<T>, after: Seq<T>) -> bool {
    exists|places: Seq<int>| #[trigger]
        is_rearrangement(places, before.len()) && after == arranged(before, places)
}

/// Sorts the items from the newest to the oldest, the instant at which each was made being
/// given, and lists them.
pub fn list_newest(keys: &mut [Item], instants: &Vec<Instant>) -> (list: String)
    requires
        instants@.len() == old(keys)@.len(),
    ensures
        exists|places: Seq<int>|
            #![trigger arranged(old(keys)@, places)]
            is_rearrangement(places, old(keys)@.len()) && final(keys)@ == arranged(
                old(keys)@,
                places,
            ) && newest_first(arranged(instants@, places)),
        list@ == recent_list(item_views(final(keys)@)),
{
    let mut ranks: Vec<Rank> = Vec::new();
    let mut i: usize = 0;
    while i < instants.len()
        invariant
            i <= instants@.len(),
            ranks@.len() == i,
            forall|k: int|
                0 <= k < i ==> #[trigger] ranks@[k] == (instants@[k].0 as i128, instants@[k].1),
        decreases instants@.len() - i,
    {
        ranks.push((instants[i].0 as i128, instants[i].1));
        i += 1;
    }
    let ghost before = ranks@;
    let places: Ghost<Seq<int>> = sort_descending(keys, &mut ranks);
    proof {
        let sorted = arranged(instants@, places@);
        assert forall|a: int, b: int| 0 <= a < b < sorted.len() implies not_before(
            #[trigger] sorted[a],
            #[trigger] sorted[b],
        ) by {
            assert(at_least(ranks@[a], ranks@[b]));
            assert(ranks@[a] == before[places@[a]]);
            assert(ranks@[b] == before[places@[b]]);
        }
        assert(keys@ == arranged(old(keys)@, places@));
    }
    let mut list: String = RECENT_HEADING.to_owned();
    let mut i: usize = 0;
    proof {
        assert(item_views(keys@).take(0) =~= Seq::empty());
        assert(list@ =~= RECENT_HEADING@ + recent_rows(item_views(keys@).take(0)));
    }
    while i < keys.len()
        invariant
            i <= keys@.len(),
            list@ == RECENT_HEADING@ + recent_rows(item_views(keys@).take(i as int)),
        decreases keys@.len() - i,
    {
        list.append("<li>");
        list.append(keys[i].key.as_str());
        list.append("</li>");
        i += 1;
        proof {
            let longer = item_views(keys@).take(i as int);
            assert(longer.drop_last() =~= item_views(keys@).take(i - 1));
            assert(list@ =~= RECENT_HEADING@ + recent_rows(longer));
        }
    }
    proof {
        assert(item_views(keys@).take(keys@.len() as int) =~= item_views(keys@));
    }
    list.append("</ol></div>");
    list
}

/// Sorts all keys, the most recent first, and lists them.
pub fn most_recent(keys: &mut [Item]) -> (list: String)
    ensures
        same_items(old(keys)@, final(keys)@),
        by_time(item_views(final(keys)@)),
        list@ == recent_list(item_views(final(keys)@)),
{
    let mut instants: Vec<Instant> = Vec::new();
    let mut i: usize = 0;
    while i < keys.len()
        invariant
            keys@ == old(keys)@,
            i <= keys@.len(),
            instants@.len() == i,
            forall|k: int| 0 <= k < i ==> #[trigger] instants@[k] == made(keys@[k]@),
        decreases keys@.len() - i,
    {
        let instant: Instant = match parse_rfc3339(keys[i].metadata.time.as_str()) {
            Some(instant) => instant,
            None => (0, 0),
        };
        instants.push(instant);
        i += 1;
    }
    let list: String = list_newest(keys, &instants);
    proof {
        let places = choose|places: Seq<int>|
            #![trigger arranged(old(keys)@, places)]
            is_rearrangement(places, old(keys)@.len()) && keys@ == arranged(old(keys)@, places)
                && newest_first(arranged(instants@, places));
        assert(is_rearrangement(places, old(keys)@.len()));
        assert(item_views(keys@).map_values(|item: ItemView| made(item)) =~= arranged(
            instants@,
            places,
        ));
    }
    list
}

/// Sorts all keys, the most visited first, and lists them with the number of their visits.
pub fn top_redirects(keys: &mut [Item]) -> (list: String)
    ensures
        same_items(old(keys)@, final(keys)@),
        by_hits(item_views(final(keys)@)),
        list@ == visited_list(item_views(final(keys)@)),
{
    let mut ranks: Vec<Rank> = Vec::new();
    let mut i: usize = 0;
    while i < keys.len()
        invariant
            keys@ == old(keys)@,
            i <= keys@.len(),
            ranks@.len() == i,
            forall|k: int|
                0 <= k < i ==> #[trigger] ranks@[k] == (keys@[k].metadata.hit_count as i128, 0u32),
        decreases keys@.len() - i,
    {
        ranks.push((keys[i].metadata.hit_count as i128, 0));
        i += 1;
    }
    let ghost before = ranks@;
    let places: Ghost<Seq<int>> = sort_descending(keys, &mut ranks);
    proof {
        assert(is_rearrangement(places@, old(keys)@.len()));
        let sorted = item_views(keys@);
        assert forall|a: int, b: int| 0 <= a < b < sorted.len() implies (
        #[trigger] sorted[a]).metadata.hit_count >= (#[trigger] sorted[b]).metadata.hit_count by {
            assert(at_least(ranks@[a], ranks@[b]));
            assert(ranks@[a] == before[places@[a]]);
            assert(ranks@[b] == before[places@[b]]);
        }
    }
    let mut list: String = VISITED_HEADING.to_owned();
    let mut i: usize = 0;
    proof {
        assert(item_views(keys@).take(0) =~= Seq::empty());
        assert(list@ =~= VISITED_HEADING@ + visited_rows(item_views(keys@).take(0)));
    }
    while i < keys.len()
        invariant
            i <= keys@.len(),
            list@ == VISITED_HEADING@ + visited_rows(item_views(keys@).take(i as int)),
        decreases keys@.len() - i,
    {
        list.append("<li>(");
        append_decimal(&mut list, keys[i].metadata.hit_count);
        list.append(") ");
        list.append(keys[i].key.as_str());
        list.append("</li>");
        i += 1;
        proof {
            let longer = item_views(keys@).take(i as int);
            assert(longer.drop_last() =~= item_views(keys@).take(i - 1));
            assert(list@ =~= VISITED_HEADING@ + visited_rows(longer));
        }
    }
    proof {
        assert(item_views(keys@).take(keys@.len() as int) =~= item_views(keys@));
    }
    list.append("</ol></div>");
    list
}

/// Whether these are lists of the most recent and of the most visited of the items.
pub open spec fn ranked(items: Seq<ItemView>, recent: Seq<char>, visited: Seq<char>) -> bool {
    &&& exists|newest: Seq<ItemView>|
        same_items(items, newest) && #[trigger] by_time(newest) && recent == recent_list(newest)
    &&& exists|top: Seq<ItemView>|
        same_items(items, top) && #[trigger] by_hits(top) && visited == visited_list(top)
}

/// Reordering items twice is reordering them.
proof fn lemma_same_items_twice<T>(a: Seq<T>, b: Seq<T>, c: Seq<T>)
    requires
        same_items(a, b),
        same_items(b, c),
    ensures
        same_items(a, c),
{
    let p = choose|p: Seq<int>| #[trigger] is_rearrangement(p, a.len()) && b == arranged(a, p);
    let q = choose|q: Seq<int>| #[trigger] is_rearrangement(q, b.len()) && c == arranged(b, q);
    lemma_arranged_twice(a, p, q);
}

/// Reordered items are seen in that order.
proof fn lemma_same_items_viewed(before: Seq<Item>, after: Seq<Item>)
    requires
        same_items(before, after),
    ensures
        same_items(item_views(before), item_views(after)),
{
    let p = choose|p: Seq<int>| #[trigger]
        is_rearrangement(p, before.len()) && after == arranged(before, p);
    assert(is_rearrangement(p, item_views(before).len()));
    assert(item_views(after) =~= arranged(item_views(before), p));
}

/// Lists the most recent and the most visited of the items.
pub fn rank(items: Vec<Item>) -> (lists: (String, String))
    ensures
        ranked(item_views(items@), lists.0@, lists.1@),
{
    let mut items: Vec<Item> = items;
    let ghost before = items@;
    let recent: String = most_recent(items.as_mut_slice());
    let ghost newest = items@;
    let visited: String = top_redirects(items.as_mut_slice());
    proof {
        lemma_same_items_twice(before, newest, items@);
        lemma_same_items_viewed(before, newest);
        lemma_same_items_viewed(before, items@);
    }
    (recent, visited)
}

} // verus!
