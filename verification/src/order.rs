//! Stable ordering of entries by time left and by text.

use vstd::prelude::*;

use crate::text::before;
use crate::text::text_before;
use crate::text::text_order_is_total;
use crate::text::text_order_is_transitive;

verus! {

/// What an entry is ordered by: first the minutes, with those that have none last, then the
/// text.
pub struct SortKey {
    pub minutes: Option<i64>,
    pub text: String,
}

impl View for SortKey {
    type V = (Option<i64>, Seq<char>);

    open spec fn view(&self) -> (Option<i64>, Seq<char>) {
        (self.minutes, self.text@)
    }
}

/// The keys that a list holds.
pub open spec fn key_views(keys: Seq<SortKey>) -> Seq<(Option<i64>, Seq<char>)> {
    keys.map_values(|k: SortKey| k@)
}

/// Whether an entry with the key `a` goes before one with the key `b`, whatever their places.
pub open spec fn key_before(a: (Option<i64>, Seq<char>), b: (Option<i64>, Seq<char>)) -> bool {
    match (a.0, b.0) {
        (Some(x), Some(y)) => x < y || (x == y && text_before(a.1, b.1)),
        (Some(_), None) => true,
        (None, Some(_)) => false,
        (None, None) => text_before(a.1, b.1),
    }
}

/// Whether the entry at `i` goes before the entry at `j`: by their keys, and by their places
/// where the keys are the same.
pub open spec fn goes_before(keys: Seq<(Option<i64>, Seq<char>)>, i: int, j: int) -> bool {
    key_before(keys[i], keys[j]) || (keys[i] == keys[j] && i < j)
}

/// Whether `order` lists the places of all entries, each once, as a stable sort by `keys` does.
pub open spec fn is_stable_order(
    keys: Seq<(Option<i64>, Seq<char>)>,
    order: Seq<usize>,
) -> bool {
    &&& order.len() == keys.len()
    &&& forall|i: int| 0 <= i < order.len() ==> #[trigger] order[i] < keys.len()
    &&& forall|i: int, j: int|
        #![trigger order[i], order[j]]
        0 <= i < j < order.len() ==> goes_before(keys, order[i] as int, order[j] as int)
}

proof fn lemma_key_order(
    a: (Option<i64>, Seq<char>),
    b: (Option<i64>, Seq<char>),
    c: (Option<i64>, Seq<char>),
)
    ensures
        !key_before(a, a),
        key_before(a, b) ==> !key_before(b, a),
        a == b || key_before(a, b) || key_before(b, a),
        key_before(a, b) && key_before(b, c) ==> key_before(a, c),
{
    text_order_is_total(a.1, a.1);
    text_order_is_total(a.1, b.1);
    if text_before(a.1, b.1) && text_before(b.1, c.1) {
        text_order_is_transitive(a.1, b.1, c.1);
    }
}

/// A stable order lists every place.
pub proof fn stable_order_lists_every_place(
    keys: Seq<(Option<i64>, Seq<char>)>,
    order: Seq<usize>,
    place: int,
)
    requires
        is_stable_order(keys, order),
        0 <= place < keys.len(),
    ensures
        exists|i: int| 0 <= i < order.len() && order[i] == place,
{
    let n = keys.len() as int;
    let places = order.map_values(|i: usize| i as int);
    assert(places.no_duplicates()) by {
        assert forall|i: int, j: int|
            0 <= i < places.len() && 0 <= j < places.len() && i != j implies places[i]
            != places[j] by {
            let (a, b) = if i < j {
                (i, j)
            } else {
                (j, i)
            };
            assert(goes_before(keys, order[a] as int, order[b] as int));
            lemma_key_order(keys[order[a] as int], keys[order[b] as int], keys[order[a] as int]);
        }
    }
    places.unique_seq_to_set();
    let all = vstd::set_lib::set_int_range(0, n);
    vstd::set_lib::lemma_int_range(0, n);
    assert(places.to_set().subset_of(all));
    vstd::set_lib::lemma_subset_equality(places.to_set(), all);
    assert(all.contains(place));
    assert(places.contains(place));
    let i = choose|i: int| 0 <= i < places.len() && places[i] == place;
    assert(order[i] == place);
}

/// Two stable orders of the same keys are the same.
pub proof fn stable_order_is_unique(
    keys: Seq<(Option<i64>, Seq<char>)>,
    a: Seq<usize>,
    b: Seq<usize>,
)
    requires
        is_stable_order(keys, a),
        is_stable_order(keys, b),
    ensures
        a == b,
{
    lemma_same_prefix(keys, a, b, keys.len() as int);
    assert(a =~= b);
}

proof fn lemma_same_prefix(
    keys: Seq<(Option<i64>, Seq<char>)>,
    a: Seq<usize>,
    b: Seq<usize>,
    k: int,
)
    requires
        is_stable_order(keys, a),
        is_stable_order(keys, b),
        0 <= k <= keys.len(),
    ensures
        forall|i: int| 0 <= i < k ==> a[i] == b[i],
    decreases k,
{
    if k > 0 {
        lemma_same_prefix(keys, a, b, k - 1);
        let x = a[k - 1] as int;
        let y = b[k - 1] as int;
        stable_order_lists_every_place(keys, b, x);
        stable_order_lists_every_place(keys, a, y);
        let in_b = choose|i: int| 0 <= i < b.len() && b[i] == x;
        let in_a = choose|i: int| 0 <= i < a.len() && a[i] == y;
        lemma_key_order(keys[x], keys[y], keys[x]);
        if in_b < k - 1 {
            assert(a[in_b] == b[in_b]);
            assert(goes_before(keys, a[in_b] as int, a[k - 1] as int));
        } else if in_a < k - 1 {
            assert(a[in_a] == b[in_a]);
            assert(goes_before(keys, b[in_a] as int, b[k - 1] as int));
            lemma_key_order(keys[y], keys[y], keys[y]);
        } else if in_b > k - 1 && in_a > k - 1 {
            assert(goes_before(keys, b[k - 1] as int, b[in_b] as int));
            assert(goes_before(keys, a[k - 1] as int, a[in_a] as int));
        }
    }
}

/// Whether an entry with the key `a` goes before one with the key `b`.
fn sorts_before(a: &SortKey, b: &SortKey) -> (r: bool)
    ensures
        r == key_before(a@, b@),
{
    match (a.minutes, b.minutes) {
        (Some(x), Some(y)) => x < y || (x == y && before(a.text.as_str(), b.text.as_str())),
        (Some(_), None) => true,
        (None, Some(_)) => false,
        (None, None) => before(a.text.as_str(), b.text.as_str()),
    }
}

/// The places of all entries in the order of a stable sort by `keys`.
pub fn stable_order(keys: &Vec<SortKey>) -> (r: Vec<usize>)
    ensures
        is_stable_order(key_views(keys@), r@),
{
    let ghost views = key_views(keys@);
    let mut order: Vec<usize> = Vec::new();
    let mut n: usize = 0;
    while n < keys.len()
        invariant
            n <= keys.len(),
            views == key_views(keys@),
            order.len() == n,
            forall|i: int| 0 <= i < order.len() ==> #[trigger] order[i] < n,
            forall|i: int, j: int|
                #![trigger order[i], order[j]]
                0 <= i < j < n ==> goes_before(views, order[i] as int, order[j] as int),
        decreases keys.len() - n,
    {
        let mut p: usize = n;
        while p > 0 && sorts_before(&keys[n], &keys[order[p - 1]])
            invariant
                p <= n < keys.len(),
                views == key_views(keys@),
                order.len() == n,
                forall|i: int| 0 <= i < order.len() ==> #[trigger] order[i] < n,
                forall|i: int| p <= i < n ==> key_before(views[n as int], views[#[trigger] order[i] as int]),
            decreases p,
        {
            p = p - 1;
        }
        let ghost old_order = order@;
        order.insert(p, n);
        proof {
            assert forall|i: int| 0 <= i < p implies goes_before(
                views,
                #[trigger] old_order[i] as int,
                n as int,
            ) by {
                let last = old_order[p - 1] as int;
                lemma_key_order(views[last], views[n as int], views[last]);
                if i < p - 1 {
                    assert(goes_before(views, old_order[i] as int, last));
                    lemma_key_order(views[old_order[i] as int], views[last], views[n as int]);
                }
            }
            assert forall|i: int, j: int|
                #![trigger order[i], order[j]]
                0 <= i < j < n + 1 implies goes_before(
                views,
                order[i] as int,
                order[j] as int,
            ) by {
                if j < p {
                    assert(order[i] == old_order[i] && order[j] == old_order[j]);
                } else if j == p {
                    assert(order[i] == old_order[i]);
                } else if i < p {
                    assert(order[i] == old_order[i] && order[j] == old_order[j - 1]);
                } else if i == p {
                    assert(order[j] == old_order[j - 1]);
                } else {
                    assert(order[i] == old_order[i - 1] && order[j] == old_order[j - 1]);
                }
            }
            assert forall|i: int| 0 <= i < order.len() implies #[trigger] order[i] < n + 1 by {
                if i > p {
                    assert(order[i] == old_order[i - 1]);
                } else if i < p {
                    assert(order[i] == old_order[i]);
                }
            }
        }
        n = n + 1;
    }
    order
}

/// In a stable order, fewer minutes come first, entries without minutes come last, entries with
/// the same minutes are in the order of their texts, and those with the same key stay in the order
/// in which they were. Each place is listed once.
pub proof fn stable_order_is_sorted(
    keys: Seq<(Option<i64>, Seq<char>)>,
    order: Seq<usize>,
    i: int,
    j: int,
)
    requires
        is_stable_order(keys, order),
        0 <= i < j < order.len(),
    ensures
        order.len() == keys.len(),
        order[i] < keys.len(),
        order[j] < keys.len(),
        order[i] != order[j],
        ({
            let first = keys[order[i] as int];
            let second = keys[order[j] as int];
            &&& second.0 matches Some(later) ==> first.0 matches Some(sooner) && sooner <= later
            &&& first.0 == second.0 ==> !text_before(second.1, first.1)
            &&& first == second ==> order[i] < order[j]
        }),
{
    assert(goes_before(keys, order[i] as int, order[j] as int));
    let first = keys[order[i] as int];
    let second = keys[order[j] as int];
    text_order_is_total(first.1, second.1);
    lemma_key_order(first, second, first);
}

/// The view of a key tells all that the key holds, and the views of a list of keys are those of its
/// keys, in their order.
pub proof fn view_tells_all_of_a_key(key: SortKey, keys: Seq<SortKey>, i: int)
    ensures
        key@.0 == key.minutes,
        key@.1 == key.text@,
        key_views(keys).len() == keys.len(),
        0 <= i < keys.len() ==> key_views(keys)[i] == keys[i]@,
{
}

} // verus!
