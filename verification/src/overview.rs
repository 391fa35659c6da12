//! The overview: which vendors it shows, and in which order.

use vstd::prelude::*;

use crate::clock::is_instant;
use crate::clock::minutes_left;
use crate::clock::optional_is_instant;
use crate::clock::Timestamp;
use crate::order::goes_before;
use crate::order::is_stable_order;
use crate::order::key_before;
use crate::order::key_views;
use crate::order::stable_order;
use crate::order::stable_order_lists_every_place;
use crate::order::SortKey;
use crate::state::all_resets_are_instants;
use crate::state::vendor_views;
use crate::state::VendorApp;
use crate::text::text_before;
use crate::text::text_order_is_total;
use crate::vendor::VendorView;

verus! {

/// What a vendor is ordered by in the overview: the whole minutes left at `now`, and the name.
pub open spec fn overview_key(v: VendorView, now: int) -> (Option<i64>, Seq<char>) {
    (minutes_left(v.reset_at, now), v.name)
}

/// Whether the overview shows the vendor at `a` before the one at `b`: by what they are ordered
/// by, and by their places in the list of vendors where that is the same.
pub open spec fn shown_before(vendors: Seq<VendorView>, now: int, a: int, b: int) -> bool {
    ||| key_before(overview_key(vendors[a], now), overview_key(vendors[b], now))
    ||| overview_key(vendors[a], now) == overview_key(vendors[b], now) && a < b
}

/// Whether the overview shows the vendor at a place.
pub open spec fn is_shown(vendors: Seq<VendorView>, place: int) -> bool {
    0 <= place < vendors.len() && vendors[place].show_in_compact
}

/// Whether `rows` lists the places of the vendors that the overview shows at `now`, in their
/// order.
pub open spec fn is_overview(vendors: Seq<VendorView>, now: int, rows: Seq<usize>) -> bool {
    &&& forall|i: int| 0 <= i < rows.len() ==> is_shown(vendors, #[trigger] rows[i] as int)
    &&& forall|place: usize| #[trigger]
        is_shown(vendors, place as int) ==> rows.contains(place)
    &&& forall|i: int, j: int|
        #![trigger rows[i], rows[j]]
        0 <= i < j < rows.len() ==> shown_before(vendors, now, rows[i] as int, rows[j] as int)
}

impl VendorApp {
    /// The places of the vendors that the overview shows at `now`, in their order.
    pub fn compact_order(&self, now: Timestamp) -> (r: Vec<usize>)
        requires
            all_resets_are_instants(self@.vendors()),
            is_instant(now@),
        ensures
            is_overview(self@.vendors(), now@, r@),
    {
        let ghost views = self@.vendors();
        let mut shown: Vec<usize> = Vec::new();
        let mut keys: Vec<SortKey> = Vec::new();
        let mut p: usize = 0;
        while p < self.persisted.vendors.len()
            invariant
                p <= self.persisted.vendors.len(),
                all_resets_are_instants(views),
                is_instant(now@),
                views == vendor_views(self.persisted.vendors@),
                views == self@.vendors(),
                keys.len() == shown.len(),
                forall|k: int|
                    0 <= k < shown.len() ==> is_shown(views, #[trigger] shown[k] as int)
                        && shown[k] < p,
                forall|k: int|
                    0 <= k < keys.len() ==> (#[trigger] keys[k])@ == overview_key(
                        views[shown[k] as int],
                        now@,
                    ),
                forall|a: int, b: int|
                    #![trigger shown[a], shown[b]]
                    0 <= a < b < shown.len() ==> shown[a] < shown[b],
                forall|place: usize| #[trigger]
                    is_shown(views, place as int) && place < p ==> shown@.contains(place),
            decreases self.persisted.vendors.len() - p,
        {
            let v = &self.persisted.vendors[p];
            assert(views[p as int] == v@);
            let ghost old_shown = shown@;
            if v.show_in_compact {
                assert(optional_is_instant(views[p as int].reset_at));
                let minutes = VendorApp::remaining_minutes_clamped_at(v.reset_at, now);
                keys.push(SortKey { minutes, text: v.name.clone() });
                shown.push(p);
                assert forall|place: usize| #[trigger]
                    is_shown(views, place as int) && place < p + 1 implies shown@.contains(
                    place,
                ) by {
                    if place < p {
                        let k = choose|k: int|
                            0 <= k < old_shown.len() && old_shown[k] == place;
                        assert(shown@[k] == place);
                    } else {
                        assert(shown@[old_shown.len() as int] == p);
                    }
                }
            }
            p = p + 1;
        }
        let order = stable_order(&keys);
        let ghost kv = key_views(keys@);
        let mut rows: Vec<usize> = Vec::new();
        let mut i: usize = 0;
        while i < order.len()
            invariant
                i <= order.len(),
                rows.len() == i,
                keys.len() == shown.len(),
                kv == key_views(keys@),
                is_stable_order(kv, order@),
                forall|k: int|
                    0 <= k < rows.len() ==> #[trigger] rows[k] == shown[order[k] as int],
            decreases order.len() - i,
        {
            assert(order[i as int] < kv.len());
            rows.push(shown[order[i]]);
            i = i + 1;
        }
        proof {
            assert forall|a: int, b: int|
                #![trigger rows[a], rows[b]]
                0 <= a < b < rows.len() implies shown_before(
                views,
                now@,
                rows[a] as int,
                rows[b] as int,
            ) by {
                let x = order[a] as int;
                let y = order[b] as int;
                assert(goes_before(kv, x, y));
                assert(kv[x] == keys[x]@ && kv[y] == keys[y]@);
                assert(rows[a] == shown[x] && rows[b] == shown[y]);
            }
            assert forall|place: usize| #[trigger] is_shown(views, place as int) implies rows@.contains(
                place,
            ) by {
                let k = choose|k: int| 0 <= k < shown.len() && shown@[k] == place;
                stable_order_lists_every_place(kv, order@, k);
                let a = choose|a: int| 0 <= a < order.len() && order[a] == k;
                assert(rows@[a] == place);
            }
            assert forall|a: int| 0 <= a < rows.len() implies is_shown(
                views,
                #[trigger] rows[a] as int,
            ) by {
                assert(order[a] < kv.len());
                assert(is_shown(views, shown[order[a] as int] as int));
            }
        }
        rows
    }
}

/// In the overview, vendors whose reset has come are first, then those whose reset comes sooner,
/// and those without a timer last; vendors with the same minutes left are in the order of their
/// names. Each vendor is listed once.
pub proof fn overview_is_sorted(
    vendors: Seq<VendorView>,
    now: int,
    rows: Seq<usize>,
    i: int,
    j: int,
)
    requires
        is_overview(vendors, now, rows),
        0 <= i < j < rows.len(),
    ensures
        ({
            let first = vendors[rows[i] as int];
            let second = vendors[rows[j] as int];
            &&& rows[i] != rows[j]
            &&& match (minutes_left(first.reset_at, now), minutes_left(second.reset_at, now)) {
                (Some(x), Some(y)) => x < y || (x == y && !text_before(second.name, first.name)),
                (Some(_), None) => true,
                (None, Some(_)) => false,
                (None, None) => !text_before(second.name, first.name),
            }
        }),
{
    assert(shown_before(vendors, now, rows[i] as int, rows[j] as int));
    let first = vendors[rows[i] as int];
    let second = vendors[rows[j] as int];
    text_order_is_total(first.name, second.name);
    text_order_is_total(second.name, first.name);
}

proof fn lemma_shown_before(vendors: Seq<VendorView>, now: int, a: int, b: int)
    ensures
        !shown_before(vendors, now, a, a),
        shown_before(vendors, now, a, b) ==> !shown_before(vendors, now, b, a),
{
    text_order_is_total(vendors[a].name, vendors[b].name);
    text_order_is_total(vendors[a].name, vendors[a].name);
}

proof fn lemma_same_rows(
    vendors: Seq<VendorView>,
    now: int,
    a: Seq<usize>,
    b: Seq<usize>,
    k: int,
)
    requires
        is_overview(vendors, now, a),
        is_overview(vendors, now, b),
        0 <= k <= a.len(),
    ensures
        k <= b.len(),
        forall|i: int| 0 <= i < k ==> a[i] == b[i],
    decreases k,
{
    if k > 0 {
        lemma_same_rows(vendors, now, a, b, k - 1);
        let x = a[k - 1];
        assert(is_shown(vendors, x as int));
        assert(b.contains(x));
        let in_b = choose|i: int| 0 <= i < b.len() && b[i] == x;
        if in_b < k - 1 {
            assert(shown_before(vendors, now, a[in_b] as int, a[k - 1] as int));
            lemma_shown_before(vendors, now, x as int, x as int);
        }
        let y = b[k - 1];
        assert(is_shown(vendors, y as int));
        assert(a.contains(y));
        let in_a = choose|i: int| 0 <= i < a.len() && a[i] == y;
        lemma_shown_before(vendors, now, x as int, y as int);
        lemma_shown_before(vendors, now, y as int, y as int);
        if in_a < k - 1 {
            assert(shown_before(vendors, now, b[in_a] as int, b[k - 1] as int));
        } else if in_a > k - 1 && in_b > k - 1 {
            assert(shown_before(vendors, now, a[k - 1] as int, a[in_a] as int));
            assert(shown_before(vendors, now, b[k - 1] as int, b[in_b] as int));
        }
    }
}

/// There is only one overview of given vendors at a given time.
pub proof fn overview_is_unique(
    vendors: Seq<VendorView>,
    now: int,
    a: Seq<usize>,
    b: Seq<usize>,
)
    requires
        is_overview(vendors, now, a),
        is_overview(vendors, now, b),
    ensures
        a == b,
{
    lemma_same_rows(vendors, now, a, b, a.len() as int);
    lemma_same_rows(vendors, now, b, a, b.len() as int);
    assert(a =~= b);
}

/// The overview lists exactly the vendors that are to be shown in it, each once, and leaves those
/// with the same minutes left and the same name in the order of the list of vendors.
pub proof fn overview_lists_the_shown_vendors(
    vendors: Seq<VendorView>,
    now: int,
    rows: Seq<usize>,
    place: usize,
    i: int,
    j: int,
)
    requires
        is_overview(vendors, now, rows),
    ensures
        rows.contains(place) <==> place < vendors.len() && vendors[place as int].show_in_compact,
        0 <= i < rows.len() && 0 <= j < rows.len() && rows[i] == rows[j] ==> i == j,
        0 <= i < j < rows.len() && vendors[rows[i] as int].name == vendors[rows[j] as int].name
            && minutes_left(vendors[rows[i] as int].reset_at, now) == minutes_left(
            vendors[rows[j] as int].reset_at,
            now,
        ) ==> rows[i] < rows[j],
{
    if rows.contains(place) {
        let k = choose|k: int| 0 <= k < rows.len() && rows[k] == place;
        assert(is_shown(vendors, rows[k] as int));
    }
    if place < vendors.len() && vendors[place as int].show_in_compact {
        assert(is_shown(vendors, place as int));
    }
    if 0 <= i < j < rows.len() {
        overview_is_sorted(vendors, now, rows, i, j);
        assert(shown_before(vendors, now, rows[i] as int, rows[j] as int));
        lemma_shown_before(vendors, now, rows[i] as int, rows[j] as int);
        text_order_is_total(vendors[rows[i] as int].name, vendors[rows[j] as int].name);
    }
    if 0 <= j < i < rows.len() {
        overview_is_sorted(vendors, now, rows, j, i);
    }
}

} // verus!
