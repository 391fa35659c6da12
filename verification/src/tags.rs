//! Lists of tags: what a vendor buys and what a vendor likes.

use vstd::prelude::*;

use crate::order::goes_before;
use crate::order::is_stable_order;
use crate::order::key_views;
use crate::order::stable_order;
use crate::order::stable_order_is_sorted;
use crate::order::stable_order_is_unique;
use crate::order::stable_order_lists_every_place;
use crate::order::SortKey;
use crate::state::VendorApp;
use crate::text::eq_ignore_ascii_case;
use crate::text::same_ignoring_ascii_case;
use crate::text::text_before;
use crate::text::text_order_is_total;
use crate::text::texts;
use crate::text::trim;
use crate::text::trimmed;

verus! {

/// What `str::to_lowercase` gives for a text.
pub uninterp spec fn lowercase(s: Seq<char>) -> Seq<char>;

/// `str::to_lowercase`: the text in lower case, which depends on nothing but the text. Which
/// letters have which lower case is left to Unicode.
#[verifier::external_body]
fn to_lowercase(s: &str) -> (r: String)
    ensures
        r@ == lowercase(s@),
{
    s.to_lowercase()
}

/// The lower case of each of a list of texts.
pub open spec fn lowercased(items: Seq<Seq<char>>) -> Seq<Seq<char>> {
    items.map_values(|s: Seq<char>| lowercase(s))
}

/// Sort keys by text alone.
pub open spec fn text_keys(keys: Seq<Seq<char>>) -> Seq<(Option<i64>, Seq<char>)> {
    keys.map_values(|k: Seq<char>| (None::<i64>, k))
}

/// The items at the places that `order` lists.
pub open spec fn arranged(items: Seq<Seq<char>>, order: Seq<usize>) -> Seq<Seq<char>> {
    Seq::new(order.len(), |i: int| items[order[i] as int])
}

/// Whether `sorted` holds the items as a stable sort by their keys arranges them.
pub open spec fn is_stable_sort(
    items: Seq<Seq<char>>,
    keys: Seq<Seq<char>>,
    sorted: Seq<Seq<char>>,
) -> bool {
    exists|order: Seq<usize>| #[trigger]
        is_stable_order(text_keys(keys), order) && sorted == arranged(items, order)
}

/// Whether a list holds a tag, in whatever case its letters A to Z are.
pub open spec fn has_tag(list: Seq<Seq<char>>, tag: Seq<char>) -> bool {
    exists|i: int| 0 <= i < list.len() && #[trigger] same_ignoring_ascii_case(list[i], tag)
}

/// Whether no two tags of a list are the same but for the case of their letters A to Z.
pub open spec fn all_distinct(list: Seq<Seq<char>>) -> bool {
    forall|i: int, j: int|
        0 <= i < list.len() && 0 <= j < list.len() && i != j ==> !#[trigger]
            same_ignoring_ascii_case(list[i], list[j])
}

/// Whether a tag is one that a list takes: not blank, and not in the list already.
pub open spec fn takes_tag(list: Seq<Seq<char>>, tag: Seq<char>) -> bool {
    trimmed(tag).len() > 0 && !has_tag(list, trimmed(tag))
}

/// Whether `new` is what becomes of a list when `tag` is added: a tag that the list takes is
/// put into it without the white space around it, and the list is sorted by the lower case of
/// its tags; any other tag leaves the list as it is.
pub open spec fn is_list_with(
    list: Seq<Seq<char>>,
    tag: Seq<char>,
    new: Seq<Seq<char>>,
) -> bool {
    if takes_tag(list, tag) {
        let all = list.push(trimmed(tag));
        is_stable_sort(all, lowercased(all), new)
    } else {
        new == list
    }
}

/// The items as a stable sort by their keys arranges them.
pub fn sort_by_keys(items: &Vec<String>, keys: &Vec<String>) -> (r: Vec<String>)
    requires
        items.len() == keys.len(),
    ensures
        is_stable_sort(texts(items@), texts(keys@), texts(r@)),
{
    let mut sort_keys: Vec<SortKey> = Vec::new();
    let mut i: usize = 0;
    while i < keys.len()
        invariant
            i <= keys.len(),
            key_views(sort_keys@) == text_keys(texts(keys@)).take(i as int),
        decreases keys.len() - i,
    {
        let ghost done = key_views(sort_keys@);
        sort_keys.push(SortKey { minutes: None, text: keys[i].clone() });
        assert(key_views(sort_keys@) == done.push(text_keys(texts(keys@))[i as int]));
        assert(text_keys(texts(keys@)).take(i + 1) == done.push(text_keys(texts(keys@))[i as int]));
        i = i + 1;
    }
    assert(text_keys(texts(keys@)).take(i as int) == text_keys(texts(keys@)));
    let order = stable_order(&sort_keys);
    let mut sorted: Vec<String> = Vec::new();
    let mut k: usize = 0;
    while k < order.len()
        invariant
            k <= order.len(),
            items.len() == keys.len(),
            is_stable_order(text_keys(texts(keys@)), order@),
            texts(sorted@) == arranged(texts(items@), order@).take(k as int),
        decreases order.len() - k,
    {
        let ghost done = texts(sorted@);
        let ghost all = arranged(texts(items@), order@);
        assert(order[k as int] < keys.len());
        sorted.push(items[order[k]].clone());
        assert(texts(sorted@) == done.push(all[k as int]));
        assert(all.take(k + 1) == done.push(all[k as int]));
        k = k + 1;
    }
    assert(texts(sorted@) == arranged(texts(items@), order@));
    sorted
}

/// Whether a list holds a tag, in whatever case its letters A to Z are.
fn holds_tag(list: &Vec<String>, tag: &str) -> (r: bool)
    ensures
        r == has_tag(texts(list@), tag@),
{
    let mut i: usize = 0;
    while i < list.len()
        invariant
            i <= list.len(),
            forall|j: int|
                0 <= j < i ==> !#[trigger] same_ignoring_ascii_case(texts(list@)[j], tag@),
        decreases list.len() - i,
    {
        assert(texts(list@)[i as int] == list[i as int]@);
        if eq_ignore_ascii_case(list[i].as_str(), tag) {
            return true;
        }
        i = i + 1;
    }
    false
}

impl VendorApp {
    /// A tag without the white space around it.
    pub fn normalize_tag(s: &str) -> (r: String)
        ensures
            r@ == trimmed(s@),
    {
        trim(s).to_owned()
    }

    /// Adds a tag to a list, and tells whether the list took it.
    pub fn add_unique(list: &mut Vec<String>, item: String) -> (r: bool)
        ensures
            r == takes_tag(texts(old(list)@), item@),
            is_list_with(texts(old(list)@), item@, texts(final(list)@)),
    {
        let item = trim(item.as_str());
        if item.is_empty() {
            return false;
        }
        if holds_tag(list, item) {
            return false;
        }
        let ghost before = texts(list@);
        list.push(item.to_owned());
        assert(texts(list@) == before.push(item@));
        let mut keys: Vec<String> = Vec::new();
        let mut i: usize = 0;
        let ghost all = texts(list@);
        while i < list.len()
            invariant
                i <= list.len(),
                all == texts(list@),
                texts(keys@) == lowercased(all).take(i as int),
            decreases list.len() - i,
        {
            let ghost done = texts(keys@);
            keys.push(to_lowercase(list[i].as_str()));
            assert(texts(keys@) == done.push(lowercased(all)[i as int]));
            assert(lowercased(all).take(i + 1) == done.push(lowercased(all)[i as int]));
            i = i + 1;
        }
        assert(texts(keys@) == lowercased(all));
        assert(keys.len() == texts(keys@).len());
        *list = sort_by_keys(list, &keys);
        true
    }

    /// Takes the tag at the place `remove` out of a list.
    pub fn chip_list(items: &mut Vec<String>, remove: Option<usize>, dirty: &mut bool)
        requires
            remove matches Some(idx) ==> idx < old(items).len(),
        ensures
            texts(final(items)@) == (match remove {
                Some(idx) => texts(old(items)@).remove(idx as int),
                None => texts(old(items)@),
            }),
            *final(dirty) == (*old(dirty) || remove is Some),
    {
        if let Some(idx) = remove {
            let ghost before = texts(items@);
            items.remove(idx);
            assert(texts(items@) == before.remove(idx as int));
            *dirty = true;
        }
    }

    /// Takes all tags out of a list.
    pub fn clear_tags(items: &mut Vec<String>, dirty: &mut bool)
        ensures
            final(items)@.len() == 0,
            *final(dirty) == (*old(dirty) || old(items)@.len() > 0),
    {
        if !items.is_empty() {
            items.clear();
            *dirty = true;
        }
    }
}

proof fn lemma_stable_sort_places(
    items: Seq<Seq<char>>,
    keys: Seq<Seq<char>>,
    sorted: Seq<Seq<char>>,
) -> (order: Seq<usize>)
    requires
        items.len() == keys.len(),
        is_stable_sort(items, keys, sorted),
    ensures
        is_stable_order(text_keys(keys), order),
        sorted == arranged(items, order),
        sorted.len() == items.len(),
{
    choose|order: Seq<usize>| #[trigger]
        is_stable_order(text_keys(keys), order) && sorted == arranged(items, order)
}

/// There is only one stable sort of a list by given keys.
pub proof fn stable_sort_is_unique(
    items: Seq<Seq<char>>,
    keys: Seq<Seq<char>>,
    a: Seq<Seq<char>>,
    b: Seq<Seq<char>>,
)
    requires
        items.len() == keys.len(),
        is_stable_sort(items, keys, a),
        is_stable_sort(items, keys, b),
    ensures
        a == b,
{
    let x = lemma_stable_sort_places(items, keys, a);
    let y = lemma_stable_sort_places(items, keys, b);
    stable_order_is_unique(text_keys(keys), x, y);
}

/// A stable sort holds the items that were there before, and no others.
pub proof fn stable_sort_keeps_the_items(
    items: Seq<Seq<char>>,
    keys: Seq<Seq<char>>,
    sorted: Seq<Seq<char>>,
    item: Seq<char>,
)
    requires
        items.len() == keys.len(),
        is_stable_sort(items, keys, sorted),
    ensures
        sorted.len() == items.len(),
        sorted.contains(item) <==> items.contains(item),
{
    let order = lemma_stable_sort_places(items, keys, sorted);
    if sorted.contains(item) {
        let i = choose|i: int| 0 <= i < sorted.len() && sorted[i] == item;
        assert(order[i] < keys.len());
        assert(items[order[i] as int] == item);
    }
    if items.contains(item) {
        let place = choose|i: int| 0 <= i < items.len() && items[i] == item;
        stable_order_lists_every_place(text_keys(keys), order, place);
        let i = choose|i: int| 0 <= i < order.len() && order[i] == place;
        assert(sorted[i] == item);
    }
}

/// A list that took a tag is in the order of the lower case of its tags.
pub proof fn added_tags_are_in_order(
    list: Seq<Seq<char>>,
    tag: Seq<char>,
    new: Seq<Seq<char>>,
    i: int,
    j: int,
)
    requires
        takes_tag(list, tag),
        is_list_with(list, tag, new),
        0 <= i < j < new.len(),
    ensures
        !text_before(lowercase(new[j]), lowercase(new[i])),
{
    let all = list.push(trimmed(tag));
    let keys = lowercased(all);
    let order = lemma_stable_sort_places(all, keys, new);
    assert(order[i] < keys.len() && order[j] < keys.len());
    assert(goes_before(text_keys(keys), order[i] as int, order[j] as int));
    text_order_is_total(lowercase(new[i]), lowercase(new[j]));
}

/// A list holds a tag that is not blank once it was added, together with all it held before, and
/// does not take it again.
pub proof fn added_tag_is_not_taken_again(
    list: Seq<Seq<char>>,
    tag: Seq<char>,
    new: Seq<Seq<char>>,
)
    requires
        trimmed(tag).len() > 0,
        is_list_with(list, tag, new),
    ensures
        has_tag(new, trimmed(tag)),
        !takes_tag(new, tag),
        forall|other: Seq<char>| list.contains(other) ==> new.contains(other),
{
    if takes_tag(list, tag) {
        let all = list.push(trimmed(tag));
        assert(all[list.len() as int] == trimmed(tag));
        stable_sort_keeps_the_items(all, lowercased(all), new, trimmed(tag));
        let i = choose|i: int| 0 <= i < new.len() && new[i] == trimmed(tag);
        assert(same_ignoring_ascii_case(new[i], trimmed(tag)));
        assert forall|other: Seq<char>| list.contains(other) implies new.contains(other) by {
            let k = choose|k: int| 0 <= k < list.len() && list[k] == other;
            assert(all[k] == other);
            stable_sort_keeps_the_items(all, lowercased(all), new, other);
        }
    }
}

/// Adding a tag to a list of distinct tags leaves the tags distinct.
pub proof fn added_tag_keeps_tags_distinct(
    list: Seq<Seq<char>>,
    tag: Seq<char>,
    new: Seq<Seq<char>>,
)
    requires
        all_distinct(list),
        is_list_with(list, tag, new),
    ensures
        all_distinct(new),
{
    if takes_tag(list, tag) {
        let all = list.push(trimmed(tag));
        let order = lemma_stable_sort_places(all, lowercased(all), new);
        assert forall|i: int, j: int|
            0 <= i < new.len() && 0 <= j < new.len() && i != j implies !#[trigger]
            same_ignoring_ascii_case(new[i], new[j]) by {
            let keys = text_keys(lowercased(all));
            let x = order[i] as int;
            let y = order[j] as int;
            assert(x < keys.len() && y < keys.len());
            assert(x != y) by {
                text_order_is_total(keys[x].1, keys[x].1);
                if i < j {
                    assert(goes_before(keys, order[i] as int, order[j] as int));
                } else {
                    assert(goes_before(keys, order[j] as int, order[i] as int));
                }
            }
            assert(new[i] == all[x] && new[j] == all[y]);
            if x < list.len() && y < list.len() {
                assert(!same_ignoring_ascii_case(list[x], list[y]));
            } else if x < list.len() {
                assert(!same_ignoring_ascii_case(list[x], trimmed(tag)));
            } else {
                assert(!same_ignoring_ascii_case(list[y], trimmed(tag)));
                if same_ignoring_ascii_case(all[x], all[y]) {
                    assert forall|k: int| 0 <= k < list[y].len() implies #[trigger]
                        crate::text::ascii_lower(list[y][k]) == crate::text::ascii_lower(
                        trimmed(tag)[k],
                    ) by {
                        assert(crate::text::ascii_lower(all[x][k])
                            == crate::text::ascii_lower(all[y][k]));
                    }
                    assert(same_ignoring_ascii_case(list[y], trimmed(tag)));
                }
            }
        }
    }
}

/// A list takes a tag exactly where the tag is not blank, and no tag of the list is the same but
/// for case. A tag that it does not take leaves the list as it is.
pub proof fn new_tags_alone_are_taken(list: Seq<Seq<char>>, tag: Seq<char>, new: Seq<Seq<char>>)
    requires
        is_list_with(list, tag, new),
    ensures
        takes_tag(list, tag) <==> trimmed(tag).len() > 0 && forall|i: int|
            0 <= i < list.len() ==> !#[trigger] same_ignoring_ascii_case(list[i], trimmed(tag)),
        !takes_tag(list, tag) ==> new == list,
        takes_tag(list, tag) ==> new.len() == list.len() + 1,
{
    if takes_tag(list, tag) {
        let all = list.push(trimmed(tag));
        let order = lemma_stable_sort_places(all, lowercased(all), new);
    }
}

/// A stable sort gives each item one place: `places[i]` is where the item at `i` stood before. The
/// items are then in the order of their keys, and those with the same key stay in the order in
/// which they were.
pub proof fn stable_sort_gives_each_item_a_place(
    items: Seq<Seq<char>>,
    keys: Seq<Seq<char>>,
    sorted: Seq<Seq<char>>,
) -> (places: Seq<usize>)
    requires
        items.len() == keys.len(),
        is_stable_sort(items, keys, sorted),
    ensures
        sorted.len() == items.len(),
        places.len() == items.len(),
        forall|i: int|
            0 <= i < places.len() ==> #[trigger] places[i] < items.len() && sorted[i]
                == items[places[i] as int],
        forall|i: int, j: int|
            #![trigger places[i], places[j]]
            0 <= i < j < places.len() ==> places[i] != places[j] && !text_before(
                keys[places[j] as int],
                keys[places[i] as int],
            ) && (keys[places[i] as int] == keys[places[j] as int] ==> places[i] < places[j]),
{
    let order = lemma_stable_sort_places(items, keys, sorted);
    assert forall|i: int, j: int|
        #![trigger order[i], order[j]]
        0 <= i < j < order.len() implies order[i] != order[j] && !text_before(
        keys[order[j] as int],
        keys[order[i] as int],
    ) && (keys[order[i] as int] == keys[order[j] as int] ==> order[i] < order[j]) by {
        stable_order_is_sorted(text_keys(keys), order, i, j);
        assert(text_keys(keys)[order[i] as int] == (None::<i64>, keys[order[i] as int]));
        assert(text_keys(keys)[order[j] as int] == (None::<i64>, keys[order[j] as int]));
    }
    order
}

/// A tag that a list takes is put into it without the white space around it, among the tags that
/// were there: `places[i]` is where the tag at `i` stood before, and the last place that of the new
/// tag. Tags are in the order of their lower case, and those with the same one stay in the order in
/// which they were.
pub proof fn taken_tag_is_put_in_its_place(
    list: Seq<Seq<char>>,
    tag: Seq<char>,
    new: Seq<Seq<char>>,
) -> (places: Seq<usize>)
    requires
        takes_tag(list, tag),
        is_list_with(list, tag, new),
    ensures
        new.len() == list.len() + 1,
        places.len() == list.len() + 1,
        forall|i: int|
            0 <= i < places.len() ==> #[trigger] places[i] <= list.len() && new[i] == (if places[i]
                == list.len() {
                trimmed(tag)
            } else {
                list[places[i] as int]
            }),
        forall|i: int, j: int|
            #![trigger places[i], places[j]]
            0 <= i < j < places.len() ==> places[i] != places[j] && !text_before(
                lowercase(new[j]),
                lowercase(new[i]),
            ) && (lowercase(new[i]) == lowercase(new[j]) ==> places[i] < places[j]),
{
    let all = list.push(trimmed(tag));
    let keys = lowercased(all);
    let places = stable_sort_gives_each_item_a_place(all, keys, new);
    assert forall|i: int| 0 <= i < places.len() implies #[trigger] places[i] <= list.len() && new[i]
        == (if places[i] == list.len() {
        trimmed(tag)
    } else {
        list[places[i] as int]
    }) && keys[places[i] as int] == lowercase(new[i]) by {
        assert(new[i] == all[places[i] as int]);
    }
    assert forall|i: int, j: int|
        #![trigger places[i], places[j]]
        0 <= i < j < places.len() implies places[i] != places[j] && !text_before(
        lowercase(new[j]),
        lowercase(new[i]),
    ) && (lowercase(new[i]) == lowercase(new[j]) ==> places[i] < places[j]) by {
        assert(keys[places[i] as int] == lowercase(new[i]));
        assert(keys[places[j] as int] == lowercase(new[j]));
    }
    places
}

} // verus!
