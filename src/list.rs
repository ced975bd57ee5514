//! A list of items with a filter field, a filtered and sorted view, and a
//! selection in that view that wraps around at both ends.

use vstd::prelude::*;

use crate::filter::{filter_key_outcome, key_text, FilterComponent};
use crate::keys::{EventState, KeyEvent};
use crate::strings::{
    contains_seq, contains_text, lemma_lex_total, lemma_lex_transitive, lex_less, lex_lt, occurs_at,
    texts_equal,
};

verus! {

/// Which part of a list panel receives the keys.
#[derive(Clone, Copy, Debug, PartialEq, Eq, Structural)]
pub enum Focus {
    Filter,
    List,
}

/// A move of the selection.
#[derive(Clone, Copy, Debug, PartialEq, Eq, Structural)]
pub enum ItemOrder {
    Next,
    Previous,
    Last,
    First,
}

/// An item that a list shows, filters and sorts by a text key.
pub trait ListKey {
    /// The key of the item.
    spec fn key_view(&self) -> Seq<char>;

    fn key(&self) -> (r: &str)
        ensures
            r@ == self.key_view(),
    ;
}

/// The keys of the items, in item order.
pub open spec fn keys_of<T: ListKey>(items: Seq<T>) -> Seq<Seq<char>> {
    items.map_values(|t: T| t.key_view())
}

/// Entry `x` sorts before entry `y`: by key, and by position among equal keys.
pub open spec fn entry_before(keys: Seq<Seq<char>>, x: int, y: int) -> bool {
    lex_lt(keys[x], keys[y]) || (keys[x] == keys[y] && x < y)
}

/// `r` lists, each once and in key order, the positions of the keys that contain `q`.
pub open spec fn is_filtered_view(keys: Seq<Seq<char>>, q: Seq<char>, r: Seq<usize>) -> bool {
    &&& forall|a: int, b: int|
        0 <= a < b < r.len() ==> #[trigger] entry_before(keys, r[a] as int, r[b] as int)
    &&& forall|a: int| 0 <= a < r.len() ==> #[trigger] r[a] < keys.len()
    &&& forall|a: int| 0 <= a < r.len() ==> contains_seq(keys[#[trigger] r[a] as int], q)
    &&& forall|i: int|
        0 <= i < keys.len() && contains_seq(#[trigger] keys[i], q) ==> r.contains(i as usize)
}

/// The selection after one move in a view of `n` entries. Next and Previous wrap
/// around; from no selection, Next picks the first entry and Previous the last.
pub open spec fn moved_selection(order: ItemOrder, sel: Option<usize>, n: nat) -> Option<usize> {
    if n == 0 {
        None
    } else {
        match order {
            ItemOrder::Next => match sel {
                Some(i) => if i + 1 >= n {
                    Some(0usize)
                } else {
                    Some((i + 1) as usize)
                },
                None => Some(0usize),
            },
            ItemOrder::Previous => match sel {
                Some(i) => if i == 0 || i >= n {
                    Some((n - 1) as usize)
                } else {
                    Some((i - 1) as usize)
                },
                None => Some((n - 1) as usize),
            },
            ItemOrder::First => Some(0usize),
            ItemOrder::Last => Some((n - 1) as usize),
        }
    }
}

/// After the view changed from `old_view` to `new_view`, the selection follows the
/// entry it stood on, and is cleared when that entry is no longer shown.
pub open spec fn follows_selection(
    old_view: Seq<usize>,
    old_sel: Option<usize>,
    new_view: Seq<usize>,
    new_sel: Option<usize>,
) -> bool {
    match old_sel {
        None => new_sel is None,
        Some(s) => if new_view.contains(old_view[s as int]) {
            new_sel is Some && new_sel->0 < new_view.len() && new_view[new_sel->0 as int]
                == old_view[s as int]
        } else {
            new_sel is None
        },
    }
}

/// The positions of the items whose key contains `q`, sorted by key and, among
/// equal keys, by position.
pub fn filtered_positions<T: ListKey>(items: &Vec<T>, q: &str) -> (r: Vec<usize>)
    ensures
        is_filtered_view(keys_of(items@), q@, r@),
{
    let ghost keys = keys_of(items@);
    let mut r: Vec<usize> = Vec::new();
    let mut i: usize = 0;
    while i < items.len()
        invariant
            keys == keys_of(items@),
            i <= items.len(),
            forall|a: int, b: int|
                0 <= a < b < r@.len() ==> #[trigger] entry_before(keys, r@[a] as int, r@[b] as int),
            forall|a: int| 0 <= a < r@.len() ==> #[trigger] r@[a] < i,
            forall|a: int| 0 <= a < r@.len() ==> contains_seq(keys[#[trigger] r@[a] as int], q@),
            forall|j: int| 0 <= j < i && contains_seq(#[trigger] keys[j], q@) ==> r@.contains(j as usize),
        decreases items.len() - i,
    {
        let key = items[i].key();
        assert(key@ == keys[i as int]);
        if contains_text(key, q) {
            let mut p: usize = 0;
            while p < r.len() && !lex_less(key, items[r[p]].key())
                invariant
                    keys == keys_of(items@),
                    key@ == keys[i as int],
                    i < items.len(),
                    p <= r@.len(),
                    forall|a: int| 0 <= a < r@.len() ==> #[trigger] r@[a] < i,
                    forall|a: int| 0 <= a < p ==> !lex_lt(keys[i as int], #[trigger] keys[r@[a] as int]),
                decreases r.len() - p,
            {
                p = p + 1;
            }
            let ghost old_r = r@;
            proof {
                assert forall|a: int, b: int|
                    0 <= a < b < old_r.len() + 1 implies #[trigger] entry_before(
                    keys,
                    old_r.insert(p as int, i)[a] as int,
                    old_r.insert(p as int, i)[b] as int,
                ) by {
                    let nr = old_r.insert(p as int, i);
                    if a < p && b < p {
                        assert(nr[a] == old_r[a] && nr[b] == old_r[b]);
                    } else if a < p && b == p {
                        assert(nr[a] == old_r[a]);
                        lemma_lex_total(keys[old_r[a] as int], keys[i as int]);
                    } else if a < p && b > p {
                        assert(nr[a] == old_r[a] && nr[b] == old_r[b - 1]);
                        assert(entry_before(keys, old_r[a] as int, old_r[b - 1] as int));
                    } else if a == p {
                        assert(nr[b] == old_r[b - 1]);
                        assert(lex_lt(keys[i as int], keys[old_r[p as int] as int]));
                        if b - 1 > p {
                            assert(entry_before(keys, old_r[p as int] as int, old_r[b - 1] as int));
                            if lex_lt(keys[old_r[p as int] as int], keys[old_r[b - 1] as int]) {
                                lemma_lex_transitive(
                                    keys[i as int],
                                    keys[old_r[p as int] as int],
                                    keys[old_r[b - 1] as int],
                                );
                            }
                        }
                    } else {
                        assert(nr[a] == old_r[a - 1] && nr[b] == old_r[b - 1]);
                        assert(entry_before(keys, old_r[a - 1] as int, old_r[b - 1] as int));
                    }
                }
            }
            r.insert(p, i);
            proof {
                assert forall|j: int|
                    0 <= j < i + 1 && contains_seq(#[trigger] keys[j], q@) implies r@.contains(
                    j as usize,
                ) by {
                    if j == i {
                        assert(r@[p as int] == i);
                    } else {
                        let k = choose|k: int| 0 <= k < old_r.len() && old_r[k] == j as usize;
                        if k < p {
                            assert(r@[k] == j as usize);
                        } else {
                            assert(r@[k + 1] == j as usize);
                        }
                    }
                }
            }
        } else {
            proof {
                assert forall|j: int|
                    0 <= j < i + 1 && contains_seq(#[trigger] keys[j], q@) implies r@.contains(
                    j as usize,
                ) by {
                    if j == i {
                        assert(!contains_seq(keys[i as int], q@));
                    }
                }
            }
        }
        i = i + 1;
    }
    r
}


/// Where `item` stands in `view`, if it does.
fn position_in(view: &Vec<usize>, item: usize) -> (r: Option<usize>)
    ensures
        r is Some ==> r->0 < view@.len() && view@[r->0 as int] == item,
        r is None ==> !view@.contains(item),
{
    let mut p: usize = 0;
    while p < view.len()
        invariant
            p <= view@.len(),
            forall|a: int| 0 <= a < p ==> view@[a] != item,
        decreases view.len() - p,
    {
        if view[p] == item {
            return Some(p);
        }
        p = p + 1;
    }
    None
}

/// The first position in `items` whose key is `key`.
fn first_key_position<T: ListKey>(items: &Vec<T>, key: &str) -> (r: Option<usize>)
    ensures
        r is Some ==> first_with_key(items@, key@, r->0 as int),
        r is None ==> forall|j: int| 0 <= j < items@.len() ==> #[trigger] items@[j].key_view() != key@,
{
    let mut k: usize = 0;
    while k < items.len()
        invariant
            k <= items@.len(),
            forall|j: int| 0 <= j < k ==> #[trigger] items@[j].key_view() != key@,
        decreases items.len() - k,
    {
        if texts_equal(items[k].key(), key) {
            return Some(k);
        }
        k = k + 1;
    }
    None
}

/// Items with a filter text, the view of those whose key contains it, and a selection in that view.
pub struct SelectableList<T> {
    items: Vec<T>,
    filter: FilterComponent,
    filtered: Vec<usize>,
    selected: Option<usize>,
}

impl<T: ListKey> SelectableList<T> {
    /// All items, in the order in which they came.
    pub closed spec fn items(&self) -> Seq<T> {
        self.items@
    }

    /// The filter text.
    pub closed spec fn filter_text(&self) -> Seq<char> {
        self.filter.text()
    }

    /// The caret of the filter text.
    pub closed spec fn filter_cursor(&self) -> int {
        self.filter.cursor()
    }

    /// The view: positions in `items()` of the items shown, in display order.
    pub closed spec fn filtered(&self) -> Seq<usize> {
        self.filtered@
    }

    /// The selected position in the view, if any.
    pub closed spec fn selected(&self) -> Option<usize> {
        self.selected
    }

    /// The view matches the items and the filter text, and the selection lies inside the view.
    pub open spec fn wf(&self) -> bool {
        &&& is_filtered_view(keys_of(self.items()), self.filter_text(), self.filtered())
        &&& self.selected() is Some ==> self.selected()->0 < self.filtered().len()
        &&& 0 <= self.filter_cursor() <= self.filter_text().len()
    }

    /// A list of `items` with an empty filter, all items shown, and the first one selected.
    pub fn new(items: Vec<T>) -> (r: Self)
        ensures
            r.wf(),
            r.items() == items@,
            r.filter_text() == Seq::<char>::empty(),
            r.selected() == (if items@.len() == 0 {
                None
            } else {
                Some(0usize)
            }),
    {
        let filter = FilterComponent::default();
        let filtered = filtered_positions(&items, filter.value().as_str());
        proof {
            assert(keys_of(items@).len() == items@.len());
            if filtered@.len() > 0 {
                assert(filtered@[0] < keys_of(items@).len());
            }
            if items@.len() > 0 {
                assert(keys_of(items@)[0].subrange(0, 0) =~= Seq::<char>::empty());
                assert(occurs_at(keys_of(items@)[0], Seq::<char>::empty(), 0));
                assert(filtered@.contains(0usize));
            }
        }
        let selected = if filtered.len() == 0 {
            None
        } else {
            Some(0)
        };
        SelectableList { items, filter, filtered, selected }
    }

    /// The number of entries in the view.
    pub fn filtered_len(&self) -> (r: usize)
        ensures
            r == self.filtered().len(),
    {
        self.filtered.len()
    }

    /// The selected position in the view.
    pub fn selected_index(&self) -> (r: Option<usize>)
        ensures
            r == self.selected(),
    {
        self.selected
    }

    /// The filter text.
    pub fn filter_value(&self) -> (r: &String)
        ensures
            r@ == self.filter_text(),
    {
        self.filter.value()
    }

    /// All items.
    pub fn all_items(&self) -> (r: &Vec<T>)
        ensures
            r@ == self.items(),
    {
        &self.items
    }

    /// The items shown, in display order.
    pub fn filtered_items(&self) -> (r: Vec<&T>)
        requires
            self.wf(),
        ensures
            r@.len() == self.filtered().len(),
            forall|a: int|
                0 <= a < r@.len() ==> *r@[a] == self.items()[#[trigger] self.filtered()[a] as int],
    {
        let mut r: Vec<&T> = Vec::new();
        let mut a: usize = 0;
        while a < self.filtered.len()
            invariant
                self.wf(),
                a <= self.filtered@.len(),
                r@.len() == a,
                forall|b: int|
                    0 <= b < a ==> *r@[b] == self.items@[#[trigger] self.filtered@[b] as int],
            decreases self.filtered.len() - a,
        {
            r.push(&self.items[self.filtered[a]]);
            a = a + 1;
        }
        r
    }

    /// The selected item.
    pub fn selected_item(&self) -> (r: Option<&T>)
        requires
            self.wf(),
        ensures
            r is None <==> self.selected() is None,
            r is Some ==> *r->0 == self.items()[self.filtered()[self.selected()->0 as int] as int],
    {
        match self.selected {
            Some(s) => Some(&self.items[self.filtered[s]]),
            None => None,
        }
    }

    /// Moves the selection: Next and Previous wrap around, First and Last jump to the
    /// ends; in an empty view nothing is selected.
    pub fn select(&mut self, item_order: ItemOrder)
        requires
            old(self).wf(),
        ensures
            final(self).wf(),
            final(self).items() == old(self).items(),
            final(self).filter_text() == old(self).filter_text(),
            final(self).filtered() == old(self).filtered(),
            final(self).selected() == moved_selection(
                item_order,
                old(self).selected(),
                old(self).filtered().len(),
            ),
    {
        let n = self.filtered.len();
        if n == 0 {
            self.selected = None;
            return ;
        }
        self.selected = match item_order {
            ItemOrder::Next => match self.selected {
                Some(i) => if i + 1 >= n {
                    Some(0)
                } else {
                    Some(i + 1)
                },
                None => Some(0),
            },
            ItemOrder::Previous => match self.selected {
                Some(i) => if i == 0 || i >= n {
                    Some(n - 1)
                } else {
                    Some(i - 1)
                },
                None => Some(n - 1),
            },
            ItemOrder::First => Some(0),
            ItemOrder::Last => Some(n - 1),
        };
    }

    /// Recomputes the view after the filter text changed, and moves the selection
    /// onto the entry it stood on before.
    fn refresh(&mut self)
        requires
            old(self).selected() is Some ==> old(self).selected()->0 < old(self).filtered().len(),
            0 <= old(self).filter_cursor() <= old(self).filter_text().len(),
        ensures
            final(self).wf(),
            final(self).items() == old(self).items(),
            final(self).filter_text() == old(self).filter_text(),
            final(self).filter_cursor() == old(self).filter_cursor(),
            follows_selection(
                old(self).filtered(),
                old(self).selected(),
                final(self).filtered(),
                final(self).selected(),
            ),
    {
        let filtered = filtered_positions(&self.items, self.filter.value().as_str());
        let selected = match self.selected {
            Some(s) => position_in(&filtered, self.filtered[s]),
            None => None,
        };
        self.filtered = filtered;
        self.selected = selected;
    }

    /// Passes `key` to the filter field; when it changed the text, the view is
    /// recomputed and the selection follows its entry or is cleared.
    pub fn handle_filter_key(&mut self, key: KeyEvent) -> (r: EventState)
        requires
            old(self).wf(),
        ensures
            final(self).wf(),
            r == filter_key_outcome(key),
            final(self).items() == old(self).items(),
            final(self).filter_text() == key_text(
                key,
                old(self).filter_text(),
                old(self).filter_cursor(),
            ),
            r != EventState::Consumed ==> *final(self) == *old(self),
            follows_selection(
                old(self).filtered(),
                old(self).selected(),
                final(self).filtered(),
                final(self).selected(),
            ),
    {
        let r = self.filter.handle_key(key);
        if r == EventState::Consumed {
            self.refresh();
        } else {
            proof {
                if let Some(s) = self.selected {
                    assert(self.filtered@.contains(self.filtered@[s as int]));
                }
            }
        }
        r
    }

    /// Types `c` into the filter text and recomputes the view.
    pub fn enter_char(&mut self, c: char)
        requires
            old(self).wf(),
        ensures
            final(self).wf(),
            final(self).items() == old(self).items(),
            final(self).filter_text() == crate::filter::text_inserted(
                old(self).filter_text(),
                old(self).filter_cursor(),
                c,
            ),
            follows_selection(
                old(self).filtered(),
                old(self).selected(),
                final(self).filtered(),
                final(self).selected(),
            ),
    {
        self.filter.enter_char(c);
        self.refresh();
    }

    /// Deletes the character before the filter caret and recomputes the view.
    pub fn delete_char(&mut self)
        requires
            old(self).wf(),
        ensures
            final(self).wf(),
            final(self).items() == old(self).items(),
            final(self).filter_text() == crate::filter::text_deleted(
                old(self).filter_text(),
                old(self).filter_cursor(),
            ),
            follows_selection(
                old(self).filtered(),
                old(self).selected(),
                final(self).filtered(),
                final(self).selected(),
            ),
    {
        self.filter.delete_char();
        self.refresh();
    }

    /// Appends `item`, recomputes the view, and selects the new item when the
    /// filter shows it; otherwise nothing is selected.
    pub fn add(&mut self, item: T)
        requires
            old(self).wf(),
        ensures
            final(self).wf(),
            final(self).items() == old(self).items().push(item),
            final(self).filter_text() == old(self).filter_text(),
            contains_seq(item.key_view(), old(self).filter_text()) ==> {
                &&& final(self).selected() is Some
                &&& final(self).filtered()[final(self).selected()->0 as int] == old(self).items().len()
            },
            !contains_seq(item.key_view(), old(self).filter_text()) ==> final(self).selected() is None,
    {
        let new_index = self.items.len();
        self.items.push(item);
        let filtered = filtered_positions(&self.items, self.filter.value().as_str());
        proof {
            assert(self.items@[new_index as int] == item);
            assert(keys_of(self.items@)[new_index as int] == item.key_view());
        }
        let selected = position_in(&filtered, new_index);
        self.filtered = filtered;
        self.selected = selected;
    }

    /// Removes the first item whose key is `key`, if there is one, and returns it;
    /// afterwards nothing is selected.
    pub fn remove_by_key(&mut self, key: &str) -> (r: Option<T>)
        requires
            old(self).wf(),
        ensures
            final(self).wf(),
            final(self).selected() is None,
            final(self).filter_text() == old(self).filter_text(),
            (exists|j: int| 0 <= j < old(self).items().len() && #[trigger] old(self).items()[j].key_view() == key@)
                ==> exists|k: int| {
                &&& #[trigger] first_with_key(old(self).items(), key@, k)
                &&& r == Some(old(self).items()[k])
                &&& final(self).items() == old(self).items().remove(k)
            },
            !(exists|j: int| 0 <= j < old(self).items().len() && #[trigger] old(self).items()[j].key_view() == key@)
                ==> r is None && final(self).items() == old(self).items(),
    {
        let k = match first_key_position(&self.items, key) {
            Some(k) => k,
            None => {
                self.selected = None;
                return None;
            },
        };
        let item = self.items.remove(k);
        let filtered = filtered_positions(&self.items, self.filter.value().as_str());
        self.filtered = filtered;
        self.selected = None;
        Some(item)
    }
}


/// `k` is the first position in `items` whose key is `key`.
pub open spec fn first_with_key<T: ListKey>(items: Seq<T>, key: Seq<char>, k: int) -> bool {
    &&& 0 <= k < items.len()
    &&& items[k].key_view() == key
    &&& forall|j: int| 0 <= j < k ==> #[trigger] items[j].key_view() != key
}

/// The selection after `k` moves to the next entry in a view of `n` entries.
pub open spec fn next_repeated(sel: Option<usize>, n: nat, k: nat) -> Option<usize>
    decreases k,
{
    if k == 0 {
        sel
    } else {
        moved_selection(ItemOrder::Next, next_repeated(sel, n, (k - 1) as nat), n)
    }
}

proof fn lemma_next_repeated_formula(n: nat, i: usize, k: nat)
    requires
        i < n <= usize::MAX,
        k <= n,
    ensures
        next_repeated(Some(i), n, k) == Some(
            (if i + k < n {
                i + k
            } else {
                i + k - n
            }) as usize,
        ),
    decreases k,
{
    if k > 0 {
        lemma_next_repeated_formula(n, i, (k - 1) as nat);
    }
}

/// Moving to the next entry as many times as the view has entries comes back to
/// the entry selected at the start, and the next entry after the last is the first.
pub proof fn lemma_select_next_full_cycle(n: nat, i: usize)
    requires
        i < n <= usize::MAX,
    ensures
        next_repeated(Some(i), n, n) == Some(i),
        moved_selection(ItemOrder::Next, Some((n - 1) as usize), n) == Some(0usize),
{
    lemma_next_repeated_formula(n, i, n);
}

} // verus!
