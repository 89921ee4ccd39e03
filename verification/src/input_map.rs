//! Input values by key, listed in the order of their keys.

use vstd::prelude::*;
use vstd::string::*;

use crate::flow;
use crate::flow::{UiInputChange, UiInputValue};
use crate::text;
use crate::text::TextOrder;

verus! {

broadcast use vstd::string::group_string_axioms;

/// A map from variable keys to values. Its listing is ordered by key.
#[derive(Debug, PartialEq)]
pub struct InputMap {
    entries: Vec<UiInputChange>,
}

/// Whether every key stands before all later ones.
pub open spec fn keys_increase(listing: Seq<(Seq<char>, UiInputValue)>) -> bool {
    forall|i: int, j: int|
        0 <= i < j < listing.len() ==> text::text_before(
            (#[trigger] listing[i]).0,
            (#[trigger] listing[j]).0,
        )
}

/// The map that a listing spells out.
pub open spec fn listing_map(listing: Seq<(Seq<char>, UiInputValue)>) -> Map<
    Seq<char>,
    UiInputValue,
>
    decreases listing.len(),
{
    if listing.len() == 0 {
        Map::empty()
    } else {
        listing_map(listing.drop_last()).insert(listing.last().0, listing.last().1)
    }
}

proof fn lemma_listing_map(listing: Seq<(Seq<char>, UiInputValue)>)
    requires
        keys_increase(listing),
    ensures
        forall|i: int|
            0 <= i < listing.len() ==> listing_map(listing).contains_key(
                (#[trigger] listing[i]).0,
            ) && listing_map(listing)[listing[i].0] == listing[i].1,
        forall|k: Seq<char>| #[trigger]
            listing_map(listing).contains_key(k) ==> exists|i: int|
                0 <= i < listing.len() && (#[trigger] listing[i]).0 == k,
    decreases listing.len(),
{
    if listing.len() > 0 {
        let shorter = listing.drop_last();
        assert(keys_increase(shorter)) by {
            assert forall|i: int, j: int| 0 <= i < j < shorter.len() implies text::text_before(
                (#[trigger] shorter[i]).0,
                (#[trigger] shorter[j]).0,
            ) by {
                assert(shorter[i] == listing[i] && shorter[j] == listing[j]);
            }
        }
        lemma_listing_map(shorter);
        assert forall|i: int| 0 <= i < listing.len() implies listing_map(listing).contains_key(
            (#[trigger] listing[i]).0,
        ) && listing_map(listing)[listing[i].0] == listing[i].1 by {
            if i < shorter.len() {
                assert(shorter[i] == listing[i]);
                text::lemma_text_order(listing[i].0, listing.last().0, listing[i].0);
            }
        }
        assert forall|k: Seq<char>| #[trigger] listing_map(listing).contains_key(k) implies exists|
            i: int,
        | 0 <= i < listing.len() && (#[trigger] listing[i]).0 == k by {
            if k == listing.last().0 {
                assert(listing[listing.len() - 1].0 == k);
            } else {
                assert(listing_map(shorter).contains_key(k));
                let i = choose|i: int| 0 <= i < shorter.len() && (#[trigger] shorter[i]).0 == k;
                assert(listing[i].0 == k);
            }
        }
    }
}

/// An ordered listing has as many entries as its map.
proof fn lemma_listing_len(listing: Seq<(Seq<char>, UiInputValue)>)
    requires
        keys_increase(listing),
    ensures
        listing_map(listing).dom().finite(),
        listing_map(listing).len() == listing.len(),
    decreases listing.len(),
{
    if listing.len() > 0 {
        let shorter = listing.drop_last();
        lemma_prefix_increases(listing);
        lemma_listing_len(shorter);
        lemma_listing_map(shorter);
        let key = listing.last().0;
        if listing_map(shorter).contains_key(key) {
            let k = choose|k: int| 0 <= k < shorter.len() && (#[trigger] shorter[k]).0 == key;
            assert(text::text_before(listing[k].0, listing[listing.len() - 1].0));
            text::lemma_text_order(key, key, key);
        }
        assert(listing_map(listing).dom() =~= listing_map(shorter).dom().insert(key));
    } else {
        assert(listing_map(listing).dom() =~= Set::<Seq<char>>::empty());
    }
}

/// Two ordered listings of the same map are the same listing.
pub proof fn lemma_listing_unique(
    a: Seq<(Seq<char>, UiInputValue)>,
    b: Seq<(Seq<char>, UiInputValue)>,
)
    requires
        keys_increase(a),
        keys_increase(b),
        listing_map(a) == listing_map(b),
    ensures
        a == b,
    decreases a.len(),
{
    lemma_listing_map(a);
    lemma_listing_map(b);
    if a.len() == 0 || b.len() == 0 {
        if a.len() > 0 {
            assert(listing_map(b).contains_key(a[0].0));
        }
        if b.len() > 0 {
            assert(listing_map(a).contains_key(b[0].0));
        }
        assert(a =~= b);
    } else {
        let (x, y) = (a.last(), b.last());
        assert(listing_map(b).contains_key(a[a.len() - 1].0));
        assert(listing_map(a).contains_key(b[b.len() - 1].0));
        let i = choose|i: int| 0 <= i < b.len() && (#[trigger] b[i]).0 == x.0;
        let j = choose|j: int| 0 <= j < a.len() && (#[trigger] a[j]).0 == y.0;
        assert(x.0 == y.0) by {
            if i < b.len() - 1 {
                assert(text::text_before(b[i].0, b[b.len() - 1].0));
                if j < a.len() - 1 {
                    assert(text::text_before(a[j].0, a[a.len() - 1].0));
                }
                text::lemma_text_order(x.0, y.0, x.0);
            }
        }
        assert(listing_map(a)[a[a.len() - 1].0] == x.1);
        assert(listing_map(b)[b[b.len() - 1].0] == y.1);
        let (p, q) = (a.drop_last(), b.drop_last());
        lemma_prefix_increases(a);
        lemma_prefix_increases(b);
        lemma_listing_map(p);
        lemma_listing_map(q);
        assert(!listing_map(p).contains_key(x.0)) by {
            if listing_map(p).contains_key(x.0) {
                let k = choose|k: int| 0 <= k < p.len() && (#[trigger] p[k]).0 == x.0;
                assert(text::text_before(a[k].0, a[a.len() - 1].0));
                text::lemma_text_order(x.0, x.0, x.0);
            }
        }
        assert(!listing_map(q).contains_key(y.0)) by {
            if listing_map(q).contains_key(y.0) {
                let k = choose|k: int| 0 <= k < q.len() && (#[trigger] q[k]).0 == y.0;
                assert(text::text_before(b[k].0, b[b.len() - 1].0));
                text::lemma_text_order(y.0, y.0, y.0);
            }
        }
        assert(listing_map(p) =~= listing_map(a).remove(x.0));
        assert(listing_map(q) =~= listing_map(b).remove(y.0));
        lemma_listing_unique(p, q);
        assert(a =~= p.push(x));
        assert(b =~= q.push(y));
    }
}

/// The entries of a map in the order of their keys.
pub open spec fn sorted_listing(m: Map<Seq<char>, UiInputValue>) -> Seq<(Seq<char>, UiInputValue)> {
    choose|listing: Seq<(Seq<char>, UiInputValue)>|
        keys_increase(listing) && #[trigger] listing_map(listing) == m
}

/// An ordered listing is the ordered listing of its map.
pub proof fn lemma_sorted_listing(listing: Seq<(Seq<char>, UiInputValue)>)
    requires
        keys_increase(listing),
    ensures
        sorted_listing(listing_map(listing)) == listing,
{
    let m = listing_map(listing);
    let other = sorted_listing(m);
    assert(keys_increase(listing) && listing_map(listing) == m);
    lemma_listing_unique(other, listing);
}

proof fn lemma_prefix_increases(a: Seq<(Seq<char>, UiInputValue)>)
    requires
        keys_increase(a),
        a.len() > 0,
    ensures
        keys_increase(a.drop_last()),
{
    let shorter = a.drop_last();
    assert forall|i: int, j: int| 0 <= i < j < shorter.len() implies text::text_before(
        (#[trigger] shorter[i]).0,
        (#[trigger] shorter[j]).0,
    ) by {
        assert(shorter[i] == a[i] && shorter[j] == a[j]);
    }
}

/// A map is spelled out by any ordered listing of its entries.
proof fn lemma_listing_spells(
    listing: Seq<(Seq<char>, UiInputValue)>,
    m: Map<Seq<char>, UiInputValue>,
)
    requires
        keys_increase(listing),
        forall|i: int|
            0 <= i < listing.len() ==> m.contains_key((#[trigger] listing[i]).0)
                && m[listing[i].0] == listing[i].1,
        forall|k: Seq<char>| #[trigger]
            m.contains_key(k) ==> exists|i: int|
                0 <= i < listing.len() && (#[trigger] listing[i]).0 == k,
    ensures
        listing_map(listing) == m,
{
    lemma_listing_map(listing);
    assert forall|k: Seq<char>| m.contains_key(k) implies listing_map(listing).contains_key(k)
        && listing_map(listing)[k] == m[k] by {
        let i = choose|i: int| 0 <= i < listing.len() && (#[trigger] listing[i]).0 == k;
        assert(listing[i].0 == k);
    }
    assert forall|k: Seq<char>| listing_map(listing).contains_key(k) implies m.contains_key(k) by {
        let i = choose|i: int| 0 <= i < listing.len() && (#[trigger] listing[i]).0 == k;
        assert(listing[i].0 == k);
    }
    assert(listing_map(listing) =~= m);
}

impl View for InputMap {
    type V = Map<Seq<char>, UiInputValue>;

    open spec fn view(&self) -> Map<Seq<char>, UiInputValue> {
        listing_map(self.listing())
    }
}

impl InputMap {
    #[verifier::type_invariant]
    spec fn ordered(self) -> bool {
        keys_increase(self.listing())
    }

    /// The entries in the order of their keys.
    pub closed spec fn listing(self) -> Seq<(Seq<char>, UiInputValue)> {
        flow::changes_view(self.entries@)
    }

    /// The map without entries.
    pub fn new() -> (r: Self)
        ensures
            r@ == Map::<Seq<char>, UiInputValue>::empty(),
            r.listing() == Seq::<(Seq<char>, UiInputValue)>::empty(),
    {
        let entries: Vec<UiInputChange> = Vec::new();
        assert(flow::changes_view(entries@) =~= Seq::<(Seq<char>, UiInputValue)>::empty());
        InputMap { entries }
    }

    /// Sets the value of a key.
    pub fn insert(&mut self, key: String, value: UiInputValue)
        ensures
            final(self)@ == old(self)@.insert(key@, value),
    {
        proof {
            use_type_invariant(&*self);
        }
        let mut entries: Vec<UiInputChange> = Vec::new();
        assert(flow::changes_view(entries@) =~= Seq::<(Seq<char>, UiInputValue)>::empty());
        std::mem::swap(&mut entries, &mut self.entries);
        let ghost before = flow::changes_view(entries@);
        let ghost whole = entries@;
        assert(before == old(self).listing());
        let ghost new_key = key@;
        let mut at: usize = 0;
        while at < entries.len()
            invariant_except_break
                at <= entries.len(),
                entries@ == whole,
                before == flow::changes_view(whole),
                keys_increase(before),
                forall|i: int| 0 <= i < at ==> text::text_before((#[trigger] before[i]).0, key@),
            ensures
                at <= entries.len(),
                entries@ == whole,
                forall|i: int| 0 <= i < at ==> text::text_before((#[trigger] before[i]).0, key@),
                at < entries.len() ==> !text::text_before(before[at as int].0, key@),
            decreases entries.len() - at,
        {
            match text::text_order(entries[at].key.as_str(), key.as_str()) {
                TextOrder::Before => {
                    at += 1;
                },
                _ => {
                    break;
                },
            }
        }
        let replaces = at < entries.len() && text::same_text(
            entries[at].key.as_str(),
            key.as_str(),
        );
        if replaces {
            entries.remove(at);
        }
        entries.insert(at, UiInputChange { key, value });
        proof {
            let after = flow::changes_view(entries@);
            let shift: int = if replaces {
                0
            } else {
                1
            };
            assert(after.len() == before.len() + shift);
            assert(after[at as int] == (new_key, value));
            assert forall|i: int| 0 <= i < at implies after[i] == before[i] by {}
            assert forall|i: int| at < i < after.len() implies after[i] == before[i - shift] by {}
            assert forall|i: int, j: int| 0 <= i < j < after.len() implies text::text_before(
                (#[trigger] after[i]).0,
                (#[trigger] after[j]).0,
            ) by {
                if i == at {
                    let k = j - shift;
                    assert(after[j] == before[k]);
                    text::lemma_text_order(new_key, before[at as int].0, before[k].0);
                    text::lemma_text_order(before[at as int].0, new_key, before[k].0);
                    if k > at {
                        assert(text::text_before(before[at as int].0, before[k].0));
                    }
                } else if j == at {
                    assert(after[i] == before[i]);
                } else {
                    let p = if i < at {
                        i
                    } else {
                        i - shift
                    };
                    let q = if j < at {
                        j
                    } else {
                        j - shift
                    };
                    assert(after[i] == before[p] && after[j] == before[q]);
                }
            }
            let m = listing_map(before).insert(new_key, value);
            lemma_listing_map(before);
            assert forall|i: int| 0 <= i < after.len() implies m.contains_key(
                (#[trigger] after[i]).0,
            ) && m[after[i].0] == after[i].1 by {
                if i != at {
                    let p = if i < at {
                        i
                    } else {
                        i - shift
                    };
                    assert(after[i] == before[p]);
                    if i < at {
                        assert(text::text_before(after[i].0, after[at as int].0));
                    } else {
                        assert(text::text_before(after[at as int].0, after[i].0));
                    }
                    text::lemma_text_order(new_key, new_key, new_key);
                }
            }
            assert forall|k: Seq<char>| #[trigger] m.contains_key(k) implies exists|i: int|
                0 <= i < after.len() && (#[trigger] after[i]).0 == k by {
                if k == new_key {
                    assert(after[at as int].0 == k);
                } else {
                    let p = choose|p: int| 0 <= p < before.len() && (#[trigger] before[p]).0 == k;
                    let i = if p < at {
                        p
                    } else {
                        p + shift
                    };
                    if p == at {
                        assert(shift == 1);
                    }
                    assert(after[i] == before[p]);
                }
            }
            lemma_listing_spells(after, m);
        }
        self.entries = entries;
    }

    /// Whether there is no entry.
    pub fn is_empty(&self) -> (r: bool)
        ensures
            r == (self@ == Map::<Seq<char>, UiInputValue>::empty()),
    {
        proof {
            if self.listing().len() > 0 {
                assert(self@.contains_key(self.listing().last().0));
            }
        }
        self.entries.is_empty()
    }

    /// The number of entries.
    pub fn len(&self) -> (r: usize)
        ensures
            r == self@.len(),
    {
        proof {
            use_type_invariant(self);
            lemma_listing_len(self.listing());
        }
        self.entries.len()
    }

    /// The value of a key.
    pub fn get(&self, key: &str) -> (r: Option<&UiInputValue>)
        ensures
            r is Some <==> self@.contains_key(key@),
            r matches Some(value) ==> *value == self@[key@],
    {
        proof {
            use_type_invariant(self);
            lemma_listing_map(self.listing());
        }
        let mut i: usize = 0;
        while i < self.entries.len()
            invariant
                i <= self.entries.len(),
                forall|k: int| 0 <= k < i ==> (#[trigger] self.listing()[k]).0 != key@,
                forall|k: int|
                    0 <= k < self.listing().len() ==> self@.contains_key(
                        (#[trigger] self.listing()[k]).0,
                    ) && self@[self.listing()[k].0] == self.listing()[k].1,
                forall|k: Seq<char>| #[trigger]
                    self@.contains_key(k) ==> exists|i: int|
                        0 <= i < self.listing().len() && (#[trigger] self.listing()[i]).0 == k,
            decreases self.entries.len() - i,
        {
            assert(self.listing()[i as int] == self.entries[i as int]@);
            if text::same_text(self.entries[i].key.as_str(), key) {
                return Some(&self.entries[i].value);
            }
            i += 1;
        }
        None
    }

    /// The entries as changes, in the order of their keys.
    pub fn changes(&self) -> (r: Vec<UiInputChange>)
        ensures
            flow::changes_view(r@) == self.listing(),
            flow::changes_view(r@) == sorted_listing(self@),
            keys_increase(self.listing()),
    {
        proof {
            use_type_invariant(self);
            lemma_sorted_listing(self.listing());
        }
        let r = self.entries.clone();
        assert(r@ =~= self.entries@);
        r
    }

    /// Hands the entries over and leaves an empty map.
    pub fn take(&mut self) -> (r: Self)
        ensures
            r == *old(self),
            final(self).listing() == Seq::<(Seq<char>, UiInputValue)>::empty(),
            final(self)@ == Map::<Seq<char>, UiInputValue>::empty(),
    {
        let mut taken = InputMap::new();
        std::mem::swap(&mut taken, self);
        taken
    }

    /// Whether both maps list the same keys with equal values.
    pub fn equals(&self, other: &InputMap) -> (r: bool)
        ensures
            r == same_listing(self.listing(), other.listing()),
            r == same_listing(sorted_listing(self@), sorted_listing(other@)),
    {
        proof {
            use_type_invariant(self);
            use_type_invariant(other);
            lemma_sorted_listing(self.listing());
            lemma_sorted_listing(other.listing());
        }
        if self.entries.len() != other.entries.len() {
            return false;
        }
        let mut i: usize = 0;
        while i < self.entries.len()
            invariant
                i <= self.entries.len(),
                self.entries.len() == other.entries.len(),
                sorted_listing(self@) == self.listing(),
                sorted_listing(other@) == other.listing(),
                forall|k: int|
                    0 <= k < i ==> same_entry(#[trigger] self.listing()[k], other.listing()[k]),
            decreases self.entries.len() - i,
        {
            assert(self.listing()[i as int] == self.entries[i as int]@);
            assert(other.listing()[i as int] == other.entries[i as int]@);
            if !text::same_text(self.entries[i].key.as_str(), other.entries[i].key.as_str())
                || !self.entries[i].value.equals(&other.entries[i].value) {
                assert(!same_entry(self.listing()[i as int], other.listing()[i as int]));
                return false;
            }
            i += 1;
        }
        true
    }
}

/// Whether two entries have the same key and equal values.
pub open spec fn same_entry(a: (Seq<char>, UiInputValue), b: (Seq<char>, UiInputValue)) -> bool {
    a.0 == b.0 && a.1.same_value(b.1)
}

/// Whether two listings agree entry by entry.
pub open spec fn same_listing(
    a: Seq<(Seq<char>, UiInputValue)>,
    b: Seq<(Seq<char>, UiInputValue)>,
) -> bool {
    &&& a.len() == b.len()
    &&& forall|i: int| 0 <= i < a.len() ==> same_entry(#[trigger] a[i], b[i])
}

impl Clone for InputMap {
    fn clone(&self) -> (r: Self)
        ensures
            r.listing() == self.listing(),
    {
        proof {
            use_type_invariant(self);
        }
        let entries = self.entries.clone();
        assert(entries@ =~= self.entries@);
        InputMap { entries }
    }
}

proof fn lemma_place(listing: Seq<(Seq<char>, UiInputValue)>, key: Seq<char>) -> (at: int)
    ensures
        0 <= at <= listing.len(),
        forall|i: int| 0 <= i < at ==> text::text_before((#[trigger] listing[i]).0, key),
        at < listing.len() ==> !text::text_before(listing[at].0, key),
    decreases listing.len(),
{
    if listing.len() == 0 {
        0
    } else {
        let shorter = listing.drop_last();
        let at = lemma_place(shorter, key);
        assert forall|i: int| 0 <= i < at implies text::text_before(
            (#[trigger] listing[i]).0,
            key,
        ) by {
            assert(listing[i] == shorter[i]);
        }
        if at < shorter.len() {
            assert(listing[at] == shorter[at]);
            at
        } else {
            if text::text_before(listing.last().0, key) {
                at + 1
            } else {
                at
            }
        }
    }
}

/// Every finite map has an ordered listing.
proof fn lemma_listing_exists(m: Map<Seq<char>, UiInputValue>)
    requires
        m.dom().finite(),
    ensures
        keys_increase(sorted_listing(m)),
        listing_map(sorted_listing(m)) == m,
    decreases m.dom().len(),
{
    let none = Seq::<(Seq<char>, UiInputValue)>::empty();
    if m.dom().len() == 0 {
        assert(m =~= Map::empty());
        assert(keys_increase(none) && listing_map(none) == m);
    } else {
        let key = m.dom().choose();
        let rest = m.remove(key);
        lemma_listing_exists(rest);
        let before = sorted_listing(rest);
        lemma_listing_map(before);
        let at = lemma_place(before, key);
        let after = before.insert(at, (key, m[key]));
        assert forall|i: int| 0 <= i < before.len() implies (#[trigger] before[i]).0 != key by {
            assert(rest.contains_key(before[i].0));
        }
        assert forall|i: int, j: int| 0 <= i < j < after.len() implies text::text_before(
            (#[trigger] after[i]).0,
            (#[trigger] after[j]).0,
        ) by {
            if i == at {
                assert(after[j] == before[j - 1]);
                text::lemma_text_order(key, before[at].0, before[j - 1].0);
                if j - 1 > at {
                    assert(text::text_before(before[at].0, before[j - 1].0));
                }
            } else if j == at {
                assert(after[i] == before[i]);
            } else {
                let p = if i < at {
                    i
                } else {
                    i - 1
                };
                let q = if j < at {
                    j
                } else {
                    j - 1
                };
                assert(after[i] == before[p] && after[j] == before[q]);
            }
        }
        assert forall|i: int| 0 <= i < after.len() implies m.contains_key((#[trigger] after[i]).0)
            && m[after[i].0] == after[i].1 by {
            if i != at {
                let p = if i < at {
                    i
                } else {
                    i - 1
                };
                assert(after[i] == before[p]);
                assert(rest.contains_key(before[p].0));
            }
        }
        assert forall|k: Seq<char>| #[trigger] m.contains_key(k) implies exists|i: int|
            0 <= i < after.len() && (#[trigger] after[i]).0 == k by {
            if k == key {
                assert(after[at].0 == k);
            } else {
                assert(rest.contains_key(k));
                let p = choose|p: int| 0 <= p < before.len() && (#[trigger] before[p]).0 == k;
                let i = if p < at {
                    p
                } else {
                    p + 1
                };
                assert(after[i] == before[p]);
            }
        }
        lemma_listing_spells(after, m);
        assert(keys_increase(after) && listing_map(after) == m);
    }
}

/// The ordered listing of a map holds its entries and no others, each key once,
/// and earlier keys first.
pub proof fn law_listing_spells_the_map(
    m: Map<Seq<char>, UiInputValue>,
    key: Seq<char>,
    value: UiInputValue,
)
    requires
        m.dom().finite(),
    ensures
        sorted_listing(m).contains((key, value)) <==> m.contains_key(key) && m[key] == value,
        sorted_listing(m).len() == m.len(),
        forall|i: int, j: int|
            0 <= i < j < sorted_listing(m).len() ==> text::text_before(
                (#[trigger] sorted_listing(m)[i]).0,
                (#[trigger] sorted_listing(m)[j]).0,
            ),
{
    lemma_listing_exists(m);
    let listing = sorted_listing(m);
    lemma_listing_map(listing);
    lemma_listing_len(listing);
    if m.contains_key(key) && m[key] == value {
        let i = choose|i: int| 0 <= i < listing.len() && (#[trigger] listing[i]).0 == key;
        assert(listing[i] == (key, value));
    }
    if listing.contains((key, value)) {
        let i = choose|i: int| 0 <= i < listing.len() && listing[i] == (key, value);
        assert(m.contains_key(listing[i].0));
    }
}

/// Two maps count as the same exactly where they have the same keys and hold equal
/// values under each.
pub proof fn law_same_listing_is_same_values(
    a: Map<Seq<char>, UiInputValue>,
    b: Map<Seq<char>, UiInputValue>,
)
    requires
        a.dom().finite(),
        b.dom().finite(),
    ensures
        same_listing(sorted_listing(a), sorted_listing(b)) <==> {
            &&& forall|k: Seq<char>| #[trigger] a.contains_key(k) <==> b.contains_key(k)
            &&& forall|k: Seq<char>| #[trigger] a.contains_key(k) ==> a[k].same_value(b[k])
        },
{
    lemma_listing_exists(a);
    lemma_listing_exists(b);
    let (x, y) = (sorted_listing(a), sorted_listing(b));
    lemma_listing_map(x);
    lemma_listing_map(y);
    if same_listing(x, y) {
        assert forall|k: Seq<char>| #[trigger] a.contains_key(k) implies b.contains_key(k)
            && a[k].same_value(b[k]) by {
            let i = choose|i: int| 0 <= i < x.len() && (#[trigger] x[i]).0 == k;
            assert(same_entry(x[i], y[i]));
            assert(b.contains_key(y[i].0));
        }
        assert forall|k: Seq<char>| b.contains_key(k) implies #[trigger] a.contains_key(k) by {
            let i = choose|i: int| 0 <= i < y.len() && (#[trigger] y[i]).0 == k;
            assert(same_entry(x[i], y[i]));
            assert(a.contains_key(x[i].0));
        }
    }
    if {
        &&& forall|k: Seq<char>| #[trigger] a.contains_key(k) <==> b.contains_key(k)
        &&& forall|k: Seq<char>| #[trigger] a.contains_key(k) ==> a[k].same_value(b[k])
    } {
        let z = Seq::new(x.len(), |i: int| (x[i].0, b[x[i].0]));
        assert forall|i: int, j: int| 0 <= i < j < z.len() implies text::text_before(
            (#[trigger] z[i]).0,
            (#[trigger] z[j]).0,
        ) by {
            assert(text::text_before(x[i].0, x[j].0));
        }
        assert forall|i: int| 0 <= i < z.len() implies b.contains_key((#[trigger] z[i]).0)
            && b[z[i].0] == z[i].1 by {
            assert(a.contains_key(x[i].0));
        }
        assert forall|k: Seq<char>| #[trigger] b.contains_key(k) implies exists|i: int|
            0 <= i < z.len() && (#[trigger] z[i]).0 == k by {
            assert(a.contains_key(k));
            let i = choose|i: int| 0 <= i < x.len() && (#[trigger] x[i]).0 == k;
            assert(z[i].0 == k);
        }
        lemma_listing_spells(z, b);
        lemma_listing_unique(z, y);
        assert forall|i: int| 0 <= i < x.len() implies same_entry(#[trigger] x[i], y[i]) by {
            assert(y[i] == z[i]);
            assert(a.contains_key(x[i].0) && a[x[i].0] == x[i].1);
        }
    }
}

/// The map of a listing holds under each key the last value listed for it.
pub proof fn law_last_value_of_a_key_counts(
    listing: Seq<(Seq<char>, UiInputValue)>,
    key: Seq<char>,
    i: int,
)
    ensures
        listing_map(listing).contains_key(key) <==> exists|j: int|
            0 <= j < listing.len() && (#[trigger] listing[j]).0 == key,
        0 <= i < listing.len() && listing[i].0 == key && (forall|j: int|
            i < j < listing.len() ==> (#[trigger] listing[j]).0 != key) ==> listing_map(
            listing,
        )[key] == listing[i].1,
        listing_map(listing).dom().finite(),
    decreases listing.len(),
{
    if listing.len() > 0 {
        let shorter = listing.drop_last();
        law_last_value_of_a_key_counts(shorter, key, i);
        let last = listing.len() - 1;
        assert(listing[last] == listing.last());
        assert forall|j: int| 0 <= j < shorter.len() implies shorter[j] == listing[j] by {}
        if exists|j: int| 0 <= j < listing.len() && (#[trigger] listing[j]).0 == key {
            let j = choose|j: int| 0 <= j < listing.len() && (#[trigger] listing[j]).0 == key;
            if j < last {
                assert(shorter[j].0 == key);
            }
        }
        if exists|j: int| 0 <= j < shorter.len() && (#[trigger] shorter[j]).0 == key {
            let j = choose|j: int| 0 <= j < shorter.len() && (#[trigger] shorter[j]).0 == key;
            assert(listing[j].0 == key);
        }
        if 0 <= i < last && (forall|j: int|
            i < j < listing.len() ==> (#[trigger] listing[j]).0 != key) {
            assert(listing[last].0 != key);
            assert forall|j: int| i < j < shorter.len() implies (#[trigger] shorter[j]).0
                != key by {
                assert(listing[j].0 != key);
            }
        }
    }
}

} // verus!
