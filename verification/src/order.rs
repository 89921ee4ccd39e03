//! Stable ordering of items by a text key.

use vstd::prelude::*;

use crate::text;
use crate::text::TextOrder;

verus! {

/// Anything that has a text key.
pub trait KeyText {
    spec fn key_text(&self) -> Seq<char>;
}

/// An item that hands out its text key.
pub trait TextKeyed: KeyText {
    fn sort_key(&self) -> (r: &str)
        ensures
            r@ == self.key_text(),
    ;
}

/// Whether no item stands behind one of a greater key.
pub open spec fn in_key_order<T: KeyText>(s: Seq<T>) -> bool {
    forall|i: int, j: int|
        0 <= i < j < s.len() ==> !text::text_before(
            (#[trigger] s[j]).key_text(),
            (#[trigger] s[i]).key_text(),
        )
}

/// The items of one key, in their order.
pub open spec fn of_key<T: KeyText>(s: Seq<T>, key: Seq<char>) -> Seq<T> {
    s.filter(|x: T| x.key_text() == key)
}

/// Whether `s` lists the items of `items` by key, and those of one key as
/// `items` does. Every item has a key, so none is lost and none is added.
pub open spec fn is_stable_order<T: KeyText>(s: Seq<T>, items: Seq<T>) -> bool {
    &&& in_key_order(s)
    &&& forall|key: Seq<char>| #[trigger] of_key(s, key) == of_key(items, key)
}

/// The items in the order of their keys; those of one key stay in their order.
pub open spec fn stable_order<T: KeyText>(items: Seq<T>) -> Seq<T> {
    choose|s: Seq<T>| #[trigger] is_stable_order(s, items)
}

/// Whether no two items have the same key.
pub open spec fn keys_differ<T: KeyText>(s: Seq<T>) -> bool {
    forall|i: int, j: int|
        0 <= i < j < s.len() ==> (#[trigger] s[i]).key_text() != (#[trigger] s[j]).key_text()
}

proof fn lemma_insert_filter<T>(s: Seq<T>, at: int, x: T, keep: spec_fn(T) -> bool)
    requires
        0 <= at <= s.len(),
        keep(x) ==> forall|i: int| at <= i < s.len() ==> !keep(#[trigger] s[i]),
    ensures
        s.insert(at, x).filter(keep) == s.push(x).filter(keep),
{
    let (front, back) = (s.take(at), s.skip(at));
    assert(s.insert(at, x) =~= (front + seq![x]) + back);
    assert(s.push(x) =~= (front + back) + seq![x]);
    Seq::filter_distributes_over_add(front + seq![x], back, keep);
    Seq::filter_distributes_over_add(front, seq![x], keep);
    Seq::filter_distributes_over_add(front + back, seq![x], keep);
    Seq::filter_distributes_over_add(front, back, keep);
    let one = seq![x].filter(keep);
    assert(keep(x) ==> back.filter(keep).len() == 0) by {
        if keep(x) && back.filter(keep).len() > 0 {
            back.lemma_filter_pred(keep, 0);
            lemma_filter_member(back, keep, 0);
            let k = choose|k: int| 0 <= k < back.len() && back[k] == back.filter(keep)[0];
            assert(back[k] == s[at + k]);
        }
    }
    assert(!keep(x) ==> one.len() == 0) by {
        if !keep(x) && one.len() > 0 {
            seq![x].lemma_filter_pred(keep, 0);
            lemma_filter_member(seq![x], keep, 0);
        }
    }
    assert((front.filter(keep) + one) + back.filter(keep) =~= (front.filter(keep) + back.filter(
        keep,
    )) + one);
}

proof fn lemma_filter_member<T>(s: Seq<T>, keep: spec_fn(T) -> bool, i: int)
    requires
        0 <= i < s.filter(keep).len(),
    ensures
        exists|k: int| 0 <= k < s.len() && s[k] == s.filter(keep)[i],
    decreases s.len(),
{
    reveal(Seq::filter);
    if s.len() > 0 {
        let shorter = s.drop_last();
        if i < shorter.filter(keep).len() {
            lemma_filter_member(shorter, keep, i);
            let k = choose|k: int| 0 <= k < shorter.len() && shorter[k] == shorter.filter(keep)[i];
            assert(s[k] == s.filter(keep)[i]);
        } else {
            assert(s[s.len() - 1] == s.filter(keep)[i]);
        }
    }
}

/// Where an item of that key goes into an ordered list: behind everything that
/// is not greater.
spec fn place<T: KeyText>(s: Seq<T>, key: Seq<char>) -> int
    decreases s.len(),
{
    if s.len() == 0 {
        0
    } else if text::text_before(key, s.last().key_text()) {
        place(s.drop_last(), key)
    } else {
        s.len() as int
    }
}

/// Putting the next item in its place keeps the order stable.
proof fn lemma_insertion<T: KeyText>(ordered: Seq<T>, items: Seq<T>, x: T, at: int)
    requires
        is_stable_order(ordered, items),
        0 <= at <= ordered.len(),
        forall|i: int|
            at <= i < ordered.len() ==> text::text_before(
                x.key_text(),
                (#[trigger] ordered[i]).key_text(),
            ),
        at > 0 ==> !text::text_before(x.key_text(), ordered[at - 1].key_text()),
    ensures
        is_stable_order(ordered.insert(at, x), items.push(x)),
{
    let after = ordered.insert(at, x);
    assert forall|i: int, j: int| 0 <= i < j < after.len() implies !text::text_before(
        (#[trigger] after[j]).key_text(),
        (#[trigger] after[i]).key_text(),
    ) by {
        let p = if i < at {
            i
        } else {
            i - 1
        };
        let q = if j < at {
            j
        } else {
            j - 1
        };
        if i == at {
            assert(after[j] == ordered[q]);
            text::lemma_text_order(x.key_text(), ordered[q].key_text(), x.key_text());
        } else if j == at {
            assert(after[i] == ordered[p]);
            let m = ordered[at - 1].key_text();
            if p < at - 1 {
                assert(!text::text_before(m, ordered[p].key_text()));
            }
            text::lemma_text_order(ordered[p].key_text(), m, x.key_text());
        } else {
            assert(after[i] == ordered[p]);
            assert(after[j] == ordered[q]);
        }
    }
    assert forall|key: Seq<char>| #[trigger] of_key(after, key) == of_key(
        items.push(x),
        key,
    ) by {
        let keep = |y: T| y.key_text() == key;
        assert forall|i: int| at <= i < ordered.len() && keep(x) implies !keep(
            #[trigger] ordered[i],
        ) by {
            text::lemma_text_order(x.key_text(), x.key_text(), x.key_text());
        }
        lemma_insert_filter(ordered, at, x, keep);
        assert(of_key(ordered, key) == of_key(items, key));
        assert(ordered.push(x) =~= ordered + seq![x]);
        assert(items.push(x) =~= items + seq![x]);
        Seq::filter_distributes_over_add(ordered, seq![x], keep);
        Seq::filter_distributes_over_add(items, seq![x], keep);
    }
}

proof fn lemma_place<T: KeyText>(s: Seq<T>, key: Seq<char>)
    ensures
        0 <= place(s, key) <= s.len(),
        forall|i: int|
            place(s, key) <= i < s.len() ==> text::text_before(
                key,
                (#[trigger] s[i]).key_text(),
            ),
        place(s, key) > 0 ==> !text::text_before(key, s[place(s, key) - 1].key_text()),
    decreases s.len(),
{
    if s.len() > 0 && text::text_before(key, s.last().key_text()) {
        lemma_place(s.drop_last(), key);
        assert forall|i: int| place(s, key) <= i < s.len() implies text::text_before(
            key,
            (#[trigger] s[i]).key_text(),
        ) by {
            if i < s.len() - 1 {
                assert(s.drop_last()[i] == s[i]);
            }
        }
    }
}

/// Every list has a stable order.
pub proof fn lemma_stable_order_exists<T: KeyText>(items: Seq<T>)
    ensures
        is_stable_order(stable_order(items), items),
    decreases items.len(),
{
    if items.len() == 0 {
        assert(is_stable_order(items, items));
    } else {
        let (before, x) = (items.drop_last(), items.last());
        lemma_stable_order_exists(before);
        let ordered = stable_order(before);
        lemma_place(ordered, x.key_text());
        let at = place(ordered, x.key_text());
        lemma_insertion(ordered, before, x, at);
        assert(before.push(x) =~= items);
        assert(is_stable_order(ordered.insert(at, x), items));
    }
}

/// Orders items by key; items of one key stay in their order.
pub fn sort_by_text_key<T: TextKeyed>(items: Vec<T>) -> (r: Vec<T>)
    ensures
        is_stable_order(r@, items@),
        r@ == stable_order(items@),
{
    let mut rest = items;
    let mut r: Vec<T> = Vec::new();
    let ghost all = items@;
    let ghost mut done: int = 0;
    assert(all.take(0) =~= Seq::<T>::empty());
    assert(all.skip(0) =~= all);
    while rest.len() > 0
        invariant
            0 <= done <= all.len(),
            rest@ == all.skip(done),
            is_stable_order(r@, all.take(done)),
        decreases rest.len(),
    {
        let x = rest.remove(0);
        let ghost seen = all.take(done);
        let ghost ordered = r@;
        assert(x == all[done]);
        assert(all.take(done + 1) =~= seen.push(x));
        assert(rest@ =~= all.skip(done + 1));
        let mut at: usize = r.len();
        while at > 0
            invariant_except_break
                at <= r.len(),
                r@ == ordered,
                forall|i: int|
                    at <= i < r.len() ==> text::text_before(
                        x.key_text(),
                        (#[trigger] ordered[i]).key_text(),
                    ),
            ensures
                at <= r.len(),
                r@ == ordered,
                forall|i: int|
                    at <= i < r.len() ==> text::text_before(
                        x.key_text(),
                        (#[trigger] ordered[i]).key_text(),
                    ),
                at > 0 ==> !text::text_before(x.key_text(), ordered[at - 1].key_text()),
            decreases at,
        {
            match text::text_order(x.sort_key(), r[at - 1].sort_key()) {
                TextOrder::Before => {
                    at -= 1;
                },
                _ => {
                    break;
                },
            }
        }
        r.insert(at, x);
        proof {
            lemma_insertion(ordered, seen, x, at as int);
            done = done + 1;
        }
    }
    assert(all.take(done) =~= all);
    proof {
        lemma_stable_order(r@, all);
    }
    r
}

proof fn lemma_of_key_last<T: KeyText>(s: Seq<T>, key: Seq<char>)
    requires
        s.len() > 0,
    ensures
        of_key(s, key) == if s.last().key_text() == key {
            of_key(s.drop_last(), key).push(s.last())
        } else {
            of_key(s.drop_last(), key)
        },
{
    reveal(Seq::filter);
}

proof fn lemma_of_key_empty<T: KeyText>(s: Seq<T>, key: Seq<char>)
    requires
        forall|i: int| 0 <= i < s.len() ==> (#[trigger] s[i]).key_text() != key,
    ensures
        of_key(s, key) == Seq::<T>::empty(),
    decreases s.len(),
{
    reveal(Seq::filter);
    if s.len() > 0 {
        assert forall|i: int| 0 <= i < s.drop_last().len() implies (#[trigger] s.drop_last()[i]).key_text() != key by {
            assert(s.drop_last()[i] == s[i]);
        }
        assert(s[s.len() - 1].key_text() != key);
        lemma_of_key_empty(s.drop_last(), key);
    }
}

/// The key of the last item of a non-empty ordered list is the greatest.
proof fn lemma_last_is_greatest<T: KeyText>(a: Seq<T>, b: Seq<T>)
    requires
        in_key_order(a),
        a.len() > 0,
        b.len() > 0,
        forall|key: Seq<char>| #[trigger] of_key(a, key) == of_key(b, key),
    ensures
        !text::text_before(a.last().key_text(), b.last().key_text()),
{
    let key = b.last().key_text();
    lemma_of_key_last(b, key);
    assert(of_key(a, key) == of_key(b, key));
    if forall|i: int| 0 <= i < a.len() ==> (#[trigger] a[i]).key_text() != key {
        lemma_of_key_empty(a, key);
    }
    let i = choose|i: int| 0 <= i < a.len() && (#[trigger] a[i]).key_text() == key;
    text::lemma_text_order(key, key, key);
    if i < a.len() - 1 {
        assert(!text::text_before(a[a.len() - 1].key_text(), a[i].key_text()));
    }
}

proof fn lemma_prefix_in_order<T: KeyText>(a: Seq<T>)
    requires
        in_key_order(a),
        a.len() > 0,
    ensures
        in_key_order(a.drop_last()),
{
    let p = a.drop_last();
    assert forall|k: int, l: int| 0 <= k < l < p.len() implies !text::text_before(
        (#[trigger] p[l]).key_text(),
        (#[trigger] p[k]).key_text(),
    ) by {
        assert(p[k] == a[k] && p[l] == a[l]);
    }
}

/// Two ordered lists that agree on the items of every key are the same.
proof fn lemma_ordered_unique<T: KeyText>(a: Seq<T>, b: Seq<T>)
    requires
        in_key_order(a),
        in_key_order(b),
        forall|key: Seq<char>| #[trigger] of_key(a, key) == of_key(b, key),
    ensures
        a == b,
    decreases a.len(),
{
    if a.len() == 0 || b.len() == 0 {
        if a.len() > 0 {
            lemma_of_key_last(a, a.last().key_text());
            lemma_of_key_empty(b, a.last().key_text());
            assert(of_key(a, a.last().key_text()) == of_key(b, a.last().key_text()));
        }
        if b.len() > 0 {
            lemma_of_key_last(b, b.last().key_text());
            lemma_of_key_empty(a, b.last().key_text());
            assert(of_key(a, b.last().key_text()) == of_key(b, b.last().key_text()));
        }
        assert(a =~= b);
    } else {
        lemma_last_is_greatest(a, b);
        lemma_last_is_greatest(b, a);
        let key = a.last().key_text();
        text::lemma_text_order(key, b.last().key_text(), key);
        assert(b.last().key_text() == key);
        let (p, q) = (a.drop_last(), b.drop_last());
        assert(of_key(a, key) == of_key(b, key));
        lemma_of_key_last(a, key);
        lemma_of_key_last(b, key);
        assert(of_key(a, key).last() == a.last());
        assert(of_key(b, key).last() == b.last());
        assert(of_key(a, key).drop_last() =~= of_key(p, key));
        assert(of_key(b, key).drop_last() =~= of_key(q, key));
        assert forall|k: Seq<char>| #[trigger] of_key(p, k) == of_key(q, k) by {
            assert(of_key(a, k) == of_key(b, k));
            lemma_of_key_last(a, k);
            lemma_of_key_last(b, k);
        }
        lemma_prefix_in_order(a);
        lemma_prefix_in_order(b);
        lemma_ordered_unique(p, q);
        assert(a =~= p.push(a.last()));
        assert(b =~= q.push(b.last()));
    }
}

/// A list has one stable order.
pub proof fn lemma_stable_order<T: KeyText>(s: Seq<T>, items: Seq<T>)
    requires
        is_stable_order(s, items),
    ensures
        s == stable_order(items),
{
    let t = stable_order(items);
    assert(is_stable_order(t, items));
    assert forall|key: Seq<char>| #[trigger] of_key(s, key) == of_key(t, key) by {
        assert(of_key(t, key) == of_key(items, key));
    }
    lemma_ordered_unique(s, t);
}

proof fn lemma_of_key_mapped<T: KeyText, U: KeyText>(
    s: Seq<T>,
    f: spec_fn(T) -> U,
    key: Seq<char>,
)
    requires
        forall|x: T| (#[trigger] f(x)).key_text() == x.key_text(),
    ensures
        of_key(s.map_values(f), key) == of_key(s, key).map_values(f),
    decreases s.len(),
{
    reveal(Seq::filter);
    let m = s.map_values(f);
    if s.len() > 0 {
        assert(m.drop_last() =~= s.drop_last().map_values(f));
        lemma_of_key_mapped(s.drop_last(), f, key);
        lemma_of_key_last(s, key);
        lemma_of_key_last(m, key);
        assert(m.last() == f(s.last()));
        assert(of_key(m, key) =~= of_key(s, key).map_values(f));
    } else {
        assert(of_key(m, key) =~= of_key(s, key).map_values(f));
    }
}

/// A function that keeps the keys carries the stable order over.
pub proof fn lemma_stable_order_mapped<T: KeyText, U: KeyText>(
    s: Seq<T>,
    items: Seq<T>,
    f: spec_fn(T) -> U,
)
    requires
        is_stable_order(s, items),
        forall|x: T| (#[trigger] f(x)).key_text() == x.key_text(),
    ensures
        s.map_values(f) == stable_order(items.map_values(f)),
{
    let (a, b) = (s.map_values(f), items.map_values(f));
    assert forall|i: int, j: int| 0 <= i < j < a.len() implies !text::text_before(
        (#[trigger] a[j]).key_text(),
        (#[trigger] a[i]).key_text(),
    ) by {
        assert(a[i] == f(s[i]) && a[j] == f(s[j]));
    }
    assert forall|key: Seq<char>| #[trigger] of_key(a, key) == of_key(b, key) by {
        assert(of_key(s, key) == of_key(items, key));
        lemma_of_key_mapped(s, f, key);
        lemma_of_key_mapped(items, f, key);
    }
    lemma_stable_order(a, b);
}

proof fn lemma_of_key_single<T: KeyText>(s: Seq<T>, at: int)
    requires
        keys_differ(s),
        0 <= at < s.len(),
    ensures
        of_key(s, s[at].key_text()) == seq![s[at]],
    decreases s.len(),
{
    let key = s[at].key_text();
    let p = s.drop_last();
    lemma_of_key_last(s, key);
    assert forall|k: int, l: int| 0 <= k < l < p.len() implies (#[trigger] p[k]).key_text() != (
    #[trigger] p[l]).key_text() by {
        assert(p[k] == s[k] && p[l] == s[l]);
    }
    if at == s.len() - 1 {
        assert forall|i: int| 0 <= i < p.len() implies (#[trigger] p[i]).key_text() != key by {
            assert(p[i] == s[i]);
            assert(s[i].key_text() != s[at].key_text());
        }
        lemma_of_key_empty(p, key);
        assert(of_key(s, key) =~= seq![s[at]]);
    } else {
        assert(s[at].key_text() != s[s.len() - 1].key_text());
        assert(p[at] == s[at]);
        lemma_of_key_single(p, at);
    }
}

/// Items with different keys have the same order wherever they come from: two
/// lists of the same items are ordered alike.
pub proof fn law_order_ignores_arrangement<T: KeyText>(a: Seq<T>, b: Seq<T>)
    requires
        keys_differ(a),
        keys_differ(b),
        forall|x: T| #[trigger] a.contains(x) <==> b.contains(x),
    ensures
        stable_order(a) == stable_order(b),
{
    assert forall|key: Seq<char>| #[trigger] of_key(a, key) == of_key(b, key) by {
        if exists|i: int| 0 <= i < a.len() && (#[trigger] a[i]).key_text() == key {
            let i = choose|i: int| 0 <= i < a.len() && (#[trigger] a[i]).key_text() == key;
            assert(a.contains(a[i]));
            assert(b.contains(a[i]));
            let j = choose|j: int| 0 <= j < b.len() && b[j] == a[i];
            lemma_of_key_single(a, i);
            lemma_of_key_single(b, j);
        } else {
            lemma_of_key_empty(a, key);
            assert forall|j: int| 0 <= j < b.len() implies (#[trigger] b[j]).key_text() != key by {
                assert(b.contains(b[j]));
                assert(a.contains(b[j]));
                let i = choose|i: int| 0 <= i < a.len() && a[i] == b[j];
                assert(a[i].key_text() != key);
            }
            lemma_of_key_empty(b, key);
        }
    }
    lemma_stable_order_exists(a);
    let s = stable_order(a);
    assert forall|key: Seq<char>| #[trigger] of_key(s, key) == of_key(b, key) by {
        assert(of_key(s, key) == of_key(a, key));
        assert(of_key(a, key) == of_key(b, key));
    }
    lemma_stable_order(s, b);
}

proof fn lemma_filter_holds<T>(s: Seq<T>, keep: spec_fn(T) -> bool, x: T)
    requires
        keep(x),
    ensures
        s.filter(keep).contains(x) <==> s.contains(x),
{
    broadcast use vstd::seq_lib::group_filter_ensures;

    if s.filter(keep).contains(x) {
        let i = choose|i: int| 0 <= i < s.filter(keep).len() && s.filter(keep)[i] == x;
        lemma_filter_member(s, keep, i);
    }
    if s.contains(x) {
        let i = choose|i: int| 0 <= i < s.len() && s[i] == x;
        assert(s.filter(keep).contains(s[i]));
    }
}

proof fn lemma_of_key_filter<T: KeyText>(s: Seq<T>, key: Seq<char>, keep: spec_fn(T) -> bool)
    requires
        forall|y: T| #[trigger] keep(y) <==> y.key_text() == key,
    ensures
        s.filter(keep) == of_key(s, key),
    decreases s.len(),
{
    reveal(Seq::filter);
    if s.len() > 0 {
        lemma_of_key_filter(s.drop_last(), key, keep);
        lemma_of_key_last(s, key);
        assert(keep(s.last()) <==> s.last().key_text() == key);
    }
}

/// Ordering loses nothing and adds nothing, leaves no item behind one of a
/// greater key, and keeps the items of one key, which `keep` picks, as they were.
pub proof fn law_order_rearranges<T: KeyText>(
    items: Seq<T>,
    key: Seq<char>,
    keep: spec_fn(T) -> bool,
    x: T,
)
    requires
        forall|y: T| #[trigger] keep(y) <==> y.key_text() == key,
    ensures
        forall|i: int, j: int|
            0 <= i < j < stable_order(items).len() ==> !text::text_before(
                (#[trigger] stable_order(items)[j]).key_text(),
                (#[trigger] stable_order(items)[i]).key_text(),
            ),
        stable_order(items).filter(keep) == items.filter(keep),
        stable_order(items).contains(x) <==> items.contains(x),
{
    lemma_stable_order_exists(items);
    let s = stable_order(items);
    lemma_of_key_filter(s, key, keep);
    lemma_of_key_filter(items, key, keep);
    assert(of_key(s, key) == of_key(items, key));
    assert(of_key(s, x.key_text()) == of_key(items, x.key_text()));
    let same = |y: T| y.key_text() == x.key_text();
    lemma_filter_holds(s, same, x);
    lemma_filter_holds(items, same, x);
}

} // verus!
