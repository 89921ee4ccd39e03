//! Queues that keep only their newest entries.

use vstd::prelude::*;

verus! {

/// The last `max` entries of a sequence, or all of them where it is shorter.
pub open spec fn newest<T>(s: Seq<T>, max: nat) -> Seq<T> {
    if s.len() > max {
        s.skip(s.len() - max)
    } else {
        s
    }
}

/// A full queue gives up its oldest entry.
pub open spec fn with_room<T>(s: Seq<T>, max: nat) -> Seq<T> {
    if s.len() >= max && s.len() > 0 {
        s.drop_first()
    } else {
        s
    }
}

/// Removes the first `count` entries.
fn drop_oldest<T>(queue: &mut Vec<T>, count: usize)
    requires
        count <= old(queue)@.len(),
    ensures
        final(queue)@ == old(queue)@.skip(count as int),
{
    let kept = queue.split_off(count);
    *queue = kept;
}

/// Appends an entry after a full queue gave up its oldest one.
pub fn push_with_room<T>(queue: &mut Vec<T>, max: usize, item: T)
    ensures
        final(queue)@ == with_room(old(queue)@, max as nat).push(item),
{
    if queue.len() >= max && queue.len() > 0 {
        queue.remove(0);
        assert(queue@ =~= old(queue)@.drop_first());
    }
    queue.push(item);
}

/// Appends an entry and keeps the newest `max` of all.
pub fn push_newest<T>(queue: &mut Vec<T>, max: usize, item: T)
    requires
        max > 0,
    ensures
        final(queue)@ == newest(old(queue)@.push(item), max as nat),
{
    if queue.len() >= max {
        let count: usize = queue.len() - max + 1;
        drop_oldest(queue, count);
    }
    queue.push(item);
    assert(queue@ =~= newest(old(queue)@.push(item), max as nat));
}

/// Appends all pending entries, keeps the newest `max` of all and leaves
/// nothing pending.
pub fn append_newest<T>(queue: &mut Vec<T>, pending: &mut Vec<T>, max: usize)
    ensures
        final(queue)@ == newest(old(queue)@ + old(pending)@, max as nat),
        final(pending)@ == Seq::<T>::empty(),
{
    queue.append(pending);
    if queue.len() > max {
        let count: usize = queue.len() - max;
        drop_oldest(queue, count);
    }
}

/// The queue after entries were appended one by one, each after a full queue
/// gave up its oldest one.
pub open spec fn pushed_with_room<T>(s: Seq<T>, max: nat, items: Seq<T>) -> Seq<T>
    decreases items.len(),
{
    if items.len() == 0 {
        s
    } else {
        with_room(pushed_with_room(s, max, items.drop_last()), max).push(items.last())
    }
}

/// The queue after entries were appended one by one, with the newest `max` kept
/// each time.
pub open spec fn pushed_newest<T>(s: Seq<T>, max: nat, items: Seq<T>) -> Seq<T>
    decreases items.len(),
{
    if items.len() == 0 {
        s
    } else {
        newest(pushed_newest(s, max, items.drop_last()).push(items.last()), max)
    }
}

/// What was given up once would be given up anyway.
pub proof fn law_newest_of_newest<T>(a: Seq<T>, b: Seq<T>, max: nat)
    ensures
        newest(newest(a, max) + b, max) == newest(a + b, max),
        newest(b + newest(a, max), max) == newest(b + a, max),
{
    assert(newest(newest(a, max) + b, max) =~= newest(a + b, max));
    assert(newest(b + newest(a, max), max) =~= newest(b + a, max));
}

/// However many entries are appended to a queue within its limit, it holds the
/// newest of all and stays within its limit.
pub proof fn law_appended_entries_keep_newest<T>(s: Seq<T>, max: nat, items: Seq<T>)
    requires
        s.len() <= max,
        max > 0,
    ensures
        pushed_with_room(s, max, items) == newest(s + items, max),
        pushed_newest(s, max, items) == newest(s + items, max),
        newest(s + items, max).len() <= max,
    decreases items.len(),
{
    if items.len() == 0 {
        assert(s + items =~= s);
    } else {
        let (earlier, item) = (items.drop_last(), items.last());
        law_appended_entries_keep_newest(s, max, earlier);
        let held = newest(s + earlier, max);
        law_room_keeps_newest(held, max, item);
        law_newest_of_newest(s + earlier, seq![item], max);
        assert(held.push(item) =~= held + seq![item]);
        assert((s + earlier) + seq![item] =~= s + items);
    }
}

/// A queue that was never longer than its limit keeps the newest entries when
/// it makes room for one more.
pub proof fn law_room_keeps_newest<T>(s: Seq<T>, max: nat, item: T)
    requires
        s.len() <= max,
        max > 0,
    ensures
        with_room(s, max).push(item) == newest(s.push(item), max),
        with_room(s, max).push(item).len() <= max,
{
    assert(with_room(s, max).push(item) =~= newest(s.push(item), max));
}

/// The newest entries are the end of the sequence: as many as fit, in their
/// order.
pub proof fn law_newest_is_the_end<T>(s: Seq<T>, max: nat)
    ensures
        newest(s, max).len() == if s.len() <= max {
            s.len()
        } else {
            max
        },
        forall|i: int|
            0 <= i < newest(s, max).len() ==> #[trigger] newest(s, max)[i] == s[s.len() - newest(
                s,
                max,
            ).len() + i],
{
}

} // verus!
