//! What holds of a cache of prepared batches over several calls.
use crate::prepared_cache::{
    distinct_entries, entry_overhead, filled, filled_entries_are_read_back, holds, is_for,
    items_bytes, needed_bytes, outputs_bytes, slot, sound, total_bytes, touched, trimmed,
    trimming_drops_the_oldest, EncodedItem, EntryView, ItemOutput, ItemView, OutputView,
};
use vstd::layout::size_of;
use vstd::prelude::*;

verus! {

/// The bytes of all entries together.
pub open spec fn sum_of_bytes(entries: Seq<EntryView>) -> nat
    decreases entries.len(),
{
    if entries.len() == 0 {
        0
    } else {
        entries[0].bytes + sum_of_bytes(entries.subrange(1, entries.len() as int))
    }
}

proof fn sums_agree(entries: Seq<EntryView>)
    ensures
        total_bytes(entries) == sum_of_bytes(entries),
    decreases entries.len(),
{
    if entries.len() > 0 {
        sums_agree(entries.drop_last());
        sum_of_last(entries);
    }
}

proof fn sum_of_last(entries: Seq<EntryView>)
    requires
        entries.len() > 0,
    ensures
        sum_of_bytes(entries) == sum_of_bytes(entries.drop_last()) + entries.last().bytes,
    decreases entries.len(),
{
    let rest = entries.subrange(1, entries.len() as int);
    let before = entries.drop_last();
    if entries.len() > 1 {
        sum_of_last(rest);
        assert(rest.drop_last() =~= before.subrange(1, before.len() as int));
        assert(before[0] == entries[0]);
        assert(rest.last() == entries.last());
    } else {
        assert(sum_of_bytes(rest) == 0);
        assert(sum_of_bytes(before) == 0);
    }
}

/// What is put in is kept behind what was there, and nothing of that is
/// changed. As many entries as needed, and no more, are given up for it, those
/// first that were used least recently: with the last of them there would be
/// more entries than the cache has room for, or more than four mebibytes.
pub proof fn only_the_least_recently_used_make_place(
    entries: Seq<EntryView>,
    capacity: nat,
    items: Seq<ItemView>,
    outputs: Seq<OutputView>,
    modes: Seq<bool>,
) -> (dropped: int)
    requires
        sound(entries, capacity),
        capacity > 0,
        needed_bytes(items, outputs) <= 4194304,
        forall|i: int|
            0 <= i < entries.len() ==> (#[trigger] entries[i]).items != items || entries[i].modes
                != modes,
    ensures
        0 <= dropped <= entries.len(),
        ({
            let after = filled(entries, capacity, items, outputs, modes);
            let bytes = needed_bytes(items, outputs);
            &&& after.len() == entries.len() - dropped + 1
            &&& after.len() <= capacity
            &&& sum_of_bytes(after) <= 4194304
            &&& forall|i: int|
                0 <= i < entries.len() - dropped ==> #[trigger] after[i] == entries[i + dropped]
            &&& after.last().items == items
            &&& after.last().outputs == outputs
            &&& after.last().modes == modes
            &&& after.last().bytes == bytes
            &&& dropped > 0 ==> entries.len() - dropped + 2 > capacity || sum_of_bytes(
                entries.subrange(dropped - 1, entries.len() as int),
            ) + bytes > 4194304
        }),
{
    let bytes = needed_bytes(items, outputs);
    let after = filled(entries, capacity, items, outputs, modes);
    assert(!holds(entries, items, modes)) by {
        assert forall|i: int| !is_for(entries, i, items, modes) by {
            if 0 <= i < entries.len() {
                assert(entries[i].items != items || entries[i].modes != modes);
            }
        }
    }
    filled_entries_are_read_back(entries, capacity, items, outputs, modes);
    trimming_drops_the_oldest(entries, capacity, bytes);
    let left = trimmed(entries, capacity, bytes);
    let dropped = entries.len() - left.len();
    trimming_drops_no_more(entries, capacity, bytes);
    sums_agree(after);
    if dropped > 0 {
        sums_agree(entries.skip(dropped - 1));
        assert(entries.subrange(dropped - 1, entries.len() as int) =~= entries.skip(dropped - 1));
    }
    assert forall|i: int| 0 <= i < entries.len() - dropped implies #[trigger] after[i]
        == entries[i + dropped] by {
        assert(after[i] == left[i]);
    }
    dropped
}

proof fn trimming_drops_no_more(entries: Seq<EntryView>, capacity: nat, bytes: nat)
    ensures
        ({
            let left = trimmed(entries, capacity, bytes);
            let dropped = entries.len() - left.len();
            &&& 0 <= dropped
            &&& left == entries.skip(dropped)
            &&& dropped > 0 ==> left.len() + 1 >= capacity || total_bytes(
                entries.skip(dropped - 1),
            ) + bytes > 4194304
        }),
    decreases entries.len(),
{
    assert(entries.skip(0) =~= entries);
    let left = trimmed(entries, capacity, bytes);
    if entries.len() > 0 && (entries.len() >= capacity || total_bytes(entries) + bytes > 4194304) {
        let rest = entries.drop_first();
        trimming_drops_no_more(rest, capacity, bytes);
        let dropped = entries.len() - left.len();
        assert(entries.skip(dropped) =~= rest.skip(dropped - 1));
        if dropped > 1 {
            assert(entries.skip(dropped - 1) =~= rest.skip(dropped - 2));
        }
    }
}

/// What is there already is not put in again: it becomes the most recently
/// used, with the outputs it had, and the order of the others stays.
pub proof fn known_batches_are_used_again(
    entries: Seq<EntryView>,
    capacity: nat,
    items: Seq<ItemView>,
    outputs: Seq<OutputView>,
    modes: Seq<bool>,
    at: int,
)
    requires
        sound(entries, capacity),
        capacity > 0,
        needed_bytes(items, outputs) <= 4194304,
        0 <= at < entries.len(),
        entries[at].items == items,
        entries[at].modes == modes,
    ensures
        ({
            let after = filled(entries, capacity, items, outputs, modes);
            &&& after.len() == entries.len()
            &&& after.last() == entries[at]
            &&& forall|i: int| 0 <= i < at ==> #[trigger] after[i] == entries[i]
            &&& forall|i: int| at <= i < entries.len() - 1 ==> #[trigger] after[i] == entries[i + 1]
        }),
        holds(entries, items, modes),
        slot(entries, items, modes) == at,
{
    assert(is_for(entries, at, items, modes));
    let s = slot(entries, items, modes);
    assert(is_for(entries, s, items, modes));
    if s < at {
        assert(entries[s].items != entries[at].items || entries[s].modes != entries[at].modes);
    } else if at < s {
        assert(entries[at].items != entries[s].items || entries[at].modes != entries[s].modes);
    }
}

/// Nothing is kept by a cache without room, nor what holds more than four
/// mebibytes by itself.
pub proof fn what_cannot_fit_changes_nothing(
    entries: Seq<EntryView>,
    capacity: nat,
    items: Seq<ItemView>,
    outputs: Seq<OutputView>,
    modes: Seq<bool>,
)
    requires
        capacity == 0 || needed_bytes(items, outputs) > 4194304,
    ensures
        filled(entries, capacity, items, outputs, modes) == entries,
{
}

/// Using an entry moves it behind all others, whose order stays.
pub proof fn used_entries_come_last(entries: Seq<EntryView>, at: int)
    requires
        0 <= at < entries.len(),
    ensures
        touched(entries, at).len() == entries.len(),
        touched(entries, at).last() == entries[at],
        forall|i: int| 0 <= i < at ==> #[trigger] touched(entries, at)[i] == entries[i],
        forall|i: int|
            at <= i < entries.len() - 1 ==> #[trigger] touched(entries, at)[i] == entries[i + 1],
{
}

/// Items are told apart by every token, every marker and the kind of question,
/// and outputs by every logit and the probability to act.
pub proof fn views_tell_everything_apart(
    a: EncodedItem,
    b: EncodedItem,
    x: ItemOutput,
    y: ItemOutput,
)
    ensures
        a@ == b@ <==> a.ids@ == b.ids@ && a.markers@ == b.markers@ && a.kind == b.kind,
        x@ == y@ <==> x.logits@ == y.logits@ && x.act_probability == y.act_probability,
{
}

/// An entry holds its own record, a record for each item and output, four
/// bytes for each token and logit, and a word for each marker.
pub proof fn bytes_are_counted_piece_by_piece(
    items: Seq<ItemView>,
    outputs: Seq<OutputView>,
    item: ItemView,
    output: OutputView,
)
    ensures
        needed_bytes(Seq::empty(), Seq::empty()) == entry_overhead(),
        needed_bytes(items.push(item), outputs) == needed_bytes(items, outputs) + size_of::<
            EncodedItem,
        >() + 4 * item.ids.len() + size_of::<usize>() * item.markers.len(),
        needed_bytes(items, outputs.push(output)) == needed_bytes(items, outputs) + size_of::<
            ItemOutput,
        >() + 4 * output.logits.len(),
{
    let n = items.len();
    let m = outputs.len();
    items_agree(items.push(item), items, n);
    outputs_agree(outputs.push(output), outputs, m);
    assert(items_bytes(Seq::<ItemView>::empty(), 0) == 0);
    assert(outputs_bytes(Seq::<OutputView>::empty(), 0) == 0);
    assert(item.markers.len() * size_of::<usize>() == size_of::<usize>() * item.markers.len())
        by (nonlinear_arith);
}

proof fn items_agree(a: Seq<ItemView>, b: Seq<ItemView>, n: nat)
    requires
        n <= a.len(),
        n <= b.len(),
        forall|i: int| 0 <= i < n ==> #[trigger] a[i] == b[i],
    ensures
        items_bytes(a, n) == items_bytes(b, n),
    decreases n,
{
    if n > 0 {
        items_agree(a, b, (n - 1) as nat);
        assert(a[n - 1] == b[n - 1]);
    }
}

proof fn outputs_agree(a: Seq<OutputView>, b: Seq<OutputView>, n: nat)
    requires
        n <= a.len(),
        n <= b.len(),
        forall|i: int| 0 <= i < n ==> #[trigger] a[i] == b[i],
    ensures
        outputs_bytes(a, n) == outputs_bytes(b, n),
    decreases n,
{
    if n > 0 {
        outputs_agree(a, b, (n - 1) as nat);
        assert(a[n - 1] == b[n - 1]);
    }
}

} // verus!
