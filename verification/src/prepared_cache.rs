//! Bounded exact cache of complete prepared batches, local to one model.
//!
//! Entries stand in the order of their last use. What was used least recently
//! goes first where there are too many entries or they hold too much.
use crate::score::Float;
use crate::types::QuestionKind;
use std::collections::VecDeque;
use vstd::layout::size_of;
use vstd::prelude::*;

verus! {

/// How many bytes the entries may hold together.
pub const MAX_BYTES: usize = 4_194_304;

/// One question as a model is evaluated on it.
#[derive(Debug)]
pub struct EncodedItem {
    pub ids: Vec<u32>,
    pub markers: Vec<usize>,
    pub kind: QuestionKind,
}

/// What a model said of one question.
#[derive(Debug)]
pub struct ItemOutput {
    pub logits: Vec<Float>,
    pub act_probability: Float,
}

/// An item with its values as sequences.
pub struct ItemView {
    pub ids: Seq<u32>,
    pub markers: Seq<usize>,
    pub kind: QuestionKind,
}

/// An output with its values as sequences.
pub struct OutputView {
    pub logits: Seq<Float>,
    pub act_probability: Float,
}

impl View for EncodedItem {
    type V = ItemView;

    open spec fn view(&self) -> ItemView {
        ItemView { ids: self.ids@, markers: self.markers@, kind: self.kind }
    }
}

impl View for ItemOutput {
    type V = OutputView;

    open spec fn view(&self) -> OutputView {
        OutputView { logits: self.logits@, act_probability: self.act_probability }
    }
}

/// The items with their values as sequences.
pub open spec fn item_views(items: Seq<EncodedItem>) -> Seq<ItemView> {
    items.map_values(|x: EncodedItem| x@)
}

/// The items behind references with their values as sequences.
pub open spec fn ref_views(items: Seq<&EncodedItem>) -> Seq<ItemView> {
    items.map_values(|x: &EncodedItem| x@)
}

/// The outputs with their values as sequences.
pub open spec fn output_views(outputs: Seq<ItemOutput>) -> Seq<OutputView> {
    outputs.map_values(|x: ItemOutput| x@)
}

impl EncodedItem {
    /// Whether two items have the same tokens, markers and kind.
    pub fn same(&self, other: &EncodedItem) -> (yes: bool)
        ensures
            yes == (self@ == other@),
    {
        if self.kind != other.kind || !crate::tokens::same_numbers(&self.markers, &other.markers)
            || self.ids.len() != other.ids.len() {
            return false;
        }
        let mut i: usize = 0;
        while i < self.ids.len()
            invariant
                i <= self.ids.len(),
                self.ids.len() == other.ids.len(),
                forall|k: int| 0 <= k < i ==> self.ids@[k] == other.ids@[k],
            decreases self.ids.len() - i,
        {
            if self.ids[i] != other.ids[i] {
                return false;
            }
            i += 1;
        }
        assert(self.ids@ =~= other.ids@);
        true
    }

    /// The same item.
    pub fn copy(&self) -> (item: EncodedItem)
        ensures
            item@ == self@,
    {
        EncodedItem { ids: self.ids.clone(), markers: self.markers.clone(), kind: self.kind }
    }
}

impl ItemOutput {
    /// The same output.
    pub fn copy(&self) -> (output: ItemOutput)
        ensures
            output@ == self@,
    {
        let mut logits: Vec<Float> = Vec::new();
        let mut i: usize = 0;
        while i < self.logits.len()
            invariant
                i <= self.logits.len(),
                logits@ == self.logits@.take(i as int),
            decreases self.logits.len() - i,
        {
            logits.push(self.logits[i]);
            assert(logits@ =~= self.logits@.take(i + 1));
            i += 1;
        }
        assert(self.logits@.take(self.logits@.len() as int) =~= self.logits@);
        ItemOutput { logits, act_probability: self.act_probability }
    }
}

/// Copies outputs.
fn copy_outputs(outputs: &[ItemOutput]) -> (copies: Vec<ItemOutput>)
    ensures
        output_views(copies@) == output_views(outputs@),
{
    let mut copies: Vec<ItemOutput> = Vec::new();
    let mut i: usize = 0;
    while i < outputs.len()
        invariant
            i <= outputs.len(),
            copies.len() == i,
            forall|k: int| 0 <= k < i ==> (#[trigger] copies@[k])@ == outputs@[k]@,
        decreases outputs.len() - i,
    {
        copies.push(outputs[i].copy());
        i += 1;
    }
    assert(output_views(copies@) =~= output_views(outputs@));
    copies
}

/// Copies items.
fn copy_items(items: &[&EncodedItem]) -> (copies: Vec<EncodedItem>)
    ensures
        item_views(copies@) == ref_views(items@),
{
    let mut copies: Vec<EncodedItem> = Vec::new();
    let mut i: usize = 0;
    while i < items.len()
        invariant
            i <= items.len(),
            copies.len() == i,
            forall|k: int| 0 <= k < i ==> (#[trigger] copies@[k])@ == items@[k]@,
        decreases items.len() - i,
    {
        copies.push(items[i].copy());
        i += 1;
    }
    assert(item_views(copies@) =~= ref_views(items@));
    copies
}

/// A batch, what the model said of it, and in which precisions.
struct Entry {
    items: Vec<EncodedItem>,
    outputs: Vec<ItemOutput>,
    modes: [bool; 3],
    bytes: usize,
}

/// An entry with its values as sequences.
pub struct EntryView {
    pub items: Seq<ItemView>,
    pub outputs: Seq<OutputView>,
    pub modes: Seq<bool>,
    pub bytes: nat,
}

impl Entry {
    spec fn seen(&self) -> EntryView {
        EntryView {
            items: item_views(self.items@),
            outputs: output_views(self.outputs@),
            modes: self.modes@,
            bytes: self.bytes as nat,
        }
    }
}

/// The bytes of an entry besides its items and outputs.
pub closed spec fn entry_overhead() -> nat {
    size_of::<Entry>()
}

/// The bytes of the first `n` items.
pub open spec fn items_bytes(items: Seq<ItemView>, n: nat) -> nat
    decreases n,
{
    if n == 0 {
        0
    } else {
        items_bytes(items, (n - 1) as nat) + size_of::<EncodedItem>() + items[n - 1].ids.len() * 4
            + items[n - 1].markers.len() * size_of::<usize>()
    }
}

/// The bytes of the first `n` outputs.
pub open spec fn outputs_bytes(outputs: Seq<OutputView>, n: nat) -> nat
    decreases n,
{
    if n == 0 {
        0
    } else {
        outputs_bytes(outputs, (n - 1) as nat) + size_of::<ItemOutput>() + outputs[n
            - 1].logits.len() * 4
    }
}

/// The bytes that an entry holds.
pub open spec fn needed_bytes(items: Seq<ItemView>, outputs: Seq<OutputView>) -> nat {
    entry_overhead() + items_bytes(items, items.len()) + outputs_bytes(outputs, outputs.len())
}

/// The bytes that all entries hold.
pub open spec fn total_bytes(entries: Seq<EntryView>) -> nat
    decreases entries.len(),
{
    if entries.len() == 0 {
        0
    } else {
        total_bytes(entries.drop_last()) + entries.last().bytes
    }
}

/// Entry `i` is for these items in these precisions.
pub open spec fn is_for(
    entries: Seq<EntryView>,
    i: int,
    items: Seq<ItemView>,
    modes: Seq<bool>,
) -> bool {
    0 <= i < entries.len() && entries[i].items == items && entries[i].modes == modes
}

/// Some entry is for these items in these precisions.
pub open spec fn holds(entries: Seq<EntryView>, items: Seq<ItemView>, modes: Seq<bool>) -> bool {
    exists|i: int| is_for(entries, i, items, modes)
}

/// The entry for these items in these precisions.
pub open spec fn slot(entries: Seq<EntryView>, items: Seq<ItemView>, modes: Seq<bool>) -> int {
    choose|i: int| is_for(entries, i, items, modes)
}

/// The entries after entry `i` was used.
pub open spec fn touched(entries: Seq<EntryView>, i: int) -> Seq<EntryView> {
    entries.remove(i).push(entries[i])
}

/// The entries that are left once there is place for another of `bytes`: as
/// many as needed are given up from the least recently used on.
pub open spec fn trimmed(entries: Seq<EntryView>, capacity: nat, bytes: nat) -> Seq<EntryView>
    decreases entries.len(),
{
    if entries.len() > 0 && (entries.len() >= capacity || total_bytes(entries) + bytes
        > MAX_BYTES) {
        trimmed(entries.drop_first(), capacity, bytes)
    } else {
        entries
    }
}

/// The entries after outputs were put in for items.
pub open spec fn filled(
    entries: Seq<EntryView>,
    capacity: nat,
    items: Seq<ItemView>,
    outputs: Seq<OutputView>,
    modes: Seq<bool>,
) -> Seq<EntryView> {
    let bytes = needed_bytes(items, outputs);
    if capacity == 0 || bytes > MAX_BYTES {
        entries
    } else if holds(entries, items, modes) {
        touched(entries, slot(entries, items, modes))
    } else {
        trimmed(entries, capacity, bytes).push(EntryView { items, outputs, modes, bytes })
    }
}

/// No two entries are for the same items in the same precisions.
pub open spec fn distinct_entries(entries: Seq<EntryView>) -> bool {
    forall|i: int, j: int|
        0 <= i < j < entries.len() ==> (#[trigger] entries[i]).items != (#[trigger] entries[j]).items
            || entries[i].modes != entries[j].modes
}

/// What a cache of this capacity may hold.
pub open spec fn sound(entries: Seq<EntryView>, capacity: nat) -> bool {
    &&& entries.len() <= capacity
    &&& total_bytes(entries) <= MAX_BYTES
    &&& distinct_entries(entries)
}

/// Outputs of complete batches, most recently used last.
pub struct PreparedCache {
    entries: VecDeque<Entry>,
    capacity: usize,
    bytes: usize,
    hits: usize,
}

impl View for PreparedCache {
    type V = Seq<EntryView>;

    closed spec fn view(&self) -> Seq<EntryView> {
        self.entries@.map_values(|e: Entry| e.seen())
    }
}

/// Taking the first entry away takes its bytes away.
proof fn total_bytes_front(entries: Seq<EntryView>)
    requires
        entries.len() > 0,
    ensures
        total_bytes(entries) == entries[0].bytes + total_bytes(entries.drop_first()),
    decreases entries.len(),
{
    if entries.len() > 1 {
        let rest = entries.drop_last();
        total_bytes_front(rest);
        assert(rest.drop_first() =~= entries.drop_first().drop_last());
        assert(entries.drop_first().last() == entries.last());
    } else {
        assert(entries.drop_first() =~= Seq::empty());
        assert(entries.drop_last() =~= Seq::empty());
    }
}

/// Taking an entry away takes its bytes away.
proof fn total_bytes_remove(entries: Seq<EntryView>, i: int)
    requires
        0 <= i < entries.len(),
    ensures
        total_bytes(entries) == entries[i].bytes + total_bytes(entries.remove(i)),
    decreases entries.len(),
{
    if i == entries.len() - 1 {
        assert(entries.remove(i) =~= entries.drop_last());
    } else {
        let rest = entries.drop_last();
        total_bytes_remove(rest, i);
        assert(entries.remove(i).drop_last() =~= rest.remove(i));
        assert(entries.remove(i).last() == entries.last());
    }
}

/// Using an entry changes nothing but the order.
pub proof fn touching_keeps_entries(entries: Seq<EntryView>, i: int, capacity: nat)
    requires
        0 <= i < entries.len(),
        sound(entries, capacity),
    ensures
        sound(touched(entries, i), capacity),
        total_bytes(touched(entries, i)) == total_bytes(entries),
        touched(entries, i).to_multiset() == entries.to_multiset(),
        touched(entries, i).last() == entries[i],
{
    let rest = entries.remove(i);
    let all = touched(entries, i);
    total_bytes_remove(entries, i);
    assert(all.drop_last() =~= rest);
    assert forall|a: int, b: int| 0 <= a < b < all.len() implies (#[trigger] all[a]).items != (
    #[trigger] all[b]).items || all[a].modes != all[b].modes by {
        let x = if a < i {
            a
        } else {
            a + 1
        };
        let y = if b == all.len() - 1 {
            i
        } else if b < i {
            b
        } else {
            b + 1
        };
        assert(all[a] == entries[x]);
        assert(all[b] == entries[y]);
        assert(x != y);
    }
    broadcast use vstd::seq_lib::group_to_multiset_ensures;

    assert(entries =~= entries.remove(i).insert(i, entries[i]));
    assert(all.to_multiset() =~= entries.to_multiset());
}

/// Making place gives up entries from the front alone, and keeps what is left
/// within bounds.
pub proof fn trimming_drops_the_oldest(entries: Seq<EntryView>, capacity: nat, bytes: nat)
    requires
        sound(entries, capacity),
        capacity > 0,
        bytes <= MAX_BYTES,
    ensures
        ({
            let left = trimmed(entries, capacity, bytes);
            &&& left.len() <= entries.len()
            &&& left == entries.skip(entries.len() - left.len())
            &&& left.len() < capacity
            &&& total_bytes(left) + bytes <= MAX_BYTES
            &&& distinct_entries(left)
        }),
    decreases entries.len(),
{
    if entries.len() > 0 && (entries.len() >= capacity || total_bytes(entries) + bytes > MAX_BYTES) {
        let rest = entries.drop_first();
        total_bytes_front(entries);
        assert(distinct_entries(rest)) by {
            assert forall|i: int, j: int| 0 <= i < j < rest.len() implies (#[trigger] rest[i]).items
                != (#[trigger] rest[j]).items || rest[i].modes != rest[j].modes by {
                assert(rest[i] == entries[i + 1]);
                assert(rest[j] == entries[j + 1]);
            }
        }
        trimming_drops_the_oldest(rest, capacity, bytes);
        let left = trimmed(entries, capacity, bytes);
        assert(entries.skip(entries.len() - left.len()) =~= rest.skip(rest.len() - left.len()));
    } else {
        assert(entries.skip(0) =~= entries);
    }
}

/// What was put in, and fits, can be read back: it is the most recently used
/// entry, and it holds the outputs that were put in where there were none.
pub proof fn filled_entries_are_read_back(
    entries: Seq<EntryView>,
    capacity: nat,
    items: Seq<ItemView>,
    outputs: Seq<OutputView>,
    modes: Seq<bool>,
)
    requires
        sound(entries, capacity),
        capacity > 0,
        needed_bytes(items, outputs) <= MAX_BYTES,
    ensures
        ({
            let after = filled(entries, capacity, items, outputs, modes);
            &&& sound(after, capacity)
            &&& is_for(after, after.len() - 1, items, modes)
            &&& holds(after, items, modes)
            &&& slot(after, items, modes) == after.len() - 1
            &&& !holds(entries, items, modes) ==> after.last().outputs == outputs
        }),
{
    let after = filled(entries, capacity, items, outputs, modes);
    let bytes = needed_bytes(items, outputs);
    if holds(entries, items, modes) {
        let i = slot(entries, items, modes);
        touching_keeps_entries(entries, i, capacity);
    } else {
        trimming_drops_the_oldest(entries, capacity, bytes);
        let left = trimmed(entries, capacity, bytes);
        assert(after.drop_last() =~= left);
        assert forall|i: int, j: int| 0 <= i < j < after.len() implies (#[trigger] after[i]).items
            != (#[trigger] after[j]).items || after[i].modes != after[j].modes by {
            if j == after.len() - 1 {
                let k = i + (entries.len() - left.len());
                assert(after[i] == left[i]);
                assert(left[i] == entries[k]);
                assert(!is_for(entries, k, items, modes));
            } else {
                assert(after[i] == left[i]);
                assert(after[j] == left[j]);
            }
        }
    }
    assert(is_for(after, after.len() - 1, items, modes));
    let s = slot(after, items, modes);
    assert(is_for(after, s, items, modes));
    if s < after.len() - 1 {
        assert(after[s].items != after[after.len() - 1].items || after[s].modes != after[after.len()
            - 1].modes);
    }
}

/// A cache never exceeds its bounds, whatever is put in.
pub proof fn filling_keeps_bounds(
    entries: Seq<EntryView>,
    capacity: nat,
    items: Seq<ItemView>,
    outputs: Seq<OutputView>,
    modes: Seq<bool>,
)
    requires
        sound(entries, capacity),
    ensures
        sound(filled(entries, capacity, items, outputs, modes), capacity),
{
    if capacity > 0 && needed_bytes(items, outputs) <= MAX_BYTES {
        filled_entries_are_read_back(entries, capacity, items, outputs, modes);
    }
}

/// Adds `count` times `size` to a number of bytes, where the sum stays within
/// the bound.
fn add_bytes(total: usize, count: usize, size: usize) -> (sum: Option<usize>)
    requires
        total <= MAX_BYTES,
    ensures
        match sum {
            Some(s) => s == total + count * size && s <= MAX_BYTES,
            None => total + count * size > MAX_BYTES,
        },
{
    match count.checked_mul(size) {
        None => None,
        Some(more) => if more > MAX_BYTES - total {
            None
        } else {
            Some(total + more)
        },
    }
}

/// The bytes of an entry, where they stay within the bound.
fn measure(items: &[&EncodedItem], outputs: &[ItemOutput]) -> (bytes: Option<usize>)
    ensures
        match bytes {
            Some(b) => b == needed_bytes(ref_views(items@), output_views(outputs@)) && b
                <= MAX_BYTES,
            None => needed_bytes(ref_views(items@), output_views(outputs@)) > MAX_BYTES,
        },
{
    let ghost seen = ref_views(items@);
    let ghost said = output_views(outputs@);
    let item_size: usize = core::mem::size_of::<EncodedItem>();
    let marker_size: usize = core::mem::size_of::<usize>();
    let output_size: usize = core::mem::size_of::<ItemOutput>();
    let mut total: usize = core::mem::size_of::<Entry>();
    if total > MAX_BYTES {
        return None;
    }
    let mut i: usize = 0;
    while i < items.len()
        invariant
            i <= items.len(),
            seen == ref_views(items@),
            item_size == size_of::<EncodedItem>(),
            marker_size == size_of::<usize>(),
            total <= MAX_BYTES,
            total == entry_overhead() + items_bytes(seen, i as nat),
        decreases items.len() - i,
    {
        let item = items[i];
        proof {
            assert(seen[i as int] == item@);
            items_bytes_grow(seen, (i + 1) as nat, seen.len());
            assert(item.markers@.len() * size_of::<usize>() == item.markers.len() * marker_size)
                by (nonlinear_arith)
                requires
                    marker_size == size_of::<usize>(),
                    item.markers@.len() == item.markers.len(),
            ;
            assert(items_bytes(seen, (i + 1) as nat) == items_bytes(seen, i as nat) + item_size
                + item.ids.len() * 4 + item.markers.len() * marker_size);
            assert(0 <= item.markers.len() * marker_size) by (nonlinear_arith)
                requires
                    item.markers.len() >= 0,
                    marker_size >= 0,
            ;
        }
        match add_bytes(total, 1, item_size) {
            None => {
                return None;
            },
            Some(t) => {
                total = t;
            },
        }
        match add_bytes(total, item.ids.len(), 4) {
            None => {
                return None;
            },
            Some(t) => {
                total = t;
            },
        }
        match add_bytes(total, item.markers.len(), marker_size) {
            None => {
                return None;
            },
            Some(t) => {
                total = t;
            },
        }
        i += 1;
    }
    let mut o: usize = 0;
    while o < outputs.len()
        invariant
            o <= outputs.len(),
            seen == ref_views(items@),
            said == output_views(outputs@),
            output_size == size_of::<ItemOutput>(),
            total <= MAX_BYTES,
            total == entry_overhead() + items_bytes(seen, seen.len()) + outputs_bytes(
                said,
                o as nat,
            ),
        decreases outputs.len() - o,
    {
        proof {
            assert(said[o as int] == outputs@[o as int]@);
            outputs_bytes_grow(said, (o + 1) as nat, said.len());
        }
        match add_bytes(total, 1, output_size) {
            None => {
                return None;
            },
            Some(t) => {
                total = t;
            },
        }
        match add_bytes(total, outputs[o].logits.len(), 4) {
            None => {
                return None;
            },
            Some(t) => {
                total = t;
            },
        }
        o += 1;
    }
    Some(total)
}

/// More items have at least as many bytes.
proof fn items_bytes_grow(items: Seq<ItemView>, m: nat, n: nat)
    requires
        m <= n,
    ensures
        items_bytes(items, m) <= items_bytes(items, n),
    decreases n,
{
    if m < n {
        items_bytes_grow(items, m, (n - 1) as nat);
        let k = items[n - 1].markers.len();
        let s = size_of::<usize>();
        assert(0 <= k * s) by (nonlinear_arith)
            requires
                k >= 0,
                s >= 0,
        ;
    }
}

/// More outputs have at least as many bytes.
proof fn outputs_bytes_grow(outputs: Seq<OutputView>, m: nat, n: nat)
    requires
        m <= n,
    ensures
        outputs_bytes(outputs, m) <= outputs_bytes(outputs, n),
    decreases n,
{
    if m < n {
        outputs_bytes_grow(outputs, m, (n - 1) as nat);
    }
}

impl PreparedCache {
    /// How many entries the cache may hold.
    pub closed spec fn room(&self) -> nat {
        self.capacity as nat
    }

    /// How many bytes the cache says it holds.
    pub closed spec fn held(&self) -> nat {
        self.bytes as nat
    }

    /// How often something was found.
    pub closed spec fn found(&self) -> usize {
        self.hits
    }

    /// The entries are within bounds and accounted for.
    pub open spec fn wf(&self) -> bool {
        sound(self@, self.room()) && self.held() == total_bytes(self@)
    }

    /// A cache for `capacity` entries.
    pub fn new(capacity: usize) -> (cache: Self)
        ensures
            cache.wf(),
            cache@ == Seq::<EntryView>::empty(),
            cache.room() == capacity,
            cache.found() == 0,
    {
        let cache = PreparedCache { entries: VecDeque::new(), capacity, bytes: 0, hits: 0 };
        assert(cache@ =~= Seq::<EntryView>::empty());
        cache
    }

    /// How many bytes the entries hold.
    pub fn bytes(&self) -> (bytes: usize)
        requires
            self.wf(),
        ensures
            bytes == total_bytes(self@),
            bytes <= MAX_BYTES,
    {
        self.bytes
    }

    /// How often something was found.
    pub fn hits(&self) -> (hits: usize)
        ensures
            hits == self.found(),
    {
        self.hits
    }

    /// Where the entry for these items stands.
    fn position(&self, items: &[&EncodedItem], modes: [bool; 3]) -> (at: Option<usize>)
        ensures
            match at {
                Some(i) => is_for(self@, i as int, ref_views(items@), modes@),
                None => !holds(self@, ref_views(items@), modes@),
            },
    {
        let mut i: usize = 0;
        while i < self.entries.len()
            invariant
                i <= self.entries@.len(),
                forall|k: int| 0 <= k < i ==> !is_for(self@, k, ref_views(items@), modes@),
            decreases self.entries@.len() - i,
        {
            let entry = &self.entries[i];
            assert(self@[i as int] == entry.seen());
            if same_modes(&entry.modes, &modes) && same_items(&entry.items, items) {
                return Some(i);
            }
            i += 1;
        }
        assert forall|k: int| !is_for(self@, k, ref_views(items@), modes@) by {}
        None
    }

    /// The outputs for these items in these precisions, where there are any;
    /// they become the most recently used.
    pub fn get(&mut self, items: &[&EncodedItem], modes: [bool; 3]) -> (outputs: Option<
        Vec<ItemOutput>,
    >)
        requires
            old(self).wf(),
        ensures
            final(self).wf(),
            final(self).room() == old(self).room(),
            match outputs {
                Some(o) => {
                    let i = slot(old(self)@, ref_views(items@), modes@);
                    &&& holds(old(self)@, ref_views(items@), modes@)
                    &&& output_views(o@) == old(self)@[i].outputs
                    &&& final(self)@ == touched(old(self)@, i)
                    &&& final(self).found() == old(self).found().wrapping_add(1)
                },
                None => {
                    &&& !holds(old(self)@, ref_views(items@), modes@)
                    &&& final(self)@ == old(self)@
                    &&& final(self).found() == old(self).found()
                },
            },
    {
        let ghost before = self@;
        let index = match self.position(items, modes) {
            Some(i) => i,
            None => {
                return None;
            },
        };
        proof {
            let i = slot(before, ref_views(items@), modes@);
            assert(is_for(before, index as int, ref_views(items@), modes@));
            assert(is_for(before, i, ref_views(items@), modes@));
            assert(i == index);
            touching_keeps_entries(before, index as int, self.room());
        }
        self.hits = self.hits.wrapping_add(1);
        match self.entries.remove(index) {
            None => None,
            Some(entry) => {
                let outputs = copy_outputs(entry.outputs.as_slice());
                assert(entry.seen() == before[index as int]);
                self.entries.push_back(entry);
                assert(self@ =~= touched(before, index as int));
                Some(outputs)
            },
        }
    }

    /// Puts outputs in for items in these precisions, unless there are some
    /// already or they hold too much. What was used least recently makes
    /// place.
    pub fn insert(&mut self, items: &[&EncodedItem], outputs: &[ItemOutput], modes: [bool; 3])
        requires
            old(self).wf(),
        ensures
            final(self).wf(),
            final(self).room() == old(self).room(),
            final(self)@ == filled(
                old(self)@,
                old(self).room(),
                ref_views(items@),
                output_views(outputs@),
                modes@,
            ),
            final(self).found() == if old(self).room() > 0 && needed_bytes(
                ref_views(items@),
                output_views(outputs@),
            ) <= MAX_BYTES && holds(old(self)@, ref_views(items@), modes@) {
                old(self).found().wrapping_add(1)
            } else {
                old(self).found()
            },
    {
        let ghost start = self@;
        let ghost hits = self.found();
        let ghost key = ref_views(items@);
        let ghost said = output_views(outputs@);
        let ghost room = self.room();
        let bytes = match measure(items, outputs) {
            Some(bytes) => bytes,
            None => {
                return;
            },
        };
        if self.capacity == 0 {
            return;
        }
        if self.get(items, modes).is_some() {
            return;
        }
        proof {
            filled_entries_are_read_back(start, room, key, said, modes@);
        }
        while self.entries.len() >= self.capacity || self.bytes > MAX_BYTES - bytes
            invariant
                sound(self@, room),
                self.held() == total_bytes(self@),
                self.room() == room,
                self.found() == hits,
                room > 0,
                bytes <= MAX_BYTES,
                trimmed(self@, room, bytes as nat) == trimmed(start, room, bytes as nat),
            decreases self.entries@.len(),
        {
            let ghost now = self@;
            proof {
                assert(now.len() == self.entries@.len());
                assert(now.len() > 0);
                total_bytes_front(now);
                assert(distinct_entries(now.drop_first())) by {
                    let rest = now.drop_first();
                    assert forall|i: int, j: int| 0 <= i < j < rest.len() implies (
                    #[trigger] rest[i]).items != (#[trigger] rest[j]).items || rest[i].modes
                        != rest[j].modes by {
                        assert(rest[i] == now[i + 1]);
                        assert(rest[j] == now[j + 1]);
                    }
                }
            }
            match self.entries.pop_front() {
                Some(entry) => {
                    assert(entry.seen() == now[0]);
                    assert(self@ =~= now.drop_first());
                    self.bytes = self.bytes - entry.bytes;
                },
                None => {},
            }
        }
        let ghost left = self@;
        assert(left == trimmed(start, room, bytes as nat));
        let entry = Entry {
            items: copy_items(items),
            outputs: copy_outputs(outputs),
            modes,
            bytes,
        };
        let ghost added = entry.seen();
        self.entries.push_back(entry);
        self.bytes = self.bytes + bytes;
        assert(self@ =~= left.push(added));
        assert(self@.drop_last() =~= left);
        assert(self@ == filled(start, room, key, said, modes@));
    }

    /// Gives up every entry.
    pub fn clear(&mut self)
        ensures
            final(self).wf(),
            final(self)@ == Seq::<EntryView>::empty(),
            final(self).room() == old(self).room(),
            final(self).found() == 0,
    {
        self.entries.clear();
        self.bytes = 0;
        self.hits = 0;
        assert(self@ =~= Seq::<EntryView>::empty());
    }
}

/// Whether two sets of precisions are the same.
fn same_modes(a: &[bool; 3], b: &[bool; 3]) -> (yes: bool)
    ensures
        yes == (a@ == b@),
{
    let yes = a[0] == b[0] && a[1] == b[1] && a[2] == b[2];
    proof {
        if yes {
            assert(a@ =~= b@);
        }
    }
    yes
}

/// Whether two lists of items are the same.
fn same_items(a: &Vec<EncodedItem>, b: &[&EncodedItem]) -> (yes: bool)
    ensures
        yes == (item_views(a@) == ref_views(b@)),
{
    if a.len() != b.len() {
        assert(item_views(a@).len() != ref_views(b@).len());
        return false;
    }
    let mut i: usize = 0;
    while i < a.len()
        invariant
            i <= a.len(),
            a.len() == b.len(),
            forall|k: int| 0 <= k < i ==> (#[trigger] a@[k])@ == b@[k]@,
        decreases a.len() - i,
    {
        if !a[i].same(b[i]) {
            assert(item_views(a@)[i as int] != ref_views(b@)[i as int]);
            return false;
        }
        i += 1;
    }
    assert(item_views(a@) =~= ref_views(b@));
    true
}

} // verus!
