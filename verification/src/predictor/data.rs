use crate::text::{
    Order,
    compare,
    lemma_compare_bytes_flip,
    lemma_compare_bytes_transitive,
    lemma_compare_equal,
    spec_compare,
};
use vstd::prelude::*;
use vstd::string::StringExecFns;
use vstd::utf8::encode_utf8;

verus! {

/// One learned point: under ambient light `lux`, with a screen of lightness
/// `luma`, the user wants `brightness`.
#[derive(Debug, PartialEq, Eq, Hash)]
pub struct Entry {
    pub lux: String,
    pub luma: u8,
    pub brightness: u64,
}

/// What an entry says, as plain values.
pub struct EntryView {
    pub lux: Seq<char>,
    pub luma: u8,
    pub brightness: u64,
}

impl View for Entry {
    type V = EntryView;

    open spec fn view(&self) -> EntryView {
        EntryView { lux: self.lux@, luma: self.luma, brightness: self.brightness }
    }
}

impl Clone for Entry {
    fn clone(&self) -> (copy: Self)
        ensures
            copy@ == self@,
    {
        Entry { lux: self.lux.clone(), luma: self.luma, brightness: self.brightness }
    }
}

impl Entry {
    /// The entry that says: under `lux`, with a screen of lightness
    /// `luma`, the user wants `brightness`.
    pub fn new(lux: &str, luma: u8, brightness: u64) -> (entry: Self)
        ensures
            entry@ == (EntryView { lux: lux@, luma, brightness }),
    {
        Self { lux: String::from_str(lux), luma, brightness }
    }
}

/// What a list of entries says, as plain values.
pub open spec fn spec_views(entries: Seq<Entry>) -> Seq<EntryView> {
    Seq::new(entries.len(), |index: int| entries[index]@)
}

/// The learned points of one output.
#[derive(Debug, PartialEq, Eq)]
pub struct Data {
    pub output_name: String,
    pub entries: Vec<Entry>,
}

impl View for Data {
    type V = Seq<EntryView>;

    open spec fn view(&self) -> Seq<EntryView> {
        spec_views(self.entries@)
    }
}

impl Clone for Data {
    fn clone(&self) -> (copy: Self)
        ensures
            copy@ == self@,
            copy.output_name@ == self.output_name@,
    {
        let mut entries: Vec<Entry> = Vec::new();
        let mut index: usize = 0;
        while index < self.entries.len()
            invariant
                index <= self.entries@.len(),
                entries@.len() == index,
                forall|k: int| 0 <= k < index ==> entries@[k]@ == self.entries@[k]@,
            decreases self.entries@.len() - index,
        {
            entries.push(self.entries[index].clone());
            index += 1;
        }
        assert(spec_views(entries@) =~= spec_views(self.entries@));
        Data { output_name: self.output_name.clone(), entries }
    }
}

impl Data {
    /// The empty dataset of an output.
    pub fn new(output_name: &str) -> (data: Self)
        ensures
            data.output_name@ == output_name@,
            data@ == Seq::<EntryView>::empty(),
    {
        let data = Self { output_name: String::from_str(output_name), entries: Vec::new() };
        assert(data@ =~= Seq::<EntryView>::empty());
        data
    }
}

/// The order of two entries: by `lux`, and by `luma` where that is the same.
pub open spec fn spec_entry_order(first: EntryView, second: EntryView) -> Order {
    match spec_compare(first.lux, second.lux) {
        Order::Less => Order::Less,
        Order::Greater => Order::Greater,
        Order::Equal => if first.luma < second.luma {
            Order::Less
        } else if first.luma > second.luma {
            Order::Greater
        } else {
            Order::Equal
        },
    }
}

/// The order of two entries.
pub fn entry_order(first: &Entry, second: &Entry) -> (order: Order)
    ensures
        order == spec_entry_order(first@, second@),
{
    match compare(first.lux.as_str(), second.lux.as_str()) {
        Order::Less => Order::Less,
        Order::Greater => Order::Greater,
        Order::Equal => if first.luma < second.luma {
            Order::Less
        } else if first.luma > second.luma {
            Order::Greater
        } else {
            Order::Equal
        },
    }
}

/// Entries are equal in the order only where `lux` and `luma` are the same.
pub proof fn lemma_entry_order_equal(first: EntryView, second: EntryView)
    ensures
        spec_entry_order(first, second) == Order::Equal <==> first.lux == second.lux && first.luma
            == second.luma,
{
    lemma_compare_equal(first.lux, second.lux);
}

/// Turning two entries round turns their order round.
pub proof fn lemma_entry_order_flip(first: EntryView, second: EntryView)
    ensures
        spec_entry_order(first, second) == Order::Less <==> spec_entry_order(second, first)
            == Order::Greater,
        spec_entry_order(first, second) == Order::Equal <==> spec_entry_order(second, first)
            == Order::Equal,
{
    lemma_compare_bytes_flip(encode_utf8(first.lux), encode_utf8(second.lux));
    lemma_compare_bytes_flip(encode_utf8(second.lux), encode_utf8(first.lux));
}

/// The order of entries is transitive.
pub proof fn lemma_entry_order_transitive(first: EntryView, second: EntryView, third: EntryView)
    requires
        spec_entry_order(first, second) != Order::Greater,
        spec_entry_order(second, third) != Order::Greater,
    ensures
        spec_entry_order(first, third) != Order::Greater,
        spec_entry_order(first, second) == Order::Less || spec_entry_order(second, third)
            == Order::Less ==> spec_entry_order(first, third) == Order::Less,
{
    lemma_compare_bytes_transitive(
        encode_utf8(first.lux),
        encode_utf8(second.lux),
        encode_utf8(third.lux),
    );
    lemma_compare_equal(first.lux, second.lux);
    lemma_compare_equal(second.lux, third.lux);
    lemma_compare_equal(first.lux, third.lux);
}

/// Whether no entry stands before one that is less.
pub open spec fn spec_sorted(entries: Seq<EntryView>) -> bool {
    forall|low: int, high: int|
        0 <= low < high < entries.len() ==> spec_entry_order(entries[low], entries[high])
            != Order::Greater
}

/// Whether no two entries have `lux` and `luma` in common.
pub open spec fn spec_unique(entries: Seq<EntryView>) -> bool {
    forall|low: int, high: int|
        0 <= low < high < entries.len() ==> !(entries[low].lux == entries[high].lux
            && entries[low].luma == entries[high].luma)
}

/// Whether, under the same `lux`, a lighter screen never has the greater
/// brightness.
pub open spec fn spec_monotone(entries: Seq<EntryView>) -> bool {
    forall|first: int, second: int|
        0 <= first < entries.len() && 0 <= second < entries.len() && entries[first].lux
            == entries[second].lux && entries[first].luma < entries[second].luma
            ==> entries[first].brightness >= entries[second].brightness
}

/// What holds of a dataset that was only ever changed by learning: it is
/// sorted by `lux` and `luma`, holds one entry at most for each pair of
/// them, and is monotone under each `lux`.
pub open spec fn spec_wf(entries: Seq<EntryView>) -> bool {
    &&& spec_sorted(entries)
    &&& spec_unique(entries)
    &&& spec_monotone(entries)
}

/// Where `entry` goes into `entries`: behind the last entry that is not
/// greater.
pub open spec fn spec_position(entries: Seq<EntryView>, entry: EntryView) -> int
    decreases entries.len(),
{
    if entries.len() == 0 {
        0
    } else if spec_entry_order(entries.last(), entry) != Order::Greater {
        entries.len() as int
    } else {
        spec_position(entries.drop_last(), entry)
    }
}

/// `entries` with `entry` put in at its position.
pub open spec fn spec_insert(entries: Seq<EntryView>, entry: EntryView) -> Seq<EntryView> {
    entries.insert(spec_position(entries, entry), entry)
}

/// The position of an entry lies within the list, behind what is not
/// greater; in a sorted list it lies before all that is greater.
pub proof fn lemma_position(entries: Seq<EntryView>, entry: EntryView)
    ensures
        0 <= spec_position(entries, entry) <= entries.len(),
        spec_position(entries, entry) > 0 ==> spec_entry_order(
            entries[spec_position(entries, entry) - 1],
            entry,
        ) != Order::Greater,
        forall|index: int|
            spec_position(entries, entry) <= index < entries.len() ==> spec_entry_order(
                #[trigger] entries[index],
                entry,
            ) == Order::Greater,
    decreases entries.len(),
{
    if entries.len() > 0 && spec_entry_order(entries.last(), entry) == Order::Greater {
        let head = entries.drop_last();
        lemma_position(head, entry);
        assert forall|index: int|
            spec_position(entries, entry) <= index < entries.len() implies spec_entry_order(
            #[trigger] entries[index],
            entry,
        ) == Order::Greater by {
            if index < head.len() {
                assert(entries[index] == head[index]);
            }
        }
    }
}

/// Putting an entry into a sorted list leaves it sorted.
pub proof fn lemma_insert_sorted(entries: Seq<EntryView>, entry: EntryView)
    requires
        spec_sorted(entries),
    ensures
        spec_sorted(spec_insert(entries, entry)),
{
    let position = spec_position(entries, entry);
    let inserted = spec_insert(entries, entry);
    lemma_position(entries, entry);
    assert forall|low: int, high: int| 0 <= low < high < inserted.len() implies spec_entry_order(
        inserted[low],
        inserted[high],
    ) != Order::Greater by {
        if high == position {
            if low < position - 1 {
                lemma_entry_order_transitive(entries[low], entries[position - 1], entry);
            }
        } else if low == position {
            assert(inserted[high] == entries[high - 1]);
            lemma_entry_order_flip(entries[high - 1], entry);
        } else if low < position && high > position {
            assert(inserted[high] == entries[high - 1]);
        }
    }
}

/// Puts `entry` into `into` at its position.
pub fn insert_sorted(into: &mut Vec<Entry>, entry: Entry)
    ensures
        spec_views(final(into)@) == spec_insert(spec_views(old(into)@), entry@),
{
    let ghost before = spec_views(into@);
    let mut position: usize = into.len();
    let mut searching: bool = true;
    assert(before.take(before.len() as int) =~= before);
    while searching
        invariant
            position <= into@.len(),
            into@ == old(into)@,
            before == spec_views(into@),
            spec_position(before, entry@) == spec_position(before.take(position as int), entry@),
            !searching ==> spec_position(before.take(position as int), entry@) == position,
        decreases position + (if searching { 1int } else { 0int }),
    {
        let ghost head = before.take(position as int);
        if position == 0 {
            searching = false;
        } else {
            assert(head.last() == into@[position - 1]@);
            match entry_order(&into[position - 1], &entry) {
                Order::Greater => {
                    assert(head.drop_last() =~= before.take(position - 1));
                    position -= 1;
                },
                _ => {
                    searching = false;
                },
            }
        }
    }
    into.insert(position, entry);
    assert(spec_views(into@) =~= before.insert(position as int, entry@));
}

/// Whether `entry` stays when `pending` is learned: it does under another
/// `lux`, and under the same `lux` where it agrees with `pending`, which is
/// with a darker screen and no less brightness, or a lighter screen and no
/// more.
pub open spec fn spec_keeps(entry: EntryView, pending: EntryView) -> bool {
    ||| entry.lux != pending.lux
    ||| entry.luma < pending.luma && entry.brightness >= pending.brightness
    ||| entry.luma > pending.luma && entry.brightness <= pending.brightness
}

/// The entries that stay when `pending` is learned, sorted one by one.
pub open spec fn spec_kept(entries: Seq<EntryView>, pending: EntryView) -> Seq<EntryView>
    decreases entries.len(),
{
    if entries.len() == 0 {
        Seq::empty()
    } else if spec_keeps(entries.last(), pending) {
        spec_insert(spec_kept(entries.drop_last(), pending), entries.last())
    } else {
        spec_kept(entries.drop_last(), pending)
    }
}

/// The dataset after `pending` is learned: the entries that stay and
/// `pending`, sorted.
pub open spec fn spec_learn(entries: Seq<EntryView>, pending: EntryView) -> Seq<EntryView> {
    spec_insert(spec_kept(entries, pending), pending)
}

/// An entry is in a list into which one was put where it is that one or
/// was in the list before.
pub proof fn lemma_insert_members(entries: Seq<EntryView>, entry: EntryView, other: EntryView)
    ensures
        spec_insert(entries, entry).contains(other) <==> other == entry || entries.contains(other),
        spec_insert(entries, entry).len() == entries.len() + 1,
{
    let position = spec_position(entries, entry);
    let inserted = spec_insert(entries, entry);
    lemma_position(entries, entry);
    if inserted.contains(other) {
        let index = choose|index: int| 0 <= index < inserted.len() && inserted[index] == other;
        if index < position {
            assert(entries[index] == other);
        } else if index > position {
            assert(entries[index - 1] == other);
        }
    }
    if other == entry {
        assert(inserted[position] == other);
    }
    if entries.contains(other) {
        let index = choose|index: int| 0 <= index < entries.len() && entries[index] == other;
        if index < position {
            assert(inserted[index] == other);
        } else {
            assert(inserted[index + 1] == other);
        }
    }
}

/// The entries that stay are the entries that `pending` keeps.
pub proof fn lemma_kept_members(entries: Seq<EntryView>, pending: EntryView, other: EntryView)
    ensures
        spec_kept(entries, pending).contains(other) <==> entries.contains(other) && spec_keeps(
            other,
            pending,
        ),
    decreases entries.len(),
{
    if entries.len() > 0 {
        let head = entries.drop_last();
        lemma_kept_members(head, pending, other);
        if spec_keeps(entries.last(), pending) {
            lemma_insert_members(spec_kept(head, pending), entries.last(), other);
        }
        if head.contains(other) {
            let index = choose|index: int| 0 <= index < head.len() && head[index] == other;
            assert(entries[index] == other);
        }
        if entries.contains(other) {
            let index = choose|index: int| 0 <= index < entries.len() && entries[index] == other;
            if index < head.len() {
                assert(head[index] == other);
            } else {
                assert(entries.last() == other);
            }
        }
        if other == entries.last() {
            assert(entries[entries.len() - 1] == other);
        }
    } else {
        assert(!spec_kept(entries, pending).contains(other));
    }
}

/// After learning, the dataset holds `pending` and the entries that it
/// keeps, and nothing else.
pub proof fn lemma_learn_members(entries: Seq<EntryView>, pending: EntryView, other: EntryView)
    ensures
        spec_learn(entries, pending).contains(other) <==> other == pending || (entries.contains(
            other,
        ) && spec_keeps(other, pending)),
{
    lemma_kept_members(entries, pending, other);
    lemma_insert_members(spec_kept(entries, pending), pending, other);
}

proof fn lemma_kept_sorted(entries: Seq<EntryView>, pending: EntryView)
    ensures
        spec_sorted(spec_kept(entries, pending)),
    decreases entries.len(),
{
    if entries.len() > 0 {
        lemma_kept_sorted(entries.drop_last(), pending);
        if spec_keeps(entries.last(), pending) {
            lemma_insert_sorted(spec_kept(entries.drop_last(), pending), entries.last());
        }
    }
}

/// After learning, the dataset is sorted, whatever it was before.
pub proof fn lemma_learn_sorted(entries: Seq<EntryView>, pending: EntryView)
    ensures
        spec_sorted(spec_learn(entries, pending)),
{
    lemma_kept_sorted(entries, pending);
    lemma_insert_sorted(spec_kept(entries, pending), pending);
}

/// After learning `pending`, every entry under its `lux` agrees with it: a
/// darker screen has no less brightness, a lighter screen no more.
pub proof fn lemma_learn_agrees(entries: Seq<EntryView>, pending: EntryView)
    ensures
        forall|index: int|
            0 <= index < spec_learn(entries, pending).len() && (#[trigger] spec_learn(
                entries,
                pending,
            )[index]).lux == pending.lux ==> {
                let entry = spec_learn(entries, pending)[index];
                &&& entry.luma < pending.luma ==> entry.brightness >= pending.brightness
                &&& entry.luma > pending.luma ==> entry.brightness <= pending.brightness
                &&& entry.luma == pending.luma ==> entry == pending
            },
{
    let learned = spec_learn(entries, pending);
    assert forall|index: int|
        0 <= index < learned.len() && (#[trigger] learned[index]).lux == pending.lux implies {
        let entry = learned[index];
        &&& entry.luma < pending.luma ==> entry.brightness >= pending.brightness
        &&& entry.luma > pending.luma ==> entry.brightness <= pending.brightness
        &&& entry.luma == pending.luma ==> entry == pending
    } by {
        assert(learned.contains(learned[index]));
        lemma_learn_members(entries, pending, learned[index]);
    }
}

proof fn lemma_insert_unique(entries: Seq<EntryView>, entry: EntryView)
    requires
        spec_unique(entries),
        forall|index: int|
            0 <= index < entries.len() ==> !((#[trigger] entries[index]).lux == entry.lux
                && entries[index].luma == entry.luma),
    ensures
        spec_unique(spec_insert(entries, entry)),
{
    let position = spec_position(entries, entry);
    let inserted = spec_insert(entries, entry);
    lemma_position(entries, entry);
    assert forall|low: int, high: int| 0 <= low < high < inserted.len() implies !(
    inserted[low].lux == inserted[high].lux && inserted[low].luma == inserted[high].luma) by {
        let before = if low < position {
            low
        } else {
            low - 1
        };
        let after = if high < position {
            high
        } else {
            high - 1
        };
        if low != position {
            assert(inserted[low] == entries[before]);
        }
        if high != position {
            assert(inserted[high] == entries[after]);
        }
    }
}

proof fn lemma_kept_unique(entries: Seq<EntryView>, pending: EntryView)
    requires
        spec_unique(entries),
    ensures
        spec_unique(spec_kept(entries, pending)),
    decreases entries.len(),
{
    if entries.len() > 0 {
        let head = entries.drop_last();
        let kept = spec_kept(head, pending);
        assert(spec_unique(head));
        lemma_kept_unique(head, pending);
        if spec_keeps(entries.last(), pending) {
            assert forall|index: int| 0 <= index < kept.len() implies !((
            #[trigger] kept[index]).lux == entries.last().lux && kept[index].luma
                == entries.last().luma) by {
                assert(kept.contains(kept[index]));
                lemma_kept_members(head, pending, kept[index]);
                let source = choose|source: int|
                    0 <= source < head.len() && head[source] == kept[index];
                assert(entries[source] == kept[index]);
            }
            lemma_insert_unique(kept, entries.last());
        }
    }
}

/// Learning keeps a dataset well formed: sorted, with one entry at most
/// for each `lux` and `luma`, and monotone under each `lux`.
pub proof fn lemma_learn_wf(entries: Seq<EntryView>, pending: EntryView)
    requires
        spec_unique(entries),
        spec_monotone(entries),
    ensures
        spec_wf(spec_learn(entries, pending)),
{
    let kept = spec_kept(entries, pending);
    let learned = spec_learn(entries, pending);
    lemma_learn_sorted(entries, pending);
    lemma_kept_unique(entries, pending);
    assert forall|index: int| 0 <= index < kept.len() implies !((#[trigger] kept[index]).lux
        == pending.lux && kept[index].luma == pending.luma) by {
        assert(kept.contains(kept[index]));
        lemma_kept_members(entries, pending, kept[index]);
    }
    lemma_insert_unique(kept, pending);
    assert forall|first: int, second: int|
        0 <= first < learned.len() && 0 <= second < learned.len() && learned[first].lux
            == learned[second].lux && learned[first].luma
            < learned[second].luma implies learned[first].brightness
        >= learned[second].brightness by {
        let darker = learned[first];
        let lighter = learned[second];
        assert(learned.contains(darker));
        assert(learned.contains(lighter));
        lemma_learn_members(entries, pending, darker);
        lemma_learn_members(entries, pending, lighter);
        if darker != pending && lighter != pending {
            let one = choose|one: int| 0 <= one < entries.len() && entries[one] == darker;
            let other = choose|other: int| 0 <= other < entries.len() && entries[other] == lighter;
            assert(entries[one].brightness >= entries[other].brightness);
        }
    }
}

/// The dataset after the entries of `pendings` were learned, one after
/// the other.
pub open spec fn spec_learn_all(entries: Seq<EntryView>, pendings: Seq<EntryView>) -> Seq<EntryView>
    decreases pendings.len(),
{
    if pendings.len() == 0 {
        entries
    } else {
        spec_learn(spec_learn_all(entries, pendings.drop_last()), pendings.last())
    }
}

/// A dataset that grew from nothing by learning alone is well formed,
/// whatever was learned.
pub proof fn lemma_learned_wf(pendings: Seq<EntryView>)
    ensures
        spec_wf(spec_learn_all(Seq::empty(), pendings)),
    decreases pendings.len(),
{
    if pendings.len() > 0 {
        lemma_learned_wf(pendings.drop_last());
        lemma_learn_wf(spec_learn_all(Seq::empty(), pendings.drop_last()), pendings.last());
    }
}

impl Data {
    /// Learns `pending`: the entries under its `lux` that do not agree with
    /// it go, it comes in, and the dataset is sorted by `lux` and `luma`.
    pub fn learn(&mut self, pending: Entry)
        ensures
            final(self)@ == spec_learn(old(self)@, pending@),
            final(self).output_name == old(self).output_name,
            spec_sorted(final(self)@),
            final(self)@.contains(pending@),
            forall|index: int|
                0 <= index < final(self)@.len() && (#[trigger] final(self)@[index]).lux
                    == pending@.lux ==> {
                    let entry = final(self)@[index];
                    &&& entry.luma < pending.luma ==> entry.brightness >= pending.brightness
                    &&& entry.luma > pending.luma ==> entry.brightness <= pending.brightness
                    &&& entry.luma == pending.luma ==> entry == pending@
                },
            spec_unique(old(self)@) && spec_monotone(old(self)@) ==> spec_wf(final(self)@),
    {
        let ghost before = self@;
        let mut kept: Vec<Entry> = Vec::new();
        let mut index: usize = 0;
        assert(before.take(0) =~= Seq::<EntryView>::empty());
        assert(spec_views(kept@) =~= Seq::<EntryView>::empty());
        while index < self.entries.len()
            invariant
                index <= self.entries@.len(),
                before == spec_views(self.entries@),
                *self == *old(self),
                spec_views(kept@) == spec_kept(before.take(index as int), pending@),
            decreases self.entries@.len() - index,
        {
            let entry = &self.entries[index];
            proof {
                let next = before.take(index + 1);
                assert(next.drop_last() =~= before.take(index as int));
                assert(next.last() == entry@);
                lemma_compare_equal(entry@.lux, pending@.lux);
            }
            let same_lux = match compare(entry.lux.as_str(), pending.lux.as_str()) {
                Order::Equal => true,
                _ => false,
            };
            if !same_lux || (entry.luma < pending.luma && entry.brightness >= pending.brightness)
                || (entry.luma > pending.luma && entry.brightness <= pending.brightness) {
                insert_sorted(&mut kept, entry.clone());
            }
            index += 1;
        }
        assert(before.take(index as int) =~= before);
        proof {
            lemma_learn_sorted(before, pending@);
            lemma_learn_agrees(before, pending@);
            lemma_learn_members(before, pending@, pending@);
            if spec_unique(before) && spec_monotone(before) {
                lemma_learn_wf(before, pending@);
            }
        }
        insert_sorted(&mut kept, pending);
        self.entries = kept;
    }
}

} // verus!
