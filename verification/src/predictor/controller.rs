pub mod adaptive;
pub mod manual;

use crate::predictor::data::{Entry, EntryView, spec_unique, spec_views};
use crate::predictor::natural::Natural;
use crate::text::equal;
use vstd::arithmetic::div_mod::lemma_fundamental_div_mod_converse;
use vstd::prelude::*;

verus! {

/// How long the first lux value and the first brightness are waited for,
/// in seconds.
pub const INITIAL_TIMEOUT_SECS: u64 = 5;

/// The number of ticks without an edit after which a pending entry is
/// learned: it is learned on the last of them.
pub const PENDING_COOLDOWN_RESET: u8 = 15;

/// The number of ticks for which a new lux value has to stay before it
/// is used.
pub const NEXT_ALS_COOLDOWN_RESET: u8 = 15;

/// The text of an optional string.
pub open spec fn spec_text(text: Option<String>) -> Option<Seq<char>> {
    match text {
        Some(text) => Some(text@),
        None => None,
    }
}

/// A copy of an optional string.
pub fn copy_text(text: &Option<String>) -> (copy: Option<String>)
    ensures
        spec_text(copy) == spec_text(*text),
{
    match text {
        Some(text) => Some(text.clone()),
        None => None,
    }
}

/// Whether two optional strings say the same.
pub fn same_text(first: &Option<String>, second: &Option<String>) -> (same: bool)
    ensures
        same == (spec_text(*first) == spec_text(*second)),
{
    match (first, second) {
        (Some(first), Some(second)) => equal(first.as_str(), second.as_str()),
        (None, None) => true,
        _ => false,
    }
}

/// The newest of the values that arrived since the last tick.
pub fn newest(arrived: &Vec<u64>) -> (last: Option<u64>)
    ensures
        arrived@.len() == 0 ==> last is None,
        arrived@.len() > 0 ==> last == Some(arrived@.last()),
{
    if arrived.len() == 0 {
        None
    } else {
        Some(arrived[arrived.len() - 1])
    }
}

/// The newest of the lux values that arrived since the last tick.
pub fn newest_lux(arrived: &Vec<String>) -> (last: Option<String>)
    ensures
        arrived@.len() == 0 ==> last is None,
        arrived@.len() > 0 ==> spec_text(last) == Some(arrived@.last()@),
{
    if arrived.len() == 0 {
        None
    } else {
        Some(arrived[arrived.len() - 1].clone())
    }
}

/// Holds back a change of the lux value until it has lasted.
#[derive(Debug, PartialEq, Eq)]
pub struct Debouncer {
    /// The lux value in use.
    pub last_als: Option<String>,
    /// The lux value that is waiting to be used.
    pub next_als: Option<String>,
    /// The number of ticks that `next_als` still has to wait.
    pub next_als_cooldown: u8,
}

/// What a debouncer holds, as plain values.
pub struct DebouncerView {
    pub last_als: Option<Seq<char>>,
    pub next_als: Option<Seq<char>>,
    pub next_als_cooldown: u8,
}

impl View for Debouncer {
    type V = DebouncerView;

    open spec fn view(&self) -> DebouncerView {
        DebouncerView {
            last_als: spec_text(self.last_als),
            next_als: spec_text(self.next_als),
            next_als_cooldown: self.next_als_cooldown,
        }
    }
}

impl DebouncerView {
    /// Whether a lux value is in use, and one is waiting while the
    /// cooldown runs.
    pub open spec fn spec_ready(self) -> bool {
        &&& self.last_als is Some
        &&& self.next_als_cooldown > 0 ==> self.next_als is Some
    }

    /// The debouncer after a tick on which `arrival` was the newest lux
    /// value, if any arrived. A value other than the waiting one waits in
    /// its place, for the whole cooldown. Else the waiting one waits one
    /// tick less, and is taken into use when none is left.
    pub open spec fn spec_observe(self, arrival: Option<Seq<char>>) -> DebouncerView {
        if arrival is Some && self.next_als != arrival {
            DebouncerView {
                last_als: self.last_als,
                next_als: arrival,
                next_als_cooldown: NEXT_ALS_COOLDOWN_RESET,
            }
        } else if self.next_als_cooldown > 1 {
            DebouncerView {
                last_als: self.last_als,
                next_als: self.next_als,
                next_als_cooldown: (self.next_als_cooldown - 1) as u8,
            }
        } else if self.next_als_cooldown == 1 {
            DebouncerView { last_als: self.next_als, next_als: None, next_als_cooldown: 0 }
        } else {
            self
        }
    }

    /// The debouncer after the ticks of `arrivals`, one after the other.
    pub open spec fn spec_observe_all(self, arrivals: Seq<Option<Seq<char>>>) -> DebouncerView
        decreases arrivals.len(),
    {
        if arrivals.len() == 0 {
            self
        } else {
            self.spec_observe_all(arrivals.drop_last()).spec_observe(arrivals.last())
        }
    }
}

/// A tick leaves a debouncer ready.
pub proof fn lemma_observe_ready(debouncer: DebouncerView, arrival: Option<Seq<char>>)
    requires
        debouncer.spec_ready(),
    ensures
        debouncer.spec_observe(arrival).spec_ready(),
{
}

/// A lux value is not taken into use before it has waited: while fewer
/// ticks pass than the cooldown has left, the value in use stays, whatever
/// arrives.
pub proof fn lemma_lux_waits(debouncer: DebouncerView, arrivals: Seq<Option<Seq<char>>>)
    requires
        arrivals.len() < debouncer.next_als_cooldown <= NEXT_ALS_COOLDOWN_RESET,
    ensures
        debouncer.spec_observe_all(arrivals).last_als == debouncer.last_als,
        debouncer.spec_observe_all(arrivals).next_als_cooldown >= debouncer.next_als_cooldown
            - arrivals.len(),
        debouncer.spec_observe_all(arrivals).next_als_cooldown <= NEXT_ALS_COOLDOWN_RESET,
    decreases arrivals.len(),
{
    if arrivals.len() > 0 {
        lemma_lux_waits(debouncer, arrivals.drop_last());
    }
}

/// A lux value that differs from the waiting one is in use fifteen ticks
/// later at the earliest: for the tick on which it arrives and the
/// `NEXT_ALS_COOLDOWN_RESET - 1` ticks after it, the value in use stays.
pub proof fn lemma_lux_change_waits(
    debouncer: DebouncerView,
    arrival: Seq<char>,
    arrivals: Seq<Option<Seq<char>>>,
)
    requires
        debouncer.next_als != Some(arrival),
        arrivals.len() < NEXT_ALS_COOLDOWN_RESET,
    ensures
        debouncer.spec_observe(Some(arrival)).spec_observe_all(arrivals).last_als
            == debouncer.last_als,
{
    lemma_lux_waits(debouncer.spec_observe(Some(arrival)), arrivals);
}

impl Debouncer {
    /// A debouncer that has seen no lux value.
    pub fn new() -> (debouncer: Self)
        ensures
            debouncer@ == (DebouncerView { last_als: None, next_als: None, next_als_cooldown: 0 }),
    {
        Self { last_als: None, next_als: None, next_als_cooldown: 0 }
    }

    /// Takes the first lux value into use at once.
    pub fn start(&mut self, lux: String)
        ensures
            final(self)@ == (DebouncerView { last_als: Some(lux@), ..old(self)@ }),
    {
        self.last_als = Some(lux);
    }

    /// One tick, on which `arrival` was the newest lux value, if any arrived.
    pub fn observe(&mut self, arrival: Option<String>)
        ensures
            final(self)@ == old(self)@.spec_observe(spec_text(arrival)),
    {
        if arrival.is_some() && !same_text(&self.next_als, &arrival) {
            self.next_als = arrival;
            self.next_als_cooldown = NEXT_ALS_COOLDOWN_RESET;
        } else if self.next_als_cooldown > 1 {
            self.next_als_cooldown -= 1;
        } else if self.next_als_cooldown == 1 {
            self.next_als_cooldown = 0;
            self.last_als = self.next_als.take();
        }
    }
}

/// The entries under `lux`, in their order.
pub open spec fn spec_points(entries: Seq<EntryView>, lux: Seq<char>) -> Seq<EntryView>
    decreases entries.len(),
{
    if entries.len() == 0 {
        Seq::empty()
    } else if entries.last().lux == lux {
        spec_points(entries.drop_last(), lux).push(entries.last())
    } else {
        spec_points(entries.drop_last(), lux)
    }
}

/// The distance between two screen lightnesses.
pub open spec fn spec_distance(luma: u8, other: u8) -> nat {
    if luma >= other {
        (luma - other) as nat
    } else {
        (other - luma) as nat
    }
}

/// The product of the distances from `luma` to the first `count` points,
/// the one at `skip` left out.
pub open spec fn spec_others_product(points: Seq<EntryView>, luma: u8, skip: int, count: nat) -> nat
    decreases count,
{
    if count == 0 {
        1
    } else if count - 1 == skip {
        spec_others_product(points, luma, skip, (count - 1) as nat)
    } else {
        spec_others_product(points, luma, skip, (count - 1) as nat) * spec_distance(
            luma,
            points[count - 1].luma,
        )
    }
}

/// The weight of the point at `index`: the product of the distances to
/// all other points.
pub open spec fn spec_weight(points: Seq<EntryView>, luma: u8, index: int) -> nat {
    spec_others_product(points, luma, index, points.len())
}

/// The sum of the weights of the first `count` points.
pub open spec fn spec_weight_sum(points: Seq<EntryView>, luma: u8, count: nat) -> nat
    decreases count,
{
    if count == 0 {
        0
    } else {
        spec_weight_sum(points, luma, (count - 1) as nat) + spec_weight(points, luma, count - 1)
    }
}

/// The sum over the first `count` points of brightness times weight.
pub open spec fn spec_weighted_sum(points: Seq<EntryView>, luma: u8, count: nat) -> nat
    decreases count,
{
    if count == 0 {
        0
    } else {
        spec_weighted_sum(points, luma, (count - 1) as nat) + points[count - 1].brightness as nat
            * spec_weight(points, luma, count - 1)
    }
}

/// The mean of the brightnesses of `points`, each weighted with the
/// product of the distances from `luma` to the others, rounded down. With
/// two points at `luma` itself all weights are zero, and so is the mean.
pub open spec fn spec_shepard(points: Seq<EntryView>, luma: u8) -> nat {
    let weights = spec_weight_sum(points, luma, points.len());
    if weights == 0 {
        0
    } else {
        spec_weighted_sum(points, luma, points.len()) / weights
    }
}

/// The brightness that the entries under `lux` give for a screen of
/// lightness `luma`; none where there is no entry under `lux`.
pub open spec fn spec_interpolate(entries: Seq<EntryView>, lux: Seq<char>, luma: u8) -> Option<u64> {
    let points = spec_points(entries, lux);
    if points.len() == 0 {
        None
    } else {
        Some(spec_shepard(points, luma) as u64)
    }
}

proof fn lemma_weighted_sum_bound(points: Seq<EntryView>, luma: u8, count: nat)
    ensures
        spec_weighted_sum(points, luma, count) <= u64::MAX * spec_weight_sum(points, luma, count),
    decreases count,
{
    if count > 0 {
        lemma_weighted_sum_bound(points, luma, (count - 1) as nat);
        let weight = spec_weight(points, luma, count - 1);
        let brightness = points[count - 1].brightness;
        let before = spec_weight_sum(points, luma, (count - 1) as nat);
        assert(brightness * weight <= u64::MAX * weight) by (nonlinear_arith)
            requires
                brightness <= u64::MAX,
                weight >= 0,
        ;
        assert(u64::MAX * (before + weight) == u64::MAX * before + u64::MAX * weight)
            by (nonlinear_arith);
    } else {
        assert(u64::MAX * 0 == 0);
    }
}

proof fn lemma_weighted_sum_between(
    points: Seq<EntryView>,
    luma: u8,
    count: nat,
    low: u64,
    high: u64,
)
    requires
        count <= points.len(),
        forall|index: int|
            0 <= index < points.len() ==> low <= (#[trigger] points[index]).brightness <= high,
    ensures
        low * spec_weight_sum(points, luma, count) <= spec_weighted_sum(points, luma, count),
        spec_weighted_sum(points, luma, count) <= high * spec_weight_sum(points, luma, count),
    decreases count,
{
    if count > 0 {
        lemma_weighted_sum_between(points, luma, (count - 1) as nat, low, high);
        let weight = spec_weight(points, luma, count - 1);
        let brightness = points[count - 1].brightness;
        let before = spec_weight_sum(points, luma, (count - 1) as nat);
        assert(low * weight <= brightness * weight <= high * weight) by (nonlinear_arith)
            requires
                low <= brightness <= high,
                weight >= 0,
        ;
        assert(low * (before + weight) == low * before + low * weight) by (nonlinear_arith);
        assert(high * (before + weight) == high * before + high * weight) by (nonlinear_arith);
    } else {
        assert(low * 0 == 0);
        assert(high * 0 == 0);
    }
}

/// The weighted mean lies between the brightnesses that it is taken of:
/// where none is less than `low` or greater than `high`, and the weights
/// do not all vanish, the mean is neither.
pub proof fn lemma_shepard_between(points: Seq<EntryView>, luma: u8, low: u64, high: u64)
    requires
        forall|index: int|
            0 <= index < points.len() ==> low <= (#[trigger] points[index]).brightness <= high,
        spec_weight_sum(points, luma, points.len()) > 0,
    ensures
        low <= spec_shepard(points, luma) <= high,
{
    let weights = spec_weight_sum(points, luma, points.len());
    let weighted = spec_weighted_sum(points, luma, points.len());
    lemma_weighted_sum_between(points, luma, points.len(), low, high);
    assert(low <= weighted / weights <= high) by (nonlinear_arith)
        requires
            low * weights <= weighted <= high * weights,
            weights > 0,
    ;
}

/// The weighted mean of brightnesses is a brightness.
pub proof fn lemma_shepard_bound(points: Seq<EntryView>, luma: u8)
    ensures
        spec_shepard(points, luma) <= u64::MAX,
{
    let weights = spec_weight_sum(points, luma, points.len());
    let weighted = spec_weighted_sum(points, luma, points.len());
    lemma_weighted_sum_bound(points, luma, points.len());
    if weights > 0 {
        assert(weighted / weights <= u64::MAX) by (nonlinear_arith)
            requires
                weighted <= u64::MAX * weights,
                weights > 0,
        ;
    }
}

proof fn lemma_others_product_zero(
    points: Seq<EntryView>,
    luma: u8,
    skip: int,
    count: nat,
    zero: int,
)
    requires
        0 <= zero < count,
        zero != skip,
        spec_distance(luma, points[zero].luma) == 0,
    ensures
        spec_others_product(points, luma, skip, count) == 0,
    decreases count,
{
    let before = spec_others_product(points, luma, skip, (count - 1) as nat);
    if zero == count - 1 {
        assert(before * 0 == 0);
    } else {
        lemma_others_product_zero(points, luma, skip, (count - 1) as nat, zero);
        assert(0 * spec_distance(luma, points[count - 1].luma) == 0);
    }
}

proof fn lemma_others_product_positive(points: Seq<EntryView>, luma: u8, skip: int, count: nat)
    requires
        forall|other: int|
            0 <= other < count && other != skip ==> spec_distance(luma, points[other].luma) > 0,
    ensures
        spec_others_product(points, luma, skip, count) > 0,
    decreases count,
{
    if count > 0 {
        lemma_others_product_positive(points, luma, skip, (count - 1) as nat);
        let before = spec_others_product(points, luma, skip, (count - 1) as nat);
        let distance = spec_distance(luma, points[count - 1].luma);
        if count - 1 != skip {
            assert(before * distance > 0) by (nonlinear_arith)
                requires
                    before > 0,
                    distance > 0,
            ;
        }
    }
}

proof fn lemma_sums_of_one(points: Seq<EntryView>, luma: u8, at: int, count: nat)
    requires
        0 <= at < points.len(),
        count <= points.len(),
        points[at].luma == luma,
    ensures
        spec_weight_sum(points, luma, count) == if at < count {
            spec_weight(points, luma, at)
        } else {
            0
        },
        spec_weighted_sum(points, luma, count) == if at < count {
            points[at].brightness as nat * spec_weight(points, luma, at)
        } else {
            0
        },
    decreases count,
{
    if count > 0 {
        lemma_sums_of_one(points, luma, at, (count - 1) as nat);
        if count - 1 != at {
            lemma_others_product_zero(points, luma, count - 1, points.len(), at);
            assert(points[count - 1].brightness as nat * 0 == 0);
        }
    }
}

/// Among points of which one alone lies at `luma`, that one decides: the
/// weighted mean is its brightness.
pub proof fn lemma_shepard_exact(points: Seq<EntryView>, luma: u8, at: int)
    requires
        0 <= at < points.len(),
        points[at].luma == luma,
        forall|other: int| 0 <= other < points.len() && other != at ==> points[other].luma != luma,
    ensures
        spec_shepard(points, luma) == points[at].brightness,
{
    let weight = spec_weight(points, luma, at);
    let brightness = points[at].brightness as nat;
    lemma_sums_of_one(points, luma, at, points.len());
    lemma_others_product_positive(points, luma, at, points.len());
    lemma_fundamental_div_mod_converse(
        (brightness * weight) as int,
        weight as int,
        brightness as int,
        0,
    );
}

proof fn lemma_points_are_entries(entries: Seq<EntryView>, lux: Seq<char>)
    ensures
        spec_points(entries, lux).len() <= entries.len(),
        forall|point: int|
            0 <= point < spec_points(entries, lux).len() ==> (#[trigger] spec_points(
                entries,
                lux,
            )[point]).lux == lux,
    decreases entries.len(),
{
    if entries.len() > 0 {
        lemma_points_are_entries(entries.drop_last(), lux);
    }
}

/// The points under a `lux` of entries that differ in `lux` or `luma`
/// differ in `luma`, and each entry under that `lux` is one of them: the
/// one at the number of such entries before it.
proof fn lemma_points_of_unique(entries: Seq<EntryView>, lux: Seq<char>)
    requires
        spec_unique(entries),
    ensures
        forall|first: int, second: int|
            0 <= first < second < spec_points(entries, lux).len() ==> spec_points(
                entries,
                lux,
            )[first].luma != spec_points(entries, lux)[second].luma,
        forall|point: int|
            0 <= point < spec_points(entries, lux).len() ==> exists|index: int|
                0 <= index < entries.len() && entries[index] == #[trigger] spec_points(
                    entries,
                    lux,
                )[point],
        forall|index: int|
            0 <= index < entries.len() && (#[trigger] entries[index]).lux == lux ==> {
                let rank = spec_points(entries.take(index), lux).len() as int;
                rank < spec_points(entries, lux).len() && spec_points(entries, lux)[rank]
                    == entries[index]
            },
    decreases entries.len(),
{
    let points = spec_points(entries, lux);
    if entries.len() > 0 {
        let head = entries.drop_last();
        let before = spec_points(head, lux);
        lemma_points_of_unique(head, lux);
        lemma_points_are_entries(head, lux);
        lemma_points_are_entries(entries, lux);
        assert forall|point: int| 0 <= point < points.len() implies exists|index: int|
            0 <= index < entries.len() && entries[index] == #[trigger] points[point] by {
            if point < before.len() {
                let index = choose|index: int|
                    0 <= index < head.len() && head[index] == before[point];
                assert(entries[index] == points[point]);
            } else {
                assert(entries[entries.len() - 1] == points[point]);
            }
        }
        assert forall|first: int, second: int| 0 <= first < second < points.len() implies points[first].luma
            != points[second].luma by {
            if second >= before.len() {
                let index = choose|index: int|
                    0 <= index < head.len() && head[index] == before[first];
                assert(entries[index] == before[first]);
                assert(entries[entries.len() - 1] == points[second]);
            }
        }
        assert forall|index: int|
            0 <= index < entries.len() && (#[trigger] entries[index]).lux == lux implies {
            let rank = spec_points(entries.take(index), lux).len() as int;
            rank < points.len() && points[rank] == entries[index]
        } by {
            if index < entries.len() - 1 {
                assert(head[index] == entries[index]);
                assert(head.take(index) =~= entries.take(index));
            } else {
                assert(entries.take(index) =~= head);
            }
        }
    }
}

/// What was learned is recalled: under the `lux` and at the `luma` of a
/// stored entry, a dataset that holds no second entry for the two gives
/// that entry's brightness.
pub proof fn lemma_interpolate_stored(entries: Seq<EntryView>, at: int)
    requires
        spec_unique(entries),
        0 <= at < entries.len(),
    ensures
        spec_interpolate(entries, entries[at].lux, entries[at].luma) == Some(
            entries[at].brightness,
        ),
{
    let lux = entries[at].lux;
    let luma = entries[at].luma;
    let points = spec_points(entries, lux);
    lemma_points_of_unique(entries, lux);
    let rank = spec_points(entries.take(at), lux).len() as int;
    assert(points[rank] == entries[at]);
    lemma_shepard_exact(points, luma, rank);
}

/// The brightness that `entries` give under `lux` for a screen of
/// lightness `luma`: the mean of the brightnesses of the entries under
/// `lux`, each weighted with the inverse of its distance from `luma`, and
/// rounded down. An entry at `luma` itself decides alone.
pub fn interpolate(entries: &[Entry], lux: &str, luma: u8) -> (prediction: Option<u64>)
    ensures
        prediction == spec_interpolate(spec_views(entries@), lux@, luma),
{
    let ghost views = spec_views(entries@);
    let mut brightnesses: Vec<u64> = Vec::new();
    let mut distances: Vec<u8> = Vec::new();
    let mut index: usize = 0;
    assert(views.take(0) =~= Seq::<EntryView>::empty());
    while index < entries.len()
        invariant
            index <= entries@.len(),
            views == spec_views(entries@),
            brightnesses@.len() == spec_points(views.take(index as int), lux@).len(),
            distances@.len() == brightnesses@.len(),
            forall|k: int|
                0 <= k < brightnesses@.len() ==> brightnesses@[k] == spec_points(
                    views.take(index as int),
                    lux@,
                )[k].brightness,
            forall|k: int|
                0 <= k < distances@.len() ==> distances@[k] == spec_distance(
                    luma,
                    spec_points(views.take(index as int), lux@)[k].luma,
                ),
        decreases entries@.len() - index,
    {
        let entry = &entries[index];
        proof {
            let next = views.take(index + 1);
            assert(next.drop_last() =~= views.take(index as int));
            assert(next.last() == entry@);
        }
        if equal(entry.lux.as_str(), lux) {
            brightnesses.push(entry.brightness);
            distances.push(
                if luma >= entry.luma {
                    luma - entry.luma
                } else {
                    entry.luma - luma
                },
            );
        }
        index += 1;
    }
    assert(views.take(index as int) =~= views);
    let ghost points = spec_points(views, lux@);
    let count = brightnesses.len();
    if count == 0 {
        return None;
    }
    let mut weighted = Natural::from_u64(0);
    let mut weights = Natural::from_u64(0);
    let mut point: usize = 0;
    while point < count
        invariant
            point <= count,
            count == points.len(),
            brightnesses@.len() == count,
            distances@.len() == count,
            forall|k: int| 0 <= k < count ==> brightnesses@[k] == points[k].brightness,
            forall|k: int|
                0 <= k < count ==> distances@[k] == spec_distance(luma, points[k].luma),
            weighted@ == spec_weighted_sum(points, luma, point as nat),
            weights@ == spec_weight_sum(points, luma, point as nat),
        decreases count - point,
    {
        let mut product = Natural::from_u64(1);
        let mut other: usize = 0;
        while other < count
            invariant
                other <= count,
                point < count,
                count == points.len(),
                distances@.len() == count,
                forall|k: int|
                    0 <= k < count ==> distances@[k] == spec_distance(luma, points[k].luma),
                product@ == spec_others_product(points, luma, point as int, other as nat),
            decreases count - other,
        {
            if other != point {
                product = product.mul_u64(distances[other] as u64);
            }
            other += 1;
        }
        let term = product.mul_u64(brightnesses[point]);
        assert(term@ == points[point as int].brightness as nat * spec_weight(
            points,
            luma,
            point as int,
        )) by (nonlinear_arith)
            requires
                term@ == spec_weight(points, luma, point as int) * points[point as int].brightness,
        ;
        weighted = weighted.add(&term);
        weights = weights.add(&product);
        point += 1;
    }
    if weights.is_zero() {
        return Some(0);
    }
    let mut low: u64 = 0;
    let mut high: u64 = u64::MAX;
    proof {
        lemma_weighted_sum_bound(points, luma, count as nat);
        assert(0 * weights@ == 0);
        assert(weighted@ < (u64::MAX + 1) * weights@) by (nonlinear_arith)
            requires
                weighted@ <= u64::MAX * weights@,
                weights@ > 0,
        ;
    }
    while low < high
        invariant
            low <= high,
            weights@ > 0,
            low * weights@ <= weighted@,
            weighted@ < (high + 1) * weights@,
        decreases high - low,
    {
        let middle: u64 = low + (high - low) / 2 + 1;
        let scaled = weights.mul_u64(middle);
        assert(scaled@ == middle * weights@) by (nonlinear_arith)
            requires
                scaled@ == weights@ * middle,
        ;
        if scaled.le(&weighted) {
            low = middle;
        } else {
            high = middle - 1;
        }
    }
    proof {
        let rest = weighted@ - low * weights@;
        assert(rest < weights@) by (nonlinear_arith)
            requires
                rest == weighted@ - low * weights@,
                weighted@ < (low + 1) * weights@,
        ;
        lemma_fundamental_div_mod_converse(
            weighted@ as int,
            weights@ as int,
            low as int,
            rest as int,
        );
    }
    Some(low)
}

} // verus!
