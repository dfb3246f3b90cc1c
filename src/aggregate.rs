use vstd::prelude::*;
use crate::record::PlayedItem;

verus! {

/// What one summary holds, as mathematical values: the descriptive names
/// copied from the record that created it, the total milliseconds played and
/// the number of plays.
pub struct Tally {
    pub label: Seq<Seq<char>>,
    pub ms_played: nat,
    pub play_count: nat,
}

/// The capabilities that one kind of summary (song, album, artist, podcast
/// episode, podcast show) supplies to the aggregation engine: which records
/// count toward it, how a record is keyed, and how a summary is built and
/// accumulated.
pub trait SpotifyData: Sized {
    /// Whether a record has the fields this kind needs to count it.
    spec fn counts(item: PlayedItem) -> bool;

    /// The key that identifies the instance a record belongs to.
    spec fn key_of(item: PlayedItem) -> Seq<char>;

    /// The names that a summary built from `item` carries.
    spec fn label_of(item: PlayedItem) -> Seq<Seq<char>>;

    /// The names this summary carries.
    spec fn label(&self) -> Seq<Seq<char>>;

    /// Total milliseconds played.
    spec fn ms_total(&self) -> nat;

    /// Number of plays.
    spec fn play_total(&self) -> nat;

    /// Creates a summary with no time and no plays from a record.
    fn from_track_info(played_item: &PlayedItem) -> (r: Self)
        ensures
            r.label() == Self::label_of(*played_item),
            r.ms_total() == 0,
            r.play_total() == 0,
    ;

    /// Adds to the total play time.
    fn add_time_to_ms_played(&mut self, new_ms_played: &u64)
        requires
            old(self).ms_total() + *new_ms_played <= u64::MAX,
        ensures
            final(self).label() == old(self).label(),
            final(self).ms_total() == old(self).ms_total() + *new_ms_played,
            final(self).play_total() == old(self).play_total(),
    ;

    /// Counts one more play.
    fn increment_play_count(&mut self)
        requires
            old(self).play_total() < u32::MAX,
        ensures
            final(self).label() == old(self).label(),
            final(self).ms_total() == old(self).ms_total(),
            final(self).play_total() == old(self).play_total() + 1,
    ;

    /// The key of the instance a record belongs to.
    fn get_key_from_track_info(played_item: &PlayedItem) -> (r: String)
        ensures
            r@ == Self::key_of(*played_item),
    ;

    /// Total milliseconds played.
    fn get_ms_played(&self) -> (r: u64)
        ensures
            r == self.ms_total(),
    ;

    /// Number of plays.
    fn get_play_count(&self) -> (r: u32)
        ensures
            r == self.play_total(),
    ;

    /// Whether a record has the fields this kind needs to count it.
    fn played_item_is_valid_for_aggregation(played_item: &PlayedItem) -> (r: bool)
        ensures
            r == Self::counts(*played_item),
    ;
}

/// The metric a ranking orders by.
pub enum SortSpotifyDataBy {
    TotalListenTime,
    PlayCount,
}

pub open spec fn tally_of<T: SpotifyData>(t: T) -> Tally {
    Tally { label: t.label(), ms_played: t.ms_total(), play_count: t.play_total() }
}

pub open spec fn tallies<T: SpotifyData>(s: Seq<T>) -> Seq<Tally> {
    s.map_values(|t: T| tally_of(t))
}

/// A record is aggregated for `T` when `T` counts it and it carries a duration.
pub open spec fn qualifies<T: SpotifyData>(item: PlayedItem) -> bool {
    T::counts(item) && item.ms_played is Some
}

pub open spec fn played_ms(item: PlayedItem) -> nat {
    match item.ms_played {
        Some(ms) => ms as nat,
        None => 0,
    }
}

/// Number of records of `items` aggregated for `T`.
pub open spec fn plays<T: SpotifyData>(items: Seq<PlayedItem>) -> nat
    decreases items.len(),
{
    if items.len() == 0 {
        0
    } else {
        plays::<T>(items.drop_last()) + if qualifies::<T>(items.last()) { 1nat } else { 0nat }
    }
}

/// Milliseconds played over the records of `items` aggregated for `T`.
pub open spec fn listened<T: SpotifyData>(items: Seq<PlayedItem>) -> nat
    decreases items.len(),
{
    if items.len() == 0 {
        0
    } else {
        listened::<T>(items.drop_last()) + if qualifies::<T>(items.last()) {
            played_ms(items.last())
        } else {
            0nat
        }
    }
}

/// Number of records of `items` aggregated for `T` under `key`.
pub open spec fn key_plays<T: SpotifyData>(items: Seq<PlayedItem>, key: Seq<char>) -> nat
    decreases items.len(),
{
    if items.len() == 0 {
        0
    } else {
        key_plays::<T>(items.drop_last(), key) + if qualifies::<T>(items.last()) && T::key_of(
            items.last(),
        ) == key {
            1nat
        } else {
            0nat
        }
    }
}

/// Milliseconds played over the records of `items` aggregated for `T` under `key`.
pub open spec fn key_listened<T: SpotifyData>(items: Seq<PlayedItem>, key: Seq<char>) -> nat
    decreases items.len(),
{
    if items.len() == 0 {
        0
    } else {
        key_listened::<T>(items.drop_last(), key) + if qualifies::<T>(items.last()) && T::key_of(
            items.last(),
        ) == key {
            played_ms(items.last())
        } else {
            0nat
        }
    }
}

pub open spec fn has_key(entries: Seq<(Seq<char>, Tally)>, key: Seq<char>) -> bool {
    exists|i: int| 0 <= i < entries.len() && entries[i].0 == key
}

pub open spec fn keys_distinct(entries: Seq<(Seq<char>, Tally)>) -> bool {
    forall|i: int, j: int|
        0 <= i < entries.len() && 0 <= j < entries.len() && i != j ==> entries[i].0 != entries[j].0
}

/// Accounts one play of `ms` milliseconds under `key`: the entry for `key`
/// grows, or a new entry with `label` is appended.
pub open spec fn record_play(
    entries: Seq<(Seq<char>, Tally)>,
    key: Seq<char>,
    label: Seq<Seq<char>>,
    ms: nat,
) -> Seq<(Seq<char>, Tally)> {
    if has_key(entries, key) {
        let i = choose|i: int| 0 <= i < entries.len() && entries[i].0 == key;
        let t = entries[i].1;
        entries.update(
            i,
            (key, Tally { label: t.label, ms_played: t.ms_played + ms, play_count: t.play_count + 1 }),
        )
    } else {
        entries.push((key, Tally { label, ms_played: ms, play_count: 1 }))
    }
}

/// One entry per key of the records aggregated for `T`, in the order in which
/// the keys first occur, with the totals of that key.
pub open spec fn tally<T: SpotifyData>(items: Seq<PlayedItem>) -> Seq<(Seq<char>, Tally)>
    decreases items.len(),
{
    if items.len() == 0 {
        Seq::empty()
    } else {
        let before = tally::<T>(items.drop_last());
        let p = items.last();
        if qualifies::<T>(p) {
            record_play(before, T::key_of(p), T::label_of(p), played_ms(p))
        } else {
            before
        }
    }
}

pub open spec fn summaries<T: SpotifyData>(items: Seq<PlayedItem>) -> Seq<Tally> {
    tally::<T>(items).map_values(|e: (Seq<char>, Tally)| e.1)
}

pub open spec fn metric(t: Tally, by: SortSpotifyDataBy) -> nat {
    match by {
        SortSpotifyDataBy::TotalListenTime => t.ms_played,
        SortSpotifyDataBy::PlayCount => t.play_count,
    }
}

/// Inserts `x` after the last element whose metric is at most that of `x`,
/// scanning from the end: a stable insertion step.
pub open spec fn insert_by(s: Seq<Tally>, x: Tally, by: SortSpotifyDataBy) -> Seq<Tally>
    decreases s.len(),
{
    if s.len() == 0 {
        seq![x]
    } else if metric(s.last(), by) <= metric(x, by) {
        s.push(x)
    } else {
        insert_by(s.drop_last(), x, by).push(s.last())
    }
}

/// `s` sorted ascending by metric; equal metrics keep their order in `s`.
pub open spec fn sort_by_metric(s: Seq<Tally>, by: SortSpotifyDataBy) -> Seq<Tally>
    decreases s.len(),
{
    if s.len() == 0 {
        s
    } else {
        insert_by(sort_by_metric(s.drop_last(), by), s.last(), by)
    }
}

/// The ascending order, reversed when `descending` holds.
pub open spec fn ranked(s: Seq<Tally>, by: SortSpotifyDataBy, descending: bool) -> Seq<Tally> {
    if descending {
        sort_by_metric(s, by).reverse()
    } else {
        sort_by_metric(s, by)
    }
}

/// What aggregating `items` for `T` yields.
pub open spec fn aggregated<T: SpotifyData>(
    items: Seq<PlayedItem>,
    by: SortSpotifyDataBy,
    descending: bool,
) -> Seq<Tally> {
    ranked(summaries::<T>(items), by, descending)
}

pub open spec fn ascending(s: Seq<Tally>, by: SortSpotifyDataBy) -> bool {
    forall|i: int, j: int| 0 <= i < j < s.len() ==> metric(s[i], by) <= metric(s[j], by)
}

pub open spec fn descending_order(s: Seq<Tally>, by: SortSpotifyDataBy) -> bool {
    forall|i: int, j: int| 0 <= i < j < s.len() ==> metric(s[i], by) >= metric(s[j], by)
}


/// Each entry of `tally` holds the totals of its own key, the keys are
/// distinct, and a key without an entry has no aggregated record.
pub proof fn lemma_tally_totals<T: SpotifyData>(items: Seq<PlayedItem>)
    ensures
        keys_distinct(tally::<T>(items)),
        forall|j: int|
            0 <= j < tally::<T>(items).len() ==> {
                &&& (#[trigger] tally::<T>(items)[j]).1.ms_played == key_listened::<T>(
                    items,
                    tally::<T>(items)[j].0,
                )
                &&& tally::<T>(items)[j].1.play_count == key_plays::<T>(
                    items,
                    tally::<T>(items)[j].0,
                )
            },
        forall|k: Seq<char>|
            !has_key(tally::<T>(items), k) ==> key_plays::<T>(items, k) == 0
                && key_listened::<T>(items, k) == 0,
    decreases items.len(),
{
    if items.len() > 0 {
        let rest = items.drop_last();
        let p = items.last();
        lemma_tally_totals::<T>(rest);
        let before = tally::<T>(rest);
        let after = tally::<T>(items);
        let kp = T::key_of(p);
        let hit = qualifies::<T>(p);
        assert forall|k: Seq<char>| k != kp || !hit implies key_plays::<T>(items, k)
            == key_plays::<T>(rest, k) && key_listened::<T>(items, k) == key_listened::<T>(
            rest,
            k,
        ) by {}
        if hit && has_key(before, kp) {
            let i = choose|i: int| 0 <= i < before.len() && before[i].0 == kp;
            assert(after.len() == before.len());
            assert forall|j: int| 0 <= j < after.len() implies {
                &&& (#[trigger] after[j]).1.ms_played == key_listened::<T>(items, after[j].0)
                &&& after[j].1.play_count == key_plays::<T>(items, after[j].0)
            } by {
                assert(before[j].1.ms_played == key_listened::<T>(rest, before[j].0));
            }
            assert forall|k: Seq<char>| !has_key(after, k) implies key_plays::<T>(items, k) == 0
                && key_listened::<T>(items, k) == 0 by {
                if k == kp {
                    assert(after[i].0 == kp);
                } else if has_key(before, k) {
                    let m = choose|m: int| 0 <= m < before.len() && before[m].0 == k;
                    assert(after[m].0 == k);
                }
            }
        } else if hit {
            assert(after.len() == before.len() + 1);
            assert forall|j: int| 0 <= j < after.len() implies {
                &&& (#[trigger] after[j]).1.ms_played == key_listened::<T>(items, after[j].0)
                &&& after[j].1.play_count == key_plays::<T>(items, after[j].0)
            } by {
                if j < before.len() {
                    assert(before[j].1.ms_played == key_listened::<T>(rest, before[j].0));
                    assert(before[j].0 != kp);
                } else {
                    assert(!has_key(before, kp));
                    assert(key_plays::<T>(rest, kp) == 0 && key_listened::<T>(rest, kp) == 0);
                }
            }
            assert forall|k: Seq<char>| !has_key(after, k) implies key_plays::<T>(items, k) == 0
                && key_listened::<T>(items, k) == 0 by {
                if k == kp {
                    assert(after[before.len() as int].0 == kp);
                } else if has_key(before, k) {
                    let m = choose|m: int| 0 <= m < before.len() && before[m].0 == k;
                    assert(after[m].0 == k);
                }
            }
        } else {
            assert(after == before);
            assert forall|j: int| 0 <= j < after.len() implies {
                &&& (#[trigger] after[j]).1.ms_played == key_listened::<T>(items, after[j].0)
                &&& after[j].1.play_count == key_plays::<T>(items, after[j].0)
            } by {
                assert(before[j].1.ms_played == key_listened::<T>(rest, before[j].0));
            }
            assert forall|k: Seq<char>| !has_key(after, k) implies key_plays::<T>(items, k) == 0
                && key_listened::<T>(items, k) == 0 by {
                assert(!has_key(before, k));
            }
        }
    }
}

proof fn lemma_key_bounds<T: SpotifyData>(items: Seq<PlayedItem>, key: Seq<char>)
    ensures
        key_listened::<T>(items, key) <= listened::<T>(items),
        key_plays::<T>(items, key) <= plays::<T>(items),
    decreases items.len(),
{
    if items.len() > 0 {
        lemma_key_bounds::<T>(items.drop_last(), key);
    }
}

proof fn lemma_prefix_bounds<T: SpotifyData>(items: Seq<PlayedItem>, n: int)
    requires
        0 <= n <= items.len(),
    ensures
        listened::<T>(items.take(n)) <= listened::<T>(items),
        plays::<T>(items.take(n)) <= plays::<T>(items),
    decreases items.len(),
{
    if n == items.len() {
        assert(items.take(n) =~= items);
    } else {
        assert(items.drop_last().take(n) =~= items.take(n));
        lemma_prefix_bounds::<T>(items.drop_last(), n);
    }
}

/// Inserting by scanning from the end lands `x` at `pos`, the place after
/// the last element whose metric is at most that of `x`.
proof fn lemma_insert_by_at(s: Seq<Tally>, x: Tally, by: SortSpotifyDataBy, pos: int)
    requires
        0 <= pos <= s.len(),
        forall|i: int| pos <= i < s.len() ==> metric(#[trigger] s[i], by) > metric(x, by),
        pos > 0 ==> metric(s[pos - 1], by) <= metric(x, by),
    ensures
        insert_by(s, x, by) == s.insert(pos, x),
    decreases s.len(),
{
    if s.len() == 0 {
        assert(s.insert(pos, x) =~= seq![x]);
    } else if metric(s.last(), by) <= metric(x, by) {
        assert(s.insert(pos, x) =~= s.push(x));
    } else {
        lemma_insert_by_at(s.drop_last(), x, by, pos);
        assert(s.drop_last().insert(pos, x).push(s.last()) =~= s.insert(pos, x));
    }
}

proof fn lemma_insert_by_contents(s: Seq<Tally>, x: Tally, by: SortSpotifyDataBy)
    ensures
        insert_by(s, x, by).to_multiset() == s.to_multiset().insert(x),
        insert_by(s, x, by).len() == s.len() + 1,
        ascending(s, by) ==> ascending(insert_by(s, x, by), by),
    decreases s.len(),
{
    broadcast use vstd::seq_lib::group_to_multiset_ensures;

    if s.len() == 0 {
        assert(seq![x] =~= Seq::<Tally>::empty().push(x));
    } else if metric(s.last(), by) <= metric(x, by) {
    } else {
        let rest = s.drop_last();
        lemma_insert_by_contents(rest, x, by);
        assert(s =~= rest.push(s.last()));
        assert(s.to_multiset() == rest.to_multiset().insert(s.last()));
        assert(rest.to_multiset().insert(x).insert(s.last()) =~= rest.to_multiset().insert(
            s.last(),
        ).insert(x));
        if ascending(s, by) {
            let ins = insert_by(rest, x, by);
            assert forall|i: int| 0 <= i < ins.len() implies metric(#[trigger] ins[i], by)
                <= metric(s.last(), by) by {
                assert(ins.to_multiset().count(ins[i]) > 0);
                if ins[i] != x {
                    assert(rest.to_multiset().count(ins[i]) > 0);
                    let k = choose|k: int| 0 <= k < rest.len() && rest[k] == ins[i];
                    assert(s[k] == ins[i]);
                }
            }
        }
    }
}

proof fn lemma_sort_contents(s: Seq<Tally>, by: SortSpotifyDataBy)
    ensures
        sort_by_metric(s, by).to_multiset() == s.to_multiset(),
        sort_by_metric(s, by).len() == s.len(),
        ascending(sort_by_metric(s, by), by),
    decreases s.len(),
{
    broadcast use vstd::seq_lib::group_to_multiset_ensures;

    if s.len() > 0 {
        lemma_sort_contents(s.drop_last(), by);
        lemma_insert_by_contents(sort_by_metric(s.drop_last(), by), s.last(), by);
        assert(s =~= s.drop_last().push(s.last()));
    }
}


/// The sum of the chosen metric over the summaries of `s`.
pub open spec fn metric_sum(s: Seq<Tally>, by: SortSpotifyDataBy) -> nat
    decreases s.len(),
{
    if s.len() == 0 {
        0
    } else {
        metric_sum(s.drop_last(), by) + metric(s.last(), by)
    }
}

/// What the records of `items` aggregated for `T` add up to in the chosen
/// metric: their number, or their milliseconds.
pub open spec fn accounted<T: SpotifyData>(items: Seq<PlayedItem>, by: SortSpotifyDataBy) -> nat {
    match by {
        SortSpotifyDataBy::TotalListenTime => listened::<T>(items),
        SortSpotifyDataBy::PlayCount => plays::<T>(items),
    }
}

proof fn lemma_metric_sum_concat(a: Seq<Tally>, b: Seq<Tally>, by: SortSpotifyDataBy)
    ensures
        metric_sum(a + b, by) == metric_sum(a, by) + metric_sum(b, by),
    decreases b.len(),
{
    if b.len() == 0 {
        assert(a + b =~= a);
    } else {
        assert((a + b).drop_last() =~= a + b.drop_last());
        lemma_metric_sum_concat(a, b.drop_last(), by);
    }
}

proof fn lemma_metric_sum_update(s: Seq<Tally>, i: int, x: Tally, by: SortSpotifyDataBy)
    requires
        0 <= i < s.len(),
    ensures
        metric_sum(s.update(i, x), by) + metric(s[i], by) == metric_sum(s, by) + metric(x, by),
    decreases s.len(),
{
    if i == s.len() - 1 {
        assert(s.update(i, x).drop_last() =~= s.drop_last());
    } else {
        assert(s.update(i, x).drop_last() =~= s.drop_last().update(i, x));
        lemma_metric_sum_update(s.drop_last(), i, x, by);
    }
}

proof fn lemma_metric_sum_insert(s: Seq<Tally>, x: Tally, by: SortSpotifyDataBy, key: SortSpotifyDataBy)
    ensures
        metric_sum(insert_by(s, x, key), by) == metric_sum(s, by) + metric(x, by),
    decreases s.len(),
{
    if s.len() == 0 {
        assert(seq![x].drop_last() =~= s);
    } else if metric(s.last(), key) <= metric(x, key) {
        assert(s.push(x).drop_last() =~= s);
    } else {
        let ins = insert_by(s.drop_last(), x, key);
        assert(ins.push(s.last()).drop_last() =~= ins);
        lemma_metric_sum_insert(s.drop_last(), x, by, key);
    }
}

proof fn lemma_metric_sum_ranked(s: Seq<Tally>, by: SortSpotifyDataBy, key: SortSpotifyDataBy, descending: bool)
    ensures
        metric_sum(ranked(s, key, descending), by) == metric_sum(s, by),
    decreases s.len(),
{
    if s.len() > 0 {
        lemma_metric_sum_ranked(s.drop_last(), by, key, false);
        lemma_metric_sum_insert(sort_by_metric(s.drop_last(), key), s.last(), by, key);
    }
    if descending {
        lemma_metric_sum_reverse(sort_by_metric(s, key), by);
    }
}

proof fn lemma_metric_sum_reverse(s: Seq<Tally>, by: SortSpotifyDataBy)
    ensures
        metric_sum(s.reverse(), by) == metric_sum(s, by),
    decreases s.len(),
{
    if s.len() > 0 {
        let d = s.drop_last();
        assert(s.reverse() =~= seq![s.last()] + d.reverse());
        lemma_metric_sum_concat(seq![s.last()], d.reverse(), by);
        lemma_metric_sum_reverse(d, by);
        assert(seq![s.last()].drop_last() =~= Seq::<Tally>::empty());
        assert(metric_sum(seq![s.last()], by) == metric_sum(Seq::<Tally>::empty(), by) + metric(
            s.last(),
            by,
        ));
    }
}

proof fn lemma_summaries_sum<T: SpotifyData>(items: Seq<PlayedItem>, by: SortSpotifyDataBy)
    ensures
        metric_sum(summaries::<T>(items), by) == accounted::<T>(items, by),
    decreases items.len(),
{
    if items.len() > 0 {
        let rest = items.drop_last();
        let p = items.last();
        lemma_summaries_sum::<T>(rest, by);
        let before = tally::<T>(rest);
        let kp = T::key_of(p);
        if qualifies::<T>(p) {
            if has_key(before, kp) {
                let i = choose|i: int| 0 <= i < before.len() && before[i].0 == kp;
                let x = tally::<T>(items)[i].1;
                lemma_tally_totals::<T>(rest);
                assert(tally::<T>(items).len() == before.len());
                assert forall|k: int| 0 <= k < before.len() && k != i implies tally::<T>(items)[k]
                    == before[k] by {
                    assert(before[k].0 != kp);
                }
                assert(tally::<T>(items) =~= before.update(i, tally::<T>(items)[i]));
                assert(x.ms_played == before[i].1.ms_played + played_ms(p));
                assert(x.play_count == before[i].1.play_count + 1);
                assert(summaries::<T>(rest)[i] == before[i].1);
                assert(summaries::<T>(items) =~= summaries::<T>(rest).update(i, x));
                lemma_metric_sum_update(summaries::<T>(rest), i, x, by);
            } else {
                let x = tally::<T>(items)[before.len() as int].1;
                assert(summaries::<T>(items) =~= summaries::<T>(rest).push(x));
                assert(summaries::<T>(rest).push(x).drop_last() =~= summaries::<T>(rest));
            }
        } else {
            assert(summaries::<T>(items) =~= summaries::<T>(rest));
        }
    }
}

/// Aggregation loses and invents no play and no millisecond: over the
/// summaries it returns, the play counts add up to the number of records
/// that the kind counts and that carry a duration, and the listening times
/// add up to their durations.
pub proof fn lemma_totals_conserved<T: SpotifyData>(
    items: Seq<PlayedItem>,
    sort_by: SortSpotifyDataBy,
    sort_descending: bool,
)
    ensures
        metric_sum(aggregated::<T>(items, sort_by, sort_descending), SortSpotifyDataBy::PlayCount)
            == plays::<T>(items),
        metric_sum(
            aggregated::<T>(items, sort_by, sort_descending),
            SortSpotifyDataBy::TotalListenTime,
        ) == listened::<T>(items),
{
    lemma_metric_sum_ranked(summaries::<T>(items), SortSpotifyDataBy::PlayCount, sort_by, sort_descending);
    lemma_metric_sum_ranked(summaries::<T>(items), SortSpotifyDataBy::TotalListenTime, sort_by, sort_descending);
    lemma_summaries_sum::<T>(items, SortSpotifyDataBy::PlayCount);
    lemma_summaries_sum::<T>(items, SortSpotifyDataBy::TotalListenTime);
}


/// Each summary that aggregation returns stands for one key of the records
/// that the kind counts: there is one summary per distinct key, and each
/// holds exactly the summed durations and the number of the records mapped
/// to its key.
pub proof fn lemma_summaries_by_key<T: SpotifyData>(
    items: Seq<PlayedItem>,
    sort_by: SortSpotifyDataBy,
    sort_descending: bool,
)
    ensures
        aggregated::<T>(items, sort_by, sort_descending).len() == tally::<T>(items).len(),
        keys_distinct(tally::<T>(items)),
        forall|i: int|
            0 <= i < aggregated::<T>(items, sort_by, sort_descending).len() ==> exists|j: int|
                0 <= j < tally::<T>(items).len() && #[trigger] tally::<T>(items)[j].1
                    == #[trigger] aggregated::<T>(items, sort_by, sort_descending)[i]
                    && aggregated::<T>(items, sort_by, sort_descending)[i].ms_played
                    == key_listened::<T>(items, tally::<T>(items)[j].0)
                    && aggregated::<T>(items, sort_by, sort_descending)[i].play_count
                    == key_plays::<T>(items, tally::<T>(items)[j].0),
{
    broadcast use vstd::seq_lib::group_to_multiset_ensures;

    let sums = summaries::<T>(items);
    let agg = aggregated::<T>(items, sort_by, sort_descending);
    lemma_tally_totals::<T>(items);
    lemma_sort_contents(sums, sort_by);
    sort_by_metric(sums, sort_by).lemma_reverse_to_multiset();
    assert(agg.to_multiset() == sums.to_multiset());
    assert forall|i: int| 0 <= i < agg.len() implies exists|j: int|
        0 <= j < tally::<T>(items).len() && #[trigger] tally::<T>(items)[j].1 == #[trigger] agg[i]
            && agg[i].ms_played == key_listened::<T>(items, tally::<T>(items)[j].0)
            && agg[i].play_count == key_plays::<T>(items, tally::<T>(items)[j].0) by {
        assert(agg.to_multiset().count(agg[i]) > 0);
        assert(sums.contains(agg[i]));
        let j = choose|j: int| 0 <= j < sums.len() && sums[j] == agg[i];
        assert(tally::<T>(items)[j].1 == agg[i]);
    }
}

/// Aggregation depends on nothing but its arguments: two runs over the same
/// records with the same ranking return the same summaries in the same order.
pub proof fn lemma_aggregation_repeatable<T: SpotifyData>(
    items: Seq<PlayedItem>,
    sort_by: SortSpotifyDataBy,
    sort_descending: bool,
    first: Seq<T>,
    second: Seq<T>,
)
    requires
        tallies(first) == aggregated::<T>(items, sort_by, sort_descending),
        tallies(second) == aggregated::<T>(items, sort_by, sort_descending),
    ensures
        tallies(first) == tallies(second),
        first.len() == second.len(),
        forall|i: int|
            0 <= i < first.len() ==> (#[trigger] first[i]).ms_total() == second[i].ms_total()
                && first[i].play_total() == second[i].play_total(),
{
    assert(tallies(first).len() == first.len() && tallies(second).len() == second.len());
    assert forall|i: int| 0 <= i < first.len() implies (#[trigger] first[i]).ms_total()
        == second[i].ms_total() && first[i].play_total() == second[i].play_total() by {
        assert(tallies(first)[i] == tally_of(first[i]));
        assert(tallies(second)[i] == tally_of(second[i]));
    }
}

/// The descending ranking is exactly the ascending ranking read backwards,
/// ties included.
pub proof fn lemma_descending_reverses<T: SpotifyData>(
    items: Seq<PlayedItem>,
    sort_by: SortSpotifyDataBy,
)
    ensures
        aggregated::<T>(items, sort_by, true) == aggregated::<T>(items, sort_by, false).reverse(),
{
}

fn metric_value<T: SpotifyData>(t: &T, by: &SortSpotifyDataBy) -> (r: u64)
    ensures
        r == metric(tally_of(*t), *by),
{
    match by {
        SortSpotifyDataBy::TotalListenTime => t.get_ms_played(),
        SortSpotifyDataBy::PlayCount => t.get_play_count() as u64,
    }
}

/// One stable insertion step of the ranking sort.
fn insert_ranked<T: SpotifyData>(sorted: &mut Vec<T>, x: T, by: &SortSpotifyDataBy)
    ensures
        tallies(final(sorted)@) == insert_by(tallies(old(sorted)@), tally_of(x), *by),
{
    let ghost before = tallies(sorted@);
    let m = metric_value(&x, by);
    let mut pos: usize = sorted.len();
    while pos > 0 && metric_value(&sorted[pos - 1], by) > m
        invariant
            pos <= sorted@.len(),
            before == tallies(sorted@),
            m == metric(tally_of(x), *by),
            forall|i: int| pos <= i < before.len() ==> metric(#[trigger] before[i], *by) > m,
        decreases pos,
    {
        pos = pos - 1;
    }
    proof {
        lemma_insert_by_at(before, tally_of(x), *by, pos as int);
    }
    sorted.insert(pos, x);
    assert(tallies(sorted@) =~= before.insert(pos as int, tally_of(x)));
}

fn find_key(keys: &Vec<String>, key: &String) -> (r: Option<usize>)
    ensures
        match r {
            Some(j) => j < keys@.len() && keys@[j as int]@ == key@,
            None => forall|j: int| 0 <= j < keys@.len() ==> keys@[j]@ != key@,
        },
{
    let mut j: usize = 0;
    while j < keys.len()
        invariant
            j <= keys@.len(),
            forall|i: int| 0 <= i < j ==> keys@[i]@ != key@,
        decreases keys@.len() - j,
    {
        if keys[j] == *key {
            return Some(j);
        }
        j += 1;
    }
    None
}


/// Aggregates the records of `all_played_items` for the kind `T`: one summary
/// per key, holding the time and plays of every record that `T` counts and
/// that carries a duration, ranked ascending by `sort_by` (equal metrics keep
/// the order in which their keys first occur) and reversed when
/// `sort_descending` holds. Records that do not qualify are skipped.
pub fn get_aggregated_data<T: Clone + SpotifyData>(
    all_played_items: &[PlayedItem],
    sort_by: SortSpotifyDataBy,
    sort_descending: bool,
) -> (r: Vec<T>)
    requires
        listened::<T>(all_played_items@) <= u64::MAX,
        plays::<T>(all_played_items@) <= u32::MAX,
    ensures
        tallies(r@) == aggregated::<T>(all_played_items@, sort_by, sort_descending),
        !sort_descending ==> ascending(tallies(r@), sort_by),
        sort_descending ==> descending_order(tallies(r@), sort_by),
{
    let ghost items = all_played_items@;
    let mut keys: Vec<String> = Vec::new();
    let mut entries: Vec<T> = Vec::new();
    let mut i: usize = 0;
    while i < all_played_items.len()
        invariant
            i <= items.len(),
            all_played_items@ == items,
            listened::<T>(items) <= u64::MAX,
            plays::<T>(items) <= u32::MAX,
            keys@.len() == entries@.len(),
            keys@.len() == tally::<T>(items.take(i as int)).len(),
            forall|j: int|
                0 <= j < keys@.len() ==> (#[trigger] keys@[j])@ == tally::<T>(
                    items.take(i as int),
                )[j].0,
            tallies(entries@) == summaries::<T>(items.take(i as int)),
        decreases items.len() - i,
    {
        let played_item = &all_played_items[i];
        let ghost prefix = items.take(i as int);
        let ghost next = items.take(i + 1);
        let ghost before = tally::<T>(prefix);
        proof {
            assert(next.drop_last() =~= prefix);
            assert(next.last() == *played_item);
            lemma_tally_totals::<T>(prefix);
            lemma_tally_totals::<T>(next);
            lemma_prefix_bounds::<T>(items, i + 1);
            lemma_key_bounds::<T>(next, T::key_of(*played_item));
        }
        if T::played_item_is_valid_for_aggregation(played_item) {
            if let Some(ms_played) = played_item.ms_played {
                let key = T::get_key_from_track_info(played_item);
                let ghost after = tally::<T>(next);
                match find_key(&keys, &key) {
                    Some(j) => {
                        proof {
                            assert(before[j as int].0 == key@);
                            assert(has_key(before, key@));
                            let c = choose|c: int| 0 <= c < before.len() && before[c].0 == key@;
                            assert(c == j);
                            assert(tallies(entries@)[j as int] == summaries::<T>(prefix)[j as int]);
                            assert(tally_of(entries@[j as int]) == before[j as int].1);
                        }
                        let ghost old_entries = entries@;
                        entries[j].add_time_to_ms_played(&ms_played);
                        entries[j].increment_play_count();
                        proof {
                            assert(after == before.update(j as int, after[j as int]));
                            assert(entries@ == old_entries.update(j as int, entries@[j as int]));
                            assert(tallies(old_entries) == summaries::<T>(prefix));
                            assert forall|k: int| 0 <= k < entries@.len() implies #[trigger] tallies(entries@)[k]
                                == summaries::<T>(next)[k] by {
                                if k != j {
                                    assert(tallies(old_entries)[k] == summaries::<T>(prefix)[k]);
                                }
                            }
                            assert(tallies(entries@) =~= summaries::<T>(next));
                        }
                    },
                    None => {
                        proof {
                            assert forall|c: int| 0 <= c < before.len() implies before[c].0
                                != key@ by {
                                assert(keys@[c]@ == before[c].0);
                            }
                            assert(!has_key(before, key@));
                        }
                        let ghost old_entries = entries@;
                        let mut fresh = T::from_track_info(played_item);
                        fresh.add_time_to_ms_played(&ms_played);
                        fresh.increment_play_count();
                        keys.push(key);
                        entries.push(fresh);
                        proof {
                            assert(tallies(old_entries) == summaries::<T>(prefix));
                            assert(entries@ == old_entries.push(fresh));
                            assert forall|k: int| 0 <= k < entries@.len() implies #[trigger] tallies(entries@)[k]
                                == summaries::<T>(next)[k] by {
                                if k < old_entries.len() {
                                    assert(tallies(old_entries)[k] == summaries::<T>(prefix)[k]);
                                }
                            }
                            assert(tallies(entries@) =~= summaries::<T>(next));
                        }
                    },
                }
            }
        }
        i += 1;
    }
    proof {
        assert(items.take(items.len() as int) =~= items);
    }
    let ghost unsorted = entries@;
    let mut sorted: Vec<T> = Vec::new();
    for t in it: entries.into_iter()
        invariant
            it.seq() == unsorted,
            tallies(sorted@) == sort_by_metric(tallies(unsorted.take(it.index() as int)), sort_by),
    {
        proof {
            assert(tallies(unsorted.take(it.index() + 1)).drop_last() =~= tallies(
                unsorted.take(it.index() as int),
            ));
        }
        insert_ranked(&mut sorted, t, &sort_by);
    }
    proof {
        assert(unsorted.take(unsorted.len() as int) =~= unsorted);
        lemma_sort_contents(tallies(unsorted), sort_by);
    }
    if sort_descending {
        let ghost asc = sorted@;
        let mut reversed: Vec<T> = Vec::new();
        while sorted.len() > 0
            invariant
                sorted@ == asc.take(sorted@.len() as int),
                reversed@.len() + sorted@.len() == asc.len(),
                forall|k: int|
                    0 <= k < reversed@.len() ==> #[trigger] reversed@[k] == asc[asc.len() - 1 - k],
            decreases sorted@.len(),
        {
            if let Some(x) = sorted.pop() {
                reversed.push(x);
            }
        }
        proof {
            assert(tallies(reversed@) =~= tallies(asc).reverse());
        }
        reversed
    } else {
        sorted
    }
}


/// Whether the totals of aggregating `all_played_items` for `T` fit the
/// summaries' counters: the durations in a `u64`, the plays in a `u32`.
pub fn aggregation_fits<T: SpotifyData>(all_played_items: &[PlayedItem]) -> (r: bool)
    ensures
        r == (listened::<T>(all_played_items@) <= u64::MAX && plays::<T>(all_played_items@)
            <= u32::MAX),
{
    let ghost items = all_played_items@;
    let mut ms: u64 = 0;
    let mut count: u32 = 0;
    let mut i: usize = 0;
    while i < all_played_items.len()
        invariant
            i <= items.len(),
            all_played_items@ == items,
            ms == listened::<T>(items.take(i as int)),
            count == plays::<T>(items.take(i as int)),
        decreases items.len() - i,
    {
        let played_item = &all_played_items[i];
        proof {
            assert(items.take(i + 1).drop_last() =~= items.take(i as int));
            lemma_prefix_bounds::<T>(items, i + 1);
        }
        if T::played_item_is_valid_for_aggregation(played_item) {
            if let Some(ms_played) = played_item.ms_played {
                if ms_played > u64::MAX - ms || count == u32::MAX {
                    return false;
                }
                ms = ms + ms_played;
                count = count + 1;
            }
        }
        i += 1;
    }
    proof {
        assert(items.take(items.len() as int) =~= items);
    }
    true
}

} // verus!
