use vstd::prelude::*;
use chrono::{DateTime, Utc};
use crate::filters::kept;
use crate::record::PlayedItem;

verus! {

/// A point in time: whole seconds since the Unix epoch, and the nanoseconds
/// past that second.
#[derive(Clone, Copy, Debug, PartialEq, Eq, Structural)]
pub struct Timestamp {
    pub secs: i64,
    pub nanos: u32,
}

/// Whether `a` is not later than `b`.
pub open spec fn not_after(a: Timestamp, b: Timestamp) -> bool {
    a.secs < b.secs || (a.secs == b.secs && a.nanos <= b.nanos)
}

/// The instant a timestamp text denotes (seconds and nanoseconds), or `None`
/// where it does not parse.
pub uninterp spec fn parsed_instant(text: Seq<char>) -> Option<(i64, u32)>;

/// Relies on chrono's `str::parse::<DateTime<Utc>>` (a relaxed RFC 3339
/// reading, which depends on the text alone) and on `DateTime::timestamp`
/// and `DateTime::timestamp_subsec_nanos` to read the instant back.
#[verifier::external_body]
fn parse_timestamp(text: &str) -> (r: Option<Timestamp>)
    ensures
        match r {
            Some(t) => parsed_instant(text@) == Some((t.secs, t.nanos)),
            None => parsed_instant(text@) is None,
        },
{
    match text.parse::<DateTime<Utc>>() {
        Ok(dt) => Some(Timestamp { secs: dt.timestamp(), nanos: dt.timestamp_subsec_nanos() }),
        Err(_) => None,
    }
}

/// The instant of a record, where it has a timestamp that parses.
pub open spec fn instant_of(item: PlayedItem) -> Option<Timestamp> {
    match item.ts {
        Some(ts) => match parsed_instant(ts@) {
            Some((secs, nanos)) => Some(Timestamp { secs, nanos }),
            None => None,
        },
        None => None,
    }
}

/// Whether a record's instant lies within `start..=end`.
pub open spec fn played_between(item: PlayedItem, start: Timestamp, end: Timestamp) -> bool {
    match instant_of(item) {
        Some(t) => not_after(start, t) && not_after(t, end),
        None => false,
    }
}

fn instant_of_item(item: &PlayedItem) -> (r: Option<Timestamp>)
    ensures
        r == instant_of(*item),
{
    match &item.ts {
        Some(ts) => parse_timestamp(ts.as_str()),
        None => None,
    }
}

fn is_not_after(a: Timestamp, b: Timestamp) -> (r: bool)
    ensures
        r == not_after(a, b),
{
    a.secs < b.secs || (a.secs == b.secs && a.nanos <= b.nanos)
}

/// The earliest and the latest instant among the records whose timestamp
/// parses; both `None` where no record has one.
pub fn get_min_and_max_dates_from_played_items(all_played_items: &[PlayedItem]) -> (r: (
    Option<Timestamp>,
    Option<Timestamp>,
))
    ensures
        r.0 is None <==> forall|i: int|
            0 <= i < all_played_items@.len() ==> instant_of(#[trigger] all_played_items@[i]) is None,
        r.1 is None <==> r.0 is None,
        r.0 matches Some(min) ==> {
            &&& exists|i: int|
                0 <= i < all_played_items@.len() && instant_of(#[trigger] all_played_items@[i])
                    == Some(min)
            &&& forall|i: int|
                0 <= i < all_played_items@.len() && instant_of(#[trigger] all_played_items@[i])
                    is Some ==> not_after(min, instant_of(all_played_items@[i])->0)
        },
        r.1 matches Some(max) ==> {
            &&& exists|i: int|
                0 <= i < all_played_items@.len() && instant_of(#[trigger] all_played_items@[i])
                    == Some(max)
            &&& forall|i: int|
                0 <= i < all_played_items@.len() && instant_of(#[trigger] all_played_items@[i])
                    is Some ==> not_after(instant_of(all_played_items@[i])->0, max)
        },
{
    let ghost items = all_played_items@;
    let mut min_date: Option<Timestamp> = None;
    let mut max_date: Option<Timestamp> = None;
    let mut i: usize = 0;
    while i < all_played_items.len()
        invariant
            i <= items.len(),
            all_played_items@ == items,
            min_date is None <==> forall|k: int| 0 <= k < i ==> instant_of(#[trigger] items[k]) is None,
            max_date is None <==> min_date is None,
            min_date matches Some(min) ==> {
                &&& exists|k: int| 0 <= k < i && instant_of(#[trigger] items[k]) == Some(min)
                &&& forall|k: int|
                    0 <= k < i && instant_of(#[trigger] items[k]) is Some ==> not_after(
                        min,
                        instant_of(items[k])->0,
                    )
            },
            max_date matches Some(max) ==> {
                &&& exists|k: int| 0 <= k < i && instant_of(#[trigger] items[k]) == Some(max)
                &&& forall|k: int|
                    0 <= k < i && instant_of(#[trigger] items[k]) is Some ==> not_after(
                        instant_of(items[k])->0,
                        max,
                    )
            },
        decreases items.len() - i,
    {
        if let Some(t) = instant_of_item(&all_played_items[i]) {
            match (min_date, max_date) {
                (Some(min), Some(max)) => {
                    if !is_not_after(min, t) {
                        min_date = Some(t);
                    }
                    if !is_not_after(t, max) {
                        max_date = Some(t);
                    }
                },
                _ => {
                    min_date = Some(t);
                    max_date = Some(t);
                },
            }
        }
        i += 1;
    }
    (min_date, max_date)
}

/// The records whose timestamp parses to an instant within
/// `start_date..=end_date`, in input order. Records without a
/// timestamp, or with one that does not parse, are dropped.
pub fn get_played_items_between_dates(
    all_played_items: &[PlayedItem],
    start_date: Timestamp,
    end_date: Timestamp,
) -> (r: Vec<PlayedItem>)
    ensures
        r@ == kept(all_played_items@, |p: PlayedItem| played_between(p, start_date, end_date)),
{
    let ghost items = all_played_items@;
    let mut in_range: Vec<PlayedItem> = Vec::new();
    let mut i: usize = 0;
    while i < all_played_items.len()
        invariant
            i <= items.len(),
            all_played_items@ == items,
            in_range@ == kept(
                items.take(i as int),
                |p: PlayedItem| played_between(p, start_date, end_date),
            ),
        decreases items.len() - i,
    {
        let item = &all_played_items[i];
        proof {
            assert(items.take(i + 1).drop_last() =~= items.take(i as int));
        }
        if let Some(t) = instant_of_item(item) {
            if is_not_after(start_date, t) && is_not_after(t, end_date) {
                in_range.push(item.duplicate());
            }
        }
        i += 1;
    }
    proof {
        assert(items.take(items.len() as int) =~= items);
    }
    in_range
}

} // verus!
