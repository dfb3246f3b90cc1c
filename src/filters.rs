use vstd::prelude::*;
use crate::record::PlayedItem;

verus! {

/// The records of `items`, in order, for which `keep` holds.
pub open spec fn kept(items: Seq<PlayedItem>, keep: spec_fn(PlayedItem) -> bool) -> Seq<PlayedItem>
    decreases items.len(),
{
    if items.len() == 0 {
        Seq::empty()
    } else {
        let prefix = kept(items.drop_last(), keep);
        if keep(items.last()) {
            prefix.push(items.last())
        } else {
            prefix
        }
    }
}

/// A record is a track play when it carries a track identifier.
pub open spec fn is_song(item: PlayedItem) -> bool {
    item.spotify_track_uri is Some
}

/// A record is a podcast play when it carries an episode identifier.
pub open spec fn is_podcast(item: PlayedItem) -> bool {
    item.spotify_episode_uri is Some
}

/// Keeps the track plays of `all_played_items`, in input order.
pub fn get_songs(all_played_items: Vec<PlayedItem>) -> (r: Vec<PlayedItem>)
    ensures
        r@ == kept(all_played_items@, |p: PlayedItem| is_song(p)),
{
    let ghost items = all_played_items@;
    let mut all_song_items: Vec<PlayedItem> = Vec::new();
    for single_song_item in it: all_played_items.into_iter()
        invariant
            it.seq() == items,
            all_song_items@ == kept(items.take(it.index() as int), |p: PlayedItem| is_song(p)),
    {
        proof {
            assert(items.take(it.index() + 1).drop_last() == items.take(it.index() as int));
        }
        if single_song_item.spotify_track_uri.is_some() {
            all_song_items.push(single_song_item);
        }
    }
    proof {
        assert(items.take(items.len() as int) == items);
    }
    all_song_items
}

/// Keeps the podcast plays of `all_played_items`, in input order.
pub fn get_podcasts(all_played_items: Vec<PlayedItem>) -> (r: Vec<PlayedItem>)
    ensures
        r@ == kept(all_played_items@, |p: PlayedItem| is_podcast(p)),
{
    let ghost items = all_played_items@;
    let mut all_podcast_items: Vec<PlayedItem> = Vec::new();
    for single_podcast_item in it: all_played_items.into_iter()
        invariant
            it.seq() == items,
            all_podcast_items@ == kept(items.take(it.index() as int), |p: PlayedItem| is_podcast(p)),
    {
        proof {
            assert(items.take(it.index() + 1).drop_last() == items.take(it.index() as int));
        }
        if single_podcast_item.spotify_episode_uri.is_some() {
            all_podcast_items.push(single_podcast_item);
        }
    }
    proof {
        assert(items.take(items.len() as int) == items);
    }
    all_podcast_items
}

} // verus!
