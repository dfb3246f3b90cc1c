//! Listening-history analysis: per-entity aggregation and ranking of playback
//! events, with the small helpers around it (category filters, date-range
//! filtering, duration formatting, shard file naming).
mod aggregate;
mod dates;
mod entities;
mod filters;
mod listen_time;
mod loading;
mod record;

pub use aggregate::{
    aggregation_fits, get_aggregated_data, lemma_aggregation_repeatable, lemma_descending_reverses,
    lemma_summaries_by_key, lemma_totals_conserved, SortSpotifyDataBy, SpotifyData, Tally,
};
pub use dates::{get_min_and_max_dates_from_played_items, get_played_items_between_dates, Timestamp};
pub use entities::{AlbumData, ArtistData, EpisodeData, PodcastData, SongData};
pub use filters::{get_podcasts, get_songs};
pub use listen_time::{get_total_listen_time_from_ms, push_decimal};
pub use loading::{shard_file_name, shard_listing, LoadError};
pub use record::PlayedItem;
