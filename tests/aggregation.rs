use spotify_history::{
    aggregation_fits, get_aggregated_data, AlbumData, ArtistData, EpisodeData, PlayedItem,
    PodcastData, SongData, SortSpotifyDataBy,
};

fn blank() -> PlayedItem {
    PlayedItem {
        conn_country: None,
        episode_name: None,
        episode_show_name: None,
        incognito_mode: None,
        ip_addr_decrypted: None,
        master_metadata_album_album_name: None,
        master_metadata_album_artist_name: None,
        master_metadata_track_name: None,
        ms_played: None,
        offline: None,
        offline_timestamp: None,
        platform: None,
        reason_end: None,
        reason_start: None,
        shuffle: None,
        skipped: None,
        spotify_episode_uri: None,
        spotify_track_uri: None,
        ts: None,
        user_agent_decrypted: None,
        username: None,
    }
}

fn song(uri: &str, track: &str, artist: &str, album: &str, ms: u64) -> PlayedItem {
    let mut p = blank();
    p.spotify_track_uri = Some(uri.to_string());
    p.master_metadata_track_name = Some(track.to_string());
    p.master_metadata_album_artist_name = Some(artist.to_string());
    p.master_metadata_album_album_name = Some(album.to_string());
    p.ms_played = Some(ms);
    p
}

fn episode(uri: &str, name: &str, show: &str, ms: u64) -> PlayedItem {
    let mut p = blank();
    p.spotify_episode_uri = Some(uri.to_string());
    p.episode_name = Some(name.to_string());
    p.episode_show_name = Some(show.to_string());
    p.ms_played = Some(ms);
    p
}

fn song_totals(r: &[SongData]) -> Vec<(String, u64, u32)> {
    r.iter().map(|s| (s.track_name.clone(), s.ms_played, s.play_count)).collect()
}

#[test]
fn three_records_ranked_by_listen_time() {
    let items = vec![
        song("uri:a", "A", "X", "Y", 100),
        song("uri:b", "B", "X", "Y", 50),
        song("uri:a", "A", "X", "Y", 200),
    ];
    let r: Vec<SongData> = get_aggregated_data(&items, SortSpotifyDataBy::TotalListenTime, true);
    assert_eq!(
        song_totals(&r),
        vec![("A".to_string(), 300, 2), ("B".to_string(), 50, 1)]
    );
}

#[test]
fn missing_album_counts_only_toward_artist() {
    let mut p = song("uri:a", "A", "X", "Y", 100);
    p.master_metadata_album_album_name = None;
    let items = vec![p];
    let songs: Vec<SongData> = get_aggregated_data(&items, SortSpotifyDataBy::PlayCount, true);
    let albums: Vec<AlbumData> = get_aggregated_data(&items, SortSpotifyDataBy::PlayCount, true);
    let artists: Vec<ArtistData> = get_aggregated_data(&items, SortSpotifyDataBy::PlayCount, true);
    assert!(songs.is_empty());
    assert!(albums.is_empty());
    assert_eq!(artists.len(), 1);
    assert_eq!(artists[0].artist_name, "X");
    assert_eq!(artists[0].ms_played, 100);
    assert_eq!(artists[0].play_count, 1);
}

#[test]
fn no_qualifying_records_gives_empty_result() {
    let items = vec![song("uri:a", "A", "X", "Y", 100), blank()];
    let shows: Vec<PodcastData> = get_aggregated_data(&items, SortSpotifyDataBy::TotalListenTime, false);
    assert!(shows.is_empty());
    let none: Vec<SongData> = get_aggregated_data(&[], SortSpotifyDataBy::PlayCount, true);
    assert!(none.is_empty());
}

#[test]
fn record_without_duration_is_skipped() {
    let mut p = song("uri:a", "A", "X", "Y", 0);
    p.ms_played = None;
    let items = vec![p, song("uri:a", "A", "X", "Y", 40)];
    let r: Vec<SongData> = get_aggregated_data(&items, SortSpotifyDataBy::PlayCount, false);
    assert_eq!(song_totals(&r), vec![("A".to_string(), 40, 1)]);
}

#[test]
fn play_counts_add_up_to_qualifying_records() {
    let mut no_time = song("uri:c", "C", "X", "Y", 0);
    no_time.ms_played = None;
    let items = vec![
        song("uri:a", "A", "X", "Y", 10),
        song("uri:b", "B", "X", "Z", 20),
        song("uri:a", "A", "X", "Y", 30),
        no_time,
        blank(),
        song("uri:c", "C", "W", "Z", 40),
    ];
    let r: Vec<SongData> = get_aggregated_data(&items, SortSpotifyDataBy::PlayCount, true);
    let plays: u32 = r.iter().map(|s| s.play_count).sum();
    let ms: u64 = r.iter().map(|s| s.ms_played).sum();
    assert_eq!(plays, 4);
    assert_eq!(ms, 100);
}

#[test]
fn durations_are_summed_per_key() {
    let items = vec![
        song("uri:a", "A", "X", "Y", 10),
        song("uri:b", "B", "X", "Y", 5),
        song("uri:a", "A", "X", "Y", 30),
        song("uri:a", "A", "X", "Y", 7),
    ];
    let r: Vec<SongData> = get_aggregated_data(&items, SortSpotifyDataBy::TotalListenTime, false);
    assert_eq!(
        song_totals(&r),
        vec![("B".to_string(), 5, 1), ("A".to_string(), 47, 3)]
    );
}

#[test]
fn aggregating_twice_gives_same_totals() {
    let items = vec![
        song("uri:a", "A", "X", "Y", 10),
        song("uri:b", "B", "X", "Y", 10),
        song("uri:c", "C", "X", "Y", 3),
        song("uri:a", "A", "X", "Y", 1),
    ];
    let first: Vec<SongData> = get_aggregated_data(&items, SortSpotifyDataBy::TotalListenTime, true);
    let second: Vec<SongData> = get_aggregated_data(&items, SortSpotifyDataBy::TotalListenTime, true);
    assert_eq!(song_totals(&first), song_totals(&second));
}

#[test]
fn ascending_and_descending_orders() {
    let items = vec![
        song("uri:a", "A", "X", "Y", 10),
        song("uri:b", "B", "X", "Y", 500),
        song("uri:c", "C", "X", "Y", 3),
        song("uri:a", "A", "X", "Y", 1),
        song("uri:c", "C", "X", "Y", 3),
        song("uri:c", "C", "X", "Y", 3),
    ];
    let up: Vec<SongData> = get_aggregated_data(&items, SortSpotifyDataBy::PlayCount, false);
    for w in up.windows(2) {
        assert!(w[0].play_count <= w[1].play_count);
    }
    let down: Vec<SongData> = get_aggregated_data(&items, SortSpotifyDataBy::TotalListenTime, true);
    for w in down.windows(2) {
        assert!(w[0].ms_played >= w[1].ms_played);
    }
    assert_eq!(
        song_totals(&down),
        vec![("B".to_string(), 500, 1), ("A".to_string(), 11, 2), ("C".to_string(), 9, 3)]
    );
}

#[test]
fn descending_is_reversed_ascending_including_ties() {
    let items = vec![
        song("uri:a", "A", "X", "Y", 10),
        song("uri:b", "B", "X", "Y", 10),
        song("uri:c", "C", "X", "Y", 10),
        song("uri:d", "D", "X", "Y", 2),
    ];
    let up: Vec<SongData> = get_aggregated_data(&items, SortSpotifyDataBy::TotalListenTime, false);
    let down: Vec<SongData> = get_aggregated_data(&items, SortSpotifyDataBy::TotalListenTime, true);
    let mut reversed = song_totals(&up);
    reversed.reverse();
    assert_eq!(song_totals(&down), reversed);
    let names: Vec<String> = up.iter().map(|s| s.track_name.clone()).collect();
    assert_eq!(names, vec!["D", "A", "B", "C"]);
}

#[test]
fn song_without_track_uri_is_keyed_by_name() {
    let mut p = song("", "A", "X", "Y", 5);
    p.spotify_track_uri = None;
    let mut q = song("", "A", "X", "Y", 6);
    q.spotify_track_uri = None;
    let r: Vec<SongData> = get_aggregated_data(&[p, q], SortSpotifyDataBy::PlayCount, true);
    assert_eq!(song_totals(&r), vec![("A".to_string(), 11, 2)]);
}

#[test]
fn albums_are_keyed_by_album_and_artist() {
    let items = vec![
        song("uri:a", "A", "X", "Same", 10),
        song("uri:b", "B", "Z", "Same", 20),
        song("uri:c", "C", "X", "Same", 5),
    ];
    let r: Vec<AlbumData> = get_aggregated_data(&items, SortSpotifyDataBy::TotalListenTime, true);
    let got: Vec<(String, String, u64, u32)> = r
        .iter()
        .map(|a| (a.album_name.clone(), a.artist_name.clone(), a.ms_played, a.play_count))
        .collect();
    assert_eq!(
        got,
        vec![
            ("Same".to_string(), "Z".to_string(), 20, 1),
            ("Same".to_string(), "X".to_string(), 15, 2)
        ]
    );
}

#[test]
fn artists_merge_across_songs() {
    let items = vec![
        song("uri:a", "A", "X", "Y", 10),
        song("uri:b", "B", "X", "Z", 20),
        song("uri:c", "C", "W", "Z", 5),
    ];
    let r: Vec<ArtistData> = get_aggregated_data(&items, SortSpotifyDataBy::PlayCount, true);
    let got: Vec<(String, u64, u32)> = r
        .iter()
        .map(|a| (a.artist_name.clone(), a.ms_played, a.play_count))
        .collect();
    assert_eq!(got, vec![("X".to_string(), 30, 2), ("W".to_string(), 5, 1)]);
}

#[test]
fn episodes_and_shows() {
    let mut no_name = episode("uri:e3", "E3", "S", 99);
    no_name.episode_name = None;
    let items = vec![
        episode("uri:e1", "E1", "S", 10),
        episode("uri:e2", "E2", "S", 20),
        episode("uri:e1", "E1", "S", 30),
        episode("uri:f1", "F1", "T", 5),
        no_name,
        song("uri:a", "A", "X", "Y", 1000),
    ];
    let eps: Vec<EpisodeData> = get_aggregated_data(&items, SortSpotifyDataBy::TotalListenTime, true);
    let got: Vec<(String, String, u64, u32)> = eps
        .iter()
        .map(|e| (e.episode_name.clone(), e.podcast_name.clone(), e.ms_played, e.play_count))
        .collect();
    assert_eq!(
        got,
        vec![
            ("E1".to_string(), "S".to_string(), 40, 2),
            ("E2".to_string(), "S".to_string(), 20, 1),
            ("F1".to_string(), "T".to_string(), 5, 1)
        ]
    );
    let shows: Vec<PodcastData> = get_aggregated_data(&items, SortSpotifyDataBy::PlayCount, false);
    let got: Vec<(String, u64, u32)> = shows
        .iter()
        .map(|s| (s.podcast_name.clone(), s.ms_played, s.play_count))
        .collect();
    assert_eq!(got, vec![("T".to_string(), 5, 1), ("S".to_string(), 60, 3)]);
}

#[test]
fn aggregation_fits_detects_overflow() {
    let items = vec![song("uri:a", "A", "X", "Y", u64::MAX), song("uri:b", "B", "X", "Y", 1)];
    assert!(!aggregation_fits::<SongData>(&items));
    assert!(aggregation_fits::<SongData>(&items[..1]));
    assert!(aggregation_fits::<PodcastData>(&items));
}
