use spotify_history::{
    get_min_and_max_dates_from_played_items, get_played_items_between_dates, get_podcasts,
    get_songs, PlayedItem, Timestamp,
};

fn blank() -> PlayedItem {
    PlayedItem {
        conn_country: None,
        episode_name: None,
        episode_show_name: None,
        incognito_mode: None,
        ip_addr_decrypted: None,
        master_metadata_album_album_name: None,
        master_metadata_album_artist_name: None,
        master_metadata_track_name: None,
        ms_played: None,
        offline: None,
        offline_timestamp: None,
        platform: None,
        reason_end: None,
        reason_start: None,
        shuffle: None,
        skipped: None,
        spotify_episode_uri: None,
        spotify_track_uri: None,
        ts: None,
        user_agent_decrypted: None,
        username: None,
    }
}

fn at(ts: &str, ms: u64) -> PlayedItem {
    let mut p = blank();
    p.ts = Some(ts.to_string());
    p.ms_played = Some(ms);
    p
}

#[test]
fn songs_and_podcasts_are_told_apart() {
    let mut s1 = blank();
    s1.spotify_track_uri = Some("t1".to_string());
    let mut e1 = blank();
    e1.spotify_episode_uri = Some("e1".to_string());
    let mut s2 = blank();
    s2.spotify_track_uri = Some("t2".to_string());
    let items = vec![s1, e1, blank(), s2];
    let songs = get_songs(items.clone());
    let uris: Vec<Option<String>> = songs.iter().map(|p| p.spotify_track_uri.clone()).collect();
    assert_eq!(uris, vec![Some("t1".to_string()), Some("t2".to_string())]);
    let pods = get_podcasts(items);
    assert_eq!(pods.len(), 1);
    assert_eq!(pods[0].spotify_episode_uri.as_deref(), Some("e1"));
}

#[test]
fn dates_in_inclusive_range() {
    let items = vec![
        at("2021-01-01T00:00:00Z", 1),
        at("2021-06-15T12:30:00Z", 2),
        at("not a date", 3),
        blank(),
        at("2022-01-01T00:00:00Z", 4),
        at("2021-12-31T23:59:59Z", 5),
    ];
    let start = Timestamp { secs: 1_609_459_200, nanos: 0 };
    let end = Timestamp { secs: 1_640_995_199, nanos: 0 };
    let kept = get_played_items_between_dates(&items, start, end);
    let ms: Vec<Option<u64>> = kept.iter().map(|p| p.ms_played).collect();
    assert_eq!(ms, vec![Some(1), Some(2), Some(5)]);
}

#[test]
fn dates_with_offsets_are_read_as_instants() {
    let items = vec![at("2021-01-01T02:00:00+02:00", 7)];
    let start = Timestamp { secs: 1_609_459_200, nanos: 0 };
    let kept = get_played_items_between_dates(&items, start, start);
    assert_eq!(kept.len(), 1);
    let later = Timestamp { secs: 1_609_459_200, nanos: 1 };
    assert!(get_played_items_between_dates(&items, later, later).is_empty());
}

#[test]
fn earliest_and_latest_dates() {
    let items = vec![
        blank(),
        at("2021-06-15T12:30:00Z", 2),
        at("garbage", 3),
        at("2020-02-29T00:00:00.5Z", 1),
        at("2022-01-01T00:00:00Z", 4),
    ];
    let (min, max) = get_min_and_max_dates_from_played_items(&items);
    assert_eq!(min, Some(Timestamp { secs: 1_582_934_400, nanos: 500_000_000 }));
    assert_eq!(max, Some(Timestamp { secs: 1_640_995_200, nanos: 0 }));
}

#[test]
fn no_dates_gives_none() {
    let items = vec![blank(), at("soon", 1)];
    assert_eq!(get_min_and_max_dates_from_played_items(&items), (None, None));
    assert_eq!(get_min_and_max_dates_from_played_items(&[]), (None, None));
}
