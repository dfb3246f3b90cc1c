use spotify_history::{
    get_total_listen_time_from_ms, push_decimal, shard_file_name, shard_listing, AlbumData,
    ArtistData, EpisodeData, LoadError, PodcastData, SongData,
};

#[test]
fn zero_milliseconds() {
    assert_eq!(get_total_listen_time_from_ms(0), "0ms");
}

#[test]
fn seconds_and_milliseconds() {
    assert_eq!(get_total_listen_time_from_ms(1500), "1s 500ms");
}

#[test]
fn minutes_lead_with_zero_tail() {
    assert_eq!(get_total_listen_time_from_ms(90_000), "1m 30s 0ms");
}

#[test]
fn one_week_shows_every_unit() {
    assert_eq!(get_total_listen_time_from_ms(604_800_000), "1w 0d 0h 0m 0s 0ms");
}

#[test]
fn mixed_units() {
    assert_eq!(get_total_listen_time_from_ms(90_061_001), "1d 1h 1m 1s 1ms");
    assert_eq!(get_total_listen_time_from_ms(3_600_000), "1h 0m 0s 0ms");
    assert_eq!(get_total_listen_time_from_ms(999), "999ms");
    assert_eq!(
        get_total_listen_time_from_ms(u64::MAX),
        "30500568904w 6d 14h 25m 51s 615ms"
    );
}

#[test]
fn decimal_digits() {
    let mut s = String::from("n=");
    push_decimal(&mut s, 1_234_567_890);
    assert_eq!(s, "n=1234567890");
    let mut z = String::new();
    push_decimal(&mut z, 0);
    assert_eq!(z, "0");
}

#[test]
fn shard_names() {
    assert_eq!(shard_file_name(0), "endsong_0.json");
    assert_eq!(shard_file_name(12), "endsong_12.json");
}

#[test]
fn no_shards_is_an_error() {
    assert_eq!(shard_listing(vec![]), Err(LoadError::NoDataFiles));
    let files = vec!["endsong_0.json".to_string()];
    assert_eq!(shard_listing(files.clone()), Ok(files));
}

#[test]
fn summary_rendering() {
    let s = SongData {
        album_name: "Al".to_string(),
        artist_name: "Ar".to_string(),
        track_name: "Tr".to_string(),
        ms_played: 1500,
        play_count: 3,
    };
    assert_eq!(s.to_string(), "Tr by Ar\nAlbum: Al\nPlay Count: 3\nPlayed For: 1s 500ms\n");
    let a = AlbumData {
        album_name: "Al".to_string(),
        artist_name: "Ar".to_string(),
        ms_played: 0,
        play_count: 1,
    };
    assert_eq!(a.to_string(), "Al by Ar\nPlay Count: 1\nPlayed For: 0ms\n");
    let r = ArtistData { artist_name: "Ar".to_string(), ms_played: 90_000, play_count: 12 };
    assert_eq!(r.to_string(), "Ar\nPlay Count: 12\nPlayed For: 1m 30s 0ms\n");
    let e = EpisodeData {
        episode_name: "Ep".to_string(),
        podcast_name: "Pod".to_string(),
        ms_played: 1000,
        play_count: 2,
    };
    assert_eq!(e.to_string(), "Episode: Ep\nPodcast: Pod\nPlay Count: 2\nPlayed For: 1s 0ms\n");
    let p = PodcastData { podcast_name: "Pod".to_string(), ms_played: 5, play_count: 0 };
    assert_eq!(p.to_string(), "Podcast: Pod\nPlay Count: 0\nPlayed For: 5ms\n");
}
