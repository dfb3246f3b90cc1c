use vstd::prelude::*;
use vstd::string::StringExecFns;
use crate::aggregate::SpotifyData;
use crate::listen_time::{decimal, get_total_listen_time_from_ms, listen_time_text, push_decimal};
use crate::record::PlayedItem;

verus! {

/// The characters of an optional field, empty when it is absent.
pub open spec fn text(field: Option<String>) -> Seq<char> {
    match field {
        Some(s) => s@,
        None => Seq::empty(),
    }
}

/// The characters of `first`, or of `second` when `first` is absent.
pub open spec fn text_or(first: Option<String>, second: Option<String>) -> Seq<char> {
    match first {
        Some(s) => s@,
        None => text(second),
    }
}

fn text_of(field: &Option<String>) -> (r: String)
    ensures
        r@ == text(*field),
{
    match field {
        Some(s) => s.clone(),
        None => String::new(),
    }
}

fn text_or_of(first: &Option<String>, second: &Option<String>) -> (r: String)
    ensures
        r@ == text_or(*first, *second),
{
    match first {
        Some(s) => s.clone(),
        None => text_of(second),
    }
}

pub open spec fn has_song_fields(item: PlayedItem) -> bool {
    &&& item.master_metadata_album_album_name is Some
    &&& item.master_metadata_album_artist_name is Some
    &&& item.master_metadata_track_name is Some
}

pub open spec fn has_episode_fields(item: PlayedItem) -> bool {
    item.episode_show_name is Some && item.episode_name is Some
}

fn song_fields_present(item: &PlayedItem) -> (r: bool)
    ensures
        r == has_song_fields(*item),
{
    item.master_metadata_album_album_name.is_some()
        && item.master_metadata_album_artist_name.is_some()
        && item.master_metadata_track_name.is_some()
}

fn episode_fields_present(item: &PlayedItem) -> (r: bool)
    ensures
        r == has_episode_fields(*item),
{
    item.episode_show_name.is_some() && item.episode_name.is_some()
}

/// The totals of one song.
#[derive(Clone, Debug)]
pub struct SongData {
    pub album_name: String,
    pub artist_name: String,
    pub track_name: String,
    pub ms_played: u64,
    pub play_count: u32,
}

impl SpotifyData for SongData {
    /// A song play names its album, artist and track.
    open spec fn counts(item: PlayedItem) -> bool {
        has_song_fields(item)
    }

    /// A song is keyed by its track identifier, or by its track name where the
    /// record has no identifier.
    open spec fn key_of(item: PlayedItem) -> Seq<char> {
        text_or(item.spotify_track_uri, item.master_metadata_track_name)
    }

    open spec fn label_of(item: PlayedItem) -> Seq<Seq<char>> {
        if has_song_fields(item) {
            seq![
                text(item.master_metadata_album_album_name),
                text(item.master_metadata_album_artist_name),
                text(item.master_metadata_track_name),
            ]
        } else {
            seq![Seq::empty(), Seq::empty(), Seq::empty()]
        }
    }

    open spec fn label(&self) -> Seq<Seq<char>> {
        seq![self.album_name@, self.artist_name@, self.track_name@]
    }

    open spec fn ms_total(&self) -> nat {
        self.ms_played as nat
    }

    open spec fn play_total(&self) -> nat {
        self.play_count as nat
    }

    fn from_track_info(played_item: &PlayedItem) -> (r: Self) {
        if song_fields_present(played_item) {
            SongData {
                album_name: text_of(&played_item.master_metadata_album_album_name),
                artist_name: text_of(&played_item.master_metadata_album_artist_name),
                track_name: text_of(&played_item.master_metadata_track_name),
                ms_played: 0,
                play_count: 0,
            }
        } else {
            SongData {
                album_name: String::new(),
                artist_name: String::new(),
                track_name: String::new(),
                ms_played: 0,
                play_count: 0,
            }
        }
    }

    fn add_time_to_ms_played(&mut self, new_ms_played: &u64) {
        self.ms_played = self.ms_played + *new_ms_played;
    }

    fn increment_play_count(&mut self) {
        self.play_count = self.play_count + 1;
    }

    fn get_key_from_track_info(played_item: &PlayedItem) -> (r: String) {
        text_or_of(&played_item.spotify_track_uri, &played_item.master_metadata_track_name)
    }

    fn get_ms_played(&self) -> (r: u64) {
        self.ms_played
    }

    fn get_play_count(&self) -> (r: u32) {
        self.play_count
    }

    fn played_item_is_valid_for_aggregation(played_item: &PlayedItem) -> (r: bool) {
        song_fields_present(played_item)
    }
}


/// The characters that join an album and its artist in an album's key.
pub open spec fn by_word() -> Seq<char> {
    seq![' ', 'b', 'y', ' ']
}

/// The totals of one album.
#[derive(Clone, Debug)]
pub struct AlbumData {
    pub album_name: String,
    pub artist_name: String,
    pub ms_played: u64,
    pub play_count: u32,
}

impl SpotifyData for AlbumData {
    /// An album play names its album, artist and track.
    open spec fn counts(item: PlayedItem) -> bool {
        has_song_fields(item)
    }

    /// An album is keyed by "<album> by <artist>".
    open spec fn key_of(item: PlayedItem) -> Seq<char> {
        if item.master_metadata_album_album_name is Some
            && item.master_metadata_album_artist_name is Some {
            text(item.master_metadata_album_album_name) + by_word() + text(
                item.master_metadata_album_artist_name,
            )
        } else {
            Seq::empty()
        }
    }

    open spec fn label_of(item: PlayedItem) -> Seq<Seq<char>> {
        if item.master_metadata_album_album_name is Some
            && item.master_metadata_album_artist_name is Some {
            seq![
                text(item.master_metadata_album_album_name),
                text(item.master_metadata_album_artist_name),
            ]
        } else {
            seq![Seq::empty(), Seq::empty()]
        }
    }

    open spec fn label(&self) -> Seq<Seq<char>> {
        seq![self.album_name@, self.artist_name@]
    }

    open spec fn ms_total(&self) -> nat {
        self.ms_played as nat
    }

    open spec fn play_total(&self) -> nat {
        self.play_count as nat
    }

    fn from_track_info(played_item: &PlayedItem) -> (r: Self) {
        match (
            &played_item.master_metadata_album_album_name,
            &played_item.master_metadata_album_artist_name,
        ) {
            (Some(album_name), Some(artist_name)) => AlbumData {
                album_name: album_name.clone(),
                artist_name: artist_name.clone(),
                ms_played: 0,
                play_count: 0,
            },
            _ => AlbumData {
                album_name: String::new(),
                artist_name: String::new(),
                ms_played: 0,
                play_count: 0,
            },
        }
    }

    fn add_time_to_ms_played(&mut self, new_ms_played: &u64) {
        self.ms_played = self.ms_played + *new_ms_played;
    }

    fn increment_play_count(&mut self) {
        self.play_count = self.play_count + 1;
    }

    fn get_key_from_track_info(played_item: &PlayedItem) -> (r: String) {
        match (
            &played_item.master_metadata_album_album_name,
            &played_item.master_metadata_album_artist_name,
        ) {
            (Some(album_name), Some(artist_name)) => {
                proof {
                    reveal_strlit(" by ");
                }
                album_name.clone().concat(" by ").concat(artist_name.as_str())
            },
            _ => String::new(),
        }
    }

    fn get_ms_played(&self) -> (r: u64) {
        self.ms_played
    }

    fn get_play_count(&self) -> (r: u32) {
        self.play_count
    }

    fn played_item_is_valid_for_aggregation(played_item: &PlayedItem) -> (r: bool) {
        song_fields_present(played_item)
    }
}

/// The totals of one artist.
#[derive(Clone, Debug)]
pub struct ArtistData {
    pub artist_name: String,
    pub ms_played: u64,
    pub play_count: u32,
}

impl SpotifyData for ArtistData {
    /// An artist play names its artist; the album and track may be absent.
    open spec fn counts(item: PlayedItem) -> bool {
        item.master_metadata_album_artist_name is Some
    }

    /// An artist is keyed by its name.
    open spec fn key_of(item: PlayedItem) -> Seq<char> {
        text(item.master_metadata_album_artist_name)
    }

    open spec fn label_of(item: PlayedItem) -> Seq<Seq<char>> {
        seq![text(item.master_metadata_album_artist_name)]
    }

    open spec fn label(&self) -> Seq<Seq<char>> {
        seq![self.artist_name@]
    }

    open spec fn ms_total(&self) -> nat {
        self.ms_played as nat
    }

    open spec fn play_total(&self) -> nat {
        self.play_count as nat
    }

    fn from_track_info(played_item: &PlayedItem) -> (r: Self) {
        ArtistData {
            artist_name: text_of(&played_item.master_metadata_album_artist_name),
            ms_played: 0,
            play_count: 0,
        }
    }

    fn add_time_to_ms_played(&mut self, new_ms_played: &u64) {
        self.ms_played = self.ms_played + *new_ms_played;
    }

    fn increment_play_count(&mut self) {
        self.play_count = self.play_count + 1;
    }

    fn get_key_from_track_info(played_item: &PlayedItem) -> (r: String) {
        text_of(&played_item.master_metadata_album_artist_name)
    }

    fn get_ms_played(&self) -> (r: u64) {
        self.ms_played
    }

    fn get_play_count(&self) -> (r: u32) {
        self.play_count
    }

    fn played_item_is_valid_for_aggregation(played_item: &PlayedItem) -> (r: bool) {
        played_item.master_metadata_album_artist_name.is_some()
    }
}

/// The totals of one podcast episode.
#[derive(Clone, Debug)]
pub struct EpisodeData {
    pub episode_name: String,
    pub podcast_name: String,
    pub ms_played: u64,
    pub play_count: u32,
}

impl SpotifyData for EpisodeData {
    /// An episode play names its show and its episode.
    open spec fn counts(item: PlayedItem) -> bool {
        has_episode_fields(item)
    }

    /// An episode is keyed by its episode identifier, or by its episode name
    /// where the record has no identifier.
    open spec fn key_of(item: PlayedItem) -> Seq<char> {
        text_or(item.spotify_episode_uri, item.episode_name)
    }

    open spec fn label_of(item: PlayedItem) -> Seq<Seq<char>> {
        if has_episode_fields(item) {
            seq![text(item.episode_name), text(item.episode_show_name)]
        } else {
            seq![Seq::empty(), Seq::empty()]
        }
    }

    open spec fn label(&self) -> Seq<Seq<char>> {
        seq![self.episode_name@, self.podcast_name@]
    }

    open spec fn ms_total(&self) -> nat {
        self.ms_played as nat
    }

    open spec fn play_total(&self) -> nat {
        self.play_count as nat
    }

    fn from_track_info(played_item: &PlayedItem) -> (r: Self) {
        if episode_fields_present(played_item) {
            EpisodeData {
                episode_name: text_of(&played_item.episode_name),
                podcast_name: text_of(&played_item.episode_show_name),
                ms_played: 0,
                play_count: 0,
            }
        } else {
            EpisodeData {
                episode_name: String::new(),
                podcast_name: String::new(),
                ms_played: 0,
                play_count: 0,
            }
        }
    }

    fn add_time_to_ms_played(&mut self, new_ms_played: &u64) {
        self.ms_played = self.ms_played + *new_ms_played;
    }

    fn increment_play_count(&mut self) {
        self.play_count = self.play_count + 1;
    }

    fn get_key_from_track_info(played_item: &PlayedItem) -> (r: String) {
        text_or_of(&played_item.spotify_episode_uri, &played_item.episode_name)
    }

    fn get_ms_played(&self) -> (r: u64) {
        self.ms_played
    }

    fn get_play_count(&self) -> (r: u32) {
        self.play_count
    }

    fn played_item_is_valid_for_aggregation(played_item: &PlayedItem) -> (r: bool) {
        episode_fields_present(played_item)
    }
}

/// The totals of one podcast show.
#[derive(Clone, Debug)]
pub struct PodcastData {
    pub podcast_name: String,
    pub ms_played: u64,
    pub play_count: u32,
}

impl SpotifyData for PodcastData {
    /// A show play names its show and its episode.
    open spec fn counts(item: PlayedItem) -> bool {
        has_episode_fields(item)
    }

    /// A show is keyed by its name.
    open spec fn key_of(item: PlayedItem) -> Seq<char> {
        text(item.episode_show_name)
    }

    open spec fn label_of(item: PlayedItem) -> Seq<Seq<char>> {
        seq![text(item.episode_show_name)]
    }

    open spec fn label(&self) -> Seq<Seq<char>> {
        seq![self.podcast_name@]
    }

    open spec fn ms_total(&self) -> nat {
        self.ms_played as nat
    }

    open spec fn play_total(&self) -> nat {
        self.play_count as nat
    }

    fn from_track_info(played_item: &PlayedItem) -> (r: Self) {
        PodcastData {
            podcast_name: text_of(&played_item.episode_show_name),
            ms_played: 0,
            play_count: 0,
        }
    }

    fn add_time_to_ms_played(&mut self, new_ms_played: &u64) {
        self.ms_played = self.ms_played + *new_ms_played;
    }

    fn increment_play_count(&mut self) {
        self.play_count = self.play_count + 1;
    }

    fn get_key_from_track_info(played_item: &PlayedItem) -> (r: String) {
        text_of(&played_item.episode_show_name)
    }

    fn get_ms_played(&self) -> (r: u64) {
        self.ms_played
    }

    fn get_play_count(&self) -> (r: u32) {
        self.play_count
    }

    fn played_item_is_valid_for_aggregation(played_item: &PlayedItem) -> (r: bool) {
        episode_fields_present(played_item)
    }
}


/// The lines shared by every summary's rendering: its play count and its
/// total listening time.
pub open spec fn totals_text(play_count: u32, ms_played: u64) -> Seq<char> {
    "Play Count: "@ + decimal(play_count as nat) + "\nPlayed For: "@ + listen_time_text(
        ms_played as nat,
    ) + "\n"@
}

fn push_totals(s: &mut String, play_count: u32, ms_played: u64)
    ensures
        final(s)@ == old(s)@ + totals_text(play_count, ms_played),
{
    s.append("Play Count: ");
    push_decimal(s, play_count as u64);
    s.append("\nPlayed For: ");
    let time = get_total_listen_time_from_ms(ms_played);
    s.append(time.as_str());
    s.append("\n");
    assert(final(s)@ =~= old(s)@ + totals_text(play_count, ms_played));
}

impl SongData {
    /// Renders the song, its artist and album, its play count and its total
    /// listening time, one per line.
    pub fn to_string(&self) -> (r: String)
        ensures
            r@ == self.track_name@ + " by "@ + self.artist_name@ + "\nAlbum: "@
                + self.album_name@ + "\n"@ + totals_text(self.play_count, self.ms_played),
    {
        let mut s = self.track_name.clone();
        s.append(" by ");
        s.append(self.artist_name.as_str());
        s.append("\nAlbum: ");
        s.append(self.album_name.as_str());
        s.append("\n");
        push_totals(&mut s, self.play_count, self.ms_played);
        s
    }
}

impl AlbumData {
    /// Renders the album and its artist, its play count and its total
    /// listening time, one per line.
    pub fn to_string(&self) -> (r: String)
        ensures
            r@ == self.album_name@ + " by "@ + self.artist_name@ + "\n"@ + totals_text(
                self.play_count,
                self.ms_played,
            ),
    {
        let mut s = self.album_name.clone();
        s.append(" by ");
        s.append(self.artist_name.as_str());
        s.append("\n");
        push_totals(&mut s, self.play_count, self.ms_played);
        s
    }
}

impl ArtistData {
    /// Renders the artist, its play count and its total listening time, one
    /// per line.
    pub fn to_string(&self) -> (r: String)
        ensures
            r@ == self.artist_name@ + "\n"@ + totals_text(self.play_count, self.ms_played),
    {
        let mut s = self.artist_name.clone();
        s.append("\n");
        push_totals(&mut s, self.play_count, self.ms_played);
        s
    }
}

impl EpisodeData {
    /// Renders the episode and its show, its play count and its total
    /// listening time, one per line.
    pub fn to_string(&self) -> (r: String)
        ensures
            r@ == "Episode: "@ + self.episode_name@ + "\nPodcast: "@ + self.podcast_name@ + "\n"@
                + totals_text(self.play_count, self.ms_played),
    {
        let mut s = String::new();
        s.append("Episode: ");
        s.append(self.episode_name.as_str());
        s.append("\nPodcast: ");
        s.append(self.podcast_name.as_str());
        s.append("\n");
        push_totals(&mut s, self.play_count, self.ms_played);
        s
    }
}

impl PodcastData {
    /// Renders the show, its play count and its total listening time, one per
    /// line.
    pub fn to_string(&self) -> (r: String)
        ensures
            r@ == "Podcast: "@ + self.podcast_name@ + "\n"@ + totals_text(
                self.play_count,
                self.ms_played,
            ),
    {
        let mut s = String::new();
        s.append("Podcast: ");
        s.append(self.podcast_name.as_str());
        s.append("\n");
        push_totals(&mut s, self.play_count, self.ms_played);
        s
    }
}

} // verus!
