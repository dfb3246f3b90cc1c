use vstd::prelude::*;

verus! {

/// One playback event of a listening-history export. Every field is optional:
/// an export routinely holds partial records (ads, local files, incognito
/// sessions), and no consumer may assume any field is present.
#[derive(Clone, Debug)]
pub struct PlayedItem {
    pub conn_country: Option<String>,
    pub episode_name: Option<String>,
    pub episode_show_name: Option<String>,
    pub incognito_mode: Option<bool>,
    pub ip_addr_decrypted: Option<String>,
    pub master_metadata_album_album_name: Option<String>,
    pub master_metadata_album_artist_name: Option<String>,
    pub master_metadata_track_name: Option<String>,
    pub ms_played: Option<u64>,
    pub offline: Option<bool>,
    pub offline_timestamp: Option<u64>,
    pub platform: Option<String>,
    pub reason_end: Option<String>,
    pub reason_start: Option<String>,
    pub shuffle: Option<bool>,
    pub skipped: Option<bool>,
    pub spotify_episode_uri: Option<String>,
    pub spotify_track_uri: Option<String>,
    pub ts: Option<String>,
    pub user_agent_decrypted: Option<String>,
    pub username: Option<String>,
}


fn copy_text(field: &Option<String>) -> (r: Option<String>)
    ensures
        r == *field,
{
    match field {
        Some(s) => Some(s.clone()),
        None => None,
    }
}

impl PlayedItem {
    /// A copy of this record, field for field.
    pub fn duplicate(&self) -> (r: PlayedItem)
        ensures
            r == *self,
    {
        PlayedItem {
            conn_country: copy_text(&self.conn_country),
            episode_name: copy_text(&self.episode_name),
            episode_show_name: copy_text(&self.episode_show_name),
            incognito_mode: self.incognito_mode,
            ip_addr_decrypted: copy_text(&self.ip_addr_decrypted),
            master_metadata_album_album_name: copy_text(&self.master_metadata_album_album_name),
            master_metadata_album_artist_name: copy_text(&self.master_metadata_album_artist_name),
            master_metadata_track_name: copy_text(&self.master_metadata_track_name),
            ms_played: self.ms_played,
            offline: self.offline,
            offline_timestamp: self.offline_timestamp,
            platform: copy_text(&self.platform),
            reason_end: copy_text(&self.reason_end),
            reason_start: copy_text(&self.reason_start),
            shuffle: self.shuffle,
            skipped: self.skipped,
            spotify_episode_uri: copy_text(&self.spotify_episode_uri),
            spotify_track_uri: copy_text(&self.spotify_track_uri),
            ts: copy_text(&self.ts),
            user_agent_decrypted: copy_text(&self.user_agent_decrypted),
            username: copy_text(&self.username),
        }
    }
}

} // verus!
