//! The playlist document an upstream catalog hands over, as plain
//! values, and the extraction of the canonical tracks from it. The
//! document arrives as JSON; whoever parses it fills these structs and
//! hands them in.

use vstd::prelude::*;

use crate::items::{item_id, SearchItem};

verus! {

#[derive(Debug, Clone)]
pub struct RootStructTracksItemsItemTrackAlbumExternalUrls {
    pub spotify: Option<String>,
}

#[derive(Debug, Clone)]
pub struct RootStructTracksItemsItemTrackExternalUrls {
    pub spotify: Option<String>,
}

#[derive(Debug, Clone)]
pub struct RootStructExternalUrls {
    pub spotify: Option<String>,
}

#[derive(Debug, Clone)]
pub struct RootStructTracksItemsItemTrackAlbumArtistsItemExternalUrls {
    pub spotify: Option<String>,
}

#[derive(Debug, Clone)]
pub struct RootStructOwnerExternalUrls {
    pub spotify: Option<String>,
}

#[derive(Debug, Clone)]
pub struct RootStructTracksItemsItemAddedByExternalUrls {
    pub spotify: Option<String>,
}

#[derive(Debug, Clone)]
pub struct RootStructTracksItemsItemTrackArtistsItemExternalUrls {
    pub spotify: Option<String>,
}

#[derive(Debug, Clone)]
pub struct RootStructOwner {
    pub display_name: Option<String>,
    pub external_urls: Option<RootStructOwnerExternalUrls>,
    pub href: Option<String>,
    pub id: Option<String>,
    pub type_: Option<String>,
    pub uri: Option<String>,
}

#[derive(Debug, Clone)]
pub struct RootStructImagesItem {
    pub height: Option<i64>,
    pub url: Option<String>,
    pub width: Option<i64>,
}

#[derive(Debug, Clone)]
pub struct RootStructTracksItemsItemTrackAlbumImagesItem {
    pub height: Option<i64>,
    pub url: Option<String>,
    pub width: Option<i64>,
}

#[derive(Debug, Clone)]
pub struct RootStructTracksItemsItemTrackAlbumArtistsItem {
    pub external_urls: Option<RootStructTracksItemsItemTrackAlbumArtistsItemExternalUrls>,
    pub href: Option<String>,
    pub id: Option<String>,
    pub name: Option<String>,
    pub type_: Option<String>,
    pub uri: Option<String>,
}

#[derive(Debug, Clone)]
pub struct RootStructTracksItemsItemTrackArtistsItem {
    pub external_urls: Option<RootStructTracksItemsItemTrackArtistsItemExternalUrls>,
    pub href: Option<String>,
    pub id: Option<String>,
    pub name: Option<String>,
    pub type_: Option<String>,
    pub uri: Option<String>,
}

#[derive(Debug, Clone)]
pub struct RootStructTracksItemsItemTrackAlbum {
    pub album_type: Option<String>,
    pub artists: Option<Vec<RootStructTracksItemsItemTrackAlbumArtistsItem>>,
    pub available_markets: Option<Vec<String>>,
    pub external_urls: Option<RootStructTracksItemsItemTrackAlbumExternalUrls>,
    pub href: Option<String>,
    pub id: Option<String>,
    pub images: Option<Vec<RootStructTracksItemsItemTrackAlbumImagesItem>>,
    pub name: Option<String>,
    pub release_date: Option<String>,
    pub release_date_precision: Option<String>,
    pub total_tracks: Option<i64>,
    pub type_: Option<String>,
    pub uri: Option<String>,
}

#[derive(Debug, Clone)]
pub struct RootStructTracksItemsItemTrackExternalIds {
    pub isrc: Option<String>,
}

#[derive(Debug, Clone)]
pub struct RootStructTracksItemsItemAddedBy {
    pub external_urls: Option<RootStructTracksItemsItemAddedByExternalUrls>,
    pub href: Option<String>,
    pub id: Option<String>,
    pub type_: Option<String>,
    pub uri: Option<String>,
}

#[derive(Debug, Clone)]
pub struct RootStructTracksItemsItemTrack {
    pub album: Option<RootStructTracksItemsItemTrackAlbum>,
    pub artists: Option<Vec<RootStructTracksItemsItemTrackArtistsItem>>,
    pub available_markets: Option<Vec<String>>,
    pub disc_number: Option<i64>,
    pub duration_ms: Option<i64>,
    pub episode: Option<bool>,
    pub explicit: Option<bool>,
    pub external_ids: Option<RootStructTracksItemsItemTrackExternalIds>,
    pub external_urls: Option<RootStructTracksItemsItemTrackExternalUrls>,
    pub href: Option<String>,
    pub id: Option<String>,
    pub is_local: Option<bool>,
    pub name: Option<String>,
    pub popularity: Option<i64>,
    pub track: Option<bool>,
    pub track_number: Option<i64>,
    pub type_: Option<String>,
    pub uri: Option<String>,
}

#[derive(Debug, Clone)]
pub struct RootStructTracksItemsItem {
    pub added_at: Option<String>,
    pub added_by: Option<RootStructTracksItemsItemAddedBy>,
    pub is_local: Option<bool>,
    pub track: Option<RootStructTracksItemsItemTrack>,
}

#[derive(Debug, Clone)]
pub struct RootStructTracks {
    pub href: Option<String>,
    pub items: Option<Vec<RootStructTracksItemsItem>>,
    pub limit: Option<i64>,
    pub offset: Option<i64>,
    pub total: Option<i64>,
}

#[derive(Debug, Clone)]
pub struct RootStruct {
    pub collaborative: Option<bool>,
    pub description: Option<String>,
    pub external_urls: Option<RootStructExternalUrls>,
    pub href: Option<String>,
    pub id: Option<String>,
    pub images: Option<Vec<RootStructImagesItem>>,
    pub name: Option<String>,
    pub owner: Option<RootStructOwner>,
    pub public: Option<bool>,
    pub snapshot_id: Option<String>,
    pub tracks: Option<RootStructTracks>,
    pub type_: Option<String>,
    pub uri: Option<String>,
}

/// The playlist document is the whole root object.
pub type Playlist = RootStruct;

/// One playlist entry holds everything the extraction reads: a track
/// with a name, at least one named artist, and a named album.
pub open spec fn entry_extractable(entry: RootStructTracksItemsItem) -> bool {
    &&& entry.track is Some
    &&& entry.track.unwrap().name is Some
    &&& entry.track.unwrap().artists is Some
    &&& entry.track.unwrap().artists.unwrap()@.len() > 0
    &&& entry.track.unwrap().artists.unwrap()@[0].name is Some
    &&& entry.track.unwrap().album is Some
    &&& entry.track.unwrap().album.unwrap().name is Some
}

/// The playlist holds a track list whose every entry is extractable.
pub open spec fn playlist_extractable(p: Playlist) -> bool {
    &&& p.tracks is Some
    &&& p.tracks.unwrap().items is Some
    &&& forall|i: int|
        0 <= i < p.tracks.unwrap().items.unwrap()@.len() ==> entry_extractable(
            #[trigger] p.tracks.unwrap().items.unwrap()@[i],
        )
}

/// The canonical track an extractable entry denotes.
pub open spec fn entry_item(entry: RootStructTracksItemsItem) -> (Seq<char>, Seq<char>, Seq<
    char,
>) {
    let tr = entry.track.unwrap();
    (tr.name.unwrap()@, tr.album.unwrap().name.unwrap()@, tr.artists.unwrap()@[0].name.unwrap()@)
}

/// Extract the canonical tracks from a playlist document: one per
/// entry, in order, each with the entry's track name, album name and
/// first artist name, and the deterministic id over those.
pub fn search_items_from_playlist(p: &Playlist) -> (r: Vec<SearchItem>)
    requires
        playlist_extractable(*p),
    ensures
        r@.len() == p.tracks.unwrap().items.unwrap()@.len(),
        forall|i: int|
            0 <= i < r@.len() ==> {
                let names = entry_item(p.tracks.unwrap().items.unwrap()@[i]);
                &&& (#[trigger] r@[i]).track@ == names.0
                &&& r@[i].album@ == names.1
                &&& r@[i].artist@ == names.2
                &&& r@[i].id == item_id(names.0, names.1, names.2)
            },
{
    let mut out: Vec<SearchItem> = Vec::new();
    let items = match &p.tracks {
        Some(tracks) => match &tracks.items {
            Some(items) => items,
            None => {
                proof {
                    assert(false);
                }
                return out;
            },
        },
        None => {
            proof {
                assert(false);
            }
            return out;
        },
    };
    let mut i: usize = 0;
    while i < items.len()
        invariant
            playlist_extractable(*p),
            items@ == p.tracks.unwrap().items.unwrap()@,
            i <= items@.len(),
            out@.len() == i,
            forall|k: int|
                0 <= k < i ==> {
                    let names = entry_item(items@[k]);
                    &&& (#[trigger] out@[k]).track@ == names.0
                    &&& out@[k].album@ == names.1
                    &&& out@[k].artist@ == names.2
                    &&& out@[k].id == item_id(names.0, names.1, names.2)
                },
        decreases items@.len() - i,
    {
        proof {
            assert(entry_extractable(items@[i as int]));
        }
        let entry = &items[i];
        let item = match &entry.track {
            Some(tr) => {
                let name = match &tr.name {
                    Some(n) => n.clone(),
                    None => {
                        proof {
                            assert(false);
                        }
                        String::new()
                    },
                };
                let album = match &tr.album {
                    Some(al) => match &al.name {
                        Some(n) => n.clone(),
                        None => {
                            proof {
                                assert(false);
                            }
                            String::new()
                        },
                    },
                    None => {
                        proof {
                            assert(false);
                        }
                        String::new()
                    },
                };
                let artist = match &tr.artists {
                    Some(artists) => {
                        if artists.len() > 0 {
                            match &artists[0].name {
                                Some(n) => n.clone(),
                                None => {
                                    proof {
                                        assert(false);
                                    }
                                    String::new()
                                },
                            }
                        } else {
                            proof {
                                assert(false);
                            }
                            String::new()
                        }
                    },
                    None => {
                        proof {
                            assert(false);
                        }
                        String::new()
                    },
                };
                SearchItem::new(name, album, artist)
            },
            None => {
                proof {
                    assert(false);
                }
                SearchItem::new(String::new(), String::new(), String::new())
            },
        };
        out.push(item);
        i = i + 1;
    }
    out
}

/// Holds the playlist reference a parsing pass works on.
#[derive(Debug, Clone)]
pub struct ParseManager {
    pub query_playlist: String,
}

impl ParseManager {
    pub fn new(query_playlist: String) -> (r: ParseManager)
        ensures
            r.query_playlist == query_playlist,
    {
        ParseManager { query_playlist }
    }
}

/// Holds what a catalog query needs: the playlist to fetch and the
/// credentials of the catalog API. Both credentials must be present.
#[derive(Debug, Clone)]
pub struct QueryManager {
    pub playlist_url: String,
    pub client_id: String,
    pub client_secret: String,
}

impl QueryManager {
    pub fn new(playlist_url: String, client_id: Option<String>, client_secret: Option<String>) -> (r:
        QueryManager)
        requires
            client_id is Some,
            client_secret is Some,
        ensures
            r.playlist_url == playlist_url,
            r.client_id == client_id.unwrap(),
            r.client_secret == client_secret.unwrap(),
    {
        let client_id = match client_id {
            Some(v) => v,
            None => {
                proof {
                    assert(false);
                }
                String::new()
            },
        };
        let client_secret = match client_secret {
            Some(v) => v,
            None => {
                proof {
                    assert(false);
                }
                String::new()
            },
        };
        QueryManager { playlist_url, client_id, client_secret }
    }
}

} // verus!
