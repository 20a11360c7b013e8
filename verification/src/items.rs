//! The canonical track, the peer-file candidate, and their pairing.

use vstd::prelude::*;

verus! {

use vstd::string::StrSliceExecFns;
use vstd::string::StringExecFns;
use vstd::string::StringSliceAdditionalSpecFns;

/// The FNV-1a 64-bit offset basis.
pub const FNV_OFFSET: u64 = 0xcbf29ce484222325;

/// The FNV-1a 64-bit prime.
pub const FNV_PRIME: u64 = 0x100000001b3;

/// The byte that separates the hashed fields. It can never occur inside
/// UTF-8 encoded text, so distinct field splits never collide on it.
pub const FIELD_SEPARATOR: u8 = 0xff;

/// One FNV-1a round: fold one byte into the accumulator.
pub open spec fn fnv_step(acc: u64, b: u8) -> u64 {
    (acc ^ (b as u64)).wrapping_mul(FNV_PRIME)
}

/// FNV-1a over a byte sequence, starting from `acc`.
pub open spec fn fnv1a(bytes: Seq<u8>, acc: u64) -> u64
    decreases bytes.len(),
{
    if bytes.len() == 0 {
        acc
    } else {
        fnv1a(bytes.drop_first(), fnv_step(acc, bytes.first()))
    }
}

/// The stable identity of a track: FNV-1a over the UTF-8 bytes of its
/// three fields, separated by a byte no UTF-8 text contains.
pub open spec fn item_id(track: Seq<char>, album: Seq<char>, artist: Seq<char>) -> u64 {
    let h1 = fnv_step(fnv1a(vstd::utf8::encode_utf8(track), FNV_OFFSET), FIELD_SEPARATOR);
    let h2 = fnv_step(fnv1a(vstd::utf8::encode_utf8(album), h1), FIELD_SEPARATOR);
    fnv1a(vstd::utf8::encode_utf8(artist), h2)
}

/// Fold a byte vector into an FNV-1a accumulator.
fn fnv_absorb(acc: u64, bytes: &Vec<u8>) -> (r: u64)
    ensures
        r == fnv1a(bytes@, acc),
{
    let mut value: u64 = acc;
    let mut i: usize = 0;
    proof {
        assert(bytes@.skip(0) =~= bytes@);
    }
    while i < bytes.len()
        invariant
            i <= bytes@.len(),
            fnv1a(bytes@.skip(i as int), value) == fnv1a(bytes@, acc),
        decreases bytes@.len() - i,
    {
        proof {
            assert(bytes@.skip(i as int).drop_first() =~= bytes@.skip(i + 1));
            assert(bytes@.skip(i as int).first() == bytes@[i as int]);
        }
        value = (value ^ (bytes[i] as u64)).wrapping_mul(FNV_PRIME);
        i = i + 1;
    }
    proof {
        assert(bytes@.skip(bytes@.len() as int) =~= Seq::<u8>::empty());
    }
    value
}

/// The canonical logical track: a stable id derived from the three text
/// fields, which never change after construction.
#[derive(Debug)]
pub struct SearchItem {
    pub id: u64,
    pub track: String,
    pub album: String,
    pub artist: String,
}

/// A `SearchItem` is well formed when its id is the hash of its fields.
pub open spec fn search_item_wf(item: SearchItem) -> bool {
    item.id == item_id(item.track@, item.album@, item.artist@)
}

impl SearchItem {
    /// Build a track with its deterministic id.
    pub fn new(track: String, album: String, artist: String) -> (r: SearchItem)
        ensures
            r.track == track,
            r.album == album,
            r.artist == artist,
            r.id == item_id(track@, album@, artist@),
            search_item_wf(r),
    {
        let track_bytes = track.as_str().as_bytes_vec();
        let album_bytes = album.as_str().as_bytes_vec();
        let artist_bytes = artist.as_str().as_bytes_vec();
        let h0 = fnv_absorb(FNV_OFFSET, &track_bytes);
        let h1 = (h0 ^ (FIELD_SEPARATOR as u64)).wrapping_mul(FNV_PRIME);
        let h2 = fnv_absorb(h1, &album_bytes);
        let h3 = (h2 ^ (FIELD_SEPARATOR as u64)).wrapping_mul(FNV_PRIME);
        let id = fnv_absorb(h3, &artist_bytes);
        SearchItem { id, track, album, artist }
    }
}

/// The canonical rendering of a track: `"{title} - {artist} - {album}"`.
pub open spec fn item_rendering(item: SearchItem) -> Seq<char> {
    item.track@ + " - "@ + item.artist@ + " - "@ + item.album@
}

impl SearchItem {
    /// Render the track the way the judges compare it against filenames.
    pub fn display_string(&self) -> (r: String)
        ensures
            r@ == item_rendering(*self),
    {
        self.track.clone().concat(" - ").concat(self.artist.as_str()).concat(" - ").concat(
            self.album.as_str(),
        )
    }
}

impl Clone for SearchItem {
    fn clone(&self) -> (r: Self)
        ensures
            r == *self,
    {
        SearchItem {
            id: self.id,
            track: self.track.clone(),
            album: self.album.clone(),
            artist: self.artist.clone(),
        }
    }
}

impl PartialEq for SearchItem {
    /// Tracks compare by their stable id, as the pipeline treats the id
    /// as the whole identity.
    fn eq(&self, other: &SearchItem) -> (r: bool) {
        self.id == other.id
    }
}

impl vstd::std_specs::cmp::PartialEqSpecImpl for SearchItem {
    open spec fn obeys_eq_spec() -> bool {
        true
    }

    open spec fn eq_spec(&self, other: &SearchItem) -> bool {
        self.id == other.id
    }
}

/// One concrete candidate offered by a peer.
#[derive(Debug)]
pub struct DownloadableFile {
    pub filename: String,
    pub username: String,
    pub size: u64,
}

impl Clone for DownloadableFile {
    fn clone(&self) -> (r: Self)
        ensures
            r == *self,
    {
        DownloadableFile {
            filename: self.filename.clone(),
            username: self.username.clone(),
            size: self.size,
        }
    }
}

/// The pairing of a track and a candidate file: the unit that is judged
/// and, when accepted, downloaded.
#[derive(Debug)]
pub struct JudgeSubmission {
    pub track: SearchItem,
    pub query: DownloadableFile,
}

impl Clone for JudgeSubmission {
    fn clone(&self) -> (r: Self)
        ensures
            r == *self,
    {
        JudgeSubmission { track: self.track.clone(), query: self.query.clone() }
    }
}

impl JudgeSubmission {
    /// Candidates are identified by `(filename, username)`.
    pub open spec fn key(self) -> (Seq<char>, Seq<char>) {
        (self.query.filename@, self.query.username@)
    }
}

/// A worker's coarse progress report.
#[derive(Debug, Clone)]
pub enum Status {
    Done(String),
    InSearch,
    Downloading(String),
}

} // verus!
