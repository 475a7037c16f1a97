//! The records of the library.

use vstd::prelude::*;

verus! {

/// A track of the library.
#[derive(Debug, Clone)]
pub struct Track {
    pub id: i64,
    pub file_path: String,
    pub title: String,
    pub artist: Option<String>,
    pub album: Option<String>,
    pub album_artist: Option<String>,
    pub year: Option<u32>,
    pub track_number: Option<i32>,
    pub disc_number: Option<i32>,
    pub duration_ms: Option<i64>,
    pub genre: Option<String>,
    pub file_size: Option<i64>,
    pub file_format: Option<String>,
    pub bitrate: Option<i32>,
    pub sample_rate: Option<i32>,
    pub date_added: i64,
    pub date_modified: i64,
    pub play_count: i32,
    pub last_played: Option<i64>,
    pub file_hash: Option<String>,
}

/// A directory that is scanned for audio files.
#[derive(Debug, Clone)]
pub struct ScanPath {
    pub id: i64,
    pub path: String,
    pub date_added: i64,
    pub last_scanned: Option<i64>,
}

/// An album with the number of its songs.
#[derive(Debug, Clone)]
pub struct Album {
    pub id: i64,
    pub name: String,
    pub artist: Option<String>,
    pub year: Option<i32>,
    pub song_count: i32,
}

/// An artist with the number of their songs.
#[derive(Debug, Clone)]
pub struct Artist {
    pub id: i64,
    pub name: String,
    pub song_count: i32,
}

/// A genre with the number of its songs.
#[derive(Debug, Clone)]
pub struct Genre {
    pub id: i64,
    pub name: String,
    pub song_count: i32,
}

/// A playlist made by the user.
#[derive(Debug, Clone)]
pub struct Playlist {
    pub id: i64,
    pub name: String,
    pub description: Option<String>,
}

/// A playback queue.  A shuffle seed of `SEQUENTIAL_SEED` plays it in stored order.
#[derive(Debug, Clone)]
pub struct Queue {
    pub id: i64,
    pub name: String,
    pub is_active: bool,
    pub track_hash: Option<String>,
    pub shuffle_seed: i64,
}

/// The shuffle seed that stands for "not shuffled".
pub const SEQUENTIAL_SEED: i64 = 1;

/// The shuffle seed of a queue for which none is stored.
pub fn default_shuffle_seed() -> (seed: i64)
    ensures
        seed == SEQUENTIAL_SEED,
{
    SEQUENTIAL_SEED
}

/// The shuffle seed of a queue, given what is stored for it.
pub fn stored_shuffle_seed(stored: Option<i64>) -> (seed: i64)
    ensures
        seed == (match stored {
            Some(s) => s,
            None => SEQUENTIAL_SEED,
        }),
{
    match stored {
        Some(s) => s,
        None => default_shuffle_seed(),
    }
}

/// The seed a queue gets when its shuffle is toggled: a shuffled queue goes
/// back to stored order; a queue in stored order is shuffled by `fresh`, or by
/// `2` where `fresh` happens to be the sequential seed.
pub fn toggled_shuffle_seed(current: Option<i64>, fresh: i64) -> (seed: i64)
    ensures
        seed == (if stored_seed(current) != SEQUENTIAL_SEED {
            SEQUENTIAL_SEED
        } else if fresh == SEQUENTIAL_SEED {
            2
        } else {
            fresh
        }),
        (seed == SEQUENTIAL_SEED) == (stored_seed(current) != SEQUENTIAL_SEED),
{
    if stored_shuffle_seed(current) == SEQUENTIAL_SEED {
        if fresh == SEQUENTIAL_SEED {
            2
        } else {
            fresh
        }
    } else {
        SEQUENTIAL_SEED
    }
}

/// The seed in force where `stored` is what the database holds.
pub open spec fn stored_seed(stored: Option<i64>) -> i64 {
    match stored {
        Some(s) => s,
        None => SEQUENTIAL_SEED,
    }
}

} // verus!
