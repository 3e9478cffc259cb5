//! The compact records written to the cache, one per eligible map.
use vstd::prelude::*;

verus! {

/// Star rating of a difficulty on one ranking engine. `stars_bits` holds the
/// bit pattern of an `f32`; it is 0 (the pattern of 0.0) when unranked.
#[derive(Clone, Copy, Debug, PartialEq, Eq, Structural)]
pub struct RankedValue {
    pub is_ranked: bool,
    pub stars_bits: u32,
}

/// Ranking data of a difficulty on the two ranking engines.
#[derive(Clone, Copy, Debug, PartialEq, Eq, Structural)]
pub struct Ranked {
    pub score_saber: RankedValue,
    pub beat_leader: RankedValue,
}

/// Vote counts of a map.
#[derive(Clone, Copy, Debug, PartialEq, Eq, Structural)]
pub struct Votes {
    pub up: u32,
    pub down: u32,
}

/// The record of one difficulty. `njs_bits` holds the bit pattern of an `f32`;
/// `mods` uses the bit layout of `mods::flag_bits`.
#[derive(Clone, Debug, PartialEq)]
pub struct Difficulty {
    pub njs_bits: u32,
    pub notes: u32,
    pub characteristic_name: String,
    pub difficulty_name: String,
    pub mods: u32,
    pub environment_name: String,
    pub ranked: Ranked,
}

/// The record of one map.
#[derive(Clone, Debug, PartialEq)]
pub struct MapMetadata {
    pub key: u32,
    pub hash: String,
    pub song_name: String,
    pub song_sub_name: String,
    pub song_author_name: String,
    pub level_author_name: String,
    pub duration: u32,
    pub uploaded: u32,
    pub last_updated: u32,
    pub mods: u32,
    pub curator_name: Option<String>,
    pub votes: Votes,
    pub difficulties: Vec<Difficulty>,
}

/// A map record with its difficulties seen as a sequence.
pub ghost struct MetadataView {
    pub key: u32,
    pub hash: String,
    pub song_name: String,
    pub song_sub_name: String,
    pub song_author_name: String,
    pub level_author_name: String,
    pub duration: u32,
    pub uploaded: u32,
    pub last_updated: u32,
    pub mods: u32,
    pub curator_name: Option<String>,
    pub votes: Votes,
    pub difficulties: Seq<Difficulty>,
}

impl View for MapMetadata {
    type V = MetadataView;

    open spec fn view(&self) -> MetadataView {
        MetadataView {
            key: self.key,
            hash: self.hash,
            song_name: self.song_name,
            song_sub_name: self.song_sub_name,
            song_author_name: self.song_author_name,
            level_author_name: self.level_author_name,
            duration: self.duration,
            uploaded: self.uploaded,
            last_updated: self.last_updated,
            mods: self.mods,
            curator_name: self.curator_name,
            votes: self.votes,
            difficulties: self.difficulties@,
        }
    }
}

} // verus!
