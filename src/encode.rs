//! Encoding of an eligible catalog entry into its cache record.
use vstd::prelude::*;
use crate::catalog::{CatalogEntry, MapDifficulty, MapVersion};
use crate::eligibility::{eligible, should_cache_map};
use crate::hex::{hex_key, parse_hex_key};
use crate::mods::{
    any_cinema, any_chroma, any_me, any_ne, any_vivify, diff_mods, generate_protobuf_diff_mods,
    generate_protobuf_map_mods, lemma_any_push, lemma_flag_bits_none, lemma_flag_bits_or,
    version_mods,
};
use crate::record::{Difficulty, MapMetadata, MetadataView, Ranked, RankedValue, Votes};

verus! {

/// Why an entry that passed the filter still cannot be encoded.
#[derive(Clone, Copy, Debug, PartialEq, Eq, Structural)]
pub enum EncodeError {
    /// The entry has no version at all.
    NoVersion,
    /// The identifier is not a hexadecimal number that fits in 32 bits.
    InvalidKey,
    /// The duration is negative or does not fit in 32 bits.
    DurationOutOfRange,
    /// The entry has no publication time.
    MissingPublished,
    /// The publication time is not a 32-bit unix timestamp.
    PublishedOutOfRange,
    /// The entry has no update time.
    MissingUpdated,
    /// The update time is not a 32-bit unix timestamp.
    UpdatedOutOfRange,
    /// A difficulty of the first version names no environment.
    MissingEnvironment,
}

pub open spec fn fits_u32(v: int) -> bool {
    0 <= v <= u32::MAX
}

/// A count that is negative or too large is recorded as 0.
pub open spec fn count_or_zero(v: int) -> u32 {
    if fits_u32(v) { v as u32 } else { 0 }
}

/// Vote counts, with negative counts recorded as 0.
pub open spec fn votes_of(up: i32, down: i32) -> Votes {
    Votes { up: count_or_zero(up as int), down: count_or_zero(down as int) }
}

/// A rating on one engine: ranked when a score is given, 0 stars otherwise.
pub open spec fn ranked_value_of(stars: Option<u32>) -> RankedValue {
    RankedValue {
        is_ranked: stars is Some,
        stars_bits: match stars {
            Some(b) => b,
            None => 0,
        },
    }
}

pub open spec fn ranked_of(d: MapDifficulty) -> Ranked {
    Ranked {
        score_saber: ranked_value_of(d.ss_stars_bits),
        beat_leader: ranked_value_of(d.bl_stars_bits),
    }
}

/// The record of one difficulty; absent when it names no environment.
pub open spec fn difficulty_record(d: MapDifficulty) -> Option<Difficulty> {
    match d.environment {
        Some(env) => Some(
            Difficulty {
                njs_bits: d.njs_bits,
                notes: count_or_zero(d.notes as int),
                characteristic_name: d.characteristic_name,
                difficulty_name: d.difficulty,
                mods: diff_mods(d),
                environment_name: env,
                ranked: ranked_of(d),
            },
        ),
        None => None,
    }
}

pub open spec fn all_have_environment(ds: Seq<MapDifficulty>) -> bool {
    forall|i: int| 0 <= i < ds.len() ==> (#[trigger] ds[i]).environment is Some
}

/// The first reason, in the order the fields are read, why `e` cannot be
/// encoded; none when it can.
pub open spec fn encode_error(e: CatalogEntry) -> Option<EncodeError> {
    if e.versions@.len() == 0 {
        Some(EncodeError::NoVersion)
    } else if hex_key(e.id@) is None {
        Some(EncodeError::InvalidKey)
    } else if !fits_u32(e.metadata.duration as int) {
        Some(EncodeError::DurationOutOfRange)
    } else if e.last_published_at is None {
        Some(EncodeError::MissingPublished)
    } else if !fits_u32(e.last_published_at->0 as int) {
        Some(EncodeError::PublishedOutOfRange)
    } else if e.updated_at is None {
        Some(EncodeError::MissingUpdated)
    } else if !fits_u32(e.updated_at->0 as int) {
        Some(EncodeError::UpdatedOutOfRange)
    } else if !all_have_environment(e.versions@[0].diffs@) {
        Some(EncodeError::MissingEnvironment)
    } else {
        None
    }
}

/// The record of `e`, meaningful when `encode_error(e)` is none. Everything
/// but the votes and the curator comes from the first version.
pub open spec fn record_of(e: CatalogEntry) -> MetadataView {
    let ds = e.versions@[0].diffs@;
    MetadataView {
        key: hex_key(e.id@)->0,
        hash: e.versions@[0].hash,
        song_name: e.metadata.song_name,
        song_sub_name: e.metadata.song_sub_name,
        song_author_name: e.metadata.song_author_name,
        level_author_name: e.metadata.level_author_name,
        duration: e.metadata.duration as u32,
        uploaded: e.last_published_at->0 as u32,
        last_updated: e.updated_at->0 as u32,
        mods: version_mods(ds),
        curator_name: e.curator,
        votes: votes_of(e.upvotes, e.downvotes),
        difficulties: Seq::new(ds.len(), |i: int| difficulty_record(ds[i])->0),
    }
}

/// What caching `e` yields: its record when it is eligible and encodable.
pub open spec fn cached_record(e: CatalogEntry) -> Option<MetadataView> {
    if eligible(e) && encode_error(e) is None {
        Some(record_of(e))
    } else {
        None
    }
}

/// The outcome that `encode_map` promises for `e`.
pub open spec fn encodes_as(e: CatalogEntry, r: Result<MapMetadata, EncodeError>) -> bool {
    match r {
        Ok(m) => encode_error(e) is None && m@ == record_of(e),
        Err(err) => encode_error(e) == Some(err),
    }
}

/// Ranking data of a difficulty on both engines.
pub fn generate_protobuf_ranked_values(diff: &MapDifficulty) -> (r: Ranked)
    ensures
        r == ranked_of(*diff),
{
    Ranked {
        score_saber: RankedValue {
            is_ranked: diff.ss_stars_bits.is_some(),
            stars_bits: match diff.ss_stars_bits {
                Some(b) => b,
                None => 0,
            },
        },
        beat_leader: RankedValue {
            is_ranked: diff.bl_stars_bits.is_some(),
            stars_bits: match diff.bl_stars_bits {
                Some(b) => b,
                None => 0,
            },
        },
    }
}

fn count_to_u32(v: i64) -> (r: u32)
    ensures
        r == count_or_zero(v as int),
{
    if 0 <= v && v <= 0xffff_ffff {
        v as u32
    } else {
        0
    }
}

/// The records of the difficulties of `map_version`, in order; an error when
/// one of them names no environment.
pub fn generate_protobuf_diffs(map_version: &MapVersion) -> (r: Result<Vec<Difficulty>, EncodeError>)
    ensures
        match r {
            Ok(v) => {
                &&& all_have_environment(map_version.diffs@)
                &&& v@.len() == map_version.diffs@.len()
                &&& forall|i: int|
                    0 <= i < v@.len() ==> Some(#[trigger] v@[i]) == difficulty_record(
                        map_version.diffs@[i],
                    )
            },
            Err(err) => err == EncodeError::MissingEnvironment && !all_have_environment(
                map_version.diffs@,
            ),
        },
{
    let ds = &map_version.diffs;
    let mut out: Vec<Difficulty> = Vec::new();
    let mut i: usize = 0;
    while i < ds.len()
        invariant
            i <= ds@.len(),
            ds@ == map_version.diffs@,
            out@.len() == i,
            forall|k: int| 0 <= k < i ==> (#[trigger] ds@[k]).environment is Some,
            forall|k: int| 0 <= k < i ==> Some(#[trigger] out@[k]) == difficulty_record(ds@[k]),
        decreases ds@.len() - i,
    {
        let diff = &ds[i];
        let environment_name = match &diff.environment {
            Some(env) => env.clone(),
            None => {
                assert(ds@[i as int].environment is None);
                return Err(EncodeError::MissingEnvironment);
            },
        };
        out.push(
            Difficulty {
                njs_bits: diff.njs_bits,
                notes: count_to_u32(diff.notes),
                characteristic_name: diff.characteristic_name.clone(),
                difficulty_name: diff.difficulty.clone(),
                mods: generate_protobuf_diff_mods(diff),
                environment_name,
                ranked: generate_protobuf_ranked_values(diff),
            },
        );
        i = i + 1;
    }
    Ok(out)
}

/// The curator's name, when the map has a curator.
pub fn generate_protobuf_curator(map: &CatalogEntry) -> (r: Option<String>)
    ensures
        r == map.curator,
{
    match &map.curator {
        Some(name) => Some(name.clone()),
        None => None,
    }
}

/// Vote counts with negative counts recorded as 0.
pub fn generate_protobuf_votes(up: i32, down: i32) -> (r: Votes)
    ensures
        r == votes_of(up, down),
{
    Votes {
        up: if up >= 0 { up as u32 } else { 0 },
        down: if down >= 0 { down as u32 } else { 0 },
    }
}

fn timestamp_to_u32(t: i64) -> (r: Option<u32>)
    ensures
        r == (if fits_u32(t as int) { Some(t as u32) } else { None::<u32> }),
{
    if 0 <= t && t <= 0xffff_ffff {
        Some(t as u32)
    } else {
        None
    }
}

/// Encodes `map` into its record, or reports the first field that is missing
/// or out of range. Nothing is produced on failure.
pub fn encode_map(map: &CatalogEntry) -> (r: Result<MapMetadata, EncodeError>)
    ensures
        encodes_as(*map, r),
{
    if map.versions.len() == 0 {
        return Err(EncodeError::NoVersion);
    }
    let version = &map.versions[0];
    let key = match parse_hex_key(map.id.as_str()) {
        Some(k) => k,
        None => {
            return Err(EncodeError::InvalidKey);
        },
    };
    let duration = match timestamp_to_u32(map.metadata.duration) {
        Some(d) => d,
        None => {
            return Err(EncodeError::DurationOutOfRange);
        },
    };
    let uploaded = match map.last_published_at {
        Some(t) => match timestamp_to_u32(t) {
            Some(u) => u,
            None => {
                return Err(EncodeError::PublishedOutOfRange);
            },
        },
        None => {
            return Err(EncodeError::MissingPublished);
        },
    };
    let last_updated = match map.updated_at {
        Some(t) => match timestamp_to_u32(t) {
            Some(u) => u,
            None => {
                return Err(EncodeError::UpdatedOutOfRange);
            },
        },
        None => {
            return Err(EncodeError::MissingUpdated);
        },
    };
    let difficulties = match generate_protobuf_diffs(version) {
        Ok(v) => v,
        Err(err) => {
            return Err(err);
        },
    };
    let m = MapMetadata {
        key,
        hash: version.hash.clone(),
        song_name: map.metadata.song_name.clone(),
        song_sub_name: map.metadata.song_sub_name.clone(),
        song_author_name: map.metadata.song_author_name.clone(),
        level_author_name: map.metadata.level_author_name.clone(),
        duration,
        uploaded,
        last_updated,
        mods: generate_protobuf_map_mods(version),
        curator_name: generate_protobuf_curator(map),
        votes: generate_protobuf_votes(map.upvotes, map.downvotes),
        difficulties,
    };
    assert(m@.difficulties =~= record_of(*map).difficulties);
    Ok(m)
}

/// The record to cache for `map`: none when the filter rejects it or it
/// cannot be encoded.
pub fn cache_map_data(map: &CatalogEntry) -> (r: Option<MapMetadata>)
    ensures
        match r {
            Some(m) => cached_record(*map) == Some(m@),
            None => cached_record(*map) is None,
        },
{
    if !should_cache_map(map) {
        return None;
    }
    match encode_map(map) {
        Ok(m) => Some(m),
        Err(_) => None,
    }
}

/// The bitwise OR of the `mods` of a sequence of difficulty records.
pub open spec fn or_of_mods(ds: Seq<Difficulty>) -> u32
    decreases ds.len(),
{
    if ds.len() == 0 {
        0
    } else {
        or_of_mods(ds.drop_last()) | ds.last().mods
    }
}

proof fn lemma_mods_prefix(ds: Seq<MapDifficulty>, recs: Seq<Difficulty>, n: int)
    requires
        0 <= n <= ds.len(),
        recs.len() == ds.len(),
        forall|i: int| 0 <= i < ds.len() ==> (#[trigger] recs[i]).mods == diff_mods(ds[i]),
    ensures
        or_of_mods(recs.take(n)) == version_mods(ds.take(n)),
    decreases n,
{
    if n == 0 {
        assert(recs.take(0).len() == 0);
        assert(!any_cinema(ds.take(0)));
        assert(!any_me(ds.take(0)));
        assert(!any_chroma(ds.take(0)));
        assert(!any_ne(ds.take(0)));
        assert(!any_vivify(ds.take(0)));
        lemma_flag_bits_none();
    } else {
        lemma_mods_prefix(ds, recs, n - 1);
        let prev = ds.take(n - 1);
        let d = ds[n - 1];
        assert(recs.take(n).drop_last() =~= recs.take(n - 1));
        assert(ds.take(n) =~= prev.push(d));
        assert(recs.take(n).last() == recs[n - 1]);
        lemma_any_push(prev, d);
        lemma_flag_bits_or(
            any_cinema(prev), any_me(prev), any_chroma(prev), any_ne(prev), any_vivify(prev),
            d.cinema, d.me, d.chroma, d.ne, d.vivify,
        );
    }
}

/// The `mods` bitmask of an encoded map is the bitwise OR of the `mods` of
/// its difficulty records.
pub proof fn lemma_map_mods_are_union_of_difficulty_mods(e: CatalogEntry)
    requires
        encode_error(e) is None,
    ensures
        record_of(e).mods == or_of_mods(record_of(e).difficulties),
{
    let ds = e.versions@[0].diffs@;
    let recs = record_of(e).difficulties;
    assert forall|i: int| 0 <= i < ds.len() implies (#[trigger] recs[i]).mods == diff_mods(ds[i]) by {
        assert(ds[i].environment is Some);
    }
    lemma_mods_prefix(ds, recs, ds.len() as int);
    assert(recs.take(ds.len() as int) =~= recs);
    assert(ds.take(ds.len() as int) =~= ds);
}

/// Encoding is deterministic: two encodings of one entry give the same
/// record, or the same error.
pub proof fn lemma_encoding_is_deterministic(
    e: CatalogEntry,
    r1: Result<MapMetadata, EncodeError>,
    r2: Result<MapMetadata, EncodeError>,
)
    requires
        encodes_as(e, r1),
        encodes_as(e, r2),
    ensures
        r1 is Ok <==> r2 is Ok,
        r1 is Ok ==> r1->Ok_0@ == r2->Ok_0@,
        r1 is Err ==> r1->Err_0 == r2->Err_0,
{
}

/// Negative downvote counts are recorded as 0, and the vote counts never
/// decide whether an entry can be encoded.
pub proof fn lemma_negative_downvotes_clamp_to_zero(e: CatalogEntry)
    requires
        e.downvotes < 0,
    ensures
        record_of(e).votes.down == 0,
        encode_error(e) == encode_error(CatalogEntry { downvotes: 0, ..e }),
        cached_record(e) is Some <==> cached_record(CatalogEntry { downvotes: 0, ..e }) is Some,
{
}

} // verus!
