//! Mod requirements of a map, as flags and as a bitmask.
//!
//! Bit layout, fixed by the cache format: bit 0 cinema, bit 1 mapping
//! extensions, bit 2 chroma, bit 3 noodle extensions, bit 4 vivify.
use vstd::prelude::*;
use crate::catalog::{MapDifficulty, MapVersion};

verus! {

/// `mask` when `set` holds, else 0.
pub open spec fn bit(set: bool, mask: u32) -> u32 {
    if set { mask } else { 0 }
}

/// The bitmask of five mod flags.
pub open spec fn flag_bits(cinema: bool, me: bool, chroma: bool, ne: bool, vivify: bool) -> u32 {
    bit(cinema, 1) | bit(me, 2) | bit(chroma, 4) | bit(ne, 8) | bit(vivify, 16)
}

/// The bitmask of the mods that one difficulty needs.
pub open spec fn diff_mods(d: MapDifficulty) -> u32 {
    flag_bits(d.cinema, d.me, d.chroma, d.ne, d.vivify)
}

pub open spec fn any_cinema(ds: Seq<MapDifficulty>) -> bool {
    exists|i: int| 0 <= i < ds.len() && #[trigger] ds[i].cinema
}

pub open spec fn any_me(ds: Seq<MapDifficulty>) -> bool {
    exists|i: int| 0 <= i < ds.len() && #[trigger] ds[i].me
}

pub open spec fn any_chroma(ds: Seq<MapDifficulty>) -> bool {
    exists|i: int| 0 <= i < ds.len() && #[trigger] ds[i].chroma
}

pub open spec fn any_ne(ds: Seq<MapDifficulty>) -> bool {
    exists|i: int| 0 <= i < ds.len() && #[trigger] ds[i].ne
}

pub open spec fn any_vivify(ds: Seq<MapDifficulty>) -> bool {
    exists|i: int| 0 <= i < ds.len() && #[trigger] ds[i].vivify
}

/// The bitmask of the mods that any of `ds` needs.
pub open spec fn version_mods(ds: Seq<MapDifficulty>) -> u32 {
    flag_bits(any_cinema(ds), any_me(ds), any_chroma(ds), any_ne(ds), any_vivify(ds))
}

proof fn lemma_bit_or(p: bool, q: bool, k: u32)
    ensures
        bit(p, k) | bit(q, k) == bit(p || q, k),
{
    assert(k | k == k) by (bit_vector);
    assert(k | 0 == k) by (bit_vector);
    assert(0 | k == k) by (bit_vector);
    assert(0u32 | 0u32 == 0u32) by (bit_vector);
}

/// The bitmask of two sets of flags joined is the union of their bitmasks.
pub proof fn lemma_flag_bits_or(
    c1: bool, m1: bool, h1: bool, n1: bool, v1: bool,
    c2: bool, m2: bool, h2: bool, n2: bool, v2: bool,
)
    ensures
        flag_bits(c1, m1, h1, n1, v1) | flag_bits(c2, m2, h2, n2, v2) == flag_bits(
            c1 || c2, m1 || m2, h1 || h2, n1 || n2, v1 || v2,
        ),
{
    let (a1, b1, d1, e1, f1) = (bit(c1, 1), bit(m1, 2), bit(h1, 4), bit(n1, 8), bit(v1, 16));
    let (a2, b2, d2, e2, f2) = (bit(c2, 1), bit(m2, 2), bit(h2, 4), bit(n2, 8), bit(v2, 16));
    assert((a1 | b1 | d1 | e1 | f1) | (a2 | b2 | d2 | e2 | f2) == (a1 | a2) | (b1 | b2) | (d1
        | d2) | (e1 | e2) | (f1 | f2)) by (bit_vector);
    lemma_bit_or(c1, c2, 1);
    lemma_bit_or(m1, m2, 2);
    lemma_bit_or(h1, h2, 4);
    lemma_bit_or(n1, n2, 8);
    lemma_bit_or(v1, v2, 16);
}

/// No flag set gives the empty bitmask.
pub proof fn lemma_flag_bits_none()
    ensures
        flag_bits(false, false, false, false, false) == 0,
{
    assert(0u32 | 0u32 | 0u32 | 0u32 | 0u32 == 0u32) by (bit_vector);
}

/// Which mods at least one difficulty of a version needs.
pub struct MapMods {
    pub cinema: bool,
    pub mapping_extensions: bool,
    pub chroma: bool,
    pub noodle_extensions: bool,
    pub vivify: bool,
}

/// Collects the mods needed by any difficulty of `map_version`. Every
/// difficulty is visited.
pub fn get_map_mods(map_version: &MapVersion) -> (mods: MapMods)
    ensures
        mods.cinema == any_cinema(map_version.diffs@),
        mods.mapping_extensions == any_me(map_version.diffs@),
        mods.chroma == any_chroma(map_version.diffs@),
        mods.noodle_extensions == any_ne(map_version.diffs@),
        mods.vivify == any_vivify(map_version.diffs@),
{
    let diffs = &map_version.diffs;
    let mut mods = MapMods {
        cinema: false,
        mapping_extensions: false,
        chroma: false,
        noodle_extensions: false,
        vivify: false,
    };
    let mut i: usize = 0;
    while i < diffs.len()
        invariant
            i <= diffs@.len(),
            mods.cinema == any_cinema(diffs@.take(i as int)),
            mods.mapping_extensions == any_me(diffs@.take(i as int)),
            mods.chroma == any_chroma(diffs@.take(i as int)),
            mods.noodle_extensions == any_ne(diffs@.take(i as int)),
            mods.vivify == any_vivify(diffs@.take(i as int)),
        decreases diffs@.len() - i,
    {
        let diff = &diffs[i];
        let ghost before = diffs@.take(i as int);
        let ghost after = diffs@.take(i + 1);
        assert(after =~= before.push(diffs@[i as int]));
        if diff.cinema {
            mods.cinema = true;
        }
        if diff.me {
            mods.mapping_extensions = true;
        }
        if diff.chroma {
            mods.chroma = true;
        }
        if diff.ne {
            mods.noodle_extensions = true;
        }
        if diff.vivify {
            mods.vivify = true;
        }
        proof {
            lemma_any_push(before, diffs@[i as int]);
        }
        i = i + 1;
    }
    assert(diffs@.take(i as int) =~= diffs@);
    mods
}

pub proof fn lemma_any_push(ds: Seq<MapDifficulty>, d: MapDifficulty)
    ensures
        any_cinema(ds.push(d)) == (any_cinema(ds) || d.cinema),
        any_me(ds.push(d)) == (any_me(ds) || d.me),
        any_chroma(ds.push(d)) == (any_chroma(ds) || d.chroma),
        any_ne(ds.push(d)) == (any_ne(ds) || d.ne),
        any_vivify(ds.push(d)) == (any_vivify(ds) || d.vivify),
{
    let s = ds.push(d);
    assert(s[ds.len() as int] == d);
    assert forall|i: int| 0 <= i < ds.len() implies s[i] == ds[i] by {}
    if any_cinema(s) {
        let i = choose|i: int| 0 <= i < s.len() && #[trigger] s[i].cinema;
        if i < ds.len() {
            assert(ds[i].cinema);
        }
    }
    if any_me(s) {
        let i = choose|i: int| 0 <= i < s.len() && #[trigger] s[i].me;
        if i < ds.len() {
            assert(ds[i].me);
        }
    }
    if any_chroma(s) {
        let i = choose|i: int| 0 <= i < s.len() && #[trigger] s[i].chroma;
        if i < ds.len() {
            assert(ds[i].chroma);
        }
    }
    if any_ne(s) {
        let i = choose|i: int| 0 <= i < s.len() && #[trigger] s[i].ne;
        if i < ds.len() {
            assert(ds[i].ne);
        }
    }
    if any_vivify(s) {
        let i = choose|i: int| 0 <= i < s.len() && #[trigger] s[i].vivify;
        if i < ds.len() {
            assert(ds[i].vivify);
        }
    }
}

/// Packs the mods needed by any difficulty of `map_version` into a bitmask.
pub fn generate_protobuf_map_mods(map_version: &MapVersion) -> (r: u32)
    ensures
        r == version_mods(map_version.diffs@),
{
    let m = get_map_mods(map_version);
    (if m.cinema { 1u32 } else { 0u32 }) | (if m.mapping_extensions { 2u32 } else { 0u32 }) | (
    if m.chroma { 4u32 } else { 0u32 }) | (if m.noodle_extensions { 8u32 } else { 0u32 }) | (
    if m.vivify { 16u32 } else { 0u32 })
}

/// Packs the mods needed by one difficulty into a bitmask.
pub fn generate_protobuf_diff_mods(diff: &MapDifficulty) -> (r: u32)
    ensures
        r == diff_mods(*diff),
{
    (if diff.cinema { 1u32 } else { 0u32 }) | (if diff.me { 2u32 } else { 0u32 }) | (if diff.chroma {
        4u32
    } else {
        0u32
    }) | (if diff.ne { 8u32 } else { 0u32 }) | (if diff.vivify { 16u32 } else { 0u32 })
}

} // verus!
