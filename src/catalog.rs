//! Catalog entries as the remote catalog reports them, reduced to the plain
//! values that filtering and encoding read.
use vstd::prelude::*;

verus! {

/// Publication state of one version of a map.
#[derive(Clone, Copy, Debug, PartialEq, Eq, Structural)]
pub enum VersionState {
    Uploaded,
    Testplay,
    Published,
    Feedback,
    Scheduled,
}

/// Who, if anyone, declared a map as AI-generated.
#[derive(Clone, Copy, Debug, PartialEq, Eq, Structural)]
pub enum AiDeclaration {
    Undeclared,
    Admin,
    Uploader,
    SageScore,
}

/// One playable difficulty of a map version.
///
/// Floating-point values of the catalog (note jump speed, star ratings) are
/// carried as the bit patterns of their `f32` value.
#[derive(Clone, Debug)]
pub struct MapDifficulty {
    pub njs_bits: u32,
    pub notes: i64,
    pub characteristic_name: String,
    pub difficulty: String,
    pub environment: Option<String>,
    pub ss_stars_bits: Option<u32>,
    pub bl_stars_bits: Option<u32>,
    pub cinema: bool,
    pub me: bool,
    pub chroma: bool,
    pub ne: bool,
    pub vivify: bool,
}

/// One version of a map: its hash, state and difficulties.
#[derive(Clone, Debug)]
pub struct MapVersion {
    pub hash: String,
    pub state: VersionState,
    pub diffs: Vec<MapDifficulty>,
}

/// Song and level metadata of a map.
#[derive(Clone, Debug)]
pub struct SongMetadata {
    pub song_name: String,
    pub song_sub_name: String,
    pub song_author_name: String,
    pub level_author_name: String,
    pub duration: i64,
}

/// One map of the catalog. Timestamps are unix seconds.
///
/// `uploaded` is when the map first entered the catalog (the catalog is
/// ordered by it); `last_published_at` is absent for a map that was never
/// published.
#[derive(Clone, Debug)]
pub struct CatalogEntry {
    pub id: String,
    pub uploaded: i64,
    pub last_published_at: Option<i64>,
    pub updated_at: Option<i64>,
    pub declared_ai: AiDeclaration,
    pub automapper: bool,
    pub versions: Vec<MapVersion>,
    pub metadata: SongMetadata,
    pub curator: Option<String>,
    pub upvotes: i32,
    pub downvotes: i32,
}

} // verus!
