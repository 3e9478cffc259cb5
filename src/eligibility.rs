//! Which catalog entries are worth caching.
use vstd::prelude::*;
use crate::catalog::{AiDeclaration, CatalogEntry, VersionState};

verus! {

/// An entry is eligible when it has been published, its first version is
/// published, nobody declared it AI-generated and it is not auto-mapped.
/// An entry without any version has no published first version.
pub open spec fn eligible(e: CatalogEntry) -> bool {
    &&& e.last_published_at is Some
    &&& e.versions@.len() > 0
    &&& e.versions@[0].state == VersionState::Published
    &&& e.declared_ai == AiDeclaration::Undeclared
    &&& !e.automapper
}

/// Decides whether `map` belongs in the cache. The checks run in order and the
/// first that fails rejects the entry.
pub fn should_cache_map(map: &CatalogEntry) -> (r: bool)
    ensures
        r == eligible(*map),
{
    // never published
    if map.last_published_at.is_none() {
        return false;
    }
    // the first version is missing or not published
    if map.versions.len() == 0 || map.versions[0].state != VersionState::Published {
        return false;
    }
    // declared AI-generated, for the map or its song
    if map.declared_ai != AiDeclaration::Undeclared {
        return false;
    }
    if map.automapper {
        return false;
    }
    true
}

} // verus!
