//! Backends that keep memories on Nostr relays or in the collective index.

use super::backend::{
    backend_of, classify_memory_backend, MemoryBackendKind, MemoryBackendProfile,
};
use crate::text::str_eq;
use vstd::prelude::*;

verus! {

/// A backend of either sort.
#[derive(Debug, Clone, Copy, PartialEq, Eq, Structural)]
pub enum SnowclawBackendKind {
    /// One that keeps memories in local files.
    Upstream(MemoryBackendKind),
    /// Relay storage with a local index.
    Nostr,
    /// The collective index with trust-ranked search.
    Collective,
}

/// The backend that a name stands for: "nostr" and "collective" come before the local ones.
pub open spec fn kind_of(name: Seq<char>) -> SnowclawBackendKind {
    if name == "nostr"@ {
        SnowclawBackendKind::Nostr
    } else if name == "collective"@ {
        SnowclawBackendKind::Collective
    } else {
        SnowclawBackendKind::Upstream(backend_of(name))
    }
}

/// The backend that a name stands for.
pub fn classify(name: &str) -> (r: SnowclawBackendKind)
    ensures
        r == kind_of(name@),
{
    if str_eq(name, "nostr") {
        SnowclawBackendKind::Nostr
    } else if str_eq(name, "collective") {
        SnowclawBackendKind::Collective
    } else {
        SnowclawBackendKind::Upstream(classify_memory_backend(name))
    }
}

/// Whether a profile is that of a backend which saves by itself and needs no local database.
pub open spec fn remote_profile(p: MemoryBackendProfile, key: Seq<char>, label: Seq<char>) -> bool {
    &&& p.key@ == key
    &&& p.label@ == label
    &&& p.auto_save_default
    &&& !p.uses_sqlite_hygiene
    &&& !p.sqlite_based
    &&& !p.optional_dependency
}

/// What is known of the Nostr and collective backends; nothing of the others.
pub fn snowclaw_backend_profile(name: &str) -> (r: Option<MemoryBackendProfile>)
    ensures
        match kind_of(name@) {
            SnowclawBackendKind::Nostr => r is Some && remote_profile(
                r->0,
                "nostr"@,
                "Nostr — NIP-78 relay storage with local SQLite semantic search"@,
            ),
            SnowclawBackendKind::Collective => r is Some && remote_profile(
                r->0,
                "collective"@,
                "Collective — snow-memory FTS5 index with trust-ranked search"@,
            ),
            SnowclawBackendKind::Upstream(_) => r is None,
        },
{
    match classify(name) {
        SnowclawBackendKind::Nostr => Some(
            MemoryBackendProfile {
                key: "nostr",
                label: "Nostr — NIP-78 relay storage with local SQLite semantic search",
                auto_save_default: true,
                uses_sqlite_hygiene: false,
                sqlite_based: false,
                optional_dependency: false,
            },
        ),
        SnowclawBackendKind::Collective => Some(
            MemoryBackendProfile {
                key: "collective",
                label: "Collective — snow-memory FTS5 index with trust-ranked search",
                auto_save_default: true,
                uses_sqlite_hygiene: false,
                sqlite_based: false,
                optional_dependency: false,
            },
        ),
        SnowclawBackendKind::Upstream(_) => None,
    }
}

/// The backends of their own go by their names; any other name is left to the rest.
pub proof fn names_of_own_backends(name: Seq<char>)
    ensures
        kind_of(name) is Nostr <==> name == "nostr"@,
        kind_of(name) is Collective <==> name == "collective"@,
        name != "nostr"@ && name != "collective"@ ==> kind_of(name) == SnowclawBackendKind::Upstream(
            backend_of(name),
        ),
{
    reveal_strlit("nostr");
    reveal_strlit("collective");
    assert("nostr"@.len() != "collective"@.len());
}

/// A backend that keeps its memories elsewhere saves by itself and has no database to tidy.
pub proof fn remote_backends_keep_no_database(
    p: MemoryBackendProfile,
    key: Seq<char>,
    label: Seq<char>,
)
    ensures
        remote_profile(p, key, label) <==> p.key@ == key && p.label@ == label && p.auto_save_default
            && !(p.uses_sqlite_hygiene || p.sqlite_based || p.optional_dependency),
{
}

} // verus!
