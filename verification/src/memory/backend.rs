//! Backends that keep memories in local files.

use crate::text::str_eq;
use vstd::prelude::*;

verus! {

/// A backend that keeps memories in local files.
#[derive(Debug, Clone, Copy, PartialEq, Eq, Structural)]
pub enum MemoryBackendKind {
    Sqlite,
    Markdown,
    Unknown,
}

/// What is known of a backend.
#[derive(Debug, Clone, Copy)]
pub struct MemoryBackendProfile {
    pub key: &'static str,
    pub label: &'static str,
    pub auto_save_default: bool,
    pub uses_sqlite_hygiene: bool,
    pub sqlite_based: bool,
    pub optional_dependency: bool,
}

/// The backend that a name stands for.
pub open spec fn backend_of(name: Seq<char>) -> MemoryBackendKind {
    if name == "sqlite"@ {
        MemoryBackendKind::Sqlite
    } else if name == "markdown"@ {
        MemoryBackendKind::Markdown
    } else {
        MemoryBackendKind::Unknown
    }
}

/// The backend that a name stands for.
pub fn classify_memory_backend(name: &str) -> (r: MemoryBackendKind)
    ensures
        r == backend_of(name@),
{
    if str_eq(name, "sqlite") {
        MemoryBackendKind::Sqlite
    } else if str_eq(name, "markdown") {
        MemoryBackendKind::Markdown
    } else {
        MemoryBackendKind::Unknown
    }
}

/// Two names stand for a backend, and no other does.
pub proof fn names_of_backends(name: Seq<char>)
    ensures
        backend_of(name) is Sqlite <==> name == "sqlite"@,
        backend_of(name) is Markdown <==> name == "markdown"@,
        backend_of(name) is Unknown <==> name != "sqlite"@ && name != "markdown"@,
{
    reveal_strlit("sqlite");
    reveal_strlit("markdown");
    assert("sqlite"@.len() != "markdown"@.len());
}

} // verus!
