//! The config: what layoutswap remembers between launches, its schema version and the
//! rule a stored file's version must meet to be read.

pub mod capabilities;
pub mod layouts;
pub mod steps;
pub mod verify;

use vstd::prelude::*;
use crate::config::capabilities::Capabilities;
use crate::config::layouts::Layout;
use crate::error::AppError;
use crate::text::{append_str, string_of};

verus! {

/// The schema version this build writes. Reading a newer version is an error; older
/// versions are migrated forward.
pub const SCHEMA_VERSION: u32 = 1;

/// Everything layoutswap remembers between launches.
#[derive(Debug, Clone, PartialEq, Eq)]
pub struct Config {
    pub schema_version: u32,
    /// The window size the user left, in logical pixels.
    pub window: WindowSize,
    /// The user's alias per monitor, keyed by device path, in key order, each key once.
    pub aliases: Vec<(String, String)>,
    /// What each monitor declared it can do, keyed by device path, in key order, each key
    /// once. Entries for monitors this machine has never seen stay.
    pub capabilities: Vec<(String, Capabilities)>,
    pub layouts: Vec<Layout>,
}

/// A window size in logical pixels.
#[derive(Debug, Clone, Copy, PartialEq, Eq, Structural)]
pub struct WindowSize {
    pub width: u32,
    pub height: u32,
}

/// The size the window opens at on first run.
pub open spec fn default_window() -> WindowSize {
    WindowSize { width: 1280, height: 860 }
}

/// The size the window opens at on first run.
pub fn default_window_size() -> (r: WindowSize)
    ensures
        r == default_window(),
{
    WindowSize { width: 1280, height: 860 }
}

/// The smallest window the layout still fits in: the sidebar plus a usable content
/// column. Sizes below this are never persisted because the window cannot reach them.
pub fn min_window_size() -> (r: WindowSize)
    ensures
        r == (WindowSize { width: 900, height: 600 }),
{
    WindowSize { width: 900, height: 600 }
}

impl Default for WindowSize {
    fn default() -> (r: WindowSize)
        ensures
            r == default_window(),
    {
        default_window_size()
    }
}

/// Each key of a keyed list occurs once, as in the map the list stands for.
pub open spec fn keys_unique<V>(entries: Seq<(String, V)>) -> bool {
    forall|i: int, j: int| 0 <= i < j < entries.len() ==> entries[i].0@ != entries[j].0@
}

impl Config {
    /// The config's invariant: each device path keys at most one alias and at most one
    /// capabilities entry.
    pub open spec fn keyed_once(&self) -> bool {
        keys_unique(self.aliases@) && keys_unique(self.capabilities@)
    }
}

impl Default for Config {
    /// What a machine that never saved a config starts with.
    fn default() -> (r: Config)
        ensures
            r.schema_version == SCHEMA_VERSION,
            r.window == default_window(),
            r.aliases@.len() == 0,
            r.capabilities@.len() == 0,
            r.layouts@.len() == 0,
            r.keyed_once(),
    {
        Config {
            schema_version: SCHEMA_VERSION,
            window: default_window_size(),
            aliases: Vec::new(),
            capabilities: Vec::new(),
            layouts: Vec::new(),
        }
    }
}

impl Config {
    /// Replaces the window size and keeps everything else.
    pub fn update_window_size(&mut self, size: WindowSize)
        ensures
            final(self).window == size,
            final(self).schema_version == old(self).schema_version,
            final(self).aliases == old(self).aliases,
            final(self).capabilities == old(self).capabilities,
            final(self).keyed_once() == old(self).keyed_once(),
            final(self).layouts == old(self).layouts,
    {
        self.window = size;
    }
}

/// The problem text a refused version reads as.
pub open spec fn migration_problem(found: Option<u64>) -> Seq<char> {
    match found {
        None => "schemaVersion is missing or not a whole number"@,
        Some(v) => "schemaVersion 0 was never written by layoutswap"@,
    }
}

/// Brings a stored config's schema version up to [`SCHEMA_VERSION`]. `found` is the
/// file's `schemaVersion` when it is a whole number. A missing version, version 0, or a
/// version newer than this build reads is refused, naming the file; every other version
/// is migrated forward to the current one.
pub fn migrate_schema_version(found: Option<u64>, path: &str) -> (r: Result<u32, AppError>)
    ensures
        match (found, r) {
            (Some(v), Ok(version)) => 1 <= v <= SCHEMA_VERSION && version == SCHEMA_VERSION,
            (Some(v), Err(AppError::UnknownSchemaVersion { found: f, supported, path: p })) => v
                > SCHEMA_VERSION && f == v && supported == SCHEMA_VERSION && p@ == path@,
            (Some(v), Err(AppError::ConfigInvalid { path: p, source })) => v == 0 && p@ == path@
                && source@ == migration_problem(found),
            (None, Err(AppError::ConfigInvalid { path: p, source })) => p@ == path@ && source@
                == migration_problem(found),
            _ => false,
        },
{
    match found {
        None => {
            let mut o: Vec<char> = Vec::new();
            append_str(&mut o, "schemaVersion is missing or not a whole number");
            Err(AppError::ConfigInvalid { path: path.to_string(), source: string_of(&o) })
        },
        Some(v) => {
            if v > SCHEMA_VERSION as u64 {
                return Err(
                    AppError::UnknownSchemaVersion {
                        found: v,
                        supported: SCHEMA_VERSION,
                        path: path.to_string(),
                    },
                );
            }
            if v == 0 {
                let mut o: Vec<char> = Vec::new();
                append_str(&mut o, "schemaVersion 0 was never written by layoutswap");
                return Err(AppError::ConfigInvalid { path: path.to_string(), source: string_of(&o) });
            }
            Ok(SCHEMA_VERSION)
        },
    }
}

} // verus!
