//! How a database file is loaded: what is kept of its contents.

use vstd::prelude::*;

verus! {

/// What to do with a database file after trying to read it.
#[derive(Debug, Clone, Copy, PartialEq, Eq, Structural)]
pub enum DbLoad {
    /// The contents were read; use them.
    Loaded,
    /// The contents could not be read: start empty and write the empty
    /// database at once, after copying the old file aside when it held anything.
    Fresh { backup: bool },
}

/// What to do with a database file whose contents were read (`parsed`) or
/// not, and which held `stored_len` bytes.
pub fn db_load_plan(parsed: bool, stored_len: u64) -> (r: DbLoad)
    ensures
        parsed ==> r == DbLoad::Loaded,
        !parsed ==> r == (DbLoad::Fresh { backup: stored_len > 0 }),
{
    if parsed {
        DbLoad::Loaded
    } else {
        DbLoad::Fresh { backup: stored_len > 0 }
    }
}

} // verus!
