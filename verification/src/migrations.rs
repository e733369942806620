//! The decision rule of schema migration bookkeeping: what to do with a
//! migration script given its recorded checksum, if any. Reading script
//! files, hashing them and touching the store stay with the caller.

use vstd::prelude::*;
use vstd::std_specs::cmp::PartialEqSpec;

verus! {

/// What to do with one migration script.
#[derive(Debug, Clone, Copy, PartialEq, Eq, Structural)]
pub enum MigrationAction {
    /// Never seen before: execute it and record its checksum.
    Apply,
    /// Already executed and the checksum still matches: skip it.
    Skip,
    /// Already executed but the file changed since: refuse to continue.
    ChecksumMismatch,
}

/// Decides what to do with a migration script whose current checksum is
/// `atual`, given the checksum recorded when it was first executed, if any.
pub fn migration_action(registrado: &Option<Vec<u8>>, atual: &Vec<u8>) -> (r: MigrationAction)
    ensures
        r == MigrationAction::Apply <==> registrado is None,
        r == MigrationAction::Skip <==> (registrado matches Some(c) && c@ == atual@),
        r == MigrationAction::ChecksumMismatch <==> (registrado matches Some(c) && c@ != atual@),
{
    match registrado {
        None => MigrationAction::Apply,
        Some(c) => {
            if c == atual {
                proof {
                    assert(c@ =~= atual@);
                }
                MigrationAction::Skip
            } else {
                proof {
                    if c@ == atual@ {
                        assert(c.eq_spec(atual));
                    }
                }
                MigrationAction::ChecksumMismatch
            }
        },
    }
}

} // verus!
