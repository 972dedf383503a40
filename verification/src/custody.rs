//! First-run custody migration: move operator keys from the file vault into the OS keyring, so a
//! workspace created under the file custody can switch to keyring custody without breaking
//! signatures.
//!
//! A key is migrated only after it is validated against the registry — an author's on-disk
//! operational key must match its registered *active* (last) public key, or the import refuses
//! (importing a mismatched private key would silently produce versions that don't verify). The
//! application reads the keys and performs the keyring writes; this module validates.

use vstd::prelude::*;

use aion_context::key_registry::KeyRegistry;

use crate::error::StudioError;
use crate::registry_store::{ed25519_public_key, epochs_for, epochs_of, public_key_of, registry_epochs};
use crate::text::{decimal, decimal_string};

verus! {

/// One author's importable keys.
#[derive(Debug, Clone, PartialEq, Eq, Structural)]
pub struct ImportItem {
    pub author: u64,
    pub has_master: bool,
}

/// The message for a key that does not match the registry.
pub open spec fn mismatch_msg(id: u64) -> Seq<char> {
    "author "@ + decimal(id as nat)
        + ": on-disk key does not match the registry \u{2014} refusing to import"@
}

/// Validate one author for import: the public key of its on-disk operational seed must be the
/// public key of its last registered epoch.
pub fn import_item(registry: &KeyRegistry, id: u64, on_disk_seed: &[u8; 32], has_master: bool) -> (r: Result<
    ImportItem,
    StudioError,
>)
    ensures
        ({
            let e = epochs_of(registry_epochs(*registry), id);
            let matches_registry = e.len() > 0 && e.last().public_key@ == ed25519_public_key(
                on_disk_seed@,
            );
            &&& matches_registry ==> r == Ok::<ImportItem, StudioError>(ImportItem { author: id, has_master })
            &&& !matches_registry ==> (r matches Err(StudioError::BadKey(m)) && m@ == mismatch_msg(id))
        }),
{
    let on_disk = match public_key_of(on_disk_seed) {
        Ok(pk) => pk,
        Err(e) => return Err(StudioError::Aion(e)),
    };
    let epochs = epochs_for(registry, id);
    let mut same = epochs.len() > 0;
    if same {
        let registered = epochs[epochs.len() - 1].public_key;
        let mut k: usize = 0;
        while k < 32
            invariant
                k <= 32,
                same ==> forall|j: int| 0 <= j < k ==> registered@[j] == on_disk@[j],
                !same ==> registered@ != on_disk@,
            decreases 32 - k,
        {
            if registered[k] != on_disk[k] {
                same = false;
            }
            k = k + 1;
        }
        assert(same ==> registered@ =~= on_disk@);
    }
    if same {
        Ok(ImportItem { author: id, has_master })
    } else {
        Err(
            StudioError::BadKey(
                String::from_str("author ").concat(decimal_string(id).as_str()).concat(
                    ": on-disk key does not match the registry \u{2014} refusing to import",
                ),
            ),
        )
    }
}

} // verus!
