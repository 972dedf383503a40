//! Seeding a fresh workspace with one real, signed sample policy so the studio has something to
//! show on first run: a three-signer set (which gives K-of-N governance an N) and a
//! refund-authorization policy authored by the first signer. Idempotent: nothing happens once any
//! policy exists. The application writes the keys, the index, the registry and the artifact.

use vstd::prelude::*;

use aion_context::key_registry::KeyRegistry;

use crate::error::StudioError;
use crate::registry_admin::new_seed;
use crate::registry_store::{
    ed25519_public_key, master_is, register_author, registry_epochs, registry_master_keys, EpochData,
};
use crate::workspace::PolicyId;

verus! {

/// The id of the sample policy.
pub const SAMPLE_ID: &'static str = "refund-authorization";

/// The genesis message of the sample policy.
pub const SAMPLE_MESSAGE: &'static str = "Genesis: initial refund-authorization policy";

/// The sample `.aion` payload — a refund-authorization policy in the studio's default rule format
/// (JSON, first-match-wins), which the evaluator executes against a numeric action input.
pub const SAMPLE_RULES: &'static str = "{
  \"policy\": \"refund-authorization\",
  \"rules\": [
    { \"id\": \"auto-approve-small\", \"when\": { \"amount_usd\": { \"op\": \"le\", \"value\": 50 } }, \"decision\": \"allow\" },
    { \"id\": \"manager-approval\",   \"when\": { \"amount_usd\": { \"op\": \"le\", \"value\": 500 } }, \"decision\": \"allow_with_approval\" },
    { \"id\": \"deny-large\",         \"when\": { \"amount_usd\": { \"op\": \"gt\", \"value\": 500 } }, \"decision\": \"deny\" }
  ]
}
";

/// The seeded signer set. The first is the default author.
pub const SIGNER_AUTHORS: [u64; 3] = [1, 2, 3];

/// The seeded signer set, as a vector.
pub fn signer_authors() -> (v: Vec<u64>)
    ensures
        v@ == seq![1u64, 2u64, 3u64],
{
    vec![1u64, 2u64, 3u64]
}

/// A seeded signer: its id and the seeds of its master and operational keys.
pub struct SeededSigner {
    pub author: u64,
    pub master_seed: [u8; 32],
    pub op_seed: [u8; 32],
}

/// The single epoch a seeded signer starts with: epoch 0, active from version 1, with the public
/// key of its operational seed.
pub open spec fn seeded_entry(e: Seq<EpochData>, op_seed: [u8; 32]) -> bool {
    &&& e.len() == 1
    &&& e[0].epoch == 0
    &&& e[0].created_at_version == 1
    &&& e[0].status is Active
    &&& e[0].public_key@ == ed25519_public_key(op_seed@)
}

/// Register the signer set (authors 1, 2, 3, in that order) at version 1 with the given
/// (master, operational) seed pairs. Owed success exactly when none of the three is registered
/// yet; an error is aion-context's refusal of an author already registered.
pub fn register_signers(registry: &mut KeyRegistry, seeds: &Vec<([u8; 32], [u8; 32])>) -> (r: Result<
    Vec<SeededSigner>,
    StudioError,
>)
    requires
        seeds.len() == 3,
    ensures
        ({
            let before = registry_epochs(*old(registry));
            &&& (!before.dom().contains(1) && !before.dom().contains(2) && !before.dom().contains(3))
                <==> r is Ok
            &&& r matches Err(e) ==> e is Aion
            &&& r matches Ok(s) ==> {
                let after = registry_epochs(*final(registry));
                &&& s.len() == 3
                &&& forall|k: int| 0 <= k < 3 ==> {
                    &&& (#[trigger] s@[k]).author == k + 1
                    &&& s@[k].master_seed == seeds@[k].0
                    &&& s@[k].op_seed == seeds@[k].1
                    &&& seeded_entry(after[s@[k].author], s@[k].op_seed)
                    &&& master_is(registry_master_keys(*final(registry)), s@[k].author, s@[k].master_seed@)
                }
                &&& after.dom() == before.dom().union(set![1u64, 2u64, 3u64])
                &&& forall|a: u64| #[trigger] before.dom().contains(a) ==> after[a] == before[a]
            }
        }),
{
    let authors = signer_authors();
    let ghost before = registry_epochs(*registry);
    let mut signers: Vec<SeededSigner> = Vec::new();
    let mut i: usize = 0;
    while i < 3
        invariant
            i <= 3,
            seeds.len() == 3,
            authors@ == seq![1u64, 2u64, 3u64],
            signers.len() == i,
            before == registry_epochs(*old(registry)),
            forall|k: int| 0 <= k < i ==> {
                &&& (#[trigger] signers@[k]).author == k + 1
                &&& !before.dom().contains(signers@[k].author)
                &&& signers@[k].master_seed == seeds@[k].0
                &&& signers@[k].op_seed == seeds@[k].1
                &&& seeded_entry(registry_epochs(*registry)[signers@[k].author], signers@[k].op_seed)
                &&& master_is(registry_master_keys(*registry), signers@[k].author, signers@[k].master_seed@)
            },
            registry_epochs(*registry).dom() == before.dom().union(
                Set::new(|a: u64| 1 <= a <= i),
            ),
            forall|a: u64| #[trigger] before.dom().contains(a) ==> registry_epochs(*registry)[a]
                == before[a],
        decreases 3 - i,
    {
        let ghost cur = registry_epochs(*registry);
        let author = authors[i];
        let (master_seed, op_seed) = seeds[i];
        match register_author(registry, author, &master_seed, &op_seed, 1) {
            Ok(()) => {},
            Err(e) => {
                proof {
                    assert(cur.dom().contains(author));
                    assert(before.dom().contains(author));
                }
                return Err(StudioError::Aion(e));
            },
        }
        proof {
            let next = registry_epochs(*registry);
            assert(next.dom() =~= before.dom().union(Set::new(|a: u64| 1 <= a <= i + 1)));
            assert(!before.dom().contains(author)) by {
                assert(!cur.dom().contains(author));
            }
            assert forall|k: int| 0 <= k < i implies next[(#[trigger] signers@[k]).author]
                == cur[signers@[k].author] by {
                assert(cur.dom().contains(signers@[k].author));
            }
        }
        signers.push(SeededSigner { author, master_seed, op_seed });
        i = i + 1;
    }
    proof {
        assert(Set::new(|a: u64| 1 <= a <= 3) =~= set![1u64, 2u64, 3u64]);
        assert(signers@[0].author == 1 && signers@[1].author == 2 && signers@[2].author == 3);
    }
    Ok(signers)
}

/// Seed a workspace that holds no policy yet: draw fresh master and operational seeds for the
/// signer set and register it (`register_signers`); the first signer authors the sample policy.
/// A workspace that already holds a policy is left alone (`None`).
pub fn ensure_seeded(ids: &Vec<PolicyId>, registry: &mut KeyRegistry) -> (r: Result<
    Option<Vec<SeededSigner>>,
    StudioError,
>)
    ensures
        ids.len() > 0 ==> (r matches Ok(None) && registry_epochs(*final(registry))
            == registry_epochs(*old(registry))),
        ids.len() == 0 ==> !(r matches Ok(None)),
        r matches Err(e) ==> e is Aion,
        r matches Ok(Some(s)) ==> ({
            let before = registry_epochs(*old(registry));
            let after = registry_epochs(*final(registry));
            &&& s.len() == 3
            &&& forall|k: int| 0 <= k < 3 ==> {
                &&& (#[trigger] s@[k]).author == k + 1
                &&& !before.dom().contains(s@[k].author)
                &&& seeded_entry(after[s@[k].author], s@[k].op_seed)
                &&& master_is(registry_master_keys(*final(registry)), s@[k].author, s@[k].master_seed@)
            }
            &&& after.dom() == before.dom().union(set![1u64, 2u64, 3u64])
            &&& forall|a: u64| #[trigger] before.dom().contains(a) ==> after[a] == before[a]
        }),
{
    if ids.len() > 0 {
        return Ok(None);
    }
    let mut seeds: Vec<([u8; 32], [u8; 32])> = Vec::new();
    let mut i: usize = 0;
    while i < 3
        invariant
            i <= 3,
            ids.len() == 0,
            seeds.len() == i,
        decreases 3 - i,
    {
        let master_seed = new_seed()?;
        let op_seed = new_seed()?;
        seeds.push((master_seed, op_seed));
        i = i + 1;
    }
    let signers = register_signers(registry, &seeds)?;
    proof {
        assert(signers@[0].author == 1 && signers@[1].author == 2 && signers@[2].author == 3);
    }
    Ok(Some(signers))
}

} // verus!
