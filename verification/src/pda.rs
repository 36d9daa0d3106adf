//! Deterministic account addressing: every pool authority and obligation is
//! found at a program-derived address computed from stable seeds, so
//! positions stay addressable across restarts.
use vstd::prelude::*;

verus! {

/// The address and bump that program-derived addressing assigns to a seed
/// list under a program id, when one exists. The derivation is a pure
/// function of its inputs: the same seeds and program id name the same
/// address in every process and on every machine.
pub uninterp spec fn pda_try_of(seeds: Seq<Seq<u8>>, program_id: Seq<u8>) -> Option<
    ([u8; 32], u8),
>;

/// Relies on solana_program's Pubkey::try_find_program_address: the derived
/// address and bump seed depend on the seed list and program id alone, and
/// `None` is returned (instead of a panic) when no bump yields a valid
/// address.
#[verifier::external_body]
fn derive_address_2(seed_a: &[u8], seed_b: &[u8], program_id: &[u8; 32]) -> (r: Option<
    ([u8; 32], u8),
>)
    ensures
        r == pda_try_of(seq![seed_a@, seed_b@], program_id@),
{
    let pk = solana_program::pubkey::Pubkey::new_from_array(*program_id);
    solana_program::pubkey::Pubkey::try_find_program_address(&[seed_a, seed_b], &pk)
        .map(|(address, bump)| (address.to_bytes(), bump))
}

/// Relies on solana_program's Pubkey::try_find_program_address, as
/// `derive_address_2` does, for a three-seed list.
#[verifier::external_body]
fn derive_address_3(seed_a: &[u8], seed_b: &[u8], seed_c: &[u8], program_id: &[u8; 32]) -> (r:
    Option<([u8; 32], u8)>)
    ensures
        r == pda_try_of(seq![seed_a@, seed_b@, seed_c@], program_id@),
{
    let pk = solana_program::pubkey::Pubkey::new_from_array(*program_id);
    solana_program::pubkey::Pubkey::try_find_program_address(&[seed_a, seed_b, seed_c], &pk)
        .map(|(address, bump)| (address.to_bytes(), bump))
}

/// The byte seed that names pool authorities ("pool_authority" in ASCII).
pub open spec fn spec_pool_authority_seed() -> Seq<u8> {
    seq![112u8, 111u8, 111u8, 108u8, 95u8, 97u8, 117u8, 116u8, 104u8, 111u8, 114u8, 105u8, 116u8, 121u8]
}

/// The byte seed that names obligations ("obligation" in ASCII).
pub open spec fn spec_obligation_seed() -> Seq<u8> {
    seq![111u8, 98u8, 108u8, 105u8, 103u8, 97u8, 116u8, 105u8, 111u8, 110u8]
}

/// The byte seed that names lock positions ("lock_position" in ASCII).
pub open spec fn spec_lock_position_seed() -> Seq<u8> {
    seq![108u8, 111u8, 99u8, 107u8, 95u8, 112u8, 111u8, 115u8, 105u8, 116u8, 105u8, 111u8, 110u8]
}

/// The address of a pool's signing authority: derived from the authority
/// seed and the pool's address, deterministically.
pub fn find_pool_authority_address(program_id: &[u8; 32], pool_address: &[u8; 32]) -> (r: Option<
    ([u8; 32], u8),
>)
    ensures
        r == pda_try_of(seq![spec_pool_authority_seed(), pool_address@], program_id@),
{
    let seed: [u8; 14] = [112, 111, 111, 108, 95, 97, 117, 116, 104, 111, 114, 105, 116, 121];
    proof {
        assert(seed@ =~= spec_pool_authority_seed());
    }
    derive_address_2(seed.as_slice(), pool_address, program_id)
}

/// The address of a borrower's obligation in a lending pool: derived from
/// the obligation seed, the owner, and the pool, deterministically.
pub fn find_obligation_address(
    program_id: &[u8; 32],
    owner: &[u8; 32],
    lending_pool: &[u8; 32],
) -> (r: Option<([u8; 32], u8)>)
    ensures
        r == pda_try_of(seq![spec_obligation_seed(), owner@, lending_pool@], program_id@),
{
    let seed: [u8; 10] = [111, 98, 108, 105, 103, 97, 116, 105, 111, 110];
    proof {
        assert(seed@ =~= spec_obligation_seed());
    }
    derive_address_3(seed.as_slice(), owner, lending_pool, program_id)
}

/// The address of a user's lock position in a lock pool.
pub fn find_lock_position_address(
    program_id: &[u8; 32],
    owner: &[u8; 32],
    pool: &[u8; 32],
) -> (r: Option<([u8; 32], u8)>)
    ensures
        r == pda_try_of(seq![spec_lock_position_seed(), owner@, pool@], program_id@),
{
    let seed: [u8; 13] = [108, 111, 99, 107, 95, 112, 111, 115, 105, 116, 105, 111, 110];
    proof {
        assert(seed@ =~= spec_lock_position_seed());
    }
    derive_address_3(seed.as_slice(), owner, pool, program_id)
}

} // verus!
