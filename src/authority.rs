use anchor_lang::prelude::Pubkey;
use vstd::prelude::*;

use crate::address::Address;

verus! {

/// The address, with its bump, that the ledger derives for a program from
/// the seeds `[label, seed]`, or `None` where no bump gives one.
pub uninterp spec fn program_address_of(label: Seq<u8>, seed: Seq<u8>, program_id: Seq<u8>) -> Option<
    (Seq<u8>, u8),
>;

/// Relies on `Pubkey::try_find_program_address` (solana_program, through
/// anchor_lang): it hashes the seeds `[label, seed]` with the program id and
/// returns the first off-curve address with its bump, or `None`; the result
/// depends on the arguments alone.
#[verifier::external_body]
fn find_program_address(label: &[u8], seed: &[u8], program_id: &Address) -> (r: Option<(Address, u8)>)
    ensures
        match r {
            Some((a, bump)) => program_address_of(label@, seed@, program_id@) == Some((a@, bump)),
            None => program_address_of(label@, seed@, program_id@) is None,
        },
{
    let program = Pubkey::new_from_array(program_id.bytes);
    match Pubkey::try_find_program_address(&[label, seed], &program) {
        Some((key, bump)) => Some((Address { bytes: key.to_bytes() }, bump)),
        None => None,
    }
}

/// The domain-separation label under which pool authorities are derived.
pub open spec fn authority_label() -> Seq<u8> {
    // "swap_authority"
    seq![
        115u8, 119u8, 97u8, 112u8, 95u8, 97u8, 117u8, 116u8, 104u8, 111u8, 114u8, 105u8, 116u8, 121u8,
    ]
}

/// The label as bytes.
pub fn authority_label_bytes() -> (r: Vec<u8>)
    ensures
        r@ == authority_label(),
{
    let r = vec![
        115u8, 119u8, 97u8, 112u8, 95u8, 97u8, 117u8, 116u8, 104u8, 111u8, 114u8, 105u8, 116u8, 121u8,
    ];
    assert(r@ =~= authority_label());
    r
}

/// The derived authority of the pool with `seed` under `program_id`: the
/// keyless identity that owns the pool's reserves, with its bump.
pub open spec fn authority_of(seed: Seq<u8>, program_id: Seq<u8>) -> Option<(Seq<u8>, u8)> {
    program_address_of(authority_label(), seed, program_id)
}

/// Computes the derived authority of the pool with `seed`.
pub fn derive_authority(seed: &[u8], program_id: &Address) -> (r: Option<(Address, u8)>)
    ensures
        match r {
            Some((a, bump)) => authority_of(seed@, program_id@) == Some((a@, bump)),
            None => authority_of(seed@, program_id@) is None,
        },
{
    let label = authority_label_bytes();
    find_program_address(label.as_slice(), seed, program_id)
}

} // verus!
