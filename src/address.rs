//! Where records live: addresses derived from seeds under the program's id.

use anchor_lang::prelude::Pubkey;
use vstd::prelude::*;

use crate::program::Key;

verus! {

/// The address and bump seed that the address search finds for `seeds`
/// under `program_id`, or `None` where no bump seed gives a valid address.
pub uninterp spec fn program_address(seeds: Seq<Seq<u8>>, program_id: Seq<u8>) -> Option<(Seq<u8>, u8)>;

pub open spec fn seeds_view(seeds: Seq<Vec<u8>>) -> Seq<Seq<u8>> {
    seeds.map_values(|s: Vec<u8>| s@)
}

/// Relies on `Pubkey::try_find_program_address` of solana_program, which
/// anchor_lang re-exports: off-chain it is a search over bump seeds that
/// hashes its arguments, so the outcome depends on the seeds and the program
/// id alone; it returns `None` (and does not panic) where no bump seed works
/// or the seeds are out of bounds.
#[verifier::external_body]
pub(crate) fn try_find_program_address(seeds: &Vec<Vec<u8>>, program_id: &Key) -> (r: Option<
    (Key, u8),
>)
    ensures
        r is None <==> program_address(seeds_view(seeds@), program_id.bytes@) is None,
        r is Some ==> program_address(seeds_view(seeds@), program_id.bytes@) == Some(
            (r.unwrap().0.bytes@, r.unwrap().1),
        ),
{
    let slices: Vec<&[u8]> = seeds.iter().map(|s| s.as_slice()).collect();
    let program = Pubkey::new_from_array(program_id.bytes);
    Pubkey::try_find_program_address(&slices, &program).map(
        |(k, bump)| (Key { bytes: k.to_bytes() }, bump),
    )
}

} // verus!
