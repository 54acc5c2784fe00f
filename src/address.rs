//! Derived record addresses. An order's record and its escrow account live
//! at program-derived addresses: the order's from its id, the escrow's from
//! the order's address.
use vstd::prelude::*;

use anchor_lang::solana_program::pubkey::Pubkey;
use vstd::string::StringSliceAdditionalSpecFns;
use vstd::utf8::encode_utf8;

use crate::key::Key;

verus! {

/// The address (without its bump seed) that `Pubkey::try_find_program_address`
/// derives from the seeds `[tag, data]` under `program_id`, or `None` where it
/// finds none.
pub uninterp spec fn program_address_of(tag: Seq<u8>, data: Seq<u8>, program_id: Seq<u8>) -> Option<
    Seq<u8>,
>;

/// Relies on solana_program's `Pubkey::try_find_program_address`: the address
/// depends on the seeds and the program id alone, and no address is found
/// when a seed is longer than 32 bytes.
#[verifier::external_body]
fn find_program_address(tag: &[u8], data: &[u8], program_id: &Key) -> (r: Option<Key>)
    ensures
        match r {
            Some(k) => program_address_of(tag@, data@, program_id.bytes@) == Some(k.bytes@),
            None => program_address_of(tag@, data@, program_id.bytes@) is None,
        },
        tag@.len() > 32 || data@.len() > 32 ==> r is None,
{
    let program = Pubkey::new_from_array(program_id.bytes);
    Pubkey::try_find_program_address(&[tag, data], &program).map(|(a, _)| Key { bytes: a.to_bytes() })
}

/// The seed that tags order records.
pub open spec fn order_tag() -> Seq<u8> {
    "order".spec_bytes()
}

/// The seed that tags escrow accounts.
pub open spec fn escrow_tag() -> Seq<u8> {
    "escrow".spec_bytes()
}

/// The address of the order record with id `order_id`.
pub open spec fn order_address_of(program_id: Key, order_id: Seq<char>) -> Option<Seq<u8>> {
    program_address_of(order_tag(), encode_utf8(order_id), program_id.bytes@)
}

/// The address of the escrow account bound to the order with id `order_id`.
pub open spec fn escrow_address_of(program_id: Key, order_id: Seq<char>) -> Option<Seq<u8>> {
    match order_address_of(program_id, order_id) {
        Some(a) => program_address_of(escrow_tag(), a, program_id.bytes@),
        None => None,
    }
}

/// Derives the address of the order record with id `order_id`.
pub fn derive_order_key(program_id: &Key, order_id: &String) -> (r: Option<Key>)
    ensures
        match r {
            Some(k) => order_address_of(*program_id, order_id@) == Some(k.bytes@),
            None => order_address_of(*program_id, order_id@) is None,
        },
        encode_utf8(order_id@).len() > 32 ==> r is None,
{
    find_program_address("order".as_bytes(), order_id.as_str().as_bytes(), program_id)
}

/// Derives the address of the escrow account of the order with id
/// `order_id`.
pub fn derive_escrow_key(program_id: &Key, order_id: &String) -> (r: Option<Key>)
    ensures
        match r {
            Some(k) => escrow_address_of(*program_id, order_id@) == Some(k.bytes@),
            None => escrow_address_of(*program_id, order_id@) is None,
        },
        encode_utf8(order_id@).len() > 32 ==> r is None,
{
    match derive_order_key(program_id, order_id) {
        Some(order_key) => find_program_address("escrow".as_bytes(), &order_key.bytes, program_id),
        None => None,
    }
}

} // verus!
