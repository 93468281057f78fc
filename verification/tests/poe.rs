use substrate_pallets::origin::{DispatchError, Origin};
use substrate_pallets::poe::{Config, Error, Event, Module};

fn new_module() -> Module {
    Module::new(Config { max_len: 6, min_len: 1 })
}

fn block_number() -> u64 {
    0
}

fn err(e: Error) -> Result<(), DispatchError<Error>> {
    Err(DispatchError::Module(e))
}

#[test]
fn create_claim_works() {
    let mut poe = new_module();
    let claim = vec![0, 1];
    assert_eq!(poe.create_claim(Origin::Signed(1), claim.clone(), block_number()), Ok(()));
    assert_eq!(poe.proofs(&claim), (1, block_number()));
}

#[test]
fn claim_failed_on_exitence() {
    let mut poe = new_module();
    let claim = vec![0, 1];
    let _ = poe.create_claim(Origin::Signed(1), claim.clone(), block_number());
    assert_eq!(
        poe.create_claim(Origin::Signed(1), claim.clone(), block_number()),
        err(Error::ProofsAlreadyExist)
    );
    assert_eq!(poe.proofs(&claim), (1, 0));
    assert_eq!(poe.events().len(), 1);
}

#[test]
fn claim_is_too_long() {
    let mut poe = new_module();
    let claim = vec![0, 1, 2, 3, 4, 5, 6];
    let _ = poe.create_claim(Origin::Signed(1), claim.clone(), block_number());
    assert_eq!(
        poe.create_claim(Origin::Signed(1), claim.clone(), block_number()),
        err(Error::ProofsTooLong)
    );
    assert_eq!(poe.events().len(), 0);
}

#[test]
fn revoke_claim_works() {
    let mut poe = new_module();
    let claim = vec![0, 1];
    let _ = poe.create_claim(Origin::Signed(1), claim.clone(), block_number());
    assert_eq!(poe.revoke_claim(Origin::Signed(1), claim.clone()), Ok(()));
}

#[allow(non_snake_case)]
#[test]
fn claim_failed_as_not_ClaimOwne() {
    let mut poe = new_module();
    let claim = vec![0, 1];
    let _ = poe.create_claim(Origin::Signed(1), claim.clone(), block_number());
    assert_eq!(poe.revoke_claim(Origin::Signed(2), claim.clone()), err(Error::NotClaimOwner));
    assert_eq!(poe.proofs(&claim), (1, 0));
}

#[test]
fn transfer_test() {
    let mut poe = new_module();
    let claim = vec![0, 1];
    let _ = poe.create_claim(Origin::Signed(1), claim.clone(), block_number());
    assert_eq!(poe.transfer_claim(Origin::Signed(1), claim.clone(), 2, block_number()), Ok(()));
    assert_eq!(poe.proofs(&claim.clone()), (2, 0));
}

#[test]
fn create_and_revoke() {
    let mut poe = new_module();
    let claim = vec![1u8, 1];
    assert_eq!(poe.create_claim(Origin::Signed(1), claim.clone(), block_number()), Ok(()));
    assert_eq!(poe.proofs(&claim.clone()), (1, 0));
    assert_eq!(
        poe.create_claim(Origin::Signed(1), claim.clone(), block_number()),
        err(Error::ProofsAlreadyExist)
    );
    assert_eq!(poe.revoke_claim(Origin::Signed(2), claim.clone()), err(Error::NotClaimOwner));
    assert_eq!(poe.revoke_claim(Origin::Signed(1), claim.clone()), Ok(()));
    assert_eq!(
        poe.create_claim(Origin::Signed(1), vec![0u8; 1024], block_number()),
        err(Error::ProofsTooLong)
    );
    assert_eq!(
        poe.create_claim(Origin::Signed(1), vec![0u8; 0], block_number()),
        err(Error::ProofsTooShort)
    );
}

#[test]
fn a_claim_records_the_block_it_was_made_in() {
    let mut poe = new_module();
    let claim = vec![9, 9, 9];
    assert_eq!(poe.create_claim(Origin::Signed(5), claim.clone(), 12), Ok(()));
    assert_eq!(poe.proofs(&claim), (5, 12));
    assert_eq!(poe.transfer_claim(Origin::Signed(5), claim.clone(), 6, 20), Ok(()));
    assert_eq!(poe.proofs(&claim), (6, 20));
    assert_eq!(
        poe.events(),
        &vec![Event::ClaimCreated(5, claim.clone()), Event::ClaimTransfered(5, 6, claim.clone())]
    );
}

#[test]
fn revoke_then_the_claim_reads_as_absent() {
    let mut poe = new_module();
    let claim = vec![4, 2];
    poe.create_claim(Origin::Signed(3), claim.clone(), 8).unwrap();
    poe.revoke_claim(Origin::Signed(3), claim.clone()).unwrap();
    assert_eq!(poe.proofs(&claim), (0, 0));
    assert_eq!(poe.events()[1], Event::ClaimRevoked(3, claim.clone(), 8));
    // the claim can be made again
    assert_eq!(poe.create_claim(Origin::Signed(4), claim.clone(), 9), Ok(()));
}

#[test]
fn a_missing_claim_reads_as_owned_by_account_zero() {
    let mut poe = new_module();
    let claim = vec![7];
    assert_eq!(poe.owner_proof(0, &claim), Ok((0, 0)));
    assert_eq!(poe.owner_proof(1, &claim), Err(Error::NotClaimOwner));
    assert_eq!(poe.revoke_claim(Origin::Signed(1), claim.clone()), err(Error::NotClaimOwner));
    assert_eq!(poe.revoke_claim(Origin::Signed(0), claim.clone()), Ok(()));
}

#[test]
fn transfer_of_a_missing_claim_fails() {
    let mut poe = new_module();
    assert_eq!(poe.transfer_claim(Origin::Signed(1), vec![1], 2, 0), err(Error::ClaimNotExist));
    poe.create_claim(Origin::Signed(1), vec![1], 0).unwrap();
    assert_eq!(poe.transfer_claim(Origin::Signed(3), vec![1], 2, 0), err(Error::NotClaimOwner));
    assert_eq!(poe.transfer_claim(Origin::Root, vec![1], 2, 0), Err(DispatchError::BadOrigin));
}

#[test]
fn set_price_by_the_owner() {
    let mut poe = new_module();
    let claim = vec![1, 2, 3];
    poe.create_claim(Origin::Signed(1), claim.clone(), 0).unwrap();
    assert_eq!(poe.prices(&claim), 0);
    assert_eq!(poe.set_price(Origin::Signed(1), claim.clone(), 50), Ok(()));
    assert_eq!(poe.prices(&claim), 50);
    assert_eq!(poe.set_price(Origin::Signed(1), claim.clone(), 50), Ok(()));
    assert_eq!(poe.prices(&claim), 50);
    assert_eq!(poe.set_price(Origin::Signed(2), claim.clone(), 70), err(Error::NotClaimOwner));
    assert_eq!(poe.prices(&claim), 50);
    assert_eq!(poe.events().last(), Some(&Event::SetPrice(1, claim.clone(), 50)));
    assert_eq!(poe.set_price(Origin::Unsigned, claim.clone(), 70), Err(DispatchError::BadOrigin));
}
