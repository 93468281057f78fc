//! The proof-of-existence module: accounts claim byte strings, and the owner
//! of a claim may revoke it, hand it to another account or set its price.
use vstd::prelude::*;
use crate::storage::StorageMap;
use crate::origin::{DispatchError, Origin, ensure_signed, signer};

verus! {

/// The module's parameters: the longest and the shortest claim it accepts.
#[derive(Clone, Copy, Debug)]
pub struct Config {
    pub max_len: usize,
    pub min_len: u32,
}

/// The errors of the proof-of-existence module.
#[derive(Clone, Copy, Debug, PartialEq, Eq, Structural)]
pub enum Error {
    ProofsAlreadyExist,
    ClaimNotExist,
    NotClaimOwner,
    ProofsTooLong,
    ProofsTooShort,
    PriceTooLow,
    NotForSale,
    CannotBuyYourOwnClaim,
}

/// What the module reports of the calls that succeed.
#[derive(Clone, Debug, PartialEq, Eq)]
pub enum Event {
    /// An account (first) made a claim.
    ClaimCreated(u64, Vec<u8>),
    /// An account revoked a claim that it made in the given block.
    ClaimRevoked(u64, Vec<u8>, u64),
    /// A claim went from the first account to the second.
    ClaimTransfered(u64, u64, Vec<u8>),
    /// An account put a price on a claim.
    SetPrice(u64, Vec<u8>, u128),
}

/// The module's storage: each claim's owner and the block it was made in,
/// each claim's price, and the events deposited so far.
pub struct Module {
    config: Config,
    proofs: StorageMap<Vec<u8>, (u64, u64)>,
    prices: StorageMap<Vec<u8>, u128>,
    events: Vec<Event>,
}

/// The owner and block of `claim` in `m`; `(0, 0)` where there is none.
pub open spec fn proof_of(m: Map<Seq<u8>, (u64, u64)>, claim: Seq<u8>) -> (u64, u64) {
    if m.dom().contains(claim) {
        m[claim]
    } else {
        (0, 0)
    }
}

/// The price of `claim` in `m`; zero where there is none.
pub open spec fn price_of(m: Map<Seq<u8>, u128>, claim: Seq<u8>) -> u128 {
    if m.dom().contains(claim) {
        m[claim]
    } else {
        0
    }
}

impl Module {
    pub closed spec fn wf(&self) -> bool {
        self.proofs.wf() && self.prices.wf()
    }

    /// The module's parameters.
    pub closed spec fn config(&self) -> Config {
        self.config
    }

    /// Each claim's owner and the block it was made in.
    pub closed spec fn proofs_map(&self) -> Map<Seq<u8>, (u64, u64)> {
        self.proofs@
    }

    /// Each claim's price.
    pub closed spec fn prices_map(&self) -> Map<Seq<u8>, u128> {
        self.prices@
    }

    /// The events deposited so far, oldest first.
    pub closed spec fn event_log(&self) -> Seq<Event> {
        self.events@
    }

    /// How creating `claim` by the signer of `origin` ends in this state.
    pub open spec fn create_outcome(&self, origin: Origin, claim: Seq<u8>) -> Result<(), DispatchError<Error>> {
        if signer(origin) is None {
            Err(DispatchError::BadOrigin)
        } else if self.proofs_map().dom().contains(claim) {
            Err(DispatchError::Module(Error::ProofsAlreadyExist))
        } else if self.config().max_len < claim.len() {
            Err(DispatchError::Module(Error::ProofsTooLong))
        } else if self.config().min_len > claim.len() as u32 {
            Err(DispatchError::Module(Error::ProofsTooShort))
        } else {
            Ok(())
        }
    }

    /// How a call of the owner of `claim` by the signer of `origin` ends:
    /// the call must be signed by the account that the claim reads as owned by.
    pub open spec fn owner_outcome(&self, origin: Origin, claim: Seq<u8>) -> Result<(), DispatchError<Error>> {
        if signer(origin) is None {
            Err(DispatchError::BadOrigin)
        } else if proof_of(self.proofs_map(), claim).0 != signer(origin)->0 {
            Err(DispatchError::Module(Error::NotClaimOwner))
        } else {
            Ok(())
        }
    }

    /// How handing `claim` on by the signer of `origin` ends: the claim must
    /// exist and be the signer's.
    pub open spec fn transfer_outcome(&self, origin: Origin, claim: Seq<u8>) -> Result<(), DispatchError<Error>> {
        if signer(origin) is None {
            Err(DispatchError::BadOrigin)
        } else if !self.proofs_map().dom().contains(claim) {
            Err(DispatchError::Module(Error::ClaimNotExist))
        } else if self.proofs_map()[claim].0 != signer(origin)->0 {
            Err(DispatchError::Module(Error::NotClaimOwner))
        } else {
            Ok(())
        }
    }

    /// A module with the given parameters and empty storage.
    pub fn new(config: Config) -> (r: Self)
        ensures
            r.wf(),
            r.config() == config,
            r.proofs_map() == Map::<Seq<u8>, (u64, u64)>::empty(),
            r.prices_map() == Map::<Seq<u8>, u128>::empty(),
            r.event_log() == Seq::<Event>::empty(),
    {
        Module { config, proofs: StorageMap::new(), prices: StorageMap::new(), events: Vec::new() }
    }

    /// The owner of `claim` and the block it was made in; `(0, 0)` where no
    /// one claimed it.
    pub fn proofs(&self, claim: &Vec<u8>) -> (r: (u64, u64))
        requires
            self.wf(),
        ensures
            r == proof_of(self.proofs_map(), claim@),
    {
        match self.proofs.get(claim) {
            Some(p) => p,
            None => (0, 0),
        }
    }

    /// The price of `claim`; zero where none was set.
    pub fn prices(&self, claim: &Vec<u8>) -> (r: u128)
        requires
            self.wf(),
        ensures
            r == price_of(self.prices_map(), claim@),
    {
        match self.prices.get(claim) {
            Some(p) => p,
            None => 0,
        }
    }

    /// The events deposited so far, oldest first.
    pub fn events(&self) -> (r: &Vec<Event>)
        ensures
            r@ == self.event_log(),
    {
        &self.events
    }

    /// The owner and block of `claim`, if `sender` is the account that the
    /// claim reads as owned by (a missing claim reads as owned by account 0).
    pub fn owner_proof(&self, sender: u64, claim: &Vec<u8>) -> (r: Result<(u64, u64), Error>)
        requires
            self.wf(),
        ensures
            r == if proof_of(self.proofs_map(), claim@).0 == sender {
                Ok::<(u64, u64), Error>(proof_of(self.proofs_map(), claim@))
            } else {
                Err::<(u64, u64), Error>(Error::NotClaimOwner)
            },
    {
        let p = self.proofs(claim);
        let (owner, block_number) = p;
        if owner != sender {
            return Err(Error::NotClaimOwner);
        }
        Ok((owner, block_number))
    }

    /// Records `claim` as made by the signer of `origin` in block `block_number`.
    pub fn create_claim(&mut self, origin: Origin, claim: Vec<u8>, block_number: u64) -> (r: Result<(), DispatchError<Error>>)
        requires
            old(self).wf(),
        ensures
            final(self).wf(),
            r == old(self).create_outcome(origin, claim@),
            signer(origin) is Some && old(self).proofs_map().dom().contains(claim@) ==> r
                == Err::<(), DispatchError<Error>>(DispatchError::Module(Error::ProofsAlreadyExist)),
            old(self).proofs_map().dom().contains(claim@) ==> final(self).proofs_map()[claim@]
                == old(self).proofs_map()[claim@],
            r is Err ==> *final(self) == *old(self),
            r is Ok ==> {
                let sender = signer(origin)->0;
                &&& final(self).config() == old(self).config()
                &&& final(self).proofs_map() == old(self).proofs_map().insert(claim@, (sender, block_number))
                &&& final(self).prices_map() == old(self).prices_map()
                &&& final(self).event_log() == old(self).event_log().push(Event::ClaimCreated(sender, claim))
            },
    {
        let sender = ensure_signed(origin)?;
        if self.proofs.contains_key(&claim) {
            return Err(DispatchError::Module(Error::ProofsAlreadyExist));
        }
        if !(self.config.max_len >= claim.len()) {
            return Err(DispatchError::Module(Error::ProofsTooLong));
        }
        if !(self.config.min_len <= claim.len() as u32) {
            return Err(DispatchError::Module(Error::ProofsTooShort));
        }
        self.proofs.insert(claim.clone(), (sender, block_number));
        self.events.push(Event::ClaimCreated(sender, claim));
        Ok(())
    }

    /// Removes `claim`, if the signer of `origin` owns it.
    pub fn revoke_claim(&mut self, origin: Origin, claim: Vec<u8>) -> (r: Result<(), DispatchError<Error>>)
        requires
            old(self).wf(),
        ensures
            final(self).wf(),
            r == old(self).owner_outcome(origin, claim@),
            r is Ok <==> (signer(origin) is Some && proof_of(old(self).proofs_map(), claim@).0
                == signer(origin)->0),
            signer(origin) is Some && proof_of(old(self).proofs_map(), claim@).0 != signer(origin)->0
                ==> r == Err::<(), DispatchError<Error>>(DispatchError::Module(Error::NotClaimOwner)),
            r is Err ==> *final(self) == *old(self),
            r is Ok ==> {
                let sender = signer(origin)->0;
                &&& final(self).config() == old(self).config()
                &&& final(self).proofs_map() == old(self).proofs_map().remove(claim@)
                &&& final(self).prices_map() == old(self).prices_map()
                &&& final(self).event_log() == old(self).event_log().push(
                    Event::ClaimRevoked(sender, claim, proof_of(old(self).proofs_map(), claim@).1),
                )
            },
    {
        let sender = ensure_signed(origin)?;
        let (_acc, block_number) = match self.owner_proof(sender, &claim) {
            Ok(p) => p,
            Err(e) => return Err(DispatchError::Module(e)),
        };
        let _ = self.proofs.take(&claim);
        self.events.push(Event::ClaimRevoked(sender, claim, block_number));
        Ok(())
    }

    /// Hands `claim` from the signer of `origin` to `dest`, as made in block
    /// `block_number`.
    pub fn transfer_claim(&mut self, origin: Origin, claim: Vec<u8>, dest: u64, block_number: u64) -> (r: Result<(), DispatchError<Error>>)
        requires
            old(self).wf(),
        ensures
            final(self).wf(),
            r == old(self).transfer_outcome(origin, claim@),
            r is Ok ==> signer(origin) is Some && old(self).proofs_map().dom().contains(claim@)
                && old(self).proofs_map()[claim@].0 == signer(origin)->0,
            signer(origin) is Some && old(self).proofs_map().dom().contains(claim@)
                && old(self).proofs_map()[claim@].0 != signer(origin)->0 ==> r
                == Err::<(), DispatchError<Error>>(DispatchError::Module(Error::NotClaimOwner)),
            r is Err ==> *final(self) == *old(self),
            r is Ok ==> {
                let sender = signer(origin)->0;
                &&& final(self).config() == old(self).config()
                &&& final(self).proofs_map() == old(self).proofs_map().insert(claim@, (dest, block_number))
                &&& final(self).prices_map() == old(self).prices_map()
                &&& final(self).event_log() == old(self).event_log().push(
                    Event::ClaimTransfered(sender, dest, claim),
                )
            },
    {
        let sender = ensure_signed(origin)?;
        if !self.proofs.contains_key(&claim) {
            return Err(DispatchError::Module(Error::ClaimNotExist));
        }
        let (owner, _block_number) = self.proofs(&claim);
        if owner != sender {
            return Err(DispatchError::Module(Error::NotClaimOwner));
        }
        self.proofs.insert(claim.clone(), (dest, block_number));
        self.events.push(Event::ClaimTransfered(sender, dest, claim));
        Ok(())
    }

    /// Sets the price of `claim`, if the signer of `origin` owns it.
    pub fn set_price(&mut self, origin: Origin, claim: Vec<u8>, new_price: u128) -> (r: Result<(), DispatchError<Error>>)
        requires
            old(self).wf(),
        ensures
            final(self).wf(),
            r == old(self).owner_outcome(origin, claim@),
            r is Ok <==> (signer(origin) is Some && proof_of(old(self).proofs_map(), claim@).0
                == signer(origin)->0),
            signer(origin) is Some && proof_of(old(self).proofs_map(), claim@).0 != signer(origin)->0
                ==> r == Err::<(), DispatchError<Error>>(DispatchError::Module(Error::NotClaimOwner)),
            r is Err ==> *final(self) == *old(self),
            r is Ok ==> {
                let sender = signer(origin)->0;
                &&& final(self).config() == old(self).config()
                &&& final(self).proofs_map() == old(self).proofs_map()
                &&& final(self).prices_map() == if price_of(old(self).prices_map(), claim@) != new_price {
                    old(self).prices_map().insert(claim@, new_price)
                } else {
                    old(self).prices_map()
                }
                &&& final(self).event_log() == old(self).event_log().push(
                    Event::SetPrice(sender, claim, new_price),
                )
            },
    {
        let sender = ensure_signed(origin)?;
        match self.owner_proof(sender, &claim) {
            Ok(_) => {},
            Err(e) => return Err(DispatchError::Module(e)),
        }
        let current_price = self.prices(&claim);
        if current_price != new_price {
            self.prices.insert(claim.clone(), new_price);
        }
        self.events.push(Event::SetPrice(sender, claim, new_price));
        Ok(())
    }
}

/// Once set, a price reads back as set, whether or not storage was written.
pub proof fn lemma_set_price_reads_back(m: Map<Seq<u8>, u128>, claim: Seq<u8>, new_price: u128)
    ensures
        price_of(
            if price_of(m, claim) != new_price {
                m.insert(claim, new_price)
            } else {
                m
            },
            claim,
        ) == new_price,
{
}

/// Revoking a claim just created by the same account brings the claims back
/// to what they were before.
pub proof fn lemma_revoke_undoes_create(
    m: Map<Seq<u8>, (u64, u64)>,
    claim: Seq<u8>,
    sender: u64,
    block_number: u64,
)
    requires
        !m.dom().contains(claim),
    ensures
        m.insert(claim, (sender, block_number)).remove(claim) == m,
        proof_of(m.insert(claim, (sender, block_number)), claim).0 == sender,
{
    assert(m.insert(claim, (sender, block_number)).remove(claim) =~= m);
}

/// Creating a claim that exists fails with `ProofsAlreadyExist` whoever signs;
/// creating one that does not exist succeeds exactly when it is signed and
/// its length lies within the configured bounds.
pub proof fn lemma_create_claim_outcome_characterized(state: Module, origin: Origin, claim: Seq<u8>)
    ensures
        signer(origin) is Some && state.proofs_map().dom().contains(claim) ==> state.create_outcome(
            origin,
            claim,
        ) == Err::<(), DispatchError<Error>>(DispatchError::Module(Error::ProofsAlreadyExist)),
        state.create_outcome(origin, claim) is Ok <==> (signer(origin) is Some
            && !state.proofs_map().dom().contains(claim) && claim.len() <= state.config().max_len
            && state.config().min_len <= claim.len() as u32),
{
}

/// Handing on a claim succeeds exactly when the claim exists and the signer
/// owns it, whatever its price; any other signer of an existing claim gets
/// `NotClaimOwner`.
pub proof fn lemma_transfer_outcome_characterized(state: Module, origin: Origin, claim: Seq<u8>)
    ensures
        state.transfer_outcome(origin, claim) is Ok <==> (signer(origin) is Some
            && state.proofs_map().dom().contains(claim) && state.proofs_map()[claim].0 == signer(
            origin,
        )->0),
        signer(origin) is Some && state.proofs_map().dom().contains(claim)
            && state.proofs_map()[claim].0 != signer(origin)->0 ==> state.transfer_outcome(origin, claim)
            == Err::<(), DispatchError<Error>>(DispatchError::Module(Error::NotClaimOwner)),
{
}

/// Revoking a claim or pricing it succeeds exactly when the signer is the
/// account the claim reads as owned by; any other signer gets `NotClaimOwner`.
pub proof fn lemma_owner_outcome_characterized(state: Module, origin: Origin, claim: Seq<u8>)
    ensures
        state.owner_outcome(origin, claim) is Ok <==> (signer(origin) is Some && proof_of(
            state.proofs_map(),
            claim,
        ).0 == signer(origin)->0),
        signer(origin) is Some && proof_of(state.proofs_map(), claim).0 != signer(origin)->0
            ==> state.owner_outcome(origin, claim) == Err::<(), DispatchError<Error>>(
            DispatchError::Module(Error::NotClaimOwner),
        ),
{
}

} // verus!
