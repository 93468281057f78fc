//! The kitties module: kitties with a 128-bit DNA, numbered in creation order,
//! each account's kitties kept in a doubly linked list inside a storage map.
//!
//! The list of an account lives under the keys `(account, None)` (the head)
//! and `(account, Some(kitty_id))` (one item per kitty). The head's `prev`
//! is the last kitty and its `next` the first; an item's `prev`/`next` are its
//! neighbours, `None` standing for the head.
use vstd::prelude::*;
use crate::storage::{StorageMap, map_get};
use crate::origin::{DispatchError, Origin, ensure_signed, signer};
use crate::hashing::{blake2_128, blake2_128_of, encode_payload, payload_bytes};

verus! {

/// A kitty: its DNA.
#[derive(Clone, Copy, Debug, PartialEq, Eq)]
pub struct Kitty(pub [u8; 16]);

/// A node of an owner's list of kitties.
#[derive(Clone, Copy, Debug, PartialEq, Eq, Structural)]
pub struct KittyLinkedItem {
    pub prev: Option<u32>,
    pub next: Option<u32>,
}

/// The key under which a node of `account`'s list is stored.
pub type OwnedKey = (u64, Option<u32>);

/// What the storage holds of the kitties owned by each account.
pub struct OwnedKitties {
    items: StorageMap<OwnedKey, KittyLinkedItem>,
}

/// The node that a missing key reads as.
pub open spec fn empty_item() -> KittyLinkedItem {
    KittyLinkedItem { prev: None, next: None }
}

/// The node under `(account, key)`, or the empty node where there is none.
pub open spec fn read_item(m: Map<OwnedKey, KittyLinkedItem>, account: u64, key: Option<u32>) -> KittyLinkedItem {
    if m.dom().contains((account, key)) {
        m[(account, key)]
    } else {
        empty_item()
    }
}

/// The storage after `kitty_id` is appended to `account`'s list: the head
/// points back to the new kitty, the old last node (or the head itself, for
/// an empty list) points forward to it, and the new node points back to the
/// old last node.
pub open spec fn appended(m: Map<OwnedKey, KittyLinkedItem>, account: u64, kitty_id: u32) -> Map<OwnedKey, KittyLinkedItem> {
    let head = read_item(m, account, None);
    let m1 = m.insert((account, None), KittyLinkedItem { prev: Some(kitty_id), next: head.next });
    let last = read_item(m1, account, head.prev);
    let m2 = m1.insert((account, head.prev), KittyLinkedItem { prev: last.prev, next: Some(kitty_id) });
    m2.insert((account, Some(kitty_id)), KittyLinkedItem { prev: head.prev, next: None })
}

/// The storage after `kitty_id` is unlinked from `account`'s list: its node
/// is taken out, and its neighbours (the head standing for a missing one)
/// are linked to each other. Where there is no node, nothing changes.
pub open spec fn removed(m: Map<OwnedKey, KittyLinkedItem>, account: u64, kitty_id: u32) -> Map<OwnedKey, KittyLinkedItem> {
    if m.dom().contains((account, Some(kitty_id))) {
        let item = m[(account, Some(kitty_id))];
        let m0 = m.remove((account, Some(kitty_id)));
        let before = read_item(m0, account, item.prev);
        let m1 = m0.insert((account, item.prev), KittyLinkedItem { prev: before.prev, next: item.next });
        let after = read_item(m1, account, item.next);
        m1.insert((account, item.next), KittyLinkedItem { prev: item.prev, next: after.next })
    } else {
        m
    }
}

impl View for OwnedKitties {
    type V = Map<OwnedKey, KittyLinkedItem>;

    closed spec fn view(&self) -> Map<OwnedKey, KittyLinkedItem> {
        self.items@
    }
}

impl OwnedKitties {
    pub closed spec fn wf(&self) -> bool {
        self.items.wf()
    }

    /// Storage that holds no list.
    pub fn new() -> (r: Self)
        ensures
            r.wf(),
            r@ == Map::<OwnedKey, KittyLinkedItem>::empty(),
    {
        OwnedKitties { items: StorageMap::new() }
    }

    /// The node stored under `key`, if any.
    pub fn get(&self, key: &OwnedKey) -> (r: Option<KittyLinkedItem>)
        requires
            self.wf(),
        ensures
            r == map_get(self@, *key),
    {
        self.items.get(key)
    }

    /// The node under `(account, key)`; the empty node where there is none.
    pub fn read(&self, account: u64, key: Option<u32>) -> (r: KittyLinkedItem)
        requires
            self.wf(),
        ensures
            r == read_item(self@, account, key),
    {
        match self.items.get(&(account, key)) {
            Some(item) => item,
            None => KittyLinkedItem { prev: None, next: None },
        }
    }

    /// The head of `account`'s list.
    pub fn read_head(&self, account: u64) -> (r: KittyLinkedItem)
        requires
            self.wf(),
        ensures
            r == read_item(self@, account, None),
    {
        self.read(account, None)
    }

    /// Stores `item` under `(account, key)`.
    pub fn write(&mut self, account: u64, key: Option<u32>, item: KittyLinkedItem)
        requires
            old(self).wf(),
        ensures
            final(self).wf(),
            final(self)@ == old(self)@.insert((account, key), item),
    {
        self.items.insert((account, key), item);
    }

    /// Stores `item` as the head of `account`'s list.
    pub fn write_head(&mut self, account: u64, item: KittyLinkedItem)
        requires
            old(self).wf(),
        ensures
            final(self).wf(),
            final(self)@ == old(self)@.insert((account, None), item),
    {
        self.write(account, None, item);
    }

    /// Appends `kitty_id` at the end of `account`'s list.
    pub fn append(&mut self, account: u64, kitty_id: u32)
        requires
            old(self).wf(),
        ensures
            final(self).wf(),
            final(self)@ == appended(old(self)@, account, kitty_id),
    {
        let head = self.read_head(account);
        let new_head = KittyLinkedItem { prev: Some(kitty_id), next: head.next };
        self.write_head(account, new_head);

        let prev = self.read(account, head.prev);
        let new_prev = KittyLinkedItem { prev: prev.prev, next: Some(kitty_id) };
        self.write(account, head.prev, new_prev);

        let item = KittyLinkedItem { prev: head.prev, next: None };
        self.write(account, Some(kitty_id), item);
    }

    /// Unlinks `kitty_id` from `account`'s list, if it has a node there.
    pub fn remove(&mut self, account: u64, kitty_id: u32)
        requires
            old(self).wf(),
        ensures
            final(self).wf(),
            final(self)@ == removed(old(self)@, account, kitty_id),
    {
        if let Some(item) = self.items.take(&(account, Some(kitty_id))) {
            let prev = self.read(account, item.prev);
            let new_prev = KittyLinkedItem { prev: prev.prev, next: item.next };
            self.write(account, item.prev, new_prev);

            let next = self.read(account, item.next);
            let new_next = KittyLinkedItem { prev: item.prev, next: next.next };
            self.write(account, item.next, new_next);
        }
    }
}


/// The errors of the kitties module.
#[derive(Clone, Copy, Debug, PartialEq, Eq, Structural)]
pub enum Error {
    KittiesCountOverflow,
    InvalidKittyId,
    RequireDifferentParent,
}

/// What a block offers a call of the kitties module: the seed of the chain's
/// randomness, the index of the call within the block, and the block's number.
#[derive(Clone, Copy, Debug)]
pub struct ChainContext {
    pub random_seed: [u8; 32],
    pub extrinsic_index: Option<u32>,
    pub block_number: u64,
}

/// The 128 random bits drawn for `sender` in the block described by `ctx`.
pub open spec fn random_bits(sender: u64, ctx: ChainContext) -> Seq<u8> {
    blake2_128_of(
        payload_bytes(ctx.random_seed@, sender, ctx.extrinsic_index, ctx.block_number),
    )
}

/// The byte that takes the bits of `dna1` where `selector` has a one and those
/// of `dna2` where it has a zero.
pub open spec fn combined(dna1: u8, dna2: u8, selector: u8) -> u8 {
    (selector & dna1) | (!selector & dna2)
}

/// The DNA of a kitty bred from parents `dna1` and `dna2` with `selector`,
/// byte by byte.
pub open spec fn bred(dna1: Seq<u8>, dna2: Seq<u8>, selector: Seq<u8>) -> Seq<u8> {
    Seq::new(16, |i: int| combined(dna1[i], dna2[i], selector[i]))
}

/// Combines one byte of two parents' DNA, bit by bit, as `selector` says.
pub fn combine_dna(dna1: u8, dna2: u8, selector: u8) -> (r: u8)
    ensures
        r == combined(dna1, dna2, selector),
{
    (selector & dna1) | (!selector & dna2)
}

/// Each bit of a combined byte is the parent's bit that the selector names:
/// a one selects `dna1`, a zero `dna2`.
pub proof fn lemma_combine_dna_selects_bits(dna1: u8, dna2: u8, selector: u8, bit: u8)
    requires
        bit < 8,
    ensures
        (combined(dna1, dna2, selector) >> bit) & 1 == if (selector >> bit) & 1 == 1 {
            (dna1 >> bit) & 1
        } else {
            (dna2 >> bit) & 1
        },
{
    assert(((((selector & dna1) | (!selector & dna2)) >> bit) & 1) == if (selector >> bit) & 1
        == 1 {
        (dna1 >> bit) & 1
    } else {
        (dna2 >> bit) & 1
    }) by (bit_vector)
        requires
            bit < 8,
    ;
}

/// The DNA of a kitty bred from two parents with a 128-bit selector.
pub fn breed_dna(dna1: &[u8; 16], dna2: &[u8; 16], selector: &[u8; 16]) -> (r: [u8; 16])
    ensures
        r@ == bred(dna1@, dna2@, selector@),
{
    let mut new_dna = [0u8; 16];
    let mut i: usize = 0;
    while i < 16
        invariant
            0 <= i <= 16,
            new_dna@.len() == 16,
            forall|j: int| 0 <= j < i ==> new_dna@[j] == combined(dna1@[j], dna2@[j], selector@[j]),
        decreases 16 - i,
    {
        new_dna[i] = combine_dna(dna1[i], dna2[i], selector[i]);
        i = i + 1;
    }
    assert(new_dna@ =~= bred(dna1@, dna2@, selector@));
    new_dna
}

/// The kitties module's storage: the kitties by index, how many there are
/// (the index the next one gets), and each account's list of kitties.
pub struct Module {
    kitties: StorageMap<u32, Kitty>,
    kitties_count: u32,
    owned_kitties: OwnedKitties,
}

impl Module {
    pub closed spec fn wf(&self) -> bool {
        self.kitties.wf() && self.owned_kitties.wf()
    }

    /// The stored kitties, by index.
    pub closed spec fn kitties_map(&self) -> Map<u32, Kitty> {
        self.kitties@
    }

    /// The index the next kitty gets.
    pub closed spec fn count(&self) -> u32 {
        self.kitties_count
    }

    /// The lists of kitties of all accounts.
    pub closed spec fn owned(&self) -> Map<OwnedKey, KittyLinkedItem> {
        self.owned_kitties@
    }

    /// Every stored kitty has an index below the count of kitties.
    pub open spec fn indices_below_count(&self) -> bool {
        forall|k: u32| #[trigger] self.kitties_map().dom().contains(k) ==> k < self.count()
    }

    /// A module whose storage is empty.
    pub fn new() -> (r: Self)
        ensures
            r.wf(),
            r.kitties_map() == Map::<u32, Kitty>::empty(),
            r.count() == 0,
            r.owned() == Map::<OwnedKey, KittyLinkedItem>::empty(),
    {
        Module { kitties: StorageMap::new(), kitties_count: 0, owned_kitties: OwnedKitties::new() }
    }

    /// The kitty with index `kitty_id`, if there is one.
    pub fn kitties(&self, kitty_id: u32) -> (r: Option<Kitty>)
        requires
            self.wf(),
        ensures
            r == map_get(self.kitties_map(), kitty_id),
    {
        self.kitties.get(&kitty_id)
    }

    /// How many kitties were made: the index the next one gets.
    pub fn kitties_count(&self) -> (r: u32)
        ensures
            r == self.count(),
    {
        self.kitties_count
    }

    /// The lists of kitties of all accounts.
    pub fn owned_kitties(&self) -> (r: &OwnedKitties)
        requires
            self.wf(),
        ensures
            r.wf(),
            r@ == self.owned(),
    {
        &self.owned_kitties
    }

    /// 128 random bits for `sender`: the Blake2 hash of the SCALE encoding of
    /// the chain's random seed, the sender, the call's index in the block and
    /// the block's number.
    pub fn random_value(sender: u64, ctx: &ChainContext) -> (r: [u8; 16])
        ensures
            r@ == random_bits(sender, *ctx),
    {
        let payload = encode_payload(
            &ctx.random_seed,
            sender,
            ctx.extrinsic_index,
            ctx.block_number,
        );
        blake2_128(payload.as_slice())
    }

    /// The index of the next kitty, unless every index is taken.
    pub fn next_kitty_id(&self) -> (r: Result<u32, Error>)
        ensures
            r == if self.count() == u32::MAX {
                Err::<u32, Error>(Error::KittiesCountOverflow)
            } else {
                Ok::<u32, Error>(self.count())
            },
    {
        let kitty_id = self.kitties_count;
        if kitty_id == u32::MAX {
            return Err(Error::KittiesCountOverflow);
        }
        Ok(kitty_id)
    }

    /// Appends `kitty_id` to `owner`'s list.
    pub fn insert_owned_kitty(&mut self, owner: u64, kitty_id: u32)
        requires
            old(self).wf(),
        ensures
            final(self).wf(),
            final(self).kitties_map() == old(self).kitties_map(),
            final(self).count() == old(self).count(),
            final(self).owned() == appended(old(self).owned(), owner, kitty_id),
    {
        self.owned_kitties.append(owner, kitty_id);
    }

    /// Stores `kitty` under `kitty_id`, makes `kitty_id + 1` the next index and
    /// appends the kitty to `owner`'s list.
    pub fn insert_kitty(&mut self, owner: u64, kitty_id: u32, kitty: Kitty)
        requires
            old(self).wf(),
            kitty_id < u32::MAX,
        ensures
            final(self).wf(),
            final(self).kitties_map() == old(self).kitties_map().insert(kitty_id, kitty),
            final(self).count() == kitty_id + 1,
            final(self).owned() == appended(old(self).owned(), owner, kitty_id),
    {
        self.kitties.insert(kitty_id, kitty);
        self.kitties_count = kitty_id + 1;
        self.insert_owned_kitty(owner, kitty_id);
    }

    /// Breeds a kitty for `sender` from the kitties `kitty_id_1` and
    /// `kitty_id_2`, its DNA mixed by the random bits of the block.
    pub fn do_breed(&mut self, sender: u64, kitty_id_1: u32, kitty_id_2: u32, ctx: &ChainContext) -> (r: Result<(), Error>)
        requires
            old(self).wf(),
        ensures
            final(self).wf(),
            r == breed_outcome(*old(self), kitty_id_1, kitty_id_2),
            r is Ok <==> (old(self).kitties_map().dom().contains(kitty_id_1)
                && old(self).kitties_map().dom().contains(kitty_id_2) && kitty_id_1 != kitty_id_2
                && old(self).count() < u32::MAX),
            old(self).indices_below_count() ==> final(self).indices_below_count(),
            r is Err ==> *final(self) == *old(self),
            r is Ok ==> {
                let id = old(self).count();
                &&& final(self).kitties_map().dom() == old(self).kitties_map().dom().insert(id)
                &&& forall|k: u32| k != id && #[trigger] old(self).kitties_map().dom().contains(k)
                    ==> final(self).kitties_map()[k] == old(self).kitties_map()[k]
                &&& final(self).kitties_map()[id].0@ == bred(
                    old(self).kitties_map()[kitty_id_1].0@,
                    old(self).kitties_map()[kitty_id_2].0@,
                    random_bits(sender, *ctx),
                )
                &&& final(self).count() == id + 1
                &&& final(self).owned() == appended(old(self).owned(), sender, id)
            },
    {
        let kitty1 = match self.kitties(kitty_id_1) {
            Some(k) => k,
            None => return Err(Error::InvalidKittyId),
        };
        let kitty2 = match self.kitties(kitty_id_2) {
            Some(k) => k,
            None => return Err(Error::InvalidKittyId),
        };
        if kitty_id_1 == kitty_id_2 {
            return Err(Error::RequireDifferentParent);
        }
        let kitty_id = match self.next_kitty_id() {
            Ok(id) => id,
            Err(e) => return Err(e),
        };
        let selector = Self::random_value(sender, ctx);
        let new_dna = breed_dna(&kitty1.0, &kitty2.0, &selector);
        self.insert_kitty(sender, kitty_id, Kitty(new_dna));
        Ok(())
    }

    /// Moves `kitty_id` from `from`'s list to the end of `to`'s list.
    pub fn do_transfer(&mut self, from: u64, to: u64, kitty_id: u32)
        requires
            old(self).wf(),
        ensures
            final(self).wf(),
            final(self).kitties_map() == old(self).kitties_map(),
            final(self).count() == old(self).count(),
            final(self).owned() == appended(removed(old(self).owned(), from, kitty_id), to, kitty_id),
    {
        self.owned_kitties.remove(from, kitty_id);
        self.owned_kitties.append(to, kitty_id);
    }

    /// Creates a kitty with random DNA for the signer of `origin`.
    pub fn create(&mut self, origin: Origin, ctx: &ChainContext) -> (r: Result<(), DispatchError<Error>>)
        requires
            old(self).wf(),
        ensures
            final(self).wf(),
            r == create_outcome(origin, *old(self)),
            signer(origin) is Some && old(self).count() < u32::MAX ==> r == Ok::<(), DispatchError<Error>>(()),
            r == Err::<(), DispatchError<Error>>(DispatchError::Module(Error::KittiesCountOverflow)) ==> old(self).count() == u32::MAX,
            old(self).indices_below_count() ==> final(self).indices_below_count(),
            r is Err ==> *final(self) == *old(self),
            r is Ok ==> {
                let id = old(self).count();
                let sender = signer(origin)->0;
                &&& final(self).kitties_map().dom() == old(self).kitties_map().dom().insert(id)
                &&& forall|k: u32| k != id && #[trigger] old(self).kitties_map().dom().contains(k)
                    ==> final(self).kitties_map()[k] == old(self).kitties_map()[k]
                &&& final(self).kitties_map()[id].0@ == random_bits(sender, *ctx)
                &&& final(self).count() == id + 1
                &&& final(self).owned() == appended(old(self).owned(), sender, id)
            },
    {
        let sender = ensure_signed(origin)?;
        let kitty_id = match self.next_kitty_id() {
            Ok(id) => id,
            Err(e) => return Err(DispatchError::Module(e)),
        };
        let dna = Self::random_value(sender, ctx);
        self.insert_kitty(sender, kitty_id, Kitty(dna));
        Ok(())
    }

    /// Breeds a kitty for the signer of `origin` from two kitties.
    pub fn breed(&mut self, origin: Origin, kitty_id_1: u32, kitty_id_2: u32, ctx: &ChainContext) -> (r: Result<(), DispatchError<Error>>)
        requires
            old(self).wf(),
        ensures
            final(self).wf(),
            old(self).indices_below_count() ==> final(self).indices_below_count(),
            signer(origin) is Some && old(self).kitties_map().dom().contains(kitty_id_1)
                && old(self).kitties_map().dom().contains(kitty_id_2) && kitty_id_1 != kitty_id_2
                && old(self).count() < u32::MAX ==> r == Ok::<(), DispatchError<Error>>(()),
            match signer(origin) {
                None => r == Err::<(), DispatchError<Error>>(DispatchError::BadOrigin) && *final(self) == *old(self),
                Some(sender) => {
                    &&& r == match breed_outcome(*old(self), kitty_id_1, kitty_id_2) {
                        Ok(_) => Ok::<(), DispatchError<Error>>(()),
                        Err(e) => Err(DispatchError::Module(e)),
                    }
                    &&& r is Err ==> *final(self) == *old(self)
                    &&& r is Ok ==> {
                        let id = old(self).count();
                        &&& final(self).kitties_map().dom() == old(self).kitties_map().dom().insert(id)
                        &&& forall|k: u32| k != id && #[trigger] old(self).kitties_map().dom().contains(k)
                            ==> final(self).kitties_map()[k] == old(self).kitties_map()[k]
                        &&& final(self).kitties_map()[id].0@ == bred(
                            old(self).kitties_map()[kitty_id_1].0@,
                            old(self).kitties_map()[kitty_id_2].0@,
                            random_bits(sender, *ctx),
                        )
                        &&& final(self).count() == id + 1
                        &&& final(self).owned() == appended(old(self).owned(), sender, id)
                    }
                },
            },
    {
        let sender = ensure_signed(origin)?;
        match self.do_breed(sender, kitty_id_1, kitty_id_2, ctx) {
            Ok(()) => Ok(()),
            Err(e) => Err(DispatchError::Module(e)),
        }
    }

    /// Moves `kitty_id` from the signer of `origin` to `to`.
    pub fn tranfer(&mut self, origin: Origin, to: u64, kitty_id: u32) -> (r: Result<(), DispatchError<Error>>)
        requires
            old(self).wf(),
        ensures
            final(self).wf(),
            old(self).indices_below_count() ==> final(self).indices_below_count(),
            match signer(origin) {
                None => r == Err::<(), DispatchError<Error>>(DispatchError::BadOrigin) && *final(self) == *old(self),
                Some(sender) => {
                    &&& r == Ok::<(), DispatchError<Error>>(())
                    &&& final(self).kitties_map() == old(self).kitties_map()
                    &&& final(self).count() == old(self).count()
                    &&& final(self).owned() == appended(removed(old(self).owned(), sender, kitty_id), to, kitty_id)
                },
            },
    {
        let sender = ensure_signed(origin)?;
        self.do_transfer(sender, to, kitty_id);
        Ok(())
    }
}

/// How breeding from `kitty_id_1` and `kitty_id_2` ends in `state`: both
/// parents must exist, differ, and an index must be left for the child.
pub open spec fn breed_outcome(state: Module, kitty_id_1: u32, kitty_id_2: u32) -> Result<(), Error> {
    if !state.kitties_map().dom().contains(kitty_id_1) || !state.kitties_map().dom().contains(kitty_id_2) {
        Err(Error::InvalidKittyId)
    } else if kitty_id_1 == kitty_id_2 {
        Err(Error::RequireDifferentParent)
    } else if state.count() == u32::MAX {
        Err(Error::KittiesCountOverflow)
    } else {
        Ok(())
    }
}

/// How creating a kitty ends: the call must be signed and an index left.
pub open spec fn create_outcome(origin: Origin, state: Module) -> Result<(), DispatchError<Error>> {
    if signer(origin) is None {
        Err(DispatchError::BadOrigin)
    } else if state.count() == u32::MAX {
        Err(DispatchError::Module(Error::KittiesCountOverflow))
    } else {
        Ok(())
    }
}

/// Breeding succeeds exactly when both parents exist, they are two different
/// kitties and an index is left for the child; in particular the order in
/// which the parents are named does not matter.
pub proof fn lemma_breed_outcome_characterized(state: Module, kitty_id_1: u32, kitty_id_2: u32)
    ensures
        breed_outcome(state, kitty_id_1, kitty_id_2) is Ok <==> (state.kitties_map().dom().contains(kitty_id_1)
            && state.kitties_map().dom().contains(kitty_id_2) && kitty_id_1 != kitty_id_2
            && state.count() < u32::MAX),
        breed_outcome(state, kitty_id_1, kitty_id_2) == breed_outcome(state, kitty_id_2, kitty_id_1),
        breed_outcome(state, kitty_id_1, kitty_id_2) == Err::<(), Error>(Error::RequireDifferentParent)
            ==> kitty_id_1 == kitty_id_2,
{
}

/// A signed creation fails for lack of an index only when every index up to
/// `u32::MAX` is taken; below that it succeeds.
pub proof fn lemma_create_outcome_characterized(origin: Origin, state: Module)
    ensures
        signer(origin) is Some && state.count() < u32::MAX ==> create_outcome(origin, state) == Ok::<(), DispatchError<Error>>(()),
        create_outcome(origin, state) == Err::<(), DispatchError<Error>>(DispatchError::Module(Error::KittiesCountOverflow))
            <==> (signer(origin) is Some && state.count() == u32::MAX),
        create_outcome(origin, state) == Err::<(), DispatchError<Error>>(DispatchError::BadOrigin)
            <==> signer(origin) is None,
{
}

} // verus!
