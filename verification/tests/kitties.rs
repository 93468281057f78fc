use parity_scale_codec::Encode;
use substrate_pallets::kitties::{
    breed_dna, combine_dna, ChainContext, Error, Kitty, KittyLinkedItem, Module, OwnedKitties,
};
use substrate_pallets::origin::{DispatchError, Origin};

fn item(prev: Option<u32>, next: Option<u32>) -> Option<KittyLinkedItem> {
    Some(KittyLinkedItem { prev, next })
}

fn ctx(seed: u8) -> ChainContext {
    ChainContext { random_seed: [seed; 32], extrinsic_index: Some(1), block_number: 7 }
}

fn expected_random(sender: u64, c: &ChainContext) -> [u8; 16] {
    let payload = (c.random_seed, &sender, c.extrinsic_index, c.block_number).encode();
    sp_io::hashing::blake2_128(&payload)
}

#[test]
fn owned_kitties_can_append_values() {
    let mut owned = OwnedKitties::new();
    owned.append(0, 1);

    assert_eq!(owned.get(&(0, None)), item(Some(1), Some(1)));
    assert_eq!(owned.get(&(0, Some(1))), item(None, None));

    owned.append(0, 2);

    assert_eq!(owned.get(&(0, None)), item(Some(2), Some(1)));
    assert_eq!(owned.get(&(0, Some(1))), item(None, Some(2)));
    assert_eq!(owned.get(&(0, Some(2))), item(Some(1), None));

    owned.append(0, 3);

    assert_eq!(owned.get(&(0, None)), item(Some(3), Some(1)));
    assert_eq!(owned.get(&(0, Some(1))), item(None, Some(2)));
    assert_eq!(owned.get(&(0, Some(2))), item(Some(1), Some(3)));
    assert_eq!(owned.get(&(0, Some(3))), item(Some(2), None));
}

#[test]
fn owned_kitties_can_remove_values() {
    let mut owned = OwnedKitties::new();
    owned.append(0, 1);
    owned.append(0, 2);
    owned.append(0, 3);

    owned.remove(0, 2);

    assert_eq!(owned.get(&(0, None)), item(Some(3), Some(1)));
    assert_eq!(owned.get(&(0, Some(1))), item(None, Some(3)));
    assert_eq!(owned.get(&(0, Some(2))), None);
    assert_eq!(owned.get(&(0, Some(3))), item(Some(1), None));

    owned.remove(0, 1);

    assert_eq!(owned.get(&(0, None)), item(Some(3), Some(3)));
    assert_eq!(owned.get(&(0, Some(1))), None);
    assert_eq!(owned.get(&(0, Some(2))), None);
    assert_eq!(owned.get(&(0, Some(3))), item(None, None));

    owned.remove(0, 3);

    assert_eq!(owned.get(&(0, None)), item(None, None));
    assert_eq!(owned.get(&(0, Some(1))), None);
    assert_eq!(owned.get(&(0, Some(2))), None);
    assert_eq!(owned.get(&(0, Some(2))), None);
}

#[test]
fn reading_a_missing_node_gives_the_empty_node() {
    let owned = OwnedKitties::new();
    assert_eq!(owned.get(&(5, None)), None);
    assert_eq!(owned.read_head(5), KittyLinkedItem { prev: None, next: None });
    assert_eq!(owned.read(5, Some(9)), KittyLinkedItem { prev: None, next: None });
}

#[test]
fn removing_an_absent_kitty_changes_nothing() {
    let mut owned = OwnedKitties::new();
    owned.append(0, 1);
    owned.append(0, 2);
    owned.remove(0, 7);
    owned.remove(1, 1);
    assert_eq!(owned.get(&(0, None)), item(Some(2), Some(1)));
    assert_eq!(owned.get(&(0, Some(1))), item(None, Some(2)));
    assert_eq!(owned.get(&(0, Some(2))), item(Some(1), None));
    assert_eq!(owned.get(&(1, None)), None);
}

#[test]
fn lists_of_different_accounts_do_not_mix() {
    let mut owned = OwnedKitties::new();
    owned.append(0, 1);
    owned.append(1, 2);
    owned.append(0, 3);
    assert_eq!(owned.get(&(0, None)), item(Some(3), Some(1)));
    assert_eq!(owned.get(&(1, None)), item(Some(2), Some(2)));
    assert_eq!(owned.get(&(1, Some(2))), item(None, None));
    assert_eq!(owned.get(&(0, Some(2))), None);
}

#[test]
fn combine_dna_takes_bits_as_the_selector_says() {
    assert_eq!(combine_dna(0b1111_0000, 0b1010_1010, 0b1100_1100), 0b1110_0010);
    assert_eq!(combine_dna(0xff, 0x00, 0x0f), 0x0f);
    assert_eq!(combine_dna(0x12, 0x34, 0xff), 0x12);
    assert_eq!(combine_dna(0x12, 0x34, 0x00), 0x34);
}

#[test]
fn breed_dna_combines_every_byte() {
    let mut d1 = [0u8; 16];
    let mut d2 = [0u8; 16];
    let mut sel = [0u8; 16];
    for i in 0..16 {
        d1[i] = i as u8;
        d2[i] = 0xf0;
        sel[i] = if i % 2 == 0 { 0xff } else { 0x00 };
    }
    let child = breed_dna(&d1, &d2, &sel);
    for i in 0..16 {
        if i % 2 == 0 {
            assert_eq!(child[i], i as u8);
        } else {
            assert_eq!(child[i], 0xf0);
        }
    }
}

#[test]
fn random_value_hashes_the_encoded_payload() {
    let c = ctx(3);
    let r = Module::random_value(9, &c);
    assert_eq!(r, expected_random(9, &c));
    assert_ne!(r, Module::random_value(10, &c));
    let none_index = ChainContext { random_seed: [3; 32], extrinsic_index: None, block_number: 7 };
    assert_ne!(r, Module::random_value(9, &none_index));
}

#[test]
fn create_stores_a_kitty_and_appends_it_to_the_sender() {
    let mut m = Module::new();
    let c = ctx(1);
    assert_eq!(m.create(Origin::Signed(4), &c), Ok(()));
    assert_eq!(m.kitties_count(), 1);
    assert_eq!(m.kitties(0), Some(Kitty(expected_random(4, &c))));
    assert_eq!(m.owned_kitties().get(&(4, None)), item(Some(0), Some(0)));
    assert_eq!(m.create(Origin::Signed(4), &c), Ok(()));
    assert_eq!(m.kitties_count(), 2);
    assert_eq!(m.owned_kitties().get(&(4, None)), item(Some(1), Some(0)));
    assert_eq!(m.owned_kitties().get(&(4, Some(1))), item(Some(0), None));
}

#[test]
fn unsigned_calls_are_refused() {
    let mut m = Module::new();
    let c = ctx(1);
    assert_eq!(m.create(Origin::Root, &c), Err(DispatchError::BadOrigin));
    assert_eq!(m.create(Origin::Unsigned, &c), Err(DispatchError::BadOrigin));
    assert_eq!(m.breed(Origin::Root, 0, 1, &c), Err(DispatchError::BadOrigin));
    assert_eq!(m.tranfer(Origin::Unsigned, 1, 0), Err(DispatchError::BadOrigin));
    assert_eq!(m.kitties_count(), 0);
}

#[test]
fn breed_mixes_the_parents() {
    let mut m = Module::new();
    let c = ctx(2);
    m.create(Origin::Signed(1), &c).unwrap();
    m.create(Origin::Signed(2), &ctx(5)).unwrap();
    let p1 = m.kitties(0).unwrap();
    let p2 = m.kitties(1).unwrap();
    assert_eq!(m.breed(Origin::Signed(3), 0, 1, &c), Ok(()));
    let sel = expected_random(3, &c);
    let child = m.kitties(2).unwrap();
    for i in 0..16 {
        assert_eq!(child.0[i], (sel[i] & p1.0[i]) | (!sel[i] & p2.0[i]));
    }
    assert_eq!(m.kitties_count(), 3);
    assert_eq!(m.owned_kitties().get(&(3, None)), item(Some(2), Some(2)));
}

#[test]
fn breed_refusals() {
    let mut m = Module::new();
    let c = ctx(2);
    m.create(Origin::Signed(1), &c).unwrap();
    assert_eq!(m.breed(Origin::Signed(1), 0, 5, &c), Err(DispatchError::Module(Error::InvalidKittyId)));
    assert_eq!(m.breed(Origin::Signed(1), 5, 0, &c), Err(DispatchError::Module(Error::InvalidKittyId)));
    assert_eq!(m.breed(Origin::Signed(1), 0, 0, &c), Err(DispatchError::Module(Error::RequireDifferentParent)));
    assert_eq!(m.do_breed(1, 0, 0, &c), Err(Error::RequireDifferentParent));
    assert_eq!(m.kitties_count(), 1);
    assert_eq!(m.kitties(1), None);
}

#[test]
fn next_kitty_id_is_the_count() {
    let mut m = Module::new();
    assert_eq!(m.next_kitty_id(), Ok(0));
    m.create(Origin::Signed(1), &ctx(0)).unwrap();
    assert_eq!(m.next_kitty_id(), Ok(1));
}

#[test]
fn transfer_moves_a_kitty_to_the_end_of_the_receivers_list() {
    let mut m = Module::new();
    let c = ctx(0);
    m.create(Origin::Signed(1), &c).unwrap();
    m.create(Origin::Signed(1), &c).unwrap();
    m.create(Origin::Signed(2), &c).unwrap();
    assert_eq!(m.tranfer(Origin::Signed(1), 2, 0), Ok(()));
    let owned = m.owned_kitties();
    assert_eq!(owned.get(&(1, None)), item(Some(1), Some(1)));
    assert_eq!(owned.get(&(1, Some(0))), None);
    assert_eq!(owned.get(&(1, Some(1))), item(None, None));
    assert_eq!(owned.get(&(2, None)), item(Some(0), Some(2)));
    assert_eq!(owned.get(&(2, Some(2))), item(None, Some(0)));
    assert_eq!(owned.get(&(2, Some(0))), item(Some(2), None));
    assert_eq!(m.kitties_count(), 3);
}

#[test]
fn insert_kitty_sets_the_next_index() {
    let mut m = Module::new();
    m.insert_kitty(8, 41, Kitty([7; 16]));
    assert_eq!(m.kitties(41), Some(Kitty([7; 16])));
    assert_eq!(m.kitties_count(), 42);
    assert_eq!(m.owned_kitties().get(&(8, Some(41))), item(None, None));
    m.insert_owned_kitty(8, 3);
    assert_eq!(m.owned_kitties().get(&(8, None)), item(Some(3), Some(41)));
    m.do_transfer(8, 9, 41);
    assert_eq!(m.owned_kitties().get(&(8, None)), item(Some(3), Some(3)));
    assert_eq!(m.owned_kitties().get(&(9, None)), item(Some(41), Some(41)));
}

#[test]
fn no_kitty_once_every_index_is_taken() {
    let mut m = Module::new();
    m.insert_kitty(1, u32::MAX - 1, Kitty([1; 16]));
    m.insert_kitty(1, 0, Kitty([2; 16]));
    m.insert_kitty(1, u32::MAX - 1, Kitty([3; 16]));
    assert_eq!(m.kitties_count(), u32::MAX);
    assert_eq!(m.next_kitty_id(), Err(Error::KittiesCountOverflow));
    assert_eq!(
        m.create(Origin::Signed(1), &ctx(0)),
        Err(DispatchError::Module(Error::KittiesCountOverflow))
    );
    assert_eq!(
        m.breed(Origin::Signed(1), 0, u32::MAX - 1, &ctx(0)),
        Err(DispatchError::Module(Error::KittiesCountOverflow))
    );
    assert_eq!(m.kitties(u32::MAX), None);
}
