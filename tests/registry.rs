use kitties::pallet::{Call, Pallet};
use kitties::pet::{gen_gender, Error, Event, Gender, PetId};
use kitties::rpc::{block_or_best, Error as QueryError, Example, Kitties};
use std::sync::Arc;

fn name(s: &str) -> Vec<u8> {
    s.as_bytes().to_vec()
}

fn forced(p: &mut Pallet, owner: u64, n: &str, g: Gender) -> PetId {
    p.mint(owner, Some(g), &name(n), 0).unwrap()
}

#[test]
fn pet_id_is_blake2_of_name() {
    let mut p = Pallet::new(10);
    let id = p.create_pet(1, &name("rex"), 0).unwrap();
    assert_eq!(id, sp_crypto_hashing::blake2_256(b"rex"));
    assert_ne!(id.to_vec(), name("rex"));
    let pet = p.pets(&id).unwrap();
    assert_eq!(pet.name, name("rex"));
    assert_eq!(pet.owner, 1);
    assert_eq!(pet.price, None);
}

#[test]
fn same_name_from_other_owner_is_duplicate() {
    let mut p = Pallet::new(10);
    assert!(p.create_pet(1, &name("twin"), 0).is_ok());
    assert_eq!(p.create_pet(2, &name("twin"), 0), Err(Error::PetAlreadyExist));
    assert_eq!(p.pet_cnt(), 1);
    assert!(p.pets_owned(2).is_empty());
}

#[test]
fn mint_counts_and_appends() {
    let mut p = Pallet::new(10);
    let a = p.create_pet(7, &name("a"), 0).unwrap();
    assert_eq!(p.pet_cnt(), 1);
    let b = p.create_pet(7, &name("b"), 1).unwrap();
    assert_eq!(p.pet_cnt(), 2);
    assert_eq!(p.pets_owned(7), vec![a, b]);
    assert!(matches!(p.events()[1], Event::Created(7, x) if x == b));
}

#[test]
fn gender_from_entropy_or_forced() {
    assert_eq!(gen_gender(0), Gender::Male);
    assert_eq!(gen_gender(7), Gender::Female);
    let mut p = Pallet::new(10);
    let a = p.create_pet(1, &name("even"), 4).unwrap();
    let b = p.create_pet(1, &name("odd"), 5).unwrap();
    let c = p.mint(1, Some(Gender::Female), &name("forced"), 4).unwrap();
    assert_eq!(p.pets(&a).unwrap().gender, Gender::Male);
    assert_eq!(p.pets(&b).unwrap().gender, Gender::Female);
    assert_eq!(p.pets(&c).unwrap().gender, Gender::Female);
}

#[test]
fn capacity_exceeded_keeps_count() {
    let mut p = Pallet::new(2);
    assert!(p.create_pet(1, &name("one"), 0).is_ok());
    assert!(p.create_pet(1, &name("two"), 0).is_ok());
    assert_eq!(p.create_pet(1, &name("three"), 0), Err(Error::CapacityExceeded));
    assert_eq!(p.pet_cnt(), 2);
    assert_eq!(p.pets_owned(1).len(), 2);
    assert!(p.create_pet(2, &name("three"), 0).is_ok());
}

#[test]
fn transfer_to_full_owner_changes_nothing() {
    let mut p = Pallet::new(1);
    let a = p.create_pet(1, &name("a"), 0).unwrap();
    let b = p.create_pet(2, &name("b"), 0).unwrap();
    assert!(p.set_price(1, a, Some(3)).is_ok());
    assert_eq!(p.transfer(1, 2, a), Err(Error::CapacityExceeded));
    assert_eq!(p.pets_owned(1), vec![a]);
    assert_eq!(p.pets_owned(2), vec![b]);
    assert_eq!(p.pets(&a).unwrap().owner, 1);
    assert_eq!(p.pets(&a).unwrap().price, Some(3));
}

#[test]
fn transfer_moves_and_clears_price() {
    let mut p = Pallet::new(10);
    let a = p.create_pet(1, &name("a"), 0).unwrap();
    let b = p.create_pet(1, &name("b"), 0).unwrap();
    assert!(p.set_price(1, a, Some(50)).is_ok());
    assert!(p.transfer(1, 2, a).is_ok());
    let pet = p.pets(&a).unwrap();
    assert_eq!(pet.owner, 2);
    assert_eq!(pet.price, None);
    assert_eq!(p.pets_owned(1), vec![b]);
    assert_eq!(p.pets_owned(2), vec![a]);
    assert_eq!(p.pet_cnt(), 2);
}

#[test]
fn transfer_errors() {
    let mut p = Pallet::new(10);
    let a = p.create_pet(1, &name("a"), 0).unwrap();
    assert_eq!(p.transfer(1, 2, [0u8; 32]), Err(Error::NotFound));
    assert_eq!(p.transfer(2, 3, a), Err(Error::NotOwner));
    assert_eq!(p.transfer(1, 1, a), Err(Error::SelfTransfer));
    assert_eq!(p.set_price(1, [9u8; 32], Some(1)), Err(Error::NotFound));
}

#[test]
fn buy_respects_ceiling() {
    let mut p = Pallet::new(10);
    let a = p.create_pet(1, &name("a"), 0).unwrap();
    assert_eq!(p.buy_kitty(2, a, 100), Err(Error::NotForSale));
    assert!(p.set_price(1, a, Some(20)).is_ok());
    assert_eq!(p.buy_kitty(2, a, 19), Err(Error::PriceTooHigh));
    assert_eq!(p.pets(&a).unwrap().owner, 1);
    assert_eq!(p.buy_kitty(1, a, 20), Err(Error::SelfPurchase));
    assert_eq!(p.buy_kitty(2, [1u8; 32], 20), Err(Error::NotFound));
    assert!(p.buy_kitty(2, a, 20).is_ok());
    assert_eq!(p.pets(&a).unwrap().owner, 2);
    assert_eq!(p.pets(&a).unwrap().price, None);
}

#[test]
fn buy_into_full_list_fails() {
    let mut p = Pallet::new(1);
    let a = p.create_pet(1, &name("a"), 0).unwrap();
    assert!(p.create_pet(2, &name("b"), 0).is_ok());
    assert!(p.set_price(1, a, Some(5)).is_ok());
    assert_eq!(p.buy_kitty(2, a, 5), Err(Error::CapacityExceeded));
    assert_eq!(p.pets(&a).unwrap().price, Some(5));
}

#[test]
fn breed_scenario() {
    let mut p = Pallet::new(10);
    let a = forced(&mut p, 1, "a", Gender::Male);
    let b = forced(&mut p, 1, "b", Gender::Female);
    let c = p.breed_kitty(1, a, b, 3).unwrap();
    assert_ne!(c, a);
    assert_ne!(c, b);
    assert_eq!(p.pet_cnt(), 3);
    let mut content = a.to_vec();
    content.extend_from_slice(&b);
    assert_eq!(c, sp_crypto_hashing::blake2_256(&content));
    assert_eq!(p.pets(&c).unwrap().name, content);
    assert_eq!(p.pets(&c).unwrap().gender, Gender::Female);
    assert_eq!(p.pets_owned(1), vec![a, b, c]);
    // the same parents give the same content, which is now taken
    assert_eq!(p.breed_kitty(1, a, b, 0), Err(Error::PetAlreadyExist));
}

#[test]
fn breed_errors() {
    let mut p = Pallet::new(10);
    let a = forced(&mut p, 1, "a", Gender::Male);
    let b = forced(&mut p, 1, "b", Gender::Male);
    let c = forced(&mut p, 2, "c", Gender::Female);
    assert_eq!(p.breed_kitty(1, a, [0u8; 32], 0), Err(Error::NotFound));
    assert_eq!(p.breed_kitty(1, a, c, 0), Err(Error::NotOwner));
    assert_eq!(p.breed_kitty(1, a, b, 0), Err(Error::SameGenderParents));
    assert_eq!(p.pet_cnt(), 3);
}

#[test]
fn end_to_end_purchase() {
    let mut p = Pallet::new(10);
    let id1 = p.create_pet(1, &name("x"), 0).unwrap();
    assert!(p.set_price(1, id1, Some(10)).is_ok());
    let id2 = p.create_pet(2, &name("y"), 0).unwrap();
    assert!(p.buy_kitty(2, id1, 10).is_ok());
    assert_eq!(p.pets(&id1).unwrap().owner, 2);
    assert_eq!(p.pets(&id1).unwrap().price, None);
    assert!(!p.pets_owned(1).contains(&id1));
    assert_eq!(p.pets_owned(2), vec![id2, id1]);
}

#[test]
fn saved_value_and_its_errors() {
    let mut p = Pallet::new(10);
    assert_eq!(p.cause_error(), Err(Error::NoneValue));
    p.save_data(4, 41);
    assert_eq!(p.something(), Some(41));
    assert!(p.cause_error().is_ok());
    assert_eq!(p.something(), Some(42));
    p.save_data(4, u32::MAX);
    assert_eq!(p.cause_error(), Err(Error::StorageOverflow));
    assert_eq!(p.something(), Some(u32::MAX));
    assert!(matches!(p.events()[0], Event::SomethingStored(41, 4)));
}

#[test]
fn queries() {
    let mut p = Pallet::new(10);
    let a = p.mint(1, Some(Gender::Female), &name("q"), 0).unwrap();
    let k: Kitties<u32, ()> = Kitties::new(Arc::new(7));
    assert_eq!(**k.client(), 7);
    assert_eq!(k.get_kitty(&p, a), Ok((name("q"), Gender::Female)));
    assert_eq!(k.get_kitty(&p, [0u8; 32]), Err(QueryError::RuntimeError));
    assert_eq!(k.count_kitty(&p), 1);
    assert_eq!(i64::from(QueryError::RuntimeError), 1);
    assert_eq!(i64::from(QueryError::DecodeError), 2);
    assert_eq!(block_or_best(Some(3), 9), 3);
    assert_eq!(block_or_best(None, 9), 9);
    assert_eq!(Example.get_value(), 5);
    assert_eq!(p.max_pet_owned(), 10);
}

#[test]
fn dispatch_routes_calls() {
    let mut p = Pallet::new(10);
    assert!(p.dispatch(1, Call::CreatePet(name("d1")), 0).is_ok());
    assert!(p.dispatch(1, Call::CreatePet(name("d2")), 1).is_ok());
    assert_eq!(p.dispatch(2, Call::CreatePet(name("d1")), 0), Err(Error::PetAlreadyExist));
    let owned = p.pets_owned(1);
    let (a, b) = (owned[0], owned[1]);
    assert!(p.dispatch(1, Call::SetPrice(a, Some(4)), 0).is_ok());
    assert_eq!(p.dispatch(2, Call::BuyKitty(a, 3), 0), Err(Error::PriceTooHigh));
    assert!(p.dispatch(2, Call::BuyKitty(a, 4), 0).is_ok());
    assert_eq!(p.dispatch(1, Call::BreedKitty(a, b), 0), Err(Error::NotOwner));
    assert!(p.dispatch(2, Call::Transfer(1, a), 0).is_ok());
    assert!(p.dispatch(1, Call::BreedKitty(a, b), 0).is_ok());
    assert_eq!(p.pet_cnt(), 3);
    assert_eq!(p.dispatch(1, Call::CauseError, 0), Err(Error::NoneValue));
    assert!(p.dispatch(1, Call::SaveData(1), 0).is_ok());
    assert!(p.dispatch(1, Call::CauseError, 0).is_ok());
    assert_eq!(p.something(), Some(2));
}
