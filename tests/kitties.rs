use kitties::pallet::Pallet;
use kitties::pet::Error;

fn name(s: &str) -> Vec<u8> {
    s.as_bytes().to_vec()
}

#[test]
fn should_create_kitty() {
    let mut p = Pallet::new(10);
    let account_a = 1;
    assert!(p.create_pet(account_a, &name("kitty"), 0).is_ok());
}

#[test]
fn owner_can_set_price_for_kitty() {
    let mut p = Pallet::new(10);
    let account_a = 1;
    assert!(p.create_pet(account_a, &name("kitty"), 0).is_ok());

    let x = p.pets_owned(account_a);
    let kitty_id = x.get(0).unwrap();

    assert!(p.set_price(account_a, *kitty_id, Some(10)).is_ok());
    assert_eq!(p.pets(kitty_id).unwrap().price, Some(10));
}

#[test]
fn user_can_not_set_price_for_kitty_of_other() {
    let mut p = Pallet::new(10);
    let account_a = 1;
    let account_b = 2;
    assert!(p.create_pet(account_a, &name("kitty"), 0).is_ok());

    let x = p.pets_owned(account_a);
    let kitty_id = x.get(0).unwrap();

    assert_eq!(p.set_price(account_b, *kitty_id, Some(10)), Err(Error::NotOwner));
    assert_eq!(p.pets(kitty_id).unwrap().price, None);
}

#[test]
fn should_buy_kitty() {
    let mut p = Pallet::new(10);
    let account_a = 1;
    let account_b = 2;

    assert!(p.create_pet(account_a, &name("kitty a"), 0).is_ok());
    let x = p.pets_owned(account_a);
    let account_a_kitty_id = x.get(0).unwrap().clone();
    assert!(p.set_price(account_a, account_a_kitty_id, Some(10)).is_ok());

    assert!(p.create_pet(account_b, &name("kitty b"), 0).is_ok());
    let x = p.pets_owned(account_b);
    let account_b_kitty_id = x.get(0).unwrap().clone();
    assert!(p.set_price(account_b, account_b_kitty_id, Some(10)).is_ok());

    assert!(p.buy_kitty(account_a, account_b_kitty_id, 10).is_ok());
}

#[test]
fn should_breed_kitty() {
    let mut p = Pallet::new(100);
    let account_a = 1;
    assert!(p.create_pet(account_a, &name("kitty 1"), 0).is_ok());
    // a different entropy byte gives the second kitty the other gender
    assert!(p.create_pet(account_a, &name("kitty 2"), 1).is_ok());

    let kitties_vec = p.pets_owned(account_a);
    let account_a_kitty_id_1 = kitties_vec.get(0).unwrap().clone();
    let account_a_kitty_id_2 = kitties_vec.get(1).unwrap().clone();

    assert!(p.breed_kitty(account_a, account_a_kitty_id_1, account_a_kitty_id_2, 0).is_ok());
}

#[test]
fn should_transfer_kitty() {
    let mut p = Pallet::new(10);
    let account_a = 1;
    let account_b = 2;

    assert!(p.create_pet(account_a, &name("kitty"), 0).is_ok());
    let x = p.pets_owned(account_a);
    let account_a_kitty_id = x.get(0).unwrap().clone();

    assert!(p.transfer(account_a, account_b, account_a_kitty_id).is_ok());
}
