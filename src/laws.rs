use vstd::prelude::*;
use crate::pet::{AccountId, Balance, Error, Gender, PetId, PetView, blake2_256_of};
use crate::pallet::{
    PalletView, breed_content, breed_spec, buy_spec, has_pet, mint_spec, owned_list, pet_index,
    pet_of, transfer_spec,
};

verus! {

/// After one pet of `s` is replaced by a record with the same identifier,
/// that identifier leads to the new record.
proof fn lemma_replaced_pet(s: PalletView, t: PalletView, i: int, p: PetView)
    requires
        s.wf(),
        0 <= i < s.pets.len(),
        p.id == s.pets[i].id,
        t.pets == s.pets.update(i, p),
    ensures
        has_pet(t, p.id),
        pet_index(t, p.id) == i,
        pet_of(t, p.id) == p,
{
    assert(t.pets[i].id == p.id);
    let k = pet_index(t, p.id);
    assert(0 <= k < t.pets.len() && t.pets[k].id == p.id);
    if k != i {
        assert(t.pets[k].id == s.pets[k].id);
        if k < i {
            assert(s.pets[k].id != s.pets[i].id);
        } else {
            assert(s.pets[i].id != s.pets[k].id);
        }
    }
}

/// A name gives one pet only: once minting `name` has succeeded, minting it
/// again, for any owner and gender, fails with `PetAlreadyExist` and changes
/// nothing.
pub proof fn law_same_name_collides(
    s: PalletView,
    owner1: AccountId,
    owner2: AccountId,
    gender1: Gender,
    gender2: Gender,
    name: Seq<u8>,
)
    requires
        s.wf(),
        mint_spec(s, owner1, gender1, name).1.is_ok(),
    ensures
        ({
            let s1 = mint_spec(s, owner1, gender1, name).0;
            mint_spec(s1, owner2, gender2, name) == (s1, Err::<PetId, Error>(Error::PetAlreadyExist))
        }),
{
    let s1 = mint_spec(s, owner1, gender1, name).0;
    let last = s1.pets.len() - 1;
    assert(s1.pets[last].id == blake2_256_of(name));
}

/// A successful mint adds one to the count, appends the new identifier to the
/// owner's list and to no other, and records a pet that is not for sale.
pub proof fn law_mint_appends(s: PalletView, owner: AccountId, gender: Gender, name: Seq<u8>)
    requires
        s.wf(),
        mint_spec(s, owner, gender, name).1.is_ok(),
    ensures
        ({
            let (s1, r) = mint_spec(s, owner, gender, name);
            &&& s1.pet_cnt == s.pet_cnt + 1
            &&& owned_list(s1, owner) == owned_list(s, owner).push(r.unwrap())
            &&& forall|a: AccountId| a != owner ==> owned_list(s1, a) == owned_list(s, a)
            &&& has_pet(s1, r.unwrap())
            &&& pet_of(s1, r.unwrap()).price.is_none()
            &&& pet_of(s1, r.unwrap()).owner == owner
        }),
{
    let (s1, r) = mint_spec(s, owner, gender, name);
    let last = s.pets.len() as int;
    let p = s1.pets[last];
    assert(p.id == r.unwrap());
    let k = pet_index(s1, p.id);
    assert(0 <= k < s1.pets.len() && s1.pets[k].id == p.id);
    if k != last {
        assert(s1.pets[k] == s.pets[k]);
        assert(has_pet(s, p.id));
    }
}

/// A mint that fails changes nothing; in particular the count stays.
pub proof fn law_failed_mint_changes_nothing(s: PalletView, owner: AccountId, gender: Gender, name: Seq<u8>)
    requires
        mint_spec(s, owner, gender, name).1.is_err(),
    ensures
        mint_spec(s, owner, gender, name).0 == s,
{
}

/// An owner whose list is full can receive no new pet: a mint for it of a
/// new name, with the counter not at its maximum, fails with
/// `CapacityExceeded`, and the count stays.
pub proof fn law_capacity(s: PalletView, owner: AccountId, gender: Gender, name: Seq<u8>)
    requires
        s.wf(),
        owned_list(s, owner).len() == s.max_pet_owned,
        !has_pet(s, blake2_256_of(name)),
        s.pet_cnt < u64::MAX,
    ensures
        mint_spec(s, owner, gender, name) == (s, Err::<PetId, Error>(Error::CapacityExceeded)),
{
}

/// A transfer that fails changes nothing: the owner's list, the receiver's
/// list and the pet's owner and price are as before.
pub proof fn law_failed_transfer_changes_nothing(s: PalletView, caller: AccountId, to: AccountId, id: PetId)
    requires
        transfer_spec(s, caller, to, id).1.is_err(),
    ensures
        transfer_spec(s, caller, to, id).0 == s,
{
}

/// A transfer by the owner to another account whose list is full fails with
/// `CapacityExceeded` and changes nothing.
pub proof fn law_transfer_to_full_list(s: PalletView, caller: AccountId, to: AccountId, id: PetId)
    requires
        s.wf(),
        has_pet(s, id),
        pet_of(s, id).owner == caller,
        to != caller,
        owned_list(s, to).len() >= s.max_pet_owned,
    ensures
        transfer_spec(s, caller, to, id) == (s, Err::<(), Error>(Error::CapacityExceeded)),
{
    let i = pet_index(s, id);
    assert(s.pets[i].id == id);
    assert(owned_list(s, s.pets[i].owner).contains(s.pets[i].id));
}

/// A successful transfer leaves the pet with the receiver, not for sale, at
/// the end of the receiver's list.
pub proof fn law_transfer_clears_price(s: PalletView, caller: AccountId, to: AccountId, id: PetId)
    requires
        s.wf(),
        transfer_spec(s, caller, to, id).1.is_ok(),
    ensures
        ({
            let s1 = transfer_spec(s, caller, to, id).0;
            &&& has_pet(s1, id)
            &&& pet_of(s1, id).owner == to
            &&& pet_of(s1, id).price.is_none()
            &&& owned_list(s1, to) == owned_list(s, to).push(id)
            &&& s1.pet_cnt == s.pet_cnt
        }),
{
    let s1 = transfer_spec(s, caller, to, id).0;
    let i = pet_index(s, id);
    assert(s.pets[i].id == id);
    lemma_replaced_pet(s, s1, i, PetView { owner: to, price: None, ..pet_of(s, id) });
}

/// A successful purchase leaves the pet with the buyer and not for sale.
pub proof fn law_buy_clears_price(s: PalletView, caller: AccountId, id: PetId, max_price: Balance)
    requires
        s.wf(),
        buy_spec(s, caller, id, max_price).1.is_ok(),
    ensures
        ({
            let s1 = buy_spec(s, caller, id, max_price).0;
            &&& has_pet(s1, id)
            &&& pet_of(s1, id).owner == caller
            &&& pet_of(s1, id).price.is_none()
        }),
{
    let s1 = buy_spec(s, caller, id, max_price).0;
    let i = pet_index(s, id);
    assert(s.pets[i].id == id);
    lemma_replaced_pet(
        s,
        s1,
        i,
        PetView { owner: caller, price: None, ..pet_of(s, id) },
    );
}

/// A purchase fails with `PriceTooHigh` whenever the price is above the
/// buyer's ceiling.
pub proof fn law_buy_price_too_high(s: PalletView, caller: AccountId, id: PetId, max_price: Balance)
    requires
        has_pet(s, id),
        pet_of(s, id).price.is_some(),
        pet_of(s, id).price.unwrap() > max_price,
    ensures
        buy_spec(s, caller, id, max_price) == (s, Err::<(), Error>(Error::PriceTooHigh)),
{
}

/// A purchase at or under the ceiling, by someone other than the owner,
/// succeeds and hands the pet to the buyer, where the buyer's list has room.
pub proof fn law_buy_within_ceiling(s: PalletView, caller: AccountId, id: PetId, max_price: Balance)
    requires
        s.wf(),
        has_pet(s, id),
        pet_of(s, id).price.is_some(),
        pet_of(s, id).price.unwrap() <= max_price,
        pet_of(s, id).owner != caller,
        owned_list(s, caller).len() < s.max_pet_owned,
    ensures
        buy_spec(s, caller, id, max_price).1 == Ok::<(), Error>(()),
        has_pet(buy_spec(s, caller, id, max_price).0, id),
        pet_of(buy_spec(s, caller, id, max_price).0, id).owner == caller,
{
    let i = pet_index(s, id);
    assert(s.pets[i].id == id);
    assert(owned_list(s, s.pets[i].owner).contains(s.pets[i].id));
    law_buy_clears_price(s, caller, id, max_price);
}

/// The offspring's identifier depends on its parents' identifiers alone: it
/// is the hash of the two, in order, whatever the rest of the state; it
/// differs from both parents and the count grows by one.
pub proof fn law_breed_deterministic(
    s: PalletView,
    t: PalletView,
    caller: AccountId,
    caller2: AccountId,
    parent1: PetId,
    parent2: PetId,
    random_byte: u8,
    random_byte2: u8,
)
    requires
        breed_spec(s, caller, parent1, parent2, random_byte).1.is_ok(),
        breed_spec(t, caller2, parent1, parent2, random_byte2).1.is_ok(),
    ensures
        breed_spec(s, caller, parent1, parent2, random_byte).1 == breed_spec(
            t,
            caller2,
            parent1,
            parent2,
            random_byte2,
        ).1,
        breed_spec(s, caller, parent1, parent2, random_byte).1 == Ok::<PetId, Error>(
            blake2_256_of(breed_content(parent1, parent2)),
        ),
        blake2_256_of(breed_content(parent1, parent2)) != parent1,
        blake2_256_of(breed_content(parent1, parent2)) != parent2,
        breed_spec(s, caller, parent1, parent2, random_byte).0.pet_cnt == s.pet_cnt + 1,
{
}

} // verus!
