use vstd::prelude::*;
use std::collections::HashMap;
use crate::pet::{
    AccountId, Balance, Error, Event, Gender, Pet, PetId, PetView, blake2_256_of, copy_bytes,
    gen_gender, gender_of_byte, hash_of, resolve_gender, same_id,
};

verus! {

broadcast use vstd::std_specs::hash::group_hash_axioms;

/// The registry: a saved value, the pet counter, the pets, each owner's list
/// of pet identifiers (in the order received, at most `max_pet_owned` long),
/// and the notifications recorded so far.
pub struct Pallet {
    something: Option<u32>,
    pet_cnt: u64,
    pets: Vec<Pet>,
    pets_owned: HashMap<AccountId, Vec<PetId>>,
    max_pet_owned: u32,
    events: Vec<Event>,
}

/// The registry as a mathematical value.
pub struct PalletView {
    pub something: Option<u32>,
    pub pet_cnt: u64,
    pub pets: Seq<PetView>,
    pub owned: Map<AccountId, Seq<PetId>>,
    pub max_pet_owned: u32,
    pub events: Seq<Event>,
}

pub closed spec fn owned_view(m: HashMap<AccountId, Vec<PetId>>) -> Map<AccountId, Seq<PetId>> {
    Map::new(|a: AccountId| m@.contains_key(a), |a: AccountId| m@[a]@)
}

impl View for Pallet {
    type V = PalletView;

    closed spec fn view(&self) -> PalletView {
        PalletView {
            something: self.something,
            pet_cnt: self.pet_cnt,
            pets: self.pets@.map_values(|p: Pet| p@),
            owned: owned_view(self.pets_owned),
            max_pet_owned: self.max_pet_owned,
            events: self.events@,
        }
    }
}

/// Whether a pet with identifier `id` exists.
pub open spec fn has_pet(s: PalletView, id: PetId) -> bool {
    exists|i: int| 0 <= i < s.pets.len() && #[trigger] s.pets[i].id == id
}

/// Where the pet with identifier `id` stands.
pub open spec fn pet_index(s: PalletView, id: PetId) -> int {
    choose|i: int| 0 <= i < s.pets.len() && #[trigger] s.pets[i].id == id
}

/// The pet with identifier `id`.
pub open spec fn pet_of(s: PalletView, id: PetId) -> PetView {
    s.pets[pet_index(s, id)]
}

/// The identifiers that `owner` holds, in the order received.
pub open spec fn owned_list(s: PalletView, owner: AccountId) -> Seq<PetId> {
    if s.owned.contains_key(owner) {
        s.owned[owner]
    } else {
        Seq::empty()
    }
}

/// Where `id` first occurs in `l`.
pub open spec fn first_index(l: Seq<PetId>, id: PetId) -> int {
    choose|k: int| 0 <= k < l.len() && l[k] == id && forall|j: int| 0 <= j < k ==> l[j] != id
}

impl PalletView {
    /// The counter counts the pets.
    pub open spec fn counted(self) -> bool {
        self.pet_cnt == self.pets.len()
    }

    /// No two pets share an identifier.
    pub open spec fn ids_unique(self) -> bool {
        forall|i: int, j: int|
            0 <= i < j < self.pets.len() ==> #[trigger] self.pets[i].id != #[trigger] self.pets[j].id
    }

    /// No owner's list is longer than allowed or holds an identifier twice.
    pub open spec fn lists_bounded(self) -> bool {
        forall|a: AccountId|
            #[trigger] self.owned.contains_key(a) ==> self.owned[a].len() <= self.max_pet_owned
                && self.owned[a].no_duplicates()
    }

    /// Every listed identifier is that of a pet owned by the list's owner.
    pub open spec fn lists_hold_own_pets(self) -> bool {
        &&& forall|a: AccountId, k: int|
            self.owned.contains_key(a) && 0 <= k < self.owned[a].len() ==> has_pet(
                self,
                #[trigger] self.owned[a][k],
            )
        &&& forall|a: AccountId, k: int, i: int|
            self.owned.contains_key(a) && 0 <= k < self.owned[a].len() && 0 <= i < self.pets.len()
                && #[trigger] self.owned[a][k] == #[trigger] self.pets[i].id ==> self.pets[i].owner == a
    }

    /// Every pet is in its owner's list.
    pub open spec fn pets_listed(self) -> bool {
        forall|i: int|
            0 <= i < self.pets.len() ==> owned_list(self, #[trigger] self.pets[i].owner).contains(
                self.pets[i].id,
            )
    }

    /// The registry is consistent: the counter counts the pets, identifiers
    /// are unique, each pet's identifier stands exactly once in its owner's
    /// list and in no other, and no list is longer than allowed.
    pub open spec fn wf(self) -> bool {
        &&& self.counted()
        &&& self.ids_unique()
        &&& self.lists_bounded()
        &&& self.lists_hold_own_pets()
        &&& self.pets_listed()
    }
}

/// Creating a pet: its identifier is the hash of its name; it fails on a
/// taken identifier, then on a full counter, then on a full owner's list.
pub open spec fn mint_spec(s: PalletView, owner: AccountId, gender: Gender, name: Seq<u8>) -> (
    PalletView,
    Result<PetId, Error>,
) {
    let id = blake2_256_of(name);
    if has_pet(s, id) {
        (s, Err(Error::PetAlreadyExist))
    } else if s.pet_cnt == u64::MAX {
        (s, Err(Error::PetCntOverflow))
    } else if owned_list(s, owner).len() >= s.max_pet_owned {
        (s, Err(Error::CapacityExceeded))
    } else {
        (
            PalletView {
                pet_cnt: (s.pet_cnt + 1) as u64,
                pets: s.pets.push(PetView { id, name, gender, owner, price: None }),
                owned: s.owned.insert(owner, owned_list(s, owner).push(id)),
                events: s.events.push(Event::Created(owner, id)),
                ..s
            },
            Ok(id),
        )
    }
}

/// Setting a pet's price: only its owner may, to any value.
pub open spec fn set_price_spec(s: PalletView, caller: AccountId, id: PetId, price: Option<Balance>) -> (
    PalletView,
    Result<(), Error>,
) {
    if !has_pet(s, id) {
        (s, Err(Error::NotFound))
    } else if pet_of(s, id).owner != caller {
        (s, Err(Error::NotOwner))
    } else {
        (
            PalletView {
                pets: s.pets.update(pet_index(s, id), PetView { price, ..pet_of(s, id) }),
                ..s
            },
            Ok(()),
        )
    }
}

/// Handing pet `id` from `from` to `to`: it leaves `from`'s list, goes to the
/// end of `to`'s, and its price is cleared. Fails, changing nothing, where
/// `from`'s list lacks it or `to`'s list is full.
pub open spec fn move_spec(s: PalletView, from: AccountId, to: AccountId, id: PetId) -> (
    PalletView,
    Result<(), Error>,
) {
    let l = owned_list(s, from);
    if !l.contains(id) {
        (s, Err(Error::NotFound))
    } else if owned_list(s, to).len() >= s.max_pet_owned {
        (s, Err(Error::CapacityExceeded))
    } else {
        (
            PalletView {
                pets: s.pets.update(
                    pet_index(s, id),
                    PetView { owner: to, price: None, ..pet_of(s, id) },
                ),
                owned: s.owned.insert(from, l.remove(first_index(l, id))).insert(
                    to,
                    owned_list(s, to).push(id),
                ),
                events: s.events.push(Event::Transferred(from, to, id)),
                ..s
            },
            Ok(()),
        )
    }
}

/// Giving a pet away: only its owner may, and not to itself.
pub open spec fn transfer_spec(s: PalletView, caller: AccountId, to: AccountId, id: PetId) -> (
    PalletView,
    Result<(), Error>,
) {
    if !has_pet(s, id) {
        (s, Err(Error::NotFound))
    } else if pet_of(s, id).owner != caller {
        (s, Err(Error::NotOwner))
    } else if to == caller {
        (s, Err(Error::SelfTransfer))
    } else {
        move_spec(s, caller, to, id)
    }
}

/// Buying a pet: it must be for sale at no more than `max_price`, and not
/// already the buyer's.
pub open spec fn buy_spec(s: PalletView, caller: AccountId, id: PetId, max_price: Balance) -> (
    PalletView,
    Result<(), Error>,
) {
    if !has_pet(s, id) {
        (s, Err(Error::NotFound))
    } else if pet_of(s, id).price.is_none() {
        (s, Err(Error::NotForSale))
    } else if pet_of(s, id).price.unwrap() > max_price {
        (s, Err(Error::PriceTooHigh))
    } else if pet_of(s, id).owner == caller {
        (s, Err(Error::SelfPurchase))
    } else {
        move_spec(s, pet_of(s, id).owner, caller, id)
    }
}

/// The name an offspring is created from: its parents' identifiers, in order.
pub open spec fn breed_content(parent1: PetId, parent2: PetId) -> Seq<u8> {
    parent1@ + parent2@
}

/// Breeding: the caller must own both parents, which must differ in gender;
/// the offspring is created for the caller with a gender drawn from
/// `random_byte`.
pub open spec fn breed_spec(s: PalletView, caller: AccountId, parent1: PetId, parent2: PetId, random_byte: u8) -> (
    PalletView,
    Result<PetId, Error>,
) {
    if !has_pet(s, parent1) || !has_pet(s, parent2) {
        (s, Err(Error::NotFound))
    } else if pet_of(s, parent1).owner != caller || pet_of(s, parent2).owner != caller {
        (s, Err(Error::NotOwner))
    } else if pet_of(s, parent1).gender == pet_of(s, parent2).gender {
        (s, Err(Error::SameGenderParents))
    } else {
        mint_spec(s, caller, gender_of_byte(random_byte), breed_content(parent1, parent2))
    }
}

/// Saving a value.
pub open spec fn save_data_spec(s: PalletView, who: AccountId, something: u32) -> PalletView {
    PalletView { something: Some(something), events: s.events.push(Event::SomethingStored(something, who)), ..s }
}

/// Incrementing the saved value: fails where none is saved or it is at its maximum.
pub open spec fn cause_error_spec(s: PalletView) -> (PalletView, Result<(), Error>) {
    match s.something {
        None => (s, Err(Error::NoneValue)),
        Some(v) => if v == u32::MAX {
            (s, Err(Error::StorageOverflow))
        } else {
            (PalletView { something: Some((v + 1) as u32), ..s }, Ok(()))
        },
    }
}

proof fn lemma_mint_wf(s: PalletView, owner: AccountId, gender: Gender, name: Seq<u8>)
    requires
        s.wf(),
        mint_spec(s, owner, gender, name).1.is_ok(),
    ensures
        mint_spec(s, owner, gender, name).0.wf(),
{
    let t = mint_spec(s, owner, gender, name).0;
    let id = blake2_256_of(name);
    let l = owned_list(s, owner);
    let n = s.pets.len() as int;
    assert(t.pets[n].id == id);
    assert forall|a: AccountId, k: int| t.owned.contains_key(a) && 0 <= k < t.owned[a].len() implies (
    s.owned.contains_key(a) && 0 <= k < s.owned[a].len() && t.owned[a][k] == s.owned[a][k]) || (a
        == owner && k == l.len() && t.owned[a][k] == id) by {
        if a == owner && k < l.len() {
            assert(s.owned.contains_key(a));
        }
    }
    assert forall|a: AccountId, k: int| s.owned.contains_key(a) && 0 <= k < s.owned[a].len() implies #[trigger] s.owned[a][k] != id by {
        let x = s.owned[a][k];
        assert(has_pet(s, x));
    }
    assert forall|i: int| 0 <= i < t.pets.len() implies owned_list(t, #[trigger] t.pets[i].owner).contains(t.pets[i].id) by {
        if i < n {
            let a = s.pets[i].owner;
            assert(owned_list(s, a).contains(s.pets[i].id));
            let k = choose|k: int| 0 <= k < owned_list(s, a).len() && owned_list(s, a)[k] == s.pets[i].id;
            assert(owned_list(t, a)[k] == s.pets[i].id);
        } else {
            assert(owned_list(t, owner)[l.len() as int] == id);
        }
    }
    assert forall|a: AccountId, k: int| t.owned.contains_key(a) && 0 <= k < t.owned[a].len() implies has_pet(t, #[trigger] t.owned[a][k]) by {
        if a == owner && k == l.len() {
            assert(t.pets[n].id == id);
        } else {
            let x = s.owned[a][k];
            assert(has_pet(s, x));
            let j = choose|j: int| 0 <= j < s.pets.len() && s.pets[j].id == x;
            assert(t.pets[j].id == x);
        }
    }
    assert forall|a: AccountId| #[trigger] t.owned.contains_key(a) implies t.owned[a].len() <= t.max_pet_owned && t.owned[a].no_duplicates() by {
        if a == owner {
            assert forall|x: int, y: int| 0 <= x < t.owned[a].len() && 0 <= y < t.owned[a].len() && x != y implies t.owned[a][x] != t.owned[a][y] by {
                if x < l.len() && y < l.len() {
                    assert(s.owned.contains_key(a));
                } else if x < l.len() {
                    assert(s.owned.contains_key(a));
                    assert(s.owned[a][x] != id);
                } else if y < l.len() {
                    assert(s.owned.contains_key(a));
                    assert(s.owned[a][y] != id);
                }
            }
        }
    }
    assert(t.lists_hold_own_pets());
}

/// Replacing a pet by a record with the same identifier and owner keeps the
/// registry consistent.
proof fn lemma_same_keys_wf(s: PalletView, i: int, p: PetView)
    requires
        s.wf(),
        0 <= i < s.pets.len(),
        p.id == s.pets[i].id,
        p.owner == s.pets[i].owner,
    ensures
        (PalletView { pets: s.pets.update(i, p), ..s }).wf(),
{
    let t = PalletView { pets: s.pets.update(i, p), ..s };
    assert forall|j: int| 0 <= j < t.pets.len() implies #[trigger] t.pets[j].id == s.pets[j].id
        && t.pets[j].owner == s.pets[j].owner by {}
    assert forall|a: AccountId, k: int| t.owned.contains_key(a) && 0 <= k < t.owned[a].len() implies has_pet(t, #[trigger] t.owned[a][k]) by {
        let x = s.owned[a][k];
        assert(has_pet(s, x));
        let j = choose|j: int| 0 <= j < s.pets.len() && s.pets[j].id == x;
        assert(t.pets[j].id == x);
    }
    assert forall|j: int| 0 <= j < t.pets.len() implies owned_list(t, #[trigger] t.pets[j].owner).contains(t.pets[j].id) by {
        assert(owned_list(s, s.pets[j].owner).contains(s.pets[j].id));
    }
}

/// Handing a pet from its owner to another keeps the registry consistent.
proof fn lemma_move_wf(s: PalletView, from: AccountId, to: AccountId, id: PetId)
    requires
        s.wf(),
        has_pet(s, id),
        pet_of(s, id).owner == from,
        from != to,
        move_spec(s, from, to, id).1.is_ok(),
    ensures
        move_spec(s, from, to, id).0.wf(),
{
    let t = move_spec(s, from, to, id).0;
    let i = pet_index(s, id);
    assert(0 <= i < s.pets.len() && s.pets[i].id == id);
    let l = owned_list(s, from);
    let lt = owned_list(s, to);
    let k0 = l.index_of(id);
    assert(l.contains(id));
    assert(0 <= k0 < l.len() && l[k0] == id);
    assert(s.owned.contains_key(from));
    assert(l == s.owned[from]);
    assert(forall|j: int| 0 <= j < k0 ==> l[j] != id);
    assert(exists|kk: int| 0 <= kk < l.len() && l[kk] == id && forall|j: int| 0 <= j < kk ==> l[j] != id);
    let f = first_index(l, id);
    assert(0 <= f < l.len() && l[f] == id);
    assert(f == k0);
    let lr = l.remove(f);
    l.remove_ensures(f);
    assert forall|x: int| 0 <= x < lr.len() implies #[trigger] lr[x] != id by {
        if x < f {
            assert(lr[x] == l[x]);
        } else {
            assert(lr[x] == l[x + 1]);
        }
    }
    assert forall|x: int| 0 <= x < lt.len() implies #[trigger] lt[x] != id by {
        if lt[x] == id {
            assert(s.owned.contains_key(to));
            assert(s.pets[i].owner == to);
        }
    }
    assert(t.owned == s.owned.insert(from, lr).insert(to, lt.push(id)));
    assert forall|j: int| 0 <= j < t.pets.len() && j != i implies #[trigger] t.pets[j] == s.pets[j] by {}
    assert(t.pets[i].id == id && t.pets[i].owner == to);
    // every entry of a new list is an entry of an old list, or `id` in `to`'s
    assert forall|a: AccountId, k: int| t.owned.contains_key(a) && 0 <= k < t.owned[a].len() implies (a == to && k == lt.len() && t.owned[a][k] == id) || (a != to && s.owned.contains_key(a) && exists|k2: int| 0 <= k2 < s.owned[a].len() && s.owned[a][k2] == #[trigger] t.owned[a][k] && (a == from ==> k2 != f)) || (a == to && s.owned.contains_key(a) && 0 <= k < lt.len() && t.owned[a][k] == s.owned[a][k]) by {
        if a == to {
            if k < lt.len() {
                assert(s.owned.contains_key(a));
            }
        } else if a == from {
            if k < f {
                assert(t.owned[a][k] == l[k]);
            } else {
                assert(t.owned[a][k] == l[k + 1]);
            }
        } else {
            assert(t.owned[a][k] == s.owned[a][k]);
        }
    }
    assert forall|a: AccountId, k: int| t.owned.contains_key(a) && 0 <= k < t.owned[a].len() implies has_pet(t, #[trigger] t.owned[a][k]) by {
        let x = t.owned[a][k];
        if x == id {
            assert(t.pets[i].id == id);
        } else {
            let k2 = choose|k2: int| 0 <= k2 < s.owned[a].len() && s.owned[a][k2] == x;
            assert(s.owned[a][k2] == x);
            assert(has_pet(s, x));
            let j = choose|j: int| 0 <= j < s.pets.len() && s.pets[j].id == x;
            assert(t.pets[j].id == x);
        }
    }
    assert forall|a: AccountId, k: int, j: int| t.owned.contains_key(a) && 0 <= k < t.owned[a].len() && 0 <= j < t.pets.len() && #[trigger] t.owned[a][k] == #[trigger] t.pets[j].id implies t.pets[j].owner == a by {
        let x = t.owned[a][k];
        if j == i {
            if a != to {
                let k2 = choose|k2: int| 0 <= k2 < s.owned[a].len() && s.owned[a][k2] == x && (a == from ==> k2 != f);
                assert(s.owned[a][k2] == s.pets[i].id);
                if a == from {
                    assert(l[k2] == l[f]);
                }
            }
        } else {
            if a == to && k == lt.len() {
                assert(s.pets[j].id != s.pets[i].id);
            } else if a == to {
                assert(s.owned[a][k] == s.pets[j].id);
            } else {
                let k2 = choose|k2: int| 0 <= k2 < s.owned[a].len() && s.owned[a][k2] == x && (a == from ==> k2 != f);
                assert(s.owned[a][k2] == s.pets[j].id);
            }
        }
    }
    assert forall|j: int| 0 <= j < t.pets.len() implies owned_list(t, #[trigger] t.pets[j].owner).contains(t.pets[j].id) by {
        if j == i {
            assert(owned_list(t, to)[lt.len() as int] == id);
        } else {
            let a = s.pets[j].owner;
            let x = s.pets[j].id;
            assert(x != id);
            assert(owned_list(s, a).contains(x));
            let k = choose|k: int| 0 <= k < owned_list(s, a).len() && owned_list(s, a)[k] == x;
            if a == from {
                assert(k != f);
                if k < f {
                    assert(lr[k] == x);
                } else {
                    assert(lr[k - 1] == x);
                }
            } else if a == to {
                assert(owned_list(t, a)[k] == x);
            } else {
                assert(owned_list(t, a)[k] == x);
            }
        }
    }
    assert forall|a: AccountId| #[trigger] t.owned.contains_key(a) implies t.owned[a].len() <= t.max_pet_owned && t.owned[a].no_duplicates() by {
        if a == to {
            if lt.len() > 0 {
                assert(s.owned.contains_key(a));
            }
        } else if a == from {
            assert forall|x: int, y: int| 0 <= x < lr.len() && 0 <= y < lr.len() && x != y implies lr[x] != lr[y] by {
                let x1 = if x < f { x } else { x + 1 };
                let y1 = if y < f { y } else { y + 1 };
                assert(lr[x] == l[x1]);
                assert(lr[y] == l[y1]);
            }
        }
    }
    assert(t.lists_hold_own_pets());
}

/// A call into the registry, as a dispatcher receives it from a signed caller.
pub enum Call {
    CreatePet(Vec<u8>),
    SetPrice(PetId, Option<Balance>),
    Transfer(AccountId, PetId),
    BuyKitty(PetId, Balance),
    BreedKitty(PetId, PetId),
    SaveData(u32),
    CauseError,
}

/// A result with its value dropped.
pub open spec fn without_value(r: Result<PetId, Error>) -> Result<(), Error> {
    match r {
        Ok(_) => Ok(()),
        Err(e) => Err(e),
    }
}

/// What running `call` for `caller` does.
pub open spec fn dispatch_spec(s: PalletView, caller: AccountId, call: Call, random_byte: u8) -> (
    PalletView,
    Result<(), Error>,
) {
    match call {
        Call::CreatePet(name) => {
            let (t, r) = mint_spec(s, caller, gender_of_byte(random_byte), name@);
            (t, without_value(r))
        },
        Call::SetPrice(id, price) => set_price_spec(s, caller, id, price),
        Call::Transfer(to, id) => transfer_spec(s, caller, to, id),
        Call::BuyKitty(id, max_price) => buy_spec(s, caller, id, max_price),
        Call::BreedKitty(p1, p2) => {
            let (t, r) = breed_spec(s, caller, p1, p2, random_byte);
            (t, without_value(r))
        },
        Call::SaveData(v) => (save_data_spec(s, caller, v), Ok(())),
        Call::CauseError => cause_error_spec(s),
    }
}

proof fn lemma_pet_index(s: PalletView, i: int)
    requires
        s.wf(),
        0 <= i < s.pets.len(),
    ensures
        has_pet(s, s.pets[i].id),
        pet_index(s, s.pets[i].id) == i,
{
    let id = s.pets[i].id;
    assert(s.pets[i].id == id);
    let k = pet_index(s, id);
    assert(0 <= k < s.pets.len() && s.pets[k].id == id);
}

/// Appends `id` to `owner`'s list.
fn owned_push(m: &mut HashMap<AccountId, Vec<PetId>>, owner: AccountId, id: PetId)
    ensures
        owned_view(*final(m)) == owned_view(*old(m)).insert(
            owner,
            if owned_view(*old(m)).contains_key(owner) {
                owned_view(*old(m))[owner]
            } else {
                Seq::empty()
            }.push(id),
        ),
{
    let mut list = match m.remove(&owner) {
        Some(v) => v,
        None => Vec::new(),
    };
    list.push(id);
    m.insert(owner, list);
    assert(owned_view(*m) =~= owned_view(*old(m)).insert(
        owner,
        if owned_view(*old(m)).contains_key(owner) {
            owned_view(*old(m))[owner]
        } else {
            Seq::empty()
        }.push(id),
    ));
}

/// Removes the entry at `k` from `owner`'s list.
fn owned_remove_at(m: &mut HashMap<AccountId, Vec<PetId>>, owner: AccountId, k: usize)
    requires
        owned_view(*old(m)).contains_key(owner),
        k < owned_view(*old(m))[owner].len(),
    ensures
        owned_view(*final(m)) == owned_view(*old(m)).insert(owner, owned_view(*old(m))[owner].remove(k as int)),
{
    let mut list = match m.remove(&owner) {
        Some(v) => v,
        None => Vec::new(),
    };
    list.remove(k);
    m.insert(owner, list);
    assert(owned_view(*m) =~= owned_view(*old(m)).insert(owner, owned_view(*old(m))[owner].remove(k as int)));
}

/// The bytes of two identifiers, one after the other.
fn join_ids(a: &PetId, b: &PetId) -> (r: Vec<u8>)
    ensures
        r@ == breed_content(*a, *b),
{
    let mut r: Vec<u8> = Vec::new();
    let mut i: usize = 0;
    while i < 32
        invariant
            i <= 32,
            r@ == a@.subrange(0, i as int),
        decreases 32 - i,
    {
        r.push(a[i]);
        i = i + 1;
        assert(r@ =~= a@.subrange(0, i as int));
    }
    assert(r@ =~= a@);
    let mut j: usize = 0;
    while j < 32
        invariant
            j <= 32,
            r@ == a@ + b@.subrange(0, j as int),
        decreases 32 - j,
    {
        r.push(b[j]);
        j = j + 1;
        assert(r@ =~= a@ + b@.subrange(0, j as int));
    }
    assert(r@ =~= a@ + b@);
    r
}

impl Pallet {
    pub open spec fn wf(&self) -> bool {
        self@.wf()
    }

    /// An empty registry whose owners may hold up to `max_pet_owned` pets each.
    pub fn new(max_pet_owned: u32) -> (r: Self)
        ensures
            r.wf(),
            r@ == (PalletView {
                something: None,
                pet_cnt: 0,
                pets: Seq::empty(),
                owned: Map::empty(),
                max_pet_owned,
                events: Seq::empty(),
            }),
    {
        let r = Pallet {
            something: None,
            pet_cnt: 0,
            pets: Vec::new(),
            pets_owned: HashMap::new(),
            max_pet_owned,
            events: Vec::new(),
        };
        assert(r@.pets =~= Seq::empty());
        assert(r@.owned =~= Map::empty());
        r
    }

    /// Where the pet with identifier `id` stands, if it exists.
    fn find_pet(&self, id: &PetId) -> (r: Option<usize>)
        requires
            self.wf(),
        ensures
            match r {
                Some(i) => i < self@.pets.len() && has_pet(self@, *id) && pet_index(self@, *id) == i,
                None => !has_pet(self@, *id),
            },
    {
        let mut i: usize = 0;
        while i < self.pets.len()
            invariant
                self.wf(),
                i <= self.pets@.len(),
                forall|j: int| 0 <= j < i ==> self@.pets[j].id != *id,
            decreases self.pets@.len() - i,
        {
            if same_id(&self.pets[i].id, id) {
                proof {
                    lemma_pet_index(self@, i as int);
                }
                return Some(i);
            }
            i = i + 1;
        }
        None
    }

    /// How many pets `owner` holds.
    fn owned_len(&self, owner: AccountId) -> (r: usize)
        ensures
            r == owned_list(self@, owner).len(),
    {
        match self.pets_owned.get(&owner) {
            Some(v) => v.len(),
            None => 0,
        }
    }

    /// Creates a pet for `owner` from `name`. Its gender is `gender` when
    /// given, else the one `random_byte` selects; it is not for sale.
    pub fn mint(&mut self, owner: AccountId, gender: Option<Gender>, name: &Vec<u8>, random_byte: u8) -> (r: Result<PetId, Error>)
        requires
            old(self).wf(),
        ensures
            final(self).wf(),
            (final(self)@, r) == mint_spec(old(self)@, owner, resolve_gender(gender, random_byte), name@),
    {
        let ghost s0 = self@;
        let pet_id = hash_of(name);
        if self.find_pet(&pet_id).is_some() {
            return Err(Error::PetAlreadyExist);
        }
        if self.pet_cnt == u64::MAX {
            return Err(Error::PetCntOverflow);
        }
        if self.owned_len(owner) >= self.max_pet_owned as usize {
            return Err(Error::CapacityExceeded);
        }
        let g = match gender {
            Some(g) => g,
            None => gen_gender(random_byte),
        };
        let pet = Pet { id: pet_id, name: copy_bytes(name), gender: g, owner, price: None };
        self.pets.push(pet);
        self.pet_cnt = self.pet_cnt + 1;
        owned_push(&mut self.pets_owned, owner, pet_id);
        self.events.push(Event::Created(owner, pet_id));
        let ghost s1 = mint_spec(s0, owner, g, name@).0;
        assert(self@.pets =~= s1.pets);
        assert(self@.owned =~= s1.owned);
        proof {
            lemma_mint_wf(s0, owner, g, name@);
        }
        Ok(pet_id)
    }

    /// Where `id` first occurs in `owner`'s list, if it does.
    fn position_in(&self, owner: AccountId, id: &PetId) -> (r: Option<usize>)
        ensures
            match r {
                Some(k) => {
                    &&& owned_list(self@, owner).contains(*id)
                    &&& k < owned_list(self@, owner).len()
                    &&& owned_list(self@, owner)[k as int] == *id
                    &&& k == first_index(owned_list(self@, owner), *id)
                },
                None => !owned_list(self@, owner).contains(*id),
            },
    {
        let ghost l = owned_list(self@, owner);
        match self.pets_owned.get(&owner) {
            None => None,
            Some(v) => {
                let mut k: usize = 0;
                while k < v.len()
                    invariant
                        v@ == l,
                        l == owned_list(self@, owner),
                        k <= v@.len(),
                        forall|j: int| 0 <= j < k ==> l[j] != *id,
                    decreases v@.len() - k,
                {
                    if same_id(&v[k], id) {
                        assert(0 <= k < l.len() && l[k as int] == *id && forall|j: int|
                            0 <= j < k ==> l[j] != *id);
                        assert(l.contains(*id));
                        assert(exists|kk: int|
                            0 <= kk < l.len() && l[kk] == *id && forall|j: int| 0 <= j < kk ==> l[j] != *id);
                        let ghost f = first_index(l, *id);
                        assert(0 <= f < l.len() && l[f] == *id && forall|j: int| 0 <= j < f ==> l[j] != *id);
                        assert(f == k) by {
                            if f < k {
                                assert(l[f] != *id);
                            } else if f > k {
                                assert(l[k as int] != *id);
                            }
                        }
                        return Some(k);
                    }
                    k = k + 1;
                }
                None
            },
        }
    }

    /// Hands the pet at `i` from `from` to `to`.
    fn move_pet(&mut self, i: usize, from: AccountId, to: AccountId, id: PetId) -> (r: Result<(), Error>)
        requires
            old(self).wf(),
            has_pet(old(self)@, id),
            pet_index(old(self)@, id) == i,
            from != to,
        ensures
            final(self).wf(),
            (final(self)@, r) == move_spec(old(self)@, from, to, id),
    {
        let ghost s0 = self@;
        let k = match self.position_in(from, &id) {
            Some(k) => k,
            None => {
                return Err(Error::NotFound);
            },
        };
        if self.owned_len(to) >= self.max_pet_owned as usize {
            return Err(Error::CapacityExceeded);
        }
        owned_remove_at(&mut self.pets_owned, from, k);
        owned_push(&mut self.pets_owned, to, id);
        self.pets[i].owner = to;
        self.pets[i].price = None;
        self.events.push(Event::Transferred(from, to, id));
        let ghost s1 = move_spec(s0, from, to, id).0;
        assert(self@.pets =~= s1.pets);
        assert(self@.owned =~= s1.owned);
        proof {
            lemma_move_wf(s0, from, to, id);
        }
        Ok(())
    }

    /// Creates a pet for `sender` from `name`, with a gender drawn from
    /// `random_byte`.
    pub fn create_pet(&mut self, sender: AccountId, name: &Vec<u8>, random_byte: u8) -> (r: Result<PetId, Error>)
        requires
            old(self).wf(),
        ensures
            final(self).wf(),
            (final(self)@, r) == mint_spec(old(self)@, sender, gender_of_byte(random_byte), name@),
    {
        self.mint(sender, None, name, random_byte)
    }

    /// Sets the price of pet `id`; `None` takes it off sale.
    pub fn set_price(&mut self, caller: AccountId, id: PetId, price: Option<Balance>) -> (r: Result<(), Error>)
        requires
            old(self).wf(),
        ensures
            final(self).wf(),
            (final(self)@, r) == set_price_spec(old(self)@, caller, id, price),
    {
        let ghost s0 = self@;
        let i = match self.find_pet(&id) {
            Some(i) => i,
            None => {
                return Err(Error::NotFound);
            },
        };
        if self.pets[i].owner != caller {
            return Err(Error::NotOwner);
        }
        self.pets[i].price = price;
        assert(self@.pets =~= set_price_spec(s0, caller, id, price).0.pets);
        proof {
            lemma_same_keys_wf(s0, i as int, PetView { price, ..pet_of(s0, id) });
        }
        Ok(())
    }

    /// Gives pet `id` from its owner `caller` to `to`.
    pub fn transfer(&mut self, caller: AccountId, to: AccountId, id: PetId) -> (r: Result<(), Error>)
        requires
            old(self).wf(),
        ensures
            final(self).wf(),
            (final(self)@, r) == transfer_spec(old(self)@, caller, to, id),
    {
        let i = match self.find_pet(&id) {
            Some(i) => i,
            None => {
                return Err(Error::NotFound);
            },
        };
        if self.pets[i].owner != caller {
            return Err(Error::NotOwner);
        }
        if to == caller {
            return Err(Error::SelfTransfer);
        }
        self.move_pet(i, caller, to, id)
    }

    /// Buys pet `id` for `caller`, paying at most `max_price`.
    pub fn buy_kitty(&mut self, caller: AccountId, id: PetId, max_price: Balance) -> (r: Result<(), Error>)
        requires
            old(self).wf(),
        ensures
            final(self).wf(),
            (final(self)@, r) == buy_spec(old(self)@, caller, id, max_price),
    {
        let i = match self.find_pet(&id) {
            Some(i) => i,
            None => {
                return Err(Error::NotFound);
            },
        };
        let price = match self.pets[i].price {
            Some(p) => p,
            None => {
                return Err(Error::NotForSale);
            },
        };
        if price > max_price {
            return Err(Error::PriceTooHigh);
        }
        let owner = self.pets[i].owner;
        if owner == caller {
            return Err(Error::SelfPurchase);
        }
        self.move_pet(i, owner, caller, id)
    }

    /// Breeds two pets of `caller` into a new one whose name is the parents'
    /// identifiers in order and whose gender `random_byte` draws.
    pub fn breed_kitty(&mut self, caller: AccountId, parent1: PetId, parent2: PetId, random_byte: u8) -> (r: Result<PetId, Error>)
        requires
            old(self).wf(),
        ensures
            final(self).wf(),
            (final(self)@, r) == breed_spec(old(self)@, caller, parent1, parent2, random_byte),
    {
        let i = match self.find_pet(&parent1) {
            Some(i) => i,
            None => {
                return Err(Error::NotFound);
            },
        };
        let j = match self.find_pet(&parent2) {
            Some(j) => j,
            None => {
                return Err(Error::NotFound);
            },
        };
        if self.pets[i].owner != caller || self.pets[j].owner != caller {
            return Err(Error::NotOwner);
        }
        if self.pets[i].gender == self.pets[j].gender {
            return Err(Error::SameGenderParents);
        }
        let content = join_ids(&parent1, &parent2);
        self.mint(caller, None, &content, random_byte)
    }

    /// Saves `something`, recording who did.
    pub fn save_data(&mut self, who: AccountId, something: u32)
        requires
            old(self).wf(),
        ensures
            final(self).wf(),
            final(self)@ == save_data_spec(old(self)@, who, something),
    {
        self.something = Some(something);
        self.events.push(Event::SomethingStored(something, who));
    }

    /// Increments the saved value.
    pub fn cause_error(&mut self) -> (r: Result<(), Error>)
        requires
            old(self).wf(),
        ensures
            final(self).wf(),
            (final(self)@, r) == cause_error_spec(old(self)@),
    {
        let v = match self.something {
            None => {
                return Err(Error::NoneValue);
            },
            Some(v) => v,
        };
        if v == u32::MAX {
            return Err(Error::StorageOverflow);
        }
        let ghost s0 = self@;
        self.something = Some(v + 1);
        assert(self@.owned == s0.owned);
        Ok(())
    }

    /// Runs `call` for `caller`; `random_byte` is the entropy a new pet's
    /// gender is drawn from.
    pub fn dispatch(&mut self, caller: AccountId, call: Call, random_byte: u8) -> (r: Result<(), Error>)
        requires
            old(self).wf(),
        ensures
            final(self).wf(),
            (final(self)@, r) == dispatch_spec(old(self)@, caller, call, random_byte),
    {
        match call {
            Call::CreatePet(name) => match self.create_pet(caller, &name, random_byte) {
                Ok(_) => Ok(()),
                Err(e) => Err(e),
            },
            Call::SetPrice(id, price) => self.set_price(caller, id, price),
            Call::Transfer(to, id) => self.transfer(caller, to, id),
            Call::BuyKitty(id, max_price) => self.buy_kitty(caller, id, max_price),
            Call::BreedKitty(p1, p2) => match self.breed_kitty(caller, p1, p2, random_byte) {
                Ok(_) => Ok(()),
                Err(e) => Err(e),
            },
            Call::SaveData(v) => {
                self.save_data(caller, v);
                Ok(())
            },
            Call::CauseError => self.cause_error(),
        }
    }

    /// The saved value.
    pub fn something(&self) -> (r: Option<u32>)
        ensures
            r == self@.something,
    {
        self.something
    }

    /// How many pets exist.
    pub fn pet_cnt(&self) -> (r: u64)
        ensures
            r == self@.pet_cnt,
    {
        self.pet_cnt
    }

    /// The pet with identifier `id`, if any.
    pub fn pets(&self, id: &PetId) -> (r: Option<&Pet>)
        requires
            self.wf(),
        ensures
            match r {
                Some(p) => has_pet(self@, *id) && p@ == pet_of(self@, *id),
                None => !has_pet(self@, *id),
            },
    {
        match self.find_pet(id) {
            Some(i) => Some(&self.pets[i]),
            None => None,
        }
    }

    /// The identifiers that `owner` holds, in the order received.
    pub fn pets_owned(&self, owner: AccountId) -> (r: Vec<PetId>)
        ensures
            r@ == owned_list(self@, owner),
    {
        let mut r: Vec<PetId> = Vec::new();
        match self.pets_owned.get(&owner) {
            None => {},
            Some(v) => {
                let mut k: usize = 0;
                while k < v.len()
                    invariant
                        k <= v@.len(),
                        r@ == v@.subrange(0, k as int),
                    decreases v@.len() - k,
                {
                    r.push(v[k]);
                    k = k + 1;
                    assert(r@ =~= v@.subrange(0, k as int));
                }
                assert(r@ =~= v@);
            },
        }
        r
    }

    /// How many pets one owner may hold.
    pub fn max_pet_owned(&self) -> (r: u32)
        ensures
            r == self@.max_pet_owned,
    {
        self.max_pet_owned
    }

    /// The notifications recorded so far, oldest first.
    pub fn events(&self) -> (r: &Vec<Event>)
        ensures
            r@ == self@.events,
    {
        &self.events
    }
}

} // verus!
