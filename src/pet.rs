use vstd::prelude::*;

verus! {

/// Who holds pets.
pub type AccountId = u64;

/// A pet's identifier: the 256-bit Blake2 hash of its name.
pub type PetId = [u8; 32];

/// Amount asked for a pet.
pub type Balance = u64;

/// A pet's gender, fixed at creation.
#[derive(Clone, Copy, Debug, PartialEq, Eq, Structural)]
pub enum Gender {
    Male,
    Female,
}

/// The gender that one byte of entropy selects.
pub open spec fn gender_of_byte(b: u8) -> Gender {
    if b % 2 == 0 {
        Gender::Male
    } else {
        Gender::Female
    }
}

/// Draws a gender from one byte of entropy: even bytes give `Male`, odd ones `Female`.
pub fn gen_gender(random_byte: u8) -> (g: Gender)
    ensures
        g == gender_of_byte(random_byte),
{
    if random_byte % 2 == 0 {
        Gender::Male
    } else {
        Gender::Female
    }
}

/// The gender a new pet gets: the one asked for, else the one the entropy picks.
pub open spec fn resolve_gender(gender: Option<Gender>, random_byte: u8) -> Gender {
    match gender {
        Some(g) => g,
        None => gender_of_byte(random_byte),
    }
}

/// What the Blake2-256 hash function gives for a byte string.
pub uninterp spec fn blake2_256_of(data: Seq<u8>) -> [u8; 32];

/// Relies on sp_crypto_hashing::blake2_256: a 32-byte digest that depends on
/// the bytes alone.
#[verifier::external_body]
pub(crate) fn hash_of(data: &Vec<u8>) -> (r: [u8; 32])
    ensures
        r == blake2_256_of(data@),
{
    sp_crypto_hashing::blake2_256(data.as_slice())
}

/// Compares two identifiers byte by byte.
pub fn same_id(a: &PetId, b: &PetId) -> (r: bool)
    ensures
        r == (*a == *b),
{
    let mut i: usize = 0;
    while i < 32
        invariant
            i <= 32,
            forall|j: int| 0 <= j < i ==> a@[j] == b@[j],
        decreases 32 - i,
    {
        if a[i] != b[i] {
            return false;
        }
        i = i + 1;
    }
    assert(*a =~= *b) by {
        broadcast use vstd::array::group_array_axioms;
    }
    true
}

/// Copies a byte string.
pub fn copy_bytes(v: &Vec<u8>) -> (r: Vec<u8>)
    ensures
        r@ == v@,
{
    let mut r: Vec<u8> = Vec::new();
    let mut i: usize = 0;
    while i < v.len()
        invariant
            i <= v.len(),
            r@ == v@.subrange(0, i as int),
        decreases v.len() - i,
    {
        r.push(v[i]);
        i = i + 1;
        assert(r@ =~= v@.subrange(0, i as int));
    }
    assert(r@ =~= v@);
    r
}

/// A pet as stored: its identifier, the name it was created from, its gender,
/// its owner and the price it is offered at (`None`: not for sale).
pub struct Pet {
    pub id: PetId,
    pub name: Vec<u8>,
    pub gender: Gender,
    pub owner: AccountId,
    pub price: Option<Balance>,
}

/// A pet as a mathematical value.
pub struct PetView {
    pub id: PetId,
    pub name: Seq<u8>,
    pub gender: Gender,
    pub owner: AccountId,
    pub price: Option<Balance>,
}

impl View for Pet {
    type V = PetView;

    open spec fn view(&self) -> PetView {
        PetView {
            id: self.id,
            name: self.name@,
            gender: self.gender,
            owner: self.owner,
            price: self.price,
        }
    }
}

/// Notifications the registry records on success.
#[derive(Clone, Copy, Debug)]
pub enum Event {
    /// A value was saved: the value and who saved it.
    SomethingStored(u32, AccountId),
    /// A pet was created: its owner and identifier.
    Created(AccountId, PetId),
    /// A pet changed hands: from, to, and its identifier.
    Transferred(AccountId, AccountId, PetId),
}

/// Why a registry operation failed; a failed operation changes nothing.
#[derive(Clone, Copy, Debug, PartialEq, Eq, Structural)]
pub enum Error {
    /// No value has been saved yet.
    NoneValue,
    /// The saved value cannot be incremented.
    StorageOverflow,
    /// The pet counter is at its maximum.
    PetCntOverflow,
    /// A pet with the same identifier exists.
    PetAlreadyExist,
    /// The owner already holds as many pets as allowed.
    CapacityExceeded,
    /// No such pet, or not in the owner's list.
    NotFound,
    /// The caller does not own the pet.
    NotOwner,
    /// The pet has no price.
    NotForSale,
    /// The pet's price is above what the buyer offers.
    PriceTooHigh,
    /// The buyer already owns the pet.
    SelfPurchase,
    /// The receiver is the owner.
    SelfTransfer,
    /// Both parents have the same gender.
    SameGenderParents,
}

} // verus!
