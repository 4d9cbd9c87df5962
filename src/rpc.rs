use vstd::prelude::*;
use std::marker::PhantomData;
use std::sync::Arc;
use crate::pallet::{Pallet, has_pet, pet_of};
use crate::pet::{Gender, PetId, copy_bytes};

verus! {

/// A query that always answers five.
pub struct Example;

impl Example {
    pub fn get_value(&self) -> (r: u32)
        ensures
            r == 5,
    {
        5
    }
}

/// Why a query failed.
#[derive(Clone, Copy, Debug, PartialEq, Eq, Structural)]
pub enum Error {
    /// The request could not be decoded.
    DecodeError,
    /// The state could not answer it.
    RuntimeError,
}

/// The numeric code each query error is reported with.
pub open spec fn error_code(e: Error) -> i64 {
    match e {
        Error::RuntimeError => 1,
        Error::DecodeError => 2,
    }
}

impl From<Error> for i64 {
    fn from(e: Error) -> i64 {
        match e {
            Error::RuntimeError => 1,
            Error::DecodeError => 2,
        }
    }
}

impl vstd::std_specs::convert::FromSpecImpl<Error> for i64 {
    open spec fn obeys_from_spec() -> bool {
        true
    }

    open spec fn from_spec(e: Error) -> i64 {
        error_code(e)
    }
}

/// The state a query reads: the one asked for, else the latest.
pub fn block_or_best<H>(at: Option<H>, best: H) -> (r: H)
    ensures
        r == (match at {
            Some(h) => h,
            None => best,
        }),
{
    match at {
        Some(h) => h,
        None => best,
    }
}

/// Read-only queries on the registry, over a shared handle to the client
/// that holds its states.
pub struct Kitties<C, P> {
    client: Arc<C>,
    _marker: PhantomData<P>,
}

impl<C, P> Kitties<C, P> {
    pub closed spec fn client_spec(&self) -> Arc<C> {
        self.client
    }

    /// A query handle over `client`.
    pub fn new(client: Arc<C>) -> (r: Self)
        ensures
            r.client_spec() == client,
    {
        Kitties { client, _marker: PhantomData }
    }

    /// The client the queries read from.
    pub fn client(&self) -> (r: &Arc<C>)
        ensures
            *r == self.client_spec(),
    {
        &self.client
    }

    /// The name and gender of pet `kitty_id` in `state`; `RuntimeError` where
    /// there is no such pet.
    pub fn get_kitty(&self, state: &Pallet, kitty_id: PetId) -> (r: Result<(Vec<u8>, Gender), Error>)
        requires
            state.wf(),
        ensures
            match r {
                Ok((name, gender)) => {
                    &&& has_pet(state@, kitty_id)
                    &&& name@ == pet_of(state@, kitty_id).name
                    &&& gender == pet_of(state@, kitty_id).gender
                },
                Err(e) => !has_pet(state@, kitty_id) && e == Error::RuntimeError,
            },
    {
        match state.pets(&kitty_id) {
            Some(p) => Ok((copy_bytes(&p.name), p.gender)),
            None => Err(Error::RuntimeError),
        }
    }

    /// How many pets exist in `state`.
    pub fn count_kitty(&self, state: &Pallet) -> (r: u64)
        ensures
            r == state@.pet_cnt,
    {
        state.pet_cnt()
    }
}

} // verus!
