//! Who sent a call, and the error a dispatchable call fails with.
use vstd::prelude::*;

verus! {

/// The origin of a dispatched call.
#[derive(Clone, Copy, Debug, PartialEq, Eq)]
pub enum Origin {
    /// The root of the chain, not an account.
    Root,
    /// An account that signed the call.
    Signed(u64),
    /// An unsigned call.
    Unsigned,
}

/// The error of a dispatchable call: a bad origin, or an error of the module.
#[derive(Clone, Copy, Debug, PartialEq, Eq)]
pub enum DispatchError<E> {
    BadOrigin,
    Module(E),
}

/// The account that signed a call, if it is signed.
pub open spec fn signer(o: Origin) -> Option<u64> {
    match o {
        Origin::Signed(who) => Some(who),
        _ => None,
    }
}

/// The signer of `origin`, or `BadOrigin` where the call is not signed.
pub fn ensure_signed<E>(origin: Origin) -> (r: Result<u64, DispatchError<E>>)
    ensures
        match signer(origin) {
            Some(who) => r == Ok::<u64, DispatchError<E>>(who),
            None => r == Err::<u64, DispatchError<E>>(DispatchError::BadOrigin),
        },
{
    match origin {
        Origin::Signed(who) => Ok(who),
        _ => Err(DispatchError::BadOrigin),
    }
}

} // verus!
