use vstd::prelude::*;

verus! {

/// Turns the outcome of a creation call that reports its status and fills an
/// out-slot into a single `Result`.
///
/// A successful call always fills the slot, which `requires` records; a failed
/// call hands back its error unchanged.
pub fn unwrap<T, R>(status: Result<(), R>, slot: Option<T>) -> (r: Result<T, R>)
    requires
        status is Ok ==> slot is Some,
    ensures
        match status {
            Ok(_) => r == Ok::<T, R>(slot->0),
            Err(e) => r == Err::<T, R>(e),
        },
{
    match status {
        Ok(()) => match slot {
            Some(v) => Ok(v),
            None => {
                proof {
                    assert(false);
                }
                unreached()
            },
        },
        Err(e) => Err(e),
    }
}

} // verus!
