use vstd::prelude::*;

verus! {

/// Identity of an account, a contract or a token on the ledger.
///
/// The pool only ever compares addresses, so an address is held as the
/// ledger-assigned numeric id that stands for it.
#[derive(Clone, Copy, Debug, PartialEq, Eq, Structural)]
pub struct Address {
    pub id: u64,
}

impl Address {
    pub fn new(id: u64) -> (r: Address)
        ensures
            r.id == id,
    {
        Address { id }
    }
}

} // verus!
