//! Identities of the accounts that act on the club.

use vstd::prelude::*;

verus! {

/// A 32-byte account identity.
#[derive(Debug, Clone, Copy, PartialEq, Eq)]
pub struct AccountId {
    pub bytes: [u8; 32],
}

impl AccountId {
    pub fn new(bytes: [u8; 32]) -> (r: AccountId)
        ensures
            r.bytes == bytes,
    {
        AccountId { bytes }
    }

    /// Both identities hold the same bytes.
    pub fn es_igual(&self, otro: &AccountId) -> (r: bool)
        ensures
            r == (*self == *otro),
    {
        broadcast use vstd::array::group_array_axioms;

        let mut i: usize = 0;
        while i < 32
            invariant
                i <= 32,
                forall|j: int| 0 <= j < i ==> self.bytes[j] == otro.bytes[j],
            decreases 32 - i,
        {
            if self.bytes[i] != otro.bytes[i] {
                return false;
            }
            i = i + 1;
        }
        assert(self.bytes =~= otro.bytes);
        true
    }
}

/// `cuenta` is one of `cuentas`.
pub fn contiene(cuentas: &Vec<AccountId>, cuenta: &AccountId) -> (r: bool)
    ensures
        r == cuentas@.contains(*cuenta),
{
    let mut i: usize = 0;
    while i < cuentas.len()
        invariant
            i <= cuentas.len(),
            forall|j: int| 0 <= j < i ==> cuentas@[j] != *cuenta,
        decreases cuentas.len() - i,
    {
        if cuentas[i].es_igual(cuenta) {
            return true;
        }
        i = i + 1;
    }
    false
}

} // verus!
