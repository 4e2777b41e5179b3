//! What the runners exchange with the chain.
use crate::external::random::random_half_address;
use vstd::prelude::*;

verus! {

/// A 32-byte account address.
#[derive(Debug, Clone, Copy, PartialEq, Eq)]
pub struct AccountAddress {
    pub bytes: [u8; 32],
}

impl View for AccountAddress {
    type V = Seq<u8>;

    open spec fn view(&self) -> Seq<u8> {
        self.bytes@
    }
}

impl AccountAddress {
    /// The address whose first half is `high` and whose second half is `low`.
    pub fn from_halves(high: [u8; 16], low: [u8; 16]) -> (address: AccountAddress)
        ensures
            address@ == high@ + low@,
    {
        let mut bytes: [u8; 32] = [0u8; 32];
        let mut i: usize = 0;
        while i < 16
            invariant
                i <= 16,
                forall|j: int| 0 <= j < i ==> #[trigger] bytes@[j] == high@[j],
                forall|j: int| 16 <= j < 16 + i ==> #[trigger] bytes@[j] == low@[j - 16],
            decreases 16 - i,
        {
            bytes[i] = high[i];
            bytes[16 + i] = low[i];
            i += 1;
        }
        assert(bytes@ =~= high@ + low@);
        AccountAddress { bytes }
    }

    /// An address drawn from the operating system's generator, in two halves.
    pub fn random() -> (address: AccountAddress) {
        let high = random_half_address();
        let low = random_half_address();
        AccountAddress::from_halves(high, low)
    }
}

} // verus!
