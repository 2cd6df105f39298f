//! The plain values that travel between a client and a node.

use crate::hex;
use vstd::prelude::*;

verus! {

/// The address of an account or of a contract: twenty bytes.
#[derive(Clone, Copy, Debug, PartialEq, Eq)]
pub struct Address {
    pub bytes: [u8; 20],
}

impl View for Address {
    type V = Seq<u8>;

    open spec fn view(&self) -> Seq<u8> {
        self.bytes@
    }
}

impl Address {
    /// The address made of `bytes`.
    pub fn new(bytes: [u8; 20]) -> (res: Address)
        ensures
            res.bytes == bytes,
    {
        Address { bytes }
    }

    /// The address as forty lower-case hexadecimal digits, without a prefix.
    pub fn to_hex(&self) -> (res: Vec<u8>)
        ensures
            res@ == hex::encoded(self@),
            res@.len() == 40,
    {
        hex::encode(self.bytes.as_slice())
    }
}

/// An unsigned number of 256 bits, held as four limbs of 64 bits, the least
/// significant first.
#[derive(Clone, Copy, Debug, PartialEq, Eq)]
pub struct U256 {
    pub limbs: [u64; 4],
}

impl U256 {
    /// The number that the limbs spell out.
    pub open spec fn value(&self) -> nat {
        (self.limbs[0] as nat) + (self.limbs[1] as nat) * 0x1_0000_0000_0000_0000 + (self.limbs[2] as nat)
            * 0x1_0000_0000_0000_0000_0000_0000_0000_0000 + (self.limbs[3] as nat)
            * 0x1_0000_0000_0000_0000_0000_0000_0000_0000_0000_0000_0000_0000
    }

    /// The number zero.
    pub fn zero() -> (res: U256)
        ensures
            res.value() == 0,
            res.limbs@ == seq![0u64, 0u64, 0u64, 0u64],
    {
        let res = U256 { limbs: [0, 0, 0, 0] };
        assert(res.limbs@ =~= seq![0u64, 0u64, 0u64, 0u64]);
        res
    }

    /// The number `v`, widened.
    pub fn from_u64(v: u64) -> (res: U256)
        ensures
            res.value() == v,
            res.limbs@ == seq![v, 0u64, 0u64, 0u64],
    {
        let res = U256 { limbs: [v, 0, 0, 0] };
        assert(res.limbs@ =~= seq![v, 0u64, 0u64, 0u64]);
        res
    }
}

} // verus!
