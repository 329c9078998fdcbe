use vstd::prelude::*;
use crate::bytesutil::{bytes_eq, extend_bytes};

verus! {

/// A 20-byte account address.
pub struct Address {
    pub bytes: Vec<u8>,
}

/// Whether every byte of a string is zero.
pub open spec fn all_zero(s: Seq<u8>) -> bool {
    forall|i: int| 0 <= i < s.len() ==> s[i] == 0
}

impl View for Address {
    type V = Seq<u8>;

    open spec fn view(&self) -> Seq<u8> {
        self.bytes@
    }
}

impl Address {
    /// An address is exactly 20 bytes long.
    pub open spec fn wf(&self) -> bool {
        self@.len() == 20
    }

    /// The all-zero address, the registry's way of saying "no resolver".
    pub fn zero() -> (r: Address)
        ensures
            r.wf(),
            all_zero(r@),
            r@ == crate::abicode::zeros(20),
    {
        let mut bytes: Vec<u8> = Vec::new();
        let mut i: usize = 0;
        while i < 20
            invariant
                i <= 20,
                bytes@.len() == i,
                all_zero(bytes@),
            decreases 20 - i,
        {
            bytes.push(0);
            i += 1;
        }
        proof {
            assert(bytes@ =~= crate::abicode::zeros(20));
        }
        Address { bytes }
    }

    /// Whether this is the zero address.
    pub fn is_zero(&self) -> (r: bool)
        ensures
            r == all_zero(self@),
    {
        let n: usize = self.bytes.len();
        let mut i: usize = 0;
        while i < n
            invariant
                n == self.bytes@.len(),
                i <= n,
                forall|k: int| 0 <= k < i ==> self.bytes@[k] == 0,
            decreases n - i,
        {
            if self.bytes[i] != 0 {
                return false;
            }
            i += 1;
        }
        true
    }

    /// A fresh copy.
    pub fn dup(&self) -> (r: Address)
        ensures
            r@ == self@,
    {
        let mut bytes: Vec<u8> = Vec::new();
        extend_bytes(&mut bytes, &self.bytes);
        Address { bytes }
    }

    /// Byte-for-byte equality.
    pub fn same_as(&self, other: &Address) -> (r: bool)
        ensures
            r == (self@ == other@),
    {
        bytes_eq(&self.bytes, &other.bytes)
    }
}

/// Mathematical model of a call target.
pub enum TargetModel {
    Missing,
    Addr(Seq<u8>),
    Named(Seq<u8>),
}

/// Where a call is aimed: nowhere, at an address, or at a dotted name that
/// still has to be resolved to an address.
pub enum CallTarget {
    Missing,
    Addr(Address),
    Named(Vec<u8>),
}

impl View for CallTarget {
    type V = TargetModel;

    open spec fn view(&self) -> TargetModel {
        match self {
            CallTarget::Missing => TargetModel::Missing,
            CallTarget::Addr(a) => TargetModel::Addr(a@),
            CallTarget::Named(n) => TargetModel::Named(n@),
        }
    }
}

impl CallTarget {
    pub open spec fn wf(&self) -> bool {
        match self {
            CallTarget::Addr(a) => a.wf(),
            _ => true,
        }
    }

    /// Whether the call is aimed anywhere at all.
    pub fn is_present(&self) -> (r: bool)
        ensures
            r == !(self@ is Missing),
    {
        match self {
            CallTarget::Missing => false,
            _ => true,
        }
    }

    pub fn dup(&self) -> (r: CallTarget)
        ensures
            r@ == self@,
            r.wf() == self.wf(),
    {
        match self {
            CallTarget::Missing => CallTarget::Missing,
            CallTarget::Addr(a) => CallTarget::Addr(a.dup()),
            CallTarget::Named(n) => {
                let mut bytes: Vec<u8> = Vec::new();
                extend_bytes(&mut bytes, n);
                CallTarget::Named(bytes)
            },
        }
    }
}

/// Which block a call is evaluated against.
#[derive(Clone, Copy, PartialEq, Eq, Structural)]
pub enum BlockRef {
    Latest,
    Numbered(u64),
}

/// Mathematical model of a contract call.
pub struct CallModel {
    pub target: TargetModel,
    pub data: Seq<u8>,
    pub value: u128,
}

/// One logical contract call. The redirect loop retries with a modified copy,
/// never by mutating a call a caller may still hold.
pub struct ContractCall {
    pub target: CallTarget,
    pub data: Vec<u8>,
    pub value: u128,
}

impl View for ContractCall {
    type V = CallModel;

    open spec fn view(&self) -> CallModel {
        CallModel { target: self.target@, data: self.data@, value: self.value }
    }
}

impl ContractCall {
    pub open spec fn wf(&self) -> bool {
        self.target.wf()
    }

    pub fn dup(&self) -> (r: ContractCall)
        ensures
            r@ == self@,
            r.wf() == self.wf(),
    {
        let mut data: Vec<u8> = Vec::new();
        extend_bytes(&mut data, &self.data);
        ContractCall { target: self.target.dup(), data, value: self.value }
    }
}

} // verus!
