use vstd::prelude::*;
use crate::abicode::{
    be_val, lemma_be_val_nonzero_at, lemma_be_val_zero_prefix, lemma_pow256_mono, lemma_pow256_pos,
    zeros,
};
use crate::address::{Address, CallTarget, ContractCall, TargetModel};
use crate::error::{CCIPMiddlewareError, ErrorModel};

verus! {

/// The capability-check payload: the interface-support selector applied to
/// the wildcard-resolution selector, padded to a word.
pub open spec fn probe_calldata() -> Seq<u8> {
    seq![0x01u8, 0xffu8, 0xc9u8, 0xa7u8, 0x90u8, 0x61u8, 0xb9u8, 0x23u8] + zeros(28)
}

/// Builds the capability-check call against a resolver.
pub fn supports_wildcard_call(resolver: &Address) -> (r: ContractCall)
    requires
        resolver.wf(),
    ensures
        r.wf(),
        r.target@ == TargetModel::Addr(resolver@),
        r.data@ == probe_calldata(),
        r.value == 0,
{
    let mut data: Vec<u8> = Vec::new();
    data.push(0x01);
    data.push(0xff);
    data.push(0xc9);
    data.push(0xa7);
    data.push(0x90);
    data.push(0x61);
    data.push(0xb9);
    data.push(0x23);
    let mut i: usize = 0;
    while i < 28
        invariant
            i <= 28,
            data@.len() == 8 + i,
            forall|k: int| 0 <= k < data@.len() ==> data@[k] == probe_calldata()[k],
        decreases 28 - i,
    {
        data.push(0);
        i += 1;
    }
    proof {
        assert(data@ =~= probe_calldata());
    }
    ContractCall { target: CallTarget::Addr(resolver.dup()), data, value: 0 }
}

/// The view of a probing call's outcome.
pub open spec fn probe_outcome_view(res: Result<Vec<u8>, CCIPMiddlewareError>) -> Result<
    Seq<u8>,
    ErrorModel,
> {
    match res {
        Result::Ok(b) => Result::Ok(b@),
        Result::Err(e) => Result::Err(e@),
    }
}

/// What a probing call's outcome means: any failure, an answer too short to
/// hold a word, and any word but one, all mean "no wildcard support".
pub open spec fn wildcard_answer(res: Result<Seq<u8>, ErrorModel>) -> bool {
    match res {
        Result::Err(_) => false,
        Result::Ok(b) => b.len() >= 32 && be_val(b.subrange(0, 32)) == 1,
    }
}

/// Reads a probing call's outcome. Every failure is absorbed into `false`:
/// a resolver that cannot answer the probe is taken not to support wildcard
/// resolution.
pub fn supports_wildcard_result(res: &Result<Vec<u8>, CCIPMiddlewareError>) -> (r: bool)
    ensures
        r == wildcard_answer(probe_outcome_view(*res)),
{
    let b: &Vec<u8> = match res {
        Result::Err(_) => {
            return false;
        },
        Result::Ok(b) => b,
    };
    if b.len() < 32 {
        return false;
    }
    let ghost w = b@.subrange(0, 32);
    let mut i: usize = 0;
    while i < 31
        invariant
            b@.len() >= 32,
            i <= 31,
            w == b@.subrange(0, 32),
            probe_outcome_view(*res) == Result::<Seq<u8>, ErrorModel>::Ok(b@),
            forall|k: int| 0 <= k < i ==> w[k] == 0,
        decreases 31 - i,
    {
        if b[i] != 0 {
            proof {
                assert(w[i as int] == b@[i as int]);
                lemma_be_val_nonzero_at(w, i as int);
                lemma_pow256_mono(1, (31 - i) as nat);
                assert(crate::abicode::pow256(0) == 1);
                assert(crate::abicode::pow256(1) == 256);
            }
            return false;
        }
        i += 1;
    }
    proof {
        lemma_be_val_zero_prefix(w, 31);
        assert(be_val(w) == be_val(w.subrange(31, 32)));
        let last = w.subrange(31, 32);
        assert(last.drop_last() =~= Seq::<u8>::empty());
        assert(be_val(Seq::<u8>::empty()) == 0);
        assert(be_val(last) == be_val(last.drop_last()) * 256 + last.last());
        assert(be_val(w) == last.last());
        assert(last.last() == w[31]);
        assert(w[31] == b@[31]);
    }
    b[31] == 1
}

} // verus!
