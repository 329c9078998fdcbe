use vstd::prelude::*;
use crate::abicode::word_of;
use crate::address::{Address, BlockRef, ContractCall, TargetModel};
use crate::ens::{registry_address, registry_address_model, DiscoveryModel, ResolverDiscovery};
use crate::error::{CCIPMiddlewareError, ErrorModel};
use crate::gateway::{
    dispatch_start, DispatchStep, GatewayDispatch, StepModel, url_request_model,
};
use crate::hexdata::hex_lower_of;
use crate::query::{
    coin_type_is_valid, dec_text_valid_u256, parameterhash, parameterhash_of, LookupAddress,
    LookupStep, ParamKind, QueryModel, QueryResolver, QueryStep, QueryStepModel,
};
use crate::redirect::{RedirectMachine, RedirectModel};
use crate::wildcard::{probe_calldata, supports_wildcard_call};

verus! {

/// addr(bytes32)
pub open spec fn addr_selector() -> Seq<u8> {
    seq![59u8, 59u8, 87u8, 222u8]
}

/// name(bytes32)
pub open spec fn name_selector() -> Seq<u8> {
    seq![105u8, 31u8, 52u8, 49u8]
}

/// text(bytes32, string)
pub open spec fn field_selector() -> Seq<u8> {
    seq![89u8, 209u8, 212u8, 60u8]
}

/// addr(bytes32, uint)
pub open spec fn addr_multi_selector() -> Seq<u8> {
    seq![237u8, 28u8, 238u8, 15u8]
}

/// addr(bytes32, uint256)
pub open spec fn addr_multi_selector2() -> Seq<u8> {
    seq![241u8, 203u8, 126u8, 6u8]
}

fn selector_vec(a: u8, b: u8, c: u8, d: u8) -> (r: Vec<u8>)
    ensures
        r@ == seq![a, b, c, d],
{
    let mut r: Vec<u8> = Vec::new();
    r.push(a);
    r.push(b);
    r.push(c);
    r.push(d);
    proof {
        assert(r@ =~= seq![a, b, c, d]);
    }
    r
}

/// The registry a configuration uses: its own, or the well-known one.
pub open spec fn effective_registry(ens: Option<Seq<u8>>) -> Seq<u8> {
    match ens {
        Option::Some(a) => a,
        Option::None => registry_address_model(),
    }
}

/// The redirect-following call client: configuration, and an entry point for
/// each of the protocol's machines.
pub struct CCIPReadMiddleware {
    pub ens: Option<Address>,
}

impl CCIPReadMiddleware {
    pub open spec fn wf(&self) -> bool {
        match self.ens {
            Option::Some(a) => a.wf(),
            Option::None => true,
        }
    }

    pub open spec fn ens_view(&self) -> Option<Seq<u8>> {
        match self.ens {
            Option::Some(a) => Option::Some(a@),
            Option::None => Option::None,
        }
    }

    pub fn new() -> (r: CCIPReadMiddleware)
        ensures
            r.wf(),
            r.ens_view() is None,
    {
        CCIPReadMiddleware { ens: Option::None }
    }

    /// Picks a registry other than the well-known one.
    pub fn ens(self, ens: Address) -> (r: CCIPReadMiddleware)
        requires
            ens.wf(),
        ensures
            r.wf(),
            r.ens_view() == Option::Some(ens@),
    {
        CCIPReadMiddleware { ens: Option::Some(ens) }
    }

    fn registry(&self) -> (r: Address)
        requires
            self.wf(),
        ensures
            r.wf(),
            r@ == effective_registry(self.ens_view()),
    {
        match &self.ens {
            Option::Some(a) => a.dup(),
            Option::None => registry_address(),
        }
    }

    /// Opens a redirect chain for one call, at attempt zero.
    pub fn call(&self, tx: ContractCall, block: BlockRef) -> (r: RedirectMachine)
        requires
            tx.wf(),
        ensures
            r.wf(),
            r@ == (RedirectModel {
                call: tx@,
                block: block,
                attempt: 0,
                resolved: Option::None,
                pending_callback: Option::None,
                pending_extra: Option::None,
            }),
    {
        self._call(tx, block, 0)
    }

    /// Opens a redirect chain at a given attempt count.
    pub fn _call(&self, transaction: ContractCall, block_id: BlockRef, attempt: u8) -> (r:
        RedirectMachine)
        requires
            transaction.wf(),
        ensures
            r.wf(),
            r@ == (RedirectModel {
                call: transaction@,
                block: block_id,
                attempt: attempt,
                resolved: Option::None,
                pending_callback: Option::None,
                pending_extra: Option::None,
            }),
    {
        RedirectMachine::start(transaction, block_id, attempt)
    }

    /// Opens a gateway dispatch for an off-chain lookup.
    pub fn _ccip_request(
        &self,
        sender: Address,
        target_present: bool,
        calldata: &Vec<u8>,
        urls: &Vec<Vec<u8>>,
    ) -> (r: (GatewayDispatch, DispatchStep))
        requires
            sender.wf(),
        ensures
            r.0.wf(),
            r.0.sender@ == sender@,
            r.0.data_hex@ == hex_lower_of(calldata@),
            crate::abicode::views(r.0.urls@) =~= crate::abicode::views(urls@),
            r.0.urls@.len() == urls@.len(),
            r.0.next_url == 0,
            r.0.errors@ =~= Seq::<crate::gateway::RequestErrorModel>::empty(),
            if urls@.len() == 0 || !target_present {
                r.1@ == StepModel::Done(Seq::<u8>::empty())
            } else {
                r.1@ == StepModel::Request(
                    url_request_model(urls@[0]@, sender@, hex_lower_of(calldata@)),
                )
            },
    {
        dispatch_start(sender, target_present, calldata, urls)
    }

    /// Opens a resolver-discovery walk for a name.
    pub fn get_resolver(&self, ens_name: Vec<u8>) -> (r: ResolverDiscovery)
        requires
            self.wf(),
        ensures
            r.wf(),
            r@ == (DiscoveryModel {
                registry: effective_registry(self.ens_view()),
                name: ens_name@,
                current: ens_name@,
                candidate: Option::None,
            }),
    {
        ResolverDiscovery::start(self.registry(), ens_name)
    }

    /// Builds the wildcard capability-check call for a resolver; its outcome
    /// is read by `supports_wildcard_result`.
    pub fn supports_wildcard(&self, resolver_address: &Address) -> (r: ContractCall)
        requires
            resolver_address.wf(),
        ensures
            r.wf(),
            r.target@ == TargetModel::Addr(resolver_address@),
            r.data@ == probe_calldata(),
            r.value == 0,
    {
        supports_wildcard_call(resolver_address)
    }

    /// Opens a typed query with parameters.
    pub fn query_resolver_parameters(
        &self,
        param: ParamKind,
        ens_name: Vec<u8>,
        selector: Vec<u8>,
        parameters: Option<Vec<u8>>,
    ) -> (r: (QueryResolver, QueryStep))
        ensures
            r.0.wf(),
            r.0@ == (QueryModel {
                param,
                name: ens_name@,
                selector: selector@,
                parameters: match parameters {
                    Option::Some(p) => Option::Some(p@),
                    Option::None => Option::None,
                },
                resolver: Option::None,
                wildcard: false,
            }),
            r.1@ == QueryStepModel::Discover(ens_name@),
    {
        QueryResolver::start(param, ens_name, selector, parameters)
    }

    /// Opens a typed query without parameters.
    pub fn query_resolver(&self, param: ParamKind, ens_name: Vec<u8>, selector: Vec<u8>) -> (r: (
        QueryResolver,
        QueryStep,
    ))
        ensures
            r.0.wf(),
            r.0@ == (QueryModel {
                param,
                name: ens_name@,
                selector: selector@,
                parameters: Option::None,
                resolver: Option::None,
                wildcard: false,
            }),
            r.1@ == QueryStepModel::Discover(ens_name@),
    {
        self.query_resolver_parameters(param, ens_name, selector, Option::None)
    }

    /// Opens the query that resolves a name to an address.
    pub fn resolve_name(&self, ens_name: Vec<u8>) -> (r: (QueryResolver, QueryStep))
        ensures
            r.0.wf(),
            r.0@ == (QueryModel {
                param: ParamKind::Address,
                name: ens_name@,
                selector: addr_selector(),
                parameters: Option::None,
                resolver: Option::None,
                wildcard: false,
            }),
            r.1@ == QueryStepModel::Discover(ens_name@),
    {
        let sel = selector_vec(59, 59, 87, 222);
        self.query_resolver(ParamKind::Address, ens_name, sel)
    }

    /// Opens the query that reads one text record of a name.
    pub fn resolve_field(&self, ens_name: Vec<u8>, field: &Vec<u8>) -> (r: (
        QueryResolver,
        QueryStep,
    ))
        ensures
            r.0.wf(),
            r.0@ == (QueryModel {
                param: ParamKind::Str,
                name: ens_name@,
                selector: field_selector(),
                parameters: Option::Some(parameterhash_of(field@)),
                resolver: Option::None,
                wildcard: false,
            }),
            r.1@ == QueryStepModel::Discover(ens_name@),
    {
        let sel = selector_vec(89, 209, 212, 60);
        let params = parameterhash(field);
        self.query_resolver_parameters(ParamKind::Str, ens_name, sel, Option::Some(params))
    }

    /// Opens the query that reads a name's address record for a coin type.
    /// A text that does not spell a 256-bit number is rejected at once.
    pub fn resolve_addresses(&self, ens_name: Vec<u8>, coin_type: &Vec<u8>) -> (r: Result<
        (QueryResolver, QueryStep),
        CCIPMiddlewareError,
    >)
        ensures
            match r {
                Result::Ok(q) => {
                    &&& dec_text_valid_u256(coin_type@)
                    &&& q.0.wf()
                    &&& q.0@ == (QueryModel {
                        param: ParamKind::Bytes,
                        name: ens_name@,
                        selector: addr_multi_selector2(),
                        parameters: Option::Some(word_of(60)),
                        resolver: Option::None,
                        wildcard: false,
                    })
                    &&& q.1@ == QueryStepModel::Discover(ens_name@)
                },
                Result::Err(e) => !dec_text_valid_u256(coin_type@) && e@ == ErrorModel::Decode,
            },
    {
        if !coin_type_is_valid(coin_type) {
            return Result::Err(CCIPMiddlewareError::DecodeError);
        }
        let sel = selector_vec(241, 203, 126, 6);
        let params = crate::abicode::write_word(60);
        Result::Ok(
            self.query_resolver_parameters(ParamKind::Bytes, ens_name, sel, Option::Some(params)),
        )
    }

    /// Opens the reverse lookup that finds an address's primary name.
    pub fn lookup_address(&self, address: Address) -> (r: (LookupAddress, LookupStep))
        requires
            address.wf(),
        ensures
            r.0.wf(),
            r.0.address@ == address@,
            r.0.domain is None,
            r.1 matches LookupStep::QueryName(n) && n@ == crate::ens::reverse_name_of(address@),
    {
        LookupAddress::start(address)
    }
}

} // verus!
