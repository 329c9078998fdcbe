use vstd::prelude::*;
use crate::abicode::{
    dec_wrapped_bytes, enc_bytes, enc_pair, lemma_pad_len, pad_len, pair_fits, push_bytes_block,
    push_pair, read_wrapped_bytes, word_of, write_word, pow256,
};
use crate::address::{Address, CallModel, CallTarget, ContractCall, TargetModel};
use crate::bytesutil::{extend_bytes, sub_bytes};
use crate::ens::{dns_encode, dns_encoded, lemma_dns_encoded_len, namehash, namehash_of, reverse_address, reverse_name_of};
use crate::error::{CCIPMiddlewareError, ErrorModel};
use crate::hexdata::{hex_encode_lower, hex_lower_of};

verus! {

/// The typed shapes a query can ask for.
#[derive(Clone, Copy, PartialEq, Eq, Structural, Debug)]
pub enum ParamKind {
    Address,
    Uint256,
    Bytes,
    Str,
}

/// A decoded typed value.
pub enum DecodedValue {
    Addr(Address),
    Uint(Vec<u8>),
    Blob(Vec<u8>),
    Text(Vec<u8>),
}

/// Mathematical model of a decoded typed value.
pub enum DecodedModel {
    Addr(Seq<u8>),
    Uint(Seq<u8>),
    Blob(Seq<u8>),
    Text(Seq<u8>),
}

impl View for DecodedValue {
    type V = DecodedModel;

    open spec fn view(&self) -> DecodedModel {
        match self {
            DecodedValue::Addr(a) => DecodedModel::Addr(a@),
            DecodedValue::Uint(w) => DecodedModel::Uint(w@),
            DecodedValue::Blob(b) => DecodedModel::Blob(b@),
            DecodedValue::Text(t) => DecodedModel::Text(t@),
        }
    }
}

/// How returned bytes are read for each shape: addresses and words come from
/// the first word; dynamic bytes and text through their offset word.
pub open spec fn dec_param(kind: ParamKind, data: Seq<u8>) -> Option<DecodedModel> {
    match kind {
        ParamKind::Address => if data.len() >= 32 {
            Option::Some(DecodedModel::Addr(data.subrange(12, 32)))
        } else {
            Option::None
        },
        ParamKind::Uint256 => if data.len() >= 32 {
            Option::Some(DecodedModel::Uint(data.subrange(0, 32)))
        } else {
            Option::None
        },
        ParamKind::Bytes => match dec_wrapped_bytes(data) {
            Option::Some(b) => Option::Some(DecodedModel::Blob(b)),
            Option::None => Option::None,
        },
        ParamKind::Str => match dec_wrapped_bytes(data) {
            Option::Some(b) => Option::Some(DecodedModel::Text(b)),
            Option::None => Option::None,
        },
    }
}

/// Reads a typed value out of returned call bytes; bytes that do not fit the
/// asked shape are a terminal decode failure.
pub fn decode_bytes(param: ParamKind, data: &Vec<u8>) -> (r: Result<
    DecodedValue,
    CCIPMiddlewareError,
>)
    ensures
        match r {
            Result::Ok(v) => dec_param(param, data@) == Option::Some(v@) && (v is Addr
                ==> v->Addr_0.wf()),
            Result::Err(e) => dec_param(param, data@) is None && e@ == ErrorModel::Decode,
        },
{
    match param {
        ParamKind::Address => {
            if data.len() >= 32 {
                Result::Ok(DecodedValue::Addr(Address { bytes: sub_bytes(data, 12, 32) }))
            } else {
                Result::Err(CCIPMiddlewareError::DecodeError)
            }
        },
        ParamKind::Uint256 => {
            if data.len() >= 32 {
                Result::Ok(DecodedValue::Uint(sub_bytes(data, 0, 32)))
            } else {
                Result::Err(CCIPMiddlewareError::DecodeError)
            }
        },
        ParamKind::Bytes => match read_wrapped_bytes(data) {
            Option::Some(b) => Result::Ok(DecodedValue::Blob(b)),
            Option::None => Result::Err(CCIPMiddlewareError::DecodeError),
        },
        ParamKind::Str => match read_wrapped_bytes(data) {
            Option::Some(b) => Result::Ok(DecodedValue::Text(b)),
            Option::None => Result::Err(CCIPMiddlewareError::DecodeError),
        },
    }
}

/// selector of the wildcard resolution entry point, resolve(bytes,bytes)
pub open spec fn resolve_selector() -> Seq<u8> {
    seq![0x90u8, 0x61u8, 0xb9u8, 0x23u8]
}

/// What an absent parameter list contributes: nothing.
pub open spec fn params_view(p: Option<Seq<u8>>) -> Seq<u8> {
    match p {
        Option::Some(x) => x,
        Option::None => Seq::empty(),
    }
}

/// The plain query payload: selector, name hash, parameters.
pub open spec fn base_query_data(selector: Seq<u8>, name: Seq<u8>, params: Option<Seq<u8>>)
    -> Seq<u8> {
    selector + namehash_of(name) + params_view(params)
}

/// The record-key parameters of a text-record query: one ABI string.
pub open spec fn parameterhash_of(field: Seq<u8>) -> Seq<u8> {
    word_of(64) + enc_bytes(field)
}

/// Encodes a text-record key as call parameters.
pub fn parameterhash(field: &Vec<u8>) -> (r: Vec<u8>)
    ensures
        r@ == parameterhash_of(field@),
{
    let mut r = write_word(64);
    push_bytes_block(&mut r, field);
    r
}

/// `0x` and the lower-case hex of some bytes, as text.
pub fn hex_text_of(b: &Vec<u8>) -> (r: Vec<u8>)
    ensures
        r@ == crate::gateway::prefixed_hex(b@),
{
    let mut r: Vec<u8> = Vec::new();
    r.push(0x30);
    r.push(0x78);
    let h = hex_encode_lower(b);
    extend_bytes(&mut r, &h);
    proof {
        assert(r@ =~= crate::gateway::prefixed_hex(b@));
    }
    r
}

/// The value a decimal text spells.
pub open spec fn dec_text_val(s: Seq<u8>) -> nat
    decreases s.len(),
{
    if s.len() == 0 {
        0
    } else {
        (dec_text_val(s.drop_last()) * 10 + (s.last() - 0x30)) as nat
    }
}

/// A valid coin type: digits only, below 2^256.
pub open spec fn dec_text_valid_u256(s: Seq<u8>) -> bool {
    (forall|i: int| 0 <= i < s.len() ==> 0x30 <= #[trigger] s[i] <= 0x39) && dec_text_val(s)
        < pow256(32)
}

/// Relies on ethers_core's U256 decimal parser: it accepts exactly the
/// digit-only texts whose value is below 2^256 (the empty text spells zero).
#[verifier::external_body]
pub fn coin_type_is_valid(s: &Vec<u8>) -> (r: bool)
    ensures
        r == dec_text_valid_u256(s@),
{
    match std::str::from_utf8(s) {
        Ok(t) => ethers_core::types::U256::from_dec_str(t).is_ok(),
        Err(_) => false,
    }
}

/// A typed resolution query mid-run: what is asked, of which name, and how
/// the answer must be unwrapped.
pub struct QueryResolver {
    pub param: ParamKind,
    pub name: Vec<u8>,
    pub selector: Vec<u8>,
    pub parameters: Option<Vec<u8>>,
    pub resolver: Option<Address>,
    pub wildcard: bool,
}

/// Mathematical model of a query mid-run.
pub struct QueryModel {
    pub param: ParamKind,
    pub name: Seq<u8>,
    pub selector: Seq<u8>,
    pub parameters: Option<Seq<u8>>,
    pub resolver: Option<Seq<u8>>,
    pub wildcard: bool,
}

impl View for QueryResolver {
    type V = QueryModel;

    open spec fn view(&self) -> QueryModel {
        QueryModel {
            param: self.param,
            name: self.name@,
            selector: self.selector@,
            parameters: match self.parameters {
                Option::Some(p) => Option::Some(p@),
                Option::None => Option::None,
            },
            resolver: match self.resolver {
                Option::Some(a) => Option::Some(a@),
                Option::None => Option::None,
            },
            wildcard: self.wildcard,
        }
    }
}

/// What the query asks of its surroundings next.
pub enum QueryStep {
    /// Run resolver discovery for this name, then hand the address back.
    Discover(Vec<u8>),
    /// Run the wildcard capability probe, then hand the answer back.
    Probe(Address),
    /// Execute this call through the redirect engine, then hand the bytes back.
    Execute(ContractCall),
    /// The query is over with this typed value.
    Done(DecodedValue),
    /// The query is over with this error.
    Fail(CCIPMiddlewareError),
}

/// Mathematical model of a query move.
pub enum QueryStepModel {
    Discover(Seq<u8>),
    Probe(Seq<u8>),
    Execute(CallModel),
    Done(DecodedModel),
    Fail(ErrorModel),
}

impl View for QueryStep {
    type V = QueryStepModel;

    open spec fn view(&self) -> QueryStepModel {
        match self {
            QueryStep::Discover(n) => QueryStepModel::Discover(n@),
            QueryStep::Probe(a) => QueryStepModel::Probe(a@),
            QueryStep::Execute(c) => QueryStepModel::Execute(c@),
            QueryStep::Done(v) => QueryStepModel::Done(v@),
            QueryStep::Fail(e) => QueryStepModel::Fail(e@),
        }
    }
}

/// Whether a query's pieces leave room for the wildcard wrapping.
pub open spec fn query_fits(q: QueryModel) -> bool {
    q.name.len() + q.selector.len() + params_view(q.parameters).len() + 384 <= usize::MAX
}

/// The call the probe's answer leads to: the plain payload straight to the
/// resolver, or, with wildcard support, that payload wrapped in a
/// resolve(bytes, bytes) call over the wire-encoded name.
pub open spec fn query_probe_model(m: QueryModel, supported: bool) -> (QueryModel, QueryStepModel) {
    let base = base_query_data(m.selector, m.name, m.parameters);
    let resolver = m.resolver->Some_0;
    if !supported {
        (
            m,
            QueryStepModel::Execute(
                CallModel { target: TargetModel::Addr(resolver), data: base, value: 0 },
            ),
        )
    } else {
        match dns_encoded(m.name) {
            Option::None => (m, QueryStepModel::Fail(ErrorModel::Decode)),
            Option::Some(d) => (
                QueryModel { wildcard: true, ..m },
                QueryStepModel::Execute(
                    CallModel {
                        target: TargetModel::Addr(resolver),
                        data: resolve_selector() + enc_pair(d, base),
                        value: 0,
                    },
                ),
            ),
        }
    }
}

/// How the executed call's bytes become the typed result: the wildcard path
/// first unwraps one layer of ABI bytes; then the asked shape is read.
pub open spec fn query_result_model(m: QueryModel, data: Seq<u8>) -> QueryStepModel {
    let payload = if m.wildcard {
        dec_wrapped_bytes(data)
    } else {
        Option::Some(data)
    };
    match payload {
        Option::None => QueryStepModel::Fail(ErrorModel::Decode),
        Option::Some(p) => match dec_param(m.param, p) {
            Option::None => QueryStepModel::Fail(ErrorModel::Decode),
            Option::Some(v) => QueryStepModel::Done(v),
        },
    }
}

impl QueryResolver {
    pub open spec fn wf(&self) -> bool {
        match self.resolver {
            Option::Some(a) => a.wf(),
            Option::None => true,
        }
    }

    /// Opens a query; discovery of the name's resolver comes first.
    pub fn start(param: ParamKind, name: Vec<u8>, selector: Vec<u8>, parameters: Option<Vec<u8>>)
        -> (r: (QueryResolver, QueryStep))
        ensures
            r.0.wf(),
            r.0@ == (QueryModel {
                param,
                name: name@,
                selector: selector@,
                parameters: match parameters {
                    Option::Some(p) => Option::Some(p@),
                    Option::None => Option::None,
                },
                resolver: Option::None,
                wildcard: false,
            }),
            r.1@ == QueryStepModel::Discover(name@),
    {
        let mut n2: Vec<u8> = Vec::new();
        extend_bytes(&mut n2, &name);
        let m = QueryResolver { param, name, selector, parameters, resolver: Option::None,
            wildcard: false };
        (m, QueryStep::Discover(n2))
    }

    /// Records the discovered resolver; the capability probe comes next.
    pub fn on_resolver(self, addr: Address) -> (r: (QueryResolver, QueryStep))
        requires
            self.wf(),
            addr.wf(),
        ensures
            r.0.wf(),
            r.0@ == (QueryModel { resolver: Option::Some(addr@), ..self@ }),
            r.1@ == QueryStepModel::Probe(addr@),
    {
        let probe = addr.dup();
        let QueryResolver { param, name, selector, parameters, resolver: _, wildcard } = self;
        let m = QueryResolver { param, name, selector, parameters, resolver: Option::Some(addr),
            wildcard };
        (m, QueryStep::Probe(probe))
    }

    /// Feeds the probe's answer in and builds the call to execute.
    pub fn on_probe(self, supported: bool) -> (r: (QueryResolver, QueryStep))
        requires
            self.wf(),
            self.resolver is Some,
            query_fits(self@),
        ensures
            r.0.wf(),
            (r.0@, r.1@) == query_probe_model(self@, supported),
    {
        let resolver: Address = match &self.resolver {
            Option::Some(a) => a.dup(),
            Option::None => vstd::pervasive::unreached(),
        };
        let mut base: Vec<u8> = Vec::new();
        extend_bytes(&mut base, &self.selector);
        let nh = namehash(&self.name);
        extend_bytes(&mut base, &nh);
        match &self.parameters {
            Option::Some(p) => extend_bytes(&mut base, p),
            Option::None => (),
        }
        proof {
            assert(base@ =~= base_query_data(self@.selector, self@.name, self@.parameters));
        }
        if !supported {
            let call = ContractCall { target: CallTarget::Addr(resolver), data: base, value: 0 };
            return (self, QueryStep::Execute(call));
        }
        match dns_encode(&self.name) {
            Option::None => (self, QueryStep::Fail(CCIPMiddlewareError::DecodeError)),
            Option::Some(d) => {
                proof {
                    lemma_dns_encoded_len(self.name@);
                    lemma_pad_len(d@.len());
                    lemma_pad_len(base@.len());
                    assert(pair_fits(d@, base@));
                }
                let mut data: Vec<u8> = Vec::new();
                data.push(0x90);
                data.push(0x61);
                data.push(0xb9);
                data.push(0x23);
                proof {
                    assert(data@ =~= resolve_selector());
                }
                push_pair(&mut data, &d, &base);
                let call = ContractCall {
                    target: CallTarget::Addr(resolver),
                    data,
                    value: 0,
                };
                let QueryResolver { param, name, selector, parameters, resolver: res, wildcard: _ }
                    = self;
                let m = QueryResolver { param, name, selector, parameters, resolver: res,
                    wildcard: true };
                (m, QueryStep::Execute(call))
            },
        }
    }

    /// Feeds the executed call's bytes in.
    pub fn on_result(self, data: Vec<u8>) -> (r: (QueryResolver, QueryStep))
        requires
            self.wf(),
        ensures
            r.0.wf(),
            r.0@ == self@,
            r.1@ == query_result_model(self@, data@),
    {
        let payload: Vec<u8> = if self.wildcard {
            match read_wrapped_bytes(&data) {
                Option::Some(p) => p,
                Option::None => {
                    return (self, QueryStep::Fail(CCIPMiddlewareError::DecodeError));
                },
            }
        } else {
            data
        };
        match decode_bytes(self.param, &payload) {
            Result::Ok(v) => (self, QueryStep::Done(v)),
            Result::Err(e) => (self, QueryStep::Fail(e)),
        }
    }
}

/// A reverse lookup mid-run: which address is asked about, and the domain
/// its reverse record named.
pub struct LookupAddress {
    pub address: Address,
    pub domain: Option<Vec<u8>>,
}

/// What the reverse lookup asks next.
pub enum LookupStep {
    /// Query the text of this reverse-registrar name, then hand it back.
    QueryName(Vec<u8>),
    /// Resolve this domain forward to an address, then hand it back.
    ResolveForward(Vec<u8>),
    /// The reverse record and the forward record agree on this domain.
    Done(Vec<u8>),
    /// The forward record of the claimed domain names a different address.
    NotOwned(Vec<u8>),
}

impl LookupAddress {
    pub open spec fn wf(&self) -> bool {
        self.address.wf()
    }

    /// Opens a reverse lookup.
    pub fn start(address: Address) -> (r: (LookupAddress, LookupStep))
        requires
            address.wf(),
        ensures
            r.0.wf(),
            r.0.address@ == address@,
            r.0.domain is None,
            r.1 matches LookupStep::QueryName(n) && n@ == reverse_name_of(address@),
    {
        let n = reverse_address(&address);
        (LookupAddress { address, domain: Option::None }, LookupStep::QueryName(n))
    }

    /// Records the domain the reverse record named.
    pub fn on_domain(self, domain: Vec<u8>) -> (r: (LookupAddress, LookupStep))
        requires
            self.wf(),
        ensures
            r.0.wf(),
            r.0.address@ == self.address@,
            r.0.domain matches Some(d) && d@ == domain@,
            r.1 matches LookupStep::ResolveForward(d) && d@ == domain@,
    {
        let mut d2: Vec<u8> = Vec::new();
        extend_bytes(&mut d2, &domain);
        let LookupAddress { address, domain: _ } = self;
        (LookupAddress { address, domain: Option::Some(domain) }, LookupStep::ResolveForward(d2))
    }

    /// Feeds the forward resolution's address in: the domain stands only
    /// when it resolves back to the asked address.
    pub fn on_forward(self, resolved: &Address) -> (r: LookupStep)
        requires
            self.wf(),
            self.domain is Some,
        ensures
            self.address@ == resolved@ ==> (r matches LookupStep::Done(d) && d@
                == self.domain->Some_0@),
            self.address@ != resolved@ ==> (r matches LookupStep::NotOwned(d) && d@
                == self.domain->Some_0@),
    {
        let owned = self.address.same_as(resolved);
        let LookupAddress { address: _, domain } = self;
        let d: Vec<u8> = match domain {
            Option::Some(d) => d,
            Option::None => vstd::pervasive::unreached(),
        };
        if owned {
            LookupStep::Done(d)
        } else {
            LookupStep::NotOwned(d)
        }
    }
}

} // verus!
