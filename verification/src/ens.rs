use vstd::prelude::*;
use crate::abicode::zeros;
use crate::address::{Address, CallTarget, ContractCall, all_zero};
use crate::bytesutil::{bytes_eq, extend_bytes, replace_bytes, replace_seq, sub_bytes};
use crate::error::{CCIPMiddlewareError, ErrorModel};
use crate::keccak::{keccak256_digest, keccak_of};

verus! {

/// The name-resolution registry's address.
pub fn registry_address() -> (r: Address)
    ensures
        r.wf(),
        r@ == registry_address_model(),
{
    let mut bytes: Vec<u8> = Vec::new();
    bytes.push(0);
    bytes.push(0);
    bytes.push(0);
    bytes.push(0);
    bytes.push(0);
    bytes.push(12);
    bytes.push(46);
    bytes.push(7);
    bytes.push(78);
    bytes.push(198);
    bytes.push(154);
    bytes.push(13);
    bytes.push(251);
    bytes.push(41);
    bytes.push(151);
    bytes.push(186);
    bytes.push(108);
    bytes.push(125);
    bytes.push(46);
    bytes.push(30);
    proof {
        assert(bytes@ =~= registry_address_model());
    }
    Address { bytes }
}

/// Model of the registry's address.
pub open spec fn registry_address_model() -> Seq<u8> {
    seq![
        0u8,
        0u8,
        0u8,
        0u8,
        0u8,
        12u8,
        46u8,
        7u8,
        78u8,
        198u8,
        154u8,
        13u8,
        251u8,
        41u8,
        151u8,
        186u8,
        108u8,
        125u8,
        46u8,
        30u8,
    ]
}

/// Index of the first dot in a name, or its length when it has none.
pub open spec fn first_dot(s: Seq<u8>) -> int
    decreases s.len(),
{
    if s.len() == 0 {
        0
    } else if s[0] == 0x2e {
        0
    } else {
        1 + first_dot(s.skip(1))
    }
}

pub proof fn lemma_first_dot_bounds(s: Seq<u8>)
    ensures
        0 <= first_dot(s) <= s.len(),
        first_dot(s) < s.len() ==> s[first_dot(s)] == 0x2e,
        forall|k: int| 0 <= k < first_dot(s) ==> s[k] != 0x2e,
    decreases s.len(),
{
    if s.len() > 0 && s[0] != 0x2e {
        lemma_first_dot_bounds(s.skip(1));
        assert forall|k: int| 0 <= k < first_dot(s) implies s[k] != 0x2e by {
            if k > 0 {
                assert(s.skip(1)[k - 1] == s[k]);
            }
        }
    }
}

/// Where the first dot stands, as an exec scan.
pub fn find_first_dot(s: &Vec<u8>) -> (r: usize)
    ensures
        r == first_dot(s@),
{
    let n: usize = s.len();
    let mut i: usize = 0;
    while i < n
        invariant
            n == s@.len(),
            i <= n,
            forall|k: int| 0 <= k < i ==> s@[k] != 0x2e,
        decreases n - i,
    {
        if s[i] == 0x2e {
            proof {
                lemma_first_dot_at(s@, i as int);
            }
            return i;
        }
        i += 1;
    }
    proof {
        lemma_first_dot_at(s@, n as int);
    }
    n
}

/// The first dot is exactly where the first dot is seen.
proof fn lemma_first_dot_at(s: Seq<u8>, i: int)
    requires
        0 <= i <= s.len(),
        forall|k: int| 0 <= k < i ==> s[k] != 0x2e,
        i < s.len() ==> s[i] == 0x2e,
    ensures
        first_dot(s) == i,
    decreases s.len(),
{
    if s.len() == 0 {
    } else if s[0] == 0x2e {
    } else {
        assert(i >= 1);
        lemma_first_dot_at(s.skip(1), i - 1);
    }
}

/// The name with its leftmost label stripped: everything past the first dot,
/// or nothing when it has none.
pub open spec fn parent_of(s: Seq<u8>) -> Seq<u8> {
    if first_dot(s) < s.len() {
        s.skip(first_dot(s) + 1)
    } else {
        Seq::empty()
    }
}

/// Strips the leftmost label off a name.
pub fn strip_first_label(s: &Vec<u8>) -> (r: Vec<u8>)
    ensures
        r@ == parent_of(s@),
        s@.len() > 0 ==> r@.len() < s@.len(),
{
    proof {
        lemma_first_dot_bounds(s@);
    }
    let i = find_first_dot(s);
    if i < s.len() {
        let r = sub_bytes(s, i + 1, s.len());
        proof {
            assert(r@ =~= s@.skip(i + 1));
        }
        r
    } else {
        Vec::new()
    }
}

/// The variation selector, as it stands in a name's bytes.
pub open spec fn fe0f_pattern() -> Seq<u8> {
    seq![0xefu8, 0xb8u8, 0x8fu8]
}

/// The node digest of a non-empty, cleaned name: fold the labels from the
/// rightmost in, starting from the zero node.
pub open spec fn node_of(s: Seq<u8>) -> Seq<u8>
    decreases s.len(),
    via node_of_decreases
{
    let i = first_dot(s);
    if i < s.len() {
        keccak_of(node_of(s.skip(i + 1)) + keccak_of(s.subrange(0, i)))
    } else {
        keccak_of(zeros(32) + keccak_of(s))
    }
}

#[via_fn]
proof fn node_of_decreases(s: Seq<u8>) {
    lemma_first_dot_bounds(s);
}

/// The name hash: zero for the empty name, else the node digest of the name
/// with every variation selector removed.
pub open spec fn namehash_of(s: Seq<u8>) -> Seq<u8> {
    if s.len() == 0 {
        zeros(32)
    } else {
        node_of(replace_seq(s, fe0f_pattern(), Seq::empty()))
    }
}

fn zero32_vec() -> (r: Vec<u8>)
    ensures
        r@ == zeros(32),
{
    let mut r: Vec<u8> = Vec::new();
    let mut i: usize = 0;
    while i < 32
        invariant
            i <= 32,
            r@.len() == i,
            forall|k: int| 0 <= k < i ==> r@[k] == 0,
        decreases 32 - i,
    {
        r.push(0);
        i += 1;
    }
    proof {
        assert(r@ =~= zeros(32));
    }
    r
}

fn node_digest(s: &Vec<u8>) -> (r: Vec<u8>)
    ensures
        r@ == node_of(s@),
        r@.len() == 32,
    decreases s@.len(),
{
    proof {
        lemma_first_dot_bounds(s@);
    }
    let i = find_first_dot(s);
    if i < s.len() {
        let label = sub_bytes(s, 0, i);
        let rest = sub_bytes(s, i + 1, s.len());
        proof {
            assert(rest@ =~= s@.skip(i + 1));
        }
        let parent = node_digest(&rest);
        let lh = keccak256_digest(&label);
        let mut buf = parent;
        extend_bytes(&mut buf, &lh);
        keccak256_digest(&buf)
    } else {
        let lh = keccak256_digest(s);
        let mut buf = zero32_vec();
        extend_bytes(&mut buf, &lh);
        keccak256_digest(&buf)
    }
}

/// The name hash of a dotted name.
pub fn namehash(name: &Vec<u8>) -> (r: Vec<u8>)
    ensures
        r@ == namehash_of(name@),
        r@.len() == 32,
{
    if name.len() == 0 {
        return zero32_vec();
    }
    let mut pat: Vec<u8> = Vec::new();
    pat.push(0xef);
    pat.push(0xb8);
    pat.push(0x8f);
    proof {
        assert(pat@ =~= fe0f_pattern());
    }
    let empty: Vec<u8> = Vec::new();
    let cleaned = replace_bytes(name, &pat, &empty);
    node_digest(&cleaned)
}

/// The DNS wire form of a name: each label length-prefixed, a zero byte at
/// the end; no label may be empty or longer than 63 bytes.
pub open spec fn dns_encoded(s: Seq<u8>) -> Option<Seq<u8>>
    decreases s.len(),
    via dns_encoded_decreases
{
    let i = first_dot(s);
    if i == 0 || i > 63 {
        Option::None
    } else if i < s.len() {
        match dns_encoded(s.skip(i + 1)) {
            Option::None => Option::None,
            Option::Some(rest) => Option::Some(seq![i as u8] + s.subrange(0, i) + rest),
        }
    } else {
        Option::Some(seq![i as u8] + s + seq![0u8])
    }
}

#[via_fn]
proof fn dns_encoded_decreases(s: Seq<u8>) {
    lemma_first_dot_bounds(s);
}

/// A wire-encoded name is two bytes longer than the name.
pub proof fn lemma_dns_encoded_len(s: Seq<u8>)
    requires
        dns_encoded(s) is Some,
    ensures
        dns_encoded(s)->Some_0.len() == s.len() + 2,
    decreases s.len(),
{
    lemma_first_dot_bounds(s);
    let i = first_dot(s);
    if 0 < i <= 63 && i < s.len() {
        lemma_dns_encoded_len(s.skip(i + 1));
    }
}

/// DNS wire encoding, or nothing for a name with an empty or overlong label.
pub fn dns_encode(name: &Vec<u8>) -> (r: Option<Vec<u8>>)
    ensures
        match r {
            Option::Some(v) => dns_encoded(name@) == Option::Some(v@),
            Option::None => dns_encoded(name@) is None,
        },
    decreases name@.len(),
{
    proof {
        lemma_first_dot_bounds(name@);
    }
    let i = find_first_dot(name);
    if i == 0 || i > 63 {
        return Option::None;
    }
    if i < name.len() {
        let rest = sub_bytes(name, i + 1, name.len());
        proof {
            assert(rest@ =~= name@.skip(i + 1));
        }
        match dns_encode(&rest) {
            Option::None => Option::None,
            Option::Some(enc_rest) => {
                let mut r: Vec<u8> = Vec::new();
                r.push(i as u8);
                let label = sub_bytes(name, 0, i);
                extend_bytes(&mut r, &label);
                extend_bytes(&mut r, &enc_rest);
                proof {
                    assert(r@ =~= seq![i as u8] + name@.subrange(0, i as int)
                        + dns_encoded(name@.skip(i + 1))->Some_0);
                }
                Option::Some(r)
            },
        }
    } else {
        let mut r: Vec<u8> = Vec::new();
        r.push(i as u8);
        extend_bytes(&mut r, name);
        r.push(0);
        proof {
            assert(r@ =~= seq![i as u8] + name@ + seq![0u8]);
        }
        Option::Some(r)
    }
}

/// resolver(bytes32)
pub open spec fn resolver_selector() -> Seq<u8> {
    seq![1u8, 120u8, 184u8, 191u8]
}

/// The registry call that asks which resolver answers for `name`.
pub open spec fn resolver_lookup_data(name: Seq<u8>) -> Seq<u8> {
    resolver_selector() + namehash_of(name)
}

/// Builds the registry lookup call for a name.
pub fn get_resolver_call(registry: &Address, name: &Vec<u8>) -> (r: ContractCall)
    requires
        registry.wf(),
    ensures
        r.wf(),
        r.target@ == crate::address::TargetModel::Addr(registry@),
        r.data@ == resolver_lookup_data(name@),
        r.value == 0,
{
    let mut data: Vec<u8> = Vec::new();
    data.push(1);
    data.push(120);
    data.push(184);
    data.push(191);
    let nh = namehash(name);
    extend_bytes(&mut data, &nh);
    proof {
        assert(data@ =~= resolver_lookup_data(name@));
    }
    ContractCall { target: CallTarget::Addr(registry.dup()), data, value: 0 }
}

/// The reverse-registrar name of an address: its hex, then `.addr.reverse`.
pub open spec fn reverse_name_of(addr: Seq<u8>) -> Seq<u8> {
    crate::hexdata::hex_lower_of(addr) + seq![
        0x2eu8,
        0x61u8,
        0x64u8,
        0x64u8,
        0x72u8,
        0x2eu8,
        0x72u8,
        0x65u8,
        0x76u8,
        0x65u8,
        0x72u8,
        0x73u8,
        0x65u8,
    ]
}

/// Builds the reverse-registrar name of an address.
pub fn reverse_address(addr: &Address) -> (r: Vec<u8>)
    ensures
        r@ == reverse_name_of(addr@),
{
    let mut r = crate::hexdata::hex_encode_lower(&addr.bytes);
    r.push(0x2e);
    r.push(0x61);
    r.push(0x64);
    r.push(0x64);
    r.push(0x72);
    r.push(0x2e);
    r.push(0x72);
    r.push(0x65);
    r.push(0x76);
    r.push(0x65);
    r.push(0x72);
    r.push(0x73);
    r.push(0x65);
    proof {
        assert(r@ =~= reverse_name_of(addr@));
    }
    r
}

/// The top-level domain label that the hierarchy guard watches for.
pub open spec fn eth_label() -> Seq<u8> {
    seq![0x65u8, 0x74u8, 0x68u8]
}

/// Resolver discovery mid-walk: the queried name, the suffix still under
/// consideration, and a found resolver awaiting its wildcard probe.
pub struct ResolverDiscovery {
    pub registry: Address,
    pub name: Vec<u8>,
    pub current: Vec<u8>,
    pub candidate: Option<Address>,
}

/// Mathematical model of a discovery walk.
pub struct DiscoveryModel {
    pub registry: Seq<u8>,
    pub name: Seq<u8>,
    pub current: Seq<u8>,
    pub candidate: Option<Seq<u8>>,
}

impl View for ResolverDiscovery {
    type V = DiscoveryModel;

    open spec fn view(&self) -> DiscoveryModel {
        DiscoveryModel {
            registry: self.registry@,
            name: self.name@,
            current: self.current@,
            candidate: match self.candidate {
                Option::Some(a) => Option::Some(a@),
                Option::None => Option::None,
            },
        }
    }
}

/// What discovery asks of its surroundings next.
pub enum DiscoveryStep {
    /// Execute this registry lookup through the redirect engine, then hand
    /// the returned bytes back.
    Lookup(ContractCall),
    /// Run the wildcard capability probe for this resolver, then hand the
    /// answer back.
    Probe(Address),
    /// Discovery is over with this address; all zeros means no resolver.
    Done(Address),
    /// The registry's answer would not decode as an address.
    Fail(CCIPMiddlewareError),
    /// A label was stripped; begin the next round.
    Continue,
}

/// Mathematical model of a discovery move.
pub enum DiscoveryStepModel {
    Lookup(crate::address::CallModel),
    Probe(Seq<u8>),
    Done(Seq<u8>),
    Fail(ErrorModel),
    Continue,
}

impl View for DiscoveryStep {
    type V = DiscoveryStepModel;

    open spec fn view(&self) -> DiscoveryStepModel {
        match self {
            DiscoveryStep::Lookup(c) => DiscoveryStepModel::Lookup(c@),
            DiscoveryStep::Probe(a) => DiscoveryStepModel::Probe(a@),
            DiscoveryStep::Done(a) => DiscoveryStepModel::Done(a@),
            DiscoveryStep::Fail(e) => DiscoveryStepModel::Fail(e@),
            DiscoveryStep::Continue => DiscoveryStepModel::Continue,
        }
    }
}

/// The move at the top of a round: an exhausted name yields the zero
/// address; so does reaching the top-level label alone when the queried
/// name is not itself that label; else the registry is asked.
pub open spec fn discovery_begin_model(m: DiscoveryModel) -> DiscoveryStepModel {
    if m.current.len() == 0 || m.current == seq![0x2eu8] {
        DiscoveryStepModel::Done(zeros(20))
    } else if m.name != eth_label() && m.current == eth_label() {
        DiscoveryStepModel::Done(zeros(20))
    } else {
        DiscoveryStepModel::Lookup(
            crate::address::CallModel {
                target: crate::address::TargetModel::Addr(m.registry),
                data: resolver_lookup_data(m.current),
                value: 0,
            },
        )
    }
}

/// The move a registry answer causes: nothing registered ends the walk; a
/// zero address strips a label and goes round again; a resolver found on an
/// ancestor must first pass the wildcard probe; one found on the exact name
/// wins at once.
pub open spec fn discovery_lookup_model(m: DiscoveryModel, data: Seq<u8>) -> (
    DiscoveryModel,
    DiscoveryStepModel,
) {
    if data.len() == 0 {
        (m, DiscoveryStepModel::Done(zeros(20)))
    } else if data.len() < 32 {
        (m, DiscoveryStepModel::Fail(ErrorModel::Decode))
    } else {
        let addr = data.subrange(12, 32);
        if all_zero(addr) {
            (
                DiscoveryModel { current: parent_of(m.current), ..m },
                DiscoveryStepModel::Continue,
            )
        } else if m.current != m.name {
            (
                DiscoveryModel { candidate: Option::Some(addr), ..m },
                DiscoveryStepModel::Probe(addr),
            )
        } else {
            (m, DiscoveryStepModel::Done(addr))
        }
    }
}

/// The move a probe answer causes: without wildcard support an ancestor's
/// resolver does not stand in, and the zero address comes back.
pub open spec fn discovery_probe_model(m: DiscoveryModel, supported: bool) -> DiscoveryStepModel {
    if supported {
        match m.candidate {
            Option::Some(a) => DiscoveryStepModel::Done(a),
            Option::None => DiscoveryStepModel::Done(zeros(20)),
        }
    } else {
        DiscoveryStepModel::Done(zeros(20))
    }
}

impl ResolverDiscovery {
    pub open spec fn wf(&self) -> bool {
        &&& self.registry.wf()
        &&& match self.candidate {
            Option::Some(a) => a.wf(),
            Option::None => true,
        }
    }

    /// Opens a walk for `name` against the given registry.
    pub fn start(registry: Address, name: Vec<u8>) -> (r: ResolverDiscovery)
        requires
            registry.wf(),
        ensures
            r.wf(),
            r@ == (DiscoveryModel {
                registry: registry@,
                name: name@,
                current: name@,
                candidate: Option::None,
            }),
    {
        let mut current: Vec<u8> = Vec::new();
        extend_bytes(&mut current, &name);
        ResolverDiscovery { registry, name, current, candidate: Option::None }
    }

    /// The move at the top of a round.
    pub fn begin(&self) -> (r: DiscoveryStep)
        requires
            self.wf(),
        ensures
            r@ == discovery_begin_model(self@),
    {
        if self.current.len() == 0 || (self.current.len() == 1 && self.current[0] == 0x2e) {
            proof {
                if self.current@.len() == 1 && self.current@[0] == 0x2e {
                    assert(self.current@ =~= seq![0x2eu8]);
                }
            }
            return DiscoveryStep::Done(Address::zero());
        }
        proof {
            if self.current@ == seq![0x2eu8] {
                assert(self.current@.len() == 1 && self.current@[0] == 0x2e);
            }
        }
        let mut eth: Vec<u8> = Vec::new();
        eth.push(0x65);
        eth.push(0x74);
        eth.push(0x68);
        proof {
            assert(eth@ =~= eth_label());
        }
        if !bytes_eq(&self.name, &eth) && bytes_eq(&self.current, &eth) {
            return DiscoveryStep::Done(Address::zero());
        }
        DiscoveryStep::Lookup(get_resolver_call(&self.registry, &self.current))
    }

    /// Feeds the registry's answer in.
    pub fn on_lookup(self, data: Vec<u8>) -> (r: (ResolverDiscovery, DiscoveryStep))
        requires
            self.wf(),
        ensures
            r.0.wf(),
            (r.0@, r.1@) == discovery_lookup_model(self@, data@),
    {
        if data.len() == 0 {
            return (self, DiscoveryStep::Done(Address::zero()));
        }
        if data.len() < 32 {
            return (self, DiscoveryStep::Fail(CCIPMiddlewareError::DecodeError));
        }
        let addr = Address { bytes: sub_bytes(&data, 12, 32) };
        if addr.is_zero() {
            let ResolverDiscovery { registry, name, current, candidate } = self;
            let next = strip_first_label(&current);
            let m2 = ResolverDiscovery { registry, name, current: next, candidate };
            return (m2, DiscoveryStep::Continue);
        }
        if !bytes_eq(&self.current, &self.name) {
            let probe = addr.dup();
            let ResolverDiscovery { registry, name, current, candidate: _ } = self;
            let m2 = ResolverDiscovery { registry, name, current, candidate: Option::Some(addr) };
            (m2, DiscoveryStep::Probe(probe))
        } else {
            (self, DiscoveryStep::Done(addr))
        }
    }

    /// Feeds the wildcard probe's answer in.
    pub fn on_probe(self, supported: bool) -> (r: (ResolverDiscovery, DiscoveryStep))
        requires
            self.wf(),
        ensures
            r.0.wf(),
            r.0@ == self@,
            r.1@ == discovery_probe_model(self@, supported),
    {
        if !supported {
            return (self, DiscoveryStep::Done(Address::zero()));
        }
        let step = match &self.candidate {
            Option::Some(a) => DiscoveryStep::Done(a.dup()),
            Option::None => DiscoveryStep::Done(Address::zero()),
        };
        (self, step)
    }
}

/// Law: on the hierarchy boundary the walk ends at the zero address without
/// asking the registry: the top-level label alone never answers for a
/// different queried name.
pub proof fn lemma_root_guard(m: DiscoveryModel)
    requires
        m.current == eth_label(),
        m.name != eth_label(),
    ensures
        discovery_begin_model(m) == DiscoveryStepModel::Done(zeros(20)),
        !(discovery_begin_model(m) is Lookup),
{
    assert(eth_label().len() == 3);
    assert(eth_label() != seq![0x2eu8]) by {
        assert(eth_label().len() != seq![0x2eu8].len());
    }
}

/// Law: a resolver found on an ancestor of the queried name stands in only
/// with wildcard support: the walk first asks for the probe, and a negative
/// answer ends it at the zero address; a positive one yields that resolver.
pub proof fn lemma_ancestor_needs_wildcard(m: DiscoveryModel, data: Seq<u8>)
    requires
        data.len() >= 32,
        !all_zero(data.subrange(12, 32)),
        m.current != m.name,
    ensures
        discovery_lookup_model(m, data).1 == DiscoveryStepModel::Probe(data.subrange(12, 32)),
        !(discovery_lookup_model(m, data).1 is Done),
        discovery_probe_model(discovery_lookup_model(m, data).0, false)
            == DiscoveryStepModel::Done(zeros(20)),
        discovery_probe_model(discovery_lookup_model(m, data).0, true)
            == DiscoveryStepModel::Done(data.subrange(12, 32)),
{
}

} // verus!
