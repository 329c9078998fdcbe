use vstd::prelude::*;
use crate::abicode::{enc_pair, pad_len};
use crate::address::{Address, BlockRef, CallModel, CallTarget, ContractCall, TargetModel};
use crate::bytesutil::{extend_bytes, strip_revert_text, sub_bytes, trim_0x, trim_quotes};
use crate::error::{CCIPMiddlewareError, ErrorModel};
use crate::gateway::{CCIPGatewayErrors, RequestErrorModel};
use crate::hexdata::{hex_decode_bytes, hex_decode_of, hex_decode_ok};
use crate::signal::{
    dec_signal_tuple, decode_signal_tuple, is_lookup_shape, lookup_shape, OffchainLookupSignal,
    SignalModel,
};

verus! {

/// How many redirects one call chain may follow.
pub const MAX_CCIP_REDIRECT_ATTEMPT: u8 = 10;

/// What the chain client reported for one call.
pub enum ChainOutcome {
    /// The call returned these bytes.
    Output(Vec<u8>),
    /// A structured RPC error: the text of its revert payload, if it carries
    /// one, and its message.
    Reverted { data: Option<Vec<u8>>, message: String },
    /// A failure that is no structured error response.
    ClientFailure(String),
}

/// Mathematical model of a chain client report.
pub enum OutcomeModel {
    Output(Seq<u8>),
    Reverted(Option<Seq<u8>>, Seq<char>),
    ClientFailure(Seq<char>),
}

impl View for ChainOutcome {
    type V = OutcomeModel;

    open spec fn view(&self) -> OutcomeModel {
        match self {
            ChainOutcome::Output(b) => OutcomeModel::Output(b@),
            ChainOutcome::Reverted { data, message } => OutcomeModel::Reverted(
                match data {
                    Option::Some(t) => Option::Some(t@),
                    Option::None => Option::None,
                },
                message@,
            ),
            ChainOutcome::ClientFailure(m) => OutcomeModel::ClientFailure(m@),
        }
    }
}

/// One in-flight redirect chain: the call as it currently stands, the block
/// it is evaluated against, and the attempt counter this chain owns.
pub struct RedirectMachine {
    pub call: ContractCall,
    pub block: BlockRef,
    pub attempt: u8,
    pub resolved: Option<Address>,
    pub pending_callback: Option<Vec<u8>>,
    pub pending_extra: Option<Vec<u8>>,
}

/// Mathematical model of an in-flight redirect chain.
pub struct RedirectModel {
    pub call: CallModel,
    pub block: BlockRef,
    pub attempt: u8,
    pub resolved: Option<Seq<u8>>,
    pub pending_callback: Option<Seq<u8>>,
    pub pending_extra: Option<Seq<u8>>,
}

impl View for RedirectMachine {
    type V = RedirectModel;

    open spec fn view(&self) -> RedirectModel {
        RedirectModel {
            call: self.call@,
            block: self.block,
            attempt: self.attempt,
            resolved: match self.resolved {
                Option::Some(a) => Option::Some(a@),
                Option::None => Option::None,
            },
            pending_callback: match self.pending_callback {
                Option::Some(b) => Option::Some(b@),
                Option::None => Option::None,
            },
            pending_extra: match self.pending_extra {
                Option::Some(b) => Option::Some(b@),
                Option::None => Option::None,
            },
        }
    }
}

/// What the engine asks of its surroundings next.
pub enum RedirectStep {
    /// Resolve this dotted name to an address, then hand it back.
    ResolveName(Vec<u8>),
    /// Execute this call against the machine's block, then hand the outcome back.
    Execute(ContractCall),
    /// Run the gateway dispatcher with these values, then hand its result back.
    Dispatch { sender: Address, calldata: Vec<u8>, urls: Vec<Vec<u8>>, target_present: bool },
    /// The chain is over with these bytes.
    Done(Vec<u8>),
    /// The chain is over with this error.
    Fail(CCIPMiddlewareError),
    /// A redirect was followed; begin the next attempt.
    Continue,
}

/// Mathematical model of the engine's next move.
pub enum RedirectStepModel {
    ResolveName(Seq<u8>),
    Execute(CallModel),
    Dispatch { sender: Seq<u8>, calldata: Seq<u8>, urls: Seq<Seq<u8>>, target_present: bool },
    Done(Seq<u8>),
    Fail(ErrorModel),
    Continue,
}

impl View for RedirectStep {
    type V = RedirectStepModel;

    open spec fn view(&self) -> RedirectStepModel {
        match self {
            RedirectStep::ResolveName(n) => RedirectStepModel::ResolveName(n@),
            RedirectStep::Execute(c) => RedirectStepModel::Execute(c@),
            RedirectStep::Dispatch { sender, calldata, urls, target_present } =>
                RedirectStepModel::Dispatch {
                sender: sender@,
                calldata: calldata@,
                urls: crate::abicode::views(urls@),
                target_present: *target_present,
            },
            RedirectStep::Done(b) => RedirectStepModel::Done(b@),
            RedirectStep::Fail(e) => RedirectStepModel::Fail(e@),
            RedirectStep::Continue => RedirectStepModel::Continue,
        }
    }
}

/// The address the current call is aimed at: its literal address, or what
/// its name resolved to.
pub open spec fn effective_target(m: RedirectModel) -> Seq<u8> {
    match m.call.target {
        TargetModel::Addr(a) => a,
        _ => match m.resolved {
            Option::Some(a) => a,
            Option::None => Seq::empty(),
        },
    }
}

/// The engine's move at the top of an attempt: past the bound it fails at
/// once, a named target must first be resolved, else the call goes out.
pub open spec fn begin_model(m: RedirectModel) -> RedirectStepModel {
    if m.attempt >= MAX_CCIP_REDIRECT_ATTEMPT {
        RedirectStepModel::Fail(ErrorModel::MaxRedirection)
    } else {
        match m.call.target {
            TargetModel::Named(n) => RedirectStepModel::ResolveName(n),
            _ => RedirectStepModel::Execute(m.call),
        }
    }
}

/// The candidate answer a chain report carries: a success's bytes as they
/// are; a revert payload's text unquoted, unprefixed and hex-decoded; a
/// failure without payload, or a malformed payload, is terminal.
pub open spec fn candidate_of(o: OutcomeModel) -> Result<Seq<u8>, ErrorModel> {
    match o {
        OutcomeModel::Output(b) => Result::Ok(b),
        OutcomeModel::Reverted(d, msg) => match d {
            Option::Some(t) => {
                let t2 = trim_0x(trim_quotes(t));
                if hex_decode_ok(t2) {
                    Result::Ok(hex_decode_of(t2))
                } else {
                    Result::Err(ErrorModel::Gateway(Seq::empty()))
                }
            },
            Option::None => Result::Err(ErrorModel::UnderlyingClient(msg)),
        },
        OutcomeModel::ClientFailure(msg) => Result::Err(ErrorModel::UnderlyingClient(msg)),
    }
}

/// How candidate bytes are read: only against the latest block, and only
/// under the lookup shape, is a signal decode tried; a sender mismatch is
/// terminal; a failed decode leaves the bytes as the final answer.
pub enum Classified {
    Final(Seq<u8>),
    BadSender,
    Redirect(SignalModel),
}

pub open spec fn classify_model(block: BlockRef, target: Seq<u8>, cand: Seq<u8>) -> Classified {
    if block is Latest && lookup_shape(cand) {
        match dec_signal_tuple(cand.skip(4)) {
            Option::Some(sig) => if sig.sender == target {
                Classified::Redirect(sig)
            } else {
                Classified::BadSender
            },
            Option::None => Classified::Final(cand),
        }
    } else {
        Classified::Final(cand)
    }
}

/// The whole transition a chain report causes.
pub open spec fn outcome_transition(m: RedirectModel, o: OutcomeModel) -> (
    RedirectModel,
    RedirectStepModel,
) {
    match candidate_of(o) {
        Result::Err(e) => (m, RedirectStepModel::Fail(e)),
        Result::Ok(cand) => match classify_model(m.block, effective_target(m), cand) {
            Classified::Final(b) => (m, RedirectStepModel::Done(b)),
            Classified::BadSender => (m, RedirectStepModel::Fail(ErrorModel::Sender)),
            Classified::Redirect(sig) => (
                RedirectModel {
                    pending_callback: Option::Some(sig.callback_selector),
                    pending_extra: Option::Some(sig.extra_data),
                    ..m
                },
                RedirectStepModel::Dispatch {
                    sender: sig.sender,
                    calldata: sig.call_data,
                    urls: sig.urls,
                    target_present: !(m.call.target is Missing),
                },
            ),
        },
    }
}

/// The transition a gateway dispatch result causes: failure and emptiness
/// are terminal; data makes the callback call and raises the counter by one.
pub open spec fn gateway_transition(
    m: RedirectModel,
    res: Result<Seq<u8>, Seq<RequestErrorModel>>,
) -> (RedirectModel, RedirectStepModel) {
    match res {
        Result::Err(es) => (m, RedirectStepModel::Fail(ErrorModel::Gateway(es))),
        Result::Ok(b) => if b.len() == 0 {
            (m, RedirectStepModel::Fail(ErrorModel::GatewayNotFound))
        } else {
            let cb = m.pending_callback->Some_0;
            let ex = m.pending_extra->Some_0;
            (
                RedirectModel {
                    call: CallModel {
                        target: m.call.target,
                        data: cb + enc_pair(b, ex),
                        value: m.call.value,
                    },
                    block: m.block,
                    attempt: (m.attempt + 1) as u8,
                    resolved: Option::None,
                    pending_callback: Option::None,
                    pending_extra: Option::None,
                },
                RedirectStepModel::Continue,
            )
        },
    }
}

/// The view of a gateway dispatch result.
pub open spec fn gateway_result_view(res: Result<Vec<u8>, CCIPGatewayErrors>) -> Result<
    Seq<u8>,
    Seq<RequestErrorModel>,
> {
    match res {
        Result::Ok(b) => Result::Ok(b@),
        Result::Err(es) => Result::Err(es@),
    }
}

impl RedirectMachine {
    pub open spec fn wf(&self) -> bool {
        &&& self.call.wf()
        &&& match self.resolved {
            Option::Some(a) => a.wf(),
            Option::None => true,
        }
    }

    /// Opens a chain at the given attempt count.
    pub fn start(call: ContractCall, block: BlockRef, attempt: u8) -> (r: RedirectMachine)
        requires
            call.wf(),
        ensures
            r.wf(),
            r@ == (RedirectModel {
                call: call@,
                block: block,
                attempt: attempt,
                resolved: Option::None,
                pending_callback: Option::None,
                pending_extra: Option::None,
            }),
    {
        RedirectMachine {
            call,
            block,
            attempt,
            resolved: Option::None,
            pending_callback: Option::None,
            pending_extra: Option::None,
        }
    }

    /// The move at the top of an attempt.
    pub fn begin(&self) -> (r: RedirectStep)
        requires
            self.wf(),
            !(self.call.target@ is Missing),
        ensures
            r@ == begin_model(self@),
    {
        if self.attempt >= MAX_CCIP_REDIRECT_ATTEMPT {
            return RedirectStep::Fail(CCIPMiddlewareError::MaxRedirectionError);
        }
        match &self.call.target {
            CallTarget::Named(n) => {
                let mut name: Vec<u8> = Vec::new();
                extend_bytes(&mut name, n);
                RedirectStep::ResolveName(name)
            },
            _ => RedirectStep::Execute(self.call.dup()),
        }
    }

    /// Records what the current call's name resolved to.
    pub fn on_name(self, addr: Address) -> (r: RedirectMachine)
        requires
            self.wf(),
            addr.wf(),
        ensures
            r.wf(),
            r@ == (RedirectModel { resolved: Option::Some(addr@), ..self@ }),
    {
        let RedirectMachine { call, block, attempt, resolved: _, pending_callback, pending_extra } =
            self;
        RedirectMachine {
            call,
            block,
            attempt,
            resolved: Option::Some(addr),
            pending_callback,
            pending_extra,
        }
    }

    /// Feeds the chain client's report in.
    pub fn on_chain_outcome(self, outcome: ChainOutcome) -> (r: (RedirectMachine, RedirectStep))
        requires
            self.wf(),
            self.call.target@ is Addr || (self.call.target@ is Named && self.resolved is Some),
        ensures
            r.0.wf(),
            (r.0@, r.1@) == outcome_transition(self@, outcome@),
    {
        let cand: Vec<u8> = match outcome {
            ChainOutcome::Output(b) => b,
            ChainOutcome::Reverted { data, message } => match data {
                Option::Some(t) => {
                    let t2 = strip_revert_text(&t);
                    match hex_decode_bytes(&t2) {
                        Option::Some(b) => b,
                        Option::None => {
                            let es = CCIPGatewayErrors { inner: Vec::new() };
                            proof {
                                assert(es@ =~= Seq::<RequestErrorModel>::empty());
                            }
                            return (
                                self,
                                RedirectStep::Fail(CCIPMiddlewareError::GatewayError(es)),
                            );
                        },
                    }
                },
                Option::None => {
                    return (
                        self,
                        RedirectStep::Fail(CCIPMiddlewareError::UnderlyingClientError(message)),
                    );
                },
            },
            ChainOutcome::ClientFailure(m) => {
                return (self, RedirectStep::Fail(CCIPMiddlewareError::UnderlyingClientError(m)));
            },
        };
        let is_latest = match self.block {
            BlockRef::Latest => true,
            _ => false,
        };
        if is_latest && is_lookup_shape(&cand) {
            let tupl = sub_bytes(&cand, 4, cand.len());
            proof {
                assert(tupl@ =~= cand@.skip(4));
            }
            match decode_signal_tuple(&tupl) {
                Option::Some(sig) => {
                    let target_ok: bool = match &self.call.target {
                        CallTarget::Addr(a) => sig.sender.same_as(a),
                        CallTarget::Named(_) => match &self.resolved {
                            Option::Some(a) => sig.sender.same_as(a),
                            Option::None => vstd::pervasive::unreached(),
                        },
                        CallTarget::Missing => vstd::pervasive::unreached(),
                    };
                    if !target_ok {
                        return (self, RedirectStep::Fail(CCIPMiddlewareError::SenderError));
                    }
                    let OffchainLookupSignal {
                        sender,
                        urls,
                        call_data,
                        callback_selector,
                        extra_data,
                    } = sig;
                    let RedirectMachine {
                        call,
                        block,
                        attempt,
                        resolved,
                        pending_callback: _,
                        pending_extra: _,
                    } = self;
                    proof {
                        assert(!(call.target@ is Missing));
                    }
                    let m2 = RedirectMachine {
                        call,
                        block,
                        attempt,
                        resolved,
                        pending_callback: Option::Some(callback_selector),
                        pending_extra: Option::Some(extra_data),
                    };
                    (
                        m2,
                        RedirectStep::Dispatch {
                            sender,
                            calldata: call_data,
                            urls,
                            target_present: true,
                        },
                    )
                },
                Option::None => (self, RedirectStep::Done(cand)),
            }
        } else {
            (self, RedirectStep::Done(cand))
        }
    }

    /// Feeds the gateway dispatcher's result in.
    pub fn on_gateway_result(self, res: Result<Vec<u8>, CCIPGatewayErrors>) -> (r: (
        RedirectMachine,
        RedirectStep,
    ))
        requires
            self.wf(),
            self.pending_callback is Some,
            self.pending_extra is Some,
            self.attempt < MAX_CCIP_REDIRECT_ATTEMPT,
            match res {
                Result::Ok(b) => 132 + pad_len(b@.len()) + pad_len(
                    self.pending_extra->Some_0@.len(),
                ) <= usize::MAX,
                Result::Err(_) => true,
            },
        ensures
            r.0.wf(),
            (r.0@, r.1@) == gateway_transition(self@, gateway_result_view(res)),
    {
        let b: Vec<u8> = match res {
            Result::Err(es) => {
                return (self, RedirectStep::Fail(CCIPMiddlewareError::GatewayError(es)));
            },
            Result::Ok(b) => b,
        };
        if b.len() == 0 {
            return (self, RedirectStep::Fail(CCIPMiddlewareError::GatewayNotFoundError));
        }
        let RedirectMachine { call, block, attempt, resolved: _, pending_callback, pending_extra } =
            self;
        let cb: Vec<u8> = match pending_callback {
            Option::Some(cb) => cb,
            Option::None => vstd::pervasive::unreached(),
        };
        let ex: Vec<u8> = match pending_extra {
            Option::Some(ex) => ex,
            Option::None => vstd::pervasive::unreached(),
        };
        let mut data: Vec<u8> = Vec::new();
        extend_bytes(&mut data, &cb);
        crate::abicode::push_pair(&mut data, &b, &ex);
        let ContractCall { target, data: _, value } = call;
        let m2 = RedirectMachine {
            call: ContractCall { target, data, value },
            block,
            attempt: attempt + 1,
            resolved: Option::None,
            pending_callback: Option::None,
            pending_extra: Option::None,
        };
        (m2, RedirectStep::Continue)
    }
}

/// Law: the attempt counter never moves but for a followed redirect, which
/// raises it by exactly one; a chain call is only issued under the bound,
/// and at the bound the machine fails at once, without a call.
pub proof fn lemma_redirect_counter(
    m: RedirectModel,
    o: OutcomeModel,
    res: Result<Seq<u8>, Seq<RequestErrorModel>>,
)
    requires
        m.attempt < MAX_CCIP_REDIRECT_ATTEMPT,
    ensures
        outcome_transition(m, o).0.attempt == m.attempt,
        gateway_transition(m, res).0.attempt == m.attempt || gateway_transition(m, res).0.attempt
            == m.attempt + 1,
        (gateway_transition(m, res).1 is Continue) ==> gateway_transition(m, res).0.attempt
            == m.attempt + 1,
        gateway_transition(m, res).0.attempt <= MAX_CCIP_REDIRECT_ATTEMPT,
{
}

/// Law: a chain call only ever goes out while the counter is under the
/// bound; at or past the bound the machine fails at once, without a call.
pub proof fn lemma_redirect_bound(m: RedirectModel)
    ensures
        (begin_model(m) is Execute || begin_model(m) is ResolveName) ==> m.attempt
            < MAX_CCIP_REDIRECT_ATTEMPT,
        m.attempt >= MAX_CCIP_REDIRECT_ATTEMPT ==> begin_model(m) == RedirectStepModel::Fail(
            ErrorModel::MaxRedirection,
        ),
{
}

/// Law: a decoded signal whose sender differs from the call's resolved
/// target is terminal: the sender error comes back and no gateway dispatch
/// is asked for.
pub proof fn lemma_sender_mismatch(m: RedirectModel, o: OutcomeModel, sig: SignalModel)
    requires
        candidate_of(o) is Ok,
        m.block is Latest,
        lookup_shape(candidate_of(o)->Ok_0),
        dec_signal_tuple(candidate_of(o)->Ok_0.skip(4)) == Option::Some(sig),
        sig.sender != effective_target(m),
    ensures
        outcome_transition(m, o).1 == RedirectStepModel::Fail(ErrorModel::Sender),
        !(outcome_transition(m, o).1 is Dispatch),
        outcome_transition(m, o).0 == m,
{
}

/// Law: a successful call whose bytes do not announce a lookup is final:
/// the bytes come back unchanged and the machine, its attempt counter
/// included, stands as it was.
pub proof fn lemma_plain_result(m: RedirectModel, b: Seq<u8>)
    requires
        !lookup_shape(b),
    ensures
        outcome_transition(m, OutcomeModel::Output(b)) == (
            m,
            RedirectStepModel::Done(b),
        ),
{
}

} // verus!
