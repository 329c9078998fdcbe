use vstd::prelude::*;
use crate::address::Address;
use crate::bytesutil::{contains_bytes, contains_seq, extend_bytes, replace_bytes, replace_seq};
use crate::hexdata::{hex_decode_bytes, hex_decode_of, hex_decode_ok, hex_encode_lower, hex_lower_of};

verus! {

/// A gateway's answer, as plain values: an optional hex text under `data`,
/// an optional human message under `message`.
pub struct CCIPReturnType {
    pub message: Option<String>,
    pub data: Option<Vec<u8>>,
}

/// Mathematical model of a gateway answer.
pub struct ReturnModel {
    pub message: Option<Seq<char>>,
    pub data: Option<Seq<u8>>,
}

impl View for CCIPReturnType {
    type V = ReturnModel;

    open spec fn view(&self) -> ReturnModel {
        ReturnModel {
            message: match self.message {
                Option::Some(m) => Option::Some(m@),
                Option::None => Option::None,
            },
            data: match self.data {
                Option::Some(d) => Option::Some(d@),
                Option::None => Option::None,
            },
        }
    }
}

impl CCIPReturnType {
    /// A fresh copy.
    pub fn dup(&self) -> (r: CCIPReturnType)
        ensures
            r@ == self@,
    {
        CCIPReturnType {
            message: match &self.message {
                Option::Some(m) => Option::Some(m.clone()),
                Option::None => Option::None,
            },
            data: match &self.data {
                Option::Some(d) => {
                    let mut v: Vec<u8> = Vec::new();
                    extend_bytes(&mut v, d);
                    Option::Some(v)
                },
                Option::None => Option::None,
            },
        }
    }
}

/// What went wrong with one gateway URL.
#[derive(Debug)]
pub enum CCIPRequestError {
    /// The gateway answered with a message instead of data.
    GatewayError(String),
    /// The gateway answered with neither data nor message.
    NoMessage,
    /// A plain message.
    Message(String),
    /// The gateway's data text would not decode as prefixed hex; carries it.
    DecodeDataHex(Vec<u8>),
}

/// Mathematical model of a per-URL failure.
pub enum RequestErrorModel {
    Gateway(Seq<char>),
    NoMessage,
    Message(Seq<char>),
    Decode(Seq<u8>),
}

impl View for CCIPRequestError {
    type V = RequestErrorModel;

    open spec fn view(&self) -> RequestErrorModel {
        match self {
            CCIPRequestError::GatewayError(m) => RequestErrorModel::Gateway(m@),
            CCIPRequestError::NoMessage => RequestErrorModel::NoMessage,
            CCIPRequestError::Message(m) => RequestErrorModel::Message(m@),
            CCIPRequestError::DecodeDataHex(t) => RequestErrorModel::Decode(t@),
        }
    }
}

/// The views of a vector of per-URL failures.
pub open spec fn error_views(es: Seq<CCIPRequestError>) -> Seq<RequestErrorModel> {
    Seq::new(es.len(), |i: int| es[i]@)
}

/// Per-URL failures, in the order the URLs were tried.
#[derive(Debug)]
pub struct CCIPGatewayErrors {
    pub inner: Vec<CCIPRequestError>,
}

impl View for CCIPGatewayErrors {
    type V = Seq<RequestErrorModel>;

    open spec fn view(&self) -> Seq<RequestErrorModel> {
        error_views(self.inner@)
    }
}

/// The literal `{sender}` placeholder.
pub open spec fn pat_sender() -> Seq<u8> {
    seq![0x7bu8, 0x73u8, 0x65u8, 0x6eu8, 0x64u8, 0x65u8, 0x72u8, 0x7du8]
}

/// The literal `{data}` placeholder.
pub open spec fn pat_data() -> Seq<u8> {
    seq![0x7bu8, 0x64u8, 0x61u8, 0x74u8, 0x61u8, 0x7du8]
}

/// `0x` followed by the lower-case hex of `b`.
pub open spec fn prefixed_hex(b: Seq<u8>) -> Seq<u8> {
    seq![0x30u8, 0x78u8] + hex_lower_of(b)
}

/// A URL template with `{sender}` and `{data}` substituted.
pub open spec fn substituted_url(template: Seq<u8>, sender: Seq<u8>, data_hex: Seq<u8>) -> Seq<u8> {
    replace_seq(
        replace_seq(template, pat_sender(), seq![0x30u8, 0x78u8] + hex_lower_of(sender)),
        pat_data(),
        seq![0x30u8, 0x78u8] + data_hex,
    )
}

/// The POST body `{"data":"<hex>","sender":"0x<hex>"}`.
pub open spec fn post_body_of(sender: Seq<u8>, data_hex: Seq<u8>) -> Seq<u8> {
    seq![0x7bu8, 0x22u8, 0x64u8, 0x61u8, 0x74u8, 0x61u8, 0x22u8, 0x3au8, 0x22u8] + data_hex + seq![
        0x22u8,
        0x2cu8,
        0x22u8,
        0x73u8,
        0x65u8,
        0x6eu8,
        0x64u8,
        0x65u8,
        0x72u8,
        0x22u8,
        0x3au8,
        0x22u8,
        0x30u8,
        0x78u8,
    ] + hex_lower_of(sender) + seq![0x22u8, 0x7du8]
}

/// One HTTP request to a gateway.
pub enum GatewayRequest {
    Get { url: Vec<u8> },
    Post { url: Vec<u8>, body: Vec<u8> },
}

/// Mathematical model of a gateway request.
pub enum RequestModel {
    Get(Seq<u8>),
    Post(Seq<u8>, Seq<u8>),
}

impl View for GatewayRequest {
    type V = RequestModel;

    open spec fn view(&self) -> RequestModel {
        match self {
            GatewayRequest::Get { url } => RequestModel::Get(url@),
            GatewayRequest::Post { url, body } => RequestModel::Post(url@, body@),
        }
    }
}

/// The request a URL template calls for: GET when the template holds
/// `{data}`, else POST with the JSON body.
pub open spec fn url_request_model(template: Seq<u8>, sender: Seq<u8>, data_hex: Seq<u8>)
    -> RequestModel {
    if contains_seq(template, pat_data()) {
        RequestModel::Get(substituted_url(template, sender, data_hex))
    } else {
        RequestModel::Post(substituted_url(template, sender, data_hex), post_body_of(sender, data_hex))
    }
}

/// Builds the request for one URL template.
pub fn build_gateway_request(template: &Vec<u8>, sender: &Address, data_hex: &Vec<u8>) -> (r:
    GatewayRequest)
    ensures
        r@ == url_request_model(template@, sender@, data_hex@),
{
    let mut psend: Vec<u8> = Vec::new();
    psend.push(0x7b);
    psend.push(0x73);
    psend.push(0x65);
    psend.push(0x6e);
    psend.push(0x64);
    psend.push(0x65);
    psend.push(0x72);
    psend.push(0x7d);
    proof {
        assert(psend@ =~= pat_sender());
    }
    let mut pdata: Vec<u8> = Vec::new();
    pdata.push(0x7b);
    pdata.push(0x64);
    pdata.push(0x61);
    pdata.push(0x74);
    pdata.push(0x61);
    pdata.push(0x7d);
    proof {
        assert(pdata@ =~= pat_data());
    }
    let shex = hex_encode_lower(&sender.bytes);
    let mut srep: Vec<u8> = Vec::new();
    srep.push(0x30);
    srep.push(0x78);
    extend_bytes(&mut srep, &shex);
    proof {
        assert(srep@ =~= seq![0x30u8, 0x78u8] + hex_lower_of(sender@));
    }
    let mut drep: Vec<u8> = Vec::new();
    drep.push(0x30);
    drep.push(0x78);
    extend_bytes(&mut drep, data_hex);
    proof {
        assert(drep@ =~= seq![0x30u8, 0x78u8] + data_hex@);
    }
    let step1 = replace_bytes(template, &psend, &srep);
    let href = replace_bytes(&step1, &pdata, &drep);
    if contains_bytes(template, &pdata) {
        GatewayRequest::Get { url: href }
    } else {
        let mut body: Vec<u8> = Vec::new();
        body.push(0x7b);
        body.push(0x22);
        body.push(0x64);
        body.push(0x61);
        body.push(0x74);
        body.push(0x61);
        body.push(0x22);
        body.push(0x3a);
        body.push(0x22);
        extend_bytes(&mut body, data_hex);
        body.push(0x22);
        body.push(0x2c);
        body.push(0x22);
        body.push(0x73);
        body.push(0x65);
        body.push(0x6e);
        body.push(0x64);
        body.push(0x65);
        body.push(0x72);
        body.push(0x22);
        body.push(0x3a);
        body.push(0x22);
        body.push(0x30);
        body.push(0x78);
        extend_bytes(&mut body, &shex);
        body.push(0x22);
        body.push(0x7d);
        proof {
            assert(body@ =~= post_body_of(sender@, data_hex@));
        }
        GatewayRequest::Post { url: href, body }
    }
}

/// What one answer yields: the decoded bytes, when its `data` text carries
/// `0x`-prefixed well-formed hex.
pub open spec fn respond_model(resp: ReturnModel) -> Option<Seq<u8>> {
    match resp.data {
        Option::Some(d) => if d.len() >= 2 && d[0] == 0x30 && d[1] == 0x78 && hex_decode_ok(
            d.skip(2),
        ) {
            Option::Some(hex_decode_of(d.skip(2)))
        } else {
            Option::None
        },
        Option::None => Option::None,
    }
}

/// The failure one fruitless answer is recorded as.
pub open spec fn respond_error(resp: ReturnModel) -> RequestErrorModel {
    match resp.data {
        Option::Some(d) => RequestErrorModel::Decode(d),
        Option::None => match resp.message {
            Option::Some(m) => RequestErrorModel::Gateway(m),
            Option::None => RequestErrorModel::NoMessage,
        },
    }
}

/// The dispatcher's outcome once the URLs from `i` on are answered by the
/// matching responses: the first answer that decodes wins; every fruitless
/// one adds its failure, in order.
pub open spec fn dispatch_from(
    urls: Seq<Seq<u8>>,
    resps: Seq<ReturnModel>,
    i: int,
    errs: Seq<RequestErrorModel>,
) -> Result<Seq<u8>, Seq<RequestErrorModel>>
    decreases urls.len() - i,
{
    if i < 0 || i >= urls.len() {
        Result::Err(errs)
    } else {
        match respond_model(resps[i]) {
            Option::Some(b) => Result::Ok(b),
            Option::None => dispatch_from(urls, resps, i + 1, errs.push(respond_error(resps[i]))),
        }
    }
}

/// The dispatcher's outcome for a whole run: empty bytes at once when there
/// is no URL or no target, else the first decodable answer or every failure.
pub open spec fn dispatch_model(
    target_present: bool,
    urls: Seq<Seq<u8>>,
    resps: Seq<ReturnModel>,
) -> Result<Seq<u8>, Seq<RequestErrorModel>> {
    if urls.len() == 0 || !target_present {
        Result::Ok(Seq::empty())
    } else {
        dispatch_from(urls, resps, 0, Seq::empty())
    }
}

/// The dispatcher mid-run: the URLs, the hex payload reused for each, how
/// many were tried, and the failures so far.
pub struct GatewayDispatch {
    pub sender: Address,
    pub data_hex: Vec<u8>,
    pub urls: Vec<Vec<u8>>,
    pub next_url: usize,
    pub errors: CCIPGatewayErrors,
}

/// What the dispatcher asks for next.
pub enum DispatchStep {
    /// Send this request, then hand the parsed answer back.
    Request(GatewayRequest),
    /// The dispatch is over with these bytes.
    Done(Vec<u8>),
    /// Every URL failed; the machine's error set holds each failure, in order.
    Failed,
}

impl GatewayDispatch {
    pub open spec fn wf(&self) -> bool {
        &&& self.sender.wf()
        &&& self.next_url <= self.urls@.len()
        &&& self.errors@.len() == self.next_url
    }

    /// Whether the run still waits for an answer.
    pub open spec fn running(&self) -> bool {
        self.next_url < self.urls@.len()
    }
}

/// Mathematical model of a dispatcher step.
pub enum StepModel {
    Request(RequestModel),
    Done(Seq<u8>),
    Failed,
}

impl View for DispatchStep {
    type V = StepModel;

    open spec fn view(&self) -> StepModel {
        match self {
            DispatchStep::Request(q) => StepModel::Request(q@),
            DispatchStep::Done(b) => StepModel::Done(b@),
            DispatchStep::Failed => StepModel::Failed,
        }
    }
}

/// The views of a vector of gateway answers.
pub open spec fn resp_views(rs: Seq<CCIPReturnType>) -> Seq<ReturnModel> {
    Seq::new(rs.len(), |i: int| rs[i]@)
}

/// Opens a dispatch: an empty result at once when there is no URL or no
/// target, else the request for the first URL.
pub fn dispatch_start(
    sender: Address,
    target_present: bool,
    calldata: &Vec<u8>,
    urls: &Vec<Vec<u8>>,
) -> (r: (GatewayDispatch, DispatchStep))
    requires
        sender.wf(),
    ensures
        r.0.wf(),
        r.0.sender@ == sender@,
        r.0.data_hex@ == hex_lower_of(calldata@),
        crate::abicode::views(r.0.urls@) =~= crate::abicode::views(urls@),
        r.0.urls@.len() == urls@.len(),
        r.0.next_url == 0,
        r.0.errors@ =~= Seq::<RequestErrorModel>::empty(),
        if urls@.len() == 0 || !target_present {
            r.1@ == StepModel::Done(Seq::<u8>::empty())
        } else {
            r.1@ == StepModel::Request(
                url_request_model(urls@[0]@, sender@, hex_lower_of(calldata@)),
            )
        },
{
    let data_hex = hex_encode_lower(calldata);
    let step: DispatchStep = if urls.len() == 0 || !target_present {
        let empty: Vec<u8> = Vec::new();
        DispatchStep::Done(empty)
    } else {
        DispatchStep::Request(build_gateway_request(&urls[0], &sender, &data_hex))
    };
    let own_urls = crate::bytesutil::dup_byte_vecs(urls);
    proof {
        assert(crate::abicode::views(own_urls@) =~= crate::abicode::views(urls@));
    }
    let m = GatewayDispatch {
        sender,
        data_hex,
        urls: own_urls,
        next_url: 0,
        errors: CCIPGatewayErrors { inner: Vec::new() },
    };
    (m, step)
}

/// Feeds one gateway answer in. A decodable answer ends the run at once;
/// a fruitless one is recorded and the next URL is asked for, until none is
/// left and the run fails with everything recorded.
pub fn dispatch_respond(m: GatewayDispatch, resp: CCIPReturnType) -> (r: (
    GatewayDispatch,
    DispatchStep,
))
    requires
        m.wf(),
        m.running(),
    ensures
        r.0.wf(),
        r.0.sender@ == m.sender@,
        r.0.data_hex@ == m.data_hex@,
        crate::abicode::views(r.0.urls@) == crate::abicode::views(m.urls@),
        r.0.urls@.len() == m.urls@.len(),
        match respond_model(resp@) {
            Option::Some(b) => {
                &&& r.1@ == StepModel::Done(b)
                &&& r.0.next_url == m.next_url
                &&& r.0.errors@ == m.errors@
            },
            Option::None => {
                &&& r.0.next_url == m.next_url + 1
                &&& r.0.errors@ =~= m.errors@.push(respond_error(resp@))
                &&& if m.next_url + 1 == m.urls@.len() {
                    r.1@ == StepModel::Failed
                } else {
                    r.1@ == StepModel::Request(
                        url_request_model(m.urls@[m.next_url + 1]@, m.sender@, m.data_hex@),
                    )
                }
            },
        },
{
    let GatewayDispatch { sender, data_hex, urls, next_url, mut errors } = m;
    let failure: CCIPRequestError = match resp.data {
        Option::Some(d) => {
            if d.len() >= 2 && d[0] == 0x30 && d[1] == 0x78 {
                let tail = crate::bytesutil::sub_bytes(&d, 2, d.len());
                proof {
                    assert(tail@ =~= d@.skip(2));
                }
                match hex_decode_bytes(&tail) {
                    Option::Some(decoded) => {
                        let m2 = GatewayDispatch { sender, data_hex, urls, next_url, errors };
                        return (m2, DispatchStep::Done(decoded));
                    },
                    Option::None => CCIPRequestError::DecodeDataHex(d),
                }
            } else {
                CCIPRequestError::DecodeDataHex(d)
            }
        },
        Option::None => match resp.message {
            Option::Some(msg) => CCIPRequestError::GatewayError(msg),
            Option::None => CCIPRequestError::NoMessage,
        },
    };
    let ghost errs0 = error_views(errors.inner@);
    errors.inner.push(failure);
    proof {
        assert(error_views(errors.inner@) =~= errs0.push(failure@));
    }
    let n_urls: usize = urls.len();
    proof {
        assert(next_url < n_urls);
    }
    let next2 = next_url + 1;
    let step: DispatchStep = if next2 == n_urls {
        DispatchStep::Failed
    } else {
        DispatchStep::Request(build_gateway_request(&urls[next2], &sender, &data_hex))
    };
    let m2 = GatewayDispatch { sender, data_hex, urls, next_url: next2, errors };
    (m2, step)
}

/// Runs a whole dispatch against a script of answers, one per URL.
pub fn dispatch_run(
    sender: Address,
    target_present: bool,
    calldata: &Vec<u8>,
    urls: &Vec<Vec<u8>>,
    resps: &Vec<CCIPReturnType>,
) -> (r: Result<Vec<u8>, CCIPGatewayErrors>)
    requires
        sender.wf(),
        resps@.len() == urls@.len(),
    ensures
        match r {
            Result::Ok(b) => dispatch_model(
                target_present,
                crate::abicode::views(urls@),
                resp_views(resps@),
            ) == Result::<Seq<u8>, Seq<RequestErrorModel>>::Ok(b@),
            Result::Err(es) => dispatch_model(
                target_present,
                crate::abicode::views(urls@),
                resp_views(resps@),
            ) == Result::<Seq<u8>, Seq<RequestErrorModel>>::Err(es@),
        },
{
    let ghost us = crate::abicode::views(urls@);
    let ghost rv = resp_views(resps@);
    let (m_in, step) = dispatch_start(sender, target_present, calldata, urls);
    let mut m = m_in;
    if let DispatchStep::Done(b) = step {
        return Result::Ok(b);
    }
    proof {
        assert(us.len() > 0 && target_present);
    }
    loop
        invariant
            m.wf(),
            m.running(),
            us =~= crate::abicode::views(m.urls@),
            us == crate::abicode::views(urls@),
            rv == resp_views(resps@),
            rv.len() == us.len(),
            m.urls@.len() == us.len(),
            resps@.len() == us.len(),
            us.len() > 0 && target_present,
            dispatch_from(us, rv, m.next_url as int, m.errors@) == dispatch_from(
                us,
                rv,
                0,
                Seq::<RequestErrorModel>::empty(),
            ),
        decreases us.len() - m.next_url,
    {
        let resp = resps[m.next_url].dup();
        proof {
            assert(resp@ == rv[m.next_url as int]);
        }
        let ghost i = m.next_url as int;
        let ghost errs0 = m.errors@;
        let (m2, step) = dispatch_respond(m, resp);
        m = m2;
        match step {
            DispatchStep::Done(b) => {
                proof {
                    assert(respond_model(rv[i]) is Some);
                    assert(dispatch_from(us, rv, i, errs0)
                        == Result::<Seq<u8>, Seq<RequestErrorModel>>::Ok(b@));
                }
                return Result::Ok(b);
            },
            DispatchStep::Failed => {
                proof {
                    assert(respond_model(rv[i]) is None);
                    assert(dispatch_from(us, rv, i, errs0) == dispatch_from(
                        us,
                        rv,
                        i + 1,
                        errs0.push(respond_error(rv[i])),
                    ));
                    assert(dispatch_from(us, rv, i + 1, errs0.push(respond_error(rv[i])))
                        == Result::<Seq<u8>, Seq<RequestErrorModel>>::Err(m.errors@));
                }
                let GatewayDispatch { errors, .. } = m;
                return Result::Err(errors);
            },
            DispatchStep::Request(_) => {
                proof {
                    assert(respond_model(rv[i]) is None);
                    assert(dispatch_from(us, rv, i, errs0) == dispatch_from(
                        us,
                        rv,
                        i + 1,
                        errs0.push(respond_error(rv[i])),
                    ));
                }
            },
        }
    }
}

/// The dispatcher returns the first decodable answer, whatever comes later:
/// when every answer before `j` is fruitless and answer `j` decodes, the run
/// ends with answer `j`'s bytes.
pub proof fn lemma_dispatch_first_success(
    urls: Seq<Seq<u8>>,
    resps: Seq<ReturnModel>,
    j: int,
)
    requires
        0 <= j < urls.len(),
        urls.len() <= resps.len(),
        respond_model(resps[j]) is Some,
        forall|k: int| 0 <= k < j ==> respond_model(#[trigger] resps[k]) is None,
    ensures
        dispatch_model(true, urls, resps) == Result::<Seq<u8>, Seq<RequestErrorModel>>::Ok(
            respond_model(resps[j]).unwrap(),
        ),
{
    lemma_dispatch_from_first_success(urls, resps, j, 0, Seq::empty());
}

proof fn lemma_dispatch_from_first_success(
    urls: Seq<Seq<u8>>,
    resps: Seq<ReturnModel>,
    j: int,
    i: int,
    errs: Seq<RequestErrorModel>,
)
    requires
        0 <= i <= j < urls.len(),
        urls.len() <= resps.len(),
        respond_model(resps[j]) is Some,
        forall|k: int| 0 <= k < j ==> respond_model(#[trigger] resps[k]) is None,
    ensures
        dispatch_from(urls, resps, i, errs) == Result::<Seq<u8>, Seq<RequestErrorModel>>::Ok(
            respond_model(resps[j]).unwrap(),
        ),
    decreases j - i,
{
    if i < j {
        lemma_dispatch_from_first_success(urls, resps, j, i + 1, errs.push(respond_error(resps[i])));
    }
}

/// When every answer carries a message and no data, the run fails with
/// exactly one failure per URL, in input order.
pub proof fn lemma_dispatch_all_messages(urls: Seq<Seq<u8>>, resps: Seq<ReturnModel>)
    requires
        urls.len() > 0,
        urls.len() == resps.len(),
        forall|k: int| 0 <= k < resps.len() ==> (#[trigger] resps[k]).data is None,
    ensures
        dispatch_model(true, urls, resps) matches Result::Err(es) && es.len() == urls.len()
            && forall|k: int| 0 <= k < urls.len() ==> es[k] == respond_error(#[trigger] resps[k]),
{
    lemma_dispatch_from_all_messages(urls, resps, 0, Seq::empty());
    let es = dispatch_from(urls, resps, 0, Seq::<RequestErrorModel>::empty())->Err_0;
    assert forall|k: int| 0 <= k < urls.len() implies es[k] == respond_error(
        #[trigger] resps[k],
    ) by {
        assert(es == Seq::<RequestErrorModel>::empty() + Seq::new(
            urls.len(),
            |t: int| respond_error(resps[t]),
        ));
    }
}

proof fn lemma_dispatch_from_all_messages(
    urls: Seq<Seq<u8>>,
    resps: Seq<ReturnModel>,
    i: int,
    errs: Seq<RequestErrorModel>,
)
    requires
        0 <= i <= urls.len(),
        urls.len() == resps.len(),
        forall|k: int| 0 <= k < resps.len() ==> (#[trigger] resps[k]).data is None,
    ensures
        dispatch_from(urls, resps, i, errs) == Result::<Seq<u8>, Seq<RequestErrorModel>>::Err(
            errs + Seq::new((urls.len() - i) as nat, |t: int| respond_error(resps[i + t])),
        ),
    decreases urls.len() - i,
{
    if i >= urls.len() {
        assert(errs + Seq::new(0, |t: int| respond_error(resps[i + t])) =~= errs);
    } else {
        assert(respond_model(resps[i]) is None);
        lemma_dispatch_from_all_messages(urls, resps, i + 1, errs.push(respond_error(resps[i])));
        assert(errs.push(respond_error(resps[i])) + Seq::new(
            (urls.len() - i - 1) as nat,
            |t: int| respond_error(resps[i + 1 + t]),
        ) =~= errs + Seq::new((urls.len() - i) as nat, |t: int| respond_error(resps[i + t])));
    }
}

} // verus!
