use ethers_ccip_read::abicode::push_pair;
use ethers_ccip_read::address::{Address, BlockRef, CallTarget, ContractCall};
use ethers_ccip_read::error::CCIPMiddlewareError;
use ethers_ccip_read::hexdata::hex_encode_lower;
use ethers_ccip_read::middleware::CCIPReadMiddleware;
use ethers_ccip_read::redirect::{ChainOutcome, RedirectStep, MAX_CCIP_REDIRECT_ATTEMPT};
use ethers_ccip_read::bytesutil::strip_revert_text;
use ethers_ccip_read::signal::OffchainLookupSignal;

fn addr(n: u8) -> Address {
    let mut bytes = vec![0u8; 20];
    bytes[19] = n;
    Address { bytes }
}

fn call_to(n: u8) -> ContractCall {
    ContractCall { target: CallTarget::Addr(addr(n)), data: vec![0xca, 0x11], value: 0 }
}

fn signal_payload(sender: u8) -> Vec<u8> {
    let sig = OffchainLookupSignal {
        sender: addr(sender),
        urls: vec![b"https://gw.example/{sender}/{data}".to_vec()],
        call_data: vec![0x01, 0x02],
        callback_selector: vec![0xde, 0xad, 0xbe, 0xef],
        extra_data: vec![0x33],
    };
    sig.encode_payload()
}

#[test]
fn plain_result_comes_back_unchanged_with_zero_redirects() {
    let mw = CCIPReadMiddleware::new();
    let m = mw.call(call_to(7), BlockRef::Latest);
    match m.begin() {
        RedirectStep::Execute(c) => assert_eq!(c.data, vec![0xca, 0x11]),
        _ => panic!("a fresh chain executes its call"),
    }
    let (m2, step) = m.on_chain_outcome(ChainOutcome::Output(vec![0x60, 0x61]));
    match step {
        RedirectStep::Done(b) => assert_eq!(b, vec![0x60, 0x61]),
        _ => panic!("bytes without the redirect selector are final"),
    }
    assert_eq!(m2.attempt, 0);
}

#[test]
fn eleventh_attempt_fails_without_a_chain_call() {
    let mw = CCIPReadMiddleware::new();
    let m = mw._call(call_to(7), BlockRef::Latest, MAX_CCIP_REDIRECT_ATTEMPT);
    match m.begin() {
        RedirectStep::Fail(CCIPMiddlewareError::MaxRedirectionError) => {},
        _ => panic!("at the bound the chain fails at once"),
    }
}

#[test]
fn sender_mismatch_is_terminal_and_skips_the_dispatcher() {
    let mw = CCIPReadMiddleware::new();
    let m = mw.call(call_to(7), BlockRef::Latest);
    let (_, step) = m.on_chain_outcome(ChainOutcome::Output(signal_payload(8)));
    match step {
        RedirectStep::Fail(CCIPMiddlewareError::SenderError) => {},
        RedirectStep::Dispatch { .. } => panic!("a mismatched sender must not reach the gateways"),
        _ => panic!("a mismatched sender is the sender error"),
    }
}

#[test]
fn matching_signal_dispatches_and_success_builds_the_callback_call() {
    let mw = CCIPReadMiddleware::new();
    let m = mw.call(call_to(7), BlockRef::Latest);
    let (m2, step) = m.on_chain_outcome(ChainOutcome::Output(signal_payload(7)));
    match step {
        RedirectStep::Dispatch { sender, calldata, urls, target_present } => {
            assert_eq!(sender.bytes, addr(7).bytes);
            assert_eq!(calldata, vec![0x01, 0x02]);
            assert_eq!(urls, vec![b"https://gw.example/{sender}/{data}".to_vec()]);
            assert!(target_present);
        },
        _ => panic!("a matching signal goes to the gateways"),
    }
    let (m3, step2) = m2.on_gateway_result(Ok(vec![0x77, 0x78]));
    assert!(matches!(step2, RedirectStep::Continue));
    assert_eq!(m3.attempt, 1);
    let mut expected = vec![0xde, 0xad, 0xbe, 0xef];
    push_pair(&mut expected, &vec![0x77, 0x78], &vec![0x33]);
    assert_eq!(m3.call.data, expected);
    match m3.begin() {
        RedirectStep::Execute(c) => assert_eq!(c.data, expected),
        _ => panic!("the follow-up attempt executes the callback call"),
    }
}

#[test]
fn redirect_is_only_followed_against_the_latest_block() {
    let mw = CCIPReadMiddleware::new();
    let m = mw.call(call_to(7), BlockRef::Numbered(123));
    let payload = signal_payload(7);
    let (_, step) = m.on_chain_outcome(ChainOutcome::Output(payload.clone()));
    match step {
        RedirectStep::Done(b) => assert_eq!(b, payload),
        _ => panic!("off the latest block the bytes are final"),
    }
}

#[test]
fn quoted_revert_payload_is_unwrapped_and_followed() {
    let mw = CCIPReadMiddleware::new();
    let m = mw.call(call_to(7), BlockRef::Latest);
    let hex = hex_encode_lower(&signal_payload(7));
    let mut text = b"\"0x".to_vec();
    text.extend_from_slice(&hex);
    text.push(b'"');
    let (_, step) = m.on_chain_outcome(ChainOutcome::Reverted {
        data: Some(text),
        message: "execution reverted".to_string(),
    });
    assert!(matches!(step, RedirectStep::Dispatch { .. }));
}

#[test]
fn revert_without_payload_propagates_the_client_error() {
    let mw = CCIPReadMiddleware::new();
    let m = mw.call(call_to(7), BlockRef::Latest);
    let (_, step) = m.on_chain_outcome(ChainOutcome::Reverted {
        data: None,
        message: "boom".to_string(),
    });
    match step {
        RedirectStep::Fail(CCIPMiddlewareError::UnderlyingClientError(msg)) => {
            assert_eq!(msg, "boom");
        },
        _ => panic!("a revert without payload propagates unchanged"),
    }
}

#[test]
fn malformed_revert_payload_is_the_gateway_error() {
    let mw = CCIPReadMiddleware::new();
    let m = mw.call(call_to(7), BlockRef::Latest);
    let (_, step) = m.on_chain_outcome(ChainOutcome::Reverted {
        data: Some(b"\"0xnothex\"".to_vec()),
        message: "execution reverted".to_string(),
    });
    assert!(matches!(step, RedirectStep::Fail(CCIPMiddlewareError::GatewayError(_))));
}

#[test]
fn empty_gateway_result_and_gateway_failure_are_terminal() {
    let mw = CCIPReadMiddleware::new();
    let m = mw.call(call_to(7), BlockRef::Latest);
    let (m2, _) = m.on_chain_outcome(ChainOutcome::Output(signal_payload(7)));
    let (_, step) = m2.on_gateway_result(Ok(Vec::new()));
    assert!(matches!(step, RedirectStep::Fail(CCIPMiddlewareError::GatewayNotFoundError)));

    let m = mw.call(call_to(7), BlockRef::Latest);
    let (m2, _) = m.on_chain_outcome(ChainOutcome::Output(signal_payload(7)));
    let es = ethers_ccip_read::gateway::CCIPGatewayErrors { inner: Vec::new() };
    let (_, step) = m2.on_gateway_result(Err(es));
    assert!(matches!(step, RedirectStep::Fail(CCIPMiddlewareError::GatewayError(_))));
}

#[test]
fn named_target_asks_for_resolution_first() {
    let mw = CCIPReadMiddleware::new();
    let call = ContractCall {
        target: CallTarget::Named(b"vitalik.eth".to_vec()),
        data: vec![0xca, 0x11],
        value: 0,
    };
    let m = mw.call(call, BlockRef::Latest);
    match m.begin() {
        RedirectStep::ResolveName(n) => assert_eq!(n, b"vitalik.eth".to_vec()),
        _ => panic!("a named target is resolved first"),
    }
    let m2 = m.on_name(addr(9));
    let (_, step) = m2.on_chain_outcome(ChainOutcome::Output(signal_payload(9)));
    assert!(matches!(step, RedirectStep::Dispatch { .. }));
}

#[test]
fn ten_redirects_are_followed_and_the_bound_then_fires() {
    let mw = CCIPReadMiddleware::new();
    let mut m = mw.call(call_to(7), BlockRef::Latest);
    for round in 0..MAX_CCIP_REDIRECT_ATTEMPT {
        assert_eq!(m.attempt, round);
        match m.begin() {
            RedirectStep::Execute(_) => {},
            _ => panic!("under the bound every attempt issues its call"),
        }
        let (m2, step) = m.on_chain_outcome(ChainOutcome::Output(signal_payload(7)));
        assert!(matches!(step, RedirectStep::Dispatch { .. }));
        let (m3, step) = m2.on_gateway_result(Ok(vec![0x01]));
        assert!(matches!(step, RedirectStep::Continue));
        m = m3;
    }
    assert_eq!(m.attempt, MAX_CCIP_REDIRECT_ATTEMPT);
    match m.begin() {
        RedirectStep::Fail(CCIPMiddlewareError::MaxRedirectionError) => {},
        _ => panic!("the attempt past the bound fails without a call"),
    }
}

#[test]
fn revert_texts_lose_their_quotes_and_hex_markers() {
    assert_eq!(strip_revert_text(&b"\"0x1234\"".to_vec()), b"1234".to_vec());
    assert_eq!(strip_revert_text(&b"\"\"0x0x12\"\"".to_vec()), b"12".to_vec());
    assert_eq!(strip_revert_text(&b"plain".to_vec()), b"plain".to_vec());
    assert_eq!(strip_revert_text(&b"\"\"".to_vec()), Vec::<u8>::new());
}
