use ethers_ccip_read::address::Address;
use ethers_ccip_read::gateway::{
    build_gateway_request, dispatch_respond, dispatch_run, dispatch_start, CCIPRequestError,
    CCIPReturnType, DispatchStep, GatewayRequest,
};

fn addr_ab() -> Address {
    let mut bytes = vec![0u8; 20];
    bytes[0] = 0xab;
    bytes[19] = 0xcd;
    Address { bytes }
}

fn data_resp(text: &[u8]) -> CCIPReturnType {
    CCIPReturnType { message: None, data: Some(text.to_vec()) }
}

fn message_resp(text: &str) -> CCIPReturnType {
    CCIPReturnType { message: Some(text.to_string()), data: None }
}

#[test]
fn get_request_substitutes_both_placeholders() {
    let template = b"https://gw.example/{sender}/{data}.json".to_vec();
    let r = build_gateway_request(&template, &addr_ab(), &b"c0ffee".to_vec());
    match r {
        GatewayRequest::Get { url } => {
            assert_eq!(
                url,
                b"https://gw.example/0xab000000000000000000000000000000000000cd/0xc0ffee.json"
                    .to_vec()
            );
        },
        GatewayRequest::Post { .. } => panic!("a template with the data placeholder gets a GET"),
    }
}

#[test]
fn post_request_carries_exact_json_body() {
    let template = b"https://gw.example/{sender}".to_vec();
    let r = build_gateway_request(&template, &addr_ab(), &b"c0ffee".to_vec());
    match r {
        GatewayRequest::Post { url, body } => {
            assert_eq!(url, b"https://gw.example/0xab000000000000000000000000000000000000cd".to_vec());
            assert_eq!(
                body,
                b"{\"data\":\"c0ffee\",\"sender\":\"0xab000000000000000000000000000000000000cd\"}"
                    .to_vec()
            );
        },
        GatewayRequest::Get { .. } => panic!("a template without the data placeholder gets a POST"),
    }
}

#[test]
fn first_successful_url_wins_even_if_later_would_succeed() {
    let urls = vec![b"https://one/{data}".to_vec(), b"https://two/{data}".to_vec()];
    let resps = vec![data_resp(b"0x0102"), data_resp(b"0x0304")];
    let r = dispatch_run(addr_ab(), true, &vec![0xaa], &urls, &resps);
    assert_eq!(r.unwrap(), vec![0x01, 0x02]);
}

#[test]
fn urls_are_tried_in_the_given_order() {
    let urls = vec![b"https://one/{data}".to_vec(), b"https://two/{data}".to_vec()];
    let (m, step) = dispatch_start(addr_ab(), true, &vec![0xaa], &urls);
    match step {
        DispatchStep::Request(GatewayRequest::Get { url }) => {
            assert!(url.starts_with(b"https://one/"));
        },
        _ => panic!("the first move asks for the first URL"),
    }
    let (_, step2) = dispatch_respond(m, message_resp("nope"));
    match step2 {
        DispatchStep::Request(GatewayRequest::Get { url }) => {
            assert!(url.starts_with(b"https://two/"));
        },
        _ => panic!("after one failure the second URL is asked for"),
    }
}

#[test]
fn all_message_answers_fail_with_one_entry_per_url_in_order() {
    let urls = vec![
        b"https://one/{data}".to_vec(),
        b"https://two/{data}".to_vec(),
        b"https://three/{data}".to_vec(),
    ];
    let resps = vec![
        message_resp("first down"),
        CCIPReturnType { message: None, data: None },
        message_resp("third down"),
    ];
    let r = dispatch_run(addr_ab(), true, &vec![0xaa], &urls, &resps);
    let es = match r {
        Err(es) => es.inner,
        Ok(_) => panic!("no URL succeeded"),
    };
    assert_eq!(es.len(), 3);
    assert!(matches!(&es[0], CCIPRequestError::GatewayError(m) if m == "first down"));
    assert!(matches!(&es[1], CCIPRequestError::NoMessage));
    assert!(matches!(&es[2], CCIPRequestError::GatewayError(m) if m == "third down"));
}

#[test]
fn bad_hex_is_recorded_and_the_next_url_still_wins() {
    let urls = vec![b"https://one/{data}".to_vec(), b"https://two/{data}".to_vec()];
    let resps = vec![data_resp(b"0xzz"), data_resp(b"0x99")];
    let r = dispatch_run(addr_ab(), true, &vec![0xaa], &urls, &resps);
    assert_eq!(r.unwrap(), vec![0x99]);
}

#[test]
fn unprefixed_data_counts_as_a_decode_failure() {
    let urls = vec![b"https://one/{data}".to_vec()];
    let resps = vec![data_resp(b"0102")];
    let r = dispatch_run(addr_ab(), true, &vec![0xaa], &urls, &resps);
    let es = match r {
        Err(es) => es.inner,
        Ok(_) => panic!("an unprefixed data text does not decode"),
    };
    assert!(matches!(&es[0], CCIPRequestError::DecodeDataHex(t) if t == &b"0102".to_vec()));
}

#[test]
fn no_urls_or_no_target_yield_empty_bytes_at_once() {
    let none: Vec<Vec<u8>> = Vec::new();
    let r = dispatch_run(addr_ab(), true, &vec![0xaa], &none, &Vec::new());
    assert_eq!(r.unwrap(), Vec::<u8>::new());
    let urls = vec![b"https://one/{data}".to_vec()];
    let r2 = dispatch_run(addr_ab(), false, &vec![0xaa], &urls, &vec![data_resp(b"0x01")]);
    assert_eq!(r2.unwrap(), Vec::<u8>::new());
}
