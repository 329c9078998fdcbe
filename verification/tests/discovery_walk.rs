use ethers_ccip_read::address::Address;
use ethers_ccip_read::ens::DiscoveryStep;
use ethers_ccip_read::middleware::CCIPReadMiddleware;

fn word_with_addr(n: u8) -> Vec<u8> {
    let mut w = vec![0u8; 32];
    w[31] = n;
    w
}

fn expect_lookup(step: DiscoveryStep) -> Vec<u8> {
    match step {
        DiscoveryStep::Lookup(call) => call.data,
        _ => panic!("a registry lookup was expected"),
    }
}

#[test]
fn root_guard_returns_zero_without_asking_the_registry() {
    // no resolver at a.b.eth or b.eth; one sits at eth, but the guard fires first
    let mw = CCIPReadMiddleware::new();
    let m = mw.get_resolver(b"a.b.eth".to_vec());
    let d1 = expect_lookup(m.begin());
    assert_eq!(&d1[0..4], &[1, 120, 184, 191]);
    let (m, step) = m.on_lookup(word_with_addr(0));
    assert!(matches!(step, DiscoveryStep::Continue));
    assert_eq!(m.current, b"b.eth".to_vec());
    let _ = expect_lookup(m.begin());
    let (m, step) = m.on_lookup(word_with_addr(0));
    assert!(matches!(step, DiscoveryStep::Continue));
    assert_eq!(m.current, b"eth".to_vec());
    match m.begin() {
        DiscoveryStep::Done(a) => assert!(a.bytes.iter().all(|b| *b == 0)),
        DiscoveryStep::Lookup(_) => panic!("the top-level label alone is never looked up"),
        _ => panic!("the guard ends the walk"),
    }
}

#[test]
fn the_top_level_name_itself_is_looked_up() {
    let mw = CCIPReadMiddleware::new();
    let m = mw.get_resolver(b"eth".to_vec());
    let _ = expect_lookup(m.begin());
}

#[test]
fn exact_match_wins_without_a_probe() {
    let mw = CCIPReadMiddleware::new();
    let m = mw.get_resolver(b"a.b.eth".to_vec());
    let _ = expect_lookup(m.begin());
    let (_, step) = m.on_lookup(word_with_addr(5));
    match step {
        DiscoveryStep::Done(a) => assert_eq!(a.bytes[19], 5),
        DiscoveryStep::Probe(_) => panic!("an exact match needs no wildcard probe"),
        _ => panic!("an exact match ends the walk"),
    }
}

#[test]
fn ancestor_match_without_wildcard_returns_zero() {
    // resolver sits at b.eth; the queried name is a.b.eth
    let mw = CCIPReadMiddleware::new();
    let m = mw.get_resolver(b"a.b.eth".to_vec());
    let _ = expect_lookup(m.begin());
    let (m, step) = m.on_lookup(word_with_addr(0));
    assert!(matches!(step, DiscoveryStep::Continue));
    let _ = expect_lookup(m.begin());
    let (m, step) = m.on_lookup(word_with_addr(5));
    match step {
        DiscoveryStep::Probe(a) => assert_eq!(a.bytes[19], 5),
        _ => panic!("an ancestor match asks for the wildcard probe"),
    }
    let (_, step) = m.on_probe(false);
    match step {
        DiscoveryStep::Done(a) => assert!(a.bytes.iter().all(|b| *b == 0)),
        _ => panic!("without wildcard support the ancestor does not stand in"),
    }
}

#[test]
fn ancestor_match_with_wildcard_returns_the_resolver() {
    let mw = CCIPReadMiddleware::new();
    let m = mw.get_resolver(b"a.b.eth".to_vec());
    let _ = expect_lookup(m.begin());
    let (m, _) = m.on_lookup(word_with_addr(0));
    let _ = expect_lookup(m.begin());
    let (m, _) = m.on_lookup(word_with_addr(5));
    let (_, step) = m.on_probe(true);
    match step {
        DiscoveryStep::Done(a) => assert_eq!(a.bytes[19], 5),
        _ => panic!("with wildcard support the ancestor's resolver stands"),
    }
}

#[test]
fn empty_answer_and_short_answer() {
    let mw = CCIPReadMiddleware::new();
    let m = mw.get_resolver(b"x.eth".to_vec());
    let (m, step) = m.on_lookup(Vec::new());
    assert!(matches!(step, DiscoveryStep::Done(_)));
    let (_, step) = m.on_lookup(vec![1, 2, 3]);
    assert!(matches!(
        step,
        DiscoveryStep::Fail(ethers_ccip_read::error::CCIPMiddlewareError::DecodeError)
    ));
}

#[test]
fn empty_and_lone_dot_names_return_zero() {
    let mw = CCIPReadMiddleware::new();
    let m = mw.get_resolver(Vec::new());
    assert!(matches!(m.begin(), DiscoveryStep::Done(_)));
    let m = mw.get_resolver(b".".to_vec());
    assert!(matches!(m.begin(), DiscoveryStep::Done(_)));
}

#[test]
fn a_custom_registry_is_used_in_the_lookup_target() {
    let mut bytes = vec![0u8; 20];
    bytes[0] = 0x11;
    let mw = CCIPReadMiddleware::new().ens(Address { bytes: bytes.clone() });
    let m = mw.get_resolver(b"x.eth".to_vec());
    match m.begin() {
        DiscoveryStep::Lookup(call) => match call.target {
            ethers_ccip_read::address::CallTarget::Addr(a) => assert_eq!(a.bytes, bytes),
            _ => panic!("the lookup is aimed at the registry"),
        },
        _ => panic!("a lookup was expected"),
    }
}
