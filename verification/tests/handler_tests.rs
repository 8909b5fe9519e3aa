use cdp_core::handler::{CallOrigin, Handler, HandlerAction, HandlerConfig};
use cdp_core::network::NetworkManager;
use cdp_core::emulation::{EmulationManager, Viewport};
use cdp_core::chain::ChainPoll;
use cdp_core::target::WaiterId;
use cdp_core::types::{CallId, Error, Response};
use cdp_core::strutil::usize_to_string;
use cdp_core::types::{domain_name, method_name, split_identifier, has_domain};

fn test_config() -> HandlerConfig {
    let mut cfg = HandlerConfig::default();
    cfg.request_timeout = 1000;
    cfg
}

#[test]
fn call_ids_are_allocated_in_order() {
    let mut h = Handler::new(test_config());
    let (id0, mc0, _) = h.dispatch(
        "Custom.a".to_string(),
        "{}".to_string(),
        None,
        None,
        CallOrigin::User(WaiterId(1)),
        0,
    );
    let (id1, mc1, _) = h.dispatch(
        "Custom.b".to_string(),
        "{}".to_string(),
        None,
        None,
        CallOrigin::User(WaiterId(2)),
        0,
    );
    assert_eq!(id0, CallId::new(0));
    assert_eq!(id1, CallId::new(1));
    // the id framed on the wire is the id the waiter was parked under
    assert_eq!(mc0.id, id0);
    assert_eq!(mc1.id, id1);
}

#[test]
fn unmatched_responses_are_dropped_silently() {
    let mut h = Handler::new(test_config());
    let resp = Response { id: CallId::new(77), result: Some("{}".to_string()), error: None };
    assert!(h.on_response(&resp).is_none());
}

#[test]
fn taking_a_call_twice_finds_nothing_the_second_time() {
    let mut h = Handler::new(test_config());
    let (id, _, _) = h.dispatch(
        "Custom.a".to_string(),
        "{}".to_string(),
        None,
        None,
        CallOrigin::User(WaiterId(1)),
        0,
    );
    assert!(h.take_call(id.0).is_some());
    assert!(h.take_call(id.0).is_none());
}

#[test]
fn browser_errors_reach_the_waiter_verbatim() {
    let mut h = Handler::new(test_config());
    let (id, _, _) = h.dispatch(
        "Custom.a".to_string(),
        "{}".to_string(),
        None,
        None,
        CallOrigin::User(WaiterId(3)),
        0,
    );
    let resp = Response {
        id,
        result: None,
        error: Some(Error { code: 32601, message: "method missing".to_string() }),
    };
    match h.on_response(&resp) {
        Some(HandlerAction::Deliver(w, Err(e))) => {
            assert_eq!(w, WaiterId(3));
            assert_eq!(e.code, 32601);
            assert_eq!(e.message, "method missing");
        },
        _ => panic!("the protocol error is propagated verbatim"),
    }
}

#[test]
fn expired_calls_fail_and_live_calls_stay() {
    let mut h = Handler::new(test_config());
    let (_early, _, _) = h.dispatch(
        "Custom.a".to_string(),
        "{}".to_string(),
        None,
        None,
        CallOrigin::User(WaiterId(1)),
        0,
    );
    let (late, _, _) = h.dispatch(
        "Custom.b".to_string(),
        "{}".to_string(),
        None,
        None,
        CallOrigin::User(WaiterId(2)),
        5000,
    );
    // at 2000 the first call (deadline 1000) has expired, the second has not
    let acts = h.check_timeouts(2000);
    assert_eq!(acts.len(), 1);
    assert!(matches!(
        acts[0],
        HandlerAction::Fail(WaiterId(1), cdp_core::types::CdpError::DeadlineExceeded(_))
    ));
    // the live call is still answered
    let resp = Response { id: late, result: Some("{}".to_string()), error: None };
    assert!(matches!(
        h.on_response(&resp),
        Some(HandlerAction::Deliver(WaiterId(2), Ok(Some(_))))
    ));
}

#[test]
fn transport_up_discovers_and_auto_attaches() {
    let mut h = Handler::new(test_config());
    let acts = h.on_transport_up(0);
    assert_eq!(acts.len(), 2);
    match &acts[0] {
        HandlerAction::Send(mc, _) => assert_eq!(mc.method, "Target.setDiscoverTargets"),
        _ => panic!("discovery goes out first"),
    }
    match &acts[1] {
        HandlerAction::Send(mc, _) => {
            assert_eq!(mc.method, "Target.setAutoAttach");
            assert_eq!(
                mc.params,
                "{\"autoAttach\":true,\"waitForDebuggerOnStart\":true,\"flatten\":true}"
            );
        },
        _ => panic!("auto-attach follows"),
    }
}

#[test]
fn network_records_follow_their_request() {
    let mut nm = NetworkManager::new();
    nm.on_request_will_be_sent("R1", "http://x/a".to_string());
    nm.on_response_received("R1", 200);
    nm.on_network_loading_finished("R1");
    let rec = nm.record("R1").expect("tracked");
    assert_eq!(rec.url, "http://x/a");
    assert_eq!(rec.response_status, Some(200));
    assert!(rec.finished);
    assert!(!rec.failed);
    // unknown ids are tolerated
    nm.on_response_received("R9", 404);
    assert!(nm.record("R9").is_none());
    nm.on_network_loading_failed("R1");
    assert!(nm.record("R1").unwrap().failed);
}

#[test]
fn emulation_chain_carries_the_viewport() {
    let viewport = Viewport {
        width: 1280,
        height: 720,
        device_scale_factor_hundredths: 100,
        mobile: false,
        has_touch: true,
    };
    let em = EmulationManager::new(viewport);
    let mut chain = em.init_commands(0, 1000);
    match chain.poll(0) {
        ChainPoll::Emit(e) => {
            assert_eq!(e.method, "Emulation.setDeviceMetricsOverride");
            assert_eq!(
                e.params,
                "{\"width\":1280,\"height\":720,\"deviceScaleFactorHundredths\":100,\"mobile\":false}"
            );
        },
        _ => panic!("the metrics override goes out first"),
    }
    assert!(chain.received_response("Emulation.setDeviceMetricsOverride"));
    match chain.poll(1) {
        ChainPoll::Emit(e) => {
            assert_eq!(e.method, "Emulation.setTouchEmulationEnabled");
            assert_eq!(e.params, "{\"enabled\":true}");
        },
        _ => panic!("the touch toggle follows"),
    }
}

#[test]
fn numbers_render_in_decimal() {
    assert_eq!(usize_to_string(0), "0");
    assert_eq!(usize_to_string(907), "907");
    assert_eq!(usize_to_string(1000000), "1000000");
}

#[test]
fn qualified_method_names_split_at_the_first_dot() {
    let (domain, method) = split_identifier("DOM.removeNode");
    assert_eq!(domain, "DOM");
    assert_eq!(method, "removeNode");
    assert_eq!(domain_name("Page.frameNavigated"), "Page");
    assert_eq!(method_name("Page.frameNavigated"), "frameNavigated");
    assert!(has_domain("Page.frameNavigated", "Page"));
    assert!(!has_domain("Page.frameNavigated", "Network"));
    assert!(!has_domain("Page", "Page"));
}
