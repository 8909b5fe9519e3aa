use cdp_core::frame::{FrameNavigationRequest, NavigationError};
use cdp_core::handler::{Handler, HandlerAction, HandlerConfig};
use cdp_core::target::{TargetMessage, WaiterId};
use cdp_core::types::{CallId, CdpEvent, Response};

fn test_config() -> HandlerConfig {
    let mut cfg = HandlerConfig::default();
    cfg.request_timeout = 1000;
    cfg
}

fn event(method: &str, session: Option<&str>, params: &str) -> CdpEvent {
    CdpEvent {
        method: method.to_string(),
        session_id: session.map(|s| s.to_string()),
        params: params.to_string(),
    }
}

/// Poll the handler until quiescent, answering every outgoing call with
/// an empty result (the frame tree call gets a minimal tree). Every
/// other action is collected.
fn pump(h: &mut Handler, now: u64) -> Vec<HandlerAction> {
    let mut out = Vec::new();
    loop {
        let acts = h.poll_targets(now);
        if acts.is_empty() {
            break;
        }
        for act in acts {
            match act {
                HandlerAction::Send(mc, _session) => {
                    let result = if mc.method == "Page.getFrameTree" {
                        "{\"frameTree\":{\"frame\":{\"id\":\"F0\",\"url\":\"about:blank\"}}}"
                    } else {
                        "{}"
                    };
                    let resp = Response { id: mc.id, result: Some(result.to_string()), error: None };
                    let _ = h.on_response(&resp);
                },
                other => out.push(other),
            }
        }
    }
    out
}

/// Bring one page target up: created, attached under session S1, and
/// initialized through all four chains.
fn init_target(h: &mut Handler, now: u64) {
    h.on_event(&event("Target.targetCreated", None, "{\"targetId\":\"T1\",\"type\":\"page\"}"), now);
    let _ = h.poll_targets(now);
    h.on_event(
        &event("Target.attachedToTarget", None, "{\"sessionId\":\"S1\",\"targetId\":\"T1\"}"),
        now,
    );
    let _ = pump(h, now);
}

#[test]
fn attach_and_initialize() {
    let mut h = Handler::new(test_config());
    h.on_event(&event("Target.targetCreated", None, "{\"targetId\":\"T1\",\"type\":\"page\"}"), 0);
    // the first pass emits the attach call and stalls until a session exists
    let acts = h.poll_targets(0);
    assert_eq!(acts.len(), 1);
    match &acts[0] {
        HandlerAction::Send(mc, session) => {
            assert_eq!(mc.method, "Target.attachToTarget");
            assert_eq!(mc.params, "{\"targetId\":\"T1\",\"flatten\":true}");
            assert!(session.is_none());
        },
        _ => panic!("the attach call goes out first"),
    }
    h.on_event(
        &event("Target.attachedToTarget", None, "{\"sessionId\":\"S1\",\"targetId\":\"T1\"}"),
        0,
    );
    let leftover = pump(&mut h, 0);
    assert!(leftover.is_empty());
    let t = h.find_target("T1").expect("target exists");
    assert!(t.is_initialized());
    assert!(!t.is_closed());
    // the main frame is the root of the initial tree
    assert!(h.send_target_message("T1", TargetMessage::MainFrame(WaiterId(1))));
    let acts = pump(&mut h, 1);
    assert_eq!(acts.len(), 1);
    match &acts[0] {
        HandlerAction::MainFrame(w, mf) => {
            assert_eq!(*w, WaiterId(1));
            assert_eq!(mf.as_deref(), Some("F0"));
        },
        _ => panic!("the main frame reply comes back"),
    }
}

#[test]
fn goto_and_load() {
    let mut h = Handler::new(test_config());
    init_target(&mut h, 0);
    assert!(h.navigate(
        "T1",
        FrameNavigationRequest {
            url: "http://x".to_string(),
            params: "{\"url\":\"http://x\"}".to_string(),
            deadline: 5000,
        },
    ));
    // the navigate call goes out and is acknowledged
    let acts = pump(&mut h, 1);
    assert!(acts.is_empty());
    h.on_event(&event("Page.frameStartedLoading", Some("S1"), "{\"frameId\":\"F0\"}"), 2);
    h.on_event(
        &event(
            "Page.frameNavigated",
            Some("S1"),
            "{\"frame\":{\"id\":\"F0\",\"url\":\"http://x\",\"loaderId\":\"L2\"}}",
        ),
        3,
    );
    h.on_event(
        &event(
            "Page.lifecycleEvent",
            Some("S1"),
            "{\"frameId\":\"F0\",\"loaderId\":\"L2\",\"name\":\"load\"}",
        ),
        4,
    );
    let acts = pump(&mut h, 5);
    let mut resolved = false;
    for act in &acts {
        if let HandlerAction::NavigationFinished(Ok(ok)) = act {
            assert_eq!(ok.url.as_deref(), Some("http://x"));
            resolved = true;
        }
    }
    assert!(resolved, "goto resolves Ok once load is seen for the new loader");
    // url() reports the navigated url
    assert!(h.send_target_message("T1", TargetMessage::Url(WaiterId(4))));
    let acts = pump(&mut h, 6);
    assert!(acts.iter().any(|a| matches!(
        a,
        HandlerAction::Url(WaiterId(4), Some(u)) if u == "http://x"
    )));
}

#[test]
fn concurrent_commands_keep_their_waiters() {
    let mut h = Handler::new(test_config());
    init_target(&mut h, 0);
    let page = cdp_core::page::Page::new("T1".to_string(), "S1".to_string());
    assert!(h.send_target_message(
        "T1",
        page.execute("Custom.a".to_string(), "{}".to_string(), WaiterId(1)),
    ));
    assert!(h.send_target_message(
        "T1",
        page.execute("Custom.b".to_string(), "{}".to_string(), WaiterId(2)),
    ));
    let acts = h.poll_targets(1);
    let mut sent: Vec<(CallId, String)> = Vec::new();
    for act in acts {
        if let HandlerAction::Send(mc, _) = act {
            sent.push((mc.id, mc.method));
        }
    }
    assert_eq!(sent.len(), 2);
    assert_eq!(sent[0].1, "Custom.a");
    assert_eq!(sent[1].1, "Custom.b");
    // the browser answers B first; each waiter still gets its own response
    let resp_b = Response {
        id: sent[1].0,
        result: Some("{\"who\":\"b\"}".to_string()),
        error: None,
    };
    match h.on_response(&resp_b) {
        Some(HandlerAction::Deliver(w, Ok(Some(payload)))) => {
            assert_eq!(w, WaiterId(2));
            assert_eq!(payload, "{\"who\":\"b\"}");
        },
        _ => panic!("B's waiter receives B's response"),
    }
    let resp_a = Response {
        id: sent[0].0,
        result: Some("{\"who\":\"a\"}".to_string()),
        error: None,
    };
    match h.on_response(&resp_a) {
        Some(HandlerAction::Deliver(w, Ok(Some(payload)))) => {
            assert_eq!(w, WaiterId(1));
            assert_eq!(payload, "{\"who\":\"a\"}");
        },
        _ => panic!("A's waiter receives A's response"),
    }
    // a repeated response finds no waiter and is dropped
    assert!(h.on_response(&resp_a).is_none());
}

#[test]
fn navigation_timeout_leaves_the_target_healthy() {
    let mut h = Handler::new(test_config());
    init_target(&mut h, 0);
    assert!(h.navigate(
        "T1",
        FrameNavigationRequest {
            url: "http://x".to_string(),
            params: "{\"url\":\"http://x\"}".to_string(),
            deadline: 100,
        },
    ));
    let _ = pump(&mut h, 1);
    h.on_event(&event("Page.frameStartedLoading", Some("S1"), "{\"frameId\":\"F0\"}"), 2);
    let acts = pump(&mut h, 150);
    assert!(acts.iter().any(|a| matches!(
        a,
        HandlerAction::NavigationFinished(Err(NavigationError::Timeout { .. }))
    )));
    let t = h.find_target("T1").expect("target exists");
    assert!(!t.is_closed(), "a navigation timeout is not fatal for the target");
    assert!(t.is_initialized());
}

#[test]
fn init_timeout_closes_the_target_and_fails_waiters() {
    let mut h = Handler::new(test_config());
    h.on_event(&event("Target.targetCreated", None, "{\"targetId\":\"T1\",\"type\":\"page\"}"), 0);
    let _ = h.poll_targets(0);
    h.on_event(
        &event("Target.attachedToTarget", None, "{\"sessionId\":\"S1\",\"targetId\":\"T1\"}"),
        0,
    );
    // the first chain call goes out; the transport never answers it
    let acts = h.poll_targets(0);
    assert!(acts.iter().any(|a| matches!(
        a,
        HandlerAction::Send(mc, _) if mc.method == "Page.enable"
    )));
    // a caller's command waits meanwhile
    let page = cdp_core::page::Page::new("T1".to_string(), "S1".to_string());
    assert!(h.send_target_message(
        "T1",
        page.execute("Custom.c".to_string(), "{}".to_string(), WaiterId(9)),
    ));
    // past the chain deadline (five entries at 1000 each) the target dies
    let acts = h.poll_targets(6000);
    assert!(acts.iter().any(|a| matches!(
        a,
        HandlerAction::Fail(WaiterId(9), cdp_core::types::CdpError::DeadlineExceeded(_))
    )));
    let t = h.find_target("T1").expect("target still listed");
    assert!(t.is_closed());
    assert!(!t.is_initialized());
}

#[test]
fn transport_close_fails_all_waiters_exactly_once() {
    let mut h = Handler::new(test_config());
    init_target(&mut h, 0);
    let page = cdp_core::page::Page::new("T1".to_string(), "S1".to_string());
    assert!(h.send_target_message(
        "T1",
        page.execute("Custom.a".to_string(), "{}".to_string(), WaiterId(1)),
    ));
    assert!(h.send_target_message(
        "T1",
        page.execute("Custom.b".to_string(), "{}".to_string(), WaiterId(2)),
    ));
    let sent = h.poll_targets(1);
    assert_eq!(
        sent.iter().filter(|a| matches!(a, HandlerAction::Send(_, _))).count(),
        2
    );
    let acts = h.on_transport_closed();
    let mut failed = Vec::new();
    for act in &acts {
        if let HandlerAction::Fail(w, cdp_core::types::CdpError::TransportClosed) = act {
            failed.push(*w);
        }
    }
    assert_eq!(failed, vec![WaiterId(1), WaiterId(2)]);
    // a second close finds nothing left to fail
    assert!(h.on_transport_closed().is_empty());
}

#[test]
fn wait_for_navigation_resolves_with_the_loaded_url() {
    let mut h = Handler::new(test_config());
    init_target(&mut h, 0);
    // before any load completes, the waiter parks
    assert!(h.send_target_message("T1", TargetMessage::WaitForNavigation(WaiterId(11))));
    let acts = pump(&mut h, 1);
    assert!(acts.is_empty(), "the waiter parks until the main frame loads");
    h.on_event(
        &event(
            "Page.frameNavigated",
            Some("S1"),
            "{\"frame\":{\"id\":\"F0\",\"url\":\"http://x\",\"loaderId\":\"L2\"}}",
        ),
        2,
    );
    h.on_event(
        &event(
            "Page.lifecycleEvent",
            Some("S1"),
            "{\"frameId\":\"F0\",\"loaderId\":\"L2\",\"name\":\"load\"}",
        ),
        3,
    );
    let acts = pump(&mut h, 4);
    assert!(acts.iter().any(|a| matches!(
        a,
        HandlerAction::FrameLoaded(WaiterId(11), Ok(u)) if u == "http://x"
    )));
    // once loaded, a fresh waiter resolves in the same pass
    assert!(h.send_target_message("T1", TargetMessage::WaitForNavigation(WaiterId(12))));
    let acts = pump(&mut h, 5);
    assert!(acts.iter().any(|a| matches!(
        a,
        HandlerAction::FrameLoaded(WaiterId(12), Ok(u)) if u == "http://x"
    )));
}

#[test]
fn transport_close_fails_parked_target_waiters_too() {
    let mut h = Handler::new(test_config());
    init_target(&mut h, 0);
    // a navigation waiter parks (nothing is loaded yet under a new loader)
    assert!(h.send_target_message("T1", TargetMessage::WaitForNavigation(WaiterId(31))));
    let acts = pump(&mut h, 1);
    assert!(acts.is_empty(), "the waiter parks");
    // a command sits unread in the target's inbox
    assert!(h.send_target_message(
        "T1",
        cdp_core::page::Page::new("T1".to_string(), "S1".to_string()).execute(
            "Custom.late".to_string(),
            "{}".to_string(),
            WaiterId(32),
        ),
    ));
    let acts = h.on_transport_closed();
    let failed: Vec<WaiterId> = acts
        .iter()
        .filter_map(|a| match a {
            HandlerAction::Fail(w, cdp_core::types::CdpError::TransportClosed) => Some(*w),
            _ => None,
        })
        .collect();
    assert!(failed.contains(&WaiterId(31)));
    assert!(failed.contains(&WaiterId(32)));
    // exactly once: nothing is left to fail
    assert!(h.on_transport_closed().is_empty());
}
