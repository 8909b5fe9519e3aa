use cdp_core::emulation::Viewport;
use cdp_core::target::{Target, TargetEvent, TargetInfo, TargetMessage, WaiterId};
use cdp_core::types::{CallId, CdpError, Response, SessionId};

fn page_target() -> Target {
    Target::new(
        TargetInfo {
            target_id: "T1".to_string(),
            target_type: "page".to_string(),
            browser_context_id: None,
            opener_id: None,
        },
        Viewport::default(),
        1000,
    )
}

/// Drive the pipeline to completion, answering every emitted call, and
/// record the methods in the order they went out.
fn drive_init(t: &mut Target, frame_tree_result: &str) -> Vec<String> {
    let mut methods = Vec::new();
    let mut guard = 0;
    loop {
        guard += 1;
        assert!(guard < 100, "initialization must converge");
        match t.poll(0) {
            Some(TargetEvent::Request(req)) => {
                methods.push(req.method.clone());
                if req.method == "Target.attachToTarget" {
                    t.set_session_id(SessionId::new("S1".to_string()));
                }
                let result = if req.method == "Page.getFrameTree" {
                    frame_tree_result
                } else {
                    "{}"
                };
                let resp = Response {
                    id: CallId::new(0),
                    result: Some(result.to_string()),
                    error: None,
                };
                t.on_response(&resp, req.method.as_str());
            },
            Some(_) => panic!("initialization only emits requests"),
            None => {
                if t.is_initialized() {
                    break;
                }
            },
        }
    }
    methods
}

#[test]
fn initialization_issues_every_chain_in_order() {
    let mut t = page_target();
    assert!(!t.is_initialized());
    t.initialize();
    let methods = drive_init(
        &mut t,
        "{\"frameTree\":{\"frame\":{\"id\":\"F0\",\"url\":\"about:blank\"}}}",
    );
    assert_eq!(
        methods,
        vec![
            "Target.attachToTarget",
            "Page.enable",
            "Page.getFrameTree",
            "Page.setLifecycleEventsEnabled",
            "Runtime.enable",
            "Runtime.runIfWaitingForDebugger",
            "Network.enable",
            "Target.setAutoAttach",
            "Performance.enable",
            "Log.enable",
            "Emulation.setDeviceMetricsOverride",
            "Emulation.setTouchEmulationEnabled",
        ]
    );
    assert!(t.is_initialized());
    assert!(t.is_page());
}

#[test]
fn a_target_without_initialize_stays_put() {
    let mut t = page_target();
    assert!(t.poll(0).is_none());
    assert!(!t.is_initialized());
}

#[test]
fn a_loaded_frame_without_a_url_reports_not_found() {
    let mut t = page_target();
    t.initialize();
    // the initial tree knows the root's loader but no url
    let _ = drive_init(&mut t, "{\"frameTree\":{\"frame\":{\"id\":\"F0\",\"loaderId\":\"L0\"}}}");
    t.on_event(&cdp_core::types::CdpEvent {
        method: "Page.lifecycleEvent".to_string(),
        session_id: Some("S1".to_string()),
        params: "{\"frameId\":\"F0\",\"loaderId\":\"L0\",\"name\":\"load\"}".to_string(),
    });
    t.push_message(TargetMessage::WaitForNavigation(WaiterId(8)));
    match t.poll(1) {
        Some(TargetEvent::FrameLoaded(w, Err(CdpError::NotFound))) => {
            assert_eq!(w, WaiterId(8));
        },
        other => panic!("a loaded frame without a url is a not-found: {:?}", other.is_some()),
    }
}

#[test]
fn the_initiator_is_told_once_the_page_has_loaded() {
    let mut t = page_target();
    t.set_initiator(WaiterId(21));
    let _ = drive_init(
        &mut t,
        "{\"frameTree\":{\"frame\":{\"id\":\"F0\",\"url\":\"about:blank\",\"loaderId\":\"L0\"}}}",
    );
    // not loaded yet: the initiator keeps waiting
    assert!(t.poll(1).is_none());
    t.on_event(&cdp_core::types::CdpEvent {
        method: "Page.lifecycleEvent".to_string(),
        session_id: Some("S1".to_string()),
        params: "{\"frameId\":\"F0\",\"loaderId\":\"L0\",\"name\":\"load\"}".to_string(),
    });
    match t.poll(2) {
        Some(TargetEvent::PageReady(w)) => assert_eq!(w, WaiterId(21)),
        other => panic!("the creator is told exactly once: {:?}", other.is_some()),
    }
    assert!(t.poll(3).is_none(), "the initiator is resolved only once");
}
