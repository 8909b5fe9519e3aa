use cdp_core::frame::{FrameEvent, FrameManager, FrameNavigationRequest, NavigationError};

fn manager_with_root() -> FrameManager {
    let mut fm = FrameManager::new();
    fm.on_frame_tree("F0", Some("about:blank".to_string()), None);
    fm
}

#[test]
fn main_frame_is_the_tree_root() {
    let fm = manager_with_root();
    let f = fm.main_frame().expect("root known");
    assert_eq!(f.id, "F0");
    assert_eq!(f.url.as_deref(), Some("about:blank"));
    assert!(!f.is_loaded());
}

#[test]
fn loaded_requires_load_for_the_current_loader() {
    let mut fm = manager_with_root();
    fm.on_frame_navigated("F0", "http://x".to_string(), "L1".to_string());
    assert!(!fm.main_frame().unwrap().is_loaded());
    // a lifecycle event for another loader does not count
    fm.on_page_lifecycle_event("F0", "L9", "load");
    assert!(!fm.main_frame().unwrap().is_loaded());
    fm.on_page_lifecycle_event("F0", "L1", "load");
    let f = fm.main_frame().unwrap();
    assert!(f.is_loaded());
    assert_eq!(f.loader_id.as_deref(), Some("L1"));
    // a new navigation clears loadedness again
    fm.on_frame_navigated("F0", "http://y".to_string(), "L2".to_string());
    assert!(!fm.main_frame().unwrap().is_loaded());
}

#[test]
fn within_document_navigation_keeps_lifecycle() {
    let mut fm = manager_with_root();
    fm.on_frame_navigated("F0", "http://x".to_string(), "L1".to_string());
    fm.on_page_lifecycle_event("F0", "L1", "load");
    fm.on_frame_navigated_within_document("F0", "http://x#sec".to_string());
    let f = fm.main_frame().unwrap();
    assert!(f.is_loaded());
    assert_eq!(f.url.as_deref(), Some("http://x#sec"));
}

#[test]
fn child_frames_attach_and_detach() {
    let mut fm = manager_with_root();
    fm.on_frame_attached("F1".to_string(), Some("F0".to_string()));
    fm.on_frame_navigated("F1", "http://child".to_string(), "L5".to_string());
    fm.on_frame_detached("F1");
    // the main frame is untouched
    assert_eq!(fm.main_frame().unwrap().id, "F0");
}

#[test]
fn navigation_resolves_on_load_under_a_new_loader() {
    let mut fm = manager_with_root();
    fm.on_frame_navigated("F0", "about:blank".to_string(), "L1".to_string());
    fm.on_page_lifecycle_event("F0", "L1", "load");
    let (nav_id, req) = fm.goto(FrameNavigationRequest {
        url: "http://x".to_string(),
        params: "{\"url\":\"http://x\"}".to_string(),
        deadline: 1000,
    });
    assert_eq!(req.method, "Page.navigate");
    // still loaded under the old loader: the navigation must not resolve yet
    assert!(fm.poll(0).is_none());
    fm.on_frame_started_loading("F0");
    fm.on_frame_navigated("F0", "http://x".to_string(), "L2".to_string());
    assert!(fm.poll(1).is_none());
    fm.on_page_lifecycle_event("F0", "L2", "load");
    match fm.poll(2) {
        Some(FrameEvent::NavigationResult(Ok(ok))) => {
            assert_eq!(ok.id, nav_id);
            assert_eq!(ok.url.as_deref(), Some("http://x"));
        },
        _ => panic!("the navigation resolves once load is seen for the new loader"),
    }
    assert!(fm.poll(3).is_none());
}

#[test]
fn navigation_times_out_past_its_deadline() {
    let mut fm = manager_with_root();
    let (nav_id, _req) = fm.goto(FrameNavigationRequest {
        url: "http://x".to_string(),
        params: "{\"url\":\"http://x\"}".to_string(),
        deadline: 100,
    });
    fm.on_frame_started_loading("F0");
    assert!(fm.poll(99).is_none());
    match fm.poll(100) {
        Some(FrameEvent::NavigationResult(Err(NavigationError::Timeout { id, deadline }))) => {
            assert_eq!(id, nav_id);
            assert_eq!(deadline.now, 100);
            assert_eq!(deadline.deadline, 100);
        },
        _ => panic!("the navigation fails at its deadline"),
    }
}
