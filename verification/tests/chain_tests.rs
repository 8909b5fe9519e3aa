use cdp_core::chain::{ChainPoll, CommandChain, CommandEntry};

fn two_step_chain(now: u64) -> CommandChain {
    let items = vec![
        CommandEntry::new("Page.enable".to_string(), "{}".to_string()),
        CommandEntry::new("Page.getFrameTree".to_string(), "{}".to_string()),
    ];
    CommandChain::new(items, now, 1000)
}

#[test]
fn chain_emits_in_order_and_waits_for_each_response() {
    let mut chain = two_step_chain(0);
    match chain.poll(0) {
        ChainPoll::Emit(e) => assert_eq!(e.method, "Page.enable"),
        _ => panic!("first poll emits the first entry"),
    }
    assert!(matches!(chain.poll(0), ChainPoll::Pending));
    assert!(matches!(chain.poll(1), ChainPoll::Pending));
    assert!(chain.received_response("Page.enable"));
    match chain.poll(2) {
        ChainPoll::Emit(e) => assert_eq!(e.method, "Page.getFrameTree"),
        _ => panic!("the second entry comes only after the first response"),
    }
    assert!(chain.received_response("Page.getFrameTree"));
    assert!(chain.is_complete());
    assert!(matches!(chain.poll(3), ChainPoll::Done));
}

#[test]
fn responses_for_other_methods_are_ignored() {
    let mut chain = two_step_chain(0);
    match chain.poll(0) {
        ChainPoll::Emit(e) => assert_eq!(e.method, "Page.enable"),
        _ => panic!("first poll emits"),
    }
    assert!(!chain.received_response("Network.enable"));
    assert!(matches!(chain.poll(0), ChainPoll::Pending));
    assert!(!chain.received_response("Page.getFrameTree"));
    assert!(chain.received_response("Page.enable"));
}

#[test]
fn deadline_is_reported_once_then_done() {
    let mut chain = two_step_chain(0);
    match chain.poll(0) {
        ChainPoll::Emit(_) => {},
        _ => panic!("first poll emits"),
    }
    match chain.poll(2000) {
        ChainPoll::TimedOut(d) => {
            assert_eq!(d.now, 2000);
            assert_eq!(d.deadline, 2000);
        },
        _ => panic!("the shared deadline of two entries at 1000 each is 2000"),
    }
    assert!(matches!(chain.poll(2001), ChainPoll::Done));
    assert!(matches!(chain.poll(9000), ChainPoll::Done));
}
