use cdp_core::page::{
    prepare_cookie, prepare_cookies, prepare_delete_cookie, prepare_delete_cookies,
    validate_cookie_url, goto_outcome, title_outcome, CookieParam, DeleteCookiesRequest, Page,
};
use cdp_core::target::{TargetMessage, WaiterId};
use cdp_core::types::CdpError;

#[test]
fn cookie_urls_are_validated() {
    assert!(validate_cookie_url("http://example.com").is_ok());
    assert!(validate_cookie_url("https://example.com").is_ok());
    assert!(matches!(
        validate_cookie_url("data:text/html,hello"),
        Err(CdpError::Msg(_))
    ));
    assert!(matches!(validate_cookie_url("about:blank"), Err(CdpError::Msg(_))));
}

#[test]
fn a_cookie_without_a_url_takes_the_pages_absolute_url() {
    let cookie = CookieParam {
        name: "k".to_string(),
        value: "v".to_string(),
        url: None,
    };
    let out = prepare_cookie(cookie, Some("http://example.com")).expect("accepted");
    assert_eq!(out.url.as_deref(), Some("http://example.com"));

    let cookie = CookieParam {
        name: "k".to_string(),
        value: "v".to_string(),
        url: None,
    };
    assert!(prepare_cookie(cookie, None).is_err());

    let cookie = CookieParam {
        name: "k".to_string(),
        value: "v".to_string(),
        url: Some("data:x".to_string()),
    };
    assert!(prepare_cookie(cookie, Some("http://example.com")).is_err());
}

#[test]
fn batches_of_cookies_are_checked_and_filled() {
    let cookies = vec![
        CookieParam { name: "a".to_string(), value: "1".to_string(), url: None },
        CookieParam {
            name: "b".to_string(),
            value: "2".to_string(),
            url: Some("http://other".to_string()),
        },
    ];
    let out = prepare_cookies(cookies, Some("http://page".to_string())).expect("accepted");
    assert_eq!(out.len(), 2);
    assert_eq!(out[0].url.as_deref(), Some("http://page"));
    assert_eq!(out[1].url.as_deref(), Some("http://other"));

    let cookies = vec![CookieParam {
        name: "a".to_string(),
        value: "1".to_string(),
        url: Some("about:blank".to_string()),
    }];
    assert!(prepare_cookies(cookies, Some("http://page".to_string())).is_err());
    assert!(prepare_cookies(Vec::new(), None).is_err());
}

#[test]
fn deletions_borrow_the_pages_url_when_missing() {
    let del = DeleteCookiesRequest { name: "k".to_string(), url: None };
    let out = prepare_delete_cookie(del, Some("http://page"));
    assert_eq!(out.url.as_deref(), Some("http://page"));

    let del = DeleteCookiesRequest { name: "k".to_string(), url: None };
    let out = prepare_delete_cookie(del, Some("about:blank"));
    assert!(out.url.is_none());

    let dels = vec![
        DeleteCookiesRequest { name: "a".to_string(), url: None },
        DeleteCookiesRequest { name: "b".to_string(), url: Some("http://own".to_string()) },
    ];
    let out = prepare_delete_cookies(dels, Some("http://page".to_string())).expect("accepted");
    assert_eq!(out[0].url.as_deref(), Some("http://page"));
    assert_eq!(out[1].url.as_deref(), Some("http://own"));
}

#[test]
fn deleting_without_any_url_needs_the_page() {
    // a deletion lacking a url, with no page url known, is refused
    let dels = vec![DeleteCookiesRequest { name: "a".to_string(), url: None }];
    assert!(matches!(prepare_delete_cookies(dels, None), Err(CdpError::Msg(_))));
    // deletions that all carry urls need no page url
    let dels = vec![DeleteCookiesRequest {
        name: "b".to_string(),
        url: Some("http://own".to_string()),
    }];
    let out = prepare_delete_cookies(dels, None).expect("accepted");
    assert_eq!(out[0].url.as_deref(), Some("http://own"));
}

#[test]
fn deletion_from_cookie_copies_name_and_url() {
    let cookie = CookieParam {
        name: "k".to_string(),
        value: "v".to_string(),
        url: Some("http://page".to_string()),
    };
    let del = DeleteCookiesRequest::from_cookie(&cookie);
    assert_eq!(del.name, "k");
    assert_eq!(del.url.as_deref(), Some("http://page"));
}

#[test]
fn goto_outcome_propagates_the_browsers_error_text() {
    assert!(goto_outcome(None).is_ok());
    match goto_outcome(Some("net::ERR_ABORTED".to_string())) {
        Err(CdpError::ChromeMessage(m)) => assert_eq!(m, "net::ERR_ABORTED"),
        _ => panic!("a reported errorText fails the navigation"),
    }
}

#[test]
fn title_outcome_distinguishes_missing_empty_and_present() {
    assert!(matches!(title_outcome(None), Err(CdpError::Msg(_))));
    assert!(matches!(title_outcome(Some("\"\"".to_string())), Ok(None)));
    match title_outcome(Some("\"Example Domain\"".to_string())) {
        Ok(Some(t)) => assert_eq!(t, "Example Domain"),
        _ => panic!("a non-empty title is returned"),
    }
}

#[test]
fn page_messages_carry_the_session() {
    let page = Page::new("T1".to_string(), "S1".to_string());
    assert_eq!(page.target_id(), "T1");
    assert_eq!(page.session_id(), "S1");
    match page.execute("Page.reload".to_string(), "{}".to_string(), WaiterId(5)) {
        TargetMessage::Command(cmd) => {
            assert_eq!(cmd.method, "Page.reload");
            assert_eq!(cmd.session_id.as_deref(), Some("S1"));
            assert_eq!(cmd.waiter, WaiterId(5));
        },
        _ => panic!("execute builds a command message"),
    }
    assert!(matches!(page.url(WaiterId(1)), TargetMessage::Url(WaiterId(1))));
    assert!(matches!(page.mainframe(WaiterId(2)), TargetMessage::MainFrame(WaiterId(2))));
    assert!(matches!(
        page.wait_for_navigation(WaiterId(3)),
        TargetMessage::WaitForNavigation(WaiterId(3))
    ));
}

#[test]
fn an_unreadable_title_value_is_a_parse_error() {
    assert!(matches!(
        title_outcome(Some("not a string literal".to_string())),
        Err(CdpError::Serde)
    ));
}
