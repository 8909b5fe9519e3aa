//! The page handle: what a caller sends to its target, and the checks
//! and fixups around cookies, navigation and titles that run before
//! or after any call goes out.

use vstd::prelude::*;
use crate::strutil::{str_eq, str_starts_with, substring};
use crate::target::{CommandMessage, TargetMessage, WaiterId};
use crate::types::CdpError;
use crate::codec::plain_text;
use vstd::string::StrSliceExecFns;

verus! {

/// A url a cookie may not be set on: a data url.
pub open spec fn is_data_url(s: Seq<char>) -> bool {
    s.len() >= "data:"@.len() && s.subrange(0, "data:"@.len() as int) == "data:"@
}

/// The blank page, which cannot carry cookies either.
pub open spec fn is_blank_url(s: Seq<char>) -> bool {
    s == "about:blank"@
}

/// Urls that cookies may be attached to.
pub open spec fn cookie_url_ok(s: Seq<char>) -> bool {
    !is_data_url(s) && !is_blank_url(s)
}

/// A url whose cookies are set by absolute url: it begins with `http`.
pub open spec fn is_http_url(s: Seq<char>) -> bool {
    s.len() >= "http"@.len() && s.subrange(0, "http"@.len() as int) == "http"@
}

/// Reject cookie operations on urls that cannot carry cookies: a
/// `data:` url or the blank page. Anything else passes.
pub fn validate_cookie_url(url: &str) -> (r: Result<(), CdpError>)
    ensures
        r is Ok <==> cookie_url_ok(url@),
        !cookie_url_ok(url@) ==> r matches Err(CdpError::Msg(_)),
{
    if str_starts_with(url, "data:") {
        Err(CdpError::Msg("Data URL page can not have cookie".to_owned()))
    } else if str_eq(url, "about:blank") {
        Err(CdpError::Msg("Blank page can not have cookie".to_owned()))
    } else {
        Ok(())
    }
}

/// A cookie to set, with the url it belongs to.
#[derive(Debug)]
pub struct CookieParam {
    pub name: String,
    pub value: String,
    pub url: Option<String>,
}

/// A cookie to delete, by name and url.
#[derive(Debug)]
pub struct DeleteCookiesRequest {
    pub name: String,
    pub url: Option<String>,
}

impl DeleteCookiesRequest {
    /// The deletion that undoes setting the given cookie.
    pub fn from_cookie(c: &CookieParam) -> (r: Self)
        ensures
            r.name@ == c.name@,
            (match (r.url, c.url) {
                (Some(ru), Some(cu)) => ru@ == cu@,
                (None, None) => true,
                _ => false,
            }),
    {
        DeleteCookiesRequest {
            name: c.name.clone(),
            url: match &c.url {
                Some(u) => Some(u.clone()),
                None => None,
            },
        }
    }
}

/// Check one cookie against the page it is set from and fill in its
/// url: a cookie with a url must pass validation; one without takes
/// the page's url when that is absolute.
pub fn prepare_cookie(cookie: CookieParam, page_url: Option<&str>) -> (r: Result<
    CookieParam,
    CdpError,
>)
    ensures
        (match cookie.url {
            Some(u) => {
                if cookie_url_ok(u@) {
                    r matches Ok(c) && c.name@ == cookie.name@ && c.value@ == cookie.value@
                        && (c.url matches Some(cu) && cu@ == u@)
                } else {
                    r is Err
                }
            },
            None => match page_url {
                Some(p) => {
                    if cookie_url_ok(p@) {
                        r matches Ok(c) && c.name@ == cookie.name@ && c.value@ == cookie.value@
                            && (if is_http_url(p@) {
                            c.url matches Some(cu) && cu@ == p@
                        } else {
                            c.url is None
                        })
                    } else {
                        r is Err
                    }
                },
                None => r is Err,
            },
        }),
{
    match &cookie.url {
        Some(u) => {
            let u2: String = u.clone();
            match validate_cookie_url(u2.as_str()) {
                Ok(_) => Ok(cookie),
                Err(e) => Err(e),
            }
        },
        None => {
            match page_url {
                Some(p) => {
                    match validate_cookie_url(p) {
                        Ok(_) => {
                            if str_starts_with(p, "http") {
                                Ok(
                                    CookieParam {
                                        name: cookie.name,
                                        value: cookie.value,
                                        url: Some(p.to_owned()),
                                    },
                                )
                            } else {
                                Ok(cookie)
                            }
                        },
                        Err(e) => Err(e),
                    }
                },
                None => Err(CdpError::Msg("Page url not found".to_owned())),
            }
        },
    }
}

/// Check a batch of cookies against the page they are set from and
/// fill in missing urls, as setting them all at once requires.
pub fn prepare_cookies(cookies: Vec<CookieParam>, page_url: Option<String>) -> (r: Result<
    Vec<CookieParam>,
    CdpError,
>)
    ensures
        page_url is None ==> r is Err,
        page_url matches Some(p) && !is_http_url(p@) && !cookie_url_ok(p@) ==> r is Err,
        r matches Ok(out) ==> out@.len() == cookies@.len(),
        r matches Ok(out) ==> forall|i: int|
            0 <= i < cookies@.len() ==> {
                let c = #[trigger] cookies@[i];
                let o = out@[i];
                &&& o.name@ == c.name@
                &&& o.value@ == c.value@
                &&& (match c.url {
                    Some(u) => cookie_url_ok(u@) && (o.url matches Some(ou) && ou@ == u@),
                    None => (match page_url {
                        Some(p) => (if is_http_url(p@) {
                            o.url matches Some(ou) && ou@ == p@
                        } else {
                            o.url is None
                        }),
                        None => false,
                    }),
                })
            },
{
    let p = match page_url {
        Some(p) => p,
        None => {
            return Err(CdpError::Msg("Page url not found".to_owned()));
        },
    };
    let is_http = str_starts_with(p.as_str(), "http");
    if !is_http {
        match validate_cookie_url(p.as_str()) {
            Ok(_) => {},
            Err(e) => {
                return Err(e);
            },
        }
    }
    let mut out: Vec<CookieParam> = Vec::new();
    let n = cookies.len();
    let mut cookies = cookies;
    let ghost orig = cookies@;
    let mut i: usize = 0;
    while i < n
        invariant
            i <= n,
            n == cookies@.len(),
            cookies@ == orig,
            out@.len() == i,
            is_http == is_http_url(p@),
            forall|k: int|
                0 <= k < i ==> {
                    let c = #[trigger] orig[k];
                    let o = out@[k];
                    &&& o.name@ == c.name@
                    &&& o.value@ == c.value@
                    &&& (match c.url {
                        Some(u) => cookie_url_ok(u@) && (o.url matches Some(ou) && ou@ == u@),
                        None => (if is_http_url(p@) {
                            o.url matches Some(ou) && ou@ == p@
                        } else {
                            o.url is None
                        }),
                    })
                },
        decreases n - i,
    {
        let c = &cookies[i];
        match &c.url {
            Some(u) => {
                match validate_cookie_url(u.as_str()) {
                    Ok(_) => {
                        out.push(
                            CookieParam {
                                name: c.name.clone(),
                                value: c.value.clone(),
                                url: Some(u.clone()),
                            },
                        );
                    },
                    Err(e) => {
                        return Err(e);
                    },
                }
            },
            None => {
                if is_http {
                    out.push(
                        CookieParam {
                            name: c.name.clone(),
                            value: c.value.clone(),
                            url: Some(p.clone()),
                        },
                    );
                } else {
                    out.push(
                        CookieParam { name: c.name.clone(), value: c.value.clone(), url: None },
                    );
                }
            },
        }
        i = i + 1;
    }
    Ok(out)
}

/// Fill a deletion's url from the page when it has none and the page's
/// url is absolute.
pub fn prepare_delete_cookie(cookie: DeleteCookiesRequest, page_url: Option<&str>) -> (r:
    DeleteCookiesRequest)
    ensures
        r.name@ == cookie.name@,
        (match cookie.url {
            Some(u) => r.url matches Some(ru) && ru@ == u@,
            None => (match page_url {
                Some(p) => (if is_http_url(p@) {
                    r.url matches Some(ru) && ru@ == p@
                } else {
                    r.url is None
                }),
                None => r.url is None,
            }),
        }),
{
    match cookie.url {
        Some(u) => DeleteCookiesRequest { name: cookie.name, url: Some(u) },
        None => {
            match page_url {
                Some(p) => {
                    if str_starts_with(p, "http") {
                        DeleteCookiesRequest { name: cookie.name, url: Some(p.to_owned()) }
                    } else {
                        DeleteCookiesRequest { name: cookie.name, url: None }
                    }
                },
                None => DeleteCookiesRequest { name: cookie.name, url: None },
            }
        },
    }
}

/// Fill a batch of deletions from the page's url. As soon as one
/// deletion lacks a url, the page's url is needed: without one the
/// whole batch is refused.
pub fn prepare_delete_cookies(
    cookies: Vec<DeleteCookiesRequest>,
    page_url: Option<String>,
) -> (r: Result<Vec<DeleteCookiesRequest>, CdpError>)
    ensures
        (r matches Err(CdpError::Msg(_))) <==> (page_url is None && exists|i: int|
            0 <= i < cookies@.len() && (#[trigger] cookies@[i]).url is None),
        r matches Ok(out) ==> out@.len() == cookies@.len(),
        r matches Ok(out) ==> forall|i: int|
            0 <= i < cookies@.len() ==> {
                let c = #[trigger] cookies@[i];
                let o = out@[i];
                &&& o.name@ == c.name@
                &&& (match c.url {
                    Some(u) => o.url matches Some(ou) && ou@ == u@,
                    None => (match page_url {
                        Some(p) => (if is_http_url(p@) {
                            o.url matches Some(ou) && ou@ == p@
                        } else {
                            o.url is None
                        }),
                        None => false,
                    }),
                })
            },
{
    let mut out: Vec<DeleteCookiesRequest> = Vec::new();
    let n = cookies.len();
    let ghost orig = cookies@;
    let mut i: usize = 0;
    while i < n
        invariant
            i <= n,
            n == cookies@.len(),
            cookies@ == orig,
            out@.len() == i,
            forall|k: int|
                0 <= k < i ==> {
                    let c = #[trigger] orig[k];
                    let o = out@[k];
                    &&& o.name@ == c.name@
                    &&& (match c.url {
                        Some(u) => o.url matches Some(ou) && ou@ == u@,
                        None => (match page_url {
                            Some(p) => (if is_http_url(p@) {
                                o.url matches Some(ou) && ou@ == p@
                            } else {
                                o.url is None
                            }),
                            None => false,
                        }),
                    })
                },
            page_url is None ==> forall|k: int| 0 <= k < i ==> (#[trigger] orig[k]).url is Some,
        decreases n - i,
    {
        let c = &cookies[i];
        let url: Option<String> = match &c.url {
            Some(u) => Some(u.clone()),
            None => {
                match &page_url {
                    Some(p) => {
                        if str_starts_with(p.as_str(), "http") {
                            Some(p.clone())
                        } else {
                            None
                        }
                    },
                    None => {
                        proof {
                            assert(0 <= i < cookies@.len() && (#[trigger] cookies@[i as int]).url
                                is None);
                        }
                        return Err(CdpError::Msg("Page url not found".to_owned()));
                    },
                }
            },
        };
        out.push(DeleteCookiesRequest { name: c.name.clone(), url });
        i = i + 1;
    }
    Ok(out)
}

/// What a finished navigation call amounts to: the browser reports a
/// failed navigation through `errorText`, anything else succeeded.
pub fn goto_outcome(error_text: Option<String>) -> (r: Result<(), CdpError>)
    ensures
        (match error_text {
            Some(err) => r matches Err(CdpError::ChromeMessage(m)) && m@ == err@,
            None => r is Ok,
        }),
{
    match error_text {
        Some(err) => Err(CdpError::ChromeMessage(err)),
        None => Ok(()),
    }
}

/// Decode a serialized string literal: its quotes drop, and only
/// unescaped text is accepted.
pub fn decode_string_literal(s: &str) -> (r: Option<String>)
    ensures
        match r {
            Some(v) => s@.len() >= 2 && s@[0] == '"' && s@[s@.len() - 1] == '"' && v@
                == s@.subrange(1, s@.len() - 1) && plain_text(v@),
            None => !decode_ok(s@),
        },
{
    let n = s.unicode_len();
    if n < 2 {
        return None;
    }
    if s.get_char(0) != '"' || s.get_char(n - 1) != '"' {
        return None;
    }
    let mut i: usize = 1;
    while i < n - 1
        invariant
            1 <= i <= n - 1,
            n == s@.len(),
            n >= 2,
            forall|k: int| 1 <= k < i ==> s@[k] != '"' && s@[k] != '\\',
        decreases n - i,
    {
        let c = s.get_char(i);
        if c == '"' || c == '\\' {
            return None;
        }
        i = i + 1;
    }
    let v = substring(s, 1, n - 1);
    Some(v)
}

/// What the title evaluation amounts to: no value is a failure, an
/// empty title is no title, anything else is the title.
pub fn title_outcome(value: Option<String>) -> (r: Result<Option<String>, CdpError>)
    ensures
        (match value {
            Some(v) => decode_ok(v@) ==> (r matches Ok(t) && (if v@.len() == 2 {
                t is None
            } else {
                t matches Some(title) && title@ == v@.subrange(1, v@.len() - 1)
            })),
            None => r matches Err(CdpError::Msg(_)),
        }),
{
    let v = match value {
        Some(v) => v,
        None => {
            return Err(CdpError::Msg("No title found".to_owned()));
        },
    };
    match decode_string_literal(v.as_str()) {
        Some(title) => {
            if title.as_str().unicode_len() == 0 {
                Ok(None)
            } else {
                Ok(Some(title))
            }
        },
        None => Err(CdpError::Serde),
    }
}

/// A serialized string literal that decodes: quoted, with plain text
/// between the quotes.
pub open spec fn decode_ok(s: Seq<char>) -> bool {
    s.len() >= 2 && s[0] == '"' && s[s.len() - 1] == '"' && (forall|k: int|
        1 <= k < s.len() - 1 ==> s[k] != '"' && s[k] != '\\')
}

/// The caller's face of one target: it knows where its messages go and
/// builds them; the embedding carries them over the channel.
#[derive(Debug)]
pub struct Page {
    pub target_id: String,
    pub session_id: String,
}

impl Page {
    pub fn new(target_id: String, session_id: String) -> (r: Self)
        ensures
            r.target_id@ == target_id@,
            r.session_id@ == session_id@,
    {
        Page { target_id, session_id }
    }

    /// The identifier of the target this page belongs to.
    pub fn target_id(&self) -> (r: &String)
        ensures
            r@ == self.target_id@,
    {
        &self.target_id
    }

    /// The identifier of the session this page is attached through.
    pub fn session_id(&self) -> (r: &String)
        ensures
            r@ == self.session_id@,
    {
        &self.session_id
    }

    /// The message that submits a command from this page, carrying the
    /// page's session so the browser routes it to the right target.
    pub fn execute(&self, method: String, params: String, waiter: WaiterId) -> (r: TargetMessage)
        ensures
            r matches TargetMessage::Command(cmd) && cmd.method@ == method@ && cmd.params@
                == params@ && cmd.waiter == waiter && (cmd.session_id matches Some(s) && s@
                == self.session_id@),
    {
        TargetMessage::Command(
            CommandMessage {
                method,
                params,
                session_id: Some(self.session_id.clone()),
                waiter,
            },
        )
    }

    /// The message that asks for the page's current url.
    pub fn url(&self, waiter: WaiterId) -> (r: TargetMessage)
        ensures
            r == TargetMessage::Url(waiter),
    {
        TargetMessage::Url(waiter)
    }

    /// The message that asks for the page's main frame.
    pub fn mainframe(&self, waiter: WaiterId) -> (r: TargetMessage)
        ensures
            r == TargetMessage::MainFrame(waiter),
    {
        TargetMessage::MainFrame(waiter)
    }

    /// The message that resolves once the page finished loading.
    pub fn wait_for_navigation(&self, waiter: WaiterId) -> (r: TargetMessage)
        ensures
            r == TargetMessage::WaitForNavigation(waiter),
    {
        TargetMessage::WaitForNavigation(waiter)
    }
}

} // verus!
