//! Frontend routing: which page a browser request is answered with, given
//! whether the service has any account yet and whether the request carries
//! valid credentials. Serving the pages themselves is the transport's
//! business.
use vstd::prelude::*;

verus! {

/// The request methods the frontend distinguishes.
#[derive(Clone, Copy, Debug, PartialEq, Eq, Structural)]
pub enum HttpMethod {
    Get,
    Post,
    Other,
}

/// Which page the request is answered with.
#[derive(Clone, Copy, Debug, PartialEq, Eq, Structural)]
pub enum Page {
    /// The application itself.
    Index,
    /// The login form.
    Login,
    /// The first-run form that creates the administrator account.
    Init,
}

/// The page for a request: before any account exists, a `GET` shows the
/// first-run form and a `POST` creates the administrator and enters the
/// application; afterwards, valid credentials show the application and
/// anything else the login form. Other methods fall through to the
/// application page.
pub open spec fn page_for(method: HttpMethod, initialized: bool, auth_ok: bool) -> Page {
    match method {
        HttpMethod::Get => if !initialized {
            Page::Init
        } else if auth_ok {
            Page::Index
        } else {
            Page::Login
        },
        HttpMethod::Post => if !initialized {
            Page::Index
        } else if auth_ok {
            Page::Index
        } else {
            Page::Login
        },
        HttpMethod::Other => Page::Index,
    }
}

/// The frontend router: whether at least one account exists.
pub struct Frontend {
    initialized: bool,
}

impl Frontend {
    /// Whether at least one account exists.
    pub closed spec fn initialized(self) -> bool {
        self.initialized
    }

    /// A frontend over a store that does or does not hold accounts yet.
    pub fn new(initialized: bool) -> (r: Frontend)
        ensures
            r.initialized() == initialized,
    {
        Frontend { initialized }
    }

    /// Answer one request. `auth_ok` says whether the request carried a
    /// valid session (for `GET`) or valid credentials (for `POST`). A `POST`
    /// before any account exists creates the administrator, so the frontend
    /// is initialized afterwards.
    pub fn call(&mut self, method: HttpMethod, auth_ok: bool) -> (r: Page)
        ensures
            r == page_for(method, old(self).initialized(), auth_ok),
            final(self).initialized() == (old(self).initialized() || method == HttpMethod::Post),
    {
        match method {
            HttpMethod::Get => {
                if !self.initialized {
                    Page::Init
                } else if auth_ok {
                    Page::Index
                } else {
                    Page::Login
                }
            },
            HttpMethod::Post => {
                if !self.initialized {
                    self.initialized = true;
                    Page::Index
                } else if auth_ok {
                    Page::Index
                } else {
                    Page::Login
                }
            },
            HttpMethod::Other => Page::Index,
        }
    }
}

} // verus!
