//! The protocol-version middleware of the REST API: a wrapper around a
//! service that announces each request and each response.

use vstd::prelude::*;
use crate::text::join2;

verus! {

/// The factory of the middleware.
pub struct ProtocolVersionCheck;

/// A service wrapped by the middleware.
pub struct ProtocolVersionCheckMiddleware<S> {
    service: S,
}

/// The notice written when a request for `path` comes in.
pub open spec fn request_notice_text(path: Seq<char>) -> Seq<char> {
    "Hi from start. You requested: "@ + path
}

/// The notice written when the response is ready.
pub open spec fn response_notice_text() -> Seq<char> {
    "Hi from response"@
}

impl ProtocolVersionCheck {
    pub fn new() -> (r: Self) {
        ProtocolVersionCheck {  }
    }

    /// Wraps `service`.
    pub fn new_transform<S>(&self, service: S) -> (r: ProtocolVersionCheckMiddleware<S>)
        ensures
            r.service() == service,
    {
        ProtocolVersionCheckMiddleware { service }
    }
}

impl<S> ProtocolVersionCheckMiddleware<S> {
    /// The wrapped service.
    pub closed spec fn service(&self) -> S {
        self.service
    }

    /// The wrapped service, to hand a request on to.
    pub fn get_mut(&mut self) -> (r: &mut S)
        ensures
            *r == old(self).service(),
            final(self).service() == *final(r),
    {
        &mut self.service
    }

    /// Gives the wrapped service back.
    pub fn into_inner(self) -> (r: S)
        ensures
            r == self.service(),
    {
        self.service
    }

    /// The notice for a request for `path`.
    pub fn request_notice(&self, path: &str) -> (r: String)
        ensures
            r@ == request_notice_text(path@),
    {
        join2("Hi from start. You requested: ", path)
    }

    /// The notice for a response.
    pub fn response_notice(&self) -> (r: String)
        ensures
            r@ == response_notice_text(),
    {
        "Hi from response".to_owned()
    }
}

} // verus!
