//! A REST API server that is fully configured and not yet started.

use vstd::prelude::*;
use crate::rest_api::{ResourceProvider, RestApiBind};

verus! {

/// The certificate chain and the private key of a TLS server, by path.
#[derive(Clone, Debug, PartialEq, Eq)]
pub struct TlsFiles {
    pub cert_path: String,
    pub key_path: String,
}

/// What a server does to bind: the address, and the TLS files where it
/// binds with TLS.
#[derive(Clone, Debug, PartialEq, Eq)]
pub struct BindPlan {
    pub url: String,
    pub tls: Option<TlsFiles>,
}

/// The bind plan of a bind configuration.
pub open spec fn plan_of(bind: RestApiBind) -> BindPlan {
    match bind {
        RestApiBind::Secure { bind, cert_path, key_path } => BindPlan {
            url: bind,
            tls: Some(TlsFiles { cert_path, key_path }),
        },
        RestApiBind::Insecure(url) => BindPlan { url, tls: None },
    }
}

/// A configured REST API server.
pub struct RunnableRestApi {
    resource_providers: Vec<Box<dyn ResourceProvider>>,
    bind: RestApiBind,
}

impl RunnableRestApi {
    /// The bind of the server.
    pub closed spec fn bind(&self) -> RestApiBind {
        self.bind
    }

    /// The resource providers of the server, in their order.
    pub closed spec fn resource_providers(&self) -> Seq<Box<dyn ResourceProvider>> {
        self.resource_providers@
    }

    pub(crate) fn new(bind: RestApiBind, resource_providers: Vec<Box<dyn ResourceProvider>>) -> (r:
        RunnableRestApi)
        ensures
            r.bind() == bind,
            r.resource_providers() == resource_providers@,
    {
        RunnableRestApi { resource_providers, bind }
    }

    /// How many resource providers the server has.
    pub fn provider_count(&self) -> (r: usize)
        ensures
            r == self.resource_providers().len(),
    {
        self.resource_providers.len()
    }

    /// Takes the server apart into what is needed to start it: the bind
    /// plan and the resource providers in their order. A secure bind
    /// plans TLS with its two files; an insecure one plans none.
    pub fn into_parts(self) -> (r: (BindPlan, Vec<Box<dyn ResourceProvider>>))
        ensures
            r.0 == plan_of(self.bind()),
            r.1@ == self.resource_providers(),
    {
        let plan = match self.bind {
            RestApiBind::Secure { bind, cert_path, key_path } => BindPlan {
                url: bind,
                tls: Some(TlsFiles { cert_path, key_path }),
            },
            RestApiBind::Insecure(url) => BindPlan { url, tls: None },
        };
        (plan, self.resource_providers)
    }
}

} // verus!
