//! The builder of a REST API server.

use vstd::prelude::*;
use crate::rest_api::{ResourceProvider, RestApiBind, RestApiServerError, RunnableRestApi};

verus! {

/// Collects the configuration of a REST API server. The bind is
/// required; resource providers are optional and keep the order in which
/// they were added.
pub struct RestApiBuilder {
    resource_providers: Vec<Box<dyn ResourceProvider>>,
    bind: Option<RestApiBind>,
}

impl Default for RestApiBuilder {
    fn default() -> (r: Self)
        ensures
            r.bind() is None,
            r.resource_providers() == Seq::<Box<dyn ResourceProvider>>::empty(),
    {
        Self { resource_providers: Vec::new(), bind: None }
    }
}

impl RestApiBuilder {
    /// The bind configured so far.
    pub closed spec fn bind(&self) -> Option<RestApiBind> {
        self.bind
    }

    /// The providers added so far, in the order in which they were added.
    pub closed spec fn resource_providers(&self) -> Seq<Box<dyn ResourceProvider>> {
        self.resource_providers@
    }

    /// A builder with nothing configured.
    pub fn new() -> (r: Self)
        ensures
            r.bind() is None,
            r.resource_providers() == Seq::<Box<dyn ResourceProvider>>::empty(),
    {
        Self { resource_providers: Vec::new(), bind: None }
    }

    /// Sets the bind, replacing an earlier one.
    pub fn with_bind(self, value: RestApiBind) -> (r: Self)
        ensures
            r.bind() == Some(value),
            r.resource_providers() == self.resource_providers(),
    {
        Self { resource_providers: self.resource_providers, bind: Some(value) }
    }

    /// Adds one resource provider behind those added before.
    pub fn add_resource_provider(self, resource_provider: Box<dyn ResourceProvider>) -> (r: Self)
        ensures
            r.bind() == self.bind(),
            r.resource_providers() == self.resource_providers().push(resource_provider),
    {
        let mut resource_providers = self.resource_providers;
        resource_providers.push(resource_provider);
        Self { resource_providers, bind: self.bind }
    }

    /// The server that can be run, with the bind and the providers as
    /// configured. Without a bind the build fails and names the field.
    pub fn build(self) -> (r: Result<RunnableRestApi, RestApiServerError>)
        ensures
            match r {
                Ok(api) => self.bind() == Some(api.bind()) && api.resource_providers()
                    == self.resource_providers(),
                Err(RestApiServerError::MissingField(field)) => self.bind() is None && field@
                    == "bind"@,
                Err(_) => false,
            },
    {
        match self.bind {
            Some(bind) => Ok(RunnableRestApi::new(bind, self.resource_providers)),
            None => Err(RestApiServerError::MissingField("bind".to_owned())),
        }
    }
}

} // verus!
