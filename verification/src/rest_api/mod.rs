//! The configuration of the REST API server: where it binds, what it
//! serves, and the steps from a builder to a server that can be run.

pub mod builder;
pub mod runnable;
pub mod version;

use vstd::prelude::*;
use crate::text::join2;

pub use builder::RestApiBuilder;
pub use runnable::{BindPlan, RunnableRestApi, TlsFiles};
pub use version::{ProtocolVersionCheck, ProtocolVersionCheckMiddleware};

verus! {

/// Where and how the REST API server binds.
#[derive(Clone, Debug, PartialEq, Eq)]
pub enum RestApiBind {
    /// Bind with TLS, using the certificate and the key at these paths.
    Secure { bind: String, cert_path: String, key_path: String },
    /// Bind without TLS.
    Insecure(String),
}

/// Why the REST API server could not be built or started.
#[derive(Clone, Debug, PartialEq, Eq)]
pub enum RestApiServerError {
    BindError(String),
    StartUpError(String),
    MissingField(String),
}

/// One REST resource, known by the route that it is mounted at.
#[derive(Clone, Debug, PartialEq, Eq)]
pub struct Resource {
    pub route: String,
}

/// A source of the resources that a server mounts when it starts.
pub trait ResourceProvider: Send {
    fn resources(&self) -> (r: Vec<Resource>)
    ;
}

/// The text of each error.
pub open spec fn server_error_text(error: RestApiServerError) -> Seq<char> {
    match error {
        RestApiServerError::BindError(m) => "Bind error: "@ + m@,
        RestApiServerError::StartUpError(m) => "Start-up error: "@ + m@,
        RestApiServerError::MissingField(m) => "Missing required field: "@ + m@,
    }
}

impl RestApiServerError {
    /// The text of the error.
    pub fn to_string(&self) -> (r: String)
        ensures
            r@ == server_error_text(*self),
    {
        match self {
            RestApiServerError::BindError(m) => join2("Bind error: ", m.as_str()),
            RestApiServerError::StartUpError(m) => join2("Start-up error: ", m.as_str()),
            RestApiServerError::MissingField(m) => join2("Missing required field: ", m.as_str()),
        }
    }
}

} // verus!
