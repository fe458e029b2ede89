//! The builder of a node.

use std::time::Duration;
use vstd::prelude::*;
use crate::error::InternalError;
use crate::rest_api::{RestApiBind, RestApiBuilder, RunnableRestApi};
use crate::text::{decimal, decimal_string, join2};

verus! {

/// The REST API backends that a node can run.
#[derive(Clone, Copy, Debug, PartialEq, Eq, Structural)]
pub enum RestApiVariant {
    /// Actix Web 1 as the backend.
    ActixWeb1,
    /// Actix Web 3 as the backend.
    ActixWeb3,
}

/// The REST API of a node that was built: the backend with what it needs
/// to start.
pub enum RunnableNodeRestApiVariant {
    ActixWeb1(RestApiBind),
    ActixWeb3(RunnableRestApi),
}

/// A node that is fully configured and not yet started.
pub struct RunnableNode {
    pub node_id: String,
    pub rest_api: RunnableNodeRestApiVariant,
    /// The timeout of admin requests; the default where none was set.
    pub admin_timeout: Option<Duration>,
    /// The heartbeat interval between peers; the default where none was
    /// set.
    pub heartbeat_interval: Option<Duration>,
    pub strict_ref_counts: bool,
    pub network_endpoints: Option<Vec<String>>,
}

/// Constructs a [`RunnableNode`].
pub struct NodeBuilder {
    node_id: Option<String>,
    rest_api_port: Option<u32>,
    rest_api_variant: RestApiVariant,
    admin_timeout: Option<Duration>,
    heartbeat_interval: Option<Duration>,
    strict_ref_counts: bool,
    network_endpoints: Option<Vec<String>>,
}

/// What a builder holds, as a value.
pub struct BuilderView {
    pub node_id: Option<Seq<char>>,
    pub rest_api_port: Option<u32>,
    pub rest_api_variant: RestApiVariant,
    pub admin_timeout: Option<Duration>,
    pub heartbeat_interval: Option<Duration>,
    pub strict_ref_counts: bool,
    pub network_endpoints: Option<Seq<Seq<char>>>,
}

/// The address that the REST API of a node binds to: the loopback
/// interface, at the configured port or at port 0 where none was set.
pub open spec fn bind_url_text(port: Option<u32>) -> Seq<char> {
    "127.0.0.1:"@ + decimal(
        match port {
            Some(p) => p as nat,
            None => 0,
        },
    )
}

/// The identifier of a node that was given none: the letter `n` and a
/// number.
pub open spec fn default_node_id_text(number: u16) -> Seq<char> {
    "n"@ + decimal(number as nat)
}

/// The identifier that a node is built with: the configured one, or the
/// default made of `fallback`.
pub open spec fn node_id_text(configured: Option<Seq<char>>, fallback: u16) -> Seq<char> {
    match configured {
        Some(id) => id,
        None => default_node_id_text(fallback),
    }
}

/// The texts of a list of strings.
pub open spec fn texts(list: Option<Vec<String>>) -> Option<Seq<Seq<char>>> {
    match list {
        Some(v) => Some(v.deep_view()),
        None => None,
    }
}

impl RunnableNodeRestApiVariant {
    /// The backend.
    pub open spec fn variant(self) -> RestApiVariant {
        match self {
            RunnableNodeRestApiVariant::ActixWeb1(_) => RestApiVariant::ActixWeb1,
            RunnableNodeRestApiVariant::ActixWeb3(_) => RestApiVariant::ActixWeb3,
        }
    }

    /// The bind of the backend.
    pub open spec fn bind(self) -> RestApiBind {
        match self {
            RunnableNodeRestApiVariant::ActixWeb1(bind) => bind,
            RunnableNodeRestApiVariant::ActixWeb3(api) => api.bind(),
        }
    }
}

/// `rand::thread_rng().gen::<u16>()`: a number drawn at random. Nothing
/// is known of it.
#[verifier::external_body]
fn random_u16() -> (r: u16) {
    rand::Rng::gen::<u16>(&mut rand::thread_rng())
}

/// The default identifier of a node, made of `number`.
pub fn default_node_id(number: u16) -> (r: String)
    ensures
        r@ == default_node_id_text(number),
{
    let digits = decimal_string(number as u64);
    join2("n", digits.as_str())
}

/// The address that the REST API binds to for the configured port.
pub fn bind_url(port: Option<u32>) -> (r: String)
    ensures
        r@ == bind_url_text(port),
{
    let number: u64 = match port {
        Some(p) => p as u64,
        None => 0,
    };
    let digits = decimal_string(number);
    join2("127.0.0.1:", digits.as_str())
}

impl View for NodeBuilder {
    type V = BuilderView;

    closed spec fn view(&self) -> BuilderView {
        BuilderView {
            node_id: match self.node_id {
                Some(id) => Some(id@),
                None => None,
            },
            rest_api_port: self.rest_api_port,
            rest_api_variant: self.rest_api_variant,
            admin_timeout: self.admin_timeout,
            heartbeat_interval: self.heartbeat_interval,
            strict_ref_counts: self.strict_ref_counts,
            network_endpoints: texts(self.network_endpoints),
        }
    }
}

impl Default for NodeBuilder {
    fn default() -> (r: Self)
        ensures
            r@ == NodeBuilder::initial(),
    {
        NodeBuilder::new()
    }
}

impl NodeBuilder {
    /// What a new builder holds: no identifier, no port, the first
    /// backend, the default timings, lenient reference counts and no
    /// endpoints.
    pub open spec fn initial() -> BuilderView {
        BuilderView {
            node_id: None,
            rest_api_port: None,
            rest_api_variant: RestApiVariant::ActixWeb1,
            admin_timeout: None,
            heartbeat_interval: None,
            strict_ref_counts: false,
            network_endpoints: None,
        }
    }

    /// Whether `node` is what a builder that holds `builder` builds, with
    /// `fallback` as the number of the default identifier.
    pub open spec fn builds(builder: BuilderView, fallback: u16, node: RunnableNode) -> bool {
        &&& node.node_id@ == node_id_text(builder.node_id, fallback)
        &&& node.rest_api.variant() == builder.rest_api_variant
        &&& node.rest_api.bind() matches RestApiBind::Insecure(url) && url@ == bind_url_text(
            builder.rest_api_port,
        )
        &&& node.rest_api matches RunnableNodeRestApiVariant::ActixWeb3(api)
            ==> api.resource_providers().len() == 0
        &&& node.admin_timeout == builder.admin_timeout
        &&& node.heartbeat_interval == builder.heartbeat_interval
        &&& node.strict_ref_counts == builder.strict_ref_counts
        &&& texts(node.network_endpoints) == builder.network_endpoints
    }

    /// A builder with nothing configured.
    pub fn new() -> (r: Self)
        ensures
            r@ == Self::initial(),
    {
        NodeBuilder {
            node_id: None,
            rest_api_port: None,
            rest_api_variant: RestApiVariant::ActixWeb1,
            admin_timeout: None,
            heartbeat_interval: None,
            strict_ref_counts: false,
            network_endpoints: None,
        }
    }

    /// Sets the identifier of the node. Without one the node gets a
    /// random default.
    pub fn with_node_id(self, node_id: String) -> (r: Self)
        ensures
            r@ == (BuilderView { node_id: Some(node_id@), ..self@ }),
    {
        NodeBuilder { node_id: Some(node_id), ..self }
    }

    /// Sets the timeout of admin requests.
    pub fn with_admin_timeout(self, admin_timeout: Duration) -> (r: Self)
        ensures
            r@ == (BuilderView { admin_timeout: Some(admin_timeout), ..self@ }),
    {
        NodeBuilder { admin_timeout: Some(admin_timeout), ..self }
    }

    /// Sets the heartbeat interval between peer connections.
    pub fn with_heartbeat_interval(self, heartbeat_interval: Duration) -> (r: Self)
        ensures
            r@ == (BuilderView { heartbeat_interval: Some(heartbeat_interval), ..self@ }),
    {
        NodeBuilder { heartbeat_interval: Some(heartbeat_interval), ..self }
    }

    /// Sets whether the peer manager counts references strictly.
    pub fn with_strict_ref_counts(self, strict_ref_counts: bool) -> (r: Self)
        ensures
            r@ == (BuilderView { strict_ref_counts, ..self@ }),
    {
        NodeBuilder { strict_ref_counts, ..self }
    }

    /// Sets the port that the REST API binds to.
    pub fn with_rest_api_port(self, port: u32) -> (r: Self)
        ensures
            r@ == (BuilderView { rest_api_port: Some(port), ..self@ }),
    {
        NodeBuilder { rest_api_port: Some(port), ..self }
    }

    /// Sets the backend of the REST API.
    pub fn with_rest_api_variant(self, variant: RestApiVariant) -> (r: Self)
        ensures
            r@ == (BuilderView { rest_api_variant: variant, ..self@ }),
    {
        NodeBuilder { rest_api_variant: variant, ..self }
    }

    /// Sets the network endpoints of the node.
    pub fn with_network_endpoints(self, network_endpoints: Vec<String>) -> (r: Self)
        ensures
            r@ == (BuilderView {
                network_endpoints: Some(network_endpoints.deep_view()),
                ..self@
            }),
    {
        NodeBuilder { network_endpoints: Some(network_endpoints), ..self }
    }

    /// Builds the node, with `fallback` as the number of the default
    /// identifier. The build cannot fail: the one field that the REST API
    /// requires, the bind, is always set.
    pub fn build_with(self, fallback: u16) -> (r: Result<RunnableNode, InternalError>)
        ensures
            r matches Ok(node) && Self::builds(self@, fallback, node),
    {
        let url = bind_url(self.rest_api_port);
        let node_id = match self.node_id {
            Some(id) => id,
            None => default_node_id(fallback),
        };
        let rest_api = match self.rest_api_variant {
            RestApiVariant::ActixWeb1 => RunnableNodeRestApiVariant::ActixWeb1(
                RestApiBind::Insecure(url),
            ),
            RestApiVariant::ActixWeb3 => {
                match RestApiBuilder::new().with_bind(RestApiBind::Insecure(url)).build() {
                    Ok(api) => RunnableNodeRestApiVariant::ActixWeb3(api),
                    Err(e) => {
                        return Err(InternalError::with_message(e.to_string()));
                    },
                }
            },
        };
        Ok(
            RunnableNode {
                node_id,
                rest_api,
                admin_timeout: self.admin_timeout,
                heartbeat_interval: self.heartbeat_interval,
                strict_ref_counts: self.strict_ref_counts,
                network_endpoints: self.network_endpoints,
            },
        )
    }

    /// Builds the node. A node without a configured identifier gets the
    /// default identifier of a number drawn at random.
    pub fn build(self) -> (r: Result<RunnableNode, InternalError>)
        ensures
            r matches Ok(node) && exists|fallback: u16| Self::builds(self@, fallback, node),
    {
        let fallback = random_u16();
        self.build_with(fallback)
    }
}

} // verus!
