use splinter_transport::error::InternalError;
use splinter_transport::node::builder::{bind_url, default_node_id};
use splinter_transport::node::{
    Node, NodeBuilder, RestApiVariant, RunnableNodeRestApiVariant, ShutdownLog,
};
use splinter_transport::rest_api::{
    BindPlan, ProtocolVersionCheck, Resource, ResourceProvider, RestApiBind, RestApiBuilder,
    RestApiServerError, TlsFiles,
};
use std::time::Duration;

struct Routes(Vec<&'static str>);

impl ResourceProvider for Routes {
    fn resources(&self) -> Vec<Resource> {
        self.0.iter().map(|route| Resource { route: route.to_string() }).collect()
    }
}

#[test]
fn rest_api_builder_needs_a_bind() {
    match RestApiBuilder::new().build() {
        Err(RestApiServerError::MissingField(field)) => assert_eq!(field, "bind"),
        Err(other) => panic!("unexpected error {:?}", other),
        Ok(_) => panic!("built without a bind"),
    }
    match RestApiBuilder::default().add_resource_provider(Box::new(Routes(vec!["/a"]))).build() {
        Err(RestApiServerError::MissingField(field)) => assert_eq!(field, "bind"),
        Err(other) => panic!("unexpected error {:?}", other),
        Ok(_) => panic!("built without a bind"),
    }
}

#[test]
fn rest_api_builder_keeps_bind_and_providers() {
    let api = RestApiBuilder::new()
        .add_resource_provider(Box::new(Routes(vec!["/first"])))
        .with_bind(RestApiBind::Insecure("ignored:1".into()))
        .with_bind(RestApiBind::Insecure("127.0.0.1:8080".into()))
        .add_resource_provider(Box::new(Routes(vec!["/second", "/third"])))
        .build()
        .ok()
        .unwrap();
    assert_eq!(api.provider_count(), 2);
    let (plan, providers) = api.into_parts();
    assert_eq!(plan, BindPlan { url: "127.0.0.1:8080".to_string(), tls: None });
    assert_eq!(providers.len(), 2);
    assert_eq!(providers[0].resources(), vec![Resource { route: "/first".to_string() }]);
    assert_eq!(providers[1].resources().len(), 2);
}

#[test]
fn rest_api_secure_bind_plans_tls() {
    let bind = RestApiBind::Secure {
        bind: "0.0.0.0:443".to_string(),
        cert_path: "/etc/cert.pem".to_string(),
        key_path: "/etc/key.pem".to_string(),
    };
    let api = RestApiBuilder::new().with_bind(bind).build().ok().unwrap();
    let (plan, providers) = api.into_parts();
    assert_eq!(
        plan,
        BindPlan {
            url: "0.0.0.0:443".to_string(),
            tls: Some(TlsFiles {
                cert_path: "/etc/cert.pem".to_string(),
                key_path: "/etc/key.pem".to_string(),
            }),
        }
    );
    assert!(providers.is_empty());
}

#[test]
fn rest_api_error_texts() {
    assert_eq!(
        RestApiServerError::MissingField("bind".to_string()).to_string(),
        "Missing required field: bind"
    );
    assert_eq!(RestApiServerError::BindError("x".to_string()).to_string(), "Bind error: x");
    assert_eq!(
        RestApiServerError::StartUpError("y".to_string()).to_string(),
        "Start-up error: y"
    );
}

#[test]
fn protocol_version_check_wraps_a_service() {
    let check = ProtocolVersionCheck::new();
    let mut middleware = check.new_transform(41u32);
    *middleware.get_mut() += 1;
    assert_eq!(
        middleware.request_notice("/admin/circuits"),
        "Hi from start. You requested: /admin/circuits"
    );
    assert_eq!(middleware.response_notice(), "Hi from response");
    assert_eq!(middleware.into_inner(), 42);
}

#[test]
fn node_builder_defaults() {
    let node = NodeBuilder::new().build_with(42).ok().unwrap();
    assert_eq!(node.node_id, "n42");
    match node.rest_api {
        RunnableNodeRestApiVariant::ActixWeb1(bind) => {
            assert_eq!(bind, RestApiBind::Insecure("127.0.0.1:0".to_string()))
        }
        RunnableNodeRestApiVariant::ActixWeb3(_) => panic!("the default backend is the first"),
    }
    assert_eq!(node.admin_timeout, None);
    assert_eq!(node.heartbeat_interval, None);
    assert!(!node.strict_ref_counts);
    assert_eq!(node.network_endpoints, None);
}

#[test]
fn node_builder_keeps_what_was_set() {
    let node = NodeBuilder::default()
        .with_node_id("alpha".to_string())
        .with_rest_api_port(8080)
        .with_rest_api_variant(RestApiVariant::ActixWeb3)
        .with_admin_timeout(Duration::from_secs(5))
        .with_heartbeat_interval(Duration::from_secs(7))
        .with_strict_ref_counts(true)
        .with_network_endpoints(vec!["tcp://127.0.0.1:0".to_string()])
        .build_with(1)
        .ok()
        .unwrap();
    assert_eq!(node.node_id, "alpha");
    match node.rest_api {
        RunnableNodeRestApiVariant::ActixWeb3(api) => {
            let (plan, providers) = api.into_parts();
            assert_eq!(plan, BindPlan { url: "127.0.0.1:8080".to_string(), tls: None });
            assert!(providers.is_empty());
        }
        RunnableNodeRestApiVariant::ActixWeb1(_) => panic!("the third backend was asked for"),
    }
    assert_eq!(node.admin_timeout, Some(Duration::from_secs(5)));
    assert_eq!(node.heartbeat_interval, Some(Duration::from_secs(7)));
    assert!(node.strict_ref_counts);
    assert_eq!(node.network_endpoints, Some(vec!["tcp://127.0.0.1:0".to_string()]));
}

#[test]
fn node_builder_draws_a_default_identifier() {
    let node = NodeBuilder::new().build().ok().unwrap();
    let id = node.node_id;
    assert!(id.starts_with('n'));
    let number: u32 = id[1..].parse().unwrap();
    assert!(number <= u32::from(u16::MAX));
    assert_eq!(id, default_node_id(number as u16));

    let node = NodeBuilder::new().with_node_id("fixed".to_string()).build().ok().unwrap();
    assert_eq!(node.node_id, "fixed");
}

#[test]
fn node_texts() {
    assert_eq!(default_node_id(0), "n0");
    assert_eq!(default_node_id(65535), "n65535");
    assert_eq!(bind_url(None), "127.0.0.1:0");
    assert_eq!(bind_url(Some(0)), "127.0.0.1:0");
    assert_eq!(bind_url(Some(8080)), "127.0.0.1:8080");
    assert_eq!(bind_url(Some(u32::MAX)), "127.0.0.1:4294967295");
}

#[test]
fn node_accessors() {
    let node = Node::new("alpha".to_string(), 8080, vec!["tcp://127.0.0.1:1".to_string()]);
    assert_eq!(node.node_id(), "alpha");
    assert_eq!(node.rest_api_port(), 8080);
    assert_eq!(node.network_endpoints(), ["tcp://127.0.0.1:1".to_string()]);
    assert_eq!(node.client_url(), "http://localhost:8080");
}

#[test]
fn shutdown_without_errors_succeeds() {
    let mut log = ShutdownLog::new();
    log.record(Ok(()));
    log.record(Ok(()));
    assert_eq!(log.len(), 0);
    assert_eq!(log.finish(), Ok(()));
}

#[test]
fn shutdown_with_one_error_returns_it() {
    let mut log = ShutdownLog::new();
    log.record(Ok(()));
    log.record(Err(InternalError::with_message("admin failed".to_string())));
    assert_eq!(log.len(), 1);
    assert_eq!(log.finish(), Err(InternalError::with_message("admin failed".to_string())));
}

#[test]
fn shutdown_with_several_errors_lists_them() {
    let mut log = ShutdownLog::new();
    log.record(Err(InternalError::with_message("REST API thread panicked, join() failed".to_string())));
    log.record(Err(InternalError::with_message("admin failed".to_string())));
    log.record(Ok(()));
    log.record(Err(InternalError::with_message("network failed".to_string())));
    let error = log.finish().unwrap_err();
    assert_eq!(
        error.to_string(),
        "Multiple errors occurred during shutdown: REST API thread panicked, join() failed, admin failed, network failed"
    );
    assert_eq!(error.message(), error.to_string());
}
