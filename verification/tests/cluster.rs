use ptp_fast_event_consumer::discovery::{
    discover_ptp_config, DiscoveryError, Environment, NodeLookup, PtpConfig, Scope, ServiceInfo,
};
use ptp_fast_event_consumer::subscription::{
    post_outcome, PostOutcome, resubscribe_to_ptp_events, subscribe_to_ptp_events, subscriptions_url, unsubscribe_url,
};

const CALLBACK: &str =
    "http://ptp-fast-event-consumer.ptp-consumer.svc.cluster.local:8080/api/events";

fn scope() -> Scope {
    Scope::of_environment(environment())
}

fn service(name: &str, cluster_ip: Option<&str>) -> ServiceInfo {
    ServiceInfo { name: name.to_string(), cluster_ip: cluster_ip.map(|ip| ip.to_string()) }
}

fn environment() -> Environment {
    Environment {
        node_name: Some("n1".to_string()),
        ptp_namespace: None,
        pod_namespace: None,
    }
}

fn publishers() -> Vec<ServiceInfo> {
    vec![service("ptp-event", Some("10.96.0.1"))]
}

fn consumers() -> Vec<ServiceInfo> {
    vec![service("ptp-fast-event-consumer", None)]
}

fn config() -> PtpConfig {
    discover_ptp_config(environment(), &publishers(), &consumers(), NodeLookup::Failed).unwrap()
}

#[test]
fn environment_has_defaults() {
    let defaults = Scope::of_environment(Environment {
        node_name: None,
        ptp_namespace: None,
        pod_namespace: None,
    });
    assert_eq!(defaults.node_name, "unknown");
    assert_eq!(defaults.ptp_namespace, "openshift-ptp");
    assert_eq!(defaults.pod_namespace, "ptp-consumer");
    let set = Scope::of_environment(Environment {
        node_name: Some("n".to_string()),
        ptp_namespace: Some("p".to_string()),
        pod_namespace: Some("".to_string()),
    });
    assert_eq!(set.node_name, "n");
    assert_eq!(set.ptp_namespace, "p");
    assert_eq!(set.pod_namespace, "");
}

#[test]
fn first_publisher_is_taken() {
    let services = vec![
        service("monitor", Some("10.96.0.9")),
        service("ptp-event-publisher-service-n1", Some("10.96.0.1")),
        service("cloud-event-proxy", Some("10.96.0.2")),
    ];
    assert_eq!(scope().find_proxy_url(&services), Ok("http://10.96.0.1:9043".to_string()));
    for name in ["ptp-event-publisher-service", "my-ptp-event", "x-cloud-event-proxy-y"] {
        let found = scope().find_proxy_url(&vec![service(name, Some("10.0.0.1"))]);
        assert_eq!(found, Ok("http://10.0.0.1:9043".to_string()));
    }
}

#[test]
fn ipv6_cluster_address_goes_into_brackets() {
    let services = vec![service("ptp-event", Some("fd00:10:96::1"))];
    assert_eq!(scope().find_proxy_url(&services), Ok("http://[fd00:10:96::1]:9043".to_string()));
}

#[test]
fn without_cluster_address_the_dns_name_is_used() {
    for ip in [None, Some(""), Some("None")] {
        let services = vec![service("ptp-event", ip)];
        assert_eq!(
            scope().find_proxy_url(&services),
            Ok("http://ptp-event.openshift-ptp.svc.cluster.local:9043".to_string())
        );
    }
}

#[test]
fn missing_publisher_is_reported() {
    let error = scope().find_proxy_url(&vec![service("a", None), service("b", None)]).unwrap_err();
    assert_eq!(
        error,
        DiscoveryError::NoPublisher {
            namespace: "openshift-ptp".to_string(),
            available: vec!["a".to_string(), "b".to_string()],
        }
    );
    assert_eq!(
        error.message(),
        "PTP event publisher service not found in namespace openshift-ptp. Available services: a, b"
    );
    let none = scope().find_proxy_url(&Vec::new()).unwrap_err();
    assert_eq!(
        none.message(),
        "PTP event publisher service not found in namespace openshift-ptp. Available services: "
    );
}

#[test]
fn callback_goes_to_the_own_service() {
    let services = vec![service("x", None), service("ptp-fast-event-consumer", Some("10.0.0.1"))];
    assert_eq!(
        scope().find_callback_uri(&services),
        Ok("http://ptp-fast-event-consumer.ptp-consumer.svc.cluster.local:8080/api/events".to_string())
    );
    let error = scope().find_callback_uri(&vec![service("x", None)]).unwrap_err();
    assert_eq!(error, DiscoveryError::NoConsumer { namespace: "ptp-consumer".to_string() });
    assert_eq!(
        error.message(),
        "ptp-fast-event-consumer service not found in namespace ptp-consumer"
    );
}

#[test]
fn node_name_comes_from_the_cluster_where_it_can() {
    for (lookup, name) in [
        (NodeLookup::Found(Some("n1.example".to_string())), "n1.example"),
        (NodeLookup::Found(None), "n1"),
        (NodeLookup::Failed, "n1"),
    ] {
        let config =
            discover_ptp_config(environment(), &publishers(), &consumers(), lookup).unwrap();
        assert_eq!(config.node_name, name);
        assert_eq!(config.proxy_url, "http://10.96.0.1:9043");
        assert_eq!(config.callback_uri, CALLBACK);
        assert_eq!(config.ptp_namespace, "openshift-ptp");
    }
}

#[test]
fn steps_lead_to_the_configuration() {
    let located = scope().locate_publisher(&publishers()).unwrap();
    let reachable = located.locate_consumer(&consumers()).unwrap();
    assert_eq!(reachable.configure(NodeLookup::Failed), config());
}

#[test]
fn missing_publisher_is_reported_first() {
    let none = Vec::new();
    let both = discover_ptp_config(environment(), &none, &none, NodeLookup::Failed);
    assert!(matches!(both, Err(DiscoveryError::NoPublisher { .. })));
    let own = discover_ptp_config(environment(), &publishers(), &none, NodeLookup::Failed);
    assert_eq!(
        own,
        Err(DiscoveryError::NoConsumer { namespace: "ptp-consumer".to_string() })
    );
}

#[test]
fn three_resources_are_subscribed_to() {
    let postings = subscribe_to_ptp_events(&config());
    let addresses: Vec<&str> =
        postings.iter().map(|p| p.request.resource_address.as_str()).collect();
    assert_eq!(
        addresses,
        vec![
            "/cluster/node/n1/sync/sync-status/os-clock-sync-state",
            "/cluster/node/n1/sync/ptp-status/lock-state",
            "/cluster/node/n1/sync/ptp-status/clock-class",
        ]
    );
    for posting in &postings {
        assert_eq!(posting.url, "http://10.96.0.1:9043/api/ocloudNotifications/v2/subscriptions");
        assert_eq!(posting.request.endpoint_uri, CALLBACK);
    }
}

#[test]
fn subscribing_again_posts_the_same() {
    assert_eq!(resubscribe_to_ptp_events(&config()), subscribe_to_ptp_events(&config()));
}

#[test]
fn urls_of_subscriptions() {
    assert_eq!(
        subscriptions_url(&config()),
        "http://10.96.0.1:9043/api/ocloudNotifications/v2/subscriptions"
    );
    assert_eq!(
        unsubscribe_url(&config(), "abc"),
        "http://10.96.0.1:9043/api/ocloudNotifications/v2/subscriptions/abc"
    );
}

#[test]
fn outcome_of_a_posting() {
    assert_eq!(post_outcome(None), PostOutcome::Unsent);
    assert_eq!(post_outcome(Some(201)), PostOutcome::Accepted);
    assert_eq!(post_outcome(Some(409)), PostOutcome::Refused);
}
