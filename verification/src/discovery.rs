//! Where the event publisher is, and where it can reach this service.

use crate::address::{host_for_url, url_host};
use crate::http::opt_text;
use crate::text;
use crate::text::occurs_in;
use vstd::prelude::*;

verus! {

/// What the environment variables tell; `None` where one is not set.
#[derive(Debug, PartialEq, Eq)]
pub struct Environment {
    pub node_name: Option<String>,
    pub ptp_namespace: Option<String>,
    pub pod_namespace: Option<String>,
}

/// Where to look.
#[derive(Debug, PartialEq, Eq)]
pub struct Scope {
    pub node_name: String,
    pub ptp_namespace: String,
    pub pod_namespace: String,
}

/// A service of the cluster.
#[derive(Debug, PartialEq, Eq)]
pub struct ServiceInfo {
    pub name: String,
    pub cluster_ip: Option<String>,
}

/// The content of a [`ServiceInfo`].
pub struct ServiceView {
    pub name: Seq<char>,
    pub cluster_ip: Option<Seq<char>>,
}

impl View for ServiceInfo {
    type V = ServiceView;

    open spec fn view(&self) -> ServiceView {
        ServiceView { name: self.name@, cluster_ip: opt_text(self.cluster_ip) }
    }
}

/// The contents of services.
pub open spec fn service_views(services: Seq<ServiceInfo>) -> Seq<ServiceView> {
    services.map_values(|service: ServiceInfo| service@)
}

/// What the cluster answers when asked for a node.
#[derive(Debug, PartialEq, Eq)]
pub enum NodeLookup {
    /// The node, with the name in its metadata.
    Found(Option<String>),
    Failed,
}

/// The configuration that is discovered.
#[derive(Debug, PartialEq, Eq)]
pub struct PtpConfig {
    pub proxy_url: String,
    pub callback_uri: String,
    pub node_name: String,
    pub ptp_namespace: String,
}

/// Why there is no configuration.
#[derive(Debug, PartialEq, Eq)]
pub enum DiscoveryError {
    /// No service of the namespace publishes events. `available` names those there are.
    NoPublisher { namespace: String, available: Vec<String> },
    /// No service of the namespace is this one.
    NoConsumer { namespace: String },
}

/// `value`, or `default` where there is none.
pub open spec fn text_or(value: Option<String>, default: Seq<char>) -> Seq<char> {
    match value {
        Some(text) => text@,
        None => default,
    }
}

/// The node that the environment tells.
pub open spec fn told_node(environment: Environment) -> Seq<char> {
    text_or(environment.node_name, "unknown"@)
}

/// The namespace to look for the publisher in.
pub open spec fn publisher_namespace(environment: Environment) -> Seq<char> {
    text_or(environment.ptp_namespace, "openshift-ptp"@)
}

/// The namespace to look for the own service in.
pub open spec fn own_namespace(environment: Environment) -> Seq<char> {
    text_or(environment.pod_namespace, "ptp-consumer"@)
}

/// Whether a service of this name publishes events.
pub open spec fn is_publisher(name: Seq<char>) -> bool {
    ||| "ptp-event-publisher-service"@.is_prefix_of(name)
    ||| occurs_in("ptp-event"@, name)
    ||| occurs_in("cloud-event-proxy"@, name)
}

/// Whether a service of this name is this one.
pub open spec fn is_consumer(name: Seq<char>) -> bool {
    occurs_in("ptp-fast-event-consumer"@, name)
}

/// The first service whose name passes `wanted`.
pub open spec fn first_named(
    services: Seq<ServiceView>,
    wanted: spec_fn(Seq<char>) -> bool,
) -> Option<ServiceView>
    decreases services.len(),
{
    if services.len() == 0 {
        None
    } else if wanted(services.first().name) {
        Some(services.first())
    } else {
        first_named(services.drop_first(), wanted)
    }
}

/// The first service that publishes events.
pub open spec fn publisher(services: Seq<ServiceView>) -> Option<ServiceView> {
    first_named(services, |name: Seq<char>| is_publisher(name))
}

/// The first service that is this one.
pub open spec fn consumer(services: Seq<ServiceView>) -> Option<ServiceView> {
    first_named(services, |name: Seq<char>| is_consumer(name))
}

/// Whether a cluster address can be called: headless services have none.
pub open spec fn is_callable(cluster_ip: Seq<char>) -> bool {
    cluster_ip.len() > 0 && cluster_ip != "None"@
}

/// The name of a service in the DNS of the cluster.
pub open spec fn dns_name(service: Seq<char>, namespace: Seq<char>) -> Seq<char> {
    service + "."@ + namespace + ".svc.cluster.local"@
}

/// Where a publisher is called: at its cluster address, else at its DNS name.
pub open spec fn publisher_url(service: ServiceView, namespace: Seq<char>) -> Seq<char> {
    match service.cluster_ip {
        Some(ip) if is_callable(ip) => "http://"@ + url_host(ip) + ":9043"@,
        _ => "http://"@ + dns_name(service.name, namespace) + ":9043"@,
    }
}

/// Where this service is called back.
pub open spec fn callback_url(service: ServiceView, namespace: Seq<char>) -> Seq<char> {
    "http://"@ + dns_name(service.name, namespace) + ":8080/api/events"@
}

/// The names one after another, with `", "` between them.
pub open spec fn listed(names: Seq<Seq<char>>) -> Seq<char>
    decreases names.len(),
{
    if names.len() == 0 {
        seq![]
    } else if names.len() == 1 {
        names[0]
    } else {
        listed(names.drop_last()) + ", "@ + names.last()
    }
}

/// The contents of texts.
pub open spec fn text_views(texts: Seq<String>) -> Seq<Seq<char>> {
    texts.map_values(|text: String| text@)
}

/// The names of services.
pub open spec fn names_of(services: Seq<ServiceView>) -> Seq<Seq<char>> {
    services.map_values(|service: ServiceView| service.name)
}

/// Whether `error` says that the namespace has no publisher, and names what it has.
pub open spec fn is_no_publisher(
    error: DiscoveryError,
    searched: Seq<char>,
    services: Seq<ServiceView>,
) -> bool {
    error matches DiscoveryError::NoPublisher { namespace, available } && namespace@ == searched
        && text_views(available@) == names_of(services)
}

/// Whether `error` says that the namespace does not have the own service.
pub open spec fn is_no_consumer(error: DiscoveryError, searched: Seq<char>) -> bool {
    error matches DiscoveryError::NoConsumer { namespace } && namespace@ == searched
}

/// The name of the node that the cluster knows, or else the one that was `told`.
pub open spec fn known_node(node: NodeLookup, told: Seq<char>) -> Seq<char> {
    match node {
        NodeLookup::Found(name) => text_or(name, told),
        NodeLookup::Failed => told,
    }
}

fn or_default(value: Option<String>, default: &str) -> (result: String)
    ensures
        result@ == text_or(value, default@),
{
    match value {
        Some(text) => text,
        None => default.to_owned(),
    }
}

fn service_dns_name(service: &str, namespace: &str) -> (result: String)
    ensures
        result@ == dns_name(service@, namespace@),
{
    let mut result = service.to_owned();
    result.append(".");
    result.append(namespace);
    result.append(".svc.cluster.local");
    result
}

fn publishes(name: &str) -> (result: bool)
    ensures
        result == is_publisher(name@),
{
    text::starts_with(name, "ptp-event-publisher-service") || text::contains(name, "ptp-event")
        || text::contains(name, "cloud-event-proxy")
}

fn names(services: &Vec<ServiceInfo>) -> (result: Vec<String>)
    ensures
        text_views(result@) == names_of(service_views(services@)),
{
    let mut result: Vec<String> = Vec::new();
    for i in 0..services.len()
        invariant
            result@.len() == i,
            forall|j: int| 0 <= j < i ==> (#[trigger] result@[j])@ == services@[j].name@,
    {
        result.push(services[i].name.clone());
    }
    assert(text_views(result@) =~= names_of(service_views(services@)));
    result
}

impl Scope {
    /// Where to look, with defaults for what the environment does not tell.
    pub fn of_environment(environment: Environment) -> (scope: Scope)
        ensures
            scope.node_name@ == told_node(environment),
            scope.ptp_namespace@ == publisher_namespace(environment),
            scope.pod_namespace@ == own_namespace(environment),
    {
        Scope {
            node_name: or_default(environment.node_name, "unknown"),
            ptp_namespace: or_default(environment.ptp_namespace, "openshift-ptp"),
            pod_namespace: or_default(environment.pod_namespace, "ptp-consumer"),
        }
    }

    /// Where to call the publisher, given the services of the PTP namespace.
    pub fn find_proxy_url(&self, services: &Vec<ServiceInfo>) -> (result: Result<
        String,
        DiscoveryError,
    >)
        ensures
            match publisher(service_views(services@)) {
                Some(service) => {
                    &&& result is Ok
                    &&& result->Ok_0@ == publisher_url(service, self.ptp_namespace@)
                },
                None => result is Err && is_no_publisher(
                    result->Err_0,
                    self.ptp_namespace@,
                    service_views(services@),
                ),
            },
    {
        let ghost views = service_views(services@);
        let ghost wanted = |name: Seq<char>| is_publisher(name);
        assert(views.skip(0) =~= views);
        for i in 0..services.len()
            invariant
                views == service_views(services@),
                wanted == (|name: Seq<char>| is_publisher(name)),
                first_named(views.skip(i as int), wanted) == publisher(views),
        {
            let service = &services[i];
            assert(views.skip(i as int).first() == service@);
            assert(views.skip(i as int).drop_first() =~= views.skip(i + 1));
            if publishes(service.name.as_str()) {
                return Ok(self.proxy_url_of(service));
            }
        }
        Err(
            DiscoveryError::NoPublisher {
                namespace: self.ptp_namespace.clone(),
                available: names(services),
            },
        )
    }

    fn proxy_url_of(&self, service: &ServiceInfo) -> (url: String)
        ensures
            url@ == publisher_url(service@, self.ptp_namespace@),
    {
        let mut url = "http://".to_owned();
        if let Some(ip) = &service.cluster_ip {
            if !ip.as_str().is_empty() && !text::same(ip.as_str(), "None") {
                url.append(host_for_url(ip.as_str()).as_str());
                url.append(":9043");
                return url;
            }
        }
        url.append(
            service_dns_name(service.name.as_str(), self.ptp_namespace.as_str()).as_str(),
        );
        url.append(":9043");
        url
    }

    /// Where this service is called back, given the services of its own namespace.
    pub fn find_callback_uri(&self, services: &Vec<ServiceInfo>) -> (result: Result<
        String,
        DiscoveryError,
    >)
        ensures
            match consumer(service_views(services@)) {
                Some(service) => {
                    &&& result is Ok
                    &&& result->Ok_0@ == callback_url(service, self.pod_namespace@)
                },
                None => result is Err && is_no_consumer(result->Err_0, self.pod_namespace@),
            },
    {
        let ghost views = service_views(services@);
        let ghost wanted = |name: Seq<char>| is_consumer(name);
        assert(views.skip(0) =~= views);
        for i in 0..services.len()
            invariant
                views == service_views(services@),
                wanted == (|name: Seq<char>| is_consumer(name)),
                first_named(views.skip(i as int), wanted) == consumer(views),
        {
            let service = &services[i];
            assert(views.skip(i as int).first() == service@);
            assert(views.skip(i as int).drop_first() =~= views.skip(i + 1));
            if text::contains(service.name.as_str(), "ptp-fast-event-consumer") {
                let mut uri = "http://".to_owned();
                uri.append(
                    service_dns_name(service.name.as_str(), self.pod_namespace.as_str()).as_str(),
                );
                uri.append(":8080/api/events");
                return Ok(uri);
            }
        }
        Err(DiscoveryError::NoConsumer { namespace: self.pod_namespace.clone() })
    }

    /// Goes on with the publisher that is among the services of the PTP namespace.
    pub fn locate_publisher(self, services: &Vec<ServiceInfo>) -> (result: Result<
        Located,
        DiscoveryError,
    >)
        ensures
            match publisher(service_views(services@)) {
                Some(service) => {
                    &&& result is Ok
                    &&& result->Ok_0.scope == self
                    &&& result->Ok_0.proxy_url@ == publisher_url(service, self.ptp_namespace@)
                },
                None => result is Err && is_no_publisher(
                    result->Err_0,
                    self.ptp_namespace@,
                    service_views(services@),
                ),
            },
    {
        match self.find_proxy_url(services) {
            Ok(proxy_url) => Ok(Located { scope: self, proxy_url }),
            Err(error) => Err(error),
        }
    }
}

/// What is known once the publisher is found.
#[derive(Debug, PartialEq, Eq)]
pub struct Located {
    pub scope: Scope,
    pub proxy_url: String,
}

/// What is known once the own service is found too.
#[derive(Debug, PartialEq, Eq)]
pub struct Reachable {
    pub scope: Scope,
    pub proxy_url: String,
    pub callback_uri: String,
}

impl Located {
    /// Goes on with the own service that is among those of the own namespace.
    pub fn locate_consumer(self, services: &Vec<ServiceInfo>) -> (result: Result<
        Reachable,
        DiscoveryError,
    >)
        ensures
            match consumer(service_views(services@)) {
                Some(service) => {
                    &&& result is Ok
                    &&& result->Ok_0.scope == self.scope
                    &&& result->Ok_0.proxy_url == self.proxy_url
                    &&& result->Ok_0.callback_uri@ == callback_url(
                        service,
                        self.scope.pod_namespace@,
                    )
                },
                None => result is Err && is_no_consumer(
                    result->Err_0,
                    self.scope.pod_namespace@,
                ),
            },
    {
        match self.scope.find_callback_uri(services) {
            Ok(callback_uri) => Ok(
                Reachable { scope: self.scope, proxy_url: self.proxy_url, callback_uri },
            ),
            Err(error) => Err(error),
        }
    }
}

impl Reachable {
    /// The configuration, with the node name that the cluster knows, or else the
    /// one that the environment told.
    pub fn configure(self, node: NodeLookup) -> (config: PtpConfig)
        ensures
            config.proxy_url == self.proxy_url,
            config.callback_uri == self.callback_uri,
            config.ptp_namespace == self.scope.ptp_namespace,
            config.node_name@ == known_node(node, self.scope.node_name@),
    {
        let scope = self.scope;
        let node_name = match node {
            NodeLookup::Found(Some(name)) => name,
            NodeLookup::Found(None) => scope.node_name,
            NodeLookup::Failed => scope.node_name,
        };
        PtpConfig {
            proxy_url: self.proxy_url,
            callback_uri: self.callback_uri,
            node_name,
            ptp_namespace: scope.ptp_namespace,
        }
    }
}

/// The configuration that comes of the environment, of the services of the PTP
/// namespace and of the own one, and of the lookup of the node. Without a publisher
/// there is none, nor without the own service.
pub fn discover_ptp_config(
    environment: Environment,
    services: &Vec<ServiceInfo>,
    own_services: &Vec<ServiceInfo>,
    node: NodeLookup,
) -> (result: Result<PtpConfig, DiscoveryError>)
    ensures
        ({
            let ptp_namespace = publisher_namespace(environment);
            let pod_namespace = own_namespace(environment);
            let found = publisher(service_views(services@));
            let own = consumer(service_views(own_services@));
            if found is None {
                result is Err && is_no_publisher(
                    result->Err_0,
                    ptp_namespace,
                    service_views(services@),
                )
            } else if own is None {
                result is Err && is_no_consumer(result->Err_0, pod_namespace)
            } else {
                &&& result is Ok
                &&& result->Ok_0.proxy_url@ == publisher_url(found->0, ptp_namespace)
                &&& result->Ok_0.callback_uri@ == callback_url(own->0, pod_namespace)
                &&& result->Ok_0.node_name@ == known_node(
                    node,
                    told_node(environment),
                )
                &&& result->Ok_0.ptp_namespace@ == ptp_namespace
            }
        }),
{
    let located = match Scope::of_environment(environment).locate_publisher(services) {
        Ok(located) => located,
        Err(error) => {
            return Err(error);
        },
    };
    match located.locate_consumer(own_services) {
        Ok(reachable) => Ok(reachable.configure(node)),
        Err(error) => Err(error),
    }
}

fn list_names(names: &Vec<String>) -> (result: String)
    ensures
        result@ == listed(text_views(names@)),
{
    let ghost views = text_views(names@);
    let mut result = String::new();
    assert(views.take(0) =~= seq![]);
    for i in 0..names.len()
        invariant
            views == text_views(names@),
            result@ == listed(views.take(i as int)),
    {
        assert(views.take(i + 1).drop_last() =~= views.take(i as int));
        assert(views.take(i + 1).last() == names@[i as int]@);
        if i > 0 {
            result.append(", ");
        }
        result.append(names[i].as_str());
    }
    assert(views.take(views.len() as int) =~= views);
    result
}

impl DiscoveryError {
    /// The error in words.
    pub open spec fn in_words(self) -> Seq<char> {
        match self {
            DiscoveryError::NoPublisher { namespace, available } => {
                "PTP event publisher service not found in namespace "@ + namespace@
                    + ". Available services: "@ + listed(text_views(available@))
            },
            DiscoveryError::NoConsumer { namespace } => {
                "ptp-fast-event-consumer service not found in namespace "@ + namespace@
            },
        }
    }

    /// The error in words.
    pub fn message(&self) -> (text: String)
        ensures
            text@ == self.in_words(),
    {
        match self {
            DiscoveryError::NoPublisher { namespace, available } => {
                let mut text = "PTP event publisher service not found in namespace ".to_owned();
                text.append(namespace.as_str());
                text.append(". Available services: ");
                text.append(list_names(available).as_str());
                text
            },
            DiscoveryError::NoConsumer { namespace } => {
                let mut text = "ptp-fast-event-consumer service not found in namespace ".to_owned();
                text.append(namespace.as_str());
                text
            },
        }
    }
}

} // verus!
