//! What holds of the addresses that are discovered, subscribed to and called.

use crate::address::is_ipv6;
use crate::discovery::{
    callback_url, consumer, is_consumer, is_no_consumer, is_no_publisher, is_publisher,
    known_node, listed, names_of, publisher, publisher_url, text_or, text_views, DiscoveryError,
    NodeLookup, PtpConfig, ServiceView,
};
use crate::laws::text::{law_occurrence_is_a_split, law_occurrence_splits};
use crate::laws::{law_first_service_is_found, law_no_service_is_invented};
use crate::subscription::{collection_url, member_url, postings};
use crate::text::occurs_in;
use vstd::prelude::*;

verus! {

/// Texts that agree in front of and behind their middles agree in these.
pub proof fn lemma_same_middle(start: Seq<char>, x: Seq<char>, y: Seq<char>, end: Seq<char>)
    requires
        start + x + end == start + y + end,
    ensures
        x == y,
{
    let left = start + x + end;
    let right = start + y + end;
    assert(left.len() == right.len());
    assert(left.subrange(start.len() as int, (start.len() + x.len()) as int) =~= x);
    assert(right.subrange(start.len() as int, (start.len() + y.len()) as int) =~= y);
}

/// The callback address names the service and the namespace in full, whatever
/// cluster address the service has.
pub proof fn law_callback_is_in_its_namespace(service: ServiceView, namespace: Seq<char>)
    ensures
        callback_url(service, namespace) == "http://"@ + service.name + "."@ + namespace
            + ".svc.cluster.local:8080/api/events"@,
{
    reveal_strlit(".svc.cluster.local");
    reveal_strlit(":8080/api/events");
    reveal_strlit(".svc.cluster.local:8080/api/events");
    assert(".svc.cluster.local:8080/api/events"@ =~= ".svc.cluster.local"@ + ":8080/api/events"@);
    assert(callback_url(service, namespace) =~= "http://"@ + service.name + "."@ + namespace
        + ".svc.cluster.local:8080/api/events"@);
}

/// In two namespaces one service has two callback addresses.
pub proof fn law_callbacks_of_namespaces_differ(
    service: ServiceView,
    namespace: Seq<char>,
    other: Seq<char>,
)
    requires
        namespace != other,
    ensures
        callback_url(service, namespace) != callback_url(service, other),
{
    law_callback_is_in_its_namespace(service, namespace);
    law_callback_is_in_its_namespace(service, other);
    if callback_url(service, namespace) == callback_url(service, other) {
        lemma_same_middle(
            "http://"@ + service.name + "."@,
            namespace,
            other,
            ".svc.cluster.local:8080/api/events"@,
        );
    }
}

/// In one namespace services of two names have two callback addresses.
pub proof fn law_callbacks_of_services_differ(
    service: ServiceView,
    other: ServiceView,
    namespace: Seq<char>,
)
    requires
        service.name != other.name,
    ensures
        callback_url(service, namespace) != callback_url(other, namespace),
{
    law_callback_is_in_its_namespace(service, namespace);
    law_callback_is_in_its_namespace(other, namespace);
    let end = "."@ + namespace + ".svc.cluster.local:8080/api/events"@;
    if callback_url(service, namespace) == callback_url(other, namespace) {
        assert("http://"@ + service.name + end =~= callback_url(service, namespace));
        assert("http://"@ + other.name + end =~= callback_url(other, namespace));
        lemma_same_middle("http://"@, service.name, other.name, end);
    }
}

/// A publisher with a cluster address is called there, on port 9043: an IPv6 address
/// in brackets, any other address or name as it is. The namespace plays no part.
pub proof fn law_publisher_is_called_at_its_address(
    service: ServiceView,
    ip: Seq<char>,
    namespace: Seq<char>,
)
    requires
        service.cluster_ip == Some(ip),
        ip.len() > 0,
        ip != "None"@,
    ensures
        is_ipv6(ip) ==> publisher_url(service, namespace) == "http://["@ + ip + "]:9043"@,
        !is_ipv6(ip) ==> publisher_url(service, namespace) == "http://"@ + ip + ":9043"@,
{
    reveal_strlit("http://");
    reveal_strlit("http://[");
    reveal_strlit("]:9043");
    reveal_strlit(":9043");
    reveal_strlit("[");
    reveal_strlit("]");
    if is_ipv6(ip) {
        assert(publisher_url(service, namespace) =~= "http://["@ + ip + "]:9043"@);
    }
}

/// A publisher without a cluster address, or with one that is empty or `None`, is
/// called by the name of the service and the namespace in full, on port 9043.
pub proof fn law_headless_publisher_is_called_by_name(service: ServiceView, namespace: Seq<char>)
    requires
        match service.cluster_ip {
            Some(ip) => ip.len() == 0 || ip == "None"@,
            None => true,
        },
    ensures
        publisher_url(service, namespace) == "http://"@ + service.name + "."@ + namespace
            + ".svc.cluster.local:9043"@,
{
    reveal_strlit(".svc.cluster.local");
    reveal_strlit(":9043");
    reveal_strlit(".svc.cluster.local:9043");
    assert(publisher_url(service, namespace) =~= "http://"@ + service.name + "."@ + namespace
        + ".svc.cluster.local:9043"@);
}

/// Publishers with two cluster addresses are called at two addresses, as long as none
/// of the two begins with a bracket of its own.
pub proof fn law_publishers_of_addresses_differ(
    service: ServiceView,
    other: ServiceView,
    namespace: Seq<char>,
    ip: Seq<char>,
    other_ip: Seq<char>,
)
    requires
        service.cluster_ip == Some(ip) && ip.len() > 0 && ip != "None"@ && ip.first() != '[',
        other.cluster_ip == Some(other_ip) && other_ip.len() > 0 && other_ip != "None"@
            && other_ip.first() != '[',
        ip != other_ip,
    ensures
        publisher_url(service, namespace) != publisher_url(other, namespace),
{
    law_publisher_is_called_at_its_address(service, ip, namespace);
    law_publisher_is_called_at_its_address(other, other_ip, namespace);
    reveal_strlit("http://");
    reveal_strlit("http://[");
    let left = publisher_url(service, namespace);
    let right = publisher_url(other, namespace);
    if left == right {
        assert(left[7] == if is_ipv6(ip) { '[' } else { ip.first() });
        assert(right[7] == if is_ipv6(other_ip) { '[' } else { other_ip.first() });
        if is_ipv6(ip) {
            lemma_same_middle("http://["@, ip, other_ip, "]:9043"@);
        } else {
            lemma_same_middle("http://"@, ip, other_ip, ":9043"@);
        }
    }
}

/// In two namespaces a publisher that is called by name is called at two addresses.
pub proof fn law_publishers_of_namespaces_differ(
    service: ServiceView,
    namespace: Seq<char>,
    other: Seq<char>,
)
    requires
        service.cluster_ip is None,
        namespace != other,
    ensures
        publisher_url(service, namespace) != publisher_url(service, other),
{
    law_headless_publisher_is_called_by_name(service, namespace);
    law_headless_publisher_is_called_by_name(service, other);
    if publisher_url(service, namespace) == publisher_url(service, other) {
        lemma_same_middle(
            "http://"@ + service.name + "."@,
            namespace,
            other,
            ".svc.cluster.local:9043"@,
        );
    }
}

/// The name of a publisher has `ptp-event` or `cloud-event-proxy` in it, with anything
/// around it.
pub proof fn law_publisher_names(before: Seq<char>, after: Seq<char>)
    ensures
        is_publisher(before + "ptp-event"@ + after),
        is_publisher(before + "cloud-event-proxy"@ + after),
{
    law_occurrence_is_a_split("ptp-event"@, before, after);
    law_occurrence_is_a_split("cloud-event-proxy"@, before, after);
}

/// No other name is that of a publisher.
pub proof fn law_other_names_are_no_publishers(name: Seq<char>)
    requires
        forall|before: Seq<char>, after: Seq<char>|
            name != #[trigger] (before + "ptp-event"@ + after),
        forall|before: Seq<char>, after: Seq<char>|
            name != #[trigger] (before + "cloud-event-proxy"@ + after),
    ensures
        !is_publisher(name),
{
    if occurs_in("cloud-event-proxy"@, name) {
        let (before, after) = law_occurrence_splits("cloud-event-proxy"@, name);
        assert(name == before + "cloud-event-proxy"@ + after);
    }
    if occurs_in("ptp-event"@, name) {
        let (before, after) = law_occurrence_splits("ptp-event"@, name);
        assert(name == before + "ptp-event"@ + after);
    }
    if "ptp-event-publisher-service"@.is_prefix_of(name) {
        reveal_strlit("ptp-event-publisher-service");
        reveal_strlit("ptp-event");
        let start = "ptp-event-publisher-service"@;
        assert(name.subrange(0, start.len() as int) == start);
        assert forall|i: int| 0 <= i < 9 implies name[i] == "ptp-event"@[i] by {
            assert(name[i] == start[i]);
        }
        assert(name =~= Seq::<char>::empty() + "ptp-event"@ + name.skip(9));
    }
}

/// The own service is the one whose name has `ptp-fast-event-consumer` in it, with
/// anything around it.
pub proof fn law_consumer_names(before: Seq<char>, after: Seq<char>)
    ensures
        is_consumer(before + "ptp-fast-event-consumer"@ + after),
{
    law_occurrence_is_a_split("ptp-fast-event-consumer"@, before, after);
}

/// No other name is that of the own service.
pub proof fn law_other_names_are_no_consumers(name: Seq<char>)
    requires
        forall|before: Seq<char>, after: Seq<char>|
            name != #[trigger] (before + "ptp-fast-event-consumer"@ + after),
    ensures
        !is_consumer(name),
{
    if occurs_in("ptp-fast-event-consumer"@, name) {
        let (before, after) = law_occurrence_splits("ptp-fast-event-consumer"@, name);
        assert(name == before + "ptp-fast-event-consumer"@ + after);
    }
}

/// The publisher is the first service, in the order of the list, that has the name of one.
pub proof fn law_publisher_is_the_first(services: Seq<ServiceView>, at: int)
    requires
        0 <= at < services.len(),
        is_publisher(services[at].name),
        forall|i: int| 0 <= i < at ==> !is_publisher((#[trigger] services[i]).name),
    ensures
        publisher(services) == Some(services[at]),
{
    law_first_service_is_found(services, |name: Seq<char>| is_publisher(name), at);
}

/// Without the name of a publisher in the list there is no publisher.
pub proof fn law_no_publisher(services: Seq<ServiceView>)
    requires
        forall|i: int| 0 <= i < services.len() ==> !is_publisher((#[trigger] services[i]).name),
    ensures
        publisher(services) is None,
{
    law_no_service_is_invented(services, |name: Seq<char>| is_publisher(name));
}

/// The own service is the first, in the order of the list, that has the name of it.
pub proof fn law_consumer_is_the_first(services: Seq<ServiceView>, at: int)
    requires
        0 <= at < services.len(),
        is_consumer(services[at].name),
        forall|i: int| 0 <= i < at ==> !is_consumer((#[trigger] services[i]).name),
    ensures
        consumer(services) == Some(services[at]),
{
    law_first_service_is_found(services, |name: Seq<char>| is_consumer(name), at);
}

/// Without the name of the own service in the list it is not found.
pub proof fn law_no_consumer(services: Seq<ServiceView>)
    requires
        forall|i: int| 0 <= i < services.len() ==> !is_consumer((#[trigger] services[i]).name),
    ensures
        consumer(services) is None,
{
    law_no_service_is_invented(services, |name: Seq<char>| is_consumer(name));
}

/// A list of names is the first of them, and behind it, set off by a comma and a space,
/// the list of the others.
pub proof fn law_list_goes_on(first: Seq<char>, others: Seq<Seq<char>>)
    ensures
        listed(seq![]) == Seq::<char>::empty(),
        listed(seq![first]) == first,
        others.len() > 0 ==> listed(seq![first] + others) == first + ", "@ + listed(others),
    decreases others.len(),
{
    if others.len() > 0 {
        let all = seq![first] + others;
        assert(all.drop_last() =~= seq![first] + others.drop_last());
        assert(all.last() == others.last());
        if others.len() == 1 {
            assert(all.drop_last() =~= seq![first]);
            assert(listed(all.drop_last()) == first);
            assert(listed(others) == others.last());
        } else {
            law_list_goes_on(first, others.drop_last());
            assert(listed(others) == listed(others.drop_last()) + ", "@ + others.last());
        }
        assert(listed(all) == listed(all.drop_last()) + ", "@ + all.last());
        assert(listed(all) =~= first + ", "@ + listed(others));
    }
}

/// Where there is no publisher, the error names the namespace and every service there is,
/// in order.
pub proof fn law_missing_publisher_is_reported(
    error: DiscoveryError,
    searched: Seq<char>,
    services: Seq<ServiceView>,
)
    requires
        is_no_publisher(error, searched, services),
    ensures
        error matches DiscoveryError::NoPublisher { namespace, available } && {
            &&& namespace@ == searched
            &&& available@.len() == services.len()
            &&& forall|i: int|
                0 <= i < services.len() ==> (#[trigger] available@[i])@ == services[i].name
        },
{
    let available = error->available;
    assert(text_views(available@).len() == names_of(services).len());
    assert forall|i: int| 0 <= i < services.len() implies (#[trigger] available@[i])@
        == services[i].name by {
        assert(text_views(available@)[i] == names_of(services)[i]);
    }
}

/// Where the own service is missing, the error names the namespace.
pub proof fn law_missing_consumer_is_reported(error: DiscoveryError, searched: Seq<char>)
    requires
        is_no_consumer(error, searched),
    ensures
        error matches DiscoveryError::NoConsumer { namespace } && namespace@ == searched,
{
}

/// The node is called as the cluster knows it. Where the cluster does not know its name
/// it is called as the environment tells.
pub proof fn law_node_name(name: String, told: Seq<char>)
    ensures
        known_node(NodeLookup::Found(Some(name)), told) == name@,
        known_node(NodeLookup::Found(None), told) == told,
        known_node(NodeLookup::Failed, told) == told,
{
}

/// What the environment sets holds, and the default only where it sets nothing.
pub proof fn law_default(value: Option<String>, default: Seq<char>)
    ensures
        value is Some ==> text_or(value, default) == value->0@,
        value is None ==> text_or(value, default) == default,
{
}

/// There are three postings. Each is sent to the subscriptions of the publisher, asks
/// for the callback address, and names the node in full with one of the resources.
pub proof fn law_postings_name_the_node(config: PtpConfig)
    ensures
        postings(config).len() == 3,
        forall|i: int|
            0 <= i < 3 ==> (#[trigger] postings(config)[i]).url == config.proxy_url@
                + "/api/ocloudNotifications/v2/subscriptions"@,
        forall|i: int|
            0 <= i < 3 ==> (#[trigger] postings(config)[i]).endpoint_uri == config.callback_uri@,
        postings(config)[0].resource_address == "/cluster/node/"@ + config.node_name@
            + "/sync/sync-status/os-clock-sync-state"@,
        postings(config)[1].resource_address == "/cluster/node/"@ + config.node_name@
            + "/sync/ptp-status/lock-state"@,
        postings(config)[2].resource_address == "/cluster/node/"@ + config.node_name@
            + "/sync/ptp-status/clock-class"@,
{
}

/// On two nodes no resource has one address.
pub proof fn law_postings_of_nodes_differ(config: PtpConfig, other: PtpConfig, i: int)
    requires
        config.node_name@ != other.node_name@,
        0 <= i < 3,
    ensures
        postings(config)[i].resource_address != postings(other)[i].resource_address,
{
    law_postings_name_the_node(config);
    law_postings_name_the_node(other);
    let end = if i == 0 {
        "/sync/sync-status/os-clock-sync-state"@
    } else if i == 1 {
        "/sync/ptp-status/lock-state"@
    } else {
        "/sync/ptp-status/clock-class"@
    };
    if postings(config)[i].resource_address == postings(other)[i].resource_address {
        lemma_same_middle("/cluster/node/"@, config.node_name@, other.node_name@, end);
    }
}

/// The three postings of one configuration ask for three different resources.
pub proof fn law_postings_differ(config: PtpConfig, i: int, j: int)
    requires
        0 <= i < j < 3,
    ensures
        postings(config)[i].resource_address != postings(config)[j].resource_address,
{
    law_postings_name_the_node(config);
    reveal_strlit("/sync/sync-status/os-clock-sync-state");
    reveal_strlit("/sync/ptp-status/lock-state");
    reveal_strlit("/sync/ptp-status/clock-class");
    assert(postings(config)[i].resource_address.len()
        != postings(config)[j].resource_address.len());
}

/// The subscriptions of a publisher are at its address and a fixed path.
pub proof fn law_collection_is_at_the_publisher(proxy_url: Seq<char>, other: Seq<char>)
    ensures
        collection_url(proxy_url) == proxy_url + "/api/ocloudNotifications/v2/subscriptions"@,
        proxy_url != other ==> collection_url(proxy_url) != collection_url(other),
{
    if collection_url(proxy_url) == collection_url(other) {
        let end = "/api/ocloudNotifications/v2/subscriptions"@;
        assert(Seq::<char>::empty() + proxy_url + end =~= collection_url(proxy_url));
        assert(Seq::<char>::empty() + other + end =~= collection_url(other));
        lemma_same_middle(Seq::empty(), proxy_url, other, end);
    }
}

/// A subscription is at the address of all subscriptions, with a slash and its whole id
/// behind it: the id is what follows.
pub proof fn law_subscription_url_ends_in_its_id(proxy_url: Seq<char>, id: Seq<char>)
    ensures
        member_url(proxy_url, id) == proxy_url + "/api/ocloudNotifications/v2/subscriptions/"@
            + id,
        member_url(proxy_url, id).skip(collection_url(proxy_url).len() as int + 1) == id,
        member_url(proxy_url, id).take(collection_url(proxy_url).len() as int)
            == collection_url(proxy_url),
        member_url(proxy_url, id)[collection_url(proxy_url).len() as int] == '/',
{
    reveal_strlit("/");
    reveal_strlit("/api/ocloudNotifications/v2/subscriptions");
    reveal_strlit("/api/ocloudNotifications/v2/subscriptions/");
    let url = member_url(proxy_url, id);
    assert(url =~= proxy_url + "/api/ocloudNotifications/v2/subscriptions/"@ + id);
    assert(url.skip(collection_url(proxy_url).len() as int + 1) =~= id);
    assert(url.take(collection_url(proxy_url).len() as int) =~= collection_url(proxy_url));
}

/// Two subscriptions of a publisher are at two addresses.
pub proof fn law_subscriptions_have_their_own_urls(
    proxy_url: Seq<char>,
    id: Seq<char>,
    other: Seq<char>,
)
    requires
        id != other,
    ensures
        member_url(proxy_url, id) != member_url(proxy_url, other),
{
    law_subscription_url_ends_in_its_id(proxy_url, id);
    law_subscription_url_ends_in_its_id(proxy_url, other);
}

} // verus!
