//! Subscriptions at the event publisher.

use crate::discovery::PtpConfig;
use crate::http::{is_success, reports_success};
use vstd::prelude::*;

verus! {

/// A request for the events of one resource.
#[derive(Debug, PartialEq, Eq)]
pub struct SubscriptionRequest {
    pub endpoint_uri: String,
    pub resource_address: String,
}

/// A subscription request and the URL that it is posted to.
#[derive(Debug, PartialEq, Eq)]
pub struct Posting {
    pub url: String,
    pub request: SubscriptionRequest,
}

/// The content of a [`Posting`].
pub struct PostingView {
    pub url: Seq<char>,
    pub endpoint_uri: Seq<char>,
    pub resource_address: Seq<char>,
}

impl View for Posting {
    type V = PostingView;

    open spec fn view(&self) -> PostingView {
        PostingView {
            url: self.url@,
            endpoint_uri: self.request.endpoint_uri@,
            resource_address: self.request.resource_address@,
        }
    }
}

/// Where the subscriptions of a publisher are.
pub open spec fn collection_url(proxy_url: Seq<char>) -> Seq<char> {
    proxy_url + "/api/ocloudNotifications/v2/subscriptions"@
}

/// Where one subscription of a publisher is.
pub open spec fn member_url(proxy_url: Seq<char>, id: Seq<char>) -> Seq<char> {
    collection_url(proxy_url) + "/"@ + id
}

/// The address of a resource of a node.
pub open spec fn node_resource(node: Seq<char>, resource: Seq<char>) -> Seq<char> {
    "/cluster/node/"@ + node + resource
}

/// The resources that are subscribed to: the state of the system clock, the lock
/// state and the clock class.
pub open spec fn resources() -> Seq<Seq<char>> {
    seq![
        "/sync/sync-status/os-clock-sync-state"@,
        "/sync/ptp-status/lock-state"@,
        "/sync/ptp-status/clock-class"@,
    ]
}

/// The subscription to one resource.
pub open spec fn posting(config: PtpConfig, resource: Seq<char>) -> PostingView {
    PostingView {
        url: collection_url(config.proxy_url@),
        endpoint_uri: config.callback_uri@,
        resource_address: node_resource(config.node_name@, resource),
    }
}

/// The subscriptions to all resources.
pub open spec fn postings(config: PtpConfig) -> Seq<PostingView> {
    resources().map_values(|resource: Seq<char>| posting(config, resource))
}

/// Where the subscriptions of the publisher are.
pub fn subscriptions_url(config: &PtpConfig) -> (url: String)
    ensures
        url@ == collection_url(config.proxy_url@),
{
    let mut url = config.proxy_url.clone();
    url.append("/api/ocloudNotifications/v2/subscriptions");
    url
}

/// Where the subscription `id` of the publisher is.
pub fn unsubscribe_url(config: &PtpConfig, id: &str) -> (url: String)
    ensures
        url@ == member_url(config.proxy_url@, id@),
{
    let mut url = subscriptions_url(config);
    url.append("/");
    url.append(id);
    url
}

fn post_to(config: &PtpConfig, resource: &str) -> (result: Posting)
    ensures
        result@ == posting(*config, resource@),
{
    let mut resource_address = "/cluster/node/".to_owned();
    resource_address.append(config.node_name.as_str());
    resource_address.append(resource);
    Posting {
        url: subscriptions_url(config),
        request: SubscriptionRequest {
            endpoint_uri: config.callback_uri.clone(),
            resource_address,
        },
    }
}

/// What to post to subscribe to the events of the node, in this order and each
/// whatever became of those before it.
pub fn subscribe_to_ptp_events(config: &PtpConfig) -> (result: Vec<Posting>)
    ensures
        result@.map_values(|item: Posting| item@) == postings(*config),
{
    let mut result: Vec<Posting> = Vec::new();
    result.push(post_to(config, "/sync/sync-status/os-clock-sync-state"));
    result.push(post_to(config, "/sync/ptp-status/lock-state"));
    result.push(post_to(config, "/sync/ptp-status/clock-class"));
    assert(result@.map_values(|item: Posting| item@) =~= postings(*config));
    result
}

/// What to send to subscribe again: the same postings and nothing else, whatever
/// subscriptions there are.
pub fn resubscribe_to_ptp_events(config: &PtpConfig) -> (result: Vec<Posting>)
    ensures
        result@.map_values(|item: Posting| item@) == postings(*config),
{
    subscribe_to_ptp_events(config)
}

/// What became of a posting.
#[derive(Debug, Clone, Copy, PartialEq, Eq, Structural)]
pub enum PostOutcome {
    /// It could not be sent.
    Unsent,
    /// The answer reports a failure.
    Refused,
    /// The answer reports success.
    Accepted,
}

/// What became of a posting.
pub open spec fn posted_as(status: Option<u16>) -> PostOutcome {
    match status {
        Some(number) => if reports_success(number) {
            PostOutcome::Accepted
        } else {
            PostOutcome::Refused
        },
        None => PostOutcome::Unsent,
    }
}

/// What became of a posting, by the status of the answer to it.
pub fn post_outcome(status: Option<u16>) -> (outcome: PostOutcome)
    ensures
        outcome == posted_as(status),
{
    match status {
        Some(number) => if is_success(number) {
            PostOutcome::Accepted
        } else {
            PostOutcome::Refused
        },
        None => PostOutcome::Unsent,
    }
}

/// What keeps subscribing as a whole from succeeding, given what became of the
/// postings: nothing does, since one that fails is passed over.
pub fn subscribe_failure(outcomes: &Vec<PostOutcome>) -> (failure: Option<String>)
    ensures
        failure is None,
{
    None
}

} // verus!
