use thalos_runtime::acquisition::{
    AcquisitionLeases, AcquisitionRequirement, ChannelSubscription, LeaseId, SamplingRequirement,
    SubscriptionUpdate,
};

fn req(channel: &str, sampling: SamplingRequirement) -> AcquisitionRequirement {
    AcquisitionRequirement { channel_id: channel.to_string(), sampling, required: true }
}

#[test]
fn acquisition_lease_lifecycle_manages_subscriptions() {
    let mut leases = AcquisitionLeases::new();
    // The transport's subscriptions, as the updates drive them.
    let mut subscribed: Vec<ChannelSubscription> = Vec::new();
    let apply = |u: SubscriptionUpdate, subs: &mut Vec<ChannelSubscription>| match u {
        SubscriptionUpdate::Subscribe(s) => {
            subs.retain(|x| x.channel_id != s.channel_id);
            subs.push(s);
        }
        SubscriptionUpdate::Unsubscribe(c) => subs.retain(|x| x.channel_id != c),
        SubscriptionUpdate::Unchanged => {}
    };

    let (lease1, u) = leases.acquire_lease(&req("temp_01", SamplingRequirement::Continuous { target_hz: 10 }));
    apply(u, &mut subscribed);
    assert_eq!(leases.active_lease_count(&"temp_01".to_string()), 1);
    assert_eq!(subscribed.len(), 1, "transport should have 1 active subscription");

    let (lease2, u) = leases.acquire_lease(&req("temp_01", SamplingRequirement::Continuous { target_hz: 50 }));
    apply(u, &mut subscribed);
    assert_eq!(leases.active_lease_count(&"temp_01".to_string()), 2);
    assert_eq!(subscribed[0].target_hz, 50);

    let u = leases.release_lease(&lease1);
    apply(u, &mut subscribed);
    assert_eq!(leases.active_lease_count(&"temp_01".to_string()), 1);
    assert_eq!(subscribed.len(), 1);

    let u = leases.release_lease(&lease2);
    apply(u, &mut subscribed);
    assert_eq!(leases.active_lease_count(&"temp_01".to_string()), 0);
    assert_eq!(subscribed.len(), 0, "releasing all leases must unsubscribe transport");
}

#[test]
fn lease_ids_are_sequential() {
    let mut leases = AcquisitionLeases::new();
    let (a, _) = leases.acquire_lease(&req("x", SamplingRequirement::OnDemand));
    let (b, _) = leases.acquire_lease(&req("y", SamplingRequirement::OnDemand));
    assert_eq!(a.id, LeaseId(1));
    assert_eq!(b.id, LeaseId(2));
    assert_eq!(a.target_hz, 1, "on-demand streams ask for 1 Hz");
}

#[test]
fn subscription_rate_is_highest_lease_rate() {
    let mut leases = AcquisitionLeases::new();
    let (fast, _) = leases.acquire_lease(&req("v", SamplingRequirement::Continuous { target_hz: 100 }));
    let (_, u) = leases.acquire_lease(&req("v", SamplingRequirement::Continuous { target_hz: 20 }));
    assert_eq!(
        u,
        SubscriptionUpdate::Subscribe(ChannelSubscription { channel_id: "v".to_string(), target_hz: 100 })
    );
    assert_eq!(leases.max_target_hz(&"v".to_string()), 100);
    let u = leases.release_lease(&fast);
    assert_eq!(
        u,
        SubscriptionUpdate::Subscribe(ChannelSubscription { channel_id: "v".to_string(), target_hz: 20 })
    );
}

#[test]
fn releasing_on_idle_channel_changes_nothing() {
    let mut leases = AcquisitionLeases::new();
    let (lease, _) = leases.acquire_lease(&req("a", SamplingRequirement::OnDemand));
    assert_eq!(leases.release_lease(&lease), SubscriptionUpdate::Unsubscribe("a".to_string()));
    assert_eq!(leases.release_lease(&lease), SubscriptionUpdate::Unchanged);
    assert_eq!(leases.max_target_hz(&"a".to_string()), 0);
}
