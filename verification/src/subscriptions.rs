//! Which client holds which port: one client alone, or several that share the
//! port through HTTP filters.

use crate::filter::{filters_view, FilterEntry, FilterEntryView, HttpFilter};
use crate::protocol::{ClientId, HttpFilterView, Port, SubscribeError, SubscribeErrorView};
use crate::relation::{lemma_filter_members, lemma_sorted_listing, lemma_sorted_listing_is};
use std::collections::HashMap;
use vstd::prelude::*;
use vstd::std_specs::iter::IteratorSpec;

verus! {

broadcast use vstd::std_specs::hash::group_hash_axioms;

/// How a port is held.
#[derive(Debug, PartialEq, Eq)]
pub enum PortSubscription {
    /// One client takes every connection.
    Unfiltered(ClientId),
    /// Clients take the requests that their filters match, the earlier
    /// subscriber first.
    Filtered(Vec<FilterEntry>),
}

pub enum PortSubscriptionView {
    Unfiltered(ClientId),
    Filtered(Seq<FilterEntryView>),
}

impl View for PortSubscription {
    type V = PortSubscriptionView;

    open spec fn view(&self) -> PortSubscriptionView {
        match self {
            PortSubscription::Unfiltered(client_id) => PortSubscriptionView::Unfiltered(*client_id),
            PortSubscription::Filtered(filters) => PortSubscriptionView::Filtered(
                filters_view(filters@),
            ),
        }
    }
}

impl Clone for PortSubscription {
    fn clone(&self) -> (r: Self)
        ensures
            r@ == self@,
    {
        match self {
            PortSubscription::Unfiltered(client_id) => PortSubscription::Unfiltered(*client_id),
            PortSubscription::Filtered(filters) => {
                let mut copies: Vec<FilterEntry> = Vec::new();
                let mut i: usize = 0;
                while i < filters.len()
                    invariant
                        i <= filters@.len(),
                        copies@.len() == i,
                        forall|j: int| 0 <= j < i ==> (#[trigger] copies@[j])@ == filters@[j]@,
                    decreases filters@.len() - i,
                {
                    copies.push(filters[i].clone());
                    i += 1;
                }
                assert(filters_view(copies@) =~= filters_view(filters@));
                PortSubscription::Filtered(copies)
            },
        }
    }
}

/// How an attempt to subscribe ended.
#[derive(Debug, PartialEq, Eq)]
pub enum AddOutcome {
    /// The port was free and is now held; its redirection is still to be
    /// installed.
    NewPort,
    /// The client's filter joined those already on the port.
    Joined,
    /// The subscription was turned down and nothing changed.
    Rejected(SubscribeError),
}

pub enum AddOutcomeView {
    NewPort,
    Joined,
    Rejected(SubscribeErrorView),
}

impl View for AddOutcome {
    type V = AddOutcomeView;

    open spec fn view(&self) -> AddOutcomeView {
        match self {
            AddOutcome::NewPort => AddOutcomeView::NewPort,
            AddOutcome::Joined => AddOutcomeView::Joined,
            AddOutcome::Rejected(error) => AddOutcomeView::Rejected(error@),
        }
    }
}

/// A filter that was handed over or not, by its view.
pub open spec fn filter_option_view(filter: Option<HttpFilter>) -> Option<HttpFilterView> {
    match filter {
        Some(f) => Some(f@),
        None => None,
    }
}

/// Whether `port` is held.
pub open spec fn holds_port(m: Map<Port, PortSubscriptionView>, port: Port) -> bool {
    m.contains_key(port)
}

/// How `port` is held, if it is.
pub open spec fn subscription_at(m: Map<Port, PortSubscriptionView>, port: Port) -> Option<
    PortSubscriptionView,
> {
    if m.contains_key(port) {
        Some(m[port])
    } else {
        None
    }
}

/// Whether `client` has a filter among `filters`.
pub open spec fn has_filter_of(filters: Seq<FilterEntryView>, client: ClientId) -> bool {
    exists|i: int| 0 <= i < filters.len() && (#[trigger] filters[i]).client_id == client
}

/// Whether `client` has a stake in a port held as `subscription`.
pub open spec fn has_stake(subscription: PortSubscriptionView, client: ClientId) -> bool {
    match subscription {
        PortSubscriptionView::Unfiltered(holder) => holder == client,
        PortSubscriptionView::Filtered(filters) => has_filter_of(filters, client),
    }
}

/// No client has two filters among `filters`.
pub open spec fn distinct_clients(filters: Seq<FilterEntryView>) -> bool {
    forall|a: int, b: int|
        0 <= a < filters.len() && 0 <= b < filters.len() && a != b ==> (
        #[trigger] filters[a]).client_id != (#[trigger] filters[b]).client_id
}

/// A filtered port has at least one filter and at most one of each client.
pub open spec fn subscription_wf(subscription: PortSubscriptionView) -> bool {
    match subscription {
        PortSubscriptionView::Unfiltered(_) => true,
        PortSubscriptionView::Filtered(filters) => filters.len() > 0 && distinct_clients(filters),
    }
}

/// Finitely many ports are held, each by one client alone or by at least one
/// filter and at most one filter of each client.
pub open spec fn subscriptions_wf(m: Map<Port, PortSubscriptionView>) -> bool {
    &&& m.dom().finite()
    &&& forall|port: Port| #[trigger] m.contains_key(port) ==> subscription_wf(m[port])
}

/// The way a free port comes to be held by its first subscriber.
pub open spec fn first_subscription(
    client: ClientId,
    filter: Option<HttpFilterView>,
) -> PortSubscriptionView {
    match filter {
        None => PortSubscriptionView::Unfiltered(client),
        Some(f) => PortSubscriptionView::Filtered(
            seq![FilterEntryView { client_id: client, filter: f }],
        ),
    }
}

/// How an attempt of `client` to subscribe to `port` ends: a free port is
/// taken; a port held by one client alone is refused to everyone; a filtered
/// port takes a further filter of a client that has none there, and refuses
/// a subscription without filter.
pub open spec fn add_outcome(
    m: Map<Port, PortSubscriptionView>,
    client: ClientId,
    port: Port,
    filter: Option<HttpFilterView>,
) -> AddOutcomeView {
    match subscription_at(m, port) {
        None => AddOutcomeView::NewPort,
        Some(PortSubscriptionView::Unfiltered(_)) => AddOutcomeView::Rejected(
            SubscribeErrorView::PortAlreadyStolen(port),
        ),
        Some(PortSubscriptionView::Filtered(filters)) => match filter {
            None => AddOutcomeView::Rejected(SubscribeErrorView::PortAlreadyStolen(port)),
            Some(_) => if has_filter_of(filters, client) {
                AddOutcomeView::Rejected(SubscribeErrorView::AlreadySubscribed(port))
            } else {
                AddOutcomeView::Joined
            },
        },
    }
}

/// The subscriptions after an attempt of `client` to subscribe to `port`: a
/// new filter stands behind the filters that the port has.
pub open spec fn after_add(
    m: Map<Port, PortSubscriptionView>,
    client: ClientId,
    port: Port,
    filter: Option<HttpFilterView>,
) -> Map<Port, PortSubscriptionView> {
    match add_outcome(m, client, port, filter) {
        AddOutcomeView::NewPort => m.insert(port, first_subscription(client, filter)),
        AddOutcomeView::Joined => m.insert(
            port,
            PortSubscriptionView::Filtered(
                m[port]->Filtered_0.push(
                    FilterEntryView { client_id: client, filter: filter->Some_0 },
                ),
            ),
        ),
        AddOutcomeView::Rejected(_) => m,
    }
}

/// Holds of the filters of clients other than `client`.
pub open spec fn of_other_client(client: ClientId) -> spec_fn(FilterEntryView) -> bool {
    |e: FilterEntryView| e.client_id != client
}

/// What is left of a subscription when `client` gives up its stake: nothing
/// when nobody else holds one.
pub open spec fn subscription_without(
    subscription: PortSubscriptionView,
    client: ClientId,
) -> Option<PortSubscriptionView> {
    match subscription {
        PortSubscriptionView::Unfiltered(holder) => if holder == client {
            None
        } else {
            Some(subscription)
        },
        PortSubscriptionView::Filtered(filters) => {
            let kept = filters.filter(of_other_client(client));
            if kept.len() == 0 {
                None
            } else {
                Some(PortSubscriptionView::Filtered(kept))
            }
        },
    }
}

/// Whether `port` is one of the ports that `scope` names: the given port, or
/// every port.
pub open spec fn in_scope(scope: Option<Port>, port: Port) -> bool {
    match scope {
        Some(p) => p == port,
        None => true,
    }
}

/// The ports that `scope` names.
pub open spec fn scope_of(scope: Option<Port>) -> Set<Port> {
    Set::new(|port: Port| in_scope(scope, port))
}

/// How `port` is held after `client` gives up its stakes in `ports`.
pub open spec fn entry_after(
    m: Map<Port, PortSubscriptionView>,
    client: ClientId,
    ports: Set<Port>,
    port: Port,
) -> Option<PortSubscriptionView> {
    if !m.contains_key(port) {
        None
    } else if ports.contains(port) {
        subscription_without(m[port], client)
    } else {
        Some(m[port])
    }
}

/// The subscriptions after `client` gives up its stakes in `ports`.
pub open spec fn after_release_over(
    m: Map<Port, PortSubscriptionView>,
    client: ClientId,
    ports: Set<Port>,
) -> Map<Port, PortSubscriptionView> {
    Map::new(
        |port: Port| entry_after(m, client, ports, port) is Some,
        |port: Port| entry_after(m, client, ports, port)->Some_0,
    )
}

/// The subscriptions after `client` gives up its stakes in the ports of
/// `scope`.
pub open spec fn after_release(
    m: Map<Port, PortSubscriptionView>,
    client: ClientId,
    scope: Option<Port>,
) -> Map<Port, PortSubscriptionView> {
    after_release_over(m, client, scope_of(scope))
}

/// Holds of the ports of `scope` that are held in `m` and that nobody holds
/// any more once `client` gives up its stake.
pub open spec fn left_empty(
    m: Map<Port, PortSubscriptionView>,
    client: ClientId,
    scope: Option<Port>,
) -> spec_fn(Port) -> bool {
    |port: Port|
        m.contains_key(port) && in_scope(scope, port) && subscription_without(m[port], client)
            is None
}

/// The order in which ports are listed.
pub open spec fn port_at_most() -> spec_fn(Port, Port) -> bool {
    |a: Port, b: Port| a <= b
}

/// The ports of `s`, the smallest first.
pub open spec fn ascending_ports(s: Set<Port>) -> Seq<Port> {
    s.to_sorted_seq(port_at_most())
}

/// The ports that nobody holds any more once `client` gives up its stakes in
/// the ports of `scope`, the smallest first.
pub open spec fn released_ports(
    m: Map<Port, PortSubscriptionView>,
    client: ClientId,
    scope: Option<Port>,
) -> Seq<Port> {
    ascending_ports(m.dom()).filter(left_empty(m, client, scope))
}

/// The filters of `filters` that belong to other clients than `client`.
fn filters_of_others(filters: Vec<FilterEntry>, client: ClientId) -> (r: Vec<FilterEntry>)
    ensures
        filters_view(r@) == filters_view(filters@).filter(of_other_client(client)),
{
    let ghost original = filters_view(filters@);
    let mut rest = filters;
    let mut kept: Vec<FilterEntry> = Vec::new();
    let ghost mut done: int = 0;
    proof {
        crate::relation::lemma_filter_none(original.take(0), of_other_client(client));
    }
    while rest.len() > 0
        invariant
            0 <= done <= original.len(),
            rest@.len() == original.len() - done,
            forall|j: int| 0 <= j < rest@.len() ==> (#[trigger] rest@[j])@ == original[done + j],
            filters_view(kept@) == original.take(done).filter(of_other_client(client)),
        decreases rest@.len(),
    {
        let entry = rest.remove(0);
        proof {
            assert(entry@ == original[done]);
            original.lemma_take_succ_push(done);
            original.take(done).lemma_filter_push(entry@, of_other_client(client));
        }
        if entry.client_id != client {
            let ghost before = kept@;
            kept.push(entry);
            assert(filters_view(kept@) =~= filters_view(before).push(entry@));
        }
        proof {
            done = done + 1;
        }
    }
    proof {
        original.lemma_take_len();
    }
    kept
}

fn has_filter(filters: &Vec<FilterEntry>, client: ClientId) -> (r: bool)
    ensures
        r == has_filter_of(filters_view(filters@), client),
{
    let mut i: usize = 0;
    while i < filters.len()
        invariant
            i <= filters@.len(),
            forall|j: int|
                0 <= j < i ==> (#[trigger] filters_view(filters@)[j]).client_id != client,
        decreases filters@.len() - i,
    {
        if filters[i].client_id == client {
            assert(filters_view(filters@)[i as int].client_id == client);
            return true;
        }
        i += 1;
    }
    false
}

/// What is left of a subscription when `client` gives up its stake.
fn without_client(subscription: PortSubscription, client: ClientId) -> (r: Option<
    PortSubscription,
>)
    ensures
        match r {
            Some(kept) => subscription_without(subscription@, client) == Some(kept@),
            None => subscription_without(subscription@, client) is None,
        },
{
    match subscription {
        PortSubscription::Unfiltered(holder) => {
            if holder == client {
                None
            } else {
                Some(PortSubscription::Unfiltered(holder))
            }
        },
        PortSubscription::Filtered(filters) => {
            let others = filters_of_others(filters, client);
            if others.len() == 0 {
                None
            } else {
                Some(PortSubscription::Filtered(others))
            }
        },
    }
}

/// Puts `port` in its place in a strictly ascending list.
fn insert_sorted_port(sorted: &mut Vec<Port>, port: Port)
    requires
        forall|i: int, j: int|
            0 <= i < j < old(sorted)@.len() ==> old(sorted)@[i] < old(sorted)@[j],
    ensures
        forall|i: int, j: int|
            0 <= i < j < final(sorted)@.len() ==> final(sorted)@[i] < final(sorted)@[j],
        forall|y: Port| #[trigger]
            final(sorted)@.contains(y) <==> old(sorted)@.contains(y) || y == port,
{
    let mut i: usize = 0;
    while i < sorted.len() && sorted[i] < port
        invariant
            i <= sorted@.len(),
            sorted@ == old(sorted)@,
            forall|j: int| 0 <= j < i ==> sorted@[j] < port,
        decreases sorted@.len() - i,
    {
        i += 1;
    }
    if i < sorted.len() && sorted[i] == port {
        assert(sorted@.contains(port));
    } else {
        sorted.insert(i, port);
        assert forall|y: Port| #[trigger] sorted@.contains(y) <==> old(sorted)@.contains(y) || y
            == port by {
            if sorted@.contains(y) {
                let k = choose|k: int| 0 <= k < sorted@.len() && sorted@[k] == y;
                if k < i {
                    assert(old(sorted)@[k] == y);
                } else if k > i {
                    assert(old(sorted)@[k - 1] == y);
                }
            }
            if old(sorted)@.contains(y) {
                let k = choose|k: int| 0 <= k < old(sorted)@.len() && old(sorted)@[k] == y;
                if k < i {
                    assert(sorted@[k] == y);
                } else {
                    assert(sorted@[k + 1] == y);
                }
            }
            if y == port {
                assert(sorted@[i as int] == y);
            }
        }
    }
}

/// The subscriptions of every port.
pub struct PortSubscriptions {
    ports: HashMap<Port, PortSubscription>,
}

impl PortSubscriptions {
    /// How each held port is held.
    pub closed spec fn view(&self) -> Map<Port, PortSubscriptionView> {
        Map::new(|port: Port| self.ports@.contains_key(port), |port: Port| self.ports@[port]@)
    }

    /// See `subscriptions_wf`.
    pub open spec fn wf(&self) -> bool {
        subscriptions_wf(self@)
    }

    /// No port is held.
    pub fn new() -> (r: Self)
        ensures
            r.wf(),
            r@ == Map::<Port, PortSubscriptionView>::empty(),
    {
        let r = PortSubscriptions { ports: HashMap::new() };
        assert(r@ =~= Map::<Port, PortSubscriptionView>::empty());
        r
    }

    /// How `port` is held, if it is.
    pub fn get(&self, port: Port) -> (r: Option<&PortSubscription>)
        ensures
            match r {
                Some(subscription) => subscription_at(self@, port) == Some(subscription@),
                None => subscription_at(self@, port) is None,
            },
    {
        self.ports.get(&port)
    }

    /// The held ports, the smallest first.
    fn sorted_ports(&self) -> (r: Vec<Port>)
        ensures
            r@ == ascending_ports(self@.dom()),
            r@.no_duplicates(),
            forall|port: Port| #[trigger] r@.contains(port) <==> self@.contains_key(port),
    {
        let mut sorted: Vec<Port> = Vec::new();
        for port in iter: self.ports.keys()
            invariant
                iter.seq() == vstd::std_specs::hash::spec_keys_iter(&self.ports).remaining(),
                forall|i: int, j: int| 0 <= i < j < sorted@.len() ==> sorted@[i] < sorted@[j],
                forall|y: Port| #[trigger]
                    sorted@.contains(y) <==> exists|i: int|
                        0 <= i < iter.index() && *(#[trigger] iter.seq()[i]) == y,
        {
            insert_sorted_port(&mut sorted, *port);
        }
        proof {
            let walked = vstd::std_specs::hash::spec_keys_iter(&self.ports).remaining();
            assert(walked.unref().to_set() == self.ports@.dom());
            assert(self@.dom() =~= self.ports@.dom());
            assert forall|y: Port| #[trigger] sorted@.contains(y) <==> self@.dom().contains(
                y,
            ) by {
                if sorted@.contains(y) {
                    let i = choose|i: int| 0 <= i < walked.len() && *(#[trigger] walked[i]) == y;
                    assert(walked.unref()[i] == y);
                    assert(walked.unref().to_set().contains(y));
                }
                if self@.dom().contains(y) {
                    assert(walked.unref().to_set().contains(y));
                    let i = choose|i: int|
                        0 <= i < walked.unref().len() && walked.unref()[i] == y;
                    assert(*walked[i] == y);
                }
            }
            assert(vstd::relations::total_ordering(port_at_most()));
            assert(vstd::relations::sorted_by(sorted@, port_at_most()));
            lemma_sorted_listing_is(self@.dom(), sorted@, port_at_most());
        }
        sorted
    }

    /// Enters the subscription of `client` to `port`, with its filter if it
    /// has one, and says how that ended. Where the port was free the caller
    /// has its redirection to install.
    pub fn add(&mut self, client: ClientId, port: Port, filter: Option<HttpFilter>) -> (r:
        AddOutcome)
        requires
            old(self).wf(),
        ensures
            final(self).wf(),
            r@ == add_outcome(old(self)@, client, port, filter_option_view(filter)),
            final(self)@ == after_add(old(self)@, client, port, filter_option_view(filter)),
    {
        proof {
            lemma_after_add_wf(self@, client, port, filter_option_view(filter));
        }
        let outcome = match self.ports.remove(&port) {
            None => {
                let subscription = match filter {
                    None => PortSubscription::Unfiltered(client),
                    Some(f) => {
                        let mut filters: Vec<FilterEntry> = Vec::new();
                        filters.push(FilterEntry { client_id: client, filter: f });
                        assert(filters_view(filters@) =~= seq![
                            FilterEntryView { client_id: client, filter: f@ },
                        ]);
                        PortSubscription::Filtered(filters)
                    },
                };
                self.ports.insert(port, subscription);
                AddOutcome::NewPort
            },
            Some(PortSubscription::Unfiltered(holder)) => {
                self.ports.insert(port, PortSubscription::Unfiltered(holder));
                AddOutcome::Rejected(SubscribeError::PortAlreadyStolen(port))
            },
            Some(PortSubscription::Filtered(filters)) => {
                let mut filters = filters;
                let ghost before = filters_view(filters@);
                let outcome = match filter {
                    None => AddOutcome::Rejected(SubscribeError::PortAlreadyStolen(port)),
                    Some(f) => {
                        if has_filter(&filters, client) {
                            AddOutcome::Rejected(SubscribeError::AlreadySubscribed(port))
                        } else {
                            filters.push(FilterEntry { client_id: client, filter: f });
                            assert(filters_view(filters@) =~= before.push(
                                FilterEntryView { client_id: client, filter: f@ },
                            ));
                            AddOutcome::Joined
                        }
                    },
                };
                self.ports.insert(port, PortSubscription::Filtered(filters));
                outcome
            },
        };
        assert(self@ =~= after_add(old(self)@, client, port, filter_option_view(filter)));
        outcome
    }

    /// Takes the stake of `client` out of `port`, and says whether the port
    /// is left without a holder.
    fn release_port(&mut self, client: ClientId, port: Port) -> (r: bool)
        requires
            old(self).wf(),
        ensures
            final(self).wf(),
            final(self)@ == after_release(old(self)@, client, Some(port)),
            r == left_empty(old(self)@, client, Some(port))(port),
    {
        proof {
            lemma_after_release_wf(self@, client, Some(port));
        }
        let released = match self.ports.remove(&port) {
            None => false,
            Some(subscription) => {
                match without_client(subscription, client) {
                    Some(kept) => {
                        self.ports.insert(port, kept);
                        false
                    },
                    None => true,
                }
            },
        };
        assert(self@ =~= after_release(old(self)@, client, Some(port)));
        released
    }

    /// Takes the stake of `client` out of `port`. Returns the port if it is
    /// left without a holder: its redirection is the caller's to remove.
    pub fn remove(&mut self, client: ClientId, port: Port) -> (r: Vec<Port>)
        requires
            old(self).wf(),
        ensures
            final(self).wf(),
            final(self)@ == after_release(old(self)@, client, Some(port)),
            r@ == released_ports(old(self)@, client, Some(port)),
    {
        let mut released: Vec<Port> = Vec::new();
        if self.release_port(client, port) {
            released.push(port);
        }
        proof {
            lemma_released_ports(old(self)@, client, Some(port));
            lemma_after_release_at(old(self)@, client, Some(port), port);
            let listed = released_ports(old(self)@, client, Some(port));
            let emptied = left_empty(old(self)@, client, Some(port))(port);
            assert forall|p: Port| #[trigger] listed.contains(p) <==> emptied && p == port by {}
            if emptied {
                assert(listed.contains(port));
                let k = choose|k: int| 0 <= k < listed.len() && listed[k] == port;
                if listed.len() > 1 {
                    let other = if k == 0 {
                        1int
                    } else {
                        0int
                    };
                    assert(listed.contains(listed[other]));
                    assert(listed[other] == listed[k]);
                }
                assert(listed =~= seq![port]);
            } else {
                if listed.len() > 0 {
                    assert(listed.contains(listed[0]));
                }
                assert(listed =~= Seq::<Port>::empty());
            }
            assert(released@ =~= listed);
        }
        released
    }

    /// Takes the stakes of `client` out of every port. Returns the ports that
    /// are left without a holder, the smallest first: their redirections are
    /// the caller's to remove.
    pub fn remove_all(&mut self, client: ClientId) -> (r: Vec<Port>)
        requires
            old(self).wf(),
        ensures
            final(self).wf(),
            final(self)@ == after_release(old(self)@, client, None),
            r@ == released_ports(old(self)@, client, None),
    {
        let ports = self.sorted_ports();
        let mut released: Vec<Port> = Vec::new();
        let mut i: usize = 0;
        proof {
            crate::relation::lemma_filter_none(ports@.take(0), left_empty(self@, client, None));
            assert(ports@.take(0).to_set() =~= Set::<Port>::empty());
            assert(self@ =~= after_release_over(self@, client, Set::<Port>::empty()));
        }
        while i < ports.len()
            invariant
                i <= ports@.len(),
                ports@.no_duplicates(),
                forall|port: Port| #[trigger] ports@.contains(port) <==> old(self)@.contains_key(
                    port,
                ),
                self.wf(),
                self@ == after_release_over(
                    old(self)@,
                    client,
                    ports@.take(i as int).to_set(),
                ),
                released@ == ports@.take(i as int).filter(left_empty(old(self)@, client, None)),
            decreases ports@.len() - i,
        {
            let port = ports[i];
            let ghost before = self@;
            proof {
                ports@.lemma_take_succ_push(i as int);
                ports@.take(i as int).lemma_push_to_set_commute(port);
                ports@.take(i as int).lemma_filter_push(
                    port,
                    left_empty(old(self)@, client, None),
                );
                assert(!ports@.take(i as int).to_set().contains(port)) by {
                    if ports@.take(i as int).contains(port) {
                        let j = choose|j: int|
                            0 <= j < ports@.take(i as int).len() && ports@.take(i as int)[j]
                                == port;
                        assert(ports@[j] == ports@[i as int]);
                    }
                }
                assert(ports@.contains(ports@[i as int]));
                assert(before.contains_key(port) && before[port] == old(self)@[port]);
            }
            if self.release_port(client, port) {
                released.push(port);
            }
            proof {
                assert(self@ =~= after_release_over(
                    old(self)@,
                    client,
                    ports@.take(i + 1).to_set(),
                ));
            }
            i += 1;
        }
        proof {
            ports@.lemma_take_len();
            assert(self@ =~= after_release(old(self)@, client, None)) by {
                assert forall|port: Port|
                    entry_after(old(self)@, client, ports@.to_set(), port) == entry_after(
                        old(self)@,
                        client,
                        scope_of(None),
                        port,
                    ) by {
                    if old(self)@.contains_key(port) {
                        assert(ports@.contains(port));
                    }
                }
            }
        }
        released
    }

    /// Takes the stakes of `client` out of the ports of `scope`: one port, or
    /// all of them. Returns the ports that are left without a holder.
    pub fn release(&mut self, client: ClientId, scope: Option<Port>) -> (r: Vec<Port>)
        requires
            old(self).wf(),
        ensures
            final(self).wf(),
            final(self)@ == after_release(old(self)@, client, scope),
            r@ == released_ports(old(self)@, client, scope),
    {
        match scope {
            Some(port) => self.remove(client, port),
            None => self.remove_all(client),
        }
    }
}

/// Subscribing keeps the subscriptions well formed.
pub proof fn lemma_after_add_wf(
    m: Map<Port, PortSubscriptionView>,
    client: ClientId,
    port: Port,
    filter: Option<HttpFilterView>,
)
    requires
        subscriptions_wf(m),
    ensures
        subscriptions_wf(after_add(m, client, port, filter)),
{
    let t = after_add(m, client, port, filter);
    match add_outcome(m, client, port, filter) {
        AddOutcomeView::Joined => {
            let old_filters = m[port]->Filtered_0;
            let new_filters = t[port]->Filtered_0;
            assert(m.contains_key(port));
            assert forall|a: int, b: int|
                0 <= a < new_filters.len() && 0 <= b < new_filters.len() && a != b implies (
            #[trigger] new_filters[a]).client_id != (#[trigger] new_filters[b]).client_id by {
                if a < old_filters.len() {
                    assert(new_filters[a] == old_filters[a]);
                }
                if b < old_filters.len() {
                    assert(new_filters[b] == old_filters[b]);
                }
            }
        },
        _ => {},
    }
}

/// Taking a client's filters out of a list in which no client has two leaves
/// a list in which no client has two, and none of that client.
proof fn lemma_filter_keeps_distinct_clients(filters: Seq<FilterEntryView>, client: ClientId)
    requires
        distinct_clients(filters),
    ensures
        distinct_clients(filters.filter(of_other_client(client))),
        !has_filter_of(filters.filter(of_other_client(client)), client),
    decreases filters.len(),
{
    reveal(Seq::filter);
    lemma_filter_members(filters, of_other_client(client));
    let kept = filters.filter(of_other_client(client));
    assert forall|i: int| 0 <= i < kept.len() implies (#[trigger] kept[i]).client_id
        != client by {
        assert(kept.contains(kept[i]));
    }
    if filters.len() > 0 {
        let rest = filters.drop_last();
        let last = filters.last();
        lemma_filter_keeps_distinct_clients(rest, client);
        lemma_filter_members(rest, of_other_client(client));
        let kept_rest = rest.filter(of_other_client(client));
        if of_other_client(client)(last) {
            assert forall|a: int| 0 <= a < kept_rest.len() implies (
            #[trigger] kept_rest[a]).client_id != last.client_id by {
                assert(kept_rest.contains(kept_rest[a]));
                assert(rest.contains(kept_rest[a]));
                let j = choose|j: int| 0 <= j < rest.len() && rest[j] == kept_rest[a];
                assert(filters[j] == kept_rest[a]);
                assert(filters[filters.len() - 1] == last);
            }
        }
    }
}

/// Giving up stakes keeps the subscriptions well formed, and leaves the
/// client without a stake in the ports of the scope.
pub proof fn lemma_after_release_wf(
    m: Map<Port, PortSubscriptionView>,
    client: ClientId,
    scope: Option<Port>,
)
    requires
        subscriptions_wf(m),
    ensures
        subscriptions_wf(after_release(m, client, scope)),
        forall|port: Port| #[trigger]
            after_release(m, client, scope).contains_key(port) ==> m.contains_key(port),
        forall|port: Port| #[trigger]
            after_release(m, client, scope).contains_key(port) && in_scope(scope, port)
                ==> !has_stake(after_release(m, client, scope)[port], client),
{
    let t = after_release(m, client, scope);
    assert(t.dom().subset_of(m.dom()));
    vstd::set_lib::lemma_set_subset_finite(m.dom(), t.dom());
    assert forall|port: Port| #[trigger] t.contains_key(port) implies subscription_wf(t[port])
        && (in_scope(scope, port) ==> !has_stake(t[port], client)) by {
        assert(m.contains_key(port));
        if let PortSubscriptionView::Filtered(filters) = m[port] {
            lemma_filter_keeps_distinct_clients(filters, client);
        }
    }
}

/// How each port is held after a client gives up its stakes in the ports of
/// a scope: a port out of the scope as before; a port of the scope by the
/// others that held it, and not at all if there are none.
pub proof fn lemma_after_release_at(
    m: Map<Port, PortSubscriptionView>,
    client: ClientId,
    scope: Option<Port>,
    port: Port,
)
    ensures
        subscription_at(after_release(m, client, scope), port) == match subscription_at(m, port) {
            None => None,
            Some(subscription) => if in_scope(scope, port) {
                subscription_without(subscription, client)
            } else {
                Some(subscription)
            },
        },
{
}

/// The ports that are left without a holder when a client gives up its
/// stakes in the ports of a scope are the ports of the scope that were held
/// and are not held any more; none is named twice.
pub proof fn lemma_released_ports(
    m: Map<Port, PortSubscriptionView>,
    client: ClientId,
    scope: Option<Port>,
)
    requires
        subscriptions_wf(m),
    ensures
        released_ports(m, client, scope).no_duplicates(),
        forall|port: Port| #[trigger]
            released_ports(m, client, scope).contains(port) <==> in_scope(scope, port)
                && holds_port(m, port) && !holds_port(after_release(m, client, scope), port),
{
    assert(vstd::relations::total_ordering(port_at_most()));
    lemma_sorted_listing(m.dom(), port_at_most());
    lemma_filter_members(ascending_ports(m.dom()), left_empty(m, client, scope));
}

} // verus!
