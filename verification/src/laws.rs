//! What holds of the stealer whatever the events are.

use crate::action::{ActionView, EventView};
use crate::filter::FilterEntryView;
use crate::index_allocator::{lemma_lowest_vacant_from, lemma_lowest_vacant_none, lowest_vacant};
use crate::model::{Outcome, ReadView, StealerView};
use crate::preservation::{
    lemma_deliver_http_request_wf, lemma_http_connection_closed_wf, lemma_initial_wf,
    lemma_no_filtered_trace, lemma_step_wf, lemma_without_connection_wf,
};
use crate::protocol::{
    ClientId, ConnectionId, DaemonTcpView, HttpFilterView, HttpRequestView, HttpResponseView,
    IpAddress, Port, SocketAddress, TcpClose, TcpDataView,
};
use crate::relation::{lemma_seconds_of, lemma_with_pair, lemma_without_pair, seconds_of};
use crate::subscriptions::{
    add_outcome, after_add, holds_port, subscription_at, subscriptions_wf, PortSubscriptionView,
};
use vstd::prelude::*;

verus! {

/// The state after a run of events, each handled in turn.
pub open spec fn run(s: StealerView, events: Seq<EventView>) -> StealerView
    decreases events.len(),
{
    if events.len() == 0 {
        s
    } else {
        run(s, events.drop_last()).step(events.last()).state
    }
}

/// From the initial state, whatever events come and in whatever order, the
/// tables meet their invariant after each of them.
pub proof fn lemma_invariant_always(capacity: nat, events: Seq<EventView>)
    requires
        capacity <= u64::MAX,
    ensures
        run(StealerView::initial(capacity), events).wf(),
    decreases events.len(),
{
    lemma_initial_wf(capacity);
    if events.len() > 0 {
        lemma_invariant_always(capacity, events.drop_last());
        lemma_step_wf(run(StealerView::initial(capacity), events.drop_last()), events.last());
    }
}

/// An id that is free occurs in no table.
pub proof fn lemma_free_id_in_no_table(s: StealerView, connection_id: ConnectionId)
    requires
        s.wf(),
        !s.allocated.contains(connection_id),
    ensures
        !s.mentions(connection_id),
{
    lemma_no_filtered_trace(s, connection_id);
    if exists|client: ClientId| s.client_connections.contains((client, connection_id)) {
        let client = choose|client: ClientId|
            s.client_connections.contains((client, connection_id));
        assert(s.connection_clients.contains_key(connection_id));
    }
}

/// The id that the next connection gets is below the cap and occurs in no
/// table: an id is not used again before every table has let go of it.
pub proof fn lemma_next_id_is_fresh(s: StealerView)
    requires
        s.wf(),
    ensures
        lowest_vacant(s.allocated, s.capacity) matches Some(connection_id) ==> {
            &&& connection_id < s.capacity
            &&& !s.allocated.contains(connection_id)
            &&& !s.mentions(connection_id)
        },
{
    lemma_lowest_vacant_from(s.allocated, 0, s.capacity);
    if let Some(connection_id) = lowest_vacant(s.allocated, s.capacity) {
        lemma_free_id_in_no_table(s, connection_id);
    }
}

/// When every id is in use, a connection to a held port is refused, whoever
/// holds the port; when an id is free, it is not.
pub proof fn lemma_refused_at_the_cap(
    s: StealerView,
    client: ClientId,
    peer: SocketAddress,
    port: Port,
    local_address: IpAddress,
    filters: Seq<FilterEntryView>,
)
    requires
        s.wf(),
    ensures
        (forall|c: ConnectionId| c < s.capacity ==> s.allocated.contains(c))
            <==> s.steal_connection(client, peer, port, local_address) is None,
        (forall|c: ConnectionId| c < s.capacity ==> s.allocated.contains(c))
            <==> s.filter_connection(port, filters) is None,
{
    lemma_lowest_vacant_from(s.allocated, 0, s.capacity);
    if forall|c: ConnectionId| c < s.capacity ==> s.allocated.contains(c) {
        lemma_lowest_vacant_none(s.allocated, 0, s.capacity);
    }
}

/// The chunks read from a connection, handled in turn.
pub open spec fn read_all(
    s: StealerView,
    connection_id: ConnectionId,
    chunks: Seq<Seq<u8>>,
) -> Outcome
    decreases chunks.len(),
{
    if chunks.len() == 0 {
        s.unchanged()
    } else {
        let before = read_all(s, connection_id, chunks.drop_last());
        let last = before.state.forward_incoming_tcp_data(connection_id, Some(Ok(chunks.last())));
        Outcome { state: last.state, actions: before.actions + last.actions }
    }
}

/// The message that carries `bytes` of `connection_id` to `client`.
pub open spec fn data_for(client: ClientId, connection_id: ConnectionId) -> spec_fn(
    Seq<u8>,
) -> ActionView {
    |bytes: Seq<u8>|
        ActionView::Send {
            client_id: client,
            message: DaemonTcpView::Data(TcpDataView { connection_id, bytes }),
        }
}

/// What is read from a whole stolen connection goes to its owner and to
/// nobody else, chunk for chunk: the same bytes in the same order, with
/// nothing added, and the tables stay as they are.
pub proof fn lemma_bytes_pass_through(
    s: StealerView,
    connection_id: ConnectionId,
    chunks: Seq<Seq<u8>>,
)
    requires
        s.wf(),
        s.is_raw(connection_id),
    ensures
        read_all(s, connection_id, chunks).state == s,
        read_all(s, connection_id, chunks).actions == chunks.map_values(
            data_for(s.connection_clients[connection_id], connection_id),
        ),
    decreases chunks.len(),
{
    let owner = s.connection_clients[connection_id];
    if chunks.len() == 0 {
        assert(read_all(s, connection_id, chunks).actions =~= chunks.map_values(
            data_for(owner, connection_id),
        ));
    } else {
        lemma_bytes_pass_through(s, connection_id, chunks.drop_last());
        assert(chunks =~= chunks.drop_last().push(chunks.last()));
        chunks.drop_last().lemma_push_map_commute(data_for(owner, connection_id), chunks.last());
        assert(read_all(s, connection_id, chunks).actions =~= chunks.map_values(
            data_for(owner, connection_id),
        ));
    }
}

/// A connection stolen as a whole is announced to the client that holds the
/// port, and is from then on that client's.
pub proof fn lemma_stolen_connection_is_owned(
    s: StealerView,
    client: ClientId,
    peer: SocketAddress,
    port: Port,
    local_address: IpAddress,
)
    requires
        s.wf(),
        s.clients.contains_key(client),
        s.steal_connection(client, peer, port, local_address) is Some,
    ensures
        ({
            let connection_id = lowest_vacant(s.allocated, s.capacity)->Some_0;
            let outcome = s.steal_connection(client, peer, port, local_address)->Some_0;
            &&& !s.mentions(connection_id)
            &&& outcome.state.is_raw(connection_id)
            &&& outcome.state.connection_clients[connection_id] == client
            &&& outcome.actions.len() == 2
            &&& outcome.actions[1] matches ActionView::Send {
                client_id,
                message: DaemonTcpView::NewConnection(announced),
            } && client_id == client && announced.connection_id == connection_id
        }),
{
    lemma_next_id_is_fresh(s);
}

/// When a whole stolen connection ends, its owner is told so once and
/// nobody else is told; the connection is then in no table and its id is
/// free, so that nothing that comes later under its id is passed on.
pub proof fn lemma_raw_connection_closes_once(
    s: StealerView,
    connection_id: ConnectionId,
    later: ReadView,
)
    requires
        s.wf(),
        s.is_raw(connection_id),
    ensures
        s.connection_ended(connection_id).actions == seq![
            ActionView::Send {
                client_id: s.connection_clients[connection_id],
                message: DaemonTcpView::Close(TcpClose { connection_id }),
            },
            ActionView::CloseConnection { connection_id },
        ],
        !s.connection_ended(connection_id).state.allocated.contains(connection_id),
        !s.connection_ended(connection_id).state.mentions(connection_id),
        s.connection_ended(connection_id).state.forward_incoming_tcp_data(
            connection_id,
            later,
        ) == s.connection_ended(connection_id).state.unchanged(),
        s.connection_ended(connection_id).state.http_connection_closed(connection_id)
            == s.connection_ended(connection_id).state.unchanged(),
{
    lemma_without_connection_wf(s, connection_id);
    assert(s.connection_ended(connection_id).actions =~= seq![
        ActionView::Send {
            client_id: s.connection_clients[connection_id],
            message: DaemonTcpView::Close(TcpClose { connection_id }),
        },
        ActionView::CloseConnection { connection_id },
    ]);
}

/// A client that is sent a request of a filtered connection is noted for
/// that connection, and the response to the request is awaited.
pub proof fn lemma_delivered_request_is_noted(
    s: StealerView,
    client: ClientId,
    request: HttpRequestView,
    framed: bool,
)
    requires
        s.wf(),
        s.is_filtered(request.connection_id),
        s.clients.contains_key(client),
    ensures
        ({
            let after = s.deliver_http_request(client, request, framed).state;
            &&& seconds_of(after.http_connection_clients, request.connection_id).contains(client)
            &&& after.http_response_senders.contains(
                (request.connection_id, request.request_id),
            )
            &&& forall|other: ClientId|
                seconds_of(after.http_connection_clients, request.connection_id).contains(other)
                    ==> other == client || seconds_of(
                    s.http_connection_clients,
                    request.connection_id,
                ).contains(other)
        }),
{
    let after = s.deliver_http_request(client, request, framed).state;
    lemma_with_pair(s.http_connection_clients, (request.connection_id, client));
    lemma_with_pair(s.http_response_senders, (request.connection_id, request.request_id));
    lemma_seconds_of(after.http_connection_clients, request.connection_id);
    lemma_seconds_of(s.http_connection_clients, request.connection_id);
}

/// When a filtered connection ends, the clients that are told so are the
/// registered clients that were sent a request of it, each once; the
/// connection is then in no table and its id is free, so that a second end of
/// it changes nothing and tells nobody.
pub proof fn lemma_filtered_connection_closes_once(s: StealerView, connection_id: ConnectionId)
    requires
        s.wf(),
        s.is_filtered(connection_id),
    ensures
        ({
            let told = seconds_of(s.http_connection_clients, connection_id).filter(
                crate::model::registered_in(s.clients),
            );
            let outcome = s.http_connection_closed(connection_id);
            &&& told.no_duplicates()
            &&& forall|client: ClientId|
                told.contains(client) <==> s.clients.contains_key(client)
                    && s.http_connection_clients.contains((connection_id, client))
            &&& outcome.actions.subrange(0, told.len() as int) == told.map_values(
                crate::model::close_notice(connection_id),
            )
            &&& forall|i: int|
                told.len() <= i < outcome.actions.len() ==> #[trigger] outcome.actions[i]
                    is DropResponse
            &&& !outcome.state.allocated.contains(connection_id)
            &&& !outcome.state.mentions(connection_id)
            &&& outcome.state.http_connection_closed(connection_id) == outcome.state.unchanged()
        }),
{
    let noted = seconds_of(s.http_connection_clients, connection_id);
    let told = noted.filter(crate::model::registered_in(s.clients));
    let outcome = s.http_connection_closed(connection_id);
    lemma_seconds_of(s.http_connection_clients, connection_id);
    crate::relation::lemma_filter_members(noted, crate::model::registered_in(s.clients));
    lemma_http_connection_closed_wf(s, connection_id);
    let notices = told.map_values(crate::model::close_notice(connection_id));
    assert(outcome.actions.subrange(0, told.len() as int) =~= notices);
}

/// A request of a filter task's connection for a registered client goes to
/// that client and to nobody else, unaltered and in the form that the
/// client's protocol version calls for: framed if the version takes the
/// framed form, plain if not. The client is noted for the connection and
/// the sink is kept under the request's key; nothing else changes in any
/// table.
pub proof fn lemma_forwarded_request_goes_to_its_client(
    s: StealerView,
    client: ClientId,
    request: HttpRequestView,
)
    requires
        s.wf(),
        s.is_filtered(request.connection_id),
        s.clients.contains_key(client),
    ensures
        ({
            let forwarded = s.forward_stolen_http_request(client, request);
            let key = (request.connection_id, request.request_id);
            &&& forwarded.actions == seq![
                ActionView::AwaitResponse {
                    connection_id: request.connection_id,
                    request_id: request.request_id,
                },
                ActionView::Send {
                    client_id: client,
                    message: if crate::version::takes_framed(s.clients[client]) {
                        DaemonTcpView::HttpRequestFramed(request)
                    } else {
                        DaemonTcpView::HttpRequest(request)
                    },
                },
            ]
            &&& forall|i: int|
                0 <= i < forwarded.actions.len() ==> (
                #[trigger] forwarded.actions[i] matches ActionView::Send { client_id, .. }
                    ==> client_id == client)
            &&& forall|p: (ConnectionId, ClientId)| #[trigger]
                forwarded.state.http_connection_clients.contains(p)
                    <==> s.http_connection_clients.contains(p) || p == (
                    request.connection_id,
                    client,
                )
            &&& forall|p: (ConnectionId, ConnectionId)| #[trigger]
                forwarded.state.http_response_senders.contains(p)
                    <==> s.http_response_senders.contains(p) || p == key
            &&& forwarded.state == (StealerView {
                http_connection_clients: forwarded.state.http_connection_clients,
                http_response_senders: forwarded.state.http_response_senders,
                ..s
            })
        }),
{
    lemma_with_pair(s.http_connection_clients, (request.connection_id, client));
    lemma_with_pair(s.http_response_senders, (request.connection_id, request.request_id));
}

/// A response to an awaited request is handed to the request's sink, and is
/// handed over once: the same response, or any other to the same request,
/// is dropped when it comes again.
pub proof fn lemma_response_is_handed_over_once(
    s: StealerView,
    response: HttpResponseView,
    again: HttpResponseView,
)
    requires
        s.wf(),
        s.http_response_senders.contains((response.connection_id, response.request_id)),
        again.connection_id == response.connection_id,
        again.request_id == response.request_id,
    ensures
        s.http_response(response).actions == seq![ActionView::Respond(response)],
        s.http_response(response).state.http_response(again) == s.http_response(
            response,
        ).state.unchanged(),
{
    lemma_without_pair(
        s.http_response_senders,
        (response.connection_id, response.request_id),
    );
}

/// The round trip of a stolen request: once it is sent on to a registered
/// client, the client's response to it is handed to its sink, once.
pub proof fn lemma_request_round_trip(
    s: StealerView,
    client: ClientId,
    request: HttpRequestView,
    framed: bool,
    response: HttpResponseView,
)
    requires
        s.wf(),
        s.is_filtered(request.connection_id),
        s.clients.contains_key(client),
        response.connection_id == request.connection_id,
        response.request_id == request.request_id,
    ensures
        ({
            let sent = s.deliver_http_request(client, request, framed);
            let answered = sent.state.http_response(response);
            &&& sent.actions.len() == 2
            &&& sent.actions[1] == (ActionView::Send {
                client_id: client,
                message: if framed {
                    DaemonTcpView::HttpRequestFramed(request)
                } else {
                    DaemonTcpView::HttpRequest(request)
                },
            })
            &&& answered.actions == seq![ActionView::Respond(response)]
            &&& answered.state.http_response(response) == answered.state.unchanged()
        }),
{
    let sent = s.deliver_http_request(client, request, framed);
    lemma_deliver_http_request_wf(s, client, request, framed);
    lemma_delivered_request_is_noted(s, client, request, framed);
    lemma_response_is_handed_over_once(sent.state, response, response);
}

/// A client that holds a stake in a port, alone or through a filter, is
/// turned down when it subscribes to that port again, with or without filter.
pub proof fn lemma_second_subscription_is_refused(
    m: Map<Port, PortSubscriptionView>,
    client: ClientId,
    port: Port,
    first: Option<HttpFilterView>,
    second: Option<HttpFilterView>,
)
    requires
        subscriptions_wf(m),
        !(add_outcome(m, client, port, first) is Rejected),
    ensures
        add_outcome(after_add(m, client, port, first), client, port, second) is Rejected,
        after_add(after_add(m, client, port, first), client, port, second) == after_add(
            m,
            client,
            port,
            first,
        ),
{
    let t = after_add(m, client, port, first);
    if let PortSubscriptionView::Filtered(filters) = t[port] {
        assert(filters[filters.len() - 1].client_id == client);
    }
}

/// A port that one client holds alone takes no filter, and a filtered port
/// takes no client that wants it whole: after a first subscription of one
/// kind to a free port, a subscription of the other kind is turned down,
/// whoever asks.
pub proof fn lemma_whole_and_filtered_exclude_each_other(
    m: Map<Port, PortSubscriptionView>,
    holder: ClientId,
    other: ClientId,
    port: Port,
    filter: HttpFilterView,
    other_filter: HttpFilterView,
)
    requires
        subscriptions_wf(m),
        !holds_port(m, port),
    ensures
        add_outcome(after_add(m, holder, port, None), other, port, Some(other_filter))
            is Rejected,
        add_outcome(after_add(m, holder, port, Some(filter)), other, port, None) is Rejected,
{
}

/// Once the only holder of a port has given the port up, a connection that
/// was on its way to the port is not kept: no id is taken, no table changes
/// and no client hears of it.
pub proof fn lemma_late_connection_is_dropped(
    s: StealerView,
    client: ClientId,
    peer: SocketAddress,
    original_destination: SocketAddress,
    local_address: IpAddress,
)
    requires
        s.wf(),
        subscription_at(s.port_subscriptions, original_destination.port) matches Some(
            subscription,
        ) ==> crate::subscriptions::subscription_without(subscription, client) is None,
    ensures
        ({
            let after = s.port_unsubscribe(client, original_destination.port).state;
            &&& subscription_at(after.port_subscriptions, original_destination.port) is None
            &&& after.incoming_connection(peer, original_destination, local_address) == Some(
                after.unchanged(),
            )
        }),
        ({
            let after = s.close_client(client).state;
            &&& subscription_at(after.port_subscriptions, original_destination.port) is None
            &&& after.incoming_connection(peer, original_destination, local_address) == Some(
                after.unchanged(),
            )
        }),
{
    crate::subscriptions::lemma_after_release_at(
        s.port_subscriptions,
        client,
        Some(original_destination.port),
        original_destination.port,
    );
    crate::subscriptions::lemma_after_release_at(
        s.port_subscriptions,
        client,
        None,
        original_destination.port,
    );
}

/// A client is told that a connection is over only when the connection
/// ends: a whole stolen connection by the end of its stream or an error, and
/// then its owner is told; a filtered connection by the end of its filter
/// task or at a client's wish, and then a client is told that was sent a
/// request of it. The connection's id is free afterwards, so that no client
/// is told twice.
pub proof fn lemma_close_is_sent_at_the_end_only(
    s: StealerView,
    event: EventView,
    i: int,
    client: ClientId,
    connection_id: ConnectionId,
)
    requires
        s.wf(),
        s.step(event).step matches crate::action::StepView::Continue(actions) && 0 <= i
            < actions.len() && actions[i] == (ActionView::Send {
            client_id: client,
            message: DaemonTcpView::Close(TcpClose { connection_id }),
        }),
    ensures
        s.allocated.contains(connection_id),
        !s.step(event).state.allocated.contains(connection_id),
        !s.step(event).state.mentions(connection_id),
        match event {
            EventView::Read { connection_id: read, incoming } => {
                &&& read == connection_id
                &&& !(incoming matches Some(Ok(_)))
                &&& s.is_raw(connection_id)
                &&& s.connection_clients[connection_id] == client
            },
            EventView::HttpClose(closed) => {
                &&& closed == connection_id
                &&& s.is_filtered(connection_id)
                &&& s.http_connection_clients.contains((connection_id, client))
            },
            EventView::Command(Some(command)) => {
                &&& command.command == crate::action::CommandView::ConnectionUnsubscribe(
                    connection_id,
                )
                &&& s.is_filtered(connection_id)
                &&& s.http_connection_clients.contains((connection_id, client))
            },
            _ => false,
        },
{
    let actions = s.step(event).step->Continue_0;
    match event {
        EventView::Command(Some(command)) => {
            match command.command {
                crate::action::CommandView::ConnectionUnsubscribe(closed) => {
                    if !s.is_raw(closed) {
                        lemma_filtered_close_tells_the_noted(s, closed, i);
                    }
                },
                _ => lemma_no_close_in_command(s, command.client_id, command.command, i),
            }
        },
        EventView::Accept(Some(accepted)) => {
            let port = accepted.original_destination.port;
            match subscription_at(s.port_subscriptions, port) {
                Some(PortSubscriptionView::Unfiltered(holder)) => {
                    if !s.clients.contains_key(holder) {
                        lemma_no_close_in_close_client(s, holder, i);
                    }
                },
                _ => {},
            }
        },
        EventView::Read { connection_id: read, incoming } => {
            if s.is_raw(read) {
                lemma_without_connection_wf(s, read);
            }
        },
        EventView::HttpClose(closed) => {
            lemma_filtered_close_tells_the_noted(s, closed, i);
        },
        EventView::SendFailed { client_id } => {
            lemma_no_close_in_close_client(s, client_id, i);
        },
        _ => {},
    }
}

/// Whoever is sent something at the end of a filtered connection is told
/// that this connection is over, and was sent a request of it before.
proof fn lemma_filtered_close_tells_the_noted(s: StealerView, closed: ConnectionId, i: int)
    requires
        s.wf(),
        0 <= i < s.http_connection_closed(closed).actions.len(),
    ensures
        s.is_filtered(closed),
        !s.http_connection_closed(closed).state.allocated.contains(closed),
        !s.http_connection_closed(closed).state.mentions(closed),
        s.http_connection_closed(closed).actions[i] matches ActionView::Send {
            client_id,
            message,
        } ==> message == DaemonTcpView::Close(TcpClose { connection_id: closed })
            && s.http_connection_clients.contains((closed, client_id)),
{
    lemma_http_connection_closed_wf(s, closed);
    let noted = seconds_of(s.http_connection_clients, closed);
    let told = noted.filter(crate::model::registered_in(s.clients));
    lemma_seconds_of(s.http_connection_clients, closed);
    crate::relation::lemma_filter_members(noted, crate::model::registered_in(s.clients));
    if i < told.len() {
        assert(told.contains(told[i]));
    }
}

/// Forgetting a client sends nothing to anybody.
proof fn lemma_no_close_in_close_client(s: StealerView, client: ClientId, i: int)
    requires
        0 <= i < s.close_client(client).actions.len(),
    ensures
        !(s.close_client(client).actions[i] is Send),
{
}

/// No command but the one that closes a connection makes the stealer tell
/// a client that a connection is over.
proof fn lemma_no_close_in_command(
    s: StealerView,
    client: ClientId,
    command: crate::action::CommandView,
    i: int,
)
    requires
        !(command is ConnectionUnsubscribe),
        0 <= i < s.handle_command(client, command).actions.len(),
    ensures
        !(s.handle_command(client, command).actions[i] matches ActionView::Send {
            message: DaemonTcpView::Close(_),
            ..
        }),
{
    match command {
        crate::action::CommandView::ClientClose => lemma_no_close_in_close_client(s, client, i),
        _ => {},
    }
}

/// A registered client that asks for a port is answered once: at once,
/// or, where the port was free, when its redirection is reported on, with
/// success if it was installed and with the redirector's message if not.
pub proof fn lemma_subscriber_is_answered_once(
    s: StealerView,
    client: ClientId,
    steal: crate::protocol::StealTypeView,
    message: Seq<char>,
)
    requires
        s.wf(),
        s.clients.contains_key(client),
    ensures
        ({
            let asked = s.port_subscribe(client, steal);
            let port = crate::model::compile_steal(steal).0;
            ||| {
                &&& asked.actions.len() == 1
                &&& asked.actions[0] matches ActionView::Send {
                    client_id,
                    message: DaemonTcpView::SubscribeResult(_),
                } && client_id == client
            }
            ||| {
                &&& asked.actions == seq![ActionView::AddRedirection { port, client_id: client }]
                &&& asked.state.redirection_added(client, port).actions == seq![
                    ActionView::Send {
                        client_id: client,
                        message: DaemonTcpView::SubscribeResult(Ok(())),
                    },
                ]
                &&& asked.state.redirection_failed(client, port, message).actions == seq![
                    ActionView::Send {
                        client_id: client,
                        message: DaemonTcpView::SubscribeResult(
                            Err(
                                crate::protocol::SubscribeErrorView::RedirectionFailed(
                                    port,
                                    message,
                                ),
                            ),
                        ),
                    },
                ]
            }
        }),
{
}

} // verus!
