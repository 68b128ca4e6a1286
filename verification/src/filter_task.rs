//! The decisions of a filter task: the task that owns one connection to a
//! filtered port, reads its requests, passes each to the first client whose
//! filter matches, and writes the client's response back.

use crate::action::{HandlerHttpRequest, HandlerHttpRequestView};
use crate::filter::{filters_view, first_match, first_matching_client, FilterEntry, FilterEntryView};
use crate::protocol::{
    ClientId, ConnectionId, HttpRequest, HttpRequestView, HttpResponse, HttpResponseView,
    ParsedRequest, ParsedRequestView, Port, RequestId,
};
use vstd::prelude::*;

verus! {

/// Where a filter task stands.
#[derive(Clone, Copy, Debug, PartialEq, Eq, Structural)]
pub enum TaskPhase {
    /// It waits for the next request on its socket.
    Idle,
    /// It has passed a request on and waits for the response.
    Awaiting(RequestId),
    /// It is over.
    Closed,
}

/// What a filter task writes when no client answers a request.
#[derive(Clone, Copy, Debug, PartialEq, Eq, Structural)]
pub enum ErrorResponse {
    /// No filter matched the request.
    Unhandled,
    /// The client that the request went to did not answer.
    BadGateway,
}

/// Something for the runner of a filter task to do.
#[derive(Debug, PartialEq, Eq)]
pub enum FilterAction {
    /// Pass the request to the stealer, with a new sink for its response.
    Forward(HandlerHttpRequest),
    /// Write the response to the socket.
    WriteResponse(HttpResponse),
    /// Write a minimal error response to the socket.
    WriteError(ErrorResponse),
    /// Close the socket.
    CloseSocket,
    /// Tell the stealer that the connection is over.
    NotifyClosed(ConnectionId),
}

pub enum FilterActionView {
    Forward(HandlerHttpRequestView),
    WriteResponse(HttpResponseView),
    WriteError(ErrorResponse),
    CloseSocket,
    NotifyClosed(ConnectionId),
}

impl View for FilterAction {
    type V = FilterActionView;

    open spec fn view(&self) -> FilterActionView {
        match self {
            FilterAction::Forward(request) => FilterActionView::Forward(request@),
            FilterAction::WriteResponse(response) => FilterActionView::WriteResponse(response@),
            FilterAction::WriteError(error) => FilterActionView::WriteError(*error),
            FilterAction::CloseSocket => FilterActionView::CloseSocket,
            FilterAction::NotifyClosed(connection_id) => FilterActionView::NotifyClosed(
                *connection_id,
            ),
        }
    }
}

/// A list of actions, each by its view.
pub open spec fn filter_actions_view(actions: Seq<FilterAction>) -> Seq<FilterActionView> {
    actions.map_values(|a: FilterAction| a@)
}

/// What a filter task keeps track of.
pub struct FilterTaskView {
    pub connection_id: ConnectionId,
    pub port: Port,
    pub filters: Seq<FilterEntryView>,
    pub next_request_id: RequestId,
    pub phase: TaskPhase,
}

/// A task's state with the actions that led to it.
pub struct TaskOutcome {
    pub state: FilterTaskView,
    pub actions: Seq<FilterActionView>,
}

impl FilterTaskView {
    /// The request as it is passed on: with its connection, its number and
    /// its port.
    pub open spec fn numbered(self, request: ParsedRequestView) -> HttpRequestView {
        HttpRequestView {
            connection_id: self.connection_id,
            request_id: self.next_request_id,
            port: self.port,
            internal_request: request,
        }
    }

    /// The task ends: after what is still to be written, the socket is closed
    /// and the stealer is told.
    pub open spec fn close(self, first: Seq<FilterActionView>) -> TaskOutcome {
        TaskOutcome {
            state: FilterTaskView { phase: TaskPhase::Closed, ..self },
            actions: first + seq![
                FilterActionView::CloseSocket,
                FilterActionView::NotifyClosed(self.connection_id),
            ],
        }
    }

    /// Nothing changes and nothing is to be done.
    pub open spec fn unchanged(self) -> TaskOutcome {
        TaskOutcome { state: self, actions: Seq::empty() }
    }

    /// A request was read, and `matched` is the client that it goes to, if
    /// there is one. A task that waits for a request passes it to that
    /// client, under the next request number; if there is no such client, or
    /// if the numbers have run out, it answers that the request is unhandled
    /// and ends.
    pub open spec fn dispatch(
        self,
        request: ParsedRequestView,
        matched: Option<ClientId>,
    ) -> TaskOutcome {
        if self.phase != TaskPhase::Idle {
            self.unchanged()
        } else {
            match matched {
                Some(client) if self.next_request_id < u64::MAX => TaskOutcome {
                    state: FilterTaskView {
                        next_request_id: (self.next_request_id + 1) as u64,
                        phase: TaskPhase::Awaiting(self.next_request_id),
                        ..self
                    },
                    actions: seq![
                        FilterActionView::Forward(
                            HandlerHttpRequestView {
                                client_id: client,
                                request: self.numbered(request),
                            },
                        ),
                    ],
                },
                _ => self.close(seq![FilterActionView::WriteError(ErrorResponse::Unhandled)]),
            }
        }
    }

    /// A request was read: it goes to the first client whose filter matches.
    pub open spec fn request(self, request: ParsedRequestView) -> TaskOutcome {
        self.dispatch(request, first_match(self.filters, request))
    }

    /// The wait for a response is over: with the response, or with `None`
    /// when its sink was dropped. The response to the awaited request is
    /// written back, and the task goes on to the next request if the
    /// connection is kept alive; anything else is answered with a gateway
    /// error, and the task ends.
    pub open spec fn response(
        self,
        response: Option<HttpResponseView>,
        keep_alive: bool,
    ) -> TaskOutcome {
        match self.phase {
            TaskPhase::Awaiting(request_id) => match response {
                Some(r) if r.connection_id == self.connection_id && r.request_id == request_id => {
                    if keep_alive {
                        TaskOutcome {
                            state: FilterTaskView { phase: TaskPhase::Idle, ..self },
                            actions: seq![FilterActionView::WriteResponse(r)],
                        }
                    } else {
                        self.close(seq![FilterActionView::WriteResponse(r)])
                    }
                },
                _ => self.close(seq![FilterActionView::WriteError(ErrorResponse::BadGateway)]),
            },
            _ => self.unchanged(),
        }
    }

    /// The socket is at its end, or what came on it is no HTTP: a task that
    /// is not over yet ends.
    pub open spec fn end(self) -> TaskOutcome {
        if self.phase == TaskPhase::Closed {
            self.unchanged()
        } else {
            self.close(Seq::empty())
        }
    }
}

/// How often the stealer is told that a connection is over.
pub open spec fn notifications(actions: Seq<FilterActionView>) -> nat {
    actions.filter(|a: FilterActionView| a is NotifyClosed).len()
}

/// A filter task: the owner of one connection to a filtered port.
pub struct FilterTask {
    connection_id: ConnectionId,
    port: Port,
    filters: Vec<FilterEntry>,
    next_request_id: RequestId,
    phase: TaskPhase,
}

impl FilterTask {
    /// The task as a mathematical state.
    pub closed spec fn view(&self) -> FilterTaskView {
        FilterTaskView {
            connection_id: self.connection_id,
            port: self.port,
            filters: filters_view(self.filters@),
            next_request_id: self.next_request_id,
            phase: self.phase,
        }
    }

    /// The task for the connection `connection_id` to `port`, with the
    /// filters that the port had when the connection was accepted.
    pub fn new(connection_id: ConnectionId, port: Port, filters: Vec<FilterEntry>) -> (r: Self)
        ensures
            r@ == (FilterTaskView {
                connection_id,
                port,
                filters: filters_view(filters@),
                next_request_id: 0,
                phase: TaskPhase::Idle,
            }),
    {
        FilterTask { connection_id, port, filters, next_request_id: 0, phase: TaskPhase::Idle }
    }

    /// Where the task stands.
    pub fn phase(&self) -> (r: TaskPhase)
        ensures
            r == self@.phase,
    {
        self.phase
    }

    fn close(&mut self, first: Vec<FilterAction>) -> (r: Vec<FilterAction>)
        ensures
            final(self)@ == old(self)@.close(filter_actions_view(first@)).state,
            filter_actions_view(r@) == old(self)@.close(filter_actions_view(first@)).actions,
    {
        let mut actions = first;
        self.phase = TaskPhase::Closed;
        actions.push(FilterAction::CloseSocket);
        actions.push(FilterAction::NotifyClosed(self.connection_id));
        assert(filter_actions_view(actions@) =~= old(self)@.close(
            filter_actions_view(first@),
        ).actions);
        actions
    }

    /// Handles a request read from the socket, which goes to the client
    /// `matched` if there is one.
    pub fn dispatch(&mut self, request: ParsedRequest, matched: Option<ClientId>) -> (r: Vec<
        FilterAction,
    >)
        ensures
            final(self)@ == old(self)@.dispatch(request@, matched).state,
            filter_actions_view(r@) == old(self)@.dispatch(request@, matched).actions,
    {
        let mut actions: Vec<FilterAction> = Vec::new();
        match self.phase {
            TaskPhase::Idle => {},
            _ => {
                assert(filter_actions_view(actions@) =~= Seq::empty());
                return actions;
            },
        }
        match matched {
            Some(client) => {
                if self.next_request_id < u64::MAX {
                    let numbered = self.numbered(request);
                    self.phase = TaskPhase::Awaiting(self.next_request_id);
                    self.next_request_id = self.next_request_id + 1;
                    actions.push(
                        FilterAction::Forward(
                            HandlerHttpRequest { client_id: client, request: numbered },
                        ),
                    );
                    assert(filter_actions_view(actions@) =~= old(self)@.dispatch(
                        request@,
                        matched,
                    ).actions);
                    return actions;
                }
            },
            None => {},
        }
        actions.push(FilterAction::WriteError(ErrorResponse::Unhandled));
        assert(filter_actions_view(actions@) =~= seq![
            FilterActionView::WriteError(ErrorResponse::Unhandled),
        ]);
        self.close(actions)
    }

    fn numbered(&self, request: ParsedRequest) -> (r: HttpRequest)
        ensures
            r@ == self@.numbered(request@),
    {
        HttpRequest {
            connection_id: self.connection_id,
            request_id: self.next_request_id,
            port: self.port,
            internal_request: request,
        }
    }

    /// Handles a request read from the socket: finds the first client whose
    /// filter matches it and passes it on, or answers that it is unhandled.
    pub fn request(&mut self, request: ParsedRequest) -> (r: Vec<FilterAction>)
        ensures
            final(self)@ == old(self)@.request(request@).state,
            filter_actions_view(r@) == old(self)@.request(request@).actions,
    {
        let matched = first_matching_client(&self.filters, &request);
        self.dispatch(request, matched)
    }

    /// Handles the end of the wait for a response.
    pub fn response(&mut self, response: Option<HttpResponse>, keep_alive: bool) -> (r: Vec<
        FilterAction,
    >)
        ensures
            final(self)@ == old(self)@.response(
                match response {
                    Some(r) => Some(r@),
                    None => None,
                },
                keep_alive,
            ).state,
            filter_actions_view(r@) == old(self)@.response(
                match response {
                    Some(r) => Some(r@),
                    None => None,
                },
                keep_alive,
            ).actions,
    {
        let mut actions: Vec<FilterAction> = Vec::new();
        let awaited = match self.phase {
            TaskPhase::Awaiting(request_id) => request_id,
            _ => {
                assert(filter_actions_view(actions@) =~= Seq::empty());
                return actions;
            },
        };
        match response {
            Some(answer) => {
                if answer.connection_id == self.connection_id && answer.request_id == awaited {
                    let ghost written = answer@;
                    actions.push(FilterAction::WriteResponse(answer));
                    assert(filter_actions_view(actions@) =~= seq![
                        FilterActionView::WriteResponse(written),
                    ]);
                    if keep_alive {
                        self.phase = TaskPhase::Idle;
                        return actions;
                    } else {
                        return self.close(actions);
                    }
                }
            },
            None => {},
        }
        actions.push(FilterAction::WriteError(ErrorResponse::BadGateway));
        assert(filter_actions_view(actions@) =~= seq![
            FilterActionView::WriteError(ErrorResponse::BadGateway),
        ]);
        self.close(actions)
    }

    /// Handles the end of the socket's stream, or an error on it.
    pub fn end(&mut self) -> (r: Vec<FilterAction>)
        ensures
            final(self)@ == old(self)@.end().state,
            filter_actions_view(r@) == old(self)@.end().actions,
    {
        let actions: Vec<FilterAction> = Vec::new();
        assert(filter_actions_view(actions@) =~= Seq::empty());
        match self.phase {
            TaskPhase::Closed => actions,
            _ => self.close(actions),
        }
    }
}

/// A filter task tells the stealer that its connection is over when it ends
/// and at no other time: once with the step that ends it, whatever that step
/// is, and never after.
pub proof fn lemma_task_notifies_once(
    task: FilterTaskView,
    request: ParsedRequestView,
    response: Option<HttpResponseView>,
    keep_alive: bool,
)
    ensures
        notified_as_it_ends(task, task.request(request)),
        notified_as_it_ends(task, task.response(response, keep_alive)),
        notified_as_it_ends(task, task.end()),
{
    reveal_with_fuel(Seq::filter, 4);
    let is_notice = |a: FilterActionView| a is NotifyClosed;
    assert(Seq::<FilterActionView>::empty().filter(is_notice).len() == 0);
    lemma_close_notifies_once(task, Seq::empty());
    lemma_close_notifies_once(task, seq![FilterActionView::WriteError(ErrorResponse::Unhandled)]);
    lemma_close_notifies_once(task, seq![FilterActionView::WriteError(ErrorResponse::BadGateway)]);
    if let Some(r) = response {
        lemma_close_notifies_once(task, seq![FilterActionView::WriteResponse(r)]);
        assert(seq![FilterActionView::WriteResponse(r)].filter(is_notice).len() == 0);
    }
    let forwarded = task.request(request).actions;
    if forwarded.len() == 1 && forwarded[0] is Forward {
        assert(forwarded.filter(is_notice).len() == 0);
    }
}

/// The stealer is told once if the step ends the task, and not at all
/// otherwise; the step of a task that is over does nothing.
pub open spec fn notified_as_it_ends(before: FilterTaskView, outcome: TaskOutcome) -> bool {
    &&& notifications(outcome.actions) == if before.phase != TaskPhase::Closed
        && outcome.state.phase == TaskPhase::Closed {
        1nat
    } else {
        0nat
    }
    &&& before.phase == TaskPhase::Closed ==> outcome == before.unchanged()
}

proof fn lemma_close_notifies_once(task: FilterTaskView, first: Seq<FilterActionView>)
    requires
        first.len() <= 1,
        forall|i: int| 0 <= i < first.len() ==> !(#[trigger] first[i] is NotifyClosed),
    ensures
        notifications(task.close(first).actions) == 1,
{
    let is_notice = |a: FilterActionView| a is NotifyClosed;
    let tail = seq![
        FilterActionView::CloseSocket,
        FilterActionView::NotifyClosed(task.connection_id),
    ];
    crate::relation::lemma_filter_none(first, is_notice);
    Seq::filter_distributes_over_add(first, tail, is_notice);
    reveal_with_fuel(Seq::filter, 4);
    assert(tail.drop_last() =~= seq![FilterActionView::CloseSocket]);
    assert(tail.drop_last().drop_last() =~= Seq::<FilterActionView>::empty());
    assert(tail.filter(is_notice).len() == 1);
}

/// The requests of one connection are numbered in the order in which they
/// are passed on: a request gets the next number, and every later one a
/// greater number.
pub proof fn lemma_request_ids_count_up(
    task: FilterTaskView,
    request: ParsedRequestView,
    matched: Option<ClientId>,
    response: Option<HttpResponseView>,
    keep_alive: bool,
)
    ensures
        task.dispatch(request, matched).state.next_request_id >= task.next_request_id,
        task.response(response, keep_alive).state.next_request_id == task.next_request_id,
        task.end().state.next_request_id == task.next_request_id,
        forall|i: int|
            0 <= i < task.dispatch(request, matched).actions.len() ==> (
            #[trigger] task.dispatch(request, matched).actions[i] matches FilterActionView::Forward(
                forwarded,
            ) ==> {
                &&& forwarded.request.request_id == task.next_request_id
                &&& forwarded.request.connection_id == task.connection_id
                &&& forwarded.request.internal_request == request
                &&& matched == Some(forwarded.client_id)
                &&& task.dispatch(request, matched).state.next_request_id > task.next_request_id
                &&& task.dispatch(request, matched).state.phase == TaskPhase::Awaiting(
                    task.next_request_id,
                )
            }),
{
}

/// The response to the awaited request is written to the socket, and is
/// written once: the task awaits nothing afterwards, so that a response
/// that comes again is passed over.
pub proof fn lemma_response_is_written_once(
    task: FilterTaskView,
    response: HttpResponseView,
    keep_alive: bool,
    again: Option<HttpResponseView>,
    keep_alive_again: bool,
)
    requires
        task.phase == TaskPhase::Awaiting(response.request_id),
        response.connection_id == task.connection_id,
    ensures
        task.response(Some(response), keep_alive).actions[0] == FilterActionView::WriteResponse(
            response,
        ),
        forall|i: int|
            1 <= i < task.response(Some(response), keep_alive).actions.len() ==> !(
            #[trigger] task.response(Some(response), keep_alive).actions[i] is WriteResponse),
        task.response(Some(response), keep_alive).state.response(again, keep_alive_again)
            == task.response(Some(response), keep_alive).state.unchanged(),
{
}

} // verus!
