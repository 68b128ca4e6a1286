use bytes::Bytes;
use stealer::action::{Accepted, Action, Command, Event, HandlerHttpRequest, StealerCommand, Step};
use stealer::protocol::{
    DaemonTcp, HttpRequest, HttpResponse, IpAddress, ParsedRequest, SocketAddress, StealType,
    TcpData,
};
use stealer::stealer::{TcpConnectionStealer, CONNECTION_ID_CAP};
use stealer::subscriptions::PortSubscription;
use stealer::version::ProtocolVersion;

const CLIENTS: u64 = 4;
const PORTS: u16 = 5;
const REQUESTS: u64 = 3;

struct Dice(u64);

impl Dice {
    fn roll(&mut self, sides: u64) -> u64 {
        self.0 = self.0.wrapping_mul(6364136223846793005).wrapping_add(1442695040888963407);
        (self.0 >> 33) % sides
    }
}

fn request(client_id: u64, connection_id: u64, request_id: u64) -> HandlerHttpRequest {
    HandlerHttpRequest {
        client_id,
        request: HttpRequest {
            connection_id,
            request_id,
            port: 80,
            internal_request: ParsedRequest {
                method: "GET".to_string(),
                path: "/".to_string(),
                headers: Vec::new(),
                body: Vec::new(),
            },
        },
    }
}

fn event(dice: &mut Dice) -> Event {
    let client_id = dice.roll(CLIENTS);
    let port = 80 + dice.roll(PORTS as u64) as u16;
    let connection_id = dice.roll(CONNECTION_ID_CAP as u64 + 2);
    let request_id = dice.roll(REQUESTS);
    let command = |command| Event::Command(Some(StealerCommand { client_id, command }));
    match dice.roll(18) {
        0 => command(Command::NewClient(ProtocolVersion::new(1, dice.roll(5), 0))),
        1 => command(Command::PortSubscribe(StealType::All(port))),
        2 => command(Command::PortSubscribe(StealType::FilteredHttp(port, "x".to_string()))),
        3 => command(Command::PortSubscribe(StealType::FilteredHttp(port, "(".to_string()))),
        4 => command(Command::PortUnsubscribe(port)),
        5 => command(Command::ConnectionUnsubscribe(connection_id)),
        6 => command(Command::ClientClose),
        7 => command(Command::ResponseData(TcpData { connection_id, bytes: vec![1, 2, 3] })),
        8 => command(Command::HttpResponse(HttpResponse {
            connection_id,
            request_id,
            port,
            status: 200,
            headers: Vec::new(),
            body: Vec::new(),
        })),
        9 => command(Command::SwitchProtocolVersion(ProtocolVersion::new(1, 3, 0))),
        10 | 11 | 12 => Event::Accept(Some(Accepted {
            peer: SocketAddress { ip: IpAddress::V4(1, 2, 3, 4), port: 1000 },
            original_destination: SocketAddress { ip: IpAddress::V4(9, 9, 9, 9), port },
            local_address: IpAddress::V4(127, 0, 0, 1),
        })),
        13 => Event::Read { connection_id, incoming: Some(Ok(Bytes::from_static(b"abc"))) },
        14 => Event::Read { connection_id, incoming: None },
        15 => Event::HttpRequest(Some(request(client_id, connection_id, request_id))),
        16 => Event::HttpClose(connection_id),
        _ => Event::SendFailed { client_id },
    }
}

/// What the caller keeps on the stealer's word: open sockets, response sinks
/// and clients' channels.
#[derive(Default)]
struct Caller {
    sockets: Vec<u64>,
    sinks: Vec<(u64, u64)>,
    closes: Vec<(u64, u64)>,
}

impl Caller {
    fn perform(&mut self, stealer: &mut TcpConnectionStealer, actions: Vec<Action>) {
        for action in actions {
            match action {
                Action::AddRedirection { port, client_id } => {
                    let answer = stealer.redirection_added(client_id, port);
                    self.perform(stealer, answer);
                }
                Action::OpenConnection { connection_id } => {
                    assert!(!self.sockets.contains(&connection_id));
                    self.sockets.push(connection_id);
                }
                Action::CloseConnection { connection_id } => {
                    assert!(self.sockets.contains(&connection_id));
                    self.sockets.retain(|c| *c != connection_id);
                }
                Action::Write(data) => assert!(self.sockets.contains(&data.connection_id)),
                Action::AwaitResponse { connection_id, request_id } => {
                    self.sinks.retain(|key| *key != (connection_id, request_id));
                    self.sinks.push((connection_id, request_id));
                }
                Action::Respond(response) => {
                    let key = (response.connection_id, response.request_id);
                    assert!(self.sinks.contains(&key));
                    self.sinks.retain(|k| *k != key);
                }
                Action::DropResponse { connection_id, request_id } => {
                    assert!(self.sinks.contains(&(connection_id, request_id)));
                    self.sinks.retain(|k| *k != (connection_id, request_id));
                }
                Action::Send { client_id, message } => {
                    assert!(stealer.has_client(client_id));
                    if let DaemonTcp::Close(close) = message {
                        assert!(!stealer.is_allocated(close.connection_id));
                        self.closes.push((client_id, close.connection_id));
                    }
                }
                Action::SpawnFilter { connection_id, filters, .. } => {
                    assert!(stealer.is_allocated(connection_id));
                    assert!(!filters.is_empty());
                }
                Action::RemoveRedirection { .. } | Action::DropClient { .. } => {}
            }
        }
    }
}

fn assert_consistent(stealer: &TcpConnectionStealer, caller: &Caller) {
    let mut owned = 0;
    for connection_id in 0..CONNECTION_ID_CAP as u64 + 2 {
        let owner = stealer.connection_owner(connection_id);
        assert_eq!(owner.is_some(), caller.sockets.contains(&connection_id));
        match owner {
            Some(client) => {
                owned += 1;
                assert!(stealer.is_allocated(connection_id));
                assert!(stealer.has_client(client));
                assert!(stealer.connections_of(client).contains(&connection_id));
                assert!(stealer.clients_of(connection_id).is_empty());
            }
            None => {
                for client in 0..CLIENTS {
                    assert!(!stealer.connections_of(client).contains(&connection_id));
                }
            }
        }
        if !stealer.is_allocated(connection_id) {
            assert!(owner.is_none());
            assert!(stealer.clients_of(connection_id).is_empty());
        }
        if connection_id >= CONNECTION_ID_CAP as u64 {
            assert!(!stealer.is_allocated(connection_id));
        }
        for request_id in 0..REQUESTS {
            let awaited = stealer.awaits_response(connection_id, request_id);
            assert_eq!(awaited, caller.sinks.contains(&(connection_id, request_id)));
            if awaited {
                assert!(stealer.is_allocated(connection_id));
                assert!(owner.is_none());
            }
        }
    }
    let listed: usize = (0..CLIENTS).map(|client| stealer.connections_of(client).len()).sum();
    assert_eq!(listed, owned);
    for port in 80..80 + PORTS {
        if let Some(PortSubscription::Filtered(filters)) = stealer.subscription(port) {
            assert!(!filters.is_empty());
            let mut clients: Vec<u64> = filters.iter().map(|entry| entry.client_id).collect();
            clients.sort();
            clients.dedup();
            assert_eq!(clients.len(), filters.len());
        }
    }
}

#[test]
fn tables_stay_consistent_over_long_runs() {
    for seed in 0..20u64 {
        let mut dice = Dice(seed);
        let mut stealer = TcpConnectionStealer::new();
        let mut caller = Caller::default();
        for _ in 0..1500 {
            match stealer.step(event(&mut dice)) {
                Step::Continue(actions) => caller.perform(&mut stealer, actions),
                Step::Refused(_) => {}
                other => panic!("unexpected step {:?}", other),
            }
            assert_consistent(&stealer, &caller);
        }
    }
}

#[test]
fn every_connection_is_closed_to_a_client_at_most_once_per_life() {
    let mut dice = Dice(7);
    let mut stealer = TcpConnectionStealer::new();
    let mut caller = Caller::default();
    let mut lives: Vec<u64> = vec![0; CONNECTION_ID_CAP];
    let mut told: Vec<(u64, u64, u64)> = Vec::new();
    for _ in 0..5000 {
        let before: Vec<bool> =
            (0..CONNECTION_ID_CAP as u64).map(|c| stealer.is_allocated(c)).collect();
        caller.closes.clear();
        if let Step::Continue(actions) = stealer.step(event(&mut dice)) {
            caller.perform(&mut stealer, actions);
        }
        for (client, connection_id) in caller.closes.drain(..) {
            assert!(before[connection_id as usize]);
            let life = lives[connection_id as usize];
            assert!(!told.contains(&(client, connection_id, life)));
            told.push((client, connection_id, life));
        }
        for connection_id in 0..CONNECTION_ID_CAP as u64 {
            if before[connection_id as usize] && !stealer.is_allocated(connection_id) {
                lives[connection_id as usize] += 1;
            }
        }
    }
    assert!(!told.is_empty());
}
