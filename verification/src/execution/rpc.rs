use vstd::prelude::*;
use vstd::string::*;

use crate::execution::error::ExecutionError;
use crate::execution::id::{DriverId, TaskStreamKey};
use crate::text::decimal_text;

verus! {

use crate::text::decimal;

/// Maximum header list size for clients. The value is larger than the default, so that
/// clients can receive long error details from the server via headers.
pub const CLIENT_MAX_HEADER_LIST_SIZE: u32 = 1024 * 1024;

/// The time for establishing a connection to a server, in seconds.
pub const CLIENT_CONNECT_TIMEOUT_SECS: u64 = 30;

/// The TCP keep-alive interval of client connections, in seconds.
pub const CLIENT_TCP_KEEPALIVE_SECS: u64 = 60;

/// The interval between keep-alive pings sent by a client, in seconds.
pub const CLIENT_HTTP2_KEEPALIVE_INTERVAL_SECS: u64 = 30;

/// The time within which keep-alive pings must be acknowledged, in seconds.
pub const CLIENT_HTTP2_KEEPALIVE_TIMEOUT_SECS: u64 = 20;

/// A server as it goes from stopped to running, with the handle of its task and the signal
/// that stops it.
#[derive(Debug)]
pub enum ServerMonitor<H, S> {
    Stopped,
    Pending { handle: H },
    Running { signal: S, handle: H },
}

/// What has to be done to stop a server.
#[derive(Debug)]
pub enum StopAction<H, S> {
    /// Nothing runs.
    Nothing,
    /// The task has to be aborted.
    Abort { handle: H },
    /// The signal has to be sent, and the task awaited.
    SignalAndJoin { signal: S, handle: H },
}

/// What has to be done to stop a server in the given state.
pub open spec fn stop_action<H, S>(monitor: ServerMonitor<H, S>) -> StopAction<H, S> {
    match monitor {
        ServerMonitor::Stopped => StopAction::Nothing,
        ServerMonitor::Pending { handle } => StopAction::Abort { handle },
        ServerMonitor::Running { signal, handle } => StopAction::SignalAndJoin { signal, handle },
    }
}

impl<H, S> ServerMonitor<H, S> {
    pub fn new() -> (monitor: ServerMonitor<H, S>)
        ensures
            monitor is Stopped,
    {
        ServerMonitor::Stopped
    }

    /// Replaces the server by one whose task has just been spawned. Returns what has to be
    /// done first to stop the former one.
    pub fn start(self, handle: H) -> (started: (StopAction<H, S>, ServerMonitor<H, S>))
        ensures
            started.0 == stop_action(self),
            started.1 == (ServerMonitor::<H, S>::Pending { handle }),
    {
        (self.stop(), ServerMonitor::Pending { handle })
    }

    /// Marks a pending server as running. A server in any other state is refused.
    pub fn ready(self, signal: S) -> (result: Result<ServerMonitor<H, S>, ExecutionError>)
        ensures
            result is Ok <==> self is Pending,
            result matches Ok(monitor) ==> monitor == (ServerMonitor::<H, S>::Running {
                signal,
                handle: self->Pending_handle,
            }),
            result matches Err(e) ==> e@ == (
                false,
                "the server must be in pending state before it can be ready"@,
            ),
    {
        match self {
            ServerMonitor::Pending { handle } => Ok(ServerMonitor::Running { signal, handle }),
            _ => Err(
                ExecutionError::InternalError(
                    "the server must be in pending state before it can be ready".to_owned(),
                ),
            ),
        }
    }

    /// What has to be done to stop the server.
    pub fn stop(self) -> (action: StopAction<H, S>)
        ensures
            action == stop_action(self),
    {
        match self {
            ServerMonitor::Stopped => StopAction::Nothing,
            ServerMonitor::Pending { handle } => StopAction::Abort { handle },
            ServerMonitor::Running { signal, handle } => StopAction::SignalAndJoin {
                signal,
                handle,
            },
        }
    }
}

impl<H, S> Default for ServerMonitor<H, S> {
    fn default() -> (monitor: ServerMonitor<H, S>)
        ensures
            monitor is Stopped,
    {
        ServerMonitor::new()
    }
}

#[derive(Debug)]
pub struct ClientOptions {
    pub enable_tls: bool,
    pub host: String,
    pub port: u16,
}

/// The address of a server.
pub open spec fn server_url(enable_tls: bool, host: Seq<char>, port: u16) -> Seq<char> {
    (if enable_tls {
        "https"@
    } else {
        "http"@
    }) + "://"@ + host + ":"@ + decimal(port as nat)
}

impl ClientOptions {
    /// The address of the server: the scheme, the host and the port.
    pub fn to_url_string(&self) -> (url: String)
        ensures
            url@ == server_url(self.enable_tls, self.host@, self.port),
    {
        let scheme = if self.enable_tls {
            "https"
        } else {
            "http"
        };
        let mut url = scheme.to_owned();
        url.append("://");
        url.append(self.host.as_str());
        url.append(":");
        url.append(decimal_text(self.port as u64).as_str());
        url
    }
}

/// Who serves a task stream.
#[derive(Debug, Clone, Copy, PartialEq, Eq, Structural)]
pub enum TaskStreamOwner {
    Driver { driver_id: DriverId },
    Worker,
}

/// The request for one task stream.
#[derive(Debug, Clone, Copy, PartialEq, Eq, Structural)]
pub struct TaskStreamTicket {
    pub job_id: u64,
    pub stage: u64,
    pub partition: u64,
    pub attempt: u64,
    pub channel: u64,
}

/// The request as its owner understands it: a driver also wants to know which driver is
/// meant.
#[derive(Debug, Clone, Copy, PartialEq, Eq, Structural)]
pub enum StreamRequest {
    Driver { driver_id: u64, stream: TaskStreamTicket },
    Worker { stream: TaskStreamTicket },
}

/// The request for the stream with the given key.
pub fn stream_request(owner: TaskStreamOwner, key: &TaskStreamKey) -> (request: StreamRequest)
    ensures
        ({
            let stream = TaskStreamTicket {
                job_id: key.job_id.0,
                stage: key.stage as u64,
                partition: key.partition as u64,
                attempt: key.attempt as u64,
                channel: key.channel as u64,
            };
            request == match owner {
                TaskStreamOwner::Driver { driver_id } => StreamRequest::Driver {
                    driver_id: driver_id.0,
                    stream,
                },
                TaskStreamOwner::Worker => StreamRequest::Worker { stream },
            }
        }),
{
    let stream = TaskStreamTicket {
        job_id: key.job_id.0,
        stage: key.stage as u64,
        partition: key.partition as u64,
        attempt: key.attempt as u64,
        channel: key.channel as u64,
    };
    match owner {
        TaskStreamOwner::Driver { driver_id } => StreamRequest::Driver {
            driver_id: driver_id.0,
            stream,
        },
        TaskStreamOwner::Worker => StreamRequest::Worker { stream },
    }
}

/// Why reading a task stream failed.
#[derive(Debug)]
pub enum StreamFailure {
    /// A failure of which only the message is known.
    Unknown { message: String },
    /// A failure that says itself what it is.
    Known { message: String },
}

/// The failure as it is passed on: one of which only the message is known also says which peer
/// the stream came from.
pub fn peer_failure(peer: &str, failure: StreamFailure) -> (passed: StreamFailure)
    ensures
        match failure {
            StreamFailure::Unknown { message } => passed matches StreamFailure::Unknown {
                message: text,
            } && text@ == peer@ + ": "@ + message@,
            StreamFailure::Known { .. } => passed == failure,
        },
{
    match failure {
        StreamFailure::Unknown { message } => {
            let mut text = peer.to_owned();
            text.append(": ");
            text.append(message.as_str());
            StreamFailure::Unknown { message: text }
        },
        StreamFailure::Known { message } => StreamFailure::Known { message },
    }
}

/// A failure of a peer whose message alone is known tells the peer; one that says itself what it
/// is is passed on.
pub proof fn law_peer_failures(peer: &str, failure: StreamFailure, passed: StreamFailure)
    requires
        call_ensures(peer_failure, (peer, failure), passed),
    ensures
        failure is Known ==> passed == failure,
        failure matches StreamFailure::Unknown { message } ==> (
        passed matches StreamFailure::Unknown { message: text } && text@ == peer@ + ": "@
            + message@),
{
}

/// A monitor stops what it has: it aborts a server that is not ready, and signals and awaits one
/// that runs. It can only become ready once it was started.
pub proof fn law_monitors_stop_what_runs<H, S>(monitor: ServerMonitor<H, S>)
    ensures
        match monitor {
            ServerMonitor::Stopped => stop_action(monitor) is Nothing,
            ServerMonitor::Pending { handle } => stop_action(monitor) == (
            StopAction::<H, S>::Abort { handle }),
            ServerMonitor::Running { signal, handle } => stop_action(monitor) == (
            StopAction::SignalAndJoin { signal, handle }),
        },
{
}

/// The address of a server tells whether it is reached securely.
pub proof fn law_addresses(host: Seq<char>, port: u16)
    ensures
        server_url(true, host, port) == "https"@ + "://"@ + host + ":"@ + decimal(port as nat),
        server_url(false, host, port) == "http"@ + "://"@ + host + ":"@ + decimal(port as nat),
{
}

/// A stream is asked for by its job, its stage, its partition, its attempt and its channel: of the
/// driver that owns it, by its id, and of a worker otherwise.
pub proof fn law_streams_are_asked_for(
    owner: TaskStreamOwner,
    key: TaskStreamKey,
    request: StreamRequest,
)
    requires
        call_ensures(stream_request, (owner, &key), request),
    ensures
        match (owner, request) {
            (
                TaskStreamOwner::Driver { driver_id },
                StreamRequest::Driver { driver_id: id, stream },
            ) => id == driver_id.0 && stream.job_id == key.job_id.0 && stream.stage == key.stage
                && stream.partition == key.partition && stream.attempt == key.attempt
                && stream.channel == key.channel,
            (TaskStreamOwner::Worker, StreamRequest::Worker { stream }) => stream.job_id
                == key.job_id.0 && stream.stage == key.stage && stream.partition == key.partition
                && stream.attempt == key.attempt && stream.channel == key.channel,
            _ => false,
        },
{
}

/// A server that was started is pending and becomes ready once; in any other state it cannot.
pub proof fn law_only_pending_servers_become_ready<H, S>(
    monitor: ServerMonitor<H, S>,
    signal: S,
    result: Result<ServerMonitor<H, S>, ExecutionError>,
)
    requires
        call_ensures(ServerMonitor::<H, S>::ready, (monitor, signal), result),
    ensures
        match monitor {
            ServerMonitor::Pending { handle } => result == Ok::<_, ExecutionError>(
                ServerMonitor::<H, S>::Running { signal, handle },
            ),
            _ => result is Err && !result->Err_0@.0,
        },
{
}

} // verus!
