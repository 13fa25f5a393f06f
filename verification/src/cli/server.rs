//! What comes of running servers.

use vstd::prelude::*;
use vstd::string::*;

verus! {

/// A user-facing error for the Spark Connect server. It holds only the message of the
/// underlying error, so that it can be sent from the server task.
#[derive(Debug)]
pub struct ServerError(pub String);

impl ServerError {
    pub fn message(&self) -> (text: String)
        ensures
            text@ == "server error: "@ + self.0@,
    {
        let mut text = "server error: ".to_owned();
        text.append(self.0.as_str());
        text
    }
}

/// Why running a workload against a server failed. `E` is an error of the workload and `J` one
/// of the task of the server.
#[derive(Debug)]
pub enum RunError<E, J> {
    Workload(E),
    Server(ServerError),
    Task(J),
}

/// What comes of running a workload against a server: an error of the workload goes before one
/// of the server.
pub fn run_outcome<E, J>(
    workload: Result<(), E>,
    server: Result<Result<(), ServerError>, J>,
) -> (outcome: Result<(), RunError<E, J>>)
    ensures
        outcome == (match (workload, server) {
            (Err(e), _) => Err(RunError::Workload(e)),
            (Ok(_), Ok(Ok(_))) => Ok(()),
            (Ok(_), Ok(Err(e))) => Err(RunError::Server(e)),
            (Ok(_), Err(e)) => Err(RunError::Task(e)),
        }),
{
    match (workload, server) {
        (Err(e), _) => Err(RunError::Workload(e)),
        (Ok(()), Ok(Ok(()))) => Ok(()),
        (Ok(()), Ok(Err(e))) => Err(RunError::Server(e)),
        (Ok(()), Err(e)) => Err(RunError::Task(e)),
    }
}

/// One of two servers that run together.
#[derive(Debug, Clone, Copy, PartialEq, Eq, Structural)]
pub enum Server {
    Spark,
    Flight,
}

/// What to do once one of two servers has stopped.
#[derive(Debug)]
pub enum PeerAction<E> {
    /// Stop at once: the other server is dropped.
    Fail { error: E },
    /// Wait for the other server to stop.
    Await { peer: Server },
}

/// What to do once one of two servers has stopped. An error of the first to stop is the end of
/// both, since waiting for the other would leave half of the service running.
pub fn first_server_stopped<E>(first: Server, result: Result<(), E>) -> (action: PeerAction<E>)
    ensures
        action == (match result {
            Err(error) => PeerAction::Fail { error },
            Ok(_) => PeerAction::Await {
                peer: match first {
                    Server::Spark => Server::Flight,
                    Server::Flight => Server::Spark,
                },
            },
        }),
{
    match result {
        Err(error) => PeerAction::Fail { error },
        Ok(_) => {
            let peer = match first {
                Server::Spark => Server::Flight,
                Server::Flight => Server::Spark,
            };
            PeerAction::Await { peer }
        },
    }
}

/// What comes of running two servers together where the first to stop did so without an error:
/// an error of shutting down the sessions goes before one of the other server.
pub fn combined_outcome<E>(peer: Result<(), E>, shutdown: Result<(), E>) -> (outcome: Result<(), E>)
    ensures
        outcome == (match shutdown {
            Err(e) => Err(e),
            Ok(_) => peer,
        }),
{
    match shutdown {
        Err(e) => Err(e),
        Ok(_) => peer,
    }
}

/// A run succeeds exactly where both the workload and the server did. A failed workload is what
/// is reported, whatever became of the server.
pub proof fn law_runs_succeed_together<E, J>(
    workload: Result<(), E>,
    server: Result<Result<(), ServerError>, J>,
    outcome: Result<(), RunError<E, J>>,
)
    requires
        call_ensures(run_outcome::<E, J>, (workload, server), outcome),
    ensures
        outcome is Ok <==> workload is Ok && (server matches Ok(stopped) && stopped is Ok),
        workload matches Err(e) ==> outcome == Err::<(), _>(RunError::<E, J>::Workload(e)),
        workload is Ok && (server matches Ok(stopped) && stopped is Err) ==> (outcome matches Err(
            error,
        ) && error is Server),
        workload is Ok && server is Err ==> (outcome matches Err(error) && error is Task),
{
}

/// A server that fails stops everything; one that stops waits for the other one.
pub proof fn law_servers_wait_for_each_other<E>(
    first: Server,
    result: Result<(), E>,
    action: PeerAction<E>,
)
    requires
        call_ensures(first_server_stopped::<E>, (first, result), action),
    ensures
        result is Err <==> action is Fail,
        action matches PeerAction::Await { peer } ==> peer != first,
{
}

/// Two servers stop well where both the one that stopped last and the shutdown did; a failed
/// shutdown is what is reported.
pub proof fn law_outcomes_are_combined<E>(
    peer: Result<(), E>,
    shutdown: Result<(), E>,
    outcome: Result<(), E>,
)
    requires
        call_ensures(combined_outcome::<E>, (peer, shutdown), outcome),
    ensures
        outcome is Ok <==> peer is Ok && shutdown is Ok,
        shutdown is Err ==> outcome == shutdown,
        shutdown is Ok ==> outcome == peer,
{
}

} // verus!
