use sail::cli::server::{
    combined_outcome, first_server_stopped, run_outcome, PeerAction, RunError, Server,
    ServerError,
};
use sail::retry::{jittered_wait_ms, longest_wait_ms};

#[test]
fn server_errors_say_so() {
    assert_eq!(
        ServerError("address in use".to_string()).message(),
        "server error: address in use"
    );
}

#[test]
fn errors_of_the_workload_come_first() {
    let broken = || Ok::<_, char>(Err(ServerError("down".to_string())));
    assert!(matches!(
        run_outcome(Err(1), broken()),
        Err(RunError::Workload(1))
    ));
    assert!(matches!(
        run_outcome::<u8, char>(Ok(()), broken()),
        Err(RunError::Server(_))
    ));
    assert!(matches!(
        run_outcome::<u8, char>(Ok(()), Err('j')),
        Err(RunError::Task('j'))
    ));
    assert!(run_outcome::<u8, char>(Ok(()), Ok(Ok(()))).is_ok());
}

#[test]
fn an_error_of_one_server_stops_both() {
    assert!(matches!(
        first_server_stopped(Server::Spark, Err('e')),
        PeerAction::Fail { error: 'e' }
    ));
    assert!(matches!(
        first_server_stopped::<char>(Server::Spark, Ok(())),
        PeerAction::Await {
            peer: Server::Flight
        }
    ));
    assert!(matches!(
        first_server_stopped::<char>(Server::Flight, Ok(())),
        PeerAction::Await {
            peer: Server::Spark
        }
    ));
    assert_eq!(combined_outcome(Err('p'), Err('s')), Err('s'));
    assert_eq!(combined_outcome(Err('p'), Ok(())), Err('p'));
    assert_eq!(combined_outcome::<char>(Ok(()), Ok(())), Ok(()));
}

#[test]
fn waits_double_and_are_spread() {
    assert_eq!(longest_wait_ms(5, 0), 5);
    assert_eq!(longest_wait_ms(5, 1), 10);
    assert_eq!(longest_wait_ms(5, 3), 40);
    let waits: Vec<u64> = (0..200).map(|_| jittered_wait_ms(1_000_000, 2)).collect();
    assert!(waits.iter().all(|wait| *wait <= 4_000_000));
    assert!(waits.iter().any(|wait| *wait != waits[0]));
}
