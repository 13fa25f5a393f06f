use sail::execution::definition::{
    LocalStreamStorage, OutputPartitioning, TaskDefinition, TaskInput, TaskInputKey,
    TaskInputLocator, TaskOutput, TaskOutputDistribution, TaskOutputLocator, TaskReadLocation,
    TaskWriteLocation,
};
use sail::execution::error::ExecutionError;
use sail::execution::id::{DriverId, IdGenerator, JobId, TaskKey, TaskStreamKey, WorkerId};
use sail::execution::message::{TaskDefinitionMessage, TaskInputMessage, TaskOutputMessage};
use sail::execution::monitor::{monitor_step, running_report, MonitorStep, TaskEvent, TaskStatus};
use sail::execution::rpc::{
    peer_failure, stream_request, ClientOptions, ServerMonitor, StopAction, StreamFailure,
    StreamRequest, TaskStreamOwner,
};

fn task_key() -> TaskKey {
    TaskKey {
        job_id: JobId(1),
        stage: 2,
        partition: 3,
        attempt: 4,
    }
}

fn input_key(partition: usize) -> TaskInputKey {
    TaskInputKey {
        partition,
        attempt: 1,
        channel: 2,
    }
}

fn definition(locator: TaskInputLocator, distribution: TaskOutputDistribution) -> TaskDefinition {
    TaskDefinition {
        plan: vec![1, 2, 3],
        inputs: vec![TaskInput { locator }],
        output: TaskOutput {
            distribution,
            locator: TaskOutputLocator::Remote {
                uri: "s3://out".to_string(),
            },
        },
    }
}

#[test]
fn definitions_survive_the_journey() {
    let sent = definition(
        TaskInputLocator::Worker {
            stage: 5,
            keys: vec![
                vec![(WorkerId(7), input_key(0)), (WorkerId(8), input_key(1))],
                vec![],
            ],
        },
        TaskOutputDistribution::Hash {
            keys: vec![vec![9], vec![]],
            channels: 6,
        },
    );
    let before = format!("{sent:?}");
    let received = TaskDefinition::try_from_message(sent.into_message()).unwrap();
    assert_eq!(format!("{received:?}"), before);

    let sent = definition(
        TaskInputLocator::Remote {
            uri: "s3://in".to_string(),
            stage: 1,
            keys: vec![vec![input_key(4)]],
        },
        TaskOutputDistribution::RoundRobinRow { channels: 2 },
    );
    let before = format!("{sent:?}");
    let received = TaskDefinition::try_from_message(sent.into_message()).unwrap();
    assert_eq!(format!("{received:?}"), before);
}

#[test]
fn incomplete_definitions_are_refused() {
    let message = TaskDefinitionMessage {
        plan: vec![],
        inputs: vec![],
        output: None,
    };
    assert_eq!(
        TaskDefinition::try_from_message(message).unwrap_err(),
        ExecutionError::InvalidArgument("cannot decode empty task output".to_string())
    );
    let message = TaskDefinitionMessage {
        plan: vec![],
        inputs: vec![TaskInputMessage { locator: None }],
        output: None,
    };
    assert_eq!(
        TaskDefinition::try_from_message(message).unwrap_err(),
        ExecutionError::InvalidArgument("cannot decode empty task input locator".to_string())
    );
    let message = TaskDefinitionMessage {
        plan: vec![],
        inputs: vec![],
        output: Some(TaskOutputMessage {
            distribution: None,
            locator: None,
        }),
    };
    assert_eq!(
        TaskDefinition::try_from_message(message).unwrap_err(),
        ExecutionError::InvalidArgument("cannot decode empty task output distribution".to_string())
    );
}

#[test]
fn inputs_know_where_to_read() {
    let input = TaskInput {
        locator: TaskInputLocator::Worker {
            stage: 5,
            keys: vec![vec![(WorkerId(7), input_key(3))], vec![]],
        },
    };
    let locations = input.locations(JobId(1));
    assert_eq!(locations.len(), 2);
    assert!(locations[1].is_empty());
    match &locations[0][0] {
        TaskReadLocation::Worker { worker_id, key } => {
            assert_eq!(*worker_id, WorkerId(7));
            assert_eq!(
                *key,
                TaskStreamKey {
                    job_id: JobId(1),
                    stage: 5,
                    partition: 3,
                    attempt: 1,
                    channel: 2,
                }
            );
        }
        other => panic!("unexpected location: {other:?}"),
    }
}

#[test]
fn outputs_know_where_to_write() {
    let output = TaskOutput {
        distribution: TaskOutputDistribution::RoundRobin { channels: 2 },
        locator: TaskOutputLocator::Local { replicas: 3 },
    };
    assert_eq!(output.channels(), 2);
    assert!(!output.row_based());
    let locations = output.locations(&task_key());
    assert_eq!(locations.len(), 2);
    match &locations[1] {
        TaskWriteLocation::Local { storage, key } => {
            assert_eq!(*storage, LocalStreamStorage::Memory { replicas: 3 });
            assert_eq!(key.channel, 1);
            assert_eq!(key.attempt, 4);
        }
        other => panic!("unexpected location: {other:?}"),
    }
    let partitioning = output.partitioning::<u8>(Err(ExecutionError::InternalError(String::new())));
    assert!(matches!(
        partitioning,
        Ok(OutputPartitioning::RoundRobinBatch { channels: 2 })
    ));
}

#[test]
fn hashed_outputs_need_their_keys() {
    let output = TaskOutput {
        distribution: TaskOutputDistribution::Hash {
            keys: vec![vec![1]],
            channels: 4,
        },
        locator: TaskOutputLocator::Local { replicas: 1 },
    };
    assert_eq!(output.hash_keys(), Some(&vec![vec![1]]));
    assert!(matches!(
        output.partitioning(Ok(vec!['a'])),
        Ok(OutputPartitioning::Hash { channels: 4, .. })
    ));
    let error = ExecutionError::InternalError("bad key".to_string());
    assert_eq!(
        output.partitioning::<char>(Err(error)).unwrap_err(),
        ExecutionError::InternalError("bad key".to_string())
    );
}

#[test]
fn monitors_report_how_tasks_end() {
    let report = running_report::<u8>(task_key());
    assert_eq!(report.status, TaskStatus::Running);
    let rows = match monitor_step(task_key(), "task", 3, TaskEvent::<u8>::Batch { rows: 4 }) {
        MonitorStep::Continue { row_count } => row_count,
        other => panic!("unexpected step: {other:?}"),
    };
    assert_eq!(rows, 7);
    match monitor_step(task_key(), "task", rows, TaskEvent::<u8>::End) {
        MonitorStep::Finish { report, row_count } => {
            assert_eq!(report.status, TaskStatus::Succeeded);
            assert_eq!(row_count, 7);
        }
        other => panic!("unexpected step: {other:?}"),
    }
    let failed = TaskEvent::Error {
        message: "oops".to_string(),
        cause: 7u8,
    };
    match monitor_step(task_key(), "task", rows, failed) {
        MonitorStep::Finish { report, .. } => {
            assert_eq!(report.status, TaskStatus::Failed);
            assert_eq!(report.message.unwrap(), "task error: oops");
            assert_eq!(report.cause, Some(7));
        }
        other => panic!("unexpected step: {other:?}"),
    }
    match monitor_step(task_key(), "task", rows, TaskEvent::<u8>::Cancel) {
        MonitorStep::Finish { report, .. } => {
            assert_eq!(report.status, TaskStatus::Canceled);
            assert_eq!(report.message.unwrap(), "task canceled");
            assert_eq!(report.cause, None);
        }
        other => panic!("unexpected step: {other:?}"),
    }
}

#[test]
fn servers_go_from_pending_to_running() {
    let monitor: ServerMonitor<u8, char> = ServerMonitor::new();
    assert!(monitor.ready('s').is_err());
    let monitor: ServerMonitor<u8, char> = ServerMonitor::default();
    let (stopped, monitor) = monitor.start(1);
    assert!(matches!(stopped, StopAction::Nothing));
    let monitor = monitor.ready('s').unwrap();
    assert!(matches!(
        monitor.stop(),
        StopAction::SignalAndJoin {
            signal: 's',
            handle: 1
        }
    ));
    let (_, monitor) = ServerMonitor::<u8, char>::new().start(2);
    assert!(matches!(monitor.stop(), StopAction::Abort { handle: 2 }));
}

#[test]
fn clients_know_the_address_of_the_server() {
    let options = ClientOptions {
        enable_tls: true,
        host: "example.com".to_string(),
        port: 50051,
    };
    assert_eq!(options.to_url_string(), "https://example.com:50051");
    let options = ClientOptions {
        enable_tls: false,
        host: "localhost".to_string(),
        port: 0,
    };
    assert_eq!(options.to_url_string(), "http://localhost:0");
}

#[test]
fn stream_requests_name_the_driver() {
    let key = TaskStreamKey {
        job_id: JobId(1),
        stage: 2,
        partition: 3,
        attempt: 4,
        channel: 5,
    };
    let owner = TaskStreamOwner::Driver {
        driver_id: DriverId(6),
    };
    match stream_request(owner, &key) {
        StreamRequest::Driver { driver_id, stream } => {
            assert_eq!(driver_id, 6);
            assert_eq!(stream.channel, 5);
        }
        other => panic!("unexpected request: {other:?}"),
    }
    assert!(matches!(
        stream_request(TaskStreamOwner::Worker, &key),
        StreamRequest::Worker { .. }
    ));
}

#[test]
fn unknown_failures_name_the_peer() {
    let unknown = StreamFailure::Unknown {
        message: "reset".to_string(),
    };
    assert!(matches!(
        peer_failure("worker-1:80", unknown),
        StreamFailure::Unknown { message } if message == "worker-1:80: reset"
    ));
    let known = StreamFailure::Known {
        message: "missing".to_string(),
    };
    assert!(matches!(
        peer_failure("worker-1:80", known),
        StreamFailure::Known { message } if message == "missing"
    ));
}

#[test]
fn worker_ids_start_at_one() {
    let mut generator = IdGenerator::new();
    assert_eq!(generator.next(), Some(WorkerId(1)));
    assert_eq!(generator.next(), Some(WorkerId(2)));
}
