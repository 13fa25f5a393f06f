//! Between task definitions and the messages that carry them.

use vstd::prelude::*;
use vstd::string::*;

use crate::execution::definition::{
    TaskDefinition, TaskInput, TaskInputKey, TaskInputLocator, TaskOutput, TaskOutputDistribution,
    TaskOutputLocator,
};
use crate::execution::error::ExecutionError;
use crate::execution::id::WorkerId;
use crate::execution::message::{
    TaskDefinitionMessage, TaskInputDriverKey, TaskInputDriverKeyList, TaskInputLocatorKind,
    TaskInputLocatorMessage, TaskInputMessage, TaskInputRemoteKey, TaskInputRemoteKeyList,
    TaskInputWorkerKey, TaskInputWorkerKeyList, TaskOutputDistributionKind,
    TaskOutputDistributionMessage, TaskOutputLocatorKind, TaskOutputLocatorMessage,
    TaskOutputMessage,
};

verus! {

use crate::execution::definition::{
    inputs_view, nested, DefinitionModel, DistributionModel, InputModel, OutputModel,
};

/// The key that a message carries.
pub open spec fn driver_key(key: TaskInputDriverKey) -> TaskInputKey {
    TaskInputKey {
        partition: key.partition as usize,
        attempt: key.attempt as usize,
        channel: key.channel as usize,
    }
}

/// The key that a message carries, with its worker.
pub open spec fn worker_key(key: TaskInputWorkerKey) -> (WorkerId, TaskInputKey) {
    (
        WorkerId(key.worker_id),
        TaskInputKey {
            partition: key.partition as usize,
            attempt: key.attempt as usize,
            channel: key.channel as usize,
        },
    )
}

/// The key that a message carries.
pub open spec fn remote_key(key: TaskInputRemoteKey) -> TaskInputKey {
    TaskInputKey {
        partition: key.partition as usize,
        attempt: key.attempt as usize,
        channel: key.channel as usize,
    }
}

pub open spec fn driver_keys(lists: Seq<TaskInputDriverKeyList>) -> Seq<Seq<TaskInputKey>> {
    lists.map_values(
        |list: TaskInputDriverKeyList|
            list.keys@.map_values(|key: TaskInputDriverKey| driver_key(key)),
    )
}

pub open spec fn worker_keys(lists: Seq<TaskInputWorkerKeyList>) -> Seq<
    Seq<(WorkerId, TaskInputKey)>,
> {
    lists.map_values(
        |list: TaskInputWorkerKeyList|
            list.keys@.map_values(|key: TaskInputWorkerKey| worker_key(key)),
    )
}

pub open spec fn remote_keys(lists: Seq<TaskInputRemoteKeyList>) -> Seq<Seq<TaskInputKey>> {
    lists.map_values(
        |list: TaskInputRemoteKeyList|
            list.keys@.map_values(|key: TaskInputRemoteKey| remote_key(key)),
    )
}

/// The input locator that a message carries.
pub open spec fn input_model(kind: TaskInputLocatorKind) -> InputModel {
    match kind {
        TaskInputLocatorKind::Driver { stage, keys } => InputModel::Driver {
            stage: stage as usize,
            keys: driver_keys(keys@),
        },
        TaskInputLocatorKind::Worker { stage, keys } => InputModel::Worker {
            stage: stage as usize,
            keys: worker_keys(keys@),
        },
        TaskInputLocatorKind::Remote { uri, stage, keys } => InputModel::Remote {
            uri: uri@,
            stage: stage as usize,
            keys: remote_keys(keys@),
        },
    }
}

/// The output distribution that a message carries.
pub open spec fn distribution_model(kind: TaskOutputDistributionKind) -> DistributionModel {
    match kind {
        TaskOutputDistributionKind::Hash { keys, channels } => DistributionModel::Hash {
            keys: nested(keys@),
            channels: channels as usize,
        },
        TaskOutputDistributionKind::RoundRobin { channels } => DistributionModel::RoundRobin {
            channels: channels as usize,
        },
        TaskOutputDistributionKind::RoundRobinRow { channels } => DistributionModel::RoundRobinRow {
            channels: channels as usize,
        },
    }
}

/// The output locator that a message carries.
pub open spec fn output_model(kind: TaskOutputLocatorKind) -> OutputModel {
    match kind {
        TaskOutputLocatorKind::Local { replicas } => OutputModel::Local {
            replicas: replicas as usize,
        },
        TaskOutputLocatorKind::Remote { uri } => OutputModel::Remote { uri: uri@ },
    }
}

/// Whether an input message carries a locator.
pub open spec fn input_complete(input: TaskInputMessage) -> bool {
    input.locator matches Some(locator) && locator.kind is Some
}

/// Whether every input message carries a locator.
pub open spec fn inputs_complete(inputs: Seq<TaskInputMessage>) -> bool {
    forall|i: int| 0 <= i < inputs.len() ==> input_complete(#[trigger] inputs[i])
}

/// What keeps a message from being decoded, where anything does.
pub open spec fn decode_error(message: TaskDefinitionMessage) -> Option<Seq<char>> {
    if !inputs_complete(message.inputs@) {
        Some("cannot decode empty task input locator"@)
    } else {
        match message.output {
            None => Some("cannot decode empty task output"@),
            Some(output) => output_error(output),
        }
    }
}

/// What keeps an output message from being decoded, where anything does.
pub open spec fn output_error(output: TaskOutputMessage) -> Option<Seq<char>> {
    if !(output.distribution matches Some(distribution) && distribution.kind is Some) {
        Some("cannot decode empty task output distribution"@)
    } else if !(output.locator matches Some(locator) && locator.kind is Some) {
        Some("cannot decode empty task output locator"@)
    } else {
        None
    }
}

/// The task definition that a complete message carries.
pub open spec fn definition_model(message: TaskDefinitionMessage) -> DefinitionModel {
    DefinitionModel {
        plan: message.plan@,
        inputs: message.inputs@.map_values(
            |input: TaskInputMessage| input_model(input.locator->0.kind->0),
        ),
        distribution: distribution_model(message.output->0.distribution->0.kind->0),
        output: output_model(message.output->0.locator->0.kind->0),
    }
}

fn encode_driver_keys(lists: &Vec<Vec<TaskInputKey>>) -> (encoded: Vec<TaskInputDriverKeyList>)
    ensures
        driver_keys(encoded@) == nested(lists@),
{
    let mut encoded: Vec<TaskInputDriverKeyList> = Vec::new();
    for i in 0..lists.len()
        invariant
            driver_keys(encoded@) == nested(lists@).take(i as int),
    {
        let list = &lists[i];
        let mut keys: Vec<TaskInputDriverKey> = Vec::new();
        for j in 0..list.len()
            invariant
                keys@.map_values(|key: TaskInputDriverKey| driver_key(key)) == list@.take(j as int),
        {
            let ghost before = keys@.map_values(|key: TaskInputDriverKey| driver_key(key));
            keys.push(
                TaskInputDriverKey {
                    partition: list[j].partition as u64,
                    attempt: list[j].attempt as u64,
                    channel: list[j].channel as u64,
                },
            );
            assert(keys@.map_values(|key: TaskInputDriverKey| driver_key(key)) =~= before.push(
                list@[j as int],
            ));
            assert(before.push(list@[j as int]) =~= list@.take(j + 1));
        }
        assert(list@.take(list@.len() as int) =~= list@);
        let ghost before = driver_keys(encoded@);
        encoded.push(TaskInputDriverKeyList { keys });
        assert(driver_keys(encoded@) =~= before.push(list@));
        assert(before.push(list@) =~= nested(lists@).take(i + 1));
    }
    assert(nested(lists@).take(lists@.len() as int) =~= nested(lists@));
    encoded
}

fn encode_worker_keys(lists: &Vec<Vec<(WorkerId, TaskInputKey)>>) -> (encoded: Vec<
    TaskInputWorkerKeyList,
>)
    ensures
        worker_keys(encoded@) == nested(lists@),
{
    let mut encoded: Vec<TaskInputWorkerKeyList> = Vec::new();
    for i in 0..lists.len()
        invariant
            worker_keys(encoded@) == nested(lists@).take(i as int),
    {
        let list = &lists[i];
        let mut keys: Vec<TaskInputWorkerKey> = Vec::new();
        for j in 0..list.len()
            invariant
                keys@.map_values(|key: TaskInputWorkerKey| worker_key(key)) == list@.take(j as int),
        {
            let ghost before = keys@.map_values(|key: TaskInputWorkerKey| worker_key(key));
            let (worker_id, key) = list[j];
            keys.push(
                TaskInputWorkerKey {
                    worker_id: worker_id.0,
                    partition: key.partition as u64,
                    attempt: key.attempt as u64,
                    channel: key.channel as u64,
                },
            );
            assert(keys@.map_values(|key: TaskInputWorkerKey| worker_key(key)) =~= before.push(
                list@[j as int],
            ));
            assert(before.push(list@[j as int]) =~= list@.take(j + 1));
        }
        assert(list@.take(list@.len() as int) =~= list@);
        let ghost before = worker_keys(encoded@);
        encoded.push(TaskInputWorkerKeyList { keys });
        assert(worker_keys(encoded@) =~= before.push(list@));
        assert(before.push(list@) =~= nested(lists@).take(i + 1));
    }
    assert(nested(lists@).take(lists@.len() as int) =~= nested(lists@));
    encoded
}

fn encode_remote_keys(lists: &Vec<Vec<TaskInputKey>>) -> (encoded: Vec<TaskInputRemoteKeyList>)
    ensures
        remote_keys(encoded@) == nested(lists@),
{
    let mut encoded: Vec<TaskInputRemoteKeyList> = Vec::new();
    for i in 0..lists.len()
        invariant
            remote_keys(encoded@) == nested(lists@).take(i as int),
    {
        let list = &lists[i];
        let mut keys: Vec<TaskInputRemoteKey> = Vec::new();
        for j in 0..list.len()
            invariant
                keys@.map_values(|key: TaskInputRemoteKey| remote_key(key)) == list@.take(j as int),
        {
            let ghost before = keys@.map_values(|key: TaskInputRemoteKey| remote_key(key));
            keys.push(
                TaskInputRemoteKey {
                    partition: list[j].partition as u64,
                    attempt: list[j].attempt as u64,
                    channel: list[j].channel as u64,
                },
            );
            assert(keys@.map_values(|key: TaskInputRemoteKey| remote_key(key)) =~= before.push(
                list@[j as int],
            ));
            assert(before.push(list@[j as int]) =~= list@.take(j + 1));
        }
        assert(list@.take(list@.len() as int) =~= list@);
        let ghost before = remote_keys(encoded@);
        encoded.push(TaskInputRemoteKeyList { keys });
        assert(remote_keys(encoded@) =~= before.push(list@));
        assert(before.push(list@) =~= nested(lists@).take(i + 1));
    }
    assert(nested(lists@).take(lists@.len() as int) =~= nested(lists@));
    encoded
}

fn decode_driver_keys(lists: &Vec<TaskInputDriverKeyList>) -> (decoded: Vec<Vec<TaskInputKey>>)
    ensures
        nested(decoded@) == driver_keys(lists@),
{
    let mut decoded: Vec<Vec<TaskInputKey>> = Vec::new();
    for i in 0..lists.len()
        invariant
            nested(decoded@) == driver_keys(lists@).take(i as int),
    {
        let list = &lists[i].keys;
        let ghost model = list@.map_values(|key: TaskInputDriverKey| driver_key(key));
        let mut keys: Vec<TaskInputKey> = Vec::new();
        for j in 0..list.len()
            invariant
                model == list@.map_values(|key: TaskInputDriverKey| driver_key(key)),
                keys@ == model.take(j as int),
        {
            keys.push(
                TaskInputKey {
                    partition: list[j].partition as usize,
                    attempt: list[j].attempt as usize,
                    channel: list[j].channel as usize,
                },
            );
            assert(keys@ =~= model.take(j + 1));
        }
        assert(keys@ =~= model);
        let ghost before = nested(decoded@);
        decoded.push(keys);
        assert(nested(decoded@) =~= before.push(model));
        assert(before.push(model) =~= driver_keys(lists@).take(i + 1));
    }
    assert(driver_keys(lists@).take(lists@.len() as int) =~= driver_keys(lists@));
    decoded
}

fn decode_worker_keys(lists: &Vec<TaskInputWorkerKeyList>) -> (decoded: Vec<
    Vec<(WorkerId, TaskInputKey)>,
>)
    ensures
        nested(decoded@) == worker_keys(lists@),
{
    let mut decoded: Vec<Vec<(WorkerId, TaskInputKey)>> = Vec::new();
    for i in 0..lists.len()
        invariant
            nested(decoded@) == worker_keys(lists@).take(i as int),
    {
        let list = &lists[i].keys;
        let ghost model = list@.map_values(|key: TaskInputWorkerKey| worker_key(key));
        let mut keys: Vec<(WorkerId, TaskInputKey)> = Vec::new();
        for j in 0..list.len()
            invariant
                model == list@.map_values(|key: TaskInputWorkerKey| worker_key(key)),
                keys@ == model.take(j as int),
        {
            keys.push(
                (
                    WorkerId(list[j].worker_id),
                    TaskInputKey {
                        partition: list[j].partition as usize,
                        attempt: list[j].attempt as usize,
                        channel: list[j].channel as usize,
                    },
                ),
            );
            assert(keys@ =~= model.take(j + 1));
        }
        assert(keys@ =~= model);
        let ghost before = nested(decoded@);
        decoded.push(keys);
        assert(nested(decoded@) =~= before.push(model));
        assert(before.push(model) =~= worker_keys(lists@).take(i + 1));
    }
    assert(worker_keys(lists@).take(lists@.len() as int) =~= worker_keys(lists@));
    decoded
}

fn decode_remote_keys(lists: &Vec<TaskInputRemoteKeyList>) -> (decoded: Vec<Vec<TaskInputKey>>)
    ensures
        nested(decoded@) == remote_keys(lists@),
{
    let mut decoded: Vec<Vec<TaskInputKey>> = Vec::new();
    for i in 0..lists.len()
        invariant
            nested(decoded@) == remote_keys(lists@).take(i as int),
    {
        let list = &lists[i].keys;
        let ghost model = list@.map_values(|key: TaskInputRemoteKey| remote_key(key));
        let mut keys: Vec<TaskInputKey> = Vec::new();
        for j in 0..list.len()
            invariant
                model == list@.map_values(|key: TaskInputRemoteKey| remote_key(key)),
                keys@ == model.take(j as int),
        {
            keys.push(
                TaskInputKey {
                    partition: list[j].partition as usize,
                    attempt: list[j].attempt as usize,
                    channel: list[j].channel as usize,
                },
            );
            assert(keys@ =~= model.take(j + 1));
        }
        assert(keys@ =~= model);
        let ghost before = nested(decoded@);
        decoded.push(keys);
        assert(nested(decoded@) =~= before.push(model));
        assert(before.push(model) =~= remote_keys(lists@).take(i + 1));
    }
    assert(remote_keys(lists@).take(lists@.len() as int) =~= remote_keys(lists@));
    decoded
}

impl TaskInputLocator {
    /// The message that carries the locator.
    pub fn into_message(self) -> (message: TaskInputLocatorMessage)
        ensures
            message.kind matches Some(kind) && input_model(kind) == self@,
    {
        let kind = match self {
            TaskInputLocator::Driver { stage, keys } => TaskInputLocatorKind::Driver {
                stage: stage as u64,
                keys: encode_driver_keys(&keys),
            },
            TaskInputLocator::Worker { stage, keys } => TaskInputLocatorKind::Worker {
                stage: stage as u64,
                keys: encode_worker_keys(&keys),
            },
            TaskInputLocator::Remote { uri, stage, keys } => TaskInputLocatorKind::Remote {
                uri,
                stage: stage as u64,
                keys: encode_remote_keys(&keys),
            },
        };
        TaskInputLocatorMessage { kind: Some(kind) }
    }

    /// The locator that a message carries.
    pub fn try_from_message(message: TaskInputLocatorMessage) -> (locator: Result<
        TaskInputLocator,
        ExecutionError,
    >)
        ensures
            message.kind matches Some(kind) ==> (locator matches Ok(l) && l@ == input_model(kind)),
            message.kind is None ==> (locator matches Err(e) && e@ == (
                true,
                "cannot decode empty task input locator"@,
            )),
    {
        match message.kind {
            Some(TaskInputLocatorKind::Driver { stage, keys }) => Ok(
                TaskInputLocator::Driver { stage: stage as usize, keys: decode_driver_keys(&keys) },
            ),
            Some(TaskInputLocatorKind::Worker { stage, keys }) => Ok(
                TaskInputLocator::Worker { stage: stage as usize, keys: decode_worker_keys(&keys) },
            ),
            Some(TaskInputLocatorKind::Remote { uri, stage, keys }) => Ok(
                TaskInputLocator::Remote {
                    uri,
                    stage: stage as usize,
                    keys: decode_remote_keys(&keys),
                },
            ),
            None => Err(
                ExecutionError::InvalidArgument(
                    "cannot decode empty task input locator".to_owned(),
                ),
            ),
        }
    }
}

impl TaskInput {
    /// The message that carries the input.
    pub fn into_message(self) -> (message: TaskInputMessage)
        ensures
            input_complete(message),
            input_model(message.locator->0.kind->0) == self.locator@,
    {
        TaskInputMessage { locator: Some(self.locator.into_message()) }
    }

    /// The input that a message carries.
    pub fn try_from_message(message: TaskInputMessage) -> (input: Result<
        TaskInput,
        ExecutionError,
    >)
        ensures
            input is Ok <==> input_complete(message),
            input matches Ok(i) ==> i.locator@ == input_model(message.locator->0.kind->0),
            input matches Err(e) ==> e@ == (true, "cannot decode empty task input locator"@),
    {
        match message.locator {
            Some(locator) => match TaskInputLocator::try_from_message(locator) {
                Ok(locator) => Ok(TaskInput { locator }),
                Err(e) => Err(e),
            },
            None => Err(
                ExecutionError::InvalidArgument(
                    "cannot decode empty task input locator".to_owned(),
                ),
            ),
        }
    }
}

impl TaskOutputDistribution {
    /// The message that carries the distribution.
    pub fn into_message(self) -> (message: TaskOutputDistributionMessage)
        ensures
            message.kind matches Some(kind) && distribution_model(kind) == self@,
    {
        let kind = match self {
            TaskOutputDistribution::Hash { keys, channels } => TaskOutputDistributionKind::Hash {
                keys,
                channels: channels as u64,
            },
            TaskOutputDistribution::RoundRobin { channels } => {
                TaskOutputDistributionKind::RoundRobin { channels: channels as u64 }
            },
            TaskOutputDistribution::RoundRobinRow { channels } => {
                TaskOutputDistributionKind::RoundRobinRow { channels: channels as u64 }
            },
        };
        TaskOutputDistributionMessage { kind: Some(kind) }
    }

    /// The distribution that a message carries.
    pub fn try_from_message(message: TaskOutputDistributionMessage) -> (distribution: Result<
        TaskOutputDistribution,
        ExecutionError,
    >)
        ensures
            message.kind matches Some(kind) ==> (distribution matches Ok(d) && d@
                == distribution_model(kind)),
            message.kind is None ==> (distribution matches Err(e) && e@ == (
                true,
                "cannot decode empty task output distribution"@,
            )),
    {
        match message.kind {
            Some(TaskOutputDistributionKind::Hash { keys, channels }) => Ok(
                TaskOutputDistribution::Hash { keys, channels: channels as usize },
            ),
            Some(TaskOutputDistributionKind::RoundRobin { channels }) => Ok(
                TaskOutputDistribution::RoundRobin { channels: channels as usize },
            ),
            Some(TaskOutputDistributionKind::RoundRobinRow { channels }) => Ok(
                TaskOutputDistribution::RoundRobinRow { channels: channels as usize },
            ),
            None => Err(
                ExecutionError::InvalidArgument(
                    "cannot decode empty task output distribution".to_owned(),
                ),
            ),
        }
    }
}

impl TaskOutputLocator {
    /// The message that carries the locator.
    pub fn into_message(self) -> (message: TaskOutputLocatorMessage)
        ensures
            message.kind matches Some(kind) && output_model(kind) == self@,
    {
        let kind = match self {
            TaskOutputLocator::Local { replicas } => TaskOutputLocatorKind::Local {
                replicas: replicas as u64,
            },
            TaskOutputLocator::Remote { uri } => TaskOutputLocatorKind::Remote { uri },
        };
        TaskOutputLocatorMessage { kind: Some(kind) }
    }

    /// The locator that a message carries.
    pub fn try_from_message(message: TaskOutputLocatorMessage) -> (locator: Result<
        TaskOutputLocator,
        ExecutionError,
    >)
        ensures
            message.kind matches Some(kind) ==> (locator matches Ok(l) && l@ == output_model(kind)),
            message.kind is None ==> (locator matches Err(e) && e@ == (
                true,
                "cannot decode empty task output locator"@,
            )),
    {
        match message.kind {
            Some(TaskOutputLocatorKind::Local { replicas }) => Ok(
                TaskOutputLocator::Local { replicas: replicas as usize },
            ),
            Some(TaskOutputLocatorKind::Remote { uri }) => Ok(TaskOutputLocator::Remote { uri }),
            None => Err(
                ExecutionError::InvalidArgument(
                    "cannot decode empty task output locator".to_owned(),
                ),
            ),
        }
    }
}

impl TaskOutput {
    /// The message that carries the output.
    pub fn into_message(self) -> (message: TaskOutputMessage)
        ensures
            output_error(message) is None,
            distribution_model(message.distribution->0.kind->0) == self.distribution@,
            output_model(message.locator->0.kind->0) == self.locator@,
    {
        TaskOutputMessage {
            distribution: Some(self.distribution.into_message()),
            locator: Some(self.locator.into_message()),
        }
    }

    /// The output that a message carries.
    pub fn try_from_message(message: TaskOutputMessage) -> (output: Result<
        TaskOutput,
        ExecutionError,
    >)
        ensures
            output is Ok <==> output_error(message) is None,
            output matches Ok(o) ==> o.distribution@ == distribution_model(
                message.distribution->0.kind->0,
            ) && o.locator@ == output_model(message.locator->0.kind->0),
            output matches Err(e) ==> Some(e@.1) == output_error(message) && e@.0,
    {
        let distribution = match message.distribution {
            Some(distribution) => match TaskOutputDistribution::try_from_message(distribution) {
                Ok(distribution) => distribution,
                Err(e) => {
                    return Err(e);
                },
            },
            None => {
                return Err(
                    ExecutionError::InvalidArgument(
                        "cannot decode empty task output distribution".to_owned(),
                    ),
                );
            },
        };
        let locator = match message.locator {
            Some(locator) => match TaskOutputLocator::try_from_message(locator) {
                Ok(locator) => locator,
                Err(e) => {
                    return Err(e);
                },
            },
            None => {
                return Err(
                    ExecutionError::InvalidArgument(
                        "cannot decode empty task output locator".to_owned(),
                    ),
                );
            },
        };
        Ok(TaskOutput { distribution, locator })
    }
}

impl TaskDefinition {
    /// The message that carries the task definition.
    pub fn into_message(self) -> (message: TaskDefinitionMessage)
        ensures
            decode_error(message) is None,
            definition_model(message) == self@,
    {
        let mut inputs: Vec<TaskInputMessage> = Vec::new();
        let ghost all = self.inputs@;
        for input in iter: self.inputs
            invariant
                iter.seq() == all,
                inputs@.len() == iter.index(),
                forall|i: int|
                    0 <= i < iter.index() ==> input_complete(#[trigger] inputs@[i])
                        && input_model(inputs@[i].locator->0.kind->0) == all[i].locator@,
        {
            inputs.push(input.into_message());
        }
        let message = TaskDefinitionMessage {
            plan: self.plan,
            inputs,
            output: Some(self.output.into_message()),
        };
        assert(definition_model(message).inputs =~= inputs_view(all));
        message
    }

    /// The task definition that a message carries, or the first of its parts that is
    /// missing.
    pub fn try_from_message(message: TaskDefinitionMessage) -> (definition: Result<
        TaskDefinition,
        ExecutionError,
    >)
        ensures
            definition is Ok <==> decode_error(message) is None,
            definition matches Ok(d) ==> d@ == definition_model(message),
            definition matches Err(e) ==> Some(e@.1) == decode_error(message) && e@.0,
    {
        let mut inputs: Vec<TaskInput> = Vec::new();
        let ghost all = message.inputs@;
        for input in iter: message.inputs
            invariant
                iter.seq() == all,
                all == message.inputs@,
                inputs@.len() == iter.index(),
                forall|i: int|
                    0 <= i < iter.index() ==> input_complete(#[trigger] all[i])
                        && inputs@[i].locator@ == input_model(all[i].locator->0.kind->0),
        {
            match TaskInput::try_from_message(input) {
                Ok(input) => {
                    inputs.push(input);
                },
                Err(e) => {
                    assert(!input_complete(all[iter.index()]));
                    return Err(e);
                },
            }
        }
        let output = match message.output {
            Some(output) => match TaskOutput::try_from_message(output) {
                Ok(output) => output,
                Err(e) => {
                    return Err(e);
                },
            },
            None => {
                return Err(
                    ExecutionError::InvalidArgument("cannot decode empty task output".to_owned()),
                );
            },
        };
        let definition = TaskDefinition { plan: message.plan, inputs, output };
        assert(definition@.inputs =~= definition_model(message).inputs);
        Ok(definition)
    }
}

/// A task definition that is sent is received as it was: decoding what was encoded gives
/// the same definition back.
pub proof fn law_definition_round_trip(
    sent: TaskDefinition,
    message: TaskDefinitionMessage,
    received: Result<TaskDefinition, ExecutionError>,
)
    requires
        call_ensures(TaskDefinition::into_message, (sent,), message),
        call_ensures(TaskDefinition::try_from_message, (message,), received),
    ensures
        received matches Ok(definition) && definition@ == sent@,
{
}

/// A message names the streams of an input as the input does: the same stage, and list by list the
/// same partitions, attempts and channels, and the same workers.
pub proof fn law_inputs_keep_their_keys(
    locator: TaskInputLocator,
    message: TaskInputLocatorMessage,
    i: int,
    j: int,
)
    requires
        call_ensures(TaskInputLocator::into_message, (locator,), message),
    ensures
        message.kind is Some,
        match (locator, message.kind->0) {
            (
                TaskInputLocator::Driver { stage, keys },
                TaskInputLocatorKind::Driver { stage: s, keys: lists },
            ) => {
                &&& s as usize == stage
                &&& lists@.len() == keys@.len()
                &&& 0 <= i < keys@.len() ==> lists@[i].keys@.len() == keys@[i]@.len()
                &&& 0 <= i < keys@.len() && 0 <= j < keys@[i]@.len() ==> {
                    let (sent, own) = (lists@[i].keys@[j], keys@[i]@[j]);
                    sent.partition as usize == own.partition && sent.attempt as usize == own.attempt
                        && sent.channel as usize == own.channel
                }
            },
            (
                TaskInputLocator::Worker { stage, keys },
                TaskInputLocatorKind::Worker { stage: s, keys: lists },
            ) => {
                &&& s as usize == stage
                &&& lists@.len() == keys@.len()
                &&& 0 <= i < keys@.len() ==> lists@[i].keys@.len() == keys@[i]@.len()
                &&& 0 <= i < keys@.len() && 0 <= j < keys@[i]@.len() ==> {
                    let (sent, own) = (lists@[i].keys@[j], keys@[i]@[j]);
                    sent.worker_id == own.0.0 && sent.partition as usize == own.1.partition
                        && sent.attempt as usize == own.1.attempt && sent.channel as usize
                        == own.1.channel
                }
            },
            (
                TaskInputLocator::Remote { uri, stage, keys },
                TaskInputLocatorKind::Remote { uri: u, stage: s, keys: lists },
            ) => {
                &&& u@ == uri@
                &&& s as usize == stage
                &&& lists@.len() == keys@.len()
                &&& 0 <= i < keys@.len() ==> lists@[i].keys@.len() == keys@[i]@.len()
                &&& 0 <= i < keys@.len() && 0 <= j < keys@[i]@.len() ==> {
                    let (sent, own) = (lists@[i].keys@[j], keys@[i]@[j]);
                    sent.partition as usize == own.partition && sent.attempt as usize == own.attempt
                        && sent.channel as usize == own.channel
                }
            },
            _ => false,
        },
{
    match (locator, message.kind->0) {
        (
            TaskInputLocator::Driver { keys, .. },
            TaskInputLocatorKind::Driver { keys: lists, .. },
        ) => {
            assert(driver_keys(lists@) == nested(keys@));
            if 0 <= i < keys@.len() {
                assert(driver_keys(lists@)[i] == nested(keys@)[i]);
                if 0 <= j < keys@[i]@.len() {
                    assert(driver_keys(lists@)[i][j] == keys@[i]@[j]);
                }
            }
        },
        (
            TaskInputLocator::Worker { keys, .. },
            TaskInputLocatorKind::Worker { keys: lists, .. },
        ) => {
            assert(worker_keys(lists@) == nested(keys@));
            if 0 <= i < keys@.len() {
                assert(worker_keys(lists@)[i] == nested(keys@)[i]);
                if 0 <= j < keys@[i]@.len() {
                    assert(worker_keys(lists@)[i][j] == keys@[i]@[j]);
                }
            }
        },
        (
            TaskInputLocator::Remote { keys, .. },
            TaskInputLocatorKind::Remote { keys: lists, .. },
        ) => {
            assert(remote_keys(lists@) == nested(keys@));
            if 0 <= i < keys@.len() {
                assert(remote_keys(lists@)[i] == nested(keys@)[i]);
                if 0 <= j < keys@[i]@.len() {
                    assert(remote_keys(lists@)[i][j] == keys@[i]@[j]);
                }
            }
        },
        _ => {},
    }
}

/// A message spreads an output as the output says, over as many channels, and says where it goes.
pub proof fn law_outputs_keep_their_kind(
    distribution: TaskOutputDistribution,
    spread: TaskOutputDistributionMessage,
    locator: TaskOutputLocator,
    place: TaskOutputLocatorMessage,
)
    requires
        call_ensures(TaskOutputDistribution::into_message, (distribution,), spread),
        call_ensures(TaskOutputLocator::into_message, (locator,), place),
    ensures
        spread.kind is Some && place.kind is Some,
        match (distribution, spread.kind->0) {
            (
                TaskOutputDistribution::Hash { keys, channels },
                TaskOutputDistributionKind::Hash { keys: k, channels: c },
            ) => c as usize == channels && nested(k@) == nested(keys@),
            (
                TaskOutputDistribution::RoundRobin { channels },
                TaskOutputDistributionKind::RoundRobin { channels: c },
            ) => c as usize == channels,
            (
                TaskOutputDistribution::RoundRobinRow { channels },
                TaskOutputDistributionKind::RoundRobinRow { channels: c },
            ) => c as usize == channels,
            _ => false,
        },
        match (locator, place.kind->0) {
            (
                TaskOutputLocator::Local { replicas },
                TaskOutputLocatorKind::Local { replicas: r },
            ) => r as usize == replicas,
            (TaskOutputLocator::Remote { uri }, TaskOutputLocatorKind::Remote { uri: u }) => u@
                == uri@,
            _ => false,
        },
{
}

/// A message is decoded exactly where nothing in it is missing: every input has a locator, and
/// there is an output with a distribution and a locator.
pub proof fn law_incomplete_messages_are_refused(
    message: TaskDefinitionMessage,
    definition: Result<TaskDefinition, ExecutionError>,
)
    requires
        call_ensures(TaskDefinition::try_from_message, (message,), definition),
    ensures
        definition is Ok <==> (forall|i: int|
            #![trigger message.inputs@[i]]
            0 <= i < message.inputs@.len() ==> message.inputs@[i].locator is Some
                && message.inputs@[i].locator->0.kind is Some) && message.output is Some
            && message.output->0.distribution is Some
            && message.output->0.distribution->0.kind is Some && message.output->0.locator is Some
            && message.output->0.locator->0.kind is Some,
        definition matches Ok(d) ==> d@.plan == message.plan@ && d@.inputs.len()
            == message.inputs@.len(),
        definition matches Err(e) ==> e@.0,
{
    if forall|i: int|
        #![trigger message.inputs@[i]]
        0 <= i < message.inputs@.len() ==> message.inputs@[i].locator is Some
            && message.inputs@[i].locator->0.kind is Some {
        assert(inputs_complete(message.inputs@));
    }
    if inputs_complete(message.inputs@) {
        assert forall|i: int|
            #![trigger message.inputs@[i]]
            0 <= i < message.inputs@.len() implies message.inputs@[i].locator is Some
            && message.inputs@[i].locator->0.kind is Some by {
            assert(input_complete(message.inputs@[i]));
        }
    }
}

} // verus!
