use vstd::prelude::*;
use vstd::string::*;

use crate::execution::error::ExecutionError;
use crate::execution::id::{JobId, TaskKey, TaskStreamKey, WorkerId};

verus! {

/// What a task runs, what it reads and what it writes.
#[derive(Debug)]
pub struct TaskDefinition {
    pub plan: Vec<u8>,
    pub inputs: Vec<TaskInput>,
    pub output: TaskOutput,
}

#[derive(Debug)]
pub struct TaskInput {
    pub locator: TaskInputLocator,
}

#[derive(Debug)]
#[allow(inconsistent_fields)]
pub enum TaskInputLocator {
    Driver { stage: usize, keys: Vec<Vec<TaskInputKey>> },
    Worker { stage: usize, keys: Vec<Vec<(WorkerId, TaskInputKey)>> },
    Remote { uri: String, stage: usize, keys: Vec<Vec<TaskInputKey>> },
}

#[derive(Debug, Clone, Copy, PartialEq, Eq, Structural)]
pub struct TaskInputKey {
    pub partition: usize,
    pub attempt: usize,
    pub channel: usize,
}

#[derive(Debug)]
pub struct TaskOutput {
    pub distribution: TaskOutputDistribution,
    pub locator: TaskOutputLocator,
}

#[derive(Debug)]
pub enum TaskOutputDistribution {
    Hash { keys: Vec<Vec<u8>>, channels: usize },
    RoundRobin { channels: usize },
    RoundRobinRow { channels: usize },
}

#[derive(Debug)]
pub enum TaskOutputLocator {
    Local { replicas: usize },
    Remote { uri: String },
}

/// Where a task reads one input stream from.
#[derive(Debug)]
pub enum TaskReadLocation {
    Driver { key: TaskStreamKey },
    Worker { worker_id: WorkerId, key: TaskStreamKey },
    Remote { uri: String, key: TaskStreamKey },
}

#[derive(Debug, Clone, Copy, PartialEq, Eq, Structural)]
pub enum LocalStreamStorage {
    Memory { replicas: usize },
}

/// Where a task writes one output stream to.
#[derive(Debug)]
pub enum TaskWriteLocation {
    Local { storage: LocalStreamStorage, key: TaskStreamKey },
    Remote { uri: String, key: TaskStreamKey },
}

/// How the rows of a task's output are spread over its channels.
#[derive(Debug)]
pub enum OutputPartitioning<E> {
    /// By the hash of the key expressions.
    Hash { keys: Vec<E>, channels: usize },
    /// Batch by batch.
    RoundRobinBatch { channels: usize },
}

/// An input locator, by its contents.
#[allow(inconsistent_fields)]
pub enum InputModel {
    Driver { stage: usize, keys: Seq<Seq<TaskInputKey>> },
    Worker { stage: usize, keys: Seq<Seq<(WorkerId, TaskInputKey)>> },
    Remote { uri: Seq<char>, stage: usize, keys: Seq<Seq<TaskInputKey>> },
}

/// An output distribution, by its contents.
pub enum DistributionModel {
    Hash { keys: Seq<Seq<u8>>, channels: usize },
    RoundRobin { channels: usize },
    RoundRobinRow { channels: usize },
}

/// An output locator, by its contents.
pub enum OutputModel {
    Local { replicas: usize },
    Remote { uri: Seq<char> },
}

/// A task definition, by its contents.
#[verifier::ext_equal]
pub struct DefinitionModel {
    pub plan: Seq<u8>,
    pub inputs: Seq<InputModel>,
    pub distribution: DistributionModel,
    pub output: OutputModel,
}

/// The contents of a list of lists.
pub open spec fn nested<T>(lists: Seq<Vec<T>>) -> Seq<Seq<T>> {
    lists.map_values(|list: Vec<T>| list@)
}

impl View for TaskInputLocator {
    type V = InputModel;

    open spec fn view(&self) -> InputModel {
        match self {
            TaskInputLocator::Driver { stage, keys } => InputModel::Driver {
                stage: *stage,
                keys: nested(keys@),
            },
            TaskInputLocator::Worker { stage, keys } => InputModel::Worker {
                stage: *stage,
                keys: nested(keys@),
            },
            TaskInputLocator::Remote { uri, stage, keys } => InputModel::Remote {
                uri: uri@,
                stage: *stage,
                keys: nested(keys@),
            },
        }
    }
}

impl View for TaskOutputDistribution {
    type V = DistributionModel;

    open spec fn view(&self) -> DistributionModel {
        match self {
            TaskOutputDistribution::Hash { keys, channels } => DistributionModel::Hash {
                keys: nested(keys@),
                channels: *channels,
            },
            TaskOutputDistribution::RoundRobin { channels } => DistributionModel::RoundRobin {
                channels: *channels,
            },
            TaskOutputDistribution::RoundRobinRow { channels } => DistributionModel::RoundRobinRow {
                channels: *channels,
            },
        }
    }
}

impl View for TaskOutputLocator {
    type V = OutputModel;

    open spec fn view(&self) -> OutputModel {
        match self {
            TaskOutputLocator::Local { replicas } => OutputModel::Local { replicas: *replicas },
            TaskOutputLocator::Remote { uri } => OutputModel::Remote { uri: uri@ },
        }
    }
}

/// The inputs of a task, by their contents.
pub open spec fn inputs_view(inputs: Seq<TaskInput>) -> Seq<InputModel> {
    inputs.map_values(|input: TaskInput| input.locator@)
}

impl View for TaskDefinition {
    type V = DefinitionModel;

    open spec fn view(&self) -> DefinitionModel {
        DefinitionModel {
            plan: self.plan@,
            inputs: inputs_view(self.inputs@),
            distribution: self.output.distribution@,
            output: self.output.locator@,
        }
    }
}

/// The stream that an input key names.
pub open spec fn input_stream(job_id: JobId, stage: usize, key: TaskInputKey) -> TaskStreamKey {
    TaskStreamKey {
        job_id,
        stage,
        partition: key.partition,
        attempt: key.attempt,
        channel: key.channel,
    }
}

/// A channel of the output of a task.
pub open spec fn output_stream(key: TaskKey, channel: usize) -> TaskStreamKey {
    TaskStreamKey {
        job_id: key.job_id,
        stage: key.stage,
        partition: key.partition,
        attempt: key.attempt,
        channel,
    }
}

/// Whether a location is where an input with the given locator reads its stream `(i, j)`.
pub open spec fn reads_from(
    locator: InputModel,
    job_id: JobId,
    i: int,
    j: int,
    location: TaskReadLocation,
) -> bool {
    match locator {
        InputModel::Driver { stage, keys } => location == (TaskReadLocation::Driver {
            key: input_stream(job_id, stage, keys[i][j]),
        }),
        InputModel::Worker { stage, keys } => location == (TaskReadLocation::Worker {
            worker_id: keys[i][j].0,
            key: input_stream(job_id, stage, keys[i][j].1),
        }),
        InputModel::Remote { uri, stage, keys } => location matches TaskReadLocation::Remote {
            uri: u,
            key,
        } && u@ == uri && key == input_stream(job_id, stage, keys[i][j]),
    }
}

/// How many groups of streams an input has.
pub open spec fn group_count(locator: InputModel) -> nat {
    match locator {
        InputModel::Driver { keys, .. } => keys.len(),
        InputModel::Worker { keys, .. } => keys.len(),
        InputModel::Remote { keys, .. } => keys.len(),
    }
}

/// How many streams a group of an input has.
pub open spec fn group_len(locator: InputModel, i: int) -> nat {
    match locator {
        InputModel::Driver { keys, .. } => keys[i].len(),
        InputModel::Worker { keys, .. } => keys[i].len(),
        InputModel::Remote { keys, .. } => keys[i].len(),
    }
}

fn make_input_stream(job_id: JobId, stage: usize, key: TaskInputKey) -> (stream: TaskStreamKey)
    ensures
        stream == input_stream(job_id, stage, key),
{
    TaskStreamKey {
        job_id,
        stage,
        partition: key.partition,
        attempt: key.attempt,
        channel: key.channel,
    }
}

impl TaskInputLocator {
    fn group_count(&self) -> (count: usize)
        ensures
            count == group_count(self@),
    {
        match self {
            TaskInputLocator::Driver { keys, .. } => keys.len(),
            TaskInputLocator::Worker { keys, .. } => keys.len(),
            TaskInputLocator::Remote { keys, .. } => keys.len(),
        }
    }

    fn group_len(&self, i: usize) -> (len: usize)
        requires
            i < group_count(self@),
        ensures
            len == group_len(self@, i as int),
    {
        match self {
            TaskInputLocator::Driver { keys, .. } => keys[i].len(),
            TaskInputLocator::Worker { keys, .. } => keys[i].len(),
            TaskInputLocator::Remote { keys, .. } => keys[i].len(),
        }
    }

    fn location(&self, job_id: JobId, i: usize, j: usize) -> (location: TaskReadLocation)
        requires
            i < group_count(self@),
            j < group_len(self@, i as int),
        ensures
            reads_from(self@, job_id, i as int, j as int, location),
    {
        match self {
            TaskInputLocator::Driver { stage, keys } => TaskReadLocation::Driver {
                key: make_input_stream(job_id, *stage, keys[i][j]),
            },
            TaskInputLocator::Worker { stage, keys } => TaskReadLocation::Worker {
                worker_id: keys[i][j].0,
                key: make_input_stream(job_id, *stage, keys[i][j].1),
            },
            TaskInputLocator::Remote { uri, stage, keys } => TaskReadLocation::Remote {
                uri: uri.clone(),
                key: make_input_stream(job_id, *stage, keys[i][j]),
            },
        }
    }
}

impl TaskInput {
    /// Where the task reads each of its input streams from, group by group.
    pub fn locations(&self, job_id: JobId) -> (locations: Vec<Vec<TaskReadLocation>>)
        ensures
            locations@.len() == group_count(self.locator@),
            forall|i: int|
                0 <= i < locations@.len() ==> (#[trigger] locations@[i])@.len() == group_len(
                    self.locator@,
                    i,
                ),
            forall|i: int, j: int|
                0 <= i < locations@.len() && 0 <= j < locations@[i]@.len() ==> reads_from(
                    self.locator@,
                    job_id,
                    i,
                    j,
                    #[trigger] locations@[i]@[j],
                ),
    {
        let mut locations: Vec<Vec<TaskReadLocation>> = Vec::new();
        let groups: usize = self.locator.group_count();
        for i in 0..groups
            invariant
                groups == group_count(self.locator@),
                locations@.len() == i,
                forall|n: int|
                    0 <= n < i ==> (#[trigger] locations@[n])@.len() == group_len(self.locator@, n),
                forall|n: int, m: int|
                    0 <= n < i && 0 <= m < locations@[n]@.len() ==> reads_from(
                        self.locator@,
                        job_id,
                        n,
                        m,
                        #[trigger] locations@[n]@[m],
                    ),
        {
            let mut group: Vec<TaskReadLocation> = Vec::new();
            let len: usize = self.locator.group_len(i);
            for j in 0..len
                invariant
                    i < group_count(self.locator@),
                    len == group_len(self.locator@, i as int),
                    group@.len() == j,
                    forall|m: int|
                        0 <= m < j ==> reads_from(
                            self.locator@,
                            job_id,
                            i as int,
                            m,
                            #[trigger] group@[m],
                        ),
            {
                group.push(self.locator.location(job_id, i, j));
            }
            locations.push(group);
        }
        locations
    }
}

/// How many channels an output distribution has.
pub open spec fn channel_count(distribution: DistributionModel) -> usize {
    match distribution {
        DistributionModel::Hash { channels, .. } => channels,
        DistributionModel::RoundRobin { channels } => channels,
        DistributionModel::RoundRobinRow { channels } => channels,
    }
}

/// Whether a location is where a task with the given output locator writes a channel.
pub open spec fn writes_to(
    locator: OutputModel,
    key: TaskKey,
    channel: int,
    location: TaskWriteLocation,
) -> bool {
    match locator {
        OutputModel::Local { replicas } => location == (TaskWriteLocation::Local {
            storage: LocalStreamStorage::Memory { replicas },
            key: output_stream(key, channel as usize),
        }),
        OutputModel::Remote { uri } => location matches TaskWriteLocation::Remote { uri: u, key: k }
            && u@ == uri && k == output_stream(key, channel as usize),
    }
}

impl TaskOutput {
    /// How many channels the output has.
    pub fn channels(&self) -> (channels: usize)
        ensures
            channels == channel_count(self.distribution@),
    {
        match self.distribution {
            TaskOutputDistribution::Hash { channels, .. } => channels,
            TaskOutputDistribution::RoundRobin { channels } => channels,
            TaskOutputDistribution::RoundRobinRow { channels } => channels,
        }
    }

    /// Where the task writes each channel to.
    pub fn locations(&self, key: &TaskKey) -> (locations: Vec<TaskWriteLocation>)
        ensures
            locations@.len() == channel_count(self.distribution@),
            forall|i: int|
                0 <= i < locations@.len() ==> writes_to(
                    self.locator@,
                    *key,
                    i,
                    #[trigger] locations@[i],
                ),
    {
        let channels: usize = self.channels();
        let mut locations: Vec<TaskWriteLocation> = Vec::new();
        for channel in 0..channels
            invariant
                locations@.len() == channel,
                forall|i: int|
                    0 <= i < channel ==> writes_to(self.locator@, *key, i, #[trigger] locations@[i]),
        {
            let stream = TaskStreamKey {
                job_id: key.job_id,
                stage: key.stage,
                partition: key.partition,
                attempt: key.attempt,
                channel,
            };
            let location = match &self.locator {
                TaskOutputLocator::Local { replicas } => TaskWriteLocation::Local {
                    storage: LocalStreamStorage::Memory { replicas: *replicas },
                    key: stream,
                },
                TaskOutputLocator::Remote { uri } => TaskWriteLocation::Remote {
                    uri: uri.clone(),
                    key: stream,
                },
            };
            locations.push(location);
        }
        locations
    }

    /// The encoded key expressions by which the output is hashed, where it is.
    pub fn hash_keys(&self) -> (keys: Option<&Vec<Vec<u8>>>)
        ensures
            keys matches Some(k) ==> self.distribution@ == (DistributionModel::Hash {
                keys: nested(k@),
                channels: channel_count(self.distribution@),
            }),
            keys is None <==> !(self.distribution is Hash),
    {
        match &self.distribution {
            TaskOutputDistribution::Hash { keys, .. } => Some(keys),
            _ => None,
        }
    }

    /// How the output is spread over its channels, given its key expressions as they were
    /// decoded. Those are looked at only where the output is hashed.
    pub fn partitioning<E>(&self, decoded: Result<Vec<E>, ExecutionError>) -> (partitioning: Result<
        OutputPartitioning<E>,
        ExecutionError,
    >)
        ensures
            match self.distribution@ {
                DistributionModel::Hash { channels, .. } => match decoded {
                    Ok(keys) => partitioning == Ok::<_, ExecutionError>(
                        OutputPartitioning::Hash { keys, channels },
                    ),
                    Err(e) => partitioning == Err::<OutputPartitioning<E>, _>(e),
                },
                DistributionModel::RoundRobin { channels } => partitioning == Ok::<
                    _,
                    ExecutionError,
                >(OutputPartitioning::<E>::RoundRobinBatch { channels }),
                DistributionModel::RoundRobinRow { channels } => partitioning == Ok::<
                    _,
                    ExecutionError,
                >(OutputPartitioning::<E>::RoundRobinBatch { channels }),
            },
    {
        match &self.distribution {
            TaskOutputDistribution::Hash { channels, .. } => match decoded {
                Ok(keys) => Ok(OutputPartitioning::Hash { keys, channels: *channels }),
                Err(e) => Err(e),
            },
            TaskOutputDistribution::RoundRobin { channels } => Ok(
                OutputPartitioning::RoundRobinBatch { channels: *channels },
            ),
            TaskOutputDistribution::RoundRobinRow { channels } => Ok(
                OutputPartitioning::RoundRobinBatch { channels: *channels },
            ),
        }
    }

    /// Whether the output is spread row by row.
    pub fn row_based(&self) -> (rows: bool)
        ensures
            rows == (self.distribution is RoundRobinRow),
    {
        matches!(&self.distribution, TaskOutputDistribution::RoundRobinRow { .. })
    }
}

/// A task reads the streams that its input names, group by group and in their order: each by the
/// job, the stage, and the partition, the attempt and the channel of its key, and from where the
/// input lies.
pub proof fn law_inputs_are_read_where_they_lie(
    input: TaskInput,
    job_id: JobId,
    locations: Vec<Vec<TaskReadLocation>>,
    i: int,
    j: int,
)
    requires
        call_ensures(TaskInput::locations, (&input, job_id), locations),
    ensures
        match input.locator {
            TaskInputLocator::Driver { stage, keys } => {
                &&& locations@.len() == keys@.len()
                &&& 0 <= i < keys@.len() ==> locations@[i]@.len() == keys@[i]@.len()
                &&& 0 <= i < keys@.len() && 0 <= j < keys@[i]@.len() ==> locations@[i]@[j] == (
                TaskReadLocation::Driver {
                    key: TaskStreamKey {
                        job_id,
                        stage,
                        partition: keys@[i]@[j].partition,
                        attempt: keys@[i]@[j].attempt,
                        channel: keys@[i]@[j].channel,
                    },
                })
            },
            TaskInputLocator::Worker { stage, keys } => {
                &&& locations@.len() == keys@.len()
                &&& 0 <= i < keys@.len() ==> locations@[i]@.len() == keys@[i]@.len()
                &&& 0 <= i < keys@.len() && 0 <= j < keys@[i]@.len() ==> locations@[i]@[j] == (
                TaskReadLocation::Worker {
                    worker_id: keys@[i]@[j].0,
                    key: TaskStreamKey {
                        job_id,
                        stage,
                        partition: keys@[i]@[j].1.partition,
                        attempt: keys@[i]@[j].1.attempt,
                        channel: keys@[i]@[j].1.channel,
                    },
                })
            },
            TaskInputLocator::Remote { uri, stage, keys } => {
                &&& locations@.len() == keys@.len()
                &&& 0 <= i < keys@.len() ==> locations@[i]@.len() == keys@[i]@.len()
                &&& 0 <= i < keys@.len() && 0 <= j < keys@[i]@.len() ==> (
                locations@[i]@[j] matches TaskReadLocation::Remote { uri: u, key } && u@ == uri@
                    && key == (TaskStreamKey {
                    job_id,
                    stage,
                    partition: keys@[i]@[j].partition,
                    attempt: keys@[i]@[j].attempt,
                    channel: keys@[i]@[j].channel,
                }))
            },
        },
{
    let locator = input.locator@;
    assert(locations@.len() == group_count(locator));
    if 0 <= i < locations@.len() {
        assert(locations@[i]@.len() == group_len(locator, i));
        if 0 <= j < locations@[i]@.len() {
            assert(reads_from(locator, job_id, i, j, locations@[i]@[j]));
        }
    }
}

/// A task writes each channel of its output once, in order, under its own key: to its memory, or
/// to the place that its output names.
pub proof fn law_outputs_are_written_channel_by_channel(
    output: TaskOutput,
    key: TaskKey,
    channels: usize,
    locations: Vec<TaskWriteLocation>,
    i: int,
)
    requires
        call_ensures(TaskOutput::channels, (&output,), channels),
        call_ensures(TaskOutput::locations, (&output, &key), locations),
        0 <= i < channels,
    ensures
        match output.distribution {
            TaskOutputDistribution::Hash { channels: c, .. } => channels == c,
            TaskOutputDistribution::RoundRobin { channels: c } => channels == c,
            TaskOutputDistribution::RoundRobinRow { channels: c } => channels == c,
        },
        locations@.len() == channels,
        ({
            let stream = TaskStreamKey {
                job_id: key.job_id,
                stage: key.stage,
                partition: key.partition,
                attempt: key.attempt,
                channel: i as usize,
            };
            match output.locator {
                TaskOutputLocator::Local { replicas } => locations@[i] == (
                TaskWriteLocation::Local {
                    storage: LocalStreamStorage::Memory { replicas },
                    key: stream,
                }),
                TaskOutputLocator::Remote { uri } => (
                locations@[i] matches TaskWriteLocation::Remote { uri: u, key: k } && u@ == uri@
                    && k == stream),
            }
        }),
{
    assert(writes_to(output.locator@, key, i, locations@[i]));
}

/// An output is hashed by its keys where it says so, and spread batch by batch otherwise, over as
/// many channels as it has. Keys that cannot be decoded matter only where it is hashed.
pub proof fn law_outputs_are_spread_over_their_channels<E>(
    output: TaskOutput,
    decoded: Result<Vec<E>, ExecutionError>,
    channels: usize,
    partitioning: Result<OutputPartitioning<E>, ExecutionError>,
)
    requires
        call_ensures(TaskOutput::channels, (&output,), channels),
        call_ensures(TaskOutput::partitioning::<E>, (&output, decoded), partitioning),
    ensures
        output.distribution is Hash && decoded is Ok ==> partitioning == Ok::<_, ExecutionError>(
            OutputPartitioning::Hash { keys: decoded->Ok_0, channels },
        ),
        output.distribution is Hash && decoded is Err ==> partitioning == Err::<
            OutputPartitioning<E>,
            _,
        >(decoded->Err_0),
        !(output.distribution is Hash) ==> partitioning == Ok::<_, ExecutionError>(
            OutputPartitioning::<E>::RoundRobinBatch { channels },
        ),
{
}

/// The keys of an output that is hashed are its own, and no other output has any.
pub proof fn law_hashed_outputs_have_keys(output: TaskOutput, keys: Option<&Vec<Vec<u8>>>)
    requires
        call_ensures(TaskOutput::hash_keys, (&output,), keys),
    ensures
        match output.distribution {
            TaskOutputDistribution::Hash { keys: own, .. } => keys is Some && nested(keys->0@)
                == nested(own@),
            _ => keys is None,
        },
{
}

} // verus!
