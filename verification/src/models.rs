//! What the reactor knows of the Thorium API's nodes, workers and images.

use vstd::prelude::*;

use crate::names::{NameMap, NameSet};

verus! {

/// The scalers that a reactor can spawn jobs for
#[derive(Debug, Clone, Copy, PartialEq, Eq, Structural)]
pub enum ImageScaler {
    /// Jobs on bare metal nodes
    BareMetal,
    /// Jobs in Windows containers
    Windows,
    /// Jobs in KVM guests
    Kvm,
}

/// The statuses that a worker can have
#[derive(Debug, Clone, Copy, PartialEq, Eq, Structural)]
pub enum WorkerStatus {
    /// The worker is being spawned
    Spawning,
    /// The worker is running
    Running,
    /// The worker is to be shut down
    Shutdown,
}

/// An amount of resources
#[derive(Debug, Clone, Copy, PartialEq, Eq, Structural)]
pub struct Resources {
    /// CPU in millicpu
    pub cpu: u64,
    /// Memory in MiB
    pub memory: u64,
    /// Ephemeral storage in MiB
    pub ephemeral_storage: u64,
    /// The number of workers
    pub worker_slots: u64,
    /// The number of Nvidia GPUs
    pub nvidia_gpu: u64,
    /// The number of AMD GPUs
    pub amd_gpu: u64,
}

/// A worker as the API knows it
#[derive(Debug)]
pub struct Worker {
    /// The cluster the worker is in
    pub cluster: String,
    /// The node the worker is on
    pub node: String,
    /// The group of the pipeline
    pub group: String,
    /// The pipeline the worker claims jobs for
    pub pipeline: String,
    /// The stage (image) the worker claims jobs for
    pub stage: String,
    /// The name of the worker
    pub name: String,
    /// The user the worker runs jobs for
    pub user: String,
    /// The resources of the worker
    pub resources: Resources,
    /// The status of the worker
    pub status: WorkerStatus,
    /// The id of the job the worker is executing
    pub active_job: Option<String>,
}

impl Clone for Worker {
    fn clone(&self) -> (r: Worker)
        ensures
            r == *self,
    {
        Worker {
            cluster: self.cluster.clone(),
            node: self.node.clone(),
            group: self.group.clone(),
            pipeline: self.pipeline.clone(),
            stage: self.stage.clone(),
            name: self.name.clone(),
            user: self.user.clone(),
            resources: self.resources,
            status: self.status,
            active_job: match &self.active_job {
                Some(job) => Some(job.clone()),
                None => None,
            },
        }
    }
}

/// A node as the API knows it
#[derive(Debug)]
pub struct Node {
    /// The workers that should be on the node
    pub workers: NameMap<Worker>,
}

/// The workers to delete from the API
#[derive(Debug)]
pub struct WorkerDeleteMap {
    /// The names of the workers
    pub workers: NameSet,
}

impl WorkerDeleteMap {
    /// A map without workers.
    pub fn new() -> (r: WorkerDeleteMap)
        ensures
            r.workers@ == Set::<Seq<char>>::empty(),
    {
        WorkerDeleteMap { workers: NameSet::new() }
    }

    /// Adds a worker.
    pub fn add_mut(&mut self, worker: &str)
        ensures
            final(self).workers@ == old(self).workers@.insert(worker@),
    {
        self.workers.insert(worker);
    }
}

/// How an argument is passed to a script
#[derive(Debug)]
pub enum ArgStrategy {
    /// The argument is not passed
    Skip,
    /// The argument is appended
    Append,
    /// The argument is passed behind a keyword
    Kwarg(String),
}

/// The script that cleans up behind a job
#[derive(Debug)]
pub struct Cleanup {
    /// The path to the script
    pub script: String,
    /// How to pass the job's id
    pub job_id: ArgStrategy,
    /// How to pass the path of the results
    pub results: ArgStrategy,
    /// How to pass the path of the result files
    pub result_files_dir: ArgStrategy,
}

/// The paths that a job reads its dependencies from
#[derive(Debug)]
pub struct Dependencies {
    /// Where samples are placed
    pub samples: String,
    /// Where ephemeral files are placed
    pub ephemeral: String,
    /// Where repos are placed
    pub repos: String,
    /// Where results of earlier stages are placed
    pub results: String,
}

/// The paths that a job's output is collected from
#[derive(Debug)]
pub struct OutputCollection {
    /// Where results are written
    pub results: String,
    /// Where result files are written
    pub result_files: String,
    /// Where tags are written
    pub tags: String,
    /// Where children are written
    pub children: String,
}

/// What came of a command that ran
#[derive(Debug)]
pub struct CommandOutput {
    /// Whether the command succeeded
    pub success: bool,
    /// The exit code, if the command has one
    pub code: Option<i32>,
    /// What the command wrote to its standard output
    pub stdout: Vec<u8>,
    /// What the command wrote to its standard error
    pub stderr: Vec<u8>,
}

/// An image as the API knows it
#[derive(Debug)]
pub struct Image {
    /// The group the image is in
    pub group: String,
    /// The name of the image
    pub name: String,
    /// The script that cleans up behind a job, if there is one
    pub clean_up: Option<Cleanup>,
    /// Where the dependencies of a job are placed
    pub dependencies: Dependencies,
    /// Where the output of a job is collected from
    pub output_collection: OutputCollection,
}

} // verus!
