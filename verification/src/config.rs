//! Task configuration: the immutable description of one crash-reproduction
//! task, loaded once per task lifetime. Every field is a plain value; paths,
//! IDs and credentials are carried as strings and serve as placeholder
//! sources for template expansion.

use vstd::prelude::*;

verus! {

/// Optional remote location of a synchronized directory: the storage account
/// and container that hold its durable copy.
#[derive(Debug, Clone)]
pub struct RemoteLocation {
    pub account: Option<String>,
    pub container: Option<String>,
}

/// A synchronized directory descriptor: a local working directory plus the
/// optional remote location it is mirrored from.
#[derive(Debug, Clone)]
pub struct SyncedDir {
    pub local_path: String,
    pub remote_path: Option<RemoteLocation>,
}

/// One environment-variable entry: a name and a value template.
#[derive(Debug, Clone)]
pub struct EnvVar {
    pub name: String,
    pub value: String,
}

/// Shared task identity: where the task was set up and which job and task it
/// belongs to, plus optional telemetry credentials. Opaque to the loop beyond
/// being placeholder sources.
#[derive(Debug, Clone)]
pub struct CommonConfig {
    pub setup_dir: String,
    pub job_id: String,
    pub task_id: String,
    pub microsoft_telemetry_key: Option<String>,
    pub instance_telemetry_key: Option<String>,
}

/// Configuration of one crash-reproduction task.
#[derive(Debug, Clone)]
pub struct Config {
    /// Path or logical name of the analyzer tool to run.
    pub analyzer_exe: String,
    /// Ordered argument templates handed to the analyzer.
    pub analyzer_options: Vec<String>,
    /// Environment overlay for the analyzer; values are templates.
    pub analyzer_env: Vec<EnvVar>,
    /// Path to the binary under analysis.
    pub target_exe: String,
    /// Ordered argument templates conceptually forwarded to the target.
    pub target_options: Vec<String>,
    /// Synchronized directory holding the crash corpus.
    pub crashes: SyncedDir,
    /// Local path of the single reproducing input.
    pub input: String,
    /// Optional synchronized directory of auxiliary executables.
    pub tools: Option<SyncedDir>,
    /// Shared task identity.
    pub common: CommonConfig,
}

impl Config {
    /// Well-formedness of a task configuration: the two executables are
    /// named, and the environment overlay binds each variable at most once.
    pub open spec fn wf(&self) -> bool {
        &&& self.analyzer_exe@.len() > 0
        &&& self.target_exe@.len() > 0
        &&& forall|i: int, j: int|
            0 <= i < j < self.analyzer_env@.len() ==> self.analyzer_env@[i].name@
                != self.analyzer_env@[j].name@
    }

    /// Runtime check of `wf`, for callers that receive a configuration from
    /// outside and must reject a malformed one before starting the task.
    pub fn is_well_formed(&self) -> (b: bool)
        ensures
            b == self.wf(),
    {
        if self.analyzer_exe.as_str().is_empty() {
            return false;
        }
        if self.target_exe.as_str().is_empty() {
            return false;
        }
        let n = self.analyzer_env.len();
        for i in 0..n
            invariant
                n == self.analyzer_env@.len(),
                forall|x: int, y: int|
                    0 <= x < y < self.analyzer_env@.len() && x < i ==> self.analyzer_env@[x].name@
                        != self.analyzer_env@[y].name@,
        {
            for j in (i + 1)..n
                invariant
                    i < n == self.analyzer_env@.len(),
                    forall|x: int, y: int|
                        0 <= x < y < self.analyzer_env@.len() && x < i ==> self.analyzer_env@[x].name@
                            != self.analyzer_env@[y].name@,
                    forall|y: int|
                        i < y < j ==> self.analyzer_env@[i as int].name@
                            != self.analyzer_env@[y].name@,
            {
                if self.analyzer_env[i].name == self.analyzer_env[j].name {
                    return false;
                }
            }
        }
        true
    }
}

} // verus!
