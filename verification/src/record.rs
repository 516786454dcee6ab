//! The typed model of `record.json`: what a run records about the child
//! process, with the fields that later layers will fill left empty.
use vstd::prelude::*;

verus! {

/// The schema version that every record carries.
pub const SCHEMA_VERSION: &'static str = "coldtrace.run.v0";

/// The launcher mode of a run that spawns the child directly.
pub const DIRECT_MODE: &'static str = "direct";

/// The file, inside the run directory, that holds the child's stdout.
pub const STDOUT_LOG: &'static str = "stdout.log";

/// The file, inside the run directory, that holds the child's stderr.
pub const STDERR_LOG: &'static str = "stderr.log";

/// The file, inside the run directory, that holds the record.
pub const RECORD_FILE: &'static str = "record.json";

/// Everything a run records.
#[derive(Debug)]
pub struct RunRecord {
    pub schema_version: &'static str,
    pub run_id: String,
    pub name: Option<String>,
    pub launcher: LauncherRecord,
    pub command: CommandRecord,
    pub host: HostRecord,
    pub timing: TimingRecord,
    pub exit: ExitRecord,
    pub rusage: RusageRecord,
    pub process: ProcessRecord,
    pub output: OutputRecord,
    pub artifacts: ArtifactsRecord,
}

/// The facts that a direct run measures, from which its record is built.
#[derive(Debug)]
pub struct DirectRunRecord {
    pub run_id: String,
    pub name: Option<String>,
    pub command_argv: Vec<String>,
    pub cwd: String,
    pub started_unix_ms: u128,
    pub wall_ms: u128,
    pub exit_code: Option<i32>,
    pub exit_signal: Option<i32>,
    pub pid: u32,
    pub stdout_bytes: u64,
    pub stderr_bytes: u64,
}

/// How the child was launched.
#[derive(Debug)]
pub struct LauncherRecord {
    pub mode: &'static str,
    pub unit_name: Option<String>,
}

/// The child's command line and working directory.
#[derive(Debug)]
pub struct CommandRecord {
    pub argv: Vec<String>,
    pub cwd: String,
}

/// Facts about the host.
#[derive(Debug)]
pub struct HostRecord {
    pub kernel: Option<String>,
    pub hostname: Option<String>,
    pub systemd_version: Option<String>,
    pub python_version: Option<String>,
}

/// When the run started and how long it took.
#[derive(Debug)]
pub struct TimingRecord {
    pub started_unix_ms: u128,
    pub wall_ms: u128,
    pub time_to_first_stdout_ms: Option<u128>,
    pub time_to_ready_ms: Option<u128>,
}

/// How the child ended: an exit code, or the signal that killed it.
#[derive(Debug)]
pub struct ExitRecord {
    pub code: Option<i32>,
    pub signal: Option<i32>,
}

/// Resource usage of the child.
#[derive(Debug)]
pub struct RusageRecord {
    pub user_cpu_ms: Option<u64>,
    pub system_cpu_ms: Option<u64>,
    pub minor_faults: Option<i64>,
    pub major_faults: Option<i64>,
    pub voluntary_context_switches: Option<i64>,
    pub involuntary_context_switches: Option<i64>,
}

/// Facts about the child process.
#[derive(Debug)]
pub struct ProcessRecord {
    pub pid: u32,
    pub cgroup: Option<String>,
    pub peak_rss_kb: Option<u64>,
    pub mapped_files_count: Option<u64>,
}

/// How much the child wrote.
#[derive(Debug)]
pub struct OutputRecord {
    pub stdout_bytes: u64,
    pub stderr_bytes: u64,
}

/// The files that the run left in its directory.
#[derive(Debug)]
pub struct ArtifactsRecord {
    pub stdout: &'static str,
    pub stderr: &'static str,
    pub proc_status: Option<String>,
    pub proc_cgroup: Option<String>,
    pub proc_maps: Option<String>,
    pub importtime: Option<String>,
    pub strace_summary: Option<String>,
}

impl HostRecord {
    /// No host fact is known.
    pub open spec fn is_unknown(&self) -> bool {
        &&& self.kernel is None
        &&& self.hostname is None
        &&& self.systemd_version is None
        &&& self.python_version is None
    }
}

impl Default for HostRecord {
    fn default() -> (r: Self)
        ensures
            r.is_unknown(),
    {
        HostRecord { kernel: None, hostname: None, systemd_version: None, python_version: None }
    }
}

impl RusageRecord {
    /// No resource usage is known.
    pub open spec fn is_unknown(&self) -> bool {
        &&& self.user_cpu_ms is None
        &&& self.system_cpu_ms is None
        &&& self.minor_faults is None
        &&& self.major_faults is None
        &&& self.voluntary_context_switches is None
        &&& self.involuntary_context_switches is None
    }
}

impl Default for RusageRecord {
    fn default() -> (r: Self)
        ensures
            r.is_unknown(),
    {
        RusageRecord {
            user_cpu_ms: None,
            system_cpu_ms: None,
            minor_faults: None,
            major_faults: None,
            voluntary_context_switches: None,
            involuntary_context_switches: None,
        }
    }
}

impl RunRecord {
    /// The record of a direct run: the measured facts as they are (an exit
    /// code other than zero is recorded like any other), the schema version,
    /// the direct launcher, the two log files, and every fact that a later
    /// layer will measure left empty.
    pub fn direct(input: DirectRunRecord) -> (r: Self)
        ensures
            r.schema_version@ == SCHEMA_VERSION@,
            r.run_id == input.run_id,
            r.name == input.name,
            r.launcher.mode@ == DIRECT_MODE@,
            r.launcher.unit_name is None,
            r.command.argv == input.command_argv,
            r.command.cwd == input.cwd,
            r.host.is_unknown(),
            r.timing.started_unix_ms == input.started_unix_ms,
            r.timing.wall_ms == input.wall_ms,
            r.timing.time_to_first_stdout_ms is None,
            r.timing.time_to_ready_ms is None,
            r.exit.code == input.exit_code,
            r.exit.signal == input.exit_signal,
            r.rusage.is_unknown(),
            r.process.pid == input.pid,
            r.process.cgroup is None,
            r.process.peak_rss_kb is None,
            r.process.mapped_files_count is None,
            r.output.stdout_bytes == input.stdout_bytes,
            r.output.stderr_bytes == input.stderr_bytes,
            r.artifacts.stdout@ == STDOUT_LOG@,
            r.artifacts.stderr@ == STDERR_LOG@,
            r.artifacts.proc_status is None,
            r.artifacts.proc_cgroup is None,
            r.artifacts.proc_maps is None,
            r.artifacts.importtime is None,
            r.artifacts.strace_summary is None,
    {
        RunRecord {
            schema_version: SCHEMA_VERSION,
            run_id: input.run_id,
            name: input.name,
            launcher: LauncherRecord { mode: DIRECT_MODE, unit_name: None },
            command: CommandRecord { argv: input.command_argv, cwd: input.cwd },
            host: HostRecord::default(),
            timing: TimingRecord {
                started_unix_ms: input.started_unix_ms,
                wall_ms: input.wall_ms,
                time_to_first_stdout_ms: None,
                time_to_ready_ms: None,
            },
            exit: ExitRecord { code: input.exit_code, signal: input.exit_signal },
            rusage: RusageRecord::default(),
            process: ProcessRecord {
                pid: input.pid,
                cgroup: None,
                peak_rss_kb: None,
                mapped_files_count: None,
            },
            output: OutputRecord {
                stdout_bytes: input.stdout_bytes,
                stderr_bytes: input.stderr_bytes,
            },
            artifacts: ArtifactsRecord {
                stdout: STDOUT_LOG,
                stderr: STDERR_LOG,
                proc_status: None,
                proc_cgroup: None,
                proc_maps: None,
                importtime: None,
                strace_summary: None,
            },
        }
    }
}

} // verus!
