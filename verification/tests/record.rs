use coldtrace::record::{DirectRunRecord, HostRecord, RunRecord, RusageRecord};

fn torch_import_record() -> RunRecord {
    RunRecord::direct(DirectRunRecord {
        run_id: "1234-99-torch-import".to_string(),
        name: Some("torch-import".to_string()),
        command_argv: vec![
            "python3".to_string(),
            "-c".to_string(),
            "import torch".to_string(),
        ],
        cwd: "/work/coldtrace".to_string(),
        started_unix_ms: 1234,
        wall_ms: 567,
        exit_code: Some(0),
        exit_signal: None,
        pid: 99,
        stdout_bytes: 12,
        stderr_bytes: 0,
    })
}

#[test]
fn direct_record_serializes_the_c0_schema_shape() {
    let record = torch_import_record();

    assert_eq!(record.schema_version, "coldtrace.run.v0");
    assert_eq!(record.run_id, "1234-99-torch-import");
    assert_eq!(record.name.as_deref(), Some("torch-import"));
    assert_eq!(record.launcher.mode, "direct");
    assert_eq!(record.command.argv[2], "import torch");
    assert_eq!(record.timing.wall_ms, 567);
    assert_eq!(record.exit.code, Some(0));
    assert_eq!(record.exit.signal, None);
    assert_eq!(record.process.pid, 99);
    assert_eq!(record.output.stdout_bytes, 12);
    assert_eq!(record.artifacts.stdout, "stdout.log");
    assert_eq!(record.artifacts.proc_maps, None);
}

#[test]
fn direct_record_keeps_every_measured_fact() {
    let record = torch_import_record();

    assert_eq!(record.command.cwd, "/work/coldtrace");
    assert_eq!(record.command.argv, ["python3", "-c", "import torch"]);
    assert_eq!(record.timing.started_unix_ms, 1234);
    assert_eq!(record.timing.time_to_first_stdout_ms, None);
    assert_eq!(record.timing.time_to_ready_ms, None);
    assert_eq!(record.output.stderr_bytes, 0);
    assert_eq!(record.launcher.unit_name, None);
    assert_eq!(record.artifacts.stderr, "stderr.log");
    assert_eq!(record.artifacts.proc_status, None);
    assert_eq!(record.artifacts.proc_cgroup, None);
    assert_eq!(record.artifacts.importtime, None);
    assert_eq!(record.artifacts.strace_summary, None);
    assert_eq!(record.process.cgroup, None);
    assert_eq!(record.process.peak_rss_kb, None);
    assert_eq!(record.process.mapped_files_count, None);
    assert_eq!(record.host.kernel, None);
    assert_eq!(record.host.python_version, None);
    assert_eq!(record.rusage.user_cpu_ms, None);
    assert_eq!(record.rusage.involuntary_context_switches, None);
}

#[test]
fn direct_record_keeps_a_nonzero_exit_code() {
    let record = RunRecord::direct(DirectRunRecord {
        run_id: "r".to_string(),
        name: None,
        command_argv: vec!["sh".to_string()],
        cwd: "/".to_string(),
        started_unix_ms: 0,
        wall_ms: 0,
        exit_code: Some(7),
        exit_signal: None,
        pid: 1,
        stdout_bytes: 3,
        stderr_bytes: 3,
    });
    assert_eq!(record.exit.code, Some(7));
    assert_eq!(record.exit.signal, None);
    assert_eq!(record.name, None);
}

#[test]
fn direct_record_keeps_a_killing_signal() {
    let record = RunRecord::direct(DirectRunRecord {
        run_id: "r".to_string(),
        name: Some("sigterm".to_string()),
        command_argv: vec!["sh".to_string()],
        cwd: "/".to_string(),
        started_unix_ms: 0,
        wall_ms: 0,
        exit_code: None,
        exit_signal: Some(15),
        pid: 1,
        stdout_bytes: 0,
        stderr_bytes: 0,
    });
    assert_eq!(record.exit.code, None);
    assert_eq!(record.exit.signal, Some(15));
}

#[test]
fn default_host_and_rusage_are_unknown() {
    let host = HostRecord::default();
    assert_eq!(host.kernel, None);
    assert_eq!(host.hostname, None);
    assert_eq!(host.systemd_version, None);
    assert_eq!(host.python_version, None);
    let rusage = RusageRecord::default();
    assert_eq!(rusage.user_cpu_ms, None);
    assert_eq!(rusage.system_cpu_ms, None);
    assert_eq!(rusage.minor_faults, None);
    assert_eq!(rusage.major_faults, None);
    assert_eq!(rusage.voluntary_context_switches, None);
    assert_eq!(rusage.involuntary_context_switches, None);
}
