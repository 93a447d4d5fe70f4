use resctl::graph::Grapher;
use resctl::run::{
    fake_cpu_bench_args, hashd_bench_cmd, hashd_bench_started, next_tick_at, startup_reported,
    wait_deadline, wait_step, wait_woke, Minder, MinderState, RunCtx, RunError, StatusStep,
    WaitStep, BENCH_FAKE_CPU_HASH_SIZE, BENCH_FAKE_CPU_RPS_MAX,
};
use resctl::unit::UnitState;

fn strs(v: &[&str]) -> Vec<String> {
    v.iter().map(|s| s.to_string()).collect()
}

#[test]
fn agent_command_line() {
    let mut rctx = RunCtx::new("/var/lib/bench", Some("nvme0n1"), Some("/tmp/linux.tar"));
    let base = strs(&["--dir", "/var/lib/bench"]);
    let args = rctx.agent_args("/usr/bin/agent", base.clone(), vec![]);
    assert_eq!(
        args,
        strs(&[
            "/usr/bin/agent",
            "--dir",
            "/var/lib/bench",
            "--reset",
            "--keep-reports",
            "--linux-tar",
            "__SKIP__"
        ])
    );
    rctx.set_need_linux_tar();
    rctx.set_bypass();
    rctx.set_passive_keep_crit_mem_prot();
    let args = rctx.agent_args("agent", vec![], strs(&["--x"]));
    assert_eq!(
        args,
        strs(&[
            "agent",
            "--reset",
            "--keep-reports",
            "--linux-tar",
            "/tmp/linux.tar",
            "--bypass",
            "--passive=keep-crit-mem-prot",
            "--x"
        ])
    );
    rctx.set_passive_all();
    let args = rctx.agent_args("agent", vec![], vec![]);
    assert_eq!(args.last().unwrap(), "--passive=all");
}

#[test]
fn linux_tar_needed_but_missing() {
    let mut rctx = RunCtx::new("/d", None, None);
    rctx.set_need_linux_tar();
    let args = rctx.agent_args("agent", vec![], vec![]);
    assert_eq!(args, strs(&["agent", "--reset", "--keep-reports"]));
}

#[test]
fn testfiles_preparation() {
    let mut rctx = RunCtx::new("/d", None, None);
    rctx.set_prep_testfiles();
    assert!(rctx.prep_testfiles);
    assert_eq!(
        rctx.prepare_testfiles_args(),
        strs(&["--testfiles", "/d/scratch/hashd-A/testfiles", "--keep-caches", "--prepare"])
    );
}

#[test]
fn agent_starts_once() {
    let mut rctx = RunCtx::new("/d", None, None);
    assert!(rctx.start_agent().is_ok());
    assert!(matches!(rctx.start_agent(), Err(RunError::AlreadyRunning)));
    rctx.stop_agent();
    assert!(rctx.start_agent().is_ok());
}

#[test]
fn minder_detects_dead_agent() {
    let mut m = Minder::new(1_000);
    m.begin_tick();
    let dead = UnitState::Failed("signal".into());
    for _ in 0..3 {
        assert!(matches!(m.on_status(2_000, true, &dead), StatusStep::Retry));
    }
    let verdict = match m.on_status(2_000, true, &dead) {
        StatusStep::Fail(v) => v,
        other => panic!("unexpected {:?}", other),
    };
    assert!(matches!(verdict, MinderState::AgentNotRunning(UnitState::Failed(_))));
    match wait_step(false, &verdict, 2_500, 61_000) {
        WaitStep::Fail(RunError::Minder(MinderState::AgentNotRunning(_))) => {}
        other => panic!("unexpected {:?}", other),
    }
}

#[test]
fn minder_times_out_on_failed_refreshes() {
    let mut m = Minder::new(0);
    m.begin_tick();
    assert!(matches!(m.on_status(10_000, false, &UnitState::Running), StatusStep::Proceed));
    assert!(matches!(m.on_status(30_000, false, &UnitState::Running), StatusStep::Proceed));
    assert!(matches!(
        m.on_status(30_001, false, &UnitState::Running),
        StatusStep::Fail(MinderState::AgentTimeout)
    ));
    let mut m = Minder::new(0);
    assert!(matches!(m.on_status(25_000, true, &UnitState::Running), StatusStep::Proceed));
    assert_eq!(m.last_status_at, 25_000);
    assert!(matches!(m.on_status(50_000, false, &UnitState::Running), StatusStep::Proceed));
}

#[test]
fn minder_report_staleness() {
    let mut m = Minder::new(0);
    assert!(m.on_report(20_000, 15_000).is_none());
    assert_eq!(m.last_report_at, 15_000);
    assert!(m.on_report(45_000, 10_000).is_none());
    assert!(matches!(m.on_report(45_001, 0), Some(MinderState::ReportTimeout)));
    assert_eq!(next_tick_at(41), 42);
}

#[test]
fn wait_steps() {
    let ok = MinderState::Healthy;
    assert!(matches!(wait_step(true, &MinderState::ReportTimeout, 0, 0), WaitStep::Done));
    assert!(matches!(wait_step(false, &ok, 10, 25), WaitStep::Sleep(15)));
    assert!(matches!(wait_step(false, &ok, 26, 25), WaitStep::Fail(RunError::Timeout)));
    assert!(matches!(wait_woke(true), Err(RunError::Exiting)));
    assert!(wait_woke(false).is_ok());
    assert_eq!(wait_deadline(100, Some(30_000)), 30_100);
    assert_eq!(wait_deadline(0, None), 365 * 24 * 3600 * 1000);
    assert_eq!(wait_deadline(u64::MAX - 1, Some(5)), u64::MAX);
    assert!(startup_reported(100, true, 100));
    assert!(!startup_reported(99, true, 100));
    assert!(!startup_reported(100, false, 100));
}

#[test]
fn hashd_bench_commands() {
    let cmd = hashd_bench_cmd(7, 1 << 20, 4096, strs(&["--a"]));
    assert_eq!(cmd.seq, 8);
    assert_eq!(cmd.args, strs(&["--a"]));
    assert!(hashd_bench_started(false, 8, cmd.seq));
    assert!(!hashd_bench_started(false, 7, cmd.seq));
    assert!(hashd_bench_started(true, 0, cmd.seq));
    assert_eq!(
        fake_cpu_bench_args(BENCH_FAKE_CPU_HASH_SIZE, BENCH_FAKE_CPU_RPS_MAX),
        strs(&["--bench-fake-cpu-load", "--bench-hash-size=5242880", "--bench-rps-max=1000"])
    );
}

#[test]
fn grapher_file_names() {
    let g = Grapher::new(Some("out/tune"));
    assert_eq!(g.plot_filename("MOF"), "out/tune-MOF.svg");
    assert_eq!(g.pdf_filename(), "out/tune.pdf");
    let groups = vec![strs(&["a", "b"]), strs(&["c", "d", "e", "f", "g", "h"])];
    let srcs = g.montage_sources(&groups);
    assert_eq!(srcs.len(), 12);
    assert_eq!(srcs[0], "out/tune-a.svg");
    assert_eq!(srcs[2], "null:");
    assert_eq!(srcs[5], "null:");
    assert_eq!(srcs[6], "out/tune-c.svg");
    assert!(Grapher::new(None).file_prefix.is_none());
}

#[test]
fn minder_verdict_survives_restart() {
    let mut rctx = RunCtx::new("/d", None, None);
    assert!(rctx.start_agent().is_ok());
    rctx.record_minder_verdict(MinderState::AgentTimeout);
    rctx.record_minder_verdict(MinderState::ReportTimeout);
    assert!(matches!(rctx.minder_state, MinderState::AgentTimeout));
    rctx.stop_agent();
    assert!(rctx.start_agent().is_ok());
    assert!(matches!(rctx.minder_state, MinderState::AgentTimeout));
    assert!(matches!(
        wait_step(false, &rctx.minder_state, 0, 10),
        WaitStep::Fail(RunError::Minder(MinderState::AgentTimeout))
    ));
}
