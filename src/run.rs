//! The run context of a benchmark: the agent's command line, the minder's
//! decisions on each tick, and the steps of a wait for a condition.
//!
//! The caller owns the threads, the clock and the service manager: it hands
//! each observation to the functions here and acts on what they decide.
use vstd::prelude::*;
use vstd::string::*;

use crate::text::{dec, push_dec};
use crate::unit::UnitState;

verus! {

/// How long, in milliseconds, the minder tolerates failed refreshes and a
/// report that does not advance.
pub const MINDER_AGENT_TIMEOUT_MS: u64 = 30000;

/// How long, in milliseconds, a benchmark command may take to be picked up.
pub const CMD_TIMEOUT_MS: u64 = 10000;

/// How long, in milliseconds, the agent may take to report back after it
/// was started.
pub const AGENT_STARTUP_TIMEOUT_MS: u64 = 30000;

/// How many times a tick re-reads a state that is not running.
pub const MINDER_RETRIES: u32 = 3;

/// The minder's verdict on the agent.
#[derive(Clone, Debug)]
pub enum MinderState {
    Healthy,
    AgentTimeout,
    AgentNotRunning(UnitState),
    ReportTimeout,
}

impl MinderState {
    pub fn is_ok(&self) -> (r: bool)
        ensures
            r == (*self is Healthy),
    {
        matches!(self, MinderState::Healthy)
    }
}

/// The view of a list of strings.
pub open spec fn strs_view(v: Seq<String>) -> Seq<Seq<char>> {
    Seq::new(v.len(), |i: int| v[i]@)
}

pub(crate) fn push_str(v: &mut Vec<String>, s: &str)
    ensures
        strs_view(final(v)@) == strs_view(old(v)@).push(s@),
{
    v.push(String::from_str(s));
    assert(strs_view(final(v)@) =~= strs_view(old(v)@).push(s@));
}

fn push_string(v: &mut Vec<String>, s: String)
    ensures
        strs_view(final(v)@) == strs_view(old(v)@).push(s@),
{
    let ghost sv = s@;
    v.push(s);
    assert(strs_view(final(v)@) =~= strs_view(old(v)@).push(sv));
}

fn push_all(v: &mut Vec<String>, mut w: Vec<String>)
    ensures
        strs_view(final(v)@) == strs_view(old(v)@) + strs_view(w@),
{
    let ghost w0 = w@;
    v.append(&mut w);
    assert(strs_view(final(v)@) =~= strs_view(old(v)@) + strs_view(w0));
}

/// The parameters of a run and the agent's state within it.
#[derive(Debug)]
pub struct RunCtx {
    pub dir: String,
    pub dev: Option<String>,
    pub linux_tar: Option<String>,
    pub need_linux_tar: bool,
    pub prep_testfiles: bool,
    pub bypass: bool,
    pub passive_all: bool,
    pub passive_keep_crit_mem_prot: bool,
    /// The agent's service is up.
    pub agent_running: bool,
    pub minder_state: MinderState,
}

/// The `--linux-tar` arguments: the tarball where one is needed and given,
/// the skip marker where none is needed.
pub open spec fn linux_tar_args(need_linux_tar: bool, linux_tar: Option<String>) -> Seq<Seq<char>> {
    if need_linux_tar {
        match linux_tar {
            Some(t) => seq!["--linux-tar"@, t@],
            None => Seq::empty(),
        }
    } else {
        seq!["--linux-tar"@, "__SKIP__"@]
    }
}

pub open spec fn passive_args(passive_all: bool, passive_keep_crit_mem_prot: bool) -> Seq<Seq<char>> {
    if passive_all {
        seq!["--passive=all"@]
    } else if passive_keep_crit_mem_prot {
        seq!["--passive=keep-crit-mem-prot"@]
    } else {
        Seq::empty()
    }
}

/// The agent's command line.
pub open spec fn agent_args_spec(
    c: &RunCtx,
    agent_bin: Seq<char>,
    base_args: Seq<Seq<char>>,
    extra_args: Seq<Seq<char>>,
) -> Seq<Seq<char>> {
    seq![agent_bin] + base_args + seq!["--reset"@, "--keep-reports"@] + linux_tar_args(
        c.need_linux_tar,
        c.linux_tar,
    ) + (if c.bypass {
        seq!["--bypass"@]
    } else {
        Seq::empty()
    }) + passive_args(c.passive_all, c.passive_keep_crit_mem_prot) + extra_args
}

/// The test-file preparation of the hashing workload.
pub open spec fn prepare_testfiles_args_spec(dir: Seq<char>) -> Seq<Seq<char>> {
    seq![
        "--testfiles"@,
        dir + "/scratch/hashd-A/testfiles"@,
        "--keep-caches"@,
        "--prepare"@,
    ]
}

/// Why the agent could not be started or waited on.
#[derive(Clone, Debug)]
pub enum RunError {
    AlreadyRunning,
    Minder(MinderState),
    Timeout,
    Exiting,
}

fn opt_string(s: Option<&str>) -> (r: Option<String>)
    ensures
        r is Some <==> s is Some,
        r matches Some(t) ==> t@ == s.unwrap()@,
{
    match s {
        Some(v) => Some(String::from_str(v)),
        None => None,
    }
}

impl RunCtx {
    pub fn new(dir: &str, dev: Option<&str>, linux_tar: Option<&str>) -> (r: RunCtx)
        ensures
            r.dir@ == dir@,
            r.dev is Some <==> dev is Some,
            r.dev matches Some(d) ==> d@ == dev.unwrap()@,
            r.linux_tar is Some <==> linux_tar is Some,
            r.linux_tar matches Some(t) ==> t@ == linux_tar.unwrap()@,
            !r.need_linux_tar && !r.prep_testfiles && !r.bypass,
            !r.passive_all && !r.passive_keep_crit_mem_prot,
            !r.agent_running,
            r.minder_state is Healthy,
    {
        RunCtx {
            dir: String::from_str(dir),
            dev: opt_string(dev),
            linux_tar: opt_string(linux_tar),
            need_linux_tar: false,
            prep_testfiles: false,
            bypass: false,
            passive_all: false,
            passive_keep_crit_mem_prot: false,
            agent_running: false,
            minder_state: MinderState::Healthy,
        }
    }

    pub fn set_need_linux_tar(&mut self)
        ensures
            *final(self) == (RunCtx { need_linux_tar: true, ..*old(self) }),
    {
        self.need_linux_tar = true;
    }

    pub fn set_prep_testfiles(&mut self)
        ensures
            *final(self) == (RunCtx { prep_testfiles: true, ..*old(self) }),
    {
        self.prep_testfiles = true;
    }

    pub fn set_bypass(&mut self)
        ensures
            *final(self) == (RunCtx { bypass: true, ..*old(self) }),
    {
        self.bypass = true;
    }

    pub fn set_passive_all(&mut self)
        ensures
            *final(self) == (RunCtx { passive_all: true, ..*old(self) }),
    {
        self.passive_all = true;
    }

    pub fn set_passive_keep_crit_mem_prot(&mut self)
        ensures
            *final(self) == (RunCtx { passive_keep_crit_mem_prot: true, ..*old(self) }),
    {
        self.passive_keep_crit_mem_prot = true;
    }

    /// The arguments of the test-file preparation, which runs before the
    /// agent where `prep_testfiles` is set.
    pub fn prepare_testfiles_args(&self) -> (r: Vec<String>)
        ensures
            strs_view(r@) == prepare_testfiles_args_spec(self.dir@),
    {
        let mut path = self.dir.clone();
        path.append("/scratch/hashd-A/testfiles");
        let mut v: Vec<String> = Vec::new();
        push_str(&mut v, "--testfiles");
        push_string(&mut v, path);
        push_str(&mut v, "--keep-caches");
        push_str(&mut v, "--prepare");
        assert(strs_view(v@) =~= prepare_testfiles_args_spec(self.dir@));
        v
    }

    /// The agent's command line: the binary, the base arguments, then the
    /// run's own flags, then `extra_args`.
    pub fn agent_args(&self, agent_bin: &str, base_args: Vec<String>, extra_args: Vec<String>) -> (r:
        Vec<String>)
        ensures
            strs_view(r@) == agent_args_spec(
                self,
                agent_bin@,
                strs_view(base_args@),
                strs_view(extra_args@),
            ),
    {
        let mut args: Vec<String> = Vec::new();
        push_str(&mut args, agent_bin);
        push_all(&mut args, base_args);
        push_str(&mut args, "--reset");
        push_str(&mut args, "--keep-reports");
        let ghost before_tar = strs_view(args@);
        if self.need_linux_tar {
            match &self.linux_tar {
                Some(t) => {
                    push_str(&mut args, "--linux-tar");
                    push_str(&mut args, t.as_str());
                },
                None => {},
            }
        } else {
            push_str(&mut args, "--linux-tar");
            push_str(&mut args, "__SKIP__");
        }
        assert(strs_view(args@) =~= before_tar + linux_tar_args(self.need_linux_tar, self.linux_tar));
        let ghost before_bypass = strs_view(args@);
        if self.bypass {
            push_str(&mut args, "--bypass");
        }
        assert(strs_view(args@) =~= before_bypass + (if self.bypass {
            seq!["--bypass"@]
        } else {
            Seq::empty()
        }));
        let ghost before_passive = strs_view(args@);
        if self.passive_all {
            push_str(&mut args, "--passive=all");
        } else if self.passive_keep_crit_mem_prot {
            push_str(&mut args, "--passive=keep-crit-mem-prot");
        }
        assert(strs_view(args@) =~= before_passive + passive_args(
            self.passive_all,
            self.passive_keep_crit_mem_prot,
        ));
        push_all(&mut args, extra_args);
        assert(strs_view(args@) =~= agent_args_spec(
            self,
            agent_bin@,
            strs_view(base_args@),
            strs_view(extra_args@),
        ));
        args
    }

    /// Marks the agent as started, unless it already runs.
    pub fn start_agent(&mut self) -> (r: Result<(), RunError>)
        ensures
            old(self).agent_running ==> (r matches Err(RunError::AlreadyRunning)),
            !old(self).agent_running ==> r is Ok,
            r is Ok ==> *final(self) == (RunCtx { agent_running: true, ..*old(self) }),
            r is Err ==> *final(self) == *old(self),
    {
        if self.agent_running {
            return Err(RunError::AlreadyRunning);
        }
        self.agent_running = true;
        Ok(())
    }

    /// Records the minder's verdict. A verdict other than `Healthy` is
    /// final: once the minder gave up, later verdicts leave it as it is.
    pub fn record_minder_verdict(&mut self, verdict: MinderState)
        ensures
            old(self).minder_state is Healthy ==> *final(self) == (RunCtx {
                minder_state: verdict,
                ..*old(self)
            }),
            !(old(self).minder_state is Healthy) ==> *final(self) == *old(self),
    {
        if self.minder_state.is_ok() {
            self.minder_state = verdict;
        }
    }

    /// Marks the agent as stopped.
    pub fn stop_agent(&mut self)
        ensures
            *final(self) == (RunCtx { agent_running: false, ..*old(self) }),
    {
        self.agent_running = false;
    }
}

// ---- the minder ------------------------------------------------------------
/// What the minder keeps between its ticks; times are in milliseconds.
#[derive(Clone, Copy, Debug, PartialEq, Eq, Structural)]
pub struct Minder {
    /// When a refresh of the agent's state last succeeded.
    pub last_status_at: u64,
    /// The newest report time seen.
    pub last_report_at: u64,
    /// Re-reads left in this tick.
    pub nr_tries: u32,
}

/// What follows one refresh of the agent's state.
#[derive(Clone, Debug)]
pub enum StatusStep {
    /// Refresh again within this tick.
    Retry,
    /// The agent runs: go on to check its report.
    Proceed,
    /// Give up with this verdict.
    Fail(MinderState),
}

/// More than the timeout has passed from `since` to `now`.
pub open spec fn expired(since: u64, now: u64) -> bool {
    now > since && now - since > MINDER_AGENT_TIMEOUT_MS
}

/// The minder after a refresh at `now`: the time of success, and one try
/// fewer where the state is re-read.
pub open spec fn status_next(m: Minder, now: u64, refresh_ok: bool, state: UnitState) -> Minder {
    let m1 = if refresh_ok {
        Minder { last_status_at: now, ..m }
    } else {
        m
    };
    if !refresh_ok && expired(m.last_status_at, now) {
        m
    } else if !state.running() && m.nr_tries > 0 {
        Minder { nr_tries: (m1.nr_tries - 1) as u32, ..m1 }
    } else {
        m1
    }
}

/// The verdict of a refresh at `now` that left the unit in `state`.
pub open spec fn status_verdict(m: Minder, now: u64, refresh_ok: bool, state: UnitState) -> StatusStep {
    if !refresh_ok && expired(m.last_status_at, now) {
        StatusStep::Fail(MinderState::AgentTimeout)
    } else if !state.running() {
        if m.nr_tries > 0 {
            StatusStep::Retry
        } else {
            StatusStep::Fail(MinderState::AgentNotRunning(state))
        }
    } else {
        StatusStep::Proceed
    }
}

pub open spec fn same_step(a: StatusStep, b: StatusStep) -> bool {
    match (a, b) {
        (StatusStep::Retry, StatusStep::Retry) => true,
        (StatusStep::Proceed, StatusStep::Proceed) => true,
        (StatusStep::Fail(x), StatusStep::Fail(y)) => x == y,
        _ => false,
    }
}

impl UnitState {
    /// A copy of the state.
    pub fn duplicate(&self) -> (r: UnitState)
        ensures
            r == *self,
    {
        match self {
            UnitState::NotFound => UnitState::NotFound,
            UnitState::Running => UnitState::Running,
            UnitState::Exited => UnitState::Exited,
            UnitState::OtherActive(s) => UnitState::OtherActive(s.clone()),
            UnitState::Inactive => UnitState::Inactive,
            UnitState::Failed(s) => UnitState::Failed(s.clone()),
            UnitState::Other(s) => UnitState::Other(s.clone()),
        }
    }
}

impl Minder {
    /// A minder whose clocks start at `now`.
    pub fn new(now: u64) -> (r: Minder)
        ensures
            r.last_status_at == now,
            r.last_report_at == now,
            r.nr_tries == MINDER_RETRIES,
    {
        Minder { last_status_at: now, last_report_at: now, nr_tries: MINDER_RETRIES }
    }

    /// Starts a tick with a full set of re-reads.
    pub fn begin_tick(&mut self)
        ensures
            *final(self) == (Minder { nr_tries: MINDER_RETRIES, ..*old(self) }),
    {
        self.nr_tries = MINDER_RETRIES;
    }

    /// Decides on one refresh of the agent's state at `now`: `refresh_ok`
    /// says whether the refresh succeeded, `state` is the unit's state after
    /// it.
    pub fn on_status(&mut self, now: u64, refresh_ok: bool, state: &UnitState) -> (r: StatusStep)
        ensures
            same_step(r, status_verdict(*old(self), now, refresh_ok, *state)),
            *final(self) == status_next(*old(self), now, refresh_ok, *state),
    {
        if !refresh_ok && now > self.last_status_at && now - self.last_status_at
            > MINDER_AGENT_TIMEOUT_MS {
            return StatusStep::Fail(MinderState::AgentTimeout);
        }
        if refresh_ok {
            self.last_status_at = now;
        }
        if !state.is_running() {
            if self.nr_tries > 0 {
                self.nr_tries = self.nr_tries - 1;
                return StatusStep::Retry;
            } else {
                return StatusStep::Fail(MinderState::AgentNotRunning(state.duplicate()));
            }
        }
        StatusStep::Proceed
    }

    /// Decides on the agent's report at `now`, whose time is `report_at`:
    /// the verdict where the newest report is older than the timeout.
    pub fn on_report(&mut self, now: u64, report_at: u64) -> (r: Option<MinderState>)
        ensures
            final(self).last_report_at == (if report_at > old(self).last_report_at {
                report_at
            } else {
                old(self).last_report_at
            }),
            final(self).last_status_at == old(self).last_status_at,
            final(self).nr_tries == old(self).nr_tries,
            r is Some <==> expired(final(self).last_report_at, now),
            r matches Some(v) ==> v is ReportTimeout,
    {
        if report_at > self.last_report_at {
            self.last_report_at = report_at;
        }
        if now > self.last_report_at && now - self.last_report_at > MINDER_AGENT_TIMEOUT_MS {
            Some(MinderState::ReportTimeout)
        } else {
            None
        }
    }
}

/// The next tick falls on the next whole second after `now_secs`.
pub fn next_tick_at(now_secs: u64) -> (r: u64)
    requires
        now_secs < u64::MAX,
    ensures
        r == now_secs + 1,
{
    now_secs + 1
}

/// The refreshes of one tick, each with its time, its success and the state
/// it left, taken until one of them does not ask for a retry.
pub open spec fn run_attempts(m: Minder, attempts: Seq<(u64, bool, UnitState)>) -> Option<StatusStep>
    decreases attempts.len(),
{
    if attempts.len() == 0 {
        None
    } else {
        let (now, ok, st) = attempts[0];
        match status_verdict(m, now, ok, st) {
            StatusStep::Retry => run_attempts(status_next(m, now, ok, st), attempts.drop_first()),
            v => Some(v),
        }
    }
}

/// A gone agent is caught within one tick. Where every refresh leaves the
/// agent in a state that is not running, a tick ends in failure after at
/// most its re-reads and one more refresh; where a refresh fails and more
/// than the timeout has passed since the last one that succeeded, the tick
/// ends right there in `AgentTimeout`.
pub proof fn lemma_minder_catches_dead_agent(m: Minder, attempts: Seq<(u64, bool, UnitState)>)
    requires
        attempts.len() > 0,
    ensures
        attempts.len() > m.nr_tries && (forall|i: int|
            0 <= i < attempts.len() ==> !(#[trigger] attempts[i]).2.running()) ==> (run_attempts(
            m,
            attempts,
        ) matches Some(v) && v is Fail),
        !attempts[0].1 && expired(m.last_status_at, attempts[0].0) ==> (run_attempts(m, attempts)
            matches Some(v) && v == StatusStep::Fail(MinderState::AgentTimeout)),
    decreases m.nr_tries,
{
    if attempts.len() > m.nr_tries && (forall|i: int|
        0 <= i < attempts.len() ==> !(#[trigger] attempts[i]).2.running()) {
        let (now, ok, st) = attempts[0];
        assert(!attempts[0].2.running());
        match status_verdict(m, now, ok, st) {
            StatusStep::Retry => {
                let m1 = status_next(m, now, ok, st);
                let rest = attempts.drop_first();
                assert forall|i: int| 0 <= i < rest.len() implies !(#[trigger] rest[i]).2.running() by {
                    assert(rest[i] == attempts[i + 1]);
                }
                lemma_minder_catches_dead_agent(m1, rest);
            },
            _ => {},
        }
    }
}

proof fn lemma_states_stay_dead(attempts: Seq<(u64, bool, UnitState)>, i: int)
    requires
        0 <= i < attempts.len(),
        attempts[0].1,
        forall|k: int| 0 <= k < attempts.len() ==> (#[trigger] attempts[k]).1 ==> !attempts[k].2.running(),
        forall|k: int|
            0 < k < attempts.len() ==> !(#[trigger] attempts[k]).1 ==> attempts[k].2 == attempts[k - 1].2,
    ensures
        !attempts[i].2.running(),
    decreases i,
{
    if i > 0 && !attempts[i].1 {
        lemma_states_stay_dead(attempts, i - 1);
    }
}

/// Milliseconds between two ticks of the minder, at most: each tick falls on
/// the next whole second (`next_tick_at`).
pub const MINDER_TICK_MS: u64 = 1000;

/// The liveness bound of the minder, for one tick. Say the agent died at
/// `t0` and no refresh has succeeded since (`last_status_at <= t0`). In a
/// tick after that, a refresh that succeeds sees the agent not running, and
/// one that fails leaves the state that the refresh before it saw. Such a
/// tick ends in a failure verdict, within its re-reads, where its first
/// refresh succeeds or where it comes more than the timeout after `t0`.
pub proof fn lemma_minder_tick_fails_after_death(
    m: Minder,
    t0: u64,
    attempts: Seq<(u64, bool, UnitState)>,
)
    requires
        m.last_status_at <= t0,
        attempts.len() > m.nr_tries,
        attempts[0].1 || attempts[0].0 > t0 + MINDER_AGENT_TIMEOUT_MS,
        forall|k: int| 0 <= k < attempts.len() ==> (#[trigger] attempts[k]).1 ==> !attempts[k].2.running(),
        forall|k: int|
            0 < k < attempts.len() ==> !(#[trigger] attempts[k]).1 ==> attempts[k].2 == attempts[k - 1].2,
    ensures
        run_attempts(m, attempts) matches Some(v) && v is Fail,
{
    if attempts[0].1 {
        assert forall|i: int| 0 <= i < attempts.len() implies !(#[trigger] attempts[i]).2.running() by {
            lemma_states_stay_dead(attempts, i);
        }
        lemma_minder_catches_dead_agent(m, attempts);
    } else {
        lemma_minder_catches_dead_agent(m, attempts);
    }
}

/// The liveness bound of the minder, in time. Ticks that start no later than
/// a tick after `t0` and follow one another within `MINDER_TICK_MS`, and that
/// run past `t0` plus the timeout and a tick, hold a tick in the second after
/// the timeout runs out. With the law above, the minder gives up by `t0` +
/// 31 s; it then wakes the waiters, whose next `wait_step` fails with its
/// verdict.
pub proof fn lemma_tick_after_timeout(ticks: Seq<u64>, t0: u64)
    requires
        ticks.len() > 0,
        ticks[0] <= t0 + MINDER_TICK_MS,
        forall|k: int| 0 <= k < ticks.len() - 1 ==> #[trigger] ticks[k + 1] <= ticks[k] + MINDER_TICK_MS,
        ticks.last() > t0 + MINDER_AGENT_TIMEOUT_MS,
    ensures
        exists|k: int|
            0 <= k < ticks.len() && t0 + MINDER_AGENT_TIMEOUT_MS < #[trigger] ticks[k] <= t0
                + MINDER_AGENT_TIMEOUT_MS + MINDER_TICK_MS,
    decreases ticks.len(),
{
    let bound = t0 + MINDER_AGENT_TIMEOUT_MS;
    if ticks.len() == 1 {
        assert(ticks[0] == ticks.last());
    } else {
        let n = ticks.len() - 1;
        if ticks[n - 1] > bound {
            let front = ticks.drop_last();
            assert forall|k: int| 0 <= k < front.len() - 1 implies #[trigger] front[k + 1] <= front[k]
                + MINDER_TICK_MS by {
                assert(front[k + 1] == ticks[k + 1]);
                assert(front[k] == ticks[k]);
            }
            assert(front.last() == ticks[n - 1]);
            lemma_tick_after_timeout(front, t0);
            let k = choose|k: int|
                0 <= k < front.len() && bound < #[trigger] front[k] <= bound + MINDER_TICK_MS;
            assert(ticks[k] == front[k]);
        } else {
            assert(ticks[n - 1 + 1] <= ticks[n - 1] + MINDER_TICK_MS);
            assert(ticks[n] == ticks.last());
        }
    }
}

/// The agent has reported back after a start at `started_at`: its report is
/// at least as new, and it says the agent runs.
pub fn startup_reported(report_at: i64, report_running: bool, started_at: i64) -> (r: bool)
    ensures
        r == (report_at >= started_at && report_running),
{
    report_at >= started_at && report_running
}

// ---- waiting -------------------------------------------------------------
/// What a wait does after checking its condition.
#[derive(Clone, Debug)]
pub enum WaitStep {
    Done,
    Fail(RunError),
    /// Sleep for at most this many milliseconds, then check again.
    Sleep(u64),
}

/// The deadline of a wait that starts at `now` (no timeout: a year).
pub fn wait_deadline(now: u64, timeout: Option<u64>) -> (r: u64)
    ensures
        r == (match timeout {
            Some(t) => if now + t > u64::MAX {
                u64::MAX as int
            } else {
                now + t
            },
            None => if now + 31536000000 > u64::MAX {
                u64::MAX as int
            } else {
                now + 31536000000
            },
        }),
{
    let t = match timeout {
        Some(t) => t,
        None => 31536000000,
    };
    if t > u64::MAX - now {
        u64::MAX
    } else {
        now + t
    }
}

/// One check of a wait: done where the condition holds, failed where the
/// minder gave up or the deadline passed, else a sleep until the deadline.
pub fn wait_step(cond: bool, minder: &MinderState, now: u64, expires: u64) -> (r: WaitStep)
    ensures
        cond ==> r is Done,
        !cond && !(*minder is Healthy) ==> (r matches WaitStep::Fail(RunError::Minder(v)) && v == *minder),
        !cond && *minder is Healthy && now > expires ==> r matches WaitStep::Fail(RunError::Timeout),
        !cond && *minder is Healthy && now <= expires ==> (r matches WaitStep::Sleep(d) && d == expires - now),
{
    if cond {
        return WaitStep::Done;
    }
    if !minder.is_ok() {
        return WaitStep::Fail(RunError::Minder(minder.duplicate()));
    }
    if now > expires {
        return WaitStep::Fail(RunError::Timeout);
    }
    WaitStep::Sleep(expires - now)
}

/// After a wake: a wait ends once the program is exiting.
pub fn wait_woke(exiting: bool) -> (r: Result<(), RunError>)
    ensures
        exiting <==> r matches Err(RunError::Exiting),
        !exiting <==> r is Ok,
{
    if exiting {
        Err(RunError::Exiting)
    } else {
        Ok(())
    }
}

impl MinderState {
    /// A copy of the verdict.
    pub fn duplicate(&self) -> (r: MinderState)
        ensures
            r == *self,
    {
        match self {
            MinderState::Healthy => MinderState::Healthy,
            MinderState::AgentTimeout => MinderState::AgentTimeout,
            MinderState::AgentNotRunning(s) => MinderState::AgentNotRunning(s.duplicate()),
            MinderState::ReportTimeout => MinderState::ReportTimeout,
        }
    }
}

// ---- benchmark commands ----------------------------------------------------
/// The hashing benchmark that the agent is asked to run.
#[derive(Clone, Debug)]
pub struct HashdBenchCmd {
    pub balloon_size: usize,
    pub log_bps: u64,
    pub args: Vec<String>,
    /// The sequence number the agent acknowledges once it took the command.
    pub seq: u64,
}

/// The command that starts a hashing benchmark after the one numbered
/// `hashd_seq`.
pub fn hashd_bench_cmd(hashd_seq: u64, balloon_size: usize, log_bps: u64, extra_args: Vec<String>) -> (r:
    HashdBenchCmd)
    requires
        hashd_seq < u64::MAX,
    ensures
        r.seq == hashd_seq + 1,
        r.balloon_size == balloon_size,
        r.log_bps == log_bps,
        r.args@ == extra_args@,
{
    HashdBenchCmd { balloon_size, log_bps, args: extra_args, seq: hashd_seq + 1 }
}

/// The benchmark took the command: the agent runs it, or acknowledged its
/// sequence number.
pub fn hashd_bench_started(state_is_bench_hashd: bool, acked_seq: u64, cmd_seq: u64) -> (r: bool)
    ensures
        r == (state_is_bench_hashd || acked_seq >= cmd_seq),
{
    state_is_bench_hashd || acked_seq >= cmd_seq
}

pub const BENCH_FAKE_CPU_HASH_SIZE: usize = 5242880;

pub const BENCH_FAKE_CPU_RPS_MAX: u32 = 1000;

pub const BENCH_FAKE_CPU_LOG_BPS: u64 = 16777216;

/// The extra arguments of a hashing benchmark on a fake CPU load.
pub fn fake_cpu_bench_args(hash_size: usize, rps_max: u32) -> (r: Vec<String>)
    ensures
        strs_view(r@) == seq![
            "--bench-fake-cpu-load"@,
            "--bench-hash-size="@ + dec(hash_size as nat),
            "--bench-rps-max="@ + dec(rps_max as nat),
        ],
{
    let mut v: Vec<String> = Vec::new();
    push_str(&mut v, "--bench-fake-cpu-load");
    let mut a = String::from_str("--bench-hash-size=");
    push_dec(&mut a, hash_size as u64);
    push_string(&mut v, a);
    let mut b = String::from_str("--bench-rps-max=");
    push_dec(&mut b, rps_max as u64);
    push_string(&mut v, b);
    assert(strs_view(v@) =~= seq![
        "--bench-fake-cpu-load"@,
        "--bench-hash-size="@ + dec(hash_size as nat),
        "--bench-rps-max="@ + dec(rps_max as nat),
    ]);
    v
}

} // verus!
