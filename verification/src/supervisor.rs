//! The supervision of one run as a state machine: create the tmux window,
//! start capture, run the command, relay the log, and own teardown on exit
//! or signal.
//!
//! [`Supervisor::step`] takes the outcome of the last action and gives the
//! next one; the caller performs each action (spawning tmux, sleeping,
//! signalling, ...) and hands back what came of it.
use vstd::prelude::*;
use crate::cli::Config;
use crate::docker::{docker_stop_argv, docker_stop_words};
use crate::text::{join, join_words, parse_i32, text_from_bytes, trim, trim_str, utf8_lossy, words};
use crate::tmux::{
    display_pane_pid_argv, display_pane_pid_words, display_status_argv, display_status_words,
    kill_window_argv, kill_window_words, new_window_argv, new_window_words, pane_id_of,
    pane_status_of, parse_pane_id, parse_pane_status, parse_pid, pipe_pane_argv, pipe_pane_words,
    respawn_pane_argv, respawn_pane_words, set_remain_on_exit_argv, set_remain_on_exit_words,
    PaneStatus,
};

verus! {

/// How often, in milliseconds, the supervisor wakes to relay the log and
/// poll the pane.
pub const POLL_INTERVAL_MS: u64 = 150;

/// Grace period, in milliseconds, after the process dies or a signal
/// arrives, before the final relay, so that `pipe-pane` can flush.
pub const FLUSH_GRACE_MS: u64 = 200;

/// Time, in milliseconds, given to the command to stop after SIGTERM.
pub const TERM_GRACE_MS: u64 = 300;

/// The signal forwarded to the pane's process on shutdown (SIGTERM).
pub const SIGTERM: i32 = 15;

/// Where a supervised run stands.
#[derive(Debug, Clone, Copy, PartialEq, Eq, Structural)]
pub enum Phase {
    /// Nothing done yet.
    Start,
    /// Outside tmux: the process is being replaced by the script.
    Replacing,
    /// The capture log is being created.
    CreatingLog,
    /// The window is being created.
    OpeningWindow,
    /// The pane is being told to remain after its process exits.
    KeepingPane,
    /// Capture of the pane's output is being started.
    StartingCapture,
    /// The placeholder is being replaced by the command.
    Respawning,
    /// The pane's process id is being asked for.
    FindingPid,
    /// Signal handlers are being installed and the log opened for reading.
    Arming,
    /// New log output is being relayed.
    Relaying,
    /// The signal flag is being read.
    CheckingSignal,
    /// The pane's liveness is being asked for.
    CheckingPane,
    /// Waiting for the next poll.
    Idle,
    /// Waiting for `pipe-pane` to flush before the final relay.
    Settling { code: i32, forward: bool },
    /// The final relay.
    Draining { code: i32, forward: bool },
    /// SIGTERM is being sent to the pane's process.
    Signalling { code: i32 },
    /// Waiting for the process to stop after SIGTERM.
    Pausing { code: i32 },
    /// The container is being stopped.
    StoppingContainer { code: i32 },
    /// The window is being killed.
    ClosingWindow { code: i32 },
    /// The capture log is being removed.
    RemovingLog { code: i32 },
    /// Done: the run ended with its exit code.
    Exited,
    /// Done: the run failed.
    Failed,
}

/// Why a run failed.
pub enum Failure {
    /// The last action failed with an I/O error, which the run returns.
    Io,
    /// A tmux command exited unsuccessfully.
    Tmux { message: String },
    /// tmux printed no pane id for the new window.
    NoPaneId,
}

/// The next thing to do.
pub enum Action {
    /// Not inside tmux: replace this process by `bash <script>`.
    ExecScript { script: String },
    /// Create (truncate) the capture log.
    CreateLog { path: String },
    /// Run `tmux` with these arguments and report its outcome.
    Tmux { argv: Vec<String> },
    /// Install the signal handlers and open the capture log for reading.
    Arm { path: String },
    /// Relay newly captured output to standard output (best effort).
    Pump,
    /// Read, without clearing it, the number of the signal received (0: none).
    PollSignal,
    /// Sleep this many milliseconds.
    Sleep { millis: u64 },
    /// Send SIGTERM to this process (best effort).
    Terminate { pid: i32 },
    /// Run `docker` with these arguments (best effort).
    Docker { argv: Vec<String> },
    /// Remove this file (best effort).
    RemoveLog { path: String },
    /// Stop, with this exit code.
    Exit { code: i32 },
    /// Stop, failing.
    Fail { failure: Failure },
}

/// What came of the last action.
pub enum Event {
    /// The run begins; tells whether it runs inside tmux.
    Begin { in_tmux: bool },
    /// The action was carried out.
    Done,
    /// The action failed with an I/O error (for tmux: it could not be run).
    Failed,
    /// tmux ran: whether it exited successfully, and what it printed.
    Tmux { success: bool, stdout: Vec<u8>, stderr: Vec<u8> },
    /// The number of the signal received, 0 if none.
    Signal(i32),
}

/// [`Failure`] as values.
pub enum FailureView {
    Io,
    Tmux { message: Seq<char> },
    NoPaneId,
}

/// [`Action`] as values.
pub enum ActionView {
    ExecScript { script: Seq<char> },
    CreateLog { path: Seq<char> },
    Tmux { argv: Seq<Seq<char>> },
    Arm { path: Seq<char> },
    Pump,
    PollSignal,
    Sleep { millis: u64 },
    Terminate { pid: i32 },
    Docker { argv: Seq<Seq<char>> },
    RemoveLog { path: Seq<char> },
    Exit { code: i32 },
    Fail { failure: FailureView },
}

/// [`Event`] as values.
pub enum EventView {
    Begin { in_tmux: bool },
    Done,
    Failed,
    Tmux { success: bool, stdout: Seq<u8>, stderr: Seq<u8> },
    Signal(i32),
}

impl View for Failure {
    type V = FailureView;

    open spec fn view(&self) -> FailureView {
        match self {
            Failure::Io => FailureView::Io,
            Failure::Tmux { message } => FailureView::Tmux { message: message@ },
            Failure::NoPaneId => FailureView::NoPaneId,
        }
    }
}

impl View for Action {
    type V = ActionView;

    open spec fn view(&self) -> ActionView {
        match self {
            Action::ExecScript { script } => ActionView::ExecScript { script: script@ },
            Action::CreateLog { path } => ActionView::CreateLog { path: path@ },
            Action::Tmux { argv } => ActionView::Tmux { argv: words(argv@) },
            Action::Arm { path } => ActionView::Arm { path: path@ },
            Action::Pump => ActionView::Pump,
            Action::PollSignal => ActionView::PollSignal,
            Action::Sleep { millis } => ActionView::Sleep { millis: *millis },
            Action::Terminate { pid } => ActionView::Terminate { pid: *pid },
            Action::Docker { argv } => ActionView::Docker { argv: words(argv@) },
            Action::RemoveLog { path } => ActionView::RemoveLog { path: path@ },
            Action::Exit { code } => ActionView::Exit { code: *code },
            Action::Fail { failure } => ActionView::Fail { failure: failure@ },
        }
    }
}

impl View for Event {
    type V = EventView;

    open spec fn view(&self) -> EventView {
        match self {
            Event::Begin { in_tmux } => EventView::Begin { in_tmux: *in_tmux },
            Event::Done => EventView::Done,
            Event::Failed => EventView::Failed,
            Event::Tmux { success, stdout, stderr } => EventView::Tmux {
                success: *success,
                stdout: stdout@,
                stderr: stderr@,
            },
            Event::Signal(n) => EventView::Signal(*n),
        }
    }
}

/// The supervision of one run.
pub struct Supervisor {
    script: String,
    title: String,
    log: String,
    owns_log: bool,
    docker_name: Option<String>,
    pane_id: String,
    pane_pid: Option<i32>,
    pending: Option<Failure>,
    phase: Phase,
}

/// [`Supervisor`] as values.
pub struct SupervisorView {
    pub script: Seq<char>,
    pub title: Seq<char>,
    pub log: Seq<char>,
    pub owns_log: bool,
    pub docker_name: Option<Seq<char>>,
    pub pane_id: Seq<char>,
    pub pane_pid: Option<i32>,
    /// The failure the run ends with once the window is closed, when a
    /// setup step failed after the window was made.
    pub pending: Option<FailureView>,
    pub phase: Phase,
}

/// The view of an optional string.
pub open spec fn opt_view(o: Option<String>) -> Option<Seq<char>> {
    match o {
        Some(s) => Some(s@),
        None => None,
    }
}

/// The view of an optional failure.
pub open spec fn opt_failure_view(o: Option<Failure>) -> Option<FailureView> {
    match o {
        Some(f) => Some(f@),
        None => None,
    }
}

impl View for Supervisor {
    type V = SupervisorView;

    closed spec fn view(&self) -> SupervisorView {
        SupervisorView {
            script: self.script@,
            title: self.title@,
            log: self.log@,
            owns_log: self.owns_log,
            docker_name: opt_view(self.docker_name),
            pane_id: self.pane_id@,
            pane_pid: self.pane_pid,
            pending: opt_failure_view(self.pending),
            phase: self.phase,
        }
    }
}

// ---------------------------------------------------------------------------
// The state machine
// ---------------------------------------------------------------------------

/// The supervision of `cfg` in process `pid`, before anything is done.
pub open spec fn initial(cfg: Config, pid: u32, temp_dir: Seq<char>) -> SupervisorView {
    SupervisorView {
        script: cfg.script@,
        title: cfg.title@,
        log: cfg.log_path_of(pid, temp_dir),
        owns_log: cfg.log is None,
        docker_name: opt_view(cfg.docker_name),
        pane_id: seq![],
        pane_pid: None,
        pending: None,
        phase: Phase::Start,
    }
}

/// The events that answer the action a run in phase `p` is waiting on.
pub open spec fn accepts(p: Phase, e: EventView) -> bool {
    match p {
        Phase::Start => e is Begin,
        Phase::Replacing => e is Failed,
        Phase::CreatingLog | Phase::Arming | Phase::Relaying | Phase::Idle | Phase::Settling { .. }
        | Phase::Draining { .. } | Phase::Signalling { .. } | Phase::Pausing { .. }
        | Phase::StoppingContainer { .. } | Phase::RemovingLog { .. } => e is Done || e is Failed,
        Phase::OpeningWindow | Phase::KeepingPane | Phase::StartingCapture | Phase::Respawning
        | Phase::FindingPid | Phase::CheckingPane | Phase::ClosingWindow { .. } => e is Tmux
            || e is Failed,
        Phase::CheckingSignal => e matches EventView::Signal(n) && n <= i32::MAX - 128,
        Phase::Exited | Phase::Failed => false,
    }
}

/// The error message of a tmux command `argv` that exited unsuccessfully
/// after printing `stderr`: `tmux <argv joined by spaces> failed: <stderr,
/// trimmed>`.
pub open spec fn tmux_failure_text(argv: Seq<Seq<char>>, stderr: Seq<u8>) -> Seq<char> {
    "tmux "@ + join(argv, " "@) + " failed: "@ + trim(utf8_lossy(stderr))
}

/// The pane's liveness from the outcome of `display-message`: unknown
/// (the pane is gone) unless tmux ran and succeeded.
pub open spec fn status_of_reply(e: EventView) -> Option<PaneStatus> {
    match e {
        EventView::Tmux { success, stdout, .. } => if success {
            Some(pane_status_of(utf8_lossy(stdout)))
        } else {
            None
        },
        _ => None,
    }
}

/// The run in phase `p`, with everything else as in `s`.
pub open spec fn with_phase(s: SupervisorView, p: Phase) -> SupervisorView {
    SupervisorView { phase: p, ..s }
}

/// The failure of a step that tmux had to carry out: `Io` if tmux could not
/// run, the tmux message if it failed.
pub open spec fn tmux_step_failure(argv: Seq<Seq<char>>, e: EventView) -> FailureView {
    match e {
        EventView::Tmux { stderr, .. } => FailureView::Tmux {
            message: tmux_failure_text(argv, stderr),
        },
        _ => FailureView::Io,
    }
}

/// The reply reports that tmux ran and succeeded.
pub open spec fn tmux_succeeded(e: EventView) -> bool {
    e matches EventView::Tmux { success, .. } && success
}

/// The end of a run: the failure it carries, if any, else the exit with
/// `code`.
pub open spec fn finish(s: SupervisorView, code: i32) -> (SupervisorView, ActionView) {
    match s.pending {
        Some(f) => (
            SupervisorView { pending: None, phase: Phase::Failed, ..s },
            ActionView::Fail { failure: f },
        ),
        None => (with_phase(s, Phase::Exited), ActionView::Exit { code }),
    }
}

/// Teardown, last part: remove the log if this run created it, then end.
pub open spec fn after_window(s: SupervisorView, code: i32) -> (SupervisorView, ActionView) {
    if s.owns_log {
        (with_phase(s, Phase::RemovingLog { code }), ActionView::RemoveLog { path: s.log })
    } else {
        finish(s, code)
    }
}

/// A setup step failed after the window was made: kill the window, remove
/// the log if this run created it, then fail with `f`.
pub open spec fn abandon(s: SupervisorView, f: FailureView) -> (SupervisorView, ActionView) {
    close_window(SupervisorView { pending: Some(f), ..s }, 0)
}

/// A setup step failed after the command was started in the window: stop
/// the container (if any), kill the window, remove the log if this run
/// created it, then fail with `f`.
pub open spec fn abandon_started(s: SupervisorView, f: FailureView) -> (SupervisorView, ActionView) {
    stop_container(SupervisorView { pending: Some(f), ..s }, 0)
}

/// Teardown: kill the window.
pub open spec fn close_window(s: SupervisorView, code: i32) -> (SupervisorView, ActionView) {
    (
        with_phase(s, Phase::ClosingWindow { code }),
        ActionView::Tmux { argv: kill_window_words(s.pane_id) },
    )
}

/// Teardown: stop the container if there is one, else kill the window.
pub open spec fn stop_container(s: SupervisorView, code: i32) -> (SupervisorView, ActionView) {
    match s.docker_name {
        Some(name) => (
            with_phase(s, Phase::StoppingContainer { code }),
            ActionView::Docker { argv: docker_stop_words(name) },
        ),
        None => close_window(s, code),
    }
}

/// Teardown, first part: when a signal is forwarded, SIGTERM to the pane's
/// process (if known) and a pause; then the rest.
pub open spec fn begin_teardown(s: SupervisorView, code: i32, forward: bool) -> (
    SupervisorView,
    ActionView,
) {
    if forward {
        match s.pane_pid {
            Some(pid) => (with_phase(s, Phase::Signalling { code }), ActionView::Terminate { pid }),
            None => (
                with_phase(s, Phase::Pausing { code }),
                ActionView::Sleep { millis: TERM_GRACE_MS },
            ),
        }
    } else {
        stop_container(s, code)
    }
}

/// One step of a run: from the run `s` and what came of its last action,
/// the next run and the next action.
pub open spec fn transition(s: SupervisorView, e: EventView) -> (SupervisorView, ActionView) {
    match s.phase {
        Phase::Start => match e {
            EventView::Begin { in_tmux } => if in_tmux {
                (with_phase(s, Phase::CreatingLog), ActionView::CreateLog { path: s.log })
            } else {
                (with_phase(s, Phase::Replacing), ActionView::ExecScript { script: s.script })
            },
            _ => (with_phase(s, Phase::Failed), ActionView::Fail { failure: FailureView::Io }),
        },
        Phase::Replacing => (
            with_phase(s, Phase::Failed),
            ActionView::Fail { failure: FailureView::Io },
        ),
        Phase::CreatingLog => if e is Done {
            (
                with_phase(s, Phase::OpeningWindow),
                ActionView::Tmux { argv: new_window_words(s.title) },
            )
        } else {
            (with_phase(s, Phase::Failed), ActionView::Fail { failure: FailureView::Io })
        },
        Phase::OpeningWindow => if tmux_succeeded(e) {
            match pane_id_of(utf8_lossy(e->stdout)) {
                Some(id) => (
                    SupervisorView { pane_id: id, phase: Phase::KeepingPane, ..s },
                    ActionView::Tmux { argv: set_remain_on_exit_words(id) },
                ),
                None => (
                    with_phase(s, Phase::Failed),
                    ActionView::Fail { failure: FailureView::NoPaneId },
                ),
            }
        } else {
            (
                with_phase(s, Phase::Failed),
                ActionView::Fail { failure: tmux_step_failure(new_window_words(s.title), e) },
            )
        },
        Phase::KeepingPane => (
            with_phase(s, Phase::StartingCapture),
            ActionView::Tmux { argv: pipe_pane_words(s.pane_id, s.log) },
        ),
        Phase::StartingCapture => if tmux_succeeded(e) {
            (
                with_phase(s, Phase::Respawning),
                ActionView::Tmux { argv: respawn_pane_words(s.pane_id, s.script) },
            )
        } else {
            abandon(s, tmux_step_failure(pipe_pane_words(s.pane_id, s.log), e))
        },
        Phase::Respawning => if tmux_succeeded(e) {
            (
                with_phase(s, Phase::FindingPid),
                ActionView::Tmux { argv: display_pane_pid_words(s.pane_id) },
            )
        } else {
            abandon(s, tmux_step_failure(respawn_pane_words(s.pane_id, s.script), e))
        },
        Phase::FindingPid => {
            let pid = if tmux_succeeded(e) {
                parse_i32(trim(utf8_lossy(e->stdout)))
            } else {
                None
            };
            (
                SupervisorView { pane_pid: pid, phase: Phase::Arming, ..s },
                ActionView::Arm { path: s.log },
            )
        },
        Phase::Arming => if e is Done {
            (with_phase(s, Phase::Relaying), ActionView::Pump)
        } else {
            abandon_started(s, FailureView::Io)
        },
        Phase::Relaying => (with_phase(s, Phase::CheckingSignal), ActionView::PollSignal),
        Phase::CheckingSignal => match e {
            EventView::Signal(n) => if n != 0 {
                (
                    with_phase(s, Phase::Settling { code: (128 + n) as i32, forward: true }),
                    ActionView::Sleep { millis: FLUSH_GRACE_MS },
                )
            } else {
                (
                    with_phase(s, Phase::CheckingPane),
                    ActionView::Tmux { argv: display_status_words(s.pane_id) },
                )
            },
            _ => (with_phase(s, Phase::Failed), ActionView::Fail { failure: FailureView::Io }),
        },
        Phase::CheckingPane => match status_of_reply(e) {
            Some(PaneStatus::Alive) => (
                with_phase(s, Phase::Idle),
                ActionView::Sleep { millis: POLL_INTERVAL_MS },
            ),
            Some(PaneStatus::Dead(status)) => (
                with_phase(
                    s,
                    Phase::Settling {
                        code: match status {
                            Some(c) => c,
                            None => 0,
                        },
                        forward: false,
                    },
                ),
                ActionView::Sleep { millis: FLUSH_GRACE_MS },
            ),
            None => begin_teardown(s, 0, false),
        },
        Phase::Idle => (with_phase(s, Phase::Relaying), ActionView::Pump),
        Phase::Settling { code, forward } => (
            with_phase(s, Phase::Draining { code, forward }),
            ActionView::Pump,
        ),
        Phase::Draining { code, forward } => begin_teardown(s, code, forward),
        Phase::Signalling { code } => (
            with_phase(s, Phase::Pausing { code }),
            ActionView::Sleep { millis: TERM_GRACE_MS },
        ),
        Phase::Pausing { code } => stop_container(s, code),
        Phase::StoppingContainer { code } => close_window(s, code),
        Phase::ClosingWindow { code } => after_window(s, code),
        Phase::RemovingLog { code } => finish(s, code),
        Phase::Exited => (s, ActionView::Fail { failure: FailureView::Io }),
        Phase::Failed => (s, ActionView::Fail { failure: FailureView::Io }),
    }
}

// ---------------------------------------------------------------------------
// Executable functions
// ---------------------------------------------------------------------------

/// The error message of the tmux command `argv` that failed after printing
/// `stderr`.
pub fn tmux_failure_message(argv: &Vec<String>, stderr: &[u8]) -> (message: String)
    ensures
        message@ == tmux_failure_text(words(argv@), stderr@),
{
    let mut message = String::from_str("tmux ");
    let joined = join_words(argv, " ");
    message.append(joined.as_str());
    message.append(" failed: ");
    let err = text_from_bytes(stderr);
    let trimmed = trim_str(err.as_str());
    message.append(trimmed.as_str());
    message
}

/// Pane liveness from the outcome of `display-message`; `None` when the pane
/// no longer exists (tmux could not run, or failed).
pub fn status_from_reply(event: &Event) -> (status: Option<PaneStatus>)
    ensures
        status == status_of_reply(event@),
{
    match event {
        Event::Tmux { success, stdout, .. } => {
            if *success {
                let out = text_from_bytes(stdout.as_slice());
                Some(parse_pane_status(out.as_str()))
            } else {
                None
            }
        },
        _ => None,
    }
}

impl Supervisor {
    /// The supervision of `cfg` in process `pid`, with default logs in
    /// `temp_dir`, before anything is done.
    pub fn new(cfg: &Config, pid: u32, temp_dir: &str) -> (sup: Supervisor)
        ensures
            sup@ == initial(*cfg, pid, temp_dir@),
    {
        let docker_name = match &cfg.docker_name {
            Some(n) => Some(n.clone()),
            None => None,
        };
        let sup = Supervisor {
            script: cfg.script.clone(),
            title: cfg.title.clone(),
            log: cfg.log_path(pid, temp_dir),
            owns_log: cfg.log.is_none(),
            docker_name,
            pane_id: String::new(),
            pane_pid: None,
            pending: None,
            phase: Phase::Start,
        };
        assert(sup@.pane_id =~= Seq::<char>::empty());
        sup
    }

    /// Where the run stands.
    pub fn phase(&self) -> (p: Phase)
        ensures
            p == self@.phase,
    {
        self.phase
    }

    /// Whether `event` answers the action the run is waiting on.
    pub fn accepts(&self, event: &Event) -> (b: bool)
        ensures
            b == accepts(self@.phase, event@),
    {
        match self.phase {
            Phase::Start => matches!(event, Event::Begin { .. }),
            Phase::Replacing => matches!(event, Event::Failed),
            Phase::CreatingLog | Phase::Arming | Phase::Relaying | Phase::Idle
            | Phase::Settling { .. } | Phase::Draining { .. } | Phase::Signalling { .. }
            | Phase::Pausing { .. } | Phase::StoppingContainer { .. }
            | Phase::RemovingLog { .. } => matches!(event, Event::Done | Event::Failed),
            Phase::OpeningWindow | Phase::KeepingPane | Phase::StartingCapture
            | Phase::Respawning | Phase::FindingPid | Phase::CheckingPane
            | Phase::ClosingWindow { .. } => matches!(event, Event::Tmux { .. } | Event::Failed),
            Phase::CheckingSignal => match event {
                Event::Signal(n) => *n <= i32::MAX - 128,
                _ => false,
            },
            Phase::Exited | Phase::Failed => false,
        }
    }

    fn set_phase(&mut self, p: Phase)
        ensures
            final(self)@ == with_phase(old(self)@, p),
    {
        self.phase = p;
    }

    fn tmux_failure(argv: Vec<String>, event: &Event) -> (failure: Failure)
        ensures
            failure@ == tmux_step_failure(words(argv@), event@),
    {
        match event {
            Event::Tmux { stderr, .. } => Failure::Tmux {
                message: tmux_failure_message(&argv, stderr.as_slice()),
            },
            _ => Failure::Io,
        }
    }

    fn fail_tmux_step(&mut self, argv: Vec<String>, event: &Event) -> (action: Action)
        ensures
            final(self)@ == with_phase(old(self)@, Phase::Failed),
            action@ == (ActionView::Fail { failure: tmux_step_failure(words(argv@), event@) }),
    {
        self.set_phase(Phase::Failed);
        Action::Fail { failure: Self::tmux_failure(argv, event) }
    }

    fn abandon_started(&mut self, failure: Failure) -> (action: Action)
        ensures
            (final(self)@, action@) == abandon_started(old(self)@, failure@),
    {
        self.pending = Some(failure);
        self.stop_container(0)
    }

    fn abandon(&mut self, failure: Failure) -> (action: Action)
        ensures
            (final(self)@, action@) == abandon(old(self)@, failure@),
    {
        self.pending = Some(failure);
        self.close_window(0)
    }

    fn finish(&mut self, code: i32) -> (action: Action)
        ensures
            (final(self)@, action@) == finish(old(self)@, code),
    {
        match self.pending.take() {
            Some(f) => {
                self.set_phase(Phase::Failed);
                Action::Fail { failure: f }
            },
            None => {
                self.set_phase(Phase::Exited);
                Action::Exit { code }
            },
        }
    }

    /// Whether a setup step failed and the run is closing the window before
    /// it fails.
    pub fn is_failing(&self) -> (b: bool)
        ensures
            b == self@.pending is Some,
    {
        self.pending.is_some()
    }

    fn fail_io(&mut self) -> (action: Action)
        ensures
            final(self)@ == with_phase(old(self)@, Phase::Failed),
            action@ == (ActionView::Fail { failure: FailureView::Io }),
    {
        self.set_phase(Phase::Failed);
        Action::Fail { failure: Failure::Io }
    }

    fn after_window(&mut self, code: i32) -> (action: Action)
        ensures
            (final(self)@, action@) == after_window(old(self)@, code),
    {
        if self.owns_log {
            self.set_phase(Phase::RemovingLog { code });
            Action::RemoveLog { path: self.log.clone() }
        } else {
            self.finish(code)
        }
    }

    fn close_window(&mut self, code: i32) -> (action: Action)
        ensures
            (final(self)@, action@) == close_window(old(self)@, code),
    {
        self.set_phase(Phase::ClosingWindow { code });
        Action::Tmux { argv: kill_window_argv(self.pane_id.as_str()) }
    }

    fn stop_container(&mut self, code: i32) -> (action: Action)
        ensures
            (final(self)@, action@) == stop_container(old(self)@, code),
    {
        match &self.docker_name {
            Some(name) => {
                let argv = docker_stop_argv(name.as_str());
                self.set_phase(Phase::StoppingContainer { code });
                Action::Docker { argv }
            },
            None => self.close_window(code),
        }
    }

    fn begin_teardown(&mut self, code: i32, forward: bool) -> (action: Action)
        ensures
            (final(self)@, action@) == begin_teardown(old(self)@, code, forward),
    {
        if forward {
            match self.pane_pid {
                Some(pid) => {
                    self.set_phase(Phase::Signalling { code });
                    Action::Terminate { pid }
                },
                None => {
                    self.set_phase(Phase::Pausing { code });
                    Action::Sleep { millis: TERM_GRACE_MS }
                },
            }
        } else {
            self.stop_container(code)
        }
    }

    /// One step of the run: given what came of the last action, move on and
    /// give the next action.
    pub fn step(&mut self, event: Event) -> (action: Action)
        requires
            accepts(old(self)@.phase, event@),
        ensures
            (final(self)@, action@) == transition(old(self)@, event@),
    {
        match self.phase {
            Phase::Start => {
                match event {
                    Event::Begin { in_tmux } => {
                        if in_tmux {
                            self.set_phase(Phase::CreatingLog);
                            Action::CreateLog { path: self.log.clone() }
                        } else {
                            self.set_phase(Phase::Replacing);
                            Action::ExecScript { script: self.script.clone() }
                        }
                    },
                    _ => self.fail_io(),
                }
            },
            Phase::Replacing => self.fail_io(),
            Phase::CreatingLog => {
                if matches!(event, Event::Done) {
                    self.set_phase(Phase::OpeningWindow);
                    Action::Tmux { argv: new_window_argv(self.title.as_str()) }
                } else {
                    self.fail_io()
                }
            },
            Phase::OpeningWindow => {
                let ok = match &event {
                    Event::Tmux { success, .. } => *success,
                    _ => false,
                };
                if ok {
                    let id = match &event {
                        Event::Tmux { stdout, .. } => {
                            let out = text_from_bytes(stdout.as_slice());
                            parse_pane_id(out.as_str())
                        },
                        _ => None,
                    };
                    match id {
                        Some(id) => {
                            let argv = set_remain_on_exit_argv(id.as_str());
                            self.pane_id = id;
                            self.set_phase(Phase::KeepingPane);
                            Action::Tmux { argv }
                        },
                        None => {
                            self.set_phase(Phase::Failed);
                            Action::Fail { failure: Failure::NoPaneId }
                        },
                    }
                } else {
                    let argv = new_window_argv(self.title.as_str());
                    self.fail_tmux_step(argv, &event)
                }
            },
            Phase::KeepingPane => {
                self.set_phase(Phase::StartingCapture);
                Action::Tmux { argv: pipe_pane_argv(self.pane_id.as_str(), self.log.as_str()) }
            },
            Phase::StartingCapture => {
                if matches!(event, Event::Tmux { success: true, .. }) {
                    self.set_phase(Phase::Respawning);
                    Action::Tmux {
                        argv: respawn_pane_argv(self.pane_id.as_str(), self.script.as_str()),
                    }
                } else {
                    let argv = pipe_pane_argv(self.pane_id.as_str(), self.log.as_str());
                    let failure = Self::tmux_failure(argv, &event);
                    self.abandon(failure)
                }
            },
            Phase::Respawning => {
                if matches!(event, Event::Tmux { success: true, .. }) {
                    self.set_phase(Phase::FindingPid);
                    Action::Tmux { argv: display_pane_pid_argv(self.pane_id.as_str()) }
                } else {
                    let argv = respawn_pane_argv(self.pane_id.as_str(), self.script.as_str());
                    let failure = Self::tmux_failure(argv, &event);
                    self.abandon(failure)
                }
            },
            Phase::FindingPid => {
                let pid = match &event {
                    Event::Tmux { success, stdout, .. } => {
                        if *success {
                            let out = text_from_bytes(stdout.as_slice());
                            parse_pid(out.as_str())
                        } else {
                            None
                        }
                    },
                    _ => None,
                };
                self.pane_pid = pid;
                self.set_phase(Phase::Arming);
                Action::Arm { path: self.log.clone() }
            },
            Phase::Arming => {
                if matches!(event, Event::Done) {
                    self.set_phase(Phase::Relaying);
                    Action::Pump
                } else {
                    self.abandon_started(Failure::Io)
                }
            },
            Phase::Relaying => {
                self.set_phase(Phase::CheckingSignal);
                Action::PollSignal
            },
            Phase::CheckingSignal => {
                match event {
                    Event::Signal(n) => {
                        if n != 0 {
                            self.set_phase(Phase::Settling { code: 128 + n, forward: true });
                            Action::Sleep { millis: FLUSH_GRACE_MS }
                        } else {
                            self.set_phase(Phase::CheckingPane);
                            Action::Tmux { argv: display_status_argv(self.pane_id.as_str()) }
                        }
                    },
                    _ => self.fail_io(),
                }
            },
            Phase::CheckingPane => {
                match status_from_reply(&event) {
                    Some(PaneStatus::Alive) => {
                        self.set_phase(Phase::Idle);
                        Action::Sleep { millis: POLL_INTERVAL_MS }
                    },
                    Some(PaneStatus::Dead(status)) => {
                        let code = match status {
                            Some(c) => c,
                            None => 0,
                        };
                        self.set_phase(Phase::Settling { code, forward: false });
                        Action::Sleep { millis: FLUSH_GRACE_MS }
                    },
                    None => self.begin_teardown(0, false),
                }
            },
            Phase::Idle => {
                self.set_phase(Phase::Relaying);
                Action::Pump
            },
            Phase::Settling { code, forward } => {
                self.set_phase(Phase::Draining { code, forward });
                Action::Pump
            },
            Phase::Draining { code, forward } => self.begin_teardown(code, forward),
            Phase::Signalling { code } => {
                self.set_phase(Phase::Pausing { code });
                Action::Sleep { millis: TERM_GRACE_MS }
            },
            Phase::Pausing { code } => self.stop_container(code),
            Phase::StoppingContainer { code } => self.close_window(code),
            Phase::ClosingWindow { code } => self.after_window(code),
            Phase::RemovingLog { code } => self.finish(code),
            Phase::Exited | Phase::Failed => Action::Fail { failure: Failure::Io },
        }
    }
}

// ---------------------------------------------------------------------------
// Runs and their laws
// ---------------------------------------------------------------------------

/// The run `s` after answering the events `evs` in turn, and the actions it
/// gave on the way.
pub open spec fn run(s: SupervisorView, evs: Seq<EventView>) -> (SupervisorView, Seq<ActionView>)
    decreases evs.len(),
{
    if evs.len() == 0 {
        (s, seq![])
    } else {
        let (t, a) = transition(s, evs[0]);
        let (u, acts) = run(t, evs.drop_first());
        (u, seq![a] + acts)
    }
}

/// The run `s` after answering the first `i` events of `evs`.
pub open spec fn state_at(s: SupervisorView, evs: Seq<EventView>, i: int) -> SupervisorView
    decreases i,
{
    if i <= 0 || evs.len() == 0 {
        s
    } else {
        state_at(transition(s, evs[0]).0, evs.drop_first(), i - 1)
    }
}

/// The parts of a run that no step changes.
pub open spec fn same_setup(s: SupervisorView, t: SupervisorView) -> bool {
    &&& t.script == s.script
    &&& t.title == s.title
    &&& t.log == s.log
    &&& t.owns_log == s.owns_log
    &&& t.docker_name == s.docker_name
}

/// A step changes neither the script, the title, the log, whether the log is
/// owned, nor the container.
pub proof fn lemma_step_keeps_setup(s: SupervisorView, e: EventView)
    ensures
        same_setup(s, transition(s, e).0),
{
}

/// The `i`-th action of a run is the one its `i`-th state gives for the
/// `i`-th event, and the next state is the one that step leads to.
pub proof fn lemma_run_index(s: SupervisorView, evs: Seq<EventView>, i: int)
    requires
        0 <= i < evs.len(),
    ensures
        run(s, evs).1.len() == evs.len(),
        run(s, evs).1[i] == transition(state_at(s, evs, i), evs[i]).1,
        state_at(s, evs, i + 1) == transition(state_at(s, evs, i), evs[i]).0,
        same_setup(s, state_at(s, evs, i)),
    decreases i,
{
    let t = transition(s, evs[0]).0;
    let rest = evs.drop_first();
    lemma_step_keeps_setup(s, evs[0]);
    if i == 0 {
        lemma_run_len(t, rest);
    } else {
        lemma_run_index(t, rest, i - 1);
        assert(rest[i - 1] == evs[i]);
    }
}

/// A run gives one action per event.
pub proof fn lemma_run_len(s: SupervisorView, evs: Seq<EventView>)
    ensures
        run(s, evs).1.len() == evs.len(),
    decreases evs.len(),
{
    if evs.len() > 0 {
        lemma_run_len(transition(s, evs[0]).0, evs.drop_first());
    }
}

/// The only step that replaces the placeholder by the command is the one
/// answering a successful start of capture.
pub proof fn lemma_respawn_only_after_capture(s: SupervisorView, e: EventView)
    requires
        transition(s, e).1 matches ActionView::Tmux { argv } && argv.len() > 0 && argv[0]
            == "respawn-pane"@,
    ensures
        s.phase == Phase::StartingCapture,
        tmux_succeeded(e),
        transition(s, e).1 == (ActionView::Tmux { argv: respawn_pane_words(s.pane_id, s.script) }),
{
    reveal_strlit("respawn-pane");
    reveal_strlit("new-window");
    reveal_strlit("set-option");
    reveal_strlit("pipe-pane");
    reveal_strlit("display-message");
    reveal_strlit("kill-window");
    let r = "respawn-pane"@;
    assert(r.len() == 12);
    assert("new-window"@.len() == 10);
    assert("set-option"@.len() == 10);
    assert("pipe-pane"@.len() == 9);
    assert("display-message"@.len() == 15);
    assert("kill-window"@.len() == 11);
    assert(new_window_words(s.title)[0] == "new-window"@);
    assert(set_remain_on_exit_words(s.pane_id)[0] == "set-option"@);
    assert(pipe_pane_words(s.pane_id, s.log)[0] == "pipe-pane"@);
    assert(display_pane_pid_words(s.pane_id)[0] == "display-message"@);
    assert(display_status_words(s.pane_id)[0] == "display-message"@);
    assert(kill_window_words(s.pane_id)[0] == "kill-window"@);
    assert(r != "new-window"@ && r != "set-option"@ && r != "pipe-pane"@);
    assert(r != "display-message"@ && r != "kill-window"@);
}

/// The only step into the start of capture is the one that gives the
/// `pipe-pane` command of the run's pane and log.
pub proof fn lemma_capture_entered_by_pipe(s: SupervisorView, e: EventView)
    requires
        transition(s, e).0.phase == Phase::StartingCapture,
    ensures
        transition(s, e).1 == (ActionView::Tmux { argv: pipe_pane_words(s.pane_id, s.log) }),
        transition(s, e).0.pane_id == s.pane_id,
{
}

/// Law: no output of the command is lost. In every run from the start,
/// the command is swapped in (`respawn-pane`) only by the step right after
/// capture of the same pane into the run's log (`pipe-pane`) was started,
/// and only once that capture reported success.
pub proof fn lemma_capture_precedes_command(s: SupervisorView, evs: Seq<EventView>, i: int)
    requires
        s.phase == Phase::Start,
        0 <= i < evs.len(),
        run(s, evs).1[i] matches ActionView::Tmux { argv } && argv.len() > 0 && argv[0]
            == "respawn-pane"@,
    ensures
        i > 0,
        run(s, evs).1[i - 1] == (ActionView::Tmux {
            argv: pipe_pane_words(state_at(s, evs, i).pane_id, s.log),
        }),
        tmux_succeeded(evs[i]),
        run(s, evs).1[i] == (ActionView::Tmux {
            argv: respawn_pane_words(state_at(s, evs, i).pane_id, s.script),
        }),
{
    lemma_run_index(s, evs, i);
    let si = state_at(s, evs, i);
    lemma_respawn_only_after_capture(si, evs[i]);
    if i == 0 {
        assert(si == s);
    } else {
        lemma_run_index(s, evs, i - 1);
        let sp = state_at(s, evs, i - 1);
        lemma_capture_entered_by_pipe(sp, evs[i - 1]);
    }
}

/// After the run decided to stop with `code`, the final relay: a grace
/// sleep and a last relay of the log, if `drain`.
pub open spec fn drain_actions(drain: bool) -> Seq<ActionView> {
    if drain {
        seq![ActionView::Sleep { millis: FLUSH_GRACE_MS }, ActionView::Pump]
    } else {
        seq![]
    }
}

/// Then, if a signal is forwarded: SIGTERM to the pane's process (when its
/// id is known) and a pause.
pub open spec fn forward_actions(s: SupervisorView, forward: bool) -> Seq<ActionView> {
    if forward {
        match s.pane_pid {
            Some(pid) => seq![
                ActionView::Terminate { pid },
                ActionView::Sleep { millis: TERM_GRACE_MS },
            ],
            None => seq![ActionView::Sleep { millis: TERM_GRACE_MS }],
        }
    } else {
        seq![]
    }
}

/// Then `docker stop` of the container, if there is one.
pub open spec fn container_actions(s: SupervisorView) -> Seq<ActionView> {
    match s.docker_name {
        Some(name) => seq![ActionView::Docker { argv: docker_stop_words(name) }],
        None => seq![],
    }
}

/// Then the window is killed, the log removed if the run created it, and
/// the run ends: with the failure it carries, if any, else with `code`.
pub open spec fn closing_actions(s: SupervisorView, code: i32) -> Seq<ActionView> {
    seq![ActionView::Tmux { argv: kill_window_words(s.pane_id) }] + (if s.owns_log {
        seq![ActionView::RemoveLog { path: s.log }]
    } else {
        seq![]
    }) + seq![finish(s, code).1]
}

/// Everything a run does once it has decided to stop with `code`.
pub open spec fn stop_actions(s: SupervisorView, code: i32, forward: bool, drain: bool) -> Seq<
    ActionView,
> {
    drain_actions(drain) + forward_actions(s, forward) + container_actions(s) + closing_actions(
        s,
        code,
    )
}

/// A run that answers no event stays where it is.
proof fn lemma_run_empty(s: SupervisorView, evs: Seq<EventView>)
    requires
        evs.len() == 0,
    ensures
        run(s, evs) == (s, Seq::<ActionView>::empty()),
{
}

/// The removal of the log, then the exit, whatever the events.
proof fn lemma_run_removing(s: SupervisorView, code: i32, evs: Seq<EventView>)
    requires
        s.phase == (Phase::RemovingLog { code }),
        evs.len() == 1,
    ensures
        run(s, evs).1 == seq![finish(s, code).1],
        run(s, evs).0.phase == finish(s, code).0.phase,
{
    lemma_run_cons(s, evs);
    lemma_run_empty(transition(s, evs[0]).0, evs.drop_first());
    assert(seq![finish(s, code).1] + Seq::<ActionView>::empty() =~= seq![finish(s, code).1]);
}

/// After the window is killed, whatever the events.
proof fn lemma_run_closing(s: SupervisorView, code: i32, evs: Seq<EventView>)
    requires
        s.phase == (Phase::ClosingWindow { code }),
        evs.len() == closing_actions(s, code).len() - 1,
    ensures
        run(s, evs).1 == closing_actions(s, code).drop_first(),
        run(s, evs).0.phase == finish(s, code).0.phase,
{
    let t = transition(s, evs[0]).0;
    lemma_run_cons(s, evs);
    if s.owns_log {
        lemma_run_removing(t, code, evs.drop_first());
    } else {
        lemma_run_empty(t, evs.drop_first());
    }
    assert(run(s, evs).1 =~= closing_actions(s, code).drop_first());
}

/// From the step that gives `a` and leads to `t`, onwards.
proof fn lemma_run_cons(s: SupervisorView, evs: Seq<EventView>)
    requires
        evs.len() > 0,
    ensures
        run(s, evs).1 == seq![transition(s, evs[0]).1] + run(
            transition(s, evs[0]).0,
            evs.drop_first(),
        ).1,
        run(s, evs).0 == run(transition(s, evs[0]).0, evs.drop_first()).0,
{
}

/// Killing the window, then the rest, from a step that leads there.
proof fn lemma_run_close_window(s: SupervisorView, code: i32, evs: Seq<EventView>)
    requires
        evs.len() == closing_actions(s, code).len(),
    ensures
        ({
            let (t, a) = close_window(s, code);
            (seq![a] + run(t, evs.drop_first()).1 == closing_actions(s, code)) && run(
                t,
                evs.drop_first(),
            ).0.phase == finish(s, code).0.phase
        }),
{
    let (t, a) = close_window(s, code);
    lemma_run_closing(t, code, evs.drop_first());
    assert(closing_actions(t, code) == closing_actions(s, code));
    assert(seq![a] + closing_actions(s, code).drop_first() =~= closing_actions(s, code));
}

/// Stopping the container (if any) and closing, from a step that leads
/// there.
proof fn lemma_run_stop_container(s: SupervisorView, code: i32, evs: Seq<EventView>)
    requires
        evs.len() == container_actions(s).len() + closing_actions(s, code).len(),
    ensures
        ({
            let (t, a) = stop_container(s, code);
            (seq![a] + run(t, evs.drop_first()).1 == container_actions(s) + closing_actions(
                s,
                code,
            )) && run(t, evs.drop_first()).0.phase == finish(s, code).0.phase
        }),
{
    match s.docker_name {
        Some(name) => {
            let (t, a) = stop_container(s, code);
            let rest = evs.drop_first();
            lemma_run_cons(t, rest);
            lemma_run_close_window(t, code, rest);
            assert(closing_actions(t, code) == closing_actions(s, code));
            assert(seq![a] + closing_actions(s, code) =~= container_actions(s) + closing_actions(
                s,
                code,
            ));
        },
        None => {
            lemma_run_close_window(s, code, evs);
            assert(container_actions(s) + closing_actions(s, code) =~= closing_actions(s, code));
        },
    }
}

/// The teardown, from a step that begins it.
proof fn lemma_run_teardown(s: SupervisorView, code: i32, forward: bool, evs: Seq<EventView>)
    requires
        evs.len() == forward_actions(s, forward).len() + container_actions(s).len()
            + closing_actions(s, code).len(),
    ensures
        ({
            let (t, a) = begin_teardown(s, code, forward);
            (seq![a] + run(t, evs.drop_first()).1 == forward_actions(s, forward)
                + container_actions(s) + closing_actions(s, code)) && run(
                t,
                evs.drop_first(),
            ).0.phase == finish(s, code).0.phase
        }),
{
    let (t, a) = begin_teardown(s, code, forward);
    let rest = evs.drop_first();
    if forward {
        match s.pane_pid {
            Some(pid) => {
                lemma_run_cons(t, rest);
                let (u, b) = transition(t, rest[0]);
                lemma_run_cons(u, rest.drop_first());
                let (v, c) = transition(u, rest.drop_first()[0]);
                lemma_run_stop_container(u, code, rest.drop_first());
                assert(container_actions(u) == container_actions(s));
                assert(closing_actions(u, code) == closing_actions(s, code));
                assert(seq![a] + (seq![b] + (container_actions(s) + closing_actions(s, code)))
                    =~= forward_actions(s, forward) + container_actions(s) + closing_actions(
                    s,
                    code,
                ));
            },
            None => {
                lemma_run_stop_container(t, code, rest);
                assert(container_actions(t) == container_actions(s));
                assert(closing_actions(t, code) == closing_actions(s, code));
                assert(seq![a] + (container_actions(s) + closing_actions(s, code))
                    =~= forward_actions(s, forward) + container_actions(s) + closing_actions(
                    s,
                    code,
                ));
            },
        }
    } else {
        lemma_run_stop_container(s, code, evs);
        assert(forward_actions(s, forward) + container_actions(s) =~= container_actions(s));
    }
}

/// Law: a forwarded signal stops the run cleanly. When the signal flag
/// shows signal `n`, the run waits for the capture to flush, relays the
/// last output, sends SIGTERM to the command (when its process id is known)
/// and pauses, stops the container (if any), kills the window, removes the
/// log if it created it, and exits with `128 + n`, whatever the outcome of
/// each of these steps.
pub proof fn lemma_signal_stops_run(s: SupervisorView, n: i32, evs: Seq<EventView>)
    requires
        s.phase == Phase::CheckingSignal,
        s.pending is None,
        evs.len() == stop_actions(s, (128 + n) as i32, true, true).len(),
        evs[0] == EventView::Signal(n),
        n != 0,
        n <= i32::MAX - 128,
    ensures
        run(s, evs).1 == stop_actions(s, (128 + n) as i32, true, true),
        run(s, evs).0.phase == Phase::Exited,
{
    let code = (128 + n) as i32;
    lemma_run_cons(s, evs);
    let (t, a) = transition(s, evs[0]);
    let r1 = evs.drop_first();
    lemma_run_cons(t, r1);
    let (u, b) = transition(t, r1[0]);
    let r2 = r1.drop_first();
    lemma_run_cons(u, r2);
    assert(u.phase == (Phase::Draining { code, forward: true }));
    lemma_run_teardown(u, code, true, r2);
    assert(forward_actions(u, true) == forward_actions(s, true));
    assert(container_actions(u) == container_actions(s));
    assert(closing_actions(u, code) == closing_actions(s, code));
    assert(seq![a] + (seq![b] + (forward_actions(s, true) + container_actions(s)
        + closing_actions(s, code))) =~= stop_actions(s, code, true, true));
}

/// Law: the exit status of the command is the exit code of the run. When
/// the pane reports that the command died with `status`, the run waits for
/// the capture to flush, relays the last output, stops the container (if
/// any), kills the window, removes the log if it created it, and exits with
/// `status` (0 when tmux gave none), whatever the outcome of these steps.
pub proof fn lemma_death_stops_run(
    s: SupervisorView,
    status: Option<i32>,
    evs: Seq<EventView>,
)
    requires
        s.phase == Phase::CheckingPane,
        s.pending is None,
        status_of_reply(evs[0]) == Some(PaneStatus::Dead(status)),
        evs.len() == stop_actions(
            s,
            match status {
                Some(c) => c,
                None => 0,
            },
            false,
            true,
        ).len(),
    ensures
        run(s, evs).1 == stop_actions(
            s,
            match status {
                Some(c) => c,
                None => 0,
            },
            false,
            true,
        ),
        run(s, evs).0.phase == Phase::Exited,
{
    let code = match status {
        Some(c) => c,
        None => 0,
    };
    lemma_run_cons(s, evs);
    let (t, a) = transition(s, evs[0]);
    let r1 = evs.drop_first();
    lemma_run_cons(t, r1);
    let (u, b) = transition(t, r1[0]);
    let r2 = r1.drop_first();
    lemma_run_cons(u, r2);
    assert(u.phase == (Phase::Draining { code, forward: false }));
    lemma_run_teardown(u, code, false, r2);
    assert(container_actions(u) == container_actions(s));
    assert(closing_actions(u, code) == closing_actions(s, code));
    assert(seq![a] + (seq![b] + (forward_actions(s, false) + container_actions(s)
        + closing_actions(s, code))) =~= stop_actions(s, code, false, true));
}

/// Law: a window closed elsewhere ends the run at once. When the pane can
/// no longer be queried, the run stops the container (if any), kills the
/// window, removes the log if it created it, and exits with 0.
pub proof fn lemma_vanished_pane_stops_run(s: SupervisorView, evs: Seq<EventView>)
    requires
        s.phase == Phase::CheckingPane,
        s.pending is None,
        status_of_reply(evs[0]) is None,
        evs.len() == stop_actions(s, 0, false, false).len(),
    ensures
        run(s, evs).1 == stop_actions(s, 0, false, false),
        run(s, evs).0.phase == Phase::Exited,
{
    lemma_run_cons(s, evs);
    lemma_run_teardown(s, 0, false, evs);
    assert(drain_actions(false) + forward_actions(s, false) =~= Seq::<ActionView>::empty());
    assert(stop_actions(s, 0, false, false) =~= forward_actions(s, false) + container_actions(s)
        + closing_actions(s, 0));
}

/// The tmux command a run is waiting on in one of the setup steps that
/// need tmux to succeed: `new-window` (whose output is read), `pipe-pane`
/// and `respawn-pane` (whose output is not).
pub open spec fn awaited_setup_words(s: SupervisorView) -> Seq<Seq<char>> {
    match s.phase {
        Phase::OpeningWindow => new_window_words(s.title),
        Phase::StartingCapture => pipe_pane_words(s.pane_id, s.log),
        Phase::Respawning => respawn_pane_words(s.pane_id, s.script),
        _ => seq![],
    }
}

/// The failure a step reports: the one it fails with at once, or the one
/// it carries while the window is closed.
pub open spec fn reported_failure(s: SupervisorView, e: EventView) -> Option<FailureView> {
    match transition(s, e).1 {
        ActionView::Fail { failure } => Some(failure),
        _ => transition(s, e).0.pending,
    }
}

/// Law: the tmux setup steps fail alike, whether the run reads tmux's
/// output (`new-window`) or only needs it to succeed (`pipe-pane`,
/// `respawn-pane`): with the I/O error when tmux could not run, and with
/// `tmux <command> failed: <stderr>` when it exited unsuccessfully.
pub proof fn lemma_tmux_steps_fail_alike(s: SupervisorView, e: EventView)
    requires
        s.phase == Phase::OpeningWindow || s.phase == Phase::StartingCapture || s.phase
            == Phase::Respawning,
        !tmux_succeeded(e),
    ensures
        reported_failure(s, e) == Some(tmux_step_failure(awaited_setup_words(s), e)),
{
}

/// A setup step after the window was made failed: capture did not start,
/// the command was not swapped in, or arming failed.
pub open spec fn setup_step_failed(s: SupervisorView, e: EventView) -> bool {
    match s.phase {
        Phase::StartingCapture | Phase::Respawning => !tmux_succeeded(e),
        Phase::Arming => !(e is Done),
        _ => false,
    }
}

/// The failure such a step ends the run with.
pub open spec fn setup_failure(s: SupervisorView, e: EventView) -> FailureView {
    match s.phase {
        Phase::StartingCapture => tmux_step_failure(pipe_pane_words(s.pane_id, s.log), e),
        Phase::Respawning => tmux_step_failure(respawn_pane_words(s.pane_id, s.script), e),
        _ => FailureView::Io,
    }
}

/// What a run does after a failed setup step: once the command was
/// started (arming failed), `docker stop` of the container if one was
/// named; then the window is killed, the log removed if the run created
/// it, and the run fails with that step's failure.
pub open spec fn setup_cleanup(s: SupervisorView, e: EventView) -> Seq<ActionView> {
    (if s.phase == Phase::Arming {
        container_actions(s)
    } else {
        seq![]
    }) + seq![ActionView::Tmux { argv: kill_window_words(s.pane_id) }] + (if s.owns_log {
        seq![ActionView::RemoveLog { path: s.log }]
    } else {
        seq![]
    }) + seq![ActionView::Fail { failure: setup_failure(s, e) }]
}

/// Law: no window outlives a failed setup. When a setup step fails after
/// the window was made, the run stops the container if the command had
/// been started, kills the window, removes the log if it created it, and
/// only then fails with that step's failure, whatever the outcome of the
/// cleanup steps.
pub proof fn lemma_setup_failure_closes_window(s: SupervisorView, evs: Seq<EventView>)
    requires
        s.pending is None,
        evs.len() > 0,
        setup_step_failed(s, evs[0]),
        evs.len() == setup_cleanup(s, evs[0]).len(),
    ensures
        run(s, evs).1 == setup_cleanup(s, evs[0]),
        run(s, evs).0.phase == Phase::Failed,
{
    let f = setup_failure(s, evs[0]);
    let a = SupervisorView { pending: Some(f), ..s };
    lemma_run_cons(s, evs);
    let closing = seq![ActionView::Tmux { argv: kill_window_words(s.pane_id) }] + (if s.owns_log {
        seq![ActionView::RemoveLog { path: s.log }]
    } else {
        seq![]
    }) + seq![ActionView::Fail { failure: f }];
    assert(closing_actions(a, 0) =~= closing);
    assert(container_actions(a) == container_actions(s));
    if s.phase == Phase::Arming {
        assert(transition(s, evs[0]) == stop_container(a, 0));
        lemma_run_stop_container(a, 0, evs);
        assert(setup_cleanup(s, evs[0]) =~= container_actions(s) + closing);
    } else {
        assert(transition(s, evs[0]) == close_window(a, 0));
        lemma_run_close_window(a, 0, evs);
        assert(setup_cleanup(s, evs[0]) =~= closing);
    }
}

/// Law: stopping always cleans up. The actions that end a run kill its
/// window and end with the exit code; they remove the log exactly when the
/// run created it, stop a container exactly when one was named, and send
/// SIGTERM exactly when a signal is forwarded and the command's process id
/// is known.
pub proof fn lemma_stop_cleans_up(s: SupervisorView, code: i32, forward: bool, drain: bool)
    requires
        s.pending is None,
    ensures
        stop_actions(s, code, forward, drain).contains(
            ActionView::Tmux { argv: kill_window_words(s.pane_id) },
        ),
        stop_actions(s, code, forward, drain).last() == (ActionView::Exit { code }),
        stop_actions(s, code, forward, drain).contains(ActionView::RemoveLog { path: s.log })
            <==> s.owns_log,
        (exists|name: Seq<char>|
            stop_actions(s, code, forward, drain).contains(
                ActionView::Docker { argv: docker_stop_words(name) },
            )) <==> s.docker_name is Some,
        (exists|pid: i32|
            stop_actions(s, code, forward, drain).contains(ActionView::Terminate { pid }))
            <==> (forward && s.pane_pid is Some),
{
    let all = stop_actions(s, code, forward, drain);
    let d = drain_actions(drain);
    let f = forward_actions(s, forward);
    let c = container_actions(s);
    let k = closing_actions(s, code);
    assert(all =~= d + f + c + k);
    let off: int = (d.len() + f.len() + c.len()) as int;
    assert(all[off] == k[0]);
    assert(all.last() == k.last());
    if s.owns_log {
        assert(all[off + 1] == k[1]);
    }
    if forward && s.pane_pid is Some {
        assert(all[d.len() as int] == f[0]);
        assert(all.contains(ActionView::Terminate { pid: s.pane_pid->0 }));
    }
    if s.docker_name is Some {
        assert(all[(d.len() + f.len()) as int] == c[0]);
    }
    assert forall|i: int| 0 <= i < all.len() implies !(all[i] is RemoveLog) || s.owns_log by {
        if i >= off {
            assert(all[i] == k[i - off]);
        } else if i >= d.len() + f.len() {
            assert(all[i] == c[i - d.len() - f.len()]);
        } else if i >= d.len() {
            assert(all[i] == f[i - d.len()]);
        } else {
            assert(all[i] == d[i]);
        }
    }
    assert forall|i: int| 0 <= i < all.len() implies !(all[i] is Docker) || s.docker_name is Some by {
        if i >= off {
            assert(all[i] == k[i - off]);
        } else if i >= d.len() + f.len() {
            assert(all[i] == c[i - d.len() - f.len()]);
        } else if i >= d.len() {
            assert(all[i] == f[i - d.len()]);
        } else {
            assert(all[i] == d[i]);
        }
    }
    assert forall|i: int| 0 <= i < all.len() implies !(all[i] is Terminate) || (forward
        && s.pane_pid is Some) by {
        if i >= off {
            assert(all[i] == k[i - off]);
        } else if i >= d.len() + f.len() {
            assert(all[i] == c[i - d.len() - f.len()]);
        } else if i >= d.len() {
            assert(all[i] == f[i - d.len()]);
        } else {
            assert(all[i] == d[i]);
        }
    }
    if exists|pid: i32| all.contains(ActionView::Terminate { pid }) {
        let pid = choose|pid: i32| all.contains(ActionView::Terminate { pid });
        let i = choose|i: int| 0 <= i < all.len() && all[i] == ActionView::Terminate { pid };
        assert(all[i] is Terminate);
    }
}

} // verus!
