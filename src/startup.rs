use vstd::prelude::*;

use crate::plugin::{Plugin, PluginSet, SetupError, register_result};

verus! {

/// Logical name of the bundled backend executable.
pub const SIDECAR_NAME: &'static str = "soul-sense-backend";

/// The custom URL scheme that the deep-link handler is bound to.
pub const DEEP_LINK_SCHEME: &'static str = "soulsense";

/// Severity threshold of the logging plugin.
#[derive(PartialEq, Eq, Structural, Clone, Copy, Debug)]
pub enum LogLevel {
    Error,
    Warn,
    Info,
    Debug,
    Trace,
}

/// The logging plugin records informational messages and above.
pub const LOG_LEVEL: LogLevel = LogLevel::Info;

/// What a start-up includes.
#[derive(PartialEq, Eq, Structural, Clone, Copy, Debug)]
pub struct StartupConfig {
    /// A debug build: the logging plugin is registered.
    pub debug: bool,
    /// Crash reporting is initialised first, on a best-effort basis.
    pub crash_reporting: bool,
    /// The auto-update plugin is registered.
    pub auto_update: bool,
}

/// One start-up step that the embedding program performs.
#[derive(PartialEq, Eq, Structural, Clone, Copy, Debug)]
pub enum Step {
    /// Initialise crash reporting; its failure is not fatal.
    InitCrashReporting,
    /// Register a plugin with the host.
    Register(Plugin),
    /// Start the host, which then runs the setup steps.
    StartHost,
    /// Resolve the bundled sidecar by name and spawn it.
    SpawnSidecar,
    /// Hand control to the host's run loop until the application quits.
    EnterRunLoop,
}

/// How the step that was asked for went.
#[derive(PartialEq, Eq, Structural, Clone, Copy, Debug)]
pub enum Outcome {
    /// It succeeded; for the run loop, the application quit normally.
    Done,
    /// It failed.
    Failed,
    /// What it needed was not found (the sidecar is not in the bundle).
    Missing,
}

/// How the start-up ended.
#[derive(PartialEq, Eq, Structural, Clone, Copy, Debug)]
pub enum ExitStatus {
    /// The run loop ended normally.
    Normal,
    /// A plugin registration stopped the setup phase.
    SetupFailed(SetupError),
    /// The sidecar executable is missing from the bundle.
    SidecarMissing,
    /// The sidecar was found but could not be spawned.
    SidecarSpawnFailed,
    /// The host or its run loop failed.
    HostFailed,
}

/// What the embedding program does next.
#[derive(PartialEq, Eq, Structural, Clone, Copy, Debug)]
pub enum Action {
    /// Perform the step and report its outcome.
    Perform(Step),
    /// Stop the process with this status.
    Exit(ExitStatus),
}

/// The process exit code for a status: zero for a normal end only.
pub open spec fn code_of(s: ExitStatus) -> i32 {
    if s is Normal {
        0
    } else {
        1
    }
}

impl ExitStatus {
    pub fn exit_code(&self) -> (r: i32)
        ensures
            r == code_of(*self),
    {
        match self {
            ExitStatus::Normal => 0,
            _ => 1,
        }
    }
}

impl StartupConfig {
    /// The full configuration, with crash reporting and auto-update.
    pub fn standard(debug: bool) -> (r: StartupConfig)
        ensures
            r == (StartupConfig { debug, crash_reporting: true, auto_update: true }),
    {
        StartupConfig { debug, crash_reporting: true, auto_update: true }
    }

    /// Only the required plugins.
    pub fn minimal(debug: bool) -> (r: StartupConfig)
        ensures
            r == (StartupConfig { debug, crash_reporting: false, auto_update: false }),
    {
        StartupConfig { debug, crash_reporting: false, auto_update: false }
    }
}

/// The start-up steps of a configuration, in order.
pub open spec fn plan(c: StartupConfig) -> Seq<Step> {
    let telemetry = if c.crash_reporting {
        seq![Step::InitCrashReporting]
    } else {
        Seq::empty()
    };
    let builder = if c.auto_update {
        seq![
            Step::Register(Plugin::Shell),
            Step::Register(Plugin::Updater),
            Step::Register(Plugin::DeepLink),
            Step::StartHost,
        ]
    } else {
        seq![Step::Register(Plugin::Shell), Step::Register(Plugin::DeepLink), Step::StartHost]
    };
    let setup = if c.debug {
        seq![
            Step::Register(Plugin::Logging),
            Step::Register(Plugin::DeepLinkHandler),
            Step::SpawnSidecar,
            Step::EnterRunLoop,
        ]
    } else {
        seq![Step::Register(Plugin::DeepLinkHandler), Step::SpawnSidecar, Step::EnterRunLoop]
    };
    telemetry + builder + setup
}

/// Where the sidecar spawn stands in the plan.
pub open spec fn spawn_index(c: StartupConfig) -> int {
    plan(c).len() - 2
}

/// The abstract state of a start-up.
pub struct StartupModel {
    pub config: StartupConfig,
    /// Index in the plan of the step under way.
    pub next: nat,
    /// Plugins registered so far, in order.
    pub plugins: Seq<Plugin>,
    /// How many times the sidecar spawn was asked for.
    pub spawn_attempts: nat,
    /// How the start-up ended, once it has.
    pub exit: Option<ExitStatus>,
}

pub open spec fn initial(c: StartupConfig) -> StartupModel {
    StartupModel {
        config: c,
        next: 0,
        plugins: Seq::empty(),
        spawn_attempts: 0,
        exit: None,
    }
}

pub open spec fn current_step(m: StartupModel) -> Step {
    plan(m.config)[m.next as int]
}

/// The action that a state asks for.
pub open spec fn action_of(m: StartupModel) -> Action {
    match m.exit {
        Some(s) => Action::Exit(s),
        None => Action::Perform(current_step(m)),
    }
}

/// Moves on to the following step; reaching the spawn step asks for the spawn.
pub open spec fn advanced(m: StartupModel, plugins: Seq<Plugin>) -> StartupModel {
    let n = m.next + 1;
    StartupModel {
        config: m.config,
        next: n,
        plugins,
        spawn_attempts: if plan(m.config)[n as int] == Step::SpawnSidecar {
            m.spawn_attempts + 1
        } else {
            m.spawn_attempts
        },
        exit: m.exit,
    }
}

pub open spec fn stopped(m: StartupModel, s: ExitStatus) -> StartupModel {
    StartupModel {
        config: m.config,
        next: m.next,
        plugins: m.plugins,
        spawn_attempts: m.spawn_attempts,
        exit: Some(s),
    }
}

/// The state after the current step reports outcome `o`.
pub open spec fn next_state(m: StartupModel, o: Outcome) -> StartupModel {
    if m.exit is Some {
        m
    } else {
        match current_step(m) {
            Step::InitCrashReporting => advanced(m, m.plugins),
            Step::Register(p) => {
                if o is Done {
                    let (s, r) = register_result(m.plugins, p);
                    match r {
                        Ok(_) => advanced(m, s),
                        Err(e) => stopped(m, ExitStatus::SetupFailed(e)),
                    }
                } else {
                    stopped(m, ExitStatus::SetupFailed(SetupError::PluginFailed(p)))
                }
            },
            Step::StartHost => {
                if o is Done {
                    advanced(m, m.plugins)
                } else {
                    stopped(m, ExitStatus::HostFailed)
                }
            },
            Step::SpawnSidecar => match o {
                Outcome::Done => advanced(m, m.plugins),
                Outcome::Failed => stopped(m, ExitStatus::SidecarSpawnFailed),
                Outcome::Missing => stopped(m, ExitStatus::SidecarMissing),
            },
            Step::EnterRunLoop => {
                if o is Done {
                    stopped(m, ExitStatus::Normal)
                } else {
                    stopped(m, ExitStatus::HostFailed)
                }
            },
        }
    }
}

/// Deep links are delivered once their handler is registered and until the
/// start-up has ended, whatever else is under way.
pub open spec fn delivers_deep_links(m: StartupModel) -> bool {
    m.exit is None && m.plugins.contains(Plugin::DeepLinkHandler)
}

/// What every state reached from `initial` satisfies.
pub open spec fn inv(m: StartupModel) -> bool {
    let steps = plan(m.config);
    &&& m.next < steps.len()
    &&& m.plugins.no_duplicates()
    &&& forall|p: Plugin|
        m.plugins.contains(p) <==> exists|i: int| 0 <= i < m.next && steps[i] == Step::Register(p)
    &&& m.spawn_attempts == (if m.next >= spawn_index(m.config) { 1nat } else { 0nat })
    &&& m.exit == Some(ExitStatus::Normal) ==> m.next == steps.len() - 1
}

/// The layout of every plan: a run-loop step last, the spawn before it, the
/// deep-link handler before that, and in debug builds the logging plugin
/// just ahead of the handler; no step occurs twice.
pub proof fn lemma_plan_shape(c: StartupConfig)
    ensures
        ({
            let s = plan(c);
            &&& 6 <= s.len() <= 9
            &&& s.no_duplicates()
            &&& s[s.len() - 1] == Step::EnterRunLoop
            &&& s[s.len() - 2] == Step::SpawnSidecar
            &&& s[s.len() - 3] == Step::Register(Plugin::DeepLinkHandler)
            &&& c.debug ==> s[s.len() - 4] == Step::Register(Plugin::Logging)
            &&& !c.debug ==> !s.contains(Step::Register(Plugin::Logging))
        }),
{
    let s = plan(c);
    let a = Step::InitCrashReporting;
    let sh = Step::Register(Plugin::Shell);
    let up = Step::Register(Plugin::Updater);
    let dl = Step::Register(Plugin::DeepLink);
    let h = Step::StartHost;
    let lg = Step::Register(Plugin::Logging);
    let dh = Step::Register(Plugin::DeepLinkHandler);
    let sp = Step::SpawnSidecar;
    let rl = Step::EnterRunLoop;
    if c.crash_reporting {
        if c.auto_update {
            if c.debug {
                assert(s =~= seq![a, sh, up, dl, h, lg, dh, sp, rl]);
            } else {
                assert(s =~= seq![a, sh, up, dl, h, dh, sp, rl]);
            }
        } else {
            if c.debug {
                assert(s =~= seq![a, sh, dl, h, lg, dh, sp, rl]);
            } else {
                assert(s =~= seq![a, sh, dl, h, dh, sp, rl]);
            }
        }
    } else {
        if c.auto_update {
            if c.debug {
                assert(s =~= seq![sh, up, dl, h, lg, dh, sp, rl]);
            } else {
                assert(s =~= seq![sh, up, dl, h, dh, sp, rl]);
            }
        } else {
            if c.debug {
                assert(s =~= seq![sh, dl, h, lg, dh, sp, rl]);
            } else {
                assert(s =~= seq![sh, dl, h, dh, sp, rl]);
            }
        }
    }
}

pub proof fn lemma_initial_inv(c: StartupConfig)
    ensures
        inv(initial(c)),
{
    lemma_plan_shape(c);
}

pub proof fn lemma_next_state_inv(m: StartupModel, o: Outcome)
    requires
        inv(m),
    ensures
        inv(next_state(m, o)),
{
    let c = m.config;
    let s = plan(c);
    lemma_plan_shape(c);
    let m2 = next_state(m, o);
    if m.exit is None && m2.next == m.next + 1 {
        assert(m.next + 1 < s.len()) by {
            if m.next == s.len() - 1 {
                assert(current_step(m) == Step::EnterRunLoop);
            }
        }
        assert forall|p: Plugin|
            m2.plugins.contains(p) <==> exists|i: int| 0 <= i < m2.next && s[i] == Step::Register(p)
        by {
            if m2.plugins.contains(p) {
                if m.plugins.contains(p) {
                    let i = choose|i: int| 0 <= i < m.next && s[i] == Step::Register(p);
                    assert(0 <= i < m2.next && s[i] == Step::Register(p));
                } else {
                    match current_step(m) {
                        Step::Register(q) => {
                            assert(m2.plugins == m.plugins.push(q));
                            assert(p == q);
                            assert(s[m.next as int] == Step::Register(p));
                        },
                        _ => {},
                    }
                }
            }
            if exists|i: int| 0 <= i < m2.next && s[i] == Step::Register(p) {
                let i = choose|i: int| 0 <= i < m2.next && s[i] == Step::Register(p);
                if i < m.next {
                    assert(m.plugins.contains(p));
                    assert(m2.plugins.contains(p)) by {
                        if m2.plugins != m.plugins {
                            let q = current_step(m)->Register_0;
                            assert(m2.plugins == m.plugins.push(q));
                            let k = choose|k: int| 0 <= k < m.plugins.len() && m.plugins[k] == p;
                            assert(m2.plugins[k] == p);
                        }
                    }
                } else {
                    assert(m2.plugins == m.plugins.push(p));
                    assert(m2.plugins[m.plugins.len() as int] == p);
                }
            }
        }
        if m.next + 1 < spawn_index(c) {
            // the spawn step occurs only once, at its own index
            assert(s[(m.next + 1) as int] != Step::SpawnSidecar);
        }
    }
}

/// The start-up, in the order of its steps.
pub struct Startup {
    config: StartupConfig,
    steps: Vec<Step>,
    next: usize,
    plugins: PluginSet,
    spawn_attempts: usize,
    exit: Option<ExitStatus>,
}

impl View for Startup {
    type V = StartupModel;

    closed spec fn view(&self) -> StartupModel {
        StartupModel {
            config: self.config,
            next: self.next as nat,
            plugins: self.plugins@,
            spawn_attempts: self.spawn_attempts as nat,
            exit: self.exit,
        }
    }
}

impl Startup {
    /// The plan is kept in order, the registry is consistent, and the state
    /// is one that the start-up can reach.
    pub closed spec fn wf(&self) -> bool {
        &&& self.steps@ == plan(self.config)
        &&& self.plugins.wf()
        &&& inv(self@)
    }

    /// A start-up that has not performed any step yet.
    pub fn new(config: StartupConfig) -> (r: Startup)
        ensures
            r.wf(),
            r@ == initial(config),
    {
        proof {
            lemma_initial_inv(config);
        }
        Startup {
            config,
            steps: startup_steps(config),
            next: 0,
            plugins: PluginSet::new(),
            spawn_attempts: 0,
            exit: None,
        }
    }

    /// The action that the start-up asks for now.
    pub fn current_action(&self) -> (r: Action)
        requires
            self.wf(),
        ensures
            r == action_of(self@),
    {
        match self.exit {
            Some(s) => Action::Exit(s),
            None => Action::Perform(self.steps[self.next]),
        }
    }

    fn advance(&mut self)
        requires
            old(self).steps@ == plan(old(self).config),
            old(self).next < old(self).steps@.len(),
            old(self).next < spawn_index(old(self).config) ==> old(self).spawn_attempts == 0,
            old(self).exit is None,
            current_step(old(self)@) != Step::EnterRunLoop,
        ensures
            final(self)@ == advanced(old(self)@, old(self)@.plugins),
            final(self).steps == old(self).steps,
            final(self).plugins == old(self).plugins,
    {
        proof {
            lemma_plan_shape(self.config);
        }
        self.next = self.next + 1;
        if self.steps[self.next] == Step::SpawnSidecar {
            self.spawn_attempts = self.spawn_attempts + 1;
        }
    }

    /// Takes the outcome of the step under way and says what comes next.
    /// Once the start-up has ended, outcomes change nothing.
    pub fn on_outcome(&mut self, o: Outcome) -> (r: Action)
        requires
            old(self).wf(),
        ensures
            final(self).wf(),
            final(self)@ == next_state(old(self)@, o),
            r == action_of(final(self)@),
    {
        proof {
            lemma_next_state_inv(self@, o);
            lemma_plan_shape(self.config);
        }
        if self.exit.is_none() {
            let step = self.steps[self.next];
            match step {
                Step::InitCrashReporting => self.advance(),
                Step::Register(p) => {
                    if o == Outcome::Done {
                        match self.plugins.register(p) {
                            Ok(()) => self.advance(),
                            Err(e) => self.exit = Some(ExitStatus::SetupFailed(e)),
                        }
                    } else {
                        self.exit = Some(ExitStatus::SetupFailed(SetupError::PluginFailed(p)));
                    }
                },
                Step::StartHost => {
                    if o == Outcome::Done {
                        self.advance();
                    } else {
                        self.exit = Some(ExitStatus::HostFailed);
                    }
                },
                Step::SpawnSidecar => match o {
                    Outcome::Done => self.advance(),
                    Outcome::Failed => self.exit = Some(ExitStatus::SidecarSpawnFailed),
                    Outcome::Missing => self.exit = Some(ExitStatus::SidecarMissing),
                },
                Step::EnterRunLoop => {
                    if o == Outcome::Done {
                        self.exit = Some(ExitStatus::Normal);
                    } else {
                        self.exit = Some(ExitStatus::HostFailed);
                    }
                },
            }
        }
        self.current_action()
    }

    pub fn config(&self) -> (r: StartupConfig)
        ensures
            r == self@.config,
    {
        self.config
    }

    /// How many times the sidecar spawn has been asked for.
    pub fn spawn_attempts(&self) -> (r: usize)
        ensures
            r == self@.spawn_attempts,
    {
        self.spawn_attempts
    }

    /// How the start-up ended, if it has.
    pub fn exit_status(&self) -> (r: Option<ExitStatus>)
        ensures
            r == self@.exit,
    {
        self.exit
    }

    pub fn is_registered(&self, p: Plugin) -> (r: bool)
        ensures
            r == self@.plugins.contains(p),
    {
        self.plugins.contains(p)
    }

    /// Hands an incoming deep-link request on to the application while its
    /// handler is registered and the start-up has not ended; otherwise drops it.
    pub fn deep_link(&self, request: String) -> (r: Option<String>)
        requires
            self.wf(),
        ensures
            r == (if delivers_deep_links(self@) {
                Some(request)
            } else {
                None
            }),
    {
        if self.exit.is_none() && self.plugins.contains(Plugin::DeepLinkHandler) {
            Some(request)
        } else {
            None
        }
    }
}

/// The steps of `plan(config)` as a vector.
pub fn startup_steps(config: StartupConfig) -> (r: Vec<Step>)
    ensures
        r@ == plan(config),
{
    let mut v: Vec<Step> = Vec::new();
    if config.crash_reporting {
        v.push(Step::InitCrashReporting);
    }
    v.push(Step::Register(Plugin::Shell));
    if config.auto_update {
        v.push(Step::Register(Plugin::Updater));
    }
    v.push(Step::Register(Plugin::DeepLink));
    v.push(Step::StartHost);
    if config.debug {
        v.push(Step::Register(Plugin::Logging));
    }
    v.push(Step::Register(Plugin::DeepLinkHandler));
    v.push(Step::SpawnSidecar);
    v.push(Step::EnterRunLoop);
    assert(v@ =~= plan(config));
    v
}

} // verus!
