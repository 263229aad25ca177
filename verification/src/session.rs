//! Building a package for every CPU of a plan, one step at a time.
//!
//! A [`Session`] decides what happens next. Whoever drives it performs the
//! [`Action`] that it asks for and tells it the [`Event`] that came of it.

use crate::builds::Build;
use crate::builds::BuildView;
use crate::builds::builds_view;
use crate::builds::in_order;
use crate::builds::prioritize;
use crate::cargo::Invocation;
use crate::cargo::InvocationView;
use crate::cargo::Message;
use crate::cargo::MessageView;
use crate::cargo::announced;
use crate::cargo::announced_executable;
use crate::error::Error;
use crate::error::ErrorView;
use crate::plan::Plan;
use crate::plan::PlanView;
use crate::rustc::features_args;
use crate::rustc::features_query;
use crate::text::strings;
use vstd::prelude::*;

verus! {

/// What a session waits for.
#[derive(Debug)]
pub enum Phase {
    /// Cargo is being started.
    Compiling,
    /// The messages of cargo are searched for an executable.
    Searching,
    /// The executable is being read.
    Reading { path: String },
    /// The compiler is asked for the features of the CPU.
    Querying { bytes: Vec<u8> },
    /// Nothing: the session is over.
    Over,
}

/// The mathematical model of a [`Phase`].
pub ghost enum PhaseView {
    Compiling,
    Searching,
    Reading { path: Seq<char> },
    Querying { bytes: Seq<u8> },
    Over,
}

impl View for Phase {
    type V = PhaseView;

    open spec fn view(&self) -> PhaseView {
        match self {
            Phase::Compiling => PhaseView::Compiling,
            Phase::Searching => PhaseView::Searching,
            Phase::Reading { path } => PhaseView::Reading { path: path@ },
            Phase::Querying { bytes } => PhaseView::Querying { bytes: bytes@ },
            Phase::Over => PhaseView::Over,
        }
    }
}

/// What came of an action.
#[derive(Debug)]
pub enum Event {
    /// Cargo runs.
    CargoStarted,
    /// Cargo could not be run.
    CargoFailed { report: String },
    /// Cargo sent a message.
    MessageReceived { message: Message },
    /// Cargo sends no more messages.
    MessagesEnded,
    /// The executable was read.
    ExecutableRead { bytes: Vec<u8> },
    /// The executable could not be read.
    ExecutableUnreadable { cause: String },
    /// The compiler told its configuration for the CPU.
    FeaturesReported { output: Vec<u8> },
    /// The compiler could not be asked.
    FeaturesUnknown { cause: String },
}

/// The mathematical model of an [`Event`].
pub ghost enum EventView {
    CargoStarted,
    CargoFailed { report: Seq<char> },
    MessageReceived { message: MessageView },
    MessagesEnded,
    ExecutableRead { bytes: Seq<u8> },
    ExecutableUnreadable { cause: Seq<char> },
    FeaturesReported { output: Seq<u8> },
    FeaturesUnknown { cause: Seq<char> },
}

impl View for Event {
    type V = EventView;

    open spec fn view(&self) -> EventView {
        match self {
            Event::CargoStarted => EventView::CargoStarted,
            Event::CargoFailed { report } => EventView::CargoFailed { report: report@ },
            Event::MessageReceived { message } => EventView::MessageReceived { message: message@ },
            Event::MessagesEnded => EventView::MessagesEnded,
            Event::ExecutableRead { bytes } => EventView::ExecutableRead { bytes: bytes@ },
            Event::ExecutableUnreadable { cause } => EventView::ExecutableUnreadable {
                cause: cause@,
            },
            Event::FeaturesReported { output } => EventView::FeaturesReported { output: output@ },
            Event::FeaturesUnknown { cause } => EventView::FeaturesUnknown { cause: cause@ },
        }
    }
}

/// What is to be done next.
#[derive(Debug)]
pub enum Action {
    /// Print the announcement and run cargo.
    Compile { announcement: String, invocation: Invocation },
    /// Wait for a message of cargo.
    AwaitMessage,
    /// Read an executable.
    ReadExecutable { path: String },
    /// Run cargo to ask the compiler for the features of the CPU.
    QueryFeatures { args: Vec<String> },
    /// Nothing: these are the builds.
    Finish { builds: Vec<Build> },
    /// Give up.
    Fail { error: Error },
}

/// The mathematical model of an [`Action`].
pub ghost enum ActionView {
    Compile { announcement: Seq<char>, invocation: InvocationView },
    AwaitMessage,
    ReadExecutable { path: Seq<char> },
    QueryFeatures { args: Seq<Seq<char>> },
    Finish { builds: Seq<BuildView> },
    Fail { error: ErrorView },
}

impl View for Action {
    type V = ActionView;

    open spec fn view(&self) -> ActionView {
        match self {
            Action::Compile { announcement, invocation } => ActionView::Compile {
                announcement: announcement@,
                invocation: invocation@,
            },
            Action::AwaitMessage => ActionView::AwaitMessage,
            Action::ReadExecutable { path } => ActionView::ReadExecutable { path: path@ },
            Action::QueryFeatures { args } => ActionView::QueryFeatures { args: strings(args@) },
            Action::Finish { builds } => ActionView::Finish { builds: builds_view(builds@) },
            Action::Fail { error } => ActionView::Fail { error: error@ },
        }
    }
}

/// The builds of a package in the making.
#[derive(Debug)]
pub struct Session {
    plan: Plan,
    phase: Phase,
    at: usize,
    builds: Vec<Build>,
}

/// The mathematical model of a [`Session`].
pub ghost struct SessionView {
    /// What is to be built.
    pub plan: PlanView,
    /// What the session waits for.
    pub phase: PhaseView,
    /// The number of CPUs that are done with.
    pub at: nat,
    /// The builds so far, in the order of their CPUs.
    pub builds: Seq<BuildView>,
}

impl View for Session {
    type V = SessionView;

    closed spec fn view(&self) -> SessionView {
        SessionView {
            plan: self.plan@,
            phase: self.phase@,
            at: self.at as nat,
            builds: builds_view(self.builds@),
        }
    }
}

/// A session after a step, with what is to be reported on stderr and done next.
#[derive(Debug)]
pub struct Step {
    /// The session.
    pub session: Session,
    /// Text for stderr, perhaps empty.
    pub report: String,
    /// What is to be done next.
    pub action: Action,
}

/// The mathematical model of a [`Step`].
pub ghost struct StepView {
    pub session: SessionView,
    pub report: Seq<char>,
    pub action: ActionView,
}

impl View for Step {
    type V = StepView;

    open spec fn view(&self) -> StepView {
        StepView { session: self.session@, report: self.report@, action: self.action@ }
    }
}

impl SessionView {
    /// Whether the session is at a CPU of the plan unless it is over.
    pub open spec fn valid(self) -> bool {
        self.phase !is Over ==> self.at < self.plan.cpus.len()
    }

    /// The CPU that the session is at.
    pub open spec fn cpu(self) -> Seq<char> {
        self.plan.cpus[self.at as int]
    }

    /// Whether the session waits for such an event.
    pub open spec fn expects(self, event: EventView) -> bool {
        match event {
            EventView::CargoStarted => self.phase is Compiling,
            EventView::CargoFailed { .. } => self.phase is Compiling,
            EventView::MessageReceived { .. } => self.phase is Searching,
            EventView::MessagesEnded => self.phase is Searching,
            EventView::ExecutableRead { .. } => self.phase is Reading,
            EventView::ExecutableUnreadable { .. } => self.phase is Reading,
            EventView::FeaturesReported { .. } => self.phase is Querying,
            EventView::FeaturesUnknown { .. } => self.phase is Querying,
        }
    }

    /// The step that begins with the first CPU that is not done with, or that
    /// ends the session if there is none.
    pub open spec fn proceed(
        plan: PlanView,
        at: nat,
        builds: Seq<BuildView>,
        report: Seq<char>,
    ) -> StepView {
        if at < plan.cpus.len() {
            StepView {
                session: SessionView { plan, phase: PhaseView::Compiling, at, builds },
                report,
                action: ActionView::Compile {
                    announcement: plan.announcement(plan.cpus[at as int]),
                    invocation: plan.invocation(plan.cpus[at as int]),
                },
            }
        } else {
            StepView {
                session: SessionView { plan, phase: PhaseView::Over, at, builds: Seq::empty() },
                report,
                action: ActionView::Finish { builds: in_order(builds) },
            }
        }
    }

    /// The step that waits for something else at the same CPU.
    pub open spec fn stay(
        self,
        phase: PhaseView,
        report: Seq<char>,
        action: ActionView,
    ) -> StepView {
        StepView { session: SessionView { phase, ..self }, report, action }
    }

    /// What a message of cargo has reported.
    pub open spec fn report(self, message: MessageView) -> Seq<char> {
        match message {
            MessageView::Artifact { .. } => Seq::empty(),
            MessageView::Compiler { rendered: Some(text) } => text,
            MessageView::Compiler { rendered: None } => Seq::empty(),
            MessageView::Other => Seq::empty(),
            MessageView::Malformed { report } => self.plan.failure(self.cpu(), report),
            MessageView::Failure { report } => self.plan.failure(self.cpu(), report),
        }
    }

    /// The step that an event leads to.
    ///
    /// A CPU that cargo cannot be run for, or that cargo leaves no executable
    /// for, is passed over. An executable that cannot be read, or features that
    /// cannot be told, end the session.
    pub open spec fn next(self, event: EventView) -> StepView {
        match (self.phase, event) {
            (PhaseView::Compiling, EventView::CargoStarted) => self.stay(
                PhaseView::Searching,
                Seq::empty(),
                ActionView::AwaitMessage,
            ),
            (PhaseView::Compiling, EventView::CargoFailed { report }) => SessionView::proceed(
                self.plan,
                self.at + 1,
                self.builds,
                report + "\n"@,
            ),
            (PhaseView::Searching, EventView::MessageReceived { message }) => match announced(
                message,
            ) {
                Some(path) => self.stay(
                    PhaseView::Reading { path },
                    Seq::empty(),
                    ActionView::ReadExecutable { path },
                ),
                None => self.stay(
                    PhaseView::Searching,
                    self.report(message),
                    ActionView::AwaitMessage,
                ),
            },
            (PhaseView::Searching, EventView::MessagesEnded) => SessionView::proceed(
                self.plan,
                self.at + 1,
                self.builds,
                Seq::empty(),
            ),
            (PhaseView::Reading { .. }, EventView::ExecutableRead { bytes }) => self.stay(
                PhaseView::Querying { bytes },
                Seq::empty(),
                ActionView::QueryFeatures { args: features_args(self.plan.target, self.cpu()) },
            ),
            (PhaseView::Reading { path }, EventView::ExecutableUnreadable { cause }) => self.stay(
                PhaseView::Over,
                Seq::empty(),
                ActionView::Fail { error: ErrorView::UnreadableExecutable { path, cause } },
            ),
            (PhaseView::Querying { bytes }, EventView::FeaturesReported { output }) => {
                SessionView::proceed(
                    self.plan,
                    self.at + 1,
                    self.builds.push(
                        BuildView {
                            bytes,
                            required_cpu_features: self.plan.needed_features(output),
                        },
                    ),
                    Seq::empty(),
                )
            },
            (PhaseView::Querying { .. }, EventView::FeaturesUnknown { cause }) => self.stay(
                PhaseView::Over,
                Seq::empty(),
                ActionView::Fail { error: ErrorView::UnknownFeatures { cause } },
            ),
            _ => arbitrary(),
        }
    }
}

impl Session {
    /// Begins with the first CPU of a plan.
    pub fn start(plan: Plan) -> (r: Step)
        ensures
            r@ == SessionView::proceed(plan@, 0, Seq::empty(), Seq::empty()),
            r@.session.valid(),
    {
        let builds: Vec<Build> = Vec::new();
        assert(builds_view(builds@) =~= Seq::empty());
        Session::proceed(plan, 0, builds, String::new())
    }

    /// Whether the session waits for such an event.
    pub fn expects(&self, event: &Event) -> (r: bool)
        ensures
            r == self@.expects(event@),
    {
        match event {
            Event::CargoStarted => matches!(self.phase, Phase::Compiling),
            Event::CargoFailed { .. } => matches!(self.phase, Phase::Compiling),
            Event::MessageReceived { .. } => matches!(self.phase, Phase::Searching),
            Event::MessagesEnded => matches!(self.phase, Phase::Searching),
            Event::ExecutableRead { .. } => matches!(self.phase, Phase::Reading { .. }),
            Event::ExecutableUnreadable { .. } => matches!(self.phase, Phase::Reading { .. }),
            Event::FeaturesReported { .. } => matches!(self.phase, Phase::Querying { .. }),
            Event::FeaturesUnknown { .. } => matches!(self.phase, Phase::Querying { .. }),
        }
    }

    fn proceed(plan: Plan, at: usize, builds: Vec<Build>, report: String) -> (r: Step)
        ensures
            r@ == SessionView::proceed(plan@, at as nat, builds_view(builds@), report@),
            r@.session.valid(),
    {
        if at < plan.cpu_count() {
            let announcement = plan.announcement(plan.cpu(at));
            let invocation = plan.invocation(plan.cpu(at));
            let session = Session { plan, phase: Phase::Compiling, at, builds };
            Step { session, report, action: Action::Compile { announcement, invocation } }
        } else {
            let builds = prioritize(builds);
            let none: Vec<Build> = Vec::new();
            assert(builds_view(none@) =~= Seq::empty());
            let session = Session { plan, phase: Phase::Over, at, builds: none };
            Step { session, report, action: Action::Finish { builds } }
        }
    }

    fn stay(self, phase: Phase, report: String, action: Action) -> (r: Step)
        ensures
            r@ == self@.stay(phase@, report@, action@),
    {
        let session = Session { plan: self.plan, phase, at: self.at, builds: self.builds };
        Step { session, report, action }
    }

    /// What a message of cargo has reported.
    fn report(&self, message: Message) -> (r: String)
        requires
            self@.at < self@.plan.cpus.len(),
        ensures
            r@ == self@.report(message@),
    {
        match message {
            Message::Compiler { rendered: Some(text) } => text,
            Message::Malformed { report } => self.plan.failure(
                self.plan.cpu(self.at),
                report.as_str(),
            ),
            Message::Failure { report } => self.plan.failure(
                self.plan.cpu(self.at),
                report.as_str(),
            ),
            _ => String::new(),
        }
    }

    /// Takes the step that an event leads to.
    pub fn next(self, event: Event) -> (r: Step)
        requires
            self@.valid(),
            self@.expects(event@),
        ensures
            r@ == self@.next(event@),
            r@.session.valid(),
    {
        proof {
            self.plan.lemma_cpu_count();
        }
        match event {
            Event::CargoStarted => self.stay(
                Phase::Searching,
                String::new(),
                Action::AwaitMessage,
            ),
            Event::CargoFailed { report } => {
                let mut report = report;
                report.append("\n");
                Session::proceed(self.plan, self.at + 1, self.builds, report)
            },
            Event::MessageReceived { message } => {
                match announced_executable(&message) {
                    Some(path) => self.stay(
                        Phase::Reading { path: path.clone() },
                        String::new(),
                        Action::ReadExecutable { path },
                    ),
                    None => {
                        let report = self.report(message);
                        self.stay(Phase::Searching, report, Action::AwaitMessage)
                    },
                }
            },
            Event::MessagesEnded => Session::proceed(
                self.plan,
                self.at + 1,
                self.builds,
                String::new(),
            ),
            Event::ExecutableRead { bytes } => {
                let args = features_query(self.plan.target(), self.plan.cpu(self.at));
                self.stay(
                    Phase::Querying { bytes },
                    String::new(),
                    Action::QueryFeatures { args },
                )
            },
            Event::ExecutableUnreadable { cause } => {
                let path = match &self.phase {
                    Phase::Reading { path } => path.clone(),
                    _ => String::new(),
                };
                self.stay(
                    Phase::Over,
                    String::new(),
                    Action::Fail { error: Error::UnreadableExecutable { path, cause } },
                )
            },
            Event::FeaturesReported { output } => {
                let features = self.plan.needed_features(output.as_slice());
                let Session { plan, phase, at, builds } = self;
                let mut builds = builds;
                if let Phase::Querying { bytes } = phase {
                    let ghost before = builds_view(builds@);
                    let build = Build::new(bytes, features);
                    builds.push(build);
                    assert(builds_view(builds@) =~= before.push(build@));
                }
                Session::proceed(plan, at + 1, builds, String::new())
            },
            Event::FeaturesUnknown { cause } => self.stay(
                Phase::Over,
                String::new(),
                Action::Fail { error: Error::UnknownFeatures { cause } },
            ),
        }
    }
}

/// What comes of actions is seen whole.
pub proof fn events_are_seen_whole(text: String, bytes: Vec<u8>, message: Message)
    ensures
        Event::CargoStarted@ == EventView::CargoStarted,
        (Event::CargoFailed { report: text })@ == (EventView::CargoFailed { report: text@ }),
        (Event::MessageReceived { message })@ == (EventView::MessageReceived { message: message@ }),
        Event::MessagesEnded@ == EventView::MessagesEnded,
        (Event::ExecutableRead { bytes })@ == (EventView::ExecutableRead { bytes: bytes@ }),
        (Event::ExecutableUnreadable { cause: text })@ == (EventView::ExecutableUnreadable {
            cause: text@,
        }),
        (Event::FeaturesReported { output: bytes })@ == (EventView::FeaturesReported {
            output: bytes@,
        }),
        (Event::FeaturesUnknown { cause: text })@ == (EventView::FeaturesUnknown { cause: text@ }),
{
}

/// What is to be done is seen whole.
pub proof fn actions_are_seen_whole(
    text: String,
    list: Vec<String>,
    run: Invocation,
    builds: Vec<Build>,
    error: Error,
    i: int,
)
    ensures
        (Action::Compile { announcement: text, invocation: run })@ == (ActionView::Compile {
            announcement: text@,
            invocation: run@,
        }),
        Action::AwaitMessage@ == ActionView::AwaitMessage,
        (Action::ReadExecutable { path: text })@ == (ActionView::ReadExecutable { path: text@ }),
        (Action::QueryFeatures { args: list })@ == (ActionView::QueryFeatures {
            args: strings(list@),
        }),
        (Action::Finish { builds })@ == (ActionView::Finish { builds: builds_view(builds@) }),
        (Action::Fail { error })@ == (ActionView::Fail { error: error@ }),
        builds_view(builds@).len() == builds.len(),
        0 <= i < builds.len() ==> builds_view(builds@)[i] == builds@[i]@,
{
}

} // verus!
