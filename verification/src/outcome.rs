//! What a whole session comes to.

use crate::builds::BuildView;
use crate::builds::in_order;
use crate::cargo::MessageView;
use crate::cargo::announced;
use crate::cargo::only_programs_are_announced;
use crate::error::ErrorView;
use crate::plan::PlanView;
use crate::rustc::first_found;
use crate::session::ActionView;
use crate::session::EventView;
use crate::session::PhaseView;
use crate::session::SessionView;
use crate::session::StepView;
use vstd::prelude::*;

verus! {

/// What happens when a package is built for one CPU.
pub ghost enum CpuOutcome {
    /// Cargo cannot be run.
    NotRun { report: Seq<char> },
    /// Cargo runs and sends messages. Reading the executable and asking for the
    /// features of the CPU would give the bytes or the reports.
    Run {
        messages: Seq<MessageView>,
        executable: Result<Seq<u8>, Seq<char>>,
        features: Result<Seq<u8>, Seq<char>>,
    },
}

/// What building for one CPU comes to.
pub ghost enum CpuResult {
    /// A build.
    Built { build: BuildView },
    /// No build, which is no reason to give up.
    Skipped,
    /// A reason to give up.
    Failed { error: ErrorView },
}

/// The first executable that messages announce.
pub open spec fn found(messages: Seq<MessageView>) -> Option<Seq<char>> {
    first_found(messages, |message: MessageView| announced(message))
}

/// What building for one CPU comes to.
pub open spec fn cpu_result(plan: PlanView, outcome: CpuOutcome) -> CpuResult {
    match outcome {
        CpuOutcome::NotRun { .. } => CpuResult::Skipped,
        CpuOutcome::Run { messages, executable, features } => match found(messages) {
            None => CpuResult::Skipped,
            Some(path) => match executable {
                Err(cause) => CpuResult::Failed {
                    error: ErrorView::UnreadableExecutable { path, cause },
                },
                Ok(bytes) => match features {
                    Err(cause) => CpuResult::Failed {
                        error: ErrorView::UnknownFeatures { cause },
                    },
                    Ok(output) => CpuResult::Built {
                        build: BuildView {
                            bytes,
                            required_cpu_features: plan.needed_features(output),
                        },
                    },
                },
            },
        },
    }
}

/// What building for several CPUs comes to: the builds in the order of the
/// CPUs, or the first reason to give up.
pub open spec fn collected(plan: PlanView, outcomes: Seq<CpuOutcome>) -> Result<
    Seq<BuildView>,
    ErrorView,
>
    decreases outcomes.len(),
{
    if outcomes.len() == 0 {
        Ok(Seq::empty())
    } else {
        match cpu_result(plan, outcomes.first()) {
            CpuResult::Failed { error } => Err(error),
            CpuResult::Skipped => collected(plan, outcomes.drop_first()),
            CpuResult::Built { build } => match collected(plan, outcomes.drop_first()) {
                Ok(builds) => Ok(seq![build] + builds),
                Err(error) => Err(error),
            },
        }
    }
}

/// The events while messages are searched, up to the first executable.
pub open spec fn search_events(messages: Seq<MessageView>) -> Seq<EventView>
    decreases messages.len(),
{
    if messages.len() == 0 {
        seq![EventView::MessagesEnded]
    } else {
        let received = seq![EventView::MessageReceived { message: messages.first() }];
        if announced(messages.first()) is Some {
            received
        } else {
            received + search_events(messages.drop_first())
        }
    }
}

/// The events once an executable is found.
pub open spec fn executable_events(
    executable: Result<Seq<u8>, Seq<char>>,
    features: Result<Seq<u8>, Seq<char>>,
) -> Seq<EventView> {
    match executable {
        Err(cause) => seq![EventView::ExecutableUnreadable { cause }],
        Ok(bytes) => match features {
            Err(cause) => seq![
                EventView::ExecutableRead { bytes },
                EventView::FeaturesUnknown { cause },
            ],
            Ok(output) => seq![
                EventView::ExecutableRead { bytes },
                EventView::FeaturesReported { output },
            ],
        },
    }
}

/// The events while the package is built for one CPU.
pub open spec fn cpu_events(outcome: CpuOutcome) -> Seq<EventView> {
    match outcome {
        CpuOutcome::NotRun { report } => seq![EventView::CargoFailed { report }],
        CpuOutcome::Run { messages, executable, features } => {
            let searched = seq![EventView::CargoStarted] + search_events(messages);
            if found(messages) is Some {
                searched + executable_events(executable, features)
            } else {
                searched
            }
        },
    }
}

/// The events while the package is built for several CPUs, up to the first
/// reason to give up.
pub open spec fn session_events(plan: PlanView, outcomes: Seq<CpuOutcome>) -> Seq<EventView>
    decreases outcomes.len(),
{
    if outcomes.len() == 0 {
        Seq::empty()
    } else if cpu_result(plan, outcomes.first()) is Failed {
        cpu_events(outcomes.first())
    } else {
        cpu_events(outcomes.first()) + session_events(plan, outcomes.drop_first())
    }
}

/// The first step of a session.
pub open spec fn opening(plan: PlanView) -> StepView {
    SessionView::proceed(plan, 0, Seq::empty(), Seq::empty())
}

/// The step that events lead to, one after the other.
pub open spec fn run(step: StepView, events: Seq<EventView>) -> StepView
    decreases events.len(),
{
    if events.len() == 0 {
        step
    } else {
        run(step.session.next(events.first()), events.drop_first())
    }
}

/// Whether the session waits for each of the events when it comes.
pub open spec fn expected(step: StepView, events: Seq<EventView>) -> bool
    decreases events.len(),
{
    events.len() > 0 ==> step.session.expects(events.first()) && expected(
        step.session.next(events.first()),
        events.drop_first(),
    )
}

proof fn lemma_run_join(step: StepView, first: Seq<EventView>, second: Seq<EventView>)
    ensures
        run(step, first + second) == run(run(step, first), second),
        expected(step, first + second) <==> expected(step, first) && expected(
            run(step, first),
            second,
        ),
    decreases first.len(),
{
    if first.len() == 0 {
        assert(first + second =~= second);
    } else {
        lemma_run_join(step.session.next(first.first()), first.drop_first(), second);
        assert((first + second).drop_first() =~= first.drop_first() + second);
        assert((first + second).first() == first.first());
    }
}

proof fn lemma_run_one(step: StepView, event: EventView)
    ensures
        run(step, seq![event]) == step.session.next(event),
        expected(step, seq![event]) <==> step.session.expects(event),
{
    reveal_with_fuel(run, 2);
    reveal_with_fuel(expected, 2);
    assert(seq![event].drop_first() =~= Seq::empty());
}

/// The step at the end of a search.
spec fn searched(session: SessionView, messages: Seq<MessageView>) -> StepView {
    match found(messages) {
        Some(path) => session.stay(
            PhaseView::Reading { path },
            Seq::empty(),
            ActionView::ReadExecutable { path },
        ),
        None => SessionView::proceed(
            session.plan,
            session.at + 1,
            session.builds,
            Seq::empty(),
        ),
    }
}

proof fn lemma_search(step: StepView, messages: Seq<MessageView>)
    requires
        step.session.phase is Searching,
    ensures
        run(step, search_events(messages)) == searched(step.session, messages),
        expected(step, search_events(messages)),
    decreases messages.len(),
{
    if messages.len() == 0 {
        lemma_run_one(step, EventView::MessagesEnded);
    } else {
        let event = EventView::MessageReceived { message: messages.first() };
        lemma_run_one(step, event);
        if announced(messages.first()) is None {
            let after = step.session.next(event);
            assert(after.session == step.session);
            lemma_search(after, messages.drop_first());
            lemma_run_join(step, seq![event], search_events(messages.drop_first()));
        }
    }
}

proof fn lemma_executable(
    step: StepView,
    executable: Result<Seq<u8>, Seq<char>>,
    features: Result<Seq<u8>, Seq<char>>,
)
    requires
        step.session.phase is Reading,
    ensures
        expected(step, executable_events(executable, features)),
        ({
            let end = run(step, executable_events(executable, features));
            match (executable, features) {
                (Err(cause), _) => end.action == (ActionView::Fail {
                    error: ErrorView::UnreadableExecutable {
                        path: step.session.phase->path,
                        cause,
                    },
                }),
                (Ok(bytes), Err(cause)) => end.action == (ActionView::Fail {
                    error: ErrorView::UnknownFeatures { cause },
                }),
                (Ok(bytes), Ok(output)) => end == SessionView::proceed(
                    step.session.plan,
                    step.session.at + 1,
                    step.session.builds.push(
                        BuildView {
                            bytes,
                            required_cpu_features: step.session.plan.needed_features(output),
                        },
                    ),
                    Seq::empty(),
                ),
            }
        }),
{
    match executable {
        Err(cause) => {
            lemma_run_one(step, EventView::ExecutableUnreadable { cause });
        },
        Ok(bytes) => {
            let read = EventView::ExecutableRead { bytes };
            let told = match features {
                Err(cause) => EventView::FeaturesUnknown { cause },
                Ok(output) => EventView::FeaturesReported { output },
            };
            lemma_run_one(step, read);
            lemma_run_one(step.session.next(read), told);
            lemma_run_join(step, seq![read], seq![told]);
            assert(seq![read, told] =~= seq![read] + seq![told]);
        },
    }
}

/// What the events of one CPU lead to.
proof fn lemma_cpu(
    plan: PlanView,
    at: nat,
    builds: Seq<BuildView>,
    report: Seq<char>,
    outcome: CpuOutcome,
) -> (last: Seq<char>)
    requires
        at < plan.cpus.len(),
    ensures
        expected(SessionView::proceed(plan, at, builds, report), cpu_events(outcome)),
        ({
            let end = run(SessionView::proceed(plan, at, builds, report), cpu_events(outcome));
            match cpu_result(plan, outcome) {
                CpuResult::Failed { error } => end.action == (ActionView::Fail { error }),
                CpuResult::Skipped => end == SessionView::proceed(plan, at + 1, builds, last),
                CpuResult::Built { build } => end == SessionView::proceed(
                    plan,
                    at + 1,
                    builds.push(build),
                    last,
                ),
            }
        }),
{
    let step = SessionView::proceed(plan, at, builds, report);
    match outcome {
        CpuOutcome::NotRun { report } => {
            lemma_run_one(step, EventView::CargoFailed { report });
            report + "\n"@
        },
        CpuOutcome::Run { messages, executable, features } => {
            let started = step.session.next(EventView::CargoStarted);
            lemma_run_one(step, EventView::CargoStarted);
            lemma_search(started, messages);
            lemma_run_join(step, seq![EventView::CargoStarted], search_events(messages));
            if found(messages) is Some {
                let events = seq![EventView::CargoStarted] + search_events(messages);
                let reading = run(step, events);
                lemma_executable(reading, executable, features);
                lemma_run_join(step, events, executable_events(executable, features));
            }
            Seq::empty()
        },
    }
}

proof fn lemma_session(
    plan: PlanView,
    at: nat,
    builds: Seq<BuildView>,
    report: Seq<char>,
    outcomes: Seq<CpuOutcome>,
)
    requires
        at + outcomes.len() == plan.cpus.len(),
    ensures
        expected(SessionView::proceed(plan, at, builds, report), session_events(plan, outcomes)),
        run(
            SessionView::proceed(plan, at, builds, report),
            session_events(plan, outcomes),
        ).action == match collected(plan, outcomes) {
            Ok(more) => ActionView::Finish { builds: in_order(builds + more) },
            Err(error) => ActionView::Fail { error },
        },
    decreases outcomes.len(),
{
    let step = SessionView::proceed(plan, at, builds, report);
    if outcomes.len() == 0 {
        assert(builds + Seq::empty() =~= builds);
    } else {
        let outcome = outcomes.first();
        let rest = outcomes.drop_first();
        let last = lemma_cpu(plan, at, builds, report, outcome);
        lemma_run_join(step, cpu_events(outcome), session_events(plan, rest));
        match cpu_result(plan, outcome) {
            CpuResult::Failed { error } => {},
            CpuResult::Skipped => {
                lemma_session(plan, at + 1, builds, last, rest);
            },
            CpuResult::Built { build } => {
                lemma_session(plan, at + 1, builds.push(build), last, rest);
                if let Ok(more) = collected(plan, rest) {
                    assert(builds.push(build) + more =~= builds + (seq![build] + more));
                }
            },
        }
    }
}

/// A session ends with one build for each CPU that could be built for, the most
/// demanding first, or with the first reason to give up. CPUs that could not be
/// built for do not keep the others from being built for.
pub proof fn session_collects_the_builds(plan: PlanView, outcomes: Seq<CpuOutcome>)
    requires
        outcomes.len() == plan.cpus.len(),
    ensures
        expected(opening(plan), session_events(plan, outcomes)),
        run(opening(plan), session_events(plan, outcomes)).action == match collected(plan, outcomes) {
            Ok(builds) => ActionView::Finish { builds: in_order(builds) },
            Err(error) => ActionView::Fail { error },
        },
{
    lemma_session(plan, 0, Seq::empty(), Seq::empty(), outcomes);
    if let Ok(builds) = collected(plan, outcomes) {
        assert(Seq::<BuildView>::empty() + builds =~= builds);
    }
}

/// The run of cargo that a step asks for, if that is what it asks for.
pub open spec fn asked(step: StepView) -> Seq<ActionView> {
    if step.action is Compile {
        seq![step.action]
    } else {
        Seq::empty()
    }
}

/// The runs of cargo that a session asks for while events come in, each with its
/// announcement.
pub open spec fn runs(step: StepView, events: Seq<EventView>) -> Seq<ActionView>
    decreases events.len(),
{
    if events.len() == 0 {
        asked(step)
    } else {
        asked(step) + runs(step.session.next(events.first()), events.drop_first())
    }
}

/// The run of cargo that builds for a CPU of a plan, with its announcement.
pub open spec fn planned_run(plan: PlanView, i: int) -> ActionView {
    ActionView::Compile {
        announcement: plan.announcement(plan.cpus[i]),
        invocation: plan.invocation(plan.cpus[i]),
    }
}

/// The runs of cargo that build for the CPUs of a plan from the `from`th to the
/// one before the `to`th, in order.
pub open spec fn planned_runs(plan: PlanView, from: nat, to: nat) -> Seq<ActionView> {
    Seq::new((to - from) as nat, |i: int| planned_run(plan, from + i))
}

/// The number of CPUs up to and with the first that is a reason to give up, or
/// of all CPUs.
pub open spec fn attempted(plan: PlanView, outcomes: Seq<CpuOutcome>) -> nat
    decreases outcomes.len(),
{
    if outcomes.len() == 0 {
        0
    } else if cpu_result(plan, outcomes.first()) is Failed {
        1
    } else {
        1 + attempted(plan, outcomes.drop_first())
    }
}

/// The runs after the first step.
spec fn later_runs(step: StepView, events: Seq<EventView>) -> Seq<ActionView> {
    if events.len() == 0 {
        Seq::empty()
    } else {
        runs(step.session.next(events.first()), events.drop_first())
    }
}

proof fn lemma_runs_join(step: StepView, first: Seq<EventView>, second: Seq<EventView>)
    ensures
        runs(step, first + second) == runs(step, first) + later_runs(run(step, first), second),
    decreases first.len(),
{
    if first.len() == 0 {
        assert(first + second =~= second);
        assert(runs(step, second) =~= runs(step, first) + later_runs(step, second));
    } else {
        let after = step.session.next(first.first());
        lemma_runs_join(after, first.drop_first(), second);
        assert((first + second).drop_first() =~= first.drop_first() + second);
        assert((first + second).first() == first.first());
        assert(runs(step, first + second) =~= runs(step, first) + later_runs(
            run(step, first),
            second,
        ));
    }
}

proof fn lemma_runs_one(step: StepView, event: EventView)
    ensures
        later_runs(step, seq![event]) == asked(step.session.next(event)),
{
    assert(seq![event].drop_first() =~= Seq::empty());
}

proof fn lemma_later_join(step: StepView, first: Seq<EventView>, second: Seq<EventView>)
    ensures
        later_runs(step, first + second) == later_runs(step, first) + later_runs(
            run(step, first),
            second,
        ),
{
    lemma_runs_join(step, first, second);
    assert(runs(step, first + second) =~= asked(step) + later_runs(step, first + second));
    assert(runs(step, first) =~= asked(step) + later_runs(step, first));
    let n = asked(step).len() as int;
    assert(runs(step, first + second).skip(n) =~= later_runs(step, first + second));
    assert(runs(step, first + second).skip(n) =~= later_runs(step, first) + later_runs(
        run(step, first),
        second,
    ));
}

/// A search asks for another run only where it ends without an executable.
proof fn lemma_search_runs(step: StepView, messages: Seq<MessageView>)
    requires
        step.session.phase is Searching,
    ensures
        later_runs(step, search_events(messages)) == asked(searched(step.session, messages)),
    decreases messages.len(),
{
    if messages.len() == 0 {
        lemma_runs_one(step, EventView::MessagesEnded);
    } else {
        let event = EventView::MessageReceived { message: messages.first() };
        lemma_runs_one(step, event);
        lemma_run_one(step, event);
        if announced(messages.first()) is None {
            let after = step.session.next(event);
            assert(after.session == step.session);
            lemma_search_runs(after, messages.drop_first());
            lemma_later_join(step, seq![event], search_events(messages.drop_first()));
            assert(later_runs(step, search_events(messages)) =~= asked(
                searched(step.session, messages),
            ));
        }
    }
}

proof fn lemma_executable_runs(
    step: StepView,
    executable: Result<Seq<u8>, Seq<char>>,
    features: Result<Seq<u8>, Seq<char>>,
)
    requires
        step.session.phase is Reading,
    ensures
        later_runs(step, executable_events(executable, features)) == asked(
            run(step, executable_events(executable, features)),
        ),
{
    match executable {
        Err(cause) => {
            let unread = EventView::ExecutableUnreadable { cause };
            lemma_run_one(step, unread);
            lemma_runs_one(step, unread);
        },
        Ok(bytes) => {
            let read = EventView::ExecutableRead { bytes };
            let told = match features {
                Err(cause) => EventView::FeaturesUnknown { cause },
                Ok(output) => EventView::FeaturesReported { output },
            };
            let after = step.session.next(read);
            lemma_run_one(step, read);
            lemma_run_one(after, told);
            lemma_runs_one(step, read);
            lemma_runs_one(after, told);
            lemma_run_join(step, seq![read], seq![told]);
            lemma_later_join(step, seq![read], seq![told]);
            assert(seq![read, told] =~= seq![read] + seq![told]);
            assert(Seq::<ActionView>::empty() + later_runs(after, seq![told]) =~= later_runs(
                after,
                seq![told],
            ));
        },
    }
}

/// The events of one CPU ask for no run but that of the next CPU.
proof fn lemma_cpu_runs(
    plan: PlanView,
    at: nat,
    builds: Seq<BuildView>,
    report: Seq<char>,
    outcome: CpuOutcome,
)
    requires
        at < plan.cpus.len(),
    ensures
        ({
            let step = SessionView::proceed(plan, at, builds, report);
            later_runs(step, cpu_events(outcome)) == asked(run(step, cpu_events(outcome)))
        }),
{
    let step = SessionView::proceed(plan, at, builds, report);
    match outcome {
        CpuOutcome::NotRun { report } => {
            lemma_run_one(step, EventView::CargoFailed { report });
            lemma_runs_one(step, EventView::CargoFailed { report });
        },
        CpuOutcome::Run { messages, executable, features } => {
            let start = seq![EventView::CargoStarted];
            let started = step.session.next(EventView::CargoStarted);
            let events = start + search_events(messages);
            lemma_run_one(step, EventView::CargoStarted);
            lemma_runs_one(step, EventView::CargoStarted);
            lemma_search(started, messages);
            lemma_search_runs(started, messages);
            lemma_run_join(step, start, search_events(messages));
            lemma_later_join(step, start, search_events(messages));
            assert(later_runs(step, events) =~= asked(searched(started.session, messages)));
            if found(messages) is Some {
                let reading = run(step, events);
                let rest = executable_events(executable, features);
                lemma_executable_runs(reading, executable, features);
                lemma_run_join(step, events, rest);
                lemma_later_join(step, events, rest);
                assert(later_runs(step, events + rest) =~= asked(run(step, events + rest)));
            }
        },
    }
}

proof fn lemma_session_runs(
    plan: PlanView,
    at: nat,
    builds: Seq<BuildView>,
    report: Seq<char>,
    outcomes: Seq<CpuOutcome>,
)
    requires
        at + outcomes.len() == plan.cpus.len(),
    ensures
        runs(SessionView::proceed(plan, at, builds, report), session_events(plan, outcomes))
            == planned_runs(plan, at, at + attempted(plan, outcomes)),
    decreases outcomes.len(),
{
    let step = SessionView::proceed(plan, at, builds, report);
    let planned = planned_runs(plan, at, at + attempted(plan, outcomes));
    let events = session_events(plan, outcomes);
    assert(runs(step, events) =~= asked(step) + later_runs(step, events));
    if outcomes.len() == 0 {
        assert(runs(step, events) =~= planned);
    } else {
        let outcome = outcomes.first();
        let rest = outcomes.drop_first();
        let later = session_events(plan, rest);
        let end = run(step, cpu_events(outcome));
        let last = lemma_cpu(plan, at, builds, report, outcome);
        lemma_cpu_runs(plan, at, builds, report, outcome);
        assert(asked(step) =~= seq![planned_run(plan, at as int)]);
        match cpu_result(plan, outcome) {
            CpuResult::Failed { error } => {
                assert(runs(step, events) =~= planned);
            },
            CpuResult::Skipped => {
                lemma_later_join(step, cpu_events(outcome), later);
                lemma_session_runs(plan, at + 1, builds, last, rest);
                assert(asked(end) + later_runs(end, later) =~= runs(end, later));
                assert(runs(step, events) =~= planned);
            },
            CpuResult::Built { build } => {
                lemma_later_join(step, cpu_events(outcome), later);
                lemma_session_runs(plan, at + 1, builds.push(build), last, rest);
                assert(asked(end) + later_runs(end, later) =~= runs(end, later));
                assert(runs(step, events) =~= planned);
            },
        }
    }
}

proof fn lemma_attempted(plan: PlanView, outcomes: Seq<CpuOutcome>)
    ensures
        attempted(plan, outcomes) <= outcomes.len(),
        collected(plan, outcomes) is Ok ==> attempted(plan, outcomes) == outcomes.len(),
        collected(plan, outcomes) is Err ==> attempted(plan, outcomes) > 0 && cpu_result(
            plan,
            outcomes[attempted(plan, outcomes) - 1],
        ) is Failed,
    decreases outcomes.len(),
{
    if outcomes.len() > 0 && cpu_result(plan, outcomes.first()) !is Failed {
        lemma_attempted(plan, outcomes.drop_first());
    }
}

/// A session runs cargo once for each CPU of its plan, in order, as the plan says
/// and with the announcement for that CPU. Where it has to give up, the runs end
/// with that of the CPU that is the reason. Each run sets the target.
pub proof fn session_runs_cargo_once_per_cpu(plan: PlanView, outcomes: Seq<CpuOutcome>)
    requires
        outcomes.len() == plan.cpus.len(),
    ensures
        ({
            let all = runs(opening(plan), session_events(plan, outcomes));
            &&& all == planned_runs(plan, 0, attempted(plan, outcomes))
            &&& all.is_prefix_of(planned_runs(plan, 0, plan.cpus.len()))
            &&& collected(plan, outcomes) is Ok ==> all == planned_runs(plan, 0, plan.cpus.len())
            &&& collected(plan, outcomes) is Err ==> 0 < all.len() <= outcomes.len() && cpu_result(
                plan,
                outcomes[all.len() - 1],
            ) is Failed
            &&& forall|i: int|
                0 <= i < all.len() ==> (#[trigger] all[i])->invocation.target == Some(plan.target)
        }),
{
    lemma_session_runs(plan, 0, Seq::empty(), Seq::empty(), outcomes);
    lemma_attempted(plan, outcomes);
    let n = attempted(plan, outcomes) as int;
    assert(planned_runs(plan, 0, plan.cpus.len()).subrange(0, n) =~= planned_runs(
        plan,
        0,
        attempted(plan, outcomes),
    ));
}

/// Whatever happens, every run of cargo that a session asks for, from its first
/// step on, is a run that its plan has for one of its CPUs, and sets the target,
/// so that its flags do not apply to build scripts.
pub proof fn every_build_sets_the_target(plan: PlanView, events: Seq<EventView>, i: int)
    requires
        expected(opening(plan), events),
        0 <= i < runs(opening(plan), events).len(),
    ensures
        exists|k: int|
            0 <= k < plan.cpus.len() && runs(opening(plan), events)[i] == #[trigger] planned_run(
                plan,
                k,
            ),
        runs(opening(plan), events)[i]->invocation.target == Some(plan.target),
        runs(opening(plan), events)[i]->invocation.variable == "RUSTFLAGS"@,
{
    lemma_every_run(plan, opening(plan), events);
    let all = runs(opening(plan), events);
    let k = choose|k: int| 0 <= k < plan.cpus.len() && all[i] == #[trigger] planned_run(plan, k);
    assert(all[i] == planned_run(plan, k));
}

proof fn lemma_every_run(plan: PlanView, step: StepView, events: Seq<EventView>)
    requires
        expected(step, events),
        step.session.valid(),
        step.session.plan == plan,
        step.action is Compile ==> step.session.phase is Compiling && step.action == planned_run(
            plan,
            step.session.at as int,
        ),
    ensures
        forall|i: int|
            0 <= i < runs(step, events).len() ==> exists|k: int|
                0 <= k < plan.cpus.len() && #[trigger] runs(step, events)[i]
                    == #[trigger] planned_run(plan, k),
    decreases events.len(),
{
    if events.len() > 0 {
        lemma_every_run(plan, step.session.next(events.first()), events.drop_first());
    }
    let rest = later_runs(step, events);
    assert forall|i: int| 0 <= i < runs(step, events).len() implies exists|k: int|
        0 <= k < plan.cpus.len() && #[trigger] runs(step, events)[i] == #[trigger] planned_run(
            plan,
            k,
        ) by {
        let n = asked(step).len() as int;
        assert(runs(step, events) =~= asked(step) + rest);
        if i < n {
            assert(runs(step, events)[i] == planned_run(plan, step.session.at as int));
        } else {
            assert(runs(step, events)[i] == rest[i - n]);
        }
    }
}

/// No event is expected once a session is over.
pub proof fn nothing_follows_the_last_step(session: SessionView, event: EventView)
    requires
        session.valid(),
        session.expects(event),
    ensures
        session.next(event).action is Finish || session.next(event).action is Fail
            <==> session.next(event).session.phase is Over,
        session.next(event).session.phase is Over ==> forall|later: EventView|
            !(#[trigger] session.next(event).session.expects(later)),
{
}

/// The steps that events lead to, one after the other, with the one that they
/// begin at.
pub open spec fn steps(step: StepView, events: Seq<EventView>) -> Seq<StepView>
    decreases events.len(),
{
    if events.len() == 0 {
        seq![step]
    } else {
        seq![step] + steps(step.session.next(events.first()), events.drop_first())
    }
}

/// The number of steps that ask for a run of cargo that builds for a CPU.
pub open spec fn compilations(all: Seq<StepView>) -> int
    decreases all.len(),
{
    if all.len() == 0 {
        0
    } else if all.first().action is Compile {
        1 + compilations(all.drop_first())
    } else {
        compilations(all.drop_first())
    }
}

/// What holds of a step of a session that has asked for `n` runs of cargo before.
spec fn in_tune(plan: PlanView, n: int, step: StepView) -> bool {
    let session = step.session;
    &&& session.plan == plan
    &&& session.valid()
    &&& match step.action {
        ActionView::Compile { announcement, invocation } => {
            &&& session.phase is Compiling
            &&& session.at == n
            &&& announcement == "    Building for target="@ + plan.target + " target-cpu="@
                + plan.cpus[n]
            &&& invocation.target == Some(plan.target)
            &&& invocation.variable == "RUSTFLAGS"@
            &&& (plan.rust_flags + " -Ctarget-cpu="@ + plan.cpus[n]).is_prefix_of(invocation.value)
        },
        ActionView::AwaitMessage => session.phase is Searching && session.at + 1 == n,
        ActionView::ReadExecutable { path } => session.phase == (PhaseView::Reading { path })
            && session.at + 1 == n,
        ActionView::QueryFeatures { args } => {
            &&& session.phase is Querying
            &&& session.at + 1 == n
            &&& args == seq![
                "rustc"@,
                "--"@,
                "--print"@,
                "cfg"@,
                "--target"@,
                plan.target,
                "-Ctarget-cpu="@ + plan.cpus[n - 1],
            ]
        },
        ActionView::Finish { .. } => session.phase is Over,
        ActionView::Fail { .. } => session.phase is Over,
    }
}

/// What holds of a step that an event leads to, in a session that has asked for
/// `n` runs of cargo before.
spec fn in_reply(plan: PlanView, n: int, event: EventView, step: StepView) -> bool {
    let failed = "    Failed to build for target="@ + plan.target + " target-cpu="@ + plan.cpus[n
        - 1] + ": "@;
    &&& step.action matches ActionView::ReadExecutable { path } ==> {
        event matches EventView::MessageReceived {
            message: MessageView::Artifact { artifact },
        } && !artifact.test && artifact.crate_types == seq!["bin"@] && artifact.kind == seq![
            "bin"@,
        ] && artifact.filenames.len() > 0 && artifact.filenames[0] == path
    }
    &&& step.report == match event {
        EventView::CargoFailed { report } => report + "\n"@,
        EventView::MessageReceived { message } => match message {
            MessageView::Compiler { rendered: Some(text) } => text,
            MessageView::Malformed { report } => failed + report + "\n"@,
            MessageView::Failure { report } => failed + report + "\n"@,
            _ => Seq::empty(),
        },
        _ => Seq::empty(),
    }
}

proof fn lemma_in_tune(plan: PlanView, n: int, step: StepView, event: EventView)
    requires
        in_tune(plan, n, step),
        step.session.expects(event),
    ensures
        ({
            let m = if step.action is Compile {
                n + 1
            } else {
                n
            };
            &&& in_tune(plan, m, step.session.next(event))
            &&& in_reply(plan, m, event, step.session.next(event))
        }),
{
    let m = if step.action is Compile {
        n + 1
    } else {
        n
    };
    let next = step.session.next(event);
    if let EventView::MessageReceived { message } = event {
        if let Some(path) = announced(message) {
            only_programs_are_announced(message, path);
        }
        let cpu = step.session.cpu();
        assert(cpu == plan.cpus[m - 1]);
    }
    if next.action is Compile {
        lemma_named(plan, plan.cpus[m]);
    }
}

proof fn lemma_named(plan: PlanView, cpu: Seq<char>)
    ensures
        (plan.rust_flags + " -Ctarget-cpu="@ + cpu).is_prefix_of(plan.invocation(cpu).value),
{
    let named = plan.rust_flags + " -Ctarget-cpu="@ + cpu;
    assert(named =~= plan.flags(cpu).subrange(0, named.len() as int));
}

proof fn lemma_steps(plan: PlanView, n: int, step: StepView, events: Seq<EventView>)
    requires
        in_tune(plan, n, step),
        expected(step, events),
    ensures
        steps(step, events).len() == events.len() + 1,
        forall|i: int|
            0 <= i <= events.len() ==> in_tune(
                plan,
                n + compilations(steps(step, events).take(i)),
                #[trigger] steps(step, events)[i],
            ),
        forall|i: int|
            0 < i <= events.len() ==> in_reply(
                plan,
                n + compilations(steps(step, events).take(i)),
                events[i - 1],
                #[trigger] steps(step, events)[i],
            ),
    decreases events.len(),
{
    let all = steps(step, events);
    assert(all.take(0) =~= Seq::empty());
    if events.len() > 0 {
        let event = events.first();
        let tail = events.drop_first();
        let next = step.session.next(event);
        let rest = steps(next, tail);
        let m = if step.action is Compile {
            n + 1
        } else {
            n
        };
        lemma_in_tune(plan, n, step, event);
        lemma_steps(plan, m, next, tail);
        assert forall|i: int| 0 <= i <= events.len() implies in_tune(
            plan,
            n + compilations(all.take(i)),
            #[trigger] all[i],
        ) && (i > 0 ==> in_reply(plan, n + compilations(all.take(i)), events[i - 1], all[i])) by {
            if i > 0 {
                assert(all[i] == rest[i - 1]);
                assert(all.take(i).drop_first() =~= rest.take(i - 1));
                assert(all.take(i).first() == step);
                if i > 1 {
                    assert(events[i - 1] == tail[i - 2]);
                } else {
                    assert(rest.take(0) =~= Seq::empty());
                    assert(rest[0] == next);
                }
            }
        }
    }
}

proof fn lemma_opening(plan: PlanView)
    ensures
        in_tune(plan, 0, opening(plan)),
{
    if plan.cpus.len() > 0 {
        lemma_named(plan, plan.cpus[0]);
    }
}

/// Whatever happens, the features that the compiler is asked for are those of the
/// CPU that the latest run of cargo builds for, on the target of the plan.
pub proof fn questions_are_about_the_cpu_that_was_built_for(
    plan: PlanView,
    events: Seq<EventView>,
    i: int,
)
    requires
        expected(opening(plan), events),
        0 <= i <= events.len(),
    ensures
        ({
            let all = steps(opening(plan), events);
            let latest = compilations(all.take(i)) - 1;
            all[i].action matches ActionView::QueryFeatures { args } ==> {
                &&& 0 <= latest < plan.cpus.len()
                &&& args == seq![
                    "rustc"@,
                    "--"@,
                    "--print"@,
                    "cfg"@,
                    "--target"@,
                    plan.target,
                    "-Ctarget-cpu="@ + plan.cpus[latest],
                ]
            }
        }),
{
    lemma_opening(plan);
    lemma_steps(plan, 0, opening(plan), events);
    let all = steps(opening(plan), events);
    assert(in_tune(plan, compilations(all.take(i)), all[i]));
}

/// Whatever happens, the runs of cargo are for the CPUs of the plan, in their
/// order: after `n` runs the next one is announced for, and its flags name, the
/// `n`th CPU, and it builds for the target of the plan.
pub proof fn runs_are_for_one_cpu_after_the_other(plan: PlanView, events: Seq<EventView>, i: int)
    requires
        expected(opening(plan), events),
        0 <= i <= events.len(),
    ensures
        ({
            let all = steps(opening(plan), events);
            let n = compilations(all.take(i));
            all[i].action matches ActionView::Compile { announcement, invocation } ==> {
                &&& 0 <= n < plan.cpus.len()
                &&& announcement == "    Building for target="@ + plan.target + " target-cpu="@
                    + plan.cpus[n]
                &&& invocation.target == Some(plan.target)
                &&& invocation.variable == "RUSTFLAGS"@
                &&& (plan.rust_flags + " -Ctarget-cpu="@ + plan.cpus[n]).is_prefix_of(
                    invocation.value,
                )
            }
        }),
{
    lemma_opening(plan);
    lemma_steps(plan, 0, opening(plan), events);
    let all = steps(opening(plan), events);
    assert(in_tune(plan, compilations(all.take(i)), all[i]));
}

/// Whatever happens, the executable that is read is the one that cargo has just
/// announced: the first file of a program that was not built to be tested.
pub proof fn only_announced_executables_are_read(plan: PlanView, events: Seq<EventView>, i: int)
    requires
        expected(opening(plan), events),
        0 <= i <= events.len(),
    ensures
        steps(opening(plan), events)[i].action matches ActionView::ReadExecutable { path } ==> {
            &&& i > 0
            &&& events[i - 1] matches EventView::MessageReceived {
                message: MessageView::Artifact { artifact },
            }
            &&& !artifact.test
            &&& artifact.crate_types == seq!["bin"@]
            &&& artifact.kind == seq!["bin"@]
            &&& artifact.filenames.len() > 0
            &&& artifact.filenames[0] == path
        },
{
    lemma_opening(plan);
    lemma_steps(plan, 0, opening(plan), events);
    let all = steps(opening(plan), events);
    if i > 0 {
        assert(in_reply(plan, compilations(all.take(i)), events[i - 1], all[i]));
    } else {
        assert(all[0] == opening(plan));
    }
}

/// Whatever happens, what is reported is what came in last: how the compiler
/// displays its message, why cargo could not be run, or a failure together with
/// the target and the CPU that the latest run of cargo builds for. Nothing else is
/// reported.
pub proof fn failures_are_reported_with_their_cpu(plan: PlanView, events: Seq<EventView>, i: int)
    requires
        expected(opening(plan), events),
        0 <= i <= events.len(),
    ensures
        ({
            let all = steps(opening(plan), events);
            let failed = "    Failed to build for target="@ + plan.target + " target-cpu="@
                + plan.cpus[compilations(all.take(i)) - 1] + ": "@;
            all[i].report == if i == 0 {
                Seq::empty()
            } else {
                match events[i - 1] {
                    EventView::CargoFailed { report } => report + "\n"@,
                    EventView::MessageReceived { message } => match message {
                        MessageView::Compiler { rendered: Some(text) } => text,
                        MessageView::Malformed { report } => failed + report + "\n"@,
                        MessageView::Failure { report } => failed + report + "\n"@,
                        _ => Seq::empty(),
                    },
                    _ => Seq::empty(),
                }
            }
        }),
{
    lemma_opening(plan);
    lemma_steps(plan, 0, opening(plan), events);
    let all = steps(opening(plan), events);
    if i > 0 {
        assert(in_reply(plan, compilations(all.take(i)), events[i - 1], all[i]));
    } else {
        assert(all[0] == opening(plan));
    }
}

/// Whatever happens, a session waits for what can come of the action that it asked
/// for, and for nothing else.
pub proof fn sessions_wait_for_what_they_asked_for(
    plan: PlanView,
    events: Seq<EventView>,
    i: int,
    event: EventView,
)
    requires
        expected(opening(plan), events),
        0 <= i <= events.len(),
    ensures
        ({
            let step = steps(opening(plan), events)[i];
            step.session.expects(event) <==> match step.action {
                ActionView::Compile { .. } => event is CargoStarted || event is CargoFailed,
                ActionView::AwaitMessage => event is MessageReceived || event is MessagesEnded,
                ActionView::ReadExecutable { .. } => event is ExecutableRead
                    || event is ExecutableUnreadable,
                ActionView::QueryFeatures { .. } => event is FeaturesReported
                    || event is FeaturesUnknown,
                ActionView::Finish { .. } => false,
                ActionView::Fail { .. } => false,
            }
        }),
{
    lemma_opening(plan);
    lemma_steps(plan, 0, opening(plan), events);
    let all = steps(opening(plan), events);
    assert(in_tune(plan, compilations(all.take(i)), all[i]));
}

} // verus!
