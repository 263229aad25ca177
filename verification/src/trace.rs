//! What a whole launch does.

use crate::launch::DllView;
use crate::launch::EXECUTABLE_MODE;
use crate::launch::LaunchActionView;
use crate::launch::LaunchEventView;
use crate::launch::LaunchPhase;
use crate::launch::LaunchStepView;
use crate::launch::LaunchView;
use crate::launch::bunzip_outcome;
use vstd::prelude::*;

verus! {

/// The first step of a launch.
pub open spec fn first_step(unix: bool, dlls: Seq<DllView>) -> LaunchStepView {
    LaunchStepView {
        launch: LaunchView {
            unix,
            path: Seq::empty(),
            dlls,
            phase: LaunchPhase::CreatingDirectory,
        },
        action: LaunchActionView::CreateDirectory { prefix: "tg_multivers_"@ },
    }
}

/// The actions that a launch asks for while events come in.
pub open spec fn actions(step: LaunchStepView, events: Seq<LaunchEventView>) -> Seq<
    LaunchActionView,
>
    decreases events.len(),
{
    if events.len() == 0 {
        seq![step.action]
    } else {
        seq![step.action] + actions(step.launch.next(events.first()), events.drop_first())
    }
}

/// Whether the launch waits for each of the events when it comes.
pub open spec fn awaited(step: LaunchStepView, events: Seq<LaunchEventView>) -> bool
    decreases events.len(),
{
    events.len() > 0 ==> step.launch.expects(events.first()) && awaited(
        step.launch.next(events.first()),
        events.drop_first(),
    )
}

/// Whether all libraries can be decompressed.
pub open spec fn all_decompress(dlls: Seq<DllView>) -> bool {
    forall|i: int| 0 <= i < dlls.len() ==> bunzip_outcome((#[trigger] dlls[i]).compressed) is Some
}

/// The actions that put the executable in place.
pub open spec fn executable_actions(unix: bool) -> Seq<LaunchActionView> {
    let created = seq![
        LaunchActionView::CreateDirectory { prefix: "tg_multivers_"@ },
        LaunchActionView::CreateExecutable,
    ];
    let restricted = if unix {
        seq![
            LaunchActionView::ReadPermissions,
            LaunchActionView::SetPermissions { mode: EXECUTABLE_MODE },
        ]
    } else {
        Seq::empty()
    };
    created + restricted + seq![
        LaunchActionView::WriteExecutable,
        LaunchActionView::CloseExecutable,
    ]
}

/// The actions that put the libraries from the `i`th on in place.
pub open spec fn dll_actions(dlls: Seq<DllView>, i: int) -> Seq<LaunchActionView>
    decreases dlls.len() - i,
{
    if i >= dlls.len() {
        Seq::empty()
    } else {
        seq![
            LaunchActionView::CreateDll { name: dlls[i].name },
            LaunchActionView::WriteDll {
                contents: bunzip_outcome(dlls[i].compressed)->0,
            },
        ] + dll_actions(dlls, i + 1)
    }
}

/// The number of actions between the creation of the directory and the run.
pub open spec fn preparations(unix: bool, dlls: Seq<DllView>) -> nat {
    (if unix {
        5nat
    } else {
        3nat
    }) + 2 * dlls.len()
}

/// Events without a failure, up to the end of the process. `removed` tells
/// whether the directory could be removed.
pub open spec fn smooth_events(
    path: Seq<char>,
    preparations: nat,
    code: i32,
    removed: LaunchEventView,
) -> Seq<LaunchEventView> {
    seq![LaunchEventView::DirectoryCreated { path }] + Seq::new(
        preparations,
        |i: int| LaunchEventView::Done,
    ) + seq![LaunchEventView::Exited { code }, removed]
}

proof fn lemma_take_event(step: LaunchStepView, event: LaunchEventView, rest: Seq<LaunchEventView>)
    ensures
        actions(step, seq![event] + rest) == seq![step.action] + actions(
            step.launch.next(event),
            rest,
        ),
        awaited(step, seq![event] + rest) <==> step.launch.expects(event) && awaited(
            step.launch.next(event),
            rest,
        ),
{
    assert((seq![event] + rest).drop_first() =~= rest);
    assert((seq![event] + rest).first() == event);
}

/// `n` successes.
spec fn successes(n: nat) -> Seq<LaunchEventView> {
    Seq::new(n, |i: int| LaunchEventView::Done)
}

proof fn lemma_successes(n: nat, rest: Seq<LaunchEventView>)
    requires
        n > 0,
    ensures
        successes(n) + rest == seq![LaunchEventView::Done] + (successes((n - 1) as nat) + rest),
{
    assert(successes(n) + rest =~= seq![LaunchEventView::Done] + (successes((n - 1) as nat)
        + rest));
}

proof fn lemma_smooth_end(launch: LaunchView, code: i32, removed: LaunchEventView)
    requires
        removed is Done || removed is Failed,
    ensures
        ({
            let step = launch.wait(LaunchPhase::Running, LaunchActionView::Run);
            let events = seq![LaunchEventView::Exited { code }, removed];
            &&& awaited(step, events)
            &&& actions(step, events) == seq![
                LaunchActionView::Run,
                LaunchActionView::RemoveDirectory,
                LaunchActionView::Exit { code },
            ]
        }),
{
    let step = launch.wait(LaunchPhase::Running, LaunchActionView::Run);
    let exited = LaunchEventView::Exited { code };
    let none = Seq::<LaunchEventView>::empty();
    let removing = step.launch.next(exited);
    let over = removing.launch.next(removed);
    lemma_take_event(step, exited, seq![removed]);
    lemma_take_event(removing, removed, none);
    assert(seq![removed] + none =~= seq![removed]);
    assert(seq![exited] + seq![removed] =~= seq![exited, removed]);
    assert(actions(over, none) == seq![over.action]);
    assert(actions(step, seq![exited, removed]) =~= seq![
        LaunchActionView::Run,
        LaunchActionView::RemoveDirectory,
        LaunchActionView::Exit { code },
    ]);
}

proof fn lemma_smooth_dlls(launch: LaunchView, i: nat, code: i32, removed: LaunchEventView)
    requires
        launch.valid(),
        i <= launch.dlls.len(),
        all_decompress(launch.dlls),
        removed is Done || removed is Failed,
    ensures
        ({
            let step = launch.reach_dll(i);
            let events = successes((2 * (launch.dlls.len() - i)) as nat) + seq![
                LaunchEventView::Exited { code },
                removed,
            ];
            &&& awaited(step, events)
            &&& actions(step, events) == dll_actions(launch.dlls, i as int) + seq![
                LaunchActionView::Run,
                LaunchActionView::RemoveDirectory,
                LaunchActionView::Exit { code },
            ]
        }),
    decreases launch.dlls.len() - i,
{
    let end = seq![LaunchEventView::Exited { code }, removed];
    let last = seq![
        LaunchActionView::Run,
        LaunchActionView::RemoveDirectory,
        LaunchActionView::Exit { code },
    ];
    let n = (2 * (launch.dlls.len() - i)) as nat;
    let step = launch.reach_dll(i);
    if i == launch.dlls.len() {
        assert(successes(n) + end =~= end);
        assert(dll_actions(launch.dlls, i as int) + last =~= last);
        lemma_smooth_end(launch, code, removed);
    } else {
        let created = step.launch.next(LaunchEventView::Done);
        let written = created.launch.next(LaunchEventView::Done);
        assert(bunzip_outcome(launch.dlls[i as int].compressed) is Some);
        assert(written == created.launch.reach_dll(i + 1));
        lemma_smooth_dlls(created.launch, i + 1, code, removed);
        lemma_successes(n, end);
        lemma_successes((n - 1) as nat, end);
        lemma_take_event(step, LaunchEventView::Done, successes((n - 1) as nat) + end);
        lemma_take_event(created, LaunchEventView::Done, successes((n - 2) as nat) + end);
        assert(actions(step, successes(n) + end) =~= dll_actions(launch.dlls, i as int) + last);
    }
}

/// When nothing fails, a launch puts the executable in place and closes it,
/// puts the libraries in place one after the other, runs the executable, removes
/// the directory and exits with the code of the process. That the directory
/// cannot be removed changes nothing.
pub proof fn smooth_launch(
    unix: bool,
    dlls: Seq<DllView>,
    path: Seq<char>,
    code: i32,
    removed: LaunchEventView,
)
    requires
        dlls.len() <= usize::MAX,
        all_decompress(dlls),
        removed is Done || removed is Failed,
    ensures
        awaited(
            first_step(unix, dlls),
            smooth_events(path, preparations(unix, dlls), code, removed),
        ),
        actions(
            first_step(unix, dlls),
            smooth_events(path, preparations(unix, dlls), code, removed),
        ) == executable_actions(unix) + dll_actions(dlls, 0) + seq![
            LaunchActionView::Run,
            LaunchActionView::RemoveDirectory,
            LaunchActionView::Exit { code },
        ],
{
    let done = LaunchEventView::Done;
    let created = LaunchEventView::DirectoryCreated { path };
    let end = seq![LaunchEventView::Exited { code }, removed];
    let last = seq![
        LaunchActionView::Run,
        LaunchActionView::RemoveDirectory,
        LaunchActionView::Exit { code },
    ];
    let n = preparations(unix, dlls);
    let s0 = first_step(unix, dlls);
    let s1 = s0.launch.next(created);
    let s2 = s1.launch.next(done);
    assert(smooth_events(path, n, code, removed) =~= seq![created] + (successes(n) + end));
    lemma_take_event(s0, created, successes(n) + end);
    lemma_successes(n, end);
    lemma_take_event(s1, done, successes((n - 1) as nat) + end);
    if unix {
        let s3 = s2.launch.next(done);
        let s4 = s3.launch.next(done);
        let s5 = s4.launch.next(done);
        let s6 = s5.launch.next(done);
        lemma_successes((n - 1) as nat, end);
        lemma_successes((n - 2) as nat, end);
        lemma_successes((n - 3) as nat, end);
        lemma_successes((n - 4) as nat, end);
        lemma_take_event(s2, done, successes((n - 2) as nat) + end);
        lemma_take_event(s3, done, successes((n - 3) as nat) + end);
        lemma_take_event(s4, done, successes((n - 4) as nat) + end);
        lemma_take_event(s5, done, successes((n - 5) as nat) + end);
        lemma_smooth_dlls(s5.launch, 0, code, removed);
        assert(s6 == s5.launch.reach_dll(0));
    } else {
        let s3 = s2.launch.next(done);
        let s4 = s3.launch.next(done);
        lemma_successes((n - 1) as nat, end);
        lemma_successes((n - 2) as nat, end);
        lemma_take_event(s2, done, successes((n - 2) as nat) + end);
        lemma_take_event(s3, done, successes((n - 3) as nat) + end);
        lemma_smooth_dlls(s3.launch, 0, code, removed);
        assert(s4 == s3.launch.reach_dll(0));
    }
    assert(actions(s0, smooth_events(path, n, code, removed)) =~= executable_actions(unix)
        + dll_actions(dlls, 0) + last);
}

/// Nothing can happen to a launch that is over.
pub proof fn nothing_follows_the_end(step: LaunchStepView, events: Seq<LaunchEventView>)
    requires
        step.launch.phase is Over,
        awaited(step, events),
    ensures
        events.len() == 0,
        actions(step, events) == seq![step.action],
{
}

/// What comes of the next event if the executable is run in the end.
proof fn lemma_on_the_way(step: LaunchStepView, events: Seq<LaunchEventView>)
    requires
        awaited(step, events),
        actions(step, events).last() is Run,
        step.action !is Run,
    ensures
        events.len() > 0,
        events.first() !is Failed || step.launch.phase is RemovingDirectory,
        actions(step, events) == seq![step.action] + actions(
            step.launch.next(events.first()),
            events.drop_first(),
        ),
        awaited(step.launch.next(events.first()), events.drop_first()),
        actions(step.launch.next(events.first()), events.drop_first()).last() is Run,
{
    if events.len() > 0 {
        let after = step.launch.next(events.first());
        lemma_actions_len(after, events.drop_first());
        if events.first() is Failed && step.launch.phase !is RemovingDirectory {
            nothing_follows_the_end(after, events.drop_first());
        }
    }
}

proof fn lemma_actions_len(step: LaunchStepView, events: Seq<LaunchEventView>)
    ensures
        actions(step, events).len() == events.len() + 1,
    decreases events.len(),
{
    if events.len() > 0 {
        lemma_actions_len(step.launch.next(events.first()), events.drop_first());
    }
}

/// A launch that has run the executable does not run it again.
proof fn lemma_running(launch: LaunchView, events: Seq<LaunchEventView>)
    requires
        awaited(launch.wait(LaunchPhase::Running, LaunchActionView::Run), events),
        actions(launch.wait(LaunchPhase::Running, LaunchActionView::Run), events).last() is Run,
    ensures
        actions(launch.wait(LaunchPhase::Running, LaunchActionView::Run), events) == seq![
            LaunchActionView::Run,
        ],
{
    let step = launch.wait(LaunchPhase::Running, LaunchActionView::Run);
    if events.len() > 0 {
        let after = step.launch.next(events.first());
        let rest = events.drop_first();
        lemma_actions_len(after, rest);
        if events.first() is Failed {
            nothing_follows_the_end(after, rest);
        } else {
            lemma_on_the_way(after, rest);
            let over = after.launch.next(rest.first());
            nothing_follows_the_end(over, rest.drop_first());
        }
    }
}

proof fn lemma_dlls_on_the_way(launch: LaunchView, i: nat, events: Seq<LaunchEventView>)
    requires
        launch.valid(),
        i <= launch.dlls.len(),
        awaited(launch.reach_dll(i), events),
        actions(launch.reach_dll(i), events).last() is Run,
    ensures
        actions(launch.reach_dll(i), events) == dll_actions(launch.dlls, i as int) + seq![
            LaunchActionView::Run,
        ],
        forall|j: int|
            i <= j < launch.dlls.len() ==> bunzip_outcome(
                (#[trigger] launch.dlls[j]).compressed,
            ) is Some,
    decreases launch.dlls.len() - i,
{
    let step = launch.reach_dll(i);
    if i == launch.dlls.len() {
        lemma_running(launch, events);
        assert(dll_actions(launch.dlls, i as int) + seq![LaunchActionView::Run] =~= seq![
            LaunchActionView::Run,
        ]);
    } else {
        lemma_on_the_way(step, events);
        let created = step.launch.next(events.first());
        let rest = events.drop_first();
        if bunzip_outcome(launch.dlls[i as int].compressed) is None {
            nothing_follows_the_end(created, rest);
        } else {
            lemma_on_the_way(created, rest);
            assert(created.launch.next(rest.first()) == created.launch.reach_dll(i + 1));
            lemma_dlls_on_the_way(created.launch, i + 1, rest.drop_first());
        }
        assert(actions(step, events) =~= dll_actions(launch.dlls, i as int) + seq![
            LaunchActionView::Run,
        ]);
    }
}

/// Whatever happens, the executable is run only once it is written and closed
/// and every library is decompressed and written.
pub proof fn run_only_when_all_is_in_place(
    unix: bool,
    dlls: Seq<DllView>,
    events: Seq<LaunchEventView>,
)
    requires
        dlls.len() <= usize::MAX,
        awaited(first_step(unix, dlls), events),
        actions(first_step(unix, dlls), events).last() is Run,
    ensures
        actions(first_step(unix, dlls), events) == executable_actions(unix) + dll_actions(dlls, 0)
            + seq![LaunchActionView::Run],
        all_decompress(dlls),
{
    let s0 = first_step(unix, dlls);
    lemma_on_the_way(s0, events);
    let s1 = s0.launch.next(events.first());
    let e1 = events.drop_first();
    lemma_on_the_way(s1, e1);
    let s2 = s1.launch.next(e1.first());
    let e2 = e1.drop_first();
    lemma_on_the_way(s2, e2);
    let s3 = s2.launch.next(e2.first());
    let e3 = e2.drop_first();
    lemma_on_the_way(s3, e3);
    let s4 = s3.launch.next(e3.first());
    let e4 = e3.drop_first();
    if unix {
        lemma_on_the_way(s4, e4);
        let s5 = s4.launch.next(e4.first());
        let e5 = e4.drop_first();
        lemma_on_the_way(s5, e5);
        assert(s5.launch.next(e5.first()) == s5.launch.reach_dll(0));
        lemma_dlls_on_the_way(s5.launch, 0, e5.drop_first());
    } else {
        assert(s4 == s3.launch.reach_dll(0));
        lemma_dlls_on_the_way(s3.launch, 0, e4);
    }
    assert(actions(s0, events) =~= executable_actions(unix) + dll_actions(dlls, 0) + seq![
        LaunchActionView::Run,
    ]);
}

/// The step that events lead to, one after the other.
pub open spec fn reached(step: LaunchStepView, events: Seq<LaunchEventView>) -> LaunchStepView
    decreases events.len(),
{
    if events.len() == 0 {
        step
    } else {
        reached(step, events.drop_last()).launch.next(events.last())
    }
}

proof fn lemma_reached_first(step: LaunchStepView, events: Seq<LaunchEventView>)
    requires
        events.len() > 0,
    ensures
        reached(step, events) == reached(step.launch.next(events.first()), events.drop_first()),
    decreases events.len(),
{
    if events.len() > 1 {
        lemma_reached_first(step, events.drop_last());
        assert(events.drop_last().first() == events.first());
        assert(events.drop_last().drop_first() =~= events.drop_first().drop_last());
        assert(events.drop_first().last() == events.last());
    } else {
        assert(events.drop_last() =~= Seq::empty());
        assert(events.drop_first() =~= Seq::empty());
        assert(reached(step, events.drop_last()) == step);
        assert(events.last() == events.first());
    }
}

proof fn lemma_awaited_last(step: LaunchStepView, events: Seq<LaunchEventView>)
    requires
        awaited(step, events),
        events.len() > 0,
    ensures
        awaited(step, events.drop_last()),
        reached(step, events.drop_last()).launch.expects(events.last()),
    decreases events.len(),
{
    if events.len() > 1 {
        let next = step.launch.next(events.first());
        lemma_awaited_last(next, events.drop_first());
        lemma_reached_first(step, events.drop_last());
        assert(events.drop_last().first() == events.first());
        assert(events.drop_last().drop_first() =~= events.drop_first().drop_last());
        assert(events.drop_first().last() == events.last());
    } else {
        assert(events.drop_last() =~= Seq::empty());
        assert(reached(step, events.drop_last()) == step);
        assert(events.last() == events.first());
    }
}

/// The last of the actions that a launch asks for is that of the step it has
/// reached.
pub proof fn last_action_is_that_of_the_last_step(
    step: LaunchStepView,
    events: Seq<LaunchEventView>,
)
    ensures
        actions(step, events).last() == reached(step, events).action,
    decreases events.len(),
{
    if events.len() > 0 {
        let next = step.launch.next(events.first());
        last_action_is_that_of_the_last_step(next, events.drop_first());
        lemma_reached_first(step, events);
        lemma_actions_len(next, events.drop_first());
    }
}

/// What holds of the step that a launch has reached.
spec fn on_course(unix: bool, dlls: Seq<DllView>, events: Seq<LaunchEventView>) -> bool {
    let step = reached(first_step(unix, dlls), events);
    let before = reached(first_step(unix, dlls), events.drop_last());
    let launch = step.launch;
    &&& launch.unix == unix
    &&& launch.dlls == dlls
    &&& launch.valid()
    &&& events.len() > 0 ==> (events[0] matches LaunchEventView::DirectoryCreated { path }
        ==> launch.path == path)
    &&& match launch.phase {
        LaunchPhase::CreatingDirectory => events.len() == 0 && step.action == (
        LaunchActionView::CreateDirectory { prefix: "tg_multivers_"@ }),
        LaunchPhase::CreatingExecutable => step.action is CreateExecutable,
        LaunchPhase::ReadingPermissions => unix && step.action is ReadPermissions,
        LaunchPhase::SettingPermissions => unix && step.action == (
        LaunchActionView::SetPermissions { mode: 0o700 }),
        LaunchPhase::WritingExecutable => step.action is WriteExecutable,
        LaunchPhase::ClosingExecutable => step.action is CloseExecutable,
        LaunchPhase::CreatingDll { i } => step.action == (LaunchActionView::CreateDll {
            name: dlls[i as int].name,
        }),
        LaunchPhase::WritingDll { i } => events.len() > 0 && before.action == (
        LaunchActionView::CreateDll { name: dlls[i as int].name }) && bunzip_outcome(
            dlls[i as int].compressed,
        ) is Some && step.action == (LaunchActionView::WriteDll {
            contents: bunzip_outcome(dlls[i as int].compressed)->0,
        }),
        LaunchPhase::Running => step.action is Run,
        LaunchPhase::RemovingDirectory { code } => events.len() > 0 && events.last() == (
        LaunchEventView::Exited { code }) && before.action is Run && step.action is RemoveDirectory,
        LaunchPhase::Over => events.len() > 0 && (step.action is Exit || step.action is Fail),
    }
    &&& launch.phase !is CreatingDirectory && launch.phase !is Over ==> events[0] is DirectoryCreated
}

proof fn lemma_on_course(unix: bool, dlls: Seq<DllView>, events: Seq<LaunchEventView>)
    requires
        dlls.len() <= usize::MAX,
        awaited(first_step(unix, dlls), events),
    ensures
        on_course(unix, dlls, events),
    decreases events.len(),
{
    if events.len() > 0 {
        let before = events.drop_last();
        lemma_awaited_last(first_step(unix, dlls), events);
        lemma_on_course(unix, dlls, before);
        if before.len() > 0 {
            assert(before[0] == events[0]);
        } else {
            assert(reached(first_step(unix, dlls), before) == first_step(unix, dlls));
            assert(events.last() == events[0]);
        }
    }
}

/// Whatever happened before, a failure ends the launch with a message about what
/// was asked for: about the file that could not be written or run by its path, and
/// about a library by its name. Only a directory that cannot be removed does not
/// matter.
pub proof fn failures_end_a_launch_with_their_message(
    unix: bool,
    dlls: Seq<DllView>,
    events: Seq<LaunchEventView>,
)
    requires
        dlls.len() <= usize::MAX,
        events.len() > 0,
        events.last() is Failed,
        awaited(first_step(unix, dlls), events),
    ensures
        ({
            let asked = reached(first_step(unix, dlls), events.drop_last()).action;
            let before = reached(first_step(unix, dlls), events.drop_last().drop_last()).action;
            let now = reached(first_step(unix, dlls), events).action;
            match asked {
                LaunchActionView::CreateDirectory { .. } => now == (LaunchActionView::Fail {
                    message: "Failed to create a temporary directory"@,
                }),
                LaunchActionView::CreateExecutable => now == (LaunchActionView::Fail {
                    message: "Failed to create the temporary executable"@,
                }),
                LaunchActionView::ReadPermissions => now == (LaunchActionView::Fail {
                    message: "Failed to read metadata"@,
                }),
                LaunchActionView::WriteExecutable => events[0] matches
                    LaunchEventView::DirectoryCreated { path } && now == (LaunchActionView::Fail {
                    message: "Failed to write the build to `"@ + path + "`"@,
                }),
                LaunchActionView::CreateDll { name } => now == (LaunchActionView::Fail {
                    message: "Failed to create DLL file `"@ + name + "`"@,
                }),
                LaunchActionView::WriteDll { .. } => before matches LaunchActionView::CreateDll {
                    name,
                } && now == (LaunchActionView::Fail {
                    message: "Failed to decompress DLL `"@ + name + "`"@,
                }),
                LaunchActionView::Run => events[0] matches LaunchEventView::DirectoryCreated {
                    path,
                } && now == (LaunchActionView::Fail {
                    message: "Failed to execute temporary file `"@ + path + "`"@,
                }),
                LaunchActionView::RemoveDirectory => now is Exit,
                _ => false,
            }
        }),
{
    let f = first_step(unix, dlls);
    lemma_awaited_last(f, events);
    lemma_on_course(unix, dlls, events.drop_last());
    if events.drop_last().len() > 0 {
        assert(events.drop_last()[0] == events[0]);
    }
}

/// Whatever happens, a launch gives up only after a failure, or on a library that
/// cannot be decompressed, which it names. It exits only with the code that the
/// process ended with, once the directory was to be removed.
pub proof fn launches_end_for_a_reason(
    unix: bool,
    dlls: Seq<DllView>,
    events: Seq<LaunchEventView>,
)
    requires
        dlls.len() <= usize::MAX,
        events.len() > 0,
        awaited(first_step(unix, dlls), events),
    ensures
        ({
            let asked = reached(first_step(unix, dlls), events.drop_last()).action;
            let now = reached(first_step(unix, dlls), events).action;
            &&& now matches LaunchActionView::Fail { message } ==> events.last() is Failed || (
            asked matches LaunchActionView::CreateDll { name } && message
                == "Failed to decompress DLL `"@ + name + "`"@)
            &&& now matches LaunchActionView::Exit { code } ==> events.len() > 1
                && asked is RemoveDirectory && events[events.len() - 2] == (
            LaunchEventView::Exited { code })
            &&& asked matches LaunchActionView::CreateDll { name } ==> now is WriteDll || now
                is Fail
        }),
{
    let f = first_step(unix, dlls);
    lemma_awaited_last(f, events);
    lemma_on_course(unix, dlls, events.drop_last());
}

/// Whatever happens, a launch waits for what can come of the action that it asked
/// for, and for nothing else. The rights of the executable are set on Unix only,
/// and are all for its owner and none for others.
pub proof fn launches_wait_for_what_they_asked_for(
    unix: bool,
    dlls: Seq<DllView>,
    events: Seq<LaunchEventView>,
    event: LaunchEventView,
)
    requires
        dlls.len() <= usize::MAX,
        awaited(first_step(unix, dlls), events),
    ensures
        ({
            let step = reached(first_step(unix, dlls), events);
            &&& step.launch.expects(event) <==> match step.action {
                LaunchActionView::CreateDirectory { .. } => event is DirectoryCreated
                    || event is Failed,
                LaunchActionView::SetPermissions { .. } => event is Done,
                LaunchActionView::CloseExecutable => event is Done,
                LaunchActionView::Run => event is Exited || event is Failed,
                LaunchActionView::Exit { .. } => false,
                LaunchActionView::Fail { .. } => false,
                _ => event is Done || event is Failed,
            }
            &&& step.action matches LaunchActionView::SetPermissions { mode } ==> unix && mode
                == 0o700
            &&& step.action matches LaunchActionView::CreateDirectory { prefix } ==> prefix
                == "tg_multivers_"@
        }),
{
    lemma_on_course(unix, dlls, events);
}

} // verus!
