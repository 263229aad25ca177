use cargo_multivers::cargo::{
    announced_executable, select, standard_library_args, Artifact, Invocation, Message, Selection,
};
use cargo_multivers::cli::{Args, Features};
use cargo_multivers::error::Error;
use cargo_multivers::plan::{cpus_question, cpus_to_build, select_cpus, Plan};
use cargo_multivers::runner::{
    bracketed, builds_path, create_runner_crate, found_runner, manifest_path, output_directory,
    runner_invocation, search_runner, size_note, Search,
};
use cargo_multivers::session::{Action, Event, Session, Step};
use cargo_multivers::target::Triple;

fn owned(list: &[&str]) -> Vec<String> {
    list.iter().map(|s| s.to_string()).collect()
}

fn args() -> Args {
    Args {
        target: None,
        rebuild_std: false,
        print: None,
        cpus: None,
        exclude_cpu_features: None,
        features: Features {
            all_features: false,
            no_default_features: false,
            features: owned(&["f1", "f2"]),
        },
        args: vec![],
    }
}

fn plan(args: &Args, cpus: &[&str]) -> Plan {
    Plan::new(args, "t", owned(cpus), "dir", "Cargo.toml", "-O")
}

fn binary(path: &str) -> Message {
    Message::Artifact {
        artifact: Artifact {
            test: false,
            crate_types: owned(&["bin"]),
            kind: owned(&["bin"]),
            filenames: owned(&[path, "other"]),
        },
    }
}

fn advance(step: Step, event: Event) -> Step {
    assert!(step.session.expects(&event));
    step.session.next(event)
}

fn received(message: Message) -> Event {
    Event::MessageReceived { message }
}

fn compiled_cpu(step: &Step) -> String {
    match &step.action {
        Action::Compile { announcement, .. } => announcement.clone(),
        _ => panic!("no run of cargo"),
    }
}

#[test]
fn executables_are_programs_not_built_for_tests() {
    assert_eq!(announced_executable(&binary("p")), Some("p".to_string()));
    let other = |test: bool, types: &[&str], kind: &[&str], files: &[&str]| Message::Artifact {
        artifact: Artifact {
            test,
            crate_types: owned(types),
            kind: owned(kind),
            filenames: owned(files),
        },
    };
    assert_eq!(announced_executable(&other(true, &["bin"], &["bin"], &["p"])), None);
    assert_eq!(announced_executable(&other(false, &["lib"], &["bin"], &["p"])), None);
    assert_eq!(announced_executable(&other(false, &["bin"], &["example"], &["p"])), None);
    assert_eq!(announced_executable(&other(false, &["bin", "lib"], &["bin"], &["p"])), None);
    assert_eq!(announced_executable(&other(false, &["bin"], &[], &["p"])), None);
    assert_eq!(announced_executable(&other(false, &["bin"], &["bin"], &[])), None);
    assert_eq!(announced_executable(&Message::Other), None);
}

#[test]
fn selections_follow_the_options() {
    let mut features = Features {
        all_features: false,
        no_default_features: false,
        features: owned(&["a", "b"]),
    };
    match select(&features) {
        Selection::List { features } => assert_eq!(features, "a b"),
        _ => panic!("no list"),
    }
    features.no_default_features = true;
    assert!(matches!(select(&features), Selection::NoDefault));
    features.all_features = true;
    assert!(matches!(select(&features), Selection::All));
    assert_eq!(standard_library_args(true), owned(&["-Zbuild-std=std"]));
    assert_eq!(standard_library_args(false), owned(&[]));
}

#[test]
fn only_usable_cpus_are_selected() {
    let x86_64 = Triple::parse("x86_64-pc-windows-msvc").unwrap();
    let aarch64 = Triple::parse("aarch64-unknown-linux-gnu").unwrap();
    let cpus = owned(&["znver3", "k6", "haswell", "yonah"]);
    assert_eq!(select_cpus(&x86_64, &cpus), owned(&["znver3", "haswell"]));
    assert_eq!(select_cpus(&aarch64, &cpus), cpus);
}

#[test]
fn cpus_to_build_are_the_usable_ones_of_the_considered_ones() {
    let list = || Ok(b"Available CPUs:\n    native\n    k6\n    haswell\n    znver3\n".to_vec());
    let failed = || Err("no cargo".to_string());
    let x86_64 = "x86_64-unknown-linux-gnu";
    let mut args = args();
    assert_eq!(
        cpus_question(&args, x86_64).unwrap(),
        Some(owned(&["rustc", "--", "--print", "target-cpus", "--target", x86_64]))
    );
    assert_eq!(
        cpus_to_build(&args, x86_64, list()).unwrap(),
        owned(&["haswell", "znver3"])
    );
    assert_eq!(
        cpus_to_build(&args, "i686-unknown-linux-gnu", list()).unwrap(),
        owned(&["k6", "haswell", "znver3"])
    );
    let error = cpus_to_build(&args, x86_64, failed()).unwrap_err();
    assert!(matches!(error, Error::UnknownCpus { .. }));
    assert_eq!(error.cause(), Some("no cargo".to_string()));
    let error = cpus_to_build(&args, "toaster-unknown", failed()).unwrap_err();
    assert!(matches!(error, Error::InvalidTarget { .. }));
    assert_eq!(
        error.cause(),
        Some("Unrecognized architecture: toaster".to_string())
    );
    let error = cpus_question(&args, "toaster-unknown").unwrap_err();
    assert!(matches!(error, Error::InvalidTarget { .. }));
    args.cpus = Some(owned(&["yonah", "x86-64", "k6"]));
    assert_eq!(cpus_question(&args, x86_64).unwrap(), None);
    assert_eq!(
        cpus_to_build(&args, x86_64, failed()).unwrap(),
        owned(&["x86-64"])
    );
}

#[test]
fn session_runs_cargo_once_per_cpu_in_order() {
    let mut step = Session::start(plan(&args(), &["a", "b", "c"]));
    let mut values = vec![];
    loop {
        let event = match step.action {
            Action::Compile { invocation, .. } => {
                assert_eq!(invocation.target, Some("t".to_string()));
                values.push(invocation.value);
                Event::CargoStarted
            }
            Action::AwaitMessage => Event::MessagesEnded,
            _ => break,
        };
        assert!(step.session.expects(&event));
        step = step.session.next(event);
    }
    assert_eq!(
        values,
        owned(&["-O -Ctarget-cpu=a", "-O -Ctarget-cpu=b", "-O -Ctarget-cpu=c"])
    );
}

#[test]
fn runs_of_cargo_follow_the_plan() {
    let run = plan(&args(), &["a"]).invocation("a");
    assert!(run.release);
    assert_eq!(run.target, Some("t".to_string()));
    assert_eq!(run.target_dir, "dir");
    assert_eq!(run.manifest_path, "Cargo.toml");
    assert_eq!(run.variable, "RUSTFLAGS");
    assert_eq!(run.value, "-O -Ctarget-cpu=a");
    assert_eq!(run.args, owned(&[]));
    match run.features {
        Some(Selection::List { features }) => assert_eq!(features, "f1 f2"),
        _ => panic!("no list"),
    }
    let mut args = args();
    args.rebuild_std = true;
    args.args = owned(&["--locked"]);
    args.exclude_cpu_features = Some(owned(&["avx", "sse4a"]));
    let plan = plan(&args, &["a"]);
    let run = plan.invocation("a");
    assert_eq!(run.args, owned(&["-Zbuild-std=std", "--locked"]));
    assert_eq!(run.value, "-O -Ctarget-cpu=a -Ctarget-feature=-avx,-sse4a");
    assert_eq!(
        plan.needed_features(b"target_feature=\"sse\"\ntarget_feature=\"avx\"\n"),
        owned(&["sse"])
    );
    assert_eq!(plan.cpu_count(), 1);
    assert_eq!(plan.cpu(0), "a");
    assert_eq!(plan.target(), "t");
    assert_eq!(
        Plan::new(&args, "t", vec![], "d", "m", "").flags("x"),
        " -Ctarget-cpu=x -Ctarget-feature=-avx,-sse4a"
    );
}

#[test]
fn nothing_is_excluded_by_default() {
    let plan = plan(&args(), &["a"]);
    assert_eq!(plan.flags("a"), "-O -Ctarget-cpu=a");
    assert_eq!(
        plan.needed_features(b"target_feature=\"sse\"\ntarget_feature=\"avx\"\n"),
        owned(&["sse", "avx"])
    );
}

#[test]
fn session_without_cpus_is_over_at_once() {
    match Session::start(plan(&args(), &[])).action {
        Action::Finish { builds } => assert_eq!(builds.len(), 0),
        _ => panic!("not over"),
    }
}

#[test]
fn session_collects_builds_and_passes_over_failures() {
    let step = Session::start(plan(&args(), &["a", "b", "c", "d"]));
    assert_eq!(compiled_cpu(&step), "    Building for target=t target-cpu=a");
    assert_eq!(step.report, "");
    assert!(!step.session.expects(&Event::MessagesEnded));

    let step = advance(step, Event::CargoStarted);
    assert!(matches!(step.action, Action::AwaitMessage));
    let step = advance(step, received(Message::Other));
    assert_eq!(step.report, "");
    let step = advance(
        step,
        received(Message::Compiler {
            rendered: Some("warning\n".to_string()),
        }),
    );
    assert_eq!(step.report, "warning\n");
    let step = advance(step, received(Message::Compiler { rendered: None }));
    assert_eq!(step.report, "");
    let step = advance(
        step,
        received(Message::Malformed {
            report: "bad".to_string(),
        }),
    );
    assert_eq!(
        step.report,
        "    Failed to build for target=t target-cpu=a: bad\n"
    );
    let step = advance(step, received(binary("path/a")));
    match &step.action {
        Action::ReadExecutable { path } => assert_eq!(path, "path/a"),
        _ => panic!("no executable"),
    }
    let step = advance(step, Event::ExecutableRead { bytes: vec![1] });
    match &step.action {
        Action::QueryFeatures { args } => assert_eq!(
            args,
            &owned(&["rustc", "--", "--print", "cfg", "--target", "t", "-Ctarget-cpu=a"])
        ),
        _ => panic!("no question"),
    }
    let step = advance(
        step,
        Event::FeaturesReported {
            output: b"target_feature=\"sse\"\n".to_vec(),
        },
    );
    assert_eq!(compiled_cpu(&step), "    Building for target=t target-cpu=b");

    let step = advance(
        step,
        Event::CargoFailed {
            report: "no cargo".to_string(),
        },
    );
    assert_eq!(step.report, "no cargo\n");
    assert_eq!(compiled_cpu(&step), "    Building for target=t target-cpu=c");

    let step = advance(step, Event::CargoStarted);
    let step = advance(
        step,
        received(Message::Failure {
            report: "broken".to_string(),
        }),
    );
    assert_eq!(
        step.report,
        "    Failed to build for target=t target-cpu=c: broken\n"
    );
    let step = advance(step, Event::MessagesEnded);
    assert_eq!(step.report, "");
    assert_eq!(compiled_cpu(&step), "    Building for target=t target-cpu=d");

    let step = advance(step, Event::CargoStarted);
    let step = advance(step, received(binary("path/d")));
    let step = advance(step, Event::ExecutableRead { bytes: vec![4] });
    let step = advance(
        step,
        Event::FeaturesReported {
            output: b"target_feature=\"sse\"\ntarget_feature=\"avx\"\n".to_vec(),
        },
    );
    assert!(!step.session.expects(&Event::CargoStarted));
    match step.action {
        Action::Finish { builds } => {
            assert_eq!(builds.len(), 2);
            assert_eq!(builds[0].bytes(), &vec![4]);
            assert_eq!(builds[0].required_cpu_features(), &owned(&["sse", "avx"]));
            assert_eq!(builds[1].bytes(), &vec![1]);
            assert_eq!(builds[1].required_cpu_features(), &owned(&["sse"]));
        }
        _ => panic!("not over"),
    }
}

#[test]
fn session_gives_up_on_an_unreadable_executable() {
    let step = Session::start(plan(&args(), &["a", "b"]));
    let step = advance(step, Event::CargoStarted);
    let step = advance(step, received(binary("p")));
    let step = advance(
        step,
        Event::ExecutableUnreadable {
            cause: "gone".to_string(),
        },
    );
    match step.action {
        Action::Fail { error } => {
            assert!(matches!(error, Error::UnreadableExecutable { .. }));
            assert_eq!(error.message(), "Failed to read the executable `p`");
            assert_eq!(error.cause(), Some("gone".to_string()));
        }
        _ => panic!("not over"),
    }
}

#[test]
fn session_gives_up_on_unknown_features() {
    let step = Session::start(plan(&args(), &["a", "b"]));
    let step = advance(step, Event::CargoStarted);
    let step = advance(step, received(binary("p")));
    let step = advance(step, Event::ExecutableRead { bytes: vec![] });
    let step = advance(
        step,
        Event::FeaturesUnknown {
            cause: "no cargo".to_string(),
        },
    );
    match step.action {
        Action::Fail { error } => {
            assert!(matches!(error, Error::UnknownFeatures { .. }));
            assert_eq!(error.message(), "no cargo");
            assert_eq!(error.cause(), None);
        }
        _ => panic!("not over"),
    }
}

#[test]
fn runner_crate_is_laid_out() {
    assert_eq!(output_directory(), "cargo-multivers");
    assert_eq!(builds_path("tool"), owned(&["tool", "builds.bin"]));
    assert_eq!(manifest_path(), owned(&["multivers-runner", "Cargo.toml"]));
    let files = create_runner_crate(vec![1], vec![2], vec![3]);
    assert_eq!(files.len(), 3);
    assert_eq!(files[0].path, owned(&["multivers-runner", "src", "main.rs"]));
    assert_eq!(files[0].contents, vec![1]);
    assert_eq!(files[1].path, owned(&["multivers-runner", "src", "build.rs"]));
    assert_eq!(files[1].contents, vec![2]);
    assert_eq!(files[2].path, manifest_path());
    assert_eq!(files[2].contents, vec![3]);
}

#[test]
fn runner_is_built_around_the_builds() {
    let run: Invocation = runner_invocation(true, "dir", "m", "b");
    assert!(run.release);
    assert_eq!(run.target, None);
    assert_eq!(run.target_dir, "dir");
    assert_eq!(run.manifest_path, "m");
    assert_eq!(run.variable, "CARGO_MULTIVERS_BUILDS_PATH");
    assert_eq!(run.value, "b");
    assert_eq!(run.args, owned(&["-Zbuild-std=std"]));
    assert!(run.features.is_none());
    assert_eq!(runner_invocation(false, "dir", "m", "b").args, owned(&[]));
}

fn report(message: Message) -> String {
    match search_runner(&message) {
        Search::Continue { report } => report,
        Search::Found { .. } => panic!("found"),
    }
}

#[test]
fn runner_is_searched_for() {
    match search_runner(&binary("runner")) {
        Search::Found { path } => assert_eq!(path, "runner"),
        Search::Continue { .. } => panic!("not found"),
    }
    let text = || "text".to_string();
    assert_eq!(report(Message::Other), "");
    assert_eq!(report(Message::Compiler { rendered: Some(text()) }), "");
    assert_eq!(report(Message::Malformed { report: text() }), "text\n");
    assert_eq!(report(Message::Failure { report: text() }), "text\n");
    assert_eq!(found_runner(Some(text())).unwrap(), "text");
    let error = found_runner(None).unwrap_err();
    assert!(matches!(error, Error::NoRunner));
    assert_eq!(error.message(), "Failed to build the runner");
    assert_eq!(error.cause(), None);
}

#[test]
fn sizes_are_noted_in_decimal_units() {
    assert_eq!(size_note(999), " [999 B]");
    assert_eq!(size_note(1_500_000), " [1.50 MB]");
    assert_eq!(bracketed("x"), " [x]");
}

#[test]
fn failures_around_the_builds_are_reported() {
    let cause = || "why".to_string();
    let path = "p/builds.bin".to_string();
    let errors = [
        (
            Error::UnknownPackages { cause: cause() },
            "Failed to execute `cargo metadata`",
        ),
        (
            Error::NoOutputDirectory { cause: cause() },
            "Failed to create temporary output directory",
        ),
        (
            Error::UnwrittenBuilds { path, cause: cause() },
            "Failed to write to `p/builds.bin`",
        ),
        (
            Error::UnwrittenRunner { cause: cause() },
            "Failed to generate the source files of the runner",
        ),
        (
            Error::UnstartedRunner { cause: cause() },
            "Failed to execute cargo to build the runner",
        ),
    ];
    for (error, message) in errors {
        assert_eq!(error.message(), message);
        assert_eq!(error.cause(), Some(cause()));
    }
}
