use cargo_multivers::launch::{
    default_executable_name, Dll, Launch, LaunchAction, LaunchEvent, LaunchStep,
};
use std::io::Write;

fn compress(data: &[u8]) -> Vec<u8> {
    let mut encoder = bzip2::write::BzEncoder::new(Vec::new(), bzip2::Compression::best());
    encoder.write_all(data).unwrap();
    encoder.finish().unwrap()
}

fn dll(name: &str, compressed: Vec<u8>) -> Dll {
    Dll {
        name: name.to_string(),
        compressed,
    }
}

fn advance(step: LaunchStep, event: LaunchEvent) -> LaunchStep {
    assert!(step.launch.expects(&event));
    step.launch.next(event)
}

fn created() -> LaunchEvent {
    LaunchEvent::DirectoryCreated {
        path: "tmp/app".to_string(),
    }
}

fn failure(step: LaunchStep) -> String {
    match advance(step, LaunchEvent::Failed).action {
        LaunchAction::Fail { message } => message,
        _ => panic!("no failure"),
    }
}

fn written(unix: bool, dlls: Vec<Dll>) -> LaunchStep {
    let step = advance(Launch::start(unix, dlls), created());
    let step = advance(step, LaunchEvent::Done);
    let step = if unix {
        let step = advance(step, LaunchEvent::Done);
        advance(step, LaunchEvent::Done)
    } else {
        step
    };
    assert!(matches!(step.action, LaunchAction::WriteExecutable));
    advance(step, LaunchEvent::Done)
}

#[test]
fn smooth_launch_runs_and_exits() {
    let dlls = vec![dll("a.dll", compress(b"hello")), dll("b.dll", compress(b""))];
    let step = Launch::start(true, dlls);
    match &step.action {
        LaunchAction::CreateDirectory { prefix } => assert_eq!(prefix, "tg_multivers_"),
        _ => panic!("no directory"),
    }
    assert!(!step.launch.expects(&LaunchEvent::Done));
    let step = advance(step, created());
    assert!(matches!(step.action, LaunchAction::CreateExecutable));
    let step = advance(step, LaunchEvent::Done);
    assert!(matches!(step.action, LaunchAction::ReadPermissions));
    let step = advance(step, LaunchEvent::Done);
    assert!(matches!(step.action, LaunchAction::SetPermissions { mode: 0o700 }));
    assert!(!step.launch.expects(&LaunchEvent::Failed));
    let step = advance(step, LaunchEvent::Done);
    assert!(matches!(step.action, LaunchAction::WriteExecutable));
    let step = advance(step, LaunchEvent::Done);
    assert!(matches!(step.action, LaunchAction::CloseExecutable));
    let step = advance(step, LaunchEvent::Done);
    match &step.action {
        LaunchAction::CreateDll { name } => assert_eq!(name, "a.dll"),
        _ => panic!("no library"),
    }
    let step = advance(step, LaunchEvent::Done);
    match &step.action {
        LaunchAction::WriteDll { contents } => assert_eq!(contents, b"hello"),
        _ => panic!("no contents"),
    }
    let step = advance(step, LaunchEvent::Done);
    match &step.action {
        LaunchAction::CreateDll { name } => assert_eq!(name, "b.dll"),
        _ => panic!("no library"),
    }
    let step = advance(step, LaunchEvent::Done);
    match &step.action {
        LaunchAction::WriteDll { contents } => assert_eq!(contents, b""),
        _ => panic!("no contents"),
    }
    let step = advance(step, LaunchEvent::Done);
    assert!(matches!(step.action, LaunchAction::Run));
    let step = advance(step, LaunchEvent::Exited { code: 3 });
    assert!(matches!(step.action, LaunchAction::RemoveDirectory));
    let step = advance(step, LaunchEvent::Failed);
    assert!(matches!(step.action, LaunchAction::Exit { code: 3 }));
    assert!(!step.launch.expects(&LaunchEvent::Done));
    assert!(!step.launch.expects(&LaunchEvent::Failed));
}

#[test]
fn access_rights_are_set_on_unix_only() {
    let step = advance(Launch::start(false, vec![]), created());
    let step = advance(step, LaunchEvent::Done);
    assert!(matches!(step.action, LaunchAction::WriteExecutable));
    let step = advance(step, LaunchEvent::Done);
    let step = advance(step, LaunchEvent::Done);
    assert!(matches!(step.action, LaunchAction::Run));
    let step = advance(step, LaunchEvent::Exited { code: 0 });
    let step = advance(step, LaunchEvent::Done);
    assert!(matches!(step.action, LaunchAction::Exit { code: 0 }));
}

#[test]
fn failures_are_reported() {
    assert_eq!(
        failure(Launch::start(true, vec![])),
        "Failed to create a temporary directory"
    );
    let step = advance(Launch::start(true, vec![]), created());
    assert_eq!(failure(step), "Failed to create the temporary executable");
    let step = advance(Launch::start(true, vec![]), created());
    let step = advance(step, LaunchEvent::Done);
    assert_eq!(failure(step), "Failed to read metadata");
    let step = advance(Launch::start(false, vec![]), created());
    let step = advance(step, LaunchEvent::Done);
    assert_eq!(failure(step), "Failed to write the build to `tmp/app`");
    let step = advance(written(true, vec![]), LaunchEvent::Done);
    assert_eq!(failure(step), "Failed to execute temporary file `tmp/app`");
    let dlls = || vec![dll("a.dll", compress(b"hello"))];
    let step = advance(written(true, dlls()), LaunchEvent::Done);
    assert_eq!(failure(step), "Failed to create DLL file `a.dll`");
    let step = advance(written(true, dlls()), LaunchEvent::Done);
    let step = advance(step, LaunchEvent::Done);
    assert_eq!(failure(step), "Failed to decompress DLL `a.dll`");
}

#[test]
fn corrupt_libraries_are_reported() {
    for corrupt in [vec![], b"hello".to_vec()] {
        let step = advance(written(true, vec![dll("a.dll", corrupt)]), LaunchEvent::Done);
        match advance(step, LaunchEvent::Done).action {
            LaunchAction::Fail { message } => {
                assert_eq!(message, "Failed to decompress DLL `a.dll`")
            }
            _ => panic!("no failure"),
        }
    }
    let step = advance(
        written(true, vec![dll("a.dll", compress(b"x"))]),
        LaunchEvent::Done,
    );
    match step.launch.fill_dll(0, None).action {
        LaunchAction::Fail { message } => {
            assert_eq!(message, "Failed to decompress DLL `a.dll`")
        }
        _ => panic!("no failure"),
    }
}

#[test]
fn executable_has_a_name_of_last_resort() {
    assert_eq!(default_executable_name(), "app.exe");
}
