//! Running a build out of a temporary directory, one step at a time.
//!
//! A [`Launch`] decides what happens next. Whoever drives it performs the
//! [`LaunchAction`] that it asks for and tells it the [`LaunchEvent`] that came
//! of it.

use std::io::Read;
use vstd::prelude::*;

verus! {

/// The access rights of the temporary executable: all for its owner, none for
/// others.
pub const EXECUTABLE_MODE: u32 = 0o700;

/// A library that the build needs beside it, compressed with bzip2.
#[derive(Debug)]
pub struct Dll {
    /// The name of its file.
    pub name: String,
    /// Its compressed contents.
    pub compressed: Vec<u8>,
}

/// The mathematical model of a [`Dll`].
pub ghost struct DllView {
    pub name: Seq<char>,
    pub compressed: Seq<u8>,
}

impl View for Dll {
    type V = DllView;

    open spec fn view(&self) -> DllView {
        DllView { name: self.name@, compressed: self.compressed@ }
    }
}

/// The models of a list of libraries.
pub open spec fn dlls_view(dlls: Seq<Dll>) -> Seq<DllView> {
    dlls.map_values(|dll: Dll| dll@)
}

/// What `bzip2` reads from compressed bytes, if they can be read to their end.
pub uninterp spec fn bunzip_outcome(compressed: Seq<u8>) -> Option<Seq<u8>>;

/// The contents of optional bytes.
pub open spec fn contents_view(contents: Option<Vec<u8>>) -> Option<Seq<u8>> {
    match contents {
        Some(bytes) => Some(bytes@),
        None => None,
    }
}

/// `bzip2::read::BzDecoder` read to its end. The outcome depends on the bytes
/// alone; what the decompressed bytes are, and which bytes are accepted, is left
/// unsaid.
#[verifier::external_body]
fn bunzip(compressed: &Vec<u8>) -> (r: Option<Vec<u8>>)
    ensures
        contents_view(r) == bunzip_outcome(compressed@),
{
    let mut contents: Vec<u8> = Vec::new();
    let outcome = bzip2::read::BzDecoder::new(compressed.as_slice()).read_to_end(&mut contents);
    outcome.ok().map(|_| contents)
}

/// What a launch waits for.
#[derive(Debug)]
pub enum LaunchPhase {
    /// The temporary directory.
    CreatingDirectory,
    /// The file of the executable.
    CreatingExecutable,
    /// Its access rights.
    ReadingPermissions,
    /// Its new access rights.
    SettingPermissions,
    /// Its contents.
    WritingExecutable,
    /// The end of its use as a file.
    ClosingExecutable,
    /// The file of a library.
    CreatingDll { i: usize },
    /// The contents of a library.
    WritingDll { i: usize },
    /// The end of the process.
    Running,
    /// The removal of the temporary directory.
    RemovingDirectory { code: i32 },
    /// Nothing: the launch is over.
    Over,
}

/// What came of an action.
#[derive(Debug)]
pub enum LaunchEvent {
    /// The temporary directory exists, and this is how the path of the
    /// executable in it is displayed.
    DirectoryCreated { path: String },
    /// The action succeeded.
    Done,
    /// The process ended with an exit code.
    Exited { code: i32 },
    /// The action failed.
    Failed,
}

/// The mathematical model of a [`LaunchEvent`].
pub ghost enum LaunchEventView {
    DirectoryCreated { path: Seq<char> },
    Done,
    Exited { code: i32 },
    Failed,
}

impl View for LaunchEvent {
    type V = LaunchEventView;

    open spec fn view(&self) -> LaunchEventView {
        match self {
            LaunchEvent::DirectoryCreated { path } => LaunchEventView::DirectoryCreated {
                path: path@,
            },
            LaunchEvent::Done => LaunchEventView::Done,
            LaunchEvent::Exited { code } => LaunchEventView::Exited { code: *code },
            LaunchEvent::Failed => LaunchEventView::Failed,
        }
    }
}

/// What is to be done next.
#[derive(Debug)]
pub enum LaunchAction {
    /// Create a temporary directory whose name begins so.
    CreateDirectory { prefix: String },
    /// Create the file of the executable in it.
    CreateExecutable,
    /// Read the access rights of that file.
    ReadPermissions,
    /// Set the access rights of that file. This must succeed.
    SetPermissions { mode: u32 },
    /// Write the build to that file.
    WriteExecutable,
    /// Close that file. Some systems refuse to run an open one.
    CloseExecutable,
    /// Create the file of a library beside it.
    CreateDll { name: String },
    /// Write to the file that was created last.
    WriteDll { contents: Vec<u8> },
    /// Run the executable and wait for its end.
    Run,
    /// Remove the temporary directory.
    RemoveDirectory,
    /// Exit with a code.
    Exit { code: i32 },
    /// Give up with a message.
    Fail { message: String },
}

/// The mathematical model of a [`LaunchAction`].
pub ghost enum LaunchActionView {
    CreateDirectory { prefix: Seq<char> },
    CreateExecutable,
    ReadPermissions,
    SetPermissions { mode: u32 },
    WriteExecutable,
    CloseExecutable,
    CreateDll { name: Seq<char> },
    WriteDll { contents: Seq<u8> },
    Run,
    RemoveDirectory,
    Exit { code: i32 },
    Fail { message: Seq<char> },
}

impl View for LaunchAction {
    type V = LaunchActionView;

    open spec fn view(&self) -> LaunchActionView {
        match self {
            LaunchAction::CreateDirectory { prefix } => LaunchActionView::CreateDirectory {
                prefix: prefix@,
            },
            LaunchAction::CreateExecutable => LaunchActionView::CreateExecutable,
            LaunchAction::ReadPermissions => LaunchActionView::ReadPermissions,
            LaunchAction::SetPermissions { mode } => LaunchActionView::SetPermissions {
                mode: *mode,
            },
            LaunchAction::WriteExecutable => LaunchActionView::WriteExecutable,
            LaunchAction::CloseExecutable => LaunchActionView::CloseExecutable,
            LaunchAction::CreateDll { name } => LaunchActionView::CreateDll { name: name@ },
            LaunchAction::WriteDll { contents } => LaunchActionView::WriteDll {
                contents: contents@,
            },
            LaunchAction::Run => LaunchActionView::Run,
            LaunchAction::RemoveDirectory => LaunchActionView::RemoveDirectory,
            LaunchAction::Exit { code } => LaunchActionView::Exit { code: *code },
            LaunchAction::Fail { message } => LaunchActionView::Fail { message: message@ },
        }
    }
}

/// A build on its way to being run.
#[derive(Debug)]
pub struct Launch {
    unix: bool,
    path: String,
    dlls: Vec<Dll>,
    phase: LaunchPhase,
}

/// The mathematical model of a [`Launch`].
pub ghost struct LaunchView {
    /// Whether files have access rights as on Unix.
    pub unix: bool,
    /// How the path of the executable is displayed, once it is known.
    pub path: Seq<char>,
    /// The libraries that the build needs.
    pub dlls: Seq<DllView>,
    /// What the launch waits for.
    pub phase: LaunchPhase,
}

impl View for Launch {
    type V = LaunchView;

    closed spec fn view(&self) -> LaunchView {
        LaunchView {
            unix: self.unix,
            path: self.path@,
            dlls: dlls_view(self.dlls@),
            phase: self.phase,
        }
    }
}

/// A launch after a step, with what is to be done next.
#[derive(Debug)]
pub struct LaunchStep {
    /// The launch.
    pub launch: Launch,
    /// What is to be done next.
    pub action: LaunchAction,
}

/// The mathematical model of a [`LaunchStep`].
pub ghost struct LaunchStepView {
    pub launch: LaunchView,
    pub action: LaunchActionView,
}

impl View for LaunchStep {
    type V = LaunchStepView;

    open spec fn view(&self) -> LaunchStepView {
        LaunchStepView { launch: self.launch@, action: self.action@ }
    }
}

impl LaunchView {
    /// Whether a library that the launch is at is one of its libraries.
    pub open spec fn valid(self) -> bool {
        &&& self.dlls.len() <= usize::MAX
        &&& self.phase matches LaunchPhase::CreatingDll { i } ==> i < self.dlls.len()
        &&& self.phase matches LaunchPhase::WritingDll { i } ==> i < self.dlls.len()
    }

    /// Whether the launch waits for such an event.
    pub open spec fn expects(self, event: LaunchEventView) -> bool {
        match self.phase {
            LaunchPhase::CreatingDirectory => event is DirectoryCreated || event is Failed,
            LaunchPhase::SettingPermissions => event is Done,
            LaunchPhase::ClosingExecutable => event is Done,
            LaunchPhase::Running => event is Exited || event is Failed,
            LaunchPhase::Over => false,
            _ => event is Done || event is Failed,
        }
    }

    /// The step that waits for something else.
    pub open spec fn wait(self, phase: LaunchPhase, action: LaunchActionView) -> LaunchStepView {
        LaunchStepView { launch: LaunchView { phase, ..self }, action }
    }

    /// The step that gives up.
    pub open spec fn fail(self, message: Seq<char>) -> LaunchStepView {
        self.wait(LaunchPhase::Over, LaunchActionView::Fail { message })
    }

    /// The message that reports a failure of what the launch waits for.
    pub open spec fn failure(self) -> Seq<char> {
        match self.phase {
            LaunchPhase::CreatingDirectory => "Failed to create a temporary directory"@,
            LaunchPhase::CreatingExecutable => "Failed to create the temporary executable"@,
            LaunchPhase::ReadingPermissions => "Failed to read metadata"@,
            LaunchPhase::WritingExecutable => "Failed to write the build to `"@ + self.path + "`"@,
            LaunchPhase::CreatingDll { i } => "Failed to create DLL file `"@
                + self.dlls[i as int].name + "`"@,
            LaunchPhase::WritingDll { i } => "Failed to decompress DLL `"@
                + self.dlls[i as int].name + "`"@,
            LaunchPhase::Running => "Failed to execute temporary file `"@ + self.path + "`"@,
            _ => Seq::empty(),
        }
    }

    /// The step that goes on with a library, or with the executable if there is
    /// no such library.
    pub open spec fn reach_dll(self, i: nat) -> LaunchStepView {
        if i < self.dlls.len() {
            self.wait(
                LaunchPhase::CreatingDll { i: i as usize },
                LaunchActionView::CreateDll { name: self.dlls[i as int].name },
            )
        } else {
            self.wait(LaunchPhase::Running, LaunchActionView::Run)
        }
    }

    /// The step once the file of a library exists, given its contents if it
    /// could be decompressed.
    pub open spec fn fill_dll(self, i: usize, contents: Option<Seq<u8>>) -> LaunchStepView {
        let writing = LaunchView { phase: LaunchPhase::WritingDll { i }, ..self };
        match contents {
            Some(contents) => LaunchStepView {
                launch: writing,
                action: LaunchActionView::WriteDll { contents },
            },
            None => writing.fail(writing.failure()),
        }
    }

    /// The step that an event leads to.
    ///
    /// The end of the process and the removal of the directory come before the
    /// exit; that the directory cannot be removed does not matter.
    pub open spec fn next(self, event: LaunchEventView) -> LaunchStepView {
        match (self.phase, event) {
            (LaunchPhase::RemovingDirectory { code }, _) => self.wait(
                LaunchPhase::Over,
                LaunchActionView::Exit { code },
            ),
            (_, LaunchEventView::Failed) => self.fail(self.failure()),
            (LaunchPhase::CreatingDirectory, LaunchEventView::DirectoryCreated { path }) => {
                LaunchView { path, ..self }.wait(
                    LaunchPhase::CreatingExecutable,
                    LaunchActionView::CreateExecutable,
                )
            },
            (LaunchPhase::CreatingExecutable, LaunchEventView::Done) => if self.unix {
                self.wait(LaunchPhase::ReadingPermissions, LaunchActionView::ReadPermissions)
            } else {
                self.wait(LaunchPhase::WritingExecutable, LaunchActionView::WriteExecutable)
            },
            (LaunchPhase::ReadingPermissions, LaunchEventView::Done) => self.wait(
                LaunchPhase::SettingPermissions,
                LaunchActionView::SetPermissions { mode: EXECUTABLE_MODE },
            ),
            (LaunchPhase::SettingPermissions, LaunchEventView::Done) => self.wait(
                LaunchPhase::WritingExecutable,
                LaunchActionView::WriteExecutable,
            ),
            (LaunchPhase::WritingExecutable, LaunchEventView::Done) => self.wait(
                LaunchPhase::ClosingExecutable,
                LaunchActionView::CloseExecutable,
            ),
            (LaunchPhase::ClosingExecutable, LaunchEventView::Done) => self.reach_dll(0),
            (LaunchPhase::CreatingDll { i }, LaunchEventView::Done) => self.fill_dll(
                i,
                bunzip_outcome(self.dlls[i as int].compressed),
            ),
            (LaunchPhase::WritingDll { i }, LaunchEventView::Done) => self.reach_dll(
                (i + 1) as nat,
            ),
            (LaunchPhase::Running, LaunchEventView::Exited { code }) => self.wait(
                LaunchPhase::RemovingDirectory { code },
                LaunchActionView::RemoveDirectory,
            ),
            _ => arbitrary(),
        }
    }
}

/// The name of the executable where the program does not know its own.
pub fn default_executable_name() -> (r: String)
    ensures
        r@ == "app.exe"@,
{
    "app.exe".to_owned()
}

/// A message about something that has a name.
fn about(message: &str, name: &str) -> (r: String)
    ensures
        r@ == message@ + name@ + "`"@,
{
    let mut r = message.to_owned();
    r.append(name);
    r.append("`");
    r
}

impl Launch {
    /// Begins a launch.
    pub fn start(unix: bool, dlls: Vec<Dll>) -> (r: LaunchStep)
        ensures
            r@ == (LaunchStepView {
                launch: LaunchView {
                    unix,
                    path: Seq::empty(),
                    dlls: dlls_view(dlls@),
                    phase: LaunchPhase::CreatingDirectory,
                },
                action: LaunchActionView::CreateDirectory { prefix: "tg_multivers_"@ },
            }),
            r@.launch.valid(),
    {
        let launch = Launch {
            unix,
            path: String::new(),
            dlls,
            phase: LaunchPhase::CreatingDirectory,
        };
        assert(launch.dlls.len() <= usize::MAX);
        LaunchStep {
            launch,
            action: LaunchAction::CreateDirectory { prefix: "tg_multivers_".to_owned() },
        }
    }

    /// Whether the launch waits for such an event.
    pub fn expects(&self, event: &LaunchEvent) -> (r: bool)
        ensures
            r == self@.expects(event@),
    {
        let done = matches!(event, LaunchEvent::Done);
        let failed = matches!(event, LaunchEvent::Failed);
        match self.phase {
            LaunchPhase::CreatingDirectory => matches!(event, LaunchEvent::DirectoryCreated { .. })
                || failed,
            LaunchPhase::SettingPermissions => done,
            LaunchPhase::ClosingExecutable => done,
            LaunchPhase::Running => matches!(event, LaunchEvent::Exited { .. }) || failed,
            LaunchPhase::Over => false,
            _ => done || failed,
        }
    }

    fn wait(self, phase: LaunchPhase, action: LaunchAction) -> (r: LaunchStep)
        ensures
            r@ == self@.wait(phase, action@),
    {
        let launch = Launch { unix: self.unix, path: self.path, dlls: self.dlls, phase };
        LaunchStep { launch, action }
    }

    fn failure(&self) -> (r: String)
        requires
            self@.valid(),
        ensures
            r@ == self@.failure(),
    {
        match self.phase {
            LaunchPhase::CreatingDirectory => "Failed to create a temporary directory".to_owned(),
            LaunchPhase::CreatingExecutable => {
                "Failed to create the temporary executable".to_owned()
            },
            LaunchPhase::ReadingPermissions => "Failed to read metadata".to_owned(),
            LaunchPhase::WritingExecutable => about(
                "Failed to write the build to `",
                self.path.as_str(),
            ),
            LaunchPhase::CreatingDll { i } => about(
                "Failed to create DLL file `",
                self.dlls[i].name.as_str(),
            ),
            LaunchPhase::WritingDll { i } => about(
                "Failed to decompress DLL `",
                self.dlls[i].name.as_str(),
            ),
            LaunchPhase::Running => about(
                "Failed to execute temporary file `",
                self.path.as_str(),
            ),
            _ => String::new(),
        }
    }

    fn fail(self) -> (r: LaunchStep)
        requires
            self@.valid(),
        ensures
            r@ == self@.fail(self@.failure()),
            r@.launch.valid(),
    {
        let message = self.failure();
        self.wait(LaunchPhase::Over, LaunchAction::Fail { message })
    }

    fn reach_dll(self, i: usize) -> (r: LaunchStep)
        requires
            self@.valid(),
        ensures
            r@ == self@.reach_dll(i as nat),
            r@.launch.valid(),
    {
        if i < self.dlls.len() {
            let name = self.dlls[i].name.clone();
            self.wait(LaunchPhase::CreatingDll { i }, LaunchAction::CreateDll { name })
        } else {
            self.wait(LaunchPhase::Running, LaunchAction::Run)
        }
    }

    /// Goes on with the contents of a library whose file exists, or gives up if
    /// it could not be decompressed.
    pub fn fill_dll(self, i: usize, contents: Option<Vec<u8>>) -> (r: LaunchStep)
        requires
            self@.valid(),
            i < self@.dlls.len(),
        ensures
            r@ == self@.fill_dll(i, contents_view(contents)),
            r@.launch.valid(),
    {
        let launch = Launch {
            unix: self.unix,
            path: self.path,
            dlls: self.dlls,
            phase: LaunchPhase::WritingDll { i },
        };
        match contents {
            Some(contents) => LaunchStep { launch, action: LaunchAction::WriteDll { contents } },
            None => launch.fail(),
        }
    }

    /// Takes the step that an event leads to.
    pub fn next(self, event: LaunchEvent) -> (r: LaunchStep)
        requires
            self@.valid(),
            self@.expects(event@),
        ensures
            r@ == self@.next(event@),
            r@.launch.valid(),
    {
        if let LaunchPhase::RemovingDirectory { code } = self.phase {
            return self.wait(LaunchPhase::Over, LaunchAction::Exit { code });
        }
        match event {
            LaunchEvent::Failed => self.fail(),
            LaunchEvent::DirectoryCreated { path } => {
                let launch = Launch { unix: self.unix, path, dlls: self.dlls, phase: self.phase };
                launch.wait(LaunchPhase::CreatingExecutable, LaunchAction::CreateExecutable)
            },
            LaunchEvent::Exited { code } => self.wait(
                LaunchPhase::RemovingDirectory { code },
                LaunchAction::RemoveDirectory,
            ),
            LaunchEvent::Done => match self.phase {
                LaunchPhase::CreatingExecutable => {
                    if self.unix {
                        self.wait(LaunchPhase::ReadingPermissions, LaunchAction::ReadPermissions)
                    } else {
                        self.wait(LaunchPhase::WritingExecutable, LaunchAction::WriteExecutable)
                    }
                },
                LaunchPhase::ReadingPermissions => self.wait(
                    LaunchPhase::SettingPermissions,
                    LaunchAction::SetPermissions { mode: EXECUTABLE_MODE },
                ),
                LaunchPhase::SettingPermissions => self.wait(
                    LaunchPhase::WritingExecutable,
                    LaunchAction::WriteExecutable,
                ),
                LaunchPhase::WritingExecutable => self.wait(
                    LaunchPhase::ClosingExecutable,
                    LaunchAction::CloseExecutable,
                ),
                LaunchPhase::CreatingDll { i } => {
                    let contents = bunzip(&self.dlls[i].compressed);
                    self.fill_dll(i, contents)
                },
                LaunchPhase::WritingDll { i } => self.reach_dll(i + 1),
                _ => self.reach_dll(0),
            },
        }
    }
}

/// What comes of actions, and the libraries, are seen whole.
pub proof fn launch_events_are_seen_whole(text: String, code: i32, dlls: Seq<Dll>, i: int)
    ensures
        (LaunchEvent::DirectoryCreated { path: text })@ == (LaunchEventView::DirectoryCreated {
            path: text@,
        }),
        LaunchEvent::Done@ == LaunchEventView::Done,
        (LaunchEvent::Exited { code })@ == (LaunchEventView::Exited { code }),
        LaunchEvent::Failed@ == LaunchEventView::Failed,
        dlls_view(dlls).len() == dlls.len(),
        0 <= i < dlls.len() ==> dlls_view(dlls)[i] == (DllView {
            name: dlls[i].name@,
            compressed: dlls[i].compressed@,
        }),
{
}

/// What is to be done is seen whole.
pub proof fn launch_actions_are_seen_whole(text: String, mode: u32, bytes: Vec<u8>, code: i32)
    ensures
        (LaunchAction::CreateDirectory { prefix: text })@ == (LaunchActionView::CreateDirectory {
            prefix: text@,
        }),
        LaunchAction::CreateExecutable@ == LaunchActionView::CreateExecutable,
        LaunchAction::ReadPermissions@ == LaunchActionView::ReadPermissions,
        (LaunchAction::SetPermissions { mode })@ == (LaunchActionView::SetPermissions { mode }),
        LaunchAction::WriteExecutable@ == LaunchActionView::WriteExecutable,
        LaunchAction::CloseExecutable@ == LaunchActionView::CloseExecutable,
        (LaunchAction::CreateDll { name: text })@ == (LaunchActionView::CreateDll { name: text@ }),
        (LaunchAction::WriteDll { contents: bytes })@ == (LaunchActionView::WriteDll {
            contents: bytes@,
        }),
        LaunchAction::Run@ == LaunchActionView::Run,
        LaunchAction::RemoveDirectory@ == LaunchActionView::RemoveDirectory,
        (LaunchAction::Exit { code })@ == (LaunchActionView::Exit { code }),
        (LaunchAction::Fail { message: text })@ == (LaunchActionView::Fail { message: text@ }),
{
}

} // verus!
