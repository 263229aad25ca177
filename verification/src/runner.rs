//! The runner: the executable that carries all builds and runs one of them.

use crate::cargo::ArtifactView;
use crate::cargo::Invocation;
use crate::cargo::InvocationView;
use crate::cargo::Message;
use crate::cargo::MessageView;
use crate::cargo::announced;
use crate::cargo::announced_executable;
use crate::cargo::every_program_is_announced;
use crate::cargo::only_programs_are_announced;
use crate::cargo::standard_library_args;
use crate::cargo::std_args;
use crate::error::Error;
use crate::error::ErrorView;
use crate::error::string_view;
use crate::text::strings;
use vstd::prelude::*;

verus! {

/// A file to be written.
#[derive(Debug)]
pub struct SourceFile {
    /// The directories that lead to the file, and its name.
    pub path: Vec<String>,
    /// What is written.
    pub contents: Vec<u8>,
}

/// The mathematical model of a [`SourceFile`].
pub ghost struct SourceFileView {
    pub path: Seq<Seq<char>>,
    pub contents: Seq<u8>,
}

impl View for SourceFile {
    type V = SourceFileView;

    open spec fn view(&self) -> SourceFileView {
        SourceFileView { path: strings(self.path@), contents: self.contents@ }
    }
}

/// The models of a list of files.
pub open spec fn files_view(files: Seq<SourceFile>) -> Seq<SourceFileView> {
    files.map_values(|file: SourceFile| file@)
}

/// The name of the directory, among what cargo leaves behind, for everything
/// that this tool leaves behind.
pub fn output_directory() -> (r: String)
    ensures
        r@ == "cargo-multivers"@,
{
    "cargo-multivers".to_owned()
}

/// The place of the packed builds of a package in the output directory.
pub fn builds_path(package: &str) -> (r: Vec<String>)
    ensures
        strings(r@) == seq![package@, "builds.bin"@],
{
    let mut r: Vec<String> = Vec::new();
    r.push(package.to_owned());
    r.push("builds.bin".to_owned());
    assert(strings(r@) =~= seq![package@, "builds.bin"@]);
    r
}

/// The place of the runner's manifest in the output directory.
pub fn manifest_path() -> (r: Vec<String>)
    ensures
        strings(r@) == seq!["multivers-runner"@, "Cargo.toml"@],
{
    let mut r: Vec<String> = Vec::new();
    r.push("multivers-runner".to_owned());
    r.push("Cargo.toml".to_owned());
    assert(strings(r@) =~= seq!["multivers-runner"@, "Cargo.toml"@]);
    r
}

/// The place of a source file of the runner in the output directory.
fn source_path(name: &str) -> (r: Vec<String>)
    ensures
        strings(r@) == seq!["multivers-runner"@, "src"@, name@],
{
    let mut r: Vec<String> = Vec::new();
    r.push("multivers-runner".to_owned());
    r.push("src".to_owned());
    r.push(name.to_owned());
    assert(strings(r@) =~= seq!["multivers-runner"@, "src"@, name@]);
    r
}

/// The files of the runner's crate in the output directory, in the order in
/// which they are written. The manifest comes last.
pub fn create_runner_crate(main: Vec<u8>, build: Vec<u8>, manifest: Vec<u8>) -> (r: Vec<SourceFile>)
    ensures
        files_view(r@) == seq![
            SourceFileView {
                path: seq!["multivers-runner"@, "src"@, "main.rs"@],
                contents: main@,
            },
            SourceFileView {
                path: seq!["multivers-runner"@, "src"@, "build.rs"@],
                contents: build@,
            },
            SourceFileView {
                path: seq!["multivers-runner"@, "Cargo.toml"@],
                contents: manifest@,
            },
        ],
{
    let main_file = SourceFile { path: source_path("main.rs"), contents: main };
    let build_file = SourceFile { path: source_path("build.rs"), contents: build };
    let manifest_file = SourceFile { path: manifest_path(), contents: manifest };
    let mut r: Vec<SourceFile> = Vec::new();
    r.push(main_file);
    r.push(build_file);
    r.push(manifest_file);
    assert(files_view(r@) =~= seq![main_file@, build_file@, manifest_file@]);
    r
}

/// The run of cargo that builds the runner around packed builds.
pub fn runner_invocation(
    rebuild_std: bool,
    target_dir: &str,
    manifest_path: &str,
    builds_path: &str,
) -> (r: Invocation)
    ensures
        r@ == (InvocationView {
            release: true,
            target: None,
            target_dir: target_dir@,
            manifest_path: manifest_path@,
            variable: "CARGO_MULTIVERS_BUILDS_PATH"@,
            value: builds_path@,
            args: std_args(rebuild_std),
            features: None,
        }),
{
    Invocation {
        release: true,
        target: None,
        target_dir: target_dir.to_owned(),
        manifest_path: manifest_path.to_owned(),
        variable: "CARGO_MULTIVERS_BUILDS_PATH".to_owned(),
        value: builds_path.to_owned(),
        args: standard_library_args(rebuild_std),
        features: None,
    }
}

/// What a message of cargo means for the search for the runner.
#[derive(Debug)]
pub enum Search {
    /// This is the runner.
    Found { path: String },
    /// The search goes on, with text for stderr, perhaps empty.
    Continue { report: String },
}

/// The mathematical model of a [`Search`].
pub ghost enum SearchView {
    Found { path: Seq<char> },
    Continue { report: Seq<char> },
}

impl View for Search {
    type V = SearchView;

    open spec fn view(&self) -> SearchView {
        match self {
            Search::Found { path } => SearchView::Found { path: path@ },
            Search::Continue { report } => SearchView::Continue { report: report@ },
        }
    }
}

/// What a message of cargo means for the search for the runner. What the
/// compiler has to say about the runner is not reported.
pub open spec fn search(message: MessageView) -> SearchView {
    match announced(message) {
        Some(path) => SearchView::Found { path },
        None => SearchView::Continue {
            report: match message {
                MessageView::Malformed { report } => report + "\n"@,
                MessageView::Failure { report } => report + "\n"@,
                _ => Seq::empty(),
            },
        },
    }
}

/// What a message of cargo means for the search for the runner.
pub fn search_runner(message: &Message) -> (r: Search)
    ensures
        r@ == search(message@),
{
    match announced_executable(message) {
        Some(path) => Search::Found { path },
        None => {
            let mut report = String::new();
            match message {
                Message::Malformed { report: text } => {
                    report = text.clone();
                    report.append("\n");
                },
                Message::Failure { report: text } => {
                    report = text.clone();
                    report.append("\n");
                },
                _ => {},
            }
            Search::Continue { report }
        },
    }
}

/// The runner, if the search for it was successful.
pub fn found_runner(found: Option<String>) -> (r: Result<String, Error>)
    ensures
        string_view(r) == match found {
            Some(path) => Ok::<Seq<char>, ErrorView>(path@),
            None => Err(ErrorView::NoRunner),
        },
{
    match found {
        Some(path) => Ok(path),
        None => Err(Error::NoRunner),
    }
}

/// What `humansize` makes of a number of bytes, in decimal units.
pub uninterp spec fn decimal_size(bytes: usize) -> Seq<char>;

/// `humansize::SizeFormatter` with the options `DECIMAL`. The text depends on
/// the number alone; how it is rounded is left unsaid.
#[verifier::external_body]
fn format_decimal_size(bytes: usize) -> (r: String)
    ensures
        r@ == decimal_size(bytes),
{
    humansize::SizeFormatter::new(bytes, humansize::DECIMAL).to_string()
}

/// A size in brackets.
pub fn bracketed(size: &str) -> (r: String)
    ensures
        r@ == " ["@ + size@ + "]"@,
{
    let mut r = " [".to_owned();
    r.append(size);
    r.append("]");
    r
}

/// The note on the size of the packed builds.
pub fn size_note(bytes: usize) -> (r: String)
    ensures
        r@ == " ["@ + decimal_size(bytes) + "]"@,
{
    bracketed(format_decimal_size(bytes).as_str())
}

/// The runner is found exactly in a message about a program that was not built to
/// be tested, and is its first file. A failure and a message that cannot be
/// understood are reported on a line of their own. No other message is.
pub proof fn runner_is_found_where_cargo_announces_it(
    message: MessageView,
    path: Seq<char>,
    further: Seq<Seq<char>>,
    report: Seq<char>,
)
    ensures
        search(
            MessageView::Artifact {
                artifact: ArtifactView {
                    test: false,
                    crate_types: seq!["bin"@],
                    kind: seq!["bin"@],
                    filenames: seq![path] + further,
                },
            },
        ) == (SearchView::Found { path }),
        search(message) == (SearchView::Found { path }) ==> (message matches MessageView::Artifact {
            artifact,
        } && !artifact.test && artifact.crate_types == seq!["bin"@] && artifact.kind == seq![
            "bin"@,
        ] && artifact.filenames.len() > 0 && artifact.filenames[0] == path),
        search(MessageView::Malformed { report }) == (SearchView::Continue {
            report: report + "\n"@,
        }),
        search(MessageView::Failure { report }) == (SearchView::Continue {
            report: report + "\n"@,
        }),
        message !is Malformed && message !is Failure ==> (search(
            message,
        ) matches SearchView::Continue { report: nothing } ==> nothing.len() == 0),
{
    every_program_is_announced(path, further);
    if search(message) == (SearchView::Found { path }) {
        only_programs_are_announced(message, path);
    }
}

} // verus!
