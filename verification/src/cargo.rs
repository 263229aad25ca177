//! Runs of `cargo build`: how they are started and what their messages tell.

use crate::cli::Features;
use crate::text;
use crate::text::joined;
use crate::text::same;
use crate::text::separators_stand_between_neighbours;
use crate::text::strings;
use vstd::prelude::*;

verus! {

/// Which features of a package a run enables.
#[derive(Debug)]
pub enum Selection {
    /// All features.
    All,
    /// Not even the default ones.
    NoDefault,
    /// The default ones and those of a list, separated by spaces.
    List { features: String },
}

/// The mathematical model of a [`Selection`].
pub ghost enum SelectionView {
    All,
    NoDefault,
    List { features: Seq<char> },
}

impl View for Selection {
    type V = SelectionView;

    open spec fn view(&self) -> SelectionView {
        match self {
            Selection::All => SelectionView::All,
            Selection::NoDefault => SelectionView::NoDefault,
            Selection::List { features } => SelectionView::List { features: features@ },
        }
    }
}

/// A run of `cargo build`.
#[derive(Debug)]
pub struct Invocation {
    /// Whether the release profile is used.
    pub release: bool,
    /// The target triple, if it is set.
    pub target: Option<String>,
    /// The directory for what the run leaves behind.
    pub target_dir: String,
    /// The manifest of the package.
    pub manifest_path: String,
    /// The name of the environment variable that is set for the run.
    pub variable: String,
    /// The value of that variable.
    pub value: String,
    /// Further arguments.
    pub args: Vec<String>,
    /// The choice of features, if one is made.
    pub features: Option<Selection>,
}

/// The mathematical model of an [`Invocation`].
pub ghost struct InvocationView {
    pub release: bool,
    pub target: Option<Seq<char>>,
    pub target_dir: Seq<char>,
    pub manifest_path: Seq<char>,
    pub variable: Seq<char>,
    pub value: Seq<char>,
    pub args: Seq<Seq<char>>,
    pub features: Option<SelectionView>,
}

impl View for Invocation {
    type V = InvocationView;

    open spec fn view(&self) -> InvocationView {
        InvocationView {
            release: self.release,
            target: match self.target {
                Some(target) => Some(target@),
                None => None,
            },
            target_dir: self.target_dir@,
            manifest_path: self.manifest_path@,
            variable: self.variable@,
            value: self.value@,
            args: strings(self.args@),
            features: match self.features {
                Some(features) => Some(features@),
                None => None,
            },
        }
    }
}

/// The choice of features that options make. All features win over none, and
/// either wins over a list.
pub open spec fn selected(all: bool, no_default: bool, list: Seq<Seq<char>>) -> SelectionView {
    if all {
        SelectionView::All
    } else if no_default {
        SelectionView::NoDefault
    } else {
        SelectionView::List { features: joined(list, " "@) }
    }
}

/// The argument that has the standard library rebuilt, if it is to be rebuilt.
pub open spec fn std_args(rebuild_std: bool) -> Seq<Seq<char>> {
    if rebuild_std {
        seq!["-Zbuild-std=std"@]
    } else {
        Seq::empty()
    }
}

/// The choice of features that options make.
pub fn select(features: &Features) -> (r: Selection)
    ensures
        r@ == selected(
            features.all_features,
            features.no_default_features,
            strings(features.features@),
        ),
{
    if features.all_features {
        Selection::All
    } else if features.no_default_features {
        Selection::NoDefault
    } else {
        Selection::List { features: text::join(&features.features, " ") }
    }
}

/// A copy of a choice of features.
pub fn copy_selection(selection: &Selection) -> (r: Selection)
    ensures
        r@ == selection@,
{
    match selection {
        Selection::All => Selection::All,
        Selection::NoDefault => Selection::NoDefault,
        Selection::List { features } => Selection::List { features: features.clone() },
    }
}

/// The argument that has the standard library rebuilt, if it is to be rebuilt.
pub fn standard_library_args(rebuild_std: bool) -> (r: Vec<String>)
    ensures
        strings(r@) == std_args(rebuild_std),
{
    let mut r: Vec<String> = Vec::new();
    if rebuild_std {
        r.push("-Zbuild-std=std".to_owned());
    }
    assert(strings(r@) =~= std_args(rebuild_std));
    r
}

/// What a run of cargo produced.
#[derive(Debug)]
pub struct Artifact {
    /// Whether it was built to be tested.
    pub test: bool,
    /// The crate types of its cargo target.
    pub crate_types: Vec<String>,
    /// The kinds of its cargo target.
    pub kind: Vec<String>,
    /// The paths of its files.
    pub filenames: Vec<String>,
}

/// The mathematical model of an [`Artifact`].
pub ghost struct ArtifactView {
    pub test: bool,
    pub crate_types: Seq<Seq<char>>,
    pub kind: Seq<Seq<char>>,
    pub filenames: Seq<Seq<char>>,
}

impl View for Artifact {
    type V = ArtifactView;

    open spec fn view(&self) -> ArtifactView {
        ArtifactView {
            test: self.test,
            crate_types: strings(self.crate_types@),
            kind: strings(self.kind@),
            filenames: strings(self.filenames@),
        }
    }
}

/// What the message stream of a run of cargo yields.
#[derive(Debug)]
pub enum Message {
    /// Something was produced.
    Artifact { artifact: Artifact },
    /// The compiler has something to say, and perhaps how it is displayed.
    Compiler { rendered: Option<String> },
    /// A message of another sort.
    Other,
    /// A message that cannot be understood.
    Malformed { report: String },
    /// No message, but a failure of the run.
    Failure { report: String },
}

/// The mathematical model of a [`Message`].
pub ghost enum MessageView {
    Artifact { artifact: ArtifactView },
    Compiler { rendered: Option<Seq<char>> },
    Other,
    Malformed { report: Seq<char> },
    Failure { report: Seq<char> },
}

impl View for Message {
    type V = MessageView;

    open spec fn view(&self) -> MessageView {
        match self {
            Message::Artifact { artifact } => MessageView::Artifact { artifact: artifact@ },
            Message::Compiler { rendered } => MessageView::Compiler {
                rendered: match rendered {
                    Some(text) => Some(text@),
                    None => None,
                },
            },
            Message::Other => MessageView::Other,
            Message::Malformed { report } => MessageView::Malformed { report: report@ },
            Message::Failure { report } => MessageView::Failure { report: report@ },
        }
    }
}

/// The executable that an artifact is: its first file, if the artifact is a
/// program that was not built to be tested.
pub open spec fn executable(artifact: ArtifactView) -> Option<Seq<char>> {
    if !artifact.test && artifact.crate_types == seq!["bin"@] && artifact.kind == seq!["bin"@]
        && artifact.filenames.len() > 0 {
        Some(artifact.filenames[0])
    } else {
        None
    }
}

/// The executable that a message announces.
pub open spec fn announced(message: MessageView) -> Option<Seq<char>> {
    match message {
        MessageView::Artifact { artifact } => executable(artifact),
        _ => None,
    }
}

/// Whether a list of strings holds `s` and nothing else.
fn is_only(list: &Vec<String>, s: &str) -> (r: bool)
    ensures
        r == (strings(list@) == seq![s@]),
{
    if list.len() == 1 && same(list[0].as_str(), s) {
        assert(strings(list@) =~= seq![s@]);
        true
    } else {
        assert(list.len() == 1 ==> strings(list@)[0] == list@[0]@);
        assert(seq![s@].len() == 1 && seq![s@][0] == s@);
        false
    }
}

/// The executable that a message announces.
pub fn announced_executable(message: &Message) -> (r: Option<String>)
    ensures
        match r {
            Some(path) => announced(message@) == Some(path@),
            None => announced(message@) is None,
        },
{
    match message {
        Message::Artifact { artifact } => {
            if !artifact.test && is_only(&artifact.crate_types, "bin") && is_only(
                &artifact.kind,
                "bin",
            ) && artifact.filenames.len() > 0 {
                Some(artifact.filenames[0].clone())
            } else {
                None
            }
        },
        _ => None,
    }
}

/// A program that was not built to be tested is announced with its first file,
/// whether or not it has further files.
pub proof fn every_program_is_announced(path: Seq<char>, further: Seq<Seq<char>>)
    ensures
        announced(
            MessageView::Artifact {
                artifact: ArtifactView {
                    test: false,
                    crate_types: seq!["bin"@],
                    kind: seq!["bin"@],
                    filenames: seq![path] + further,
                },
            },
        ) == Some(path),
{
}

/// Nothing else is announced: a message that announces an executable is about an
/// artifact that was not built to be tested, has `bin` for its only crate type and
/// only kind, and has that executable for its first file.
pub proof fn only_programs_are_announced(message: MessageView, path: Seq<char>)
    requires
        announced(message) == Some(path),
    ensures
        message matches MessageView::Artifact { artifact } && !artifact.test
            && artifact.crate_types == seq!["bin"@] && artifact.kind == seq!["bin"@]
            && artifact.filenames.len() > 0 && artifact.filenames[0] == path,
{
}

/// All features are enabled whenever that is asked for, whatever else is. If it is
/// not, the default ones are left out whenever that is asked for. If neither is,
/// the features of the list are enabled, with a space between neighbours.
pub proof fn features_are_enabled_as_asked(
    all: bool,
    no_default: bool,
    first: Seq<Seq<char>>,
    feature: Seq<char>,
)
    ensures
        selected(true, no_default, first) == SelectionView::All,
        selected(false, true, first) == SelectionView::NoDefault,
        selected(false, false, Seq::empty()) == (SelectionView::List { features: Seq::empty() }),
        selected(false, false, seq![feature]) == (SelectionView::List { features: feature }),
        first.len() > 0 ==> (selected(false, false, first) matches SelectionView::List {
            features,
        } && selected(false, false, first.push(feature)) == (SelectionView::List {
            features: features + " "@ + feature,
        })),
        selected(all, no_default, first) is All <==> all,
        selected(all, no_default, first) is NoDefault <==> !all && no_default,
{
    separators_stand_between_neighbours(first, seq![feature], feature, " "@);
    assert(first + seq![feature] =~= first.push(feature));
    assert(joined(Seq::empty(), " "@) =~= Seq::empty());
}

/// The standard library is rebuilt exactly if that is asked for.
pub proof fn standard_library_is_rebuilt_if_asked()
    ensures
        std_args(true) == seq!["-Zbuild-std=std"@],
        std_args(false).len() == 0,
{
}

/// What cargo is run with is seen whole.
pub proof fn runs_of_cargo_are_seen_whole(run: Invocation, features: String)
    ensures
        run@.release == run.release,
        run.target is None ==> run@.target is None,
        run.target matches Some(target) ==> run@.target == Some(target@),
        run@.target_dir == run.target_dir@,
        run@.manifest_path == run.manifest_path@,
        run@.variable == run.variable@,
        run@.value == run.value@,
        run@.args == strings(run.args@),
        run.features is None ==> run@.features is None,
        run.features matches Some(selection) ==> run@.features == Some(selection@),
        Selection::All@ == SelectionView::All,
        Selection::NoDefault@ == SelectionView::NoDefault,
        (Selection::List { features })@ == (SelectionView::List { features: features@ }),
{
}

/// What cargo tells is seen whole.
pub proof fn messages_are_seen_whole(artifact: Artifact, text: String)
    ensures
        artifact@.test == artifact.test,
        artifact@.crate_types == strings(artifact.crate_types@),
        artifact@.kind == strings(artifact.kind@),
        artifact@.filenames == strings(artifact.filenames@),
        (Message::Artifact { artifact })@ == (MessageView::Artifact { artifact: artifact@ }),
        (Message::Compiler { rendered: Some(text) })@ == (MessageView::Compiler {
            rendered: Some(text@),
        }),
        (Message::Compiler { rendered: None })@ == (MessageView::Compiler { rendered: None }),
        Message::Other@ == MessageView::Other,
        (Message::Malformed { report: text })@ == (MessageView::Malformed { report: text@ }),
        (Message::Failure { report: text })@ == (MessageView::Failure { report: text@ }),
{
}

} // verus!
