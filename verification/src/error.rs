//! What can go wrong, and how it is reported.

use crate::text::strings;
use vstd::prelude::*;

verus! {

/// A reason to give up.
#[derive(Debug)]
pub enum Error {
    /// The compiler could not be asked for its version report.
    UnknownVersion { cause: String },
    /// The compiler did not name the target that it builds for by default.
    NoDefaultTarget,
    /// The target is not a target triple.
    InvalidTarget { cause: String },
    /// The compiler could not be asked for the CPUs of the target.
    UnknownCpus { cause: String },
    /// A finished executable could not be read.
    UnreadableExecutable { path: String, cause: String },
    /// The compiler could not be asked for the features of a CPU.
    UnknownFeatures { cause: String },
    /// The builds could not be encoded.
    NotEncoded { cause: String },
    /// The encoded builds could not be compressed.
    NotCompressed { cause: String },
    /// Cargo could not be asked for the packages.
    UnknownPackages { cause: String },
    /// The directory for the packed builds could not be created.
    NoOutputDirectory { cause: String },
    /// The source files of the runner could not be written.
    UnwrittenRunner { cause: String },
    /// Cargo could not be run to build the runner.
    UnstartedRunner { cause: String },
    /// The packed builds could not be written.
    UnwrittenBuilds { path: String, cause: String },
    /// Building the runner left no executable.
    NoRunner,
}

/// The mathematical model of an [`Error`].
pub ghost enum ErrorView {
    UnknownVersion { cause: Seq<char> },
    NoDefaultTarget,
    InvalidTarget { cause: Seq<char> },
    UnknownCpus { cause: Seq<char> },
    UnreadableExecutable { path: Seq<char>, cause: Seq<char> },
    UnknownFeatures { cause: Seq<char> },
    NotEncoded { cause: Seq<char> },
    NotCompressed { cause: Seq<char> },
    UnknownPackages { cause: Seq<char> },
    NoOutputDirectory { cause: Seq<char> },
    UnwrittenRunner { cause: Seq<char> },
    UnstartedRunner { cause: Seq<char> },
    UnwrittenBuilds { path: Seq<char>, cause: Seq<char> },
    NoRunner,
}

impl View for Error {
    type V = ErrorView;

    open spec fn view(&self) -> ErrorView {
        match self {
            Error::UnknownVersion { cause } => ErrorView::UnknownVersion { cause: cause@ },
            Error::NoDefaultTarget => ErrorView::NoDefaultTarget,
            Error::InvalidTarget { cause } => ErrorView::InvalidTarget { cause: cause@ },
            Error::UnknownCpus { cause } => ErrorView::UnknownCpus { cause: cause@ },
            Error::UnreadableExecutable { path, cause } => ErrorView::UnreadableExecutable {
                path: path@,
                cause: cause@,
            },
            Error::UnknownFeatures { cause } => ErrorView::UnknownFeatures { cause: cause@ },
            Error::NotEncoded { cause } => ErrorView::NotEncoded { cause: cause@ },
            Error::NotCompressed { cause } => ErrorView::NotCompressed { cause: cause@ },
            Error::UnknownPackages { cause } => ErrorView::UnknownPackages { cause: cause@ },
            Error::NoOutputDirectory { cause } => ErrorView::NoOutputDirectory { cause: cause@ },
            Error::UnwrittenRunner { cause } => ErrorView::UnwrittenRunner { cause: cause@ },
            Error::UnstartedRunner { cause } => ErrorView::UnstartedRunner { cause: cause@ },
            Error::UnwrittenBuilds { path, cause } => ErrorView::UnwrittenBuilds {
                path: path@,
                cause: cause@,
            },
            Error::NoRunner => ErrorView::NoRunner,
        }
    }
}

impl ErrorView {
    /// The sentence that reports the error.
    pub open spec fn message(self) -> Seq<char> {
        match self {
            ErrorView::UnknownVersion { cause } => cause,
            ErrorView::NoDefaultTarget => "Failed to detect default target"@,
            ErrorView::InvalidTarget { .. } => "Failed to parse the target"@,
            ErrorView::UnknownCpus { .. } => "Failed to get the set of CPUs for the target"@,
            ErrorView::UnreadableExecutable { path, .. } => "Failed to read the executable `"@
                + path + "`"@,
            ErrorView::UnknownFeatures { cause } => cause,
            ErrorView::NotEncoded { .. } => "Failed to encode the builds"@,
            ErrorView::NotCompressed { .. } => "Failed to compress the builds"@,
            ErrorView::UnknownPackages { .. } => "Failed to execute `cargo metadata`"@,
            ErrorView::NoOutputDirectory { .. } => "Failed to create temporary output directory"@,
            ErrorView::UnwrittenRunner { .. } => {
                "Failed to generate the source files of the runner"@
            },
            ErrorView::UnstartedRunner { .. } => "Failed to execute cargo to build the runner"@,
            ErrorView::UnwrittenBuilds { path, .. } => "Failed to write to `"@ + path + "`"@,
            ErrorView::NoRunner => "Failed to build the runner"@,
        }
    }

    /// The report of the failure underneath, if the sentence does not hold it.
    pub open spec fn cause(self) -> Option<Seq<char>> {
        match self {
            ErrorView::UnknownVersion { .. } => None,
            ErrorView::NoDefaultTarget => None,
            ErrorView::InvalidTarget { cause } => Some(cause),
            ErrorView::UnknownCpus { cause } => Some(cause),
            ErrorView::UnreadableExecutable { cause, .. } => Some(cause),
            ErrorView::UnknownFeatures { .. } => None,
            ErrorView::NotEncoded { cause } => Some(cause),
            ErrorView::NotCompressed { cause } => Some(cause),
            ErrorView::UnknownPackages { cause } => Some(cause),
            ErrorView::NoOutputDirectory { cause } => Some(cause),
            ErrorView::UnwrittenRunner { cause } => Some(cause),
            ErrorView::UnstartedRunner { cause } => Some(cause),
            ErrorView::UnwrittenBuilds { cause, .. } => Some(cause),
            ErrorView::NoRunner => None,
        }
    }
}

/// The contents of a string, or of the error in its place.
pub open spec fn string_view(r: Result<String, Error>) -> Result<Seq<char>, ErrorView> {
    match r {
        Ok(s) => Ok(s@),
        Err(error) => Err(error@),
    }
}

/// The contents of a list of strings, or of the error in its place.
pub open spec fn strings_view(r: Result<Vec<String>, Error>) -> Result<Seq<Seq<char>>, ErrorView> {
    match r {
        Ok(list) => Ok(strings(list@)),
        Err(error) => Err(error@),
    }
}

/// The contents of the bytes that came of something, or of the report in their
/// place.
pub open spec fn outcome_view(outcome: Result<Vec<u8>, String>) -> Result<Seq<u8>, Seq<char>> {
    match outcome {
        Ok(bytes) => Ok(bytes@),
        Err(report) => Err(report@),
    }
}

impl Error {
    /// The sentence that reports the error.
    pub fn message(&self) -> (r: String)
        ensures
            r@ == self@.message(),
    {
        match self {
            Error::UnknownVersion { cause } => cause.clone(),
            Error::NoDefaultTarget => "Failed to detect default target".to_owned(),
            Error::InvalidTarget { .. } => "Failed to parse the target".to_owned(),
            Error::UnknownCpus { .. } => {
                "Failed to get the set of CPUs for the target".to_owned()
            },
            Error::UnreadableExecutable { path, .. } => {
                let mut r = "Failed to read the executable `".to_owned();
                r.append(path.as_str());
                r.append("`");
                r
            },
            Error::UnknownFeatures { cause } => cause.clone(),
            Error::NotEncoded { .. } => "Failed to encode the builds".to_owned(),
            Error::NotCompressed { .. } => "Failed to compress the builds".to_owned(),
            Error::UnknownPackages { .. } => "Failed to execute `cargo metadata`".to_owned(),
            Error::NoOutputDirectory { .. } => {
                "Failed to create temporary output directory".to_owned()
            },
            Error::UnwrittenRunner { .. } => {
                "Failed to generate the source files of the runner".to_owned()
            },
            Error::UnstartedRunner { .. } => {
                "Failed to execute cargo to build the runner".to_owned()
            },
            Error::UnwrittenBuilds { path, .. } => {
                let mut r = "Failed to write to `".to_owned();
                r.append(path.as_str());
                r.append("`");
                r
            },
            Error::NoRunner => "Failed to build the runner".to_owned(),
        }
    }

    /// The report of the failure underneath, if the sentence does not hold it.
    pub fn cause(&self) -> (r: Option<String>)
        ensures
            match r {
                Some(cause) => self@.cause() == Some(cause@),
                None => self@.cause() is None,
            },
    {
        match self {
            Error::InvalidTarget { cause } => Some(cause.clone()),
            Error::UnknownCpus { cause } => Some(cause.clone()),
            Error::UnreadableExecutable { cause, .. } => Some(cause.clone()),
            Error::NotEncoded { cause } => Some(cause.clone()),
            Error::NotCompressed { cause } => Some(cause.clone()),
            Error::UnknownPackages { cause } => Some(cause.clone()),
            Error::NoOutputDirectory { cause } => Some(cause.clone()),
            Error::UnwrittenRunner { cause } => Some(cause.clone()),
            Error::UnstartedRunner { cause } => Some(cause.clone()),
            Error::UnwrittenBuilds { cause, .. } => Some(cause.clone()),
            _ => None,
        }
    }
}

/// What users are told about each failure, word for word, and that its cause is
/// told too wherever there is one: as the sentence itself or beside it.
pub proof fn failures_are_told_with_their_cause(path: Seq<char>, cause: Seq<char>)
    ensures
        (ErrorView::UnknownVersion { cause }).message() == cause,
        (ErrorView::UnknownFeatures { cause }).message() == cause,
        ErrorView::NoDefaultTarget.message() == "Failed to detect default target"@,
        (ErrorView::InvalidTarget { cause }).message() == "Failed to parse the target"@,
        (ErrorView::UnknownCpus { cause }).message()
            == "Failed to get the set of CPUs for the target"@,
        (ErrorView::UnreadableExecutable { path, cause }).message()
            == "Failed to read the executable `"@ + path + "`"@,
        (ErrorView::NotEncoded { cause }).message() == "Failed to encode the builds"@,
        (ErrorView::NotCompressed { cause }).message() == "Failed to compress the builds"@,
        (ErrorView::UnknownPackages { cause }).message() == "Failed to execute `cargo metadata`"@,
        (ErrorView::NoOutputDirectory { cause }).message()
            == "Failed to create temporary output directory"@,
        (ErrorView::UnwrittenRunner { cause }).message()
            == "Failed to generate the source files of the runner"@,
        (ErrorView::UnstartedRunner { cause }).message()
            == "Failed to execute cargo to build the runner"@,
        (ErrorView::UnwrittenBuilds { path, cause }).message() == "Failed to write to `"@ + path
            + "`"@,
        ErrorView::NoRunner.message() == "Failed to build the runner"@,
        (ErrorView::InvalidTarget { cause }).cause() == Some(cause),
        (ErrorView::UnknownCpus { cause }).cause() == Some(cause),
        (ErrorView::UnreadableExecutable { path, cause }).cause() == Some(cause),
        (ErrorView::NotEncoded { cause }).cause() == Some(cause),
        (ErrorView::NotCompressed { cause }).cause() == Some(cause),
        (ErrorView::UnknownPackages { cause }).cause() == Some(cause),
        (ErrorView::NoOutputDirectory { cause }).cause() == Some(cause),
        (ErrorView::UnwrittenRunner { cause }).cause() == Some(cause),
        (ErrorView::UnstartedRunner { cause }).cause() == Some(cause),
        (ErrorView::UnwrittenBuilds { path, cause }).cause() == Some(cause),
        (ErrorView::UnknownVersion { cause }).cause() is None,
        (ErrorView::UnknownFeatures { cause }).cause() is None,
        ErrorView::NoDefaultTarget.cause() is None,
        ErrorView::NoRunner.cause() is None,
{
}

/// What an operation gives, and the error in its place, are seen whole.
pub proof fn results_are_seen_whole(
    text: String,
    cause: String,
    list: Vec<String>,
    bytes: Vec<u8>,
    error: Error,
)
    ensures
        string_view(Ok(text)) == Ok::<Seq<char>, ErrorView>(text@),
        string_view(Err(error)) == Err::<Seq<char>, ErrorView>(error@),
        strings_view(Ok(list)) == Ok::<Seq<Seq<char>>, ErrorView>(strings(list@)),
        strings_view(Err(error)) == Err::<Seq<Seq<char>>, ErrorView>(error@),
        outcome_view(Ok(bytes)) == Ok::<Seq<u8>, Seq<char>>(bytes@),
        outcome_view(Err(text)) == Err::<Seq<u8>, Seq<char>>(text@),
        Error::NoDefaultTarget@ == ErrorView::NoDefaultTarget,
        Error::NoRunner@ == ErrorView::NoRunner,
        (Error::UnknownVersion { cause: text })@ == (ErrorView::UnknownVersion { cause: text@ }),
        (Error::InvalidTarget { cause: text })@ == (ErrorView::InvalidTarget { cause: text@ }),
        (Error::UnknownCpus { cause: text })@ == (ErrorView::UnknownCpus { cause: text@ }),
        (Error::UnknownFeatures { cause: text })@ == (ErrorView::UnknownFeatures { cause: text@ }),
        (Error::NotEncoded { cause: text })@ == (ErrorView::NotEncoded { cause: text@ }),
        (Error::NotCompressed { cause: text })@ == (ErrorView::NotCompressed { cause: text@ }),
        (Error::UnreadableExecutable { path: text, cause })@ == (ErrorView::UnreadableExecutable {
            path: text@,
            cause: cause@,
        }),
{
}

} // verus!
