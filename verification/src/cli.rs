//! The options of the command line.

use crate::error::Error;
use crate::error::ErrorView;
use crate::error::outcome_view;
use crate::error::string_view;
use crate::error::strings_view;
use crate::lines::texts;
use crate::rustc;
use crate::rustc::default_target_is_on_the_first_host_line;
use crate::rustc::listed_cpus;
use crate::rustc::no_host_before;
use crate::rustc::reported_host;
use crate::rustc::version_args;
use crate::text;
use crate::text::strings;
use vstd::prelude::*;

verus! {

/// A subcommand of cargo.
#[derive(Debug)]
pub enum Cargo {
    /// Builds a package once per CPU and bundles the builds.
    Multivers(Args),
}

/// Type of information to print on stdout.
#[derive(Clone, Copy, Debug, PartialEq, Eq, Structural)]
pub enum Print {
    /// Prints the list of CPU features supported by the target.
    CpuFeatures,
}

/// The choice of features of the package.
#[derive(Debug)]
pub struct Features {
    /// Whether all features are enabled.
    pub all_features: bool,
    /// Whether the default features are left out.
    pub no_default_features: bool,
    /// The features to enable.
    pub features: Vec<String>,
}

/// The options of `cargo multivers` that decide what is built.
#[derive(Debug)]
pub struct Args {
    /// Build for the target triple.
    pub target: Option<String>,
    /// Rebuild the standard library for each CPU as well.
    pub rebuild_std: bool,
    /// Print information on stdout.
    pub print: Option<Print>,
    /// The CPUs to use as a target.
    pub cpus: Option<Vec<String>>,
    /// The CPU features to exclude from the builds.
    pub exclude_cpu_features: Option<Vec<String>>,
    /// The features of the package.
    pub features: Features,
    /// Arguments given to `cargo build`.
    pub args: Vec<String>,
}

/// The strings of an optional list, none if there is no list.
pub open spec fn listed(list: Option<Vec<String>>) -> Seq<Seq<char>> {
    match list {
        Some(list) => strings(list@),
        None => Seq::empty(),
    }
}

impl Args {
    /// The target to build for, given what came of asking for the compiler's
    /// version report.
    pub open spec fn chosen_target(self, answer: Result<Seq<u8>, Seq<char>>) -> Result<
        Seq<char>,
        ErrorView,
    > {
        match self.target {
            Some(target) => Ok(target@),
            None => match answer {
                Ok(report) => match reported_host(report) {
                    Some(host) => Ok(host),
                    None => Err(ErrorView::NoDefaultTarget),
                },
                Err(cause) => Err(ErrorView::UnknownVersion { cause }),
            },
        }
    }

    /// The CPUs to consider, given what came of asking the compiler for those of
    /// the target.
    pub open spec fn considered_cpus(self, answer: Result<Seq<u8>, Seq<char>>) -> Result<
        Seq<Seq<char>>,
        ErrorView,
    > {
        match self.cpus {
            Some(cpus) => Ok(strings(cpus@)),
            None => match answer {
                Ok(list) => Ok(listed_cpus(list)),
                Err(cause) => Err(ErrorView::UnknownCpus { cause }),
            },
        }
    }

    /// Returns the arguments for cargo that ask for what the choice of the target
    /// depends on, if it depends on anything.
    pub fn target_question(&self) -> (r: Option<Vec<String>>)
        ensures
            match r {
                Some(question) => self.target is None && strings(question@) == version_args(),
                None => self.target is Some,
            },
    {
        match &self.target {
            Some(_) => None,
            None => Some(rustc::version_query()),
        }
    }

    /// Returns the target given on the command line, or the default target that
    /// the compiler's version report names if none is given.
    pub fn target(&self, answer: Result<Vec<u8>, String>) -> (r: Result<String, Error>)
        ensures
            string_view(r) == self.chosen_target(outcome_view(answer)),
    {
        match &self.target {
            Some(target) => Ok(target.clone()),
            None => match answer {
                Ok(report) => match rustc::default_target(report.as_slice()) {
                    Some(host) => Ok(host),
                    None => Err(Error::NoDefaultTarget),
                },
                Err(cause) => Err(Error::UnknownVersion { cause }),
            },
        }
    }

    /// Returns the CPUs given on the command line, or those that the compiler
    /// lists for the target if none are given.
    pub fn candidate_cpus(&self, answer: Result<Vec<u8>, String>) -> (r: Result<
        Vec<String>,
        Error,
    >)
        ensures
            strings_view(r) == self.considered_cpus(outcome_view(answer)),
    {
        match &self.cpus {
            Some(cpus) => Ok(text::copy(cpus)),
            None => match answer {
                Ok(list) => Ok(rustc::cpus_from_target(list.as_slice())),
                Err(cause) => Err(Error::UnknownCpus { cause }),
            },
        }
    }

    /// Returns the CPU features to exclude from the builds.
    pub fn excluded_features(&self) -> (r: Vec<String>)
        ensures
            strings(r@) == listed(self.exclude_cpu_features),
    {
        match &self.exclude_cpu_features {
            Some(features) => text::copy(features),
            None => {
                let none: Vec<String> = Vec::new();
                assert(strings(none@) =~= Seq::empty());
                none
            },
        }
    }
}

/// A target or CPUs given on the command line are used whatever the compiler
/// would answer.
pub proof fn given_choices_need_no_answer(
    args: Args,
    first: Result<Seq<u8>, Seq<char>>,
    second: Result<Seq<u8>, Seq<char>>,
)
    ensures
        args.target is Some ==> args.chosen_target(first) == args.chosen_target(second)
            && args.chosen_target(first) is Ok,
        args.cpus is Some ==> args.considered_cpus(first) == args.considered_cpus(second)
            && args.considered_cpus(first) is Ok,
{
}

/// A given target is the target. Without one, it is what stands in the version
/// report behind `host: `, on the first line that begins so.
pub proof fn given_target_or_first_host_is_chosen(
    args: Args,
    answer: Result<Seq<u8>, Seq<char>>,
    target: Seq<char>,
)
    ensures
        args.target matches Some(given) ==> args.chosen_target(answer) == Ok::<
            Seq<char>,
            ErrorView,
        >(given@),
        args.target is None ==> (answer matches Ok(report) ==> {
            &&& args.chosen_target(answer) == Ok::<Seq<char>, ErrorView>(target) <==> exists|i: int|
                0 <= i < texts(report).len() && #[trigger] texts(report)[i] == Some(
                    "host: "@ + target,
                ) && no_host_before(texts(report), i)
            &&& args.chosen_target(answer) == Err::<Seq<char>, ErrorView>(
                ErrorView::NoDefaultTarget,
            ) <==> no_host_before(texts(report), texts(report).len() as int)
        }),
        args.target is None ==> (answer matches Err(cause) ==> args.chosen_target(answer) == Err::<
            Seq<char>,
            ErrorView,
        >(ErrorView::UnknownVersion { cause })),
{
    if let Ok(report) = answer {
        default_target_is_on_the_first_host_line(report, target);
    }
}

/// Given CPUs are the ones to consider, all of them and in their order. Without
/// any, it is those that the compiler lists.
pub proof fn given_or_listed_cpus_are_considered(args: Args, answer: Result<Seq<u8>, Seq<char>>)
    ensures
        args.cpus matches Some(given) ==> args.considered_cpus(answer) == Ok::<
            Seq<Seq<char>>,
            ErrorView,
        >(strings(given@)),
        args.cpus is None ==> (answer matches Ok(list) ==> args.considered_cpus(answer) == Ok::<
            Seq<Seq<char>>,
            ErrorView,
        >(listed_cpus(list))),
        args.cpus is None ==> (answer matches Err(cause) ==> args.considered_cpus(answer) == Err::<
            Seq<Seq<char>>,
            ErrorView,
        >(ErrorView::UnknownCpus { cause })),
        listed(None) == Seq::<Seq<char>>::empty(),
        args.exclude_cpu_features matches Some(excluded) ==> listed(args.exclude_cpu_features)
            == strings(excluded@),
{
}

} // verus!
