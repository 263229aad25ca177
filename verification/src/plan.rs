//! What is to be built: one run of cargo per CPU of a target.

use crate::cargo::Invocation;
use crate::cargo::InvocationView;
use crate::cargo::Selection;
use crate::cargo::SelectionView;
use crate::cargo::copy_selection;
use crate::cargo::select;
use crate::cargo::selected;
use crate::cargo::standard_library_args;
use crate::cargo::std_args;
use crate::cli::Args;
use crate::cli::listed;
use crate::error::Error;
use crate::error::ErrorView;
use crate::error::outcome_view;
use crate::error::strings_view;
use crate::rustc::cpus_args;
use crate::rustc::cpus_query;
use crate::lines::texts;
use crate::rustc::exactly_the_features_of_the_lines_are_listed;
use crate::rustc::features_from_cpu;
use crate::rustc::listed_cpus;
use crate::rustc::listed_features;
use crate::target::Triple;
use crate::target::first_part;
use crate::target::is_valid_cpu_for_target;
use crate::target::lexicon_architecture;
use crate::target::valid_cpu;
use crate::text;
use crate::text::joined;
use crate::text::separators_stand_between_neighbours;
use crate::text::strings;
use vstd::prelude::*;

verus! {

/// What is to be built.
#[derive(Debug)]
pub struct Plan {
    target: String,
    cpus: Vec<String>,
    target_dir: String,
    manifest_path: String,
    rust_flags: String,
    features: Selection,
    rebuild_std: bool,
    excluded: Vec<String>,
    args: Vec<String>,
}

/// The mathematical model of a [`Plan`].
pub ghost struct PlanView {
    /// The target triple.
    pub target: Seq<char>,
    /// The CPUs, in the order of their builds.
    pub cpus: Seq<Seq<char>>,
    /// The directory for what the runs leave behind.
    pub target_dir: Seq<char>,
    /// The manifest of the package.
    pub manifest_path: Seq<char>,
    /// Compiler flags for every build.
    pub rust_flags: Seq<char>,
    /// The choice of features of the package.
    pub features: SelectionView,
    /// Whether the standard library is rebuilt for each CPU.
    pub rebuild_std: bool,
    /// The CPU features that no build uses.
    pub excluded: Seq<Seq<char>>,
    /// Further arguments for every run.
    pub args: Seq<Seq<char>>,
}

impl View for Plan {
    type V = PlanView;

    closed spec fn view(&self) -> PlanView {
        PlanView {
            target: self.target@,
            cpus: strings(self.cpus@),
            target_dir: self.target_dir@,
            manifest_path: self.manifest_path@,
            rust_flags: self.rust_flags@,
            features: self.features@,
            rebuild_std: self.rebuild_std,
            excluded: strings(self.excluded@),
            args: strings(self.args@),
        }
    }
}

/// The CPUs of a list that the compiler can generate code for on an
/// architecture, in order.
pub open spec fn usable_cpus(architecture: Seq<char>, cpus: Seq<Seq<char>>) -> Seq<Seq<char>> {
    cpus.filter(|cpu: Seq<char>| valid_cpu(architecture, cpu))
}

/// The compiler flags that disable CPU features.
pub open spec fn disabling_flags(excluded: Seq<Seq<char>>) -> Seq<char> {
    if excluded.len() == 0 {
        Seq::empty()
    } else {
        " -Ctarget-feature="@ + joined(excluded.map_values(|f: Seq<char>| "-"@ + f), ","@)
    }
}

/// Those of a list of features that are not excluded, in order.
pub open spec fn without_excluded(features: Seq<Seq<char>>, excluded: Seq<Seq<char>>) -> Seq<
    Seq<char>,
> {
    features.filter(|f: Seq<char>| !excluded.contains(f))
}

impl PlanView {
    /// The plan that options lead to.
    pub open spec fn of(
        args: Args,
        target: Seq<char>,
        cpus: Seq<Seq<char>>,
        target_dir: Seq<char>,
        manifest_path: Seq<char>,
        rust_flags: Seq<char>,
    ) -> PlanView {
        PlanView {
            target,
            cpus,
            target_dir,
            manifest_path,
            rust_flags,
            features: selected(
                args.features.all_features,
                args.features.no_default_features,
                strings(args.features.features@),
            ),
            rebuild_std: args.rebuild_std,
            excluded: listed(args.exclude_cpu_features),
            args: strings(args.args@),
        }
    }

    /// The compiler flags of the build for a CPU.
    pub open spec fn flags(self, cpu: Seq<char>) -> Seq<char> {
        self.rust_flags + " -Ctarget-cpu="@ + cpu + disabling_flags(self.excluded)
    }

    /// The run of cargo that builds for a CPU. The target is always set: without
    /// it the flags would apply to build scripts, which run on this machine.
    pub open spec fn invocation(self, cpu: Seq<char>) -> InvocationView {
        InvocationView {
            release: true,
            target: Some(self.target),
            target_dir: self.target_dir,
            manifest_path: self.manifest_path,
            variable: "RUSTFLAGS"@,
            value: self.flags(cpu),
            args: std_args(self.rebuild_std) + self.args,
            features: Some(self.features),
        }
    }

    /// The line that announces the build for a CPU.
    pub open spec fn announcement(self, cpu: Seq<char>) -> Seq<char> {
        "    Building for target="@ + self.target + " target-cpu="@ + cpu
    }

    /// The lines that report a failure in the build for a CPU.
    pub open spec fn failure(self, cpu: Seq<char>, report: Seq<char>) -> Seq<char> {
        "    Failed to build for target="@ + self.target + " target-cpu="@ + cpu + ": "@ + report
            + "\n"@
    }

    /// The features that a build needs, given the compiler's configuration for
    /// its CPU.
    pub open spec fn needed_features(self, output: Seq<u8>) -> Seq<Seq<char>> {
        without_excluded(listed_features(output), self.excluded)
    }
}

/// The CPUs of a list that the compiler can generate code for on a target.
pub fn select_cpus(triple: &Triple, cpus: &Vec<String>) -> (r: Vec<String>)
    ensures
        strings(r@) == usable_cpus(triple@, strings(cpus@)),
{
    let ghost all = strings(cpus@);
    let ghost p = |cpu: Seq<char>| valid_cpu(triple@, cpu);
    let mut r: Vec<String> = Vec::new();
    let mut i: usize = 0;
    proof {
        reveal(Seq::filter);
        assert(strings(r@) =~= all.take(0).filter(p));
    }
    while i < cpus.len()
        invariant
            i <= cpus.len(),
            all == strings(cpus@),
            p == (|cpu: Seq<char>| valid_cpu(triple@, cpu)),
            strings(r@) == all.take(i as int).filter(p),
        decreases cpus.len() - i,
    {
        let ghost before = strings(r@);
        proof {
            reveal(Seq::filter);
            assert(all.take(i + 1).drop_last() =~= all.take(i as int));
            assert(all.take(i + 1).last() == cpus@[i as int]@);
        }
        if is_valid_cpu_for_target(triple, cpus[i].as_str()) {
            r.push(cpus[i].clone());
            assert(strings(r@) =~= before.push(cpus@[i as int]@));
        }
        i += 1;
    }
    assert(all.take(all.len() as int) =~= all);
    r
}

/// The CPUs to build for, given the architecture of the target or the report of
/// why it has none, and the CPUs to consider or why there are none.
pub open spec fn built_cpus(
    architecture: Result<Seq<char>, Seq<char>>,
    considered: Result<Seq<Seq<char>>, ErrorView>,
) -> Result<Seq<Seq<char>>, ErrorView> {
    match architecture {
        Ok(architecture) => match considered {
            Ok(cpus) => Ok(usable_cpus(architecture, cpus)),
            Err(error) => Err(error),
        },
        Err(cause) => Err(ErrorView::InvalidTarget { cause }),
    }
}

/// The arguments for cargo that ask for what the choice of CPUs depends on, if it
/// depends on anything. A target that is not a target triple is an error before
/// anything is asked.
pub fn cpus_question(args: &Args, target: &str) -> (r: Result<Option<Vec<String>>, Error>)
    ensures
        match r {
            Ok(Some(question)) => lexicon_architecture(target@) is Ok && args.cpus is None
                && strings(question@) == cpus_args(target@),
            Ok(None) => lexicon_architecture(target@) is Ok && args.cpus is Some,
            Err(error) => lexicon_architecture(target@) matches Err(cause) && error@ == (
            ErrorView::InvalidTarget { cause }),
        },
{
    match Triple::parse(target) {
        Ok(_) => match &args.cpus {
            Some(_) => Ok(None),
            None => Ok(Some(cpus_query(target))),
        },
        Err(error) => Err(error),
    }
}

/// The CPUs to build for: of those given on the command line, or else of those
/// that the compiler lists for the target, the ones that it can generate code
/// for. A target that is not a target triple, or else a list that is needed and
/// could not be had, is an error.
pub fn cpus_to_build(args: &Args, target: &str, answer: Result<Vec<u8>, String>) -> (r: Result<
    Vec<String>,
    Error,
>)
    ensures
        strings_view(r) == built_cpus(
            lexicon_architecture(target@),
            args.considered_cpus(outcome_view(answer)),
        ),
        r matches Ok(cpus) ==> args.considered_cpus(outcome_view(answer)) matches Ok(considered)
            && strings(cpus@) == if first_part(target@) == "x86_64"@ {
            usable_cpus("x86_64"@, considered)
        } else {
            considered
        },
{
    match Triple::parse(target) {
        Ok(triple) => match args.candidate_cpus(answer) {
            Ok(cpus) => {
                proof {
                    if triple@ != "x86_64"@ {
                        lemma_all_usable(triple@, strings(cpus@));
                    }
                }
                Ok(select_cpus(&triple, &cpus))
            },
            Err(error) => Err(error),
        },
        Err(error) => Err(error),
    }
}

proof fn lemma_all_usable(architecture: Seq<char>, cpus: Seq<Seq<char>>)
    requires
        architecture != "x86_64"@,
    ensures
        usable_cpus(architecture, cpus) == cpus,
    decreases cpus.len(),
{
    reveal(Seq::filter);
    if cpus.len() > 0 {
        lemma_all_usable(architecture, cpus.drop_last());
        assert(cpus.drop_last().push(cpus.last()) =~= cpus);
    }
}

/// The compiler flags that disable CPU features.
fn disabling(excluded: &Vec<String>) -> (r: String)
    ensures
        r@ == disabling_flags(strings(excluded@)),
{
    if excluded.len() == 0 {
        String::new()
    } else {
        let ghost all = strings(excluded@).map_values(|f: Seq<char>| "-"@ + f);
        let mut disabled: Vec<String> = Vec::new();
        let mut i: usize = 0;
        while i < excluded.len()
            invariant
                i <= excluded.len(),
                all == strings(excluded@).map_values(|f: Seq<char>| "-"@ + f),
                strings(disabled@) =~= all.take(i as int),
            decreases excluded.len() - i,
        {
            let mut flag = "-".to_owned();
            flag.append(excluded[i].as_str());
            assert(flag@ == all[i as int]);
            let ghost before = strings(disabled@);
            disabled.push(flag);
            assert(strings(disabled@) =~= before.push(flag@));
            assert(all.take(i + 1) =~= all.take(i as int).push(all[i as int]));
            i += 1;
        }
        assert(strings(disabled@) =~= all);
        let mut r = " -Ctarget-feature=".to_owned();
        r.append(text::join(&disabled, ",").as_str());
        r
    }
}

impl Plan {
    /// The plan that options lead to, for CPUs that can be built for.
    pub fn new(
        args: &Args,
        target: &str,
        cpus: Vec<String>,
        target_dir: &str,
        manifest_path: &str,
        rust_flags: &str,
    ) -> (r: Plan)
        ensures
            r@ == PlanView::of(
                *args,
                target@,
                strings(cpus@),
                target_dir@,
                manifest_path@,
                rust_flags@,
            ),
    {
        Plan {
            target: target.to_owned(),
            cpus,
            target_dir: target_dir.to_owned(),
            manifest_path: manifest_path.to_owned(),
            rust_flags: rust_flags.to_owned(),
            features: select(&args.features),
            rebuild_std: args.rebuild_std,
            excluded: args.excluded_features(),
            args: text::copy(&args.args),
        }
    }

    /// The CPUs of a plan can be counted.
    pub proof fn lemma_cpu_count(&self)
        ensures
            self@.cpus.len() <= usize::MAX,
    {
        assert(self.cpus.len() <= usize::MAX);
    }

    /// The number of CPUs.
    pub fn cpu_count(&self) -> (r: usize)
        ensures
            r == self@.cpus.len(),
    {
        self.cpus.len()
    }

    /// A CPU of the plan.
    pub fn cpu(&self, i: usize) -> (r: &str)
        requires
            i < self@.cpus.len(),
        ensures
            r@ == self@.cpus[i as int],
    {
        self.cpus[i].as_str()
    }

    /// The target triple.
    pub fn target(&self) -> (r: &str)
        ensures
            r@ == self@.target,
    {
        self.target.as_str()
    }

    /// The compiler flags of the build for a CPU.
    pub fn flags(&self, cpu: &str) -> (r: String)
        ensures
            r@ == self@.flags(cpu@),
    {
        let mut r = self.rust_flags.clone();
        r.append(" -Ctarget-cpu=");
        r.append(cpu);
        r.append(disabling(&self.excluded).as_str());
        r
    }

    /// The run of cargo that builds for a CPU.
    pub fn invocation(&self, cpu: &str) -> (r: Invocation)
        ensures
            r@ == self@.invocation(cpu@),
    {
        let mut args = standard_library_args(self.rebuild_std);
        let mut further = text::copy(&self.args);
        let ghost first = strings(args@);
        let ghost second = strings(further@);
        args.append(&mut further);
        assert(strings(args@) =~= first + second);
        Invocation {
            release: true,
            target: Some(self.target.clone()),
            target_dir: self.target_dir.clone(),
            manifest_path: self.manifest_path.clone(),
            variable: "RUSTFLAGS".to_owned(),
            value: self.flags(cpu),
            args,
            features: Some(copy_selection(&self.features)),
        }
    }

    /// The line that announces the build for a CPU.
    pub fn announcement(&self, cpu: &str) -> (r: String)
        ensures
            r@ == self@.announcement(cpu@),
    {
        let mut r = "    Building for target=".to_owned();
        r.append(self.target.as_str());
        r.append(" target-cpu=");
        r.append(cpu);
        r
    }

    /// The lines that report a failure in the build for a CPU.
    pub fn failure(&self, cpu: &str, report: &str) -> (r: String)
        ensures
            r@ == self@.failure(cpu@, report@),
    {
        let mut r = "    Failed to build for target=".to_owned();
        r.append(self.target.as_str());
        r.append(" target-cpu=");
        r.append(cpu);
        r.append(": ");
        r.append(report);
        r.append("\n");
        r
    }

    /// The features that a build needs, given the compiler's configuration for
    /// its CPU.
    pub fn needed_features(&self, output: &[u8]) -> (r: Vec<String>)
        ensures
            strings(r@) == self@.needed_features(output@),
    {
        let features = features_from_cpu(output);
        let ghost all = strings(features@);
        let ghost excluded = strings(self.excluded@);
        let ghost p = |f: Seq<char>| !excluded.contains(f);
        let mut r: Vec<String> = Vec::new();
        let mut i: usize = 0;
        proof {
            reveal(Seq::filter);
            assert(strings(r@) =~= all.take(0).filter(p));
        }
        while i < features.len()
            invariant
                i <= features.len(),
                all == strings(features@),
                excluded == strings(self.excluded@),
                p == (|f: Seq<char>| !excluded.contains(f)),
                strings(r@) == all.take(i as int).filter(p),
            decreases features.len() - i,
        {
            let ghost before = strings(r@);
            proof {
                reveal(Seq::filter);
                assert(all.take(i + 1).drop_last() =~= all.take(i as int));
                assert(all.take(i + 1).last() == features@[i as int]@);
            }
            if !text::contains(&self.excluded, features[i].as_str()) {
                r.push(features[i].clone());
                assert(strings(r@) =~= before.push(features@[i as int]@));
            }
            i += 1;
        }
        assert(all.take(all.len() as int) =~= all);
        r
    }
}

/// No CPU is selected that the compiler cannot generate code for, and every
/// other CPU is selected.
pub proof fn exactly_the_usable_cpus_are_selected(
    architecture: Seq<char>,
    cpus: Seq<Seq<char>>,
    cpu: Seq<char>,
)
    ensures
        usable_cpus(architecture, cpus).contains(cpu) <==> cpus.contains(cpu) && valid_cpu(
            architecture,
            cpu,
        ),
{
    let p = |c: Seq<char>| valid_cpu(architecture, c);
    if usable_cpus(architecture, cpus).contains(cpu) {
        let i = choose|i: int|
            0 <= i < cpus.filter(p).len() && cpus.filter(p)[i] == cpu;
        cpus.lemma_filter_pred(p, i);
        cpus.lemma_filter_contains_rev(p, cpu);
    }
    if cpus.contains(cpu) && valid_cpu(architecture, cpu) {
        let i = choose|i: int| 0 <= i < cpus.len() && cpus[i] == cpu;
        cpus.lemma_filter_contains(p, i);
    }
}

/// No build needs a feature that is excluded, and every other feature of its
/// CPU is needed.
pub proof fn exactly_the_excluded_features_are_left_out(
    plan: PlanView,
    output: Seq<u8>,
    feature: Seq<char>,
)
    ensures
        plan.needed_features(output).contains(feature) <==> listed_features(output).contains(
            feature,
        ) && !plan.excluded.contains(feature),
{
    let all = listed_features(output);
    let p = |f: Seq<char>| !plan.excluded.contains(f);
    if all.filter(p).contains(feature) {
        let i = choose|i: int| 0 <= i < all.filter(p).len() && all.filter(p)[i] == feature;
        all.lemma_filter_pred(p, i);
        all.lemma_filter_contains_rev(p, feature);
    }
    if all.contains(feature) && !plan.excluded.contains(feature) {
        let i = choose|i: int| 0 <= i < all.len() && all[i] == feature;
        all.lemma_filter_contains(p, i);
    }
}

/// Without exclusions the flags only name the CPU, and builds need all features
/// of their CPU.
pub proof fn nothing_is_excluded_by_default(plan: PlanView, cpu: Seq<char>, output: Seq<u8>)
    requires
        plan.excluded.len() == 0,
    ensures
        plan.flags(cpu) == plan.rust_flags + " -Ctarget-cpu="@ + cpu,
        plan.needed_features(output) == listed_features(output),
{
    assert(plan.flags(cpu) =~= plan.rust_flags + " -Ctarget-cpu="@ + cpu);
    lemma_all_kept(listed_features(output), plan.excluded);
}

proof fn lemma_all_kept(features: Seq<Seq<char>>, excluded: Seq<Seq<char>>)
    requires
        excluded.len() == 0,
    ensures
        without_excluded(features, excluded) == features,
    decreases features.len(),
{
    reveal(Seq::filter);
    if features.len() > 0 {
        lemma_all_kept(features.drop_last(), excluded);
        assert(features.drop_last().push(features.last()) =~= features);
    }
}

/// The run of cargo for a CPU does what the options ask for: it builds the
/// package in release mode for the target, with flags that name the CPU, with the
/// features of the package that are asked for, and with the further arguments.
pub proof fn runs_of_cargo_follow_the_options(
    args: Args,
    target: Seq<char>,
    cpus: Seq<Seq<char>>,
    target_dir: Seq<char>,
    manifest_path: Seq<char>,
    rust_flags: Seq<char>,
    cpu: Seq<char>,
)
    ensures
        ({
            let plan = PlanView::of(args, target, cpus, target_dir, manifest_path, rust_flags);
            let run = plan.invocation(cpu);
            &&& plan.target == target
            &&& plan.cpus == cpus
            &&& run.release
            &&& run.target == Some(target)
            &&& run.target_dir == target_dir
            &&& run.manifest_path == manifest_path
            &&& run.variable == "RUSTFLAGS"@
            &&& (rust_flags + " -Ctarget-cpu="@ + cpu).is_prefix_of(run.value)
            &&& args.exclude_cpu_features is None ==> run.value == rust_flags + " -Ctarget-cpu="@
                + cpu
            &&& run.args == (if args.rebuild_std {
                seq!["-Zbuild-std=std"@]
            } else {
                Seq::empty()
            }) + strings(args.args@)
            &&& args.features.all_features ==> run.features == Some(SelectionView::All)
            &&& !args.features.all_features && args.features.no_default_features ==> run.features
                == Some(SelectionView::NoDefault)
            &&& !args.features.all_features && !args.features.no_default_features ==> run.features
                == Some(
                SelectionView::List { features: joined(strings(args.features.features@), " "@) },
            )
        }),
{
    let plan = PlanView::of(args, target, cpus, target_dir, manifest_path, rust_flags);
    let named = rust_flags + " -Ctarget-cpu="@ + cpu;
    assert(plan.flags(cpu) =~= named + disabling_flags(plan.excluded));
    assert(named =~= plan.flags(cpu).subrange(0, named.len() as int));
    if args.exclude_cpu_features is None {
        assert(plan.flags(cpu) =~= named);
    }
}

/// Excluding one more feature disables it in the flags of every CPU, behind those
/// that are disabled already, and changes nothing else in them.
pub proof fn every_excluded_feature_is_disabled(
    plan: PlanView,
    more: PlanView,
    feature: Seq<char>,
    cpu: Seq<char>,
)
    requires
        more == (PlanView { excluded: plan.excluded.push(feature), ..plan }),
    ensures
        plan.excluded.len() == 0 ==> more.flags(cpu) == plan.flags(cpu) + " -Ctarget-feature="@
            + "-"@ + feature,
        plan.excluded.len() > 0 ==> more.flags(cpu) == plan.flags(cpu) + ","@ + "-"@ + feature,
{
    let disabled = |f: Seq<char>| "-"@ + f;
    let before = plan.excluded.map_values(disabled);
    let after = more.excluded.map_values(disabled);
    let last = "-"@ + feature;
    assert(after =~= before + seq![last]);
    separators_stand_between_neighbours(before, seq![last], last, ","@);
    if plan.excluded.len() == 0 {
        assert(after =~= seq![last]);
        assert(more.flags(cpu) =~= plan.flags(cpu) + " -Ctarget-feature="@ + "-"@ + feature);
    } else {
        assert(more.flags(cpu) =~= plan.flags(cpu) + ","@ + "-"@ + feature);
    }
}

/// A build needs a feature exactly if the configuration for its CPU has a line
/// that names it, it does not begin with `llvm`, and the options do not exclude
/// it.
pub proof fn builds_need_the_features_of_their_cpu(
    args: Args,
    target: Seq<char>,
    cpus: Seq<Seq<char>>,
    target_dir: Seq<char>,
    manifest_path: Seq<char>,
    rust_flags: Seq<char>,
    output: Seq<u8>,
    feature: Seq<char>,
)
    ensures
        PlanView::of(
            args,
            target,
            cpus,
            target_dir,
            manifest_path,
            rust_flags,
        ).needed_features(output).contains(feature) <==> {
            &&& !"llvm"@.is_prefix_of(feature)
            &&& texts(output).contains(Some("target_feature=\""@ + feature + "\""@))
            &&& !(args.exclude_cpu_features matches Some(list) && strings(list@).contains(feature))
        },
{
    let plan = PlanView::of(args, target, cpus, target_dir, manifest_path, rust_flags);
    exactly_the_excluded_features_are_left_out(plan, output, feature);
    exactly_the_features_of_the_lines_are_listed(output, feature);
}

/// The features that a build needs keep the order in which they are listed, and
/// are not counted more or less often.
pub proof fn needed_features_keep_their_order(
    plan: PlanView,
    output: Seq<u8>,
    longer: Seq<u8>,
    feature: Seq<char>,
)
    requires
        listed_features(longer) == listed_features(output).push(feature),
    ensures
        plan.excluded.contains(feature) ==> plan.needed_features(longer) == plan.needed_features(
            output,
        ),
        !plan.excluded.contains(feature) ==> plan.needed_features(longer) == plan.needed_features(
            output,
        ).push(feature),
{
    reveal(Seq::filter);
    assert(listed_features(longer).drop_last() =~= listed_features(output));
}

/// The selected CPUs keep their order, and none is selected more or less often
/// than it is considered.
pub proof fn selected_cpus_keep_their_order(
    architecture: Seq<char>,
    cpus: Seq<Seq<char>>,
    cpu: Seq<char>,
)
    ensures
        usable_cpus(architecture, Seq::empty()).len() == 0,
        valid_cpu(architecture, cpu) ==> usable_cpus(architecture, cpus.push(cpu)) == usable_cpus(
            architecture,
            cpus,
        ).push(cpu),
        !valid_cpu(architecture, cpu) ==> usable_cpus(architecture, cpus.push(cpu)) == usable_cpus(
            architecture,
            cpus,
        ),
{
    reveal(Seq::filter);
    assert(cpus.push(cpu).drop_last() =~= cpus);
}

/// The CPUs to build for are the given ones, or else the listed ones, that are
/// valid for the architecture. A target without an architecture is an error before
/// anything else; a list that could not be had is one where no CPUs are given.
pub proof fn exactly_these_cpus_are_built_for(
    args: Args,
    architecture: Seq<char>,
    cause: Seq<char>,
    answer: Result<Seq<u8>, Seq<char>>,
    cpu: Seq<char>,
)
    ensures
        built_cpus(Err(cause), args.considered_cpus(answer)) == Err::<Seq<Seq<char>>, ErrorView>(
            ErrorView::InvalidTarget { cause },
        ),
        args.cpus matches Some(given) ==> (built_cpus(
            Ok(architecture),
            args.considered_cpus(answer),
        ) matches Ok(cpus) && (cpus.contains(cpu) <==> strings(given@).contains(cpu) && valid_cpu(
            architecture,
            cpu,
        ))),
        args.cpus is None ==> (answer matches Ok(list) ==> (built_cpus(
            Ok(architecture),
            args.considered_cpus(answer),
        ) matches Ok(cpus) && (cpus.contains(cpu) <==> listed_cpus(list).contains(cpu)
            && valid_cpu(architecture, cpu)))),
        args.cpus is None ==> (answer matches Err(report) ==> built_cpus(
            Ok(architecture),
            args.considered_cpus(answer),
        ) == Err::<Seq<Seq<char>>, ErrorView>(ErrorView::UnknownCpus { cause: report })),
{
    if let Ok(considered) = args.considered_cpus(answer) {
        exactly_the_usable_cpus_are_selected(architecture, considered, cpu);
    }
}

/// What is said about the build for a CPU names the target and the CPU.
pub proof fn announcements_name_the_target_and_the_cpu(
    plan: PlanView,
    cpu: Seq<char>,
    report: Seq<char>,
)
    ensures
        plan.announcement(cpu) == "    Building for target="@ + plan.target + " target-cpu="@
            + cpu,
        plan.failure(cpu, report) == "    Failed to build for target="@ + plan.target
            + " target-cpu="@ + cpu + ": "@ + report + "\n"@,
{
}

} // verus!
