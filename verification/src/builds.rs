//! Builds of a package, and the order in which they are tried.

use crate::text::strings;
use vstd::prelude::*;

verus! {

/// An executable together with the CPU features that it needs.
#[derive(Debug)]
pub struct Build {
    bytes: Vec<u8>,
    required_cpu_features: Vec<String>,
}

/// The mathematical model of a [`Build`].
pub ghost struct BuildView {
    /// The executable.
    pub bytes: Seq<u8>,
    /// The features that a CPU must have to run it.
    pub required_cpu_features: Seq<Seq<char>>,
}

impl View for Build {
    type V = BuildView;

    closed spec fn view(&self) -> BuildView {
        BuildView {
            bytes: self.bytes@,
            required_cpu_features: strings(self.required_cpu_features@),
        }
    }
}

/// The models of a list of builds.
pub open spec fn builds_view(builds: Seq<Build>) -> Seq<BuildView> {
    builds.map_values(|build: Build| build@)
}

/// The builds of a list that need exactly `n` features, in order.
pub open spec fn needing(builds: Seq<BuildView>, n: nat) -> Seq<BuildView> {
    builds.filter(|build: BuildView| build.required_cpu_features.len() == n)
}

/// Whether no build needs more features than one before it.
pub open spec fn most_demanding_first(builds: Seq<BuildView>) -> bool {
    forall|i: int, j: int|
        0 <= i <= j < builds.len() ==> (#[trigger] builds[i]).required_cpu_features.len()
            >= (#[trigger] builds[j]).required_cpu_features.len()
}

/// Whether `after` holds the builds of `before`, the most demanding first.
/// Builds that need equally many features keep their order.
pub open spec fn prioritized(before: Seq<BuildView>, after: Seq<BuildView>) -> bool {
    &&& most_demanding_first(after)
    &&& forall|n: nat| #[trigger] needing(after, n) == needing(before, n)
}

/// The builds of a list, the most demanding first.
pub open spec fn in_order(builds: Seq<BuildView>) -> Seq<BuildView> {
    choose|after: Seq<BuildView>| prioritized(builds, after)
}

impl Build {
    /// A build with its executable and the features that it needs.
    pub fn new(bytes: Vec<u8>, required_cpu_features: Vec<String>) -> (r: Build)
        ensures
            r@ == (BuildView {
                bytes: bytes@,
                required_cpu_features: strings(required_cpu_features@),
            }),
    {
        Build { bytes, required_cpu_features }
    }

    /// The features that a CPU must have to run the build.
    pub fn required_cpu_features(&self) -> (r: &Vec<String>)
        ensures
            strings(r@) == self@.required_cpu_features,
    {
        &self.required_cpu_features
    }

    /// The executable.
    pub fn bytes(&self) -> (r: &Vec<u8>)
        ensures
            r@ == self@.bytes,
    {
        &self.bytes
    }

    /// The executable and the features that it needs.
    pub fn into_parts(self) -> (r: (Vec<u8>, Vec<String>))
        ensures
            self@ == (BuildView { bytes: r.0@, required_cpu_features: strings(r.1@) }),
    {
        (self.bytes, self.required_cpu_features)
    }
}

/// What a list needs with one build put between two parts of it, the first of
/// which needs more features throughout.
proof fn lemma_needing_insert(before: Seq<BuildView>, build: BuildView, behind: Seq<BuildView>)
    requires
        forall|i: int|
            0 <= i < before.len() ==> (#[trigger] before[i]).required_cpu_features.len()
                > build.required_cpu_features.len(),
    ensures
        forall|n: nat| #[trigger]
            needing(before + seq![build] + behind, n) == needing(seq![build] + (before + behind), n),
{
    assert forall|n: nat| #[trigger]
        needing(before + seq![build] + behind, n) == needing(
        seq![build] + (before + behind),
        n,
    ) by {
        let p = |b: BuildView| b.required_cpu_features.len() == n;
        Seq::filter_distributes_over_add(before + seq![build], behind, p);
        Seq::filter_distributes_over_add(before, seq![build], p);
        Seq::filter_distributes_over_add(seq![build], before + behind, p);
        Seq::filter_distributes_over_add(before, behind, p);
        if build.required_cpu_features.len() == n {
            lemma_needing_none(before, n);
            assert(before.filter(p) =~= Seq::empty());
            assert(needing(before + seq![build] + behind, n) =~= seq![build].filter(p)
                + behind.filter(p));
            assert(needing(seq![build] + (before + behind), n) =~= seq![build].filter(p)
                + behind.filter(p));
        } else {
            lemma_needing_none(seq![build], n);
            assert(seq![build].filter(p) =~= Seq::empty());
            assert(needing(before + seq![build] + behind, n) =~= before.filter(p) + behind.filter(
                p,
            ));
            assert(needing(seq![build] + (before + behind), n) =~= before.filter(p)
                + behind.filter(p));
        }
    }
}

/// A list in which no build needs `n` features.
proof fn lemma_needing_none(builds: Seq<BuildView>, n: nat)
    requires
        forall|i: int|
            0 <= i < builds.len() ==> (#[trigger] builds[i]).required_cpu_features.len() != n,
    ensures
        needing(builds, n).len() == 0,
    decreases builds.len(),
{
    reveal(Seq::filter);
    if builds.len() > 0 {
        assert forall|i: int| 0 <= i < builds.drop_last().len() implies (
        #[trigger] builds.drop_last()[i]).required_cpu_features.len() != n by {
            assert(builds.drop_last()[i] == builds[i]);
        }
        lemma_needing_none(builds.drop_last(), n);
        assert(builds.last() == builds[builds.len() - 1]);
    }
}

/// Putting one more build in its place keeps the order.
proof fn lemma_insert(rest: Seq<BuildView>, after: Seq<BuildView>, build: BuildView, at: int)
    requires
        prioritized(rest, after),
        0 <= at <= after.len(),
        forall|i: int|
            0 <= i < at ==> (#[trigger] after[i]).required_cpu_features.len()
                > build.required_cpu_features.len(),
        at < after.len() ==> after[at].required_cpu_features.len()
            <= build.required_cpu_features.len(),
    ensures
        prioritized(seq![build] + rest, after.take(at) + seq![build] + after.skip(at)),
{
    let before = after.take(at);
    let behind = after.skip(at);
    let new = before + seq![build] + behind;
    assert(before + behind =~= after);
    lemma_needing_insert(before, build, behind);
    assert forall|n: nat| #[trigger] needing(new, n) == needing(seq![build] + rest, n) by {
        let p = |b: BuildView| b.required_cpu_features.len() == n;
        assert(needing(new, n) == needing(seq![build] + (before + behind), n));
        Seq::filter_distributes_over_add(seq![build], after, p);
        Seq::filter_distributes_over_add(seq![build], rest, p);
        assert(needing(after, n) == needing(rest, n));
    }
    assert forall|i: int, j: int| 0 <= i <= j < new.len() implies (
    #[trigger] new[i]).required_cpu_features.len() >= (
    #[trigger] new[j]).required_cpu_features.len() by {
        let old_i = if i < at { i } else { i - 1 };
        let old_j = if j < at { j } else { j - 1 };
        if i != at {
            assert(new[i] == after[old_i]);
        }
        if j != at {
            assert(new[j] == after[old_j]);
        }
        if i == at && j != at {
            assert(after[at].required_cpu_features.len()
                >= after[old_j].required_cpu_features.len());
        }
    }
}

/// The number of leading builds that need more than `n` features.
spec fn ahead(builds: Seq<BuildView>, n: nat) -> nat
    decreases builds.len(),
{
    if builds.len() == 0 || builds.first().required_cpu_features.len() <= n {
        0
    } else {
        1 + ahead(builds.drop_first(), n)
    }
}

proof fn lemma_ahead(builds: Seq<BuildView>, n: nat)
    ensures
        ahead(builds, n) <= builds.len(),
        forall|i: int|
            0 <= i < ahead(builds, n) ==> (#[trigger] builds[i]).required_cpu_features.len() > n,
        ahead(builds, n) < builds.len() ==> builds[ahead(
            builds,
            n,
        ) as int].required_cpu_features.len() <= n,
    decreases builds.len(),
{
    if builds.len() > 0 && builds.first().required_cpu_features.len() > n {
        lemma_ahead(builds.drop_first(), n);
        assert forall|i: int| 0 <= i < ahead(builds, n) implies (
        #[trigger] builds[i]).required_cpu_features.len() > n by {
            if i > 0 {
                assert(builds[i] == builds.drop_first()[i - 1]);
            }
        }
    }
}

/// Every list of builds can be put in order.
pub proof fn every_list_can_be_put_in_order(builds: Seq<BuildView>)
    ensures
        prioritized(builds, in_order(builds)),
    decreases builds.len(),
{
    if builds.len() == 0 {
        assert(prioritized(builds, builds));
    } else {
        let build = builds.first();
        let rest = builds.drop_first();
        let after = in_order(rest);
        every_list_can_be_put_in_order(rest);
        let at = ahead(after, build.required_cpu_features.len()) as int;
        lemma_ahead(after, build.required_cpu_features.len());
        lemma_insert(rest, after, build, at);
        assert(seq![build] + rest =~= builds);
        assert(prioritized(builds, after.take(at) + seq![build] + after.skip(at)));
    }
}

/// Puts the builds that need the most features first, so that the first build
/// that a CPU supports uses the most of it.
pub fn prioritize(builds: Vec<Build>) -> (r: Vec<Build>)
    ensures
        prioritized(builds_view(builds@), builds_view(r@)),
        builds_view(r@) == in_order(builds_view(builds@)),
{
    let ghost all = builds_view(builds@);
    let mut builds = builds;
    let mut r: Vec<Build> = Vec::new();
    proof {
        assert(all.skip(all.len() as int) =~= builds_view(r@));
    }
    while builds.len() > 0
        invariant
            builds.len() <= all.len(),
            builds_view(builds@) == all.take(builds.len() as int),
            prioritized(all.skip(builds.len() as int), builds_view(r@)),
        decreases builds.len(),
    {
        let ghost left = builds.len() as int;
        let ghost old_r = builds_view(r@);
        proof {
            assert(builds_view(builds@)[left - 1] == all[left - 1]);
        }
        if let Some(build) = builds.pop() {
            let n: usize = build.required_cpu_features().len();
            let mut at: usize = 0;
            while at < r.len() && r[at].required_cpu_features().len() > n
                invariant
                    at <= r.len(),
                    old_r == builds_view(r@),
                    n == build@.required_cpu_features.len(),
                    forall|i: int|
                        0 <= i < at ==> (#[trigger] old_r[i]).required_cpu_features.len() > n,
                decreases r.len() - at,
            {
                assert(old_r[at as int] == r@[at as int]@);
                at += 1;
            }
            assert(at < r.len() ==> old_r[at as int] == r@[at as int]@);
            r.insert(at, build);
            proof {
                assert(builds_view(r@) =~= old_r.take(at as int) + seq![build@] + old_r.skip(
                    at as int,
                ));
                lemma_insert(all.skip(left), old_r, build@, at as int);
                assert(all.skip(left - 1) =~= seq![build@] + all.skip(left));
                assert(builds_view(builds@) =~= all.take(left - 1));
            }
        }
    }
    proof {
        assert(all.skip(0) =~= all);
        every_list_can_be_put_in_order(all);
        priorities_are_unique(all, builds_view(r@), in_order(all));
    }
    r
}

/// How often a build occurs in a list, counted among those that need as many
/// features.
proof fn lemma_count_needing(builds: Seq<BuildView>, build: BuildView)
    ensures
        builds.to_multiset().count(build) == needing(
            builds,
            build.required_cpu_features.len(),
        ).to_multiset().count(build),
    decreases builds.len(),
{
    reveal(Seq::filter);
    broadcast use vstd::seq_lib::group_to_multiset_ensures;

    let n = build.required_cpu_features.len();
    if builds.len() > 0 {
        lemma_count_needing(builds.drop_last(), build);
        assert(builds =~= builds.drop_last().push(builds.last()));
        assert(builds.to_multiset() == builds.drop_last().to_multiset().insert(builds.last()));
        if builds.last().required_cpu_features.len() == n {
            assert(needing(builds, n) == needing(builds.drop_last(), n).push(builds.last()));
            assert(needing(builds, n).to_multiset() == needing(
                builds.drop_last(),
                n,
            ).to_multiset().insert(builds.last()));
        } else {
            assert(needing(builds, n) == needing(builds.drop_last(), n));
        }
    } else {
        assert(needing(builds, n) =~= builds);
    }
}

/// Putting builds in order neither loses, adds nor repeats one.
pub proof fn prioritizing_keeps_every_build(before: Seq<BuildView>, after: Seq<BuildView>)
    requires
        prioritized(before, after),
    ensures
        after.to_multiset() == before.to_multiset(),
{
    assert forall|build: BuildView| #[trigger]
        after.to_multiset().count(build) == before.to_multiset().count(build) by {
        lemma_count_needing(before, build);
        lemma_count_needing(after, build);
        assert(needing(after, build.required_cpu_features.len()) == needing(
            before,
            build.required_cpu_features.len(),
        ));
    }
    assert(after.to_multiset() =~= before.to_multiset());
}

/// Whether a CPU with the given features can run a build.
pub open spec fn runs_on(build: BuildView, cpu_features: Set<Seq<char>>) -> bool {
    forall|i: int|
        0 <= i < build.required_cpu_features.len() ==> cpu_features.contains(
            #[trigger] build.required_cpu_features[i],
        )
}

/// On every CPU, the first build of the ordered list that it can run needs at
/// least as many features as any other build that it can run.
pub proof fn first_build_that_runs_is_most_demanding(
    before: Seq<BuildView>,
    after: Seq<BuildView>,
    cpu_features: Set<Seq<char>>,
    first: int,
    other: int,
)
    requires
        prioritized(before, after),
        0 <= first < after.len(),
        runs_on(after[first], cpu_features),
        forall|i: int| 0 <= i < first ==> !runs_on(#[trigger] after[i], cpu_features),
        0 <= other < before.len(),
        runs_on(before[other], cpu_features),
    ensures
        after[first].required_cpu_features.len() >= before[other].required_cpu_features.len(),
{
    broadcast use vstd::seq_lib::group_to_multiset_ensures;

    prioritizing_keeps_every_build(before, after);
    assert(before.contains(before[other]));
    assert(after.to_multiset().contains(before[other]));
    let at = choose|i: int| 0 <= i < after.len() && after[i] == before[other];
    assert(runs_on(after[at], cpu_features));
    assert(after[first].required_cpu_features.len() >= after[at].required_cpu_features.len());
}

/// The order is determined by the builds and the order that they came in.
pub proof fn priorities_are_unique(
    before: Seq<BuildView>,
    first: Seq<BuildView>,
    second: Seq<BuildView>,
)
    requires
        prioritized(before, first),
        prioritized(before, second),
    ensures
        first == second,
    decreases first.len(),
{
    broadcast use vstd::seq_lib::group_to_multiset_ensures;

    reveal(Seq::filter);
    prioritizing_keeps_every_build(before, first);
    prioritizing_keeps_every_build(before, second);
    assert(first.to_multiset().len() == first.len());
    assert(second.to_multiset().len() == second.len());
    if first.len() == 0 {
        assert(first =~= second);
    } else {
        let n = first.last().required_cpu_features.len();
        let m = second.last().required_cpu_features.len();
        assert(first.contains(first.last()));
        assert(second.contains(second.last()));
        assert(second.to_multiset().contains(first.last()));
        assert(first.to_multiset().contains(second.last()));
        let i = choose|i: int| 0 <= i < second.len() && second[i] == first.last();
        let j = choose|j: int| 0 <= j < first.len() && first[j] == second.last();
        assert(second[i].required_cpu_features.len() >= m);
        assert(first[j].required_cpu_features.len() >= n);
        assert(n == m);
        assert(needing(first, n) == needing(second, n));
        assert(needing(first, n).last() == first.last());
        assert(needing(second, n).last() == second.last());
        let shorter = first.drop_last();
        assert forall|k: nat| #[trigger] needing(second.drop_last(), k) == needing(shorter, k) by {
            assert(needing(first, k) == needing(second, k));
            if k == n {
                assert(needing(first, k) == needing(shorter, k).push(first.last()));
                assert(needing(second, k) == needing(second.drop_last(), k).push(second.last()));
                assert(needing(shorter, k) =~= needing(first, k).drop_last());
                assert(needing(second.drop_last(), k) =~= needing(second, k).drop_last());
            }
        }
        assert(most_demanding_first(shorter)) by {
            assert forall|a: int, b: int| 0 <= a <= b < shorter.len() implies (
            #[trigger] shorter[a]).required_cpu_features.len() >= (
            #[trigger] shorter[b]).required_cpu_features.len() by {
                assert(shorter[a] == first[a] && shorter[b] == first[b]);
            }
        }
        assert(most_demanding_first(second.drop_last())) by {
            assert forall|a: int, b: int| 0 <= a <= b < second.drop_last().len() implies (
            #[trigger] second.drop_last()[a]).required_cpu_features.len() >= (
            #[trigger] second.drop_last()[b]).required_cpu_features.len() by {
                assert(second.drop_last()[a] == second[a] && second.drop_last()[b] == second[b]);
            }
        }
        priorities_are_unique(shorter, shorter, second.drop_last());
        assert(first =~= shorter.push(first.last()));
        assert(second =~= second.drop_last().push(second.last()));
    }
}

} // verus!
