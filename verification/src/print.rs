//! The CPU features that a target supports.

use crate::rustc::features_from_cpu;
use crate::rustc::listed_features;
use crate::text;
use crate::text::strings;
use vstd::prelude::*;

verus! {

/// A list of features with those of a second list that it lacks behind it, each
/// once.
pub open spec fn merged(known: Seq<Seq<char>>, more: Seq<Seq<char>>) -> Seq<Seq<char>>
    decreases more.len(),
{
    if more.len() == 0 {
        known
    } else {
        let before = merged(known, more.drop_last());
        if before.contains(more.last()) {
            before
        } else {
            before.push(more.last())
        }
    }
}

/// The features that a target supports, given the compiler's configurations for
/// its CPUs: those of every CPU, in the order in which they are first listed.
pub open spec fn supported_features(outputs: Seq<Seq<u8>>) -> Seq<Seq<char>>
    decreases outputs.len(),
{
    if outputs.len() == 0 {
        Seq::empty()
    } else {
        merged(supported_features(outputs.drop_last()), listed_features(outputs.last()))
    }
}

/// The contents of a list of outputs.
pub open spec fn outputs_view(outputs: Seq<Vec<u8>>) -> Seq<Seq<u8>> {
    outputs.map_values(|output: Vec<u8>| output@)
}

/// Adds features that a list lacks.
fn merge(known: Vec<String>, more: Vec<String>) -> (r: Vec<String>)
    ensures
        strings(r@) == merged(strings(known@), strings(more@)),
{
    let ghost all = strings(more@);
    let ghost old = strings(known@);
    let mut r = known;
    let mut i: usize = 0;
    assert(all.take(0) =~= Seq::empty());
    while i < more.len()
        invariant
            i <= more.len(),
            all == strings(more@),
            strings(r@) == merged(old, all.take(i as int)),
        decreases more.len() - i,
    {
        let ghost before = strings(r@);
        proof {
            assert(all.take(i + 1).drop_last() =~= all.take(i as int));
            assert(all.take(i + 1).last() == more@[i as int]@);
        }
        if !text::contains(&r, more[i].as_str()) {
            r.push(more[i].clone());
            assert(strings(r@) =~= before.push(more@[i as int]@));
        }
        i += 1;
    }
    assert(all.take(all.len() as int) =~= all);
    r
}

/// The features that a target supports, given the compiler's configurations for
/// its CPUs.
pub fn supported_cpu_features(outputs: &Vec<Vec<u8>>) -> (r: Vec<String>)
    ensures
        strings(r@) == supported_features(outputs_view(outputs@)),
{
    let ghost all = outputs_view(outputs@);
    let mut r: Vec<String> = Vec::new();
    let mut i: usize = 0;
    proof {
        assert(all.take(0) =~= Seq::empty());
        assert(strings(r@) =~= Seq::empty());
    }
    while i < outputs.len()
        invariant
            i <= outputs.len(),
            all == outputs_view(outputs@),
            strings(r@) == supported_features(all.take(i as int)),
        decreases outputs.len() - i,
    {
        proof {
            assert(all.take(i + 1).drop_last() =~= all.take(i as int));
            assert(all.take(i + 1).last() == outputs@[i as int]@);
        }
        r = merge(r, features_from_cpu(outputs[i].as_slice()));
        i += 1;
    }
    assert(all.take(all.len() as int) =~= all);
    r
}

proof fn lemma_merged(known: Seq<Seq<char>>, more: Seq<Seq<char>>, feature: Seq<char>)
    ensures
        merged(known, more).contains(feature) <==> known.contains(feature) || more.contains(
            feature,
        ),
        known.no_duplicates() ==> merged(known, more).no_duplicates(),
    decreases more.len(),
{
    if more.len() > 0 {
        let rest = more.drop_last();
        let before = merged(known, rest);
        lemma_merged(known, rest, feature);
        lemma_merged(known, rest, more.last());
        assert(more =~= rest.push(more.last()));
        lemma_push_contains(rest, more.last(), feature);
        lemma_push_contains(before, more.last(), feature);
    }
}

proof fn lemma_push_contains(list: Seq<Seq<char>>, last: Seq<char>, feature: Seq<char>)
    ensures
        list.push(last).contains(feature) <==> list.contains(feature) || last == feature,
{
    let longer = list.push(last);
    if list.contains(feature) {
        let i = choose|i: int| 0 <= i < list.len() && list[i] == feature;
        assert(longer[i] == feature);
    }
    if last == feature {
        assert(longer[list.len() as int] == feature);
    }
    if longer.contains(feature) {
        let i = choose|i: int| 0 <= i < longer.len() && longer[i] == feature;
        if i < list.len() {
            assert(list[i] == feature);
        }
    }
}

/// A feature is listed exactly if some CPU of the target has it.
pub proof fn exactly_the_features_of_the_cpus_are_supported(
    outputs: Seq<Seq<u8>>,
    feature: Seq<char>,
)
    ensures
        supported_features(outputs).contains(feature) <==> exists|i: int|
            0 <= i < outputs.len() && listed_features(#[trigger] outputs[i]).contains(feature),
    decreases outputs.len(),
{
    if outputs.len() > 0 {
        let rest = outputs.drop_last();
        exactly_the_features_of_the_cpus_are_supported(rest, feature);
        lemma_merged(supported_features(rest), listed_features(outputs.last()), feature);
        if supported_features(rest).contains(feature) {
            let i = choose|i: int|
                0 <= i < rest.len() && listed_features(#[trigger] rest[i]).contains(feature);
            assert(outputs[i] == rest[i]);
        }
        if listed_features(outputs.last()).contains(feature) {
            assert(outputs[outputs.len() - 1] == outputs.last());
        }
        if exists|i: int|
            0 <= i < outputs.len() && listed_features(#[trigger] outputs[i]).contains(feature) {
            let i = choose|i: int|
                0 <= i < outputs.len() && listed_features(#[trigger] outputs[i]).contains(feature);
            if i < rest.len() {
                assert(rest[i] == outputs[i]);
            }
        }
    }
}

/// No feature is listed twice.
pub proof fn supported_features_are_distinct(outputs: Seq<Seq<u8>>)
    ensures
        supported_features(outputs).no_duplicates(),
    decreases outputs.len(),
{
    if outputs.len() > 0 {
        supported_features_are_distinct(outputs.drop_last());
        lemma_merged(
            supported_features(outputs.drop_last()),
            listed_features(outputs.last()),
            Seq::empty(),
        );
    }
}

/// Features are listed in the order in which they are first listed for a CPU: one
/// more CPU adds features behind the others, and a single CPU whose features are
/// distinct has exactly those, in their order.
pub proof fn supported_features_keep_their_order(outputs: Seq<Seq<u8>>, output: Seq<u8>)
    ensures
        supported_features(outputs).is_prefix_of(supported_features(outputs.push(output))),
        listed_features(output).no_duplicates() ==> supported_features(seq![output])
            == listed_features(output),
{
    let more = outputs.push(output);
    assert(more.drop_last() =~= outputs);
    lemma_merged_prefix(supported_features(outputs), listed_features(output));
    assert(seq![output].drop_last() =~= Seq::empty());
    assert(supported_features(seq![output]) == merged(
        supported_features(Seq::empty()),
        listed_features(output),
    ));
    if listed_features(output).no_duplicates() {
        lemma_merged_distinct(listed_features(output));
    }
}

proof fn lemma_merged_prefix(known: Seq<Seq<char>>, more: Seq<Seq<char>>)
    ensures
        known.is_prefix_of(merged(known, more)),
    decreases more.len(),
{
    if more.len() > 0 {
        lemma_merged_prefix(known, more.drop_last());
        let before = merged(known, more.drop_last());
        let after = merged(known, more);
        assert(after.subrange(0, known.len() as int) =~= before.subrange(0, known.len() as int));
    } else {
        assert(known.subrange(0, known.len() as int) =~= known);
    }
}

proof fn lemma_merged_distinct(more: Seq<Seq<char>>)
    requires
        more.no_duplicates(),
    ensures
        merged(Seq::empty(), more) == more,
    decreases more.len(),
{
    if more.len() > 0 {
        let rest = more.drop_last();
        lemma_merged_distinct(rest);
        assert(!rest.contains(more.last())) by {
            if rest.contains(more.last()) {
                let i = choose|i: int| 0 <= i < rest.len() && rest[i] == more.last();
                assert(more[i] == more[more.len() - 1]);
            }
        }
        assert(rest.push(more.last()) =~= more);
    } else {
        assert(more =~= Seq::empty());
    }
}

} // verus!
