//! Questions to the compiler, and how its answers are read.

use crate::lines::optional;
use crate::lines::read_lines;
use crate::lines::texts;
use crate::text;
use crate::text::all_white;
use crate::text::strings;
use crate::text::trimmed;
use crate::text::trimmed_end;
use crate::text::trimmed_start;
use crate::text::trimming_takes_white_space_off_both_ends;
use crate::text::what_stands_behind_a_prefix_is_left;
use crate::text::white_space;
use crate::text::without_prefix;
use vstd::prelude::*;

verus! {

/// The first result that `f` gives on an element of a sequence.
pub open spec fn first_found<A, B>(s: Seq<A>, f: spec_fn(A) -> Option<B>) -> Option<B>
    decreases s.len(),
{
    if s.len() == 0 {
        None
    } else {
        match f(s.first()) {
            Some(b) => Some(b),
            None => first_found(s.drop_first(), f),
        }
    }
}

/// The target named by a line of the compiler's version report.
pub open spec fn host_in(line: Option<Seq<char>>) -> Option<Seq<char>> {
    match line {
        Some(text) => without_prefix(text, "host: "@),
        None => None,
    }
}

/// The default target that a version report names: that of its first line
/// about the host.
pub open spec fn reported_host(output: Seq<u8>) -> Option<Seq<char>> {
    first_found(texts(output), |line: Option<Seq<char>>| host_in(line))
}

/// The CPU feature named by a line of the compiler's configuration. Features
/// of the code generator itself, such as `llvm14-builtins-abi`, do not count.
pub open spec fn feature_in(line: Option<Seq<char>>) -> Option<Seq<char>> {
    match line {
        Some(text) => match without_prefix(text, "target_feature=\""@) {
            Some(rest) => if "llvm"@.is_prefix_of(rest) {
                None
            } else if rest.len() > 0 && rest.last() == '"' {
                Some(rest.drop_last())
            } else {
                None
            },
            None => None,
        },
        None => None,
    }
}

/// The CPU features that the compiler's configuration lists, in its order.
pub open spec fn listed_features(output: Seq<u8>) -> Seq<Seq<char>> {
    texts(output).filter_map(|line: Option<Seq<char>>| feature_in(line))
}

/// The CPU named by a line of the compiler's list. An entry for the CPU of this
/// machine, `native`, names none.
pub open spec fn cpu_in(line: Option<Seq<char>>) -> Option<Seq<char>> {
    match line {
        Some(text) => if "native"@.is_prefix_of(trimmed(text)) || trimmed(text).len() == 0 {
            None
        } else {
            Some(trimmed(text))
        },
        None => None,
    }
}

/// A list without its heading, which is its first line.
pub open spec fn behind_heading(lines: Seq<Option<Seq<char>>>) -> Seq<Option<Seq<char>>> {
    if lines.len() == 0 {
        lines
    } else {
        lines.drop_first()
    }
}

/// The CPUs that the compiler lists for a target, in its order.
pub open spec fn listed_cpus(output: Seq<u8>) -> Seq<Seq<char>> {
    behind_heading(texts(output)).filter_map(|line: Option<Seq<char>>| cpu_in(line))
}

/// The arguments for cargo that ask for the compiler's version report.
pub open spec fn version_args() -> Seq<Seq<char>> {
    seq!["rustc"@, "--"@, "-vV"@]
}

/// The arguments for cargo that ask for the CPUs of a target.
pub open spec fn cpus_args(target: Seq<char>) -> Seq<Seq<char>> {
    seq!["rustc"@, "--"@, "--print"@, "target-cpus"@, "--target"@, target]
}

/// The arguments for cargo that ask for the configuration of a CPU.
pub open spec fn features_args(target: Seq<char>, cpu: Seq<char>) -> Seq<Seq<char>> {
    seq![
        "rustc"@,
        "--"@,
        "--print"@,
        "cfg"@,
        "--target"@,
        target,
        "-Ctarget-cpu="@ + cpu,
    ]
}

/// The arguments for cargo that ask for the compiler's version report.
pub fn version_query() -> (r: Vec<String>)
    ensures
        strings(r@) == version_args(),
{
    let mut r: Vec<String> = Vec::new();
    r.push("rustc".to_owned());
    r.push("--".to_owned());
    r.push("-vV".to_owned());
    assert(strings(r@) =~= version_args());
    r
}

/// The arguments for cargo that ask for the configuration of a CPU.
pub fn features_query(target: &str, cpu: &str) -> (r: Vec<String>)
    ensures
        strings(r@) == features_args(target@, cpu@),
{
    let mut option = "-Ctarget-cpu=".to_owned();
    option.append(cpu);
    let mut r: Vec<String> = Vec::new();
    r.push("rustc".to_owned());
    r.push("--".to_owned());
    r.push("--print".to_owned());
    r.push("cfg".to_owned());
    r.push("--target".to_owned());
    r.push(target.to_owned());
    r.push(option);
    assert(strings(r@) =~= features_args(target@, cpu@));
    r
}

/// The arguments for cargo that ask for the CPUs of a target.
pub fn cpus_query(target: &str) -> (r: Vec<String>)
    ensures
        strings(r@) == cpus_args(target@),
{
    let mut r: Vec<String> = Vec::new();
    r.push("rustc".to_owned());
    r.push("--".to_owned());
    r.push("--print".to_owned());
    r.push("target-cpus".to_owned());
    r.push("--target".to_owned());
    r.push(target.to_owned());
    assert(strings(r@) =~= cpus_args(target@));
    r
}

/// The default target of the compiler, read from its version report.
pub fn default_target(output: &[u8]) -> (r: Option<String>)
    ensures
        optional(r) == reported_host(output@),
{
    let lines = read_lines(output);
    let ghost all = texts(output@);
    let ghost f = |line: Option<Seq<char>>| host_in(line);
    let mut i: usize = 0;
    assert(all.skip(0) =~= all);
    while i < lines.len()
        invariant
            i <= lines.len(),
            lines@.map_values(|line: Option<String>| optional(line)) == all,
            f == (|line: Option<Seq<char>>| host_in(line)),
            reported_host(output@) == first_found(all.skip(i as int), f),
        decreases lines.len() - i,
    {
        assert(all[i as int] == optional(lines@[i as int]));
        assert(all.skip(i as int).drop_first() =~= all.skip(i + 1));
        if let Some(line) = &lines[i] {
            if let Some(host) = text::strip_prefix(line.as_str(), "host: ") {
                return Some(host);
            }
        }
        i += 1;
    }
    None
}

/// The CPU feature that a line of the compiler's configuration names.
fn feature_of(line: &Option<String>) -> (r: Option<String>)
    ensures
        optional(r) == feature_in(optional(*line)),
{
    if let Some(line) = line {
        if let Some(rest) = text::strip_prefix(line.as_str(), "target_feature=\"") {
            if !text::starts_with(rest.as_str(), "llvm") {
                let n: usize = rest.as_str().unicode_len();
                if n > 0 && rest.as_str().get_char(n - 1) == '"' {
                    let feature = rest.as_str().substring_char(0, n - 1).to_owned();
                    assert(feature@ =~= rest@.drop_last());
                    return Some(feature);
                }
            }
        }
    }
    None
}

/// The CPU that a line of the compiler's list names.
fn cpu_of(line: &Option<String>) -> (r: Option<String>)
    ensures
        optional(r) == cpu_in(optional(*line)),
{
    if let Some(line) = line {
        let cpu = text::trim(line.as_str());
        if !text::starts_with(cpu.as_str(), "native") && !cpu.as_str().is_empty() {
            return Some(cpu);
        }
    }
    None
}

/// The features of a CPU, read from the compiler's configuration for it.
pub fn features_from_cpu(output: &[u8]) -> (r: Vec<String>)
    ensures
        strings(r@) == listed_features(output@),
{
    let lines = read_lines(output);
    let ghost all = texts(output@);
    let ghost f = |line: Option<Seq<char>>| feature_in(line);
    let mut r: Vec<String> = Vec::new();
    let mut i: usize = 0;
    assert(strings(r@) =~= all.take(0).filter_map(f));
    while i < lines.len()
        invariant
            i <= lines.len(),
            lines@.map_values(|line: Option<String>| optional(line)) == all,
            f == (|line: Option<Seq<char>>| feature_in(line)),
            strings(r@) == all.take(i as int).filter_map(f),
        decreases lines.len() - i,
    {
        let ghost before = strings(r@);
        assert(all[i as int] == optional(lines@[i as int]));
        proof {
            all.lemma_filter_map_take_succ(f, i as int);
        }
        if let Some(feature) = feature_of(&lines[i]) {
            r.push(feature);
            assert(strings(r@) =~= before.push(feature@));
        }
        i += 1;
    }
    assert(all.take(all.len() as int) =~= all);
    r
}

/// The CPUs of a target, read from the compiler's list.
pub fn cpus_from_target(output: &[u8]) -> (r: Vec<String>)
    ensures
        strings(r@) == listed_cpus(output@),
{
    let lines = read_lines(output);
    let ghost all = texts(output@);
    let ghost entries = behind_heading(all);
    let ghost f = |line: Option<Seq<char>>| cpu_in(line);
    let mut r: Vec<String> = Vec::new();
    let mut i: usize = 1;
    assert(strings(r@) =~= entries.take(0).filter_map(f));
    while i < lines.len()
        invariant
            1 <= i,
            i <= lines.len() || (lines.len() == 0 && i == 1),
            lines@.map_values(|line: Option<String>| optional(line)) == all,
            entries == behind_heading(all),
            f == (|line: Option<Seq<char>>| cpu_in(line)),
            strings(r@) == entries.take(i - 1).filter_map(f),
        decreases lines.len() - i,
    {
        let ghost before = strings(r@);
        assert(entries[i - 1] == optional(lines@[i as int]));
        proof {
            entries.lemma_filter_map_take_succ(f, i - 1);
        }
        if let Some(cpu) = cpu_of(&lines[i]) {
            r.push(cpu);
            assert(strings(r@) =~= before.push(cpu@));
        }
        i += 1;
    }
    assert(entries.take(i - 1) =~= entries);
    r
}

/// A CPU in the list of a target has a name, without white space around it, and
/// is not the CPU of this machine.
pub proof fn listed_cpus_have_names(output: Seq<u8>, cpu: Seq<char>)
    requires
        listed_cpus(output).contains(cpu),
    ensures
        cpu.len() > 0,
        !white_space(cpu.first()),
        !white_space(cpu.last()),
        !"native"@.is_prefix_of(cpu),
{
    let entries = behind_heading(texts(output));
    let f = |line: Option<Seq<char>>| cpu_in(line);
    entries.lemma_filter_map_contains(f, cpu);
    let line = choose|line: Option<Seq<char>>| #[trigger]
        entries.contains(line) && f(line) == Some(cpu);
    lemma_trimmed(line->0);
}

/// A feature in the configuration of a CPU is not one of the code generator.
pub proof fn listed_features_are_of_the_cpu(output: Seq<u8>, feature: Seq<char>)
    requires
        listed_features(output).contains(feature),
    ensures
        !"llvm"@.is_prefix_of(feature),
{
    let f = |line: Option<Seq<char>>| feature_in(line);
    texts(output).lemma_filter_map_contains(f, feature);
    let line = choose|line: Option<Seq<char>>| #[trigger]
        texts(output).contains(line) && f(line) == Some(feature);
    let rest = without_prefix(line->0, "target_feature=\""@)->0;
    assert(feature =~= rest.drop_last());
    if "llvm"@.is_prefix_of(feature) {
        assert("llvm"@ =~= rest.subrange(0, "llvm"@.len() as int));
    }
}

proof fn lemma_trimmed(s: Seq<char>)
    ensures
        trimmed(s).len() > 0 ==> !white_space(trimmed(s).first()) && !white_space(
            trimmed(s).last(),
        ),
{
    lemma_trimmed_start(s);
    lemma_trimmed_end(trimmed_start(s));
}

proof fn lemma_trimmed_start(s: Seq<char>)
    ensures
        trimmed_start(s).len() > 0 ==> !white_space(trimmed_start(s).first()),
    decreases s.len(),
{
    if s.len() > 0 && white_space(s.first()) {
        lemma_trimmed_start(s.drop_first());
    }
}

proof fn lemma_trimmed_end(s: Seq<char>)
    ensures
        trimmed_end(s).len() > 0 ==> !white_space(trimmed_end(s).last()) && trimmed_end(
            s,
        ).first() == s.first(),
    decreases s.len(),
{
    if s.len() > 0 && white_space(s.last()) {
        lemma_trimmed_end(s.drop_last());
    }
}

/// What the questions to the compiler are, word for word.
pub proof fn questions_name_the_target_and_the_cpu(target: Seq<char>, cpu: Seq<char>)
    ensures
        version_args() == seq!["rustc"@, "--"@, "-vV"@],
        cpus_args(target) == seq![
            "rustc"@,
            "--"@,
            "--print"@,
            "target-cpus"@,
            "--target"@,
            target,
        ],
        features_args(target, cpu) == seq![
            "rustc"@,
            "--"@,
            "--print"@,
            "cfg"@,
            "--target"@,
            target,
            "-Ctarget-cpu="@ + cpu,
        ],
{
}

proof fn lemma_first_found<A, B>(s: Seq<A>, f: spec_fn(A) -> Option<B>) -> (at: int)
    ensures
        match first_found(s, f) {
            Some(b) => 0 <= at < s.len() && f(s[at]) == Some(b),
            None => at == s.len(),
        },
        forall|j: int| 0 <= j < at ==> f(#[trigger] s[j]) is None,
    decreases s.len(),
{
    if s.len() == 0 {
        0
    } else if f(s.first()) is Some {
        assert(s.first() == s[0]);
        0
    } else {
        let rest = s.drop_first();
        let at = lemma_first_found(rest, f);
        assert forall|j: int| 0 <= j < at + 1 implies f(#[trigger] s[j]) is None by {
            if j > 0 {
                assert(s[j] == rest[j - 1]);
            }
        }
        at + 1
    }
}

/// Whether no line before the `i`th is about the host.
pub open spec fn no_host_before(lines: Seq<Option<Seq<char>>>, i: int) -> bool {
    forall|j: int, host: Seq<char>|
        0 <= j < i ==> #[trigger] lines[j] != Some(#[trigger] ("host: "@ + host))
}

/// A version report names a default target exactly if the first of its lines that
/// begin with `host: ` goes on with that target, and names none exactly if there
/// is no such line.
pub proof fn default_target_is_on_the_first_host_line(output: Seq<u8>, target: Seq<char>)
    ensures
        reported_host(output) == Some(target) <==> exists|i: int|
            0 <= i < texts(output).len() && #[trigger] texts(output)[i] == Some("host: "@ + target)
                && no_host_before(texts(output), i),
        reported_host(output) is None <==> no_host_before(
            texts(output),
            texts(output).len() as int,
        ),
{
    let lines = texts(output);
    let f = |line: Option<Seq<char>>| host_in(line);
    let at = lemma_first_found(lines, f);
    assert forall|j: int, host: Seq<char>| 0 <= j < at implies #[trigger] lines[j] != Some(
        #[trigger] ("host: "@ + host),
    ) by {
        assert(f(lines[j]) is None);
        what_stands_behind_a_prefix_is_left("host: "@ + host, "host: "@, host);
    }
    if let Some(host) = first_found(lines, f) {
        what_stands_behind_a_prefix_is_left(lines[at]->0, "host: "@, host);
        assert(lines[at] == Some("host: "@ + host));
        assert(!no_host_before(lines, lines.len() as int)) by {
            assert(lines[at] == Some("host: "@ + host));
        }
    }
    if exists|i: int|
        0 <= i < lines.len() && #[trigger] lines[i] == Some("host: "@ + target) && no_host_before(
            lines,
            i,
        ) {
        let i = choose|i: int|
            0 <= i < lines.len() && #[trigger] lines[i] == Some("host: "@ + target)
                && no_host_before(lines, i);
        what_stands_behind_a_prefix_is_left("host: "@ + target, "host: "@, target);
        assert(f(lines[i]) == Some(target));
        if at < i {
            let host = first_found(lines, f)->0;
            assert(lines[at] == Some("host: "@ + host));
        }
        assert(at == i);
    }
}

/// A line of the configuration names a feature exactly if it reads
/// `target_feature="` and the feature and a closing quote, and the feature does
/// not begin with `llvm`.
proof fn lemma_feature_in(line: Option<Seq<char>>, feature: Seq<char>)
    ensures
        feature_in(line) == Some(feature) <==> line == Some(
            "target_feature=\""@ + feature + "\""@,
        ) && !"llvm"@.is_prefix_of(feature),
{
    reveal_strlit("\"");
    reveal_strlit("llvm");
    assert("\""@ =~= seq!['"']);
    let opening = "target_feature=\""@;
    let rest = feature + "\""@;
    assert(opening + feature + "\""@ =~= opening + rest);
    assert(rest.drop_last() =~= feature);
    assert("llvm"@.is_prefix_of(rest) <==> "llvm"@.is_prefix_of(feature)) by {
        if "llvm"@.is_prefix_of(feature) {
            assert("llvm"@ =~= rest.subrange(0, "llvm"@.len() as int));
        }
        if "llvm"@.is_prefix_of(rest) {
            if feature.len() < 4 {
                assert(rest[3] == rest.subrange(0, 4)[3]);
                assert(rest[3] == '"');
                assert(false);
            }
            assert("llvm"@ =~= feature.subrange(0, "llvm"@.len() as int)) by {
                assert(rest.subrange(0, 4) =~= feature.subrange(0, 4));
            }
        }
    }
    if let Some(text) = line {
        what_stands_behind_a_prefix_is_left(text, opening, rest);
        if feature_in(line) == Some(feature) {
            let found = without_prefix(text, opening)->0;
            assert(found =~= feature + "\""@);
            what_stands_behind_a_prefix_is_left(text, opening, found);
        }
    }
}

/// A feature is listed exactly if some line of the configuration reads
/// `target_feature="` and the feature and a closing quote, and the feature does
/// not begin with `llvm`. No other feature is left out.
pub proof fn exactly_the_features_of_the_lines_are_listed(output: Seq<u8>, feature: Seq<char>)
    ensures
        listed_features(output).contains(feature) <==> !"llvm"@.is_prefix_of(feature) && texts(
            output,
        ).contains(Some("target_feature=\""@ + feature + "\""@)),
{
    let lines = texts(output);
    let f = |line: Option<Seq<char>>| feature_in(line);
    let line = Some("target_feature=\""@ + feature + "\""@);
    if listed_features(output).contains(feature) {
        lines.lemma_filter_map_contains(f, feature);
        let found = choose|found: Option<Seq<char>>| #[trigger]
            lines.contains(found) && f(found) == Some(feature);
        lemma_feature_in(found, feature);
    }
    if !"llvm"@.is_prefix_of(feature) && lines.contains(line) {
        lemma_feature_in(line, feature);
        lemma_filter_map_has(lines, f, line, feature);
    }
}

proof fn lemma_filter_map_has<A, B>(s: Seq<A>, f: spec_fn(A) -> Option<B>, a: A, b: B)
    requires
        s.contains(a),
        f(a) == Some(b),
    ensures
        s.filter_map(f).contains(b),
    decreases s.len(),
{
    lemma_filter_map_last(s, f);
    let rest = s.drop_last().filter_map(f);
    if s.last() == a {
        assert(rest.push(b).last() == b);
    } else {
        let i = choose|i: int| 0 <= i < s.len() && s[i] == a;
        assert(s.drop_last()[i] == a);
        lemma_filter_map_has(s.drop_last(), f, a, b);
        let j = choose|j: int| 0 <= j < rest.len() && rest[j] == b;
        assert(s.filter_map(f)[j] == b);
    }
}

proof fn lemma_filter_map_last<A, B>(s: Seq<A>, f: spec_fn(A) -> Option<B>)
    requires
        s.len() > 0,
    ensures
        s.filter_map(f) == match f(s.last()) {
            Some(b) => s.drop_last().filter_map(f).push(b),
            None => s.drop_last().filter_map(f),
        },
{
    let n = s.len() - 1;
    s.lemma_filter_map_take_succ(f, n);
    assert(s.take(n + 1) =~= s);
    assert(s.take(n) =~= s.drop_last());
    if let Some(b) = f(s.last()) {
        assert(s.drop_last().filter_map(f) + seq![b] =~= s.drop_last().filter_map(f).push(b));
    } else {
        assert(s.drop_last().filter_map(f) + Seq::empty() =~= s.drop_last().filter_map(f));
    }
}

/// Features are listed in the order of their lines, once for each line: one more
/// line adds the feature that it names behind the others, or nothing if it names
/// none.
pub proof fn features_are_listed_in_the_order_of_their_lines(
    output: Seq<u8>,
    longer: Seq<u8>,
    line: Option<Seq<char>>,
    feature: Seq<char>,
)
    requires
        texts(longer) == texts(output).push(line),
    ensures
        texts(output).len() == 0 ==> listed_features(output).len() == 0,
        line == Some("target_feature=\""@ + feature + "\""@) && !"llvm"@.is_prefix_of(feature)
            ==> listed_features(longer) == listed_features(output).push(feature),
        (forall|named: Seq<char>|
            line == Some(#[trigger] ("target_feature=\""@ + named + "\""@))
                ==> "llvm"@.is_prefix_of(named)) ==> listed_features(longer) == listed_features(
            output,
        ),
{
    let f = |line: Option<Seq<char>>| feature_in(line);
    lemma_filter_map_last(texts(longer), f);
    assert(texts(longer).drop_last() =~= texts(output));
    lemma_feature_in(line, feature);
    if let Some(named) = feature_in(line) {
        lemma_feature_in(line, named);
        assert(line == Some("target_feature=\""@ + named + "\""@));
    }
}

/// The CPUs are listed in the order of their lines, once for each line. The first
/// line, which is the heading, names none. Each further line names what stands in
/// it between white space, unless that is nothing or begins with `native`, and
/// names none if it is not UTF-8.
pub proof fn cpus_are_listed_in_the_order_of_their_lines(
    output: Seq<u8>,
    longer: Seq<u8>,
    line: Option<Seq<char>>,
    front: Seq<char>,
    cpu: Seq<char>,
    back: Seq<char>,
)
    requires
        texts(longer) == texts(output).push(line),
        all_white(front),
        all_white(back),
        cpu.len() > 0 ==> !white_space(cpu.first()) && !white_space(cpu.last()),
    ensures
        texts(output).len() <= 1 ==> listed_cpus(output).len() == 0,
        texts(output).len() >= 1 && line == Some(front + cpu + back) ==> listed_cpus(longer)
            == if cpu.len() == 0 || "native"@.is_prefix_of(cpu) {
            listed_cpus(output)
        } else {
            listed_cpus(output).push(cpu)
        },
        texts(output).len() >= 1 && line is None ==> listed_cpus(longer) == listed_cpus(output),
{
    let f = |line: Option<Seq<char>>| cpu_in(line);
    if texts(output).len() >= 1 {
        let entries = behind_heading(texts(longer));
        assert(entries.drop_last() =~= behind_heading(texts(output)));
        assert(entries.last() == line);
        lemma_filter_map_last(entries, f);
        trimming_takes_white_space_off_both_ends(front, cpu, back);
    }
}

} // verus!
