//! Targets, and the CPUs that builds for them can use.

use crate::error::Error;
use crate::error::ErrorView;
use crate::text::same;
use std::str::FromStr;
use vstd::prelude::*;

verus! {

/// What the choice of CPUs depends on in a target triple.
#[derive(Debug)]
pub struct Triple {
    /// The name of the architecture.
    pub architecture: String,
}

impl View for Triple {
    type V = Seq<char>;

    open spec fn view(&self) -> Seq<char> {
        self.architecture@
    }
}

/// The first of the parts of a target that hyphens separate.
pub open spec fn first_part(target: Seq<char>) -> Seq<char>
    decreases target.len(),
{
    if target.len() == 0 || target.first() == '-' {
        Seq::empty()
    } else {
        seq![target.first()] + first_part(target.drop_first())
    }
}

/// What `target_lexicon` makes of a target: the name of its architecture, or
/// the report of what it does not recognize.
pub uninterp spec fn lexicon_architecture(target: Seq<char>) -> Result<Seq<char>, Seq<char>>;

/// `target_lexicon::Triple::from_str`. The outcome depends on the text alone;
/// which parts it recognizes is left unsaid. A triple begins with its
/// architecture, so a recognized target is for `x86_64` exactly if its first
/// part reads so.
#[verifier::external_body]
fn lexicon_parse(target: &str) -> (r: Result<Triple, String>)
    ensures
        match r {
            Ok(triple) => lexicon_architecture(target@) == Ok::<Seq<char>, Seq<char>>(triple@) && (
            triple@ == "x86_64"@ <==> first_part(target@) == "x86_64"@),
            Err(report) => lexicon_architecture(target@) == Err::<Seq<char>, Seq<char>>(report@),
        },
{
    match target_lexicon::Triple::from_str(target) {
        Ok(triple) => Ok(Triple { architecture: triple.architecture.to_string() }),
        Err(error) => Err(error.to_string()),
    }
}

/// What parsing a target comes to, given what `target_lexicon` makes of it.
pub open spec fn parsed_triple(outcome: Result<Seq<char>, Seq<char>>) -> Result<
    Seq<char>,
    ErrorView,
> {
    match outcome {
        Ok(architecture) => Ok(architecture),
        Err(cause) => Err(ErrorView::InvalidTarget { cause }),
    }
}

/// The contents of a parsed triple or of the error in its place.
pub open spec fn triple_view(r: Result<Triple, Error>) -> Result<Seq<char>, ErrorView> {
    match r {
        Ok(triple) => Ok(triple@),
        Err(error) => Err(error@),
    }
}

impl Triple {
    /// The triple that a parse gave, or the error that reports its failure.
    pub fn from_outcome(outcome: Result<Triple, String>) -> (r: Result<Triple, Error>)
        ensures
            triple_view(r) == parsed_triple(
                match outcome {
                    Ok(triple) => Ok(triple@),
                    Err(report) => Err(report@),
                },
            ),
    {
        match outcome {
            Ok(triple) => Ok(triple),
            Err(cause) => Err(Error::InvalidTarget { cause }),
        }
    }

    /// Reads a target triple.
    pub fn parse(target: &str) -> (r: Result<Triple, Error>)
        ensures
            triple_view(r) == parsed_triple(lexicon_architecture(target@)),
            r matches Ok(triple) ==> (triple@ == "x86_64"@ <==> first_part(target@) == "x86_64"@),
    {
        Triple::from_outcome(lexicon_parse(target))
    }
}

/// The CPUs without 64-bit mode that the compiler lists for 64-bit targets too.
/// Generating 64-bit code for one of them is an error in LLVM, see
/// <https://github.com/rust-lang/rust/issues/81148>.
pub open spec fn lacks_64_bit_mode(cpu: Seq<char>) -> bool {
    ||| cpu == "athlon"@
    ||| cpu == "athlon-4"@
    ||| cpu == "athlon-xp"@
    ||| cpu == "athlon-mp"@
    ||| cpu == "athlon-tbird"@
    ||| cpu == "c3"@
    ||| cpu == "c3-2"@
    ||| cpu == "geode"@
    ||| cpu == "i386"@
    ||| cpu == "i486"@
    ||| cpu == "i586"@
    ||| cpu == "i686"@
    ||| cpu == "k6"@
    ||| cpu == "k6-2"@
    ||| cpu == "k6-3"@
    ||| cpu == "lakemont"@
    ||| cpu == "pentium"@
    ||| cpu == "pentium-m"@
    ||| cpu == "pentium-mmx"@
    ||| cpu == "pentium2"@
    ||| cpu == "pentium3"@
    ||| cpu == "pentium3m"@
    ||| cpu == "pentium4"@
    ||| cpu == "pentium4m"@
    ||| cpu == "pentiumpro"@
    ||| cpu == "pentiumprescott"@
    ||| cpu == "prescott"@
    ||| cpu == "winchip-c6"@
    ||| cpu == "winchip2"@
    ||| cpu == "yonah"@
}

/// Whether the compiler can generate code for a CPU on an architecture.
pub open spec fn valid_cpu(architecture: Seq<char>, cpu: Seq<char>) -> bool {
    architecture == "x86_64"@ ==> !lacks_64_bit_mode(cpu)
}

/// Whether the compiler can generate code for a CPU of a target.
pub fn is_valid_cpu_for_target(triple: &Triple, cpu: &str) -> (r: bool)
    ensures
        r == valid_cpu(triple@, cpu@),
{
    if same(triple.architecture.as_str(), "x86_64") {
        if same(cpu, "athlon")
        || same(cpu, "athlon-4")
        || same(cpu, "athlon-xp")
        || same(cpu, "athlon-mp")
        || same(cpu, "athlon-tbird")
        || same(cpu, "c3")
        || same(cpu, "c3-2")
        || same(cpu, "geode")
        || same(cpu, "i386")
        || same(cpu, "i486")
        || same(cpu, "i586")
        || same(cpu, "i686")
        || same(cpu, "k6")
        || same(cpu, "k6-2")
        || same(cpu, "k6-3")
        || same(cpu, "lakemont")
        || same(cpu, "pentium")
        || same(cpu, "pentium-m")
        || same(cpu, "pentium-mmx")
        || same(cpu, "pentium2")
        || same(cpu, "pentium3")
        || same(cpu, "pentium3m")
        || same(cpu, "pentium4")
        || same(cpu, "pentium4m")
        || same(cpu, "pentiumpro")
        || same(cpu, "pentiumprescott")
        || same(cpu, "prescott")
        || same(cpu, "winchip-c6")
        || same(cpu, "winchip2")
        || same(cpu, "yonah")
        {
            return false;
        }
    }
    true
}

/// On `x86_64` exactly thirty CPUs are refused, by their names, and no other; on
/// every other architecture no CPU is.
pub proof fn exactly_thirty_cpus_are_refused(architecture: Seq<char>, cpu: Seq<char>)
    ensures
        ({
            let refused = seq![
                "athlon"@,
                "athlon-4"@,
                "athlon-xp"@,
                "athlon-mp"@,
                "athlon-tbird"@,
                "c3"@,
                "c3-2"@,
                "geode"@,
                "i386"@,
                "i486"@,
                "i586"@,
                "i686"@,
                "k6"@,
                "k6-2"@,
                "k6-3"@,
                "lakemont"@,
                "pentium"@,
                "pentium-m"@,
                "pentium-mmx"@,
                "pentium2"@,
                "pentium3"@,
                "pentium3m"@,
                "pentium4"@,
                "pentium4m"@,
                "pentiumpro"@,
                "pentiumprescott"@,
                "prescott"@,
                "winchip-c6"@,
                "winchip2"@,
                "yonah"@,
            ];
            &&& refused.len() == 30
            &&& !valid_cpu(architecture, cpu) <==> architecture == "x86_64"@ && refused.contains(
                cpu,
            )
        }),
{
    let refused = seq![
        "athlon"@,
        "athlon-4"@,
        "athlon-xp"@,
        "athlon-mp"@,
        "athlon-tbird"@,
        "c3"@,
        "c3-2"@,
        "geode"@,
        "i386"@,
        "i486"@,
        "i586"@,
        "i686"@,
        "k6"@,
        "k6-2"@,
        "k6-3"@,
        "lakemont"@,
        "pentium"@,
        "pentium-m"@,
        "pentium-mmx"@,
        "pentium2"@,
        "pentium3"@,
        "pentium3m"@,
        "pentium4"@,
        "pentium4m"@,
        "pentiumpro"@,
        "pentiumprescott"@,
        "prescott"@,
        "winchip-c6"@,
        "winchip2"@,
        "yonah"@,
    ];
    if refused.contains(cpu) {
        let i = choose|i: int| 0 <= i < refused.len() && refused[i] == cpu;
        lemma_refused(refused, i);
    }
    assert(lacks_64_bit_mode(cpu) ==> refused.contains(cpu)) by {
        assert(refused[0] == "athlon"@);
        assert(refused[1] == "athlon-4"@);
        assert(refused[2] == "athlon-xp"@);
        assert(refused[3] == "athlon-mp"@);
        assert(refused[4] == "athlon-tbird"@);
        assert(refused[5] == "c3"@);
        assert(refused[6] == "c3-2"@);
        assert(refused[7] == "geode"@);
        assert(refused[8] == "i386"@);
        assert(refused[9] == "i486"@);
        assert(refused[10] == "i586"@);
        assert(refused[11] == "i686"@);
        assert(refused[12] == "k6"@);
        assert(refused[13] == "k6-2"@);
        assert(refused[14] == "k6-3"@);
        assert(refused[15] == "lakemont"@);
        assert(refused[16] == "pentium"@);
        assert(refused[17] == "pentium-m"@);
        assert(refused[18] == "pentium-mmx"@);
        assert(refused[19] == "pentium2"@);
        assert(refused[20] == "pentium3"@);
        assert(refused[21] == "pentium3m"@);
        assert(refused[22] == "pentium4"@);
        assert(refused[23] == "pentium4m"@);
        assert(refused[24] == "pentiumpro"@);
        assert(refused[25] == "pentiumprescott"@);
        assert(refused[26] == "prescott"@);
        assert(refused[27] == "winchip-c6"@);
        assert(refused[28] == "winchip2"@);
        assert(refused[29] == "yonah"@);
    }
}

proof fn lemma_refused(refused: Seq<Seq<char>>, i: int)
    requires
        refused == seq![
            "athlon"@,
            "athlon-4"@,
            "athlon-xp"@,
            "athlon-mp"@,
            "athlon-tbird"@,
            "c3"@,
            "c3-2"@,
            "geode"@,
            "i386"@,
            "i486"@,
            "i586"@,
            "i686"@,
            "k6"@,
            "k6-2"@,
            "k6-3"@,
            "lakemont"@,
            "pentium"@,
            "pentium-m"@,
            "pentium-mmx"@,
            "pentium2"@,
            "pentium3"@,
            "pentium3m"@,
            "pentium4"@,
            "pentium4m"@,
            "pentiumpro"@,
            "pentiumprescott"@,
            "prescott"@,
            "winchip-c6"@,
            "winchip2"@,
            "yonah"@,
        ],
        0 <= i < refused.len(),
    ensures
        lacks_64_bit_mode(refused[i]),
{
}

/// No level of the 64-bit architecture itself is refused: neither `x86-64` nor any
/// name that begins so.
pub proof fn levels_of_x86_64_are_valid(architecture: Seq<char>, level: Seq<char>)
    ensures
        valid_cpu(architecture, "x86-64"@ + level),
        valid_cpu(architecture, "x86-64"@),
        valid_cpu(architecture, "x86-64-v2"@),
        valid_cpu(architecture, "x86-64-v3"@),
        valid_cpu(architecture, "x86-64-v4"@),
{
    reveal_strlit("x86-64");
    reveal_strlit("x86-64-v2");
    reveal_strlit("x86-64-v3");
    reveal_strlit("x86-64-v4");
    lemma_first_letter("x86-64"@ + level);
    lemma_first_letter("x86-64"@);
    lemma_first_letter("x86-64-v2"@);
    lemma_first_letter("x86-64-v3"@);
    lemma_first_letter("x86-64-v4"@);
}

proof fn lemma_first_letter(cpu: Seq<char>)
    requires
        cpu.len() > 0,
        cpu[0] == 'x',
    ensures
        !lacks_64_bit_mode(cpu),
{
    reveal_strlit("athlon");
    reveal_strlit("athlon-4");
    reveal_strlit("athlon-xp");
    reveal_strlit("athlon-mp");
    reveal_strlit("athlon-tbird");
    reveal_strlit("c3");
    reveal_strlit("c3-2");
    reveal_strlit("geode");
    reveal_strlit("i386");
    reveal_strlit("i486");
    reveal_strlit("i586");
    reveal_strlit("i686");
    reveal_strlit("k6");
    reveal_strlit("k6-2");
    reveal_strlit("k6-3");
    reveal_strlit("lakemont");
    reveal_strlit("pentium");
    reveal_strlit("pentium-m");
    reveal_strlit("pentium-mmx");
    reveal_strlit("pentium2");
    reveal_strlit("pentium3");
    reveal_strlit("pentium3m");
    reveal_strlit("pentium4");
    reveal_strlit("pentium4m");
    reveal_strlit("pentiumpro");
    reveal_strlit("pentiumprescott");
    reveal_strlit("prescott");
    reveal_strlit("winchip-c6");
    reveal_strlit("winchip2");
    reveal_strlit("yonah");
}

/// A triple is what the parse gave, and its failure is an invalid target with the
/// report for its cause.
pub proof fn parses_become_triples_or_errors(
    triple: Triple,
    architecture: Seq<char>,
    cause: Seq<char>,
)
    ensures
        triple@ == triple.architecture@,
        parsed_triple(Ok(architecture)) == Ok::<Seq<char>, ErrorView>(architecture),
        parsed_triple(Err(cause)) == Err::<Seq<char>, ErrorView>(
            ErrorView::InvalidTarget { cause },
        ),
{
}

} // verus!
