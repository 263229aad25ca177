//! The binary format of a list of builds.

use crate::builds::BuildView;
use vstd::prelude::*;
use vstd::utf8::decode_utf8;
use vstd::utf8::encode_utf8;
use vstd::utf8::encode_utf8_decode_utf8;
use vstd::utf8::encode_utf8_valid_utf8;
use vstd::utf8::valid_utf8;

verus! {

/// The `width` bytes of a number, the lowest first.
pub open spec fn little_endian(n: nat, width: nat) -> Seq<u8>
    decreases width,
{
    if width == 0 {
        Seq::empty()
    } else {
        seq![(n % 256) as u8] + little_endian(n / 256, (width - 1) as nat)
    }
}

/// A length: a single byte for a small one, else a byte for the width and then
/// the number itself.
pub open spec fn encoded_length(n: nat) -> Seq<u8> {
    if n < 251 {
        seq![n as u8]
    } else if n < 0x1_0000 {
        seq![251u8] + little_endian(n, 2)
    } else if n < 0x1_0000_0000 {
        seq![252u8] + little_endian(n, 4)
    } else {
        seq![253u8] + little_endian(n, 8)
    }
}

/// Bytes: their number, then the bytes.
pub open spec fn encoded_bytes(bytes: Seq<u8>) -> Seq<u8> {
    encoded_length(bytes.len()) + bytes
}

/// Texts, one behind the other, each as the bytes of its UTF-8 form.
pub open spec fn encoded_texts(texts: Seq<Seq<char>>) -> Seq<u8>
    decreases texts.len(),
{
    if texts.len() == 0 {
        Seq::empty()
    } else {
        encoded_bytes(encode_utf8(texts.first())) + encoded_texts(texts.drop_first())
    }
}

/// A build: its executable, then the number of features, then the features.
pub open spec fn encoded_build(build: BuildView) -> Seq<u8> {
    encoded_bytes(build.bytes) + (encoded_length(build.required_cpu_features.len())
        + encoded_texts(build.required_cpu_features))
}

/// Builds, one behind the other.
pub open spec fn encoded_each(builds: Seq<BuildView>) -> Seq<u8>
    decreases builds.len(),
{
    if builds.len() == 0 {
        Seq::empty()
    } else {
        encoded_build(builds.first()) + encoded_each(builds.drop_first())
    }
}

/// A list of builds: their number, then the builds.
pub open spec fn encoded_builds(builds: Seq<BuildView>) -> Seq<u8> {
    encoded_length(builds.len()) + encoded_each(builds)
}

/// The number that `width` bytes hold, the lowest first.
pub open spec fn number(bytes: Seq<u8>, width: nat) -> nat
    decreases width,
{
    if width == 0 {
        0
    } else {
        bytes[0] as nat + 256 * number(bytes.drop_first(), (width - 1) as nat)
    }
}

/// Reads a number of `width` bytes and gives what stands behind it too.
pub open spec fn read_number(bytes: Seq<u8>, width: nat) -> Option<(nat, Seq<u8>)> {
    if bytes.len() < width {
        None
    } else {
        Some((number(bytes, width), bytes.skip(width as int)))
    }
}

/// Reads a length and gives what stands behind it too.
pub open spec fn read_length(bytes: Seq<u8>) -> Option<(nat, Seq<u8>)> {
    if bytes.len() == 0 {
        None
    } else if bytes[0] < 251 {
        Some((bytes[0] as nat, bytes.drop_first()))
    } else if bytes[0] == 251 {
        read_number(bytes.drop_first(), 2)
    } else if bytes[0] == 252 {
        read_number(bytes.drop_first(), 4)
    } else if bytes[0] == 253 {
        read_number(bytes.drop_first(), 8)
    } else {
        None
    }
}

/// Reads bytes with their number and gives what stands behind them too.
pub open spec fn read_bytes(bytes: Seq<u8>) -> Option<(Seq<u8>, Seq<u8>)> {
    match read_length(bytes) {
        Some((n, rest)) => if n <= rest.len() {
            Some((rest.take(n as int), rest.skip(n as int)))
        } else {
            None
        },
        None => None,
    }
}

/// Reads `n` texts and gives what stands behind them too.
pub open spec fn read_texts(bytes: Seq<u8>, n: nat) -> Option<(Seq<Seq<char>>, Seq<u8>)>
    decreases n,
{
    if n == 0 {
        Some((Seq::empty(), bytes))
    } else {
        match read_bytes(bytes) {
            Some((text, rest)) => if valid_utf8(text) {
                match read_texts(rest, (n - 1) as nat) {
                    Some((texts, end)) => Some((seq![decode_utf8(text)] + texts, end)),
                    None => None,
                }
            } else {
                None
            },
            None => None,
        }
    }
}

/// Reads a build and gives what stands behind it too.
pub open spec fn read_build(bytes: Seq<u8>) -> Option<(BuildView, Seq<u8>)> {
    match read_bytes(bytes) {
        Some((executable, rest)) => match read_length(rest) {
            Some((n, texts)) => match read_texts(texts, n) {
                Some((features, end)) => Some(
                    (BuildView { bytes: executable, required_cpu_features: features }, end),
                ),
                None => None,
            },
            None => None,
        },
        None => None,
    }
}

/// Reads `n` builds and gives what stands behind them too.
pub open spec fn read_each(bytes: Seq<u8>, n: nat) -> Option<(Seq<BuildView>, Seq<u8>)>
    decreases n,
{
    if n == 0 {
        Some((Seq::empty(), bytes))
    } else {
        match read_build(bytes) {
            Some((build, rest)) => match read_each(rest, (n - 1) as nat) {
                Some((builds, end)) => Some((seq![build] + builds, end)),
                None => None,
            },
            None => None,
        }
    }
}

/// Reads a list of builds and gives what stands behind it too.
pub open spec fn read_builds(bytes: Seq<u8>) -> Option<(Seq<BuildView>, Seq<u8>)> {
    match read_length(bytes) {
        Some((n, rest)) => read_each(rest, n),
        None => None,
    }
}

/// Whether a length fits the widest form that the format has.
pub open spec fn fits(n: nat) -> bool {
    n < 0x1_0000_0000_0000_0000
}

/// Whether the lengths in a build fit the format.
pub open spec fn build_fits(build: BuildView) -> bool {
    &&& fits(build.bytes.len())
    &&& fits(build.required_cpu_features.len())
    &&& forall|i: int|
        0 <= i < build.required_cpu_features.len() ==> fits(
            encode_utf8(#[trigger] build.required_cpu_features[i]).len(),
        )
}

/// Whether the lengths in a list of builds fit the format.
pub open spec fn builds_fit(builds: Seq<BuildView>) -> bool {
    &&& fits(builds.len())
    &&& forall|i: int| 0 <= i < builds.len() ==> build_fits(#[trigger] builds[i])
}

/// 256 to the power of `width`.
spec fn limit(width: nat) -> nat
    decreases width,
{
    if width == 0 {
        1
    } else {
        256 * limit((width - 1) as nat)
    }
}

proof fn lemma_read_number(n: nat, width: nat, rest: Seq<u8>)
    requires
        n < limit(width),
    ensures
        read_number(little_endian(n, width) + rest, width) == Some((n, rest)),
        little_endian(n, width).len() == width,
    decreases width,
{
    let bytes = little_endian(n, width) + rest;
    if width > 0 {
        let w = (width - 1) as nat;
        lemma_read_number(n / 256, w, rest);
        let tail = little_endian(n / 256, w) + rest;
        assert(bytes.drop_first() =~= tail);
        assert(number(tail, w) == n / 256);
        assert(bytes[0] as nat == n % 256);
    }
    assert(bytes.skip(width as int) =~= rest);
}

proof fn lemma_read_length(n: nat, rest: Seq<u8>)
    requires
        fits(n),
    ensures
        read_length(encoded_length(n) + rest) == Some((n, rest)),
{
    let bytes = encoded_length(n) + rest;
    assert(limit(8) == 0x1_0000_0000_0000_0000 && limit(4) == 0x1_0000_0000 && limit(2)
        == 0x1_0000) by {
        reveal_with_fuel(limit, 9);
    }
    if n < 251 {
        assert(bytes.drop_first() =~= rest);
    } else if n < 0x1_0000 {
        lemma_read_number(n, 2, rest);
        assert(bytes.drop_first() =~= little_endian(n, 2) + rest);
    } else if n < 0x1_0000_0000 {
        lemma_read_number(n, 4, rest);
        assert(bytes.drop_first() =~= little_endian(n, 4) + rest);
    } else {
        lemma_read_number(n, 8, rest);
        assert(bytes.drop_first() =~= little_endian(n, 8) + rest);
    }
}

proof fn lemma_read_bytes(bytes: Seq<u8>, rest: Seq<u8>)
    requires
        fits(bytes.len()),
    ensures
        read_bytes(encoded_bytes(bytes) + rest) == Some((bytes, rest)),
{
    lemma_read_length(bytes.len(), bytes + rest);
    assert(encoded_bytes(bytes) + rest =~= encoded_length(bytes.len()) + (bytes + rest));
    assert((bytes + rest).take(bytes.len() as int) =~= bytes);
    assert((bytes + rest).skip(bytes.len() as int) =~= rest);
}

proof fn lemma_read_texts(texts: Seq<Seq<char>>, rest: Seq<u8>)
    requires
        forall|i: int| 0 <= i < texts.len() ==> fits(encode_utf8(#[trigger] texts[i]).len()),
    ensures
        read_texts(encoded_texts(texts) + rest, texts.len()) == Some((texts, rest)),
    decreases texts.len(),
{
    if texts.len() == 0 {
        assert(encoded_texts(texts) + rest =~= rest);
        assert(texts =~= Seq::empty());
    } else {
        let first = encode_utf8(texts.first());
        let tail = encoded_texts(texts.drop_first()) + rest;
        assert(texts.first() == texts[0]);
        assert forall|i: int| 0 <= i < texts.drop_first().len() implies fits(
            encode_utf8(#[trigger] texts.drop_first()[i]).len(),
        ) by {
            assert(texts.drop_first()[i] == texts[i + 1]);
        }
        lemma_read_texts(texts.drop_first(), rest);
        lemma_read_bytes(first, tail);
        assert(encoded_texts(texts) + rest =~= encoded_bytes(first) + tail);
        encode_utf8_valid_utf8(texts.first());
        encode_utf8_decode_utf8(texts.first());
        assert(seq![texts.first()] + texts.drop_first() =~= texts);
    }
}

proof fn lemma_read_build(build: BuildView, rest: Seq<u8>)
    requires
        build_fits(build),
    ensures
        read_build(encoded_build(build) + rest) == Some((build, rest)),
{
    let features = build.required_cpu_features;
    let texts = encoded_texts(features) + rest;
    let behind = encoded_length(features.len()) + texts;
    lemma_read_texts(features, rest);
    lemma_read_length(features.len(), texts);
    lemma_read_bytes(build.bytes, behind);
    assert(encoded_build(build) + rest =~= encoded_bytes(build.bytes) + behind);
}

proof fn lemma_regroup(a: Seq<u8>, b: Seq<u8>, c: Seq<u8>)
    ensures
        a + b + c == a + (b + c),
{
    assert(a + b + c =~= a + (b + c));
}

proof fn lemma_read_each(builds: Seq<BuildView>, rest: Seq<u8>)
    requires
        forall|i: int| 0 <= i < builds.len() ==> build_fits(#[trigger] builds[i]),
    ensures
        read_each(encoded_each(builds) + rest, builds.len()) == Some((builds, rest)),
    decreases builds.len(),
{
    if builds.len() == 0 {
        assert(encoded_each(builds) + rest =~= rest);
        assert(builds =~= Seq::empty());
    } else {
        let tail = encoded_each(builds.drop_first()) + rest;
        assert(builds.first() == builds[0]);
        assert forall|i: int| 0 <= i < builds.drop_first().len() implies build_fits(
            #[trigger] builds.drop_first()[i],
        ) by {
            assert(builds.drop_first()[i] == builds[i + 1]);
        }
        lemma_read_each(builds.drop_first(), rest);
        lemma_read_build(builds.first(), tail);
        lemma_regroup(encoded_build(builds.first()), encoded_each(builds.drop_first()), rest);
        assert(seq![builds.first()] + builds.drop_first() =~= builds);
    }
}

/// Reading gives back the builds that were written, in their order, and leaves
/// untouched what stands behind them.
pub proof fn reading_gives_back_what_was_written(builds: Seq<BuildView>, behind: Seq<u8>)
    requires
        builds_fit(builds),
    ensures
        read_builds(encoded_builds(builds) + behind) == Some((builds, behind)),
{
    lemma_read_each(builds, behind);
    lemma_read_length(builds.len(), encoded_each(builds) + behind);
    assert(encoded_builds(builds) + behind =~= encoded_length(builds.len()) + (encoded_each(builds)
        + behind));
}

/// Different lists of builds are written differently.
pub proof fn writing_is_injective(first: Seq<BuildView>, second: Seq<BuildView>)
    requires
        builds_fit(first),
        builds_fit(second),
        encoded_builds(first) == encoded_builds(second),
    ensures
        first == second,
{
    reading_gives_back_what_was_written(first, Seq::empty());
    reading_gives_back_what_was_written(second, Seq::empty());
}

} // verus!
