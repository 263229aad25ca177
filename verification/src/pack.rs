//! The form in which builds are handed to the runner: encoded, then compressed.

use crate::builds::Build;
use crate::builds::BuildView;
use crate::builds::builds_view;
use crate::error::Error;
use crate::error::ErrorView;
use crate::error::outcome_view;
use crate::format::encoded_builds;
use crate::text::strings;
use std::io::Write;
use vstd::prelude::*;

verus! {

/// The level at which builds are compressed: the one for the smallest result.
pub const BEST_COMPRESSION: u32 = 9;

/// The model of a build that is given by its parts.
pub open spec fn part_view(part: (Vec<u8>, Vec<String>)) -> BuildView {
    BuildView { bytes: part.0@, required_cpu_features: strings(part.1@) }
}

/// The models of builds that are given by their parts.
pub open spec fn parts_view(parts: Seq<(Vec<u8>, Vec<String>)>) -> Seq<BuildView> {
    parts.map_values(|part: (Vec<u8>, Vec<String>)| part_view(part))
}

/// The contents of the bytes that an operation gave, or of its error.
pub open spec fn bytes_view(r: Result<Vec<u8>, Error>) -> Result<Seq<u8>, ErrorView> {
    match r {
        Ok(bytes) => Ok(bytes@),
        Err(error) => Err(error@),
    }
}

/// What `flate2` makes of bytes at a level: a DEFLATE stream, or a report.
pub uninterp spec fn deflate_outcome(bytes: Seq<u8>, level: u32) -> Result<Seq<u8>, Seq<char>>;

/// `bincode::encode_into_std_write` with the standard configuration, into a
/// vector. The bytes are in the format that `bincode` documents: a length as a
/// variable-width integer, a vector as its length and items, a string as its
/// UTF-8 bytes, a tuple as its fields. It succeeds: only the writer could fail,
/// and a vector grows as needed.
#[verifier::external_body]
fn bincode_encode(parts: &Vec<(Vec<u8>, Vec<String>)>) -> (r: Result<Vec<u8>, String>)
    ensures
        r is Ok,
        r matches Ok(bytes) ==> bytes@ == encoded_builds(parts_view(parts@)),
{
    let mut bytes: Vec<u8> = Vec::new();
    match bincode::encode_into_std_write(parts, &mut bytes, bincode::config::standard()) {
        Ok(_) => Ok(bytes),
        Err(error) => Err(error.to_string()),
    }
}

/// `flate2::write::DeflateEncoder` on a vector, given all bytes at once and then
/// finished. The outcome depends on the bytes and the level alone; which DEFLATE
/// stream it is, and that no report can come of it, is left unsaid.
#[verifier::external_body]
fn deflate(bytes: &Vec<u8>, level: u32) -> (r: Result<Vec<u8>, String>)
    requires
        level <= 9,
    ensures
        outcome_view(r) == deflate_outcome(bytes@, level),
{
    let mut encoder =
        flate2::write::DeflateEncoder::new(Vec::new(), flate2::Compression::new(level));
    match encoder.write_all(bytes) {
        Ok(()) => encoder.finish().map_err(|error| error.to_string()),
        Err(error) => Err(error.to_string()),
    }
}

/// What packing comes to, given what encoding came to.
pub open spec fn encoded_or_error(outcome: Result<Seq<u8>, Seq<char>>) -> Result<
    Seq<u8>,
    ErrorView,
> {
    match outcome {
        Ok(bytes) => Ok(bytes),
        Err(cause) => Err(ErrorView::NotEncoded { cause }),
    }
}

/// What packing comes to, given what compressing came to.
pub open spec fn compressed_or_error(outcome: Result<Seq<u8>, Seq<char>>) -> Result<
    Seq<u8>,
    ErrorView,
> {
    match outcome {
        Ok(bytes) => Ok(bytes),
        Err(cause) => Err(ErrorView::NotCompressed { cause }),
    }
}

/// The packed form of builds, or why there is none.
pub open spec fn packed(builds: Seq<BuildView>) -> Result<Seq<u8>, ErrorView> {
    compressed_or_error(deflate_outcome(encoded_builds(builds), BEST_COMPRESSION))
}

/// The bytes that encoding gave, or the error that reports its failure.
pub fn after_encoding(outcome: Result<Vec<u8>, String>) -> (r: Result<Vec<u8>, Error>)
    ensures
        bytes_view(r) == encoded_or_error(outcome_view(outcome)),
{
    match outcome {
        Ok(bytes) => Ok(bytes),
        Err(cause) => Err(Error::NotEncoded { cause }),
    }
}

/// The bytes that compressing gave, or the error that reports its failure.
pub fn after_compressing(outcome: Result<Vec<u8>, String>) -> (r: Result<Vec<u8>, Error>)
    ensures
        bytes_view(r) == compressed_or_error(outcome_view(outcome)),
{
    match outcome {
        Ok(bytes) => Ok(bytes),
        Err(cause) => Err(Error::NotCompressed { cause }),
    }
}

/// Encodes builds. This always succeeds.
pub fn encode(builds: Vec<Build>) -> (r: Result<Vec<u8>, Error>)
    ensures
        r matches Ok(bytes) && bytes@ == encoded_builds(builds_view(builds@)),
{
    let ghost all = builds_view(builds@);
    let mut builds = builds;
    let mut parts: Vec<(Vec<u8>, Vec<String>)> = Vec::new();
    proof {
        assert(builds_view(builds@) =~= all.skip(0));
        assert(parts_view(parts@) =~= all.take(0));
    }
    while builds.len() > 0
        invariant
            builds.len() + parts.len() == all.len(),
            builds_view(builds@) == all.skip(parts.len() as int),
            parts_view(parts@) == all.take(parts.len() as int),
        decreases builds.len(),
    {
        let ghost done = parts.len() as int;
        let ghost left = builds_view(builds@);
        assert(builds_view(builds@)[0] == builds@[0]@);
        let build = builds.remove(0);
        let ghost model = build@;
        let part = build.into_parts();
        assert(part_view(part) == model);
        parts.push(part);
        proof {
            assert(builds_view(builds@) =~= left.drop_first());
            assert(left.drop_first() =~= all.skip(done + 1));
            assert(parts_view(parts@) =~= all.take(done + 1));
        }
    }
    assert(parts_view(parts@) =~= all);
    after_encoding(bincode_encode(&parts))
}

/// Packs builds for the runner.
pub fn pack(builds: Vec<Build>) -> (r: Result<Vec<u8>, Error>)
    ensures
        bytes_view(r) == packed(builds_view(builds@)),
{
    match encode(builds) {
        Ok(bytes) => after_compressing(deflate(&bytes, BEST_COMPRESSION)),
        Err(error) => Err(error),
    }
}

/// Packed builds are their encoded form, compressed as tightly as can be. Only
/// compressing them can fail, and its report is the cause of the error.
pub proof fn builds_are_packed_as_tightly_as_can_be(
    builds: Seq<BuildView>,
    bytes: Seq<u8>,
    cause: Seq<char>,
)
    ensures
        packed(builds) == Ok::<Seq<u8>, ErrorView>(bytes) <==> deflate_outcome(
            encoded_builds(builds),
            9,
        ) == Ok::<Seq<u8>, Seq<char>>(bytes),
        packed(builds) == Err::<Seq<u8>, ErrorView>(ErrorView::NotCompressed { cause })
            <==> deflate_outcome(encoded_builds(builds), 9) == Err::<Seq<u8>, Seq<char>>(cause),
        encoded_or_error(Ok(bytes)) == Ok::<Seq<u8>, ErrorView>(bytes),
        encoded_or_error(Err(cause)) == Err::<Seq<u8>, ErrorView>(ErrorView::NotEncoded { cause }),
{
}

} // verus!
