use cargo_multivers::builds::{prioritize, Build};
use cargo_multivers::error::Error;
use cargo_multivers::pack::{after_compressing, after_encoding, encode, pack};
use cargo_multivers::target::{is_valid_cpu_for_target, Triple};
use std::io::{Read, Write};

fn owned(list: &[&str]) -> Vec<String> {
    list.iter().map(|s| s.to_string()).collect()
}

fn build(byte: u8, features: &[&str]) -> Build {
    Build::new(vec![byte], owned(features))
}

fn bytes_of(builds: &[Build]) -> Vec<u8> {
    builds.iter().map(|build| build.bytes()[0]).collect()
}

#[test]
fn builds_keep_their_parts() {
    let build = build(7, &["sse", "avx"]);
    assert_eq!(build.bytes(), &vec![7]);
    assert_eq!(build.required_cpu_features(), &owned(&["sse", "avx"]));
    assert_eq!(build.into_parts(), (vec![7], owned(&["sse", "avx"])));
}

#[test]
fn most_demanding_builds_come_first() {
    let builds = prioritize(vec![
        build(1, &["a"]),
        build(2, &["a", "b", "c"]),
        build(3, &[]),
        build(4, &["d"]),
        build(5, &["e", "f", "g"]),
    ]);
    assert_eq!(bytes_of(&builds), vec![2, 5, 1, 4, 3]);
    assert_eq!(bytes_of(&prioritize(vec![])), Vec::<u8>::new());
}

#[test]
fn first_build_that_runs_is_the_most_demanding_one() {
    let builds = prioritize(vec![
        build(1, &["sse"]),
        build(2, &["sse", "avx", "avx2"]),
        build(3, &["sse", "avx"]),
    ]);
    let cpu = owned(&["avx", "sse", "bmi"]);
    let first = builds
        .iter()
        .find(|build| build.required_cpu_features().iter().all(|f| cpu.contains(f)));
    assert_eq!(first.unwrap().bytes(), &vec![3]);
}

#[test]
fn encoding_is_exact() {
    assert_eq!(encode(vec![]).unwrap(), vec![0]);
    assert_eq!(
        encode(vec![build(9, &["sse", "é"]), Build::new(vec![], vec![])]).unwrap(),
        vec![2, 1, 9, 2, 3, b's', b's', b'e', 2, 0xc3, 0xa9, 0, 0]
    );
    assert_eq!(
        encode(vec![Build::new(vec![5; 250], vec![])]).unwrap()[..3],
        [1, 250, 5]
    );
    assert_eq!(
        encode(vec![Build::new(vec![5; 251], vec![])]).unwrap()[..5],
        [1, 251, 251, 0, 5]
    );
    assert_eq!(
        encode(vec![Build::new(vec![5; 0x1_0203], vec![])]).unwrap()[..7],
        [1, 252, 3, 2, 1, 0, 5]
    );
}

#[test]
fn packed_builds_can_be_unpacked() {
    let large: Vec<u8> = (0..100_000u32).map(|i| (i / 7) as u8).collect();
    let builds = vec![
        Build::new(large.clone(), owned(&["sse", "avx"])),
        build(3, &[]),
    ];
    let packed = pack(builds).unwrap();
    assert!(packed.len() < large.len());
    let mut bytes = Vec::new();
    flate2::read::DeflateDecoder::new(packed.as_slice())
        .read_to_end(&mut bytes)
        .unwrap();
    let (decoded, read): (Vec<(Vec<u8>, Vec<String>)>, usize) =
        bincode::decode_from_slice(&bytes, bincode::config::standard()).unwrap();
    assert_eq!(read, bytes.len());
    assert_eq!(
        decoded,
        vec![(large, owned(&["sse", "avx"])), (vec![3], vec![])]
    );
}

#[test]
fn packing_is_as_tight_as_it_can_be() {
    let data: Vec<u8> = (0..50_000u32).map(|i| (i * i / 300) as u8).collect();
    let builds = vec![Build::new(data, owned(&["sse"]))];
    let encoded = encode(vec![Build::new(builds[0].bytes().clone(), owned(&["sse"]))]).unwrap();
    let mut encoder = flate2::write::DeflateEncoder::new(Vec::new(), flate2::Compression::best());
    encoder.write_all(&encoded).unwrap();
    assert_eq!(pack(builds).unwrap(), encoder.finish().unwrap());
}

#[test]
fn outcomes_become_errors() {
    assert_eq!(after_encoding(Ok(vec![1])).unwrap(), vec![1]);
    assert_eq!(after_compressing(Ok(vec![2])).unwrap(), vec![2]);
    let error = after_encoding(Err("why".to_string())).unwrap_err();
    assert_eq!(error.message(), "Failed to encode the builds");
    assert_eq!(error.cause(), Some("why".to_string()));
    let error = after_compressing(Err("why".to_string())).unwrap_err();
    assert_eq!(error.message(), "Failed to compress the builds");
    assert_eq!(error.cause(), Some("why".to_string()));
}

#[test]
fn triples_are_parsed() {
    assert_eq!(
        Triple::parse("x86_64-unknown-linux-gnu").unwrap().architecture,
        "x86_64"
    );
    assert_eq!(
        Triple::parse("x86_64h-apple-darwin").unwrap().architecture,
        "x86_64h"
    );
    assert_eq!(
        Triple::parse("arm64-apple-darwin").unwrap().architecture,
        "aarch64"
    );
    let error = Triple::parse("toaster-unknown").unwrap_err();
    assert!(matches!(error, Error::InvalidTarget { .. }));
    assert_eq!(error.message(), "Failed to parse the target");
    assert_eq!(
        error.cause(),
        Some("Unrecognized architecture: toaster".to_string())
    );
    let error = Triple::from_outcome(Err("why".to_string())).unwrap_err();
    assert_eq!(error.cause(), Some("why".to_string()));
}

#[test]
fn cpus_without_64_bit_mode_are_not_valid_for_64_bit_targets() {
    let x86_64 = Triple::parse("x86_64-unknown-linux-gnu").unwrap();
    let i686 = Triple::parse("i686-unknown-linux-gnu").unwrap();
    let without = [
        "athlon", "athlon-4", "athlon-xp", "athlon-mp", "athlon-tbird", "c3", "c3-2", "geode",
        "i386", "i486", "i586", "i686", "k6", "k6-2", "k6-3", "lakemont", "pentium", "pentium-m",
        "pentium-mmx", "pentium2", "pentium3", "pentium3m", "pentium4", "pentium4m", "pentiumpro",
        "pentiumprescott", "prescott", "winchip-c6", "winchip2", "yonah",
    ];
    for cpu in without {
        assert!(!is_valid_cpu_for_target(&x86_64, cpu));
        assert!(is_valid_cpu_for_target(&i686, cpu));
    }
    for cpu in ["athlon64", "x86-64", "znver3", "nocona", "", "Athlon"] {
        assert!(is_valid_cpu_for_target(&x86_64, cpu));
        assert!(is_valid_cpu_for_target(&i686, cpu));
    }
}
