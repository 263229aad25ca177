use cargo_multivers::cli::{Args, Features, Print};
use cargo_multivers::error::Error;
use cargo_multivers::lines::read_lines;
use cargo_multivers::print::supported_cpu_features;
use cargo_multivers::rustc::{
    cpus_from_target, cpus_query, default_target, features_from_cpu, features_query, version_query,
};
use cargo_multivers::text::{
    chars_of, contains, copy, is_white_space, join, same, starts_with, strip_prefix, trim,
};
use std::io::BufRead;

fn args() -> Args {
    Args {
        target: None,
        rebuild_std: false,
        print: None,
        cpus: None,
        exclude_cpu_features: None,
        features: Features {
            all_features: false,
            no_default_features: false,
            features: vec![],
        },
        args: vec![],
    }
}

fn owned(list: &[&str]) -> Vec<String> {
    list.iter().map(|s| s.to_string()).collect()
}

#[test]
fn lines_end_with_newlines_and_carriage_returns() {
    assert_eq!(read_lines(b""), vec![]);
    assert_eq!(read_lines(b"\n"), vec![Some("".to_string())]);
    assert_eq!(
        read_lines(b"a\r\nb\n\nc\r"),
        vec![
            Some("a".to_string()),
            Some("b".to_string()),
            Some("".to_string()),
            Some("c\r".to_string()),
        ]
    );
    assert_eq!(read_lines(b"a\r\r\n"), vec![Some("a\r".to_string())]);
}

#[test]
fn lines_that_are_not_utf8_are_kept_apart() {
    assert_eq!(
        read_lines(b"a\n\xff\nb\xc3\nh\xc3\xa9"),
        vec![Some("a".to_string()), None, None, Some("hé".to_string())]
    );
}

#[test]
fn lines_agree_with_the_standard_library() {
    let inputs: [&[u8]; 6] = [
        b"one\ntwo",
        b"one\r\ntwo\r\n",
        b"\r\n\r\n",
        b"\xf0\x9f\xa6\x80\n\xf0\x9f\n",
        b"x\n\xe2\x80\xa8y\n",
        b"\r",
    ];
    for input in inputs {
        let expected: Vec<Option<String>> = input.lines().map(|line| line.ok()).collect();
        assert_eq!(read_lines(input), expected);
    }
}

#[test]
fn white_space_agrees_with_the_standard_library() {
    for c in '\0'..=char::MAX {
        assert_eq!(is_white_space(c), c.is_whitespace());
    }
}

#[test]
fn trimming_agrees_with_the_standard_library() {
    for s in ["", " ", "a", " a b ", "\t\u{2003}x\u{3000}\r\n", "\u{200b}x", "é "] {
        assert_eq!(trim(s), s.trim());
    }
}

#[test]
fn text_helpers() {
    assert_eq!(chars_of("hé"), vec!['h', 'é']);
    assert!(same("a", "a"));
    assert!(!same("a", "ab"));
    assert!(starts_with("native - x", "native"));
    assert!(!starts_with("nativ", "native"));
    assert_eq!(strip_prefix("host: x", "host: "), Some("x".to_string()));
    assert_eq!(strip_prefix("host:x", "host: "), None);
    assert!(contains(&owned(&["a", "b"]), "b"));
    assert!(!contains(&owned(&["a", "b"]), "c"));
    assert_eq!(join(&owned(&[]), " "), "");
    assert_eq!(join(&owned(&["a"]), " "), "a");
    assert_eq!(join(&owned(&["a", "b", "c"]), ", "), "a, b, c");
    assert_eq!(copy(&owned(&["a", "b"])), owned(&["a", "b"]));
}

const VERSION: &[u8] = b"rustc 1.65.0\nbinary: rustc\n\xff\nhost: x86_64-unknown-linux-gnu\nhost: other\n";

#[test]
fn default_target_is_the_first_host() {
    assert_eq!(
        default_target(VERSION),
        Some("x86_64-unknown-linux-gnu".to_string())
    );
    assert_eq!(default_target(b" host: x\nhosts: y\n"), None);
    assert_eq!(default_target(b""), None);
}

#[test]
fn target_is_given_or_default() {
    let mut args = args();
    assert_eq!(args.target_question(), Some(owned(&["rustc", "--", "-vV"])));
    assert_eq!(
        args.target(Ok(VERSION.to_vec())).unwrap(),
        "x86_64-unknown-linux-gnu"
    );
    let error = args.target(Err("no cargo".to_string())).unwrap_err();
    assert!(matches!(error, Error::UnknownVersion { .. }));
    assert_eq!(error.message(), "no cargo");
    assert_eq!(error.cause(), None);
    let error = args.target(Ok(b"release: 1".to_vec())).unwrap_err();
    assert!(matches!(error, Error::NoDefaultTarget));
    assert_eq!(error.message(), "Failed to detect default target");
    assert_eq!(error.cause(), None);
    args.target = Some("aarch64-apple-darwin".to_string());
    assert_eq!(args.target_question(), None);
    assert_eq!(
        args.target(Ok(VERSION.to_vec())).unwrap(),
        "aarch64-apple-darwin"
    );
    assert_eq!(
        args.target(Err("no cargo".to_string())).unwrap(),
        "aarch64-apple-darwin"
    );
}

#[test]
fn features_are_read_from_the_configuration() {
    let output = b"debug_assertions\ntarget_arch=\"x86_64\"\ntarget_feature=\"fxsr\"\n\
target_feature=\"llvm14-builtins-abi\"\ntarget_feature=\"sse\"\r\ntarget_feature=\"open\n\
target_feature=\"\"\n target_feature=\"no\"\ntarget_feature=\"\n\xfe\ntarget_feature=\"sse2\"";
    assert_eq!(
        features_from_cpu(output),
        owned(&["fxsr", "sse", "", "sse2"])
    );
}

#[test]
fn cpus_are_read_from_the_list() {
    let output = b"Available CPUs for this target:\n    native                - Select the CPU\n\
    alderlake\n\n   \t\n    athlon \n\xff\n    nativelike\n    znver3\r\n";
    assert_eq!(
        cpus_from_target(output),
        owned(&["alderlake", "athlon", "znver3"])
    );
    assert_eq!(cpus_from_target(b""), owned(&[]));
    assert_eq!(cpus_from_target(b"generic"), owned(&[]));
    assert_eq!(cpus_from_target(b"\xff\ngeneric"), owned(&["generic"]));
}

#[test]
fn queries_are_arguments_for_cargo() {
    assert_eq!(version_query(), owned(&["rustc", "--", "-vV"]));
    assert_eq!(
        features_query("t", "c"),
        owned(&["rustc", "--", "--print", "cfg", "--target", "t", "-Ctarget-cpu=c"])
    );
    assert_eq!(
        cpus_query("t"),
        owned(&["rustc", "--", "--print", "target-cpus", "--target", "t"])
    );
}

#[test]
fn cpus_are_given_or_listed() {
    let mut args = args();
    let list = || Ok(b"CPUs\n a\n b\n".to_vec());
    assert_eq!(args.candidate_cpus(list()).unwrap(), owned(&["a", "b"]));
    let error = args.candidate_cpus(Err("no cargo".to_string())).unwrap_err();
    assert!(matches!(error, Error::UnknownCpus { .. }));
    assert_eq!(error.message(), "Failed to get the set of CPUs for the target");
    assert_eq!(error.cause(), Some("no cargo".to_string()));
    args.cpus = Some(owned(&["x"]));
    assert_eq!(args.candidate_cpus(list()).unwrap(), owned(&["x"]));
    assert_eq!(
        args.candidate_cpus(Err("no cargo".to_string())).unwrap(),
        owned(&["x"])
    );
    assert_eq!(args.excluded_features(), owned(&[]));
    args.exclude_cpu_features = Some(owned(&["avx"]));
    assert_eq!(args.excluded_features(), owned(&["avx"]));
    args.print = Some(Print::CpuFeatures);
    assert_eq!(args.print, Some(Print::CpuFeatures));
}

#[test]
fn supported_features_are_those_of_every_cpu_once() {
    let outputs = vec![
        b"target_feature=\"sse\"\ntarget_feature=\"fxsr\"\n".to_vec(),
        b"target_feature=\"avx\"\ntarget_feature=\"sse\"\n".to_vec(),
        b"".to_vec(),
        b"target_feature=\"avx\"\ntarget_feature=\"bmi\"\n".to_vec(),
    ];
    assert_eq!(
        supported_cpu_features(&outputs),
        owned(&["sse", "fxsr", "avx", "bmi"])
    );
    assert_eq!(supported_cpu_features(&vec![]), owned(&[]));
}
