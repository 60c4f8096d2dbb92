use ykchalresp::cli::{parse_args, parse_challenge, render_response, same_text, usage, Command, Options};
use ykchalresp::codec::CodecError;
use ykchalresp::install::{destinations, display, prefix};

fn args(v: &[&str]) -> Vec<String> {
    v.iter().map(|s| s.to_string()).collect()
}

#[test]
fn defaults_without_arguments() {
    assert_eq!(
        parse_args(&args(&[])),
        Command::Run(Options { slot: 2, hex_mode: false, simulate: false, challenge: None })
    );
}

#[test]
fn flags_and_challenge() {
    assert_eq!(
        parse_args(&args(&["-1", "-x", "-s", "abcd"])),
        Command::Run(Options { slot: 1, hex_mode: true, simulate: true, challenge: Some("abcd".to_string()) })
    );
    assert_eq!(
        parse_args(&args(&["-1", "c", "-2"])),
        Command::Run(Options { slot: 2, hex_mode: false, simulate: false, challenge: Some("c".to_string()) })
    );
}

#[test]
fn help_and_version_end_the_scan() {
    assert_eq!(parse_args(&args(&["-x", "--help", "a", "b", "c"])), Command::Help);
    assert_eq!(parse_args(&args(&["-h"])), Command::Help);
    assert_eq!(parse_args(&args(&["-V", "-h"])), Command::Version);
    assert_eq!(parse_args(&args(&["--version"])), Command::Version);
}

#[test]
fn second_challenge_is_unexpected() {
    assert_eq!(parse_args(&args(&["one", "-s", "two", "-h"])), Command::Unexpected("two".to_string()));
}

#[test]
fn texts_compare_by_characters() {
    assert!(same_text("-1", "-1"));
    assert!(!same_text("-1", "-2"));
    assert!(!same_text("-1", "-12"));
    assert!(same_text("", ""));
}

#[test]
fn challenge_raw_and_hex() {
    assert_eq!(parse_challenge("ab", false), Ok(vec![b'a', b'b']));
    assert_eq!(parse_challenge("é", false), Ok(vec![0xc3, 0xa9]));
    assert_eq!(parse_challenge("0aFF", true), Ok(vec![0x0a, 0xff]));
    assert_eq!(parse_challenge("0aF", true), Err(CodecError::MalformedHex));
}

#[test]
fn response_in_hex_and_modhex() {
    let d = [0xde, 0xad, 0xbe, 0xef];
    assert_eq!(render_response(&d, true), "deadbeef");
    assert_eq!(render_response(&d, false), "tultnuuv");
}

#[test]
fn usage_names_the_flags() {
    let u = usage();
    assert!(u.starts_with("ykchalresp [-1|-2] [-x] [-s] [challenge]\n\n-1        use slot 1"));
    assert!(u.contains("YKCHALRESP_SLOT1_KEY"));
}

#[test]
fn install_prefix_defaults_and_staging() {
    assert_eq!(prefix(None, None), "/usr/local");
    assert_eq!(prefix(Some(""), Some("/opt")), "/opt");
    assert_eq!(prefix(Some("/stage"), None), "/stage/usr/local");
    assert_eq!(prefix(Some("/stage/"), Some("//opt/x")), "/stage/opt/x");
    assert_eq!(prefix(Some("stage"), Some("rel")), "stage/rel");
}

#[test]
fn install_destinations() {
    let (bin, man) = destinations(None, Some("/usr"));
    assert_eq!(bin, "/usr/bin/ykchalresp");
    assert_eq!(man, "/usr/share/man/man1/ykchalresp.1");
    let (bin, man) = destinations(Some("/tmp/pkg"), None);
    assert_eq!(bin, "/tmp/pkg/usr/local/bin/ykchalresp");
    assert_eq!(man, "/tmp/pkg/usr/local/share/man/man1/ykchalresp.1");
    assert_eq!(display("/a b/c"), "/a b/c");
}
