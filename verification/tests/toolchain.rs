use rustc_cfg::{Cfg, Error, Invocation, Key, Output, Stream, DEFAULT_TOOLCHAIN, TOOLCHAIN_VARIABLE};

const REQUIRED: &str = "target_os=\"linux\"\n\
target_arch=\"x86_64\"\n\
target_endian=\"little\"\n\
target_pointer_width=\"64\"\n\
target_env=\"gnu\"\n";

fn output(success: bool, stdout: &[u8], stderr: &[u8]) -> Output {
    Output { success, stdout: stdout.to_vec(), stderr: stderr.to_vec() }
}

#[test]
fn invocation_defaults_to_rustc() {
    let invocation = Invocation::new(None, "x86_64-unknown-linux-gnu");
    assert_eq!(invocation.program, "rustc");
    assert_eq!(invocation.args, vec!["--target", "x86_64-unknown-linux-gnu", "--print", "cfg"]);
}

#[test]
fn invocation_runs_the_toolchain_it_is_given() {
    let invocation = Invocation::new(Some("/opt/rust/bin/rustc"), "thumbv7m-none-eabi");
    assert_eq!(invocation.program, "/opt/rust/bin/rustc");
    assert_eq!(invocation.args, vec!["--target", "thumbv7m-none-eabi", "--print", "cfg"]);
}

#[test]
fn invocation_takes_toolchain_and_target_as_they_are() {
    let invocation = Invocation::new(Some(""), "");
    assert_eq!(invocation.program, "");
    assert_eq!(invocation.args, vec!["--target", "", "--print", "cfg"]);
    let invocation = Invocation::new(Some("my rustc"), "a b");
    assert_eq!(invocation.program, "my rustc");
    assert_eq!(invocation.args[1], "a b");
}

#[test]
fn toolchain_names_are_the_usual_ones() {
    assert_eq!(DEFAULT_TOOLCHAIN, "rustc");
    assert_eq!(TOOLCHAIN_VARIABLE, "RUSTC");
}

#[test]
fn failure_passes_standard_error_on_verbatim() {
    let result = Cfg::from_output(output(false, b"", b"error: unsupported target"));
    assert_eq!(result, Err(Error::Toolchain("error: unsupported target".to_string())));
}

#[test]
fn failure_ignores_standard_output() {
    let result = Cfg::from_output(output(false, REQUIRED.as_bytes(), b"error: no\n  such target\n"));
    assert_eq!(result, Err(Error::Toolchain("error: no\n  such target\n".to_string())));
    let result = Cfg::from_output(output(false, &[0xff], b""));
    assert_eq!(result, Err(Error::Toolchain(String::new())));
}

#[test]
fn failure_text_is_decoded_from_utf8() {
    let result = Cfg::from_output(output(false, b"", "erreur: cible inconnue \u{ab}\u{e9}\u{bb} \u{1f980}".as_bytes()));
    assert_eq!(
        result,
        Err(Error::Toolchain("erreur: cible inconnue \u{ab}\u{e9}\u{bb} \u{1f980}".to_string()))
    );
}

#[test]
fn failure_with_undecodable_standard_error_is_an_encoding_error() {
    let result = Cfg::from_output(output(false, REQUIRED.as_bytes(), &[b'e', 0xff, b'r']));
    assert_eq!(result, Err(Error::Encoding(Stream::Stderr)));
}

#[test]
fn success_with_undecodable_standard_output_is_an_encoding_error() {
    let mut stdout = REQUIRED.as_bytes().to_vec();
    stdout.extend_from_slice(&[0xc3, 0x28]);
    let result = Cfg::from_output(output(true, &stdout, b"warning"));
    assert_eq!(result, Err(Error::Encoding(Stream::Stdout)));
    let result = Cfg::from_output(output(true, &[0xed, 0xa0, 0x80], b""));
    assert_eq!(result, Err(Error::Encoding(Stream::Stdout)));
}

#[test]
fn success_ignores_standard_error() {
    let result = Cfg::from_output(output(true, REQUIRED.as_bytes(), &[0xff, 0xfe]));
    assert_eq!(result, Cfg::parse(REQUIRED));
    assert_eq!(result.unwrap().target_os, "linux");
}

#[test]
fn success_parses_standard_output() {
    let stdout = format!("{}target_vendor=\"caf\u{e9}\"\n", REQUIRED);
    let cfg = Cfg::from_output(output(true, stdout.as_bytes(), b"")).unwrap();
    assert_eq!(cfg.target_arch, "x86_64");
    assert_eq!(cfg.target_vendor, Some("caf\u{e9}".to_string()));
}

#[test]
fn success_with_incomplete_output_names_the_missing_key() {
    let result = Cfg::from_output(output(true, b"target_os=\"linux\"\n", b""));
    assert_eq!(result, Err(Error::MissingField(Key::TargetArch)));
    let result = Cfg::from_output(output(true, b"", b"error: ignored"));
    assert_eq!(result, Err(Error::MissingField(Key::TargetOs)));
}
