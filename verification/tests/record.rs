use rustc_cfg::{Cfg, Error, Key};

const LINUX: &str = "debug_assertions\n\
panic=\"unwind\"\n\
target_arch=\"x86_64\"\n\
target_endian=\"little\"\n\
target_env=\"gnu\"\n\
target_family=\"unix\"\n\
target_feature=\"fxsr\"\n\
target_feature=\"sse\"\n\
target_feature=\"sse2\"\n\
target_has_atomic=\"16\"\n\
target_has_atomic=\"32\"\n\
target_has_atomic=\"64\"\n\
target_has_atomic=\"8\"\n\
target_has_atomic=\"ptr\"\n\
target_os=\"linux\"\n\
target_pointer_width=\"64\"\n\
target_vendor=\"unknown\"\n\
unix\n";

const REQUIRED: &str = "target_os=\"linux\"\n\
target_arch=\"x86_64\"\n\
target_endian=\"little\"\n\
target_pointer_width=\"64\"\n\
target_env=\"gnu\"\n";

fn strings(items: &[&str]) -> Vec<String> {
    items.iter().map(|item| item.to_string()).collect()
}

#[test]
fn reads_every_field_of_a_linux_target() {
    let cfg = Cfg::parse(LINUX).unwrap();
    assert_eq!(cfg.target_os, "linux");
    assert_eq!(cfg.target_family, Some("unix".to_string()));
    assert_eq!(cfg.target_arch, "x86_64");
    assert_eq!(cfg.target_endian, "little");
    assert_eq!(cfg.target_pointer_width, "64");
    assert_eq!(cfg.target_env, "gnu");
    assert_eq!(cfg.target_vendor, Some("unknown".to_string()));
    assert_eq!(cfg.target_has_atomic, strings(&["16", "32", "64", "8", "ptr"]));
    assert_eq!(cfg.target_feature, strings(&["fxsr", "sse", "sse2"]));
}

#[test]
fn reads_required_keys_given_once_in_any_order() {
    let text = "target_env=\"musl\"\n\
target_pointer_width=\"32\"\n\
target_endian=\"big\"\n\
target_arch=\"mips\"\n\
target_os=\"none\"\n";
    let cfg = Cfg::parse(text).unwrap();
    assert_eq!(cfg.target_os, "none");
    assert_eq!(cfg.target_arch, "mips");
    assert_eq!(cfg.target_endian, "big");
    assert_eq!(cfg.target_pointer_width, "32");
    assert_eq!(cfg.target_env, "musl");
}

#[test]
fn repeated_features_accumulate_in_order() {
    let text = format!("{}target_feature=\"a\"\ntarget_feature=\"b\"\n", REQUIRED);
    let cfg = Cfg::parse(&text).unwrap();
    assert_eq!(cfg.target_feature, strings(&["a", "b"]));
}

#[test]
fn repeated_features_are_neither_merged_nor_sorted() {
    let text = format!(
        "target_feature=\"b\"\n{}target_feature=\"a\"\ntarget_feature=\"b\"\n",
        REQUIRED
    );
    let cfg = Cfg::parse(&text).unwrap();
    assert_eq!(cfg.target_feature, strings(&["b", "a", "b"]));
}

#[test]
fn repeated_atomic_widths_accumulate_in_order() {
    let text = format!(
        "target_has_atomic=\"ptr\"\n{}target_has_atomic=\"8\"\ntarget_has_atomic=\"ptr\"\n",
        REQUIRED
    );
    let cfg = Cfg::parse(&text).unwrap();
    assert_eq!(cfg.target_has_atomic, strings(&["ptr", "8", "ptr"]));
    assert!(cfg.target_feature.is_empty());
}

#[test]
fn last_value_of_a_single_valued_key_wins() {
    let text = format!("{}target_os=\"windows\"\n", REQUIRED);
    let cfg = Cfg::parse(&text).unwrap();
    assert_eq!(cfg.target_os, "windows");
}

#[test]
fn last_value_of_an_optional_key_wins() {
    let text = format!(
        "target_vendor=\"apple\"\n{}target_vendor=\"pc\"\ntarget_family=\"unix\"\ntarget_family=\"windows\"\n",
        REQUIRED
    );
    let cfg = Cfg::parse(&text).unwrap();
    assert_eq!(cfg.target_vendor, Some("pc".to_string()));
    assert_eq!(cfg.target_family, Some("windows".to_string()));
}

#[test]
fn missing_target_arch_is_named() {
    let text = "target_os=\"linux\"\n\
target_endian=\"little\"\n\
target_pointer_width=\"64\"\n\
target_env=\"gnu\"\n\
target_vendor=\"unknown\"\n\
target_feature=\"sse\"\n";
    assert_eq!(Cfg::parse(text), Err(Error::MissingField(Key::TargetArch)));
}

#[test]
fn each_missing_required_key_is_named() {
    let lines = [
        ("target_os=\"linux\"\n", Key::TargetOs),
        ("target_arch=\"x86_64\"\n", Key::TargetArch),
        ("target_endian=\"little\"\n", Key::TargetEndian),
        ("target_pointer_width=\"64\"\n", Key::TargetPointerWidth),
        ("target_env=\"gnu\"\n", Key::TargetEnv),
    ];
    for skipped in 0..lines.len() {
        let mut text = String::new();
        for (index, (line, _)) in lines.iter().enumerate() {
            if index != skipped {
                text.push_str(line);
            }
        }
        assert_eq!(Cfg::parse(&text), Err(Error::MissingField(lines[skipped].1)));
    }
}

#[test]
fn first_missing_required_key_is_the_one_named() {
    assert_eq!(Cfg::parse(""), Err(Error::MissingField(Key::TargetOs)));
    assert_eq!(
        Cfg::parse("target_os=\"linux\"\ntarget_env=\"gnu\"\n"),
        Err(Error::MissingField(Key::TargetArch))
    );
    assert_eq!(
        Cfg::parse("target_os=\"linux\"\ntarget_arch=\"arm\"\ntarget_env=\"gnu\"\n"),
        Err(Error::MissingField(Key::TargetEndian))
    );
}

#[test]
fn absent_optional_keys_are_absent_not_empty() {
    let cfg = Cfg::parse(REQUIRED).unwrap();
    assert_eq!(cfg.target_vendor, None);
    assert_eq!(cfg.target_family, None);
    assert!(cfg.target_has_atomic.is_empty());
    assert!(cfg.target_feature.is_empty());
}

#[test]
fn empty_optional_value_is_present_and_empty() {
    let text = format!("{}target_vendor=\"\"\ntarget_family=\n", REQUIRED);
    let cfg = Cfg::parse(&text).unwrap();
    assert_eq!(cfg.target_vendor, Some(String::new()));
    assert_eq!(cfg.target_family, Some(String::new()));
}

#[test]
fn empty_environment_is_a_value() {
    let text = "target_os=\"macos\"\n\
target_arch=\"aarch64\"\n\
target_endian=\"little\"\n\
target_pointer_width=\"64\"\n\
target_env=\"\"\n\
target_vendor=\"apple\"\n";
    let cfg = Cfg::parse(text).unwrap();
    assert_eq!(cfg.target_env, "");
    assert_eq!(cfg.target_vendor, Some("apple".to_string()));
}

#[test]
fn bare_keys_change_nothing() {
    let with = format!("unix\n{}debug_assertions\n\nwindows", REQUIRED);
    assert_eq!(Cfg::parse(&with), Cfg::parse(REQUIRED));
    assert!(Cfg::parse(&with).is_ok());
}

#[test]
fn bare_key_named_like_a_field_gives_no_value() {
    let text = "target_os\n\
target_arch=\"x86_64\"\n\
target_endian=\"little\"\n\
target_pointer_width=\"64\"\n\
target_env=\"gnu\"\n";
    assert_eq!(Cfg::parse(text), Err(Error::MissingField(Key::TargetOs)));
}

#[test]
fn unknown_keys_change_nothing() {
    let with = format!("panic=\"unwind\"\n{}target_abi=\"eabi\"\n", REQUIRED);
    assert_eq!(Cfg::parse(&with), Cfg::parse(REQUIRED));
}

#[test]
fn keys_are_compared_exactly() {
    let text = format!("{}TARGET_VENDOR=\"a\"\n target_family=\"b\"\ntarget_family =\"c\"\n", REQUIRED);
    let cfg = Cfg::parse(&text).unwrap();
    assert_eq!(cfg.target_vendor, None);
    assert_eq!(cfg.target_family, None);
}

#[test]
fn value_keeps_later_equals_signs() {
    let text = format!("{}target_vendor=\"a=b=c\"\n", REQUIRED);
    let cfg = Cfg::parse(&text).unwrap();
    assert_eq!(cfg.target_vendor, Some("a=b=c".to_string()));
}

#[test]
fn only_the_outermost_quotes_are_removed() {
    let text = format!(
        "{}target_vendor=\"\"x\"\"\ntarget_family=\"a\\\"\"\ntarget_feature=\"a\"b\"\n",
        REQUIRED
    );
    let cfg = Cfg::parse(&text).unwrap();
    assert_eq!(cfg.target_vendor, Some("\"x\"".to_string()));
    assert_eq!(cfg.target_family, Some("a\\\"".to_string()));
    assert_eq!(cfg.target_feature, strings(&["a\"b"]));
}

#[test]
fn a_quote_on_one_side_only_stays() {
    let text = format!(
        "{}target_vendor=\"x\ntarget_family=y\"\ntarget_feature=\"\ntarget_feature=z\n",
        REQUIRED
    );
    let cfg = Cfg::parse(&text).unwrap();
    assert_eq!(cfg.target_vendor, Some("\"x".to_string()));
    assert_eq!(cfg.target_family, Some("y\"".to_string()));
    assert_eq!(cfg.target_feature, strings(&["\"", "z"]));
}

#[test]
fn carriage_return_before_line_feed_ends_the_line() {
    let text = "target_os=\"windows\"\r\n\
target_arch=\"x86_64\"\r\n\
target_endian=\"little\"\r\n\
target_pointer_width=\"64\"\r\n\
target_env=\"msvc\"\r\n\
windows\r\n";
    let cfg = Cfg::parse(text).unwrap();
    assert_eq!(cfg.target_os, "windows");
    assert_eq!(cfg.target_env, "msvc");
}

#[test]
fn last_line_needs_no_line_feed() {
    let text = REQUIRED.trim_end_matches('\n');
    let cfg = Cfg::parse(text).unwrap();
    assert_eq!(cfg.target_env, "gnu");
}

#[test]
fn carriage_return_without_line_feed_stays_in_the_value() {
    let text = format!("{}target_vendor=\"pc\"\r", REQUIRED);
    let cfg = Cfg::parse(&text).unwrap();
    assert_eq!(cfg.target_vendor, Some("\"pc\"\r".to_string()));
}

#[test]
fn values_may_hold_any_characters() {
    let text = format!("{}target_vendor=\"caf\u{e9} \u{1f980}\"\n", REQUIRED);
    let cfg = Cfg::parse(&text).unwrap();
    assert_eq!(cfg.target_vendor, Some("caf\u{e9} \u{1f980}".to_string()));
}

#[test]
fn parsing_is_deterministic() {
    assert_eq!(Cfg::parse(LINUX), Cfg::parse(LINUX));
}
