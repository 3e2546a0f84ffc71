use cargo_driver::environment::Environment;
use cargo_driver::flags::{join_fields, rustflags, split_fields, FLAG_DELIMITER};

fn env(encoded: Option<&str>, plain: Option<&str>) -> Environment {
    Environment {
        cargo: None,
        cargo_encoded_rustflags: encoded.map(|s| s.to_owned()),
        rustflags: plain.map(|s| s.to_owned()),
    }
}

fn strings(fields: &[&str]) -> Vec<String> {
    fields.iter().map(|s| s.to_string()).collect()
}

#[test]
fn delimiter_is_the_unit_separator() {
    assert_eq!(FLAG_DELIMITER, '\x1f');
    assert!(FLAG_DELIMITER.is_control());
    assert_ne!(FLAG_DELIMITER, ' ');
}

#[test]
fn encoded_flags_round_trip() {
    let flags = rustflags(&env(Some("-W\x1fwarnings"), None));
    assert_eq!(flags, "-W\x1fwarnings\x1f--cap-lints=allow");
    assert!(flags.ends_with("\x1f--cap-lints=allow"));
    assert_eq!(
        split_fields(&flags, FLAG_DELIMITER),
        ["-W", "warnings", "--cap-lints=allow"]
    );
}

#[test]
fn plain_flags_are_split_on_spaces() {
    assert_eq!(
        rustflags(&env(None, Some("-W warnings"))),
        "-W\x1fwarnings\x1f--cap-lints=allow"
    );
    assert_eq!(
        rustflags(&env(None, Some("-C debuginfo=2  -W unused"))),
        "-C\x1fdebuginfo=2\x1f\x1f-W\x1funused\x1f--cap-lints=allow"
    );
}

#[test]
fn no_flags_in_the_environment_leaves_the_cap_alone() {
    assert_eq!(rustflags(&Environment::default()), "--cap-lints=allow");
    assert_eq!(rustflags(&Environment::new()), "--cap-lints=allow");
}

#[test]
fn encoded_flags_win_over_plain_ones() {
    assert_eq!(
        rustflags(&env(Some("--cfg\x1fa b"), Some("-W warnings"))),
        "--cfg\x1fa b\x1f--cap-lints=allow"
    );
}

#[test]
fn empty_variables_give_one_empty_field() {
    assert_eq!(rustflags(&env(Some(""), None)), "\x1f--cap-lints=allow");
    assert_eq!(rustflags(&env(None, Some(""))), "\x1f--cap-lints=allow");
    assert_eq!(
        rustflags(&env(Some(""), Some("-W"))),
        "\x1f--cap-lints=allow"
    );
}

#[test]
fn cap_lints_is_always_the_last_field() {
    for environment in [
        env(None, None),
        env(Some("-W\x1fwarnings"), None),
        env(Some("\x1f\x1f"), Some("x")),
        env(None, Some(" a  b ")),
        env(None, Some("odd\x1fplain")),
        env(Some("--cap-lints=warn"), None),
    ] {
        let flags = rustflags(&environment);
        let fields = split_fields(&flags, FLAG_DELIMITER);
        assert_eq!(fields.last().unwrap(), "--cap-lints=allow");
        assert_eq!(join_fields(&fields, FLAG_DELIMITER), flags);
    }
}

#[test]
fn split_keeps_empty_fields() {
    assert_eq!(split_fields("", ','), [""]);
    assert_eq!(split_fields(",", ','), ["", ""]);
    assert_eq!(split_fields("a,,b,", ','), ["a", "", "b", ""]);
    assert_eq!(split_fields(",a", ','), ["", "a"]);
    assert_eq!(split_fields("no separator", ','), ["no separator"]);
    assert_eq!(split_fields("grüße→welt", '→'), ["grüße", "welt"]);
}

#[test]
fn split_agrees_with_the_standard_library() {
    for text in ["", " ", "a b", " a  b ", "-W\x1fwarnings", "\x1f", "x\x1f\x1fy z"] {
        for sep in [' ', '\x1f'] {
            let expected: Vec<String> = text.split(sep).map(|s| s.to_owned()).collect();
            assert_eq!(split_fields(text, sep), expected);
            assert_eq!(join_fields(&expected, sep), text);
        }
    }
}

#[test]
fn join_puts_the_separator_between_fields() {
    assert_eq!(join_fields(&strings(&[]), '\x1f'), "");
    assert_eq!(join_fields(&strings(&["one"]), '\x1f'), "one");
    assert_eq!(join_fields(&strings(&["a", "b", "c"]), '-'), "a-b-c");
    assert_eq!(join_fields(&strings(&["", ""]), '-'), "-");
    assert_eq!(join_fields(&strings(&["a-b", "c"]), '-'), "a-b-c");
}

#[test]
fn plain_spaces_become_delimiters() {
    for plain in ["", " ", "-W warnings", "  two  spaces ", "no-space", "tab\tstays -C x"] {
        assert_eq!(
            rustflags(&env(None, Some(plain))),
            format!("{}\x1f--cap-lints=allow", plain.replace(' ', "\x1f"))
        );
    }
}

#[test]
fn encoded_text_is_kept_whole() {
    for encoded in ["", "\x1f", "-W\x1fwarnings", "--cfg\x1ffeature=\"a b\"", "a b"] {
        assert_eq!(
            rustflags(&env(Some(encoded), Some("ignored"))),
            format!("{}\x1f--cap-lints=allow", encoded)
        );
    }
}
