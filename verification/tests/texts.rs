use cube_api::paths::{examples_root, file_extension, parent_dir, path_join};
use cube_api::text::{
    blank, lines, parse_i64, same, show_decimal, show_hex, split_once, starts_with, strip_prefix,
    trim, trim_end_matches, trim_start_matches,
};

#[test]
fn equal_texts_are_the_same() {
    assert!(same("kernel", "kernel"));
    assert!(!same("kernel", "kernels"));
    assert!(!same("", " "));
}

#[test]
fn trimming_knows_unicode_whitespace() {
    assert_eq!(trim(" \t\u{3000}a b\u{a0}\n"), "a b");
    assert_eq!(trim("\u{200b}x"), "\u{200b}x");
    assert_eq!(trim(" \r\n"), "");
    assert_eq!(trim("  é  "), "  é  ".trim());
}

#[test]
fn blank_is_what_trims_to_nothing() {
    assert!(blank(""));
    assert!(blank(" \t\u{2028}"));
    assert!(!blank(" . "));
}

#[test]
fn splitting_takes_the_first_place() {
    assert_eq!(split_once("a:b:c", ':'), Some(("a", "b:c")));
    assert_eq!(split_once(":", ':'), Some(("", "")));
    assert_eq!(split_once("abc", ':'), None);
}

#[test]
fn prefixes_are_found_and_taken_off() {
    assert!(starts_with("[{}]", "["));
    assert!(starts_with("x", ""));
    assert!(!starts_with("", "x"));
    assert_eq!(strip_prefix("exit status 3", "exit status "), Some("3"));
    assert_eq!(strip_prefix("exit", "exit status "), None);
}

#[test]
fn repeated_characters_are_trimmed() {
    assert_eq!(trim_end_matches("http://host//", '/'), "http://host");
    assert_eq!(trim_end_matches("///", '/'), "");
    assert_eq!(trim_start_matches("[[x]", '['), "x]");
    assert_eq!(trim_start_matches("x[", '['), "x[");
}

#[test]
fn lines_are_those_of_the_standard_library() {
    for text in [
        "",
        "\n",
        "a",
        "a\n",
        "a\r\nb",
        "a\n\nb\n",
        "a\r",
        "\r\n",
        "a\rb\n",
        "\r\r\n",
        "ü\n\u{2028}x",
    ] {
        let expected: Vec<String> = text.lines().map(|line| line.to_string()).collect();
        assert_eq!(lines(text), expected);
    }
}

#[test]
fn numbers_are_shown_and_read() {
    assert_eq!(show_decimal(0), "0");
    assert_eq!(show_decimal(49983), "49983");
    assert_eq!(show_decimal(u64::MAX), "18446744073709551615");
    assert_eq!(show_hex(255, 16), "00000000000000ff");
    assert_eq!(show_hex(u64::MAX, 16), "ffffffffffffffff");
    assert_eq!(parse_i64("-12"), Some(-12));
    assert_eq!(parse_i64("+7"), Some(7));
    assert_eq!(parse_i64("9223372036854775807"), Some(i64::MAX));
    assert_eq!(parse_i64("-9223372036854775808"), Some(i64::MIN));
    for text in ["", "-", "+", "1 ", "0x1", "9223372036854775808", "1.0", "--1"] {
        assert_eq!(parse_i64(text), None);
        assert!(text.parse::<i64>().is_err());
    }
}

#[test]
fn paths_are_joined_as_the_standard_library_does() {
    for (base, name) in [
        ("/srv/examples", "host-mount"),
        ("/srv/examples/", "host-mount"),
        ("", "main.go"),
        ("/", "x"),
        ("/a", "/b"),
        ("a", ""),
        ("a/", ""),
    ] {
        let expected = std::path::Path::new(base).join(name);
        assert_eq!(path_join(base, name), expected.to_str().unwrap());
    }
}

#[test]
fn extensions_are_those_of_the_standard_library() {
    for path in [
        "a/create.py",
        "main.go",
        ".bashrc",
        "a.tar.gz",
        "noext",
        "dir.d/noext",
        "trailing.",
        "a/.hidden.py",
        "X.PY",
    ] {
        let expected = std::path::Path::new(path)
            .extension()
            .and_then(|s| s.to_str())
            .unwrap_or("");
        assert_eq!(file_extension(path), expected);
    }
}

#[test]
fn a_file_lies_in_its_directory() {
    assert_eq!(parent_dir("/srv/examples/cube-bench/main.go"), "/srv/examples/cube-bench");
    assert_eq!(parent_dir("/main.go"), "/");
    assert_eq!(parent_dir("main.go"), "");
}

#[test]
fn the_examples_lie_next_to_the_server_or_where_the_override_says() {
    assert_eq!(examples_root(None, "/repo/CubeAPI"), "/repo/CubeAPI/../examples");
    assert_eq!(examples_root(Some("/opt/ex".to_string()), "/repo/CubeAPI"), "/opt/ex");
}
