use dargo::crates::{
    accepts_dependency_version_req_text, get_dependency_version_req_text,
    put_dependency_version_req_text,
};
use dargo::slot::DepKind;
use dargo::document::ManifestDocument;
use dargo::text::is_plain_text;

/// Names and texts that the library takes for plain.
fn plain_samples() -> Vec<String> {
    let mut samples: Vec<String> = vec![
        "serde",
        "serde_json",
        "a.b",
        "a b",
        "with space and = sign",
        "cfg(target_os = \"linux\")",
        "cfg(all(unix, not(target_os = \"macos\")))",
        "x86_64-pc-windows-gnu",
        ">=0.1, <1.0",
        "^1.2.3",
        "~0.1.0",
        "1.*",
        "*",
        "1.0.0-alpha.1+build.5",
        "a\"",
        "a\"b\"c",
        "#hash",
        "[brackets]",
        "{braces}",
        "tr\u{e4}ger",
        "\u{7f}",
        "\u{10ffff}",
        "0",
        "true",
        "1979-05-27",
    ]
    .into_iter()
    .map(|s| s.to_string())
    .collect();
    for code in 0x20u32..0x250 {
        if let Some(c) = char::from_u32(code) {
            if c != '\'' && c != '\\' {
                samples.push(format!("x{}", c));
                samples.push(format!("x{}y", c));
                if c != '"' {
                    samples.push(c.to_string());
                    samples.push(format!("{}x", c));
                }
            }
        }
    }
    samples
}

#[test]
fn samples_are_plain() {
    for sample in plain_samples() {
        assert!(is_plain_text(&sample), "{:?}", sample);
    }
}

#[test]
fn plain_key_is_read_by_a_table_as_it_stands() {
    for sample in plain_samples() {
        let key = sample.parse::<toml_edit::Key>().unwrap();
        assert_eq!(key.get(), sample, "{:?}", sample);
    }
}

#[test]
fn plain_text_becomes_a_string_value_as_it_stands() {
    for sample in plain_samples() {
        let item = toml_edit::value(sample.as_str());
        assert_eq!(item.as_str(), Some(sample.as_str()), "{:?}", sample);
    }
}

#[test]
fn plain_name_and_text_are_written_and_read_back() {
    for sample in plain_samples() {
        let mut doc = ManifestDocument::parse("[dependencies]\nfoo = \"1\"\n").unwrap();
        assert!(accepts_dependency_version_req_text(&doc, DepKind::Normal, None, &sample, &sample));
        put_dependency_version_req_text(&mut doc, DepKind::Normal, None, &sample, &sample);
        assert_eq!(
            get_dependency_version_req_text(&doc, DepKind::Normal, None, &sample),
            Some(sample.as_str()),
            "{:?}",
            sample
        );
        assert_eq!(
            get_dependency_version_req_text(&doc, DepKind::Normal, None, "foo"),
            Some("1")
        );
    }
}

#[test]
fn plain_entry_is_read_back_from_the_printed_text() {
    for sample in plain_samples() {
        let mut doc = ManifestDocument::parse("[dependencies]\n").unwrap();
        put_dependency_version_req_text(&mut doc, DepKind::Normal, None, &sample, &sample);
        let again = ManifestDocument::parse(&doc.to_text()).unwrap();
        assert_eq!(
            get_dependency_version_req_text(&again, DepKind::Normal, None, &sample),
            Some(sample.as_str()),
            "{:?}",
            sample
        );
    }
}

#[test]
fn plain_platform_is_written_and_read_back() {
    for sample in plain_samples() {
        let mut doc = ManifestDocument::parse("[target]\n").unwrap();
        assert!(accepts_dependency_version_req_text(
            &doc,
            DepKind::Build,
            Some(&sample),
            "cc",
            "1.0.0"
        ));
        put_dependency_version_req_text(&mut doc, DepKind::Build, Some(&sample), "cc", "1.0.0");
        assert_eq!(
            get_dependency_version_req_text(&doc, DepKind::Build, Some(&sample), "cc"),
            Some("1.0.0"),
            "{:?}",
            sample
        );
    }
}

#[test]
fn text_that_is_not_plain_may_change_on_the_way() {
    assert_eq!("\"quoted\"".parse::<toml_edit::Key>().unwrap().get(), "quoted");
    assert_eq!(toml_edit::value("'single'").as_str(), Some("single"));
    assert_eq!(toml_edit::value("\"a\\tb\"").as_str(), Some("a\tb"));
}

#[test]
fn string_in_the_manifest_is_read_as_its_value() {
    let doc = ManifestDocument::parse(
        "[dependencies]\na = 'lit\\eral'\nb = \"esc\\\"aped\\u00e9\"\nc = \"\"\"\nmulti\"\"\"\n",
    )
    .unwrap();
    assert_eq!(get_dependency_version_req_text(&doc, DepKind::Normal, None, "a"), Some("lit\\eral"));
    assert_eq!(
        get_dependency_version_req_text(&doc, DepKind::Normal, None, "b"),
        Some("esc\"aped\u{e9}")
    );
    assert_eq!(get_dependency_version_req_text(&doc, DepKind::Normal, None, "c"), Some("multi"));
}

#[test]
fn values_that_are_no_strings_read_as_none() {
    let doc = ManifestDocument::parse(
        "[dependencies]\na = 1\nb = [\"1.0\"]\nc = { version = 2 }\nd = true\n[[dependencies.e]]\nversion = \"1\"\n",
    )
    .unwrap();
    for name in ["a", "b", "c", "d", "e"] {
        assert_eq!(get_dependency_version_req_text(&doc, DepKind::Normal, None, name), None);
    }
    assert!(!accepts_dependency_version_req_text(&doc, DepKind::Normal, None, "a", "1.0.0"));
    assert!(!accepts_dependency_version_req_text(&doc, DepKind::Normal, None, "b", "1.0.0"));
    assert!(accepts_dependency_version_req_text(&doc, DepKind::Normal, None, "c", "1.0.0"));
    assert!(!accepts_dependency_version_req_text(&doc, DepKind::Normal, None, "e", "1.0.0"));
}
