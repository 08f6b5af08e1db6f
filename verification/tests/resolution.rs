use dargo::crates::{latest_version, latest_version_fuzzy, Attempt, FuzzyStep, MAX_SEPARATORS};
use dargo::spelling::{count_separators, respell};
use dargo::version::{check_requirement, Version};

fn version(text: &str) -> Version {
    Version::parse(text).unwrap()
}

fn versions(texts: &[&str]) -> Vec<Version> {
    texts.iter().map(|t| version(t)).collect()
}

/// Runs a whole search against a registry that holds the given names, and
/// says where it ended and which names it asked for.
fn search(name: &str, published: &[(&str, &str)]) -> (FuzzyStep, Vec<String>) {
    let mut asked = vec![name.to_string()];
    let mut attempt = Attempt::Verbatim;
    loop {
        let current = asked.last().unwrap().clone();
        let answer = published
            .iter()
            .find(|(n, _)| *n == current)
            .map(|(_, v)| version(v));
        match latest_version_fuzzy(name, attempt, answer) {
            FuzzyStep::Ask { name: next, attempt: a } => {
                asked.push(next);
                attempt = a;
            }
            end => return (end, asked),
        }
    }
}

#[test]
fn version_parse_reads_parts() {
    let v = version("1.2.3-alpha.1+build.5");
    assert_eq!(v.to_text(), "1.2.3-alpha.1+build.5");
    assert!(v.is_prerelease());
    assert!(!version("1.2.3").is_prerelease());
    assert!(!version("1.2.3+b1").is_prerelease());
}

#[test]
fn version_parse_rejects_ranges() {
    assert!(Version::parse("^1.2.3").is_err());
    assert!(Version::parse("1.2").is_err());
    assert!(Version::parse("").is_err());
    assert!(Version::parse("01.2.3").is_err());
    assert!(Version::parse("1.2.3 ").is_err());
}

#[test]
fn version_text_of_large_numbers() {
    assert_eq!(version("0.0.0").to_text(), "0.0.0");
    assert_eq!(version("10.200.3000").to_text(), "10.200.3000");
    assert_eq!(
        version("18446744073709551615.0.9").to_text(),
        "18446744073709551615.0.9"
    );
}

#[test]
fn version_equality_is_by_parts() {
    assert_eq!(version("1.2.3"), version("1.2.3"));
    assert_ne!(version("1.2.3"), version("1.2.4"));
    assert_ne!(version("1.2.3"), version("1.2.3-rc.1"));
    assert_ne!(version("1.2.3+a"), version("1.2.3+b"));
    assert_eq!(version("1.2.3").clone(), version("1.2.3"));
}

#[test]
fn version_order_follows_semver() {
    let chain = [
        "1.0.0-alpha",
        "1.0.0-alpha.1",
        "1.0.0-alpha.beta",
        "1.0.0-beta",
        "1.0.0-beta.2",
        "1.0.0-beta.11",
        "1.0.0-rc.1",
        "1.0.0",
        "1.0.1",
        "1.1.0",
        "2.0.0",
    ];
    for i in 0..chain.len() {
        for j in 0..chain.len() {
            assert_eq!(
                version(chain[i]).precedes(&version(chain[j])),
                i < j,
                "{} < {}",
                chain[i],
                chain[j]
            );
        }
    }
}

#[test]
fn version_order_is_numeric_not_textual() {
    assert!(version("1.9.0").precedes(&version("1.10.0")));
    assert!(!version("1.10.0").precedes(&version("1.9.0")));
}

#[test]
fn requirement_check_accepts_ranges() {
    assert!(check_requirement(">=0.1,<1.0").is_ok());
    assert!(check_requirement("^1.2.3").is_ok());
    assert!(check_requirement("0.3.0-alpha.16").is_ok());
    assert!(check_requirement("*").is_ok());
    assert!(check_requirement("not a requirement").is_err());
    assert!(check_requirement("").is_err());
}

#[test]
fn latest_version_is_the_greatest() {
    let all = versions(&["0.9.0", "1.2.0", "1.10.0", "1.3.0"]);
    assert_eq!(latest_version(&all, false), Some(&version("1.10.0")));
    assert_eq!(latest_version(&all, true), Some(&version("1.10.0")));
}

#[test]
fn latest_version_leaves_prereleases_out() {
    let all = versions(&["1.0.0", "2.0.0-beta.1", "1.5.0"]);
    assert_eq!(latest_version(&all, false), Some(&version("1.5.0")));
    assert_eq!(latest_version(&all, true), Some(&version("2.0.0-beta.1")));
}

#[test]
fn latest_version_of_nothing_is_none() {
    assert_eq!(latest_version(&Vec::new(), false), None);
    assert_eq!(latest_version(&Vec::new(), true), None);
    let only_pre = versions(&["1.0.0-rc.1", "1.0.0-rc.2"]);
    assert_eq!(latest_version(&only_pre, false), None);
    assert_eq!(latest_version(&only_pre, true), Some(&version("1.0.0-rc.2")));
}

#[test]
fn latest_version_keeps_the_first_of_equals() {
    let all = versions(&["1.0.0", "1.0.0"]);
    let found = latest_version(&all, false).unwrap();
    assert!(std::ptr::eq(found, &all[0]));
}

#[test]
fn separators_are_counted() {
    assert_eq!(count_separators("serde"), 0);
    assert_eq!(count_separators("serde_json"), 1);
    assert_eq!(count_separators("a-b_c-d"), 3);
    assert_eq!(count_separators(""), 0);
}

#[test]
fn respell_follows_the_bits_of_the_mask() {
    assert_eq!(respell("a-b-c", 0), ("a_b_c".to_string(), 0));
    assert_eq!(respell("a-b-c", 1), ("a-b_c".to_string(), 0));
    assert_eq!(respell("a-b-c", 2), ("a_b-c".to_string(), 0));
    assert_eq!(respell("a-b-c", 3), ("a-b-c".to_string(), 0));
    assert_eq!(respell("a-b-c", 4), ("a_b_c".to_string(), 1));
    assert_eq!(respell("abc", 0), ("abc".to_string(), 0));
    assert_eq!(respell("abc", 5), ("abc".to_string(), 5));
}

#[test]
fn respell_keeps_other_characters() {
    assert_eq!(respell("tokio_io-é", 1).0, "tokio-io_é");
}

#[test]
fn fuzzy_finds_the_name_as_given() {
    let (end, asked) = search("serde_json", &[("serde_json", "1.0.0"), ("serde-json", "9.9.9")]);
    assert!(matches!(end, FuzzyStep::Found { ref name, ref version } if name == "serde_json" && version.to_text() == "1.0.0"));
    assert_eq!(asked, vec!["serde_json"]);
}

#[test]
fn fuzzy_finds_another_spelling() {
    let (end, asked) = search("futures_preview", &[("futures-preview", "0.3.0")]);
    assert!(matches!(end, FuzzyStep::Found { ref name, ref version } if name == "futures-preview" && version.to_text() == "0.3.0"));
    assert_eq!(asked, vec!["futures_preview", "futures_preview", "futures-preview"]);
}

#[test]
fn fuzzy_tries_spellings_in_mask_order() {
    let (end, asked) = search("a-b_c", &[]);
    assert!(matches!(end, FuzzyStep::NotFound));
    assert_eq!(asked, vec!["a-b_c", "a_b_c", "a-b_c", "a_b-c", "a-b-c"]);
}

#[test]
fn fuzzy_returns_the_first_match() {
    let (end, _) = search("a-b-c", &[("a_b-c", "2.0.0"), ("a-b_c", "1.0.0")]);
    assert!(matches!(end, FuzzyStep::Found { ref name, .. } if name == "a-b_c"));
}

#[test]
fn fuzzy_without_separators_asks_once() {
    let (end, asked) = search("serde", &[]);
    assert!(matches!(end, FuzzyStep::NotFound));
    assert_eq!(asked, vec!["serde"]);
}

#[test]
fn fuzzy_gives_up_on_too_many_separators() {
    let name = "a-".repeat(MAX_SEPARATORS + 1);
    let (end, asked) = search(&name, &[]);
    assert!(matches!(end, FuzzyStep::TooManyVariants));
    assert_eq!(asked.len(), 1);
}

#[test]
fn fuzzy_still_finds_a_long_name_as_given() {
    let name = "a-".repeat(MAX_SEPARATORS + 1);
    let (end, asked) = search(&name, &[(name.as_str(), "1.0.0")]);
    assert!(matches!(end, FuzzyStep::Found { .. }));
    assert_eq!(asked.len(), 1);
}

#[test]
fn fuzzy_takes_the_most_separators_allowed() {
    let name = "a-".repeat(MAX_SEPARATORS);
    let step = latest_version_fuzzy(&name, Attempt::Verbatim, None);
    assert!(matches!(step, FuzzyStep::Ask { ref name, attempt: Attempt::Variant(0) } if *name == "a_".repeat(MAX_SEPARATORS)));
    let last = (1u128 << MAX_SEPARATORS) - 1;
    let step = latest_version_fuzzy(&name, Attempt::Variant(last - 1), None);
    assert!(matches!(step, FuzzyStep::Ask { ref name, attempt: Attempt::Variant(m) } if m == last && *name == "a-".repeat(MAX_SEPARATORS)));
    assert!(matches!(latest_version_fuzzy(&name, Attempt::Variant(last), None), FuzzyStep::NotFound));
    assert!(matches!(latest_version_fuzzy(&name, Attempt::Variant(u128::MAX), None), FuzzyStep::NotFound));
}

#[test]
fn fuzzy_step_names_what_was_found() {
    let step = latest_version_fuzzy("a-b", Attempt::Variant(0), Some(version("1.2.3")));
    assert!(matches!(step, FuzzyStep::Found { ref name, .. } if name == "a_b"));
    let step = latest_version_fuzzy("a-b", Attempt::Variant(1), Some(version("1.2.3")));
    assert!(matches!(step, FuzzyStep::Found { ref name, .. } if name == "a-b"));
}

#[test]
fn version_new_is_a_release() {
    let v = Version::new(1, 20, 300);
    assert_eq!(v, version("1.20.300"));
    assert_eq!(v.to_text(), "1.20.300");
    assert!(!v.is_prerelease());
}

#[test]
fn version_parts_are_read() {
    let v = version("1.2.3-rc.1+build.7");
    assert_eq!((v.major(), v.minor(), v.patch()), (1, 2, 3));
    assert_eq!(v.pre(), "rc.1");
    assert_eq!(v.build(), "build.7");
    let v = version("4.5.6");
    assert_eq!((v.pre(), v.build()), ("", ""));
}
