use dargo::commands::add::{lookup_of, Add, AddOutcome, Lookup};
use dargo::crates::{latest_version_fuzzy, Attempt};
use dargo::error::ParseError;
use dargo::commands::rm::{Rm, RmOutcome};
use dargo::commands::upgrade::{
    replace_requirement, upgrade_decision, Dependency, Upgrade, UpgradeOutcome,
};
use dargo::commands::{locate_manifest, Command};
use dargo::slot::DepKind;
use dargo::document::ManifestDocument;
use dargo::version::Version;

fn version(text: &str) -> Version {
    Version::parse(text).unwrap()
}

fn strings(list: &[&str]) -> Vec<String> {
    list.iter().map(|s| s.to_string()).collect()
}

fn add(dependencies: &[&str]) -> Add {
    Add {
        dependencies: strings(dependencies),
        manifest: ".".to_string(),
        dev: false,
        build: false,
        pre: false,
        dry: false,
        update: false,
    }
}

fn rm(dependencies: &[&str]) -> Rm {
    Rm {
        dependencies: strings(dependencies),
        manifest: ".".to_string(),
        build: false,
        dev: false,
        dry: false,
    }
}

fn upgrade() -> Upgrade {
    Upgrade {
        manifest: ".".to_string(),
        only: Vec::new(),
        exclude: Vec::new(),
        pre: false,
        dry: false,
        update: false,
        force: false,
    }
}

fn found(name: &str, latest: &str) -> Lookup {
    Lookup::Found { name: name.to_string(), version: version(latest) }
}

fn dependency(name: &str) -> Dependency {
    Dependency {
        name_in_toml: name.to_string(),
        package_name: name.to_string(),
        kind: DepKind::Normal,
        platform: None,
        source: "registry+https://github.com/rust-lang/crates.io-index".to_string(),
        registry: true,
    }
}

#[test]
fn manifest_argument_names_a_file_or_a_directory() {
    assert_eq!(locate_manifest("Cargo.toml", false), "Cargo.toml");
    assert_eq!(locate_manifest(".", true), "./Cargo.toml");
    assert_eq!(locate_manifest("a/b", true), "a/b/Cargo.toml");
    assert_eq!(locate_manifest("a/b/", true), "a/b/Cargo.toml");
    assert_eq!(locate_manifest("", true), "Cargo.toml");
    assert_eq!(add(&[]).manifest_path(true), "./Cargo.toml");
    assert_eq!(rm(&[]).manifest_path(false), ".");
    assert_eq!(upgrade().manifest_path(true), "./Cargo.toml");
}

#[test]
fn command_holds_its_arguments() {
    let command = Command::Rm(rm(&["foo"]));
    assert!(matches!(command, Command::Rm(ref args) if args.dependencies == vec!["foo"]));
    assert!(matches!(Command::Add(add(&[])), Command::Add(_)));
    assert!(matches!(Command::Upgrade(upgrade()), Command::Upgrade(_)));
}

#[test]
fn add_kind_prefers_dev() {
    let mut args = add(&[]);
    assert_eq!(args.kind(), DepKind::Normal);
    args.build = true;
    assert_eq!(args.kind(), DepKind::Build);
    args.dev = true;
    assert_eq!(args.kind(), DepKind::Development);
}

#[test]
fn rm_kind_prefers_build() {
    let mut args = rm(&[]);
    assert_eq!(args.dependencies_kind(), DepKind::Normal);
    args.dev = true;
    assert_eq!(args.dependencies_kind(), DepKind::Development);
    args.build = true;
    assert_eq!(args.dependencies_kind(), DepKind::Build);
}

#[test]
fn add_request_splits_at_the_first_at_sign() {
    let request = Add::request("futures-preview@0.3.0-alpha.16").unwrap();
    assert_eq!(request.name, "futures-preview");
    assert_eq!(request.requirement.as_deref(), Some("0.3.0-alpha.16"));
    let request = Add::request("libc@>=0.1,<1.0").unwrap();
    assert_eq!(request.name, "libc");
    assert_eq!(request.requirement.as_deref(), Some(">=0.1,<1.0"));
    let request = Add::request("serde").unwrap();
    assert_eq!(request.name, "serde");
    assert_eq!(request.requirement, None);
}

#[test]
fn add_request_rejects_what_is_no_requirement() {
    assert!(Add::request("libc@nonsense").is_err());
    assert!(Add::request("libc@").is_err());
    assert!(Add::request("libc@1@2").is_err());
    assert!(Add::request("@1").is_ok());
}

#[test]
fn add_writes_the_latest_version_exactly() {
    let report = add(&["bar"])
        .run("[dependencies]\nfoo = \"1.0.0\"\n", &vec![found("bar", "0.9.0")])
        .unwrap();
    assert_eq!(
        report.text.as_deref(),
        Some("[dependencies]\nfoo = \"1.0.0\"\nbar = \"0.9.0\"\n")
    );
    assert!(matches!(
        &report.outcomes[..],
        [AddOutcome::Added { name, version, requested, renamed: false }]
            if name == "bar" && version == "0.9.0" && requested == "bar"
    ));
}

#[test]
fn add_writes_the_given_requirement_as_given() {
    let report = add(&["libc@>=0.1,<1.0"])
        .run("[dependencies]\n", &vec![found("libc", "0.2.150")])
        .unwrap();
    assert_eq!(report.text.as_deref(), Some("[dependencies]\nlibc = \">=0.1,<1.0\"\n"));
}

#[test]
fn add_creates_the_section_of_its_kind() {
    let mut args = add(&["bar"]);
    args.dev = true;
    let report = args.run("", &vec![found("bar", "0.9.0")]).unwrap();
    assert_eq!(report.text.as_deref(), Some("\n[dev-dependencies]\nbar = \"0.9.0\"\n"));
}

#[test]
fn add_twice_finds_the_entry_in_place() {
    let args = add(&["bar"]);
    let first = args.run("[dependencies]\n", &vec![found("bar", "0.9.0")]).unwrap();
    let text = first.text.unwrap();
    let second = args.run(&text, &vec![found("bar", "0.9.0")]).unwrap();
    assert!(matches!(&second.outcomes[..], [AddOutcome::AlreadyExists { name }] if name == "bar"));
    assert_eq!(second.text.as_deref(), Some(text.as_str()));
}

#[test]
fn add_same_name_twice_in_one_run_adds_once() {
    let report = add(&["bar", "bar"])
        .run("[dependencies]\n", &vec![found("bar", "0.9.0"), found("bar", "0.9.0")])
        .unwrap();
    assert!(matches!(
        &report.outcomes[..],
        [AddOutcome::Added { .. }, AddOutcome::AlreadyExists { .. }]
    ));
    assert_eq!(report.text.as_deref(), Some("[dependencies]\nbar = \"0.9.0\"\n"));
}

#[test]
fn add_leaves_an_existing_table_entry_alone() {
    let text = "[dependencies]\nbar = { version = \"0.1\", features = [\"x\"] }\n";
    let report = add(&["bar"]).run(text, &vec![found("bar", "0.9.0")]).unwrap();
    assert!(matches!(&report.outcomes[..], [AddOutcome::AlreadyExists { .. }]));
    assert_eq!(report.text.as_deref(), Some(text));
}

#[test]
fn add_reports_a_name_that_the_registry_spells_otherwise() {
    let report = add(&["serde_json", "nothing"])
        .run("[dependencies]\n", &vec![found("serde-json", "1.0.0"), Lookup::NotFound])
        .unwrap();
    assert!(matches!(
        &report.outcomes[..],
        [AddOutcome::Added { name, requested, renamed: true, .. }, AddOutcome::NoVersions { name: missing }]
            if name == "serde-json" && requested == "serde_json" && missing == "nothing"
    ));
    assert_eq!(report.text.as_deref(), Some("[dependencies]\nserde-json = \"1.0.0\"\n"));
}

#[test]
fn add_goes_on_after_a_name_with_too_many_separators() {
    let report = add(&["a-b", "bar"])
        .run("[dependencies]\n", &vec![Lookup::TooManyVariants, found("bar", "0.9.0")])
        .unwrap();
    assert!(matches!(
        &report.outcomes[..],
        [AddOutcome::TooManyVariants { name }, AddOutcome::Added { .. }] if name == "a-b"
    ));
    assert_eq!(report.text.as_deref(), Some("[dependencies]\nbar = \"0.9.0\"\n"));
}

#[test]
fn lookup_is_the_end_of_a_search() {
    assert!(lookup_of(latest_version_fuzzy("a-b", Attempt::Verbatim, None)).is_none());
    assert!(matches!(
        lookup_of(latest_version_fuzzy("ab", Attempt::Verbatim, None)),
        Some(Lookup::NotFound)
    ));
    assert!(matches!(
        lookup_of(latest_version_fuzzy("a-b", Attempt::Variant(1), Some(version("1.0.0")))),
        Some(Lookup::Found { ref name, ref version }) if name == "a-b" && version.to_text() == "1.0.0"
    ));
    assert!(matches!(
        lookup_of(latest_version_fuzzy(&"-".repeat(128), Attempt::Verbatim, None)),
        Some(Lookup::TooManyVariants)
    ));
}

#[test]
fn errors_carry_the_parsers_message() {
    let error = ManifestDocument::parse("[dependencies").err().unwrap();
    assert!(matches!(error, ParseError::Manifest(_)));
    assert!(!error.message().is_empty());
    let error = Version::parse("1.x").err().unwrap();
    assert!(matches!(error, ParseError::Version(_)));
    assert!(error.message().contains("x"));
    let error = Add::request("a@b").err().unwrap();
    assert!(matches!(error, ParseError::Requirement(_)));
    assert!(!error.message().is_empty());
}

#[test]
fn error_message_is_the_parsers_own() {
    let text = "[dependencies\nfoo = 1";
    let own = text.parse::<toml_edit::Document>().unwrap_err().to_string();
    assert_eq!(ManifestDocument::parse(text).err().unwrap().message(), own);
    let own = semver::Version::parse("1.2").unwrap_err().to_string();
    assert_eq!(Version::parse("1.2").err().unwrap().message(), own);
    let own = semver::VersionReq::parse(">>1").unwrap_err().to_string();
    assert_eq!(dargo::version::check_requirement(">>1").err().unwrap().message(), own);
    let held = ParseError::Version("these words".to_string());
    assert_eq!(held.message(), "these words");
}

#[test]
fn add_on_a_dry_run_writes_nothing() {
    let mut args = add(&["bar"]);
    args.dry = true;
    let report = args.run("[dependencies]\n", &vec![found("bar", "0.9.0")]).unwrap();
    assert_eq!(report.text, None);
    assert_eq!(report.document.to_text(), "[dependencies]\nbar = \"0.9.0\"\n");
}

#[test]
fn add_fails_on_a_malformed_manifest() {
    let result = add(&["bar"]).run("[dependencies", &vec![found("bar", "0.9.0")]);
    assert!(matches!(result, Err(ParseError::Manifest(_))));
}

#[test]
fn add_fails_on_a_malformed_requirement() {
    let result = add(&["foo", "bar@what"])
        .run("[dependencies]\n", &vec![found("foo", "1.0.0"), found("bar", "0.9.0")]);
    assert!(matches!(result, Err(ParseError::Requirement(_))));
}

#[test]
fn add_cannot_write_where_the_section_is_no_table() {
    let report = add(&["bar"]).run("dependencies = 1\n", &vec![found("bar", "0.9.0")]).unwrap();
    assert!(matches!(&report.outcomes[..], [AddOutcome::Unwritable { name }] if name == "bar"));
    assert_eq!(report.text.as_deref(), Some("dependencies = 1\n"));
}

#[test]
fn rm_of_an_absent_name_changes_nothing() {
    let text = "[dependencies]\nfoo = \"1.0.0\" # pinned\n";
    let report = rm(&["bar"]).run(text).unwrap();
    assert!(matches!(&report.outcomes[..], [RmOutcome::NotFound { name }] if name == "bar"));
    assert_eq!(report.text.as_deref(), Some(text));
}

#[test]
fn rm_goes_on_after_an_absent_name() {
    let text = "[dependencies]\nfoo = \"1.0.0\"\nbaz = \"2.0.0\"\n";
    let report = rm(&["bar", "foo"]).run(text).unwrap();
    assert!(matches!(
        &report.outcomes[..],
        [RmOutcome::NotFound { .. }, RmOutcome::Removed { name }] if name == "foo"
    ));
    assert_eq!(report.text.as_deref(), Some("[dependencies]\nbaz = \"2.0.0\"\n"));
}

#[test]
fn rm_looks_only_at_the_section_of_its_kind() {
    let text = "[dependencies]\nfoo = \"1.0.0\"\n[dev-dependencies]\nfoo = \"2.0.0\"\n";
    let mut args = rm(&["foo"]);
    args.dev = true;
    let report = args.run(text).unwrap();
    assert_eq!(
        report.text.as_deref(),
        Some("[dependencies]\nfoo = \"1.0.0\"\n[dev-dependencies]\n")
    );
}

#[test]
fn rm_on_a_dry_run_writes_nothing() {
    let mut args = rm(&["foo"]);
    args.dry = true;
    let report = args.run("[dependencies]\nfoo = \"1.0.0\"\n").unwrap();
    assert_eq!(report.text, None);
    assert!(matches!(&report.outcomes[..], [RmOutcome::Removed { .. }]));
}

#[test]
fn rm_fails_on_a_malformed_manifest() {
    assert!(rm(&["foo"]).run("= 1").is_err());
}

#[test]
fn rm_apply_keeps_the_document_when_nothing_is_found() {
    let text = "[dependencies]\nfoo = \"1.0.0\"\n";
    let mut document = ManifestDocument::parse(text).unwrap();
    let outcomes = rm(&["a", "b"]).apply(&mut document);
    assert_eq!(outcomes.len(), 2);
    assert_eq!(document.to_text(), text);
}

#[test]
fn upgrade_decision_follows_the_policy() {
    assert_eq!(upgrade_decision("1.2.3", &version("2.0.0"), false).as_deref(), Some("2.0.0"));
    assert_eq!(upgrade_decision("^1.2.3", &version("2.0.0"), false), None);
    assert_eq!(upgrade_decision("^1.2.3", &version("2.0.0"), true).as_deref(), Some("2.0.0"));
    assert_eq!(upgrade_decision("1.2.3", &version("1.2.3"), false), None);
    assert_eq!(upgrade_decision("1.2.3", &version("1.2.3"), true), None);
}

#[test]
fn replacement_follows_the_policy() {
    let latest = Version::new(2, 0, 0);
    let older = Version::new(1, 2, 3);
    assert_eq!(replace_requirement(Some(&older), &latest, false).as_deref(), Some("2.0.0"));
    assert_eq!(replace_requirement(Some(&older), &latest, true).as_deref(), Some("2.0.0"));
    assert_eq!(replace_requirement(Some(&latest), &latest, false), None);
    assert_eq!(replace_requirement(Some(&latest), &latest, true), None);
    assert_eq!(replace_requirement(None, &latest, false), None);
    assert_eq!(replace_requirement(None, &latest, true).as_deref(), Some("2.0.0"));
}

#[test]
fn upgrade_decision_on_other_requirements() {
    assert_eq!(upgrade_decision("0.1", &version("0.1.5"), false), None);
    assert_eq!(upgrade_decision("~0.1.0", &version("0.1.5"), false), None);
    assert_eq!(upgrade_decision("1.*", &version("1.5.0"), true).as_deref(), Some("1.5.0"));
    assert_eq!(upgrade_decision("2.0.0", &version("1.0.0"), false).as_deref(), Some("1.0.0"));
    assert_eq!(
        upgrade_decision("1.0.0", &version("1.0.0-rc.1"), false).as_deref(),
        Some("1.0.0-rc.1")
    );
}

#[test]
fn upgrade_rewrites_an_exact_requirement() {
    let text = "# deps\n[dependencies]\n# pinned\nfoo = \"1.0.0\"\nbar = \"^2\" # floats\n";
    let report = upgrade()
        .run(
            text,
            &vec![dependency("foo"), dependency("bar")],
            &vec![Some(version("1.1.0")), Some(version("3.0.0"))],
        )
        .unwrap();
    assert_eq!(report.text.as_deref(), Some(text.replace("1.0.0", "1.1.0").as_str()));
    assert!(matches!(
        &report.outcomes[..],
        [UpgradeOutcome::Upgraded(task), UpgradeOutcome::Unchanged]
            if task.dependency.name_in_toml == "foo"
                && task.pre_version == "1.0.0"
                && task.new_version == "1.1.0"
    ));
}

#[test]
fn upgrade_of_an_inline_section() {
    let report = upgrade()
        .run(
            "dependencies = { foo = \"1.0.0\" }\n",
            &vec![dependency("foo")],
            &vec![Some(version("1.1.0"))],
        )
        .unwrap();
    assert_eq!(report.text.as_deref(), Some("dependencies = { foo = \"1.1.0\" }\n"));
    assert!(matches!(
        &report.outcomes[..],
        [UpgradeOutcome::Upgraded(task)]
            if task.dependency.name_in_toml == "foo"
                && task.pre_version == "1.0.0"
                && task.new_version == "1.1.0"
    ));
}

#[test]
fn upgrade_keeps_the_comment_behind_a_requirement() {
    let text = "[dependencies]\nfoo = \"1.0.0\"   # pinned\nbar = \"1.0.0\"\n";
    let report = upgrade()
        .run(text, &vec![dependency("foo")], &vec![Some(version("1.1.0"))])
        .unwrap();
    assert_eq!(
        report.text.as_deref(),
        Some("[dependencies]\nfoo = \"1.1.0\"   # pinned\nbar = \"1.0.0\"\n")
    );
}

#[test]
fn upgrade_with_force_replaces_ranges() {
    let mut args = upgrade();
    args.force = true;
    let report = args
        .run(
            "[dependencies]\nbar = \"^2\"\n",
            &vec![dependency("bar")],
            &vec![Some(version("3.0.0"))],
        )
        .unwrap();
    assert_eq!(report.text.as_deref(), Some("[dependencies]\nbar = \"3.0.0\"\n"));
}

#[test]
fn upgrade_keeps_the_other_keys_of_a_table() {
    let text = "[dependencies]\nbar = { version = \"0.4.0\", features = [\"std\"] }\n";
    let report = upgrade()
        .run(text, &vec![dependency("bar")], &vec![Some(version("0.5.0"))])
        .unwrap();
    assert_eq!(report.text.as_deref(), Some(text.replace("0.4.0", "0.5.0").as_str()));
}

#[test]
fn upgrade_skips_what_does_not_come_from_a_registry() {
    let text = "[dependencies]\nfoo = { path = \"../foo\", version = \"1.0.0\" }\n";
    let mut local = dependency("foo");
    local.registry = false;
    let report = upgrade().run(text, &vec![local], &vec![Some(version("2.0.0"))]).unwrap();
    assert!(matches!(&report.outcomes[..], [UpgradeOutcome::Skipped]));
    assert_eq!(report.text.as_deref(), Some(text));
}

#[test]
fn upgrade_respects_only_and_exclude() {
    let text = "[dependencies]\na = \"1.0.0\"\nb = \"1.0.0\"\nc = \"1.0.0\"\n";
    let dependencies = vec![dependency("a"), dependency("b"), dependency("c")];
    let latest = vec![Some(version("2.0.0")), Some(version("2.0.0")), Some(version("2.0.0"))];
    let mut args = upgrade();
    args.only = strings(&["b"]);
    let report = args.run(text, &dependencies, &latest).unwrap();
    assert_eq!(
        report.text.as_deref(),
        Some("[dependencies]\na = \"1.0.0\"\nb = \"2.0.0\"\nc = \"1.0.0\"\n")
    );
    let mut args = upgrade();
    args.exclude = strings(&["b"]);
    let report = args.run(text, &dependencies, &latest).unwrap();
    assert_eq!(
        report.text.as_deref(),
        Some("[dependencies]\na = \"2.0.0\"\nb = \"1.0.0\"\nc = \"2.0.0\"\n")
    );
    assert!(args.selects("a"));
    assert!(!args.selects("b"));
}

#[test]
fn upgrade_reports_what_the_registry_does_not_hold() {
    let text = "[dependencies]\nfoo = \"1.0.0\"\n";
    let report = upgrade().run(text, &vec![dependency("foo")], &vec![None]).unwrap();
    assert!(matches!(&report.outcomes[..], [UpgradeOutcome::Unavailable]));
    assert_eq!(report.text.as_deref(), Some(text));
}

#[test]
fn upgrade_reports_a_dependency_without_requirement() {
    let text = "[dependencies]\n";
    let report = upgrade()
        .run(text, &vec![dependency("foo")], &vec![Some(version("1.0.0"))])
        .unwrap();
    assert!(matches!(&report.outcomes[..], [UpgradeOutcome::Missing]));
}

#[test]
fn upgrade_under_a_platform() {
    let text = "[target.'cfg(unix)'.build-dependencies]\ncc = \"1.0.0\"\n";
    let mut cc = dependency("cc");
    cc.kind = DepKind::Build;
    cc.platform = Some("cfg(unix)".to_string());
    let report = upgrade().run(text, &vec![cc], &vec![Some(version("1.0.5"))]).unwrap();
    assert_eq!(report.text.as_deref(), Some(text.replace("1.0.0", "1.0.5").as_str()));
}

#[test]
fn upgrade_on_a_dry_run_writes_nothing() {
    let mut args = upgrade();
    args.dry = true;
    let report = args
        .run(
            "[dependencies]\nfoo = \"1.0.0\"\n",
            &vec![dependency("foo")],
            &vec![Some(version("1.1.0"))],
        )
        .unwrap();
    assert_eq!(report.text, None);
    assert!(matches!(&report.outcomes[..], [UpgradeOutcome::Upgraded(_)]));
}

#[test]
fn upgrade_fails_on_a_malformed_manifest() {
    assert!(upgrade().run("[[", &Vec::new(), &Vec::new()).is_err());
}

#[test]
fn upgrade_refreshes_each_source_once() {
    let mut args = upgrade();
    let mut seen = Vec::new();
    assert!(!args.refreshes(&mut seen, "a"));
    assert!(seen.is_empty());
    args.update = true;
    assert!(args.refreshes(&mut seen, "a"));
    assert!(!args.refreshes(&mut seen, "a"));
    assert!(args.refreshes(&mut seen, "b"));
    assert!(!args.refreshes(&mut seen, "b"));
    assert_eq!(seen, vec!["a", "b"]);
}

#[test]
fn upgrade_asks_the_registry_only_for_what_it_looks_at() {
    let mut args = upgrade();
    args.exclude = strings(&["foo"]);
    assert!(!args.asks_registry(&dependency("foo")));
    assert!(args.asks_registry(&dependency("bar")));
    let mut local = dependency("bar");
    local.registry = false;
    assert!(!args.asks_registry(&local));
}

#[test]
fn upgrade_task_is_made_for_an_outdated_pin() {
    let document = ManifestDocument::parse("[dependencies]\nfoo = \"1.0.0\"\n").unwrap();
    let args = upgrade();
    let latest = version("1.1.0");
    let task = args.gen_upgrade_task(&document, &dependency("foo"), Some(&latest)).unwrap();
    assert_eq!(task.pre_version, "1.0.0");
    assert_eq!(task.new_version, "1.1.0");
    assert!(args.gen_upgrade_task(&document, &dependency("foo"), None).is_none());
    let same = version("1.0.0");
    assert!(args.gen_upgrade_task(&document, &dependency("foo"), Some(&same)).is_none());
}

#[test]
fn rm_refuses_a_name_that_is_no_plain_key() {
    let text = "[dependencies]\n\"it's\" = \"1.0.0\"\n";
    let report = rm(&["it's", "isn't"]).run(text).unwrap();
    assert!(matches!(
        &report.outcomes[..],
        [RmOutcome::Refused { name }, RmOutcome::NotFound { name: missing }]
            if name == "it's" && missing == "isn't"
    ));
    assert_eq!(report.text.as_deref(), Some(text));
}

#[test]
fn upgrade_cannot_write_under_a_name_that_is_no_plain_key() {
    let text = "[dependencies]\n\"it's\" = \"1.0.0\"\nfoo = \"1.0.0\"\n";
    let report = upgrade()
        .run(
            text,
            &vec![dependency("it's"), dependency("foo")],
            &vec![Some(version("2.0.0")), Some(version("2.0.0"))],
        )
        .unwrap();
    assert!(matches!(
        &report.outcomes[..],
        [UpgradeOutcome::Unwritable(task), UpgradeOutcome::Upgraded(_)]
            if task.new_version == "2.0.0" && task.pre_version == "1.0.0"
    ));
    assert_eq!(
        report.text.as_deref(),
        Some("[dependencies]\n\"it's\" = \"1.0.0\"\nfoo = \"2.0.0\"\n")
    );
}

#[test]
fn upgrade_of_an_entry_in_a_table_of_its_own() {
    let text = "[dependencies.foo]\nversion = \"1.0.0\"\nfeatures = [\"a\"]\n\n[dependencies.bar]\nversion = \"1.0.0\"\n";
    let report = upgrade()
        .run(text, &vec![dependency("foo")], &vec![Some(version("1.2.0"))])
        .unwrap();
    assert_eq!(
        report.text.as_deref(),
        Some("[dependencies.foo]\nversion = \"1.2.0\"\nfeatures = [\"a\"]\n\n[dependencies.bar]\nversion = \"1.0.0\"\n")
    );
}

#[test]
fn upgrade_plans_on_the_manifest_as_it_was_read() {
    let text = "[dependencies]\nfoo = \"1.0.0\"\n";
    let report = upgrade()
        .run(
            text,
            &vec![dependency("foo"), dependency("foo")],
            &vec![Some(version("1.1.0")), Some(version("1.2.0"))],
        )
        .unwrap();
    assert!(matches!(
        &report.outcomes[..],
        [UpgradeOutcome::Upgraded(first), UpgradeOutcome::Upgraded(second)]
            if first.pre_version == "1.0.0" && second.pre_version == "1.0.0"
    ));
    assert_eq!(report.text.as_deref(), Some("[dependencies]\nfoo = \"1.2.0\"\n"));
}

#[test]
fn upgrade_to_a_prerelease_writes_its_tag() {
    let report = upgrade()
        .run(
            "[dependencies]\nfoo = \"1.0.0\"\n",
            &vec![dependency("foo")],
            &vec![Some(version("2.0.0-beta.1+exp.sha.5114f85"))],
        )
        .unwrap();
    assert_eq!(
        report.text.as_deref(),
        Some("[dependencies]\nfoo = \"2.0.0-beta.1+exp.sha.5114f85\"\n")
    );
}

#[test]
fn add_without_an_answer_counts_as_not_found() {
    let report = add(&["foo", "bar"])
        .run("[dependencies]\n", &vec![found("foo", "1.0.0")])
        .unwrap();
    assert!(matches!(
        &report.outcomes[..],
        [AddOutcome::Added { .. }, AddOutcome::NoVersions { name }] if name == "bar"
    ));
}

#[test]
fn upgrade_without_an_answer_counts_as_unavailable() {
    let report = upgrade()
        .run(
            "[dependencies]\nfoo = \"1.0.0\"\nbar = \"1.0.0\"\n",
            &vec![dependency("foo"), dependency("bar")],
            &vec![Some(version("1.1.0"))],
        )
        .unwrap();
    assert!(matches!(
        &report.outcomes[..],
        [UpgradeOutcome::Upgraded(_), UpgradeOutcome::Unavailable]
    ));
}
