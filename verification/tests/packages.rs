use mdot::diagnostic::{Diagnostic, IssueKind, Severity};
use mdot::normalize::normalize;
use mdot::package::{Enabled, LinkObject, Package};
use mdot::value::{ConfigValue, Table};

fn text(s: &str) -> ConfigValue {
    ConfigValue::String(s.to_string())
}

fn list(items: &[&str]) -> ConfigValue {
    let mut table = Table::new();
    let mut index = 1;
    for item in items {
        table.set(ConfigValue::Integer(index), text(item));
        index += 1;
    }
    ConfigValue::Table(table)
}

fn entry(key: &ConfigValue, value: &ConfigValue) -> (Result<Package, Diagnostic>, Vec<Diagnostic>) {
    let mut sink = Vec::new();
    let parsed = Package::from_pair((key, value), &mut sink);
    (parsed, sink)
}

#[test]
fn test_package_string() {
    let s = text("foo");
    let e = Package::new("foo".to_string());
    let mut sink = Vec::new();
    assert_eq!(
        Package::from_pair((&ConfigValue::Integer(1), &s), &mut sink).ok(),
        Some(e)
    );
}

#[test]
fn test_package_table() {
    let name_foo = text("foo");
    let name_bar = text("bar");
    let name_name = text("name");
    let expected = Some(Package::new("foo".to_string()));
    let mut sink = Vec::new();

    let mut tbl = Table::new();
    tbl.set(ConfigValue::Integer(1), name_foo.clone());

    assert_eq!(
        Package::from_pair(
            (&ConfigValue::Integer(1), &ConfigValue::Table(tbl.clone())),
            &mut sink
        )
        .ok(),
        expected
    );

    tbl.set(ConfigValue::Integer(1), name_bar.clone());
    assert_eq!(
        Package::from_pair((&name_foo, &ConfigValue::Table(tbl.clone())), &mut sink).ok(),
        expected
    );

    tbl.set(ConfigValue::Integer(1), name_bar.clone());
    tbl.set(name_name.clone(), name_bar.clone());
    assert_eq!(
        Package::from_pair((&name_foo, &ConfigValue::Table(tbl.clone())), &mut sink).ok(),
        expected
    );
    tbl.set(name_name.clone(), ConfigValue::Nil);
    assert_eq!(
        Package::from_pair((&name_foo, &ConfigValue::Table(tbl.clone())), &mut sink).ok(),
        expected
    );
    tbl.set(ConfigValue::Integer(1), ConfigValue::Nil);
    assert_eq!(
        Package::from_pair((&name_foo, &ConfigValue::Table(tbl.clone())), &mut sink).ok(),
        expected
    );
}

#[test]
fn new_package_has_the_defaults() {
    let package = Package::new("fish".to_string());
    assert_eq!(package.name, "fish");
    assert_eq!(package.package_name, None);
    assert_eq!(package.enabled, Enabled::Enable(true));
    assert!(package.depends.is_empty());
    assert!(package.links.is_empty());
    assert!(package.excludes.is_empty());
    assert!(package.templates.is_empty());
}

#[test]
fn enabled_defaults_to_true() {
    assert_eq!(Enabled::default(), Enabled::Enable(true));
}

#[test]
fn bare_string_entry_is_a_default_package() {
    let (parsed, warnings) = entry(&ConfigValue::Integer(1), &text("fish"));
    assert_eq!(parsed, Ok(Package::new("fish".to_string())));
    assert!(warnings.is_empty());
    let (parsed, warnings) = entry(&ConfigValue::Integer(-7), &text("ly"));
    assert_eq!(parsed, Ok(Package::new("ly".to_string())));
    assert!(warnings.is_empty());
}

#[test]
fn bare_empty_string_has_no_name() {
    let (parsed, warnings) = entry(&ConfigValue::Integer(1), &text(""));
    assert_eq!(parsed, Err(Diagnostic::MissingName));
    assert!(warnings.is_empty());
}

#[test]
fn alacritty_example() {
    let mut object = Table::new();
    object.set(text("source"), text("src"));
    object.set(text("targets"), list(&["tar", "hello"]));
    let mut links = Table::new();
    links.set(ConfigValue::Integer(1), ConfigValue::Table(object));
    links.set(text("key-src"), text("value-tar"));
    let mut table = Table::new();
    table.set(text("links"), ConfigValue::Table(links));
    table.set(text("excludes"), text("as_string"));
    table.set(text("templates"), text("as_templates"));

    let (parsed, warnings) = entry(&text("alacritty"), &ConfigValue::Table(table));
    let mut expected = Package::new("alacritty".to_string());
    expected.links = vec![
        LinkObject {
            source: "src".to_string(),
            targets: vec!["tar".to_string(), "hello".to_string()],
            overwrite: false,
            backup: false,
        },
        LinkObject {
            source: "key-src".to_string(),
            targets: vec!["value-tar".to_string()],
            overwrite: false,
            backup: false,
        },
    ];
    expected.excludes = vec!["as_string".to_string()];
    expected.templates = vec!["as_templates".to_string()];
    assert_eq!(parsed, Ok(expected));
    assert!(warnings.is_empty());
}

#[test]
fn table_names_itself_by_slot_or_field() {
    let mut by_slot = Table::new();
    by_slot.set(ConfigValue::Integer(1), text("tmux"));
    let (parsed, warnings) = entry(&ConfigValue::Integer(3), &ConfigValue::Table(by_slot));
    assert_eq!(parsed, Ok(Package::new("tmux".to_string())));
    assert!(warnings.is_empty());

    let mut by_field = Table::new();
    by_field.set(text("name"), text("alacritty"));
    let (parsed, warnings) = entry(&ConfigValue::Integer(4), &ConfigValue::Table(by_field));
    assert_eq!(parsed, Ok(Package::new("alacritty".to_string())));
    assert!(warnings.is_empty());
}

#[test]
fn both_names_without_outer_key_is_fatal() {
    let mut table = Table::new();
    table.set(ConfigValue::Integer(1), text("a"));
    table.set(text("name"), text("b"));
    table.set(text("links"), ConfigValue::Integer(3));
    let (parsed, warnings) = entry(&ConfigValue::Integer(1), &ConfigValue::Table(table));
    assert_eq!(parsed, Err(Diagnostic::ConflictingNames));
    assert!(warnings.is_empty());
    let issue = parsed.unwrap_err();
    assert_eq!(issue.severity(), Severity::Fatal);
    assert_eq!(issue.kind(), IssueKind::ShapeError);
    assert_eq!(issue.message(), "provide 'name' OR positional but not both");
}

#[test]
fn no_name_without_outer_key_is_fatal() {
    let mut table = Table::new();
    table.set(text("excludes"), text("x"));
    let (parsed, warnings) = entry(&ConfigValue::Integer(1), &ConfigValue::Table(table));
    assert_eq!(parsed, Err(Diagnostic::MissingName));
    assert!(warnings.is_empty());

    let mut not_a_string = Table::new();
    not_a_string.set(ConfigValue::Integer(1), ConfigValue::Integer(42));
    not_a_string.set(text("name"), ConfigValue::Bool(true));
    let (parsed, _) = entry(&ConfigValue::Integer(1), &ConfigValue::Table(not_a_string));
    assert_eq!(parsed, Err(Diagnostic::MissingName));

    let mut empty_name = Table::new();
    empty_name.set(text("name"), text(""));
    let (parsed, _) = entry(&ConfigValue::Integer(1), &ConfigValue::Table(empty_name));
    assert_eq!(parsed, Err(Diagnostic::MissingName));
}

#[test]
fn outer_key_wins_with_one_warning() {
    let mut by_slot = Table::new();
    by_slot.set(ConfigValue::Integer(1), text("inner"));
    let (parsed, warnings) = entry(&text("outer"), &ConfigValue::Table(by_slot));
    assert_eq!(parsed, Ok(Package::new("outer".to_string())));
    assert_eq!(
        warnings,
        vec![Diagnostic::NameOverridden {
            outer: "outer".to_string()
        }]
    );
    assert_eq!(warnings[0].severity(), Severity::Warning);
    assert_eq!(warnings[0].kind(), IssueKind::AmbiguityWarning);
    assert_eq!(warnings[0].message(), "key overrides package name");

    let mut by_both = Table::new();
    by_both.set(ConfigValue::Integer(1), text("one"));
    by_both.set(text("name"), text("two"));
    let (parsed, warnings) = entry(&text("outer"), &ConfigValue::Table(by_both));
    assert_eq!(parsed, Ok(Package::new("outer".to_string())));
    assert_eq!(warnings.len(), 1);

    let plain = Table::new();
    let (parsed, warnings) = entry(&text("outer"), &ConfigValue::Table(plain));
    assert_eq!(parsed, Ok(Package::new("outer".to_string())));
    assert!(warnings.is_empty());
}

#[test]
fn empty_outer_key_has_no_name() {
    let mut table = Table::new();
    table.set(ConfigValue::Integer(1), text("inner"));
    let (parsed, warnings) = entry(&text(""), &ConfigValue::Table(table));
    assert_eq!(parsed, Err(Diagnostic::MissingName));
    assert!(warnings.is_empty());
}

#[test]
fn unsupported_entries_are_fatal() {
    let cases = vec![
        (ConfigValue::Integer(1), ConfigValue::Integer(2)),
        (ConfigValue::Integer(1), ConfigValue::Bool(true)),
        (ConfigValue::Integer(1), ConfigValue::Nil),
        (text("git"), text("fish")),
        (text("git"), ConfigValue::Nil),
        (ConfigValue::Bool(true), ConfigValue::Table(Table::new())),
        (ConfigValue::Nil, text("fish")),
        (ConfigValue::Table(Table::new()), text("fish")),
    ];
    for (key, value) in cases {
        let (parsed, warnings) = entry(&key, &value);
        assert_eq!(
            parsed,
            Err(Diagnostic::UnsupportedEntry {
                key: key.clone(),
                value: value.clone()
            })
        );
        assert!(warnings.is_empty());
        let issue = parsed.unwrap_err();
        assert_eq!(issue.severity(), Severity::Fatal);
        assert_eq!(issue.kind(), IssueKind::ShapeError);
        assert_eq!(issue.message(), "unsupported entry format");
    }
}

#[test]
fn unknown_fields_are_ignored_with_a_warning() {
    let mut table = Table::new();
    table.set(text("depends"), list(&["fish", "neovim", "uwsm"]));
    let mut pkg = Table::new();
    pkg.set(text("arch"), text("hyprland"));
    table.set(text("pkg"), ConfigValue::Table(pkg));
    table.set(text("exclude"), text("*"));
    let (parsed, warnings) = entry(&text("hypr"), &ConfigValue::Table(table));
    assert_eq!(parsed, Ok(Package::new("hypr".to_string())));
    assert_eq!(
        warnings,
        vec![
            Diagnostic::IgnoredKey {
                field: "depends".to_string()
            },
            Diagnostic::IgnoredKey {
                field: "pkg".to_string()
            },
            Diagnostic::IgnoredKey {
                field: "exclude".to_string()
            },
        ]
    );
    assert_eq!(warnings[0].severity(), Severity::Warning);
    assert_eq!(warnings[0].kind(), IssueKind::UnknownKeyWarning);
    assert_eq!(warnings[0].message(), "key is ignored");
}

#[test]
fn entries_without_a_string_key_are_passed_over() {
    let mut table = Table::new();
    table.set(ConfigValue::Integer(1), text("tmux"));
    table.set(ConfigValue::Integer(2), text("extra"));
    table.set(ConfigValue::Bool(true), text("flag"));
    let (parsed, warnings) = entry(&ConfigValue::Integer(1), &ConfigValue::Table(table));
    assert_eq!(parsed, Ok(Package::new("tmux".to_string())));
    assert!(warnings.is_empty());
}

#[test]
fn links_must_be_a_table() {
    let mut table = Table::new();
    table.set(text("links"), text("src"));
    let (parsed, _) = entry(&text("git"), &ConfigValue::Table(table));
    assert_eq!(
        parsed,
        Err(Diagnostic::LinksNotTable {
            found: text("src")
        })
    );
    let issue = parsed.unwrap_err();
    assert_eq!(issue.severity(), Severity::Fatal);
    assert_eq!(issue.kind(), IssueKind::TypeMismatchError);
    assert_eq!(issue.message(), "'links' expected type 'Table'");
}

#[test]
fn excludes_and_templates_take_strings_and_lists() {
    let mut table = Table::new();
    table.set(text("excludes"), list(&["as_table", "second"]));
    table.set(text("templates"), list(&["as_templates", "second"]));
    let (parsed, warnings) = entry(&text("git"), &ConfigValue::Table(table));
    let mut expected = Package::new("git".to_string());
    expected.excludes = vec!["as_table".to_string(), "second".to_string()];
    expected.templates = vec!["as_templates".to_string(), "second".to_string()];
    assert_eq!(parsed, Ok(expected));
    assert!(warnings.is_empty());

    let mut empty = Table::new();
    empty.set(text("excludes"), list(&[]));
    let (parsed, _) = entry(&text("git"), &ConfigValue::Table(empty));
    assert_eq!(parsed, Ok(Package::new("git".to_string())));

    let mut wrong = Table::new();
    wrong.set(text("templates"), ConfigValue::Integer(5));
    let (parsed, _) = entry(&text("git"), &ConfigValue::Table(wrong));
    assert_eq!(
        parsed,
        Err(Diagnostic::TargetsNotList {
            found: ConfigValue::Integer(5)
        })
    );
}

#[test]
fn warnings_before_a_fatal_issue_stay() {
    let mut table = Table::new();
    table.set(ConfigValue::Integer(1), text("inner"));
    table.set(text("hook"), ConfigValue::Bool(true));
    table.set(text("links"), ConfigValue::Bool(false));
    table.set(text("later"), ConfigValue::Bool(true));
    let (parsed, warnings) = entry(&text("outer"), &ConfigValue::Table(table));
    assert_eq!(
        parsed,
        Err(Diagnostic::LinksNotTable {
            found: ConfigValue::Bool(false)
        })
    );
    assert_eq!(
        warnings,
        vec![
            Diagnostic::NameOverridden {
                outer: "outer".to_string()
            },
            Diagnostic::IgnoredKey {
                field: "hook".to_string()
            },
        ]
    );
}

#[test]
fn from_table_takes_the_outer_key_or_none() {
    let mut table = Table::new();
    table.set(text("name"), text("inner"));
    table.set(text("excludes"), text("x"));
    let mut sink = Vec::new();
    let parsed = Package::from_table(None, &table, &mut sink);
    let mut expected = Package::new("inner".to_string());
    expected.excludes = vec!["x".to_string()];
    assert_eq!(parsed, Ok(expected));
    assert!(sink.is_empty());

    let parsed = Package::from_table(Some("outer".to_string()), &table, &mut sink);
    let mut expected = Package::new("outer".to_string());
    expected.excludes = vec!["x".to_string()];
    assert_eq!(parsed, Ok(expected));
    assert_eq!(sink.len(), 1);
}

#[test]
fn has_name_and_extract_name_read_both_places() {
    let mut table = Table::new();
    assert!(!Package::has_name(&table));
    assert_eq!(Package::extract_name(&table), Err(Diagnostic::MissingName));
    table.set(ConfigValue::Integer(1), text("one"));
    assert!(Package::has_name(&table));
    assert_eq!(Package::extract_name(&table), Ok("one".to_string()));
    table.set(text("name"), text("two"));
    assert!(Package::has_name(&table));
    assert_eq!(
        Package::extract_name(&table),
        Err(Diagnostic::ConflictingNames)
    );
    table.set(ConfigValue::Integer(1), ConfigValue::Nil);
    assert!(Package::has_name(&table));
    assert_eq!(Package::extract_name(&table), Ok("two".to_string()));
}

fn sample_manifest() -> Table {
    let mut manifest = Table::new();
    manifest.set(ConfigValue::Integer(1), text("ly"));
    manifest.set(ConfigValue::Integer(2), text("fish"));
    let mut tmux = Table::new();
    let mut object = Table::new();
    object.set(text("source"), text("src"));
    object.set(text("targets"), text("tar"));
    object.set(text("overwrite"), ConfigValue::Bool(false));
    object.set(text("backup"), ConfigValue::Bool(true));
    let mut links = Table::new();
    links.set(ConfigValue::Integer(1), ConfigValue::Table(object));
    tmux.set(ConfigValue::Integer(1), text("tmux"));
    tmux.set(text("links"), ConfigValue::Table(links));
    manifest.set(ConfigValue::Integer(3), ConfigValue::Table(tmux));
    let mut git = Table::new();
    git.set(text("depends"), list(&["hypr"]));
    git.set(text("excludes"), list(&["as_table", "second"]));
    manifest.set(text("git"), ConfigValue::Table(git));
    manifest
}

#[test]
fn pass_keeps_the_order_of_the_entries() {
    let mut sink = Vec::new();
    let parsed = normalize(&sample_manifest(), &mut sink);
    let mut tmux = Package::new("tmux".to_string());
    tmux.links = vec![LinkObject {
        source: "src".to_string(),
        targets: vec!["tar".to_string()],
        overwrite: false,
        backup: true,
    }];
    let mut git = Package::new("git".to_string());
    git.excludes = vec!["as_table".to_string(), "second".to_string()];
    assert_eq!(
        parsed,
        Ok(vec![
            Package::new("ly".to_string()),
            Package::new("fish".to_string()),
            tmux,
            git,
        ])
    );
    assert_eq!(
        sink,
        vec![Diagnostic::IgnoredKey {
            field: "depends".to_string()
        }]
    );
}

#[test]
fn pass_is_repeatable() {
    let manifest = sample_manifest();
    let mut first_sink = Vec::new();
    let mut second_sink = Vec::new();
    let first = normalize(&manifest, &mut first_sink);
    let second = normalize(&manifest.clone(), &mut second_sink);
    assert_eq!(first, second);
    assert_eq!(first_sink, second_sink);
    assert!(first.is_ok());
}

#[test]
fn pass_adds_to_the_sink() {
    let mut sink = vec![Diagnostic::IgnoredKey {
        field: "earlier".to_string(),
    }];
    let parsed = normalize(&sample_manifest(), &mut sink);
    assert!(parsed.is_ok());
    assert_eq!(
        sink,
        vec![
            Diagnostic::IgnoredKey {
                field: "earlier".to_string()
            },
            Diagnostic::IgnoredKey {
                field: "depends".to_string()
            },
        ]
    );
}

#[test]
fn empty_manifest_has_no_packages() {
    let mut sink = Vec::new();
    assert_eq!(normalize(&Table::new(), &mut sink), Ok(vec![]));
    assert!(sink.is_empty());
}

#[test]
fn link_without_targets_aborts_the_pass() {
    let mut object = Table::new();
    object.set(text("source"), text("src"));
    let mut links = Table::new();
    links.set(ConfigValue::Integer(1), ConfigValue::Table(object));
    let mut broken = Table::new();
    broken.set(text("unknown"), ConfigValue::Integer(1));
    broken.set(text("links"), ConfigValue::Table(links));
    let mut manifest = Table::new();
    manifest.set(ConfigValue::Integer(1), text("fish"));
    manifest.set(text("broken"), ConfigValue::Table(broken));
    manifest.set(ConfigValue::Integer(2), text("later"));
    manifest.set(text("worse"), text("not a table"));

    let mut sink = Vec::new();
    let parsed = normalize(&manifest, &mut sink);
    assert_eq!(parsed, Err(Diagnostic::MissingTargets));
    let issue = parsed.unwrap_err();
    assert_eq!(issue.severity(), Severity::Fatal);
    assert_eq!(issue.kind(), IssueKind::MissingFieldError);
    assert_eq!(issue.message(), "Link must contain 'targets'");
    assert_eq!(
        sink,
        vec![Diagnostic::IgnoredKey {
            field: "unknown".to_string()
        }]
    );
}
