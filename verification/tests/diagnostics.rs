use mdot::diagnostic::{Diagnostic, IssueKind, LinkFlag, Severity};
use mdot::normalize::normalize;
use mdot::package::{LinkObject, Package};
use mdot::value::{ConfigValue, Table};

fn name(s: &str) -> ConfigValue {
    ConfigValue::String(s.to_string())
}

fn names(items: &[&str]) -> ConfigValue {
    let mut table = Table::new();
    let mut index = 1;
    for item in items {
        table.set(ConfigValue::Integer(index), name(item));
        index += 1;
    }
    ConfigValue::Table(table)
}

#[test]
fn every_issue_has_its_class_severity_and_text() {
    let key = ConfigValue::Integer(1);
    let value = ConfigValue::Bool(true);
    let fatal = Severity::Fatal;
    let warning = Severity::Warning;
    let cases = vec![
        (
            Diagnostic::UnsupportedEntry {
                key: key.clone(),
                value: value.clone(),
            },
            IssueKind::ShapeError,
            fatal,
            "unsupported entry format",
        ),
        (
            Diagnostic::ConflictingNames,
            IssueKind::ShapeError,
            fatal,
            "provide 'name' OR positional but not both",
        ),
        (
            Diagnostic::MissingName,
            IssueKind::MissingFieldError,
            fatal,
            "package must have a name",
        ),
        (
            Diagnostic::LinksNotTable {
                found: value.clone(),
            },
            IssueKind::TypeMismatchError,
            fatal,
            "'links' expected type 'Table'",
        ),
        (
            Diagnostic::UnsupportedLink {
                key: key.clone(),
                value: value.clone(),
            },
            IssueKind::ShapeError,
            fatal,
            "expected Link element",
        ),
        (
            Diagnostic::MissingSource,
            IssueKind::MissingFieldError,
            fatal,
            "Link must contain 'source'",
        ),
        (
            Diagnostic::SourceNotString {
                found: value.clone(),
            },
            IssueKind::TypeMismatchError,
            fatal,
            "Link 'source' expected type 'String'",
        ),
        (
            Diagnostic::MissingTargets,
            IssueKind::MissingFieldError,
            fatal,
            "Link must contain 'targets'",
        ),
        (
            Diagnostic::FlagNotBool {
                flag: LinkFlag::Overwrite,
                found: key.clone(),
            },
            IssueKind::TypeMismatchError,
            fatal,
            "Link 'overwrite' expected type 'Boolean'",
        ),
        (
            Diagnostic::FlagNotBool {
                flag: LinkFlag::Backup,
                found: key.clone(),
            },
            IssueKind::TypeMismatchError,
            fatal,
            "Link 'backup' expected type 'Boolean'",
        ),
        (
            Diagnostic::InvalidTarget {
                key: key.clone(),
                value: value.clone(),
            },
            IssueKind::ShapeError,
            fatal,
            "invalid target element",
        ),
        (
            Diagnostic::TargetsNotList {
                found: value.clone(),
            },
            IssueKind::TypeMismatchError,
            fatal,
            "expected String or Table",
        ),
        (
            Diagnostic::EmptyTargets,
            IssueKind::MissingFieldError,
            fatal,
            "target list must not be empty",
        ),
        (
            Diagnostic::NameOverridden {
                outer: "git".to_string(),
            },
            IssueKind::AmbiguityWarning,
            warning,
            "key overrides package name",
        ),
        (
            Diagnostic::IgnoredKey {
                field: "depends".to_string(),
            },
            IssueKind::UnknownKeyWarning,
            warning,
            "key is ignored",
        ),
    ];
    for (issue, kind, severity, text) in cases {
        assert_eq!(issue.kind(), kind);
        assert_eq!(issue.severity(), severity);
        assert_eq!(issue.message(), text);
    }
}

#[test]
fn whole_manifest() {
    let mut hypr = Table::new();
    hypr.set(name("depends"), names(&["fish", "neovim", "uwsm"]));
    let mut pkg = Table::new();
    pkg.set(name("arch"), name("hyprland"));
    hypr.set(name("pkg"), ConfigValue::Table(pkg));
    hypr.set(name("exclude"), name("*"));

    let mut git = Table::new();
    git.set(name("depends"), names(&["hypr"]));
    git.set(name("excludes"), names(&["as_table", "second"]));
    git.set(name("templates"), names(&["as_templates", "second"]));

    let mut first_link = Table::new();
    first_link.set(name("source"), name("src"));
    first_link.set(name("targets"), names(&["tar", "hello"]));
    let mut alacritty_links = Table::new();
    alacritty_links.set(ConfigValue::Integer(1), ConfigValue::Table(first_link));
    alacritty_links.set(name("key-src"), name("value-tar"));
    let mut alacritty = Table::new();
    alacritty.set(name("name"), name("alacritty"));
    alacritty.set(name("links"), ConfigValue::Table(alacritty_links));
    alacritty.set(name("excludes"), name("as_string"));
    alacritty.set(name("templates"), name("as_templates"));

    let mut second_link = Table::new();
    second_link.set(name("source"), name("src"));
    second_link.set(name("targets"), name("tar"));
    second_link.set(name("overwrite"), ConfigValue::Bool(false));
    second_link.set(name("backup"), ConfigValue::Bool(true));
    let mut tmux_links = Table::new();
    tmux_links.set(ConfigValue::Integer(1), ConfigValue::Table(second_link));
    let mut tmux = Table::new();
    tmux.set(ConfigValue::Integer(1), name("tmux"));
    tmux.set(name("links"), ConfigValue::Table(tmux_links));

    let mut manifest = Table::new();
    manifest.set(ConfigValue::Integer(1), name("ly"));
    manifest.set(ConfigValue::Integer(2), name("fish"));
    manifest.set(ConfigValue::Integer(3), ConfigValue::Table(alacritty));
    manifest.set(ConfigValue::Integer(4), ConfigValue::Table(tmux));
    manifest.set(name("hypr"), ConfigValue::Table(hypr));
    manifest.set(name("git"), ConfigValue::Table(git));

    let mut sink = Vec::new();
    let packages = normalize(&manifest, &mut sink).unwrap();
    let found: Vec<&str> = packages.iter().map(|p| p.name.as_str()).collect();
    assert_eq!(found, vec!["ly", "fish", "alacritty", "tmux", "hypr", "git"]);

    let mut expected_alacritty = Package::new("alacritty".to_string());
    expected_alacritty.links = vec![
        LinkObject {
            source: "src".to_string(),
            targets: vec!["tar".to_string(), "hello".to_string()],
            overwrite: false,
            backup: false,
        },
        LinkObject {
            source: "key-src".to_string(),
            targets: vec!["value-tar".to_string()],
            overwrite: false,
            backup: false,
        },
    ];
    expected_alacritty.excludes = vec!["as_string".to_string()];
    expected_alacritty.templates = vec!["as_templates".to_string()];
    assert_eq!(packages[2], expected_alacritty);

    let mut expected_tmux = Package::new("tmux".to_string());
    expected_tmux.links = vec![LinkObject {
        source: "src".to_string(),
        targets: vec!["tar".to_string()],
        overwrite: false,
        backup: true,
    }];
    assert_eq!(packages[3], expected_tmux);
    assert_eq!(packages[4], Package::new("hypr".to_string()));

    let mut expected_git = Package::new("git".to_string());
    expected_git.excludes = vec!["as_table".to_string(), "second".to_string()];
    expected_git.templates = vec!["as_templates".to_string(), "second".to_string()];
    assert_eq!(packages[5], expected_git);

    let ignored: Vec<Diagnostic> = ["depends", "pkg", "exclude", "depends"]
        .iter()
        .map(|field| Diagnostic::IgnoredKey {
            field: field.to_string(),
        })
        .collect();
    assert_eq!(sink, ignored);
    for package in &packages {
        assert!(!package.name.is_empty());
        for link in &package.links {
            assert!(!link.targets.is_empty());
        }
    }
}
