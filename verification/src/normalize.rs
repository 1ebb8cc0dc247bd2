//! The package normalizer: one top-level entry of a manifest, or the whole
//! manifest, as validated packages.

use crate::diagnostic::{diagnostic_views, Diagnostic, DiagnosticModel, Severity};
use crate::laws::{
    law_entry_severities, law_package_well_formed, law_pass_severities, law_pass_well_formed,
    law_table_severities, law_table_well_formed,
};
use crate::links::{links_of, links_view};
use crate::outcome::{fold, lemma_fold_abort, lemma_fold_next, lemma_views_push, Outcome, Step};
use crate::package::{
    link_views, package_views, text_views, Enabled, LinkModel, LinkObject, Package, PackageModel,
};
use crate::targets::{paths_view, target_list};
use crate::value::{ConfigValue, Table, TableModel, ValueModel};
use vstd::prelude::*;
use vstd::string::StringExecFns;

verus! {

/// The name that a table gives under `key`: the string bound to it, if any.
pub open spec fn name_at(table: TableModel, key: ValueModel) -> Option<Seq<char>> {
    match table.get(key) {
        ValueModel::Text(name) => Some(name),
        _ => None,
    }
}

/// The name that a table gives in its first positional slot.
pub open spec fn positional_name(table: TableModel) -> Option<Seq<char>> {
    name_at(table, ValueModel::Integer(1))
}

/// The name that a table gives in its field `name`.
pub open spec fn field_name(table: TableModel) -> Option<Seq<char>> {
    name_at(table, ValueModel::Text("name"@))
}

/// Whether a table names its package, in either place.
pub open spec fn declares_name(table: TableModel) -> bool {
    positional_name(table) is Some || field_name(table) is Some
}

/// The name that a table gives its package. It must give one, and in one
/// place only.
pub open spec fn declared_name(table: TableModel) -> Result<Seq<char>, DiagnosticModel> {
    match (positional_name(table), field_name(table)) {
        (Some(_), Some(_)) => Err(DiagnosticModel::ConflictingNames),
        (Some(name), None) => Ok(name),
        (None, Some(name)) => Ok(name),
        (None, None) => Err(DiagnosticModel::MissingName),
    }
}

/// The name of the package that a table defines. An outer key is the name,
/// with a warning where the table names the package too. Without an outer key
/// the table must name it. An empty name is no name.
pub open spec fn resolved_name(outer: Option<Seq<char>>, table: TableModel) -> Outcome<Seq<char>> {
    match outer {
        Some(key) => if key.len() == 0 {
            Outcome::fatal(DiagnosticModel::MissingName)
        } else if declares_name(table) {
            Outcome {
                warnings: seq![DiagnosticModel::NameOverridden { outer: key }],
                result: Ok(key),
            }
        } else {
            Outcome::done(key)
        },
        None => match declared_name(table) {
            Err(issue) => Outcome::fatal(issue),
            Ok(name) => if name.len() == 0 {
                Outcome::fatal(DiagnosticModel::MissingName)
            } else {
                Outcome::done(name)
            },
        },
    }
}

/// What one entry of a package table does to the package. `links` must be a
/// table of links, `excludes` and `templates` are target lists, `name` has
/// been read before. Any other field is ignored with a warning, and an entry
/// whose key is no string is passed over.
pub open spec fn field_effect(package: PackageModel, key: ValueModel, value: ValueModel) -> Outcome<
    PackageModel,
> {
    match key {
        ValueModel::Text(field) => if field == "links"@ {
            match value {
                ValueModel::Table(table) => match links_of(table) {
                    Err(issue) => Outcome::fatal(issue),
                    Ok(links) => Outcome::done(PackageModel { links, ..package }),
                },
                other => Outcome::fatal(DiagnosticModel::LinksNotTable { found: other }),
            }
        } else if field == "name"@ {
            Outcome::done(package)
        } else if field == "excludes"@ {
            match target_list(value, false) {
                Err(issue) => Outcome::fatal(issue),
                Ok(excludes) => Outcome::done(PackageModel { excludes, ..package }),
            }
        } else if field == "templates"@ {
            match target_list(value, false) {
                Err(issue) => Outcome::fatal(issue),
                Ok(templates) => Outcome::done(PackageModel { templates, ..package }),
            }
        } else {
            Outcome { warnings: seq![DiagnosticModel::IgnoredKey { field }], result: Ok(package) }
        },
        _ => Outcome::done(package),
    }
}

/// `field_effect`, as the step of a walk.
pub open spec fn each_field() -> Step<PackageModel> {
    |package: PackageModel, key: ValueModel, value: ValueModel| field_effect(package, key, value)
}

/// The package that a table defines, under the outer key if there is one:
/// the name is resolved first, then the entries of the table are taken in
/// their order.
pub open spec fn table_package(outer: Option<Seq<char>>, table: TableModel) -> Outcome<PackageModel> {
    let name = resolved_name(outer, table);
    match name.result {
        Err(issue) => Outcome { warnings: name.warnings, result: Err(issue) },
        Ok(name_text) => fold(table.pairs, PackageModel::named(name_text), each_field()).after(
            name.warnings,
        ),
    }
}

/// The package that one top-level entry defines. A positional string is a
/// bare name; a positional table names itself; a table under a string key is
/// named by the key. Any other entry is unsupported.
pub open spec fn entry_package(key: ValueModel, value: ValueModel) -> Outcome<PackageModel> {
    match (key, value) {
        (ValueModel::Integer(_), ValueModel::Text(name)) => if name.len() == 0 {
            Outcome::fatal(DiagnosticModel::MissingName)
        } else {
            Outcome::done(PackageModel::named(name))
        },
        (ValueModel::Integer(_), ValueModel::Table(table)) => table_package(None, table),
        (ValueModel::Text(name), ValueModel::Table(table)) => table_package(Some(name), table),
        _ => Outcome::fatal(DiagnosticModel::UnsupportedEntry { key, value }),
    }
}

/// What one top-level entry adds to the packages collected so far.
pub open spec fn entry_effect(packages: Seq<PackageModel>, key: ValueModel, value: ValueModel) -> Outcome<
    Seq<PackageModel>,
> {
    let entry = entry_package(key, value);
    Outcome {
        warnings: entry.warnings,
        result: match entry.result {
            Err(issue) => Err(issue),
            Ok(package) => Ok(packages.push(package)),
        },
    }
}

/// `entry_effect`, as the step of a walk.
pub open spec fn each_entry() -> Step<Seq<PackageModel>> {
    |packages: Seq<PackageModel>, key: ValueModel, value: ValueModel|
        entry_effect(packages, key, value)
}

/// The packages that a manifest defines: one for each top-level entry, in
/// the order of the entries. The first fatal issue ends the pass, and no
/// package is returned then.
pub open spec fn manifest_packages(manifest: TableModel) -> Outcome<Seq<PackageModel>> {
    fold(manifest.pairs, Seq::empty(), each_entry())
}

/// The model of an optional string.
pub open spec fn option_text(text: Option<String>) -> Option<Seq<char>> {
    match text {
        Some(text) => Some(text@),
        None => None,
    }
}

/// The model of a name, or of the issue in its place.
pub open spec fn name_view(name: Result<String, Diagnostic>) -> Result<Seq<char>, DiagnosticModel> {
    match name {
        Ok(name) => Ok(name@),
        Err(issue) => Err(issue@),
    }
}

/// The model of a package, or of the issue in its place.
pub open spec fn package_view(parsed: Result<Package, Diagnostic>) -> Result<
    PackageModel,
    DiagnosticModel,
> {
    match parsed {
        Ok(package) => Ok(package@),
        Err(issue) => Err(issue@),
    }
}

/// The models of the packages of a pass, or of the issue in their place.
pub open spec fn packages_view(parsed: Result<Vec<Package>, Diagnostic>) -> Result<
    Seq<PackageModel>,
    DiagnosticModel,
> {
    match parsed {
        Ok(packages) => Ok(package_views(packages@)),
        Err(issue) => Err(issue@),
    }
}

/// Whether `text` reads `literal`.
fn reads(text: &String, literal: &str) -> (same: bool)
    ensures
        same == (text@ == literal@),
{
    let other = String::from_str(literal);
    *text == other
}

/// Hands one warning to the sink.
fn warn(sink: &mut Vec<Diagnostic>, warning: Diagnostic)
    ensures
        diagnostic_views(final(sink)@) == diagnostic_views(old(sink)@).push(warning@),
{
    proof {
        lemma_views_push(sink@, warning);
    }
    sink.push(warning);
}

impl Package {
    /// Whether the table names its package, in slot 1 or in `name`.
    pub fn has_name(table: &Table) -> (declared: bool)
        ensures
            declared == declares_name(table@),
    {
        let positional = table.slot(1).as_string().is_some();
        let field = table.field("name").as_string().is_some();
        positional || field
    }

    /// The name that the table gives its package: see `declared_name`.
    pub fn extract_name(table: &Table) -> (name: Result<String, Diagnostic>)
        ensures
            name_view(name) == declared_name(table@),
    {
        match (table.slot(1).as_string(), table.field("name").as_string()) {
            (Some(_), Some(_)) => Err(Diagnostic::ConflictingNames),
            (Some(name), None) => Ok(name.clone()),
            (None, Some(name)) => Ok(name.clone()),
            (None, None) => Err(Diagnostic::MissingName),
        }
    }

    /// Normalizes the table that defines a package, under the outer key
    /// `name` if there is one: see `table_package`. Warnings go to `sink` as
    /// they arise; those raised before a fatal issue stay there.
    pub fn from_table(name: Option<String>, table: &Table, sink: &mut Vec<Diagnostic>) -> (parsed:
        Result<Package, Diagnostic>)
        ensures
            diagnostic_views(final(sink)@) == diagnostic_views(old(sink)@) + table_package(
                option_text(name),
                table@,
            ).warnings,
            package_view(parsed) == table_package(option_text(name), table@).result,
            parsed matches Ok(package) ==> package@.well_formed(),
            parsed matches Err(issue) ==> issue@.severity() == Severity::Fatal,
    {
        let ghost outer = option_text(name);
        proof {
            law_table_well_formed(outer, table@);
            law_table_severities(outer, table@);
        }
        let ghost base = diagnostic_views(sink@);
        let ghost named = resolved_name(outer, table@);
        assert(base + Seq::<DiagnosticModel>::empty() =~= base);
        let chosen: String = match name {
            Some(key) => {
                if key.as_str().is_empty() {
                    return Err(Diagnostic::MissingName);
                }
                if Package::has_name(table) {
                    warn(sink, Diagnostic::NameOverridden { outer: key.clone() });
                    assert(diagnostic_views(sink@) =~= base + named.warnings);
                }
                key
            },
            None => match Package::extract_name(table) {
                Err(issue) => {
                    return Err(issue);
                },
                Ok(inner) => {
                    if inner.as_str().is_empty() {
                        return Err(Diagnostic::MissingName);
                    }
                    inner
                },
            },
        };
        let ghost start = PackageModel::named(chosen@);
        let ghost pairs = table@.pairs;
        let mut links: Vec<LinkObject> = Vec::new();
        let mut excludes: Vec<String> = Vec::new();
        let mut templates: Vec<String> = Vec::new();
        let mut i: usize = 0;
        proof {
            assert(pairs.take(0) =~= Seq::empty());
            assert(link_views(links@) =~= Seq::empty());
            assert(text_views(excludes@) =~= Seq::empty());
            assert(text_views(templates@) =~= Seq::empty());
            assert(diagnostic_views(sink@) =~= base + named.warnings + Seq::empty());
        }
        while i < table.len()
            invariant
                base == diagnostic_views(old(sink)@),
                outer == option_text(name),
                pairs == table@.pairs,
                i <= pairs.len(),
                named == resolved_name(outer, table@),
                named.result == Ok::<Seq<char>, DiagnosticModel>(chosen@),
                start == PackageModel::named(chosen@),
                fold(pairs.take(i as int), start, each_field()).result == Ok::<
                    PackageModel,
                    DiagnosticModel,
                >(
                    PackageModel {
                        links: link_views(links@),
                        excludes: text_views(excludes@),
                        templates: text_views(templates@),
                        ..start
                    },
                ),
                diagnostic_views(sink@) == base + named.warnings + fold(
                    pairs.take(i as int),
                    start,
                    each_field(),
                ).warnings,
            decreases pairs.len() - i,
        {
            let (key, value) = table.pair(i);
            let ghost before = fold(pairs.take(i as int), start, each_field());
            let ghost after = fold(pairs.take(i as int + 1), start, each_field());
            proof {
                lemma_fold_next(pairs, start, each_field(), i as int);
                assert(before.warnings + Seq::<DiagnosticModel>::empty() =~= before.warnings);
            }
            let mut failure: Option<Diagnostic> = None;
            if let ConfigValue::String(field) = key {
                if reads(field, "links") {
                    match value.as_table() {
                        Some(inner) => match Package::extract_links(inner) {
                            Ok(parsed) => {
                                links = parsed;
                            },
                            Err(issue) => {
                                failure = Some(issue);
                            },
                        },
                        None => {
                            failure = Some(Diagnostic::LinksNotTable { found: value.clone() });
                        },
                    }
                } else if reads(field, "name") {
                } else if reads(field, "excludes") {
                    match Package::extract_targets(value) {
                        Ok(parsed) => {
                            excludes = parsed;
                        },
                        Err(issue) => {
                            failure = Some(issue);
                        },
                    }
                } else if reads(field, "templates") {
                    match Package::extract_targets(value) {
                        Ok(parsed) => {
                            templates = parsed;
                        },
                        Err(issue) => {
                            failure = Some(issue);
                        },
                    }
                } else {
                    warn(sink, Diagnostic::IgnoredKey { field: field.clone() });
                    assert(diagnostic_views(sink@) =~= base + named.warnings + after.warnings);
                }
            }
            if let Some(issue) = failure {
                proof {
                    lemma_fold_abort(pairs, start, each_field(), i as int + 1);
                    law_table_severities(outer, table@);
                    assert(base + named.warnings + after.warnings =~= base + (named.warnings
                        + after.warnings));
                }
                return Err(issue);
            }
            i += 1;
        }
        proof {
            assert(pairs.take(i as int) =~= pairs);
            law_table_well_formed(outer, table@);
            let walked = fold(pairs, start, each_field());
            assert(base + named.warnings + walked.warnings =~= base + (named.warnings
                + walked.warnings));
        }
        let package = Package {
            name: chosen,
            package_name: None,
            enabled: Enabled::Enable(true),
            depends: Vec::new(),
            links,
            excludes,
            templates,
        };
        assert(package@.depends =~= Seq::empty());
        Ok(package)
    }

    /// Normalizes one top-level entry, given as its key and its value: see
    /// `entry_package`. Warnings go to `sink` as they arise.
    pub fn from_pair(pair: (&ConfigValue, &ConfigValue), sink: &mut Vec<Diagnostic>) -> (parsed:
        Result<Package, Diagnostic>)
        ensures
            diagnostic_views(final(sink)@) == diagnostic_views(old(sink)@) + entry_package(
                pair.0@,
                pair.1@,
            ).warnings,
            package_view(parsed) == entry_package(pair.0@, pair.1@).result,
            parsed matches Ok(package) ==> package@.well_formed(),
            parsed matches Err(issue) ==> issue@.severity() == Severity::Fatal,
    {
        let (key, value) = pair;
        proof {
            law_package_well_formed(key@, value@);
            law_entry_severities(key@, value@);
        }
        assert(diagnostic_views(sink@) + Seq::<DiagnosticModel>::empty() =~= diagnostic_views(
            sink@,
        ));
        match (key, value) {
            (ConfigValue::Integer(_), ConfigValue::String(name)) => {
                if name.as_str().is_empty() {
                    Err(Diagnostic::MissingName)
                } else {
                    Ok(Package::new(name.clone()))
                }
            },
            (ConfigValue::Integer(_), ConfigValue::Table(table)) => Package::from_table(
                None,
                table,
                sink,
            ),
            (ConfigValue::String(name), ConfigValue::Table(table)) => Package::from_table(
                Some(name.clone()),
                table,
                sink,
            ),
            _ => Err(Diagnostic::UnsupportedEntry { key: key.clone(), value: value.clone() }),
        }
    }
}

/// Normalizes a whole manifest in one pass: see `manifest_packages`. Warnings
/// go to `sink` as they arise; those raised before a fatal issue stay there.
pub fn normalize(manifest: &Table, sink: &mut Vec<Diagnostic>) -> (parsed: Result<
    Vec<Package>,
    Diagnostic,
>)
    ensures
        diagnostic_views(final(sink)@) == diagnostic_views(old(sink)@) + manifest_packages(
            manifest@,
        ).warnings,
        packages_view(parsed) == manifest_packages(manifest@).result,
        parsed matches Ok(packages) ==> forall|i: int|
            0 <= i < packages@.len() ==> (#[trigger] packages@[i])@.well_formed(),
        parsed matches Err(issue) ==> issue@.severity() == Severity::Fatal,
{
    let ghost base = diagnostic_views(sink@);
    let ghost pairs = manifest@.pairs;
    let ghost start = Seq::<PackageModel>::empty();
    let mut packages: Vec<Package> = Vec::new();
    let mut i: usize = 0;
    proof {
        assert(pairs.take(0) =~= Seq::empty());
        assert(package_views(packages@) =~= Seq::empty());
        assert(base + Seq::<DiagnosticModel>::empty() =~= base);
    }
    while i < manifest.len()
        invariant
            base == diagnostic_views(old(sink)@),
            pairs == manifest@.pairs,
            i <= pairs.len(),
            start == Seq::<PackageModel>::empty(),
            fold(pairs.take(i as int), start, each_entry()).result == Ok::<
                Seq<PackageModel>,
                DiagnosticModel,
            >(package_views(packages@)),
            diagnostic_views(sink@) == base + fold(
                pairs.take(i as int),
                start,
                each_entry(),
            ).warnings,
        decreases pairs.len() - i,
    {
        let ghost before = fold(pairs.take(i as int), start, each_entry());
        let ghost after = fold(pairs.take(i as int + 1), start, each_entry());
        proof {
            lemma_fold_next(pairs, start, each_entry(), i as int);
            let entry = entry_package(pairs[i as int].0, pairs[i as int].1);
            assert(base + before.warnings + entry.warnings =~= base + (before.warnings
                + entry.warnings));
        }
        match Package::from_pair(manifest.pair(i), sink) {
            Ok(package) => {
                let ghost collected = packages@;
                packages.push(package);
                assert(package_views(packages@) =~= package_views(collected).push(package@));
            },
            Err(issue) => {
                proof {
                    lemma_fold_abort(pairs, start, each_entry(), i as int + 1);
                    law_pass_severities(manifest@);
                }
                return Err(issue);
            },
        }
        i += 1;
    }
    proof {
        assert(pairs.take(i as int) =~= pairs);
        law_pass_well_formed(manifest@);
        let models = manifest_packages(manifest@).result->Ok_0;
        assert forall|j: int| 0 <= j < packages@.len() implies (
        #[trigger] packages@[j])@.well_formed() by {
            assert(models[j].well_formed());
        }
    }
    Ok(packages)
}

} // verus!
