//! What holds of every input: the laws of the normalizer, proved from its
//! definitions.

use crate::diagnostic::{diagnostic_views, Diagnostic, DiagnosticModel, IssueKind, Severity};
use crate::links::{each_link, link_of, links_of};
use crate::normalize::{
    declares_name, each_entry, each_field, entry_package, field_effect, field_name,
    manifest_packages, packages_view, positional_name, resolved_name, table_package,
};
use crate::outcome::{
    collect, fold, lemma_collect_err, lemma_collect_ok, lemma_fold_next, Each, Outcome,
};
use crate::package::{package_views, LinkModel, Package, PackageModel};
use crate::targets::{each_target, target_list, target_of};
use crate::value::{
    lemma_position, lemma_position_is, position, same_key, Table, TableModel, ValueModel,
};
use vstd::prelude::*;

verus! {

/// A bare name is a package of that name with every other field at its
/// default, and it raises no warning. The empty string is no name.
pub proof fn law_bare_name(index: int, name: Seq<char>)
    requires
        name.len() >= 1,
    ensures
        entry_package(ValueModel::Integer(index), ValueModel::Text(name)) == Outcome::done(
            PackageModel::named(name),
        ),
{
}

/// A table without an outer key that names its package both in slot 1 and in
/// `name` is refused with a fatal issue, whatever else it holds.
pub proof fn law_conflicting_names(index: int, table: TableModel)
    requires
        positional_name(table) is Some,
        field_name(table) is Some,
    ensures
        entry_package(ValueModel::Integer(index), ValueModel::Table(table)) == Outcome::<
            PackageModel,
        >::fatal(DiagnosticModel::ConflictingNames),
        DiagnosticModel::ConflictingNames.severity() == Severity::Fatal,
{
}

/// The walk over the fields of a table leaves the name, the install name, the
/// enabling and the dependencies of the package as they were, and raises no
/// warning but for ignored keys.
pub proof fn lemma_fields_keep(pairs: Seq<(ValueModel, ValueModel)>, start: PackageModel)
    ensures
        fold(pairs, start, each_field()).result matches Ok(package) ==> {
            &&& package.name == start.name
            &&& package.package_name == start.package_name
            &&& package.enabled == start.enabled
            &&& package.depends == start.depends
        },
        forall|i: int|
            0 <= i < fold(pairs, start, each_field()).warnings.len() ==> (#[trigger] fold(
                pairs,
                start,
                each_field(),
            ).warnings[i]) is IgnoredKey,
    decreases pairs.len(),
{
    if pairs.len() > 0 {
        lemma_fields_keep(pairs.drop_last(), start);
    }
}

/// Under an outer key, a table that names its package too is normalized as
/// if it did not: the outer key is the name, and the one warning about the
/// ambiguity comes first. Every other warning is about an ignored key.
pub proof fn law_outer_key_wins(key: Seq<char>, table: TableModel)
    requires
        key.len() >= 1,
        declares_name(table),
    ensures
        ({
            let entry = entry_package(ValueModel::Text(key), ValueModel::Table(table));
            let fields = fold(table.pairs, PackageModel::named(key), each_field());
            &&& entry.result == fields.result
            &&& entry.result matches Ok(package) ==> package.name == key
            &&& entry.warnings == seq![DiagnosticModel::NameOverridden { outer: key }]
                + fields.warnings
            &&& forall|i: int|
                0 <= i < entry.warnings.len() ==> ((#[trigger] entry.warnings[i]).kind()
                    == IssueKind::AmbiguityWarning <==> i == 0)
        }),
{
    lemma_fields_keep(table.pairs, PackageModel::named(key));
}

/// Under an outer key, a table that names its package too, and whose fields
/// are all known and valid, is normalized with exactly one warning.
pub proof fn law_outer_key_one_warning(key: Seq<char>, table: TableModel)
    requires
        key.len() >= 1,
        declares_name(table),
        fold(table.pairs, PackageModel::named(key), each_field()).result is Ok,
        fold(table.pairs, PackageModel::named(key), each_field()).warnings.len() == 0,
    ensures
        ({
            let entry = entry_package(ValueModel::Text(key), ValueModel::Table(table));
            &&& entry.result matches Ok(package) && package.name == key
            &&& entry.warnings == seq![DiagnosticModel::NameOverridden { outer: key }]
        }),
{
    law_outer_key_wins(key, table);
    let entry = entry_package(ValueModel::Text(key), ValueModel::Table(table));
    assert(entry.warnings =~= seq![DiagnosticModel::NameOverridden { outer: key }]);
}

/// Normalizing is repeatable: two passes over manifests of the same content,
/// each into an empty sink, end the same way, with the same packages or the
/// same fatal issue, and with the same warnings.
pub proof fn law_same_tree_same_end(
    first: Table,
    second: Table,
    first_sink: Seq<Diagnostic>,
    second_sink: Seq<Diagnostic>,
    first_end: Result<Vec<Package>, Diagnostic>,
    second_end: Result<Vec<Package>, Diagnostic>,
)
    requires
        first@ == second@,
        packages_view(first_end) == manifest_packages(first@).result,
        packages_view(second_end) == manifest_packages(second@).result,
        diagnostic_views(first_sink) == manifest_packages(first@).warnings,
        diagnostic_views(second_sink) == manifest_packages(second@).warnings,
    ensures
        packages_view(first_end) == packages_view(second_end),
        first_end is Ok <==> second_end is Ok,
        first_end matches Ok(packages) ==> packages@.len() == second_end->Ok_0@.len(),
        diagnostic_views(first_sink) == diagnostic_views(second_sink),
        first_sink.len() == second_sink.len(),
{
    assert(diagnostic_views(first_sink).len() == first_sink.len());
    assert(diagnostic_views(second_sink).len() == second_sink.len());
    if let Ok(packages) = first_end {
        assert(package_views(packages@).len() == packages@.len());
        assert(package_views(second_end->Ok_0@).len() == second_end->Ok_0@.len());
    }
}

/// A target list that is a table keeps the order of its entries: it lists one
/// path for each entry, the path of that entry.
pub proof fn law_targets_in_order(table: TableModel, required: bool)
    ensures
        target_list(ValueModel::Table(table), required) matches Ok(paths) ==> {
            &&& paths.len() == table.pairs.len()
            &&& forall|i: int|
                0 <= i < paths.len() ==> target_of(table.pairs[i].0, table.pairs[i].1) == Ok::<
                    Seq<char>,
                    DiagnosticModel,
                >(#[trigger] paths[i])
        },
{
    lemma_collect_ok(table.pairs, each_target());
}

/// A `links` table keeps the order of its entries: it is normalized exactly
/// when each entry is a valid link, and then yields one link for each entry,
/// the link of that entry. Nothing is merged, dropped or moved.
pub proof fn law_links_in_order(table: TableModel)
    ensures
        links_of(table) is Ok <==> forall|i: int|
            0 <= i < table.pairs.len() ==> link_of(
                #[trigger] table.pairs[i].0,
                table.pairs[i].1,
            ) is Ok,
        links_of(table) matches Ok(links) ==> {
            &&& links.len() == table.pairs.len()
            &&& forall|i: int|
                0 <= i < links.len() ==> link_of(table.pairs[i].0, table.pairs[i].1) == Ok::<
                    LinkModel,
                    DiagnosticModel,
                >(#[trigger] links[i])
        },
{
    lemma_collect_ok(table.pairs, each_link());
    assert forall|i: int| 0 <= i < table.pairs.len() implies (each_link()(
        #[trigger] table.pairs[i].0,
        table.pairs[i].1,
    ) is Ok <==> link_of(table.pairs[i].0, table.pairs[i].1) is Ok) by {}
}

/// A `links` table is refused with the issue of its first entry that is no
/// valid link.
pub proof fn law_links_first_failure(table: TableModel)
    ensures
        links_of(table) matches Err(issue) ==> exists|k: int|
            {
                &&& 0 <= k < table.pairs.len()
                &&& #[trigger] link_of(table.pairs[k].0, table.pairs[k].1) == Err::<
                    LinkModel,
                    DiagnosticModel,
                >(issue)
                &&& forall|i: int|
                    0 <= i < k ==> link_of(#[trigger] table.pairs[i].0, table.pairs[i].1) is Ok
            },
{
    lemma_collect_err(table.pairs, each_link());
    if let Err(issue) = links_of(table) {
        let k = choose|k: int|
            {
                &&& 0 <= k < table.pairs.len()
                &&& #[trigger] each_link()(table.pairs[k].0, table.pairs[k].1) == Err::<
                    LinkModel,
                    DiagnosticModel,
                >(issue)
                &&& forall|i: int|
                    0 <= i < k ==> each_link()(#[trigger] table.pairs[i].0, table.pairs[i].1) is Ok
            };
        assert(link_of(table.pairs[k].0, table.pairs[k].1) == Err::<LinkModel, DiagnosticModel>(
            issue,
        ));
        assert forall|i: int| 0 <= i < k implies link_of(
            #[trigger] table.pairs[i].0,
            table.pairs[i].1,
        ) is Ok by {
            assert(each_link()(table.pairs[i].0, table.pairs[i].1) is Ok);
        }
    }
}

/// What one top-level entry ends in, without its warnings.
pub open spec fn each_entry_result() -> Each<PackageModel> {
    |key: ValueModel, value: ValueModel| entry_package(key, value).result
}

/// A pass ends as the walk that collects the package of each entry.
pub proof fn lemma_pass_collects(pairs: Seq<(ValueModel, ValueModel)>)
    ensures
        fold(pairs, Seq::empty(), each_entry()).result == collect(pairs, each_entry_result()),
    decreases pairs.len(),
{
    if pairs.len() > 0 {
        lemma_pass_collects(pairs.drop_last());
    }
}

/// A pass keeps the order of the top-level entries: it succeeds exactly when
/// each entry is normalized, and then yields one package for each entry, the
/// package of that entry.
pub proof fn law_packages_in_order(manifest: TableModel)
    ensures
        manifest_packages(manifest).result is Ok <==> forall|i: int|
            0 <= i < manifest.pairs.len() ==> entry_package(
                #[trigger] manifest.pairs[i].0,
                manifest.pairs[i].1,
            ).result is Ok,
        manifest_packages(manifest).result matches Ok(packages) ==> {
            &&& packages.len() == manifest.pairs.len()
            &&& forall|i: int|
                0 <= i < packages.len() ==> entry_package(
                    manifest.pairs[i].0,
                    manifest.pairs[i].1,
                ).result == Ok::<PackageModel, DiagnosticModel>(#[trigger] packages[i])
        },
{
    lemma_pass_collects(manifest.pairs);
    lemma_collect_ok(manifest.pairs, each_entry_result());
    assert forall|i: int| 0 <= i < manifest.pairs.len() implies (each_entry_result()(
        #[trigger] manifest.pairs[i].0,
        manifest.pairs[i].1,
    ) is Ok <==> entry_package(manifest.pairs[i].0, manifest.pairs[i].1).result is Ok) by {}
}

/// A pass aborts at the first entry that ends in a fatal issue: it ends in
/// that issue and returns no package, neither for the entries before it nor
/// for those after it.
pub proof fn law_first_fatal_aborts(manifest: TableModel, k: int)
    requires
        0 <= k < manifest.pairs.len(),
        entry_package(manifest.pairs[k].0, manifest.pairs[k].1).result is Err,
        forall|i: int|
            0 <= i < k ==> entry_package(
                #[trigger] manifest.pairs[i].0,
                manifest.pairs[i].1,
            ).result is Ok,
    ensures
        manifest_packages(manifest).result == Err::<Seq<PackageModel>, DiagnosticModel>(
            entry_package(manifest.pairs[k].0, manifest.pairs[k].1).result->Err_0,
        ),
{
    let pairs = manifest.pairs;
    lemma_pass_collects(pairs);
    lemma_collect_ok(pairs, each_entry_result());
    lemma_collect_err(pairs, each_entry_result());
    assert(each_entry_result()(pairs[k].0, pairs[k].1) is Err);
    let issue = collect(pairs, each_entry_result())->Err_0;
    let first = choose|j: int|
        {
            &&& 0 <= j < pairs.len()
            &&& #[trigger] each_entry_result()(pairs[j].0, pairs[j].1) == Err::<
                PackageModel,
                DiagnosticModel,
            >(issue)
            &&& forall|i: int|
                0 <= i < j ==> each_entry_result()(#[trigger] pairs[i].0, pairs[i].1) is Ok
        };
    if first < k {
        assert(entry_package(pairs[first].0, pairs[first].1).result is Ok);
    }
    if k < first {
        assert(each_entry_result()(pairs[k].0, pairs[k].1) is Ok);
    }
}

/// A link that is normalized has at least one target.
pub proof fn law_link_well_formed(key: ValueModel, value: ValueModel)
    ensures
        link_of(key, value) matches Ok(link) ==> link.well_formed(),
{
}

/// The links of a normalized `links` table have at least one target each.
pub proof fn lemma_links_well_formed(table: TableModel)
    ensures
        links_of(table) matches Ok(links) ==> forall|i: int|
            0 <= i < links.len() ==> (#[trigger] links[i]).well_formed(),
{
    law_links_in_order(table);
    if let Ok(links) = links_of(table) {
        assert forall|i: int| 0 <= i < links.len() implies (#[trigger] links[i]).well_formed() by {
            law_link_well_formed(table.pairs[i].0, table.pairs[i].1);
        }
    }
}

/// The walk over the fields of a table keeps a well-formed package well
/// formed.
pub proof fn lemma_fields_well_formed(pairs: Seq<(ValueModel, ValueModel)>, start: PackageModel)
    requires
        start.well_formed(),
    ensures
        fold(pairs, start, each_field()).result matches Ok(package) ==> package.well_formed(),
    decreases pairs.len(),
{
    if pairs.len() > 0 {
        lemma_fields_well_formed(pairs.drop_last(), start);
        if let Ok(before) = fold(pairs.drop_last(), start, each_field()).result {
            if let ValueModel::Table(table) = pairs.last().1 {
                lemma_links_well_formed(table);
            }
        }
    }
}

/// Every package that a table defines is well formed.
pub proof fn law_table_well_formed(outer: Option<Seq<char>>, table: TableModel)
    ensures
        table_package(outer, table).result matches Ok(package) ==> package.well_formed(),
{
    if let Ok(name) = resolved_name(outer, table).result {
        lemma_fields_well_formed(table.pairs, PackageModel::named(name));
    }
}

/// Every package that normalizing returns is well formed: it has a name that
/// is not empty, and each of its links has at least one target.
pub proof fn law_package_well_formed(key: ValueModel, value: ValueModel)
    ensures
        entry_package(key, value).result matches Ok(package) ==> package.well_formed(),
{
    if let ValueModel::Table(table) = value {
        law_table_well_formed(None, table);
        if let ValueModel::Text(outer) = key {
            law_table_well_formed(Some(outer), table);
        }
    }
}

/// Every package of a pass is well formed.
pub proof fn law_pass_well_formed(manifest: TableModel)
    ensures
        manifest_packages(manifest).result matches Ok(packages) ==> forall|i: int|
            0 <= i < packages.len() ==> (#[trigger] packages[i]).well_formed(),
{
    law_packages_in_order(manifest);
    if let Ok(packages) = manifest_packages(manifest).result {
        assert forall|i: int| 0 <= i < packages.len() implies (#[trigger] packages[i]).well_formed() by {
            law_package_well_formed(manifest.pairs[i].0, manifest.pairs[i].1);
        }
    }
}

/// In a well-formed table, the one entry stored under a key is where a lookup
/// finds it.
pub proof fn lemma_found_at(table: TableModel, key: ValueModel, at: int)
    requires
        table.well_formed(),
        0 <= at < table.pairs.len(),
        same_key(table.pairs[at].0, key),
    ensures
        position(table.pairs, key) == at,
        table.get(key) == table.pairs[at].1,
{
    assert forall|j: int| 0 <= j < at implies !same_key(#[trigger] table.pairs[j].0, key) by {
        assert(!same_key(table.pairs[j].0, table.pairs[at].0));
    }
    lemma_position_is(table.pairs, key, at);
}

/// The links that a package table declares in its field `links`, none where
/// it has no such field.
pub open spec fn links_field(table: TableModel) -> Seq<LinkModel> {
    match table.get(ValueModel::Text("links"@)) {
        ValueModel::Table(links) => match links_of(links) {
            Ok(links) => links,
            Err(_) => Seq::empty(),
        },
        _ => Seq::empty(),
    }
}

/// The paths that a package table lists in the field `name`, none where it
/// has no such field.
pub open spec fn paths_field(table: TableModel, name: Seq<char>) -> Seq<Seq<char>> {
    match target_list(table.get(ValueModel::Text(name)), false) {
        Ok(paths) => paths,
        Err(_) => Seq::empty(),
    }
}

/// What the walk over the first `n` entries of a well-formed table has
/// gathered: of each known field that is among them, what a lookup finds.
pub proof fn lemma_fields_by_lookup(table: TableModel, name: Seq<char>, n: int)
    requires
        table.well_formed(),
        0 <= n <= table.pairs.len(),
    ensures
        fold(table.pairs.take(n), PackageModel::named(name), each_field()).result matches Ok(
            package,
        ) ==> {
            &&& package.links == if position(table.pairs, ValueModel::Text("links"@)) < n {
                links_field(table)
            } else {
                Seq::empty()
            }
            &&& package.excludes == if position(table.pairs, ValueModel::Text("excludes"@)) < n {
                paths_field(table, "excludes"@)
            } else {
                Seq::empty()
            }
            &&& package.templates == if position(table.pairs, ValueModel::Text("templates"@))
                < n {
                paths_field(table, "templates"@)
            } else {
                Seq::empty()
            }
        },
    decreases n,
{
    reveal_strlit("links");
    reveal_strlit("name");
    reveal_strlit("excludes");
    reveal_strlit("templates");
    let pairs = table.pairs;
    let start = PackageModel::named(name);
    let links = ValueModel::Text("links"@);
    let excludes = ValueModel::Text("excludes"@);
    let templates = ValueModel::Text("templates"@);
    if n == 0 {
        assert(pairs.take(0) =~= Seq::empty());
        lemma_position(pairs, links);
        lemma_position(pairs, excludes);
        lemma_position(pairs, templates);
    } else {
        lemma_fields_by_lookup(table, name, n - 1);
        lemma_fold_next(pairs, start, each_field(), n - 1);
        lemma_position(pairs, links);
        lemma_position(pairs, excludes);
        lemma_position(pairs, templates);
        let key = pairs[n - 1].0;
        let value = pairs[n - 1].1;
        let before = fold(pairs.take(n - 1), start, each_field());
        let after = fold(pairs.take(n), start, each_field());
        if let Ok(package) = after.result {
            let earlier = before.result->Ok_0;
            assert(after.result == field_effect(earlier, key, value).result);
            assert("links"@.len() == 5 && "name"@.len() == 4 && "excludes"@.len() == 8
                && "templates"@.len() == 9);
            if same_key(key, links) {
                lemma_found_at(table, links, n - 1);
            } else if same_key(key, excludes) {
                lemma_found_at(table, excludes, n - 1);
            } else if same_key(key, templates) {
                lemma_found_at(table, templates, n - 1);
            }
        }
    }
}

/// The package of a well-formed table does not depend on the order of its
/// fields: its links, excludes and templates are what a lookup of the field
/// finds, and every other part is at its default.
pub proof fn law_fields_by_lookup(outer: Option<Seq<char>>, table: TableModel)
    requires
        table.well_formed(),
    ensures
        table_package(outer, table).result matches Ok(package) ==> package == (PackageModel {
            links: links_field(table),
            excludes: paths_field(table, "excludes"@),
            templates: paths_field(table, "templates"@),
            ..PackageModel::named(package.name)
        }),
{
    if let Ok(name) = resolved_name(outer, table).result {
        let n = table.pairs.len() as int;
        lemma_fields_by_lookup(table, name, n);
        lemma_fields_keep(table.pairs, PackageModel::named(name));
        assert(table.pairs.take(n) =~= table.pairs);
        lemma_position(table.pairs, ValueModel::Text("links"@));
        lemma_position(table.pairs, ValueModel::Text("excludes"@));
        lemma_position(table.pairs, ValueModel::Text("templates"@));
    }
}

/// A target list is refused with a fatal issue only.
pub proof fn lemma_targets_fatal(value: ValueModel, required: bool)
    ensures
        target_list(value, required) matches Err(issue) ==> issue.severity() == Severity::Fatal,
{
    if let ValueModel::Table(table) = value {
        lemma_collect_err(table.pairs, each_target());
    }
}

/// An entry of a `links` table is refused with a fatal issue only.
pub proof fn lemma_link_fatal(key: ValueModel, value: ValueModel)
    ensures
        link_of(key, value) matches Err(issue) ==> issue.severity() == Severity::Fatal,
{
    lemma_targets_fatal(value, true);
    if let ValueModel::Table(table) = value {
        lemma_targets_fatal(table.get(ValueModel::Text("targets"@)), true);
    }
}

/// A `links` table is refused with a fatal issue only.
pub proof fn lemma_links_fatal(table: TableModel)
    ensures
        links_of(table) matches Err(issue) ==> issue.severity() == Severity::Fatal,
{
    law_links_first_failure(table);
    if let Err(issue) = links_of(table) {
        let k = choose|k: int|
            0 <= k < table.pairs.len() && #[trigger] link_of(table.pairs[k].0, table.pairs[k].1)
                == Err::<LinkModel, DiagnosticModel>(issue);
        lemma_link_fatal(table.pairs[k].0, table.pairs[k].1);
    }
}

/// The walk over the fields of a table ends in a fatal issue or in none.
pub proof fn lemma_fields_fatal(pairs: Seq<(ValueModel, ValueModel)>, start: PackageModel)
    ensures
        fold(pairs, start, each_field()).result matches Err(issue) ==> issue.severity()
            == Severity::Fatal,
    decreases pairs.len(),
{
    if pairs.len() > 0 {
        lemma_fields_fatal(pairs.drop_last(), start);
        lemma_targets_fatal(pairs.last().1, false);
        if let ValueModel::Table(table) = pairs.last().1 {
            lemma_links_fatal(table);
        }
    }
}

/// What normalizing a table raises on the way is a warning, and what stops
/// it is fatal.
pub proof fn law_table_severities(outer: Option<Seq<char>>, table: TableModel)
    ensures
        forall|i: int|
            0 <= i < table_package(outer, table).warnings.len() ==> (#[trigger] table_package(
                outer,
                table,
            ).warnings[i]).severity() == Severity::Warning,
        table_package(outer, table).result matches Err(issue) ==> issue.severity()
            == Severity::Fatal,
{
    if let Ok(name) = resolved_name(outer, table).result {
        lemma_fields_keep(table.pairs, PackageModel::named(name));
        lemma_fields_fatal(table.pairs, PackageModel::named(name));
    }
}

/// What normalizing an entry raises on the way is a warning, and what stops
/// it is fatal.
pub proof fn law_entry_severities(key: ValueModel, value: ValueModel)
    ensures
        forall|i: int|
            0 <= i < entry_package(key, value).warnings.len() ==> (#[trigger] entry_package(
                key,
                value,
            ).warnings[i]).severity() == Severity::Warning,
        entry_package(key, value).result matches Err(issue) ==> issue.severity()
            == Severity::Fatal,
{
    if let ValueModel::Table(table) = value {
        law_table_severities(None, table);
        if let ValueModel::Text(outer) = key {
            law_table_severities(Some(outer), table);
        }
    }
}

/// What a pass raises on the way is a warning, and what stops it is fatal.
pub proof fn law_pass_severities(manifest: TableModel)
    ensures
        forall|i: int|
            0 <= i < manifest_packages(manifest).warnings.len() ==> (
            #[trigger] manifest_packages(manifest).warnings[i]).severity() == Severity::Warning,
        manifest_packages(manifest).result matches Err(issue) ==> issue.severity()
            == Severity::Fatal,
{
    lemma_pass_severities(manifest.pairs);
}

/// `law_pass_severities`, of any run of top-level entries.
pub proof fn lemma_pass_severities(pairs: Seq<(ValueModel, ValueModel)>)
    ensures
        forall|i: int|
            0 <= i < fold(pairs, Seq::empty(), each_entry()).warnings.len() ==> (#[trigger] fold(
                pairs,
                Seq::empty(),
                each_entry(),
            ).warnings[i]).severity() == Severity::Warning,
        fold(pairs, Seq::empty(), each_entry()).result matches Err(issue) ==> issue.severity()
            == Severity::Fatal,
    decreases pairs.len(),
{
    if pairs.len() > 0 {
        lemma_pass_severities(pairs.drop_last());
        law_entry_severities(pairs.last().0, pairs.last().1);
    }
}

} // verus!
