//! The link normalizer: the entries of a `links` table, each as a validated
//! link declaration.

use crate::diagnostic::{Diagnostic, DiagnosticModel, LinkFlag};
use crate::outcome::{collect, lemma_collect_abort, lemma_collect_next, Each};
use crate::package::{link_views, LinkModel, LinkObject, Package};
use crate::targets::target_list;
use crate::value::{ConfigValue, Table, TableModel, ValueModel};
use vstd::prelude::*;

verus! {

/// The field that holds a flag.
pub open spec fn flag_name(flag: LinkFlag) -> Seq<char> {
    match flag {
        LinkFlag::Overwrite => "overwrite"@,
        LinkFlag::Backup => "backup"@,
    }
}

/// A flag of an object-form link: the boolean bound to its field, `false`
/// where the field is absent. Any other value is a type error.
pub open spec fn flag_of(table: TableModel, flag: LinkFlag) -> Result<bool, DiagnosticModel> {
    match table.get(ValueModel::Text(flag_name(flag))) {
        ValueModel::Bool(set) => Ok(set),
        ValueModel::Nil => Ok(false),
        other => Err(DiagnosticModel::FlagNotBool { flag, found: other }),
    }
}

/// The link that an object-form table declares. `source` must be a string and
/// `targets` a target list of at least one path; `overwrite` and `backup` are
/// optional booleans. The fields are checked in this order, and the first
/// that fails decides.
pub open spec fn object_link(table: TableModel) -> Result<LinkModel, DiagnosticModel> {
    match table.get(ValueModel::Text("source"@)) {
        ValueModel::Nil => Err(DiagnosticModel::MissingSource),
        ValueModel::Text(source) => match table.get(ValueModel::Text("targets"@)) {
            ValueModel::Nil => Err(DiagnosticModel::MissingTargets),
            listed => match target_list(listed, true) {
                Err(issue) => Err(issue),
                Ok(targets) => match flag_of(table, LinkFlag::Overwrite) {
                    Err(issue) => Err(issue),
                    Ok(overwrite) => match flag_of(table, LinkFlag::Backup) {
                        Err(issue) => Err(issue),
                        Ok(backup) => Ok(LinkModel { source, targets, overwrite, backup }),
                    },
                },
            },
        },
        other => Err(DiagnosticModel::SourceNotString { found: other }),
    }
}

/// The link that one entry of a `links` table declares. A positional table
/// is an object-form link. A string key bound to a string or a table is the
/// shorthand: the key is the source, the value lists the targets, and both
/// flags are off. Any other entry is no link.
pub open spec fn link_of(key: ValueModel, value: ValueModel) -> Result<LinkModel, DiagnosticModel> {
    match (key, value) {
        (ValueModel::Integer(_), ValueModel::Table(table)) => object_link(table),
        (ValueModel::Text(source), ValueModel::Text(_))
        | (ValueModel::Text(source), ValueModel::Table(_)) => match target_list(value, true) {
            Err(issue) => Err(issue),
            Ok(targets) => Ok(LinkModel { source, targets, overwrite: false, backup: false }),
        },
        _ => Err(DiagnosticModel::UnsupportedLink { key, value }),
    }
}

/// `link_of`, as what a walk applies to each pair.
pub open spec fn each_link() -> Each<LinkModel> {
    |key: ValueModel, value: ValueModel| link_of(key, value)
}

/// The links that a `links` table declares: one for each entry, in the order
/// of the entries, or the issue of the first entry that is no valid link.
pub open spec fn links_of(table: TableModel) -> Result<Seq<LinkModel>, DiagnosticModel> {
    collect(table.pairs, each_link())
}

/// The model of what normalizing one link returned.
pub open spec fn link_view(parsed: Result<LinkObject, Diagnostic>) -> Result<
    LinkModel,
    DiagnosticModel,
> {
    match parsed {
        Ok(link) => Ok(link@),
        Err(issue) => Err(issue@),
    }
}

/// The model of what normalizing a `links` table returned.
pub open spec fn links_view(parsed: Result<Vec<LinkObject>, Diagnostic>) -> Result<
    Seq<LinkModel>,
    DiagnosticModel,
> {
    match parsed {
        Ok(links) => Ok(link_views(links@)),
        Err(issue) => Err(issue@),
    }
}

impl LinkObject {
    /// Reads a flag of an object-form link: see `flag_of`.
    pub fn flag(table: &Table, flag: LinkFlag) -> (read: Result<bool, Diagnostic>)
        ensures
            match read {
                Ok(set) => flag_of(table@, flag) == Ok::<bool, DiagnosticModel>(set),
                Err(issue) => flag_of(table@, flag) == Err::<bool, DiagnosticModel>(issue@),
            },
    {
        let bound = match flag {
            LinkFlag::Overwrite => table.field("overwrite"),
            LinkFlag::Backup => table.field("backup"),
        };
        match bound {
            ConfigValue::Bool(set) => Ok(*set),
            ConfigValue::Nil => Ok(false),
            other => Err(Diagnostic::FlagNotBool { flag, found: other.clone() }),
        }
    }

    /// Normalizes an object-form link: see `object_link`.
    pub fn from_table(table: &Table) -> (parsed: Result<LinkObject, Diagnostic>)
        ensures
            link_view(parsed) == object_link(table@),
    {
        let source = match table.field("source") {
            ConfigValue::Nil => {
                return Err(Diagnostic::MissingSource);
            },
            ConfigValue::String(source) => source.clone(),
            other => {
                return Err(Diagnostic::SourceNotString { found: other.clone() });
            },
        };
        let targets = match table.field("targets") {
            ConfigValue::Nil => {
                return Err(Diagnostic::MissingTargets);
            },
            listed => match Package::parse_target_list(listed, true) {
                Err(issue) => {
                    return Err(issue);
                },
                Ok(targets) => targets,
            },
        };
        let overwrite = match LinkObject::flag(table, LinkFlag::Overwrite) {
            Err(issue) => {
                return Err(issue);
            },
            Ok(set) => set,
        };
        let backup = match LinkObject::flag(table, LinkFlag::Backup) {
            Err(issue) => {
                return Err(issue);
            },
            Ok(set) => set,
        };
        Ok(LinkObject { source, targets, overwrite, backup })
    }

    /// Normalizes one entry of a `links` table: see `link_of`.
    pub fn from_pair(pair: (&ConfigValue, &ConfigValue)) -> (parsed: Result<
        LinkObject,
        Diagnostic,
    >)
        ensures
            link_view(parsed) == link_of(pair.0@, pair.1@),
    {
        let (key, value) = pair;
        match (key, value) {
            (ConfigValue::Integer(_), ConfigValue::Table(table)) => LinkObject::from_table(table),
            (ConfigValue::String(source), ConfigValue::String(_))
            | (ConfigValue::String(source), ConfigValue::Table(_)) => {
                match Package::parse_target_list(value, true) {
                    Err(issue) => Err(issue),
                    Ok(targets) => Ok(
                        LinkObject {
                            source: source.clone(),
                            targets,
                            overwrite: false,
                            backup: false,
                        },
                    ),
                }
            },
            _ => Err(Diagnostic::UnsupportedLink { key: key.clone(), value: value.clone() }),
        }
    }
}

impl Package {
    /// Normalizes a `links` table: see `links_of`.
    pub fn extract_links(table: &Table) -> (parsed: Result<Vec<LinkObject>, Diagnostic>)
        ensures
            links_view(parsed) == links_of(table@),
    {
        let ghost pairs = table@.pairs;
        let mut links: Vec<LinkObject> = Vec::new();
        let mut i: usize = 0;
        assert(pairs.take(0) =~= Seq::empty());
        assert(link_views(links@) =~= Seq::empty());
        while i < table.len()
            invariant
                pairs == table@.pairs,
                i <= pairs.len(),
                collect(pairs.take(i as int), each_link()) == Ok::<Seq<LinkModel>, DiagnosticModel>(
                    link_views(links@),
                ),
            decreases pairs.len() - i,
        {
            proof {
                lemma_collect_next(pairs, each_link(), i as int);
            }
            match LinkObject::from_pair(table.pair(i)) {
                Ok(link) => {
                    let ghost before = links@;
                    links.push(link);
                    assert(link_views(links@) =~= link_views(before).push(link@));
                },
                Err(issue) => {
                    proof {
                        lemma_collect_abort(pairs, each_link(), i as int + 1);
                    }
                    return Err(issue);
                },
            }
            i += 1;
        }
        assert(pairs.take(i as int) =~= pairs);
        Ok(links)
    }
}

} // verus!
