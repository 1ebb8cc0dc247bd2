//! The target list parser: one path or a positional list of paths.

use crate::diagnostic::{Diagnostic, DiagnosticModel};
use crate::outcome::{collect, lemma_collect_abort, lemma_collect_next, Each};
use crate::package::{text_views, Package};
use crate::value::{ConfigValue, ValueModel};
use vstd::prelude::*;

verus! {

/// The path that one entry of a target list gives: the entry must be a
/// positional string.
pub open spec fn target_of(key: ValueModel, value: ValueModel) -> Result<
    Seq<char>,
    DiagnosticModel,
> {
    match (key, value) {
        (ValueModel::Integer(_), ValueModel::Text(path)) => Ok(path),
        _ => Err(DiagnosticModel::InvalidTarget { key, value }),
    }
}

/// `target_of`, as what a walk applies to each pair.
pub open spec fn each_target() -> Each<Seq<char>> {
    |key: ValueModel, value: ValueModel| target_of(key, value)
}

/// The paths that `value` lists. A string is a list of one path. A table
/// lists the paths of its entries, in their order, and every entry must be a
/// positional string. Anything else lists nothing. Where the list is
/// `required`, it must hold at least one path.
pub open spec fn target_list(value: ValueModel, required: bool) -> Result<
    Seq<Seq<char>>,
    DiagnosticModel,
> {
    match value {
        ValueModel::Text(path) => Ok(seq![path]),
        ValueModel::Table(table) => match collect(table.pairs, each_target()) {
            Err(issue) => Err(issue),
            Ok(paths) => if required && paths.len() == 0 {
                Err(DiagnosticModel::EmptyTargets)
            } else {
                Ok(paths)
            },
        },
        other => Err(DiagnosticModel::TargetsNotList { found: other }),
    }
}

/// The model of what a parse returned.
pub open spec fn paths_view(parsed: Result<Vec<String>, Diagnostic>) -> Result<
    Seq<Seq<char>>,
    DiagnosticModel,
> {
    match parsed {
        Ok(paths) => Ok(text_views(paths@)),
        Err(issue) => Err(issue@),
    }
}

impl Package {
    /// Parses a target list: see `target_list`.
    pub fn parse_target_list(targets: &ConfigValue, required: bool) -> (parsed: Result<
        Vec<String>,
        Diagnostic,
    >)
        ensures
            paths_view(parsed) == target_list(targets@, required),
    {
        match targets {
            ConfigValue::String(path) => {
                let mut paths: Vec<String> = Vec::new();
                paths.push(path.clone());
                assert(text_views(paths@) =~= seq![path@]);
                Ok(paths)
            },
            ConfigValue::Table(table) => {
                let ghost pairs = table@.pairs;
                let mut paths: Vec<String> = Vec::new();
                let mut i: usize = 0;
                assert(pairs.take(0) =~= Seq::empty());
                assert(text_views(paths@) =~= Seq::empty());
                while i < table.len()
                    invariant
                        targets@ == ValueModel::Table(table@),
                        pairs == table@.pairs,
                        i <= pairs.len(),
                        collect(pairs.take(i as int), each_target()) == Ok::<
                            Seq<Seq<char>>,
                            DiagnosticModel,
                        >(text_views(paths@)),
                    decreases pairs.len() - i,
                {
                    let (key, value) = table.pair(i);
                    proof {
                        lemma_collect_next(pairs, each_target(), i as int);
                    }
                    match (key, value) {
                        (ConfigValue::Integer(_), ConfigValue::String(path)) => {
                            let ghost before = paths@;
                            paths.push(path.clone());
                            assert(text_views(paths@) =~= text_views(before).push(path@));
                        },
                        _ => {
                            let issue = Diagnostic::InvalidTarget {
                                key: key.clone(),
                                value: value.clone(),
                            };
                            proof {
                                lemma_collect_abort(pairs, each_target(), i as int + 1);
                            }
                            return Err(issue);
                        },
                    }
                    i += 1;
                }
                assert(pairs.take(i as int) =~= pairs);
                if required && paths.len() == 0 {
                    Err(Diagnostic::EmptyTargets)
                } else {
                    Ok(paths)
                }
            },
            other => Err(Diagnostic::TargetsNotList { found: other.clone() }),
        }
    }

    /// Parses a target list that may be empty, as `excludes` and `templates`
    /// are.
    pub fn extract_targets(value: &ConfigValue) -> (parsed: Result<Vec<String>, Diagnostic>)
        ensures
            paths_view(parsed) == target_list(value@, false),
    {
        Package::parse_target_list(value, false)
    }
}

} // verus!
