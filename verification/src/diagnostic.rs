//! Diagnostics: what the normalizer reports, and how serious each report is.

use crate::value::{ConfigValue, ValueModel};
use vstd::prelude::*;
use vstd::string::StringExecFns;

verus! {

/// How serious a diagnostic is.
#[derive(Clone, Copy, Debug, PartialEq, Eq, Structural)]
pub enum Severity {
    /// Recoverable: the documented fallback is applied and the pass goes on.
    Warning,
    /// The whole pass is aborted.
    Fatal,
}

/// The class of an issue.
#[derive(Clone, Copy, Debug, PartialEq, Eq, Structural)]
pub enum IssueKind {
    /// A key/value pair matches no recognized package or link format.
    ShapeError,
    /// A required field is absent.
    MissingFieldError,
    /// A field is present but has the wrong primitive type.
    TypeMismatchError,
    /// Two mutually exclusive name sources are both supplied.
    AmbiguityWarning,
    /// A field key is not recognized.
    UnknownKeyWarning,
}

/// One of the two optional flags of a link.
#[derive(Clone, Copy, Debug, PartialEq, Eq, Structural)]
pub enum LinkFlag {
    Overwrite,
    Backup,
}

/// One issue found while normalizing, with what it cites.
#[derive(Debug, PartialEq)]
pub enum Diagnostic {
    /// A top-level entry is neither a bare name nor a table.
    UnsupportedEntry { key: ConfigValue, value: ConfigValue },
    /// A table without an outer key gives its name both in slot 1 and in `name`.
    ConflictingNames,
    /// A package has no name, or an empty one.
    MissingName,
    /// `links` is bound to something that is no table.
    LinksNotTable { found: ConfigValue },
    /// An entry of `links` is neither an object-form link nor a shorthand.
    UnsupportedLink { key: ConfigValue, value: ConfigValue },
    /// An object-form link lacks `source`.
    MissingSource,
    /// `source` of a link is no string.
    SourceNotString { found: ConfigValue },
    /// An object-form link lacks `targets`.
    MissingTargets,
    /// `overwrite` or `backup` of a link is no boolean.
    FlagNotBool { flag: LinkFlag, found: ConfigValue },
    /// An entry of a target list is no positional string.
    InvalidTarget { key: ConfigValue, value: ConfigValue },
    /// A target list is neither a string nor a table.
    TargetsNotList { found: ConfigValue },
    /// A required target list holds no target.
    EmptyTargets,
    /// The outer key names the package although the table names it too.
    NameOverridden { outer: String },
    /// A field of a package table is not recognized; its value is discarded.
    IgnoredKey { field: String },
}

/// What a diagnostic is, mathematically.
pub ghost enum DiagnosticModel {
    UnsupportedEntry { key: ValueModel, value: ValueModel },
    ConflictingNames,
    MissingName,
    LinksNotTable { found: ValueModel },
    UnsupportedLink { key: ValueModel, value: ValueModel },
    MissingSource,
    SourceNotString { found: ValueModel },
    MissingTargets,
    FlagNotBool { flag: LinkFlag, found: ValueModel },
    InvalidTarget { key: ValueModel, value: ValueModel },
    TargetsNotList { found: ValueModel },
    EmptyTargets,
    NameOverridden { outer: Seq<char> },
    IgnoredKey { field: Seq<char> },
}

impl DiagnosticModel {
    /// The class of the issue.
    pub open spec fn kind(self) -> IssueKind {
        match self {
            DiagnosticModel::UnsupportedEntry { .. } => IssueKind::ShapeError,
            DiagnosticModel::ConflictingNames => IssueKind::ShapeError,
            DiagnosticModel::MissingName => IssueKind::MissingFieldError,
            DiagnosticModel::LinksNotTable { .. } => IssueKind::TypeMismatchError,
            DiagnosticModel::UnsupportedLink { .. } => IssueKind::ShapeError,
            DiagnosticModel::MissingSource => IssueKind::MissingFieldError,
            DiagnosticModel::SourceNotString { .. } => IssueKind::TypeMismatchError,
            DiagnosticModel::MissingTargets => IssueKind::MissingFieldError,
            DiagnosticModel::FlagNotBool { .. } => IssueKind::TypeMismatchError,
            DiagnosticModel::InvalidTarget { .. } => IssueKind::ShapeError,
            DiagnosticModel::TargetsNotList { .. } => IssueKind::TypeMismatchError,
            DiagnosticModel::EmptyTargets => IssueKind::MissingFieldError,
            DiagnosticModel::NameOverridden { .. } => IssueKind::AmbiguityWarning,
            DiagnosticModel::IgnoredKey { .. } => IssueKind::UnknownKeyWarning,
        }
    }

    /// Shape, missing-field and type errors are fatal; the rest are warnings.
    pub open spec fn severity(self) -> Severity {
        match self.kind() {
            IssueKind::ShapeError => Severity::Fatal,
            IssueKind::MissingFieldError => Severity::Fatal,
            IssueKind::TypeMismatchError => Severity::Fatal,
            IssueKind::AmbiguityWarning => Severity::Warning,
            IssueKind::UnknownKeyWarning => Severity::Warning,
        }
    }

    /// The text of the issue, without what it cites.
    pub open spec fn message(self) -> Seq<char> {
        match self {
            DiagnosticModel::UnsupportedEntry { .. } => "unsupported entry format"@,
            DiagnosticModel::ConflictingNames => "provide 'name' OR positional but not both"@,
            DiagnosticModel::MissingName => "package must have a name"@,
            DiagnosticModel::LinksNotTable { .. } => "'links' expected type 'Table'"@,
            DiagnosticModel::UnsupportedLink { .. } => "expected Link element"@,
            DiagnosticModel::MissingSource => "Link must contain 'source'"@,
            DiagnosticModel::SourceNotString { .. } => "Link 'source' expected type 'String'"@,
            DiagnosticModel::MissingTargets => "Link must contain 'targets'"@,
            DiagnosticModel::FlagNotBool { flag: LinkFlag::Overwrite, .. } =>
                "Link 'overwrite' expected type 'Boolean'"@,
            DiagnosticModel::FlagNotBool { flag: LinkFlag::Backup, .. } =>
                "Link 'backup' expected type 'Boolean'"@,
            DiagnosticModel::InvalidTarget { .. } => "invalid target element"@,
            DiagnosticModel::TargetsNotList { .. } => "expected String or Table"@,
            DiagnosticModel::EmptyTargets => "target list must not be empty"@,
            DiagnosticModel::NameOverridden { .. } => "key overrides package name"@,
            DiagnosticModel::IgnoredKey { .. } => "key is ignored"@,
        }
    }
}

impl View for Diagnostic {
    type V = DiagnosticModel;

    open spec fn view(&self) -> DiagnosticModel {
        match self {
            Diagnostic::UnsupportedEntry { key, value } => DiagnosticModel::UnsupportedEntry {
                key: key@,
                value: value@,
            },
            Diagnostic::ConflictingNames => DiagnosticModel::ConflictingNames,
            Diagnostic::MissingName => DiagnosticModel::MissingName,
            Diagnostic::LinksNotTable { found } => DiagnosticModel::LinksNotTable { found: found@ },
            Diagnostic::UnsupportedLink { key, value } => DiagnosticModel::UnsupportedLink {
                key: key@,
                value: value@,
            },
            Diagnostic::MissingSource => DiagnosticModel::MissingSource,
            Diagnostic::SourceNotString { found } => DiagnosticModel::SourceNotString {
                found: found@,
            },
            Diagnostic::MissingTargets => DiagnosticModel::MissingTargets,
            Diagnostic::FlagNotBool { flag, found } => DiagnosticModel::FlagNotBool {
                flag: *flag,
                found: found@,
            },
            Diagnostic::InvalidTarget { key, value } => DiagnosticModel::InvalidTarget {
                key: key@,
                value: value@,
            },
            Diagnostic::TargetsNotList { found } => DiagnosticModel::TargetsNotList {
                found: found@,
            },
            Diagnostic::EmptyTargets => DiagnosticModel::EmptyTargets,
            Diagnostic::NameOverridden { outer } => DiagnosticModel::NameOverridden { outer: outer@ },
            Diagnostic::IgnoredKey { field } => DiagnosticModel::IgnoredKey { field: field@ },
        }
    }
}

/// The models of a list of diagnostics, in order.
pub open spec fn diagnostic_views(list: Seq<Diagnostic>) -> Seq<DiagnosticModel> {
    Seq::new(list.len(), |i: int| list[i]@)
}

impl Diagnostic {
    /// The class of the issue.
    pub fn kind(&self) -> (kind: IssueKind)
        ensures
            kind == self@.kind(),
    {
        match self {
            Diagnostic::UnsupportedEntry { .. } => IssueKind::ShapeError,
            Diagnostic::ConflictingNames => IssueKind::ShapeError,
            Diagnostic::MissingName => IssueKind::MissingFieldError,
            Diagnostic::LinksNotTable { .. } => IssueKind::TypeMismatchError,
            Diagnostic::UnsupportedLink { .. } => IssueKind::ShapeError,
            Diagnostic::MissingSource => IssueKind::MissingFieldError,
            Diagnostic::SourceNotString { .. } => IssueKind::TypeMismatchError,
            Diagnostic::MissingTargets => IssueKind::MissingFieldError,
            Diagnostic::FlagNotBool { .. } => IssueKind::TypeMismatchError,
            Diagnostic::InvalidTarget { .. } => IssueKind::ShapeError,
            Diagnostic::TargetsNotList { .. } => IssueKind::TypeMismatchError,
            Diagnostic::EmptyTargets => IssueKind::MissingFieldError,
            Diagnostic::NameOverridden { .. } => IssueKind::AmbiguityWarning,
            Diagnostic::IgnoredKey { .. } => IssueKind::UnknownKeyWarning,
        }
    }

    /// Whether the issue aborts the pass.
    pub fn severity(&self) -> (severity: Severity)
        ensures
            severity == self@.severity(),
    {
        match self.kind() {
            IssueKind::ShapeError => Severity::Fatal,
            IssueKind::MissingFieldError => Severity::Fatal,
            IssueKind::TypeMismatchError => Severity::Fatal,
            IssueKind::AmbiguityWarning => Severity::Warning,
            IssueKind::UnknownKeyWarning => Severity::Warning,
        }
    }

    /// The text of the issue, without what it cites.
    pub fn message(&self) -> (text: String)
        ensures
            text@ == self@.message(),
    {
        let text = match self {
            Diagnostic::UnsupportedEntry { .. } => "unsupported entry format",
            Diagnostic::ConflictingNames => "provide 'name' OR positional but not both",
            Diagnostic::MissingName => "package must have a name",
            Diagnostic::LinksNotTable { .. } => "'links' expected type 'Table'",
            Diagnostic::UnsupportedLink { .. } => "expected Link element",
            Diagnostic::MissingSource => "Link must contain 'source'",
            Diagnostic::SourceNotString { .. } => "Link 'source' expected type 'String'",
            Diagnostic::MissingTargets => "Link must contain 'targets'",
            Diagnostic::FlagNotBool { flag: LinkFlag::Overwrite, .. } =>
                "Link 'overwrite' expected type 'Boolean'",
            Diagnostic::FlagNotBool { flag: LinkFlag::Backup, .. } =>
                "Link 'backup' expected type 'Boolean'",
            Diagnostic::InvalidTarget { .. } => "invalid target element",
            Diagnostic::TargetsNotList { .. } => "expected String or Table",
            Diagnostic::EmptyTargets => "target list must not be empty",
            Diagnostic::NameOverridden { .. } => "key overrides package name",
            Diagnostic::IgnoredKey { .. } => "key is ignored",
        };
        String::from_str(text)
    }
}

} // verus!
