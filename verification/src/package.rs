//! The validated model: packages and their link declarations.

use std::collections::HashMap;
use vstd::prelude::*;

verus! {

/// A function of the configuration script, held by `mlua::Function` as a
/// handle into the interpreter. Nothing is claimed of it: it is carried, never
/// looked into.
#[verifier::external_type_specification]
#[verifier::external_body]
pub struct ExFunction(mlua::Function);

/// The models of a list of strings, in order.
pub open spec fn text_views(list: Seq<String>) -> Seq<Seq<char>> {
    Seq::new(list.len(), |i: int| list[i]@)
}

/// A declaration that links one source path to one or more target paths.
#[derive(Debug, PartialEq)]
pub struct LinkObject {
    pub source: String,
    pub targets: Vec<String>,
    pub overwrite: bool,
    pub backup: bool,
}

/// What a link declaration is, mathematically.
pub ghost struct LinkModel {
    pub source: Seq<char>,
    pub targets: Seq<Seq<char>>,
    pub overwrite: bool,
    pub backup: bool,
}

impl LinkModel {
    /// A link has at least one target.
    pub open spec fn well_formed(self) -> bool {
        self.targets.len() >= 1
    }
}

impl View for LinkObject {
    type V = LinkModel;

    open spec fn view(&self) -> LinkModel {
        LinkModel {
            source: self.source@,
            targets: text_views(self.targets@),
            overwrite: self.overwrite,
            backup: self.backup,
        }
    }
}

/// The models of a list of links, in order.
pub open spec fn link_views(list: Seq<LinkObject>) -> Seq<LinkModel> {
    Seq::new(list.len(), |i: int| list[i]@)
}

/// Install names, by the name of the operating system.
pub type OSPackage = HashMap<String, String>;

/// The name under which the operating system installs a package.
#[derive(Debug, PartialEq)]
pub enum OSPackageName {
    /// Whether the package is installed under its own name.
    AsPackage(bool),
    /// One install name for every system.
    Name(String),
    /// An install name for each system.
    Package(OSPackage),
}

/// What an install name is, mathematically.
pub ghost enum OSPackageNameModel {
    AsPackage(bool),
    Name(Seq<char>),
    Package(Map<Seq<char>, Seq<char>>),
}

impl View for OSPackageName {
    type V = OSPackageNameModel;

    open spec fn view(&self) -> OSPackageNameModel {
        match self {
            OSPackageName::AsPackage(flag) => OSPackageNameModel::AsPackage(*flag),
            OSPackageName::Name(name) => OSPackageNameModel::Name(name@),
            OSPackageName::Package(names) => OSPackageNameModel::Package(names.deep_view()),
        }
    }
}

/// Whether a package takes part in a deployment.
#[derive(Debug, PartialEq)]
pub enum Enabled {
    /// Decided in the configuration.
    Enable(bool),
    /// Decided when asked, by a predicate of the configuration script.
    Hook(mlua::Function),
}

impl Default for Enabled {
    fn default() -> (enabled: Enabled)
        ensures
            enabled == Enabled::Enable(true),
    {
        Enabled::Enable(true)
    }
}

/// One unit of deployment.
#[derive(Debug, PartialEq)]
pub struct Package {
    pub name: String,
    pub package_name: Option<OSPackageName>,
    pub enabled: Enabled,
    pub depends: Vec<Package>,
    pub links: Vec<LinkObject>,
    pub excludes: Vec<String>,
    pub templates: Vec<String>,
}

/// What a package is, mathematically.
pub ghost struct PackageModel {
    pub name: Seq<char>,
    pub package_name: Option<OSPackageNameModel>,
    pub enabled: Enabled,
    pub depends: Seq<PackageModel>,
    pub links: Seq<LinkModel>,
    pub excludes: Seq<Seq<char>>,
    pub templates: Seq<Seq<char>>,
}

impl PackageModel {
    /// The package of that name with every other field at its default:
    /// enabled, and no install name, dependency, link, exclude or template.
    pub open spec fn named(name: Seq<char>) -> PackageModel {
        PackageModel {
            name,
            package_name: None,
            enabled: Enabled::Enable(true),
            depends: Seq::empty(),
            links: Seq::empty(),
            excludes: Seq::empty(),
            templates: Seq::empty(),
        }
    }

    /// The name is not empty, every link has a target, and every dependency is
    /// well formed in turn.
    pub open spec fn well_formed(self) -> bool
        decreases self,
    {
        &&& self.name.len() >= 1
        &&& forall|i: int| 0 <= i < self.links.len() ==> (#[trigger] self.links[i]).well_formed()
        &&& forall|i: int|
            0 <= i < self.depends.len() ==> (#[trigger] self.depends[i]).well_formed()
    }
}

impl View for Package {
    type V = PackageModel;

    open spec fn view(&self) -> PackageModel
        decreases self,
    {
        PackageModel {
            name: self.name@,
            package_name: match self.package_name {
                Some(name) => Some(name@),
                None => None,
            },
            enabled: self.enabled,
            depends: Seq::new(
                self.depends@.len(),
                |i: int|
                    if 0 <= i < self.depends@.len() {
                        self.depends@[i]@
                    } else {
                        PackageModel::named(Seq::empty())
                    },
            ),
            links: link_views(self.links@),
            excludes: text_views(self.excludes@),
            templates: text_views(self.templates@),
        }
    }
}

/// The models of a list of packages, in order.
pub open spec fn package_views(list: Seq<Package>) -> Seq<PackageModel> {
    Seq::new(list.len(), |i: int| list[i]@)
}

impl Package {
    /// The package of that name with every other field at its default.
    pub fn new(name: String) -> (package: Package)
        ensures
            package@ == PackageModel::named(name@),
            package@.well_formed() <==> name@.len() >= 1,
    {
        let package = Package {
            name,
            package_name: None,
            enabled: Enabled::Enable(true),
            depends: Vec::new(),
            links: Vec::new(),
            excludes: Vec::new(),
            templates: Vec::new(),
        };
        assert(package@.depends =~= Seq::empty());
        assert(package@.links =~= Seq::empty());
        assert(package@.excludes =~= Seq::empty());
        assert(package@.templates =~= Seq::empty());
        package
    }
}

} // verus!
