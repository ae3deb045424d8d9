//! Package references: which package is vendored, and the names derived
//! from it.

use vstd::prelude::*;

verus! {

/// Identifies one archive: a package and its version.
#[derive(Debug, Clone, PartialEq, Eq)]
pub struct PackageReference {
    pub name: String,
    pub version: String,
}

/// The mathematical value of a [`PackageReference`].
pub struct PackageView {
    pub name: Seq<char>,
    pub version: Seq<char>,
}

impl View for PackageReference {
    type V = PackageView;

    open spec fn view(&self) -> PackageView {
        PackageView { name: self.name@, version: self.version@ }
    }
}

/// Name of the pristine directory of a package: `name-version`.
pub open spec fn pristine_dir_of(package: PackageView) -> Seq<char> {
    package.name + "-"@ + package.version
}

/// Name of the cached archive of a package: `name-version.crate`.
pub open spec fn archive_file_of(package: PackageView) -> Seq<char> {
    pristine_dir_of(package) + ".crate"@
}

/// Where a registry serves the archive: `base/name/name-version.crate`.
pub open spec fn archive_url_of(base: Seq<char>, package: PackageView) -> Seq<char> {
    base + "/"@ + package.name + "/"@ + archive_file_of(package)
}

/// Name under which a cache entry is built before it takes its own name,
/// so that an entry of that name is always complete.
pub open spec fn staging_of(entry: Seq<char>) -> Seq<char> {
    entry + ".partial"@
}

impl PackageReference {
    /// Name of the directory that holds the package's pristine tree.
    pub fn pristine_dir_name(&self) -> (dir: String)
        ensures
            dir@ == pristine_dir_of(self@),
    {
        let mut dir = self.name.clone();
        dir.append("-");
        dir.append(self.version.as_str());
        dir
    }

    /// Name of the file that holds the package's archive in the cache.
    pub fn archive_file_name(&self) -> (file: String)
        ensures
            file@ == archive_file_of(self@),
    {
        let mut file = self.pristine_dir_name();
        file.append(".crate");
        file
    }

    /// The address of the package's archive at the registry `base`.
    pub fn archive_url(&self, base: &str) -> (url: String)
        ensures
            url@ == archive_url_of(base@, self@),
    {
        let mut url = base.to_owned();
        url.append("/");
        url.append(self.name.as_str());
        url.append("/");
        let file = self.archive_file_name();
        url.append(file.as_str());
        url
    }
}

/// Name under which the cache entry `entry` is built.
pub fn staging_name(entry: &str) -> (name: String)
    ensures
        name@ == staging_of(entry@),
{
    let mut name = entry.to_owned();
    name.append(".partial");
    name
}

/// The registry that archives come from unless another is named.
pub fn default_registry() -> (base: String)
    ensures
        base@ == "https://static.crates.io/crates"@,
{
    String::from_str("https://static.crates.io/crates")
}

} // verus!
