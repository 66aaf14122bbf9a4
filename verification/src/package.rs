//! The description of one resolved package.

use vstd::prelude::*;

verus! {

/// One package as the solver resolved it.
#[derive(Clone, Debug)]
pub struct PackageMeta {
    /// Package name.
    pub name: String,
    /// Location below the mirror's base; its last component names the archive.
    pub path: String,
    /// Size of the archive in bytes.
    pub size: u64,
    /// Checksum of the archive, as the index gives it.
    pub checksum: String,
    /// Package version.
    pub version: String,
}

/// What a `PackageMeta` holds, as mathematical values.
pub struct PackageMetaView {
    pub name: Seq<char>,
    pub path: Seq<char>,
    pub size: u64,
    pub checksum: Seq<char>,
    pub version: Seq<char>,
}

impl View for PackageMeta {
    type V = PackageMetaView;

    open spec fn view(&self) -> PackageMetaView {
        PackageMetaView {
            name: self.name@,
            path: self.path@,
            size: self.size,
            checksum: self.checksum@,
            version: self.version@,
        }
    }
}

/// The views of a sequence of packages.
pub open spec fn metas(packages: Seq<PackageMeta>) -> Seq<PackageMetaView> {
    packages.map_values(|p: PackageMeta| p@)
}

impl PackageMeta {
    /// Whether `self` and `other` describe the same package: all five
    /// attributes agree.
    pub fn same_as(&self, other: &PackageMeta) -> (same: bool)
        ensures
            same == (self@ == other@),
    {
        self.name == other.name && self.path == other.path && self.size == other.size
            && self.checksum == other.checksum && self.version == other.version
    }

    /// A copy of `self`.
    pub fn duplicate(&self) -> (copy: PackageMeta)
        ensures
            copy@ == self@,
    {
        PackageMeta {
            name: self.name.clone(),
            path: self.path.clone(),
            size: self.size,
            checksum: self.checksum.clone(),
            version: self.version.clone(),
        }
    }
}

} // verus!
