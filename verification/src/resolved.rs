//! The result of one dependency resolution.
//!
//! A resolved set is the solver's ordered package list together with the
//! projected change of installed size. Archives are cached under the file
//! name of each package's path, so a set is only accepted if every package
//! has a file name and no two packages share one.

use crate::archive::{all_named, collect_filenames, file_name, first_unnamed, FilenameError};
use crate::package::PackageMeta;
use vstd::prelude::*;

verus! {

/// Whether every package has a file name and no two have the same.
pub open spec fn unique_file_names(packages: Seq<PackageMeta>) -> bool {
    &&& all_named(packages)
    &&& forall|i: int, j: int|
        0 <= i < j < packages.len() ==> file_name(#[trigger] packages[i].path@) != file_name(
            #[trigger] packages[j].path@,
        )
}

/// Whether `packages[first]` and `packages[second]` are the first clash of
/// file names: `second` is the earliest package that repeats the name of
/// an earlier one, and `first` is the earliest package with that name.
pub open spec fn first_clash(packages: Seq<PackageMeta>, first: int, second: int) -> bool {
    &&& 0 <= first < second < packages.len()
    &&& file_name(packages[first].path@) == file_name(packages[second].path@)
    &&& unique_file_names(packages.take(second))
    &&& forall|k: int|
        0 <= k < first ==> file_name(#[trigger] packages[k].path@) != file_name(
            packages[second].path@,
        )
}

/// Whether some package of `full` equals `package` in every attribute.
pub open spec fn contains_package(full: Seq<PackageMeta>, package: PackageMeta) -> bool {
    exists|j: int| 0 <= j < full.len() && (#[trigger] full[j])@ == package@
}

/// Whether every package of `stub` is also in `full`.
pub open spec fn is_subset(stub: Seq<PackageMeta>, full: Seq<PackageMeta>) -> bool {
    forall|i: int| 0 <= i < stub.len() ==> contains_package(full, #[trigger] stub[i])
}

/// Why a package list is not a resolved set.
#[derive(Clone, Copy, Debug, PartialEq, Eq, Structural)]
pub enum ResolvedSetError {
    /// The path of the package at `index` names no file.
    Unnamed { index: usize },
    /// The packages at `first` and `second` would share one archive file.
    Clash { first: usize, second: usize },
}

/// A package of the stub set that the full set lacks.
#[derive(Clone, Copy, Debug, PartialEq, Eq, Structural)]
pub struct SubsetError {
    /// Position of the package in the stub set.
    pub index: usize,
}

/// What a `ResolvedSet` holds, as mathematical values.
pub struct ResolvedSetView {
    pub packages: Seq<PackageMeta>,
    pub size_change: int,
}

/// An ordered package list with unique archive file names, and the
/// projected change of installed size in kilobytes.
#[derive(Debug)]
pub struct ResolvedSet {
    packages: Vec<PackageMeta>,
    filenames: Vec<String>,
    size_change: i64,
}

impl View for ResolvedSet {
    type V = ResolvedSetView;

    closed spec fn view(&self) -> ResolvedSetView {
        ResolvedSetView { packages: self.packages@, size_change: self.size_change as int }
    }
}

impl ResolvedSet {
    /// Every resolved set that exists at run time is well formed.
    #[verifier::type_invariant]
    spec fn inv(&self) -> bool {
        self.wf()
    }

    /// The invariant of a resolved set: file names exist and are unique.
    pub open spec fn wf(&self) -> bool {
        &&& unique_file_names(self@.packages)
        &&& self.cache_wf()
    }

    /// The cached file names are those of the packages.
    pub closed spec fn cache_wf(&self) -> bool {
        &&& self.filenames.len() == self.packages.len()
        &&& forall|i: int|
            0 <= i < self.filenames.len() ==> file_name(self.packages[i].path@) == Some(
                #[trigger] self.filenames[i]@,
            )
    }

    /// Accepts the solver's result if it is a valid resolved set.
    ///
    /// Fails with `Unnamed` at the first package without a file name;
    /// otherwise with `Clash` at the first two packages that share one.
    pub fn new(packages: Vec<PackageMeta>, size_change: i64) -> (set: Result<
        ResolvedSet,
        ResolvedSetError,
    >)
        ensures
            match set {
                Ok(s) => {
                    &&& s.wf()
                    &&& s@.packages == packages@
                    &&& s@.size_change == size_change
                },
                Err(ResolvedSetError::Unnamed { index }) => first_unnamed(packages@, index as int),
                Err(ResolvedSetError::Clash { first, second }) => {
                    &&& all_named(packages@)
                    &&& first_clash(packages@, first as int, second as int)
                },
            },
            set is Ok <==> unique_file_names(packages@),
    {
        let filenames = match collect_filenames(packages.as_slice()) {
            Ok(names) => names,
            Err(FilenameError { index }) => {
                return Err(ResolvedSetError::Unnamed { index });
            },
        };
        let n = filenames.len();
        let mut second: usize = 0;
        while second < n
            invariant
                n == filenames.len() == packages.len(),
                second <= n,
                all_named(packages@),
                forall|i: int|
                    0 <= i < n ==> file_name(packages[i].path@) == Some(#[trigger] filenames[i]@),
                unique_file_names(packages@.take(second as int)),
            decreases n - second,
        {
            let mut first: usize = 0;
            while first < second
                invariant
                    n == filenames.len() == packages.len(),
                    first <= second < n,
                    all_named(packages@),
                    unique_file_names(packages@.take(second as int)),
                    forall|i: int|
                        0 <= i < n ==> file_name(packages[i].path@) == Some(
                            #[trigger] filenames[i]@,
                        ),
                    forall|k: int|
                        0 <= k < first ==> file_name(#[trigger] packages[k].path@) != file_name(
                            packages[second as int].path@,
                        ),
                decreases second - first,
            {
                if filenames[first] == filenames[second] {
                    proof {
                        assert(filenames[first as int]@ == filenames[second as int]@);
                        assert(!unique_file_names(packages@));
                    }
                    return Err(ResolvedSetError::Clash { first, second });
                }
                first = first + 1;
            }
            proof {
                let shorter = packages@.take(second as int);
                let longer = packages@.take(second + 1);
                assert forall|i: int, j: int| 0 <= i < j < longer.len() implies file_name(
                    #[trigger] longer[i].path@,
                ) != file_name(#[trigger] longer[j].path@) by {
                    if j < second {
                        assert(shorter[i] == longer[i] && shorter[j] == longer[j]);
                    }
                }
            }
            second = second + 1;
        }
        assert(packages@.take(n as int) == packages@);
        Ok(ResolvedSet { packages, filenames, size_change })
    }

    /// The packages, in the solver's order. Each has an archive file
    /// name, and no two have the same.
    pub fn packages(&self) -> (packages: &[PackageMeta])
        ensures
            packages@ == self@.packages,
            unique_file_names(packages@),
    {
        proof {
            use_type_invariant(self);
        }
        self.packages.as_slice()
    }

    /// The projected change of installed size, in kilobytes.
    pub fn size_change(&self) -> (kb: i64)
        ensures
            kb == self@.size_change,
    {
        self.size_change
    }

    /// The kilobytes that installing this set needs: the projected change
    /// of installed size, or 0 where the solver projects a net shrinkage.
    pub fn required_kb(&self) -> (kb: u64)
        ensures
            kb == if self@.size_change > 0 {
                self@.size_change
            } else {
                0
            },
    {
        if self.size_change > 0 {
            self.size_change as u64
        } else {
            0
        }
    }

    /// The archive file name of each package, in the solver's order. No
    /// two of them are equal.
    pub fn filenames(&self) -> (names: &[String])
        ensures
            names.len() == self@.packages.len(),
            forall|i: int|
                0 <= i < names.len() ==> file_name(self@.packages[i].path@) == Some(
                    #[trigger] names[i]@,
                ),
            forall|i: int, j: int| 0 <= i < j < names.len() ==> names[i]@ != names[j]@,
    {
        proof {
            use_type_invariant(self);
        }
        self.filenames.as_slice()
    }

    /// Checks that every package of `self`, the stub set, is in `full`.
    ///
    /// Fails at the first package of `self` that `full` lacks.
    pub fn check_within(&self, full: &ResolvedSet) -> (checked: Result<(), SubsetError>)
        ensures
            match checked {
                Ok(()) => is_subset(self@.packages, full@.packages),
                Err(e) => {
                    &&& 0 <= e.index < self@.packages.len()
                    &&& !contains_package(full@.packages, self@.packages[e.index as int])
                    &&& is_subset(self@.packages.take(e.index as int), full@.packages)
                },
            },
    {
        let mut i: usize = 0;
        while i < self.packages.len()
            invariant
                i <= self.packages.len(),
                is_subset(self@.packages.take(i as int), full@.packages),
            decreases self.packages.len() - i,
        {
            let mut found = false;
            let mut j: usize = 0;
            while j < full.packages.len() && !found
                invariant
                    i < self.packages.len(),
                    j <= full.packages.len(),
                    found ==> contains_package(full@.packages, self@.packages[i as int]),
                    !found ==> forall|k: int|
                        0 <= k < j ==> (#[trigger] full@.packages[k])@ != self@.packages[i as int]@,
                decreases full.packages.len() - j + if found { 0int } else { 1int },
            {
                if full.packages[j].same_as(&self.packages[i]) {
                    found = true;
                } else {
                    j = j + 1;
                }
            }
            if !found {
                return Err(SubsetError { index: i });
            }
            proof {
                let shorter = self@.packages.take(i as int);
                let longer = self@.packages.take(i + 1);
                assert forall|k: int| 0 <= k < longer.len() implies contains_package(
                    full@.packages,
                    #[trigger] longer[k],
                ) by {
                    if k < i {
                        assert(shorter[k] == longer[k]);
                    }
                }
            }
            i = i + 1;
        }
        assert(self@.packages.take(i as int) == self@.packages);
        Ok(())
    }
}

/// In a valid resolved set, two different positions never have the same
/// archive file name.
pub proof fn lemma_file_names_unique(set: ResolvedSet, i: int, j: int)
    requires
        set.wf(),
        0 <= i < set@.packages.len(),
        0 <= j < set@.packages.len(),
        i != j,
    ensures
        file_name(set@.packages[i].path@) is Some,
        file_name(set@.packages[j].path@) is Some,
        file_name(set@.packages[i].path@) != file_name(set@.packages[j].path@),
{
    if i < j {
        assert(file_name(set@.packages[i].path@) != file_name(set@.packages[j].path@));
    } else {
        assert(file_name(set@.packages[j].path@) != file_name(set@.packages[i].path@));
    }
}

} // verus!
