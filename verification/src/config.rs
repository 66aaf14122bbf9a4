//! What a run is asked to install, and for which architectures.

use crate::text::texts;
use vstd::prelude::*;

verus! {

/// The mirror that is used where none is given.
pub const DEFAULT_MIRROR: &'static str = "https://repo.aosc.io/debs";

/// The name of the architecture of packages that fit every machine.
pub const NOARCH: &'static str = "all";

/// The two package lists of a bootstrap configuration.
#[derive(Clone, Debug)]
pub struct BootstrapConfig {
    /// Packages that make the package manager itself run in the new root.
    pub stub_packages: Vec<String>,
    /// Packages that make the new root a usable system.
    pub base_packages: Vec<String>,
}

/// The names that the full resolution starts from: the stub packages, the
/// base packages, the packages named on the command line and the packages
/// named in list files, in this order.
pub open spec fn seed_names(
    stub: Seq<Seq<char>>,
    base: Seq<Seq<char>>,
    includes: Seq<Seq<char>>,
    listed: Seq<Seq<char>>,
) -> Seq<Seq<char>> {
    stub + base + includes + listed
}

/// Whether `name` is one of `names`.
pub open spec fn names_contain(names: Seq<Seq<char>>, name: Seq<char>) -> bool {
    exists|i: int| 0 <= i < names.len() && #[trigger] names[i] == name
}

/// `arches`, with the architecture `all` added at the end where it is
/// missing.
pub open spec fn arches_with_noarch(arches: Seq<Seq<char>>) -> Seq<Seq<char>> {
    if names_contain(arches, NOARCH@) {
        arches
    } else {
        arches.push(NOARCH@)
    }
}

/// The mirror to use: the one given, or the default one.
pub fn mirror_or_default(mirror: Option<String>) -> (chosen: String)
    ensures
        chosen@ == match mirror {
            Some(m) => m@,
            None => DEFAULT_MIRROR@,
        },
{
    match mirror {
        Some(m) => m,
        None => DEFAULT_MIRROR.to_owned(),
    }
}

/// Adds copies of `more` to the end of `names`.
fn extend_with(names: &mut Vec<String>, more: &[String])
    ensures
        texts(final(names)@) == texts(old(names)@) + texts(more@),
{
    let mut i: usize = 0;
    assert(texts(more@).take(0) == Seq::<Seq<char>>::empty());
    assert(texts(names@) == texts(old(names)@) + texts(more@).take(0));
    while i < more.len()
        invariant
            i <= more.len(),
            texts(names@) == texts(old(names)@) + texts(more@).take(i as int),
        decreases more.len() - i,
    {
        let ghost before = names@;
        names.push(more[i].clone());
        proof {
            assert(texts(names@) == texts(before).push(more[i as int]@));
            assert(texts(more@).take(i + 1) == texts(more@).take(i as int).push(more[i as int]@));
        }
        i = i + 1;
    }
    assert(texts(more@).take(i as int) == texts(more@));
}

/// The names that the full resolution starts from.
pub fn seed_packages(config: &BootstrapConfig, includes: &[String], listed: &[String]) -> (seed:
    Vec<String>)
    ensures
        texts(seed@) == seed_names(
            texts(config.stub_packages@),
            texts(config.base_packages@),
            texts(includes@),
            texts(listed@),
        ),
{
    let mut seed: Vec<String> = Vec::new();
    assert(texts(seed@) == Seq::<Seq<char>>::empty());
    extend_with(&mut seed, config.stub_packages.as_slice());
    extend_with(&mut seed, config.base_packages.as_slice());
    extend_with(&mut seed, includes);
    extend_with(&mut seed, listed);
    assert(Seq::<Seq<char>>::empty() + texts(config.stub_packages@) == texts(
        config.stub_packages@,
    ));
    seed
}

/// Whether `name` is one of `names`.
pub fn contains_name(names: &[String], name: &str) -> (found: bool)
    ensures
        found == names_contain(texts(names@), name@),
{
    let wanted = name.to_owned();
    let mut i: usize = 0;
    while i < names.len()
        invariant
            i <= names.len(),
            wanted@ == name@,
            forall|k: int| 0 <= k < i ==> #[trigger] texts(names@)[k] != name@,
        decreases names.len() - i,
    {
        if names[i] == wanted {
            assert(texts(names@)[i as int] == name@);
            return true;
        }
        i = i + 1;
    }
    false
}

/// The architectures to fetch indices for: those given, and `all`, which
/// is added at the end where the caller left it out.
pub fn with_noarch(arches: Vec<String>) -> (all: Vec<String>)
    ensures
        texts(all@) == arches_with_noarch(texts(arches@)),
{
    let mut all = arches;
    if !contains_name(all.as_slice(), NOARCH) {
        all.push(NOARCH.to_owned());
        assert(texts(all@) == texts(arches@).push(NOARCH@));
    }
    all
}

} // verus!
