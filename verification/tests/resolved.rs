use aoscbootstrap::package::PackageMeta;
use aoscbootstrap::resolved::{ResolvedSet, ResolvedSetError, SubsetError};

fn package(name: &str, path: &str) -> PackageMeta {
    PackageMeta {
        name: name.to_string(),
        path: path.to_string(),
        size: 10,
        checksum: format!("sum-of-{}", name),
        version: "1.0".to_string(),
    }
}

fn tiny_universe() -> Vec<PackageMeta> {
    vec![
        package("glibc", "pool/g/glibc_2.33_amd64.deb"),
        package("dpkg", "pool/d/dpkg_1.20_amd64.deb"),
        package("bash", "pool/b/bash_5.1_amd64.deb"),
        package("coreutils", "pool/c/coreutils_8.32_amd64.deb"),
    ]
}

#[test]
fn resolved_set_keeps_packages_and_size() {
    let set = ResolvedSet::new(tiny_universe(), 4096).unwrap();
    assert_eq!(set.packages().len(), 4);
    assert_eq!(set.packages()[1].name, "dpkg");
    assert_eq!(set.size_change(), 4096);
    assert_eq!(set.required_kb(), 4096);
}

#[test]
fn resolved_set_of_tiny_universe_has_four_filenames() {
    let set = ResolvedSet::new(tiny_universe(), 4096).unwrap();
    let names: Vec<String> = set.filenames().to_vec();
    assert_eq!(
        names,
        vec![
            "glibc_2.33_amd64.deb".to_string(),
            "dpkg_1.20_amd64.deb".to_string(),
            "bash_5.1_amd64.deb".to_string(),
            "coreutils_8.32_amd64.deb".to_string(),
        ]
    );
}

#[test]
fn filenames_of_a_resolved_set_are_distinct() {
    let set = ResolvedSet::new(tiny_universe(), 0).unwrap();
    let names = set.filenames();
    for i in 0..names.len() {
        for j in 0..names.len() {
            if i != j {
                assert_ne!(names[i], names[j]);
            }
        }
    }
}

#[test]
fn empty_set_is_valid() {
    let set = ResolvedSet::new(Vec::new(), 0).unwrap();
    assert_eq!(set.packages().len(), 0);
    assert_eq!(set.filenames().len(), 0);
}

#[test]
fn shrinking_set_needs_no_space() {
    let set = ResolvedSet::new(tiny_universe(), -512).unwrap();
    assert_eq!(set.size_change(), -512);
    assert_eq!(set.required_kb(), 0);
    let set = ResolvedSet::new(tiny_universe(), i64::MIN).unwrap();
    assert_eq!(set.required_kb(), 0);
    let set = ResolvedSet::new(tiny_universe(), i64::MAX).unwrap();
    assert_eq!(set.required_kb(), i64::MAX as u64);
}

#[test]
fn package_without_filename_is_refused() {
    let mut packages = tiny_universe();
    packages.insert(2, package("odd", "pool/odd/.."));
    packages.push(package("none", ""));
    match ResolvedSet::new(packages, 1) {
        Err(e) => assert_eq!(e, ResolvedSetError::Unnamed { index: 2 }),
        Ok(_) => panic!("accepted a package without a file name"),
    }
}

#[test]
fn shared_filename_is_refused() {
    let mut packages = tiny_universe();
    packages.push(package("bash-again", "pool/other/dir/bash_5.1_amd64.deb"));
    packages.push(package("glibc-again", "glibc_2.33_amd64.deb"));
    match ResolvedSet::new(packages, 1) {
        Err(e) => assert_eq!(e, ResolvedSetError::Clash { first: 2, second: 4 }),
        Ok(_) => panic!("accepted two packages with one file name"),
    }
}

#[test]
fn missing_filename_is_reported_before_a_clash() {
    let packages = vec![
        package("a", "x/a.deb"),
        package("b", "y/a.deb"),
        package("c", "/"),
    ];
    match ResolvedSet::new(packages, 1) {
        Err(e) => assert_eq!(e, ResolvedSetError::Unnamed { index: 2 }),
        Ok(_) => panic!("accepted a package without a file name"),
    }
}

#[test]
fn same_name_under_different_spellings_clashes() {
    let packages = vec![package("a", "pool/a.deb"), package("b", "other//a.deb/.")];
    match ResolvedSet::new(packages, 1) {
        Err(e) => assert_eq!(e, ResolvedSetError::Clash { first: 0, second: 1 }),
        Ok(_) => panic!("accepted two packages with one file name"),
    }
}

#[test]
fn stub_within_full_is_accepted() {
    let full = ResolvedSet::new(tiny_universe(), 4096).unwrap();
    let stub = ResolvedSet::new(
        vec![tiny_universe().remove(1), tiny_universe().remove(0)],
        1024,
    )
    .unwrap();
    assert_eq!(stub.check_within(&full), Ok(()));
    assert_eq!(full.check_within(&full), Ok(()));
    let empty = ResolvedSet::new(Vec::new(), 0).unwrap();
    assert_eq!(empty.check_within(&full), Ok(()));
}

#[test]
fn stub_outside_full_is_refused() {
    let full = ResolvedSet::new(tiny_universe(), 4096).unwrap();
    let stub = ResolvedSet::new(
        vec![
            package("dpkg", "pool/d/dpkg_1.20_amd64.deb"),
            package("tar", "pool/t/tar_1.34_amd64.deb"),
            package("xz", "pool/x/xz_5.2_amd64.deb"),
        ],
        1024,
    )
    .unwrap();
    assert_eq!(stub.check_within(&full), Err(SubsetError { index: 1 }));
    assert_eq!(full.check_within(&stub), Err(SubsetError { index: 0 }));
}

#[test]
fn another_version_is_not_the_same_package() {
    let full = ResolvedSet::new(tiny_universe(), 4096).unwrap();
    let mut newer = package("dpkg", "pool/d/dpkg_1.20_amd64.deb");
    newer.version = "1.21".to_string();
    let stub = ResolvedSet::new(vec![newer], 1024).unwrap();
    assert_eq!(stub.check_within(&full), Err(SubsetError { index: 0 }));
}

#[test]
fn packages_are_compared_attribute_by_attribute() {
    let a = package("dpkg", "pool/d/dpkg.deb");
    assert!(a.same_as(&a.duplicate()));
    let mut b = a.duplicate();
    b.size = 11;
    assert!(!a.same_as(&b));
    let mut c = a.duplicate();
    c.checksum = "other".to_string();
    assert!(!a.same_as(&c));
    let mut d = a.duplicate();
    d.path = "pool/d/./dpkg.deb".to_string();
    assert!(!a.same_as(&d));
    let mut e = a.duplicate();
    e.name = "dpkg2".to_string();
    assert!(!a.same_as(&e));
}
