use aoscbootstrap::script::{guest_command, include_extra_scripts, install_script, ExtraScript};

fn strings(items: &[&str]) -> Vec<String> {
    items.iter().map(|s| s.to_string()).collect()
}

fn text(bytes: &[u8]) -> String {
    String::from_utf8(bytes.to_vec()).unwrap()
}

#[test]
fn script_installs_every_archive_in_order() {
    let names = strings(&["glibc_2.33.deb", "dpkg_1.20.deb", "bash_5.1.deb", "coreutils_8.32.deb"]);
    let script = text(&install_script(&names, false));
    assert_eq!(
        script,
        "#!/bin/bash -e\necho 'Installing packages ...';\ndpkg --force-depends --install \
         /var/cache/apt/archives/glibc_2.33.deb /var/cache/apt/archives/dpkg_1.20.deb \
         /var/cache/apt/archives/bash_5.1.deb /var/cache/apt/archives/coreutils_8.32.deb"
    );
    let mut last = 0;
    for name in &names {
        let at = script.find(name.as_str()).unwrap();
        assert!(at > last);
        last = at;
    }
}

#[test]
fn clean_up_empties_the_cache_after_the_installation() {
    let names = strings(&["dpkg.deb"]);
    let plain = text(&install_script(&names, false));
    let cleaning = text(&install_script(&names, true));
    assert_eq!(
        cleaning,
        format!("{}\necho 'Cleaning up ...';\nrm -f /var/cache/apt/archives/*.deb", plain)
    );
    assert!(cleaning.find("rm -f").unwrap() > cleaning.find("dpkg.deb").unwrap());
    assert!(!plain.contains("rm -f"));
}

#[test]
fn script_without_archives() {
    assert_eq!(
        text(&install_script(&[], false)),
        "#!/bin/bash -e\necho 'Installing packages ...';\ndpkg --force-depends --install"
    );
}

#[test]
fn names_outside_ascii_are_written_as_utf8() {
    let names = strings(&["パッケージ.deb"]);
    let script = install_script(&names, false);
    assert!(text(&script).ends_with(" /var/cache/apt/archives/パッケージ.deb"));
}

#[test]
fn no_extra_scripts_add_nothing() {
    let mut output = b"start".to_vec();
    include_extra_scripts(None, &mut output);
    assert_eq!(output, b"start".to_vec());
}

#[test]
fn empty_list_of_extra_scripts_adds_the_announcement() {
    let mut output = b"start".to_vec();
    include_extra_scripts(Some(&[]), &mut output);
    assert_eq!(text(&output), "start\necho 'Running additional scripts ...';");
}

#[test]
fn extra_scripts_follow_their_banners_in_order() {
    let scripts = vec![
        ExtraScript { path: "scripts/one.sh".to_string(), content: b"echo one\n".to_vec() },
        ExtraScript { path: "/abs/two.sh".to_string(), content: b"exit 1".to_vec() },
        ExtraScript { path: "empty.sh".to_string(), content: Vec::new() },
    ];
    let mut output = b"#!/bin/bash -e\ninstall".to_vec();
    include_extra_scripts(Some(&scripts), &mut output);
    assert_eq!(
        text(&output),
        "#!/bin/bash -e\ninstall\necho 'Running additional scripts ...';\
         \n# === scripts/one.sh\necho one\n\
         \n# === /abs/two.sh\nexit 1\
         \n# === empty.sh\n"
    );
}

#[test]
fn extra_scripts_are_copied_byte_for_byte() {
    let content: Vec<u8> = (0u8..=255).collect();
    let scripts = vec![ExtraScript { path: "bin.sh".to_string(), content: content.clone() }];
    let mut output = Vec::new();
    include_extra_scripts(Some(&scripts), &mut output);
    let head = b"\necho 'Running additional scripts ...';\n# === bin.sh\n";
    assert_eq!(&output[..head.len()], &head[..]);
    assert_eq!(&output[head.len()..], &content[..]);
}

#[test]
fn guest_runs_the_script_by_its_file_name() {
    assert_eq!(
        guest_command("/mnt/target/.tmpAbC123.sh"),
        Some(strings(&["bash", "-e", ".tmpAbC123.sh"]))
    );
    assert_eq!(guest_command("install.sh"), Some(strings(&["bash", "-e", "install.sh"])));
}

#[test]
fn path_without_file_name_gives_no_command() {
    assert_eq!(guest_command("/mnt/target/.."), None);
    assert_eq!(guest_command("/"), None);
    assert_eq!(guest_command(""), None);
}
