use aoscbootstrap::lists::{collect_packages_from_lists, parse_package_list};

fn strings(items: &[&str]) -> Vec<String> {
    items.iter().map(|s| s.to_string()).collect()
}

#[test]
fn include_file_with_comments_and_blanks() {
    let names = parse_package_list("# header\n\nbash\n  zsh  \n#zsh\n");
    assert_eq!(names, strings(&["bash", "zsh"]));
}

#[test]
fn empty_file_gives_no_names() {
    assert_eq!(parse_package_list(""), Vec::<String>::new());
    assert_eq!(parse_package_list("\n\n\n"), Vec::<String>::new());
}

#[test]
fn last_line_needs_no_line_break() {
    assert_eq!(parse_package_list("bash\nzsh"), strings(&["bash", "zsh"]));
    assert_eq!(parse_package_list("bash"), strings(&["bash"]));
}

#[test]
fn lines_of_white_space_are_blank() {
    assert_eq!(parse_package_list("   \n\t\nbash\n \t \n"), strings(&["bash"]));
}

#[test]
fn carriage_returns_are_trimmed() {
    assert_eq!(parse_package_list("bash\r\nzsh\r\n\r\n#x\r\n"), strings(&["bash", "zsh"]));
}

#[test]
fn unicode_white_space_is_trimmed() {
    assert_eq!(
        parse_package_list("\u{a0}bash\u{2003}\n\u{3000}zsh\u{85}\n\u{1680}\n"),
        strings(&["bash", "zsh"])
    );
}

#[test]
fn zero_width_space_is_no_white_space() {
    assert_eq!(parse_package_list("\u{200b}bash\n"), strings(&["\u{200b}bash"]));
}

#[test]
fn inner_white_space_is_kept() {
    assert_eq!(parse_package_list("  foo bar  \n"), strings(&["foo bar"]));
}

#[test]
fn comment_sign_counts_only_at_line_start() {
    assert_eq!(parse_package_list("bash # shell\n"), strings(&["bash # shell"]));
    assert_eq!(parse_package_list("  #indented\n"), strings(&["#indented"]));
    assert_eq!(parse_package_list("#\n"), Vec::<String>::new());
}

#[test]
fn names_keep_source_order_and_repeats() {
    assert_eq!(
        parse_package_list("zsh\nbash\nzsh\nattr\n"),
        strings(&["zsh", "bash", "zsh", "attr"])
    );
}

#[test]
fn one_name_per_entry_line() {
    let contents = "# a\nfirst\n\n second\n#third\nfourth \n   \nfifth";
    let expected = contents
        .split('\n')
        .filter(|l| !l.starts_with('#') && !l.trim().is_empty())
        .count();
    let names = parse_package_list(contents);
    assert_eq!(names.len(), expected);
    assert_eq!(names.len(), 4);
    assert_eq!(names, strings(&["first", "second", "fourth", "fifth"]));
}

#[test]
fn reading_agrees_with_trimming_each_line() {
    let samples = [
        "",
        "a",
        "a\n",
        "\na",
        " a \n\tb\t\n",
        "#c\n d\n#e\nf\n\n",
        "x\r\ny\r\n",
        "\u{2028}p\u{2029}\n\u{205f}q\u{202f}",
        "  #k\n# l\nm#\n",
    ];
    for contents in samples {
        let expected: Vec<String> = contents
            .split('\n')
            .filter(|l| !l.starts_with('#') && !l.trim().is_empty())
            .map(|l| l.trim().to_string())
            .collect();
        assert_eq!(parse_package_list(contents), expected, "contents {:?}", contents);
    }
}

#[test]
fn trimmed_lines_round_trip() {
    let names = strings(&["bash", "coreutils", "lib c", "x#y", "dpkg"]);
    let mut file = String::new();
    for name in &names {
        file.push_str(name);
        file.push('\n');
    }
    let read = parse_package_list(&file);
    assert_eq!(read, names);
    let mut written = String::new();
    for name in &read {
        written.push_str(name);
        written.push('\n');
    }
    assert_eq!(written, file);
}

#[test]
fn several_files_are_read_in_order() {
    let files = strings(&["# first\nbash\n", "", "zsh\n  fish\n", "#only a comment\n", "bash"]);
    assert_eq!(
        collect_packages_from_lists(&files),
        strings(&["bash", "zsh", "fish", "bash"])
    );
}

#[test]
fn no_files_give_no_names() {
    assert_eq!(collect_packages_from_lists(&[]), Vec::<String>::new());
}
