//! Package lists: text files that name one package per line.
//!
//! A line that begins with `#` is a comment. A line that holds nothing but
//! white space is blank. Every other line names a package: the line
//! without its leading and trailing white space.

use crate::text::{
    chars_of, free_of, join_terminated, lemma_split_join_terminated, lemma_split_pieces, split,
    texts, trim, trim_bounds,
};
use vstd::prelude::*;

verus! {

/// Whether `line` is a comment.
pub open spec fn is_comment(line: Seq<char>) -> bool {
    line.len() > 0 && line[0] == '#'
}

/// Whether `line` names a package.
pub open spec fn is_entry_line(line: Seq<char>) -> bool {
    !is_comment(line) && trim(line).len() > 0
}

/// The package names on `lines`, in order.
pub open spec fn entries_of(lines: Seq<Seq<char>>) -> Seq<Seq<char>> {
    lines.filter(|l: Seq<char>| is_entry_line(l)).map_values(|l: Seq<char>| trim(l))
}

/// The package names that a list file with these contents gives.
pub open spec fn package_list(contents: Seq<char>) -> Seq<Seq<char>> {
    entries_of(split(contents, '\n'))
}

/// The package names of several list files, file after file.
pub open spec fn package_lists(files: Seq<Seq<char>>) -> Seq<Seq<char>>
    decreases files.len(),
{
    if files.len() == 0 {
        Seq::<Seq<char>>::empty()
    } else {
        package_lists(files.drop_last()) + package_list(files.last())
    }
}

/// Whether `name` can stand on a line of its own and be read back
/// unchanged: it is not empty, has no white space at either end, does not
/// begin with `#` and holds no line break.
pub open spec fn is_plain_name(name: Seq<char>) -> bool {
    &&& name.len() > 0
    &&& trim(name) == name
    &&& name[0] != '#'
    &&& free_of(name, '\n')
}

/// One more line adds its name if it has one, and nothing otherwise.
pub proof fn lemma_entries_push(lines: Seq<Seq<char>>, line: Seq<char>)
    ensures
        entries_of(lines.push(line)) == if is_entry_line(line) {
            entries_of(lines).push(trim(line))
        } else {
            entries_of(lines)
        },
{
    let pred = |l: Seq<char>| is_entry_line(l);
    reveal(Seq::filter);
    assert(lines.push(line).drop_last() == lines);
    assert(lines.push(line).filter(pred) == if pred(line) {
        lines.filter(pred).push(line)
    } else {
        lines.filter(pred)
    });
}

/// One file alone gives what its contents give.
pub proof fn lemma_single_list(contents: Seq<char>)
    ensures
        package_lists(seq![contents]) == package_list(contents),
{
    let files = seq![contents];
    assert(files.drop_last() == Seq::<Seq<char>>::empty());
    assert(package_lists(files.drop_last()) == Seq::<Seq<char>>::empty());
    assert(Seq::<Seq<char>>::empty() + package_list(contents) == package_list(contents));
}

/// A list file gives one name for each line that is neither a comment nor
/// blank: the trimmed line, in the order of the lines.
pub proof fn lemma_package_list_entries(contents: Seq<char>)
    ensures
        ({
            let named = split(contents, '\n').filter(|l: Seq<char>| is_entry_line(l));
            let names = package_lists(seq![contents]);
            &&& names.len() == named.len()
            &&& forall|k: int| 0 <= k < named.len() ==> #[trigger] names[k] == trim(named[k])
        }),
{
    lemma_single_list(contents);
}

/// Writing plain names one per line and reading the file gives the names
/// back.
pub proof fn lemma_package_list_roundtrip(names: Seq<Seq<char>>)
    requires
        forall|k: int| 0 <= k < names.len() ==> is_plain_name(#[trigger] names[k]),
    ensures
        package_lists(seq![join_terminated(names, '\n')]) == names,
        join_terminated(package_lists(seq![join_terminated(names, '\n')]), '\n')
            == join_terminated(names, '\n'),
{
    lemma_single_list(join_terminated(names, '\n'));
    lemma_split_join_terminated(names, '\n');
    lemma_entries_plain(names);
    lemma_entries_push(names, Seq::<char>::empty());
}

/// Lines that are plain names are read as they stand.
pub proof fn lemma_entries_plain(names: Seq<Seq<char>>)
    requires
        forall|k: int| 0 <= k < names.len() ==> is_plain_name(#[trigger] names[k]),
    ensures
        entries_of(names) == names,
    decreases names.len(),
{
    if names.len() == 0 {
        reveal(Seq::filter);
        assert(entries_of(names) == names);
    } else {
        let init = names.drop_last();
        assert(init.push(names.last()) == names);
        lemma_entries_plain(init);
        lemma_entries_push(init, names.last());
        assert(is_plain_name(names[names.len() - 1]));
    }
}

/// Reads the line `chars[start..end]` and adds its name, if it has one,
/// to `names`.
fn read_line(contents: &str, chars: &Vec<char>, start: usize, end: usize, names: &mut Vec<String>)
    requires
        chars@ == contents@,
        start <= end <= chars.len(),
    ensures
        texts(final(names)@) == if is_entry_line(chars@.subrange(start as int, end as int)) {
            texts(old(names)@).push(trim(chars@.subrange(start as int, end as int)))
        } else {
            texts(old(names)@)
        },
{
    let ghost line = chars@.subrange(start as int, end as int);
    if start < end && chars[start] == '#' {
        assert(line[0] == chars@[start as int]);
    } else {
        if start < end {
            assert(line[0] == chars@[start as int]);
        }
        let (a, b) = trim_bounds(chars, start, end);
        if a < b {
            let name = contents.substring_char(a, b).to_owned();
            names.push(name);
            assert(texts(names@) == texts(old(names)@).push(trim(line)));
        }
    }
}

/// The package names that a list file with these contents gives.
pub fn parse_package_list(contents: &str) -> (names: Vec<String>)
    ensures
        texts(names@) == package_list(contents@),
{
    let chars = chars_of(contents);
    let n = chars.len();
    let mut names: Vec<String> = Vec::new();
    let mut start: usize = 0;
    let mut i: usize = 0;
    proof {
        reveal(Seq::filter);
        assert(split(chars@.take(0), '\n').drop_last() == Seq::<Seq<char>>::empty());
        assert(texts(names@) == entries_of(Seq::<Seq<char>>::empty()));
    }
    while i < n
        invariant
            n == chars.len(),
            chars@ == contents@,
            start <= i <= n,
            split(chars@.take(i as int), '\n').len() >= 1,
            split(chars@.take(i as int), '\n').last() == chars@.subrange(start as int, i as int),
            texts(names@) == entries_of(split(chars@.take(i as int), '\n').drop_last()),
        decreases n - i,
    {
        let ghost before = split(chars@.take(i as int), '\n');
        proof {
            let next = chars@.take(i + 1);
            assert(next.drop_last() == chars@.take(i as int));
            assert(next.last() == chars@[i as int]);
            lemma_split_pieces(next, '\n');
        }
        if chars[i] == '\n' {
            proof {
                assert(before.drop_last().push(before.last()) == before);
                lemma_entries_push(before.drop_last(), before.last());
                assert(before.push(Seq::<char>::empty()).drop_last() == before);
            }
            read_line(contents, &chars, start, i, &mut names);
            start = i + 1;
            assert(chars@.subrange(start as int, start as int) == Seq::<char>::empty());
        } else {
            proof {
                let grown = before.drop_last().push(before.last().push(chars@[i as int]));
                assert(grown.drop_last() == before.drop_last());
                assert(before.last().push(chars@[i as int]) == chars@.subrange(
                    start as int,
                    i + 1,
                ));
            }
        }
        i = i + 1;
    }
    proof {
        assert(chars@.take(n as int) == chars@);
        let lines = split(chars@, '\n');
        assert(lines.drop_last().push(lines.last()) == lines);
        lemma_entries_push(lines.drop_last(), lines.last());
    }
    read_line(contents, &chars, start, n, &mut names);
    names
}

/// The package names of several list files, given by their contents, file
/// after file.
pub fn collect_packages_from_lists(files: &[String]) -> (packages: Vec<String>)
    ensures
        texts(packages@) == package_lists(texts(files@)),
{
    let mut packages: Vec<String> = Vec::new();
    let mut i: usize = 0;
    assert(texts(files@).take(0) == Seq::<Seq<char>>::empty());
    assert(texts(packages@) == Seq::<Seq<char>>::empty());
    while i < files.len()
        invariant
            i <= files.len(),
            texts(packages@) == package_lists(texts(files@).take(i as int)),
        decreases files.len() - i,
    {
        let mut names = parse_package_list(files[i].as_str());
        let ghost before = packages@;
        let ghost added = names@;
        packages.append(&mut names);
        proof {
            let upto = texts(files@).take(i + 1);
            assert(upto.drop_last() == texts(files@).take(i as int));
            assert(upto.last() == files[i as int]@);
            assert(texts(before + added) == texts(before) + texts(added));
        }
        i = i + 1;
    }
    assert(texts(files@).take(i as int) == texts(files@));
    packages
}

} // verus!
