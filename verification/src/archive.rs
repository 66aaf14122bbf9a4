//! File names of package archives.
//!
//! An archive is kept in the cache under the last component of the
//! package's path. Paths are Unix paths: components are separated by `/`,
//! empty components and `.` components do not count, and a path whose
//! last component is `..` names no file.

use crate::package::PackageMeta;
use crate::text::{chars_of, split};
use vstd::prelude::*;

verus! {

/// Whether a path component counts: it is neither empty nor `.`.
pub open spec fn is_name_piece(piece: Seq<char>) -> bool {
    piece.len() > 0 && !(piece.len() == 1 && piece[0] == '.')
}

/// Whether a path component is `..`.
pub open spec fn is_parent_piece(piece: Seq<char>) -> bool {
    piece.len() == 2 && piece[0] == '.' && piece[1] == '.'
}

/// The last of `pieces` that counts as a component, if there is one.
pub open spec fn last_name_piece(pieces: Seq<Seq<char>>) -> Option<Seq<char>> {
    let named = pieces.filter(|p: Seq<char>| is_name_piece(p));
    if named.len() > 0 {
        Some(named.last())
    } else {
        None
    }
}

/// The file name of `path`: its last component, unless there is none or
/// it is `..`.
pub open spec fn file_name(path: Seq<char>) -> Option<Seq<char>> {
    match last_name_piece(split(path, '/')) {
        Some(piece) => if is_parent_piece(piece) {
            None
        } else {
            Some(piece)
        },
        None => None,
    }
}

/// Whether every package of `packages` has a file name.
pub open spec fn all_named(packages: Seq<PackageMeta>) -> bool {
    forall|i: int| 0 <= i < packages.len() ==> file_name(#[trigger] packages[i].path@) is Some
}

/// Whether `index` is the first package of `packages` without a file name.
pub open spec fn first_unnamed(packages: Seq<PackageMeta>, index: int) -> bool {
    &&& 0 <= index < packages.len()
    &&& file_name(packages[index].path@) is None
    &&& all_named(packages.take(index))
}

/// A package whose path names no file.
#[derive(Clone, Copy, Debug, PartialEq, Eq, Structural)]
pub struct FilenameError {
    /// Position of the package in the list that was given.
    pub index: usize,
}

/// What the extraction does next.
#[derive(Clone, Debug)]
pub enum ExtractionStep {
    /// Extract the archive `filename` of the package at `index`.
    Extract { index: usize, filename: String },
    /// Every package has been extracted.
    Finished,
}

impl FilenameError {
    /// The text of this error.
    pub fn message(&self) -> (text: String)
        ensures
            text@ == "Unable to determine package filename"@,
    {
        "Unable to determine package filename".to_owned()
    }
}

/// Adding a piece to a list makes it the last component if it counts,
/// and changes nothing otherwise.
pub proof fn lemma_last_name_piece_push(pieces: Seq<Seq<char>>, piece: Seq<char>)
    ensures
        last_name_piece(pieces.push(piece)) == if is_name_piece(piece) {
            Some(piece)
        } else {
            last_name_piece(pieces)
        },
{
    let pred = |p: Seq<char>| is_name_piece(p);
    reveal(Seq::filter);
    assert(pieces.push(piece).drop_last() == pieces);
    assert(pieces.push(piece).filter(pred) == if pred(piece) {
        pieces.filter(pred).push(piece)
    } else {
        pieces.filter(pred)
    });
}

/// The last component of a list is one of its pieces, and it counts.
pub proof fn lemma_last_name_piece_member(pieces: Seq<Seq<char>>)
    ensures
        last_name_piece(pieces) matches Some(piece) ==> is_name_piece(piece) && pieces.contains(
            piece,
        ),
    decreases pieces.len(),
{
    if pieces.len() > 0 {
        let init = pieces.drop_last();
        assert(init.push(pieces.last()) == pieces);
        lemma_last_name_piece_push(init, pieces.last());
        lemma_last_name_piece_member(init);
        if is_name_piece(pieces.last()) {
            assert(pieces[pieces.len() - 1] == pieces.last());
        } else if let Some(piece) = last_name_piece(init) {
            let k = choose|k: int| 0 <= k < init.len() && init[k] == piece;
            assert(pieces[k] == piece);
        }
    } else {
        reveal(Seq::filter);
    }
}

/// A file name is never empty, holds no `/`, and is neither `.` nor `..`.
pub proof fn lemma_file_name_shape(path: Seq<char>)
    ensures
        file_name(path) matches Some(name) ==> {
            &&& name.len() > 0
            &&& crate::text::free_of(name, '/')
            &&& is_name_piece(name)
            &&& !is_parent_piece(name)
        },
{
    let pieces = split(path, '/');
    crate::text::lemma_split_pieces(path, '/');
    lemma_last_name_piece_member(pieces);
    if let Some(piece) = last_name_piece(pieces) {
        let k = choose|k: int| 0 <= k < pieces.len() && pieces[k] == piece;
        assert(crate::text::free_of(pieces[k], '/'));
    }
}

fn counts_as_name(chars: &Vec<char>, from: usize, to: usize) -> (b: bool)
    requires
        from <= to <= chars.len(),
    ensures
        b == is_name_piece(chars@.subrange(from as int, to as int)),
{
    to > from && !(to - from == 1 && chars[from] == '.')
}

fn is_parent(chars: &Vec<char>, from: usize, to: usize) -> (b: bool)
    requires
        from <= to <= chars.len(),
    ensures
        b == is_parent_piece(chars@.subrange(from as int, to as int)),
{
    to - from == 2 && chars[from] == '.' && chars[from + 1] == '.'
}

/// The file name of `path`, or `None` where the path names no file.
pub fn file_name_of(path: &str) -> (name: Option<String>)
    ensures
        match name {
            Some(n) => file_name(path@) == Some(n@),
            None => file_name(path@) is None,
        },
{
    let chars = chars_of(path);
    let n = chars.len();
    let mut start: usize = 0;
    let mut best: Option<(usize, usize)> = None;
    let mut i: usize = 0;
    while i < n
        invariant
            n == chars.len(),
            start <= i <= n,
            split(chars@.take(i as int), '/').len() >= 1,
            split(chars@.take(i as int), '/').last() == chars@.subrange(start as int, i as int),
            match best {
                Some((a, b)) => a <= b <= i && last_name_piece(
                    split(chars@.take(i as int), '/').drop_last(),
                ) == Some(chars@.subrange(a as int, b as int)),
                None => last_name_piece(split(chars@.take(i as int), '/').drop_last()) is None,
            },
        decreases n - i,
    {
        let ghost before = split(chars@.take(i as int), '/');
        proof {
            let next = chars@.take(i + 1);
            assert(next.drop_last() == chars@.take(i as int));
            assert(next.last() == chars@[i as int]);
            crate::text::lemma_split_pieces(next, '/');
        }
        if chars[i] == '/' {
            proof {
                let done = before.drop_last();
                assert(done.push(before.last()) == before);
                lemma_last_name_piece_push(done, before.last());
                assert(before.push(Seq::<char>::empty()).drop_last() == before);
            }
            if counts_as_name(&chars, start, i) {
                best = Some((start, i));
            }
            start = i + 1;
            assert(chars@.subrange(start as int, start as int) == Seq::<char>::empty());
        } else {
            proof {
                let grown = before.drop_last().push(before.last().push(chars@[i as int]));
                assert(grown.drop_last() == before.drop_last());
                assert(before.last().push(chars@[i as int]) == chars@.subrange(
                    start as int,
                    i + 1,
                ));
            }
        }
        i = i + 1;
    }
    proof {
        assert(chars@.take(n as int) == chars@);
        let pieces = split(chars@, '/');
        assert(pieces.drop_last().push(pieces.last()) == pieces);
        lemma_last_name_piece_push(pieces.drop_last(), pieces.last());
    }
    if counts_as_name(&chars, start, n) {
        best = Some((start, n));
    }
    match best {
        Some((a, b)) => {
            if is_parent(&chars, a, b) {
                None
            } else {
                Some(path.substring_char(a, b).to_owned())
            }
        },
        None => None,
    }
}

/// The archive file name of each package, in the order given.
///
/// Fails at the first package whose path names no file.
pub fn collect_filenames(packages: &[PackageMeta]) -> (names: Result<Vec<String>, FilenameError>)
    ensures
        match names {
            Ok(v) => {
                &&& all_named(packages@)
                &&& v.len() == packages.len()
                &&& forall|i: int|
                    0 <= i < v.len() ==> file_name(packages[i].path@) == Some(#[trigger] v[i]@)
            },
            Err(e) => first_unnamed(packages@, e.index as int),
        },
{
    let mut output: Vec<String> = Vec::new();
    let mut i: usize = 0;
    while i < packages.len()
        invariant
            i <= packages.len(),
            output.len() == i,
            all_named(packages@.take(i as int)),
            forall|k: int| 0 <= k < i ==> file_name(packages[k].path@) == Some(#[trigger] output[k]@),
        decreases packages.len() - i,
    {
        match file_name_of(packages[i].path.as_str()) {
            Some(name) => {
                output.push(name);
            },
            None => {
                return Err(FilenameError { index: i });
            },
        }
        proof {
            assert forall|k: int| 0 <= k < i + 1 implies file_name(
                #[trigger] packages@.take(i + 1)[k].path@,
            ) is Some by {
                if k < i {
                    assert(packages@.take(i as int)[k] == packages@[k]);
                }
            }
        }
        i = i + 1;
    }
    assert(packages@.take(i as int) == packages@);
    Ok(output)
}

/// What the extraction does once the first `done` packages are
/// extracted: the archive of the next package, in the order given, or
/// nothing more.
///
/// Fails where the next package's path names no file; the packages
/// before it have been extracted by then.
pub fn extraction_step(packages: &[PackageMeta], done: usize) -> (step: Result<
    ExtractionStep,
    FilenameError,
>)
    ensures
        match step {
            Ok(ExtractionStep::Finished) => done >= packages.len(),
            Ok(ExtractionStep::Extract { index, filename }) => {
                &&& done < packages.len()
                &&& index == done
                &&& file_name(packages[done as int].path@) == Some(filename@)
            },
            Err(e) => {
                &&& done < packages.len()
                &&& e.index == done
                &&& file_name(packages[done as int].path@) is None
            },
        },
{
    if done >= packages.len() {
        return Ok(ExtractionStep::Finished);
    }
    match file_name_of(packages[done].path.as_str()) {
        Some(filename) => Ok(ExtractionStep::Extract { index: done, filename }),
        None => Err(FilenameError { index: done }),
    }
}

} // verus!
