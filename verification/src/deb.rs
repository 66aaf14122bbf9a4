//! What the extraction of a package archive has to decide.
//!
//! An archive holds three members; only the one that starts with
//! `data.tar` is unpacked. Its compression is told by its first bytes.
//! An entry is unpacked only if its path stays inside the target.

use crate::text::{chars_of, texts};
use vstd::prelude::*;

verus! {

/// A compression of the data member.
#[derive(Clone, Copy, Debug, PartialEq, Eq, Structural)]
pub enum Compression {
    Gzip,
    Xz,
    Zstd,
}

/// Why an entry is not unpacked.
#[derive(Clone, Copy, Debug, PartialEq, Eq, Structural)]
pub enum UnsafePath {
    /// The path starts at the root.
    Absolute,
    /// The path holds `..`.
    Parent,
}

/// The first bytes of a gzip stream.
pub open spec fn gzip_magic() -> Seq<u8> {
    seq![0x1fu8, 0x8bu8]
}

/// The first bytes of an xz stream.
pub open spec fn xz_magic() -> Seq<u8> {
    seq![0xfdu8, 0x37u8, 0x7au8, 0x58u8, 0x5au8, 0x00u8]
}

/// The first bytes of a zstd frame.
pub open spec fn zstd_magic() -> Seq<u8> {
    seq![0x28u8, 0xb5u8, 0x2fu8, 0xfdu8]
}

/// Whether `bytes` begins with `prefix`.
pub open spec fn begins_with<T>(whole: Seq<T>, prefix: Seq<T>) -> bool {
    whole.len() >= prefix.len() && whole.take(prefix.len() as int) == prefix
}

/// The compression that the first bytes of a stream tell, if any.
pub open spec fn compression_of(head: Seq<u8>) -> Option<Compression> {
    if begins_with(head, gzip_magic()) {
        Some(Compression::Gzip)
    } else if begins_with(head, xz_magic()) {
        Some(Compression::Xz)
    } else if begins_with(head, zstd_magic()) {
        Some(Compression::Zstd)
    } else {
        None
    }
}

/// Whether a member of this name holds the files of the package: the
/// name is `data.tar`, or `data.tar.` and a suffix.
pub open spec fn is_data_name(name: Seq<char>) -> bool {
    begins_with(name, "data.tar"@) && (name.len() == 8 || name[8] == '.')
}

/// Whether `index` is the first of `names` that is a data member.
pub open spec fn first_data_name(names: Seq<Seq<char>>, index: int) -> bool {
    &&& 0 <= index < names.len()
    &&& is_data_name(names[index])
    &&& forall|k: int| 0 <= k < index ==> !is_data_name(#[trigger] names[k])
}

/// Whether `path` holds two dots in a row.
pub open spec fn holds_parent(path: Seq<char>) -> bool {
    exists|i: int| 0 <= i < path.len() - 1 && #[trigger] path[i] == '.' && path[i + 1] == '.'
}

/// Whether an entry with this path may be unpacked, and if not, why.
pub open spec fn entry_verdict(path: Seq<char>) -> Result<(), UnsafePath> {
    if path.len() > 0 && path[0] == '/' {
        Err(UnsafePath::Absolute)
    } else if holds_parent(path) {
        Err(UnsafePath::Parent)
    } else {
        Ok(())
    }
}

fn has_prefix(head: &[u8], magic: &[u8]) -> (b: bool)
    ensures
        b == begins_with(head@, magic@),
{
    if head.len() < magic.len() {
        return false;
    }
    let mut i: usize = 0;
    while i < magic.len()
        invariant
            i <= magic.len() <= head.len(),
            forall|k: int| 0 <= k < i ==> head[k] == magic[k],
        decreases magic.len() - i,
    {
        if head[i] != magic[i] {
            assert(head@.take(magic.len() as int)[i as int] != magic@[i as int]);
            return false;
        }
        i = i + 1;
    }
    assert(head@.take(magic.len() as int) =~= magic@);
    true
}

/// The compression that the first bytes of a stream tell: gzip, xz or
/// zstd by their magic numbers, and `None` for anything else.
pub fn detect_compression(head: &[u8]) -> (found: Option<Compression>)
    ensures
        found == compression_of(head@),
{
    let gzip: [u8; 2] = [0x1f, 0x8b];
    let xz: [u8; 6] = [0xfd, 0x37, 0x7a, 0x58, 0x5a, 0x00];
    let zstd: [u8; 4] = [0x28, 0xb5, 0x2f, 0xfd];
    assert(gzip@ =~= gzip_magic());
    assert(xz@ =~= xz_magic());
    assert(zstd@ =~= zstd_magic());
    if has_prefix(head, gzip.as_slice()) {
        Some(Compression::Gzip)
    } else if has_prefix(head, xz.as_slice()) {
        Some(Compression::Xz)
    } else if has_prefix(head, zstd.as_slice()) {
        Some(Compression::Zstd)
    } else {
        None
    }
}

/// Whether a member of this name holds the files of the package.
pub fn is_data_member(name: &str) -> (b: bool)
    ensures
        b == is_data_name(name@),
{
    let chars = chars_of(name);
    let wanted = chars_of("data.tar");
    proof {
        reveal_strlit("data.tar");
    }
    if chars.len() < 8 {
        return false;
    }
    let mut i: usize = 0;
    while i < 8
        invariant
            i <= 8 <= chars.len(),
            chars@ == name@,
            wanted@ == "data.tar"@,
            wanted.len() == 8,
            forall|k: int| 0 <= k < i ==> chars[k] == wanted[k],
        decreases 8 - i,
    {
        if chars[i] != wanted[i] {
            assert(chars@.take(8)[i as int] != wanted@[i as int]);
            return false;
        }
        i = i + 1;
    }
    assert(chars@.take(8) =~= wanted@);
    chars.len() == 8 || chars[8] == '.'
}

/// The place of the data member among the members of an archive: the
/// first one with such a name, or `None` where the archive has none.
pub fn find_data_member(names: &[String]) -> (found: Option<usize>)
    ensures
        match found {
            Some(index) => first_data_name(texts(names@), index as int),
            None => forall|k: int| 0 <= k < names.len() ==> !is_data_name(#[trigger] names[k]@),
        },
{
    let mut i: usize = 0;
    while i < names.len()
        invariant
            i <= names.len(),
            forall|k: int| 0 <= k < i ==> !is_data_name(#[trigger] texts(names@)[k]),
        decreases names.len() - i,
    {
        if is_data_member(names[i].as_str()) {
            return Some(i);
        }
        i = i + 1;
    }
    assert forall|k: int| 0 <= k < names.len() implies !is_data_name(#[trigger] names[k]@) by {
        assert(texts(names@)[k] == names[k]@);
    }
    None
}

/// Whether an entry with this path may be unpacked. A path that starts
/// with `/` is refused as absolute, and otherwise one that holds `..` as
/// leading out of the target.
pub fn check_entry_path(path: &str) -> (checked: Result<(), UnsafePath>)
    ensures
        checked == entry_verdict(path@),
{
    let chars = chars_of(path);
    if chars.len() > 0 && chars[0] == '/' {
        return Err(UnsafePath::Absolute);
    }
    let mut i: usize = 1;
    while i < chars.len()
        invariant
            1 <= i,
            chars@ == path@,
            !(path@.len() > 0 && path@[0] == '/'),
            forall|k: int| 0 <= k < i - 1 ==> !(#[trigger] chars[k] == '.' && chars[k + 1] == '.'),
        decreases chars.len() - i,
    {
        if chars[i - 1] == '.' && chars[i] == '.' {
            proof {
                let k = i - 1;
                assert(path@[k] == '.' && path@[k + 1] == '.');
                assert(holds_parent(path@));
            }
            return Err(UnsafePath::Parent);
        }
        i = i + 1;
    }
    Ok(())
}

} // verus!
