//! Where things lie on the mirror, and under which names indices are kept.
//!
//! The index of a branch, component and architecture lies at
//! `{mirror}/dists/{branch}/{component}/binary-{arch}/Packages`, and the
//! archive of a package at `{mirror}/{path}`.
//!
//! An index is kept under the name that APT derives from its address, so
//! that the package manager in the new root finds it: the address without
//! its scheme and without a user name, with `%xx` for every character
//! that is not plain, and with `_` for every `/`.

use crate::text::chars_of;
use vstd::prelude::*;

verus! {

/// The component that indices are fetched for and that the sources list
/// names.
pub const COMPONENT: &'static str = "main";

/// The address of the package index of one branch, component and
/// architecture.
pub open spec fn manifest_address(
    mirror: Seq<char>,
    branch: Seq<char>,
    component: Seq<char>,
    arch: Seq<char>,
) -> Seq<char> {
    mirror + "/dists/"@ + branch + "/"@ + component + "/binary-"@ + arch + "/Packages"@
}

/// The address of the archive that lies at `path` below the mirror.
pub open spec fn archive_address(mirror: Seq<char>, path: Seq<char>) -> Seq<char> {
    mirror + "/"@ + path
}

/// The one line of the sources list: the mirror, the branch and the
/// component.
pub open spec fn sources_line(mirror: Seq<char>, branch: Seq<char>) -> Seq<char> {
    "deb "@ + mirror + " "@ + branch + " "@ + COMPONENT@ + "\n"@
}

/// The address of the package index of one branch, component and
/// architecture.
pub fn manifest_url(mirror: &str, branch: &str, component: &str, arch: &str) -> (url: String)
    ensures
        url@ == manifest_address(mirror@, branch@, component@, arch@),
{
    let mut url = mirror.to_owned();
    url.append("/dists/");
    url.append(branch);
    url.append("/");
    url.append(component);
    url.append("/binary-");
    url.append(arch);
    url.append("/Packages");
    url
}

/// The addresses of the package indices of `branch`, one for each
/// architecture, in the order of `arches`.
pub fn manifest_urls(mirror: &str, branch: &str, arches: &[String]) -> (urls: Vec<String>)
    ensures
        urls.len() == arches.len(),
        forall|i: int|
            0 <= i < urls.len() ==> (#[trigger] urls[i])@ == manifest_address(
                mirror@,
                branch@,
                COMPONENT@,
                arches[i]@,
            ),
{
    let mut urls: Vec<String> = Vec::new();
    let mut i: usize = 0;
    while i < arches.len()
        invariant
            i <= arches.len(),
            urls.len() == i,
            forall|k: int|
                0 <= k < i ==> (#[trigger] urls[k])@ == manifest_address(
                    mirror@,
                    branch@,
                    COMPONENT@,
                    arches[k]@,
                ),
        decreases arches.len() - i,
    {
        urls.push(manifest_url(mirror, branch, COMPONENT, arches[i].as_str()));
        i = i + 1;
    }
    urls
}

/// The address of the archive that lies at `path` below the mirror.
pub fn archive_url(mirror: &str, path: &str) -> (url: String)
    ensures
        url@ == archive_address(mirror@, path@),
{
    let mut url = mirror.to_owned();
    url.append("/");
    url.append(path);
    url
}

/// The contents of the sources list of the new root: one entry for the
/// mirror and the branch.
pub fn sources_list(mirror: &str, branch: &str) -> (contents: String)
    ensures
        contents@ == sources_line(mirror@, branch@),
{
    let mut contents = "deb ".to_owned();
    contents.append(mirror);
    contents.append(" ");
    contents.append(branch);
    contents.append(" ");
    contents.append(COMPONENT);
    contents.append("\n");
    contents
}

/// The part of `s` before the first `c`; all of `s` where it holds none.
pub open spec fn until(s: Seq<char>, c: char) -> Seq<char>
    decreases s.len(),
{
    if s.len() == 0 || s.first() == c {
        Seq::<char>::empty()
    } else {
        seq![s.first()] + until(s.drop_first(), c)
    }
}

/// The part of `s` after the last `c`; all of `s` where it holds none.
pub open spec fn after_last(s: Seq<char>, c: char) -> Seq<char>
    decreases s.len(),
{
    if s.len() == 0 || s.last() == c {
        Seq::<char>::empty()
    } else {
        after_last(s.drop_last(), c).push(s.last())
    }
}

/// What follows the first `://` of `url`, if it holds one.
pub open spec fn after_scheme(url: Seq<char>) -> Option<Seq<char>>
    decreases url.len(),
{
    if url.len() < 3 {
        None
    } else if url[0] == ':' && url[1] == '/' && url[2] == '/' {
        Some(url.skip(3))
    } else {
        after_scheme(url.drop_first())
    }
}

/// What a name keeps of an address without scheme: the host, without a
/// user name and password before it, and the path.
pub open spec fn kept_part(rest: Seq<char>) -> Seq<char> {
    let authority = until(rest, '/');
    after_last(authority, '@') + rest.skip(authority.len() as int)
}

/// Whether a character is written as `%xx` in a name: a control
/// character, a blank, or one of ``\|{}[]<>"^~_=!@#$%&*``.
pub open spec fn is_quoted(c: char) -> bool {
    let n = c as u32;
    ||| n <= 0x20
    ||| n >= 0x7f
    ||| c == '\\'
    ||| c == '|'
    ||| c == '{'
    ||| c == '}'
    ||| c == '['
    ||| c == ']'
    ||| c == '<'
    ||| c == '>'
    ||| c == '"'
    ||| c == '^'
    ||| c == '~'
    ||| c == '_'
    ||| c == '='
    ||| c == '!'
    ||| c == '@'
    ||| c == '#'
    ||| c == '$'
    ||| c == '%'
    ||| c == '&'
    ||| c == '*'
}

/// The hexadecimal digit for a number below 16, in lower case.
pub open spec fn hex_char(n: int) -> char {
    "0123456789abcdef"@[n]
}

/// How one character of an address is written in a name.
pub open spec fn escaped_char(c: char) -> Seq<char> {
    if is_quoted(c) {
        seq!['%', hex_char((c as u32 / 16) as int), hex_char((c as u32 % 16) as int)]
    } else if c == '/' {
        seq!['_']
    } else {
        seq![c]
    }
}

/// How a part of an address is written in a name.
pub open spec fn escaped(s: Seq<char>) -> Seq<char>
    decreases s.len(),
{
    if s.len() == 0 {
        Seq::<char>::empty()
    } else {
        escaped(s.drop_last()) + escaped_char(s.last())
    }
}

/// Whether every character of `s` is an ASCII character.
pub open spec fn all_ascii(s: Seq<char>) -> bool {
    forall|i: int| 0 <= i < s.len() ==> (#[trigger] s[i]) as u32 <= 0x7f
}

/// The name under which the index at `url` is kept. There is none where
/// the address has no scheme, or where what the name keeps of it holds a
/// character outside ASCII.
pub open spec fn list_name(url: Seq<char>) -> Option<Seq<char>> {
    match after_scheme(url) {
        Some(rest) => if all_ascii(kept_part(rest)) {
            Some(escaped(kept_part(rest)))
        } else {
            None
        },
        None => None,
    }
}

/// `until` keeps the part before a position that holds `c`, or the whole
/// text, if no earlier position holds `c`.
pub proof fn lemma_until_prefix(s: Seq<char>, c: char, k: int)
    requires
        0 <= k <= s.len(),
        forall|j: int| 0 <= j < k ==> s[j] != c,
        k == s.len() || s[k] == c,
    ensures
        until(s, c) == s.take(k),
    decreases k,
{
    if k == 0 {
        assert(s.take(0) == Seq::<char>::empty());
    } else {
        let rest = s.drop_first();
        assert forall|j: int| 0 <= j < k - 1 implies rest[j] != c by {
            assert(rest[j] == s[j + 1]);
        }
        lemma_until_prefix(rest, c, k - 1);
        assert(seq![s.first()] + rest.take(k - 1) == s.take(k));
    }
}

/// `after_last` keeps the part from a position that follows a `c`, or
/// the whole text, if no later position holds `c`.
pub proof fn lemma_after_last_suffix(s: Seq<char>, c: char, k: int)
    requires
        0 <= k <= s.len(),
        forall|j: int| k <= j < s.len() ==> s[j] != c,
        k == 0 || s[k - 1] == c,
    ensures
        after_last(s, c) == s.skip(k),
    decreases s.len() - k,
{
    if k == s.len() {
        assert(s.skip(k) == Seq::<char>::empty());
    } else {
        let init = s.drop_last();
        lemma_after_last_suffix(init, c, k);
        assert(init.skip(k).push(s.last()) == s.skip(k));
    }
}

/// A name holds no `/`, and nothing but ASCII where the address part
/// holds nothing else.
pub proof fn lemma_escaped_shape(s: Seq<char>)
    requires
        all_ascii(s),
    ensures
        all_ascii(escaped(s)),
        forall|i: int| 0 <= i < escaped(s).len() ==> #[trigger] escaped(s)[i] != '/',
    decreases s.len(),
{
    reveal_strlit("0123456789abcdef");
    if s.len() > 0 {
        lemma_escaped_shape(s.drop_last());
        let c = s.last();
        let n = c as u32;
        assert(n <= 0x7f);
        assert(0 <= n / 16 < 8 && 0 <= n % 16 < 16);
        let one = escaped_char(c);
        assert(all_ascii(one) && forall|i: int| 0 <= i < one.len() ==> #[trigger] one[i] != '/');
    }
}

/// Whether a character is written as `%xx` in a name.
pub fn needs_quoting(c: char) -> (b: bool)
    ensures
        b == is_quoted(c),
{
    let n: u32 = c as u32;
    n <= 0x20 || n >= 0x7f || c == '\\' || c == '|' || c == '{' || c == '}' || c == '[' || c == ']'
        || c == '<' || c == '>' || c == '"' || c == '^' || c == '~' || c == '_' || c == '='
        || c == '!' || c == '@' || c == '#' || c == '$' || c == '%' || c == '&' || c == '*'
}

/// The hexadecimal digit for `n`, in lower case.
fn hex_digit(n: u32) -> (digit: &'static str)
    requires
        n < 16,
    ensures
        digit@ == seq![hex_char(n as int)],
{
    proof {
        reveal_strlit("0123456789abcdef");
        reveal_strlit("0");
        reveal_strlit("1");
        reveal_strlit("2");
        reveal_strlit("3");
        reveal_strlit("4");
        reveal_strlit("5");
        reveal_strlit("6");
        reveal_strlit("7");
        reveal_strlit("8");
        reveal_strlit("9");
        reveal_strlit("a");
        reveal_strlit("b");
        reveal_strlit("c");
        reveal_strlit("d");
        reveal_strlit("e");
        reveal_strlit("f");
    }
    let digit = match n {
        0 => "0",
        1 => "1",
        2 => "2",
        3 => "3",
        4 => "4",
        5 => "5",
        6 => "6",
        7 => "7",
        8 => "8",
        9 => "9",
        10 => "a",
        11 => "b",
        12 => "c",
        13 => "d",
        14 => "e",
        _ => "f",
    };
    assert(digit@ =~= seq![hex_char(n as int)]);
    digit
}

/// The name under which the index at `url` is kept in the new root.
///
/// `None` where the address has no scheme, or where what the name keeps
/// of it holds a character outside ASCII.
pub fn list_file_name(url: &str) -> (name: Option<String>)
    ensures
        match name {
            Some(n) => list_name(url@) == Some(n@),
            None => list_name(url@) is None,
        },
{
    let chars = chars_of(url);
    let n = chars.len();
    // The first `://`.
    let mut start: usize = 0;
    let mut found = false;
    assert(url@.skip(0) == url@);
    while !found && n - start >= 3
        invariant
            start <= n == chars.len(),
            chars@ == url@,
            after_scheme(url@) == if found {
                Some(url@.skip(start as int))
            } else {
                after_scheme(url@.skip(start as int))
            },
        decreases n - start + if found { 0int } else { 1int },
    {
        let ghost tail = url@.skip(start as int);
        proof {
            assert(tail[0] == chars@[start as int]);
            assert(tail[1] == chars@[start + 1]);
            assert(tail[2] == chars@[start + 2]);
        }
        if chars[start] == ':' && chars[start + 1] == '/' && chars[start + 2] == '/' {
            found = true;
            start = start + 3;
            assert(tail.skip(3) == url@.skip(start as int));
        } else {
            start = start + 1;
            assert(tail.drop_first() == url@.skip(start as int));
        }
    }
    if !found {
        return None;
    }
    let ghost rest = url@.skip(start as int);
    // The end of the authority.
    let mut slash: usize = start;
    while slash < n && chars[slash] != '/'
        invariant
            start <= slash <= n == chars.len(),
            chars@ == url@,
            forall|j: int| start <= j < slash ==> chars@[j] != '/',
        decreases n - slash,
    {
        slash = slash + 1;
    }
    // What follows a user name.
    let mut host: usize = slash;
    while host > start && chars[host - 1] != '@'
        invariant
            start <= host <= slash <= n == chars.len(),
            chars@ == url@,
            forall|j: int| host <= j < slash ==> chars@[j] != '@',
        decreases host,
    {
        host = host - 1;
    }
    proof {
        lemma_until_prefix(rest, '/', slash - start);
        let authority = rest.take(slash - start);
        assert(authority == url@.subrange(start as int, slash as int));
        lemma_after_last_suffix(authority, '@', host - start);
        assert(authority.skip(host - start) == url@.subrange(host as int, slash as int));
        assert(rest.skip(slash - start) == url@.subrange(slash as int, n as int));
        assert(url@.subrange(host as int, slash as int) + url@.subrange(slash as int, n as int)
            == url@.subrange(host as int, n as int));
        assert(kept_part(rest) == url@.subrange(host as int, n as int));
    }
    let ghost kept = url@.subrange(host as int, n as int);
    let mut name = String::new();
    let mut i: usize = host;
    assert(kept.take(0) == Seq::<char>::empty());
    while i < n
        invariant
            host <= i <= n == chars.len(),
            chars@ == url@,
            kept == url@.subrange(host as int, n as int),
            after_scheme(url@) == Some(rest),
            kept_part(rest) == kept,
            all_ascii(kept.take(i - host)),
            name@ == escaped(kept.take(i - host)),
        decreases n - i,
    {
        let c = chars[i];
        let code: u32 = c as u32;
        proof {
            let upto = kept.take(i + 1 - host);
            assert(upto.drop_last() == kept.take(i - host));
            assert(upto.last() == c);
        }
        if code > 0x7f {
            assert(kept[i - host] == c);
            return None;
        }
        if needs_quoting(c) {
            name.append("%");
            name.append(hex_digit(code / 16));
            name.append(hex_digit(code % 16));
            proof {
                reveal_strlit("%");
                assert("%"@ + seq![hex_char((code / 16) as int)] + seq![
                    hex_char((code % 16) as int),
                ] == escaped_char(c));
            }
        } else if c == '/' {
            name.append("_");
            proof {
                reveal_strlit("_");
                assert("_"@ == escaped_char(c));
            }
        } else {
            name.append(url.substring_char(i, i + 1));
            assert(url@.subrange(i as int, i + 1) == escaped_char(c));
        }
        proof {
            let upto = kept.take(i + 1 - host);
            assert forall|j: int| 0 <= j < upto.len() implies (#[trigger] upto[j]) as u32
                <= 0x7f by {
                if j < i - host {
                    assert(kept.take(i - host)[j] == upto[j]);
                }
            }
        }
        i = i + 1;
    }
    assert(kept.take(n - host) == kept);
    Some(name)
}

} // verus!
