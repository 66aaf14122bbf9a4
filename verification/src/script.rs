//! The script that the guest shell runs in the second stage.
//!
//! The script installs every archive of the full resolved set, in the
//! solver's order. It may then empty the archive cache, and it ends with
//! the caller's own scripts, each below a line that names its source.

use crate::archive::{file_name, file_name_of};
use crate::text::texts;
use vstd::prelude::*;
use vstd::string::StringSliceAdditionalSpecFns;
use vstd::utf8::encode_utf8;

verus! {

/// First lines of the script, up to the installer's first argument.
pub const INSTALL_HEAD: &'static str =
    "#!/bin/bash -e\necho 'Installing packages ...';\ndpkg --force-depends --install";

/// What stands before each archive name: a blank and the cache directory.
pub const ARCHIVE_PREFIX: &'static str = " /var/cache/apt/archives/";

/// The step that empties the archive cache.
pub const CLEAN_UP_STEP: &'static str =
    "\necho 'Cleaning up ...';\nrm -f /var/cache/apt/archives/*.deb";

/// The line that announces the caller's scripts.
pub const EXTRA_HEAD: &'static str = "\necho 'Running additional scripts ...';";

/// What stands before the source path of a caller's script.
pub const BANNER_HEAD: &'static str = "\n# === ";

/// The shell that runs the script.
pub const GUEST_SHELL: &'static str = "bash";

/// The flag that makes the shell stop at the first command that fails.
pub const GUEST_SHELL_FLAG: &'static str = "-e";

/// A script of the caller: where it was read from, and what it holds.
#[derive(Clone, Debug)]
pub struct ExtraScript {
    /// The path as the caller gave it.
    pub path: String,
    /// The bytes of the file.
    pub content: Vec<u8>,
}

/// One argument of the installer: a blank, and the archive name behind
/// the cache directory.
pub open spec fn archive_arg(name: Seq<char>) -> Seq<u8> {
    ARCHIVE_PREFIX.spec_bytes() + encode_utf8(name)
}

/// The installer's arguments: one for each archive name, in order.
pub open spec fn archive_args(names: Seq<Seq<char>>) -> Seq<u8>
    decreases names.len(),
{
    if names.len() == 0 {
        Seq::<u8>::empty()
    } else {
        archive_args(names.drop_last()) + archive_arg(names.last())
    }
}

/// What ends the script: the step that empties the cache, or nothing.
pub open spec fn script_tail(clean_up: bool) -> Seq<u8> {
    if clean_up {
        CLEAN_UP_STEP.spec_bytes()
    } else {
        Seq::<u8>::empty()
    }
}

/// The script that installs the archives `names` and, if `clean_up` is
/// set, empties the cache afterwards.
pub open spec fn install_script_text(names: Seq<Seq<char>>, clean_up: bool) -> Seq<u8> {
    INSTALL_HEAD.spec_bytes() + archive_args(names) + script_tail(clean_up)
}

/// The line that names the source of a caller's script.
pub open spec fn banner(path: Seq<char>) -> Seq<u8> {
    BANNER_HEAD.spec_bytes() + encode_utf8(path) + seq![0x0au8]
}

/// The caller's scripts, each below its banner, in the order given.
pub open spec fn extra_bodies(scripts: Seq<ExtraScript>) -> Seq<u8>
    decreases scripts.len(),
{
    if scripts.len() == 0 {
        Seq::<u8>::empty()
    } else {
        extra_bodies(scripts.drop_last()) + banner(scripts.last().path@) + scripts.last().content@
    }
}

/// What the caller's scripts add to the install script: nothing where
/// none were asked for, else the announcement and the scripts.
pub open spec fn extra_scripts_text(scripts: Option<Seq<ExtraScript>>) -> Seq<u8> {
    match scripts {
        Some(s) => EXTRA_HEAD.spec_bytes() + extra_bodies(s),
        None => Seq::<u8>::empty(),
    }
}

/// The command that runs the script at `name` in the guest.
pub open spec fn guest_argv(name: Seq<char>) -> Seq<Seq<char>> {
    seq![GUEST_SHELL@, GUEST_SHELL_FLAG@, name]
}

/// Adds `bytes` to the end of `output`.
fn append_bytes(output: &mut Vec<u8>, bytes: &[u8])
    ensures
        final(output)@ == old(output)@ + bytes@,
{
    let mut i: usize = 0;
    while i < bytes.len()
        invariant
            i <= bytes.len(),
            output@ == old(output)@ + bytes@.take(i as int),
        decreases bytes.len() - i,
    {
        output.push(bytes[i]);
        assert(bytes@.take(i + 1) == bytes@.take(i as int).push(bytes@[i as int]));
        i = i + 1;
    }
    assert(bytes@.take(i as int) == bytes@);
}

/// The script that installs the archives `names`, in this order, and, if
/// `clean_up` is set, empties the archive cache afterwards.
pub fn install_script(names: &[String], clean_up: bool) -> (script: Vec<u8>)
    ensures
        script@ == install_script_text(texts(names@), clean_up),
{
    let mut script: Vec<u8> = Vec::new();
    append_bytes(&mut script, INSTALL_HEAD.as_bytes());
    let mut i: usize = 0;
    assert(texts(names@).take(0) == Seq::<Seq<char>>::empty());
    while i < names.len()
        invariant
            i <= names.len(),
            script@ == INSTALL_HEAD.spec_bytes() + archive_args(texts(names@).take(i as int)),
        decreases names.len() - i,
    {
        append_bytes(&mut script, ARCHIVE_PREFIX.as_bytes());
        append_bytes(&mut script, names[i].as_str().as_bytes());
        proof {
            let upto = texts(names@).take(i + 1);
            assert(upto.drop_last() == texts(names@).take(i as int));
            assert(upto.last() == names[i as int]@);
        }
        i = i + 1;
    }
    assert(texts(names@).take(i as int) == texts(names@));
    if clean_up {
        append_bytes(&mut script, CLEAN_UP_STEP.as_bytes());
    }
    script
}

/// Adds the caller's scripts to the install script in `output`.
///
/// Where scripts were asked for, the announcement is written even if the
/// list is empty; each script follows below a banner with its path.
pub fn include_extra_scripts(extra_scripts: Option<&[ExtraScript]>, output: &mut Vec<u8>)
    ensures
        final(output)@ == old(output)@ + extra_scripts_text(
            match extra_scripts {
                Some(s) => Some(s@),
                None => None,
            },
        ),
{
    if let Some(scripts) = extra_scripts {
        append_bytes(output, EXTRA_HEAD.as_bytes());
        let mut i: usize = 0;
        assert(scripts@.take(0) == Seq::<ExtraScript>::empty());
        while i < scripts.len()
            invariant
                i <= scripts.len(),
                output@ == old(output)@ + EXTRA_HEAD.spec_bytes() + extra_bodies(
                    scripts@.take(i as int),
                ),
            decreases scripts.len() - i,
        {
            append_bytes(output, BANNER_HEAD.as_bytes());
            append_bytes(output, scripts[i].path.as_str().as_bytes());
            output.push(0x0au8);
            append_bytes(output, scripts[i].content.as_slice());
            proof {
                let upto = scripts@.take(i + 1);
                assert(upto.drop_last() == scripts@.take(i as int));
                assert(upto.last() == scripts@[i as int]);
            }
            i = i + 1;
        }
        assert(scripts@.take(i as int) == scripts@);
    }
}

/// The command that runs the install script in the guest: the shell, its
/// flag, and the file name of the script, which lies in the guest's root.
///
/// `None` where `script_path` names no file.
pub fn guest_command(script_path: &str) -> (argv: Option<Vec<String>>)
    ensures
        match argv {
            Some(v) => file_name(script_path@) matches Some(name) && texts(v@) == guest_argv(name),
            None => file_name(script_path@) is None,
        },
{
    match file_name_of(script_path) {
        Some(name) => {
            let mut argv: Vec<String> = Vec::new();
            argv.push(GUEST_SHELL.to_owned());
            argv.push(GUEST_SHELL_FLAG.to_owned());
            argv.push(name);
            assert(texts(argv@) == guest_argv(name@));
            Some(argv)
        },
        None => None,
    }
}

/// The arguments for two lists of names, one after the other, are the
/// arguments for the joined list.
pub proof fn lemma_archive_args_concat(first: Seq<Seq<char>>, second: Seq<Seq<char>>)
    ensures
        archive_args(first + second) == archive_args(first) + archive_args(second),
    decreases second.len(),
{
    if second.len() == 0 {
        assert(first + second == first);
    } else {
        lemma_archive_args_concat(first, second.drop_last());
        assert((first + second).drop_last() == first + second.drop_last());
        assert((first + second).last() == second.last());
    }
}

/// The installer gets the archives in the order of the names: the
/// argument for a name stands right behind the script for the names
/// before it, and the arguments for the names after it follow.
pub proof fn lemma_script_argument(names: Seq<Seq<char>>, clean_up: bool, i: int)
    requires
        0 <= i < names.len(),
    ensures
        install_script_text(names, clean_up) == install_script_text(names.take(i), false)
            + archive_arg(names[i]) + archive_args(names.skip(i + 1)) + script_tail(clean_up),
{
    let upto = names.take(i + 1);
    assert(upto.drop_last() == names.take(i));
    assert(upto.last() == names[i]);
    assert(upto + names.skip(i + 1) == names);
    lemma_archive_args_concat(upto, names.skip(i + 1));
}

/// Without the clean-up step the script ends with its last argument, and
/// with it the step comes last: the cache is emptied only after the
/// installation.
pub proof fn lemma_clean_up_comes_last(names: Seq<Seq<char>>)
    ensures
        install_script_text(names, true) == install_script_text(names, false)
            + CLEAN_UP_STEP.spec_bytes(),
{
}

} // verus!
