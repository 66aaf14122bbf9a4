//! The boundary to the guest: the new root, entered as a changed root.
//!
//! Before the guest runs, five directories of the host are bound into the
//! target. Whatever happens to the guest, they are unbound again in the
//! reverse order. The guest sees a small, known environment.

use vstd::prelude::*;

verus! {

/// How many directories are bound into the target.
pub const MOUNT_COUNT: usize = 5;

/// The search path of the guest.
pub const GUEST_PATH: &'static str = "/usr/bin:/bin:/usr/sbin:/sbin";

/// The locale of the guest.
pub const GUEST_LANG: &'static str = "C.UTF-8";

/// The front end that the package manager uses in the guest.
pub const GUEST_FRONTEND: &'static str = "noninteractive";

/// How an attempt to unbind a directory ended.
#[derive(Clone, Copy, Debug, PartialEq, Eq, Structural)]
pub enum UnmountResult {
    /// The directory is unbound.
    Unmounted,
    /// Nothing was bound there.
    NotMounted,
    /// The directory is still bound.
    Failed,
}

/// What the teardown does after one attempt.
#[derive(Clone, Copy, Debug, PartialEq, Eq, Structural)]
pub enum TeardownStep {
    /// Go on with the next directory.
    Proceed,
    /// Go on with the next directory, and report that nothing was bound.
    ReportAndProceed,
    /// Stop with an error: the target is in a dangerous state.
    Fatal,
}

/// How the guest's process ended.
#[derive(Clone, Copy, Debug, PartialEq, Eq, Structural)]
pub enum ChildStatus {
    /// It exited with this code.
    Exited(i32),
    /// This signal ended it.
    Signaled(i32),
}

/// Why a run in the guest failed.
#[derive(Clone, Copy, Debug, PartialEq, Eq, Structural)]
pub enum GuestFailure {
    /// The directory at this place of the mount list could not be unbound.
    Teardown { mount: usize },
    /// The guest's process exited with this code, which is not 0.
    Exit { code: i32 },
    /// This signal ended the guest's process.
    Signal { signal: i32 },
}

/// The directories of the host that are bound into the target, in the
/// order in which they are bound.
pub open spec fn mount_points() -> Seq<&'static str> {
    seq!["/dev", "/dev/pts", "/proc", "/sys", "/run"]
}

/// The directories to unbind when the first `mounted` of the mount points
/// are bound: those, last first.
pub open spec fn unmount_points(mounted: int) -> Seq<&'static str> {
    if mounted >= MOUNT_COUNT {
        mount_points().reverse()
    } else if mounted <= 0 {
        Seq::<&'static str>::empty()
    } else {
        mount_points().take(mounted).reverse()
    }
}

/// What the teardown does after an attempt that ended in `result`.
pub open spec fn teardown_step(result: UnmountResult) -> TeardownStep {
    match result {
        UnmountResult::Unmounted => TeardownStep::Proceed,
        UnmountResult::NotMounted => TeardownStep::ReportAndProceed,
        UnmountResult::Failed => TeardownStep::Fatal,
    }
}

/// The result of a run in the guest: a failed teardown counts before
/// anything else, then a guest that did not exit with 0.
pub open spec fn guest_result(status: ChildStatus, teardown_failure: Option<usize>) -> Result<
    (),
    GuestFailure,
> {
    match teardown_failure {
        Some(mount) => Err(GuestFailure::Teardown { mount }),
        None => match status {
            ChildStatus::Exited(code) => if code == 0 {
                Ok(())
            } else {
                Err(GuestFailure::Exit { code })
            },
            ChildStatus::Signaled(signal) => Err(GuestFailure::Signal { signal }),
        },
    }
}

/// The environment of the guest, as names and values: the search path,
/// the host's terminal type if it has one, the locale and the front end.
pub open spec fn environment(term: Option<Seq<char>>) -> Seq<(Seq<char>, Seq<char>)> {
    let head = seq![("PATH"@, GUEST_PATH@)];
    let tail = seq![("LANG"@, GUEST_LANG@), ("DEBIAN_FRONTEND"@, GUEST_FRONTEND@)];
    match term {
        Some(t) => head + seq![("TERM"@, t)] + tail,
        None => head + tail,
    }
}

/// The directories of the host that are bound into the target, in the
/// order in which they are bound.
pub fn bind_mounts() -> (points: Vec<&'static str>)
    ensures
        points@ == mount_points(),
{
    let mut points: Vec<&'static str> = Vec::new();
    points.push("/dev");
    points.push("/dev/pts");
    points.push("/proc");
    points.push("/sys");
    points.push("/run");
    assert(points@ =~= mount_points());
    points
}

/// The directories to unbind when the first `mounted` of the mount points
/// are bound: those, last first. A count above the whole list stands for
/// the whole list.
pub fn unmount_order(mounted: usize) -> (points: Vec<&'static str>)
    ensures
        points@ == unmount_points(mounted as int),
{
    let all = bind_mounts();
    let count: usize = if mounted >= MOUNT_COUNT {
        MOUNT_COUNT
    } else {
        mounted
    };
    let mut points: Vec<&'static str> = Vec::new();
    let mut left: usize = count;
    while left > 0
        invariant
            left <= count <= MOUNT_COUNT,
            all@ == mount_points(),
            points.len() == count - left,
            forall|k: int| 0 <= k < points.len() ==> #[trigger] points[k] == all[count - 1 - k],
        decreases left,
    {
        left = left - 1;
        points.push(all[left]);
    }
    proof {
        assert(mount_points().take(MOUNT_COUNT as int) == mount_points());
        assert(points@ =~= mount_points().take(count as int).reverse());
    }
    points
}

/// What the teardown does after an attempt to unbind a directory: a
/// directory where nothing was bound is reported and passed over, and one
/// that cannot be unbound ends the teardown with an error.
pub fn after_unmount(result: UnmountResult) -> (step: TeardownStep)
    ensures
        step == teardown_step(result),
{
    match result {
        UnmountResult::Unmounted => TeardownStep::Proceed,
        UnmountResult::NotMounted => TeardownStep::ReportAndProceed,
        UnmountResult::Failed => TeardownStep::Fatal,
    }
}

/// The result of a run in the guest, from how its process ended and from
/// the place of the directory, if any, that the teardown could not
/// unbind.
pub fn guest_verdict(status: ChildStatus, teardown_failure: Option<usize>) -> (verdict: Result<
    (),
    GuestFailure,
>)
    ensures
        verdict == guest_result(status, teardown_failure),
{
    match teardown_failure {
        Some(mount) => Err(GuestFailure::Teardown { mount }),
        None => match status {
            ChildStatus::Exited(code) => {
                if code == 0 {
                    Ok(())
                } else {
                    Err(GuestFailure::Exit { code })
                }
            },
            ChildStatus::Signaled(signal) => Err(GuestFailure::Signal { signal }),
        },
    }
}

/// The views of a list of names and values.
pub open spec fn pairs(env: Seq<(String, String)>) -> Seq<(Seq<char>, Seq<char>)> {
    env.map_values(|p: (String, String)| (p.0@, p.1@))
}

/// The environment of the guest. `term` is the terminal type of the
/// host, which the guest inherits.
pub fn guest_environment(term: Option<&str>) -> (env: Vec<(String, String)>)
    ensures
        pairs(env@) == environment(
            match term {
                Some(t) => Some(t@),
                None => None,
            },
        ),
{
    let mut env: Vec<(String, String)> = Vec::new();
    env.push(("PATH".to_owned(), GUEST_PATH.to_owned()));
    if let Some(t) = term {
        env.push(("TERM".to_owned(), t.to_owned()));
    }
    env.push(("LANG".to_owned(), GUEST_LANG.to_owned()));
    env.push(("DEBIAN_FRONTEND".to_owned(), GUEST_FRONTEND.to_owned()));
    assert(pairs(env@) =~= environment(
        match term {
            Some(t) => Some(t@),
            None => None,
        },
    ));
    env
}

/// Every directory that was bound is unbound, each once, and a directory
/// is unbound before those that were bound before it.
pub proof fn lemma_unmount_reverses_mount(mounted: int, k: int)
    requires
        0 <= k < mounted <= MOUNT_COUNT,
    ensures
        unmount_points(mounted).len() == mounted,
        unmount_points(mounted)[mounted - 1 - k] == mount_points()[k],
{
    assert(mount_points().take(MOUNT_COUNT as int) == mount_points());
}

} // verus!
