//! What the download of the archives has to decide.
//!
//! An archive that is already in the cache with the expected size and
//! checksum is not fetched again. A fetch that fails for a passing
//! reason is tried again after a pause that doubles each time, three
//! times in all; a wrong checksum is final at once.

use crate::package::PackageMeta;
use vstd::prelude::*;

verus! {

/// How often one archive is tried at most.
pub const MAX_ATTEMPTS: u32 = 3;

/// The pause after the first failed attempt, in milliseconds. Each
/// further failed attempt doubles the pause that follows it.
pub const FIRST_PAUSE_MILLIS: u64 = 1000;

/// What is known of a file in the cache.
#[derive(Clone, Debug)]
pub struct CachedFile {
    /// Its size in bytes.
    pub size: u64,
    /// Its checksum, written as the index writes checksums.
    pub checksum: String,
}

/// Why a fetch failed.
#[derive(Clone, Copy, Debug, PartialEq, Eq, Structural)]
pub enum FetchFailure {
    /// The network failed in a way that may pass.
    Transient,
    /// The mirror refused for good.
    Permanent,
    /// The file arrived, but its checksum is wrong.
    ChecksumMismatch,
}

/// What follows a failed fetch.
#[derive(Clone, Copy, Debug, PartialEq, Eq, Structural)]
pub enum RetryDecision {
    /// Try again after this pause.
    RetryAfter { millis: u64 },
    /// The download has failed.
    GiveUp,
}

/// Whether a file in the cache is the archive of `package`.
pub open spec fn is_archive_of(file: CachedFile, package: PackageMeta) -> bool {
    file.size == package.size && file.checksum@ == package.checksum@
}

/// Whether `package` must be fetched, given what the cache holds under
/// its file name.
pub open spec fn must_fetch(found: Option<CachedFile>, package: PackageMeta) -> bool {
    match found {
        Some(file) => !is_archive_of(file, package),
        None => true,
    }
}

/// The pause after the given number of failed attempts, in milliseconds.
pub open spec fn pause_after(attempts: nat) -> nat
    decreases attempts,
{
    if attempts <= 1 {
        FIRST_PAUSE_MILLIS as nat
    } else {
        2 * pause_after((attempts - 1) as nat)
    }
}

/// What follows a fetch that failed after `attempts` attempts in all.
pub open spec fn retry_decision(attempts: u32, failure: FetchFailure) -> RetryDecision {
    if failure == FetchFailure::Transient && attempts < MAX_ATTEMPTS {
        RetryDecision::RetryAfter { millis: pause_after(attempts as nat) as u64 }
    } else {
        RetryDecision::GiveUp
    }
}

/// How many archives are fetched at a time: as many as the limit allows,
/// and never more than there are.
pub open spec fn workers(packages: usize, limit: usize) -> usize {
    if packages < limit {
        packages
    } else {
        limit
    }
}

/// Whether `package` must be fetched, given what the cache holds under
/// its file name: it is skipped only where a file is there with the size
/// and the checksum of the package.
pub fn needs_download(found: Option<&CachedFile>, package: &PackageMeta) -> (fetch: bool)
    ensures
        fetch == must_fetch(
            match found {
                Some(file) => Some(*file),
                None => None,
            },
            *package,
        ),
{
    match found {
        Some(file) => !(file.size == package.size && file.checksum == package.checksum),
        None => true,
    }
}

/// What follows a fetch that failed, where `attempts` counts the
/// attempts made so far, this one included. Only a passing failure is
/// tried again, and only while fewer than three attempts were made.
pub fn after_failure(attempts: u32, failure: FetchFailure) -> (decision: RetryDecision)
    ensures
        decision == retry_decision(attempts, failure),
{
    let transient = match failure {
        FetchFailure::Transient => true,
        _ => false,
    };
    if transient && attempts < MAX_ATTEMPTS {
        proof {
            reveal_with_fuel(pause_after, 3);
        }
        let millis: u64 = if attempts <= 1 {
            FIRST_PAUSE_MILLIS
        } else {
            2 * FIRST_PAUSE_MILLIS
        };
        RetryDecision::RetryAfter { millis }
    } else {
        RetryDecision::GiveUp
    }
}

/// How many archives are fetched at a time.
pub fn worker_count(packages: usize, limit: usize) -> (count: usize)
    ensures
        count == workers(packages, limit),
{
    if packages < limit {
        packages
    } else {
        limit
    }
}

/// A wrong checksum is never tried again, and no failure is tried again
/// after the third attempt.
pub proof fn lemma_retry_is_bounded(attempts: u32, failure: FetchFailure)
    ensures
        failure != FetchFailure::Transient ==> retry_decision(attempts, failure)
            == RetryDecision::GiveUp,
        attempts >= MAX_ATTEMPTS ==> retry_decision(attempts, failure) == RetryDecision::GiveUp,
        failure == FetchFailure::Transient && attempts < MAX_ATTEMPTS ==> retry_decision(
            attempts,
            failure,
        ) is RetryAfter,
{
}

/// Each pause is twice as long as the one before.
pub proof fn lemma_pause_doubles(attempts: nat)
    requires
        attempts >= 1,
    ensures
        pause_after(attempts + 1) == 2 * pause_after(attempts),
{
}

/// Where the cache holds the archive of every package, nothing is
/// fetched.
pub proof fn lemma_full_cache_fetches_nothing(
    packages: Seq<PackageMeta>,
    cache: Seq<Option<CachedFile>>,
)
    requires
        cache.len() == packages.len(),
        forall|i: int|
            0 <= i < packages.len() ==> ((#[trigger] cache[i]) matches Some(file)
                && is_archive_of(file, packages[i])),
    ensures
        forall|i: int| 0 <= i < packages.len() ==> !must_fetch(#[trigger] cache[i], packages[i]),
{
}

} // verus!
