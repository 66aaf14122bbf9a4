//! The disk-space guard.
//!
//! Before each phase that fills the target, the free space of its file
//! system is held against what the resolved set needs. Sizes of packages
//! are counted in kilobytes of 1024 bytes.

use vstd::prelude::*;

verus! {

/// Bytes in one kilobyte.
pub const KILOBYTE: u64 = 1024;

/// The text that `bytesize::to_string` gives for a byte count, in units
/// of 1024 bytes where `si_prefix` is set and of 1000 bytes where not.
pub uninterp spec fn size_text(bytes: u64, si_prefix: bool) -> Seq<char>;

/// `bytesize::to_string` writes a byte count in a unit that suits its
/// size. The text depends on the two arguments alone; it is taken as
/// given and not described further.
pub assume_specification[ bytesize::to_string ](bytes: u64, si_prefix: bool) -> (text: String)
    ensures
        text@ == size_text(bytes, si_prefix),
;

/// The kilobytes that are really asked for: a negative requirement counts
/// as none.
pub open spec fn required_space(required_kb: i64) -> u64 {
    if required_kb > 0 {
        required_kb as u64
    } else {
        0
    }
}

/// The whole kilobytes in `bytes`.
pub open spec fn whole_kilobytes(bytes: u64) -> u64 {
    bytes / KILOBYTE
}

/// The bytes in `kb` kilobytes, or the largest count that can be written
/// where that does not fit.
pub open spec fn kilobytes_in_bytes(kb: u64) -> u64 {
    if kb * KILOBYTE <= u64::MAX {
        (kb * KILOBYTE) as u64
    } else {
        u64::MAX
    }
}

/// The sentence that reports a shortage, around the three sizes.
pub open spec fn shortage_sentence(
    required: Seq<char>,
    available: Seq<char>,
    deficit: Seq<char>,
) -> Seq<char> {
    "It's not possible to continue, disk space not enough: "@ + required
        + " required, but only "@ + available + " is available. You need at least "@ + deficit
        + " more."@
}

/// Too little free space on the target's file system.
#[derive(Clone, Copy, Debug, PartialEq, Eq, Structural)]
pub struct DiskSpaceError {
    /// Kilobytes that are needed.
    pub required_kb: u64,
    /// Bytes that are free.
    pub available_bytes: u64,
    /// Kilobytes that are missing.
    pub deficit_kb: u64,
}

impl DiskSpaceError {
    /// What this error says to the user: the shortage sentence with the
    /// required, the available and the missing space, each written by
    /// `bytesize` in units of 1024 bytes.
    pub open spec fn text(self) -> Seq<char> {
        shortage_sentence(
            size_text(kilobytes_in_bytes(self.required_kb), true),
            size_text(self.available_bytes, true),
            size_text(kilobytes_in_bytes(self.deficit_kb), true),
        )
    }

    /// The text of this error.
    pub fn message(&self) -> (text: String)
        ensures
            text@ == self.text(),
    {
        let required = bytesize::to_string(bytes_of_kilobytes(self.required_kb), true);
        let available = bytesize::to_string(self.available_bytes, true);
        let deficit = bytesize::to_string(bytes_of_kilobytes(self.deficit_kb), true);
        shortage_message(required.as_str(), available.as_str(), deficit.as_str())
    }
}

/// The bytes in `kb` kilobytes, or `u64::MAX` where that does not fit.
pub fn bytes_of_kilobytes(kb: u64) -> (bytes: u64)
    ensures
        bytes == kilobytes_in_bytes(kb),
{
    match kb.checked_mul(KILOBYTE) {
        Some(bytes) => bytes,
        None => u64::MAX,
    }
}

/// The sentence that reports a shortage, around three sizes that are
/// already written out.
pub fn shortage_message(required: &str, available: &str, deficit: &str) -> (text: String)
    ensures
        text@ == shortage_sentence(required@, available@, deficit@),
{
    let mut text = "It's not possible to continue, disk space not enough: ".to_owned();
    text.append(required);
    text.append(" required, but only ");
    text.append(available);
    text.append(" is available. You need at least ");
    text.append(deficit);
    text.append(" more.");
    text
}

/// Holds the free space against the requirement.
///
/// `required_kb` is the projected growth in kilobytes; a negative value
/// counts as 0. `available_bytes` is the free space of the file system
/// that holds the target. The check fails where the free space, in whole
/// kilobytes, is less than the requirement.
pub fn check_disk_usage(required_kb: i64, available_bytes: u64) -> (checked: Result<
    (),
    DiskSpaceError,
>)
    ensures
        checked is Ok <==> whole_kilobytes(available_bytes) >= required_space(required_kb),
        checked matches Err(e) ==> {
            &&& e.required_kb == required_space(required_kb)
            &&& e.available_bytes == available_bytes
            &&& e.deficit_kb == required_space(required_kb) - whole_kilobytes(available_bytes)
        },
{
    let required: u64 = if required_kb > 0 {
        required_kb as u64
    } else {
        0
    };
    let available_kb: u64 = available_bytes / KILOBYTE;
    if available_kb < required {
        Err(
            DiskSpaceError {
                required_kb: required,
                available_bytes,
                deficit_kb: required - available_kb,
            },
        )
    } else {
        Ok(())
    }
}

/// A requirement of nothing, or of less than nothing, is always met.
pub proof fn lemma_no_requirement_passes(required_kb: i64, available_bytes: u64)
    requires
        required_kb <= 0,
    ensures
        whole_kilobytes(available_bytes) >= required_space(required_kb),
{
}

/// What passes the guard still passes with more free space or with a
/// smaller requirement.
pub proof fn lemma_guard_monotone(required_kb: i64, available_bytes: u64, less: i64, more: u64)
    requires
        whole_kilobytes(available_bytes) >= required_space(required_kb),
        less <= required_kb,
        more >= available_bytes,
    ensures
        whole_kilobytes(more) >= required_space(less),
{
}

} // verus!
