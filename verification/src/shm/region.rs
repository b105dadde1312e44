//! Making and opening shared memory segments: what is checked, and what a failed
//! step means.

use vstd::prelude::*;

verus! {

/// Why a segment cannot be had; most carry the system's error number.
#[derive(Debug, Clone, Copy, PartialEq, Eq, Structural)]
pub enum ShmError {
    Open(i32),
    Truncate(i32),
    Mmap(i32),
    Munmap(i32),
    Unlink(i32),
    InvalidSize(usize),
    Close(i32),
    CString(i32),
}

/// A step of making or opening a segment.
#[derive(Debug, Clone, Copy, PartialEq, Eq, Structural)]
pub enum RegionStep {
    Open,
    Truncate,
    Mmap,
}

/// Whether a text holds the character zero.
pub open spec fn has_nul(s: Seq<char>) -> bool {
    exists|i: int| 0 <= i < s.len() && #[trigger] s[i] == '\0'
}

/// Whether a text holds the character zero, which no name or argument for the system
/// can.
pub fn contains_nul(s: &str) -> (r: bool)
    ensures
        r == has_nul(s@),
{
    let n = s.unicode_len();
    let mut i: usize = 0;
    while i < n
        invariant
            i <= n,
            n == s@.len(),
            forall|k: int| 0 <= k < i ==> #[trigger] s@[k] != '\0',
        decreases n - i,
    {
        if s.get_char(i) == '\0' {
            return true;
        }
        i = i + 1;
    }
    false
}

/// What the check of the size and the name of a segment comes to.
pub open spec fn region_checked(name: Seq<char>, size: usize) -> Result<(), ShmError> {
    if size == 0 {
        Err(ShmError::InvalidSize(size))
    } else if has_nul(name) {
        Err(ShmError::CString(0))
    } else {
        Ok(())
    }
}

/// Checks the size and the name of a segment; the size comes first.
pub fn check_region(name: &str, size: usize) -> (r: Result<(), ShmError>)
    ensures
        r == region_checked(name@, size),
{
    if size == 0 {
        return Err(ShmError::InvalidSize(size));
    }
    if contains_nul(name) {
        return Err(ShmError::CString(0));
    }
    Ok(())
}

/// The steps of making a segment, or of opening one that is there.
pub open spec fn region_plan(create: bool) -> Seq<RegionStep> {
    if create {
        seq![RegionStep::Open, RegionStep::Truncate, RegionStep::Mmap]
    } else {
        seq![RegionStep::Open, RegionStep::Mmap]
    }
}

/// A segment that is made gets its size before it is mapped, and one that is opened keeps
/// its own: it is opened first and mapped last, and its size is set exactly where it is
/// made.
pub proof fn law_segments_are_sized_once(create: bool)
    ensures
        region_plan(create)[0] == RegionStep::Open,
        region_plan(create).last() == RegionStep::Mmap,
        region_plan(create).contains(RegionStep::Truncate) <==> create,
        create ==> region_plan(create)[1] == RegionStep::Truncate,
{
}

/// What a failed step of making or opening a segment means: its own error with the
/// system's number, and the descriptor is closed exactly where it had been opened.
pub proof fn law_failed_segments_are_closed(step: RegionStep, errno: i32, name: Seq<char>, size: usize)
    ensures
        region_failure(step, errno).1 <==> !(step is Open),
        step is Open ==> region_failure(step, errno).0 == ShmError::Open(errno),
        step is Truncate ==> region_failure(step, errno).0 == ShmError::Truncate(errno),
        step is Mmap ==> region_failure(step, errno).0 == ShmError::Mmap(errno),
        region_checked(name, size) is Ok <==> size > 0 && forall|i: int|
            0 <= i < name.len() ==> #[trigger] name[i] != '\0',
{
}

/// The steps of making a segment, or of opening one that is there.
pub fn region_steps(create: bool) -> (r: Vec<RegionStep>)
    ensures
        r@ == region_plan(create),
{
    let mut steps: Vec<RegionStep> = Vec::new();
    steps.push(RegionStep::Open);
    if create {
        steps.push(RegionStep::Truncate);
    }
    steps.push(RegionStep::Mmap);
    assert(steps@ =~= if create {
        seq![RegionStep::Open, RegionStep::Truncate, RegionStep::Mmap]
    } else {
        seq![RegionStep::Open, RegionStep::Mmap]
    });
    steps
}

/// What a failed step means, and whether the descriptor has to be closed.
pub open spec fn region_failure(step: RegionStep, errno: i32) -> (ShmError, bool) {
    match step {
        RegionStep::Open => (ShmError::Open(errno), false),
        RegionStep::Truncate => (ShmError::Truncate(errno), true),
        RegionStep::Mmap => (ShmError::Mmap(errno), true),
    }
}

/// What a failed step means, and whether the descriptor that was opened before it
/// has to be closed.
pub fn region_failed(step: RegionStep, errno: i32) -> (r: (ShmError, bool))
    ensures
        r == region_failure(step, errno),
{
    match step {
        RegionStep::Open => (ShmError::Open(errno), false),
        RegionStep::Truncate => (ShmError::Truncate(errno), true),
        RegionStep::Mmap => (ShmError::Mmap(errno), true),
    }
}

/// Checks the name of a segment to remove.
pub fn check_unlink(name: &str) -> (r: Result<(), ShmError>)
    ensures
        r == (if has_nul(name@) {
            Err::<(), ShmError>(ShmError::CString(0))
        } else {
            Ok::<(), ShmError>(())
        }),
{
    if contains_nul(name) {
        return Err(ShmError::CString(0));
    }
    Ok(())
}

} // verus!
