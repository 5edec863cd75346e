//! Single-instance lock files: when one marks a running process, and when
//! one left behind is to be removed.

use vstd::prelude::*;
use crate::constants::LOCKFILE_STALE_THRESHOLD_SECS;
use crate::text::{is_space, lit, matches_at, matches_here, parse_u64, u64_text};

verus! {

/// What the file system says of a lock file.
#[derive(Debug, Clone, Copy, PartialEq, Eq, Structural)]
pub enum LockfileState {
    /// There is no lock file.
    Absent,
    /// The file exists but its modification time cannot be read.
    Unstamped,
    /// The file exists. `modified_unix`: its modification time in seconds
    /// since the Unix epoch; `age_secs`: seconds since then (`None` where
    /// the clock cannot say, e.g. a time in the future).
    Stamped { modified_unix: Option<u64>, age_secs: Option<u64> },
}

/// What to do with a lock file found at start-up.
#[derive(Debug, Clone, Copy, PartialEq, Eq, Structural)]
pub enum Cleanup {
    Keep,
    /// Written before the current boot: its process is gone whatever its age.
    RemovePreviousBoot,
    /// Older than the staleness window.
    RemoveStale,
    /// Its modification time cannot be read.
    RemoveUnreadable,
}

/// A lock file marks a running process only while it is fresh.
pub open spec fn active_spec(state: LockfileState) -> bool {
    match state {
        LockfileState::Stamped { age_secs: Some(a), .. } => a < LOCKFILE_STALE_THRESHOLD_SECS,
        _ => false,
    }
}

pub open spec fn cleanup_spec(state: LockfileState, boot_time: Option<u64>) -> Cleanup {
    match state {
        LockfileState::Absent => Cleanup::Keep,
        LockfileState::Unstamped => Cleanup::RemoveUnreadable,
        LockfileState::Stamped { modified_unix, age_secs } => {
            if boot_time is Some && modified_unix is Some && modified_unix->0 < boot_time->0 {
                Cleanup::RemovePreviousBoot
            } else if age_secs is Some && age_secs->0 >= LOCKFILE_STALE_THRESHOLD_SECS {
                Cleanup::RemoveStale
            } else {
                Cleanup::Keep
            }
        },
    }
}

/// Whether a lock file marks a running process: it exists and was touched
/// within the staleness window. When its age cannot be read, it does not.
pub fn is_lockfile_active(state: LockfileState) -> (r: bool)
    ensures
        r == active_spec(state),
{
    match state {
        LockfileState::Stamped { age_secs: Some(a), .. } => a < LOCKFILE_STALE_THRESHOLD_SECS,
        _ => false,
    }
}

/// Decides the fate of a lock file at start-up: one from before the
/// current boot goes first, then one past the staleness window, and one
/// without a readable time; a fresh one stays.
pub fn cleanup_decision(state: LockfileState, boot_time: Option<u64>) -> (r: Cleanup)
    ensures
        r == cleanup_spec(state, boot_time),
{
    match state {
        LockfileState::Absent => Cleanup::Keep,
        LockfileState::Unstamped => Cleanup::RemoveUnreadable,
        LockfileState::Stamped { modified_unix, age_secs } => {
            if let (Some(b), Some(m)) = (boot_time, modified_unix) {
                if m < b {
                    return Cleanup::RemovePreviousBoot;
                }
            }
            match age_secs {
                Some(a) => if a >= LOCKFILE_STALE_THRESHOLD_SECS {
                    Cleanup::RemoveStale
                } else {
                    Cleanup::Keep
                },
                None => Cleanup::Keep,
            }
        },
    }
}

/// A lock file from before the current boot is removed whatever its age.
pub proof fn lemma_previous_boot_always_stale(m: u64, age: Option<u64>, boot: u64)
    requires
        m < boot,
    ensures
        cleanup_spec(LockfileState::Stamped { modified_unix: Some(m), age_secs: age }, Some(boot))
            == Cleanup::RemovePreviousBoot,
{
}

/// End of the line that holds offset `pos`: the next line feed or the end.
pub open spec fn line_end(s: Seq<u8>, pos: int) -> int
    decreases s.len() - pos,
{
    if pos < 0 || pos >= s.len() || s[pos] == 10u8 {
        pos
    } else {
        line_end(s, pos + 1)
    }
}

/// First offset at or after `pos` that is not whitespace.
pub open spec fn space_end(s: Seq<u8>, pos: int) -> int
    decreases s.len() - pos,
{
    if pos < 0 || pos >= s.len() || !is_space(s[pos]) {
        pos
    } else {
        space_end(s, pos + 1)
    }
}

/// First offset at or after `pos` that is whitespace.
pub open spec fn word_end(s: Seq<u8>, pos: int) -> int
    decreases s.len() - pos,
{
    if pos < 0 || pos >= s.len() || is_space(s[pos]) {
        pos
    } else {
        word_end(s, pos + 1)
    }
}

/// The number after `btime` on a `btime ` line.
pub open spec fn btime_value(line: Seq<u8>) -> Option<u64> {
    let a = space_end(line, 6);
    let b = word_end(line, a);
    if a == b {
        None
    } else {
        u64_text(line.subrange(a, b))
    }
}

/// The boot time from the first line, at or after `pos`, that starts with
/// `btime `; `at_start` tells whether `pos` starts a line.
pub open spec fn btime_scan(s: Seq<u8>, pos: int, at_start: bool) -> Option<u64>
    decreases s.len() - pos,
{
    if pos < 0 || pos >= s.len() {
        None
    } else if at_start && matches_at(s, lit("btime "), pos) {
        btime_value(s.subrange(pos, line_end(s, pos)))
    } else {
        btime_scan(s, pos + 1, s[pos] == 10u8)
    }
}

fn read_btime_line(line: &[u8]) -> (r: Option<u64>)
    ensures
        r == btime_value(line@),
{
    let n = line.len();
    if n < 6 {
        return None;
    }
    let mut a: usize = 6;
    while a < n && (line[a] == 32 || (9 <= line[a] && line[a] <= 13))
        invariant
            n == line@.len(),
            6 <= a <= n,
            space_end(line@, 6) == space_end(line@, a as int),
        decreases n - a,
    {
        a = a + 1;
    }
    let mut b: usize = a;
    while b < n && !(line[b] == 32 || (9 <= line[b] && line[b] <= 13))
        invariant
            n == line@.len(),
            a <= b <= n,
            space_end(line@, 6) == a,
            word_end(line@, a as int) == word_end(line@, b as int),
        decreases n - b,
    {
        b = b + 1;
    }
    if a == b {
        None
    } else {
        parse_u64(vstd::slice::slice_subrange(line, a, b))
    }
}

/// The boot time, in seconds since the Unix epoch, from the text of the
/// kernel's `stat` file: the second word of the first line that starts
/// with `btime `, when that word is a number.
pub fn boot_time_from_stat(stat: &[u8]) -> (r: Option<u64>)
    ensures
        r == btime_scan(stat@, 0, true),
{
    let key = "btime ".as_bytes();
    let n = stat.len();
    let mut pos: usize = 0;
    let mut at_start = true;
    while pos < n
        invariant
            n == stat@.len(),
            pos <= n,
            key@ == lit("btime "),
            btime_scan(stat@, 0, true) == btime_scan(stat@, pos as int, at_start),
        decreases n - pos,
    {
        if at_start && matches_here(stat, key, pos) {
            let mut e: usize = pos;
            while e < n && stat[e] != 10u8
                invariant
                    n == stat@.len(),
                    pos <= e <= n,
                    line_end(stat@, pos as int) == line_end(stat@, e as int),
                decreases n - e,
            {
                e = e + 1;
            }
            return read_btime_line(vstd::slice::slice_subrange(stat, pos, e));
        }
        at_start = stat[pos] == 10u8;
        pos = pos + 1;
    }
    None
}

} // verus!
