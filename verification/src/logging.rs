//! Rules for the application's rolling log files: which files are rotated
//! logs, and which of them the canonical `app.log` should point at.

use vstd::prelude::*;

use crate::text::{has_prefix, has_suffix, str_ends_with, str_starts_with};

verus! {

/// Base file name of the rolling log files.
pub const LOG_FILE_PREFIX: &'static str = "app";

/// File suffix (extension) of the rolling log files.
pub const LOG_FILE_SUFFIX: &'static str = "log";

/// The canonical log file that consumers tail.
pub const PRIMARY_LOG_BASENAME: &'static str = "app.log";

/// Maximum number of rotated log files kept.
pub const MAX_LOG_FILES: usize = 10;

/// How often, in seconds, `app.log` is pointed at the active file again.
pub const PRIMARY_LINK_REFRESH_SECS: u64 = 30;

/// The number of times `c` occurs in `s`.
pub open spec fn count_char(s: Seq<char>, c: char) -> nat
    decreases s.len(),
{
    if s.len() == 0 {
        0
    } else {
        count_char(s.drop_last(), c) + if s.last() == c {
            1nat
        } else {
            0nat
        }
    }
}

/// A rotated log file name: `app`, then `.`, ending in `log`, and holding a
/// date (`YYYY-MM-DD`), so at least two `-`.
pub open spec fn rotated_log(name: Seq<char>) -> bool {
    &&& has_prefix(name, LOG_FILE_PREFIX@)
    &&& name.len() > LOG_FILE_PREFIX@.len()
    &&& name[LOG_FILE_PREFIX@.len() as int] == '.'
    &&& has_suffix(name, LOG_FILE_SUFFIX@)
    &&& count_char(name, '-') >= 2
}

/// Count the occurrences of `c` in `s`.
pub fn count_occurrences(s: &str, c: char) -> (n: usize)
    ensures
        n == count_char(s@, c),
{
    let len = s.unicode_len();
    let mut i: usize = 0;
    let mut n: usize = 0;
    while i < len
        invariant
            len == s@.len(),
            i <= len,
            n == count_char(s@.subrange(0, i as int), c),
            n <= i,
        decreases len - i,
    {
        assert(s@.subrange(0, i as int + 1).drop_last() =~= s@.subrange(0, i as int));
        if s.get_char(i) == c {
            n = n + 1;
        }
        i = i + 1;
    }
    assert(s@.subrange(0, len as int) =~= s@);
    n
}

/// Whether `name` is the name of a rotated log file.
pub fn is_rotated_log(name: &str) -> (b: bool)
    ensures
        b == rotated_log(name@),
{
    proof {
        reveal_strlit("app");
    }
    if !str_starts_with(name, LOG_FILE_PREFIX) {
        return false;
    }
    let n = name.unicode_len();
    if n <= 3 || name.get_char(3) != '.' || !str_ends_with(name, LOG_FILE_SUFFIX) {
        return false;
    }
    count_occurrences(name, '-') >= 2
}

/// A directory entry of the logs directory.
#[derive(Debug)]
pub struct LogEntry {
    /// The file name.
    pub name: String,
    /// Whether the entry is a regular file.
    pub is_file: bool,
    /// The creation time (or, failing that, the modification time), in
    /// nanoseconds from the Unix epoch; `None` when neither can be read.
    pub created: Option<i128>,
}

/// The entry is a rotated log file.
pub open spec fn log_candidate(e: LogEntry) -> bool {
    e.is_file && rotated_log(e.name@)
}

/// The timestamp of an entry that has one.
pub open spec fn stamp(e: LogEntry) -> int {
    match e.created {
        Some(t) => t as int,
        None => 0,
    }
}

/// All rotated log files before position `k` carry a timestamp.
pub open spec fn stamped_before(es: Seq<LogEntry>, k: int) -> bool {
    forall|j: int| 0 <= j < k && log_candidate(#[trigger] es[j]) ==> es[j].created is Some
}

/// Entry `i` is the newest rotated log file of `es`, the first one among
/// equally new ones.
pub open spec fn newest_at(es: Seq<LogEntry>, i: int) -> bool {
    &&& 0 <= i < es.len()
    &&& log_candidate(es[i])
    &&& forall|j: int| 0 <= j < es.len() && log_candidate(#[trigger] es[j]) ==> stamp(es[j]) <= stamp(es[i])
    &&& forall|j: int| 0 <= j < i && log_candidate(#[trigger] es[j]) ==> stamp(es[j]) < stamp(es[i])
}

/// Pick the rotated log file that `app.log` should point at: the newest one,
/// the first of equally new ones. Fails, with its position, at the first
/// rotated log file whose timestamps cannot be read.
pub fn newest_log(entries: &Vec<LogEntry>) -> (r: Result<Option<usize>, usize>)
    ensures
        match r {
            Err(k) => k < entries@.len() && log_candidate(entries@[k as int]) && entries@[k as int].created is None
                && stamped_before(entries@, k as int),
            Ok(None) => forall|j: int| 0 <= j < entries@.len() ==> !log_candidate(#[trigger] entries@[j]),
            Ok(Some(i)) => stamped_before(entries@, entries@.len() as int) && newest_at(entries@, i as int),
        },
{
    let mut newest: Option<usize> = None;
    let mut best: i128 = 0;
    let mut k: usize = 0;
    while k < entries.len()
        invariant
            k <= entries@.len(),
            stamped_before(entries@, k as int),
            match newest {
                None => forall|j: int| 0 <= j < k ==> !log_candidate(#[trigger] entries@[j]),
                Some(i) => i < k && best == stamp(entries@[i as int]) && log_candidate(entries@[i as int])
                    && (forall|j: int| 0 <= j < k && log_candidate(#[trigger] entries@[j]) ==> stamp(entries@[j]) <= best)
                    && (forall|j: int| 0 <= j < i && log_candidate(#[trigger] entries@[j]) ==> stamp(entries@[j]) < best),
            },
        decreases entries@.len() - k,
    {
        let e = &entries[k];
        if e.is_file && is_rotated_log(e.name.as_str()) {
            match e.created {
                None => {
                    return Err(k);
                },
                Some(t) => {
                    match newest {
                        Some(_) => {
                            if t > best {
                                newest = Some(k);
                                best = t;
                            }
                        },
                        None => {
                            newest = Some(k);
                            best = t;
                        },
                    }
                },
            }
        }
        k = k + 1;
    }
    Ok(newest)
}

} // verus!
