//! The process id of the running daemon.
use vstd::prelude::*;
use crate::config::{is_own_data_file, own_data_file, DataFile};
use crate::error::ConfigError;
use crate::number::{
    decimal_reads_back, i32_value, is_digit, parse_i32, signed_decimal, signed_decimal_reads_back,
    signed_decimal_text,
};
use crate::paths::opt_str;
use crate::text::{
    is_white_space, trim, trimmed, trimming_drops_what_is_around, white_space_alone_is_trimmed_away,
};

verus! {

/// Where the process id is kept.
pub fn pid_path() -> (r: Result<DataFile, ConfigError>)
    ensures
        is_own_data_file(r, "dsorter.pid"@),
{
    own_data_file("dsorter.pid")
}

/// The process id that a pid file holds: a number with white space around it at most.
pub open spec fn pid_in(contents: Option<Seq<char>>) -> Option<i32> {
    match contents {
        Some(text) => i32_value(trimmed(text)),
        None => None,
    }
}

/// Reads what a pid file holds, if it could be read at all.
pub fn parse_pid(contents: Option<&str>) -> (r: Option<i32>)
    ensures
        r == pid_in(opt_str(contents)),
{
    match contents {
        Some(text) => parse_i32(trim(text).as_str()),
        None => None,
    }
}

/// What is written into a pid file.
pub fn pid_text(pid: i32) -> (r: String)
    ensures
        r@ == signed_decimal(pid as int),
{
    signed_decimal_text(pid)
}

/// A process id is read back from the file it was written to, also where white space
/// such as a line feed stands around it.
pub proof fn written_pid_is_read_back(head: Seq<char>, pid: i32, tail: Seq<char>)
    requires
        forall|i: int| 0 <= i < head.len() ==> is_white_space(#[trigger] head[i]),
        forall|i: int| 0 <= i < tail.len() ==> is_white_space(#[trigger] tail[i]),
    ensures
        pid_in(Some(head + signed_decimal(pid as int) + tail)) == Some(pid),
{
    let s = signed_decimal(pid as int);
    let n: nat = if pid < 0 {
        (-pid) as nat
    } else {
        pid as nat
    };
    decimal_reads_back(n);
    assert(is_digit(s.last()));
    assert(pid >= 0 ==> is_digit(s.first()));
    trimming_drops_what_is_around(head, s, tail);
    signed_decimal_reads_back(pid);
}

/// What the system answered when asked about a process.
pub enum Probe {
    /// Whether the process accepted the empty signal.
    Signal(bool),
    /// The exit code on record for the process, where the process could be opened and the
    /// code read.
    ExitCode(Option<u32>),
}

/// The exit code on record for a process that still runs.
pub const STILL_ACTIVE: u32 = 259;

/// Whether a process runs, by what the system answered. Ids that are not positive name no
/// process where processes are opened; where they are signalled, the signal decides.
pub open spec fn alive(pid: i32, probe: Probe) -> bool {
    match probe {
        Probe::Signal(accepted) => accepted,
        Probe::ExitCode(code) => pid > 0 && code == Some(STILL_ACTIVE),
    }
}

/// Whether a process runs, by what the system answered.
pub fn pid_is_alive(pid: i32, probe: Probe) -> (r: bool)
    ensures
        r == alive(pid, probe),
{
    match probe {
        Probe::Signal(accepted) => accepted,
        Probe::ExitCode(code) => match code {
            Some(c) => pid > 0 && c == STILL_ACTIVE,
            None => false,
        },
    }
}

/// White space around what a pid file holds changes nothing, and a file that could not be
/// read, or that holds nothing else, names no process.
pub proof fn white_space_around_a_pid_is_nothing(head: Seq<char>, s: Seq<char>, tail: Seq<char>)
    requires
        forall|i: int| 0 <= i < head.len() ==> is_white_space(#[trigger] head[i]),
        forall|i: int| 0 <= i < tail.len() ==> is_white_space(#[trigger] tail[i]),
        s.len() > 0,
        !is_white_space(s.first()),
        !is_white_space(s.last()),
    ensures
        pid_in(Some(head + s + tail)) == i32_value(s),
        pid_in(Some(head)) is None,
        pid_in(None) is None,
{
    trimming_drops_what_is_around(head, s, tail);
    white_space_alone_is_trimmed_away(head);
}

/// What is written into a pid file is read back from it.
pub proof fn pid_file_is_read_back(pid: i32, written: String, contents: &str, r: Option<i32>)
    requires
        call_ensures(pid_text, (pid,), written),
        contents@ == written@,
        call_ensures(parse_pid, (Some(contents),), r),
    ensures
        r == Some(pid),
{
    written_pid_is_read_back(Seq::empty(), pid, Seq::empty());
    assert(Seq::<char>::empty() + written@ + Seq::<char>::empty() =~= written@);
}

/// A process that was signalled is alive where it accepted the signal, whatever its id; one
/// that was opened is alive where its exit code on record is 259 and its id is positive.
pub proof fn process_is_alive_by_what_the_system_says(pid: i32, probe: Probe, r: bool)
    requires
        call_ensures(pid_is_alive, (pid, probe), r),
    ensures
        probe matches Probe::Signal(accepted) ==> r == accepted,
        probe matches Probe::ExitCode(code) ==> (r <==> pid > 0 && code == Some(259u32)),
{
}

} // verus!
