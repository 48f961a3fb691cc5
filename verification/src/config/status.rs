//! The status that the daemon leaves for others to read.
use vstd::prelude::*;
use vstd::utf8::encode_utf8;
use crate::config::pid::pid_path;
use crate::config::{is_own_data_file, own_data_file, DataFile};
use crate::error::ConfigError;
use crate::paths::{joined, opt_text, raw};

verus! {

/// What the daemon is doing.
pub struct Status {
    /// The folder that is watched.
    pub watching: String,
    pub pid: i32,
    /// Seconds since the epoch at which the daemon started.
    pub started_at: u64,
    /// The last move.
    pub last_action: Option<String>,
    /// How many files were moved since the start.
    pub files_sorted: u64,
}

/// The status as a value.
pub struct StatusView {
    pub watching: Seq<char>,
    pub pid: i32,
    pub started_at: u64,
    pub last_action: Option<Seq<char>>,
    pub files_sorted: u64,
}

impl View for Status {
    type V = StatusView;

    open spec fn view(&self) -> StatusView {
        StatusView {
            watching: self.watching@,
            pid: self.pid,
            started_at: self.started_at,
            last_action: opt_text(self.last_action),
            files_sorted: self.files_sorted,
        }
    }
}

impl Status {
    /// A status that says the same.
    pub fn copy(&self) -> (r: Status)
        ensures
            r@ == self@,
    {
        let last_action = match &self.last_action {
            Some(text) => Some(text.clone()),
            None => None,
        };
        Status {
            watching: self.watching.clone(),
            pid: self.pid,
            started_at: self.started_at,
            last_action,
            files_sorted: self.files_sorted,
        }
    }
}

/// Where the status is kept.
pub fn status_path() -> (r: Result<DataFile, ConfigError>)
    ensures
        is_own_data_file(r, "status.json"@),
{
    own_data_file("status.json")
}

/// A copy says the same, entry by entry.
pub proof fn copy_says_the_same(status: Status, r: Status)
    requires
        call_ensures(Status::copy, (&status,), r),
    ensures
        r.watching@ == status.watching@,
        r.pid == status.pid,
        r.started_at == status.started_at,
        r.files_sorted == status.files_sorted,
        r.last_action is Some <==> status.last_action is Some,
        status.last_action matches Some(last) ==> r.last_action->0@ == last@,
{
}

/// The process id and the status are kept under their names in the directory that the
/// system told.
pub proof fn files_of_the_daemon_have_their_names(
    pid: Result<DataFile, ConfigError>,
    status: Result<DataFile, ConfigError>,
)
    requires
        call_ensures(pid_path, (), pid),
        call_ensures(status_path, (), status),
    ensures
        pid matches Ok(file) ==> raw(file.path) == joined(
            raw(file.directory),
            encode_utf8("dsorter.pid"@),
        ),
        status matches Ok(file) ==> raw(file.path) == joined(
            raw(file.directory),
            encode_utf8("status.json"@),
        ),
{
}

} // verus!
