//! The commands, and what each of them comes to.
use std::path::PathBuf;
use vstd::prelude::*;
use vstd::utf8::encode_utf8;
use crate::config::status::Status;
use crate::error::ConfigError;
use crate::lines::texts;
use crate::number::{
    decimal, decimal_reads_back, decimal_text, i32_value, is_number, number_value, signed_decimal,
    signed_decimal_reads_back, signed_decimal_text,
};
use crate::paths::{opt_path, path_from, raw, raws};
use crate::text::{text2, text3};

verus! {

/// The command line.
pub struct Cli {
    pub command: Option<Commands>,
    /// The configuration to use in place of the one at the usual place.
    pub config: Option<PathBuf>,
}

pub enum Commands {
    /// Start watching and sorting.
    Start {
        /// Classify and log without actually moving files.
        dry_run: bool,
    },
    /// Stop the running daemon.
    Stop,
    /// View recent log entries.
    Log {
        /// Show the first lines of the log.
        head: Option<usize>,
        /// Show the last lines of the log.
        tail: Option<usize>,
    },
    /// Show the status of the daemon.
    Status,
    /// Reload the configuration without a restart.
    Reload,
    /// Set the program up to run at login.
    Install,
}

/// What a command line asks for.
#[derive(Debug, PartialEq, Eq, Structural)]
pub enum Task {
    LogHead(usize),
    LogTail(usize),
    /// The log was asked for, but no part of it.
    LogPartMissing,
    Start { dry_run: bool },
    Stop,
    Status,
    Reload,
    Install,
    Usage,
}

/// What a command line asks for. The first lines of the log are shown rather than the
/// last where both were asked for.
pub open spec fn task_of(cli: Cli) -> Task {
    match cli.command {
        None => Task::Usage,
        Some(Commands::Log { head: Some(n), tail }) => Task::LogHead(n),
        Some(Commands::Log { head: None, tail: Some(n) }) => Task::LogTail(n),
        Some(Commands::Log { head: None, tail: None }) => Task::LogPartMissing,
        Some(Commands::Start { dry_run }) => Task::Start { dry_run },
        Some(Commands::Stop) => Task::Stop,
        Some(Commands::Status) => Task::Status,
        Some(Commands::Reload) => Task::Reload,
        Some(Commands::Install) => Task::Install,
    }
}

/// What a command line asks for.
pub fn task(cli: &Cli) -> (r: Task)
    ensures
        r == task_of(*cli),
{
    match &cli.command {
        None => Task::Usage,
        Some(Commands::Log { head, tail }) => match (head, tail) {
            (Some(n), _) => Task::LogHead(*n),
            (None, Some(n)) => Task::LogTail(*n),
            (None, None) => Task::LogPartMissing,
        },
        Some(Commands::Start { dry_run }) => Task::Start { dry_run: *dry_run },
        Some(Commands::Stop) => Task::Stop,
        Some(Commands::Status) => Task::Status,
        Some(Commands::Reload) => Task::Reload,
        Some(Commands::Install) => Task::Install,
    }
}

/// What is said where the log was asked for, but no part of it.
pub const LOG_PART_MISSING: &'static str = "specify --head <N> or --tail <N>";

/// What is said where no command was given.
pub const USAGE: &'static str = "dsorter — watches a folder and auto-sorts new files by type

USAGE:
  dsorter start           Start watching (daemonizes)
  dsorter stop            Stop the running daemon
  dsorter status          Show current daemon status
  dsorter reload          Reload config without restarting
  dsorter log --tail N    Show last N log lines
  dsorter log --head N    Show first N log lines

Run `dsorter --help` for full details.";

/// What is said where there is no daemon to talk to.
pub const NOT_RUNNING: &'static str = "dsorter is not running";

/// A text with a process id in brackets behind it.
pub open spec fn with_pid(text: Seq<char>, pid: i32) -> Seq<char> {
    text + " (pid "@ + signed_decimal(pid as int) + ")"@
}

fn text_with_pid(text: &str, pid: i32) -> (r: String)
    ensures
        r@ == with_pid(text@, pid),
{
    let number = signed_decimal_text(pid);
    let front = text3(text, " (pid ", number.as_str());
    text2(front.as_str(), ")")
}

/// The process id of the running daemon: the one on record, where that process is alive.
pub open spec fn running(recorded: Option<i32>, alive: bool) -> Option<i32> {
    if alive {
        recorded
    } else {
        None
    }
}

/// What to do to start.
pub enum StartPlan {
    /// Nothing: a daemon runs already. Holds what to say.
    Refuse(String),
    Start {
        /// The pid file is left over from a daemon that is gone.
        remove_pid_file: bool,
        /// Go into the background first.
        background: bool,
    },
}

/// What to do to start, by the process id on record and whether that process is alive. A
/// dry run stays in the foreground, and a program that is in the background already, since
/// it was started for that, stays where it is.
pub fn start_plan(recorded: Option<i32>, alive: bool, dry_run: bool, detached: bool) -> (r:
    StartPlan)
    ensures
        match running(recorded, alive) {
            Some(pid) => r matches StartPlan::Refuse(text) && text@ == with_pid(
                "dsorter is already running"@,
                pid,
            ),
            None => r == (StartPlan::Start {
                remove_pid_file: recorded is Some,
                background: !dry_run && !detached,
            }),
        },
{
    match recorded {
        Some(pid) => if alive {
            StartPlan::Refuse(text_with_pid("dsorter is already running", pid))
        } else {
            StartPlan::Start { remove_pid_file: true, background: !dry_run && !detached }
        },
        None => StartPlan::Start { remove_pid_file: false, background: !dry_run && !detached },
    }
}

/// The arguments with which the program starts itself again to go on in the background, as
/// the system hands them on.
pub open spec fn background_arguments(config: Option<Seq<u8>>, dry_run: bool) -> Seq<Seq<u8>> {
    let first = match config {
        Some(path) => seq![encode_utf8("--config"@), path],
        None => seq![],
    };
    let last = if dry_run {
        seq![encode_utf8("--dry-run"@)]
    } else {
        seq![]
    };
    first + seq![encode_utf8("start"@)] + last
}

/// The arguments with which the program starts itself again to go on in the background, as
/// the system hands them on.
pub fn background_args(config: Option<&PathBuf>, dry_run: bool) -> (r: Vec<PathBuf>)
    ensures
        raws(r@) == background_arguments(opt_path(config), dry_run),
{
    let mut r: Vec<PathBuf> = Vec::new();
    match config {
        Some(path) => {
            r.push(path_from("--config"));
            r.push(path.clone());
        },
        None => {},
    }
    r.push(path_from("start"));
    if dry_run {
        r.push(path_from("--dry-run"));
    }
    assert(raws(r@) =~= background_arguments(opt_path(config), dry_run));
    r
}

/// What is said when the program went on in the background.
pub fn background_message(pid: u32) -> (r: String)
    ensures
        r@ == "started dsorter in background (pid "@ + decimal(pid as nat) + ")"@,
{
    let number = decimal_text(pid as u64);
    text3("started dsorter in background (pid ", number.as_str(), ")")
}

/// What the log says where a daemon cannot start for want of a configuration.
pub fn config_error(error: &ConfigError) -> (r: String)
    ensures
        r@ == "config error: "@ + error@.text(),
{
    text2("config error: ", error.message().as_str())
}

/// What a daemon is told.
#[derive(Debug, Clone, Copy, PartialEq, Eq, Structural)]
pub enum DaemonSignal {
    /// To end.
    Stop,
    /// To load its configuration again, and go on.
    Reload,
}

/// What to do to a daemon.
pub enum SignalPlan {
    /// Nothing: none runs. Holds what to say.
    NotRunning(String),
    /// Send the process the signal, remove its pid file where that is asked for, and then
    /// say so.
    Signal { pid: i32, signal: DaemonSignal, remove_pid_file: bool, message: String },
}

/// `r` is the plan for the daemon with the process id on record: to send it the signal
/// where it is alive, and then to say `text`. The pid file is removed with a daemon that
/// is told to stop, and only then.
pub open spec fn is_signal_plan(
    r: SignalPlan,
    recorded: Option<i32>,
    alive: bool,
    sent: DaemonSignal,
    text: Seq<char>,
) -> bool {
    match running(recorded, alive) {
        Some(running_pid) => r matches SignalPlan::Signal { pid, signal, remove_pid_file, message }
            && pid == running_pid && signal == sent && remove_pid_file == (sent
            == DaemonSignal::Stop) && message@ == with_pid(text, pid),
        None => r matches SignalPlan::NotRunning(message) && message@ == NOT_RUNNING@,
    }
}

fn signal_plan(recorded: Option<i32>, alive: bool, signal: DaemonSignal, text: &str) -> (r:
    SignalPlan)
    ensures
        is_signal_plan(r, recorded, alive, signal, text@),
{
    match recorded {
        Some(pid) => if alive {
            let remove_pid_file: bool = signal == DaemonSignal::Stop;
            SignalPlan::Signal { pid, signal, remove_pid_file, message: text_with_pid(text, pid) }
        } else {
            SignalPlan::NotRunning(NOT_RUNNING.to_owned())
        },
        None => SignalPlan::NotRunning(NOT_RUNNING.to_owned()),
    }
}

/// What to do to stop the daemon.
pub fn stop_plan(recorded: Option<i32>, alive: bool) -> (r: SignalPlan)
    ensures
        is_signal_plan(r, recorded, alive, DaemonSignal::Stop, "stopped dsorter"@),
{
    signal_plan(recorded, alive, DaemonSignal::Stop, "stopped dsorter")
}

/// What to do to make the daemon reload its configuration.
pub fn reload_plan(recorded: Option<i32>, alive: bool) -> (r: SignalPlan)
    ensures
        is_signal_plan(r, recorded, alive, DaemonSignal::Reload, "reloaded dsorter config"@),
{
    signal_plan(recorded, alive, DaemonSignal::Reload, "reloaded dsorter config")
}

/// What to do next while a daemon that was told to stop may still run.
#[derive(Debug, PartialEq, Eq, Structural)]
pub enum WaitStep {
    /// It is gone.
    Done,
    /// Wait a tenth of a second, and look again.
    Sleep,
    /// It did not go by itself.
    Terminate,
}

/// How often to look whether a daemon that was told to stop is gone.
pub const STOP_POLLS: u32 = 30;

/// What to do next, after `polls` looks that found the daemon alive.
pub fn wait_step(polls: u32, alive: bool) -> (r: WaitStep)
    ensures
        r == if polls >= STOP_POLLS {
            WaitStep::Terminate
        } else if alive {
            WaitStep::Sleep
        } else {
            WaitStep::Done
        },
{
    if polls >= STOP_POLLS {
        WaitStep::Terminate
    } else if alive {
        WaitStep::Sleep
    } else {
        WaitStep::Done
    }
}

/// What became of reading the status file.
pub enum StatusFile {
    Missing,
    Unreadable,
    Present(Status),
}

/// The lines that tell about a daemon.
pub open spec fn status_texts(recorded: Option<i32>, alive: bool, file: StatusFile) -> Seq<
    Seq<char>,
> {
    match running(recorded, alive) {
        None => seq![NOT_RUNNING@],
        Some(pid) => match file {
            StatusFile::Missing => seq![
                with_pid("dsorter is running"@, pid) + " — no status file yet"@,
            ],
            StatusFile::Unreadable => seq![
                with_pid("dsorter is running"@, pid) + " — status file unreadable"@,
            ],
            StatusFile::Present(status) => {
                let known = seq![
                    with_pid("dsorter is running"@, status.pid),
                    "watching:     "@ + status.watching@,
                    "files sorted: "@ + decimal(status.files_sorted as nat),
                ];
                match status.last_action {
                    Some(last) => known.push("last action:  "@ + last@),
                    None => known,
                }
            },
        },
    }
}

/// The lines that tell about a daemon, by the process id on record, whether that process
/// is alive, and what the status file says.
pub fn status_report(recorded: Option<i32>, alive: bool, file: &StatusFile) -> (r: Vec<String>)
    ensures
        texts(r@) == status_texts(recorded, alive, *file),
{
    let mut r: Vec<String> = Vec::new();
    match recorded {
        Some(pid) if alive => match file {
            StatusFile::Missing => {
                let front = text_with_pid("dsorter is running", pid);
                r.push(text2(front.as_str(), " — no status file yet"));
            },
            StatusFile::Unreadable => {
                let front = text_with_pid("dsorter is running", pid);
                r.push(text2(front.as_str(), " — status file unreadable"));
            },
            StatusFile::Present(status) => {
                r.push(text_with_pid("dsorter is running", status.pid));
                r.push(text2("watching:     ", status.watching.as_str()));
                let count = decimal_text(status.files_sorted);
                r.push(text2("files sorted: ", count.as_str()));
                match &status.last_action {
                    Some(last) => {
                        r.push(text2("last action:  ", last.as_str()));
                    },
                    None => {},
                }
            },
        },
        _ => {
            r.push(NOT_RUNNING.to_owned());
        },
    }
    assert(texts(r@) =~= status_texts(recorded, alive, *file));
    r
}

/// A start is a dry run where that was asked for, and only there.
pub proof fn start_is_a_dry_run_only_where_asked(cli: Cli, dry_run: bool, r: Task)
    requires
        call_ensures(task, (&cli,), r),
        cli.command == Some(Commands::Start { dry_run }),
    ensures
        r == (Task::Start { dry_run }),
{
}

/// As many lines of the log are shown as were asked for: the first ones, where those were
/// asked for, else the last ones; and where neither were, that is said.
pub proof fn log_is_shown_as_asked(cli: Cli, head: Option<usize>, tail: Option<usize>, r: Task)
    requires
        call_ensures(task, (&cli,), r),
        cli.command == Some(Commands::Log { head, tail }),
    ensures
        head matches Some(n) ==> r == Task::LogHead(n),
        head is None ==> (tail matches Some(n) ==> r == Task::LogTail(n)),
        head is None && tail is None ==> r == Task::LogPartMissing,
{
}

/// Every other command is its own task, and without a command the usage is shown, whatever
/// configuration was asked for.
pub proof fn command_is_its_task(cli: Cli, r: Task)
    requires
        call_ensures(task, (&cli,), r),
    ensures
        r == Task::Stop <==> cli.command == Some(Commands::Stop),
        r == Task::Status <==> cli.command == Some(Commands::Status),
        r == Task::Reload <==> cli.command == Some(Commands::Reload),
        r == Task::Install <==> cli.command == Some(Commands::Install),
        r == Task::Usage <==> cli.command is None,
{
}

/// A message with a process id begins with its text, and the process id is read back from
/// the brackets behind it.
pub proof fn process_id_is_read_back(text: Seq<char>, pid: i32)
    ensures
        ({
            let s = with_pid(text, pid);
            let n = text.len() as int;
            &&& s.len() > n + 7
            &&& s.take(n + 6) == text + " (pid "@
            &&& s.last() == ')'
            &&& i32_value(s.subrange(n + 6, s.len() - 1)) == Some(pid)
            &&& s.subrange(n + 6, s.len() - 1) == signed_decimal(pid as int)
        }),
{
    reveal_strlit(" (pid ");
    reveal_strlit(")");
    let s = with_pid(text, pid);
    let n = text.len() as int;
    let number = signed_decimal(pid as int);
    signed_decimal_reads_back(pid);
    decimal_reads_back(
        if pid < 0 {
            (-pid) as nat
        } else {
            pid as nat
        },
    );
    assert(s.take(n + 6) =~= text + " (pid "@);
    assert(s.subrange(n + 6, s.len() - 1) =~= number);
}

/// A second daemon is refused, with the process id of the first one; and only where the
/// first one is alive. Else the pid file of one that is gone is removed, and the program
/// goes into the background unless it is a dry run or is there already.
pub proof fn one_daemon_runs_at_a_time(
    recorded: Option<i32>,
    alive: bool,
    dry_run: bool,
    detached: bool,
    r: StartPlan,
)
    requires
        call_ensures(start_plan, (recorded, alive, dry_run, detached), r),
    ensures
        r is Refuse <==> recorded is Some && alive,
        r matches StartPlan::Refuse(text) ==> text@ == "dsorter is already running (pid "@
            + signed_decimal(recorded->0 as int) + ")"@,
        r matches StartPlan::Start { remove_pid_file, background } ==> {
            &&& remove_pid_file <==> recorded is Some
            &&& background <==> !dry_run && !detached
        },
{
    if recorded is Some && alive {
        reveal_strlit("dsorter is already running");
        reveal_strlit(" (pid ");
        reveal_strlit("dsorter is already running (pid ");
        assert("dsorter is already running"@ + " (pid "@ =~= "dsorter is already running (pid "@);
    }
}

/// The program starts itself again with the configuration that was asked for and as a dry
/// run where it is one, and with nothing else.
pub proof fn program_starts_itself_as_it_was_started(
    config: Option<&PathBuf>,
    dry_run: bool,
    r: Vec<PathBuf>,
)
    requires
        call_ensures(background_args, (config, dry_run), r),
    ensures
        ({
            let at: int = if config is Some {
                2
            } else {
                0
            };
            &&& r@.len() == at + if dry_run {
                2int
            } else {
                1int
            }
            &&& config matches Some(path) ==> raw(r@[0]) == encode_utf8("--config"@) && raw(r@[1])
                == raw(*path)
            &&& raw(r@[at]) == encode_utf8("start"@)
            &&& dry_run ==> raw(r@[at + 1]) == encode_utf8("--dry-run"@)
        }),
{
    let given = background_arguments(opt_path(config), dry_run);
    assert(raws(r@) == given);
    assert(raws(r@).len() == r@.len());
    assert forall|i: int| 0 <= i < r@.len() implies raw(#[trigger] r@[i]) == given[i] by {
        assert(raws(r@)[i] == raw(r@[i]));
    }
}

/// The process id of the program in the background is read back from what is said.
pub proof fn background_process_is_named(pid: u32, r: String)
    requires
        call_ensures(background_message, (pid,), r),
    ensures
        r@.len() > 36,
        r@.take(35) == "started dsorter in background (pid "@,
        r@.last() == ')',
        is_number(r@.subrange(35, r@.len() - 1)),
        number_value(r@.subrange(35, r@.len() - 1)) == pid,
        r@.subrange(35, r@.len() - 1) == decimal(pid as nat),
{
    reveal_strlit("started dsorter in background (pid ");
    reveal_strlit(")");
    decimal_reads_back(pid as nat);
    assert(r@.take(35) =~= "started dsorter in background (pid "@);
    assert(r@.subrange(35, r@.len() - 1) =~= decimal(pid as nat));
}

/// The log tells the whole of what is wrong with the configuration.
pub proof fn config_error_is_told_whole(error: ConfigError, r: String)
    requires
        call_ensures(config_error, (&error,), r),
    ensures
        error matches ConfigError::Io(message) ==> r@ == "config error: "@ + message@,
        error matches ConfigError::Parse(message) ==> r@ == "config error: "@ + message@,
        error is NoConfigDir ==> r@ == "config error: could not determine the config directory"@,
{
    if error is NoConfigDir {
        reveal_strlit("config error: ");
        reveal_strlit("could not determine the config directory");
        reveal_strlit("config error: could not determine the config directory");
        assert("config error: "@ + "could not determine the config directory"@
            =~= "config error: could not determine the config directory"@);
    }
}

/// A daemon is told to stop, or to reload, where one is on record and alive: the one on
/// record, and what it was asked for. Its pid file goes with it where it stops. Where there
/// is none, nothing is sent.
pub proof fn daemon_on_record_is_told(
    recorded: Option<i32>,
    alive: bool,
    stop: SignalPlan,
    reload: SignalPlan,
)
    requires
        call_ensures(stop_plan, (recorded, alive), stop),
        call_ensures(reload_plan, (recorded, alive), reload),
    ensures
        recorded is Some && alive ==> {
            &&& stop matches SignalPlan::Signal { pid, signal, remove_pid_file, message }
            &&& pid == recorded->0
            &&& signal == DaemonSignal::Stop
            &&& remove_pid_file
            &&& message@ == "stopped dsorter"@ + (" (pid "@ + signed_decimal(pid as int) + ")"@)
        },
        recorded is Some && alive ==> {
            &&& reload matches SignalPlan::Signal { pid, signal, remove_pid_file, message }
            &&& pid == recorded->0
            &&& signal == DaemonSignal::Reload
            &&& !remove_pid_file
            &&& message@ == "reloaded dsorter config"@ + (" (pid "@ + signed_decimal(pid as int)
                + ")"@)
        },
        recorded is None || !alive ==> {
            &&& stop matches SignalPlan::NotRunning(message)
            &&& message@ == "dsorter is not running"@
        },
        recorded is None || !alive ==> {
            &&& reload matches SignalPlan::NotRunning(message)
            &&& message@ == "dsorter is not running"@
        },
{
    if recorded is Some && alive {
        let pid = recorded->0;
        let end = " (pid "@ + signed_decimal(pid as int) + ")"@;
        assert(with_pid("stopped dsorter"@, pid) =~= "stopped dsorter"@ + end);
        assert(with_pid("reloaded dsorter config"@, pid) =~= "reloaded dsorter config"@ + end);
    }
}

/// A daemon that was told to stop is looked at thirty times; it is made to end where it is
/// still there after that, and only there.
pub proof fn stopping_is_not_waited_for_forever(polls: u32, alive: bool, r: WaitStep)
    requires
        call_ensures(wait_step, (polls, alive), r),
    ensures
        r == WaitStep::Terminate <==> polls >= 30,
        r == WaitStep::Sleep <==> polls < 30 && alive,
        r == WaitStep::Done <==> polls < 30 && !alive,
{
}

/// The status of a daemon that runs tells, in this order, its process id, the folder that it
/// watches, how many files it has sorted, and the last move where there was one. The process
/// id and the count are read back from the lines.
pub proof fn status_is_told_whole(recorded: Option<i32>, status: Status, r: Vec<String>)
    requires
        recorded is Some,
        call_ensures(status_report, (recorded, true, &StatusFile::Present(status)), r),
    ensures
        r@.len() == if status.last_action is Some {
            4int
        } else {
            3int
        },
        ({
            let first = r@[0]@;
            &&& first.len() > 25
            &&& first.take(24) == "dsorter is running (pid "@
            &&& first.last() == ')'
            &&& i32_value(first.subrange(24, first.len() - 1)) == Some(status.pid)
            &&& first.subrange(24, first.len() - 1) == signed_decimal(status.pid as int)
        }),
        r@[1]@ == "watching:     "@ + status.watching@,
        ({
            let third = r@[2]@;
            let count = status.files_sorted as nat;
            &&& third.len() > 14
            &&& third.take(14) == "files sorted: "@
            &&& is_number(third.skip(14))
            &&& number_value(third.skip(14)) == count
            &&& third.skip(14) == decimal(count)
        }),
        status.last_action matches Some(last) ==> r@[3]@ == "last action:  "@ + last@,
{
    let told = status_texts(recorded, true, StatusFile::Present(status));
    assert(texts(r@) == told);
    assert(texts(r@).len() == r@.len());
    assert forall|i: int| 0 <= i < r@.len() implies (#[trigger] r@[i])@ == told[i] by {
        assert(texts(r@)[i] == r@[i]@);
    }
    reveal_strlit("dsorter is running");
    reveal_strlit(" (pid ");
    reveal_strlit("dsorter is running (pid ");
    reveal_strlit("files sorted: ");
    assert("dsorter is running"@ + " (pid "@ =~= "dsorter is running (pid "@);
    process_id_is_read_back("dsorter is running"@, status.pid);
    let count = status.files_sorted as nat;
    decimal_reads_back(count);
    assert(("files sorted: "@ + decimal(count)).take(14) =~= "files sorted: "@);
    assert(("files sorted: "@ + decimal(count)).skip(14) =~= decimal(count));
}

/// Two statuses with different counts are told in different words.
pub proof fn different_counts_are_told_apart(
    recorded: Option<i32>,
    one: Status,
    other: Status,
    first: Vec<String>,
    second: Vec<String>,
)
    requires
        recorded is Some,
        call_ensures(status_report, (recorded, true, &StatusFile::Present(one)), first),
        call_ensures(status_report, (recorded, true, &StatusFile::Present(other)), second),
        one.files_sorted != other.files_sorted,
    ensures
        first@[2]@ != second@[2]@,
{
    status_is_told_whole(recorded, one, first);
    status_is_told_whole(recorded, other, second);
}

/// Where no daemon runs, that is all that is told, whatever the status file says; and where
/// one runs without a status that can be read, its process id on record is told with it.
pub proof fn status_without_a_status_file(
    recorded: Option<i32>,
    alive: bool,
    file: StatusFile,
    r: Vec<String>,
)
    requires
        call_ensures(status_report, (recorded, alive, &file), r),
        recorded is None || !alive || file !is Present,
    ensures
        r@.len() == 1,
        recorded is None || !alive ==> r@[0]@ == "dsorter is not running"@,
        recorded is Some && alive && file is Missing ==> r@[0]@ == "dsorter is running (pid "@
            + signed_decimal(recorded->0 as int) + ") — no status file yet"@,
        recorded is Some && alive && file is Unreadable ==> r@[0]@ == "dsorter is running (pid "@
            + signed_decimal(recorded->0 as int) + ") — status file unreadable"@,
{
    let told = status_texts(recorded, alive, file);
    assert(texts(r@) == told);
    assert(texts(r@).len() == r@.len());
    assert(texts(r@)[0] == r@[0]@);
    reveal_strlit("dsorter is running");
    reveal_strlit(" (pid ");
    reveal_strlit("dsorter is running (pid ");
    reveal_strlit(")");
    reveal_strlit(" — no status file yet");
    reveal_strlit(") — no status file yet");
    reveal_strlit(" — status file unreadable");
    reveal_strlit(") — status file unreadable");
    assert("dsorter is running"@ + " (pid "@ =~= "dsorter is running (pid "@);
    assert(")"@ + " — no status file yet"@ =~= ") — no status file yet"@);
    assert(")"@ + " — status file unreadable"@ =~= ") — status file unreadable"@);
    if recorded is Some && alive {
        let front = "dsorter is running (pid "@ + signed_decimal(recorded->0 as int);
        assert(front + ")"@ + " — no status file yet"@ =~= front + (")"@
            + " — no status file yet"@));
        assert(front + ")"@ + " — status file unreadable"@ =~= front + (")"@
            + " — status file unreadable"@));
    }
}

/// Where no command is given, every command of everyday use is named with what it does.
pub proof fn usage_names_the_commands(cli: Cli, r: Task)
    requires
        call_ensures(task, (&cli,), r),
        cli.command is None,
    ensures
        r == Task::Usage,
        USAGE@ == "dsorter — watches a folder and auto-sorts new files by type

USAGE:
  dsorter start           Start watching (daemonizes)
  dsorter stop            Stop the running daemon
  dsorter status          Show current daemon status
  dsorter reload          Reload config without restarting
  dsorter log --tail N    Show last N log lines
  dsorter log --head N    Show first N log lines

Run `dsorter --help` for full details."@,
        LOG_PART_MISSING@ == "specify --head <N> or --tail <N>"@,
{
}

} // verus!
