//! What holds of the daemon whatever the system answers.
use vstd::prelude::*;
use crate::config::status::StatusView;
use crate::config::Config;
use crate::daemon::model::{
    is_partial, moved_text, next, pending, sorted_as, sorting_extension, started, step_to,
};
use crate::daemon::{
    DaemonView, EffectView, EventKind, InputView, OutputView, PhaseView, ReceivedView, RequestView,
};
use crate::paths::{file_name_of, lossy, same_place, shown};
use crate::text::lowercase;
use crate::types::{destination, DestinationView};
use crate::utils::expanded;

verus! {

/// One answer of the system: the input, and the home directory at that time.
pub struct Answer {
    pub input: InputView,
    pub home: Option<Seq<u8>>,
}

/// The daemon after the given answers.
pub open spec fn after(d: DaemonView, answers: Seq<Answer>) -> DaemonView
    decreases answers.len(),
{
    if answers.len() == 0 {
        d
    } else {
        let before = after(d, answers.drop_last());
        next(before, answers.last().input, answers.last().home).0
    }
}

/// What the last of the given answers leads to.
pub open spec fn last_output(d: DaemonView, answers: Seq<Answer>) -> OutputView
    recommends
        answers.len() > 0,
{
    next(after(d, answers.drop_last()), answers.last().input, answers.last().home).1
}

/// The daemon at its start.
pub open spec fn at_start(
    config: Config,
    dry_run: bool,
    pid: i32,
    started_at: u64,
    watch_path: Seq<u8>,
) -> DaemonView {
    started(config, dry_run, pid, started_at, watch_path).0
}

/// Every step leaves the daemon with the request that it gave out.
pub proof fn output_is_the_pending_request(d: DaemonView, input: InputView, home: Option<Seq<u8>>)
    ensures
        next(d, input, home).1.request == pending(next(d, input, home).0),
{
}

/// A dry run moves nothing: whatever is answered, no move is ever asked for, and no file is
/// ever counted or reported as moved.
pub proof fn dry_run_moves_nothing(
    config: Config,
    pid: i32,
    started_at: u64,
    watch_path: Seq<u8>,
    answers: Seq<Answer>,
)
    ensures
        ({
            let d = after(at_start(config, true, pid, started_at, watch_path), answers);
            &&& d.dry_run
            &&& d.phase !is Moving
            &&& pending(d) !is Move
            &&& d.status.files_sorted == 0
            &&& d.status.last_action is None
        }),
    decreases answers.len(),
{
    if answers.len() > 0 {
        dry_run_moves_nothing(config, pid, started_at, watch_path, answers.drop_last());
    }
}

/// How many moves the answers confirm, up to the one at which the count is full.
pub open spec fn confirmed_moves(d: DaemonView, answers: Seq<Answer>) -> nat
    decreases answers.len(),
{
    if answers.len() == 0 {
        0
    } else {
        let before = after(d, answers.drop_last());
        let so_far = confirmed_moves(d, answers.drop_last());
        if before.phase is Moving && answers.last().input == InputView::Moved(None) && so_far
            < u64::MAX {
            so_far + 1
        } else {
            so_far
        }
    }
}

/// The status counts the files that were moved, no more and no fewer.
pub proof fn status_counts_the_moves(
    config: Config,
    dry_run: bool,
    pid: i32,
    started_at: u64,
    watch_path: Seq<u8>,
    answers: Seq<Answer>,
)
    ensures
        ({
            let d = at_start(config, dry_run, pid, started_at, watch_path);
            after(d, answers).status.files_sorted == confirmed_moves(d, answers)
        }),
    decreases answers.len(),
{
    if answers.len() > 0 {
        status_counts_the_moves(
            config,
            dry_run,
            pid,
            started_at,
            watch_path,
            answers.drop_last(),
        );
    }
}

/// What is said of the latest of the moves that the answers confirm and that are counted.
pub open spec fn latest_move(d: DaemonView, answers: Seq<Answer>) -> Option<Seq<char>>
    decreases answers.len(),
{
    if answers.len() == 0 {
        None
    } else {
        let front = answers.drop_last();
        match after(d, front).phase {
            PhaseView::Moving { path, name, dest_dir } => if answers.last().input
                == InputView::Moved(None) && confirmed_moves(d, front) < u64::MAX {
                Some(moved_text(name, dest_dir))
            } else {
                latest_move(d, front)
            },
            _ => latest_move(d, front),
        }
    }
}

/// The status tells of the latest move; and it tells of one exactly where it counts any.
pub proof fn status_tells_the_latest_move(
    config: Config,
    dry_run: bool,
    pid: i32,
    started_at: u64,
    watch_path: Seq<u8>,
    answers: Seq<Answer>,
)
    ensures
        ({
            let d = at_start(config, dry_run, pid, started_at, watch_path);
            let status = after(d, answers).status;
            &&& status.last_action == latest_move(d, answers)
            &&& status.last_action is None <==> status.files_sorted == 0
        }),
    decreases answers.len(),
{
    if answers.len() > 0 {
        let front = answers.drop_last();
        status_tells_the_latest_move(config, dry_run, pid, started_at, watch_path, front);
        status_counts_the_moves(config, dry_run, pid, started_at, watch_path, front);
    }
}

/// What the status file says after the effects, if it said `shown` before: the last status
/// that was written.
pub open spec fn shown_after(shown: StatusView, effects: Seq<EffectView>) -> StatusView
    decreases effects.len(),
{
    if effects.len() == 0 {
        shown
    } else {
        match effects.last() {
            EffectView::WriteStatus(status) => status,
            _ => shown_after(shown, effects.drop_last()),
        }
    }
}

/// What the status file says after a run that starts with `earlier` in it.
pub open spec fn status_shown(earlier: StatusView, d: DaemonView, answers: Seq<Answer>) -> StatusView
    decreases answers.len(),
{
    if answers.len() == 0 {
        earlier
    } else {
        shown_after(status_shown(earlier, d, answers.drop_last()), last_output(d, answers).effects)
    }
}

/// One step keeps the status file up to date.
proof fn lemma_step_keeps_status_shown(d: DaemonView, input: InputView, home: Option<Seq<u8>>)
    ensures
        shown_after(d.status, next(d, input, home).1.effects) == next(d, input, home).0.status,
{
    let effects = next(d, input, home).1.effects;
    reveal_with_fuel(shown_after, 4);
    assert(effects.len() <= 3);
    if effects.len() == 1 {
        assert(effects.drop_last() =~= seq![]);
    } else if effects.len() == 2 {
        assert(effects.drop_last() =~= seq![effects[0]]);
        assert(effects.drop_last().drop_last() =~= seq![]);
    } else if effects.len() == 3 {
        assert(effects.drop_last() =~= seq![effects[0], effects[1]]);
        assert(effects.drop_last().drop_last() =~= seq![effects[0]]);
        assert(effects.drop_last().drop_last().drop_last() =~= seq![]);
    }
}

/// The status file is up to date after every step: it says what the daemon's status is.
pub proof fn status_file_is_up_to_date(
    config: Config,
    dry_run: bool,
    pid: i32,
    started_at: u64,
    watch_path: Seq<u8>,
    earlier: StatusView,
    answers: Seq<Answer>,
)
    ensures
        ({
            let (d, out) = started(config, dry_run, pid, started_at, watch_path);
            status_shown(shown_after(earlier, out.effects), d, answers) == after(d, answers).status
        }),
    decreases answers.len(),
{
    let (d, out) = started(config, dry_run, pid, started_at, watch_path);
    if answers.len() > 0 {
        status_file_is_up_to_date(
            config,
            dry_run,
            pid,
            started_at,
            watch_path,
            earlier,
            answers.drop_last(),
        );
        lemma_step_keeps_status_shown(
            after(d, answers.drop_last()),
            answers.last().input,
            answers.last().home,
        );
    }
}

/// The status names the path that is watched, and the process and the time of the start.
pub proof fn status_names_the_watched_path(
    config: Config,
    dry_run: bool,
    pid: i32,
    started_at: u64,
    watch_path: Seq<u8>,
    answers: Seq<Answer>,
)
    ensures
        ({
            let d = after(at_start(config, dry_run, pid, started_at, watch_path), answers);
            &&& d.status.watching == shown(d.watch_path)
            &&& d.status.pid == pid
            &&& d.status.started_at == started_at
        }),
    decreases answers.len(),
{
    if answers.len() > 0 {
        status_names_the_watched_path(
            config,
            dry_run,
            pid,
            started_at,
            watch_path,
            answers.drop_last(),
        );
    }
}

/// A daemon that was asked to stop removes its pid file and stops, also where it was asked
/// to reload at the same time.
pub proof fn stop_request_stops(d: DaemonView, reload: bool, home: Option<Seq<u8>>)
    requires
        d.phase is Polling,
    ensures
        ({
            let (e, out) = next(d, InputView::Flags { stop: true, reload }, home);
            &&& e.phase == PhaseView::Stopped { success: true }
            &&& out.request == RequestView::Exit { success: true }
            &&& out.effects.last() == EffectView::RemovePidFile
        }),
{
}

/// Once stopped or failed, the daemon does nothing more, whatever is answered.
pub proof fn stopped_daemon_stays_stopped(d: DaemonView, answers: Seq<Answer>)
    requires
        d.phase is Stopped || d.phase is Failed,
    ensures
        after(d, answers) == d,
        answers.len() > 0 ==> last_output(d, answers).effects == Seq::<EffectView>::empty(),
    decreases answers.len(),
{
    if answers.len() > 0 {
        stopped_daemon_stays_stopped(d, answers.drop_last());
    }
}

/// A configuration that cannot be loaded changes nothing: the old one, the watched path
/// and the status stay, and the daemon goes on.
pub proof fn failed_reload_changes_nothing(d: DaemonView, e: Seq<char>, home: Option<Seq<u8>>)
    requires
        d.phase is Loading,
    ensures
        next(d, InputView::Loaded(Err(e)), home).0 == (DaemonView {
            phase: PhaseView::Receiving,
            ..d
        }),
{
}

/// A configuration that was loaded takes effect, whether or not the system lets go of the
/// old path and watches the new one. The path that it names is watched from then on,
/// unless it is the old one or the system refuses it; then it is the old one, and the
/// daemon asks for that again.
pub proof fn reload_takes_effect(
    d: DaemonView,
    config: Config,
    home: Option<Seq<u8>>,
    unwatch_error: Option<Seq<char>>,
    watch_error: Option<Seq<char>>,
    later_home: Option<Seq<u8>>,
)
    requires
        d.phase is Loading,
        expanded(config.watch.path@, home) is Some,
    ensures
        ({
            let path = expanded(config.watch.path@, home)->0;
            let first = next(d, InputView::Loaded(Ok(config)), home).0;
            let second = next(first, InputView::Unwatched(unwatch_error), later_home).0;
            let (third, out) = next(second, InputView::Watched(watch_error), later_home);
            if same_place(path, d.watch_path) {
                first == (DaemonView { config, phase: PhaseView::Receiving, ..d })
            } else {
                &&& third.config == config
                &&& third.phase is Receiving
                &&& watch_error is None ==> third.watch_path == path && third.status.watching
                    == shown(path) && out.effects.contains(EffectView::WriteStatus(third.status))
                &&& watch_error is Some ==> third.watch_path == d.watch_path && third.status
                    == d.status && out.effects.contains(EffectView::Rewatch(d.watch_path))
            }
        }),
{
    let path = expanded(config.watch.path@, home)->0;
    let first = next(d, InputView::Loaded(Ok(config)), home).0;
    let second = next(first, InputView::Unwatched(unwatch_error), later_home).0;
    let (third, out) = next(second, InputView::Watched(watch_error), later_home);
    if !same_place(path, d.watch_path) {
        assert(out.effects[1] == if watch_error is None {
            EffectView::WriteStatus(third.status)
        } else {
            EffectView::Rewatch(d.watch_path)
        });
    }
}

/// A file that is still being downloaded is left alone: nothing is done and nothing is
/// logged, whatever the case of its extension.
pub proof fn partial_files_are_left_alone(
    d: DaemonView,
    path: Seq<u8>,
    ext: Seq<char>,
    exists: bool,
    is_dir: bool,
    home: Option<Seq<u8>>,
)
    requires
        d.phase == (PhaseView::Inspecting { path }),
        sorting_extension(path) == Some(ext),
        is_partial(d.config, lowercase(ext)),
    ensures
        next(d, InputView::Inspected { exists, is_dir }, home) == step_to(
            DaemonView { phase: PhaseView::Polling, ..d },
            seq![],
        ),
{
}

/// A move is asked for only of an existing file, that is no directory and not still being
/// downloaded, and only to the folder that the configuration names for its category.
pub proof fn moves_follow_the_configuration(
    d: DaemonView,
    input: InputView,
    home: Option<Seq<u8>>,
    path: Seq<u8>,
    dest_dir: Seq<u8>,
)
    requires
        d.phase !is Moving,
        next(d, input, home).1.request == (RequestView::Move { path, dest_dir }),
    ensures
        d.phase is Inspecting,
        d.phase->Inspecting_path == path,
        input == (InputView::Inspected { exists: true, is_dir: false }),
        !d.dry_run,
        file_name_of(path) is Some,
        ({
            let ext = sorting_extension(path);
            &&& ext is Some ==> !is_partial(d.config, lowercase(ext->0))
            &&& destination(sorted_as(d.config, ext), d.config, home) == DestinationView::Folder(
                dest_dir,
            )
        }),
{
}

/// A file that is created or renamed in the watched folder is sorted, a renamed one under
/// its new name, which is the last path of the event: it is logged with its
/// category and moved to the folder that the configuration names for the category, unless
/// it is still being downloaded. When it was moved, it is counted, and the daemon looks for
/// what comes next.
pub proof fn new_file_is_sorted(
    d: DaemonView,
    kind: EventKind,
    paths: Seq<Seq<u8>>,
    path: Seq<u8>,
    own: Seq<u8>,
    dest_dir: Seq<u8>,
    home: Option<Seq<u8>>,
)
    requires
        d.phase is Receiving,
        !d.dry_run,
        d.status.files_sorted < u64::MAX,
        kind == EventKind::Create || kind == EventKind::Rename,
        paths.len() > 0,
        paths.last() == path,
        file_name_of(path) == Some(own),
        ({
            let ext = sorting_extension(path);
            &&& ext is Some ==> !is_partial(d.config, lowercase(ext->0))
            &&& destination(sorted_as(d.config, ext), d.config, home) == DestinationView::Folder(
                dest_dir,
            )
        }),
    ensures
        ({
            let event = ReceivedView::Event { kind, paths };
            let name = lossy(own);
            let category = sorted_as(d.config, sorting_extension(path));
            let (seen, look) = next(d, InputView::Received(event), home);
            let (found, out) = next(
                seen,
                InputView::Inspected { exists: true, is_dir: false },
                home,
            );
            let (moved, report) = next(found, InputView::Moved(None), home);
            &&& look.request == RequestView::Inspect(path)
            &&& out.effects == seq![EffectView::Log(name + " -> "@ + category.name_text())]
            &&& out.request == RequestView::Move { path, dest_dir }
            &&& moved.status.files_sorted == d.status.files_sorted + 1
            &&& moved.status.last_action == Some(moved_text(name, dest_dir))
            &&& report.effects == seq![
                EffectView::Log(moved_text(name, dest_dir)),
                EffectView::WriteStatus(moved.status),
            ]
            &&& moved.phase is Polling
        }),
{
}

/// The input answers the request that is pending.
pub open spec fn answers_pending(d: DaemonView, input: InputView) -> bool {
    match d.phase {
        PhaseView::Creating => input is WatcherCreated,
        PhaseView::Attaching => input is Watched,
        PhaseView::Polling => input is Flags,
        PhaseView::Loading => input is Loaded,
        PhaseView::Unwatching { config, path } => input is Unwatched,
        PhaseView::Watching { config, path } => input is Watched,
        PhaseView::Receiving => input is Received,
        PhaseView::Inspecting { path } => input is Inspected,
        PhaseView::Moving { path, name, dest_dir } => input is Moved,
        PhaseView::Stopped { success } => false,
        PhaseView::Failed { message } => false,
    }
}

/// How many answers it takes at most until the daemon reads its flags or is done.
pub open spec fn answers_to_go(d: DaemonView) -> nat {
    match d.phase {
        PhaseView::Loading => 6,
        PhaseView::Unwatching { config, path } => 5,
        PhaseView::Watching { config, path } => 4,
        PhaseView::Receiving => 3,
        PhaseView::Inspecting { path } => 2,
        PhaseView::Creating => 2,
        PhaseView::Moving { path, name, dest_dir } => 1,
        PhaseView::Attaching => 1,
        PhaseView::Polling => 0,
        PhaseView::Stopped { success } => 0,
        PhaseView::Failed { message } => 0,
    }
}

/// Every answer brings the daemon nearer to reading its flags, so that a request to stop or
/// to reload is seen after a few answers, whatever they are.
pub proof fn flags_are_read_soon(d: DaemonView, input: InputView, home: Option<Seq<u8>>)
    requires
        answers_pending(d, input),
    ensures
        d.phase !is Polling ==> answers_to_go(next(d, input, home).0) < answers_to_go(d),
        answers_to_go(next(d, input, home).0) <= 6,
{
}

/// Which paths the system watches after an answer, if it watched `watched` before and
/// grants what is asked for without an answer.
pub open spec fn watched_after(watched: Set<Seq<u8>>, d: DaemonView, input: InputView) -> Set<Seq<u8>> {
    match (d.phase, input) {
        (PhaseView::Attaching, InputView::Watched(None)) => watched.insert(d.watch_path),
        (
            PhaseView::Unwatching { config, path },
            InputView::Unwatched(None),
        ) => watched.remove(d.watch_path),
        (PhaseView::Watching { config, path }, InputView::Watched(None)) => watched.insert(path),
        (
            PhaseView::Watching { config, path },
            InputView::Watched(Some(e)),
        ) => watched.insert(d.watch_path),
        _ => watched,
    }
}

/// Which paths the system watches after a run that starts with none.
pub open spec fn watched(d: DaemonView, answers: Seq<Answer>) -> Set<Seq<u8>>
    decreases answers.len(),
{
    if answers.len() == 0 {
        Set::empty()
    } else {
        watched_after(
            watched(d, answers.drop_last()),
            after(d, answers.drop_last()),
            answers.last().input,
        )
    }
}

/// The daemon is past its start and neither done nor between two paths.
pub open spec fn is_watching(d: DaemonView) -> bool {
    match d.phase {
        PhaseView::Polling => true,
        PhaseView::Loading => true,
        PhaseView::Unwatching { config, path } => true,
        PhaseView::Receiving => true,
        PhaseView::Inspecting { path } => true,
        PhaseView::Moving { path, name, dest_dir } => true,
        _ => false,
    }
}

/// No answer says that a path could not be let go of.
pub open spec fn lets_go(answers: Seq<Answer>) -> bool {
    forall|i: int|
        0 <= i < answers.len() ==> !(#[trigger] answers[i].input matches InputView::Unwatched(
            Some(e),
        ))
}

/// Whatever configurations are loaded and whatever fails, the path that the daemon takes
/// for watched is watched; and where the system always lets go of paths, no other one is.
pub proof fn watched_path_is_watched(
    config: Config,
    dry_run: bool,
    pid: i32,
    started_at: u64,
    watch_path: Seq<u8>,
    answers: Seq<Answer>,
)
    ensures
        ({
            let start = at_start(config, dry_run, pid, started_at, watch_path);
            let d = after(start, answers);
            &&& is_watching(d) ==> watched(start, answers).contains(d.watch_path)
            &&& is_watching(d) && lets_go(answers) ==> watched(start, answers)
                == Set::<Seq<u8>>::empty().insert(d.watch_path)
        }),
{
    lemma_watched(
        at_start(config, dry_run, pid, started_at, watch_path),
        answers,
    );
}

proof fn lemma_watched(start: DaemonView, answers: Seq<Answer>)
    requires
        start.phase is Creating,
    ensures
        ({
            let d = after(start, answers);
            let w = watched(start, answers);
            &&& is_watching(d) ==> w.contains(d.watch_path)
            &&& lets_go(answers) ==> {
                &&& is_watching(d) ==> w =~= Set::<Seq<u8>>::empty().insert(d.watch_path)
                &&& d.phase is Creating || d.phase is Attaching || d.phase is Watching ==> w
                    =~= Set::<Seq<u8>>::empty()
            }
        }),
    decreases answers.len(),
{
    if answers.len() > 0 {
        let front = answers.drop_last();
        lemma_watched(start, front);
        if lets_go(answers) {
            assert forall|i: int| 0 <= i < front.len() implies !(
            #[trigger] front[i].input matches InputView::Unwatched(Some(e))) by {
                assert(front[i] == answers[i]);
            }
            assert(answers[answers.len() - 1] == answers.last());
        }
        assert(after(start, answers) == next(
            after(start, front),
            answers.last().input,
            answers.last().home,
        ).0);
    }
}

} // verus!
