//! What holds of single steps: for each answer, what is done, what is asked for next, and
//! what stays as it was.
use std::path::PathBuf;
use vstd::hash_set::StringHashSet;
use vstd::prelude::*;
use vstd::utf8::{encode_utf8, valid_utf8};
use crate::config::status::StatusView;
use crate::config::{Config, ExtensionGroup};
use crate::daemon::model::{is_partial, next, sorted_as, sorting_extension, started};
use crate::daemon::run::{partial_extensions, Daemon};
use crate::daemon::{
    DaemonView, Effect, EffectView, EventKind, Input, InputView, Output, OutputView, PhaseView,
    Received, ReceivedView, Request, RequestView,
};
use crate::error::ConfigError;
use crate::moves::{
    name_is_parted_at_its_last_dot, name_without_a_dot_is_its_stem,
    text_without_a_dot_has_no_such_byte,
};
use crate::paths::{
    file_name_of, joined, lossy, opt_path, raw, same_place, shown, text_of_a_path_is_its_text,
};
use crate::text::lowercase;
use crate::types::{key_text_names_its_category, Category};
use crate::utils::{expanded, listed_extension_belongs_to_its_group, tilde_path_is_expanded};

verus! {

/// A daemon starts with the configuration that it was given, has moved nothing yet, says so
/// in its status file, and asks for a watcher.
pub proof fn daemon_starts_afresh(
    config: Config,
    dry_run: bool,
    pid: i32,
    started_at: u64,
    watch_path: Seq<u8>,
)
    ensures
        ({
            let (d, out) = started(config, dry_run, pid, started_at, watch_path);
            &&& d.config == config
            &&& d.dry_run == dry_run
            &&& d.watch_path == watch_path
            &&& d.phase is Creating
            &&& d.status.watching == shown(watch_path)
            &&& d.status.pid == pid
            &&& d.status.started_at == started_at
            &&& d.status.last_action is None
            &&& d.status.files_sorted == 0
            &&& out.effects == seq![EffectView::WriteStatus(d.status)]
            &&& out.request is CreateWatcher
        }),
{
}

/// With a watcher the daemon goes on to watch its path, and then to its flags; where either
/// fails it logs what came and ends in failure.
pub proof fn daemon_needs_a_watcher_and_its_path(
    d: DaemonView,
    e: Seq<char>,
    home: Option<Seq<u8>>,
)
    ensures
        d.phase is Creating ==> {
            &&& next(d, InputView::WatcherCreated(None), home) == (
                DaemonView { phase: PhaseView::Attaching, ..d },
                OutputView { effects: seq![], request: RequestView::Watch(d.watch_path) },
            )
            &&& next(d, InputView::WatcherCreated(Some(e)), home) == (
                DaemonView { phase: PhaseView::Stopped { success: false }, ..d },
                OutputView {
                    effects: seq![EffectView::Log("failed to create watcher: "@ + e)],
                    request: RequestView::Exit { success: false },
                },
            )
        },
        d.phase is Attaching ==> {
            &&& next(d, InputView::Watched(None), home) == (
                DaemonView { phase: PhaseView::Polling, ..d },
                OutputView { effects: seq![], request: RequestView::ReadFlags },
            )
            &&& next(d, InputView::Watched(Some(e)), home) == (
                DaemonView { phase: PhaseView::Stopped { success: false }, ..d },
                OutputView {
                    effects: seq![
                        EffectView::Log("failed to watch "@ + shown(d.watch_path) + ": "@ + e),
                    ],
                    request: RequestView::Exit { success: false },
                },
            )
        },
{
}

/// A daemon that is asked for nothing waits for the watcher; one that is asked to reload
/// asks for the configuration; one that is asked to stop says so, removes its pid file and
/// ends well, whether or not it is to reload.
pub proof fn flags_are_obeyed(d: DaemonView, reload: bool, home: Option<Seq<u8>>)
    requires
        d.phase is Polling,
    ensures
        next(d, InputView::Flags { stop: true, reload }, home) == (
            DaemonView { phase: PhaseView::Stopped { success: true }, ..d },
            OutputView {
                effects: seq![
                    EffectView::Log("dsorter received stop signal, shutting down"@),
                    EffectView::RemovePidFile,
                ],
                request: RequestView::Exit { success: true },
            },
        ),
        next(d, InputView::Flags { stop: false, reload: true }, home) == (
            DaemonView { phase: PhaseView::Loading, ..d },
            OutputView { effects: seq![], request: RequestView::LoadConfig },
        ),
        next(d, InputView::Flags { stop: false, reload: false }, home) == (
            DaemonView { phase: PhaseView::Receiving, ..d },
            OutputView { effects: seq![], request: RequestView::Receive },
        ),
{
}

/// A configuration that cannot be loaded is logged with what is wrong, and nothing else
/// comes of it. One that names the watched path is adopted at once. One that names another
/// is adopted after the old path was let go of, which is asked for.
pub proof fn configuration_is_reloaded(
    d: DaemonView,
    config: Config,
    e: Seq<char>,
    path: Seq<u8>,
    home: Option<Seq<u8>>,
)
    requires
        d.phase is Loading,
    ensures
        next(d, InputView::Loaded(Err(e)), home) == (
            DaemonView { phase: PhaseView::Receiving, ..d },
            OutputView {
                effects: seq![EffectView::Log("reload failed, keeping old config: "@ + e)],
                request: RequestView::Receive,
            },
        ),
        expanded(config.watch.path@, home) == Some(path) && same_place(path, d.watch_path)
            ==> next(d, InputView::Loaded(Ok(config)), home) == (
            DaemonView { config, phase: PhaseView::Receiving, ..d },
            OutputView {
                effects: seq![EffectView::Log("config reloaded"@)],
                request: RequestView::Receive,
            },
        ),
        expanded(config.watch.path@, home) == Some(path) && !same_place(path, d.watch_path)
            ==> next(d, InputView::Loaded(Ok(config)), home) == (
            DaemonView { phase: PhaseView::Unwatching { config, path }, ..d },
            OutputView { effects: seq![], request: RequestView::Unwatch(d.watch_path) },
        ),
        expanded(config.watch.path@, home) is None ==> next(d, InputView::Loaded(Ok(config)), home)
            == (
            DaemonView {
                phase: PhaseView::Failed { message: "could not determine home directory"@ },
                ..d
            },
            OutputView {
                effects: seq![],
                request: RequestView::Fail("could not determine home directory"@),
            },
        ),
{
}

/// When the old path was let go of, or not, the new one is watched. Where that succeeds the
/// new path takes the place of the old one, also in the status file; where it fails the old
/// one is watched again. Either way the configuration is adopted, and the log says so.
pub proof fn watched_path_is_changed(
    d: DaemonView,
    config: Config,
    path: Seq<u8>,
    e: Seq<char>,
    home: Option<Seq<u8>>,
)
    ensures
        d.phase == (PhaseView::Unwatching { config, path }) ==> {
            let waiting = DaemonView { phase: PhaseView::Watching { config, path }, ..d };
            &&& next(d, InputView::Unwatched(None), home) == (
                waiting,
                OutputView { effects: seq![], request: RequestView::Watch(path) },
            )
            &&& next(d, InputView::Unwatched(Some(e)), home) == (
                waiting,
                OutputView {
                    effects: seq![
                        EffectView::Log("failed to unwatch "@ + shown(d.watch_path) + ": "@ + e),
                    ],
                    request: RequestView::Watch(path),
                },
            )
        },
        d.phase == (PhaseView::Watching { config, path }) ==> {
            let status = StatusView { watching: shown(path), ..d.status };
            &&& next(d, InputView::Watched(None), home) == (
                DaemonView {
                    config,
                    watch_path: path,
                    status,
                    dry_run: d.dry_run,
                    phase: PhaseView::Receiving,
                },
                OutputView {
                    effects: seq![
                        EffectView::Log("now watching "@ + shown(path)),
                        EffectView::WriteStatus(status),
                        EffectView::Log("config reloaded"@),
                    ],
                    request: RequestView::Receive,
                },
            )
            &&& next(d, InputView::Watched(Some(e)), home) == (
                DaemonView { config, phase: PhaseView::Receiving, ..d },
                OutputView {
                    effects: seq![
                        EffectView::Log(
                            "failed to watch "@ + shown(path) + ": "@ + (e + " — reverting"@),
                        ),
                        EffectView::Rewatch(d.watch_path),
                        EffectView::Log("config reloaded"@),
                    ],
                    request: RequestView::Receive,
                },
            )
        },
{
}

/// Of an event that creates or renames something, the last path is looked at. Any other
/// event is passed over in silence, as is one without a path and a wait in vain. An error of
/// the watcher is logged, and a watcher that is gone ends the daemon.
pub proof fn last_path_of_an_event_is_looked_at(
    d: DaemonView,
    kind: EventKind,
    paths: Seq<Seq<u8>>,
    e: Seq<char>,
    home: Option<Seq<u8>>,
)
    requires
        d.phase is Receiving,
    ensures
        ({
            let silent = (
                DaemonView { phase: PhaseView::Polling, ..d },
                OutputView { effects: seq![], request: RequestView::ReadFlags },
            );
            let event = next(d, InputView::Received(ReceivedView::Event { kind, paths }), home);
            &&& (kind == EventKind::Create || kind == EventKind::Rename) && paths.len() > 0
                ==> event == (
                DaemonView {
                    phase: PhaseView::Inspecting { path: paths[paths.len() - 1] },
                    ..d
                },
                OutputView {
                    effects: seq![],
                    request: RequestView::Inspect(paths[paths.len() - 1]),
                },
            )
            &&& kind == EventKind::Other || paths.len() == 0 ==> event == silent
            &&& next(d, InputView::Received(ReceivedView::Timeout), home) == silent
        }),
        next(d, InputView::Received(ReceivedView::Error(e)), home) == (
            DaemonView { phase: PhaseView::Polling, ..d },
            OutputView {
                effects: seq![EffectView::Log("watch error: "@ + e)],
                request: RequestView::ReadFlags,
            },
        ),
        next(d, InputView::Received(ReceivedView::Disconnected), home) == (
            DaemonView { phase: PhaseView::Stopped { success: true }, ..d },
            OutputView {
                effects: seq![EffectView::Log("watcher channel disconnected, shutting down"@)],
                request: RequestView::Exit { success: true },
            },
        ),
{
}

/// What is not there any more, and what is a directory, is passed over in silence.
pub proof fn only_files_are_sorted(
    d: DaemonView,
    path: Seq<u8>,
    there: bool,
    is_dir: bool,
    home: Option<Seq<u8>>,
)
    requires
        d.phase == (PhaseView::Inspecting { path }),
        !there || is_dir,
    ensures
        next(d, InputView::Inspected { exists: there, is_dir }, home) == (
            DaemonView { phase: PhaseView::Polling, ..d },
            OutputView { effects: seq![], request: RequestView::ReadFlags },
        ),
{
}

/// A file that was moved is logged, counted and told of in the status file, under its name
/// and with the folder it went to; one that could not be moved is logged with what came, and
/// is not counted. Where the count is full, a moved file is logged and the daemon cannot go
/// on.
pub proof fn moved_file_is_counted(
    d: DaemonView,
    path: Seq<u8>,
    name: Seq<char>,
    dest_dir: Seq<u8>,
    e: Seq<char>,
    home: Option<Seq<u8>>,
)
    requires
        d.phase == (PhaseView::Moving { path, name, dest_dir }),
    ensures
        next(d, InputView::Moved(Some(e)), home) == (
            DaemonView { phase: PhaseView::Polling, ..d },
            OutputView {
                effects: seq![EffectView::Log("failed to move "@ + name + ": "@ + e)],
                request: RequestView::ReadFlags,
            },
        ),
        d.status.files_sorted == u64::MAX ==> {
            let (full, out) = next(d, InputView::Moved(None), home);
            &&& full.status == d.status
            &&& full.phase is Failed
            &&& out.effects == seq![
                EffectView::Log("moved "@ + name + " -> "@ + shown(dest_dir)),
            ]
            &&& out.request == RequestView::Fail("too many files sorted"@)
        },
        d.status.files_sorted < u64::MAX ==> {
            let done = "moved "@ + name + " -> "@ + shown(dest_dir);
            let status = StatusView {
                watching: d.status.watching,
                pid: d.status.pid,
                started_at: d.status.started_at,
                last_action: Some(done),
                files_sorted: (d.status.files_sorted + 1) as u64,
            };
            next(d, InputView::Moved(None), home) == (
                DaemonView { status, phase: PhaseView::Polling, ..d },
                OutputView {
                    effects: seq![EffectView::Log(done), EffectView::WriteStatus(status)],
                    request: RequestView::ReadFlags,
                },
            )
        },
{
}

/// An answer to something that was not asked for changes nothing, and nothing is done.
pub proof fn unasked_answer_is_ignored(d: DaemonView, input: InputView, home: Option<Seq<u8>>)
    requires
        match input {
            InputView::WatcherCreated(_) => d.phase !is Creating,
            InputView::Watched(_) => d.phase !is Attaching && d.phase !is Watching,
            InputView::Flags { stop, reload } => d.phase !is Polling,
            InputView::Loaded(_) => d.phase !is Loading,
            InputView::Unwatched(_) => d.phase !is Unwatching,
            InputView::Received(_) => d.phase !is Receiving,
            InputView::Inspected { exists, is_dir } => d.phase !is Inspecting,
            InputView::Moved(_) => d.phase !is Moving,
        },
    ensures
        next(d, input, home).0 == d,
        next(d, input, home).1.effects == Seq::<EffectView>::empty(),
{
}

/// Whether a daemon moves files, its process id and the time of its start never change. Its
/// configuration changes by a reload alone, its path by a watched one alone, and the count
/// by a file that was moved alone, by one.
pub proof fn nothing_changes_by_itself(d: DaemonView, input: InputView, home: Option<Seq<u8>>)
    ensures
        ({
            let e = next(d, input, home).0;
            &&& e.dry_run == d.dry_run
            &&& e.status.pid == d.status.pid
            &&& e.status.started_at == d.status.started_at
            &&& e.config != d.config ==> (d.phase is Loading && input == InputView::Loaded(
                Ok(e.config),
            )) || (d.phase is Watching && d.phase->Watching_config == e.config && input is Watched)
            &&& e.watch_path != d.watch_path ==> d.phase is Watching && d.phase->Watching_path
                == e.watch_path && input == InputView::Watched(None)
            &&& e.status.files_sorted != d.status.files_sorted ==> d.phase is Moving && input
                == InputView::Moved(None) && e.status.files_sorted == d.status.files_sorted + 1
            &&& e.status.last_action != d.status.last_action ==> d.phase is Moving && input
                == InputView::Moved(None)
        }),
{
}

/// The extension by which a file with the given name is sorted: what follows the last dot.
proof fn lemma_sorting_extension(path: Seq<u8>, front: Seq<u8>, ext: Seq<char>)
    requires
        front.len() > 0,
        forall|k: int| 0 <= k < ext.len() ==> #[trigger] ext[k] != '.',
        file_name_of(path) == Some(front + seq!['.' as u8] + encode_utf8(ext)),
    ensures
        sorting_extension(path) == Some(ext),
{
    text_without_a_dot_has_no_such_byte(ext, 0);
    name_is_parted_at_its_last_dot(front, encode_utf8(ext));
    text_of_a_path_is_its_text(ext, Seq::empty());
}

/// A file that is still being downloaded is left alone: for every partial extension that the
/// configuration lists, a file whose extension is that one, in whatever case, is passed over.
/// Nothing is done, nothing is logged, and nothing of the daemon changes.
pub proof fn every_partial_extension_is_left_alone(
    d: DaemonView,
    path: Seq<u8>,
    front: Seq<u8>,
    ext: Seq<char>,
    i: int,
    there: bool,
    is_dir: bool,
    home: Option<Seq<u8>>,
)
    requires
        d.phase == (PhaseView::Inspecting { path }),
        front.len() > 0,
        forall|k: int| 0 <= k < ext.len() ==> #[trigger] ext[k] != '.',
        file_name_of(path) == Some(front + seq!['.' as u8] + encode_utf8(ext)),
        0 <= i < d.config.partial.extensions@.len(),
        lowercase(d.config.partial.extensions@[i]@) == lowercase(ext),
    ensures
        next(d, InputView::Inspected { exists: there, is_dir }, home) == (
            DaemonView { phase: PhaseView::Polling, ..d },
            OutputView { effects: seq![], request: RequestView::ReadFlags },
        ),
{
    lemma_sorting_extension(path, front, ext);
}

/// `home` tells where the path that the configuration has at the key leads to.
pub open spec fn leads_to(
    config: Config,
    key: Seq<char>,
    home: Option<Seq<u8>>,
    dest_dir: Seq<u8>,
) -> bool {
    config.destinations@.contains_key(key) && expanded(config.destinations@[key]@, home) == Some(
        dest_dir,
    )
}

/// What comes of a file of the given category that is no partial download.
proof fn lemma_sorted(
    d: DaemonView,
    path: Seq<u8>,
    own: Seq<u8>,
    category: Category,
    dest_dir: Seq<u8>,
    home: Option<Seq<u8>>,
)
    requires
        d.phase == (PhaseView::Inspecting { path }),
        file_name_of(path) == Some(own),
        sorting_extension(path) matches Some(e) ==> !is_partial(d.config, lowercase(e)),
        sorted_as(d.config, sorting_extension(path)) == category,
    ensures
        is_sorted_into(d, path, own, category.key_text(), category.name_text(), dest_dir, home),
{
}

/// The file at `path`, whose name is `own`, is sorted into the folder that the configuration
/// has at the key: it is logged with the given name of its category, and moved into the
/// folder. In a dry run the log says what would be done in place of that. Where there is no
/// folder for the key it stays where it is; and where the folder needs a home directory and
/// there is none, the daemon cannot go on.
pub open spec fn is_sorted_into(
    d: DaemonView,
    path: Seq<u8>,
    own: Seq<u8>,
    key: Seq<char>,
    category_name: Seq<char>,
    dest_dir: Seq<u8>,
    home: Option<Seq<u8>>,
) -> bool {
    let (e, out) = next(d, InputView::Inspected { exists: true, is_dir: false }, home);
    let name = lossy(own);
    &&& out.effects.len() > 0
    &&& out.effects[0] == EffectView::Log(name + " -> "@ + category_name)
    &&& DaemonView { phase: d.phase, ..e } == d
    &&& leads_to(d.config, key, home, dest_dir) && !d.dry_run ==> {
        &&& out.effects.len() == 1
        &&& out.request == RequestView::Move { path, dest_dir }
        &&& e.phase == PhaseView::Moving { path, name, dest_dir }
    }
    &&& leads_to(d.config, key, home, dest_dir) && d.dry_run ==> {
        &&& out.effects.len() == 2
        &&& out.effects[1] == EffectView::Log(
            "[dry-run] would move "@ + name + " -> "@ + shown(dest_dir),
        )
        &&& out.request is ReadFlags
        &&& e.phase is Polling
    }
    &&& !d.config.destinations@.contains_key(key) ==> {
        &&& out.effects.len() == 1
        &&& out.request is ReadFlags
        &&& e.phase is Polling
    }
    &&& d.config.destinations@.contains_key(key) && expanded(
        d.config.destinations@[key]@,
        home,
    ) is None ==> {
        &&& out.effects.len() == 1
        &&& out.request == RequestView::Fail("could not determine home directory"@)
        &&& e.phase is Failed
    }
}

/// The extension, in lower case, is listed by the group and by no group with another key,
/// and it is not one of files that are still being downloaded.
pub open spec fn is_listed_by(config: Config, i: int, lowered: Seq<char>) -> bool {
    let groups = config.extensions@;
    &&& 0 <= i < groups.len()
    &&& exists|k: int|
        0 <= k < groups[i].extensions@.len() && lowercase(#[trigger] groups[i].extensions@[k]@)
            == lowered
    &&& forall|j: int, m: int|
        0 <= j < groups.len() && 0 <= m < groups[j].extensions@.len() && lowercase(
            #[trigger] groups[j].extensions@[m]@,
        ) == lowered ==> groups[j].key@ == groups[i].key@
    &&& forall|p: int|
        0 <= p < config.partial.extensions@.len() ==> lowercase(
            #[trigger] config.partial.extensions@[p]@,
        ) != lowered
}

/// A file goes to the folder of its type: one whose extension a group lists, in whatever
/// case, is sorted into the folder that the configuration has at the key of that group, and
/// is logged with the name of that category.
pub proof fn file_goes_to_the_folder_of_its_type(
    d: DaemonView,
    path: Seq<u8>,
    front: Seq<u8>,
    ext: Seq<char>,
    i: int,
    dest_dir: Seq<u8>,
    home: Option<Seq<u8>>,
)
    requires
        d.phase == (PhaseView::Inspecting { path }),
        front.len() > 0,
        forall|k: int| 0 <= k < ext.len() ==> #[trigger] ext[k] != '.',
        file_name_of(path) == Some(front + seq!['.' as u8] + encode_utf8(ext)),
        is_listed_by(d.config, i, lowercase(ext)),
    ensures
        ({
            let own = front + seq!['.' as u8] + encode_utf8(ext);
            let key = d.config.extensions@[i].key@;
            &&& key == "image"@ ==> is_sorted_into(d, path, own, key, "Image"@, dest_dir, home)
            &&& key == "doc"@ ==> is_sorted_into(d, path, own, key, "Doc"@, dest_dir, home)
            &&& key == "archive"@ ==> is_sorted_into(d, path, own, key, "Archive"@, dest_dir, home)
            &&& key == "video"@ ==> is_sorted_into(d, path, own, key, "Video"@, dest_dir, home)
            &&& key == "audio"@ ==> is_sorted_into(d, path, own, key, "Audio"@, dest_dir, home)
            &&& key != "image"@ && key != "doc"@ && key != "archive"@ && key != "video"@ && key
                != "audio"@ ==> is_sorted_into(
                d,
                path,
                own,
                "other"@,
                "Other"@,
                dest_dir,
                home,
            )
        }),
{
    let groups = d.config.extensions@;
    let key = groups[i].key@;
    let own = front + seq!['.' as u8] + encode_utf8(ext);
    let category = Category::of_key(key);
    lemma_sorting_extension(path, front, ext);
    let last = lemma_last_lister(groups, i, lowercase(ext));
    listed_extension_belongs_to_its_group(groups, last.0, last.1, lowercase(ext));
    lemma_sorted(d, path, own, category, dest_dir, home);
    key_text_names_its_category(key);
}

/// The last group that lists an extension, and where.
proof fn lemma_last_lister(groups: Seq<ExtensionGroup>, i: int, lowered: Seq<char>) -> (r: (
    int,
    int,
))
    requires
        0 <= i < groups.len(),
        exists|k: int|
            0 <= k < groups[i].extensions@.len() && lowercase(#[trigger] groups[i].extensions@[k]@)
                == lowered,
    ensures
        i <= r.0 < groups.len(),
        0 <= r.1 < groups[r.0].extensions@.len(),
        lowercase(groups[r.0].extensions@[r.1]@) == lowered,
        forall|j: int, m: int|
            r.0 < j < groups.len() && 0 <= m < groups[j].extensions@.len() ==> lowercase(
                #[trigger] groups[j].extensions@[m]@,
            ) != lowered,
    decreases groups.len() - i,
{
    if exists|j: int, m: int|
        i < j < groups.len() && 0 <= m < groups[j].extensions@.len() && lowercase(
            #[trigger] groups[j].extensions@[m]@,
        ) == lowered {
        let (j, m) = choose|j: int, m: int|
            i < j < groups.len() && 0 <= m < groups[j].extensions@.len() && lowercase(
                #[trigger] groups[j].extensions@[m]@,
            ) == lowered;
        lemma_last_lister(groups, j, lowered)
    } else {
        let k = choose|k: int|
            0 <= k < groups[i].extensions@.len() && lowercase(#[trigger] groups[i].extensions@[k]@)
                == lowered;
        (i, k)
    }
}

/// Any other file goes to the folder for other files, and is not passed over: one whose
/// extension is listed nowhere, neither with a type nor as partial; one without an
/// extension; and one whose extension is not text.
pub proof fn any_other_file_goes_to_the_folder_for_others(
    d: DaemonView,
    path: Seq<u8>,
    own: Seq<u8>,
    front: Seq<u8>,
    ext: Seq<u8>,
    ext_text: Seq<char>,
    dest_dir: Seq<u8>,
    home: Option<Seq<u8>>,
)
    requires
        d.phase == (PhaseView::Inspecting { path }),
        file_name_of(path) == Some(own),
        ({
            let no_dot = forall|k: int| 1 <= k < own.len() ==> #[trigger] own[k] != '.' as u8;
            let parted = front.len() > 0 && own == front + seq!['.' as u8] + ext && forall|k: int|
                0 <= k < ext.len() ==> #[trigger] ext[k] != '.' as u8;
            let unlisted = ext == encode_utf8(ext_text) && (forall|j: int, m: int|
                0 <= j < d.config.extensions@.len() && 0 <= m
                    < d.config.extensions@[j].extensions@.len() ==> lowercase(
                    #[trigger] d.config.extensions@[j].extensions@[m]@,
                ) != lowercase(ext_text)) && (forall|p: int|
                0 <= p < d.config.partial.extensions@.len() ==> lowercase(
                    #[trigger] d.config.partial.extensions@[p]@,
                ) != lowercase(ext_text));
            no_dot || (parted && (!valid_utf8(ext) || unlisted))
        }),
    ensures
        is_sorted_into(d, path, own, "other"@, "Other"@, dest_dir, home),
{
    let no_dot = forall|k: int| 1 <= k < own.len() ==> #[trigger] own[k] != '.' as u8;
    if no_dot {
        name_without_a_dot_is_its_stem(own);
    } else {
        name_is_parted_at_its_last_dot(front, ext);
        text_of_a_path_is_its_text(ext_text, ext);
        if valid_utf8(ext) {
            listed_extension_belongs_to_its_group(d.config.extensions@, 0, 0, lowercase(ext_text));
        }
    }
    lemma_sorted(d, path, own, Category::Other, dest_dir, home);
    key_text_names_its_category("other"@);
}

/// A file without a name cannot be sorted, and the daemon cannot go on.
pub proof fn file_without_a_name_ends_the_daemon(
    d: DaemonView,
    path: Seq<u8>,
    home: Option<Seq<u8>>,
)
    requires
        d.phase == (PhaseView::Inspecting { path }),
        file_name_of(path) is None,
    ensures
        ({
            let (e, out) = next(d, InputView::Inspected { exists: true, is_dir: false }, home);
            &&& out.effects == Seq::<EffectView>::empty()
            &&& out.request == RequestView::Fail("file has no name"@)
            &&& e.phase is Failed
        }),
{
}

/// An answer is seen as it was given: every error with its text, every event with its kind
/// and all of its paths in their order.
pub proof fn answer_is_seen_as_it_was_given(input: Input)
    ensures
        input matches Input::WatcherCreated(Some(e)) ==> input@ == InputView::WatcherCreated(
            Some(e@),
        ),
        input matches Input::WatcherCreated(None) ==> input@ == InputView::WatcherCreated(None),
        input matches Input::Watched(Some(e)) ==> input@ == InputView::Watched(Some(e@)),
        input matches Input::Watched(None) ==> input@ == InputView::Watched(None),
        input matches Input::Unwatched(Some(e)) ==> input@ == InputView::Unwatched(Some(e@)),
        input matches Input::Unwatched(None) ==> input@ == InputView::Unwatched(None),
        input matches Input::Moved(Some(e)) ==> input@ == InputView::Moved(Some(e@)),
        input matches Input::Moved(None) ==> input@ == InputView::Moved(None),
        input matches Input::Flags { stop, reload } ==> input@ == (InputView::Flags {
            stop,
            reload,
        }),
        input matches Input::Inspected { exists: there, is_dir } ==> input@
            == (InputView::Inspected { exists: there, is_dir }),
        input matches Input::Loaded(Ok(config)) ==> input@ == InputView::Loaded(Ok(config)),
        input matches Input::Loaded(Err(ConfigError::Io(e))) ==> input@ == InputView::Loaded(
            Err(e@),
        ),
        input matches Input::Loaded(Err(ConfigError::Parse(e))) ==> input@ == InputView::Loaded(
            Err(e@),
        ),
        input matches Input::Loaded(Err(ConfigError::NoConfigDir)) ==> input@
            == InputView::Loaded(Err("could not determine the config directory"@)),
        input matches Input::Received(Received::Timeout) ==> input@ == InputView::Received(
            ReceivedView::Timeout,
        ),
        input matches Input::Received(Received::Disconnected) ==> input@ == InputView::Received(
            ReceivedView::Disconnected,
        ),
        input matches Input::Received(Received::Error(e)) ==> input@ == InputView::Received(
            ReceivedView::Error(e@),
        ),
        input matches Input::Received(Received::Event { kind, paths }) ==> {
            &&& input@ matches InputView::Received(ReceivedView::Event { kind: seen, paths: raws })
            &&& seen == kind
            &&& raws.len() == paths@.len()
            &&& forall|i: int| 0 <= i < raws.len() ==> #[trigger] raws[i] == raw(paths@[i])
        },
{
}

/// What is asked for and what is done is what is said of it: with the same paths, the same
/// lines and the same status.
pub proof fn output_is_what_is_said_of_it(out: Output)
    ensures
        out@.effects.len() == out.effects@.len(),
        forall|i: int|
            0 <= i < out.effects@.len() ==> match #[trigger] out.effects@[i] {
                Effect::Log(line) => out@.effects[i] == EffectView::Log(line@),
                Effect::WriteStatus(status) => {
                    &&& out@.effects[i] matches EffectView::WriteStatus(said)
                    &&& said.watching == status.watching@
                    &&& said.pid == status.pid
                    &&& said.started_at == status.started_at
                    &&& said.files_sorted == status.files_sorted
                    &&& said.last_action is Some <==> status.last_action is Some
                    &&& status.last_action matches Some(last) ==> said.last_action == Some(last@)
                },
                Effect::RemovePidFile => out@.effects[i] == EffectView::RemovePidFile,
                Effect::Rewatch(path) => out@.effects[i] == EffectView::Rewatch(raw(path)),
            },
        match out.request {
            Request::CreateWatcher => out@.request == RequestView::CreateWatcher,
            Request::Watch(path) => out@.request == RequestView::Watch(raw(path)),
            Request::ReadFlags => out@.request == RequestView::ReadFlags,
            Request::LoadConfig => out@.request == RequestView::LoadConfig,
            Request::Unwatch(path) => out@.request == RequestView::Unwatch(raw(path)),
            Request::Receive => out@.request == RequestView::Receive,
            Request::Inspect(path) => out@.request == RequestView::Inspect(raw(path)),
            Request::Move { path, dest_dir } => out@.request == (RequestView::Move {
                path: raw(path),
                dest_dir: raw(dest_dir),
            }),
            Request::Exit { success } => out@.request == (RequestView::Exit { success }),
            Request::Fail(message) => out@.request == RequestView::Fail(message@),
        },
{
}

/// A daemon starts on the path that its configuration names, as it is or in the home
/// directory, and with what else it is given; and where the path needs a home directory and
/// there is none, it does not start.
pub proof fn daemon_starts_on_the_path_it_is_given(
    config: Config,
    dry_run: bool,
    pid: i32,
    started_at: u64,
    home: Option<&PathBuf>,
    r: Option<(Daemon, Output)>,
)
    requires
        call_ensures(Daemon::start_in, (config, dry_run, pid, started_at, home), r),
    ensures
        ({
            let path = config.watch.path@;
            let tilde = path.len() >= 2 && path[0] == '~' && (path[1] == '/' || path[1] == '\\');
            &&& r is None <==> tilde && home is None
            &&& r matches Some((d, out)) ==> {
                &&& d@.watch_path == if tilde {
                    joined(raw(*home->0), encode_utf8(path.skip(2)))
                } else {
                    encode_utf8(path)
                }
                &&& d@.config == config
                &&& d@.dry_run == dry_run
                &&& d@.status.pid == pid
                &&& d@.status.started_at == started_at
                &&& d@.status.files_sorted == 0
                &&& d@.status.last_action is None
                &&& d@.status.watching == shown(d@.watch_path)
                &&& d@.phase is Creating
                &&& out.request is CreateWatcher
            }
        }),
{
    tilde_path_is_expanded(config.watch.path@, opt_path(home));
    match r {
        Some((_, out)) => output_is_what_is_said_of_it(out),
        None => {},
    }
}

/// The set of partial extensions has every one that the configuration lists, in lower case,
/// and no other.
pub proof fn partial_set_has_every_listed_extension(
    config: &Config,
    e: Seq<char>,
    r: StringHashSet,
)
    requires
        call_ensures(partial_extensions, (config,), r),
    ensures
        r@.contains(e) <==> exists|i: int|
            0 <= i < config.partial.extensions@.len() && lowercase(
                #[trigger] config.partial.extensions@[i]@,
            ) == e,
{
}

} // verus!
