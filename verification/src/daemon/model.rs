//! What each answer leads to.
use vstd::prelude::*;
use crate::config::status::StatusView;
use crate::config::Config;
use crate::daemon::{
    DaemonView, EffectView, EventKind, InputView, OutputView, PhaseView, ReceivedView, RequestView,
};
use crate::paths::{extension_of, file_name_of, lossy, same_place, shown, unicode};
use crate::text::lowercase;
use crate::types::{destination, Category, DestinationView};
use crate::utils::{expanded, holds, listed_category};

verus! {

/// The request that is pending while the daemon is in a phase.
pub open spec fn pending(d: DaemonView) -> RequestView {
    match d.phase {
        PhaseView::Creating => RequestView::CreateWatcher,
        PhaseView::Attaching => RequestView::Watch(d.watch_path),
        PhaseView::Polling => RequestView::ReadFlags,
        PhaseView::Loading => RequestView::LoadConfig,
        PhaseView::Unwatching { config, path } => RequestView::Unwatch(d.watch_path),
        PhaseView::Watching { config, path } => RequestView::Watch(path),
        PhaseView::Receiving => RequestView::Receive,
        PhaseView::Inspecting { path } => RequestView::Inspect(path),
        PhaseView::Moving { path, name, dest_dir } => RequestView::Move { path, dest_dir },
        PhaseView::Stopped { success } => RequestView::Exit { success },
        PhaseView::Failed { message } => RequestView::Fail(message),
    }
}

/// The daemon goes into a phase.
pub open spec fn go(d: DaemonView, phase: PhaseView) -> DaemonView {
    DaemonView { phase, ..d }
}

/// A step: the daemon after it, with the request that is pending then, and what to do.
pub open spec fn step_to(d: DaemonView, effects: Seq<EffectView>) -> (DaemonView, OutputView) {
    (d, OutputView { effects, request: pending(d) })
}

/// The extension is one of files that are still being downloaded, in whatever case.
pub open spec fn is_partial(config: Config, lowered: Seq<char>) -> bool {
    holds(config.partial.extensions@, lowered)
}

/// The category of files with the given extension under a configuration.
pub open spec fn sorted_as(config: Config, ext: Option<Seq<char>>) -> Category {
    match ext {
        Some(e) => match listed_category(config.extensions@, lowercase(e)) {
            Some(category) => category,
            None => Category::Other,
        },
        None => Category::Other,
    }
}

pub open spec fn moved_text(name: Seq<char>, dest_dir: Seq<u8>) -> Seq<char> {
    "moved "@ + name + " -> "@ + shown(dest_dir)
}

/// A daemon that watches `watch_path` from its start on, before its watcher is created.
pub open spec fn started(
    config: Config,
    dry_run: bool,
    pid: i32,
    started_at: u64,
    watch_path: Seq<u8>,
) -> (DaemonView, OutputView) {
    let status = StatusView {
        watching: shown(watch_path),
        pid,
        started_at,
        last_action: None,
        files_sorted: 0,
    };
    step_to(
        DaemonView { config, watch_path, status, dry_run, phase: PhaseView::Creating },
        seq![EffectView::WriteStatus(status)],
    )
}

/// The watcher was created, or not.
pub open spec fn after_creation(d: DaemonView, error: Option<Seq<char>>) -> (
    DaemonView,
    OutputView,
) {
    match error {
        None => step_to(go(d, PhaseView::Attaching), seq![]),
        Some(e) => step_to(
            go(d, PhaseView::Stopped { success: false }),
            seq![EffectView::Log("failed to create watcher: "@ + e)],
        ),
    }
}

/// The first path is watched, or not.
pub open spec fn after_attachment(d: DaemonView, error: Option<Seq<char>>) -> (
    DaemonView,
    OutputView,
) {
    match error {
        None => step_to(go(d, PhaseView::Polling), seq![]),
        Some(e) => step_to(
            go(d, PhaseView::Stopped { success: false }),
            seq![EffectView::Log("failed to watch "@ + shown(d.watch_path) + ": "@ + e)],
        ),
    }
}

/// A request to stop comes before one to reload; without either, the daemon waits for
/// the watcher.
pub open spec fn after_flags(d: DaemonView, stop: bool, reload: bool) -> (DaemonView, OutputView) {
    if stop {
        step_to(
            go(d, PhaseView::Stopped { success: true }),
            seq![
                EffectView::Log("dsorter received stop signal, shutting down"@),
                EffectView::RemovePidFile,
            ],
        )
    } else if reload {
        step_to(go(d, PhaseView::Loading), seq![])
    } else {
        step_to(go(d, PhaseView::Receiving), seq![])
    }
}

/// A configuration that was loaded is adopted, after the watched path was changed where
/// it names another one. One that could not be loaded changes nothing.
pub open spec fn after_load(
    d: DaemonView,
    loaded: Result<Config, Seq<char>>,
    home: Option<Seq<u8>>,
) -> (DaemonView, OutputView) {
    match loaded {
        Err(e) => step_to(
            go(d, PhaseView::Receiving),
            seq![EffectView::Log("reload failed, keeping old config: "@ + e)],
        ),
        Ok(config) => match expanded(config.watch.path@, home) {
            None => step_to(
                go(d, PhaseView::Failed { message: "could not determine home directory"@ }),
                seq![],
            ),
            Some(path) => if same_place(path, d.watch_path) {
                step_to(
                    DaemonView { config, phase: PhaseView::Receiving, ..d },
                    seq![EffectView::Log("config reloaded"@)],
                )
            } else {
                step_to(go(d, PhaseView::Unwatching { config, path }), seq![])
            },
        },
    }
}

/// The old path may or may not be watched any longer; the new one is tried in any case.
pub open spec fn after_unwatching(
    d: DaemonView,
    config: Config,
    path: Seq<u8>,
    error: Option<Seq<char>>,
) -> (DaemonView, OutputView) {
    step_to(
        go(d, PhaseView::Watching { config, path }),
        match error {
            None => seq![],
            Some(e) => seq![EffectView::Log("failed to unwatch "@ + shown(d.watch_path) + ": "@ + e)],
        },
    )
}

/// Where the new path is watched, it takes the place of the old one; else the old one is
/// watched again. The configuration is adopted either way.
pub open spec fn after_watching(
    d: DaemonView,
    config: Config,
    path: Seq<u8>,
    error: Option<Seq<char>>,
) -> (DaemonView, OutputView) {
    match error {
        None => {
            let status = StatusView { watching: shown(path), ..d.status };
            step_to(
                DaemonView {
                    config,
                    watch_path: path,
                    status,
                    phase: PhaseView::Receiving,
                    ..d
                },
                seq![
                    EffectView::Log("now watching "@ + shown(path)),
                    EffectView::WriteStatus(status),
                    EffectView::Log("config reloaded"@),
                ],
            )
        },
        Some(e) => step_to(
            DaemonView { config, phase: PhaseView::Receiving, ..d },
            seq![
                EffectView::Log("failed to watch "@ + shown(path) + ": "@ + (e + " — reverting"@)),
                EffectView::Rewatch(d.watch_path),
                EffectView::Log("config reloaded"@),
            ],
        ),
    }
}

/// A file that was created or renamed is looked at; nothing else is. Of more than one path
/// the last one counts: where a file was renamed, that is its new name.
pub open spec fn after_receiving(d: DaemonView, received: ReceivedView) -> (
    DaemonView,
    OutputView,
) {
    match received {
        ReceivedView::Timeout => step_to(go(d, PhaseView::Polling), seq![]),
        ReceivedView::Disconnected => step_to(
            go(d, PhaseView::Stopped { success: true }),
            seq![EffectView::Log("watcher channel disconnected, shutting down"@)],
        ),
        ReceivedView::Error(e) => step_to(
            go(d, PhaseView::Polling),
            seq![EffectView::Log("watch error: "@ + e)],
        ),
        ReceivedView::Event { kind, paths } => if kind != EventKind::Other && paths.len() > 0 {
            step_to(go(d, PhaseView::Inspecting { path: paths.last() }), seq![])
        } else {
            step_to(go(d, PhaseView::Polling), seq![])
        },
    }
}

/// The extension by which a file is sorted: that of its name, where it is Unicode text.
pub open spec fn sorting_extension(path: Seq<u8>) -> Option<Seq<char>> {
    unicode(extension_of(path))
}

/// What is no file, and what is still being downloaded, is passed over. Any other file is
/// logged with its category and moved to the folder of the category, where it has one; in
/// a dry run it is only logged.
pub open spec fn after_inspection(
    d: DaemonView,
    path: Seq<u8>,
    is_file: bool,
    home: Option<Seq<u8>>,
) -> (DaemonView, OutputView) {
    if !is_file {
        step_to(go(d, PhaseView::Polling), seq![])
    } else {
        match file_name_of(path) {
            None => step_to(
                go(d, PhaseView::Failed { message: "file has no name"@ }),
                seq![],
            ),
            Some(own) => {
                let name = lossy(own);
                let ext = sorting_extension(path);
                if ext is Some && is_partial(d.config, lowercase(ext->0)) {
                    step_to(go(d, PhaseView::Polling), seq![])
                } else {
                    let category = sorted_as(d.config, ext);
                    let found = EffectView::Log(name + " -> "@ + category.name_text());
                    match destination(category, d.config, home) {
                        DestinationView::Unset => step_to(go(d, PhaseView::Polling), seq![found]),
                        DestinationView::NoHome => step_to(
                            go(
                                d,
                                PhaseView::Failed {
                                    message: "could not determine home directory"@,
                                },
                            ),
                            seq![found],
                        ),
                        DestinationView::Folder(dest_dir) => if d.dry_run {
                            step_to(
                                go(d, PhaseView::Polling),
                                seq![
                                    found,
                                    EffectView::Log(
                                        "[dry-run] would move "@ + name + " -> "@ + shown(dest_dir),
                                    ),
                                ],
                            )
                        } else {
                            step_to(
                                go(d, PhaseView::Moving { path, name, dest_dir }),
                                seq![found],
                            )
                        },
                    }
                }
            },
        }
    }
}

/// A file that was moved is counted, and the status tells of it. Where the count is full
/// the daemon cannot go on.
pub open spec fn after_move(
    d: DaemonView,
    name: Seq<char>,
    dest_dir: Seq<u8>,
    error: Option<Seq<char>>,
) -> (DaemonView, OutputView) {
    match error {
        Some(e) => step_to(
            go(d, PhaseView::Polling),
            seq![EffectView::Log("failed to move "@ + name + ": "@ + e)],
        ),
        None => {
            let done = moved_text(name, dest_dir);
            if d.status.files_sorted == u64::MAX {
                step_to(
                    go(d, PhaseView::Failed { message: "too many files sorted"@ }),
                    seq![EffectView::Log(done)],
                )
            } else {
                let status = StatusView {
                    files_sorted: (d.status.files_sorted + 1) as u64,
                    last_action: Some(done),
                    ..d.status
                };
                step_to(
                    DaemonView { status, phase: PhaseView::Polling, ..d },
                    seq![EffectView::Log(done), EffectView::WriteStatus(status)],
                )
            }
        },
    }
}

/// What an answer leads to, with the given home directory. An answer to another request
/// than the pending one changes nothing.
pub open spec fn next(d: DaemonView, input: InputView, home: Option<Seq<u8>>) -> (
    DaemonView,
    OutputView,
) {
    match (d.phase, input) {
        (PhaseView::Creating, InputView::WatcherCreated(error)) => after_creation(d, error),
        (PhaseView::Attaching, InputView::Watched(error)) => after_attachment(d, error),
        (PhaseView::Polling, InputView::Flags { stop, reload }) => after_flags(d, stop, reload),
        (PhaseView::Loading, InputView::Loaded(loaded)) => after_load(d, loaded, home),
        (
            PhaseView::Unwatching { config, path },
            InputView::Unwatched(error),
        ) => after_unwatching(d, config, path, error),
        (PhaseView::Watching { config, path }, InputView::Watched(error)) => after_watching(
            d,
            config,
            path,
            error,
        ),
        (PhaseView::Receiving, InputView::Received(received)) => after_receiving(d, received),
        (
            PhaseView::Inspecting { path },
            InputView::Inspected { exists, is_dir },
        ) => after_inspection(d, path, exists && !is_dir, home),
        (PhaseView::Moving { path, name, dest_dir }, InputView::Moved(error)) => after_move(
            d,
            name,
            dest_dir,
            error,
        ),
        _ => step_to(d, seq![]),
    }
}

} // verus!
